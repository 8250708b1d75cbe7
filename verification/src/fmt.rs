use vstd::prelude::*;

verus! {

use vstd::string::StrSliceExecFns;
use vstd::string::StringExecFns;

/// Longest name rendered as-is; longer names are shortened in the middle.
pub const MAX_NAME_LEN: usize = 30;

/// The character for one decimal digit.
pub open spec fn digit_char(d: int) -> char {
    if d == 0 {
        '0'
    } else if d == 1 {
        '1'
    } else if d == 2 {
        '2'
    } else if d == 3 {
        '3'
    } else if d == 4 {
        '4'
    } else if d == 5 {
        '5'
    } else if d == 6 {
        '6'
    } else if d == 7 {
        '7'
    } else if d == 8 {
        '8'
    } else {
        '9'
    }
}

/// The decimal representation of a non-negative integer, most significant
/// digit first, with no leading zeros (a single `0` for zero).
pub open spec fn dec_rep(v: int) -> Seq<char>
    recommends
        v >= 0,
    decreases v,
{
    if v < 10 {
        seq![digit_char(v)]
    } else {
        dec_rep(v / 10).push(digit_char(v % 10))
    }
}

/// Division rounded to the nearest integer, ties to even.
pub open spec fn round_div(v: int, d: int) -> int
    recommends
        v >= 0,
        d >= 1,
{
    let q = v / d;
    let r = v % d;
    if 2 * r > d || (2 * r == d && q % 2 == 1) {
        q + 1
    } else {
        q
    }
}

/// Two decimal digits, zero-padded on the left.
pub open spec fn pad2_rep(r: int) -> Seq<char>
    recommends
        0 <= r < 100,
{
    if r < 10 {
        seq!['0', digit_char(r)]
    } else {
        seq![digit_char(r / 10), digit_char(r % 10)]
    }
}

/// `v / d` rendered with exactly two decimal places, rounded to nearest
/// (ties to even).
pub open spec fn two_dec_rep(v: int, d: int) -> Seq<char>
    recommends
        v >= 0,
        d >= 1,
{
    let scaled = round_div(v * 100, d);
    dec_rep(scaled / 100) + seq!['.'] + pad2_rep(scaled % 100)
}

/// An operation count scaled by magnitude: below one thousand it is shown
/// as-is, then rounded to thousands (`K`), millions (`M`) or billions
/// (`B`), the unit shown only when asked for.
pub open spec fn spec_format_ops(v: int, with_unit: bool) -> Seq<char>
    recommends
        v >= 0,
{
    if v < 1000 {
        dec_rep(v)
    } else if v < 1000000 {
        dec_rep(round_div(v, 1000)) + (if with_unit {
            seq![' ', 'K']
        } else {
            Seq::<char>::empty()
        })
    } else if v < 1000000000 {
        dec_rep(round_div(v, 1000000)) + (if with_unit {
            seq![' ', 'M']
        } else {
            Seq::<char>::empty()
        })
    } else {
        dec_rep(round_div(v, 1000000000)) + (if with_unit {
            seq![' ', 'B']
        } else {
            Seq::<char>::empty()
        })
    }
}

/// A duration in nanoseconds, unit-scaled by the magnitude of `mean`:
/// nanoseconds below one thousand, then microseconds, milliseconds and
/// seconds. The short form truncates to whole units; the long form keeps
/// two decimal places.
pub open spec fn spec_format_duration(value: int, mean: int, short: bool) -> Seq<char>
    recommends
        value >= 0,
        mean >= 0,
{
    if mean < 1000 {
        dec_rep(value) + seq![' ', 'n', 's']
    } else if mean < 1000000 {
        (if short {
            dec_rep(value / 1000)
        } else {
            two_dec_rep(value, 1000)
        }) + seq![' ', 'µ', 's']
    } else if mean < 1000000000 {
        (if short {
            dec_rep(value / 1000000)
        } else {
            two_dec_rep(value, 1000000)
        }) + seq![' ', 'm', 's']
    } else {
        (if short {
            dec_rep(value / 1000000000)
        } else {
            two_dec_rep(value, 1000000000)
        }) + seq![' ', ' ', 's']
    }
}

/// `s` with the prefix `p` removed when it starts with `p`, else `s`.
pub open spec fn spec_strip(s: Seq<char>, p: Seq<char>) -> Seq<char> {
    if p.len() <= s.len() && s.take(p.len() as int) == p {
        s.skip(p.len() as int)
    } else {
        s
    }
}

pub open spec fn bench_prefix() -> Seq<char> {
    seq!['b', 'e', 'n', 'c', 'h', '_']
}

pub open spec fn test_prefix() -> Seq<char> {
    seq!['t', 'e', 's', 't', '_']
}

/// A benchmark name with its `bench_` and `test_` prefixes stripped, and
/// shortened in the middle to at most thirty characters.
pub open spec fn spec_format_name(s: Seq<char>) -> Seq<char> {
    let stripped = spec_strip(spec_strip(s, bench_prefix()), test_prefix());
    if stripped.len() > 30 {
        stripped.take(14) + seq!['.', '.', '.'] + stripped.skip(stripped.len() - 13)
    } else {
        stripped
    }
}

/// Append the single digit `d` to `s`.
fn push_digit(s: &mut String, d: u128)
    requires
        d < 10,
    ensures
        final(s)@ == old(s)@.push(digit_char(d as int)),
{
    if d == 0 {
        proof { reveal_strlit("0"); }
        s.append("0");
        assert(s@ =~= old(s)@.push('0'));
    } else if d == 1 {
        proof { reveal_strlit("1"); }
        s.append("1");
        assert(s@ =~= old(s)@.push('1'));
    } else if d == 2 {
        proof { reveal_strlit("2"); }
        s.append("2");
        assert(s@ =~= old(s)@.push('2'));
    } else if d == 3 {
        proof { reveal_strlit("3"); }
        s.append("3");
        assert(s@ =~= old(s)@.push('3'));
    } else if d == 4 {
        proof { reveal_strlit("4"); }
        s.append("4");
        assert(s@ =~= old(s)@.push('4'));
    } else if d == 5 {
        proof { reveal_strlit("5"); }
        s.append("5");
        assert(s@ =~= old(s)@.push('5'));
    } else if d == 6 {
        proof { reveal_strlit("6"); }
        s.append("6");
        assert(s@ =~= old(s)@.push('6'));
    } else if d == 7 {
        proof { reveal_strlit("7"); }
        s.append("7");
        assert(s@ =~= old(s)@.push('7'));
    } else if d == 8 {
        proof { reveal_strlit("8"); }
        s.append("8");
        assert(s@ =~= old(s)@.push('8'));
    } else {
        proof { reveal_strlit("9"); }
        s.append("9");
        assert(s@ =~= old(s)@.push('9'));
    }
}

/// Render a non-negative integer in decimal.
fn dec_string(v: u128) -> (s: String)
    ensures
        s@ == dec_rep(v as int),
    decreases v,
{
    if v < 10 {
        let mut s = String::new();
        push_digit(&mut s, v);
        proof {
            assert(s@ =~= dec_rep(v as int));
        }
        s
    } else {
        let mut s = dec_string(v / 10);
        push_digit(&mut s, v % 10);
        proof {
            assert(s@ =~= dec_rep(v as int));
        }
        s
    }
}

/// Divide rounding to nearest, ties to even.
fn round_div_u128(v: u128, d: u128) -> (r: u128)
    requires
        1 <= d,
        d <= 1000000000,
    ensures
        r as int == round_div(v as int, d as int),
{
    let q: u128 = v / d;
    let rem: u128 = v % d;
    if 2 * rem > d || (2 * rem == d && q % 2 == 1) {
        proof {
            assert(d >= 2) by {
                assert(rem < d);
            }
            vstd::arithmetic::div_mod::lemma_div_is_ordered_by_denominator(
                v as int, 2, d as int);
        }
        q + 1
    } else {
        q
    }
}

/// Append `v / d` with two decimal places to a fresh string.
fn two_dec_string(value: usize, d: u128) -> (s: String)
    requires
        1 <= d,
        d <= 1000000000,
    ensures
        s@ == two_dec_rep(value as int, d as int),
{
    proof {
        assert((value as u128) as int * 100 <= u128::MAX as int) by (nonlinear_arith)
            requires value as int <= 0xffff_ffff_ffff_ffff;
    }
    let scaled: u128 = round_div_u128((value as u128) * 100, d);
    let mut s = dec_string(scaled / 100);
    proof { reveal_strlit("."); }
    s.append(".");
    let rem: u128 = scaled % 100;
    if rem < 10 {
        proof { reveal_strlit("0"); }
        s.append("0");
        push_digit(&mut s, rem);
    } else {
        push_digit(&mut s, rem / 10);
        push_digit(&mut s, rem % 10);
    }
    proof {
        assert(s@ =~= two_dec_rep(value as int, d as int));
    }
    s
}

/// Render an operation count, unit-scaled by magnitude.
pub fn format_ops(value: usize, with_unit: bool) -> (r: String)
    ensures
        r@ == spec_format_ops(value as int, with_unit),
{
    if value < 1000 {
        let s = dec_string(value as u128);
        proof {
            assert(s@ =~= spec_format_ops(value as int, with_unit));
        }
        s
    } else if value < 1000000 {
        let mut s = dec_string(round_div_u128(value as u128, 1000));
        if with_unit {
            proof { reveal_strlit(" K"); }
            s.append(" K");
        }
        proof {
            assert(s@ =~= spec_format_ops(value as int, with_unit));
        }
        s
    } else if value < 1000000000 {
        let mut s = dec_string(round_div_u128(value as u128, 1000000));
        if with_unit {
            proof { reveal_strlit(" M"); }
            s.append(" M");
        }
        proof {
            assert(s@ =~= spec_format_ops(value as int, with_unit));
        }
        s
    } else {
        let mut s = dec_string(round_div_u128(value as u128, 1000000000));
        if with_unit {
            proof { reveal_strlit(" B"); }
            s.append(" B");
        }
        proof {
            assert(s@ =~= spec_format_ops(value as int, with_unit));
        }
        s
    }
}

/// Render a duration in nanoseconds, unit-scaled by the magnitude of
/// `mean`; the unit switches at one thousand, one million and one billion.
pub fn format_duration(value: usize, mean: usize, short: bool) -> (r: String)
    ensures
        r@ == spec_format_duration(value as int, mean as int, short),
{
    if mean < 1000 {
        let mut s = dec_string(value as u128);
        proof { reveal_strlit(" ns"); }
        s.append(" ns");
        proof {
            assert(s@ =~= spec_format_duration(value as int, mean as int, short));
        }
        s
    } else if mean < 1000000 {
        let mut s = if short {
            dec_string((value as u128) / 1000)
        } else {
            two_dec_string(value, 1000)
        };
        proof { reveal_strlit(" µs"); }
        s.append(" µs");
        proof {
            assert(s@ =~= spec_format_duration(value as int, mean as int, short));
        }
        s
    } else if mean < 1000000000 {
        let mut s = if short {
            dec_string((value as u128) / 1000000)
        } else {
            two_dec_string(value, 1000000)
        };
        proof { reveal_strlit(" ms"); }
        s.append(" ms");
        proof {
            assert(s@ =~= spec_format_duration(value as int, mean as int, short));
        }
        s
    } else {
        let mut s = if short {
            dec_string((value as u128) / 1000000000)
        } else {
            two_dec_string(value, 1000000000)
        };
        proof { reveal_strlit("  s"); }
        s.append("  s");
        proof {
            assert(s@ =~= spec_format_duration(value as int, mean as int, short));
        }
        s
    }
}

/// Does `s` start with `p`, compared character by character?
fn has_prefix(s: &str, p: &str) -> (r: bool)
    ensures
        r == (p@.len() <= s@.len() && s@.take(p@.len() as int) == p@),
{
    let pl: usize = p.unicode_len();
    let sl: usize = s.unicode_len();
    if pl > sl {
        return false;
    }
    let mut i: usize = 0;
    while i < pl
        invariant
            0 <= i <= pl,
            pl == p@.len(),
            pl <= sl == s@.len(),
            forall|j: int| 0 <= j < i ==> s@[j] == p@[j],
        decreases pl - i,
    {
        let cs: char = s.get_char(i);
        let cp: char = p.get_char(i);
        if cs != cp {
            proof {
                assert(s@.take(pl as int)[i as int] == s@[i as int]);
            }
            return false;
        }
        i = i + 1;
    }
    proof {
        assert(s@.take(pl as int) =~= p@);
    }
    true
}

/// Render a benchmark name: strip the `bench_` and `test_` prefixes and
/// shorten long names in the middle to at most thirty characters.
pub fn format_name(s: &str) -> (r: String)
    ensures
        r@ == spec_format_name(s@),
{
    proof {
        reveal_strlit("bench_");
        reveal_strlit("test_");
        assert(("bench_")@ =~= bench_prefix());
        assert(("test_")@ =~= test_prefix());
    }
    let s1: &str = if has_prefix(s, "bench_") {
        s.substring_char(6, s.unicode_len())
    } else {
        s
    };
    proof {
        assert(s1@ =~= spec_strip(s@, bench_prefix()));
    }
    let s2: &str = if has_prefix(s1, "test_") {
        s1.substring_char(5, s1.unicode_len())
    } else {
        s1
    };
    proof {
        assert(s2@ =~= spec_strip(s1@, test_prefix()));
    }
    let l: usize = s2.unicode_len();
    if l > MAX_NAME_LEN {
        let head: &str = s2.substring_char(0, MAX_NAME_LEN / 2 - 1);
        let tail: &str = s2.substring_char(l - (MAX_NAME_LEN / 2 - 2), l);
        let mut r = String::from_str(head);
        proof { reveal_strlit("..."); }
        r.append("...");
        r.append(tail);
        proof {
            assert(r@ =~= spec_format_name(s@));
        }
        r
    } else {
        let r = String::from_str(s2);
        proof {
            assert(r@ =~= spec_format_name(s@));
        }
        r
    }
}

} // verus!
