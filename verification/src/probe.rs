use vstd::prelude::*;

verus! {

#[verifier::external_type_specification]
#[verifier::external_body]
pub struct ExInstant(std::time::Instant);

/// Relies on std::time::Instant::now: one reading of the process's
/// monotonic clock. Nothing is assumed of the value.
#[verifier::external_body]
pub(crate) fn monotonic_now() -> std::time::Instant {
    std::time::Instant::now()
}

/// Relies on std::time::Instant::elapsed: the time since `start`, here
/// converted to whole nanoseconds. The value depends on the wall clock,
/// so nothing is assumed of it.
#[verifier::external_body]
pub(crate) fn nanos_since(start: &std::time::Instant) -> u128 {
    start.elapsed().as_nanos()
}

/// A handle on the process-wide instrumented allocator; opaque here, it
/// only serves to open accounting scopes. Declared with an opaque body
/// because the wrapped stats_alloc::StatsAlloc type is generic over the
/// allocator it instruments.
#[verifier::external_body]
pub struct AllocHandle {
    alloc: &'static stats_alloc::StatsAlloc<std::alloc::System>,
}

/// One allocation-accounting scope against the instrumented allocator;
/// opaque here, read only through `region_change`.
#[verifier::external_body]
pub struct AllocProbe {
    region: stats_alloc::Region<'static, std::alloc::System>,
}

/// Relies on the static stats_alloc::INSTRUMENTED_SYSTEM: the instrumented
/// wrapper around the system allocator that a program may install as its
/// global allocator.
#[verifier::external_body]
pub fn instrumented_system() -> AllocHandle {
    AllocHandle { alloc: &stats_alloc::INSTRUMENTED_SYSTEM }
}

/// Relies on stats_alloc::Region::new: opens an allocation-accounting
/// scope whose baseline is the allocator's current totals.
#[verifier::external_body]
pub(crate) fn region_open(handle: &AllocHandle) -> AllocProbe {
    AllocProbe { region: stats_alloc::Region::new(handle.alloc) }
}

/// Relies on stats_alloc::Region::reset: moves the scope's baseline to the
/// allocator's current totals without re-registering the scope.
#[verifier::external_body]
pub(crate) fn region_reset(probe: &mut AllocProbe) {
    probe.region.reset();
}

/// Relies on stats_alloc::Region::change: the allocation count, bytes
/// allocated and bytes deallocated since the scope's baseline. The values
/// depend on the process's allocation activity, so nothing is assumed of
/// them.
#[verifier::external_body]
pub(crate) fn region_change(probe: &AllocProbe) -> (usize, usize, usize) {
    let c = probe.region.change();
    (c.allocations, c.bytes_allocated, c.bytes_deallocated)
}

/// Relies on std::hint::black_box: forces the value to be fully
/// materialized so the measured operation's cost is not elided, then
/// drops it.
#[verifier::external_body]
pub(crate) fn sink<T>(x: T) {
    std::hint::black_box(x);
}

} // verus!
