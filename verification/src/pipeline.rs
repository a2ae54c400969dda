//! Decisions of the pipeline's loops: the shutdown signal each loop polls
//! for, the render loop's frame pacing, the last-value-wins snapshot cache,
//! and the monotonic millisecond clock the info producer stamps snapshots
//! with. The loops themselves — channels, threads, sleeping — run at the
//! process boundary and consult these.

use vstd::prelude::*;

verus! {

/// The broadcast control signal: every loop exits when it sees `Abort`.
#[derive(Clone, PartialEq, Eq, Structural, Debug)]
pub enum ControlStatus {
    Abort,
}

/// A loop iteration stops exactly when the control channel handed it an
/// abort signal; an empty poll keeps it running.
pub fn should_abort(message: &Option<ControlStatus>) -> (r: bool)
    ensures
        r == (*message matches Some(ControlStatus::Abort)),
{
    match message {
        Option::Some(ControlStatus::Abort) => true,
        Option::None => false,
    }
}

/// Target frame interval of the render loop, in milliseconds.
pub const MILLISECONDS_PER_FRAME: u64 = 1000 / 60;

/// What the render loop does with the rest of a frame interval: sleep off
/// exactly the unspent budget, or report an overrun and carry on.
#[derive(Clone, Copy, PartialEq, Eq, Structural, Debug)]
pub enum PaceDecision {
    Sleep(u64),
    Overrun,
}

/// Pace one frame: a tick that finished within its budget sleeps the exact
/// remainder; one that overran never sleeps.
pub fn pace(elapsed_ms: u64, budget_ms: u64) -> (r: PaceDecision)
    ensures
        elapsed_ms < budget_ms ==> r == PaceDecision::Sleep((budget_ms - elapsed_ms) as u64),
        elapsed_ms >= budget_ms ==> r == PaceDecision::Overrun,
{
    if elapsed_ms < budget_ms {
        PaceDecision::Sleep(budget_ms - elapsed_ms)
    } else {
        PaceDecision::Overrun
    }
}

/// Last-value-wins snapshot cache: a fresh value replaces the cached one, an
/// empty poll leaves the cache untouched.
pub fn update_snapshot<T>(cache: &mut T, fresh: Option<T>)
    ensures
        match fresh {
            Option::Some(v) => *final(cache) == v,
            Option::None => *final(cache) == *old(cache),
        },
{
    match fresh {
        Option::Some(v) => {
            *cache = v;
        },
        Option::None => {},
    }
}

/// The millisecond stamp of a snapshot taken `secs` seconds and `nanos`
/// nanoseconds after startup, shifted two seconds forward.
pub fn elapsed_to_ms(secs: u64, nanos: u32) -> (r: u64)
    requires
        secs <= 18_000_000_000,
        nanos < 1_000_000_000,
    ensures
        r == (1_000_000_000 * secs + nanos) / 1_000_000 + 2000,
{
    (1_000_000_000 * secs + nanos as u64) / 1_000_000 + 2000
}

} // verus!
