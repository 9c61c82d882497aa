//! Wall clock.

use std::time::UNIX_EPOCH;
use vstd::prelude::*;

verus! {

/// `SystemTime::elapsed` of the Unix epoch, as whole seconds and the milliseconds beyond them
/// (`Duration::as_secs`, `Duration::subsec_millis`); `None` where the clock is set before the
/// epoch.
///
/// The reading depends on the machine. The milliseconds are fewer than a second holds; what
/// the clock shows stays unsaid.
#[verifier::external_body]
fn since_epoch() -> (r: Option<(u64, u32)>)
    ensures
        r matches Some(t) ==> t.1 < 1000,
{
    match UNIX_EPOCH.elapsed() {
        Ok(d) => Some((d.as_secs(), d.subsec_millis())),
        Err(_) => None,
    }
}

/// A reading of the clock in milliseconds, cut to 64 bits. A clock before the epoch counts as
/// standing at it.
pub open spec fn stamp(reading: Option<(u64, u32)>) -> u64 {
    match reading {
        Some(t) => (t.0 * 1000 + t.1) as u64,
        None => 0,
    }
}

/// A reading of the clock, as seconds and milliseconds, in milliseconds.
pub fn timestamp_of(reading: Option<(u64, u32)>) -> (r: u64)
    ensures
        r == stamp(reading),
{
    match reading {
        Some((secs, millis)) => (secs as u128 * 1000 + millis as u128) as u64,
        None => 0,
    }
}

/// The current time in milliseconds.
pub fn current_timestamp() -> (r: u64)
    ensures
        exists|reading: Option<(u64, u32)>|
            (reading matches Some(t) ==> t.1 < 1000) && r == #[trigger] stamp(reading),
{
    let reading = since_epoch();
    timestamp_of(reading)
}

/// `now` is what the clock was read as.
pub open spec fn was_read(now: u64) -> bool {
    call_ensures(current_timestamp, (), now)
}

fn answer_of<F: Fn() -> u64>(clock: F) -> (r: u64)
    requires
        call_requires(clock, ()),
    ensures
        call_ensures(clock, (), r),
{
    clock()
}

/// The current time in milliseconds, known to have been read off the clock.
pub(crate) fn read_clock() -> (r: u64)
    ensures
        was_read(r),
{
    answer_of(current_timestamp)
}

/// A reading of the clock is so many milliseconds after the epoch as its seconds and milliseconds
/// make up, as long as 64 bits hold them. So a later reading is no smaller. A clock before the
/// epoch counts as standing at it.
pub proof fn law_timestamps_are_in_order(
    earlier: (u64, u32),
    later: (u64, u32),
    a: u64,
    b: u64,
    before: u64,
)
    requires
        call_ensures(timestamp_of, (Some(earlier),), a),
        call_ensures(timestamp_of, (Some(later),), b),
        call_ensures(timestamp_of, (None::<(u64, u32)>,), before),
        later.0 * 1000 + later.1 <= u64::MAX,
        earlier.0 * 1000 + earlier.1 <= later.0 * 1000 + later.1,
    ensures
        b - a == (later.0 - earlier.0) * 1000 + later.1 - earlier.1,
        a <= b,
        before == 0,
{
}

} // verus!
