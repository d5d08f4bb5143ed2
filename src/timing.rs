use vstd::prelude::*;

verus! {

/// The keep-alive interval of the engine timer, in milliseconds.
pub const DEFAULT_TIMER_MILLIS: u64 = 1000;

/// The delay before the next timer tick: the time from `now_ms` until the
/// earliest time of the next block (the latest block's timestamp plus the
/// minimum block time, in seconds), clamped to at least one millisecond and
/// at most the minimum block time; the keep-alive interval where the latest
/// block is unknown.
pub open spec fn timer_millis_spec(latest_timestamp: Option<u64>, minimum_block_time: u64, now_ms: u64) -> int {
    match latest_timestamp {
        None => DEFAULT_TIMER_MILLIS as int,
        Some(ts) => {
            let d = (ts + minimum_block_time) * 1000 - now_ms;
            let at_least_one = if d < 1 { 1 } else { d };
            let cap = minimum_block_time * 1000;
            if at_least_one > cap { cap } else { at_least_one }
        },
    }
}

/// The delay before the next timer tick, in milliseconds. `latest_timestamp`
/// is the latest block's timestamp in seconds, if the host knows one; `now_ms`
/// is the current time in milliseconds since the Unix epoch.
pub fn timer_millis(latest_timestamp: Option<u64>, minimum_block_time: u64, now_ms: u64) -> (r: u128)
    ensures
        r as int == timer_millis_spec(latest_timestamp, minimum_block_time, now_ms),
{
    match latest_timestamp {
        None => DEFAULT_TIMER_MILLIS as u128,
        Some(ts) => {
            let next: u128 = (ts as u128 + minimum_block_time as u128) * 1000;
            let now = now_ms as u128;
            let at_least_one: u128 = if now >= next || next - now < 1 { 1 } else { next - now };
            let cap: u128 = minimum_block_time as u128 * 1000;
            if at_least_one > cap { cap } else { at_least_one }
        },
    }
}

/// Whether a new Honey Badger epoch is to start: the minimum block time has
/// passed since the latest block (times in seconds) and at least `trigger`
/// transactions are queued. Never where the latest block is unknown.
pub fn epoch_start_due(
    latest_timestamp: Option<u64>,
    minimum_block_time: u64,
    now_secs: u64,
    queued: usize,
    trigger: usize,
) -> (r: bool)
    ensures
        r == (latest_timestamp matches Some(ts) && ts + minimum_block_time <= now_secs && queued
            >= trigger),
{
    match latest_timestamp {
        None => false,
        Some(ts) => (ts as u128 + minimum_block_time as u128) <= now_secs as u128 && queued >= trigger,
    }
}

} // verus!
