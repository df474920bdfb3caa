use crate::text::{decimal, int_text, int_to_string};
use vstd::prelude::*;
use vstd::string::*;

verus! {

/// Nanoseconds in a second.
pub const NANOS_PER_SEC: u64 = 1_000_000_000;

/// Shortest time between two emitted records at a rate given in
/// thousandths of a record per second; a zero rate counts as one record
/// per million seconds.
pub open spec fn min_interval_of(rate_milli: u32) -> u64 {
    if rate_milli == 0 {
        1_000_000_000_000_000
    } else {
        (1_000_000_000_000nat / (rate_milli as nat)) as u64
    }
}

pub fn min_interval_ns(rate_milli: u32) -> (r: u64)
    ensures
        r == min_interval_of(rate_milli),
{
    if rate_milli == 0 {
        1_000_000_000_000_000
    } else {
        1_000_000_000_000 / rate_milli as u64
    }
}

/// A frame is emitted once the minimum interval has passed since the last
/// emitted one.
pub fn should_emit(elapsed_ns: u64, min_interval_ns: u64) -> (r: bool)
    ensures
        r == (elapsed_ns >= min_interval_ns),
{
    elapsed_ns >= min_interval_ns
}

/// A frame whose perceptual hash is closer than the debounce level to the
/// last emitted one repeats it and is skipped.
pub fn is_repeat(distance: u32, debounce_level: u8) -> (r: bool)
    ensures
        r == (distance < debounce_level as u32),
{
    distance < debounce_level as u32
}

/// The whole seconds a record is stamped with: the frame's capture time
/// when known, else the current time.
pub open spec fn record_seconds_of(timestamp_ns: u64, now_secs: u64) -> u64 {
    if timestamp_ns != 0 {
        timestamp_ns / NANOS_PER_SEC
    } else {
        now_secs
    }
}

pub fn record_seconds(timestamp_ns: u64, now_secs: u64) -> (r: u64)
    ensures
        r == record_seconds_of(timestamp_ns, now_secs),
{
    if timestamp_ns != 0 {
        timestamp_ns / NANOS_PER_SEC
    } else {
        now_secs
    }
}

/// The identifier of an image record: its source, `#`, and its seconds.
pub open spec fn record_id_of(source: Seq<char>, secs: u64) -> Seq<char> {
    source + "#"@ + decimal(secs as nat)
}

pub fn record_id(source: &str, secs: u64) -> (r: String)
    ensures
        r@ == record_id_of(source@, secs),
{
    let digits = int_to_string(secs as i128);
    assert(int_text(secs as int) == decimal(secs as nat));
    String::from_str(source).concat("#").concat(digits.as_str())
}

} // verus!
