//! The wall clock.
use vstd::prelude::*;

verus! {

/// Reads the system clock through `jiff::Timestamp::now` and gives it, by
/// `jiff::Timestamp::as_millisecond`, in whole milliseconds since the Unix
/// epoch.
///
/// Claimed of the result: it lies between `jiff::Timestamp::MIN` and
/// `jiff::Timestamp::MAX`. Nothing relates two readings to each other, since
/// the system clock may be set back. `now` panics where the system clock
/// stands outside that range; no argument decides it.
#[verifier::external_body]
fn unix_millis() -> (ms: i64)
    ensures
        -377_705_023_201_000 <= ms <= 253_402_207_200_999,
{
    jiff::Timestamp::now().as_millisecond()
}

/// The timestamp can come from a reading of the clock: it stands for a time
/// between `jiff::Timestamp::MIN` and `jiff::Timestamp::MAX`.
pub open spec fn is_reading(stamp: u64) -> bool {
    stamp <= 253_402_207_200_999 || stamp >= 0xffff_ffff_ffff_ffff - 377_705_023_200_999
}

/// The current time as the timestamps of the search engine hold it: whole
/// milliseconds since the Unix epoch.
///
/// A clock that stands before the epoch is read as the `u64` with the bits of
/// the negative count.
pub fn now_ms() -> (now: u64)
    ensures
        is_reading(now),
{
    let ms: i64 = unix_millis();
    timestamp(ms)
}

/// A count of milliseconds since the Unix epoch as a timestamp holds it: the
/// count itself, or where it is negative the number with its bits.
pub open spec fn timestamp_of(ms: int) -> int {
    if ms >= 0 {
        ms
    } else {
        ms + 0x1_0000_0000_0000_0000
    }
}

/// The timestamp of a reading of the clock.
pub fn timestamp(ms: i64) -> (stamp: u64)
    ensures
        stamp == timestamp_of(ms as int),
        ms >= 0 ==> stamp == ms,
        ms < 0 ==> stamp - ms == 0x1_0000_0000_0000_0000,
{
    assert(ms >= 0 ==> ms as u64 == ms) by (bit_vector);
    assert(ms < 0 ==> ms as u64 == ms + 0x1_0000_0000_0000_0000) by (bit_vector);
    #[verifier::truncate] (ms as u64)
}

/// The readings of the clock are the timestamps of the times that it can show,
/// each for one time.
pub proof fn law_readings_are_timestamps(stamp: u64)
    ensures
        is_reading(stamp) <==> exists|ms: int|
            -377_705_023_201_000 <= ms <= 253_402_207_200_999 && #[trigger] timestamp_of(ms)
                == stamp,
        forall|a: int, b: int|
            i64::MIN <= a <= i64::MAX && i64::MIN <= b <= i64::MAX && #[trigger] timestamp_of(a)
                == #[trigger] timestamp_of(b) ==> a == b,
{
    let early = stamp - 0x1_0000_0000_0000_0000;
    assert(timestamp_of(stamp as int) == stamp);
    assert(early < 0 && timestamp_of(early) == stamp);
}

} // verus!
