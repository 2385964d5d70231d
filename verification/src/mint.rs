//! Fresh ids and the time of day.

use vstd::prelude::*;

use crate::agent::Timestamp;

verus! {

// ---- Ids -------------------------------------------------------------------

/// A lower-case hexadecimal digit.
pub open spec fn is_hex_digit(c: char) -> bool {
    ||| '0' <= c <= '9'
    ||| 'a' <= c <= 'f'
}

/// The text form of a random UUID (version 4): five groups of lower-case
/// hexadecimal digits between hyphens, the third of which starts with the
/// version and the fourth with the variant.
pub open spec fn is_minted_id(s: Seq<char>) -> bool {
    &&& s.len() == 36
    &&& forall|i: int|
        0 <= i < 36 ==> if i == 8 || i == 13 || i == 18 || i == 23 {
            #[trigger] s[i] == '-'
        } else {
            is_hex_digit(s[i])
        }
    &&& s[14] == '4'
    &&& (s[19] == '8' || s[19] == '9' || s[19] == 'a' || s[19] == 'b')
}

/// `uuid::Uuid::new_v4` draws a random UUID, and `to_string` gives its
/// hyphenated text form in lower case. Which one is drawn is left open, and
/// so is whether it was drawn before.
#[verifier::external_body]
pub(crate) fn mint_id() -> (r: String)
    ensures
        is_minted_id(r@),
{
    uuid::Uuid::new_v4().to_string()
}

// ---- Time ------------------------------------------------------------------

/// `std::time::SystemTime`, what a clock shows. Nothing inside it is known.
#[verifier::external_type_specification]
#[verifier::external_body]
pub struct ExSystemTime(std::time::SystemTime);

/// `SystemTime::now` reads the clock. What it shows is left open.
pub assume_specification[ std::time::SystemTime::now ]() -> std::time::SystemTime
;

/// `SystemTime::duration_since` with the Unix epoch gives the time since
/// then, here in whole seconds and in nanoseconds of less than a second, or
/// an error where the clock stood before it. What the clock showed is left
/// open, and so is all else about the result.
#[verifier::external_body]
fn since_epoch(now: std::time::SystemTime) -> (r: Option<(u64, u32)>)
    ensures
        r matches Some(parts) ==> parts.1 < 1_000_000_000,
{
    match now.duration_since(std::time::UNIX_EPOCH) {
        Ok(d) => Some((d.as_secs(), d.subsec_nanos())),
        Err(_) => None,
    }
}

/// The moment `secs` seconds and `nanos` nanoseconds after the epoch. Seconds
/// past the range of the field wrap around.
pub fn timestamp_of(secs: u64, nanos: u32) -> (r: Timestamp)
    requires
        nanos < 1_000_000_000,
    ensures
        r == (Timestamp { seconds: secs as i64, nanos: nanos as i32 }),
{
    Timestamp { seconds: secs as i64, nanos: nanos as i32 }
}

/// The fraction of a second lies below a second.
pub open spec fn is_moment(t: Timestamp) -> bool {
    0 <= t.nanos < 1_000_000_000
}

/// The moment that a reading of the clock stands for, in seconds and
/// nanoseconds since the epoch. A clock that stands before the epoch gives no
/// reading and counts as the epoch.
pub open spec fn moment_of(reading: Option<(u64, u32)>) -> Timestamp {
    match reading {
        Some((secs, nanos)) => Timestamp { seconds: secs as i64, nanos: nanos as i32 },
        None => Timestamp { seconds: 0, nanos: 0 },
    }
}

/// The timestamp for a reading of the clock.
pub fn timestamp_from(reading: Option<(u64, u32)>) -> (r: Timestamp)
    requires
        reading matches Some(parts) ==> parts.1 < 1_000_000_000,
    ensures
        r == moment_of(reading),
        is_moment(r),
{
    match reading {
        Some((secs, nanos)) => timestamp_of(secs, nanos),
        None => timestamp_of(0, 0),
    }
}

/// The time of day, as [`timestamp_from`] makes it of what the clock shows.
/// What that is is left open.
pub fn now_timestamp() -> (r: Timestamp)
    ensures
        is_moment(r),
{
    timestamp_from(since_epoch(std::time::SystemTime::now()))
}

// ---- Laws ------------------------------------------------------------------

/// A timestamp is the reading of the clock that it was made of: so many seconds
/// and nanoseconds after the epoch, and the epoch itself where there was no
/// reading.
pub proof fn law_timestamp_is_the_reading(secs: u64, nanos: u32)
    requires
        secs <= i64::MAX,
        nanos < 1_000_000_000,
    ensures
        moment_of(Some((secs, nanos))).seconds == secs,
        moment_of(Some((secs, nanos))).nanos == nanos,
        moment_of(None).seconds == 0,
        moment_of(None).nanos == 0,
{
}

} // verus!
