//! What the library takes from the machine and from outside crates: session
//! ids, the clock, and the decoding of terminal output.

use std::time::{Duration, SystemTime, SystemTimeError, UNIX_EPOCH};

use vstd::prelude::*;
use vstd::utf8::*;

verus! {

/// A lower-case hexadecimal digit.
pub open spec fn is_lower_hex(c: char) -> bool {
    '0' <= c <= '9' || 'a' <= c <= 'f'
}

/// The hyphenated lower-case text of a random (version 4) UUID.
pub open spec fn is_uuid_text(s: Seq<char>) -> bool {
    &&& s.len() == 36
    &&& forall|i: int|
        0 <= i < 36 ==> if i == 8 || i == 13 || i == 18 || i == 23 {
            #[trigger] s[i] == '-'
        } else {
            is_lower_hex(s[i])
        }
    &&& s[14] == '4'
    &&& s[19] == '8' || s[19] == '9' || s[19] == 'a' || s[19] == 'b'
}

/// `uuid::Uuid::new_v4` makes a random UUID of version 4, whose text is
/// hyphenated and in lower case. Nothing is claimed about which one it is, nor
/// that it was never handed out before.
#[verifier::external_body]
pub(crate) fn new_session_id() -> (r: String)
    ensures
        is_uuid_text(r@),
{
    uuid::Uuid::new_v4().to_string()
}

#[verifier::external_type_specification]
#[verifier::external_body]
pub struct ExSystemTime(SystemTime);

#[verifier::external_type_specification]
#[verifier::external_body]
pub struct ExSystemTimeError(SystemTimeError);

/// `SystemTime::now` reads the clock; nothing is claimed about what it says.
pub assume_specification[ SystemTime::now ]() -> (r: SystemTime)
;

/// How far `SystemTime::duration_since` puts a time past the Unix epoch; none
/// for a time before it.
pub uninterp spec fn since_unix_epoch(time: SystemTime) -> Option<Duration>;

/// `SystemTime::duration_since`, asked about the Unix epoch, depends on the
/// given time alone, and fails for a time before the epoch.
#[verifier::external_body]
pub(crate) fn since_epoch(time: &SystemTime) -> (r: Result<Duration, SystemTimeError>)
    ensures
        match r {
            Ok(elapsed) => since_unix_epoch(*time) == Some(elapsed),
            Err(_) => since_unix_epoch(*time) is None,
        },
{
    time.duration_since(UNIX_EPOCH)
}

/// The whole milliseconds that `Duration::as_millis` counts in a duration.
pub uninterp spec fn whole_millis(d: Duration) -> u128;

/// `Duration::as_millis` counts the whole milliseconds of a duration.
pub assume_specification[ Duration::as_millis ](d: &Duration) -> (r: u128)
    ensures
        r == whole_millis(*d),
;

/// The milliseconds from the Unix epoch to a time; zero for a time before it.
pub open spec fn epoch_millis(time: SystemTime) -> u128 {
    match since_unix_epoch(time) {
        Some(elapsed) => whole_millis(elapsed),
        None => 0,
    }
}

/// Counts the milliseconds from the Unix epoch to a time.
pub fn millis_at(time: &SystemTime) -> (r: u128)
    ensures
        r == epoch_millis(*time),
{
    match since_epoch(time) {
        Ok(elapsed) => elapsed.as_millis(),
        Err(_) => 0,
    }
}

/// Whether `now` is what some time comes to in milliseconds.
pub open spec fn is_clock_reading(now: u128) -> bool {
    exists|time: SystemTime| now == #[trigger] epoch_millis(time)
}

/// The milliseconds from the Unix epoch to the time that the clock shows.
pub fn now_ms() -> (r: u128)
    ensures
        is_clock_reading(r),
{
    millis_at(&SystemTime::now())
}

/// The text that `String::from_utf8_lossy` makes of bytes.
pub uninterp spec fn utf8_lossy(bytes: Seq<u8>) -> Seq<char>;

/// `String::from_utf8_lossy` decodes UTF-8. Valid bytes become exactly the text
/// that they encode; what is not valid is replaced.
#[verifier::external_body]
pub(crate) fn decode_output(bytes: &[u8]) -> (r: String)
    ensures
        r@ == utf8_lossy(bytes@),
        valid_utf8(bytes@) ==> r@ == decode_utf8(bytes@),
{
    String::from_utf8_lossy(bytes).to_string()
}

} // verus!
