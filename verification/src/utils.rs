//! Reading addresses and durations given on the command line.

use std::time::Duration;
use vstd::prelude::*;
use vstd::string::*;

verus! {

/// The host that an address without a host part stands for.
pub open spec fn default_host() -> Seq<char> {
    "127.0.0.1"@
}

/// `address` with the default host in front of it if it starts with the colon of a
/// port, and unchanged otherwise.
pub open spec fn normalized_address(address: Seq<char>) -> Seq<char> {
    if address.len() > 0 && address[0] == ':' {
        default_host() + address
    } else {
        address
    }
}

/// Completes an address that names only a port, such as `:9000`, with the local host.
pub fn normalize_server_addr(s: &str) -> (address: String)
    ensures
        address@ == normalized_address(s@),
{
    if !s.is_empty() && s.get_char(0) == ':' {
        String::from_str("127.0.0.1").concat(s)
    } else {
        s.to_owned()
    }
}

/// Why a text is not a duration in seconds.
#[derive(Clone, Copy, Debug, PartialEq, Eq, Structural)]
pub enum DurationError {
    /// The text is not a decimal number.
    NotANumber,
    /// The number is negative, not finite, or more seconds than a `Duration` holds.
    OutOfRange,
}

/// What `text` is as a number of seconds: `None` if it is no number, `Some(None)` if
/// it is a number that no `Duration` holds.
pub uninterp spec fn seconds_duration(text: Seq<char>) -> Option<Option<Duration>>;

/// `str::parse` to a single-precision number, handed to `Duration::try_from_secs_f32`.
/// The two calls stand together because the number between them is a float. Both
/// depend on the text alone, so the result is named rather than described.
#[verifier::external_body]
fn seconds_to_duration(s: &str) -> (duration: Option<Option<Duration>>)
    ensures
        duration == seconds_duration(s@),
{
    s.parse().ok().map(|secs| Duration::try_from_secs_f32(secs).ok())
}

/// Reads a duration given as a decimal number of seconds, such as `1.5`.
pub fn parse_duration_secs(s: &str) -> (result: Result<Duration, DurationError>)
    ensures
        result == match seconds_duration(s@) {
            None => Err::<Duration, DurationError>(DurationError::NotANumber),
            Some(None) => Err(DurationError::OutOfRange),
            Some(Some(duration)) => Ok(duration),
        },
{
    match seconds_to_duration(s) {
        None => Err(DurationError::NotANumber),
        Some(None) => Err(DurationError::OutOfRange),
        Some(Some(duration)) => Ok(duration),
    }
}

} // verus!
