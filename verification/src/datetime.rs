//! Current date and time rendered as strings for a named IANA timezone.

use crate::error::GoodbyeError;
use vstd::prelude::*;

verus! {

/// Whether the timezone identifier resolves to a known zone. This names the
/// outcome of `chrono_tz`'s zone-name lookup, a fixed table keyed by the
/// identifier alone.
pub uninterp spec fn tz_resolves(tz: Seq<char>) -> bool;

/// Current date in the given zone, formatted `YYYY-MM-DD`.
///
/// Relies on `chrono_tz::Tz::from_str` (a static table lookup, failing
/// exactly when the name is unknown), `chrono::Local::now`,
/// `chrono::DateTime::with_timezone` and strftime-style `format`. The
/// rendered date depends on the wall clock, so only its shape is stated:
/// the year is zero-padded to at least four digits and month and day to
/// two, giving at least ten characters.
#[verifier::external_body]
pub fn get_current_date(timezone: &str) -> (r: Result<String, GoodbyeError>)
    ensures
        r is Err <==> !tz_resolves(timezone@),
        r matches Err(e) ==> e matches GoodbyeError::InvalidTimezoneError(s) && s@ == timezone@,
        r matches Ok(d) ==> d@.len() >= 10,
{
    let tz: chrono_tz::Tz = match timezone.parse() {
        Ok(tz) => tz,
        Err(_) => return Err(GoodbyeError::InvalidTimezoneError(timezone.to_string())),
    };
    let now = chrono::Local::now().with_timezone(&tz);
    Ok(now.format("%Y-%m-%d").to_string())
}

/// Current time of day in the given zone, formatted `HH:MM` (24-hour,
/// zero-padded, so always five characters).
///
/// Relies on the same `chrono` and `chrono_tz` calls as [`get_current_date`].
#[verifier::external_body]
pub fn get_current_time(timezone: &str) -> (r: Result<String, GoodbyeError>)
    ensures
        r is Err <==> !tz_resolves(timezone@),
        r matches Err(e) ==> e matches GoodbyeError::InvalidTimezoneError(s) && s@ == timezone@,
        r matches Ok(t) ==> t@.len() == 5,
{
    let tz: chrono_tz::Tz = match timezone.parse() {
        Ok(tz) => tz,
        Err(_) => return Err(GoodbyeError::InvalidTimezoneError(timezone.to_string())),
    };
    let now = chrono::Local::now().with_timezone(&tz);
    Ok(now.format("%H:%M").to_string())
}

} // verus!
