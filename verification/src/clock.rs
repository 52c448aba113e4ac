//! The two values the registry takes from outside the process: the current
//! time and fresh identifiers.
use std::time::{Duration, SystemTime};
use vstd::prelude::*;
use crate::text::ends_with;

verus! {

/// A reading of the system clock.
#[verifier::external_type_specification]
#[verifier::external_body]
pub struct ExSystemTime(std::time::SystemTime);

/// The letters of Crockford's base 32, which a ULID's text is made of.
pub open spec fn is_ulid_char(c: char) -> bool {
    ('0' <= c && c <= '9') || ('A' <= c && c <= 'H') || c == 'J' || c == 'K' || c == 'M' || c
        == 'N' || ('P' <= c && c <= 'T') || ('V' <= c && c <= 'Z')
}

/// The RFC 3339 text, in UTC, of the instant `secs` seconds and `nanos`
/// nanoseconds after 1970-01-01T00:00:00Z, as chrono writes it.
pub uninterp spec fn utc_rfc3339(secs: i64, nanos: u32) -> Seq<char>;

/// Text that some reading of the clock gives: an RFC 3339 time in UTC, at
/// or after 1970, ending in `+00:00`.
pub open spec fn is_timestamp(s: Seq<char>) -> bool {
    &&& ends_with(s, "+00:00"@)
    &&& exists|secs: i64, nanos: u32|
        0 <= secs && nanos < 1_000_000_000 && s == #[trigger] utc_rfc3339(secs, nanos)
}

/// `SystemTime::now`: what the system clock reads. Nothing is stated of
/// the reading, which depends on the clock.
#[verifier::external_body]
fn system_now() -> SystemTime {
    SystemTime::now()
}

/// `SystemTime::duration_since(UNIX_EPOCH)`: the time elapsed since 1970,
/// or `None` where `t` is earlier (std's error). The duration is opaque here.
#[verifier::external_body]
fn since_epoch(t: &SystemTime) -> Option<Duration> {
    t.duration_since(std::time::UNIX_EPOCH).ok()
}

/// `Duration::as_secs`: the whole seconds of `d`.
#[verifier::external_body]
fn whole_seconds(d: &Duration) -> u64 {
    d.as_secs()
}

/// `Duration::subsec_nanos`: the fractional part of `d` in nanoseconds,
/// which std documents as less than one billion.
#[verifier::external_body]
fn fraction_nanos(d: &Duration) -> (res: u32)
    ensures
        res < 1_000_000_000,
{
    d.subsec_nanos()
}

/// `chrono::DateTime::<Utc>::from_timestamp(secs, nanos)` and
/// `DateTime::to_rfc3339`: the RFC 3339 text of that instant, or `None`
/// where chrono cannot represent it. For UTC, `to_rfc3339` ends the text with
/// the offset `+00:00`. When the result is `Some` is left unstated.
#[verifier::external_body]
fn rfc3339_at(secs: i64, nanos: u32) -> (res: Option<String>)
    ensures
        res matches Some(s) ==> s@ == utc_rfc3339(secs, nanos) && ends_with(s@, "+00:00"@),
{
    match chrono::DateTime::from_timestamp(secs, nanos) {
        Some(t) => Some(t.to_rfc3339()),
        None => None,
    }
}

/// The current time as RFC 3339 text in UTC, or `None` where the clock
/// reads a time before 1970 or one that chrono cannot represent.
pub fn now() -> (res: Option<String>)
    ensures
        res matches Some(s) ==> is_timestamp(s@),
{
    let t = system_now();
    match since_epoch(&t) {
        None => None,
        Some(d) => {
            let secs = whole_seconds(&d);
            let nanos = fraction_nanos(&d);
            if secs <= 0x7fff_ffff_ffff_ffff {
                let res = rfc3339_at(secs as i64, nanos);
                proof {
                    if res is Some {
                        assert(res.unwrap()@ == utc_rfc3339(secs as i64, nanos));
                    }
                }
                res
            } else {
                None
            }
        },
    }
}

/// A fresh identifier: `ulid::Ulid::new()` and `Ulid::to_string`, which
/// encodes the 128 bits as 26 letters of Crockford's base 32. Which
/// identifier comes back depends on the clock and on chance.
#[verifier::external_body]
pub fn new_id() -> (res: String)
    ensures
        res@.len() == 26,
        forall|i: int| 0 <= i < 26 ==> is_ulid_char(#[trigger] res@[i]),
{
    ulid::Ulid::new().to_string()
}

} // verus!
