//! Points in time, the clock types the library carries around, and fresh
//! random identifiers.

use vstd::prelude::*;
use crate::error::BlastError;

verus! {

/// Declaration of `std::time::Instant`, carried opaquely.
#[verifier::external_type_specification]
#[verifier::external_body]
pub struct ExInstant(std::time::Instant);

/// Declaration of `std::time::SystemTime`, carried opaquely.
#[verifier::external_type_specification]
#[verifier::external_body]
pub struct ExSystemTime(std::time::SystemTime);

/// `SystemTime::clone`: std documents `SystemTime` as `Copy`, so a clone is
/// the same time.
pub assume_specification[ <std::time::SystemTime as Clone>::clone ](t: &std::time::SystemTime) -> (r:
    std::time::SystemTime)
    ensures
        r == *t,
;

/// `Instant::now`: the current time; nothing is known of the value.
#[verifier::external_body]
pub(crate) fn instant_now() -> (t: std::time::Instant) {
    std::time::Instant::now()
}

/// `SystemTime::now`: the current time; nothing is known of the value.
#[verifier::external_body]
pub(crate) fn system_now() -> (t: std::time::SystemTime) {
    std::time::SystemTime::now()
}

/// A point in time in UTC: seconds since the Unix epoch and the nanoseconds
/// within that second.
#[derive(Debug, Clone, Copy, PartialEq, Eq, Structural)]
pub struct Timestamp {
    pub secs: i64,
    pub nanos: u32,
}

/// `a` is not later than `b`.
pub open spec fn not_later(a: Timestamp, b: Timestamp) -> bool {
    a.secs < b.secs || (a.secs == b.secs && a.nanos <= b.nanos)
}

impl Timestamp {
    /// Whether `self` is not later than `other`.
    pub fn not_later_than(&self, other: &Timestamp) -> (b: bool)
        ensures
            b == not_later(*self, *other),
    {
        self.secs < other.secs || (self.secs == other.secs && self.nanos <= other.nanos)
    }
}

/// `SystemTime::duration_since(UNIX_EPOCH)`: how long after the Unix
/// epoch `t` stands, or `None` where it stands before it.
#[verifier::external_body]
fn since_epoch(t: &std::time::SystemTime) -> (r: Option<std::time::Duration>) {
    t.duration_since(std::time::UNIX_EPOCH).ok()
}

/// The whole seconds in a duration.
pub uninterp spec fn duration_secs_of(d: std::time::Duration) -> nat;

/// The nanoseconds in a duration past its whole seconds.
pub uninterp spec fn duration_subsec_of(d: std::time::Duration) -> nat;

/// `Duration::as_secs`: the whole seconds in `d` (`duration_secs_of`).
#[verifier::external_body]
fn duration_secs(d: &std::time::Duration) -> (n: u64)
    ensures
        n == duration_secs_of(*d),
{
    d.as_secs()
}

/// `Duration::subsec_nanos`: the nanoseconds in `d` past its whole
/// seconds (`duration_subsec_of`), which std documents as less than one
/// billion.
#[verifier::external_body]
fn duration_subsec_nanos(d: &std::time::Duration) -> (n: u32)
    ensures
        n == duration_subsec_of(*d),
        n < 1_000_000_000,
{
    d.subsec_nanos()
}

/// `chrono::DateTime::from_timestamp(secs, nanos)`, read back by
/// `timestamp` and `timestamp_subsec_nanos`: `None` where chrono cannot hold
/// that point; otherwise the same seconds and nanoseconds.
#[verifier::external_body]
fn utc_from_timestamp(secs: i64, nanos: u32) -> (r: Option<Timestamp>)
    ensures
        r matches Some(t) ==> t.secs == secs && t.nanos == nanos,
{
    match chrono::DateTime::from_timestamp(secs, nanos) {
        Some(t) => Some(Timestamp { secs: t.timestamp(), nanos: t.timestamp_subsec_nanos() }),
        None => None,
    }
}

/// The time of the call in UTC, as chrono holds it. A clock that stands
/// before the Unix epoch, or too far past it for chrono, reads as the
/// epoch itself, so a stamp is always given.
pub fn clock_now() -> (t: Timestamp)
    ensures
        t.secs >= 0,
        t.nanos < 1_000_000_000,
{
    let epoch = Timestamp { secs: 0, nanos: 0 };
    let since = match since_epoch(&system_now()) {
        Some(d) => d,
        None => {
            return epoch;
        },
    };
    let secs = duration_secs(&since);
    if secs > 9_223_372_036_854_775_807u64 {
        return epoch;
    }
    match utc_from_timestamp(secs as i64, duration_subsec_nanos(&since)) {
        Some(t) => t,
        None => epoch,
    }
}

/// Sixteen bytes from the operating system's random source
/// (`getrandom::fill`): `None` where the source reports an error. The bytes
/// are random, so nothing more is stated.
#[verifier::external_body]
fn random_bytes() -> (r: Option<[u8; 16]>) {
    let mut bytes = [0u8; 16];
    match getrandom::fill(&mut bytes) {
        Ok(()) => Some(bytes),
        Err(_) => None,
    }
}

/// The hyphenated text of the version 4 UUID made of `bytes`.
pub uninterp spec fn uuid_v4_text(bytes: Seq<u8>) -> Seq<char>;

/// `uuid::Builder::from_random_bytes(bytes).into_uuid()` written as text by
/// `hyphenated`: a function of the bytes alone (`uuid_v4_text`), 36
/// characters with hyphens at positions 8, 13, 18 and 23.
#[verifier::external_body]
fn uuid_text(bytes: [u8; 16]) -> (s: String)
    ensures
        s@ == uuid_v4_text(bytes@),
        s@.len() == 36,
        s@[8] == '-' && s@[13] == '-' && s@[18] == '-' && s@[23] == '-',
{
    uuid::Builder::from_random_bytes(bytes).into_uuid().hyphenated().to_string()
}

/// The error given where the operating system's random source fails.
pub open spec fn no_randomness(e: BlastError) -> bool {
    e matches BlastError::Other(m) && m@ == "Random source unavailable"@
}

/// The error given where the operating system's random source fails.
pub fn random_source_error() -> (e: BlastError)
    ensures
        no_randomness(e),
{
    BlastError::other("Random source unavailable")
}

/// A fresh random identifier: the hyphenated text of a version 4 UUID made
/// of sixteen bytes from the operating system's random source, or `None`
/// where that source fails.
pub fn random_id() -> (r: Option<String>)
    ensures
        r matches Some(id) ==> id@.len() == 36 && id@[8] == '-' && id@[13] == '-' && id@[18] == '-'
            && id@[23] == '-',
{
    match random_bytes() {
        Some(bytes) => Some(uuid_text(bytes)),
        None => None,
    }
}

} // verus!
