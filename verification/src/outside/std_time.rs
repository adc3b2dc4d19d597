//! Time: items of `std::time` and of the `httpdate` crate.

use std::time::{Duration, Instant, SystemTime, UNIX_EPOCH};

use httpdate::HttpDate;
use vstd::prelude::*;

use crate::outside::http_crate::is_visible;

verus! {

/// `std::time::Instant`.
#[verifier::external_type_specification]
#[verifier::external_body]
pub struct ExInstant(Instant);

/// `std::time::SystemTime`.
#[verifier::external_type_specification]
#[verifier::external_body]
pub struct ExSystemTime(SystemTime);

/// The length of a duration in nanoseconds.
pub uninterp spec fn duration_nanos(d: Duration) -> nat;

/// `Duration::from_secs`: that many seconds.
pub assume_specification[ Duration::from_secs ](secs: u64) -> (d: Duration)
    ensures
        duration_nanos(d) == secs * 1_000_000_000,
;

/// `Instant::now`: the present.
#[verifier::external_body]
pub(crate) fn instant_now() -> Instant {
    Instant::now()
}

/// The first second, counted from the start of 1970, that no HTTP date can show:
/// the start of the year 10000.
pub const HTTP_DATE_END: u64 = 253402300800;

/// `SystemTime::now`: the present.
#[verifier::external_body]
pub(crate) fn system_now() -> SystemTime {
    SystemTime::now()
}

/// The nanoseconds from the start of 1970 to a time, negative for a time before it.
pub uninterp spec fn system_nanos(t: SystemTime) -> int;

/// `SystemTime::duration_since` the start of 1970: the time since then; nothing for
/// a time before it.
#[verifier::external_body]
pub(crate) fn since_epoch(t: &SystemTime) -> (r: Option<Duration>)
    ensures
        r is Some == (system_nanos(*t) >= 0),
        r is Some ==> duration_nanos(r->0) == system_nanos(*t),
{
    t.duration_since(UNIX_EPOCH).ok()
}

/// `Duration::as_secs`: the full seconds.
pub assume_specification[ Duration::as_secs ](d: &Duration) -> (secs: u64)
    ensures
        secs == duration_nanos(*d) / 1_000_000_000,
;

/// `Duration::subsec_nanos`: the nanoseconds beyond the full seconds.
pub assume_specification[ Duration::subsec_nanos ](d: &Duration) -> (nanos: u32)
    ensures
        nanos == duration_nanos(*d) % 1_000_000_000,
;

/// The HTTP date of a second, counted from the start of 1970.
pub uninterp spec fn http_date_text(secs: u64) -> Seq<u8>;

/// `Display for httpdate::HttpDate`: the date of a second. It is 29 bytes long and
/// in visible ASCII. The conversion panics beyond the year 9999.
#[verifier::external_body]
pub(crate) fn http_date(secs: u64) -> (text: Vec<u8>)
    requires
        secs < HTTP_DATE_END,
    ensures
        text@ == http_date_text(secs),
        text.len() == 29,
        is_visible(text@),
{
    HttpDate::from(UNIX_EPOCH + Duration::from_secs(secs)).to_string().into_bytes()
}

} // verus!
