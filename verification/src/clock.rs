//! Timestamp handling: the only parts of the pipeline that an outside crate
//! computes. A timestamp is held as its RFC 3339 UTC text, a plain value the
//! transcoder carries through; chrono validates and normalises the record's
//! token, and supplies the wall-clock fallback.

use vstd::prelude::*;

verus! {

/// The RFC 3339 UTC normalisation of `s`: `Some` exactly when `s` is a
/// valid RFC 3339 timestamp, and then the same instant written in UTC.
pub uninterp spec fn rfc3339_norm(s: Seq<char>) -> Option<Seq<char>>;

pub open spec fn opt_text_view(o: Option<String>) -> Option<Seq<char>> {
    match o {
        Some(x) => Some(x@),
        None => None,
    }
}

/// Relies on chrono::DateTime::parse_from_rfc3339 (accepts exactly the
/// RFC 3339 timestamps), chrono::DateTime::with_timezone (the same instant
/// in UTC) and chrono::DateTime::to_rfc3339_opts (writes the timestamp
/// back out, never empty). The written form depends on the input alone.
#[verifier::external_body]
pub fn normalize_timestamp(s: &str) -> (r: Option<String>)
    ensures
        opt_text_view(r) == rfc3339_norm(s@),
        r matches Some(t) ==> t@.len() > 0,
{
    match chrono::DateTime::parse_from_rfc3339(s) {
        Ok(t) => Some(
            t.with_timezone(&chrono::Utc).to_rfc3339_opts(chrono::SecondsFormat::AutoSi, true),
        ),
        Err(_) => None,
    }
}

/// Relies on chrono::Utc::now and chrono::DateTime::to_rfc3339_opts: the
/// current wall-clock time, written as non-empty RFC 3339 UTC text. Nothing
/// further is assumed of the value. (chrono itself panics if the system
/// clock reads earlier than the Unix epoch.)
#[verifier::external_body]
pub fn now_rfc3339() -> (r: String)
    ensures
        r@.len() > 0,
{
    chrono::Utc::now().to_rfc3339_opts(chrono::SecondsFormat::AutoSi, true)
}

} // verus!
