//! Embedded-JSON detection for the message body: when the whole body is one
//! JSON object, its top-level fields join the event's additional fields at
//! the lowest precedence. The values are opaque to the transcoder, which
//! only carries them through; serde_json does the parsing.

use vstd::prelude::*;

verus! {

#[verifier::external_type_specification]
#[verifier::external_body]
pub struct ExValue(serde_json::Value);

/// The names of the top-level fields of `s` when `s` is the text of one
/// JSON object, in the order serde_json yields them; `None` when it is not.
pub uninterp spec fn json_object_keys(s: Seq<char>) -> Option<Seq<Seq<char>>>;

/// Relies on serde_json::from_str::<serde_json::Map<String, Value>>: `Some`
/// exactly when the whole text is one JSON object, and then that object's
/// top-level fields. Which fields come back depends on the text alone.
#[verifier::external_body]
pub fn parse_json_object(s: &str) -> (r: Option<Vec<(String, serde_json::Value)>>)
    ensures
        (r is Some) == (json_object_keys(s@) is Some),
        r matches Some(v) ==> (json_object_keys(s@) matches Some(ks) && v@.map_values(
            (|p: (String, serde_json::Value)| p.0@),
        ) == ks),
{
    match serde_json::from_str::<serde_json::Map<String, serde_json::Value>>(s) {
        Ok(m) => Some(m.into_iter().collect()),
        Err(_) => None,
    }
}

} // verus!
