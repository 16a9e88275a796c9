//! The SYSLOG message parser: turns the raw text of one record into a
//! structured message. The header is read in order — priority, protocol
//! version, timestamp, hostname, app-name, proc-id, message-id, structured
//! data — and whatever follows is the free-text body. Parsing is lenient:
//! a missing or nil (`-`) field degrades to `None`, a malformed priority
//! degrades to a default, and a malformed structured-data element is
//! dropped; no record is ever rejected.

use vstd::prelude::*;

use crate::clock::{normalize_timestamp, rfc3339_norm};
use crate::parsers::{
    find_char_at, lemma_find_char, lemma_next_pos, next_pos, next_pos_at, parse_elem, parse_elems,
    parse_params_at, parse_priority_at, params_view, scan_name_end_at, spec_parse_priority,
    token_at, token_end_at, SdModel,
};
use crate::priority::Priority;

verus! {

/// A structured-data element: an identifier and an ordered list of
/// parameters. Duplicate parameter names are preserved as separate entries,
/// in encounter order.
pub struct StructuredDataElement {
    pub id: String,
    pub params: Vec<(String, String)>,
}

impl StructuredDataElement {
    /// The specification-level value of this element.
    pub open spec fn model(self) -> SdModel {
        SdModel { id: self.id@, params: params_view(self.params@) }
    }
}

/// A parsed SYSLOG record. Constructed fresh per input; never mutated.
/// The timestamp is held as RFC 3339 UTC text.
pub struct Message {
    pub priority: Priority,
    pub timestamp: Option<String>,
    pub hostname: Option<String>,
    pub app_name: Option<String>,
    pub proc_id: Option<String>,
    pub message_id: Option<String>,
    pub structured_data: Option<Vec<StructuredDataElement>>,
    pub message: Option<String>,
}

pub open spec fn opt_str_view(o: Option<String>) -> Option<Seq<char>> {
    match o {
        Some(x) => Some(x@),
        None => None,
    }
}

/// The specification-level values of a list of elements.
pub open spec fn elems_view(v: Seq<StructuredDataElement>) -> Seq<SdModel> {
    v.map_values(|e: StructuredDataElement| e.model())
}

pub open spec fn sd_view(o: Option<Vec<StructuredDataElement>>) -> Option<Seq<SdModel>> {
    match o {
        Some(v) => Some(elems_view(v@)),
        None => None,
    }
}

/// Where the protocol-version token resumes, just past the `<N>` prefix.
pub open spec fn version_pos(s: Seq<char>) -> int {
    spec_parse_priority(s).1
}

/// The start of the timestamp token.
pub open spec fn timestamp_pos(s: Seq<char>) -> int {
    next_pos(s, version_pos(s))
}

/// The start of the hostname token.
pub open spec fn hostname_pos(s: Seq<char>) -> int {
    next_pos(s, timestamp_pos(s))
}

/// The start of the app-name token.
pub open spec fn app_name_pos(s: Seq<char>) -> int {
    next_pos(s, hostname_pos(s))
}

/// The start of the proc-id token.
pub open spec fn proc_id_pos(s: Seq<char>) -> int {
    next_pos(s, app_name_pos(s))
}

/// The start of the message-id token.
pub open spec fn message_id_pos(s: Seq<char>) -> int {
    next_pos(s, proc_id_pos(s))
}

/// The start of the structured-data section.
pub open spec fn sd_pos(s: Seq<char>) -> int {
    next_pos(s, message_id_pos(s))
}

pub proof fn lemma_positions(s: Seq<char>)
    ensures
        0 <= version_pos(s) <= s.len(),
        version_pos(s) <= timestamp_pos(s) <= s.len(),
        timestamp_pos(s) <= hostname_pos(s) <= s.len(),
        hostname_pos(s) <= app_name_pos(s) <= s.len(),
        app_name_pos(s) <= proc_id_pos(s) <= s.len(),
        proc_id_pos(s) <= message_id_pos(s) <= s.len(),
        message_id_pos(s) <= sd_pos(s) <= s.len(),
{
    if s.len() >= 1 {
        lemma_find_char(s, 1, '>');
    }
    lemma_next_pos(s, version_pos(s));
    lemma_next_pos(s, timestamp_pos(s));
    lemma_next_pos(s, hostname_pos(s));
    lemma_next_pos(s, app_name_pos(s));
    lemma_next_pos(s, proc_id_pos(s));
    lemma_next_pos(s, message_id_pos(s));
}

/// A token that stands for an absent field: empty, or the nil token `-`.
pub open spec fn nil_field(t: Seq<char>) -> bool {
    t.len() == 0 || t == "-"@
}

/// The value of an optional header field with token text `t`.
pub open spec fn field_of(t: Seq<char>) -> Option<Seq<char>> {
    if nil_field(t) {
        None
    } else {
        Some(t)
    }
}

/// The raw timestamp token, if the record carries one.
pub open spec fn spec_timestamp_token(s: Seq<char>) -> Option<Seq<char>> {
    field_of(token_at(s, timestamp_pos(s)))
}

/// The hostname field of the record.
pub open spec fn spec_hostname(s: Seq<char>) -> Option<Seq<char>> {
    field_of(token_at(s, hostname_pos(s)))
}

/// The app-name field of the record.
pub open spec fn spec_app_name(s: Seq<char>) -> Option<Seq<char>> {
    field_of(token_at(s, app_name_pos(s)))
}

/// The proc-id field of the record.
pub open spec fn spec_proc_id(s: Seq<char>) -> Option<Seq<char>> {
    field_of(token_at(s, proc_id_pos(s)))
}

/// The message-id field of the record.
pub open spec fn spec_message_id(s: Seq<char>) -> Option<Seq<char>> {
    field_of(token_at(s, message_id_pos(s)))
}

/// The free-text body when the header ends at `q`: the rest of the input
/// past one separating space, if it is non-empty.
pub open spec fn body_from(s: Seq<char>, q: int) -> Option<Seq<char>> {
    if 0 <= q && q < s.len() && s[q] == ' ' && q + 1 < s.len() {
        Some(s.subrange(q + 1, s.len() as int))
    } else {
        None
    }
}

/// The structured-data section when it starts at `p`: present exactly when
/// a `[` stands there.
pub open spec fn sd_at(s: Seq<char>, p: int) -> Option<Seq<SdModel>> {
    if 0 <= p && p < s.len() && s[p] == '[' {
        Some(parse_elems(s, p).0)
    } else {
        None
    }
}

/// The body when the structured-data section starts at `p`: after the
/// elements, after the nil token `-`, or — when neither stands at `p` —
/// the whole rest of the input.
pub open spec fn body_at(s: Seq<char>, p: int) -> Option<Seq<char>> {
    if p < 0 || p >= s.len() {
        None
    } else if s[p] == '[' {
        body_from(s, parse_elems(s, p).1)
    } else if token_at(s, p) == "-"@ {
        body_from(s, p + 1)
    } else {
        Some(s.subrange(p, s.len() as int))
    }
}

/// The structured-data elements of the record.
pub open spec fn spec_structured_data(s: Seq<char>) -> Option<Seq<SdModel>> {
    sd_at(s, sd_pos(s))
}

/// The free-text body of the record.
pub open spec fn spec_body(s: Seq<char>) -> Option<Seq<char>> {
    body_at(s, sd_pos(s))
}

/// The timestamp of the record: the normalisation of its timestamp token,
/// absent when the token is absent, nil, or not a valid RFC 3339 timestamp.
pub open spec fn spec_timestamp(s: Seq<char>) -> Option<Seq<char>> {
    match spec_timestamp_token(s) {
        Some(t) => rfc3339_norm(t),
        None => None,
    }
}

/// Everything `Message::from_text` promises of a parsed message.
pub open spec fn parses_to(s: Seq<char>, m: Message) -> bool {
    &&& m.priority == spec_parse_priority(s).0
    &&& opt_str_view(m.timestamp) == spec_timestamp(s)
    &&& opt_str_view(m.hostname) == spec_hostname(s)
    &&& opt_str_view(m.app_name) == spec_app_name(s)
    &&& opt_str_view(m.proc_id) == spec_proc_id(s)
    &&& opt_str_view(m.message_id) == spec_message_id(s)
    &&& sd_view(m.structured_data) == spec_structured_data(s)
    &&& opt_str_view(m.message) == spec_body(s)
}

impl Message {
    /// A well-formed message: the priority sub-values lie inside the fixed
    /// tables, and a timestamp, when present, is non-empty text.
    pub open spec fn wf(self) -> bool {
        &&& self.priority.facility < 24
        &&& self.priority.severity < 8
        &&& (self.timestamp matches Some(t) ==> t@.len() > 0)
    }
}

/// Reads the optional header field whose token starts at `from`.
fn token_field(s: &str, from: usize) -> (r: Option<String>)
    requires
        from <= s@.len(),
    ensures
        opt_str_view(r) == field_of(token_at(s@, from as int)),
{
    let e = token_end_at(s, from);
    if e == from {
        return None;
    }
    let c0 = s.get_char(from);
    if e == from + 1 && c0 == '-' {
        proof {
            reveal_strlit("-");
            assert(token_at(s@, from as int) =~= "-"@);
        }
        return None;
    }
    proof {
        reveal_strlit("-");
        assert("-"@.len() == 1);
        assert(token_at(s@, from as int).len() == e - from);
        assert(token_at(s@, from as int)[0] == s@[from as int]);
        assert(!nil_field(token_at(s@, from as int)));
    }
    Some(s.substring_char(from, e).to_owned())
}

/// Reads one structured-data element starting at the `[` at `p`.
fn parse_elem_at(s: &str, p: usize) -> (r: Option<(StructuredDataElement, usize)>)
    requires
        p <= s@.len(),
    ensures
        match r {
            Some(v) => parse_elem(s@, p as int) == Some((v.0.model(), v.1 as int)) && p < v.1
                <= s@.len(),
            None => parse_elem(s@, p as int) is None,
        },
{
    let n = s.unicode_len();
    if p >= n {
        return None;
    }
    if s.get_char(p) != '[' {
        return None;
    }
    let j = scan_name_end_at(s, p + 1);
    if !(p + 1 < j && j < n) {
        return None;
    }
    let cj = s.get_char(j);
    if !(cj == ' ' || cj == ']') {
        return None;
    }
    let id = s.substring_char(p + 1, j).to_owned();
    match parse_params_at(s, j) {
        Some((params, e)) => {
            let elem = StructuredDataElement { id, params };
            proof {
                assert(elem.model() == SdModel {
                    id: s@.subrange(p + 1, j as int),
                    params: params_view(params@),
                });
            }
            Some((elem, e))
        },
        None => None,
    }
}

/// Reads the run of structured-data elements starting at `p`.
#[verifier::loop_isolation(false)]
fn parse_elems_at(s: &str, p: usize) -> (r: (Vec<StructuredDataElement>, usize))
    requires
        p <= s@.len(),
    ensures
        parse_elems(s@, p as int).0 == elems_view(r.0@),
        parse_elems(s@, p as int).1 == r.1 as int,
        r.1 <= s@.len(),
{
    let n = s.unicode_len();
    let mut cur = p;
    let mut out: Vec<StructuredDataElement> = Vec::new();
    proof {
        assert(elems_view(out@) =~= Seq::<SdModel>::empty());
    }
    loop
        invariant
            p <= cur <= n,
            parse_elems(s@, p as int).0 =~= elems_view(out@)
                + parse_elems(s@, cur as int).0,
            parse_elems(s@, p as int).1 == parse_elems(s@, cur as int).1,
        decreases n - cur,
    {
        if cur >= n {
            break;
        }
        if s.get_char(cur) != '[' {
            break;
        }
        let ghost prev = cur as int;
        match parse_elem_at(s, cur) {
            Some((elem, e)) => {
                let ghost old_out = out@;
                out.push(elem);
                cur = e;
                proof {
                    assert(elems_view(out@) =~= elems_view(old_out).push(elem.model()));
                    assert(parse_elems(s@, prev).0 =~= seq![elem.model()] + parse_elems(
                        s@,
                        cur as int,
                    ).0);
                    assert(parse_elems(s@, p as int).0 =~= elems_view(out@) + parse_elems(s@, cur as int).0);
                }
            },
            None => {
                match find_char_at(s, cur + 1, ']') {
                    Some(j) => {
                        cur = j + 1;
                    },
                    None => {
                        proof {
                            assert(parse_elems(s@, prev) == (
                                Seq::<SdModel>::empty(),
                                s@.len() as int,
                            ));
                            assert(parse_elems(s@, p as int).0 =~= elems_view(out@));
                        }
                        return (out, n);
                    },
                }
            },
        }
    }
    proof {
        assert(parse_elems(s@, cur as int) == (Seq::<SdModel>::empty(), cur as int));
        assert(parse_elems(s@, p as int).0 =~= elems_view(out@));
    }
    (out, cur)
}

/// The rest of the input past one separating space at `q`, if non-empty.
fn rest_after_space(s: &str, q: usize) -> (r: Option<String>)
    requires
        q <= s@.len(),
    ensures
        opt_str_view(r) == body_from(s@, q as int),
{
    let n = s.unicode_len();
    if q < n && q + 1 < n {
        if s.get_char(q) == ' ' {
            return Some(s.substring_char(q + 1, n).to_owned());
        }
    }
    None
}

/// Reads the structured-data section and the body, both starting at `p`.
fn parse_sd_and_body(s: &str, p: usize) -> (r: (
    Option<Vec<StructuredDataElement>>,
    Option<String>,
))
    requires
        p <= s@.len(),
    ensures
        sd_view(r.0) == sd_at(s@, p as int),
        opt_str_view(r.1) == body_at(s@, p as int),
{
    let n = s.unicode_len();
    if p >= n {
        return (None, None);
    }
    let c = s.get_char(p);
    if c == '[' {
        let (elems, e) = parse_elems_at(s, p);
        let body = rest_after_space(s, e);
        return (Some(elems), body);
    }
    let e = token_end_at(s, p);
    if e == p + 1 && c == '-' {
        proof {
            reveal_strlit("-");
            assert(token_at(s@, p as int) =~= "-"@);
        }
        (None, rest_after_space(s, p + 1))
    } else {
        proof {
            reveal_strlit("-");
            assert("-"@.len() == 1);
            assert(token_at(s@, p as int).len() == e - p);
            if e == p + 1 {
                assert(token_at(s@, p as int)[0] == s@[p as int]);
            }
            assert(token_at(s@, p as int) != "-"@);
        }
        (None, Some(s.substring_char(p, n).to_owned()))
    }
}

impl Message {
    /// Parses the text of one SYSLOG record. Total: every input yields a
    /// message, with unusable fields degraded as the module comment says.
    pub fn from_text(s: &str) -> (r: Message)
        ensures
            parses_to(s@, r),
            r.wf(),
    {
        proof {
            lemma_positions(s@);
        }
        let (priority, p_version) = parse_priority_at(s);
        let p_timestamp = next_pos_at(s, p_version);
        let p_hostname = next_pos_at(s, p_timestamp);
        let p_app_name = next_pos_at(s, p_hostname);
        let p_proc_id = next_pos_at(s, p_app_name);
        let p_message_id = next_pos_at(s, p_proc_id);
        let p_sd = next_pos_at(s, p_message_id);

        let timestamp = match token_field(s, p_timestamp) {
            Some(t) => normalize_timestamp(t.as_str()),
            None => None,
        };
        let hostname = token_field(s, p_hostname);
        let app_name = token_field(s, p_app_name);
        let proc_id = token_field(s, p_proc_id);
        let message_id = token_field(s, p_message_id);
        let (structured_data, message) = parse_sd_and_body(s, p_sd);

        Message {
            priority,
            timestamp,
            hostname,
            app_name,
            proc_id,
            message_id,
            structured_data,
            message,
        }
    }
}

} // verus!
