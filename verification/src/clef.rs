//! The CLEF mapper: merges a structured SYSLOG message into one flat CLEF
//! event under a fixed field precedence, highest first:
//!
//! 1. header fields (`facility` and the present optional header fields);
//! 2. structured-data elements, each id one key, its value the parameter
//!    list;
//! 3. top-level fields of the message body when the whole body is one JSON
//!    object.
//!
//! On a key conflict the higher-precedence value keeps the plain key and
//! the lower-precedence one is stored under the key prefixed with two
//! underscores (then three, and so on, as needed). The reserved CLEF keys
//! never appear among the additional fields. The mapper itself never fails.

use vstd::prelude::*;

use crate::clock::now_rfc3339;
use crate::fields::{
    cand_key, fuel_of, insert_field, key_free, kv_keys_nodup, kv_map, lemma_put_field_absent,
    lemma_put_field_no_reserved, lemma_underscores, no_reserved, put_field, resolve_from,
    reserved_key, underscores, FieldModel, FieldValue,
};
use crate::json::{json_object_keys, parse_json_object};
use crate::parsers::SdModel;
use crate::priority::{facility_name, severity_name};
use crate::syslog;
use crate::syslog::{opt_str_view, sd_view};

verus! {

/// One CLEF event: the required timestamp (RFC 3339 UTC text) and level,
/// the optional message text, the reserved-and-unused template and
/// exception slots, and the open-ended additional fields.
pub struct Message {
    pub timestamp: String,
    pub level: String,
    pub message: Option<String>,
    pub message_template: Option<String>,
    pub exception: Option<String>,
    pub additional: Vec<(String, FieldValue)>,
}

/// The header tier of the additional fields: `facility` always, and each
/// present optional header field under its own name.
pub open spec fn tier1(msg: syslog::Message) -> Map<Seq<char>, FieldModel> {
    let m0 = Map::<Seq<char>, FieldModel>::empty().insert(
        "facility"@,
        FieldModel::Text(facility_name(msg.priority.facility as int)),
    );
    let m1 = match msg.hostname {
        Some(h) => m0.insert("hostname"@, FieldModel::Text(h@)),
        None => m0,
    };
    let m2 = match msg.app_name {
        Some(a) => m1.insert("app_name"@, FieldModel::Text(a@)),
        None => m1,
    };
    let m3 = match msg.proc_id {
        Some(p) => m2.insert("proc_id"@, FieldModel::Text(p@)),
        None => m2,
    };
    match msg.message_id {
        Some(x) => m3.insert("message_id"@, FieldModel::Text(x@)),
        None => m3,
    }
}

/// Folds the structured-data elements into the map, in order.
pub open spec fn add_sd_elems(m: Map<Seq<char>, FieldModel>, elems: Seq<SdModel>) -> Map<
    Seq<char>,
    FieldModel,
>
    decreases elems.len(),
{
    if elems.len() == 0 {
        m
    } else {
        add_sd_elems(
            put_field(m, elems[0].id, FieldModel::ParamObjects(elems[0].params)),
            elems.drop_first(),
        )
    }
}

/// Folds the embedded body fields into the map, in order.
pub open spec fn add_embedded(
    m: Map<Seq<char>, FieldModel>,
    fields: Seq<(Seq<char>, serde_json::Value)>,
) -> Map<Seq<char>, FieldModel>
    decreases fields.len(),
{
    if fields.len() == 0 {
        m
    } else {
        add_embedded(
            put_field(m, fields[0].0, FieldModel::Embedded(fields[0].1)),
            fields.drop_first(),
        )
    }
}

/// The complete additional-fields map of the event: the three tiers folded
/// in precedence order.
pub open spec fn additional_model(
    msg: syslog::Message,
    bf: Option<Seq<(Seq<char>, serde_json::Value)>>,
) -> Map<Seq<char>, FieldModel> {
    let m1 = tier1(msg);
    let m2 = match sd_view(msg.structured_data) {
        Some(es) => add_sd_elems(m1, es),
        None => m1,
    };
    match bf {
        Some(fs) => add_embedded(m2, fs),
        None => m2,
    }
}

/// The specification-level values of a list of embedded body fields.
pub open spec fn pairs_view(v: Seq<(String, serde_json::Value)>) -> Seq<
    (Seq<char>, serde_json::Value),
> {
    v.map_values(|p: (String, serde_json::Value)| (p.0@, p.1))
}

/// The names of a list of embedded body fields.
pub open spec fn names_of(fs: Seq<(Seq<char>, serde_json::Value)>) -> Seq<Seq<char>> {
    fs.map_values(|p: (Seq<char>, serde_json::Value)| p.0)
}

/// The view of the embedded body fields handed to `assemble`.
pub open spec fn bf_view(o: Option<Vec<(String, serde_json::Value)>>) -> Option<
    Seq<(Seq<char>, serde_json::Value)>,
> {
    match o {
        Some(v) => Some(pairs_view(v@)),
        None => None,
    }
}

/// Everything `into_clef` promises of the event built from `msg`.
pub open spec fn maps_to(msg: syslog::Message, r: Message) -> bool {
    &&& (opt_str_view(msg.timestamp) matches Some(t) ==> r.timestamp@ == t)
    &&& r.timestamp@.len() > 0
    &&& r.level@ == severity_name(msg.priority.severity as int)
    &&& r.message_template is None
    &&& r.exception is None
    &&& kv_keys_nodup(r.additional@)
    &&& no_reserved(kv_map(r.additional@))
    &&& (match opt_str_view(msg.message) {
        None => r.message is None && kv_map(r.additional@) == additional_model(msg, None),
        Some(b) => match json_object_keys(b) {
            Some(ks) => r.message is None && (exists|fs: Seq<(Seq<char>, serde_json::Value)>|
                names_of(fs) == ks && kv_map(r.additional@) == additional_model(msg, Some(fs))),
            None => r.message == msg.message && kv_map(r.additional@) == additional_model(
                msg,
                None,
            ),
        },
    })
}

pub proof fn lemma_header_keys()
    ensures
        !reserved_key("facility"@),
        !reserved_key("hostname"@),
        !reserved_key("app_name"@),
        !reserved_key("proc_id"@),
        !reserved_key("message_id"@),
        "facility"@.len() == 8 && "facility"@[0] == 'f',
        "hostname"@.len() == 8 && "hostname"@[0] == 'h',
        "app_name"@.len() == 8 && "app_name"@[0] == 'a',
        "proc_id"@.len() == 7 && "proc_id"@[0] == 'p',
        "message_id"@.len() == 10 && "message_id"@[0] == 'm',
        "facility"@ != "hostname"@,
        "facility"@ != "app_name"@,
        "facility"@ != "proc_id"@,
        "facility"@ != "message_id"@,
        "hostname"@ != "app_name"@,
        "hostname"@ != "proc_id"@,
        "hostname"@ != "message_id"@,
        "app_name"@ != "proc_id"@,
        "app_name"@ != "message_id"@,
        "proc_id"@ != "message_id"@,
{
    reveal_strlit("facility");
    reveal_strlit("hostname");
    reveal_strlit("app_name");
    reveal_strlit("proc_id");
    reveal_strlit("message_id");
    reveal_strlit("@t");
    reveal_strlit("@l");
    reveal_strlit("@m");
    reveal_strlit("@mt");
    reveal_strlit("@x");
    reveal_strlit("@i");
    reveal_strlit("@r");
    assert("@t"@[0] == '@' && "@l"@[0] == '@' && "@m"@[0] == '@' && "@mt"@[0] == '@' && "@x"@[0]
        == '@' && "@i"@[0] == '@' && "@r"@[0] == '@');
    assert("facility"@[0] == 'f' && "hostname"@[0] == 'h' && "app_name"@[0] == 'a' && "proc_id"@[0]
        == 'p' && "message_id"@[0] == 'm');
    assert(!reserved_key("facility"@));
    assert(!reserved_key("hostname"@));
    assert(!reserved_key("app_name"@));
    assert(!reserved_key("proc_id"@));
    assert(!reserved_key("message_id"@));
}

pub proof fn lemma_reserved_shape(k: Seq<char>)
    ensures
        reserved_key(k) ==> k.len() > 0 && k[0] == '@',
{
    reveal_strlit("@t");
    reveal_strlit("@l");
    reveal_strlit("@m");
    reveal_strlit("@mt");
    reveal_strlit("@x");
    reveal_strlit("@i");
    reveal_strlit("@r");
}

/// Inserting under a free key is a plain insertion.
pub proof fn lemma_put_free(m: Map<Seq<char>, FieldModel>, k: Seq<char>, v: FieldModel)
    requires
        key_free(m, k),
    ensures
        put_field(m, k, v) == m.insert(k, v),
{
    assert(fuel_of(m) > 0);
    assert(resolve_from(m, k, 0, fuel_of(m)) == cand_key(k, 0));
}

/// Assembles the event from the parsed message, the embedded body fields
/// (when the body was one JSON object), and the fallback timestamp text.
#[verifier::loop_isolation(false)]
pub fn assemble(
    msg: syslog::Message,
    body_fields: Option<Vec<(String, serde_json::Value)>>,
    fallback: String,
) -> (r: Message)
    requires
        msg.wf(),
        fallback@.len() > 0,
    ensures
        r.timestamp@ == (match opt_str_view(msg.timestamp) {
            Some(t) => t,
            None => fallback@,
        }),
        r.level@ == severity_name(msg.priority.severity as int),
        r.message == (if body_fields is Some {
            None
        } else {
            msg.message
        }),
        r.message_template is None,
        r.exception is None,
        kv_map(r.additional@) == additional_model(msg, bf_view(body_fields)),
        kv_keys_nodup(r.additional@),
        no_reserved(kv_map(r.additional@)),
{
    let ghost msg0 = msg;
    let ghost bf0 = bf_view(body_fields);
    let syslog::Message {
        priority,
        timestamp,
        hostname,
        app_name,
        proc_id,
        message_id,
        structured_data,
        message,
    } = msg;

    let mut additional: Vec<(String, FieldValue)> = Vec::new();
    proof {
        lemma_header_keys();
        assert(kv_map(additional@) == Map::<Seq<char>, FieldModel>::empty());
    }
    insert_field(
        &mut additional,
        String::from_str("facility"),
        FieldValue::Text(String::from_str(priority.facility())),
    );
    proof {
        lemma_put_free(
            Map::<Seq<char>, FieldModel>::empty(),
            "facility"@,
            FieldModel::Text(facility_name(msg0.priority.facility as int)),
        );
    }
    if let Some(h) = hostname {
        let ghost before = kv_map(additional@);
        insert_field(&mut additional, String::from_str("hostname"), FieldValue::Text(h));
        proof {
            lemma_put_free(before, "hostname"@, FieldModel::Text(h@));
        }
    }
    if let Some(a) = app_name {
        let ghost before = kv_map(additional@);
        insert_field(&mut additional, String::from_str("app_name"), FieldValue::Text(a));
        proof {
            lemma_put_free(before, "app_name"@, FieldModel::Text(a@));
        }
    }
    if let Some(p) = proc_id {
        let ghost before = kv_map(additional@);
        insert_field(&mut additional, String::from_str("proc_id"), FieldValue::Text(p));
        proof {
            lemma_put_free(before, "proc_id"@, FieldModel::Text(p@));
        }
    }
    if let Some(x) = message_id {
        let ghost before = kv_map(additional@);
        insert_field(&mut additional, String::from_str("message_id"), FieldValue::Text(x));
        proof {
            lemma_put_free(before, "message_id"@, FieldModel::Text(x@));
        }
    }
    proof {
        assert(kv_map(additional@) == tier1(msg0));
        assert(no_reserved(kv_map(additional@))) by {
            assert(forall|k: Seq<char>|
                #[trigger] tier1(msg0).dom().contains(k) ==> !reserved_key(k));
        }
    }
    let ghost m_tier1 = kv_map(additional@);

    if let Some(elems) = structured_data {
        let ghost evs = syslog::elems_view(elems@);
        let mut rest = elems;
        while rest.len() > 0
            invariant
                kv_keys_nodup(additional@),
                no_reserved(kv_map(additional@)),
                add_sd_elems(m_tier1, evs) == add_sd_elems(
                    kv_map(additional@),
                    syslog::elems_view(rest@),
                ),
            decreases rest@.len(),
        {
            let ghost rmodels = syslog::elems_view(rest@);
            let ghost before = kv_map(additional@);
            let e = rest.remove(0);
            let ghost em = e.model();
            insert_field(&mut additional, e.id, FieldValue::ParamObjects(e.params));
            proof {
                lemma_put_field_no_reserved(before, em.id, FieldModel::ParamObjects(em.params));
                assert(syslog::elems_view(rest@) =~= rmodels.drop_first());
                assert(rmodels[0] == em);
                assert(kv_map(additional@) == put_field(
                    before,
                    em.id,
                    FieldModel::ParamObjects(em.params),
                ));
            }
        }
        proof {
            assert(syslog::elems_view(rest@) =~= Seq::<SdModel>::empty());
            assert(add_sd_elems(m_tier1, evs) == kv_map(additional@));
        }
    }
    proof {
        assert(kv_map(additional@) == (match sd_view(msg0.structured_data) {
            Some(es) => add_sd_elems(m_tier1, es),
            None => m_tier1,
        }));
    }
    let ghost m_sd = kv_map(additional@);

    let body_present = body_fields.is_some();
    if let Some(fields) = body_fields {
        let ghost fvs = pairs_view(fields@);
        let mut rest = fields;
        while rest.len() > 0
            invariant
                kv_keys_nodup(additional@),
                no_reserved(kv_map(additional@)),
                add_embedded(m_sd, fvs) == add_embedded(
                    kv_map(additional@),
                    pairs_view(rest@),
                ),
            decreases rest@.len(),
        {
            let ghost rmodels = pairs_view(rest@);
            let ghost before = kv_map(additional@);
            let pair = rest.remove(0);
            let ghost pk = pair.0@;
            let ghost pv = pair.1;
            insert_field(&mut additional, pair.0, FieldValue::Embedded(pair.1));
            proof {
                lemma_put_field_no_reserved(before, pk, FieldModel::Embedded(pv));
                assert(pairs_view(rest@) =~= rmodels.drop_first());
                assert(rmodels[0] == (pk, pv));
                assert(kv_map(additional@) == put_field(before, pk, FieldModel::Embedded(pv)));
            }
        }
        proof {
            assert(pairs_view(rest@) =~= Seq::<(Seq<char>, serde_json::Value)>::empty());
            assert(add_embedded(m_sd, fvs) == kv_map(additional@));
        }
    }
    proof {
        assert(kv_map(additional@) == additional_model(msg0, bf0));
    }

    let out_message = if body_present {
        None
    } else {
        message
    };
    let out_timestamp = match timestamp {
        Some(t) => t,
        None => fallback,
    };
    Message {
        timestamp: out_timestamp,
        level: String::from_str(priority.severity()),
        message: out_message,
        message_template: None,
        exception: None,
        additional,
    }
}

impl syslog::Message {
    /// Converts a SYSLOG message into a CLEF event.
    ///
    /// The message body is inspected and, when it is one JSON object, its
    /// top-level fields join the additional fields at the lowest precedence
    /// and the body is considered fully consumed (no `@m`). Fields with
    /// conflicting names are prioritised header > structured data >
    /// embedded body; a lower-priority field is kept under a
    /// double-underscore-prefixed name.
    pub fn into_clef(self) -> (r: Message)
        requires
            self.wf(),
        ensures
            maps_to(self, r),
    {
        let body_fields = match &self.message {
            Some(b) => parse_json_object(b.as_str()),
            None => None,
        };
        let ghost bf = bf_view(body_fields);
        let fallback = now_rfc3339();
        let r = assemble(self, body_fields, fallback);
        proof {
            match opt_str_view(self.message) {
                Some(b) => {
                    match json_object_keys(b) {
                        Some(ks) => {
                            let fs = bf->0;
                            assert(names_of(fs) =~= ks);
                            assert(names_of(fs) == ks && kv_map(r.additional@)
                                == additional_model(self, Some(fs)));
                        },
                        None => {},
                    }
                },
                None => {},
            }
        }
        r
    }
}

/// With no structured data and no embedded body fields, the additional
/// fields are exactly `facility` — carrying the decoded facility name — and
/// each present optional header field under its own name with its own
/// value; nothing else, and nothing for an absent field.
pub proof fn lemma_headers_only(msg: syslog::Message)
    requires
        msg.structured_data is None,
    ensures
        additional_model(msg, None)["facility"@] == FieldModel::Text(
            facility_name(msg.priority.facility as int),
        ),
        opt_str_view(msg.hostname) matches Some(h) ==> additional_model(msg, None)["hostname"@]
            == FieldModel::Text(h),
        opt_str_view(msg.app_name) matches Some(a) ==> additional_model(msg, None)["app_name"@]
            == FieldModel::Text(a),
        opt_str_view(msg.proc_id) matches Some(p) ==> additional_model(msg, None)["proc_id"@]
            == FieldModel::Text(p),
        opt_str_view(msg.message_id) matches Some(x) ==> additional_model(msg, None)["message_id"@]
            == FieldModel::Text(x),
        forall|k: Seq<char>|
            #[trigger] additional_model(msg, None).dom().contains(k) <==> (k == "facility"@ || (
            k == "hostname"@ && msg.hostname is Some) || (k == "app_name"@ && msg.app_name is Some)
                || (k == "proc_id"@ && msg.proc_id is Some) || (k == "message_id"@
                && msg.message_id is Some)),
{
    lemma_header_keys();
}

/// Within one element the parameter list is stored verbatim under the
/// element's id: duplicate parameter names stay separate entries, in
/// order, to be rendered as separate single-key objects.
pub proof fn lemma_sd_params_preserved(msg: syslog::Message, e: SdModel)
    requires
        sd_view(msg.structured_data) == Some(seq![e]),
        !reserved_key(e.id),
        !tier1(msg).dom().contains(e.id),
    ensures
        additional_model(msg, None).dom().contains(e.id),
        additional_model(msg, None)[e.id] == FieldModel::ParamObjects(e.params),
{
    let t1 = tier1(msg);
    lemma_put_free(t1, e.id, FieldModel::ParamObjects(e.params));
    let m1 = put_field(t1, e.id, FieldModel::ParamObjects(e.params));
    assert(seq![e].drop_first() =~= Seq::<SdModel>::empty());
    assert(seq![e][0] == e);
    assert(add_sd_elems(t1, seq![e]) == add_sd_elems(m1, seq![e].drop_first()));
    assert(add_sd_elems(m1, Seq::<SdModel>::empty()) == m1);
    assert(additional_model(msg, None) == m1);
}

/// The names of the optional header fields.
pub open spec fn optional_header_key(k: Seq<char>) -> bool {
    ||| k == "hostname"@
    ||| k == "app_name"@
    ||| k == "proc_id"@
    ||| k == "message_id"@
}

/// The value the header gives to the optional header field named `k`.
pub open spec fn optional_header_value(msg: syslog::Message, k: Seq<char>) -> Option<Seq<char>> {
    if k == "hostname"@ {
        opt_str_view(msg.hostname)
    } else if k == "app_name"@ {
        opt_str_view(msg.app_name)
    } else if k == "proc_id"@ {
        opt_str_view(msg.proc_id)
    } else if k == "message_id"@ {
        opt_str_view(msg.message_id)
    } else {
        None
    }
}

/// Conflict resolution: a structured-data element whose id names a present
/// header field leaves the header's value under the plain key and stores
/// the element's parameters under the id prefixed with two underscores.
pub proof fn lemma_header_conflict(msg: syslog::Message, e: SdModel)
    requires
        sd_view(msg.structured_data) == Some(seq![e]),
        optional_header_key(e.id),
        optional_header_value(msg, e.id) is Some,
    ensures
        additional_model(msg, None)[e.id] == FieldModel::Text(optional_header_value(msg, e.id)->0),
        additional_model(msg, None).dom().contains(underscores(2) + e.id),
        additional_model(msg, None)[underscores(2) + e.id] == FieldModel::ParamObjects(e.params),
{
    lemma_header_keys();
    lemma_underscores(2);
    let t1 = tier1(msg);
    assert(t1.dom().contains(e.id));
    assert(t1[e.id] == FieldModel::Text(optional_header_value(msg, e.id)->0));
    let c1 = underscores(2) + e.id;
    assert(c1.len() == e.id.len() + 2);
    assert(c1[0] == '_');
    assert(!reserved_key(c1)) by {
        lemma_reserved_shape(c1);
    }
    assert(!t1.dom().contains(c1));
    assert(cand_key(e.id, 1) == c1);
    let f = fuel_of(t1);
    assert(f >= 2);
    assert(resolve_from(t1, e.id, 0, f) == resolve_from(t1, e.id, 1, (f - 1) as nat));
    assert(resolve_from(t1, e.id, 1, (f - 1) as nat) == c1);
    assert(put_field(t1, e.id, FieldModel::ParamObjects(e.params)) == t1.insert(
        c1,
        FieldModel::ParamObjects(e.params),
    ));
    let m1 = put_field(t1, e.id, FieldModel::ParamObjects(e.params));
    assert(seq![e].drop_first() =~= Seq::<SdModel>::empty());
    assert(seq![e][0] == e);
    assert(add_sd_elems(t1, seq![e]) == add_sd_elems(m1, seq![e].drop_first()));
    assert(add_sd_elems(m1, Seq::<SdModel>::empty()) == m1);
    assert(additional_model(msg, None) == m1);
    assert(c1 != e.id);
}

proof fn lemma_add_sd_absent(m: Map<Seq<char>, FieldModel>, elems: Seq<SdModel>, k: Seq<char>)
    requires
        !m.dom().contains(k),
        forall|i: int| 0 <= i < elems.len() ==> (#[trigger] elems[i]).id != k,
        k.len() > 0,
        k[0] != '_',
    ensures
        !add_sd_elems(m, elems).dom().contains(k),
    decreases elems.len(),
{
    if elems.len() > 0 {
        lemma_put_field_absent(m, elems[0].id, FieldModel::ParamObjects(elems[0].params), k);
        assert(forall|i: int|
            0 <= i < elems.drop_first().len() ==> (#[trigger] elems.drop_first()[i]).id != k) by {
            assert(forall|i: int|
                0 <= i < elems.drop_first().len() ==> elems.drop_first()[i] == (#[trigger] elems[i
                    + 1]));
        }
        lemma_add_sd_absent(
            put_field(m, elems[0].id, FieldModel::ParamObjects(elems[0].params)),
            elems.drop_first(),
            k,
        );
    }
}

proof fn lemma_add_embedded_absent(
    m: Map<Seq<char>, FieldModel>,
    fields: Seq<(Seq<char>, serde_json::Value)>,
    k: Seq<char>,
)
    requires
        !m.dom().contains(k),
        forall|i: int| 0 <= i < fields.len() ==> (#[trigger] fields[i]).0 != k,
        k.len() > 0,
        k[0] != '_',
    ensures
        !add_embedded(m, fields).dom().contains(k),
    decreases fields.len(),
{
    if fields.len() > 0 {
        lemma_put_field_absent(m, fields[0].0, FieldModel::Embedded(fields[0].1), k);
        assert(forall|i: int|
            0 <= i < fields.drop_first().len() ==> (#[trigger] fields.drop_first()[i]).0 != k) by {
            assert(forall|i: int|
                0 <= i < fields.drop_first().len() ==> fields.drop_first()[i] == (
                #[trigger] fields[i + 1]));
        }
        lemma_add_embedded_absent(
            put_field(m, fields[0].0, FieldModel::Embedded(fields[0].1)),
            fields.drop_first(),
            k,
        );
    }
}

/// An absent optional header field contributes nothing to the event — not
/// even a key — unless a structured-data element or an embedded body field
/// explicitly carries that very name.
pub proof fn lemma_absent_header_omitted(
    msg: syslog::Message,
    bf: Option<Seq<(Seq<char>, serde_json::Value)>>,
    k: Seq<char>,
)
    requires
        optional_header_key(k),
        optional_header_value(msg, k) is None,
        sd_view(msg.structured_data) matches Some(es) ==> forall|i: int|
            0 <= i < es.len() ==> (#[trigger] es[i]).id != k,
        bf matches Some(fs) ==> forall|i: int| 0 <= i < fs.len() ==> (#[trigger] fs[i]).0 != k,
    ensures
        !additional_model(msg, bf).dom().contains(k),
{
    lemma_header_keys();
    let t1 = tier1(msg);
    assert(!t1.dom().contains(k));
    let m2 = match sd_view(msg.structured_data) {
        Some(es) => add_sd_elems(t1, es),
        None => t1,
    };
    match sd_view(msg.structured_data) {
        Some(es) => {
            lemma_add_sd_absent(t1, es, k);
        },
        None => {},
    }
    match bf {
        Some(fs) => {
            lemma_add_embedded_absent(m2, fs, k);
        },
        None => {},
    }
}

} // verus!
