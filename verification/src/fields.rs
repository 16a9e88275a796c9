//! The additional-fields bag of a CLEF event: an association list with
//! distinct keys, its mathematical model a `Map`, and the conflict-resolving
//! insertion that the field-precedence policy rests on. When a candidate key
//! is reserved or already present, the incoming (lower-precedence) value is
//! stored under the key prefixed with two underscores, then three, and so
//! on, until a free key is found.

use vstd::prelude::*;

use crate::parsers::params_view;

verus! {

/// A value of an additional field: plain text, a structured-data parameter
/// list (rendered downstream as one single-key object per parameter, in
/// order, duplicates kept), or a JSON value recovered from an embedded-JSON
/// message body, carried through opaquely.
pub enum FieldValue {
    Text(String),
    ParamObjects(Vec<(String, String)>),
    Embedded(serde_json::Value),
}

/// The specification-level value of an additional field.
pub enum FieldModel {
    Text(Seq<char>),
    ParamObjects(Seq<(Seq<char>, Seq<char>)>),
    Embedded(serde_json::Value),
}

impl FieldValue {
    pub open spec fn model(self) -> FieldModel {
        match self {
            FieldValue::Text(t) => FieldModel::Text(t@),
            FieldValue::ParamObjects(ps) => FieldModel::ParamObjects(params_view(ps@)),
            FieldValue::Embedded(v) => FieldModel::Embedded(v),
        }
    }
}

/// The map that an association list stands for.
pub open spec fn kv_map(s: Seq<(String, FieldValue)>) -> Map<Seq<char>, FieldModel>
    decreases s.len(),
{
    if s.len() == 0 {
        Map::empty()
    } else {
        kv_map(s.drop_last()).insert(s.last().0@, s.last().1.model())
    }
}

/// All keys of the association list are distinct.
pub open spec fn kv_keys_nodup(s: Seq<(String, FieldValue)>) -> bool {
    forall|i: int, j: int| 0 <= i < j < s.len() ==> (#[trigger] s[i]).0@ != (#[trigger] s[j]).0@
}

/// The CLEF-reserved keys, which the additional-fields bag never holds.
pub open spec fn reserved_key(k: Seq<char>) -> bool {
    ||| k == "@t"@
    ||| k == "@l"@
    ||| k == "@m"@
    ||| k == "@mt"@
    ||| k == "@x"@
    ||| k == "@i"@
    ||| k == "@r"@
}

/// `n` underscores.
pub open spec fn underscores(n: nat) -> Seq<char>
    decreases n,
{
    if n == 0 {
        Seq::empty()
    } else {
        underscores((n - 1) as nat).push('_')
    }
}

pub proof fn lemma_underscores(n: nat)
    ensures
        underscores(n).len() == n,
        forall|j: int| 0 <= j < n ==> underscores(n)[j] == '_',
    decreases n,
{
    if n > 0 {
        lemma_underscores((n - 1) as nat);
    }
}

/// The `i`-th candidate key for `k`: `k` itself, then `__k`, `___k`, ...
pub open spec fn cand_key(k: Seq<char>, i: nat) -> Seq<char> {
    if i == 0 {
        k
    } else {
        underscores(i + 1) + k
    }
}

/// A key under which a field may be stored: not reserved and not taken.
pub open spec fn key_free(m: Map<Seq<char>, FieldModel>, k: Seq<char>) -> bool {
    !reserved_key(k) && !m.dom().contains(k)
}

/// How many candidates the search tries before giving the field up.
pub open spec fn fuel_of(m: Map<Seq<char>, FieldModel>) -> nat {
    if m.dom().finite() && m.dom().len() + 8 <= usize::MAX {
        m.dom().len() + 8
    } else {
        usize::MAX as nat
    }
}

/// The first free candidate for `k`, starting at candidate `i` with `fuel`
/// tries left; the current candidate once the fuel is spent.
pub open spec fn resolve_from(m: Map<Seq<char>, FieldModel>, k: Seq<char>, i: nat, fuel: nat) -> Seq<
    char,
>
    decreases fuel,
{
    if fuel == 0 || key_free(m, cand_key(k, i)) {
        cand_key(k, i)
    } else {
        resolve_from(m, k, i + 1, (fuel - 1) as nat)
    }
}

/// The key under which a field named `k` is stored in `m`.
pub open spec fn resolve_key(m: Map<Seq<char>, FieldModel>, k: Seq<char>) -> Seq<char> {
    resolve_from(m, k, 0, fuel_of(m))
}

/// The conflict-resolving insertion: the field goes in under its resolved
/// key; if even that key is not free (possible only once the candidate
/// search has spent its fuel), the field is dropped rather than let a
/// reserved key in or a present one be overwritten.
pub open spec fn put_field(m: Map<Seq<char>, FieldModel>, k: Seq<char>, v: FieldModel) -> Map<
    Seq<char>,
    FieldModel,
> {
    let rk = resolve_key(m, k);
    if key_free(m, rk) {
        m.insert(rk, v)
    } else {
        m
    }
}

/// No reserved key is a key of `m`.
pub open spec fn no_reserved(m: Map<Seq<char>, FieldModel>) -> bool {
    forall|k: Seq<char>| #[trigger] m.dom().contains(k) ==> !reserved_key(k)
}

pub proof fn lemma_kv_contains(s: Seq<(String, FieldValue)>, k: Seq<char>)
    ensures
        kv_map(s).dom().contains(k) <==> exists|i: int|
            0 <= i < s.len() && (#[trigger] s[i]).0@ == k,
    decreases s.len(),
{
    if s.len() > 0 {
        lemma_kv_contains(s.drop_last(), k);
        if s.last().0@ == k {
            assert((s[s.len() - 1]).0@ == k);
        } else {
            if kv_map(s).dom().contains(k) {
                let dl = s.drop_last();
                let i = choose|i: int| 0 <= i < dl.len() && (#[trigger] dl[i]).0@ == k;
                assert((s[i]).0@ == k);
            }
            if exists|i: int| 0 <= i < s.len() && (#[trigger] s[i]).0@ == k {
                let i = choose|i: int| 0 <= i < s.len() && (#[trigger] s[i]).0@ == k;
                assert(i < s.len() - 1);
                assert((s.drop_last()[i]).0@ == k);
            }
        }
    }
}

pub proof fn lemma_kv_dom(s: Seq<(String, FieldValue)>)
    requires
        kv_keys_nodup(s),
    ensures
        kv_map(s).dom().finite(),
        kv_map(s).dom().len() == s.len(),
    decreases s.len(),
{
    if s.len() > 0 {
        assert(kv_keys_nodup(s.drop_last())) by {
            assert(forall|i: int, j: int|
                0 <= i < j < s.drop_last().len() ==> (#[trigger] s.drop_last()[i]).0@ != (
                #[trigger] s.drop_last()[j]).0@) by {
                assert(forall|i: int|
                    0 <= i < s.drop_last().len() ==> s.drop_last()[i] == (#[trigger] s[i]));
            }
        }
        lemma_kv_dom(s.drop_last());
        lemma_kv_contains(s.drop_last(), s.last().0@);
        assert(!kv_map(s.drop_last()).dom().contains(s.last().0@)) by {
            if exists|i: int|
                0 <= i < s.drop_last().len() && (#[trigger] s.drop_last()[i]).0@ == s.last().0@ {
                let i = choose|i: int|
                    0 <= i < s.drop_last().len() && (#[trigger] s.drop_last()[i]).0@
                        == s.last().0@;
                assert((s[i]).0@ == (s[s.len() - 1]).0@);
            }
        }
    }
}

/// Whatever the fuel, the resolved key is one of the candidates for `k`.
pub proof fn lemma_resolve_is_cand(m: Map<Seq<char>, FieldModel>, k: Seq<char>, i: nat, fuel: nat)
    ensures
        exists|j: nat| j >= i && resolve_from(m, k, i, fuel) == cand_key(k, j),
    decreases fuel,
{
    if fuel == 0 || key_free(m, cand_key(k, i)) {
        assert(resolve_from(m, k, i, fuel) == cand_key(k, i));
    } else {
        lemma_resolve_is_cand(m, k, i + 1, (fuel - 1) as nat);
    }
}

/// Inserting a field named `k` never adds a key `q` that differs from `k`
/// and does not begin with an underscore.
pub proof fn lemma_put_field_absent(
    m: Map<Seq<char>, FieldModel>,
    k: Seq<char>,
    v: FieldModel,
    q: Seq<char>,
)
    requires
        !m.dom().contains(q),
        q != k,
        q.len() > 0,
        q[0] != '_',
    ensures
        !put_field(m, k, v).dom().contains(q),
{
    lemma_resolve_is_cand(m, k, 0, fuel_of(m));
    let j = choose|j: nat| j >= 0 && resolve_key(m, k) == cand_key(k, j);
    if j > 0 {
        lemma_underscores(j + 1);
        assert(cand_key(k, j)[0] == '_');
    }
}

/// Conflict-resolving insertion keeps reserved keys out.
pub proof fn lemma_put_field_no_reserved(m: Map<Seq<char>, FieldModel>, k: Seq<char>, v: FieldModel)
    requires
        no_reserved(m),
    ensures
        no_reserved(put_field(m, k, v)),
{
}

/// The candidate keys 0 through `n` for `k`, as a set.
pub open spec fn cand_set(k: Seq<char>, n: nat) -> Set<Seq<char>>
    decreases n,
{
    if n == 0 {
        Set::empty().insert(cand_key(k, 0))
    } else {
        cand_set(k, (n - 1) as nat).insert(cand_key(k, n))
    }
}

proof fn lemma_cand_key_len(k: Seq<char>, i: nat)
    ensures
        cand_key(k, i).len() == if i == 0 {
            k.len()
        } else {
            k.len() + i + 1
        },
{
    if i > 0 {
        lemma_underscores(i + 1);
    }
}

proof fn lemma_cand_set(k: Seq<char>, n: nat)
    ensures
        cand_set(k, n).finite(),
        cand_set(k, n).len() == n + 1,
        forall|j: nat| j <= n ==> cand_set(k, n).contains(#[trigger] cand_key(k, j)),
        forall|x: Seq<char>| #[trigger] cand_set(k, n).contains(x) ==> exists|j: nat|
            j <= n && x == cand_key(k, j),
    decreases n,
{
    if n > 0 {
        lemma_cand_set(k, (n - 1) as nat);
        assert(!cand_set(k, (n - 1) as nat).contains(cand_key(k, n))) by {
            if cand_set(k, (n - 1) as nat).contains(cand_key(k, n)) {
                let j = choose|j: nat| j <= n - 1 && cand_key(k, n) == cand_key(k, j);
                lemma_cand_key_len(k, n);
                lemma_cand_key_len(k, j);
            }
        }
    }
}

/// The CLEF-reserved keys as a set.
pub open spec fn reserved_set() -> Set<Seq<char>> {
    set!["@t"@, "@l"@, "@m"@, "@mt"@, "@x"@, "@i"@, "@r"@]
}

proof fn lemma_reserved_set()
    ensures
        reserved_set().finite(),
        reserved_set().len() <= 7,
        forall|x: Seq<char>| #[trigger] reserved_set().contains(x) <==> reserved_key(x),
{
}

proof fn lemma_resolve_reaches_free(m: Map<Seq<char>, FieldModel>, k: Seq<char>, s: nat, fuel: nat)
    requires
        exists|i: nat| s <= i <= s + fuel && key_free(m, #[trigger] cand_key(k, i)),
    ensures
        key_free(m, resolve_from(m, k, s, fuel)),
    decreases fuel,
{
    if !key_free(m, cand_key(k, s)) {
        let i = choose|i: nat| s <= i <= s + fuel && key_free(m, #[trigger] cand_key(k, i));
        assert(i != s);
        assert(fuel > 0);
        assert(s + 1 <= i <= (s + 1) + (fuel - 1));
        lemma_resolve_reaches_free(m, k, s + 1, (fuel - 1) as nat);
    }
}

/// The candidate search always succeeds: among the candidates it is willing
/// to try there is always one that is neither reserved nor taken, so a
/// field put into the map is always retained — the drop branch of
/// `put_field` is unreachable — and the resolved key is free.
pub proof fn lemma_resolve_finds_free(m: Map<Seq<char>, FieldModel>, k: Seq<char>, v: FieldModel)
    requires
        m.dom().finite(),
        m.dom().len() + 8 <= usize::MAX,
    ensures
        key_free(m, resolve_key(m, k)),
        put_field(m, k, v) == m.insert(resolve_key(m, k), v),
{
    let f = fuel_of(m);
    assert(f == m.dom().len() + 8);
    assert(exists|i: nat| 0 <= i <= f && key_free(m, #[trigger] cand_key(k, i))) by {
        if forall|i: nat| i <= f ==> !key_free(m, #[trigger] cand_key(k, i)) {
            lemma_cand_set(k, f);
            lemma_reserved_set();
            let blockers = m.dom().union(reserved_set());
            assert(cand_set(k, f).subset_of(blockers)) by {
                assert forall|x: Seq<char>| #[trigger] cand_set(k, f).contains(x) implies blockers
                    .contains(x) by {
                    let j = choose|j: nat| j <= f && x == cand_key(k, j);
                    assert(!key_free(m, cand_key(k, j)));
                }
            }
            vstd::set_lib::lemma_len_union(m.dom(), reserved_set());
            vstd::set_lib::lemma_len_subset(cand_set(k, f), blockers);
            assert(false);
        }
    }
    lemma_resolve_reaches_free(m, k, 0, f);
}

/// True exactly on the CLEF-reserved keys.
fn is_reserved(s: &String) -> (r: bool)
    ensures
        r == reserved_key(s@),
{
    *s == String::from_str("@t") || *s == String::from_str("@l") || *s == String::from_str("@m")
        || *s == String::from_str("@mt") || *s == String::from_str("@x") || *s == String::from_str(
        "@i",
    ) || *s == String::from_str("@r")
}

/// True exactly when `k` is a key of the list.
#[verifier::loop_isolation(false)]
fn contains_key(v: &Vec<(String, FieldValue)>, k: &String) -> (r: bool)
    ensures
        r == kv_map(v@).dom().contains(k@),
{
    proof {
        lemma_kv_contains(v@, k@);
    }
    let n = v.len();
    let mut i: usize = 0;
    while i < n
        invariant
            i <= n,
            forall|j: int| 0 <= j < i ==> (#[trigger] v@[j]).0@ != k@,
        decreases n - i,
    {
        if v[i].0 == *k {
            return true;
        }
        i = i + 1;
    }
    false
}

/// Builds the `i`-th candidate key for `key`, for `i >= 1`.
#[verifier::loop_isolation(false)]
fn build_cand(key: &String, i: usize) -> (r: String)
    requires
        1 <= i,
    ensures
        r@ == cand_key(key@, i as nat),
{
    let mut p = String::new();
    let mut j: usize = 0;
    while j < i
        invariant
            j <= i,
            p@ == underscores(j as nat),
        decreases i - j,
    {
        p.push('_');
        j = j + 1;
    }
    p.push('_');
    p.append(key.as_str());
    p
}

/// Inserts a field under the precedence policy: the first free candidate
/// key (`key`, `__key`, `___key`, ...) receives the value; keys already
/// present — set by higher-precedence sources — are left untouched.
#[verifier::loop_isolation(false)]
pub fn insert_field(v: &mut Vec<(String, FieldValue)>, key: String, val: FieldValue)
    requires
        kv_keys_nodup(old(v)@),
    ensures
        kv_map(final(v)@) == put_field(kv_map(old(v)@), key@, val.model()),
        kv_keys_nodup(final(v)@),
        final(v)@.len() <= old(v)@.len() + 1,
{
    let ghost m = kv_map(old(v)@);
    proof {
        lemma_kv_dom(old(v)@);
    }
    let fuel: usize = if v.len() <= usize::MAX - 8 {
        v.len() + 8
    } else {
        usize::MAX
    };
    proof {
        assert(fuel as nat == fuel_of(m));
    }
    let mut i: usize = 0;
    let mut cand: String = key.clone();
    loop
        invariant
            i <= fuel,
            cand@ == cand_key(key@, i as nat),
            resolve_key(m, key@) == resolve_from(m, key@, i as nat, (fuel - i) as nat),
            kv_keys_nodup(v@),
            v@ == old(v)@,
            m == kv_map(v@),
        decreases fuel - i,
    {
        let free = !is_reserved(&cand) && !contains_key(v, &cand);
        if free || i == fuel {
            proof {
                assert(resolve_from(m, key@, i as nat, (fuel - i) as nat) == cand_key(
                    key@,
                    i as nat,
                ));
                assert(resolve_key(m, key@) == cand@);
            }
            if free {
                let ghost ck = cand@;
                let ghost prev = v@;
                proof {
                    lemma_kv_contains(prev, ck);
                }
                v.push((cand, val));
                proof {
                    assert(v@.drop_last() =~= prev);
                    assert(v@.last() == (v@[prev.len() as int]));
                    assert(kv_map(v@) == kv_map(prev).insert(ck, val.model()));
                    assert(forall|a: int|
                        0 <= a < prev.len() ==> (#[trigger] v@[a]).0@ != ck);
                }
            }
            return ;
        }
        i = i + 1;
        let next = build_cand(&key, i);
        cand = next;
        proof {
            assert(resolve_from(m, key@, (i - 1) as nat, (fuel - (i - 1)) as nat) == resolve_from(
                m,
                key@,
                i as nat,
                (fuel - i) as nat,
            ));
        }
    }
}

} // verus!
