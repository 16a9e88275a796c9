//! Low-level text scanning for the SYSLOG header grammar: token boundaries,
//! the `<N>` priority prefix, and the bracketed structured-data elements
//! `[SD-ID PARAM-NAME="PARAM-VALUE" ...]` with backslash-escaped values.
//!
//! Every executable scanner here is proved equal to a specification-level
//! grammar function over the input's character sequence; the message parser
//! in `syslog` composes them.

use vstd::prelude::*;

use crate::priority::{spec_decode, Priority};

verus! {

/// Appends one character to a string.
pub assume_specification[ String::push ](s: &mut String, c: char)
    ensures
        final(s)@ == old(s)@.push(c),
;

pub open spec fn is_digit(c: char) -> bool {
    '0' <= c && c <= '9'
}

/// The position of the first occurrence of `c` at or after `from`, if any.
pub open spec fn find_char(s: Seq<char>, from: int, c: char) -> Option<int>
    decreases s.len() - from,
{
    if from < 0 || from >= s.len() {
        None
    } else if s[from] == c {
        Some(from)
    } else {
        find_char(s, from + 1, c)
    }
}

pub proof fn lemma_find_char(s: Seq<char>, from: int, c: char)
    requires
        0 <= from <= s.len(),
    ensures
        match find_char(s, from, c) {
            Some(j) => from <= j < s.len() && s[j] == c && (forall|i: int|
                from <= i < j ==> s[i] != c),
            None => forall|i: int| from <= i < s.len() ==> s[i] != c,
        },
    decreases s.len() - from,
{
    if from < s.len() && s[from] != c {
        lemma_find_char(s, from + 1, c);
    }
}

/// The end of the token that starts at `from`: the first space, or the end
/// of the input.
pub open spec fn token_end(s: Seq<char>, from: int) -> int {
    match find_char(s, from, ' ') {
        Some(j) => j,
        None => s.len() as int,
    }
}

pub proof fn lemma_token_end(s: Seq<char>, from: int)
    requires
        0 <= from <= s.len(),
    ensures
        from <= token_end(s, from) <= s.len(),
{
    lemma_find_char(s, from, ' ');
}

/// The token that starts at `from`.
pub open spec fn token_at(s: Seq<char>, from: int) -> Seq<char> {
    s.subrange(from, token_end(s, from))
}

/// The start of the next token: one past the space that ends this token, or
/// the end of the input.
pub open spec fn next_pos(s: Seq<char>, from: int) -> int {
    if token_end(s, from) < s.len() {
        token_end(s, from) + 1
    } else {
        s.len() as int
    }
}

pub proof fn lemma_next_pos(s: Seq<char>, from: int)
    requires
        0 <= from <= s.len(),
    ensures
        from <= next_pos(s, from) <= s.len(),
{
    lemma_token_end(s, from);
}

/// Finds the first occurrence of `c` at or after `from`.
pub fn find_char_at(s: &str, from: usize, c: char) -> (r: Option<usize>)
    requires
        from <= s@.len(),
    ensures
        match r {
            Some(j) => Some(j as int) == find_char(s@, from as int, c) && from <= j < s@.len(),
            None => find_char(s@, from as int, c) is None,
        },
{
    let n = s.unicode_len();
    let mut i = from;
    while i < n
        invariant
            from <= i <= n,
            n == s@.len(),
            forall|k: int| from <= k < i ==> s@[k] != c,
        decreases n - i,
    {
        if s.get_char(i) == c {
            proof {
                lemma_find_char(s@, from as int, c);
            }
            return Some(i);
        }
        i = i + 1;
    }
    proof {
        lemma_find_char(s@, from as int, c);
    }
    None
}

/// Computes `token_end` for the token starting at `from`.
pub fn token_end_at(s: &str, from: usize) -> (r: usize)
    requires
        from <= s@.len(),
    ensures
        r as int == token_end(s@, from as int),
        from <= r <= s@.len(),
{
    match find_char_at(s, from, ' ') {
        Some(j) => j,
        None => s.unicode_len(),
    }
}

/// Computes `next_pos` for the token starting at `from`.
pub fn next_pos_at(s: &str, from: usize) -> (r: usize)
    requires
        from <= s@.len(),
    ensures
        r as int == next_pos(s@, from as int),
        from <= r <= s@.len(),
{
    let e = token_end_at(s, from);
    if e < s.unicode_len() {
        e + 1
    } else {
        e
    }
}

/// The numeric value of the digit run `s[a..b)`.
pub open spec fn digits_val(s: Seq<char>, a: int, b: int) -> int
    decreases b - a,
{
    if a >= b {
        0
    } else {
        digits_val(s, a, b - 1) * 10 + (s[b - 1] as int - '0' as int)
    }
}

pub open spec fn all_digits(s: Seq<char>, a: int, b: int) -> bool {
    forall|i: int| a <= i < b ==> is_digit(s[i])
}

/// The facility and severity substituted when the priority token is
/// malformed: user-level (facility 1), notice (severity 5).
pub open spec fn default_priority() -> Priority {
    Priority { facility: 1, severity: 5 }
}

/// The priority parse: a leading `<N>` with one to three digits and
/// `N <= 191` decodes to `(facility, severity)` and the parse resumes after
/// the `>`; anything else degrades to the default priority and the parse
/// resumes at the start.
pub open spec fn spec_parse_priority(s: Seq<char>) -> (Priority, int) {
    if s.len() > 0 && s[0] == '<' {
        match find_char(s, 1, '>') {
            Some(j) => {
                if 1 < j && j <= 4 && all_digits(s, 1, j) && digits_val(s, 1, j) <= 191 {
                    (spec_decode(digits_val(s, 1, j) as u8), j + 1)
                } else {
                    (default_priority(), 0)
                }
            },
            None => (default_priority(), 0),
        }
    } else {
        (default_priority(), 0)
    }
}

pub open spec fn pow10(n: int) -> int
    decreases n,
{
    if n <= 0 {
        1
    } else {
        10 * pow10(n - 1)
    }
}

proof fn lemma_digits_val_bound(s: Seq<char>, a: int, b: int)
    requires
        all_digits(s, a, b),
        0 <= a,
    ensures
        0 <= digits_val(s, a, b) < pow10(b - a),
    decreases b - a,
{
    if a < b {
        lemma_digits_val_bound(s, a, b - 1);
        assert(is_digit(s[b - 1]));
        assert(0 <= s[b - 1] as int - '0' as int <= 9);
    }
}

/// Parses the leading `<N>` priority token.
#[verifier::loop_isolation(false)]
pub fn parse_priority_at(s: &str) -> (r: (Priority, usize))
    ensures
        r.0 == spec_parse_priority(s@).0,
        r.1 as int == spec_parse_priority(s@).1,
        r.1 <= s@.len(),
        r.0.facility < 24,
        r.0.severity < 8,
{
    let n = s.unicode_len();
    let default = Priority { facility: 1, severity: 5 };
    if n == 0 || s.get_char(0) != '<' {
        return (default, 0);
    }
    match find_char_at(s, 1, '>') {
        None => (default, 0),
        Some(j) => {
            if !(1 < j && j <= 4) {
                return (default, 0);
            }
            let mut v: u32 = 0;
            let mut i: usize = 1;
            while i < j
                invariant
                    1 <= i <= j,
                    j <= 4,
                    j < n,
                    n == s@.len(),
                    all_digits(s@, 1, i as int),
                    v as int == digits_val(s@, 1, i as int),
                    v < 1000,
                decreases j - i,
            {
                let c = s.get_char(i);
                if c < '0' || c > '9' {
                    proof {
                        assert(!is_digit(s@[i as int]));
                        assert(!all_digits(s@, 1, j as int));
                    }
                    return (default, 0);
                }
                v = v * 10 + (c as u32 - 48);
                i = i + 1;
                proof {
                    lemma_digits_val_bound(s@, 1, i as int);
                    assert(v < 1000) by {
                        reveal_with_fuel(pow10, 5);
                    };
                }
            }
            if v <= 191 {
                assert(all_digits(s@, 1, j as int));
                (Priority::from_code(v as u8), j + 1)
            } else {
                (default, 0)
            }
        },
    }
}

/// A structured-data element at the specification level: an identifier and
/// its ordered parameter list, duplicate keys kept as separate entries.
pub struct SdModel {
    pub id: Seq<char>,
    pub params: Seq<(Seq<char>, Seq<char>)>,
}

/// The characters that end an SD-ID or PARAM-NAME token.
pub open spec fn name_stop(c: char) -> bool {
    c == '=' || c == ']' || c == '"' || c == ' '
}

/// The position of the first name-stopping character at or after `from`,
/// or the end of the input.
pub open spec fn scan_name_end(s: Seq<char>, from: int) -> int
    decreases s.len() - from,
{
    if from < 0 || from >= s.len() {
        s.len() as int
    } else if name_stop(s[from]) {
        from
    } else {
        scan_name_end(s, from + 1)
    }
}

pub proof fn lemma_scan_name_end(s: Seq<char>, from: int)
    requires
        0 <= from <= s.len(),
    ensures
        from <= scan_name_end(s, from) <= s.len(),
        scan_name_end(s, from) < s.len() ==> name_stop(s[scan_name_end(s, from)]),
        forall|i: int| from <= i < scan_name_end(s, from) ==> !name_stop(s[i]),
    decreases s.len() - from,
{
    if from < s.len() && !name_stop(s[from]) {
        lemma_scan_name_end(s, from + 1);
    }
}

/// Scans to the end of an SD-ID or PARAM-NAME token.
#[verifier::loop_isolation(false)]
pub fn scan_name_end_at(s: &str, from: usize) -> (r: usize)
    requires
        from <= s@.len(),
    ensures
        r as int == scan_name_end(s@, from as int),
        from <= r <= s@.len(),
{
    proof {
        lemma_scan_name_end(s@, from as int);
    }
    let n = s.unicode_len();
    let mut i = from;
    while i < n
        invariant
            from <= i <= n,
            forall|k: int| from <= k < i ==> !name_stop(s@[k]),
        decreases n - i,
    {
        let c = s.get_char(i);
        if c == '=' || c == ']' || c == '"' || c == ' ' {
            assert(i as int == scan_name_end(s@, from as int)) by {
                lemma_scan_name_end(s@, from as int);
            };
            return i;
        }
        i = i + 1;
    }
    assert(i as int == scan_name_end(s@, from as int)) by {
        lemma_scan_name_end(s@, from as int);
    };
    i
}

/// The characters that a backslash escapes inside a quoted parameter value.
pub open spec fn escapable(c: char) -> bool {
    c == '"' || c == '\\' || c == ']'
}

/// The remainder of a quoted parameter value starting at `p` (just past the
/// opening quote): the unescaped text and the position just past the closing
/// quote. `\"`, `\\` and `\]` unescape to the bare character; a backslash
/// before anything else is kept literally. An unterminated value is `None`.
pub open spec fn parse_quoted(s: Seq<char>, p: int) -> Option<(Seq<char>, int)>
    decreases s.len() - p,
{
    if p < 0 || p >= s.len() {
        None
    } else if s[p] == '"' {
        Some((Seq::empty(), p + 1))
    } else if s[p] == '\\' && p + 1 < s.len() && escapable(s[p + 1]) {
        match parse_quoted(s, p + 2) {
            Some(r) => Some((seq![s[p + 1]] + r.0, r.1)),
            None => None,
        }
    } else {
        match parse_quoted(s, p + 1) {
            Some(r) => Some((seq![s[p]] + r.0, r.1)),
            None => None,
        }
    }
}


/// Reads a quoted parameter value, unescaping it.
pub fn parse_quoted_at(s: &str, p: usize) -> (r: Option<(String, usize)>)
    requires
        p <= s@.len(),
    ensures
        match r {
            Some(v) => parse_quoted(s@, p as int) == Some((v.0@, v.1 as int)) && p < v.1
                <= s@.len(),
            None => parse_quoted(s@, p as int) is None,
        },
    decreases s@.len() - p,
{
    let n = s.unicode_len();
    if p >= n {
        return None;
    }
    let c = s.get_char(p);
    if c == '"' {
        return Some((String::new(), p + 1));
    }
    if c == '\\' && p + 1 < n {
        let c2 = s.get_char(p + 1);
        if c2 == '"' || c2 == '\\' || c2 == ']' {
            return match parse_quoted_at(s, p + 2) {
                Some((v, e)) => {
                    let mut out = String::new();
                    out.push(c2);
                    out.append(v.as_str());
                    proof {
                        assert(out@ =~= seq![s@[p + 1]] + v@);
                    }
                    Some((out, e))
                },
                None => None,
            };
        }
    }
    match parse_quoted_at(s, p + 1) {
        Some((v, e)) => {
            let mut out = String::new();
            out.push(c);
            out.append(v.as_str());
            proof {
                assert(out@ =~= seq![s@[p as int]] + v@);
            }
            Some((out, e))
        },
        None => None,
    }
}

/// The view of an executable parameter list.
pub open spec fn params_view(ps: Seq<(String, String)>) -> Seq<(Seq<char>, Seq<char>)> {
    ps.map_values(|q: (String, String)| (q.0@, q.1@))
}

/// The parameter list of one element, starting at `p`, which is either the
/// closing `]` or the space before a `NAME="VALUE"` pair. Any deviation from
/// that shape makes the whole element malformed (`None`).
pub open spec fn parse_params(s: Seq<char>, p: int) -> Option<(Seq<(Seq<char>, Seq<char>)>, int)>
    decreases s.len() - p,
{
    if p < 0 || p >= s.len() {
        None
    } else if s[p] == ']' {
        Some((Seq::empty(), p + 1))
    } else if s[p] == ' ' {
        let k = scan_name_end(s, p + 1);
        if p + 1 < k && k + 1 < s.len() && s[k] == '=' && s[k + 1] == '"' {
            match parse_quoted(s, k + 2) {
                Some(v) => if p < v.1 && v.1 <= s.len() {
                    match parse_params(s, v.1) {
                        Some(rest) => Some((seq![(s.subrange(p + 1, k), v.0)] + rest.0, rest.1)),
                        None => None,
                    }
                } else {
                    None
                },
                None => None,
            }
        } else {
            None
        }
    } else {
        None
    }
}


/// Reads the parameter list of one element.
pub fn parse_params_at(s: &str, p: usize) -> (r: Option<(Vec<(String, String)>, usize)>)
    requires
        p <= s@.len(),
    ensures
        match r {
            Some(v) => parse_params(s@, p as int) == Some((params_view(v.0@), v.1 as int)) && p
                < v.1 <= s@.len(),
            None => parse_params(s@, p as int) is None,
        },
    decreases s@.len() - p,
{
    let n = s.unicode_len();
    if p >= n {
        return None;
    }
    let c = s.get_char(p);
    if c == ']' {
        let out: Vec<(String, String)> = Vec::new();
        proof {
            assert(params_view(out@) =~= Seq::<(Seq<char>, Seq<char>)>::empty());
        }
        return Some((out, p + 1));
    }
    if c != ' ' {
        return None;
    }
    let k = scan_name_end_at(s, p + 1);
    if !(p + 1 < k && k < n) {
        return None;
    }
    if !(k + 1 < n) {
        return None;
    }
    if s.get_char(k) != '=' {
        return None;
    }
    if s.get_char(k + 1) != '"' {
        return None;
    }
    let name = s.substring_char(p + 1, k).to_owned();
    match parse_quoted_at(s, k + 2) {
        None => None,
        Some((val, e)) => {
            match parse_params_at(s, e) {
                None => None,
                Some((rest, e2)) => {
                    let ghost old_rest = rest@;
                    let mut rest = rest;
                    rest.insert(0, (name, val));
                    proof {
                        assert(params_view(rest@) =~= seq![(s@.subrange(p + 1, k as int), val@)]
                            + params_view(old_rest));
                    }
                    Some((rest, e2))
                },
            }
        },
    }
}

/// One structured-data element starting at the `[` at `p`: its identifier
/// (a non-empty run of non-stopping characters) and its parameter list.
pub open spec fn parse_elem(s: Seq<char>, p: int) -> Option<(SdModel, int)> {
    if 0 <= p && p < s.len() && s[p] == '[' {
        let j = scan_name_end(s, p + 1);
        if p + 1 < j && j < s.len() && (s[j] == ' ' || s[j] == ']') {
            match parse_params(s, j) {
                Some(r) => Some((SdModel { id: s.subrange(p + 1, j), params: r.0 }, r.1)),
                None => None,
            }
        } else {
            None
        }
    } else {
        None
    }
}


/// The run of structured-data elements starting at `p`: elements are read
/// while a `[` follows; a malformed element is dropped and parsing resumes
/// after the next `]`, or ends at the end of the input if there is none.
/// Returns the elements kept and the position after the run.
pub open spec fn parse_elems(s: Seq<char>, p: int) -> (Seq<SdModel>, int)
    decreases s.len() - p,
{
    if 0 <= p && p < s.len() && s[p] == '[' {
        match parse_elem(s, p) {
            Some(r) => if p < r.1 && r.1 <= s.len() {
                let rest = parse_elems(s, r.1);
                (seq![r.0] + rest.0, rest.1)
            } else {
                (seq![r.0], r.1)
            },
            None => match find_char(s, p + 1, ']') {
                Some(j) => if p < j + 1 && j + 1 <= s.len() {
                    parse_elems(s, j + 1)
                } else {
                    (Seq::empty(), s.len() as int)
                },
                None => (Seq::empty(), s.len() as int),
            },
        }
    } else {
        (Seq::empty(), p)
    }
}


} // verus!
