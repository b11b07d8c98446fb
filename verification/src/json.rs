//! A small JSON document model with a verified serializer and parser.
//!
//! The wire format of the protocol is JSON; batches and responses are built
//! from and taken apart into `Json` trees.  Serialization is canonical: no
//! whitespace, object members in stored order, numbers kept as their literal
//! text.  The parser accepts the canonical form plus insignificant
//! whitespace, so that any serialized document parses back to the same tree
//! (see `lemma_parse_ser`).

use crate::text::push_char;
use vstd::prelude::*;
use vstd::string::*;

verus! {

/// Mathematical model of a JSON document.
pub enum JsonV {
    Null,
    Bool(bool),
    /// A number, kept as the literal characters that appeared on the wire.
    Num(Seq<char>),
    Str(Seq<char>),
    Arr(Seq<JsonV>),
    Obj(Seq<(Seq<char>, JsonV)>),
}

/// A JSON document as executable data.  Numbers are kept as literal text so
/// that no floating point enters the library and round trips are exact.
pub enum Json {
    Null,
    Bool(bool),
    Num(String),
    Str(String),
    Arr(Vec<Json>),
    Obj(Vec<(String, Json)>),
}

/// Model of one executable document.
pub open spec fn jview(j: Json) -> JsonV
    decreases j, 1int,
{
    match j {
        Json::Null => JsonV::Null,
        Json::Bool(b) => JsonV::Bool(b),
        Json::Num(s) => JsonV::Num(s@),
        Json::Str(s) => JsonV::Str(s@),
        Json::Arr(v) => JsonV::Arr(views(v@)),
        Json::Obj(v) => JsonV::Obj(mviews(v@)),
    }
}

/// Models of a sequence of documents, element by element.
pub open spec fn views(v: Seq<Json>) -> Seq<JsonV>
    decreases v, 0int,
{
    Seq::new(v.len(), |i: int| if 0 <= i < v.len() { jview(v[i]) } else { JsonV::Null })
}

/// Models of a sequence of members, element by element.
pub open spec fn mviews(v: Seq<(String, Json)>) -> Seq<(Seq<char>, JsonV)>
    decreases v, 0int,
{
    Seq::new(
        v.len(),
        |i: int| if 0 <= i < v.len() {
            (v[i].0@, jview(v[i].1))
        } else {
            (Seq::<char>::empty(), JsonV::Null)
        },
    )
}

impl View for Json {
    type V = JsonV;

    open spec fn view(&self) -> JsonV {
        jview(*self)
    }
}

/// How one character of a string literal appears on the wire.
pub open spec fn esc_char(c: char) -> Seq<char> {
    if c == '"' {
        seq!['\\', '"']
    } else if c == '\\' {
        seq!['\\', '\\']
    } else {
        seq![c]
    }
}

/// How a whole string literal appears on the wire (without the quotes).
pub open spec fn esc(s: Seq<char>) -> Seq<char>
    decreases s.len(),
{
    if s.len() == 0 {
        Seq::empty()
    } else {
        esc_char(s[0]) + esc(s.skip(1))
    }
}

/// Characters that may make up a number literal.
pub open spec fn is_num_char(c: char) -> bool {
    ('0' <= c && c <= '9') || c == '-' || c == '+' || c == '.' || c == 'e' || c == 'E'
}

/// Canonical serialization of a document.
pub open spec fn ser(v: JsonV) -> Seq<char>
    decreases v, 0int,
{
    match v {
        JsonV::Null => seq!['n', 'u', 'l', 'l'],
        JsonV::Bool(b) => if b {
            seq!['t', 'r', 'u', 'e']
        } else {
            seq!['f', 'a', 'l', 's', 'e']
        },
        JsonV::Num(s) => s,
        JsonV::Str(s) => seq!['"'] + esc(s) + seq!['"'],
        JsonV::Arr(a) => seq!['['] + ser_items(a, 0) + seq![']'],
        JsonV::Obj(m) => seq!['{'] + ser_members(m, 0) + seq!['}'],
    }
}

/// Serialization of the array elements from index `k` on, comma-separated.
pub open spec fn ser_items(a: Seq<JsonV>, k: int) -> Seq<char>
    decreases a, a.len() - k, 1int,
{
    if k < 0 || k >= a.len() {
        Seq::empty()
    } else if k == a.len() - 1 {
        ser(a[k])
    } else {
        ser(a[k]) + seq![','] + ser_items(a, k + 1)
    }
}

/// Serialization of the object members from index `k` on, comma-separated.
pub open spec fn ser_members(m: Seq<(Seq<char>, JsonV)>, k: int) -> Seq<char>
    decreases m, m.len() - k, 1int,
{
    if k < 0 || k >= m.len() {
        Seq::empty()
    } else if k == m.len() - 1 {
        ser_member(m[k])
    } else {
        ser_member(m[k]) + seq![','] + ser_members(m, k + 1)
    }
}

/// Serialization of one `key: value` member.
pub open spec fn ser_member(kv: (Seq<char>, JsonV)) -> Seq<char>
    decreases kv, 0int, 0int,
{
    seq!['"'] + esc(kv.0) + seq!['"', ':'] + ser(kv.1)
}

/// Insignificant whitespace accepted between tokens.
pub open spec fn is_ws(c: char) -> bool {
    c == ' ' || c == '\n' || c == '\t' || c == '\r'
}

/// First position at or after `i` holding no whitespace.
pub open spec fn skip_ws(s: Seq<char>, i: int) -> int
    decreases s.len() - i,
{
    if 0 <= i && i < s.len() && is_ws(s[i]) {
        skip_ws(s, i + 1)
    } else {
        i
    }
}

/// First position at or after `i` holding no number character.
pub open spec fn scan_num(s: Seq<char>, i: int) -> int
    decreases s.len() - i,
{
    if 0 <= i && i < s.len() && is_num_char(s[i]) {
        scan_num(s, i + 1)
    } else {
        i
    }
}

/// The character an escape sequence `\c` stands for, if `c` is recognized.
pub open spec fn unesc_char(c: char) -> Option<char> {
    if c == '"' {
        Some('"')
    } else if c == '\\' {
        Some('\\')
    } else if c == '/' {
        Some('/')
    } else if c == 'n' {
        Some('\n')
    } else if c == 't' {
        Some('\t')
    } else if c == 'r' {
        Some('\r')
    } else {
        None
    }
}

/// Parse a string literal body starting just after the opening quote;
/// yields the unescaped content and the position just after the closing
/// quote.
pub open spec fn sp_str(s: Seq<char>, i: int) -> Option<(Seq<char>, int)>
    decreases s.len() - i,
{
    if i < 0 || i >= s.len() {
        None
    } else if s[i] == '"' {
        Some((Seq::empty(), i + 1))
    } else if s[i] == '\\' {
        if i + 1 < s.len() {
            match unesc_char(s[i + 1]) {
                Some(c) => match sp_str(s, i + 2) {
                    Some((t, j)) => Some((seq![c] + t, j)),
                    None => None,
                },
                None => None,
            }
        } else {
            None
        }
    } else {
        match sp_str(s, i + 1) {
            Some((t, j)) => Some((seq![s[i]] + t, j)),
            None => None,
        }
    }
}

/// Parse one value starting at `i0`, skipping leading whitespace; yields the
/// value and the position just after it.
pub open spec fn sp_value(s: Seq<char>, i0: int) -> Option<(JsonV, int)>
    decreases s.len() - i0, 3int,
{
    let i = skip_ws(s, i0);
    if i < i0 || i >= s.len() {
        None
    } else if s[i] == 'n' {
        if i + 4 <= s.len() && s[i + 1] == 'u' && s[i + 2] == 'l' && s[i + 3] == 'l' {
            Some((JsonV::Null, i + 4))
        } else {
            None
        }
    } else if s[i] == 't' {
        if i + 4 <= s.len() && s[i + 1] == 'r' && s[i + 2] == 'u' && s[i + 3] == 'e' {
            Some((JsonV::Bool(true), i + 4))
        } else {
            None
        }
    } else if s[i] == 'f' {
        if i + 5 <= s.len() && s[i + 1] == 'a' && s[i + 2] == 'l' && s[i + 3] == 's' && s[i + 4]
            == 'e' {
            Some((JsonV::Bool(false), i + 5))
        } else {
            None
        }
    } else if s[i] == '"' {
        match sp_str(s, i + 1) {
            Some((t, j)) => Some((JsonV::Str(t), j)),
            None => None,
        }
    } else if s[i] == '[' {
        let j = skip_ws(s, i + 1);
        if i + 1 <= j && j < s.len() && s[j] == ']' {
            Some((JsonV::Arr(Seq::empty()), j + 1))
        } else {
            match sp_items(s, i + 1) {
                Some((a, j2)) => Some((JsonV::Arr(a), j2)),
                None => None,
            }
        }
    } else if s[i] == '{' {
        let j = skip_ws(s, i + 1);
        if i + 1 <= j && j < s.len() && s[j] == '}' {
            Some((JsonV::Obj(Seq::empty()), j + 1))
        } else {
            match sp_members(s, i + 1) {
                Some((m, j2)) => Some((JsonV::Obj(m), j2)),
                None => None,
            }
        }
    } else if ('0' <= s[i] && s[i] <= '9') || s[i] == '-' {
        let j = scan_num(s, i);
        if i < j && j <= s.len() {
            Some((JsonV::Num(s.subrange(i, j)), j))
        } else {
            None
        }
    } else {
        None
    }
}

/// Parse `value (, value)* ]` starting at `i0`; yields the elements and the
/// position just after the closing bracket.
pub open spec fn sp_items(s: Seq<char>, i0: int) -> Option<(Seq<JsonV>, int)>
    decreases s.len() - i0, 4int,
{
    match sp_value(s, i0) {
        Some((v, j0)) => {
            let j = skip_ws(s, j0);
            if i0 <= j && j < s.len() && s[j] == ',' {
                match sp_items(s, j + 1) {
                    Some((a, k)) => Some((seq![v] + a, k)),
                    None => None,
                }
            } else if j < s.len() && s[j] == ']' {
                Some((seq![v], j + 1))
            } else {
                None
            }
        },
        None => None,
    }
}

/// Parse `"key": value (, "key": value)* }` starting at `i0`; yields the
/// members and the position just after the closing brace.
pub open spec fn sp_members(s: Seq<char>, i0: int) -> Option<(Seq<(Seq<char>, JsonV)>, int)>
    decreases s.len() - i0, 5int,
{
    let i = skip_ws(s, i0);
    if i < i0 || i >= s.len() || s[i] != '"' {
        None
    } else {
        match sp_str(s, i + 1) {
            Some((key, j0)) => {
                let j = skip_ws(s, j0);
                if i0 <= j && j < s.len() && s[j] == ':' {
                    match sp_value(s, j + 1) {
                        Some((v, k0)) => {
                            let k = skip_ws(s, k0);
                            if i0 <= k && k < s.len() && s[k] == ',' {
                                match sp_members(s, k + 1) {
                                    Some((m, l)) => Some((seq![(key, v)] + m, l)),
                                    None => None,
                                }
                            } else if k < s.len() && s[k] == '}' {
                                Some((seq![(key, v)], k + 1))
                            } else {
                                None
                            }
                        },
                        None => None,
                    }
                } else {
                    None
                }
            },
            None => None,
        }
    }
}

/// Parse a whole document: one value and nothing but whitespace after it.
pub open spec fn sp_doc(s: Seq<char>) -> Option<JsonV> {
    match sp_value(s, 0) {
        Some((v, j)) => if skip_ws(s, j) == s.len() {
            Some(v)
        } else {
            None
        },
        None => None,
    }
}

/// Documents the library guarantees to reproduce after a round trip:
/// number literals are non-empty, start as a number token must, and hold
/// number characters only.
pub open spec fn wf(v: JsonV) -> bool
    decreases v,
{
    match v {
        JsonV::Null => true,
        JsonV::Bool(_) => true,
        JsonV::Num(s) => s.len() > 0 && (('0' <= s[0] && s[0] <= '9') || s[0] == '-') && (forall|k:
            int|
            0 <= k < s.len() ==> is_num_char(#[trigger] s[k])),
        JsonV::Str(_) => true,
        JsonV::Arr(a) => forall|k: int| 0 <= k < a.len() ==> wf(#[trigger] a[k]),
        JsonV::Obj(m) => forall|k: int| 0 <= k < m.len() ==> wf((#[trigger] m[k]).1),
    }
}

/// `t` occurs in `s` as the characters starting at position `i`.
pub open spec fn at(s: Seq<char>, i: int, t: Seq<char>) -> bool {
    0 <= i && i + t.len() <= s.len() && forall|k: int|
        0 <= k < t.len() ==> s[i + k] == #[trigger] t[k]
}

/// Position `j` is the end of the input or holds no number character, so a
/// number token ending there is read back whole and nothing more.
pub open spec fn num_boundary(s: Seq<char>, j: int) -> bool {
    j == s.len() || (j < s.len() && !is_num_char(s[j]))
}

proof fn lemma_at_split(s: Seq<char>, i: int, x: Seq<char>, y: Seq<char>)
    requires
        at(s, i, x + y),
    ensures
        at(s, i, x),
        at(s, i + x.len(), y),
{
    assert forall|k: int| 0 <= k < x.len() implies s[i + k] == #[trigger] x[k] by {
        assert((x + y)[k] == x[k]);
        assert(s[i + k] == (x + y)[k]);
    }
    assert forall|k: int| 0 <= k < y.len() implies s[i + x.len() + k] == #[trigger] y[k] by {
        assert((x + y)[x.len() + k] == y[k]);
        assert(s[i + (x.len() + k)] == (x + y)[x.len() + k]);
    }
}

/// The first character a serialized value puts on the wire is never
/// whitespace nor one of the delimiters the parser looks for after a value.
proof fn lemma_ser_head(v: JsonV)
    requires
        wf(v),
    ensures
        ser(v).len() > 0,
        !is_ws(ser(v)[0]),
        ser(v)[0] != ']',
        ser(v)[0] != '}',
        ser(v)[0] != ',',
        ser(v)[0] != ':',
{
    match v {
        JsonV::Null => {},
        JsonV::Bool(b) => {},
        JsonV::Num(cs) => {
            assert(is_num_char(cs[0]));
        },
        JsonV::Str(cs) => {
            assert(ser(v)[0] == '"');
        },
        JsonV::Arr(a) => {
            assert(ser(v)[0] == '[');
        },
        JsonV::Obj(m) => {
            assert(ser(v)[0] == '{');
        },
    }
}

proof fn lemma_scan_num_exact(s: Seq<char>, i: int, n: int)
    requires
        0 <= i,
        0 <= n,
        i + n <= s.len(),
        forall|k: int| 0 <= k < n ==> is_num_char(#[trigger] s[i + k]),
        num_boundary(s, i + n),
    ensures
        scan_num(s, i) == i + n,
    decreases n,
{
    if n == 0 {
    } else {
        assert(is_num_char(s[i + 0]));
        assert forall|k: int| 0 <= k < n - 1 implies is_num_char(#[trigger] s[i + 1 + k]) by {
            assert(is_num_char(s[i + (k + 1)]));
        }
        lemma_scan_num_exact(s, i + 1, n - 1);
    }
}

proof fn lemma_sp_str(s: Seq<char>, i: int, cs: Seq<char>)
    requires
        at(s, i, esc(cs) + seq!['"']),
    ensures
        sp_str(s, i) == Some((cs, i + esc(cs).len() + 1)),
    decreases cs.len(),
{
    let t = esc(cs) + seq!['"'];
    if cs.len() == 0 {
        assert(esc(cs) =~= Seq::<char>::empty());
        assert(s[i + 0] == t[0]);
        assert(t[0] == '"');
        assert(cs =~= Seq::<char>::empty());
    } else {
        let c = cs[0];
        let rest = cs.skip(1);
        assert(esc(cs) == esc_char(c) + esc(rest));
        assert(t =~= esc_char(c) + (esc(rest) + seq!['"']));
        lemma_at_split(s, i, esc_char(c), esc(rest) + seq!['"']);
        if c == '"' || c == '\\' {
            assert(esc_char(c).len() == 2);
            assert(s[i + 0] == esc_char(c)[0]);
            assert(s[i + 1] == esc_char(c)[1]);
            assert(s[i] == '\\');
            lemma_sp_str(s, i + 2, rest);
            assert(unesc_char(s[i + 1]) == Some(c));
            assert(seq![c] + rest =~= cs);
            assert(esc(cs).len() == 2 + esc(rest).len());
        } else {
            assert(esc_char(c) =~= seq![c]);
            assert(s[i + 0] == esc_char(c)[0]);
            assert(s[i] == c);
            lemma_sp_str(s, i + 1, rest);
            assert(seq![c] + rest =~= cs);
            assert(esc(cs).len() == 1 + esc(rest).len());
        }
    }
}

proof fn lemma_sp_value(s: Seq<char>, i: int, v: JsonV)
    requires
        wf(v),
        at(s, i, ser(v)),
        num_boundary(s, i + ser(v).len()),
    ensures
        sp_value(s, i) == Some((v, i + ser(v).len())),
    decreases v, 0int,
{
    let t = ser(v);
    lemma_ser_head(v);
    assert(s[i + 0] == t[0]);
    assert(skip_ws(s, i) == i);
    match v {
        JsonV::Null => {
            assert(s[i + 1] == t[1]);
            assert(s[i + 2] == t[2]);
            assert(s[i + 3] == t[3]);
        },
        JsonV::Bool(b) => {
            assert(s[i + 1] == t[1]);
            assert(s[i + 2] == t[2]);
            assert(s[i + 3] == t[3]);
            if !b {
                assert(s[i + 4] == t[4]);
            }
        },
        JsonV::Num(cs) => {
            assert forall|k: int| 0 <= k < cs.len() implies is_num_char(#[trigger] s[i + k]) by {
                assert(s[i + k] == t[k]);
            }
            lemma_scan_num_exact(s, i, cs.len() as int);
            assert(s.subrange(i, i + cs.len()) =~= cs);
        },
        JsonV::Str(cs) => {
            assert(t =~= seq!['"'] + (esc(cs) + seq!['"']));
            lemma_at_split(s, i, seq!['"'], esc(cs) + seq!['"']);
            lemma_sp_str(s, i + 1, cs);
            assert(s[i] == '"');
        },
        JsonV::Arr(a) => {
            assert(t =~= seq!['['] + (ser_items(a, 0) + seq![']']));
            lemma_at_split(s, i, seq!['['], ser_items(a, 0) + seq![']']);
            if a.len() == 0 {
                assert(ser_items(a, 0) =~= Seq::<char>::empty());
                assert(s[(i + 1) + 0] == (ser_items(a, 0) + seq![']'])[0]);
                assert(s[i + 1] == ']');
                assert(skip_ws(s, i + 1) == i + 1);
                assert(a =~= Seq::<JsonV>::empty());
            } else {
                lemma_ser_head(a[0]);
                assert(ser_items(a, 0)[0] == ser(a[0])[0]);
                assert(s[(i + 1) + 0] == (ser_items(a, 0) + seq![']'])[0]);
                assert(s[i + 1] == ser(a[0])[0]);
                assert(skip_ws(s, i + 1) == i + 1);
                lemma_sp_items(s, i + 1, a, 0);
                assert(a.skip(0) =~= a);
            }
        },
        JsonV::Obj(m) => {
            assert(t =~= seq!['{'] + (ser_members(m, 0) + seq!['}']));
            lemma_at_split(s, i, seq!['{'], ser_members(m, 0) + seq!['}']);
            if m.len() == 0 {
                assert(ser_members(m, 0) =~= Seq::<char>::empty());
                assert(s[(i + 1) + 0] == (ser_members(m, 0) + seq!['}'])[0]);
                assert(s[i + 1] == '}');
                assert(skip_ws(s, i + 1) == i + 1);
                assert(m =~= Seq::<(Seq<char>, JsonV)>::empty());
            } else {
                assert(ser_member(m[0])[0] == '"');
                assert(ser_members(m, 0)[0] == ser_member(m[0])[0]);
                assert(s[(i + 1) + 0] == (ser_members(m, 0) + seq!['}'])[0]);
                assert(s[i + 1] == '"');
                assert(skip_ws(s, i + 1) == i + 1);
                lemma_sp_members(s, i + 1, m, 0);
                assert(m.skip(0) =~= m);
            }
        },
    }
}

proof fn lemma_sp_items(s: Seq<char>, i: int, a: Seq<JsonV>, k: int)
    requires
        0 <= k < a.len(),
        forall|q: int| 0 <= q < a.len() ==> wf(#[trigger] a[q]),
        at(s, i, ser_items(a, k) + seq![']']),
    ensures
        sp_items(s, i) == Some((a.skip(k), i + ser_items(a, k).len() + 1)),
    decreases a, a.len() - k, 1int,
{
    let sv = ser(a[k]);
    lemma_ser_head(a[k]);
    if k == a.len() - 1 {
        assert(ser_items(a, k) == sv);
        assert(ser_items(a, k) + seq![']'] =~= sv + seq![']']);
        lemma_at_split(s, i, sv, seq![']']);
        assert(s[(i + sv.len()) + 0] == (seq![']'])[0]);
        assert(s[i + sv.len()] == ']');
        lemma_sp_value(s, i, a[k]);
        let j0 = i + sv.len();
        assert(skip_ws(s, j0) == j0);
        assert(a.skip(k) =~= seq![a[k]]);
    } else {
        assert(ser_items(a, k) == sv + seq![','] + ser_items(a, k + 1));
        let tail = ser_items(a, k + 1) + seq![']'];
        assert(ser_items(a, k) + seq![']'] =~= sv + (seq![','] + tail));
        lemma_at_split(s, i, sv, seq![','] + tail);
        lemma_at_split(s, i + sv.len(), seq![','], tail);
        assert(s[(i + sv.len()) + 0] == (seq![','])[0]);
        assert(s[i + sv.len()] == ',');
        lemma_sp_value(s, i, a[k]);
        let j0 = i + sv.len();
        assert(skip_ws(s, j0) == j0);
        lemma_sp_items(s, j0 + 1, a, k + 1);
        assert(a.skip(k) =~= seq![a[k]] + a.skip(k + 1));
        assert(ser_items(a, k).len() == sv.len() + 1 + ser_items(a, k + 1).len());
    }
}

proof fn lemma_sp_members(s: Seq<char>, i: int, m: Seq<(Seq<char>, JsonV)>, k: int)
    requires
        0 <= k < m.len(),
        forall|q: int| 0 <= q < m.len() ==> wf((#[trigger] m[q]).1),
        at(s, i, ser_members(m, k) + seq!['}']),
    ensures
        sp_members(s, i) == Some((m.skip(k), i + ser_members(m, k).len() + 1)),
    decreases m, m.len() - k, 1int,
{
    let key = m[k].0;
    let val = m[k].1;
    let sm = ser_member(m[k]);
    assert(sm == seq!['"'] + esc(key) + seq!['"', ':'] + ser(val));
    lemma_ser_head(val);
    let keypart = esc(key) + seq!['"'];
    // positions: i: '"', i+1: escaped key then '"', then ':', then the value
    let p = i + 1 + esc(key).len() + 1;
    assert(sm =~= seq!['"'] + (keypart + (seq![':'] + ser(val))));
    if k == m.len() - 1 {
        assert(ser_members(m, k) == sm);
        assert(ser_members(m, k) + seq!['}'] =~= seq!['"'] + (keypart + (seq![':'] + (ser(val)
            + seq!['}']))));
        lemma_at_split(s, i, seq!['"'], keypart + (seq![':'] + (ser(val) + seq!['}'])));
        lemma_at_split(s, i + 1, keypart, seq![':'] + (ser(val) + seq!['}']));
        lemma_at_split(s, p, seq![':'], ser(val) + seq!['}']);
        lemma_at_split(s, p + 1, ser(val), seq!['}']);
        assert(s[i + 0] == (seq!['"'])[0]);
        assert(s[i] == '"');
        assert(skip_ws(s, i) == i);
        lemma_sp_str(s, i + 1, key);
        assert(s[p + 0] == (seq![':'])[0]);
        assert(s[p] == ':');
        assert(skip_ws(s, p) == p);
        let q0 = p + 1 + ser(val).len();
        assert(s[q0 + 0] == (seq!['}'])[0]);
        assert(s[q0] == '}');
        lemma_sp_value(s, p + 1, val);
        assert(skip_ws(s, q0) == q0);
        assert(m.skip(k) =~= seq![(key, val)]);
        assert(m[k] == (key, val));
    } else {
        assert(ser_members(m, k) == sm + seq![','] + ser_members(m, k + 1));
        let tail = ser_members(m, k + 1) + seq!['}'];
        assert(ser_members(m, k) + seq!['}'] =~= seq!['"'] + (keypart + (seq![':'] + (ser(val)
            + (seq![','] + tail)))));
        lemma_at_split(s, i, seq!['"'], keypart + (seq![':'] + (ser(val) + (seq![','] + tail))));
        lemma_at_split(s, i + 1, keypart, seq![':'] + (ser(val) + (seq![','] + tail)));
        lemma_at_split(s, p, seq![':'], ser(val) + (seq![','] + tail));
        lemma_at_split(s, p + 1, ser(val), seq![','] + tail);
        let q0 = p + 1 + ser(val).len();
        lemma_at_split(s, q0, seq![','], tail);
        assert(s[i + 0] == (seq!['"'])[0]);
        assert(s[i] == '"');
        assert(skip_ws(s, i) == i);
        lemma_sp_str(s, i + 1, key);
        assert(s[p + 0] == (seq![':'])[0]);
        assert(s[p] == ':');
        assert(skip_ws(s, p) == p);
        assert(s[q0 + 0] == (seq![','])[0]);
        assert(s[q0] == ',');
        lemma_sp_value(s, p + 1, val);
        assert(skip_ws(s, q0) == q0);
        lemma_sp_members(s, q0 + 1, m, k + 1);
        assert(m.skip(k) =~= seq![(key, val)] + m.skip(k + 1));
        assert(m[k] == (key, val));
        assert(ser_members(m, k).len() == sm.len() + 1 + ser_members(m, k + 1).len());
    }
}

/// Round trip: any well-formed document parses back from its own
/// serialization, to exactly the same document.
pub proof fn lemma_parse_ser(v: JsonV)
    requires
        wf(v),
    ensures
        sp_doc(ser(v)) == Some(v),
{
    let s = ser(v);
    assert(at(s, 0, s)) by {
        assert forall|k: int| 0 <= k < s.len() implies s[0 + k] == #[trigger] s[k] by {}
    }
    lemma_sp_value(s, 0, v);
    assert(skip_ws(s, s.len() as int) == s.len());
}

proof fn lemma_esc_snoc(t: Seq<char>, c: char)
    ensures
        esc(t.push(c)) == esc(t) + esc_char(c),
    decreases t.len(),
{
    if t.len() == 0 {
        assert(t.push(c)[0] == c);
        assert(t.push(c).skip(1) =~= Seq::<char>::empty());
        assert(esc(t.push(c).skip(1)) =~= Seq::<char>::empty());
        assert(esc(t) =~= Seq::<char>::empty());
        assert(esc(t.push(c)) =~= esc(t) + esc_char(c));
    } else {
        assert(t.push(c)[0] == t[0]);
        assert(t.push(c).skip(1) =~= t.skip(1).push(c));
        lemma_esc_snoc(t.skip(1), c);
        assert(esc(t.push(c)) =~= esc(t) + esc_char(c));
    }
}

fn write_escaped(s: &str, out: &mut String)
    ensures
        final(out)@ == old(out)@ + esc(s@),
{
    let n = s.unicode_len();
    let mut i: usize = 0;
    while i < n
        invariant
            i <= n,
            n == s@.len(),
            out@ == old(out)@ + esc(s@.subrange(0, i as int)),
        decreases n - i,
    {
        let c = s.get_char(i);
        if c == '"' {
            push_char(out, '\\');
            push_char(out, '"');
        } else if c == '\\' {
            push_char(out, '\\');
            push_char(out, '\\');
        } else {
            push_char(out, c);
        }
        proof {
            lemma_esc_snoc(s@.subrange(0, i as int), s@[i as int]);
            assert(s@.subrange(0, i as int + 1) =~= s@.subrange(0, i as int).push(s@[i as int]));
            assert(out@ =~= old(out)@ + esc(s@.subrange(0, i as int + 1)));
        }
        i += 1;
    }
    proof {
        assert(s@.subrange(0, n as int) =~= s@);
    }
}

fn write_value(j: &Json, out: &mut String)
    ensures
        final(out)@ == old(out)@ + ser(jview(*j)),
    decreases *j, 1int,
{
    match j {
        Json::Null => {
            push_char(out, 'n');
            push_char(out, 'u');
            push_char(out, 'l');
            push_char(out, 'l');
            assert(out@ =~= old(out)@ + ser(jview(*j)));
        },
        Json::Bool(b) => {
            if *b {
                push_char(out, 't');
                push_char(out, 'r');
                push_char(out, 'u');
                push_char(out, 'e');
            } else {
                push_char(out, 'f');
                push_char(out, 'a');
                push_char(out, 'l');
                push_char(out, 's');
                push_char(out, 'e');
            }
            assert(out@ =~= old(out)@ + ser(jview(*j)));
        },
        Json::Num(s) => {
            out.append(s.as_str());
        },
        Json::Str(s) => {
            push_char(out, '"');
            write_escaped(s.as_str(), out);
            push_char(out, '"');
            assert(out@ =~= old(out)@ + ser(jview(*j)));
        },
        Json::Arr(v) => {
            push_char(out, '[');
            if v.len() > 0 {
                write_items(v, 0, out);
            } else {
                assert(ser_items(views(v@), 0) =~= Seq::<char>::empty());
            }
            push_char(out, ']');
            assert(out@ =~= old(out)@ + ser(jview(*j)));
        },
        Json::Obj(v) => {
            push_char(out, '{');
            if v.len() > 0 {
                write_members(v, 0, out);
            } else {
                assert(ser_members(mviews(v@), 0) =~= Seq::<char>::empty());
            }
            push_char(out, '}');
            assert(out@ =~= old(out)@ + ser(jview(*j)));
        },
    }
}

fn write_items(v: &Vec<Json>, k: usize, out: &mut String)
    requires
        k < v@.len(),
    ensures
        final(out)@ == old(out)@ + ser_items(views(v@), k as int),
    decreases *v, v@.len() - k, 0int,
{
    let len = v.len();
    write_value(&v[k], out);
    assert(views(v@)[k as int] == jview(v@[k as int]));
    if k + 1 < len {
        push_char(out, ',');
        write_items(v, k + 1, out);
        assert(out@ =~= old(out)@ + ser_items(views(v@), k as int));
    } else {
        assert(out@ =~= old(out)@ + ser_items(views(v@), k as int));
    }
}

fn write_members(v: &Vec<(String, Json)>, k: usize, out: &mut String)
    requires
        k < v@.len(),
    ensures
        final(out)@ == old(out)@ + ser_members(mviews(v@), k as int),
    decreases *v, v@.len() - k, 0int,
{
    let len = v.len();
    let kv = &v[k];
    push_char(out, '"');
    write_escaped(kv.0.as_str(), out);
    push_char(out, '"');
    push_char(out, ':');
    write_value(&kv.1, out);
    assert(mviews(v@)[k as int] == (v@[k as int].0@, jview(v@[k as int].1)));
    assert(out@ =~= old(out)@ + ser_member(mviews(v@)[k as int]));
    if k + 1 < len {
        push_char(out, ',');
        write_members(v, k + 1, out);
        assert(out@ =~= old(out)@ + ser_members(mviews(v@), k as int));
    } else {
        assert(out@ =~= old(out)@ + ser_members(mviews(v@), k as int));
    }
}

impl Json {
    /// Canonical wire text of this document.
    pub fn to_text(&self) -> (r: String)
        ensures
            r@ == ser(self@),
    {
        let mut out = String::new();
        write_value(self, &mut out);
        out
    }

    /// Parse wire text into a document; `None` when the text is not a single
    /// well-formed value.
    pub fn parse_text(s: &str) -> (r: Option<Json>)
        ensures
            (r is Some) == (sp_doc(s@) is Some),
            r matches Some(j) ==> sp_doc(s@) matches Some(g) && j@ == g,
    {
        match p_value_x(s, 0) {
            None => None,
            Some((j, p)) => {
                let q = p_ws(s, p);
                if q == s.unicode_len() {
                    Some(j)
                } else {
                    None
                }
            },
        }
    }
}

/// The value of the first member with the given key, if any.
pub open spec fn obj_lookup(m: Seq<(Seq<char>, JsonV)>, key: Seq<char>) -> Option<JsonV>
    decreases m.len(),
{
    if m.len() == 0 {
        None
    } else if m[0].0 == key {
        Some(m[0].1)
    } else {
        obj_lookup(m.skip(1), key)
    }
}

impl Json {
    /// The value of the first member with the given key, when this document
    /// is an object holding one.
    pub fn get<'a>(&'a self, key: &str) -> (r: Option<&'a Json>)
        ensures
            (r is Some) == (self@ matches JsonV::Obj(m) && obj_lookup(m, key@) is Some),
            r matches Some(j) ==> (self@ matches JsonV::Obj(m) && obj_lookup(m, key@) == Some(
                j@,
            )),
    {
        match self {
            Json::Obj(v) => {
                let n = v.len();
                let mut i: usize = 0;
                proof {
                    assert(mviews(v@).skip(0) =~= mviews(v@));
                }
                while i < n
                    invariant
                        i <= n,
                        n == v@.len(),
                        self@ == JsonV::Obj(mviews(v@)),
                        obj_lookup(mviews(v@), key@) == obj_lookup(
                            mviews(v@).skip(i as int),
                            key@,
                        ),
                    decreases n - i,
                {
                    proof {
                        assert(mviews(v@).skip(i as int)[0] == mviews(v@)[i as int]);
                        assert(mviews(v@).skip(i as int).skip(1) =~= mviews(v@).skip(i as int + 1));
                    }
                    if crate::text::str_eq(v[i].0.as_str(), key) {
                        return Some(&v[i].1);
                    }
                    i += 1;
                }
                proof {
                    assert(mviews(v@).skip(n as int) =~= Seq::<(Seq<char>, JsonV)>::empty());
                }
                None
            },
            _ => None,
        }
    }

    /// The held text, when this document is a string.
    pub fn as_string<'a>(&'a self) -> (r: Option<&'a String>)
        ensures
            (r is Some) == (self@ is Str),
            r matches Some(s) ==> self@ == JsonV::Str(s@),
    {
        match self {
            Json::Str(s) => Some(s),
            _ => None,
        }
    }
}

fn clone_items(v: &Vec<Json>) -> (r: Vec<Json>)
    ensures
        views(r@) == views(v@),
    decreases *v, 0int,
{
    let mut r: Vec<Json> = Vec::new();
    let n = v.len();
    let mut k: usize = 0;
    while k < n
        invariant
            k <= n,
            n == v@.len(),
            r@.len() == k,
            forall|i: int| 0 <= i < k ==> jview(#[trigger] r@[i]) == jview(v@[i]),
        decreases n - k,
    {
        let c = v[k].deep_clone();
        r.push(c);
        k += 1;
    }
    proof {
        assert(views(r@) =~= views(v@));
    }
    r
}

fn clone_members(v: &Vec<(String, Json)>) -> (r: Vec<(String, Json)>)
    ensures
        mviews(r@) == mviews(v@),
    decreases *v, 0int,
{
    let mut r: Vec<(String, Json)> = Vec::new();
    let n = v.len();
    let mut k: usize = 0;
    while k < n
        invariant
            k <= n,
            n == v@.len(),
            r@.len() == k,
            forall|i: int|
                0 <= i < k ==> (#[trigger] r@[i]).0@ == v@[i].0@ && jview(r@[i].1) == jview(
                    v@[i].1,
                ),
        decreases n - k,
    {
        let key = v[k].0.clone();
        let c = v[k].1.deep_clone();
        r.push((key, c));
        k += 1;
    }
    proof {
        assert(mviews(r@) =~= mviews(v@));
    }
    r
}

impl Json {
    /// A copy of this document whose model is the same.
    pub fn deep_clone(&self) -> (r: Json)
        ensures
            r@ == self@,
        decreases *self, 1int,
    {
        match self {
            Json::Null => Json::Null,
            Json::Bool(b) => Json::Bool(*b),
            Json::Num(s) => Json::Num(s.clone()),
            Json::Str(s) => Json::Str(s.clone()),
            Json::Arr(v) => Json::Arr(clone_items(v)),
            Json::Obj(v) => Json::Obj(clone_members(v)),
        }
    }
}

fn char_is_ws(c: char) -> (r: bool)
    ensures
        r == is_ws(c),
{
    c == ' ' || c == '\n' || c == '\t' || c == '\r'
}

fn char_is_num(c: char) -> (r: bool)
    ensures
        r == is_num_char(c),
{
    ('0' <= c && c <= '9') || c == '-' || c == '+' || c == '.' || c == 'e' || c == 'E'
}

fn p_ws(s: &str, i: usize) -> (r: usize)
    requires
        i as int <= s@.len(),
    ensures
        r as int == skip_ws(s@, i as int),
        i <= r,
        r as int <= s@.len(),
{
    let n = s.unicode_len();
    let mut j = i;
    while j < n && char_is_ws(s.get_char(j))
        invariant
            i <= j,
            j as int <= s@.len(),
            n == s@.len(),
            skip_ws(s@, i as int) == skip_ws(s@, j as int),
        decreases n - j,
    {
        j += 1;
    }
    j
}

fn p_num_end(s: &str, i: usize) -> (r: usize)
    requires
        i as int <= s@.len(),
    ensures
        r as int == scan_num(s@, i as int),
        i <= r,
        r as int <= s@.len(),
{
    let n = s.unicode_len();
    let mut j = i;
    while j < n && char_is_num(s.get_char(j))
        invariant
            i <= j,
            j as int <= s@.len(),
            n == s@.len(),
            scan_num(s@, i as int) == scan_num(s@, j as int),
        decreases n - j,
    {
        j += 1;
    }
    j
}

fn p_str_x(s: &str, i: usize) -> (r: Option<(String, usize)>)
    ensures
        (r is Some) == (sp_str(s@, i as int) is Some),
        r matches Some(p) ==> sp_str(s@, i as int) matches Some(g) && p.0@ == g.0 && p.1 as int
            == g.1 && i < p.1 && p.1 as int <= s@.len(),
    decreases s@.len() - i,
{
    let n = s.unicode_len();
    if i >= n {
        return None;
    }
    let c = s.get_char(i);
    if c == '"' {
        Some((String::new(), i + 1))
    } else if c == '\\' {
        if i + 1 < n {
            let c2 = s.get_char(i + 1);
            let dec: Option<char> = if c2 == '"' {
                Some('"')
            } else if c2 == '\\' {
                Some('\\')
            } else if c2 == '/' {
                Some('/')
            } else if c2 == 'n' {
                Some('\n')
            } else if c2 == 't' {
                Some('\t')
            } else if c2 == 'r' {
                Some('\r')
            } else {
                None
            };
            assert(dec == unesc_char(s@[i + 1]));
            match dec {
                Some(d) => match p_str_x(s, i + 2) {
                    Some((t, j)) => {
                        let mut r = String::new();
                        push_char(&mut r, d);
                        r.append(t.as_str());
                        Some((r, j))
                    },
                    None => None,
                },
                None => None,
            }
        } else {
            None
        }
    } else {
        match p_str_x(s, i + 1) {
            Some((t, j)) => {
                let mut r = String::new();
                push_char(&mut r, c);
                r.append(t.as_str());
                Some((r, j))
            },
            None => None,
        }
    }
}

proof fn lemma_scan_ge(s: Seq<char>, i: int)
    ensures
        scan_num(s, i) >= i,
    decreases s.len() - i,
{
    if 0 <= i && i < s.len() && is_num_char(s[i]) {
        lemma_scan_ge(s, i + 1);
    }
}

fn p_value_x(s: &str, i: usize) -> (r: Option<(Json, usize)>)
    requires
        i as int <= s@.len(),
    ensures
        (r is Some) == (sp_value(s@, i as int) is Some),
        r matches Some(p) ==> sp_value(s@, i as int) matches Some(g) && p.0@ == g.0 && p.1 as int
            == g.1 && i < p.1 && p.1 as int <= s@.len(),
    decreases s@.len() - i, 3int,
{
    let n = s.unicode_len();
    let iw = p_ws(s, i);
    if iw >= n {
        return None;
    }
    let c = s.get_char(iw);
    if c == 'n' {
        if n - iw >= 4 && s.get_char(iw + 1) == 'u' && s.get_char(iw + 2) == 'l'
            && s.get_char(iw + 3) == 'l' {
            Some((Json::Null, iw + 4))
        } else {
            None
        }
    } else if c == 't' {
        if n - iw >= 4 && s.get_char(iw + 1) == 'r' && s.get_char(iw + 2) == 'u' && s.get_char(
            iw + 3,
        ) == 'e' {
            Some((Json::Bool(true), iw + 4))
        } else {
            None
        }
    } else if c == 'f' {
        if n - iw >= 5 && s.get_char(iw + 1) == 'a' && s.get_char(iw + 2) == 'l' && s.get_char(
            iw + 3,
        ) == 's' && s.get_char(iw + 4) == 'e' {
            Some((Json::Bool(false), iw + 5))
        } else {
            None
        }
    } else if c == '"' {
        match p_str_x(s, iw + 1) {
            Some((t, j)) => Some((Json::Str(t), j)),
            None => None,
        }
    } else if c == '[' {
        let j = p_ws(s, iw + 1);
        if j < n && s.get_char(j) == ']' {
            let a: Vec<Json> = Vec::new();
            proof {
                assert(views(a@) =~= Seq::<JsonV>::empty());
            }
            Some((Json::Arr(a), j + 1))
        } else {
            match p_items_x(s, iw + 1) {
                Some((a, j2)) => {
                    assert(views(a@) == sp_items(s@, iw as int + 1)->Some_0.0);
                    Some((Json::Arr(a), j2))
                },
                None => None,
            }
        }
    } else if c == '{' {
        let j = p_ws(s, iw + 1);
        if j < n && s.get_char(j) == '}' {
            let m: Vec<(String, Json)> = Vec::new();
            proof {
                assert(mviews(m@) =~= Seq::<(Seq<char>, JsonV)>::empty());
            }
            Some((Json::Obj(m), j + 1))
        } else {
            match p_members_x(s, iw + 1) {
                Some((m, j2)) => {
                    assert(mviews(m@) == sp_members(s@, iw as int + 1)->Some_0.0);
                    Some((Json::Obj(m), j2))
                },
                None => None,
            }
        }
    } else if ('0' <= c && c <= '9') || c == '-' {
        let j = p_num_end(s, iw);
        proof {
            assert(is_num_char(s@[iw as int]));
            assert(scan_num(s@, iw as int) == scan_num(s@, iw as int + 1));
            lemma_scan_ge(s@, iw as int + 1);
        }
        let t = s.substring_char(iw, j);
        Some((Json::Num(t.to_owned()), j))
    } else {
        None
    }
}

fn p_items_x(s: &str, i: usize) -> (r: Option<(Vec<Json>, usize)>)
    requires
        i as int <= s@.len(),
    ensures
        (r is Some) == (sp_items(s@, i as int) is Some),
        r matches Some(p) ==> sp_items(s@, i as int) matches Some(g) && views(p.0@) == g.0 && p.1
            as int == g.1 && i < p.1 && p.1 as int <= s@.len(),
    decreases s@.len() - i, 4int,
{
    let n = s.unicode_len();
    match p_value_x(s, i) {
        None => None,
        Some((v, j0)) => {
            let j = p_ws(s, j0);
            if j < n {
                let c = s.get_char(j);
                if c == ',' {
                    match p_items_x(s, j + 1) {
                        Some((mut a, k)) => {
                            a.insert(0, v);
                            proof {
                                let g = sp_items(s@, i as int)->Some_0;
                                assert(views(a@) =~= g.0);
                            }
                            Some((a, k))
                        },
                        None => None,
                    }
                } else if c == ']' {
                    let mut a: Vec<Json> = Vec::new();
                    a.push(v);
                    proof {
                        let g = sp_items(s@, i as int)->Some_0;
                        assert(views(a@) =~= g.0);
                    }
                    Some((a, j + 1))
                } else {
                    None
                }
            } else {
                None
            }
        },
    }
}

fn p_members_x(s: &str, i: usize) -> (r: Option<(Vec<(String, Json)>, usize)>)
    requires
        i as int <= s@.len(),
    ensures
        (r is Some) == (sp_members(s@, i as int) is Some),
        r matches Some(p) ==> sp_members(s@, i as int) matches Some(g) && mviews(p.0@) == g.0
            && p.1 as int == g.1 && i < p.1 && p.1 as int <= s@.len(),
    decreases s@.len() - i, 5int,
{
    let n = s.unicode_len();
    let iw = p_ws(s, i);
    if iw >= n {
        return None;
    }
    if s.get_char(iw) != '"' {
        return None;
    }
    match p_str_x(s, iw + 1) {
        None => None,
        Some((key, j0)) => {
            let j = p_ws(s, j0);
            if j < n && s.get_char(j) == ':' {
                match p_value_x(s, j + 1) {
                    Some((v, k0)) => {
                        let k = p_ws(s, k0);
                        if k < n {
                            let c = s.get_char(k);
                            if c == ',' {
                                match p_members_x(s, k + 1) {
                                    Some((mut m, l)) => {
                                        m.insert(0, (key, v));
                                        proof {
                                            let g = sp_members(s@, i as int)->Some_0;
                                            assert(mviews(m@) =~= g.0);
                                        }
                                        Some((m, l))
                                    },
                                    None => None,
                                }
                            } else if c == '}' {
                                let mut m: Vec<(String, Json)> = Vec::new();
                                m.push((key, v));
                                proof {
                                    let g = sp_members(s@, i as int)->Some_0;
                                    assert(mviews(m@) =~= g.0);
                                }
                                Some((m, k + 1))
                            } else {
                                None
                            }
                        } else {
                            None
                        }
                    },
                    None => None,
                }
            } else {
                None
            }
        },
    }
}

} // verus!
