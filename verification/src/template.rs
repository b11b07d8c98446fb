//! URL templates: a server-advertised endpoint URL with named `{variable}`
//! segments, parsed once and expanded many times against parameter sets.
//! Expansion substitutes each variable's value percent-encoded; a variable
//! without a value always fails, it is never silently dropped.

use crate::text::push_char;
use vstd::prelude::*;
use vstd::string::*;

verus! {

/// One piece of a parsed template: literal text, or a named variable.
pub enum URLPart {
    Literal(String),
    Variable(String),
}

/// Model of one piece.
pub enum URLPartV {
    Literal(Seq<char>),
    Variable(Seq<char>),
}

impl View for URLPart {
    type V = URLPartV;

    open spec fn view(&self) -> URLPartV {
        match self {
            URLPart::Literal(s) => URLPartV::Literal(s@),
            URLPart::Variable(s) => URLPartV::Variable(s@),
        }
    }
}

/// Models of a parsed template, element by element.
pub open spec fn parts_view(v: Seq<URLPart>) -> Seq<URLPartV> {
    Seq::new(v.len(), |i: int| if 0 <= i < v.len() { v[i]@ } else { URLPartV::Literal(Seq::empty()) })
}

/// Parse of the template text from position `i` on: alternating literal runs
/// and brace-delimited variable names.  `None` when a `{` has no matching
/// `}` or a variable name is empty or itself holds a `{`.
pub open spec fn tparse(s: Seq<char>, i: int) -> Option<Seq<URLPartV>>
    decreases s.len() - i, 1int,
{
    if i < 0 || i >= s.len() {
        Some(Seq::empty())
    } else if s[i] == '{' {
        let j = brace_end(s, i + 1);
        if j < s.len() && i + 1 < j {
            match tparse(s, j + 1) {
                Some(t) => Some(seq![URLPartV::Variable(s.subrange(i + 1, j))] + t),
                None => None,
            }
        } else {
            None
        }
    } else {
        let j = lit_end(s, i);
        if i < j && j <= s.len() {
            match tparse(s, j) {
                Some(t) => Some(seq![URLPartV::Literal(s.subrange(i, j))] + t),
                None => None,
            }
        } else {
            None
        }
    }
}

/// First position at or after `i` holding `}` or `{`, or the end.
pub open spec fn brace_end(s: Seq<char>, i: int) -> int
    decreases s.len() - i,
{
    if 0 <= i && i < s.len() && s[i] != '}' && s[i] != '{' {
        brace_end(s, i + 1)
    } else {
        i
    }
}

/// First position at or after `i` holding `{`, or the end.
pub open spec fn lit_end(s: Seq<char>, i: int) -> int
    decreases s.len() - i,
{
    if 0 <= i && i < s.len() && s[i] != '{' {
        lit_end(s, i + 1)
    } else {
        i
    }
}

/// Bytes that expansion copies through unencoded.
pub open spec fn is_unreserved(b: u8) -> bool {
    (0x41 <= b && b <= 0x5a)  // A-Z
    || (0x61 <= b && b <= 0x7a)  // a-z
    || (0x30 <= b && b <= 0x39)  // 0-9
    || b == 0x2d || b == 0x2e || b == 0x5f || b == 0x7e  // - . _ ~
    || b == 0x2f || b == 0x3a  // / : kept so URL-valued parameters survive
}

/// The character for one hexadecimal digit.
pub open spec fn hex_char(d: int) -> char {
    if d == 0 {
        '0'
    } else if d == 1 {
        '1'
    } else if d == 2 {
        '2'
    } else if d == 3 {
        '3'
    } else if d == 4 {
        '4'
    } else if d == 5 {
        '5'
    } else if d == 6 {
        '6'
    } else if d == 7 {
        '7'
    } else if d == 8 {
        '8'
    } else if d == 9 {
        '9'
    } else if d == 10 {
        'A'
    } else if d == 11 {
        'B'
    } else if d == 12 {
        'C'
    } else if d == 13 {
        'D'
    } else if d == 14 {
        'E'
    } else {
        'F'
    }
}

/// Percent-encoding of a byte sequence (a value's UTF-8 bytes).
pub open spec fn enc_bytes(bs: Seq<u8>) -> Seq<char>
    decreases bs.len(),
{
    if bs.len() == 0 {
        Seq::empty()
    } else {
        let b = bs[0];
        let head: Seq<char> = if is_unreserved(b) {
            seq![b as char]
        } else {
            seq!['%', hex_char(b as int / 16), hex_char(b as int % 16)]
        };
        head + enc_bytes(bs.skip(1))
    }
}

/// The first value bound to `name`, if any.
pub open spec fn param_lookup(params: Seq<(Seq<char>, Seq<char>)>, name: Seq<char>) -> Option<
    Seq<char>,
>
    decreases params.len(),
{
    if params.len() == 0 {
        None
    } else if params[0].0 == name {
        Some(params[0].1)
    } else {
        param_lookup(params.skip(1), name)
    }
}

/// Expansion of the parts from index `k` on against a parameter set:
/// literal pieces verbatim, variables percent-encoded from their UTF-8
/// bytes; the name of the first unbound variable on failure.
pub open spec fn expand_from(
    parts: Seq<URLPartV>,
    params: Seq<(Seq<char>, Seq<char>)>,
    k: int,
) -> Result<Seq<char>, Seq<char>>
    decreases parts.len() - k,
{
    if k < 0 || k >= parts.len() {
        Ok(Seq::empty())
    } else {
        let head: Result<Seq<char>, Seq<char>> = match parts[k] {
            URLPartV::Literal(t) => Ok(t),
            URLPartV::Variable(name) => match param_lookup(params, name) {
                Some(value) => Ok(enc_bytes(vstd::utf8::encode_utf8(value))),
                None => Err(name),
            },
        };
        match head {
            Ok(h) => match expand_from(parts, params, k + 1) {
                Ok(t) => Ok(h + t),
                Err(e) => Err(e),
            },
            Err(e) => Err(e),
        }
    }
}

/// Full expansion of a parsed template.
pub open spec fn expand_spec(parts: Seq<URLPartV>, params: Seq<(Seq<char>, Seq<char>)>) -> Result<
    Seq<char>,
    Seq<char>,
> {
    expand_from(parts, params, 0)
}

/// Models of a parameter set, element by element.
pub open spec fn params_view(v: Seq<(String, String)>) -> Seq<(Seq<char>, Seq<char>)> {
    Seq::new(
        v.len(),
        |i: int| if 0 <= i < v.len() {
            (v[i].0@, v[i].1@)
        } else {
            (Seq::<char>::empty(), Seq::<char>::empty())
        },
    )
}

/// Expansion is a function of the parts and the parameters alone: equal
/// inputs give equal output text, on every call.
pub proof fn lemma_expand_deterministic(
    p1: Seq<URLPartV>,
    p2: Seq<URLPartV>,
    m1: Seq<(Seq<char>, Seq<char>)>,
    m2: Seq<(Seq<char>, Seq<char>)>,
)
    requires
        p1 == p2,
        m1 == m2,
    ensures
        expand_spec(p1, m1) == expand_spec(p2, m2),
{
}

fn hex_digit(d: u8) -> (c: char)
    requires
        d < 16,
    ensures
        c == hex_char(d as int),
{
    if d == 0 {
        '0'
    } else if d == 1 {
        '1'
    } else if d == 2 {
        '2'
    } else if d == 3 {
        '3'
    } else if d == 4 {
        '4'
    } else if d == 5 {
        '5'
    } else if d == 6 {
        '6'
    } else if d == 7 {
        '7'
    } else if d == 8 {
        '8'
    } else if d == 9 {
        '9'
    } else if d == 10 {
        'A'
    } else if d == 11 {
        'B'
    } else if d == 12 {
        'C'
    } else if d == 13 {
        'D'
    } else if d == 14 {
        'E'
    } else {
        'F'
    }
}

fn byte_is_unreserved(b: u8) -> (r: bool)
    ensures
        r == is_unreserved(b),
{
    (0x41 <= b && b <= 0x5a) || (0x61 <= b && b <= 0x7a) || (0x30 <= b && b <= 0x39) || b == 0x2d
        || b == 0x2e || b == 0x5f || b == 0x7e || b == 0x2f || b == 0x3a
}

proof fn lemma_enc_bytes_snoc(bs: Seq<u8>, b: u8)
    ensures
        enc_bytes(bs.push(b)) == enc_bytes(bs) + (if is_unreserved(b) {
            seq![b as char]
        } else {
            seq!['%', hex_char(b as int / 16), hex_char(b as int % 16)]
        }),
    decreases bs.len(),
{
    if bs.len() == 0 {
        assert(bs.push(b)[0] == b);
        assert(bs.push(b).skip(1) =~= Seq::<u8>::empty());
        assert(enc_bytes(bs.push(b).skip(1)) =~= Seq::<char>::empty());
        assert(enc_bytes(bs) =~= Seq::<char>::empty());
        assert(enc_bytes(bs.push(b)) =~= enc_bytes(bs) + (if is_unreserved(b) {
            seq![b as char]
        } else {
            seq!['%', hex_char(b as int / 16), hex_char(b as int % 16)]
        }));
    } else {
        assert(bs.push(b)[0] == bs[0]);
        assert(bs.push(b).skip(1) =~= bs.skip(1).push(b));
        lemma_enc_bytes_snoc(bs.skip(1), b);
        assert(enc_bytes(bs.push(b)) =~= enc_bytes(bs) + (if is_unreserved(b) {
            seq![b as char]
        } else {
            seq!['%', hex_char(b as int / 16), hex_char(b as int % 16)]
        }));
    }
}

/// Appends the percent-encoded form of `value` to `out`.
fn push_encoded(out: &mut String, value: &str)
    ensures
        final(out)@ == old(out)@ + enc_bytes(vstd::utf8::encode_utf8(value@)),
{
    let bs = value.as_bytes_vec();
    let n = bs.len();
    let mut i: usize = 0;
    while i < n
        invariant
            i <= n,
            n == bs@.len(),
            bs@ == vstd::utf8::encode_utf8(value@),
            out@ == old(out)@ + enc_bytes(bs@.subrange(0, i as int)),
        decreases n - i,
    {
        let b = bs[i];
        if byte_is_unreserved(b) {
            push_char(out, b as char);
        } else {
            push_char(out, '%');
            push_char(out, hex_digit(b / 16));
            push_char(out, hex_digit(b % 16));
        }
        proof {
            lemma_enc_bytes_snoc(bs@.subrange(0, i as int), bs@[i as int]);
            assert(bs@.subrange(0, i as int + 1) =~= bs@.subrange(0, i as int).push(bs@[i as int]));
            assert(out@ =~= old(out)@ + enc_bytes(bs@.subrange(0, i as int + 1)));
        }
        i += 1;
    }
    proof {
        assert(bs@.subrange(0, n as int) =~= bs@);
    }
}

impl URLPart {
    /// Parse a template into its pieces; unsupported syntax fails with
    /// `MalformedTemplate`.
    pub fn parse(template: &str) -> (r: Result<Vec<URLPart>, crate::Error>)
        ensures
            (r is Ok) == (tparse(template@, 0) is Some),
            r matches Ok(ps) ==> tparse(template@, 0) matches Some(g) && parts_view(ps@) == g,
            r matches Err(e) ==> e is MalformedTemplate,
    {
        match parse_from(template, 0) {
            Some(ps) => Ok(ps),
            None => Err(crate::Error::MalformedTemplate),
        }
    }

    /// Expand parsed pieces against a parameter set; `Err` carries the name
    /// of the first variable with no value (`MissingVariable`).
    pub fn expand(parts: &Vec<URLPart>, params: &Vec<(String, String)>) -> (r: Result<
        String,
        crate::Error,
    >)
        ensures
            (r is Ok) == (expand_spec(parts_view(parts@), params_view(params@)) is Ok),
            r matches Ok(u) ==> expand_spec(parts_view(parts@), params_view(params@)) matches Ok(g)
                && u@ == g,
            r matches Err(e) ==> expand_spec(parts_view(parts@), params_view(params@)) matches Err(
                name,
            ) && e matches crate::Error::MissingVariable(m) && m@ == name,
    {
        let mut out = String::new();
        let n = parts.len();
        let mut k: usize = 0;
        while k < n
            invariant
                k <= n,
                n == parts@.len(),
                expand_from(parts_view(parts@), params_view(params@), k as int) is Ok
                    ==> (expand_spec(parts_view(parts@), params_view(params@)) matches Ok(g)
                    && out@ + expand_from(parts_view(parts@), params_view(params@), k as int)->Ok_0
                    == g),
                expand_from(parts_view(parts@), params_view(params@), k as int) matches Err(e)
                    ==> (expand_spec(parts_view(parts@), params_view(params@)) matches Err(e2)
                    && e2 == e),
            decreases n - k,
        {
            assert(parts_view(parts@)[k as int] == parts[k as int]@);
            match &parts[k] {
                URLPart::Literal(t) => {
                    out.append(t.as_str());
                },
                URLPart::Variable(name) => {
                    match lookup_param(params, name.as_str()) {
                        Some(value) => {
                            push_encoded(&mut out, value.as_str());
                        },
                        None => {
                            assert(expand_from(
                                parts_view(parts@),
                                params_view(params@),
                                k as int,
                            ) is Err);
                            return Err(crate::Error::MissingVariable(name.clone()));
                        },
                    }
                },
            }
            k += 1;
        }
        proof {
            assert(expand_from(parts_view(parts@), params_view(params@), n as int) == Ok::<
                Seq<char>,
                Seq<char>,
            >(Seq::empty()));
            assert(out@ + Seq::<char>::empty() =~= out@);
        }
        Ok(out)
    }
}

/// The first value bound to `name` in the parameter set.
fn lookup_param<'a>(params: &'a Vec<(String, String)>, name: &str) -> (r: Option<&'a String>)
    ensures
        (r is Some) == (param_lookup(params_view(params@), name@) is Some),
        r matches Some(v) ==> param_lookup(params_view(params@), name@) matches Some(g) && v@ == g,
{
    let n = params.len();
    let mut i: usize = 0;
    proof {
        assert(params_view(params@).skip(0) =~= params_view(params@));
    }
    while i < n
        invariant
            i <= n,
            n == params@.len(),
            param_lookup(params_view(params@), name@) == param_lookup(
                params_view(params@).skip(i as int),
                name@,
            ),
        decreases n - i,
    {
        proof {
            assert(params_view(params@).skip(i as int)[0] == params_view(params@)[i as int]);
            assert(params_view(params@).skip(i as int).skip(1) =~= params_view(params@).skip(
                i as int + 1,
            ));
        }
        if crate::text::str_eq(params[i].0.as_str(), name) {
            return Some(&params[i].1);
        }
        i += 1;
    }
    proof {
        assert(params_view(params@).skip(n as int) =~= Seq::<(Seq<char>, Seq<char>)>::empty());
    }
    None
}

/// Exec mirror of `tparse` from position `i`.
fn parse_from(s: &str, i: usize) -> (r: Option<Vec<URLPart>>)
    requires
        i as int <= s@.len(),
    ensures
        (r is Some) == (tparse(s@, i as int) is Some),
        r matches Some(ps) ==> tparse(s@, i as int) matches Some(g) && parts_view(ps@) == g,
    decreases s@.len() - i, 1int,
{
    let n = s.unicode_len();
    if i >= n {
        let ps: Vec<URLPart> = Vec::new();
        proof {
            assert(parts_view(ps@) =~= Seq::<URLPartV>::empty());
        }
        return Some(ps);
    }
    let c = s.get_char(i);
    if c == '{' {
        let j = find_brace_end(s, i + 1);
        if j < n && i + 1 < j {
            let name = s.substring_char(i + 1, j).to_owned();
            match parse_from(s, j + 1) {
                Some(mut ps) => {
                    ps.insert(0, URLPart::Variable(name));
                    proof {
                        let g = tparse(s@, i as int)->Some_0;
                        assert(parts_view(ps@) =~= g);
                    }
                    Some(ps)
                },
                None => None,
            }
        } else {
            None
        }
    } else {
        let j = find_lit_end(s, i);
        assert(lit_end(s@, i as int) >= i + 1) by {
            lemma_lit_end_ge(s@, i as int + 1);
        }
        let text = s.substring_char(i, j).to_owned();
        match parse_from(s, j) {
            Some(mut ps) => {
                ps.insert(0, URLPart::Literal(text));
                proof {
                    let g = tparse(s@, i as int)->Some_0;
                    assert(parts_view(ps@) =~= g);
                }
                Some(ps)
            },
            None => None,
        }
    }
}

proof fn lemma_lit_end_ge(s: Seq<char>, i: int)
    ensures
        lit_end(s, i) >= i,
    decreases s.len() - i,
{
    if 0 <= i && i < s.len() && s[i] != '{' {
        lemma_lit_end_ge(s, i + 1);
    }
}

fn find_brace_end(s: &str, i: usize) -> (r: usize)
    requires
        i as int <= s@.len(),
    ensures
        r as int == brace_end(s@, i as int),
        i <= r,
        r as int <= s@.len(),
{
    let n = s.unicode_len();
    let mut j = i;
    while j < n && s.get_char(j) != '}' && s.get_char(j) != '{'
        invariant
            i <= j,
            j as int <= s@.len(),
            n == s@.len(),
            brace_end(s@, i as int) == brace_end(s@, j as int),
        decreases n - j,
    {
        j += 1;
    }
    j
}

fn find_lit_end(s: &str, i: usize) -> (r: usize)
    requires
        i as int <= s@.len(),
    ensures
        r as int == lit_end(s@, i as int),
        i <= r,
        r as int <= s@.len(),
{
    let n = s.unicode_len();
    let mut j = i;
    while j < n && s.get_char(j) != '{'
        invariant
            i <= j,
            j as int <= s@.len(),
            n == s@.len(),
            lit_end(s@, i as int) == lit_end(s@, j as int),
        decreases n - j,
    {
        j += 1;
    }
    j
}

} // verus!
