//! Email query vocabulary: the closed filter union and the sort
//! properties, each with its exact wire form.  A filter serializes to a
//! one-member object whose member name is the wire tag; a sort criterion
//! serializes to its property members plus the direction flag.

use crate::json::{mviews, Json, JsonV};
use crate::request::{strs_json, strs_v};
use crate::text::{dec_of, push_dec};
use vstd::prelude::*;
use vstd::string::*;

verus! {

/// One email filter condition.  Dates are held as Unix timestamps in
/// seconds; sizes in bytes.
pub enum Filter {
    InMailbox { value: String },
    InMailboxOtherThan { value: Vec<String> },
    Before { value: i64 },
    After { value: i64 },
    MinSize { value: u32 },
    MaxSize { value: u32 },
    AllInThreadHaveKeyword { value: String },
    SomeInThreadHaveKeyword { value: String },
    NoneInThreadHaveKeyword { value: String },
    HasKeyword { value: String },
    NotKeyword { value: String },
    HasAttachment { value: bool },
    Text { value: String },
    From { value: String },
    To { value: String },
    Cc { value: String },
    Bcc { value: String },
    Subject { value: String },
    Body { value: String },
    Header { value: Vec<String> },
}

/// One email sort property, with its keyword where the protocol takes one.
pub enum Comparator {
    ReceivedAt,
    Size,
    From,
    To,
    Subject,
    SentAt,
    HasKeyword { keyword: String },
    AllInThreadHaveKeyword { keyword: String },
    SomeInThreadHaveKeyword { keyword: String },
}

/// What the timestamp formats to in UTC; a function of the timestamp
/// alone.
pub uninterp spec fn rfc3339_of(ts: int) -> Seq<char>;

/// Timestamps the wire format can carry: years 1 through 9999.
pub open spec fn in_rfc3339_range(ts: int) -> bool {
    -62135596800 <= ts <= 253402300799
}

/// Relies on chrono's `DateTime::<Utc>::from_timestamp` (defined on every
/// timestamp in range) and `to_rfc3339_opts`: the UTC date-time text of the
/// timestamp, depending on the timestamp alone.
#[verifier::external_body]
pub fn utc_rfc3339(ts: i64) -> (r: String)
    requires
        in_rfc3339_range(ts as int),
    ensures
        r@ == rfc3339_of(ts as int),
{
    let dt = chrono::DateTime::<chrono::Utc>::from_timestamp(ts, 0).unwrap();
    dt.to_rfc3339_opts(chrono::SecondsFormat::Secs, true)
}

/// A one-member object: the filter wire shape.
pub open spec fn one_wire(k: Seq<char>, v: JsonV) -> JsonV {
    JsonV::Obj(seq![(k, v)])
}

/// The exact wire form of each filter condition.
pub open spec fn filter_wire(f: Filter) -> JsonV {
    match f {
        Filter::InMailbox { value } => one_wire("inMailbox"@, JsonV::Str(value@)),
        Filter::InMailboxOtherThan { value } => one_wire(
            "inMailboxOtherThan"@,
            JsonV::Arr(strs_json(strs_v(value@))),
        ),
        Filter::Before { value } => one_wire("before"@, JsonV::Str(rfc3339_of(value as int))),
        Filter::After { value } => one_wire("after"@, JsonV::Str(rfc3339_of(value as int))),
        Filter::MinSize { value } => one_wire("minSize"@, JsonV::Num(dec_of(value as nat))),
        Filter::MaxSize { value } => one_wire("maxSize"@, JsonV::Num(dec_of(value as nat))),
        Filter::AllInThreadHaveKeyword { value } => one_wire(
            "allInThreadHaveKeyword"@,
            JsonV::Str(value@),
        ),
        Filter::SomeInThreadHaveKeyword { value } => one_wire(
            "someInThreadHaveKeyword"@,
            JsonV::Str(value@),
        ),
        Filter::NoneInThreadHaveKeyword { value } => one_wire(
            "noneInThreadHaveKeyword"@,
            JsonV::Str(value@),
        ),
        Filter::HasKeyword { value } => one_wire("hasKeyword"@, JsonV::Str(value@)),
        Filter::NotKeyword { value } => one_wire("notKeyword"@, JsonV::Str(value@)),
        Filter::HasAttachment { value } => one_wire("hasAttachment"@, JsonV::Bool(value)),
        Filter::Text { value } => one_wire("text"@, JsonV::Str(value@)),
        Filter::From { value } => one_wire("from"@, JsonV::Str(value@)),
        Filter::To { value } => one_wire("to"@, JsonV::Str(value@)),
        Filter::Cc { value } => one_wire("cc"@, JsonV::Str(value@)),
        Filter::Bcc { value } => one_wire("bcc"@, JsonV::Str(value@)),
        Filter::Subject { value } => one_wire("subject"@, JsonV::Str(value@)),
        Filter::Body { value } => one_wire("body"@, JsonV::Str(value@)),
        Filter::Header { value } => one_wire("header"@, JsonV::Arr(strs_json(strs_v(value@)))),
    }
}

/// Timestamps in date filters stay within the representable range.
pub open spec fn filter_wf(f: Filter) -> bool {
    match f {
        Filter::Before { value } => in_rfc3339_range(value as int),
        Filter::After { value } => in_rfc3339_range(value as int),
        _ => true,
    }
}

fn one_member(key: &str, v: Json) -> (r: Json)
    ensures
        r@ == one_wire(key@, v@),
{
    let ghost vv = v@;
    let mut m: Vec<(String, Json)> = Vec::new();
    m.push((key.to_owned(), v));
    proof {
        assert(mviews(m@) =~= seq![(key@, vv)]);
    }
    Json::Obj(m)
}

fn strings_json(v: &Vec<String>) -> (r: Json)
    ensures
        r@ == JsonV::Arr(strs_json(strs_v(v@))),
{
    let n = v.len();
    let mut a: Vec<Json> = Vec::new();
    let mut i: usize = 0;
    while i < n
        invariant
            i <= n,
            n == v@.len(),
            a@.len() == i,
            forall|k: int|
                0 <= k < i ==> crate::json::jview(#[trigger] a@[k]) == strs_json(strs_v(v@))[k],
        decreases n - i,
    {
        a.push(Json::Str(v[i].clone()));
        i += 1;
    }
    proof {
        assert(crate::json::views(a@) =~= strs_json(strs_v(v@)));
    }
    Json::Arr(a)
}

fn dec_json(n: u32) -> (r: Json)
    ensures
        r@ == JsonV::Num(dec_of(n as nat)),
{
    let mut s = String::new();
    push_dec(&mut s, n as u64);
    Json::Num(s)
}

impl Filter {
    pub fn in_mailbox(value: String) -> (r: Filter)
        ensures
            r == (Filter::InMailbox { value }),
    {
        Filter::InMailbox { value }
    }

    pub fn in_mailbox_other_than(value: Vec<String>) -> (r: Filter)
        ensures
            r == (Filter::InMailboxOtherThan { value }),
    {
        Filter::InMailboxOtherThan { value }
    }

    /// Mail received before this Unix timestamp.
    pub fn before(value: i64) -> (r: Filter)
        requires
            in_rfc3339_range(value as int),
        ensures
            r == (Filter::Before { value }),
    {
        Filter::Before { value }
    }

    /// Mail received at or after this Unix timestamp.
    pub fn after(value: i64) -> (r: Filter)
        requires
            in_rfc3339_range(value as int),
        ensures
            r == (Filter::After { value }),
    {
        Filter::After { value }
    }

    pub fn min_size(value: u32) -> (r: Filter)
        ensures
            r == (Filter::MinSize { value }),
    {
        Filter::MinSize { value }
    }

    pub fn max_size(value: u32) -> (r: Filter)
        ensures
            r == (Filter::MaxSize { value }),
    {
        Filter::MaxSize { value }
    }

    pub fn all_in_thread_have_keyword(value: String) -> (r: Filter)
        ensures
            r == (Filter::AllInThreadHaveKeyword { value }),
    {
        Filter::AllInThreadHaveKeyword { value }
    }

    pub fn some_in_thread_have_keyword(value: String) -> (r: Filter)
        ensures
            r == (Filter::SomeInThreadHaveKeyword { value }),
    {
        Filter::SomeInThreadHaveKeyword { value }
    }

    pub fn none_in_thread_have_keyword(value: String) -> (r: Filter)
        ensures
            r == (Filter::NoneInThreadHaveKeyword { value }),
    {
        Filter::NoneInThreadHaveKeyword { value }
    }

    pub fn has_keyword(value: String) -> (r: Filter)
        ensures
            r == (Filter::HasKeyword { value }),
    {
        Filter::HasKeyword { value }
    }

    pub fn not_keyword(value: String) -> (r: Filter)
        ensures
            r == (Filter::NotKeyword { value }),
    {
        Filter::NotKeyword { value }
    }

    pub fn has_attachment(value: bool) -> (r: Filter)
        ensures
            r == (Filter::HasAttachment { value }),
    {
        Filter::HasAttachment { value }
    }

    pub fn text(value: String) -> (r: Filter)
        ensures
            r == (Filter::Text { value }),
    {
        Filter::Text { value }
    }

    pub fn from(value: String) -> (r: Filter)
        ensures
            r == (Filter::From { value }),
    {
        Filter::From { value }
    }

    pub fn to(value: String) -> (r: Filter)
        ensures
            r == (Filter::To { value }),
    {
        Filter::To { value }
    }

    pub fn cc(value: String) -> (r: Filter)
        ensures
            r == (Filter::Cc { value }),
    {
        Filter::Cc { value }
    }

    pub fn bcc(value: String) -> (r: Filter)
        ensures
            r == (Filter::Bcc { value }),
    {
        Filter::Bcc { value }
    }

    pub fn subject(value: String) -> (r: Filter)
        ensures
            r == (Filter::Subject { value }),
    {
        Filter::Subject { value }
    }

    pub fn body(value: String) -> (r: Filter)
        ensures
            r == (Filter::Body { value }),
    {
        Filter::Body { value }
    }

    pub fn header(value: Vec<String>) -> (r: Filter)
        ensures
            r == (Filter::Header { value }),
    {
        Filter::Header { value }
    }

    /// The exact wire document of this condition.
    pub fn to_json(&self) -> (r: Json)
        requires
            filter_wf(*self),
        ensures
            r@ == filter_wire(*self),
    {
        match self {
            Filter::InMailbox { value } => one_member("inMailbox", Json::Str(value.clone())),
            Filter::InMailboxOtherThan { value } => one_member(
                "inMailboxOtherThan",
                strings_json(value),
            ),
            Filter::Before { value } => one_member("before", Json::Str(utc_rfc3339(*value))),
            Filter::After { value } => one_member("after", Json::Str(utc_rfc3339(*value))),
            Filter::MinSize { value } => one_member("minSize", dec_json(*value)),
            Filter::MaxSize { value } => one_member("maxSize", dec_json(*value)),
            Filter::AllInThreadHaveKeyword { value } => one_member(
                "allInThreadHaveKeyword",
                Json::Str(value.clone()),
            ),
            Filter::SomeInThreadHaveKeyword { value } => one_member(
                "someInThreadHaveKeyword",
                Json::Str(value.clone()),
            ),
            Filter::NoneInThreadHaveKeyword { value } => one_member(
                "noneInThreadHaveKeyword",
                Json::Str(value.clone()),
            ),
            Filter::HasKeyword { value } => one_member("hasKeyword", Json::Str(value.clone())),
            Filter::NotKeyword { value } => one_member("notKeyword", Json::Str(value.clone())),
            Filter::HasAttachment { value } => one_member("hasAttachment", Json::Bool(*value)),
            Filter::Text { value } => one_member("text", Json::Str(value.clone())),
            Filter::From { value } => one_member("from", Json::Str(value.clone())),
            Filter::To { value } => one_member("to", Json::Str(value.clone())),
            Filter::Cc { value } => one_member("cc", Json::Str(value.clone())),
            Filter::Bcc { value } => one_member("bcc", Json::Str(value.clone())),
            Filter::Subject { value } => one_member("subject", Json::Str(value.clone())),
            Filter::Body { value } => one_member("body", Json::Str(value.clone())),
            Filter::Header { value } => one_member("header", strings_json(value)),
        }
    }
}

/// The property members each sort property puts on the wire.
pub open spec fn comparator_members(c: Comparator) -> Seq<(Seq<char>, JsonV)> {
    match c {
        Comparator::ReceivedAt => seq![("property"@, JsonV::Str("receivedAt"@))],
        Comparator::Size => seq![("property"@, JsonV::Str("size"@))],
        Comparator::From => seq![("property"@, JsonV::Str("from"@))],
        Comparator::To => seq![("property"@, JsonV::Str("to"@))],
        Comparator::Subject => seq![("property"@, JsonV::Str("subject"@))],
        Comparator::SentAt => seq![("property"@, JsonV::Str("sentAt"@))],
        Comparator::HasKeyword { keyword } => seq![
            ("property"@, JsonV::Str("hasKeyword"@)),
            ("keyword"@, JsonV::Str(keyword@)),
        ],
        Comparator::AllInThreadHaveKeyword { keyword } => seq![
            ("property"@, JsonV::Str("allInThreadHaveKeyword"@)),
            ("keyword"@, JsonV::Str(keyword@)),
        ],
        Comparator::SomeInThreadHaveKeyword { keyword } => seq![
            ("property"@, JsonV::Str("someInThreadHaveKeyword"@)),
            ("keyword"@, JsonV::Str(keyword@)),
        ],
    }
}

/// The full wire form of one sort criterion: its property members plus the
/// direction flag.
pub open spec fn sort_wire(c: crate::query::Comparator<Comparator>) -> JsonV {
    JsonV::Obj(comparator_members(c.property) + seq![("isAscending"@, JsonV::Bool(c.is_ascending))])
}

impl Comparator {
    pub fn received_at() -> (r: crate::query::Comparator<Comparator>)
        ensures
            r.property == Comparator::ReceivedAt,
            r.is_ascending == true,
    {
        crate::query::Comparator::new(Comparator::ReceivedAt)
    }

    pub fn size() -> (r: crate::query::Comparator<Comparator>)
        ensures
            r.property == Comparator::Size,
            r.is_ascending == true,
    {
        crate::query::Comparator::new(Comparator::Size)
    }

    pub fn from() -> (r: crate::query::Comparator<Comparator>)
        ensures
            r.property == Comparator::From,
            r.is_ascending == true,
    {
        crate::query::Comparator::new(Comparator::From)
    }

    pub fn to() -> (r: crate::query::Comparator<Comparator>)
        ensures
            r.property == Comparator::To,
            r.is_ascending == true,
    {
        crate::query::Comparator::new(Comparator::To)
    }

    pub fn subject() -> (r: crate::query::Comparator<Comparator>)
        ensures
            r.property == Comparator::Subject,
            r.is_ascending == true,
    {
        crate::query::Comparator::new(Comparator::Subject)
    }

    pub fn sent_at() -> (r: crate::query::Comparator<Comparator>)
        ensures
            r.property == Comparator::SentAt,
            r.is_ascending == true,
    {
        crate::query::Comparator::new(Comparator::SentAt)
    }

    pub fn has_keyword(keyword: String) -> (r: crate::query::Comparator<Comparator>)
        ensures
            r.property == (Comparator::HasKeyword { keyword }),
            r.is_ascending == true,
    {
        crate::query::Comparator::new(Comparator::HasKeyword { keyword })
    }

    pub fn all_in_thread_have_keyword(keyword: String) -> (r: crate::query::Comparator<Comparator>)
        ensures
            r.property == (Comparator::AllInThreadHaveKeyword { keyword }),
            r.is_ascending == true,
    {
        crate::query::Comparator::new(Comparator::AllInThreadHaveKeyword { keyword })
    }

    pub fn some_in_thread_have_keyword(keyword: String) -> (r: crate::query::Comparator<
        Comparator,
    >)
        ensures
            r.property == (Comparator::SomeInThreadHaveKeyword { keyword }),
            r.is_ascending == true,
    {
        crate::query::Comparator::new(Comparator::SomeInThreadHaveKeyword { keyword })
    }
}

impl crate::query::Comparator<Comparator> {
    /// The exact wire document of this sort criterion.
    pub fn to_json(&self) -> (r: Json)
        ensures
            r@ == sort_wire(*self),
    {
        let mut m: Vec<(String, Json)> = Vec::new();
        match &self.property {
            Comparator::ReceivedAt => {
                m.push((String::from_str("property"), Json::Str(String::from_str("receivedAt"))));
            },
            Comparator::Size => {
                m.push((String::from_str("property"), Json::Str(String::from_str("size"))));
            },
            Comparator::From => {
                m.push((String::from_str("property"), Json::Str(String::from_str("from"))));
            },
            Comparator::To => {
                m.push((String::from_str("property"), Json::Str(String::from_str("to"))));
            },
            Comparator::Subject => {
                m.push((String::from_str("property"), Json::Str(String::from_str("subject"))));
            },
            Comparator::SentAt => {
                m.push((String::from_str("property"), Json::Str(String::from_str("sentAt"))));
            },
            Comparator::HasKeyword { keyword } => {
                m.push((String::from_str("property"), Json::Str(String::from_str("hasKeyword"))));
                m.push((String::from_str("keyword"), Json::Str(keyword.clone())));
            },
            Comparator::AllInThreadHaveKeyword { keyword } => {
                m.push(
                    (
                        String::from_str("property"),
                        Json::Str(String::from_str("allInThreadHaveKeyword")),
                    ),
                );
                m.push((String::from_str("keyword"), Json::Str(keyword.clone())));
            },
            Comparator::SomeInThreadHaveKeyword { keyword } => {
                m.push(
                    (
                        String::from_str("property"),
                        Json::Str(String::from_str("someInThreadHaveKeyword")),
                    ),
                );
                m.push((String::from_str("keyword"), Json::Str(keyword.clone())));
            },
        }
        m.push((String::from_str("isAscending"), Json::Bool(self.is_ascending)));
        proof {
            assert(mviews(m@) =~= comparator_members(self.property) + seq![
                ("isAscending"@, JsonV::Bool(self.is_ascending)),
            ]);
        }
        Json::Obj(m)
    }
}

} // verus!
