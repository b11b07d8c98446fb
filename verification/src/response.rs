//! Batch responses: the server's ordered list of `[name, payload, callId]`
//! entries together with the echoed session-state token.  Entries are
//! correlated by call id — a lookup keeps the entries in the order the
//! server sent them — with positional access as a convenience.

use crate::json::{jview, sp_doc, views, Json, JsonV};
use crate::text::str_eq;
use crate::Error;
use vstd::prelude::*;
use vstd::seq_lib::group_seq_lib_default;
use vstd::string::*;

verus! {

/// One response entry: a method name (the reserved name `error` marks a
/// method-level error object), its payload, and the call id it answers.
pub struct ResponseEntry {
    pub method_name: String,
    pub arguments: Json,
    pub call_id: String,
}

/// A parsed batch response.
pub struct BatchResponse {
    pub session_state: String,
    pub entries: Vec<ResponseEntry>,
}

/// Model of one response entry.
pub struct ResponseEntryV {
    pub method_name: Seq<char>,
    pub arguments: JsonV,
    pub call_id: Seq<char>,
}

/// Model of a batch response.
pub struct BatchResponseV {
    pub session_state: Seq<char>,
    pub entries: Seq<ResponseEntryV>,
}

impl View for ResponseEntry {
    type V = ResponseEntryV;

    open spec fn view(&self) -> ResponseEntryV {
        ResponseEntryV {
            method_name: self.method_name@,
            arguments: jview(self.arguments),
            call_id: self.call_id@,
        }
    }
}

/// Models of an entry list, element by element.
pub open spec fn entries_v(v: Seq<ResponseEntry>) -> Seq<ResponseEntryV> {
    Seq::new(
        v.len(),
        |i: int| if 0 <= i < v.len() {
            v[i]@
        } else {
            ResponseEntryV {
                method_name: Seq::empty(),
                arguments: JsonV::Null,
                call_id: Seq::empty(),
            }
        },
    )
}

impl View for BatchResponse {
    type V = BatchResponseV;

    open spec fn view(&self) -> BatchResponseV {
        BatchResponseV { session_state: self.session_state@, entries: entries_v(self.entries@) }
    }
}

/// Read back one `[name, payload, callId]` entry.
pub open spec fn entry_from(v: JsonV) -> Option<ResponseEntryV> {
    match v {
        JsonV::Arr(e) => if e.len() == 3 && e[0] is Str && e[2] is Str {
            Some(
                ResponseEntryV {
                    method_name: e[0]->Str_0,
                    arguments: e[1],
                    call_id: e[2]->Str_0,
                },
            )
        } else {
            None
        },
        _ => None,
    }
}

/// Read back an entry list.
pub open spec fn entries_from(a: Seq<JsonV>) -> Option<Seq<ResponseEntryV>>
    decreases a.len(),
{
    if a.len() == 0 {
        Some(Seq::empty())
    } else {
        match entry_from(a[0]) {
            Some(e) => match entries_from(a.skip(1)) {
                Some(t) => Some(seq![e] + t),
                None => None,
            },
            None => None,
        }
    }
}

/// Read back a whole response document: the session-state token and the
/// entry list, found by key wherever they stand in the envelope.
pub open spec fn resp_from_json(v: JsonV) -> Option<BatchResponseV> {
    match v {
        JsonV::Obj(m) => match crate::json::obj_lookup(m, "sessionState"@) {
            Some(JsonV::Str(st)) => match crate::json::obj_lookup(m, "methodResponses"@) {
                Some(JsonV::Arr(a)) => match entries_from(a) {
                    Some(es) => Some(BatchResponseV { session_state: st, entries: es }),
                    None => None,
                },
                _ => None,
            },
            _ => None,
        },
        _ => None,
    }
}

/// The entries answering one call id, in the order the server sent them.
pub open spec fn entries_with_id(es: Seq<ResponseEntryV>, cid: Seq<char>) -> Seq<ResponseEntryV> {
    es.filter(|e: ResponseEntryV| e.call_id == cid)
}

fn parse_entries(a: &Vec<Json>, k: usize) -> (r: Option<Vec<ResponseEntry>>)
    requires
        k <= a@.len(),
    ensures
        (r is Some) == (entries_from(views(a@).skip(k as int)) is Some),
        r matches Some(p) ==> entries_from(views(a@).skip(k as int)) == Some(entries_v(p@)),
    decreases a@.len() - k,
{
    if k == a.len() {
        let p: Vec<ResponseEntry> = Vec::new();
        proof {
            assert(views(a@).skip(k as int) =~= Seq::<JsonV>::empty());
            assert(entries_v(p@) =~= Seq::<ResponseEntryV>::empty());
        }
        return Some(p);
    }
    proof {
        assert(views(a@).skip(k as int)[0] == views(a@)[k as int]);
        assert(views(a@).skip(k as int).skip(1) =~= views(a@).skip(k as int + 1));
    }
    let head: ResponseEntry = match &a[k] {
        Json::Arr(e) => {
            if e.len() != 3 {
                return None;
            }
            proof {
                assert(views(e@)[0] == jview(e@[0]));
                assert(views(e@)[1] == jview(e@[1]));
                assert(views(e@)[2] == jview(e@[2]));
            }
            let name = match &e[0] {
                Json::Str(s) => s.clone(),
                _ => { return None },
            };
            let id = match &e[2] {
                Json::Str(s) => s.clone(),
                _ => { return None },
            };
            ResponseEntry { method_name: name, arguments: e[1].deep_clone(), call_id: id }
        },
        _ => { return None },
    };
    match parse_entries(a, k + 1) {
        Some(mut t) => {
            t.insert(0, head);
            proof {
                let g = entries_from(views(a@).skip(k as int))->Some_0;
                assert(entries_v(t@) =~= g);
            }
            Some(t)
        },
        None => None,
    }
}

impl ResponseEntry {
    /// Whether this entry is a method-level error object rather than a
    /// success result.
    pub fn is_error(&self) -> (r: bool)
        ensures
            r == (self@.method_name == "error"@),
    {
        str_eq(self.method_name.as_str(), "error")
    }
}

impl BatchResponse {
    /// Parse a response document.  The whole call fails with
    /// `MalformedResponse` when the envelope, the session-state token or an
    /// entry triple does not have the required shape.
    pub fn parse(s: &str) -> (r: Result<BatchResponse, Error>)
        ensures
            (r is Ok) == (sp_doc(s@) matches Some(v) && resp_from_json(v) is Some),
            r matches Ok(b) ==> (sp_doc(s@) matches Some(v) && resp_from_json(v) == Some(b@)),
            r matches Err(e) ==> e is MalformedResponse,
    {
        let doc = match Json::parse_text(s) {
            Some(d) => d,
            None => { return Err(Error::MalformedResponse) },
        };
        let st: String = match doc.get("sessionState") {
            Some(j) => match j.as_string() {
                Some(s2) => s2.clone(),
                None => { return Err(Error::MalformedResponse) },
            },
            None => { return Err(Error::MalformedResponse) },
        };
        match doc.get("methodResponses") {
            Some(j2) => match j2 {
                Json::Arr(a) => {
                    proof {
                        assert(views(a@).skip(0) =~= views(a@));
                    }
                    match parse_entries(a, 0) {
                        Some(es) => Ok(BatchResponse { session_state: st, entries: es }),
                        None => Err(Error::MalformedResponse),
                    }
                },
                _ => Err(Error::MalformedResponse),
            },
            None => Err(Error::MalformedResponse),
        }
    }

    /// The echoed session-state token.
    pub fn session_state(&self) -> (r: &String)
        ensures
            r@ == self@.session_state,
    {
        &self.session_state
    }

    /// How many entries the response holds.
    pub fn len(&self) -> (r: usize)
        ensures
            r == self@.entries.len(),
    {
        self.entries.len()
    }

    /// The entry at one position, when there is one.
    pub fn entry_at(&self, i: usize) -> (r: Option<&ResponseEntry>)
        ensures
            (r is Some) == (i < self@.entries.len()),
            r matches Some(e) ==> e@ == self@.entries[i as int],
    {
        if i < self.entries.len() {
            Some(&self.entries[i])
        } else {
            None
        }
    }

    /// All entries answering `call_id`, kept in the order the server sent
    /// them; an unknown call id yields an empty list, not an error.
    pub fn entries_for(&self, call_id: &str) -> (r: Vec<ResponseEntry>)
        ensures
            entries_v(r@) == entries_with_id(self@.entries, call_id@),
    {
        broadcast use group_seq_lib_default;

        let mut r: Vec<ResponseEntry> = Vec::new();
        let n = self.entries.len();
        let mut i: usize = 0;
        proof {
            reveal(Seq::filter);
            assert(self@.entries.take(0) =~= Seq::<ResponseEntryV>::empty());
            assert(entries_v(r@) =~= self@.entries.take(0).filter(
                |e: ResponseEntryV| e.call_id == call_id@,
            ));
        }
        while i < n
            invariant
                i <= n,
                n == self.entries@.len(),
                entries_v(r@) == self@.entries.take(i as int).filter(
                    |e: ResponseEntryV| e.call_id == call_id@,
                ),
            decreases n - i,
        {
            let ghost pred = |e: ResponseEntryV| e.call_id == call_id@;
            let ghost r0 = r@;
            let e = &self.entries[i];
            if str_eq(e.call_id.as_str(), call_id) {
                let copy = ResponseEntry {
                    method_name: e.method_name.clone(),
                    arguments: e.arguments.deep_clone(),
                    call_id: e.call_id.clone(),
                };
                r.push(copy);
            }
            proof {
                reveal(Seq::filter);
                let t1 = self@.entries.take(i as int + 1);
                assert(t1.drop_last() =~= self@.entries.take(i as int));
                assert(t1.last() == self@.entries[i as int]);
                assert(self@.entries[i as int] == self.entries@[i as int]@);
                if pred(self@.entries[i as int]) {
                    assert(entries_v(r@) =~= entries_v(r0).push(self.entries@[i as int]@));
                } else {
                    assert(entries_v(r@) =~= entries_v(r0));
                }
                assert(entries_v(r@) == t1.filter(pred));
            }
            i += 1;
        }
        proof {
            assert(self@.entries.take(n as int) =~= self@.entries);
        }
        r
    }
}

} // verus!
