//! The session snapshot: the server's API endpoint, the three templated
//! endpoints, the account list with each account's capability set, the
//! primary account per capability, and the opaque session-state token.
//! A session is built whole from one session document and never mutated;
//! a refresh replaces it wholesale.

use crate::json::{jview, mviews, obj_lookup, sp_doc, Json, JsonV};
use crate::Error;
use vstd::prelude::*;
use vstd::string::*;

verus! {

/// An immutable snapshot of the server's advertised state.
pub struct Session {
    pub api_url: String,
    pub download_url: String,
    pub upload_url: String,
    pub event_source_url: String,
    pub accounts: Vec<(String, Vec<String>)>,
    pub primary_accounts: Vec<(String, String)>,
    pub state: String,
}

/// Model of a session snapshot.
pub struct SessionV {
    pub api_url: Seq<char>,
    pub download_url: Seq<char>,
    pub upload_url: Seq<char>,
    pub event_source_url: Seq<char>,
    pub accounts: Seq<(Seq<char>, Seq<Seq<char>>)>,
    pub primary_accounts: Seq<(Seq<char>, Seq<char>)>,
    pub state: Seq<char>,
}

/// Models of a string list, element by element.
pub open spec fn strings_v(v: Seq<String>) -> Seq<Seq<char>> {
    Seq::new(v.len(), |i: int| if 0 <= i < v.len() { v[i]@ } else { Seq::<char>::empty() })
}

/// Models of a string-pair list, element by element.
pub open spec fn pairs_v(v: Seq<(String, String)>) -> Seq<(Seq<char>, Seq<char>)> {
    Seq::new(
        v.len(),
        |i: int| if 0 <= i < v.len() {
            (v[i].0@, v[i].1@)
        } else {
            (Seq::<char>::empty(), Seq::<char>::empty())
        },
    )
}

/// Models of an account list, element by element.
pub open spec fn accounts_v(v: Seq<(String, Vec<String>)>) -> Seq<(Seq<char>, Seq<Seq<char>>)> {
    Seq::new(
        v.len(),
        |i: int| if 0 <= i < v.len() {
            (v[i].0@, strings_v(v[i].1@))
        } else {
            (Seq::<char>::empty(), Seq::<Seq<char>>::empty())
        },
    )
}

impl View for Session {
    type V = SessionV;

    open spec fn view(&self) -> SessionV {
        SessionV {
            api_url: self.api_url@,
            download_url: self.download_url@,
            upload_url: self.upload_url@,
            event_source_url: self.event_source_url@,
            accounts: accounts_v(self.accounts@),
            primary_accounts: pairs_v(self.primary_accounts@),
            state: self.state@,
        }
    }
}

/// Read back a map whose values must all be strings.
pub open spec fn str_pairs_from(m: Seq<(Seq<char>, JsonV)>) -> Option<Seq<(Seq<char>, Seq<char>)>>
    decreases m.len(),
{
    if m.len() == 0 {
        Some(Seq::empty())
    } else {
        match m[0].1 {
            JsonV::Str(s) => match str_pairs_from(m.skip(1)) {
                Some(t) => Some(seq![(m[0].0, s)] + t),
                None => None,
            },
            _ => None,
        }
    }
}

/// The member names of an object, in stored order.
pub open spec fn obj_keys(m: Seq<(Seq<char>, JsonV)>) -> Seq<Seq<char>> {
    Seq::new(m.len(), |i: int| if 0 <= i < m.len() { m[i].0 } else { Seq::<char>::empty() })
}

/// One account's capability set: the member names of its
/// `accountCapabilities` object; an account without one has none.
pub open spec fn account_caps(v: JsonV) -> Option<Seq<Seq<char>>> {
    match v {
        JsonV::Obj(am) => match obj_lookup(am, "accountCapabilities"@) {
            Some(JsonV::Obj(cm)) => Some(obj_keys(cm)),
            Some(_) => None,
            None => Some(Seq::empty()),
        },
        _ => None,
    }
}

/// Read back the account map.
pub open spec fn accounts_from(m: Seq<(Seq<char>, JsonV)>) -> Option<
    Seq<(Seq<char>, Seq<Seq<char>>)>,
>
    decreases m.len(),
{
    if m.len() == 0 {
        Some(Seq::empty())
    } else {
        match account_caps(m[0].1) {
            Some(caps) => match accounts_from(m.skip(1)) {
                Some(t) => Some(seq![(m[0].0, caps)] + t),
                None => None,
            },
            None => None,
        }
    }
}

/// One required string member of the session document.
pub open spec fn session_str(m: Seq<(Seq<char>, JsonV)>, key: Seq<char>) -> Option<Seq<char>> {
    match obj_lookup(m, key) {
        Some(JsonV::Str(s)) => Some(s),
        _ => None,
    }
}

/// Read back a whole session document; every field below is required.
pub open spec fn session_from_json(v: JsonV) -> Option<SessionV> {
    match v {
        JsonV::Obj(m) => {
            if session_str(m, "apiUrl"@) is Some && session_str(m, "downloadUrl"@) is Some
                && session_str(m, "uploadUrl"@) is Some && session_str(m, "eventSourceUrl"@)
                is Some && session_str(m, "state"@) is Some {
                match (obj_lookup(m, "primaryAccounts"@), obj_lookup(m, "accounts"@)) {
                    (Some(JsonV::Obj(pm)), Some(JsonV::Obj(am))) => match (
                        str_pairs_from(pm),
                        accounts_from(am),
                    ) {
                        (Some(prim), Some(accs)) => Some(
                            SessionV {
                                api_url: session_str(m, "apiUrl"@)->Some_0,
                                download_url: session_str(m, "downloadUrl"@)->Some_0,
                                upload_url: session_str(m, "uploadUrl"@)->Some_0,
                                event_source_url: session_str(m, "eventSourceUrl"@)->Some_0,
                                accounts: accs,
                                primary_accounts: prim,
                                state: session_str(m, "state"@)->Some_0,
                            },
                        ),
                        _ => None,
                    },
                    _ => None,
                }
            } else {
                None
            }
        },
        _ => None,
    }
}

fn get_str(doc: &Json, key: &str) -> (r: Option<String>)
    ensures
        doc@ matches JsonV::Obj(m) ==> ((r is Some) == (session_str(m, key@) is Some) && (r
            matches Some(s) ==> session_str(m, key@) == Some(s@))),
        !(doc@ is Obj) ==> r is None,
{
    match doc.get(key) {
        Some(j) => match j.as_string() {
            Some(s) => Some(s.clone()),
            None => None,
        },
        None => None,
    }
}

fn keys_of(m: &Vec<(String, Json)>) -> (r: Vec<String>)
    ensures
        strings_v(r@) == obj_keys(mviews(m@)),
{
    let n = m.len();
    let mut r: Vec<String> = Vec::new();
    let mut i: usize = 0;
    while i < n
        invariant
            i <= n,
            n == m@.len(),
            r@.len() == i,
            forall|k: int| 0 <= k < i ==> (#[trigger] r@[k])@ == m@[k].0@,
        decreases n - i,
    {
        r.push(m[i].0.clone());
        i += 1;
    }
    proof {
        assert(strings_v(r@) =~= obj_keys(mviews(m@)));
    }
    r
}

fn parse_str_pairs(m: &Vec<(String, Json)>, k: usize) -> (r: Option<Vec<(String, String)>>)
    requires
        k <= m@.len(),
    ensures
        (r is Some) == (str_pairs_from(mviews(m@).skip(k as int)) is Some),
        r matches Some(p) ==> str_pairs_from(mviews(m@).skip(k as int)) == Some(pairs_v(p@)),
    decreases m@.len() - k,
{
    if k == m.len() {
        let p: Vec<(String, String)> = Vec::new();
        proof {
            assert(mviews(m@).skip(k as int) =~= Seq::<(Seq<char>, JsonV)>::empty());
            assert(pairs_v(p@) =~= Seq::<(Seq<char>, Seq<char>)>::empty());
        }
        return Some(p);
    }
    proof {
        assert(mviews(m@).skip(k as int)[0] == mviews(m@)[k as int]);
        assert(mviews(m@).skip(k as int).skip(1) =~= mviews(m@).skip(k as int + 1));
    }
    let value = match &m[k].1 {
        Json::Str(s) => s.clone(),
        _ => { return None },
    };
    match parse_str_pairs(m, k + 1) {
        Some(mut t) => {
            t.insert(0, (m[k].0.clone(), value));
            proof {
                let g = str_pairs_from(mviews(m@).skip(k as int))->Some_0;
                assert(pairs_v(t@) =~= g);
            }
            Some(t)
        },
        None => None,
    }
}

fn parse_accounts(m: &Vec<(String, Json)>, k: usize) -> (r: Option<Vec<(String, Vec<String>)>>)
    requires
        k <= m@.len(),
    ensures
        (r is Some) == (accounts_from(mviews(m@).skip(k as int)) is Some),
        r matches Some(p) ==> accounts_from(mviews(m@).skip(k as int)) == Some(accounts_v(p@)),
    decreases m@.len() - k,
{
    if k == m.len() {
        let p: Vec<(String, Vec<String>)> = Vec::new();
        proof {
            assert(mviews(m@).skip(k as int) =~= Seq::<(Seq<char>, JsonV)>::empty());
            assert(accounts_v(p@) =~= Seq::<(Seq<char>, Seq<Seq<char>>)>::empty());
        }
        return Some(p);
    }
    proof {
        assert(mviews(m@).skip(k as int)[0] == mviews(m@)[k as int]);
        assert(mviews(m@).skip(k as int).skip(1) =~= mviews(m@).skip(k as int + 1));
    }
    let caps: Vec<String> = match &m[k].1 {
        Json::Obj(am) => match (&m[k].1).get("accountCapabilities") {
            Some(cj) => match cj {
                Json::Obj(cm) => keys_of(cm),
                _ => { return None },
            },
            None => Vec::new(),
        },
        _ => { return None },
    };
    proof {
        assert(account_caps(mviews(m@)[k as int].1) == Some(strings_v(caps@)));
    }
    match parse_accounts(m, k + 1) {
        Some(mut t) => {
            t.insert(0, (m[k].0.clone(), caps));
            proof {
                let g = accounts_from(mviews(m@).skip(k as int))->Some_0;
                assert(accounts_v(t@) =~= g);
            }
            Some(t)
        },
        None => None,
    }
}

impl Session {
    /// Parse a session document; any missing or ill-typed required field
    /// fails the whole call with `MalformedSession`.
    pub fn parse(s: &str) -> (r: Result<Session, Error>)
        ensures
            (r is Ok) == (sp_doc(s@) matches Some(v) && session_from_json(v) is Some),
            r matches Ok(b) ==> (sp_doc(s@) matches Some(v) && session_from_json(v) == Some(b@)),
            r matches Err(e) ==> e is MalformedSession,
    {
        let doc = match Json::parse_text(s) {
            Some(d) => d,
            None => { return Err(Error::MalformedSession) },
        };
        let api_url = match get_str(&doc, "apiUrl") {
            Some(v) => v,
            None => { return Err(Error::MalformedSession) },
        };
        let download_url = match get_str(&doc, "downloadUrl") {
            Some(v) => v,
            None => { return Err(Error::MalformedSession) },
        };
        let upload_url = match get_str(&doc, "uploadUrl") {
            Some(v) => v,
            None => { return Err(Error::MalformedSession) },
        };
        let event_source_url = match get_str(&doc, "eventSourceUrl") {
            Some(v) => v,
            None => { return Err(Error::MalformedSession) },
        };
        let state = match get_str(&doc, "state") {
            Some(v) => v,
            None => { return Err(Error::MalformedSession) },
        };
        let primary_accounts = match doc.get("primaryAccounts") {
            Some(pj) => match pj {
                Json::Obj(pm) => {
                    proof {
                        assert(mviews(pm@).skip(0) =~= mviews(pm@));
                    }
                    match parse_str_pairs(pm, 0) {
                        Some(p) => p,
                        None => { return Err(Error::MalformedSession) },
                    }
                },
                _ => { return Err(Error::MalformedSession) },
            },
            None => { return Err(Error::MalformedSession) },
        };
        let accounts = match doc.get("accounts") {
            Some(aj) => match aj {
                Json::Obj(am) => {
                    proof {
                        assert(mviews(am@).skip(0) =~= mviews(am@));
                    }
                    match parse_accounts(am, 0) {
                        Some(a) => a,
                        None => { return Err(Error::MalformedSession) },
                    }
                },
                _ => { return Err(Error::MalformedSession) },
            },
            None => { return Err(Error::MalformedSession) },
        };
        Ok(
            Session {
                api_url,
                download_url,
                upload_url,
                event_source_url,
                accounts,
                primary_accounts,
                state,
            },
        )
    }

    /// The endpoint batches are posted to.
    pub fn api_url(&self) -> (r: &str)
        ensures
            r@ == self@.api_url,
    {
        self.api_url.as_str()
    }

    /// The blob download URL template.
    pub fn download_url(&self) -> (r: &str)
        ensures
            r@ == self@.download_url,
    {
        self.download_url.as_str()
    }

    /// The blob upload URL template.
    pub fn upload_url(&self) -> (r: &str)
        ensures
            r@ == self@.upload_url,
    {
        self.upload_url.as_str()
    }

    /// The event-stream URL template.
    pub fn event_source_url(&self) -> (r: &str)
        ensures
            r@ == self@.event_source_url,
    {
        self.event_source_url.as_str()
    }

    /// The opaque session-state token; compared for equality only.
    pub fn state(&self) -> (r: &str)
        ensures
            r@ == self@.state,
    {
        self.state.as_str()
    }

    /// The (capability URI, account id) pairs naming each capability's
    /// primary account, in document order.
    pub fn primary_accounts(&self) -> (r: &Vec<(String, String)>)
        ensures
            pairs_v(r@) == self@.primary_accounts,
    {
        &self.primary_accounts
    }

    /// The (account id, capability set) pairs, in document order.
    pub fn accounts(&self) -> (r: &Vec<(String, Vec<String>)>)
        ensures
            accounts_v(r@) == self@.accounts,
    {
        &self.accounts
    }
}

} // verus!
