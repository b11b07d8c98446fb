//! The client core: the cached session snapshot with its pre-parsed URL
//! templates, the staleness flag, and the pure decisions of one
//! request/response exchange — response classification and session-state
//! comparison.  The HTTP transport itself stays outside the library; it
//! hands response bodies in and takes serialized batches out.

use crate::json::{obj_lookup, sp_doc, Json, JsonV};
use crate::request::Request;
use crate::session::{session_from_json, Session};
use crate::template::{parts_view, tparse, URLPart};
use crate::text::{dec_val, is_status_text, parse_status};
use crate::{Error, ProblemDetails};
use vstd::prelude::*;
use vstd::string::*;

verus! {

/// Model of a problem document.
pub struct ProblemDetailsV {
    pub problem_type: Option<Seq<char>>,
    pub title: Option<Seq<char>>,
    pub status: Option<int>,
}

impl View for ProblemDetails {
    type V = ProblemDetailsV;

    open spec fn view(&self) -> ProblemDetailsV {
        ProblemDetailsV {
            problem_type: match self.problem_type {
                Some(ref s) => Some(s@),
                None => None,
            },
            title: match self.title {
                Some(ref s) => Some(s@),
                None => None,
            },
            status: match self.status {
                Some(st) => Some(st as int),
                None => None,
            },
        }
    }
}

/// What a problem document carries, member by member; each member is kept
/// only when present with the expected shape.
pub open spec fn problem_from_json(m: Seq<(Seq<char>, JsonV)>) -> ProblemDetailsV {
    ProblemDetailsV {
        problem_type: match obj_lookup(m, "type"@) {
            Some(JsonV::Str(s)) => Some(s),
            _ => None,
        },
        title: match obj_lookup(m, "title"@) {
            Some(JsonV::Str(s)) => Some(s),
            _ => None,
        },
        status: match obj_lookup(m, "status"@) {
            Some(JsonV::Num(t)) => if is_status_text(t) {
                Some(dec_val(t))
            } else {
                None
            },
            _ => None,
        },
    }
}

/// A success status at the HTTP level.
pub open spec fn is_success(status: u16) -> bool {
    200 <= status < 300
}

/// The response body parses as a problem document: a JSON object.
pub open spec fn problem_doc_of(body: Seq<char>) -> Option<Seq<(Seq<char>, JsonV)>> {
    match sp_doc(body) {
        Some(JsonV::Obj(m)) => Some(m),
        _ => None,
    }
}

/// Classify one HTTP response, as the transport hands it over: a success
/// status passes; a failure with a problem-document content type carries
/// the parsed problem, or `MalformedResponse` when its body is not an
/// object; any other failure carries the bare status code.
pub fn classify_response(status: u16, problem_json: bool, body: &str) -> (r: Result<(), Error>)
    ensures
        (r is Ok) == is_success(status),
        (!is_success(status) && !problem_json) ==> (r matches Err(e) && e matches Error::Server(c)
            && c == status),
        (!is_success(status) && problem_json && problem_doc_of(body@) is Some) ==> (r matches Err(
            e,
        ) && e matches Error::Problem(p) && p@ == problem_from_json(problem_doc_of(body@)->Some_0)),
        (!is_success(status) && problem_json && problem_doc_of(body@) is None) ==> (r matches Err(
            e,
        ) && e is MalformedResponse),
{
    if 200 <= status && status < 300 {
        return Ok(());
    }
    if !problem_json {
        return Err(Error::Server(status));
    }
    let doc = match Json::parse_text(body) {
        Some(d) => d,
        None => { return Err(Error::MalformedResponse) },
    };
    match &doc {
        Json::Obj(_) => {},
        _ => { return Err(Error::MalformedResponse) },
    }
    let problem_type = match doc.get("type") {
        Some(j) => match j.as_string() {
            Some(s) => Some(s.clone()),
            None => None,
        },
        None => None,
    };
    let title = match doc.get("title") {
        Some(j) => match j.as_string() {
            Some(s) => Some(s.clone()),
            None => None,
        },
        None => None,
    };
    let status_field = match doc.get("status") {
        Some(j) => match j {
            Json::Num(t) => parse_status(t.as_str()),
            _ => None,
        },
        None => None,
    };
    Err(Error::Problem(ProblemDetails { problem_type, title, status: status_field }))
}

/// The cached session and the per-client configuration.  The flag
/// `session_outdated` is advisory: it records that a response echoed a
/// session-state token differing from the cached one, and only an explicit
/// session replacement clears it.
pub struct Client {
    pub session: Session,
    pub session_url: String,
    pub session_outdated: bool,
    pub download_url: Vec<URLPart>,
    pub upload_url: Vec<URLPart>,
    pub event_source_url: Vec<URLPart>,
    pub timeout: u64,
    pub default_account_id: String,
    pub headers: Vec<(String, String)>,
}

/// The default request timeout, in milliseconds.
pub open spec fn default_timeout_ms() -> u64 {
    10000
}

/// A session text from which a client can be built: the document parses as
/// a session and its three endpoint templates parse.
pub open spec fn session_text_ok(s: Seq<char>) -> bool {
    sp_doc(s) matches Some(v) && session_from_json(v) matches Some(sv) && tparse(
        sv.download_url,
        0,
    ) is Some && tparse(sv.upload_url, 0) is Some && tparse(sv.event_source_url, 0) is Some
}

/// The session a good session text describes.
pub open spec fn session_of_text(s: Seq<char>) -> crate::session::SessionV {
    session_from_json(sp_doc(s)->Some_0)->Some_0
}

/// The account id a fresh client starts with: the first primary account,
/// or empty when there is none.
pub open spec fn first_primary(sv: crate::session::SessionV) -> Seq<char> {
    if sv.primary_accounts.len() > 0 {
        sv.primary_accounts[0].1
    } else {
        Seq::empty()
    }
}

impl Client {
    /// Build a client from a fetched session document (the compute half of
    /// connecting; the transport fetches the text).  Parses the session and
    /// its three URL templates, caches them, picks the first primary
    /// account as default, and starts fresh: flag down, default timeout.
    pub fn from_session_text(session_text: &str, session_url: String) -> (r: Result<Client, Error>)
        ensures
            (r is Ok) == session_text_ok(session_text@),
            r matches Ok(c) ==> ({
                let sv = session_of_text(session_text@);
                c.session@ == sv && c.session_url@ == session_url@ && c.session_outdated == false
                    && parts_view(c.download_url@) == tparse(sv.download_url, 0)->Some_0
                    && parts_view(c.upload_url@) == tparse(sv.upload_url, 0)->Some_0
                    && parts_view(c.event_source_url@) == tparse(sv.event_source_url, 0)->Some_0
                    && c.timeout == default_timeout_ms()
                    && c.default_account_id@ == first_primary(sv)
                    && c.headers@.len() == 0
            }),
            r matches Err(e) ==> (e is MalformedSession || e is MalformedTemplate),
    {
        let session = match Session::parse(session_text) {
            Ok(s) => s,
            Err(e) => { return Err(e) },
        };
        let download_url = match URLPart::parse(session.download_url()) {
            Ok(p) => p,
            Err(e) => { return Err(e) },
        };
        let upload_url = match URLPart::parse(session.upload_url()) {
            Ok(p) => p,
            Err(e) => { return Err(e) },
        };
        let event_source_url = match URLPart::parse(session.event_source_url()) {
            Ok(p) => p,
            Err(e) => { return Err(e) },
        };
        let pa = session.primary_accounts();
        let default_account_id: String = if pa.len() > 0 {
            pa[0].1.clone()
        } else {
            String::new()
        };
        proof {
            let sv = session_of_text(session_text@);
            if sv.primary_accounts.len() > 0 {
                assert(crate::session::pairs_v(session.primary_accounts@)[0]
                    == (session.primary_accounts@[0].0@, session.primary_accounts@[0].1@));
            }
        }
        Ok(
            Client {
                session,
                session_url,
                session_outdated: false,
                download_url,
                upload_url,
                event_source_url,
                timeout: 10000,
                default_account_id,
                headers: Vec::new(),
            },
        )
    }

    /// Replace the cached session wholesale from a re-fetched session
    /// document and clear the staleness flag (the compute half of a
    /// refresh).  On failure nothing changes: no partial replacement.
    pub fn replace_session(&mut self, session_text: &str) -> (r: Result<(), Error>)
        ensures
            (r is Ok) == session_text_ok(session_text@),
            r is Ok ==> ({
                let sv = session_of_text(session_text@);
                final(self).session@ == sv
                    && final(self).session_outdated == false
                    && parts_view(final(self).download_url@) == tparse(sv.download_url, 0)->Some_0
                    && parts_view(final(self).upload_url@) == tparse(sv.upload_url, 0)->Some_0
                    && parts_view(final(self).event_source_url@)
                        == tparse(sv.event_source_url, 0)->Some_0
                    && final(self).session_url == old(self).session_url
                    && final(self).timeout == old(self).timeout
                    && final(self).default_account_id == old(self).default_account_id
                    && final(self).headers == old(self).headers
            }),
            r matches Err(e) ==> (e is MalformedSession || e is MalformedTemplate) && *final(self)
                == *old(self),
    {
        let session = match Session::parse(session_text) {
            Ok(s) => s,
            Err(e) => { return Err(e) },
        };
        let download_url = match URLPart::parse(session.download_url()) {
            Ok(p) => p,
            Err(e) => { return Err(e) },
        };
        let upload_url = match URLPart::parse(session.upload_url()) {
            Ok(p) => p,
            Err(e) => { return Err(e) },
        };
        let event_source_url = match URLPart::parse(session.event_source_url()) {
            Ok(p) => p,
            Err(e) => { return Err(e) },
        };
        self.session = session;
        self.download_url = download_url;
        self.upload_url = upload_url;
        self.event_source_url = event_source_url;
        self.session_outdated = false;
        Ok(())
    }

    /// Record the session-state token a response echoed: a token equal to
    /// the cached one leaves the flag as it is, a differing one raises it;
    /// nothing else changes (the compute half of a send).
    pub fn apply_response_state(&mut self, response_state: &str)
        ensures
            final(self).session_outdated == (old(self).session_outdated || response_state@ != old(self).session@.state),
            final(self).session == old(self).session,
            final(self).session_url == old(self).session_url,
            final(self).download_url == old(self).download_url,
            final(self).upload_url == old(self).upload_url,
            final(self).event_source_url == old(self).event_source_url,
            final(self).timeout == old(self).timeout,
            final(self).default_account_id == old(self).default_account_id,
            final(self).headers == old(self).headers,
    {
        if !crate::text::str_eq(response_state, self.session.state()) {
            self.session_outdated = true;
        }
    }

    /// Whether the cached session still matches what the server last
    /// echoed.
    pub fn is_session_updated(&self) -> (r: bool)
        ensures
            r == !self.session_outdated,
    {
        !self.session_outdated
    }

    /// The cached session snapshot.
    pub fn session(&self) -> (r: &Session)
        ensures
            r == &self.session,
    {
        &self.session
    }

    /// The URL the session was fetched from.
    pub fn session_url(&self) -> (r: &str)
        ensures
            r@ == self.session_url@,
    {
        self.session_url.as_str()
    }

    /// The request timeout in milliseconds.
    pub fn timeout(&self) -> (r: u64)
        ensures
            r == self.timeout,
    {
        self.timeout
    }

    /// Change the request timeout.
    pub fn set_timeout(&mut self, timeout: u64)
        ensures
            final(self).timeout == timeout,
            final(self).session == old(self).session,
            final(self).session_url == old(self).session_url,
            final(self).session_outdated == old(self).session_outdated,
            final(self).download_url == old(self).download_url,
            final(self).upload_url == old(self).upload_url,
            final(self).event_source_url == old(self).event_source_url,
            final(self).default_account_id == old(self).default_account_id,
            final(self).headers == old(self).headers,
    {
        self.timeout = timeout;
    }

    /// The account id used when a call names none.
    pub fn default_account_id(&self) -> (r: &str)
        ensures
            r@ == self.default_account_id@,
    {
        self.default_account_id.as_str()
    }

    /// Change the default account id.
    pub fn set_default_account_id(&mut self, default_account_id: String)
        ensures
            final(self).default_account_id == default_account_id,
            final(self).session == old(self).session,
            final(self).session_url == old(self).session_url,
            final(self).session_outdated == old(self).session_outdated,
            final(self).download_url == old(self).download_url,
            final(self).upload_url == old(self).upload_url,
            final(self).event_source_url == old(self).event_source_url,
            final(self).timeout == old(self).timeout,
            final(self).headers == old(self).headers,
    {
        self.default_account_id = default_account_id;
    }

    /// The additional static headers sent with every request.
    pub fn headers(&self) -> (r: &Vec<(String, String)>)
        ensures
            r == &self.headers,
    {
        &self.headers
    }

    /// Add one static header to send with every request.
    pub fn add_header(&mut self, name: String, value: String)
        ensures
            final(self).headers@ == old(self).headers@.push((name, value)),
            final(self).session == old(self).session,
            final(self).session_url == old(self).session_url,
            final(self).session_outdated == old(self).session_outdated,
            final(self).download_url == old(self).download_url,
            final(self).upload_url == old(self).upload_url,
            final(self).event_source_url == old(self).event_source_url,
            final(self).timeout == old(self).timeout,
            final(self).default_account_id == old(self).default_account_id,
    {
        self.headers.push((name, value));
    }

    /// A fresh batch to fill and send.
    pub fn build(&self) -> (r: Request)
        ensures
            r@.using == seq![crate::request::core_capability()],
            r@.method_calls.len() == 0,
            r.next_call_id == 0,
    {
        Request::new()
    }

    /// The pre-parsed blob download template.
    pub fn download_url(&self) -> (r: &Vec<URLPart>)
        ensures
            r == &self.download_url,
    {
        &self.download_url
    }

    /// The pre-parsed blob upload template.
    pub fn upload_url(&self) -> (r: &Vec<URLPart>)
        ensures
            r == &self.upload_url,
    {
        &self.upload_url
    }

    /// The pre-parsed event-stream template.
    pub fn event_source_url(&self) -> (r: &Vec<URLPart>)
        ensures
            r == &self.event_source_url,
    {
        &self.event_source_url
    }
}

} // verus!
