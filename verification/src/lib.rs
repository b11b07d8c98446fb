//! Client-side core of a batch-oriented JSON RPC protocol in the JMAP style.
//!
//! One HTTP exchange carries an ordered batch of named method calls, each
//! tagged with a caller-chosen call id; later calls may reference results of
//! earlier ones through structured back-references.  This crate holds the
//! verified core: wire-format construction and parsing, request assembly,
//! response correlation, session modelling, URL template expansion, and the
//! session-staleness bookkeeping.  Transport (HTTP) stays outside.

pub mod client;
pub mod credentials;
pub mod email;
pub mod json;
pub mod query;
pub mod request;
pub mod response;
pub mod session;
pub mod template;
pub mod text;

use vstd::prelude::*;

verus! {

/// A structured problem document returned by the server in place of a result.
#[derive(Debug)]
pub struct ProblemDetails {
    /// URI identifying the problem type, when the server supplied one.
    pub problem_type: Option<String>,
    /// Human-readable summary, when the server supplied one.
    pub title: Option<String>,
    /// HTTP status code echoed inside the document, when supplied.
    pub status: Option<u16>,
}

/// Everything that can go wrong in one request/response round trip.
#[derive(Debug)]
pub enum Error {
    /// Network, connection or timeout failure; detail is free text.
    Transport(String),
    /// The session document did not have the required shape.
    MalformedSession,
    /// The batch response did not have the required shape.
    MalformedResponse,
    /// A URL template used unsupported syntax.
    MalformedTemplate,
    /// The server rejected the request with a structured problem document.
    Problem(ProblemDetails),
    /// Non-success status without a recognized problem document.
    Server(u16),
    /// Template expansion was given no value for a required variable.
    MissingVariable(String),
}

} // verus!
