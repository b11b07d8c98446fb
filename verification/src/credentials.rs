//! Authentication material: either a basic-auth pair, kept in its encoded
//! form, or a bearer token.

use crate::text::push_char;
use vstd::prelude::*;
use vstd::string::*;

verus! {

/// Credentials for the `Authorization` header.
pub enum Credentials {
    Basic(String),
    Bearer(String),
}

/// What base64 makes of a string's UTF-8 bytes; a function of the string
/// alone.
pub uninterp spec fn base64_of(s: Seq<char>) -> Seq<char>;

/// Relies on `base64::encode`: the standard-alphabet, padded encoding of
/// the argument's UTF-8 bytes, depending on the argument alone.
#[verifier::external_body]
fn base64_encode(s: &str) -> (r: String)
    ensures
        r@ == base64_of(s@),
{
    base64::encode(s)
}

impl Credentials {
    /// Basic credentials: the encoded `username:password` pair.
    pub fn basic(username: &str, password: &str) -> (r: Credentials)
        ensures
            r is Basic,
            r->Basic_0@ == base64_of(username@ + seq![':'] + password@),
    {
        let mut joined = String::new();
        joined.append(username);
        push_char(&mut joined, ':');
        joined.append(password);
        proof {
            assert(joined@ =~= username@ + seq![':'] + password@);
        }
        Credentials::Basic(base64_encode(joined.as_str()))
    }

    /// Bearer credentials holding the given token.
    pub fn bearer(token: String) -> (r: Credentials)
        ensures
            r is Bearer,
            r->Bearer_0 == token,
    {
        Credentials::Bearer(token)
    }

    /// The value of the `Authorization` header these credentials call for.
    pub fn authorization(&self) -> (r: String)
        ensures
            self is Basic ==> r@ == "Basic "@ + self->Basic_0@,
            self is Bearer ==> r@ == "Bearer "@ + self->Bearer_0@,
    {
        match self {
            Credentials::Basic(s) => String::from_str("Basic ").concat(s.as_str()),
            Credentials::Bearer(s) => String::from_str("Bearer ").concat(s.as_str()),
        }
    }
}

} // verus!
