use vstd::prelude::*;
use vstd::string::StringExecFns;

use crate::address::{Address, spec_parse};
use crate::table::str_eq;

verus! {

/// A lowercase hexadecimal digit.
pub open spec fn is_lower_hex(c: char) -> bool {
    ('0' <= c && c <= '9') || ('a' <= c && c <= 'f')
}

/// A nonce in the form that the gateway mints: 32 lowercase hexadecimal digits.
pub open spec fn is_nonce_form(s: Seq<char>) -> bool {
    s.len() == 32 && forall|i: int| 0 <= i < s.len() ==> is_lower_hex(#[trigger] s[i])
}

/// Relies on uuid's `Uuid::new_v4` and its `simple` format: a random version 4 UUID
/// written as 32 lowercase hexadecimal digits.
#[verifier::external_body]
fn new_nonce() -> (r: String)
    ensures
        is_nonce_form(r@),
{
    uuid::Uuid::new_v4().simple().to_string()
}

/// What the gateway decides on a request.
pub enum AuthOutcome {
    /// The address did not parse; it is given back as it came.
    Malformed(String),
    /// No shared secret was presented.
    MissingKey,
    /// The shared secret did not match.
    InvalidKey,
    /// The secret matched: bind the nonce to the address.
    Bind(Address, String),
}

/// An HTTP reply: status and body.
pub struct HttpReply {
    pub status: u16,
    pub body: String,
}

/// What the gateway decides for an address string and a presented secret, given the
/// configured secret and the nonce to bind. The address is judged first.
pub open spec fn spec_decide(
    address: Seq<char>,
    access_key: Seq<char>,
    secret: Seq<char>,
    r: AuthOutcome,
) -> bool {
    if spec_parse(address) is None {
        r matches AuthOutcome::Malformed(s) && s@ == address
    } else if access_key.len() == 0 {
        r is MissingKey
    } else if access_key != secret {
        r is InvalidKey
    } else {
        r matches AuthOutcome::Bind(a, _) && a@ == address && a.wf()
    }
}

/// Decides a request with `nonce` as the nonce to bind on success.
pub fn decide_auth(address: &str, access_key: &str, secret: &str, nonce: String) -> (r: AuthOutcome)
    ensures
        spec_decide(address@, access_key@, secret@, r),
        r matches AuthOutcome::Bind(_, n) ==> n@ == nonce@,
{
    let a = match Address::parse(address) {
        Ok(a) => a,
        Err(_) => {
            return AuthOutcome::Malformed(String::from_str(address));
        },
    };
    if access_key.unicode_len() == 0 {
        return AuthOutcome::MissingKey;
    }
    if !str_eq(access_key, secret) {
        return AuthOutcome::InvalidKey;
    }
    AuthOutcome::Bind(a, nonce)
}

/// Serves a request for a wrapper nonce: decides it, and on a matching secret mints a
/// fresh random nonce to bind.
pub fn serve_auth_wrapper_key(address: &str, access_key: &str, secret: &str) -> (r: AuthOutcome)
    ensures
        spec_decide(address@, access_key@, secret@, r),
        r matches AuthOutcome::Bind(_, n) ==> is_nonce_form(n@),
{
    let matched = Address::parse(address).is_ok() && access_key.unicode_len() > 0 && str_eq(
        access_key,
        secret,
    );
    let nonce = if matched {
        new_nonce()
    } else {
        String::new()
    };
    decide_auth(address, access_key, secret, nonce)
}

/// Status of every advisory reply and of a successful binding.
pub const STATUS_OK: u16 = 200;

/// Status of a failed binding.
pub const STATUS_BAD_REQUEST: u16 = 400;

impl AuthOutcome {
    /// The reply to a request that was not sent on to the registry; `None` for a binding.
    pub fn reply(&self) -> (r: Option<HttpReply>)
        ensures
            self is Bind <==> r is None,
            r matches Some(h) ==> h.status == STATUS_OK,
            self matches AuthOutcome::Malformed(s) ==> (r matches Some(h) && h.body@ == s@
                + " is a malformed ZeroNet address"@),
            self is MissingKey ==> (r matches Some(h) && h.body@
                == "This API is restricted, use access_key param to Authenticate, get valid wrapper key"@),
            self is InvalidKey ==> (r matches Some(h) && h.body@ == "Provided access_key is not Valid"@),
    {
        match self {
            AuthOutcome::Malformed(s) => Some(
                HttpReply {
                    status: STATUS_OK,
                    body: s.clone().concat(" is a malformed ZeroNet address"),
                },
            ),
            AuthOutcome::MissingKey => Some(
                HttpReply {
                    status: STATUS_OK,
                    body: String::from_str(
                        "This API is restricted, use access_key param to Authenticate, get valid wrapper key",
                    ),
                },
            ),
            AuthOutcome::InvalidKey => Some(
                HttpReply {
                    status: STATUS_OK,
                    body: String::from_str("Provided access_key is not Valid"),
                },
            ),
            AuthOutcome::Bind(_, _) => None,
        }
    }
}

/// The reply once the registry was asked to bind `nonce`: the nonce on success,
/// an empty bad request otherwise.
pub fn bind_reply(nonce: &str, bound: bool) -> (r: HttpReply)
    ensures
        bound ==> r.status == STATUS_OK && r.body@ == "wrapper_key="@ + nonce@,
        !bound ==> r.status == STATUS_BAD_REQUEST && r.body@.len() == 0,
{
    if bound {
        HttpReply { status: STATUS_OK, body: String::from_str("wrapper_key=").concat(nonce) }
    } else {
        HttpReply { status: STATUS_BAD_REQUEST, body: String::new() }
    }
}

} // verus!
