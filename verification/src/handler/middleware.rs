//! Bearer-token authorization and the JSON response envelope. A request is
//! authorized when its first `Bearer` header value verifies against the HMAC
//! secret and its expiry has not passed; every response body is wrapped in
//! `{ok, error_code?, description?, result?}`.

use vstd::prelude::*;
use vstd::string::*;

use crate::json::json_escaped;
use crate::strutil::i64_str_val;
use crate::strutil::i64_str_wf;
use crate::strutil::parse_i64;
use crate::strutil::starts_with;
use crate::strutil::str_starts_with;
use crate::strutil::u64_dec;
use crate::strutil::u64_to_string;

verus! {

/// The signed bearer token issued for a secret and the claims
/// `{"iat", "exp", "username"}`: a pure function of the four strings,
/// computed by the token library.
pub uninterp spec fn token_of(
    secret: Seq<char>,
    iat: Seq<char>,
    exp: Seq<char>,
    username: Seq<char>,
) -> Seq<char>;

/// Whether the token library accepts this token under this secret — its
/// HMAC-SHA256 signature verifies and its claims carry `iat`, `exp` and
/// `username`: a pure function of the two strings.
pub uninterp spec fn token_accepted(secret: Seq<char>, token: Seq<char>) -> bool;

/// Whether a string is one well-formed JSON value: a pure function of the
/// string, decided by the JSON library.
pub uninterp spec fn json_wellformed(s: Seq<char>) -> bool;

/// Relies on jwt's `VerifyWithKey` over an HMAC-SHA256 key built from the
/// secret: acceptance is a pure function of the secret and the token; a token
/// signed with the same secret and claims verifies, and the claims map it
/// carries yields back exactly those claim strings.
#[verifier::external_body]
fn verify_claims(secret: &str, token: &str) -> (r: Option<(String, String, String)>)
    ensures
        r is Some <==> token_accepted(secret@, token@),
        match r {
            Some(c) => forall|i: Seq<char>, e: Seq<char>, u: Seq<char>|
                token@ == #[trigger] token_of(secret@, i, e, u) ==> c.0@ == i && c.1@ == e && c.2@
                    == u,
            None => forall|i: Seq<char>, e: Seq<char>, u: Seq<char>|
                token@ != #[trigger] token_of(secret@, i, e, u),
        },
{
    let key: hmac::Hmac<sha2::Sha256> = match hmac::Mac::new_from_slice(secret.as_bytes()) {
        Ok(k) => k,
        Err(_) => return None,
    };
    let claims: std::collections::BTreeMap<String, String> =
        match jwt::VerifyWithKey::verify_with_key(token, &key) {
            Ok(c) => c,
            Err(_) => return None,
        };
    let iat = claims.get("iat")?.clone();
    let exp = claims.get("exp")?.clone();
    let username = claims.get("username")?.clone();
    Some((iat, exp, username))
}

/// Relies on serde_json's `from_str` for `Value`: whether a string is one
/// well-formed JSON value is a function of the string alone.
#[verifier::external_body]
fn json_valid(s: &str) -> (r: bool)
    ensures
        r == json_wellformed(s@),
{
    serde_json::from_str::<serde_json::Value>(s).is_ok()
}

#[derive(PartialEq, Eq, Structural, Debug)]
pub enum AuthzError {
    /// No usable bearer token: header missing, malformed, or not verifying.
    Unauthorized,
    /// The token verified but its expiry has passed.
    Expired,
}

/// Some header value carries the `Bearer ` prefix.
pub open spec fn any_bearer(values: Seq<String>) -> bool {
    exists|i: int| 0 <= i < values.len() && starts_with((#[trigger] values[i])@, "Bearer "@)
}

/// The first header value carrying the `Bearer ` prefix.
pub open spec fn first_bearer(values: Seq<String>) -> Seq<char> {
    (values[choose|i: int|
        0 <= i < values.len() && starts_with((#[trigger] values[i])@, "Bearer "@) && (forall|j: int|
            0 <= j < i ==> !starts_with((#[trigger] values[j])@, "Bearer "@))])@
}

pub struct JwtAuthMiddleware {
    pub access_secret: String,
}

impl JwtAuthMiddleware {
    pub fn new(access_secret: &str) -> (r: Self)
        ensures
            r.access_secret@ == access_secret@,
    {
        JwtAuthMiddleware { access_secret: String::from_str(access_secret) }
    }

    /// Authorizes a request from its `Authorization` header values: the first
    /// value with the `Bearer ` prefix must verify, its `exp` claim must be a
    /// decimal number, and the expiry must not have passed; the verified
    /// username (the wallet address) comes back. For a token this service
    /// issued, the outcome is a function of its claims and `now`.
    pub fn authorize(&self, values: &Vec<String>, now: i64) -> (r: Result<String, AuthzError>)
        ensures
            !any_bearer(values@) ==> r == Result::<String, AuthzError>::Err(
                AuthzError::Unauthorized,
            ),
            // a bearer token the token library does not accept is rejected
            any_bearer(values@) && !token_accepted(
                self.access_secret@,
                first_bearer(values@).skip(7),
            ) ==> r == Result::<String, AuthzError>::Err(AuthzError::Unauthorized),
            r != Result::<String, AuthzError>::Err(AuthzError::Unauthorized) ==> any_bearer(
                values@,
            ) && token_accepted(self.access_secret@, first_bearer(values@).skip(7)),
            forall|i: Seq<char>, e: Seq<char>, u: Seq<char>|
                any_bearer(values@) && first_bearer(values@).skip(7) == #[trigger] token_of(
                    self.access_secret@,
                    i,
                    e,
                    u,
                ) ==> if !i64_str_wf(e) {
                    r == Result::<String, AuthzError>::Err(AuthzError::Unauthorized)
                } else if i64_str_val(e) < now {
                    r == Result::<String, AuthzError>::Err(AuthzError::Expired)
                } else {
                    r matches Ok(name) && name@ == u
                },
    {
        let n = values.len();
        let mut k: usize = 0;
        while k < n
            invariant
                0 <= k <= n,
                n == values@.len(),
                forall|j: int| 0 <= j < k ==> !starts_with((#[trigger] values@[j])@, "Bearer "@),
            decreases n - k,
        {
            let v = values[k].as_str();
            if str_starts_with(v, "Bearer ") {
                proof {
                    assert(any_bearer(values@));
                    let c = choose|i: int|
                        0 <= i < values@.len() && starts_with((#[trigger] values@[i])@, "Bearer "@)
                            && (forall|j: int|
                            0 <= j < i ==> !starts_with((#[trigger] values@[j])@, "Bearer "@));
                    if c < k as int {
                        assert(!starts_with(values@[c]@, "Bearer "@));
                    } else if c > k as int {
                        assert(!starts_with(values@[k as int]@, "Bearer "@));
                    }
                    assert(first_bearer(values@) == v@);
                }
                let len = v.unicode_len();
                proof {
                    reveal_strlit("Bearer ");
                }
                let token = v.substring_char(7, len);
                proof {
                    assert(token@ =~= first_bearer(values@).skip(7));
                }
                let claims = verify_claims(self.access_secret.as_str(), token);
                match claims {
                    None => {
                        return Err(AuthzError::Unauthorized);
                    },
                    Some((_iat, exp, username)) => {
                        match parse_i64(exp.as_str()) {
                            None => {
                                return Err(AuthzError::Unauthorized);
                            },
                            Some(x) => {
                                if x < now {
                                    return Err(AuthzError::Expired);
                                } else {
                                    return Ok(username);
                                }
                            },
                        }
                    },
                }
            }
            k = k + 1;
        }
        Err(AuthzError::Unauthorized)
    }
}

/// The response envelope every endpoint's answer is wrapped in.
pub struct JsonResponse {
    pub ok: bool,
    pub error_code: Option<u16>,
    pub description: Option<String>,
    /// A raw JSON value, embedded verbatim.
    pub result: Option<String>,
}

pub struct JsonResponseMiddleware {}

impl JsonResponseMiddleware {
    pub fn new() -> Self {
        JsonResponseMiddleware {}
    }

    /// Wraps a handler's successful body: passed through as the result when it
    /// is well-formed JSON, turned into an internal error otherwise.
    pub fn wrap_body(&self, body: String) -> (r: JsonResponse)
        ensures
            json_wellformed(body@) ==> r.ok && (r.result matches Some(b) && b@ == body@)
                && r.error_code is None && r.description is None,
            !json_wellformed(body@) ==> !r.ok && r.error_code == Some(500u16) && r.result is None
                && (r.description matches Some(d) && d@ == "response body is not well-formed JSON"@),
    {
        if json_valid(body.as_str()) {
            JsonResponse { ok: true, error_code: None, description: None, result: Some(body) }
        } else {
            JsonResponse {
                ok: false,
                error_code: Some(500),
                description: Some(String::from_str("response body is not well-formed JSON")),
                result: None,
            }
        }
    }

    /// Wraps a handler's error.
    pub fn wrap_error(&self, status: u16, description: String) -> (r: JsonResponse)
        ensures
            !r.ok,
            r.error_code == Some(status),
            r.description matches Some(d) && d@ == description@,
            r.result is None,
    {
        JsonResponse { ok: false, error_code: Some(status), description: Some(description), result: None }
    }
}

/// The envelope's JSON rendering: fields in declaration order, absent options
/// omitted, the result embedded raw.
pub open spec fn envelope_json(e: JsonResponse) -> Seq<char> {
    "{\"ok\":"@ + (if e.ok {
        "true"@
    } else {
        "false"@
    }) + (match e.error_code {
        Some(c) => ",\"error_code\":"@ + u64_dec(c as int),
        None => Seq::empty(),
    }) + (match e.description {
        Some(d) => ",\"description\":\""@ + json_escaped(d@) + "\""@,
        None => Seq::empty(),
    }) + (match e.result {
        Some(w) => ",\"result\":"@ + w@,
        None => Seq::empty(),
    }) + "}"@
}

pub fn envelope_to_json(e: &JsonResponse) -> (r: String)
    ensures
        r@ == envelope_json(*e),
{
    let mut out = String::from_str("{\"ok\":");
    if e.ok {
        out.append("true");
    } else {
        out.append("false");
    }
    match &e.error_code {
        Some(c) => {
            out.append(",\"error_code\":");
            let num = u64_to_string(*c as u64);
            out.append(num.as_str());
        },
        None => {},
    }
    let ghost g2 = "{\"ok\":"@ + (if e.ok {
        "true"@
    } else {
        "false"@
    }) + (match e.error_code {
        Some(c) => ",\"error_code\":"@ + u64_dec(c as int),
        None => Seq::empty(),
    });
    proof {
        assert(out@ =~= g2);
    }
    match &e.description {
        Some(d) => {
            out.append(",\"description\":\"");
            crate::json::append_escaped(&mut out, d.as_str());
            out.append("\"");
        },
        None => {},
    }
    let ghost g3 = g2 + (match &e.description {
        Some(d) => ",\"description\":\""@ + json_escaped(d@) + "\""@,
        None => Seq::empty(),
    });
    proof {
        assert(out@ =~= g3);
    }
    match &e.result {
        Some(w) => {
            out.append(",\"result\":");
            out.append(w.as_str());
        },
        None => {},
    }
    let ghost g4 = g3 + (match &e.result {
        Some(w) => ",\"result\":"@ + w@,
        None => Seq::empty(),
    });
    proof {
        assert(out@ =~= g4);
    }
    out.append("}");
    proof {
        assert(out@ =~= envelope_json(*e));
    }
    out
}

} // verus!
