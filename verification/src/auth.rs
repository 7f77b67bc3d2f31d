//! The session token service and the two request-time identity extractions
//! built on it.
//!
//! A token is a signed, self-contained claim set `{id, exp}`: the subject's
//! identity and an absolute expiry timestamp. It is valid exactly when its
//! signature verifies against the process-wide secret key and its expiry is
//! strictly in the future.

use vstd::prelude::*;
use crate::error::Error;

verus! {

/// How long an issued token stays valid, in seconds: two weeks.
pub const SESSION_SECONDS: i64 = 1209600;

/// Why a token failed verification: the signature does not verify or the
/// structure is malformed (`Invalid`), or the claims are authentic but the
/// expiry has passed (`Expired`).
#[derive(PartialEq, Eq, Structural, Clone, Copy, Debug)]
pub enum AuthError {
    Invalid,
    Expired,
}

/// A verified request identity.
#[derive(PartialEq, Eq, Structural, Clone, Copy, Debug)]
pub struct AuthUser {
    pub id: i64,
}

/// An optional request identity: `None` when the request carried no usable
/// credential.
pub struct MaybeAuthUser(pub Option<AuthUser>);

/// The token string that signing the claim set `{id, exp}` with `key`
/// produces. Its exact shape is the signing library's business; issuing and
/// verifying speak of it through this name.
pub uninterp spec fn token_of(id: i64, exp: i64, key: Seq<u8>) -> Seq<char>;

/// The claim set that verifying `token` against `key` yields: `None` when
/// the token is malformed or its signature does not match `key`, otherwise
/// the `(id, exp)` pair the token carries. Verification is a pure
/// computation; the clock check is layered on top of it, not inside it.
pub uninterp spec fn claims_of(token: Seq<char>, key: Seq<u8>) -> Option<(i64, i64)>;

/// Relies on `jsonwebtoken::encode` with an HS256 header and
/// `EncodingKey::from_secret`: it signs the claim set `{id, exp}`, and
/// `jsonwebtoken::decode` with the same key recovers exactly those claims.
/// The claims sit in an ordered map, so their serialization — and with it
/// the whole token — is a function of the arguments alone. With an HMAC key
/// and defaulted header the signing step cannot fail.
#[verifier::external_body]
fn jwt_encode(id: i64, exp: i64, key: &[u8]) -> (token: String)
    ensures
        token@ == token_of(id, exp, key@),
        claims_of(token@, key@) == Some((id, exp)),
{
    let mut claims = std::collections::BTreeMap::new();
    claims.insert("id".to_string(), id);
    claims.insert("exp".to_string(), exp);
    jsonwebtoken::encode(
        &jsonwebtoken::Header::default(),
        &claims,
        &jsonwebtoken::EncodingKey::from_secret(key),
    ).expect("HMAC signing of a plain claim map cannot fail")
}

/// Relies on `jsonwebtoken::decode` with HS256 and
/// `DecodingKey::from_secret`: it checks the signature and parses the claim
/// set, a pure function of the token and the key once expiry validation is
/// switched off (the library checks expiry itself, against an explicit
/// clock).
#[verifier::external_body]
fn jwt_decode(token: &str, key: &[u8]) -> (r: Option<(i64, i64)>)
    ensures
        r == claims_of(token@, key@),
{
    let mut validation = jsonwebtoken::Validation::new(jsonwebtoken::Algorithm::HS256);
    validation.validate_exp = false;
    validation.required_spec_claims = std::collections::HashSet::new();
    let key = jsonwebtoken::DecodingKey::from_secret(key);
    match jsonwebtoken::decode::<std::collections::BTreeMap<String, i64>>(token, &key, &validation) {
        Ok(data) => match (data.claims.get("id"), data.claims.get("exp")) {
            (Some(id), Some(exp)) => Some((*id, *exp)),
            _ => None,
        },
        Err(_) => None,
    }
}

/// What verifying `token` against `key` at time `now` yields: `Invalid` when
/// the claims do not authenticate, `Expired` when they do but the expiry is
/// not strictly in the future, and the subject's identity otherwise.
pub open spec fn spec_verify(token: Seq<char>, key: Seq<u8>, now: i64) -> Result<i64, AuthError> {
    match claims_of(token, key) {
        None => Err(AuthError::Invalid),
        Some((id, exp)) => if exp > now {
            Ok(id)
        } else {
            Err(AuthError::Expired)
        },
    }
}

/// Issues a token for `id`, expiring `SESSION_SECONDS` after `now`. Any
/// verification of the fresh token against the same key before that expiry
/// yields `id` back.
pub fn issue(id: i64, key: &[u8], now: i64) -> (token: String)
    requires
        now + SESSION_SECONDS <= i64::MAX,
    ensures
        token@ == token_of(id, (now + SESSION_SECONDS) as i64, key@),
        claims_of(token@, key@) == Some((id, (now + SESSION_SECONDS) as i64)),
        forall|t: i64| t < now + SESSION_SECONDS ==> spec_verify(token@, key@, t) == Ok::<
            i64,
            AuthError,
        >(id),
{
    jwt_encode(id, now + SESSION_SECONDS, key)
}

/// Verifies a token: checks its signature and claims against `key`, then its
/// expiry against `now`. A token whose expiry has passed always fails, with
/// `Expired` when its signature is authentic, regardless of anything else.
pub fn verify(token: &str, key: &[u8], now: i64) -> (r: Result<i64, AuthError>)
    ensures
        r == spec_verify(token@, key@, now),
        match claims_of(token@, key@) {
            None => r == Err::<i64, AuthError>(AuthError::Invalid),
            Some((id, exp)) => exp <= now ==> r == Err::<i64, AuthError>(AuthError::Expired),
        },
{
    match jwt_decode(token, key) {
        None => Err(AuthError::Invalid),
        Some((id, exp)) => if exp > now {
            Ok(id)
        } else {
            Err(AuthError::Expired)
        },
    }
}

/// A token whose expiry has passed always fails verification, regardless of
/// signature validity: authentic claims past their expiry fail as `Expired`,
/// and claims that do not authenticate fail anyway, as `Invalid`.
pub proof fn lemma_expired_token_fails(token: Seq<char>, key: Seq<u8>, now: i64)
    requires
        match claims_of(token, key) {
            Some((id, exp)) => exp <= now,
            None => true,
        },
    ensures
        spec_verify(token, key, now) is Err,
        claims_of(token, key) is Some ==> spec_verify(token, key, now) == Err::<i64, AuthError>(
            AuthError::Expired,
        ),
{
}

/// The scheme prefix a bearer credential must start with.
pub open spec fn spec_bearer_prefix() -> Seq<char> {
    seq!['B', 'e', 'a', 'r', 'e', 'r', ' ']
}

/// Whether a header value uses the bearer scheme.
pub open spec fn has_bearer_prefix(h: Seq<char>) -> bool {
    h.len() >= 7 && h.subrange(0, 7) == spec_bearer_prefix()
}

/// The token part of a bearer header value: what follows the scheme prefix.
pub open spec fn bearer_token(h: Seq<char>) -> Seq<char>
    recommends
        has_bearer_prefix(h),
{
    h.subrange(7, h.len() as int)
}

/// What the mandatory extraction yields for a request: `Unauthorized` when
/// the header is absent or does not use the bearer scheme, or when the token
/// fails verification for any reason; the identity otherwise.
pub open spec fn spec_extract(header: Option<Seq<char>>, key: Seq<u8>, now: i64) -> Result<
    AuthUser,
    Error,
> {
    match header {
        None => Err(Error::Unauthorized),
        Some(h) => if !has_bearer_prefix(h) {
            Err(Error::Unauthorized)
        } else {
            match spec_verify(bearer_token(h), key, now) {
                Ok(id) => Ok(AuthUser { id }),
                Err(_) => Err(Error::Unauthorized),
            }
        },
    }
}

impl AuthUser {
    /// Issues a fresh token naming this identity; the spelled-out form of
    /// `issue` for an already-extracted user.
    pub fn to_jwt(&self, key: &[u8], now: i64) -> (token: String)
        requires
            now + SESSION_SECONDS <= i64::MAX,
        ensures
            token@ == token_of(self.id, (now + SESSION_SECONDS) as i64, key@),
            claims_of(token@, key@) == Some((self.id, (now + SESSION_SECONDS) as i64)),
    {
        issue(self.id, key, now)
    }

    /// The mandatory extraction: reads a single bearer-scheme credential from
    /// the request's authorization header (`None` when the header is absent
    /// or is not valid text) and rejects the request when no identity can be
    /// established.
    pub fn from_authorization(header: Option<&str>, key: &[u8], now: i64) -> (r: Result<
        AuthUser,
        Error,
    >)
        ensures
            r == spec_extract(
                match header {
                    Some(h) => Some(h@),
                    None => None,
                },
                key@,
                now,
            ),
    {
        let h = match header {
            None => {
                return Err(Error::Unauthorized);
            },
            Some(h) => h,
        };
        let n = h.unicode_len();
        if n < 7 {
            return Err(Error::Unauthorized);
        }
        if h.get_char(0) != 'B' || h.get_char(1) != 'e' || h.get_char(2) != 'a' || h.get_char(3)
            != 'r' || h.get_char(4) != 'e' || h.get_char(5) != 'r' || h.get_char(6) != ' ' {
            proof {
                assert(!has_bearer_prefix(h@));
            }
            return Err(Error::Unauthorized);
        }
        proof {
            assert(h@.subrange(0, 7) =~= spec_bearer_prefix());
        }
        let token = h.substring_char(7, n);
        match verify(token, key, now) {
            Ok(id) => Ok(AuthUser { id }),
            Err(_) => Err(Error::Unauthorized),
        }
    }
}

impl MaybeAuthUser {
    /// The identity this optional extraction carries, if any.
    pub fn id(&self) -> (r: Option<i64>)
        ensures
            r == match self.0 {
                Some(u) => Some(u.id),
                None => None::<i64>,
            },
    {
        match &self.0 {
            Some(u) => Some(u.id),
            None => None,
        }
    }

    /// The optional extraction: identical to the mandatory one, but an
    /// absent, malformed or unverifiable credential degrades to "no
    /// identity" instead of failing the request.
    pub fn from_authorization(header: Option<&str>, key: &[u8], now: i64) -> (r: MaybeAuthUser)
        ensures
            r.0 == match spec_extract(
                match header {
                    Some(h) => Some(h@),
                    None => None,
                },
                key@,
                now,
            ) {
                Ok(u) => Some(u),
                Err(_) => None::<AuthUser>,
            },
    {
        match AuthUser::from_authorization(header, key, now) {
            Ok(u) => MaybeAuthUser(Some(u)),
            Err(_) => MaybeAuthUser(None),
        }
    }
}

} // verus!
