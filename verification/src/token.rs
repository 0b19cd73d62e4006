//! Stateless bearer-token issuance and verification.
//!
//! A token is an HS256-signed JWT whose claim set carries the subject (a user
//! id in decimal), an optional issuer, a not-before instant and an expiry.
//! Signing and signature checking call the `jwt` crate through trusted
//! wrappers; everything decided about a token — the validity window, the
//! subject parse, the anonymous fallback — is verified here.

use vstd::prelude::*;

use crate::dto::{clone_opt_string, opt_str};
use crate::numstr::{dec_digits, lemma_parse_dec_digits, parse_dec, parse_u64, u64_to_string};

verus! {

/// The claim-set view: issuer, subject, expiry and not-before.
pub struct ClaimsView {
    pub iss: Option<Seq<char>>,
    pub sub: Option<Seq<char>>,
    pub exp: Option<u64>,
    pub nbf: Option<u64>,
}

/// The claims carried by a token, as plain values.
pub struct TokenClaims {
    pub iss: Option<String>,
    pub sub: Option<String>,
    pub exp: Option<u64>,
    pub nbf: Option<u64>,
}

impl View for TokenClaims {
    type V = ClaimsView;

    open spec fn view(&self) -> ClaimsView {
        ClaimsView {
            iss: opt_str(self.iss),
            sub: opt_str(self.sub),
            exp: self.exp,
            nbf: self.nbf,
        }
    }
}

/// What checking a token string against the key can yield.
pub enum JwtOutcomeView {
    Malformed,
    BadSignature,
    Valid(ClaimsView),
}

pub enum TokenOutcome {
    Malformed,
    BadSignature,
    Valid(TokenClaims),
}

impl View for TokenOutcome {
    type V = JwtOutcomeView;

    open spec fn view(&self) -> JwtOutcomeView {
        match self {
            TokenOutcome::Malformed => JwtOutcomeView::Malformed,
            TokenOutcome::BadSignature => JwtOutcomeView::BadSignature,
            TokenOutcome::Valid(c) => JwtOutcomeView::Valid(c@),
        }
    }
}

/// The token string that signing a claim set with a key produces.
pub uninterp spec fn jwt_signed_of(claims: ClaimsView, key: Seq<char>) -> Seq<char>;

/// What parsing-and-signature-checking a token string against a key yields.
pub uninterp spec fn jwt_verify_of(raw: Seq<char>, key: Seq<char>) -> JwtOutcomeView;

/// Relies on jwt 0.16: `SignWithKey` for a `RegisteredClaims` value with an
/// `Hmac<Sha256>` key (hmac 0.12). The token is a pure function of the claim
/// set and the key bytes, and — as the crate's verify path shows — checking
/// that token with the same key parses the three components, accepts the
/// HS256 signature, and returns the same claim set. Signing cannot fail:
/// `Hmac::new_from_slice` accepts any key length, serializing a
/// `RegisteredClaims` value cannot error, and the HS256 signer is total.
#[verifier::external_body]
fn sign_claims(claims: &TokenClaims, key: &str) -> (r: Option<String>)
    ensures
        r is Some,
        r is Some ==> r->0@ == jwt_signed_of(claims@, key@),
        r is Some ==> jwt_verify_of(jwt_signed_of(claims@, key@), key@) == JwtOutcomeView::Valid(
            claims@,
        ),
{
    let hkey: hmac::Hmac<sha2::Sha256> =
        match <hmac::Hmac<sha2::Sha256> as hmac::Mac>::new_from_slice(key.as_bytes()) {
            Ok(k) => k,
            Err(_) => return None,
        };
    let reg = jwt::RegisteredClaims {
        issuer: claims.iss.clone(),
        subject: claims.sub.clone(),
        expiration: claims.exp,
        not_before: claims.nbf,
        ..Default::default()
    };
    jwt::SignWithKey::sign_with_key(reg, &hkey).ok()
}

/// Relies on jwt 0.16: `VerifyWithKey` for `&str` yielding `RegisteredClaims`
/// with an `Hmac<Sha256>` key (hmac 0.12). A signature mismatch surfaces as
/// `RustCryptoMac` (from `Mac::verify_slice`) or `InvalidSignature`; every
/// other error (missing components, bad base64, bad JSON, algorithm
/// mismatch) means the string is not a well-formed HS256 token. The outcome
/// is a pure function of the string and the key bytes.
#[verifier::external_body]
fn verify_token(raw: &str, key: &str) -> (r: TokenOutcome)
    ensures
        r@ == jwt_verify_of(raw@, key@),
{
    let hkey: hmac::Hmac<sha2::Sha256> =
        match <hmac::Hmac<sha2::Sha256> as hmac::Mac>::new_from_slice(key.as_bytes()) {
            Ok(k) => k,
            Err(_) => return TokenOutcome::Malformed,
        };
    let res: Result<jwt::RegisteredClaims, jwt::Error> =
        jwt::VerifyWithKey::verify_with_key(raw, &hkey);
    match res {
        Ok(c) => TokenOutcome::Valid(
            TokenClaims { iss: c.issuer, sub: c.subject, exp: c.expiration, nbf: c.not_before },
        ),
        Err(jwt::Error::InvalidSignature | jwt::Error::RustCryptoMac(_)) => TokenOutcome::BadSignature,
        Err(_) => TokenOutcome::Malformed,
    }
}

/// Why a token was rejected.
#[derive(Clone, Copy, Debug, PartialEq, Eq, Structural)]
pub enum TokenError {
    /// The string could not be parsed as a signed claim set.
    Malformed,
    /// The signature does not validate against the server secret.
    BadSignature,
    /// The not-before instant lies in the future.
    NotYetValid,
    /// The expiry has elapsed.
    Expired,
    /// The subject is absent or is not a decimal user id.
    InvalidSubject,
}

/// The claim set minted for subject `subject` at `now` with lifetime `ttl`.
pub open spec fn issued_claims(
    iss: Option<Seq<char>>,
    subject: u64,
    now: u64,
    ttl: u64,
) -> ClaimsView {
    ClaimsView {
        iss: iss,
        sub: Some(dec_digits(subject)),
        exp: Some((now + ttl) as u64),
        nbf: Some(now),
    }
}

/// What verification decides, given the outcome of the signature check: the
/// subject as a user id, or the first failing check in order — malformed,
/// bad signature, not yet valid, expired, unparsable subject.
pub open spec fn spec_verify(raw: Seq<char>, key: Seq<char>, now: u64) -> Result<u64, TokenError> {
    match jwt_verify_of(raw, key) {
        JwtOutcomeView::Malformed => Err(TokenError::Malformed),
        JwtOutcomeView::BadSignature => Err(TokenError::BadSignature),
        JwtOutcomeView::Valid(c) => if c.nbf is Some && now < c.nbf->0 {
            Err(TokenError::NotYetValid)
        } else if c.exp is Some && now > c.exp->0 {
            Err(TokenError::Expired)
        } else {
            match c.sub {
                None => Err(TokenError::InvalidSubject),
                Some(s) => match parse_dec(s) {
                    None => Err(TokenError::InvalidSubject),
                    Some(uid) => Ok(uid),
                },
            }
        },
    }
}

/// The view of an optional borrowed string.
pub open spec fn opt_strref(o: Option<&str>) -> Option<Seq<char>> {
    match o {
        None => None,
        Some(s) => Some(s@),
    }
}

/// What request-context extraction decides: the verified subject, or the
/// anonymous viewer on a missing or rejected token.
pub open spec fn spec_authorized(
    bearer: Option<Seq<char>>,
    key: Seq<char>,
    now: u64,
) -> Option<u64> {
    match bearer {
        None => None,
        Some(t) => match spec_verify(t, key, now) {
            Ok(uid) => Some(uid),
            Err(_) => None,
        },
    }
}

/// Places the returned token could be put.
#[derive(Clone)]
pub enum TokenLocation {
    Cookie(String),
    AuthorizationHeader,
}

/// The token service: the signing secret, the issuer claim, the token
/// lifetime in seconds, and where a minted token should be placed.
#[derive(Clone)]
pub struct SessionMiddleware {
    pub server_key: String,
    pub issuer: Option<String>,
    pub expiration_time: u64,
    pub location: TokenLocation,
}

impl SessionMiddleware {
    /// Create a new instance around the signing key; tokens default to a
    /// 24-hour lifetime, no issuer, and cookie placement under "jwt".
    pub fn new(server_key: &str) -> (r: SessionMiddleware)
        ensures
            r.server_key@ == server_key@,
            r.issuer is None,
            r.expiration_time == 86400,
            r.location is Cookie && r.location->0@ == "jwt"@,
    {
        SessionMiddleware {
            server_key: server_key.to_owned(),
            issuer: None,
            expiration_time: 24 * 60 * 60,
            location: TokenLocation::Cookie("jwt".to_owned()),
        }
    }

    /// Set a value for the iss (issuer) claim.
    pub fn issuer(self, issuer: &str) -> (r: Self)
        ensures
            r.issuer is Some && r.issuer->0@ == issuer@,
            r.server_key == self.server_key,
            r.expiration_time == self.expiration_time,
            r.location == self.location,
    {
        let mut s = self;
        s.issuer = Some(issuer.to_owned());
        s
    }

    /// Set how long a token is valid after creation, in seconds.
    pub fn expiration_time(self, expiration_time: u64) -> (r: Self)
        ensures
            r.expiration_time == expiration_time,
            r.server_key == self.server_key,
            r.issuer == self.issuer,
            r.location == self.location,
    {
        let mut s = self;
        s.expiration_time = expiration_time;
        s
    }

    /// Set where the token should be stored.
    pub fn using(self, location: TokenLocation) -> (r: Self)
        ensures
            r.location == location,
            r.server_key == self.server_key,
            r.issuer == self.issuer,
            r.expiration_time == self.expiration_time,
    {
        let mut s = self;
        s.location = location;
        s
    }

    /// Mint a token for an arbitrary subject string (or none), valid from
    /// `now` for the configured lifetime.
    pub fn make_token(&self, user: Option<&str>, now: u64) -> (r: Option<String>)
        requires
            now + self.expiration_time <= u64::MAX,
        ensures
            r is Some,
            ({
                let c = ClaimsView {
                    iss: opt_str(self.issuer),
                    sub: opt_strref(user),
                    exp: Some((now + self.expiration_time) as u64),
                    nbf: Some(now),
                };
                &&& (r is Some ==> r->0@ == jwt_signed_of(c, self.server_key@))
                &&& (r is Some ==> jwt_verify_of(r->0@, self.server_key@)
                    == JwtOutcomeView::Valid(c))
            }),
    {
        let sub = match user {
            None => None,
            Some(u) => Some(u.to_owned()),
        };
        let claims = TokenClaims {
            iss: clone_opt_string(&self.issuer),
            sub,
            exp: Some(now + self.expiration_time),
            nbf: Some(now),
        };
        sign_claims(&claims, self.server_key.as_str())
    }

    /// Issue a token whose subject is the user id `subject`, valid on
    /// `[now, now + expiration_time]`.
    pub fn issue(&self, subject: u64, now: u64) -> (r: Option<String>)
        requires
            now + self.expiration_time <= u64::MAX,
        ensures
            r is Some,
            ({
                let c = issued_claims(opt_str(self.issuer), subject, now, self.expiration_time);
                &&& (r is Some ==> r->0@ == jwt_signed_of(c, self.server_key@))
                &&& (r is Some ==> jwt_verify_of(r->0@, self.server_key@)
                    == JwtOutcomeView::Valid(c))
            }),
    {
        let sub = u64_to_string(subject);
        let claims = TokenClaims {
            iss: clone_opt_string(&self.issuer),
            sub: Some(sub),
            exp: Some(now + self.expiration_time),
            nbf: Some(now),
        };
        sign_claims(&claims, self.server_key.as_str())
    }

    /// Verify a token at instant `now`: check the signature, the validity
    /// window, and parse the subject as a user id.
    pub fn verify(&self, token: &str, now: u64) -> (r: Result<u64, TokenError>)
        ensures
            r == spec_verify(token@, self.server_key@, now),
    {
        let outcome = verify_token(token, self.server_key.as_str());
        match outcome {
            TokenOutcome::Malformed => Err(TokenError::Malformed),
            TokenOutcome::BadSignature => Err(TokenError::BadSignature),
            TokenOutcome::Valid(c) => {
                if let Some(nbf) = c.nbf {
                    if now < nbf {
                        return Err(TokenError::NotYetValid);
                    }
                }
                if let Some(exp) = c.exp {
                    if now > exp {
                        return Err(TokenError::Expired);
                    }
                }
                match c.sub {
                    None => Err(TokenError::InvalidSubject),
                    Some(s) => match parse_u64(s.as_str()) {
                        None => Err(TokenError::InvalidSubject),
                        Some(uid) => Ok(uid),
                    },
                }
            },
        }
    }

    /// Request-context extraction: the authenticated user behind an optional
    /// bearer token, with any verification failure degrading to anonymous.
    pub fn authorized_user(&self, bearer: Option<&str>, now: u64) -> (r: Option<u64>)
        ensures
            r == spec_authorized(opt_strref(bearer), self.server_key@, now),
    {
        match bearer {
            None => None,
            Some(t) => match self.verify(t, now) {
                Ok(uid) => Some(uid),
                Err(_) => None,
            },
        }
    }
}

/// Token invariant: a token issued for `uid` at `t0` with lifetime `ttl`
/// verifies to `uid` at every `t` with `t0 <= t <= t0 + ttl`, is rejected as
/// not yet valid for `t < t0`, and as expired for `t > t0 + ttl`.
pub proof fn lemma_token_validity_window(
    iss: Option<Seq<char>>,
    key: Seq<char>,
    uid: u64,
    t0: u64,
    ttl: u64,
    t: u64,
    tok: Seq<char>,
)
    requires
        t0 + ttl <= u64::MAX,
        jwt_verify_of(tok, key) == JwtOutcomeView::Valid(issued_claims(iss, uid, t0, ttl)),
    ensures
        spec_verify(tok, key, t) == if t < t0 {
            Err::<u64, TokenError>(TokenError::NotYetValid)
        } else if t > t0 + ttl {
            Err::<u64, TokenError>(TokenError::Expired)
        } else {
            Ok::<u64, TokenError>(uid)
        },
{
    lemma_parse_dec_digits(uid);
}

} // verus!
