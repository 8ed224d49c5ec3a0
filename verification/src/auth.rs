use vstd::prelude::*;
use vstd::string::*;
use vstd::utf8::*;

use crate::headers::{
    bearer_prefix, is_header_text, is_valid_header_value, is_visible_ascii, is_visible_text, lemma_ascii_bytes,
    lemma_remove_all_after_prefix, lemma_remove_all_without_space, lemma_visible_text_bytewise,
    remove_all, strip_bearer,
};

verus! {

/// How long a gateway token stays valid: 72 hours, in seconds.
pub const TOKEN_LIFETIME_SECS: i64 = 259200;

/// The last second that chrono's `DateTime<Utc>` can represent
/// (December 31 of year 262142, 23:59:59), as a Unix timestamp.
pub const MAX_TIMESTAMP: i64 = 8210266876799;

/// The issuer that the gateway writes into the tokens it adds.
pub open spec fn gateway_issuer() -> Seq<char> {
    "gateway"@
}

#[verifier::external_type_specification]
#[verifier::external_body]
pub struct ExHeaderValue(http::HeaderValue);

/// The bytes that a header value holds.
pub uninterp spec fn header_value_bytes(value: http::HeaderValue) -> Seq<u8>;

/// `http::HeaderValue::from_str`: a header value holding a copy of the bytes
/// of `text`, or nothing when one of them is a control character other than
/// the tab, or DEL.
#[verifier::external_body]
fn header_value_from_str(text: &str) -> (value: Option<http::HeaderValue>)
    ensures
        value is Some <==> is_valid_header_value(text.spec_bytes()),
        value matches Some(v) ==> header_value_bytes(v) == text.spec_bytes(),
{
    http::HeaderValue::from_str(text).ok()
}

/// `http::HeaderValue::as_bytes`: the bytes that `value` holds.
#[verifier::external_body]
fn header_value_as_bytes(value: &http::HeaderValue) -> (bytes: &[u8])
    ensures
        bytes@ == header_value_bytes(*value),
{
    value.as_bytes()
}

/// The claims of a token that the gateway issues.
pub struct GatewayAuthClaims {
    pub iss: String,
    pub gateway_access: bool,
    pub exp: i64,
    pub iat: i64,
}

impl GatewayAuthClaims {
    /// Claims issued at `iat` that expire `TOKEN_LIFETIME_SECS` later.
    /// An `iat` so late that its expiry falls past what chrono can represent
    /// is left out: chrono panics on that addition.
    pub fn issued_at(issuer: String, gateway_access: bool, iat: i64) -> (claims: Self)
        requires
            iat <= MAX_TIMESTAMP - TOKEN_LIFETIME_SECS,
        ensures
            claims.iss@ == issuer@,
            claims.gateway_access == gateway_access,
            claims.iat == iat,
            claims.exp == iat + TOKEN_LIFETIME_SECS,
    {
        GatewayAuthClaims { iss: issuer, gateway_access, exp: iat + TOKEN_LIFETIME_SECS, iat }
    }

    /// Claims issued at the clock reading `now` (whole seconds since the Unix
    /// epoch) that expire `TOKEN_LIFETIME_SECS` later; nothing exactly when
    /// `now` is so late that the expiry cannot be represented.
    pub fn new(issuer: String, gateway_access: bool, now: i64) -> (claims: Option<Self>)
        ensures
            claims is Some <==> now <= MAX_TIMESTAMP - TOKEN_LIFETIME_SECS,
            claims matches Some(c) ==> {
                &&& c.iss@ == issuer@
                &&& c.gateway_access == gateway_access
                &&& c.iat == now
                &&& c.exp == now + TOKEN_LIFETIME_SECS
            },
    {
        if now <= MAX_TIMESTAMP - TOKEN_LIFETIME_SECS {
            Some(GatewayAuthClaims::issued_at(issuer, gateway_access, now))
        } else {
            None
        }
    }
}

/// Why the authentication guard turns a request away (always with status 401).
#[derive(Debug, PartialEq, Eq)]
pub enum AuthRejection {
    /// The request carries no Authorization header.
    NotLoggedIn,
    /// The Authorization header does not read as visible text.
    MissingCreds,
    /// The token's expiry has passed.
    TokenExpired,
    /// The token fails verification for any other reason.
    InvalidToken,
}

/// The text that goes with each rejection.
pub open spec fn rejection_text(r: AuthRejection) -> Seq<char> {
    match r {
        AuthRejection::NotLoggedIn => "Not Logged In"@,
        AuthRejection::MissingCreds => "Missing Creds"@,
        AuthRejection::TokenExpired => "Token Expired"@,
        AuthRejection::InvalidToken => "Invalid Token"@,
    }
}

impl AuthRejection {
    /// The message sent back with the 401 response.
    pub fn message(&self) -> (text: &'static str)
        ensures
            text@ == rejection_text(*self),
    {
        match self {
            AuthRejection::NotLoggedIn => "Not Logged In",
            AuthRejection::MissingCreds => "Missing Creds",
            AuthRejection::TokenExpired => "Token Expired",
            AuthRejection::InvalidToken => "Invalid Token",
        }
    }
}

/// What verifying a token with the gateway secret found.
#[derive(Debug, PartialEq, Eq)]
pub enum TokenCheck {
    /// Signature and claims are valid.
    Accepted,
    /// The signature is valid but the token has expired.
    Expired,
    /// Any other failure: bad signature, malformed token, wrong claims.
    Rejected,
}

/// The token that an Authorization header presents, or why the request is
/// turned away before any token is verified.
pub open spec fn presented_token(authorization: Option<Seq<u8>>) -> Result<Seq<u8>, AuthRejection> {
    match authorization {
        None => Err(AuthRejection::NotLoggedIn),
        Some(bytes) => if is_visible_text(bytes) {
            Ok(remove_all(bytes, bearer_prefix()))
        } else {
            Err(AuthRejection::MissingCreds)
        },
    }
}

/// What the guard decides once the presented token has been verified.
pub open spec fn verdict_for(check: TokenCheck) -> Result<(), AuthRejection> {
    match check {
        TokenCheck::Accepted => Ok(()),
        TokenCheck::Expired => Err(AuthRejection::TokenExpired),
        TokenCheck::Rejected => Err(AuthRejection::InvalidToken),
    }
}

/// The authentication guard: makes an `AuthMiddleware` around a service.
pub struct Auth;

impl Auth {
    /// Wraps `service` in the guard.
    pub fn new_transform<S>(&self, service: S) -> (middleware: AuthMiddleware<S>)
        ensures
            middleware.service() == service,
    {
        AuthMiddleware { service }
    }
}

/// The authentication guard around `service`: a request reaches the service
/// only with a valid gateway token.
pub struct AuthMiddleware<S> {
    service: S,
}

impl<S> AuthMiddleware<S> {
    /// The wrapped service.
    pub closed spec fn service(&self) -> S {
        self.service
    }

    /// The service that accepted requests go on to.
    pub fn inner(&self) -> (service: &S)
        ensures
            *service == self.service(),
    {
        &self.service
    }

    /// First step of a request: the token that its Authorization header,
    /// if present, presents, or the rejection.
    pub fn credentials(&self, authorization: Option<&http::HeaderValue>) -> (token: Result<
        Vec<u8>,
        AuthRejection,
    >)
        ensures
            match (token, presented_token(
                match authorization {
                    Some(v) => Some(header_value_bytes(*v)),
                    None => None,
                },
            )) {
                (Ok(t), Ok(p)) => t@ == p,
                (Err(r), Err(q)) => r == q,
                _ => false,
            },
            authorization is None ==> token == Err::<Vec<u8>, AuthRejection>(
                AuthRejection::NotLoggedIn,
            ),
            authorization matches Some(v) ==> ((forall|i: int|
                0 <= i < header_value_bytes(*v).len() ==> (32 <= #[trigger] header_value_bytes(
                    *v,
                )[i] < 127 || header_value_bytes(*v)[i] == 9)) <==> token is Ok),
            authorization matches Some(v) ==> (token matches Ok(t) ==> t@ == remove_all(
                header_value_bytes(*v),
                bearer_prefix(),
            )),
            authorization matches Some(v) ==> (token matches Err(r) ==> r
                == AuthRejection::MissingCreds),
    {
        proof {
            if let Some(v) = authorization {
                lemma_header_presents_stripped_bytes(header_value_bytes(*v));
            }
        }
        match authorization {
            None => Err(AuthRejection::NotLoggedIn),
            Some(value) => {
                let bytes = header_value_as_bytes(value);
                if is_header_text(bytes) {
                    Ok(strip_bearer(bytes))
                } else {
                    Err(AuthRejection::MissingCreds)
                }
            },
        }
    }

    /// Second step: the request goes on (`Ok`) or is turned away, given what
    /// verifying the presented token found.
    pub fn verdict(&self, check: TokenCheck) -> (decision: Result<(), AuthRejection>)
        ensures
            decision == verdict_for(check),
    {
        match check {
            TokenCheck::Accepted => Ok(()),
            TokenCheck::Expired => Err(AuthRejection::TokenExpired),
            TokenCheck::Rejected => Err(AuthRejection::InvalidToken),
        }
    }
}

/// Makes an `AddTokenMW` around a service.
pub struct AddToken;

impl AddToken {
    /// Wraps `service` so that every request gains a gateway token.
    pub fn new_transform<S>(&self, service: S) -> (middleware: AddTokenMW<S>)
        ensures
            middleware.service() == service,
    {
        AddTokenMW { service }
    }
}

/// Adds a freshly issued gateway token to every request before `service`
/// sees it.
pub struct AddTokenMW<S> {
    service: S,
}

/// The Authorization credentials that present `token`.
pub open spec fn credentials_for(token: Seq<char>) -> Seq<char> {
    "Bearer "@ + token
}

impl<S> AddTokenMW<S> {
    /// The wrapped service.
    pub closed spec fn service(&self) -> S {
        self.service
    }

    /// The service that requests go on to.
    pub fn inner(&self) -> (service: &S)
        ensures
            *service == self.service(),
    {
        &self.service
    }

    /// The claims of the token that the gateway adds at the clock reading
    /// `now`: issued by `gateway`, with gateway access; nothing exactly when
    /// the expiry cannot be represented.
    pub fn claims(&self, now: i64) -> (claims: Option<GatewayAuthClaims>)
        ensures
            claims is Some <==> now <= MAX_TIMESTAMP - TOKEN_LIFETIME_SECS,
            claims matches Some(c) ==> {
                &&& c.iss@ == gateway_issuer()
                &&& c.gateway_access
                &&& c.iat == now
                &&& c.exp == now + TOKEN_LIFETIME_SECS
            },
    {
        GatewayAuthClaims::new("gateway".to_owned(), true, now)
    }

    /// `Bearer ` followed by the token.
    pub fn bearer_credentials(&self, token: &str) -> (text: String)
        ensures
            text@ == credentials_for(token@),
            text@.len() == token@.len() + 7,
            text@.take(7) == seq!['B', 'e', 'a', 'r', 'e', 'r', ' '],
            text@.skip(7) == token@,
    {
        proof {
            lemma_credentials_frame_token(token@);
        }
        let mut text = "Bearer ".to_owned();
        text.append(token);
        text
    }

    /// The Authorization header value that presents `token`; nothing when
    /// the credentials hold a byte that a header value cannot.
    pub fn authorization_value(&self, token: &str) -> (value: Option<http::HeaderValue>)
        ensures
            value is Some <==> is_valid_header_value(encode_utf8(credentials_for(token@))),
            value matches Some(v) ==> header_value_bytes(v) == encode_utf8(credentials_for(token@)),
    {
        let text = self.bearer_credentials(token);
        header_value_from_str(text.as_str())
    }
}

/// Law: the guard reads back exactly the token that `AddTokenMW` frames, for
/// any token of visible ASCII without spaces (as a signed token is).
pub proof fn lemma_framed_token_is_presented(token: Seq<char>)
    requires
        is_ascii_chars(token),
        forall|i: int| 0 <= i < token.len() ==> 33 <= #[trigger] (token[i] as u32) < 127,
    ensures
        presented_token(Some(encode_utf8(credentials_for(token)))) == Ok::<
            Seq<u8>,
            AuthRejection,
        >(encode_utf8(token)),
        is_valid_header_value(encode_utf8(credentials_for(token))),
{
    let framed = credentials_for(token);
    reveal_strlit("Bearer ");
    assert(is_ascii_chars(framed));
    lemma_ascii_bytes(framed);
    lemma_ascii_bytes(token);
    let bytes = encode_utf8(framed);
    let tbytes = encode_utf8(token);
    assert(bytes =~= bearer_prefix() + tbytes);
    assert forall|i: int| 0 <= i < tbytes.len() implies #[trigger] tbytes[i] != 32u8 by {
        assert(33 <= (token[i] as u32) < 127);
    }
    lemma_remove_all_after_prefix(tbytes);
    lemma_remove_all_without_space(tbytes);
    assert forall|i: int| 0 <= i < bytes.len() implies is_visible_ascii(#[trigger] bytes[i]) by {
        if i >= 7 {
            assert(bytes[i] == tbytes[i - 7]);
            assert(33 <= (token[i - 7] as u32) < 127);
            assert(tbytes[i - 7] == token[i - 7] as u8);
        }
    }
}

/// Law: a header value that `AddTokenMW::authorization_value` made for a
/// signed token (visible ASCII without spaces) exists, and the guard's
/// `credentials` reads that very token back from it.
pub proof fn lemma_added_header_is_presented(token: Seq<char>, value: http::HeaderValue)
    requires
        is_ascii_chars(token),
        forall|i: int| 0 <= i < token.len() ==> 33 <= #[trigger] (token[i] as u32) < 127,
        header_value_bytes(value) == encode_utf8(credentials_for(token)),
    ensures
        is_valid_header_value(encode_utf8(credentials_for(token))),
        presented_token(Some(header_value_bytes(value))) == Ok::<Seq<u8>, AuthRejection>(
            encode_utf8(token),
        ),
{
    lemma_framed_token_is_presented(token);
}

/// Law: for every token, the framed credentials are the seven characters
/// `Bearer ` followed by the token itself, whatever its length or content.
pub proof fn lemma_credentials_frame_token(token: Seq<char>)
    ensures
        credentials_for(token).len() == token.len() + 7,
        credentials_for(token).take(7) == seq!['B', 'e', 'a', 'r', 'e', 'r', ' '],
        credentials_for(token).skip(7) == token,
{
    reveal_strlit("Bearer ");
    assert(credentials_for(token).take(7) =~= seq!['B', 'e', 'a', 'r', 'e', 'r', ' ']);
    assert(credentials_for(token).skip(7) =~= token);
}

/// Law: a request without an Authorization header is turned away as not
/// logged in.
pub proof fn lemma_no_header_not_logged_in()
    ensures
        presented_token(None) == Err::<Seq<u8>, AuthRejection>(AuthRejection::NotLoggedIn),
{
}

/// Law: a header all of whose bytes are visible ASCII (32 to 126) or tab
/// presents its bytes with every `Bearer ` removed, whatever its length and
/// whether or not it starts with `Bearer `; one with any other byte is turned
/// away for missing credentials.
pub proof fn lemma_header_presents_stripped_bytes(bytes: Seq<u8>)
    ensures
        (forall|i: int| 0 <= i < bytes.len() ==> (32 <= #[trigger] bytes[i] < 127 || bytes[i] == 9))
            ==> presented_token(Some(bytes)) == Ok::<Seq<u8>, AuthRejection>(
            remove_all(bytes, bearer_prefix()),
        ),
        (exists|i: int| 0 <= i < bytes.len() && !(32 <= #[trigger] bytes[i] < 127 || bytes[i] == 9))
            ==> presented_token(Some(bytes)) == Err::<Seq<u8>, AuthRejection>(
            AuthRejection::MissingCreds,
        ),
{
    lemma_visible_text_bytewise(bytes);
}

/// Law: a header of visible ASCII without spaces, such as a bare signed
/// token, presents exactly its own bytes.
pub proof fn lemma_bare_token_presented_unchanged(bytes: Seq<u8>)
    requires
        forall|i: int| 0 <= i < bytes.len() ==> 33 <= #[trigger] bytes[i] < 127,
    ensures
        presented_token(Some(bytes)) == Ok::<Seq<u8>, AuthRejection>(bytes),
{
    lemma_visible_text_bytewise(bytes);
    assert forall|i: int| 0 <= i < bytes.len() implies #[trigger] bytes[i] != 32u8 by {
        assert(33 <= bytes[i] < 127);
    }
    lemma_remove_all_without_space(bytes);
}

} // verus!
