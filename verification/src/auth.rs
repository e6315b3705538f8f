//! Authentication: the account's key and the access token that the exchange
//! grants for it, with the decisions of when to reuse, refresh or acquire a
//! token.
use crate::text::{join2, owned, usize_text, int_text};
use crate::time::{now, ts_le, Timestamp, MAX_TIMESTAMP_SECS};
use vstd::prelude::*;

verus! {

#[derive(Debug, Clone, PartialEq, Eq)]
pub enum AuthError {
    AuthFailed(String),
    RefreshFailed(String),
    NoToken,
    RequestError(String),
    InvalidKey(String),
}

/// The text of an authentication error.
pub open spec fn auth_error_text(e: AuthError) -> Seq<char> {
    match e {
        AuthError::AuthFailed(m) => "Authentication failed: "@ + m@,
        AuthError::RefreshFailed(m) => "Token refresh failed: "@ + m@,
        AuthError::NoToken => "No valid token available"@,
        AuthError::RequestError(m) => "Request error: "@ + m@,
        AuthError::InvalidKey(m) => "Invalid private key: "@ + m@,
    }
}

impl AuthError {
    /// The text of the error.
    pub fn text(&self) -> (t: String)
        ensures
            t@ == auth_error_text(*self),
    {
        match self {
            AuthError::AuthFailed(m) => join2("Authentication failed: ", m.as_str()),
            AuthError::RefreshFailed(m) => join2("Token refresh failed: ", m.as_str()),
            AuthError::NoToken => owned("No valid token available"),
            AuthError::RequestError(m) => join2("Request error: ", m.as_str()),
            AuthError::InvalidKey(m) => join2("Invalid private key: ", m.as_str()),
        }
    }
}

/// Deployment of the exchange.
#[derive(Debug, Clone, Copy, PartialEq, Eq, Structural)]
pub enum BluefinEnvironment {
    Dev,
    Staging,
    Production,
}

/// How long before its expiry a token counts as expired.
pub const EXPIRY_MARGIN_SECS: i64 = 30i64;

/// An access token and when it expires.
#[derive(Debug, Clone)]
pub struct AuthToken {
    pub access_token: String,
    pub refresh_token: Option<String>,
    pub expires_at: Timestamp,
}

/// A token expires 30 seconds before its expiry time.
pub open spec fn expired_at(expires_at: Timestamp, now: Timestamp) -> bool {
    ts_le(expires_at, Timestamp { secs: (now.secs + EXPIRY_MARGIN_SECS) as i64, nanos: now.nanos })
}

impl AuthToken {
    /// Whether the token is expired, or expires within 30 seconds, at `now`.
    pub fn is_expired_at(&self, now: Timestamp) -> (b: bool)
        requires
            now.secs + EXPIRY_MARGIN_SECS <= i64::MAX,
        ensures
            b == expired_at(self.expires_at, now),
    {
        let soon = now.plus_seconds(EXPIRY_MARGIN_SECS);
        self.expires_at.le(&soon)
    }

    /// Whether the token is expired, or expires within 30 seconds, now (an
    /// instant that `chrono` represents).
    pub fn is_expired(&self) -> (b: bool)
        ensures
            exists|t: Timestamp| t.in_range() && b == expired_at(self.expires_at, t),
    {
        let t = now();
        let b = self.is_expired_at(t);
        assert(t.in_range() && b == expired_at(self.expires_at, t));
        b
    }
}

/// The token granted at `issued_at` for `valid_for_secs` seconds.
pub fn token_from_grant(
    access_token: String,
    refresh_token: String,
    valid_for_secs: i64,
    issued_at: Timestamp,
) -> (t: AuthToken)
    requires
        -MAX_TIMESTAMP_SECS <= issued_at.secs + valid_for_secs <= MAX_TIMESTAMP_SECS,
    ensures
        t.access_token == access_token,
        t.refresh_token == Some(refresh_token),
        t.expires_at == (Timestamp { secs: (issued_at.secs + valid_for_secs) as i64, nanos: issued_at.nanos }),
{
    AuthToken {
        access_token,
        refresh_token: Some(refresh_token),
        expires_at: issued_at.plus_seconds(valid_for_secs),
    }
}

/// Number of bytes of the UTF-8 encoding of a character.
pub open spec fn utf8_width(c: char) -> nat {
    if (c as u32) < 0x80 {
        1
    } else if (c as u32) < 0x800 {
        2
    } else if (c as u32) < 0x10000 {
        3
    } else {
        4
    }
}

/// Number of bytes of the UTF-8 encoding of a text.
pub open spec fn utf8_len(s: Seq<char>) -> nat
    decreases s.len(),
{
    if s.len() == 0 {
        0
    } else {
        utf8_len(s.drop_last()) + utf8_width(s.last())
    }
}

/// `str::len`: the length in bytes.
#[verifier::external_body]
fn byte_len(s: &str) -> (n: usize)
    ensures
        n == utf8_len(s@),
{
    s.len()
}

pub open spec fn is_hex_digit(c: char) -> bool {
    ('0' <= c && c <= '9') || ('a' <= c && c <= 'f') || ('A' <= c && c <= 'F')
}

/// The value of a hexadecimal digit.
pub open spec fn hex_value(c: char) -> int {
    if '0' <= c && c <= '9' {
        c as int - '0' as int
    } else if 'a' <= c && c <= 'f' {
        c as int - 'a' as int + 10
    } else {
        c as int - 'A' as int + 10
    }
}

/// The text is 64 hexadecimal digits: a 32-byte key.
pub open spec fn is_key_hex(s: Seq<char>) -> bool {
    s.len() == 64 && forall|i: int| 0 <= i < 64 ==> #[trigger] is_hex_digit(s[i])
}

/// `k` holds the 32 bytes that the 64 hexadecimal digits of `s` spell, two
/// digits a byte, high digit first.
pub open spec fn key_bytes_of(s: Seq<char>, k: [u8; 32]) -> bool {
    forall|i: int| 0 <= i < 32 ==> #[trigger] k[i] == 16 * hex_value(s[2 * i]) + hex_value(s[2 * i + 1])
}

/// The text of the error `hex` reports for a text that is not 64
/// hexadecimal digits (`hex::FromHexError`'s `Display`).
pub uninterp spec fn hex_key_error(s: Seq<char>) -> Seq<char>;

/// `<[u8; 32] as hex::FromHex>::from_hex`: the 32 bytes that 64 hexadecimal
/// digits (of either case) spell, two digits a byte, high digit first; an
/// error for any other text, with the text `hex` gives it.
#[verifier::external_body]
fn key_from_hex(s: &str) -> (r: Result<[u8; 32], String>)
    ensures
        r is Ok <==> is_key_hex(s@),
        r matches Ok(k) ==> key_bytes_of(s@, k),
        r matches Err(e) ==> e@ == hex_key_error(s@),
{
    <[u8; 32] as hex::FromHex>::from_hex(s).map_err(|e| e.to_string())
}

/// The private key that a hexadecimal text spells: 32 bytes from 64 digits,
/// or the text of the decoding error.
pub fn private_key_bytes(private_key_hex: &str) -> (r: Result<[u8; 32], String>)
    ensures
        r is Ok <==> is_key_hex(private_key_hex@),
        r matches Ok(k) ==> key_bytes_of(private_key_hex@, k),
        r matches Err(e) ==> e@ == hex_key_error(private_key_hex@),
{
    key_from_hex(private_key_hex)
}

/// The exchange's test key and address, for the environments that have them
/// (`bluefin_pro`'s `Environment::test_keys`): the same pair for development
/// and staging, none for production.
#[verifier::external_body]
fn sdk_test_keys(environment: BluefinEnvironment) -> (r: Option<(String, String)>)
    ensures
        r is None <==> environment == BluefinEnvironment::Production,
        r matches Some((key, address)) ==> key@
            == "3427d19dcf5781f0874c36c78aec22c03acda435d69efcbf249e8821793567a1"@ && address@
            == "0x9b11fafc580f23932f379d99ab6cc4c638e85ba4c252fc909296f3f9e6cea786"@,
{
    let env = match environment {
        BluefinEnvironment::Dev => bluefin_pro::prelude::Environment::Dev,
        BluefinEnvironment::Staging => bluefin_pro::prelude::Environment::Staging,
        BluefinEnvironment::Production => bluefin_pro::prelude::Environment::Production,
    };
    env.test_keys().map(|k| (k.private_key.to_string(), k.address.to_string()))
}

/// What to do for a token.
#[derive(Debug, Clone, PartialEq, Eq)]
pub enum TokenAction {
    /// Use this cached access token.
    Use(String),
    /// Refresh with this refresh token.
    Refresh(String),
    /// Acquire a new token by logging in.
    Acquire,
}

/// What to do for the current token at `now`: use it while it is not expired;
/// otherwise refresh it where it has a refresh token; otherwise acquire a new
/// one.
pub open spec fn token_action(token: Option<AuthToken>, now: Timestamp) -> TokenAction {
    match token {
        Some(t) => if !expired_at(t.expires_at, now) {
            TokenAction::Use(t.access_token)
        } else {
            match t.refresh_token {
                Some(rt) => TokenAction::Refresh(rt),
                None => TokenAction::Acquire,
            }
        },
        None => TokenAction::Acquire,
    }
}

/// Holds the account's credentials and its current token.
#[derive(Debug)]
pub struct TokenManager {
    token: Option<AuthToken>,
    private_key_hex: String,
    account_address: String,
    environment: BluefinEnvironment,
}

/// Message for a key of the wrong length.
pub open spec fn msg_key_length(len: nat) -> Seq<char> {
    "Private key must be 64 hex characters, got "@ + int_text(len as int)
}

impl TokenManager {
    pub closed spec fn spec_token(&self) -> Option<AuthToken> {
        self.token
    }

    pub closed spec fn spec_private_key_hex(&self) -> Seq<char> {
        self.private_key_hex@
    }

    pub closed spec fn spec_account_address(&self) -> Seq<char> {
        self.account_address@
    }

    pub closed spec fn spec_environment(&self) -> BluefinEnvironment {
        self.environment
    }

    /// A manager for the given credentials, without a token yet.  The key
    /// must be 64 bytes of hexadecimal digits.
    pub fn new(private_key_hex: String, account_address: String, environment: BluefinEnvironment) -> (r: Result<
        Self,
        AuthError,
    >)
        ensures
            utf8_len(private_key_hex@) != 64 ==> r is Err && r->Err_0 == AuthError::InvalidKey(
                r->Err_0->InvalidKey_0,
            ) && r->Err_0->InvalidKey_0@ == msg_key_length(utf8_len(private_key_hex@)),
            utf8_len(private_key_hex@) == 64 && !is_key_hex(private_key_hex@) ==> r is Err
                && r->Err_0 == AuthError::InvalidKey(r->Err_0->InvalidKey_0)
                && r->Err_0->InvalidKey_0@ == "Private key is not valid hexadecimal"@,
            r is Ok <==> is_key_hex(private_key_hex@),
            r is Ok ==> r->Ok_0.spec_token() is None && r->Ok_0.spec_private_key_hex()
                == private_key_hex@ && r->Ok_0.spec_account_address() == account_address@
                && r->Ok_0.spec_environment() == environment,
    {
        let len = byte_len(private_key_hex.as_str());
        if len != 64 {
            proof {
                lemma_key_hex_is_64_bytes(private_key_hex@);
            }
            return Err(
                AuthError::InvalidKey(
                    join2("Private key must be 64 hex characters, got ", usize_text(len).as_str()),
                ),
            );
        }
        if key_from_hex(private_key_hex.as_str()).is_err() {
            return Err(AuthError::InvalidKey(owned("Private key is not valid hexadecimal")));
        }
        Ok(TokenManager { token: None, private_key_hex, account_address, environment })
    }

    /// A manager for the exchange's test account, where the environment has
    /// one (not in production).
    pub fn with_test_keys(environment: BluefinEnvironment) -> (r: Result<Self, AuthError>)
        ensures
            r is Err <==> environment == BluefinEnvironment::Production,
            r is Err ==> r->Err_0 == AuthError::InvalidKey(r->Err_0->InvalidKey_0)
                && r->Err_0->InvalidKey_0@ == "Test keys not available for production environment"@,
            r is Ok ==> r->Ok_0.spec_token() is None && r->Ok_0.spec_private_key_hex()
                == "3427d19dcf5781f0874c36c78aec22c03acda435d69efcbf249e8821793567a1"@
                && r->Ok_0.spec_account_address()
                == "0x9b11fafc580f23932f379d99ab6cc4c638e85ba4c252fc909296f3f9e6cea786"@
                && r->Ok_0.spec_environment() == environment,
    {
        match sdk_test_keys(environment) {
            Some((private_key_hex, account_address)) => Ok(
                TokenManager { token: None, private_key_hex, account_address, environment },
            ),
            None => Err(
                AuthError::InvalidKey(owned("Test keys not available for production environment")),
            ),
        }
    }

    pub fn account_address(&self) -> (s: &str)
        ensures
            s@ == self.spec_account_address(),
    {
        self.account_address.as_str()
    }

    pub fn environment(&self) -> (e: BluefinEnvironment)
        ensures
            e == self.spec_environment(),
    {
        self.environment
    }

    /// The private key, for signing.
    pub fn private_key_hex(&self) -> (s: &str)
        ensures
            s@ == self.spec_private_key_hex(),
    {
        self.private_key_hex.as_str()
    }

    /// The current token, if any.
    pub fn token(&self) -> (t: Option<AuthToken>)
        ensures
            t == self.spec_token(),
    {
        match &self.token {
            Some(t) => Some(
                AuthToken {
                    access_token: t.access_token.clone(),
                    refresh_token: crate::order::clone_opt_string(&t.refresh_token),
                    expires_at: t.expires_at,
                },
            ),
            None => None,
        }
    }

    /// What to do for a token at `now`: use the cached token while it is not
    /// expired; otherwise refresh it where it has a refresh token; otherwise
    /// acquire a new one.
    pub fn next_action(&self, now: Timestamp) -> (a: TokenAction)
        requires
            now.secs + EXPIRY_MARGIN_SECS <= i64::MAX,
        ensures
            a == token_action(self.spec_token(), now),
    {
        match &self.token {
            Some(t) => {
                if !t.is_expired_at(now) {
                    TokenAction::Use(t.access_token.clone())
                } else {
                    match &t.refresh_token {
                        Some(rt) => TokenAction::Refresh(rt.clone()),
                        None => TokenAction::Acquire,
                    }
                }
            },
            None => TokenAction::Acquire,
        }
    }

    /// The step after a refresh: a refreshed token is kept and its access
    /// token used; after a failed refresh a new token is to be acquired, and
    /// the state is unchanged.
    pub fn after_refresh(&mut self, refreshed: Result<AuthToken, AuthError>) -> (a: TokenAction)
        ensures
            match refreshed {
                Ok(t) => a == TokenAction::Use(t.access_token) && final(self).spec_token() == Some(t),
                Err(_) => a == TokenAction::Acquire && final(self).spec_token() == old(
                    self,
                ).spec_token(),
            },
            final(self).spec_private_key_hex() == old(self).spec_private_key_hex(),
            final(self).spec_account_address() == old(self).spec_account_address(),
            final(self).spec_environment() == old(self).spec_environment(),
    {
        match refreshed {
            Ok(token) => TokenAction::Use(self.store_token(token)),
            Err(_) => TokenAction::Acquire,
        }
    }

    /// Keeps a newly granted token and returns its access token.
    pub fn store_token(&mut self, token: AuthToken) -> (access: String)
        ensures
            access == token.access_token,
            final(self).spec_token() == Some(token),
            final(self).spec_private_key_hex() == old(self).spec_private_key_hex(),
            final(self).spec_account_address() == old(self).spec_account_address(),
            final(self).spec_environment() == old(self).spec_environment(),
    {
        let access = token.access_token.clone();
        self.token = Some(token);
        access
    }
}

/// A key of 64 hexadecimal digits is 64 bytes long.
pub proof fn lemma_key_hex_is_64_bytes(s: Seq<char>)
    ensures
        is_key_hex(s) ==> utf8_len(s) == 64,
{
    if is_key_hex(s) {
        lemma_ascii_utf8_len(s);
    }
}

proof fn lemma_ascii_utf8_len(s: Seq<char>)
    requires
        forall|i: int| 0 <= i < s.len() ==> #[trigger] is_hex_digit(s[i]),
    ensures
        utf8_len(s) == s.len(),
    decreases s.len(),
{
    if s.len() > 0 {
        let t = s.drop_last();
        assert forall|i: int| 0 <= i < t.len() implies #[trigger] is_hex_digit(t[i]) by {
            assert(t[i] == s[i]);
        }
        lemma_ascii_utf8_len(t);
        assert(is_hex_digit(s[s.len() - 1]));
    }
}

/// A stored token is used as it is while it is not expired; once expired it
/// is refreshed with its refresh token, or replaced where it has none; without
/// a token, one is acquired.
pub proof fn lemma_stored_token_is_reused(token: AuthToken, now: Timestamp)
    ensures
        !expired_at(token.expires_at, now) ==> token_action(Some(token), now) == TokenAction::Use(
            token.access_token,
        ),
        expired_at(token.expires_at, now) && token.refresh_token is Some ==> token_action(
            Some(token),
            now,
        ) == TokenAction::Refresh(token.refresh_token->0),
        expired_at(token.expires_at, now) && token.refresh_token is None ==> token_action(
            Some(token),
            now,
        ) == TokenAction::Acquire,
        token_action(None, now) == TokenAction::Acquire,
{
}

/// Expiry is monotonic: a token expired at some time stays expired later.
pub proof fn lemma_expiry_is_monotonic(expires_at: Timestamp, t1: Timestamp, t2: Timestamp)
    requires
        ts_le(t1, t2),
        expired_at(expires_at, t1),
        t1.secs + EXPIRY_MARGIN_SECS <= i64::MAX,
        t2.secs + EXPIRY_MARGIN_SECS <= i64::MAX,
    ensures
        expired_at(expires_at, t2),
{
}

} // verus!
