//! Session-token lifecycle: minting a signed, time-bounded claim set and
//! validating and decoding it again.
//!
//! A token is `payload.signature`: the payload writes subject, issue time and
//! expiry as sixteen hex digits each, then the email hex-coded, so it never
//! contains the separating dot; the signature is an HMAC tag over the payload
//! under a process-wide secret. Decoding recomputes the tag and rejects any
//! token whose tag differs, then reads the claims back. Decoding proves
//! authenticity only; expiry is a separate, explicit check.

use vstd::prelude::*;
use vstd::string::*;
use crate::AuthError;
use crate::hex::{
    all_hex, chars_hex, chars_unhex, hex_of, hex_value, is_hex_digit, lemma_chars_hex_all_hex,
    lemma_chars_hex_len, lemma_chars_roundtrip, lemma_hex_of_props, lemma_hex_roundtrip,
    lemma_pow16_values, parse_chars_hex, parse_hex_at, push_chars_hex, push_hex,
};
use crate::text::push_char;
use crate::text::str_eq;

verus! {

/// Validity window of a minted claim set, in seconds: 24 hours.
pub const TOKEN_VALIDITY_SECS: u64 = 86400;

/// Session claims: ephemeral proof of identity reconstructed from a token.
#[derive(Debug)]
pub struct JwtClaims {
    /// Subject: the credential record's identifier.
    pub sub: u64,
    /// Email snapshot at issuance time; never re-checked against the store.
    pub email: String,
    /// Expiration time, seconds since the Unix epoch.
    pub exp: u64,
    /// Issue time, seconds since the Unix epoch.
    pub iat: u64,
}

/// The mathematical content of a claim set.
#[verifier::ext_equal]
pub struct ClaimsView {
    pub sub: u64,
    pub email: Seq<char>,
    pub exp: u64,
    pub iat: u64,
}

impl View for JwtClaims {
    type V = ClaimsView;

    open spec fn view(&self) -> ClaimsView {
        ClaimsView { sub: self.sub, email: self.email@, exp: self.exp, iat: self.iat }
    }
}

/// The HMAC-SHA256 tag of a message under a secret, base64url-coded, exactly
/// as the signing primitive returns it. A pure function of its arguments.
pub uninterp spec fn hs256_tag(secret: Seq<u8>, message: Seq<char>) -> Seq<char>;

/// The payload a claim set is written as: subject, issue time and expiry as
/// sixteen hex digits each, then the email with eight hex digits a character.
pub open spec fn payload_of(c: ClaimsView) -> Seq<char> {
    hex_of(c.sub as nat, 16) + hex_of(c.iat as nat, 16) + hex_of(c.exp as nat, 16)
        + chars_hex(c.email)
}

/// The full token for a claim set under a secret.
pub open spec fn token_of(secret: Seq<u8>, c: ClaimsView) -> Seq<char> {
    payload_of(c) + seq!['.'] + hs256_tag(secret, payload_of(c))
}

/// Reading a claim set back out of a payload; `None` on anything malformed.
pub open spec fn payload_claims(p: Seq<char>) -> Option<ClaimsView> {
    if p.len() < 48 {
        None
    } else if !all_hex(p.subrange(0, 48)) {
        None
    } else {
        match chars_unhex(p.subrange(48, p.len() as int)) {
            None => None,
            Some(email) => Some(ClaimsView {
                sub: hex_value(p.subrange(0, 16)) as u64,
                iat: hex_value(p.subrange(16, 32)) as u64,
                exp: hex_value(p.subrange(32, 48)) as u64,
                email,
            }),
        }
    }
}

/// Index of the first dot in `s`, or its length when there is none.
pub open spec fn dot_index(s: Seq<char>) -> int
    decreases s.len(),
{
    if s.len() == 0 {
        0
    } else if s[0] == '.' {
        0
    } else {
        1 + dot_index(s.drop_first())
    }
}

/// What decoding a token under a secret yields: the payload's claims when the
/// recomputed tag matches the signature part, nothing otherwise.
pub open spec fn decode_of(secret: Seq<u8>, token: Seq<char>) -> Option<ClaimsView> {
    if dot_index(token) >= token.len() {
        None
    } else {
        if token.subrange(dot_index(token) + 1, token.len() as int)
            == hs256_tag(secret, token.subrange(0, dot_index(token))) {
            payload_claims(token.subrange(0, dot_index(token)))
        } else {
            None
        }
    }
}

pub proof fn lemma_dot_index_at(s: Seq<char>, i: int)
    requires
        0 <= i < s.len(),
        s[i] == '.',
        forall|j: int| 0 <= j < i ==> s[j] != '.',
    ensures
        dot_index(s) == i,
    decreases i,
{
    if i > 0 {
        lemma_dot_index_at(s.drop_first(), i - 1);
    }
}

pub proof fn lemma_dot_index_none(s: Seq<char>)
    requires
        forall|j: int| 0 <= j < s.len() ==> s[j] != '.',
    ensures
        dot_index(s) == s.len(),
    decreases s.len(),
{
    if s.len() > 0 {
        lemma_dot_index_none(s.drop_first());
    }
}

/// Position of the first dot of `s`, or its character length when none.
fn find_dot(s: &str) -> (r: usize)
    ensures
        r <= s@.len(),
        r == dot_index(s@),
{
    let len = s.unicode_len();
    let mut i: usize = 0;
    let mut res: usize = len;
    while i < len
        invariant
            len == s@.len(),
            i <= len,
            res <= len,
            res == len ==> forall|j: int| 0 <= j < i ==> s@[j] != '.',
            res < len ==> s@[res as int] == '.' && res < i
                && (forall|j: int| 0 <= j < res ==> s@[j] != '.'),
        decreases len - i,
    {
        let c = s.get_char(i);
        if res == len && c == '.' {
            res = i;
        }
        i += 1;
    }
    proof {
        if res == len {
            lemma_dot_index_none(s@);
        } else {
            lemma_dot_index_at(s@, res as int);
        }
    }
    res
}

/// Signs, verifies and decodes session claims under one process-wide secret,
/// loaded once at startup and injected at construction.
pub struct TokenCodec {
    secret: Vec<u8>,
}

/// Sign a message with HMAC-SHA256 under the given secret, returning the
/// base64url tag.
///
/// Relies on `jsonwebtoken::crypto::sign` with `Algorithm::HS256` and a key
/// from `EncodingKey::from_secret`: the tag is a pure function of secret and
/// message, and on this path the provider lookup and HMAC signing cannot
/// fail (the fallible cases are the asymmetric-key algorithms).
#[verifier::external_body]
fn hs256_sign(secret: &[u8], message: &str) -> (r: String)
    ensures
        r@ == hs256_tag(secret@, message@),
{
    jsonwebtoken::crypto::sign(
        message.as_bytes(),
        &jsonwebtoken::EncodingKey::from_secret(secret),
        jsonwebtoken::Algorithm::HS256,
    ).unwrap()
}

/// Seconds since the Unix epoch, clamped below at zero.
///
/// Relies on `chrono::Utc::now`: the value depends on the clock, so nothing
/// is promised beyond the bound a signed 64-bit timestamp gives.
#[verifier::external_body]
pub(crate) fn now_unix() -> (r: u64)
    ensures
        r < 0x8000_0000_0000_0000u64,
{
    u64::try_from(chrono::Utc::now().timestamp()).unwrap_or(0)
}

impl TokenCodec {
    /// The secret all tokens are signed and checked with.
    pub closed spec fn secret_view(&self) -> Seq<u8> {
        self.secret@
    }

    /// A codec over the given secret; an empty secret is a misconfiguration
    /// and is refused, so a process without one fails at startup.
    pub fn new(secret: Vec<u8>) -> (r: Option<TokenCodec>)
        ensures
            match r {
                Some(codec) => codec.secret_view() == secret@ && secret@.len() > 0,
                None => secret@.len() == 0,
            },
    {
        if secret.len() == 0 {
            None
        } else {
            Some(TokenCodec { secret })
        }
    }

    /// Write a claim set as a signed token.
    pub fn encode_claims(&self, claims: &JwtClaims) -> (t: String)
        ensures
            t@ == token_of(self.secret_view(), claims@),
    {
        let mut payload = String::new();
        push_hex(&mut payload, claims.sub, 16);
        push_hex(&mut payload, claims.iat, 16);
        push_hex(&mut payload, claims.exp, 16);
        push_chars_hex(&mut payload, claims.email.as_str());
        proof {
            assert(payload@ =~= payload_of(claims@));
        }
        let tag = hs256_sign(self.secret.as_slice(), payload.as_str());
        let mut token = payload;
        push_char(&mut token, '.');
        token.append(tag.as_str());
        proof {
            assert(token@ =~= token_of(self.secret_view(), claims@));
        }
        token
    }

    /// Mint a claim set for a subject and email: issued now, expiring a fixed
    /// validity window later, signed with the process-wide secret.
    pub fn mint(&self, subject: u64, email: &str) -> (r: (String, JwtClaims))
        ensures
            r.1@.sub == subject,
            r.1@.email == email@,
            r.1@.exp == r.1@.iat + TOKEN_VALIDITY_SECS,
            r.0@ == token_of(self.secret_view(), r.1@),
    {
        let now = now_unix();
        let claims = JwtClaims::new_at(subject, email.to_owned(), now);
        let token = self.encode_claims(&claims);
        (token, claims)
    }

    /// Check a token's signature against the process-wide secret and read the
    /// claims back. Succeeds exactly on untampered tokens of the right shape;
    /// expiry is deliberately not checked here.
    pub fn decode(&self, token: &str) -> (r: Result<JwtClaims, AuthError>)
        ensures
            match r {
                Ok(claims) => decode_of(self.secret_view(), token@) == Some(claims@),
                Err(e) => e == AuthError::InvalidToken
                    && decode_of(self.secret_view(), token@) is None,
            },
    {
        let len = token.unicode_len();
        let d = find_dot(token);
        if d >= len {
            return Err(AuthError::InvalidToken);
        }
        let payload = token.substring_char(0, d);
        let sig = token.substring_char(d + 1, len);
        let tag = hs256_sign(self.secret.as_slice(), payload);
        if !str_eq(tag.as_str(), sig) {
            return Err(AuthError::InvalidToken);
        }
        let ghost p = payload@;
        if d < 48 {
            return Err(AuthError::InvalidToken);
        }
        let sub = match parse_hex_at(payload, 0, 16) {
            Some(v) => v,
            None => {
                proof {
                    lemma_chunk_not_hex(p, 0);
                }
                return Err(AuthError::InvalidToken);
            },
        };
        let iat = match parse_hex_at(payload, 16, 16) {
            Some(v) => v,
            None => {
                proof {
                    lemma_chunk_not_hex(p, 16);
                }
                return Err(AuthError::InvalidToken);
            },
        };
        let exp = match parse_hex_at(payload, 32, 16) {
            Some(v) => v,
            None => {
                proof {
                    lemma_chunk_not_hex(p, 32);
                }
                return Err(AuthError::InvalidToken);
            },
        };
        proof {
            assert forall|i: int| 0 <= i < 48 implies is_hex_digit(#[trigger] p.subrange(0, 48)[i]) by {
                if i < 16 {
                    assert(p.subrange(0, 48)[i] == p.subrange(0, 16)[i]);
                } else if i < 32 {
                    assert(p.subrange(0, 48)[i] == p.subrange(16, 32)[i - 16]);
                } else {
                    assert(p.subrange(0, 48)[i] == p.subrange(32, 48)[i - 32]);
                }
            }
        }
        let email = match parse_chars_hex(payload, 48) {
            Some(e) => e,
            None => {
                return Err(AuthError::InvalidToken);
            },
        };
        let claims = JwtClaims { sub, email, exp, iat };
        proof {
            assert(payload_claims(p) matches Some(c) && c =~= claims@);
        }
        Ok(claims)
    }
}

/// A chunk of sixteen non-hex characters poisons the whole first 48.
proof fn lemma_chunk_not_hex(p: Seq<char>, start: int)
    requires
        0 <= start,
        start + 16 <= 48 <= p.len(),
        !all_hex(p.subrange(start, start + 16)),
    ensures
        !all_hex(p.subrange(0, 48)),
{
    if all_hex(p.subrange(0, 48)) {
        assert forall|i: int| 0 <= i < 16 implies is_hex_digit(#[trigger] p.subrange(start, start + 16)[i]) by {
            assert(p.subrange(start, start + 16)[i] == p.subrange(0, 48)[start + i]);
        }
    }
}

impl JwtClaims {
    /// A claim set for a subject and email issued at the given time.
    pub fn new_at(user_id: u64, email: String, now: u64) -> (r: JwtClaims)
        requires
            now + TOKEN_VALIDITY_SECS <= u64::MAX,
        ensures
            r@ == (ClaimsView { sub: user_id, email: email@, exp: (now + TOKEN_VALIDITY_SECS) as u64, iat: now }),
    {
        JwtClaims { sub: user_id, email, exp: now + TOKEN_VALIDITY_SECS, iat: now }
    }

    /// A claim set issued now, expiring one validity window later.
    pub fn new(user_id: u64, email: String) -> (r: JwtClaims)
        ensures
            r@.sub == user_id,
            r@.email == email@,
            r@.exp == r@.iat + TOKEN_VALIDITY_SECS,
    {
        let now = now_unix();
        JwtClaims::new_at(user_id, email, now)
    }

    /// Write this claim set as a signed token under the codec's secret.
    pub fn encode(&self, codec: &TokenCodec) -> (t: String)
        ensures
            t@ == token_of(codec.secret_view(), self@),
    {
        codec.encode_claims(self)
    }

    /// Decode and signature-check a token under the codec's secret.
    pub fn decode(codec: &TokenCodec, token: &str) -> (r: Result<JwtClaims, AuthError>)
        ensures
            match r {
                Ok(claims) => decode_of(codec.secret_view(), token@) == Some(claims@),
                Err(e) => e == AuthError::InvalidToken
                    && decode_of(codec.secret_view(), token@) is None,
            },
    {
        codec.decode(token)
    }

    /// Whether the claim set is past its expiry at the given time. Decode
    /// success proves authenticity only; callers must make this check.
    pub fn is_expired_at(&self, now: u64) -> (r: bool)
        ensures
            r == (now > self@.exp),
    {
        now > self.exp
    }

    /// Whether the claim set is past its expiry on the process clock.
    pub fn is_expired(&self) -> bool {
        let now = now_unix();
        self.is_expired_at(now)
    }
}

/// The payload of any claim set is at least 48 hex characters, none a dot.
pub proof fn lemma_payload_shape(c: ClaimsView)
    ensures
        payload_of(c).len() == 48 + 8 * c.email.len(),
        all_hex(payload_of(c)),
        forall|j: int| 0 <= j < payload_of(c).len() ==> payload_of(c)[j] != '.',
{
    let h1 = hex_of(c.sub as nat, 16);
    let h2 = hex_of(c.iat as nat, 16);
    let h3 = hex_of(c.exp as nat, 16);
    let e = chars_hex(c.email);
    let p = payload_of(c);
    lemma_hex_of_props(c.sub as nat, 16);
    lemma_hex_of_props(c.iat as nat, 16);
    lemma_hex_of_props(c.exp as nat, 16);
    lemma_chars_hex_len(c.email);
    lemma_chars_hex_all_hex(c.email);
    assert forall|j: int| 0 <= j < p.len() implies is_hex_digit(#[trigger] p[j]) by {
        if j < 16 {
            assert(p[j] == h1[j]);
        } else if j < 32 {
            assert(p[j] == h2[j - 16]);
        } else if j < 48 {
            assert(p[j] == h3[j - 32]);
        } else {
            assert(p[j] == e[j - 48]);
        }
    }
    assert forall|j: int| 0 <= j < p.len() implies p[j] != '.' by {
        assert(is_hex_digit(p[j]));
    }
}

/// Reading the payload of a claim set back yields exactly that claim set.
pub proof fn lemma_payload_roundtrip(c: ClaimsView)
    ensures
        payload_claims(payload_of(c)) == Some(c),
{
    let h1 = hex_of(c.sub as nat, 16);
    let h2 = hex_of(c.iat as nat, 16);
    let h3 = hex_of(c.exp as nat, 16);
    let e = chars_hex(c.email);
    let p = payload_of(c);
    lemma_payload_shape(c);
    lemma_hex_of_props(c.sub as nat, 16);
    lemma_hex_of_props(c.iat as nat, 16);
    lemma_hex_of_props(c.exp as nat, 16);
    lemma_chars_hex_len(c.email);
    assert(p.subrange(0, 16) =~= h1);
    assert(p.subrange(16, 32) =~= h2);
    assert(p.subrange(32, 48) =~= h3);
    assert(p.subrange(48, p.len() as int) =~= e);
    assert forall|i: int| 0 <= i < 48 implies is_hex_digit(#[trigger] p.subrange(0, 48)[i]) by {
        assert(p.subrange(0, 48)[i] == p[i]);
    }
    lemma_pow16_values();
    lemma_hex_roundtrip(c.sub as nat, 16);
    lemma_hex_roundtrip(c.iat as nat, 16);
    lemma_hex_roundtrip(c.exp as nat, 16);
    lemma_chars_roundtrip(c.email);
    assert(payload_claims(p) matches Some(r) && r =~= c);
}

/// How a freshly minted token splits: payload, dot, tag.
pub proof fn lemma_token_shape(secret: Seq<u8>, c: ClaimsView)
    ensures
        ({
            let p = payload_of(c);
            let t = token_of(secret, c);
            &&& dot_index(t) == p.len()
            &&& p.len() < t.len()
            &&& t.subrange(0, p.len() as int) =~= p
            &&& t.subrange(p.len() as int + 1, t.len() as int) =~= hs256_tag(secret, p)
        }),
{
    let p = payload_of(c);
    let t = token_of(secret, c);
    lemma_payload_shape(c);
    assert(t[p.len() as int] == '.');
    assert forall|j: int| 0 <= j < p.len() implies t[j] != '.' by {
        assert(t[j] == p[j]);
    }
    lemma_dot_index_at(t, p.len() as int);
    assert(t.subrange(0, p.len() as int) =~= p);
    assert(t.subrange(p.len() as int + 1, t.len() as int) =~= hs256_tag(secret, p));
}

/// Round trip: a token minted for a claim set under a secret decodes, under
/// the same secret, to exactly that claim set.
pub proof fn lemma_mint_decode(secret: Seq<u8>, c: ClaimsView)
    ensures
        decode_of(secret, token_of(secret, c)) == Some(c),
{
    lemma_token_shape(secret, c);
    lemma_payload_roundtrip(c);
}

/// Tamper evidence across secrets: when the tag under the decoding secret
/// differs from the tag the token carries, decoding rejects the token. That
/// the two tags differ for different secrets is the signing scheme's
/// collision resistance, assumed, not proved.
pub proof fn lemma_foreign_secret_rejected(mint_secret: Seq<u8>, decode_secret: Seq<u8>, c: ClaimsView)
    ensures
        hs256_tag(decode_secret, payload_of(c)) != hs256_tag(mint_secret, payload_of(c))
            ==> decode_of(decode_secret, token_of(mint_secret, c)) is None,
{
    lemma_token_shape(mint_secret, c);
}

} // verus!
