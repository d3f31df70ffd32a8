//! Authentication rules: password hashing, session claims and cookies,
//! reading the session token from a request, and password resets.
use vstd::prelude::*;
use md5::{Digest, Md5};
use crate::config::{alphanumeric, generate_random_string};
use crate::models::Claims;
use crate::text::{
    append_chars, chars_of, dec_int, has_prefix, is_ws, lemma_lead_ws_char, lemma_trail_ws_char, i64_digits, split, split_chars, starts_with_chars,
    string_of, trim, trim_chars, views,
};

verus! {

/// The lower-case hex MD5 digest of the UTF-8 bytes of a text.
pub uninterp spec fn spec_md5_hex(text: Seq<char>) -> Seq<char>;

/// A lower-case hexadecimal digit.
pub open spec fn lower_hex(c: char) -> bool {
    ('0' <= c && c <= '9') || ('a' <= c && c <= 'f')
}

/// The printed form of a 16-byte digest: 32 lower-case hex digits.
pub open spec fn hex_digest(s: Seq<char>) -> bool {
    s.len() == 32 && forall|i: int| 0 <= i < s.len() ==> lower_hex(#[trigger] s[i])
}

/// MD5 of the text's bytes (`md5::Md5` from the `md-5` crate); the 16-byte
/// digest is printed with `{:x}`, two lower-case hex digits per byte.
#[verifier::external_body]
fn md5_hex(text: &str) -> (r: String)
    ensures
        r@ == spec_md5_hex(text@),
        hex_digest(r@),
{
    let mut hasher = Md5::new();
    hasher.update(text.as_bytes());
    format!("{:x}", hasher.finalize())
}

/// The stored form of a password: MD5 of the password followed by the
/// secret key (the two are hashed as one stream).
pub fn passwd2hash(password: &str, secret_key: &str) -> (r: String)
    ensures
        r@ == spec_md5_hex(password@ + secret_key@),
        hex_digest(r@),
{
    let mut text = password.to_string();
    text.append(secret_key);
    md5_hex(text.as_str())
}

/// Hashes a password with the configured key.
pub fn hash_password(password: &str, password_key: &str) -> (r: String)
    ensures
        r@ == spec_md5_hex(password@ + password_key@),
        hex_digest(r@),
{
    passwd2hash(password, password_key)
}

/// A password matches a stored hash when hashing it gives that hash.
pub fn verify_password(password: &str, stored_hash: &str, password_key: &str) -> (r: bool)
    ensures
        r == (spec_md5_hex(password@ + password_key@) == stored_hash@),
{
    let h = passwd2hash(password, password_key);
    crate::files::str_eq(h.as_str(), stored_hash)
}

/// A random 12-character administrator password of letters and digits.
pub fn generate_random_password() -> (r: String)
    ensures
        r@.len() == 12,
        forall|i: int| 0 <= i < r@.len() ==> alphanumeric(#[trigger] r@[i]),
{
    generate_random_string(12)
}

/// The claims of a session for `user_id` issued at `now` (seconds since the
/// epoch), valid for `expires_hours` hours.
pub fn claims_at(user_id: i64, user_name: &str, expires_hours: u32, now: i64) -> (c: Claims)
    requires
        now + expires_hours * 3600 <= i64::MAX,
    ensures
        c.sub == user_id,
        c.user_name@ == user_name@,
        c.iat == now as usize,
        c.exp == (now + expires_hours * 3600) as usize,
{
    let exp = now + (expires_hours as i64) * 3600;
    Claims { sub: user_id, user_name: user_name.to_string(), iat: now as usize, exp: exp as usize }
}

// ==================== session tokens ====================

/// The token `jsonwebtoken::encode` gives for session claims (HS256, the
/// default header, the claims serialised in the order `sub`, `user_name`,
/// `exp`, `iat`) signed with a secret.
pub uninterp spec fn spec_jwt_token(
    sub: i64,
    user_name: Seq<char>,
    iat: usize,
    exp: usize,
    secret: Seq<char>,
) -> Seq<char>;

/// Signs session claims with `jsonwebtoken::encode` (HS256, default header,
/// key from the secret's bytes); the claims object keeps its insertion order
/// (`serde_json`'s `preserve_order`), so it reads `sub`, `user_name`, `exp`,
/// `iat`. The result is the token for exactly these
/// claims and secret; signing with an HMAC key cannot fail, and decoding the
/// token with the same secret (see [`jwt_claims`]) gives the claims back.
#[verifier::external_body]
fn jwt_encode(sub: i64, user_name: &str, iat: usize, exp: usize, secret: &str) -> (r: String)
    ensures
        r@ == spec_jwt_token(sub, user_name@, iat, exp, secret@),
        spec_jwt_claims(r@, secret@) == Some((sub, user_name@, iat, exp)),
{
    let mut claims = serde_json::Map::new();
    claims.insert("sub".to_string(), sub.into());
    claims.insert("user_name".to_string(), user_name.into());
    claims.insert("exp".to_string(), exp.into());
    claims.insert("iat".to_string(), iat.into());
    let key = jsonwebtoken::EncodingKey::from_secret(secret.as_bytes());
    jsonwebtoken::encode(&jsonwebtoken::Header::default(), &claims, &key).unwrap_or_default()
}

/// The claims (`sub`, `user_name`, `iat`, `exp`) that `jsonwebtoken::decode`
/// reads from a token whose HS256 signature checks out under the secret,
/// before any check of the expiry; none when the signature, the format or a
/// claim is wrong.
pub uninterp spec fn spec_jwt_claims(token: Seq<char>, secret: Seq<char>) -> Option<
    (i64, Seq<char>, usize, usize),
>;

/// The view of decoded claims.
pub open spec fn claims_tuple_view(c: Option<(i64, String, usize, usize)>) -> Option<
    (i64, Seq<char>, usize, usize),
> {
    match c {
        Some(t) => Some((t.0, t.1@, t.2, t.3)),
        None => None,
    }
}

/// Decodes a token with `jsonwebtoken::decode` (default validation, HS256,
/// with the expiry check switched off) and picks the session claims out;
/// the outcome depends on the token and the secret alone. The claims are
/// read as a JSON map, so a claim that a signed payload repeats reads as
/// its last value.
#[verifier::external_body]
fn jwt_claims(token: &str, secret: &str) -> (r: Option<(i64, String, usize, usize)>)
    ensures
        claims_tuple_view(r) == spec_jwt_claims(token@, secret@),
{
    let mut v = jsonwebtoken::Validation::default();
    v.validate_exp = false;
    let key = jsonwebtoken::DecodingKey::from_secret(secret.as_bytes());
    let c = jsonwebtoken::decode::<serde_json::Map<String, serde_json::Value>>(token, &key, &v).ok()?.claims;
    let name = c.get("user_name")?.as_str()?.to_string();
    Some((c.get("sub")?.as_i64()?, name, c.get("iat")?.as_u64()? as usize, c.get("exp")?.as_u64()? as usize))
}

/// The session token for `user_id` issued at `now` (seconds since the epoch)
/// and valid for `expires_hours` hours.
pub fn create_jwt_at(user_id: i64, user_name: &str, expires_hours: u32, now: i64, secret: &str) -> (r: String)
    requires
        now + expires_hours * 3600 <= i64::MAX,
    ensures
        r@ == spec_jwt_token(
            user_id,
            user_name@,
            now as usize,
            (now + expires_hours * 3600) as usize,
            secret@,
        ),
        spec_jwt_claims(r@, secret@) == Some(
            (user_id, user_name@, now as usize, (now + expires_hours * 3600) as usize),
        ),
{
    let c = claims_at(user_id, user_name, expires_hours, now);
    jwt_encode(c.sub, c.user_name.as_str(), c.iat, c.exp, secret)
}

/// The session token for `user_id`, issued now and valid for
/// `expires_hours` hours: the token of [`create_jwt_at`] for the clock's
/// reading in whole seconds (which leaves room for any lifetime, so a
/// token is always made).
pub fn create_jwt(user_id: i64, user_name: &str, expires_hours: u32, secret: &str) -> (r: String)
    ensures
        exists|now: i64|
            now + expires_hours * 3600 <= i64::MAX && r@ == #[trigger] spec_jwt_token(
                user_id,
                user_name@,
                now as usize,
                (now + expires_hours * 3600) as usize,
                secret@,
            ),
{
    let now = crate::scheduler::now_millis() / 1000;
    assert(now <= i64::MAX / 1000);
    create_jwt_at(user_id, user_name, expires_hours, now, secret)
}

/// The claims of a token that are accepted at time `now` (seconds): the
/// decoded claims, when their expiry is no more than 60 seconds (the
/// leeway of `jsonwebtoken`'s default validation) in the past.
pub open spec fn accepted_claims(c: Option<(i64, Seq<char>, usize, usize)>, now: int) -> Option<
    (i64, Seq<char>, usize, usize),
> {
    match c {
        Some(t) => if t.3 >= now - 60 {
            c
        } else {
            None
        },
        None => None,
    }
}

/// The view of session claims as a tuple.
pub open spec fn claims_of(c: Claims) -> (i64, Seq<char>, usize, usize) {
    (c.sub, c.user_name@, c.iat, c.exp)
}

/// The view of optional session claims.
pub open spec fn opt_claims(c: Option<Claims>) -> Option<(i64, Seq<char>, usize, usize)> {
    match c {
        Some(x) => Some(claims_of(x)),
        None => None,
    }
}

/// Checks a session token at time `now` (seconds since the epoch): the
/// claims when the signature checks out under the secret and the token has
/// not expired (with 60 seconds of leeway).
pub fn validate_jwt_at(token: &str, secret: &str, now: u64) -> (r: Option<Claims>)
    ensures
        opt_claims(r) == accepted_claims(spec_jwt_claims(token@, secret@), now as int),
{
    match jwt_claims(token, secret) {
        Some((sub, user_name, iat, exp)) => {
            if (exp as u128) + 60 >= now as u128 {
                Some(Claims { sub, user_name, exp, iat })
            } else {
                None
            }
        },
        None => None,
    }
}

/// Checks a session token against the clock: the claims when the token is
/// accepted now (see [`validate_jwt_at`]), none otherwise. Whatever the
/// clock reads, accepted claims are the token's own, a token whose
/// signature or claims are wrong is refused, and a token that expires no
/// earlier than the last second the clock can read is accepted.
pub fn validate_jwt(token: &str, secret: &str) -> (r: Option<Claims>)
    ensures
        match r {
            Some(c) => spec_jwt_claims(token@, secret@) == Some(claims_of(c)),
            None => true,
        },
        spec_jwt_claims(token@, secret@) is None ==> r is None,
        (spec_jwt_claims(token@, secret@) matches Some(t) && t.3 + 60 >= i64::MAX / 1000) ==> r is Some,
{
    let ms = crate::scheduler::now_millis();
    let now: u64 = if ms < 0 {
        0
    } else {
        (ms / 1000) as u64
    };
    validate_jwt_at(token, secret, now)
}

/// Token lifetime in hours for a configured lifetime in days.
pub fn session_hours(expires_days: u32) -> (r: u32)
    requires
        expires_days * 24 <= u32::MAX,
    ensures
        r == expires_days * 24,
{
    expires_days * 24
}

/// The session cookie set at login.
pub open spec fn session_cookie_text(token: Seq<char>, expires_days: u32) -> Seq<char> {
    "rust_sync="@ + token + "; Path=/; HttpOnly; SameSite=Lax; Max-Age="@ + dec_int(
        expires_days * 86400,
    )
}

/// Builds the session cookie.
pub fn session_cookie(token: &str, expires_days: u32) -> (r: String)
    ensures
        r@ == session_cookie_text(token@, expires_days),
{
    let mut v = chars_of("rust_sync=");
    append_chars(&mut v, &chars_of(token));
    append_chars(&mut v, &chars_of("; Path=/; HttpOnly; SameSite=Lax; Max-Age="));
    append_chars(&mut v, &i64_digits((expires_days as i64) * 86400));
    string_of(&v)
}

/// The cookie name prefix of the session token.
pub open spec fn cookie_key() -> Seq<char> {
    "rust_sync="@
}

/// The token in a cookie header: the first `;`-separated part that, once
/// trimmed, starts with `rust_sync=`, without that prefix.
pub open spec fn cookie_token(parts: Seq<Seq<char>>) -> Option<Seq<char>>
    decreases parts.len(),
{
    if parts.len() == 0 {
        None
    } else {
        let p = trim(parts[0]);
        if has_prefix(p, cookie_key()) {
            Some(p.subrange(cookie_key().len() as int, p.len() as int))
        } else {
            cookie_token(parts.drop_first())
        }
    }
}

/// The token of a request: from the `Cookie` header when present there,
/// otherwise from an `Authorization: Bearer ...` header.
pub open spec fn request_token(cookie: Option<Seq<char>>, authorization: Option<Seq<char>>) -> Option<
    Seq<char>,
> {
    let from_cookie = match cookie {
        Some(c) => cookie_token(split(c, ';')),
        None => None,
    };
    match from_cookie {
        Some(t) => Some(t),
        None => match authorization {
            Some(a) => if has_prefix(a, "Bearer "@) {
                Some(a.subrange(7, a.len() as int))
            } else {
                None
            },
            None => None,
        },
    }
}

/// Reads the session token from the `Cookie` and `Authorization` header
/// values (each `None` when absent or not readable as text).
pub fn extract_token(cookie: Option<&str>, authorization: Option<&str>) -> (r: Option<String>)
    ensures
        match r {
            Some(t) => request_token(
                match cookie {
                    Some(c) => Some(c@),
                    None => None,
                },
                match authorization {
                    Some(a) => Some(a@),
                    None => None,
                },
            ) == Some(t@),
            None => request_token(
                match cookie {
                    Some(c) => Some(c@),
                    None => None,
                },
                match authorization {
                    Some(a) => Some(a@),
                    None => None,
                },
            ) is None,
        },
{
    let key = chars_of("rust_sync=");
    match cookie {
        Some(c) => {
            let parts = split_chars(&chars_of(c), ';');
            let ghost ps = split(c@, ';');
            let mut i: usize = 0;
            assert(ps.subrange(0, ps.len() as int) =~= ps);
            while i < parts.len()
                invariant
                    i <= parts@.len(),
                    views(parts@) == ps,
                    key@ == cookie_key(),
                    cookie == Some(c),
                    ps == split(c@, ';'),
                    cookie_token(ps.subrange(i as int, ps.len() as int)) == cookie_token(ps),
                decreases parts@.len() - i,
            {
                let ghost rest = ps.subrange(i as int, ps.len() as int);
                assert(rest.len() > 0);
                assert(rest[0] == parts@[i as int]@);
                assert(rest.drop_first() =~= ps.subrange(i + 1, ps.len() as int));
                let p = trim_chars(&parts[i]);
                if starts_with_chars(&p, &key) {
                    let tok = crate::text::sub_chars(&p, key.len(), p.len());
                    assert(cookie_token(rest) == Some(tok@));
                    return Some(string_of(&tok));
                }
                i = i + 1;
            }
            assert(ps.subrange(ps.len() as int, ps.len() as int).len() == 0);
        },
        None => {},
    }
    match authorization {
        Some(a) => {
            let av = chars_of(a);
            let bearer = chars_of("Bearer ");
            proof {
                reveal_strlit("Bearer ");
            }
            if starts_with_chars(&av, &bearer) {
                let tok = crate::text::sub_chars(&av, 7, av.len());
                Some(string_of(&tok))
            } else {
                None
            }
        },
        None => None,
    }
}

/// Law: the session cookie set at login authenticates the requests that
/// send it back: its `rust_sync` pair gives the token again, for any token
/// without `;` that does not end in whitespace.
pub proof fn law_session_cookie_round_trip(token: Seq<char>, expires_days: u32)
    requires
        !token.contains(';'),
        token.len() > 0 ==> !is_ws(token.last()),
    ensures
        request_token(Some(session_cookie_text(token, expires_days)), None) == Some(token),
        request_token(Some(cookie_key() + token), None) == Some(token),
{
    reveal_strlit("rust_sync=");
    reveal_strlit("; Path=/; HttpOnly; SameSite=Lax; Max-Age=");
    let key = cookie_key();
    let pair = key + token;
    assert(!pair.contains(';')) by {
        if pair.contains(';') {
            let i = choose|i: int| 0 <= i < pair.len() && pair[i] == ';';
            if i >= key.len() {
                assert(token[i - key.len()] == ';');
            }
        }
    }
    // The pair is its own trimmed form.
    lemma_lead_ws_char(pair, 0);
    lemma_trail_ws_char(pair, 0);
    assert(trim(pair) =~= pair);
    assert(has_prefix(pair, key)) by {
        assert(pair.subrange(0, key.len() as int) =~= key);
    }
    assert(pair.subrange(key.len() as int, pair.len() as int) =~= token);
    // A cookie header holding only the pair.
    crate::text::lemma_split_no_sep(pair, ';');
    assert(cookie_token(split(pair, ';')) == Some(token));
    // The full cookie: the pair comes first.
    let full = session_cookie_text(token, expires_days);
    let k = pair.len() as int;
    assert(full[k] == ';');
    assert forall|i: int| 0 <= i < k implies full[i] != ';' by {
        assert(full[i] == pair[i]);
    }
    crate::text::lemma_split_first(full, ';', k);
    assert(full.subrange(0, k) =~= pair);
    crate::text::lemma_split_two(full, ';', k);
}

/// How a password reset proceeds.
#[derive(Debug, Clone, PartialEq)]
pub enum ResetPlan {
    /// The key does not match the secret.
    WrongKey,
    /// No new password was given: generate one and show it.
    Generate,
    /// Store this (trimmed) new password.
    Use(String),
}

/// Decides a password reset: the trimmed key must equal the token secret;
/// an absent or empty new password asks for a generated one, otherwise the
/// trimmed new password is used.
pub fn reset_plan(key: &str, secret: &str, passwd: Option<&str>) -> (r: ResetPlan)
    ensures
        trim(key@) != secret@ ==> r == ResetPlan::WrongKey,
        trim(key@) == secret@ ==> match passwd {
            None => r == ResetPlan::Generate,
            Some(p) => if p@.len() == 0 {
                r == ResetPlan::Generate
            } else {
                r matches ResetPlan::Use(n) && n@ == trim(p@)
            },
        },
{
    let k = string_of(&trim_chars(&chars_of(key)));
    if !crate::files::str_eq(k.as_str(), secret) {
        return ResetPlan::WrongKey;
    }
    match passwd {
        None => ResetPlan::Generate,
        Some(p) => if p.unicode_len() == 0 {
            ResetPlan::Generate
        } else {
            ResetPlan::Use(string_of(&trim_chars(&chars_of(p))))
        },
    }
}

} // verus!
