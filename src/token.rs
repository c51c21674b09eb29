use hmac::{Hmac, Mac};
use sha2::Sha256;
use vstd::prelude::*;
use vstd::string::StringSliceAdditionalSpecFns;
use vstd::utf8::encode_utf8;

use crate::error::ErrorMessage;
use crate::text::{
    chars_of, copy_range, find_dot, hex_text, i64_text, int_text, lemma_hex_text_injective, lemma_hex_text_no_dot,
    lemma_int_text_injective, lemma_int_text_no_dot, lemma_split_at_dot, no_dot, parse_i64,
    same_chars, string_of, to_hex,
};

verus! {

/// The HMAC-SHA256 tag of `msg` under `key`.
pub uninterp spec fn hmac_sha256(key: Seq<u8>, msg: Seq<u8>) -> Seq<u8>;

/// Relies on `Hmac::<Sha256>::new_from_slice`, `Mac::update` and `Mac::finalize`: HMAC takes
/// a key of any length, and the tag depends on the key and message alone.
#[verifier::external_body]
fn mac_tag(key: &[u8], msg: &str) -> (r: Vec<u8>)
    ensures
        r@ == hmac_sha256(key@, msg.spec_bytes()),
{
    let mut m = <Hmac<Sha256> as Mac>::new_from_slice(key).expect("HMAC accepts any key length");
    m.update(msg.as_bytes());
    m.finalize().into_bytes().to_vec()
}

/// A bound on the size of any timestamp the clock gives, in seconds: chrono's `DateTime<Utc>`
/// spans the years -262144 to 262143, within 8.4e12 seconds of the Unix epoch either way.
pub const CLOCK_BOUND: i64 = 8_400_000_000_000;

/// Relies on `chrono::Utc::now().timestamp()`: the wall-clock time, in seconds since the
/// Unix epoch, of a `DateTime<Utc>` and so within chrono's range of dates.
#[verifier::external_body]
pub(crate) fn now_secs() -> (r: i64)
    ensures
        -CLOCK_BOUND <= r <= CLOCK_BOUND,
{
    chrono::Utc::now().timestamp()
}

/// The decoded claim of a session token: subject (a user id), issue and expiry times in
/// seconds since the Unix epoch.
#[derive(Debug, Clone)]
pub struct TokenClaims {
    pub sub: String,
    pub iat: i64,
    pub exp: i64,
}

/// The signed part of a token: `iat.exp.sub`.
pub open spec fn payload_text(sub: Seq<char>, iat: int, exp: int) -> Seq<char> {
    int_text(iat) + seq!['.'] + int_text(exp) + seq!['.'] + sub
}

/// A token: the hexadecimal HMAC-SHA256 tag of the payload under `key`, a `'.'`, the payload.
pub open spec fn token_text(key: Seq<u8>, sub: Seq<char>, iat: int, exp: int) -> Seq<char> {
    let p = payload_text(sub, iat, exp);
    hex_text(hmac_sha256(key, encode_utf8(p))) + seq!['.'] + p
}

/// What `decode_token_at` returns: the claim exactly when the token is one signed with `key`
/// that has not expired at `now`, else `InvalidToken`.
pub open spec fn decode_post(token: Seq<char>, key: Seq<u8>, now: int, r: Result<TokenClaims, ErrorMessage>) -> bool {
    &&& r matches Ok(c) ==> token == token_text(key, c.sub@, c.iat as int, c.exp as int) && now < c.exp
    &&& r matches Err(e) ==> e == ErrorMessage::InvalidToken
    &&& forall|s: Seq<char>, i: i64, e: i64|
        token == #[trigger] token_text(key, s, i as int, e as int) && now < e
            ==> (r matches Ok(c) && c.sub@ == s && c.iat == i && c.exp == e)
}

/// Issues a token for `user_id`, issued at `now` and expiring `ttl_seconds` later;
/// `ServerError` when the expiry time does not fit.
pub fn create_token_at(user_id: &str, secret: &[u8], now: i64, ttl_seconds: i64) -> (r: Result<String, ErrorMessage>)
    ensures
        r is Ok <==> i64::MIN <= now + ttl_seconds <= i64::MAX,
        r matches Ok(t) ==> t@ == token_text(secret@, user_id@, now as int, now + ttl_seconds),
        r matches Err(e) ==> e == ErrorMessage::ServerError,
{
    let exp = match now.checked_add(ttl_seconds) {
        Some(x) => x,
        None => return Err(ErrorMessage::ServerError),
    };
    proof {
        reveal_strlit(".");
    }
    let mut payload = i64_text(now);
    payload.append(".");
    let e = i64_text(exp);
    payload.append(e.as_str());
    payload.append(".");
    payload.append(user_id);
    assert(payload@ =~= payload_text(user_id@, now as int, exp as int));
    let tag = mac_tag(secret, payload.as_str());
    let hex = to_hex(&tag);
    let mut token = string_of(hex.as_slice());
    token.append(".");
    token.append(payload.as_str());
    assert(token@ =~= token_text(secret@, user_id@, now as int, exp as int));
    Ok(token)
}

/// Issues a token for `user_id` at the current time.
pub fn create_token(user_id: &str, secret: &[u8], ttl_seconds: i64) -> (r: Result<String, ErrorMessage>)
    ensures
        i64::MIN + CLOCK_BOUND <= ttl_seconds <= i64::MAX - CLOCK_BOUND ==> r is Ok,
        r matches Ok(t) ==> exists|now: i64| t@ == #[trigger] token_text(secret@, user_id@, now as int, now + ttl_seconds),
        r matches Err(e) ==> e == ErrorMessage::ServerError,
{
    let now = now_secs();
    create_token_at(user_id, secret, now, ttl_seconds)
}

/// Reads an `i64` from its exact decimal text.
fn read_i64(v: &Vec<char>) -> (r: Option<i64>)
    ensures
        r matches Some(x) ==> v@ == int_text(x as int),
        forall|x: i64| v@ == #[trigger] int_text(x as int) ==> r == Some(x),
{
    let s = string_of(v.as_slice());
    match parse_i64(s.as_str()) {
        Some(x) => {
            let back = chars_of(i64_text(x).as_str());
            if same_chars(&back, v) {
                Some(x)
            } else {
                proof {
                    assert forall|y: i64| v@ == #[trigger] int_text(y as int) implies false by {
                        assert(x == y);
                    }
                }
                None
            }
        },
        None => None,
    }
}

/// Verifies a token against `secret` at time `now`: its tag must match and it must not
/// have expired (`exp <= now` fails).
pub fn decode_token_at(token: &str, secret: &[u8], now: i64) -> (r: Result<TokenClaims, ErrorMessage>)
    ensures
        decode_post(token@, secret@, now as int, r),
{
    let t = chars_of(token);
    let ghost tv = t@;
    let d1 = match find_dot(&t, 0) {
        Some(i) => i,
        None => {
            proof { lemma_no_token(tv, secret@, now as int); }
            return Err(ErrorMessage::InvalidToken);
        },
    };
    let n = t.len();
    assert(d1 < n);
    let sig = copy_range(&t, 0, d1);
    let payload = copy_range(&t, d1 + 1, n);
    assert(tv =~= sig@ + seq!['.'] + payload@);
    assert(sig@ =~= tv.subrange(0, d1 as int));
    let payload_s = string_of(payload.as_slice());
    let tag = mac_tag(secret, payload_s.as_str());
    let expected = to_hex(&tag);
    if !same_chars(&expected, &sig) {
        proof {
            assert forall|s: Seq<char>, i: i64, e: i64|
                tv == #[trigger] token_text(secret@, s, i as int, e as int) implies false by {
                lemma_hex_text_no_dot(hmac_sha256(secret@, encode_utf8(payload_text(s, i as int, e as int))));
                lemma_split_at_dot(sig@, payload@,
                    hex_text(hmac_sha256(secret@, encode_utf8(payload_text(s, i as int, e as int)))),
                    payload_text(s, i as int, e as int));
            }
        }
        return Err(ErrorMessage::InvalidToken);
    }
    let d2 = match find_dot(&payload, 0) {
        Some(i) => i,
        None => {
            proof {
                assert forall|j: int, k: int| 0 <= j < k < payload@.len() && payload@[j] == '.'
                    implies payload@[k] != '.' by {
                    assert(payload@.subrange(0, payload@.len() as int)[j] == payload@[j]);
                }
                lemma_no_payload(tv, sig@, payload@, secret@);
            }
            return Err(ErrorMessage::InvalidToken);
        },
    };
    let d3 = match find_dot(&payload, d2 + 1) {
        Some(i) => i,
        None => {
            proof {
                assert forall|j: int, k: int| 0 <= j < k < payload@.len() && payload@[j] == '.'
                    implies payload@[k] != '.' by {
                    if j < d2 {
                        assert(payload@.subrange(0, d2 as int)[j] == payload@[j]);
                    }
                    assert(payload@.subrange(d2 + 1, payload@.len() as int)[k - d2 - 1] == payload@[k]);
                }
                lemma_no_payload(tv, sig@, payload@, secret@);
            }
            return Err(ErrorMessage::InvalidToken);
        },
    };
    let iat_v = copy_range(&payload, 0, d2);
    let exp_v = copy_range(&payload, d2 + 1, d3);
    let sub_v = copy_range(&payload, d3 + 1, payload.len());
    assert(payload@ =~= iat_v@ + seq!['.'] + exp_v@ + seq!['.'] + sub_v@);
    assert(iat_v@ =~= payload@.subrange(0, d2 as int));
    assert(exp_v@ =~= payload@.subrange(d2 + 1, d3 as int));
    proof { lemma_parts(tv, sig@, payload@, iat_v@, exp_v@, sub_v@, secret@); }
    let iat = match read_i64(&iat_v) {
        Some(x) => x,
        None => return Err(ErrorMessage::InvalidToken),
    };
    let exp = match read_i64(&exp_v) {
        Some(x) => x,
        None => return Err(ErrorMessage::InvalidToken),
    };
    assert(tv == token_text(secret@, sub_v@, iat as int, exp as int));
    if now >= exp {
        proof {
            assert forall|s: Seq<char>, i: i64, e: i64|
                tv == #[trigger] token_text(secret@, s, i as int, e as int) && now < e implies false by {
                lemma_token_text_injective(secret@, s, i as int, e as int, sub_v@, iat as int, exp as int);
            }
        }
        return Err(ErrorMessage::InvalidToken);
    }
    let sub = string_of(sub_v.as_slice());
    let c = TokenClaims { sub, iat, exp };
    proof {
        assert forall|s: Seq<char>, i: i64, e: i64|
            tv == #[trigger] token_text(secret@, s, i as int, e as int) && now < e
                implies c.sub@ == s && c.iat == i && c.exp == e by {
            lemma_token_text_injective(secret@, s, i as int, e as int, sub_v@, iat as int, exp as int);
        }
    }
    Ok(c)
}

/// Verifies a token against `secret` at the current time.
pub fn decode_token(token: &str, secret: &[u8]) -> (r: Result<TokenClaims, ErrorMessage>)
    ensures
        exists|now: i64| decode_post(token@, secret@, now as int, r),
{
    let now = now_secs();
    decode_token_at(token, secret, now)
}

proof fn lemma_no_token(t: Seq<char>, key: Seq<u8>, now: int)
    requires
        no_dot(t.subrange(0, t.len() as int)),
    ensures
        forall|s: Seq<char>, i: i64, e: i64| t != #[trigger] token_text(key, s, i as int, e as int),
{
    assert forall|s: Seq<char>, i: i64, e: i64| t != #[trigger] token_text(key, s, i as int, e as int) by {
        let h = hex_text(hmac_sha256(key, encode_utf8(payload_text(s, i as int, e as int))));
        if t == token_text(key, s, i as int, e as int) {
            assert(t[h.len() as int] == '.');
            assert(t.subrange(0, t.len() as int)[h.len() as int] == '.');
        }
    }
}

proof fn lemma_no_payload(t: Seq<char>, sig: Seq<char>, payload: Seq<char>, key: Seq<u8>)
    requires
        no_dot(sig),
        t == sig + seq!['.'] + payload,
        forall|j: int, k: int| 0 <= j < k < payload.len() && payload[j] == '.' ==> payload[k] != '.',
    ensures
        forall|s: Seq<char>, i: i64, e: i64| t != #[trigger] token_text(key, s, i as int, e as int),
{
    assert forall|s: Seq<char>, i: i64, e: i64| t != #[trigger] token_text(key, s, i as int, e as int) by {
        let p = payload_text(s, i as int, e as int);
        let h = hex_text(hmac_sha256(key, encode_utf8(p)));
        if t == token_text(key, s, i as int, e as int) {
            lemma_hex_text_no_dot(hmac_sha256(key, encode_utf8(p)));
            lemma_split_at_dot(sig, payload, h, p);
            let a = int_text(i as int);
            let b = int_text(e as int);
            assert(p[a.len() as int] == '.');
            assert(p[a.len() as int + 1 + b.len() as int] == '.');
        }
    }
}

proof fn lemma_parts(t: Seq<char>, sig: Seq<char>, payload: Seq<char>, a: Seq<char>, b: Seq<char>,
    sub: Seq<char>, key: Seq<u8>)
    requires
        sig == hex_text(hmac_sha256(key, encode_utf8(payload))),
        t == sig + seq!['.'] + payload,
        payload == a + seq!['.'] + b + seq!['.'] + sub,
        no_dot(a),
        no_dot(b),
    ensures
        forall|x: int, y: int| a == int_text(x) && b == int_text(y) ==> t == token_text(key, sub, x, y),
        forall|s: Seq<char>, i: i64, e: i64| t == #[trigger] token_text(key, s, i as int, e as int)
            ==> a == int_text(i as int) && b == int_text(e as int) && sub == s,
{
    assert forall|x: int, y: int| a == int_text(x) && b == int_text(y) implies t == token_text(key, sub, x, y) by {
        assert(payload =~= payload_text(sub, x, y));
    }
    assert forall|s: Seq<char>, i: i64, e: i64| t == #[trigger] token_text(key, s, i as int, e as int)
        implies a == int_text(i as int) && b == int_text(e as int) && sub == s by {
        let p = payload_text(s, i as int, e as int);
        let h = hex_text(hmac_sha256(key, encode_utf8(p)));
        lemma_hex_text_no_dot(hmac_sha256(key, encode_utf8(payload)));
        lemma_hex_text_no_dot(hmac_sha256(key, encode_utf8(p)));
        lemma_split_at_dot(sig, payload, h, p);
        lemma_int_text_no_dot(i as int);
        lemma_int_text_no_dot(e as int);
        assert(payload =~= a + seq!['.'] + (b + seq!['.'] + sub));
        assert(p =~= int_text(i as int) + seq!['.'] + (int_text(e as int) + seq!['.'] + s));
        lemma_split_at_dot(a, b + seq!['.'] + sub, int_text(i as int), int_text(e as int) + seq!['.'] + s);
        lemma_split_at_dot(b, sub, int_text(e as int), s);
    }
}

/// A token names one claim only.
pub proof fn lemma_token_text_injective(key: Seq<u8>, s1: Seq<char>, i1: int, e1: int,
    s2: Seq<char>, i2: int, e2: int)
    requires
        token_text(key, s1, i1, e1) == token_text(key, s2, i2, e2),
    ensures
        s1 == s2,
        i1 == i2,
        e1 == e2,
{
    let pa = payload_text(s1, i1, e1);
    let pb = payload_text(s2, i2, e2);
    lemma_hex_text_no_dot(hmac_sha256(key, encode_utf8(pa)));
    lemma_hex_text_no_dot(hmac_sha256(key, encode_utf8(pb)));
    lemma_split_at_dot(hex_text(hmac_sha256(key, encode_utf8(pa))), pa,
        hex_text(hmac_sha256(key, encode_utf8(pb))), pb);
    lemma_int_text_no_dot(i1);
    lemma_int_text_no_dot(i2);
    lemma_int_text_no_dot(e1);
    lemma_int_text_no_dot(e2);
    assert(pa =~= int_text(i1) + seq!['.'] + (int_text(e1) + seq!['.'] + s1));
    assert(pb =~= int_text(i2) + seq!['.'] + (int_text(e2) + seq!['.'] + s2));
    lemma_split_at_dot(int_text(i1), int_text(e1) + seq!['.'] + s1, int_text(i2), int_text(e2) + seq!['.'] + s2);
    lemma_split_at_dot(int_text(e1), s1, int_text(e2), s2);
    lemma_int_text_injective(i1, i2);
    lemma_int_text_injective(e1, e2);
}

/// A token issued with `key` decodes with `key`, before its expiry, to the subject and
/// times it was issued with.
pub proof fn lemma_issued_token_decodes(key: Seq<u8>, sub: Seq<char>, iat: i64, exp: i64, now: i64,
    r: Result<TokenClaims, ErrorMessage>)
    requires
        decode_post(token_text(key, sub, iat as int, exp as int), key, now as int, r),
        now < exp,
    ensures
        r matches Ok(c) && c.sub@ == sub && c.iat == iat && c.exp == exp,
{
    assert(token_text(key, sub, iat as int, exp as int) == token_text(key, sub, iat as int, exp as int));
}

/// A token issued with one secret fails with `InvalidToken` under another, whenever the two
/// secrets give different tags for its payload.
pub proof fn lemma_other_secret_rejected(key: Seq<u8>, other: Seq<u8>, sub: Seq<char>, iat: i64,
    exp: i64, now: i64, r: Result<TokenClaims, ErrorMessage>)
    requires
        hmac_sha256(key, encode_utf8(payload_text(sub, iat as int, exp as int)))
            != hmac_sha256(other, encode_utf8(payload_text(sub, iat as int, exp as int))),
        decode_post(token_text(key, sub, iat as int, exp as int), other, now as int, r),
    ensures
        r == Err::<TokenClaims, ErrorMessage>(ErrorMessage::InvalidToken),
{
    if r is Ok {
        let c = r->Ok_0;
        let pa = payload_text(sub, iat as int, exp as int);
        let pb = payload_text(c.sub@, c.iat as int, c.exp as int);
        lemma_hex_text_no_dot(hmac_sha256(key, encode_utf8(pa)));
        lemma_hex_text_no_dot(hmac_sha256(other, encode_utf8(pb)));
        lemma_split_at_dot(hex_text(hmac_sha256(key, encode_utf8(pa))), pa,
            hex_text(hmac_sha256(other, encode_utf8(pb))), pb);
        lemma_hex_text_injective(hmac_sha256(key, encode_utf8(pa)), hmac_sha256(other, encode_utf8(pb)));
    }
}

/// A token whose expiry time has passed fails with `InvalidToken`, its tag valid or not.
pub proof fn lemma_expired_token_rejected(key: Seq<u8>, sub: Seq<char>, iat: i64, exp: i64, now: i64,
    r: Result<TokenClaims, ErrorMessage>)
    requires
        exp <= now,
        decode_post(token_text(key, sub, iat as int, exp as int), key, now as int, r),
    ensures
        r == Err::<TokenClaims, ErrorMessage>(ErrorMessage::InvalidToken),
{
    if r is Ok {
        let c = r->Ok_0;
        lemma_token_text_injective(key, sub, iat as int, exp as int, c.sub@, c.iat as int, c.exp as int);
    }
}

} // verus!
