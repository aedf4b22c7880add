//! Session tokens: compact signed claims in the usual three-segment shape,
//! base64url of a fixed header, a dot, base64url of the canonical claims
//! text, a dot, and an HMAC-SHA-256 signature over the first two segments.
//! The framing is specified and verified here; the digest itself is
//! computed by `jsonwebtoken`'s crypto routines behind trusted contracts.

use vstd::prelude::*;

use crate::b64::{all_b64_bytes, b64_of, b64url_decode, b64url_encode, is_b64_byte,
    lemma_b64_alphabet, lemma_b64_injective, lemma_b64_len};
use crate::claims::{claims_json, claims_to_json, lemma_claims_json_injective, match_seg,
    parse_claims, Claims};
use crate::errors::{Role, TokenError};

verus! {

/// How long a session lasts: seven days, in seconds.
pub const SESSION_SECONDS: u64 = 604800;

/// `{"typ":"JWT","alg":"HS256"}`, the fixed token header.
pub open spec fn header_json() -> Seq<u8> {
    seq![
        123u8, 34u8, 116u8, 121u8, 112u8, 34u8, 58u8, 34u8, 74u8, 87u8, 84u8, 34u8, 44u8, 34u8,
        97u8, 108u8, 103u8, 34u8, 58u8, 34u8, 72u8, 83u8, 50u8, 53u8, 54u8, 34u8, 125u8,
    ]
}

fn header_json_vec() -> (r: Vec<u8>)
    ensures
        r@ == header_json(),
{
    let mut v: Vec<u8> = Vec::new();
    v.push(123);
    v.push(34);
    v.push(116);
    v.push(121);
    v.push(112);
    v.push(34);
    v.push(58);
    v.push(34);
    v.push(74);
    v.push(87);
    v.push(84);
    v.push(34);
    v.push(44);
    v.push(34);
    v.push(97);
    v.push(108);
    v.push(103);
    v.push(34);
    v.push(58);
    v.push(34);
    v.push(72);
    v.push(83);
    v.push(50);
    v.push(53);
    v.push(54);
    v.push(34);
    v.push(125);
    proof {
        assert(v@ =~= header_json());
    }
    v
}

/// The raw HMAC-SHA-256 digest of `msg` under `key`. The digest is a
/// function of its arguments alone; nothing further is assumed of it.
pub uninterp spec fn hmac_sha256(msg: Seq<u8>, key: Seq<u8>) -> Seq<u8>;

/// Relies on `jsonwebtoken::crypto::sign` with `Algorithm::HS256`: it
/// returns the base64url (no padding) text of the HMAC-SHA-256 digest of
/// the message under the key, and its source shows it cannot fail for the
/// HMAC algorithms.
#[verifier::external_body]
fn hs256_sign(msg: &Vec<u8>, key: &Vec<u8>) -> (r: Vec<u8>)
    ensures
        r@ == b64_of(hmac_sha256(msg@, key@)),
{
    let encoding_key = jsonwebtoken::EncodingKey::from_secret(key.as_slice());
    let sig = jsonwebtoken::crypto::sign(msg.as_slice(), &encoding_key, jsonwebtoken::Algorithm::HS256)
        .expect("HMAC signing does not fail");
    sig.into_bytes()
}

/// Relies on `jsonwebtoken::crypto::verify` with `Algorithm::HS256`: it
/// re-signs the message and compares the given signature text with the
/// recomputed base64url text in constant time.
#[verifier::external_body]
fn hs256_verify(sig: &Vec<u8>, msg: &Vec<u8>, key: &Vec<u8>) -> (r: bool)
    ensures
        r == (sig@ == b64_of(hmac_sha256(msg@, key@))),
{
    let sig_str = match core::str::from_utf8(sig.as_slice()) {
        Ok(s) => s,
        Err(_) => {
            return false;
        },
    };
    let decoding_key = jsonwebtoken::DecodingKey::from_secret(key.as_slice());
    jsonwebtoken::crypto::verify(sig_str, msg.as_slice(), &decoding_key, jsonwebtoken::Algorithm::HS256)
        .unwrap_or(false)
}

/// Relies on `String::from_utf8`: ASCII bytes are valid UTF-8 and decode
/// to the string whose UTF-8 form is exactly those bytes.
#[verifier::external_body]
fn ascii_to_string(v: Vec<u8>) -> (r: String)
    requires
        forall|i: int| 0 <= i < v@.len() ==> v@[i] < 128,
    ensures
        vstd::utf8::encode_utf8(r@) == v@,
        vstd::utf8::is_ascii_chars(r@),
{
    String::from_utf8(v).expect("ASCII bytes are valid UTF-8")
}

/// The UTF-8 bytes of a string slice.
fn str_bytes(s: &str) -> (r: Vec<u8>)
    ensures
        r@ == vstd::utf8::encode_utf8(s@),
{
    vstd::string::StrSliceExecFns::as_bytes_vec(s)
}

/// The message a token's signature covers: encoded header, dot, encoded
/// claims.
pub open spec fn signing_input(c: Claims) -> Seq<u8> {
    b64_of(header_json()) + seq![46u8] + b64_of(claims_json(c))
}

/// The token this module issues for claims `c` under `secret`.
pub open spec fn token_bytes(c: Claims, secret: Seq<u8>) -> Seq<u8> {
    signing_input(c) + seq![46u8] + b64_of(hmac_sha256(signing_input(c), secret))
}

/// `t` is shaped like a token carrying claims `c`: the two canonical
/// segments, then any signature-shaped tail (alphabet symbols only).
pub open spec fn framed(t: Seq<u8>, c: Claims, sig: Seq<u8>) -> bool {
    &&& t == signing_input(c) + seq![46u8] + sig
    &&& forall|i: int| 0 <= i < sig.len() ==> is_b64_byte(#[trigger] sig[i])
}

/// What the verifier answers for a well-shaped token: reject a wrong
/// signature, then reject a past expiry (strictly: `exp <= now` is
/// expired), and only then accept.
pub open spec fn framed_outcome(c: Claims, sig: Seq<u8>, secret: Seq<u8>, now: u64) -> Result<
    Claims,
    TokenError,
> {
    if sig != b64_of(hmac_sha256(signing_input(c), secret)) {
        Err(TokenError::SignatureInvalid)
    } else if c.exp <= now {
        Err(TokenError::Expired)
    } else {
        Ok(c)
    }
}

/// The claims issued to `user_id` with `role` at time `now`.
pub open spec fn claims_at(user_id: u64, role: Role, now: u64) -> Claims {
    Claims { sub: user_id, exp: (now + SESSION_SECONDS) as u64, iat: now, role }
}

/// A token of this module is well shaped, and its own signature is the one
/// the verifier recomputes.
pub proof fn lemma_token_framed(c: Claims, secret: Seq<u8>)
    ensures
        framed(token_bytes(c, secret), c, b64_of(hmac_sha256(signing_input(c), secret))),
{
    lemma_b64_alphabet(hmac_sha256(signing_input(c), secret));
}

/// Where each piece of a well-shaped token sits.
pub proof fn lemma_framed_layout(t: Seq<u8>, c: Claims, sig: Seq<u8>)
    requires
        framed(t, c, sig),
    ensures
        ({
            let np = b64_of(claims_json(c)).len() as int;
            &&& b64_of(header_json()).len() == 36
            &&& t.len() == 38 + np + sig.len()
            &&& t.subrange(0, 36) == b64_of(header_json())
            &&& t[36] == 46
            &&& t.subrange(37, 37 + np) == b64_of(claims_json(c))
            &&& t[37 + np] == 46
            &&& t.subrange(38 + np, t.len() as int) == sig
            &&& t.subrange(0, 37 + np) == signing_input(c)
            &&& forall|i: int| 0 <= i < t.len() && t[i] == 46 ==> (i == 36 || i == 37 + np)
        }),
{
    lemma_b64_len(header_json());
    let np = b64_of(claims_json(c)).len() as int;
    assert(t.subrange(0, 36) =~= b64_of(header_json()));
    assert(t.subrange(37, 37 + np) =~= b64_of(claims_json(c)));
    assert(t.subrange(38 + np, t.len() as int) =~= sig);
    assert(t.subrange(0, 37 + np) =~= signing_input(c));
    lemma_b64_alphabet(header_json());
    lemma_b64_alphabet(claims_json(c));
    assert forall|i: int| 0 <= i < t.len() && t[i] == 46 implies (i == 36 || i == 37 + np) by {
        if i < 36 {
            assert(t[i] == b64_of(header_json())[i]);
            assert(is_b64_byte(t[i]));
        } else if 37 <= i < 37 + np {
            assert(t[i] == b64_of(claims_json(c))[i - 37]);
            assert(is_b64_byte(t[i]));
        } else if i > 37 + np {
            assert(t[i] == sig[i - 38 - np]);
            assert(is_b64_byte(t[i]));
        }
    }
}

/// Two framings of one byte string carry the same claims and signature.
proof fn lemma_framed_unique(t: Seq<u8>, c1: Claims, sig1: Seq<u8>, c2: Claims, sig2: Seq<u8>)
    requires
        framed(t, c1, sig1),
        framed(t, c2, sig2),
    ensures
        c1 == c2,
        sig1 == sig2,
{
    lemma_framed_layout(t, c1, sig1);
    lemma_framed_layout(t, c2, sig2);
    let np1 = b64_of(claims_json(c1)).len() as int;
    let np2 = b64_of(claims_json(c2)).len() as int;
    assert(np1 == np2) by {
        if np1 < np2 {
            assert(t[37 + np1] == 46);
        }
        if np2 < np1 {
            assert(t[37 + np2] == 46);
        }
    }
    assert(b64_of(claims_json(c1)) == b64_of(claims_json(c2)));
    lemma_b64_injective(claims_json(c1), claims_json(c2));
    lemma_claims_json_injective(c1, c2);
    assert(sig1 =~= sig2);
}

/// The position of the first dot at or after `from`.
fn first_dot_from(v: &Vec<u8>, from: usize) -> (r: Option<usize>)
    requires
        from <= v@.len(),
    ensures
        r matches Some(d) ==> (from <= d < v@.len() && v@[d as int] == 46 && forall|k: int|
            from <= k < d ==> v@[k] != 46),
        r is None ==> forall|k: int| from <= k < v@.len() ==> v@[k] != 46,
{
    let mut i: usize = from;
    while i < v.len()
        invariant
            from <= i <= v@.len(),
            forall|k: int| from <= k < i ==> v@[k] != 46,
        decreases v@.len() - i,
    {
        if v[i] == 46 {
            return Some(i);
        }
        i = i + 1;
    }
    None
}

/// Copy `v[from..to]` out as its own vector.
fn sub_vec(v: &Vec<u8>, from: usize, to: usize) -> (r: Vec<u8>)
    requires
        from <= to <= v@.len(),
    ensures
        r@ == v@.subrange(from as int, to as int),
{
    let mut out: Vec<u8> = Vec::new();
    let mut i: usize = from;
    while i < to
        invariant
            from <= i <= to <= v@.len(),
            out@ == v@.subrange(from as int, i as int),
        decreases to - i,
    {
        out.push(v[i]);
        proof {
            assert(v@.subrange(from as int, i + 1) =~= v@.subrange(from as int, i as int).push(
                v@[i as int],
            ));
        }
        i = i + 1;
    }
    out
}

/// Issue a signed session token for `user_id` with `role` at time `now`:
/// the claims expire exactly `SESSION_SECONDS` after `now`.
pub fn generate_jwt(user_id: u64, role: Role, secret: &Vec<u8>, now: u64) -> (r: String)
    requires
        now <= u64::MAX - SESSION_SECONDS,
    ensures
        vstd::utf8::encode_utf8(r@) == token_bytes(claims_at(user_id, role, now), secret@),
        vstd::utf8::is_ascii_chars(r@),
{
    let c = Claims { sub: user_id, exp: now + SESSION_SECONDS, iat: now, role };
    let header = header_json_vec();
    let mut t = b64url_encode(&header);
    t.push(46);
    let payload = claims_to_json(&c);
    let mut pb = b64url_encode(&payload);
    t.append(&mut pb);
    proof {
        assert(t@ =~= signing_input(c));
    }
    let mut sig = hs256_sign(&t, secret);
    t.push(46);
    t.append(&mut sig);
    proof {
        assert(t@ =~= token_bytes(c, secret@));
        lemma_token_framed(c, secret@);
        lemma_framed_layout(t@, c, b64_of(hmac_sha256(signing_input(c), secret@)));
        lemma_b64_alphabet(header_json());
        lemma_b64_alphabet(claims_json(c));
        lemma_b64_alphabet(hmac_sha256(signing_input(c), secret@));
        let np = b64_of(claims_json(c)).len() as int;
        assert forall|i: int| 0 <= i < t@.len() implies t@[i] < 128 by {
            if i < 36 {
                assert(t@[i] == b64_of(header_json())[i]);
                assert(is_b64_byte(t@[i]));
            } else if i == 36 || i == 37 + np {
                assert(t@[i] == 46);
            } else if 37 <= i < 37 + np {
                assert(t@[i] == b64_of(claims_json(c))[i - 37]);
                assert(is_b64_byte(t@[i]));
            } else {
                assert(t@[i] == b64_of(hmac_sha256(signing_input(c), secret@))[i - 38 - np]);
                assert(is_b64_byte(t@[i]));
            }
        }
    }
    ascii_to_string(t)
}

/// Check a session token: its shape, its signature under `secret`, and
/// its expiry against `now`. The contract decides the answer for every
/// input: a token shaped as `framed` describes is answered exactly as
/// `framed_outcome` says, and any other string is `Malformed`.
#[verifier::rlimit(100)]
pub fn verify_jwt(token: &str, secret: &Vec<u8>, now: u64) -> (r: Result<Claims, TokenError>)
    ensures
        ({
            let tb = vstd::utf8::encode_utf8(token@);
            &&& forall|c: Claims, sig: Seq<u8>|
                framed(tb, c, sig) ==> r == framed_outcome(c, sig, secret@, now)
            &&& (!exists|c: Claims, sig: Seq<u8>| framed(tb, c, sig)) ==> r == Err::<
                Claims,
                TokenError,
            >(TokenError::Malformed)
        }),
{
    let tb = str_bytes(token);
    // bind the length once so its usize bound is available to the proofs
    let _tb_len = tb.len();
    let ghost tbs = tb@;
    proof {
        assert forall|c: Claims, sig: Seq<u8>| framed(tbs, c, sig) implies ({
            let np = b64_of(claims_json(c)).len() as int;
            &&& tbs.len() == 38 + np + sig.len()
            &&& tbs.subrange(0, 36) == b64_of(header_json())
            &&& tbs[36] == 46
            &&& tbs.subrange(37, 37 + np) == b64_of(claims_json(c))
            &&& tbs[37 + np] == 46
            &&& tbs.subrange(38 + np, tbs.len() as int) == sig
            &&& tbs.subrange(0, 37 + np) == signing_input(c)
            &&& forall|i: int| 0 <= i < tbs.len() && tbs[i] == 46 ==> (i == 36 || i == 37 + np)
        }) by {
            lemma_framed_layout(tbs, c, sig);
        }
    }
    let d1 = match first_dot_from(&tb, 0) {
        Some(d) => d,
        None => {
            return Err(TokenError::Malformed);
        },
    };
    let d2 = match first_dot_from(&tb, d1 + 1) {
        Some(d) => d,
        None => {
            return Err(TokenError::Malformed);
        },
    };
    proof {
        assert forall|c: Claims, sig: Seq<u8>| framed(tbs, c, sig) implies ({
            let np = b64_of(claims_json(c)).len() as int;
            d1 == 36 && d2 == 37 + np
        }) by {
            let np = b64_of(claims_json(c)).len() as int;
            assert(d1 == 36 || d1 == 37 + np);
            if d1 == 37 + np {
                assert(tbs[36] == 46);
            }
            assert(d2 == 37 + np);
        }
    }
    if first_dot_from(&tb, d2 + 1).is_some() {
        proof {
            assert forall|c: Claims, sig: Seq<u8>| !framed(tbs, c, sig) by {
                if framed(tbs, c, sig) {
                    let np = b64_of(claims_json(c)).len() as int;
                    assert(d2 == 37 + np);
                }
            }
        }
        return Err(TokenError::Malformed);
    }
    let header = header_json_vec();
    let hb = b64url_encode(&header);
    if !(d1 == 36 && match_seg(&tb, 0, &hb)) {
        proof {
            assert forall|c: Claims, sig: Seq<u8>| !framed(tbs, c, sig) by {
                if framed(tbs, c, sig) {
                    assert(tbs.subrange(0, 36) == b64_of(header_json()));
                    assert(36 + hb@.len() <= tbs.len());
                }
            }
        }
        return Err(TokenError::Malformed);
    }
    let payload = sub_vec(&tb, 37, d2);
    let json = match b64url_decode(&payload) {
        Some(j) => j,
        None => {
            proof {
                assert forall|c: Claims, sig: Seq<u8>| !framed(tbs, c, sig) by {
                    if framed(tbs, c, sig) {
                        let np = b64_of(claims_json(c)).len() as int;
                        assert(payload@ == b64_of(claims_json(c)));
                    }
                }
            }
            return Err(TokenError::Malformed);
        },
    };
    let c_parsed = match parse_claims(&json) {
        Some(c) => c,
        None => {
            proof {
                assert forall|c: Claims, sig: Seq<u8>| !framed(tbs, c, sig) by {
                    if framed(tbs, c, sig) {
                        let np = b64_of(claims_json(c)).len() as int;
                        assert(payload@ == b64_of(claims_json(c)));
                        lemma_b64_injective(json@, claims_json(c));
                    }
                }
            }
            return Err(TokenError::Malformed);
        },
    };
    if !all_b64_bytes(&tb, d2 + 1) {
        proof {
            assert forall|c: Claims, sig: Seq<u8>| !framed(tbs, c, sig) by {
                if framed(tbs, c, sig) {
                    let np = b64_of(claims_json(c)).len() as int;
                    assert(tbs.subrange(38 + np, tbs.len() as int) == sig);
                    assert forall|k: int| d2 + 1 <= k < tbs.len() implies is_b64_byte(
                        #[trigger] tbs[k],
                    ) by {
                        assert(tbs[k] == sig[k - 38 - np]);
                    }
                }
            }
        }
        return Err(TokenError::Malformed);
    }
    // The token is well shaped; `c_parsed` and the tail are the unique
    // claims and signature it can be framed with.
    let sig_part = sub_vec(&tb, d2 + 1, tb.len());
    let msg_part = sub_vec(&tb, 0, d2);
    proof {
        assert(json@ == claims_json(c_parsed));
        assert(framed(tbs, c_parsed, sig_part@)) by {
            lemma_b64_len(header_json());
            assert(hb@.len() == 36);
            assert(tbs.subrange(0, 36) == hb@);
            assert(tbs[36] == 46);
            assert(tbs[d2 as int] == 46);
            assert(payload@ == b64_of(claims_json(c_parsed)));
            assert(tbs.subrange(37, d2 as int) == b64_of(claims_json(c_parsed)));
            assert(tbs =~= signing_input(c_parsed) + seq![46u8] + sig_part@);
        }
        assert forall|c: Claims, sig: Seq<u8>| framed(tbs, c, sig) implies c == c_parsed && sig
            == sig_part@ by {
            lemma_framed_unique(tbs, c, sig, c_parsed, sig_part@);
        }
        assert(msg_part@ == signing_input(c_parsed));
    }
    let sig_ok = hs256_verify(&sig_part, &msg_part, secret);
    if !sig_ok {
        return Err(TokenError::SignatureInvalid);
    }
    if c_parsed.exp <= now {
        return Err(TokenError::Expired);
    }
    Ok(c_parsed)
}

/// Issuing then verifying: the token issued for `user_id` with `role` at
/// `now_issue` carries exactly those claims, with `iat == now_issue` and
/// `exp == iat + SESSION_SECONDS`; under the same secret, before expiry,
/// the verifier accepts it with exactly those claims.
pub proof fn lemma_issue_then_verify(
    user_id: u64,
    role: Role,
    now_issue: u64,
    now_check: u64,
    secret: Seq<u8>,
)
    requires
        now_issue <= u64::MAX - SESSION_SECONDS,
        now_check < now_issue + SESSION_SECONDS,
    ensures
        ({
            let c = claims_at(user_id, role, now_issue);
            let sig = b64_of(hmac_sha256(signing_input(c), secret));
            &&& c.sub == user_id
            &&& c.role == role
            &&& c.iat == now_issue
            &&& c.exp == c.iat + SESSION_SECONDS
            &&& framed(token_bytes(c, secret), c, sig)
            &&& framed_outcome(c, sig, secret, now_check) == Ok::<Claims, TokenError>(c)
        }),
{
    lemma_token_framed(claims_at(user_id, role, now_issue), secret);
}

/// A token whose expiry has passed is rejected as `Expired` even when it
/// carries the valid signature for `secret`.
pub proof fn lemma_expired_rejected(c: Claims, secret: Seq<u8>, now: u64)
    requires
        c.exp <= now,
    ensures
        framed(token_bytes(c, secret), c, b64_of(hmac_sha256(signing_input(c), secret))),
        framed_outcome(c, b64_of(hmac_sha256(signing_input(c), secret)), secret, now) == Err::<
            Claims,
            TokenError,
        >(TokenError::Expired),
{
    lemma_token_framed(c, secret);
}

/// A well-shaped token whose signature text is not the one `secret`
/// yields for its claims is rejected as `SignatureInvalid`, whatever the
/// clock reads. A token signed under a different secret is rejected
/// whenever the two secrets yield different signature texts.
pub proof fn lemma_wrong_signature_rejected(c: Claims, sig: Seq<u8>, secret: Seq<u8>, now: u64)
    requires
        sig != b64_of(hmac_sha256(signing_input(c), secret)),
    ensures
        framed_outcome(c, sig, secret, now) == Err::<Claims, TokenError>(
            TokenError::SignatureInvalid,
        ),
{
}

} // verus!
