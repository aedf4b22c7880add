//! The claims carried by a session token and their canonical JSON text.
//!
//! A claims value is written as
//! `{"sub":"<id>","exp":<n>,"iat":<n>,"role":"<user|admin>"}`, the subject
//! as a quoted decimal string, the two timestamps as plain decimal
//! numbers. The parser accepts exactly that text: it scans the fields and
//! then re-serializes, so that only the canonical spelling is accepted.

use vstd::prelude::*;

use crate::digits::{dec_rep, is_digit, lemma_dec_rep_digits, lemma_dec_rep_value, scan_u64,
    u64_to_dec};
use crate::errors::Role;

verus! {

/// The payload of a session token: subject id, expiry, issue time, role.
/// Timestamps are whole seconds since the Unix epoch.
#[derive(Clone, Copy, PartialEq, Eq, Structural, Debug)]
pub struct Claims {
    /// Subject: the user's unique id.
    pub sub: u64,
    /// Expiration time.
    pub exp: u64,
    /// Issued-at time.
    pub iat: u64,
    /// The subject's role.
    pub role: Role,
}

/// `{"sub":"`
pub open spec fn seg_sub() -> Seq<u8> {
    seq![123u8, 34u8, 115u8, 117u8, 98u8, 34u8, 58u8, 34u8]
}

/// `","exp":`
pub open spec fn seg_exp() -> Seq<u8> {
    seq![34u8, 44u8, 34u8, 101u8, 120u8, 112u8, 34u8, 58u8]
}

/// `,"iat":`
pub open spec fn seg_iat() -> Seq<u8> {
    seq![44u8, 34u8, 105u8, 97u8, 116u8, 34u8, 58u8]
}

/// `,"role":"`
pub open spec fn seg_role() -> Seq<u8> {
    seq![44u8, 34u8, 114u8, 111u8, 108u8, 101u8, 34u8, 58u8, 34u8]
}

/// `"}`
pub open spec fn seg_end() -> Seq<u8> {
    seq![34u8, 125u8]
}

/// The wire text of a role.
pub open spec fn role_bytes(r: Role) -> Seq<u8> {
    match r {
        Role::User => seq![117u8, 115u8, 101u8, 114u8],
        Role::Admin => seq![97u8, 100u8, 109u8, 105u8, 110u8],
    }
}

/// The canonical JSON text of a claims value.
pub open spec fn claims_json(c: Claims) -> Seq<u8> {
    seg_sub() + dec_rep(c.sub) + seg_exp() + dec_rep(c.exp) + seg_iat() + dec_rep(c.iat)
        + seg_role() + role_bytes(c.role) + seg_end()
}

/// The layout of the canonical text of `c`: where each piece sits in a
/// byte string `v` that equals that text.
pub open spec fn json_layout(v: Seq<u8>, c: Claims) -> bool {
    let n1 = dec_rep(c.sub).len() as int;
    let n2 = dec_rep(c.exp).len() as int;
    let n3 = dec_rep(c.iat).len() as int;
    &&& n1 >= 1
    &&& n2 >= 1
    &&& n3 >= 1
    &&& v.len() == 34 + n1 + n2 + n3 + role_bytes(c.role).len()
    &&& v.subrange(0, 8) == seg_sub()
    &&& v.subrange(8, 8 + n1) == dec_rep(c.sub)
    &&& v.subrange(8 + n1, 16 + n1) == seg_exp()
    &&& v.subrange(16 + n1, 16 + n1 + n2) == dec_rep(c.exp)
    &&& v.subrange(16 + n1 + n2, 23 + n1 + n2) == seg_iat()
    &&& v.subrange(23 + n1 + n2, 23 + n1 + n2 + n3) == dec_rep(c.iat)
    &&& v.subrange(23 + n1 + n2 + n3, 32 + n1 + n2 + n3) == seg_role()
    &&& v.subrange(32 + n1 + n2 + n3, v.len() as int) == role_bytes(c.role) + seg_end()
}

proof fn lemma_claims_json_structure(c: Claims)
    ensures
        json_layout(claims_json(c), c),
{
    let j = claims_json(c);
    let n1 = dec_rep(c.sub).len() as int;
    let n2 = dec_rep(c.exp).len() as int;
    let n3 = dec_rep(c.iat).len() as int;
    lemma_dec_rep_digits(c.sub);
    lemma_dec_rep_digits(c.exp);
    lemma_dec_rep_digits(c.iat);
    assert(j.subrange(0, 8) =~= seg_sub());
    assert(j.subrange(8, 8 + n1) =~= dec_rep(c.sub));
    assert(j.subrange(8 + n1, 16 + n1) =~= seg_exp());
    assert(j.subrange(16 + n1, 16 + n1 + n2) =~= dec_rep(c.exp));
    assert(j.subrange(16 + n1 + n2, 23 + n1 + n2) =~= seg_iat());
    assert(j.subrange(23 + n1 + n2, 23 + n1 + n2 + n3) =~= dec_rep(c.iat));
    assert(j.subrange(23 + n1 + n2 + n3, 32 + n1 + n2 + n3) =~= seg_role());
    assert(j.subrange(32 + n1 + n2 + n3, j.len() as int) =~= role_bytes(c.role) + seg_end());
}

/// Does `v` hold exactly `seg` starting at `at`?
pub(crate) fn match_seg(v: &Vec<u8>, at: usize, seg: &Vec<u8>) -> (r: bool)
    requires
        at <= v@.len(),
    ensures
        r == (at + seg@.len() <= v@.len() && v@.subrange(at as int, at + seg@.len()) == seg@),
{
    let vlen = v.len();
    if seg.len() > vlen - at {
        return false;
    }
    let mut k: usize = 0;
    while k < seg.len()
        invariant
            vlen == v@.len(),
            at + seg@.len() <= v@.len(),
            0 <= k <= seg@.len(),
            forall|m: int| 0 <= m < k ==> v@[at + m] == seg@[m],
        decreases seg@.len() - k,
    {
        if v[at + k] != seg[k] {
            proof {
                assert(v@.subrange(at as int, at + seg@.len())[k as int] != seg@[k as int]);
            }
            return false;
        }
        k = k + 1;
    }
    proof {
        assert(v@.subrange(at as int, at + seg@.len()) =~= seg@);
    }
    true
}

fn seg_sub_vec() -> (r: Vec<u8>)
    ensures
        r@ == seg_sub(),
{
    let mut v: Vec<u8> = Vec::new();
    v.push(123);
    v.push(34);
    v.push(115);
    v.push(117);
    v.push(98);
    v.push(34);
    v.push(58);
    v.push(34);
    proof {
        assert(v@ =~= seg_sub());
    }
    v
}

fn seg_exp_vec() -> (r: Vec<u8>)
    ensures
        r@ == seg_exp(),
{
    let mut v: Vec<u8> = Vec::new();
    v.push(34);
    v.push(44);
    v.push(34);
    v.push(101);
    v.push(120);
    v.push(112);
    v.push(34);
    v.push(58);
    proof {
        assert(v@ =~= seg_exp());
    }
    v
}

fn seg_iat_vec() -> (r: Vec<u8>)
    ensures
        r@ == seg_iat(),
{
    let mut v: Vec<u8> = Vec::new();
    v.push(44);
    v.push(34);
    v.push(105);
    v.push(97);
    v.push(116);
    v.push(34);
    v.push(58);
    proof {
        assert(v@ =~= seg_iat());
    }
    v
}

fn seg_role_vec() -> (r: Vec<u8>)
    ensures
        r@ == seg_role(),
{
    let mut v: Vec<u8> = Vec::new();
    v.push(44);
    v.push(34);
    v.push(114);
    v.push(111);
    v.push(108);
    v.push(101);
    v.push(34);
    v.push(58);
    v.push(34);
    proof {
        assert(v@ =~= seg_role());
    }
    v
}

fn user_tail_vec() -> (r: Vec<u8>)
    ensures
        r@ == role_bytes(Role::User) + seg_end(),
{
    let mut v: Vec<u8> = Vec::new();
    v.push(117);
    v.push(115);
    v.push(101);
    v.push(114);
    v.push(34);
    v.push(125);
    proof {
        assert(v@ =~= role_bytes(Role::User) + seg_end());
    }
    v
}

fn admin_tail_vec() -> (r: Vec<u8>)
    ensures
        r@ == role_bytes(Role::Admin) + seg_end(),
{
    let mut v: Vec<u8> = Vec::new();
    v.push(97);
    v.push(100);
    v.push(109);
    v.push(105);
    v.push(110);
    v.push(34);
    v.push(125);
    proof {
        assert(v@ =~= role_bytes(Role::Admin) + seg_end());
    }
    v
}

/// Write a claims value as its canonical JSON text.
pub fn claims_to_json(c: &Claims) -> (r: Vec<u8>)
    ensures
        r@ == claims_json(*c),
{
    let mut v = seg_sub_vec();
    let mut d = u64_to_dec(c.sub);
    v.append(&mut d);
    let mut s = seg_exp_vec();
    v.append(&mut s);
    let mut d2 = u64_to_dec(c.exp);
    v.append(&mut d2);
    let mut s2 = seg_iat_vec();
    v.append(&mut s2);
    let mut d3 = u64_to_dec(c.iat);
    v.append(&mut d3);
    let mut s3 = seg_role_vec();
    v.append(&mut s3);
    let mut tail = match c.role {
        Role::User => user_tail_vec(),
        Role::Admin => admin_tail_vec(),
    };
    v.append(&mut tail);
    proof {
        assert(v@ =~= claims_json(*c));
    }
    v
}

/// Scan the three numeric fields. Only completeness is promised: on the
/// canonical text of some claims value, the scan recovers the numbers and
/// the position of the role text.
#[verifier::rlimit(100)]
fn scan_nums(v: &Vec<u8>) -> (r: Option<(u64, u64, u64, usize)>)
    ensures
        r matches Some(q) ==> q.3 <= v@.len(),
        forall|c: Claims| v@ == claims_json(c) ==> ({
            let n1 = dec_rep(c.sub).len() as int;
            let n2 = dec_rep(c.exp).len() as int;
            let n3 = dec_rep(c.iat).len() as int;
            r matches Some(q) && q.0 == c.sub && q.1 == c.exp && q.2 == c.iat && q.3 == 32 + n1
                + n2 + n3
        }),
{
    // bind the length once so its usize bound is available to the proofs
    let _vlen = v.len();
    proof {
        assert forall|c: Claims| v@ == claims_json(c) implies json_layout(v@, c) by {
            lemma_claims_json_structure(c);
        }
    }
    let s1 = seg_sub_vec();
    if !match_seg(v, 0, &s1) {
        return None;
    }
    let p1: usize = 8;
    let r1 = scan_u64(v, p1);
    proof {
        assert forall|c: Claims| v@ == claims_json(c) implies ({
            let n1 = dec_rep(c.sub).len() as int;
            r1 matches Some(p) && p.0 == c.sub && p.1 == 8 + n1
        }) by {
            let n1 = dec_rep(c.sub).len() as int;
            assert(8 + n1 <= v@.len());
            assert(v@.subrange(8, 8 + n1) == dec_rep(c.sub));
            assert(v@[8 + n1] == seg_exp()[0]);
            assert(!is_digit(v@[8 + n1]));
        }
    }
    let (sub, p2) = match r1 {
        Some(x) => x,
        None => {
            return None;
        },
    };
    let s2 = seg_exp_vec();
    if !match_seg(v, p2, &s2) {
        proof {
            assert forall|c: Claims| v@ == claims_json(c) implies false by {
                let n1 = dec_rep(c.sub).len() as int;
                assert(p2 == 8 + n1);
                assert(16 + n1 <= v@.len());
                assert(v@.subrange(8 + n1, 16 + n1) == seg_exp());
            }
        }
        return None;
    }
    let p3 = p2 + 8;
    let r2 = scan_u64(v, p3);
    proof {
        assert forall|c: Claims| v@ == claims_json(c) implies ({
            let n1 = dec_rep(c.sub).len() as int;
            let n2 = dec_rep(c.exp).len() as int;
            r2 matches Some(p) && p.0 == c.exp && p.1 == 16 + n1 + n2
        }) by {
            let n1 = dec_rep(c.sub).len() as int;
            let n2 = dec_rep(c.exp).len() as int;
            assert(16 + n1 + n2 <= v@.len());
            assert(p3 == 16 + n1);
            assert(v@.subrange(16 + n1, 16 + n1 + n2) == dec_rep(c.exp));
            assert(v@[16 + n1 + n2] == seg_iat()[0]);
            assert(!is_digit(v@[16 + n1 + n2]));
        }
    }
    let (exp, p4) = match r2 {
        Some(x) => x,
        None => {
            return None;
        },
    };
    let s3 = seg_iat_vec();
    if !match_seg(v, p4, &s3) {
        proof {
            assert forall|c: Claims| v@ == claims_json(c) implies false by {
                let n1 = dec_rep(c.sub).len() as int;
                let n2 = dec_rep(c.exp).len() as int;
                assert(p4 == 16 + n1 + n2);
                assert(23 + n1 + n2 <= v@.len());
                assert(v@.subrange(16 + n1 + n2, 23 + n1 + n2) == seg_iat());
            }
        }
        return None;
    }
    let p5 = p4 + 7;
    let r3 = scan_u64(v, p5);
    proof {
        assert forall|c: Claims| v@ == claims_json(c) implies ({
            let n1 = dec_rep(c.sub).len() as int;
            let n2 = dec_rep(c.exp).len() as int;
            let n3 = dec_rep(c.iat).len() as int;
            r3 matches Some(p) && p.0 == c.iat && p.1 == 23 + n1 + n2 + n3
        }) by {
            let n1 = dec_rep(c.sub).len() as int;
            let n2 = dec_rep(c.exp).len() as int;
            let n3 = dec_rep(c.iat).len() as int;
            assert(23 + n1 + n2 + n3 <= v@.len());
            assert(p5 == 23 + n1 + n2);
            assert(v@.subrange(23 + n1 + n2, 23 + n1 + n2 + n3) == dec_rep(c.iat));
            assert(v@[23 + n1 + n2 + n3] == seg_role()[0]);
            assert(!is_digit(v@[23 + n1 + n2 + n3]));
        }
    }
    let (iat, p6) = match r3 {
        Some(x) => x,
        None => {
            return None;
        },
    };
    let s4 = seg_role_vec();
    if !match_seg(v, p6, &s4) {
        proof {
            assert forall|c: Claims| v@ == claims_json(c) implies false by {
                let n1 = dec_rep(c.sub).len() as int;
                let n2 = dec_rep(c.exp).len() as int;
                let n3 = dec_rep(c.iat).len() as int;
                assert(p6 == 23 + n1 + n2 + n3);
                assert(32 + n1 + n2 + n3 <= v@.len());
                assert(v@.subrange(23 + n1 + n2 + n3, 32 + n1 + n2 + n3) == seg_role());
            }
        }
        return None;
    }
    let p7 = p6 + 9;
    Some((sub, exp, iat, p7))
}

/// Scan the fields out of `v`. Only completeness is promised: on the
/// canonical text of some claims value, the scan recovers that value.
#[verifier::rlimit(100)]
fn scan_claims(v: &Vec<u8>) -> (r: Option<Claims>)
    ensures
        forall|c: Claims| v@ == claims_json(c) ==> r == Some(c),
{
    // bind the length once so its usize bound is available to the proofs
    let _vlen = v.len();
    proof {
        assert forall|c: Claims| v@ == claims_json(c) implies json_layout(v@, c) by {
            lemma_claims_json_structure(c);
        }
    }
    let q = scan_nums(v);
    let (sub, exp, iat, p7) = match q {
        Some(x) => x,
        None => {
            return None;
        },
    };
    proof {
        assert forall|c: Claims| v@ == claims_json(c) implies {
            v@.subrange(p7 as int, v@.len() as int) == role_bytes(c.role) + seg_end()
        } by {
            let n1 = dec_rep(c.sub).len() as int;
            let n2 = dec_rep(c.exp).len() as int;
            let n3 = dec_rep(c.iat).len() as int;
            assert(p7 == 32 + n1 + n2 + n3);
        }
    }
    let ut = user_tail_vec();
    if match_seg(v, p7, &ut) {
        if v.len() == p7 + 6 {
            let out = Claims { sub, exp, iat, role: Role::User };
            proof {
                assert forall|c: Claims| v@ == claims_json(c) implies Some(out) == Some(c) by {
                    if c.role is Admin {
                        assert(role_bytes(c.role).len() == 5);
                        assert(v@.len() == p7 + 7);
                    }
                }
            }
            return Some(out);
        }
    }
    let at = admin_tail_vec();
    if match_seg(v, p7, &at) {
        if v.len() == p7 + 7 {
            let out = Claims { sub, exp, iat, role: Role::Admin };
            proof {
                assert forall|c: Claims| v@ == claims_json(c) implies Some(out) == Some(c) by {
                    if c.role is User {
                        assert(role_bytes(c.role).len() == 4);
                        assert(v@.len() == p7 + 6);
                    }
                }
            }
            return Some(out);
        }
    }
    proof {
        assert forall|c: Claims| v@ == claims_json(c) implies false by {
            assert(v@.subrange(p7 as int, v@.len() as int) == role_bytes(c.role) + seg_end());
            if c.role is User {
                assert(v@.len() == p7 + 6);
                assert(v@.subrange(p7 as int, p7 + 6) == role_bytes(Role::User) + seg_end());
            } else {
                assert(v@.len() == p7 + 7);
                assert(v@.subrange(p7 as int, p7 + 7) == role_bytes(Role::Admin) + seg_end());
            }
        }
    }
    None
}

/// Parse the canonical JSON text of a claims value. Returns the claims
/// exactly when `v` is such a text, and nothing otherwise.
pub fn parse_claims(v: &Vec<u8>) -> (r: Option<Claims>)
    ensures
        r matches Some(c) ==> v@ == claims_json(c),
        forall|c: Claims| v@ == claims_json(c) ==> r == Some(c),
{
    match scan_claims(v) {
        None => None,
        Some(c) => {
            let w = claims_to_json(&c);
            if v == &w {
                proof {
                    assert(v@ =~= w@);
                }
                Some(c)
            } else {
                proof {
                    assert forall|c0: Claims| v@ == claims_json(c0) implies false by {
                        assert(c == c0);
                        assert(v@ =~= w@);
                    }
                }
                None
            }
        },
    }
}

proof fn lemma_layout_sub_agrees(v: Seq<u8>, c1: Claims, c2: Claims)
    requires
        json_layout(v, c1),
        json_layout(v, c2),
    ensures
        c1.sub == c2.sub,
        dec_rep(c1.sub).len() == dec_rep(c2.sub).len(),
{
    let a1 = dec_rep(c1.sub).len() as int;
    let a2 = dec_rep(c2.sub).len() as int;
    lemma_dec_rep_digits(c1.sub);
    lemma_dec_rep_digits(c2.sub);
    assert(a1 == a2) by {
        if a1 < a2 {
            assert(v[8 + a1] == v.subrange(8 + a1, 16 + a1)[0]);
            assert(v[8 + a1] == v.subrange(8, 8 + a2)[a1]);
            assert(is_digit(dec_rep(c2.sub)[a1]));
        }
        if a2 < a1 {
            assert(v[8 + a2] == v.subrange(8 + a2, 16 + a2)[0]);
            assert(v[8 + a2] == v.subrange(8, 8 + a1)[a2]);
            assert(is_digit(dec_rep(c1.sub)[a2]));
        }
    }
    assert(dec_rep(c1.sub) == dec_rep(c2.sub));
    lemma_dec_rep_value(c1.sub);
    lemma_dec_rep_value(c2.sub);
}

proof fn lemma_layout_exp_agrees(v: Seq<u8>, c1: Claims, c2: Claims)
    requires
        json_layout(v, c1),
        json_layout(v, c2),
        dec_rep(c1.sub).len() == dec_rep(c2.sub).len(),
    ensures
        c1.exp == c2.exp,
        dec_rep(c1.exp).len() == dec_rep(c2.exp).len(),
{
    let a = dec_rep(c1.sub).len() as int;
    let b1 = dec_rep(c1.exp).len() as int;
    let b2 = dec_rep(c2.exp).len() as int;
    lemma_dec_rep_digits(c1.exp);
    lemma_dec_rep_digits(c2.exp);
    assert(b1 == b2) by {
        if b1 < b2 {
            assert(v[16 + a + b1] == v.subrange(16 + a + b1, 23 + a + b1)[0]);
            assert(v[16 + a + b1] == v.subrange(16 + a, 16 + a + b2)[b1]);
            assert(is_digit(dec_rep(c2.exp)[b1]));
        }
        if b2 < b1 {
            assert(v[16 + a + b2] == v.subrange(16 + a + b2, 23 + a + b2)[0]);
            assert(v[16 + a + b2] == v.subrange(16 + a, 16 + a + b1)[b2]);
            assert(is_digit(dec_rep(c1.exp)[b2]));
        }
    }
    assert(dec_rep(c1.exp) == dec_rep(c2.exp));
    lemma_dec_rep_value(c1.exp);
    lemma_dec_rep_value(c2.exp);
}

proof fn lemma_layout_iat_agrees(v: Seq<u8>, c1: Claims, c2: Claims)
    requires
        json_layout(v, c1),
        json_layout(v, c2),
        dec_rep(c1.sub).len() == dec_rep(c2.sub).len(),
        dec_rep(c1.exp).len() == dec_rep(c2.exp).len(),
    ensures
        c1.iat == c2.iat,
        dec_rep(c1.iat).len() == dec_rep(c2.iat).len(),
{
    let a = dec_rep(c1.sub).len() as int;
    let b = dec_rep(c1.exp).len() as int;
    let d1 = dec_rep(c1.iat).len() as int;
    let d2 = dec_rep(c2.iat).len() as int;
    lemma_dec_rep_digits(c1.iat);
    lemma_dec_rep_digits(c2.iat);
    assert(d1 == d2) by {
        if d1 < d2 {
            assert(v[23 + a + b + d1] == v.subrange(23 + a + b + d1, 32 + a + b + d1)[0]);
            assert(v[23 + a + b + d1] == v.subrange(23 + a + b, 23 + a + b + d2)[d1]);
            assert(is_digit(dec_rep(c2.iat)[d1]));
        }
        if d2 < d1 {
            assert(v[23 + a + b + d2] == v.subrange(23 + a + b + d2, 32 + a + b + d2)[0]);
            assert(v[23 + a + b + d2] == v.subrange(23 + a + b, 23 + a + b + d1)[d2]);
            assert(is_digit(dec_rep(c1.iat)[d2]));
        }
    }
    assert(dec_rep(c1.iat) == dec_rep(c2.iat));
    lemma_dec_rep_value(c1.iat);
    lemma_dec_rep_value(c2.iat);
}

/// Distinct claims have distinct canonical texts.
pub proof fn lemma_claims_json_injective(c1: Claims, c2: Claims)
    requires
        claims_json(c1) == claims_json(c2),
    ensures
        c1 == c2,
{
    lemma_claims_json_structure(c1);
    lemma_claims_json_structure(c2);
    let j = claims_json(c1);
    lemma_layout_sub_agrees(j, c1, c2);
    lemma_layout_exp_agrees(j, c1, c2);
    lemma_layout_iat_agrees(j, c1, c2);
    assert(c1.role == c2.role) by {
        if c1.role != c2.role {
            assert(role_bytes(c1.role).len() != role_bytes(c2.role).len());
        }
    }
}

} // verus!
