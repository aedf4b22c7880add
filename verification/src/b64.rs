//! Base64url without padding, the text form used for every segment of a
//! session token. The encoding itself is specified here; the byte-level
//! work is done by the `base64` crate behind exact contracts.

use vstd::prelude::*;

verus! {

/// The URL-safe alphabet: `A-Z`, `a-z`, `0-9`, `-`, `_`.
pub open spec fn is_b64_byte(b: u8) -> bool {
    (65 <= b <= 90) || (97 <= b <= 122) || (48 <= b <= 57) || b == 45 || b == 95
}

/// The alphabet symbol for a 6-bit value.
pub open spec fn enc6(v: u8) -> u8 {
    if v < 26 {
        (65 + v) as u8
    } else if v < 52 {
        (97 + (v - 26)) as u8
    } else if v < 62 {
        (48 + (v - 52)) as u8
    } else if v == 62 {
        45
    } else {
        95
    }
}

/// Base64url of a byte string, unpadded: three input bytes become four
/// symbols; a final byte becomes two symbols and a final pair three, with
/// the unused low bits of the last symbol set to zero.
pub open spec fn b64_of(s: Seq<u8>) -> Seq<u8>
    decreases s.len(),
{
    if s.len() == 0 {
        Seq::<u8>::empty()
    } else if s.len() == 1 {
        seq![enc6(s[0] / 4), enc6(((s[0] % 4) * 16) as u8)]
    } else if s.len() == 2 {
        seq![
            enc6(s[0] / 4),
            enc6(((s[0] % 4) * 16 + s[1] / 16) as u8),
            enc6(((s[1] % 16) * 4) as u8),
        ]
    } else {
        seq![
            enc6(s[0] / 4),
            enc6(((s[0] % 4) * 16 + s[1] / 16) as u8),
            enc6(((s[1] % 16) * 4 + s[2] / 64) as u8),
            enc6((s[2] % 64) as u8),
        ] + b64_of(s.skip(3))
    }
}

/// Every symbol the encoder emits lies in the URL-safe alphabet; in
/// particular no symbol is a dot, and all are ASCII.
pub proof fn lemma_b64_alphabet(s: Seq<u8>)
    ensures
        forall|i: int| 0 <= i < b64_of(s).len() ==> is_b64_byte(#[trigger] b64_of(s)[i]),
    decreases s.len(),
{
    if s.len() > 2 {
        lemma_b64_alphabet(s.skip(3));
        assert forall|i: int| 0 <= i < b64_of(s).len() implies is_b64_byte(
            #[trigger] b64_of(s)[i],
        ) by {
            if i >= 4 {
                assert(b64_of(s)[i] == b64_of(s.skip(3))[i - 4]);
            }
        }
    }
}

/// The length of the encoding, in closed form.
pub proof fn lemma_b64_len(s: Seq<u8>)
    ensures
        b64_of(s).len() == (4 * s.len() + 2) / 3,
    decreases s.len(),
{
    if s.len() > 2 {
        lemma_b64_len(s.skip(3));
    }
}

proof fn lemma_enc6_injective(a: u8, b: u8)
    requires
        a < 64,
        b < 64,
        enc6(a) == enc6(b),
    ensures
        a == b,
{
}

/// The encoder is injective: equal encodings come from equal inputs.
pub proof fn lemma_b64_injective(x: Seq<u8>, y: Seq<u8>)
    requires
        b64_of(x) == b64_of(y),
    ensures
        x == y,
    decreases x.len(),
{
    lemma_b64_len(x);
    lemma_b64_len(y);
    assert(x.len() == y.len());
    if x.len() == 0 {
        assert(x =~= y);
    } else if x.len() == 1 {
        lemma_enc6_injective(x[0] / 4, y[0] / 4);
        lemma_enc6_injective(((x[0] % 4) * 16) as u8, ((y[0] % 4) * 16) as u8);
        assert(x =~= y);
    } else if x.len() == 2 {
        lemma_enc6_injective(x[0] / 4, y[0] / 4);
        lemma_enc6_injective(
            ((x[0] % 4) * 16 + x[1] / 16) as u8,
            ((y[0] % 4) * 16 + y[1] / 16) as u8,
        );
        lemma_enc6_injective(((x[1] % 16) * 4) as u8, ((y[1] % 16) * 4) as u8);
        assert(x =~= y);
    } else {
        let hx = seq![
            enc6(x[0] / 4),
            enc6(((x[0] % 4) * 16 + x[1] / 16) as u8),
            enc6(((x[1] % 16) * 4 + x[2] / 64) as u8),
            enc6((x[2] % 64) as u8),
        ];
        let hy = seq![
            enc6(y[0] / 4),
            enc6(((y[0] % 4) * 16 + y[1] / 16) as u8),
            enc6(((y[1] % 16) * 4 + y[2] / 64) as u8),
            enc6((y[2] % 64) as u8),
        ];
        assert(b64_of(x) == hx + b64_of(x.skip(3)));
        assert(b64_of(y) == hy + b64_of(y.skip(3)));
        assert(hx[0] == hy[0] && hx[1] == hy[1] && hx[2] == hy[2] && hx[3] == hy[3]) by {
            assert(b64_of(x)[0] == hx[0] && b64_of(x)[1] == hx[1] && b64_of(x)[2] == hx[2]
                && b64_of(x)[3] == hx[3]);
            assert(b64_of(y)[0] == hy[0] && b64_of(y)[1] == hy[1] && b64_of(y)[2] == hy[2]
                && b64_of(y)[3] == hy[3]);
        }
        lemma_enc6_injective(x[0] / 4, y[0] / 4);
        lemma_enc6_injective(
            ((x[0] % 4) * 16 + x[1] / 16) as u8,
            ((y[0] % 4) * 16 + y[1] / 16) as u8,
        );
        lemma_enc6_injective(
            ((x[1] % 16) * 4 + x[2] / 64) as u8,
            ((y[1] % 16) * 4 + y[2] / 64) as u8,
        );
        lemma_enc6_injective((x[2] % 64) as u8, (y[2] % 64) as u8);
        assert(x[0] == y[0] && x[1] == y[1] && x[2] == y[2]);
        assert(b64_of(x.skip(3)) =~= b64_of(y.skip(3))) by {
            assert(b64_of(x.skip(3)) =~= (hx + b64_of(x.skip(3))).skip(4));
            assert(b64_of(y.skip(3)) =~= (hy + b64_of(y.skip(3))).skip(4));
        }
        lemma_b64_injective(x.skip(3), y.skip(3));
        assert(x =~= y) by {
            assert(forall|i: int| 3 <= i < x.len() ==> x[i] == x.skip(3)[i - 3]);
            assert(forall|i: int| 3 <= i < y.len() ==> y[i] == y.skip(3)[i - 3]);
        }
    }
}

/// Relies on the `base64` crate's `URL_SAFE_NO_PAD` engine: encoding with
/// the URL-safe alphabet and no padding, exactly as `b64_of` states.
#[verifier::external_body]
pub(crate) fn b64url_encode(data: &Vec<u8>) -> (r: Vec<u8>)
    ensures
        r@ == b64_of(data@),
{
    base64::Engine::encode(&base64::engine::general_purpose::URL_SAFE_NO_PAD, data).into_bytes()
}

/// Relies on the `base64` crate's `URL_SAFE_NO_PAD` engine: its decoder
/// requires the absence of padding and rejects non-zero trailing bits, so
/// it accepts exactly the strings the encoder produces.
#[verifier::external_body]
pub(crate) fn b64url_decode(data: &Vec<u8>) -> (r: Option<Vec<u8>>)
    ensures
        r matches Some(d) ==> data@ == b64_of(d@),
        r is None ==> forall|d: Seq<u8>| data@ != b64_of(d),
{
    match base64::Engine::decode(&base64::engine::general_purpose::URL_SAFE_NO_PAD, data) {
        Ok(d) => Some(d),
        Err(_) => None,
    }
}

/// Do all bytes from `from` on lie in the URL-safe alphabet?
pub fn all_b64_bytes(v: &Vec<u8>, from: usize) -> (r: bool)
    requires
        from <= v@.len(),
    ensures
        r == forall|k: int| from <= k < v@.len() ==> is_b64_byte(#[trigger] v@[k]),
{
    let mut i: usize = from;
    while i < v.len()
        invariant
            from <= i <= v@.len(),
            forall|k: int| from <= k < i ==> is_b64_byte(#[trigger] v@[k]),
        decreases v@.len() - i,
    {
        let b = v[i];
        if !((65 <= b && b <= 90) || (97 <= b && b <= 122) || (48 <= b && b <= 57) || b == 45
            || b == 95) {
            return false;
        }
        i = i + 1;
    }
    true
}

} // verus!
