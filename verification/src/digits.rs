//! Decimal text for unsigned identifiers and timestamps: the canonical
//! digit string of a `u64`, and a scanner that recovers the number from
//! that string.

use vstd::prelude::*;

verus! {

/// ASCII decimal digit.
pub open spec fn is_digit(b: u8) -> bool {
    48 <= b <= 57
}

/// The canonical decimal representation of `n`: no sign, no leading zeros.
pub open spec fn dec_rep(n: u64) -> Seq<u8>
    decreases n,
{
    if n < 10 {
        seq![(48 + n) as u8]
    } else {
        dec_rep((n / 10) as u64) + seq![(48 + n % 10) as u8]
    }
}

/// The number a digit string denotes, most significant digit first.
pub open spec fn dec_value(s: Seq<u8>) -> int
    decreases s.len(),
{
    if s.len() == 0 {
        0
    } else {
        dec_value(s.drop_last()) * 10 + (s.last() - 48)
    }
}

pub proof fn lemma_dec_rep_digits(n: u64)
    ensures
        dec_rep(n).len() >= 1,
        forall|i: int| 0 <= i < dec_rep(n).len() ==> is_digit(#[trigger] dec_rep(n)[i]),
    decreases n,
{
    if n >= 10 {
        lemma_dec_rep_digits(n / 10);
    }
}

pub proof fn lemma_dec_rep_value(n: u64)
    ensures
        dec_value(dec_rep(n)) == n,
    decreases n,
{
    if n < 10 {
        assert(dec_value(Seq::<u8>::empty()) == 0);
        assert(dec_rep(n).drop_last() =~= Seq::<u8>::empty());
        assert(dec_rep(n).last() == (48 + n) as u8);
    } else {
        lemma_dec_rep_value(n / 10);
        assert(dec_rep(n).drop_last() =~= dec_rep((n / 10) as u64));
        assert(dec_rep(n).last() == (48 + n % 10) as u8);
    }
}

/// Every proper prefix of the canonical representation denotes a number no
/// larger than the whole.
pub proof fn lemma_dec_rep_prefix_bounded(n: u64, k: int)
    requires
        0 <= k <= dec_rep(n).len(),
    ensures
        dec_value(dec_rep(n).take(k)) <= n,
    decreases n,
{
    if k == dec_rep(n).len() {
        assert(dec_rep(n).take(k) =~= dec_rep(n));
        lemma_dec_rep_value(n);
    } else if n < 10 {
        assert(dec_rep(n).take(k) =~= Seq::<u8>::empty());
    } else {
        assert(dec_rep(n).take(k) =~= dec_rep((n / 10) as u64).take(k));
        lemma_dec_rep_prefix_bounded(n / 10, k);
    }
}

/// Write `n` as its canonical decimal byte string.
pub fn u64_to_dec(n: u64) -> (r: Vec<u8>)
    ensures
        r@ == dec_rep(n),
    decreases n,
{
    if n < 10 {
        let mut v: Vec<u8> = Vec::new();
        v.push((48 + n) as u8);
        v
    } else {
        let mut v = u64_to_dec(n / 10);
        v.push((48 + n % 10) as u8);
        v
    }
}

/// Scan a decimal digit run starting at `start`. The contract promises
/// only completeness: wherever the bytes from `start` are exactly the
/// canonical representation of some `n` followed by a non-digit (or the
/// end), the scanner returns that `n` and the position after the run.
pub fn scan_u64(v: &Vec<u8>, start: usize) -> (r: Option<(u64, usize)>)
    requires
        start <= v@.len(),
    ensures
        r matches Some(p) ==> start < p.1 <= v@.len(),
        forall|n: u64, j: int|
            #![trigger dec_rep(n), v@.subrange(start as int, j)]
            start <= j <= v@.len() && v@.subrange(start as int, j) == dec_rep(n) && (j == v@.len()
                || !is_digit(v@[j])) ==> r == Some((n, j as usize)),
{
    let len = v.len();
    let mut i: usize = start;
    let mut acc: u64 = 0;
    loop
        invariant
            start <= i <= len,
            len == v@.len(),
            acc == dec_value(v@.subrange(start as int, i as int)),
            forall|k: int| start <= k < i ==> is_digit(#[trigger] v@[k]),
        ensures
            start <= i <= len,
            acc == dec_value(v@.subrange(start as int, i as int)),
            forall|k: int| start <= k < i ==> is_digit(#[trigger] v@[k]),
            i == len || !is_digit(v@[i as int]),
        decreases len - i,
    {
        if i == len || v[i] < 48 || v[i] > 57 {
            break ;
        }
        let d: u64 = (v[i] - 48) as u64;
        if acc > (u64::MAX - d) / 10 {
            // The run does not fit in a u64, so it cannot be the canonical
            // representation of any u64.
            proof {
                vstd::arithmetic::div_mod::lemma_fundamental_div_mod(
                    u64::MAX - d,
                    10,
                );
                assert forall|n: u64, j: int|
                    start <= j <= v@.len() && v@.subrange(start as int, j) == dec_rep(n) && (j
                        == v@.len() || !is_digit(v@[j])) implies false by {
                    lemma_dec_rep_digits(n);
                    // every byte in [start, j) is a digit; v[i] is a digit,
                    // so j > i, hence [start, i + 1) is a prefix of the run
                    assert(forall|k: int| start <= k < j ==> v@[k] == dec_rep(n)[k - start]);
                    assert(forall|k: int| start <= k < j ==> is_digit(#[trigger] v@[k]));
                    assert(j > i);
                    assert(v@.subrange(start as int, i + 1) =~= dec_rep(n).take(i + 1 - start));
                    lemma_dec_rep_prefix_bounded(n, i + 1 - start);
                    assert(v@.subrange(start as int, i + 1).drop_last() =~= v@.subrange(
                        start as int,
                        i as int,
                    ));
                    assert(v@.subrange(start as int, i + 1).last() == v@[i as int]);
                    assert(dec_value(v@.subrange(start as int, i + 1)) == acc * 10 + d);
                    assert(acc * 10 + d > u64::MAX);
                }
            }
            return None;
        }
        let next_acc: u64 = acc * 10 + d;
        proof {
            assert(v@.subrange(start as int, i + 1).drop_last() =~= v@.subrange(
                start as int,
                i as int,
            ));
            assert(v@.subrange(start as int, i + 1).last() == v@[i as int]);
        }
        acc = next_acc;
        i = i + 1;
    }
    if i == start {
        proof {
            assert forall|n: u64, j: int|
                start <= j <= v@.len() && v@.subrange(start as int, j) == dec_rep(n) && (j
                    == v@.len() || !is_digit(v@[j])) implies false by {
                lemma_dec_rep_digits(n);
                assert(v@[start as int] == dec_rep(n)[0]);
            }
        }
        None
    } else {
        proof {
            assert forall|n: u64, j: int|
                start <= j <= v@.len() && v@.subrange(start as int, j) == dec_rep(n) && (j
                    == v@.len() || !is_digit(v@[j])) implies Some((acc, i)) == Some((
                n,
                j as usize,
            )) by {
                lemma_dec_rep_digits(n);
                assert(forall|k: int| start <= k < j ==> v@[k] == dec_rep(n)[k - start]);
                assert(forall|k: int| start <= k < j ==> is_digit(#[trigger] v@[k]));
                assert(j == i) by {
                    if j < i {
                        assert(is_digit(v@[j]));
                    }
                    if j > i {
                        assert(is_digit(v@[i as int]));
                    }
                }
                assert(v@.subrange(start as int, i as int) == dec_rep(n));
                lemma_dec_rep_value(n);
            }
        }
        Some((acc, i))
    }
}

} // verus!
