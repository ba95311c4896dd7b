//! Prime testing and prime factorisation of 32-bit numbers, and the worker
//! routine that drains a queue of numbers to factor. Thread plumbing and
//! printing stay with the caller.

use vstd::prelude::*;

use std::collections::VecDeque;
use vstd::arithmetic::div_mod::{
    lemma_fundamental_div_mod, lemma_div_decreases, lemma_mod_multiples_basic,
};

verus! {

/// `p` has no divisor strictly between 1 and itself.
pub open spec fn spec_is_prime(p: int) -> bool {
    p > 1 && forall|d: int| 2 <= d < p ==> #[trigger] (p % d) != 0
}

/// The product of the elements of `s`.
pub open spec fn seq_product(s: Seq<u32>) -> int
    decreases s.len(),
{
    if s.len() == 0 {
        1
    } else {
        seq_product(s.drop_last()) * s.last()
    }
}

/// The elements of `s` never decrease from left to right.
pub open spec fn nondecreasing(s: Seq<u32>) -> bool {
    forall|i: int, j: int| 0 <= i <= j < s.len() ==> s[i] <= s[j]
}

/// Primality by trial division: `num` is prime exactly when it is greater
/// than 1 and no divisor from 2 through the floor of its square root
/// divides it.
pub fn is_prime(num: u32) -> (r: bool)
    ensures
        r <==> spec_is_prime(num as int),
{
    if num <= 1 {
        return false;
    }
    let n64: u64 = num as u64;
    let mut b: u64 = 0;
    loop
        invariant
            n64 == num,
            n64 >= 2,
            b * b <= n64,
            b <= 65535,
        ensures
            b * b <= n64 < (b + 1) * (b + 1),
        decreases n64 - b,
    {
        let s = b + 1;
        proof {
            assert(s * s < 0x10000000000000000) by (nonlinear_arith)
                requires
                    s <= 65536,
            ;
        }
        if s * s > n64 {
            break;
        }
        proof {
            assert(s <= 65535) by (nonlinear_arith)
                requires
                    s * s <= n64,
                    n64 < 0x100000000,
            ;
            assert(s <= n64) by (nonlinear_arith)
                requires
                    s * s <= n64,
                    s >= 1,
            ;
        }
        b = s;
    }
    proof {
        assert(b >= 1) by (nonlinear_arith)
            requires
                n64 >= 2,
                b * b <= n64,
                n64 < (b + 1) * (b + 1),
        ;
    }
    let bound: u32 = b as u32;
    let mut f: u32 = 2;
    while f <= bound
        invariant
            2 <= f,
            f <= bound + 1,
            bound == b,
            b <= 65535,
            b * b <= num,
            (num as int) < (b + 1) * (b + 1),
            forall|g: int| 2 <= g < f ==> #[trigger] (num as int % g) != 0,
        decreases bound + 1 - f,
    {
        if num % f == 0 {
            proof {
                assert(f < num) by (nonlinear_arith)
                    requires
                        2 <= f,
                        f <= b,
                        b * b <= num,
                ;
            }
            return false;
        }
        f += 1;
    }
    proof {
        assert forall|d: int| 2 <= d < num implies #[trigger] (num as int % d) != 0 by {
            if (num as int) % d == 0 {
                if d > b {
                    lemma_fundamental_div_mod(num as int, d);
                    let q = (num as int) / d;
                    assert(num as int == d * q);
                    assert(q >= 1) by (nonlinear_arith)
                        requires
                            num as int == d * q,
                            num >= 2,
                            d >= 2,
                    ;
                    // q == 1 would make d the number itself, but d < num
                    if q == 1 {
                        assert(num as int == d) by (nonlinear_arith)
                            requires
                                num as int == d * q,
                                q == 1,
                        ;
                    }
                    assert(q >= 2);
                    // a cofactor of a divisor above the root lies below it
                    assert(q <= b) by (nonlinear_arith)
                        requires
                            num as int == d * q,
                            d > b,
                            (num as int) < (b + 1) * (b + 1),
                            q >= 1,
                            b >= 0,
                    ;
                    lemma_mod_multiples_basic(d, q);
                    assert((num as int) % q == 0);
                }
            }
        }
    }
    true
}

/// The prime factorisation of `num`, in nondecreasing order, by trial
/// division. 0 and 1 have no prime factors: both yield the empty list, whose
/// product is 1, so the product clause holds only for positive numbers.
pub fn factor_number(num: u32) -> (factors: Vec<u32>)
    ensures
        num >= 1 ==> seq_product(factors@) == num,
        num == 0 ==> factors@.len() == 0,
        nondecreasing(factors@),
        forall|i: int| 0 <= i < factors@.len() ==> spec_is_prime(#[trigger] factors@[i] as int),
{
    if num == 0 {
        return Vec::new();
    }
    let mut factors: Vec<u32> = Vec::new();
    let mut curr: u32 = num;
    let mut f: u32 = 2;
    while curr > 1
        invariant
            1 <= curr,
            2 <= f,
            seq_product(factors@) * curr == num,
            curr > 1 ==> f <= curr,
            forall|d: int| 2 <= d < f ==> #[trigger] (curr as int % d) != 0,
            forall|i: int| 0 <= i < factors@.len() ==> (#[trigger] factors@[i]) <= f,
            nondecreasing(factors@),
            forall|i: int|
                0 <= i < factors@.len() ==> spec_is_prime(#[trigger] factors@[i] as int),
        decreases curr, curr - f,
    {
        if curr % f == 0 {
            let q = curr / f;
            proof {
                lemma_fundamental_div_mod(curr as int, f as int);
                assert(curr == f * q);
                // the running product absorbs f
                assert(factors@.push(f).drop_last() =~= factors@);
                assert((seq_product(factors@) * f) * q == seq_product(factors@) * curr)
                    by (nonlinear_arith)
                    requires
                        curr == f * q,
                ;
                // q inherits "no divisor below f": such a divisor would divide curr
                assert forall|d: int| 2 <= d < f implies #[trigger] (q as int % d) != 0 by {
                    if q as int % d == 0 {
                        lemma_fundamental_div_mod(q as int, d);
                        let k = q as int / d;
                        assert(curr as int == (f * k) * d) by (nonlinear_arith)
                            requires
                                curr == f * q,
                                q as int == d * k,
                        ;
                        lemma_mod_multiples_basic(f * k, d);
                    }
                }
                // f itself is prime: a proper divisor of f would divide curr
                assert forall|d: int| 2 <= d < f implies #[trigger] (f as int % d) != 0 by {
                    if f as int % d == 0 {
                        lemma_fundamental_div_mod(f as int, d);
                        let k = f as int / d;
                        assert(curr as int == (k * q) * d) by (nonlinear_arith)
                            requires
                                curr == f * q,
                                f as int == d * k,
                        ;
                        lemma_mod_multiples_basic(k * q, d);
                    }
                }
                // q == 1 or q >= f: a q strictly between would divide curr below f
                if 2 <= q && q < f {
                    lemma_mod_multiples_basic(f as int, q as int);
                    assert(curr as int % (q as int) == 0);
                }
                assert(q >= 1) by (nonlinear_arith)
                    requires
                        curr == f * q,
                        curr >= 1,
                        f >= 2,
                ;
                lemma_div_decreases(curr as int, f as int);
            }
            factors.push(f);
            curr = q;
        } else {
            proof {
                // f never reaches curr while curr % f != 0, since curr % curr == 0
                lemma_mod_multiples_basic(1, curr as int);
                assert(curr as int * 1 == curr as int) by (nonlinear_arith);
            }
            f += 1;
        }
    }
    factors
}

/// Drains the work queue front to back, factoring each number in turn. The
/// shared-queue and thread plumbing around this routine belong to the
/// caller; this is the work one worker performs once it holds the queue.
pub fn calculate(queue: &mut VecDeque<u32>) -> (out: Vec<Vec<u32>>)
    ensures
        final(queue)@.len() == 0,
        out@.len() == old(queue)@.len(),
        forall|i: int|
            0 <= i < out@.len() ==> {
                &&& (old(queue)@[i] >= 1 ==> seq_product(#[trigger] out@[i]@) == old(queue)@[i])
                &&& (old(queue)@[i] == 0 ==> out@[i]@.len() == 0)
                &&& nondecreasing(out@[i]@)
            },
{
    let ghost orig = queue@;
    let mut out: Vec<Vec<u32>> = Vec::new();
    loop
        invariant
            orig == old(queue)@,
            out@.len() <= orig.len(),
            queue@ =~= orig.skip(out@.len() as int),
            forall|i: int|
                0 <= i < out@.len() ==> {
                    &&& (orig[i] >= 1 ==> seq_product(#[trigger] out@[i]@) == orig[i])
                    &&& (orig[i] == 0 ==> out@[i]@.len() == 0)
                    &&& nondecreasing(out@[i]@)
                },
        decreases orig.len() - out@.len(),
    {
        match queue.pop_front() {
            None => {
                return out;
            },
            Some(n) => {
                assert(n == orig[out@.len() as int]);
                let fs = factor_number(n);
                out.push(fs);
                assert(queue@ =~= orig.skip(out@.len() as int));
            },
        }
    }
}

} // verus!
