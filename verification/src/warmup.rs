//! Element-wise vector arithmetic and order-preserving deduplication.

use vstd::prelude::*;

verus! {

/// The subsequence of `s` that keeps only the first occurrence of each value,
/// in their original order.
pub open spec fn dedup_seq(s: Seq<i32>) -> Seq<i32>
    decreases s.len(),
{
    if s.len() == 0 {
        Seq::empty()
    } else {
        let pre = dedup_seq(s.drop_last());
        if s.drop_last().contains(s.last()) {
            pre
        } else {
            pre.push(s.last())
        }
    }
}

proof fn lemma_push_contains(s: Seq<i32>, y: i32, x: i32)
    requires
        s.contains(x),
    ensures
        s.push(y).contains(x),
{
    let i = choose|i: int| 0 <= i < s.len() && s[i] == x;
    assert(s.push(y)[i] == x);
}

/// A value occurs in the deduplicated sequence exactly when it occurs in the original.
pub proof fn lemma_dedup_seq_contains(s: Seq<i32>, x: i32)
    ensures
        dedup_seq(s).contains(x) <==> s.contains(x),
    decreases s.len(),
{
    if s.len() > 0 {
        let dl = s.drop_last();
        let pre = dedup_seq(dl);
        lemma_dedup_seq_contains(dl, x);
        if s.contains(x) {
            let i = choose|i: int| 0 <= i < s.len() && s[i] == x;
            if i < s.len() - 1 {
                assert(dl[i] == x);
                assert(dl.contains(x));
                if !dl.contains(s.last()) {
                    lemma_push_contains(pre, s.last(), x);
                }
            } else {
                if dl.contains(s.last()) {
                    assert(dedup_seq(s) == pre);
                } else {
                    assert(dedup_seq(s)[pre.len() as int] == x);
                }
            }
            assert(dedup_seq(s).contains(x));
        }
        if dedup_seq(s).contains(x) {
            if dl.contains(s.last()) {
                assert(pre.contains(x));
                let i = choose|i: int| 0 <= i < dl.len() && dl[i] == x;
                assert(s[i] == x);
            } else {
                let j = choose|j: int| 0 <= j < dedup_seq(s).len() && dedup_seq(s)[j] == x;
                if j < pre.len() {
                    assert(pre[j] == x);
                    let i = choose|i: int| 0 <= i < dl.len() && dl[i] == x;
                    assert(s[i] == x);
                } else {
                    assert(s.last() == x);
                    assert(s[s.len() - 1] == x);
                }
            }
            assert(s.contains(x));
        }
    }
}

/// Returns a new vector with `n` added to every element of `v`.
pub fn add_n(v: Vec<i32>, n: i32) -> (res: Vec<i32>)
    requires
        forall|k: int| 0 <= k < v@.len() ==> i32::MIN <= #[trigger] v@[k] + n <= i32::MAX,
    ensures
        res@.len() == v@.len(),
        forall|k: int| 0 <= k < v@.len() ==> res@[k] == v@[k] + n,
{
    let mut res: Vec<i32> = Vec::new();
    let mut i: usize = 0;
    while i < v.len()
        invariant
            i <= v@.len(),
            res@.len() == i,
            forall|k: int| 0 <= k < v@.len() ==> i32::MIN <= #[trigger] v@[k] + n <= i32::MAX,
            forall|k: int| 0 <= k < i ==> res@[k] == v@[k] + n,
        decreases v@.len() - i,
    {
        res.push(v[i] + n);
        i += 1;
    }
    res
}

/// Adds `n` to every element of `v` in place.
pub fn add_n_inplace(v: &mut Vec<i32>, n: i32)
    requires
        forall|k: int| 0 <= k < old(v)@.len() ==> i32::MIN <= #[trigger] old(v)@[k] + n <= i32::MAX,
    ensures
        final(v)@.len() == old(v)@.len(),
        forall|k: int| 0 <= k < old(v)@.len() ==> final(v)@[k] == old(v)@[k] + n,
{
    let ghost orig = v@;
    let mut i: usize = 0;
    while i < v.len()
        invariant
            i <= orig.len(),
            v@.len() == orig.len(),
            forall|k: int| 0 <= k < orig.len() ==> i32::MIN <= #[trigger] orig[k] + n <= i32::MAX,
            forall|k: int| 0 <= k < i ==> v@[k] == orig[k] + n,
            forall|k: int| i <= k < orig.len() ==> v@[k] == orig[k],
        decreases orig.len() - i,
    {
        let x = v[i];
        assert(i32::MIN <= orig[i as int] + n <= i32::MAX);
        v[i] = x + n;
        i += 1;
    }
}

/// Reports whether `x` occurs among the first `len` elements of `v`.
fn prefix_contains(v: &Vec<i32>, len: usize, x: i32) -> (r: bool)
    requires
        len <= v@.len(),
    ensures
        r <==> v@.subrange(0, len as int).contains(x),
{
    let mut k: usize = 0;
    while k < len
        invariant
            k <= len <= v@.len(),
            forall|m: int| 0 <= m < k ==> v@[m] != x,
        decreases len - k,
    {
        if v[k] == x {
            assert(v@.subrange(0, len as int)[k as int] == x);
            return true;
        }
        k += 1;
    }
    assert(forall|m: int| 0 <= m < len ==> v@.subrange(0, len as int)[m] == v@[m]);
    false
}

/// Removes every element that already occurred earlier in the vector,
/// keeping the surviving elements in their original order.
pub fn dedup(v: &mut Vec<i32>)
    ensures
        final(v)@ == dedup_seq(old(v)@),
{
    let ghost orig = v@;
    let mut i: usize = 0;
    let mut j: usize = 0;
    while j < v.len()
        invariant
            i <= j <= orig.len(),
            v@.len() == orig.len(),
            v@.subrange(0, i as int) == dedup_seq(orig.subrange(0, j as int)),
            forall|k: int| j <= k < orig.len() ==> v@[k] == orig[k],
        decreases orig.len() - j,
    {
        let x = v[j];
        let ghost pre = orig.subrange(0, j as int);
        assert(orig.subrange(0, j as int + 1).drop_last() =~= pre);
        assert(orig.subrange(0, j as int + 1).last() == x);
        proof {
            lemma_dedup_seq_contains(pre, x);
        }
        let dup = prefix_contains(v, i, x);
        if !dup {
            v[i] = x;
            assert(v@.subrange(0, i as int + 1) =~= dedup_seq(pre).push(x));
            i += 1;
        } else {
            assert(v@.subrange(0, i as int) == dedup_seq(orig.subrange(0, j as int + 1)));
        }
        j += 1;
    }
    assert(orig.subrange(0, orig.len() as int) =~= orig);
    v.truncate(i);
    assert(v@ =~= dedup_seq(orig));
}

} // verus!
