//! The longest common suffix of two sequences. Two chains of superstates
//! share a suffix: the superstates that enclose both of their first nodes.

use vstd::prelude::*;

verus! {

/// How many elements two sequences have in common at their ends: the length
/// of their longest common suffix.
pub open spec fn common_suffix_len<T>(a: Seq<T>, b: Seq<T>) -> nat
    decreases a.len(),
{
    if a.len() > 0 && b.len() > 0 && a.last() == b.last() {
        1 + common_suffix_len(a.drop_last(), b.drop_last())
    } else {
        0
    }
}

/// Whether the last `k` elements of `a` and of `b` are the same, and the
/// elements before them, where both sequences have one, differ.
pub open spec fn is_common_suffix_len<T>(a: Seq<T>, b: Seq<T>, k: nat) -> bool {
    &&& k <= a.len()
    &&& k <= b.len()
    &&& a.skip(a.len() - k) == b.skip(b.len() - k)
    &&& k < a.len() && k < b.len() ==> a[a.len() - 1 - k] != b[b.len() - 1 - k]
}

/// `common_suffix_len` is a common suffix length that cannot be extended.
pub proof fn lemma_common_suffix_len<T>(a: Seq<T>, b: Seq<T>)
    ensures
        is_common_suffix_len(a, b, common_suffix_len(a, b)),
    decreases a.len(),
{
    let k = common_suffix_len(a, b);
    if a.len() > 0 && b.len() > 0 && a.last() == b.last() {
        let a1 = a.drop_last();
        let b1 = b.drop_last();
        lemma_common_suffix_len(a1, b1);
        let k1 = common_suffix_len(a1, b1);
        let sa = a.skip(a.len() - k);
        let sb = b.skip(b.len() - k);
        assert forall|i: int| 0 <= i < k implies sa[i] == sb[i] by {
            if i < k1 {
                assert(sa[i] == a1.skip(a1.len() - k1)[i]);
                assert(sb[i] == b1.skip(b1.len() - k1)[i]);
            }
        }
        assert(sa =~= sb);
        if k < a.len() && k < b.len() {
            assert(a1[a1.len() - 1 - k1] != b1[b1.len() - 1 - k1]);
        }
    } else {
        assert(a.skip(a.len() - k) =~= b.skip(b.len() - k));
    }
}

/// Only one number is a common suffix length that cannot be extended.
pub proof fn lemma_common_suffix_len_unique<T>(a: Seq<T>, b: Seq<T>, k: nat)
    requires
        is_common_suffix_len(a, b, k),
    ensures
        k == common_suffix_len(a, b),
    decreases a.len(),
{
    let sa = a.skip(a.len() - k);
    let sb = b.skip(b.len() - k);
    if a.len() > 0 && b.len() > 0 && a.last() == b.last() {
        let a1 = a.drop_last();
        let b1 = b.drop_last();
        if k > 0 {
            let k1 = (k - 1) as nat;
            let ta = a1.skip(a1.len() - k1);
            let tb = b1.skip(b1.len() - k1);
            assert forall|i: int| 0 <= i < k1 implies ta[i] == tb[i] by {
                assert(ta[i] == sa[i]);
                assert(tb[i] == sb[i]);
            }
            assert(ta =~= tb);
            lemma_common_suffix_len_unique(a1, b1, k1);
        }
    } else if k > 0 {
        assert(sa[k - 1] == a.last());
        assert(sb[k - 1] == b.last());
    }
}

/// A sequence shares all of itself with itself.
pub proof fn lemma_common_suffix_len_same<T>(a: Seq<T>)
    ensures
        common_suffix_len(a, a) == a.len(),
{
    lemma_common_suffix_len_unique(a, a, a.len());
}

/// The first element of the longer sequence is no part of the common suffix.
pub proof fn lemma_common_suffix_len_skip_longer<T>(a: Seq<T>, b: Seq<T>)
    requires
        a.len() > b.len(),
    ensures
        common_suffix_len(a.drop_first(), b) == common_suffix_len(a, b),
        common_suffix_len(b, a.drop_first()) == common_suffix_len(b, a),
{
    let a1 = a.drop_first();
    lemma_common_suffix_len(a, b);
    lemma_common_suffix_len(b, a);
    let k = common_suffix_len(a, b);
    let j = common_suffix_len(b, a);
    assert(a1.skip(a1.len() - k) =~= a.skip(a.len() - k));
    assert(a1.skip(a1.len() - j) =~= a.skip(a.len() - j));
    lemma_common_suffix_len_unique(a1, b, k);
    lemma_common_suffix_len_unique(b, a1, j);
}

/// Where two sequences of one length start differently, their first elements
/// are no part of the common suffix.
pub proof fn lemma_common_suffix_len_skip_both<T>(a: Seq<T>, b: Seq<T>)
    requires
        a.len() == b.len(),
        a.len() > 0,
        a[0] != b[0],
    ensures
        common_suffix_len(a.drop_first(), b.drop_first()) == common_suffix_len(a, b),
{
    lemma_common_suffix_len(a, b);
    let k = common_suffix_len(a, b);
    let a1 = a.drop_first();
    let b1 = b.drop_first();
    if k == a.len() {
        assert(a.skip(a.len() - k)[0] == b.skip(b.len() - k)[0]);
    }
    assert(a1.skip(a1.len() - k) =~= a.skip(a.len() - k));
    assert(b1.skip(b1.len() - k) =~= b.skip(b.len() - k));
    lemma_common_suffix_len_unique(a1, b1, k);
}

} // verus!
