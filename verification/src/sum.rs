//! The total of a finite map of quantities, and how it moves when one entry
//! is written or removed.

use vstd::prelude::*;
use crate::assoc::{as_map, distinct_keys, has_key, lemma_as_map};

verus! {

/// The sum of all values held in the finite map `m`.
pub open spec fn total<K>(m: Map<K, nat>) -> nat
    decreases m.dom().len(),
    when m.dom().finite()
{
    if m.dom().len() == 0 {
        0
    } else {
        let k = m.dom().choose();
        m[k] + total(m.remove(k))
    }
}

/// An empty map totals zero.
pub proof fn lemma_total_empty<K>()
    ensures
        total(Map::<K, nat>::empty()) == 0,
{
}

/// Any one entry can be split off the total, whichever it is.
pub proof fn lemma_total_remove<K>(m: Map<K, nat>, k: K)
    requires
        m.dom().finite(),
        m.contains_key(k),
    ensures
        total(m) == m[k] + total(m.remove(k)),
    decreases m.dom().len(),
{
    let c = m.dom().choose();
    if c != k {
        lemma_total_remove(m.remove(c), k);
        lemma_total_remove(m.remove(k), c);
        assert(m.remove(c).remove(k) =~= m.remove(k).remove(c));
    }
}

/// Writing `v` under `k` replaces whatever `k` contributed before by `v`.
pub proof fn lemma_total_insert<K>(m: Map<K, nat>, k: K, v: nat)
    requires
        m.dom().finite(),
    ensures
        total(m.insert(k, v)) == total(m.remove(k)) + v,
        m.contains_key(k) ==> total(m.insert(k, v)) == total(m) - m[k] + v,
        !m.contains_key(k) ==> total(m.insert(k, v)) == total(m) + v,
{
    lemma_total_remove(m.insert(k, v), k);
    assert(m.insert(k, v).remove(k) =~= m.remove(k));
    if m.contains_key(k) {
        lemma_total_remove(m, k);
    } else {
        assert(m.remove(k) =~= m);
    }
}

/// No entry is larger than the total.
pub proof fn lemma_total_bounds_entry<K>(m: Map<K, nat>, k: K)
    requires
        m.dom().finite(),
        m.contains_key(k),
    ensures
        m[k] <= total(m),
{
    lemma_total_remove(m, k);
}

/// A prefix of an association sequence is one too.
pub proof fn lemma_distinct_prefix<K, V>(s: Seq<(K, V)>, k: int)
    requires
        distinct_keys(s),
        0 <= k <= s.len(),
    ensures
        distinct_keys(s.take(k)),
{
    let t = s.take(k);
    assert forall|i: int, j: int| 0 <= i < j < t.len() implies (#[trigger] t[i]).0 != (
    #[trigger] t[j]).0 by {
        assert(t[i] == s[i] && t[j] == s[j]);
    }
}

/// The last pair of an association sequence adds its value to the total of
/// the pairs before it.
pub proof fn lemma_total_last<K>(s: Seq<(K, nat)>)
    requires
        distinct_keys(s),
        s.len() > 0,
    ensures
        total(as_map(s)) == total(as_map(s.drop_last())) + s.last().1,
{
    let front = s.drop_last();
    assert(front =~= s.take(s.len() - 1));
    lemma_distinct_prefix(s, s.len() - 1);
    lemma_as_map(front);
    if has_key(front, s.last().0) {
        let i = choose|i: int| 0 <= i < front.len() && (#[trigger] front[i]).0 == s.last().0;
        assert(front[i] == s[i]);
        assert(s[i].0 != s[s.len() - 1].0);
    }
    lemma_total_insert(as_map(front), s.last().0, s.last().1);
}

/// The total of a prefix of an association sequence is no larger than the
/// total of the whole.
pub proof fn lemma_total_prefix<K>(s: Seq<(K, nat)>, k: int)
    requires
        distinct_keys(s),
        0 <= k <= s.len(),
    ensures
        total(as_map(s.take(k))) <= total(as_map(s)),
    decreases s.len() - k,
{
    if k < s.len() {
        lemma_distinct_prefix(s, k + 1);
        lemma_total_last(s.take(k + 1));
        assert(s.take(k + 1).drop_last() =~= s.take(k));
        lemma_total_prefix(s, k + 1);
    } else {
        assert(s.take(k) =~= s);
    }
}

} // verus!
