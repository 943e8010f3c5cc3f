//! A sparse, append-only time series.
//!
//! The results ledger records, per entity, a value at each simulated time an
//! event touched that entity. Records are only ever appended; a point query
//! at time `t` returns the value recorded at the greatest time `<= t`, with
//! the record appended last winning among records at the same time
//! (last-write-wins).

use vstd::prelude::*;

verus! {

/// The index of the record that answers a point query at time `t`: among the
/// records with key `<= t`, the one with the greatest key, appended last.
/// `-1` when no record has a key `<= t`.
pub open spec fn best_index<V>(s: Seq<(u64, V)>, t: u64) -> int
    decreases s.len(),
{
    if s.len() == 0 {
        -1
    } else {
        let rest = best_index(s.drop_last(), t);
        if s.last().0 <= t && (rest < 0 || s.last().0 >= s[rest].0) {
            s.len() - 1
        } else {
            rest
        }
    }
}

/// The value a point query at time `t` returns over the records `s`.
pub open spec fn value_at<V>(s: Seq<(u64, V)>, t: u64) -> Option<V> {
    let j = best_index(s, t);
    if j < 0 {
        None
    } else {
        Some(s[j].1)
    }
}

/// What `best_index` promises: it is in range, its key is `<= t` and maximal
/// among keys `<= t`, it is the last record with that key, and it is `-1`
/// exactly when no key is `<= t`.
pub proof fn lemma_best_index<V>(s: Seq<(u64, V)>, t: u64)
    ensures
        -1 <= best_index(s, t) < s.len(),
        best_index(s, t) == -1 ==> forall|i: int| 0 <= i < s.len() ==> (#[trigger] s[i].0) > t,
        best_index(s, t) >= 0 ==> s[best_index(s, t)].0 <= t,
        best_index(s, t) >= 0 ==> forall|i: int|
            0 <= i < s.len() && (#[trigger] s[i].0) <= t ==> s[i].0 <= s[best_index(s, t)].0,
        best_index(s, t) >= 0 ==> forall|i: int|
            best_index(s, t) < i < s.len() ==> (#[trigger] s[i].0) > t || s[i].0 < s[best_index(
                s,
                t,
            )].0,
    decreases s.len(),
{
    if s.len() > 0 {
        let pre = s.drop_last();
        lemma_best_index(pre, t);
        assert(forall|i: int| 0 <= i < s.len() - 1 ==> #[trigger] s[i] == pre[i]);
        let r = best_index(s, t);
        let rp = best_index(pre, t);
        assert(s.last() == s[s.len() - 1]);
        if r >= 0 {
            assert forall|i: int| 0 <= i < s.len() && (#[trigger] s[i].0) <= t implies s[i].0
                <= s[r].0 by {
                if i < s.len() - 1 {
                    assert(pre[i].0 <= t);
                    assert(pre[i].0 <= pre[rp].0);
                }
            }
            assert forall|i: int| r < i < s.len() implies (#[trigger] s[i].0) > t || s[i].0
                < s[r].0 by {
                if i < s.len() - 1 {
                    assert(pre[i].0 > t || pre[i].0 < pre[rp].0);
                }
            }
        }
    }
}

/// `best_index` reads only the keys: two record sequences with the same keys
/// have the same best index.
pub proof fn lemma_best_index_same_keys<V, W>(s1: Seq<(u64, V)>, s2: Seq<(u64, W)>, t: u64)
    requires
        s1.len() == s2.len(),
        forall|i: int| 0 <= i < s1.len() ==> (#[trigger] s1[i].0) == (#[trigger] s2[i].0),
    ensures
        best_index(s1, t) == best_index(s2, t),
    decreases s1.len(),
{
    if s1.len() > 0 {
        assert(forall|i: int| 0 <= i < s1.len() - 1 ==> s1[i] == #[trigger] s1.drop_last()[i]);
        assert(forall|i: int| 0 <= i < s2.len() - 1 ==> s2[i] == #[trigger] s2.drop_last()[i]);
        lemma_best_index_same_keys(s1.drop_last(), s2.drop_last(), t);
        lemma_best_index(s1.drop_last(), t);
        assert(s1.last() == s1[s1.len() - 1]);
        assert(s2.last() == s2[s2.len() - 1]);
    }
}

/// How a query at `t` changes when a record `e` is appended: a record with a
/// key above `t` is invisible at `t`; one with a key at least the previous
/// best key (or with no previous best) becomes the answer; one with a smaller
/// key than the previous best leaves the answer unchanged.
pub proof fn lemma_best_index_push<V>(s: Seq<(u64, V)>, e: (u64, V), t: u64)
    ensures
        e.0 > t ==> best_index(s.push(e), t) == best_index(s, t),
        e.0 <= t && (best_index(s, t) < 0 || e.0 >= s[best_index(s, t)].0) ==> best_index(
            s.push(e),
            t,
        ) == s.len(),
        e.0 <= t && best_index(s, t) >= 0 && e.0 < s[best_index(s, t)].0 ==> best_index(
            s.push(e),
            t,
        ) == best_index(s, t),
{
    let s2 = s.push(e);
    assert(s2.drop_last() =~= s);
    assert(s2.last() == e);
    lemma_best_index(s, t);
    let rest = best_index(s, t);
    if rest >= 0 {
        assert(s2[rest] == s[rest]);
    }
}

/// A sparse time series: records are appended as events arrive and never
/// removed or altered.
pub struct Timeline<V> {
    entries: Vec<(u64, V)>,
}

impl<V> Timeline<V> {
    /// The records in append order.
    pub closed spec fn records(self) -> Seq<(u64, V)> {
        self.entries@
    }

    pub fn new() -> (r: Self)
        ensures
            r.records() =~= Seq::<(u64, V)>::empty(),
    {
        Timeline { entries: Vec::new() }
    }

    /// How many records have been appended.
    pub fn len(&self) -> (r: usize)
        ensures
            r == self.records().len(),
    {
        self.entries.len()
    }

    /// Append the value `v` at time `t`.
    pub fn record(&mut self, t: u64, v: V)
        ensures
            final(self).records() == old(self).records().push((t, v)),
    {
        self.entries.push((t, v));
    }

    /// The value at the greatest recorded time `<= t`, or `None` when
    /// nothing at or before `t` was recorded.
    pub fn query(&self, t: u64) -> (r: Option<&V>)
        ensures
            match r {
                Some(v) => value_at(self.records(), t) == Some(*v),
                None => value_at(self.records(), t) is None,
            },
    {
        match self.query_entry(t) {
            Some(e) => Some(&e.1),
            None => None,
        }
    }

    /// The latest record overall: the one a query at the greatest possible
    /// time would return.
    pub fn latest(&self) -> (r: Option<&V>)
        ensures
            match r {
                Some(v) => value_at(self.records(), u64::MAX) == Some(*v),
                None => value_at(self.records(), u64::MAX) is None,
            },
    {
        self.query(u64::MAX)
    }

    /// The record (time and value) answering a query at `t`.
    pub fn query_entry(&self, t: u64) -> (r: Option<&(u64, V)>)
        ensures
            match r {
                Some(e) => {
                    &&& best_index(self.records(), t) >= 0
                    &&& *e == self.records()[best_index(self.records(), t)]
                },
                None => best_index(self.records(), t) == -1,
            },
    {
        let ghost s = self.entries@;
        let mut best: Option<usize> = None;
        let mut i: usize = 0;
        while i < self.entries.len()
            invariant
                i <= self.entries.len(),
                s == self.entries@,
                match best {
                    Some(j) => j < i && best_index(s.take(i as int), t) == j,
                    None => best_index(s.take(i as int), t) == -1,
                },
            decreases self.entries.len() - i,
        {
            proof {
                assert(s.take(i + 1).drop_last() =~= s.take(i as int));
                assert(s.take(i + 1).last() == s[i as int]);
                lemma_best_index(s.take(i as int), t);
            }
            if self.entries[i].0 <= t {
                best = match best {
                    None => Some(i),
                    Some(j) => {
                        if self.entries[i].0 >= self.entries[j].0 {
                            Some(i)
                        } else {
                            Some(j)
                        }
                    },
                };
            }
            i += 1;
        }
        proof {
            assert(s.take(s.len() as int) =~= s);
        }
        match best {
            Some(j) => Some(&self.entries[j]),
            None => None,
        }
    }
}

} // verus!
