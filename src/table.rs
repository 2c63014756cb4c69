use vstd::prelude::*;

use crate::account::TableKey;

verus! {

/// Value recorded for `k` in an entry list; zero when `k` is absent.
pub open spec fn lookup<K>(s: Seq<(K, u128)>, k: K) -> nat
    decreases s.len(),
{
    if s.len() == 0 {
        0
    } else if s.last().0 == k {
        s.last().1 as nat
    } else {
        lookup(s.drop_last(), k)
    }
}

/// Sum of all values in an entry list.
pub open spec fn sum<K>(s: Seq<(K, u128)>) -> nat
    decreases s.len(),
{
    if s.len() == 0 {
        0
    } else {
        sum(s.drop_last()) + s.last().1 as nat
    }
}

/// No key occurs twice in an entry list.
pub open spec fn unique_keys<K>(s: Seq<(K, u128)>) -> bool {
    forall|i: int, j: int| 0 <= i < j < s.len() ==> s[i].0 != s[j].0
}

proof fn lemma_lookup_at<K>(s: Seq<(K, u128)>, i: int)
    requires
        unique_keys(s),
        0 <= i < s.len(),
    ensures
        lookup(s, s[i].0) == s[i].1 as nat,
    decreases s.len(),
{
    if i < s.len() - 1 {
        assert(s.drop_last()[i] == s[i]);
        lemma_lookup_at(s.drop_last(), i);
    }
}

proof fn lemma_lookup_absent<K>(s: Seq<(K, u128)>, k: K)
    requires
        forall|i: int| 0 <= i < s.len() ==> s[i].0 != k,
    ensures
        lookup(s, k) == 0,
    decreases s.len(),
{
    if s.len() > 0 {
        lemma_lookup_absent(s.drop_last(), k);
    }
}

proof fn lemma_update<K>(s: Seq<(K, u128)>, i: int, v: u128, j: K)
    requires
        unique_keys(s),
        0 <= i < s.len(),
    ensures
        unique_keys(s.update(i, (s[i].0, v))),
        lookup(s.update(i, (s[i].0, v)), j) == if j == s[i].0 {
            v as nat
        } else {
            lookup(s, j)
        },
        sum(s.update(i, (s[i].0, v))) + s[i].1 == sum(s) + v,
    decreases s.len(),
{
    let t = s.update(i, (s[i].0, v));
    assert(unique_keys(t));
    if i == s.len() - 1 {
        assert(t.drop_last() =~= s.drop_last());
    } else {
        assert(t.drop_last() =~= s.drop_last().update(i, (s[i].0, v)));
        assert(s.drop_last()[i] == s[i]);
        lemma_update(s.drop_last(), i, v, j);
        if j == s[i].0 {
            assert(s.last().0 != s[i].0);
        }
    }
}

proof fn lemma_push<K>(s: Seq<(K, u128)>, k: K, v: u128)
    requires
        unique_keys(s),
        forall|i: int| 0 <= i < s.len() ==> s[i].0 != k,
    ensures
        unique_keys(s.push((k, v))),
        forall|j: K| lookup(s.push((k, v)), j) == if j == k {
            v as nat
        } else {
            lookup(s, j)
        },
        sum(s.push((k, v))) == sum(s) + v,
{
    assert(s.push((k, v)).drop_last() =~= s);
    lemma_lookup_absent(s, k);
}

proof fn lemma_le_sum<K>(s: Seq<(K, u128)>, a: K)
    ensures
        lookup(s, a) <= sum(s),
    decreases s.len(),
{
    if s.len() > 0 {
        lemma_le_sum(s.drop_last(), a);
    }
}

proof fn lemma_pair_le_sum<K>(s: Seq<(K, u128)>, a: K, b: K)
    requires
        a != b,
    ensures
        lookup(s, a) + lookup(s, b) <= sum(s),
    decreases s.len(),
{
    if s.len() > 0 {
        lemma_le_sum(s.drop_last(), a);
        lemma_le_sum(s.drop_last(), b);
        lemma_pair_le_sum(s.drop_last(), a, b);
    }
}

/// A key-value table in which every absent key reads as zero.
pub struct Table<K> {
    entries: Vec<(K, u128)>,
}

impl<K: TableKey> Table<K> {
    /// The value read for each key (zero where nothing was stored).
    pub closed spec fn view(&self) -> Map<K, nat> {
        Map::new(|k: K| true, |k: K| lookup(self.entries@, k))
    }

    /// The sum of every stored value.
    pub closed spec fn total(&self) -> nat {
        sum(self.entries@)
    }

    /// No key is stored twice.
    pub closed spec fn wf(&self) -> bool {
        unique_keys(self.entries@)
    }

    /// Every value is at most the total; two distinct keys together too.
    pub proof fn lemma_within_total(&self, a: K, b: K)
        ensures
            self@[a] <= self.total(),
            a != b ==> self@[a] + self@[b] <= self.total(),
    {
        lemma_le_sum(self.entries@, a);
        if a != b {
            lemma_pair_le_sum(self.entries@, a, b);
        }
    }

    /// An empty table: every key reads as zero.
    pub fn new() -> (t: Self)
        ensures
            t.wf(),
            t.total() == 0,
            forall|k: K| #[trigger] t@[k] == 0,
    {
        Table { entries: Vec::new() }
    }

    fn find(&self, k: &K) -> (r: Option<usize>)
        ensures
            match r {
                Some(i) => i < self.entries@.len() && self.entries@[i as int].0 == *k,
                None => forall|i: int|
                    0 <= i < self.entries@.len() ==> self.entries@[i].0 != *k,
            },
    {
        let mut i: usize = 0;
        while i < self.entries.len()
            invariant
                i <= self.entries@.len(),
                forall|j: int| 0 <= j < i ==> self.entries@[j].0 != *k,
            decreases self.entries@.len() - i,
        {
            if self.entries[i].0.key_eq(k) {
                return Some(i);
            }
            i = i + 1;
        }
        None
    }

    /// The value stored for `k`, or zero.
    pub fn get(&self, k: &K) -> (r: u128)
        requires
            self.wf(),
        ensures
            r == self@[*k],
    {
        match self.find(k) {
            Some(i) => {
                proof {
                    lemma_lookup_at(self.entries@, i as int);
                }
                self.entries[i].1
            },
            None => {
                proof {
                    lemma_lookup_absent(self.entries@, *k);
                }
                0
            },
        }
    }

    /// Stores `v` for `k`, replacing what was there.
    pub fn set(&mut self, k: K, v: u128)
        requires
            old(self).wf(),
        ensures
            final(self).wf(),
            final(self)@ == old(self)@.insert(k, v as nat),
            final(self).total() + old(self)@[k] == old(self).total() + v,
    {
        match self.find(&k) {
            Some(i) => {
                proof {
                    lemma_lookup_at(self.entries@, i as int);
                    assert forall|j: K| lookup(self.entries@.update(i as int, (k, v)), j) == if j == k {
                        v as nat
                    } else {
                        lookup(self.entries@, j)
                    } by {
                        lemma_update(self.entries@, i as int, v, j);
                    }
                    lemma_update(self.entries@, i as int, v, k);
                }
                self.entries.set(i, (k, v));
            },
            None => {
                proof {
                    lemma_push(self.entries@, k, v);
                    lemma_lookup_absent(self.entries@, k);
                }
                self.entries.push((k, v));
            },
        }
        assert(self@ =~= old(self)@.insert(k, v as nat));
    }
}

} // verus!
