use vstd::prelude::*;

verus! {

/// Value of the first entry whose key is `k`, or zero when no entry has that
/// key: the sparse, default-zero read path of the balance store.
pub open spec fn bal_lookup(s: Seq<(u64, u128)>, k: u64) -> u128
    decreases s.len(),
{
    if s.len() == 0 {
        0
    } else if s[0].0 == k {
        s[0].1
    } else {
        bal_lookup(s.drop_first(), k)
    }
}

/// Sum of all stored balances, as an unbounded integer.
pub open spec fn bal_sum(s: Seq<(u64, u128)>) -> int
    decreases s.len(),
{
    if s.len() == 0 {
        0
    } else {
        s[0].1 + bal_sum(s.drop_first())
    }
}

/// No account appears under two entries.
pub open spec fn bal_keys_distinct(s: Seq<(u64, u128)>) -> bool {
    forall|i: int, j: int| 0 <= i < j < s.len() ==> s[i].0 != s[j].0
}

/// The sum of balances is never negative.
pub proof fn lemma_bal_sum_nonneg(s: Seq<(u64, u128)>)
    ensures
        bal_sum(s) >= 0,
    decreases s.len(),
{
    if s.len() > 0 {
        lemma_bal_sum_nonneg(s.drop_first());
    }
}

/// Any single balance is bounded by the sum of all balances.
pub proof fn lemma_bal_lookup_le_sum(s: Seq<(u64, u128)>, k: u64)
    ensures
        bal_lookup(s, k) <= bal_sum(s),
    decreases s.len(),
{
    if s.len() > 0 {
        lemma_bal_lookup_le_sum(s.drop_first(), k);
        if s[0].0 != k {
            lemma_bal_sum_nonneg(s.drop_first());
        }
    }
}

/// A key held by no entry reads as zero.
pub proof fn lemma_bal_lookup_absent(s: Seq<(u64, u128)>, k: u64)
    requires
        forall|j: int| 0 <= j < s.len() ==> s[j].0 != k,
    ensures
        bal_lookup(s, k) == 0,
    decreases s.len(),
{
    if s.len() > 0 {
        lemma_bal_lookup_absent(s.drop_first(), k);
    }
}

/// The first entry holding `k` gives the looked-up value.
pub proof fn lemma_bal_lookup_first_match(s: Seq<(u64, u128)>, i: int, k: u64)
    requires
        0 <= i < s.len(),
        s[i].0 == k,
        forall|j: int| 0 <= j < i ==> s[j].0 != k,
    ensures
        bal_lookup(s, k) == s[i].1,
    decreases i,
{
    if i > 0 {
        lemma_bal_lookup_first_match(s.drop_first(), i - 1, k);
    }
}

/// Overwriting the entry at `i` moves the looked-up value of its key to the
/// new value, leaves every other key alone, and shifts the sum by the
/// difference.
pub proof fn lemma_bal_update(s: Seq<(u64, u128)>, i: int, k: u64, v: u128)
    requires
        0 <= i < s.len(),
        s[i].0 == k,
        forall|j: int| 0 <= j < i ==> s[j].0 != k,
    ensures
        bal_lookup(s.update(i, (k, v)), k) == v,
        forall|k2: u64| k2 != k ==> bal_lookup(s.update(i, (k, v)), k2) == bal_lookup(s, k2),
        bal_sum(s.update(i, (k, v))) == bal_sum(s) - s[i].1 + v,
    decreases i,
{
    let t = s.update(i, (k, v));
    if i == 0 {
        assert(t.drop_first() =~= s.drop_first());
        assert forall|k2: u64| k2 != k implies bal_lookup(t, k2) == bal_lookup(s, k2) by {
            assert(bal_lookup(t, k2) == bal_lookup(t.drop_first(), k2));
            assert(bal_lookup(s, k2) == bal_lookup(s.drop_first(), k2));
        }
    } else {
        lemma_bal_update(s.drop_first(), i - 1, k, v);
        assert(t.drop_first() =~= s.drop_first().update(i - 1, (k, v)));
        assert(bal_lookup(t, k) == v);
        assert forall|k2: u64| k2 != k implies bal_lookup(t, k2) == bal_lookup(s, k2) by {
            if s[0].0 == k2 {
                assert(bal_lookup(t, k2) == t[0].1);
            } else {
                assert(bal_lookup(t, k2) == bal_lookup(t.drop_first(), k2));
                assert(bal_lookup(s, k2) == bal_lookup(s.drop_first(), k2));
            }
        }
        assert(bal_sum(t) == t[0].1 + bal_sum(t.drop_first()));
        assert(bal_sum(s) == s[0].1 + bal_sum(s.drop_first()));
    }
}

/// Appending an entry for a key held by no existing entry gives that key the
/// appended value, leaves every other key alone, and adds to the sum.
pub proof fn lemma_bal_push(s: Seq<(u64, u128)>, k: u64, v: u128)
    requires
        forall|j: int| 0 <= j < s.len() ==> s[j].0 != k,
    ensures
        bal_lookup(s.push((k, v)), k) == v,
        forall|k2: u64| k2 != k ==> bal_lookup(s.push((k, v)), k2) == bal_lookup(s, k2),
        bal_sum(s.push((k, v))) == bal_sum(s) + v,
    decreases s.len(),
{
    let t = s.push((k, v));
    if s.len() == 0 {
        assert(t.drop_first() =~= Seq::<(u64, u128)>::empty());
        assert(bal_sum(t) == t[0].1 + bal_sum(t.drop_first()));
        assert forall|k2: u64| k2 != k implies bal_lookup(t, k2) == bal_lookup(s, k2) by {
            assert(bal_lookup(t, k2) == bal_lookup(t.drop_first(), k2));
        }
    } else {
        lemma_bal_push(s.drop_first(), k, v);
        assert(t.drop_first() =~= s.drop_first().push((k, v)));
        assert(bal_lookup(t, k) == bal_lookup(t.drop_first(), k));
        assert forall|k2: u64| k2 != k implies bal_lookup(t, k2) == bal_lookup(s, k2) by {
            if s[0].0 == k2 {
                assert(bal_lookup(t, k2) == t[0].1);
            } else {
                assert(bal_lookup(t, k2) == bal_lookup(t.drop_first(), k2));
                assert(bal_lookup(s, k2) == bal_lookup(s.drop_first(), k2));
            }
        }
        assert(bal_sum(t) == t[0].1 + bal_sum(t.drop_first()));
        assert(bal_sum(s) == s[0].1 + bal_sum(s.drop_first()));
    }
}

/// Sparse account-to-balance store: a sequence of entries with distinct keys,
/// read with a default of zero.
pub struct BalanceTable {
    pub entries: Vec<(u64, u128)>,
}

impl BalanceTable {
    /// An empty store: every account reads as zero.
    pub fn new() -> (r: BalanceTable)
        ensures
            r.entries@ =~= Seq::<(u64, u128)>::empty(),
            bal_keys_distinct(r.entries@),
            forall|k: u64| bal_lookup(r.entries@, k) == 0,
            bal_sum(r.entries@) == 0,
    {
        let r = BalanceTable { entries: Vec::new() };
        proof {
            assert forall|k: u64| bal_lookup(r.entries@, k) == 0 by {
                lemma_bal_lookup_absent(r.entries@, k);
            }
        }
        r
    }

    /// Balance of `k`, zero when the account was never written.
    pub fn get(&self, k: u64) -> (r: u128)
        ensures
            r == bal_lookup(self.entries@, k),
    {
        let n = self.entries.len();
        let mut i: usize = 0;
        while i < n
            invariant
                0 <= i <= n,
                n == self.entries@.len(),
                forall|j: int| 0 <= j < i ==> self.entries@[j].0 != k,
            decreases n - i,
        {
            if self.entries[i].0 == k {
                proof {
                    lemma_bal_lookup_first_match(self.entries@, i as int, k);
                }
                return self.entries[i].1;
            }
            i = i + 1;
        }
        proof {
            lemma_bal_lookup_absent(self.entries@, k);
        }
        0
    }

    /// Sets the balance of `k` to `v`, leaving every other account alone; the
    /// sum of balances moves by exactly the difference.
    pub fn set(&mut self, k: u64, v: u128)
        requires
            bal_keys_distinct(old(self).entries@),
        ensures
            bal_keys_distinct(final(self).entries@),
            bal_lookup(final(self).entries@, k) == v,
            forall|k2: u64|
                k2 != k ==> bal_lookup(final(self).entries@, k2) == bal_lookup(
                    old(self).entries@,
                    k2,
                ),
            bal_sum(final(self).entries@) == bal_sum(old(self).entries@) - bal_lookup(
                old(self).entries@,
                k,
            ) + v,
    {
        let n = self.entries.len();
        let mut i: usize = 0;
        while i < n
            invariant
                0 <= i <= n,
                n == self.entries@.len(),
                self.entries@ == old(self).entries@,
                bal_keys_distinct(self.entries@),
                forall|j: int| 0 <= j < i ==> self.entries@[j].0 != k,
            decreases n - i,
        {
            if self.entries[i].0 == k {
                proof {
                    let s0 = self.entries@;
                    assert(bal_keys_distinct(s0));
                    lemma_bal_lookup_first_match(s0, i as int, k);
                    lemma_bal_update(s0, i as int, k, v);
                    let t = s0.update(i as int, (k, v));
                    assert forall|a: int, b: int| 0 <= a < b < t.len() implies t[a].0 != t[b].0 by {
                        assert(s0[a].0 != s0[b].0);
                        if a == i {
                            assert(t[a].0 == k && s0[a].0 == k);
                        } else {
                            assert(t[a].0 == s0[a].0);
                        }
                        if b == i {
                            assert(t[b].0 == k && s0[b].0 == k);
                        } else {
                            assert(t[b].0 == s0[b].0);
                        }
                    }
                }
                self.entries.set(i, (k, v));
                return ;
            }
            i = i + 1;
        }
        proof {
            lemma_bal_lookup_absent(self.entries@, k);
            lemma_bal_push(self.entries@, k, v);
        }
        self.entries.push((k, v));
    }
}

} // verus!
