use vstd::prelude::*;

verus! {

/// Allowance granted by `o` to `s2` in the first matching entry, or zero when
/// no entry holds that pair: the sparse, default-zero read path.
pub open spec fn allow_lookup(s: Seq<(u64, u64, u128)>, o: u64, s2: u64) -> u128
    decreases s.len(),
{
    if s.len() == 0 {
        0
    } else if s[0].0 == o && s[0].1 == s2 {
        s[0].2
    } else {
        allow_lookup(s.drop_first(), o, s2)
    }
}

/// No (owner, spender) pair appears under two entries.
pub open spec fn allow_keys_distinct(s: Seq<(u64, u64, u128)>) -> bool {
    forall|i: int, j: int|
        0 <= i < j < s.len() ==> !(s[i].0 == s[j].0 && s[i].1 == s[j].1)
}

/// A pair held by no entry reads as zero.
pub proof fn lemma_allow_lookup_absent(s: Seq<(u64, u64, u128)>, o: u64, s2: u64)
    requires
        forall|j: int| 0 <= j < s.len() ==> !(s[j].0 == o && s[j].1 == s2),
    ensures
        allow_lookup(s, o, s2) == 0,
    decreases s.len(),
{
    if s.len() > 0 {
        lemma_allow_lookup_absent(s.drop_first(), o, s2);
    }
}

/// The first entry holding the pair gives the looked-up value.
pub proof fn lemma_allow_lookup_first_match(s: Seq<(u64, u64, u128)>, i: int, o: u64, s2: u64)
    requires
        0 <= i < s.len(),
        s[i].0 == o && s[i].1 == s2,
        forall|j: int| 0 <= j < i ==> !(s[j].0 == o && s[j].1 == s2),
    ensures
        allow_lookup(s, o, s2) == s[i].2,
    decreases i,
{
    if i > 0 {
        lemma_allow_lookup_first_match(s.drop_first(), i - 1, o, s2);
    }
}

/// Overwriting the entry at `i` moves the looked-up value of its pair to the
/// new value and leaves every other pair alone.
pub proof fn lemma_allow_update(s: Seq<(u64, u64, u128)>, i: int, o: u64, s2: u64, v: u128)
    requires
        0 <= i < s.len(),
        s[i].0 == o && s[i].1 == s2,
        forall|j: int| 0 <= j < i ==> !(s[j].0 == o && s[j].1 == s2),
    ensures
        allow_lookup(s.update(i, (o, s2, v)), o, s2) == v,
        forall|o2: u64, p2: u64|
            !(o2 == o && p2 == s2) ==> allow_lookup(s.update(i, (o, s2, v)), o2, p2)
                == allow_lookup(s, o2, p2),
    decreases i,
{
    let t = s.update(i, (o, s2, v));
    if i == 0 {
        assert(t.drop_first() =~= s.drop_first());
        assert forall|o2: u64, p2: u64| !(o2 == o && p2 == s2) implies allow_lookup(t, o2, p2)
            == allow_lookup(s, o2, p2) by {
            assert(allow_lookup(t, o2, p2) == allow_lookup(t.drop_first(), o2, p2));
            assert(allow_lookup(s, o2, p2) == allow_lookup(s.drop_first(), o2, p2));
        }
    } else {
        lemma_allow_update(s.drop_first(), i - 1, o, s2, v);
        assert(t.drop_first() =~= s.drop_first().update(i - 1, (o, s2, v)));
        assert(allow_lookup(t, o, s2) == v);
        assert forall|o2: u64, p2: u64| !(o2 == o && p2 == s2) implies allow_lookup(t, o2, p2)
            == allow_lookup(s, o2, p2) by {
            if s[0].0 == o2 && s[0].1 == p2 {
                assert(allow_lookup(t, o2, p2) == t[0].2);
            } else {
                assert(allow_lookup(t, o2, p2) == allow_lookup(t.drop_first(), o2, p2));
                assert(allow_lookup(s, o2, p2) == allow_lookup(s.drop_first(), o2, p2));
            }
        }
    }
}

/// Appending an entry for a fresh pair gives that pair the appended value and
/// leaves every other pair alone.
pub proof fn lemma_allow_push(s: Seq<(u64, u64, u128)>, o: u64, s2: u64, v: u128)
    requires
        forall|j: int| 0 <= j < s.len() ==> !(s[j].0 == o && s[j].1 == s2),
    ensures
        allow_lookup(s.push((o, s2, v)), o, s2) == v,
        forall|o2: u64, p2: u64|
            !(o2 == o && p2 == s2) ==> allow_lookup(s.push((o, s2, v)), o2, p2)
                == allow_lookup(s, o2, p2),
    decreases s.len(),
{
    let t = s.push((o, s2, v));
    if s.len() == 0 {
        assert(t.drop_first() =~= Seq::<(u64, u64, u128)>::empty());
        assert forall|o2: u64, p2: u64| !(o2 == o && p2 == s2) implies allow_lookup(t, o2, p2)
            == allow_lookup(s, o2, p2) by {
            assert(allow_lookup(t, o2, p2) == allow_lookup(t.drop_first(), o2, p2));
        }
    } else {
        lemma_allow_push(s.drop_first(), o, s2, v);
        assert(t.drop_first() =~= s.drop_first().push((o, s2, v)));
        assert(allow_lookup(t, o, s2) == allow_lookup(t.drop_first(), o, s2));
        assert forall|o2: u64, p2: u64| !(o2 == o && p2 == s2) implies allow_lookup(t, o2, p2)
            == allow_lookup(s, o2, p2) by {
            if s[0].0 == o2 && s[0].1 == p2 {
                assert(allow_lookup(t, o2, p2) == t[0].2);
            } else {
                assert(allow_lookup(t, o2, p2) == allow_lookup(t.drop_first(), o2, p2));
                assert(allow_lookup(s, o2, p2) == allow_lookup(s.drop_first(), o2, p2));
            }
        }
    }
}

/// Sparse (owner, spender)-to-allowance store with distinct pairs, read with
/// a default of zero.
pub struct AllowanceTable {
    pub entries: Vec<(u64, u64, u128)>,
}

impl AllowanceTable {
    /// An empty store: every pair reads as zero.
    pub fn new() -> (r: AllowanceTable)
        ensures
            allow_keys_distinct(r.entries@),
            forall|o: u64, s2: u64| allow_lookup(r.entries@, o, s2) == 0,
    {
        let r = AllowanceTable { entries: Vec::new() };
        proof {
            assert forall|o: u64, s2: u64| allow_lookup(r.entries@, o, s2) == 0 by {
                lemma_allow_lookup_absent(r.entries@, o, s2);
            }
        }
        r
    }

    /// Allowance of the pair, zero when it was never written.
    pub fn get(&self, o: u64, s2: u64) -> (r: u128)
        ensures
            r == allow_lookup(self.entries@, o, s2),
    {
        let n = self.entries.len();
        let mut i: usize = 0;
        while i < n
            invariant
                0 <= i <= n,
                n == self.entries@.len(),
                forall|j: int| 0 <= j < i ==> !(self.entries@[j].0 == o && self.entries@[j].1 == s2),
            decreases n - i,
        {
            let e = self.entries[i];
            if e.0 == o && e.1 == s2 {
                proof {
                    lemma_allow_lookup_first_match(self.entries@, i as int, o, s2);
                }
                return e.2;
            }
            i = i + 1;
        }
        proof {
            lemma_allow_lookup_absent(self.entries@, o, s2);
        }
        0
    }

    /// Sets the allowance of the pair to `v`, leaving every other pair alone.
    pub fn set(&mut self, o: u64, s2: u64, v: u128)
        requires
            allow_keys_distinct(old(self).entries@),
        ensures
            allow_keys_distinct(final(self).entries@),
            allow_lookup(final(self).entries@, o, s2) == v,
            forall|o2: u64, p2: u64|
                !(o2 == o && p2 == s2) ==> allow_lookup(final(self).entries@, o2, p2)
                    == allow_lookup(old(self).entries@, o2, p2),
    {
        let n = self.entries.len();
        let mut i: usize = 0;
        while i < n
            invariant
                0 <= i <= n,
                n == self.entries@.len(),
                self.entries@ == old(self).entries@,
                allow_keys_distinct(self.entries@),
                forall|j: int| 0 <= j < i ==> !(self.entries@[j].0 == o && self.entries@[j].1 == s2),
            decreases n - i,
        {
            let e = self.entries[i];
            if e.0 == o && e.1 == s2 {
                proof {
                    let s0 = self.entries@;
                    lemma_allow_update(s0, i as int, o, s2, v);
                    let t = s0.update(i as int, (o, s2, v));
                    assert forall|a: int, b: int| 0 <= a < b < t.len() implies !(t[a].0 == t[b].0
                        && t[a].1 == t[b].1) by {
                        assert(!(s0[a].0 == s0[b].0 && s0[a].1 == s0[b].1));
                        if a == i {
                            assert(t[a].0 == o && t[a].1 == s2 && s0[a].0 == o && s0[a].1 == s2);
                        } else {
                            assert(t[a].0 == s0[a].0 && t[a].1 == s0[a].1);
                        }
                        if b == i {
                            assert(t[b].0 == o && t[b].1 == s2 && s0[b].0 == o && s0[b].1 == s2);
                        } else {
                            assert(t[b].0 == s0[b].0 && t[b].1 == s0[b].1);
                        }
                    }
                }
                self.entries.set(i, (o, s2, v));
                return ;
            }
            i = i + 1;
        }
        proof {
            lemma_allow_lookup_absent(self.entries@, o, s2);
            lemma_allow_push(self.entries@, o, s2, v);
        }
        self.entries.push((o, s2, v));
    }
}

} // verus!
