use vstd::prelude::*;

verus! {

/// Proof record stored for `k` in the first matching entry, or nothing when
/// no record was ever written for that account.
pub open spec fn receipt_lookup(s: Seq<(u64, Vec<u8>)>, k: u64) -> Option<Seq<u8>>
    decreases s.len(),
{
    if s.len() == 0 {
        None
    } else if s[0].0 == k {
        Some(s[0].1@)
    } else {
        receipt_lookup(s.drop_first(), k)
    }
}

/// No account appears under two entries.
pub open spec fn receipt_keys_distinct(s: Seq<(u64, Vec<u8>)>) -> bool {
    forall|i: int, j: int| 0 <= i < j < s.len() ==> s[i].0 != s[j].0
}

/// A key held by no entry has no record.
pub proof fn lemma_receipt_lookup_absent(s: Seq<(u64, Vec<u8>)>, k: u64)
    requires
        forall|j: int| 0 <= j < s.len() ==> s[j].0 != k,
    ensures
        receipt_lookup(s, k) is None,
    decreases s.len(),
{
    if s.len() > 0 {
        lemma_receipt_lookup_absent(s.drop_first(), k);
    }
}

/// The first entry holding `k` gives the looked-up record.
pub proof fn lemma_receipt_lookup_first_match(s: Seq<(u64, Vec<u8>)>, i: int, k: u64)
    requires
        0 <= i < s.len(),
        s[i].0 == k,
        forall|j: int| 0 <= j < i ==> s[j].0 != k,
    ensures
        receipt_lookup(s, k) == Some(s[i].1@),
    decreases i,
{
    if i > 0 {
        lemma_receipt_lookup_first_match(s.drop_first(), i - 1, k);
    }
}

/// Overwriting the entry at `i` moves the record of its key to the new bytes
/// and leaves every other key alone.
pub proof fn lemma_receipt_update(s: Seq<(u64, Vec<u8>)>, i: int, k: u64, v: Vec<u8>)
    requires
        0 <= i < s.len(),
        s[i].0 == k,
        forall|j: int| 0 <= j < i ==> s[j].0 != k,
    ensures
        receipt_lookup(s.update(i, (k, v)), k) == Some(v@),
        forall|k2: u64|
            k2 != k ==> receipt_lookup(s.update(i, (k, v)), k2) == receipt_lookup(s, k2),
    decreases i,
{
    let t = s.update(i, (k, v));
    if i == 0 {
        assert(t.drop_first() =~= s.drop_first());
        assert forall|k2: u64| k2 != k implies receipt_lookup(t, k2) == receipt_lookup(s, k2) by {
            assert(receipt_lookup(t, k2) == receipt_lookup(t.drop_first(), k2));
            assert(receipt_lookup(s, k2) == receipt_lookup(s.drop_first(), k2));
        }
    } else {
        lemma_receipt_update(s.drop_first(), i - 1, k, v);
        assert(t.drop_first() =~= s.drop_first().update(i - 1, (k, v)));
        assert(receipt_lookup(t, k) == Some(v@));
        assert forall|k2: u64| k2 != k implies receipt_lookup(t, k2) == receipt_lookup(s, k2) by {
            if s[0].0 == k2 {
                assert(receipt_lookup(t, k2) == Some(t[0].1@));
            } else {
                assert(receipt_lookup(t, k2) == receipt_lookup(t.drop_first(), k2));
                assert(receipt_lookup(s, k2) == receipt_lookup(s.drop_first(), k2));
            }
        }
    }
}

/// Appending an entry for a fresh key gives that key the appended record and
/// leaves every other key alone.
pub proof fn lemma_receipt_push(s: Seq<(u64, Vec<u8>)>, k: u64, v: Vec<u8>)
    requires
        forall|j: int| 0 <= j < s.len() ==> s[j].0 != k,
    ensures
        receipt_lookup(s.push((k, v)), k) == Some(v@),
        forall|k2: u64| k2 != k ==> receipt_lookup(s.push((k, v)), k2) == receipt_lookup(s, k2),
    decreases s.len(),
{
    let t = s.push((k, v));
    if s.len() == 0 {
        assert forall|k2: u64| k2 != k implies receipt_lookup(t, k2) == receipt_lookup(s, k2) by {
            assert(t.drop_first() =~= Seq::<(u64, Vec<u8>)>::empty());
            assert(receipt_lookup(t, k2) == receipt_lookup(t.drop_first(), k2));
        }
    } else {
        lemma_receipt_push(s.drop_first(), k, v);
        assert(t.drop_first() =~= s.drop_first().push((k, v)));
        assert(receipt_lookup(t, k) == receipt_lookup(t.drop_first(), k));
        assert forall|k2: u64| k2 != k implies receipt_lookup(t, k2) == receipt_lookup(s, k2) by {
            if s[0].0 == k2 {
                assert(receipt_lookup(t, k2) == Some(t[0].1@));
            } else {
                assert(receipt_lookup(t, k2) == receipt_lookup(t.drop_first(), k2));
                assert(receipt_lookup(s, k2) == receipt_lookup(s.drop_first(), k2));
            }
        }
    }
}

/// Byte-for-byte copy of a record.
fn copy_bytes(src: &Vec<u8>) -> (r: Vec<u8>)
    ensures
        r@ == src@,
{
    let n = src.len();
    let mut r: Vec<u8> = Vec::new();
    let mut i: usize = 0;
    while i < n
        invariant
            0 <= i <= n,
            n == src@.len(),
            r@ =~= src@.subrange(0, i as int),
        decreases n - i,
    {
        r.push(src[i]);
        i = i + 1;
        assert(r@ =~= src@.subrange(0, i as int));
    }
    assert(r@ =~= src@);
    r
}

/// Sparse account-to-record store with distinct keys; each write overwrites
/// the whole record for its account.
pub struct ReceiptTable {
    pub entries: Vec<(u64, Vec<u8>)>,
}

impl ReceiptTable {
    /// An empty store: no account has a record.
    pub fn new() -> (r: ReceiptTable)
        ensures
            receipt_keys_distinct(r.entries@),
            forall|k: u64| receipt_lookup(r.entries@, k) is None,
    {
        let r = ReceiptTable { entries: Vec::new() };
        proof {
            assert forall|k: u64| receipt_lookup(r.entries@, k) is None by {
                lemma_receipt_lookup_absent(r.entries@, k);
            }
        }
        r
    }

    /// A copy of the record of `k`, or nothing when none was written.
    pub fn get(&self, k: u64) -> (r: Option<Vec<u8>>)
        ensures
            match r {
                Some(v) => receipt_lookup(self.entries@, k) == Some(v@),
                None => receipt_lookup(self.entries@, k) is None,
            },
    {
        let n = self.entries.len();
        let mut i: usize = 0;
        while i < n
            invariant
                0 <= i <= n,
                n == self.entries@.len(),
                forall|j: int| 0 <= j < i ==> self.entries@[j].0 != k,
            decreases n - i,
        {
            let e = &self.entries[i];
            if e.0 == k {
                proof {
                    lemma_receipt_lookup_first_match(self.entries@, i as int, k);
                }
                return Some(copy_bytes(&e.1));
            }
            i = i + 1;
        }
        proof {
            lemma_receipt_lookup_absent(self.entries@, k);
        }
        None
    }

    /// Sets the record of `k` to `v`, leaving every other account alone.
    pub fn set(&mut self, k: u64, v: Vec<u8>)
        requires
            receipt_keys_distinct(old(self).entries@),
        ensures
            receipt_keys_distinct(final(self).entries@),
            receipt_lookup(final(self).entries@, k) == Some(v@),
            forall|k2: u64|
                k2 != k ==> receipt_lookup(final(self).entries@, k2) == receipt_lookup(
                    old(self).entries@,
                    k2,
                ),
    {
        let n = self.entries.len();
        let mut i: usize = 0;
        while i < n
            invariant
                0 <= i <= n,
                n == self.entries@.len(),
                self.entries@ == old(self).entries@,
                receipt_keys_distinct(self.entries@),
                forall|j: int| 0 <= j < i ==> self.entries@[j].0 != k,
            decreases n - i,
        {
            if self.entries[i].0 == k {
                proof {
                    let s0 = self.entries@;
                    lemma_receipt_update(s0, i as int, k, v);
                    let t = s0.update(i as int, (k, v));
                    assert forall|a: int, b: int| 0 <= a < b < t.len() implies t[a].0 != t[b].0 by {
                        assert(s0[a].0 != s0[b].0);
                        if a == i {
                            assert(t[a].0 == k && s0[a].0 == k);
                        } else {
                            assert(t[a].0 == s0[a].0);
                        }
                        if b == i {
                            assert(t[b].0 == k && s0[b].0 == k);
                        } else {
                            assert(t[b].0 == s0[b].0);
                        }
                    }
                }
                self.entries.set(i, (k, v));
                return ;
            }
            i = i + 1;
        }
        proof {
            lemma_receipt_push(self.entries@, k, v);
        }
        self.entries.push((k, v));
    }
}

} // verus!
