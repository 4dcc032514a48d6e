use vstd::prelude::*;

verus! {

/// State of the seat named `id` in the first matching catalog entry:
/// `Some(taken)` when the identifier is in the catalog, nothing when it is
/// unknown. An unknown identifier is treated as unavailable by every reader.
pub open spec fn seat_lookup(s: Seq<(String, bool)>, id: Seq<char>) -> Option<bool>
    decreases s.len(),
{
    if s.len() == 0 {
        None
    } else if s[0].0@ == id {
        Some(s[0].1)
    } else {
        seat_lookup(s.drop_first(), id)
    }
}

/// Every seat in `ids` is in the catalog and currently free.
pub open spec fn seats_all_free(s: Seq<(String, bool)>, ids: Seq<Seq<char>>) -> bool {
    forall|i: int| 0 <= i < ids.len() ==> seat_lookup(s, ids[i]) == Some(false)
}

/// An identifier matched by no entry is unknown.
pub proof fn lemma_seat_lookup_absent(s: Seq<(String, bool)>, id: Seq<char>)
    requires
        forall|j: int| 0 <= j < s.len() ==> s[j].0@ != id,
    ensures
        seat_lookup(s, id) is None,
    decreases s.len(),
{
    if s.len() > 0 {
        lemma_seat_lookup_absent(s.drop_first(), id);
    }
}

/// The first entry matching `id` gives the looked-up state.
pub proof fn lemma_seat_lookup_first_match(s: Seq<(String, bool)>, i: int, id: Seq<char>)
    requires
        0 <= i < s.len(),
        s[i].0@ == id,
        forall|j: int| 0 <= j < i ==> s[j].0@ != id,
    ensures
        seat_lookup(s, id) == Some(s[i].1),
    decreases i,
{
    if i > 0 {
        lemma_seat_lookup_first_match(s.drop_first(), i - 1, id);
    }
}

/// Overwriting the flag of the first entry matching its own identifier moves
/// that seat's state and leaves every other identifier alone.
pub proof fn lemma_seat_update(s: Seq<(String, bool)>, i: int, v: bool)
    requires
        0 <= i < s.len(),
        forall|j: int| 0 <= j < i ==> s[j].0@ != s[i].0@,
    ensures
        seat_lookup(s.update(i, (s[i].0, v)), s[i].0@) == Some(v),
        forall|id2: Seq<char>|
            id2 != s[i].0@ ==> seat_lookup(s.update(i, (s[i].0, v)), id2) == seat_lookup(s, id2),
    decreases i,
{
    let t = s.update(i, (s[i].0, v));
    if i == 0 {
        assert(t.drop_first() =~= s.drop_first());
        assert forall|id2: Seq<char>| id2 != s[i].0@ implies seat_lookup(t, id2) == seat_lookup(
            s,
            id2,
        ) by {
            assert(seat_lookup(t, id2) == seat_lookup(t.drop_first(), id2));
            assert(seat_lookup(s, id2) == seat_lookup(s.drop_first(), id2));
        }
    } else {
        lemma_seat_update(s.drop_first(), i - 1, v);
        assert(t.drop_first() =~= s.drop_first().update(i - 1, (s[i].0, v)));
        assert(seat_lookup(t, s[i].0@) == Some(v));
        assert forall|id2: Seq<char>| id2 != s[i].0@ implies seat_lookup(t, id2) == seat_lookup(
            s,
            id2,
        ) by {
            if s[0].0@ == id2 {
                assert(seat_lookup(t, id2) == Some(t[0].1));
            } else {
                assert(seat_lookup(t, id2) == seat_lookup(t.drop_first(), id2));
                assert(seat_lookup(s, id2) == seat_lookup(s.drop_first(), id2));
            }
        }
    }
}

/// When every catalog flag is false, a known identifier reads free and an
/// unknown one reads as nothing.
pub proof fn lemma_seat_lookup_all_false(s: Seq<(String, bool)>, id: Seq<char>)
    requires
        forall|j: int| 0 <= j < s.len() ==> s[j].1 == false,
    ensures
        seat_lookup(s, id) == if exists|j: int| 0 <= j < s.len() && s[j].0@ == id {
            Some(false)
        } else {
            Option::<bool>::None
        },
    decreases s.len(),
{
    if s.len() > 0 {
        lemma_seat_lookup_all_false(s.drop_first(), id);
        if s[0].0@ != id {
            if exists|j: int| 0 <= j < s.drop_first().len() && s.drop_first()[j].0@ == id {
                let j = choose|j: int|
                    0 <= j < s.drop_first().len() && s.drop_first()[j].0@ == id;
                assert(s[j + 1].0@ == id);
            } else if exists|j: int| 0 <= j < s.len() && s[j].0@ == id {
                let j = choose|j: int| 0 <= j < s.len() && s[j].0@ == id;
                assert(s.drop_first()[j - 1].0@ == id);
            }
        }
    }
}

/// The fixed seat catalog with one taken flag per seat. Identifiers are
/// supplied once at construction; a flag only ever moves from free to taken.
pub struct SeatInventory {
    pub entries: Vec<(String, bool)>,
}

impl SeatInventory {
    /// Builds the catalog from the ordered identifier list, every seat free.
    pub fn new(seats: &Vec<String>) -> (r: SeatInventory)
        ensures
            r.entries@.len() == seats@.len(),
            forall|i: int|
                0 <= i < seats@.len() ==> r.entries@[i].0 == seats@[i] && r.entries@[i].1 == false,
            forall|id: Seq<char>|
                seat_lookup(r.entries@, id) == if exists|j: int|
                    0 <= j < seats@.len() && seats@[j]@ == id {
                    Some(false)
                } else {
                    Option::<bool>::None
                },
    {
        let n = seats.len();
        let mut entries: Vec<(String, bool)> = Vec::new();
        let mut i: usize = 0;
        while i < n
            invariant
                0 <= i <= n,
                n == seats@.len(),
                entries@.len() == i,
                forall|j: int| 0 <= j < i ==> entries@[j].0 == seats@[j],
                forall|j: int| 0 <= j < i ==> entries@[j].1 == false,
            decreases n - i,
        {
            entries.push((seats[i].clone(), false));
            i = i + 1;
        }
        let r = SeatInventory { entries };
        proof {
            assert forall|j: int| 0 <= j < r.entries@.len() implies r.entries@[j].1 == false by {
                assert(r.entries@[j].1 == false);
            }
            assert forall|id: Seq<char>|
                seat_lookup(r.entries@, id) == (if exists|j: int|
                    0 <= j < seats@.len() && seats@[j]@ == id {
                    Some(false)
                } else {
                    Option::<bool>::None
                }) by {
                lemma_seat_lookup_all_false(r.entries@, id);
                if exists|j: int| 0 <= j < r.entries@.len() && r.entries@[j].0@ == id {
                    let j = choose|j: int| 0 <= j < r.entries@.len() && r.entries@[j].0@ == id;
                    assert(seats@[j]@ == id);
                }
                if exists|j: int| 0 <= j < seats@.len() && seats@[j]@ == id {
                    let j = choose|j: int| 0 <= j < seats@.len() && seats@[j]@ == id;
                    assert(r.entries@[j].0@ == id);
                }
            }
        }
        r
    }

    /// Whether the seat named `id` is in the catalog and currently free.
    pub fn is_free(&self, id: &String) -> (r: bool)
        ensures
            r == (seat_lookup(self.entries@, id@) == Some(false)),
    {
        let n = self.entries.len();
        let mut i: usize = 0;
        while i < n
            invariant
                0 <= i <= n,
                n == self.entries@.len(),
                forall|j: int| 0 <= j < i ==> self.entries@[j].0@ != id@,
            decreases n - i,
        {
            let e = &self.entries[i];
            if e.0.eq(id) {
                proof {
                    lemma_seat_lookup_first_match(self.entries@, i as int, id@);
                }
                return !e.1;
            }
            i = i + 1;
        }
        proof {
            lemma_seat_lookup_absent(self.entries@, id@);
        }
        false
    }

    /// Marks the seat named `id` as taken, leaving every other seat alone.
    /// A taken seat never reverts: marking is the only flag change and it
    /// only writes `true`.
    pub fn mark_taken(&mut self, id: &String)
        requires
            seat_lookup(old(self).entries@, id@) is Some,
        ensures
            final(self).entries@.len() == old(self).entries@.len(),
            seat_lookup(final(self).entries@, id@) == Some(true),
            forall|id2: Seq<char>|
                id2 != id@ ==> seat_lookup(final(self).entries@, id2) == seat_lookup(
                    old(self).entries@,
                    id2,
                ),
    {
        let n = self.entries.len();
        let mut i: usize = 0;
        while i < n
            invariant
                0 <= i <= n,
                n == self.entries@.len(),
                self.entries@ == old(self).entries@,
                forall|j: int| 0 <= j < i ==> self.entries@[j].0@ != id@,
            decreases n - i,
        {
            let hit = self.entries[i].0.eq(id);
            if hit {
                let name = self.entries[i].0.clone();
                proof {
                    lemma_seat_update(self.entries@, i as int, true);
                    assert(self.entries@.update(i as int, (self.entries@[i as int].0, true))
                        =~= self.entries@.update(i as int, (name, true)));
                }
                self.entries.set(i, (name, true));
                return ;
            }
            i = i + 1;
        }
        proof {
            lemma_seat_lookup_absent(self.entries@, id@);
        }
    }
}

} // verus!
