use vstd::prelude::*;

verus! {

/// The set of accounts the owner has authorized to burn tokens. The set only
/// ever grows: there is no removal operation.
pub struct VerifierSet {
    pub members: Vec<u64>,
}

impl VerifierSet {
    /// An empty set: no account is a verifier.
    pub fn new() -> (r: VerifierSet)
        ensures
            forall|a: u64| !r.members@.contains(a),
    {
        VerifierSet { members: Vec::new() }
    }

    /// Whether `a` is a member.
    pub fn contains(&self, a: u64) -> (r: bool)
        ensures
            r == self.members@.contains(a),
    {
        let n = self.members.len();
        let mut i: usize = 0;
        while i < n
            invariant
                0 <= i <= n,
                n == self.members@.len(),
                forall|j: int| 0 <= j < i ==> self.members@[j] != a,
            decreases n - i,
        {
            if self.members[i] == a {
                assert(self.members@[i as int] == a);
                return true;
            }
            i = i + 1;
        }
        assert(!self.members@.contains(a));
        false
    }

    /// Adds `a` to the set; adding a member twice changes nothing.
    pub fn insert(&mut self, a: u64)
        ensures
            forall|x: u64|
                final(self).members@.contains(x) <==> (old(self).members@.contains(x) || x == a),
    {
        if !self.contains(a) {
            let ghost s = self.members@;
            self.members.push(a);
            proof {
                let t = self.members@;
                assert(t[s.len() as int] == a);
                assert forall|x: u64| t.contains(x) implies (s.contains(x) || x == a) by {
                    let i = choose|i: int| 0 <= i < t.len() && t[i] == x;
                    if i < s.len() {
                        assert(s[i] == x);
                    }
                }
                assert forall|x: u64| s.contains(x) implies t.contains(x) by {
                    let i = choose|i: int| 0 <= i < s.len() && s[i] == x;
                    assert(t[i] == x);
                }
            }
        }
    }
}

} // verus!
