//! The authorization gate: a fixed allow-list of caller identities.
use vstd::prelude::*;

verus! {

/// The caller identities permitted to issue any command.
pub struct AllowList {
    ids: Vec<u64>,
}

impl View for AllowList {
    type V = Set<u64>;

    closed spec fn view(&self) -> Set<u64> {
        self.ids@.to_set()
    }
}

impl AllowList {
    /// An allow-list holding exactly the identities of `ids`.
    pub fn new(ids: Vec<u64>) -> (r: AllowList)
        ensures
            r@ == ids@.to_set(),
    {
        AllowList { ids }
    }

    /// Whether `caller` may issue commands: true exactly for the listed identities.
    pub fn check(&self, caller: u64) -> (r: bool)
        ensures
            r == self@.contains(caller),
    {
        let mut i: usize = 0;
        while i < self.ids.len()
            invariant
                i <= self.ids@.len(),
                forall|k: int| 0 <= k < i ==> self.ids@[k] != caller,
            decreases self.ids@.len() - i,
        {
            if self.ids[i] == caller {
                assert(self.ids@.contains(caller));
                return true;
            }
            i = i + 1;
        }
        assert(!self.ids@.contains(caller));
        false
    }
}

} // verus!
