//! The registries of claims and of votes.

use vstd::prelude::*;
use crate::bytes::same_bytes;
use crate::types::{AuthorityId, Claim, ClaimId};

verus! {

/// Token claim requests by their ids.
pub struct ClaimMap {
    entries: Vec<(ClaimId, Claim)>,
}

/// Whether an entry has the id.
spec fn holds(entries: Seq<(ClaimId, Claim)>, id: ClaimId) -> bool {
    exists|i: int| 0 <= i < entries.len() && (#[trigger] entries[i]).0 == id
}

/// The place of the entry with the id.
spec fn place_of(entries: Seq<(ClaimId, Claim)>, id: ClaimId) -> int {
    choose|i: int| 0 <= i < entries.len() && (#[trigger] entries[i]).0 == id
}

/// Whether no id stands twice.
spec fn distinct(entries: Seq<(ClaimId, Claim)>) -> bool {
    forall|i: int, j: int|
        0 <= i < j < entries.len() ==> (#[trigger] entries[i]).0 != (#[trigger] entries[j]).0
}

/// The map that some entries stand for.
spec fn map_of(entries: Seq<(ClaimId, Claim)>) -> Map<ClaimId, Claim> {
    Map::new(
        |id: ClaimId| holds(entries, id),
        |id: ClaimId| entries[place_of(entries, id)].1,
    )
}

impl View for ClaimMap {
    type V = Map<ClaimId, Claim>;

    closed spec fn view(&self) -> Map<ClaimId, Claim> {
        map_of(self.entries@)
    }
}

impl ClaimMap {
    #[verifier::type_invariant]
    spec fn well_formed(self) -> bool {
        distinct(self.entries@)
    }

    /// A registry without claims.
    pub fn new() -> (map: ClaimMap)
        ensures
            map@ == Map::<ClaimId, Claim>::empty(),
    {
        let map = ClaimMap { entries: Vec::new() };
        assert(map@ =~= Map::<ClaimId, Claim>::empty());
        map
    }

    /// Where a claim stands among the entries.
    fn find(entries: &Vec<(ClaimId, Claim)>, id: &ClaimId) -> (place: Option<usize>)
        ensures
            match place {
                Some(i) => i < entries@.len() && entries@[i as int].0 == *id,
                None => !holds(entries@, *id),
            },
    {
        let mut i: usize = 0;
        while i < entries.len()
            invariant
                i <= entries@.len(),
                forall|j: int| 0 <= j < i ==> (#[trigger] entries@[j]).0 != *id,
            decreases entries@.len() - i,
        {
            if same_bytes(&entries[i].0, id) {
                return Some(i);
            }
            i += 1;
        }
        None
    }

    /// The claim with an id, if there is one.
    pub fn get(&self, id: &ClaimId) -> (claim: Option<Claim>)
        ensures
            claim == (if self@.contains_key(*id) {
                Some(self@[*id])
            } else {
                None::<Claim>
            }),
    {
        proof {
            use_type_invariant(self);
        }
        match Self::find(&self.entries, id) {
            Some(i) => {
                assert(holds(self.entries@, *id));
                Some(self.entries[i].1)
            },
            None => None,
        }
    }

    /// Puts a claim under an id, in place of the claim that was there.
    pub fn insert(&mut self, id: ClaimId, claim: Claim)
        ensures
            final(self)@ == old(self)@.insert(id, claim),
    {
        proof {
            use_type_invariant(&*self);
        }
        let mut entries: Vec<(ClaimId, Claim)> = Vec::new();
        std::mem::swap(&mut entries, &mut self.entries);
        let ghost before = entries@;
        match Self::find(&entries, &id) {
            Some(i) => {
                entries[i] = (id, claim);
                proof {
                    lemma_map_of(before);
                    lemma_map_of(entries@);
                    let (a, b) = (map_of(entries@), map_of(before).insert(id, claim));
                    assert forall|k: ClaimId| a.contains_key(k) == b.contains_key(k) by {
                        if holds(before, k) && k != id {
                            let j = place_of(before, k);
                            assert(entries@[j].0 == k);
                        }
                        if holds(entries@, k) {
                            let j = place_of(entries@, k);
                            assert(before[j].0 == k);
                        }
                        assert(entries@[i as int].0 == id);
                    }
                    assert forall|k: ClaimId| a.contains_key(k) implies a[k] == b[k] by {
                        let j = place_of(entries@, k);
                        assert(entries@[j].0 == k && before[j].0 == k);
                    }
                    assert(a =~= b);
                }
            },
            None => {
                entries.push((id, claim));
                proof {
                    lemma_map_of(before);
                    lemma_map_of(entries@);
                    let (a, b) = (map_of(entries@), map_of(before).insert(id, claim));
                    assert(entries@[before.len() as int].0 == id);
                    assert forall|k: ClaimId| a.contains_key(k) == b.contains_key(k) by {
                        if holds(before, k) {
                            let j = place_of(before, k);
                            assert(entries@[j].0 == k);
                        }
                        if holds(entries@, k) && k != id {
                            let j = place_of(entries@, k);
                            assert(before[j].0 == k);
                        }
                    }
                    assert forall|k: ClaimId| a.contains_key(k) implies a[k] == b[k] by {
                        let j = place_of(entries@, k);
                        if k != id {
                            assert(entries@[j].0 == k && before[j].0 == k);
                        }
                    }
                    assert(a =~= b);
                }
            },
        }
        self.entries = entries;
    }
}

/// What the map of distinct entries holds: each entry's claim under its id.
proof fn lemma_map_of(entries: Seq<(ClaimId, Claim)>)
    requires
        distinct(entries),
    ensures
        forall|i: int|
            0 <= i < entries.len() ==> map_of(entries).contains_key((#[trigger] entries[i]).0)
                && map_of(entries)[entries[i].0] == entries[i].1,
{
    assert forall|i: int| 0 <= i < entries.len() implies map_of(entries).contains_key(
        (#[trigger] entries[i]).0,
    ) && map_of(entries)[entries[i].0] == entries[i].1 by {
        assert(holds(entries, entries[i].0));
        let k = place_of(entries, entries[i].0);
        assert(entries[k].0 == entries[i].0);
    }
}

/// Double vote prevention registry: who has voted for what.
pub struct VoteSet {
    entries: Vec<(AuthorityId, ClaimId)>,
}

impl View for VoteSet {
    type V = Set<(AuthorityId, ClaimId)>;

    closed spec fn view(&self) -> Set<(AuthorityId, ClaimId)> {
        self.entries@.to_set()
    }
}

impl VoteSet {
    /// A registry without votes.
    pub fn new() -> (votes: VoteSet)
        ensures
            votes@ == Set::<(AuthorityId, ClaimId)>::empty(),
    {
        let votes = VoteSet { entries: Vec::new() };
        assert(votes@ =~= Set::<(AuthorityId, ClaimId)>::empty());
        votes
    }

    /// Whether an authority has voted for a claim.
    pub fn contains(&self, authority: &AuthorityId, id: &ClaimId) -> (voted: bool)
        ensures
            voted == self@.contains((*authority, *id)),
    {
        let mut i: usize = 0;
        while i < self.entries.len()
            invariant
                i <= self.entries@.len(),
                forall|j: int| 0 <= j < i ==> #[trigger] self.entries@[j] != (*authority, *id),
            decreases self.entries@.len() - i,
        {
            if same_bytes(&self.entries[i].0, authority) && same_bytes(&self.entries[i].1, id) {
                assert(self.entries@[i as int] == (*authority, *id));
                return true;
            }
            i += 1;
        }
        false
    }

    /// Notes that an authority has voted for a claim.
    pub fn insert(&mut self, authority: AuthorityId, id: ClaimId)
        ensures
            final(self)@ == old(self)@.insert((authority, id)),
    {
        if !self.contains(&authority, &id) {
            let ghost before = self.entries@;
            self.entries.push((authority, id));
            proof {
                assert forall|p: (AuthorityId, ClaimId)|
                    self.entries@.contains(p) == (before.contains(p) || p == (authority, id)) by {
                    if before.contains(p) {
                        let j = choose|j: int| 0 <= j < before.len() && before[j] == p;
                        assert(self.entries@[j] == p);
                    }
                    assert(self.entries@[before.len() as int] == (authority, id));
                }
            }
        }
        assert(self@ =~= old(self)@.insert((authority, id)));
    }
}

} // verus!
