use vstd::prelude::*;

use crate::model::RegistryState;
use crate::pallet::Pallet;
use crate::types::EventModel;

verus! {

/// The registry that a list of club names starts with: each named club, with
/// no members, and no events.
pub open spec fn genesis_state(names: Seq<Seq<u8>>) -> RegistryState {
    RegistryState {
        clubs: Map::new(|k: Seq<u8>| names.contains(k), |k: Seq<u8>| Set::<u64>::empty()),
        events: Seq::<EventModel>::empty(),
    }
}

/// The clubs that exist when the registry starts.
pub struct GenesisConfig {
    pub clubs: Vec<Vec<u8>>,
}

impl Default for GenesisConfig {
    /// No clubs at start.
    fn default() -> (r: GenesisConfig)
        ensures
            r.clubs@.len() == 0,
    {
        GenesisConfig { clubs: Vec::new() }
    }
}

impl GenesisConfig {
    /// The names of the configured clubs, in order.
    pub open spec fn names(&self) -> Seq<Seq<u8>> {
        self.clubs@.map_values(|c: Vec<u8>| c@)
    }

    /// The registry at start: every configured club, each with no members.
    /// A name given twice makes one club.
    pub fn build(&self) -> (r: Pallet)
        ensures
            r.wf(),
            r@ == genesis_state(self.names()),
    {
        let mut r = Pallet::new();
        let mut i: usize = 0;
        assert(r@.clubs =~= genesis_state(self.names().subrange(0, 0)).clubs);
        while i < self.clubs.len()
            invariant
                i <= self.clubs@.len(),
                r.wf(),
                r@ == genesis_state(self.names().subrange(0, i as int)),
            decreases self.clubs@.len() - i,
        {
            let ghost done = self.names().subrange(0, i as int);
            let ghost next = self.names().subrange(0, i + 1);
            assert(next == done.push(self.clubs@[i as int]@));
            if !r.contains_club(&self.clubs[i]) {
                r.insert_new_club(&self.clubs[i]);
            }
            assert forall|k: Seq<u8>| next.contains(k) <==> (done.contains(k) || k
                == self.clubs@[i as int]@) by {
                if next.contains(k) && k != self.clubs@[i as int]@ {
                    let m = choose|m: int| 0 <= m < next.len() && next[m] == k;
                    assert(done[m] == k);
                }
                if done.contains(k) {
                    let m = choose|m: int| 0 <= m < done.len() && done[m] == k;
                    assert(next[m] == k);
                }
                if k == self.clubs@[i as int]@ {
                    assert(next[i as int] == k);
                }
            }
            assert(r@.clubs =~= genesis_state(next).clubs);
            i = i + 1;
        }
        assert(self.names().subrange(0, self.clubs@.len() as int) =~= self.names());
        assert(r@.events =~= Seq::<EventModel>::empty());
        r
    }
}

} // verus!
