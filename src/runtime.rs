use vstd::prelude::*;

use crate::pallet::Pallet;
use crate::types::{AccountId, Error, Event, Fingerprint, System};

verus! {

/// A chain's state as the registry sees it: the block being built, which
/// supplies entropy, and the registry itself.
pub struct Runtime {
    pub system: System,
    pub collectables: Pallet,
}

impl Runtime {
    /// A chain with an empty registry, building the given block.
    pub fn new(system: System) -> (r: Runtime)
        ensures
            r.system == system,
            r.collectables.wf(),
            r.collectables.kitties_map() == Map::<Fingerprint, crate::types::Kitty>::empty(),
            r.collectables.owned_map() == Map::<AccountId, Seq<Fingerprint>>::empty(),
            r.collectables.mint_count() == 0,
            r.collectables.event_log() == Seq::<Event>::empty(),
    {
        Runtime { system, collectables: Pallet::new() }
    }

    /// Creates a collectible for `who` with the entropy of the current block.
    pub fn create_kitty(&mut self, who: AccountId) -> (r: Result<Fingerprint, Error>)
        requires
            old(self).collectables.wf(),
        ensures
            final(self).system == old(self).system,
            final(self).collectables.wf(),
            r == match old(self).collectables.mint_outcome(
                who,
                old(self).collectables.next_dna(old(self).system),
            ) {
                Ok(_) => Ok(old(self).collectables.next_dna(old(self).system)),
                Err(e) => Err(e),
            },
            r is Err ==> final(self).collectables == old(self).collectables,
            r is Ok ==> Pallet::minted(&old(self).collectables, &final(self).collectables, who, r->Ok_0),
    {
        self.collectables.create_kitty(&self.system, who)
    }
}

} // verus!
