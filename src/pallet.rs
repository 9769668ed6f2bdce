use vstd::prelude::*;

use crate::entropy::{blake2_256, blake2_256_of, encode_entropy, entropy_payload};
use crate::types::{
    same_id, AccountId, Balance, Error, Event, Fingerprint, Kitty, PaymentError, System, MAX_OWNED,
};

verus! {

/// One account's entry in the ownership index.
struct Holding {
    owner: AccountId,
    kitties: Vec<Fingerprint>,
}

/// The registry's state: the mint counter, the collectibles keyed by
/// fingerprint, the per-account ownership index, and the notifications emitted
/// so far.
pub struct Pallet {
    count: u32,
    kitties: Vec<Kitty>,
    owned: Vec<Holding>,
    events: Vec<Event>,
    assets: Ghost<Map<Fingerprint, Kitty>>,
    index: Ghost<Map<AccountId, Seq<Fingerprint>>>,
}

impl Pallet {
    /// The collectibles, keyed by fingerprint.
    pub closed spec fn kitties_map(&self) -> Map<Fingerprint, Kitty> {
        self.assets@
    }

    /// The ownership index; an account that is not a key owns nothing.
    pub closed spec fn owned_map(&self) -> Map<AccountId, Seq<Fingerprint>> {
        self.index@
    }

    /// How many collectibles have been minted.
    pub closed spec fn mint_count(&self) -> u32 {
        self.count
    }

    /// The notifications emitted so far, oldest first.
    pub closed spec fn event_log(&self) -> Seq<Event> {
        self.events@
    }

    /// The fingerprints in one account's list of the ownership index.
    pub open spec fn owned_of(&self, a: AccountId) -> Seq<Fingerprint> {
        if self.owned_map().contains_key(a) {
            self.owned_map()[a]
        } else {
            Seq::empty()
        }
    }

    /// Whether a collectible with this fingerprint exists.
    pub open spec fn has_kitty(&self, fp: Fingerprint) -> bool {
        self.kitties_map().contains_key(fp)
    }

    /// The records and the ownership index agree: each record is stored under
    /// its own fingerprint, each account's list holds exactly the collectibles
    /// that it owns, each once, and no list is longer than the bound.
    pub open spec fn mirrored(&self) -> bool {
        &&& forall|fp: Fingerprint| #[trigger]
            self.kitties_map().contains_key(fp) ==> self.kitties_map()[fp].dna == fp
        &&& forall|fp: Fingerprint| #[trigger]
            self.kitties_map().contains_key(fp) ==> self.owned_of(
                self.kitties_map()[fp].owner,
            ).contains(fp)
        &&& forall|a: AccountId, fp: Fingerprint| #[trigger]
            self.owned_of(a).contains(fp) ==> self.kitties_map().contains_key(fp)
                && self.kitties_map()[fp].owner == a
        &&& forall|a: AccountId| #[trigger]
            self.owned_of(a).no_duplicates()
        &&& forall|a: AccountId| #[trigger] self.owned_of(a).len() <= MAX_OWNED
    }

    /// The vectors hold what the maps describe, each key once.
    pub closed spec fn inv(&self) -> bool {
        &&& forall|i: int|
            0 <= i < self.kitties@.len() ==> self.assets@.contains_key(
                #[trigger] self.kitties@[i].dna,
            ) && self.assets@[self.kitties@[i].dna] == self.kitties@[i]
        &&& forall|fp: Fingerprint| #[trigger]
            self.assets@.contains_key(fp) ==> exists|i: int|
                0 <= i < self.kitties@.len() && #[trigger] self.kitties@[i].dna == fp
        &&& forall|i: int, j: int|
            0 <= i < j < self.kitties@.len() ==> #[trigger] self.kitties@[i].dna
                != #[trigger] self.kitties@[j].dna
        &&& forall|i: int|
            0 <= i < self.owned@.len() ==> self.index@.contains_key(
                #[trigger] self.owned@[i].owner,
            ) && self.index@[self.owned@[i].owner] == self.owned@[i].kitties@
        &&& forall|a: AccountId| #[trigger]
            self.index@.contains_key(a) ==> exists|i: int|
                0 <= i < self.owned@.len() && #[trigger] self.owned@[i].owner == a
        &&& forall|i: int, j: int|
            0 <= i < j < self.owned@.len() ==> #[trigger] self.owned@[i].owner
                != #[trigger] self.owned@[j].owner
    }

    /// The state is well formed: its representation is consistent and the
    /// records and the index agree.
    pub open spec fn wf(&self) -> bool {
        self.inv() && self.mirrored()
    }

    /// The fingerprint that the next mint derives from the block's entropy and
    /// the mint counter.
    pub open spec fn next_dna(&self, system: System) -> Fingerprint {
        blake2_256_of(
            entropy_payload(
                system.parent_hash,
                system.block_number,
                match system.extrinsic_index {
                    Some(x) => x,
                    None => 0,
                },
                self.mint_count(),
            ),
        )
    }

    /// What minting `dna` for `owner` returns, first failed check first.
    pub open spec fn mint_outcome(&self, owner: AccountId, dna: Fingerprint) -> Result<(), Error> {
        if self.has_kitty(dna) {
            Err(Error::DuplicateKitty)
        } else if self.mint_count() == u32::MAX {
            Err(Error::TooManyKitties)
        } else if self.owned_of(owner).len() >= MAX_OWNED {
            Err(Error::TooManyOwned)
        } else {
            Ok(())
        }
    }

    /// What moving `kitty_id` from `from` to `to` returns, first failed check first.
    pub open spec fn transfer_outcome(
        &self,
        from: AccountId,
        to: AccountId,
        kitty_id: Fingerprint,
    ) -> Result<(), Error> {
        if from == to {
            Err(Error::TransferToSelf)
        } else if !self.has_kitty(kitty_id) {
            Err(Error::NoKitty)
        } else if self.kitties_map()[kitty_id].owner != from {
            Err(Error::NotOwner)
        } else if self.owned_of(to).len() >= MAX_OWNED {
            Err(Error::TooManyOwned)
        } else {
            Ok(())
        }
    }

    /// What setting the price of `kitty_id` on behalf of `caller` returns.
    pub open spec fn set_price_outcome(&self, caller: AccountId, kitty_id: Fingerprint) -> Result<
        (),
        Error,
    > {
        if !self.has_kitty(kitty_id) {
            Err(Error::NoKitty)
        } else if self.kitties_map()[kitty_id].owner != caller {
            Err(Error::NotOwner)
        } else {
            Ok(())
        }
    }

    /// Whether `buyer`, paying at most `max_price`, may buy `kitty_id`, and if so
    /// who is to be paid and how much, first failed check first.
    pub open spec fn sale_outcome(
        &self,
        buyer: AccountId,
        kitty_id: Fingerprint,
        max_price: Balance,
    ) -> Result<(AccountId, Balance), Error> {
        if !self.has_kitty(kitty_id) {
            Err(Error::NoKitty)
        } else if self.kitties_map()[kitty_id].price is None {
            Err(Error::NotForSale)
        } else if max_price < self.kitties_map()[kitty_id].price->0 {
            Err(Error::MaxPriceTooLow)
        } else if buyer == self.kitties_map()[kitty_id].owner {
            Err(Error::TransferToSelf)
        } else if self.owned_of(buyer).len() >= MAX_OWNED {
            Err(Error::TooManyOwned)
        } else {
            Ok((self.kitties_map()[kitty_id].owner, self.kitties_map()[kitty_id].price->0))
        }
    }

    /// Every collectible of `pre` still exists in `post`.
    pub open spec fn keeps_kitties(pre: &Pallet, post: &Pallet) -> bool {
        forall|fp: Fingerprint| #[trigger] pre.has_kitty(fp) ==> post.has_kitty(fp)
    }

    /// `post` is `pre` with `dna` minted for `owner`.
    pub open spec fn minted(pre: &Pallet, post: &Pallet, owner: AccountId, dna: Fingerprint) -> bool {
        &&& post.kitties_map() == pre.kitties_map().insert(
            dna,
            (Kitty { dna: dna, owner: owner, price: None }),
        )
        &&& post.owned_map() == pre.owned_map().insert(owner, pre.owned_of(owner).push(dna))
        &&& post.mint_count() == pre.mint_count() + 1
    }

    /// `post` is `pre` with `kitty_id` moved from `from` to `to` and taken off sale.
    pub open spec fn moved(
        pre: &Pallet,
        post: &Pallet,
        from: AccountId,
        to: AccountId,
        kitty_id: Fingerprint,
    ) -> bool {
        &&& post.kitties_map() == pre.kitties_map().insert(
            kitty_id,
            (Kitty { dna: kitty_id, owner: to, price: None }),
        )
        &&& post.owned_of(to) == pre.owned_of(to).push(kitty_id)
        &&& post.owned_of(from).len() + 1 == pre.owned_of(from).len()
        &&& forall|x: Fingerprint| #[trigger]
            post.owned_of(from).contains(x) <==> (pre.owned_of(from).contains(x) && x != kitty_id)
        &&& forall|a: AccountId| a != from && a != to ==> #[trigger] post.owned_of(a)
            == pre.owned_of(a)
        &&& post.mint_count() == pre.mint_count()
    }

    /// An empty registry.
    pub fn new() -> (r: Pallet)
        ensures
            r.wf(),
            r.kitties_map() == Map::<Fingerprint, Kitty>::empty(),
            r.owned_map() == Map::<AccountId, Seq<Fingerprint>>::empty(),
            r.mint_count() == 0,
            r.event_log() == Seq::<Event>::empty(),
    {
        Pallet {
            count: 0,
            kitties: Vec::new(),
            owned: Vec::new(),
            events: Vec::new(),
            assets: Ghost(Map::empty()),
            index: Ghost(Map::empty()),
        }
    }

    /// Derives the fingerprint of the next collectible: the Blake2b-256 digest
    /// of the encoded parent hash, block number, operation index (0 when there
    /// is none) and mint counter.
    pub fn gen_dna(&self, system: &System) -> (r: Fingerprint)
        ensures
            r == self.next_dna(*system),
    {
        let extrinsic_index: u32 = match system.extrinsic_index {
            Some(x) => x,
            None => 0,
        };
        let payload = encode_entropy(
            &system.parent_hash,
            system.block_number,
            extrinsic_index,
            self.count,
        );
        blake2_256(&payload)
    }

    /// Records a new collectible `dna` owned by `owner`, with no price.
    /// Fails, changing nothing, with `DuplicateKitty` if `dna` exists, with
    /// `TooManyKitties` if the counter is at its maximum, and with
    /// `TooManyOwned` if `owner`'s list is full.
    pub fn mint(&mut self, owner: AccountId, dna: Fingerprint) -> (r: Result<(), Error>)
        requires
            old(self).wf(),
        ensures
            final(self).wf(),
            r == old(self).mint_outcome(owner, dna),
            r is Err ==> *final(self) == *old(self),
            r is Ok ==> Pallet::minted(&*old(self), &*final(self), owner, dna),
            r is Ok ==> final(self).event_log() == old(self).event_log().push(
                (Event::Created { owner: owner }),
            ),
            Pallet::keeps_kitties(&*old(self), &*final(self)),
    {
        if self.find_kitty(&dna).is_some() {
            return Err(Error::DuplicateKitty);
        }
        if self.count == u32::MAX {
            return Err(Error::TooManyKitties);
        }
        if self.owned_len(&owner) >= MAX_OWNED {
            return Err(Error::TooManyOwned);
        }
        let ghost pre = *self;
        self.push_record(Kitty { dna, owner, price: None });
        self.push_owned(owner, dna);
        let ghost mid = *self;
        self.count = self.count + 1;
        self.events.push(Event::Created { owner });
        proof {
            assert(self.kitties == mid.kitties && self.owned == mid.owned);
            assert(self.assets == mid.assets && self.index == mid.index);
            lemma_mint_mirrored(pre, *self, owner, dna);
        }
        Ok(())
    }

    /// Creates a collectible for `who` under the fingerprint derived from the
    /// block's entropy and the mint counter, and returns that fingerprint.
    pub fn create_kitty(&mut self, system: &System, who: AccountId) -> (r: Result<
        Fingerprint,
        Error,
    >)
        requires
            old(self).wf(),
        ensures
            final(self).wf(),
            r == match old(self).mint_outcome(who, old(self).next_dna(*system)) {
                Ok(_) => Ok(old(self).next_dna(*system)),
                Err(e) => Err(e),
            },
            r is Err ==> *final(self) == *old(self),
            r is Ok ==> Pallet::minted(&*old(self), &*final(self), who, r->Ok_0),
            r is Ok ==> final(self).event_log() == old(self).event_log().push(
                (Event::Created { owner: who }),
            ),
            Pallet::keeps_kitties(&*old(self), &*final(self)),
    {
        let dna = self.gen_dna(system);
        match self.mint(who, dna) {
            Ok(()) => Ok(dna),
            Err(e) => Err(e),
        }
    }

    /// Moves `kitty_id` from `from` to `to` and takes it off sale. Fails,
    /// changing nothing, with `TransferToSelf` if the two accounts are one,
    /// `NoKitty` if it does not exist, `NotOwner` if `from` does not own it,
    /// and `TooManyOwned` if `to`'s list is full.
    pub fn do_transfer(&mut self, from: AccountId, to: AccountId, kitty_id: Fingerprint) -> (r:
        Result<(), Error>)
        requires
            old(self).wf(),
        ensures
            final(self).wf(),
            r == old(self).transfer_outcome(from, to, kitty_id),
            r is Err ==> *final(self) == *old(self),
            r is Ok ==> Pallet::moved(&*old(self), &*final(self), from, to, kitty_id),
            r is Ok ==> final(self).event_log() == old(self).event_log().push(
                (Event::Transferred { from: from, to: to, kitty_id: kitty_id }),
            ),
            Pallet::keeps_kitties(&*old(self), &*final(self)),
    {
        if same_id(&from, &to) {
            return Err(Error::TransferToSelf);
        }
        let ki = match self.find_kitty(&kitty_id) {
            Some(ki) => ki,
            None => {
                return Err(Error::NoKitty);
            },
        };
        if !same_id(&self.kitties[ki].owner, &from) {
            return Err(Error::NotOwner);
        }
        if self.owned_len(&to) >= MAX_OWNED {
            return Err(Error::TooManyOwned);
        }
        let ghost pre = *self;
        self.move_kitty(ki, from, to, kitty_id);
        let ghost mid = *self;
        self.push_event(Event::Transferred { from, to, kitty_id });
        proof {
            lemma_same_index(mid, *self);
        }
        Ok(())
    }

    /// Sets or clears the asking price of `kitty_id`. Fails, changing nothing,
    /// with `NoKitty` if it does not exist and `NotOwner` if `caller` does not
    /// own it.
    pub fn do_set_price(
        &mut self,
        caller: AccountId,
        kitty_id: Fingerprint,
        new_price: Option<Balance>,
    ) -> (r: Result<(), Error>)
        requires
            old(self).wf(),
        ensures
            final(self).wf(),
            r == old(self).set_price_outcome(caller, kitty_id),
            r is Err ==> *final(self) == *old(self),
            r is Ok ==> final(self).kitties_map() == old(self).kitties_map().insert(
                kitty_id,
                (Kitty { dna: kitty_id, owner: caller, price: new_price }),
            ),
            r is Ok ==> final(self).owned_map() == old(self).owned_map(),
            r is Ok ==> final(self).mint_count() == old(self).mint_count(),
            r is Ok ==> final(self).event_log() == old(self).event_log().push(
                (Event::PriceSet { owner: caller, kitty_id: kitty_id, price: new_price }),
            ),
            Pallet::keeps_kitties(&*old(self), &*final(self)),
    {
        let ki = match self.find_kitty(&kitty_id) {
            Some(ki) => ki,
            None => {
                return Err(Error::NoKitty);
            },
        };
        if !same_id(&self.kitties[ki].owner, &caller) {
            return Err(Error::NotOwner);
        }
        let ghost pre = *self;
        self.set_record(ki, Kitty { dna: kitty_id, owner: caller, price: new_price });
        proof {
            lemma_same_index(pre, *self);
            assert forall|fp: Fingerprint| #[trigger]
                self.kitties_map().contains_key(fp) implies self.owned_of(
                self.kitties_map()[fp].owner,
            ).contains(fp) by {
                assert(pre.kitties_map().contains_key(fp));
            }
            assert forall|a: AccountId, fp: Fingerprint| #[trigger]
                self.owned_of(a).contains(fp) implies self.kitties_map().contains_key(fp)
                && self.kitties_map()[fp].owner == a by {
                assert(pre.owned_of(a).contains(fp));
            }
        }
        self.push_event(Event::PriceSet { owner: caller, kitty_id, price: new_price });
        Ok(())
    }

    /// Checks whether `buyer`, paying at most `max_price`, may buy `kitty_id`,
    /// and returns the seller and the asking price: the payment that the sale
    /// needs. Fails with `NoKitty`, `NotForSale`, `MaxPriceTooLow`,
    /// `TransferToSelf` when the buyer owns it, or `TooManyOwned` when the
    /// buyer's list is full.
    pub fn sale_terms(&self, buyer: AccountId, kitty_id: Fingerprint, max_price: Balance) -> (r:
        Result<(AccountId, Balance), Error>)
        requires
            self.wf(),
        ensures
            r == self.sale_outcome(buyer, kitty_id, max_price),
    {
        let ki = match self.find_kitty(&kitty_id) {
            Some(ki) => ki,
            None => {
                return Err(Error::NoKitty);
            },
        };
        let kitty = self.kitties[ki];
        let sale_price = match kitty.price {
            Some(p) => p,
            None => {
                return Err(Error::NotForSale);
            },
        };
        if max_price < sale_price {
            return Err(Error::MaxPriceTooLow);
        }
        if same_id(&buyer, &kitty.owner) {
            return Err(Error::TransferToSelf);
        }
        if self.owned_len(&buyer) >= MAX_OWNED {
            return Err(Error::TooManyOwned);
        }
        Ok((kitty.owner, sale_price))
    }

    /// Completes a sale of `kitty_id` to `buyer` once the payment that
    /// `sale_terms` named has been attempted, `payment` being its outcome.
    /// Fails, changing nothing, with what `sale_terms` fails with, or with the
    /// payment's error. Otherwise the collectible moves to the buyer, off sale.
    pub fn do_buy_kitty(
        &mut self,
        buyer: AccountId,
        kitty_id: Fingerprint,
        max_price: Balance,
        payment: Result<(), PaymentError>,
    ) -> (r: Result<(), Error>)
        requires
            old(self).wf(),
        ensures
            final(self).wf(),
            r == match old(self).sale_outcome(buyer, kitty_id, max_price) {
                Err(e) => Err(e),
                Ok(_) => match payment {
                    Err(e) => Err(Error::Payment(e)),
                    Ok(()) => Ok(()),
                },
            },
            r is Err ==> *final(self) == *old(self),
            payment is Err ==> *final(self) == *old(self),
            r is Ok ==> Pallet::moved(
                &*old(self),
                &*final(self),
                old(self).sale_outcome(buyer, kitty_id, max_price)->Ok_0.0,
                buyer,
                kitty_id,
            ),
            r is Ok ==> final(self).event_log() == old(self).event_log().push(
                (Event::Transferred {
                    from: old(self).sale_outcome(buyer, kitty_id, max_price)->Ok_0.0,
                    to: buyer,
                    kitty_id: kitty_id,
                }),
            ).push(
                (Event::Sold {
                    buyer: buyer,
                    kitty_id: kitty_id,
                    price: old(self).sale_outcome(buyer, kitty_id, max_price)->Ok_0.1,
                }),
            ),
            Pallet::keeps_kitties(&*old(self), &*final(self)),
    {
        let (seller, sale_price) = match self.sale_terms(buyer, kitty_id, max_price) {
            Ok(terms) => terms,
            Err(e) => {
                return Err(e);
            },
        };
        match payment {
            Ok(()) => {},
            Err(e) => {
                return Err(Error::Payment(e));
            },
        }
        let ki = match self.find_kitty(&kitty_id) {
            Some(ki) => ki,
            None => {
                return Err(Error::NoKitty);
            },
        };
        self.move_kitty(ki, seller, buyer, kitty_id);
        let ghost mid = *self;
        self.push_event(Event::Transferred { from: seller, to: buyer, kitty_id });
        self.push_event(Event::Sold { buyer, kitty_id, price: sale_price });
        proof {
            lemma_same_index(mid, *self);
        }
        Ok(())
    }

    /// The signed call that moves `kitty_id` from the caller `who` to `to`:
    /// `do_transfer` on behalf of `who`.
    pub fn transfer(&mut self, who: AccountId, to: AccountId, kitty_id: Fingerprint) -> (r: Result<
        (),
        Error,
    >)
        requires
            old(self).wf(),
        ensures
            final(self).wf(),
            r == old(self).transfer_outcome(who, to, kitty_id),
            r is Err ==> *final(self) == *old(self),
            r is Ok ==> Pallet::moved(&*old(self), &*final(self), who, to, kitty_id),
            r is Ok ==> final(self).event_log() == old(self).event_log().push(
                (Event::Transferred { from: who, to: to, kitty_id: kitty_id }),
            ),
            Pallet::keeps_kitties(&*old(self), &*final(self)),
    {
        self.do_transfer(who, to, kitty_id)
    }

    /// The signed call that sets or clears the price of `kitty_id`:
    /// `do_set_price` on behalf of `who`.
    pub fn set_price(&mut self, who: AccountId, kitty_id: Fingerprint, new_price: Option<Balance>) -> (r:
        Result<(), Error>)
        requires
            old(self).wf(),
        ensures
            final(self).wf(),
            r == old(self).set_price_outcome(who, kitty_id),
            r is Err ==> *final(self) == *old(self),
            r is Ok ==> final(self).kitties_map() == old(self).kitties_map().insert(
                kitty_id,
                (Kitty { dna: kitty_id, owner: who, price: new_price }),
            ),
            r is Ok ==> final(self).owned_map() == old(self).owned_map(),
            r is Ok ==> final(self).mint_count() == old(self).mint_count(),
            r is Ok ==> final(self).event_log() == old(self).event_log().push(
                (Event::PriceSet { owner: who, kitty_id: kitty_id, price: new_price }),
            ),
            Pallet::keeps_kitties(&*old(self), &*final(self)),
    {
        self.do_set_price(who, kitty_id, new_price)
    }

    /// The signed call that buys `kitty_id` for the caller `who`:
    /// `do_buy_kitty` on behalf of `who`, given the outcome of the payment that
    /// `sale_terms` named.
    pub fn buy_kitty(
        &mut self,
        who: AccountId,
        kitty_id: Fingerprint,
        max_price: Balance,
        payment: Result<(), PaymentError>,
    ) -> (r: Result<(), Error>)
        requires
            old(self).wf(),
        ensures
            final(self).wf(),
            r == match old(self).sale_outcome(who, kitty_id, max_price) {
                Err(e) => Err(e),
                Ok(_) => match payment {
                    Err(e) => Err(Error::Payment(e)),
                    Ok(()) => Ok(()),
                },
            },
            r is Err ==> *final(self) == *old(self),
            r is Ok ==> Pallet::moved(
                &*old(self),
                &*final(self),
                old(self).sale_outcome(who, kitty_id, max_price)->Ok_0.0,
                who,
                kitty_id,
            ),
            r is Ok ==> final(self).event_log() == old(self).event_log().push(
                (Event::Transferred {
                    from: old(self).sale_outcome(who, kitty_id, max_price)->Ok_0.0,
                    to: who,
                    kitty_id: kitty_id,
                }),
            ).push(
                (Event::Sold {
                    buyer: who,
                    kitty_id: kitty_id,
                    price: old(self).sale_outcome(who, kitty_id, max_price)->Ok_0.1,
                }),
            ),
            Pallet::keeps_kitties(&*old(self), &*final(self)),
    {
        self.do_buy_kitty(who, kitty_id, max_price, payment)
    }

    /// The record of a collectible, if it exists.
    pub fn kitty(&self, kitty_id: &Fingerprint) -> (r: Option<Kitty>)
        requires
            self.wf(),
        ensures
            r == (if self.has_kitty(*kitty_id) {
                Some(self.kitties_map()[*kitty_id])
            } else {
                None
            }),
    {
        match self.find_kitty(kitty_id) {
            Some(i) => Some(self.kitties[i]),
            None => None,
        }
    }

    /// The fingerprints in an account's list of the ownership index.
    pub fn kitties_owned(&self, who: &AccountId) -> (r: Vec<Fingerprint>)
        requires
            self.wf(),
        ensures
            r@ == self.owned_of(*who),
    {
        let mut r: Vec<Fingerprint> = Vec::new();
        match self.find_holding(who) {
            Some(hi) => {
                let list = &self.owned[hi].kitties;
                let mut i: usize = 0;
                while i < list.len()
                    invariant
                        i <= list@.len(),
                        r@ == list@.subrange(0, i as int),
                    decreases list@.len() - i,
                {
                    r.push(list[i]);
                    proof {
                        assert(list@.subrange(0, i + 1) == list@.subrange(0, i as int).push(
                            list@[i as int],
                        ));
                    }
                    i = i + 1;
                }
                proof {
                    assert(list@.subrange(0, list@.len() as int) == list@);
                }
            },
            None => {},
        }
        r
    }

    /// How many collectibles have been minted.
    pub fn count_for_kitties(&self) -> (r: u32)
        ensures
            r == self.mint_count(),
    {
        self.count
    }

    /// The notifications emitted so far, oldest first.
    pub fn events(&self) -> (r: &Vec<Event>)
        ensures
            r@ == self.event_log(),
    {
        &self.events
    }

    /// Appends a notification.
    fn push_event(&mut self, e: Event)
        requires
            old(self).wf(),
        ensures
            final(self).wf(),
            final(self).event_log() == old(self).event_log().push(e),
            final(self).kitties_map() == old(self).kitties_map(),
            final(self).owned_map() == old(self).owned_map(),
            final(self).mint_count() == old(self).mint_count(),
    {
        let ghost pre = *self;
        self.events.push(e);
        proof {
            assert(self.kitties == pre.kitties && self.owned == pre.owned);
            assert(self.assets == pre.assets && self.index == pre.index);
            lemma_same_index(pre, *self);
        }
    }

    /// Gives the collectible at position `ki` to `to`, off sale, and moves its
    /// fingerprint from `from`'s list to `to`'s.
    fn move_kitty(&mut self, ki: usize, from: AccountId, to: AccountId, kitty_id: Fingerprint)
        requires
            old(self).wf(),
            ki < old(self).kitties@.len(),
            old(self).kitties@[ki as int].dna == kitty_id,
            old(self).has_kitty(kitty_id),
            old(self).kitties_map()[kitty_id].owner == from,
            from != to,
            old(self).owned_of(to).len() < MAX_OWNED,
        ensures
            final(self).wf(),
            Pallet::moved(&*old(self), &*final(self), from, to, kitty_id),
            final(self).event_log() == old(self).event_log(),
    {
        let ghost pre = *self;
        self.set_record(ki, Kitty { dna: kitty_id, owner: to, price: None });
        proof {
            assert(pre.owned_of(from).contains(kitty_id));
            assert(self.owned_of(from) == pre.owned_of(from));
        }
        self.remove_owned(from, kitty_id);
        let ghost mid = *self;
        self.push_owned(to, kitty_id);
        proof {
            assert forall|a: AccountId| a != from && a != to implies #[trigger] self.owned_of(a)
                == pre.owned_of(a) by {}
            assert(self.owned_of(from) == mid.owned_of(from));
            lemma_move_mirrored(pre, *self, from, to, kitty_id);
        }
    }

    /// The position of a collectible's record.
    fn find_kitty(&self, fp: &Fingerprint) -> (r: Option<usize>)
        requires
            self.inv(),
        ensures
            match r {
                Some(i) => i < self.kitties@.len() && self.kitties@[i as int].dna == *fp
                    && self.assets@.contains_key(*fp) && self.assets@[*fp] == self.kitties@[i as int],
                None => !self.assets@.contains_key(*fp),
            },
    {
        let mut i: usize = 0;
        while i < self.kitties.len()
            invariant
                self.inv(),
                i <= self.kitties@.len(),
                forall|j: int| 0 <= j < i ==> self.kitties@[j].dna != *fp,
            decreases self.kitties@.len() - i,
        {
            if same_id(&self.kitties[i].dna, fp) {
                return Some(i);
            }
            i = i + 1;
        }
        None
    }

    /// The position of an account's entry in the ownership index.
    fn find_holding(&self, a: &AccountId) -> (r: Option<usize>)
        requires
            self.inv(),
        ensures
            match r {
                Some(i) => i < self.owned@.len() && self.owned@[i as int].owner == *a
                    && self.index@.contains_key(*a) && self.index@[*a]
                    == self.owned@[i as int].kitties@,
                None => !self.index@.contains_key(*a),
            },
    {
        let mut i: usize = 0;
        while i < self.owned.len()
            invariant
                self.inv(),
                i <= self.owned@.len(),
                forall|j: int| 0 <= j < i ==> self.owned@[j].owner != *a,
            decreases self.owned@.len() - i,
        {
            if same_id(&self.owned[i].owner, a) {
                return Some(i);
            }
            i = i + 1;
        }
        None
    }

    /// How many collectibles an account's list holds.
    fn owned_len(&self, a: &AccountId) -> (r: usize)
        requires
            self.inv(),
        ensures
            r == self.owned_of(*a).len(),
    {
        match self.find_holding(a) {
            Some(i) => self.owned[i].kitties.len(),
            None => 0,
        }
    }

    /// Appends a fingerprint to an account's list.
    fn push_owned(&mut self, a: AccountId, fp: Fingerprint)
        requires
            old(self).inv(),
        ensures
            final(self).inv(),
            final(self).index@ == old(self).index@.insert(a, old(self).owned_of(a).push(fp)),
            final(self).assets == old(self).assets,
            final(self).kitties == old(self).kitties,
            final(self).count == old(self).count,
            final(self).events == old(self).events,
    {
        let ghost pre = *self;
        match self.find_holding(&a) {
            Some(i) => {
                self.owned[i].kitties.push(fp);
                self.index = Ghost(self.index@.insert(a, pre.owned_of(a).push(fp)));
                assert forall|j: int| 0 <= j < self.owned@.len() && j != i implies
                    self.owned@[j] == pre.owned@[j] by {}
                assert forall|k: AccountId| #[trigger]
                    self.index@.contains_key(k) implies exists|j: int|
                        0 <= j < self.owned@.len() && #[trigger] self.owned@[j].owner == k by {
                    if k != a {
                        let j = choose|j: int|
                            0 <= j < pre.owned@.len() && #[trigger] pre.owned@[j].owner == k;
                        assert(self.owned@[j].owner == k);
                    } else {
                        assert(self.owned@[i as int].owner == k);
                    }
                }
            },
            None => {
                self.owned.push(Holding { owner: a, kitties: vec![fp] });
                self.index = Ghost(self.index@.insert(a, pre.owned_of(a).push(fp)));
                assert(pre.owned_of(a) == Seq::<Fingerprint>::empty());
                assert(self.owned@.last().kitties@ =~= seq![fp]);
                assert forall|k: AccountId| #[trigger]
                    self.index@.contains_key(k) implies exists|j: int|
                        0 <= j < self.owned@.len() && #[trigger] self.owned@[j].owner == k by {
                    if k != a {
                        let j = choose|j: int|
                            0 <= j < pre.owned@.len() && #[trigger] pre.owned@[j].owner == k;
                        assert(self.owned@[j].owner == k);
                    } else {
                        assert(self.owned@[pre.owned@.len() as int].owner == k);
                    }
                }
            },
        }
        assert(self.inv());
    }

    /// Removes a fingerprint from an account's list; the last entry may take its place.
    fn remove_owned(&mut self, a: AccountId, fp: Fingerprint)
        requires
            old(self).inv(),
            old(self).owned_of(a).contains(fp),
            old(self).owned_of(a).no_duplicates(),
        ensures
            final(self).inv(),
            final(self).index@ == old(self).index@.insert(a, final(self).owned_of(a)),
            final(self).owned_of(a).len() + 1 == old(self).owned_of(a).len(),
            final(self).owned_of(a).no_duplicates(),
            forall|x: Fingerprint| #[trigger]
                final(self).owned_of(a).contains(x) <==> (old(self).owned_of(a).contains(x) && x
                    != fp),
            final(self).assets == old(self).assets,
            final(self).kitties == old(self).kitties,
            final(self).count == old(self).count,
            final(self).events == old(self).events,
    {
        let ghost pre = *self;
        let hi = match self.find_holding(&a) {
            Some(hi) => hi,
            None => {
                proof {
                    assert(pre.owned_of(a) == Seq::<Fingerprint>::empty());
                }
                return;
            },
        };
        let j = match position_of(&self.owned[hi].kitties, &fp) {
            Some(j) => j,
            None => {
                return;
            },
        };
        self.owned[hi].kitties.swap_remove(j);
        proof {
            lemma_swap_remove(pre.owned_of(a), j as int);
        }
        self.index = Ghost(self.index@.insert(a, self.owned@[hi as int].kitties@));
        proof {
            assert forall|i: int| 0 <= i < self.owned@.len() && i != hi implies self.owned@[i]
                == pre.owned@[i] by {}
            assert forall|k: AccountId| #[trigger]
                self.index@.contains_key(k) implies exists|i: int|
                    0 <= i < self.owned@.len() && #[trigger] self.owned@[i].owner == k by {
                if k != a {
                    let i = choose|i: int|
                        0 <= i < pre.owned@.len() && #[trigger] pre.owned@[i].owner == k;
                    assert(self.owned@[i].owner == k);
                } else {
                    assert(self.owned@[hi as int].owner == k);
                }
            }
            assert(self.inv());
            let t = pre.owned_of(a).update(j as int, pre.owned_of(a).last()).drop_last();
            assert(self.owned_of(a) == t);
            assert forall|x: Fingerprint| #[trigger]
                self.owned_of(a).contains(x) <==> (pre.owned_of(a).contains(x) && x != fp) by {
                assert(t.contains(x) <==> (pre.owned_of(a).contains(x) && x != pre.owned_of(
                    a,
                )[j as int]));
            }
        }
    }

    /// Replaces the record stored under a fingerprint.
    fn set_record(&mut self, i: usize, k: Kitty)
        requires
            old(self).inv(),
            i < old(self).kitties@.len(),
            old(self).kitties@[i as int].dna == k.dna,
        ensures
            final(self).inv(),
            final(self).assets@ == old(self).assets@.insert(k.dna, k),
            final(self).index == old(self).index,
            final(self).owned == old(self).owned,
            final(self).count == old(self).count,
            final(self).events == old(self).events,
    {
        let ghost pre = *self;
        self.kitties.set(i, k);
        self.assets = Ghost(self.assets@.insert(k.dna, k));
        proof {
            assert forall|j: int| 0 <= j < self.kitties@.len() && j != i implies self.kitties@[j]
                == pre.kitties@[j] && self.kitties@[j].dna != k.dna by {
                if j < i {
                    assert(pre.kitties@[j].dna != pre.kitties@[i as int].dna);
                } else {
                    assert(pre.kitties@[i as int].dna != pre.kitties@[j].dna);
                }
            }
            assert forall|fp: Fingerprint| #[trigger]
                self.assets@.contains_key(fp) implies exists|j: int|
                    0 <= j < self.kitties@.len() && #[trigger] self.kitties@[j].dna == fp by {
                if fp != k.dna {
                    let j = choose|j: int|
                        0 <= j < pre.kitties@.len() && #[trigger] pre.kitties@[j].dna == fp;
                    assert(self.kitties@[j].dna == fp);
                } else {
                    assert(self.kitties@[i as int].dna == fp);
                }
            }
            assert(self.owned == pre.owned);
            assert(self.index == pre.index);
            assert(self.inv());
        }
    }

    /// Stores the record of a new fingerprint.
    fn push_record(&mut self, k: Kitty)
        requires
            old(self).inv(),
            !old(self).assets@.contains_key(k.dna),
        ensures
            final(self).inv(),
            final(self).assets@ == old(self).assets@.insert(k.dna, k),
            final(self).index == old(self).index,
            final(self).owned == old(self).owned,
            final(self).count == old(self).count,
            final(self).events == old(self).events,
    {
        let ghost pre = *self;
        self.kitties.push(k);
        self.assets = Ghost(self.assets@.insert(k.dna, k));
        proof {
            let n = pre.kitties@.len() as int;
            assert forall|j: int| 0 <= j < n implies self.kitties@[j] == pre.kitties@[j]
                && pre.kitties@[j].dna != k.dna by {
                assert(pre.assets@.contains_key(pre.kitties@[j].dna));
            }
            assert forall|fp: Fingerprint| #[trigger]
                self.assets@.contains_key(fp) implies exists|j: int|
                    0 <= j < self.kitties@.len() && #[trigger] self.kitties@[j].dna == fp by {
                if fp != k.dna {
                    let j = choose|j: int|
                        0 <= j < pre.kitties@.len() && #[trigger] pre.kitties@[j].dna == fp;
                    assert(self.kitties@[j].dna == fp);
                } else {
                    assert(self.kitties@[n].dna == fp);
                }
            }
            assert(self.owned == pre.owned);
            assert(self.index == pre.index);
            assert(self.inv());
        }
    }
}

/// Two states with one ownership index give each account one list.
proof fn lemma_same_index(p: Pallet, q: Pallet)
    requires
        p.owned_map() == q.owned_map(),
    ensures
        forall|a: AccountId|
            #![trigger p.owned_of(a)]
            #![trigger q.owned_of(a)]
            p.owned_of(a) == q.owned_of(a),
{
}

/// Minting a fresh fingerprint into a list with room keeps the records and the
/// index in agreement.
proof fn lemma_mint_mirrored(pre: Pallet, post: Pallet, owner: AccountId, dna: Fingerprint)
    requires
        pre.wf(),
        post.inv(),
        !pre.has_kitty(dna),
        pre.owned_of(owner).len() < MAX_OWNED,
        post.kitties_map() == pre.kitties_map().insert(
            dna,
            (Kitty { dna: dna, owner: owner, price: None }),
        ),
        post.owned_map() == pre.owned_map().insert(owner, pre.owned_of(owner).push(dna)),
    ensures
        post.wf(),
{
    assert(!pre.owned_of(owner).contains(dna));
    assert forall|a: AccountId| a != owner implies #[trigger] post.owned_of(a) == pre.owned_of(a)
        by {}
    assert(post.owned_of(owner) == pre.owned_of(owner).push(dna));
    assert forall|a: AccountId, fp: Fingerprint| #[trigger]
        post.owned_of(a).contains(fp) implies post.kitties_map().contains_key(fp)
        && post.kitties_map()[fp].owner == a by {
        if a == owner {
            let s = pre.owned_of(owner);
            let i = choose|i: int| 0 <= i < s.push(dna).len() && s.push(dna)[i] == fp;
            if i < s.len() {
                assert(s.contains(fp));
            }
        } else {
            assert(pre.owned_of(a).contains(fp));
        }
    }
    assert forall|fp: Fingerprint| #[trigger]
        post.kitties_map().contains_key(fp) implies post.owned_of(
        post.kitties_map()[fp].owner,
    ).contains(fp) by {
        if fp == dna {
            assert(post.owned_of(owner)[pre.owned_of(owner).len() as int] == dna);
        } else {
            let o = pre.kitties_map()[fp].owner;
            assert(pre.owned_of(o).contains(fp));
            if o == owner {
                let i = choose|i: int| 0 <= i < pre.owned_of(o).len() && pre.owned_of(o)[i] == fp;
                assert(post.owned_of(o)[i] == fp);
            }
        }
    }
    assert forall|a: AccountId| #[trigger] post.owned_of(a).no_duplicates() by {
        if a == owner {
            let s = pre.owned_of(owner).push(dna);
            assert forall|i: int, j: int| 0 <= i < s.len() && 0 <= j < s.len() && i != j implies s[i]
                != s[j] by {
                if i < s.len() - 1 && j < s.len() - 1 {
                    assert(pre.owned_of(owner).no_duplicates());
                } else if i == s.len() - 1 {
                    assert(pre.owned_of(owner)[j] != dna);
                } else {
                    assert(pre.owned_of(owner)[i] != dna);
                }
            }
        }
    }
    assert forall|a: AccountId| #[trigger] post.owned_of(a).len() <= MAX_OWNED by {}
}

/// Moving a collectible to another account with room keeps the records and
/// the index in agreement.
proof fn lemma_move_mirrored(
    pre: Pallet,
    post: Pallet,
    from: AccountId,
    to: AccountId,
    kitty_id: Fingerprint,
)
    requires
        pre.wf(),
        post.inv(),
        pre.has_kitty(kitty_id),
        pre.kitties_map()[kitty_id].owner == from,
        from != to,
        pre.owned_of(to).len() < MAX_OWNED,
        Pallet::moved(&pre, &post, from, to, kitty_id),
        post.owned_of(from).no_duplicates(),
    ensures
        post.wf(),
{
    assert(!pre.owned_of(to).contains(kitty_id));
    assert forall|a: AccountId, fp: Fingerprint| #[trigger]
        post.owned_of(a).contains(fp) implies post.kitties_map().contains_key(fp)
        && post.kitties_map()[fp].owner == a by {
        if a == to {
            let s = pre.owned_of(to);
            let i = choose|i: int| 0 <= i < s.push(kitty_id).len() && s.push(kitty_id)[i] == fp;
            if i < s.len() {
                assert(s.contains(fp));
            }
        } else if a == from {
            assert(pre.owned_of(from).contains(fp));
        } else {
            assert(pre.owned_of(a).contains(fp));
            assert(fp != kitty_id);
        }
    }
    assert forall|fp: Fingerprint| #[trigger]
        post.kitties_map().contains_key(fp) implies post.owned_of(
        post.kitties_map()[fp].owner,
    ).contains(fp) by {
        if fp == kitty_id {
            assert(post.owned_of(to)[pre.owned_of(to).len() as int] == kitty_id);
        } else {
            let o = pre.kitties_map()[fp].owner;
            assert(pre.owned_of(o).contains(fp));
            if o == to {
                let i = choose|i: int| 0 <= i < pre.owned_of(o).len() && pre.owned_of(o)[i] == fp;
                assert(post.owned_of(o)[i] == fp);
            }
        }
    }
    assert forall|a: AccountId| #[trigger] post.owned_of(a).no_duplicates() by {
        if a == to {
            let s = pre.owned_of(to).push(kitty_id);
            assert forall|i: int, j: int| 0 <= i < s.len() && 0 <= j < s.len() && i != j implies s[i]
                != s[j] by {
                if i < s.len() - 1 && j < s.len() - 1 {
                    assert(pre.owned_of(to).no_duplicates());
                } else if i == s.len() - 1 {
                    assert(pre.owned_of(to)[j] != kitty_id);
                } else {
                    assert(pre.owned_of(to)[i] != kitty_id);
                }
            }
        }
    }
    assert forall|a: AccountId| #[trigger] post.owned_of(a).len() <= MAX_OWNED by {}
}

/// The first position of a fingerprint in a list.
fn position_of(v: &Vec<Fingerprint>, fp: &Fingerprint) -> (r: Option<usize>)
    ensures
        match r {
            Some(j) => j < v@.len() && v@[j as int] == *fp,
            None => !v@.contains(*fp),
        },
{
    let mut j: usize = 0;
    while j < v.len()
        invariant
            j <= v@.len(),
            forall|k: int| 0 <= k < j ==> v@[k] != *fp,
        decreases v@.len() - j,
    {
        if same_id(&v[j], fp) {
            return Some(j);
        }
        j = j + 1;
    }
    None
}

/// Swap-removing one entry of a list without duplicates leaves the other
/// entries, each once.
proof fn lemma_swap_remove<A>(s: Seq<A>, j: int)
    requires
        0 <= j < s.len(),
        s.no_duplicates(),
    ensures
        s.update(j, s.last()).drop_last().len() + 1 == s.len(),
        s.update(j, s.last()).drop_last().no_duplicates(),
        forall|x: A| #[trigger]
            s.update(j, s.last()).drop_last().contains(x) <==> (s.contains(x) && x != s[j]),
{
    let t = s.update(j, s.last()).drop_last();
    let n = s.len() - 1;
    assert forall|p: int, q: int| 0 <= p < t.len() && 0 <= q < t.len() && p != q implies t[p]
        != t[q] by {
        let sp = if p == j { n } else { p };
        let sq = if q == j { n } else { q };
        assert(t[p] == s[sp] && t[q] == s[sq]);
    }
    assert forall|x: A| #[trigger] t.contains(x) <==> (s.contains(x) && x != s[j]) by {
        if t.contains(x) {
            let p = choose|p: int| 0 <= p < t.len() && t[p] == x;
            let sp = if p == j { n } else { p };
            assert(s[sp] == x);
        }
        if s.contains(x) && x != s[j] {
            let p = choose|p: int| 0 <= p < s.len() && s[p] == x;
            let tp = if p == n { j } else { p };
            assert(t[tp] == x);
        }
    }
}

} // verus!
