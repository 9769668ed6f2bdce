use vstd::prelude::*;

use crate::pallet::Pallet;
use crate::types::{AccountId, Error, Fingerprint, MAX_OWNED};

verus! {

/// Keeping every collectible is transitive, so it holds across any sequence of
/// operations, each of which keeps them.
pub proof fn lemma_keeps_kitties_trans(a: Pallet, b: Pallet, c: Pallet)
    requires
        Pallet::keeps_kitties(&a, &b),
        Pallet::keeps_kitties(&b, &c),
    ensures
        Pallet::keeps_kitties(&a, &c),
{
}

/// No two successful mints give the same fingerprint: once `first` is minted it
/// exists in every later state, and a mint succeeds only on a fingerprint that
/// does not exist yet.
pub proof fn lemma_fingerprints_unique(
    before: Pallet,
    after: Pallet,
    later: Pallet,
    first_owner: AccountId,
    second_owner: AccountId,
    first: Fingerprint,
    second: Fingerprint,
)
    requires
        before.mint_outcome(first_owner, first) == Ok::<(), Error>(()),
        Pallet::minted(&before, &after, first_owner, first),
        Pallet::keeps_kitties(&after, &later),
        later.mint_outcome(second_owner, second) == Ok::<(), Error>(()),
    ensures
        first != second,
{
    assert(after.has_kitty(first));
    assert(later.has_kitty(first));
}

/// In a well-formed state every collectible's fingerprint stands exactly once
/// in its owner's list and in no other account's list, and every fingerprint
/// in a list belongs to a collectible of that account.
pub proof fn lemma_mirror(p: Pallet, fp: Fingerprint)
    requires
        p.wf(),
    ensures
        p.has_kitty(fp) ==> p.owned_of(p.kitties_map()[fp].owner).contains(fp),
        p.has_kitty(fp) ==> forall|i: int, j: int|
            0 <= i < p.owned_of(p.kitties_map()[fp].owner).len() && 0 <= j < p.owned_of(
                p.kitties_map()[fp].owner,
            ).len() && p.owned_of(p.kitties_map()[fp].owner)[i] == fp && p.owned_of(
                p.kitties_map()[fp].owner,
            )[j] == fp ==> i == j,
        forall|a: AccountId| #[trigger]
            p.owned_of(a).contains(fp) ==> p.has_kitty(fp) && p.kitties_map()[fp].owner == a,
{
    if p.has_kitty(fp) {
        assert(p.owned_of(p.kitties_map()[fp].owner).no_duplicates());
    }
}

/// No account's list is longer than the bound, and once it is full a mint or
/// a transfer to that account that passes every earlier check fails with
/// `TooManyOwned`.
pub proof fn lemma_capacity(
    p: Pallet,
    a: AccountId,
    dna: Fingerprint,
    from: AccountId,
    kitty_id: Fingerprint,
)
    requires
        p.wf(),
    ensures
        p.owned_of(a).len() <= MAX_OWNED,
        p.owned_of(a).len() == MAX_OWNED && !p.has_kitty(dna) && p.mint_count() < u32::MAX
            ==> p.mint_outcome(a, dna) == Err::<(), Error>(Error::TooManyOwned),
        p.owned_of(a).len() == MAX_OWNED && from != a && p.has_kitty(kitty_id)
            && p.kitties_map()[kitty_id].owner == from ==> p.transfer_outcome(from, a, kitty_id)
            == Err::<(), Error>(Error::TooManyOwned),
{
}

/// A transfer from an account to itself fails with `TransferToSelf`, whoever
/// owns the collectible and whether or not it exists.
pub proof fn lemma_self_transfer(p: Pallet, a: AccountId, kitty_id: Fingerprint)
    ensures
        p.transfer_outcome(a, a, kitty_id) == Err::<(), Error>(Error::TransferToSelf),
{
}

} // verus!
