use vstd::prelude::*;

verus! {

/// The 32-byte identifier of a collectible.
pub type Fingerprint = [u8; 32];

/// An account, identified by its 32-byte public key.
pub type AccountId = [u8; 32];

/// An amount of currency.
pub type Balance = u128;

/// The most collectibles one account may own.
pub const MAX_OWNED: usize = 100;

/// One collectible: its fingerprint, its owner, and its asking price when it is for sale.
#[derive(Clone, Copy, Debug, PartialEq, Eq)]
pub struct Kitty {
    pub dna: Fingerprint,
    pub owner: AccountId,
    pub price: Option<Balance>,
}

/// Why a payment between two accounts was refused.
#[derive(Clone, Copy, Debug, PartialEq, Eq, Structural)]
pub enum PaymentError {
    /// The payer does not hold the amount.
    InsufficientFunds,
    /// The payment would take the payer below the minimum balance that keeps an account alive.
    WouldReapAccount,
}

/// Why an operation on the registry failed. A failed operation changes nothing.
#[derive(Clone, Copy, Debug, PartialEq, Eq, Structural)]
pub enum Error {
    /// The mint counter cannot be incremented any further.
    TooManyKitties,
    /// The receiving account already owns the most collectibles it may.
    TooManyOwned,
    /// A collectible with this fingerprint already exists.
    DuplicateKitty,
    /// No collectible has this fingerprint.
    NoKitty,
    /// The caller does not own the collectible.
    NotOwner,
    /// Sender and receiver are the same account.
    TransferToSelf,
    /// The collectible has no asking price.
    NotForSale,
    /// The buyer's limit is below the asking price.
    MaxPriceTooLow,
    /// The payment for a sale was refused.
    Payment(PaymentError),
}

/// A notification that an operation succeeded.
#[allow(inconsistent_fields)]
#[derive(Clone, Copy, Debug, PartialEq, Eq)]
pub enum Event {
    Created { owner: AccountId },
    Transferred { from: AccountId, to: AccountId, kitty_id: Fingerprint },
    PriceSet { owner: AccountId, kitty_id: Fingerprint, price: Option<Balance> },
    Sold { buyer: AccountId, kitty_id: Fingerprint, price: Balance },
}

/// What the host chain tells the registry about the block being built: the
/// entropy from which fingerprints are derived.
#[derive(Clone, Copy, Debug, PartialEq, Eq)]
pub struct System {
    pub parent_hash: [u8; 32],
    pub block_number: u32,
    pub extrinsic_index: Option<u32>,
}

/// Whether two 32-byte identifiers are equal.
pub fn same_id(a: &[u8; 32], b: &[u8; 32]) -> (r: bool)
    ensures
        r == (*a == *b),
{
    let mut i: usize = 0;
    while i < 32
        invariant
            i <= 32,
            forall|j: int| 0 <= j < i ==> a@[j] == b@[j],
        decreases 32 - i,
    {
        if a[i] != b[i] {
            return false;
        }
        i = i + 1;
    }
    proof {
        assert(*a =~= *b);
    }
    true
}

} // verus!
