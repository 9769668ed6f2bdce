//! A registry of collectible assets: minting with derived fingerprints, a
//! per-account ownership index kept in step with the asset records, transfer,
//! pricing and sale.

mod entropy;
mod laws;
mod pallet;
mod runtime;
mod types;

pub use entropy::{blake2_256_of, entropy_payload, le_bytes_u32};
pub use laws::{
    lemma_capacity, lemma_fingerprints_unique, lemma_keeps_kitties_trans, lemma_mirror,
    lemma_self_transfer,
};
pub use pallet::Pallet;
pub use runtime::Runtime;
pub use types::{
    AccountId, Balance, Error, Event, Fingerprint, Kitty, PaymentError, System,
    MAX_OWNED,
};
