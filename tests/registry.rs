use std::collections::HashMap;

use collectables::{
    AccountId, Balance, Error, Event, Fingerprint, Kitty, Pallet, PaymentError, Runtime, System,
    MAX_OWNED,
};

const ALICE: AccountId = [1u8; 32];
const BOB: AccountId = [2u8; 32];
const CHARLIE: AccountId = [3u8; 32];

const MINIMUM_BALANCE: Balance = 1;

fn block() -> System {
    System { parent_hash: [7u8; 32], block_number: 42, extrinsic_index: Some(1) }
}

/// A stand-in for the currency: free balances, and a transfer that keeps the
/// payer at or above the minimum balance.
struct Ledger {
    free: HashMap<AccountId, Balance>,
}

impl Ledger {
    fn new(accounts: &[(AccountId, Balance)]) -> Ledger {
        Ledger { free: accounts.iter().cloned().collect() }
    }

    fn balance(&self, who: &AccountId) -> Balance {
        *self.free.get(who).unwrap_or(&0)
    }

    fn pay(&mut self, from: &AccountId, to: &AccountId, amount: Balance) -> Result<(), PaymentError> {
        let have = self.balance(from);
        if have < amount {
            return Err(PaymentError::InsufficientFunds);
        }
        if have - amount < MINIMUM_BALANCE {
            return Err(PaymentError::WouldReapAccount);
        }
        self.free.insert(*from, have - amount);
        let got = self.balance(to);
        self.free.insert(*to, got + amount);
        Ok(())
    }
}

/// Runs a purchase the way a host does: ask for the terms, pay, then settle.
fn buy(
    pallet: &mut Pallet,
    ledger: &mut Ledger,
    buyer: AccountId,
    kitty_id: Fingerprint,
    max_price: Balance,
) -> Result<(), Error> {
    let (seller, price) = pallet.sale_terms(buyer, kitty_id, max_price)?;
    let paid = ledger.pay(&buyer, &seller, price);
    pallet.buy_kitty(buyer, kitty_id, max_price, paid)
}

fn create(pallet: &mut Pallet, who: AccountId) -> Fingerprint {
    pallet.create_kitty(&block(), who).expect("creation succeeds")
}

fn expected_dna(system: &System, count: u32) -> Fingerprint {
    let mut payload: Vec<u8> = system.parent_hash.to_vec();
    payload.extend_from_slice(&system.block_number.to_le_bytes());
    payload.extend_from_slice(&system.extrinsic_index.unwrap_or(0).to_le_bytes());
    payload.extend_from_slice(&count.to_le_bytes());
    <sp_core::Blake2Hasher as sp_core::Hasher>::hash(&payload).0
}

#[test]
fn gen_dna_hashes_the_encoded_entropy() {
    let pallet = Pallet::new();
    let system = block();
    let dna = pallet.gen_dna(&system);
    assert_eq!(dna, expected_dna(&system, 0));
    assert_ne!(dna, system.parent_hash);
}

#[test]
fn gen_dna_uses_zero_without_an_operation_index() {
    let pallet = Pallet::new();
    let without = System { extrinsic_index: None, ..block() };
    let with_zero = System { extrinsic_index: Some(0), ..block() };
    assert_eq!(pallet.gen_dna(&without), pallet.gen_dna(&with_zero));
    assert_ne!(pallet.gen_dna(&without), pallet.gen_dna(&block()));
}

#[test]
fn create_records_the_kitty_and_the_owner() {
    let mut pallet = Pallet::new();
    let fp = create(&mut pallet, ALICE);
    assert_eq!(fp, expected_dna(&block(), 0));
    assert_eq!(pallet.kitty(&fp), Some(Kitty { dna: fp, owner: ALICE, price: None }));
    assert_eq!(pallet.kitties_owned(&ALICE), vec![fp]);
    assert_eq!(pallet.count_for_kitties(), 1);
    assert_eq!(pallet.events().clone(), vec![Event::Created { owner: ALICE }]);
}

#[test]
fn creates_in_one_block_give_distinct_fingerprints() {
    let mut pallet = Pallet::new();
    let mut seen: Vec<Fingerprint> = Vec::new();
    for i in 0..20 {
        let who = if i % 2 == 0 { ALICE } else { BOB };
        let fp = create(&mut pallet, who);
        assert!(!seen.contains(&fp));
        seen.push(fp);
    }
    assert_eq!(pallet.count_for_kitties(), 20);
}

#[test]
fn mint_rejects_a_duplicate_fingerprint() {
    let mut pallet = Pallet::new();
    let dna = [9u8; 32];
    assert_eq!(pallet.mint(ALICE, dna), Ok(()));
    assert_eq!(pallet.mint(BOB, dna), Err(Error::DuplicateKitty));
    assert_eq!(pallet.kitty(&dna).unwrap().owner, ALICE);
    assert!(pallet.kitties_owned(&BOB).is_empty());
    assert_eq!(pallet.count_for_kitties(), 1);
}

#[test]
fn the_hundred_and_first_create_fails() {
    let mut pallet = Pallet::new();
    for _ in 0..MAX_OWNED {
        create(&mut pallet, ALICE);
    }
    assert_eq!(pallet.kitties_owned(&ALICE).len(), 100);
    assert_eq!(pallet.create_kitty(&block(), ALICE), Err(Error::TooManyOwned));
    assert_eq!(pallet.kitties_owned(&ALICE).len(), 100);
    assert_eq!(pallet.count_for_kitties(), 100);
    assert!(pallet.create_kitty(&block(), BOB).is_ok());
}

#[test]
fn transfer_into_a_full_account_fails_and_keeps_the_sender() {
    let mut pallet = Pallet::new();
    for _ in 0..MAX_OWNED {
        create(&mut pallet, BOB);
    }
    let fp = create(&mut pallet, ALICE);
    assert_eq!(pallet.transfer(ALICE, BOB, fp), Err(Error::TooManyOwned));
    assert_eq!(pallet.kitty(&fp).unwrap().owner, ALICE);
    assert_eq!(pallet.kitties_owned(&ALICE), vec![fp]);
    assert_eq!(pallet.kitties_owned(&BOB).len(), 100);
}

#[test]
fn transfer_moves_the_kitty_and_resets_its_price() {
    let mut pallet = Pallet::new();
    let fp = create(&mut pallet, ALICE);
    assert_eq!(pallet.set_price(ALICE, fp, Some(10)), Ok(()));
    assert_eq!(pallet.kitty(&fp).unwrap().price, Some(10));
    assert_eq!(pallet.transfer(ALICE, BOB, fp), Ok(()));
    assert_eq!(pallet.kitty(&fp), Some(Kitty { dna: fp, owner: BOB, price: None }));
    assert!(pallet.kitties_owned(&ALICE).is_empty());
    assert_eq!(pallet.kitties_owned(&BOB), vec![fp]);
    assert_eq!(
        pallet.events().last().cloned(),
        Some(Event::Transferred { from: ALICE, to: BOB, kitty_id: fp })
    );
}

#[test]
fn transfer_to_self_is_rejected() {
    let mut pallet = Pallet::new();
    let fp = create(&mut pallet, ALICE);
    assert_eq!(pallet.transfer(ALICE, ALICE, fp), Err(Error::TransferToSelf));
    assert_eq!(pallet.transfer(BOB, BOB, fp), Err(Error::TransferToSelf));
    assert_eq!(pallet.transfer(BOB, BOB, [0u8; 32]), Err(Error::TransferToSelf));
    assert_eq!(pallet.kitty(&fp).unwrap().owner, ALICE);
}

#[test]
fn transfer_errors() {
    let mut pallet = Pallet::new();
    let fp = create(&mut pallet, ALICE);
    assert_eq!(pallet.transfer(ALICE, BOB, [0u8; 32]), Err(Error::NoKitty));
    assert_eq!(pallet.transfer(BOB, CHARLIE, fp), Err(Error::NotOwner));
    assert_eq!(pallet.events().len(), 1);
}

#[test]
fn transfer_out_keeps_the_other_kitties() {
    let mut pallet = Pallet::new();
    let a = create(&mut pallet, ALICE);
    let b = create(&mut pallet, ALICE);
    let c = create(&mut pallet, ALICE);
    assert_eq!(pallet.transfer(ALICE, BOB, a), Ok(()));
    let mut left = pallet.kitties_owned(&ALICE);
    left.sort();
    let mut want = vec![b, c];
    want.sort();
    assert_eq!(left, want);
    assert_eq!(pallet.kitties_owned(&BOB), vec![a]);
}

#[test]
fn set_price_errors_and_delisting() {
    let mut pallet = Pallet::new();
    let fp = create(&mut pallet, ALICE);
    assert_eq!(pallet.set_price(ALICE, [0u8; 32], Some(5)), Err(Error::NoKitty));
    assert_eq!(pallet.set_price(BOB, fp, Some(5)), Err(Error::NotOwner));
    assert_eq!(pallet.set_price(ALICE, fp, Some(5)), Ok(()));
    assert_eq!(
        pallet.events().last().cloned(),
        Some(Event::PriceSet { owner: ALICE, kitty_id: fp, price: Some(5) })
    );
    assert_eq!(pallet.set_price(ALICE, fp, None), Ok(()));
    assert_eq!(pallet.kitty(&fp).unwrap().price, None);
    assert_eq!(pallet.sale_terms(BOB, fp, 100), Err(Error::NotForSale));
}

#[test]
fn sale_scenario() {
    let mut pallet = Pallet::new();
    let mut ledger = Ledger::new(&[(ALICE, 10), (BOB, 1000), (CHARLIE, 1000)]);
    let fp = create(&mut pallet, ALICE);
    assert_eq!(pallet.set_price(ALICE, fp, Some(100)), Ok(()));
    assert_eq!(pallet.sale_terms(BOB, fp, 150), Ok((ALICE, 100)));
    assert_eq!(buy(&mut pallet, &mut ledger, BOB, fp, 150), Ok(()));
    assert_eq!(ledger.balance(&BOB), 900);
    assert_eq!(ledger.balance(&ALICE), 110);
    assert_eq!(pallet.kitty(&fp), Some(Kitty { dna: fp, owner: BOB, price: None }));
    assert!(pallet.kitties_owned(&ALICE).is_empty());
    assert_eq!(pallet.kitties_owned(&BOB), vec![fp]);
    let events = pallet.events().clone();
    assert_eq!(
        events[events.len() - 2..].to_vec(),
        vec![
            Event::Transferred { from: ALICE, to: BOB, kitty_id: fp },
            Event::Sold { buyer: BOB, kitty_id: fp, price: 100 },
        ]
    );
    assert_eq!(buy(&mut pallet, &mut ledger, CHARLIE, fp, 200), Err(Error::NotForSale));
    assert_eq!(ledger.balance(&CHARLIE), 1000);
}

#[test]
fn under_bid_is_rejected_and_changes_nothing() {
    let mut pallet = Pallet::new();
    let mut ledger = Ledger::new(&[(BOB, 1000)]);
    let fp = create(&mut pallet, ALICE);
    assert_eq!(pallet.set_price(ALICE, fp, Some(100)), Ok(()));
    let events_before = pallet.events().len();
    assert_eq!(buy(&mut pallet, &mut ledger, BOB, fp, 50), Err(Error::MaxPriceTooLow));
    assert_eq!(pallet.kitty(&fp), Some(Kitty { dna: fp, owner: ALICE, price: Some(100) }));
    assert_eq!(pallet.kitties_owned(&ALICE), vec![fp]);
    assert!(pallet.kitties_owned(&BOB).is_empty());
    assert_eq!(pallet.events().len(), events_before);
    assert_eq!(ledger.balance(&BOB), 1000);
}

#[test]
fn failed_payment_changes_nothing() {
    let mut pallet = Pallet::new();
    let mut ledger = Ledger::new(&[(BOB, 100)]);
    let fp = create(&mut pallet, ALICE);
    assert_eq!(pallet.set_price(ALICE, fp, Some(100)), Ok(()));
    let events_before = pallet.events().len();
    assert_eq!(
        buy(&mut pallet, &mut ledger, BOB, fp, 100),
        Err(Error::Payment(PaymentError::WouldReapAccount))
    );
    assert_eq!(
        pallet.buy_kitty(BOB, fp, 100, Err(PaymentError::InsufficientFunds)),
        Err(Error::Payment(PaymentError::InsufficientFunds))
    );
    assert_eq!(pallet.kitty(&fp), Some(Kitty { dna: fp, owner: ALICE, price: Some(100) }));
    assert_eq!(pallet.kitties_owned(&ALICE), vec![fp]);
    assert!(pallet.kitties_owned(&BOB).is_empty());
    assert_eq!(pallet.events().len(), events_before);
    assert_eq!(ledger.balance(&BOB), 100);
}

#[test]
fn buy_errors() {
    let mut pallet = Pallet::new();
    let fp = create(&mut pallet, ALICE);
    assert_eq!(pallet.sale_terms(BOB, [0u8; 32], 10), Err(Error::NoKitty));
    assert_eq!(pallet.sale_terms(BOB, fp, 10), Err(Error::NotForSale));
    assert_eq!(pallet.set_price(ALICE, fp, Some(10)), Ok(()));
    assert_eq!(pallet.sale_terms(ALICE, fp, 10), Err(Error::TransferToSelf));
    assert_eq!(pallet.do_buy_kitty(ALICE, fp, 10, Ok(())), Err(Error::TransferToSelf));
    assert_eq!(pallet.sale_terms(BOB, fp, 10), Ok((ALICE, 10)));
}

#[test]
fn buyer_with_a_full_list_is_refused_before_paying() {
    let mut pallet = Pallet::new();
    let mut ledger = Ledger::new(&[(BOB, 1000)]);
    for _ in 0..MAX_OWNED {
        create(&mut pallet, BOB);
    }
    let fp = create(&mut pallet, ALICE);
    assert_eq!(pallet.set_price(ALICE, fp, Some(10)), Ok(()));
    assert_eq!(buy(&mut pallet, &mut ledger, BOB, fp, 10), Err(Error::TooManyOwned));
    assert_eq!(ledger.balance(&BOB), 1000);
    assert_eq!(pallet.kitty(&fp).unwrap().owner, ALICE);
}

#[test]
fn index_mirrors_the_records_after_mixed_operations() {
    let mut pallet = Pallet::new();
    let mut ledger = Ledger::new(&[(ALICE, 1000), (BOB, 1000), (CHARLIE, 1000)]);
    let mut all: Vec<Fingerprint> = Vec::new();
    for who in [ALICE, BOB, CHARLIE, ALICE, BOB] {
        all.push(create(&mut pallet, who));
    }
    assert_eq!(pallet.transfer(ALICE, CHARLIE, all[0]), Ok(()));
    assert_eq!(pallet.set_price(BOB, all[1], Some(20)), Ok(()));
    assert_eq!(buy(&mut pallet, &mut ledger, ALICE, all[1], 20), Ok(()));
    assert_eq!(pallet.transfer(CHARLIE, BOB, all[2]), Ok(()));
    assert_eq!(pallet.transfer(ALICE, BOB, all[2]), Err(Error::NotOwner));
    for fp in &all {
        let owner = pallet.kitty(fp).unwrap().owner;
        for who in [ALICE, BOB, CHARLIE] {
            let n = pallet.kitties_owned(&who).iter().filter(|x| *x == fp).count();
            assert_eq!(n, if who == owner { 1 } else { 0 });
        }
    }
    let total: usize =
        [ALICE, BOB, CHARLIE].iter().map(|w| pallet.kitties_owned(w).len()).sum();
    assert_eq!(total, all.len());
}

#[test]
fn runtime_creates_with_its_block_entropy() {
    let mut runtime = Runtime::new(block());
    let fp = runtime.create_kitty(ALICE).expect("creation succeeds");
    assert_eq!(fp, expected_dna(&block(), 0));
    let next = runtime.create_kitty(ALICE).expect("creation succeeds");
    assert_eq!(next, expected_dna(&block(), 1));
    assert_eq!(runtime.collectables.kitties_owned(&ALICE), vec![fp, next]);
}
