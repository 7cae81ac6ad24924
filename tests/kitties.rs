use kitties::balances::Balances;
use kitties::dna::{entropy_payload_bytes, random_value};
use kitties::kitties::{
    AccountId, Balance, Config, DispatchError, Error, Event, FundsError, Kitty, Pallet,
};

const KITTY_PRICE: Balance = 500;
const PALLET_ACCOUNT: AccountId = 9999;
const EXISTENTIAL_DEPOSIT: Balance = 1;
const SEED: [u8; 32] = [7u8; 32];

struct TestConfig;

impl Config for TestConfig {
    fn kitty_price(&self) -> Balance {
        KITTY_PRICE
    }

    fn pallet_account(&self) -> AccountId {
        PALLET_ACCOUNT
    }
}

fn setup() -> (Pallet, Balances) {
    (Pallet::new(&TestConfig), Balances::new(EXISTENTIAL_DEPOSIT))
}

#[test]
fn create_works() {
    let (mut pallet, mut balances) = setup();
    let kitty_id = 0;
    let account_id = 1;
    balances.set_balance(account_id, 10000000);

    assert_eq!(pallet.next_kitty_id(), kitty_id);
    assert_eq!(pallet.create(&mut balances, account_id, *b"abcdefgh", SEED, 1), Ok(()));

    assert_eq!(
        pallet.last_event(),
        Some(Event::KittyCreated {
            who: account_id,
            kitty_id,
            kitty: pallet.kitties(kitty_id).unwrap()
        })
    );

    assert_eq!(pallet.next_kitty_id(), kitty_id + 1);
    assert_eq!(pallet.kitties(kitty_id).is_some(), true);
    assert_eq!(pallet.kitty_owner(kitty_id), Some(account_id));
    assert_eq!(pallet.kitty_parents(kitty_id), None);

    assert!(pallet.set_next_kitty_id(u32::MAX));
    assert_eq!(
        pallet.create(&mut balances, account_id, *b"abcdefgh", SEED, 1),
        Err(DispatchError::Kitties(Error::InvalidKittyId))
    );
}

#[test]
fn create_fails_when_ids_are_exhausted() {
    let (mut pallet, mut balances) = setup();
    balances.set_balance(1, 10000000);
    assert_eq!(pallet.create(&mut balances, 1, *b"abcdefgh", SEED, 1), Ok(()));
    assert!(!pallet.set_next_kitty_id(0));
    assert!(pallet.set_next_kitty_id(u32::MAX));
    let events = pallet.event_count();
    assert_eq!(
        pallet.create(&mut balances, 1, *b"abcdefgh", SEED, 1),
        Err(DispatchError::Kitties(Error::InvalidKittyId))
    );
    assert_eq!(pallet.next_kitty_id(), u32::MAX);
    assert_eq!(pallet.kitties(u32::MAX), None);
    assert_eq!(pallet.kitty_owner(u32::MAX), None);
    assert_eq!(pallet.event_count(), events);
    assert_eq!(balances.free_balance(1), 10000000 - KITTY_PRICE);
}

#[test]
fn create_charges_the_price_to_the_escrow_account() {
    let (mut pallet, mut balances) = setup();
    balances.set_balance(1, 10000);
    assert_eq!(pallet.create(&mut balances, 1, *b"abcdefgh", SEED, 1), Ok(()));
    assert_eq!(balances.free_balance(1), 10000 - KITTY_PRICE);
    assert_eq!(balances.free_balance(PALLET_ACCOUNT), KITTY_PRICE);
    assert_eq!(pallet.account_id(), PALLET_ACCOUNT);
}

#[test]
fn create_without_funds_changes_nothing() {
    let (mut pallet, mut balances) = setup();
    balances.set_balance(1, 100);
    assert_eq!(
        pallet.create(&mut balances, 1, *b"abcdefgh", SEED, 1),
        Err(DispatchError::Funds(FundsError::InsufficientBalance))
    );
    balances.set_balance(1, KITTY_PRICE);
    assert_eq!(
        pallet.create(&mut balances, 1, *b"abcdefgh", SEED, 1),
        Err(DispatchError::Funds(FundsError::KeepAlive))
    );
    assert_eq!(pallet.next_kitty_id(), 0);
    assert_eq!(pallet.kitties(0), None);
    assert_eq!(pallet.kitty_owner(0), None);
    assert_eq!(pallet.event_count(), 0);
}

#[test]
fn created_dna_is_the_random_value() {
    let (mut pallet, mut balances) = setup();
    balances.set_balance(3, 10000000);
    assert_eq!(pallet.create(&mut balances, 3, *b"abcdefgh", SEED, 42), Ok(()));
    let kitty = pallet.kitties(0).unwrap();
    assert_eq!(kitty.dna, random_value(3, &SEED, 42));
    assert_eq!(kitty.name, *b"abcdefgh");
}

#[test]
fn transfer_works() {
    let (mut pallet, mut balances) = setup();
    let kitty_id = 0;
    let account_id = 1;
    let another_account_id = 2;
    balances.set_balance(account_id, 10000000);

    assert_eq!(pallet.next_kitty_id(), kitty_id);
    assert_eq!(pallet.create(&mut balances, account_id, *b"abcdefgh", SEED, 1), Ok(()));

    assert_eq!(pallet.kitty_owner(kitty_id), Some(account_id));

    let events = pallet.event_count();
    assert_eq!(
        pallet.transfer(another_account_id, account_id, kitty_id),
        Err(Error::NotOwner)
    );
    assert_eq!(pallet.event_count(), events);
    assert_eq!(pallet.kitty_owner(kitty_id), Some(account_id));

    assert_eq!(pallet.transfer(account_id, another_account_id, kitty_id), Ok(()));
    assert_eq!(pallet.kitty_owner(kitty_id), Some(another_account_id));
}

#[test]
fn transfer_of_unknown_kitty_fails() {
    let (mut pallet, _) = setup();
    assert_eq!(pallet.transfer(1, 2, 0), Err(Error::InvalidKittyId));
}

#[test]
fn transfer_keeps_listing() {
    let (mut pallet, mut balances) = setup();
    balances.set_balance(1, 10000000);
    assert_eq!(pallet.create(&mut balances, 1, *b"abcdefgh", SEED, 1), Ok(()));
    assert_eq!(pallet.set_price(1, 0, 77), Ok(()));
    assert_eq!(pallet.transfer(1, 2, 0), Ok(()));
    assert_eq!(pallet.kitty_prices(0), Some(77));
    assert_eq!(
        pallet.last_event(),
        Some(Event::KittyTransferred { from: 1, to: 2, kitty_id: 0 })
    );
}

fn assert_unchanged(pallet: &Pallet, balances: &Balances, account_id: AccountId) {
    assert_eq!(pallet.next_kitty_id(), 0);
    assert_eq!(pallet.kitties(0), None);
    assert_eq!(pallet.kitties(1), None);
    assert_eq!(pallet.kitty_owner(0), None);
    assert_eq!(pallet.kitty_parents(0), None);
    assert_eq!(pallet.kitty_prices(0), None);
    assert_eq!(pallet.event_count(), 0);
    assert_eq!(balances.free_balance(account_id), 10000000);
    assert_eq!(balances.free_balance(PALLET_ACCOUNT), 0);
}

#[test]
fn breed_workes() {
    let (mut pallet, mut balances) = setup();
    let kitty_id = 0;
    let account_id = 1;
    balances.set_balance(account_id, 10000000);

    assert_eq!(pallet.next_kitty_id(), kitty_id);
    assert_eq!(
        pallet.breed(&mut balances, account_id, kitty_id, kitty_id, *b"abcdefgh", SEED, 1),
        Err(DispatchError::Kitties(Error::SameParentsId))
    );
    assert_unchanged(&pallet, &balances, account_id);
    assert_eq!(
        pallet.breed(&mut balances, account_id, kitty_id, kitty_id + 1, *b"abcdefgh", SEED, 1),
        Err(DispatchError::Kitties(Error::InvalidKittyId))
    );
    assert_unchanged(&pallet, &balances, account_id);

    assert_eq!(pallet.create(&mut balances, account_id, *b"abcdefgh", SEED, 1), Ok(()));
    assert_eq!(pallet.create(&mut balances, account_id, *b"abcdefgh", SEED, 2), Ok(()));

    assert_eq!(pallet.next_kitty_id(), kitty_id + 2);

    assert_eq!(
        pallet.breed(&mut balances, account_id, kitty_id, kitty_id + 1, *b"abcdefgh", SEED, 3),
        Ok(())
    );

    let breed_kitty_id = 2;
    assert_eq!(pallet.next_kitty_id(), breed_kitty_id + 1);
    assert_eq!(pallet.kitties(breed_kitty_id).is_some(), true);
    assert_eq!(pallet.kitty_owner(breed_kitty_id), Some(account_id));
    assert_eq!(pallet.kitty_parents(breed_kitty_id), Some((kitty_id, kitty_id + 1)));
}

#[test]
fn bred_dna_mixes_parents_by_selector() {
    let (mut pallet, mut balances) = setup();
    balances.set_balance(1, 10000000);
    assert_eq!(pallet.create(&mut balances, 1, *b"abcdefgh", [1u8; 32], 1), Ok(()));
    assert_eq!(pallet.create(&mut balances, 1, *b"abcdefgh", [2u8; 32], 1), Ok(()));
    let p1 = pallet.kitties(0).unwrap().dna;
    let p2 = pallet.kitties(1).unwrap().dna;
    assert_eq!(pallet.breed(&mut balances, 1, 0, 1, *b"childxyz", SEED, 5), Ok(()));
    let selector = random_value(1, &SEED, 5);
    let child = pallet.kitties(2).unwrap();
    for i in 0..16 {
        assert_eq!(child.dna[i], (p1[i] & selector[i]) | (p2[i] & !selector[i]));
    }
    assert_eq!(child.name, *b"childxyz");
    assert_eq!(
        pallet.last_event(),
        Some(Event::KittyBred { who: 1, kitty_id: 2, kitty: child })
    );
}

#[test]
fn breed_owner_is_caller_not_parent_owner() {
    let (mut pallet, mut balances) = setup();
    balances.set_balance(1, 10000000);
    balances.set_balance(2, 10000000);
    assert_eq!(pallet.create(&mut balances, 1, *b"abcdefgh", SEED, 1), Ok(()));
    assert_eq!(pallet.create(&mut balances, 1, *b"abcdefgh", SEED, 2), Ok(()));
    assert_eq!(pallet.breed(&mut balances, 2, 1, 0, *b"abcdefgh", SEED, 3), Ok(()));
    assert_eq!(pallet.kitty_owner(2), Some(2));
    assert_eq!(pallet.kitty_parents(2), Some((1, 0)));
    assert_eq!(balances.free_balance(2), 10000000 - KITTY_PRICE);
}

#[test]
fn set_price_and_buy_works() {
    let (mut pallet, mut balances) = setup();
    let kitty_id = 0;
    let account_id = 1;
    let another_account_id = 2;
    balances.set_balance(account_id, 10000000);
    balances.set_balance(another_account_id, 10000000);

    assert_eq!(pallet.next_kitty_id(), kitty_id);
    assert_eq!(pallet.create(&mut balances, account_id, *b"abcdefgh", SEED, 1), Ok(()));

    assert_eq!(pallet.next_kitty_id(), kitty_id + 1);
    assert_eq!(pallet.kitties(kitty_id).is_some(), true);
    assert_eq!(pallet.kitty_owner(kitty_id), Some(account_id));
    assert_eq!(pallet.kitty_parents(kitty_id), None);

    assert_eq!(pallet.set_price(account_id, kitty_id, 100), Ok(()));

    assert_eq!(pallet.buy(&mut balances, another_account_id, kitty_id), Ok(()));
}

#[test]
fn listing_twice_fails() {
    let (mut pallet, mut balances) = setup();
    balances.set_balance(1, 10000000);
    assert_eq!(pallet.create(&mut balances, 1, *b"abcdefgh", SEED, 1), Ok(()));
    assert_eq!(pallet.set_price(2, 0, 100), Err(Error::NotOwner));
    assert_eq!(pallet.set_price(1, 5, 100), Err(Error::InvalidKittyId));
    assert_eq!(pallet.set_price(1, 0, 100), Ok(()));
    assert_eq!(pallet.set_price(1, 0, 200), Err(Error::AlreadyOnSale));
    assert_eq!(pallet.kitty_prices(0), Some(100));
}

#[test]
fn buy_errors() {
    let (mut pallet, mut balances) = setup();
    balances.set_balance(1, 10000000);
    balances.set_balance(2, 10000000);
    assert_eq!(
        pallet.buy(&mut balances, 2, 0),
        Err(DispatchError::Kitties(Error::InvalidKittyId))
    );
    assert_eq!(pallet.create(&mut balances, 1, *b"abcdefgh", SEED, 1), Ok(()));
    assert_eq!(
        pallet.buy(&mut balances, 2, 0),
        Err(DispatchError::Kitties(Error::NotOnSale))
    );
    assert_eq!(
        pallet.buy(&mut balances, 1, 0),
        Err(DispatchError::Kitties(Error::BuyFromSelf))
    );
    assert_eq!(pallet.set_price(1, 0, 20000000), Ok(()));
    assert_eq!(
        pallet.buy(&mut balances, 2, 0),
        Err(DispatchError::Funds(FundsError::InsufficientBalance))
    );
    assert_eq!(pallet.kitty_owner(0), Some(1));
    assert_eq!(pallet.kitty_prices(0), Some(20000000));
}

#[test]
fn buy_clears_listing_and_moves_ownership() {
    let (mut pallet, mut balances) = setup();
    balances.set_balance(1, 10000000);
    balances.set_balance(2, 10000000);
    assert_eq!(pallet.create(&mut balances, 1, *b"abcdefgh", SEED, 1), Ok(()));
    assert_eq!(pallet.set_price(1, 0, 100), Ok(()));
    assert_eq!(pallet.buy(&mut balances, 2, 0), Ok(()));
    assert_eq!(pallet.kitty_prices(0), None);
    assert_eq!(pallet.kitty_owner(0), Some(2));
    assert_eq!(
        pallet.last_event(),
        Some(Event::KittySold { from: 1, to: 2, kitty_id: 0, price: 100 })
    );
    assert_eq!(
        pallet.buy(&mut balances, 2, 0),
        Err(DispatchError::Kitties(Error::BuyFromSelf))
    );
    assert_eq!(
        pallet.buy(&mut balances, 1, 0),
        Err(DispatchError::Kitties(Error::NotOnSale))
    );
}

#[test]
fn create_breed_list_and_buy_end_to_end() {
    let (mut pallet, mut balances) = setup();
    let a = 1;
    let b = 2;
    balances.set_balance(a, 10000000);
    balances.set_balance(b, 10000000);
    assert_eq!(pallet.create(&mut balances, a, *b"abcdefgh", SEED, 1), Ok(()));
    assert_eq!(pallet.create(&mut balances, a, *b"abcdefgh", SEED, 2), Ok(()));
    assert_eq!(pallet.breed(&mut balances, a, 0, 1, *b"abcdefgh", SEED, 3), Ok(()));
    assert_eq!(pallet.kitty_parents(2), Some((0, 1)));
    assert_eq!(pallet.set_price(a, 2, 100), Ok(()));
    let a_before = balances.free_balance(a);
    let b_before = balances.free_balance(b);
    assert_eq!(pallet.buy(&mut balances, b, 2), Ok(()));
    assert_eq!(pallet.kitty_owner(2), Some(b));
    assert_eq!(pallet.kitty_prices(2), None);
    assert_eq!(balances.free_balance(a), a_before + 100);
    assert_eq!(balances.free_balance(b), b_before - 100);
}

#[test]
fn entropy_payload_is_little_endian_concatenation() {
    let seed = [0xabu8; 32];
    let bytes = entropy_payload_bytes(0x0102030405060708, &seed, 0x11);
    let mut expected = vec![8u8, 7, 6, 5, 4, 3, 2, 1];
    expected.extend_from_slice(&seed);
    expected.extend_from_slice(&[0x11, 0, 0, 0, 0, 0, 0, 0]);
    assert_eq!(bytes, expected);
}

#[test]
fn random_value_is_a_digest_of_the_payload() {
    let a = random_value(1, &SEED, 1);
    assert_eq!(a, random_value(1, &SEED, 1));
    assert_ne!(a, random_value(2, &SEED, 1));
    assert_ne!(a, random_value(1, &SEED, 2));
    assert_ne!(a, random_value(1, &[8u8; 32], 1));
    assert_ne!(a.to_vec(), entropy_payload_bytes(1, &SEED, 1)[..16].to_vec());
}

#[test]
fn kitty_encoding_is_dna_then_name() {
    let kitty = Kitty { dna: [3u8; 16], name: *b"abcdefgh" };
    let mut expected = vec![3u8; 16];
    expected.extend_from_slice(b"abcdefgh");
    assert_eq!(kitty.encode(), expected);
}

#[test]
fn mix_dna_takes_bits_by_selector() {
    let a = [0b1111_0000u8; 16];
    let b = [0b1010_1010u8; 16];
    let mut selector = [0u8; 16];
    selector[0] = 0xff;
    selector[1] = 0x0f;
    let child = kitties::kitties::mix_dna(&a, &b, &selector);
    assert_eq!(child[0], 0b1111_0000);
    assert_eq!(child[1], 0b1010_0000);
    assert_eq!(child[2], 0b1010_1010);
    assert_eq!(child[15], 0b1010_1010);
}

#[test]
fn balances_keep_payer_alive_and_refuse_overdraft() {
    let mut balances = Balances::new(10);
    balances.set_balance(1, 100);
    assert_eq!(balances.pay(1, 2, 101), Err(FundsError::InsufficientBalance));
    assert_eq!(balances.pay(1, 2, 95), Err(FundsError::KeepAlive));
    assert_eq!(balances.pay(1, 2, 90), Ok(()));
    assert_eq!(balances.free_balance(1), 10);
    assert_eq!(balances.free_balance(2), 90);
    balances.set_balance(3, u128::MAX);
    balances.set_balance(4, 100);
    assert_eq!(balances.pay(4, 3, 50), Err(FundsError::Other));
    assert_eq!(balances.pay(4, 4, 50), Ok(()));
    assert_eq!(balances.free_balance(4), 100);
}
