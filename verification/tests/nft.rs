use pepe_contracts::nft::{Contract, Error};

const ALICE: u128 = 7;
const BOB: u128 = 21;

fn fresh(price: u128) -> Contract {
    Contract::new(
        ALICE,
        String::from("Pepe Collection"),
        String::from("PEPE"),
        String::from("ipfs://base"),
        100,
        price,
    )
}

#[test]
fn mint_zero_units_is_rejected() {
    let mut c = fresh(1);
    assert_eq!(c.mint(ALICE, 10, 0), Err(Error::InvalidAmount));
    assert!(c.get_user_tokens(ALICE).is_empty());
    assert_eq!(c.owner_of(0), None);
}

#[test]
fn mint_underpaid_is_rejected() {
    let mut c = fresh(5);
    assert_eq!(c.mint(ALICE, 9, 2), Err(Error::InsufficientPayment));
    assert!(c.get_user_tokens(ALICE).is_empty());
    assert_eq!(c.owner_of(0), None);
}

#[test]
fn mint_exact_payment_succeeds() {
    let mut c = fresh(2);
    assert_eq!(c.mint(ALICE, 4, 2), Ok(()));
    assert_eq!(c.owner_of(0), Some(ALICE));
    assert_eq!(c.owner_of(1), Some(ALICE));
    assert_eq!(c.owner_of(2), None);
}

#[test]
fn mint_batch_assigns_sequential_ids() {
    let mut c = fresh(1);
    assert_eq!(c.mint(ALICE, 3, 3), Ok(()));
    assert_eq!(c.owner_of(0), Some(ALICE));
    assert_eq!(c.owner_of(2), Some(ALICE));
    assert_eq!(c.owner_of(3), None);
    // The scan starts past the sentinel id 0.
    assert_eq!(c.get_user_tokens(ALICE), vec![1, 2]);
}

#[test]
fn mint_with_zero_price_accepts_zero_payment() {
    let mut c = fresh(0);
    assert_eq!(c.mint(ALICE, 0, 4), Ok(()));
    assert_eq!(c.get_user_tokens(ALICE), vec![1, 2, 3]);
}

#[test]
fn batch_of_ten_grants_one_bonus_unit() {
    let mut c = fresh(1);
    assert_eq!(c.mint(ALICE, 10, 10), Ok(()));
    assert_eq!(c.owner_of(10), Some(ALICE));
    assert_eq!(c.owner_of(11), None);
    let tokens = c.get_user_tokens(ALICE);
    assert_eq!(tokens, (1..=10).collect::<Vec<u64>>());
}

#[test]
fn batch_of_twenty_grants_three_bonus_units() {
    let mut c = fresh(1);
    assert_eq!(c.mint(ALICE, 20, 20), Ok(()));
    assert_eq!(c.owner_of(22), Some(ALICE));
    assert_eq!(c.owner_of(23), None);
    let tokens = c.get_user_tokens(ALICE);
    assert_eq!(tokens, (1..=22).collect::<Vec<u64>>());
}

#[test]
fn failed_batch_leaves_earlier_units_in_place() {
    let mut c = fresh(3);
    assert_eq!(c.mint(ALICE, 3, 1), Ok(()));
    assert_eq!(c.mint(ALICE, 3, 2), Err(Error::InsufficientPayment));
    assert_eq!(c.owner_of(0), Some(ALICE));
    assert_eq!(c.owner_of(1), None);
}

#[test]
fn user_tokens_are_split_between_minters() {
    let mut c = fresh(1);
    assert_eq!(c.mint(ALICE, 2, 2), Ok(()));
    assert_eq!(c.mint(BOB, 2, 2), Ok(()));
    assert_eq!(c.get_user_tokens(ALICE), vec![1]);
    assert_eq!(c.get_user_tokens(BOB), vec![2, 3]);
}

#[test]
fn user_tokens_of_a_stranger_is_empty() {
    let mut c = fresh(1);
    assert_eq!(c.mint(ALICE, 5, 5), Ok(()));
    assert!(c.get_user_tokens(BOB).is_empty());
}
