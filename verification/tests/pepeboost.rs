use pepe_contracts::pepeboost::{Contract, Error};

const OWNER: u128 = 9;
const PLAYER: u128 = 5;
const FEE: u128 = 4_000_000_000;

fn fresh() -> Contract {
    Contract::new(
        OWNER,
        1000,
        Some(String::from("PepeBoost")),
        Some(String::from("PBST")),
        12,
    )
}

#[test]
fn constructor_mints_supply_to_caller() {
    let c = fresh();
    assert_eq!(c.balance_of(OWNER), 1000);
    assert_eq!(c.balance_of(PLAYER), 0);
    assert_eq!(c.total_supply(), 1000);
    assert!(!c.check_game_status(OWNER));
    assert_eq!(c.get_nft_stats(1), [0; 6]);
}

#[test]
fn upgrade_increments_exactly_one_slot() {
    let mut c = fresh();
    let ev = c.add_nft_stats(OWNER, 5, 2).unwrap();
    assert_eq!(ev.nft_id, 5);
    assert_eq!(ev.stats, [0, 0, 1, 0, 0, 0]);
    assert_eq!(c.get_nft_stats(5), [0, 0, 1, 0, 0, 0]);
    assert_eq!(c.get_nft_stats(4), [0; 6]);
    // The upgrade cost of this contract is zero, so the burn moves nothing.
    assert_eq!(c.balance_of(OWNER), 1000);
    assert_eq!(c.total_supply(), 1000);
}

#[test]
fn repeated_upgrades_accumulate() {
    let mut c = fresh();
    for _ in 0..3 {
        c.add_nft_stats(OWNER, 8, 1).unwrap();
    }
    assert_eq!(c.get_nft_stats(8), [0, 3, 0, 0, 0, 0]);
}

#[test]
fn upgrade_slot_wraps_at_255() {
    let mut c = fresh();
    for _ in 0..255 {
        c.add_nft_stats(OWNER, 3, 0).unwrap();
    }
    assert_eq!(c.get_nft_stats(3)[0], 255);
    c.add_nft_stats(OWNER, 3, 0).unwrap();
    assert_eq!(c.get_nft_stats(3)[0], 0);
}

#[test]
fn upgrade_with_out_of_range_index_changes_no_slot() {
    let mut c = fresh();
    let ev = c.add_nft_stats(OWNER, 5, 6).unwrap();
    assert_eq!(ev.stats, [0; 6]);
    assert_eq!(c.get_nft_stats(5), [0; 6]);
    assert_eq!(c.balance_of(OWNER), 1000);
}

#[test]
fn upgrades_by_a_pauper_still_pass_with_zero_cost() {
    // The upgrade cost is fixed at zero by construction, so even an
    // account with no balance covers the burn.
    let mut c = fresh();
    let ev = c.add_nft_stats(PLAYER, 2, 3).unwrap();
    assert_eq!(ev.stats, [0, 0, 0, 1, 0, 0]);
    assert_eq!(c.balance_of(PLAYER), 0);
}

#[test]
fn start_game_sets_the_flag() {
    let mut c = fresh();
    assert!(!c.check_game_status(PLAYER));
    c.start_game(PLAYER, FEE);
    assert!(c.check_game_status(PLAYER));
    assert!(!c.check_game_status(OWNER));
}

#[test]
fn start_game_overwrites_an_active_session() {
    let mut c = fresh();
    c.start_game(PLAYER, FEE);
    c.start_game(PLAYER, FEE + 1);
    assert!(c.check_game_status(PLAYER));
}

#[test]
fn end_game_by_non_owner_is_rejected() {
    let mut c = fresh();
    c.start_game(PLAYER, FEE);
    assert_eq!(c.end_game(PLAYER, PLAYER, 50), Err(Error::Unauthorized));
    assert!(c.check_game_status(PLAYER));
    assert_eq!(c.balance_of(PLAYER), 0);
}

#[test]
fn end_game_clears_the_flag_and_mints_the_reward() {
    let mut c = fresh();
    c.start_game(PLAYER, FEE);
    assert_eq!(c.end_game(OWNER, PLAYER, 50), Ok(()));
    assert!(!c.check_game_status(PLAYER));
    assert_eq!(c.balance_of(PLAYER), 50);
    assert_eq!(c.balance_of(OWNER), 1000);
    assert_eq!(c.total_supply(), 1050);
}

#[test]
fn ended_game_can_be_started_again() {
    let mut c = fresh();
    c.start_game(PLAYER, FEE);
    assert_eq!(c.end_game(OWNER, PLAYER, 1), Ok(()));
    c.start_game(PLAYER, FEE);
    assert!(c.check_game_status(PLAYER));
}
