//! End-to-end tests of the registry operations: minting, transfer,
//! pricing, the counter, the owner indices, and every error variant.

use asset_registry::id_gen::{generate, Context};
use asset_registry::registry::Registry;
use asset_registry::{Error, Event, OWNER_CAPACITY};

fn ctx(seed: u8) -> Context {
    Context { parent_hash: vec![seed; 32], height: 1, extrinsic_index: Some(0) }
}

fn id_of_bytes(bytes: [u8; 16]) -> u128 {
    u128::from_le_bytes(bytes)
}

#[test]
fn create_kitty_emits_event() {
    let mut reg = Registry::new();
    assert!(reg.mint(1, &ctx(9)).is_ok());
    let events = reg.events();
    assert_eq!(events.len(), 1);
    assert_eq!(events[0], Event::Created { owner: 1 });
}

#[test]
fn count_for_kitties_created_correctly() {
    let mut reg = Registry::new();
    assert_eq!(reg.counter(), 0);
    reg.set_counter(1337);
    assert_eq!(reg.counter(), 1337);
    reg.set_counter(1337);
    assert_eq!(reg.counter(), 1337);
}

#[test]
fn mint_increments_count_for_kitty() {
    let mut reg = Registry::new();
    assert_eq!(reg.counter(), 0);
    assert!(reg.mint_with_id(1, id_of_bytes([1u8; 16])).is_ok());
    assert_eq!(reg.counter(), 1);
    assert!(reg.mint_with_id(2, id_of_bytes([2u8; 16])).is_ok());
    assert!(reg.mint_with_id(3, id_of_bytes([3u8; 16])).is_ok());
    assert_eq!(reg.counter(), 3);
}

#[test]
fn mint_errors_when_overflow() {
    let mut reg = Registry::new();
    reg.set_counter(u64::MAX);
    assert_eq!(reg.mint(1, &ctx(0)), Err(Error::TooManyAssets));
    // Nothing was persisted by the failed mint.
    assert_eq!(reg.asset_count(), 0);
    assert_eq!(reg.events().len(), 0);
    assert_eq!(reg.counter(), u64::MAX);
}

#[test]
fn create_kitty_adds_to_map() {
    let mut reg = Registry::new();
    assert!(reg.mint(1, &ctx(7)).is_ok());
    assert_eq!(reg.asset_count(), 1);
}

#[test]
fn cannot_mint_duplicate_kitty() {
    let mut reg = Registry::new();
    let zero = id_of_bytes([0u8; 16]);
    assert!(reg.mint_with_id(1, zero).is_ok());
    assert_eq!(reg.mint_with_id(2, zero), Err(Error::DuplicateAsset));
}

#[test]
fn mint_three_times_same_owner() {
    let mut reg = Registry::new();
    assert!(reg.mint(10, &ctx(1)).is_ok());
    assert!(reg.mint(10, &ctx(1)).is_ok());
    assert!(reg.mint(10, &ctx(1)).is_ok());
    assert_eq!(reg.counter(), 3);
    let ids = reg.owned_by(10);
    assert_eq!(ids.len(), 3);
    assert_ne!(ids[0], ids[1]);
    assert_ne!(ids[0], ids[2]);
    assert_ne!(ids[1], ids[2]);
    let created = reg
        .events()
        .iter()
        .filter(|e| matches!(e, Event::Created { owner: 10 }))
        .count();
    assert_eq!(created, 3);
}

#[test]
fn transfer_moves_asset_between_indices() {
    let mut reg = Registry::new();
    assert!(reg.mint(1, &ctx(2)).is_ok());
    let id1 = reg.owned_by(1)[0];
    assert_eq!(reg.transfer(1, 2, id1), Ok(()));
    assert_eq!(reg.owned_by(1).len(), 0);
    assert_eq!(reg.owned_by(2), vec![id1]);
    assert_eq!(reg.asset(id1).unwrap().owner, 2);
    assert_eq!(reg.events()[1], Event::Transferred { from: 1, to: 2, id: id1 });
}

#[test]
fn transfer_by_non_owner_fails_and_changes_nothing() {
    let mut reg = Registry::new();
    assert!(reg.mint(1, &ctx(3)).is_ok());
    let id1 = reg.owned_by(1)[0];
    assert_eq!(reg.transfer(3, 2, id1), Err(Error::NotOwner));
    assert_eq!(reg.owned_by(1), vec![id1]);
    assert_eq!(reg.owned_by(2).len(), 0);
    assert_eq!(reg.owned_by(3).len(), 0);
    assert_eq!(reg.asset(id1).unwrap().owner, 1);
    assert_eq!(reg.counter(), 1);
    assert_eq!(reg.events().len(), 1);
}

#[test]
fn transfer_to_self_fails() {
    let mut reg = Registry::new();
    assert!(reg.mint(1, &ctx(4)).is_ok());
    let id1 = reg.owned_by(1)[0];
    assert_eq!(reg.transfer(1, 1, id1), Err(Error::TransferToSelf));
    assert_eq!(reg.asset(id1).unwrap().owner, 1);
    assert_eq!(reg.owned_by(1), vec![id1]);
}

#[test]
fn transfer_of_unknown_id_fails() {
    let mut reg = Registry::new();
    assert_eq!(reg.transfer(1, 2, 99), Err(Error::NoSuchAsset));
    // A self-transfer of an unknown identifier also reports the missing
    // asset first.
    assert_eq!(reg.transfer(1, 1, 99), Err(Error::NoSuchAsset));
}

#[test]
fn transfer_keeps_relative_order_of_remaining_ids() {
    let mut reg = Registry::new();
    assert!(reg.mint_with_id(1, 11).is_ok());
    assert!(reg.mint_with_id(1, 22).is_ok());
    assert!(reg.mint_with_id(1, 33).is_ok());
    assert_eq!(reg.transfer(1, 2, 22), Ok(()));
    assert_eq!(reg.owned_by(1), vec![11, 33]);
    assert_eq!(reg.owned_by(2), vec![22]);
}

#[test]
fn mint_into_full_owner_fails_with_too_many_owned() {
    let mut reg = Registry::new();
    for i in 0..OWNER_CAPACITY {
        assert!(reg.mint_with_id(1, i as u128).is_ok());
    }
    assert_eq!(reg.owned_count(1), OWNER_CAPACITY);
    assert_eq!(reg.mint_with_id(1, 1_000_000), Err(Error::TooManyOwned));
    // The failed mint left everything unchanged.
    assert_eq!(reg.owned_count(1), OWNER_CAPACITY);
    assert_eq!(reg.counter(), OWNER_CAPACITY as u64);
    assert_eq!(reg.asset_count(), OWNER_CAPACITY);
    assert!(!reg.has_asset(1_000_000));
}

#[test]
fn transfer_into_full_owner_fails_with_too_many_owned() {
    let mut reg = Registry::new();
    for i in 0..OWNER_CAPACITY {
        assert!(reg.mint_with_id(1, i as u128).is_ok());
    }
    assert!(reg.mint_with_id(2, 1_000_000).is_ok());
    assert_eq!(reg.transfer(2, 1, 1_000_000), Err(Error::TooManyOwned));
    assert_eq!(reg.owned_by(2), vec![1_000_000]);
    assert_eq!(reg.owned_count(1), OWNER_CAPACITY);
    assert_eq!(reg.asset(1_000_000).unwrap().owner, 2);
}

#[test]
fn set_price_updates_price_and_logs_event() {
    let mut reg = Registry::new();
    assert!(reg.mint_with_id(1, 5).is_ok());
    assert_eq!(reg.asset(5).unwrap().price, None);
    assert_eq!(reg.set_price(1, 5, Some(100)), Ok(()));
    assert_eq!(reg.asset(5).unwrap().price, Some(100));
    assert_eq!(
        reg.events()[1],
        Event::PriceSet { owner: 1, id: 5, new_price: Some(100) }
    );
    assert_eq!(reg.set_price(1, 5, None), Ok(()));
    assert_eq!(reg.asset(5).unwrap().price, None);
}

#[test]
fn set_price_rejects_non_owner_and_unknown_id() {
    let mut reg = Registry::new();
    assert!(reg.mint_with_id(1, 5).is_ok());
    assert_eq!(reg.set_price(2, 5, Some(1)), Err(Error::NotOwner));
    assert_eq!(reg.set_price(1, 6, Some(1)), Err(Error::NoSuchAsset));
    assert_eq!(reg.asset(5).unwrap().price, None);
    assert_eq!(reg.events().len(), 1);
}

#[test]
fn asset_ids_snapshot_lists_every_live_asset() {
    let mut reg = Registry::new();
    assert!(reg.mint_with_id(1, 5).is_ok());
    assert!(reg.mint_with_id(2, 6).is_ok());
    let mut ids = reg.asset_ids();
    ids.sort();
    assert_eq!(ids, vec![5, 6]);
    assert_eq!(reg.asset(5).unwrap().owner, 1);
    assert_eq!(reg.asset(6).unwrap().owner, 2);
}

#[test]
fn generated_ids_are_deterministic() {
    let a = generate(&ctx(5), 3);
    let b = generate(&ctx(5), 3);
    assert_eq!(a, b);
    // The digest depends on each input: counter, context fields.
    assert_ne!(generate(&ctx(5), 4), a);
    assert_ne!(generate(&ctx(6), 3), a);
    let mut other = ctx(5);
    other.height = 2;
    assert_ne!(generate(&other, 3), a);
    let mut no_index = ctx(5);
    no_index.extrinsic_index = None;
    assert_ne!(generate(&no_index, 3), a);
}

#[test]
fn repeating_a_context_at_the_same_counter_collides() {
    let mut reg = Registry::new();
    let context = ctx(8);
    assert!(reg.mint(1, &context).is_ok());
    // Wind the counter back: the same context now regenerates the same
    // identifier, and the mint is rejected rather than retried.
    reg.set_counter(0);
    assert_eq!(reg.mint(2, &context), Err(Error::DuplicateAsset));
}
