use kitties::index::MultiIndex;
use kitties::ledger::Ledger;
use kitties::lineage::Lineage;
use kitties::ownership::Ownership;
use kitties::registry::Registry;
use kitties::types::{AccountData, Error, Kitty};

fn sorted(mut v: Vec<u32>) -> Vec<u32> {
    v.sort();
    v
}

#[test]
fn ledger_set_overwrites() {
    let mut ledger = Ledger::new();
    assert_eq!(ledger.get(1), None);
    ledger.set(1, 5, 7);
    assert_eq!(ledger.get(1), Some(AccountData { free: 5, reserved: 7 }));
    ledger.set(1, 1, 2);
    assert_eq!(ledger.get(1), Some(AccountData { free: 1, reserved: 2 }));
    assert_eq!(ledger.get(2), None);
}

#[test]
fn ledger_moves_reserved_between_records() {
    let mut ledger = Ledger::new();
    ledger.set(1, 5, 70);
    ledger.move_reserved(1, 2, 30);
    assert_eq!(ledger.get(1), Some(AccountData { free: 5, reserved: 40 }));
    assert_eq!(ledger.get(2), Some(AccountData { free: 0, reserved: 30 }));
    ledger.set(2, 9, 30);
    ledger.move_reserved(1, 2, 40);
    assert_eq!(ledger.get(1), Some(AccountData { free: 5, reserved: 0 }));
    assert_eq!(ledger.get(2), Some(AccountData { free: 9, reserved: 70 }));
    ledger.move_reserved(2, 2, 70);
    assert_eq!(ledger.get(2), Some(AccountData { free: 9, reserved: 70 }));
}

#[test]
fn ledger_credit_reaches_the_largest_balance() {
    let mut ledger = Ledger::new();
    ledger.credit(4, 6);
    assert_eq!(ledger.get(4), Some(AccountData { free: 0, reserved: 6 }));
    ledger.credit(4, u64::MAX - 6);
    assert_eq!(ledger.get(4), Some(AccountData { free: 0, reserved: u64::MAX }));
}

#[test]
fn account_data_starts_empty() {
    assert_eq!(AccountData::default(), AccountData { free: 0, reserved: 0 });
}

#[test]
fn registry_hands_out_the_count() {
    let mut registry = Registry::new();
    let kitty = Kitty { dna: [3; 16], matron_id: None, sire_id: None, generation: 0 };
    assert_eq!(registry.count(), 0);
    assert_eq!(registry.next_id(4), Ok(0));
    assert_eq!(registry.next_id(0), Err(Error::KittiesCountOverflow));
    assert_eq!(registry.get(0), None);
    registry.insert(0, kitty, 2);
    assert_eq!(registry.count(), 2);
    assert_eq!(registry.get(0), Some(kitty));
    assert_eq!(registry.get(1), None);
    assert_eq!(registry.next_id(4), Ok(2));
    registry.insert(2, kitty, 2);
    assert_eq!(registry.next_id(4), Err(Error::KittiesCountOverflow));
    assert_eq!(registry.next_id(u32::MAX), Ok(4));
}

#[test]
fn ownership_keeps_both_directions() {
    let mut ownership = Ownership::new();
    assert_eq!(ownership.owner_of(0), None);
    ownership.assign(0, 1);
    ownership.assign(1, 1);
    ownership.assign(2, 2);
    assert_eq!(ownership.owner_of(0), Some(1));
    assert_eq!(sorted(ownership.owned_by(1)), [0, 1]);
    assert_eq!(sorted(ownership.owned_by(2)), [2]);
    assert_eq!(ownership.transfer(0, 2, 3), Err(Error::NotKittiesOwner));
    assert_eq!(ownership.transfer(7, 1, 3), Err(Error::NotKittiesOwner));
    assert_eq!(sorted(ownership.owned_by(1)), [0, 1]);
    assert_eq!(ownership.transfer(0, 1, 2), Ok(()));
    assert_eq!(ownership.owner_of(0), Some(2));
    assert_eq!(sorted(ownership.owned_by(1)), [1]);
    assert_eq!(sorted(ownership.owned_by(2)), [0, 2]);
    ownership.assign(1, 2);
    assert_eq!(sorted(ownership.owned_by(1)), []);
    assert_eq!(sorted(ownership.owned_by(2)), [0, 1, 2]);
    assert_eq!(ownership.transfer(1, 2, 2), Ok(()));
    assert_eq!(sorted(ownership.owned_by(2)), [0, 1, 2]);
}

#[test]
fn lineage_records_a_child_under_both_parents() {
    let mut lineage = Lineage::new();
    lineage.record_breeding(0, 1, 2);
    lineage.record_breeding(0, 2, 3);
    assert_eq!(sorted(lineage.children_of(0)), [2, 3]);
    assert_eq!(sorted(lineage.children_of(1)), [2]);
    assert_eq!(sorted(lineage.children_of(2)), [3]);
    assert_eq!(sorted(lineage.children_of(3)), []);
}

#[test]
fn multi_index_holds_each_pair_once() {
    let mut index: MultiIndex<u64> = MultiIndex::new();
    assert!(!index.contains(1, 5));
    index.insert(1, 5);
    index.insert(1, 5);
    index.insert(1, 6);
    index.insert(2, 5);
    assert!(index.contains(1, 5));
    assert!(!index.contains(2, 6));
    assert_eq!(sorted(index.values(1)), [5, 6]);
    index.remove(1, 5);
    index.remove(1, 9);
    index.remove(3, 5);
    assert_eq!(sorted(index.values(1)), [6]);
    assert_eq!(sorted(index.values(2)), [5]);
    assert_eq!(sorted(index.values(3)), []);
}
