use kitties::dna::{blend_dna, combine_dna};
use kitties::kitties::Module;
use kitties::mock::{events, new_test_ext, run_to_block, Test};
use kitties::randomness::random_bytes;
use kitties::types::{AccountData, Config, Error, Event, Kitty, Trait};

fn config(unit: u32, max: u32, deposit: u64) -> Config {
    Config { kitty_index_unit: unit, kitty_index_max_value: max, existential_deposit: deposit }
}

fn sorted(mut v: Vec<u32>) -> Vec<u32> {
    v.sort();
    v
}

#[test]
fn combine_dna_takes_each_bit_from_the_selected_parent() {
    assert_eq!(combine_dna(0b1111_0000, 0b0000_1111, 0b1010_1010), 0b1010_0101);
    assert_eq!(combine_dna(0xAB, 0xCD, 0xFF), 0xAB);
    assert_eq!(combine_dna(0xAB, 0xCD, 0x00), 0xCD);
    assert_eq!(combine_dna(0x12, 0x12, 0x5A), 0x12);
    assert_eq!(combine_dna(200, 100, 0x0F), (200 & 0x0F) | (100 & 0xF0));
}

#[test]
fn blend_dna_blends_byte_by_byte() {
    let mut matron = [0u8; 16];
    let mut sire = [0u8; 16];
    let mut selector = [0u8; 16];
    for i in 0..16 {
        matron[i] = 0xF0 + i as u8;
        sire[i] = 0x0F - i as u8;
        selector[i] = if i % 2 == 0 { 0xFF } else { 0x0F };
    }
    let child = blend_dna(&matron, &sire, &selector);
    for i in 0..16 {
        let expected = if i % 2 == 0 { matron[i] } else { (matron[i] & 0x0F) | (sire[i] & 0xF0) };
        assert_eq!(child[i], expected);
    }
    assert_eq!(child[0], 0xF0);
    assert_eq!(child[1], 0x01);
}

#[test]
fn random_bytes_are_the_hash_of_seed_sender_and_position() {
    assert_eq!(
        random_bytes(&[0u8; 32], 1, None),
        [94, 85, 93, 3, 146, 178, 228, 254, 65, 171, 235, 35, 69, 153, 176, 209]
    );
    assert_eq!(
        random_bytes(&[0u8; 32], 2, None),
        [94, 203, 227, 59, 39, 59, 13, 117, 71, 134, 180, 35, 102, 126, 26, 39]
    );
    let mut seed = [0u8; 32];
    for i in 0..32 {
        seed[i] = i as u8;
    }
    assert_eq!(
        random_bytes(&seed, 0x0102030405060708, Some(0x0a0b0c0d)),
        [246, 252, 23, 217, 224, 67, 72, 58, 183, 44, 211, 107, 73, 3, 188, 197]
    );
}

#[test]
fn random_value_reads_the_context_of_the_engine() {
    let mut ext = new_test_ext();
    assert_eq!(
        ext.random_value(&1),
        [94, 85, 93, 3, 146, 178, 228, 254, 65, 171, 235, 35, 69, 153, 176, 209]
    );
    let mut seed = [0u8; 32];
    for i in 0..32 {
        seed[i] = i as u8;
    }
    ext.set_random_seed(seed);
    ext.set_extrinsic_index(Some(0x0a0b0c0d));
    assert_eq!(ext.extrinsic_index(), Some(0x0a0b0c0d));
    assert_eq!(
        ext.random_value(&0x0102030405060708),
        [246, 252, 23, 217, 224, 67, 72, 58, 183, 44, 211, 107, 73, 3, 188, 197]
    );
}

#[test]
fn create_draws_the_genome_from_the_context() {
    let mut ext = new_test_ext();
    assert_eq!(ext.create(1, 10, 10), Ok(()));
    assert_eq!(ext.create(2, 10, 10), Ok(()));
    assert_eq!(
        ext.kitties(0).unwrap().dna,
        [94, 85, 93, 3, 146, 178, 228, 254, 65, 171, 235, 35, 69, 153, 176, 209]
    );
    assert_eq!(
        ext.kitties(1).unwrap().dna,
        [94, 203, 227, 59, 39, 59, 13, 117, 71, 134, 180, 35, 102, 126, 26, 39]
    );
}

#[test]
fn breed_blends_the_parents_under_the_drawn_selector() {
    let mut ext = new_test_ext();
    let matron = [0xAAu8; 16];
    let sire = [0x55u8; 16];
    assert_eq!(ext.create_with_dna(1, 10, 10, matron), Ok(()));
    assert_eq!(ext.create_with_dna(1, 10, 10, sire), Ok(()));
    assert_eq!(ext.breed(2, 0, 1, 10, 10), Ok(()));
    let selector = ext.random_value(&2);
    let child = ext.kitties(2).unwrap();
    for i in 0..16 {
        assert_eq!(child.dna[i], (selector[i] & 0xAA) | (!selector[i] & 0x55));
    }
    assert_eq!(child.dna[0], (94 & 0xAA) | (!94u8 & 0x55));
}

#[test]
fn breed_with_selector_gives_the_exact_child() {
    let mut ext = new_test_ext();
    assert_eq!(ext.create_with_dna(1, 10, 10, [0xF0; 16]), Ok(()));
    assert_eq!(ext.create_with_dna(1, 10, 10, [0x0F; 16]), Ok(()));
    assert_eq!(ext.breed_with_selector(3, 0, 1, 7, 11, [0b1010_1010; 16]), Ok(()));
    assert_eq!(
        ext.kitties(2),
        Some(Kitty { dna: [0b1010_0101; 16], matron_id: Some(0), sire_id: Some(1), generation: 1 })
    );
    assert_eq!(ext.kitty_owner(2), Some(3));
    assert_eq!(ext.account(3), Some(AccountData { free: 7, reserved: 11 }));
    assert_eq!(sorted(ext.kitties_generation(0)), [2]);
    assert_eq!(sorted(ext.kitties_generation(1)), [2]);
    assert_eq!(sorted(ext.kitties_generation(2)), []);
    assert_eq!(ext.events().last(), Some(&Event::Created(3, 2, 7, 11)));
}

#[test]
fn first_kitty_is_a_founder_of_its_creator() {
    let mut ext = new_test_ext();
    assert_eq!(ext.create(1, 10, 10), Ok(()));
    assert_eq!(ext.kitties_count(), 1);
    assert_eq!(ext.kitties(0).unwrap().generation, 0);
    assert_eq!(ext.kitty_owner(0), Some(1));
    assert_eq!(ext.account(1), Some(AccountData { free: 10, reserved: 10 }));
}

#[test]
fn bred_kitty_belongs_to_the_breeder() {
    let mut ext = new_test_ext();
    assert_eq!(ext.create(1, 10, 10), Ok(()));
    assert_eq!(ext.create(1, 9, 12), Ok(()));
    assert_eq!(ext.breed(2, 0, 1, 8, 15), Ok(()));
    assert_eq!(ext.kitties_count(), 3);
    let child = ext.kitties(2).unwrap();
    assert_eq!(child.generation, 1);
    assert_eq!(child.matron_id, Some(0));
    assert_eq!(child.sire_id, Some(1));
    assert_eq!(ext.kitty_owner(2), Some(2));
    assert_eq!(ext.kitty_owner(0), Some(1));
    assert_eq!(ext.kitty_owner(1), Some(1));
    assert_eq!(ext.account(1), Some(AccountData { free: 9, reserved: 12 }));
    assert_eq!(ext.account(2), Some(AccountData { free: 8, reserved: 15 }));
}

#[test]
fn transfer_moves_the_kitty_and_exactly_the_value() {
    let mut ext = new_test_ext();
    assert_eq!(ext.create(1, 10, 11), Ok(()));
    assert_eq!(ext.transfer(1, 2, 0, 10), Ok(()));
    assert_eq!(ext.kitty_owner(0), Some(2));
    assert_eq!(ext.account(1), Some(AccountData { free: 10, reserved: 1 }));
    assert_eq!(ext.account(2), Some(AccountData { free: 0, reserved: 10 }));
    assert_eq!(sorted(ext.owner_kitties(1)), []);
    assert_eq!(sorted(ext.owner_kitties(2)), [0]);
}

#[test]
fn transfer_adds_to_a_receiver_that_has_a_record() {
    let mut ext = new_test_ext();
    assert_eq!(ext.create(1, 10, 30), Ok(()));
    assert_eq!(ext.create(2, 5, 40), Ok(()));
    assert_eq!(ext.transfer(1, 2, 0, 12), Ok(()));
    assert_eq!(ext.account(1), Some(AccountData { free: 10, reserved: 18 }));
    assert_eq!(ext.account(2), Some(AccountData { free: 5, reserved: 52 }));
    assert_eq!(ext.account(1).unwrap().reserved + ext.account(2).unwrap().reserved, 70);
    assert_eq!(sorted(ext.owner_kitties(2)), [0, 1]);
}

#[test]
fn transfer_to_oneself_is_refused_and_changes_nothing() {
    let mut ext = new_test_ext();
    assert_eq!(ext.create(1, 10, 10), Ok(()));
    assert_eq!(ext.transfer(1, 1, 0, 10), Err(Error::TransferSelf));
    assert_eq!(ext.kitty_owner(0), Some(1));
    assert_eq!(ext.account(1), Some(AccountData { free: 10, reserved: 10 }));
    assert_eq!(ext.events(), [Event::Created(1, 0, 10, 10)]);
}

#[test]
fn breeding_a_kitty_with_itself_is_refused() {
    let mut ext = new_test_ext();
    assert_eq!(ext.create(1, 10, 10), Ok(()));
    assert_eq!(ext.breed(1, 0, 0, 10, 10), Err(Error::RequireDifferentParents));
    assert_eq!(ext.kitties_count(), 1);
}

#[test]
fn refusals_come_in_a_fixed_order() {
    let mut full = Module::new(config(1, 0, 10));
    assert_eq!(full.create(1, 10, 9), Err(Error::NotEnoughDeposit));
    assert_eq!(full.create(1, 10, 10), Err(Error::KittiesCountOverflow));

    let mut ext = Module::new(config(1, 2, 10));
    assert_eq!(ext.create(1, 10, 10), Ok(()));
    assert_eq!(ext.breed(1, 0, 0, 10, 9), Err(Error::RequireDifferentParents));
    assert_eq!(ext.breed(1, 0, 5, 10, 9), Err(Error::NotEnoughDeposit));
    assert_eq!(ext.breed(1, 5, 6, 10, 10), Err(Error::InvalidMatronId));
    assert_eq!(ext.breed(1, 0, 6, 10, 10), Err(Error::InvalidSireId));
    assert_eq!(ext.create(1, 10, 10), Ok(()));
    assert_eq!(ext.breed(1, 0, 7, 10, 10), Err(Error::InvalidSireId));
    assert_eq!(ext.breed(1, 0, 1, 10, 10), Err(Error::KittiesCountOverflow));

    assert_eq!(ext.transfer(1, 1, 9, 1), Err(Error::TransferSelf));
    assert_eq!(ext.transfer(3, 1, 9, 1), Err(Error::NotEnoughTransferDeposit));
    assert_eq!(ext.transfer(3, 1, 9, 10), Err(Error::InvalidAccount));
    ext.deposit(&3, 0, 9);
    assert_eq!(ext.transfer(3, 1, 9, 10), Err(Error::NotEnoughReservedDeposit));
    ext.deposit(&3, 0, 10);
    assert_eq!(ext.transfer(3, 1, 9, 11), Err(Error::NotEnoughForTransfer));
    assert_eq!(ext.transfer(3, 1, 9, 10), Err(Error::InvalidKittyId));
    assert_eq!(ext.transfer(3, 1, 0, 10), Err(Error::NotKittiesOwner));
}

#[test]
fn do_breed_asks_neither_for_a_deposit_nor_for_ownership() {
    let mut ext = new_test_ext();
    assert_eq!(ext.create(1, 10, 10), Ok(()));
    assert_eq!(ext.create(2, 10, 10), Ok(()));
    assert_eq!(ext.do_breed(&7, 1, 1, [0; 16]), Err(Error::RequireDifferentParents));
    assert_eq!(ext.do_breed(&7, 4, 1, [0; 16]), Err(Error::InvalidMatronId));
    assert_eq!(ext.do_breed(&7, 1, 4, [0; 16]), Err(Error::InvalidSireId));
    assert_eq!(ext.do_breed(&7, 0, 1, [0; 16]), Ok(2));
    assert_eq!(ext.kitty_owner(2), Some(7));
    assert_eq!(ext.account(7), None);
    assert_eq!(ext.kitties(2).unwrap().dna, ext.kitties(1).unwrap().dna);
    assert_eq!(ext.events().len(), 2);
}

#[test]
fn count_grows_by_one_unit_for_each_kitty_and_never_otherwise() {
    let mut ext = Module::new(config(3, 9, 10));
    assert_eq!(ext.kitties_count(), 0);
    assert_eq!(ext.next_kitty_id(), Ok(0));
    assert_eq!(ext.create(1, 10, 10), Ok(()));
    assert_eq!(ext.kitties_count(), 3);
    assert_eq!(ext.create(1, 10, 9), Err(Error::NotEnoughDeposit));
    assert_eq!(ext.kitties_count(), 3);
    assert_eq!(ext.create(1, 10, 10), Ok(()));
    assert_eq!(ext.kitties_count(), 6);
    assert_eq!(ext.transfer(1, 2, 0, 10), Ok(()));
    assert_eq!(ext.kitties_count(), 6);
    assert_eq!(ext.breed(2, 0, 3, 10, 10), Ok(()));
    assert_eq!(ext.kitties_count(), 9);
    assert_eq!(ext.next_kitty_id(), Err(Error::KittiesCountOverflow));
    assert_eq!(ext.breed(2, 0, 3, 10, 10), Err(Error::KittiesCountOverflow));
    assert_eq!(ext.kitties_count(), 9);
    assert!(ext.kitties(0).is_some());
    assert!(ext.kitties(1).is_none());
    assert!(ext.kitties(2).is_none());
    assert!(ext.kitties(3).is_some());
    assert_eq!(ext.kitties(6).unwrap().matron_id, Some(0));
    assert_eq!(ext.kitties(6).unwrap().sire_id, Some(3));
    assert!(ext.kitties(9).is_none());
}

#[test]
fn a_kitty_exists_exactly_below_the_count() {
    let mut ext = new_test_ext();
    for _ in 0..5 {
        assert_eq!(ext.create(1, 10, 10), Ok(()));
    }
    assert_eq!(ext.breed(1, 3, 4, 10, 10), Ok(()));
    let count = ext.kitties_count();
    assert_eq!(count, 6);
    for id in 0..20 {
        assert_eq!(ext.kitties(id).is_some(), id < count);
        assert_eq!(ext.kitty_owner(id).is_some(), id < count);
        if let Some(kitty) = ext.kitties(id) {
            assert_eq!(kitty.generation == 0, kitty.matron_id.is_none() && kitty.sire_id.is_none());
        }
    }
}

#[test]
fn a_child_stands_under_both_parents_and_under_no_other() {
    let mut ext = new_test_ext();
    for _ in 0..4 {
        assert_eq!(ext.create(1, 10, 10), Ok(()));
    }
    assert_eq!(ext.breed(1, 0, 1, 10, 10), Ok(()));
    assert_eq!(ext.breed(1, 4, 2, 10, 10), Ok(()));
    for parent in 0..8 {
        let children = ext.kitties_generation(parent);
        for child in 0..8 {
            let kitty = ext.kitties(child);
            let named = match kitty {
                Some(kitty) => kitty.matron_id == Some(parent) || kitty.sire_id == Some(parent),
                None => false,
            };
            assert_eq!(children.contains(&child), named);
        }
    }
    assert_eq!(sorted(ext.kitties_generation(4)), [5]);
    assert_eq!(sorted(ext.kitties_generation(2)), [5]);
    assert_eq!(sorted(ext.kitties_generation(3)), []);
    assert_eq!(ext.kitties(5).unwrap().generation, 1);
}

#[test]
fn owned_sets_match_the_owners() {
    let mut ext = new_test_ext();
    assert_eq!(ext.create(1, 10, 30), Ok(()));
    assert_eq!(ext.create(2, 10, 30), Ok(()));
    assert_eq!(ext.create(1, 10, 30), Ok(()));
    assert_eq!(ext.breed(3, 0, 1, 10, 30), Ok(()));
    assert_eq!(ext.transfer(1, 3, 2, 10), Ok(()));
    assert_eq!(ext.transfer(3, 2, 3, 10), Ok(()));
    for who in 0..5u64 {
        let owned = ext.owner_kitties(who);
        for id in 0..6u32 {
            assert_eq!(owned.contains(&id), ext.kitty_owner(id) == Some(who));
        }
    }
    assert_eq!(sorted(ext.owner_kitties(1)), [0]);
    assert_eq!(sorted(ext.owner_kitties(2)), [1, 3]);
    assert_eq!(sorted(ext.owner_kitties(3)), [2]);
}

#[test]
fn a_deposit_is_overwritten_and_not_added_to() {
    let mut ext = new_test_ext();
    assert_eq!(ext.create(1, 10, 100), Ok(()));
    assert_eq!(ext.create(1, 3, 20), Ok(()));
    assert_eq!(ext.account(1), Some(AccountData { free: 3, reserved: 20 }));
    ext.deposit(&1, 0, 0);
    assert_eq!(ext.account(1), Some(AccountData { free: 0, reserved: 0 }));
    assert_eq!(ext.account(9), None);
}

#[test]
fn generation_follows_the_sire_alone() {
    let mut ext = new_test_ext();
    assert_eq!(ext.create(1, 10, 10), Ok(()));
    assert_eq!(ext.create(1, 10, 10), Ok(()));
    assert_eq!(ext.breed(1, 0, 1, 10, 10), Ok(()));
    assert_eq!(ext.breed(1, 0, 2, 10, 10), Ok(()));
    assert_eq!(ext.breed(1, 3, 0, 10, 10), Ok(()));
    assert_eq!(ext.kitties(3).unwrap().generation, 2);
    assert_eq!(ext.kitties(4).unwrap().generation, 1);
}

#[test]
fn run_to_block_never_goes_back() {
    let mut ext = new_test_ext();
    assert_eq!(ext.block_number(), 0);
    run_to_block(&mut ext, 10);
    assert_eq!(ext.block_number(), 10);
    run_to_block(&mut ext, 4);
    assert_eq!(ext.block_number(), 10);
    ext.set_block_number(3);
    run_to_block(&mut ext, 5);
    assert_eq!(ext.block_number(), 5);
    assert_eq!(ext.kitties_count(), 0);
}

#[test]
fn events_are_taken_once() {
    let mut ext = new_test_ext();
    assert_eq!(ext.create(1, 10, 10), Ok(()));
    ext.deposit_event(Event::Transferred(4, 5, 6, 7));
    assert_eq!(events(&mut ext), [Event::Created(1, 0, 10, 10), Event::Transferred(4, 5, 6, 7)]);
    assert_eq!(events(&mut ext), []);
    assert_eq!(ext.kitties_count(), 1);
}

#[test]
fn test_runtime_supplies_the_constants() {
    assert_eq!(Test::kitty_index_unit(), 1);
    assert_eq!(Test::kitty_index_max_value(), u32::MAX);
    assert_eq!(Test::existential_deposit(), 10);
    assert_eq!(Config::of::<Test>(), config(1, u32::MAX, 10));
    assert_eq!(new_test_ext().config(), config(1, u32::MAX, 10));
}

#[test]
fn configuration_is_usable_where_the_maximum_lies_on_a_step() {
    assert!(config(1, u32::MAX, 10).is_valid());
    assert!(config(1, 0, 0).is_valid());
    assert!(config(3, 9, 10).is_valid());
    assert!(config(5, u32::MAX, 10).is_valid());
    assert!(!config(0, 10, 10).is_valid());
    assert!(!config(2, u32::MAX, 10).is_valid());
    assert!(!config(4, 10, 10).is_valid());
}

#[test]
fn restore_rebuilds_an_engine_from_what_was_saved() {
    let mut ext = new_test_ext();
    assert_eq!(ext.create_with_dna(1, 10, 30, [1; 16]), Ok(()));
    assert_eq!(ext.create_with_dna(2, 10, 30, [2; 16]), Ok(()));
    assert_eq!(ext.breed_with_selector(3, 0, 1, 10, 30, [0x0F; 16]), Ok(()));
    assert_eq!(ext.transfer(1, 2, 0, 10), Ok(()));

    let saved: Vec<(Kitty, u64)> = ext.saved_kitties();
    assert_eq!(
        saved,
        (0..3).map(|id| (ext.kitties(id).unwrap(), ext.kitty_owner(id).unwrap())).collect::<Vec<_>>()
    );
    let deposits: Vec<(u64, AccountData)> =
        (1..4u64).map(|who| (who, ext.account(who).unwrap())).collect();
    let back = Module::restore(ext.config(), &saved, &deposits).unwrap();
    assert_eq!(back.kitties_count(), 3);
    for id in 0..5 {
        assert_eq!(back.kitties(id), ext.kitties(id));
        assert_eq!(back.kitty_owner(id), ext.kitty_owner(id));
        assert_eq!(sorted(back.kitties_generation(id)), sorted(ext.kitties_generation(id)));
    }
    for who in 0..5 {
        assert_eq!(back.account(who), ext.account(who));
        assert_eq!(sorted(back.owner_kitties(who)), sorted(ext.owner_kitties(who)));
    }
    assert_eq!(back.events(), []);
    assert_eq!(back.block_number(), 0);
}

#[test]
fn saved_kitties_follow_the_steps_of_the_count() {
    let mut ext = Module::new(config(4, 12, 10));
    assert_eq!(ext.saved_kitties(), []);
    assert_eq!(ext.create_with_dna(1, 10, 10, [1; 16]), Ok(()));
    assert_eq!(ext.create_with_dna(2, 10, 10, [2; 16]), Ok(()));
    assert_eq!(ext.breed_with_selector(3, 4, 0, 10, 10, [0xFF; 16]), Ok(()));
    let saved = ext.saved_kitties();
    assert_eq!(
        saved,
        [
            (Kitty { dna: [1; 16], matron_id: None, sire_id: None, generation: 0 }, 1),
            (Kitty { dna: [2; 16], matron_id: None, sire_id: None, generation: 0 }, 2),
            (Kitty { dna: [2; 16], matron_id: Some(4), sire_id: Some(0), generation: 1 }, 3),
        ]
    );
    let back = Module::restore(ext.config(), &saved, &vec![]).unwrap();
    assert_eq!(back.kitties_count(), 12);
    assert_eq!(back.kitties(8), ext.kitties(8));
    assert_eq!(back.kitties(2), None);
    assert_eq!(back.kitty_owner(8), Some(3));
}

#[test]
fn check_transfer_says_what_transfer_will_say() {
    let mut ext = new_test_ext();
    assert_eq!(ext.create(1, 10, 10), Ok(()));
    assert_eq!(ext.check_transfer(1, 1, 0, 10), Err(Error::TransferSelf));
    assert_eq!(ext.check_transfer(1, 2, 0, 9), Err(Error::NotEnoughTransferDeposit));
    assert_eq!(ext.check_transfer(2, 1, 0, 10), Err(Error::InvalidAccount));
    assert_eq!(ext.check_transfer(1, 2, 0, 11), Err(Error::NotEnoughForTransfer));
    assert_eq!(ext.check_transfer(1, 2, 1, 10), Err(Error::InvalidKittyId));
    assert_eq!(ext.check_transfer(1, 2, 0, 10), Ok(()));
    assert_eq!(ext.kitty_owner(0), Some(1));
    assert_eq!(ext.events().len(), 1);
    assert_eq!(ext.transfer(1, 2, 0, 10), Ok(()));
    assert_eq!(ext.check_transfer(1, 2, 0, 10), Err(Error::NotEnoughReservedDeposit));
    ext.deposit(&1, 0, 10);
    assert_eq!(ext.check_transfer(1, 2, 0, 10), Err(Error::NotKittiesOwner));
}

#[test]
fn can_receive_up_to_the_largest_balance() {
    let mut ext = new_test_ext();
    assert!(ext.can_receive(5, u64::MAX));
    ext.deposit(&5, 0, 1);
    assert!(ext.can_receive(5, u64::MAX - 1));
    assert!(!ext.can_receive(5, u64::MAX));
    ext.deposit(&5, u64::MAX, 0);
    assert!(ext.can_receive(5, u64::MAX));
    ext.deposit(&1, 0, u64::MAX);
    assert_eq!(ext.create(1, 0, u64::MAX), Ok(()));
    assert_eq!(ext.transfer(1, 5, 0, u64::MAX), Ok(()));
    assert_eq!(ext.account(5), Some(AccountData { free: u64::MAX, reserved: u64::MAX }));
    assert_eq!(ext.account(1), Some(AccountData { free: 0, reserved: 0 }));
}

#[test]
fn restore_refuses_what_no_engine_could_hold() {
    let founder = Kitty { dna: [1; 16], matron_id: None, sire_id: None, generation: 0 };
    let child = Kitty { dna: [1; 16], matron_id: Some(0), sire_id: Some(1), generation: 1 };
    let good = config(1, 3, 10);
    assert!(Module::restore(good, &vec![], &vec![]).is_some());
    assert!(Module::restore(good, &vec![(founder, 1), (founder, 1), (child, 2)], &vec![]).is_some());
    assert!(Module::restore(config(0, 3, 10), &vec![], &vec![]).is_none());
    assert!(Module::restore(config(2, 3, 10), &vec![], &vec![]).is_none());
    // more kitties than the maximum admits
    assert!(Module::restore(good, &vec![(founder, 1); 4], &vec![]).is_none());
    // a parent that comes later
    assert!(Module::restore(good, &vec![(founder, 1), (child, 2), (founder, 1)], &vec![]).is_none());
    // a founder with a generation, a child without one, one parent only, the same parent twice
    let aged = Kitty { generation: 1, ..founder };
    let young = Kitty { generation: 0, ..child };
    let half = Kitty { sire_id: None, ..child };
    let twice = Kitty { sire_id: Some(0), ..child };
    let late = Kitty { generation: 2, ..child };
    for bad in [aged, young, half, twice, late] {
        assert!(Module::restore(good, &vec![(founder, 1), (founder, 1), (bad, 2)], &vec![]).is_none());
    }
}
