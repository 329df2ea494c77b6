use clever_todo::address::{
    bump, derive_profile_address, derive_task_address, identity_seed_bytes, record_tag_byte,
    RecordTag,
};
use clever_todo::states::Identity;
use solana_pubkey::Pubkey;

fn owner() -> Identity {
    Identity { w0: 0x1122334455667788, w1: 9, w2: 10, w3: 11 }
}

fn program_id() -> [u8; 32] {
    [7u8; 32]
}

#[test]
fn profile_address_is_deterministic() {
    let first = derive_profile_address(&owner(), &program_id()).unwrap();
    let second = derive_profile_address(&owner(), &program_id()).unwrap();
    assert_eq!(first.bytes, second.bytes);
    assert_eq!(first.bump, second.bump);
}

#[test]
fn profile_address_matches_backend_search() {
    let derived = derive_profile_address(&owner(), &program_id()).unwrap();
    let owner_seed = identity_seed_bytes(&owner());
    let tag = [record_tag_byte(RecordTag::Profile)];
    let (expected, expected_bump) = Pubkey::find_program_address(
        &[&tag, owner_seed.as_slice()],
        &Pubkey::new_from_array(program_id()),
    );
    assert_eq!(derived.bytes, expected.to_bytes().to_vec());
    assert_eq!(derived.bump, expected_bump);
}

#[test]
fn task_address_matches_backend_search() {
    let derived = derive_task_address(&owner(), 5, &program_id()).unwrap();
    let owner_seed = identity_seed_bytes(&owner());
    let tag = [record_tag_byte(RecordTag::Task)];
    let (expected, expected_bump) = Pubkey::find_program_address(
        &[&tag, owner_seed.as_slice(), &[5u8]],
        &Pubkey::new_from_array(program_id()),
    );
    assert_eq!(derived.bytes, expected.to_bytes().to_vec());
    assert_eq!(derived.bump, expected_bump);
}

#[test]
fn task_addresses_differ_across_indices() {
    let at_zero = derive_task_address(&owner(), 0, &program_id()).unwrap();
    let at_one = derive_task_address(&owner(), 1, &program_id()).unwrap();
    assert_ne!(at_zero.bytes, at_one.bytes);
}

#[test]
fn profile_and_task_addresses_differ() {
    let profile = derive_profile_address(&owner(), &program_id()).unwrap();
    let task = derive_task_address(&owner(), 0, &program_id()).unwrap();
    assert_ne!(profile.bytes, task.bytes);
}

#[test]
fn bump_agrees_with_backend_search() {
    let owner_seed = identity_seed_bytes(&owner());
    let tag = vec![record_tag_byte(RecordTag::Profile)];
    let found = bump(vec![tag.clone(), owner_seed.clone()], &program_id()).unwrap();
    let (_, expected_bump) = Pubkey::find_program_address(
        &[tag.as_slice(), owner_seed.as_slice()],
        &Pubkey::new_from_array(program_id()),
    );
    assert_eq!(found, expected_bump);
}

#[test]
fn identity_seed_is_little_endian_words() {
    let seed = identity_seed_bytes(&owner());
    assert_eq!(seed.len(), 32);
    assert_eq!(&seed[0..8], &[0x88, 0x77, 0x66, 0x55, 0x44, 0x33, 0x22, 0x11]);
    assert_eq!(seed[8], 9);
    assert_eq!(seed[16], 10);
    assert_eq!(seed[24], 11);
}
