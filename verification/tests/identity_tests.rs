use anchor_lang::prelude::Pubkey;
use fee_scheduler::identity::{identity_eq, is_schedule_authority, schedule_authority, Identity};

#[test]
fn identity_equality_is_byte_for_byte() {
    let a = Identity { bytes: [9u8; 32] };
    let mut b = Identity { bytes: [9u8; 32] };
    assert!(identity_eq(&a, &b));
    b.bytes[31] = 8;
    assert!(!identity_eq(&a, &b));
}

#[test]
fn zero_identity_is_recognized() {
    assert!(Identity::zero().is_zero());
    assert!(!Identity { bytes: [1u8; 32] }.is_zero());
    let mut almost = Identity { bytes: [0u8; 32] };
    almost.bytes[0] = 1;
    assert!(!almost.is_zero());
}

#[test]
fn schedule_authority_matches_the_ledger_derivation() {
    let program = Pubkey::new_from_array([17u8; 32]);
    let (expected, expected_bump) = Pubkey::find_program_address(&[b"global"], &program);

    let program_id = Identity { bytes: program.to_bytes() };
    let (derived, bump) = schedule_authority(&program_id).unwrap();
    assert_eq!(derived.bytes, expected.to_bytes());
    assert_eq!(bump, expected_bump);

    assert!(is_schedule_authority(&derived, &program_id));
    assert!(!is_schedule_authority(&Identity { bytes: [1u8; 32] }, &program_id));
    // The authority is program-specific: another program derives another one.
    let other = Identity { bytes: [18u8; 32] };
    assert!(!is_schedule_authority(&derived, &other));
}
