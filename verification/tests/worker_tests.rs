use anchor_lang::prelude::Pubkey;
use fee_scheduler::codec::ContainerParams;
use fee_scheduler::identity::Identity;
use fee_scheduler::utf8::utf8_validate;
use fee_scheduler::worker::{
    build_callback, callback_data, sb_function, WorkerContext, ASSOCIATED_TOKEN_PROGRAM_ID,
    NATIVE_MINT_ID, SYSTEM_PROGRAM_ID, TOKEN_2022_PROGRAM_ID, TOKEN_PROGRAM_ID,
};

fn id(tag: u8) -> Identity {
    Identity { bytes: [tag; 32] }
}

fn ctx() -> WorkerContext {
    WorkerContext {
        signer: id(11),
        switchboard: id(12),
        switchboard_state: id(5),
        attestation_queue: id(6),
        function: id(4),
        request: id(7),
        escrow: id(13),
    }
}

#[test]
fn callback_data_carries_the_operation_tag_and_the_result() {
    let data = callback_data(7);
    assert_eq!(data.len(), 12);
    // SHA-256("global:trigger_update"), first eight bytes.
    assert_eq!(&data[..8], &[178, 113, 27, 225, 161, 185, 201, 106]);
    assert_eq!(&data[8..], &[7, 0, 0, 0]);
    assert_eq!(&callback_data(253)[8..], &[253, 0, 0, 0]);
}

#[test]
fn callback_accounts_come_in_the_validated_order() {
    let params = ContainerParams {
        program_id: id(1),
        max_value: 254,
        global: id(2),
        mint: id(3),
    };
    let ix = build_callback(&params, &ctx(), 7);
    assert_eq!(ix.program_id.bytes, [1u8; 32]);
    assert_eq!(ix.accounts.len(), 14);
    let ids: Vec<[u8; 32]> = ix.accounts.iter().map(|a| a.id.bytes).collect();
    assert_eq!(
        ids,
        vec![
            [2u8; 32],
            [3u8; 32],
            [11u8; 32],
            [12u8; 32],
            [5u8; 32],
            [6u8; 32],
            [4u8; 32],
            [7u8; 32],
            [13u8; 32],
            NATIVE_MINT_ID,
            TOKEN_PROGRAM_ID,
            TOKEN_2022_PROGRAM_ID,
            ASSOCIATED_TOKEN_PROGRAM_ID,
            SYSTEM_PROGRAM_ID,
        ]
    );
    // The schedule record, the mint and the escrow are writable; only the
    // enclave key signs.
    let writable: Vec<bool> = ix.accounts.iter().map(|a| a.is_writable).collect();
    assert_eq!(
        writable,
        vec![
            true, true, false, false, false, false, false, false, true, false, false, false,
            false, false
        ]
    );
    let signer: Vec<bool> = ix.accounts.iter().map(|a| a.is_signer).collect();
    assert!(signer[2]);
    assert_eq!(signer.iter().filter(|s| **s).count(), 1);
}

#[test]
fn sb_function_services_a_request_end_to_end() {
    let params = ContainerParams {
        program_id: id(1),
        max_value: 200,
        global: id(2),
        mint: id(3),
    };
    let wire = fee_scheduler::codec::encode(&params);
    let ix = sb_function(&ctx(), &wire).unwrap();
    assert_eq!(ix.program_id.bytes, [1u8; 32]);
    assert_eq!(ix.data.len(), 12);
    let raw = ix.data[8];
    // The sampler's lower bound is fixed at 1.
    assert!((1..=200).contains(&raw));

    let bad = sb_function(&ctx(), &vec![0xff, 0x00]);
    assert_eq!(bad.unwrap_err(), fee_scheduler::errors::Error::ArgParseFail);
}

// A degenerate range needs no entropy, so servicing such a request is
// owed, not merely possible.
#[test]
fn degenerate_range_requests_are_always_serviced() {
    let params = ContainerParams {
        program_id: id(1),
        max_value: 1,
        global: id(2),
        mint: id(3),
    };
    let wire = fee_scheduler::codec::encode(&params);
    let ix = sb_function(&ctx(), &wire).unwrap();
    assert_eq!(&ix.data[8..], &[1, 0, 0, 0]);
}

#[test]
fn program_id_constants_match_their_base58_names() {
    assert_eq!(
        Pubkey::new_from_array(TOKEN_PROGRAM_ID).to_string(),
        "TokenkegQfeZyiNwAJbNbGKPFXCWuBvf9Ss623VQ5DA"
    );
    assert_eq!(
        Pubkey::new_from_array(TOKEN_2022_PROGRAM_ID).to_string(),
        "TokenzQdBNbLqP5VEhdkAS6EPFLC1PHnBqCXEpPxuEb"
    );
    assert_eq!(
        Pubkey::new_from_array(ASSOCIATED_TOKEN_PROGRAM_ID).to_string(),
        "ATokenGPvbdGVxr1b2hvZbsiqW5xWH25efTNsLJA8knL"
    );
    assert_eq!(
        Pubkey::new_from_array(NATIVE_MINT_ID).to_string(),
        "So11111111111111111111111111111111111111112"
    );
    assert_eq!(
        Pubkey::new_from_array(SYSTEM_PROGRAM_ID).to_string(),
        "11111111111111111111111111111111"
    );
}

// The text the codec emits and accepts is the platform's identity-string
// format: rendering goes through the library, parsing through the ledger
// SDK, and both meet on the same identity.
#[test]
fn wire_identities_are_canonical_base58() {
    let p = ContainerParams {
        program_id: Identity { bytes: [42u8; 32] },
        max_value: 7,
        global: Identity { bytes: [1u8; 32] },
        mint: Identity { bytes: [2u8; 32] },
    };
    let wire = fee_scheduler::codec::encode(&p);
    let text = String::from_utf8(wire.clone()).unwrap();
    let pid_field = text
        .split(',')
        .find(|s| s.starts_with("PID="))
        .unwrap()
        .trim_start_matches("PID=")
        .to_string();
    let parsed: Pubkey = pid_field.parse().unwrap();
    assert_eq!(parsed.to_bytes(), [42u8; 32]);

    // Parsing back through the library's decoder inverts the rendering.
    let back = ContainerParams::decode(&wire).unwrap();
    assert_eq!(back.program_id.bytes, [42u8; 32]);

    // Text that is not canonical base58 of 32 bytes is rejected.
    let bad = b"PID=abc,MAX_VALUE=7,GLOBAL=abc,MINT=abc,".to_vec();
    assert!(ContainerParams::decode(&bad).is_err());
}

#[test]
fn utf8_validation_agrees_with_the_standard_library() {
    let cases: Vec<Vec<u8>> = vec![
        b"plain ascii".to_vec(),
        "héllo wörld".as_bytes().to_vec(),
        "\u{10348} \u{2603}".as_bytes().to_vec(),
        vec![0xff],
        vec![0xc3],             // truncated two-byte sequence
        vec![0xc0, 0x80],       // overlong encoding
        vec![0xed, 0xa0, 0x80], // surrogate range
        vec![0xf4, 0x90, 0x80, 0x80], // beyond U+10FFFF
        vec![0x80],             // stray continuation byte
    ];
    for bytes in cases {
        assert_eq!(
            utf8_validate(&bytes),
            std::str::from_utf8(&bytes).is_ok(),
            "disagreement on {:?}",
            bytes
        );
    }
}
