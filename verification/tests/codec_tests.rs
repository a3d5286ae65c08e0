use fee_scheduler::codec::ContainerParams;
use fee_scheduler::errors::Error;
use fee_scheduler::identity::Identity;

#[test]
fn test_params_decode() {
    let request_params_string = format!(
        "PID={},MAX_VALUE={},GLOBAL={},MINT={},",
        anchor_spl::token::ID,
        255,
        anchor_spl::token::ID,
        anchor_spl::token::ID
    );
    let request_params_bytes = request_params_string.into_bytes();

    let params = ContainerParams::decode(&request_params_bytes).unwrap();

    assert_eq!(params.program_id.bytes, anchor_spl::token::ID.to_bytes());
    assert_eq!(params.max_value, 255);
    assert_eq!(params.global.bytes, anchor_spl::token::ID.to_bytes());
    assert_eq!(params.mint.bytes, anchor_spl::token::ID.to_bytes());
}

fn some_params() -> ContainerParams {
    ContainerParams {
        program_id: Identity { bytes: anchor_spl::token::ID.to_bytes() },
        max_value: 254,
        global: Identity { bytes: [7u8; 32] },
        mint: Identity { bytes: anchor_spl::token_2022::ID.to_bytes() },
    }
}

#[test]
fn encode_then_decode_returns_the_same_parameters() {
    let p = some_params();
    let wire = fee_scheduler::codec::encode(&p);
    let back = ContainerParams::decode(&wire).unwrap();
    assert_eq!(back.program_id.bytes, p.program_id.bytes);
    assert_eq!(back.max_value, p.max_value);
    assert_eq!(back.global.bytes, p.global.bytes);
    assert_eq!(back.mint.bytes, p.mint.bytes);
}

#[test]
fn encode_produces_the_exact_wire_text() {
    let p = some_params();
    let wire = fee_scheduler::codec::encode(&p);
    let expected = format!(
        "PID={},MAX_VALUE=254,GLOBAL={},MINT={},",
        anchor_spl::token::ID,
        anchor_lang::prelude::Pubkey::new_from_array([7u8; 32]),
        anchor_spl::token_2022::ID
    );
    assert_eq!(wire, expected.into_bytes());
}

#[test]
fn decode_rejects_a_zero_max_value() {
    let mut p = some_params();
    p.max_value = 0;
    let wire = fee_scheduler::codec::encode(&p);
    assert_eq!(ContainerParams::decode(&wire).unwrap_err(), Error::ArgParseFail);
}

#[test]
fn decode_rejects_a_zero_identity() {
    let mut p = some_params();
    p.program_id = Identity { bytes: [0u8; 32] };
    let wire = fee_scheduler::codec::encode(&p);
    assert_eq!(ContainerParams::decode(&wire).unwrap_err(), Error::ArgParseFail);

    let mut q = some_params();
    q.mint = Identity { bytes: [0u8; 32] };
    let wire = fee_scheduler::codec::encode(&q);
    assert_eq!(ContainerParams::decode(&wire).unwrap_err(), Error::ArgParseFail);
}

#[test]
fn decode_rejects_bytes_that_are_not_utf8() {
    let wire = vec![0xff, 0xfe, 0x50, 0x49, 0x44];
    assert_eq!(ContainerParams::decode(&wire).unwrap_err(), Error::ArgParseFail);
}

#[test]
fn decode_rejects_an_unparsable_recognized_value() {
    let wire = b"PID=notbase58!,MAX_VALUE=5,GLOBAL=x,MINT=x,".to_vec();
    assert_eq!(ContainerParams::decode(&wire).unwrap_err(), Error::ArgParseFail);

    let p = some_params();
    let mut text = String::from_utf8(fee_scheduler::codec::encode(&p)).unwrap();
    text.push_str("MAX_VALUE=256,");
    assert_eq!(
        ContainerParams::decode(&text.into_bytes()).unwrap_err(),
        Error::ArgParseFail
    );
}

#[test]
fn decode_ignores_unknown_keys_and_bare_segments() {
    let p = some_params();
    let mut text = String::from_utf8(fee_scheduler::codec::encode(&p)).unwrap();
    text.push_str("SOMETHING=else,noequals,");
    let back = ContainerParams::decode(&text.into_bytes()).unwrap();
    assert_eq!(back.max_value, 254);
    assert_eq!(back.global.bytes, [7u8; 32]);
}

#[test]
fn decode_lets_a_later_pair_overwrite_an_earlier_one() {
    let p = some_params();
    let mut text = String::from_utf8(fee_scheduler::codec::encode(&p)).unwrap();
    text.push_str("MAX_VALUE=9,");
    let back = ContainerParams::decode(&text.into_bytes()).unwrap();
    assert_eq!(back.max_value, 9);
}

#[test]
fn decode_defaults_max_value_to_255_when_absent() {
    let text = format!(
        "PID={},GLOBAL={},MINT={},",
        anchor_spl::token::ID,
        anchor_spl::token::ID,
        anchor_spl::token::ID
    );
    let back = ContainerParams::decode(&text.into_bytes()).unwrap();
    assert_eq!(back.max_value, 255);
}
