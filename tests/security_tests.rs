use ledger_core::address::Address;
use ledger_core::error::{CommonError, CustomError};
use ledger_core::hashing::{
    create_account_identifier, create_hierarchical_seed, digests_match, generate_account_salt,
    generate_deterministic_seed, generate_temporal_seed, hash_account_data,
    verify_account_integrity,
};
use ledger_core::security::{
    count_distinct_bytes, create_account_security_token, create_security_token_with_clock, generate_security_token,
    validate_account_ownership_proof, validate_account_security_level,
    validate_deterministic_signature, verify_security_token, verify_security_token_at,
    verify_security_token_with_clock,
};

fn addr(b: u8) -> Address {
    Address::new([b; 32])
}

#[test]
fn keccak_of_empty_input() {
    let h = hash_account_data(&[]);
    let expected: [u8; 32] = [
        0xc5, 0xd2, 0x46, 0x01, 0x86, 0xf7, 0x23, 0x3c, 0x92, 0x7e, 0x7d, 0xb2, 0xdc, 0xc7, 0x03,
        0xc0, 0xe5, 0x00, 0xb6, 0x53, 0xca, 0x82, 0x27, 0x3b, 0x7b, 0xfa, 0xd8, 0x04, 0x5d, 0x85,
        0xa4, 0x70,
    ];
    assert_eq!(h, expected);
    let input = [9u8; 32];
    assert_ne!(hash_account_data(&input), input);
}

#[test]
fn integrity_and_identifiers() {
    let h = hash_account_data(b"data");
    assert_eq!(verify_account_integrity(b"data", &h), Ok(()));
    assert_eq!(verify_account_integrity(b"datb", &h), Err(CommonError::AccountValidationFailed));
    assert_eq!(digests_match(&[1u8; 32], &[1u8; 32]), Ok(()));
    assert_eq!(digests_match(&[1u8; 32], &[2u8; 32]), Err(CommonError::AccountValidationFailed));
    let mut joined = vec![5u8; 32];
    joined.extend_from_slice(b"seed");
    assert_eq!(create_account_identifier(&addr(5), b"seed"), hash_account_data(&joined));
    let mut salted = vec![5u8; 32];
    salted.extend_from_slice(&7u64.to_le_bytes());
    assert_eq!(generate_account_salt(&addr(5), 7), hash_account_data(&salted));
}

#[test]
fn seed_builders_layout() {
    let mut base = [0u8; 32];
    for (i, b) in base.iter_mut().enumerate() {
        *b = i as u8;
    }
    let base = Address::new(base);
    let seed = generate_deterministic_seed(&base, "traderlong", 0x01020304).unwrap();
    let mut expected: Vec<u8> = (0u8..16).collect();
    expected.extend_from_slice(b"traderlo");
    expected.extend_from_slice(&[4, 3, 2, 1]);
    assert_eq!(seed, expected);
    let a = generate_deterministic_seed(&base, "traderlongA", 1).unwrap();
    let b = generate_deterministic_seed(&base, "traderlongB", 1).unwrap();
    assert_eq!(a, b);
    let short = generate_deterministic_seed(&base, "ab", 0).unwrap();
    assert_eq!(short.len(), 22);
    let h = create_hierarchical_seed(&base, 9, 0x0102).unwrap();
    let mut expected: Vec<u8> = (12u8..32).collect();
    expected.extend_from_slice(&[9, 2, 1]);
    assert_eq!(h, expected);
    let t = generate_temporal_seed(&base, -1);
    let mut expected: Vec<u8> = (8u8..24).collect();
    expected.extend_from_slice(&[0xff; 8]);
    assert_eq!(t, expected);
}

#[test]
fn entropy_of_zeroed_data_fails() {
    assert_eq!(
        validate_account_security_level(&[0u8; 32], 16),
        Err(CommonError::Custom(CustomError::EntropyTooLow { distinct: 1, required: 16 }))
    );
}

#[test]
fn entropy_of_varied_data_passes() {
    let mut data = [0u8; 32];
    for (i, b) in data.iter_mut().enumerate() {
        *b = (i % 16) as u8;
    }
    assert_eq!(validate_account_security_level(&data, 16), Ok(()));
    assert_eq!(validate_account_security_level(&[1u8; 31], 0), Err(CommonError::AccountValidationFailed));
    let all: Vec<u8> = (0..=255u8).collect();
    assert_eq!(count_distinct_bytes(&all), 256);
    assert_eq!(count_distinct_bytes(&[]), 0);
    assert_eq!(validate_account_security_level(&all, 255), Ok(()));
}

#[test]
fn ownership_proof_and_signature() {
    let account = addr(1);
    let owner = addr(2);
    let proof = create_account_identifier(&owner, &account.bytes);
    assert_eq!(validate_account_ownership_proof(&account, &owner, &proof), Ok(()));
    assert_eq!(
        validate_account_ownership_proof(&owner, &account, &proof),
        Err(CommonError::InsufficientPermissions)
    );
    let mut msg = b"hello".to_vec();
    msg.extend_from_slice(&account.bytes);
    let sig = hash_account_data(&msg);
    assert_eq!(validate_deterministic_signature(b"hello", &account, &sig), Ok(()));
    assert_eq!(
        validate_deterministic_signature(b"hellp", &account, &sig),
        Err(CommonError::InsufficientPermissions)
    );
    assert_eq!(
        validate_deterministic_signature(b"hello", &account, &sig[..31]),
        Err(CommonError::Custom(CustomError::InvalidSignatureLength))
    );
}

#[test]
fn security_token_round_trip() {
    let acct = addr(4);
    let t: i64 = 1_700_000_000;
    let token = generate_security_token(&acct, "op", t);
    assert_eq!(verify_security_token_at(&token, &acct, "op", t, 60, t + 60), Ok(()));
    assert_eq!(verify_security_token_at(&token, &acct, "op", t, 60, t), Ok(()));
    assert_eq!(
        verify_security_token_at(&token, &acct, "op", t, 60, t + 61),
        Err(CommonError::Custom(CustomError::TokenExpired))
    );
    assert_eq!(
        verify_security_token_at(&token, &acct, "oq", t, 60, t + 1),
        Err(CommonError::InsufficientPermissions)
    );
    assert_eq!(
        verify_security_token_at(&token, &acct, "op", i64::MIN, 0, i64::MAX),
        Err(CommonError::Custom(CustomError::TokenExpired))
    );
    let mut input = acct.bytes.to_vec();
    input.extend_from_slice(b"op");
    input.extend_from_slice(&t.to_le_bytes());
    assert_eq!(token, hash_account_data(&input));
}

#[test]
fn security_token_against_wall_clock() {
    let acct = addr(4);
    let now = std::time::SystemTime::now()
        .duration_since(std::time::UNIX_EPOCH)
        .unwrap()
        .as_secs() as i64;
    let token = generate_security_token(&acct, "op", now);
    assert_eq!(verify_security_token(&token, &acct, "op", now, 3600), Ok(()));
    let old = generate_security_token(&acct, "op", now - 7200);
    assert_eq!(
        verify_security_token(&old, &acct, "op", now - 7200, 3600),
        Err(CommonError::Custom(CustomError::TokenExpired))
    );
    let fresh = create_account_security_token(&acct, "op").unwrap();
    assert_eq!(fresh.len(), 32);
}

#[test]
fn missing_clock_reading_fails() {
    let acct = addr(4);
    let t: i64 = 1_000;
    let token = generate_security_token(&acct, "op", t);
    assert_eq!(
        verify_security_token_with_clock(&token, &acct, "op", t, 60, None),
        Err(CommonError::Custom(CustomError::ClockUnavailable))
    );
    assert_eq!(verify_security_token_with_clock(&token, &acct, "op", t, 60, Some(1_060)), Ok(()));
    assert_eq!(
        verify_security_token_with_clock(&token, &acct, "op", t, 60, Some(1_061)),
        Err(CommonError::Custom(CustomError::TokenExpired))
    );
    assert_eq!(
        create_security_token_with_clock(&acct, "op", None),
        Err(CommonError::Custom(CustomError::ClockUnavailable))
    );
    assert_eq!(create_security_token_with_clock(&acct, "op", Some(t)), Ok(token));
}
