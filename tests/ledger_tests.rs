use ledger_core::account::{
    calculate_account_size, deserialize_account_data, serialize_program_state,
    serialize_user_account, validate_account_info, validate_account_owner,
    validate_account_space, validate_account_with_crypto_proof, validate_signer,
    validate_writable, AccountRecord, AccountView, ProgramState, UserAccount,
};
use ledger_core::address::{create_program_address_safe, is_valid_pubkey, validate_not_default, validate_owner, Address};
use ledger_core::derivation::{
    create_advanced_user_pda, create_pda_with_validation, create_program_state_pda,
    accept_found_address, create_user_pda, create_vault_pda, matches_found_address, derive_metadata_address, derive_secondary_address,
    derive_vault_address, program_state_seed, verify_account_derivation,
};
use ledger_core::error::{CommonError, CustomError};
use ledger_core::hashing::create_account_identifier;
use ledger_core::ledger::{
    process_create_user_account, process_initialize, process_instruction,
    process_transfer_with_fee, LedgerError, ProgramInstruction,
};
use ledger_core::pipeline::{run_checks, Check};

fn addr(b: u8) -> Address {
    Address::new([b; 32])
}

fn account(key: Address, is_signer: bool, data: Vec<u8>) -> AccountView {
    AccountView { key, owner: addr(200), is_signer, is_writable: true, data }
}

fn user_data(owner: Address, balance: u64, program_state: Address) -> Vec<u8> {
    serialize_user_account(&UserAccount { owner, balance, program_state }).unwrap()
}

fn balance_in(data: &[u8]) -> u64 {
    u64::from_le_bytes(data[32..40].try_into().unwrap())
}

#[test]
fn derivation_is_deterministic_and_verifiable() {
    let pid = addr(7);
    let base = addr(3);
    let seeds = vec![base.bytes.to_vec(), b"seed".to_vec()];
    let first = create_pda_with_validation(&seeds, &pid).unwrap();
    let second = create_pda_with_validation(&seeds, &pid).unwrap();
    assert_eq!(first.0.bytes, second.0.bytes);
    assert_eq!(first.1, second.1);
    assert_ne!(first.0.bytes, base.bytes);
    assert_eq!(verify_account_derivation(&first.0, &base, b"seed", &pid), Ok(()));
    let mut other = first.0;
    other.bytes[0] ^= 1;
    assert_eq!(
        verify_account_derivation(&other, &base, b"seed", &pid),
        Err(CommonError::AccountValidationFailed)
    );
    let mut with_bump = seeds.clone();
    with_bump.push(vec![first.1]);
    assert_eq!(create_program_address_safe(&with_bump, &pid).unwrap().bytes, first.0.bytes);
}

#[test]
fn derivation_rejects_long_seeds() {
    let seeds = vec![vec![1u8; 33]];
    assert_eq!(
        create_pda_with_validation(&seeds, &addr(7)).map(|p| p.1),
        Err(CommonError::Custom(CustomError::SeedTooLong))
    );
    assert_eq!(
        derive_secondary_address(&addr(1), &[0u8; 33], &addr(7)).map(|p| p.1),
        Err(CommonError::Custom(CustomError::DerivationPathTooLong))
    );
}

#[test]
fn derivation_kinds_use_distinct_seeds() {
    let pid = addr(7);
    let owner = addr(3);
    let user = create_user_pda(&owner, &pid).unwrap().0;
    let vault = create_vault_pda(&owner, 1, &pid).unwrap().0;
    let vault2 = derive_vault_address(&owner, 2, &pid).unwrap().0;
    let adv = create_advanced_user_pda(&owner, "trader", 1, &pid).unwrap().0;
    let sec = derive_secondary_address(&owner, b"path", &pid).unwrap().0;
    let meta = derive_metadata_address(&owner, "profile", &pid).unwrap().0;
    let state = create_program_state_pda(&pid).unwrap().0;
    let all = [user, vault, vault2, adv, sec, meta, state];
    for i in 0..all.len() {
        for j in 0..all.len() {
            if i != j {
                assert_ne!(all[i].bytes, all[j].bytes);
            }
        }
    }
    assert_eq!(
        create_user_pda(&Address::zero(), &pid).map(|p| p.1),
        Err(CommonError::AccountValidationFailed)
    );
    assert_eq!(
        create_vault_pda(&Address::zero(), 1, &pid).map(|p| p.1),
        Err(CommonError::AccountValidationFailed)
    );
    assert_eq!(program_state_seed(), b"program_state".to_vec());
}

#[test]
fn address_checks() {
    assert!(!is_valid_pubkey(&Address::zero()));
    assert!(is_valid_pubkey(&addr(1)));
    assert_eq!(validate_not_default(&Address::zero()), Err(CommonError::AccountValidationFailed));
    assert_eq!(validate_owner(&addr(1), &addr(1)), Ok(()));
    assert_eq!(validate_owner(&addr(1), &addr(2)), Err(CommonError::InsufficientPermissions));
}

#[test]
fn account_validation_steps() {
    let good = account(addr(1), true, vec![1]);
    assert_eq!(validate_account_info(&good), Ok(()));
    assert_eq!(validate_account_info(&account(Address::zero(), true, vec![1])), Err(CommonError::AccountValidationFailed));
    assert_eq!(validate_account_info(&account(addr(1), true, vec![])), Err(CommonError::AccountValidationFailed));
    assert_eq!(validate_signer(&account(addr(1), false, vec![1])), Err(CommonError::InsufficientPermissions));
    let mut ro = good.clone();
    ro.is_writable = false;
    assert_eq!(validate_writable(&ro), Err(CommonError::InsufficientPermissions));
    assert_eq!(validate_writable(&good), Ok(()));
    assert_eq!(validate_account_owner(&good, &addr(200)), Ok(()));
    assert_eq!(validate_account_owner(&good, &addr(201)), Err(CommonError::InsufficientPermissions));
    assert_eq!(validate_account_space(&good, 1), Ok(()));
    assert_eq!(validate_account_space(&good, 2), Err(CommonError::AccountValidationFailed));
}

#[test]
fn signer_check_reported_before_derivation() {
    let pid = addr(7);
    let base = addr(3);
    let (pda, _) = create_pda_with_validation(&vec![base.bytes.to_vec(), b"s".to_vec()], &pid).unwrap();
    let mut acct = account(pda, false, vec![1]);
    acct.is_writable = false;
    let checks = vec![
        Check::Exists,
        Check::DerivationMatches { base, seed: b"s".to_vec(), program_id: pid },
        Check::Signer,
        Check::Writable,
    ];
    assert_eq!(run_checks(&acct, &checks), Err(CommonError::InsufficientPermissions));
    let derivation_only = vec![Check::Exists, Check::DerivationMatches { base, seed: b"s".to_vec(), program_id: pid }];
    assert_eq!(run_checks(&acct, &derivation_only), Ok(()));
    let signer_first = vec![Check::Signer, Check::DerivationMatches { base: addr(4), seed: vec![], program_id: pid }];
    assert_eq!(run_checks(&acct, &signer_first), Err(CommonError::InsufficientPermissions));
    assert_eq!(run_checks(&acct, &vec![]), Ok(()));
}

#[test]
fn crypto_proof_validation() {
    let owner = addr(5);
    let data: Vec<u8> = (0u8..32).collect();
    let acct = account(addr(9), false, data);
    let proof = create_account_identifier(&owner, &acct.key.bytes);
    assert_eq!(validate_account_with_crypto_proof(&acct, &owner, &proof), Ok(()));
    assert_eq!(
        validate_account_with_crypto_proof(&acct, &addr(6), &proof),
        Err(CommonError::InsufficientPermissions)
    );
    let flat = account(addr(9), false, vec![0u8; 32]);
    let proof_flat = create_account_identifier(&owner, &flat.key.bytes);
    assert_eq!(
        validate_account_with_crypto_proof(&flat, &owner, &proof_flat),
        Err(CommonError::Custom(CustomError::EntropyTooLow { distinct: 1, required: 16 }))
    );
    let checks = vec![Check::OwnershipProof { owner, proof }, Check::Entropy(16), Check::OwnerIs(addr(200))];
    assert_eq!(run_checks(&acct, &checks), Ok(()));
}

#[test]
fn record_encoding_round_trip() {
    let state = ProgramState { authority: addr(1), total_supply: 0x0102030405060708, is_initialized: true };
    let bytes = serialize_program_state(&state).unwrap();
    assert_eq!(bytes.len(), 41);
    assert_eq!(&bytes[0..32], &[1u8; 32]);
    assert_eq!(&bytes[32..40], &[8, 7, 6, 5, 4, 3, 2, 1]);
    assert_eq!(bytes[40], 1);
    assert_eq!(calculate_account_size(&AccountRecord::ProgramState(state)), Ok(41));
    let user = UserAccount { owner: addr(2), balance: 77, program_state: addr(3) };
    assert_eq!(calculate_account_size(&AccountRecord::UserAccount(user)), Ok(72));
    let acct = account(addr(4), false, serialize_user_account(&user).unwrap());
    let back = deserialize_account_data(&acct).unwrap();
    assert_eq!(back.owner.bytes, [2u8; 32]);
    assert_eq!(back.balance, 77);
    assert_eq!(back.program_state.bytes, [3u8; 32]);
    let short = account(addr(4), false, vec![1u8; 71]);
    assert_eq!(deserialize_account_data(&short).map(|u| u.balance), Err(CommonError::AccountValidationFailed));
}

#[test]
fn initialize_scales_supply() {
    let pid = addr(7);
    let (pda, _) = create_program_state_pda(&pid).unwrap();
    let payer = addr(9);
    let mut accounts = vec![account(pda, false, vec![0u8; 41]), account(payer, true, vec![1])];
    assert_eq!(process_initialize(&pid, &mut accounts, 5), Ok(()));
    let data = &accounts[0].data;
    assert_eq!(&data[0..32], &payer.bytes);
    assert_eq!(balance_in(data), 5_000_000);
    assert_eq!(data[40], 1);
}

#[test]
fn initialize_rejections() {
    let pid = addr(7);
    let (pda, _) = create_program_state_pda(&pid).unwrap();
    let mut one = vec![account(pda, false, vec![0u8; 41])];
    assert_eq!(process_initialize(&pid, &mut one, 5), Err(LedgerError::NotEnoughAccountKeys));
    let mut wrong = vec![account(addr(8), false, vec![0u8; 41]), account(addr(9), true, vec![1])];
    assert_eq!(process_initialize(&pid, &mut wrong, 5), Err(LedgerError::InvalidSeeds));
    let mut unsigned = vec![account(pda, false, vec![0u8; 41]), account(addr(9), false, vec![1])];
    assert_eq!(process_initialize(&pid, &mut unsigned, 5), Err(LedgerError::MissingRequiredSignature));
    assert_eq!(unsigned[0].data, vec![0u8; 41]);
    let mut big = vec![account(pda, false, vec![0u8; 41]), account(addr(9), true, vec![1])];
    assert_eq!(process_initialize(&pid, &mut big, u64::MAX), Err(LedgerError::InvalidArgument));
    let mut small = vec![account(pda, false, vec![0u8; 40]), account(addr(9), true, vec![1])];
    assert_eq!(process_initialize(&pid, &mut small, 5), Err(LedgerError::AccountDataTooSmall));
}

#[test]
fn create_user_account_scales_balance() {
    let pid = addr(7);
    let user = addr(3);
    let (pda, _) = create_user_pda(&user, &pid).unwrap();
    let state = addr(11);
    let mut accounts = vec![
        account(pda, false, vec![0u8; 80]),
        account(user, true, vec![1]),
        account(state, false, vec![1]),
    ];
    assert_eq!(process_create_user_account(&pid, &mut accounts, 3), Ok(()));
    let data = &accounts[0].data;
    assert_eq!(&data[0..32], &user.bytes);
    assert_eq!(balance_in(data), 3_000);
    assert_eq!(&data[40..72], &state.bytes);
    assert_eq!(&data[72..80], &[0u8; 8]);
}

#[test]
fn create_user_account_rejections() {
    let pid = addr(7);
    let user = addr(3);
    let (pda, _) = create_user_pda(&user, &pid).unwrap();
    let mut unsigned = vec![account(pda, false, vec![0u8; 72]), account(user, false, vec![1]), account(addr(11), false, vec![1])];
    assert_eq!(process_create_user_account(&pid, &mut unsigned, 3), Err(LedgerError::MissingRequiredSignature));
    let mut wrong = vec![account(addr(8), false, vec![0u8; 72]), account(user, true, vec![1]), account(addr(11), false, vec![1])];
    assert_eq!(process_create_user_account(&pid, &mut wrong, 3), Err(LedgerError::InvalidSeeds));
    let mut big = vec![account(pda, false, vec![0u8; 72]), account(user, true, vec![1]), account(addr(11), false, vec![1])];
    assert_eq!(process_create_user_account(&pid, &mut big, u64::MAX), Err(LedgerError::InvalidArgument));
    let mut two = vec![account(pda, false, vec![0u8; 72]), account(user, true, vec![1])];
    assert_eq!(process_create_user_account(&pid, &mut two, 3), Err(LedgerError::NotEnoughAccountKeys));
}

fn transfer_accounts(from_balance: u64) -> Vec<AccountView> {
    let owner = addr(3);
    let state = addr(11);
    vec![
        account(addr(21), false, user_data(owner, from_balance, state)),
        account(addr(22), false, user_data(addr(4), 50, state)),
        account(owner, true, vec![1]),
    ]
}

#[test]
fn transfer_with_fee_moves_amount_and_burns_fee() {
    let mut accounts = transfer_accounts(1000);
    assert_eq!(process_transfer_with_fee(&mut accounts, 100, 500), Ok(()));
    assert_eq!(balance_in(&accounts[0].data), 895);
    assert_eq!(balance_in(&accounts[1].data), 150);
    assert_eq!(&accounts[0].data[0..32], &[3u8; 32]);
    assert_eq!(&accounts[1].data[0..32], &[4u8; 32]);
}

#[test]
fn transfer_with_fee_insufficient_funds() {
    let mut accounts = transfer_accounts(100);
    assert_eq!(process_transfer_with_fee(&mut accounts, 100, 500), Err(LedgerError::InsufficientFunds));
    assert_eq!(balance_in(&accounts[0].data), 100);
    assert_eq!(balance_in(&accounts[1].data), 50);
}

#[test]
fn transfer_with_fee_rejections() {
    let mut accounts = transfer_accounts(1000);
    accounts[2].is_signer = false;
    assert_eq!(process_transfer_with_fee(&mut accounts, 100, 500), Err(LedgerError::MissingRequiredSignature));
    let mut accounts = transfer_accounts(1000);
    accounts[2].key = addr(5);
    assert_eq!(process_transfer_with_fee(&mut accounts, 100, 500), Err(LedgerError::InvalidArgument));
    let mut accounts = transfer_accounts(1000);
    assert_eq!(process_transfer_with_fee(&mut accounts, 100, 10001), Err(LedgerError::InvalidArgument));
    let mut accounts = transfer_accounts(1000);
    accounts[1].data.push(0);
    assert_eq!(process_transfer_with_fee(&mut accounts, 100, 500), Err(LedgerError::InvalidAccountData));
    let mut accounts = transfer_accounts(u64::MAX);
    accounts[1].data = user_data(addr(4), u64::MAX, addr(11));
    assert_eq!(process_transfer_with_fee(&mut accounts, 100, 0), Err(LedgerError::InvalidArgument));
}

#[test]
fn dispatch_runs_each_instruction() {
    let mut accounts = transfer_accounts(1000);
    let ix = ProgramInstruction::TransferWithFee { amount: 100, fee_basis_points: 500 };
    assert_eq!(process_instruction(&addr(7), &mut accounts, ix), Ok(()));
    assert_eq!(balance_in(&accounts[0].data), 895);
    let pid = addr(7);
    let (pda, _) = create_program_state_pda(&pid).unwrap();
    let mut accounts = vec![account(pda, false, vec![0u8; 41]), account(addr(9), true, vec![1])];
    assert_eq!(process_instruction(&pid, &mut accounts, ProgramInstruction::Initialize { initial_amount: 2 }), Ok(()));
    assert_eq!(balance_in(&accounts[0].data), 2_000_000);
    let mut none: Vec<AccountView> = vec![];
    assert_eq!(
        process_instruction(&pid, &mut none, ProgramInstruction::CreateUserAccount { initial_balance: 1 }),
        Err(LedgerError::NotEnoughAccountKeys)
    );
}

#[test]
fn search_outcomes_on_given_values() {
    assert_eq!(
        accept_found_address(None).map(|p| p.1),
        Err(CommonError::Custom(CustomError::NoViableBump))
    );
    assert_eq!(
        accept_found_address(Some((Address::zero(), 3))).map(|p| p.1),
        Err(CommonError::AccountValidationFailed)
    );
    let ok = accept_found_address(Some((addr(5), 254))).unwrap();
    assert_eq!(ok.0.bytes, [5u8; 32]);
    assert_eq!(ok.1, 254);
    assert_eq!(matches_found_address(&addr(5), Some((addr(5), 1))), Ok(()));
    assert_eq!(matches_found_address(&addr(5), Some((addr(6), 1))), Err(CommonError::AccountValidationFailed));
    assert_eq!(matches_found_address(&addr(5), None), Err(CommonError::AccountValidationFailed));
}

#[test]
fn signature_checked_before_scaling() {
    let pid = addr(7);
    let user = addr(3);
    let (pda, _) = create_user_pda(&user, &pid).unwrap();
    let mut accounts = vec![account(pda, false, vec![0u8; 72]), account(user, false, vec![1]), account(addr(11), false, vec![1])];
    assert_eq!(process_create_user_account(&pid, &mut accounts, u64::MAX), Err(LedgerError::MissingRequiredSignature));
    let (state, _) = create_program_state_pda(&pid).unwrap();
    let mut accounts = vec![account(state, false, vec![0u8; 41]), account(addr(9), false, vec![1])];
    assert_eq!(process_initialize(&pid, &mut accounts, u64::MAX), Err(LedgerError::MissingRequiredSignature));
    let mut accounts = vec![account(addr(8), false, vec![0u8; 41]), account(addr(9), true, vec![1])];
    assert_eq!(process_initialize(&pid, &mut accounts, u64::MAX), Err(LedgerError::InvalidSeeds));
}
