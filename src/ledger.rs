use vstd::prelude::*;
use crate::account::{
    account_info_spec, deserialize_account_data, program_state_bytes, serialize_program_state,
    serialize_user_account, signer_spec, user_account_bytes, validate_signer, AccountView,
    ProgramState, UserAccount,
};
use crate::address::Address;
use crate::arith::{
    basis_points_spec, calculate_default_token_amount, calculate_percentage, safe_add, safe_mul,
    safe_sub, token_amount_spec, DEFAULT_DECIMALS,
};
use crate::bytes::{le_bytes, le_value, lemma_le_bytes_len, lemma_le_value_u64};
use crate::derivation::{create_program_state_pda, create_user_pda, derive_spec, program_state_tag, user_tag};

verus! {

/// Factor applied to a new user account's initial balance.
pub const USER_BALANCE_SCALE: u64 = 1000;

/// A decoded command for the ledger.
#[derive(Debug, Clone, Copy, PartialEq, Eq, Structural)]
pub enum ProgramInstruction {
    /// Create the program state with `initial_amount` whole tokens.
    Initialize { initial_amount: u64 },
    /// Create the signer's user account.
    CreateUserAccount { initial_balance: u64 },
    /// Move `amount` between user accounts, burning a fee in basis points.
    TransferWithFee { amount: u64, fee_basis_points: u16 },
}

/// Why a transition was rejected.
#[derive(Debug, Clone, Copy, PartialEq, Eq, Structural)]
pub enum LedgerError {
    NotEnoughAccountKeys,
    InvalidArgument,
    InvalidSeeds,
    MissingRequiredSignature,
    InvalidAccountData,
    InsufficientFunds,
    AccountDataTooSmall,
    SerializationFailed,
}

/// `new` is `old` with its data starting with `bytes` and otherwise unchanged.
pub open spec fn stored(old: AccountView, new: AccountView, bytes: Seq<u8>) -> bool {
    &&& new.key == old.key
    &&& new.owner == old.owner
    &&& new.is_signer == old.is_signer
    &&& new.is_writable == old.is_writable
    &&& new.data@ == bytes + old.data@.subrange(bytes.len() as int, old.data@.len() as int)
}

/// `new` is `old` with only account `i` changed, its data now starting with `bytes`.
pub open spec fn stored_at(old: Seq<AccountView>, new: Seq<AccountView>, i: int, bytes: Seq<u8>) -> bool {
    &&& new.len() == old.len()
    &&& stored(old[i], new[i], bytes)
    &&& forall|j: int| 0 <= j < old.len() && j != i ==> new[j] == old[j]
}

/// Writes `bytes` over the start of account `i`'s data, failing when the data is shorter.
fn store_record(accounts: &mut Vec<AccountView>, i: usize, bytes: &Vec<u8>) -> (r: Result<(), LedgerError>)
    requires
        i < old(accounts)@.len(),
    ensures
        bytes@.len() > old(accounts)@[i as int].data@.len() ==> r == Err::<(), LedgerError>(
            LedgerError::AccountDataTooSmall,
        ) && final(accounts)@ == old(accounts)@,
        bytes@.len() <= old(accounts)@[i as int].data@.len() ==> r is Ok && stored_at(
            old(accounts)@,
            final(accounts)@,
            i as int,
            bytes@,
        ),
{
    let n = accounts[i].data.len();
    if bytes.len() > n {
        return Err(LedgerError::AccountDataTooSmall);
    }
    let mut data: Vec<u8> = Vec::new();
    let mut k: usize = 0;
    while k < bytes.len()
        invariant
            k <= bytes@.len(),
            data@ == bytes@.subrange(0, k as int),
        decreases bytes@.len() - k,
    {
        data.push(bytes[k]);
        proof {
            assert(bytes@.subrange(0, k + 1) =~= bytes@.subrange(0, k as int).push(bytes@[k as int]));
        }
        k = k + 1;
    }
    while k < n
        invariant
            bytes@.len() <= k <= n,
            n == accounts@[i as int].data@.len(),
            i < accounts@.len(),
            data@ == bytes@ + accounts@[i as int].data@.subrange(bytes@.len() as int, k as int),
        decreases n - k,
    {
        data.push(accounts[i].data[k]);
        proof {
            let src = accounts@[i as int].data@;
            assert(src.subrange(bytes@.len() as int, k + 1) =~= src.subrange(
                bytes@.len() as int,
                k as int,
            ).push(src[k as int]));
        }
        k = k + 1;
    }
    proof {
        assert(data@ =~= bytes@ + old(accounts)@[i as int].data@.subrange(bytes@.len() as int, n as int));
    }
    let updated = AccountView {
        key: accounts[i].key,
        owner: accounts[i].owner,
        is_signer: accounts[i].is_signer,
        is_writable: accounts[i].is_writable,
        data,
    };
    accounts[i] = updated;
    Ok(())
}

/// The program state that Initialize stores, or why it is rejected.
pub open spec fn initialize_spec(program_id: Seq<u8>, accounts: Seq<AccountView>, initial_amount: u64) -> Result<ProgramState, LedgerError> {
    if accounts.len() < 2 {
        Err(LedgerError::NotEnoughAccountKeys)
    } else {
        match derive_spec(seq![program_state_tag()], program_id) {
            Err(_) => Err(LedgerError::InvalidSeeds),
            Ok(p) => if accounts[0].key@ != p.0 {
                Err(LedgerError::InvalidSeeds)
            } else if signer_spec(accounts[1]) is Err {
                Err(LedgerError::MissingRequiredSignature)
            } else if token_amount_spec(initial_amount, DEFAULT_DECIMALS) is Err {
                Err(LedgerError::InvalidArgument)
            } else {
                let s = ProgramState {
                    authority: accounts[1].key,
                    total_supply: token_amount_spec(initial_amount, DEFAULT_DECIMALS)->Ok_0,
                    is_initialized: true,
                };
                if program_state_bytes(s).len() > accounts[0].data@.len() {
                    Err(LedgerError::AccountDataTooSmall)
                } else {
                    Ok(s)
                }
            },
        }
    }
}

/// Initialize: accounts are `[program state, payer]`. The program-state
/// address must be the derived one, then the payer must sign; the supply is
/// then `initial_amount` scaled by the default six decimals.
pub fn process_initialize(program_id: &Address, accounts: &mut Vec<AccountView>, initial_amount: u64) -> (r: Result<(), LedgerError>)
    ensures
        match initialize_spec(program_id@, old(accounts)@, initial_amount) {
            Ok(s) => r is Ok && stored_at(old(accounts)@, final(accounts)@, 0, program_state_bytes(s)),
            Err(e) => r == Err::<(), LedgerError>(e) && final(accounts)@ == old(accounts)@,
        },
{
    if accounts.len() < 2 {
        return Err(LedgerError::NotEnoughAccountKeys);
    }
    let expected_pda = match create_program_state_pda(program_id) {
        Ok(p) => p.0,
        Err(_) => return Err(LedgerError::InvalidSeeds),
    };
    if !accounts[0].key.equals(&expected_pda) {
        return Err(LedgerError::InvalidSeeds);
    }
    if validate_signer(&accounts[1]).is_err() {
        return Err(LedgerError::MissingRequiredSignature);
    }
    let token_amount = match calculate_default_token_amount(initial_amount) {
        Ok(v) => v,
        Err(_) => return Err(LedgerError::InvalidArgument),
    };
    let program_state = ProgramState { authority: accounts[1].key, total_supply: token_amount, is_initialized: true };
    let data = match serialize_program_state(&program_state) {
        Some(d) => d,
        None => return Err(LedgerError::SerializationFailed),
    };
    store_record(accounts, 0, &data)
}

/// The user account that CreateUserAccount stores, or why it is rejected.
pub open spec fn create_user_spec(program_id: Seq<u8>, accounts: Seq<AccountView>, initial_balance: u64) -> Result<UserAccount, LedgerError> {
    if accounts.len() < 3 {
        Err(LedgerError::NotEnoughAccountKeys)
    } else if signer_spec(accounts[1]) is Err {
        Err(LedgerError::MissingRequiredSignature)
    } else {
        match derive_spec(seq![user_tag(), accounts[1].key@], program_id) {
            Err(_) => Err(LedgerError::InvalidSeeds),
            Ok(p) => if accounts[0].key@ != p.0 {
                Err(LedgerError::InvalidSeeds)
            } else if initial_balance * USER_BALANCE_SCALE > u64::MAX {
                Err(LedgerError::InvalidArgument)
            } else {
                let u = UserAccount {
                    owner: accounts[1].key,
                    balance: (initial_balance * USER_BALANCE_SCALE) as u64,
                    program_state: accounts[2].key,
                };
                if user_account_bytes(u).len() > accounts[0].data@.len() {
                    Err(LedgerError::AccountDataTooSmall)
                } else {
                    Ok(u)
                }
            },
        }
    }
}

/// CreateUserAccount: accounts are `[user account, user, program state]`.
/// The user must sign, then the user account's address must be derived from
/// `["user", user]`; the balance is then `initial_balance * 1000`. The
/// program-state address is recorded as given, without re-derivation.
pub fn process_create_user_account(program_id: &Address, accounts: &mut Vec<AccountView>, initial_balance: u64) -> (r: Result<(), LedgerError>)
    ensures
        match create_user_spec(program_id@, old(accounts)@, initial_balance) {
            Ok(u) => r is Ok && stored_at(old(accounts)@, final(accounts)@, 0, user_account_bytes(u)),
            Err(e) => r == Err::<(), LedgerError>(e) && final(accounts)@ == old(accounts)@,
        },
{
    if accounts.len() < 3 {
        return Err(LedgerError::NotEnoughAccountKeys);
    }
    if validate_signer(&accounts[1]).is_err() {
        return Err(LedgerError::MissingRequiredSignature);
    }
    let expected_pda = match create_user_pda(&accounts[1].key, program_id) {
        Ok(p) => p.0,
        Err(_) => return Err(LedgerError::InvalidSeeds),
    };
    if !accounts[0].key.equals(&expected_pda) {
        return Err(LedgerError::InvalidSeeds);
    }
    let balance = match safe_mul(initial_balance, USER_BALANCE_SCALE) {
        Ok(v) => v,
        Err(_) => return Err(LedgerError::InvalidArgument),
    };
    let user_account = UserAccount { owner: accounts[1].key, balance, program_state: accounts[2].key };
    let data = match serialize_user_account(&user_account) {
        Some(d) => d,
        None => return Err(LedgerError::SerializationFailed),
    };
    store_record(accounts, 0, &data)
}

/// Owner stored in a user account's data.
pub open spec fn owner_of(data: Seq<u8>) -> Seq<u8> {
    data.subrange(0, 32)
}

/// Balance stored in a user account's data.
pub open spec fn balance_of(data: Seq<u8>) -> nat {
    le_value(data.subrange(32, 40))
}

/// Data of a user account with its balance replaced.
pub open spec fn with_balance(data: Seq<u8>, balance: nat) -> Seq<u8> {
    data.subrange(0, 32) + le_bytes(balance, 8) + data.subrange(40, 72)
}

/// Whether an account holds a readable user account.
pub open spec fn holds_user_account(a: AccountView) -> bool {
    account_info_spec(a) is Ok && a.data@.len() == 72
}

/// The new balances `(from, to)` after TransferWithFee, or why it is rejected.
pub open spec fn transfer_spec(accounts: Seq<AccountView>, amount: u64, fee_basis_points: u16) -> Result<(nat, nat), LedgerError> {
    if accounts.len() < 3 {
        Err(LedgerError::NotEnoughAccountKeys)
    } else if signer_spec(accounts[2]) is Err {
        Err(LedgerError::MissingRequiredSignature)
    } else if !holds_user_account(accounts[0]) || !holds_user_account(accounts[1]) {
        Err(LedgerError::InvalidAccountData)
    } else if owner_of(accounts[0].data@) != accounts[2].key@ {
        Err(LedgerError::InvalidArgument)
    } else if basis_points_spec(amount, fee_basis_points) is Err {
        Err(LedgerError::InvalidArgument)
    } else {
        let fee = basis_points_spec(amount, fee_basis_points)->Ok_0;
        let total = amount + fee;
        let from_balance = balance_of(accounts[0].data@);
        let to_balance = balance_of(accounts[1].data@);
        if total > u64::MAX {
            Err(LedgerError::InvalidArgument)
        } else if from_balance < total {
            Err(LedgerError::InsufficientFunds)
        } else if to_balance + amount > u64::MAX {
            Err(LedgerError::InvalidArgument)
        } else {
            Ok(((from_balance - total) as nat, (to_balance + amount) as nat))
        }
    }
}

proof fn lemma_decoded_fields(data: Seq<u8>, u: UserAccount)
    requires
        data == user_account_bytes(u),
    ensures
        data.len() == 72,
        owner_of(data) == u.owner@,
        balance_of(data) == u.balance,
        data.subrange(40, 72) == u.program_state@,
{
    lemma_le_value_u64(u.balance);
    assert(owner_of(data) =~= u.owner@);
    assert(data.subrange(32, 40) =~= le_bytes(u.balance as nat, 8));
    assert(data.subrange(40, 72) =~= u.program_state@);
}

proof fn lemma_rebalanced(data: Seq<u8>, u: UserAccount, b: u64)
    requires
        data == user_account_bytes(u),
    ensures
        user_account_bytes(UserAccount { balance: b, ..u }) == with_balance(data, b as nat),
{
    lemma_decoded_fields(data, u);
    assert(user_account_bytes(UserAccount { balance: b, ..u }) =~= with_balance(data, b as nat));
}

/// TransferWithFee: accounts are `[from, to, owner]`. The owner must sign and
/// own `from`; `fee = floor(amount * fee_basis_points / 10000)`; `from` pays
/// `amount + fee` and `to` receives `amount`, the fee being burned. Both
/// records are read before either is written.
pub fn process_transfer_with_fee(accounts: &mut Vec<AccountView>, amount: u64, fee_basis_points: u16) -> (r: Result<(), LedgerError>)
    ensures
        match transfer_spec(old(accounts)@, amount, fee_basis_points) {
            Ok(b) => r is Ok && final(accounts)@.len() == old(accounts)@.len()
                && stored(old(accounts)@[0], final(accounts)@[0], with_balance(old(accounts)@[0].data@, b.0))
                && stored(old(accounts)@[1], final(accounts)@[1], with_balance(old(accounts)@[1].data@, b.1))
                && forall|j: int| 2 <= j < old(accounts)@.len() ==> final(accounts)@[j] == old(accounts)@[j],
            Err(e) => r == Err::<(), LedgerError>(e) && final(accounts)@ == old(accounts)@,
        },
{
    if accounts.len() < 3 {
        return Err(LedgerError::NotEnoughAccountKeys);
    }
    if validate_signer(&accounts[2]).is_err() {
        return Err(LedgerError::MissingRequiredSignature);
    }
    let mut from_account = match deserialize_account_data(&accounts[0]) {
        Ok(u) => u,
        Err(_) => return Err(LedgerError::InvalidAccountData),
    };
    let mut to_account = match deserialize_account_data(&accounts[1]) {
        Ok(u) => u,
        Err(_) => return Err(LedgerError::InvalidAccountData),
    };
    let ghost from0 = from_account;
    let ghost to0 = to_account;
    proof {
        lemma_decoded_fields(accounts@[0].data@, from0);
        lemma_decoded_fields(accounts@[1].data@, to0);
    }
    if !from_account.owner.equals(&accounts[2].key) {
        return Err(LedgerError::InvalidArgument);
    }
    let fee = match calculate_percentage(amount, fee_basis_points) {
        Ok(v) => v,
        Err(_) => return Err(LedgerError::InvalidArgument),
    };
    let total_amount = match safe_add(amount, fee) {
        Ok(v) => v,
        Err(_) => return Err(LedgerError::InvalidArgument),
    };
    if from_account.balance < total_amount {
        return Err(LedgerError::InsufficientFunds);
    }
    from_account.balance = match safe_sub(from_account.balance, total_amount) {
        Ok(v) => v,
        Err(_) => return Err(LedgerError::InvalidArgument),
    };
    to_account.balance = match safe_add(to_account.balance, amount) {
        Ok(v) => v,
        Err(_) => return Err(LedgerError::InvalidArgument),
    };
    let from_data = match serialize_user_account(&from_account) {
        Some(d) => d,
        None => return Err(LedgerError::SerializationFailed),
    };
    let to_data = match serialize_user_account(&to_account) {
        Some(d) => d,
        None => return Err(LedgerError::SerializationFailed),
    };
    proof {
        lemma_rebalanced(old(accounts)@[0].data@, from0, from_account.balance);
        lemma_rebalanced(old(accounts)@[1].data@, to0, to_account.balance);
        lemma_le_bytes_len(from_account.balance as nat, 8);
        lemma_le_bytes_len(to_account.balance as nat, 8);
    }
    let ghost start = accounts@;
    let _ = store_record(accounts, 0, &from_data);
    let ghost mid = accounts@;
    let _ = store_record(accounts, 1, &to_data);
    proof {
        assert(stored_at(start, mid, 0, from_data@));
        assert(stored_at(mid, accounts@, 1, to_data@));
        assert(accounts@[0] == mid[0]);
        assert(mid[1] == start[1]);
    }
    Ok(())
}

/// Runs one decoded instruction against the accounts.
pub fn process_instruction(program_id: &Address, accounts: &mut Vec<AccountView>, instruction: ProgramInstruction) -> (r: Result<(), LedgerError>)
    ensures
        match instruction {
            ProgramInstruction::Initialize { initial_amount } => match initialize_spec(program_id@, old(accounts)@, initial_amount) {
                Ok(s) => r is Ok && stored_at(old(accounts)@, final(accounts)@, 0, program_state_bytes(s)),
                Err(e) => r == Err::<(), LedgerError>(e) && final(accounts)@ == old(accounts)@,
            },
            ProgramInstruction::CreateUserAccount { initial_balance } => match create_user_spec(program_id@, old(accounts)@, initial_balance) {
                Ok(u) => r is Ok && stored_at(old(accounts)@, final(accounts)@, 0, user_account_bytes(u)),
                Err(e) => r == Err::<(), LedgerError>(e) && final(accounts)@ == old(accounts)@,
            },
            ProgramInstruction::TransferWithFee { amount, fee_basis_points } => match transfer_spec(old(accounts)@, amount, fee_basis_points) {
                Ok(b) => r is Ok && final(accounts)@.len() == old(accounts)@.len()
                    && stored(old(accounts)@[0], final(accounts)@[0], with_balance(old(accounts)@[0].data@, b.0))
                    && stored(old(accounts)@[1], final(accounts)@[1], with_balance(old(accounts)@[1].data@, b.1))
                    && forall|j: int| 2 <= j < old(accounts)@.len() ==> final(accounts)@[j] == old(accounts)@[j],
                Err(e) => r == Err::<(), LedgerError>(e) && final(accounts)@ == old(accounts)@,
            },
        },
{
    match instruction {
        ProgramInstruction::Initialize { initial_amount } => process_initialize(program_id, accounts, initial_amount),
        ProgramInstruction::CreateUserAccount { initial_balance } => process_create_user_account(program_id, accounts, initial_balance),
        ProgramInstruction::TransferWithFee { amount, fee_basis_points } => process_transfer_with_fee(accounts, amount, fee_basis_points),
    }
}

} // verus!
