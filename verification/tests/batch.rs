use std::cell::RefCell;

use token_airdrop::accounts::{Account, Context};
use token_airdrop::airdrop::{
    begin, initialize_if_needed, resume, LedgerOperation, Purpose, Stage, Step,
};
use token_airdrop::error::AirdropError;
use token_airdrop::ledger::{AccountMeta, LedgerInstruction};
use token_airdrop::program::{airdrop_tokens, entrypoint};
use token_airdrop::wire::{serialize_wallets, TransferInstruction};

const TOKEN_PROGRAM: [u8; 32] = [
    6, 221, 246, 225, 215, 101, 161, 147, 217, 203, 225, 70, 206, 235, 121, 172, 28, 180, 133, 237,
    95, 91, 55, 145, 58, 140, 245, 133, 126, 255, 0, 169,
];

const RENT_SYSVAR: [u8; 32] = [
    6, 167, 213, 23, 25, 44, 92, 81, 33, 140, 201, 76, 61, 74, 241, 127, 88, 218, 238, 8, 155, 161,
    253, 68, 227, 219, 217, 138, 0, 0, 0, 0,
];

const AUTHORITY: [u8; 32] = [1; 32];
const AUTHORITY_TOKENS: [u8; 32] = [2; 32];
const MINT: [u8; 32] = [3; 32];

fn wallet_key(i: usize) -> [u8; 32] {
    [100 + i as u8; 32]
}

fn recipient_key(i: usize) -> [u8; 32] {
    [200 + i as u8; 32]
}

/// A stand-in for the token ledger, with the host's all-or-nothing commit.
#[derive(Clone, Debug, PartialEq)]
struct Ledger {
    balances: Vec<([u8; 32], u64)>,
    initialized: Vec<[u8; 32]>,
    frozen: Vec<[u8; 32]>,
    initializations: usize,
    transfers: Vec<([u8; 32], [u8; 32], u64)>,
    handles: Vec<Vec<usize>>,
}

impl Ledger {
    fn balance(&self, key: &[u8; 32]) -> u64 {
        self.balances.iter().find(|(k, _)| k == key).map(|(_, b)| *b).unwrap()
    }

    fn set_balance(&mut self, key: &[u8; 32], value: u64) {
        self.balances.iter_mut().find(|(k, _)| k == key).unwrap().1 = value;
    }

    fn invoke(&mut self, operation: &LedgerOperation) -> bool {
        let ix = &operation.instruction;
        self.handles.push(operation.accounts.clone());
        if ix.program_id != TOKEN_PROGRAM {
            return false;
        }
        match ix.data[0] {
            1 => {
                self.initializations += 1;
                let account = ix.accounts[0].pubkey;
                if ix.data.len() != 1 || self.initialized.contains(&account) {
                    return false;
                }
                self.initialized.push(account);
                true
            }
            3 => {
                let source = ix.accounts[0].pubkey;
                let destination = ix.accounts[1].pubkey;
                let mut amount_bytes = [0u8; 8];
                amount_bytes.copy_from_slice(&ix.data[1..9]);
                let amount = u64::from_le_bytes(amount_bytes);
                self.transfers.push((source, destination, amount));
                if ix.data.len() != 9
                    || !ix.accounts[2].is_signer
                    || !self.initialized.contains(&source)
                    || !self.initialized.contains(&destination)
                    || self.frozen.contains(&destination)
                    || self.balance(&source) < amount
                {
                    return false;
                }
                let from = self.balance(&source);
                let to = self.balance(&destination);
                self.set_balance(&source, from - amount);
                self.set_balance(&destination, to + amount);
                true
            }
            _ => false,
        }
    }
}

/// Runs one invocation against `ledger`, as a host would: a failure undoes
/// whatever was changed. What was attempted stays on record.
fn invoke_program(
    accounts: &[Account],
    payload: &[u8],
    ledger: &mut Ledger,
) -> Result<(), AirdropError> {
    let committed = ledger.clone();
    let working = RefCell::new(ledger.clone());
    let result = entrypoint(&[42; 32], accounts, payload, |operation: &LedgerOperation| {
        working.borrow_mut().invoke(operation)
    });
    let after = working.into_inner();
    *ledger = if result.is_ok() {
        after
    } else {
        Ledger {
            initializations: after.initializations,
            transfers: after.transfers,
            handles: after.handles,
            ..committed
        }
    };
    result
}

fn refuse_all(_: &LedgerOperation) -> bool {
    false
}

fn accept_all(_: &LedgerOperation) -> bool {
    true
}

fn host_accounts(recipients: usize, authority_initialized: bool) -> Vec<Account> {
    let mut accounts = vec![
        Account {
            handle: 0,
            key: AUTHORITY,
            is_signer: true,
            is_initialized: false,
            mint: [0; 32],
        },
        Account {
            handle: 1,
            key: TOKEN_PROGRAM,
            is_signer: false,
            is_initialized: false,
            mint: [0; 32],
        },
        Account {
            handle: 2,
            key: AUTHORITY_TOKENS,
            is_signer: false,
            is_initialized: authority_initialized,
            mint: MINT,
        },
    ];
    for i in 0..recipients {
        accounts.push(Account {
            handle: 3 + i,
            key: recipient_key(i),
            is_signer: false,
            is_initialized: true,
            mint: MINT,
        });
    }
    accounts.push(Account {
        handle: 3 + recipients,
        key: RENT_SYSVAR,
        is_signer: false,
        is_initialized: false,
        mint: [0; 32],
    });
    accounts
}

fn ledger_for(recipients: usize, authority_balance: u64, authority_initialized: bool) -> Ledger {
    let mut ledger = Ledger {
        balances: vec![(AUTHORITY_TOKENS, authority_balance)],
        initialized: vec![],
        frozen: vec![],
        initializations: 0,
        transfers: vec![],
        handles: vec![],
    };
    if authority_initialized {
        ledger.initialized.push(AUTHORITY_TOKENS);
    }
    for i in 0..recipients {
        ledger.balances.push((recipient_key(i), 10 * i as u64));
        ledger.initialized.push(recipient_key(i));
    }
    ledger
}

fn payload_of(amounts: &[u64]) -> Vec<u8> {
    let wallets: Vec<TransferInstruction> = amounts
        .iter()
        .enumerate()
        .map(|(i, amount)| TransferInstruction { recipient: wallet_key(i), amount: *amount })
        .collect();
    serialize_wallets(&wallets)
}

fn context(recipients: usize, authority_initialized: bool) -> Context {
    let accounts = host_accounts(recipients, authority_initialized);
    Context {
        authority: accounts[0],
        token_program: accounts[1],
        authority_token_account: accounts[2],
        wallet_token_accounts: accounts[3..3 + recipients].to_vec(),
        sysvar: accounts[3 + recipients],
    }
}

fn wallets_of(amounts: &[u64]) -> Vec<TransferInstruction> {
    amounts
        .iter()
        .enumerate()
        .map(|(i, amount)| TransferInstruction { recipient: wallet_key(i), amount: *amount })
        .collect()
}

fn transfer_operation(destination: [u8; 32], handle: usize, amount: u64) -> LedgerOperation {
    let mut data = vec![3u8];
    data.extend_from_slice(&amount.to_le_bytes());
    LedgerOperation {
        purpose: Purpose::Transfer { recipient: wallet_key(handle - 3), amount },
        instruction: LedgerInstruction {
            program_id: TOKEN_PROGRAM,
            accounts: vec![
                AccountMeta { pubkey: AUTHORITY_TOKENS, is_signer: false, is_writable: true },
                AccountMeta { pubkey: destination, is_signer: false, is_writable: true },
                AccountMeta { pubkey: AUTHORITY, is_signer: true, is_writable: false },
            ],
            data,
        },
        accounts: vec![2, handle, 0, 1],
    }
}

fn initialize_operation(sysvar_handle: usize) -> LedgerOperation {
    let accounts = vec![2, 0, 1, sysvar_handle];
    LedgerOperation {
        purpose: Purpose::Initialization,
        instruction: LedgerInstruction {
            program_id: TOKEN_PROGRAM,
            accounts: vec![
                AccountMeta { pubkey: AUTHORITY_TOKENS, is_signer: false, is_writable: true },
                AccountMeta { pubkey: MINT, is_signer: false, is_writable: false },
                AccountMeta { pubkey: AUTHORITY, is_signer: false, is_writable: false },
                AccountMeta { pubkey: RENT_SYSVAR, is_signer: false, is_writable: false },
            ],
            data: vec![1],
        },
        accounts,
    }
}

#[test]
fn three_wallets_of_100_from_an_uninitialized_authority_account() {
    let accounts = host_accounts(3, false);
    let mut ledger = ledger_for(3, 1000, false);
    let result = invoke_program(&accounts, &payload_of(&[100, 100, 100]), &mut ledger);
    assert_eq!(result, Ok(()));
    assert_eq!(ledger.initializations, 1);
    assert_eq!(
        ledger.transfers,
        vec![
            (AUTHORITY_TOKENS, recipient_key(0), 100),
            (AUTHORITY_TOKENS, recipient_key(1), 100),
            (AUTHORITY_TOKENS, recipient_key(2), 100),
        ]
    );
    assert_eq!(ledger.balance(&AUTHORITY_TOKENS), 700);
    assert_eq!(ledger.balance(&recipient_key(0)), 100);
    assert_eq!(ledger.balance(&recipient_key(1)), 110);
    assert_eq!(ledger.balance(&recipient_key(2)), 120);
    assert_eq!(
        ledger.handles,
        vec![vec![2, 0, 1, 6], vec![2, 3, 0, 1], vec![2, 4, 0, 1], vec![2, 5, 0, 1]]
    );
}

#[test]
fn frozen_second_destination_fails_the_whole_batch() {
    let accounts = host_accounts(3, false);
    let mut ledger = ledger_for(3, 1000, false);
    ledger.frozen.push(recipient_key(1));
    let before = ledger.clone();
    let result = invoke_program(&accounts, &payload_of(&[100, 100, 100]), &mut ledger);
    assert_eq!(result, Err(AirdropError::TransferFailed));
    assert_eq!(ledger.initializations, 1);
    assert_eq!(
        ledger.transfers,
        vec![(AUTHORITY_TOKENS, recipient_key(0), 100), (AUTHORITY_TOKENS, recipient_key(1), 100)]
    );
    assert_eq!(ledger.balance(&AUTHORITY_TOKENS), 1000);
    assert_eq!(ledger.balances, before.balances);
    assert_eq!(ledger.initialized, before.initialized);
    assert!(!ledger.initialized.contains(&AUTHORITY_TOKENS));
}

#[test]
fn overdraft_fails_with_transfer_failed() {
    let accounts = host_accounts(2, true);
    let mut ledger = ledger_for(2, 150, true);
    let result = invoke_program(&accounts, &payload_of(&[100, 100]), &mut ledger);
    assert_eq!(result, Err(AirdropError::TransferFailed));
    assert_eq!(ledger.balance(&AUTHORITY_TOKENS), 150);
    assert_eq!(ledger.balance(&recipient_key(0)), 0);
}

#[test]
fn second_invocation_does_not_initialize_again() {
    let mut ledger = ledger_for(1, 1000, false);
    let first = invoke_program(&host_accounts(1, false), &payload_of(&[5]), &mut ledger);
    assert_eq!(first, Ok(()));
    assert_eq!(ledger.initializations, 1);
    let second = invoke_program(&host_accounts(1, true), &payload_of(&[5]), &mut ledger);
    assert_eq!(second, Ok(()));
    assert_eq!(ledger.initializations, 1);
    assert_eq!(ledger.balance(&AUTHORITY_TOKENS), 990);
}

#[test]
fn initialization_asks_for_nothing_on_an_initialized_account() {
    let ctx = context(2, true);
    assert_eq!(initialize_if_needed(&ctx), Ok(None));
    assert_eq!(initialize_if_needed(&ctx), Ok(None));
}

#[test]
fn initialization_names_account_mint_owner_and_rent() {
    let ctx = context(2, false);
    assert_eq!(initialize_if_needed(&ctx), Ok(Some(initialize_operation(5))));
    let elsewhere = Context { sysvar: Account { handle: 9, ..ctx.sysvar }, ..ctx };
    assert_eq!(initialize_if_needed(&elsewhere), Ok(Some(initialize_operation(9))));
}

#[test]
fn initialization_refuses_another_program() {
    let mut ctx = context(0, false);
    ctx.token_program.key = [7; 32];
    assert_eq!(initialize_if_needed(&ctx), Err(AirdropError::WrongProgram));
    ctx.authority_token_account.is_initialized = true;
    assert_eq!(initialize_if_needed(&ctx), Ok(None));
}

#[test]
fn refused_initialization_fails_before_any_transfer() {
    let accounts = host_accounts(2, false);
    let mut ledger = ledger_for(2, 1000, false);
    ledger.initialized.push(AUTHORITY_TOKENS);
    let result = invoke_program(&accounts, &payload_of(&[1, 2]), &mut ledger);
    assert_eq!(result, Err(AirdropError::InitializationFailed));
    assert_eq!(ledger.initializations, 1);
    assert_eq!(ledger.transfers, vec![]);
    assert_eq!(ledger.balance(&AUTHORITY_TOKENS), 1000);
}

#[test]
fn batch_starts_with_initialization_where_needed() {
    let ctx = context(1, false);
    let wallets = wallets_of(&[7]);
    assert_eq!(
        begin(&ctx, &wallets),
        Step::Invoke { stage: Stage::Initializing, operation: initialize_operation(4) }
    );
}

#[test]
fn batch_starts_with_the_first_transfer_where_initialized() {
    let ctx = context(2, true);
    let wallets = wallets_of(&[7, 8]);
    assert_eq!(
        begin(&ctx, &wallets),
        Step::Invoke {
            stage: Stage::Transferring(0),
            operation: transfer_operation(recipient_key(0), 3, 7),
        }
    );
}

#[test]
fn transfers_follow_one_another_in_payload_order() {
    let ctx = context(3, true);
    let wallets = wallets_of(&[7, 0, u64::MAX]);
    assert_eq!(
        resume(&ctx, &wallets, Stage::Initializing, true),
        Step::Invoke {
            stage: Stage::Transferring(0),
            operation: transfer_operation(recipient_key(0), 3, 7),
        }
    );
    assert_eq!(
        resume(&ctx, &wallets, Stage::Transferring(0), true),
        Step::Invoke {
            stage: Stage::Transferring(1),
            operation: transfer_operation(recipient_key(1), 4, 0),
        }
    );
    assert_eq!(
        resume(&ctx, &wallets, Stage::Transferring(1), true),
        Step::Invoke {
            stage: Stage::Transferring(2),
            operation: transfer_operation(recipient_key(2), 5, u64::MAX),
        }
    );
    assert_eq!(resume(&ctx, &wallets, Stage::Transferring(2), true), Step::Finished(Ok(())));
}

#[test]
fn recipient_is_taken_by_position_not_by_address() {
    let ctx = context(2, true);
    let wallets = vec![
        TransferInstruction { recipient: recipient_key(1), amount: 1 },
        TransferInstruction { recipient: recipient_key(0), amount: 2 },
    ];
    let named = LedgerOperation {
        purpose: Purpose::Transfer { recipient: recipient_key(1), amount: 1 },
        ..transfer_operation(recipient_key(0), 3, 1)
    };
    assert_eq!(
        begin(&ctx, &wallets),
        Step::Invoke { stage: Stage::Transferring(0), operation: named }
    );
}

#[test]
fn refused_operation_ends_the_batch() {
    let ctx = context(3, false);
    let wallets = wallets_of(&[1, 2, 3]);
    assert_eq!(
        resume(&ctx, &wallets, Stage::Initializing, false),
        Step::Finished(Err(AirdropError::InitializationFailed))
    );
    for index in [0usize, 1, 2, 3, usize::MAX] {
        assert_eq!(
            resume(&ctx, &wallets, Stage::Transferring(index), false),
            Step::Finished(Err(AirdropError::TransferFailed))
        );
    }
}

#[test]
fn verdict_past_the_payload_finishes_the_batch() {
    let ctx = context(1, true);
    let wallets = wallets_of(&[1]);
    assert_eq!(resume(&ctx, &wallets, Stage::Transferring(5), true), Step::Finished(Ok(())));
    assert_eq!(
        resume(&ctx, &wallets, Stage::Transferring(usize::MAX), true),
        Step::Finished(Ok(()))
    );
}

#[test]
fn empty_batch_on_an_initialized_account_invokes_nothing() {
    let ctx = context(0, true);
    assert_eq!(begin(&ctx, &[]), Step::Finished(Ok(())));
}

#[test]
fn verdict_on_a_batch_that_lacks_a_recipient_is_recipient_not_found() {
    let ctx = context(1, true);
    let wallets = wallets_of(&[1, 2]);
    assert_eq!(
        resume(&ctx, &wallets, Stage::Transferring(0), true),
        Step::Finished(Err(AirdropError::RecipientNotFound))
    );
    let none = context(0, true);
    assert_eq!(
        resume(&none, &wallets, Stage::Initializing, true),
        Step::Finished(Err(AirdropError::RecipientNotFound))
    );
}

#[test]
fn batch_does_not_start_with_fewer_recipients_than_instructions() {
    let wallets = wallets_of(&[1, 2]);
    for initialized in [true, false] {
        for recipients in [0usize, 1] {
            assert_eq!(
                begin(&context(recipients, initialized), &wallets),
                Step::Finished(Err(AirdropError::InsufficientAccounts))
            );
        }
    }
}

#[test]
fn batch_does_not_start_without_signature() {
    let mut ctx = context(1, false);
    ctx.authority.is_signer = false;
    assert_eq!(
        begin(&ctx, &wallets_of(&[1])),
        Step::Finished(Err(AirdropError::MissingRequiredSignature))
    );
}

#[test]
fn batch_does_not_start_for_another_program() {
    for initialized in [true, false] {
        let mut ctx = context(1, initialized);
        ctx.token_program.key = [0; 32];
        assert_eq!(
            begin(&ctx, &wallets_of(&[1])),
            Step::Finished(Err(AirdropError::WrongProgram))
        );
        assert_eq!(begin(&ctx, &[]), Step::Finished(Err(AirdropError::WrongProgram)));
        assert_eq!(
            begin(&ctx, &wallets_of(&[1, 2])),
            Step::Finished(Err(AirdropError::WrongProgram))
        );
    }
}

#[test]
fn batch_for_another_program_fails_and_hands_nothing_to_the_ledger() {
    for initialized in [true, false] {
        for amounts in [&[][..], &[1, 2][..]] {
            let mut ctx = context(2, initialized);
            ctx.token_program.key = [9; 32];
            let calls = RefCell::new(0usize);
            let result = airdrop_tokens(&ctx, &wallets_of(amounts), |_: &LedgerOperation| {
                *calls.borrow_mut() += 1;
                true
            });
            assert_eq!(result, Err(AirdropError::WrongProgram));
            assert_eq!(calls.into_inner(), 0);
        }
    }
}

#[test]
fn batch_succeeds_exactly_when_ready_and_accepted() {
    for signer in [true, false] {
        for program in [TOKEN_PROGRAM, [0; 32]] {
            for recipients in [1usize, 2, 3] {
                for verdict in [true, false] {
                    let mut ctx = context(recipients, true);
                    ctx.authority.is_signer = signer;
                    ctx.token_program.key = program;
                    let result =
                        airdrop_tokens(&ctx, &wallets_of(&[1, 2]), |_: &LedgerOperation| verdict);
                    let expected = signer && program == TOKEN_PROGRAM && recipients >= 2 && verdict;
                    assert_eq!(result.is_ok(), expected);
                }
            }
        }
    }
}

#[test]
fn malformed_payload_is_refused_at_entry() {
    let accounts = host_accounts(1, true);
    let mut payload = payload_of(&[1]);
    payload.push(0);
    assert_eq!(
        entrypoint(&[0; 32], &accounts, &payload, accept_all),
        Err(AirdropError::MalformedPayload)
    );
    assert_eq!(entrypoint(&[0; 32], &[], &[0; 39], accept_all), Err(AirdropError::MalformedPayload));
}

#[test]
fn missing_signature_fails_and_changes_nothing() {
    let mut accounts = host_accounts(3, false);
    accounts[0].is_signer = false;
    let mut ledger = ledger_for(3, 1000, false);
    let before = ledger.clone();
    let result = invoke_program(&accounts, &payload_of(&[100, 100, 100]), &mut ledger);
    assert_eq!(result, Err(AirdropError::MissingRequiredSignature));
    assert_eq!(ledger, before);
}

#[test]
fn wrong_program_fails_before_any_transfer() {
    let mut accounts = host_accounts(3, true);
    accounts[1].key = [9; 32];
    let mut ledger = ledger_for(3, 1000, true);
    let before = ledger.clone();
    let result = invoke_program(&accounts, &payload_of(&[100, 100, 100]), &mut ledger);
    assert_eq!(result, Err(AirdropError::WrongProgram));
    assert_eq!(ledger, before);
}

#[test]
fn too_few_recipient_accounts_fail_and_no_transfer_occurs() {
    let mut accounts = host_accounts(3, true);
    accounts.truncate(5);
    let mut ledger = ledger_for(3, 1000, true);
    let before = ledger.clone();
    let result = invoke_program(&accounts, &payload_of(&[100, 100, 100]), &mut ledger);
    assert_eq!(result, Err(AirdropError::InsufficientAccounts));
    assert_eq!(ledger, before);
}

#[test]
fn missing_recipient_with_the_sysvar_present_fails_and_no_transfer_occurs() {
    for initialized in [true, false] {
        // authority, token program, authority's tokens, two recipients, sysvar
        let mut accounts = host_accounts(3, initialized);
        accounts.remove(5);
        assert_eq!(accounts.len(), 6);
        assert_eq!(accounts[5].key, RENT_SYSVAR);
        let mut ledger = ledger_for(3, 1000, initialized);
        let before = ledger.clone();
        let result = invoke_program(&accounts, &payload_of(&[100, 100, 100]), &mut ledger);
        assert_eq!(result, Err(AirdropError::InsufficientAccounts));
        assert_eq!(ledger, before);
        assert_eq!(ledger.transfers, vec![]);
        assert_eq!(ledger.initializations, 0);
    }
}

#[test]
fn list_that_ends_with_the_recipients_fails_and_no_transfer_occurs() {
    let mut accounts = host_accounts(2, true);
    accounts.pop();
    let mut ledger = ledger_for(2, 1000, true);
    let before = ledger.clone();
    let result = invoke_program(&accounts, &payload_of(&[100, 100]), &mut ledger);
    assert_eq!(result, Err(AirdropError::InsufficientAccounts));
    assert_eq!(ledger, before);
}

#[test]
fn entry_without_the_fixed_accounts_is_insufficient() {
    let accounts = host_accounts(0, true);
    for len in 0..4 {
        assert_eq!(
            entrypoint(&[0; 32], &accounts[..len], &[], accept_all),
            Err(AirdropError::InsufficientAccounts)
        );
    }
    assert_eq!(entrypoint(&[0; 32], &accounts, &[], accept_all), Ok(()));
}

#[test]
fn entry_reports_a_missing_signature_on_a_short_list() {
    let mut accounts = host_accounts(0, true);
    accounts[0].is_signer = false;
    for len in 1..=4 {
        assert_eq!(
            entrypoint(&[0; 32], &accounts[..len], &payload_of(&[1]), accept_all),
            Err(AirdropError::MissingRequiredSignature)
        );
    }
}

#[test]
fn entry_reports_a_wrong_program_on_a_short_list() {
    let mut accounts = host_accounts(0, true);
    accounts[1].key = [8; 32];
    for len in 2..=4 {
        assert_eq!(
            entrypoint(&[0; 32], &accounts[..len], &payload_of(&[1]), accept_all),
            Err(AirdropError::WrongProgram)
        );
    }
}

#[test]
fn malformed_payload_is_reported_before_any_account_is_looked_at() {
    let mut accounts = host_accounts(0, true);
    accounts[0].is_signer = false;
    accounts[1].key = [0; 32];
    assert_eq!(
        entrypoint(&[0; 32], &accounts, &[1, 2, 3], accept_all),
        Err(AirdropError::MalformedPayload)
    );
}

#[test]
fn entry_does_not_depend_on_the_program_identity() {
    let accounts = host_accounts(1, false);
    let payload = payload_of(&[3]);
    for verdict in [accept_all, refuse_all] {
        assert_eq!(
            entrypoint(&[0; 32], &accounts, &payload, verdict),
            entrypoint(&[255; 32], &accounts, &payload, verdict)
        );
    }
}

#[test]
fn batch_hands_each_operation_to_the_ledger_once_and_in_order() {
    let ctx = context(2, false);
    let wallets = wallets_of(&[11, 22]);
    let seen: RefCell<Vec<LedgerOperation>> = RefCell::new(vec![]);
    let result = airdrop_tokens(&ctx, &wallets, |operation: &LedgerOperation| {
        seen.borrow_mut().push(operation.clone());
        true
    });
    assert_eq!(result, Ok(()));
    assert_eq!(
        seen.into_inner(),
        vec![
            initialize_operation(5),
            transfer_operation(recipient_key(0), 3, 11),
            transfer_operation(recipient_key(1), 4, 22),
        ]
    );
}

#[test]
fn batch_stops_at_the_first_refusal() {
    let ctx = context(3, true);
    let wallets = wallets_of(&[1, 2, 3]);
    let seen: RefCell<Vec<LedgerOperation>> = RefCell::new(vec![]);
    let result = airdrop_tokens(&ctx, &wallets, |operation: &LedgerOperation| {
        seen.borrow_mut().push(operation.clone());
        seen.borrow().len() < 2
    });
    assert_eq!(result, Err(AirdropError::TransferFailed));
    assert_eq!(
        seen.into_inner(),
        vec![
            transfer_operation(recipient_key(0), 3, 1),
            transfer_operation(recipient_key(1), 4, 2),
        ]
    );
}

#[test]
fn batch_without_signature_hands_nothing_to_the_ledger() {
    let mut ctx = context(2, false);
    ctx.authority.is_signer = false;
    let calls = RefCell::new(0usize);
    let result = airdrop_tokens(&ctx, &wallets_of(&[1, 2]), |_: &LedgerOperation| {
        *calls.borrow_mut() += 1;
        true
    });
    assert_eq!(result, Err(AirdropError::MissingRequiredSignature));
    assert_eq!(calls.into_inner(), 0);
}

#[test]
fn batch_with_a_missing_recipient_fails_and_hands_nothing_to_the_ledger() {
    for initialized in [true, false] {
        let ctx = context(1, initialized);
        let calls = RefCell::new(0usize);
        let result = airdrop_tokens(&ctx, &wallets_of(&[100, 100]), |_: &LedgerOperation| {
            *calls.borrow_mut() += 1;
            true
        });
        assert_eq!(result, Err(AirdropError::InsufficientAccounts));
        assert_eq!(calls.into_inner(), 0);
        assert_eq!(
            airdrop_tokens(&ctx, &wallets_of(&[100, 100]), refuse_all),
            Err(AirdropError::InsufficientAccounts)
        );
    }
}

#[test]
fn refused_initialization_is_initialization_failed() {
    let ctx = context(2, false);
    assert_eq!(
        airdrop_tokens(&ctx, &wallets_of(&[1, 2]), refuse_all),
        Err(AirdropError::InitializationFailed)
    );
}

#[test]
fn empty_batch_succeeds_without_the_ledger() {
    let ctx = context(0, true);
    assert_eq!(airdrop_tokens(&ctx, &[], refuse_all), Ok(()));
    let accounts = host_accounts(0, true);
    assert_eq!(entrypoint(&[0; 32], &accounts, &[], refuse_all), Ok(()));
}
