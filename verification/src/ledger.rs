//! Operations of the token ledger, as the token program's own instruction
//! builders lay them out.
//!
//! The builders are the token program's. What is stated of them here is taken
//! on trust from their source and is not proved.

use vstd::prelude::*;

use crate::le::le_bytes;

verus! {

/// The error type of the token program's builders. Nothing is known of a value
/// of it.
#[verifier::external_type_specification]
#[verifier::external_body]
pub struct ExProgramError(solana_program::program_error::ProgramError);

/// One account that an instruction names, and how it may be used.
#[derive(Clone, Copy, Debug, PartialEq, Eq)]
pub struct AccountMeta {
    pub pubkey: [u8; 32],
    pub is_signer: bool,
    pub is_writable: bool,
}

/// The mathematical value of an `AccountMeta`.
pub struct AccountMetaView {
    pub pubkey: Seq<u8>,
    pub is_signer: bool,
    pub is_writable: bool,
}

impl View for AccountMeta {
    type V = AccountMetaView;

    open spec fn view(&self) -> AccountMetaView {
        AccountMetaView {
            pubkey: self.pubkey@,
            is_signer: self.is_signer,
            is_writable: self.is_writable,
        }
    }
}

/// An instruction for the ledger: the program to run, the accounts it names,
/// and its data.
#[derive(Clone, Debug, PartialEq, Eq)]
pub struct LedgerInstruction {
    pub program_id: [u8; 32],
    pub accounts: Vec<AccountMeta>,
    pub data: Vec<u8>,
}

/// The mathematical value of a `LedgerInstruction`.
pub struct LedgerInstructionView {
    pub program_id: Seq<u8>,
    pub accounts: Seq<AccountMetaView>,
    pub data: Seq<u8>,
}

impl View for LedgerInstruction {
    type V = LedgerInstructionView;

    open spec fn view(&self) -> LedgerInstructionView {
        LedgerInstructionView {
            program_id: self.program_id@,
            accounts: self.accounts@.map_values(|m: AccountMeta| m@),
            data: self.data@,
        }
    }
}

/// The identity of the token program.
pub open spec fn token_program_id() -> Seq<u8> {
    seq![
        6u8, 221, 246, 225, 215, 101, 161, 147, 217, 203, 225, 70, 206, 235, 121, 172,
        28, 180, 133, 237, 95, 91, 55, 145, 58, 140, 245, 133, 126, 255, 0, 169,
    ]
}

/// The identity of the rent sysvar, which account initialization names.
pub open spec fn rent_sysvar_id() -> Seq<u8> {
    seq![
        6u8, 167, 213, 23, 25, 44, 92, 81, 33, 140, 201, 76, 61, 74, 241, 127,
        88, 218, 238, 8, 155, 161, 253, 68, 227, 219, 217, 138, 0, 0, 0, 0,
    ]
}

/// An account that the instruction may change.
pub open spec fn writable(key: Seq<u8>) -> AccountMetaView {
    AccountMetaView { pubkey: key, is_signer: false, is_writable: true }
}

/// An account that the instruction only reads.
pub open spec fn readonly(key: Seq<u8>, is_signer: bool) -> AccountMetaView {
    AccountMetaView { pubkey: key, is_signer, is_writable: false }
}

/// The instruction that initializes the token account `account` for `mint`,
/// owned by `owner`.
pub open spec fn initialize_account_instruction(
    account: Seq<u8>,
    mint: Seq<u8>,
    owner: Seq<u8>,
) -> LedgerInstructionView {
    LedgerInstructionView {
        program_id: token_program_id(),
        accounts: seq![
            writable(account),
            readonly(mint, false),
            readonly(owner, false),
            readonly(rent_sysvar_id(), false),
        ],
        data: seq![1u8],
    }
}

/// The instruction that moves `amount` units from `source` to `destination`,
/// signed by `authority`.
pub open spec fn transfer_instruction(
    source: Seq<u8>,
    destination: Seq<u8>,
    authority: Seq<u8>,
    amount: nat,
) -> LedgerInstructionView {
    LedgerInstructionView {
        program_id: token_program_id(),
        accounts: seq![writable(source), writable(destination), readonly(authority, true)],
        data: seq![3u8] + le_bytes(amount, 8),
    }
}

/// Calls `spl_token::check_id`, which compares a key with the identity that
/// the token program declares for itself. Trusted: that this identity is the
/// 32 bytes of `token_program_id`.
#[verifier::external_body]
pub(crate) fn is_token_program(key: &[u8; 32]) -> (yes: bool)
    ensures
        yes == (key@ == token_program_id()),
{
    spl_token::check_id(&solana_program::pubkey::Pubkey::new_from_array(*key))
}

/// Calls `spl_token::instruction::initialize_account`. Trusted: that it
/// refuses exactly a `program` other than the token program, and otherwise
/// gives the instruction with tag 1 and no further data, naming the account as
/// writable, then the mint, the owner and the rent sysvar as read-only, none
/// of them a signer.
#[allow(deprecated)]
#[verifier::external_body]
pub(crate) fn build_initialize_account(
    program: &[u8; 32],
    account: &[u8; 32],
    mint: &[u8; 32],
    owner: &[u8; 32],
) -> (r: Result<LedgerInstruction, solana_program::program_error::ProgramError>)
    ensures
        r is Ok <==> program@ == token_program_id(),
        r matches Ok(ix) ==> ix@ == initialize_account_instruction(account@, mint@, owner@),
{
    let ix = spl_token::instruction::initialize_account(
        &solana_program::pubkey::Pubkey::new_from_array(*program),
        &solana_program::pubkey::Pubkey::new_from_array(*account),
        &solana_program::pubkey::Pubkey::new_from_array(*mint),
        &solana_program::pubkey::Pubkey::new_from_array(*owner),
    )?;
    let accounts = ix.accounts.iter().map(|m| AccountMeta {
        pubkey: m.pubkey.to_bytes(),
        is_signer: m.is_signer,
        is_writable: m.is_writable,
    }).collect();
    Ok(LedgerInstruction { program_id: ix.program_id.to_bytes(), accounts, data: ix.data })
}

/// Calls `spl_token::instruction::transfer` with no multisignature signers.
/// Trusted: that it refuses exactly a `program` other than the token program,
/// and otherwise gives the instruction with tag 3 followed by the amount as
/// eight little-endian bytes, naming source and destination as writable and
/// the authority as a read-only signer.
#[allow(deprecated)]
#[verifier::external_body]
pub(crate) fn build_transfer(
    program: &[u8; 32],
    source: &[u8; 32],
    destination: &[u8; 32],
    authority: &[u8; 32],
    amount: u64,
) -> (r: Result<LedgerInstruction, solana_program::program_error::ProgramError>)
    ensures
        r is Ok <==> program@ == token_program_id(),
        r matches Ok(ix) ==> ix@ == transfer_instruction(
            source@,
            destination@,
            authority@,
            amount as nat,
        ),
{
    let ix = spl_token::instruction::transfer(
        &solana_program::pubkey::Pubkey::new_from_array(*program),
        &solana_program::pubkey::Pubkey::new_from_array(*source),
        &solana_program::pubkey::Pubkey::new_from_array(*destination),
        &solana_program::pubkey::Pubkey::new_from_array(*authority),
        &[],
        amount,
    )?;
    let accounts = ix.accounts.iter().map(|m| AccountMeta {
        pubkey: m.pubkey.to_bytes(),
        is_signer: m.is_signer,
        is_writable: m.is_writable,
    }).collect();
    Ok(LedgerInstruction { program_id: ix.program_id.to_bytes(), accounts, data: ix.data })
}

} // verus!
