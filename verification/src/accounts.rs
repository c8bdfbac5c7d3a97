//! The accounts of one invocation, and the roles they are bound to.
//!
//! The host hands over a flat, ordered list. Its layout is fixed: the
//! authority, the token-program reference, the authority's token account, one
//! recipient token account per transfer instruction in payload order, and
//! after them the sysvar account that account initialization uses. What the
//! host supplies beyond these is left alone.

use vstd::prelude::*;

use crate::error::AirdropError;
use crate::ledger::{is_token_program, token_program_id};

verus! {

/// Position of the authority in the host's list.
pub const AUTHORITY_INDEX: usize = 0;

/// Position of the token-program reference in the host's list.
pub const TOKEN_PROGRAM_INDEX: usize = 1;

/// Position of the authority's token account in the host's list.
pub const AUTHORITY_TOKEN_ACCOUNT_INDEX: usize = 2;

/// Position of the first recipient token account in the host's list.
pub const FIRST_RECIPIENT_INDEX: usize = 3;

/// How many accounts of the host's list are no recipient's: the three roles
/// before the recipients and the sysvar account after them.
pub const FIXED_ACCOUNTS: usize = 4;

/// What the batch reads of one account that the host supplied.
#[derive(Clone, Copy, Debug, PartialEq, Eq)]
pub struct Account {
    /// By what the host finds the account again when an operation is invoked
    /// on it. The batch hands it through and never looks at it.
    pub handle: usize,
    /// The account's address.
    pub key: [u8; 32],
    /// Whether the account's key signed the invocation.
    pub is_signer: bool,
    /// Whether the account holds an initialized token account.
    pub is_initialized: bool,
    /// The mint that the account declares for itself.
    pub mint: [u8; 32],
}

/// The accounts of one invocation by role.
#[derive(Clone, Debug, PartialEq, Eq)]
pub struct Context {
    pub authority: Account,
    pub token_program: Account,
    pub authority_token_account: Account,
    /// One per transfer instruction, in payload order.
    pub wallet_token_accounts: Vec<Account>,
    /// The account that follows the recipients.
    pub sysvar: Account,
}

/// The mathematical value of a `Context`.
pub struct ContextView {
    pub authority: Account,
    pub token_program: Account,
    pub authority_token_account: Account,
    pub wallet_token_accounts: Seq<Account>,
    pub sysvar: Account,
}

impl View for Context {
    type V = ContextView;

    open spec fn view(&self) -> ContextView {
        ContextView {
            authority: self.authority,
            token_program: self.token_program,
            authority_token_account: self.authority_token_account,
            wallet_token_accounts: self.wallet_token_accounts@,
            sysvar: self.sysvar,
        }
    }
}

/// How many recipient token accounts the host supplied: what stands between
/// the three roles at the head of the list and the sysvar account at its end.
pub open spec fn recipients_supplied(accounts: Seq<Account>) -> nat {
    if accounts.len() < 4 {
        0
    } else {
        (accounts.len() - 4) as nat
    }
}

/// Whether the list holds every account that `count` transfer instructions
/// need: the three roles, a recipient for each instruction, and the sysvar
/// account.
pub open spec fn sufficient(accounts: Seq<Account>, count: nat) -> bool {
    accounts.len() >= 3 + count + 1
}

/// The roles of a list that passes every check, for `count` transfer
/// instructions: recipient `i` is the account at position `3 + i`, and the
/// sysvar account is the one after the last recipient.
pub open spec fn roles(accounts: Seq<Account>, count: nat) -> ContextView
    recommends
        sufficient(accounts, count),
{
    ContextView {
        authority: accounts[0],
        token_program: accounts[1],
        authority_token_account: accounts[2],
        wallet_token_accounts: accounts.subrange(3, 3 + count as int),
        sysvar: accounts[3 + count as int],
    }
}

/// What binding `accounts` for `count` transfer instructions gives. The checks
/// come in this order, and the first that fails decides: the authority, as
/// soon as the list holds it, signed; the token-program reference, as soon as
/// the list holds it, is the token program; and the list holds every account
/// that the instructions need.
pub open spec fn binding(accounts: Seq<Account>, count: nat) -> Result<ContextView, AirdropError> {
    if accounts.len() >= 1 && !accounts[0].is_signer {
        Err(AirdropError::MissingRequiredSignature)
    } else if accounts.len() >= 2 && accounts[1].key@ != token_program_id() {
        Err(AirdropError::WrongProgram)
    } else if !sufficient(accounts, count) {
        Err(AirdropError::InsufficientAccounts)
    } else {
        Ok(roles(accounts, count))
    }
}

/// A list with fewer recipient accounts than instructions is not sufficient,
/// whether or not its sysvar account is there.
pub proof fn lemma_missing_recipient_is_insufficient(accounts: Seq<Account>, count: nat)
    requires
        recipients_supplied(accounts) < count,
    ensures
        !sufficient(accounts, count),
{
}

/// Binds the host's account list to roles, for `count` transfer instructions.
///
/// Nothing is changed: the roles are copies of what the list holds.
pub fn bind_accounts(accounts: &[Account], count: usize) -> (r: Result<Context, AirdropError>)
    ensures
        match r {
            Ok(ctx) => binding(accounts@, count as nat) matches Ok(roles) && roles == ctx@,
            Err(e) => binding(accounts@, count as nat) matches Err(refusal) && refusal == e,
        },
{
    let len: usize = accounts.len();
    if len > AUTHORITY_INDEX && !accounts[AUTHORITY_INDEX].is_signer {
        return Err(AirdropError::MissingRequiredSignature);
    }
    if len > TOKEN_PROGRAM_INDEX && !is_token_program(&accounts[TOKEN_PROGRAM_INDEX].key) {
        return Err(AirdropError::WrongProgram);
    }
    if len < FIXED_ACCOUNTS || len - FIXED_ACCOUNTS < count {
        return Err(AirdropError::InsufficientAccounts);
    }
    let end: usize = FIRST_RECIPIENT_INDEX + count;
    let mut wallet_token_accounts: Vec<Account> = Vec::new();
    let mut i: usize = FIRST_RECIPIENT_INDEX;
    while i < end
        invariant
            3 <= i <= end < len == accounts@.len(),
            wallet_token_accounts@ == accounts@.subrange(3, i as int),
        decreases end - i,
    {
        wallet_token_accounts.push(accounts[i]);
        assert(accounts@.subrange(3, i + 1) =~= accounts@.subrange(3, i as int).push(
            accounts@[i as int],
        ));
        i += 1;
    }
    Ok(
        Context {
            authority: accounts[AUTHORITY_INDEX],
            token_program: accounts[TOKEN_PROGRAM_INDEX],
            authority_token_account: accounts[AUTHORITY_TOKEN_ACCOUNT_INDEX],
            wallet_token_accounts,
            sysvar: accounts[end],
        },
    )
}

} // verus!
