//! The batch step by step: which ledger operation comes next, and how the
//! batch ends.
//!
//! Nothing is invoked from here. `begin` holds the batch to what it needs and
//! names the first operation; whoever invokes it hands the ledger's verdict to
//! `resume`, which names the next one, until the batch is finished. The first
//! operation that the ledger refuses ends the batch with an error, and nothing
//! further is named.

use vstd::prelude::*;

use crate::accounts::{Account, Context, ContextView};
use crate::error::AirdropError;
use crate::ledger::{
    build_initialize_account, build_transfer, initialize_account_instruction, is_token_program,
    token_program_id, transfer_instruction, LedgerInstruction, LedgerInstructionView,
};
use crate::wire::{transfers, Transfer, TransferInstruction};

verus! {

/// What an operation is invoked for: the record to keep of the attempt.
#[derive(Clone, Copy, Debug, PartialEq, Eq)]
pub enum Purpose {
    /// The initialization of the authority's token account.
    Initialization,
    /// The transfer of `amount` units for the recipient that the payload
    /// names.
    Transfer { recipient: [u8; 32], amount: u64 },
}

/// The mathematical value of a `Purpose`.
pub enum PurposeView {
    Initialization,
    Transfer { recipient: Seq<u8>, amount: nat },
}

impl View for Purpose {
    type V = PurposeView;

    open spec fn view(&self) -> PurposeView {
        match *self {
            Purpose::Initialization => PurposeView::Initialization,
            Purpose::Transfer { recipient, amount } => PurposeView::Transfer {
                recipient: recipient@,
                amount: amount as nat,
            },
        }
    }
}

/// One operation to invoke on the ledger.
#[derive(Clone, Debug, PartialEq, Eq)]
pub struct LedgerOperation {
    /// What the operation is invoked for.
    pub purpose: Purpose,
    /// What the ledger is asked to do.
    pub instruction: LedgerInstruction,
    /// The handles of the accounts that the invocation is given, in order.
    pub accounts: Vec<usize>,
}

/// The mathematical value of a `LedgerOperation`.
pub struct LedgerOperationView {
    pub purpose: PurposeView,
    pub instruction: LedgerInstructionView,
    pub accounts: Seq<usize>,
}

impl View for LedgerOperation {
    type V = LedgerOperationView;

    open spec fn view(&self) -> LedgerOperationView {
        LedgerOperationView {
            purpose: self.purpose@,
            instruction: self.instruction@,
            accounts: self.accounts@,
        }
    }
}

/// The operation whose verdict the batch waits for.
#[derive(Clone, Copy, Debug, PartialEq, Eq, Structural)]
pub enum Stage {
    /// The initialization of the authority's token account.
    Initializing,
    /// The transfer of the instruction at this position of the payload.
    Transferring(usize),
}

/// The mathematical value of a `Stage`.
pub enum StageView {
    Initializing,
    Transferring(nat),
}

impl View for Stage {
    type V = StageView;

    open spec fn view(&self) -> StageView {
        match *self {
            Stage::Initializing => StageView::Initializing,
            Stage::Transferring(index) => StageView::Transferring(index as nat),
        }
    }
}

/// What the batch asks of its caller next.
#[derive(Debug, PartialEq, Eq)]
pub enum Step {
    /// Invoke `operation` on the ledger and report its verdict with `stage`.
    Invoke { stage: Stage, operation: LedgerOperation },
    /// The batch is over, with this result.
    Finished(Result<(), AirdropError>),
}

/// The mathematical value of a `Step`.
pub enum StepView {
    Invoke { stage: StageView, operation: LedgerOperationView },
    Finished(Result<(), AirdropError>),
}

impl View for Step {
    type V = StepView;

    open spec fn view(&self) -> StepView {
        match *self {
            Step::Invoke { stage, operation } => StepView::Invoke {
                stage: stage@,
                operation: operation@,
            },
            Step::Finished(result) => StepView::Finished(result),
        }
    }
}

/// The operation that initializes the authority's token account: for the mint
/// that the account declares, owned by the authority.
pub open spec fn initialization(ctx: ContextView) -> LedgerOperationView {
    LedgerOperationView {
        purpose: PurposeView::Initialization,
        instruction: initialize_account_instruction(
            ctx.authority_token_account.key@,
            ctx.authority_token_account.mint@,
            ctx.authority.key@,
        ),
        accounts: seq![
            ctx.authority_token_account.handle,
            ctx.authority.handle,
            ctx.token_program.handle,
            ctx.sysvar.handle,
        ],
    }
}

/// The operation that moves the amount of `wallet`, as the payload states it,
/// from the authority's token account to `recipient`, signed by the authority.
/// The record of it names the recipient as the payload does.
pub open spec fn transfer(
    ctx: ContextView,
    wallet: Transfer,
    recipient: Account,
) -> LedgerOperationView {
    LedgerOperationView {
        purpose: PurposeView::Transfer { recipient: wallet.recipient, amount: wallet.amount },
        instruction: transfer_instruction(
            ctx.authority_token_account.key@,
            recipient.key@,
            ctx.authority.key@,
            wallet.amount,
        ),
        accounts: seq![
            ctx.authority_token_account.handle,
            recipient.handle,
            ctx.authority.handle,
            ctx.token_program.handle,
        ],
    }
}

/// What initialization asks for: nothing where the authority's token account
/// is initialized already, else the one operation that initializes it.
pub open spec fn initialization_step(ctx: ContextView) -> Result<
    Option<LedgerOperationView>,
    AirdropError,
> {
    if ctx.authority_token_account.is_initialized {
        Ok(None)
    } else if ctx.token_program.key@ != token_program_id() {
        Err(AirdropError::WrongProgram)
    } else {
        Ok(Some(initialization(ctx)))
    }
}

/// The step that takes up the instruction at position `index`: the batch is
/// done when the payload has no such instruction; else the recipient is the
/// account at the same position among the recipient accounts.
pub open spec fn transfer_step(ctx: ContextView, wallets: Seq<Transfer>, index: nat) -> StepView {
    if index >= wallets.len() {
        StepView::Finished(Ok(()))
    } else if index >= ctx.wallet_token_accounts.len() {
        StepView::Finished(Err(AirdropError::RecipientNotFound))
    } else if ctx.token_program.key@ != token_program_id() {
        StepView::Finished(Err(AirdropError::WrongProgram))
    } else {
        StepView::Invoke {
            stage: StageView::Transferring(index),
            operation: transfer(ctx, wallets[index as int], ctx.wallet_token_accounts[index as int]),
        }
    }
}

/// Whether the batch on `ctx` can run to its end: the authority signed, the
/// token-program reference is the token program, and every instruction of
/// `wallets` has a recipient account.
pub open spec fn ready(ctx: ContextView, wallets: Seq<Transfer>) -> bool {
    &&& ctx.authority.is_signer
    &&& ctx.token_program.key@ == token_program_id()
    &&& wallets.len() <= ctx.wallet_token_accounts.len()
}

/// The first step of the batch. Before anything is named the batch is held
/// to what it needs, in this order: the authority signed, the token-program
/// reference is the token program, and there is a recipient account for every
/// instruction. Only then comes the initialization, where the authority's
/// token account needs it, or else the first transfer.
pub open spec fn first_step(ctx: ContextView, wallets: Seq<Transfer>) -> StepView {
    if !ctx.authority.is_signer {
        StepView::Finished(Err(AirdropError::MissingRequiredSignature))
    } else if ctx.token_program.key@ != token_program_id() {
        StepView::Finished(Err(AirdropError::WrongProgram))
    } else if wallets.len() > ctx.wallet_token_accounts.len() {
        StepView::Finished(Err(AirdropError::InsufficientAccounts))
    } else if ctx.authority_token_account.is_initialized {
        transfer_step(ctx, wallets, 0)
    } else {
        StepView::Invoke { stage: StageView::Initializing, operation: initialization(ctx) }
    }
}

/// The step after the ledger's verdict on the operation of `stage`.
pub open spec fn next_step(
    ctx: ContextView,
    wallets: Seq<Transfer>,
    stage: StageView,
    succeeded: bool,
) -> StepView {
    match stage {
        StageView::Initializing => if succeeded {
            transfer_step(ctx, wallets, 0)
        } else {
            StepView::Finished(Err(AirdropError::InitializationFailed))
        },
        StageView::Transferring(index) => if succeeded {
            transfer_step(ctx, wallets, index + 1)
        } else {
            StepView::Finished(Err(AirdropError::TransferFailed))
        },
    }
}

/// Says what initialization asks of the ledger, if anything.
///
/// An account that is initialized already asks for nothing, however often
/// this is called.
pub fn initialize_if_needed(ctx: &Context) -> (r: Result<Option<LedgerOperation>, AirdropError>)
    ensures
        ctx.authority_token_account.is_initialized ==> r matches Ok(None),
        match r {
            Ok(Some(operation)) => initialization_step(ctx@) matches Ok(Some(asked)) && asked
                == operation@,
            Ok(None) => initialization_step(ctx@) matches Ok(None),
            Err(e) => initialization_step(ctx@) matches Err(refusal) && refusal == e,
        },
{
    if ctx.authority_token_account.is_initialized {
        return Ok(None);
    }
    match build_initialize_account(
        &ctx.token_program.key,
        &ctx.authority_token_account.key,
        &ctx.authority_token_account.mint,
        &ctx.authority.key,
    ) {
        Err(_) => Err(AirdropError::WrongProgram),
        Ok(instruction) => {
            let mut accounts: Vec<usize> = Vec::new();
            accounts.push(ctx.authority_token_account.handle);
            accounts.push(ctx.authority.handle);
            accounts.push(ctx.token_program.handle);
            accounts.push(ctx.sysvar.handle);
            assert(accounts@ =~= initialization(ctx@).accounts);
            Ok(Some(LedgerOperation { purpose: Purpose::Initialization, instruction, accounts }))
        },
    }
}

/// Takes up the instruction at position `index`.
fn transfer_at(ctx: &Context, wallets: &[TransferInstruction], index: usize) -> (step: Step)
    ensures
        step@ == transfer_step(ctx@, transfers(wallets@), index as nat),
{
    if index >= wallets.len() {
        return Step::Finished(Ok(()));
    }
    if index >= ctx.wallet_token_accounts.len() {
        return Step::Finished(Err(AirdropError::RecipientNotFound));
    }
    let wallet = &wallets[index];
    let recipient = &ctx.wallet_token_accounts[index];
    match build_transfer(
        &ctx.token_program.key,
        &ctx.authority_token_account.key,
        &recipient.key,
        &ctx.authority.key,
        wallet.amount,
    ) {
        Err(_) => Step::Finished(Err(AirdropError::WrongProgram)),
        Ok(instruction) => {
            let mut accounts: Vec<usize> = Vec::new();
            accounts.push(ctx.authority_token_account.handle);
            accounts.push(recipient.handle);
            accounts.push(ctx.authority.handle);
            accounts.push(ctx.token_program.handle);
            assert(accounts@ =~= transfer(ctx@, wallet@, *recipient).accounts);
            Step::Invoke {
                stage: Stage::Transferring(index),
                operation: LedgerOperation {
                    purpose: Purpose::Transfer {
                        recipient: wallet.recipient,
                        amount: wallet.amount,
                    },
                    instruction,
                    accounts,
                },
            }
        },
    }
}

/// Starts the batch: says what to invoke first, or how the batch ends without
/// an invocation.
///
/// Nothing is named unless the authority signed, the token-program reference
/// is the token program, and every instruction has a recipient account. The
/// authority's token account is initialized first where it is not initialized
/// yet; then the transfers follow in payload order, each for the amount that
/// the payload states, to the recipient account at the instruction's own
/// position.
pub fn begin(ctx: &Context, wallets: &[TransferInstruction]) -> (step: Step)
    ensures
        step@ == first_step(ctx@, transfers(wallets@)),
        !ready(ctx@, transfers(wallets@)) ==> step@ is Finished,
{
    if !ctx.authority.is_signer {
        return Step::Finished(Err(AirdropError::MissingRequiredSignature));
    }
    if !is_token_program(&ctx.token_program.key) {
        return Step::Finished(Err(AirdropError::WrongProgram));
    }
    if wallets.len() > ctx.wallet_token_accounts.len() {
        return Step::Finished(Err(AirdropError::InsufficientAccounts));
    }
    match initialize_if_needed(ctx) {
        Err(e) => Step::Finished(Err(e)),
        Ok(Some(operation)) => Step::Invoke { stage: Stage::Initializing, operation },
        Ok(None) => transfer_at(ctx, wallets, 0),
    }
}

/// Continues the batch after the ledger's verdict on the operation of `stage`.
///
/// A refused operation ends the batch at once: `InitializationFailed` for the
/// initialization, `TransferFailed` for a transfer. After a success the next
/// instruction of the payload is taken up.
pub fn resume(
    ctx: &Context,
    wallets: &[TransferInstruction],
    stage: Stage,
    succeeded: bool,
) -> (step: Step)
    ensures
        step@ == next_step(ctx@, transfers(wallets@), stage@, succeeded),
{
    match stage {
        Stage::Initializing => {
            if succeeded {
                transfer_at(ctx, wallets, 0)
            } else {
                Step::Finished(Err(AirdropError::InitializationFailed))
            }
        },
        Stage::Transferring(index) => {
            if !succeeded {
                Step::Finished(Err(AirdropError::TransferFailed))
            } else if index >= wallets.len() {
                Step::Finished(Ok(()))
            } else {
                transfer_at(ctx, wallets, index + 1)
            }
        },
    }
}

/// `ctx` as it is once the ledger has initialized the authority's token
/// account.
pub open spec fn after_initialization(ctx: ContextView) -> ContextView {
    ContextView {
        authority_token_account: Account { is_initialized: true, ..ctx.authority_token_account },
        ..ctx
    }
}

/// Initialization is idempotent: once the authority's token account is
/// initialized, initialization asks for no operation and does not fail, and a
/// batch on it does not begin with an initialization.
pub proof fn lemma_initialization_idempotent(ctx: ContextView, wallets: Seq<Transfer>)
    ensures
        initialization_step(after_initialization(ctx)) matches Ok(None),
        !(first_step(after_initialization(ctx), wallets) matches StepView::Invoke {
            stage: StageView::Initializing,
            ..
        }),
{
}

/// Initialization comes at most once in a batch, and before every transfer:
/// no verdict is followed by an initialization, nor by the failure of one.
pub proof fn lemma_initialization_only_first(
    ctx: ContextView,
    wallets: Seq<Transfer>,
    stage: StageView,
    succeeded: bool,
)
    ensures
        !(next_step(ctx, wallets, stage, succeeded) matches StepView::Invoke {
            stage: StageView::Initializing,
            ..
        }),
        succeeded ==> next_step(ctx, wallets, stage, succeeded) != StepView::Finished(
            Err(AirdropError::InitializationFailed),
        ),
{
}

/// Nothing is invoked at the start of a batch unless the authority signed,
/// the token-program reference is the token program, and every instruction
/// has a recipient account.
pub proof fn lemma_first_invocation_is_authorized(ctx: ContextView, wallets: Seq<Transfer>)
    requires
        first_step(ctx, wallets) is Invoke,
    ensures
        ready(ctx, wallets),
{
}

/// A batch that cannot run to its end is refused at its start, with the
/// error of the first thing it lacks: the signature, then the token program,
/// then the recipient accounts.
pub proof fn lemma_unready_batch_is_refused(ctx: ContextView, wallets: Seq<Transfer>)
    requires
        !ready(ctx, wallets),
    ensures
        first_step(ctx, wallets) == StepView::Finished(
            Err(
                if !ctx.authority.is_signer {
                    AirdropError::MissingRequiredSignature
                } else if ctx.token_program.key@ != token_program_id() {
                    AirdropError::WrongProgram
                } else {
                    AirdropError::InsufficientAccounts
                },
            ),
        ),
{
}

/// A batch that can run to its end begins with the initialization where the
/// authority's token account needs it, else with the first transfer, and
/// ends at once in success where there is neither.
pub proof fn lemma_ready_batch_begins(ctx: ContextView, wallets: Seq<Transfer>)
    requires
        ready(ctx, wallets),
    ensures
        first_step(ctx, wallets) == if !ctx.authority_token_account.is_initialized {
            StepView::Invoke { stage: StageView::Initializing, operation: initialization(ctx) }
        } else if wallets.len() == 0 {
            StepView::Finished(Ok(()))
        } else {
            StepView::Invoke {
                stage: StageView::Transferring(0),
                operation: transfer(ctx, wallets[0], ctx.wallet_token_accounts[0]),
            }
        },
{
}

/// No transfer is invoked unless the token-program reference is the token
/// program, and a refused operation is followed by no invocation at all.
pub proof fn lemma_next_invocation_is_authorized(
    ctx: ContextView,
    wallets: Seq<Transfer>,
    stage: StageView,
    succeeded: bool,
)
    requires
        next_step(ctx, wallets, stage, succeeded) is Invoke,
    ensures
        succeeded,
        ctx.token_program.key@ == token_program_id(),
{
}

} // verus!
