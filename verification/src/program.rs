//! The program as the host calls it: one invocation from the payload to its
//! status.
//!
//! The ledger is reached through `invoke`, which the caller supplies: it is
//! handed one operation at a time and says whether the ledger accepted it.
//! Nothing is assumed of it. What an invocation comes to is stated over its
//! trace: the operations that were handed to `invoke`, in order, each with the
//! verdict that came back.

use vstd::prelude::*;

use crate::accounts::{
    bind_accounts, binding, recipients_supplied, sufficient, Account, Context, ContextView,
};
use crate::airdrop::{
    begin, first_step, initialization, next_step, ready, resume, transfer, transfer_step,
    LedgerOperation, LedgerOperationView, StageView, Step, StepView,
};
use crate::error::AirdropError;
use crate::ledger::token_program_id;
use crate::wire::{
    decode, deserialize_wallets, transfers, well_formed, Transfer, TransferInstruction,
};

verus! {

/// What was handed to `invoke` in the course of an invocation, in order: each
/// operation with the verdict that came back.
pub type Trace = Seq<(LedgerOperation, bool)>;

/// Whether every verdict of `trace` is one that `invoke` can give for the
/// operation it stands with.
pub open spec fn answered<F: Fn(&LedgerOperation) -> bool>(
    invoke: F,
    trace: Trace,
) -> bool {
    forall|k: int|
        0 <= k < trace.len() ==> call_ensures(invoke, (&(#[trigger] trace[k]).0,), trace[k].1)
}

/// Where the batch stands after `trace`: `None` where `trace` is no trace of
/// the batch, because it goes on after the batch has finished or holds an
/// operation that the batch did not name at that point.
pub open spec fn step_after(
    ctx: ContextView,
    wallets: Seq<Transfer>,
    trace: Trace,
) -> Option<StepView>
    decreases trace.len(),
{
    if trace.len() == 0 {
        Some(first_step(ctx, wallets))
    } else {
        match step_after(ctx, wallets, trace.drop_last()) {
            Some(StepView::Invoke { stage, operation }) => if operation == trace.last().0@ {
                Some(next_step(ctx, wallets, stage, trace.last().1))
            } else {
                None
            },
            _ => None,
        }
    }
}

/// Whether `trace` is a whole run of the batch that ends with `result`.
pub open spec fn batch_ends(
    ctx: ContextView,
    wallets: Seq<Transfer>,
    trace: Trace,
    result: Result<(), AirdropError>,
) -> bool {
    step_after(ctx, wallets, trace) == Some(StepView::Finished(result))
}

/// What is admitted to the batch: the payload is decoded, then the accounts
/// are bound for as many recipients as the payload has instructions, the
/// sysvar account after them. The first failure decides.
pub open spec fn admission(accounts: Seq<Account>, payload: Seq<u8>) -> Result<
    (ContextView, Seq<Transfer>),
    AirdropError,
> {
    if !well_formed(payload) {
        Err(AirdropError::MalformedPayload)
    } else {
        match binding(accounts, decode(payload).len()) {
            Err(e) => Err(e),
            Ok(ctx) => Ok((ctx, decode(payload))),
        }
    }
}

/// Whether `trace` is a whole run of the invocation that ends with `result`.
/// An invocation that is not admitted ends with its error and an empty trace.
pub open spec fn invocation_ends(
    accounts: Seq<Account>,
    payload: Seq<u8>,
    trace: Trace,
    result: Result<(), AirdropError>,
) -> bool {
    match admission(accounts, payload) {
        Err(e) => trace.len() == 0 && (result matches Err(failure) && failure == e),
        Ok((ctx, wallets)) => batch_ends(ctx, wallets, trace, result),
    }
}

/// How many steps can still follow `step`, at most.
spec fn steps_left(step: StepView, count: nat) -> nat {
    match step {
        StepView::Finished(_) => 0,
        StepView::Invoke { stage: StageView::Initializing, .. } => count + 2,
        StepView::Invoke { stage: StageView::Transferring(index), .. } => if index < count {
            (count - index + 1) as nat
        } else {
            1
        },
    }
}

/// Runs the batch: holds it to what it needs, initializes the authority's
/// token account where needed, then transfers to each recipient in payload
/// order, and stops at the first operation that the ledger refuses.
///
/// A batch whose authority did not sign, whose token-program reference is
/// not the token program, or which has more instructions than recipient
/// accounts fails before anything is handed to `invoke`.
///
/// `invoke` is handed each operation and answers whether the ledger accepted
/// it. The result is the one that the batch ends with on the verdicts that
/// `invoke` gave.
pub fn airdrop_tokens<F: Fn(&LedgerOperation) -> bool>(
    ctx: &Context,
    wallets: &[TransferInstruction],
    invoke: F,
) -> (r: Result<(), AirdropError>)
    requires
        forall|operation: LedgerOperation| call_requires(invoke, (&operation,)),
    ensures
        exists|trace: Trace|
            answered(invoke, trace) && #[trigger] batch_ends(
                ctx@,
                transfers(wallets@),
                trace,
                r,
            ),
        first_step(ctx@, transfers(wallets@)) is Finished ==> first_step(
            ctx@,
            transfers(wallets@),
        ) == StepView::Finished(r),
        !ctx.authority.is_signer ==> r matches Err(AirdropError::MissingRequiredSignature),
        ctx.authority.is_signer && ctx.token_program.key@ != token_program_id() ==> r matches Err(
            AirdropError::WrongProgram,
        ),
        ctx.authority.is_signer && ctx.token_program.key@ == token_program_id() && wallets@.len()
            > ctx.wallet_token_accounts@.len() ==> r matches Err(
            AirdropError::InsufficientAccounts,
        ),
        r is Ok ==> ready(ctx@, transfers(wallets@)),
        !(r matches Err(AirdropError::RecipientNotFound)),
{
    let mut step = begin(ctx, wallets);
    let ghost mut trace: Trace = Seq::empty();
    loop
        invariant
            forall|operation: LedgerOperation| call_requires(invoke, (&operation,)),
            answered(invoke, trace),
            step_after(ctx@, transfers(wallets@), trace) == Some(step@),
        decreases steps_left(step@, wallets@.len()),
    {
        match step {
            Step::Finished(result) => {
                proof {
                    assert(batch_ends(ctx@, transfers(wallets@), trace, result));
                    if first_step(ctx@, transfers(wallets@)) is Finished {
                        lemma_finished_batch_invokes_nothing(ctx@, transfers(wallets@), trace);
                    }
                    lemma_recipient_is_found(ctx@, transfers(wallets@), trace);
                }
                return result;
            },
            Step::Invoke { stage, operation } => {
                let succeeded = invoke(&operation);
                let next = resume(ctx, wallets, stage, succeeded);
                proof {
                    let longer = trace.push((operation, succeeded));
                    assert(longer.drop_last() =~= trace);
                    assert(answered(invoke, longer));
                    trace = longer;
                }
                step = next;
            },
        }
    }
}

/// The host-facing entry: decodes the payload, binds the accounts, and runs
/// the batch through `invoke`.
///
/// A payload or an account list that is refused fails the invocation before
/// the batch begins. `program_id` is the identity under which the host runs
/// this program; no decision depends on it.
pub fn entrypoint<F: Fn(&LedgerOperation) -> bool>(
    program_id: &[u8; 32],
    accounts: &[Account],
    instruction_data: &[u8],
    invoke: F,
) -> (r: Result<(), AirdropError>)
    requires
        forall|operation: LedgerOperation| call_requires(invoke, (&operation,)),
    ensures
        exists|trace: Trace|
            answered(invoke, trace) && #[trigger] invocation_ends(
                accounts@,
                instruction_data@,
                trace,
                r,
            ),
        !well_formed(instruction_data@) ==> r matches Err(AirdropError::MalformedPayload),
        well_formed(instruction_data@) && accounts@.len() >= 1 && !accounts@[0].is_signer ==> r
            matches Err(AirdropError::MissingRequiredSignature),
        well_formed(instruction_data@) && accounts@.len() >= 2 && accounts@[0].is_signer
            && accounts@[1].key@ != token_program_id() ==> r matches Err(
            AirdropError::WrongProgram,
        ),
        well_formed(instruction_data@) && (accounts@.len() >= 1 ==> accounts@[0].is_signer) && (
        accounts@.len() >= 2 ==> accounts@[1].key@ == token_program_id()) && (recipients_supplied(
            accounts@,
        ) < decode(instruction_data@).len() || !sufficient(
            accounts@,
            decode(instruction_data@).len(),
        )) ==> r matches Err(AirdropError::InsufficientAccounts),
        admission(accounts@, instruction_data@) matches Ok((ctx, wallets)) ==> (first_step(
            ctx,
            wallets,
        ) is Finished ==> first_step(ctx, wallets) == StepView::Finished(r)),
        r is Ok ==> admission(accounts@, instruction_data@) is Ok,
        !(r matches Err(AirdropError::RecipientNotFound)),
{
    let wallets = match deserialize_wallets(instruction_data) {
        Ok(wallets) => wallets,
        Err(e) => {
            assert(invocation_ends(accounts@, instruction_data@, Seq::empty(), Err(e)));
            return Err(e);
        },
    };
    assert(transfers(wallets@).len() == wallets@.len());
    let ctx = match bind_accounts(accounts, wallets.len()) {
        Ok(ctx) => ctx,
        Err(e) => {
            assert(invocation_ends(accounts@, instruction_data@, Seq::empty(), Err(e)));
            return Err(e);
        },
    };
    let r = airdrop_tokens(&ctx, wallets.as_slice(), invoke);
    proof {
        let trace = choose|trace: Trace|
            answered(invoke, trace) && #[trigger] batch_ends(ctx@, transfers(wallets@), trace, r);
        assert(invocation_ends(accounts@, instruction_data@, trace, r));
    }
    r
}

/// How many operations come before the first transfer: the initialization,
/// where the authority's token account needs it.
pub open spec fn operations_before_transfers(ctx: ContextView) -> nat {
    if ctx.authority_token_account.is_initialized {
        0
    } else {
        1
    }
}

/// The operation at position `k` of a batch that can run to its end: the
/// initialization first, where it is needed, then the transfers in payload
/// order, each to the recipient account at its instruction's position.
pub open spec fn planned(ctx: ContextView, wallets: Seq<Transfer>, k: nat) -> LedgerOperationView {
    if k < operations_before_transfers(ctx) {
        initialization(ctx)
    } else {
        let index = k - operations_before_transfers(ctx);
        transfer(ctx, wallets[index], ctx.wallet_token_accounts[index])
    }
}

/// Where a batch that can run to its end stands after `k` accepted operations.
spec fn step_at(ctx: ContextView, wallets: Seq<Transfer>, k: nat) -> StepView {
    if k < operations_before_transfers(ctx) {
        StepView::Invoke { stage: StageView::Initializing, operation: initialization(ctx) }
    } else {
        transfer_step(ctx, wallets, (k - operations_before_transfers(ctx)) as nat)
    }
}

/// A trace of accepted operations follows the plan, one operation after the
/// other.
proof fn lemma_accepted_trace(ctx: ContextView, wallets: Seq<Transfer>, trace: Trace)
    requires
        first_step(ctx, wallets) == step_at(ctx, wallets, 0),
        step_after(ctx, wallets, trace) is Some,
        forall|k: int| 0 <= k < trace.len() ==> (#[trigger] trace[k]).1,
    ensures
        step_after(ctx, wallets, trace) == Some(step_at(ctx, wallets, trace.len())),
        trace.len() <= wallets.len() + operations_before_transfers(ctx),
        forall|k: int|
            0 <= k < trace.len() ==> (#[trigger] trace[k]).0@ == planned(ctx, wallets, k as nat),
    decreases trace.len(),
{
    if trace.len() > 0 {
        let before = trace.drop_last();
        assert(before.len() == trace.len() - 1);
        assert(step_after(ctx, wallets, before) is Some);
        assert forall|k: int| 0 <= k < before.len() implies (#[trigger] before[k]).1 by {
            assert(before[k] == trace[k]);
        }
        lemma_accepted_trace(ctx, wallets, before);
        assert(trace.last().1);
        assert forall|k: int| 0 <= k < trace.len() implies (#[trigger] trace[k]).0@ == planned(
            ctx,
            wallets,
            k as nat,
        ) by {
            if k < before.len() {
                assert(before[k] == trace[k]);
            }
        }
    }
}

/// All or nothing, the success: where the batch can run to its end and the
/// ledger accepts whatever it is handed, the batch succeeds, and what was
/// invoked is the plan, whole and in order: one initialization where the
/// authority's token account needed it, then one transfer for each
/// instruction of the payload.
pub proof fn lemma_accepted_batch(
    ctx: ContextView,
    wallets: Seq<Transfer>,
    trace: Trace,
    result: Result<(), AirdropError>,
)
    requires
        ready(ctx, wallets),
        batch_ends(ctx, wallets, trace, result),
        forall|k: int| 0 <= k < trace.len() ==> (#[trigger] trace[k]).1,
    ensures
        result matches Ok(()),
        trace.len() == wallets.len() + operations_before_transfers(ctx),
        forall|k: int|
            0 <= k < trace.len() ==> (#[trigger] trace[k]).0@ == planned(ctx, wallets, k as nat),
{
    lemma_accepted_trace(ctx, wallets, trace);
}

/// All or nothing, the failure: an operation that the ledger refuses is the
/// last one of the trace. The batch ends there, with `InitializationFailed`
/// where the initialization was refused and `TransferFailed` where a transfer
/// was, and nothing is invoked after it.
pub proof fn lemma_refusal_ends_batch(
    ctx: ContextView,
    wallets: Seq<Transfer>,
    trace: Trace,
    k: int,
)
    requires
        step_after(ctx, wallets, trace) is Some,
        0 <= k < trace.len(),
        !trace[k].1,
    ensures
        k == trace.len() - 1,
        step_after(ctx, wallets, trace.drop_last()) matches Some(
            StepView::Invoke { stage, .. },
        ) && batch_ends(
            ctx,
            wallets,
            trace,
            Err(
                if stage is Initializing {
                    AirdropError::InitializationFailed
                } else {
                    AirdropError::TransferFailed
                },
            ),
        ),
    decreases trace.len(),
{
    let before = trace.drop_last();
    if k < trace.len() - 1 {
        assert(before[k] == trace[k]);
        lemma_refusal_ends_batch(ctx, wallets, before, k);
    }
}

/// All or nothing, seen from the result: a batch that succeeds was refused
/// nothing and left nothing out. Its authority signed, its token-program
/// reference is the token program, every instruction of the payload had its
/// recipient account, and what was invoked is the plan, whole and in order.
pub proof fn lemma_successful_batch(ctx: ContextView, wallets: Seq<Transfer>, trace: Trace)
    requires
        batch_ends(ctx, wallets, trace, Ok(())),
    ensures
        ready(ctx, wallets),
        trace.len() == wallets.len() + operations_before_transfers(ctx),
        forall|k: int| 0 <= k < trace.len() ==> (#[trigger] trace[k]).1,
        forall|k: int|
            0 <= k < trace.len() ==> (#[trigger] trace[k]).0@ == planned(ctx, wallets, k as nat),
{
    assert forall|k: int| 0 <= k < trace.len() implies (#[trigger] trace[k]).1 by {
        if !trace[k].1 {
            lemma_refusal_ends_batch(ctx, wallets, trace, k);
        }
    }
    if first_step(ctx, wallets) is Finished {
        lemma_finished_batch_invokes_nothing(ctx, wallets, trace);
    }
    lemma_accepted_trace(ctx, wallets, trace);
}

/// Success, exactly: a batch succeeds if and only if it can run to its end
/// and the ledger accepted every operation that it was handed.
pub proof fn lemma_success_exactly(
    ctx: ContextView,
    wallets: Seq<Transfer>,
    trace: Trace,
    result: Result<(), AirdropError>,
)
    requires
        batch_ends(ctx, wallets, trace, result),
    ensures
        result is Ok <==> ready(ctx, wallets) && forall|k: int|
            0 <= k < trace.len() ==> (#[trigger] trace[k]).1,
{
    if result is Ok {
        lemma_successful_batch(ctx, wallets, trace);
    }
    if ready(ctx, wallets) && forall|k: int| 0 <= k < trace.len() ==> (#[trigger] trace[k]).1 {
        lemma_accepted_batch(ctx, wallets, trace, result);
    }
}

/// A batch that cannot run to its end invokes nothing: its one trace is the
/// empty one, and it ends with the error of the first thing it lacks.
pub proof fn lemma_unready_batch_invokes_nothing(
    ctx: ContextView,
    wallets: Seq<Transfer>,
    trace: Trace,
)
    requires
        !ready(ctx, wallets),
        step_after(ctx, wallets, trace) is Some,
    ensures
        trace.len() == 0,
        step_after(ctx, wallets, trace) == Some(first_step(ctx, wallets)),
        first_step(ctx, wallets) is Finished,
{
    lemma_finished_batch_invokes_nothing(ctx, wallets, trace);
}

/// Once the batch has begun, every instruction finds its recipient account:
/// no trace ends in `RecipientNotFound`.
pub proof fn lemma_recipient_is_found(ctx: ContextView, wallets: Seq<Transfer>, trace: Trace)
    requires
        step_after(ctx, wallets, trace) is Some,
    ensures
        step_after(ctx, wallets, trace) != Some(
            StepView::Finished(Err(AirdropError::RecipientNotFound)),
        ),
{
    if !ready(ctx, wallets) {
        lemma_finished_batch_invokes_nothing(ctx, wallets, trace);
    } else if exists|k: int| 0 <= k < trace.len() && !(#[trigger] trace[k]).1 {
        let k = choose|k: int| 0 <= k < trace.len() && !(#[trigger] trace[k]).1;
        lemma_refusal_ends_batch(ctx, wallets, trace, k);
    } else {
        lemma_accepted_trace(ctx, wallets, trace);
    }
}

/// A batch whose first step is its end invokes nothing: its one trace is the
/// empty one. So it is with a batch whose authority did not sign.
pub proof fn lemma_finished_batch_invokes_nothing(
    ctx: ContextView,
    wallets: Seq<Transfer>,
    trace: Trace,
)
    requires
        first_step(ctx, wallets) is Finished,
        step_after(ctx, wallets, trace) is Some,
    ensures
        trace.len() == 0,
    decreases trace.len(),
{
    if trace.len() > 0 {
        let before = trace.drop_last();
        lemma_finished_batch_invokes_nothing(ctx, wallets, before);
    }
}

/// An invocation that is refused at admission invokes nothing and fails with
/// the error of its admission.
pub proof fn lemma_refused_invocation_invokes_nothing(
    accounts: Seq<Account>,
    payload: Seq<u8>,
    trace: Trace,
    result: Result<(), AirdropError>,
)
    requires
        admission(accounts, payload) is Err,
        invocation_ends(accounts, payload, trace, result),
    ensures
        trace.len() == 0,
        result matches Err(failure) && failure == admission(accounts, payload)->Err_0,
{
}

/// An admitted invocation can run to its end: its authority signed, its
/// token-program reference is the token program, and each of its instructions
/// has a recipient account.
pub proof fn lemma_admitted_invocation_is_ready(accounts: Seq<Account>, payload: Seq<u8>)
    requires
        admission(accounts, payload) is Ok,
    ensures
        ({
            let (ctx, wallets) = admission(accounts, payload)->Ok_0;
            &&& ready(ctx, wallets)
            &&& wallets == decode(payload)
            &&& ctx.authority == accounts[0]
            &&& ctx.token_program == accounts[1]
            &&& ctx.authority_token_account == accounts[2]
            &&& ctx.sysvar == accounts[3 + decode(payload).len() as int]
        }),
{
}

/// The plan of an admitted invocation binds by position: instruction `index`
/// of the payload becomes the transfer of the amount that the payload states
/// to the account at position `3 + index` of the host's list.
pub proof fn lemma_admitted_transfer(accounts: Seq<Account>, payload: Seq<u8>, index: nat)
    requires
        admission(accounts, payload) is Ok,
        index < decode(payload).len(),
    ensures
        ({
            let (ctx, wallets) = admission(accounts, payload)->Ok_0;
            planned(ctx, wallets, index + operations_before_transfers(ctx)) == transfer(
                ctx,
                decode(payload)[index as int],
                accounts[3 + index as int],
            )
        }),
{
}

} // verus!
