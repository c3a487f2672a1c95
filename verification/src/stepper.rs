//! The block stepper: the fixed, named orders in which subsystem lifecycle
//! hooks run at the end of one block and the beginning of the next, and the
//! routine that advances the chain by a given number of blocks.

use vstd::prelude::*;

verus! {

/// A ledger subsystem whose lifecycle hooks the stepper runs.
#[derive(Clone, Copy, Debug, PartialEq, Eq, Structural)]
pub enum Phase {
    System,
    Timestamp,
    Authorship,
    Session,
    Historical,
    Staking,
    Proxy,
    GearProgram,
    GearMessenger,
    GearScheduler,
    GearBank,
    Gear,
    GearGas,
    GearBuiltin,
}

/// Which end of a block a hook runs at.
#[derive(Clone, Copy, Debug, PartialEq, Eq, Structural)]
pub enum HookPoint {
    BeginBlock,
    EndBlock,
}

/// The order in which begin-of-block hooks run: system and timestamp first,
/// then every other subsystem in the reverse of the end-of-block order.
pub open spec fn spec_begin_block_order() -> Seq<Phase> {
    seq![
        Phase::System,
        Phase::Timestamp,
        Phase::Authorship,
        Phase::Session,
        Phase::Historical,
        Phase::Staking,
        Phase::Proxy,
        Phase::GearProgram,
        Phase::GearMessenger,
        Phase::GearScheduler,
        Phase::GearBank,
        Phase::Gear,
        Phase::GearGas,
        Phase::GearBuiltin,
    ]
}

/// The order in which end-of-block hooks run: settlement-critical subsystems
/// first, bookkeeping last.
pub open spec fn spec_end_block_order() -> Seq<Phase> {
    seq![
        Phase::GearBuiltin,
        Phase::GearGas,
        Phase::Gear,
        Phase::GearBank,
        Phase::GearScheduler,
        Phase::GearMessenger,
        Phase::GearProgram,
        Phase::Proxy,
        Phase::Staking,
        Phase::Historical,
        Phase::Session,
        Phase::Authorship,
    ]
}

/// The begin-of-block hook order.
pub fn begin_block_order() -> (r: Vec<Phase>)
    ensures
        r@ == spec_begin_block_order(),
{
    let r = vec![
        Phase::System,
        Phase::Timestamp,
        Phase::Authorship,
        Phase::Session,
        Phase::Historical,
        Phase::Staking,
        Phase::Proxy,
        Phase::GearProgram,
        Phase::GearMessenger,
        Phase::GearScheduler,
        Phase::GearBank,
        Phase::Gear,
        Phase::GearGas,
        Phase::GearBuiltin,
    ];
    proof {
        assert(r@ =~= spec_begin_block_order());
    }
    r
}

/// The end-of-block hook order.
pub fn end_block_order() -> (r: Vec<Phase>)
    ensures
        r@ == spec_end_block_order(),
{
    let r = vec![
        Phase::GearBuiltin,
        Phase::GearGas,
        Phase::Gear,
        Phase::GearBank,
        Phase::GearScheduler,
        Phase::GearMessenger,
        Phase::GearProgram,
        Phase::Proxy,
        Phase::Staking,
        Phase::Historical,
        Phase::Session,
        Phase::Authorship,
    ];
    proof {
        assert(r@ =~= spec_end_block_order());
    }
    r
}

/// The end-of-block order is exactly the begin-of-block order read
/// backwards, once the two leading begin-only phases (system, timestamp) are
/// set aside.
pub proof fn lemma_hook_orders_mirror()
    ensures
        spec_end_block_order() == spec_begin_block_order().skip(2).reverse(),
{
    assert(spec_end_block_order() =~= spec_begin_block_order().skip(2).reverse());
}

/// A harness invariant violation that must abort the run.
#[derive(Clone, Copy, Debug, PartialEq, Eq, Structural)]
pub enum FatalError {
    /// A block ended with queued work left over: the execution budget was
    /// insufficient.
    QueueNotProcessed,
}

/// The trace entries one block's end-of-block hooks record.
pub open spec fn block_end_trace() -> Seq<(HookPoint, Phase)> {
    spec_end_block_order().map_values(|p: Phase| (HookPoint::EndBlock, p))
}

/// The trace entries one block's begin-of-block hooks record.
pub open spec fn block_begin_trace() -> Seq<(HookPoint, Phase)> {
    spec_begin_block_order().map_values(|p: Phase| (HookPoint::BeginBlock, p))
}

/// The trace entries one whole block step records: the ending block's hooks,
/// then the new block's.
pub open spec fn block_hook_trace() -> Seq<(HookPoint, Phase)> {
    block_end_trace() + block_begin_trace()
}

/// Multiplication capped at the largest representable value.
pub open spec fn sat_mul64(a: u64, b: u64) -> u64 {
    if a * b > u64::MAX {
        u64::MAX
    } else {
        (a * b) as u64
    }
}

/// The execution allowance a budget override installs; the ledger's default
/// when none is given.
pub open spec fn allowance_of(budget: Option<u64>) -> u64 {
    match budget {
        Some(w) => w,
        None => crate::ledger::BLOCK_GAS_LIMIT,
    }
}

/// The ledger after the first half of a block step: queued work runs under
/// the installed allowance and the end-of-block hooks are recorded.
pub open spec fn spec_first_half(l: crate::ledger::LView, allowance: u64) -> crate::ledger::LView {
    crate::ledger::LView {
        state: crate::ledger::spec_run_block(l.state, allowance),
        trace: l.trace + block_end_trace(),
        ..l
    }
}

/// The ledger after the second half of a block step: the block number moves
/// on, the begin-of-block hooks are recorded, and the simulated clock is set
/// to the new block's time.
pub open spec fn spec_second_half(l: crate::ledger::LView) -> crate::ledger::LView {
    let nb = (l.state.block_number + 1) as u64;
    crate::ledger::LView {
        state: crate::ledger::LedgerView {
            block_number: nb,
            timestamp_ms: sat_mul64(nb, crate::ledger::MILLISECS_PER_BLOCK),
            ..l.state
        },
        trace: l.trace + block_begin_trace(),
        ..l
    }
}

/// The ledger after `n` block steps, and whether every step's queue check
/// passed.  A failed check stops the run right after the failing block's
/// end hooks.
pub open spec fn spec_advance(l: crate::ledger::LView, n: nat, budget: Option<u64>) -> (
    crate::ledger::LView,
    bool,
)
    decreases n,
{
    if n == 0 {
        (l, true)
    } else {
        let h = spec_first_half(l, allowance_of(budget));
        if crate::events::spec_queue_failed(h.state.events) {
            (h, false)
        } else {
            spec_advance(spec_second_half(h), (n - 1) as nat, budget)
        }
    }
}

/// Records the end-of-block hooks in order.
fn record_end_hooks(l: &mut crate::ledger::Ledger)
    requires
        old(l).wf(),
    ensures
        final(l).wf(),
        final(l)@ == (crate::ledger::LView { trace: old(l)@.trace + block_end_trace(), ..old(l)@ }),
{
    let order = end_block_order();
    let mut i: usize = 0;
    while i < order.len()
        invariant
            l.wf(),
            order@ == spec_end_block_order(),
            i <= order@.len(),
            l@ == (crate::ledger::LView {
                trace: old(l)@.trace + block_end_trace().take(i as int),
                ..old(l)@
            }),
        decreases order@.len() - i,
    {
        let ghost before = l@.trace;
        l.hook_trace.push((HookPoint::EndBlock, order[i]));
        proof {
            assert(l@.trace =~= before.push((HookPoint::EndBlock, spec_end_block_order()[i as int])));
            assert(block_end_trace()[i as int] == (HookPoint::EndBlock, spec_end_block_order()[i as int]));
            assert(l@.trace =~= old(l)@.trace + block_end_trace().take(i + 1));
            assert(l@ =~= (crate::ledger::LView {
                trace: old(l)@.trace + block_end_trace().take(i + 1),
                ..old(l)@
            }));
        }
        i = i + 1;
    }
    proof {
        assert(block_end_trace().take(block_end_trace().len() as int) =~= block_end_trace());
        assert(final(l)@ =~= (crate::ledger::LView {
            trace: old(l)@.trace + block_end_trace(),
            ..old(l)@
        }));
    }
}

/// Records the begin-of-block hooks in order and sets the simulated clock to
/// the current block's time.
pub fn run_begin_hooks(l: &mut crate::ledger::Ledger)
    requires
        old(l).wf(),
    ensures
        final(l).wf(),
        final(l)@ == (crate::ledger::LView {
            state: crate::ledger::LedgerView {
                timestamp_ms: sat_mul64(
                    old(l)@.state.block_number,
                    crate::ledger::MILLISECS_PER_BLOCK,
                ),
                ..old(l)@.state
            },
            trace: old(l)@.trace + block_begin_trace(),
            ..old(l)@
        }),
{
    let order = begin_block_order();
    let mut i: usize = 0;
    while i < order.len()
        invariant
            l.wf(),
            order@ == spec_begin_block_order(),
            i <= order@.len(),
            l@ == (crate::ledger::LView {
                trace: old(l)@.trace + block_begin_trace().take(i as int),
                ..old(l)@
            }),
        decreases order@.len() - i,
    {
        let ghost before = l@.trace;
        l.hook_trace.push((HookPoint::BeginBlock, order[i]));
        proof {
            assert(l@.trace =~= before.push((
                HookPoint::BeginBlock,
                spec_begin_block_order()[i as int],
            )));
            assert(block_begin_trace()[i as int] == (
                HookPoint::BeginBlock,
                spec_begin_block_order()[i as int],
            ));
            assert(l@.trace =~= old(l)@.trace + block_begin_trace().take(i + 1));
            assert(l@ =~= (crate::ledger::LView {
                trace: old(l)@.trace + block_begin_trace().take(i + 1),
                ..old(l)@
            }));
        }
        i = i + 1;
    }
    let block = l.state.block_number;
    let ms = if block > u64::MAX / crate::ledger::MILLISECS_PER_BLOCK {
        u64::MAX
    } else {
        block * crate::ledger::MILLISECS_PER_BLOCK
    };
    proof {
        assert(ms == sat_mul64(block, crate::ledger::MILLISECS_PER_BLOCK)) by (nonlinear_arith)
            requires
                ms == if block > u64::MAX / crate::ledger::MILLISECS_PER_BLOCK {
                    u64::MAX
                } else {
                    (block * crate::ledger::MILLISECS_PER_BLOCK) as u64
                },
                crate::ledger::MILLISECS_PER_BLOCK == 3000,
        ;
    }
    l.state.timestamp_ms = ms;
    proof {
        assert(block_begin_trace().take(block_begin_trace().len() as int) =~= block_begin_trace());
        assert(final(l)@ =~= (crate::ledger::LView {
            state: crate::ledger::LedgerView {
                timestamp_ms: sat_mul64(
                    old(l)@.state.block_number,
                    crate::ledger::MILLISECS_PER_BLOCK,
                ),
                ..old(l)@.state
            },
            trace: old(l)@.trace + block_begin_trace(),
            ..old(l)@
        }));
    }
}

/// Advances the chain by `n` blocks.  For each block, in order: install the
/// budget override (or the default allowance), run the queued work, run the
/// end-of-block hooks in their fixed order, stop the whole run if the queue
/// was not fully processed, move the block number on, and run the
/// begin-of-block hooks in their fixed order while setting the clock.
pub fn run_for_n_blocks(
    l: &mut crate::ledger::Ledger,
    n: u64,
    budget: Option<u64>,
) -> (r: Result<(), FatalError>)
    requires
        old(l).wf(),
        old(l)@.state.block_number + n <= u64::MAX,
    ensures
        final(l).wf(),
        final(l)@ == spec_advance(old(l)@, n as nat, budget).0,
        (r == Ok::<(), FatalError>(())) == spec_advance(old(l)@, n as nat, budget).1,
{
    let allowance = match budget {
        Some(w) => w,
        None => crate::ledger::BLOCK_GAS_LIMIT,
    };
    let mut done: u64 = 0;
    while done < n
        invariant
            l.wf(),
            done <= n,
            allowance == allowance_of(budget),
            l@.state.block_number == old(l)@.state.block_number + done,
            old(l)@.state.block_number + n <= u64::MAX,
            spec_advance(old(l)@, n as nat, budget) == spec_advance(
                l@,
                (n - done) as nat,
                budget,
            ),
        decreases n - done,
    {
        let ghost pre = l@;
        l.run_block(allowance);
        record_end_hooks(l);
        proof {
            crate::ledger::lemma_run_block_preserves(pre.state, allowance);
            assert(l@ =~= spec_first_half(pre, allowance));
        }
        if crate::events::queue_not_processed(&l.state.events) {
            proof {
                assert(spec_advance(pre, (n - done) as nat, budget) == (l@, false));
            }
            return Err(FatalError::QueueNotProcessed);
        }
        let ghost h = l@;
        l.state.block_number = l.state.block_number + 1;
        run_begin_hooks(l);
        proof {
            assert(l@ =~= spec_second_half(h));
        }
        done = done + 1;
    }
    Ok(())
}

/// Advances the chain by one block under the default allowance.
pub fn run_to_next_block(l: &mut crate::ledger::Ledger) -> (r: Result<(), FatalError>)
    requires
        old(l).wf(),
        old(l)@.state.block_number < u64::MAX,
    ensures
        final(l).wf(),
        final(l)@ == spec_advance(old(l)@, 1, None).0,
        (r == Ok::<(), FatalError>(())) == spec_advance(old(l)@, 1, None).1,
{
    run_for_n_blocks(l, 1, None)
}

/// A fresh test ledger: the given accounts endowed with the standard
/// endowment, the chain at block one with its begin-of-block hooks run.
pub fn new_test_ext(endowed: &Vec<u64>) -> (r: crate::ledger::Ledger)
    ensures
        r.wf(),
        r@.state.block_number == 1,
        r@.state.timestamp_ms == crate::ledger::MILLISECS_PER_BLOCK,
        r@.state.events == Seq::<crate::events::EventView>::empty(),
        r@.state.balances == crate::ledger::spec_endow(endowed@, crate::ledger::ENDOWMENT),
        r@.state.programs == Seq::<crate::ledger::ProgramView>::empty(),
        r@.state.queue == Seq::<crate::ledger::QueuedMessageView>::empty(),
        r@.checkpoints == Seq::<crate::ledger::LedgerView>::empty(),
        r@.in_transaction == false,
        r@.trace == block_begin_trace(),
{
    let mut l = crate::ledger::Ledger::new(endowed, crate::ledger::ENDOWMENT);
    run_begin_hooks(&mut l);
    proof {
        assert(Seq::<(HookPoint, Phase)>::empty() + block_begin_trace() =~= block_begin_trace());
        assert(sat_mul64(1, crate::ledger::MILLISECS_PER_BLOCK)
            == crate::ledger::MILLISECS_PER_BLOCK);
    }
    l
}

/// Block stepping never touches the transaction scope, and one step raises
/// the block number by at most one.
pub proof fn lemma_advance_preserves_scope(l: crate::ledger::LView, n: nat, budget: Option<u64>)
    ensures
        spec_advance(l, n, budget).0.checkpoints == l.checkpoints,
        spec_advance(l, n, budget).0.in_transaction == l.in_transaction,
        spec_advance(l, n, budget).0.state.block_number <= l.state.block_number + n,
    decreases n,
{
    if n > 0 {
        let h = spec_first_half(l, allowance_of(budget));
        crate::ledger::lemma_run_block_preserves(l.state, allowance_of(budget));
        if !crate::events::spec_queue_failed(h.state.events) {
            lemma_advance_preserves_scope(spec_second_half(h), (n - 1) as nat, budget);
        }
    }
}

/// What a block step does to the store and scope is a function of them
/// alone: the diagnostic trace never feeds back into stepping.
pub proof fn lemma_advance_trace_independent(
    l1: crate::ledger::LView,
    l2: crate::ledger::LView,
    n: nat,
    budget: Option<u64>,
)
    requires
        l1.state == l2.state,
        l1.checkpoints == l2.checkpoints,
        l1.in_transaction == l2.in_transaction,
    ensures
        ({
            let a1 = spec_advance(l1, n, budget);
            let a2 = spec_advance(l2, n, budget);
            &&& a1.1 == a2.1
            &&& a1.0.state == a2.0.state
            &&& a1.0.checkpoints == a2.0.checkpoints
            &&& a1.0.in_transaction == a2.0.in_transaction
        }),
    decreases n,
{
    if n > 0 {
        let h1 = spec_first_half(l1, allowance_of(budget));
        let h2 = spec_first_half(l2, allowance_of(budget));
        if !crate::events::spec_queue_failed(h1.state.events) {
            lemma_advance_trace_independent(
                spec_second_half(h1),
                spec_second_half(h2),
                (n - 1) as nat,
                budget,
            );
        }
    }
}

/// The trace `n` block steps append, blockwise.
pub open spec fn repeated_block_trace(n: nat) -> Seq<(HookPoint, Phase)>
    decreases n,
{
    if n == 0 {
        Seq::empty()
    } else {
        block_hook_trace() + repeated_block_trace((n - 1) as nat)
    }
}

/// Advancing by `n` blocks raises the block number by exactly `n`, and each
/// step records the end-of-block hooks and then the begin-of-block hooks in
/// their fixed orders.
pub proof fn lemma_advance_counts_blocks(l: crate::ledger::LView, n: nat, budget: Option<u64>)
    requires
        spec_advance(l, n, budget).1,
        l.state.block_number + n <= u64::MAX,
    ensures
        spec_advance(l, n, budget).0.state.block_number == l.state.block_number + n,
        spec_advance(l, n, budget).0.trace == l.trace + repeated_block_trace(n),
    decreases n,
{
    if n == 0 {
        assert(l.trace + repeated_block_trace(0) =~= l.trace);
    } else {
        let h = spec_first_half(l, allowance_of(budget));
        let s = spec_second_half(h);
        crate::ledger::lemma_run_block_preserves(l.state, allowance_of(budget));
        lemma_advance_counts_blocks(s, (n - 1) as nat, budget);
        assert(s.trace + repeated_block_trace((n - 1) as nat) =~= l.trace + repeated_block_trace(
            n,
        ));
    }
}

} // verus!
