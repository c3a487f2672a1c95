//! The message correlator's polling engine: scan the event log for the
//! watched message's resolution; while nothing resolves it, advance one
//! block and spend one unit of the wait budget.

use vstd::prelude::*;
use crate::ids::ActorId32;
use crate::ids::MessageId32;
use crate::events::Event;
use crate::events::EventView;
use crate::events::ScanHit;
use crate::events::ScanHitView;
use crate::events::scan_events;
use crate::events::spec_scan;
use crate::events::spec_status_of;
use crate::events::status_of;
use crate::events::opt_hit_view;
use crate::ledger::Ledger;
use crate::ledger::LView;
use crate::stepper::FatalError;
use crate::stepper::spec_advance;
use crate::stepper::run_to_next_block;
use crate::stepper::lemma_advance_counts_blocks;

verus! {

/// How a poll round ends: a resolving event, an exhausted budget, or a
/// stepper invariant failure.
#[verifier::ext_equal]
pub ghost enum CorrOutcomeView {
    Hit(ScanHitView),
    Exhausted,
    Fatal,
}

/// The exec counterpart of a poll result.
pub enum CorrOutcome {
    Hit(ScanHit),
    Exhausted,
    Fatal(FatalError),
}

impl View for CorrOutcome {
    type V = CorrOutcomeView;

    open spec fn view(&self) -> CorrOutcomeView {
        match self {
            CorrOutcome::Hit(h) => CorrOutcomeView::Hit(h@),
            CorrOutcome::Exhausted => CorrOutcomeView::Exhausted,
            CorrOutcome::Fatal(_) => CorrOutcomeView::Fatal,
        }
    }
}

/// The ledger and outcome after polling for up to `budget` blocks: each
/// round scans the whole log in emission order; a hit stops the poll, an
/// empty budget resolves as exhausted, and a failed block step is fatal.
pub open spec fn spec_correlate(
    l: LView,
    signer: Seq<u8>,
    contract: Seq<u8>,
    msg: Seq<u8>,
    budget: nat,
    get_waited: bool,
) -> (LView, CorrOutcomeView)
    decreases budget,
{
    if budget == 0 {
        (l, CorrOutcomeView::Exhausted)
    } else {
        match spec_scan(l.state.events, signer, contract, msg, get_waited) {
            Some(h) => (l, CorrOutcomeView::Hit(h)),
            None => {
                let a = spec_advance(l, 1, None);
                if !a.1 {
                    (a.0, CorrOutcomeView::Fatal)
                } else {
                    spec_correlate(a.0, signer, contract, msg, (budget - 1) as nat, get_waited)
                }
            },
        }
    }
}

/// Polls for the resolution of message `msg`, sent by `signer` to
/// `contract`, for up to `budget` blocks.
pub fn correlate(
    l: &mut Ledger,
    signer: &ActorId32,
    contract: &ActorId32,
    msg: &MessageId32,
    budget: u64,
    get_waited: bool,
) -> (r: CorrOutcome)
    requires
        old(l).wf(),
        old(l)@.state.block_number + budget <= u64::MAX,
    ensures
        final(l).wf(),
        (final(l)@, r@) == spec_correlate(
            old(l)@,
            signer@,
            contract@,
            msg@,
            budget as nat,
            get_waited,
        ),
{
    let mut remaining: u64 = budget;
    while remaining > 0
        invariant
            l.wf(),
            remaining <= budget,
            l@.state.block_number + remaining <= u64::MAX,
            spec_correlate(old(l)@, signer@, contract@, msg@, budget as nat, get_waited)
                == spec_correlate(l@, signer@, contract@, msg@, remaining as nat, get_waited),
        decreases remaining,
    {
        match scan_events(&l.state.events, signer, contract, msg, get_waited) {
            Some(h) => {
                return CorrOutcome::Hit(h);
            },
            None => {},
        }
        let ghost pre = l@;
        let step = run_to_next_block(l);
        match step {
            Err(f) => {
                proof {
                    assert(spec_correlate(
                        pre,
                        signer@,
                        contract@,
                        msg@,
                        remaining as nat,
                        get_waited,
                    ) == (l@, CorrOutcomeView::Fatal));
                }
                return CorrOutcome::Fatal(f);
            },
            Ok(u) => {
                proof {
                    assert(step == Ok::<(), FatalError>(u));
                    assert(spec_advance(pre, 1, None).1);
                    lemma_advance_counts_blocks(pre, 1, None);
                    assert(l@.state.block_number == pre.state.block_number + 1);
                }
            },
        }
        remaining = remaining - 1;
    }
    CorrOutcome::Exhausted
}

/// A hit in the status-only scan `send_check_result` uses: a dispatch status
/// for the watched message, or its move to the wait-list (always resolving
/// there).
pub open spec fn spec_status_hit(e: EventView, msg: Seq<u8>) -> Option<ScanHitView> {
    match e {
        EventView::MessagesDispatched { statuses } => {
            match spec_status_of(statuses, msg) {
                Some(status) => Some(ScanHitView::Dispatched { status }),
                None => None,
            }
        },
        EventView::MessageWaited { id } => {
            if id == msg {
                Some(ScanHitView::Waited)
            } else {
                None
            }
        },
        _ => None,
    }
}

/// The first status hit in an event log, scanning in emission order.
pub open spec fn spec_scan_status(events: Seq<EventView>, msg: Seq<u8>) -> Option<ScanHitView>
    decreases events.len(),
{
    if events.len() == 0 {
        None
    } else {
        match spec_status_hit(events[0], msg) {
            Some(h) => Some(h),
            None => spec_scan_status(events.drop_first(), msg),
        }
    }
}

/// Scans an event log in emission order for the first dispatch status or
/// wait-list note of message `msg`.
pub fn scan_status_events(events: &Vec<Event>, msg: &MessageId32) -> (r: Option<ScanHit>)
    ensures
        opt_hit_view(r) == spec_scan_status(crate::events::events_view(events@), msg@),
{
    let ghost ev = crate::events::events_view(events@);
    proof {
        assert(ev.skip(0) =~= ev);
    }
    let mut i: usize = 0;
    while i < events.len()
        invariant
            i <= events.len(),
            ev == crate::events::events_view(events@),
            spec_scan_status(ev, msg@) == spec_scan_status(ev.skip(i as int), msg@),
        decreases events.len() - i,
    {
        proof {
            assert(ev.skip(i as int).len() > 0);
            assert(ev.skip(i as int)[0] == ev[i as int]);
            assert(ev.skip(i as int).drop_first() =~= ev.skip(i + 1));
        }
        let hit: Option<ScanHit> = match &events[i] {
            Event::MessagesDispatched { statuses } => {
                match status_of(statuses, msg) {
                    Some(status) => Some(ScanHit::Dispatched { status }),
                    None => None,
                }
            },
            Event::MessageWaited { id } => {
                if id.equals(msg) {
                    Some(ScanHit::Waited)
                } else {
                    None
                }
            },
            _ => None,
        };
        proof {
            assert(opt_hit_view(hit) == spec_status_hit(ev[i as int], msg@));
        }
        if hit.is_some() {
            return hit;
        }
        i = i + 1;
    }
    proof {
        assert(ev.skip(events@.len() as int) =~= Seq::<EventView>::empty());
    }
    None
}

/// The ledger and outcome after the status-only poll of
/// `send_check_result`.
pub open spec fn spec_correlate_status(l: LView, msg: Seq<u8>, budget: nat) -> (
    LView,
    CorrOutcomeView,
)
    decreases budget,
{
    if budget == 0 {
        (l, CorrOutcomeView::Exhausted)
    } else {
        match spec_scan_status(l.state.events, msg) {
            Some(h) => (l, CorrOutcomeView::Hit(h)),
            None => {
                let a = spec_advance(l, 1, None);
                if !a.1 {
                    (a.0, CorrOutcomeView::Fatal)
                } else {
                    spec_correlate_status(a.0, msg, (budget - 1) as nat)
                }
            },
        }
    }
}

/// Polls for the dispatch status or wait-list note of message `msg` for up
/// to `budget` blocks.
pub fn correlate_status(l: &mut Ledger, msg: &MessageId32, budget: u64) -> (r: CorrOutcome)
    requires
        old(l).wf(),
        old(l)@.state.block_number + budget <= u64::MAX,
    ensures
        final(l).wf(),
        (final(l)@, r@) == spec_correlate_status(old(l)@, msg@, budget as nat),
{
    let mut remaining: u64 = budget;
    while remaining > 0
        invariant
            l.wf(),
            remaining <= budget,
            l@.state.block_number + remaining <= u64::MAX,
            spec_correlate_status(old(l)@, msg@, budget as nat) == spec_correlate_status(
                l@,
                msg@,
                remaining as nat,
            ),
        decreases remaining,
    {
        match scan_status_events(&l.state.events, msg) {
            Some(h) => {
                return CorrOutcome::Hit(h);
            },
            None => {},
        }
        let ghost pre = l@;
        let step = run_to_next_block(l);
        match step {
            Err(f) => {
                proof {
                    assert(spec_correlate_status(pre, msg@, remaining as nat) == (
                        l@,
                        CorrOutcomeView::Fatal,
                    ));
                }
                return CorrOutcome::Fatal(f);
            },
            Ok(u) => {
                proof {
                    assert(step == Ok::<(), FatalError>(u));
                    assert(spec_advance(pre, 1, None).1);
                    lemma_advance_counts_blocks(pre, 1, None);
                    assert(l@.state.block_number == pre.state.block_number + 1);
                }
            },
        }
        remaining = remaining - 1;
    }
    CorrOutcome::Exhausted
}

/// The status-only scan never yields a reply hit.
pub proof fn lemma_scan_status_no_reply(events: Seq<EventView>, msg: Seq<u8>)
    ensures
        !(spec_scan_status(events, msg) matches Some(ScanHitView::Reply { .. })),
    decreases events.len(),
{
    if events.len() > 0 {
        match spec_status_hit(events[0], msg) {
            Some(_) => {},
            None => {
                lemma_scan_status_no_reply(events.drop_first(), msg);
            },
        }
    }
}

/// The status-only poll never resolves with a reply hit.
pub proof fn lemma_correlate_status_no_reply(l: LView, msg: Seq<u8>, budget: nat)
    ensures
        !(spec_correlate_status(l, msg, budget).1 matches CorrOutcomeView::Hit(
            ScanHitView::Reply { .. },
        )),
    decreases budget,
{
    if budget > 0 {
        lemma_scan_status_no_reply(l.state.events, msg);
        match spec_scan_status(l.state.events, msg) {
            Some(_) => {},
            None => {
                let a = spec_advance(l, 1, None);
                if a.1 {
                    lemma_correlate_status_no_reply(a.0, msg, (budget - 1) as nat);
                }
            },
        }
    }
}

/// Polling never touches the transaction scope, and advances the block
/// number by at most the budget.
pub proof fn lemma_correlate_preserves_scope(
    l: LView,
    signer: Seq<u8>,
    contract: Seq<u8>,
    msg: Seq<u8>,
    budget: nat,
    get_waited: bool,
)
    ensures
        spec_correlate(l, signer, contract, msg, budget, get_waited).0.checkpoints
            == l.checkpoints,
        spec_correlate(l, signer, contract, msg, budget, get_waited).0.in_transaction
            == l.in_transaction,
        spec_correlate(l, signer, contract, msg, budget, get_waited).0.state.block_number
            <= l.state.block_number + budget,
    decreases budget,
{
    if budget > 0 {
        match spec_scan(l.state.events, signer, contract, msg, get_waited) {
            Some(_) => {},
            None => {
                let a = spec_advance(l, 1, None);
                crate::stepper::lemma_advance_preserves_scope(l, 1, None);
                if a.1 {
                    lemma_correlate_preserves_scope(
                        a.0,
                        signer,
                        contract,
                        msg,
                        (budget - 1) as nat,
                        get_waited,
                    );
                }
            },
        }
    }
}

/// The status-only poll never touches the transaction scope, and advances
/// the block number by at most the budget.
pub proof fn lemma_correlate_status_preserves_scope(l: LView, msg: Seq<u8>, budget: nat)
    ensures
        spec_correlate_status(l, msg, budget).0.checkpoints == l.checkpoints,
        spec_correlate_status(l, msg, budget).0.in_transaction == l.in_transaction,
        spec_correlate_status(l, msg, budget).0.state.block_number <= l.state.block_number
            + budget,
    decreases budget,
{
    if budget > 0 {
        match spec_scan_status(l.state.events, msg) {
            Some(_) => {},
            None => {
                let a = spec_advance(l, 1, None);
                crate::stepper::lemma_advance_preserves_scope(l, 1, None);
                if a.1 {
                    lemma_correlate_status_preserves_scope(a.0, msg, (budget - 1) as nat);
                }
            },
        }
    }
}

/// What the poll resolves is a function of the store and scope alone: the
/// diagnostic trace never feeds back into polling.
pub proof fn lemma_correlate_trace_independent(
    l1: LView,
    l2: LView,
    signer: Seq<u8>,
    contract: Seq<u8>,
    msg: Seq<u8>,
    budget: nat,
    get_waited: bool,
)
    requires
        l1.state == l2.state,
        l1.checkpoints == l2.checkpoints,
        l1.in_transaction == l2.in_transaction,
    ensures
        ({
            let c1 = spec_correlate(l1, signer, contract, msg, budget, get_waited);
            let c2 = spec_correlate(l2, signer, contract, msg, budget, get_waited);
            &&& c1.1 == c2.1
            &&& c1.0.state == c2.0.state
            &&& c1.0.checkpoints == c2.0.checkpoints
            &&& c1.0.in_transaction == c2.0.in_transaction
        }),
    decreases budget,
{
    if budget > 0 {
        match spec_scan(l1.state.events, signer, contract, msg, get_waited) {
            Some(_) => {},
            None => {
                let a1 = spec_advance(l1, 1, None);
                let a2 = spec_advance(l2, 1, None);
                crate::stepper::lemma_advance_trace_independent(l1, l2, 1, None);
                if a1.1 {
                    lemma_correlate_trace_independent(
                        a1.0,
                        a2.0,
                        signer,
                        contract,
                        msg,
                        (budget - 1) as nat,
                        get_waited,
                    );
                }
            },
        }
    }
}

/// No event within the next `budget` polled blocks resolves the watched
/// message, and every block step passes its queue check.
pub open spec fn spec_no_hit_within(
    l: LView,
    signer: Seq<u8>,
    contract: Seq<u8>,
    msg: Seq<u8>,
    budget: nat,
    get_waited: bool,
) -> bool
    decreases budget,
{
    budget == 0 || {
        &&& spec_scan(l.state.events, signer, contract, msg, get_waited) is None
        &&& spec_advance(l, 1, None).1
        &&& spec_no_hit_within(
            spec_advance(l, 1, None).0,
            signer,
            contract,
            msg,
            (budget - 1) as nat,
            get_waited,
        )
    }
}

/// Budget exhaustion: when no terminal event appears within the wait budget,
/// the correlator resolves as exhausted rather than polling on, and the
/// block number has advanced by exactly the budget.
pub proof fn lemma_budget_exhaustion(
    l: LView,
    signer: Seq<u8>,
    contract: Seq<u8>,
    msg: Seq<u8>,
    budget: nat,
    get_waited: bool,
)
    requires
        spec_no_hit_within(l, signer, contract, msg, budget, get_waited),
        l.state.block_number + budget <= u64::MAX,
    ensures
        spec_correlate(l, signer, contract, msg, budget, get_waited).1
            == CorrOutcomeView::Exhausted,
        spec_correlate(
            l,
            signer,
            contract,
            msg,
            budget,
            get_waited,
        ).0.state.block_number == l.state.block_number + budget,
    decreases budget,
{
    if budget > 0 {
        let a = spec_advance(l, 1, None);
        lemma_advance_counts_blocks(l, 1, None);
        lemma_budget_exhaustion(a.0, signer, contract, msg, (budget - 1) as nat, get_waited);
    }
}

} // verus!
