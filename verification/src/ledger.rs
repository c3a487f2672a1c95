//! The model ledger the harness drives: balances, programs, a message
//! queue, an event log, and a checkpoint stack giving transactional
//! rollback over all of it.
//!
//! Contract execution itself is outside the harness; what a program does
//! with a message is supplied as data, a script of outcomes consumed one
//! message at a time.

use vstd::prelude::*;
use crate::ids::ActorId32;
use crate::ids::CodeId32;
use crate::ids::MessageId32;
use crate::ids::copy_bytes;
use crate::ids::account_of_actor_bytes;
use crate::ids::actor_bytes_of_account;
use crate::ids::message_id_bytes_of_nonce;
use crate::events::Event;
use crate::events::EventView;
use crate::events::DispatchStatus;
use crate::events::ReplyCode;
use crate::events::events_view;
use crate::events::copy_events;
use crate::balances::BalanceStore;
use crate::balances::balance_of;
use crate::balances::sat_add128;
use crate::balances::sat_sub128;
use crate::stepper::Phase;
use crate::stepper::HookPoint;

verus! {

/// One gas unit costs this many value units.
pub const GAS_MULTIPLIER: u128 = 100;

/// The execution allowance of a block when no override is installed.
pub const BLOCK_GAS_LIMIT: u64 = 100_000_000_000_000;

/// Simulated wall-clock milliseconds per block.
pub const MILLISECS_PER_BLOCK: u64 = 3_000;

/// The gas limit used when a call does not set one.
pub const DEFAULT_GAS_LIMIT: u64 = 20_000_000_000;

/// The smallest unit-bearing balance quantum.
pub const UNITS: u128 = 1_000_000_000_000;

/// One whole token.
pub const ONE_TOKEN: u128 = UNITS;

/// What every endowed account starts with.
pub const ENDOWMENT: u128 = 1_000 * UNITS;

/// The least balance an account must keep to stay alive.
pub const EXISTENTIAL_DEPOSIT: u128 = 1 * UNITS;

/// The value units charged for `gas` gas.
pub open spec fn price_of_gas(gas: u64) -> u128 {
    (gas as u128 * GAS_MULTIPLIER as u128) as u128
}

/// Converts gas units to value units with the fixed multiplier.
pub fn gas_price(gas: u64) -> (r: u128)
    ensures
        r == price_of_gas(gas),
{
    proof {
        assert(gas as u128 * GAS_MULTIPLIER as u128 <= u64::MAX as u128 * 100) by (nonlinear_arith)
            requires
                gas <= u64::MAX,
        ;
    }
    (gas as u128) * GAS_MULTIPLIER
}

/// How a program answers one executed message.
pub enum OutcomeKind {
    /// Send a reply message with this payload and code back to the sender.
    Reply { payload: Vec<u8>, code: ReplyCode },
    /// Execute successfully without a direct reply.
    Success,
    /// Fail execution.
    Failed,
    /// Skip execution.
    NotExecuted,
    /// Park the message on the wait-list.
    Wait,
}

/// One scripted execution outcome: gas burned, and what the program does.
pub struct Outcome {
    pub burned: u64,
    pub kind: OutcomeKind,
}

/// The mathematical shape of an outcome.
#[verifier::ext_equal]
pub ghost enum OutcomeKindView {
    Reply { payload: Seq<u8>, code: ReplyCode },
    Success,
    Failed,
    NotExecuted,
    Wait,
}

#[verifier::ext_equal]
pub ghost struct OutcomeView {
    pub burned: u64,
    pub kind: OutcomeKindView,
}

impl View for Outcome {
    type V = OutcomeView;

    open spec fn view(&self) -> OutcomeView {
        OutcomeView {
            burned: self.burned,
            kind: match self.kind {
                OutcomeKind::Reply { payload, code } => OutcomeKindView::Reply {
                    payload: payload@,
                    code,
                },
                OutcomeKind::Success => OutcomeKindView::Success,
                OutcomeKind::Failed => OutcomeKindView::Failed,
                OutcomeKind::NotExecuted => OutcomeKindView::NotExecuted,
                OutcomeKind::Wait => OutcomeKindView::Wait,
            },
        }
    }
}

/// The outcome assumed when a program's script is exhausted.
pub open spec fn default_outcome() -> OutcomeView {
    OutcomeView { burned: 0, kind: OutcomeKindView::Success }
}

/// A deployed program: its address, the bookkeeping account derived from it,
/// the script of outcomes its future executions consume, and the fixed reply
/// its state queries return.
pub struct Program {
    pub address: ActorId32,
    pub account: u64,
    pub script: Vec<Outcome>,
    pub query_reply: Option<Vec<u8>>,
}

#[verifier::ext_equal]
pub ghost struct ProgramView {
    pub address: Seq<u8>,
    pub account: u64,
    pub script: Seq<OutcomeView>,
    pub query_reply: Option<Seq<u8>>,
}

impl View for Program {
    type V = ProgramView;

    open spec fn view(&self) -> ProgramView {
        ProgramView {
            address: self.address@,
            account: self.account,
            script: self.script@.map_values(|o: Outcome| o@),
            query_reply: match self.query_reply {
                Some(ref b) => Some(b@),
                None => None,
            },
        }
    }
}

/// A message accepted into the queue, waiting for block execution.
pub struct QueuedMessage {
    pub id: MessageId32,
    pub source_account: u64,
    pub source: ActorId32,
    pub destination: ActorId32,
    pub payload: Vec<u8>,
    pub gas_limit: u64,
    pub value: u128,
}

#[verifier::ext_equal]
pub ghost struct QueuedMessageView {
    pub id: Seq<u8>,
    pub source_account: u64,
    pub source: Seq<u8>,
    pub destination: Seq<u8>,
    pub payload: Seq<u8>,
    pub gas_limit: u64,
    pub value: u128,
}

impl View for QueuedMessage {
    type V = QueuedMessageView;

    open spec fn view(&self) -> QueuedMessageView {
        QueuedMessageView {
            id: self.id@,
            source_account: self.source_account,
            source: self.source@,
            destination: self.destination@,
            payload: self.payload@,
            gas_limit: self.gas_limit,
            value: self.value,
        }
    }
}

/// Everything the ledger's persistent store holds; a checkpoint snapshots
/// all of it.
pub struct LedgerState {
    pub block_number: u64,
    pub timestamp_ms: u64,
    pub events: Vec<Event>,
    pub balances: BalanceStore,
    pub programs: Vec<Program>,
    pub codes: Vec<CodeId32>,
    pub queue: Vec<QueuedMessage>,
    pub next_nonce: u64,
}

#[verifier::ext_equal]
pub ghost struct LedgerView {
    pub block_number: u64,
    pub timestamp_ms: u64,
    pub events: Seq<EventView>,
    pub balances: Map<u64, u128>,
    pub programs: Seq<ProgramView>,
    pub codes: Seq<Seq<u8>>,
    pub queue: Seq<QueuedMessageView>,
    pub next_nonce: u64,
}

/// The view of a program list.
pub open spec fn programs_view(s: Seq<Program>) -> Seq<ProgramView> {
    s.map_values(|p: Program| p@)
}

/// The view of a message queue.
pub open spec fn queue_view(s: Seq<QueuedMessage>) -> Seq<QueuedMessageView> {
    s.map_values(|m: QueuedMessage| m@)
}

/// The view of a code list.
pub open spec fn codes_view(s: Seq<CodeId32>) -> Seq<Seq<u8>> {
    s.map_values(|c: CodeId32| c@)
}

impl View for LedgerState {
    type V = LedgerView;

    open spec fn view(&self) -> LedgerView {
        LedgerView {
            block_number: self.block_number,
            timestamp_ms: self.timestamp_ms,
            events: events_view(self.events@),
            balances: self.balances@,
            programs: programs_view(self.programs@),
            codes: codes_view(self.codes@),
            queue: queue_view(self.queue@),
            next_nonce: self.next_nonce,
        }
    }
}

impl LedgerState {
    /// The store's structural invariant.
    pub open spec fn wf(&self) -> bool {
        self.balances.wf()
    }
}

/// The ledger: its store, the checkpoint stack of the transaction scope, the
/// transaction flag, and the diagnostic trace of lifecycle hooks.
pub struct Ledger {
    pub state: LedgerState,
    pub checkpoints: Vec<LedgerState>,
    pub in_transaction: bool,
    pub hook_trace: Vec<(HookPoint, Phase)>,
}

#[verifier::ext_equal]
pub ghost struct LView {
    pub state: LedgerView,
    pub checkpoints: Seq<LedgerView>,
    pub in_transaction: bool,
    pub trace: Seq<(HookPoint, Phase)>,
}

/// The view of a checkpoint stack.
pub open spec fn checkpoints_view(s: Seq<LedgerState>) -> Seq<LedgerView> {
    s.map_values(|c: LedgerState| c@)
}

impl View for Ledger {
    type V = LView;

    open spec fn view(&self) -> LView {
        LView {
            state: self.state@,
            checkpoints: checkpoints_view(self.checkpoints@),
            in_transaction: self.in_transaction,
            trace: self.hook_trace@,
        }
    }
}

impl Ledger {
    /// The ledger's structural invariant.
    pub open spec fn wf(&self) -> bool {
        &&& self.state.wf()
        &&& forall|i: int| 0 <= i < self.checkpoints@.len() ==> (#[trigger] self.checkpoints@[i]).wf()
    }
}

/// Why the ledger refuses a submission.
#[derive(Clone, Copy, Debug, PartialEq, Eq, Structural)]
pub enum LedgerError {
    /// The gas limit exceeds a block's execution allowance.
    GasLimitTooHigh,
    /// The signer cannot cover the value plus the gas price.
    InsufficientBalance,
    /// A program already lives at the destination address.
    ProgramAlreadyExists,
    /// No uploaded code has the given identifier.
    CodeNotFound,
    /// No program lives at the destination address.
    ProgramNotFound,
}

/// Why a transaction-scope call is refused.
#[derive(Clone, Copy, Debug, PartialEq, Eq, Structural)]
pub enum TxError {
    /// A rollback was asked for with no open checkpoint.
    NoTransactionOpen,
}

// --- deep copies, for checkpoints ---
/// Copies one outcome.
fn copy_outcome(o: &Outcome) -> (r: Outcome)
    ensures
        r@ == o@,
{
    Outcome {
        burned: o.burned,
        kind: match &o.kind {
            OutcomeKind::Reply { payload, code } => OutcomeKind::Reply {
                payload: copy_bytes(payload),
                code: *code,
            },
            OutcomeKind::Success => OutcomeKind::Success,
            OutcomeKind::Failed => OutcomeKind::Failed,
            OutcomeKind::NotExecuted => OutcomeKind::NotExecuted,
            OutcomeKind::Wait => OutcomeKind::Wait,
        },
    }
}

/// Copies an outcome script.
pub fn copy_script(v: &Vec<Outcome>) -> (r: Vec<Outcome>)
    ensures
        r@.map_values(|o: Outcome| o@) == v@.map_values(|o: Outcome| o@),
        r@.len() == v@.len(),
{
    let mut r: Vec<Outcome> = Vec::new();
    let mut i: usize = 0;
    while i < v.len()
        invariant
            i <= v.len(),
            r@.len() == i,
            forall|j: int| 0 <= j < i ==> r@[j]@ == v@[j]@,
        decreases v.len() - i,
    {
        let o = copy_outcome(&v[i]);
        r.push(o);
        i = i + 1;
    }
    proof {
        assert(r@.map_values(|o: Outcome| o@) =~= v@.map_values(|o: Outcome| o@));
    }
    r
}

/// Copies one program.
fn copy_program(p: &Program) -> (r: Program)
    ensures
        r@ == p@,
{
    let query_reply = match &p.query_reply {
        Some(b) => Some(copy_bytes(b)),
        None => None,
    };
    let r = Program {
        address: p.address,
        account: p.account,
        script: copy_script(&p.script),
        query_reply,
    };
    proof {
        assert(r@ =~= p@);
    }
    r
}

/// Copies the program list.
fn copy_programs(v: &Vec<Program>) -> (r: Vec<Program>)
    ensures
        programs_view(r@) == programs_view(v@),
{
    let mut r: Vec<Program> = Vec::new();
    let mut i: usize = 0;
    while i < v.len()
        invariant
            i <= v.len(),
            r@.len() == i,
            forall|j: int| 0 <= j < i ==> r@[j]@ == v@[j]@,
        decreases v.len() - i,
    {
        let p = copy_program(&v[i]);
        r.push(p);
        i = i + 1;
    }
    proof {
        assert(programs_view(r@) =~= programs_view(v@));
    }
    r
}

/// Copies one queued message.
fn copy_message(m: &QueuedMessage) -> (r: QueuedMessage)
    ensures
        r@ == m@,
{
    QueuedMessage {
        id: m.id,
        source_account: m.source_account,
        source: m.source,
        destination: m.destination,
        payload: copy_bytes(&m.payload),
        gas_limit: m.gas_limit,
        value: m.value,
    }
}

/// Copies the message queue.
fn copy_queue(v: &Vec<QueuedMessage>) -> (r: Vec<QueuedMessage>)
    ensures
        queue_view(r@) == queue_view(v@),
{
    let mut r: Vec<QueuedMessage> = Vec::new();
    let mut i: usize = 0;
    while i < v.len()
        invariant
            i <= v.len(),
            r@.len() == i,
            forall|j: int| 0 <= j < i ==> r@[j]@ == v@[j]@,
        decreases v.len() - i,
    {
        let m = copy_message(&v[i]);
        r.push(m);
        i = i + 1;
    }
    proof {
        assert(queue_view(r@) =~= queue_view(v@));
    }
    r
}

/// Copies the code list.
fn copy_codes(v: &Vec<CodeId32>) -> (r: Vec<CodeId32>)
    ensures
        r@ == v@,
{
    let mut r: Vec<CodeId32> = Vec::new();
    let mut i: usize = 0;
    while i < v.len()
        invariant
            i <= v.len(),
            r@ == v@.subrange(0, i as int),
        decreases v.len() - i,
    {
        r.push(v[i]);
        proof {
            assert(r@ =~= v@.subrange(0, i + 1));
        }
        i = i + 1;
    }
    proof {
        assert(r@ =~= v@);
    }
    r
}

/// Snapshots the whole store.
fn snapshot_state(s: &LedgerState) -> (r: LedgerState)
    requires
        s.wf(),
    ensures
        r@ == s@,
        r.wf(),
{
    let r = LedgerState {
        block_number: s.block_number,
        timestamp_ms: s.timestamp_ms,
        events: copy_events(&s.events),
        balances: s.balances.duplicate(),
        programs: copy_programs(&s.programs),
        codes: copy_codes(&s.codes),
        queue: copy_queue(&s.queue),
        next_nonce: s.next_nonce,
    };
    proof {
        assert(r@ =~= s@);
    }
    r
}

// --- spec-level transitions ---
/// The nonce after one assignment.
pub open spec fn next_nonce_after(n: u64) -> u64 {
    if n == u64::MAX {
        0
    } else {
        (n + 1) as u64
    }
}

/// Why the ledger would refuse this submission, if it would.
pub open spec fn spec_submit_refusal(
    v: LedgerView,
    signer: u64,
    gas_limit: u64,
    value: u128,
) -> Option<LedgerError> {
    if gas_limit > BLOCK_GAS_LIMIT {
        Some(LedgerError::GasLimitTooHigh)
    } else if balance_of(v.balances, signer) < value + price_of_gas(gas_limit) {
        Some(LedgerError::InsufficientBalance)
    } else {
        None
    }
}

/// The store after a message is accepted: the queued event is emitted, the
/// message joins the queue, the nonce moves on.
pub open spec fn spec_submit(
    v: LedgerView,
    signer: u64,
    destination: Seq<u8>,
    payload: Seq<u8>,
    gas_limit: u64,
    value: u128,
) -> LedgerView {
    let id = message_id_bytes_of_nonce(v.next_nonce);
    let source = actor_bytes_of_account(signer);
    LedgerView {
        events: v.events.push(EventView::MessageQueued { id, source, destination }),
        queue: v.queue.push(
            QueuedMessageView {
                id,
                source_account: signer,
                source,
                destination,
                payload,
                gas_limit,
                value,
            },
        ),
        next_nonce: next_nonce_after(v.next_nonce),
        ..v
    }
}

impl Ledger {
    /// A fresh ledger at block one: each given account endowed with
    /// `endowment`, no programs, no events, an empty queue.
    pub fn new(endowed: &Vec<u64>, endowment: u128) -> (r: Ledger)
        ensures
            r.wf(),
            r@.state.block_number == 1,
            r@.state.timestamp_ms == 0,
            r@.state.events == Seq::<EventView>::empty(),
            r@.state.balances == spec_endow(endowed@, endowment),
            r@.state.programs == Seq::<ProgramView>::empty(),
            r@.state.codes == Seq::<Seq<u8>>::empty(),
            r@.state.queue == Seq::<QueuedMessageView>::empty(),
            r@.state.next_nonce == 0,
            r@.checkpoints == Seq::<LedgerView>::empty(),
            r@.in_transaction == false,
            r@.trace == Seq::<(HookPoint, Phase)>::empty(),
    {
        let mut balances = BalanceStore::new();
        let mut i: usize = 0;
        while i < endowed.len()
            invariant
                i <= endowed.len(),
                balances.wf(),
                balances@ == spec_endow(endowed@.take(i as int), endowment),
            decreases endowed.len() - i,
        {
            proof {
                assert(endowed@.take(i + 1).drop_last() =~= endowed@.take(i as int));
            }
            balances.set(endowed[i], endowment);
            i = i + 1;
        }
        proof {
            assert(endowed@.take(endowed@.len() as int) =~= endowed@);
        }
        let r = Ledger {
            state: LedgerState {
                block_number: 1,
                timestamp_ms: 0,
                events: Vec::new(),
                balances,
                programs: Vec::new(),
                codes: Vec::new(),
                queue: Vec::new(),
                next_nonce: 0,
            },
            checkpoints: Vec::new(),
            in_transaction: false,
            hook_trace: Vec::new(),
        };
        proof {
            assert(r@.state.events =~= Seq::<EventView>::empty());
            assert(r@.state.programs =~= Seq::<ProgramView>::empty());
            assert(r@.state.codes =~= Seq::<Seq<u8>>::empty());
            assert(r@.state.queue =~= Seq::<QueuedMessageView>::empty());
            assert(r@.checkpoints =~= Seq::<LedgerView>::empty());
        }
        r
    }

    /// The current block number.
    pub fn block_number(&self) -> (r: u64)
        ensures
            r == self@.state.block_number,
    {
        self.state.block_number
    }

    /// The current simulated wall-clock, in milliseconds.
    pub fn timestamp_ms(&self) -> (r: u64)
        ensures
            r == self@.state.timestamp_ms,
    {
        self.state.timestamp_ms
    }

    /// Whether a transaction scope is open.
    pub fn in_transaction(&self) -> (r: bool)
        ensures
            r == self@.in_transaction,
    {
        self.in_transaction
    }

    /// The free balance of an account.
    pub fn free_balance_of(&self, account: u64) -> (r: u128)
        requires
            self.wf(),
        ensures
            r == balance_of(self@.state.balances, account),
    {
        self.state.balances.get(account)
    }

    /// Whether the message queue is empty.
    pub fn message_queue_empty(&self) -> (r: bool)
        ensures
            r == (self@.state.queue.len() == 0),
    {
        self.state.queue.len() == 0
    }

    /// Clears the event log.
    pub fn reset_events(&mut self)
        ensures
            final(self)@ == (LView { state: LedgerView { events: Seq::empty(), ..old(self)@.state }, ..old(self)@ }),
            final(self).wf() == old(self).wf(),
    {
        self.state.events = Vec::new();
        proof {
            assert(self@.state.events =~= Seq::<EventView>::empty());
            assert(self@ =~= (LView {
                state: LedgerView { events: Seq::empty(), ..old(self)@.state },
                ..old(self)@
            }));
        }
    }

    /// Pushes a storage checkpoint and marks the scope open.
    pub fn start_transaction(&mut self)
        requires
            old(self).wf(),
        ensures
            final(self).wf(),
            final(self)@ == (LView {
                checkpoints: old(self)@.checkpoints.push(old(self)@.state),
                in_transaction: true,
                ..old(self)@
            }),
    {
        let cp = snapshot_state(&self.state);
        self.checkpoints.push(cp);
        self.in_transaction = true;
        proof {
            assert(checkpoints_view(self.checkpoints@) =~= checkpoints_view(
                old(self).checkpoints@,
            ).push(old(self)@.state));
            assert(self@ =~= (LView {
                checkpoints: old(self)@.checkpoints.push(old(self)@.state),
                in_transaction: true,
                ..old(self)@
            }));
        }
    }

    /// Pops the most recent checkpoint, restoring every storage write made
    /// since it, and marks the scope closed.  Fails loudly when no
    /// checkpoint is open.
    pub fn rollback_transaction(&mut self) -> (r: Result<(), TxError>)
        requires
            old(self).wf(),
        ensures
            final(self).wf(),
            old(self)@.checkpoints.len() == 0 ==> r == Err::<(), TxError>(TxError::NoTransactionOpen)
                && final(self)@ == old(self)@,
            old(self)@.checkpoints.len() > 0 ==> r == Ok::<(), TxError>(()) && final(self)@ == (
            LView {
                state: old(self)@.checkpoints.last(),
                checkpoints: old(self)@.checkpoints.drop_last(),
                in_transaction: false,
                ..old(self)@
            }),
    {
        match self.checkpoints.pop() {
            Some(cp) => {
                self.state = cp;
                self.in_transaction = false;
                proof {
                    assert(checkpoints_view(self.checkpoints@) =~= old(
                        self,
                    )@.checkpoints.drop_last());
                    assert(old(self)@.checkpoints.last() == old(self).checkpoints@.last()@);
                    assert(self@ =~= (LView {
                        state: old(self)@.checkpoints.last(),
                        checkpoints: old(self)@.checkpoints.drop_last(),
                        in_transaction: false,
                        ..old(self)@
                    }));
                }
                Ok(())
            },
            None => {
                proof {
                    assert(self@ =~= old(self)@);
                }
                Err(TxError::NoTransactionOpen)
            },
        }
    }

    /// Submits a message from `signer` to `destination`.  Refused exactly
    /// when the gas limit exceeds a block's allowance or the signer cannot
    /// cover the value plus the gas price; otherwise the message is queued
    /// under a fresh identifier and the queued event is emitted.
    pub fn submit_message(
        &mut self,
        signer: u64,
        destination: &ActorId32,
        payload: Vec<u8>,
        gas_limit: u64,
        value: u128,
    ) -> (r: Result<MessageId32, LedgerError>)
        requires
            old(self).wf(),
        ensures
            final(self).wf(),
            match spec_submit_refusal(old(self)@.state, signer, gas_limit, value) {
                Some(e) => r == Err::<MessageId32, LedgerError>(e) && final(self)@ == old(self)@,
                None => r matches Ok(id) && id@ == message_id_bytes_of_nonce(
                    old(self)@.state.next_nonce,
                ) && final(self)@ == (LView {
                    state: spec_submit(
                        old(self)@.state,
                        signer,
                        destination@,
                        payload@,
                        gas_limit,
                        value,
                    ),
                    ..old(self)@
                }),
            },
    {
        if gas_limit > BLOCK_GAS_LIMIT {
            return Err(LedgerError::GasLimitTooHigh);
        }
        let price = gas_price(gas_limit);
        let balance = self.state.balances.get(signer);
        if balance < value || balance - value < price {
            return Err(LedgerError::InsufficientBalance);
        }
        let id = MessageId32::from_nonce(self.state.next_nonce);
        let source = ActorId32::from_account(signer);
        self.state.events.push(
            Event::MessageQueued { id, source, destination: *destination },
        );
        self.state.queue.push(
            QueuedMessage {
                id,
                source_account: signer,
                source,
                destination: *destination,
                payload,
                gas_limit,
                value,
            },
        );
        self.state.next_nonce = if self.state.next_nonce == u64::MAX {
            0
        } else {
            self.state.next_nonce + 1
        };
        proof {
            assert(events_view(self.state.events@) =~= old(self)@.state.events.push(
                EventView::MessageQueued {
                    id: id@,
                    source: actor_bytes_of_account(signer),
                    destination: destination@,
                },
            ));
            assert(queue_view(self.state.queue@) =~= old(self)@.state.queue.push(
                QueuedMessageView {
                    id: id@,
                    source_account: signer,
                    source: actor_bytes_of_account(signer),
                    destination: destination@,
                    payload: payload@,
                    gas_limit,
                    value,
                },
            ));
            assert(final(self)@ =~= (LView {
                state: spec_submit(
                    old(self)@.state,
                    signer,
                    destination@,
                    payload@,
                    gas_limit,
                    value,
                ),
                ..old(self)@
            }));
        }
        Ok(id)
    }
}

/// The balance map after the given accounts are each endowed.
pub open spec fn spec_endow(accounts: Seq<u64>, endowment: u128) -> Map<u64, u128>
    decreases accounts.len(),
{
    if accounts.len() == 0 {
        Map::empty()
    } else {
        spec_endow(accounts.drop_last(), endowment).insert(accounts.last(), endowment)
    }
}

/// The index of the first program at `addr`.
pub open spec fn spec_find_program(programs: Seq<ProgramView>, addr: Seq<u8>) -> Option<int>
    decreases programs.len(),
{
    if programs.len() == 0 {
        None
    } else if programs[0].address == addr {
        Some(0int)
    } else {
        match spec_find_program(programs.drop_first(), addr) {
            Some(i) => Some(i + 1),
            None => None,
        }
    }
}

/// What the first-program index means pointwise.
pub proof fn lemma_find_program_props(programs: Seq<ProgramView>, addr: Seq<u8>)
    ensures
        match spec_find_program(programs, addr) {
            Some(i) => 0 <= i < programs.len() && programs[i].address == addr && forall|j: int|
                0 <= j < i ==> (#[trigger] programs[j]).address != addr,
            None => forall|j: int|
                0 <= j < programs.len() ==> (#[trigger] programs[j]).address != addr,
        },
    decreases programs.len(),
{
    if programs.len() > 0 {
        lemma_find_program_props(programs.drop_first(), addr);
        if programs[0].address != addr {
            assert(forall|j: int|
                0 < j < programs.len() ==> #[trigger] programs[j]
                    == programs.drop_first()[j - 1]);
        }
    }
}

/// The smaller of two gas amounts.
pub open spec fn min64(a: u64, b: u64) -> u64 {
    if a < b {
        a
    } else {
        b
    }
}

/// A balance map after a capped debit.
pub open spec fn spec_debit(m: Map<u64, u128>, account: u64, amount: u128) -> Map<u64, u128> {
    m.insert(account, sat_sub128(balance_of(m, account), amount))
}

/// A balance map after a capped credit.
pub open spec fn spec_credit(m: Map<u64, u128>, account: u64, amount: u128) -> Map<u64, u128> {
    m.insert(account, sat_add128(balance_of(m, account), amount))
}

/// A balance map after `amount` moves from one account to another.
pub open spec fn spec_transfer(m: Map<u64, u128>, from: u64, to: u64, amount: u128) -> Map<
    u64,
    u128,
> {
    spec_credit(spec_debit(m, from, amount), to, amount)
}

/// A gas estimate as the ledger's dry run reports it, in gas units.
#[derive(Clone, Copy, Debug, PartialEq, Eq, Structural)]
pub struct GasInfo {
    pub min_limit: u64,
    pub burned: u64,
    pub reserved: u64,
    pub may_be_returned: u64,
    pub waited: bool,
}

/// The dry-run gas estimate for the next message to `dest`: what its
/// program's pending outcome will burn.  `None` when no program lives there.
pub open spec fn spec_estimate(v: LedgerView, dest: Seq<u8>) -> Option<GasInfo> {
    match spec_find_program(v.programs, dest) {
        None => None,
        Some(pi) => {
            let p = v.programs[pi];
            let outcome = if p.script.len() > 0 {
                p.script[0]
            } else {
                default_outcome()
            };
            Some(
                GasInfo {
                    min_limit: outcome.burned,
                    burned: outcome.burned,
                    reserved: 0,
                    may_be_returned: 0,
                    waited: outcome.kind is Wait,
                },
            )
        },
    }
}

/// The store after one message executes.  A message to an address without a
/// program is a plain transfer; a message to a program consumes the head of
/// its outcome script (or a burn-free success when the script is empty),
/// is charged the burned gas capped by its gas limit, moves its value on
/// success, and emits the outcome's events in execution order.
pub open spec fn spec_execute_message(v: LedgerView, m: QueuedMessageView) -> LedgerView {
    match spec_find_program(v.programs, m.destination) {
        None => LedgerView {
            balances: spec_transfer(
                v.balances,
                m.source_account,
                account_of_actor_bytes(m.destination),
                m.value,
            ),
            events: v.events.push(
                EventView::MessagesDispatched {
                    statuses: seq![(m.id, DispatchStatus::Success)],
                },
            ),
            ..v
        },
        Some(pi) => {
            let p = v.programs[pi];
            let outcome = if p.script.len() > 0 {
                p.script[0]
            } else {
                default_outcome()
            };
            let programs = if p.script.len() > 0 {
                v.programs.update(pi, ProgramView { script: p.script.drop_first(), ..p })
            } else {
                v.programs
            };
            let charged = spec_debit(
                v.balances,
                m.source_account,
                price_of_gas(min64(outcome.burned, m.gas_limit)),
            );
            match outcome.kind {
                OutcomeKindView::Reply { payload, code } => {
                    let ok = code is Success;
                    LedgerView {
                        balances: if ok {
                            spec_transfer(charged, m.source_account, p.account, m.value)
                        } else {
                            charged
                        },
                        programs,
                        events: v.events.push(
                            EventView::UserMessageSent {
                                source: p.address,
                                destination: m.source,
                                payload,
                                code: Some(code),
                            },
                        ).push(
                            EventView::MessagesDispatched {
                                statuses: seq![
                                    (
                                        m.id,
                                        if ok {
                                            DispatchStatus::Success
                                        } else {
                                            DispatchStatus::Failed
                                        },
                                    ),
                                ],
                            },
                        ),
                        ..v
                    }
                },
                OutcomeKindView::Success => LedgerView {
                    balances: spec_transfer(charged, m.source_account, p.account, m.value),
                    programs,
                    events: v.events.push(
                        EventView::MessagesDispatched {
                            statuses: seq![(m.id, DispatchStatus::Success)],
                        },
                    ),
                    ..v
                },
                OutcomeKindView::Failed => LedgerView {
                    balances: charged,
                    programs,
                    events: v.events.push(
                        EventView::MessagesDispatched {
                            statuses: seq![(m.id, DispatchStatus::Failed)],
                        },
                    ),
                    ..v
                },
                OutcomeKindView::NotExecuted => LedgerView {
                    balances: charged,
                    programs,
                    events: v.events.push(
                        EventView::MessagesDispatched {
                            statuses: seq![(m.id, DispatchStatus::NotExecuted)],
                        },
                    ),
                    ..v
                },
                OutcomeKindView::Wait => LedgerView {
                    balances: charged,
                    programs,
                    events: v.events.push(EventView::MessageWaited { id: m.id }),
                    ..v
                },
            }
        },
    }
}

/// Executes messages front to back while each fits the remaining allowance;
/// returns the store and the messages left unexecuted.
pub open spec fn spec_drain(
    v: LedgerView,
    msgs: Seq<QueuedMessageView>,
    remaining: u64,
) -> (LedgerView, Seq<QueuedMessageView>)
    decreases msgs.len(),
{
    if msgs.len() == 0 {
        (v, Seq::empty())
    } else if msgs[0].gas_limit <= remaining {
        spec_drain(
            spec_execute_message(v, msgs[0]),
            msgs.drop_first(),
            (remaining - msgs[0].gas_limit) as u64,
        )
    } else {
        (v, msgs)
    }
}

/// The store after one block's queued work runs under `allowance`: the queue
/// drains front to back while messages fit; whatever is left stays queued
/// and the queue-not-processed event is emitted.
pub open spec fn spec_run_block(v: LedgerView, allowance: u64) -> LedgerView {
    let emptied = LedgerView { queue: Seq::empty(), ..v };
    let dr = spec_drain(emptied, v.queue, allowance);
    if dr.1.len() == 0 {
        dr.0
    } else {
        LedgerView { queue: dr.1, events: dr.0.events.push(EventView::QueueNotProcessed), ..dr.0 }
    }
}

impl Ledger {
    /// The index of the first program at `addr`.
    fn find_program_index(&self, addr: &ActorId32) -> (r: Option<usize>)
        ensures
            match r {
                Some(i) => spec_find_program(self@.state.programs, addr@) == Some(i as int),
                None => spec_find_program(self@.state.programs, addr@) is None,
            },
    {
        proof {
            lemma_find_program_props(self@.state.programs, addr@);
        }
        let mut i: usize = 0;
        while i < self.state.programs.len()
            invariant
                i <= self.state.programs@.len(),
                forall|j: int|
                    0 <= j < i ==> (#[trigger] self@.state.programs[j]).address != addr@,
            decreases self.state.programs@.len() - i,
        {
            if self.state.programs[i].address.equals(addr) {
                proof {
                    lemma_find_program_props(self@.state.programs, addr@);
                    match spec_find_program(self@.state.programs, addr@) {
                        Some(k) => {
                            assert(!(k < i) && !(i < k));
                        },
                        None => {
                            assert(self@.state.programs[i as int].address == addr@);
                        },
                    }
                }
                return Some(i);
            }
            i = i + 1;
        }
        proof {
            lemma_find_program_props(self@.state.programs, addr@);
        }
        None
    }

    /// Whether a program lives at `addr`.
    pub fn program_exists(&self, addr: &ActorId32) -> (r: bool)
        ensures
            r == (spec_find_program(self@.state.programs, addr@) is Some),
    {
        self.find_program_index(addr).is_some()
    }

    /// Records an uploaded code identifier; uploading the same code twice
    /// leaves the list unchanged.
    pub fn register_code(&mut self, code_id: &CodeId32)
        requires
            old(self).wf(),
        ensures
            final(self).wf(),
            final(self)@ == (LView {
                state: LedgerView {
                    codes: if old(self)@.state.codes.contains(code_id@) {
                        old(self)@.state.codes
                    } else {
                        old(self)@.state.codes.push(code_id@)
                    },
                    ..old(self)@.state
                },
                ..old(self)@
            }),
    {
        let mut i: usize = 0;
        while i < self.state.codes.len()
            invariant
                old(self).wf(),
                self@ == old(self)@,
                self.wf(),
                i <= self.state.codes@.len(),
                forall|j: int| 0 <= j < i ==> (#[trigger] self@.state.codes[j]) != code_id@,
            decreases self.state.codes@.len() - i,
        {
            if self.state.codes[i].equals(code_id) {
                proof {
                    assert(self@.state.codes[i as int] == code_id@);
                    assert(self@.state.codes.contains(code_id@));
                    assert(old(self)@ =~~= (LView {
                        state: LedgerView { codes: old(self)@.state.codes, ..old(self)@.state },
                        ..old(self)@
                    }));
                }
                return ;
            }
            i = i + 1;
        }
        proof {
            if old(self)@.state.codes.contains(code_id@) {
                let j = choose|j: int|
                    0 <= j < old(self)@.state.codes.len() && old(self)@.state.codes[j] == code_id@;
                assert(false);
            }
        }
        self.state.codes.push(*code_id);
        proof {
            assert(codes_view(self.state.codes@) =~~= old(self)@.state.codes.push(code_id@));
            assert(final(self)@ =~~= (LView {
                state: LedgerView {
                    codes: old(self)@.state.codes.push(code_id@),
                    ..old(self)@.state
                },
                ..old(self)@
            }));
        }
    }

    /// Whether a code identifier was uploaded.
    pub fn code_known(&self, code_id: &CodeId32) -> (r: bool)
        ensures
            r == self@.state.codes.contains(code_id@),
    {
        let mut i: usize = 0;
        while i < self.state.codes.len()
            invariant
                i <= self.state.codes@.len(),
                forall|j: int| 0 <= j < i ==> (#[trigger] self@.state.codes[j]) != code_id@,
            decreases self.state.codes@.len() - i,
        {
            if self.state.codes[i].equals(code_id) {
                proof {
                    assert(self@.state.codes[i as int] == code_id@);
                    assert(self@.state.codes.contains(code_id@));
                }
                return true;
            }
            i = i + 1;
        }
        proof {
            if self@.state.codes.contains(code_id@) {
                let j = choose|j: int|
                    0 <= j < self@.state.codes.len() && self@.state.codes[j] == code_id@;
                assert(false);
            }
        }
        false
    }

    /// Installs a program at `address` and queues its constructor message.
    /// Refused when a program already lives there, or on the submission
    /// refusals of `submit_message`.
    pub fn submit_program(
        &mut self,
        signer: u64,
        address: &ActorId32,
        payload: Vec<u8>,
        gas_limit: u64,
        value: u128,
    ) -> (r: Result<MessageId32, LedgerError>)
        requires
            old(self).wf(),
        ensures
            final(self).wf(),
            spec_find_program(old(self)@.state.programs, address@) is Some ==> r == Err::<
                MessageId32,
                LedgerError,
            >(LedgerError::ProgramAlreadyExists) && final(self)@ == old(self)@,
            spec_find_program(old(self)@.state.programs, address@) is None ==> match
                spec_submit_refusal(old(self)@.state, signer, gas_limit, value) {
                Some(e) => r == Err::<MessageId32, LedgerError>(e) && final(self)@ == old(self)@,
                None => r matches Ok(id) && id@ == message_id_bytes_of_nonce(
                    old(self)@.state.next_nonce,
                ) && final(self)@ == (LView {
                    state: spec_submit(
                        spec_install_program(old(self)@.state, address@),
                        signer,
                        address@,
                        payload@,
                        gas_limit,
                        value,
                    ),
                    ..old(self)@
                }),
            },
    {
        if self.find_program_index(address).is_some() {
            return Err(LedgerError::ProgramAlreadyExists);
        }
        if gas_limit > BLOCK_GAS_LIMIT {
            return Err(LedgerError::GasLimitTooHigh);
        }
        let price = gas_price(gas_limit);
        let balance = self.state.balances.get(signer);
        if balance < value || balance - value < price {
            return Err(LedgerError::InsufficientBalance);
        }
        let account = address.to_account();
        self.state.programs.push(
            Program { address: *address, account, script: Vec::new(), query_reply: None },
        );
        proof {
            assert(programs_view(self.state.programs@) =~~= old(self)@.state.programs.push(
                ProgramView {
                    address: address@,
                    account: account_of_actor_bytes(address@),
                    script: Seq::empty(),
                    query_reply: None,
                },
            ));
            assert(self@.state =~~= spec_install_program(old(self)@.state, address@));
        }
        let r = self.submit_message(signer, address, payload, gas_limit, value);
        proof {
            assert(final(self)@ =~~= (LView {
                state: spec_submit(
                    spec_install_program(old(self)@.state, address@),
                    signer,
                    address@,
                    payload@,
                    gas_limit,
                    value,
                ),
                ..old(self)@
            }));
        }
        r
    }

    /// Replaces the outcome script of the program at `address`.
    pub fn set_program_script(&mut self, address: &ActorId32, script: Vec<Outcome>) -> (r: Result<
        (),
        LedgerError,
    >)
        requires
            old(self).wf(),
        ensures
            final(self).wf(),
            match spec_find_program(old(self)@.state.programs, address@) {
                Some(pi) => r == Ok::<(), LedgerError>(()) && final(self)@ == (LView {
                    state: LedgerView {
                        programs: old(self)@.state.programs.update(
                            pi,
                            ProgramView {
                                script: script@.map_values(|o: Outcome| o@),
                                ..old(self)@.state.programs[pi]
                            },
                        ),
                        ..old(self)@.state
                    },
                    ..old(self)@
                }),
                None => r == Err::<(), LedgerError>(LedgerError::ProgramNotFound) && final(self)@
                    == old(self)@,
            },
    {
        match self.find_program_index(address) {
            Some(i) => {
                proof {
                    lemma_find_program_props(self@.state.programs, address@);
                }
                let mut p = self.state.programs.remove(i);
                p.script = script;
                self.state.programs.insert(i, p);
                proof {
                    assert(programs_view(self.state.programs@) =~~= old(
                        self,
                    )@.state.programs.update(
                        i as int,
                        ProgramView {
                            script: script@.map_values(|o: Outcome| o@),
                            ..old(self)@.state.programs[i as int]
                        },
                    ));
                    assert(final(self)@ =~~= (LView {
                        state: LedgerView {
                            programs: old(self)@.state.programs.update(
                                i as int,
                                ProgramView {
                                    script: script@.map_values(|o: Outcome| o@),
                                    ..old(self)@.state.programs[i as int]
                                },
                            ),
                            ..old(self)@.state
                        },
                        ..old(self)@
                    }));
                }
                Ok(())
            },
            None => Err(LedgerError::ProgramNotFound),
        }
    }

    /// Sets the fixed reply the program at `address` returns to state
    /// queries.
    pub fn set_query_reply(&mut self, address: &ActorId32, reply: Vec<u8>) -> (r: Result<
        (),
        LedgerError,
    >)
        requires
            old(self).wf(),
        ensures
            final(self).wf(),
            match spec_find_program(old(self)@.state.programs, address@) {
                Some(pi) => r == Ok::<(), LedgerError>(()) && final(self)@ == (LView {
                    state: LedgerView {
                        programs: old(self)@.state.programs.update(
                            pi,
                            ProgramView {
                                query_reply: Some(reply@),
                                ..old(self)@.state.programs[pi]
                            },
                        ),
                        ..old(self)@.state
                    },
                    ..old(self)@
                }),
                None => r == Err::<(), LedgerError>(LedgerError::ProgramNotFound) && final(self)@
                    == old(self)@,
            },
    {
        match self.find_program_index(address) {
            Some(i) => {
                proof {
                    lemma_find_program_props(self@.state.programs, address@);
                }
                let mut p = self.state.programs.remove(i);
                p.query_reply = Some(reply);
                self.state.programs.insert(i, p);
                proof {
                    assert(programs_view(self.state.programs@) =~~= old(
                        self,
                    )@.state.programs.update(
                        i as int,
                        ProgramView {
                            query_reply: Some(reply@),
                            ..old(self)@.state.programs[i as int]
                        },
                    ));
                    assert(final(self)@ =~~= (LView {
                        state: LedgerView {
                            programs: old(self)@.state.programs.update(
                                i as int,
                                ProgramView {
                                    query_reply: Some(reply@),
                                    ..old(self)@.state.programs[i as int]
                                },
                            ),
                            ..old(self)@.state
                        },
                        ..old(self)@
                    }));
                }
                Ok(())
            },
            None => Err(LedgerError::ProgramNotFound),
        }
    }

    /// The dry-run gas estimate for the next message to `destination`,
    /// without touching the store.
    pub fn estimate_gas(&self, destination: &ActorId32) -> (r: Result<GasInfo, LedgerError>)
        ensures
            match spec_estimate(self@.state, destination@) {
                Some(info) => r == Ok::<GasInfo, LedgerError>(info),
                None => r == Err::<GasInfo, LedgerError>(LedgerError::ProgramNotFound),
            },
    {
        match self.find_program_index(destination) {
            Some(i) => {
                proof {
                    lemma_find_program_props(self@.state.programs, destination@);
                }
                let p_script_len = self.state.programs[i].script.len();
                let (burned, waited) = if p_script_len > 0 {
                    let o = &self.state.programs[i].script[0];
                    (
                        o.burned,
                        match o.kind {
                            OutcomeKind::Wait => true,
                            _ => false,
                        },
                    )
                } else {
                    (0, false)
                };
                Ok(GasInfo { min_limit: burned, burned, reserved: 0, may_be_returned: 0, waited })
            },
            None => Err(LedgerError::ProgramNotFound),
        }
    }

    /// Reads the scripted state-query reply of the program at `destination`.
    /// Refused when no program lives there or none was scripted.
    pub fn read_state(&self, destination: &ActorId32) -> (r: Result<Vec<u8>, LedgerError>)
        ensures
            match spec_find_program(self@.state.programs, destination@) {
                Some(pi) => match self@.state.programs[pi].query_reply {
                    Some(b) => r matches Ok(v) && v@ == b,
                    None => r == Err::<Vec<u8>, LedgerError>(LedgerError::ProgramNotFound),
                },
                None => r == Err::<Vec<u8>, LedgerError>(LedgerError::ProgramNotFound),
            },
    {
        match self.find_program_index(destination) {
            Some(i) => {
                proof {
                    lemma_find_program_props(self@.state.programs, destination@);
                }
                match &self.state.programs[i].query_reply {
                    Some(b) => Ok(copy_bytes(b)),
                    None => Err(LedgerError::ProgramNotFound),
                }
            },
            None => Err(LedgerError::ProgramNotFound),
        }
    }

    /// Executes one message against the store.
    fn execute_message(&mut self, m: QueuedMessage)
        requires
            old(self).wf(),
        ensures
            final(self).wf(),
            final(self)@ == (LView {
                state: spec_execute_message(old(self)@.state, m@),
                ..old(self)@
            }),
    {
        let ghost sv = spec_execute_message(old(self)@.state, m@);
        match self.find_program_index(&m.destination) {
            None => {
                let dest = m.destination.to_account();
                self.state.balances.debit(m.source_account, m.value);
                self.state.balances.credit(dest, m.value);
                self.state.events.push(
                    Event::MessagesDispatched {
                        statuses: vec![(m.id, DispatchStatus::Success)],
                    },
                );
                proof {
                    assert(events_view(self.state.events@) =~~= old(self)@.state.events.push(
                        EventView::MessagesDispatched {
                            statuses: seq![(m.id@, DispatchStatus::Success)],
                        },
                    ));
                    assert(self@.state =~~= sv);
                    assert(self@ =~~= (LView { state: sv, ..old(self)@ }));
                }
            },
            Some(pi) => {
                proof {
                    lemma_find_program_props(self@.state.programs, m.destination@);
                }
                let ghost op = old(self)@.state.programs[pi as int];
                proof {
                    assert(op == old(self).state.programs@[pi as int]@);
                }
                let p_account = self.state.programs[pi].account;
                let p_address = self.state.programs[pi].address;
                let has_script = self.state.programs[pi].script.len() > 0;
                let outcome: Outcome = if has_script {
                    let mut p = self.state.programs.remove(pi);
                    let o = p.script.remove(0);
                    self.state.programs.insert(pi, p);
                    proof {
                        assert(o@ == old(self).state.programs@[pi as int].script@.map_values(
                            |x: Outcome| x@,
                        )[0]);
                        assert(o@ == op.script[0]);
                        assert(p@.script =~~= op.script.drop_first());
                        assert(p@ =~~= (ProgramView { script: op.script.drop_first(), ..op }));
                        assert(programs_view(self.state.programs@) =~~= old(
                            self,
                        )@.state.programs.update(
                            pi as int,
                            ProgramView { script: op.script.drop_first(), ..op },
                        ));
                    }
                    o
                } else {
                    Outcome { burned: 0, kind: OutcomeKind::Success }
                };
                let ghost ov = outcome@;
                proof {
                    assert(ov == if op.script.len() > 0 {
                        op.script[0]
                    } else {
                        default_outcome()
                    });
                }
                let capped = if outcome.burned < m.gas_limit {
                    outcome.burned
                } else {
                    m.gas_limit
                };
                let charge = gas_price(capped);
                self.state.balances.debit(m.source_account, charge);
                proof {
                    assert(capped == min64(ov.burned, m@.gas_limit));
                    assert(self@.state.balances == spec_debit(
                        old(self)@.state.balances,
                        m@.source_account,
                        price_of_gas(min64(ov.burned, m@.gas_limit)),
                    ));
                }
                match outcome.kind {
                    OutcomeKind::Reply { payload, code } => {
                        let ok = match code {
                            ReplyCode::Success => true,
                            _ => false,
                        };
                        if ok {
                            self.state.balances.debit(m.source_account, m.value);
                            self.state.balances.credit(p_account, m.value);
                        }
                        self.state.events.push(
                            Event::UserMessageSent {
                                source: p_address,
                                destination: m.source,
                                payload,
                                code: Some(code),
                            },
                        );
                        self.state.events.push(
                            Event::MessagesDispatched {
                                statuses: vec![
                                    (
                                        m.id,
                                        if ok {
                                            DispatchStatus::Success
                                        } else {
                                            DispatchStatus::Failed
                                        },
                                    ),
                                ],
                            },
                        );
                        proof {
                            assert(self@.state =~~= sv);
                        }
                    },
                    OutcomeKind::Success => {
                        self.state.balances.debit(m.source_account, m.value);
                        self.state.balances.credit(p_account, m.value);
                        self.state.events.push(
                            Event::MessagesDispatched {
                                statuses: vec![(m.id, DispatchStatus::Success)],
                            },
                        );
                        proof {
                            assert(self@.state =~~= sv);
                        }
                    },
                    OutcomeKind::Failed => {
                        self.state.events.push(
                            Event::MessagesDispatched {
                                statuses: vec![(m.id, DispatchStatus::Failed)],
                            },
                        );
                        proof {
                            assert(self@.state =~~= sv);
                        }
                    },
                    OutcomeKind::NotExecuted => {
                        self.state.events.push(
                            Event::MessagesDispatched {
                                statuses: vec![(m.id, DispatchStatus::NotExecuted)],
                            },
                        );
                        proof {
                            assert(self@.state =~~= sv);
                        }
                    },
                    OutcomeKind::Wait => {
                        self.state.events.push(Event::MessageWaited { id: m.id });
                        proof {
                            assert(self@.state =~~= sv);
                        }
                    },
                }
                proof {
                    assert(self@ =~~= (LView { state: sv, ..old(self)@ }));
                }
            },
        }
    }

    /// Runs one block's queued work under `allowance`: messages execute
    /// front to back while they fit; whatever is left stays queued and the
    /// queue-not-processed event is emitted.
    pub fn run_block(&mut self, allowance: u64)
        requires
            old(self).wf(),
        ensures
            final(self).wf(),
            final(self)@ == (LView { state: spec_run_block(old(self)@.state, allowance), ..old(self)@ }),
    {
        let mut msgs: Vec<QueuedMessage> = Vec::new();
        core::mem::swap(&mut msgs, &mut self.state.queue);
        let ghost mv = queue_view(msgs@);
        let ghost s0 = LedgerView { queue: Seq::<QueuedMessageView>::empty(), ..old(self)@.state };
        proof {
            assert(self@.state =~= s0);
            assert(mv.skip(0) =~= mv);
        }
        let mut i: usize = 0;
        let mut remaining: u64 = allowance;
        while i < msgs.len() && msgs[i].gas_limit <= remaining
            invariant
                old(self).wf(),
                self.wf(),
                i <= msgs@.len(),
                mv == queue_view(msgs@),
                s0 == (LedgerView {
                    queue: Seq::<QueuedMessageView>::empty(),
                    ..old(self)@.state
                }),
                self@.checkpoints == old(self)@.checkpoints,
                self@.in_transaction == old(self)@.in_transaction,
                self@.trace == old(self)@.trace,
                spec_drain(s0, mv, allowance) == spec_drain(
                    self@.state,
                    mv.skip(i as int),
                    remaining,
                ),
            decreases msgs@.len() - i,
        {
            proof {
                assert(mv.skip(i as int).len() > 0);
                assert(mv[i as int] == msgs@[i as int]@);
                assert(mv.skip(i as int)[0] == mv[i as int]);
                assert(mv.skip(i as int).drop_first() =~= mv.skip(i + 1));
            }
            let m = copy_message(&msgs[i]);
            remaining = remaining - m.gas_limit;
            self.execute_message(m);
            i = i + 1;
        }
        if i < msgs.len() {
            proof {
                assert(mv.skip(i as int).len() > 0);
                assert(mv.skip(i as int)[0] == mv[i as int]);
                assert(spec_drain(s0, mv, allowance) == (self@.state, mv.skip(i as int)));
            }
            let mut leftover: Vec<QueuedMessage> = Vec::new();
            let mut k: usize = i;
            while k < msgs.len()
                invariant
                    i <= k <= msgs@.len(),
                    mv == queue_view(msgs@),
                    queue_view(leftover@) == mv.subrange(i as int, k as int),
                decreases msgs@.len() - k,
            {
                let ghost lv_old = queue_view(leftover@);
                let m = copy_message(&msgs[k]);
                leftover.push(m);
                proof {
                    assert(mv[k as int] == msgs@[k as int]@);
                    assert(queue_view(leftover@) =~= lv_old.push(mv[k as int]));
                    assert(lv_old.push(mv[k as int]) =~= mv.subrange(i as int, k + 1));
                }
                k = k + 1;
            }
            proof {
                assert(queue_view(leftover@) =~= mv.skip(i as int));
            }
            self.state.queue = leftover;
            self.state.events.push(Event::QueueNotProcessed);
            proof {
                assert(events_view(self.state.events@) =~~= spec_drain(
                    s0,
                    mv,
                    allowance,
                ).0.events.push(EventView::QueueNotProcessed));
                assert(final(self)@ =~= (LView {
                    state: spec_run_block(old(self)@.state, allowance),
                    ..old(self)@
                }));
            }
        } else {
            proof {
                assert(mv.skip(msgs@.len() as int) =~= Seq::<QueuedMessageView>::empty());
                assert(spec_drain(s0, mv, allowance) == (self@.state, Seq::<
                    QueuedMessageView,
                >::empty()));
                assert(final(self)@ =~= (LView {
                    state: spec_run_block(old(self)@.state, allowance),
                    ..old(self)@
                }));
            }
        }
    }
}

/// Sending after an estimate charges exactly the estimate: when a program
/// lives at the destination, its pending outcome succeeds (with or without a
/// direct reply) burning no more than the message's gas limit, the program's
/// account differs from the signer's, and the signer can cover the value
/// plus the burn's price, then executing the message lowers the signer's
/// balance by exactly the value moved plus the price of the burn the
/// dry-run estimate reports for that destination.
pub proof fn lemma_execution_charges_the_estimate(v: LedgerView, m: QueuedMessageView)
    requires
        ({
            match spec_find_program(v.programs, m.destination) {
                Some(pi) => {
                    let p = v.programs[pi];
                    let o = if p.script.len() > 0 {
                        p.script[0]
                    } else {
                        default_outcome()
                    };
                    &&& (o.kind is Success || o.kind matches OutcomeKindView::Reply {
                        code: ReplyCode::Success,
                        ..
                    })
                    &&& o.burned <= m.gas_limit
                    &&& p.account != m.source_account
                    &&& balance_of(v.balances, m.source_account) >= m.value + price_of_gas(
                        o.burned,
                    )
                },
                None => false,
            }
        }),
    ensures
        ({
            match spec_estimate(v, m.destination) {
                Some(info) => balance_of(spec_execute_message(v, m).balances, m.source_account)
                    == balance_of(v.balances, m.source_account) - m.value - price_of_gas(
                    info.burned,
                ),
                None => false,
            }
        }),
{
    let pi = match spec_find_program(v.programs, m.destination) {
        Some(pi) => pi,
        None => 0,
    };
    let p = v.programs[pi];
    let o = if p.script.len() > 0 {
        p.script[0]
    } else {
        default_outcome()
    };
    let price = price_of_gas(o.burned);
    let src = m.source_account;
    assert(min64(o.burned, m.gas_limit) == o.burned);
    let charged = spec_debit(v.balances, src, price);
    assert(balance_of(charged, src) == balance_of(v.balances, src) - price);
    let moved = spec_transfer(charged, src, p.account, m.value);
    assert(balance_of(spec_debit(charged, src, m.value), src) == balance_of(v.balances, src)
        - price - m.value);
    assert(balance_of(moved, src) == balance_of(v.balances, src) - price - m.value);
}

/// Executing one message touches only balances, programs and events.
pub proof fn lemma_execute_preserves(v: LedgerView, m: QueuedMessageView)
    ensures
        spec_execute_message(v, m).block_number == v.block_number,
        spec_execute_message(v, m).timestamp_ms == v.timestamp_ms,
        spec_execute_message(v, m).codes == v.codes,
        spec_execute_message(v, m).next_nonce == v.next_nonce,
        spec_execute_message(v, m).queue == v.queue,
{
}

/// Draining the queue touches only balances, programs and events.
pub proof fn lemma_drain_preserves(v: LedgerView, msgs: Seq<QueuedMessageView>, remaining: u64)
    ensures
        spec_drain(v, msgs, remaining).0.block_number == v.block_number,
        spec_drain(v, msgs, remaining).0.timestamp_ms == v.timestamp_ms,
        spec_drain(v, msgs, remaining).0.codes == v.codes,
        spec_drain(v, msgs, remaining).0.next_nonce == v.next_nonce,
        spec_drain(v, msgs, remaining).0.queue == v.queue,
    decreases msgs.len(),
{
    if msgs.len() > 0 && msgs[0].gas_limit <= remaining {
        lemma_execute_preserves(v, msgs[0]);
        lemma_drain_preserves(
            spec_execute_message(v, msgs[0]),
            msgs.drop_first(),
            (remaining - msgs[0].gas_limit) as u64,
        );
    }
}

/// Running a block's queue touches only balances, programs, events and the
/// queue itself.
pub proof fn lemma_run_block_preserves(v: LedgerView, allowance: u64)
    ensures
        spec_run_block(v, allowance).block_number == v.block_number,
        spec_run_block(v, allowance).timestamp_ms == v.timestamp_ms,
        spec_run_block(v, allowance).codes == v.codes,
        spec_run_block(v, allowance).next_nonce == v.next_nonce,
{
    let emptied = LedgerView { queue: Seq::<QueuedMessageView>::empty(), ..v };
    lemma_drain_preserves(emptied, v.queue, allowance);
}

/// The ledger after a checkpoint is pushed and the scope marked open.
pub open spec fn spec_begin_view(l: LView) -> LView {
    LView { checkpoints: l.checkpoints.push(l.state), in_transaction: true, ..l }
}

/// Transaction-scope round trip: any storage mutation performed strictly
/// between opening a scope and rolling it back is fully undone — whatever
/// store `mid` the intervening work produced, the rollback restores the
/// store read before the scope opened, and leaves the checkpoint stack as it
/// was.
pub proof fn lemma_transaction_round_trip(l: LView, mid: LedgerView)
    ensures
        ({
            let mutated = LView { state: mid, ..spec_begin_view(l) };
            &&& mutated.checkpoints.len() > 0
            &&& (LView {
                state: mutated.checkpoints.last(),
                checkpoints: mutated.checkpoints.drop_last(),
                in_transaction: false,
                ..mutated
            }).state == l.state
            &&& (LView {
                state: mutated.checkpoints.last(),
                checkpoints: mutated.checkpoints.drop_last(),
                in_transaction: false,
                ..mutated
            }).checkpoints == l.checkpoints
        }),
{
    assert(l.checkpoints.push(l.state).drop_last() =~= l.checkpoints);
}

/// The store after a fresh program is installed at `addr`.
pub open spec fn spec_install_program(v: LedgerView, addr: Seq<u8>) -> LedgerView {
    LedgerView {
        programs: v.programs.push(
            ProgramView {
                address: addr,
                account: account_of_actor_bytes(addr),
                script: Seq::empty(),
                query_reply: None,
            },
        ),
        ..v
    }
}

} // verus!
