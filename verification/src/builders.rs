//! The fluent call builders: every setter is total and idempotent (last
//! write wins), and each terminal operation first checks the required
//! fields, then drives the ledger, the block stepper and the message
//! correlator.

use vstd::prelude::*;
use vstd::string::StringExecFns;
use crate::ids::ActorId32;
use crate::ids::actor_bytes_of_account;
use crate::ids::copy_bytes;
use crate::codec::service_call_payload;
use crate::codec::compose_service_payload;
use crate::codec::decode_reply_parts;
use crate::events::DispatchStatus;
use crate::events::ScanHitView;
use crate::events::ScanHit;
use crate::events::spec_find_queued;
use crate::events::message_id_from_queued;
use crate::ledger::Ledger;
use crate::ledger::LView;
use crate::ledger::LedgerView;
use crate::ledger::LedgerError;
use crate::ledger::DEFAULT_GAS_LIMIT;
use crate::ledger::spec_submit;
use crate::ledger::spec_submit_refusal;
use crate::stepper::spec_advance;
use crate::stepper::run_to_next_block;
use crate::correlate::CorrOutcome;
use crate::correlate::CorrOutcomeView;
use crate::correlate::spec_correlate;
use crate::correlate::correlate;
use crate::correlate::lemma_correlate_preserves_scope;
use crate::types::ConfigError;
use crate::types::ContractCommandError;
use crate::types::ContractResponse;

verus! {

/// The view of an optional string field.
pub open spec fn opt_string_view(o: Option<String>) -> Option<Seq<char>> {
    match o {
        Some(s) => Some(s@),
        None => None,
    }
}

/// A command call under construction.
pub struct CommandCall {
    pub contract_address: ActorId32,
    pub signer: Option<u64>,
    pub service_name: Option<String>,
    pub method_name: Option<String>,
    pub gas_limit: Option<u64>,
    pub keep_alive: bool,
    pub value: u128,
    pub max_blocks_to_wait: u64,
    pub no_sails_command: bool,
    pub is_query: bool,
    pub get_waited: bool,
    pub payload: Vec<u8>,
}

/// The mathematical shape of a command call.
#[verifier::ext_equal]
pub ghost struct CommandCallView {
    pub contract_address: Seq<u8>,
    pub signer: Option<u64>,
    pub service_name: Option<Seq<char>>,
    pub method_name: Option<Seq<char>>,
    pub gas_limit: Option<u64>,
    pub keep_alive: bool,
    pub value: u128,
    pub max_blocks_to_wait: u64,
    pub no_sails_command: bool,
    pub is_query: bool,
    pub get_waited: bool,
    pub payload: Seq<u8>,
}

impl View for CommandCall {
    type V = CommandCallView;

    open spec fn view(&self) -> CommandCallView {
        CommandCallView {
            contract_address: self.contract_address@,
            signer: self.signer,
            service_name: opt_string_view(self.service_name),
            method_name: opt_string_view(self.method_name),
            gas_limit: self.gas_limit,
            keep_alive: self.keep_alive,
            value: self.value,
            max_blocks_to_wait: self.max_blocks_to_wait,
            no_sails_command: self.no_sails_command,
            is_query: self.is_query,
            get_waited: self.get_waited,
            payload: self.payload@,
        }
    }
}

/// The configuration error a command call's required-field check raises, if
/// any: service and method names are required unless the raw-payload escape
/// is set, a signer always.
pub open spec fn spec_command_config_error(c: CommandCallView) -> Option<ConfigError> {
    if c.service_name is None && !c.no_sails_command {
        Some(ConfigError::MissingServiceName)
    } else if c.method_name is None && !c.no_sails_command {
        Some(ConfigError::MissingMethodName)
    } else if c.signer is None {
        Some(ConfigError::MissingSigner)
    } else {
        None
    }
}

/// The payload a command call submits: the service-call framing, or the raw
/// payload when the escape is set.
pub open spec fn spec_command_payload(c: CommandCallView) -> Seq<u8> {
    if !c.no_sails_command {
        service_call_payload(
            match c.service_name {
                Some(s) => s,
                None => Seq::empty(),
            },
            match c.method_name {
                Some(s) => s,
                None => Seq::empty(),
            },
            c.payload,
        )
    } else {
        c.payload
    }
}

/// The gas limit a call runs under when none was set.
pub open spec fn spec_gas_limit(c: Option<u64>) -> u64 {
    match c {
        Some(g) => g,
        None => DEFAULT_GAS_LIMIT,
    }
}

/// Both optional names, where set, fit the codec's length limit.
pub open spec fn spec_names_encodable(
    service_name: Option<Seq<char>>,
    method_name: Option<Seq<char>>,
) -> bool {
    &&& (service_name matches Some(s) ==> crate::codec::scale_encodable(s))
    &&& (method_name matches Some(m) ==> crate::codec::scale_encodable(m))
}

/// The signer a checked call runs as.
pub open spec fn spec_signer(c: CommandCallView) -> u64 {
    match c.signer {
        Some(s) => s,
        None => 0,
    }
}

impl CommandCall {
    /// A fresh command call to `contract_address`: no signer or names set,
    /// no value, a wait budget of five blocks, resolving on the wait-list.
    pub fn new(contract_address: ActorId32) -> (r: Self)
        ensures
            r@ == (CommandCallView {
                contract_address: contract_address@,
                signer: None,
                service_name: None,
                method_name: None,
                gas_limit: None,
                keep_alive: false,
                value: 0,
                max_blocks_to_wait: 5,
                no_sails_command: false,
                is_query: false,
                get_waited: true,
                payload: Seq::empty(),
            }),
    {
        let r = CommandCall {
            contract_address,
            signer: None,
            service_name: None,
            method_name: None,
            gas_limit: None,
            keep_alive: false,
            value: 0,
            max_blocks_to_wait: 5,
            no_sails_command: false,
            is_query: false,
            get_waited: true,
            payload: Vec::new(),
        };
        proof {
            assert(r@ =~= (CommandCallView {
                contract_address: contract_address@,
                signer: None,
                service_name: None,
                method_name: None,
                gas_limit: None,
                keep_alive: false,
                value: 0,
                max_blocks_to_wait: 5,
                no_sails_command: false,
                is_query: false,
                get_waited: true,
                payload: Seq::empty(),
            }));
        }
        r
    }

    /// Do not resolve when the message is parked on the wait-list; keep
    /// polling instead.
    pub fn skip_waited(self) -> (r: Self)
        ensures
            r@ == (CommandCallView { get_waited: false, ..self@ }),
    {
        CommandCall { get_waited: false, ..self }
    }

    /// Runs the whole send-and-observe cycle inside a transaction scope that
    /// is rolled back, so the call leaves no trace on the ledger.
    pub fn transform_to_query(self) -> (r: Self)
        ensures
            r@ == (CommandCallView { is_query: true, ..self@ }),
    {
        CommandCall { is_query: true, ..self }
    }

    /// Bypass the service-call framing: the payload is submitted as given.
    pub fn no_sails_command(self) -> (r: Self)
        ensures
            r@ == (CommandCallView { no_sails_command: true, ..self@ }),
    {
        CommandCall { no_sails_command: true, ..self }
    }

    /// Sets the signing account.
    pub fn signer(self, signer: u64) -> (r: Self)
        ensures
            r@ == (CommandCallView { signer: Some(signer), ..self@ }),
    {
        CommandCall { signer: Some(signer), ..self }
    }

    /// Sets the service name.
    pub fn service_name(self, service_name: &str) -> (r: Self)
        ensures
            r@ == (CommandCallView { service_name: Some(service_name@), ..self@ }),
    {
        CommandCall { service_name: Some(String::from_str(service_name)), ..self }
    }

    /// Sets the method name.
    pub fn method_name(self, method_name: &str) -> (r: Self)
        ensures
            r@ == (CommandCallView { method_name: Some(method_name@), ..self@ }),
    {
        CommandCall { method_name: Some(String::from_str(method_name)), ..self }
    }

    /// Sets the gas limit.
    pub fn gas_limit(self, gas_limit: u64) -> (r: Self)
        ensures
            r@ == (CommandCallView { gas_limit: Some(gas_limit), ..self@ }),
    {
        CommandCall { gas_limit: Some(gas_limit), ..self }
    }

    /// Keeps the signing account alive when the transfer would drain it.
    /// The model ledger enforces no existential deposit, so the flag is
    /// recorded but changes nothing there.
    pub fn keep_alive(self) -> (r: Self)
        ensures
            r@ == (CommandCallView { keep_alive: true, ..self@ }),
    {
        CommandCall { keep_alive: true, ..self }
    }

    /// Sets the value transferred with the message.
    pub fn with_value(self, value: u128) -> (r: Self)
        ensures
            r@ == (CommandCallView { value, ..self@ }),
    {
        CommandCall { value, ..self }
    }

    /// Sets the wait budget in blocks.
    pub fn max_blocks_to_wait(self, max_blocks_to_wait: u64) -> (r: Self)
        ensures
            r@ == (CommandCallView { max_blocks_to_wait, ..self@ }),
    {
        CommandCall { max_blocks_to_wait, ..self }
    }

    /// Appends already-encoded argument bytes to the payload.
    pub fn add_arg(self, arg: &Vec<u8>) -> (r: Self)
        ensures
            r@ == (CommandCallView { payload: self@.payload + arg@, ..self@ }),
    {
        let mut payload = self.payload;
        crate::ids::append_bytes(&mut payload, arg);
        let r = CommandCall { payload, ..self };
        proof {
            assert(r@ =~= (CommandCallView { payload: self@.payload + arg@, ..self@ }));
        }
        r
    }

    /// Checks the required fields, as the terminal operations do.
    pub fn check_data(&self) -> (r: Result<(), ConfigError>)
        ensures
            match spec_command_config_error(self@) {
                Some(e) => r == Err::<(), ConfigError>(e),
                None => r == Ok::<(), ConfigError>(()),
            },
    {
        if self.service_name.is_none() && !self.no_sails_command {
            return Err(ConfigError::MissingServiceName);
        }
        if self.method_name.is_none() && !self.no_sails_command {
            return Err(ConfigError::MissingMethodName);
        }
        if self.signer.is_none() {
            return Err(ConfigError::MissingSigner);
        }
        Ok(())
    }

    /// Builds the payload this call submits.
    fn build_payload(&self) -> (r: Vec<u8>)
        requires
            spec_command_config_error(self@) is None,
            spec_names_encodable(self@.service_name, self@.method_name),
        ensures
            r@ == spec_command_payload(self@),
    {
        if !self.no_sails_command {
            match (&self.service_name, &self.method_name) {
                (Some(service), Some(method)) => compose_service_payload(
                    service,
                    method,
                    &self.payload,
                ),
                _ => {
                    proof {
                        assert(false);
                    }
                    Vec::new()
                },
            }
        } else {
            copy_bytes(&self.payload)
        }
    }

    /// Sends the message to the contract without stepping a block.  Refused
    /// with a configuration error when a required field is missing, and with
    /// the ledger's refusal when the submission is rejected; otherwise the
    /// message is queued.
    pub fn send(self, l: &mut Ledger) -> (r: Result<(), ContractCommandError>)
        requires
            old(l).wf(),
            spec_names_encodable(self@.service_name, self@.method_name),
        ensures
            final(l).wf(),
            match spec_command_config_error(self@) {
                Some(e) => r == Err::<(), ContractCommandError>(ContractCommandError::Config(e))
                    && final(l)@ == old(l)@,
                None => match spec_submit_refusal(
                    old(l)@.state,
                    spec_signer(self@),
                    spec_gas_limit(self@.gas_limit),
                    self@.value,
                ) {
                    Some(e) => r == Err::<(), ContractCommandError>(
                        ContractCommandError::CommandError(e),
                    ) && final(l)@ == old(l)@,
                    None => r == Ok::<(), ContractCommandError>(()) && final(l)@ == (LView {
                        state: spec_submit(
                            old(l)@.state,
                            spec_signer(self@),
                            self@.contract_address,
                            spec_command_payload(self@),
                            spec_gas_limit(self@.gas_limit),
                            self@.value,
                        ),
                        ..old(l)@
                    }),
                },
            },
    {
        match self.check_data() {
            Err(e) => {
                return Err(ContractCommandError::Config(e));
            },
            Ok(()) => {},
        }
        let payload = self.build_payload();
        let gas = match self.gas_limit {
            Some(g) => g,
            None => DEFAULT_GAS_LIMIT,
        };
        let signer = match self.signer {
            Some(s) => s,
            None => 0,
        };
        match l.submit_message(signer, &self.contract_address, payload, gas, self.value) {
            Err(e) => Err(ContractCommandError::CommandError(e)),
            Ok(_) => Ok(()),
        }
    }

    /// Sends the message and advances one block so it executes.
    pub fn send_and_run_one_block(self, l: &mut Ledger) -> (r: Result<(), ContractCommandError>)
        requires
            old(l).wf(),
            old(l)@.state.block_number < u64::MAX,
            spec_names_encodable(self@.service_name, self@.method_name),
        ensures
            final(l).wf(),
            match spec_command_config_error(self@) {
                Some(e) => r == Err::<(), ContractCommandError>(ContractCommandError::Config(e))
                    && final(l)@ == old(l)@,
                None => match spec_submit_refusal(
                    old(l)@.state,
                    spec_signer(self@),
                    spec_gas_limit(self@.gas_limit),
                    self@.value,
                ) {
                    Some(e) => r == Err::<(), ContractCommandError>(
                        ContractCommandError::CommandError(e),
                    ) && final(l)@ == old(l)@,
                    None => ({
                        let a = spec_advance(
                            (LView {
                                state: spec_submit(
                                    old(l)@.state,
                                    spec_signer(self@),
                                    self@.contract_address,
                                    spec_command_payload(self@),
                                    spec_gas_limit(self@.gas_limit),
                                    self@.value,
                                ),
                                ..old(l)@
                            }),
                            1,
                            None,
                        );
                        &&& final(l)@ == a.0
                        &&& if a.1 {
                            r == Ok::<(), ContractCommandError>(())
                        } else {
                            r matches Err(ContractCommandError::Fatal(_))
                        }
                    }),
                },
            },
    {
        let ghost cv = self@;
        let ghost l0 = old(l)@;
        match self.send(l) {
            Err(e) => {
                return Err(e);
            },
            Ok(()) => {},
        }
        proof {
            assert(spec_command_config_error(cv) is None);
            assert(spec_submit_refusal(
                l0.state,
                spec_signer(cv),
                spec_gas_limit(cv.gas_limit),
                cv.value,
            ) is None);
            assert(l@ == (LView {
                state: spec_submit(
                    l0.state,
                    spec_signer(cv),
                    cv.contract_address,
                    spec_command_payload(cv),
                    spec_gas_limit(cv.gas_limit),
                    cv.value,
                ),
                ..l0
            }));
        }
        let ghost submitted_view = (LView {
            state: spec_submit(
                l0.state,
                spec_signer(cv),
                cv.contract_address,
                spec_command_payload(cv),
                spec_gas_limit(cv.gas_limit),
                cv.value,
            ),
            ..l0
        });
        let step = run_to_next_block(l);
        proof {
            let a = spec_advance(submitted_view, 1, None);
            assert(l@ == a.0);
            assert((step == Ok::<(), crate::stepper::FatalError>(())) == a.1);
        }
        match step {
            Err(f) => {
                proof {
                    assert(!spec_advance(submitted_view, 1, None).1);
                }
                Err(ContractCommandError::Fatal(f))
            },
            Ok(u) => {
                proof {
                    assert(step == Ok::<(), crate::stepper::FatalError>(u));
                    assert(spec_advance(submitted_view, 1, None).1);
                }
                Ok(())
            },
        }
    }
}

/// Everything the send-and-observe cycle decides before the resolving event
/// is interpreted.
#[verifier::ext_equal]
pub ghost enum SendFlow {
    /// A required field was missing; nothing was touched.
    Config(ConfigError),
    /// The ledger refused the submission.
    Refused(LedgerError),
    /// The block that should execute the message failed its queue check.
    StepFatal,
    /// No queued event matched the signer and destination.
    NoMessage,
    /// A polled block failed its queue check.
    PollFatal,
    /// The wait budget ran out without a resolving event.
    PollExhausted,
    /// An event resolved the message.
    Resolved(ScanHitView),
}

/// The ledger after the most recent checkpoint is rolled back.
pub open spec fn spec_rollback_view(l: LView) -> LView
    recommends
        l.checkpoints.len() > 0,
{
    LView {
        state: l.checkpoints.last(),
        checkpoints: l.checkpoints.drop_last(),
        in_transaction: false,
        ..l
    }
}

/// The ledger once a query's scope is settled: rolled back in query mode,
/// untouched otherwise.
pub open spec fn spec_scope_settled(l: LView, is_query: bool) -> LView {
    if is_query {
        spec_rollback_view(l)
    } else {
        l
    }
}

/// Rolls the query scope back, exactly once; does nothing outside query
/// mode.
fn settle_query_scope(l: &mut Ledger, is_query: bool)
    requires
        old(l).wf(),
        is_query ==> old(l)@.checkpoints.len() > 0,
    ensures
        final(l).wf(),
        final(l)@ == spec_scope_settled(old(l)@, is_query),
{
    if is_query {
        match l.rollback_transaction() {
            Ok(u) => {},
            Err(_) => {
                proof {
                    assert(false);
                }
            },
        }
    }
}

/// The send-and-observe cycle of `send_recv`, up to the resolving event:
/// check the fields; in query mode open a transaction scope; clear the event
/// log; submit; advance one block; find the queued message; poll for its
/// resolution.
pub open spec fn spec_send_recv_flow(l: LView, c: CommandCallView) -> (LView, SendFlow) {
    match spec_command_config_error(c) {
        Some(e) => (l, SendFlow::Config(e)),
        None => {
            let l0 = if c.is_query {
                LView { checkpoints: l.checkpoints.push(l.state), in_transaction: true, ..l }
            } else {
                l
            };
            let l1 = LView { state: LedgerView { events: Seq::empty(), ..l0.state }, ..l0 };
            match spec_submit_refusal(
                l1.state,
                spec_signer(c),
                spec_gas_limit(c.gas_limit),
                c.value,
            ) {
                Some(e) => (l1, SendFlow::Refused(e)),
                None => {
                    let l2 = LView {
                        state: spec_submit(
                            l1.state,
                            spec_signer(c),
                            c.contract_address,
                            spec_command_payload(c),
                            spec_gas_limit(c.gas_limit),
                            c.value,
                        ),
                        ..l1
                    };
                    let a = spec_advance(l2, 1, None);
                    if !a.1 {
                        (a.0, SendFlow::StepFatal)
                    } else {
                        match spec_find_queued(
                            a.0.state.events,
                            actor_bytes_of_account(spec_signer(c)),
                            c.contract_address,
                        ) {
                            None => (a.0, SendFlow::NoMessage),
                            Some(msg) => {
                                let co = spec_correlate(
                                    a.0,
                                    actor_bytes_of_account(spec_signer(c)),
                                    c.contract_address,
                                    msg,
                                    c.max_blocks_to_wait as nat,
                                    c.get_waited,
                                );
                                match co.1 {
                                    CorrOutcomeView::Fatal => (co.0, SendFlow::PollFatal),
                                    CorrOutcomeView::Exhausted => (co.0, SendFlow::PollExhausted),
                                    CorrOutcomeView::Hit(h) => (co.0, SendFlow::Resolved(h)),
                                }
                            },
                        }
                    }
                },
            }
        },
    }
}

impl CommandCall {
    /// Sends the message and polls for the contract's reply: the event log
    /// is cleared, the message submitted and one block run; then, for up to
    /// the wait budget, the log is scanned for a reply to the signer from
    /// the contract, a dispatch status of the sent message, or its move to
    /// the wait-list.  A reply's payload is split into its two encoded names
    /// and the encoded reply value; an exhausted budget resolves as a
    /// reply-free success.  In query mode the scope opened at the start is
    /// rolled back exactly once on every terminal path — for a decoded
    /// reply, before one further block runs.
    pub fn send_recv(self, l: &mut Ledger) -> (r: Result<
        ContractResponse<Vec<u8>>,
        ContractCommandError,
    >)
        requires
            old(l).wf(),
            old(l)@.state.block_number + self@.max_blocks_to_wait + 2 <= u64::MAX,
            spec_names_encodable(self@.service_name, self@.method_name),
        ensures
            final(l).wf(),
            ({
                let fs = spec_send_recv_flow(old(l)@, self@);
                let settled = spec_scope_settled(fs.0, self@.is_query);
                match fs.1 {
                    SendFlow::Config(e) => final(l)@ == old(l)@ && r == Err::<
                        ContractResponse<Vec<u8>>,
                        ContractCommandError,
                    >(ContractCommandError::Config(e)),
                    SendFlow::Refused(e) => final(l)@ == settled && r == Err::<
                        ContractResponse<Vec<u8>>,
                        ContractCommandError,
                    >(ContractCommandError::CommandError(e)),
                    SendFlow::StepFatal => final(l)@ == settled && (r matches Err(
                        ContractCommandError::Fatal(_),
                    )),
                    SendFlow::NoMessage => final(l)@ == settled && r == Err::<
                        ContractResponse<Vec<u8>>,
                        ContractCommandError,
                    >(ContractCommandError::TimeOut),
                    SendFlow::PollFatal => final(l)@ == settled && (r matches Err(
                        ContractCommandError::Fatal(_),
                    )),
                    SendFlow::PollExhausted => final(l)@ == settled && r == Ok::<
                        ContractResponse<Vec<u8>>,
                        ContractCommandError,
                    >(ContractResponse::OkNoReply),
                    SendFlow::Resolved(h) => match h {
                        ScanHitView::Dispatched { status } => {
                            &&& final(l)@ == settled
                            &&& if status is Success {
                                r == Ok::<ContractResponse<Vec<u8>>, ContractCommandError>(
                                    ContractResponse::OkNoReply,
                                )
                            } else {
                                r == Err::<ContractResponse<Vec<u8>>, ContractCommandError>(
                                    ContractCommandError::Failed(status),
                                )
                            }
                        },
                        ScanHitView::Waited => final(l)@ == settled && r == Ok::<
                            ContractResponse<Vec<u8>>,
                            ContractCommandError,
                        >(ContractResponse::Waited),
                        ScanHitView::Reply { payload, code } => {
                            if forall|svc: Seq<char>, meth: Seq<char>, rest: Seq<u8>|
                                payload != service_call_payload(svc, meth, rest) {
                                final(l)@ == settled && (r matches Err(
                                    ContractCommandError::ResultDecodeError(_),
                                ))
                            } else {
                                let a2 = spec_advance(settled, 1, None);
                                &&& final(l)@ == a2.0
                                &&& if a2.1 {
                                    forall|svc: Seq<char>, meth: Seq<char>, rest: Seq<u8>|
                                        payload == service_call_payload(svc, meth, rest) ==> (
                                        r matches Ok(ContractResponse::Response(v)) && v@ == rest)
                                } else {
                                    r matches Err(ContractCommandError::Fatal(_))
                                }
                            }
                        },
                    },
                }
            }),
            (self@.is_query && spec_command_config_error(self@) is None)
                ==> final(l)@.in_transaction == false && final(l)@.checkpoints == old(
                l,
            )@.checkpoints,
    {
        let ghost cv = self@;
        let ghost l_init = old(l)@;
        let ghost fs = spec_send_recv_flow(l_init, cv);
        match self.check_data() {
            Err(e) => {
                return Err(ContractCommandError::Config(e));
            },
            Ok(u) => {},
        }
        let is_query = self.is_query;
        if is_query {
            l.start_transaction();
        }
        l.reset_events();
        let ghost l1 = l@;
        proof {
            assert(l1 =~~= ({
                let l0 = if cv.is_query {
                    LView {
                        checkpoints: l_init.checkpoints.push(l_init.state),
                        in_transaction: true,
                        ..l_init
                    }
                } else {
                    l_init
                };
                LView { state: LedgerView { events: Seq::empty(), ..l0.state }, ..l0 }
            }));
        }
        let signer = match self.signer {
            Some(s) => s,
            None => 0,
        };
        let signer_actor = ActorId32::from_account(signer);
        let contract = self.contract_address;
        let budget = self.max_blocks_to_wait;
        let get_waited = self.get_waited;
        let payload = self.build_payload();
        let gas = match self.gas_limit {
            Some(g) => g,
            None => DEFAULT_GAS_LIMIT,
        };
        match l.submit_message(signer, &contract, payload, gas, self.value) {
            Err(e) => {
                settle_query_scope(l, is_query);
                return Err(ContractCommandError::CommandError(e));
            },
            Ok(_id) => {},
        }
        let ghost l2 = l@;
        let step = run_to_next_block(l);
        proof {
            crate::stepper::lemma_advance_preserves_scope(l2, 1, None);
        }
        match step {
            Err(f) => {
                settle_query_scope(l, is_query);
                return Err(ContractCommandError::Fatal(f));
            },
            Ok(u) => {
                proof {
                    assert(step == Ok::<(), crate::stepper::FatalError>(u));
                    assert(spec_advance(l2, 1, None).1);
                }
            },
        }
        let ghost la = l@;
        proof {
            crate::stepper::lemma_advance_counts_blocks(l2, 1, None);
        }
        let msg_id = match message_id_from_queued(&l.state.events, &signer_actor, &contract) {
            None => {
                settle_query_scope(l, is_query);
                return Err(ContractCommandError::TimeOut);
            },
            Some(id) => id,
        };
        let co = correlate(l, &signer_actor, &contract, &msg_id, budget, get_waited);
        proof {
            lemma_correlate_preserves_scope(
                la,
                signer_actor@,
                contract@,
                msg_id@,
                budget as nat,
                get_waited,
            );
            assert(fs.0 == l@);
        }
        settle_query_scope(l, is_query);
        match co {
            CorrOutcome::Fatal(f) => Err(ContractCommandError::Fatal(f)),
            CorrOutcome::Exhausted => Ok(ContractResponse::OkNoReply),
            CorrOutcome::Hit(hit) => {
                match hit {
                    ScanHit::Dispatched { status } => {
                        match status {
                            DispatchStatus::Success => Ok(ContractResponse::OkNoReply),
                            _ => Err(ContractCommandError::Failed(status)),
                        }
                    },
                    ScanHit::Waited => Ok(ContractResponse::Waited),
                    ScanHit::Reply { payload: reply_payload, code: _ } => {
                        match decode_reply_parts(&reply_payload) {
                            None => Err(
                                ContractCommandError::ResultDecodeError(
                                    String::from_str("reply payload does not carry two names"),
                                ),
                            ),
                            Some((_svc, _meth, rest)) => {
                                let ghost lr = l@;
                                let step2 = run_to_next_block(l);
                                proof {
                                    crate::stepper::lemma_advance_preserves_scope(lr, 1, None);
                                }
                                match step2 {
                                    Err(f) => Err(ContractCommandError::Fatal(f)),
                                    Ok(u2) => {
                                        proof {
                                            assert(step2 == Ok::<(), crate::stepper::FatalError>(
                                                u2,
                                            ));
                                            assert(spec_advance(lr, 1, None).1);
                                        }
                                        Ok(ContractResponse::Response(rest))
                                    },
                                }
                            },
                        }
                    },
                }
            },
        }
    }
}

/// The send-and-check cycle of `send_check_result`, up to the resolving
/// event: like `send_recv` but without a transaction scope, watching only
/// for the message's dispatch status or its move to the wait-list.
pub open spec fn spec_send_check_flow(l: LView, c: CommandCallView, budget: u64) -> (
    LView,
    SendFlow,
) {
    match spec_command_config_error(c) {
        Some(e) => (l, SendFlow::Config(e)),
        None => {
            let l1 = LView { state: LedgerView { events: Seq::empty(), ..l.state }, ..l };
            match spec_submit_refusal(
                l1.state,
                spec_signer(c),
                spec_gas_limit(c.gas_limit),
                c.value,
            ) {
                Some(e) => (l1, SendFlow::Refused(e)),
                None => {
                    let l2 = LView {
                        state: spec_submit(
                            l1.state,
                            spec_signer(c),
                            c.contract_address,
                            spec_command_payload(c),
                            spec_gas_limit(c.gas_limit),
                            c.value,
                        ),
                        ..l1
                    };
                    let a = spec_advance(l2, 1, None);
                    if !a.1 {
                        (a.0, SendFlow::StepFatal)
                    } else {
                        match spec_find_queued(
                            a.0.state.events,
                            actor_bytes_of_account(spec_signer(c)),
                            c.contract_address,
                        ) {
                            None => (a.0, SendFlow::NoMessage),
                            Some(msg) => {
                                let co = crate::correlate::spec_correlate_status(
                                    a.0,
                                    msg,
                                    budget as nat,
                                );
                                match co.1 {
                                    CorrOutcomeView::Fatal => (co.0, SendFlow::PollFatal),
                                    CorrOutcomeView::Exhausted => (co.0, SendFlow::PollExhausted),
                                    CorrOutcomeView::Hit(h) => (co.0, SendFlow::Resolved(h)),
                                }
                            },
                        }
                    }
                },
            }
        },
    }
}

impl CommandCall {
    /// Sends the message and waits for its dispatch result: success or a
    /// move to the wait-list answer with success, a failing status with that
    /// status, and an exhausted wait budget with a timeout error.
    pub fn send_check_result(self, l: &mut Ledger, max_blocks_to_wait: u64) -> (r: Result<
        (),
        ContractCommandError,
    >)
        requires
            old(l).wf(),
            old(l)@.state.block_number + max_blocks_to_wait + 1 <= u64::MAX,
            spec_names_encodable(self@.service_name, self@.method_name),
        ensures
            final(l).wf(),
            ({
                let fs = spec_send_check_flow(old(l)@, self@, max_blocks_to_wait);
                match fs.1 {
                    SendFlow::Config(e) => final(l)@ == old(l)@ && r == Err::<
                        (),
                        ContractCommandError,
                    >(ContractCommandError::Config(e)),
                    SendFlow::Refused(e) => final(l)@ == fs.0 && r == Err::<
                        (),
                        ContractCommandError,
                    >(ContractCommandError::CommandError(e)),
                    SendFlow::StepFatal => final(l)@ == fs.0 && (r matches Err(
                        ContractCommandError::Fatal(_),
                    )),
                    SendFlow::NoMessage => final(l)@ == fs.0 && r == Err::<
                        (),
                        ContractCommandError,
                    >(ContractCommandError::TimeOut),
                    SendFlow::PollFatal => final(l)@ == fs.0 && (r matches Err(
                        ContractCommandError::Fatal(_),
                    )),
                    SendFlow::PollExhausted => final(l)@ == fs.0 && r == Err::<
                        (),
                        ContractCommandError,
                    >(ContractCommandError::TimeOut),
                    SendFlow::Resolved(h) => match h {
                        ScanHitView::Dispatched { status } => {
                            &&& final(l)@ == fs.0
                            &&& if status is Success {
                                r == Ok::<(), ContractCommandError>(())
                            } else {
                                r == Err::<(), ContractCommandError>(
                                    ContractCommandError::Failed(status),
                                )
                            }
                        },
                        ScanHitView::Waited => final(l)@ == fs.0 && r == Ok::<
                            (),
                            ContractCommandError,
                        >(()),
                        ScanHitView::Reply { .. } => false,
                    },
                }
            }),
    {
        let ghost cv = self@;
        let ghost l_init = old(l)@;
        match self.check_data() {
            Err(e) => {
                return Err(ContractCommandError::Config(e));
            },
            Ok(u) => {},
        }
        l.reset_events();
        let ghost l1 = l@;
        proof {
            assert(l1 =~~= (LView {
                state: LedgerView { events: Seq::empty(), ..l_init.state },
                ..l_init
            }));
        }
        let signer = match self.signer {
            Some(s) => s,
            None => 0,
        };
        let signer_actor = ActorId32::from_account(signer);
        let contract = self.contract_address;
        let payload = self.build_payload();
        let gas = match self.gas_limit {
            Some(g) => g,
            None => DEFAULT_GAS_LIMIT,
        };
        match l.submit_message(signer, &contract, payload, gas, self.value) {
            Err(e) => {
                return Err(ContractCommandError::CommandError(e));
            },
            Ok(_id) => {},
        }
        let ghost l2 = l@;
        let step = run_to_next_block(l);
        match step {
            Err(f) => {
                return Err(ContractCommandError::Fatal(f));
            },
            Ok(u) => {
                proof {
                    assert(step == Ok::<(), crate::stepper::FatalError>(u));
                    assert(spec_advance(l2, 1, None).1);
                }
            },
        }
        let ghost la = l@;
        proof {
            crate::stepper::lemma_advance_counts_blocks(l2, 1, None);
        }
        let msg_id = match message_id_from_queued(&l.state.events, &signer_actor, &contract) {
            None => {
                return Err(ContractCommandError::TimeOut);
            },
            Some(id) => id,
        };
        let co = crate::correlate::correlate_status(l, &msg_id, max_blocks_to_wait);
        match co {
            CorrOutcome::Fatal(f) => Err(ContractCommandError::Fatal(f)),
            CorrOutcome::Exhausted => Err(ContractCommandError::TimeOut),
            CorrOutcome::Hit(hit) => {
                match hit {
                    ScanHit::Dispatched { status } => {
                        match status {
                            DispatchStatus::Success => Ok(()),
                            _ => Err(ContractCommandError::Failed(status)),
                        }
                    },
                    ScanHit::Waited => Ok(()),
                    ScanHit::Reply { .. } => {
                        proof {
                            crate::correlate::lemma_correlate_status_no_reply(
                                la,
                                msg_id@,
                                max_blocks_to_wait as nat,
                            );
                            assert(false);
                        }
                        Ok(())
                    },
                }
            },
        }
    }
}

/// Message correlation determinism: from ledgers with equal stores, scopes
/// and checkpoint stacks, the same call resolves identically — the same
/// terminal classification, and for a reply the same payload — and leaves
/// equal stores behind.  Together with `send_recv`'s contract, which pins
/// the returned value and final ledger to this flow (the decoded reply
/// value to the payload, by the decomposition clauses), equal flows give
/// equal results across repeated runs from a fresh ledger state.
pub proof fn lemma_correlation_deterministic(l1: LView, l2: LView, c: CommandCallView)
    requires
        l1.state == l2.state,
        l1.checkpoints == l2.checkpoints,
        l1.in_transaction == l2.in_transaction,
    ensures
        ({
            let f1 = spec_send_recv_flow(l1, c);
            let f2 = spec_send_recv_flow(l2, c);
            &&& f1.1 == f2.1
            &&& f1.0.state == f2.0.state
            &&& f1.0.checkpoints == f2.0.checkpoints
            &&& f1.0.in_transaction == f2.0.in_transaction
        }),
{
    match spec_command_config_error(c) {
        Some(_) => {},
        None => {
            let l10 = if c.is_query {
                LView { checkpoints: l1.checkpoints.push(l1.state), in_transaction: true, ..l1 }
            } else {
                l1
            };
            let l20 = if c.is_query {
                LView { checkpoints: l2.checkpoints.push(l2.state), in_transaction: true, ..l2 }
            } else {
                l2
            };
            let l11 = LView { state: LedgerView { events: Seq::empty(), ..l10.state }, ..l10 };
            let l21 = LView { state: LedgerView { events: Seq::empty(), ..l20.state }, ..l20 };
            match spec_submit_refusal(
                l11.state,
                spec_signer(c),
                spec_gas_limit(c.gas_limit),
                c.value,
            ) {
                Some(_) => {},
                None => {
                    let l12 = LView {
                        state: spec_submit(
                            l11.state,
                            spec_signer(c),
                            c.contract_address,
                            spec_command_payload(c),
                            spec_gas_limit(c.gas_limit),
                            c.value,
                        ),
                        ..l11
                    };
                    let l22 = LView {
                        state: spec_submit(
                            l21.state,
                            spec_signer(c),
                            c.contract_address,
                            spec_command_payload(c),
                            spec_gas_limit(c.gas_limit),
                            c.value,
                        ),
                        ..l21
                    };
                    crate::stepper::lemma_advance_trace_independent(l12, l22, 1, None);
                    let a1 = spec_advance(l12, 1, None);
                    let a2 = spec_advance(l22, 1, None);
                    if a1.1 {
                        match spec_find_queued(
                            a1.0.state.events,
                            actor_bytes_of_account(spec_signer(c)),
                            c.contract_address,
                        ) {
                            None => {},
                            Some(msg) => {
                                crate::correlate::lemma_correlate_trace_independent(
                                    a1.0,
                                    a2.0,
                                    actor_bytes_of_account(spec_signer(c)),
                                    c.contract_address,
                                    msg,
                                    c.max_blocks_to_wait as nat,
                                    c.get_waited,
                                );
                            },
                        }
                    }
                },
            }
        },
    }
}

/// A gas-estimate call under construction.
pub struct CalculateGasCall {
    pub contract_address: ActorId32,
    pub signer: Option<u64>,
    pub service_name: Option<String>,
    pub method_name: Option<String>,
    pub value: u128,
    pub allow_other_panics: bool,
    pub initial_gas: Option<u64>,
    pub gas_allowance: Option<u64>,
    pub no_sails_command: bool,
    pub payload: Option<Vec<u8>>,
}

/// The mathematical shape of a gas-estimate call.
#[verifier::ext_equal]
pub ghost struct CalculateGasCallView {
    pub contract_address: Seq<u8>,
    pub signer: Option<u64>,
    pub service_name: Option<Seq<char>>,
    pub method_name: Option<Seq<char>>,
    pub value: u128,
    pub allow_other_panics: bool,
    pub initial_gas: Option<u64>,
    pub gas_allowance: Option<u64>,
    pub no_sails_command: bool,
    pub payload: Option<Seq<u8>>,
}

impl View for CalculateGasCall {
    type V = CalculateGasCallView;

    open spec fn view(&self) -> CalculateGasCallView {
        CalculateGasCallView {
            contract_address: self.contract_address@,
            signer: self.signer,
            service_name: opt_string_view(self.service_name),
            method_name: opt_string_view(self.method_name),
            value: self.value,
            allow_other_panics: self.allow_other_panics,
            initial_gas: self.initial_gas,
            gas_allowance: self.gas_allowance,
            no_sails_command: self.no_sails_command,
            payload: match self.payload {
                Some(ref p) => Some(p@),
                None => None,
            },
        }
    }
}

/// The configuration error a gas-estimate call's required-field check
/// raises, if any.
pub open spec fn spec_calc_config_error(c: CalculateGasCallView) -> Option<ConfigError> {
    if c.service_name is None && !c.no_sails_command {
        Some(ConfigError::MissingServiceName)
    } else if c.method_name is None && !c.no_sails_command {
        Some(ConfigError::MissingMethodName)
    } else if c.signer is None {
        Some(ConfigError::MissingSigner)
    } else {
        None
    }
}

/// How a gas estimate ends.
#[verifier::ext_equal]
pub ghost enum CalcFlow {
    /// A required field was missing; nothing was touched.
    Config(ConfigError),
    /// The estimate in value units.
    Estimated(crate::types::GasEstimation),
    /// The dry run failed: no program lives at the destination.
    EstimateFailed,
}

/// The gas estimate `calculate_gas` returns: the ledger's dry-run numbers
/// converted to value units by the fixed multiplier.
pub open spec fn spec_calculate_gas(l: LView, c: CalculateGasCallView) -> CalcFlow {
    match spec_calc_config_error(c) {
        Some(e) => CalcFlow::Config(e),
        None => match crate::ledger::spec_estimate(l.state, c.contract_address) {
            Some(info) => CalcFlow::Estimated(
                crate::types::GasEstimation {
                    min_limit: crate::ledger::price_of_gas(info.min_limit),
                    burned: crate::ledger::price_of_gas(info.burned),
                    reserved: crate::ledger::price_of_gas(info.reserved),
                    may_be_returned: info.may_be_returned,
                    waited: info.waited,
                },
            ),
            None => CalcFlow::EstimateFailed,
        },
    }
}

impl CalculateGasCall {
    /// A fresh gas-estimate call to `contract_address`.
    pub fn new(contract_address: ActorId32) -> (r: Self)
        ensures
            r@ == (CalculateGasCallView {
                contract_address: contract_address@,
                signer: None,
                service_name: None,
                method_name: None,
                value: 0,
                allow_other_panics: false,
                initial_gas: None,
                gas_allowance: None,
                no_sails_command: false,
                payload: None,
            }),
    {
        let r = CalculateGasCall {
            contract_address,
            signer: None,
            service_name: None,
            method_name: None,
            value: 0,
            allow_other_panics: false,
            initial_gas: None,
            gas_allowance: None,
            no_sails_command: false,
            payload: None,
        };
        proof {
            assert(r@ =~= (CalculateGasCallView {
                contract_address: contract_address@,
                signer: None,
                service_name: None,
                method_name: None,
                value: 0,
                allow_other_panics: false,
                initial_gas: None,
                gas_allowance: None,
                no_sails_command: false,
                payload: None,
            }));
        }
        r
    }

    /// Bypass the service-call framing: the payload is estimated as given.
    pub fn no_sails_command(self) -> (r: Self)
        ensures
            r@ == (CalculateGasCallView { no_sails_command: true, ..self@ }),
    {
        CalculateGasCall { no_sails_command: true, ..self }
    }

    /// Sets the signing account.
    pub fn signer(self, signer: u64) -> (r: Self)
        ensures
            r@ == (CalculateGasCallView { signer: Some(signer), ..self@ }),
    {
        CalculateGasCall { signer: Some(signer), ..self }
    }

    /// Sets the service name.
    pub fn service_name(self, service_name: &str) -> (r: Self)
        ensures
            r@ == (CalculateGasCallView { service_name: Some(service_name@), ..self@ }),
    {
        CalculateGasCall { service_name: Some(String::from_str(service_name)), ..self }
    }

    /// Sets the method name.
    pub fn method_name(self, method_name: &str) -> (r: Self)
        ensures
            r@ == (CalculateGasCallView { method_name: Some(method_name@), ..self@ }),
    {
        CalculateGasCall { method_name: Some(String::from_str(method_name)), ..self }
    }

    /// Sets the value the estimated message would transfer.
    pub fn with_value(self, value: u128) -> (r: Self)
        ensures
            r@ == (CalculateGasCallView { value, ..self@ }),
    {
        CalculateGasCall { value, ..self }
    }

    /// Tolerate panics in actors other than the destination.  The model
    /// ledger estimates from the destination's script alone, so the flag is
    /// recorded but changes nothing there.
    pub fn allow_other_panics(self) -> (r: Self)
        ensures
            r@ == (CalculateGasCallView { allow_other_panics: true, ..self@ }),
    {
        CalculateGasCall { allow_other_panics: true, ..self }
    }

    /// Sets the gas the dry run starts with; recorded, unused by the model
    /// ledger's dry run.
    pub fn initial_gas(self, initial_gas: u64) -> (r: Self)
        ensures
            r@ == (CalculateGasCallView { initial_gas: Some(initial_gas), ..self@ }),
    {
        CalculateGasCall { initial_gas: Some(initial_gas), ..self }
    }

    /// Sets the block allowance the dry run runs under; recorded, unused by
    /// the model ledger's dry run.
    pub fn gas_allowance(self, gas_allowance: u64) -> (r: Self)
        ensures
            r@ == (CalculateGasCallView { gas_allowance: Some(gas_allowance), ..self@ }),
    {
        CalculateGasCall { gas_allowance: Some(gas_allowance), ..self }
    }

    /// Sets the already-encoded argument payload.
    pub fn payload(self, payload: Vec<u8>) -> (r: Self)
        ensures
            r@ == (CalculateGasCallView { payload: Some(payload@), ..self@ }),
    {
        CalculateGasCall { payload: Some(payload), ..self }
    }

    /// Checks the required fields, as the terminal operation does.
    pub fn check_data(&self) -> (r: Result<(), ConfigError>)
        ensures
            match spec_calc_config_error(self@) {
                Some(e) => r == Err::<(), ConfigError>(e),
                None => r == Ok::<(), ConfigError>(()),
            },
    {
        if self.service_name.is_none() && !self.no_sails_command {
            return Err(ConfigError::MissingServiceName);
        }
        if self.method_name.is_none() && !self.no_sails_command {
            return Err(ConfigError::MissingMethodName);
        }
        if self.signer.is_none() {
            return Err(ConfigError::MissingSigner);
        }
        Ok(())
    }

    /// Estimates the gas a message to the contract would take: the dry run
    /// is wrapped in a transaction scope that is rolled back, so estimating
    /// never mutates balances or contract state; raw gas units are converted
    /// to value units by the fixed multiplier.
    pub fn calculate_gas(self, l: &mut Ledger) -> (r: Result<
        crate::types::GasEstimation,
        ContractCommandError,
    >)
        requires
            old(l).wf(),
        ensures
            final(l).wf(),
            match spec_calculate_gas(old(l)@, self@) {
                CalcFlow::Config(e) => final(l)@ == old(l)@ && r == Err::<
                    crate::types::GasEstimation,
                    ContractCommandError,
                >(ContractCommandError::Config(e)),
                CalcFlow::Estimated(est) => final(l)@ == (LView {
                    in_transaction: false,
                    ..old(l)@
                }) && r == Ok::<crate::types::GasEstimation, ContractCommandError>(est),
                CalcFlow::EstimateFailed => final(l)@ == (LView {
                    in_transaction: false,
                    ..old(l)@
                }) && (r matches Err(ContractCommandError::Error(_))),
            },
    {
        match self.check_data() {
            Err(e) => {
                return Err(ContractCommandError::Config(e));
            },
            Ok(u) => {},
        }
        l.start_transaction();
        let estimated = l.estimate_gas(&self.contract_address);
        match l.rollback_transaction() {
            Ok(u) => {},
            Err(_) => {
                proof {
                    assert(false);
                }
            },
        }
        proof {
            assert(old(l)@.checkpoints.push(old(l)@.state).drop_last() =~= old(l)@.checkpoints);
            assert(l@ =~~= (LView { in_transaction: false, ..old(l)@ }));
        }
        match estimated {
            Ok(info) => Ok(
                crate::types::GasEstimation {
                    min_limit: crate::ledger::gas_price(info.min_limit),
                    burned: crate::ledger::gas_price(info.burned),
                    reserved: crate::ledger::gas_price(info.reserved),
                    may_be_returned: info.may_be_returned,
                    waited: info.waited,
                },
            ),
            Err(_) => Err(
                ContractCommandError::Error(
                    String::from_str("gas estimation failed: no program at the destination"),
                ),
            ),
        }
    }

    /// Converts gas units to value units with the fixed multiplier.
    pub fn gas_price(gas: u64) -> (r: u128)
        ensures
            r == crate::ledger::price_of_gas(gas),
    {
        crate::ledger::gas_price(gas)
    }
}

/// Gas estimation is idempotent and side-effect-free: one estimate leaves
/// the whole store — balances and all contract state — exactly as it was,
/// so a second estimate built with identical inputs, run in sequence, sees
/// the same store and returns the same value; and when a program lives at
/// the destination, both calls return an estimate rather than failing.
pub proof fn lemma_gas_estimation_idempotent(l: LView, c: CalculateGasCallView)
    ensures
        spec_calculate_gas((LView { in_transaction: false, ..l }), c) == spec_calculate_gas(l, c),
        (LView { in_transaction: false, ..l }).state == l.state,
        (LView { in_transaction: false, ..l }).state.balances == l.state.balances,
        (spec_calc_config_error(c) is None && crate::ledger::spec_estimate(
            l.state,
            c.contract_address,
        ) is Some) ==> spec_calculate_gas(l, c) matches CalcFlow::Estimated(_),
{
}

/// A state-query call under construction.
pub struct QueryCall {
    pub contract_address: ActorId32,
    pub service_name: Option<String>,
    pub method_name: Option<String>,
    pub gas_allowance: Option<u64>,
    pub no_sails_query: bool,
    pub payload: Option<Vec<u8>>,
}

/// The mathematical shape of a query call.
#[verifier::ext_equal]
pub ghost struct QueryCallView {
    pub contract_address: Seq<u8>,
    pub service_name: Option<Seq<char>>,
    pub method_name: Option<Seq<char>>,
    pub gas_allowance: Option<u64>,
    pub no_sails_query: bool,
    pub payload: Option<Seq<u8>>,
}

impl View for QueryCall {
    type V = QueryCallView;

    open spec fn view(&self) -> QueryCallView {
        QueryCallView {
            contract_address: self.contract_address@,
            service_name: opt_string_view(self.service_name),
            method_name: opt_string_view(self.method_name),
            gas_allowance: self.gas_allowance,
            no_sails_query: self.no_sails_query,
            payload: match self.payload {
                Some(ref p) => Some(p@),
                None => None,
            },
        }
    }
}

/// The configuration error a query call's required-field check raises, if
/// any: service and method names are required unless the raw-payload escape
/// is set; queries have no signer.
pub open spec fn spec_query_config_error(c: QueryCallView) -> Option<ConfigError> {
    if c.service_name is None && !c.no_sails_query {
        Some(ConfigError::MissingServiceName)
    } else if c.method_name is None && !c.no_sails_query {
        Some(ConfigError::MissingMethodName)
    } else {
        None
    }
}

/// The scripted state-query reply of the program at `dest`, if a program
/// lives there and a reply was scripted.
pub open spec fn spec_query_reply(l: LView, dest: Seq<u8>) -> Option<Seq<u8>> {
    match crate::ledger::spec_find_program(l.state.programs, dest) {
        Some(pi) => l.state.programs[pi].query_reply,
        None => None,
    }
}

impl QueryCall {
    /// A fresh query call to `contract_address`.
    pub fn new(contract_address: ActorId32) -> (r: Self)
        ensures
            r@ == (QueryCallView {
                contract_address: contract_address@,
                service_name: None,
                method_name: None,
                gas_allowance: None,
                no_sails_query: false,
                payload: None,
            }),
    {
        let r = QueryCall {
            contract_address,
            service_name: None,
            method_name: None,
            gas_allowance: None,
            no_sails_query: false,
            payload: None,
        };
        proof {
            assert(r@ =~= (QueryCallView {
                contract_address: contract_address@,
                service_name: None,
                method_name: None,
                gas_allowance: None,
                no_sails_query: false,
                payload: None,
            }));
        }
        r
    }

    /// Bypass the service-call framing: the payload is sent as given.
    pub fn no_sails_query(self) -> (r: Self)
        ensures
            r@ == (QueryCallView { no_sails_query: true, ..self@ }),
    {
        QueryCall { no_sails_query: true, ..self }
    }

    /// Sets the service name.
    pub fn service_name(self, service_name: &str) -> (r: Self)
        ensures
            r@ == (QueryCallView { service_name: Some(service_name@), ..self@ }),
    {
        QueryCall { service_name: Some(String::from_str(service_name)), ..self }
    }

    /// Sets the method name.
    pub fn method_name(self, method_name: &str) -> (r: Self)
        ensures
            r@ == (QueryCallView { method_name: Some(method_name@), ..self@ }),
    {
        QueryCall { method_name: Some(String::from_str(method_name)), ..self }
    }

    /// Sets the already-encoded argument payload.
    pub fn payload(self, payload: Vec<u8>) -> (r: Self)
        ensures
            r@ == (QueryCallView { payload: Some(payload@), ..self@ }),
    {
        QueryCall { payload: Some(payload), ..self }
    }

    /// Sets the allowance the read runs under; recorded, unused by the
    /// model ledger's state read.
    pub fn gas_allowance(self, gas_allowance: u64) -> (r: Self)
        ensures
            r@ == (QueryCallView { gas_allowance: Some(gas_allowance), ..self@ }),
    {
        QueryCall { gas_allowance: Some(gas_allowance), ..self }
    }

    /// Reads the contract's state: the reply is split into its two encoded
    /// names and the encoded reply value.  Reading never touches the ledger.
    pub fn send(self, l: &Ledger) -> (r: Result<Vec<u8>, crate::types::ContractQueryError>)
        ensures
            match spec_query_config_error(self@) {
                Some(e) => r matches Err(crate::types::ContractQueryError::Config(e2)) && e2 == e,
                None => match spec_query_reply(l@, self@.contract_address) {
                    None => r matches Err(crate::types::ContractQueryError::ReadStateError(_)),
                    Some(reply) => {
                        if forall|svc: Seq<char>, meth: Seq<char>, rest: Seq<u8>|
                            reply != service_call_payload(svc, meth, rest) {
                            r matches Err(crate::types::ContractQueryError::ResultDecodeError(_))
                        } else {
                            forall|svc: Seq<char>, meth: Seq<char>, rest: Seq<u8>|
                                reply == service_call_payload(svc, meth, rest) ==> (r matches Ok(v)
                                    && v@ == rest)
                        }
                    },
                },
            },
    {
        if self.service_name.is_none() && !self.no_sails_query {
            return Err(crate::types::ContractQueryError::Config(ConfigError::MissingServiceName));
        }
        if self.method_name.is_none() && !self.no_sails_query {
            return Err(crate::types::ContractQueryError::Config(ConfigError::MissingMethodName));
        }
        match l.read_state(&self.contract_address) {
            Err(_) => Err(
                crate::types::ContractQueryError::ReadStateError(
                    String::from_str("state read failed: no reply is scripted there"),
                ),
            ),
            Ok(bytes) => {
                match decode_reply_parts(&bytes) {
                    None => Err(
                        crate::types::ContractQueryError::ResultDecodeError(
                            String::from_str("state reply does not carry two names"),
                        ),
                    ),
                    Some((_svc, _meth, rest)) => Ok(rest),
                }
            },
        }
    }
}

} // verus!
