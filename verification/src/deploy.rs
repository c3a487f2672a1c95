//! The deployment builders: upload code, upload a program from its wasm, or
//! create a program from already-uploaded code.  Each computes the program's
//! address from the code identifier and salt before submission, submits the
//! constructor message, advances one block, and hands back a contract handle
//! bound to the precomputed address.

use vstd::prelude::*;
use vstd::string::StringExecFns;
use vstd::string::StrSliceExecFns;
use vstd::utf8::encode_utf8;
use crate::ids::ActorId32;
use crate::ids::CodeId32;
use crate::ids::account_of_actor_bytes;
use crate::ids::code_digest;
use crate::ids::user_program_address;
use crate::ids::derive_code_id;
use crate::ids::derive_program_address;
use crate::codec::string_scale_bytes;
use crate::codec::scale_encode_string;
use crate::ledger::Ledger;
use crate::ledger::LView;
use crate::ledger::LedgerView;
use crate::ledger::LedgerError;
use crate::ledger::DEFAULT_GAS_LIMIT;
use crate::ledger::spec_submit;
use crate::ledger::spec_submit_refusal;
use crate::ledger::spec_install_program;
use crate::ledger::spec_find_program;
use crate::stepper::spec_advance;
use crate::stepper::run_to_next_block;
use crate::types::ConfigError;
use crate::types::ContractCommandError;
use crate::contract::Contract;
use crate::builders::opt_string_view;
use crate::builders::spec_gas_limit;

verus! {

/// How a deployment ends, once its fields are checked.
#[verifier::ext_equal]
pub ghost enum DeployFlow {
    /// The ledger refused the deployment.
    Refused(LedgerError),
    /// The block that should run the constructor failed its queue check.
    StepFatal,
    /// The program is installed and its constructor has run.
    Deployed,
}

/// A deployment against `l`: register the code when `code` names one, then
/// install a program at `addr` and queue its constructor message, then
/// advance one block.
pub open spec fn spec_deploy_flow(
    l: LView,
    code: Option<Seq<u8>>,
    signer: u64,
    addr: Seq<u8>,
    payload: Seq<u8>,
    gas: u64,
) -> (LView, DeployFlow) {
    let lc = match code {
        Some(c) => LView {
            state: LedgerView {
                codes: if l.state.codes.contains(c) {
                    l.state.codes
                } else {
                    l.state.codes.push(c)
                },
                ..l.state
            },
            ..l
        },
        None => l,
    };
    if spec_find_program(lc.state.programs, addr) is Some {
        (lc, DeployFlow::Refused(LedgerError::ProgramAlreadyExists))
    } else {
        match spec_submit_refusal(lc.state, signer, gas, 0) {
            Some(e) => (lc, DeployFlow::Refused(e)),
            None => {
                let l2 = LView {
                    state: spec_submit(
                        spec_install_program(lc.state, addr),
                        signer,
                        addr,
                        payload,
                        gas,
                        0,
                    ),
                    ..lc
                };
                let a = spec_advance(l2, 1, None);
                if !a.1 {
                    (a.0, DeployFlow::StepFatal)
                } else {
                    (a.0, DeployFlow::Deployed)
                }
            },
        }
    }
}

/// Registers the code, installs the program, queues the constructor message
/// and advances one block; on success the handle for the precomputed
/// address.
fn deploy(
    l: &mut Ledger,
    register: Option<&CodeId32>,
    signer: u64,
    address: &ActorId32,
    payload: Vec<u8>,
    gas: u64,
) -> (r: Result<Contract, ContractCommandError>)
    requires
        old(l).wf(),
        old(l)@.state.block_number < u64::MAX,
    ensures
        final(l).wf(),
        ({
            let fs = spec_deploy_flow(
                old(l)@,
                match register {
                    Some(c) => Some(c@),
                    None => None,
                },
                signer,
                address@,
                payload@,
                gas,
            );
            final(l)@ == fs.0 && match fs.1 {
                DeployFlow::Refused(e) => r == Err::<Contract, ContractCommandError>(
                    ContractCommandError::CommandError(e),
                ),
                DeployFlow::StepFatal => r matches Err(ContractCommandError::Fatal(_)),
                DeployFlow::Deployed => r matches Ok(ct) && ct@.address == address@ && ct@.account
                    == account_of_actor_bytes(address@),
            }
        }),
{
    match register {
        Some(code_id) => {
            l.register_code(code_id);
        },
        None => {},
    }
    let ghost lc = l@;
    match l.submit_program(signer, address, payload, gas, 0) {
        Err(e) => {
            return Err(ContractCommandError::CommandError(e));
        },
        Ok(_id) => {},
    }
    let ghost l2 = l@;
    let account = address.to_account();
    let step = run_to_next_block(l);
    match step {
        Err(f) => Err(ContractCommandError::Fatal(f)),
        Ok(u) => {
            proof {
                assert(step == Ok::<(), crate::stepper::FatalError>(u));
                assert(spec_advance(l2, 1, None).1);
            }
            Ok(Contract::new(*address, account))
        },
    }
}

/// An upload of raw code, without deploying a program.
pub struct UploadCode {
    pub signer: Option<u64>,
    pub wasm: Option<Vec<u8>>,
}

/// The mathematical shape of a code upload.
#[verifier::ext_equal]
pub ghost struct UploadCodeView {
    pub signer: Option<u64>,
    pub wasm: Option<Seq<u8>>,
}

impl View for UploadCode {
    type V = UploadCodeView;

    open spec fn view(&self) -> UploadCodeView {
        UploadCodeView {
            signer: self.signer,
            wasm: match self.wasm {
                Some(ref w) => Some(w@),
                None => None,
            },
        }
    }
}

impl Default for UploadCode {
    /// An upload with nothing set.
    fn default() -> (r: Self)
        ensures
            r@ == (UploadCodeView { signer: None, wasm: None }),
    {
        UploadCode { signer: None, wasm: None }
    }
}

impl UploadCode {
    /// Sets the signing account.
    pub fn signer(self, signer: u64) -> (r: Self)
        ensures
            r@ == (UploadCodeView { signer: Some(signer), ..self@ }),
    {
        UploadCode { signer: Some(signer), ..self }
    }

    /// Sets the code to upload.
    pub fn wasm(self, wasm: &[u8]) -> (r: Self)
        ensures
            r@ == (UploadCodeView { wasm: Some(wasm@), ..self@ }),
    {
        let mut w: Vec<u8> = Vec::new();
        let mut i: usize = 0;
        while i < wasm.len()
            invariant
                i <= wasm@.len(),
                w@ == wasm@.subrange(0, i as int),
            decreases wasm@.len() - i,
        {
            w.push(wasm[i]);
            proof {
                assert(w@ =~= wasm@.subrange(0, i + 1));
            }
            i = i + 1;
        }
        proof {
            assert(w@ =~= wasm@);
        }
        let r = UploadCode { wasm: Some(w), ..self };
        proof {
            assert(r@ =~= (UploadCodeView { wasm: Some(wasm@), ..self@ }));
        }
        r
    }

    /// Registers the code with the ledger and returns its identifier, the
    /// digest of the code bytes.  Refused when the signer or the code is
    /// missing.
    pub fn upload(self, l: &mut Ledger) -> (r: Result<CodeId32, ConfigError>)
        requires
            old(l).wf(),
        ensures
            final(l).wf(),
            self@.signer is None ==> r == Err::<CodeId32, ConfigError>(ConfigError::MissingSigner)
                && final(l)@ == old(l)@,
            self@.signer is Some && self@.wasm is None ==> r == Err::<CodeId32, ConfigError>(
                ConfigError::MissingWasm,
            ) && final(l)@ == old(l)@,
            (self@.signer is Some && self@.wasm is Some) ==> ({
                let w = spec_unwrap_bytes(self@.wasm);
                (r matches Ok(c) && c@ == code_digest(w)) && final(l)@ == (LView {
                    state: LedgerView {
                        codes: if old(l)@.state.codes.contains(code_digest(w)) {
                            old(l)@.state.codes
                        } else {
                            old(l)@.state.codes.push(code_digest(w))
                        },
                        ..old(l)@.state
                    },
                    ..old(l)@
                })
            }),
    {
        if self.signer.is_none() {
            return Err(ConfigError::MissingSigner);
        }
        match self.wasm {
            None => Err(ConfigError::MissingWasm),
            Some(wasm) => {
                let code_id = derive_code_id(&wasm);
                l.register_code(&code_id);
                Ok(code_id)
            },
        }
    }
}

/// A program deployment from raw wasm, constructed with an empty payload.
pub struct UploadWasm {
    pub signer: Option<u64>,
    pub wasm: Option<Vec<u8>>,
    pub salt: Option<Vec<u8>>,
    pub keep_alive: bool,
    pub gas_limit: Option<u64>,
}

/// The mathematical shape of a wasm deployment.
#[verifier::ext_equal]
pub ghost struct UploadWasmView {
    pub signer: Option<u64>,
    pub wasm: Option<Seq<u8>>,
    pub salt: Option<Seq<u8>>,
    pub keep_alive: bool,
    pub gas_limit: Option<u64>,
}

impl View for UploadWasm {
    type V = UploadWasmView;

    open spec fn view(&self) -> UploadWasmView {
        UploadWasmView {
            signer: self.signer,
            wasm: match self.wasm {
                Some(ref w) => Some(w@),
                None => None,
            },
            salt: match self.salt {
                Some(ref s) => Some(s@),
                None => None,
            },
            keep_alive: self.keep_alive,
            gas_limit: self.gas_limit,
        }
    }
}

impl Default for UploadWasm {
    /// A deployment with nothing set.
    fn default() -> (r: Self)
        ensures
            r@ == (UploadWasmView {
                signer: None,
                wasm: None,
                salt: None,
                keep_alive: false,
                gas_limit: None,
            }),
    {
        UploadWasm { signer: None, wasm: None, salt: None, keep_alive: false, gas_limit: None }
    }
}

/// The configuration error of a wasm deployment, if any.
pub open spec fn spec_upload_config_error(c: UploadWasmView) -> Option<ConfigError> {
    if c.signer is None {
        Some(ConfigError::MissingSigner)
    } else if c.wasm is None {
        Some(ConfigError::MissingWasm)
    } else if c.salt is None {
        Some(ConfigError::MissingSalt)
    } else {
        None
    }
}

impl UploadWasm {
    /// Sets the signing account.
    pub fn signer(self, signer: u64) -> (r: Self)
        ensures
            r@ == (UploadWasmView { signer: Some(signer), ..self@ }),
    {
        UploadWasm { signer: Some(signer), ..self }
    }

    /// Sets the program code.
    pub fn wasm(self, wasm: Vec<u8>) -> (r: Self)
        ensures
            r@ == (UploadWasmView { wasm: Some(wasm@), ..self@ }),
    {
        UploadWasm { wasm: Some(wasm), ..self }
    }

    /// Sets the address salt.
    pub fn salt(self, salt: &str) -> (r: Self)
        ensures
            r@ == (UploadWasmView { salt: Some(encode_utf8(salt@)), ..self@ }),
    {
        UploadWasm { salt: Some(salt.as_bytes_vec()), ..self }
    }

    /// Sets the gas limit of the constructor message.
    pub fn gas_limit(self, gas_limit: u64) -> (r: Self)
        ensures
            r@ == (UploadWasmView { gas_limit: Some(gas_limit), ..self@ }),
    {
        UploadWasm { gas_limit: Some(gas_limit), ..self }
    }

    /// Keeps the signing account alive when fees would drain it; the model
    /// ledger enforces no existential deposit, so the flag is recorded but
    /// changes nothing there.
    pub fn keep_alive(self) -> (r: Self)
        ensures
            r@ == (UploadWasmView { keep_alive: true, ..self@ }),
    {
        UploadWasm { keep_alive: true, ..self }
    }

    /// Deploys the program with an empty constructor payload: computes the
    /// address from the code digest and salt, registers the code, submits
    /// the constructor message and advances one block.
    pub fn upload(self, l: &mut Ledger) -> (r: Result<Contract, ContractCommandError>)
        requires
            old(l).wf(),
            old(l)@.state.block_number < u64::MAX,
        ensures
            final(l).wf(),
            match spec_upload_config_error(self@) {
                Some(e) => r == Err::<Contract, ContractCommandError>(
                    ContractCommandError::Config(e),
                ) && final(l)@ == old(l)@,
                None => ({
                    let code = code_digest(spec_unwrap_bytes(self@.wasm));
                    let addr = user_program_address(code, spec_unwrap_bytes(self@.salt));
                    let fs = spec_deploy_flow(
                        old(l)@,
                        Some(code),
                        spec_unwrap_u64(self@.signer),
                        addr,
                        Seq::empty(),
                        spec_gas_limit(self@.gas_limit),
                    );
                    final(l)@ == fs.0 && match fs.1 {
                        DeployFlow::Refused(e) => r == Err::<Contract, ContractCommandError>(
                            ContractCommandError::CommandError(e),
                        ),
                        DeployFlow::StepFatal => r matches Err(ContractCommandError::Fatal(_)),
                        DeployFlow::Deployed => r matches Ok(ct) && ct@.address == addr
                            && ct@.account == account_of_actor_bytes(addr),
                    }
                }),
            },
    {
        if self.signer.is_none() {
            return Err(ContractCommandError::Config(ConfigError::MissingSigner));
        }
        if self.wasm.is_none() {
            return Err(ContractCommandError::Config(ConfigError::MissingWasm));
        }
        if self.salt.is_none() {
            return Err(ContractCommandError::Config(ConfigError::MissingSalt));
        }
        let signer = match self.signer {
            Some(s) => s,
            None => 0,
        };
        let gas = match self.gas_limit {
            Some(g) => g,
            None => DEFAULT_GAS_LIMIT,
        };
        let (wasm, salt) = match (self.wasm, self.salt) {
            (Some(w), Some(s)) => (w, s),
            _ => {
                proof {
                    assert(false);
                }
                (Vec::new(), Vec::new())
            },
        };
        let code_id = derive_code_id(&wasm);
        let address = derive_program_address(&code_id, &salt);
        deploy(l, Some(&code_id), signer, &address, Vec::new(), gas)
    }
}

/// The bytes behind an optional byte field known to be set.
pub open spec fn spec_unwrap_bytes(o: Option<Seq<u8>>) -> Seq<u8> {
    match o {
        Some(b) => b,
        None => Seq::empty(),
    }
}

/// The value behind an optional account field known to be set.
pub open spec fn spec_unwrap_u64(o: Option<u64>) -> u64 {
    match o {
        Some(v) => v,
        None => 0,
    }
}

/// A program deployment from raw wasm through a named constructor.
pub struct UploadSailsWasm {
    pub signer: Option<u64>,
    pub wasm: Option<Vec<u8>>,
    pub constructor_name: Option<String>,
    pub init_payload: Option<Vec<u8>>,
    pub salt: Option<Vec<u8>>,
    pub keep_alive: bool,
    pub gas_limit: Option<u64>,
}

/// The mathematical shape of a constructor deployment.
#[verifier::ext_equal]
pub ghost struct UploadSailsWasmView {
    pub signer: Option<u64>,
    pub wasm: Option<Seq<u8>>,
    pub constructor_name: Option<Seq<char>>,
    pub init_payload: Option<Seq<u8>>,
    pub salt: Option<Seq<u8>>,
    pub keep_alive: bool,
    pub gas_limit: Option<u64>,
}

impl View for UploadSailsWasm {
    type V = UploadSailsWasmView;

    open spec fn view(&self) -> UploadSailsWasmView {
        UploadSailsWasmView {
            signer: self.signer,
            wasm: match self.wasm {
                Some(ref w) => Some(w@),
                None => None,
            },
            constructor_name: opt_string_view(self.constructor_name),
            init_payload: match self.init_payload {
                Some(ref p) => Some(p@),
                None => None,
            },
            salt: match self.salt {
                Some(ref s) => Some(s@),
                None => None,
            },
            keep_alive: self.keep_alive,
            gas_limit: self.gas_limit,
        }
    }
}

/// The configuration error of a constructor deployment, if any.
pub open spec fn spec_sails_config_error(c: UploadSailsWasmView) -> Option<ConfigError> {
    if c.signer is None {
        Some(ConfigError::MissingSigner)
    } else if c.wasm is None {
        Some(ConfigError::MissingWasm)
    } else if c.salt is None {
        Some(ConfigError::MissingSalt)
    } else if c.constructor_name is None {
        Some(ConfigError::MissingConstructorName)
    } else {
        None
    }
}

/// The constructor payload: the encoded constructor name, then the encoded
/// constructor arguments (empty when none were given).
pub open spec fn spec_constructor_payload(
    constructor: Option<Seq<char>>,
    init: Option<Seq<u8>>,
) -> Seq<u8> {
    string_scale_bytes(
        match constructor {
            Some(s) => s,
            None => Seq::empty(),
        },
    ) + spec_unwrap_bytes(init)
}

impl UploadSailsWasm {
    /// A deployment with nothing set.
    pub fn new() -> (r: Self)
        ensures
            r@ == (UploadSailsWasmView {
                signer: None,
                wasm: None,
                constructor_name: None,
                init_payload: None,
                salt: None,
                keep_alive: false,
                gas_limit: None,
            }),
    {
        UploadSailsWasm {
            signer: None,
            wasm: None,
            constructor_name: None,
            init_payload: None,
            salt: None,
            keep_alive: false,
            gas_limit: None,
        }
    }

    /// Sets the constructor to run.
    pub fn app_constructor_name(self, constructor_name: &str) -> (r: Self)
        ensures
            r@ == (UploadSailsWasmView { constructor_name: Some(constructor_name@), ..self@ }),
    {
        UploadSailsWasm { constructor_name: Some(String::from_str(constructor_name)), ..self }
    }

    /// Sets the already-encoded constructor arguments.
    pub fn init_payload(self, payload: Vec<u8>) -> (r: Self)
        ensures
            r@ == (UploadSailsWasmView { init_payload: Some(payload@), ..self@ }),
    {
        UploadSailsWasm { init_payload: Some(payload), ..self }
    }

    /// Sets the signing account.
    pub fn signer(self, signer: u64) -> (r: Self)
        ensures
            r@ == (UploadSailsWasmView { signer: Some(signer), ..self@ }),
    {
        UploadSailsWasm { signer: Some(signer), ..self }
    }

    /// Sets the program code.
    pub fn wasm(self, wasm: Vec<u8>) -> (r: Self)
        ensures
            r@ == (UploadSailsWasmView { wasm: Some(wasm@), ..self@ }),
    {
        UploadSailsWasm { wasm: Some(wasm), ..self }
    }

    /// Sets the address salt.
    pub fn salt(self, salt: &str) -> (r: Self)
        ensures
            r@ == (UploadSailsWasmView { salt: Some(encode_utf8(salt@)), ..self@ }),
    {
        UploadSailsWasm { salt: Some(salt.as_bytes_vec()), ..self }
    }

    /// Sets the gas limit of the constructor message.
    pub fn gas_limit(self, gas_limit: u64) -> (r: Self)
        ensures
            r@ == (UploadSailsWasmView { gas_limit: Some(gas_limit), ..self@ }),
    {
        UploadSailsWasm { gas_limit: Some(gas_limit), ..self }
    }

    /// Keeps the signing account alive when fees would drain it; the model
    /// ledger enforces no existential deposit, so the flag is recorded but
    /// changes nothing there.
    pub fn keep_alive(self) -> (r: Self)
        ensures
            r@ == (UploadSailsWasmView { keep_alive: true, ..self@ }),
    {
        UploadSailsWasm { keep_alive: true, ..self }
    }

    /// Deploys the program through its constructor: computes the address
    /// from the code digest and salt, registers the code, submits the
    /// constructor message and advances one block.
    pub fn upload(self, l: &mut Ledger) -> (r: Result<Contract, ContractCommandError>)
        requires
            old(l).wf(),
            old(l)@.state.block_number < u64::MAX,
            (self@.constructor_name matches Some(c) ==> crate::codec::scale_encodable(c)),
        ensures
            final(l).wf(),
            match spec_sails_config_error(self@) {
                Some(e) => r == Err::<Contract, ContractCommandError>(
                    ContractCommandError::Config(e),
                ) && final(l)@ == old(l)@,
                None => ({
                    let code = code_digest(spec_unwrap_bytes(self@.wasm));
                    let addr = user_program_address(code, spec_unwrap_bytes(self@.salt));
                    let fs = spec_deploy_flow(
                        old(l)@,
                        Some(code),
                        spec_unwrap_u64(self@.signer),
                        addr,
                        spec_constructor_payload(self@.constructor_name, self@.init_payload),
                        spec_gas_limit(self@.gas_limit),
                    );
                    final(l)@ == fs.0 && match fs.1 {
                        DeployFlow::Refused(e) => r == Err::<Contract, ContractCommandError>(
                            ContractCommandError::CommandError(e),
                        ),
                        DeployFlow::StepFatal => r matches Err(ContractCommandError::Fatal(_)),
                        DeployFlow::Deployed => r matches Ok(ct) && ct@.address == addr
                            && ct@.account == account_of_actor_bytes(addr),
                    }
                }),
            },
    {
        if self.signer.is_none() {
            return Err(ContractCommandError::Config(ConfigError::MissingSigner));
        }
        if self.wasm.is_none() {
            return Err(ContractCommandError::Config(ConfigError::MissingWasm));
        }
        if self.salt.is_none() {
            return Err(ContractCommandError::Config(ConfigError::MissingSalt));
        }
        if self.constructor_name.is_none() {
            return Err(ContractCommandError::Config(ConfigError::MissingConstructorName));
        }
        let signer = match self.signer {
            Some(s) => s,
            None => 0,
        };
        let gas = match self.gas_limit {
            Some(g) => g,
            None => DEFAULT_GAS_LIMIT,
        };
        let (wasm, salt, ctor) = match (self.wasm, self.salt, self.constructor_name) {
            (Some(w), Some(s), Some(c)) => (w, s, c),
            _ => {
                proof {
                    assert(false);
                }
                (Vec::new(), Vec::new(), String::new())
            },
        };
        let mut payload = scale_encode_string(&ctor);
        match &self.init_payload {
            Some(init) => {
                crate::ids::append_bytes(&mut payload, init);
            },
            None => {
                proof {
                    assert(payload@ =~= payload@ + Seq::<u8>::empty());
                }
            },
        }
        let code_id = derive_code_id(&wasm);
        let address = derive_program_address(&code_id, &salt);
        deploy(l, Some(&code_id), signer, &address, payload, gas)
    }
}

/// A program creation from already-uploaded code.
pub struct CreateContract {
    pub signer: Option<u64>,
    pub code_id: Option<CodeId32>,
    pub constructor_name: Option<String>,
    pub init_payload: Option<Vec<u8>>,
    pub salt: Option<Vec<u8>>,
    pub keep_alive: bool,
    pub gas_limit: Option<u64>,
}

/// The mathematical shape of a program creation.
#[verifier::ext_equal]
pub ghost struct CreateContractView {
    pub signer: Option<u64>,
    pub code_id: Option<Seq<u8>>,
    pub constructor_name: Option<Seq<char>>,
    pub init_payload: Option<Seq<u8>>,
    pub salt: Option<Seq<u8>>,
    pub keep_alive: bool,
    pub gas_limit: Option<u64>,
}

impl View for CreateContract {
    type V = CreateContractView;

    open spec fn view(&self) -> CreateContractView {
        CreateContractView {
            signer: self.signer,
            code_id: match self.code_id {
                Some(c) => Some(c@),
                None => None,
            },
            constructor_name: opt_string_view(self.constructor_name),
            init_payload: match self.init_payload {
                Some(ref p) => Some(p@),
                None => None,
            },
            salt: match self.salt {
                Some(ref s) => Some(s@),
                None => None,
            },
            keep_alive: self.keep_alive,
            gas_limit: self.gas_limit,
        }
    }
}

/// The configuration error of a program creation, if any.
pub open spec fn spec_create_config_error(c: CreateContractView) -> Option<ConfigError> {
    if c.signer is None {
        Some(ConfigError::MissingSigner)
    } else if c.code_id is None {
        Some(ConfigError::MissingCodeId)
    } else if c.salt is None {
        Some(ConfigError::MissingSalt)
    } else if c.constructor_name is None {
        Some(ConfigError::MissingConstructorName)
    } else {
        None
    }
}

impl CreateContract {
    /// A creation with nothing set.
    pub fn new() -> (r: Self)
        ensures
            r@ == (CreateContractView {
                signer: None,
                code_id: None,
                constructor_name: None,
                init_payload: None,
                salt: None,
                keep_alive: false,
                gas_limit: None,
            }),
    {
        CreateContract {
            signer: None,
            code_id: None,
            constructor_name: None,
            init_payload: None,
            salt: None,
            keep_alive: false,
            gas_limit: None,
        }
    }

    /// Sets the constructor to run.
    pub fn app_constructor_name(self, constructor_name: &str) -> (r: Self)
        ensures
            r@ == (CreateContractView { constructor_name: Some(constructor_name@), ..self@ }),
    {
        CreateContract { constructor_name: Some(String::from_str(constructor_name)), ..self }
    }

    /// Sets the already-encoded constructor arguments.
    pub fn init_payload(self, payload: Vec<u8>) -> (r: Self)
        ensures
            r@ == (CreateContractView { init_payload: Some(payload@), ..self@ }),
    {
        CreateContract { init_payload: Some(payload), ..self }
    }

    /// Sets the signing account.
    pub fn signer(self, signer: u64) -> (r: Self)
        ensures
            r@ == (CreateContractView { signer: Some(signer), ..self@ }),
    {
        CreateContract { signer: Some(signer), ..self }
    }

    /// Sets the identifier of the uploaded code to instantiate.
    pub fn code_id(self, code_id: CodeId32) -> (r: Self)
        ensures
            r@ == (CreateContractView { code_id: Some(code_id@), ..self@ }),
    {
        CreateContract { code_id: Some(code_id), ..self }
    }

    /// Sets the address salt.
    pub fn salt(self, salt: &str) -> (r: Self)
        ensures
            r@ == (CreateContractView { salt: Some(encode_utf8(salt@)), ..self@ }),
    {
        CreateContract { salt: Some(salt.as_bytes_vec()), ..self }
    }

    /// Sets the gas limit of the constructor message.
    pub fn gas_limit(self, gas_limit: u64) -> (r: Self)
        ensures
            r@ == (CreateContractView { gas_limit: Some(gas_limit), ..self@ }),
    {
        CreateContract { gas_limit: Some(gas_limit), ..self }
    }

    /// Keeps the signing account alive when fees would drain it; the model
    /// ledger enforces no existential deposit, so the flag is recorded but
    /// changes nothing there.
    pub fn keep_alive(self) -> (r: Self)
        ensures
            r@ == (CreateContractView { keep_alive: true, ..self@ }),
    {
        CreateContract { keep_alive: true, ..self }
    }

    /// Creates the program: refused when the code was never uploaded;
    /// otherwise computes the address from the code identifier and salt,
    /// submits the constructor message and advances one block.
    pub fn create(self, l: &mut Ledger) -> (r: Result<Contract, ContractCommandError>)
        requires
            old(l).wf(),
            old(l)@.state.block_number < u64::MAX,
            (self@.constructor_name matches Some(c) ==> crate::codec::scale_encodable(c)),
        ensures
            final(l).wf(),
            match spec_create_config_error(self@) {
                Some(e) => r == Err::<Contract, ContractCommandError>(
                    ContractCommandError::Config(e),
                ) && final(l)@ == old(l)@,
                None => ({
                    let code = spec_unwrap_bytes(self@.code_id);
                    if !old(l)@.state.codes.contains(code) {
                        r == Err::<Contract, ContractCommandError>(
                            ContractCommandError::CommandError(LedgerError::CodeNotFound),
                        ) && final(l)@ == old(l)@
                    } else {
                        let addr = user_program_address(code, spec_unwrap_bytes(self@.salt));
                        let fs = spec_deploy_flow(
                            old(l)@,
                            None,
                            spec_unwrap_u64(self@.signer),
                            addr,
                            spec_constructor_payload(self@.constructor_name, self@.init_payload),
                            spec_gas_limit(self@.gas_limit),
                        );
                        final(l)@ == fs.0 && match fs.1 {
                            DeployFlow::Refused(e) => r == Err::<Contract, ContractCommandError>(
                                ContractCommandError::CommandError(e),
                            ),
                            DeployFlow::StepFatal => r matches Err(ContractCommandError::Fatal(_)),
                            DeployFlow::Deployed => r matches Ok(ct) && ct@.address == addr
                                && ct@.account == account_of_actor_bytes(addr),
                        }
                    }
                }),
            },
    {
        if self.signer.is_none() {
            return Err(ContractCommandError::Config(ConfigError::MissingSigner));
        }
        if self.code_id.is_none() {
            return Err(ContractCommandError::Config(ConfigError::MissingCodeId));
        }
        if self.salt.is_none() {
            return Err(ContractCommandError::Config(ConfigError::MissingSalt));
        }
        if self.constructor_name.is_none() {
            return Err(ContractCommandError::Config(ConfigError::MissingConstructorName));
        }
        let signer = match self.signer {
            Some(s) => s,
            None => 0,
        };
        let gas = match self.gas_limit {
            Some(g) => g,
            None => DEFAULT_GAS_LIMIT,
        };
        let (code_id, salt, ctor) = match (self.code_id, self.salt, self.constructor_name) {
            (Some(c), Some(s), Some(n)) => (c, s, n),
            _ => {
                proof {
                    assert(false);
                }
                (CodeId32::new([0; 32]), Vec::new(), String::new())
            },
        };
        if !l.code_known(&code_id) {
            return Err(ContractCommandError::CommandError(LedgerError::CodeNotFound));
        }
        let mut payload = scale_encode_string(&ctor);
        match &self.init_payload {
            Some(init) => {
                crate::ids::append_bytes(&mut payload, init);
            },
            None => {
                proof {
                    assert(payload@ =~= payload@ + Seq::<u8>::empty());
                }
            },
        }
        let address = derive_program_address(&code_id, &salt);
        deploy(l, None, signer, &address, payload, gas)
    }
}

} // verus!
