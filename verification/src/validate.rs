//! The validator: composes the sanity, simulation and trace rules into one
//! pipeline, gated by a mode set, and emits an outcome.
//!
//! The chain client is a collaborator, not part of the core: everything it
//! returned for one validation — the simulation result, the latest block,
//! the trace, the code hashes — arrives here as plain data, and this module
//! decides. A chain failure is mapped to an error exactly as the contract
//! states.

use crate::mempool::{entry_by_sender_nonce, entry_for, has_hash, has_sender_nonce, Mempool};
use crate::reputation::Reputation;
use crate::sanity::{spec_sanity_pipeline, check_sanity, SanityCheckError, SanityHelper};
use crate::simulation::{
    check_simulation, extract_pre_fund, extract_verification_gas_limit, return_info_of,
    spec_simulation_pipeline, SimulateValidationResult, SimulationCheckError,
};
use crate::simulation_trace::{
    check_simulation_trace, trace_pipeline_err, trace_pipeline_ok, EntityStakes, SimulationTrace,
    SimulationTraceHelper,
};
use crate::types::{Address, CodeHash, U256, UserOperationHash};
use crate::user_operation::{uo_hash_value, UserOperation};
use vstd::prelude::*;

verus! {

/// What one call into the chain client came back as.
pub enum ChainResponse<T> {
    /// The call succeeded.
    Value(T),
    /// The entry point reverted with a failed-operation reason.
    FailedOp(String),
    /// The client failed in some other way.
    Failure(String),
}

/// The latest block, as far as validation reads it.
#[derive(Clone, Copy, Debug, PartialEq, Eq, Structural)]
pub struct BlockInfo {
    /// The block hash, as a 256-bit value.
    pub hash: U256,
    pub timestamp: u64,
}

/// Everything the chain client returned for one validation.
pub struct ValidationInput {
    pub sanity_ctx: SanityHelper,
    pub sim: ChainResponse<SimulateValidationResult>,
    pub block: ChainResponse<BlockInfo>,
    pub trace: ChainResponse<SimulationTrace>,
    /// Code hashes of the addresses the trace touched.
    pub trace_code_hashes: Vec<CodeHash>,
    /// Seconds since the epoch, for the timestamp rule.
    pub now: u64,
}

/// The outcome of a successful validation.
pub struct UserOperationValidationOutcome {
    /// Hash of the same-(sender, nonce) entry this operation replaces.
    pub prev_hash: Option<UserOperationHash>,
    pub pre_fund: U256,
    pub verification_gas_limit: U256,
    pub valid_after: Option<u64>,
    /// The captured code hashes, when the trace rules ran.
    pub code_hashes: Option<Vec<CodeHash>>,
    /// The storage accesses the trace reported, surfaced for the bundler.
    pub storage_map: Option<Vec<crate::simulation_trace::SlotAccess>>,
    /// The block the validation was carried out against.
    pub verified_block: U256,
}

/// The phases a validation run may enable.
#[derive(Clone, Copy, Debug, PartialEq, Eq, Structural)]
pub enum UserOperationValidatorMode {
    Sanity,
    Simulation,
    SimulationTrace,
}

/// A set of enabled phases.
#[derive(Clone, Copy, Debug, PartialEq, Eq, Structural)]
pub struct ValidatorModeSet {
    pub sanity: bool,
    pub simulation: bool,
    pub simulation_trace: bool,
}

impl ValidatorModeSet {
    /// The canonical set: every phase enabled.
    pub fn all() -> (r: ValidatorModeSet)
        ensures
            r == (ValidatorModeSet { sanity: true, simulation: true, simulation_trace: true }),
    {
        ValidatorModeSet { sanity: true, simulation: true, simulation_trace: true }
    }

    pub open spec fn spec_contains(self, m: UserOperationValidatorMode) -> bool {
        match m {
            UserOperationValidatorMode::Sanity => self.sanity,
            UserOperationValidatorMode::Simulation => self.simulation,
            UserOperationValidatorMode::SimulationTrace => self.simulation_trace,
        }
    }

    pub fn contains(&self, m: UserOperationValidatorMode) -> (r: bool)
        ensures
            r == self.spec_contains(m),
    {
        match m {
            UserOperationValidatorMode::Sanity => self.sanity,
            UserOperationValidatorMode::Simulation => self.simulation,
            UserOperationValidatorMode::SimulationTrace => self.simulation_trace,
        }
    }
}

/// A validation failure: one of the sanity rules, or the simulation side.
#[derive(Debug)]
pub enum ValidationError {
    Sanity(SanityCheckError),
    Simulation(SimulationCheckError),
}

/// How a chain response to `simulateValidation` maps to a result: a
/// failed-op reason becomes a validation error, any other failure an
/// unknown error.
pub open spec fn sim_result_of(resp: ChainResponse<SimulateValidationResult>) -> Result<
    SimulateValidationResult,
    SimulationCheckError,
> {
    match resp {
        ChainResponse::Value(v) => Ok(v),
        ChainResponse::FailedOp(reason) => Err(SimulationCheckError::Validation { message: reason }),
        ChainResponse::Failure(message) => Err(SimulationCheckError::Unknown { message }),
    }
}

/// The same mapping for the traced simulation.
pub open spec fn trace_result_of(resp: ChainResponse<SimulationTrace>) -> Result<
    SimulationTrace,
    SimulationCheckError,
> {
    match resp {
        ChainResponse::Value(v) => Ok(v),
        ChainResponse::FailedOp(reason) => Err(SimulationCheckError::Validation { message: reason }),
        ChainResponse::Failure(message) => Err(SimulationCheckError::Unknown { message }),
    }
}

/// The stakes record the trace rules read from the sanity context.
pub open spec fn stakes_of(h: SanityHelper) -> EntityStakes {
    EntityStakes { sender: h.sender_stake, factory: h.factory_stake, paymaster: h.paymaster_stake }
}

/// The code hashes stored for `h`, empty when none are stored.
pub open spec fn stored_code_hashes(
    s: Seq<crate::mempool::MempoolEntryView>,
    h: UserOperationHash,
) -> Seq<CodeHash> {
    if has_hash(s, h) {
        entry_for(s, h).code_hashes
    } else {
        Seq::empty()
    }
}

/// The input-side conditions a successful validation shows: every enabled
/// phase passed on what the chain returned.
pub open spec fn spec_validation_passes(
    v: StandardUserOperationValidator,
    uo_v: crate::user_operation::UserOperationView,
    pool: Mempool,
    rep: Reputation,
    mode: ValidatorModeSet,
    input: ValidationInput,
) -> bool {
    &&& (mode.sanity ==> spec_sanity_pipeline(
        uo_v,
        pool,
        rep,
        input.sanity_ctx,
        v.max_verification_gas,
        v.min_priority_fee_per_gas,
    ) is Ok)
    &&& sim_result_of(input.sim) is Ok
    &&& (mode.simulation ==> spec_simulation_pipeline(sim_result_of(input.sim)->Ok_0, input.now) is Ok)
    &&& input.block is Value
    &&& (mode.simulation_trace && v.trace_checks ==> trace_result_of(input.trace) is Ok
        && trace_pipeline_ok(
        trace_result_of(input.trace)->Ok_0,
        uo_v,
        stakes_of(input.sanity_ctx),
        v.entry_point,
        stored_code_hashes(pool.view_entries(), uo_hash_value(uo_v, v.entry_point, v.chain_id)),
        input.trace_code_hashes@,
        rep,
    ))
}

/// Everything a successful validation shows of its inputs, and how the
/// outcome's fields are determined by them.
pub open spec fn spec_validation_ok(
    v: StandardUserOperationValidator,
    uo_v: crate::user_operation::UserOperationView,
    pool: Mempool,
    rep: Reputation,
    mode: ValidatorModeSet,
    input: ValidationInput,
    out: UserOperationValidationOutcome,
) -> bool {
    &&& spec_validation_passes(v, uo_v, pool, rep, mode, input)
    &&& (mode.sanity ==> spec_sanity_pipeline(
        uo_v,
        pool,
        rep,
        input.sanity_ctx,
        v.max_verification_gas,
        v.min_priority_fee_per_gas,
    ) is Ok)
    &&& sim_result_of(input.sim) is Ok
    &&& out.pre_fund == return_info_of(sim_result_of(input.sim)->Ok_0).prefund
    &&& out.verification_gas_limit == return_info_of(sim_result_of(input.sim)->Ok_0).pre_op_gas
    &&& (mode.simulation ==> spec_simulation_pipeline(sim_result_of(input.sim)->Ok_0, input.now) is Ok
        && out.valid_after == spec_simulation_pipeline(
        sim_result_of(input.sim)->Ok_0,
        input.now,
    )->Ok_0)
    &&& (!mode.simulation ==> out.valid_after is None)
    &&& input.block is Value
    &&& out.verified_block == (input.block->Value_0).hash
    &&& out.prev_hash == (if has_sender_nonce(pool.view_entries(), uo_v.sender, uo_v.nonce) {
        Some(
            uo_hash_value(
                entry_by_sender_nonce(pool.view_entries(), uo_v.sender, uo_v.nonce).uo,
                v.entry_point,
                v.chain_id,
            ),
        )
    } else {
        None
    })
    &&& if mode.simulation_trace && v.trace_checks {
        &&& trace_result_of(input.trace) is Ok
        &&& trace_pipeline_ok(
            trace_result_of(input.trace)->Ok_0,
            uo_v,
            stakes_of(input.sanity_ctx),
            v.entry_point,
            stored_code_hashes(pool.view_entries(), uo_hash_value(uo_v, v.entry_point, v.chain_id)),
            input.trace_code_hashes@,
            rep,
        )
        &&& out.code_hashes matches Some(chs) && chs@ == input.trace_code_hashes@
        &&& out.storage_map is Some
    } else {
        out.code_hashes is None && out.storage_map is None
    }
}

/// What each validation error says of the inputs: which phase failed, with
/// every earlier phase clean.
pub open spec fn spec_validation_err(
    v: StandardUserOperationValidator,
    uo_v: crate::user_operation::UserOperationView,
    pool: Mempool,
    rep: Reputation,
    mode: ValidatorModeSet,
    input: ValidationInput,
    err: ValidationError,
) -> bool {
    match err {
        ValidationError::Sanity(e) => {
            ||| (mode.sanity && spec_sanity_pipeline(
                uo_v,
                pool,
                rep,
                input.sanity_ctx,
                v.max_verification_gas,
                v.min_priority_fee_per_gas,
            ) == Err::<(), SanityCheckError>(e))
            ||| ((mode.sanity ==> spec_sanity_pipeline(
                uo_v,
                pool,
                rep,
                input.sanity_ctx,
                v.max_verification_gas,
                v.min_priority_fee_per_gas,
            ) is Ok) && sim_result_of(input.sim) is Ok && (mode.simulation
                ==> spec_simulation_pipeline(sim_result_of(input.sim)->Ok_0, input.now) is Ok)
                && !(input.block is Value) && e == SanityCheckError::MiddlewareError {  })
        },
        ValidationError::Simulation(e) => (mode.sanity ==> spec_sanity_pipeline(
            uo_v,
            pool,
            rep,
            input.sanity_ctx,
            v.max_verification_gas,
            v.min_priority_fee_per_gas,
        ) is Ok) && {
            ||| sim_result_of(input.sim) == Err::<SimulateValidationResult, SimulationCheckError>(e)
            ||| (sim_result_of(input.sim) is Ok && mode.simulation && spec_simulation_pipeline(
                sim_result_of(input.sim)->Ok_0,
                input.now,
            ) == Err::<Option<u64>, SimulationCheckError>(e))
            ||| (sim_result_of(input.sim) is Ok && (mode.simulation ==> spec_simulation_pipeline(
                sim_result_of(input.sim)->Ok_0,
                input.now,
            ) is Ok) && input.block is Value && mode.simulation_trace && v.trace_checks && {
                ||| trace_result_of(input.trace) == Err::<SimulationTrace, SimulationCheckError>(e)
                ||| (trace_result_of(input.trace) is Ok && trace_pipeline_err(
                    e,
                    trace_result_of(input.trace)->Ok_0,
                    uo_v,
                    stakes_of(input.sanity_ctx),
                    v.entry_point,
                    stored_code_hashes(
                        pool.view_entries(),
                        uo_hash_value(uo_v, v.entry_point, v.chain_id),
                    ),
                    input.trace_code_hashes@,
                    rep,
                ))
            })
        },
    }
}

/// The standard validator: fixed rule set, configured limits, a mode set
/// gating the phases. The unsafe variant simply never runs the trace rules.
pub struct StandardUserOperationValidator {
    pub entry_point: Address,
    pub chain_id: u64,
    pub max_verification_gas: U256,
    pub min_priority_fee_per_gas: U256,
    /// Whether the trace rule set is wired at all.
    pub trace_checks: bool,
}

/// Builds a validator with every rule set wired.
pub fn new_canonical(
    entry_point: Address,
    chain_id: u64,
    max_verification_gas: U256,
    min_priority_fee_per_gas: U256,
) -> (r: StandardUserOperationValidator)
    ensures
        r == (StandardUserOperationValidator {
            entry_point,
            chain_id,
            max_verification_gas,
            min_priority_fee_per_gas,
            trace_checks: true,
        }),
{
    StandardUserOperationValidator {
        entry_point,
        chain_id,
        max_verification_gas,
        min_priority_fee_per_gas,
        trace_checks: true,
    }
}

/// Builds a validator without the trace rules: the unsafe canonical set.
pub fn new_canonical_unsafe(
    entry_point: Address,
    chain_id: u64,
    max_verification_gas: U256,
    min_priority_fee_per_gas: U256,
) -> (r: StandardUserOperationValidator)
    ensures
        r == (StandardUserOperationValidator {
            entry_point,
            chain_id,
            max_verification_gas,
            min_priority_fee_per_gas,
            trace_checks: false,
        }),
{
    StandardUserOperationValidator {
        entry_point,
        chain_id,
        max_verification_gas,
        min_priority_fee_per_gas,
        trace_checks: false,
    }
}

impl StandardUserOperationValidator {
    pub fn new(
        entry_point: Address,
        chain_id: u64,
        max_verification_gas: U256,
        min_priority_fee_per_gas: U256,
        trace_checks: bool,
    ) -> (r: StandardUserOperationValidator)
        ensures
            r == (StandardUserOperationValidator {
                entry_point,
                chain_id,
                max_verification_gas,
                min_priority_fee_per_gas,
                trace_checks,
            }),
    {
        StandardUserOperationValidator {
            entry_point,
            chain_id,
            max_verification_gas,
            min_priority_fee_per_gas,
            trace_checks,
        }
    }

    /// Maps what `simulateValidation` came back as, exactly as
    /// [`sim_result_of`] states.
    fn simulate_validation(&self, resp: ChainResponse<SimulateValidationResult>) -> (r: Result<
        SimulateValidationResult,
        SimulationCheckError,
    >)
        ensures
            r == sim_result_of(resp),
    {
        match resp {
            ChainResponse::Value(v) => Ok(v),
            ChainResponse::FailedOp(reason) => {
                Err(SimulationCheckError::Validation { message: reason })
            },
            ChainResponse::Failure(message) => Err(SimulationCheckError::Unknown { message }),
        }
    }

    /// Maps what the traced simulation came back as, exactly as
    /// [`trace_result_of`] states.
    fn simulate_validation_trace(&self, resp: ChainResponse<SimulationTrace>) -> (r: Result<
        SimulationTrace,
        SimulationCheckError,
    >)
        ensures
            r == trace_result_of(resp),
    {
        match resp {
            ChainResponse::Value(v) => Ok(v),
            ChainResponse::FailedOp(reason) => {
                Err(SimulationCheckError::Validation { message: reason })
            },
            ChainResponse::Failure(message) => Err(SimulationCheckError::Unknown { message }),
        }
    }

    /// Runs the enabled phases in order — sanity, replacement lookup,
    /// simulation, block read, trace — and either returns the outcome or
    /// the first phase's error.
    pub fn validate_user_operation(
        &self,
        uo: &UserOperation,
        mempool: &Mempool,
        reputation: &Reputation,
        mode: ValidatorModeSet,
        input: ValidationInput,
    ) -> (r: Result<UserOperationValidationOutcome, ValidationError>)
        requires
            mempool.wf(),
            reputation.wf(),
        ensures
            match r {
                Ok(out) => spec_validation_ok(*self, uo@, *mempool, *reputation, mode, input, out),
                Err(e) => spec_validation_err(*self, uo@, *mempool, *reputation, mode, input, e),
            },
    {
        if mode.contains(UserOperationValidatorMode::Sanity) {
            match check_sanity(
                uo,
                mempool,
                reputation,
                &input.sanity_ctx,
                &self.max_verification_gas,
                &self.min_priority_fee_per_gas,
            ) {
                Ok(()) => {},
                Err(e) => {
                    return Err(ValidationError::Sanity(e));
                },
            }
        }
        let prev_hash: Option<UserOperationHash> = match mempool.get_prev_by_sender(uo) {
            Some(prev) => Some(prev.hash(&self.entry_point, self.chain_id)),
            None => None,
        };
        let sim_res: SimulateValidationResult = match self.simulate_validation(input.sim) {
            Ok(v) => v,
            Err(e) => {
                return Err(ValidationError::Simulation(e));
            },
        };
        let valid_after: Option<u64> = if mode.contains(UserOperationValidatorMode::Simulation) {
            match check_simulation(&sim_res, input.now) {
                Ok(va) => va,
                Err(e) => {
                    return Err(ValidationError::Simulation(e));
                },
            }
        } else {
            None
        };
        let pre_fund = extract_pre_fund(&sim_res);
        let verification_gas_limit = extract_verification_gas_limit(&sim_res);
        let verified_block: U256 = match input.block {
            ChainResponse::Value(b) => b.hash,
            ChainResponse::FailedOp(_) => {
                return Err(ValidationError::Sanity(SanityCheckError::MiddlewareError {}));
            },
            ChainResponse::Failure(_) => {
                return Err(ValidationError::Sanity(SanityCheckError::MiddlewareError {}));
            },
        };
        let mut code_hashes: Option<Vec<CodeHash>> = None;
        let mut storage_map: Option<Vec<crate::simulation_trace::SlotAccess>> = None;
        if mode.contains(UserOperationValidatorMode::SimulationTrace) && self.trace_checks {
            let trace: SimulationTrace = match self.simulate_validation_trace(input.trace) {
                Ok(t) => t,
                Err(e) => {
                    return Err(ValidationError::Simulation(e));
                },
            };
            let own_hash = uo.hash(&self.entry_point, self.chain_id);
            let prev_code_hashes = mempool.get_code_hashes(&own_hash);
            let helper = SimulationTraceHelper {
                entry_point: self.entry_point,
                stakes: EntityStakes {
                    sender: input.sanity_ctx.sender_stake,
                    factory: input.sanity_ctx.factory_stake,
                    paymaster: input.sanity_ctx.paymaster_stake,
                },
                code_hashes: input.trace_code_hashes,
                prev_code_hashes,
            };
            match check_simulation_trace(uo, &trace, &helper, reputation) {
                Ok(hashes) => {
                    code_hashes = Some(hashes);
                },
                Err(e) => {
                    return Err(ValidationError::Simulation(e));
                },
            }
            storage_map = Some(collect_storage_map(&trace));
        }
        Ok(
            UserOperationValidationOutcome {
                prev_hash,
                pre_fund,
                verification_gas_limit,
                valid_after,
                code_hashes,
                storage_map,
                verified_block,
            },
        )
    }
}

/// Flattens every storage access of the trace into one report.
fn collect_storage_map(t: &SimulationTrace) -> (r: Vec<crate::simulation_trace::SlotAccess>) {
    let n: usize = t.levels.len();
    let mut r: Vec<crate::simulation_trace::SlotAccess> = Vec::new();
    let mut i: usize = 0;
    while i < n
        invariant
            i <= n,
            n == t.levels@.len(),
        decreases n - i,
    {
        let m: usize = t.levels[i].accesses.len();
        let mut j: usize = 0;
        while j < m
            invariant
                i < n,
                j <= m,
                n == t.levels@.len(),
                m == t.levels@[i as int].accesses@.len(),
            decreases m - j,
        {
            r.push(t.levels[i].accesses[j]);
            j = j + 1;
        }
        i = i + 1;
    }
    r
}

} // verus!
