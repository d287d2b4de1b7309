//! The simulation checks: rules over what the entry point's
//! `simulateValidation` returned.

use crate::types::{Address, U256};
use vstd::prelude::*;

verus! {

/// What `simulateValidation` reports for one user operation.
#[derive(Clone, Copy, Debug, PartialEq, Eq, Structural)]
pub struct ReturnInfo {
    /// Gas consumed by the verification phase.
    pub pre_op_gas: U256,
    /// The ETH the operation may consume.
    pub prefund: U256,
    /// Whether the entry point flagged the signature invalid.
    pub sig_failed: bool,
    /// Seconds-since-epoch bounds of validity; zero when absent.
    pub valid_after: u64,
    pub valid_until: u64,
}

/// The entry point's validation result, with or without an aggregator.
#[derive(Clone, Copy, Debug, PartialEq, Eq, Structural)]
pub enum SimulateValidationResult {
    ValidationResult { return_info: ReturnInfo },
    ValidationResultWithAggregation { return_info: ReturnInfo, aggregator: Address },
}

pub open spec fn return_info_of(r: SimulateValidationResult) -> ReturnInfo {
    match r {
        SimulateValidationResult::ValidationResult { return_info } => return_info,
        SimulateValidationResult::ValidationResultWithAggregation { return_info, .. } => return_info,
    }
}

/// Reads the pre-fund out of a validation result.
pub fn extract_pre_fund(r: &SimulateValidationResult) -> (p: U256)
    ensures
        p == return_info_of(*r).prefund,
{
    match r {
        SimulateValidationResult::ValidationResult { return_info } => return_info.prefund,
        SimulateValidationResult::ValidationResultWithAggregation { return_info, .. } => {
            return_info.prefund
        },
    }
}

/// Reads the verification-phase gas out of a validation result.
pub fn extract_verification_gas_limit(r: &SimulateValidationResult) -> (g: U256)
    ensures
        g == return_info_of(*r).pre_op_gas,
{
    match r {
        SimulateValidationResult::ValidationResult { return_info } => return_info.pre_op_gas,
        SimulateValidationResult::ValidationResultWithAggregation { return_info, .. } => {
            return_info.pre_op_gas
        },
    }
}

#[derive(Clone, Debug)]
pub enum SimulationCheckError {
    /// The entry point reported a failed operation, with its reason.
    Validation { message: String },
    /// The signature was flagged invalid.
    Signature {},
    /// The operation expires too soon.
    Timestamp {},
    /// A forbidden opcode ran during validation, attributed to an entity.
    Opcode { entity: Address, opcode: crate::simulation_trace::Opcode },
    /// A storage slot was touched that the entity may not touch.
    StorageAccess { entity: Address, slot: U256 },
    /// A call that validation must not make.
    CallStack {},
    /// The code of a touched contract changed since the stored capture.
    CodeHashChanged {},
    /// A referenced contract carries no code.
    ExternalContract { address: Address },
    /// A validation frame ran out of gas.
    OutOfGas {},
    /// The chain client failed in some other way.
    Unknown { message: String },
}

/// Rule: the signature must not be flagged invalid.
pub open spec fn spec_check_signature(res: SimulateValidationResult) -> Result<
    (),
    SimulationCheckError,
> {
    if return_info_of(res).sig_failed {
        Err(SimulationCheckError::Signature {})
    } else {
        Ok(())
    }
}

pub fn check_signature(res: &SimulateValidationResult) -> (r: Result<(), SimulationCheckError>)
    ensures
        r == spec_check_signature(*res),
{
    let info = match res {
        SimulateValidationResult::ValidationResult { return_info } => return_info,
        SimulateValidationResult::ValidationResultWithAggregation { return_info, .. } => {
            return_info
        },
    };
    if info.sig_failed {
        Err(SimulationCheckError::Signature {})
    } else {
        Ok(())
    }
}

/// What the timestamp rule returns on success: the `valid_after` bound when
/// the result carries one.
pub open spec fn spec_valid_after(res: SimulateValidationResult) -> Option<u64> {
    if return_info_of(res).valid_after > 0 {
        Some(return_info_of(res).valid_after)
    } else {
        None
    }
}

/// Rule: when the result carries `valid_until`, the operation must stay
/// valid for at least the validity window past `now`.
pub open spec fn spec_check_timestamp(res: SimulateValidationResult, now: u64) -> Result<
    Option<u64>,
    SimulationCheckError,
> {
    let info = return_info_of(res);
    if info.valid_until != 0 && now + crate::MIN_VALIDITY_WINDOW >= info.valid_until {
        Err(SimulationCheckError::Timestamp {})
    } else {
        Ok(spec_valid_after(res))
    }
}

pub fn check_timestamp(res: &SimulateValidationResult, now: u64) -> (r: Result<
    Option<u64>,
    SimulationCheckError,
>)
    ensures
        r == spec_check_timestamp(*res, now),
{
    let info = match res {
        SimulateValidationResult::ValidationResult { return_info } => return_info,
        SimulateValidationResult::ValidationResultWithAggregation { return_info, .. } => {
            return_info
        },
    };
    if info.valid_until != 0 && (now as u128) + (crate::MIN_VALIDITY_WINDOW as u128) >= (
    info.valid_until as u128) {
        return Err(SimulationCheckError::Timestamp {});
    }
    if info.valid_after > 0 {
        Ok(Some(info.valid_after))
    } else {
        Ok(None)
    }
}

/// The simulation pipeline: signature first, then the timestamp rule; the
/// first failure wins, and success carries `valid_after`.
pub open spec fn spec_simulation_pipeline(res: SimulateValidationResult, now: u64) -> Result<
    Option<u64>,
    SimulationCheckError,
> {
    if return_info_of(res).sig_failed {
        Err(SimulationCheckError::Signature {})
    } else {
        spec_check_timestamp(res, now)
    }
}

/// Runs the two simulation rules in order.
pub fn check_simulation(res: &SimulateValidationResult, now: u64) -> (r: Result<
    Option<u64>,
    SimulationCheckError,
>)
    ensures
        r == spec_simulation_pipeline(*res, now),
{
    match check_signature(res) {
        Ok(()) => check_timestamp(res, now),
        Err(e) => Err(e),
    }
}

} // verus!
