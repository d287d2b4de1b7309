//! The sanity checks: the seven pre-simulation rules, run in declaration
//! order with the first failure short-circuiting the pipeline.
//!
//! Each check is a pure function of the operation, the pool, the reputation
//! book and a context of plain chain-derived values; none of them mutates
//! anything.

use crate::gas::{calculate_overhead, lemma_overhead_bound, spec_overhead};
use crate::mempool::{count_by_sender, Mempool};
use crate::reputation::{Reputation, ReputationStatus, StakeInfo};
use crate::types::{Address, U256};
use crate::user_operation::{factory_of, paymaster_of, UserOperation, UserOperationView};
use vstd::prelude::*;

verus! {

#[derive(Clone, Copy, Debug, PartialEq, Eq, Structural)]
pub enum SanityCheckError {
    /// The sender must either carry code or bring `init_code`, never both
    /// and never neither.
    SenderVerification { sender: Address },
    /// `verification_gas_limit` over the accepted maximum, or
    /// `pre_verification_gas` below the computed overhead.
    VerificationGas {},
    /// `call_gas_limit` below the call stipend.
    CallGas {},
    /// Fee fields out of order, priority fee below the accepted minimum, or
    /// max fee below the current base fee.
    MaxFee {},
    /// Paymaster without code, with too small a deposit, or banned.
    Paymaster {},
    /// An entity with status `Banned`.
    EntityBanned { address: Address },
    /// An unstaked entity already at its mempool cap.
    SenderOverLimit { address: Address },
    /// The chain client failed while the context was gathered.
    MiddlewareError {},
}

/// Chain-derived plain values the sanity checks read. The caller gathers
/// them; the checks are pure functions of this record.
pub struct SanityHelper {
    /// Size of the code deployed at the sender address.
    pub sender_code_size: u64,
    /// Size of the code deployed at the paymaster address, when one is named.
    pub paymaster_code_size: u64,
    /// The paymaster's deposit held by the entry point.
    pub paymaster_deposit: U256,
    /// The ETH the operation may consume, which the deposit must exceed.
    pub pre_fund: U256,
    /// The current base fee.
    pub base_fee: U256,
    /// Stake of the sender, factory and paymaster, in that order.
    pub sender_stake: StakeInfo,
    pub factory_stake: StakeInfo,
    pub paymaster_stake: StakeInfo,
}

impl SanityHelper {
    pub open spec fn stake_of_role(self, role: int) -> StakeInfo {
        if role == 0 {
            self.sender_stake
        } else if role == 1 {
            self.factory_stake
        } else {
            self.paymaster_stake
        }
    }
}

/// Rule: the sender either has code on chain or brings `init_code`, and
/// not both at once.
pub open spec fn spec_check_sender(v: UserOperationView, h: SanityHelper) -> Result<
    (),
    SanityCheckError,
> {
    if (h.sender_code_size > 0 && v.init_code.len() == 0) || (h.sender_code_size == 0
        && v.init_code.len() > 0) {
        Ok(())
    } else {
        Err(SanityCheckError::SenderVerification { sender: v.sender })
    }
}

pub fn check_sender(uo: &UserOperation, h: &SanityHelper) -> (r: Result<(), SanityCheckError>)
    ensures
        r == spec_check_sender(uo@, *h),
{
    let has_code: bool = h.sender_code_size > 0;
    let has_init: bool = uo.init_code.len() > 0;
    if (has_code && !has_init) || (!has_code && has_init) {
        Ok(())
    } else {
        Err(SanityCheckError::SenderVerification { sender: uo.sender })
    }
}

/// Rule: `verification_gas_limit` within the accepted maximum and
/// `pre_verification_gas` covering the computed overhead.
pub open spec fn spec_check_verification_gas(
    v: UserOperationView,
    max_verification_gas: U256,
) -> Result<(), SanityCheckError> {
    if v.verification_gas_limit.val() > max_verification_gas.val() {
        Err(SanityCheckError::VerificationGas {})
    } else if v.pre_verification_gas.val() < spec_overhead(v.call_data) {
        Err(SanityCheckError::VerificationGas {})
    } else {
        Ok(())
    }
}

pub fn check_verification_gas(uo: &UserOperation, max_verification_gas: &U256) -> (r: Result<
    (),
    SanityCheckError,
>)
    ensures
        r == spec_check_verification_gas(uo@, *max_verification_gas),
{
    if !uo.verification_gas_limit.le(max_verification_gas) {
        return Err(SanityCheckError::VerificationGas {});
    }
    let overhead: u128 = calculate_overhead(uo);
    let overhead_u256 = U256::from_u128(overhead);
    if uo.pre_verification_gas.lt(&overhead_u256) {
        return Err(SanityCheckError::VerificationGas {});
    }
    Ok(())
}

/// Rule: `call_gas_limit` covers the call stipend.
pub open spec fn spec_check_call_gas(v: UserOperationView) -> Result<(), SanityCheckError> {
    if v.call_gas_limit.val() >= crate::GAS_CALL_STIPEND as int {
        Ok(())
    } else {
        Err(SanityCheckError::CallGas {})
    }
}

pub fn check_call_gas(uo: &UserOperation) -> (r: Result<(), SanityCheckError>)
    ensures
        r == spec_check_call_gas(uo@),
{
    let stipend = U256::from_u128(crate::GAS_CALL_STIPEND as u128);
    if stipend.le(&uo.call_gas_limit) {
        Ok(())
    } else {
        Err(SanityCheckError::CallGas {})
    }
}

/// Rule: `max_fee >= max_priority_fee >= accepted minimum`, and the max fee
/// covers the current base fee.
pub open spec fn spec_check_max_fee(
    v: UserOperationView,
    min_priority_fee_per_gas: U256,
    base_fee: U256,
) -> Result<(), SanityCheckError> {
    if v.max_fee_per_gas.val() < v.max_priority_fee_per_gas.val() {
        Err(SanityCheckError::MaxFee {})
    } else if v.max_priority_fee_per_gas.val() < min_priority_fee_per_gas.val() {
        Err(SanityCheckError::MaxFee {})
    } else if v.max_fee_per_gas.val() < base_fee.val() {
        Err(SanityCheckError::MaxFee {})
    } else {
        Ok(())
    }
}

pub fn check_max_fee(uo: &UserOperation, min_priority_fee_per_gas: &U256, base_fee: &U256) -> (r:
    Result<(), SanityCheckError>)
    ensures
        r == spec_check_max_fee(uo@, *min_priority_fee_per_gas, *base_fee),
{
    if uo.max_fee_per_gas.lt(&uo.max_priority_fee_per_gas) {
        return Err(SanityCheckError::MaxFee {});
    }
    if uo.max_priority_fee_per_gas.lt(min_priority_fee_per_gas) {
        return Err(SanityCheckError::MaxFee {});
    }
    if uo.max_fee_per_gas.lt(base_fee) {
        return Err(SanityCheckError::MaxFee {});
    }
    Ok(())
}

/// Rule: a named paymaster has code, a deposit exceeding the pre-fund, and
/// is not banned.
pub open spec fn spec_check_paymaster(
    v: UserOperationView,
    h: SanityHelper,
    rep: Reputation,
) -> Result<(), SanityCheckError> {
    match paymaster_of(v) {
        None => Ok(()),
        Some(pm) => if h.paymaster_code_size == 0 {
            Err(SanityCheckError::Paymaster {})
        } else if h.paymaster_deposit.val() <= h.pre_fund.val() {
            Err(SanityCheckError::Paymaster {})
        } else if rep.spec_status_of(pm) == ReputationStatus::Banned {
            Err(SanityCheckError::Paymaster {})
        } else {
            Ok(())
        },
    }
}

pub fn check_paymaster(uo: &UserOperation, h: &SanityHelper, rep: &Reputation) -> (r: Result<
    (),
    SanityCheckError,
>)
    requires
        rep.wf(),
    ensures
        r == spec_check_paymaster(uo@, *h, *rep),
{
    match uo.get_paymaster() {
        None => Ok(()),
        Some(pm) => {
            if h.paymaster_code_size == 0 {
                return Err(SanityCheckError::Paymaster {});
            }
            if !h.pre_fund.lt(&h.paymaster_deposit) {
                return Err(SanityCheckError::Paymaster {});
            }
            if rep.status_of(&pm) == ReputationStatus::Banned {
                return Err(SanityCheckError::Paymaster {});
            }
            Ok(())
        },
    }
}

/// Rule: none of the named entities is banned, sender first, then factory,
/// then paymaster.
pub open spec fn spec_check_entities(v: UserOperationView, rep: Reputation) -> Result<
    (),
    SanityCheckError,
> {
    if rep.spec_status_of(v.sender) == ReputationStatus::Banned {
        Err(SanityCheckError::EntityBanned { address: v.sender })
    } else if factory_of(v) is Some && rep.spec_status_of(factory_of(v)->Some_0)
        == ReputationStatus::Banned {
        Err(SanityCheckError::EntityBanned { address: factory_of(v)->Some_0 })
    } else if paymaster_of(v) is Some && rep.spec_status_of(paymaster_of(v)->Some_0)
        == ReputationStatus::Banned {
        Err(SanityCheckError::EntityBanned { address: paymaster_of(v)->Some_0 })
    } else {
        Ok(())
    }
}

pub fn check_entities(uo: &UserOperation, rep: &Reputation) -> (r: Result<(), SanityCheckError>)
    requires
        rep.wf(),
    ensures
        r == spec_check_entities(uo@, *rep),
{
    if rep.status_of(&uo.sender) == ReputationStatus::Banned {
        return Err(SanityCheckError::EntityBanned { address: uo.sender });
    }
    match uo.get_factory() {
        Some(f) => {
            if rep.status_of(&f) == ReputationStatus::Banned {
                return Err(SanityCheckError::EntityBanned { address: f });
            }
        },
        None => {},
    }
    match uo.get_paymaster() {
        Some(pm) => {
            if rep.status_of(&pm) == ReputationStatus::Banned {
                return Err(SanityCheckError::EntityBanned { address: pm });
            }
        },
        None => {},
    }
    Ok(())
}

/// The pool cap an unstaked entity is held to, by its status.
pub open spec fn spec_entity_cap(status: ReputationStatus) -> int {
    match status {
        ReputationStatus::OK => crate::MAX_UOS_PER_SENDER as int,
        ReputationStatus::Throttled => crate::THROTTLED_ENTITY_MEMPOOL_COUNT as int,
        ReputationStatus::Banned => 0,
    }
}

/// Rule: an unstaked entity may hold only as many operations as its status
/// allows; a staked entity is not capped here.
pub open spec fn spec_check_unstaked_entities(
    v: UserOperationView,
    pool: Mempool,
    rep: Reputation,
    h: SanityHelper,
) -> Result<(), SanityCheckError> {
    if !rep.spec_is_staked(h.sender_stake) && count_by_sender(pool.view_entries(), v.sender)
        >= spec_entity_cap(rep.spec_status_of(v.sender)) {
        Err(SanityCheckError::SenderOverLimit { address: v.sender })
    } else if factory_of(v) is Some && !rep.spec_is_staked(h.factory_stake) && count_by_sender(
        pool.view_entries(),
        factory_of(v)->Some_0,
    ) >= spec_entity_cap(rep.spec_status_of(factory_of(v)->Some_0)) {
        Err(SanityCheckError::SenderOverLimit { address: factory_of(v)->Some_0 })
    } else if paymaster_of(v) is Some && !rep.spec_is_staked(h.paymaster_stake) && count_by_sender(
        pool.view_entries(),
        paymaster_of(v)->Some_0,
    ) >= spec_entity_cap(rep.spec_status_of(paymaster_of(v)->Some_0)) {
        Err(SanityCheckError::SenderOverLimit { address: paymaster_of(v)->Some_0 })
    } else {
        Ok(())
    }
}

pub fn check_unstaked_entities(
    uo: &UserOperation,
    pool: &Mempool,
    rep: &Reputation,
    h: &SanityHelper,
) -> (r: Result<(), SanityCheckError>)
    requires
        rep.wf(),
    ensures
        r == spec_check_unstaked_entities(uo@, *pool, *rep, *h),
{
    let cap_sender: usize = entity_cap(rep.status_of(&uo.sender));
    if rep.check_stake(&h.sender_stake).is_err() && pool.get_number_by_sender(&uo.sender)
        >= cap_sender {
        return Err(SanityCheckError::SenderOverLimit { address: uo.sender });
    }
    match uo.get_factory() {
        Some(f) => {
            let cap: usize = entity_cap(rep.status_of(&f));
            if rep.check_stake(&h.factory_stake).is_err() && pool.get_number_by_sender(&f) >= cap {
                return Err(SanityCheckError::SenderOverLimit { address: f });
            }
        },
        None => {},
    }
    match uo.get_paymaster() {
        Some(pm) => {
            let cap: usize = entity_cap(rep.status_of(&pm));
            if rep.check_stake(&h.paymaster_stake).is_err() && pool.get_number_by_sender(&pm)
                >= cap {
                return Err(SanityCheckError::SenderOverLimit { address: pm });
            }
        },
        None => {},
    }
    Ok(())
}

fn entity_cap(status: ReputationStatus) -> (r: usize)
    ensures
        r == spec_entity_cap(status),
{
    match status {
        ReputationStatus::OK => crate::MAX_UOS_PER_SENDER,
        ReputationStatus::Throttled => crate::THROTTLED_ENTITY_MEMPOOL_COUNT,
        ReputationStatus::Banned => 0,
    }
}

/// The whole sanity pipeline, in declaration order: sender, verification
/// gas, call gas, max fee, paymaster, entities, unstaked entities. The first
/// failing rule's error is the pipeline's.
pub open spec fn spec_sanity_pipeline(
    v: UserOperationView,
    pool: Mempool,
    rep: Reputation,
    h: SanityHelper,
    max_verification_gas: U256,
    min_priority_fee_per_gas: U256,
) -> Result<(), SanityCheckError> {
    if spec_check_sender(v, h) is Err {
        spec_check_sender(v, h)
    } else if spec_check_verification_gas(v, max_verification_gas) is Err {
        spec_check_verification_gas(v, max_verification_gas)
    } else if spec_check_call_gas(v) is Err {
        spec_check_call_gas(v)
    } else if spec_check_max_fee(v, min_priority_fee_per_gas, h.base_fee) is Err {
        spec_check_max_fee(v, min_priority_fee_per_gas, h.base_fee)
    } else if spec_check_paymaster(v, h, rep) is Err {
        spec_check_paymaster(v, h, rep)
    } else if spec_check_entities(v, rep) is Err {
        spec_check_entities(v, rep)
    } else if spec_check_unstaked_entities(v, pool, rep, h) is Err {
        spec_check_unstaked_entities(v, pool, rep, h)
    } else {
        Ok(())
    }
}

/// Runs the seven sanity rules in order, stopping at the first failure.
pub fn check_sanity(
    uo: &UserOperation,
    pool: &Mempool,
    rep: &Reputation,
    h: &SanityHelper,
    max_verification_gas: &U256,
    min_priority_fee_per_gas: &U256,
) -> (r: Result<(), SanityCheckError>)
    requires
        rep.wf(),
    ensures
        r == spec_sanity_pipeline(uo@, *pool, *rep, *h, *max_verification_gas, *min_priority_fee_per_gas),
{
    check_sender(uo, h)?;
    check_verification_gas(uo, max_verification_gas)?;
    check_call_gas(uo)?;
    check_max_fee(uo, min_priority_fee_per_gas, &h.base_fee)?;
    check_paymaster(uo, h, rep)?;
    check_entities(uo, rep)?;
    check_unstaked_entities(uo, pool, rep, h)?;
    Ok(())
}

} // verus!
