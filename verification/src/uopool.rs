//! The admission coordinator: the public `add` / `remove` / `get` surface
//! over one (mempool, reputation, validator) trio per supported entry point.

use crate::gas::{calculate_overhead, spec_overhead};
use crate::hashing::{hash256_of_seq, mempool_id, mempool_id_seq};
use crate::mempool::{
    count_by_sender, entry_by_sender_nonce, has_hash, has_sender_nonce, replacement_ok, sn_index,
    Mempool, MempoolEntry, MempoolEntryView, MempoolError,
};
use crate::reputation::{counters_of, Reputation, ReputationEntry, unique_addrs};
use crate::simulation::return_info_of;
use crate::types::{Address, CodeHash, MempoolId, U256, UserOperationHash};
use crate::user_operation::{factory_of, paymaster_of, uo_hash_value, UserOperation, UserOperationView};
use crate::validate::{
    new_canonical, sim_result_of, spec_validation_err, spec_validation_passes,
    StandardUserOperationValidator, UserOperationValidationOutcome, ValidationError,
    ValidationInput, ValidatorModeSet,
};
use vstd::prelude::*;

verus! {

/// One entry point's pool: its id, its stores and its validator.
pub struct UoPool {
    pub id: MempoolId,
    pub entry_point: Address,
    pub mempool: Mempool,
    pub reputation: Reputation,
    pub validator: StandardUserOperationValidator,
}

#[derive(Debug)]
pub enum UoPoolError {
    /// The entry point is not served here.
    InvalidEntryPoint,
    Validation(ValidationError),
    Mempool(MempoolError),
}

/// The gas figures `estimate_user_operation_gas` reports.
#[derive(Clone, Copy, Debug, PartialEq, Eq, Structural)]
pub struct UserOperationGasEstimation {
    pub pre_verification_gas: U256,
    pub verification_gas_limit: U256,
    pub call_gas_limit: U256,
}

pub open spec fn has_ep(pools: Seq<UoPool>, ep: Address) -> bool {
    exists|i: int| 0 <= i < pools.len() && pools[i].entry_point == ep
}

pub open spec fn ep_index(pools: Seq<UoPool>, ep: Address) -> int {
    choose|i: int| 0 <= i < pools.len() && pools[i].entry_point == ep
}

/// The number of operations a user operation counts for an address: one per
/// entity role it fills with that address.
pub open spec fn entity_bump(v: UserOperationView, a: Address) -> int {
    (if v.sender == a {
        1int
    } else {
        0int
    }) + (if factory_of(v) == Some(a) {
        1int
    } else {
        0int
    }) + (if paymaster_of(v) == Some(a) {
        1int
    } else {
        0int
    })
}

/// The service over every supported entry point.
pub struct UoPoolService {
    pub pools: Vec<UoPool>,
    pub chain_id: u64,
    pub max_verification_gas: U256,
    pub min_priority_fee_per_gas: U256,
}

impl UoPoolService {
    /// Each pool is well-formed, belongs to this chain, stores hashes
    /// consistently with its entry point, and entry points are distinct.
    pub open spec fn wf(self) -> bool {
        &&& forall|i: int, j: int|
            0 <= i < j < self.pools@.len() ==> (#[trigger] self.pools@[i]).entry_point != (
            #[trigger] self.pools@[j]).entry_point
        &&& forall|i: int|
            0 <= i < self.pools@.len() ==> (#[trigger] self.pools@[i]).mempool.wf()
                && self.pools@[i].reputation.wf() && self.pools@[i].validator.entry_point
                == self.pools@[i].entry_point && self.pools@[i].validator.chain_id == self.chain_id
                && self.pools@[i].validator.trace_checks
                && self.pools@[i].validator.max_verification_gas == self.max_verification_gas
                && self.pools@[i].validator.min_priority_fee_per_gas
                == self.min_priority_fee_per_gas && self.pools@[i].id == hash256_of_seq(
                mempool_id_seq(self.pools@[i].entry_point, self.chain_id),
            ) && hash_consistent(self.pools@[i].mempool, self.pools@[i].entry_point, self.chain_id)
    }

    pub fn new(
        entry_points: Vec<Address>,
        chain_id: u64,
        max_verification_gas: U256,
        min_priority_fee_per_gas: U256,
        min_stake: U256,
        min_unstake_delay: U256,
    ) -> (r: UoPoolService)
        requires
            forall|i: int, j: int|
                0 <= i < j < entry_points@.len() ==> entry_points@[i] != entry_points@[j],
        ensures
            r.wf(),
            r.chain_id == chain_id,
            r.max_verification_gas == max_verification_gas,
            r.min_priority_fee_per_gas == min_priority_fee_per_gas,
            r.pools@.len() == entry_points@.len(),
            forall|i: int|
                0 <= i < entry_points@.len() ==> (#[trigger] r.pools@[i]).entry_point
                    == entry_points@[i] && r.pools@[i].mempool.view_entries().len() == 0
                    && r.pools@[i].reputation.entries@.len() == 0,
    {
        let n: usize = entry_points.len();
        let mut pools: Vec<UoPool> = Vec::new();
        let mut i: usize = 0;
        while i < n
            invariant
                i <= n,
                n == entry_points@.len(),
                pools@.len() == i,
                forall|a: int, b: int|
                    0 <= a < b < entry_points@.len() ==> entry_points@[a] != entry_points@[b],
                forall|k: int|
                    0 <= k < i ==> (#[trigger] pools@[k]).entry_point == entry_points@[k]
                        && pools@[k].mempool.wf() && pools@[k].reputation.wf()
                        && pools@[k].validator.entry_point == entry_points@[k]
                        && pools@[k].validator.chain_id == chain_id
                        && pools@[k].validator.trace_checks
                        && pools@[k].validator.max_verification_gas == max_verification_gas
                        && pools@[k].validator.min_priority_fee_per_gas == min_priority_fee_per_gas
                        && pools@[k].id == hash256_of_seq(
                        mempool_id_seq(entry_points@[k], chain_id),
                    ) && pools@[k].mempool.view_entries().len() == 0
                        && pools@[k].reputation.entries@.len() == 0,
            decreases n - i,
        {
            let ep: Address = entry_points[i];
            let id = mempool_id(&ep, chain_id);
            let pool = UoPool {
                id,
                entry_point: ep,
                mempool: Mempool::new(crate::MAX_UOS_PER_SENDER),
                reputation: Reputation::new(
                    crate::MIN_INCLUSION_RATE_DENOMINATOR,
                    crate::THROTTLING_SLACK,
                    crate::BAN_SLACK,
                    min_stake,
                    min_unstake_delay,
                ),
                validator: new_canonical(ep, chain_id, max_verification_gas, min_priority_fee_per_gas),
            };
            pools.push(pool);
            i = i + 1;
        }
        UoPoolService { pools, chain_id, max_verification_gas, min_priority_fee_per_gas }
    }

    fn find_pool(&self, ep: &Address) -> (r: Option<usize>)
        ensures
            match r {
                Some(i) => i < self.pools@.len() && self.pools@[i as int].entry_point == *ep,
                None => !has_ep(self.pools@, *ep),
            },
    {
        let n: usize = self.pools.len();
        let mut i: usize = 0;
        while i < n
            invariant
                i <= n,
                n == self.pools@.len(),
                forall|j: int| 0 <= j < i ==> (#[trigger] self.pools@[j]).entry_point != *ep,
            decreases n - i,
        {
            if self.pools[i].entry_point == *ep {
                return Some(i);
            }
            i = i + 1;
        }
        None
    }

    /// The chain this service runs for.
    pub fn get_chain_id(&self) -> (r: u64)
        ensures
            r == self.chain_id,
    {
        self.chain_id
    }

    /// The entry points this service serves, in order.
    pub fn get_supported_entry_points(&self) -> (r: Vec<Address>)
        ensures
            r@.len() == self.pools@.len(),
            forall|i: int| 0 <= i < r@.len() ==> r@[i] == (#[trigger] self.pools@[i]).entry_point,
    {
        let n: usize = self.pools.len();
        let mut r: Vec<Address> = Vec::new();
        let mut i: usize = 0;
        while i < n
            invariant
                i <= n,
                n == self.pools@.len(),
                r@.len() == i,
                forall|j: int| 0 <= j < i ==> r@[j] == (#[trigger] self.pools@[j]).entry_point,
            decreases n - i,
        {
            r.push(self.pools[i].entry_point);
            i = i + 1;
        }
        r
    }
}


/// With distinct entry points, any matching index is the chosen one.
pub proof fn lemma_ep_index_is(pools: Seq<UoPool>, ep: Address, i: int)
    requires
        forall|x: int, y: int|
            0 <= x < y < pools.len() ==> (#[trigger] pools[x]).entry_point != (
            #[trigger] pools[y]).entry_point,
        0 <= i < pools.len(),
        pools[i].entry_point == ep,
    ensures
        has_ep(pools, ep),
        ep_index(pools, ep) == i,
{
    assert(has_ep(pools, ep));
    let j = ep_index(pools, ep);
    if i != j {
        if i < j {
            assert(pools[i].entry_point != pools[j].entry_point);
        } else {
            assert(pools[j].entry_point != pools[i].entry_point);
        }
    }
}

impl UoPoolService {
    /// Admits a user operation under one entry point: validates it with the
    /// canonical mode set, inserts it (replacing a same-(sender, nonce)
    /// predecessor when the fee bump allows), and counts each participating
    /// entity as seen.
    pub fn add(&mut self, uo: &UserOperation, entry_point: &Address, input: ValidationInput) -> (r:
        Result<UserOperationHash, UoPoolError>)
        requires
            old(self).wf(),
        ensures
            final(self).wf(),
            final(self).chain_id == old(self).chain_id,
            final(self).max_verification_gas == old(self).max_verification_gas,
            final(self).min_priority_fee_per_gas == old(self).min_priority_fee_per_gas,
            final(self).pools@.len() == old(self).pools@.len(),
            forall|j: int|
                0 <= j < old(self).pools@.len() && j != ep_index(old(self).pools@, *entry_point)
                    ==> final(self).pools@[j] == old(self).pools@[j],
            match r {
                Ok(h) => has_ep(old(self).pools@, *entry_point) && admitted(
                    old(self).pools@[ep_index(old(self).pools@, *entry_point)],
                    final(self).pools@[ep_index(old(self).pools@, *entry_point)],
                    uo@,
                    h,
                    input,
                    old(self).chain_id,
                ),
                Err(UoPoolError::InvalidEntryPoint) => !has_ep(old(self).pools@, *entry_point)
                    && final(self).pools@ == old(self).pools@,
                Err(UoPoolError::Validation(e)) => has_ep(old(self).pools@, *entry_point) && final(self).pools@ == old(self).pools@ && spec_validation_err(
                    old(self).pools@[ep_index(old(self).pools@, *entry_point)].validator,
                    uo@,
                    old(self).pools@[ep_index(old(self).pools@, *entry_point)].mempool,
                    old(self).pools@[ep_index(old(self).pools@, *entry_point)].reputation,
                    ValidatorModeSet { sanity: true, simulation: true, simulation_trace: true },
                    input,
                    e,
                ),
                Err(UoPoolError::Mempool(e)) => has_ep(old(self).pools@, *entry_point)
                    && pool_unchanged(
                    old(self).pools@[ep_index(old(self).pools@, *entry_point)],
                    final(self).pools@[ep_index(old(self).pools@, *entry_point)],
                ) && rejected_by_pool(
                    old(self).pools@[ep_index(old(self).pools@, *entry_point)],
                    uo@,
                    input,
                    old(self).chain_id,
                    e,
                ),
            },
    {
        let ghost old_pools = self.pools@;
        let i: usize = match self.find_pool(entry_point) {
            Some(i) => i,
            None => {
                return Err(UoPoolError::InvalidEntryPoint);
            },
        };
        proof {
            lemma_ep_index_is(old_pools, *entry_point, i as int);
        }
        let chain_id: u64 = self.chain_id;
        let mut pool: UoPool = self.pools.remove(i);
        let ghost pool0 = pool;
        let staked: bool = pool.reputation.check_stake(&input.sanity_ctx.sender_stake).is_ok();
        let mode = ValidatorModeSet::all();
        let outcome: UserOperationValidationOutcome = match pool.validator.validate_user_operation(
            uo,
            &pool.mempool,
            &pool.reputation,
            mode,
            input,
        ) {
            Ok(o) => o,
            Err(e) => {
                let ghost kept = pool;
                self.pools.insert(i, pool);
                proof {
                    assert(kept == old_pools[i as int]);
                    old_pools.remove_ensures(i as int);
                    old_pools.remove(i as int).insert_ensures(i as int, kept);
                    assert forall|j: int| 0 <= j < old_pools.len() implies self.pools@[j]
                        == old_pools[j] by {
                        if j < i {
                            assert(self.pools@[j] == old_pools.remove(i as int)[j]);
                        } else if j == i {
                            assert(self.pools@[j] == kept);
                        } else {
                            assert(self.pools@[j] == old_pools.remove(i as int)[j - 1]);
                        }
                    }
                    assert(self.pools@ =~= old_pools);
                }
                return Err(UoPoolError::Validation(e));
            },
        };
        let h: UserOperationHash = uo.hash(&pool.entry_point, chain_id);
        let code_hashes: Vec<CodeHash> = match outcome.code_hashes {
            Some(v) => v,
            None => Vec::new(),
        };
        let entry = MempoolEntry {
            uo: uo.clone(),
            hash: h,
            pre_fund: outcome.pre_fund,
            verification_gas_limit: outcome.verification_gas_limit,
            code_hashes,
        };
        let ghost entry_v = entry@;
        let ghost old_view = pool.mempool.view_entries();
        match pool.mempool.add(entry, staked) {
            Ok(_admitted_hash) => {},
            Err(e) => {
                let ghost kept = pool;
                self.pools.insert(i, pool);
                proof {
                    old_pools.remove_ensures(i as int);
                    old_pools.remove(i as int).insert_ensures(i as int, kept);
                    assert forall|j: int| 0 <= j < old_pools.len() && j != i implies self.pools@[j]
                        == old_pools[j] by {
                        if j < i {
                            assert(self.pools@[j] == old_pools.remove(i as int)[j]);
                        } else {
                            assert(self.pools@[j] == old_pools.remove(i as int)[j - 1]);
                        }
                    }
                    assert(self.pools@[i as int] == kept);
                    assert(self.pools@.len() == old_pools.len());
                    assert(pool_unchanged(old_pools[i as int], kept));
                }
                return Err(UoPoolError::Mempool(e));
            },
        }
        proof {
            // the new pool still stores hashes consistently
            let newv = pool.mempool.view_entries();
            assert forall|k: int| 0 <= k < newv.len() implies (#[trigger] newv[k]).hash
                == uo_hash_value(newv[k].uo, pool.entry_point, chain_id) by {
                if has_sender_nonce(old_view, uo@.sender, uo@.nonce) {
                    let si = sn_index(old_view, uo@.sender, uo@.nonce);
                    old_view.remove_ensures(si);
                    if k < newv.len() - 1 {
                        assert(newv[k] == old_view.remove(si)[k]);
                    } else {
                        assert(newv[k] == entry_v);
                    }
                } else {
                    if k < newv.len() - 1 {
                        assert(newv[k] == old_view[k]);
                    } else {
                        assert(newv[k] == entry_v);
                    }
                }
            }
        }
        let ghost rep0 = pool.reputation;
        pool.reputation.increment_seen(&uo.sender);
        let ghost rep1 = pool.reputation;
        let factory = uo.get_factory();
        match factory {
            Some(f) => {
                pool.reputation.increment_seen(&f);
            },
            None => {},
        }
        let ghost rep2 = pool.reputation;
        let paymaster = uo.get_paymaster();
        match paymaster {
            Some(pm) => {
                pool.reputation.increment_seen(&pm);
            },
            None => {},
        }
        proof {
            let v = uo@;
            assert forall|a: Address| #![all_triggers] true implies counters_of(
                pool.reputation.entries@,
                a,
            ).0 == (if counters_of(rep0.entries@, a).0 + entity_bump(v, a) <= u64::MAX {
                counters_of(rep0.entries@, a).0 + entity_bump(v, a)
            } else {
                u64::MAX as int
            }) && counters_of(pool.reputation.entries@, a).1 == counters_of(rep0.entries@, a).1 by {
                let c0 = rep0.spec_counters(a);
                let c1 = rep1.spec_counters(a);
                let c2 = rep2.spec_counters(a);
                let c3 = pool.reputation.spec_counters(a);
                assert(c0 == counters_of(rep0.entries@, a));
                assert(c3 == counters_of(pool.reputation.entries@, a));
                if a == v.sender {
                    assert(c1.0 == if c0.0 < u64::MAX { c0.0 + 1 } else { u64::MAX as int });
                } else {
                    assert(c1 == c0);
                }
                match factory_of(v) {
                    Some(f) => {
                        if a == f {
                            assert(c2.0 == if c1.0 < u64::MAX { c1.0 + 1 } else { u64::MAX as int });
                        } else {
                            assert(c2 == c1);
                        }
                    },
                    None => {
                        assert(c2 == c1);
                    },
                }
                match paymaster_of(v) {
                    Some(pm) => {
                        if a == pm {
                            assert(c3.0 == if c2.0 < u64::MAX { c2.0 + 1 } else { u64::MAX as int });
                        } else {
                            assert(c3 == c2);
                        }
                    },
                    None => {
                        assert(c3 == c2);
                    },
                }
            }
        }
        let ghost pool_final = pool;
        self.pools.insert(i, pool);
        proof {
            old_pools.remove_ensures(i as int);
            old_pools.remove(i as int).insert_ensures(i as int, pool_final);
            assert forall|j: int| 0 <= j < old_pools.len() implies self.pools@[j] == old_pools.update(
                i as int,
                pool_final,
            )[j] by {
                if j < i {
                    assert(self.pools@[j] == old_pools.remove(i as int)[j]);
                } else if j == i {
                    assert(self.pools@[j] == pool_final);
                } else {
                    assert(self.pools@[j] == old_pools.remove(i as int)[j - 1]);
                }
            }
            assert(self.pools@ =~= old_pools.update(i as int, pool_final));
        }
        Ok(h)
    }
}

/// What a successful admission did to the pool: the operation stands in the
/// mempool under its hash (replacing any same-(sender, nonce) predecessor
/// that cleared the fee bump), every participating entity was counted as
/// seen, and every enabled validation phase passed.
pub open spec fn admitted(
    before: UoPool,
    after: UoPool,
    v: UserOperationView,
    h: UserOperationHash,
    input: ValidationInput,
    chain_id: u64,
) -> bool {
    let entry = MempoolEntryView {
        uo: v,
        hash: h,
        pre_fund: return_info_of(sim_result_of(input.sim)->Ok_0).prefund,
        verification_gas_limit: return_info_of(sim_result_of(input.sim)->Ok_0).pre_op_gas,
        code_hashes: input.trace_code_hashes@,
    };
    &&& h == uo_hash_value(v, before.entry_point, chain_id)
    &&& spec_validation_passes(
        before.validator,
        v,
        before.mempool,
        before.reputation,
        ValidatorModeSet { sanity: true, simulation: true, simulation_trace: true },
        input,
    )
    &&& after.entry_point == before.entry_point
    &&& after.id == before.id
    &&& after.validator == before.validator
    &&& if has_sender_nonce(before.mempool.view_entries(), v.sender, v.nonce) {
        &&& replacement_ok(
            entry_by_sender_nonce(before.mempool.view_entries(), v.sender, v.nonce).uo,
            v,
        )
        &&& after.mempool.view_entries() == before.mempool.view_entries().remove(
            sn_index(before.mempool.view_entries(), v.sender, v.nonce),
        ).push(entry)
    } else {
        &&& after.mempool.view_entries() == before.mempool.view_entries().push(entry)
        &&& (!before.reputation.spec_is_staked(input.sanity_ctx.sender_stake) ==> count_by_sender(
            before.mempool.view_entries(),
            v.sender,
        ) < before.mempool.max_uos_per_sender)
    }
    &&& forall|a: Address| #![all_triggers]
        counters_of(after.reputation.entries@, a).0 == (if counters_of(
            before.reputation.entries@,
            a,
        ).0 + entity_bump(v, a) <= u64::MAX {
            counters_of(before.reputation.entries@, a).0 + entity_bump(v, a)
        } else {
            u64::MAX as int
        }) && counters_of(after.reputation.entries@, a).1 == counters_of(
            before.reputation.entries@,
            a,
        ).1
    &&& after.reputation.whitelist@ == before.reputation.whitelist@
    &&& after.reputation.blacklist@ == before.reputation.blacklist@
}

/// The pool's observable state is unchanged: same stores as values of the
/// model, same configuration.
pub open spec fn pool_unchanged(a: UoPool, b: UoPool) -> bool {
    &&& b.entry_point == a.entry_point
    &&& b.id == a.id
    &&& b.validator == a.validator
    &&& b.mempool.view_entries() == a.mempool.view_entries()
    &&& b.mempool.max_uos_per_sender == a.mempool.max_uos_per_sender
    &&& b.reputation == a.reputation
}

/// What a mempool rejection says: validation passed, nothing changed, and
/// the error names the rule that refused the entry.
pub open spec fn rejected_by_pool(
    pool: UoPool,
    v: UserOperationView,
    input: ValidationInput,
    chain_id: u64,
    e: MempoolError,
) -> bool {
    let s = pool.mempool.view_entries();
    &&& spec_validation_passes(
        pool.validator,
        v,
        pool.mempool,
        pool.reputation,
        ValidatorModeSet { sanity: true, simulation: true, simulation_trace: true },
        input,
    )
    &&& match e {
        MempoolError::ReplacementUnderpriced { .. } => has_sender_nonce(s, v.sender, v.nonce)
            && !replacement_ok(entry_by_sender_nonce(s, v.sender, v.nonce).uo, v),
        MempoolError::NonceConflict => has_hash(s, uo_hash_value(v, pool.entry_point, chain_id)),
        MempoolError::SenderOverLimit => !has_sender_nonce(s, v.sender, v.nonce)
            && !pool.reputation.spec_is_staked(input.sanity_ctx.sender_stake) && count_by_sender(
            s,
            v.sender,
        ) >= pool.mempool.max_uos_per_sender,
        MempoolError::NotFound => false,
    }
}


impl UoPoolService {
    /// Removes one stored operation from the pool of an entry point.
    pub fn remove(&mut self, hash: &UserOperationHash, entry_point: &Address) -> (r: Result<
        (),
        UoPoolError,
    >)
        requires
            old(self).wf(),
        ensures
            final(self).wf(),
            final(self).chain_id == old(self).chain_id,
            final(self).pools@.len() == old(self).pools@.len(),
            forall|j: int|
                0 <= j < old(self).pools@.len() && j != ep_index(old(self).pools@, *entry_point)
                    ==> final(self).pools@[j] == old(self).pools@[j],
            match r {
                Ok(()) => has_ep(old(self).pools@, *entry_point) && has_hash(
                    old(self).pools@[ep_index(old(self).pools@, *entry_point)].mempool.view_entries(),
                    *hash,
                ) && final(self).pools@[ep_index(old(self).pools@, *entry_point)].mempool.view_entries()
                    == old(self).pools@[ep_index(old(self).pools@, *entry_point)].mempool.view_entries().remove(
                    crate::mempool::hash_index(
                        old(self).pools@[ep_index(old(self).pools@, *entry_point)].mempool.view_entries(),
                        *hash,
                    ),
                ) && final(self).pools@[ep_index(old(self).pools@, *entry_point)].reputation == old(self).pools@[ep_index(old(self).pools@, *entry_point)].reputation,
                Err(UoPoolError::InvalidEntryPoint) => !has_ep(old(self).pools@, *entry_point)
                    && final(self).pools@ == old(self).pools@,
                Err(UoPoolError::Mempool(e)) => e == MempoolError::NotFound && has_ep(
                    old(self).pools@,
                    *entry_point,
                ) && !has_hash(
                    old(self).pools@[ep_index(old(self).pools@, *entry_point)].mempool.view_entries(),
                    *hash,
                ) && pool_unchanged(
                    old(self).pools@[ep_index(old(self).pools@, *entry_point)],
                    final(self).pools@[ep_index(old(self).pools@, *entry_point)],
                ),
                Err(_) => false,
            },
    {
        let ghost old_pools = self.pools@;
        let i: usize = match self.find_pool(entry_point) {
            Some(i) => i,
            None => {
                return Err(UoPoolError::InvalidEntryPoint);
            },
        };
        proof {
            lemma_ep_index_is(old_pools, *entry_point, i as int);
        }
        let chain_id: u64 = self.chain_id;
        let mut pool: UoPool = self.pools.remove(i);
        let ghost old_view = pool.mempool.view_entries();
        match pool.mempool.remove(hash) {
            Ok(()) => {
                proof {
                    let hi = crate::mempool::hash_index(old_view, *hash);
                    old_view.remove_ensures(hi);
                    let newv = pool.mempool.view_entries();
                    assert forall|k: int| 0 <= k < newv.len() implies (#[trigger] newv[k]).hash
                        == uo_hash_value(newv[k].uo, pool.entry_point, chain_id) by {
                        if k < hi {
                            assert(newv[k] == old_view[k]);
                        } else {
                            assert(newv[k] == old_view[k + 1]);
                        }
                    }
                }
                let ghost kept = pool;
                self.pools.insert(i, pool);
                proof {
                    old_pools.remove_ensures(i as int);
                    old_pools.remove(i as int).insert_ensures(i as int, kept);
                    assert forall|j: int| 0 <= j < old_pools.len() && j != i implies self.pools@[j]
                        == old_pools[j] by {
                        if j < i {
                            assert(self.pools@[j] == old_pools.remove(i as int)[j]);
                        } else {
                            assert(self.pools@[j] == old_pools.remove(i as int)[j - 1]);
                        }
                    }
                    assert(self.pools@[i as int] == kept);
                }
                Ok(())
            },
            Err(e) => {
                let ghost kept = pool;
                self.pools.insert(i, pool);
                proof {
                    old_pools.remove_ensures(i as int);
                    old_pools.remove(i as int).insert_ensures(i as int, kept);
                    assert forall|j: int| 0 <= j < old_pools.len() && j != i implies self.pools@[j]
                        == old_pools[j] by {
                        if j < i {
                            assert(self.pools@[j] == old_pools.remove(i as int)[j]);
                        } else {
                            assert(self.pools@[j] == old_pools.remove(i as int)[j - 1]);
                        }
                    }
                    assert(self.pools@[i as int] == kept);
                    assert(pool_unchanged(old_pools[i as int], kept));
                }
                Err(UoPoolError::Mempool(e))
            },
        }
    }

    /// Estimates the gas figures of an operation: sanity and simulation
    /// rules only, the overhead computed here, the call gas taken from the
    /// chain client's estimator.
    pub fn estimate_user_operation_gas(
        &self,
        uo: &UserOperation,
        entry_point: &Address,
        input: ValidationInput,
        call_gas_estimate: U256,
    ) -> (r: Result<UserOperationGasEstimation, UoPoolError>)
        requires
            self.wf(),
            uo@.call_data.len() <= 0xffff_ffff_ffff_ffff,
        ensures
            match r {
                Ok(est) => has_ep(self.pools@, *entry_point) && spec_validation_passes(
                    StandardUserOperationValidator {
                        trace_checks: false,
                        ..self.pools@[ep_index(self.pools@, *entry_point)].validator
                    },
                    uo@,
                    self.pools@[ep_index(self.pools@, *entry_point)].mempool,
                    self.pools@[ep_index(self.pools@, *entry_point)].reputation,
                    ValidatorModeSet { sanity: true, simulation: true, simulation_trace: false },
                    input,
                ) && est.pre_verification_gas.val() == spec_overhead(uo@.call_data)
                    && est.verification_gas_limit == return_info_of(
                    sim_result_of(input.sim)->Ok_0,
                ).pre_op_gas && est.call_gas_limit == call_gas_estimate,
                Err(UoPoolError::InvalidEntryPoint) => !has_ep(self.pools@, *entry_point),
                Err(UoPoolError::Validation(e)) => has_ep(self.pools@, *entry_point)
                    && spec_validation_err(
                    StandardUserOperationValidator {
                        trace_checks: false,
                        ..self.pools@[ep_index(self.pools@, *entry_point)].validator
                    },
                    uo@,
                    self.pools@[ep_index(self.pools@, *entry_point)].mempool,
                    self.pools@[ep_index(self.pools@, *entry_point)].reputation,
                    ValidatorModeSet { sanity: true, simulation: true, simulation_trace: false },
                    input,
                    e,
                ),
                Err(_) => false,
            },
    {
        let i: usize = match self.find_pool(entry_point) {
            Some(i) => i,
            None => {
                return Err(UoPoolError::InvalidEntryPoint);
            },
        };
        proof {
            lemma_ep_index_is(self.pools@, *entry_point, i as int);
        }
        let pool = &self.pools[i];
        let estimator = crate::validate::new_canonical_unsafe(
            pool.entry_point,
            self.chain_id,
            self.max_verification_gas,
            self.min_priority_fee_per_gas,
        );
        proof {
            assert(estimator == StandardUserOperationValidator {
                trace_checks: false,
                ..self.pools@[i as int].validator
            });
        }
        let mode = ValidatorModeSet { sanity: true, simulation: true, simulation_trace: false };
        let outcome = match estimator.validate_user_operation(
            uo,
            &pool.mempool,
            &pool.reputation,
            mode,
            input,
        ) {
            Ok(o) => o,
            Err(e) => {
                return Err(UoPoolError::Validation(e));
            },
        };
        let overhead: u128 = calculate_overhead(uo);
        Ok(
            UserOperationGasEstimation {
                pre_verification_gas: U256::from_u128(overhead),
                verification_gas_limit: outcome.verification_gas_limit,
                call_gas_limit: call_gas_estimate,
            },
        )
    }

    /// Truncates every pool and every reputation book.
    pub fn clear(&mut self)
        requires
            old(self).wf(),
        ensures
            final(self).wf(),
            final(self).chain_id == old(self).chain_id,
            final(self).pools@.len() == old(self).pools@.len(),
            forall|j: int|
                0 <= j < final(self).pools@.len() ==> (#[trigger] final(self).pools@[j]).entry_point
                    == old(self).pools@[j].entry_point && final(self).pools@[j].id == old(self).pools@[j].id && final(self).pools@[j].validator == old(self).pools@[j].validator
                    && final(self).pools@[j].mempool.view_entries().len() == 0 && final(self).pools@[j].reputation.entries@.len() == 0,
    {
        let n: usize = self.pools.len();
        let ghost old_pools = self.pools@;
        let mut i: usize = 0;
        while i < n
            invariant
                i <= n,
                n == self.pools@.len(),
                n == old_pools.len(),
                old(self).wf(),
                self.chain_id == old(self).chain_id,
                self.max_verification_gas == old(self).max_verification_gas,
                self.min_priority_fee_per_gas == old(self).min_priority_fee_per_gas,
                forall|j: int| i <= j < n ==> #[trigger] self.pools@[j] == old_pools[j],
                forall|j: int|
                    0 <= j < i ==> (#[trigger] self.pools@[j]).entry_point
                        == old_pools[j].entry_point && self.pools@[j].id == old_pools[j].id
                        && self.pools@[j].validator == old_pools[j].validator
                        && self.pools@[j].mempool.view_entries().len() == 0
                        && self.pools@[j].reputation.entries@.len() == 0
                        && self.pools@[j].mempool.wf() && self.pools@[j].reputation.wf()
                        && self.pools@[j].mempool.max_uos_per_sender
                        == old_pools[j].mempool.max_uos_per_sender
                        && self.pools@[j].reputation.whitelist@ == old_pools[j].reputation.whitelist@
                        && self.pools@[j].reputation.blacklist@ == old_pools[j].reputation.blacklist@,
                old_pools == old(self).pools@,
            decreases n - i,
        {
            let mut pool: UoPool = self.pools.remove(i);
            let ghost before = self.pools@;
            pool.mempool.clear();
            pool.reputation.clear();
            let ghost kept = pool;
            self.pools.insert(i, pool);
            proof {
                before.insert_ensures(i as int, kept);
                old_pools.remove_ensures(i as int);
                assert forall|j: int| i + 1 <= j < n implies #[trigger] self.pools@[j]
                    == old_pools[j] by {
                    assert(self.pools@[j] == before[j - 1]);
                }
                assert(self.pools@[i as int] == kept);
                assert forall|j: int| 0 <= j < i implies #[trigger] self.pools@[j]
                    == before[j] by {}
            }
            i = i + 1;
        }
    }

    /// Every operation stored for one entry point, in storage order.
    pub fn get_all(&self, entry_point: &Address) -> (r: Result<Vec<UserOperation>, UoPoolError>)
        requires
            self.wf(),
        ensures
            match r {
                Ok(uos) => has_ep(self.pools@, *entry_point) && uos@.len() == self.pools@[ep_index(
                    self.pools@,
                    *entry_point,
                )].mempool.view_entries().len() && forall|k: int|
                    0 <= k < uos@.len() ==> (#[trigger] uos@[k])@ == self.pools@[ep_index(
                        self.pools@,
                        *entry_point,
                    )].mempool.view_entries()[k].uo,
                Err(UoPoolError::InvalidEntryPoint) => !has_ep(self.pools@, *entry_point),
                Err(_) => false,
            },
    {
        match self.find_pool(entry_point) {
            Some(i) => {
                proof {
                    lemma_ep_index_is(self.pools@, *entry_point, i as int);
                }
                Ok(self.pools[i].mempool.get_all())
            },
            None => Err(UoPoolError::InvalidEntryPoint),
        }
    }

    /// Replaces the reputation book of one entry point.
    pub fn set_reputation(&mut self, entry_point: &Address, entries: Vec<ReputationEntry>) -> (r:
        Result<(), UoPoolError>)
        requires
            old(self).wf(),
            unique_addrs(entries@),
            forall|i: int|
                0 <= i < entries@.len() ==> (#[trigger] entries@[i]).ops_seen
                    >= entries@[i].ops_included,
        ensures
            final(self).wf(),
            final(self).chain_id == old(self).chain_id,
            final(self).pools@.len() == old(self).pools@.len(),
            forall|j: int|
                0 <= j < old(self).pools@.len() && j != ep_index(old(self).pools@, *entry_point)
                    ==> final(self).pools@[j] == old(self).pools@[j],
            match r {
                Ok(()) => has_ep(old(self).pools@, *entry_point) && final(self).pools@[ep_index(
                    old(self).pools@,
                    *entry_point,
                )].reputation.entries@ == entries@ && final(self).pools@[ep_index(
                    old(self).pools@,
                    *entry_point,
                )].mempool.view_entries() == old(self).pools@[ep_index(
                    old(self).pools@,
                    *entry_point,
                )].mempool.view_entries(),
                Err(UoPoolError::InvalidEntryPoint) => !has_ep(old(self).pools@, *entry_point)
                    && final(self).pools@ == old(self).pools@,
                Err(_) => false,
            },
    {
        let ghost old_pools = self.pools@;
        let i: usize = match self.find_pool(entry_point) {
            Some(i) => i,
            None => {
                return Err(UoPoolError::InvalidEntryPoint);
            },
        };
        proof {
            lemma_ep_index_is(old_pools, *entry_point, i as int);
        }
        let mut pool: UoPool = self.pools.remove(i);
        pool.reputation.set(entries);
        let ghost kept = pool;
        self.pools.insert(i, pool);
        proof {
            old_pools.remove_ensures(i as int);
            old_pools.remove(i as int).insert_ensures(i as int, kept);
            assert forall|j: int| 0 <= j < old_pools.len() && j != i implies self.pools@[j]
                == old_pools[j] by {
                if j < i {
                    assert(self.pools@[j] == old_pools.remove(i as int)[j]);
                } else {
                    assert(self.pools@[j] == old_pools.remove(i as int)[j - 1]);
                }
            }
            assert(self.pools@[i as int] == kept);
        }
        Ok(())
    }

    /// The reputation book of one entry point, in storage order.
    pub fn get_all_reputation(&self, entry_point: &Address) -> (r: Result<
        Vec<ReputationEntry>,
        UoPoolError,
    >)
        requires
            self.wf(),
        ensures
            match r {
                Ok(entries) => has_ep(self.pools@, *entry_point) && entries@ == self.pools@[ep_index(
                    self.pools@,
                    *entry_point,
                )].reputation.entries@,
                Err(UoPoolError::InvalidEntryPoint) => !has_ep(self.pools@, *entry_point),
                Err(_) => false,
            },
    {
        match self.find_pool(entry_point) {
            Some(i) => {
                proof {
                    lemma_ep_index_is(self.pools@, *entry_point, i as int);
                }
                Ok(self.pools[i].reputation.get_all())
            },
            None => Err(UoPoolError::InvalidEntryPoint),
        }
    }
}

/// Every stored entry's hash field is the operation's identity under the
/// pool's entry point and chain.
pub open spec fn hash_consistent(pool: Mempool, ep: Address, chain_id: u64) -> bool {
    forall|i: int|
        0 <= i < pool.view_entries().len() ==> (#[trigger] pool.view_entries()[i]).hash
            == uo_hash_value(pool.view_entries()[i].uo, ep, chain_id)
}

} // verus!
