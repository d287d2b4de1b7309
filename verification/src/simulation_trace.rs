//! The trace inspector: the structured execution trace of
//! `simulateValidation` and the rules checked over it.
//!
//! The trace arrives already parsed into per-entity levels (factory, sender,
//! paymaster, in that order), a flat call list, and the Keccak preimages the
//! tracer observed. The rules run in declaration order — gas, opcodes,
//! external contracts, storage access, call stack, code hashes — and the
//! first failing rule's error is the result.

use crate::hashing::{address_word, address_word_bytes, keccak256_hash, keccak256_of};
use crate::bytes::{be_val, lemma_be_bytes_of_len, lemma_be_bytes_of_val};
use crate::reputation::{Reputation, StakeInfo};
use crate::simulation::SimulationCheckError;
use crate::types::{Address, CodeHash, U256};
use crate::user_operation::{factory_of, paymaster_of, UserOperation, UserOperationView};
use vstd::prelude::*;

verus! {

/// The opcodes the rules speak of; anything else is `Other`.
#[derive(Clone, Copy, Debug, PartialEq, Eq, Structural)]
pub enum Opcode {
    Gasprice,
    Gaslimit,
    Difficulty,
    Prevrandao,
    Blockhash,
    Balance,
    Selfbalance,
    Origin,
    Basefee,
    Coinbase,
    Gas,
    Create,
    Create2,
    Selfdestruct,
    Other,
}

/// How often one opcode ran in one validation level.
#[derive(Clone, Copy, Debug, PartialEq, Eq, Structural)]
pub struct OpcodeCount {
    pub opcode: Opcode,
    pub count: u64,
}

/// One storage access observed during validation.
#[derive(Clone, Copy, Debug, PartialEq, Eq, Structural)]
pub struct SlotAccess {
    /// The contract whose storage was touched.
    pub address: Address,
    pub slot: U256,
    pub is_write: bool,
}

/// The code size seen at an address referenced during validation.
#[derive(Clone, Copy, Debug, PartialEq, Eq, Structural)]
pub struct ContractSize {
    pub address: Address,
    pub size: u64,
}

#[derive(Clone, Copy, Debug, PartialEq, Eq, Structural)]
pub enum CallKind {
    Call,
    StaticCall,
    DelegateCall,
    Create,
    Create2,
}

/// One call frame of the validation trace.
#[derive(Debug)]
pub struct TraceCall {
    pub from: Address,
    pub to: Address,
    pub value: U256,
    /// The 4-byte selector of the called method; empty for plain transfers.
    pub method: Vec<u8>,
    pub kind: CallKind,
}

/// What the tracer recorded for one entity's validation frame.
#[derive(Debug)]
pub struct LevelTrace {
    pub opcodes: Vec<OpcodeCount>,
    pub accesses: Vec<SlotAccess>,
    pub contract_sizes: Vec<ContractSize>,
    /// Whether this frame ran out of gas.
    pub oog: bool,
}

/// The structured execution trace of one `simulateValidation` run.
#[derive(Debug)]
pub struct SimulationTrace {
    /// Factory, sender, paymaster levels, in that order.
    pub levels: Vec<LevelTrace>,
    pub calls: Vec<TraceCall>,
    /// Preimages of the Keccak hashes the tracer saw computed.
    pub keccak_preimages: Vec<Vec<u8>>,
}

/// The stake of each of the three entity roles.
#[derive(Clone, Copy, Debug, PartialEq, Eq, Structural)]
pub struct EntityStakes {
    pub sender: StakeInfo,
    pub factory: StakeInfo,
    pub paymaster: StakeInfo,
}

/// The context the trace rules read beside the trace itself.
pub struct SimulationTraceHelper {
    pub entry_point: Address,
    /// Stake of the sender, factory and paymaster entities.
    pub stakes: EntityStakes,
    /// Code hashes of every touched address, captured at the verified block.
    pub code_hashes: Vec<CodeHash>,
    /// The set stored at a previous admission, empty when this is the first.
    pub prev_code_hashes: Vec<CodeHash>,
}

/// The entity a level belongs to: factory, sender, paymaster in that order.
/// A missing factory or paymaster falls back to the sender.
pub open spec fn level_entity(v: UserOperationView, i: int) -> Address {
    if i == 0 {
        match factory_of(v) {
            Some(a) => a,
            None => v.sender,
        }
    } else if i == 2 {
        match paymaster_of(v) {
            Some(a) => a,
            None => v.sender,
        }
    } else {
        v.sender
    }
}

pub open spec fn level_stake(stakes: EntityStakes, i: int) -> StakeInfo {
    if i == 0 {
        stakes.factory
    } else if i == 2 {
        stakes.paymaster
    } else {
        stakes.sender
    }
}

/// The selector of the one entry-point method validation may call.
pub open spec fn deposit_to_selector() -> Seq<u8> {
    seq![0xb7u8, 0x60u8, 0xfau8, 0xf9u8]
}

/// Opcodes validation may never run.
pub open spec fn is_forbidden_opcode(op: Opcode) -> bool {
    match op {
        Opcode::Gasprice => true,
        Opcode::Gaslimit => true,
        Opcode::Difficulty => true,
        Opcode::Prevrandao => true,
        Opcode::Blockhash => true,
        Opcode::Balance => true,
        Opcode::Selfbalance => true,
        Opcode::Origin => true,
        Opcode::Basefee => true,
        Opcode::Coinbase => true,
        Opcode::Gas => true,
        Opcode::Selfdestruct => true,
        _ => false,
    }
}

fn forbidden_opcode(op: &Opcode) -> (r: bool)
    ensures
        r == is_forbidden_opcode(*op),
{
    match op {
        Opcode::Gasprice => true,
        Opcode::Gaslimit => true,
        Opcode::Difficulty => true,
        Opcode::Prevrandao => true,
        Opcode::Blockhash => true,
        Opcode::Balance => true,
        Opcode::Selfbalance => true,
        Opcode::Origin => true,
        Opcode::Basefee => true,
        Opcode::Coinbase => true,
        Opcode::Gas => true,
        Opcode::Selfdestruct => true,
        _ => false,
    }
}

/// Whether one opcode record breaks the opcode rule at level `i`: forbidden
/// opcodes never; `CREATE` never; `CREATE2` only once, by the factory of an
/// operation that deploys.
pub open spec fn opcode_violation(oc: OpcodeCount, i: int, v: UserOperationView) -> bool {
    if oc.count == 0 {
        false
    } else if is_forbidden_opcode(oc.opcode) {
        true
    } else if oc.opcode == Opcode::Create {
        true
    } else if oc.opcode == Opcode::Create2 {
        i != 0 || oc.count > 1 || v.init_code.len() == 0
    } else {
        false
    }
}

pub open spec fn no_oog(t: SimulationTrace) -> bool {
    forall|i: int| 0 <= i < t.levels@.len() ==> !(#[trigger] t.levels@[i]).oog
}

pub open spec fn no_opcode_violation(t: SimulationTrace, v: UserOperationView) -> bool {
    forall|i: int, j: int|
        0 <= i < t.levels@.len() && 0 <= j < t.levels@[i].opcodes@.len() ==> !opcode_violation(
            #[trigger] t.levels@[i].opcodes@[j],
            i,
            v,
        )
}

pub open spec fn no_zero_code_contract(t: SimulationTrace) -> bool {
    forall|i: int, j: int|
        0 <= i < t.levels@.len() && 0 <= j < t.levels@[i].contract_sizes@.len() ==> (
        #[trigger] t.levels@[i].contract_sizes@[j]).size > 0
}

/// Whether `slot` is associated with address `a`: some observed Keccak
/// preimage starts with `a` as a 32-byte word, and `slot` lies within 128
/// slots of that preimage's digest.
pub open spec fn slot_associated(slot: U256, a: Address, pres: Seq<Seq<u8>>) -> bool {
    exists|k: int|
        0 <= k < pres.len() && (#[trigger] pres[k]).len() >= 32 && pres[k].subrange(0, 32)
            == address_word(a) && be_val(keccak256_of(pres[k])) <= slot.val() <= be_val(
            keccak256_of(pres[k]),
        ) + 128
}

/// Whether one access is allowed for the entity of level `i`: its own
/// storage, a slot associated with it, or anything if it is staked.
pub open spec fn access_allowed(
    acc: SlotAccess,
    i: int,
    v: UserOperationView,
    stakes: EntityStakes,
    rep: Reputation,
    t: SimulationTrace,
) -> bool {
    ||| acc.address == level_entity(v, i)
    ||| slot_associated(acc.slot, level_entity(v, i), t.keccak_preimages@.map_values(|p: Vec<u8>| p@))
    ||| rep.spec_is_staked(level_stake(stakes, i))
}

pub open spec fn no_storage_violation(
    t: SimulationTrace,
    v: UserOperationView,
    stakes: EntityStakes,
    rep: Reputation,
) -> bool {
    forall|i: int, j: int|
        0 <= i < t.levels@.len() && 0 <= j < t.levels@[i].accesses@.len() ==> access_allowed(
            #[trigger] t.levels@[i].accesses@[j],
            i,
            v,
            stakes,
            rep,
            t,
        )
}

/// Whether one call frame breaks the call-stack rule: a call into the entry
/// point other than `depositTo`, or value carried anywhere else.
pub open spec fn call_violation(c: TraceCall, ep: Address, method: Seq<u8>) -> bool {
    ||| (c.to == ep && c.from != ep && method != deposit_to_selector())
    ||| (c.value.val() > 0 && c.to != ep)
}

pub open spec fn no_call_violation(t: SimulationTrace, ep: Address) -> bool {
    forall|i: int|
        0 <= i < t.calls@.len() ==> !call_violation(
            #[trigger] t.calls@[i],
            ep,
            t.calls@[i].method@,
        )
}

/// Whether a freshly captured code-hash set matches the stored one: same
/// size, and every stored pair occurs in the fresh set.
pub open spec fn code_hashes_match(prev: Seq<CodeHash>, cur: Seq<CodeHash>) -> bool {
    prev.len() == cur.len() && forall|i: int|
        0 <= i < prev.len() ==> cur.contains(#[trigger] prev[i])
}

fn entity_of_level(uo: &UserOperation, i: usize) -> (r: Address)
    ensures
        r == level_entity(uo@, i as int),
{
    if i == 0 {
        match uo.get_factory() {
            Some(a) => a,
            None => uo.sender,
        }
    } else if i == 2 {
        match uo.get_paymaster() {
            Some(a) => a,
            None => uo.sender,
        }
    } else {
        uo.sender
    }
}

fn opcode_violation_exec(oc: &OpcodeCount, i: usize, uo: &UserOperation) -> (r: bool)
    ensures
        r == opcode_violation(*oc, i as int, uo@),
{
    if oc.count == 0 {
        false
    } else if forbidden_opcode(&oc.opcode) {
        true
    } else if oc.opcode == Opcode::Create {
        true
    } else if oc.opcode == Opcode::Create2 {
        i != 0 || oc.count > 1 || uo.init_code.len() == 0
    } else {
        false
    }
}

/// Whether `p` starts with the address `a` padded to a 32-byte word.
fn has_word_prefix(p: &Vec<u8>, a: &Address) -> (r: bool)
    ensures
        r == (p@.len() >= 32 && p@.subrange(0, 32) == address_word(*a)),
{
    if p.len() < 32 {
        return false;
    }
    let w = address_word_bytes(a);
    proof {
        lemma_be_bytes_of_len(a.val(), 32);
    }
    let mut i: usize = 0;
    while i < 32
        invariant
            i <= 32,
            p@.len() >= 32,
            w@ == address_word(*a),
            w@.len() == 32,
            forall|j: int| 0 <= j < i ==> p@[j] == w@[j],
        decreases 32 - i,
    {
        if p[i] != w[i] {
            proof {
                assert(p@.subrange(0, 32)[i as int] != address_word(*a)[i as int]);
            }
            return false;
        }
        i = i + 1;
    }
    proof {
        assert(p@.subrange(0, 32) =~= w@);
    }
    true
}

/// Whether `slot` is associated with `a` given the observed preimages.
fn slot_associated_exec(slot: &U256, a: &Address, pres: &Vec<Vec<u8>>) -> (r: bool)
    ensures
        r == slot_associated(*slot, *a, pres@.map_values(|p: Vec<u8>| p@)),
{
    let ghost view = pres@.map_values(|p: Vec<u8>| p@);
    let n: usize = pres.len();
    let mut k: usize = 0;
    while k < n
        invariant
            k <= n,
            n == pres@.len(),
            view == pres@.map_values(|p: Vec<u8>| p@),
            forall|m: int|
                0 <= m < k ==> !((#[trigger] view[m]).len() >= 32 && view[m].subrange(0, 32)
                    == address_word(*a) && be_val(keccak256_of(view[m])) <= slot.val() <= be_val(
                    keccak256_of(view[m]),
                ) + 128),
        decreases n - k,
    {
        if has_word_prefix(&pres[k], a) {
            let digest = keccak256_hash(&pres[k]);
            proof {
                crate::types::lemma_hash256_bound(digest);
                lemma_be_bytes_of_len(digest.val(), 32);
                lemma_be_bytes_of_val(digest.val(), 32);
            }
            let base = U256 { hi: digest.hi, lo: digest.lo };
            proof {
                assert(base.val() == digest.val());
                assert(be_val(keccak256_of(view[k as int])) == base.val());
            }
            let upper = base.saturating_add(&U256::from_u128(128));
            proof {
                crate::types::lemma_u256_bound(*slot);
            }
            if base.le(slot) && slot.le(&upper) {
                proof {
                    assert((#[trigger] view[k as int]).len() >= 32 && view[k as int].subrange(0, 32)
                        == address_word(*a) && be_val(keccak256_of(view[k as int])) <= slot.val()
                        <= be_val(keccak256_of(view[k as int])) + 128);
                }
                return true;
            }
        }
        k = k + 1;
    }
    false
}

/// Rule: no validation frame ran out of gas.
pub fn check_gas(t: &SimulationTrace) -> (r: Result<(), SimulationCheckError>)
    ensures
        match r {
            Ok(()) => no_oog(*t),
            Err(e) => !no_oog(*t) && e matches SimulationCheckError::OutOfGas {  },
        },
{
    let n: usize = t.levels.len();
    let mut i: usize = 0;
    while i < n
        invariant
            i <= n,
            n == t.levels@.len(),
            forall|j: int| 0 <= j < i ==> !(#[trigger] t.levels@[j]).oog,
        decreases n - i,
    {
        if t.levels[i].oog {
            return Err(SimulationCheckError::OutOfGas {});
        }
        i = i + 1;
    }
    Ok(())
}

/// Rule: no forbidden opcode ran during validation; the error is attributed
/// to the entity of the offending level.
pub fn check_opcodes(t: &SimulationTrace, uo: &UserOperation) -> (r: Result<
    (),
    SimulationCheckError,
>)
    ensures
        match r {
            Ok(()) => no_opcode_violation(*t, uo@),
            Err(e) => e matches SimulationCheckError::Opcode { entity, opcode } && exists|i: int, j: int|
                0 <= i < t.levels@.len() && 0 <= j < t.levels@[i].opcodes@.len()
                    && opcode_violation(#[trigger] t.levels@[i].opcodes@[j], i, uo@) && entity
                    == level_entity(uo@, i) && opcode == t.levels@[i].opcodes@[j].opcode,
        },
{
    let n: usize = t.levels.len();
    let mut i: usize = 0;
    while i < n
        invariant
            i <= n,
            n == t.levels@.len(),
            forall|a: int, b: int|
                0 <= a < i && 0 <= b < t.levels@[a].opcodes@.len() ==> !opcode_violation(
                    #[trigger] t.levels@[a].opcodes@[b],
                    a,
                    uo@,
                ),
        decreases n - i,
    {
        let m: usize = t.levels[i].opcodes.len();
        let mut j: usize = 0;
        while j < m
            invariant
                i < n,
                j <= m,
                n == t.levels@.len(),
                m == t.levels@[i as int].opcodes@.len(),
                forall|b: int|
                    0 <= b < j ==> !opcode_violation(
                        #[trigger] t.levels@[i as int].opcodes@[b],
                        i as int,
                        uo@,
                    ),
            decreases m - j,
        {
            let oc = t.levels[i].opcodes[j];
            if opcode_violation_exec(&oc, i, uo) {
                let entity = entity_of_level(uo, i);
                return Err(SimulationCheckError::Opcode { entity, opcode: oc.opcode });
            }
            j = j + 1;
        }
        i = i + 1;
    }
    Ok(())
}

/// Rule: every contract referenced during validation carries code.
pub fn check_external_contracts(t: &SimulationTrace) -> (r: Result<(), SimulationCheckError>)
    ensures
        match r {
            Ok(()) => no_zero_code_contract(*t),
            Err(e) => e matches SimulationCheckError::ExternalContract { address } && exists|i: int, j: int|
                0 <= i < t.levels@.len() && 0 <= j < t.levels@[i].contract_sizes@.len() && (
                #[trigger] t.levels@[i].contract_sizes@[j]).size == 0
                    && t.levels@[i].contract_sizes@[j].address == address,
        },
{
    let n: usize = t.levels.len();
    let mut i: usize = 0;
    while i < n
        invariant
            i <= n,
            n == t.levels@.len(),
            forall|a: int, b: int|
                0 <= a < i && 0 <= b < t.levels@[a].contract_sizes@.len() ==> (
                #[trigger] t.levels@[a].contract_sizes@[b]).size > 0,
        decreases n - i,
    {
        let m: usize = t.levels[i].contract_sizes.len();
        let mut j: usize = 0;
        while j < m
            invariant
                i < n,
                j <= m,
                n == t.levels@.len(),
                m == t.levels@[i as int].contract_sizes@.len(),
                forall|b: int|
                    0 <= b < j ==> (#[trigger] t.levels@[i as int].contract_sizes@[b]).size > 0,
            decreases m - j,
        {
            let cs = t.levels[i].contract_sizes[j];
            if cs.size == 0 {
                return Err(SimulationCheckError::ExternalContract { address: cs.address });
            }
            j = j + 1;
        }
        i = i + 1;
    }
    Ok(())
}

/// Rule: an entity touches only its own storage or slots associated with it,
/// unless it is staked.
pub fn check_storage_access(
    t: &SimulationTrace,
    uo: &UserOperation,
    h: &SimulationTraceHelper,
    rep: &Reputation,
) -> (r: Result<(), SimulationCheckError>)
    ensures
        match r {
            Ok(()) => no_storage_violation(*t, uo@, h.stakes, *rep),
            Err(e) => e matches SimulationCheckError::StorageAccess { entity, slot } && exists|i: int, j: int|
                0 <= i < t.levels@.len() && 0 <= j < t.levels@[i].accesses@.len()
                    && !access_allowed(#[trigger] t.levels@[i].accesses@[j], i, uo@, h.stakes, *rep, *t)
                    && entity == level_entity(uo@, i) && slot == t.levels@[i].accesses@[j].slot,
        },
{
    let n: usize = t.levels.len();
    let mut i: usize = 0;
    while i < n
        invariant
            i <= n,
            n == t.levels@.len(),
            forall|a: int, b: int|
                0 <= a < i && 0 <= b < t.levels@[a].accesses@.len() ==> access_allowed(
                    #[trigger] t.levels@[a].accesses@[b],
                    a,
                    uo@,
                    h.stakes,
                    *rep,
                    *t,
                ),
        decreases n - i,
    {
        let entity = entity_of_level(uo, i);
        let staked: bool = rep.check_stake(
            if i == 0 {
                &h.stakes.factory
            } else if i == 2 {
                &h.stakes.paymaster
            } else {
                &h.stakes.sender
            },
        ).is_ok();
        let m: usize = t.levels[i].accesses.len();
        let mut j: usize = 0;
        while j < m
            invariant
                i < n,
                j <= m,
                n == t.levels@.len(),
                m == t.levels@[i as int].accesses@.len(),
                entity == level_entity(uo@, i as int),
                staked == rep.spec_is_staked(level_stake(h.stakes, i as int)),
                forall|b: int|
                    0 <= b < j ==> access_allowed(
                        #[trigger] t.levels@[i as int].accesses@[b],
                        i as int,
                        uo@,
                        h.stakes,
                        *rep,
                        *t,
                    ),
            decreases m - j,
        {
            let acc = t.levels[i].accesses[j];
            if !(acc.address == entity) && !staked {
                if !slot_associated_exec(&acc.slot, &entity, &t.keccak_preimages) {
                    return Err(
                        SimulationCheckError::StorageAccess { entity, slot: acc.slot },
                    );
                }
            }
            j = j + 1;
        }
        i = i + 1;
    }
    Ok(())
}

/// Rule: validation calls the entry point only through `depositTo`, and
/// carries value only into the entry point.
pub fn check_call_stack(t: &SimulationTrace, h: &SimulationTraceHelper) -> (r: Result<
    (),
    SimulationCheckError,
>)
    ensures
        match r {
            Ok(()) => no_call_violation(*t, h.entry_point),
            Err(e) => !no_call_violation(*t, h.entry_point) && e matches SimulationCheckError::CallStack {  },
        },
{
    let n: usize = t.calls.len();
    let mut i: usize = 0;
    while i < n
        invariant
            i <= n,
            n == t.calls@.len(),
            forall|j: int|
                0 <= j < i ==> !call_violation(
                    #[trigger] t.calls@[j],
                    h.entry_point,
                    t.calls@[j].method@,
                ),
        decreases n - i,
    {
        let c = &t.calls[i];
        if c.to == h.entry_point && c.from != h.entry_point {
            let selector: Vec<u8> = vec![0xb7u8, 0x60u8, 0xfau8, 0xf9u8];
            proof {
                assert(selector@ =~= deposit_to_selector());
            }
            if !crate::bytes::bytes_eq(&c.method, &selector) {
                return Err(SimulationCheckError::CallStack {});
            }
        }
        if !c.value.is_zero() && !(c.to == h.entry_point) {
            return Err(SimulationCheckError::CallStack {});
        }
        i = i + 1;
    }
    Ok(())
}

fn contains_code_hash(v: &Vec<CodeHash>, c: &CodeHash) -> (r: bool)
    ensures
        r == v@.contains(*c),
{
    let n: usize = v.len();
    let mut i: usize = 0;
    while i < n
        invariant
            i <= n,
            n == v@.len(),
            forall|j: int| 0 <= j < i ==> v@[j] != *c,
        decreases n - i,
    {
        if v[i] == *c {
            return true;
        }
        i = i + 1;
    }
    proof {
        if v@.contains(*c) {
            let j = choose|j: int| 0 <= j < v@.len() && v@[j] == *c;
            assert(v@[j] == *c);
            assert(false);
        }
    }
    false
}

fn code_hashes_match_exec(prev: &Vec<CodeHash>, cur: &Vec<CodeHash>) -> (r: bool)
    ensures
        r == code_hashes_match(prev@, cur@),
{
    if prev.len() != cur.len() {
        return false;
    }
    let n: usize = prev.len();
    let mut i: usize = 0;
    while i < n
        invariant
            i <= n,
            n == prev@.len(),
            n == cur@.len(),
            forall|j: int| 0 <= j < i ==> cur@.contains(#[trigger] prev@[j]),
        decreases n - i,
    {
        if !contains_code_hash(cur, &prev[i]) {
            return false;
        }
        i = i + 1;
    }
    true
}

fn clone_code_hash_list(v: &Vec<CodeHash>) -> (r: Vec<CodeHash>)
    ensures
        r@ == v@,
{
    let n: usize = v.len();
    let mut r: Vec<CodeHash> = Vec::new();
    let mut i: usize = 0;
    while i < n
        invariant
            i <= n,
            n == v@.len(),
            r@ == v@.subrange(0, i as int),
        decreases n - i,
    {
        r.push(v[i]);
        proof {
            assert(v@.subrange(0, i as int + 1) =~= v@.subrange(0, i as int).push(v@[i as int]));
        }
        i = i + 1;
    }
    proof {
        assert(v@.subrange(0, n as int) =~= v@);
    }
    r
}

/// Rule: on readmission, the freshly captured code hashes must match the
/// stored set.
pub fn check_code_hashes(h: &SimulationTraceHelper) -> (r: Result<(), SimulationCheckError>)
    ensures
        match r {
            Ok(()) => h.prev_code_hashes@.len() == 0 || code_hashes_match(
                h.prev_code_hashes@,
                h.code_hashes@,
            ),
            Err(e) => h.prev_code_hashes@.len() > 0 && !code_hashes_match(
                h.prev_code_hashes@,
                h.code_hashes@,
            ) && e matches SimulationCheckError::CodeHashChanged {  },
        },
{
    if prev_empty(&h.prev_code_hashes) {
        return Ok(());
    }
    if code_hashes_match_exec(&h.prev_code_hashes, &h.code_hashes) {
        Ok(())
    } else {
        Err(SimulationCheckError::CodeHashChanged {})
    }
}

fn prev_empty(v: &Vec<CodeHash>) -> (r: bool)
    ensures
        r == (v@.len() == 0),
{
    v.len() == 0
}

/// Everything the trace rules accept: what a successful trace run shows.
pub open spec fn trace_pipeline_ok(
    t: SimulationTrace,
    v: UserOperationView,
    stakes: EntityStakes,
    ep: Address,
    prev: Seq<CodeHash>,
    cur: Seq<CodeHash>,
    rep: Reputation,
) -> bool {
    &&& no_oog(t)
    &&& no_opcode_violation(t, v)
    &&& no_zero_code_contract(t)
    &&& no_storage_violation(t, v, stakes, rep)
    &&& no_call_violation(t, ep)
    &&& (prev.len() == 0 || code_hashes_match(prev, cur))
}

/// What each trace error says, with every earlier rule clean: the
/// declaration order of the rules decides which error is reported.
pub open spec fn trace_pipeline_err(
    e: SimulationCheckError,
    t: SimulationTrace,
    v: UserOperationView,
    stakes: EntityStakes,
    ep: Address,
    prev: Seq<CodeHash>,
    cur: Seq<CodeHash>,
    rep: Reputation,
) -> bool {
    match e {
        SimulationCheckError::OutOfGas {  } => !no_oog(t),
        SimulationCheckError::Opcode { .. } => no_oog(t) && !no_opcode_violation(t, v),
        SimulationCheckError::ExternalContract { .. } => no_oog(t) && no_opcode_violation(t, v)
            && !no_zero_code_contract(t),
        SimulationCheckError::StorageAccess { .. } => no_oog(t) && no_opcode_violation(t, v)
            && no_zero_code_contract(t) && !no_storage_violation(t, v, stakes, rep),
        SimulationCheckError::CallStack {  } => no_oog(t) && no_opcode_violation(t, v)
            && no_zero_code_contract(t) && no_storage_violation(t, v, stakes, rep)
            && !no_call_violation(t, ep),
        SimulationCheckError::CodeHashChanged {  } => no_oog(t) && no_opcode_violation(t, v)
            && no_zero_code_contract(t) && no_storage_violation(t, v, stakes, rep)
            && no_call_violation(t, ep) && prev.len() > 0 && !code_hashes_match(prev, cur),
        _ => false,
    }
}

/// The trace pipeline, in declaration order: gas, opcodes, external
/// contracts, storage access, call stack, code hashes. The first failing
/// rule's error is the result; success hands back the captured code hashes.
pub fn check_simulation_trace(
    uo: &UserOperation,
    t: &SimulationTrace,
    h: &SimulationTraceHelper,
    rep: &Reputation,
) -> (r: Result<Vec<CodeHash>, SimulationCheckError>)
    ensures
        match r {
            Ok(hashes) => trace_pipeline_ok(
                *t,
                uo@,
                h.stakes,
                h.entry_point,
                h.prev_code_hashes@,
                h.code_hashes@,
                *rep,
            ) && hashes@ == h.code_hashes@,
            Err(e) => trace_pipeline_err(
                e,
                *t,
                uo@,
                h.stakes,
                h.entry_point,
                h.prev_code_hashes@,
                h.code_hashes@,
                *rep,
            ),
        },
{
    check_gas(t)?;
    check_opcodes(t, uo)?;
    check_external_contracts(t)?;
    check_storage_access(t, uo, h, rep)?;
    check_call_stack(t, h)?;
    check_code_hashes(h)?;
    Ok(clone_code_hash_list(&h.code_hashes))
}

} // verus!
