use uopool::mempool::MempoolError;
use uopool::reputation::ReputationEntry;
use uopool::sanity::{SanityCheckError, SanityHelper};
use uopool::reputation::StakeInfo;
use uopool::simulation::{ReturnInfo, SimulateValidationResult, SimulationCheckError};
use uopool::simulation_trace::{LevelTrace, Opcode, OpcodeCount, SimulationTrace};
use uopool::types::{Address, U256};
use uopool::uopool::{UoPoolError, UoPoolService};
use uopool::user_operation::UserOperation;
use uopool::validate::{BlockInfo, ChainResponse, ValidationError, ValidationInput};

fn addr(n: u128) -> Address {
    Address { hi: 0, lo: n }
}

fn u(x: u128) -> U256 {
    U256 { hi: 0, lo: x }
}

fn zero_stake() -> StakeInfo {
    StakeInfo { stake: u(0), unstake_delay_sec: u(0) }
}

const GWEI: u128 = 1_000_000_000;

fn fresh_uo(sender: Address, nonce: u128) -> UserOperation {
    UserOperation {
        sender,
        nonce: u(nonce),
        init_code: Vec::new(),
        call_data: Vec::new(),
        call_gas_limit: u(100_000),
        verification_gas_limit: u(150_000),
        pre_verification_gas: u(45_000),
        max_fee_per_gas: u(20 * GWEI),
        max_priority_fee_per_gas: u(GWEI),
        paymaster_and_data: Vec::new(),
        signature: Vec::new(),
    }
}

fn empty_level() -> LevelTrace {
    LevelTrace { opcodes: Vec::new(), accesses: Vec::new(), contract_sizes: Vec::new(), oog: false }
}

fn clean_trace() -> SimulationTrace {
    SimulationTrace {
        levels: vec![empty_level(), empty_level(), empty_level()],
        calls: Vec::new(),
        keccak_preimages: Vec::new(),
    }
}

fn good_input() -> ValidationInput {
    ValidationInput {
        sanity_ctx: SanityHelper {
            sender_code_size: 1,
            paymaster_code_size: 0,
            paymaster_deposit: u(0),
            pre_fund: u(0),
            base_fee: u(10 * GWEI),
            sender_stake: zero_stake(),
            factory_stake: zero_stake(),
            paymaster_stake: zero_stake(),
        },
        sim: ChainResponse::Value(SimulateValidationResult::ValidationResult {
            return_info: ReturnInfo {
                pre_op_gas: u(150_000),
                prefund: u(1),
                sig_failed: false,
                valid_after: 0,
                valid_until: 0,
            },
        }),
        block: ChainResponse::Value(BlockInfo { hash: u(77), timestamp: 1_000 }),
        trace: ChainResponse::Value(clean_trace()),
        trace_code_hashes: Vec::new(),
        now: 1_000,
    }
}

fn service() -> (UoPoolService, Address) {
    let ep = addr(0xee);
    let svc = UoPoolService::new(
        vec![ep],
        1,
        u(3_000_000),
        u(GWEI),
        u(1_000_000_000_000_000_000),
        u(86_400),
    );
    (svc, ep)
}

#[test]
fn admit_fresh_increments_pool() {
    let (mut svc, ep) = service();
    let uo = fresh_uo(addr(0xa1), 0);
    let expected = uo.hash(&ep, 1);
    let got = svc.add(&uo, &ep, good_input()).expect("fresh admission succeeds");
    assert_eq!(got, expected);
    let all = svc.get_all(&ep).expect("entry point is served");
    assert_eq!(all.len(), 1);
    assert_eq!(all[0], uo);
}

#[test]
fn replace_underpriced_reports_needed_fees() {
    let (mut svc, ep) = service();
    let sender = addr(0xa1);
    svc.add(&fresh_uo(sender, 0), &ep, good_input()).expect("first admission succeeds");
    let mut second = fresh_uo(sender, 0);
    second.max_fee_per_gas = u(21 * GWEI);
    let err = svc.add(&second, &ep, good_input()).expect_err("five percent is not enough");
    match err {
        UoPoolError::Mempool(MempoolError::ReplacementUnderpriced {
            needed_max_fee,
            needed_max_priority_fee,
        }) => {
            assert_eq!(needed_max_fee, u(22 * GWEI));
            assert_eq!(needed_max_priority_fee, u(GWEI + GWEI / 10));
        }
        other => panic!("unexpected error: {:?}", other),
    }
    assert_eq!(svc.get_all(&ep).unwrap().len(), 1);
}

#[test]
fn replace_accepted_with_eleven_percent_bump() {
    let (mut svc, ep) = service();
    let sender = addr(0xa1);
    let first = fresh_uo(sender, 0);
    svc.add(&first, &ep, good_input()).expect("first admission succeeds");
    let mut second = fresh_uo(sender, 0);
    second.max_fee_per_gas = u(20 * GWEI + 20 * GWEI / 100 * 11);
    second.max_priority_fee_per_gas = u(GWEI + GWEI / 100 * 11);
    svc.add(&second, &ep, good_input()).expect("eleven percent clears the bump");
    let all = svc.get_all(&ep).unwrap();
    assert_eq!(all.len(), 1);
    assert_eq!(all[0].max_fee_per_gas, second.max_fee_per_gas);
}

#[test]
fn forbidden_opcode_rejected_and_pool_unchanged() {
    let (mut svc, ep) = service();
    let sender = addr(0xa1);
    let mut input = good_input();
    let mut trace = clean_trace();
    trace.levels[1].opcodes.push(OpcodeCount { opcode: Opcode::Gasprice, count: 1 });
    input.trace = ChainResponse::Value(trace);
    let err = svc.add(&fresh_uo(sender, 0), &ep, input).expect_err("GASPRICE is forbidden");
    match err {
        UoPoolError::Validation(ValidationError::Simulation(SimulationCheckError::Opcode {
            entity,
            opcode,
        })) => {
            assert_eq!(entity, sender);
            assert_eq!(opcode, Opcode::Gasprice);
        }
        other => panic!("unexpected error: {:?}", other),
    }
    assert_eq!(svc.get_all(&ep).unwrap().len(), 0);
}

#[test]
fn banned_paymaster_fails_sanity() {
    let (mut svc, ep) = service();
    let paymaster = addr(0x77);
    let mut pm_bytes = vec![0u8; 20];
    pm_bytes[19] = 0x77;
    svc.set_reputation(
        &ep,
        vec![ReputationEntry { address: paymaster, ops_seen: 10_000, ops_included: 0 }],
    )
    .expect("entry point is served");
    let mut uo = fresh_uo(addr(0xa1), 0);
    uo.paymaster_and_data = pm_bytes;
    let mut input = good_input();
    input.sanity_ctx.paymaster_code_size = 1;
    input.sanity_ctx.paymaster_deposit = u(10 * GWEI);
    let err = svc.add(&uo, &ep, input).expect_err("banned paymaster is rejected");
    assert!(matches!(
        err,
        UoPoolError::Validation(ValidationError::Sanity(SanityCheckError::Paymaster {}))
    ));
    assert_eq!(svc.get_all(&ep).unwrap().len(), 0);
}

#[test]
fn unstaked_sender_over_limit() {
    let (mut svc, ep) = service();
    let sender = addr(0xa1);
    for nonce in 0..4 {
        svc.add(&fresh_uo(sender, nonce), &ep, good_input()).expect("below the cap");
    }
    let err = svc.add(&fresh_uo(sender, 4), &ep, good_input()).expect_err("fifth is over the cap");
    assert!(matches!(
        err,
        UoPoolError::Validation(ValidationError::Sanity(SanityCheckError::SenderOverLimit { .. }))
    ));
    assert_eq!(svc.get_all(&ep).unwrap().len(), 4);
}

#[test]
fn unsupported_entry_point_rejected() {
    let (mut svc, _ep) = service();
    let err = svc.add(&fresh_uo(addr(0xa1), 0), &addr(0xdead), good_input());
    assert!(matches!(err, Err(UoPoolError::InvalidEntryPoint)));
}

#[test]
fn remove_then_not_found() {
    let (mut svc, ep) = service();
    let uo = fresh_uo(addr(0xa1), 0);
    let h = svc.add(&uo, &ep, good_input()).unwrap();
    svc.remove(&h, &ep).expect("stored hash is removable");
    assert_eq!(svc.get_all(&ep).unwrap().len(), 0);
    let err = svc.remove(&h, &ep).expect_err("hash is gone");
    assert!(matches!(err, UoPoolError::Mempool(MempoolError::NotFound)));
}

#[test]
fn clear_empties_every_pool() {
    let (mut svc, ep) = service();
    svc.add(&fresh_uo(addr(0xa1), 0), &ep, good_input()).unwrap();
    svc.clear();
    assert_eq!(svc.get_all(&ep).unwrap().len(), 0);
    assert_eq!(svc.get_all_reputation(&ep).unwrap().len(), 0);
}

#[test]
fn chain_id_and_entry_points_reported() {
    let (svc, ep) = service();
    assert_eq!(svc.get_chain_id(), 1);
    assert_eq!(svc.get_supported_entry_points(), vec![ep]);
}

#[test]
fn reputation_seen_counted_per_admission() {
    let (mut svc, ep) = service();
    let sender = addr(0xa1);
    svc.add(&fresh_uo(sender, 0), &ep, good_input()).unwrap();
    let reps = svc.get_all_reputation(&ep).unwrap();
    assert_eq!(reps.len(), 1);
    assert_eq!(reps[0].address, sender);
    assert_eq!(reps[0].ops_seen, 1);
    assert_eq!(reps[0].ops_included, 0);
}

#[test]
fn estimate_gas_reports_overhead_and_estimates() {
    let (svc, ep) = service();
    let uo = fresh_uo(addr(0xa1), 0);
    let est = svc
        .estimate_user_operation_gas(&uo, &ep, good_input(), u(123_456))
        .expect("estimation succeeds");
    // empty call data: fixed plus per-op overhead only
    assert_eq!(est.pre_verification_gas, u(21_000 + 18_300));
    assert_eq!(est.verification_gas_limit, u(150_000));
    assert_eq!(est.call_gas_limit, u(123_456));
}

#[test]
fn signature_flag_fails_simulation() {
    let (mut svc, ep) = service();
    let mut input = good_input();
    input.sim = ChainResponse::Value(SimulateValidationResult::ValidationResult {
        return_info: ReturnInfo {
            pre_op_gas: u(150_000),
            prefund: u(1),
            sig_failed: true,
            valid_after: 0,
            valid_until: 0,
        },
    });
    let err = svc.add(&fresh_uo(addr(0xa1), 0), &ep, input).expect_err("flagged signature");
    assert!(matches!(
        err,
        UoPoolError::Validation(ValidationError::Simulation(SimulationCheckError::Signature {}))
    ));
}

#[test]
fn expiring_operation_fails_timestamp() {
    let (mut svc, ep) = service();
    let mut input = good_input();
    input.sim = ChainResponse::Value(SimulateValidationResult::ValidationResult {
        return_info: ReturnInfo {
            pre_op_gas: u(150_000),
            prefund: u(1),
            sig_failed: false,
            valid_after: 0,
            valid_until: 1_020,
        },
    });
    // now + 30 >= valid_until: too close to expiry
    let err = svc.add(&fresh_uo(addr(0xa1), 0), &ep, input).expect_err("expires too soon");
    assert!(matches!(
        err,
        UoPoolError::Validation(ValidationError::Simulation(SimulationCheckError::Timestamp {}))
    ));
}

#[test]
fn failed_op_reason_surfaces() {
    let (mut svc, ep) = service();
    let mut input = good_input();
    input.sim = ChainResponse::FailedOp(String::from("AA23 reverted"));
    let err = svc.add(&fresh_uo(addr(0xa1), 0), &ep, input).expect_err("failed op");
    match err {
        UoPoolError::Validation(ValidationError::Simulation(SimulationCheckError::Validation {
            message,
        })) => assert_eq!(message, "AA23 reverted"),
        other => panic!("unexpected error: {:?}", other),
    }
}

#[test]
fn distinct_senders_admitted_in_any_order() {
    let (mut svc1, ep) = service();
    let (mut svc2, _) = service();
    let a = fresh_uo(addr(0xa1), 0);
    let b = fresh_uo(addr(0xb2), 5);
    svc1.add(&a, &ep, good_input()).unwrap();
    svc1.add(&b, &ep, good_input()).unwrap();
    svc2.add(&b, &ep, good_input()).unwrap();
    svc2.add(&a, &ep, good_input()).unwrap();
    let mut h1: Vec<_> = svc1.get_all(&ep).unwrap().iter().map(|x| x.hash(&ep, 1)).collect();
    let mut h2: Vec<_> = svc2.get_all(&ep).unwrap().iter().map(|x| x.hash(&ep, 1)).collect();
    h1.sort_by_key(|h| (h.hi, h.lo));
    h2.sort_by_key(|h| (h.hi, h.lo));
    assert_eq!(h1, h2);
}

#[test]
fn identical_resubmission_fails_exactly_once() {
    let (mut svc, ep) = service();
    let uo = fresh_uo(addr(0xa1), 0);
    svc.add(&uo, &ep, good_input()).expect("first admission succeeds");
    let err = svc.add(&uo, &ep, good_input()).expect_err("identical fees fail the bump");
    assert!(matches!(
        err,
        UoPoolError::Mempool(MempoolError::ReplacementUnderpriced { .. })
    ));
    assert_eq!(svc.get_all(&ep).unwrap().len(), 1);
}
