use uopool::bytes::{be_bytes_to_u128, bytes_eq, nat_to_be_bytes};
use uopool::database::WrapUserOpSet;
use uopool::gas::calculate_overhead;
use uopool::hashing::mempool_id;
use uopool::reputation::{Reputation, ReputationEntry, ReputationError, ReputationStatus, StakeInfo};
use uopool::types::{Address, Hash256, U256};
use uopool::user_operation::UserOperation;

fn u(x: u128) -> U256 {
    U256 { hi: 0, lo: x }
}

fn addr(n: u128) -> Address {
    Address { hi: 0, lo: n }
}

fn rep() -> Reputation {
    Reputation::new(10, 10, 50, u(1000), u(86_400))
}

fn simple_uo(call_data: Vec<u8>) -> UserOperation {
    UserOperation {
        sender: addr(1),
        nonce: u(0),
        init_code: Vec::new(),
        call_data,
        call_gas_limit: u(0),
        verification_gas_limit: u(0),
        pre_verification_gas: u(0),
        max_fee_per_gas: u(0),
        max_priority_fee_per_gas: u(0),
        paymaster_and_data: Vec::new(),
        signature: Vec::new(),
    }
}

#[test]
fn status_derivation_thresholds() {
    let mut r = rep();
    // 24 seen, none included: two short of the minimum, within the slack
    r.set(vec![ReputationEntry { address: addr(1), ops_seen: 24, ops_included: 0 }]);
    assert_eq!(r.status_of(&addr(1)), ReputationStatus::Throttled);
    // far behind: banned
    r.set(vec![ReputationEntry { address: addr(1), ops_seen: 10_000, ops_included: 0 }]);
    assert_eq!(r.status_of(&addr(1)), ReputationStatus::Banned);
    // keeping up: fine
    r.set(vec![ReputationEntry { address: addr(1), ops_seen: 100, ops_included: 10 }]);
    assert_eq!(r.status_of(&addr(1)), ReputationStatus::OK);
    // unknown address: fine
    assert_eq!(r.status_of(&addr(9)), ReputationStatus::OK);
}

#[test]
fn whitelist_and_blacklist_pin_status() {
    let mut r = rep();
    r.set(vec![ReputationEntry { address: addr(1), ops_seen: 10_000, ops_included: 0 }]);
    r.set_entities(vec![addr(1)], vec![addr(2)]);
    assert_eq!(r.status_of(&addr(1)), ReputationStatus::OK);
    assert_eq!(r.status_of(&addr(2)), ReputationStatus::Banned);
}

#[test]
fn hourly_decay_drains_counters() {
    let mut r = rep();
    r.set(vec![ReputationEntry { address: addr(1), ops_seen: 24, ops_included: 0 }]);
    for _ in 0..24 {
        r.update_hourly();
    }
    assert!(r.get_all().is_empty());
}

#[test]
fn decay_single_step_rounds_down() {
    let mut r = rep();
    r.set(vec![ReputationEntry { address: addr(1), ops_seen: 24, ops_included: 12 }]);
    r.update_hourly();
    let all = r.get_all();
    assert_eq!(all.len(), 1);
    assert_eq!(all[0].ops_seen, 23);
    assert_eq!(all[0].ops_included, 11);
}

#[test]
fn stake_check_reasons() {
    let r = rep();
    let none = StakeInfo { stake: u(0), unstake_delay_sec: u(0) };
    let low = StakeInfo { stake: u(10), unstake_delay_sec: u(100_000) };
    let short = StakeInfo { stake: u(10_000), unstake_delay_sec: u(10) };
    let good = StakeInfo { stake: u(10_000), unstake_delay_sec: u(100_000) };
    assert_eq!(r.check_stake(&none), Err(ReputationError::NotStaked));
    assert_eq!(r.check_stake(&low), Err(ReputationError::StakeTooLow));
    assert_eq!(r.check_stake(&short), Err(ReputationError::UnstakeDelayTooLow));
    assert_eq!(r.check_stake(&good), Ok(()));
}

#[test]
fn increments_create_and_keep_invariant() {
    let mut r = rep();
    r.increment_seen(&addr(5));
    r.increment_included(&addr(5));
    r.increment_included(&addr(5));
    let all = r.get_all();
    assert_eq!(all.len(), 1);
    assert_eq!(all[0].ops_included, 2);
    assert!(all[0].ops_seen >= all[0].ops_included);
}

#[test]
fn u256_ordering_and_division() {
    let a = U256 { hi: 1, lo: 0 };
    let b = U256 { hi: 0, lo: u128::MAX };
    assert!(b.lt(&a));
    assert!(b.le(&a));
    assert!(!a.le(&b));
    assert_eq!(u(22).div_small(10), u(2));
    let big = U256 { hi: 3, lo: 7 };
    let q = big.div_small(1);
    assert_eq!(q, big);
    // (3 * 2^128 + 6) / 3 == 2^128 + 2
    let d = U256 { hi: 3, lo: 6 }.div_small(3);
    assert_eq!(d, U256 { hi: 1, lo: 2 });
}

#[test]
fn u256_saturating_add_caps() {
    let max = U256 { hi: u128::MAX, lo: u128::MAX };
    assert_eq!(max.saturating_add(&u(1)), max);
    assert_eq!(u(1).saturating_add(&u(2)), u(3));
    let carry = U256 { hi: 0, lo: u128::MAX }.saturating_add(&u(1));
    assert_eq!(carry, U256 { hi: 1, lo: 0 });
}

#[test]
fn be_bytes_round_trip() {
    let bytes = nat_to_be_bytes(0x0102_0304_0506_0708_090a_0b0c_0d0e_0f10, 16);
    assert_eq!(bytes.len(), 16);
    assert_eq!(bytes[0], 0x01);
    assert_eq!(bytes[15], 0x10);
    let back = be_bytes_to_u128(&bytes, 0, 16);
    assert_eq!(back, 0x0102_0304_0506_0708_090a_0b0c_0d0e_0f10);
    assert!(bytes_eq(&bytes, &bytes.clone()));
}

#[test]
fn overhead_counts_words_and_bytes() {
    // three bytes: one word, one zero byte, two non-zero bytes
    let uo = simple_uo(vec![0u8, 1u8, 2u8]);
    assert_eq!(calculate_overhead(&uo), 21_000 + 18_300 + 4 + 4 + 32);
    let empty = simple_uo(Vec::new());
    assert_eq!(calculate_overhead(&empty), 21_000 + 18_300);
}

#[test]
fn hashes_depend_on_their_inputs() {
    let ep = addr(0xee);
    let a = simple_uo(Vec::new());
    let mut b = simple_uo(Vec::new());
    b.nonce = u(1);
    let ha = a.hash(&ep, 1);
    let hb = b.hash(&ep, 1);
    assert_ne!(ha, hb);
    assert_eq!(ha, a.hash(&ep, 1));
    assert_ne!(a.hash(&ep, 1), a.hash(&ep, 2));
    assert_ne!(mempool_id(&ep, 1), mempool_id(&addr(0xef), 1));
    assert_eq!(mempool_id(&ep, 1), mempool_id(&ep, 1));
}

#[test]
fn entities_read_from_byte_fields() {
    let mut uo = simple_uo(Vec::new());
    assert_eq!(uo.get_factory(), None);
    assert_eq!(uo.get_paymaster(), None);
    let mut factory_bytes = vec![0u8; 20];
    factory_bytes[19] = 0x42;
    uo.init_code = factory_bytes;
    assert_eq!(uo.get_factory(), Some(addr(0x42)));
}

#[test]
fn wrap_user_op_set_semantics() {
    let mut s = WrapUserOpSet::new();
    assert!(s.is_empty());
    let h1 = Hash256 { hi: 1, lo: 2 };
    let h2 = Hash256 { hi: 3, lo: 4 };
    assert!(s.insert(h1));
    assert!(!s.insert(h1));
    assert!(s.insert(h2));
    assert!(!s.is_empty());
    assert_eq!(s.to_vec().len(), 2);
    assert!(s.remove(&h1));
    assert!(!s.remove(&h1));
    assert_eq!(s.to_vec(), vec![h2]);
}

#[test]
fn cloned_operation_is_equal() {
    let uo = simple_uo(vec![1, 2, 3]);
    let copy = uo.clone();
    assert_eq!(uo, copy);
    let mut other = uo.clone();
    other.call_data = vec![9];
    assert_ne!(uo, other);
}
