//! Reputation: per-entity counters with a status derived on every read.
//!
//! Only the counters are stored. `OK` / `Throttled` / `Banned` is computed
//! from `(ops_seen, ops_included)` each time it is asked for, with a
//! whitelist pinning entities to `OK` and a blacklist pinning them to
//! `Banned` ahead of the derivation.

use crate::types::{Address, U256};
use vstd::prelude::*;

verus! {

#[derive(Clone, Copy, Debug, PartialEq, Eq, Structural)]
pub enum ReputationStatus {
    OK,
    Throttled,
    Banned,
}

/// Per-address counters. The status is not stored: it is derived.
#[derive(Clone, Copy, Debug, PartialEq, Eq, Structural)]
pub struct ReputationEntry {
    pub address: Address,
    pub ops_seen: u64,
    pub ops_included: u64,
}

/// Stake deposited with the entry point, with its unstake delay.
#[derive(Clone, Copy, Debug, PartialEq, Eq, Structural)]
pub struct StakeInfo {
    pub stake: U256,
    pub unstake_delay_sec: U256,
}

#[derive(Clone, Copy, Debug, PartialEq, Eq, Structural)]
pub enum ReputationError {
    NotStaked,
    StakeTooLow,
    UnstakeDelayTooLow,
}

/// The status derived from a pair of counters: an entity that has not had
/// enough of its seen operations included is throttled, and far enough
/// behind, banned.
pub open spec fn derived_status(
    ops_seen: u64,
    ops_included: u64,
    denominator: u64,
    throttling_slack: u64,
    ban_slack: u64,
) -> ReputationStatus
    recommends
        denominator >= 1,
{
    let min_inclusion: int = ops_seen as int / denominator as int;
    if ops_included >= min_inclusion {
        ReputationStatus::OK
    } else {
        let diff: int = min_inclusion - ops_included;
        if diff <= throttling_slack {
            ReputationStatus::Throttled
        } else if diff > ban_slack {
            ReputationStatus::Banned
        } else {
            ReputationStatus::Throttled
        }
    }
}

/// One hourly decay step of a counter: 23/24ths, rounded down.
pub open spec fn decayed(x: u64) -> int {
    (x as int) * 23 / 24
}

/// Whether some entry of `s` carries address `a`.
pub open spec fn has_addr(s: Seq<ReputationEntry>, a: Address) -> bool {
    exists|i: int| 0 <= i < s.len() && s[i].address == a
}

/// No two entries of `s` carry the same address.
pub open spec fn unique_addrs(s: Seq<ReputationEntry>) -> bool {
    forall|i: int, j: int|
        0 <= i < j < s.len() ==> (#[trigger] s[i]).address != (#[trigger] s[j]).address
}

/// The counters recorded for `a`: those of its entry, or zero when absent.
pub open spec fn counters_of(s: Seq<ReputationEntry>, a: Address) -> (u64, u64) {
    if has_addr(s, a) {
        let i = choose|i: int| 0 <= i < s.len() && s[i].address == a;
        (s[i].ops_seen, s[i].ops_included)
    } else {
        (0, 0)
    }
}

/// With unique addresses, the entry at any matching index gives the counters.
pub proof fn lemma_counters_at(s: Seq<ReputationEntry>, a: Address, i: int)
    requires
        unique_addrs(s),
        0 <= i < s.len(),
        s[i].address == a,
    ensures
        counters_of(s, a) == (s[i].ops_seen, s[i].ops_included),
{
    assert(has_addr(s, a));
    let j = choose|j: int| 0 <= j < s.len() && s[j].address == a;
    if i != j {
        if i < j {
            assert(s[i].address != s[j].address);
        } else {
            assert(s[j].address != s[i].address);
        }
    }
}

/// The reputation book of one mempool.
pub struct Reputation {
    pub entries: Vec<ReputationEntry>,
    pub whitelist: Vec<Address>,
    pub blacklist: Vec<Address>,
    pub min_inclusion_denominator: u64,
    pub throttling_slack: u64,
    pub ban_slack: u64,
    pub min_stake: U256,
    pub min_unstake_delay: U256,
}

impl Reputation {
    /// Every entry keeps `ops_seen >= ops_included`, addresses are unique,
    /// and the derivation's divisor is positive.
    pub open spec fn wf(self) -> bool {
        &&& self.min_inclusion_denominator >= 1
        &&& unique_addrs(self.entries@)
        &&& forall|i: int|
            0 <= i < self.entries@.len() ==> (#[trigger] self.entries@[i]).ops_seen
                >= self.entries@[i].ops_included
    }

    pub open spec fn spec_counters(self, a: Address) -> (u64, u64) {
        counters_of(self.entries@, a)
    }

    /// What `status_of` returns: the whitelist pins `OK`, the blacklist pins
    /// `Banned`, and otherwise the status is derived from the counters.
    pub open spec fn spec_status_of(self, a: Address) -> ReputationStatus {
        if self.whitelist@.contains(a) {
            ReputationStatus::OK
        } else if self.blacklist@.contains(a) {
            ReputationStatus::Banned
        } else {
            derived_status(
                self.spec_counters(a).0,
                self.spec_counters(a).1,
                self.min_inclusion_denominator,
                self.throttling_slack,
                self.ban_slack,
            )
        }
    }

    /// What `check_stake` returns: no stake at all, too little of it, or too
    /// short an unstake delay, in that order.
    pub open spec fn spec_check_stake(self, info: StakeInfo) -> Result<(), ReputationError> {
        if info.stake.val() == 0 || info.unstake_delay_sec.val() == 0 {
            Err(ReputationError::NotStaked)
        } else if info.stake.val() < self.min_stake.val() {
            Err(ReputationError::StakeTooLow)
        } else if info.unstake_delay_sec.val() < self.min_unstake_delay.val() {
            Err(ReputationError::UnstakeDelayTooLow)
        } else {
            Ok(())
        }
    }

    /// Whether `info` passes the stake rules.
    pub open spec fn spec_is_staked(self, info: StakeInfo) -> bool {
        self.spec_check_stake(info) == Ok::<(), ReputationError>(())
    }

    pub fn new(
        min_inclusion_denominator: u64,
        throttling_slack: u64,
        ban_slack: u64,
        min_stake: U256,
        min_unstake_delay: U256,
    ) -> (r: Reputation)
        requires
            min_inclusion_denominator >= 1,
        ensures
            r.wf(),
            r.entries@.len() == 0,
            r.whitelist@.len() == 0,
            r.blacklist@.len() == 0,
            r.min_inclusion_denominator == min_inclusion_denominator,
            r.throttling_slack == throttling_slack,
            r.ban_slack == ban_slack,
            r.min_stake == min_stake,
            r.min_unstake_delay == min_unstake_delay,
    {
        Reputation {
            entries: Vec::new(),
            whitelist: Vec::new(),
            blacklist: Vec::new(),
            min_inclusion_denominator,
            throttling_slack,
            ban_slack,
            min_stake,
            min_unstake_delay,
        }
    }

    fn find_index(&self, a: &Address) -> (r: Option<usize>)
        ensures
            match r {
                Some(i) => i < self.entries@.len() && self.entries@[i as int].address == *a,
                None => !has_addr(self.entries@, *a),
            },
    {
        let n: usize = self.entries.len();
        let mut i: usize = 0;
        while i < n
            invariant
                i <= n,
                n == self.entries@.len(),
                forall|j: int| 0 <= j < i ==> (#[trigger] self.entries@[j]).address != *a,
            decreases n - i,
        {
            if self.entries[i].address == *a {
                return Some(i);
            }
            i = i + 1;
        }
        None
    }

    fn addr_in(list: &Vec<Address>, a: &Address) -> (r: bool)
        ensures
            r == list@.contains(*a),
    {
        let n: usize = list.len();
        let mut i: usize = 0;
        while i < n
            invariant
                i <= n,
                n == list@.len(),
                forall|j: int| 0 <= j < i ==> list@[j] != *a,
            decreases n - i,
        {
            if list[i] == *a {
                return true;
            }
            i = i + 1;
        }
        false
    }

    /// The status of an address, derived on this read.
    pub fn status_of(&self, a: &Address) -> (r: ReputationStatus)
        requires
            self.wf(),
        ensures
            r == self.spec_status_of(*a),
    {
        if Reputation::addr_in(&self.whitelist, a) {
            return ReputationStatus::OK;
        }
        if Reputation::addr_in(&self.blacklist, a) {
            return ReputationStatus::Banned;
        }
        let (seen, included): (u64, u64) = match self.find_index(a) {
            Some(i) => {
                proof {
                    lemma_counters_at(self.entries@, *a, i as int);
                }
                (self.entries[i].ops_seen, self.entries[i].ops_included)
            },
            None => (0, 0),
        };
        let min_inclusion: u64 = seen / self.min_inclusion_denominator;
        if included >= min_inclusion {
            ReputationStatus::OK
        } else {
            let diff: u64 = min_inclusion - included;
            if diff <= self.throttling_slack {
                ReputationStatus::Throttled
            } else if diff > self.ban_slack {
                ReputationStatus::Banned
            } else {
                ReputationStatus::Throttled
            }
        }
    }

    /// Counts one more operation seen for `a`, creating its entry if absent.
    /// The counter saturates instead of wrapping.
    pub fn increment_seen(&mut self, a: &Address)
        requires
            old(self).wf(),
        ensures
            final(self).wf(),
            final(self).spec_counters(*a).0 == if old(self).spec_counters(*a).0 < u64::MAX {
                old(self).spec_counters(*a).0 + 1
            } else {
                u64::MAX as int
            },
            final(self).spec_counters(*a).1 == old(self).spec_counters(*a).1,
            forall|b: Address| b != *a ==> final(self).spec_counters(b) == old(self).spec_counters(b),
            final(self).whitelist@ == old(self).whitelist@,
            final(self).blacklist@ == old(self).blacklist@,
            final(self).min_inclusion_denominator == old(self).min_inclusion_denominator,
            final(self).throttling_slack == old(self).throttling_slack,
            final(self).ban_slack == old(self).ban_slack,
            final(self).min_stake == old(self).min_stake,
            final(self).min_unstake_delay == old(self).min_unstake_delay,
    {
        let ghost old_entries = self.entries@;
        match self.find_index(a) {
            Some(i) => {
                proof {
                    lemma_counters_at(self.entries@, *a, i as int);
                }
                let e = self.entries[i];
                let new_seen: u64 = if e.ops_seen < u64::MAX {
                    e.ops_seen + 1
                } else {
                    e.ops_seen
                };
                let new_e = ReputationEntry {
                    address: e.address,
                    ops_seen: new_seen,
                    ops_included: e.ops_included,
                };
                self.entries.set(i, new_e);
                proof {
                    assert(unique_addrs(self.entries@));
                    lemma_counters_at(self.entries@, *a, i as int);
                    assert forall|b: Address| b != *a implies self.spec_counters(b) == counters_of(
                        old_entries,
                        b,
                    ) by {
                        if has_addr(old_entries, b) {
                            let j = choose|j: int|
                                0 <= j < old_entries.len() && old_entries[j].address == b;
                            lemma_counters_at(old_entries, b, j);
                            lemma_counters_at(self.entries@, b, j);
                        } else {
                            assert(!has_addr(self.entries@, b));
                        }
                    }
                }
            },
            None => {
                let new_e = ReputationEntry { address: *a, ops_seen: 1, ops_included: 0 };
                self.entries.push(new_e);
                proof {
                    assert(unique_addrs(self.entries@));
                    lemma_counters_at(self.entries@, *a, old_entries.len() as int);
                    assert(counters_of(old_entries, *a) == (0u64, 0u64));
                    assert forall|b: Address| b != *a implies self.spec_counters(b) == counters_of(
                        old_entries,
                        b,
                    ) by {
                        if has_addr(old_entries, b) {
                            let j = choose|j: int|
                                0 <= j < old_entries.len() && old_entries[j].address == b;
                            lemma_counters_at(old_entries, b, j);
                            lemma_counters_at(self.entries@, b, j);
                        } else {
                            assert(!has_addr(self.entries@, b));
                        }
                    }
                }
            },
        }
    }

    /// Counts one more operation included for `a`, creating its entry if
    /// absent. To keep `ops_seen >= ops_included`, the seen counter is lifted
    /// along when it would fall behind; both saturate instead of wrapping.
    pub fn increment_included(&mut self, a: &Address)
        requires
            old(self).wf(),
        ensures
            final(self).wf(),
            final(self).spec_counters(*a).1 == if old(self).spec_counters(*a).1 < u64::MAX {
                old(self).spec_counters(*a).1 + 1
            } else {
                u64::MAX as int
            },
            final(self).spec_counters(*a).0 == if old(self).spec_counters(*a).0 >= final(self).spec_counters(
                *a,
            ).1 {
                old(self).spec_counters(*a).0 as int
            } else {
                final(self).spec_counters(*a).1 as int
            },
            forall|b: Address| b != *a ==> final(self).spec_counters(b) == old(self).spec_counters(b),
            final(self).whitelist@ == old(self).whitelist@,
            final(self).blacklist@ == old(self).blacklist@,
            final(self).min_inclusion_denominator == old(self).min_inclusion_denominator,
            final(self).throttling_slack == old(self).throttling_slack,
            final(self).ban_slack == old(self).ban_slack,
            final(self).min_stake == old(self).min_stake,
            final(self).min_unstake_delay == old(self).min_unstake_delay,
    {
        let ghost old_entries = self.entries@;
        match self.find_index(a) {
            Some(i) => {
                proof {
                    lemma_counters_at(self.entries@, *a, i as int);
                }
                let e = self.entries[i];
                let new_included: u64 = if e.ops_included < u64::MAX {
                    e.ops_included + 1
                } else {
                    e.ops_included
                };
                let new_seen: u64 = if e.ops_seen >= new_included {
                    e.ops_seen
                } else {
                    new_included
                };
                let new_e = ReputationEntry {
                    address: e.address,
                    ops_seen: new_seen,
                    ops_included: new_included,
                };
                self.entries.set(i, new_e);
                proof {
                    assert(unique_addrs(self.entries@));
                    lemma_counters_at(self.entries@, *a, i as int);
                    assert forall|b: Address| b != *a implies self.spec_counters(b) == counters_of(
                        old_entries,
                        b,
                    ) by {
                        if has_addr(old_entries, b) {
                            let j = choose|j: int|
                                0 <= j < old_entries.len() && old_entries[j].address == b;
                            lemma_counters_at(old_entries, b, j);
                            lemma_counters_at(self.entries@, b, j);
                        } else {
                            assert(!has_addr(self.entries@, b));
                        }
                    }
                }
            },
            None => {
                let new_e = ReputationEntry { address: *a, ops_seen: 1, ops_included: 1 };
                self.entries.push(new_e);
                proof {
                    assert(unique_addrs(self.entries@));
                    lemma_counters_at(self.entries@, *a, old_entries.len() as int);
                    assert(counters_of(old_entries, *a) == (0u64, 0u64));
                    assert forall|b: Address| b != *a implies self.spec_counters(b) == counters_of(
                        old_entries,
                        b,
                    ) by {
                        if has_addr(old_entries, b) {
                            let j = choose|j: int|
                                0 <= j < old_entries.len() && old_entries[j].address == b;
                            lemma_counters_at(old_entries, b, j);
                            lemma_counters_at(self.entries@, b, j);
                        } else {
                            assert(!has_addr(self.entries@, b));
                        }
                    }
                }
            },
        }
    }

    /// Checks stake against the configured minimums.
    pub fn check_stake(&self, info: &StakeInfo) -> (r: Result<(), ReputationError>)
        ensures
            r == self.spec_check_stake(*info),
    {
        if info.stake.is_zero() || info.unstake_delay_sec.is_zero() {
            Err(ReputationError::NotStaked)
        } else if info.stake.lt(&self.min_stake) {
            Err(ReputationError::StakeTooLow)
        } else if info.unstake_delay_sec.lt(&self.min_unstake_delay) {
            Err(ReputationError::UnstakeDelayTooLow)
        } else {
            Ok(())
        }
    }

    /// Replaces the whitelist and blacklist.
    pub fn set_entities(&mut self, whitelist: Vec<Address>, blacklist: Vec<Address>)
        requires
            old(self).wf(),
        ensures
            final(self).wf(),
            final(self).whitelist@ == whitelist@,
            final(self).blacklist@ == blacklist@,
            final(self).entries@ == old(self).entries@,
            final(self).min_inclusion_denominator == old(self).min_inclusion_denominator,
            final(self).throttling_slack == old(self).throttling_slack,
            final(self).ban_slack == old(self).ban_slack,
            final(self).min_stake == old(self).min_stake,
            final(self).min_unstake_delay == old(self).min_unstake_delay,
    {
        self.whitelist = whitelist;
        self.blacklist = blacklist;
    }

    /// All stored entries, in storage order.
    pub fn get_all(&self) -> (r: Vec<ReputationEntry>)
        ensures
            r@ == self.entries@,
    {
        let n: usize = self.entries.len();
        let mut r: Vec<ReputationEntry> = Vec::new();
        let mut i: usize = 0;
        while i < n
            invariant
                i <= n,
                n == self.entries@.len(),
                r@ == self.entries@.subrange(0, i as int),
            decreases n - i,
        {
            r.push(self.entries[i]);
            proof {
                assert(self.entries@.subrange(0, i as int + 1) =~= self.entries@.subrange(
                    0,
                    i as int,
                ).push(self.entries@[i as int]));
            }
            i = i + 1;
        }
        proof {
            assert(self.entries@.subrange(0, n as int) =~= self.entries@);
        }
        r
    }

    /// Replaces all entries. The list must itself be a valid book: unique
    /// addresses, each with `ops_seen >= ops_included`.
    pub fn set(&mut self, list: Vec<ReputationEntry>)
        requires
            old(self).wf(),
            unique_addrs(list@),
            forall|i: int|
                0 <= i < list@.len() ==> (#[trigger] list@[i]).ops_seen >= list@[i].ops_included,
        ensures
            final(self).wf(),
            final(self).entries@ == list@,
            final(self).whitelist@ == old(self).whitelist@,
            final(self).blacklist@ == old(self).blacklist@,
            final(self).min_inclusion_denominator == old(self).min_inclusion_denominator,
            final(self).throttling_slack == old(self).throttling_slack,
            final(self).ban_slack == old(self).ban_slack,
            final(self).min_stake == old(self).min_stake,
            final(self).min_unstake_delay == old(self).min_unstake_delay,
    {
        self.entries = list;
    }

    /// Drops every entry.
    pub fn clear(&mut self)
        requires
            old(self).wf(),
        ensures
            final(self).wf(),
            final(self).entries@.len() == 0,
            final(self).whitelist@ == old(self).whitelist@,
            final(self).blacklist@ == old(self).blacklist@,
    {
        self.entries = Vec::new();
    }

    /// One hourly decay tick: both counters of every entry fall to 23/24ths,
    /// rounded down, and entries whose counters both reach zero are dropped.
    pub fn update_hourly(&mut self)
        requires
            old(self).wf(),
        ensures
            final(self).wf(),
            forall|a: Address| #![all_triggers]
                final(self).spec_counters(a).0 == decayed(old(self).spec_counters(a).0)
                    && final(self).spec_counters(a).1 == decayed(old(self).spec_counters(a).1),
            final(self).whitelist@ == old(self).whitelist@,
            final(self).blacklist@ == old(self).blacklist@,
            final(self).min_inclusion_denominator == old(self).min_inclusion_denominator,
            final(self).throttling_slack == old(self).throttling_slack,
            final(self).ban_slack == old(self).ban_slack,
            final(self).min_stake == old(self).min_stake,
            final(self).min_unstake_delay == old(self).min_unstake_delay,
    {
        let ghost old_entries = self.entries@;
        let n: usize = self.entries.len();
        let mut r: Vec<ReputationEntry> = Vec::new();
        let mut i: usize = 0;
        while i < n
            invariant
                i <= n,
                n == old_entries.len(),
                self.entries@ == old_entries,
                unique_addrs(old_entries),
                forall|k: int|
                    0 <= k < old_entries.len() ==> (#[trigger] old_entries[k]).ops_seen
                        >= old_entries[k].ops_included,
                // every kept entry is the decay of a processed one
                forall|k: int| #![trigger r@[k]]
                    0 <= k < r@.len() ==> exists|j: int|
                        0 <= j < i && (#[trigger] old_entries[j]).address == r@[k].address
                            && r@[k].ops_seen == decayed(old_entries[j].ops_seen)
                            && r@[k].ops_included == decayed(old_entries[j].ops_included),
                // every processed entry that survives decay is kept
                forall|j: int| #![trigger old_entries[j]]
                    0 <= j < i && (decayed(old_entries[j].ops_seen) > 0 || decayed(
                        old_entries[j].ops_included,
                    ) > 0) ==> exists|k: int|
                        0 <= k < r@.len() && (#[trigger] r@[k]).address == old_entries[j].address
                            && r@[k].ops_seen == decayed(old_entries[j].ops_seen)
                            && r@[k].ops_included == decayed(old_entries[j].ops_included),
                // nothing not yet processed (or fully decayed) is kept
                forall|j: int| #![trigger old_entries[j]]
                    0 <= j < i && decayed(old_entries[j].ops_seen) == 0 && decayed(
                        old_entries[j].ops_included,
                    ) == 0 ==> !has_addr(r@, old_entries[j].address),
                forall|a: Address| has_addr(r@, a) ==> has_addr(old_entries.subrange(0, i as int), a),
                unique_addrs(r@),
            decreases n - i,
        {
            let e = self.entries[i];
            proof {
                vstd::arithmetic::div_mod::lemma_div_multiples_vanish(
                    e.ops_seen as int,
                    24,
                );
                assert(e.ops_seen as int * 23 <= e.ops_seen as int * 24) by (nonlinear_arith);
                vstd::arithmetic::div_mod::lemma_div_is_ordered(
                    e.ops_seen as int * 23,
                    e.ops_seen as int * 24,
                    24,
                );
                vstd::arithmetic::div_mod::lemma_div_multiples_vanish(
                    e.ops_included as int,
                    24,
                );
                assert(e.ops_included as int * 23 <= e.ops_included as int * 24)
                    by (nonlinear_arith);
                vstd::arithmetic::div_mod::lemma_div_is_ordered(
                    e.ops_included as int * 23,
                    e.ops_included as int * 24,
                    24,
                );
                assert(e.ops_included as int * 23 <= e.ops_seen as int * 23) by (nonlinear_arith)
                    requires
                        e.ops_included <= e.ops_seen,
                ;
                vstd::arithmetic::div_mod::lemma_div_is_ordered(
                    e.ops_included as int * 23,
                    e.ops_seen as int * 23,
                    24,
                );
            }
            let new_seen: u64 = ((e.ops_seen as u128) * 23 / 24) as u64;
            let new_included: u64 = ((e.ops_included as u128) * 23 / 24) as u64;
            if new_seen > 0 || new_included > 0 {
                let ghost r_before = r@;
                r.push(
                    ReputationEntry {
                        address: e.address,
                        ops_seen: new_seen,
                        ops_included: new_included,
                    },
                );
                proof {
                    // kept entries still come from processed ones
                    assert forall|k: int| #![trigger r@[k]] 0 <= k < r@.len() implies exists|j: int|
                        0 <= j < i + 1 && (#[trigger] old_entries[j]).address == r@[k].address
                            && r@[k].ops_seen == decayed(old_entries[j].ops_seen)
                            && r@[k].ops_included == decayed(old_entries[j].ops_included) by {
                        if k < r_before.len() {
                            assert(r@[k] == r_before[k]);
                            let j = choose|j: int|
                                0 <= j < i && (#[trigger] old_entries[j]).address
                                    == r_before[k].address && r_before[k].ops_seen == decayed(
                                    old_entries[j].ops_seen,
                                ) && r_before[k].ops_included == decayed(
                                    old_entries[j].ops_included,
                                );
                            assert(0 <= j < i + 1 && old_entries[j].address == r@[k].address
                                && r@[k].ops_seen == decayed(old_entries[j].ops_seen)
                                && r@[k].ops_included == decayed(old_entries[j].ops_included));
                        } else {
                            assert(k == r@.len() - 1);
                            assert(old_entries[i as int].address == r@[k].address
                                && r@[k].ops_seen == decayed(old_entries[i as int].ops_seen)
                                && r@[k].ops_included == decayed(
                                old_entries[i as int].ops_included,
                            ));
                        }
                    }
                    // surviving processed entries are still kept
                    assert forall|j: int| #![trigger old_entries[j]]
                        0 <= j < i + 1 && (decayed(old_entries[j].ops_seen) > 0 || decayed(
                            old_entries[j].ops_included,
                        ) > 0) implies exists|k: int|
                        0 <= k < r@.len() && (#[trigger] r@[k]).address == old_entries[j].address
                            && r@[k].ops_seen == decayed(old_entries[j].ops_seen)
                            && r@[k].ops_included == decayed(old_entries[j].ops_included) by {
                        if j < i {
                            let k = choose|k: int|
                                0 <= k < r_before.len() && (#[trigger] r_before[k]).address
                                    == old_entries[j].address && r_before[k].ops_seen == decayed(
                                    old_entries[j].ops_seen,
                                ) && r_before[k].ops_included == decayed(
                                    old_entries[j].ops_included,
                                );
                            assert(r@[k] == r_before[k]);
                            assert(0 <= k < r@.len() && r@[k].address == old_entries[j].address
                                && r@[k].ops_seen == decayed(old_entries[j].ops_seen)
                                && r@[k].ops_included == decayed(old_entries[j].ops_included));
                        } else {
                            let k: int = r@.len() - 1;
                            assert(0 <= k < r@.len() && r@[k].address == old_entries[j].address
                                && r@[k].ops_seen == decayed(old_entries[j].ops_seen)
                                && r@[k].ops_included == decayed(old_entries[j].ops_included));
                        }
                    }
                    assert forall|a: Address| has_addr(r@, a) implies has_addr(
                        old_entries.subrange(0, i as int + 1),
                        a,
                    ) by {
                        let k = choose|k: int| 0 <= k < r@.len() && r@[k].address == a;
                        if k < r_before.len() {
                            assert(has_addr(r_before, a));
                            let j = choose|j: int|
                                0 <= j < old_entries.subrange(0, i as int).len()
                                    && old_entries.subrange(0, i as int)[j].address == a;
                            assert(old_entries.subrange(0, i as int + 1)[j].address == a);
                        } else {
                            assert(old_entries.subrange(0, i as int + 1)[i as int].address == a);
                        }
                    }
                    assert(unique_addrs(r@)) by {
                        assert forall|x: int, y: int| 0 <= x < y < r@.len() implies (
                        #[trigger] r@[x]).address != (#[trigger] r@[y]).address by {
                            if y == r@.len() - 1 {
                                if has_addr(r_before, r@[y].address) {
                                    assert(has_addr(
                                        old_entries.subrange(0, i as int),
                                        r@[y].address,
                                    ));
                                    let j = choose|j: int|
                                        0 <= j < old_entries.subrange(0, i as int).len()
                                            && old_entries.subrange(0, i as int)[j].address == r@[
                                        y].address;
                                    assert(old_entries[j].address == old_entries[i as int].address);
                                    assert(false);
                                }
                                assert(r@[x].address != r@[y].address) by {
                                    if r@[x].address == r@[y].address {
                                        assert(has_addr(r_before, r@[y].address));
                                    }
                                }
                            }
                        }
                    }
                }
            } else {
                proof {
                    assert forall|a: Address| has_addr(r@, a) implies has_addr(
                        old_entries.subrange(0, i as int + 1),
                        a,
                    ) by {
                        assert(has_addr(old_entries.subrange(0, i as int), a));
                        let j = choose|j: int|
                            0 <= j < old_entries.subrange(0, i as int).len() && old_entries.subrange(
                                0,
                                i as int,
                            )[j].address == a;
                        assert(old_entries.subrange(0, i as int + 1)[j].address == a);
                    }
                    // the dropped entry's address is not in r: it was not there before
                    assert forall|j: int|
                        0 <= j < i + 1 && decayed(old_entries[j].ops_seen) == 0 && decayed(
                            old_entries[j].ops_included,
                        ) == 0 implies !has_addr(r@, old_entries[j].address) by {
                        if j < i {
                        } else {
                            if has_addr(r@, old_entries[j].address) {
                                assert(has_addr(
                                    old_entries.subrange(0, i as int),
                                    old_entries[j].address,
                                ));
                                let m = choose|m: int|
                                    0 <= m < old_entries.subrange(0, i as int).len()
                                        && old_entries.subrange(0, i as int)[m].address
                                        == old_entries[j].address;
                                assert(old_entries[m].address == old_entries[i as int].address);
                                assert(false);
                            }
                        }
                    }
                }
            }
            i = i + 1;
        }
        self.entries = r;
        proof {
            assert(old_entries.subrange(0, n as int) =~= old_entries);
            assert forall|a: Address| #![all_triggers]
                self.spec_counters(a).0 == decayed(counters_of(old_entries, a).0)
                    && self.spec_counters(a).1 == decayed(
                counters_of(old_entries, a).1,
            ) by {
                if has_addr(old_entries, a) {
                    let j = choose|j: int|
                        0 <= j < old_entries.len() && old_entries[j].address == a;
                    lemma_counters_at(old_entries, a, j);
                    if decayed(old_entries[j].ops_seen) > 0 || decayed(old_entries[j].ops_included)
                        > 0 {
                        let k = choose|k: int|
                            0 <= k < self.entries@.len() && self.entries@[k].address
                                == old_entries[j].address && self.entries@[k].ops_seen == decayed(
                                old_entries[j].ops_seen,
                            ) && self.entries@[k].ops_included == decayed(
                                old_entries[j].ops_included,
                            );
                        lemma_counters_at(self.entries@, a, k);
                    } else {
                        assert(!has_addr(self.entries@, a));
                    }
                } else {
                    if has_addr(self.entries@, a) {
                        let k = choose|k: int|
                            0 <= k < self.entries@.len() && self.entries@[k].address == a;
                        let j = choose|j: int|
                            0 <= j < i && old_entries[j].address == self.entries@[k].address
                                && self.entries@[k].ops_seen == decayed(old_entries[j].ops_seen)
                                && self.entries@[k].ops_included == decayed(
                                old_entries[j].ops_included,
                            );
                        assert(has_addr(old_entries, a));
                        assert(false);
                    }
                }
            }
        }
    }
}

} // verus!
