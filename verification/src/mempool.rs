//! The mempool: the pool of pending user operations with its indices.
//!
//! The primary store owns the entries; every index (per sender, per entity)
//! is derived from it, so a hash obtained from an index always resolves.
//! The store keeps at most one entry per (sender, nonce), replaces an entry
//! only when both fee fields grow by the required percentage, and caps how
//! many operations an unstaked sender may hold.

use crate::types::{Address, CodeHash, U256, UserOperationHash};
use crate::user_operation::{UserOperation, UserOperationView};
use vstd::prelude::*;

verus! {

/// One admitted user operation with what admission derived for it.
#[derive(Debug)]
pub struct MempoolEntry {
    pub uo: UserOperation,
    pub hash: UserOperationHash,
    pub pre_fund: U256,
    pub verification_gas_limit: U256,
    pub code_hashes: Vec<CodeHash>,
}

/// The mathematical shape of a stored entry.
pub ghost struct MempoolEntryView {
    pub uo: UserOperationView,
    pub hash: UserOperationHash,
    pub pre_fund: U256,
    pub verification_gas_limit: U256,
    pub code_hashes: Seq<CodeHash>,
}

impl View for MempoolEntry {
    type V = MempoolEntryView;

    open spec fn view(&self) -> MempoolEntryView {
        MempoolEntryView {
            uo: self.uo@,
            hash: self.hash,
            pre_fund: self.pre_fund,
            verification_gas_limit: self.verification_gas_limit,
            code_hashes: self.code_hashes@,
        }
    }
}

#[derive(Clone, Copy, Debug, PartialEq, Eq, Structural)]
pub enum MempoolError {
    /// A same-(sender, nonce) entry exists and the new fees do not clear the
    /// required bump; the fields carry the smallest acceptable fees (capped
    /// at the largest 256-bit value).
    ReplacementUnderpriced { needed_max_fee: U256, needed_max_priority_fee: U256 },
    /// The entry's hash is already held by an entry of another (sender, nonce).
    NonceConflict,
    NotFound,
    /// The sender is not staked and already holds the allowed number of
    /// operations.
    SenderOverLimit,
}

/// The smallest fee accepted when replacing an entry whose fee was `v`:
/// `v` raised by `GAS_INCREASE_PERC` percent, rounded down.
pub open spec fn bump_threshold(v: int) -> int {
    v + v * (crate::GAS_INCREASE_PERC as int) / 100
}

/// Whether `new` may replace `prev`: both fee fields clear the bump.
pub open spec fn replacement_ok(prev: UserOperationView, new: UserOperationView) -> bool {
    &&& new.max_fee_per_gas.val() >= bump_threshold(prev.max_fee_per_gas.val())
    &&& new.max_priority_fee_per_gas.val() >= bump_threshold(prev.max_priority_fee_per_gas.val())
}

pub open spec fn has_hash(s: Seq<MempoolEntryView>, h: UserOperationHash) -> bool {
    exists|i: int| 0 <= i < s.len() && s[i].hash == h
}

pub open spec fn hash_index(s: Seq<MempoolEntryView>, h: UserOperationHash) -> int {
    choose|i: int| 0 <= i < s.len() && s[i].hash == h
}

/// The stored entry carrying hash `h`.
pub open spec fn entry_for(s: Seq<MempoolEntryView>, h: UserOperationHash) -> MempoolEntryView {
    s[hash_index(s, h)]
}

pub open spec fn has_sender_nonce(s: Seq<MempoolEntryView>, sender: Address, nonce: U256) -> bool {
    exists|i: int| 0 <= i < s.len() && s[i].uo.sender == sender && s[i].uo.nonce == nonce
}

pub open spec fn sn_index(s: Seq<MempoolEntryView>, sender: Address, nonce: U256) -> int {
    choose|i: int| 0 <= i < s.len() && s[i].uo.sender == sender && s[i].uo.nonce == nonce
}

/// The stored entry of one (sender, nonce) pair.
pub open spec fn entry_by_sender_nonce(
    s: Seq<MempoolEntryView>,
    sender: Address,
    nonce: U256,
) -> MempoolEntryView {
    s[sn_index(s, sender, nonce)]
}

pub open spec fn unique_hashes(s: Seq<MempoolEntryView>) -> bool {
    forall|i: int, j: int| 0 <= i < j < s.len() ==> (#[trigger] s[i]).hash != (#[trigger] s[j]).hash
}

pub open spec fn unique_sender_nonce(s: Seq<MempoolEntryView>) -> bool {
    forall|i: int, j: int|
        0 <= i < j < s.len() ==> !((#[trigger] s[i]).uo.sender == (#[trigger] s[j]).uo.sender
            && s[i].uo.nonce == s[j].uo.nonce)
}

/// How many stored operations name `a` as their sender.
pub open spec fn count_by_sender(s: Seq<MempoolEntryView>, a: Address) -> int
    decreases s.len(),
{
    if s.len() == 0 {
        0
    } else {
        count_by_sender(s.drop_last(), a) + if s.last().uo.sender == a {
            1int
        } else {
            0int
        }
    }
}

pub proof fn lemma_count_push(s: Seq<MempoolEntryView>, e: MempoolEntryView, a: Address)
    ensures
        count_by_sender(s.push(e), a) == count_by_sender(s, a) + if e.uo.sender == a {
            1int
        } else {
            0int
        },
{
    assert(s.push(e).drop_last() =~= s);
}

pub proof fn lemma_count_remove(s: Seq<MempoolEntryView>, a: Address, i: int)
    requires
        0 <= i < s.len(),
    ensures
        count_by_sender(s, a) == count_by_sender(s.remove(i), a) + if s[i].uo.sender == a {
            1int
        } else {
            0int
        },
    decreases s.len(),
{
    if i == s.len() - 1 {
        assert(s.remove(i) =~= s.drop_last());
    } else {
        assert(s.remove(i).drop_last() =~= s.drop_last().remove(i));
        assert(s.remove(i).last() == s.last());
        lemma_count_remove(s.drop_last(), a, i);
    }
}

pub proof fn lemma_count_nonneg(s: Seq<MempoolEntryView>, a: Address)
    ensures
        0 <= count_by_sender(s, a) <= s.len(),
    decreases s.len(),
{
    if s.len() > 0 {
        lemma_count_nonneg(s.drop_last(), a);
    }
}


/// `bump_threshold` with the percentage fixed at ten is a tenth on top.
pub proof fn lemma_bump_is_tenth(v: int)
    requires
        v >= 0,
    ensures
        bump_threshold(v) == v + v / 10,
{
    vstd::arithmetic::div_mod::lemma_div_denominator(v * 10, 10, 10);
    vstd::arithmetic::div_mod::lemma_div_multiples_vanish(v, 10);
    assert(v * 10 == 10 * v) by (nonlinear_arith);
}

/// Mapping entry views commutes with push.
pub proof fn lemma_view_push(pre: Seq<MempoolEntry>, e: MempoolEntry)
    ensures
        pre.push(e).map_values(|x: MempoolEntry| x@) == pre.map_values(|x: MempoolEntry| x@).push(
            e@,
        ),
{
    assert(pre.push(e).map_values(|x: MempoolEntry| x@) =~= pre.map_values(
        |x: MempoolEntry| x@,
    ).push(e@));
}

/// Mapping entry views commutes with remove.
pub proof fn lemma_view_remove(pre: Seq<MempoolEntry>, i: int)
    requires
        0 <= i < pre.len(),
    ensures
        pre.remove(i).map_values(|x: MempoolEntry| x@) == pre.map_values(
            |x: MempoolEntry| x@,
        ).remove(i),
{
    pre.remove_ensures(i);
    pre.map_values(|x: MempoolEntry| x@).remove_ensures(i);
    assert(pre.remove(i).map_values(|x: MempoolEntry| x@) =~= pre.map_values(
        |x: MempoolEntry| x@,
    ).remove(i));
}

/// Mapping entry views commutes with update.
pub proof fn lemma_view_update(pre: Seq<MempoolEntry>, i: int, e: MempoolEntry)
    requires
        0 <= i < pre.len(),
    ensures
        pre.update(i, e).map_values(|x: MempoolEntry| x@) == pre.map_values(
            |x: MempoolEntry| x@,
        ).update(i, e@),
{
    assert(pre.update(i, e).map_values(|x: MempoolEntry| x@) =~= pre.map_values(
        |x: MempoolEntry| x@,
    ).update(i, e@));
}

/// Removing an entry keeps both uniqueness properties.
pub proof fn lemma_unique_remove(s: Seq<MempoolEntryView>, i: int)
    requires
        0 <= i < s.len(),
        unique_hashes(s),
        unique_sender_nonce(s),
    ensures
        unique_hashes(s.remove(i)),
        unique_sender_nonce(s.remove(i)),
        forall|k: int| 0 <= k < s.len() - 1 ==> #[trigger] s.remove(i)[k] == s[if k < i {
            k
        } else {
            k + 1
        }],
{
    s.remove_ensures(i);
    let t = s.remove(i);
    assert forall|x: int, y: int| 0 <= x < y < t.len() implies (#[trigger] t[x]).hash != (
    #[trigger] t[y]).hash && !(t[x].uo.sender == t[y].uo.sender && t[x].uo.nonce
        == t[y].uo.nonce) by {
        let ox: int = if x < i { x } else { x + 1 };
        let oy: int = if y < i { y } else { y + 1 };
        assert(t[x] == s[ox]);
        assert(t[y] == s[oy]);
        assert(s[ox].hash != s[oy].hash);
        assert(!(s[ox].uo.sender == s[oy].uo.sender && s[ox].uo.nonce == s[oy].uo.nonce));
    }
}

/// With unique hashes, any matching index is the chosen one.
pub proof fn lemma_hash_index_is(s: Seq<MempoolEntryView>, h: UserOperationHash, i: int)
    requires
        unique_hashes(s),
        0 <= i < s.len(),
        s[i].hash == h,
    ensures
        hash_index(s, h) == i,
        entry_for(s, h) == s[i],
{
    assert(has_hash(s, h));
    let j = hash_index(s, h);
    if i != j {
        if i < j {
            assert(s[i].hash != s[j].hash);
        } else {
            assert(s[j].hash != s[i].hash);
        }
    }
}

/// With one entry per (sender, nonce), any matching index is the chosen one.
pub proof fn lemma_sn_index_is(s: Seq<MempoolEntryView>, sender: Address, nonce: U256, i: int)
    requires
        unique_sender_nonce(s),
        0 <= i < s.len(),
        s[i].uo.sender == sender,
        s[i].uo.nonce == nonce,
    ensures
        sn_index(s, sender, nonce) == i,
        entry_by_sender_nonce(s, sender, nonce) == s[i],
{
    assert(has_sender_nonce(s, sender, nonce));
    let j = sn_index(s, sender, nonce);
    if i != j {
        if i < j {
            assert(!(s[i].uo.sender == s[j].uo.sender && s[i].uo.nonce == s[j].uo.nonce));
        } else {
            assert(!(s[j].uo.sender == s[i].uo.sender && s[j].uo.nonce == s[i].uo.nonce));
        }
    }
}

/// Whether `h` is the hash of a stored operation sent by `a`.
pub open spec fn is_sender_hash(
    s: Seq<MempoolEntryView>,
    a: Address,
    h: UserOperationHash,
) -> bool {
    exists|i: int| 0 <= i < s.len() && (#[trigger] s[i]).uo.sender == a && s[i].hash == h
}

/// The pool of one entry point.
pub struct Mempool {
    pub entries: Vec<MempoolEntry>,
    pub max_uos_per_sender: usize,
}

impl Mempool {
    /// The entries as mathematical values, in storage order.
    pub open spec fn view_entries(self) -> Seq<MempoolEntryView> {
        self.entries@.map_values(|e: MempoolEntry| e@)
    }

    /// Hashes are unique and each (sender, nonce) pair is held at most once.
    pub open spec fn wf(self) -> bool {
        &&& unique_hashes(self.view_entries())
        &&& unique_sender_nonce(self.view_entries())
    }

    pub fn new(max_uos_per_sender: usize) -> (r: Mempool)
        ensures
            r.wf(),
            r.view_entries().len() == 0,
            r.max_uos_per_sender == max_uos_per_sender,
    {
        Mempool { entries: Vec::new(), max_uos_per_sender }
    }

    pub fn len(&self) -> (r: usize)
        ensures
            r == self.view_entries().len(),
    {
        self.entries.len()
    }

    fn find_by_hash(&self, h: &UserOperationHash) -> (r: Option<usize>)
        ensures
            match r {
                Some(i) => i < self.view_entries().len() && self.view_entries()[i as int].hash
                    == *h,
                None => !has_hash(self.view_entries(), *h),
            },
    {
        let n: usize = self.entries.len();
        let mut i: usize = 0;
        while i < n
            invariant
                i <= n,
                n == self.view_entries().len(),
                forall|j: int| 0 <= j < i ==> (#[trigger] self.view_entries()[j]).hash != *h,
            decreases n - i,
        {
            if self.entries[i].hash == *h {
                return Some(i);
            }
            i = i + 1;
        }
        None
    }

    fn find_by_sender_nonce(&self, sender: &Address, nonce: &U256) -> (r: Option<usize>)
        ensures
            match r {
                Some(i) => i < self.view_entries().len() && self.view_entries()[i as int].uo.sender
                    == *sender && self.view_entries()[i as int].uo.nonce == *nonce,
                None => !has_sender_nonce(self.view_entries(), *sender, *nonce),
            },
    {
        let n: usize = self.entries.len();
        let mut i: usize = 0;
        while i < n
            invariant
                i <= n,
                n == self.view_entries().len(),
                forall|j: int|
                    0 <= j < i ==> !((#[trigger] self.view_entries()[j]).uo.sender == *sender
                        && self.view_entries()[j].uo.nonce == *nonce),
            decreases n - i,
        {
            if self.entries[i].uo.sender == *sender && self.entries[i].uo.nonce == *nonce {
                return Some(i);
            }
            i = i + 1;
        }
        None
    }

    /// How many stored operations the sender `a` holds.
    pub fn get_number_by_sender(&self, a: &Address) -> (r: usize)
        ensures
            r == count_by_sender(self.view_entries(), *a),
    {
        let n: usize = self.entries.len();
        let mut count: usize = 0;
        let mut i: usize = 0;
        proof {
            assert(self.view_entries().subrange(0, 0) =~= Seq::<MempoolEntryView>::empty());
        }
        while i < n
            invariant
                i <= n,
                n == self.view_entries().len(),
                count == count_by_sender(self.view_entries().subrange(0, i as int), *a),
                count <= i,
            decreases n - i,
        {
            proof {
                let s = self.view_entries();
                assert(s.subrange(0, i as int + 1).drop_last() =~= s.subrange(0, i as int));
                assert(s.subrange(0, i as int + 1).last() == s[i as int]);
            }
            if self.entries[i].uo.sender == *a {
                count = count + 1;
            }
            i = i + 1;
        }
        proof {
            assert(self.view_entries().subrange(0, n as int) =~= self.view_entries());
        }
        count
    }

    /// The stored entry with hash `h`, when it exists.
    pub fn get(&self, h: &UserOperationHash) -> (r: Option<MempoolEntry>)
        requires
            self.wf(),
        ensures
            match r {
                Some(e) => has_hash(self.view_entries(), *h) && e@ == entry_for(
                    self.view_entries(),
                    *h,
                ),
                None => !has_hash(self.view_entries(), *h),
            },
    {
        match self.find_by_hash(h) {
            Some(i) => {
                let e = self.clone_entry(i);
                proof {
                    let s = self.view_entries();
                    assert(has_hash(s, *h));
                    lemma_hash_index_is(s, *h, i as int);
                }
                Some(e)
            },
            None => None,
        }
    }

    fn clone_entry(&self, i: usize) -> (r: MempoolEntry)
        requires
            i < self.view_entries().len(),
        ensures
            r@ == self.view_entries()[i as int],
    {
        let e = &self.entries[i];
        let mut hashes: Vec<CodeHash> = Vec::new();
        let m: usize = e.code_hashes.len();
        let mut k: usize = 0;
        while k < m
            invariant
                k <= m,
                m == e.code_hashes@.len(),
                hashes@ == e.code_hashes@.subrange(0, k as int),
            decreases m - k,
        {
            hashes.push(e.code_hashes[k]);
            proof {
                assert(e.code_hashes@.subrange(0, k as int + 1) =~= e.code_hashes@.subrange(
                    0,
                    k as int,
                ).push(e.code_hashes@[k as int]));
            }
            k = k + 1;
        }
        proof {
            assert(e.code_hashes@.subrange(0, m as int) =~= e.code_hashes@);
        }
        MempoolEntry {
            uo: e.uo.clone(),
            hash: e.hash,
            pre_fund: e.pre_fund,
            verification_gas_limit: e.verification_gas_limit,
            code_hashes: hashes,
        }
    }

    /// The stored operation sharing (sender, nonce) with `uo`, if any:
    /// the entry a successful admission of `uo` would replace.
    pub fn get_prev_by_sender(&self, uo: &UserOperation) -> (r: Option<UserOperation>)
        requires
            self.wf(),
        ensures
            match r {
                Some(p) => has_sender_nonce(self.view_entries(), uo@.sender, uo@.nonce) && p@
                    == entry_by_sender_nonce(self.view_entries(), uo@.sender, uo@.nonce).uo,
                None => !has_sender_nonce(self.view_entries(), uo@.sender, uo@.nonce),
            },
    {
        match self.find_by_sender_nonce(&uo.sender, &uo.nonce) {
            Some(i) => {
                proof {
                    lemma_sn_index_is(self.view_entries(), uo@.sender, uo@.nonce, i as int);
                }
                Some(self.entries[i].uo.clone())
            },
            None => None,
        }
    }

    /// Admits `entry`, replacing a same-(sender, nonce) predecessor when the
    /// fee bump allows it, and holding an unstaked sender to its cap.
    pub fn add(&mut self, entry: MempoolEntry, sender_staked: bool) -> (r: Result<
        UserOperationHash,
        MempoolError,
    >)
        requires
            old(self).wf(),
        ensures
            final(self).wf(),
            final(self).max_uos_per_sender == old(self).max_uos_per_sender,
            match r {
                Ok(h) => h == entry@.hash && if has_sender_nonce(
                    old(self).view_entries(),
                    entry@.uo.sender,
                    entry@.uo.nonce,
                ) {
                    replacement_ok(
                        entry_by_sender_nonce(
                            old(self).view_entries(),
                            entry@.uo.sender,
                            entry@.uo.nonce,
                        ).uo,
                        entry@.uo,
                    ) && final(self).view_entries() == old(self).view_entries().remove(
                        sn_index(old(self).view_entries(), entry@.uo.sender, entry@.uo.nonce),
                    ).push(entry@) && count_by_sender(final(self).view_entries(), entry@.uo.sender)
                        == count_by_sender(old(self).view_entries(), entry@.uo.sender)
                } else {
                    final(self).view_entries() == old(self).view_entries().push(entry@) && (
                    !sender_staked ==> count_by_sender(old(self).view_entries(), entry@.uo.sender)
                        < old(self).max_uos_per_sender) && count_by_sender(
                        final(self).view_entries(),
                        entry@.uo.sender,
                    ) == count_by_sender(old(self).view_entries(), entry@.uo.sender) + 1
                },
                Err(e) => final(self).view_entries() == old(self).view_entries() && match e {
                    MempoolError::ReplacementUnderpriced { needed_max_fee, needed_max_priority_fee } => {
                        &&& has_sender_nonce(
                            old(self).view_entries(),
                            entry@.uo.sender,
                            entry@.uo.nonce,
                        )
                        &&& !replacement_ok(
                            entry_by_sender_nonce(
                                old(self).view_entries(),
                                entry@.uo.sender,
                                entry@.uo.nonce,
                            ).uo,
                            entry@.uo,
                        )
                        &&& needed_max_fee.val() == needed_fee_spec(
                            entry_by_sender_nonce(
                                old(self).view_entries(),
                                entry@.uo.sender,
                                entry@.uo.nonce,
                            ).uo.max_fee_per_gas.val(),
                        )
                        &&& needed_max_priority_fee.val() == needed_fee_spec(
                            entry_by_sender_nonce(
                                old(self).view_entries(),
                                entry@.uo.sender,
                                entry@.uo.nonce,
                            ).uo.max_priority_fee_per_gas.val(),
                        )
                    },
                    MempoolError::NonceConflict => exists|j: int|
                        0 <= j < old(self).view_entries().len() && (#[trigger] old(
                            self,
                        ).view_entries()[j]).hash == entry@.hash && !(old(
                            self,
                        ).view_entries()[j].uo.sender == entry@.uo.sender && old(
                            self,
                        ).view_entries()[j].uo.nonce == entry@.uo.nonce),
                    MempoolError::SenderOverLimit => {
                        &&& !has_sender_nonce(
                            old(self).view_entries(),
                            entry@.uo.sender,
                            entry@.uo.nonce,
                        )
                        &&& !sender_staked
                        &&& count_by_sender(old(self).view_entries(), entry@.uo.sender) >= old(
                            self,
                        ).max_uos_per_sender
                    },
                    MempoolError::NotFound => false,
                },
            },
    {
        let ghost old_view = self.view_entries();
        let sender: Address = entry.uo.sender;
        let nonce: U256 = entry.uo.nonce;
        let h: UserOperationHash = entry.hash;
        match self.find_by_sender_nonce(&sender, &nonce) {
            Some(i) => {
                proof {
                    lemma_sn_index_is(old_view, sender, nonce, i as int);
                }
                let prev_max: U256 = self.entries[i].uo.max_fee_per_gas;
                let prev_prio: U256 = self.entries[i].uo.max_priority_fee_per_gas;
                proof {
                    crate::types::lemma_u256_bound(prev_max);
                    crate::types::lemma_u256_bound(prev_prio);
                    crate::types::lemma_u256_bound(entry.uo.max_fee_per_gas);
                    crate::types::lemma_u256_bound(entry.uo.max_priority_fee_per_gas);
                    lemma_bump_is_tenth(prev_max.val());
                    lemma_bump_is_tenth(prev_prio.val());
                }
                let tenth_max = prev_max.div_small(10);
                let tenth_prio = prev_prio.div_small(10);
                let ok_max: bool = match prev_max.checked_add(&tenth_max) {
                    Some(t) => t.le(&entry.uo.max_fee_per_gas),
                    None => false,
                };
                let ok_prio: bool = match prev_prio.checked_add(&tenth_prio) {
                    Some(t) => t.le(&entry.uo.max_priority_fee_per_gas),
                    None => false,
                };
                if !(ok_max && ok_prio) {
                    let needed_max_fee = prev_max.saturating_add(&tenth_max);
                    let needed_max_priority_fee = prev_prio.saturating_add(&tenth_prio);
                    return Err(
                        MempoolError::ReplacementUnderpriced {
                            needed_max_fee,
                            needed_max_priority_fee,
                        },
                    );
                }
                match self.find_by_hash(&h) {
                    Some(j) => {
                        if j != i {
                            return Err(MempoolError::NonceConflict);
                        }
                    },
                    None => {},
                }
                proof {
                    lemma_view_remove(self.entries@, i as int);
                    lemma_unique_remove(old_view, i as int);
                    lemma_count_remove(old_view, sender, i as int);
                }
                self.entries.remove(i);
                let ghost mid_view = self.view_entries();
                proof {
                    lemma_view_push(self.entries@, entry);
                    lemma_count_push(mid_view, entry@, sender);
                    // the removed sequence holds neither the hash nor the pair
                    assert forall|k: int| 0 <= k < mid_view.len() implies (#[trigger] mid_view[k]).hash
                        != entry@.hash && !(mid_view[k].uo.sender == sender && mid_view[k].uo.nonce
                        == nonce) by {
                        let o: int = if k < i { k } else { k + 1 };
                        assert(mid_view[k] == old_view[o]);
                        if old_view[o].hash == entry@.hash {
                            if o < i {
                                assert(old_view[o].hash != old_view[i as int].hash);
                                assert(has_hash(old_view, entry@.hash));
                            } else {
                                assert(old_view[i as int].hash != old_view[o].hash);
                                assert(has_hash(old_view, entry@.hash));
                            }
                        }
                    }
                }
                self.entries.push(entry);
                proof {
                    let newv = self.view_entries();
                    assert(newv == mid_view.push(entry@));
                    assert forall|x: int, y: int| 0 <= x < y < newv.len() implies (
                    #[trigger] newv[x]).hash != (#[trigger] newv[y]).hash && !(newv[x].uo.sender
                        == newv[y].uo.sender && newv[x].uo.nonce == newv[y].uo.nonce) by {
                        if y == newv.len() - 1 {
                            assert(newv[x] == mid_view[x]);
                            assert(newv[y] == entry@);
                        } else {
                            assert(newv[x] == mid_view[x]);
                            assert(newv[y] == mid_view[y]);
                        }
                    }
                }
                Ok(h)
            },
            None => {
                match self.find_by_hash(&h) {
                    Some(j) => {
                        proof {
                            let s = old_view;
                            assert(s[j as int].hash == entry@.hash && !(s[j as int].uo.sender
                                == entry@.uo.sender && s[j as int].uo.nonce == entry@.uo.nonce));
                        }
                        return Err(MempoolError::NonceConflict);
                    },
                    None => {},
                }
                if !sender_staked {
                    let c: usize = self.get_number_by_sender(&sender);
                    proof {
                        lemma_count_nonneg(old_view, sender);
                    }
                    if c >= self.max_uos_per_sender {
                        return Err(MempoolError::SenderOverLimit);
                    }
                }
                proof {
                    lemma_view_push(self.entries@, entry);
                    lemma_count_push(old_view, entry@, sender);
                }
                self.entries.push(entry);
                proof {
                    let newv = self.view_entries();
                    assert(newv == old_view.push(entry@));
                    assert forall|x: int, y: int| 0 <= x < y < newv.len() implies (
                    #[trigger] newv[x]).hash != (#[trigger] newv[y]).hash && !(newv[x].uo.sender
                        == newv[y].uo.sender && newv[x].uo.nonce == newv[y].uo.nonce) by {
                        if y == newv.len() - 1 {
                            assert(newv[x] == old_view[x]);
                            assert(newv[y] == entry@);
                            if old_view[x].hash == entry@.hash {
                                assert(has_hash(old_view, entry@.hash));
                            }
                            if old_view[x].uo.sender == entry@.uo.sender && old_view[x].uo.nonce
                                == entry@.uo.nonce {
                                assert(has_sender_nonce(old_view, entry@.uo.sender, entry@.uo.nonce));
                            }
                        } else {
                            assert(newv[x] == old_view[x]);
                            assert(newv[y] == old_view[y]);
                        }
                    }
                }
                Ok(h)
            },
        }
    }

    /// Removes the entry with hash `h` and prunes it from every index.
    pub fn remove(&mut self, h: &UserOperationHash) -> (r: Result<(), MempoolError>)
        requires
            old(self).wf(),
        ensures
            final(self).wf(),
            final(self).max_uos_per_sender == old(self).max_uos_per_sender,
            match r {
                Ok(()) => has_hash(old(self).view_entries(), *h) && final(self).view_entries()
                    == old(self).view_entries().remove(hash_index(old(self).view_entries(), *h)),
                Err(e) => e == MempoolError::NotFound && !has_hash(old(self).view_entries(), *h)
                    && final(self).view_entries() == old(self).view_entries(),
            },
    {
        let ghost old_view = self.view_entries();
        match self.find_by_hash(h) {
            Some(i) => {
                proof {
                    lemma_hash_index_is(old_view, *h, i as int);
                    lemma_view_remove(self.entries@, i as int);
                    lemma_unique_remove(old_view, i as int);
                }
                self.entries.remove(i);
                Ok(())
            },
            None => Err(MempoolError::NotFound),
        }
    }

    /// Associates a trace-derived code-hash set with a stored entry.
    pub fn set_code_hashes(&mut self, h: &UserOperationHash, hashes: Vec<CodeHash>) -> (r: Result<
        (),
        MempoolError,
    >)
        requires
            old(self).wf(),
        ensures
            final(self).wf(),
            final(self).max_uos_per_sender == old(self).max_uos_per_sender,
            match r {
                Ok(()) => {
                    &&& has_hash(old(self).view_entries(), *h)
                    &&& final(self).view_entries().len() == old(self).view_entries().len()
                    &&& forall|k: int|
                        0 <= k < old(self).view_entries().len() && k != hash_index(
                            old(self).view_entries(),
                            *h,
                        ) ==> final(self).view_entries()[k] == old(self).view_entries()[k]
                    &&& entry_for(final(self).view_entries(), *h).code_hashes == hashes@
                    &&& entry_for(final(self).view_entries(), *h).uo == entry_for(
                        old(self).view_entries(),
                        *h,
                    ).uo
                    &&& entry_for(final(self).view_entries(), *h).hash == *h
                },
                Err(e) => e == MempoolError::NotFound && !has_hash(old(self).view_entries(), *h)
                    && final(self).view_entries() == old(self).view_entries(),
            },
    {
        let ghost old_view = self.view_entries();
        match self.find_by_hash(h) {
            Some(i) => {
                proof {
                    lemma_hash_index_is(old_view, *h, i as int);
                }
                let e = self.clone_entry(i);
                let new_entry = MempoolEntry {
                    uo: e.uo,
                    hash: e.hash,
                    pre_fund: e.pre_fund,
                    verification_gas_limit: e.verification_gas_limit,
                    code_hashes: hashes,
                };
                proof {
                    lemma_view_update(self.entries@, i as int, new_entry);
                }
                self.entries.set(i, new_entry);
                proof {
                    let newv = self.view_entries();
                    assert(newv == old_view.update(i as int, new_entry@));
                    assert forall|x: int, y: int| 0 <= x < y < newv.len() implies (
                    #[trigger] newv[x]).hash != (#[trigger] newv[y]).hash && !(newv[x].uo.sender
                        == newv[y].uo.sender && newv[x].uo.nonce == newv[y].uo.nonce) by {
                        assert(old_view[x].hash != old_view[y].hash);
                        assert(!(old_view[x].uo.sender == old_view[y].uo.sender
                            && old_view[x].uo.nonce == old_view[y].uo.nonce));
                    }
                    lemma_hash_index_is(self.view_entries(), *h, i as int);
                }
                Ok(())
            },
            None => Err(MempoolError::NotFound),
        }
    }

    /// The code-hash set stored for `h`; empty when none is stored.
    pub fn get_code_hashes(&self, h: &UserOperationHash) -> (r: Vec<CodeHash>)
        requires
            self.wf(),
        ensures
            has_hash(self.view_entries(), *h) ==> r@ == entry_for(
                self.view_entries(),
                *h,
            ).code_hashes,
            !has_hash(self.view_entries(), *h) ==> r@.len() == 0,
    {
        match self.find_by_hash(h) {
            Some(i) => {
                proof {
                    lemma_hash_index_is(self.view_entries(), *h, i as int);
                }
                let e = self.clone_entry(i);
                e.code_hashes
            },
            None => Vec::new(),
        }
    }

    /// Every stored operation, in storage order.
    pub fn get_all(&self) -> (r: Vec<UserOperation>)
        ensures
            r@.len() == self.view_entries().len(),
            forall|k: int|
                0 <= k < r@.len() ==> (#[trigger] r@[k])@ == self.view_entries()[k].uo,
    {
        let n: usize = self.entries.len();
        let mut r: Vec<UserOperation> = Vec::new();
        let mut i: usize = 0;
        while i < n
            invariant
                i <= n,
                n == self.view_entries().len(),
                r@.len() == i,
                forall|k: int| 0 <= k < i ==> (#[trigger] r@[k])@ == self.view_entries()[k].uo,
            decreases n - i,
        {
            r.push(self.entries[i].uo.clone());
            i = i + 1;
        }
        r
    }

    /// The derived per-sender index: the hashes of the sender's operations.
    pub fn get_hashes_by_sender(&self, a: &Address) -> (r: Vec<UserOperationHash>)
        ensures
            r@.len() == count_by_sender(self.view_entries(), *a),
            forall|k: int|
                0 <= k < r@.len() ==> is_sender_hash(self.view_entries(), *a, #[trigger] r@[k]),
    {
        let n: usize = self.entries.len();
        let mut r: Vec<UserOperationHash> = Vec::new();
        let mut i: usize = 0;
        proof {
            assert(self.view_entries().subrange(0, 0) =~= Seq::<MempoolEntryView>::empty());
        }
        while i < n
            invariant
                i <= n,
                n == self.view_entries().len(),
                r@.len() == count_by_sender(self.view_entries().subrange(0, i as int), *a),
                forall|k: int|
                    0 <= k < r@.len() ==> is_sender_hash(self.view_entries(), *a, #[trigger] r@[k]),
            decreases n - i,
        {
            proof {
                let s = self.view_entries();
                assert(s.subrange(0, i as int + 1).drop_last() =~= s.subrange(0, i as int));
                assert(s.subrange(0, i as int + 1).last() == s[i as int]);
            }
            if self.entries[i].uo.sender == *a {
                let ghost rb = r@;
                r.push(self.entries[i].hash);
                proof {
                    let s = self.view_entries();
                    assert(is_sender_hash(s, *a, self.entries@[i as int]@.hash)) by {
                        assert((s[i as int]).uo.sender == *a && s[i as int].hash
                            == self.entries@[i as int]@.hash);
                    }
                    assert forall|k: int| 0 <= k < r@.len() implies is_sender_hash(
                        s,
                        *a,
                        #[trigger] r@[k],
                    ) by {
                        if k < rb.len() {
                            assert(r@[k] == rb[k]);
                        } else {
                            assert(r@[k] == self.entries@[i as int]@.hash);
                        }
                    }
                }
            }
            i = i + 1;
        }
        proof {
            assert(self.view_entries().subrange(0, n as int) =~= self.view_entries());
        }
        r
    }

    /// Truncates the pool.
    pub fn clear(&mut self)
        ensures
            final(self).wf(),
            final(self).view_entries().len() == 0,
            final(self).max_uos_per_sender == old(self).max_uos_per_sender,
    {
        self.entries = Vec::new();
    }
}

/// The smallest acceptable fee reported by a failed replacement: the bump
/// threshold, capped at the largest 256-bit value.
pub open spec fn needed_fee_spec(v: int) -> int {
    if bump_threshold(v) < crate::bytes::pow256(32) {
        bump_threshold(v)
    } else {
        crate::bytes::pow256(32) - 1
    }
}

} // verus!
