//! The library's laws: properties that hold of every pool and every
//! reputation book, proved over the same models the operation contracts use.

use crate::mempool::{
    bump_threshold, count_by_sender, entry_by_sender_nonce, entry_for, has_hash, has_sender_nonce,
    is_sender_hash, lemma_bump_is_tenth, lemma_count_push, lemma_count_remove, lemma_hash_index_is,
    replacement_ok, sn_index, MempoolEntryView, Mempool,
};
use crate::reputation::Reputation;
use crate::types::{Address, U256, UserOperationHash};
use crate::user_operation::UserOperationView;
use vstd::prelude::*;

verus! {

/// Every hash the derived per-sender index hands out resolves in the
/// primary store.
pub proof fn lemma_index_resolves(s: Seq<MempoolEntryView>, a: Address, h: UserOperationHash)
    requires
        is_sender_hash(s, a, h),
    ensures
        has_hash(s, h),
{
    let i = choose|i: int| 0 <= i < s.len() && (#[trigger] s[i]).uo.sender == a && s[i].hash == h;
    assert(s[i].hash == h);
}

/// An unstaked sender stays within its cap across an admission: a
/// replacement keeps the count, a fresh insertion was only allowed below
/// the cap.
pub proof fn lemma_sender_cap_preserved(
    before: Seq<MempoolEntryView>,
    after: Seq<MempoolEntryView>,
    e: MempoolEntryView,
    max: int,
)
    requires
        count_by_sender(before, e.uo.sender) <= max,
        if has_sender_nonce(before, e.uo.sender, e.uo.nonce) {
            after == before.remove(sn_index(before, e.uo.sender, e.uo.nonce)).push(e)
        } else {
            after == before.push(e) && count_by_sender(before, e.uo.sender) < max
        },
    ensures
        count_by_sender(after, e.uo.sender) <= max,
{
    let a = e.uo.sender;
    if has_sender_nonce(before, a, e.uo.nonce) {
        let i = sn_index(before, a, e.uo.nonce);
        assert(0 <= i < before.len() && before[i].uo.sender == a);
        lemma_count_remove(before, a, i);
        lemma_count_push(before.remove(i), e, a);
    } else {
        lemma_count_push(before, e, a);
    }
}

/// At most one entry holds a given (sender, nonce) pair in a well-formed
/// pool: any two indices carrying the pair are the same index.
pub proof fn lemma_at_most_one_per_sender_nonce(
    pool: Mempool,
    sender: Address,
    nonce: U256,
    i: int,
    j: int,
)
    requires
        pool.wf(),
        0 <= i < pool.view_entries().len(),
        0 <= j < pool.view_entries().len(),
        pool.view_entries()[i].uo.sender == sender,
        pool.view_entries()[i].uo.nonce == nonce,
        pool.view_entries()[j].uo.sender == sender,
        pool.view_entries()[j].uo.nonce == nonce,
    ensures
        i == j,
{
    let s = pool.view_entries();
    if i < j {
        assert(!(s[i].uo.sender == s[j].uo.sender && s[i].uo.nonce == s[j].uo.nonce));
    }
    if j < i {
        assert(!(s[j].uo.sender == s[i].uo.sender && s[j].uo.nonce == s[i].uo.nonce));
    }
}

/// Every entry of a well-formed reputation book has seen at least as many
/// operations as were included.
pub proof fn lemma_seen_dominates_included(rep: Reputation, i: int)
    requires
        rep.wf(),
        0 <= i < rep.entries@.len(),
    ensures
        rep.entries@[i].ops_seen >= rep.entries@[i].ops_included,
{
}

/// Round trip: an entry just admitted is what a fetch under its hash
/// returns, whether the admission was fresh or a replacement.
pub proof fn lemma_admit_then_fetch(
    before: Seq<MempoolEntryView>,
    after: Seq<MempoolEntryView>,
    e: MempoolEntryView,
)
    requires
        crate::mempool::unique_hashes(after),
        after == before.push(e) || (has_sender_nonce(before, e.uo.sender, e.uo.nonce) && after
            == before.remove(sn_index(before, e.uo.sender, e.uo.nonce)).push(e)),
    ensures
        has_hash(after, e.hash),
        entry_for(after, e.hash) == e,
        entry_for(after, e.hash).uo == e.uo,
{
    if after == before.push(e) {
        assert(after[after.len() - 1] == e);
        lemma_hash_index_is(after, e.hash, after.len() - 1);
    } else {
        let i = sn_index(before, e.uo.sender, e.uo.nonce);
        assert(after[after.len() - 1] == e);
        lemma_hash_index_is(after, e.hash, after.len() - 1);
    }
}

/// Replacement idempotence: resubmitting an operation with the very same
/// fees never clears the bump, as long as the fee is at least ten wei
/// (below that the ten-percent bump rounds away to nothing).
pub proof fn lemma_replacement_idempotence(prev: UserOperationView, new: UserOperationView)
    requires
        new.max_fee_per_gas.val() == prev.max_fee_per_gas.val(),
        prev.max_fee_per_gas.val() >= 10,
        prev.max_priority_fee_per_gas.val() >= 0,
    ensures
        !replacement_ok(prev, new),
{
    let v = prev.max_fee_per_gas.val();
    lemma_bump_is_tenth(v);
    assert(v / 10 >= 1) by (nonlinear_arith)
        requires
            v >= 10,
    ;
}

/// The derived status is a pure function of the counters, the whitelist
/// and the blacklist: two books agreeing on those agree on the status.
pub proof fn lemma_status_pure(a: Reputation, b: Reputation, addr: Address)
    requires
        a.spec_counters(addr) == b.spec_counters(addr),
        a.whitelist@ == b.whitelist@,
        a.blacklist@ == b.blacklist@,
        a.min_inclusion_denominator == b.min_inclusion_denominator,
        a.throttling_slack == b.throttling_slack,
        a.ban_slack == b.ban_slack,
    ensures
        a.spec_status_of(addr) == b.spec_status_of(addr),
{
}

/// Order independence: admitting two fresh operations of distinct
/// (sender, nonce) pairs yields the same pool contents in either order.
pub proof fn lemma_add_order_independent(
    s: Seq<MempoolEntryView>,
    a: MempoolEntryView,
    b: MempoolEntryView,
)
    ensures
        s.push(a).push(b).to_multiset() == s.push(b).push(a).to_multiset(),
{
    broadcast use vstd::seq_lib::group_to_multiset_ensures;

    assert(s.push(a).push(b).to_multiset() =~= s.to_multiset().insert(a).insert(b));
    assert(s.push(b).push(a).to_multiset() =~= s.to_multiset().insert(b).insert(a));
    assert(s.to_multiset().insert(a).insert(b) =~= s.to_multiset().insert(b).insert(a));
}

/// Order dependence: once an operation stands in the pool, a second
/// admission of the very same operation fails the fee bump — exactly one
/// of two identical admissions succeeds.
pub proof fn lemma_same_pair_second_fails(
    before: Seq<MempoolEntryView>,
    after: Seq<MempoolEntryView>,
    e: MempoolEntryView,
)
    requires
        crate::mempool::unique_hashes(after),
        crate::mempool::unique_sender_nonce(after),
        after == before.push(e),
        e.uo.max_fee_per_gas.val() >= 10,
    ensures
        has_sender_nonce(after, e.uo.sender, e.uo.nonce),
        !replacement_ok(entry_by_sender_nonce(after, e.uo.sender, e.uo.nonce).uo, e.uo),
{
    assert(after[after.len() - 1] == e);
    crate::mempool::lemma_sn_index_is(after, e.uo.sender, e.uo.nonce, after.len() - 1);
    lemma_replacement_idempotence(e.uo, e.uo);
}

} // verus!
