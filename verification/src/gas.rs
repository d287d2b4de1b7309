//! Pre-verification gas: the fixed and per-byte overhead a user operation
//! costs before its own verification runs.

use crate::user_operation::UserOperation;
use vstd::prelude::*;

verus! {

/// Base transaction cost.
pub const OVERHEAD_FIXED: u64 = 21000;

/// Flat cost of carrying one user operation in a bundle.
pub const OVERHEAD_PER_USER_OP: u64 = 18300;

/// Cost per 32-byte word of call data.
pub const OVERHEAD_WORD: u64 = 4;

/// Cost of a zero byte of call data.
pub const OVERHEAD_ZERO_BYTE: u64 = 4;

/// Cost of a non-zero byte of call data.
pub const OVERHEAD_NON_ZERO_BYTE: u64 = 16;

/// How many bytes of `s` are zero.
pub open spec fn zero_bytes(s: Seq<u8>) -> int
    decreases s.len(),
{
    if s.len() == 0 {
        0
    } else {
        zero_bytes(s.drop_last()) + if s.last() == 0 {
            1int
        } else {
            0int
        }
    }
}

pub proof fn lemma_zero_bytes_bound(s: Seq<u8>)
    ensures
        0 <= zero_bytes(s) <= s.len(),
    decreases s.len(),
{
    if s.len() > 0 {
        lemma_zero_bytes_bound(s.drop_last());
    }
}

/// The overhead owed for call data `s`: fixed costs, a cost per 32-byte word,
/// and a cost per zero and per non-zero byte.
pub open spec fn spec_overhead(s: Seq<u8>) -> int {
    OVERHEAD_FIXED + OVERHEAD_PER_USER_OP + OVERHEAD_WORD * ((s.len() + 31) / 32)
        + OVERHEAD_ZERO_BYTE * zero_bytes(s) + OVERHEAD_NON_ZERO_BYTE * (s.len() - zero_bytes(s))
}

/// The gas overhead table. All fields are fixed costs.
#[derive(Clone, Copy, Debug, PartialEq, Eq, Structural)]
pub struct Overhead {
    pub fixed: u64,
    pub per_user_op: u64,
    pub per_word: u64,
    pub zero_byte: u64,
    pub non_zero_byte: u64,
}

impl Default for Overhead {
    fn default() -> (r: Overhead)
        ensures
            r == (Overhead {
                fixed: OVERHEAD_FIXED,
                per_user_op: OVERHEAD_PER_USER_OP,
                per_word: OVERHEAD_WORD,
                zero_byte: OVERHEAD_ZERO_BYTE,
                non_zero_byte: OVERHEAD_NON_ZERO_BYTE,
            }),
    {
        Overhead {
            fixed: OVERHEAD_FIXED,
            per_user_op: OVERHEAD_PER_USER_OP,
            per_word: OVERHEAD_WORD,
            zero_byte: OVERHEAD_ZERO_BYTE,
            non_zero_byte: OVERHEAD_NON_ZERO_BYTE,
        }
    }
}

impl Overhead {
    /// The pre-verification gas owed by `uo` under the default table.
    pub fn calculate_pre_verification_gas(&self, uo: &UserOperation) -> (r: u128)
        requires
            *self == (Overhead {
                fixed: OVERHEAD_FIXED,
                per_user_op: OVERHEAD_PER_USER_OP,
                per_word: OVERHEAD_WORD,
                zero_byte: OVERHEAD_ZERO_BYTE,
                non_zero_byte: OVERHEAD_NON_ZERO_BYTE,
            }),
        ensures
            r == spec_overhead(uo@.call_data),
    {
        calculate_overhead(uo)
    }
}

/// Computes `spec_overhead` for the call data of `uo`.
pub fn calculate_overhead(uo: &UserOperation) -> (r: u128)
    ensures
        r == spec_overhead(uo@.call_data),
{
    let n: usize = uo.call_data.len();
    let mut zeros: usize = 0;
    let mut i: usize = 0;
    proof {
        assert(uo.call_data@.subrange(0, 0) =~= Seq::<u8>::empty());
    }
    while i < n
        invariant
            i <= n,
            n == uo.call_data@.len(),
            zeros == zero_bytes(uo.call_data@.subrange(0, i as int)),
            zeros <= i,
        decreases n - i,
    {
        proof {
            let s = uo.call_data@;
            assert(s.subrange(0, i as int + 1).drop_last() =~= s.subrange(0, i as int));
            assert(s.subrange(0, i as int + 1).last() == s[i as int]);
        }
        if uo.call_data[i] == 0 {
            zeros = zeros + 1;
        }
        i = i + 1;
    }
    proof {
        assert(uo.call_data@.subrange(0, n as int) =~= uo.call_data@);
        lemma_zero_bytes_bound(uo.call_data@);
    }
    let words: u128 = ((n as u128) + 31) / 32;
    (OVERHEAD_FIXED as u128) + (OVERHEAD_PER_USER_OP as u128) + (OVERHEAD_WORD as u128) * words + (
    OVERHEAD_ZERO_BYTE as u128) * (zeros as u128) + (OVERHEAD_NON_ZERO_BYTE as u128) * ((n
        - zeros) as u128)
}

/// `spec_overhead` as a [`crate::types::U256`]-comparable value is always
/// small; this keeps it inside `u128`.
pub proof fn lemma_overhead_bound(s: Seq<u8>)
    requires
        s.len() <= 0xffff_ffff_ffff_ffff,
    ensures
        0 <= spec_overhead(s) < 0x100000000000000000000000000000000,
{
    lemma_zero_bytes_bound(s);
}

} // verus!
