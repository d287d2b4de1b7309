//! Fixed-width chain values: 256-bit unsigned integers, 20-byte account
//! addresses and 32-byte hashes, each modelled by its mathematical value.

use crate::bytes::{
    be_bytes_to_u128, be_val, lemma_be_val_bound, lemma_be_val_concat, lemma_pow256_16,
    nat_to_be_bytes, pow256,
};
use vstd::prelude::*;

verus! {

/// Two to the 128th power, the weight of the high half.
pub open spec fn p128() -> int {
    0x100000000000000000000000000000000int
}

/// An unsigned 256-bit integer, split in two 128-bit halves.
#[derive(Clone, Copy, Debug, PartialEq, Eq, Structural)]
pub struct U256 {
    pub hi: u128,
    pub lo: u128,
}

/// A 20-byte account address, split in a 4-byte and a 16-byte half.
#[derive(Clone, Copy, Debug, PartialEq, Eq, Structural)]
pub struct Address {
    pub hi: u32,
    pub lo: u128,
}

/// A 32-byte hash value, split in two 128-bit halves.
#[derive(Clone, Copy, Debug, PartialEq, Eq, Structural)]
pub struct Hash256 {
    pub hi: u128,
    pub lo: u128,
}

/// The identity of a user operation: `keccak256` over its packed form,
/// the entry point and the chain id.
pub type UserOperationHash = Hash256;

/// Selects the (mempool, reputation) pair serving one entry point:
/// `keccak256(entry_point, chain_id)`.
pub type MempoolId = Hash256;

/// The code hash of one address touched while a user operation was simulated.
#[derive(Clone, Copy, Debug, PartialEq, Eq, Structural)]
pub struct CodeHash {
    pub address: Address,
    pub hash: Hash256,
}

impl U256 {
    /// The mathematical value.
    pub open spec fn val(self) -> int {
        self.hi * p128() + self.lo
    }

    pub open spec fn spec_from_u128(x: u128) -> U256 {
        U256 { hi: 0, lo: x }
    }

    pub fn from_u128(x: u128) -> (r: U256)
        ensures
            r.val() == x,
            r == U256::spec_from_u128(x),
    {
        U256 { hi: 0, lo: x }
    }

    pub fn zero() -> (r: U256)
        ensures
            r.val() == 0,
    {
        U256 { hi: 0, lo: 0 }
    }

    pub fn is_zero(&self) -> (r: bool)
        ensures
            r == (self.val() == 0),
    {
        proof {
            if self.hi > 0 {
                assert(self.hi * p128() >= p128())
                    by (nonlinear_arith)
                    requires
                        self.hi >= 1,
                ;
            }
        }
        self.hi == 0 && self.lo == 0
    }

    proof fn lemma_order(a: U256, b: U256)
        requires
            a.hi < b.hi,
        ensures
            a.val() < b.val(),
    {
        let p: int = p128();
        assert(a.hi * p + p == (a.hi + 1) * p) by (nonlinear_arith);
        assert((a.hi + 1) * p <= b.hi * p) by (nonlinear_arith)
            requires
                a.hi + 1 <= b.hi,
                p > 0,
        ;
    }

    /// `self <= other`, on the values.
    pub fn le(&self, other: &U256) -> (r: bool)
        ensures
            r == (self.val() <= other.val()),
    {
        proof {
            if self.hi < other.hi {
                U256::lemma_order(*self, *other);
            }
            if other.hi < self.hi {
                U256::lemma_order(*other, *self);
            }
        }
        self.hi < other.hi || (self.hi == other.hi && self.lo <= other.lo)
    }

    /// `self < other`, on the values.
    pub fn lt(&self, other: &U256) -> (r: bool)
        ensures
            r == (self.val() < other.val()),
    {
        !other.le(self)
    }

    /// Sum, or `None` when the sum does not fit 256 bits.
    pub fn checked_add(&self, other: &U256) -> (r: Option<U256>)
        ensures
            match r {
                Some(s) => s.val() == self.val() + other.val(),
                None => self.val() + other.val() >= pow256(32),
            },
    {
        proof {
            crate::bytes::lemma_pow256_add(16, 16);
            lemma_pow256_16();
        }
        let (lo, carry): (u128, u128) = if self.lo <= u128::MAX - other.lo {
            (self.lo + other.lo, 0)
        } else {
            ((self.lo - (u128::MAX - other.lo)) - 1, 1)
        };
        if carry <= u128::MAX - self.hi && other.hi <= u128::MAX - (self.hi + carry) {
            let hi: u128 = self.hi + carry + other.hi;
            proof {
                let p: int = p128();
                assert(hi * p == self.hi * p + other.hi * p + carry * p) by (nonlinear_arith)
                    requires
                        hi == self.hi + carry + other.hi,
                        p > 0,
                ;
            }
            Some(U256 { hi, lo })
        } else {
            proof {
                let p: int = p128();
                assert(self.hi + carry + other.hi > u128::MAX);
                assert((self.hi + other.hi + carry) * p >= (u128::MAX + 1) * p) by (nonlinear_arith)
                    requires
                        self.hi + other.hi + carry >= u128::MAX + 1,
                        p > 0,
                ;
            }
            None
        }
    }

    /// Sum, capped at the largest 256-bit value.
    pub fn saturating_add(&self, other: &U256) -> (r: U256)
        ensures
            r.val() == if self.val() + other.val() < pow256(32) {
                self.val() + other.val()
            } else {
                pow256(32) - 1
            },
    {
        proof {
            crate::bytes::lemma_pow256_add(16, 16);
            lemma_pow256_16();
        }
        match self.checked_add(other) {
            Some(s) => s,
            None => U256 { hi: u128::MAX, lo: u128::MAX },
        }
    }

    /// Quotient by a small divisor, on the values.
    pub fn div_small(&self, d: u64) -> (r: U256)
        requires
            d >= 1,
        ensures
            r.val() == self.val() / (d as int),
    {
        let p64: u128 = 0x10000000000000000;
        let h1: u64 = (self.hi / p64) as u64;
        let h0: u64 = (self.hi % p64) as u64;
        let l1: u64 = (self.lo / p64) as u64;
        let l0: u64 = (self.lo % p64) as u64;
        let dd: u128 = d as u128;

        let q3: u64 = h1 / d;
        let r3: u64 = h1 % d;
        proof {
            vstd::arithmetic::div_mod::lemma_fundamental_div_mod(h1 as int, d as int);
        }
        let t2: u128 = (r3 as u128) * p64 + (h0 as u128);
        proof {
            assert((r3 as int) * (p64 as int) + h0 < (dd as int) * (p64 as int)) by (nonlinear_arith)
                requires
                    r3 + 1 <= dd,
                    0 <= h0 < p64,
                    (p64 as int) > 0,
            ;
            vstd::arithmetic::div_mod::lemma_fundamental_div_mod(t2 as int, dd as int);
            assert((t2 as int) / (dd as int) < p64) by (nonlinear_arith)
                requires
                    (t2 as int) < (dd as int) * (p64 as int),
                    (dd as int) >= 1,
                    (t2 as int) >= 0,
            ;
        }
        let q2: u64 = (t2 / dd) as u64;
        let r2: u64 = (t2 % dd) as u64;
        let t1: u128 = (r2 as u128) * p64 + (l1 as u128);
        proof {
            assert((r2 as int) * (p64 as int) + l1 < (dd as int) * (p64 as int)) by (nonlinear_arith)
                requires
                    r2 + 1 <= dd,
                    0 <= l1 < p64,
                    (p64 as int) > 0,
            ;
            vstd::arithmetic::div_mod::lemma_fundamental_div_mod(t1 as int, dd as int);
            assert((t1 as int) / (dd as int) < p64) by (nonlinear_arith)
                requires
                    (t1 as int) < (dd as int) * (p64 as int),
                    (dd as int) >= 1,
                    (t1 as int) >= 0,
            ;
        }
        let q1: u64 = (t1 / dd) as u64;
        let r1: u64 = (t1 % dd) as u64;
        let t0: u128 = (r1 as u128) * p64 + (l0 as u128);
        proof {
            assert((r1 as int) * (p64 as int) + l0 < (dd as int) * (p64 as int)) by (nonlinear_arith)
                requires
                    r1 + 1 <= dd,
                    0 <= l0 < p64,
                    (p64 as int) > 0,
            ;
            vstd::arithmetic::div_mod::lemma_fundamental_div_mod(t0 as int, dd as int);
            assert((t0 as int) / (dd as int) < p64) by (nonlinear_arith)
                requires
                    (t0 as int) < (dd as int) * (p64 as int),
                    (dd as int) >= 1,
                    (t0 as int) >= 0,
            ;
        }
        let q0: u64 = (t0 / dd) as u64;
        let r0: u64 = (t0 % dd) as u64;

        let q = U256 { hi: (q3 as u128) * p64 + (q2 as u128), lo: (q1 as u128) * p64 + (q0 as u128) };
        proof {
            let p: int = p128();
            let pq: int = p64 as int;
            let di: int = d as int;
            let v: int = self.val();
            let qv: int = di * (q3 * pq * p) + di * (q2 as int * p) + di * (q1 as int * pq) + di * q0;
            assert(pq * pq == p) by (nonlinear_arith)
                requires
                    pq == 0x10000000000000000,
                    p == p128(),
            ;
            vstd::arithmetic::div_mod::lemma_fundamental_div_mod(h1 as int, di);
            // the value laid out over the four 64-bit limbs
            assert(v == ((h1 as int) * pq + h0) * p + ((l1 as int) * pq + l0)) by (nonlinear_arith)
                requires
                    pq * pq == p,
                    v == self.hi * p + self.lo,
                    self.hi == (h1 as int) * pq + h0,
                    self.lo == (l1 as int) * pq + l0,
            ;
            // peel the divisor off one limb at a time
            assert(v == di * (q3 * pq * p) + (t2 as int) * p + (l1 as int) * pq + l0)
                by (nonlinear_arith)
                requires
                    v == ((h1 as int) * pq + h0) * p + ((l1 as int) * pq + l0),
                    h1 == di * q3 + r3,
                    t2 == (r3 as int) * pq + h0,
            ;
            assert(v == di * (q3 * pq * p) + di * (q2 as int * p) + (t1 as int) * pq + l0)
                by (nonlinear_arith)
                requires
                    v == di * (q3 * pq * p) + (t2 as int) * p + (l1 as int) * pq + l0,
                    t2 == di * q2 + r2,
                    t1 == (r2 as int) * pq + l1,
                    pq * pq == p,
            ;
            assert(v == di * (q3 * pq * p) + di * (q2 as int * p) + di * (q1 as int * pq) + t0)
                by (nonlinear_arith)
                requires
                    v == di * (q3 * pq * p) + di * (q2 as int * p) + (t1 as int) * pq + l0,
                    t1 == di * q1 + r1,
                    t0 == (r1 as int) * pq + l0,
            ;
            assert(v == qv + r0) by (nonlinear_arith)
                requires
                    v == di * (q3 * pq * p) + di * (q2 as int * p) + di * (q1 as int * pq) + t0,
                    t0 == di * q0 + r0,
                    qv == di * (q3 * pq * p) + di * (q2 as int * p) + di * (q1 as int * pq) + di * q0,
            ;
            assert(qv == di * q.val()) by (nonlinear_arith)
                requires
                    q.hi == (q3 as int) * pq + q2,
                    q.lo == (q1 as int) * pq + q0,
                    q.val() == q.hi * p + q.lo,
                    pq * pq == p,
                    qv == di * (q3 * pq * p) + di * (q2 as int * p) + di * (q1 as int * pq) + di * q0,
            ;
            vstd::arithmetic::div_mod::lemma_fundamental_div_mod_converse(v, di, q.val(), r0 as int);
        }
        q
    }

    /// The 32-byte big-endian form.
    pub fn to_be_bytes(&self) -> (r: Vec<u8>)
        ensures
            r@.len() == 32,
            be_val(r@) == self.val(),
            r@ == crate::bytes::be_bytes_of(self.val(), 32),
    {
        proof {
            lemma_pow256_16();
        }
        let mut r = nat_to_be_bytes(self.hi, 16);
        let mut lo_bytes = nat_to_be_bytes(self.lo, 16);
        proof {
            lemma_be_val_concat(r@, lo_bytes@);
        }
        r.append(&mut lo_bytes);
        proof {
            lemma_be_val_bound(r@);
            crate::bytes::lemma_be_bytes_of_len(self.val(), 32);
            crate::bytes::lemma_be_bytes_of_val(self.val(), 32);
            crate::bytes::lemma_be_val_injective(r@, crate::bytes::be_bytes_of(self.val(), 32));
        }
        r
    }

    /// Reads 32 big-endian bytes starting at `start`.
    pub fn from_be_bytes(v: &Vec<u8>, start: usize) -> (r: U256)
        requires
            start + 32 <= v@.len(),
        ensures
            r.val() == be_val(v@.subrange(start as int, start as int + 32)),
    {
        let vlen: usize = v.len();
        assert(start + 32 <= vlen);
        let hi_val: u128 = be_bytes_to_u128(v, start, 16);
        let lo_val: u128 = be_bytes_to_u128(v, start + 16, 16);
        proof {
            let a = v@.subrange(start as int, start as int + 16);
            let b = v@.subrange(start as int + 16, start as int + 32);
            let w = v@.subrange(start as int, start as int + 32);
            assert(w =~= a + b);
            lemma_be_val_concat(a, b);
            lemma_pow256_16();
        }
        U256 { hi: hi_val, lo: lo_val }
    }
}

impl Address {
    /// The mathematical value of the 20-byte string.
    pub open spec fn val(self) -> int {
        self.hi * p128() + self.lo
    }

    pub fn zero() -> (r: Address)
        ensures
            r == (Address { hi: 0, lo: 0 }),
    {
        Address { hi: 0, lo: 0 }
    }

    pub fn is_zero(&self) -> (r: bool)
        ensures
            r == (*self == Address { hi: 0, lo: 0 }),
    {
        self.hi == 0 && self.lo == 0
    }

    /// The 20-byte big-endian form.
    pub fn to_be_bytes(&self) -> (r: Vec<u8>)
        ensures
            r@.len() == 20,
            be_val(r@) == self.val(),
            r@ == crate::bytes::be_bytes_of(self.val(), 20),
    {
        proof {
            lemma_pow256_16();
            crate::bytes::lemma_pow256_le(4, 16);
        }
        assert(self.hi < pow256(4)) by {
            assert(pow256(4) == 0x100000000) by {
                reveal_with_fuel(pow256, 5);
            }
        }
        let mut r = nat_to_be_bytes(self.hi as u128, 4);
        let mut lo_bytes = nat_to_be_bytes(self.lo, 16);
        proof {
            lemma_be_val_concat(r@, lo_bytes@);
        }
        r.append(&mut lo_bytes);
        proof {
            lemma_be_val_bound(r@);
            crate::bytes::lemma_be_bytes_of_len(self.val(), 20);
            crate::bytes::lemma_be_bytes_of_val(self.val(), 20);
            crate::bytes::lemma_be_val_injective(r@, crate::bytes::be_bytes_of(self.val(), 20));
        }
        r
    }

    /// Reads 20 big-endian bytes starting at `start`.
    pub fn from_be_bytes(v: &Vec<u8>, start: usize) -> (r: Address)
        requires
            start + 20 <= v@.len(),
        ensures
            r.val() == be_val(v@.subrange(start as int, start as int + 20)),
            r.hi == be_val(v@.subrange(start as int, start as int + 4)),
            r.lo == be_val(v@.subrange(start as int + 4, start as int + 20)),
    {
        let vlen: usize = v.len();
        assert(start + 20 <= vlen);
        let hi_val: u128 = be_bytes_to_u128(v, start, 4);
        let lo_val: u128 = be_bytes_to_u128(v, start + 4, 16);
        proof {
            let a = v@.subrange(start as int, start as int + 4);
            let b = v@.subrange(start as int + 4, start as int + 20);
            let w = v@.subrange(start as int, start as int + 20);
            assert(w =~= a + b);
            lemma_be_val_concat(a, b);
            lemma_be_val_bound(a);
            lemma_pow256_16();
            assert(pow256(4) == 0x100000000) by {
                reveal_with_fuel(pow256, 5);
            }
        }
        Address { hi: hi_val as u32, lo: lo_val }
    }
}

impl Hash256 {
    /// The mathematical value of the 32-byte string.
    pub open spec fn val(self) -> int {
        self.hi * p128() + self.lo
    }

    pub fn zero() -> (r: Hash256)
        ensures
            r == (Hash256 { hi: 0, lo: 0 }),
    {
        Hash256 { hi: 0, lo: 0 }
    }

    /// The 32-byte big-endian form.
    pub fn to_be_bytes(&self) -> (r: Vec<u8>)
        ensures
            r@.len() == 32,
            be_val(r@) == self.val(),
            r@ == crate::bytes::be_bytes_of(self.val(), 32),
    {
        proof {
            lemma_pow256_16();
        }
        let mut r = nat_to_be_bytes(self.hi, 16);
        let mut lo_bytes = nat_to_be_bytes(self.lo, 16);
        proof {
            lemma_be_val_concat(r@, lo_bytes@);
        }
        r.append(&mut lo_bytes);
        proof {
            lemma_be_val_bound(r@);
            crate::bytes::lemma_be_bytes_of_len(self.val(), 32);
            crate::bytes::lemma_be_bytes_of_val(self.val(), 32);
            crate::bytes::lemma_be_val_injective(r@, crate::bytes::be_bytes_of(self.val(), 32));
        }
        r
    }

    /// Reads 32 big-endian bytes starting at `start`.
    pub fn from_be_bytes(v: &Vec<u8>, start: usize) -> (r: Hash256)
        requires
            start + 32 <= v@.len(),
        ensures
            r.val() == be_val(v@.subrange(start as int, start as int + 32)),
            r.hi == be_val(v@.subrange(start as int, start as int + 16)),
            r.lo == be_val(v@.subrange(start as int + 16, start as int + 32)),
    {
        let vlen: usize = v.len();
        assert(start + 32 <= vlen);
        let hi_val: u128 = be_bytes_to_u128(v, start, 16);
        let lo_val: u128 = be_bytes_to_u128(v, start + 16, 16);
        proof {
            let a = v@.subrange(start as int, start as int + 16);
            let b = v@.subrange(start as int + 16, start as int + 32);
            let w = v@.subrange(start as int, start as int + 32);
            assert(w =~= a + b);
            lemma_be_val_concat(a, b);
            lemma_pow256_16();
        }
        Hash256 { hi: hi_val, lo: lo_val }
    }
}

/// Every 256-bit value lies below `pow256(32)`.
pub proof fn lemma_u256_bound(v: U256)
    ensures
        0 <= v.val() < pow256(32),
{
    crate::bytes::lemma_pow256_add(16, 16);
    lemma_pow256_16();
    let p: int = p128();
    assert(v.hi * p <= (p - 1) * p) by (nonlinear_arith)
        requires
            0 <= v.hi <= p - 1,
            p >= 1,
    ;
    assert((p - 1) * p + (p - 1) == p * p - 1) by (nonlinear_arith);
}

/// Every 32-byte hash value lies below `pow256(32)`.
pub proof fn lemma_hash256_bound(h: Hash256)
    ensures
        0 <= h.val() < pow256(32),
{
    crate::bytes::lemma_pow256_add(16, 16);
    lemma_pow256_16();
    let p: int = p128();
    assert(h.hi * p <= (p - 1) * p) by (nonlinear_arith)
        requires
            0 <= h.hi <= p - 1,
            p >= 1,
    ;
    assert((p - 1) * p + (p - 1) == p * p - 1) by (nonlinear_arith);
}

} // verus!
