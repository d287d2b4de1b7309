//! Big-endian byte strings and their numeric values.
//!
//! Every fixed-width field of the wire and storage formats is written as a
//! big-endian byte string; `be_val` is the mathematical value of such a
//! string, and the two executable functions below convert between values and
//! strings against that spec.

use vstd::prelude::*;

verus! {

/// 256 raised to `n`.
pub open spec fn pow256(n: nat) -> int
    decreases n,
{
    if n == 0 {
        1
    } else {
        256 * pow256((n - 1) as nat)
    }
}

/// The value of a big-endian byte string.
pub open spec fn be_val(s: Seq<u8>) -> int
    decreases s.len(),
{
    if s.len() == 0 {
        0
    } else {
        be_val(s.drop_last()) * 256 + s.last()
    }
}

pub proof fn lemma_pow256_pos(n: nat)
    ensures
        pow256(n) >= 1,
    decreases n,
{
    if n > 0 {
        lemma_pow256_pos((n - 1) as nat);
    }
}

pub proof fn lemma_pow256_add(m: nat, n: nat)
    ensures
        pow256(m + n) == pow256(m) * pow256(n),
    decreases m,
{
    if m == 0 {
        assert(pow256(0 + n) == 1 * pow256(n));
    } else {
        lemma_pow256_add((m - 1) as nat, n);
        assert(pow256(m + n) == 256 * pow256(((m + n) - 1) as nat));
        assert(256 * (pow256((m - 1) as nat) * pow256(n)) == (256 * pow256((m - 1) as nat))
            * pow256(n)) by (nonlinear_arith);
    }
}

pub proof fn lemma_be_val_bound(s: Seq<u8>)
    ensures
        0 <= be_val(s) < pow256(s.len()),
    decreases s.len(),
{
    if s.len() == 0 {
    } else {
        lemma_be_val_bound(s.drop_last());
        let p: int = pow256((s.len() - 1) as nat);
        assert(be_val(s.drop_last()) <= p - 1);
        assert((p - 1) * 256 <= p * 256 - 256) by (nonlinear_arith);
        assert(be_val(s.drop_last()) * 256 <= (p - 1) * 256) by (nonlinear_arith)
            requires
                be_val(s.drop_last()) <= p - 1,
                p >= 1;
    }
}

/// Appending one byte multiplies the value by 256 and adds the byte.
pub proof fn lemma_be_val_push(s: Seq<u8>, b: u8)
    ensures
        be_val(s.push(b)) == be_val(s) * 256 + b,
{
    assert(s.push(b).drop_last() =~= s);
    assert(s.push(b).last() == b);
}

/// The value of a concatenation.
pub proof fn lemma_be_val_concat(a: Seq<u8>, b: Seq<u8>)
    ensures
        be_val(a + b) == be_val(a) * pow256(b.len()) + be_val(b),
    decreases b.len(),
{
    if b.len() == 0 {
        assert(a + b =~= a);
        assert(be_val(a) * 1 == be_val(a));
    } else {
        lemma_be_val_concat(a, b.drop_last());
        assert((a + b).drop_last() =~= a + b.drop_last());
        assert((a + b).last() == b.last());
        let p: int = pow256((b.len() - 1) as nat);
        assert(be_val(a + b) == (be_val(a) * p + be_val(b.drop_last())) * 256 + b.last());
        assert((be_val(a) * p + be_val(b.drop_last())) * 256 == be_val(a) * (p * 256) + be_val(
            b.drop_last(),
        ) * 256) by (nonlinear_arith);
        assert(pow256(b.len()) == 256 * p);
        assert(be_val(a) * (p * 256) == be_val(a) * (256 * p)) by (nonlinear_arith);
    }
}

/// The `n` low-order base-256 digits of `x`, most significant first.
pub open spec fn be_bytes_of(x: int, n: nat) -> Seq<u8>
    decreases n,
{
    if n == 0 {
        Seq::empty()
    } else {
        be_bytes_of(x / 256, (n - 1) as nat).push((x % 256) as u8)
    }
}

pub proof fn lemma_be_bytes_of_len(x: int, n: nat)
    ensures
        be_bytes_of(x, n).len() == n,
    decreases n,
{
    if n > 0 {
        lemma_be_bytes_of_len(x / 256, (n - 1) as nat);
    }
}

pub proof fn lemma_be_bytes_of_val(x: int, n: nat)
    requires
        0 <= x < pow256(n),
    ensures
        be_val(be_bytes_of(x, n)) == x,
    decreases n,
{
    if n == 0 {
    } else {
        assert(x / 256 < pow256((n - 1) as nat)) by (nonlinear_arith)
            requires
                x < 256 * pow256((n - 1) as nat),
                x >= 0,
        ;
        lemma_be_bytes_of_val(x / 256, (n - 1) as nat);
        lemma_be_bytes_of_len(x / 256, (n - 1) as nat);
        lemma_be_val_push(be_bytes_of(x / 256, (n - 1) as nat), (x % 256) as u8);
        vstd::arithmetic::div_mod::lemma_fundamental_div_mod(x, 256);
    }
}

/// Byte strings of one length with one value are the same string.
pub proof fn lemma_be_val_injective(a: Seq<u8>, b: Seq<u8>)
    requires
        a.len() == b.len(),
        be_val(a) == be_val(b),
    ensures
        a == b,
    decreases a.len(),
{
    if a.len() == 0 {
        assert(a =~= b);
    } else {
        lemma_be_val_bound(a.drop_last());
        lemma_be_val_bound(b.drop_last());
        vstd::arithmetic::div_mod::lemma_fundamental_div_mod_converse(
            be_val(a),
            256,
            be_val(a.drop_last()),
            a.last() as int,
        );
        vstd::arithmetic::div_mod::lemma_fundamental_div_mod_converse(
            be_val(b),
            256,
            be_val(b.drop_last()),
            b.last() as int,
        );
        lemma_be_val_injective(a.drop_last(), b.drop_last());
        assert(a =~= a.drop_last().push(a.last()));
        assert(b =~= b.drop_last().push(b.last()));
    }
}

/// Writes the `n` low-order base-256 digits of `x`, most significant first.
pub fn nat_to_be_bytes(x: u128, n: usize) -> (r: Vec<u8>)
    requires
        n <= 16,
        x < pow256(n as nat),
    ensures
        r@.len() == n,
        be_val(r@) == x,
        r@ == be_bytes_of(x as int, n as nat),
{
    let mut r: Vec<u8> = Vec::new();
    let mut acc: u128 = x;
    let mut i: usize = 0;
    proof {
        lemma_pow256_pos(n as nat);
    }
    while i < n
        invariant
            i <= n,
            n <= 16,
            x < pow256(n as nat),
            r@.len() == i,
            acc == x as int / pow256(i as nat),
            be_val(r@) == x as int % pow256(i as nat),
        decreases n - i,
    {
        let b: u8 = (acc % 256) as u8;
        proof {
            let pi: int = pow256(i as nat);
            let pi1: int = pow256((i + 1) as nat);
            lemma_pow256_pos(i as nat);
            assert(pi1 == 256 * pi);
            vstd::arithmetic::div_mod::lemma_fundamental_div_mod(x as int, pi);
            vstd::arithmetic::div_mod::lemma_fundamental_div_mod(acc as int, 256);
            // x == (acc / 256) * pi1 + ((acc % 256) * pi + x % pi)
            assert(x == (acc as int / 256) * pi1 + ((acc as int % 256) * pi + x as int % pi))
                by (nonlinear_arith)
                requires
                    pi1 == 256 * pi,
                    x as int == (x as int / pi) * pi + x as int % pi,
                    acc as int == (acc as int / 256) * 256 + acc as int % 256,
                    acc == x as int / pi;
            assert(0 <= (acc as int % 256) * pi + x as int % pi < pi1) by (nonlinear_arith)
                requires
                    pi1 == 256 * pi,
                    pi >= 1,
                    0 <= acc as int % 256 < 256,
                    0 <= x as int % pi < pi;
            vstd::arithmetic::div_mod::lemma_fundamental_div_mod_converse(
                x as int,
                pi1,
                acc as int / 256,
                (acc as int % 256) * pi + x as int % pi,
            );
            // value of the new byte string
            let old_r = r@;
            assert(old_r.insert(0, b) =~= seq![b] + old_r);
            lemma_be_val_concat(seq![b], old_r);
            assert(be_val(seq![b]) == b) by {
                assert(seq![b].len() == 1);
                assert(seq![b].last() == b);
                assert(seq![b].drop_last() =~= Seq::<u8>::empty());
                assert(be_val(Seq::<u8>::empty()) == 0);
            }
        }
        r.insert(0, b);
        acc = acc / 256;
        i = i + 1;
    }
    proof {
        vstd::arithmetic::div_mod::lemma_fundamental_div_mod(x as int, pow256(n as nat));
        vstd::arithmetic::div_mod::lemma_small_mod(x as nat, pow256(n as nat) as nat);
        lemma_be_bytes_of_len(x as int, n as nat);
        lemma_be_bytes_of_val(x as int, n as nat);
        lemma_be_val_injective(r@, be_bytes_of(x as int, n as nat));
    }
    r
}

/// Reads the value of `n` bytes of `v` starting at `start`.
pub fn be_bytes_to_u128(v: &Vec<u8>, start: usize, n: usize) -> (r: u128)
    requires
        n <= 16,
        start + n <= v@.len(),
    ensures
        r == be_val(v@.subrange(start as int, start as int + n as int)),
{
    let mut acc: u128 = 0;
    let mut i: usize = 0;
    let vlen: usize = v.len();
    while i < n
        invariant
            i <= n,
            n <= 16,
            start + n <= vlen,
            vlen == v@.len(),
            acc == be_val(v@.subrange(start as int, start as int + i as int)),
            acc < pow256(i as nat),
        decreases n - i,
    {
        let b: u8 = v[start + i];
        proof {
            let pre = v@.subrange(start as int, start as int + i as int);
            let post = v@.subrange(start as int, start as int + i as int + 1);
            assert(post =~= pre.push(v@[start as int + i as int]));
            lemma_be_val_push(pre, v@[start as int + i as int]);
            lemma_be_val_bound(pre);
            let pi: int = pow256(i as nat);
            assert(pow256((i + 1) as nat) == 256 * pi);
            assert(acc as int * 256 + b < 256 * pi) by (nonlinear_arith)
                requires
                    (acc as int) < pi,
                    b < 256,
            ;
            lemma_pow256_pos(16);
            lemma_pow256_le((i + 1) as nat, 16);
            lemma_pow256_16();
        }
        acc = acc * 256 + (b as u128);
        i = i + 1;
    }
    acc
}

/// `pow256(16)` is exactly one past the largest `u128`.
pub proof fn lemma_pow256_16()
    ensures
        pow256(16) == 0x100000000000000000000000000000000,
{
    reveal_with_fuel(pow256, 17);
}

pub proof fn lemma_pow256_le(m: nat, n: nat)
    requires
        m <= n,
    ensures
        pow256(m) <= pow256(n),
    decreases n,
{
    if m < n {
        lemma_pow256_le(m, (n - 1) as nat);
        lemma_pow256_pos((n - 1) as nat);
    }
}

/// Byte-for-byte copy of a byte vector.
pub fn clone_bytes(v: &Vec<u8>) -> (r: Vec<u8>)
    ensures
        r@ == v@,
{
    let mut r: Vec<u8> = Vec::new();
    let mut i: usize = 0;
    let n: usize = v.len();
    while i < n
        invariant
            i <= n,
            n == v@.len(),
            r@ == v@.subrange(0, i as int),
        decreases n - i,
    {
        let b: u8 = v[i];
        proof {
            assert(v@.subrange(0, i as int + 1) =~= v@.subrange(0, i as int).push(v@[i as int]));
        }
        r.push(b);
        i = i + 1;
    }
    proof {
        assert(v@.subrange(0, n as int) =~= v@);
    }
    r
}

/// Whether two byte vectors hold the same bytes.
pub fn bytes_eq(a: &Vec<u8>, b: &Vec<u8>) -> (r: bool)
    ensures
        r == (a@ == b@),
{
    let n: usize = a.len();
    if n != b.len() {
        return false;
    }
    let mut i: usize = 0;
    while i < n
        invariant
            i <= n,
            n == a@.len(),
            n == b@.len(),
            forall|j: int| 0 <= j < i ==> a@[j] == b@[j],
        decreases n - i,
    {
        if a[i] != b[i] {
            return false;
        }
        i = i + 1;
    }
    proof {
        assert(a@ =~= b@);
    }
    true
}

} // verus!
