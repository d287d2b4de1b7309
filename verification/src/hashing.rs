//! Keccak-256 and the identities derived from it.
//!
//! The digest itself comes from an outside crate; everything around it —
//! preimage layout, conversion of the digest into a [`Hash256`] — is verified
//! against `keccak256_of`, the name given to what the digest function returns.

use crate::bytes::{
    be_bytes_of, be_val, lemma_be_bytes_of_len, lemma_be_bytes_of_val, lemma_be_val_bound,
    lemma_be_val_concat, lemma_be_val_injective, lemma_be_val_push,
};
use crate::types::{Address, Hash256, MempoolId};
use vstd::prelude::*;

verus! {

/// The Keccak-256 digest of a byte string, a function of the bytes alone.
pub uninterp spec fn keccak256_of(input: Seq<u8>) -> Seq<u8>;

/// Relies on `ethers_core::utils::keccak256`: the Keccak-256 digest of the
/// input bytes, always 32 bytes long and a function of the input alone.
#[verifier::external_body]
fn keccak256(input: &Vec<u8>) -> (r: Vec<u8>)
    ensures
        r@ == keccak256_of(input@),
        r@.len() == 32,
{
    ethers_core::utils::keccak256(input.as_slice()).to_vec()
}

/// The 32-byte string a [`Hash256`] stands for.
pub open spec fn hash256_seq(h: Hash256) -> Seq<u8> {
    be_bytes_of(h.val(), 32)
}

/// The [`Hash256`] a 32-byte string stands for.
pub open spec fn hash256_of_seq(s: Seq<u8>) -> Hash256
    recommends
        s.len() == 32,
{
    Hash256 { hi: be_val(s.subrange(0, 16)) as u128, lo: be_val(s.subrange(16, 32)) as u128 }
}

/// A 20-byte address left-padded to a 32-byte word.
pub open spec fn address_word(a: Address) -> Seq<u8> {
    be_bytes_of(a.val(), 32)
}

/// Packs a 32-byte digest into a [`Hash256`].
pub fn hash256_from_digest(bytes: &Vec<u8>) -> (r: Hash256)
    requires
        bytes@.len() == 32,
    ensures
        hash256_seq(r) == bytes@,
        r == hash256_of_seq(bytes@),
    {
    let r = Hash256::from_be_bytes(bytes, 0);
    proof {
        assert(bytes@.subrange(0, 32) =~= bytes@);
        assert(bytes@.subrange(0 as int, 0 as int + 16) =~= bytes@.subrange(0, 16));
        assert(bytes@.subrange(0 as int + 16, 0 as int + 32) =~= bytes@.subrange(16, 32));
        lemma_be_val_bound(bytes@);
        lemma_be_bytes_of_len(r.val(), 32);
        lemma_be_bytes_of_val(r.val(), 32);
        lemma_be_val_injective(hash256_seq(r), bytes@);
    }
    r
}

/// Writes an address as a 32-byte word.
pub fn address_word_bytes(a: &Address) -> (r: Vec<u8>)
    ensures
        r@ == address_word(*a),
{
    let mut r: Vec<u8> = Vec::new();
    let mut i: usize = 0;
    while i < 12
        invariant
            i <= 12,
            r@.len() == i,
            be_val(r@) == 0,
        decreases 12 - i,
    {
        proof {
            lemma_be_val_push(r@, 0u8);
        }
        r.push(0u8);
        i = i + 1;
    }
    let mut tail = a.to_be_bytes();
    proof {
        lemma_be_val_concat(r@, tail@);
    }
    r.append(&mut tail);
    proof {
        lemma_be_val_bound(r@);
        lemma_be_bytes_of_len(a.val(), 32);
        lemma_be_bytes_of_val(a.val(), 32);
        lemma_be_val_injective(r@, address_word(*a));
    }
    r
}

/// The 32-byte identity of the (mempool, reputation) pair serving one entry
/// point on one chain: `keccak256` over the entry point padded to a word and
/// the chain id as a 256-bit word.
pub open spec fn mempool_id_seq(ep: Address, chain_id: u64) -> Seq<u8> {
    keccak256_of(address_word(ep) + be_bytes_of(chain_id as int, 32))
}

/// Computes the mempool id of an entry point on a chain.
pub fn mempool_id(ep: &Address, chain_id: u64) -> (r: MempoolId)
    ensures
        hash256_seq(r) == mempool_id_seq(*ep, chain_id),
        r == hash256_of_seq(mempool_id_seq(*ep, chain_id)),
{
    let mut preimage = address_word_bytes(ep);
    let mut chain_word = crate::types::U256::from_u128(chain_id as u128).to_be_bytes();
    proof {
        assert(crate::types::U256::spec_from_u128(chain_id as u128).val() == chain_id);
    }
    preimage.append(&mut chain_word);
    let digest = keccak256(&preimage);
    hash256_from_digest(&digest)
}

/// Hashes an arbitrary byte string into a [`Hash256`].
pub fn keccak256_hash(input: &Vec<u8>) -> (r: Hash256)
    ensures
        hash256_seq(r) == keccak256_of(input@),
        r == hash256_of_seq(keccak256_of(input@)),
{
    let digest = keccak256(input);
    hash256_from_digest(&digest)
}

/// Returns the raw 32-byte Keccak-256 digest of a byte string.
pub fn keccak256_bytes(input: &Vec<u8>) -> (r: Vec<u8>)
    ensures
        r@ == keccak256_of(input@),
        r@.len() == 32,
{
    keccak256(input)
}

} // verus!
