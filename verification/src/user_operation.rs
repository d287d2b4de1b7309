//! The user operation record, its packed form and its hash identity.

use crate::bytes::{be_bytes_of, be_val, bytes_eq, clone_bytes, lemma_be_val_bound, pow256};
use crate::hashing::{
    address_word, address_word_bytes, hash256_seq, hash256_from_digest, keccak256_bytes,
    keccak256_of,
};
use crate::types::{Address, U256, UserOperationHash};
use vstd::prelude::*;

verus! {

/// An ERC-4337 user operation: an immutable pseudo-transaction executed on
/// behalf of a smart-contract account through the entry point.
#[derive(Debug)]
pub struct UserOperation {
    pub sender: Address,
    pub nonce: U256,
    pub init_code: Vec<u8>,
    pub call_data: Vec<u8>,
    pub call_gas_limit: U256,
    pub verification_gas_limit: U256,
    pub pre_verification_gas: U256,
    pub max_fee_per_gas: U256,
    pub max_priority_fee_per_gas: U256,
    pub paymaster_and_data: Vec<u8>,
    pub signature: Vec<u8>,
}

/// The mathematical shape of a user operation: byte fields as sequences.
pub ghost struct UserOperationView {
    pub sender: Address,
    pub nonce: U256,
    pub init_code: Seq<u8>,
    pub call_data: Seq<u8>,
    pub call_gas_limit: U256,
    pub verification_gas_limit: U256,
    pub pre_verification_gas: U256,
    pub max_fee_per_gas: U256,
    pub max_priority_fee_per_gas: U256,
    pub paymaster_and_data: Seq<u8>,
    pub signature: Seq<u8>,
}

impl View for UserOperation {
    type V = UserOperationView;

    open spec fn view(&self) -> UserOperationView {
        UserOperationView {
            sender: self.sender,
            nonce: self.nonce,
            init_code: self.init_code@,
            call_data: self.call_data@,
            call_gas_limit: self.call_gas_limit,
            verification_gas_limit: self.verification_gas_limit,
            pre_verification_gas: self.pre_verification_gas,
            max_fee_per_gas: self.max_fee_per_gas,
            max_priority_fee_per_gas: self.max_priority_fee_per_gas,
            paymaster_and_data: self.paymaster_and_data@,
            signature: self.signature@,
        }
    }
}

impl Clone for UserOperation {
    fn clone(&self) -> (r: Self)
        ensures
            r@ == self@,
    {
        UserOperation {
            sender: self.sender,
            nonce: self.nonce,
            init_code: clone_bytes(&self.init_code),
            call_data: clone_bytes(&self.call_data),
            call_gas_limit: self.call_gas_limit,
            verification_gas_limit: self.verification_gas_limit,
            pre_verification_gas: self.pre_verification_gas,
            max_fee_per_gas: self.max_fee_per_gas,
            max_priority_fee_per_gas: self.max_priority_fee_per_gas,
            paymaster_and_data: clone_bytes(&self.paymaster_and_data),
            signature: clone_bytes(&self.signature),
        }
    }
}

impl PartialEq for UserOperation {
    fn eq(&self, other: &UserOperation) -> (r: bool) {
        self.sender == other.sender && self.nonce == other.nonce && bytes_eq(
            &self.init_code,
            &other.init_code,
        ) && bytes_eq(&self.call_data, &other.call_data) && self.call_gas_limit
            == other.call_gas_limit && self.verification_gas_limit == other.verification_gas_limit
            && self.pre_verification_gas == other.pre_verification_gas && self.max_fee_per_gas
            == other.max_fee_per_gas && self.max_priority_fee_per_gas
            == other.max_priority_fee_per_gas && bytes_eq(
            &self.paymaster_and_data,
            &other.paymaster_and_data,
        ) && bytes_eq(&self.signature, &other.signature)
    }
}

impl vstd::std_specs::cmp::PartialEqSpecImpl for UserOperation {
    open spec fn obeys_eq_spec() -> bool {
        true
    }

    open spec fn eq_spec(&self, other: &UserOperation) -> bool {
        self@ == other@
    }
}

/// The address written in the first 20 bytes of a byte string.
pub open spec fn address_of_prefix(s: Seq<u8>) -> Address {
    Address { hi: be_val(s.subrange(0, 4)) as u32, lo: be_val(s.subrange(4, 20)) as u128 }
}

/// The factory entity: the first 20 bytes of `init_code`, when present.
pub open spec fn factory_of(v: UserOperationView) -> Option<Address> {
    if v.init_code.len() >= 20 {
        Some(address_of_prefix(v.init_code))
    } else {
        None
    }
}

/// The paymaster entity: the first 20 bytes of `paymaster_and_data`, when present.
pub open spec fn paymaster_of(v: UserOperationView) -> Option<Address> {
    if v.paymaster_and_data.len() >= 20 {
        Some(address_of_prefix(v.paymaster_and_data))
    } else {
        None
    }
}

/// The packed form of a user operation: ten 32-byte words, with the three
/// variable-length byte fields replaced by their Keccak-256 digests.
pub open spec fn pack_seq(v: UserOperationView) -> Seq<u8> {
    address_word(v.sender) + be_bytes_of(v.nonce.val(), 32) + keccak256_of(v.init_code)
        + keccak256_of(v.call_data) + be_bytes_of(v.call_gas_limit.val(), 32) + be_bytes_of(
        v.verification_gas_limit.val(),
        32,
    ) + be_bytes_of(v.pre_verification_gas.val(), 32) + be_bytes_of(v.max_fee_per_gas.val(), 32)
        + be_bytes_of(v.max_priority_fee_per_gas.val(), 32) + keccak256_of(v.paymaster_and_data)
}

/// The preimage of the user operation hash: the digest of the packed form,
/// the entry point padded to a word, and the chain id as a word.
pub open spec fn hash_preimage_seq(v: UserOperationView, ep: Address, chain_id: u64) -> Seq<u8> {
    keccak256_of(pack_seq(v)) + address_word(ep) + be_bytes_of(chain_id as int, 32)
}

/// The 32-byte identity of a user operation under one entry point and chain.
pub open spec fn uo_hash_seq(v: UserOperationView, ep: Address, chain_id: u64) -> Seq<u8> {
    keccak256_of(hash_preimage_seq(v, ep, chain_id))
}

/// The identity as a [`crate::types::Hash256`] value.
pub open spec fn uo_hash_value(v: UserOperationView, ep: Address, chain_id: u64) -> UserOperationHash {
    crate::hashing::hash256_of_seq(uo_hash_seq(v, ep, chain_id))
}

impl UserOperation {
    /// The factory entity, read from `init_code`.
    pub fn get_factory(&self) -> (r: Option<Address>)
        ensures
            r == factory_of(self@),
    {
        if self.init_code.len() >= 20 {
            let a = Address::from_be_bytes(&self.init_code, 0);
            proof {
                let s = self.init_code@;
                assert(s.subrange(0, 4) =~= s.subrange(0 as int, 0 as int + 4));
                assert(s.subrange(4, 20) =~= s.subrange(0 as int + 4, 0 as int + 20));
                lemma_be_val_bound(s.subrange(0, 4));
                lemma_be_val_bound(s.subrange(4, 20));
                assert(pow256(4) == 0x100000000) by {
                    reveal_with_fuel(pow256, 5);
                }
                crate::bytes::lemma_pow256_16();
            }
            Some(a)
        } else {
            None
        }
    }

    /// The paymaster entity, read from `paymaster_and_data`.
    pub fn get_paymaster(&self) -> (r: Option<Address>)
        ensures
            r == paymaster_of(self@),
    {
        if self.paymaster_and_data.len() >= 20 {
            let a = Address::from_be_bytes(&self.paymaster_and_data, 0);
            proof {
                let s = self.paymaster_and_data@;
                assert(s.subrange(0, 4) =~= s.subrange(0 as int, 0 as int + 4));
                assert(s.subrange(4, 20) =~= s.subrange(0 as int + 4, 0 as int + 20));
                lemma_be_val_bound(s.subrange(0, 4));
                lemma_be_val_bound(s.subrange(4, 20));
                assert(pow256(4) == 0x100000000) by {
                    reveal_with_fuel(pow256, 5);
                }
                crate::bytes::lemma_pow256_16();
            }
            Some(a)
        } else {
            None
        }
    }

    /// Packs the operation for hashing.
    pub fn pack(&self) -> (r: Vec<u8>)
        ensures
            r@ == pack_seq(self@),
    {
        let mut r = address_word_bytes(&self.sender);
        let mut w = self.nonce.to_be_bytes();
        r.append(&mut w);
        let mut w = keccak256_bytes(&self.init_code);
        r.append(&mut w);
        let mut w = keccak256_bytes(&self.call_data);
        r.append(&mut w);
        let mut w = self.call_gas_limit.to_be_bytes();
        r.append(&mut w);
        let mut w = self.verification_gas_limit.to_be_bytes();
        r.append(&mut w);
        let mut w = self.pre_verification_gas.to_be_bytes();
        r.append(&mut w);
        let mut w = self.max_fee_per_gas.to_be_bytes();
        r.append(&mut w);
        let mut w = self.max_priority_fee_per_gas.to_be_bytes();
        r.append(&mut w);
        let mut w = keccak256_bytes(&self.paymaster_and_data);
        r.append(&mut w);
        r
    }

    /// The hash identity of the operation under one entry point and chain.
    pub fn hash(&self, ep: &Address, chain_id: u64) -> (r: UserOperationHash)
        ensures
            hash256_seq(r) == uo_hash_seq(self@, *ep, chain_id),
            r == uo_hash_value(self@, *ep, chain_id),
    {
        let packed = self.pack();
        let packed_digest = keccak256_bytes(&packed);
        let mut preimage = packed_digest;
        let mut w = address_word_bytes(ep);
        preimage.append(&mut w);
        let mut w = U256::from_u128(chain_id as u128).to_be_bytes();
        proof {
            assert(U256::spec_from_u128(chain_id as u128).val() == chain_id);
        }
        preimage.append(&mut w);
        let digest = keccak256_bytes(&preimage);
        hash256_from_digest(&digest)
    }
}

} // verus!
