//! Secp256k1 signing keys and EIP-191 message signatures, computed by
//! `alloy`'s local signer.

use crate::abi::be_value;
use crate::text::{decode_hex, hex_decode};
use alloy::signers::SignerSync;
use vstd::prelude::*;

verus! {

/// The order of the secp256k1 group.
pub open spec fn secp256k1_order() -> nat {
    0xFFFFFFFF_FFFFFFFF_FFFFFFFF_FFFFFFFE_BAAEDCE6_AF48A03B_BFD25E8C_D0364141nat
}

/// Whether 32 bytes are a valid secret key: a non-zero scalar below the
/// group order, read big-endian.
pub open spec fn valid_secret(key: Seq<u8>) -> bool {
    0 < be_value(key) < secp256k1_order()
}

/// A name for what signing a message with a key under EIP-191 gives: the
/// 65-byte signature (r, s, v), or none where the signer reports an error.
/// The signer's ECDSA nonce is derived from the key and the hash alone
/// (RFC 6979), so the outcome depends on nothing else.
pub uninterp spec fn eip191_signature(key: Seq<u8>, message: Seq<u8>) -> Option<Seq<u8>>;

/// A name for what signing a 32-byte hash with a key, as it is and without
/// any prefix, gives: the 65-byte signature (r, s, v), or none where the
/// signer reports an error. As above, the outcome depends on the key and
/// the hash alone.
pub uninterp spec fn prehash_signature(key: Seq<u8>, hash: Seq<u8>) -> Option<Seq<u8>>;

/// Whether `PrivateKeySigner::from_bytes` accepts the key: exactly when it
/// is a non-zero scalar below the secp256k1 order.
#[verifier::external_body]
pub(crate) fn signing_key_is_valid(key: &[u8; 32]) -> (r: bool)
    ensures
        r == valid_secret(key@),
{
    alloy::signers::local::PrivateKeySigner::from_bytes(&alloy::primitives::B256::from(*key)).is_ok()
}

/// `SignerSync::sign_message_sync` of the local signer made from the key:
/// the EIP-191 signature of the message as its 65 bytes, or `None` where the
/// signer reports an error. Both outcomes are named by `eip191_signature`.
#[verifier::external_body]
pub(crate) fn sign_message(key: &[u8; 32], message: &[u8]) -> (r: Option<Vec<u8>>)
    requires
        valid_secret(key@),
    ensures
        match r {
            Some(s) => eip191_signature(key@, message@) == Some(s@),
            None => eip191_signature(key@, message@) is None,
        },
{
    let signer = alloy::signers::local::PrivateKeySigner::from_bytes(
        &alloy::primitives::B256::from(*key),
    ).unwrap();
    match signer.sign_message_sync(message) {
        Ok(sig) => Some(sig.as_bytes().to_vec()),
        Err(_) => None,
    }
}

/// `SignerSync::sign_hash_sync` of the local signer made from the key: the
/// signature of the hash itself as its 65 bytes, or `None` where the signer
/// reports an error. Both outcomes are named by `prehash_signature`.
#[verifier::external_body]
pub(crate) fn sign_hash(key: &[u8; 32], hash: &[u8; 32]) -> (r: Option<Vec<u8>>)
    requires
        valid_secret(key@),
    ensures
        match r {
            Some(s) => prehash_signature(key@, hash@) == Some(s@),
            None => prehash_signature(key@, hash@) is None,
        },
{
    let signer = alloy::signers::local::PrivateKeySigner::from_bytes(
        &alloy::primitives::B256::from(*key),
    ).unwrap();
    match signer.sign_hash_sync(&alloy::primitives::B256::from(*hash)) {
        Ok(sig) => Some(sig.as_bytes().to_vec()),
        Err(_) => None,
    }
}

/// The key that hexadecimal text names: 64 digits after an optional "0x",
/// read as 32 bytes, if they make a valid secret key.
pub open spec fn parse_key_spec(text: Seq<char>) -> Option<Seq<u8>> {
    match hex_decode(text) {
        Some(b) => if b.len() == 32 && valid_secret(b) {
            Some(b)
        } else {
            None
        },
        None => None,
    }
}

/// Reads a private key from hexadecimal text, as `PrivateKeySigner`'s
/// `FromStr` does.
pub fn parse_private_key(text: &str) -> (r: Option<[u8; 32]>)
    ensures
        match r {
            Some(k) => parse_key_spec(text@) == Some(k@),
            None => parse_key_spec(text@) is None,
        },
{
    let bytes = match decode_hex(text) {
        Ok(b) => b,
        Err(_) => return None,
    };
    if bytes.len() != 32 {
        return None;
    }
    let mut key = [0u8; 32];
    let mut i: usize = 0;
    while i < 32
        invariant
            bytes@.len() == 32,
            i <= 32,
            forall|j: int| 0 <= j < i ==> key@[j] == bytes@[j],
        decreases 32 - i,
    {
        key[i] = bytes[i];
        i = i + 1;
    }
    proof {
        assert(key@ =~= bytes@);
    }
    if !signing_key_is_valid(&key) {
        return None;
    }
    Some(key)
}

} // verus!
