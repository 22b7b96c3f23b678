//! The 256-byte authorization key that the key exchange produces.

use vstd::prelude::*;
use crate::crypto::sha::{sha1, spec_sha1};
use crate::tl::wire::{bytes_eq, load_array, push_all};

verus! {

/// An authorization key with its two identifiers, which are cut from the
/// SHA-1 digest of the key.
#[derive(Clone, Copy, Debug)]
pub struct AuthKey {
    pub(crate) data: [u8; 256],
    pub(crate) aux_hash: [u8; 8],
    pub(crate) key_id: [u8; 8],
}

/// The auxiliary hash of a key: the first 8 bytes of its SHA-1 digest.
pub open spec fn spec_aux_hash(key: Seq<u8>) -> Seq<u8> {
    spec_sha1(key).subrange(0, 8)
}

/// The identifier of a key: bytes 12 to 20 of its SHA-1 digest.
pub open spec fn spec_key_id(key: Seq<u8>) -> Seq<u8> {
    spec_sha1(key).subrange(12, 20)
}

/// The hash that the server's last answer of the key exchange carries:
/// the last 16 bytes of the SHA-1 digest of the new nonce, the answer's
/// number and the key's auxiliary hash.
pub open spec fn spec_new_nonce_hash(key: Seq<u8>, new_nonce: Seq<u8>, number: u8) -> Seq<u8> {
    spec_sha1(new_nonce + seq![number] + spec_aux_hash(key)).subrange(4, 20)
}

impl AuthKey {
    #[verifier::type_invariant]
    pub closed spec fn wf(self) -> bool {
        &&& self.aux_hash@ == spec_aux_hash(self.data@)
        &&& self.key_id@ == spec_key_id(self.data@)
    }

    /// The 256 bytes of the key.
    pub closed spec fn bytes(self) -> Seq<u8> {
        self.data@
    }

    /// The key made of `data`.
    pub fn from_bytes(data: [u8; 256]) -> (k: Self)
        ensures
            k.bytes() == data@,
    {
        let sha = sha1(data.as_slice());
        let aux_hash: [u8; 8] = load_array::<8>(sha.as_slice(), 0);
        let key_id: [u8; 8] = load_array::<8>(sha.as_slice(), 12);
        Self { data, aux_hash, key_id }
    }

    /// The 256 bytes of the key.
    pub fn to_bytes(&self) -> (b: [u8; 256])
        ensures
            b@ == self.bytes(),
    {
        self.data
    }

    /// The 8-byte identifier of the key.
    pub fn key_id(&self) -> (id: [u8; 8])
        ensures
            id@ == spec_key_id(self.bytes()),
    {
        proof {
            use_type_invariant(self);
        }
        self.key_id
    }

    /// The hash of `new_nonce` that the answer numbered `number` must carry.
    pub fn calc_new_nonce_hash(&self, new_nonce: &[u8; 32], number: u8) -> (h: [u8; 16])
        ensures
            h@ == spec_new_nonce_hash(self.bytes(), new_nonce@, number),
    {
        proof {
            use_type_invariant(self);
        }
        let mut data: Vec<u8> = Vec::new();
        push_all(&mut data, new_nonce.as_slice());
        data.push(number);
        push_all(&mut data, self.aux_hash.as_slice());
        assert(data@ =~= new_nonce@ + seq![number] + spec_aux_hash(self.bytes()));
        let sha = sha1(data.as_slice());
        load_array::<16>(sha.as_slice(), 4)
    }

    /// Whether two keys have the same identifier.
    pub fn same_id(&self, other: &Self) -> (same: bool)
        ensures
            same == (spec_key_id(self.bytes()) == spec_key_id(other.bytes())),
    {
        proof {
            use_type_invariant(self);
            use_type_invariant(other);
        }
        bytes_eq(self.key_id.as_slice(), other.key_id.as_slice())
    }
}

} // verus!
