//! A key that hides nothing.
//!
//! [`TransparentKey`] meets the contract of [`SymmetricCryptoKey`] with a
//! sealing that anyone can read: a payload is the key's material followed by
//! the plaintext. It keeps no secret, and it does not notice a plaintext that
//! was changed. What it keeps is the behaviour that the conversions depend on:
//! a payload opens under the material it was sealed with and under no other,
//! and a payload too short to hold the material does not open. It is there to
//! exercise the conversions where no cipher is at hand, and it shows that the
//! contract can be met.

use vstd::prelude::*;
use vstd::slice::{slice_subrange, slice_to_vec};
use crate::key::{EncString, SymmetricCryptoKey};

verus! {

/// The length of the material of a [`TransparentKey`], in bytes.
pub const KEY_LEN: usize = 64;

/// The longest plaintext that a [`TransparentKey`] seals, in bytes.
pub const MAX_PLAIN_LEN: usize = 1048576;

/// A key whose payloads are its material followed by the plaintext.
#[derive(Debug, PartialEq, Eq)]
pub struct TransparentKey {
    material: Vec<u8>,
}

impl View for TransparentKey {
    type V = Seq<u8>;

    closed spec fn view(&self) -> Seq<u8> {
        self.material@
    }
}

impl TransparentKey {
    #[verifier::type_invariant]
    spec fn well_formed(&self) -> bool {
        self.material@.len() == KEY_LEN
    }

    /// The material of the key, which is `KEY_LEN` bytes long.
    pub fn as_bytes(&self) -> (material: &[u8])
        ensures
            material@ == self@,
            material@.len() == KEY_LEN,
    {
        proof {
            use_type_invariant(self);
        }
        self.material.as_slice()
    }
}

impl SymmetricCryptoKey for TransparentKey {
    open spec fn valid_material(material: Seq<u8>) -> bool {
        material.len() == KEY_LEN
    }

    open spec fn opened(material: Seq<u8>, payload: Seq<u8>) -> Option<Seq<u8>> {
        if material.len() <= payload.len() && payload.subrange(0, material.len() as int) == material {
            Some(payload.subrange(material.len() as int, payload.len() as int))
        } else {
            None
        }
    }

    open spec fn sealable(material: Seq<u8>, plain: Seq<u8>) -> bool {
        plain.len() <= MAX_PLAIN_LEN
    }

    fn from_bytes(material: &[u8]) -> (key: Option<TransparentKey>) {
        if material.len() == KEY_LEN {
            Some(TransparentKey { material: slice_to_vec(material) })
        } else {
            None
        }
    }

    fn open(&self, payload: &EncString) -> (plain: Option<Vec<u8>>) {
        let bytes = payload.as_bytes();
        let n: usize = self.material.len();
        if bytes.len() < n {
            return None;
        }
        let mut i: usize = 0;
        while i < n
            invariant
                i <= n,
                n == self.material@.len(),
                n <= bytes@.len(),
                bytes@ == payload@,
                bytes@.subrange(0, i as int) == self.material@.subrange(0, i as int),
            decreases n - i,
        {
            if bytes[i] != self.material[i] {
                proof {
                    assert(bytes@.subrange(0, n as int)[i as int] != self.material@[i as int]);
                }
                return None;
            }
            proof {
                assert(bytes@.subrange(0, i + 1) =~= bytes@.subrange(0, i as int).push(bytes@[i as int]));
                assert(self.material@.subrange(0, i + 1) =~= self.material@.subrange(0, i as int).push(
                    self.material@[i as int],
                ));
            }
            i = i + 1;
        }
        proof {
            assert(self.material@.subrange(0, n as int) =~= self.material@);
        }
        Some(slice_to_vec(slice_subrange(bytes, n, bytes.len())))
    }

    fn seal(&self, plain: &[u8]) -> (payload: Option<EncString>) {
        if plain.len() > MAX_PLAIN_LEN {
            return None;
        }
        let mut data: Vec<u8> = slice_to_vec(self.material.as_slice());
        let mut i: usize = 0;
        while i < plain.len()
            invariant
                i <= plain@.len(),
                data@ == self.material@ + plain@.subrange(0, i as int),
            decreases plain.len() - i,
        {
            data.push(plain[i]);
            proof {
                assert(plain@.subrange(0, i + 1) =~= plain@.subrange(0, i as int).push(plain@[i as int]));
            }
            i = i + 1;
        }
        proof {
            assert(plain@.subrange(0, plain@.len() as int) =~= plain@);
            assert(data@.subrange(0, self.material@.len() as int) =~= self.material@);
            assert(data@.subrange(self.material@.len() as int, data@.len() as int) =~= plain@);
        }
        Some(EncString::new(data))
    }
}

} // verus!
