//! The secure note of a vault item. Its text is the item's notes; the note
//! itself says only of what sort it is, and that is not encrypted.

use vstd::prelude::*;
use crate::capability::{KeyDecryptable, KeyEncryptable};
use crate::error::CipherError;
use crate::key::SymmetricCryptoKey;

verus! {

/// The sorts of secure note.
#[derive(Clone, Copy, Debug, PartialEq, Eq, Structural)]
pub enum SecureNoteType {
    Generic,
}

/// A secure note, the same at rest and in the clear.
#[derive(Clone, Copy, Debug, PartialEq, Eq, Structural)]
pub struct SecureNote {
    pub kind: SecureNoteType,
}

/// A secure note in the clear.
pub type SecureNoteView = SecureNote;

impl DeepView for SecureNote {
    type V = SecureNote;

    open spec fn deep_view(&self) -> SecureNote {
        *self
    }
}

impl<K: SymmetricCryptoKey> KeyDecryptable<K, SecureNote> for SecureNote {
    open spec fn decrypted(&self, key: Seq<u8>) -> Result<SecureNote, CipherError> {
        Ok(*self)
    }

    fn decrypt_with_key(&self, key: &K) -> (out: Result<SecureNote, CipherError>) {
        Ok(SecureNote { kind: self.kind })
    }
}

impl<K: SymmetricCryptoKey> KeyEncryptable<K, SecureNote> for SecureNote {
    open spec fn encrypt_failure(&self, key: Seq<u8>) -> Option<CipherError> {
        None
    }

    open spec fn sealed_as(&self, key: Seq<u8>, out: &SecureNote) -> bool {
        *out == *self
    }

    fn encrypt_with_key(self, key: &K) -> (out: Result<SecureNote, CipherError>) {
        Ok(self)
    }

    proof fn lemma_round_trip(&self, key: Seq<u8>, out: &SecureNote) {
    }
}

} // verus!
