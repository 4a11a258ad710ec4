//! What a device remembers of its own use of a vault item. None of it is
//! encrypted.

use vstd::prelude::*;
use crate::capability::{KeyDecryptable, KeyEncryptable};
use crate::error::CipherError;
use crate::key::SymmetricCryptoKey;

verus! {

/// When a device last used and last launched an item, the same at rest and in
/// the clear.
#[derive(Clone, Copy, Debug, PartialEq, Eq, Structural)]
pub struct LocalData {
    pub last_used_date: Option<u32>,
    pub last_launched: Option<u32>,
}

/// Local data in the clear.
pub type LocalDataView = LocalData;

impl DeepView for LocalData {
    type V = LocalData;

    open spec fn deep_view(&self) -> LocalData {
        *self
    }
}

impl<K: SymmetricCryptoKey> KeyDecryptable<K, LocalData> for LocalData {
    open spec fn decrypted(&self, key: Seq<u8>) -> Result<LocalData, CipherError> {
        Ok(*self)
    }

    fn decrypt_with_key(&self, key: &K) -> (out: Result<LocalData, CipherError>) {
        Ok(LocalData { last_used_date: self.last_used_date, last_launched: self.last_launched })
    }
}

impl<K: SymmetricCryptoKey> KeyEncryptable<K, LocalData> for LocalData {
    open spec fn encrypt_failure(&self, key: Seq<u8>) -> Option<CipherError> {
        None
    }

    open spec fn sealed_as(&self, key: Seq<u8>, out: &LocalData) -> bool {
        *out == *self
    }

    fn encrypt_with_key(self, key: &K) -> (out: Result<LocalData, CipherError>) {
        Ok(self)
    }

    proof fn lemma_round_trip(&self, key: Seq<u8>, out: &LocalData) {
    }
}

} // verus!
