//! The passwords that a vault item held before.

use vstd::prelude::*;
use chrono::NaiveDateTime;
use crate::capability::{
    lemma_text_round_trip, text_opened, text_sealable, text_sealed, KeyDecryptable,
    KeyEncryptable,
};
use crate::error::CipherError;
use crate::key::{EncString, SymmetricCryptoKey};

verus! {

/// A former password, held as a `T`: a payload at rest, text in the clear.
#[derive(Debug, PartialEq, Eq)]
pub struct PasswordHistoryFields<T> {
    pub password: T,
    pub last_used_date: NaiveDateTime,
}

/// A former password at rest.
pub type PasswordHistory = PasswordHistoryFields<EncString>;

/// A former password in the clear.
pub type PasswordHistoryView = PasswordHistoryFields<String>;

impl<T: DeepView> DeepView for PasswordHistoryFields<T> {
    type V = PasswordHistoryFields<T::V>;

    open spec fn deep_view(&self) -> PasswordHistoryFields<T::V> {
        PasswordHistoryFields {
            password: self.password.deep_view(),
            last_used_date: self.last_used_date,
        }
    }
}

impl<K: SymmetricCryptoKey> KeyDecryptable<K, PasswordHistoryFields<String>> for PasswordHistoryFields<EncString> {
    /// Every text decrypted, where every text decrypts; the rest as it is.
    open spec fn decrypted(&self, key: Seq<u8>) -> Result<PasswordHistoryFields<Seq<char>>, CipherError> {
        let password = text_opened::<K>(key, self.password@);
        if password is Ok {
            Ok(
                PasswordHistoryFields {
                    password: password->Ok_0,
                    last_used_date: self.last_used_date,
                },
            )
        } else {
            Err(CipherError::CryptoFailure)
        }
    }

    fn decrypt_with_key(&self, key: &K) -> (out: Result<PasswordHistoryFields<String>, CipherError>) {
        Ok(
            PasswordHistoryFields {
                password: self.password.decrypt_with_key(key)?,
                last_used_date: self.last_used_date,
            },
        )
    }
}

impl<K: SymmetricCryptoKey> KeyEncryptable<K, PasswordHistoryFields<EncString>> for PasswordHistoryFields<String> {
    open spec fn encrypt_failure(&self, key: Seq<u8>) -> Option<CipherError> {
        if text_sealable::<K>(key, self.password@) {
            None
        } else {
            Some(CipherError::CryptoFailure)
        }
    }

    open spec fn sealed_as(&self, key: Seq<u8>, out: &PasswordHistoryFields<EncString>) -> bool {
        &&& text_sealed::<K>(key, self.password@, out.password@)
        &&& out.last_used_date == self.last_used_date
    }

    fn encrypt_with_key(self, key: &K) -> (out: Result<PasswordHistoryFields<EncString>, CipherError>) {
        Ok(
            PasswordHistoryFields {
                password: self.password.encrypt_with_key(key)?,
                last_used_date: self.last_used_date,
            },
        )
    }

    proof fn lemma_round_trip(&self, key: Seq<u8>, out: &PasswordHistoryFields<EncString>) {
        lemma_text_round_trip::<K>(key, self.password@, out.password@);
    }
}

} // verus!
