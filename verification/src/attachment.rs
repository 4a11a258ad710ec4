//! The files attached to a vault item.

use vstd::prelude::*;
use crate::capability::{
    field_opened, field_sealable, field_sealed, lemma_field_round_trip, KeyDecryptable,
    KeyEncryptable,
};
use crate::error::CipherError;
use crate::key::{EncString, SymmetricCryptoKey};

verus! {

/// An attachment, its file name held as a `T`: a payload at rest, text in the
/// clear. Where the file lies and how large it is was never encrypted.
#[derive(Debug, PartialEq, Eq)]
pub struct AttachmentFields<T> {
    pub id: Option<String>,
    pub url: Option<String>,
    pub size: Option<u64>,
    pub file_name: Option<T>,
}

/// An attachment at rest.
pub type Attachment = AttachmentFields<EncString>;

/// An attachment in the clear.
pub type AttachmentView = AttachmentFields<String>;

impl<T: DeepView> DeepView for AttachmentFields<T> {
    type V = AttachmentFields<T::V>;

    open spec fn deep_view(&self) -> AttachmentFields<T::V> {
        AttachmentFields {
            id: self.id,
            url: self.url,
            size: self.size,
            file_name: self.file_name.deep_view(),
        }
    }
}

impl<K: SymmetricCryptoKey> KeyDecryptable<K, AttachmentFields<String>> for AttachmentFields<EncString> {
    /// Every text decrypted, where every text decrypts; the rest as it is.
    open spec fn decrypted(&self, key: Seq<u8>) -> Result<AttachmentFields<Seq<char>>, CipherError> {
        let file_name = field_opened::<K>(key, self.file_name);
        if file_name is Ok {
            Ok(
                AttachmentFields {
                    id: self.id,
                    url: self.url,
                    size: self.size,
                    file_name: file_name->Ok_0,
                },
            )
        } else {
            Err(CipherError::CryptoFailure)
        }
    }

    fn decrypt_with_key(&self, key: &K) -> (out: Result<AttachmentFields<String>, CipherError>) {
        Ok(
            AttachmentFields {
                id: self.id.clone(),
                url: self.url.clone(),
                size: self.size,
                file_name: self.file_name.decrypt_with_key(key)?,
            },
        )
    }
}

impl<K: SymmetricCryptoKey> KeyEncryptable<K, AttachmentFields<EncString>> for AttachmentFields<String> {
    open spec fn encrypt_failure(&self, key: Seq<u8>) -> Option<CipherError> {
        if field_sealable::<K>(key, self.file_name) {
            None
        } else {
            Some(CipherError::CryptoFailure)
        }
    }

    open spec fn sealed_as(&self, key: Seq<u8>, out: &AttachmentFields<EncString>) -> bool {
        &&& out.id == self.id
        &&& out.url == self.url
        &&& out.size == self.size
        &&& field_sealed::<K>(key, self.file_name, out.file_name)
    }

    fn encrypt_with_key(self, key: &K) -> (out: Result<AttachmentFields<EncString>, CipherError>) {
        Ok(
            AttachmentFields {
                id: self.id,
                url: self.url,
                size: self.size,
                file_name: self.file_name.encrypt_with_key(key)?,
            },
        )
    }

    proof fn lemma_round_trip(&self, key: Seq<u8>, out: &AttachmentFields<EncString>) {
        lemma_field_round_trip::<K>(key, self.file_name, out.file_name);
    }
}

} // verus!
