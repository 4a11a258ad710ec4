//! The custom fields that a user adds to a vault item.

use vstd::prelude::*;
use crate::capability::{
    field_opened, field_sealable, field_sealed, lemma_field_round_trip, KeyDecryptable,
    KeyEncryptable,
};
use crate::error::CipherError;
use crate::key::{EncString, SymmetricCryptoKey};

verus! {

/// How a custom field is shown and what its value stands for.
#[derive(Clone, Copy, Debug, PartialEq, Eq, Structural)]
pub enum FieldType {
    Text,
    Hidden,
    Boolean,
    /// The value is that of another field of the item, named by `linked_id`.
    Linked,
}

/// A custom field, its name and value held as a `T`: a payload at rest, text
/// in the clear.
#[derive(Debug, PartialEq, Eq)]
pub struct FieldFields<T> {
    pub name: Option<T>,
    pub value: Option<T>,
    pub kind: FieldType,
    pub linked_id: Option<u32>,
}

/// A custom field at rest.
pub type Field = FieldFields<EncString>;

/// A custom field in the clear.
pub type FieldView = FieldFields<String>;

impl<T: DeepView> DeepView for FieldFields<T> {
    type V = FieldFields<T::V>;

    open spec fn deep_view(&self) -> FieldFields<T::V> {
        FieldFields {
            name: self.name.deep_view(),
            value: self.value.deep_view(),
            kind: self.kind,
            linked_id: self.linked_id,
        }
    }
}

impl<K: SymmetricCryptoKey> KeyDecryptable<K, FieldFields<String>> for FieldFields<EncString> {
    /// Every text decrypted, where every text decrypts; the rest as it is.
    open spec fn decrypted(&self, key: Seq<u8>) -> Result<FieldFields<Seq<char>>, CipherError> {
        let name = field_opened::<K>(key, self.name);
        let value = field_opened::<K>(key, self.value);
        if name is Ok && value is Ok {
            Ok(
                FieldFields {
                    name: name->Ok_0,
                    value: value->Ok_0,
                    kind: self.kind,
                    linked_id: self.linked_id,
                },
            )
        } else {
            Err(CipherError::CryptoFailure)
        }
    }

    fn decrypt_with_key(&self, key: &K) -> (out: Result<FieldFields<String>, CipherError>) {
        Ok(
            FieldFields {
                name: self.name.decrypt_with_key(key)?,
                value: self.value.decrypt_with_key(key)?,
                kind: self.kind,
                linked_id: self.linked_id,
            },
        )
    }
}

impl<K: SymmetricCryptoKey> KeyEncryptable<K, FieldFields<EncString>> for FieldFields<String> {
    open spec fn encrypt_failure(&self, key: Seq<u8>) -> Option<CipherError> {
        if field_sealable::<K>(key, self.name) && field_sealable::<K>(key, self.value) {
            None
        } else {
            Some(CipherError::CryptoFailure)
        }
    }

    open spec fn sealed_as(&self, key: Seq<u8>, out: &FieldFields<EncString>) -> bool {
        &&& field_sealed::<K>(key, self.name, out.name)
        &&& field_sealed::<K>(key, self.value, out.value)
        &&& out.kind == self.kind
        &&& out.linked_id == self.linked_id
    }

    fn encrypt_with_key(self, key: &K) -> (out: Result<FieldFields<EncString>, CipherError>) {
        Ok(
            FieldFields {
                name: self.name.encrypt_with_key(key)?,
                value: self.value.encrypt_with_key(key)?,
                kind: self.kind,
                linked_id: self.linked_id,
            },
        )
    }

    proof fn lemma_round_trip(&self, key: Seq<u8>, out: &FieldFields<EncString>) {
        lemma_field_round_trip::<K>(key, self.name, out.name);
        lemma_field_round_trip::<K>(key, self.value, out.value);
    }
}

} // verus!
