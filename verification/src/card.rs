//! The payment card of a vault item.

use vstd::prelude::*;
use crate::capability::{
    field_opened, field_sealable, field_sealed, lemma_field_round_trip, KeyDecryptable,
    KeyEncryptable,
};
use crate::error::CipherError;
use crate::key::{EncString, SymmetricCryptoKey};

verus! {

/// A payment card, each of its fields held as a `T`: a payload at rest, text
/// in the clear.
#[derive(Debug, PartialEq, Eq)]
pub struct CardFields<T> {
    pub cardholder_name: Option<T>,
    pub exp_month: Option<T>,
    pub exp_year: Option<T>,
    pub code: Option<T>,
    pub brand: Option<T>,
    pub number: Option<T>,
}

/// A card at rest.
pub type Card = CardFields<EncString>;

/// A card in the clear.
pub type CardView = CardFields<String>;

impl<T: DeepView> DeepView for CardFields<T> {
    type V = CardFields<T::V>;

    open spec fn deep_view(&self) -> CardFields<T::V> {
        CardFields {
            cardholder_name: self.cardholder_name.deep_view(),
            exp_month: self.exp_month.deep_view(),
            exp_year: self.exp_year.deep_view(),
            code: self.code.deep_view(),
            brand: self.brand.deep_view(),
            number: self.number.deep_view(),
        }
    }
}

impl<K: SymmetricCryptoKey> KeyDecryptable<K, CardFields<String>> for CardFields<EncString> {
    /// Every field decrypted, where every field decrypts.
    open spec fn decrypted(&self, key: Seq<u8>) -> Result<CardFields<Seq<char>>, CipherError> {
        let cardholder_name = field_opened::<K>(key, self.cardholder_name);
        let exp_month = field_opened::<K>(key, self.exp_month);
        let exp_year = field_opened::<K>(key, self.exp_year);
        let code = field_opened::<K>(key, self.code);
        let brand = field_opened::<K>(key, self.brand);
        let number = field_opened::<K>(key, self.number);
        if cardholder_name is Ok && exp_month is Ok && exp_year is Ok && code is Ok && brand is Ok
            && number is Ok {
            Ok(
                CardFields {
                    cardholder_name: cardholder_name->Ok_0,
                    exp_month: exp_month->Ok_0,
                    exp_year: exp_year->Ok_0,
                    code: code->Ok_0,
                    brand: brand->Ok_0,
                    number: number->Ok_0,
                },
            )
        } else {
            Err(CipherError::CryptoFailure)
        }
    }

    fn decrypt_with_key(&self, key: &K) -> (out: Result<CardFields<String>, CipherError>) {
        Ok(
            CardFields {
                cardholder_name: self.cardholder_name.decrypt_with_key(key)?,
                exp_month: self.exp_month.decrypt_with_key(key)?,
                exp_year: self.exp_year.decrypt_with_key(key)?,
                code: self.code.decrypt_with_key(key)?,
                brand: self.brand.decrypt_with_key(key)?,
                number: self.number.decrypt_with_key(key)?,
            },
        )
    }
}

impl<K: SymmetricCryptoKey> KeyEncryptable<K, CardFields<EncString>> for CardFields<String> {
    open spec fn encrypt_failure(&self, key: Seq<u8>) -> Option<CipherError> {
        if field_sealable::<K>(key, self.cardholder_name)
            && field_sealable::<K>(key, self.exp_month) && field_sealable::<K>(key, self.exp_year)
            && field_sealable::<K>(key, self.code) && field_sealable::<K>(key, self.brand)
            && field_sealable::<K>(key, self.number) {
            None
        } else {
            Some(CipherError::CryptoFailure)
        }
    }

    open spec fn sealed_as(&self, key: Seq<u8>, out: &CardFields<EncString>) -> bool {
        &&& field_sealed::<K>(key, self.cardholder_name, out.cardholder_name)
        &&& field_sealed::<K>(key, self.exp_month, out.exp_month)
        &&& field_sealed::<K>(key, self.exp_year, out.exp_year)
        &&& field_sealed::<K>(key, self.code, out.code)
        &&& field_sealed::<K>(key, self.brand, out.brand)
        &&& field_sealed::<K>(key, self.number, out.number)
    }

    fn encrypt_with_key(self, key: &K) -> (out: Result<CardFields<EncString>, CipherError>) {
        Ok(
            CardFields {
                cardholder_name: self.cardholder_name.encrypt_with_key(key)?,
                exp_month: self.exp_month.encrypt_with_key(key)?,
                exp_year: self.exp_year.encrypt_with_key(key)?,
                code: self.code.encrypt_with_key(key)?,
                brand: self.brand.encrypt_with_key(key)?,
                number: self.number.encrypt_with_key(key)?,
            },
        )
    }

    proof fn lemma_round_trip(&self, key: Seq<u8>, out: &CardFields<EncString>) {
        lemma_field_round_trip::<K>(key, self.cardholder_name, out.cardholder_name);
        lemma_field_round_trip::<K>(key, self.exp_month, out.exp_month);
        lemma_field_round_trip::<K>(key, self.exp_year, out.exp_year);
        lemma_field_round_trip::<K>(key, self.code, out.code);
        lemma_field_round_trip::<K>(key, self.brand, out.brand);
        lemma_field_round_trip::<K>(key, self.number, out.number);
    }
}

} // verus!
