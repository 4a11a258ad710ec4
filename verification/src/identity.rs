//! The identity of a vault item: a person and how to reach them.

use vstd::prelude::*;
use crate::capability::{
    field_opened, field_sealable, field_sealed, lemma_field_round_trip, KeyDecryptable,
    KeyEncryptable,
};
use crate::error::CipherError;
use crate::key::{EncString, SymmetricCryptoKey};

verus! {

/// An identity, each of its fields held as a `T`: a payload at rest, text in
/// the clear.
#[derive(Debug, PartialEq, Eq)]
pub struct IdentityFields<T> {
    pub title: Option<T>,
    pub first_name: Option<T>,
    pub middle_name: Option<T>,
    pub last_name: Option<T>,
    pub address1: Option<T>,
    pub address2: Option<T>,
    pub address3: Option<T>,
    pub city: Option<T>,
    pub state: Option<T>,
    pub postal_code: Option<T>,
    pub country: Option<T>,
    pub company: Option<T>,
    pub email: Option<T>,
    pub phone: Option<T>,
    pub ssn: Option<T>,
    pub username: Option<T>,
    pub passport_number: Option<T>,
    pub license_number: Option<T>,
}

/// An identity at rest.
pub type Identity = IdentityFields<EncString>;

/// An identity in the clear.
pub type IdentityView = IdentityFields<String>;

impl<T: DeepView> DeepView for IdentityFields<T> {
    type V = IdentityFields<T::V>;

    open spec fn deep_view(&self) -> IdentityFields<T::V> {
        IdentityFields {
            title: self.title.deep_view(),
            first_name: self.first_name.deep_view(),
            middle_name: self.middle_name.deep_view(),
            last_name: self.last_name.deep_view(),
            address1: self.address1.deep_view(),
            address2: self.address2.deep_view(),
            address3: self.address3.deep_view(),
            city: self.city.deep_view(),
            state: self.state.deep_view(),
            postal_code: self.postal_code.deep_view(),
            country: self.country.deep_view(),
            company: self.company.deep_view(),
            email: self.email.deep_view(),
            phone: self.phone.deep_view(),
            ssn: self.ssn.deep_view(),
            username: self.username.deep_view(),
            passport_number: self.passport_number.deep_view(),
            license_number: self.license_number.deep_view(),
        }
    }
}

impl<K: SymmetricCryptoKey> KeyDecryptable<K, IdentityFields<String>> for IdentityFields<EncString> {
    /// Every field decrypted, where every field decrypts.
    open spec fn decrypted(&self, key: Seq<u8>) -> Result<IdentityFields<Seq<char>>, CipherError> {
        let title = field_opened::<K>(key, self.title);
        let first_name = field_opened::<K>(key, self.first_name);
        let middle_name = field_opened::<K>(key, self.middle_name);
        let last_name = field_opened::<K>(key, self.last_name);
        let address1 = field_opened::<K>(key, self.address1);
        let address2 = field_opened::<K>(key, self.address2);
        let address3 = field_opened::<K>(key, self.address3);
        let city = field_opened::<K>(key, self.city);
        let state = field_opened::<K>(key, self.state);
        let postal_code = field_opened::<K>(key, self.postal_code);
        let country = field_opened::<K>(key, self.country);
        let company = field_opened::<K>(key, self.company);
        let email = field_opened::<K>(key, self.email);
        let phone = field_opened::<K>(key, self.phone);
        let ssn = field_opened::<K>(key, self.ssn);
        let username = field_opened::<K>(key, self.username);
        let passport_number = field_opened::<K>(key, self.passport_number);
        let license_number = field_opened::<K>(key, self.license_number);
        if title is Ok && first_name is Ok && middle_name is Ok && last_name is Ok
            && address1 is Ok && address2 is Ok && address3 is Ok && city is Ok && state is Ok
            && postal_code is Ok && country is Ok && company is Ok && email is Ok && phone is Ok
            && ssn is Ok && username is Ok && passport_number is Ok && license_number is Ok {
            Ok(
                IdentityFields {
                    title: title->Ok_0,
                    first_name: first_name->Ok_0,
                    middle_name: middle_name->Ok_0,
                    last_name: last_name->Ok_0,
                    address1: address1->Ok_0,
                    address2: address2->Ok_0,
                    address3: address3->Ok_0,
                    city: city->Ok_0,
                    state: state->Ok_0,
                    postal_code: postal_code->Ok_0,
                    country: country->Ok_0,
                    company: company->Ok_0,
                    email: email->Ok_0,
                    phone: phone->Ok_0,
                    ssn: ssn->Ok_0,
                    username: username->Ok_0,
                    passport_number: passport_number->Ok_0,
                    license_number: license_number->Ok_0,
                },
            )
        } else {
            Err(CipherError::CryptoFailure)
        }
    }

    fn decrypt_with_key(&self, key: &K) -> (out: Result<IdentityFields<String>, CipherError>) {
        Ok(
            IdentityFields {
                title: self.title.decrypt_with_key(key)?,
                first_name: self.first_name.decrypt_with_key(key)?,
                middle_name: self.middle_name.decrypt_with_key(key)?,
                last_name: self.last_name.decrypt_with_key(key)?,
                address1: self.address1.decrypt_with_key(key)?,
                address2: self.address2.decrypt_with_key(key)?,
                address3: self.address3.decrypt_with_key(key)?,
                city: self.city.decrypt_with_key(key)?,
                state: self.state.decrypt_with_key(key)?,
                postal_code: self.postal_code.decrypt_with_key(key)?,
                country: self.country.decrypt_with_key(key)?,
                company: self.company.decrypt_with_key(key)?,
                email: self.email.decrypt_with_key(key)?,
                phone: self.phone.decrypt_with_key(key)?,
                ssn: self.ssn.decrypt_with_key(key)?,
                username: self.username.decrypt_with_key(key)?,
                passport_number: self.passport_number.decrypt_with_key(key)?,
                license_number: self.license_number.decrypt_with_key(key)?,
            },
        )
    }
}

impl<K: SymmetricCryptoKey> KeyEncryptable<K, IdentityFields<EncString>> for IdentityFields<String> {
    open spec fn encrypt_failure(&self, key: Seq<u8>) -> Option<CipherError> {
        if field_sealable::<K>(key, self.title) && field_sealable::<K>(key, self.first_name)
            && field_sealable::<K>(key, self.middle_name)
            && field_sealable::<K>(key, self.last_name) && field_sealable::<K>(key, self.address1)
            && field_sealable::<K>(key, self.address2) && field_sealable::<K>(key, self.address3)
            && field_sealable::<K>(key, self.city) && field_sealable::<K>(key, self.state)
            && field_sealable::<K>(key, self.postal_code) && field_sealable::<K>(key, self.country)
            && field_sealable::<K>(key, self.company) && field_sealable::<K>(key, self.email)
            && field_sealable::<K>(key, self.phone) && field_sealable::<K>(key, self.ssn)
            && field_sealable::<K>(key, self.username)
            && field_sealable::<K>(key, self.passport_number)
            && field_sealable::<K>(key, self.license_number) {
            None
        } else {
            Some(CipherError::CryptoFailure)
        }
    }

    open spec fn sealed_as(&self, key: Seq<u8>, out: &IdentityFields<EncString>) -> bool {
        &&& field_sealed::<K>(key, self.title, out.title)
        &&& field_sealed::<K>(key, self.first_name, out.first_name)
        &&& field_sealed::<K>(key, self.middle_name, out.middle_name)
        &&& field_sealed::<K>(key, self.last_name, out.last_name)
        &&& field_sealed::<K>(key, self.address1, out.address1)
        &&& field_sealed::<K>(key, self.address2, out.address2)
        &&& field_sealed::<K>(key, self.address3, out.address3)
        &&& field_sealed::<K>(key, self.city, out.city)
        &&& field_sealed::<K>(key, self.state, out.state)
        &&& field_sealed::<K>(key, self.postal_code, out.postal_code)
        &&& field_sealed::<K>(key, self.country, out.country)
        &&& field_sealed::<K>(key, self.company, out.company)
        &&& field_sealed::<K>(key, self.email, out.email)
        &&& field_sealed::<K>(key, self.phone, out.phone)
        &&& field_sealed::<K>(key, self.ssn, out.ssn)
        &&& field_sealed::<K>(key, self.username, out.username)
        &&& field_sealed::<K>(key, self.passport_number, out.passport_number)
        &&& field_sealed::<K>(key, self.license_number, out.license_number)
    }

    fn encrypt_with_key(self, key: &K) -> (out: Result<IdentityFields<EncString>, CipherError>) {
        Ok(
            IdentityFields {
                title: self.title.encrypt_with_key(key)?,
                first_name: self.first_name.encrypt_with_key(key)?,
                middle_name: self.middle_name.encrypt_with_key(key)?,
                last_name: self.last_name.encrypt_with_key(key)?,
                address1: self.address1.encrypt_with_key(key)?,
                address2: self.address2.encrypt_with_key(key)?,
                address3: self.address3.encrypt_with_key(key)?,
                city: self.city.encrypt_with_key(key)?,
                state: self.state.encrypt_with_key(key)?,
                postal_code: self.postal_code.encrypt_with_key(key)?,
                country: self.country.encrypt_with_key(key)?,
                company: self.company.encrypt_with_key(key)?,
                email: self.email.encrypt_with_key(key)?,
                phone: self.phone.encrypt_with_key(key)?,
                ssn: self.ssn.encrypt_with_key(key)?,
                username: self.username.encrypt_with_key(key)?,
                passport_number: self.passport_number.encrypt_with_key(key)?,
                license_number: self.license_number.encrypt_with_key(key)?,
            },
        )
    }

    proof fn lemma_round_trip(&self, key: Seq<u8>, out: &IdentityFields<EncString>) {
        lemma_field_round_trip::<K>(key, self.title, out.title);
        lemma_field_round_trip::<K>(key, self.first_name, out.first_name);
        lemma_field_round_trip::<K>(key, self.middle_name, out.middle_name);
        lemma_field_round_trip::<K>(key, self.last_name, out.last_name);
        lemma_field_round_trip::<K>(key, self.address1, out.address1);
        lemma_field_round_trip::<K>(key, self.address2, out.address2);
        lemma_field_round_trip::<K>(key, self.address3, out.address3);
        lemma_field_round_trip::<K>(key, self.city, out.city);
        lemma_field_round_trip::<K>(key, self.state, out.state);
        lemma_field_round_trip::<K>(key, self.postal_code, out.postal_code);
        lemma_field_round_trip::<K>(key, self.country, out.country);
        lemma_field_round_trip::<K>(key, self.company, out.company);
        lemma_field_round_trip::<K>(key, self.email, out.email);
        lemma_field_round_trip::<K>(key, self.phone, out.phone);
        lemma_field_round_trip::<K>(key, self.ssn, out.ssn);
        lemma_field_round_trip::<K>(key, self.username, out.username);
        lemma_field_round_trip::<K>(key, self.passport_number, out.passport_number);
        lemma_field_round_trip::<K>(key, self.license_number, out.license_number);
    }
}

} // verus!
