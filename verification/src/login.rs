//! The login of a vault item: the credentials of an account.

use vstd::prelude::*;
use chrono::NaiveDateTime;
use crate::capability::{
    field_opened, field_sealable, field_sealed, lemma_field_round_trip, KeyDecryptable,
    KeyEncryptable,
};
use crate::error::CipherError;
use crate::key::{EncString, SymmetricCryptoKey};

verus! {

/// A login, each of its texts held as a `T`: a payload at rest, text in the
/// clear.
#[derive(Debug, PartialEq, Eq)]
pub struct LoginFields<T> {
    pub username: Option<T>,
    pub password: Option<T>,
    pub password_revision_date: Option<NaiveDateTime>,
    pub uri: Option<T>,
    pub totp: Option<T>,
    pub autofill_on_page_load: Option<bool>,
}

/// A login at rest.
pub type Login = LoginFields<EncString>;

/// A login in the clear.
pub type LoginView = LoginFields<String>;

impl<T: DeepView> DeepView for LoginFields<T> {
    type V = LoginFields<T::V>;

    open spec fn deep_view(&self) -> LoginFields<T::V> {
        LoginFields {
            username: self.username.deep_view(),
            password: self.password.deep_view(),
            password_revision_date: self.password_revision_date,
            uri: self.uri.deep_view(),
            totp: self.totp.deep_view(),
            autofill_on_page_load: self.autofill_on_page_load,
        }
    }
}

impl<K: SymmetricCryptoKey> KeyDecryptable<K, LoginFields<String>> for LoginFields<EncString> {
    /// Every text decrypted, where every text decrypts; the rest as it is.
    open spec fn decrypted(&self, key: Seq<u8>) -> Result<LoginFields<Seq<char>>, CipherError> {
        let username = field_opened::<K>(key, self.username);
        let password = field_opened::<K>(key, self.password);
        let uri = field_opened::<K>(key, self.uri);
        let totp = field_opened::<K>(key, self.totp);
        if username is Ok && password is Ok && uri is Ok && totp is Ok {
            Ok(
                LoginFields {
                    username: username->Ok_0,
                    password: password->Ok_0,
                    password_revision_date: self.password_revision_date,
                    uri: uri->Ok_0,
                    totp: totp->Ok_0,
                    autofill_on_page_load: self.autofill_on_page_load,
                },
            )
        } else {
            Err(CipherError::CryptoFailure)
        }
    }

    fn decrypt_with_key(&self, key: &K) -> (out: Result<LoginFields<String>, CipherError>) {
        Ok(
            LoginFields {
                username: self.username.decrypt_with_key(key)?,
                password: self.password.decrypt_with_key(key)?,
                password_revision_date: self.password_revision_date,
                uri: self.uri.decrypt_with_key(key)?,
                totp: self.totp.decrypt_with_key(key)?,
                autofill_on_page_load: self.autofill_on_page_load,
            },
        )
    }
}

impl<K: SymmetricCryptoKey> KeyEncryptable<K, LoginFields<EncString>> for LoginFields<String> {
    open spec fn encrypt_failure(&self, key: Seq<u8>) -> Option<CipherError> {
        if field_sealable::<K>(key, self.username) && field_sealable::<K>(key, self.password)
            && field_sealable::<K>(key, self.uri) && field_sealable::<K>(key, self.totp) {
            None
        } else {
            Some(CipherError::CryptoFailure)
        }
    }

    open spec fn sealed_as(&self, key: Seq<u8>, out: &LoginFields<EncString>) -> bool {
        &&& field_sealed::<K>(key, self.username, out.username)
        &&& field_sealed::<K>(key, self.password, out.password)
        &&& out.password_revision_date == self.password_revision_date
        &&& field_sealed::<K>(key, self.uri, out.uri)
        &&& field_sealed::<K>(key, self.totp, out.totp)
        &&& out.autofill_on_page_load == self.autofill_on_page_load
    }

    fn encrypt_with_key(self, key: &K) -> (out: Result<LoginFields<EncString>, CipherError>) {
        Ok(
            LoginFields {
                username: self.username.encrypt_with_key(key)?,
                password: self.password.encrypt_with_key(key)?,
                password_revision_date: self.password_revision_date,
                uri: self.uri.encrypt_with_key(key)?,
                totp: self.totp.encrypt_with_key(key)?,
                autofill_on_page_load: self.autofill_on_page_load,
            },
        )
    }

    proof fn lemma_round_trip(&self, key: Seq<u8>, out: &LoginFields<EncString>) {
        lemma_field_round_trip::<K>(key, self.username, out.username);
        lemma_field_round_trip::<K>(key, self.password, out.password);
        lemma_field_round_trip::<K>(key, self.uri, out.uri);
        lemma_field_round_trip::<K>(key, self.totp, out.totp);
    }
}

} // verus!
