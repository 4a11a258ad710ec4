//! Encrypting and decrypting with a key, as a capability of types.
//!
//! A type at rest is [`KeyDecryptable`] into its counterpart in the clear, and
//! that counterpart is [`KeyEncryptable`] back into it. Payloads and texts have
//! the capability from the cipher. An optional value has it from what it may
//! hold, a list from its items, and a record from its fields: to give a new
//! type the capability is all that it takes to store such a type in a vault
//! item.

use vstd::prelude::*;
use vstd::utf8::*;
use crate::error::CipherError;
use crate::key::{EncString, SymmetricCryptoKey};
use crate::text::text_from_utf8;

verus! {

/// A value at rest that a key turns into an `Output` in the clear.
pub trait KeyDecryptable<K: SymmetricCryptoKey, Output: DeepView> {
    /// What decrypting `self` under the key material `key` comes to: what the
    /// output holds, or the error.
    spec fn decrypted(&self, key: Seq<u8>) -> Result<Output::V, CipherError>;

    /// Decrypts `self` under `key`. Nothing is returned of a value of which a
    /// part does not decrypt.
    fn decrypt_with_key(&self, key: &K) -> (out: Result<Output, CipherError>)
        ensures
            out matches Ok(v) ==> self.decrypted(key@) == Ok::<Output::V, CipherError>(v.deep_view()),
            out matches Err(e) ==> self.decrypted(key@) == Err::<Output::V, CipherError>(e),
    ;
}

/// A value in the clear that a key turns into an `Output` at rest, from which
/// the same key brings it back.
pub trait KeyEncryptable<K: SymmetricCryptoKey, Output: KeyDecryptable<K, Self>>: Sized + DeepView {
    /// The error with which encrypting `self` under the key material `key`
    /// ends, if it fails.
    spec fn encrypt_failure(&self, key: Seq<u8>) -> Option<CipherError>;

    /// Whether `out` is `self`, sealed under the key material `key`. A cipher
    /// may seal one value in many ways; this holds of each.
    spec fn sealed_as(&self, key: Seq<u8>, out: &Output) -> bool;

    /// Encrypts `self` under `key`.
    fn encrypt_with_key(self, key: &K) -> (out: Result<Output, CipherError>)
        ensures
            out matches Ok(c) ==> self.encrypt_failure(key@) is None && self.sealed_as(key@, &c),
            out matches Err(e) ==> self.encrypt_failure(key@) == Some(e),
    ;

    /// What was sealed under a key decrypts under it to what it was.
    proof fn lemma_round_trip(&self, key: Seq<u8>, out: &Output)
        requires
            self.sealed_as(key, out),
        ensures
            out.decrypted(key) == Ok::<Self::V, CipherError>(self.deep_view()),
    ;
}

/// What `item` decrypts to under `key`, as an `O`.
pub open spec fn opened_as<K: SymmetricCryptoKey, O: DeepView, T: KeyDecryptable<K, O>>(
    key: Seq<u8>,
    item: T,
) -> Result<O::V, CipherError> {
    item.decrypted(key)
}

/// The error with which encrypting `item` under `key` into an `O` ends, if it
/// fails.
pub open spec fn seal_failure<K: SymmetricCryptoKey, O: KeyDecryptable<K, T>, T: KeyEncryptable<K, O>>(
    key: Seq<u8>,
    item: T,
) -> Option<CipherError> {
    item.encrypt_failure(key)
}

/// Whether `out` is `item`, sealed under `key`.
pub open spec fn sealed<K: SymmetricCryptoKey, O: KeyDecryptable<K, T>, T: KeyEncryptable<K, O>>(
    key: Seq<u8>,
    item: T,
    out: O,
) -> bool {
    item.sealed_as(key, &out)
}

/// The text that `payload` holds under `key`.
pub open spec fn text_opened<K: SymmetricCryptoKey>(key: Seq<u8>, payload: Seq<u8>) -> Result<Seq<char>, CipherError> {
    match K::opened(key, payload) {
        Some(bytes) => if valid_utf8(bytes) {
            Ok(decode_utf8(bytes))
        } else {
            Err(CipherError::CryptoFailure)
        },
        None => Err(CipherError::CryptoFailure),
    }
}

/// Whether the text `plain` can be sealed under `key`.
pub open spec fn text_sealable<K: SymmetricCryptoKey>(key: Seq<u8>, plain: Seq<char>) -> bool {
    K::sealable(key, encode_utf8(plain))
}

/// Whether `payload` is the text `plain`, sealed under `key`.
pub open spec fn text_sealed<K: SymmetricCryptoKey>(key: Seq<u8>, plain: Seq<char>, payload: Seq<u8>) -> bool {
    K::opened(key, payload) == Some(encode_utf8(plain))
}

/// Text that was sealed under a key decrypts under it to what it was.
pub proof fn lemma_text_round_trip<K: SymmetricCryptoKey>(key: Seq<u8>, plain: Seq<char>, payload: Seq<u8>)
    requires
        text_sealed::<K>(key, plain, payload),
    ensures
        text_opened::<K>(key, payload) == Ok::<Seq<char>, CipherError>(plain),
{
    encode_utf8_valid_utf8(plain);
    encode_utf8_decode_utf8(plain);
}

impl<K: SymmetricCryptoKey> KeyDecryptable<K, String> for EncString {
    open spec fn decrypted(&self, key: Seq<u8>) -> Result<Seq<char>, CipherError> {
        text_opened::<K>(key, self@)
    }

    fn decrypt_with_key(&self, key: &K) -> (out: Result<String, CipherError>) {
        match key.open(self) {
            Some(bytes) => match text_from_utf8(bytes) {
                Some(text) => Ok(text),
                None => Err(CipherError::CryptoFailure),
            },
            None => Err(CipherError::CryptoFailure),
        }
    }
}

impl<K: SymmetricCryptoKey> KeyDecryptable<K, Vec<u8>> for EncString {
    open spec fn decrypted(&self, key: Seq<u8>) -> Result<Seq<u8>, CipherError> {
        match K::opened(key, self@) {
            Some(bytes) => Ok(bytes),
            None => Err(CipherError::CryptoFailure),
        }
    }

    fn decrypt_with_key(&self, key: &K) -> (out: Result<Vec<u8>, CipherError>) {
        match key.open(self) {
            Some(bytes) => {
                assert(bytes.deep_view() =~= bytes@);
                Ok(bytes)
            },
            None => Err(CipherError::CryptoFailure),
        }
    }
}

impl<K: SymmetricCryptoKey> KeyEncryptable<K, EncString> for String {
    open spec fn encrypt_failure(&self, key: Seq<u8>) -> Option<CipherError> {
        if text_sealable::<K>(key, self@) {
            None
        } else {
            Some(CipherError::CryptoFailure)
        }
    }

    open spec fn sealed_as(&self, key: Seq<u8>, out: &EncString) -> bool {
        text_sealed::<K>(key, self@, out@)
    }

    fn encrypt_with_key(self, key: &K) -> (out: Result<EncString, CipherError>) {
        match key.seal(self.as_str().as_bytes()) {
            Some(payload) => Ok(payload),
            None => Err(CipherError::CryptoFailure),
        }
    }

    proof fn lemma_round_trip(&self, key: Seq<u8>, out: &EncString) {
        lemma_text_round_trip::<K>(key, self@, out@);
    }
}

/// What an optional text field at rest decrypts to under `key`.
pub open spec fn field_opened<K: SymmetricCryptoKey>(key: Seq<u8>, field: Option<EncString>) -> Result<
    Option<Seq<char>>,
    CipherError,
> {
    <Option<EncString> as KeyDecryptable<K, Option<String>>>::decrypted(&field, key)
}

/// Whether an optional text field can be encrypted under `key`.
pub open spec fn field_sealable<K: SymmetricCryptoKey>(key: Seq<u8>, field: Option<String>) -> bool {
    <Option<String> as KeyEncryptable<K, Option<EncString>>>::encrypt_failure(&field, key) is None
}

/// Whether `out` is the optional text field `field`, sealed under `key`.
pub open spec fn field_sealed<K: SymmetricCryptoKey>(
    key: Seq<u8>,
    field: Option<String>,
    out: Option<EncString>,
) -> bool {
    <Option<String> as KeyEncryptable<K, Option<EncString>>>::sealed_as(&field, key, &out)
}

/// An optional text field that was sealed under a key decrypts under it to
/// what it was.
pub proof fn lemma_field_round_trip<K: SymmetricCryptoKey>(
    key: Seq<u8>,
    field: Option<String>,
    out: Option<EncString>,
)
    requires
        field_sealed::<K>(key, field, out),
    ensures
        field_opened::<K>(key, out) == Ok::<Option<Seq<char>>, CipherError>(field.deep_view()),
{
    <Option<String> as KeyEncryptable<K, Option<EncString>>>::lemma_round_trip(&field, key, &out);
}

impl<K: SymmetricCryptoKey, O: DeepView, T: KeyDecryptable<K, O>> KeyDecryptable<K, Option<O>> for Option<T> {
    open spec fn decrypted(&self, key: Seq<u8>) -> Result<Option<O::V>, CipherError> {
        match self {
            None => Ok(None),
            Some(item) => match item.decrypted(key) {
                Ok(v) => Ok(Some(v)),
                Err(e) => Err(e),
            },
        }
    }

    fn decrypt_with_key(&self, key: &K) -> (out: Result<Option<O>, CipherError>) {
        match self {
            None => Ok(None),
            Some(item) => match item.decrypt_with_key(key) {
                Ok(v) => Ok(Some(v)),
                Err(e) => Err(e),
            },
        }
    }
}

impl<K: SymmetricCryptoKey, O: KeyDecryptable<K, T>, T: KeyEncryptable<K, O>> KeyEncryptable<K, Option<O>> for Option<T> {
    open spec fn encrypt_failure(&self, key: Seq<u8>) -> Option<CipherError> {
        match self {
            None => None,
            Some(item) => item.encrypt_failure(key),
        }
    }

    open spec fn sealed_as(&self, key: Seq<u8>, out: &Option<O>) -> bool {
        match (self, out) {
            (None, None) => true,
            (Some(item), Some(c)) => item.sealed_as(key, c),
            _ => false,
        }
    }

    fn encrypt_with_key(self, key: &K) -> (out: Result<Option<O>, CipherError>) {
        match self {
            None => Ok(None),
            Some(item) => match item.encrypt_with_key(key) {
                Ok(c) => Ok(Some(c)),
                Err(e) => Err(e),
            },
        }
    }

    proof fn lemma_round_trip(&self, key: Seq<u8>, out: &Option<O>) {
        match (self, out) {
            (Some(item), Some(c)) => {
                item.lemma_round_trip(key, c);
            },
            _ => {},
        }
    }
}

/// Whether `at` is the first place in `items` whose item does not decrypt.
pub open spec fn first_failure<K: SymmetricCryptoKey, O: DeepView, T: KeyDecryptable<K, O>>(
    items: Seq<T>,
    key: Seq<u8>,
    at: int,
) -> bool {
    &&& 0 <= at < items.len()
    &&& items[at].decrypted(key) is Err
    &&& forall|i: int| 0 <= i < at ==> (#[trigger] items[i]).decrypted(key) is Ok
}

/// At most one place is the first at which decrypting fails.
pub proof fn lemma_first_failure_is_unique<K: SymmetricCryptoKey, O: DeepView, T: KeyDecryptable<K, O>>(
    items: Seq<T>,
    key: Seq<u8>,
    at: int,
)
    requires
        first_failure::<K, O, T>(items, key, at),
    ensures
        forall|other: int| first_failure::<K, O, T>(items, key, other) ==> other == at,
        (choose|other: int| first_failure::<K, O, T>(items, key, other)) == at,
{
    assert forall|other: int| first_failure::<K, O, T>(items, key, other) implies other == at by {
        if other < at {
            assert(items[other].decrypted(key) is Ok);
        } else if at < other {
            assert(items[at].decrypted(key) is Ok);
        }
    }
}

/// Where an item does not decrypt, there is a first that does not.
pub proof fn lemma_first_failure_exists<K: SymmetricCryptoKey, O: DeepView, T: KeyDecryptable<K, O>>(
    items: Seq<T>,
    key: Seq<u8>,
    at: int,
)
    requires
        0 <= at < items.len(),
        items[at].decrypted(key) is Err,
    ensures
        exists|first: int| first <= at && first_failure::<K, O, T>(items, key, first),
    decreases at,
{
    if forall|i: int| 0 <= i < at ==> (#[trigger] items[i]).decrypted(key) is Ok {
        assert(first_failure::<K, O, T>(items, key, at));
    } else {
        let before = choose|i: int| 0 <= i < at && !((#[trigger] items[i]).decrypted(key) is Ok);
        lemma_first_failure_exists::<K, O, T>(items, key, before);
    }
}

impl<K: SymmetricCryptoKey, O: DeepView, T: KeyDecryptable<K, O>> KeyDecryptable<K, Vec<O>> for Vec<T> {
    /// All items in their order where every one decrypts; else the error of
    /// the first that does not.
    open spec fn decrypted(&self, key: Seq<u8>) -> Result<Seq<O::V>, CipherError> {
        if forall|i: int| 0 <= i < self@.len() ==> (#[trigger] self@[i]).decrypted(key) is Ok {
            Ok(Seq::new(self@.len(), |i: int| self@[i].decrypted(key)->Ok_0))
        } else {
            let at = choose|at: int| first_failure::<K, O, T>(self@, key, at);
            Err(self@[at].decrypted(key)->Err_0)
        }
    }

    fn decrypt_with_key(&self, key: &K) -> (out: Result<Vec<O>, CipherError>) {
        let mut plain: Vec<O> = Vec::new();
        let mut i: usize = 0;
        while i < self.len()
            invariant
                i <= self.len(),
                plain.len() == i,
                forall|j: int|
                    0 <= j < i ==> (#[trigger] self@[j]).decrypted(key@) == Ok::<O::V, CipherError>(
                        plain@[j].deep_view(),
                    ),
            decreases self.len() - i,
        {
            match self[i].decrypt_with_key(key) {
                Ok(v) => {
                    plain.push(v);
                },
                Err(e) => {
                    proof {
                        assert(first_failure::<K, O, T>(self@, key@, i as int));
                        lemma_first_failure_is_unique::<K, O, T>(self@, key@, i as int);
                    }
                    return Err(e);
                },
            }
            i = i + 1;
        }
        proof {
            assert(plain.deep_view() =~= Seq::new(self@.len(), |i: int| self@[i].decrypted(key@)->Ok_0));
        }
        Ok(plain)
    }
}

/// Whether `at` is the first place in `items` whose item cannot be encrypted.
pub open spec fn first_refusal<K: SymmetricCryptoKey, O: KeyDecryptable<K, T>, T: KeyEncryptable<K, O>>(
    items: Seq<T>,
    key: Seq<u8>,
    at: int,
) -> bool {
    &&& 0 <= at < items.len()
    &&& items[at].encrypt_failure(key) is Some
    &&& forall|i: int| 0 <= i < at ==> (#[trigger] items[i]).encrypt_failure(key) is None
}

/// At most one place is the first at which encrypting fails.
pub proof fn lemma_first_refusal_is_unique<K: SymmetricCryptoKey, O: KeyDecryptable<K, T>, T: KeyEncryptable<K, O>>(
    items: Seq<T>,
    key: Seq<u8>,
    at: int,
)
    requires
        first_refusal::<K, O, T>(items, key, at),
    ensures
        forall|other: int| first_refusal::<K, O, T>(items, key, other) ==> other == at,
        (choose|other: int| first_refusal::<K, O, T>(items, key, other)) == at,
{
    assert forall|other: int| first_refusal::<K, O, T>(items, key, other) implies other == at by {
        if other < at {
            assert(items[other].encrypt_failure(key) is None);
        } else if at < other {
            assert(items[at].encrypt_failure(key) is None);
        }
    }
}

/// Where an item cannot be encrypted, there is a first that cannot.
pub proof fn lemma_first_refusal_exists<K: SymmetricCryptoKey, O: KeyDecryptable<K, T>, T: KeyEncryptable<K, O>>(
    items: Seq<T>,
    key: Seq<u8>,
    at: int,
)
    requires
        0 <= at < items.len(),
        items[at].encrypt_failure(key) is Some,
    ensures
        exists|first: int| first <= at && first_refusal::<K, O, T>(items, key, first),
    decreases at,
{
    if forall|i: int| 0 <= i < at ==> (#[trigger] items[i]).encrypt_failure(key) is None {
        assert(first_refusal::<K, O, T>(items, key, at));
    } else {
        let before = choose|i: int| 0 <= i < at && !((#[trigger] items[i]).encrypt_failure(key) is None);
        lemma_first_refusal_exists::<K, O, T>(items, key, before);
    }
}

impl<K: SymmetricCryptoKey, O: KeyDecryptable<K, T>, T: KeyEncryptable<K, O>> KeyEncryptable<K, Vec<O>> for Vec<T> {
    /// The failure of the first item that cannot be encrypted, if there is one.
    open spec fn encrypt_failure(&self, key: Seq<u8>) -> Option<CipherError> {
        if forall|i: int| 0 <= i < self@.len() ==> (#[trigger] self@[i]).encrypt_failure(key) is None {
            None
        } else {
            let at = choose|at: int| first_refusal::<K, O, T>(self@, key, at);
            self@[at].encrypt_failure(key)
        }
    }

    /// As many payloads as items, each the sealing of the item in its place.
    open spec fn sealed_as(&self, key: Seq<u8>, out: &Vec<O>) -> bool {
        &&& out@.len() == self@.len()
        &&& forall|i: int| 0 <= i < self@.len() ==> (#[trigger] self@[i]).sealed_as(key, &out@[i])
    }

    fn encrypt_with_key(self, key: &K) -> (out: Result<Vec<O>, CipherError>) {
        let ghost items = self@;
        let mut sealed: Vec<O> = Vec::new();
        for item in iter: self.into_iter()
            invariant
                items == self@,
                iter.seq() == items,
                sealed@.len() == iter.index(),
                forall|j: int| 0 <= j < sealed@.len() ==> (#[trigger] items[j]).encrypt_failure(key@) is None,
                forall|j: int| 0 <= j < sealed@.len() ==> (#[trigger] items[j]).sealed_as(key@, &sealed@[j]),
        {
            let ghost at = sealed@.len() as int;
            match item.encrypt_with_key(key) {
                Ok(c) => {
                    sealed.push(c);
                },
                Err(e) => {
                    proof {
                        assert(first_refusal::<K, O, T>(items, key@, at));
                        lemma_first_refusal_is_unique::<K, O, T>(items, key@, at);
                    }
                    return Err(e);
                },
            }
        }
        Ok(sealed)
    }

    proof fn lemma_round_trip(&self, key: Seq<u8>, out: &Vec<O>) {
        assert forall|i: int| 0 <= i < out@.len() implies (#[trigger] out@[i]).decrypted(key) == Ok::<
            T::V,
            CipherError,
        >(self@[i].deep_view()) by {
            self@[i].lemma_round_trip(key, &out@[i]);
        }
        assert(Seq::new(out@.len(), |i: int| out@[i].decrypted(key)->Ok_0) =~= self.deep_view());
    }
}

} // verus!
