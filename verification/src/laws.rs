//! What holds of the conversions of a vault item, whatever the item, the key
//! and the cipher.

use vstd::prelude::*;
use uuid::Uuid;
use crate::attachment::{Attachment, AttachmentView};
use crate::capability::{
    first_failure, first_refusal, lemma_first_failure_exists, lemma_first_refusal_exists, opened_as,
    seal_failure, KeyDecryptable, KeyEncryptable,
};
use crate::cipher::{effective_key, Cipher, CipherListView, CipherType, CipherView};
use crate::error::CipherError;
use crate::field::{Field, FieldView};
use crate::key::SymmetricCryptoKey;
use crate::password_history::{PasswordHistory, PasswordHistoryView};
use crate::registry::{decrypted_from, KeyRegistry};

verus! {

/// Round trip. An item that was encrypted under a key decrypts under that key
/// to what it was, part for part, its own sealed key byte for byte.
pub proof fn law_round_trip<K: SymmetricCryptoKey>(view: CipherView, key: Seq<u8>, cipher: Cipher)
    requires
        <CipherView as KeyEncryptable<K, Cipher>>::sealed_as(&view, key, &cipher),
    ensures
        opened_as::<K, CipherView, Cipher>(key, cipher) == Ok::<_, CipherError>(view.deep_view()),
{
    <CipherView as KeyEncryptable<K, Cipher>>::lemma_round_trip(&view, key, &cipher);
}

/// Round trip through the registry. An item that was encrypted under the key
/// that a registry holds for it decrypts with that registry to what it was,
/// whatever scope the caller proposes: the item at rest belongs to the
/// organization that the item in the clear belonged to.
pub proof fn law_round_trip_through_registry<K: SymmetricCryptoKey>(
    view: CipherView,
    enc: KeyRegistry<K>,
    cipher: Cipher,
    org_id: Option<Uuid>,
)
    requires
        enc.key_for(view.organization_id) matches Some(key) && <CipherView as KeyEncryptable<
            K,
            Cipher,
        >>::sealed_as(&view, key@, &cipher),
    ensures
        decrypted_from::<K, CipherView, Cipher>(cipher, enc, org_id) == Ok::<_, CipherError>(view.deep_view()),
{
    let key = enc.key_for(view.organization_id)->Some_0;
    <CipherView as KeyEncryptable<K, Cipher>>::lemma_round_trip(&view, key@, &cipher);
}

/// Envelope, for an item without a key of its own. Its content is decrypted
/// under the top-level key itself, for the full view and for a listing.
pub proof fn law_content_under_top_level_key<K: SymmetricCryptoKey>(cipher: Cipher, key: Seq<u8>)
    requires
        cipher.key is None,
    ensures
        effective_key::<K>(key, cipher.key) == Ok::<_, CipherError>(key),
        opened_as::<K, CipherView, Cipher>(key, cipher) == cipher.content_decrypted::<K>(key),
        opened_as::<K, CipherListView, Cipher>(key, cipher) == cipher.content_listed::<K>(key),
{
}

/// Envelope, for an item with a key of its own. Where the item's key field
/// opens under the top-level key to well-formed material, the content is
/// decrypted under that material and under no other, for the full view and
/// for a listing.
pub proof fn law_content_under_item_key<K: SymmetricCryptoKey>(cipher: Cipher, key: Seq<u8>, item_key: Seq<u8>)
    requires
        cipher.key matches Some(wrapped) && K::opened(key, wrapped@) == Some(item_key),
        K::valid_material(item_key),
    ensures
        effective_key::<K>(key, cipher.key) == Ok::<_, CipherError>(item_key),
        opened_as::<K, CipherView, Cipher>(key, cipher) == cipher.content_decrypted::<K>(item_key),
        opened_as::<K, CipherListView, Cipher>(key, cipher) == cipher.content_listed::<K>(item_key),
{
}

/// Envelope, on the way to rest. An item is sealed under the same key that it
/// will be decrypted under: the one that its own key field, which goes to rest
/// untouched, resolves to.
pub proof fn law_sealed_under_effective_key<K: SymmetricCryptoKey>(view: CipherView, key: Seq<u8>, cipher: Cipher)
    requires
        <CipherView as KeyEncryptable<K, Cipher>>::sealed_as(&view, key, &cipher),
    ensures
        cipher.key.deep_view() == view.key.deep_view(),
        effective_key::<K>(key, cipher.key) == effective_key::<K>(key, view.key),
        effective_key::<K>(key, view.key) matches Ok(item_key) && view.content_sealed_as::<K>(item_key, &cipher),
{
}

/// An item whose key field does not resolve to a key is not decrypted at all,
/// and the error says why the key could not be had.
pub proof fn law_no_key_no_content<K: SymmetricCryptoKey>(cipher: Cipher, key: Seq<u8>)
    requires
        effective_key::<K>(key, cipher.key) is Err,
    ensures
        opened_as::<K, CipherView, Cipher>(key, cipher) matches Err(e) && effective_key::<K>(key, cipher.key)
            == Err::<Seq<u8>, CipherError>(e),
        opened_as::<K, CipherListView, Cipher>(key, cipher) matches Err(e) && effective_key::<K>(
            key,
            cipher.key,
        ) == Err::<Seq<u8>, CipherError>(e),
{
}

/// Sequence atomicity. A list decrypts to a list of the same length, item by
/// item in order, or not at all: where one item fails, the list fails, with
/// the error of the first item that fails.
pub proof fn law_list_whole_or_not_at_all<K: SymmetricCryptoKey, O: DeepView, T: KeyDecryptable<K, O>>(
    items: Vec<T>,
    key: Seq<u8>,
)
    ensures
        match opened_as::<K, Vec<O>, Vec<T>>(key, items) {
            Ok(plain) => {
                &&& plain.len() == items@.len()
                &&& forall|i: int|
                    0 <= i < items@.len() ==> (#[trigger] items@[i]).decrypted(key) == Ok::<_, CipherError>(
                        plain[i],
                    )
            },
            Err(e) => exists|first: int|
                first_failure::<K, O, T>(items@, key, first) && items@[first].decrypted(key) == Err::<
                    O::V,
                    CipherError,
                >(e),
        },
{
    if opened_as::<K, Vec<O>, Vec<T>>(key, items) is Err {
        let at = choose|i: int| 0 <= i < items@.len() && !((#[trigger] items@[i]).decrypted(key) is Ok);
        lemma_first_failure_exists::<K, O, T>(items@, key, at);
        let first = choose|first: int| first_failure::<K, O, T>(items@, key, first);
        assert(first_failure::<K, O, T>(items@, key, first));
    }
}

/// Sequence atomicity, for an item. Where one attachment, one custom field or
/// one former password does not decrypt, the item does not decrypt: no view
/// with a shorter list is ever made.
pub proof fn law_item_fails_with_its_lists<K: SymmetricCryptoKey>(cipher: Cipher, key: Seq<u8>, at: int)
    requires
        effective_key::<K>(key, cipher.key) matches Ok(item_key) && {
            ||| cipher.attachments matches Some(list) && 0 <= at < list@.len() && opened_as::<
                K,
                AttachmentView,
                Attachment,
            >(item_key, list@[at]) is Err
            ||| cipher.fields matches Some(list) && 0 <= at < list@.len() && opened_as::<
                K,
                FieldView,
                Field,
            >(item_key, list@[at]) is Err
            ||| cipher.password_history matches Some(list) && 0 <= at < list@.len() && opened_as::<
                K,
                PasswordHistoryView,
                PasswordHistory,
            >(item_key, list@[at]) is Err
        },
    ensures
        opened_as::<K, CipherView, Cipher>(key, cipher) is Err,
{
}

/// A view that was decrypted has as many attachments, custom fields and former
/// passwords as the item at rest.
pub proof fn law_lists_keep_their_length<K: SymmetricCryptoKey>(cipher: Cipher, key: Seq<u8>)
    requires
        opened_as::<K, CipherView, Cipher>(key, cipher) is Ok,
    ensures
        ({
            let view = opened_as::<K, CipherView, Cipher>(key, cipher)->Ok_0;
            &&& match (cipher.attachments, view.attachments) {
                (Some(at_rest), Some(plain)) => plain.len() == at_rest@.len(),
                (None, None) => true,
                _ => false,
            }
            &&& match (cipher.fields, view.fields) {
                (Some(at_rest), Some(plain)) => plain.len() == at_rest@.len(),
                (None, None) => true,
                _ => false,
            }
            &&& match (cipher.password_history, view.password_history) {
                (Some(at_rest), Some(plain)) => plain.len() == at_rest@.len(),
                (None, None) => true,
                _ => false,
            }
        }),
{
}

/// A listing counts the attachments of the item at rest, up to the largest
/// count that it can hold.
pub proof fn law_listing_counts_attachments<K: SymmetricCryptoKey>(cipher: Cipher, key: Seq<u8>)
    requires
        opened_as::<K, CipherListView, Cipher>(key, cipher) is Ok,
        cipher.attachments matches Some(list) ==> list@.len() <= u32::MAX,
    ensures
        opened_as::<K, CipherListView, Cipher>(key, cipher)->Ok_0.attachments == (match cipher.attachments {
            Some(list) => list@.len(),
            None => 0,
        }),
{
}

/// A listing never opens an attachment. Whatever the attachments of an item
/// hold, and whether they decrypt or not, the listing is that of any item with
/// as many attachments that is the same in all else.
pub proof fn law_listing_never_opens_attachments<K: SymmetricCryptoKey>(
    cipher: Cipher,
    others: Option<Vec<Attachment>>,
    key: Seq<u8>,
)
    requires
        match (cipher.attachments, others) {
            (Some(list), Some(other)) => other@.len() == list@.len(),
            (None, None) => true,
            _ => false,
        },
    ensures
        opened_as::<K, CipherListView, Cipher>(key, Cipher { attachments: others, ..cipher }) == opened_as::<
            K,
            CipherListView,
            Cipher,
        >(key, cipher),
{
}

/// The subtitle of a secure note is empty, whatever the item holds.
pub proof fn law_secure_note_has_no_subtitle<K: SymmetricCryptoKey>(cipher: Cipher, item_key: Seq<u8>)
    requires
        cipher.kind == CipherType::SecureNote,
    ensures
        cipher.subtitle::<K>(item_key) == Ok::<_, CipherError>(Seq::<char>::empty()),
{
}

/// The subtitle of an item that lacks the sub-record of its kind is empty: no
/// other sub-record is read in its place, and nothing fails.
pub proof fn law_missing_sub_record_has_no_subtitle<K: SymmetricCryptoKey>(cipher: Cipher, item_key: Seq<u8>)
    requires
        match cipher.kind {
            CipherType::Login => cipher.login is None,
            CipherType::SecureNote => true,
            CipherType::Card => cipher.card is None,
            CipherType::Identity => cipher.identity is None,
        },
    ensures
        cipher.subtitle::<K>(item_key) == Ok::<_, CipherError>(Seq::<char>::empty()),
{
}

/// The subtitle of a login without a username is empty.
pub proof fn law_login_without_username_has_no_subtitle<K: SymmetricCryptoKey>(cipher: Cipher, item_key: Seq<u8>)
    requires
        cipher.kind == CipherType::Login,
        cipher.login matches Some(login) && login.username is None,
    ensures
        cipher.subtitle::<K>(item_key) == Ok::<_, CipherError>(Seq::<char>::empty()),
{
}

/// A listing shows the name that the full view shows: where both are made,
/// they agree on all that a listing holds besides the subtitle and the count.
pub proof fn law_listing_agrees_with_view<K: SymmetricCryptoKey>(cipher: Cipher, key: Seq<u8>)
    requires
        opened_as::<K, CipherView, Cipher>(key, cipher) is Ok,
        opened_as::<K, CipherListView, Cipher>(key, cipher) is Ok,
    ensures
        ({
            let view = opened_as::<K, CipherView, Cipher>(key, cipher)->Ok_0;
            let listing = opened_as::<K, CipherListView, Cipher>(key, cipher)->Ok_0;
            &&& listing.id == view.id
            &&& listing.organization_id == view.organization_id
            &&& listing.folder_id == view.folder_id
            &&& listing.collection_ids == view.collection_ids
            &&& listing.name == view.name
            &&& listing.kind == view.kind
            &&& listing.favorite == view.favorite
            &&& listing.reprompt == view.reprompt
            &&& listing.edit == view.edit
            &&& listing.view_password == view.view_password
            &&& listing.creation_date == view.creation_date
            &&& listing.deleted_date == view.deleted_date
            &&& listing.revision_date == view.revision_date
        }),
{
}

/// The conversions keep which sub-records an item holds: an item in the clear
/// holds the sub-record of its kind and no other exactly if the item at rest
/// does.
pub proof fn law_conversions_keep_sub_records<K: SymmetricCryptoKey>(view: CipherView, key: Seq<u8>, cipher: Cipher)
    ensures
        <CipherView as KeyEncryptable<K, Cipher>>::sealed_as(&view, key, &cipher) ==> (cipher.well_formed()
            <==> view.deep_view().well_formed()),
        opened_as::<K, CipherView, Cipher>(key, cipher) matches Ok(plain) ==> (plain.well_formed()
            <==> cipher.well_formed()),
{
}

/// A list of records fails to decrypt as its first failing record does.
proof fn lemma_list_failure<K: SymmetricCryptoKey, O: DeepView, T: KeyDecryptable<K, O>>(
    list: Option<Vec<T>>,
    key: Seq<u8>,
)
    requires
        list matches Some(items) ==> forall|i: int|
            0 <= i < items@.len() && (#[trigger] items@[i]).decrypted(key) is Err ==> items@[i].decrypted(key)
                == Err::<O::V, CipherError>(CipherError::CryptoFailure),
    ensures
        opened_as::<K, Option<Vec<O>>, Option<Vec<T>>>(key, list) matches Err(e) ==> e == CipherError::CryptoFailure,
{
    if let Some(items) = list {
        if opened_as::<K, Vec<O>, Vec<T>>(key, items) is Err {
            law_list_whole_or_not_at_all::<K, O, T>(items, key);
        }
    }
}

/// A list of records fails to encrypt as its first failing record does.
proof fn lemma_list_refusal<K: SymmetricCryptoKey, O: KeyDecryptable<K, T>, T: KeyEncryptable<K, O>>(
    list: Option<Vec<T>>,
    key: Seq<u8>,
)
    requires
        list matches Some(items) ==> forall|i: int|
            0 <= i < items@.len() && (#[trigger] items@[i]).encrypt_failure(key) is Some
                ==> items@[i].encrypt_failure(key) == Some(CipherError::CryptoFailure),
    ensures
        seal_failure::<K, Option<Vec<O>>, Option<Vec<T>>>(key, list) matches Some(e) ==> e
            == CipherError::CryptoFailure,
{
    if let Some(items) = list {
        if seal_failure::<K, Vec<O>, Vec<T>>(key, items) is Some {
            let at = choose|i: int| 0 <= i < items@.len() && !((#[trigger] items@[i]).encrypt_failure(key) is None);
            lemma_first_refusal_exists::<K, O, T>(items@, key, at);
            let first = choose|first: int| first_refusal::<K, O, T>(items@, key, first);
            assert(first_refusal::<K, O, T>(items@, key, first));
        }
    }
}

/// Which error comes when. Decrypting under a key never ends in a key that was
/// not found. It ends in an invalid key format exactly where the item's own
/// key field opens to what is no key material, and in a crypto failure exactly
/// where that field does not open or, the key being had, a part of the
/// content or of what a listing shows does not decrypt.
pub proof fn law_errors_of_decryption<K: SymmetricCryptoKey>(cipher: Cipher, key: Seq<u8>)
    ensures
        match opened_as::<K, CipherView, Cipher>(key, cipher) {
            Ok(_) => effective_key::<K>(key, cipher.key) matches Ok(item_key) && cipher.content_decrypted::<K>(
                item_key,
            ) is Ok,
            Err(CipherError::KeyNotFound) => false,
            Err(CipherError::InvalidKeyFormat) => effective_key::<K>(key, cipher.key) == Err::<
                Seq<u8>,
                CipherError,
            >(CipherError::InvalidKeyFormat),
            Err(CipherError::CryptoFailure) => match effective_key::<K>(key, cipher.key) {
                Ok(item_key) => cipher.content_decrypted::<K>(item_key) is Err,
                Err(e) => e == CipherError::CryptoFailure,
            },
        },
        match opened_as::<K, CipherListView, Cipher>(key, cipher) {
            Ok(_) => effective_key::<K>(key, cipher.key) matches Ok(item_key) && cipher.content_listed::<K>(
                item_key,
            ) is Ok,
            Err(CipherError::KeyNotFound) => false,
            Err(CipherError::InvalidKeyFormat) => effective_key::<K>(key, cipher.key) == Err::<
                Seq<u8>,
                CipherError,
            >(CipherError::InvalidKeyFormat),
            Err(CipherError::CryptoFailure) => match effective_key::<K>(key, cipher.key) {
                Ok(item_key) => cipher.content_listed::<K>(item_key) is Err,
                Err(e) => e == CipherError::CryptoFailure,
            },
        },
{
    if let Ok(item_key) = effective_key::<K>(key, cipher.key) {
        lemma_list_failure::<K, AttachmentView, Attachment>(cipher.attachments, item_key);
        lemma_list_failure::<K, FieldView, Field>(cipher.fields, item_key);
        lemma_list_failure::<K, PasswordHistoryView, PasswordHistory>(cipher.password_history, item_key);
    }
}

/// Which error comes when, on the way to rest. Encrypting under a key never
/// ends in a key that was not found. It ends in an invalid key format exactly
/// where the item's own key field opens to what is no key material, and in a
/// crypto failure exactly where that field does not open or, the key being
/// had, a part of the content cannot be sealed.
pub proof fn law_errors_of_encryption<K: SymmetricCryptoKey>(view: CipherView, key: Seq<u8>)
    ensures
        match seal_failure::<K, Cipher, CipherView>(key, view) {
            None => effective_key::<K>(key, view.key) matches Ok(item_key) && view.content_failure::<K>(
                item_key,
            ) is None,
            Some(CipherError::KeyNotFound) => false,
            Some(CipherError::InvalidKeyFormat) => effective_key::<K>(key, view.key) == Err::<
                Seq<u8>,
                CipherError,
            >(CipherError::InvalidKeyFormat),
            Some(CipherError::CryptoFailure) => match effective_key::<K>(key, view.key) {
                Ok(item_key) => view.content_failure::<K>(item_key) is Some,
                Err(e) => e == CipherError::CryptoFailure,
            },
        },
{
    if let Ok(item_key) = effective_key::<K>(key, view.key) {
        lemma_list_refusal::<K, Attachment, AttachmentView>(view.attachments, item_key);
        lemma_list_refusal::<K, Field, FieldView>(view.fields, item_key);
        lemma_list_refusal::<K, PasswordHistory, PasswordHistoryView>(view.password_history, item_key);
    }
}

} // verus!
