//! The vault item: how it is held at rest, how it reads in the clear, and what
//! a listing shows of it.

use vstd::prelude::*;
use chrono::NaiveDateTime;
use uuid::Uuid;
use crate::attachment::{Attachment, AttachmentFields, AttachmentView};
use crate::capability::{
    field_opened, field_sealed, lemma_field_round_trip, lemma_text_round_trip, opened_as,
    seal_failure, sealed, text_opened, text_sealable, text_sealed, KeyDecryptable, KeyEncryptable,
};
use crate::card::{Card, CardFields, CardView};
use crate::error::CipherError;
use crate::field::{Field, FieldFields, FieldView};
use crate::identity::{Identity, IdentityFields, IdentityView};
use crate::key::{EncString, SymmetricCryptoKey};
use crate::local_data::LocalData;
use crate::login::{Login, LoginFields, LoginView};
use crate::password_history::{PasswordHistory, PasswordHistoryFields, PasswordHistoryView};
use crate::registry::{KeyRegistry, LocateKey};
use crate::secure_note::SecureNote;
use crate::subtitle::{
    card_subtitle, card_subtitle_of, identity_subtitle, identity_subtitle_of, login_subtitle,
    login_subtitle_of,
};

verus! {

/// What sort of secret an item holds. It says which of the item's four
/// sub-records is the one that counts.
#[derive(Clone, Copy, Debug, PartialEq, Eq, Structural)]
pub enum CipherType {
    Login,
    SecureNote,
    Card,
    Identity,
}

/// Whether the user is asked for the master password again before an item is
/// shown.
#[derive(Clone, Copy, Debug, PartialEq, Eq, Structural)]
pub enum CipherRepromptType {
    /// The item is shown without asking.
    Never,
    /// The master password is asked for.
    Password,
}

/// A vault item at rest: what it says is encrypted, what identifies and
/// classifies it is not.
#[derive(Debug, PartialEq, Eq)]
pub struct Cipher {
    pub id: Option<Uuid>,
    pub organization_id: Option<Uuid>,
    pub folder_id: Option<Uuid>,
    pub collection_ids: Vec<Uuid>,
    /// The item's own key, sealed under the top-level key of the item's scope.
    /// Where an item has one, its content is sealed under that key, else under
    /// the top-level key itself.
    pub key: Option<EncString>,
    pub name: EncString,
    pub notes: Option<EncString>,
    pub kind: CipherType,
    pub login: Option<Login>,
    pub identity: Option<Identity>,
    pub card: Option<Card>,
    pub secure_note: Option<SecureNote>,
    pub favorite: bool,
    pub reprompt: CipherRepromptType,
    pub organization_use_totp: bool,
    pub edit: bool,
    pub view_password: bool,
    pub local_data: Option<LocalData>,
    pub attachments: Option<Vec<Attachment>>,
    pub fields: Option<Vec<Field>>,
    pub password_history: Option<Vec<PasswordHistory>>,
    pub creation_date: NaiveDateTime,
    pub deleted_date: Option<NaiveDateTime>,
    pub revision_date: NaiveDateTime,
}

/// A vault item in the clear, for use and for editing. Its own key stays
/// sealed: it says how the item is keyed, not what the item holds.
#[derive(Debug, PartialEq, Eq)]
pub struct CipherView {
    pub id: Option<Uuid>,
    pub organization_id: Option<Uuid>,
    pub folder_id: Option<Uuid>,
    pub collection_ids: Vec<Uuid>,
    pub key: Option<EncString>,
    pub name: String,
    pub notes: Option<String>,
    pub kind: CipherType,
    pub login: Option<LoginView>,
    pub identity: Option<IdentityView>,
    pub card: Option<CardView>,
    pub secure_note: Option<SecureNote>,
    pub favorite: bool,
    pub reprompt: CipherRepromptType,
    pub organization_use_totp: bool,
    pub edit: bool,
    pub view_password: bool,
    pub local_data: Option<LocalData>,
    pub attachments: Option<Vec<AttachmentView>>,
    pub fields: Option<Vec<FieldView>>,
    pub password_history: Option<Vec<PasswordHistoryView>>,
    pub creation_date: NaiveDateTime,
    pub deleted_date: Option<NaiveDateTime>,
    pub revision_date: NaiveDateTime,
}

/// What a listing shows of a vault item: its name, a subtitle made from its
/// sub-record, and how many attachments it has.
#[derive(Debug, PartialEq, Eq)]
pub struct CipherListView {
    pub id: Option<Uuid>,
    pub organization_id: Option<Uuid>,
    pub folder_id: Option<Uuid>,
    pub collection_ids: Vec<Uuid>,
    pub name: String,
    pub sub_title: String,
    pub kind: CipherType,
    pub favorite: bool,
    pub reprompt: CipherRepromptType,
    pub edit: bool,
    pub view_password: bool,
    /// The number of attachments.
    pub attachments: u32,
    pub creation_date: NaiveDateTime,
    pub deleted_date: Option<NaiveDateTime>,
    pub revision_date: NaiveDateTime,
}

/// What a [`CipherView`] holds, as mathematics.
pub ghost struct CipherViewModel {
    pub id: Option<Uuid>,
    pub organization_id: Option<Uuid>,
    pub folder_id: Option<Uuid>,
    pub collection_ids: Seq<Uuid>,
    pub key: Option<Seq<u8>>,
    pub name: Seq<char>,
    pub notes: Option<Seq<char>>,
    pub kind: CipherType,
    pub login: Option<LoginFields<Seq<char>>>,
    pub identity: Option<IdentityFields<Seq<char>>>,
    pub card: Option<CardFields<Seq<char>>>,
    pub secure_note: Option<SecureNote>,
    pub favorite: bool,
    pub reprompt: CipherRepromptType,
    pub organization_use_totp: bool,
    pub edit: bool,
    pub view_password: bool,
    pub local_data: Option<LocalData>,
    pub attachments: Option<Seq<AttachmentFields<Seq<char>>>>,
    pub fields: Option<Seq<FieldFields<Seq<char>>>>,
    pub password_history: Option<Seq<PasswordHistoryFields<Seq<char>>>>,
    pub creation_date: NaiveDateTime,
    pub deleted_date: Option<NaiveDateTime>,
    pub revision_date: NaiveDateTime,
}

/// What a [`CipherListView`] holds, as mathematics.
pub ghost struct CipherListViewModel {
    pub id: Option<Uuid>,
    pub organization_id: Option<Uuid>,
    pub folder_id: Option<Uuid>,
    pub collection_ids: Seq<Uuid>,
    pub name: Seq<char>,
    pub sub_title: Seq<char>,
    pub kind: CipherType,
    pub favorite: bool,
    pub reprompt: CipherRepromptType,
    pub edit: bool,
    pub view_password: bool,
    pub attachments: u32,
    pub creation_date: NaiveDateTime,
    pub deleted_date: Option<NaiveDateTime>,
    pub revision_date: NaiveDateTime,
}

impl DeepView for CipherView {
    type V = CipherViewModel;

    open spec fn deep_view(&self) -> CipherViewModel {
        CipherViewModel {
            id: self.id,
            organization_id: self.organization_id,
            folder_id: self.folder_id,
            collection_ids: self.collection_ids@,
            key: self.key.deep_view(),
            name: self.name@,
            notes: self.notes.deep_view(),
            kind: self.kind,
            login: self.login.deep_view(),
            identity: self.identity.deep_view(),
            card: self.card.deep_view(),
            secure_note: self.secure_note,
            favorite: self.favorite,
            reprompt: self.reprompt,
            organization_use_totp: self.organization_use_totp,
            edit: self.edit,
            view_password: self.view_password,
            local_data: self.local_data,
            attachments: self.attachments.deep_view(),
            fields: self.fields.deep_view(),
            password_history: self.password_history.deep_view(),
            creation_date: self.creation_date,
            deleted_date: self.deleted_date,
            revision_date: self.revision_date,
        }
    }
}

impl DeepView for CipherListView {
    type V = CipherListViewModel;

    open spec fn deep_view(&self) -> CipherListViewModel {
        CipherListViewModel {
            id: self.id,
            organization_id: self.organization_id,
            folder_id: self.folder_id,
            collection_ids: self.collection_ids@,
            name: self.name@,
            sub_title: self.sub_title@,
            kind: self.kind,
            favorite: self.favorite,
            reprompt: self.reprompt,
            edit: self.edit,
            view_password: self.view_password,
            attachments: self.attachments,
            creation_date: self.creation_date,
            deleted_date: self.deleted_date,
            revision_date: self.revision_date,
        }
    }
}

/// Whether, of the four sub-records of an item, the one that `kind` names is
/// there and the other three are not.
pub open spec fn one_sub_record(kind: CipherType, login: bool, identity: bool, card: bool, secure_note: bool) -> bool {
    match kind {
        CipherType::Login => login && !identity && !card && !secure_note,
        CipherType::SecureNote => !login && !identity && !card && secure_note,
        CipherType::Card => !login && !identity && card && !secure_note,
        CipherType::Identity => !login && identity && !card && !secure_note,
    }
}

impl CipherViewModel {
    /// Whether the item holds the sub-record of its kind and no other.
    pub open spec fn well_formed(&self) -> bool {
        one_sub_record(
            self.kind,
            self.login is Some,
            self.identity is Some,
            self.card is Some,
            self.secure_note is Some,
        )
    }
}

/// The material of the key under which the content of an item is sealed, for
/// an item whose own key field is `ciphers_key` in a scope whose top-level key
/// has the material `key`.
///
/// An item without a key of its own is sealed under the top-level key. The key
/// of an item that has one is what its key field opens to under the top-level
/// key, where that is well-formed key material.
pub open spec fn effective_key<K: SymmetricCryptoKey>(key: Seq<u8>, ciphers_key: Option<EncString>) -> Result<
    Seq<u8>,
    CipherError,
> {
    match ciphers_key {
        None => Ok(key),
        Some(wrapped) => match K::opened(key, wrapped@) {
            None => Err(CipherError::CryptoFailure),
            Some(material) => if K::valid_material(material) {
                Ok(material)
            } else {
                Err(CipherError::InvalidKeyFormat)
            },
        },
    }
}

/// A vector that holds the identifiers of `ids`, in their order.
fn copy_ids(ids: &Vec<Uuid>) -> (copy: Vec<Uuid>)
    ensures
        copy@ == ids@,
{
    let mut copy: Vec<Uuid> = Vec::new();
    let mut i: usize = 0;
    while i < ids.len()
        invariant
            i <= ids@.len(),
            copy@ == ids@.subrange(0, i as int),
        decreases ids.len() - i,
    {
        copy.push(ids[i]);
        i = i + 1;
    }
    copy
}

impl Cipher {
    /// Whether the item holds the sub-record of its kind and no other. The
    /// conversions ask this of no item: they keep it where it holds, and where
    /// it does not they read the sub-record of the item's kind or none.
    pub open spec fn well_formed(&self) -> bool {
        one_sub_record(
            self.kind,
            self.login is Some,
            self.identity is Some,
            self.card is Some,
            self.secure_note is Some,
        )
    }

    /// The item's own key, unwrapped with the top-level key `key`; `None` for
    /// an item that has no key of its own, whose content is sealed under `key`
    /// itself.
    pub fn get_cipher_key<K: SymmetricCryptoKey>(key: &K, ciphers_key: &Option<EncString>) -> (own: Result<
        Option<K>,
        CipherError,
    >)
        ensures
            match own {
                Ok(None) => *ciphers_key is None,
                Ok(Some(k)) => *ciphers_key is Some && effective_key::<K>(key@, *ciphers_key) == Ok::<
                    Seq<u8>,
                    CipherError,
                >(k@),
                Err(e) => *ciphers_key is Some && effective_key::<K>(key@, *ciphers_key) == Err::<
                    Seq<u8>,
                    CipherError,
                >(e),
            },
    {
        match ciphers_key {
            None => Ok(None),
            Some(wrapped) => {
                let material: Vec<u8> = wrapped.decrypt_with_key(key)?;
                assert(material.deep_view() =~= material@);
                match K::from_bytes(material.as_slice()) {
                    Some(k) => Ok(Some(k)),
                    None => Err(CipherError::InvalidKeyFormat),
                }
            },
        }
    }

    /// What the content of the item decrypts to under the key `item_key` that
    /// it is sealed under: every encrypted part in the clear, all else as it
    /// is. Where a part does not decrypt, the error of the first such part.
    pub open spec fn content_decrypted<K: SymmetricCryptoKey>(&self, item_key: Seq<u8>) -> Result<
        CipherViewModel,
        CipherError,
    > {
        let name = text_opened::<K>(item_key, self.name@);
        let notes = field_opened::<K>(item_key, self.notes);
        let login = opened_as::<K, Option<LoginView>, Option<Login>>(item_key, self.login);
        let identity = opened_as::<K, Option<IdentityView>, Option<Identity>>(item_key, self.identity);
        let card = opened_as::<K, Option<CardView>, Option<Card>>(item_key, self.card);
        let secure_note = opened_as::<K, Option<SecureNote>, Option<SecureNote>>(item_key, self.secure_note);
        let local_data = opened_as::<K, Option<LocalData>, Option<LocalData>>(item_key, self.local_data);
        let attachments = opened_as::<K, Option<Vec<AttachmentView>>, Option<Vec<Attachment>>>(
            item_key,
            self.attachments,
        );
        let fields = opened_as::<K, Option<Vec<FieldView>>, Option<Vec<Field>>>(item_key, self.fields);
        let password_history = opened_as::<
            K,
            Option<Vec<PasswordHistoryView>>,
            Option<Vec<PasswordHistory>>,
        >(item_key, self.password_history);
        if name is Err {
            Err(name->Err_0)
        } else if notes is Err {
            Err(notes->Err_0)
        } else if login is Err {
            Err(login->Err_0)
        } else if identity is Err {
            Err(identity->Err_0)
        } else if card is Err {
            Err(card->Err_0)
        } else if secure_note is Err {
            Err(secure_note->Err_0)
        } else if local_data is Err {
            Err(local_data->Err_0)
        } else if attachments is Err {
            Err(attachments->Err_0)
        } else if fields is Err {
            Err(fields->Err_0)
        } else if password_history is Err {
            Err(password_history->Err_0)
        } else {
            Ok(
                CipherViewModel {
                    id: self.id,
                    organization_id: self.organization_id,
                    folder_id: self.folder_id,
                    collection_ids: self.collection_ids@,
                    key: self.key.deep_view(),
                    name: name->Ok_0,
                    notes: notes->Ok_0,
                    kind: self.kind,
                    login: login->Ok_0,
                    identity: identity->Ok_0,
                    card: card->Ok_0,
                    secure_note: secure_note->Ok_0,
                    favorite: self.favorite,
                    reprompt: self.reprompt,
                    organization_use_totp: self.organization_use_totp,
                    edit: self.edit,
                    view_password: self.view_password,
                    local_data: local_data->Ok_0,
                    attachments: attachments->Ok_0,
                    fields: fields->Ok_0,
                    password_history: password_history->Ok_0,
                    creation_date: self.creation_date,
                    deleted_date: self.deleted_date,
                    revision_date: self.revision_date,
                },
            )
        }
    }

    /// The subtitle of the item under the key `item_key` that its content is
    /// sealed under. Only the sub-record that the item's kind names is looked
    /// at, and of it only the fields that the subtitle shows; an item without
    /// that sub-record has an empty subtitle.
    pub open spec fn subtitle<K: SymmetricCryptoKey>(&self, item_key: Seq<u8>) -> Result<Seq<char>, CipherError> {
        match self.kind {
            CipherType::Login => match self.login {
                None => Ok(Seq::empty()),
                Some(login) => match field_opened::<K>(item_key, login.username) {
                    Ok(username) => Ok(login_subtitle_of(username)),
                    Err(e) => Err(e),
                },
            },
            CipherType::SecureNote => Ok(Seq::empty()),
            CipherType::Card => match self.card {
                None => Ok(Seq::empty()),
                Some(card) => {
                    let brand = field_opened::<K>(item_key, card.brand);
                    let number = field_opened::<K>(item_key, card.number);
                    if brand is Ok && number is Ok {
                        Ok(card_subtitle_of(brand->Ok_0, number->Ok_0))
                    } else {
                        Err(CipherError::CryptoFailure)
                    }
                },
            },
            CipherType::Identity => match self.identity {
                None => Ok(Seq::empty()),
                Some(identity) => {
                    let first_name = field_opened::<K>(item_key, identity.first_name);
                    let last_name = field_opened::<K>(item_key, identity.last_name);
                    if first_name is Ok && last_name is Ok {
                        Ok(identity_subtitle_of(first_name->Ok_0, last_name->Ok_0))
                    } else {
                        Err(CipherError::CryptoFailure)
                    }
                },
            },
        }
    }

    /// The subtitle of the item, decrypted with the key `key` that the item's
    /// content is sealed under.
    pub fn get_decrypted_subtitle<K: SymmetricCryptoKey>(&self, key: &K) -> (sub_title: Result<String, CipherError>)
        ensures
            sub_title matches Ok(s) ==> self.subtitle::<K>(key@) == Ok::<Seq<char>, CipherError>(s@),
            sub_title matches Err(e) ==> self.subtitle::<K>(key@) == Err::<Seq<char>, CipherError>(e),
    {
        match self.kind {
            CipherType::Login => {
                let Some(login) = &self.login else {
                    return Ok(String::new());
                };
                let username: Option<String> = login.username.decrypt_with_key(key)?;
                Ok(login_subtitle(username))
            },
            CipherType::SecureNote => Ok(String::new()),
            CipherType::Card => {
                let Some(card) = &self.card else {
                    return Ok(String::new());
                };
                let brand: Option<String> = card.brand.decrypt_with_key(key)?;
                let number: Option<String> = card.number.decrypt_with_key(key)?;
                Ok(card_subtitle(&brand, &number))
            },
            CipherType::Identity => {
                let Some(identity) = &self.identity else {
                    return Ok(String::new());
                };
                let first_name: Option<String> = identity.first_name.decrypt_with_key(key)?;
                let last_name: Option<String> = identity.last_name.decrypt_with_key(key)?;
                Ok(identity_subtitle(&first_name, &last_name))
            },
        }
    }

    /// How many attachments the item has, as a listing counts them: in 32
    /// bits, of which a list longer than they can count keeps the lowest.
    pub open spec fn attachment_count(&self) -> u32 {
        match self.attachments {
            Some(list) => list@.len() as u32,
            None => 0,
        }
    }

    /// What a listing shows of the item under the key `item_key` that its
    /// content is sealed under. Of the encrypted parts only the name and what
    /// the subtitle is made from are decrypted.
    pub open spec fn content_listed<K: SymmetricCryptoKey>(&self, item_key: Seq<u8>) -> Result<
        CipherListViewModel,
        CipherError,
    > {
        let name = text_opened::<K>(item_key, self.name@);
        let sub_title = self.subtitle::<K>(item_key);
        if name is Err {
            Err(name->Err_0)
        } else if sub_title is Err {
            Err(sub_title->Err_0)
        } else {
            Ok(
                CipherListViewModel {
                    id: self.id,
                    organization_id: self.organization_id,
                    folder_id: self.folder_id,
                    collection_ids: self.collection_ids@,
                    name: name->Ok_0,
                    sub_title: sub_title->Ok_0,
                    kind: self.kind,
                    favorite: self.favorite,
                    reprompt: self.reprompt,
                    edit: self.edit,
                    view_password: self.view_password,
                    attachments: self.attachment_count(),
                    creation_date: self.creation_date,
                    deleted_date: self.deleted_date,
                    revision_date: self.revision_date,
                },
            )
        }
    }
}

impl<K: SymmetricCryptoKey> KeyDecryptable<K, CipherView> for Cipher {
    /// The content decrypted under the key that the item is sealed under,
    /// where that key can be had.
    open spec fn decrypted(&self, key: Seq<u8>) -> Result<CipherViewModel, CipherError> {
        match effective_key::<K>(key, self.key) {
            Ok(item_key) => self.content_decrypted::<K>(item_key),
            Err(e) => Err(e),
        }
    }

    fn decrypt_with_key(&self, key: &K) -> (out: Result<CipherView, CipherError>) {
        let ciphers_key = Cipher::get_cipher_key(key, &self.key)?;
        let key: &K = match &ciphers_key {
            Some(own) => own,
            None => key,
        };
        Ok(
            CipherView {
                id: self.id,
                organization_id: self.organization_id,
                folder_id: self.folder_id,
                collection_ids: copy_ids(&self.collection_ids),
                key: self.key.clone(),
                name: self.name.decrypt_with_key(key)?,
                notes: self.notes.decrypt_with_key(key)?,
                kind: self.kind,
                login: self.login.decrypt_with_key(key)?,
                identity: self.identity.decrypt_with_key(key)?,
                card: self.card.decrypt_with_key(key)?,
                secure_note: self.secure_note.decrypt_with_key(key)?,
                favorite: self.favorite,
                reprompt: self.reprompt,
                organization_use_totp: self.organization_use_totp,
                edit: self.edit,
                view_password: self.view_password,
                local_data: self.local_data.decrypt_with_key(key)?,
                attachments: self.attachments.decrypt_with_key(key)?,
                fields: self.fields.decrypt_with_key(key)?,
                password_history: self.password_history.decrypt_with_key(key)?,
                creation_date: self.creation_date,
                deleted_date: self.deleted_date,
                revision_date: self.revision_date,
            },
        )
    }
}

impl<K: SymmetricCryptoKey> KeyDecryptable<K, CipherListView> for Cipher {
    /// What a listing shows, decrypted under the key that the item is sealed
    /// under, where that key can be had.
    open spec fn decrypted(&self, key: Seq<u8>) -> Result<CipherListViewModel, CipherError> {
        match effective_key::<K>(key, self.key) {
            Ok(item_key) => self.content_listed::<K>(item_key),
            Err(e) => Err(e),
        }
    }

    fn decrypt_with_key(&self, key: &K) -> (out: Result<CipherListView, CipherError>) {
        let ciphers_key = Cipher::get_cipher_key(key, &self.key)?;
        let key: &K = match &ciphers_key {
            Some(own) => own,
            None => key,
        };
        Ok(
            CipherListView {
                id: self.id,
                organization_id: self.organization_id,
                folder_id: self.folder_id,
                collection_ids: copy_ids(&self.collection_ids),
                name: self.name.decrypt_with_key(key)?,
                sub_title: self.get_decrypted_subtitle(key)?,
                kind: self.kind,
                favorite: self.favorite,
                reprompt: self.reprompt,
                edit: self.edit,
                view_password: self.view_password,
                attachments: match &self.attachments {
                    Some(list) => #[verifier::truncate]
                    (list.len() as u32),
                    None => 0,
                },
                creation_date: self.creation_date,
                deleted_date: self.deleted_date,
                revision_date: self.revision_date,
            },
        )
    }
}

impl CipherView {
    /// The error with which encrypting the content of the item under the key
    /// `item_key` ends, if it fails: that of the first part that cannot be
    /// sealed.
    pub open spec fn content_failure<K: SymmetricCryptoKey>(&self, item_key: Seq<u8>) -> Option<CipherError> {
        let notes = seal_failure::<K, Option<EncString>, Option<String>>(item_key, self.notes);
        let login = seal_failure::<K, Option<Login>, Option<LoginView>>(item_key, self.login);
        let identity = seal_failure::<K, Option<Identity>, Option<IdentityView>>(item_key, self.identity);
        let card = seal_failure::<K, Option<Card>, Option<CardView>>(item_key, self.card);
        let secure_note = seal_failure::<K, Option<SecureNote>, Option<SecureNote>>(item_key, self.secure_note);
        let local_data = seal_failure::<K, Option<LocalData>, Option<LocalData>>(item_key, self.local_data);
        let attachments = seal_failure::<K, Option<Vec<Attachment>>, Option<Vec<AttachmentView>>>(
            item_key,
            self.attachments,
        );
        let fields = seal_failure::<K, Option<Vec<Field>>, Option<Vec<FieldView>>>(item_key, self.fields);
        let password_history = seal_failure::<
            K,
            Option<Vec<PasswordHistory>>,
            Option<Vec<PasswordHistoryView>>,
        >(item_key, self.password_history);
        if !text_sealable::<K>(item_key, self.name@) {
            Some(CipherError::CryptoFailure)
        } else if notes is Some {
            notes
        } else if login is Some {
            login
        } else if identity is Some {
            identity
        } else if card is Some {
            card
        } else if secure_note is Some {
            secure_note
        } else if local_data is Some {
            local_data
        } else if attachments is Some {
            attachments
        } else if fields is Some {
            fields
        } else {
            password_history
        }
    }

    /// Whether the content of `out` is the content of the item, sealed under
    /// the key `item_key`, and all else in `out` as it is in the item: the
    /// item's own key field too.
    pub open spec fn content_sealed_as<K: SymmetricCryptoKey>(&self, item_key: Seq<u8>, out: &Cipher) -> bool {
        &&& out.id == self.id
        &&& out.organization_id == self.organization_id
        &&& out.folder_id == self.folder_id
        &&& out.collection_ids@ == self.collection_ids@
        &&& out.key.deep_view() == self.key.deep_view()
        &&& text_sealed::<K>(item_key, self.name@, out.name@)
        &&& field_sealed::<K>(item_key, self.notes, out.notes)
        &&& out.kind == self.kind
        &&& sealed::<K, Option<Login>, Option<LoginView>>(item_key, self.login, out.login)
        &&& sealed::<K, Option<Identity>, Option<IdentityView>>(item_key, self.identity, out.identity)
        &&& sealed::<K, Option<Card>, Option<CardView>>(item_key, self.card, out.card)
        &&& sealed::<K, Option<SecureNote>, Option<SecureNote>>(item_key, self.secure_note, out.secure_note)
        &&& out.favorite == self.favorite
        &&& out.reprompt == self.reprompt
        &&& out.organization_use_totp == self.organization_use_totp
        &&& out.edit == self.edit
        &&& out.view_password == self.view_password
        &&& sealed::<K, Option<LocalData>, Option<LocalData>>(item_key, self.local_data, out.local_data)
        &&& sealed::<K, Option<Vec<Attachment>>, Option<Vec<AttachmentView>>>(
            item_key,
            self.attachments,
            out.attachments,
        )
        &&& sealed::<K, Option<Vec<Field>>, Option<Vec<FieldView>>>(item_key, self.fields, out.fields)
        &&& sealed::<K, Option<Vec<PasswordHistory>>, Option<Vec<PasswordHistoryView>>>(
            item_key,
            self.password_history,
            out.password_history,
        )
        &&& out.creation_date == self.creation_date
        &&& out.deleted_date == self.deleted_date
        &&& out.revision_date == self.revision_date
    }
}

impl<K: SymmetricCryptoKey> KeyEncryptable<K, Cipher> for CipherView {
    open spec fn encrypt_failure(&self, key: Seq<u8>) -> Option<CipherError> {
        match effective_key::<K>(key, self.key) {
            Ok(item_key) => self.content_failure::<K>(item_key),
            Err(e) => Some(e),
        }
    }

    open spec fn sealed_as(&self, key: Seq<u8>, out: &Cipher) -> bool {
        effective_key::<K>(key, self.key) matches Ok(item_key) && self.content_sealed_as::<K>(item_key, out)
    }

    fn encrypt_with_key(self, key: &K) -> (out: Result<Cipher, CipherError>) {
        let ciphers_key = Cipher::get_cipher_key(key, &self.key)?;
        let key: &K = match &ciphers_key {
            Some(own) => own,
            None => key,
        };
        Ok(
            Cipher {
                id: self.id,
                organization_id: self.organization_id,
                folder_id: self.folder_id,
                collection_ids: self.collection_ids,
                key: self.key,
                name: self.name.encrypt_with_key(key)?,
                notes: self.notes.encrypt_with_key(key)?,
                kind: self.kind,
                login: self.login.encrypt_with_key(key)?,
                identity: self.identity.encrypt_with_key(key)?,
                card: self.card.encrypt_with_key(key)?,
                secure_note: self.secure_note.encrypt_with_key(key)?,
                favorite: self.favorite,
                reprompt: self.reprompt,
                organization_use_totp: self.organization_use_totp,
                edit: self.edit,
                view_password: self.view_password,
                local_data: self.local_data.encrypt_with_key(key)?,
                attachments: self.attachments.encrypt_with_key(key)?,
                fields: self.fields.encrypt_with_key(key)?,
                password_history: self.password_history.encrypt_with_key(key)?,
                creation_date: self.creation_date,
                deleted_date: self.deleted_date,
                revision_date: self.revision_date,
            },
        )
    }

    proof fn lemma_round_trip(&self, key: Seq<u8>, out: &Cipher) {
        let item_key = effective_key::<K>(key, self.key)->Ok_0;
        assert(effective_key::<K>(key, out.key) == effective_key::<K>(key, self.key));
        lemma_text_round_trip::<K>(item_key, self.name@, out.name@);
        lemma_field_round_trip::<K>(item_key, self.notes, out.notes);
        <Option<LoginView> as KeyEncryptable<K, Option<Login>>>::lemma_round_trip(&self.login, item_key, &out.login);
        <Option<IdentityView> as KeyEncryptable<K, Option<Identity>>>::lemma_round_trip(
            &self.identity,
            item_key,
            &out.identity,
        );
        <Option<CardView> as KeyEncryptable<K, Option<Card>>>::lemma_round_trip(&self.card, item_key, &out.card);
        <Option<SecureNote> as KeyEncryptable<K, Option<SecureNote>>>::lemma_round_trip(
            &self.secure_note,
            item_key,
            &out.secure_note,
        );
        <Option<LocalData> as KeyEncryptable<K, Option<LocalData>>>::lemma_round_trip(
            &self.local_data,
            item_key,
            &out.local_data,
        );
        <Option<Vec<AttachmentView>> as KeyEncryptable<K, Option<Vec<Attachment>>>>::lemma_round_trip(
            &self.attachments,
            item_key,
            &out.attachments,
        );
        <Option<Vec<FieldView>> as KeyEncryptable<K, Option<Vec<Field>>>>::lemma_round_trip(
            &self.fields,
            item_key,
            &out.fields,
        );
        <Option<Vec<PasswordHistoryView>> as KeyEncryptable<
            K,
            Option<Vec<PasswordHistory>>,
        >>::lemma_round_trip(&self.password_history, item_key, &out.password_history);
    }
}

impl LocateKey for Cipher {
    /// The organization that owns the item, whatever the caller proposes.
    open spec fn key_scope(&self, org_id: Option<Uuid>) -> Option<Uuid> {
        self.organization_id
    }

    fn locate_key<'a, K>(&self, enc: &'a KeyRegistry<K>, org_id: &Option<Uuid>) -> (key: Option<&'a K>) {
        enc.get_key(&self.organization_id)
    }
}

impl LocateKey for CipherView {
    /// The organization that owns the item, whatever the caller proposes.
    open spec fn key_scope(&self, org_id: Option<Uuid>) -> Option<Uuid> {
        self.organization_id
    }

    fn locate_key<'a, K>(&self, enc: &'a KeyRegistry<K>, org_id: &Option<Uuid>) -> (key: Option<&'a K>) {
        enc.get_key(&self.organization_id)
    }
}

} // verus!
