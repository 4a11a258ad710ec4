use chrono::{DateTime, NaiveDateTime};
use uuid::Uuid;
use vault_cipher::attachment::{AttachmentFields, AttachmentView};
use vault_cipher::card::CardFields;
use vault_cipher::field::{FieldFields, FieldType, FieldView};
use vault_cipher::identity::IdentityFields;
use vault_cipher::local_data::LocalData;
use vault_cipher::login::LoginFields;
use vault_cipher::password_history::{PasswordHistoryFields, PasswordHistoryView};
use vault_cipher::registry::{decrypt, encrypt};
use vault_cipher::secure_note::{SecureNote, SecureNoteType};
use vault_cipher::transparent::{TransparentKey, MAX_PLAIN_LEN};
use vault_cipher::{
    Cipher, CipherError, CipherListView, CipherRepromptType, CipherType, CipherView, EncString,
    KeyDecryptable, KeyEncryptable, KeyRegistry, LocateKey, SymmetricCryptoKey,
};

fn key(byte: u8) -> TransparentKey {
    TransparentKey::from_bytes(&[byte; 64]).unwrap()
}

fn at(secs: i64) -> NaiveDateTime {
    DateTime::from_timestamp(secs, 0).unwrap().naive_utc()
}

fn text(s: &str) -> Option<String> {
    Some(s.to_string())
}

fn attachment(name: &str) -> AttachmentView {
    AttachmentFields {
        id: text("att-1"),
        url: text("https://vault.example/att-1"),
        size: Some(1024),
        file_name: text(name),
    }
}

fn field(name: &str, value: &str) -> FieldView {
    FieldFields { name: text(name), value: text(value), kind: FieldType::Hidden, linked_id: None }
}

fn former(password: &str, secs: i64) -> PasswordHistoryView {
    PasswordHistoryFields { password: password.to_string(), last_used_date: at(secs) }
}

fn login_view(wrapped: Option<EncString>) -> CipherView {
    CipherView {
        id: Some(Uuid::from_u128(1)),
        organization_id: Some(Uuid::from_u128(2)),
        folder_id: Some(Uuid::from_u128(3)),
        collection_ids: vec![Uuid::from_u128(4), Uuid::from_u128(5)],
        key: wrapped,
        name: "My bank".to_string(),
        notes: text("ask for Ms. Byron"),
        kind: CipherType::Login,
        login: Some(LoginFields {
            username: text("ada"),
            password: text("hunter2"),
            password_revision_date: Some(at(1_600_000_000)),
            uri: text("https://bank.example"),
            totp: None,
            autofill_on_page_load: Some(true),
        }),
        identity: None,
        card: None,
        secure_note: None,
        favorite: true,
        reprompt: CipherRepromptType::Password,
        organization_use_totp: true,
        edit: true,
        view_password: false,
        local_data: Some(LocalData { last_used_date: Some(17), last_launched: None }),
        attachments: Some(vec![attachment("a.pdf"), attachment("b.pdf"), attachment("c.pdf")]),
        fields: Some(vec![field("pin", "0000"), field("hint", "first pet")]),
        password_history: Some(vec![former("old1", 10), former("old2", 20)]),
        creation_date: at(1_700_000_000),
        deleted_date: Some(at(1_700_000_500)),
        revision_date: at(1_700_000_100),
    }
}

fn everything_view() -> CipherView {
    let mut view = login_view(None);
    view.kind = CipherType::Card;
    view.card = Some(CardFields {
        cardholder_name: text("Ada Lovelace"),
        exp_month: text("12"),
        exp_year: text("2030"),
        code: text("123"),
        brand: text("Visa"),
        number: text("4111111111111111"),
    });
    view.identity = Some(IdentityFields {
        title: text("Countess"),
        first_name: text("Ada"),
        middle_name: text("King"),
        last_name: text("Lovelace"),
        address1: text("12 St James's Square"),
        address2: text("a2"),
        address3: text("a3"),
        city: text("London"),
        state: text("st"),
        postal_code: text("SW1Y"),
        country: text("UK"),
        company: text("Analytical Engines"),
        email: text("ada@example.com"),
        phone: text("+44 20 0000"),
        ssn: text("ssn"),
        username: text("ada"),
        passport_number: text("P123"),
        license_number: text("L456"),
    });
    view.secure_note = Some(SecureNote { kind: SecureNoteType::Generic });
    view
}

fn sealed(view: CipherView, key: &TransparentKey) -> Cipher {
    view.encrypt_with_key(key).unwrap()
}

fn opened(cipher: &Cipher, key: &TransparentKey) -> Result<CipherView, CipherError> {
    cipher.decrypt_with_key(key)
}

fn listed(cipher: &Cipher, key: &TransparentKey) -> Result<CipherListView, CipherError> {
    cipher.decrypt_with_key(key)
}

#[test]
fn round_trip_without_item_key() {
    let k = key(1);
    let cipher = sealed(login_view(None), &k);
    assert_eq!(opened(&cipher, &k), Ok(login_view(None)));
}

#[test]
fn round_trip_with_item_key() {
    let k = key(1);
    let wrapped = k.seal(&[9u8; 64]).unwrap();
    let cipher = sealed(login_view(Some(wrapped.clone())), &k);
    assert_eq!(cipher.key, Some(wrapped.clone()));
    assert_eq!(opened(&cipher, &k), Ok(login_view(Some(wrapped))));
}

#[test]
fn round_trip_of_every_sub_record() {
    let k = key(1);
    let cipher = sealed(everything_view(), &k);
    assert_eq!(opened(&cipher, &k), Ok(everything_view()));
}

#[test]
fn round_trip_of_an_empty_item() {
    let k = key(1);
    let mut view = login_view(None);
    view.id = None;
    view.organization_id = None;
    view.folder_id = None;
    view.collection_ids = vec![];
    view.name = String::new();
    view.notes = None;
    view.login = None;
    view.local_data = None;
    view.attachments = None;
    view.fields = Some(vec![]);
    view.password_history = None;
    view.deleted_date = None;
    let cipher = sealed(view, &k);
    let back = opened(&cipher, &k).unwrap();
    assert_eq!(back.name, "");
    assert_eq!(back.fields, Some(vec![]));
    assert_eq!(back.attachments, None);
    assert_eq!(back.login, None);
}

#[test]
fn round_trip_of_text_that_is_not_ascii() {
    let k = key(1);
    let mut view = login_view(None);
    view.name = "Bücher & 本".to_string();
    view.notes = text("naïve café ☕");
    let cipher = sealed(view, &k);
    let back = opened(&cipher, &k).unwrap();
    assert_eq!(back.name, "Bücher & 本");
    assert_eq!(back.notes, text("naïve café ☕"));
}

#[test]
fn encryption_copies_what_is_not_content() {
    let k = key(1);
    let view = login_view(None);
    let cipher = sealed(login_view(None), &k);
    assert_eq!(cipher.id, view.id);
    assert_eq!(cipher.organization_id, view.organization_id);
    assert_eq!(cipher.folder_id, view.folder_id);
    assert_eq!(cipher.collection_ids, view.collection_ids);
    assert_eq!(cipher.key, None);
    assert_eq!(cipher.kind, view.kind);
    assert_eq!(cipher.favorite, view.favorite);
    assert_eq!(cipher.reprompt, view.reprompt);
    assert_eq!(cipher.organization_use_totp, view.organization_use_totp);
    assert_eq!(cipher.edit, view.edit);
    assert_eq!(cipher.view_password, view.view_password);
    assert_eq!(cipher.local_data, view.local_data);
    assert_eq!(cipher.creation_date, view.creation_date);
    assert_eq!(cipher.deleted_date, view.deleted_date);
    assert_eq!(cipher.revision_date, view.revision_date);
    let login = cipher.login.as_ref().unwrap();
    assert_eq!(login.password_revision_date, Some(at(1_600_000_000)));
    assert_eq!(login.autofill_on_page_load, Some(true));
    assert_eq!(login.totp, None);
    let attachments = cipher.attachments.as_ref().unwrap();
    assert_eq!(attachments.len(), 3);
    assert_eq!(attachments[0].id, text("att-1"));
    assert_eq!(attachments[0].size, Some(1024));
}

#[test]
fn content_is_sealed_under_the_key() {
    let k = key(1);
    let cipher = sealed(login_view(None), &k);
    // The name at rest is a payload that opens under the key to the name.
    assert_eq!(k.open(&cipher.name), Some("My bank".as_bytes().to_vec()));
    assert_eq!(k.open(cipher.notes.as_ref().unwrap()), Some("ask for Ms. Byron".as_bytes().to_vec()));
    let login = cipher.login.as_ref().unwrap();
    assert_eq!(k.open(login.password.as_ref().unwrap()), Some("hunter2".as_bytes().to_vec()));
    assert_eq!(key(2).open(&cipher.name), None);
}

#[test]
fn item_without_key_uses_the_top_level_key() {
    let k = key(1);
    assert_eq!(Cipher::get_cipher_key(&k, &None), Ok(None));
    let cipher = sealed(login_view(None), &k);
    assert_eq!(k.open(&cipher.name), Some("My bank".as_bytes().to_vec()));
}

#[test]
fn item_with_key_uses_its_own_key() {
    let k = key(1);
    let own = key(9);
    let wrapped = k.seal(own.as_bytes()).unwrap();
    assert_eq!(Cipher::get_cipher_key(&k, &Some(wrapped.clone())), Ok(Some(key(9))));
    let cipher = sealed(login_view(Some(wrapped)), &k);
    // The content opens under the item's key and not under the top-level key.
    assert_eq!(own.open(&cipher.name), Some("My bank".as_bytes().to_vec()));
    assert_eq!(k.open(&cipher.name), None);
    let fields = cipher.fields.as_ref().unwrap();
    assert_eq!(own.open(fields[1].value.as_ref().unwrap()), Some("first pet".as_bytes().to_vec()));
    assert_eq!(k.open(fields[1].value.as_ref().unwrap()), None);
}

#[test]
fn two_items_with_keys_of_their_own_do_not_share_them() {
    let k = key(1);
    let wrapped_a = k.seal(key(10).as_bytes()).unwrap();
    let wrapped_b = k.seal(key(11).as_bytes()).unwrap();
    let mut view_b = login_view(Some(wrapped_b.clone()));
    view_b.name = "Other bank".to_string();
    let a = sealed(login_view(Some(wrapped_a.clone())), &k);
    let b = sealed(view_b, &k);
    assert_eq!(opened(&a, &k).unwrap().name, "My bank");
    assert_eq!(opened(&b, &k).unwrap().name, "Other bank");
    assert_eq!(listed(&a, &k).unwrap().sub_title, "ada");
    // What was sealed for one item does not open as part of the other.
    let mut crossed = sealed(login_view(Some(wrapped_a.clone())), &k);
    crossed.name = b.name.clone();
    assert_eq!(opened(&crossed, &k), Err(CipherError::CryptoFailure));
    assert_eq!(listed(&crossed, &k), Err(CipherError::CryptoFailure));
    // Nor does an item open under the key of the other.
    let mut rekeyed = sealed(login_view(Some(wrapped_a)), &k);
    rekeyed.key = Some(wrapped_b);
    assert_eq!(opened(&rekeyed, &k), Err(CipherError::CryptoFailure));
}

#[test]
fn key_field_that_does_not_open_is_a_crypto_failure() {
    let k = key(1);
    let wrapped = key(2).seal(key(9).as_bytes()).unwrap();
    assert_eq!(Cipher::get_cipher_key(&k, &Some(wrapped.clone())), Err(CipherError::CryptoFailure));
    let mut cipher = sealed(login_view(None), &k);
    cipher.key = Some(wrapped.clone());
    assert_eq!(opened(&cipher, &k), Err(CipherError::CryptoFailure));
    assert_eq!(listed(&cipher, &k), Err(CipherError::CryptoFailure));
    assert_eq!(login_view(Some(wrapped)).encrypt_with_key(&k), Err(CipherError::CryptoFailure));
}

#[test]
fn key_field_that_holds_no_key_is_an_invalid_key_format() {
    let k = key(1);
    for material in [vec![], vec![9u8; 63], vec![9u8; 65], vec![9u8; 10]] {
        let wrapped = k.seal(&material).unwrap();
        assert_eq!(
            Cipher::get_cipher_key(&k, &Some(wrapped.clone())),
            Err(CipherError::InvalidKeyFormat)
        );
        let mut cipher = sealed(login_view(None), &k);
        cipher.key = Some(wrapped.clone());
        assert_eq!(opened(&cipher, &k), Err(CipherError::InvalidKeyFormat));
        assert_eq!(listed(&cipher, &k), Err(CipherError::InvalidKeyFormat));
        assert_eq!(login_view(Some(wrapped)).encrypt_with_key(&k), Err(CipherError::InvalidKeyFormat));
    }
}

#[test]
fn wrong_key_is_a_crypto_failure() {
    let cipher = sealed(login_view(None), &key(1));
    assert_eq!(opened(&cipher, &key(2)), Err(CipherError::CryptoFailure));
    assert_eq!(listed(&cipher, &key(2)), Err(CipherError::CryptoFailure));
}

#[test]
fn content_that_is_no_text_is_a_crypto_failure() {
    let k = key(1);
    let mut cipher = sealed(login_view(None), &k);
    cipher.notes = Some(k.seal(&[0xff, 0xfe]).unwrap());
    assert_eq!(opened(&cipher, &k), Err(CipherError::CryptoFailure));
    // A listing does not read the notes.
    assert_eq!(listed(&cipher, &k).unwrap().name, "My bank");
    cipher.name = k.seal(&[0xc3]).unwrap();
    assert_eq!(listed(&cipher, &k), Err(CipherError::CryptoFailure));
}

#[test]
fn one_bad_attachment_fails_the_item() {
    let k = key(1);
    for bad in 0..3 {
        let mut cipher = sealed(login_view(None), &k);
        cipher.attachments.as_mut().unwrap()[bad].file_name = Some(key(2).seal(b"x.pdf").unwrap());
        assert_eq!(opened(&cipher, &k), Err(CipherError::CryptoFailure));
    }
}

#[test]
fn one_bad_field_fails_the_item() {
    let k = key(1);
    for bad in 0..2 {
        let mut cipher = sealed(login_view(None), &k);
        cipher.fields.as_mut().unwrap()[bad].value = Some(EncString::new(vec![1, 2, 3]));
        assert_eq!(opened(&cipher, &k), Err(CipherError::CryptoFailure));
    }
}

#[test]
fn one_bad_former_password_fails_the_item() {
    let k = key(1);
    for bad in 0..2 {
        let mut cipher = sealed(login_view(None), &k);
        cipher.password_history.as_mut().unwrap()[bad].password = EncString::new(vec![]);
        assert_eq!(opened(&cipher, &k), Err(CipherError::CryptoFailure));
    }
}

#[test]
fn lists_keep_order_and_length() {
    let k = key(1);
    let cipher = sealed(login_view(None), &k);
    let view = opened(&cipher, &k).unwrap();
    let names: Vec<Option<String>> =
        view.attachments.unwrap().into_iter().map(|a| a.file_name).collect();
    assert_eq!(names, vec![text("a.pdf"), text("b.pdf"), text("c.pdf")]);
    let passwords: Vec<String> =
        view.password_history.unwrap().into_iter().map(|p| p.password).collect();
    assert_eq!(passwords, vec!["old1".to_string(), "old2".to_string()]);
    assert_eq!(view.fields.unwrap().len(), 2);
}

#[test]
fn list_of_payloads_decrypts_whole_or_not_at_all() {
    let k = key(1);
    let good: Vec<EncString> = vec![k.seal(b"one").unwrap(), k.seal(b"two").unwrap()];
    let plain: Result<Vec<String>, CipherError> = good.decrypt_with_key(&k);
    assert_eq!(plain, Ok(vec!["one".to_string(), "two".to_string()]));
    let bad: Vec<EncString> =
        vec![k.seal(b"one").unwrap(), key(2).seal(b"two").unwrap(), k.seal(b"three").unwrap()];
    let plain: Result<Vec<String>, CipherError> = bad.decrypt_with_key(&k);
    assert_eq!(plain, Err(CipherError::CryptoFailure));
    let none: Vec<EncString> = vec![];
    let plain: Result<Vec<String>, CipherError> = none.decrypt_with_key(&k);
    assert_eq!(plain, Ok(vec![]));
}

#[test]
fn optional_value_decrypts_to_an_optional_value() {
    let k = key(1);
    let absent: Option<EncString> = None;
    let plain: Result<Option<String>, CipherError> = absent.decrypt_with_key(&k);
    assert_eq!(plain, Ok(None));
    let present = Some(k.seal(b"here").unwrap());
    let plain: Result<Option<String>, CipherError> = present.decrypt_with_key(&k);
    assert_eq!(plain, Ok(text("here")));
    let bytes: Result<Option<Vec<u8>>, CipherError> = present.decrypt_with_key(&k);
    assert_eq!(bytes, Ok(Some(b"here".to_vec())));
    let wrong: Result<Option<String>, CipherError> = present.decrypt_with_key(&key(2));
    assert_eq!(wrong, Err(CipherError::CryptoFailure));
    let absent: Option<String> = None;
    let sealed: Result<Option<EncString>, CipherError> = absent.encrypt_with_key(&k);
    assert_eq!(sealed, Ok(None));
}

#[test]
fn list_of_texts_encrypts_in_order() {
    let k = key(1);
    let texts = vec!["one".to_string(), "two".to_string(), "three".to_string()];
    let sealed: Vec<EncString> = texts.encrypt_with_key(&k).unwrap();
    assert_eq!(sealed.len(), 3);
    assert_eq!(k.open(&sealed[0]), Some(b"one".to_vec()));
    assert_eq!(k.open(&sealed[1]), Some(b"two".to_vec()));
    assert_eq!(k.open(&sealed[2]), Some(b"three".to_vec()));
}

#[test]
fn text_too_long_to_seal_fails_the_encryption() {
    let k = key(1);
    let long = "x".repeat(MAX_PLAIN_LEN + 1);
    let sealed: Result<EncString, CipherError> = long.clone().encrypt_with_key(&k);
    assert_eq!(sealed, Err(CipherError::CryptoFailure));
    let mut view = login_view(None);
    view.notes = Some(long.clone());
    assert_eq!(view.encrypt_with_key(&k), Err(CipherError::CryptoFailure));
    let mut view = login_view(None);
    view.attachments.as_mut().unwrap()[2].file_name = Some(long.clone());
    assert_eq!(view.encrypt_with_key(&k), Err(CipherError::CryptoFailure));
    let texts = vec!["one".to_string(), long];
    let sealed: Result<Vec<EncString>, CipherError> = texts.encrypt_with_key(&k);
    assert_eq!(sealed, Err(CipherError::CryptoFailure));
    let fits = "x".repeat(MAX_PLAIN_LEN);
    let sealed: Result<EncString, CipherError> = fits.encrypt_with_key(&k);
    assert!(sealed.is_ok());
}

#[test]
fn listing_shows_name_subtitle_and_count() {
    let k = key(1);
    let cipher = sealed(login_view(None), &k);
    let view = login_view(None);
    let expected = CipherListView {
        id: view.id,
        organization_id: view.organization_id,
        folder_id: view.folder_id,
        collection_ids: view.collection_ids,
        name: "My bank".to_string(),
        sub_title: "ada".to_string(),
        kind: CipherType::Login,
        favorite: true,
        reprompt: CipherRepromptType::Password,
        edit: true,
        view_password: false,
        attachments: 3,
        creation_date: at(1_700_000_000),
        deleted_date: Some(at(1_700_000_500)),
        revision_date: at(1_700_000_100),
    };
    assert_eq!(listed(&cipher, &k), Ok(expected));
}

#[test]
fn listing_counts_attachments_that_do_not_decrypt() {
    let k = key(1);
    let mut cipher = sealed(login_view(None), &k);
    for attachment in cipher.attachments.as_mut().unwrap().iter_mut() {
        attachment.file_name = Some(EncString::new(vec![0xde, 0xad]));
    }
    assert_eq!(opened(&cipher, &k), Err(CipherError::CryptoFailure));
    assert_eq!(listed(&cipher, &k).unwrap().attachments, 3);
    cipher.attachments = Some(vec![]);
    assert_eq!(listed(&cipher, &k).unwrap().attachments, 0);
    cipher.attachments = None;
    assert_eq!(listed(&cipher, &k).unwrap().attachments, 0);
}

#[test]
fn listing_does_not_read_what_it_does_not_show() {
    let k = key(1);
    let mut cipher = sealed(everything_view(), &k);
    let bad = || Some(EncString::new(vec![0]));
    cipher.notes = bad();
    cipher.login.as_mut().unwrap().password = bad();
    cipher.identity.as_mut().unwrap().email = bad();
    cipher.card.as_mut().unwrap().code = bad();
    cipher.fields.as_mut().unwrap()[0].name = bad();
    cipher.password_history.as_mut().unwrap()[0].password = EncString::new(vec![0]);
    let listing = listed(&cipher, &k).unwrap();
    assert_eq!(listing.name, "My bank");
    assert_eq!(listing.sub_title, "Visa, 1111");
    assert_eq!(opened(&cipher, &k), Err(CipherError::CryptoFailure));
}

#[test]
fn items_locate_the_key_of_their_organization() {
    let org = Uuid::from_u128(2);
    let registry = KeyRegistry::new(key(1)).with_org_key(org, key(5));
    let view = login_view(None);
    assert_eq!(view.locate_key(&registry, &None), Some(&key(5)));
    assert_eq!(view.locate_key(&registry, &Some(Uuid::from_u128(77))), Some(&key(5)));
    let cipher = sealed(login_view(None), &key(5));
    assert_eq!(cipher.locate_key(&registry, &None), Some(&key(5)));
    let mut personal = login_view(None);
    personal.organization_id = None;
    assert_eq!(personal.locate_key(&registry, &Some(org)), Some(&key(1)));
    let mut stranger = login_view(None);
    stranger.organization_id = Some(Uuid::from_u128(3));
    assert_eq!(stranger.locate_key(&registry, &None), None);
}

#[test]
fn conversions_under_the_registry() {
    let org = Uuid::from_u128(2);
    let registry = KeyRegistry::new(key(1)).with_org_key(org, key(5));
    let cipher: Cipher = encrypt(login_view(None), &registry, &None).unwrap();
    assert_eq!(key(5).open(&cipher.name), Some("My bank".as_bytes().to_vec()));
    let view: Result<CipherView, CipherError> = decrypt(&cipher, &registry, &None);
    assert_eq!(view, Ok(login_view(None)));
    let listing: CipherListView = decrypt(&cipher, &registry, &None).unwrap();
    assert_eq!(listing.sub_title, "ada");
}

#[test]
fn item_of_an_unknown_organization_finds_no_key() {
    let registry = KeyRegistry::new(key(1));
    let cipher = sealed(login_view(None), &key(5));
    let view: Result<CipherView, CipherError> = decrypt(&cipher, &registry, &None);
    assert_eq!(view, Err(CipherError::KeyNotFound));
    let listing: Result<CipherListView, CipherError> = decrypt(&cipher, &registry, &None);
    assert_eq!(listing, Err(CipherError::KeyNotFound));
    let sealed: Result<Cipher, CipherError> = encrypt(login_view(None), &registry, &None);
    assert_eq!(sealed, Err(CipherError::KeyNotFound));
}

#[test]
fn one_item_fails_and_the_next_does_not() {
    let registry = KeyRegistry::new(key(1)).with_org_key(Uuid::from_u128(2), key(5));
    let good = sealed(login_view(None), &key(5));
    let mut bad = sealed(login_view(None), &key(5));
    bad.name = EncString::new(vec![]);
    let mut lost = sealed(login_view(None), &key(5));
    lost.organization_id = Some(Uuid::from_u128(9));
    let batch = vec![bad, lost, good];
    let names: Vec<Result<String, CipherError>> = batch
        .iter()
        .map(|c| decrypt::<_, CipherListView, _>(c, &registry, &None).map(|l| l.name))
        .collect();
    assert_eq!(
        names,
        vec![
            Err(CipherError::CryptoFailure),
            Err(CipherError::KeyNotFound),
            Ok("My bank".to_string())
        ]
    );
}
