use chrono::{DateTime, NaiveDateTime};
use vault_cipher::card::CardFields;
use vault_cipher::identity::IdentityFields;
use vault_cipher::login::LoginFields;
use vault_cipher::secure_note::{SecureNote, SecureNoteType};
use vault_cipher::subtitle::{card_number_tail, card_subtitle, identity_subtitle, login_subtitle};
use vault_cipher::transparent::TransparentKey;
use vault_cipher::{
    Cipher, CipherError, CipherListView, CipherRepromptType, CipherType, EncString, KeyDecryptable,
    SymmetricCryptoKey,
};

fn key(byte: u8) -> TransparentKey {
    TransparentKey::from_bytes(&[byte; 64]).unwrap()
}

fn at(secs: i64) -> NaiveDateTime {
    DateTime::from_timestamp(secs, 0).unwrap().naive_utc()
}

fn sealed(key: &TransparentKey, text: &str) -> EncString {
    key.seal(text.as_bytes()).unwrap()
}

fn text(s: &str) -> Option<String> {
    Some(s.to_string())
}

fn item(key: &TransparentKey, kind: CipherType) -> Cipher {
    Cipher {
        id: None,
        organization_id: None,
        folder_id: None,
        collection_ids: vec![],
        key: None,
        name: sealed(key, "item"),
        notes: None,
        kind,
        login: None,
        identity: None,
        card: None,
        secure_note: None,
        favorite: false,
        reprompt: CipherRepromptType::Never,
        organization_use_totp: false,
        edit: true,
        view_password: true,
        local_data: None,
        attachments: None,
        fields: None,
        password_history: None,
        creation_date: at(1_700_000_000),
        deleted_date: None,
        revision_date: at(1_700_000_100),
    }
}

fn card(key: &TransparentKey, brand: Option<&str>, number: Option<&str>) -> Cipher {
    let mut cipher = item(key, CipherType::Card);
    cipher.card = Some(CardFields {
        cardholder_name: Some(sealed(key, "A. Holder")),
        exp_month: None,
        exp_year: None,
        code: None,
        brand: brand.map(|b| sealed(key, b)),
        number: number.map(|n| sealed(key, n)),
    });
    cipher
}

fn identity(key: &TransparentKey, first: Option<&str>, last: Option<&str>) -> Cipher {
    let mut cipher = item(key, CipherType::Identity);
    cipher.identity = Some(IdentityFields {
        title: None,
        first_name: first.map(|f| sealed(key, f)),
        middle_name: None,
        last_name: last.map(|l| sealed(key, l)),
        address1: None,
        address2: None,
        address3: None,
        city: None,
        state: None,
        postal_code: None,
        country: None,
        company: None,
        email: None,
        phone: None,
        ssn: None,
        username: None,
        passport_number: None,
        license_number: None,
    });
    cipher
}

fn login(key: &TransparentKey, username: Option<&str>) -> Cipher {
    let mut cipher = item(key, CipherType::Login);
    cipher.login = Some(LoginFields {
        username: username.map(|u| sealed(key, u)),
        password: Some(sealed(key, "hunter2")),
        password_revision_date: None,
        uri: None,
        totp: None,
        autofill_on_page_load: None,
    });
    cipher
}

fn listed(cipher: &Cipher, key: &TransparentKey) -> Result<CipherListView, CipherError> {
    cipher.decrypt_with_key(key)
}

#[test]
fn card_with_brand_and_number() {
    let k = key(7);
    let cipher = card(&k, Some("Visa"), Some("4111111111111111"));
    assert_eq!(listed(&cipher, &k).unwrap().sub_title, "Visa, 1111");
    assert_eq!(cipher.get_decrypted_subtitle(&k), Ok("Visa, 1111".to_string()));
}

#[test]
fn card_with_prefix_37_shows_five_digits() {
    let k = key(7);
    let cipher = card(&k, None, Some("371234567890123"));
    assert_eq!(listed(&cipher, &k).unwrap().sub_title, "90123");
}

#[test]
fn card_with_prefix_34_shows_five_digits() {
    let k = key(7);
    let cipher = card(&k, Some("Amex"), Some("341234567890123"));
    assert_eq!(listed(&cipher, &k).unwrap().sub_title, "Amex, 90123");
}

#[test]
fn card_with_three_digit_number_only() {
    let k = key(7);
    let cipher = card(&k, None, Some("123"));
    assert_eq!(listed(&cipher, &k).unwrap().sub_title, "");
}

#[test]
fn card_with_brand_and_short_number_shows_brand_alone() {
    let k = key(7);
    let cipher = card(&k, Some("Visa"), Some("1234"));
    assert_eq!(listed(&cipher, &k).unwrap().sub_title, "Visa");
}

#[test]
fn card_with_brand_only() {
    let k = key(7);
    let cipher = card(&k, Some("Mastercard"), None);
    assert_eq!(listed(&cipher, &k).unwrap().sub_title, "Mastercard");
}

#[test]
fn card_with_neither_brand_nor_number() {
    let k = key(7);
    let cipher = card(&k, None, None);
    assert_eq!(listed(&cipher, &k).unwrap().sub_title, "");
}

#[test]
fn card_with_empty_brand_gets_no_separator() {
    let k = key(7);
    let cipher = card(&k, Some(""), Some("4111111111111111"));
    assert_eq!(listed(&cipher, &k).unwrap().sub_title, "1111");
}

#[test]
fn identity_with_both_names() {
    let k = key(7);
    let cipher = identity(&k, Some("Ada"), Some("Lovelace"));
    assert_eq!(listed(&cipher, &k).unwrap().sub_title, "Ada Lovelace");
}

#[test]
fn identity_with_last_name_only() {
    let k = key(7);
    let cipher = identity(&k, None, Some("Lovelace"));
    assert_eq!(listed(&cipher, &k).unwrap().sub_title, "Lovelace");
}

#[test]
fn identity_with_first_name_only() {
    let k = key(7);
    let cipher = identity(&k, Some("Ada"), None);
    assert_eq!(listed(&cipher, &k).unwrap().sub_title, "Ada");
}

#[test]
fn identity_without_names() {
    let k = key(7);
    let cipher = identity(&k, None, None);
    assert_eq!(listed(&cipher, &k).unwrap().sub_title, "");
}

#[test]
fn secure_note_has_empty_subtitle() {
    let k = key(7);
    let mut cipher = item(&k, CipherType::SecureNote);
    cipher.secure_note = Some(SecureNote { kind: SecureNoteType::Generic });
    cipher.notes = Some(sealed(&k, "the note's text"));
    assert_eq!(listed(&cipher, &k).unwrap().sub_title, "");
}

#[test]
fn secure_note_ignores_the_other_sub_records() {
    let k = key(7);
    let mut cipher = card(&k, Some("Visa"), Some("4111111111111111"));
    cipher.kind = CipherType::SecureNote;
    assert_eq!(listed(&cipher, &k).unwrap().sub_title, "");
}

#[test]
fn login_without_username() {
    let k = key(7);
    let cipher = login(&k, None);
    assert_eq!(listed(&cipher, &k).unwrap().sub_title, "");
}

#[test]
fn login_with_username() {
    let k = key(7);
    let cipher = login(&k, Some("ada@example.com"));
    assert_eq!(listed(&cipher, &k).unwrap().sub_title, "ada@example.com");
}

#[test]
fn missing_sub_record_gives_empty_subtitle() {
    let k = key(7);
    for kind in [CipherType::Login, CipherType::Card, CipherType::Identity, CipherType::SecureNote] {
        let cipher = item(&k, kind);
        assert_eq!(listed(&cipher, &k).unwrap().sub_title, "");
    }
}

#[test]
fn sub_record_of_another_kind_is_not_read() {
    let k = key(7);
    // A card whose kind says login: the card is not read, and there is no login.
    let mut cipher = card(&k, Some("Visa"), Some("4111111111111111"));
    cipher.kind = CipherType::Login;
    assert_eq!(listed(&cipher, &k).unwrap().sub_title, "");
    // Nor does a card that cannot be opened stand in the way.
    let other = key(8);
    let mut cipher = card(&other, Some("Visa"), Some("4111111111111111"));
    cipher.name = sealed(&k, "item");
    cipher.kind = CipherType::Identity;
    assert_eq!(listed(&cipher, &k).unwrap().sub_title, "");
}

#[test]
fn subtitle_fails_where_a_shown_field_does_not_open() {
    let k = key(7);
    let other = key(8);
    let mut cipher = card(&k, Some("Visa"), Some("4111111111111111"));
    cipher.card.as_mut().unwrap().number = Some(sealed(&other, "4111111111111111"));
    assert_eq!(cipher.get_decrypted_subtitle(&k), Err(CipherError::CryptoFailure));
    assert_eq!(listed(&cipher, &k), Err(CipherError::CryptoFailure));
    let mut cipher = identity(&k, Some("Ada"), Some("Lovelace"));
    cipher.identity.as_mut().unwrap().first_name = Some(sealed(&other, "Ada"));
    assert_eq!(cipher.get_decrypted_subtitle(&k), Err(CipherError::CryptoFailure));
    let cipher = login(&other, Some("ada"));
    assert_eq!(cipher.get_decrypted_subtitle(&k), Err(CipherError::CryptoFailure));
}

#[test]
fn subtitle_reads_only_the_fields_it_shows() {
    let k = key(7);
    let other = key(8);
    // The cardholder's name does not open; the subtitle does not need it.
    let mut cipher = card(&k, Some("Visa"), Some("4111111111111111"));
    cipher.card.as_mut().unwrap().cardholder_name = Some(sealed(&other, "A. Holder"));
    assert_eq!(listed(&cipher, &k).unwrap().sub_title, "Visa, 1111");
    // Nor the password of a login.
    let mut cipher = login(&k, Some("ada"));
    cipher.login.as_mut().unwrap().password = Some(sealed(&other, "hunter2"));
    assert_eq!(listed(&cipher, &k).unwrap().sub_title, "ada");
}

#[test]
fn number_tail_by_length() {
    assert_eq!(card_number_tail(""), "");
    assert_eq!(card_number_tail("1"), "");
    assert_eq!(card_number_tail("1234"), "");
    assert_eq!(card_number_tail("12345"), "2345");
    assert_eq!(card_number_tail("4111111111111111"), "1111");
}

#[test]
fn number_tail_by_prefix() {
    assert_eq!(card_number_tail("34567"), "34567");
    assert_eq!(card_number_tail("37567"), "37567");
    assert_eq!(card_number_tail("345678"), "45678");
    assert_eq!(card_number_tail("371234567890123"), "90123");
    assert_eq!(card_number_tail("341234567890123"), "90123");
    assert_eq!(card_number_tail("351234567890123"), "0123");
    assert_eq!(card_number_tail("471234567890123"), "0123");
    assert_eq!(card_number_tail("731234567890123"), "0123");
}

#[test]
fn number_tail_of_text_that_is_not_ascii() {
    // Six bytes in three characters: the last four bytes are two characters.
    assert_eq!(card_number_tail("ééé"), "éé");
    // Six bytes; the last four would begin inside the second character.
    assert_eq!(card_number_tail("1é234"), "");
    // Four bytes in two characters: too short.
    assert_eq!(card_number_tail("éé"), "");
    // The prefix is looked for in bytes, and is not there.
    assert_eq!(card_number_tail("3é4567"), "4567");
}

#[test]
fn card_subtitle_of_plain_values() {
    assert_eq!(card_subtitle(&text("Visa"), &text("4111111111111111")), "Visa, 1111");
    assert_eq!(card_subtitle(&None, &text("371234567890123")), "90123");
    assert_eq!(card_subtitle(&None, &text("123")), "");
    assert_eq!(card_subtitle(&text("Visa"), &None), "Visa");
    assert_eq!(card_subtitle(&text("Visa"), &text("1é234")), "Visa");
    assert_eq!(card_subtitle(&None, &None), "");
}

#[test]
fn identity_subtitle_of_plain_values() {
    assert_eq!(identity_subtitle(&text("Ada"), &text("Lovelace")), "Ada Lovelace");
    assert_eq!(identity_subtitle(&None, &text("Lovelace")), "Lovelace");
    assert_eq!(identity_subtitle(&text("Ada"), &None), "Ada");
    assert_eq!(identity_subtitle(&text(""), &text("Lovelace")), "Lovelace");
    assert_eq!(identity_subtitle(&text("Ada"), &text("")), "Ada ");
    assert_eq!(identity_subtitle(&None, &None), "");
}

#[test]
fn login_subtitle_of_plain_values() {
    assert_eq!(login_subtitle(text("ada")), "ada");
    assert_eq!(login_subtitle(text("")), "");
    assert_eq!(login_subtitle(None), "");
}
