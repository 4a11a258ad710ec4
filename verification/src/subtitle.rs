//! The short label that a listing shows under an item's name, made from the
//! plaintext of a few of the item's fields.

use vstd::prelude::*;
use vstd::string::*;
use vstd::utf8::*;

verus! {

/// Whether a card number in its UTF-8 bytes begins with `34` or `37`, the
/// prefixes of the card network whose numbers are shown by five digits.
pub open spec fn shown_by_five(number: Seq<u8>) -> bool {
    &&& number.len() >= 2
    &&& number[0] == 0x33
    &&& number[1] == 0x34 || number[1] == 0x37
}

/// How many bytes from the end of a card number are shown.
pub open spec fn shown_len(number: Seq<u8>) -> int {
    if shown_by_five(number) {
        5
    } else {
        4
    }
}

/// The part of a card number that a subtitle shows.
///
/// A number of more than four bytes shows its last five bytes if it begins
/// with `34` or `37`, else its last four. A shorter number shows nothing, and
/// neither does one whose last bytes begin inside a character.
pub open spec fn card_number_tail_of(number: Seq<char>) -> Seq<char> {
    let bytes = encode_utf8(number);
    let cut = bytes.len() - shown_len(bytes);
    if bytes.len() > 4 && is_char_boundary(bytes, cut) {
        decode_utf8(bytes.subrange(cut, bytes.len() as int))
    } else {
        Seq::empty()
    }
}

/// The subtitle of a card: brand and number tail, joined by a comma and a
/// space where neither is empty.
pub open spec fn card_subtitle_of(brand: Option<Seq<char>>, number: Option<Seq<char>>) -> Seq<char> {
    let head = match brand {
        Some(b) => b,
        None => Seq::empty(),
    };
    let tail = match number {
        Some(n) => card_number_tail_of(n),
        None => Seq::empty(),
    };
    if tail.len() == 0 {
        head
    } else if head.len() == 0 {
        tail
    } else {
        head + ", "@ + tail
    }
}

/// The subtitle of an identity: first name and last name, with a space
/// between them where a last name follows a first name that is not empty.
pub open spec fn identity_subtitle_of(first_name: Option<Seq<char>>, last_name: Option<Seq<char>>) -> Seq<char> {
    let head = match first_name {
        Some(f) => f,
        None => Seq::empty(),
    };
    match last_name {
        Some(l) => if head.len() == 0 {
            l
        } else {
            head + " "@ + l
        },
        None => head,
    }
}

/// The subtitle of a login: its username, or nothing where it has none.
pub open spec fn login_subtitle_of(username: Option<Seq<char>>) -> Seq<char> {
    match username {
        Some(u) => u,
        None => Seq::empty(),
    }
}

/// The part of `number` that a card's subtitle shows.
pub fn card_number_tail(number: &str) -> (tail: &str)
    ensures
        tail@ == card_number_tail_of(number@),
{
    proof {
        reveal_strlit("");
    }
    let bytes = number.as_bytes();
    let len: usize = bytes.len();
    if len <= 4 {
        return "";
    }
    let shown: usize = if bytes[0] == 0x33 && (bytes[1] == 0x34 || bytes[1] == 0x37) {
        5
    } else {
        4
    };
    let cut: usize = len - shown;
    if !number.is_char_boundary(cut) {
        return "";
    }
    let (_, tail) = number.split_at(cut);
    proof {
        encode_utf8_decode_utf8(tail@);
    }
    tail
}

/// The subtitle of a card with the given brand and number.
pub fn card_subtitle(brand: &Option<String>, number: &Option<String>) -> (sub_title: String)
    ensures
        sub_title@ == card_subtitle_of(brand.deep_view(), number.deep_view()),
{
    let mut sub_title = String::new();
    if let Some(brand) = brand {
        sub_title.append(brand.as_str());
    }
    if let Some(number) = number {
        let tail = card_number_tail(number.as_str());
        if !tail.is_empty() {
            if !sub_title.as_str().is_empty() {
                sub_title.append(", ");
            }
            sub_title.append(tail);
        }
    }
    sub_title
}

/// The subtitle of an identity with the given names.
pub fn identity_subtitle(first_name: &Option<String>, last_name: &Option<String>) -> (sub_title: String)
    ensures
        sub_title@ == identity_subtitle_of(first_name.deep_view(), last_name.deep_view()),
{
    let mut sub_title = String::new();
    if let Some(first_name) = first_name {
        sub_title.append(first_name.as_str());
    }
    if let Some(last_name) = last_name {
        if !sub_title.as_str().is_empty() {
            sub_title.append(" ");
        }
        sub_title.append(last_name.as_str());
    }
    sub_title
}

/// The subtitle of a login with the given username.
pub fn login_subtitle(username: Option<String>) -> (sub_title: String)
    ensures
        sub_title@ == login_subtitle_of(username.deep_view()),
{
    match username {
        Some(u) => u,
        None => String::new(),
    }
}

/// The part of a card number that a subtitle shows, counted in characters:
/// the last five where the number begins with `34` or `37`, else the last
/// four, and nothing of a number of four characters or fewer.
pub open spec fn last_digits_of(number: Seq<char>) -> Seq<char> {
    if number.len() <= 4 {
        Seq::empty()
    } else if number[0] == '3' && (number[1] == '4' || number[1] == '7') {
        number.subrange(number.len() - 5, number.len() as int)
    } else {
        number.subrange(number.len() - 4, number.len() as int)
    }
}

/// Of a number written in ASCII, as every card number of digits is, the
/// subtitle shows the last digits.
pub proof fn lemma_ascii_number_shows_last_digits(number: Seq<char>)
    requires
        is_ascii_chars(number),
    ensures
        card_number_tail_of(number) == last_digits_of(number),
{
    let bytes = encode_utf8(number);
    is_ascii_chars_encode_utf8(number);
    encode_utf8_valid_utf8(number);
    if number.len() > 4 {
        assert(number[0] as u8 == bytes[0]);
        assert(number[1] as u8 == bytes[1]);
        let cut = bytes.len() - shown_len(bytes);
        let shown = number.subrange(cut, number.len() as int);
        assert(last_digits_of(number) == shown);
        assert(number[cut] as u8 == bytes[cut]);
        is_char_boundary_iff_not_is_continuation_byte(bytes, cut);
        assert(is_ascii_chars(shown));
        is_ascii_chars_encode_utf8(shown);
        assert forall|i: int| 0 <= i < shown.len() implies encode_utf8(shown)[i] == bytes.subrange(
            cut,
            bytes.len() as int,
        )[i] by {
            assert(shown[i] == number[cut + i]);
        }
        assert(encode_utf8(shown) =~= bytes.subrange(cut, bytes.len() as int));
        encode_utf8_decode_utf8(shown);
    }
}

} // verus!
