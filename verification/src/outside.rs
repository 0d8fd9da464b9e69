//! What the library takes from other crates, with what is claimed of it.
use vstd::prelude::*;

use crate::text::{ascii_lower, occurs_at};

verus! {

/// Whether `c` is a hexadecimal digit in lower case.
pub open spec fn is_lower_hex(c: char) -> bool {
    '0' <= c <= '9' || 'a' <= c <= 'f'
}

/// Whether `s` holds hexadecimal digits in lower case only.
pub open spec fn all_lower_hex(s: Seq<char>) -> bool {
    forall|i: int| 0 <= i < s.len() ==> is_lower_hex(#[trigger] s[i])
}

/// The number that one hexadecimal digit in lower case writes.
pub open spec fn hex_digit_value(c: char) -> nat {
    if '0' <= c <= '9' {
        ((c as u32) - ('0' as u32)) as nat
    } else {
        ((c as u32) - ('a' as u32) + 10) as nat
    }
}

/// The hexadecimal digit in lower case that writes `n`.
pub open spec fn hex_digit(n: nat) -> char {
    if n < 10 {
        (('0' as u32) + n) as char
    } else {
        (('a' as u32) + (n - 10)) as char
    }
}

/// The number that hexadecimal digits in lower case write.
pub open spec fn hex_value(s: Seq<char>) -> nat
    decreases s.len(),
{
    if s.len() == 0 {
        0
    } else {
        hex_value(s.drop_last()) * 16 + hex_digit_value(s.last())
    }
}

/// The last `width` hexadecimal digits of `n`.
pub open spec fn hex_text(n: nat, width: nat) -> Seq<char>
    decreases width,
{
    if width == 0 {
        Seq::empty()
    } else {
        hex_text(n / 16, (width - 1) as nat).push(hex_digit(n % 16))
    }
}

/// 32 characters in groups of 8, 4, 4, 4 and 12 with hyphens between.
pub open spec fn grouped(digits: Seq<char>) -> Seq<char> {
    digits.subrange(0, 8) + seq!['-'] + digits.subrange(8, 12) + seq!['-'] + digits.subrange(12, 16)
        + seq!['-'] + digits.subrange(16, 20) + seq!['-'] + digits.subrange(20, 32)
}

/// The characters of `s` but for the hyphens between its five groups.
pub open spec fn ungrouped(s: Seq<char>) -> Seq<char> {
    s.subrange(0, 8) + s.subrange(9, 13) + s.subrange(14, 18) + s.subrange(19, 23) + s.subrange(
        24,
        36,
    )
}

/// Whether hyphens stand where those of a grouped UUID do.
pub open spec fn has_group_hyphens(s: Seq<char>) -> bool {
    s.len() == 36 && s[8] == '-' && s[13] == '-' && s[18] == '-' && s[23] == '-'
}

/// The canonical text of the UUID `n`.
pub open spec fn uuid_text(n: u128) -> Seq<char> {
    grouped(hex_text(n as nat, 32))
}

/// The part of `s` that holds the digits of a UUID: all of it, without hyphens or with, or what
/// stands in braces or behind `urn:uuid:` with hyphens.
pub open spec fn uuid_digits(s: Seq<char>) -> Option<Seq<char>> {
    let body = if s.len() == 38 && s[0] == '{' && s[37] == '}' {
        s.subrange(1, 37)
    } else if s.len() == 45 && occurs_at(ascii_lower(s), "urn:uuid:"@, 0) {
        s.skip(9)
    } else {
        s
    };
    if s.len() == 32 {
        Some(s)
    } else if has_group_hyphens(body) {
        Some(ungrouped(body))
    } else {
        None
    }
}

/// The UUID that `s` writes, in capitals or in lower case, if it writes one.
pub open spec fn uuid_value(s: Seq<char>) -> Option<u128> {
    match uuid_digits(s) {
        Some(digits) => if all_lower_hex(ascii_lower(digits)) {
            Some(hex_value(ascii_lower(digits)) as u128)
        } else {
            None
        },
        None => None,
    }
}

/// `uuid::Uuid::parse_str` reads the four ways in which a UUID is written: 32 hexadecimal digits,
/// the same with hyphens, that in braces, and that behind `urn:uuid:`.
#[verifier::external_body]
pub(crate) fn parse_uuid(text: &str) -> (r: Option<u128>)
    ensures
        r == uuid_value(text@),
{
    uuid::Uuid::parse_str(text).ok().map(|id| id.as_u128())
}

/// `uuid::Uuid::to_string` writes the digits in lower case, with hyphens.
#[verifier::external_body]
pub(crate) fn print_uuid(id: u128) -> (r: String)
    ensures
        r@ == uuid_text(id),
{
    uuid::Uuid::from_u128(id).to_string()
}

/// `uuid::Uuid::new_v4` draws a random UUID whose version is 4 and whose variant is that of
/// RFC 9562; the other digits are left to chance. It panics only where the operating system has no
/// randomness to give.
#[verifier::external_body]
pub(crate) fn random_uuid() -> (r: u128)
    ensures
        hex_text(r as nat, 32)[12] == '4',
        8 <= hex_digit_value(hex_text(r as nat, 32)[16]) <= 11,
{
    uuid::Uuid::new_v4().as_u128()
}

/// The moment that `chrono::DateTime::parse_from_rfc2822` reads in a text, as whole seconds since
/// the Unix epoch and the nanoseconds after them.
pub uninterp spec fn rfc2822_moment(text: Seq<char>) -> Option<(i64, u32)>;

/// `chrono::DateTime::parse_from_rfc2822` reads a date and time as RFC 2822 writes it.
#[verifier::external_body]
pub(crate) fn parse_rfc2822(text: &str) -> (r: Option<(i64, u32)>)
    ensures
        r == rfc2822_moment(text@),
{
    chrono::DateTime::parse_from_rfc2822(text).ok().map(
        |date| (date.timestamp(), date.timestamp_subsec_nanos()),
    )
}

/// `chrono::Utc::now` reads the clock of the machine; nothing is claimed of what it shows. It
/// panics only where that clock stands before the Unix epoch.
#[verifier::external_body]
pub(crate) fn current_moment() -> (r: (i64, u32)) {
    let now = chrono::Utc::now();
    (now.timestamp(), now.timestamp_subsec_nanos())
}

/// `chrono::DateTime::to_rfc3339` of `chrono::Utc::now`: the clock of the machine as text; nothing
/// is claimed of what it shows. It panics only where that clock stands before the Unix epoch.
#[verifier::external_body]
pub(crate) fn current_timestamp() -> (r: String) {
    chrono::Utc::now().to_rfc3339()
}

/// The text of the URL that `url::Url::parse` reads in a text.
pub uninterp spec fn parsed_url(text: Seq<char>) -> Option<Seq<char>>;

/// `reqwest::Url::parse` reads an absolute URL.
#[verifier::external_body]
pub(crate) fn parse_url(text: &str) -> (r: Option<String>)
    ensures
        match parsed_url(text@) {
            Some(url) => r is Some && r->0@ == url,
            None => r is None,
        },
{
    reqwest::Url::parse(text).ok().map(String::from)
}

/// The text of the URL that `url::Url::join` makes of a base, itself read by `url::Url::parse`,
/// and a reference.
pub uninterp spec fn joined_url(base: Seq<char>, reference: Seq<char>) -> Option<Seq<char>>;

/// `reqwest::Url::join` resolves `reference` against `base`.
#[verifier::external_body]
pub(crate) fn join_url(base: &str, reference: &str) -> (r: Option<String>)
    ensures
        match joined_url(base@, reference@) {
            Some(url) => r is Some && r->0@ == url,
            None => r is None,
        },
{
    reqwest::Url::parse(base).ok().and_then(|url| url.join(reference).ok()).map(String::from)
}

/// Whether `c` may stand in the value of an HTTP header.
pub open spec fn is_header_char(c: char) -> bool {
    c == '\t' || (' ' <= c && c != '\u{7f}')
}

/// `reqwest::header::HeaderValue::from_str` accepts tabs and every character from the space on but
/// delete; so its code has it, which lets more through than its documentation says.
#[verifier::external_body]
pub(crate) fn fits_header(text: &str) -> (r: bool)
    ensures
        r <==> forall|i: int| 0 <= i < text@.len() ==> is_header_char(#[trigger] text@[i]),
{
    reqwest::header::HeaderValue::from_str(text).is_ok()
}

} // verus!
