//! Identifiers and clock readings, taken from the uuid, nanoid and chrono
//! crates.
use vstd::prelude::*;

verus! {

pub open spec fn is_hex_digit(c: char) -> bool {
    ('0' <= c && c <= '9') || ('a' <= c && c <= 'f') || ('A' <= c && c <= 'F')
}

/// Thirty-six characters: hex digits in groups of 8, 4, 4, 4 and 12
/// joined by hyphens.
pub open spec fn is_hyphenated_uuid(s: Seq<char>) -> bool {
    &&& s.len() == 36
    &&& s[8] == '-' && s[13] == '-' && s[18] == '-' && s[23] == '-'
    &&& forall|i: int|
        0 <= i < 36 && i != 8 && i != 13 && i != 18 && i != 23 ==> is_hex_digit(#[trigger] s[i])
}

pub open spec fn lower_ascii(c: char) -> char {
    if 'A' <= c && c <= 'Z' {
        ((c as u32) + 32) as char
    } else {
        c
    }
}

/// Whether `s` is text that uuid accepts as a UUID: 32 hex digits, the
/// hyphenated form, the hyphenated form in braces, or the hyphenated form
/// after `urn:uuid:` in any case.
pub open spec fn is_uuid_text(s: Seq<char>) -> bool {
    ||| (s.len() == 32 && forall|i: int| 0 <= i < 32 ==> is_hex_digit(#[trigger] s[i]))
    ||| is_hyphenated_uuid(s)
    ||| (s.len() == 38 && s[0] == '{' && s[37] == '}' && is_hyphenated_uuid(s.subrange(1, 37)))
    ||| (s.len() == 45 && (forall|i: int|
        0 <= i < 9 ==> lower_ascii(#[trigger] s[i]) == "urn:uuid:"@[i]) && is_hyphenated_uuid(
        s.subrange(9, 45),
    ))
}

/// The hyphenated UUID derived from the UUID `row_id` as namespace and the
/// name `key` (UUID version 5).
pub uninterp spec fn namespaced_id(row_id: Seq<char>, key: Seq<char>) -> Seq<char>;

/// Relies on `uuid::Uuid::parse_str` to read `row_id`, and on
/// `uuid::Uuid::new_v5` with its hyphenated text form for the derived id,
/// which depends on the namespace and the name alone.
#[verifier::external_body]
pub(crate) fn derive_meta_id(row_id: &str, key: &str) -> (r: Option<String>)
    ensures
        r is Some == is_uuid_text(row_id@),
        r matches Some(s) ==> s@ == namespaced_id(row_id@, key@),
{
    match uuid::Uuid::parse_str(row_id) {
        Ok(namespace) => Some(uuid::Uuid::new_v5(&namespace, key.as_bytes()).to_string()),
        Err(_) => None,
    }
}

/// Relies on `uuid::Uuid::new_v4`: a random UUID in its hyphenated text
/// form of 36 characters.
#[verifier::external_body]
pub(crate) fn random_uuid() -> (r: String)
    ensures
        r@.len() == 36,
{
    uuid::Uuid::new_v4().to_string()
}

/// Relies on `nanoid::format` with the default generator and the URL-safe
/// alphabet: `size` random characters, all ASCII. With a size of zero it
/// would never return, so the size is bounded from both sides.
#[verifier::external_body]
pub(crate) fn random_short_id(size: usize) -> (r: String)
    requires
        1 <= size <= 64,
    ensures
        r@.len() == size,
{
    nanoid::format(nanoid::rngs::default, &nanoid::alphabet::SAFE, size)
}

/// Relies on `chrono::Utc::now` and `DateTime::timestamp`: the current time
/// in seconds since the Unix epoch.
#[verifier::external_body]
pub fn timestamp() -> (r: i64) {
    chrono::Utc::now().timestamp()
}

/// A fresh database id.
pub fn gen_database_id() -> (r: String)
    ensures
        r@.len() == 36,
{
    random_uuid()
}

/// A fresh view id.
pub fn gen_database_view_id() -> (r: String)
    ensures
        r@.len() == 36,
{
    random_uuid()
}

/// A fresh row id.
pub fn gen_row_id() -> (r: String)
    ensures
        r@.len() == 36,
{
    random_uuid()
}

/// A fresh field id.
pub fn gen_field_id() -> (r: String)
    ensures
        r@.len() == 6,
{
    random_short_id(6)
}

/// A fresh filter id.
pub fn gen_database_filter_id() -> (r: String)
    ensures
        r@.len() == 6,
{
    random_short_id(6)
}

/// A fresh sort id: `s:` and six random characters.
pub fn gen_database_sort_id() -> (r: String)
    ensures
        r@.len() == 8,
        r@.take(2) == seq!['s', ':'],
{
    let mut s = String::from_str("s:");
    proof {
        reveal_strlit("s:");
    }
    s.append(random_short_id(6).as_str());
    s
}

/// A fresh group id: `g:` and six random characters.
pub fn gen_database_group_id() -> (r: String)
    ensures
        r@.len() == 8,
        r@.take(2) == seq!['g', ':'],
{
    let mut s = String::from_str("g:");
    proof {
        reveal_strlit("g:");
    }
    s.append(random_short_id(6).as_str());
    s
}

} // verus!
