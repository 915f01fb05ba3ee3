//! The storage actions served over the network: request validation and
//! the operation each action performs on the store.

pub mod handlers;
pub mod laws;
pub mod requests;

use vstd::prelude::*;
use vstd::utf8::encode_utf8;
use crate::text::concat;

verus! {

pub const MAX_TABLE_NAME_LEN: usize = 128;

pub const MAX_KEY_NAME_LEN: usize = 256;

/// 4 MiB.
pub const MAX_VALUE_LEN: usize = 4194304;

/// The name of the table that holds the node's own settings.
pub const METADATA_TABLE: &'static str = "__metadata";

/// Why a request was refused.
#[derive(Debug)]
pub enum ApiError {
    InternalError(String),
}

/// A character allowed in table names and keys.
pub open spec fn allowed_char(c: char) -> bool {
    ('a' <= c && c <= 'z') || ('A' <= c && c <= 'Z') || ('0' <= c && c <= '9') || c == '_' || c
        == '-' || c == '.'
}

pub open spec fn all_allowed(s: Seq<char>) -> bool {
    forall|i: int| 0 <= i < s.len() ==> allowed_char(#[trigger] s[i])
}

/// The UTF-8 length of a text.
pub open spec fn byte_len(s: Seq<char>) -> nat {
    encode_utf8(s).len()
}

/// The message a table name is refused with, if it is.
pub open spec fn name_problem(field: Seq<char>, s: Seq<char>) -> Option<Seq<char>> {
    if s.len() == 0 {
        Some(field + " cannot be empty"@)
    } else if byte_len(s) > 128 {
        Some(field + " is too long: max 128 bytes"@)
    } else if !all_allowed(s) {
        Some(field + " contains invalid characters"@)
    } else {
        None
    }
}

/// The message a key is refused with, if it is.
pub open spec fn key_problem(s: Seq<char>) -> Option<Seq<char>> {
    if s.len() == 0 {
        Some("key cannot be empty"@)
    } else if byte_len(s) > 256 {
        Some("key is too long: max 256 bytes"@)
    } else if !all_allowed(s) {
        Some("key contains invalid characters"@)
    } else {
        None
    }
}

/// The message a value is refused with, if it is.
pub open spec fn value_problem(v: Seq<u8>) -> Option<Seq<char>> {
    if v.len() > 4194304 {
        Some("value is too large: max 4194304 bytes"@)
    } else {
        None
    }
}

/// The message `action` on the reserved metadata table is refused with.
pub open spec fn metadata_problem(name: Seq<char>, action: Seq<char>) -> Option<Seq<char>> {
    if name == "__metadata"@ {
        Some(action + " is not allowed on the reserved metadata table"@)
    } else {
        None
    }
}

/// The first of two problems.
pub open spec fn first(a: Option<Seq<char>>, b: Option<Seq<char>>) -> Option<Seq<char>> {
    if a is Some {
        a
    } else {
        b
    }
}

/// A refusal with the given message.
pub open spec fn refused_with<T>(r: Result<T, ApiError>, m: Seq<char>) -> bool {
    r matches Err(ApiError::InternalError(x)) && x@ == m
}

fn chars_allowed(s: &str) -> (r: bool)
    ensures
        r == all_allowed(s@),
{
    let n = s.unicode_len();
    let mut i: usize = 0;
    while i < n
        invariant
            n == s@.len(),
            i <= n,
            forall|j: int| 0 <= j < i ==> allowed_char(#[trigger] s@[j]),
        decreases n - i,
    {
        let c = s.get_char(i);
        if !(('a' <= c && c <= 'z') || ('A' <= c && c <= 'Z') || ('0' <= c && c <= '9') || c
            == '_' || c == '-' || c == '.') {
            return false;
        }
        i = i + 1;
    }
    true
}

fn refuse(field: &str, what: &str) -> (r: Result<(), ApiError>)
    ensures
        r matches Err(ApiError::InternalError(m)) && m@ == field@ + what@,
{
    Err(ApiError::InternalError(concat(field, what)))
}

/// Checks a table name: not empty, at most 128 bytes, only ASCII letters,
/// digits, `_`, `-` and `.`. `field` names it in the message.
pub fn validate_name(name: &str, field: &str) -> (r: Result<(), ApiError>)
    ensures
        name@.len() == 0 ==> (r matches Err(ApiError::InternalError(m)) && m@ == field@
            + " cannot be empty"@),
        name@.len() != 0 && byte_len(name@) > 128 ==> (r matches Err(
            ApiError::InternalError(m),
        ) && m@ == field@ + " is too long: max 128 bytes"@),
        name@.len() != 0 && byte_len(name@) <= 128 && !all_allowed(name@) ==> (r matches Err(
            ApiError::InternalError(m),
        ) && m@ == field@ + " contains invalid characters"@),
        name@.len() != 0 && byte_len(name@) <= 128 && all_allowed(name@) ==> r is Ok,
{
    if name.is_empty() {
        return refuse(field, " cannot be empty");
    }
    if name.as_bytes().len() > MAX_TABLE_NAME_LEN {
        return refuse(field, " is too long: max 128 bytes");
    }
    if !chars_allowed(name) {
        return refuse(field, " contains invalid characters");
    }
    Ok(())
}

/// Checks a key: not empty, at most 256 bytes, only ASCII letters, digits,
/// `_`, `-` and `.`.
pub fn validate_key(key: &str) -> (r: Result<(), ApiError>)
    ensures
        key@.len() == 0 ==> (r matches Err(ApiError::InternalError(m)) && m@
            == "key cannot be empty"@),
        key@.len() != 0 && byte_len(key@) > 256 ==> (r matches Err(ApiError::InternalError(m))
            && m@ == "key is too long: max 256 bytes"@),
        key@.len() != 0 && byte_len(key@) <= 256 && !all_allowed(key@) ==> (r matches Err(
            ApiError::InternalError(m),
        ) && m@ == "key contains invalid characters"@),
        key@.len() != 0 && byte_len(key@) <= 256 && all_allowed(key@) ==> r is Ok,
{
    if key.is_empty() {
        return Err(ApiError::InternalError(String::from_str("key cannot be empty")));
    }
    if key.as_bytes().len() > MAX_KEY_NAME_LEN {
        return Err(ApiError::InternalError(String::from_str("key is too long: max 256 bytes")));
    }
    if !chars_allowed(key) {
        return Err(ApiError::InternalError(String::from_str("key contains invalid characters")));
    }
    Ok(())
}

/// Checks a value: at most 4 MiB.
pub fn validate_value(value: &[u8]) -> (r: Result<(), ApiError>)
    ensures
        value@.len() > 4194304 ==> (r matches Err(ApiError::InternalError(m)) && m@
            == "value is too large: max 4194304 bytes"@),
        value@.len() <= 4194304 ==> r is Ok,
{
    if value.len() > MAX_VALUE_LEN {
        return Err(
            ApiError::InternalError(String::from_str("value is too large: max 4194304 bytes")),
        );
    }
    Ok(())
}

/// Whether `name` is the reserved metadata table.
pub fn is_metadata_table(name: &str) -> (r: bool)
    ensures
        r == (name@ == "__metadata"@),
{
    String::from_str(name) == String::from_str(METADATA_TABLE)
}

/// Refuses `action` on the reserved metadata table.
pub fn validate_not_metadata_table(name: &str, action: &str) -> (r: Result<(), ApiError>)
    ensures
        name@ == "__metadata"@ ==> (r matches Err(ApiError::InternalError(m)) && m@ == action@
            + " is not allowed on the reserved metadata table"@),
        name@ != "__metadata"@ ==> r is Ok,
{
    if is_metadata_table(name) {
        return refuse(action, " is not allowed on the reserved metadata table");
    }
    Ok(())
}

} // verus!
