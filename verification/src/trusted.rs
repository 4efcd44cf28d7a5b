//! The calls into other crates, and into the standard library where the
//! verifier has no contract for it. Their contracts are taken on trust:
//! each says what the callee's own source or documentation shows, and
//! nothing here is proved of them.

use crate::text::texts;
use vstd::prelude::*;
use vstd::string::*;

verus! {

/// The error type of `serde_json`.
#[verifier::external_type_specification]
#[verifier::external_body]
pub struct ExJsonError(serde_json::Error);

/// What `serde_json::to_string` makes of a list of strings: the JSON text
/// it writes, or `None` where it reports an error.
pub uninterp spec fn json_list(strings: Seq<Seq<char>>) -> Option<Seq<char>>;

/// `uuid::Uuid::new_v4` and its `to_string`: a random identifier in its
/// hyphenated lower-case form, which is 36 characters long. Which
/// identifier comes out is left open. The call aborts if the operating
/// system yields no random bytes.
#[verifier::external_body]
pub(crate) fn fresh_id() -> (id: String)
    ensures
        id@.len() == 36,
{
    uuid::Uuid::new_v4().to_string()
}

/// `chrono::Utc::now` and its `timestamp`: the system clock's time in whole
/// seconds since the Unix epoch. Nothing is claimed of the value. The call
/// aborts if the system clock stands before the epoch.
#[verifier::external_body]
pub(crate) fn unix_now() -> i64 {
    chrono::Utc::now().timestamp()
}

/// `serde_json::to_string` on a list of strings. The call writes into a
/// buffer of its own and reads nothing but the strings, so whether it
/// succeeds and what it writes are the same for the same strings: the
/// outcome is `json_list` of them. Success is not claimed.
#[verifier::external_body]
pub(crate) fn to_json(strings: &Vec<String>) -> (result: Result<String, serde_json::Error>)
    ensures
        result matches Ok(text) ==> json_list(texts(strings@)) == Some(text@),
        result is Err ==> json_list(texts(strings@)) is None,
{
    serde_json::to_string(strings)
}

/// `String::push` of the standard library: the string afterwards is the
/// string before with `c` appended as its last character.
#[verifier::external_body]
pub(crate) fn push_char(s: &mut String, c: char)
    ensures
        final(s)@ == old(s)@.push(c),
{
    s.push(c);
}

/// Whether the standard library's `char::is_whitespace` holds of `c`, that
/// is, whether `c` has the Unicode property `White_Space`.
pub uninterp spec fn white_space(c: char) -> bool;

/// `char::is_whitespace` of the standard library.
#[verifier::external_body]
pub(crate) fn is_white_space(c: char) -> (holds: bool)
    ensures
        holds == white_space(c),
{
    c.is_whitespace()
}

/// What the standard library's `str::to_lowercase` makes of a text.
pub uninterp spec fn lower_case(text: Seq<char>) -> Seq<char>;

/// `str::to_lowercase` of the standard library: the text in lower case,
/// by the rules of Unicode.
#[verifier::external_body]
pub(crate) fn to_lower_case(text: &str) -> (lowered: String)
    ensures
        lowered@ == lower_case(text@),
{
    text.to_lowercase()
}

} // verus!
