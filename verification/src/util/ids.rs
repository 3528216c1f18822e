//! Identifiers of rows and keys: 128-bit numbers, drawn at random, with a
//! text form.

use vstd::prelude::*;

verus! {

/// The text of an identifier: 32 lower-case hexadecimal digits in groups of
/// 8, 4, 4, 4 and 12, with hyphens between the groups.
pub uninterp spec fn uuid_text(id: u128) -> Seq<char>;

/// Whether a character is a digit or one of the letters `a` to `f`.
pub open spec fn is_lower_hex(c: char) -> bool {
    ('0' <= c && c <= '9') || ('a' <= c && c <= 'f')
}

/// Whether a text has the hyphenated form: 36 characters, hyphens at the
/// places 8, 13, 18 and 23, and lower-case hexadecimal digits elsewhere.
pub open spec fn is_hyphenated(text: Seq<char>) -> bool {
    &&& text.len() == 36
    &&& forall|i: int|
        0 <= i < 36 ==> if i == 8 || i == 13 || i == 18 || i == 23 {
            #[trigger] text[i] == '-'
        } else {
            is_lower_hex(text[i])
        }
}

/// Calls `uuid::Uuid::new_v4`, which draws 122 random bits. Nothing is
/// claimed of the identifier that comes back. The draw does not return
/// where the operating system has no random bits to give.
#[verifier::external_body]
pub(crate) fn fresh_uuid() -> (id: u128) {
    uuid::Uuid::new_v4().as_u128()
}

/// Calls `to_string` of `uuid::Uuid`, which writes the identifier in its
/// hyphenated lower-case form. The text depends on the identifier alone.
#[verifier::external_body]
pub(crate) fn uuid_to_string(id: u128) -> (text: String)
    ensures
        text@ == uuid_text(id),
        is_hyphenated(text@),
{
    uuid::Uuid::from_u128(id).to_string()
}

/// What reading a text as an identifier gives: the identifier, or the
/// message with which the text is refused. The hyphenated form is accepted,
/// and so are the forms without hyphens, in braces and as a URN.
pub uninterp spec fn text_uuid(text: Seq<char>) -> Result<u128, Seq<char>>;

/// Calls `uuid::Uuid::parse_str` and, where it fails, `to_string` of its
/// error. Whether it succeeds, with which identifier and with which message
/// depends on the text alone.
#[verifier::external_body]
pub(crate) fn parse_uuid(text: &str) -> (parsed: Result<u128, String>)
    ensures
        match parsed {
            Ok(id) => text_uuid(text@) == Ok::<u128, Seq<char>>(id),
            Err(message) => text_uuid(text@) == Err::<u128, Seq<char>>(message@),
        },
{
    match uuid::Uuid::parse_str(text) {
        Ok(id) => Ok(id.as_u128()),
        Err(error) => Err(error.to_string()),
    }
}

} // verus!
