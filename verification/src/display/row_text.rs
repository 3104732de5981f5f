//! The bounded strings that hold the text of a row. They are
//! `heapless::String` values of a fixed capacity; this module states what the
//! few operations used on them do.

use vstd::prelude::*;
use vstd::utf8::encode_utf8;

verus! {

/// Capacity of a text row in bytes of UTF-8.
pub const TEXT_ROW_LENGTH: usize = 256;

#[verifier::external_type_specification]
#[verifier::external_body]
pub struct ExBoundedString<const N: usize>(heapless::String<N>);

/// The characters that a bounded string holds.
pub uninterp spec fn row_chars(s: heapless::String<256>) -> Seq<char>;

/// Number of bytes that a text takes in UTF-8.
pub open spec fn utf8_len(text: Seq<char>) -> nat {
    encode_utf8(text).len()
}

/// `heapless::String::new`. Trusted: the new string is empty.
#[verifier::external_body]
pub(crate) fn row_new() -> (s: heapless::String<256>)
    ensures
        row_chars(s) == Seq::<char>::empty(),
{
    heapless::String::new()
}

/// `heapless::String::push_str`. Trusted: the text is appended when the bytes
/// of both fit in the capacity, and otherwise the string is left as it was.
#[verifier::external_body]
pub(crate) fn row_push_str(s: &mut heapless::String<256>, text: &str) -> (fits: bool)
    ensures
        fits <==> utf8_len(row_chars(*old(s))) + utf8_len(text@) <= TEXT_ROW_LENGTH,
        fits ==> row_chars(*final(s)) == row_chars(*old(s)) + text@,
        !fits ==> row_chars(*final(s)) == row_chars(*old(s)),
{
    s.push_str(text).is_ok()
}

/// `heapless::String::as_str`. Trusted: the slice holds the string's
/// characters, whose bytes never exceed the capacity.
#[verifier::external_body]
pub(crate) fn row_as_str(s: &heapless::String<256>) -> (text: &str)
    ensures
        text@ == row_chars(*s),
        utf8_len(text@) <= TEXT_ROW_LENGTH,
{
    s.as_str()
}

} // verus!
