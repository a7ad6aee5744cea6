//! The text buffer: a `ropey::Rope`, seen by the verifier as the sequence of
//! chars it holds. Everything in this file is assumed of ropey, not proved.
//!
//! Ropey is built with its default line breaks: LF, VT, FF, CR, NEL, LS and
//! PS each end a line, and a CR directly followed by LF ends it once.

use crate::text::{
    byte_offset, char_at_byte, line_count, line_of_byte, line_start_byte, splice, utf8_len,
};
use ropey::Rope;
use vstd::prelude::*;

verus! {

/// `ropey::Rope`: the verifier sees it only through `rope_text`.
#[verifier::external_type_specification]
#[verifier::external_body]
pub struct ExRope(Rope);

/// The chars that a rope holds, in order.
pub uninterp spec fn rope_text(rope: Rope) -> Seq<char>;

/// `Rope::from_str` builds a rope that holds exactly the chars of `text`.
pub assume_specification[ Rope::from_str ](text: &str) -> (rope: Rope)
    ensures
        rope_text(rope) == text@,
;

/// `Rope::len_bytes` is the length of the text in UTF-8 bytes.
pub assume_specification[ Rope::len_bytes ](rope: &Rope) -> (n: usize)
    ensures
        n == utf8_len(rope_text(*rope)),
;

/// `Rope::len_lines` is one more than the number of line breaks.
pub assume_specification[ Rope::len_lines ](rope: &Rope) -> (n: usize)
    ensures
        n == line_count(rope_text(*rope)),
;

/// `Rope::line_to_byte` is the byte offset at which a line starts, and the
/// length in bytes for the line one past the last. It panics past that.
pub assume_specification[ Rope::line_to_byte ](rope: &Rope, line_idx: usize) -> (b: usize)
    requires
        line_idx <= line_count(rope_text(*rope)),
    ensures
        b == line_start_byte(rope_text(*rope), line_idx as int),
;

/// `Rope::char_to_byte` is the byte offset at which a char starts, and the
/// length in bytes for the index one past the last char. It panics past that.
pub assume_specification[ Rope::char_to_byte ](rope: &Rope, char_idx: usize) -> (b: usize)
    requires
        char_idx <= rope_text(*rope).len(),
    ensures
        b == byte_offset(rope_text(*rope), char_idx as int),
;

/// `Rope::byte_to_char` is the index of the char that a byte belongs to, and
/// the length in chars for the offset one past the last byte. It panics past
/// that.
pub assume_specification[ Rope::byte_to_char ](rope: &Rope, byte_idx: usize) -> (c: usize)
    requires
        byte_idx <= utf8_len(rope_text(*rope)),
    ensures
        c == char_at_byte(rope_text(*rope), byte_idx as int),
;

/// `Rope::byte_to_line` counts the line breaks that end before the char that
/// a byte belongs to. It panics for an offset greater than the length in
/// bytes.
pub assume_specification[ Rope::byte_to_line ](rope: &Rope, byte_idx: usize) -> (l: usize)
    requires
        byte_idx <= utf8_len(rope_text(*rope)),
    ensures
        l == line_of_byte(rope_text(*rope), byte_idx as int),
;

/// `Rope::insert` puts the chars of `text` in front of the char with index
/// `char_idx`. It panics for an index greater than the length in chars.
pub assume_specification[ Rope::insert ](rope: &mut Rope, char_idx: usize, text: &str)
    requires
        char_idx <= rope_text(*old(rope)).len(),
    ensures
        rope_text(*final(rope)) == splice(
            rope_text(*old(rope)),
            char_idx as int,
            char_idx as int,
            text@,
        ),
;

/// `Rope::remove` takes out the chars with indices in `[start, end)`. It
/// panics where `start > end` or `end` is greater than the length in chars.
#[verifier::external_body]
pub(crate) fn rope_remove(rope: &mut Rope, start: usize, end: usize)
    requires
        start <= end <= rope_text(*old(rope)).len(),
    ensures
        rope_text(*final(rope)) == splice(
            rope_text(*old(rope)),
            start as int,
            end as int,
            Seq::<char>::empty(),
        ),
{
    rope.remove(start..end)
}

/// `String::from(&Rope)` copies the chars of the rope into a string.
#[verifier::external_body]
pub(crate) fn rope_to_string(rope: &Rope) -> (text: String)
    ensures
        text@ == rope_text(*rope),
{
    String::from(rope)
}

/// `Rope::clone` makes a rope of its own that holds the same chars.
#[verifier::external_body]
pub(crate) fn rope_clone(rope: &Rope) -> (copy: Rope)
    ensures
        rope_text(copy) == rope_text(*rope),
{
    rope.clone()
}

} // verus!
