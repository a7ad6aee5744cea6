//! Applying one ranged edit to the buffer, and deriving from it what the
//! incremental parser has to be told.

use crate::buffer::{rope_remove, rope_text};
use crate::coords::{
    byte_offset_to_point, is_exact_position, is_point_of_byte, lsp_position_to_char_offset,
    position_char, position_exact, position_to_point, Point, Range,
};
use crate::text::{
    byte_offset, lemma_byte_offset_monotone, lemma_splice, lemma_utf8_len_is_encoded_len, splice,
    utf8_len,
};
use ropey::Rope;
use vstd::prelude::*;

verus! {

/// One edit as the incremental parser wants it: the byte range that was
/// replaced, the byte at which the replacement ends, and the tree points of
/// the three offsets. The first two points are taken before the edit, the
/// third after it.
#[derive(Clone, Copy, Debug, PartialEq, Eq, Structural)]
pub struct InputEdit {
    pub start_byte: usize,
    pub old_end_byte: usize,
    pub new_end_byte: usize,
    pub start_position: Point,
    pub old_end_position: Point,
    pub new_end_position: Point,
}

/// A range is valid in `s` when both its ends are exact positions and the
/// end is not before the start.
pub open spec fn range_valid(s: Seq<char>, range: Range) -> bool {
    &&& position_exact(s, range.start)
    &&& position_exact(s, range.end)
    &&& position_char(s, range.start) <= position_char(s, range.end)
}

/// The text `s` with the chars of `range` replaced by `t`.
pub open spec fn replace_range(s: Seq<char>, range: Range, t: Seq<char>) -> Seq<char> {
    splice(s, position_char(s, range.start), position_char(s, range.end), t)
}

/// True when `edit` describes the replacement of `range` in `s` by `t`: its
/// byte offsets are those of the chars that the range stands for, its first
/// two points hold the numbers of the range's positions and are the tree
/// points of the first two offsets in `s`, and its third point is the tree
/// point of the third offset in the new text.
pub open spec fn describes_edit(s: Seq<char>, range: Range, t: Seq<char>, edit: InputEdit) -> bool {
    &&& edit.start_byte == byte_offset(s, position_char(s, range.start))
    &&& edit.old_end_byte == byte_offset(s, position_char(s, range.end))
    &&& edit.new_end_byte == edit.start_byte + utf8_len(t)
    &&& edit.start_position.row == range.start.line
    &&& edit.start_position.column == range.start.character
    &&& edit.old_end_position.row == range.end.line
    &&& edit.old_end_position.column == range.end.character
    &&& is_point_of_byte(s, edit.start_byte as int, edit.start_position)
    &&& is_point_of_byte(s, edit.old_end_byte as int, edit.old_end_position)
    &&& is_point_of_byte(replace_range(s, range, t), edit.new_end_byte as int, edit.new_end_position)
}

/// Removing a stretch and inserting at its start is one splice.
pub proof fn lemma_remove_then_insert(s: Seq<char>, start: int, end: int, t: Seq<char>)
    requires
        0 <= start <= end <= s.len(),
    ensures
        splice(splice(s, start, end, Seq::<char>::empty()), start, start, t) == splice(
            s,
            start,
            end,
            t,
        ),
{
    let removed = splice(s, start, end, Seq::<char>::empty());
    assert(removed.take(start) =~= s.take(start));
    assert(removed.skip(start) =~= s.skip(end));
    assert(splice(removed, start, start, t) =~= splice(s, start, end, t));
}

/// Tells whether `range` is valid in the buffer.
pub fn is_valid_range(file_contents: &Rope, range: Range) -> (valid: bool)
    ensures
        valid == range_valid(rope_text(*file_contents), range),
{
    if !is_exact_position(file_contents, range.start) {
        return false;
    }
    if !is_exact_position(file_contents, range.end) {
        return false;
    }
    let start_char = lsp_position_to_char_offset(file_contents, range.start);
    let end_char = lsp_position_to_char_offset(file_contents, range.end);
    start_char <= end_char
}

/// Replaces the chars of `range` by `text` and returns the description of
/// this edit for the parser.
pub fn apply_edit(file_contents: &mut Rope, range: Range, text: &str) -> (edit: InputEdit)
    requires
        range_valid(rope_text(*old(file_contents)), range),
    ensures
        rope_text(*final(file_contents)) == replace_range(
            rope_text(*old(file_contents)),
            range,
            text@,
        ),
        describes_edit(rope_text(*old(file_contents)), range, text@, edit),
{
    let ghost before = rope_text(*file_contents);
    let start_char = lsp_position_to_char_offset(file_contents, range.start);
    let end_char = lsp_position_to_char_offset(file_contents, range.end);
    let start_byte = file_contents.char_to_byte(start_char);
    let old_end_byte = file_contents.char_to_byte(end_char);
    rope_remove(file_contents, start_char, end_char);
    file_contents.insert(start_char, text);
    let len_bytes = file_contents.len_bytes();
    proof {
        lemma_remove_then_insert(before, start_char as int, end_char as int, text@);
        lemma_splice(before, start_char as int, end_char as int, text@);
        lemma_byte_offset_monotone(before, start_char as int, end_char as int);
        lemma_byte_offset_monotone(before, end_char as int, before.len() as int);
        lemma_utf8_len_is_encoded_len(text@);
    }
    let new_end_byte = start_byte + text.len();
    InputEdit {
        start_byte,
        old_end_byte,
        new_end_byte,
        start_position: position_to_point(range.start),
        old_end_position: position_to_point(range.end),
        new_end_position: byte_offset_to_point(file_contents, new_end_byte),
    }
}

} // verus!
