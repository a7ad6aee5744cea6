//! Conversion between the three ways to address a place in a document:
//! editor positions, byte offsets, and tree points.
//!
//! An editor position counts its `character` in UTF-8 bytes from the start of
//! the line (the `utf-8` position encoding), so a position and a tree point
//! of the same place hold the same two numbers.

use crate::buffer::rope_text;
use crate::text::{
    byte_offset, char_at_byte, lemma_byte_offset_monotone, lemma_char_at_byte, lemma_line_start,
    lemma_line_start_of_byte, line_count, line_of_byte, line_start, line_start_byte, utf8_len,
};
use ropey::Rope;
use vstd::prelude::*;

verus! {

/// A place in editor space: a zero-based line and an offset within it,
/// counted in UTF-8 bytes.
#[derive(Clone, Copy, Debug, PartialEq, Eq, Structural)]
pub struct Position {
    pub line: usize,
    pub character: usize,
}

/// A place in tree space: a zero-based row and a column within it, counted in
/// bytes.
#[derive(Clone, Copy, Debug, PartialEq, Eq, Structural)]
pub struct Point {
    pub row: usize,
    pub column: usize,
}

/// A stretch of a document in editor space, from `start` up to `end`.
#[derive(Clone, Copy, Debug, PartialEq, Eq, Structural)]
pub struct Range {
    pub start: Position,
    pub end: Position,
}

/// A position is valid in `s` when its line is a line of `s`, or the line one
/// past the last, and its byte lies within the text or at its end.
pub open spec fn position_valid(s: Seq<char>, position: Position) -> bool {
    &&& position.line <= line_count(s)
    &&& line_start_byte(s, position.line as int) + position.character <= utf8_len(s)
}

/// Byte offset that a position stands for.
pub open spec fn position_byte(s: Seq<char>, position: Position) -> int {
    line_start_byte(s, position.line as int) + position.character
}

/// Index of the char that a position points at or into.
pub open spec fn position_char(s: Seq<char>, position: Position) -> int {
    char_at_byte(s, position_byte(s, position))
}

/// Row of the tree point of byte offset `b`.
pub open spec fn point_row(s: Seq<char>, b: int) -> int {
    line_of_byte(s, b)
}

/// Column of the tree point of byte offset `b`.
pub open spec fn point_column(s: Seq<char>, b: int) -> int {
    b - line_start_byte(s, line_of_byte(s, b))
}

/// True when `point` is the tree point of byte offset `b` in `s`.
pub open spec fn is_point_of_byte(s: Seq<char>, b: int, point: Point) -> bool {
    &&& point.row == point_row(s, b)
    &&& point.column == point_column(s, b)
}

/// True when `position` is the editor position of byte offset `b` in `s`.
pub open spec fn is_position_of_byte(s: Seq<char>, b: int, position: Position) -> bool {
    &&& position.line == point_row(s, b)
    &&& position.character == point_column(s, b)
}

/// A position is exact in `s` when it is valid and is the position of the
/// byte that it stands for, and a char starts at that byte or the text ends
/// there. A position that runs past the end of its line, or that stands
/// inside a char of several bytes, is valid but not exact.
pub open spec fn position_exact(s: Seq<char>, position: Position) -> bool {
    &&& position_valid(s, position)
    &&& byte_offset(s, position_char(s, position)) == position_byte(s, position)
    &&& is_position_of_byte(s, position_byte(s, position), position)
}

/// Char index that an editor position points at.
pub fn lsp_position_to_char_offset(file_contents: &Rope, position: Position) -> (offset: usize)
    requires
        position_valid(rope_text(*file_contents), position),
    ensures
        offset == position_char(rope_text(*file_contents), position),
        offset <= rope_text(*file_contents).len(),
{
    let line_byte = file_contents.line_to_byte(position.line);
    let len_bytes = file_contents.len_bytes();
    proof {
        lemma_char_at_byte(rope_text(*file_contents), line_byte + position.character);
    }
    file_contents.byte_to_char(line_byte + position.character)
}

/// Tells whether `position` is valid in the buffer.
pub fn is_valid_position(file_contents: &Rope, position: Position) -> (valid: bool)
    ensures
        valid == position_valid(rope_text(*file_contents), position),
{
    if position.line > file_contents.len_lines() {
        return false;
    }
    let line_byte = file_contents.line_to_byte(position.line);
    let len_bytes = file_contents.len_bytes();
    proof {
        let s = rope_text(*file_contents);
        lemma_line_start(s, position.line as int);
        lemma_byte_offset_monotone(s, line_start(s, position.line as int), s.len() as int);
    }
    position.character <= len_bytes - line_byte
}

/// Tells whether `position` is exact in the buffer.
pub fn is_exact_position(file_contents: &Rope, position: Position) -> (exact: bool)
    ensures
        exact == position_exact(rope_text(*file_contents), position),
{
    if !is_valid_position(file_contents, position) {
        return false;
    }
    let line_byte = file_contents.line_to_byte(position.line);
    let len_bytes = file_contents.len_bytes();
    let byte = line_byte + position.character;
    let char_index = file_contents.byte_to_char(byte);
    proof {
        lemma_char_at_byte(rope_text(*file_contents), byte as int);
    }
    if file_contents.char_to_byte(char_index) != byte {
        return false;
    }
    file_contents.byte_to_line(byte) == position.line
}

/// The tree point with the numbers of an editor position.
pub fn position_to_point(position: Position) -> (point: Point)
    ensures
        point.row == position.line,
        point.column == position.character,
{
    Point { row: position.line, column: position.character }
}

/// The editor position with the numbers of a tree point.
pub fn point_to_position(point: Point) -> (position: Position)
    ensures
        position.line == point.row,
        position.character == point.column,
{
    Position { line: point.row, character: point.column }
}

/// The tree point of a byte offset: the line it is on, and how many bytes it
/// is past the start of that line.
pub fn byte_offset_to_point(file_contents: &Rope, byte_offset: usize) -> (point: Point)
    requires
        byte_offset <= utf8_len(rope_text(*file_contents)),
    ensures
        is_point_of_byte(rope_text(*file_contents), byte_offset as int, point),
{
    let line_num = file_contents.byte_to_line(byte_offset);
    proof {
        lemma_line_start_of_byte(rope_text(*file_contents), byte_offset as int);
    }
    let start_of_line_byte_offset = file_contents.line_to_byte(line_num);
    Point { row: line_num, column: byte_offset - start_of_line_byte_offset }
}

/// The editor range of a byte range of the tree.
pub fn tree_sitter_range_to_lsp_range(
    file_contents: &Rope,
    start_byte: usize,
    end_byte: usize,
) -> (range: Range)
    requires
        start_byte <= utf8_len(rope_text(*file_contents)),
        end_byte <= utf8_len(rope_text(*file_contents)),
    ensures
        is_position_of_byte(rope_text(*file_contents), start_byte as int, range.start),
        is_position_of_byte(rope_text(*file_contents), end_byte as int, range.end),
{
    Range {
        start: point_to_position(byte_offset_to_point(file_contents, start_byte)),
        end: point_to_position(byte_offset_to_point(file_contents, end_byte)),
    }
}

} // verus!
