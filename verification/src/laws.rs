//! What holds of the library as a whole, stated over the models that the
//! contracts of its functions use.

use crate::coords::{
    is_point_of_byte, is_position_of_byte, position_byte, position_char, position_exact,
    position_valid, Point, Position, Range,
};
use crate::document::{
    apply_all, change_chain, change_step, change_text, follows, ContentChange, PerFileState,
};
use crate::edit::{describes_edit, range_valid, replace_range, InputEdit};
use crate::syntax::tree_sexp;
use crate::text::{
    breaks_before, byte_offset, char_at_byte, char_width, ends_line, lemma_breaks_before_agree,
    lemma_byte_offset_monotone, lemma_char_at_byte_of_offset, lemma_line_start,
    lemma_line_start_of_byte, lemma_line_start_of_char, lemma_line_start_unique, line_start,
    splice, utf8_len,
};
use vstd::prelude::*;

verus! {

/// Going from a byte offset of the text to its tree point, from there to the
/// editor position with the same numbers, and from there to a char index
/// ends at the char that the byte belongs to. On the way the position is
/// valid and stands for the byte that the walk began with.
pub proof fn lemma_byte_point_position_char(s: Seq<char>, b: int, point: Point, position: Position)
    requires
        0 <= b <= utf8_len(s),
        is_point_of_byte(s, b, point),
        position.line == point.row,
        position.character == point.column,
    ensures
        is_position_of_byte(s, b, position),
        position_valid(s, position),
        position_byte(s, position) == b,
        position_char(s, position) == char_at_byte(s, b),
{
    lemma_line_start_of_byte(s, b);
}

/// The same walk begun at a char index ends at that char index, and the
/// position on the way is exact.
pub proof fn lemma_char_position_char(s: Seq<char>, c: int, position: Position)
    requires
        0 <= c <= s.len(),
        is_position_of_byte(s, byte_offset(s, c), position),
    ensures
        position_valid(s, position),
        position_exact(s, position),
        position_byte(s, position) == byte_offset(s, c),
        position_char(s, position) == c,
{
    lemma_byte_offset_monotone(s, 0, c);
    lemma_byte_offset_monotone(s, c, s.len() as int);
    lemma_line_start_of_byte(s, byte_offset(s, c));
    lemma_char_at_byte_of_offset(s, c);
}

/// Over chars of one byte each, byte offsets advance as char indices do.
proof fn lemma_byte_offset_of_narrow_chars(s: Seq<char>, from: int, k: int)
    requires
        0 <= from,
        0 <= k,
        from + k <= s.len(),
        forall|j: int| from <= j < from + k ==> char_width(#[trigger] s[j]) == 1,
    ensures
        byte_offset(s, from + k) == byte_offset(s, from) + k,
    decreases k,
{
    if k > 0 {
        lemma_byte_offset_of_narrow_chars(s, from, k - 1);
        assert(s.take(from + k).drop_last() =~= s.take(from + k - 1));
        assert(s.take(from + k).last() == s[from + k - 1]);
    }
}

/// Where every char between the start of a line and a position on it takes
/// one byte, as in ASCII text, counting the position's offset in bytes and
/// counting it in chars come to the same: the position points at the char
/// that many chars past the start of the line.
pub proof fn lemma_position_char_in_narrow_line(s: Seq<char>, position: Position)
    requires
        position.line <= breaks_before(s, s.len() as int),
        line_start(s, position.line as int) + position.character <= s.len(),
        forall|j: int|
            line_start(s, position.line as int) <= j < line_start(s, position.line as int)
                + position.character ==> char_width(#[trigger] s[j]) == 1,
    ensures
        position_valid(s, position),
        position_char(s, position) == line_start(s, position.line as int) + position.character,
{
    let start = line_start(s, position.line as int);
    lemma_line_start(s, position.line as int);
    lemma_byte_offset_of_narrow_chars(s, start, position.character as int);
    lemma_byte_offset_monotone(s, start + position.character, s.len() as int);
    lemma_char_at_byte_of_offset(s, start + position.character);
}

/// A list of changes that ends in one without a range leaves the text of
/// that change, whatever the document held and whatever came before.
pub proof fn lemma_full_replace_discards(s: Seq<char>, changes: Seq<ContentChange>)
    requires
        changes.len() > 0,
        changes.last().range is None,
    ensures
        apply_all(s, changes) == changes.last().text@,
{
}

/// The states that a document goes through hold the texts that plain
/// splicing gives: the last holds what the changes make of the text of the
/// first.
pub proof fn lemma_chain_text(states: Seq<PerFileState>, changes: Seq<ContentChange>)
    requires
        change_chain(states, changes),
    ensures
        states.last().text() == apply_all(states[0].text(), changes),
    decreases changes.len(),
{
    if changes.len() > 0 {
        let n = changes.len() as int;
        let shorter = states.drop_last();
        let fewer = changes.drop_last();
        assert forall|i: int| 0 <= i < fewer.len() implies #[trigger] change_step(
            shorter[i],
            fewer[i],
            shorter[i + 1],
        ) by {
            assert(change_step(states[i], changes[i], states[i + 1]));
        }
        lemma_chain_text(shorter, fewer);
        assert(change_step(states[n - 1], changes[n - 1], states[n - 1 + 1]));
    }
}

/// What the changes make of a document holds the text that plain splicing
/// gives, and with no changes it is the document itself.
pub proof fn lemma_follows_text(
    before: PerFileState,
    changes: Seq<ContentChange>,
    after: PerFileState,
)
    requires
        follows(before, changes, after),
    ensures
        after.text() == apply_all(before.text(), changes),
        changes.len() == 0 ==> after == before,
{
    let states = choose|states: Seq<PerFileState>|
        #[trigger] change_chain(states, changes) && states[0] == before && states.last() == after;
    lemma_chain_text(states, changes);
}

/// A list of changes that ends in one without a range leaves the state of a
/// document just opened with the text of that change: nothing of the earlier
/// buffer or tree is left.
pub proof fn lemma_follows_full_replace(
    before: PerFileState,
    changes: Seq<ContentChange>,
    after: PerFileState,
)
    requires
        follows(before, changes, after),
        changes.len() > 0,
        changes.last().range is None,
    ensures
        after.is_fresh_open_of(changes.last().text@),
{
    let states = choose|states: Seq<PerFileState>|
        #[trigger] change_chain(states, changes) && states[0] == before && states.last() == after;
    let i = changes.len() - 1;
    assert(change_step(states[i], changes[i], states[i + 1]));
}

/// Two states that are each that of a document just opened with `text`
/// cannot be told apart: they hold the same text and the same tree. So what
/// a change without a range leaves is what opening its text leaves.
pub proof fn lemma_fresh_opens_agree(a: PerFileState, b: PerFileState, text: Seq<char>)
    requires
        a.is_fresh_open_of(text),
        b.is_fresh_open_of(text),
    ensures
        a.text() == b.text(),
        tree_sexp(a.tree) == tree_sexp(b.tree),
{
}

/// Two changes commute on `s` when either order leaves the same text.
pub open spec fn changes_commute(s: Seq<char>, a: ContentChange, b: ContentChange) -> bool {
    change_text(change_text(s, a), b) == change_text(change_text(s, b), a)
}

/// Where two changes do not commute, applying them in the other order leaves
/// another text, and so another document.
pub proof fn lemma_order_matters(s: Seq<char>, a: ContentChange, b: ContentChange)
    requires
        !changes_commute(s, a, b),
    ensures
        apply_all(s, seq![a, b]) != apply_all(s, seq![b, a]),
{
    lemma_apply_two(s, a, b);
    lemma_apply_two(s, b, a);
}

/// What two changes in a row leave.
pub proof fn lemma_apply_two(s: Seq<char>, a: ContentChange, b: ContentChange)
    ensures
        apply_all(s, seq![a, b]) == change_text(change_text(s, a), b),
{
    let both = seq![a, b];
    assert(both.drop_last() =~= seq![a]);
    assert(seq![a].drop_last() =~= Seq::<ContentChange>::empty());
    assert(apply_all(s, seq![a]) == change_text(s, a)) by {
        reveal_with_fuel(apply_all, 2);
    }
}

/// Two changes that each replace the whole document commute only where they
/// bring the same text: the later one wins.
pub proof fn lemma_full_replacements_commute(s: Seq<char>, a: ContentChange, b: ContentChange)
    requires
        a.range is None,
        b.range is None,
    ensures
        changes_commute(s, a, b) <==> a.text@ == b.text@,
{
}

/// A range between two chars is valid and stands for just these chars: where
/// both its ends are the positions of char indices, the edit is a plain
/// splice of the text between them.
pub proof fn lemma_edit_points_agree(
    s: Seq<char>,
    start: int,
    end: int,
    range: Range,
    t: Seq<char>,
    edit: InputEdit,
)
    requires
        0 <= start <= end <= s.len(),
        is_position_of_byte(s, byte_offset(s, start), range.start),
        is_position_of_byte(s, byte_offset(s, end), range.end),
        describes_edit(s, range, t, edit),
    ensures
        range_valid(s, range),
        position_char(s, range.start) == start,
        position_char(s, range.end) == end,
        replace_range(s, range, t) == splice(s, start, end, t),
        edit.start_byte == byte_offset(s, start),
        edit.old_end_byte == byte_offset(s, end),
{
    lemma_char_position_char(s, start, range.start);
    lemma_char_position_char(s, end, range.end);
}

/// Every valid range is one between two chars: its ends are the positions
/// of the chars that it stands for, so that editor positions, byte offsets
/// and tree points agree on every edit that is made.
pub proof fn lemma_valid_range_is_between_chars(s: Seq<char>, range: Range)
    requires
        range_valid(s, range),
    ensures
        0 <= position_char(s, range.start) <= position_char(s, range.end) <= s.len(),
        is_position_of_byte(s, byte_offset(s, position_char(s, range.start)), range.start),
        is_position_of_byte(s, byte_offset(s, position_char(s, range.end)), range.end),
{
    lemma_line_start(s, range.start.line as int);
    lemma_line_start(s, range.end.line as int);
    lemma_byte_offset_monotone(s, 0, line_start(s, range.start.line as int));
    lemma_byte_offset_monotone(s, 0, line_start(s, range.end.line as int));
    crate::text::lemma_char_at_byte(s, position_byte(s, range.start));
    crate::text::lemma_char_at_byte(s, position_byte(s, range.end));
}

/// What stands in front of a char index decides its position: in two texts
/// with the same first `c` chars, the char index `c` has the same position,
/// unless the char before it is a CR, which may or may not end a line by what
/// follows it.
pub proof fn lemma_position_by_prefix(s: Seq<char>, t: Seq<char>, c: int, position: Position)
    requires
        0 <= c <= s.len(),
        c <= t.len(),
        s.take(c) == t.take(c),
        c > 0 ==> s[c - 1] != '\u{0D}',
        is_position_of_byte(s, byte_offset(s, c), position),
    ensures
        is_position_of_byte(t, byte_offset(t, c), position),
        position_char(t, position) == c,
{
    assert forall|j: int| 0 <= j < c implies s[j] == t[j] by {
        assert(s[j] == s.take(c)[j]);
        assert(t[j] == t.take(c)[j]);
    }
    assert forall|j: int| 0 <= j < c implies ends_line(s, j) == ends_line(t, j) by {
        assert(s[j] == t[j]);
        if j + 1 < c {
            assert(s[j + 1] == t[j + 1]);
        }
    }
    lemma_char_at_byte_of_offset(s, c);
    lemma_char_at_byte_of_offset(t, c);
    let l = breaks_before(s, c);
    lemma_breaks_before_agree(s, t, c, c);
    lemma_line_start_of_char(s, c);
    lemma_line_start(s, l);
    let r = line_start(s, l);
    lemma_breaks_before_agree(s, t, c, r);
    lemma_line_start_unique(t, l, r);
    assert(s.take(r) =~= s.take(c).take(r));
    assert(t.take(r) =~= t.take(c).take(r));
    lemma_char_position_char(t, c, position);
}

/// Two insertions at the same place: the later one lands in front of the
/// earlier one.
pub proof fn lemma_inserts_at_one_place(
    s: Seq<char>,
    c: int,
    a: ContentChange,
    b: ContentChange,
    position: Position,
)
    requires
        0 <= c <= s.len(),
        c > 0 ==> s[c - 1] != '\u{0D}',
        is_position_of_byte(s, byte_offset(s, c), position),
        a.range == Some(Range { start: position, end: position }),
        b.range == Some(Range { start: position, end: position }),
    ensures
        apply_all(s, seq![a, b]) == s.take(c) + b.text@ + a.text@ + s.skip(c),
        apply_all(s, seq![b, a]) == s.take(c) + a.text@ + b.text@ + s.skip(c),
{
    lemma_insert_then_insert(s, c, a, b, position);
    lemma_insert_then_insert(s, c, b, a, position);
    lemma_apply_two(s, a, b);
    lemma_apply_two(s, b, a);
}

/// One order of two insertions at the same place.
proof fn lemma_insert_then_insert(
    s: Seq<char>,
    c: int,
    a: ContentChange,
    b: ContentChange,
    position: Position,
)
    requires
        0 <= c <= s.len(),
        c > 0 ==> s[c - 1] != '\u{0D}',
        is_position_of_byte(s, byte_offset(s, c), position),
        a.range == Some(Range { start: position, end: position }),
        b.range == Some(Range { start: position, end: position }),
    ensures
        change_text(change_text(s, a), b) == s.take(c) + b.text@ + a.text@ + s.skip(c),
{
    lemma_char_position_char(s, c, position);
    let first = change_text(s, a);
    assert(first == splice(s, c, c, a.text@));
    assert(first.take(c) =~= s.take(c));
    lemma_position_by_prefix(s, first, c, position);
    assert(change_text(first, b) == splice(first, c, c, b.text@));
    assert(first.skip(c) =~= a.text@ + s.skip(c));
    assert(splice(first, c, c, b.text@) =~= s.take(c) + b.text@ + a.text@ + s.skip(c));
}

/// Two insertions at the same place commute only where their texts do: else
/// the order in which they are applied shows in the document.
pub proof fn lemma_inserts_commute(
    s: Seq<char>,
    c: int,
    a: ContentChange,
    b: ContentChange,
    position: Position,
)
    requires
        0 <= c <= s.len(),
        c > 0 ==> s[c - 1] != '\u{0D}',
        is_position_of_byte(s, byte_offset(s, c), position),
        a.range == Some(Range { start: position, end: position }),
        b.range == Some(Range { start: position, end: position }),
    ensures
        changes_commute(s, a, b) <==> a.text@ + b.text@ == b.text@ + a.text@,
{
    lemma_insert_then_insert(s, c, a, b, position);
    lemma_insert_then_insert(s, c, b, a, position);
    let ab = a.text@ + b.text@;
    let ba = b.text@ + a.text@;
    let in_order = s.take(c) + b.text@ + a.text@ + s.skip(c);
    let swapped = s.take(c) + a.text@ + b.text@ + s.skip(c);
    assert(in_order.subrange(c, c + ba.len()) =~= ba);
    assert(swapped.subrange(c, c + ab.len()) =~= ab);
    if ab == ba {
        assert(in_order =~= s.take(c) + ba + s.skip(c));
        assert(swapped =~= s.take(c) + ab + s.skip(c));
    }
}

} // verus!
