//! The mathematical model of a text: a sequence of Unicode scalar values,
//! addressed in three ways (by char index, by byte offset into its UTF-8
//! encoding, and by line), together with the lemmas that relate the three.

use vstd::prelude::*;
use vstd::utf8::*;

verus! {

/// Number of bytes that `c` occupies in UTF-8.
pub open spec fn char_width(c: char) -> int {
    if (c as u32) < 0x80 {
        1
    } else if (c as u32) < 0x800 {
        2
    } else if (c as u32) < 0x10000 {
        3
    } else {
        4
    }
}

/// Number of bytes that `s` occupies in UTF-8.
pub open spec fn utf8_len(s: Seq<char>) -> int
    decreases s.len(),
{
    if s.len() == 0 {
        0
    } else {
        utf8_len(s.drop_last()) + char_width(s.last())
    }
}

/// Byte offset at which the char with index `c` starts; for `c == s.len()`
/// the length of the text in bytes.
pub open spec fn byte_offset(s: Seq<char>, c: int) -> int {
    utf8_len(s.take(c))
}

/// Index of the char that the byte at offset `b` belongs to; `s.len()` when
/// `b` is at or past the end of the text.
pub open spec fn char_at_byte(s: Seq<char>, b: int) -> int
    decreases s.len(),
{
    if s.len() == 0 {
        0
    } else if utf8_len(s) <= b {
        s.len() as int
    } else {
        char_at_byte(s.drop_last(), b)
    }
}

/// The chars that can end a line: LF, VT, FF, CR, NEL, LS and PS.
pub open spec fn is_break_char(c: char) -> bool {
    c == '\u{0A}' || c == '\u{0B}' || c == '\u{0C}' || c == '\u{0D}' || c == '\u{85}' || c
        == '\u{2028}' || c == '\u{2029}'
}

/// True when the char at index `i` is the last char of a line break. A CR
/// directly followed by LF does not end the line: the LF does, so that the
/// pair counts once.
pub open spec fn ends_line(s: Seq<char>, i: int) -> bool {
    &&& 0 <= i < s.len()
    &&& is_break_char(s[i])
    &&& !(s[i] == '\u{0D}' && i + 1 < s.len() && s[i + 1] == '\u{0A}')
}

/// Number of line breaks that end before char index `n`: the zero-based
/// index of the line that the char at `n` is on.
pub open spec fn breaks_before(s: Seq<char>, n: int) -> int
    decreases n,
{
    if n <= 0 {
        0
    } else {
        breaks_before(s, n - 1) + if ends_line(s, n - 1) {
            1int
        } else {
            0int
        }
    }
}

/// Number of lines of `s`: one more than its line breaks, so that a text
/// that ends in a line break has an empty last line.
pub open spec fn line_count(s: Seq<char>) -> int {
    breaks_before(s, s.len() as int) + 1
}

/// Char index reached from `from` after passing `l` more line breaks, or
/// `s.len()` when fewer are left.
pub open spec fn line_start_from(s: Seq<char>, l: int, from: int) -> int
    decreases s.len() - from,
{
    if l <= 0 {
        from
    } else if from >= s.len() {
        s.len() as int
    } else if ends_line(s, from) {
        line_start_from(s, l - 1, from + 1)
    } else {
        line_start_from(s, l, from + 1)
    }
}

/// Char index at which line `l` starts; `s.len()` for the line one past the
/// last.
pub open spec fn line_start(s: Seq<char>, l: int) -> int {
    line_start_from(s, l, 0)
}

/// Byte offset at which line `l` starts.
pub open spec fn line_start_byte(s: Seq<char>, l: int) -> int {
    byte_offset(s, line_start(s, l))
}

/// Zero-based index of the line that the byte at offset `b` is on.
pub open spec fn line_of_byte(s: Seq<char>, b: int) -> int {
    breaks_before(s, char_at_byte(s, b))
}

/// The text `s` with the chars in `[start, end)` replaced by `t`.
pub open spec fn splice(s: Seq<char>, start: int, end: int, t: Seq<char>) -> Seq<char> {
    s.take(start) + t + s.skip(end)
}

/// The byte length of a text is at least its length in chars and at most
/// four times as much.
pub proof fn lemma_utf8_len_bounds(s: Seq<char>)
    ensures
        s.len() <= utf8_len(s) <= 4 * s.len(),
    decreases s.len(),
{
    if s.len() > 0 {
        lemma_utf8_len_bounds(s.drop_last());
    }
}

/// Byte lengths add up over concatenation.
pub proof fn lemma_utf8_len_concat(a: Seq<char>, b: Seq<char>)
    ensures
        utf8_len(a + b) == utf8_len(a) + utf8_len(b),
    decreases b.len(),
{
    if b.len() == 0 {
        assert(a + b =~= a);
    } else {
        assert((a + b).drop_last() =~= a + b.drop_last());
        assert((a + b).last() == b.last());
        lemma_utf8_len_concat(a, b.drop_last());
    }
}

/// The model's byte length is the length of the UTF-8 encoding.
pub proof fn lemma_utf8_len_is_encoded_len(s: Seq<char>)
    ensures
        utf8_len(s) == encode_utf8(s).len(),
    decreases s.len(),
{
    if s.len() > 0 {
        let first = s.take(1);
        let rest = s.drop_first();
        assert(s =~= first + rest);
        lemma_utf8_len_concat(first, rest);
        lemma_utf8_len_is_encoded_len(rest);
        assert(first.drop_last() =~= Seq::<char>::empty());
        assert(utf8_len(first) == char_width(s[0])) by {
            reveal_with_fuel(utf8_len, 2);
        }
        char_is_scalar(s[0]);
        assert(encode_scalar(s[0] as u32).len() == char_width(s[0]));
    }
}

/// Byte offsets grow with char indices, by at least one byte per char.
pub proof fn lemma_byte_offset_monotone(s: Seq<char>, c1: int, c2: int)
    requires
        0 <= c1 <= c2 <= s.len(),
    ensures
        byte_offset(s, c1) + (c2 - c1) <= byte_offset(s, c2),
        byte_offset(s, 0) == 0,
        byte_offset(s, s.len() as int) == utf8_len(s),
{
    assert(s.take(c2) =~= s.take(c1) + s.subrange(c1, c2));
    lemma_utf8_len_concat(s.take(c1), s.subrange(c1, c2));
    lemma_utf8_len_bounds(s.subrange(c1, c2));
    assert(s.take(0) =~= Seq::<char>::empty());
    assert(s.take(s.len() as int) =~= s);
}

/// `char_at_byte` returns the one char whose bytes hold offset `b`, and the
/// length of the text from its byte length on.
pub proof fn lemma_char_at_byte(s: Seq<char>, b: int)
    requires
        0 <= b,
    ensures
        0 <= char_at_byte(s, b) <= s.len(),
        byte_offset(s, char_at_byte(s, b)) <= b,
        char_at_byte(s, b) < s.len() ==> b < byte_offset(s, char_at_byte(s, b) + 1),
        utf8_len(s) <= b <==> char_at_byte(s, b) == s.len(),
    decreases s.len(),
{
    lemma_byte_offset_monotone(s, 0, s.len() as int);
    if s.len() == 0 {
    } else if utf8_len(s) <= b {
    } else {
        let p = s.drop_last();
        lemma_char_at_byte(p, b);
        let c = char_at_byte(p, b);
        assert(p.take(c) =~= s.take(c));
        if c < p.len() {
            assert(p.take(c + 1) =~= s.take(c + 1));
        } else {
            assert(s.take(c + 1) =~= s);
        }
    }
}

/// Any char index whose bytes hold offset `b` is `char_at_byte(s, b)`.
pub proof fn lemma_char_at_byte_unique(s: Seq<char>, b: int, c: int)
    requires
        0 <= c <= s.len(),
        byte_offset(s, c) <= b,
        c < s.len() ==> b < byte_offset(s, c + 1),
    ensures
        char_at_byte(s, b) == c,
{
    lemma_byte_offset_monotone(s, 0, c);
    lemma_char_at_byte(s, b);
    let d = char_at_byte(s, b);
    if d < c {
        lemma_byte_offset_monotone(s, d + 1, c);
    } else if c < d {
        lemma_byte_offset_monotone(s, c + 1, d);
    }
}

/// The char at the byte offset of a char index is that index.
pub proof fn lemma_char_at_byte_of_offset(s: Seq<char>, c: int)
    requires
        0 <= c <= s.len(),
    ensures
        char_at_byte(s, byte_offset(s, c)) == c,
{
    if c < s.len() {
        lemma_byte_offset_monotone(s, c, c + 1);
    }
    lemma_char_at_byte_unique(s, byte_offset(s, c), c);
}

/// Line indices are not negative and grow with char indices.
pub proof fn lemma_breaks_before_monotone(s: Seq<char>, a: int, b: int)
    requires
        a <= b,
    ensures
        0 <= breaks_before(s, a) <= breaks_before(s, b),
    decreases b - a,
{
    if a < b {
        lemma_breaks_before_monotone(s, a, b - 1);
    } else {
        lemma_breaks_before_nonnegative(s, a);
    }
}

/// Line indices are not negative.
pub proof fn lemma_breaks_before_nonnegative(s: Seq<char>, n: int)
    ensures
        0 <= breaks_before(s, n),
    decreases n,
{
    if n > 0 {
        lemma_breaks_before_nonnegative(s, n - 1);
    }
}

/// Two texts whose lines end at the same places before char index `n` give
/// every char index up to `n` the same line index.
pub proof fn lemma_breaks_before_agree(s: Seq<char>, t: Seq<char>, n: int, m: int)
    requires
        m <= n,
        forall|j: int| 0 <= j < n ==> ends_line(s, j) == ends_line(t, j),
    ensures
        breaks_before(s, m) == breaks_before(t, m),
    decreases m,
{
    if m > 0 {
        lemma_breaks_before_agree(s, t, n, m - 1);
    }
}

/// What scanning for a line start finds: the char index right after the
/// `l`-th line break from `from` on, or the end of the text when fewer than
/// `l` breaks are left.
pub proof fn lemma_line_start_from(s: Seq<char>, l: int, from: int)
    requires
        0 <= l,
        0 <= from <= s.len(),
    ensures
        from <= line_start_from(s, l, from) <= s.len(),
        breaks_before(s, from) + l <= breaks_before(s, s.len() as int) ==> {
            &&& breaks_before(s, line_start_from(s, l, from)) == breaks_before(s, from) + l
            &&& l > 0 ==> ends_line(s, line_start_from(s, l, from) - 1)
        },
        breaks_before(s, from) + l > breaks_before(s, s.len() as int) ==> line_start_from(
            s,
            l,
            from,
        ) == s.len(),
    decreases s.len() - from,
{
    lemma_breaks_before_monotone(s, from, s.len() as int);
    if l <= 0 {
    } else if from >= s.len() {
    } else if ends_line(s, from) {
        lemma_line_start_from(s, l - 1, from + 1);
    } else {
        lemma_line_start_from(s, l, from + 1);
    }
}

/// Line 0 starts at char 0, every other line of the text right after the
/// break that ends the line before it, and the line one past the last at the
/// end of the text.
pub proof fn lemma_line_start(s: Seq<char>, l: int)
    requires
        0 <= l,
    ensures
        0 <= line_start(s, l) <= s.len(),
        l < line_count(s) ==> breaks_before(s, line_start(s, l)) == l,
        0 < l < line_count(s) ==> ends_line(s, line_start(s, l) - 1),
        l == 0 ==> line_start(s, l) == 0,
        l >= line_count(s) ==> line_start(s, l) == s.len(),
{
    lemma_line_start_from(s, l, 0);
}

/// A char index with `l` line breaks before it, the last of which ends right
/// at it, is where line `l` starts.
pub proof fn lemma_line_start_unique(s: Seq<char>, l: int, r: int)
    requires
        0 <= r <= s.len(),
        breaks_before(s, r) == l,
        l == 0 ==> r == 0,
        l > 0 ==> ends_line(s, r - 1),
    ensures
        line_start(s, l) == r,
{
    lemma_breaks_before_monotone(s, r, s.len() as int);
    lemma_line_start(s, l);
    let found = line_start(s, l);
    if found < r {
        lemma_breaks_before_monotone(s, found, r - 1);
    } else if r < found {
        lemma_breaks_before_monotone(s, r, found - 1);
    }
}

/// A char is never before the start of the line it is on.
pub proof fn lemma_line_start_of_char(s: Seq<char>, c: int)
    requires
        0 <= c <= s.len(),
    ensures
        0 <= breaks_before(s, c) < line_count(s),
        line_start(s, breaks_before(s, c)) <= c,
{
    let l = breaks_before(s, c);
    lemma_breaks_before_monotone(s, c, s.len() as int);
    lemma_line_start(s, l);
    let r = line_start(s, l);
    if r > c {
        lemma_breaks_before_monotone(s, c, r - 1);
    }
}

/// A byte is never before the start of the line it is on.
pub proof fn lemma_line_start_of_byte(s: Seq<char>, b: int)
    requires
        0 <= b,
    ensures
        0 <= line_of_byte(s, b) < line_count(s),
        0 <= line_start_byte(s, line_of_byte(s, b)) <= b,
{
    lemma_char_at_byte(s, b);
    let c = char_at_byte(s, b);
    lemma_line_start_of_char(s, c);
    lemma_line_start(s, breaks_before(s, c));
    lemma_byte_offset_monotone(s, line_start(s, breaks_before(s, c)), c);
    lemma_byte_offset_monotone(s, 0, line_start(s, breaks_before(s, c)));
}

/// Length of a spliced text, and the byte offset at which the inserted part
/// ends in it.
pub proof fn lemma_splice(s: Seq<char>, start: int, end: int, t: Seq<char>)
    requires
        0 <= start <= end <= s.len(),
    ensures
        splice(s, start, end, t).len() == s.len() - (end - start) + t.len(),
        byte_offset(splice(s, start, end, t), start) == byte_offset(s, start),
        byte_offset(splice(s, start, end, t), start + t.len()) == byte_offset(s, start)
            + utf8_len(t),
        utf8_len(splice(s, start, end, t)) == utf8_len(s) - (byte_offset(s, end) - byte_offset(
            s,
            start,
        )) + utf8_len(t),
{
    let r = splice(s, start, end, t);
    assert(r.take(start) =~= s.take(start));
    assert(r.take(start + t.len()) =~= s.take(start) + t);
    lemma_utf8_len_concat(s.take(start), t);
    lemma_utf8_len_concat(s.take(start) + t, s.skip(end));
    assert(s =~= s.take(end) + s.skip(end));
    lemma_utf8_len_concat(s.take(end), s.skip(end));
}

} // verus!
