use document_sync::coords::{byte_offset_to_point, Point};
use document_sync::edit::apply_edit;
use document_sync::coords::{Position, Range};
use ropey::Rope;

fn is_break_char(c: char) -> bool {
    matches!(c, '\u{0A}' | '\u{0B}' | '\u{0C}' | '\u{0D}' | '\u{85}' | '\u{2028}' | '\u{2029}')
}

// The point of a byte offset, worked out char by char: a line ends after each
// break char, but a CR directly followed by LF does not end it.
fn reference_point(text: &str, byte: usize) -> Point {
    let chars: Vec<(usize, char)> = text.char_indices().collect();
    let mut row = 0;
    let mut line_start = 0;
    for (i, &(offset, c)) in chars.iter().enumerate() {
        if offset + c.len_utf8() > byte {
            break;
        }
        let pair = c == '\u{0D}' && i + 1 < chars.len() && chars[i + 1].1 == '\u{0A}';
        if is_break_char(c) && !pair {
            row += 1;
            line_start = offset + c.len_utf8();
        }
    }
    Point { row, column: byte - line_start }
}

fn check_every_byte(text: &str) {
    let rope = Rope::from_str(text);
    for byte in 0..=text.len() {
        assert_eq!(byte_offset_to_point(&rope, byte), reference_point(text, byte), "byte {byte}");
    }
}

#[test]
fn points_follow_every_kind_of_line_break() {
    check_every_byte("");
    check_every_byte("a");
    check_every_byte("\n");
    check_every_byte("a\nb\u{0B}c\u{0C}d\re\r\nf\u{85}g\u{2028}h\u{2029}i");
    check_every_byte("\r\r\n\n\r");
    check_every_byte("\u{e9}\r\n\u{65e5}\u{672c}\u{2028}\u{1f600}\n");
}

#[test]
fn points_in_a_long_text() {
    let mut text = String::new();
    for i in 0..600 {
        text.push_str("let \u{e9}\u{65e5} = ");
        text.push_str(&i.to_string());
        text.push_str(if i % 3 == 0 { ";\r\n" } else if i % 3 == 1 { ";\n" } else { ";\r" });
    }
    check_every_byte(&text);
}

#[test]
fn points_after_edits_in_a_long_text() {
    let mut text = String::new();
    for i in 0..400 {
        text.push_str("line ");
        text.push_str(&i.to_string());
        text.push_str("\r\n");
    }
    let mut rope = Rope::from_str(&text);
    let at = |line: usize, character: usize| Position { line, character };
    // Take the LF of one CRLF away: the CR that is left still ends the line,
    // so the byte that followed the pair is now where the LF was.
    let first = apply_edit(&mut rope, Range { start: at(10, 8), end: at(11, 0) }, "");
    assert_eq!(first.start_position, Point { row: 10, column: 8 });
    assert_eq!(first.new_end_position, Point { row: 11, column: 0 });
    assert_eq!(first.new_end_byte, first.start_byte);
    // Put it back: the insertion starts at a line start and ends at one.
    let second = apply_edit(&mut rope, Range { start: at(11, 0), end: at(11, 0) }, "\n");
    assert_eq!(second.start_byte, first.start_byte);
    assert_eq!(second.new_end_position, Point { row: 11, column: 0 });
    assert_eq!(String::from(&rope), text);
    let third = apply_edit(&mut rope, Range { start: at(200, 0), end: at(200, 0) }, "x\r");
    assert_eq!(third.new_end_position, Point { row: 201, column: 0 });
    let now = String::from(&rope);
    for byte in 0..=now.len() {
        assert_eq!(byte_offset_to_point(&rope, byte), reference_point(&now, byte));
    }
}
