use divitext::buffer::lines_from_text;
use divitext::buffer::Buffer;

fn buf_chars(s: &str) -> Vec<char> {
    s.chars().collect()
}

fn buf_lines(strs: &[&str]) -> Vec<Vec<char>> {
    strs.iter().map(|s| s.chars().collect()).collect()
}

#[test]
fn test_buffer_default() {
    let buffer = Buffer::default();
    assert!(buffer.filename.is_none());
    assert!(buffer.path.is_none());
    assert_eq!(buffer.lines, vec![Vec::<char>::new()]);
    assert_eq!(buffer.cursor(), (0, 0));
}

#[test]
fn test_buffer_new() {
    let input = buf_lines(&["Hello, world!"]);
    let buffer = Buffer::new(input.clone(), Some("test.txt".to_string()));
    assert_eq!(buffer.path, Some("test.txt".to_string()));
    assert_eq!(buffer.lines, input);
    assert!(buffer.filename.is_none());
}

#[test]
fn test_new_empty_input_gives_one_empty_line() {
    let buffer = Buffer::new(Vec::new(), None);
    assert_eq!(buffer.line_count(), 1);
    assert_eq!(buffer.last_column_of(0), 0);
}

#[test]
fn test_line_count_and_last_column() {
    let b = Buffer::new(buf_lines(&["abc", "de", ""]), None);
    assert_eq!(b.line_count(), 3);
    assert_eq!(b.last_column_of(0), 3);
    assert_eq!(b.last_column_of(1), 2);
    assert_eq!(b.last_column_of(2), 0);
    assert_eq!(b.content_length(), 7);
}

#[test]
fn test_offset_of_and_line_col_of_inverse() {
    let b = Buffer::new(buf_lines(&["abc", "de"]), None);
    // every valid place round-trips through its flat offset
    for line in 0..b.line_count() {
        for col in 0..=b.last_column_of(line) {
            let off = b.offset_of(line, col).unwrap();
            assert_eq!(b.line_col_of(off), (line, col));
        }
    }
    // a column past the line end clamps to the line length
    let off = b.offset_of(0, 99).unwrap();
    assert_eq!(off, 3);
    assert_eq!(b.line_col_of(off), (0, 3));
    // a line past the end yields nothing
    assert!(b.offset_of(2, 0).is_none());
    // the exact offsets: line 1 starts after "abc\n"
    assert_eq!(b.offset_of(1, 0).unwrap(), 4);
    assert_eq!(b.offset_of(1, 2).unwrap(), 6);
}

#[test]
fn test_move_point_to_clamps() {
    let mut b = Buffer::new(buf_lines(&["abc", "de"]), None);
    b.move_point_to(1, 99);
    assert_eq!(b.cursor(), (1, 2));
    // a line out of range leaves the cursor alone
    b.move_point_to(7, 0);
    assert_eq!(b.cursor(), (1, 2));
    b.move_point_to(0, 1);
    assert_eq!(b.cursor(), (0, 1));
    assert_eq!(b.point(), 1);
}

#[test]
fn test_left_then_right_round_trip() {
    let mut b = Buffer::new(buf_lines(&["abc", "de"]), None);
    // interior of a line
    b.move_point_to(0, 2);
    let p0 = b.point();
    b.move_left();
    b.move_right();
    assert_eq!(b.point(), p0);
    // across the line boundary: left from column 0 wraps to the end of
    // the previous line, and right wraps back
    b.move_point_to(1, 0);
    let p1 = b.point();
    b.move_left();
    assert_eq!(b.cursor(), (0, 3));
    b.move_right();
    assert_eq!(b.cursor(), (1, 0));
    assert_eq!(b.point(), p1);
    // right-then-left is stable too
    b.move_point_to(0, 3);
    let p2 = b.point();
    b.move_right();
    b.move_left();
    assert_eq!(b.point(), p2);
    // at the buffer edges movement is a no-op
    b.move_point_to(0, 0);
    b.move_left();
    assert_eq!(b.cursor(), (0, 0));
    b.move_point_to(1, 2);
    b.move_right();
    assert_eq!(b.cursor(), (1, 2));
}

#[test]
fn test_down_then_up_clamps_column() {
    let mut b = Buffer::new(buf_lines(&["abcdef", "de", "xyzw"]), None);
    b.move_point_to(0, 5);
    b.move_down();
    // the shorter line clamps the column to its length
    assert_eq!(b.cursor(), (1, 2));
    b.move_up();
    // back on the original line, at a column no greater than the original
    assert_eq!(b.cursor(), (0, 2));
    // at the first and last lines up/down do nothing
    b.move_up();
    assert_eq!(b.cursor(), (0, 2));
    b.move_point_to(2, 1);
    b.move_down();
    assert_eq!(b.cursor(), (2, 1));
}

#[test]
fn test_down_then_rights_scenario() {
    // lines ["abc", "de"], cursor at offset 0: Down, then Right three
    // times, lands at the end of "de" (column 2), not column 3
    let mut b = Buffer::new(buf_lines(&["abc", "de"]), None);
    assert_eq!(b.point(), 0);
    b.move_down();
    b.move_right();
    b.move_right();
    b.move_right();
    assert_eq!(b.cursor(), (1, 2));
    assert_eq!(b.point(), b.content_length());
}

#[test]
fn test_insert_char_advances_point() {
    let mut b = Buffer::new(buf_lines(&["ac"]), None);
    b.move_point_to(0, 1);
    b.insert_char('b');
    assert_eq!(b.lines, buf_lines(&["abc"]));
    assert_eq!(b.cursor(), (0, 2));
    assert_eq!(b.point(), 2);
}

#[test]
fn test_insert_newline_splits_line() {
    let mut b = Buffer::new(buf_lines(&["abcd"]), None);
    b.move_point_to(0, 2);
    let p = b.point();
    b.insert_char('\n');
    assert_eq!(b.lines, buf_lines(&["ab", "cd"]));
    assert_eq!(b.cursor(), (1, 0));
    assert_eq!(b.point(), p + 1);
}

#[test]
fn test_delete_char_before_point() {
    let mut b = Buffer::new(buf_lines(&["abc"]), None);
    b.move_point_to(0, 2);
    b.delete_char_before_point();
    assert_eq!(b.lines, buf_lines(&["ac"]));
    assert_eq!(b.cursor(), (0, 1));
}

#[test]
fn test_delete_at_line_start_joins_lines() {
    let mut b = Buffer::new(buf_lines(&["ab", "cd"]), None);
    b.move_point_to(1, 0);
    b.delete_char_before_point();
    assert_eq!(b.lines, buf_lines(&["abcd"]));
    assert_eq!(b.cursor(), (0, 2));
}

#[test]
fn test_delete_at_buffer_start_is_noop() {
    let mut b = Buffer::new(buf_lines(&["ab"]), None);
    b.delete_char_before_point();
    assert_eq!(b.lines, buf_lines(&["ab"]));
    assert_eq!(b.cursor(), (0, 0));
}

#[test]
fn test_slice_lines_window() {
    let b = Buffer::new(buf_lines(&["a", "bb", "ccc", "d"]), None);
    assert_eq!(b.slice_lines(1, 3), buf_chars("bb\nccc"));
    assert_eq!(b.slice_lines(0, 99), buf_chars("a\nbb\nccc\nd"));
    assert_eq!(b.slice_lines(4, 9), Vec::<char>::new());
    assert_eq!(b.slice_lines(2, 2), Vec::<char>::new());
}

#[test]
fn test_save_text_joins_with_newlines() {
    let b = Buffer::new(buf_lines(&["ab", "c"]), None);
    assert_eq!(b.save_text(), buf_chars("ab\nc"));
    let empty = Buffer::default();
    assert_eq!(empty.save_text(), Vec::<char>::new());
}

#[test]
fn test_lines_from_text_reader_shape() {
    assert_eq!(lines_from_text(&buf_chars("ab\nc")), buf_lines(&["ab", "c"]));
    // a trailing newline does not open an empty last line
    assert_eq!(lines_from_text(&buf_chars("a\n")), buf_lines(&["a"]));
    // empty text loads as a single empty line
    assert_eq!(lines_from_text(&buf_chars("")), buf_lines(&[""]));
    assert_eq!(lines_from_text(&buf_chars("\n")), buf_lines(&[""]));
    assert_eq!(lines_from_text(&buf_chars("a\n\nb")), buf_lines(&["a", "", "b"]));
}

#[test]
fn test_save_then_load_round_trip() {
    // saving writes the joined lines; loading that text yields the same
    // lines again (the last line not empty, so no trailing-newline
    // ambiguity)
    let original = buf_lines(&["fn main() {", "    body", "}"]);
    let b = Buffer::new(original.clone(), Some("x.rs".to_string()));
    let written = b.save_text();
    let reloaded = lines_from_text(&written);
    assert_eq!(reloaded, original);
    // the single-empty-line document round-trips as well
    let empty = Buffer::default();
    assert_eq!(lines_from_text(&empty.save_text()), vec![Vec::<char>::new()]);
}
