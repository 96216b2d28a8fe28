use lazynotes::buffer::{split_lines_preserve, Edit, LineBuffer};

fn texts(b: &LineBuffer) -> Vec<String> {
    b.lines()
}

#[test]
fn split_keeps_empty_lines() {
    assert_eq!(split_lines_preserve("a\n\nb"), vec!["a", "", "b"]);
    assert_eq!(split_lines_preserve("a\n"), vec!["a"]);
    assert_eq!(split_lines_preserve("a\n\n"), vec!["a", ""]);
    assert_eq!(split_lines_preserve(""), vec![""]);
    assert_eq!(split_lines_preserve("\n"), vec![""]);
}

#[test]
fn round_trip_without_trailing_newline() {
    for s in ["", "one", "one\ntwo", "a\n\nb", "\nlead", "x\n\n\ny"] {
        assert_eq!(LineBuffer::from_text(s).to_text(), s);
    }
}

#[test]
fn round_trip_strips_one_trailing_newline() {
    assert_eq!(LineBuffer::from_text("one\ntwo\n").to_text(), "one\ntwo");
    assert_eq!(LineBuffer::from_text("one\n\n").to_text(), "one\n");
    assert_eq!(LineBuffer::from_text("\n").to_text(), "");
}

#[test]
fn empty_text_is_one_empty_line() {
    let b = LineBuffer::from_text("");
    assert_eq!(b.line_count(), 1);
    assert_eq!(texts(&b), vec![""]);
    assert_eq!((b.row(), b.col()), (0, 0));
    assert!(!b.is_dirty());
    let n = LineBuffer::new();
    assert_eq!(texts(&n), vec![""]);
}

#[test]
fn cursor_stays_valid_over_many_edits() {
    let mut b = LineBuffer::from_text("ab\ncdef\n\ng");
    let edits = [
        Edit::Down, Edit::End, Edit::Right, Edit::Right, Edit::Up, Edit::End, Edit::Down,
        Edit::Down, Edit::Down, Edit::Down, Edit::Left, Edit::Left, Edit::Backspace,
        Edit::Backspace, Edit::Newline, Edit::Insert('é'), Edit::Delete, Edit::Delete,
        Edit::Home, Edit::Up, Edit::Up, Edit::Up, Edit::Up, Edit::Left, Edit::Backspace,
        Edit::Delete, Edit::End, Edit::Delete, Edit::Delete, Edit::Delete, Edit::Delete,
    ];
    for e in edits {
        b.apply(e);
        let lines = texts(&b);
        assert!(b.row() < lines.len());
        assert!(b.col() <= lines[b.row()].chars().count());
    }
}

#[test]
fn moves_clamp_and_wrap() {
    let mut b = LineBuffer::from_text("abc\nx");
    b.move_left();
    assert_eq!((b.row(), b.col()), (0, 0));
    b.move_end();
    assert_eq!(b.col(), 3);
    b.move_right();
    assert_eq!((b.row(), b.col()), (1, 0));
    b.move_left();
    assert_eq!((b.row(), b.col()), (0, 3));
    b.move_down();
    assert_eq!((b.row(), b.col()), (1, 1));
    b.move_down();
    assert_eq!((b.row(), b.col()), (1, 1));
    b.move_right();
    assert_eq!((b.row(), b.col()), (1, 1));
    b.move_up();
    assert_eq!((b.row(), b.col()), (0, 1));
    b.move_home();
    assert_eq!(b.col(), 0);
}

#[test]
fn insert_counts_characters_not_bytes() {
    let mut b = LineBuffer::from_text("añb");
    b.move_right();
    b.move_right();
    b.insert_char('ü');
    assert_eq!(b.to_text(), "añüb");
    assert_eq!(b.col(), 3);
    assert!(b.is_dirty());
}

#[test]
fn backspace_at_line_start_joins_lines() {
    let mut b = LineBuffer::from_text("abc\ndef\nghi");
    b.move_down();
    b.backspace();
    assert_eq!(b.line_count(), 2);
    assert_eq!((b.row(), b.col()), (0, 3));
    assert_eq!(b.to_text(), "abcdef\nghi");
}

#[test]
fn delete_at_line_end_joins_lines() {
    let mut b = LineBuffer::from_text("abc\ndef\nghi");
    b.move_end();
    b.delete_forward();
    assert_eq!(b.line_count(), 2);
    assert_eq!((b.row(), b.col()), (0, 3));
    assert_eq!(b.to_text(), "abcdef\nghi");
}

#[test]
fn boundary_edits_are_no_ops_that_mark_dirty() {
    let mut b = LineBuffer::from_text("ab");
    b.backspace();
    assert_eq!(b.to_text(), "ab");
    assert!(b.is_dirty());
    let mut c = LineBuffer::from_text("ab");
    c.move_end();
    c.delete_forward();
    assert_eq!(c.to_text(), "ab");
    assert_eq!(c.col(), 2);
}

#[test]
fn split_then_backspace_restores() {
    let mut b = LineBuffer::from_text("first\nsecond line");
    b.move_down();
    for _ in 0..3 {
        b.move_right();
    }
    b.split_line();
    assert_eq!(texts(&b), vec!["first", "sec", "ond line"]);
    assert_eq!((b.row(), b.col()), (2, 0));
    b.backspace();
    assert_eq!(texts(&b), vec!["first", "second line"]);
    assert_eq!((b.row(), b.col()), (1, 3));
}

#[test]
fn mark_clean_keeps_text() {
    let mut b = LineBuffer::from_text("x");
    b.insert_char('y');
    b.mark_clean();
    assert!(!b.is_dirty());
    assert_eq!(b.to_text(), "yx");
}
