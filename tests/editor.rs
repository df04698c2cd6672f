use mini_editor::text::split_lines;
use mini_editor::EditorState;
use std::path::PathBuf;

fn rows(s: &EditorState) -> Vec<String> {
    s.get_rows().iter().map(|r| r.iter().collect::<String>()).collect()
}

fn cursor(s: &EditorState) -> (u16, u16) {
    (s.get_x(), s.get_y())
}

fn loaded(text: &str) -> EditorState {
    let mut s = EditorState::new();
    s.update_dimensions(80, 24);
    s.add_file_contents(text.to_string());
    s
}

#[test]
fn new_is_empty() {
    let s = EditorState::new();
    assert!(rows(&s).is_empty());
    assert_eq!(cursor(&s), (0, 0));
    assert!(!s.has_content());
    assert!(s.get_editing().is_none());
}

#[test]
fn insert_into_empty_buffer() {
    let mut s = EditorState::new();
    s.insert_at_cursor('a');
    assert_eq!(rows(&s), vec!["a"]);
    assert_eq!(cursor(&s), (1, 0));
    assert!(s.has_content());
}

#[test]
fn insert_in_middle_of_line() {
    let mut s = loaded("ac");
    s.move_right();
    s.insert_at_cursor('b');
    assert_eq!(rows(&s), vec!["abc"]);
    assert_eq!(cursor(&s), (2, 0));
}

#[test]
fn split_line_in_middle() {
    let mut s = loaded("ab");
    s.move_right();
    assert_eq!(cursor(&s), (1, 0));
    s.move_to_next_line();
    assert_eq!(rows(&s), vec!["a", "b"]);
    assert_eq!(cursor(&s), (1, 1));
}

#[test]
fn split_line_at_start_and_end() {
    let mut s = loaded("xy");
    s.move_to_next_line();
    assert_eq!(rows(&s), vec!["", "xy"]);
    assert_eq!(cursor(&s), (2, 1));
    s.move_to_next_line();
    assert_eq!(rows(&s), vec!["", "xy", ""]);
    assert_eq!(cursor(&s), (0, 2));
}

#[test]
fn split_empty_buffer() {
    let mut s = EditorState::new();
    s.move_to_next_line();
    assert_eq!(rows(&s), vec!["", ""]);
    assert_eq!(cursor(&s), (0, 1));
}

#[test]
fn split_keeps_all_characters() {
    let mut s = loaded("hello world");
    for _ in 0..5 {
        s.move_right();
    }
    s.move_to_next_line();
    let r = rows(&s);
    assert_eq!(r, vec!["hello", " world"]);
    assert_eq!(r[0].len() + r[1].len(), "hello world".len());
}

#[test]
fn delete_at_end_of_line() {
    let mut s = loaded("abc");
    s.move_right();
    s.move_right();
    s.move_right();
    assert_eq!(cursor(&s), (3, 0));
    s.remove_at_cursor();
    assert_eq!(rows(&s), vec!["ab"]);
    assert_eq!(cursor(&s), (2, 0));
}

#[test]
fn delete_in_middle_removes_left_character() {
    let mut s = loaded("abc");
    s.move_right();
    s.move_right();
    s.remove_at_cursor();
    assert_eq!(rows(&s), vec!["ac"]);
    assert_eq!(cursor(&s), (1, 0));
}

#[test]
fn delete_at_line_start_is_noop() {
    let mut s = loaded("ab\ncd");
    s.move_down();
    s.move_left();
    s.move_left();
    assert_eq!(cursor(&s), (0, 1));
    s.remove_at_cursor();
    assert_eq!(rows(&s), vec!["ab", "cd"]);
    assert_eq!(cursor(&s), (0, 1));
}

#[test]
fn delete_on_empty_buffer_is_noop() {
    let mut s = EditorState::new();
    s.remove_at_cursor();
    assert!(rows(&s).is_empty());
    assert_eq!(cursor(&s), (0, 0));
}

#[test]
fn insert_then_delete_restores() {
    let mut s = loaded("hello");
    s.move_right();
    s.move_right();
    s.insert_at_cursor('z');
    assert_eq!(rows(&s), vec!["hezllo"]);
    s.remove_at_cursor();
    assert_eq!(rows(&s), vec!["hello"]);
    assert_eq!(cursor(&s), (2, 0));
}

#[test]
fn load_two_lines() {
    let s = loaded("line1\nline2");
    assert_eq!(rows(&s), vec!["line1", "line2"]);
    assert_eq!(cursor(&s), (0, 0));
}

#[test]
fn load_line_endings() {
    assert_eq!(rows(&loaded("a\r\nb\n")), vec!["a", "b"]);
    assert_eq!(rows(&loaded("a\n\nb")), vec!["a", "", "b"]);
    assert_eq!(rows(&loaded("\n")), vec![""]);
    assert_eq!(rows(&loaded("a\r")), vec!["a\r"]);
    assert!(rows(&loaded("")).is_empty());
}

#[test]
fn split_lines_matches_str_lines() {
    for text in ["", "x", "x\n", "x\r\ny", "\n\n", "a\rb\n", "é\nü"] {
        let expected: Vec<Vec<char>> = text.lines().map(|l| l.chars().collect()).collect();
        assert_eq!(split_lines(text), expected);
    }
}

#[test]
fn to_text_joins_with_newlines() {
    let mut s = loaded("one\ntwo\nthree\n");
    assert_eq!(s.to_text().iter().collect::<String>(), "one\ntwo\nthree");
    s.move_to_next_line();
    assert_eq!(s.to_text().iter().collect::<String>(), "\none\ntwo\nthree");
    assert!(EditorState::new().to_text().is_empty());
}

#[test]
fn move_up_on_first_row_is_noop() {
    let mut s = loaded("x");
    s.move_up();
    assert_eq!(cursor(&s), (0, 0));
    assert_eq!(rows(&s), vec!["x"]);
}

#[test]
fn move_up_and_down_snap_to_line_end() {
    let mut s = loaded("abcd\nx\nyz");
    s.move_down();
    assert_eq!(cursor(&s), (1, 1));
    s.move_down();
    assert_eq!(cursor(&s), (2, 2));
    s.move_down();
    assert_eq!(cursor(&s), (2, 2));
    s.move_up();
    s.move_up();
    assert_eq!(cursor(&s), (4, 0));
}

#[test]
fn move_down_stops_at_viewport_bottom() {
    let mut s = loaded("a\nb\nc\nd");
    s.update_dimensions(10, 2);
    s.move_down();
    s.move_down();
    s.move_down();
    assert_eq!(cursor(&s), (1, 1));
    s.update_dimensions(10, 0);
    s.move_up();
    s.move_down();
    assert_eq!(cursor(&s), (1, 0));
}

#[test]
fn move_down_on_empty_buffer_is_noop() {
    let mut s = EditorState::new();
    s.update_dimensions(80, 24);
    s.move_down();
    s.move_up();
    assert_eq!(cursor(&s), (0, 0));
}

#[test]
fn left_and_right_stay_on_line() {
    let mut s = loaded("ab\ncdef");
    s.move_left();
    assert_eq!(cursor(&s), (0, 0));
    for _ in 0..5 {
        s.move_right();
    }
    assert_eq!(cursor(&s), (2, 0));
    s.move_left();
    assert_eq!(cursor(&s), (1, 0));
    let mut e = EditorState::new();
    e.move_right();
    e.move_left();
    assert_eq!(cursor(&e), (0, 0));
}

#[test]
fn vertical_moves_stay_in_range() {
    let mut s = loaded("a\nb\nc\nd\ne");
    s.update_dimensions(10, 3);
    for i in 0..20 {
        if i % 3 == 0 {
            s.move_up();
        } else {
            s.move_down();
        }
        assert!(s.get_y() <= 2);
    }
}

#[test]
fn first_editing_path_wins() {
    let mut s = EditorState::new();
    s.update_editing(PathBuf::from("first.txt"));
    s.update_editing(PathBuf::from("second.txt"));
    assert_eq!(s.get_editing().as_ref(), Some(&PathBuf::from("first.txt")));
}
