use hecto::Document;
use hecto::Editor;
use hecto::Key;
use hecto::Size;
use hecto::screen::help_message;
use hecto::screen::open_error_message;

fn chars_of(s: &str) -> Vec<char> {
    s.chars().collect()
}

fn string_of(v: &[char]) -> String {
    v.iter().collect()
}

fn doc_rows(d: &Document) -> Vec<String> {
    let mut out = Vec::new();
    let mut y: usize = 0;
    while let Some(row) = d.row(y) {
        out.push(string_of(row.chars()));
        y += 1;
    }
    out
}

fn fresh_editor(text: &str, name: Option<&str>) -> Editor {
    let doc = Document::from_text(&chars_of(text), name.map(chars_of));
    Editor::new(doc, help_message(), 0)
}

const SIZE: Size = Size { width: 80, height: 24 };

#[test]
fn welcome_banner_frame() {
    let e = Editor::new(Document::default(), help_message(), 0);
    let banner = chars_of("Hecto editor");
    for r in 0..24 {
        let line = string_of(&e.screen_row(r, &SIZE, &banner));
        if r == 8 {
            // (80 - 12) / 2 = 34 cells of centering, one taken by the tilde
            let expected = format!("~{}Hecto editor", " ".repeat(33));
            assert_eq!(line, expected);
        } else {
            assert_eq!(line, "~");
        }
    }
    let p = e.cursor_screen_position();
    assert_eq!((p.x, p.y), (0, 0));
}

#[test]
fn welcome_banner_truncated_to_width() {
    let e = Editor::new(Document::default(), help_message(), 0);
    let banner = chars_of("Hecto editor");
    let small = Size { width: 5, height: 24 };
    let line = string_of(&e.screen_row(8, &small, &banner));
    assert_eq!(line, "~Hect");
}

#[test]
fn type_and_wrap_to_next_line() {
    let mut e = Editor::new(Document::default(), help_message(), 0);
    for key in [
        Key::Char('a'),
        Key::Char('b'),
        Key::Char('c'),
        Key::Char('\n'),
        Key::Char('d'),
        Key::Char('e'),
    ] {
        e.process_keypress(key, &SIZE);
    }
    assert_eq!(doc_rows(e.document()), vec!["abc".to_string(), "de".to_string()]);
    let p = e.cursor_position();
    assert_eq!((p.x, p.y), (2, 1));
}

#[test]
fn join_lines_with_backspace() {
    let mut e = fresh_editor("hello\nworld\n", Some("two.txt"));
    e.process_keypress(Key::Down, &SIZE);
    let p = e.cursor_position();
    assert_eq!((p.x, p.y), (0, 1));
    e.process_keypress(Key::Backspace, &SIZE);
    assert_eq!(doc_rows(e.document()), vec!["helloworld".to_string()]);
    let p = e.cursor_position();
    assert_eq!((p.x, p.y), (5, 0));
}

#[test]
fn right_arrow_wraps_at_line_end() {
    let mut e = fresh_editor("ab\ncd\n", None);
    e.process_keypress(Key::Right, &SIZE);
    e.process_keypress(Key::Right, &SIZE);
    let p = e.cursor_position();
    assert_eq!((p.x, p.y), (2, 0));
    e.process_keypress(Key::Right, &SIZE);
    let p = e.cursor_position();
    assert_eq!((p.x, p.y), (0, 1));
}

#[test]
fn left_arrow_wraps_to_previous_line_end() {
    let mut e = fresh_editor("ab\ncd\n", None);
    e.process_keypress(Key::Down, &SIZE);
    e.process_keypress(Key::Left, &SIZE);
    let p = e.cursor_position();
    assert_eq!((p.x, p.y), (2, 0));
}

#[test]
fn horizontal_scroll_follows_end_key() {
    let size = Size { width: 10, height: 5 };
    let text: String = "x".repeat(30);
    let mut e = fresh_editor(&text, None);
    e.process_keypress(Key::End, &size);
    let p = e.cursor_position();
    assert_eq!(p.x, 30);
    let o = e.offset();
    assert_eq!(o.x, 21);
    let line = string_of(&e.screen_row(0, &size, &chars_of("")));
    assert_eq!(line, "x".repeat(9));
}

#[test]
fn message_bar_shows_error_then_expires() {
    let name = chars_of("missing.txt");
    let e = Editor::new(Document::default(), open_error_message(&name), 0);
    let shown = string_of(&e.message_bar(80, 0));
    assert_eq!(shown, "ERR: Could not open file: missing.txt");
    let still = string_of(&e.message_bar(80, 4));
    assert_eq!(still, "ERR: Could not open file: missing.txt");
    let blank = string_of(&e.message_bar(80, 6));
    assert_eq!(blank, "");
}

#[test]
fn message_bar_truncates_to_width() {
    let e = Editor::new(Document::default(), chars_of("a long status message"), 0);
    assert_eq!(string_of(&e.message_bar(6, 0)), "a long");
}

#[test]
fn status_bar_no_name_empty_document() {
    let e = Editor::new(Document::default(), help_message(), 0);
    let line = string_of(&e.status_bar(80));
    assert_eq!(line.chars().count(), 80);
    assert!(line.starts_with("[No Name] - 0 lines"));
    assert!(line.ends_with("1/0"));
}

#[test]
fn status_bar_with_name_and_cursor_row() {
    let mut e = fresh_editor("one\ntwo\n", Some("pair.txt"));
    e.process_keypress(Key::Down, &SIZE);
    let line = string_of(&e.status_bar(80));
    assert!(line.starts_with("pair.txt - 2 lines"));
    assert!(line.ends_with("2/2"));
    assert_eq!(line.chars().count(), 80);
}

#[test]
fn status_bar_truncates_long_file_name() {
    let e = fresh_editor("x", Some("abcdefghijklmnopqrstuvwxyz"));
    let line = string_of(&e.status_bar(80));
    assert!(line.starts_with("abcdefghijklmnopqrst - 1 lines"));
}

#[test]
fn ctrl_c_requests_quit_and_ctrl_q_does_not() {
    let mut e = Editor::new(Document::default(), help_message(), 0);
    e.process_keypress(Key::Ctrl('q'), &SIZE);
    assert!(!e.should_quit());
    e.process_keypress(Key::Ctrl('c'), &SIZE);
    assert!(e.should_quit());
}

#[test]
fn home_and_end_are_idempotent() {
    let mut e = fresh_editor("some text here", None);
    e.process_keypress(Key::End, &SIZE);
    let once = e.cursor_position();
    let off_once = e.offset();
    e.process_keypress(Key::End, &SIZE);
    let twice = e.cursor_position();
    let off_twice = e.offset();
    assert_eq!((once.x, once.y), (twice.x, twice.y));
    assert_eq!((off_once.x, off_once.y), (off_twice.x, off_twice.y));
    e.process_keypress(Key::Home, &SIZE);
    let h1 = e.cursor_position();
    e.process_keypress(Key::Home, &SIZE);
    let h2 = e.cursor_position();
    assert_eq!((h1.x, h1.y), (h2.x, h2.y));
}

#[test]
fn cursor_clamps_to_shorter_row() {
    let mut e = fresh_editor("abcd\nx\n", None);
    e.process_keypress(Key::End, &SIZE);
    let p = e.cursor_position();
    assert_eq!((p.x, p.y), (4, 0));
    e.process_keypress(Key::Down, &SIZE);
    let p = e.cursor_position();
    assert_eq!((p.x, p.y), (1, 1));
}

#[test]
fn page_keys_move_by_viewport_height() {
    let mut lines = String::new();
    for _ in 0..60 {
        lines.push_str("line\n");
    }
    let mut e = fresh_editor(&lines, None);
    e.process_keypress(Key::PageDown, &SIZE);
    assert_eq!(e.cursor_position().y, 24);
    e.process_keypress(Key::PageDown, &SIZE);
    assert_eq!(e.cursor_position().y, 48);
    e.process_keypress(Key::PageDown, &SIZE);
    assert_eq!(e.cursor_position().y, 60);
    e.process_keypress(Key::PageUp, &SIZE);
    assert_eq!(e.cursor_position().y, 36);
}

#[test]
fn vertical_scroll_keeps_cursor_in_window() {
    let mut lines = String::new();
    for i in 0..30 {
        lines.push_str(&format!("row{}\n", i));
    }
    let size = Size { width: 80, height: 10 };
    let mut e = fresh_editor(&lines, None);
    for _ in 0..12 {
        e.process_keypress(Key::Down, &size);
    }
    let p = e.cursor_position();
    let o = e.offset();
    assert_eq!(p.y, 12);
    assert_eq!(o.y, 3);
    assert!(o.y <= p.y && p.y < o.y + 10);
    let top = string_of(&e.screen_row(0, &size, &chars_of("")));
    assert_eq!(top, "row3");
}

#[test]
fn delete_key_removes_under_cursor() {
    let mut e = fresh_editor("abc", None);
    e.process_keypress(Key::Right, &SIZE);
    e.process_keypress(Key::Delete, &SIZE);
    assert_eq!(doc_rows(e.document()), vec!["ac".to_string()]);
    let p = e.cursor_position();
    assert_eq!((p.x, p.y), (1, 0));
}

#[test]
fn backspace_at_origin_does_nothing() {
    let mut e = fresh_editor("abc", None);
    e.process_keypress(Key::Backspace, &SIZE);
    assert_eq!(doc_rows(e.document()), vec!["abc".to_string()]);
    let p = e.cursor_position();
    assert_eq!((p.x, p.y), (0, 0));
}

#[test]
fn type_then_erase_round_trip() {
    let mut e = Editor::new(Document::default(), help_message(), 0);
    for c in "verus".chars() {
        e.process_keypress(Key::Char(c), &SIZE);
    }
    assert_eq!(doc_rows(e.document()), vec!["verus".to_string()]);
    assert_eq!(e.cursor_position().x, 5);
    for _ in 0..5 {
        e.process_keypress(Key::Backspace, &SIZE);
    }
    assert_eq!(doc_rows(e.document()), vec!["".to_string()]);
    let p = e.cursor_position();
    assert_eq!((p.x, p.y), (0, 0));
}

#[test]
fn unbound_keys_change_nothing() {
    let mut e = fresh_editor("abc", None);
    e.process_keypress(Key::Other, &SIZE);
    assert_eq!(doc_rows(e.document()), vec!["abc".to_string()]);
    let p = e.cursor_position();
    assert_eq!((p.x, p.y), (0, 0));
    assert!(!e.should_quit());
}

#[test]
fn up_at_top_and_down_past_last_stop() {
    let mut e = fresh_editor("a\nb\n", None);
    e.process_keypress(Key::Up, &SIZE);
    assert_eq!(e.cursor_position().y, 0);
    for _ in 0..5 {
        e.process_keypress(Key::Down, &SIZE);
    }
    // the caret may rest on the virtual append row, one past the last
    assert_eq!(e.cursor_position().y, 2);
}

#[test]
fn typing_on_append_row_makes_a_row() {
    let mut e = fresh_editor("a\n", None);
    e.process_keypress(Key::Down, &SIZE);
    assert_eq!(e.cursor_position().y, 1);
    e.process_keypress(Key::Char('b'), &SIZE);
    assert_eq!(doc_rows(e.document()), vec!["a".to_string(), "b".to_string()]);
    let p = e.cursor_position();
    assert_eq!((p.x, p.y), (1, 1));
}

#[test]
fn end_on_append_row_keeps_origin_column() {
    let mut e = fresh_editor("ab\n", None);
    e.process_keypress(Key::Down, &SIZE);
    e.process_keypress(Key::End, &SIZE);
    let p = e.cursor_position();
    assert_eq!((p.x, p.y), (0, 1));
}

#[test]
fn tilde_rows_below_content_and_no_banner() {
    let e = fresh_editor("only line", None);
    let banner = chars_of("Hecto editor");
    assert_eq!(string_of(&e.screen_row(0, &SIZE, &banner)), "only line");
    assert_eq!(string_of(&e.screen_row(1, &SIZE, &banner)), "~");
    // the banner row shows a plain tilde once the buffer has text
    assert_eq!(string_of(&e.screen_row(8, &SIZE, &banner)), "~");
}

#[test]
fn enter_then_backspace_restores_rows_and_cursor() {
    let mut e = fresh_editor("hello\nworld\n", None);
    for _ in 0..3 {
        e.process_keypress(Key::Right, &SIZE);
    }
    e.process_keypress(Key::Char('\n'), &SIZE);
    assert_eq!(
        doc_rows(e.document()),
        vec!["hel".to_string(), "lo".to_string(), "world".to_string()]
    );
    let p = e.cursor_position();
    assert_eq!((p.x, p.y), (0, 1));
    e.process_keypress(Key::Backspace, &SIZE);
    assert_eq!(doc_rows(e.document()), vec!["hello".to_string(), "world".to_string()]);
    let p = e.cursor_position();
    assert_eq!((p.x, p.y), (3, 0));
}
