use hecto::Document;
use hecto::Position;
use hecto::Row;

fn chars_of(s: &str) -> Vec<char> {
    s.chars().collect()
}

fn string_of(v: &[char]) -> String {
    v.iter().collect()
}

fn doc_rows(d: &Document) -> Vec<String> {
    let mut out = Vec::new();
    let mut y: usize = 0;
    while let Some(row) = d.row(y) {
        out.push(string_of(row.chars()));
        y += 1;
    }
    out
}

#[test]
fn row_insert_middle_and_append() {
    let mut r = Row::from_chars(chars_of("abc"));
    r.insert(1, 'x');
    assert_eq!(string_of(r.chars()), "axbc");
    r.insert(99, 'z');
    assert_eq!(string_of(r.chars()), "axbcz");
    assert_eq!(r.len(), 5);
}

#[test]
fn row_delete_in_range_and_past_end() {
    let mut r = Row::from_chars(chars_of("abc"));
    r.delete(1);
    assert_eq!(string_of(r.chars()), "ac");
    r.delete(5);
    assert_eq!(string_of(r.chars()), "ac");
}

#[test]
fn row_append_concatenates() {
    let mut r = Row::from_chars(chars_of("foo"));
    let other = Row::from_chars(chars_of("bar"));
    r.append(&other);
    assert_eq!(string_of(r.chars()), "foobar");
}

#[test]
fn row_split_in_range() {
    let mut r = Row::from_chars(chars_of("hello"));
    let tail = r.split(2);
    assert_eq!(string_of(r.chars()), "he");
    assert_eq!(string_of(tail.chars()), "llo");
}

#[test]
fn row_split_past_end_is_empty_tail() {
    let mut r = Row::from_chars(chars_of("hi"));
    let tail = r.split(2);
    assert_eq!(string_of(r.chars()), "hi");
    assert!(tail.is_empty());
}

#[test]
fn row_scalar_values_not_bytes() {
    let mut r = Row::from_chars(chars_of("héllo"));
    assert_eq!(r.len(), 5);
    r.delete(1);
    assert_eq!(string_of(r.chars()), "hllo");
    let mut r2 = Row::from_chars(chars_of("日本語"));
    let tail = r2.split(1);
    assert_eq!(string_of(r2.chars()), "日");
    assert_eq!(string_of(tail.chars()), "本語");
}

#[test]
fn render_window_and_tab_expansion() {
    let r = Row::from_chars(chars_of("a\tb\tc"));
    let out = r.render(0, 5);
    assert_eq!(string_of(&out), "a b c");
    assert!(!out.contains(&'\t'));
}

#[test]
fn render_length_is_clipped_window() {
    let r = Row::from_chars(chars_of("abcdef"));
    assert_eq!(string_of(&r.render(2, 4)), "cd");
    assert_eq!(r.render(2, 4).len(), 2);
    assert_eq!(string_of(&r.render(4, 100)), "ef");
    assert_eq!(string_of(&r.render(9, 12)), "");
    assert_eq!(string_of(&r.render(3, 3)), "");
}

#[test]
fn load_discards_final_empty_line() {
    let d = Document::from_text(&chars_of("a\nb\n"), None);
    assert_eq!(doc_rows(&d), vec!["a".to_string(), "b".to_string()]);
    assert_eq!(d.len(), 2);
}

#[test]
fn load_keeps_last_unterminated_line() {
    let d = Document::from_text(&chars_of("a\nb"), None);
    assert_eq!(doc_rows(&d), vec!["a".to_string(), "b".to_string()]);
}

#[test]
fn load_strips_carriage_returns_at_line_ends() {
    let d = Document::from_text(&chars_of("ab\r\ncd\r\n"), None);
    assert_eq!(doc_rows(&d), vec!["ab".to_string(), "cd".to_string()]);
}

#[test]
fn load_empty_text_gives_empty_document() {
    let d = Document::from_text(&chars_of(""), None);
    assert!(d.is_empty());
    assert_eq!(d.len(), 0);
}

#[test]
fn load_lone_newline_gives_one_empty_row() {
    let d = Document::from_text(&chars_of("\n"), None);
    assert_eq!(d.len(), 1);
    assert_eq!(doc_rows(&d), vec!["".to_string()]);
}

#[test]
fn load_records_file_name() {
    let d = Document::from_text(&chars_of("x"), Some(chars_of("notes.txt")));
    assert_eq!(string_of(d.file_name().as_ref().unwrap()), "notes.txt");
    let d2 = Document::from_text(&chars_of("x"), None);
    assert!(d2.file_name().is_none());
}

#[test]
fn insert_at_append_row_makes_new_row() {
    let mut d = Document::default();
    d.insert(&Position { x: 0, y: 0 }, 'a');
    assert_eq!(doc_rows(&d), vec!["a".to_string()]);
    d.insert(&Position { x: 0, y: 1 }, 'b');
    assert_eq!(doc_rows(&d), vec!["a".to_string(), "b".to_string()]);
}

#[test]
fn insert_past_append_row_is_noop() {
    let mut d = Document::default();
    d.insert(&Position { x: 0, y: 5 }, 'a');
    assert!(d.is_empty());
}

#[test]
fn insert_newline_splits_row() {
    let mut d = Document::from_text(&chars_of("hello"), None);
    d.insert(&Position { x: 2, y: 0 }, '\n');
    assert_eq!(doc_rows(&d), vec!["he".to_string(), "llo".to_string()]);
}

#[test]
fn insert_newline_at_append_row_adds_empty_row() {
    let mut d = Document::from_text(&chars_of("a"), None);
    d.insert_newline(&Position { x: 0, y: 1 });
    assert_eq!(doc_rows(&d), vec!["a".to_string(), "".to_string()]);
}

#[test]
fn delete_joins_rows_at_line_end() {
    let mut d = Document::from_text(&chars_of("ab\ncd"), None);
    d.delete(&Position { x: 2, y: 0 });
    assert_eq!(doc_rows(&d), vec!["abcd".to_string()]);
}

#[test]
fn delete_inside_row_removes_one_scalar() {
    let mut d = Document::from_text(&chars_of("abc"), None);
    d.delete(&Position { x: 1, y: 0 });
    assert_eq!(doc_rows(&d), vec!["ac".to_string()]);
}

#[test]
fn delete_outside_buffer_is_noop() {
    let mut d = Document::from_text(&chars_of("abc"), None);
    d.delete(&Position { x: 0, y: 3 });
    assert_eq!(doc_rows(&d), vec!["abc".to_string()]);
    d.delete(&Position { x: 3, y: 0 });
    assert_eq!(doc_rows(&d), vec!["abc".to_string()]);
}

#[test]
fn carriage_return_never_enters_a_row() {
    let mut d = Document::from_text(&chars_of("ab"), None);
    d.insert(&Position { x: 1, y: 0 }, '\r');
    assert_eq!(doc_rows(&d), vec!["ab".to_string()]);
}

#[test]
fn split_then_join_restores_document() {
    let mut d = Document::from_text(&chars_of("hello\nworld"), None);
    d.insert(&Position { x: 3, y: 0 }, '\n');
    assert_eq!(
        doc_rows(&d),
        vec!["hel".to_string(), "lo".to_string(), "world".to_string()]
    );
    d.delete(&Position { x: 3, y: 0 });
    assert_eq!(doc_rows(&d), vec!["hello".to_string(), "world".to_string()]);
}
