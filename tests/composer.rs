use chat_composer::buffer::CursorBuffer;
use chat_composer::history::HistoryNavigator;
use chat_composer::message::{is_blank, outbound_payload};
use chat_composer::session::{App, Key};

fn chars(s: &str) -> Vec<char> {
    s.chars().collect()
}

fn strings(lines: &Vec<Vec<char>>) -> Vec<String> {
    lines.iter().map(|l| l.iter().collect()).collect()
}

fn fields(payload: &[char]) -> (String, String) {
    let text: String = payload.iter().collect();
    let value: serde_json::Value = serde_json::from_str(&text).unwrap();
    let obj = value.as_object().unwrap();
    assert_eq!(obj.len(), 2);
    (
        obj["nick"].as_str().unwrap().to_string(),
        obj["message"].as_str().unwrap().to_string(),
    )
}

fn typed(s: &str) -> CursorBuffer {
    let mut b = CursorBuffer::new();
    for c in s.chars() {
        if c == '\n' {
            b.split_line();
        } else {
            b.insert_char(c);
        }
    }
    b
}

fn ab_cd_at_end_of_first_line() -> CursorBuffer {
    let mut b = typed("ab\ncd");
    b.move_up();
    b
}

#[test]
fn backspace_removes_previous_char() {
    let mut b = typed("hello");
    assert_eq!(b.cursor(), 5);
    b.backspace();
    assert_eq!(strings(b.lines()), vec!["hell"]);
    assert_eq!(b.cursor(), 4);
}

#[test]
fn move_right_across_line_boundary() {
    let mut b = ab_cd_at_end_of_first_line();
    assert_eq!(strings(b.lines()), vec!["ab", "cd"]);
    assert_eq!(b.cursor(), 2);
    b.move_right();
    assert_eq!(b.cursor(), 3);
    assert_eq!(b.locate(3), (1, 0));
}

#[test]
fn total_chars_counts_virtual_newlines() {
    let b = typed("ab\ncd");
    assert_eq!(b.total_chars(), 5);
    let e = CursorBuffer::new();
    assert_eq!(e.total_chars(), 0);
    let m = typed("a\n\nxyz");
    assert_eq!(m.total_chars(), 1 + 0 + 3 + 2);
}

#[test]
fn locate_round_trips_every_offset() {
    let b = typed("héllo\n\nwörld\nx");
    for pos in 0..=b.total_chars() {
        let (l, c) = b.locate(pos);
        assert_eq!(b.line_start(l) + c, pos);
    }
    assert_eq!(b.locate(5), (0, 5));
    assert_eq!(b.locate(6), (1, 0));
    assert_eq!(b.locate(7), (2, 0));
    assert_eq!(b.locate(100), (3, 1));
}

#[test]
fn line_start_and_end() {
    let b = typed("ab\n\ncde");
    assert_eq!(b.line_start(0), 0);
    assert_eq!(b.line_end(0), 2);
    assert_eq!(b.line_start(1), 3);
    assert_eq!(b.line_end(1), 3);
    assert_eq!(b.line_start(2), 4);
    assert_eq!(b.line_end(2), 7);
}

#[test]
fn insert_then_backspace_restores() {
    let mut b = ab_cd_at_end_of_first_line();
    b.move_left();
    let before = strings(b.lines());
    let cur = b.cursor();
    b.insert_char('ß');
    assert_eq!(strings(b.lines()), vec!["aßb", "cd"]);
    b.backspace();
    assert_eq!(strings(b.lines()), before);
    assert_eq!(b.cursor(), cur);
}

#[test]
fn move_up_and_down_clamp_column() {
    let mut b = typed("ab\nhello");
    assert_eq!(b.cursor(), 8);
    b.move_up();
    assert_eq!(b.cursor(), 2);
    assert_eq!(b.locate(b.cursor()), (0, 2));
    b.move_down();
    assert_eq!(b.locate(b.cursor()), (1, 2));
    b.move_down();
    assert_eq!(b.locate(b.cursor()), (1, 2));
    b.move_up();
    b.move_up();
    assert_eq!(b.cursor(), 2);
}

#[test]
fn backspace_at_start_is_noop_and_merges_lines() {
    let mut b = CursorBuffer::new();
    b.backspace();
    assert_eq!(strings(b.lines()), vec![""]);
    assert_eq!(b.cursor(), 0);
    let mut b = typed("ab\ncd");
    b.move_home();
    assert_eq!(b.cursor(), 3);
    b.backspace();
    assert_eq!(strings(b.lines()), vec!["abcd"]);
    assert_eq!(b.cursor(), 2);
}

#[test]
fn delete_forward_cases() {
    let mut b = typed("ab\ncd");
    b.delete_forward();
    assert_eq!(strings(b.lines()), vec!["ab", "cd"]);
    assert_eq!(b.cursor(), 5);
    let mut b = ab_cd_at_end_of_first_line();
    b.delete_forward();
    assert_eq!(strings(b.lines()), vec!["abcd"]);
    assert_eq!(b.cursor(), 2);
    b.delete_forward();
    assert_eq!(strings(b.lines()), vec!["abd"]);
    assert_eq!(b.cursor(), 2);
}

#[test]
fn split_line_with_multibyte_chars() {
    let mut b = typed("żółw");
    b.move_left();
    b.move_left();
    b.split_line();
    assert_eq!(strings(b.lines()), vec!["żó", "łw"]);
    assert_eq!(b.cursor(), 3);
}

#[test]
fn home_end_and_left_right_clamp() {
    let mut b = typed("ab\ncde");
    b.move_home();
    assert_eq!(b.cursor(), 3);
    b.move_end();
    assert_eq!(b.cursor(), 6);
    b.move_right();
    assert_eq!(b.cursor(), 6);
    for _ in 0..10 {
        b.move_left();
    }
    assert_eq!(b.cursor(), 0);
}

#[test]
fn joined_uses_newlines() {
    let b = typed("ab\n\ncd");
    assert_eq!(b.joined().iter().collect::<String>(), "ab\n\ncd");
}

#[test]
fn display_marks_cursor() {
    let b = ab_cd_at_end_of_first_line();
    assert_eq!(strings(&b.display_lines()), vec![" ab\u{2502}", " cd"]);
    let b = typed("xy");
    assert_eq!(strings(&b.display_lines()), vec![" xy\u{2502}"]);
    let mut b = typed("xy");
    b.move_home();
    assert_eq!(strings(&b.display_lines()), vec![" \u{2502}xy"]);
}

#[test]
fn history_browse_down_after_up_returns() {
    let mut h = HistoryNavigator::new();
    h.record(chars("one"));
    h.record(chars("two"));
    h.record(chars("three"));
    assert_eq!(h.current_index(), 3);
    let mut b = CursorBuffer::new();
    h.browse_up(&mut b);
    assert_eq!(h.current_index(), 2);
    assert_eq!(strings(b.lines()), vec!["three"]);
    assert_eq!(b.cursor(), 5);
    for start in 0..3 {
        while h.current_index() != start {
            h.browse_down(&mut b);
        }
        h.browse_up(&mut b);
        h.browse_down(&mut b);
        assert_eq!(h.current_index(), start);
    }
    h.browse_down(&mut b);
    h.browse_up(&mut b);
    h.browse_up(&mut b);
    assert_eq!(h.current_index(), 1);
    assert_eq!(strings(b.lines()), vec!["two"]);
    assert_eq!(b.cursor(), 3);
}

#[test]
fn history_up_from_first_wraps_to_last() {
    let mut h = HistoryNavigator::new();
    h.record(chars("a"));
    h.record(chars("bb"));
    let mut b = CursorBuffer::new();
    h.browse_up(&mut b);
    h.browse_up(&mut b);
    assert_eq!(h.current_index(), 0);
    h.browse_up(&mut b);
    assert_eq!(h.current_index(), 1);
    assert_eq!(strings(b.lines()), vec!["bb"]);
}

#[test]
fn history_ignores_multiline_and_empty() {
    let mut h = HistoryNavigator::new();
    let mut b = typed("x");
    h.browse_up(&mut b);
    assert_eq!(strings(b.lines()), vec!["x"]);
    h.record(chars("old"));
    let mut b = typed("a\nb");
    h.browse_up(&mut b);
    h.browse_down(&mut b);
    assert_eq!(strings(b.lines()), vec!["a", "b"]);
    assert_eq!(h.current_index(), 1);
}

#[test]
fn enter_without_tab_submits() {
    let mut app = App::new(chars("N"));
    assert!(app.handle_key(Key::Char('h'), 0).is_none());
    assert!(app.handle_key(Key::Char('i'), 5).is_none());
    let sent = app.handle_key(Key::Enter, 10);
    let payload = sent.unwrap();
    assert_eq!(fields(&payload), ("N".to_string(), "hi".to_string()));
    assert_eq!(strings(app.history.messages()), vec!["hi"]);
    assert_eq!(strings(app.buffer.lines()), vec![""]);
    assert_eq!(app.buffer.cursor(), 0);
}

#[test]
fn tab_then_enter_inserts_newline() {
    let mut app = App::new(chars("N"));
    app.handle_key(Key::Char('a'), 0);
    app.handle_key(Key::Char('b'), 0);
    app.handle_key(Key::Left, 0);
    assert_eq!(app.buffer.cursor(), 1);
    app.handle_key(Key::Tab, 1000);
    let sent = app.handle_key(Key::Enter, 1400);
    assert!(sent.is_none());
    assert_eq!(strings(app.buffer.lines()), vec!["a", "b"]);
    assert_eq!(app.buffer.cursor(), 2);
    assert_eq!(app.history.len(), 0);
    assert_eq!(app.gesture.last_tab(), None);
}

#[test]
fn tab_expired_enter_submits() {
    let mut app = App::new(chars("N"));
    app.handle_key(Key::Char('a'), 0);
    app.handle_key(Key::Tab, 1000);
    app.handle_key(Key::Char('b'), 1100);
    let sent = app.handle_key(Key::Enter, 1500);
    assert!(sent.is_some());
    assert_eq!(strings(app.history.messages()), vec!["ab"]);
    assert_eq!(app.gesture.last_tab(), None);
}

#[test]
fn tab_survives_other_keys_within_window() {
    let mut app = App::new(chars("N"));
    app.handle_key(Key::Tab, 0);
    app.handle_key(Key::Char('x'), 100);
    let sent = app.handle_key(Key::Enter, 499);
    assert!(sent.is_none());
    assert_eq!(strings(app.buffer.lines()), vec!["x", ""]);
}

#[test]
fn blank_message_is_dropped_and_buffer_reset() {
    let mut app = App::new(chars("N"));
    app.handle_key(Key::Char(' '), 0);
    app.handle_key(Key::Tab, 0);
    app.handle_key(Key::Enter, 1);
    app.handle_key(Key::Char('\t'), 2);
    let sent = app.handle_key(Key::Enter, 3);
    assert!(sent.is_none());
    assert_eq!(app.history.len(), 0);
    assert_eq!(strings(app.buffer.lines()), vec![""]);
    assert_eq!(app.buffer.cursor(), 0);
}

#[test]
fn multiline_message_payload_escapes_newline() {
    let mut app = App::new(chars("N"));
    for c in "a\"b".chars() {
        app.handle_key(Key::Char(c), 0);
    }
    app.handle_key(Key::Tab, 0);
    app.handle_key(Key::Enter, 0);
    app.handle_key(Key::Char('c'), 0);
    let payload = app.handle_key(Key::Enter, 900).unwrap();
    assert_eq!(fields(&payload), ("N".to_string(), "a\"b\nc".to_string()));
    assert_eq!(strings(app.history.messages()), vec!["a\"b\nc"]);
}

#[test]
fn app_up_down_browse_history_on_single_line() {
    let mut app = App::new(chars("N"));
    for m in ["first", "second"] {
        for c in m.chars() {
            app.handle_key(Key::Char(c), 0);
        }
        app.handle_key(Key::Enter, 0);
    }
    app.handle_key(Key::Up, 0);
    assert_eq!(strings(app.buffer.lines()), vec!["second"]);
    app.handle_key(Key::Up, 0);
    assert_eq!(strings(app.buffer.lines()), vec!["first"]);
    app.handle_key(Key::Down, 0);
    assert_eq!(strings(app.buffer.lines()), vec!["second"]);
    assert_eq!(app.get_cursor_line_char_index(), (0, 6));
}

#[test]
fn app_line_queries_and_escape() {
    let mut app = App::new(chars("N"));
    for c in "ab".chars() {
        app.handle_key(Key::Char(c), 0);
    }
    app.handle_key(Key::Tab, 0);
    app.handle_key(Key::Enter, 0);
    app.handle_key(Key::Char('c'), 0);
    assert_eq!(app.get_total_chars(), 4);
    assert_eq!(app.get_line_start(1), 3);
    assert_eq!(app.get_line_end(0), 2);
    assert_eq!(app.get_cursor_line_char_index(), (1, 1));
    app.handle_key(Key::Up, 0);
    assert_eq!(app.get_cursor_line_char_index(), (0, 1));
    app.handle_key(Key::Delete, 0);
    assert_eq!(strings(app.buffer.lines()), vec!["a", "c"]);
    app.handle_key(Key::End, 0);
    app.handle_key(Key::Backspace, 0);
    assert_eq!(strings(app.buffer.lines()), vec!["", "c"]);
    assert!(!app.exit);
    app.handle_key(Key::Esc, 0);
    assert!(app.exit);
}

#[test]
fn payload_is_json_object_of_both_fields() {
    let p = outbound_payload(&chars("a\"b"), &chars("x\\y\nz"));
    assert_eq!(fields(&p), ("a\"b".to_string(), "x\\y\nz".to_string()));
    let text: String = outbound_payload(&chars("N"), &chars("hi")).iter().collect();
    assert_eq!(text, "{\"message\":\"hi\",\"nick\":\"N\"}");
}

#[test]
fn submissions_come_out_in_order() {
    let mut app = App::new(chars("bob"));
    let mut sent = Vec::new();
    for m in ["one", "two", "three"] {
        for c in m.chars() {
            app.handle_key(Key::Char(c), 0);
        }
        sent.push(fields(&app.handle_key(Key::Enter, 0).unwrap()).1);
    }
    assert_eq!(sent, vec!["one", "two", "three"]);
    assert_eq!(strings(app.history.messages()), vec!["one", "two", "three"]);
}

#[test]
fn line_start_past_last_line() {
    let b = typed("ab\ncd");
    assert_eq!(b.line_start(2), 6);
    assert_eq!(b.line_start(2), b.line_end(1) + 1);
}

#[test]
fn blank_detection() {
    assert!(is_blank(&chars("")));
    assert!(is_blank(&chars(" \t\n\u{3000}\u{a0}")));
    assert!(!is_blank(&chars("  a ")));
}
