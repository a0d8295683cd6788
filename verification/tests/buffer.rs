use wormhole::terminal::{visible_len, ChatBuffer};

#[test]
fn test_visible_len() {
    assert_eq!(visible_len("hello"), 5);
    assert_eq!(visible_len("hello world"), 11);
    // shift in/out characters do not count
    assert_eq!(visible_len("a\x0Eb\x0Fc"), 3);
}

#[test]
fn test_new_buffer() {
    let buf = ChatBuffer::new(80);
    assert!(!buf.is_full());
    assert_eq!(buf.visible_lines().len(), 0);
}

#[test]
fn test_push_simple() {
    let mut buf = ChatBuffer::new(80);
    buf.push("Hello, world!".to_string());
    assert_eq!(buf.visible_lines(), vec!["Hello, world!".to_string()]);
}

#[test]
fn test_push_wrapping() {
    let mut buf = ChatBuffer::new(20); // very narrow, wrap width 16
    buf.push("This is a long message that should wrap".to_string());
    let lines = buf.visible_lines();
    assert!(lines.len() > 1, "Message should wrap to multiple lines");
    for line in &lines {
        assert!(line.len() <= 16, "Line too long: {}", line);
    }
}

#[test]
fn test_scroll() {
    let mut buf = ChatBuffer::new(80);
    for i in 0..30 {
        buf.push(format!("Line {}", i));
    }

    let visible = buf.visible_lines();
    assert!(visible.last().unwrap().contains("29"));

    buf.scroll_up(5);
    let visible = buf.visible_lines();
    assert!(!visible.last().unwrap().contains("29"));

    buf.scroll_to_bottom();
    let visible = buf.visible_lines();
    assert!(visible.last().unwrap().contains("29"));
}

#[test]
fn test_clear() {
    let mut buf = ChatBuffer::new(80);
    buf.push("Test message".to_string());
    assert!(!buf.visible_lines().is_empty());
    buf.clear();
    assert!(buf.visible_lines().is_empty());
}

#[test]
fn long_word_is_cut_to_the_width() {
    let mut buf = ChatBuffer::new(14); // wrap width 10
    buf.push("abcdefghijklmnopqrstuvwxyz".to_string());
    let lines = buf.visible_lines();
    assert_eq!(
        lines,
        vec![
            "abcdefghij".to_string(),
            "klmnopqrst".to_string(),
            "uvwxyz".to_string()
        ]
    );
}

#[test]
fn newlines_split_lines() {
    let mut buf = ChatBuffer::new(80);
    buf.push("one\ntwo\n\nthree".to_string());
    assert_eq!(
        buf.visible_lines(),
        vec![
            "one".to_string(),
            "two".to_string(),
            "".to_string(),
            "three".to_string()
        ]
    );
}

#[test]
fn type_char_appends_until_the_line_fills() {
    let mut buf = ChatBuffer::new(9); // wrap width 5
    assert!(!buf.type_char('a', "  "));
    assert!(!buf.type_char('b', "  "));
    assert_eq!(buf.visible_lines(), vec!["ab".to_string()]);
    for c in ['c', 'd', 'e'] {
        assert!(!buf.type_char(c, "  "));
    }
    // the sixth character no longer fits: a wrap is reported
    assert!(buf.type_char('f', "  "));
    assert!(buf.visible_lines().len() > 1);
}

#[test]
fn scroll_down_returns_toward_bottom() {
    let mut buf = ChatBuffer::new(80);
    for i in 0..40 {
        buf.push(format!("row {}", i));
    }
    buf.scroll_up(10);
    buf.scroll_down(4);
    buf.scroll_down(100);
    assert!(buf.visible_lines().last().unwrap().contains("39"));
}

#[test]
fn update_last_line_replaces_and_truncates() {
    let mut buf = ChatBuffer::new(10); // wrap width 6
    buf.push("abc".to_string());
    buf.update_last_line("xyz");
    assert_eq!(buf.visible_lines(), vec!["xyz".to_string()]);
    buf.update_last_line("0123456789");
    assert_eq!(buf.visible_lines(), vec!["012345".to_string()]);
}

#[test]
fn render_is_bracketed_by_cursor_save_restore() {
    let mut buf = ChatBuffer::new(80);
    buf.push("hello".to_string());
    let out = buf.render();
    assert!(out.starts_with("\x1b7"));
    assert!(out.ends_with("\x1b8"));
    let last = buf.render_last_line();
    assert!(last.starts_with("\x1b7"));
    assert!(last.ends_with("\x1b8"));
    assert!(last.contains("hello"));
    let empty = ChatBuffer::new(80);
    assert_eq!(empty.render_last_line(), "");
    assert_eq!(empty.render_bottom_lines(3), "");
}
