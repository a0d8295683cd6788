use wormhole::input::{parse_byte, EscapeParser, EscapeSequence, InputEvent};

#[test]
fn test_parse_printable() {
    assert_eq!(parse_byte(b'a'), InputEvent::Char('a'));
    assert_eq!(parse_byte(b'Z'), InputEvent::Char('Z'));
    assert_eq!(parse_byte(b'5'), InputEvent::Char('5'));
}

#[test]
fn test_parse_control() {
    assert_eq!(parse_byte(b'\r'), InputEvent::Enter);
    assert_eq!(parse_byte(b'\n'), InputEvent::Enter);
    assert_eq!(parse_byte(0x7f), InputEvent::Backspace);
    assert_eq!(parse_byte(0x08), InputEvent::Backspace);
    assert_eq!(parse_byte(0x09), InputEvent::Tab);
    assert_eq!(parse_byte(0x03), InputEvent::CtrlC);
    assert_eq!(parse_byte(0x12), InputEvent::CtrlR);
}

#[test]
fn test_escape_parser_arrows() {
    let mut parser = EscapeParser::new();

    assert!(parser.feed(0x1b).is_none());
    assert!(parser.feed(b'[').is_none());
    assert_eq!(parser.feed(b'A'), Some(EscapeSequence::ArrowUp));
    assert!(!parser.is_parsing());

    assert!(parser.feed(0x1b).is_none());
    assert!(parser.feed(b'[').is_none());
    assert_eq!(parser.feed(b'B'), Some(EscapeSequence::ArrowDown));

    assert!(parser.feed(0x1b).is_none());
    assert!(parser.feed(b'[').is_none());
    assert_eq!(parser.feed(b'C'), Some(EscapeSequence::ArrowRight));

    assert!(parser.feed(0x1b).is_none());
    assert!(parser.feed(b'[').is_none());
    assert_eq!(parser.feed(b'D'), Some(EscapeSequence::ArrowLeft));
}

#[test]
fn test_escape_parser_page() {
    let mut parser = EscapeParser::new();

    assert!(parser.feed(0x1b).is_none());
    assert!(parser.feed(b'[').is_none());
    assert!(parser.feed(b'5').is_none());
    assert_eq!(parser.feed(b'~'), Some(EscapeSequence::PageUp));

    assert!(parser.feed(0x1b).is_none());
    assert!(parser.feed(b'[').is_none());
    assert!(parser.feed(b'6').is_none());
    assert_eq!(parser.feed(b'~'), Some(EscapeSequence::PageDown));
}

#[test]
fn unknown_sequences_resolve() {
    let mut parser = EscapeParser::new();
    assert!(parser.feed(0x1b).is_none());
    assert!(parser.feed(b'[').is_none());
    assert!(parser.feed(b'9').is_none());
    assert_eq!(parser.feed(b'~'), Some(EscapeSequence::Unknown));
    assert!(!parser.is_parsing());

    // a sequence running past six bytes resolves as unknown too
    let mut parser = EscapeParser::new();
    for b in [0x1b, b'[', b'1', b'2', b'3', b'4'] {
        assert!(parser.feed(b).is_none());
    }
    assert_eq!(parser.feed(b'5'), Some(EscapeSequence::Unknown));
}

#[test]
fn parser_clear_resets_state() {
    let mut parser = EscapeParser::new();
    parser.feed(0x1b);
    assert!(parser.is_parsing());
    parser.clear();
    assert!(!parser.is_parsing());
}

#[test]
fn space_and_escape_events() {
    assert_eq!(parse_byte(0x20), InputEvent::Space);
    assert_eq!(parse_byte(0x1b), InputEvent::EscapeStart);
    assert_eq!(parse_byte(0x00), InputEvent::Ignore);
    assert_eq!(parse_byte(0x80), InputEvent::Ignore);
}
