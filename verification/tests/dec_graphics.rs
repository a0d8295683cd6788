use wormhole::dec_graphics::{
    draw_box, horizontal_line, vertical_line_char, DecGraphicsBuilder, DecGraphicsChar,
    ENTER_DEC_GRAPHICS, EXIT_DEC_GRAPHICS,
};

#[test]
fn dec_graphics_test_escape_sequences() {
    assert_eq!(ENTER_DEC_GRAPHICS, "\x1b(0");
    assert_eq!(EXIT_DEC_GRAPHICS, "\x1b(B");
}

#[test]
fn dec_graphics_test_char_mapping() {
    assert_eq!(DecGraphicsChar::UpperLeftCorner.as_dec_char(), 'l');
    assert_eq!(DecGraphicsChar::UpperRightCorner.as_dec_char(), 'k');
    assert_eq!(DecGraphicsChar::LowerLeftCorner.as_dec_char(), 'm');
    assert_eq!(DecGraphicsChar::LowerRightCorner.as_dec_char(), 'j');
    assert_eq!(DecGraphicsChar::HorizontalLine.as_dec_char(), 'q');
    assert_eq!(DecGraphicsChar::VerticalLine.as_dec_char(), 'x');
}

#[test]
fn test_from_ascii() {
    assert_eq!(
        DecGraphicsChar::from_ascii(0x6c),
        Some(DecGraphicsChar::UpperLeftCorner)
    );
    assert_eq!(DecGraphicsChar::from_ascii(0x20), None);
}

#[test]
fn test_builder() {
    let mut builder = DecGraphicsBuilder::new();
    builder.graphic(DecGraphicsChar::UpperLeftCorner);
    builder.repeat_graphic(DecGraphicsChar::HorizontalLine, 3);
    builder.graphic(DecGraphicsChar::UpperRightCorner);
    let result = builder.build();

    assert!(result.starts_with(ENTER_DEC_GRAPHICS));
    assert!(result.ends_with(EXIT_DEC_GRAPHICS));
    assert!(result.contains("lqqqk"));
}

#[test]
fn from_ascii_inverts_as_dec_char() {
    for code in 0x5f..=0x7eu8 {
        let c = DecGraphicsChar::from_ascii(code).expect("in range");
        assert_eq!(c.as_dec_char() as u8, code);
    }
}

#[test]
fn unicode_mapping_samples() {
    assert_eq!(DecGraphicsChar::Diamond.as_unicode(), '\u{25C6}');
    assert_eq!(DecGraphicsChar::HorizontalLine.as_unicode(), '\u{2500}');
    assert_eq!(DecGraphicsChar::Pi.as_unicode(), '\u{03C0}');
}

#[test]
fn builder_text_switches_back_to_ascii() {
    let mut builder = DecGraphicsBuilder::new();
    builder.graphic(DecGraphicsChar::VerticalLine);
    builder.text("hi");
    builder.graphic(DecGraphicsChar::VerticalLine);
    let result = builder.build();
    assert_eq!(result, "\x1b(0x\x1b(Bhi\x1b(0x\x1b(B");
}

#[test]
fn line_helpers() {
    assert_eq!(horizontal_line(3), "\x1b(0qqq\x1b(B");
    assert_eq!(vertical_line_char(), "\x1b(0x\x1b(B");
    let b = draw_box(4, 3);
    assert!(b.starts_with("\x1b(0"));
    assert!(b.ends_with("\x1b(B"));
    assert!(b.contains("lqqk"));
}
