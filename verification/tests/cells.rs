use wormhole::dec_graphics::DecGraphicsChar;
use wormhole::cell::{parse_row, render_frame_diff, row_to_string, Cell, CharMode, Frame};

#[test]
fn dec_test_escape_sequences() {
    assert_eq!(wormhole::dec_graphics::ENTER_DEC_GRAPHICS, "\x1b(0");
    assert_eq!(wormhole::dec_graphics::EXIT_DEC_GRAPHICS, "\x1b(B");
}

#[test]
fn dec_test_char_mapping() {
    assert_eq!(DecGraphicsChar::UpperLeftCorner.as_dec_char(), 'l');
    assert_eq!(DecGraphicsChar::UpperRightCorner.as_dec_char(), 'k');
    assert_eq!(DecGraphicsChar::LowerLeftCorner.as_dec_char(), 'm');
    assert_eq!(DecGraphicsChar::LowerRightCorner.as_dec_char(), 'j');
    assert_eq!(DecGraphicsChar::HorizontalLine.as_dec_char(), 'q');
    assert_eq!(DecGraphicsChar::VerticalLine.as_dec_char(), 'x');
}

#[test]
fn test_cell_creation() {
    let ascii = Cell::ascii('A');
    assert_eq!(ascii.ch, 'A');
    assert_eq!(ascii.mode, CharMode::Ascii);

    let dec = Cell::dec_graphics('a');
    assert_eq!(dec.ch, 'a');
    assert_eq!(dec.mode, CharMode::DecGraphics);
}

#[test]
fn test_row_to_string() {
    let row = vec![
        Cell::ascii('H'),
        Cell::ascii('i'),
        Cell::dec_graphics('a'),
        Cell::dec_graphics('a'),
        Cell::ascii('!'),
    ];
    let s = row_to_string(&row);
    assert_eq!(s, "Hi\x0Eaa\x0F!");
}

#[test]
fn test_parse_row() {
    let line = "Hi\x0Eaa\x0F!";
    let cells = parse_row(line);
    assert_eq!(cells.len(), 5);
    assert_eq!(cells[0], Cell::ascii('H'));
    assert_eq!(cells[1], Cell::ascii('i'));
    assert_eq!(cells[2], Cell::dec_graphics('a'));
    assert_eq!(cells[3], Cell::dec_graphics('a'));
    assert_eq!(cells[4], Cell::ascii('!'));
}

#[test]
fn test_roundtrip() {
    let original = Frame {
        rows: vec![
            vec![Cell::ascii('A'), Cell::dec_graphics('a'), Cell::ascii('B')],
            vec![
                Cell::dec_graphics('!'),
                Cell::dec_graphics('"'),
                Cell::ascii(' '),
            ],
        ],
    };

    let strings = original.to_strings();
    let reconstructed = Frame::from_strings(&strings);
    assert_eq!(original, reconstructed);
}

#[test]
fn frame_dimensions() {
    let f = Frame::with_dimensions(3, 2);
    assert_eq!(f.width(), 3);
    assert_eq!(f.height(), 2);
    assert_eq!(f.rows[1][2], Cell::space());
    let empty = Frame::new();
    assert_eq!(empty.width(), 0);
    assert_eq!(empty.height(), 0);
}

#[test]
fn identical_frames_diff_to_nothing() {
    let f = Frame {
        rows: vec![vec![Cell::ascii('A'), Cell::dec_graphics('q')]],
    };
    let same = Frame {
        rows: vec![vec![Cell::ascii('A'), Cell::dec_graphics('q')]],
    };
    let out = render_frame_diff(&f, Some(&same), 2, 1);
    assert_eq!(out, "");
}

#[test]
fn changed_cell_is_rewritten() {
    let prev = Frame {
        rows: vec![vec![Cell::ascii('A'), Cell::ascii('B')]],
    };
    let cur = Frame {
        rows: vec![vec![Cell::ascii('A'), Cell::ascii('C')]],
    };
    let out = render_frame_diff(&cur, Some(&prev), 2, 1);
    assert_eq!(out, "\x1b[2;2HC");
}

#[test]
fn full_redraw_without_previous_frame() {
    let cur = Frame {
        rows: vec![vec![Cell::ascii('H'), Cell::ascii('i')]],
    };
    let out = render_frame_diff(&cur, None, 3, 4);
    assert_eq!(out, "\x1b[3;4HHi");
}
