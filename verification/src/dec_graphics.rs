//! DEC Special Graphics character set support for VT100-series terminals.
//!
//! The set provides box-drawing characters, line graphics and other symbols.
//! Entering the set maps ASCII codes 0x5f through 0x7e to graphics; leaving
//! it restores plain ASCII.

use vstd::prelude::*;

verus! {

/// Escape sequence to switch to DEC Special Graphics character set (G0)
pub const ENTER_DEC_GRAPHICS: &'static str = "\x1b(0";

/// Escape sequence to switch back to ASCII character set (G0)
pub const EXIT_DEC_GRAPHICS: &'static str = "\x1b(B";

/// The characters of the enter-graphics escape sequence.
pub open spec fn enter_seq() -> Seq<char> {
    seq!['\x1b', '(', '0']
}

/// The characters of the exit-graphics escape sequence.
pub open spec fn exit_seq() -> Seq<char> {
    seq!['\x1b', '(', 'B']
}

/// DEC Special Graphics characters mapped from ASCII codes 0x5f-0x7e when in
/// graphics mode.
#[derive(Debug, Clone, Copy, PartialEq, Eq, Structural)]
pub enum DecGraphicsChar {
    /// 0x5f: Non-breaking space
    Nbsp,
    /// 0x60: Diamond
    Diamond,
    /// 0x61: Checkerboard/stipple
    Checkerboard,
    /// 0x62: Horizontal tab symbol
    HTab,
    /// 0x63: Form feed symbol
    FormFeed,
    /// 0x64: Carriage return symbol
    CarriageReturn,
    /// 0x65: Line feed symbol
    LineFeed,
    /// 0x66: Degree symbol
    Degree,
    /// 0x67: Plus/minus
    PlusMinus,
    /// 0x68: Newline symbol
    Newline,
    /// 0x69: Vertical tab symbol
    VTab,
    /// 0x6a: Lower right corner
    LowerRightCorner,
    /// 0x6b: Upper right corner
    UpperRightCorner,
    /// 0x6c: Upper left corner
    UpperLeftCorner,
    /// 0x6d: Lower left corner
    LowerLeftCorner,
    /// 0x6e: Crossing lines
    Cross,
    /// 0x6f: Horizontal line - scan 1
    ScanLine1,
    /// 0x70: Horizontal line - scan 3
    ScanLine3,
    /// 0x71: Horizontal line - scan 5, the box-drawing horizontal
    HorizontalLine,
    /// 0x72: Horizontal line - scan 7
    ScanLine7,
    /// 0x73: Horizontal line - scan 9
    ScanLine9,
    /// 0x74: Left tee
    LeftTee,
    /// 0x75: Right tee
    RightTee,
    /// 0x76: Bottom tee
    BottomTee,
    /// 0x77: Top tee
    TopTee,
    /// 0x78: Vertical line
    VerticalLine,
    /// 0x79: Less than or equal
    LessOrEqual,
    /// 0x7a: Greater than or equal
    GreaterOrEqual,
    /// 0x7b: Pi
    Pi,
    /// 0x7c: Not equal
    NotEqual,
    /// 0x7d: UK pound sign
    Pound,
    /// 0x7e: Centered dot
    Bullet,
}

/// The ASCII code each graphics character occupies, the single source for
/// both directions of the mapping.
pub open spec fn dec_code(c: DecGraphicsChar) -> u8 {
    match c {
        DecGraphicsChar::Nbsp => 0x5f,
        DecGraphicsChar::Diamond => 0x60,
        DecGraphicsChar::Checkerboard => 0x61,
        DecGraphicsChar::HTab => 0x62,
        DecGraphicsChar::FormFeed => 0x63,
        DecGraphicsChar::CarriageReturn => 0x64,
        DecGraphicsChar::LineFeed => 0x65,
        DecGraphicsChar::Degree => 0x66,
        DecGraphicsChar::PlusMinus => 0x67,
        DecGraphicsChar::Newline => 0x68,
        DecGraphicsChar::VTab => 0x69,
        DecGraphicsChar::LowerRightCorner => 0x6a,
        DecGraphicsChar::UpperRightCorner => 0x6b,
        DecGraphicsChar::UpperLeftCorner => 0x6c,
        DecGraphicsChar::LowerLeftCorner => 0x6d,
        DecGraphicsChar::Cross => 0x6e,
        DecGraphicsChar::ScanLine1 => 0x6f,
        DecGraphicsChar::ScanLine3 => 0x70,
        DecGraphicsChar::HorizontalLine => 0x71,
        DecGraphicsChar::ScanLine7 => 0x72,
        DecGraphicsChar::ScanLine9 => 0x73,
        DecGraphicsChar::LeftTee => 0x74,
        DecGraphicsChar::RightTee => 0x75,
        DecGraphicsChar::BottomTee => 0x76,
        DecGraphicsChar::TopTee => 0x77,
        DecGraphicsChar::VerticalLine => 0x78,
        DecGraphicsChar::LessOrEqual => 0x79,
        DecGraphicsChar::GreaterOrEqual => 0x7a,
        DecGraphicsChar::Pi => 0x7b,
        DecGraphicsChar::NotEqual => 0x7c,
        DecGraphicsChar::Pound => 0x7d,
        DecGraphicsChar::Bullet => 0x7e,
    }
}

/// The ASCII character of a graphics character, as a char.
pub open spec fn dec_char_of(c: DecGraphicsChar) -> char {
    dec_code(c) as char
}

impl DecGraphicsChar {
    /// The ASCII character that produces this graphic in graphics mode.
    pub fn as_dec_char(self) -> (r: char)
        ensures
            r == dec_char_of(self),
            0x5f <= r as u32 <= 0x7e,
    {
        match self {
            DecGraphicsChar::Nbsp => '\x5f',
            DecGraphicsChar::Diamond => '\x60',
            DecGraphicsChar::Checkerboard => '\x61',
            DecGraphicsChar::HTab => '\x62',
            DecGraphicsChar::FormFeed => '\x63',
            DecGraphicsChar::CarriageReturn => '\x64',
            DecGraphicsChar::LineFeed => '\x65',
            DecGraphicsChar::Degree => '\x66',
            DecGraphicsChar::PlusMinus => '\x67',
            DecGraphicsChar::Newline => '\x68',
            DecGraphicsChar::VTab => '\x69',
            DecGraphicsChar::LowerRightCorner => '\x6a',
            DecGraphicsChar::UpperRightCorner => '\x6b',
            DecGraphicsChar::UpperLeftCorner => '\x6c',
            DecGraphicsChar::LowerLeftCorner => '\x6d',
            DecGraphicsChar::Cross => '\x6e',
            DecGraphicsChar::ScanLine1 => '\x6f',
            DecGraphicsChar::ScanLine3 => '\x70',
            DecGraphicsChar::HorizontalLine => '\x71',
            DecGraphicsChar::ScanLine7 => '\x72',
            DecGraphicsChar::ScanLine9 => '\x73',
            DecGraphicsChar::LeftTee => '\x74',
            DecGraphicsChar::RightTee => '\x75',
            DecGraphicsChar::BottomTee => '\x76',
            DecGraphicsChar::TopTee => '\x77',
            DecGraphicsChar::VerticalLine => '\x78',
            DecGraphicsChar::LessOrEqual => '\x79',
            DecGraphicsChar::GreaterOrEqual => '\x7a',
            DecGraphicsChar::Pi => '\x7b',
            DecGraphicsChar::NotEqual => '\x7c',
            DecGraphicsChar::Pound => '\x7d',
            DecGraphicsChar::Bullet => '\x7e',
        }
    }

    /// The Unicode equivalent of this graphics character.
    pub fn as_unicode(self) -> (r: char)
        ensures
            r == unicode_of(self),
    {
        match self {
            DecGraphicsChar::Nbsp => '\u{00A0}',
            DecGraphicsChar::Diamond => '\u{25C6}',
            DecGraphicsChar::Checkerboard => '\u{2592}',
            DecGraphicsChar::HTab => '\u{2409}',
            DecGraphicsChar::FormFeed => '\u{240C}',
            DecGraphicsChar::CarriageReturn => '\u{240D}',
            DecGraphicsChar::LineFeed => '\u{240A}',
            DecGraphicsChar::Degree => '\u{00B0}',
            DecGraphicsChar::PlusMinus => '\u{00B1}',
            DecGraphicsChar::Newline => '\u{2424}',
            DecGraphicsChar::VTab => '\u{240B}',
            DecGraphicsChar::LowerRightCorner => '\u{2518}',
            DecGraphicsChar::UpperRightCorner => '\u{2510}',
            DecGraphicsChar::UpperLeftCorner => '\u{250C}',
            DecGraphicsChar::LowerLeftCorner => '\u{2514}',
            DecGraphicsChar::Cross => '\u{253C}',
            DecGraphicsChar::ScanLine1 => '\u{23BA}',
            DecGraphicsChar::ScanLine3 => '\u{23BB}',
            DecGraphicsChar::HorizontalLine => '\u{2500}',
            DecGraphicsChar::ScanLine7 => '\u{23BC}',
            DecGraphicsChar::ScanLine9 => '\u{23BD}',
            DecGraphicsChar::LeftTee => '\u{251C}',
            DecGraphicsChar::RightTee => '\u{2524}',
            DecGraphicsChar::BottomTee => '\u{2534}',
            DecGraphicsChar::TopTee => '\u{252C}',
            DecGraphicsChar::VerticalLine => '\u{2502}',
            DecGraphicsChar::LessOrEqual => '\u{2264}',
            DecGraphicsChar::GreaterOrEqual => '\u{2265}',
            DecGraphicsChar::Pi => '\u{03C0}',
            DecGraphicsChar::NotEqual => '\u{2260}',
            DecGraphicsChar::Pound => '\u{00A3}',
            DecGraphicsChar::Bullet => '\u{00B7}',
        }
    }

    /// The graphics character at an ASCII code, for codes 0x5f through 0x7e.
    pub fn from_ascii(code: u8) -> (r: Option<Self>)
        ensures
            0x5f <= code <= 0x7e ==> (r matches Some(c) && dec_code(c) == code),
            !(0x5f <= code <= 0x7e) ==> r is None,
    {
        match code {
            0x5f => Some(DecGraphicsChar::Nbsp),
            0x60 => Some(DecGraphicsChar::Diamond),
            0x61 => Some(DecGraphicsChar::Checkerboard),
            0x62 => Some(DecGraphicsChar::HTab),
            0x63 => Some(DecGraphicsChar::FormFeed),
            0x64 => Some(DecGraphicsChar::CarriageReturn),
            0x65 => Some(DecGraphicsChar::LineFeed),
            0x66 => Some(DecGraphicsChar::Degree),
            0x67 => Some(DecGraphicsChar::PlusMinus),
            0x68 => Some(DecGraphicsChar::Newline),
            0x69 => Some(DecGraphicsChar::VTab),
            0x6a => Some(DecGraphicsChar::LowerRightCorner),
            0x6b => Some(DecGraphicsChar::UpperRightCorner),
            0x6c => Some(DecGraphicsChar::UpperLeftCorner),
            0x6d => Some(DecGraphicsChar::LowerLeftCorner),
            0x6e => Some(DecGraphicsChar::Cross),
            0x6f => Some(DecGraphicsChar::ScanLine1),
            0x70 => Some(DecGraphicsChar::ScanLine3),
            0x71 => Some(DecGraphicsChar::HorizontalLine),
            0x72 => Some(DecGraphicsChar::ScanLine7),
            0x73 => Some(DecGraphicsChar::ScanLine9),
            0x74 => Some(DecGraphicsChar::LeftTee),
            0x75 => Some(DecGraphicsChar::RightTee),
            0x76 => Some(DecGraphicsChar::BottomTee),
            0x77 => Some(DecGraphicsChar::TopTee),
            0x78 => Some(DecGraphicsChar::VerticalLine),
            0x79 => Some(DecGraphicsChar::LessOrEqual),
            0x7a => Some(DecGraphicsChar::GreaterOrEqual),
            0x7b => Some(DecGraphicsChar::Pi),
            0x7c => Some(DecGraphicsChar::NotEqual),
            0x7d => Some(DecGraphicsChar::Pound),
            0x7e => Some(DecGraphicsChar::Bullet),
            _ => None,
        }
    }
}

/// The Unicode code point for each graphics character.
pub open spec fn unicode_of(c: DecGraphicsChar) -> char {
    match c {
        DecGraphicsChar::Nbsp => '\u{00A0}',
        DecGraphicsChar::Diamond => '\u{25C6}',
        DecGraphicsChar::Checkerboard => '\u{2592}',
        DecGraphicsChar::HTab => '\u{2409}',
        DecGraphicsChar::FormFeed => '\u{240C}',
        DecGraphicsChar::CarriageReturn => '\u{240D}',
        DecGraphicsChar::LineFeed => '\u{240A}',
        DecGraphicsChar::Degree => '\u{00B0}',
        DecGraphicsChar::PlusMinus => '\u{00B1}',
        DecGraphicsChar::Newline => '\u{2424}',
        DecGraphicsChar::VTab => '\u{240B}',
        DecGraphicsChar::LowerRightCorner => '\u{2518}',
        DecGraphicsChar::UpperRightCorner => '\u{2510}',
        DecGraphicsChar::UpperLeftCorner => '\u{250C}',
        DecGraphicsChar::LowerLeftCorner => '\u{2514}',
        DecGraphicsChar::Cross => '\u{253C}',
        DecGraphicsChar::ScanLine1 => '\u{23BA}',
        DecGraphicsChar::ScanLine3 => '\u{23BB}',
        DecGraphicsChar::HorizontalLine => '\u{2500}',
        DecGraphicsChar::ScanLine7 => '\u{23BC}',
        DecGraphicsChar::ScanLine9 => '\u{23BD}',
        DecGraphicsChar::LeftTee => '\u{251C}',
        DecGraphicsChar::RightTee => '\u{2524}',
        DecGraphicsChar::BottomTee => '\u{2534}',
        DecGraphicsChar::TopTee => '\u{252C}',
        DecGraphicsChar::VerticalLine => '\u{2502}',
        DecGraphicsChar::LessOrEqual => '\u{2264}',
        DecGraphicsChar::GreaterOrEqual => '\u{2265}',
        DecGraphicsChar::Pi => '\u{03C0}',
        DecGraphicsChar::NotEqual => '\u{2260}',
        DecGraphicsChar::Pound => '\u{00A3}',
        DecGraphicsChar::Bullet => '\u{00B7}',
    }
}

/// Helper for building strings that mix text and DEC graphics; it tracks the
/// active character set and emits the mode switches exactly where needed.
pub struct DecGraphicsBuilder {
    pub buffer: String,
    pub in_graphics_mode: bool,
}

/// The mode-switch characters emitted on entering graphics mode.
pub open spec fn enter_if_needed(in_mode: bool) -> Seq<char> {
    if in_mode {
        Seq::empty()
    } else {
        enter_seq()
    }
}

/// The mode-switch characters emitted on leaving graphics mode.
pub open spec fn exit_if_needed(in_mode: bool) -> Seq<char> {
    if in_mode {
        exit_seq()
    } else {
        Seq::empty()
    }
}

impl DecGraphicsBuilder {
    /// An empty builder in ASCII mode.
    pub fn new() -> (r: Self)
        ensures
            r.buffer@ == Seq::<char>::empty(),
            !r.in_graphics_mode,
    {
        DecGraphicsBuilder { buffer: String::new(), in_graphics_mode: false }
    }

    /// Enter DEC Special Graphics mode, if not already in it.
    pub fn enter_graphics(&mut self) -> (r: &mut Self)
        ensures
            r.buffer@ == old(self).buffer@ + enter_if_needed(old(self).in_graphics_mode),
            r.in_graphics_mode,
            *final(self) == *final(r),
    {
        if !self.in_graphics_mode {
            proof {
                reveal_strlit("\x1b(0");
                assert(ENTER_DEC_GRAPHICS@ =~= enter_seq());
            }
            self.buffer.append(ENTER_DEC_GRAPHICS);
            self.in_graphics_mode = true;
        }
        self
    }

    /// Return to ASCII mode, if in graphics mode.
    pub fn exit_graphics(&mut self) -> (r: &mut Self)
        ensures
            r.buffer@ == old(self).buffer@ + exit_if_needed(old(self).in_graphics_mode),
            !r.in_graphics_mode,
            *final(self) == *final(r),
    {
        if self.in_graphics_mode {
            proof {
                reveal_strlit("\x1b(B");
                assert(EXIT_DEC_GRAPHICS@ =~= exit_seq());
            }
            self.buffer.append(EXIT_DEC_GRAPHICS);
            self.in_graphics_mode = false;
        }
        self
    }

    /// Add one graphics character, entering graphics mode first if needed.
    pub fn graphic(&mut self, ch: DecGraphicsChar) -> (r: &mut Self)
        ensures
            r.buffer@ == old(self).buffer@ + enter_if_needed(old(self).in_graphics_mode) + seq![
                dec_char_of(ch),
            ],
            r.in_graphics_mode,
            *final(self) == *final(r),
    {
        self.enter_graphics();
        let c = ch.as_dec_char();
        self.buffer.push(c);
        self
    }

    /// Add several graphics characters, entering graphics mode first if
    /// needed.
    pub fn graphics(&mut self, chars: &[DecGraphicsChar]) -> (r: &mut Self)
        ensures
            r.buffer@ == old(self).buffer@ + enter_if_needed(old(self).in_graphics_mode)
                + chars@.map_values(|c: DecGraphicsChar| dec_char_of(c)),
            r.in_graphics_mode,
            *final(self) == *final(r),
    {
        self.enter_graphics();
        let ghost base = self.buffer@;
        let mut i: usize = 0;
        while i < chars.len()
            invariant
                i <= chars@.len(),
                self.in_graphics_mode,
                self.buffer@ == base + chars@.map_values(|c: DecGraphicsChar| dec_char_of(c)).take(
                    i as int,
                ),
            decreases chars@.len() - i,
        {
            let c = chars[i].as_dec_char();
            self.buffer.push(c);
            proof {
                let m = chars@.map_values(|c: DecGraphicsChar| dec_char_of(c));
                assert(m.take(i as int).push(m[i as int]) =~= m.take(i as int + 1));
                assert(self.buffer@ =~= base + m.take(i as int + 1));
            }
            i += 1;
        }
        proof {
            let m = chars@.map_values(|c: DecGraphicsChar| dec_char_of(c));
            assert(m.take(chars@.len() as int) =~= m);
        }
        self
    }

    /// Add one graphics character `count` times, entering graphics mode
    /// first if needed.
    pub fn repeat_graphic(&mut self, ch: DecGraphicsChar, count: usize) -> (r: &mut Self)
        ensures
            r.buffer@ == old(self).buffer@ + enter_if_needed(old(self).in_graphics_mode)
                + Seq::new(count as nat, |i: int| dec_char_of(ch)),
            r.in_graphics_mode,
            *final(self) == *final(r),
    {
        self.enter_graphics();
        let ghost base = self.buffer@;
        let c = ch.as_dec_char();
        let mut i: usize = 0;
        while i < count
            invariant
                i <= count,
                self.in_graphics_mode,
                c == dec_char_of(ch),
                self.buffer@ == base + Seq::new(i as nat, |k: int| dec_char_of(ch)),
            decreases count - i,
        {
            self.buffer.push(c);
            proof {
                assert(Seq::new(i as nat, |k: int| dec_char_of(ch)).push(dec_char_of(ch))
                    =~= Seq::new((i + 1) as nat, |k: int| dec_char_of(ch)));
                assert(self.buffer@ =~= base + Seq::new((i + 1) as nat, |k: int| dec_char_of(ch)));
            }
            i += 1;
        }
        self
    }

    /// Add plain text, leaving graphics mode first if needed.
    pub fn text(&mut self, s: &str) -> (r: &mut Self)
        ensures
            r.buffer@ == old(self).buffer@ + exit_if_needed(old(self).in_graphics_mode) + s@,
            !r.in_graphics_mode,
            *final(self) == *final(r),
    {
        self.exit_graphics();
        self.buffer.append(s);
        self
    }

    /// Finish building; the result always ends back in ASCII mode.
    pub fn build(self) -> (r: String)
        ensures
            r@ == self.buffer@ + exit_if_needed(self.in_graphics_mode),
    {
        let mut this = self;
        this.exit_graphics();
        this.buffer
    }
}

/// A horizontal line of `width` box-drawing characters, bracketed by the
/// mode switches.
pub fn horizontal_line(width: usize) -> (r: String)
    ensures
        r@ == enter_seq() + Seq::new(width as nat, |i: int| dec_char_of(
            DecGraphicsChar::HorizontalLine,
        )) + exit_seq(),
{
    let mut builder = DecGraphicsBuilder::new();
    builder.repeat_graphic(DecGraphicsChar::HorizontalLine, width);
    let r = builder.build();
    proof {
        assert(r@ =~= enter_seq() + Seq::new(width as nat, |i: int| dec_char_of(
            DecGraphicsChar::HorizontalLine,
        )) + exit_seq());
    }
    r
}

/// One vertical-line character, bracketed by the mode switches.
pub fn vertical_line_char() -> (r: String)
    ensures
        r@ == enter_seq() + seq![dec_char_of(DecGraphicsChar::VerticalLine)] + exit_seq(),
{
    let mut builder = DecGraphicsBuilder::new();
    builder.graphic(DecGraphicsChar::VerticalLine);
    let r = builder.build();
    proof {
        assert(r@ =~= enter_seq() + seq![dec_char_of(DecGraphicsChar::VerticalLine)] + exit_seq());
    }
    r
}

/// A box frame drawn with corner, line and vertical characters. The output
/// opens by entering graphics mode at the upper left corner and ends back in
/// ASCII mode after the lower right corner.
pub fn draw_box(width: usize, height: usize) -> (r: String)
    ensures
        r@.len() >= 6,
        r@.subrange(0, 3) == enter_seq(),
        r@.subrange(r@.len() - 3, r@.len() as int) == exit_seq(),
{
    let mut builder = DecGraphicsBuilder::new();
    builder.graphic(DecGraphicsChar::UpperLeftCorner);
    builder.repeat_graphic(
        DecGraphicsChar::HorizontalLine,
        if width >= 2 {
            width - 2
        } else {
            0
        },
    );
    builder.graphic(DecGraphicsChar::UpperRightCorner);
    builder.text("\r\n");
    let inner_rows = if height >= 2 {
        height - 2
    } else {
        0
    };
    let inner_cols = if width >= 2 {
        width - 2
    } else {
        0
    };
    let mut row: usize = 0;
    while row < inner_rows
        invariant
            !builder.in_graphics_mode,
            builder.buffer@.len() >= 4,
            builder.buffer@.subrange(0, 3) == enter_seq(),
        decreases inner_rows - row,
    {
        builder.graphic(DecGraphicsChar::VerticalLine);
        builder.exit_graphics();
        let mut col: usize = 0;
        while col < inner_cols
            invariant
                !builder.in_graphics_mode,
                builder.buffer@.len() >= 4,
                builder.buffer@.subrange(0, 3) == enter_seq(),
            decreases inner_cols - col,
        {
            builder.buffer.push(' ');
            proof {
                assert(builder.buffer@.subrange(0, 3) =~= enter_seq());
            }
            col += 1;
        }
        builder.graphic(DecGraphicsChar::VerticalLine);
        builder.text("\r\n");
        proof {
            assert(builder.buffer@.subrange(0, 3) =~= enter_seq());
        }
        row += 1;
    }
    builder.graphic(DecGraphicsChar::LowerLeftCorner);
    builder.repeat_graphic(
        DecGraphicsChar::HorizontalLine,
        if width >= 2 {
            width - 2
        } else {
            0
        },
    );
    let ghost before_last = builder.buffer@;
    builder.graphic(DecGraphicsChar::LowerRightCorner);
    let r = builder.build();
    proof {
        assert(r@.subrange(0, 3) =~= builder.buffer@.subrange(0, 3));
        assert(r@.subrange(r@.len() - 3, r@.len() as int) =~= exit_seq());
    }
    r
}

} // verus!
