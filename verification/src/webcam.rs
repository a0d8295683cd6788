//! Webcam rendering choices and frame payloads.
//!
//! Capture itself happens outside this core; what lives here is the choice
//! of rendering mode, the brightness-to-glyph tables, the parsing of a
//! camera device path, and the raw frame payload the transport carries.

use vstd::prelude::*;
use vstd::string::StrSliceExecFns;

use crate::util::str_eq;

verus! {

/// Rendering mode for webcam output.
#[derive(Debug, Clone, Copy, PartialEq, Eq, Structural)]
pub enum RenderMode {
    /// Pure ASCII characters
    Ascii,
    /// Soft-font shading glyphs
    Drcs,
    /// Sixel bitmap graphics with a number of gray shades
    Sixel { shades: u8 },
}

/// A number clamped into a closed interval.
pub open spec fn clamped(x: u8, lo: u8, hi: u8) -> u8 {
    if x < lo {
        lo
    } else if x > hi {
        hi
    } else {
        x
    }
}

impl RenderMode {
    /// The rendering mode for a terminal model: bitmap graphics with the
    /// configured shade count (held between 2 and 64) on a VT340, soft-font
    /// shading on a VT220, plain ASCII otherwise.
    pub fn from_terminal_mode(mode: &str, sixel_shades: u8) -> (r: Self)
        ensures
            mode@ == "vt340"@ ==> r == (RenderMode::Sixel { shades: clamped(sixel_shades, 2, 64) }),
            mode@ != "vt340"@ && mode@ == "vt220"@ ==> r == RenderMode::Drcs,
            mode@ != "vt340"@ && mode@ != "vt220"@ ==> r == RenderMode::Ascii,
    {
        if str_eq(mode, "vt340") {
            let shades = if sixel_shades < 2 {
                2
            } else if sixel_shades > 64 {
                64
            } else {
                sixel_shades
            };
            RenderMode::Sixel { shades }
        } else if str_eq(mode, "vt220") {
            RenderMode::Drcs
        } else {
            RenderMode::Ascii
        }
    }
}

/// Raw grayscale frame data for network transmission: pre-processed pixels
/// ready to compress and send.
#[derive(Debug, Clone)]
pub struct RawFrame {
    pub width: u16,
    pub height: u16,
    pub pixels: Vec<u8>,
}

/// Webcam configuration and device errors.
#[derive(Debug, Clone)]
pub enum WebcamError {
    /// No webcam is configured
    NotConfigured,
    /// The device path names no usable camera
    InvalidDevice(String),
}

/// The glyph and character set for a brightness level on the mixed
/// ASCII-and-graphics ramp; the flag says the glyph is a DEC graphics one.
pub fn brightness_to_enhanced_char(brightness: u8) -> (r: (char, bool))
    ensures
        brightness <= 40 ==> r == (' ', false),
        41 <= brightness <= 70 ==> r == ('\x7e', true),
        71 <= brightness <= 100 ==> r == ('.', false),
        101 <= brightness <= 130 ==> r == (':', false),
        131 <= brightness <= 160 ==> r == ('+', false),
        161 <= brightness <= 190 ==> r == ('\x61', true),
        191 <= brightness <= 220 ==> r == ('#', false),
        221 <= brightness ==> r == ('@', false),
{
    if brightness <= 40 {
        (' ', false)
    } else if brightness <= 70 {
        let c = crate::dec_graphics::DecGraphicsChar::Bullet.as_dec_char();
        (c, true)
    } else if brightness <= 100 {
        ('.', false)
    } else if brightness <= 130 {
        (':', false)
    } else if brightness <= 160 {
        ('+', false)
    } else if brightness <= 190 {
        let c = crate::dec_graphics::DecGraphicsChar::Checkerboard.as_dec_char();
        (c, true)
    } else if brightness <= 220 {
        ('#', false)
    } else {
        ('@', false)
    }
}

/// The ASCII density ramp, light to dark.
pub open spec fn ascii_ramp() -> Seq<char> {
    seq![' ', '.', ':', '-', '=', '+', '*', '#', '%', '@']
}

/// The density-ramp character for a brightness level, with bright mapping to
/// light characters.
pub fn brightness_to_char(brightness: u8) -> (r: char)
    ensures
        r == ascii_ramp()[(255 - brightness) * 9 / 255],
{
    let inverted: u16 = 255 - (brightness as u16);
    let index = (inverted * 9 / 255) as usize;
    proof {
        assert(inverted * 9 / 255 <= 9) by (nonlinear_arith)
            requires
                inverted <= 255,
        ;
    }
    let c = if index == 0 {
        ' '
    } else if index == 1 {
        '.'
    } else if index == 2 {
        ':'
    } else if index == 3 {
        '-'
    } else if index == 4 {
        '='
    } else if index == 5 {
        '+'
    } else if index == 6 {
        '*'
    } else if index == 7 {
        '#'
    } else if index == 8 {
        '%'
    } else {
        '@'
    };
    c
}

/// The value of one decimal digit character, or nothing for any other
/// character.
pub open spec fn digit_value(c: char) -> Option<int> {
    if c == '0' {
        Some(0int)
    } else if c == '1' {
        Some(1int)
    } else if c == '2' {
        Some(2int)
    } else if c == '3' {
        Some(3int)
    } else if c == '4' {
        Some(4int)
    } else if c == '5' {
        Some(5int)
    } else if c == '6' {
        Some(6int)
    } else if c == '7' {
        Some(7int)
    } else if c == '8' {
        Some(8int)
    } else if c == '9' {
        Some(9int)
    } else {
        None
    }
}

/// The number a string of decimal digits denotes; nothing for an empty
/// string or one holding any non-digit.
pub open spec fn parse_decimal(s: Seq<char>) -> Option<int> {
    if s.len() == 0 {
        None
    } else {
        parse_decimal_rec(s, 0)
    }
}

/// Fold the digits of `s` onto `acc`, left to right.
pub open spec fn parse_decimal_rec(s: Seq<char>, acc: int) -> Option<int>
    decreases s.len(),
{
    if s.len() == 0 {
        Some(acc)
    } else {
        match digit_value(s[0]) {
            Some(d) => parse_decimal_rec(s.drop_first(), acc * 10 + d),
            None => None,
        }
    }
}

/// The characters of the camera device path prefix.
pub open spec fn device_prefix() -> Seq<char> {
    seq!['/', 'd', 'e', 'v', '/', 'v', 'i', 'd', 'e', 'o']
}

/// Parse a camera device path: the index after a `/dev/video` prefix, or the
/// whole string as a raw number; anything else is an invalid device.
#[verifier::loop_isolation(false)]
pub fn parse_device_index(device: &str) -> (r: Result<u32, WebcamError>)
    ensures
        ({
            let digits = if device@.len() >= 10 && device@.subrange(0, 10) == device_prefix() {
                device@.skip(10)
            } else {
                device@
            };
            match r {
                Ok(n) => parse_decimal(digits) == Some(n as int),
                Err(e) => (match parse_decimal(digits) {
                    Some(v) => v > u32::MAX,
                    None => true,
                }) && e is InvalidDevice,
            }
        }),
{
    let n = device.unicode_len();
    let has_prefix = n >= 10 && device.get_char(0) == '/' && device.get_char(1) == 'd'
        && device.get_char(2) == 'e' && device.get_char(3) == 'v' && device.get_char(4) == '/'
        && device.get_char(5) == 'v' && device.get_char(6) == 'i' && device.get_char(7) == 'd'
        && device.get_char(8) == 'e' && device.get_char(9) == 'o';
    proof {
        if n >= 10 {
            if has_prefix {
                assert(device@.subrange(0, 10) =~= device_prefix());
            } else {
                assert(device@.subrange(0, 10) != device_prefix());
            }
        }
    }
    let start: usize = if has_prefix {
        10
    } else {
        0
    };
    let ghost digits = device@.skip(start as int);
    proof {
        if start == 0 {
            assert(digits =~= device@);
        }
    }
    if start == n {
        return Err(WebcamError::InvalidDevice(device.to_owned()));
    }
    let mut acc: u64 = 0;
    let mut i: usize = start;
    while i < n
        invariant
            start <= i <= n,
            n == device@.len(),
            start < n,
            digits == device@.skip(start as int),
            acc <= u32::MAX,
            parse_decimal_rec(digits, 0) == parse_decimal_rec(
                device@.skip(i as int),
                acc as int,
            ),
        decreases n - i,
    {
        let c = device.get_char(i);
        proof {
            assert(device@.skip(i as int)[0] == c);
            assert(device@.skip(i as int).drop_first() =~= device@.skip(i as int + 1));
        }
        let d: u64 = if c == '0' {
            0
        } else if c == '1' {
            1
        } else if c == '2' {
            2
        } else if c == '3' {
            3
        } else if c == '4' {
            4
        } else if c == '5' {
            5
        } else if c == '6' {
            6
        } else if c == '7' {
            7
        } else if c == '8' {
            8
        } else if c == '9' {
            9
        } else {
            return Err(WebcamError::InvalidDevice(device.to_owned()));
        };
        acc = acc * 10 + d;
        if acc > u32::MAX as u64 {
            proof {
                lemma_parse_decimal_rec_monotone(device@.skip(i as int + 1), acc as int);
            }
            return Err(WebcamError::InvalidDevice(device.to_owned()));
        }
        i += 1;
    }
    proof {
        assert(device@.skip(n as int) =~= Seq::<char>::empty());
    }
    Ok(acc as u32)
}

/// Folding more digits onto an accumulator never shrinks the value.
proof fn lemma_parse_decimal_rec_monotone(s: Seq<char>, acc: int)
    requires
        acc >= 0,
    ensures
        parse_decimal_rec(s, acc) matches Some(v) ==> v >= acc,
    decreases s.len(),
{
    if s.len() > 0 {
        match digit_value(s[0]) {
            Some(d) => {
                lemma_parse_decimal_rec_monotone(s.drop_first(), acc * 10 + d);
            }
            None => {}
        }
    }
}

} // verus!
