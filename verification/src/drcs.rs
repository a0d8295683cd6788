//! Dynamically Redefinable Character Set (soft font) support for VT220.
//!
//! Custom shading glyphs are down-line loaded into the G1 set; Shift Out and
//! Shift In switch between them and plain ASCII.

use vstd::prelude::*;

verus! {

/// Sequence that designates the loaded soft font as G1.
pub const DESIGNATE_DRCS_G1: &'static str = "\x1b) <";

/// Shift Out: invoke G1 into GL.
pub const SHIFT_OUT: &'static str = "\x0E";

/// Shift In: invoke G0 into GL.
pub const SHIFT_IN: &'static str = "\x0F";

/// The characters of the down-line-load sequence: the DECDLD header naming
/// the set, four glyph definitions from light shade to full block, the
/// string terminator, and the G1 designation.
pub open spec fn drcs_load_sequence_chars() -> Seq<char> {
    "\x1bP1;1;1;0;0;1;0;0{ <"@ + "!hhhhhhhh/BBBBBBBB;"@ + "\"oooooooo/FFFFFFFF;"@
        + "#vvvvvvvv/JJJJJJJJ;"@ + "$~~~~~~~~/NNNNNNNN;"@ + "\x1b\\"@ + "\x1b) <"@
}

/// The DECDLD sequence that loads four shading glyphs, light to full, at
/// codes 0x21 through 0x24, and maps the set to G1.
pub fn get_drcs_load_sequence() -> (r: String)
    ensures
        r@ == drcs_load_sequence_chars(),
{
    let mut seq_out = String::new();
    seq_out.append("\x1bP1;1;1;0;0;1;0;0{ <");
    seq_out.append("!hhhhhhhh/BBBBBBBB;");
    seq_out.append("\"oooooooo/FFFFFFFF;");
    seq_out.append("#vvvvvvvv/JJJJJJJJ;");
    seq_out.append("$~~~~~~~~/NNNNNNNN;");
    seq_out.append("\x1b\\");
    seq_out.append("\x1b) <");
    proof {
        assert(seq_out@ =~= drcs_load_sequence_chars());
    }
    seq_out
}

/// The glyph for a brightness level when the soft font is loaded: space,
/// then the four shading glyphs at 0x21 through 0x24, darkest last.
pub fn brightness_to_drcs_char(brightness: u8) -> (r: char)
    ensures
        brightness <= 50 ==> r == ' ',
        51 <= brightness <= 100 ==> r == '!',
        101 <= brightness <= 150 ==> r == '"',
        151 <= brightness <= 200 ==> r == '#',
        201 <= brightness ==> r == '$',
{
    if brightness <= 50 {
        ' '
    } else if brightness <= 100 {
        '!'
    } else if brightness <= 150 {
        '"'
    } else if brightness <= 200 {
        '#'
    } else {
        '$'
    }
}

} // verus!
