//! Sixel bitmap graphics for VT340-class terminals.
//!
//! Sixel data encodes vertical strips of six pixels; each character carries
//! one six-bit column for the selected color, offset by 63. A grayscale
//! image becomes a palette definition followed by per-band, per-color
//! columns, optionally run-length encoded.

use vstd::prelude::*;

use crate::util::{dec_digits, push_decimal};

verus! {

/// Device control string introducer for sixel.
pub const DCS: &'static str = "\x1bP";

/// String terminator.
pub const ST: &'static str = "\x1b\\";

/// The characters of the sixel introducer.
pub open spec fn dcs_seq() -> Seq<char> {
    seq!['\x1b', 'P']
}

/// The characters of the string terminator.
pub open spec fn st_seq() -> Seq<char> {
    seq!['\x1b', '\\']
}

/// Configuration for sixel encoding.
#[derive(Debug, Clone)]
pub struct SixelConfig {
    /// Number of grayscale levels
    pub gray_levels: u8,
    /// Whether to run-length encode repeated columns
    pub use_rle: bool,
}

impl Default for SixelConfig {
    /// Eight shades with run-length encoding: a good balance for slow links.
    fn default() -> (r: Self)
        ensures
            r.gray_levels == 8,
            r.use_rle,
    {
        SixelConfig { gray_levels: 8, use_rle: true }
    }
}

/// The characters of a run of `count` copies of one column character: short
/// runs written out, longer ones in the `!<count><char>` form.
pub open spec fn run_chars(ch: char, count: u32) -> Seq<char> {
    if count == 0 {
        Seq::empty()
    } else if count == 1 {
        seq![ch]
    } else if count == 2 {
        seq![ch, ch]
    } else if count == 3 {
        seq![ch, ch, ch]
    } else {
        seq!['!'] + dec_digits(count as int) + seq![ch]
    }
}

/// Encode a run of identical column characters.
pub fn encode_run(ch: char, count: u32) -> (r: String)
    ensures
        r@ == run_chars(ch, count),
{
    let mut out = String::new();
    if count == 0 {
    } else if count == 1 {
        out.push(ch);
    } else if count == 2 {
        out.push(ch);
        out.push(ch);
    } else if count == 3 {
        out.push(ch);
        out.push(ch);
        out.push(ch);
    } else {
        out.push('!');
        push_decimal(&mut out, count as u64);
        out.push(ch);
    }
    proof {
        assert(out@ =~= run_chars(ch, count));
    }
    out
}

/// The palette slot of a pixel value under `levels` grayscale levels.
pub open spec fn pixel_level(pixel: u8, levels: u8) -> int {
    pixel * (levels - 1) / 255
}

/// Encode a grayscale pixel buffer as one complete sixel sequence, from the
/// introducer through the palette, the pixel bands, and the terminator; an
/// image with no pixels encodes to nothing.
#[verifier::loop_isolation(false)]
pub fn encode_grayscale(width: u32, height: u32, pixels: &Vec<u8>, config: &SixelConfig) -> (r:
    String)
    requires
        config.gray_levels >= 2,
        width <= 0xFFFF,
        height <= 0xFFFF,
        pixels@.len() == width * height,
    ensures
        width == 0 || height == 0 ==> r@.len() == 0,
        width > 0 && height > 0 ==> r@.len() >= 4 && r@.subrange(0, 2) == dcs_seq()
            && r@.subrange(r@.len() - 2, r@.len() as int) == st_seq(),
{
    if width == 0 || height == 0 {
        return String::new();
    }
    let levels = config.gray_levels;
    let total = pixels.len();
    proof {
        assert(total == pixels@.len());
    }

    let mut output = String::new();
    output.append(DCS);
    proof {
        reveal_strlit("\x1bP");
        assert(output@ =~= dcs_seq());
    }

    let mut body = String::new();
    body.append("0;0;0q");
    body.push('"');
    body.append("1;1;");
    push_decimal(&mut body, width as u64);
    body.push(';');
    push_decimal(&mut body, height as u64);

    // grayscale palette: hue and saturation zero, lightness spread over the
    // levels
    let mut li: u8 = 0;
    while li < levels
        decreases levels - li,
    {
        let lightness = (li as u32) * 100 / ((levels - 1) as u32);
        body.push('#');
        push_decimal(&mut body, li as u64);
        body.append(";2;0;");
        push_decimal(&mut body, lightness as u64);
        body.append(";0");
        li += 1;
    }

    let num_bands = (((height as u64) + 5) / 6) as u32;
    let mut band: u32 = 0;
    while band < num_bands
        invariant
            num_bands == (height + 5) as int / 6,
            width >= 1,
            height >= 1,
            levels >= 2,
            pixels@.len() == width * height,
        decreases num_bands - band,
    {
        proof {
            assert(band * 6 <= height + 5) by (nonlinear_arith)
                requires
                    band < (height + 5) as int / 6,
            ;
        }
        let y_start = band * 6;

        // which palette slots appear in this band
        let mut colors_used: Vec<bool> = Vec::new();
        let mut ci: usize = 0;
        while ci < levels as usize
            invariant
                ci <= levels as usize,
                colors_used@.len() == ci,
            decreases levels as usize - ci,
        {
            colors_used.push(false);
            ci += 1;
        }
        let mut x: u32 = 0;
        while x < width
            invariant
                colors_used@.len() == levels as int,
                width >= 1,
                height >= 1,
                levels >= 2,
                pixels@.len() == width * height,
                y_start == band * 6,
                y_start <= height + 5,
            decreases width - x,
        {
            let mut bit: u32 = 0;
            while bit < 6
                invariant
                    colors_used@.len() == levels as int,
                    width >= 1,
                    height >= 1,
                    levels >= 2,
                    pixels@.len() == width * height,
                    x < width,
                decreases 6 - bit,
            {
                let y = y_start + bit;
                if y < height {
                    proof {
                        assert(y * width + x < height * width) by (nonlinear_arith)
                            requires
                                y < height,
                                x < width,
                        ;
                        assert(y * width + x < pixels@.len()) by (nonlinear_arith)
                            requires
                                y * width + x < height * width,
                                pixels@.len() == width * height,
                        ;
                        assert(pixels@.len() <= usize::MAX);
                    }
                    let pixel = pixels[(y as usize) * (width as usize) + (x as usize)];
                    let level = pixel_to_level(pixel, levels);
                    colors_used[level as usize] = true;
                }
                bit += 1;
            }
            x += 1;
        }

        // emit the used colors' columns
        let mut first_color_in_band = true;
        let mut color: u8 = 0;
        while color < levels
            invariant
                colors_used@.len() == levels as int,
                width >= 1,
                height >= 1,
                levels >= 2,
                pixels@.len() == width * height,
                y_start == band * 6,
                y_start <= height + 5,
            decreases levels - color,
        {
            if colors_used[color as usize] {
                if !first_color_in_band {
                    body.push('$');
                }
                first_color_in_band = false;
                body.push('#');
                push_decimal(&mut body, color as u64);

                let mut run_char: Option<char> = None;
                let mut run_length: u32 = 0;
                let mut x2: u32 = 0;
                while x2 < width
                    invariant
                        colors_used@.len() == levels as int,
                        width >= 1,
                        height >= 1,
                        levels >= 2,
                        pixels@.len() == width * height,
                        y_start == band * 6,
                        y_start <= height + 5,
                        color < levels,
                        run_length <= x2,
                    decreases width - x2,
                {
                    let mut sixel_value: u8 = 0;
                    let mut bit2: u32 = 0;
                    while bit2 < 6
                        invariant
                            colors_used@.len() == levels as int,
                            width >= 1,
                            height >= 1,
                            levels >= 2,
                            pixels@.len() == width * height,
                            y_start == band * 6,
                            y_start <= height + 5,
                            color < levels,
                            x2 < width,
                            sixel_value <= 63,
                        decreases 6 - bit2,
                    {
                        let y = y_start + bit2;
                        if y < height {
                            proof {
                                assert(y * width + x2 < height * width) by (nonlinear_arith)
                                    requires
                                        y < height,
                                        x2 < width,
                                ;
                                assert(y * width + x2 < pixels@.len()) by (nonlinear_arith)
                                    requires
                                        y * width + x2 < height * width,
                                        pixels@.len() == width * height,
                                ;
                                assert(pixels@.len() <= usize::MAX);
                            }
                            let pixel = pixels[(y as usize) * (width as usize) + (x2 as usize)];
                            let level = pixel_to_level(pixel, levels);
                            if level == color {
                                let mask: u8 = if bit2 == 0 {
                                    1
                                } else if bit2 == 1 {
                                    2
                                } else if bit2 == 2 {
                                    4
                                } else if bit2 == 3 {
                                    8
                                } else if bit2 == 4 {
                                    16
                                } else {
                                    32
                                };
                                let combined = sixel_value | mask;
                                proof {
                                    let sv = sixel_value;
                                    let m = mask;
                                    assert(sv <= 63 && m <= 32 ==> (sv | m) <= 63)
                                        by (bit_vector);
                                }
                                sixel_value = combined;
                            }
                        }
                        bit2 += 1;
                    }
                    let capped = sixel_value;
                    let sixel_char = char_from_sixel(capped);
                    if config.use_rle {
                        let same = match run_char {
                            Some(rc) => rc == sixel_char,
                            None => false,
                        };
                        if same {
                            run_length += 1;
                        } else {
                            match run_char {
                                Some(rc) => {
                                    let run = encode_run(rc, run_length);
                                    body.append(run.as_str());
                                }
                                None => {}
                            }
                            run_char = Some(sixel_char);
                            run_length = 1;
                        }
                    } else {
                        body.push(sixel_char);
                    }
                    x2 += 1;
                }
                if config.use_rle {
                    match run_char {
                        Some(rc) => {
                            let run = encode_run(rc, run_length);
                            body.append(run.as_str());
                        }
                        None => {}
                    }
                }
            }
            color += 1;
        }
        if band + 1 < num_bands {
            body.push('-');
        }
        band += 1;
    }

    output.append(body.as_str());
    output.append(ST);
    proof {
        reveal_strlit("\x1b\\");
        assert(output@.subrange(0, 2) =~= dcs_seq());
        assert(output@.subrange(output@.len() - 2, output@.len() as int) =~= st_seq());
    }
    output
}

/// The palette slot a pixel value falls into, always below the level count.
fn pixel_to_level(pixel: u8, levels: u8) -> (r: u8)
    requires
        levels >= 2,
    ensures
        r as int == pixel_level(pixel, levels),
        r < levels,
{
    proof {
        assert((pixel as int) * ((levels - 1) as int) <= 255 * 255) by (nonlinear_arith)
            requires
                pixel <= 255,
                levels - 1 <= 255,
        ;
    }
    let prod = (pixel as u16) * ((levels - 1) as u16);
    let q = prod / 255;
    proof {
        assert((pixel as int) * ((levels - 1) as int) / 255 < levels) by (nonlinear_arith)
            requires
                pixel <= 255,
                levels >= 2,
        ;
    }
    q as u8
}

/// The sixel column character for a six-bit value: the value offset by 63.
fn char_from_sixel(v: u8) -> (r: char)
    requires
        v <= 63,
{
    let code = v + 63;
    proof {
        assert(code <= 126);
    }
    code as char
}

} // verus!
