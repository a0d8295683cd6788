//! Stream and video frame rendering for the call display area.

use vstd::prelude::*;
use vstd::string::StrSliceExecFns;

use crate::cell::{parse_row_chars, render_frame_diff, Cell, CharMode, Frame};
use crate::terminal::{cursor_to, CALL_REGION_END, CALL_VISIBLE_LINES, CHAT_REGION_START};

verus! {

/// Content that is sixel bitmap data: a single line opening with the device
/// control string introducer.
pub open spec fn sixel_content(lines: Seq<Seq<char>>) -> bool {
    lines.len() == 1 && lines[0].len() >= 2 && lines[0][0] == '\x1b' && lines[0][1] == 'P'
}

/// Whether the content lines carry sixel bitmap data.
pub fn is_sixel_data(lines: &Vec<String>) -> (r: bool)
    ensures
        r == sixel_content(lines@.map_values(|s: String| s@)),
{
    let ghost m = lines@.map_values(|s: String| s@);
    if lines.len() != 1 {
        return false;
    }
    let first = &lines[0];
    let n = first.as_str().unicode_len();
    if n < 2 {
        return false;
    }
    let c0 = first.as_str().get_char(0);
    let c1 = first.as_str().get_char(1);
    proof {
        assert(m[0] == lines@[0]@);
    }
    c0 == '\x1b' && c1 == 'P'
}

/// Two grids holding the same cells.
pub open spec fn grids_eq(a: Seq<Seq<Cell>>, b: Seq<Seq<Cell>>) -> bool {
    a.len() == b.len() && forall|i: int| 0 <= i < a.len() ==> a[i] == #[trigger] b[i]
}

/// Compare two frames cell by cell.
#[verifier::loop_isolation(false)]
fn frames_equal(a: &Frame, b: &Frame) -> (r: bool)
    ensures
        r == grids_eq(a.grid(), b.grid()),
{
    if a.rows.len() != b.rows.len() {
        return false;
    }
    let mut i: usize = 0;
    while i < a.rows.len()
        invariant
            i <= a.rows@.len(),
            a.rows@.len() == b.rows@.len(),
            forall|k: int| 0 <= k < i ==> a.grid()[k] == #[trigger] b.grid()[k],
        decreases a.rows@.len() - i,
    {
        if a.rows[i].len() != b.rows[i].len() {
            proof {
                assert(a.grid()[i as int].len() != b.grid()[i as int].len());
            }
            return false;
        }
        let mut j: usize = 0;
        while j < a.rows[i].len()
            invariant
                i < a.rows@.len(),
                a.rows@.len() == b.rows@.len(),
                j <= a.rows@[i as int]@.len(),
                a.rows@[i as int]@.len() == b.rows@[i as int]@.len(),
                forall|q: int| 0 <= q < j ==> a.rows@[i as int]@[q] == b.rows@[i as int]@[q],
            decreases a.rows@[i as int]@.len() - j,
        {
            let ca = a.rows[i][j];
            let cb = b.rows[i][j];
            if !(ca.ch == cb.ch && (match (ca.mode, cb.mode) {
                (CharMode::Ascii, CharMode::Ascii) => true,
                (CharMode::DecGraphics, CharMode::DecGraphics) => true,
                _ => false,
            })) {
                proof {
                    assert(a.grid()[i as int][j as int] != b.grid()[i as int][j as int]);
                }
                return false;
            }
            j += 1;
        }
        proof {
            assert(a.grid()[i as int] =~= b.grid()[i as int]);
        }
        i += 1;
    }
    true
}

/// A copy of the frame's first `keep` rows.
#[verifier::loop_isolation(false)]
fn truncate_frame(f: &Frame, keep: usize) -> (r: Frame)
    ensures
        r.grid().len() == if keep <= f.grid().len() {
            keep as int
        } else {
            f.grid().len() as int
        },
        forall|i: int| 0 <= i < r.grid().len() ==> #[trigger] r.grid()[i] == f.grid()[i],
{
    let n = if keep <= f.rows.len() {
        keep
    } else {
        f.rows.len()
    };
    let mut rows: Vec<Vec<Cell>> = Vec::new();
    let mut i: usize = 0;
    while i < n
        invariant
            i <= n,
            n <= f.rows@.len(),
            rows@.len() == i,
            forall|k: int|
                0 <= k < i ==> (#[trigger] rows@[k])@ == f.grid()[k],
        decreases n - i,
    {
        let src = &f.rows[i];
        let mut row: Vec<Cell> = Vec::new();
        let mut j: usize = 0;
        while j < src.len()
            invariant
                j <= src@.len(),
                row@ == src@.take(j as int),
            decreases src@.len() - j,
        {
            row.push(src[j]);
            proof {
                assert(row@ =~= src@.take(j as int + 1));
            }
            j += 1;
        }
        proof {
            assert(src@.take(src@.len() as int) =~= src@);
        }
        rows.push(row);
        i += 1;
    }
    Frame { rows }
}

/// Diff-render a frame but stay above `max_row`: a frame too tall for the
/// region is cut to the rows that fit before diffing.
pub fn render_frame_diff_limited(
    current: &Frame,
    prev: Option<&Frame>,
    start_row: usize,
    start_col: usize,
    max_row: usize,
) -> (r: String)
{
    let visible_rows = if max_row >= start_row {
        max_row - start_row
    } else {
        0
    };
    if current.rows.len() <= visible_rows {
        render_frame_diff(current, prev, start_row, start_col)
    } else {
        let truncated = truncate_frame(current, visible_rows);
        match prev {
            Some(p) => {
                let pt = truncate_frame(p, visible_rows);
                render_frame_diff(&truncated, Some(&pt), start_row, start_col)
            }
            None => render_frame_diff(&truncated, None, start_row, start_col),
        }
    }
}

/// A marker frame standing in for sixel content, so that two identical sixel
/// payloads compare equal without parsing the bitmap: a single row holding
/// the introducer, a sample of the data, and its length.
#[verifier::loop_isolation(false)]
fn create_sixel_marker_frame(sixel_data: &str) -> (r: Frame)
    ensures
        r.grid().len() == 1,
{
    let len = sixel_data.unicode_len();
    let sample_size = if 8 <= len {
        8
    } else {
        len
    };
    let mut cells: Vec<Cell> = Vec::new();
    cells.push(Cell::ascii('\x1b'));
    cells.push(Cell::ascii('P'));
    if len > 0 {
        let step = if sample_size >= 1 {
            len / sample_size
        } else {
            1
        };
        let mut i: usize = 0;
        while i < sample_size
            invariant
                len == sixel_data@.len(),
                len > 0,
            decreases sample_size - i,
        {
            let idx = if step >= 1 && i <= (len - 1) / step {
                proof {
                    assert(i * step <= len - 1) by (nonlinear_arith)
                        requires
                            step >= 1,
                            i <= (len - 1) as int / step as int,
                            len >= 1,
                    ;
                }
                i * step
            } else {
                len - 1
            };
            let ch = sixel_data.get_char(idx);
            cells.push(Cell::ascii(ch));
            i += 1;
        }
    }
    let digits = crate::util::decimal_string(len as u64);
    let dn = digits.as_str().unicode_len();
    let mut d: usize = 0;
    while d < dn
        invariant
            dn == digits@.len(),
        decreases dn - d,
    {
        let ch = digits.as_str().get_char(d);
        cells.push(Cell::ascii(ch));
        d += 1;
    }
    let mut rows: Vec<Vec<Cell>> = Vec::new();
    rows.push(cells);
    let f = Frame { rows };
    proof {
        assert(f.grid().len() == 1);
    }
    f
}

/// Render sixel bitmap content: unchanged content renders nothing, changed
/// content is re-emitted at the top left of the display area, and the marker
/// frame for the new content comes back for the next comparison.
fn render_sixel_stream(sixel_data: &str, prev_frame: Option<&Frame>) -> (r: (String, Frame))
    ensures
        r.1.grid().len() == 1,
{
    let marker = create_sixel_marker_frame(sixel_data);
    let unchanged = match prev_frame {
        Some(p) => frames_equal(p, &marker),
        None => false,
    };
    if unchanged {
        return (String::new(), marker);
    }
    let mut output = cursor_to(CHAT_REGION_START, 2);
    output.append(sixel_data);
    (output, marker)
}

/// Render one stream frame into the display area with cell-based diffing.
///
/// Sixel content bypasses the cell grid and is positioned as a bitmap block.
/// Text content is parsed into cells, centered in the call area, and diffed
/// against the previous frame when the dimensions match; the parsed frame
/// comes back for the next round.
pub fn render_stream(
    sender: &str,
    lines: &Vec<String>,
    prev_frame: Option<&Frame>,
    width: usize,
) -> (r: (String, Frame))
    ensures
        !sixel_content(lines@.map_values(|s: String| s@)) ==> {
            &&& r.1.grid().len() == lines@.len()
            &&& forall|i: int|
                0 <= i < lines@.len() ==> #[trigger] r.1.grid()[i] == parse_row_chars(
                    lines@[i]@,
                    CharMode::Ascii,
                )
        },
{
    if is_sixel_data(lines) {
        return render_sixel_stream(lines[0].as_str(), prev_frame);
    }
    let current_frame = Frame::from_strings(lines);
    let frame_height = current_frame.height();
    let frame_width = current_frame.width();
    let start_row = if CALL_VISIBLE_LINES >= frame_height {
        CHAT_REGION_START + (CALL_VISIBLE_LINES - frame_height) / 2
    } else {
        CHAT_REGION_START
    };
    let start_col = (if width >= frame_width {
        (width - frame_width) / 2
    } else {
        0
    }) + 1;
    let use_prev = match prev_frame {
        Some(p) => p.height() == frame_height && p.width() == frame_width,
        None => false,
    };
    let output = if use_prev {
        match prev_frame {
            Some(p) => render_frame_diff_limited(
                &current_frame,
                Some(p),
                start_row,
                start_col,
                CALL_REGION_END,
            ),
            None => String::new(),
        }
    } else {
        render_frame_diff_limited(&current_frame, None, start_row, start_col, CALL_REGION_END)
    };
    (output, current_frame)
}

/// The placeholder frame shown while waiting for a peer to call back: a
/// camera sketch and two text lines, all centered to one width.
#[verifier::loop_isolation(false)]
pub fn generate_waiting_for_peer_frame(peer_name: &str) -> (r: Vec<String>)
    ensures
        r@.len() == 11,
{
    let mut raw: Vec<String> = Vec::new();
    raw.push("      .---.      ".to_owned());
    raw.push("     /     \\     ".to_owned());
    raw.push("    |  (O)  |    ".to_owned());
    raw.push("     \\     /     ".to_owned());
    raw.push("      `---'      ".to_owned());
    raw.push("       _|_       ".to_owned());
    raw.push("      /   \\      ".to_owned());
    raw.push("".to_owned());
    raw.push("".to_owned());
    let mut call_line = String::new();
    call_line.append("When ");
    call_line.append(peer_name);
    call_line.append(" calls back,");
    raw.push(call_line);
    raw.push("the video call will start.".to_owned());

    let mut max_width: usize = 0;
    let mut i: usize = 0;
    while i < raw.len()
        invariant
            raw@.len() == 11,
            i <= raw@.len(),
        decreases raw@.len() - i,
    {
        let n = raw[i].as_str().unicode_len();
        if n > max_width {
            max_width = n;
        }
        i += 1;
    }

    let mut out: Vec<String> = Vec::new();
    let mut j: usize = 0;
    while j < raw.len()
        invariant
            raw@.len() == 11,
            j <= raw@.len(),
            out@.len() == j,
        decreases raw@.len() - j,
    {
        let line = &raw[j];
        let n = line.as_str().unicode_len();
        let padding = if max_width >= n {
            max_width - n
        } else {
            0
        };
        let left = padding / 2;
        let right = padding - left;
        let mut padded = String::new();
        let mut a: usize = 0;
        while a < left
            decreases left - a,
        {
            padded.push(' ');
            a += 1;
        }
        padded.append(line.as_str());
        let mut b: usize = 0;
        while b < right
            decreases right - b,
        {
            padded.push(' ');
            b += 1;
        }
        out.push(padded);
        j += 1;
    }
    out
}

} // verus!
