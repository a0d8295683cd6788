//! Cell-based frame representation for differential rendering.
//!
//! A frame is a grid of cells, each a character in either plain ASCII or the
//! DEC graphics set. Rows convert to strings with embedded Shift Out and
//! Shift In mode switches and back, and two frames diff cell by cell.

use vstd::prelude::*;
use vstd::string::StrSliceExecFns;

use crate::terminal::cursor_to;

verus! {

/// The character set a cell's character belongs to.
#[derive(Debug, Clone, Copy, PartialEq, Eq, Structural)]
pub enum CharMode {
    /// Standard ASCII
    Ascii,
    /// DEC Special Graphics or soft font, reached through Shift Out
    DecGraphics,
}

/// One cell of a frame.
#[derive(Debug, Clone, Copy, PartialEq, Eq, Structural)]
pub struct Cell {
    /// The character to display
    pub ch: char,
    /// The character set it belongs to
    pub mode: CharMode,
}

impl Cell {
    /// An ASCII cell.
    pub fn ascii(c: char) -> (r: Self)
        ensures
            r == (Cell { ch: c, mode: CharMode::Ascii }),
    {
        Cell { ch: c, mode: CharMode::Ascii }
    }

    /// A DEC graphics cell.
    pub fn dec_graphics(c: char) -> (r: Self)
        ensures
            r == (Cell { ch: c, mode: CharMode::DecGraphics }),
    {
        Cell { ch: c, mode: CharMode::DecGraphics }
    }

    /// An ASCII space cell.
    pub fn space() -> (r: Self)
        ensures
            r == (Cell { ch: ' ', mode: CharMode::Ascii }),
    {
        Cell { ch: ' ', mode: CharMode::Ascii }
    }
}

impl Default for Cell {
    /// The default cell is an ASCII space.
    fn default() -> (r: Self)
        ensures
            r == (Cell { ch: ' ', mode: CharMode::Ascii }),
    {
        Cell::space()
    }
}

/// The mode-switch character that enters a mode.
pub open spec fn shift_char(m: CharMode) -> char {
    match m {
        CharMode::Ascii => '\x0f',
        CharMode::DecGraphics => '\x0e',
    }
}

/// The string a row of cells renders to, starting from `mode`: a mode switch
/// before each cell whose set differs from the running one, and a final
/// Shift In when the row ends in graphics mode.
pub open spec fn row_str(row: Seq<Cell>, mode: CharMode) -> Seq<char>
    decreases row.len(),
{
    if row.len() == 0 {
        if mode is DecGraphics {
            seq!['\x0f']
        } else {
            Seq::empty()
        }
    } else {
        let c = row[0];
        (if c.mode != mode {
            seq![shift_char(c.mode)]
        } else {
            Seq::empty()
        }) + seq![c.ch] + row_str(row.drop_first(), c.mode)
    }
}

/// The cells a string parses to, starting from `mode`: Shift Out and Shift
/// In switch the running mode and appear in no cell; every other character
/// becomes a cell in the running mode.
pub open spec fn parse_row_chars(s: Seq<char>, mode: CharMode) -> Seq<Cell>
    decreases s.len(),
{
    if s.len() == 0 {
        Seq::empty()
    } else {
        let c = s[0];
        if c == '\x0e' {
            parse_row_chars(s.drop_first(), CharMode::DecGraphics)
        } else if c == '\x0f' {
            parse_row_chars(s.drop_first(), CharMode::Ascii)
        } else {
            seq![Cell { ch: c, mode }] + parse_row_chars(s.drop_first(), mode)
        }
    }
}

/// A row whose characters can survive the string round trip: none of them is
/// itself a mode-switch character.
pub open spec fn row_plain(row: Seq<Cell>) -> bool {
    forall|i: int|
        0 <= i < row.len() ==> (#[trigger] row[i]).ch != '\x0e' && row[i].ch != '\x0f'
}

/// Parsing inverts rendering on every row free of mode-switch characters.
pub proof fn lemma_row_roundtrip(row: Seq<Cell>, mode: CharMode)
    requires
        row_plain(row),
    ensures
        parse_row_chars(row_str(row, mode), mode) == row,
    decreases row.len(),
{
    if row.len() == 0 {
        assert(parse_row_chars(Seq::<char>::empty(), CharMode::Ascii) =~= Seq::<Cell>::empty());
        if mode is DecGraphics {
            assert(row_str(row, mode) == seq!['\x0f']);
            assert(row_str(row, mode).drop_first() =~= Seq::<char>::empty());
            assert(parse_row_chars(row_str(row, mode), mode) == parse_row_chars(
                row_str(row, mode).drop_first(),
                CharMode::Ascii,
            ));
        }
        assert(parse_row_chars(row_str(row, mode), mode) =~= row);
    } else {
        let c = row[0];
        let rest = row.drop_first();
        assert(row_plain(rest));
        lemma_row_roundtrip(rest, c.mode);
        let tail = seq![c.ch] + row_str(rest, c.mode);
        if c.mode != mode {
            assert(row_str(row, mode) == seq![shift_char(c.mode)] + seq![c.ch] + row_str(
                rest,
                c.mode,
            ));
            assert(row_str(row, mode)[0] == shift_char(c.mode));
            assert(row_str(row, mode).drop_first() =~= tail);
        } else {
            assert(row_str(row, mode) =~= tail);
        }
        assert(tail[0] == c.ch);
        assert(tail.drop_first() =~= row_str(rest, c.mode));
        assert(parse_row_chars(tail, c.mode) == seq![Cell { ch: c.ch, mode: c.mode }]
            + parse_row_chars(row_str(rest, c.mode), c.mode));
        assert(seq![Cell { ch: c.ch, mode: c.mode }] + rest =~= row);
    }
}

/// Render one row of cells to a string with embedded mode switches, always
/// ending back in ASCII mode.
#[verifier::loop_isolation(false)]
pub fn row_to_string(row: &Vec<Cell>) -> (r: String)
    ensures
        r@ == row_str(row@, CharMode::Ascii),
{
    let mut out = String::new();
    let mut mode = CharMode::Ascii;
    let mut i: usize = 0;
    proof {
        assert(row@.skip(0) =~= row@);
    }
    while i < row.len()
        invariant
            i <= row@.len(),
            out@ + row_str(row@.skip(i as int), mode) == row_str(row@, CharMode::Ascii),
        decreases row@.len() - i,
    {
        let c = row[i];
        proof {
            assert(row@.skip(i as int)[0] == c);
            assert(row@.skip(i as int).drop_first() =~= row@.skip(i as int + 1));
        }
        if c.mode != mode {
            match c.mode {
                CharMode::Ascii => out.push('\x0f'),
                CharMode::DecGraphics => out.push('\x0e'),
            }
            mode = c.mode;
        }
        out.push(c.ch);
        i += 1;
    }
    proof {
        assert(row@.skip(row@.len() as int) =~= Seq::<Cell>::empty());
    }
    if match mode {
        CharMode::Ascii => false,
        CharMode::DecGraphics => true,
    } {
        out.push('\x0f');
    }
    out
}

/// Parse a string with embedded mode switches back into cells.
#[verifier::loop_isolation(false)]
pub fn parse_row(line: &str) -> (r: Vec<Cell>)
    ensures
        r@ == parse_row_chars(line@, CharMode::Ascii),
{
    let mut cells: Vec<Cell> = Vec::new();
    let mut mode = CharMode::Ascii;
    let n = line.unicode_len();
    let mut i: usize = 0;
    proof {
        assert(line@.skip(0) =~= line@);
    }
    while i < n
        invariant
            i <= line@.len(),
            n == line@.len(),
            cells@ + parse_row_chars(line@.skip(i as int), mode) == parse_row_chars(
                line@,
                CharMode::Ascii,
            ),
        decreases n - i,
    {
        let c = line.get_char(i);
        proof {
            assert(line@.skip(i as int)[0] == c);
            assert(line@.skip(i as int).drop_first() =~= line@.skip(i as int + 1));
        }
        if c == '\x0e' {
            mode = CharMode::DecGraphics;
        } else if c == '\x0f' {
            mode = CharMode::Ascii;
        } else {
            cells.push(Cell { ch: c, mode });
            proof {
                assert(cells@ =~= cells@.drop_last().push(Cell { ch: c, mode }));
            }
        }
        i += 1;
    }
    proof {
        assert(line@.skip(line@.len() as int) =~= Seq::<char>::empty());
        assert(cells@ =~= cells@ + parse_row_chars(Seq::empty(), mode));
    }
    cells
}

/// A video frame as a grid of cells, stored row-major.
#[derive(Debug, Clone, PartialEq, Eq)]
pub struct Frame {
    /// The rows of cells
    pub rows: Vec<Vec<Cell>>,
}

impl Frame {
    /// The grid as a sequence of cell rows.
    pub open spec fn grid(self) -> Seq<Seq<Cell>> {
        self.rows@.map_values(|r: Vec<Cell>| r@)
    }

    /// An empty frame.
    pub fn new() -> (r: Self)
        ensures
            r.rows@.len() == 0,
    {
        Frame { rows: Vec::new() }
    }

    /// A frame of the given dimensions filled with spaces.
    pub fn with_dimensions(width: usize, height: usize) -> (r: Self)
        ensures
            r.grid().len() == height,
            forall|i: int|
                0 <= i < height ==> (#[trigger] r.grid()[i]).len() == width && forall|j: int|
                    0 <= j < width ==> r.grid()[i][j] == (Cell { ch: ' ', mode: CharMode::Ascii }),
    {
        let mut rows: Vec<Vec<Cell>> = Vec::new();
        let mut i: usize = 0;
        while i < height
            invariant
                i <= height,
                rows@.len() == i,
                forall|a: int|
                    0 <= a < i ==> (#[trigger] rows@[a])@.len() == width && forall|b: int|
                        0 <= b < width ==> rows@[a]@[b] == (Cell {
                            ch: ' ',
                            mode: CharMode::Ascii,
                        }),
            decreases height - i,
        {
            let mut row: Vec<Cell> = Vec::new();
            let mut j: usize = 0;
            while j < width
                invariant
                    j <= width,
                    row@.len() == j,
                    forall|b: int|
                        0 <= b < j ==> row@[b] == (Cell { ch: ' ', mode: CharMode::Ascii }),
                decreases width - j,
            {
                row.push(Cell::space());
                j += 1;
            }
            rows.push(row);
            i += 1;
        }
        Frame { rows }
    }

    /// The number of rows.
    pub fn height(&self) -> (r: usize)
        ensures
            r == self.grid().len(),
    {
        self.rows.len()
    }

    /// The number of columns in the first row, zero for an empty frame.
    pub fn width(&self) -> (r: usize)
        ensures
            r == if self.grid().len() == 0 {
                0int
            } else {
                self.grid()[0].len() as int
            },
    {
        if self.rows.len() == 0 {
            0
        } else {
            self.rows[0].len()
        }
    }

    /// Render every row to a string with embedded mode switches.
    #[verifier::loop_isolation(false)]
    pub fn to_strings(&self) -> (r: Vec<String>)
        ensures
            r@.len() == self.grid().len(),
            forall|i: int|
                0 <= i < r@.len() ==> (#[trigger] r@[i])@ == row_str(
                    self.grid()[i],
                    CharMode::Ascii,
                ),
    {
        let mut out: Vec<String> = Vec::new();
        let mut i: usize = 0;
        while i < self.rows.len()
            invariant
                i <= self.rows@.len(),
                out@.len() == i,
                forall|a: int|
                    0 <= a < i ==> (#[trigger] out@[a])@ == row_str(
                        self.grid()[a],
                        CharMode::Ascii,
                    ),
            decreases self.rows@.len() - i,
        {
            let s = row_to_string(&self.rows[i]);
            out.push(s);
            i += 1;
        }
        out
    }

    /// Reconstruct a frame from strings with embedded mode switches.
    #[verifier::loop_isolation(false)]
    pub fn from_strings(lines: &Vec<String>) -> (r: Self)
        ensures
            r.grid().len() == lines@.len(),
            forall|i: int|
                0 <= i < lines@.len() ==> #[trigger] r.grid()[i] == parse_row_chars(
                    (#[trigger] lines@[i])@,
                    CharMode::Ascii,
                ),
    {
        let mut rows: Vec<Vec<Cell>> = Vec::new();
        let mut i: usize = 0;
        while i < lines.len()
            invariant
                i <= lines@.len(),
                rows@.len() == i,
                forall|a: int|
                    0 <= a < i ==> (#[trigger] rows@[a])@ == parse_row_chars(
                        lines@[a]@,
                        CharMode::Ascii,
                    ),
            decreases lines@.len() - i,
        {
            let cells = parse_row(lines[i].as_str());
            rows.push(cells);
            i += 1;
        }
        Frame { rows }
    }
}

/// The whole-frame round trip: a frame whose cells hold no mode-switch
/// characters reconstructs exactly from its own rendering.
pub proof fn lemma_frame_roundtrip(grid: Seq<Seq<Cell>>)
    requires
        forall|i: int| 0 <= i < grid.len() ==> row_plain(#[trigger] grid[i]),
    ensures
        forall|i: int|
            0 <= i < grid.len() ==> parse_row_chars(
                row_str(#[trigger] grid[i], CharMode::Ascii),
                CharMode::Ascii,
            ) == grid[i],
{
    assert forall|i: int| 0 <= i < grid.len() implies parse_row_chars(
        row_str(#[trigger] grid[i], CharMode::Ascii),
        CharMode::Ascii,
    ) == grid[i] by {
        lemma_row_roundtrip(grid[i], CharMode::Ascii);
    }
}

/// Render a frame against the previous one, positioning each changed cell.
///
/// When the previous frame has the same dimensions, only differing cells are
/// written; in particular an unchanged frame produces no output at all.
/// Otherwise every row is redrawn from `start_col`. The output ends back in
/// ASCII mode.
#[verifier::loop_isolation(false)]
pub fn render_frame_diff(
    current: &Frame,
    prev: Option<&Frame>,
    start_row: usize,
    start_col: usize,
) -> (r: String)
    ensures
        (prev matches Some(p) && p.grid() == current.grid()) ==> r@.len() == 0,
{
    let can_diff = match prev {
        Some(p) => p.height() == current.height() && p.width() == current.width(),
        None => false,
    };
    let ghost frames_equal = prev matches Some(p) && p.grid() == current.grid();
    let mut output = String::new();
    let mut terminal_mode = CharMode::Ascii;
    let mut cursor_row: Option<usize> = None;
    let mut cursor_col: Option<usize> = None;
    let mut row_idx: usize = 0;
    while row_idx < current.rows.len()
        invariant
            row_idx <= current.rows@.len(),
            frames_equal ==> can_diff,
            frames_equal == (prev matches Some(p) && p.grid() == current.grid()),
            frames_equal ==> output@.len() == 0,
            frames_equal ==> terminal_mode == CharMode::Ascii,
        decreases current.rows@.len() - row_idx,
    {
        let term_row = if start_row <= usize::MAX - row_idx {
            start_row + row_idx
        } else {
            usize::MAX
        };
        if can_diff {
            let p = match prev {
                Some(p) => p,
                None => {
                    proof {
                        assert(false);
                    }
                    current
                }
            };
            let mut col_idx: usize = 0;
            while col_idx < current.rows[row_idx].len()
                invariant
                    row_idx < current.rows@.len(),
                    col_idx <= current.rows@[row_idx as int]@.len(),
                    can_diff,
                    prev == Some(p),
                    p.grid().len() == current.grid().len(),
                    p.rows@.len() == current.rows@.len(),
                    frames_equal == (p.grid() == current.grid()),
                    frames_equal ==> output@.len() == 0,
                    frames_equal ==> terminal_mode == CharMode::Ascii,
                decreases current.rows@[row_idx as int]@.len() - col_idx,
            {
                let cell = current.rows[row_idx][col_idx];
                let changed = if col_idx < p.rows[row_idx].len() {
                    let prev_cell = p.rows[row_idx][col_idx];
                    cell.ch != prev_cell.ch || match (cell.mode, prev_cell.mode) {
                        (CharMode::Ascii, CharMode::Ascii) => false,
                        (CharMode::DecGraphics, CharMode::DecGraphics) => false,
                        _ => true,
                    }
                } else {
                    true
                };
                if changed {
                    proof {
                        assert(current.grid()[row_idx as int][col_idx as int] == cell);
                        if frames_equal {
                            assert(p.grid()[row_idx as int] == current.grid()[row_idx as int]);
                            assert(false);
                        }
                    }
                    let term_col = if start_col <= usize::MAX - col_idx {
                        start_col + col_idx
                    } else {
                        usize::MAX
                    };
                    let need_position = match (cursor_row, cursor_col) {
                        (Some(r0), Some(c0)) => !(r0 == term_row && c0 == term_col),
                        _ => true,
                    };
                    if need_position {
                        let pos = cursor_to(term_row, term_col);
                        output.append(pos.as_str());
                    }
                    if match (cell.mode, terminal_mode) {
                        (CharMode::Ascii, CharMode::Ascii) => false,
                        (CharMode::DecGraphics, CharMode::DecGraphics) => false,
                        _ => true,
                    } {
                        match cell.mode {
                            CharMode::Ascii => output.push('\x0f'),
                            CharMode::DecGraphics => output.push('\x0e'),
                        }
                        terminal_mode = cell.mode;
                    }
                    output.push(cell.ch);
                    cursor_row = Some(term_row);
                    if term_col < usize::MAX {
                        cursor_col = Some(term_col + 1);
                    } else {
                        cursor_col = None;
                    }
                }
                col_idx += 1;
            }
        } else {
            let pos = cursor_to(term_row, start_col);
            output.append(pos.as_str());
            cursor_row = Some(term_row);
            cursor_col = None;
            let mut col_idx: usize = 0;
            while col_idx < current.rows[row_idx].len()
                invariant
                    row_idx < current.rows@.len(),
                    col_idx <= current.rows@[row_idx as int]@.len(),
                    !frames_equal,
                decreases current.rows@[row_idx as int]@.len() - col_idx,
            {
                let cell = current.rows[row_idx][col_idx];
                if match (cell.mode, terminal_mode) {
                    (CharMode::Ascii, CharMode::Ascii) => false,
                    (CharMode::DecGraphics, CharMode::DecGraphics) => false,
                    _ => true,
                } {
                    match cell.mode {
                        CharMode::Ascii => output.push('\x0f'),
                        CharMode::DecGraphics => output.push('\x0e'),
                    }
                    terminal_mode = cell.mode;
                }
                output.push(cell.ch);
                col_idx += 1;
            }
        }
        row_idx += 1;
    }
    if match terminal_mode {
        CharMode::Ascii => false,
        CharMode::DecGraphics => true,
    } {
        output.push('\x0f');
        proof {
            assert(!frames_equal);
        }
    }
    output
}

} // verus!
