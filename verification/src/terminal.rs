//! VT100/VT220 terminal control sequences, screen layout and tab switching.

use vstd::prelude::*;
use vstd::string::StrSliceExecFns;

use crate::drcs::drcs_load_sequence_chars;
use crate::util::{dec_digits, push_decimal};

verus! {

/// Escape sequence to switch to 132 column mode
pub const ENTER_132_COL_MODE: &'static str = "\x1b[?3h";

/// Escape sequence to switch back to 80 column mode
pub const EXIT_132_COL_MODE: &'static str = "\x1b[?3l";

/// The characters of the 132-column switch.
pub open spec fn enter_132_seq() -> Seq<char> {
    seq!['\x1b', '[', '?', '3', 'h']
}

/// The characters of the 80-column switch.
pub open spec fn exit_132_seq() -> Seq<char> {
    seq!['\x1b', '[', '?', '3', 'l']
}

/// The initialization bytes for the terminal: the column-mode switch, then
/// the soft-font load when custom glyphs are in use.
pub fn get_init_sequence(use_drcs: bool, use_132_cols: bool) -> (r: String)
    ensures
        r@ == (if use_132_cols {
            enter_132_seq()
        } else {
            exit_132_seq()
        }) + (if use_drcs {
            drcs_load_sequence_chars()
        } else {
            Seq::<char>::empty()
        }),
{
    let mut output = String::new();
    if use_132_cols {
        proof {
            reveal_strlit("\x1b[?3h");
            assert(ENTER_132_COL_MODE@ =~= enter_132_seq());
        }
        output.append(ENTER_132_COL_MODE);
    } else {
        proof {
            reveal_strlit("\x1b[?3l");
            assert(EXIT_132_COL_MODE@ =~= exit_132_seq());
        }
        output.append(EXIT_132_COL_MODE);
    }
    if use_drcs {
        let seq = crate::drcs::get_drcs_load_sequence();
        output.append(seq.as_str());
    }
    proof {
        assert(Seq::<char>::empty() + (if use_132_cols {
            enter_132_seq()
        } else {
            exit_132_seq()
        }) =~= (if use_132_cols {
            enter_132_seq()
        } else {
            exit_132_seq()
        }));
        if !use_drcs {
            assert(output@ =~= output@ + Seq::<char>::empty());
        }
    }
    output
}

/// VT220 terminal height in rows; 80x24 is the standard geometry.
pub const TERMINAL_HEIGHT: usize = 24;

/// First row of the chat display area.
pub const CHAT_REGION_START: usize = 2;

/// Last row of the chat display area.
pub const CHAT_REGION_END: usize = 20;

/// Rows the chat display area spans.
pub const CHAT_VISIBLE_LINES: usize = 19;

/// Last row of the call display area.
pub const CALL_REGION_END: usize = 23;

/// Rows the call display area spans.
pub const CALL_VISIBLE_LINES: usize = 22;

/// First row of the input area.
pub const INPUT_ROW_START: usize = 22;

/// Last row of the input area.
pub const INPUT_ROW_END: usize = 23;

/// Rows the input area spans.
pub const INPUT_ROWS: usize = 2;

/// Maximum scrollback buffer size.
pub const MAX_SCROLLBACK: usize = 10000;

/// Tab identifiers.
#[derive(Debug, Clone, Copy, PartialEq, Eq, Structural)]
pub enum Tab {
    Chat,
    Call,
    Gemini,
}

/// The tab after `t` in rotation, given which tabs are reachable: a call tab
/// only during a call, the assistant tab only when configured.
pub open spec fn next_tab(t: Tab, gemini_available: bool, call_active: bool) -> Tab {
    match t {
        Tab::Chat => if call_active {
            Tab::Call
        } else if gemini_available {
            Tab::Gemini
        } else {
            Tab::Chat
        },
        Tab::Call => if gemini_available {
            Tab::Gemini
        } else {
            Tab::Chat
        },
        Tab::Gemini => Tab::Chat,
    }
}

impl Tab {
    /// The tab the next tab-switch lands on.
    pub fn next(self, gemini_available: bool, call_active: bool) -> (r: Self)
        ensures
            r == next_tab(self, gemini_available, call_active),
    {
        match self {
            Tab::Chat => {
                if call_active {
                    Tab::Call
                } else if gemini_available {
                    Tab::Gemini
                } else {
                    Tab::Chat
                }
            }
            Tab::Call => {
                if gemini_available {
                    Tab::Gemini
                } else {
                    Tab::Chat
                }
            }
            Tab::Gemini => Tab::Chat,
        }
    }
}

/// Clear entire screen
pub const CLEAR_SCREEN: &'static str = "\x1b[2J";

/// Move cursor to home position
pub const CURSOR_HOME: &'static str = "\x1b[H";

/// Hide cursor
pub const CURSOR_HIDE: &'static str = "\x1b[?25l";

/// Show cursor
pub const CURSOR_SHOW: &'static str = "\x1b[?25h";

/// Reset all attributes
pub const RESET_ATTRS: &'static str = "\x1b[0m";

/// Reverse video
pub const REVERSE: &'static str = "\x1b[7m";

/// Save cursor position
pub const SAVE_CURSOR: &'static str = "\x1b7";

/// Restore cursor position
pub const RESTORE_CURSOR: &'static str = "\x1b8";

/// The characters of the save-cursor sequence.
pub open spec fn save_cursor_seq() -> Seq<char> {
    seq!['\x1b', '7']
}

/// The characters of the restore-cursor sequence.
pub open spec fn restore_cursor_seq() -> Seq<char> {
    seq!['\x1b', '8']
}

/// The characters of a cursor-positioning sequence for a row and column.
pub open spec fn cursor_to_seq(row: int, col: int) -> Seq<char> {
    seq!['\x1b', '['] + dec_digits(row) + seq![';'] + dec_digits(col) + seq!['H']
}

/// The sequence that moves the cursor to a 1-indexed row and column.
pub fn cursor_to(row: usize, col: usize) -> (r: String)
    ensures
        r@ == cursor_to_seq(row as int, col as int),
{
    let mut out = String::new();
    out.push('\x1b');
    out.push('[');
    push_decimal(&mut out, row as u64);
    out.push(';');
    push_decimal(&mut out, col as u64);
    out.push('H');
    proof {
        assert(out@ =~= cursor_to_seq(row as int, col as int));
    }
    out
}

/// The sequence that resets the scroll region to the full screen.
pub fn reset_scroll_region() -> (r: String)
    ensures
        r@ == seq!['\x1b', '[', 'r'],
{
    let mut out = String::new();
    out.push('\x1b');
    out.push('[');
    out.push('r');
    proof {
        assert(out@ =~= seq!['\x1b', '[', 'r']);
    }
    out
}

/// Append the save-cursor sequence.
pub fn push_save_cursor(out: &mut String)
    ensures
        final(out)@ == old(out)@ + save_cursor_seq(),
{
    out.push('\x1b');
    out.push('7');
    proof {
        assert(final(out)@ =~= old(out)@ + save_cursor_seq());
    }
}

/// Append the restore-cursor sequence.
pub fn push_restore_cursor(out: &mut String)
    ensures
        final(out)@ == old(out)@ + restore_cursor_seq(),
{
    out.push('\x1b');
    out.push('8');
    proof {
        assert(final(out)@ =~= old(out)@ + restore_cursor_seq());
    }
}

} // verus!

verus! {

/// The characters of a string that show on screen: everything but the Shift
/// Out and Shift In mode switches.
pub open spec fn visible_chars(s: Seq<char>) -> Seq<char> {
    s.filter(|c: char| c != '\x0e' && c != '\x0f')
}

/// Count the characters of a string that show on screen, ignoring the Shift
/// Out and Shift In mode switches.
#[verifier::loop_isolation(false)]
pub fn visible_len(s: &str) -> (r: usize)
    ensures
        r == visible_chars(s@).len(),
{
    let n = s.unicode_len();
    let mut count: usize = 0;
    let mut i: usize = 0;
    proof {
        reveal(Seq::filter);
        assert(s@.take(0) =~= Seq::<char>::empty());
        assert(visible_chars(s@.take(0)).len() == 0);
    }
    while i < n
        invariant
            i <= n,
            n == s@.len(),
            count == visible_chars(s@.take(i as int)).len(),
            count <= i,
        decreases n - i,
    {
        let c = s.get_char(i);
        proof {
            reveal(Seq::filter);
            assert(s@.take(i as int + 1).drop_last() =~= s@.take(i as int));
            assert(s@.take(i as int + 1).last() == c);
        }
        if c != '\x0e' && c != '\x0f' {
            count += 1;
        }
        i += 1;
    }
    proof {
        assert(s@.take(n as int) =~= s@);
    }
    count
}

/// Chat display buffer with scrollback.
///
/// Lines arrive wrapped to the terminal width; a scroll offset of zero shows
/// the most recent lines and a positive one looks that many lines back. The
/// buffer never holds more than `MAX_SCROLLBACK` lines.
pub struct ChatBuffer {
    /// All lines in the buffer, oldest first
    pub lines: std::collections::VecDeque<String>,
    /// Current scroll offset: zero at the bottom, more is further back
    pub scroll_offset: usize,
    /// Terminal width used for wrapping
    pub width: usize,
}

impl ChatBuffer {
    /// A usable buffer: wide enough for its borders, inside the scrollback
    /// cap.
    pub open spec fn wf(self) -> bool {
        &&& self.width >= 5
        &&& self.lines@.len() <= MAX_SCROLLBACK
    }

    /// The wrap width: the terminal width minus two border columns and their
    /// padding.
    pub open spec fn max_line_len(self) -> int {
        self.width - 4
    }

    /// An empty buffer for a terminal of the given width.
    pub fn new(width: usize) -> (r: Self)
        requires
            width >= 5,
        ensures
            r.wf(),
            r.width == width,
            r.scroll_offset == 0,
            r.lines@.len() == 0,
    {
        ChatBuffer {
            lines: std::collections::VecDeque::new(),
            scroll_offset: 0,
            width,
        }
    }

    /// Whether the buffer already fills the whole chat area.
    pub fn is_full(&self) -> (r: bool)
        ensures
            r == (self.lines@.len() > CHAT_VISIBLE_LINES),
    {
        self.lines.len() > CHAT_VISIBLE_LINES
    }

    /// Append one finished line, evicting the oldest line when the buffer is
    /// at capacity and pulling the scroll offset along.
    fn push_raw(&mut self, line: String)
        requires
            old(self).wf(),
        ensures
            final(self).wf(),
            final(self).width == old(self).width,
            old(self).lines@.len() < MAX_SCROLLBACK ==> final(self).lines@ == old(self).lines@.push(line) && final(self).scroll_offset == old(self).scroll_offset,
            old(self).lines@.len() == MAX_SCROLLBACK ==> final(self).lines@ == old(self).lines@.push(line).drop_first() && final(self).scroll_offset == (
            if old(self).scroll_offset > 0 {
                old(self).scroll_offset - 1
            } else {
                0
            }),
    {
        self.lines.push_back(line);
        if self.lines.len() > MAX_SCROLLBACK {
            self.lines.pop_front();
            if self.scroll_offset > 0 {
                self.scroll_offset = self.scroll_offset - 1;
            }
            proof {
                assert(self.lines@ =~= old(self).lines@.push(line).drop_first());
            }
        }
    }

    /// Add a message, wrapping it to the buffer's width; every line that
    /// enters the buffer fits the wrap width.
    pub fn push(&mut self, message: String)
        requires
            old(self).wf(),
        ensures
            final(self).wf(),
            final(self).width == old(self).width,
            final(self).scroll_offset <= old(self).scroll_offset,
            forall|i: int|
                0 <= i < final(self).lines@.len() ==> old(self).lines@.contains(
                    #[trigger] final(self).lines@[i],
                ) || final(self).lines@[i]@.len() <= old(self).max_line_len(),
    {
        let ghost orig_lines = old(self).lines@;
        let ghost w = old(self).max_line_len();
        if message.as_str().is_empty() {
            self.push_raw(String::new());
            return ;
        }
        let max_len = self.width - 4;
        let wrapped = wrap_message(message.as_str(), max_len);
        let mut k: usize = 0;
        while k < wrapped.len()
            invariant
                k <= wrapped@.len(),
                self.wf(),
                self.width == old(self).width,
                self.scroll_offset <= old(self).scroll_offset,
                max_len == w,
                forall|i: int|
                    0 <= i < wrapped@.len() ==> (#[trigger] wrapped@[i])@.len() <= max_len,
                forall|i: int|
                    0 <= i < self.lines@.len() ==> orig_lines.contains(#[trigger] self.lines@[i])
                        || self.lines@[i]@.len() <= w,
            decreases wrapped@.len() - k,
        {
            let line = wrapped[k].clone();
            self.push_raw(line);
            k += 1;
        }
    }

    /// Replace the last line with `content`, cut to the wrap width; useful
    /// while streaming.
    pub fn update_last_line(&mut self, content: &str)
        requires
            old(self).wf(),
        ensures
            final(self).wf(),
            final(self).width == old(self).width,
            final(self).scroll_offset == old(self).scroll_offset,
            old(self).lines@.len() == 0 ==> final(self).lines@ == old(self).lines@,
            old(self).lines@.len() > 0 ==> {
                &&& final(self).lines@.len() == old(self).lines@.len()
                &&& (forall|i: int|
                    0 <= i < old(self).lines@.len() - 1 ==> final(self).lines@[i] == old(self).lines@[i])
                &&& final(self).lines@.last()@ == content@.take(
                    if content@.len() <= old(self).max_line_len() {
                        content@.len() as int
                    } else {
                        old(self).max_line_len()
                    },
                )
            },
    {
            let max_len = self.width - 4;
        let n = content.unicode_len();
        let truncated = if n > max_len {
            let t = content.substring_char(0, max_len);
            t.to_owned()
        } else {
            content.to_owned()
        };
        proof {
            assert(n <= max_len ==> content@.take(n as int) =~= content@);
            assert(content@.subrange(0, if content@.len() <= self.max_line_len() {
                content@.len() as int
            } else {
                self.max_line_len()
            }) =~= content@.take(if content@.len() <= self.max_line_len() {
                content@.len() as int
            } else {
                self.max_line_len()
            }));
        }
        if self.lines.len() > 0 {
            self.lines.pop_back();
            self.lines.push_back(truncated);
            proof {
                assert(self.lines@ =~= old(self).lines@.drop_last().push(
                    self.lines@.last(),
                ));
            }
        }
    }

    /// Empty the buffer and return to the bottom.
    pub fn clear(&mut self)
        ensures
            final(self).lines@.len() == 0,
            final(self).scroll_offset == 0,
            final(self).width == old(self).width,
            final(self).wf() == (old(self).width >= 5),
    {
        self.lines.clear();
        self.scroll_offset = 0;
    }

    /// Scroll up `n` lines, stopping where the scrollback begins.
    pub fn scroll_up(&mut self, n: usize)
        ensures
            final(self).lines == old(self).lines,
            final(self).width == old(self).width,
            final(self).scroll_offset == {
                let max_offset = if old(self).lines@.len() >= CHAT_VISIBLE_LINES {
                    old(self).lines@.len() - CHAT_VISIBLE_LINES
                } else {
                    0int
                };
                if old(self).scroll_offset + n <= max_offset {
                    old(self).scroll_offset + n
                } else {
                    max_offset
                }
            },
    {
        let max_offset = if self.lines.len() >= CHAT_VISIBLE_LINES {
            self.lines.len() - CHAT_VISIBLE_LINES
        } else {
            0
        };
        if n <= max_offset && self.scroll_offset <= max_offset - n {
            self.scroll_offset = self.scroll_offset + n;
        } else {
            self.scroll_offset = max_offset;
        }
    }

    /// Scroll down `n` lines, stopping at the bottom.
    pub fn scroll_down(&mut self, n: usize)
        ensures
            final(self).lines == old(self).lines,
            final(self).width == old(self).width,
            final(self).scroll_offset == if old(self).scroll_offset >= n {
                old(self).scroll_offset - n
            } else {
                0int
            },
    {
        if self.scroll_offset >= n {
            self.scroll_offset = self.scroll_offset - n;
        } else {
            self.scroll_offset = 0;
        }
    }

    /// Jump back to the most recent lines.
    pub fn scroll_to_bottom(&mut self)
        ensures
            final(self).lines == old(self).lines,
            final(self).width == old(self).width,
            final(self).scroll_offset == 0,
    {
        self.scroll_offset = 0;
    }

    /// The first line the display window shows.
    pub open spec fn window_start(self) -> int {
        let end = self.window_end();
        if end >= CHAT_VISIBLE_LINES {
            end - CHAT_VISIBLE_LINES
        } else {
            0
        }
    }

    /// One past the last line the display window shows.
    pub open spec fn window_end(self) -> int {
        if self.lines@.len() >= self.scroll_offset {
            self.lines@.len() - self.scroll_offset
        } else {
            0
        }
    }

    /// The lines currently inside the display window, most recent last.
    #[verifier::loop_isolation(false)]
    pub fn visible_lines(&self) -> (r: Vec<String>)
        ensures
            r@.len() == self.window_end() - self.window_start(),
            forall|i: int|
                0 <= i < r@.len() ==> #[trigger] r@[i] == self.lines@[self.window_start() + i],
    {
        let total = self.lines.len();
        let end = if total >= self.scroll_offset {
            total - self.scroll_offset
        } else {
            0
        };
        let start = if end >= CHAT_VISIBLE_LINES {
            end - CHAT_VISIBLE_LINES
        } else {
            0
        };
        let mut out: Vec<String> = Vec::new();
        let mut i: usize = start;
        while i < end
            invariant
                start <= i <= end,
                end == self.window_end(),
                start == self.window_start(),
                end <= self.lines@.len(),
                out@.len() == i - start,
                forall|j: int|
                    0 <= j < out@.len() ==> #[trigger] out@[j] == self.lines@[start + j],
            decreases end - i,
        {
            let s = self.lines[i].clone();
            out.push(s);
            i += 1;
        }
        out
    }
}

/// Wrap a message to lines of at most `max_len` characters: words separated
/// by single spaces fill each line greedily, words longer than a line are
/// cut into line-sized pieces, and newlines in the message start new lines.
#[verifier::loop_isolation(false)]
fn wrap_message(message: &str, max_len: usize) -> (r: Vec<String>)
    requires
        1 <= max_len <= usize::MAX - 4,
        message@.len() >= 1,
    ensures
        forall|i: int| 0 <= i < r@.len() ==> (#[trigger] r@[i])@.len() <= max_len,
{
    let n = message.unicode_len();
    let mut out: Vec<String> = Vec::new();
    let mut cur = String::new();
    let mut cur_cnt: usize = 0;
    let mut word = String::new();
    let mut word_cnt: usize = 0;
    let mut first: bool = true;
    let mut line_chars: usize = 0;
    let mut pending: bool = false;
    let mut i: usize = 0;
    let mut past_end: bool = false;
    while !past_end
        invariant
            i <= n,
            n == message@.len(),
            cur@.len() == cur_cnt,
            cur_cnt <= max_len,
            word@.len() == word_cnt,
            word_cnt <= i,
            forall|k: int| 0 <= k < out@.len() ==> (#[trigger] out@[k])@.len() <= max_len,
        decreases n - i, (if past_end { 0int } else { 1int }),
    {
        let c_opt: Option<char> = if i < n {
            Some(message.get_char(i))
        } else {
            None
        };
        let is_terminator = match c_opt {
            Some(c) => c == ' ' || c == '\n',
            None => true,
        };
        if is_terminator {
            let sep: usize = if first {
                0
            } else {
                1
            };
            let fits = word_cnt <= max_len && cur_cnt + sep <= max_len - word_cnt;
            if fits {
                if !first {
                    cur.push(' ');
                    cur_cnt += 1;
                }
                cur.append(word.as_str());
                cur_cnt += word_cnt;
            } else {
                if cur_cnt > 0 {
                    out.push(cur);
                    cur = String::new();
                    cur_cnt = 0;
                }
                if word_cnt > max_len {
                    let mut k: usize = 0;
                    while k < word_cnt
                        invariant
                            k <= word_cnt,
                            word@.len() == word_cnt,
                            cur@.len() == cur_cnt,
                            cur_cnt <= max_len,
                            cur_cnt < max_len || k == word_cnt,
                            forall|q: int|
                                0 <= q < out@.len() ==> (#[trigger] out@[q])@.len() <= max_len,
                        decreases word_cnt - k,
                    {
                        let wc = word.as_str().get_char(k);
                        cur.push(wc);
                        cur_cnt += 1;
                        k += 1;
                        if cur_cnt == max_len && k < word_cnt {
                            out.push(cur);
                            cur = String::new();
                            cur_cnt = 0;
                        }
                    }
                } else {
                    cur = word;
                    cur_cnt = word_cnt;
                    word = String::new();
                }
            }
            first = false;
            word = String::new();
            word_cnt = 0;
            let ends_line = match c_opt {
                Some(c) => c == '\n',
                None => false,
            };
            if ends_line {
                if cur_cnt > 0 || line_chars == 0 {
                    out.push(cur);
                    cur = String::new();
                    cur_cnt = 0;
                } else {
                    cur = String::new();
                    cur_cnt = 0;
                }
                first = true;
                line_chars = 0;
                pending = false;
            } else {
                match c_opt {
                    Some(_) => {
                        if line_chars < usize::MAX {
                            line_chars += 1;
                        }
                        pending = true;
                    }
                    None => {
                        if pending && cur_cnt > 0 {
                            out.push(cur);
                            cur = String::new();
                            cur_cnt = 0;
                        }
                    }
                }
            }
        } else {
            match c_opt {
                Some(c) => {
                    word.push(c);
                    word_cnt += 1;
                    if line_chars < usize::MAX {
                        line_chars += 1;
                    }
                    pending = true;
                }
                None => {}
            }
        }
        if i < n {
            i += 1;
        } else {
            past_end = true;
        }
    }
    out
}

} // verus!

verus! {

impl ChatBuffer {
    /// Type one character at the end of the buffer. A character that still
    /// fits the last line is appended there and `false` comes back; one that
    /// would overflow wraps onto a fresh line, pulling the last word along
    /// when that keeps lines tidy, and `true` reports the extra redraw.
    #[verifier::loop_isolation(false)]
    pub fn type_char(&mut self, ch: char, indent: &str) -> (r: bool)
        requires
            old(self).wf(),
        ensures
            final(self).wf(),
            final(self).width == old(self).width,
            old(self).lines@.len() == 0 && visible_chars(Seq::<char>::empty()).len() + 1
                <= old(self).max_line_len() ==> final(self).lines@.len() == 1 && final(self).lines@[0]@ == seq![ch] && r == false,
            old(self).lines@.len() > 0 && visible_chars(old(self).lines@.last()@).len() + 1
                <= old(self).max_line_len() ==> {
                &&& r == false
                &&& final(self).lines@.len() == old(self).lines@.len()
                &&& (forall|i: int|
                    0 <= i < old(self).lines@.len() - 1 ==> final(self).lines@[i] == old(self).lines@[i])
                &&& final(self).lines@.last()@ == old(self).lines@.last()@.push(ch)
            },
            old(self).lines@.len() > 0 && visible_chars(old(self).lines@.last()@).len() + 1
                > old(self).max_line_len() ==> r == true,
    {
        let max_len = self.width - 4;
        if self.lines.len() == 0 {
            self.lines.push_back(String::new());
            proof {
                reveal(Seq::filter);
                assert(visible_chars(Seq::<char>::empty()).len() == 0);
            }
        }
        let last_idx = self.lines.len() - 1;
        let current_len = visible_len(self.lines[last_idx].as_str());
        if current_len >= max_len {
            // the character wraps; move a trailing word with it when one is
            // short enough to keep the split tidy
            let last_line = self.lines[last_idx].clone();
            let line_chars = last_line.as_str().unicode_len();
            let mut last_space: Option<usize> = None;
            let mut k: usize = 0;
            while k < line_chars
                invariant
                    k <= line_chars,
                    line_chars == last_line@.len(),
                    match last_space {
                        Some(p) => p < k,
                        None => true,
                    },
                decreases line_chars - k,
            {
                if last_line.as_str().get_char(k) == ' ' {
                    last_space = Some(k);
                }
                k += 1;
            }
            let is_space = ch == ' ' || ch == '\t' || ch == '\n' || ch == '\r';
            let mut moved = false;
            let mut truncated = String::new();
            let mut word_to_move = String::new();
            if !is_space {
                match last_space {
                    Some(p) => {
                        if line_chars - p < max_len / 2 {
                            truncated = last_line.as_str().substring_char(0, p).to_owned();
                            word_to_move = last_line.as_str().substring_char(
                                p + 1,
                                line_chars,
                            ).to_owned();
                            moved = true;
                        }
                    }
                    None => {}
                }
            }
            if moved {
                self.lines.pop_back();
                self.lines.push_back(truncated);
                let mut new_line = indent.to_owned();
                new_line.append(word_to_move.as_str());
                new_line.push(ch);
                self.push_raw(new_line);
            } else {
                let mut new_line = indent.to_owned();
                new_line.push(ch);
                self.push_raw(new_line);
            }
            true
        } else {
            match self.lines.pop_back() {
                Some(last) => {
                    let mut updated = last;
                    updated.push(ch);
                    self.lines.push_back(updated);
                    proof {
                        if old(self).lines@.len() == 0 {
                            assert(self.lines@.len() == 1);
                            assert(self.lines@[0]@ =~= seq![ch]);
                        } else {
                            assert(self.lines@ =~= old(self).lines@.drop_last().push(
                                self.lines@.last(),
                            ));
                        }
                    }
                }
                None => {}
            }
            false
        }
    }

    /// Render the last `n` visible lines into their screen rows, bracketed
    /// by a cursor save and restore; an empty window renders nothing.
    #[verifier::loop_isolation(false)]
    pub fn render_bottom_lines(&self, n: usize) -> (r: String)
        requires
            self.wf(),
        ensures
            self.window_end() == self.window_start() ==> r@.len() == 0,
            self.window_end() > self.window_start() ==> r@.len() >= 4 && r@.subrange(0, 2)
                == save_cursor_seq() && r@.subrange(r@.len() - 2, r@.len() as int)
                == restore_cursor_seq(),
    {
        let visible = self.visible_lines();
        if visible.len() == 0 {
            return String::new();
        }
        let count = if n <= visible.len() {
            n
        } else {
            visible.len()
        };
        let start_idx = visible.len() - count;
        let mut output = String::new();
        push_save_cursor(&mut output);
        let mut i: usize = 0;
        while i < count
            invariant
                i <= count,
                count <= visible@.len(),
                start_idx + count == visible@.len(),
                self.wf(),
                output@.len() >= 2,
                output@.subrange(0, 2) == save_cursor_seq(),
            decreases count - i,
        {
            let row_idx = start_idx + i;
            let screen_row = if row_idx < usize::MAX - CHAT_REGION_START {
                CHAT_REGION_START + row_idx
            } else {
                usize::MAX
            };
            let line = &visible[row_idx];
            self.push_bordered_line(&mut output, screen_row, line);
            proof {
                assert(output@.subrange(0, 2) =~= save_cursor_seq());
            }
            i += 1;
        }
        push_restore_cursor(&mut output);
        proof {
            assert(output@.subrange(0, 2) =~= save_cursor_seq());
            assert(output@.subrange(output@.len() - 2, output@.len() as int)
                =~= restore_cursor_seq());
        }
        output
    }

    /// Render only the last visible line, bracketed by a cursor save and
    /// restore; an empty window renders nothing.
    pub fn render_last_line(&self) -> (r: String)
        requires
            self.wf(),
        ensures
            self.window_end() == self.window_start() ==> r@.len() == 0,
            self.window_end() > self.window_start() ==> r@.len() >= 4 && r@.subrange(0, 2)
                == save_cursor_seq() && r@.subrange(r@.len() - 2, r@.len() as int)
                == restore_cursor_seq(),
    {
        self.render_bottom_lines(1)
    }

    /// Render the whole chat area, empty rows included, bracketed by a
    /// cursor save and restore.
    #[verifier::loop_isolation(false)]
    pub fn render(&self) -> (r: String)
        requires
            self.wf(),
        ensures
            r@.len() >= 4,
            r@.subrange(0, 2) == save_cursor_seq(),
            r@.subrange(r@.len() - 2, r@.len() as int) == restore_cursor_seq(),
    {
        let visible = self.visible_lines();
        let mut output = String::new();
        push_save_cursor(&mut output);
        let empty_line = String::new();
        let mut row_idx: usize = 0;
        while row_idx < CHAT_VISIBLE_LINES
            invariant
                self.wf(),
                output@.len() >= 2,
                output@.subrange(0, 2) == save_cursor_seq(),
            decreases CHAT_VISIBLE_LINES - row_idx,
        {
            let screen_row = CHAT_REGION_START + row_idx;
            if row_idx < visible.len() {
                let line = &visible[row_idx];
                self.push_bordered_line(&mut output, screen_row, line);
            } else {
                self.push_bordered_line(&mut output, screen_row, &empty_line);
            }
            proof {
                assert(output@.subrange(0, 2) =~= save_cursor_seq());
            }
            row_idx += 1;
        }
        push_restore_cursor(&mut output);
        proof {
            assert(output@.subrange(0, 2) =~= save_cursor_seq());
            assert(output@.subrange(output@.len() - 2, output@.len() as int)
                =~= restore_cursor_seq());
        }
        output
    }

    /// Append one bordered content row: cursor positioning, the left border
    /// in DEC graphics, the line padded to the wrap width, and the right
    /// border.
    fn push_bordered_line(&self, output: &mut String, screen_row: usize, line: &String)
        requires
            self.wf(),
        ensures
            final(output)@.len() > old(output)@.len(),
            final(output)@.subrange(0, old(output)@.len() as int) == old(output)@,
    {
        let max_len = self.width - 4;
        let pos = cursor_to(screen_row, 1);
        output.append(pos.as_str());
        output.append(crate::dec_graphics::ENTER_DEC_GRAPHICS);
        let border = crate::dec_graphics::DecGraphicsChar::VerticalLine.as_dec_char();
        output.push(border);
        output.append(crate::dec_graphics::EXIT_DEC_GRAPHICS);
        output.push(' ');
        output.append(line.as_str());
        let vis = visible_len(line.as_str());
        let mut p: usize = vis;
        while p < max_len
            invariant
                output@.len() > old(output)@.len(),
                output@.subrange(0, old(output)@.len() as int) == old(output)@,
            decreases max_len - p,
        {
            output.push(' ');
            proof {
                assert(output@.subrange(0, old(output)@.len() as int) =~= old(output)@);
            }
            p += 1;
        }
        output.push(' ');
        output.append(crate::dec_graphics::ENTER_DEC_GRAPHICS);
        output.push(border);
        output.append(crate::dec_graphics::EXIT_DEC_GRAPHICS);
        proof {
            assert(output@.subrange(0, old(output)@.len() as int) =~= old(output)@);
        }
    }
}

} // verus!
