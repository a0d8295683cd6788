//! Keyboard input parsing for the serial terminal: single-byte events and
//! multi-byte escape sequences for special keys.

use vstd::prelude::*;

verus! {

/// Parsed escape sequences from terminal input.
#[derive(Debug, Clone, PartialEq, Eq, Structural)]
pub enum EscapeSequence {
    /// Page Up key
    PageUp,
    /// Page Down key
    PageDown,
    /// Up arrow key
    ArrowUp,
    /// Down arrow key
    ArrowDown,
    /// Right arrow key
    ArrowRight,
    /// Left arrow key
    ArrowLeft,
    /// Unknown or incomplete sequence
    Unknown,
}

/// Input events from the terminal.
#[derive(Debug, Clone, PartialEq, Eq, Structural)]
pub enum InputEvent {
    /// A printable character
    Char(char),
    /// Enter or Return
    Enter,
    /// Backspace or Delete
    Backspace,
    /// Tab key
    Tab,
    /// Ctrl+C
    CtrlC,
    /// Ctrl+R
    CtrlR,
    /// A parsed escape sequence
    Escape(EscapeSequence),
    /// Start of an escape sequence, more bytes needed
    EscapeStart,
    /// Space bar
    Space,
    /// A byte with no meaning here
    Ignore,
}

/// The event one input byte stands for.
pub open spec fn byte_event(byte: u8) -> InputEvent {
    if byte == 0x1b {
        InputEvent::EscapeStart
    } else if byte == 0x0d || byte == 0x0a {
        InputEvent::Enter
    } else if byte == 0x7f || byte == 0x08 {
        InputEvent::Backspace
    } else if byte == 0x09 {
        InputEvent::Tab
    } else if byte == 0x03 {
        InputEvent::CtrlC
    } else if byte == 0x12 {
        InputEvent::CtrlR
    } else if byte == 0x20 {
        InputEvent::Space
    } else if 0x21 <= byte < 0x7f {
        InputEvent::Char(byte as char)
    } else {
        InputEvent::Ignore
    }
}

/// Parse a single byte into an input event. Escape sequences start with
/// `EscapeStart` and continue through `EscapeParser::feed`.
pub fn parse_byte(byte: u8) -> (r: InputEvent)
    ensures
        r == byte_event(byte),
{
    if byte == 0x1b {
        InputEvent::EscapeStart
    } else if byte == 0x0d || byte == 0x0a {
        InputEvent::Enter
    } else if byte == 0x7f || byte == 0x08 {
        InputEvent::Backspace
    } else if byte == 0x09 {
        InputEvent::Tab
    } else if byte == 0x03 {
        InputEvent::CtrlC
    } else if byte == 0x12 {
        InputEvent::CtrlR
    } else if byte == 0x20 {
        InputEvent::Space
    } else if 0x21 <= byte && byte < 0x7f {
        InputEvent::Char(byte as char)
    } else {
        InputEvent::Ignore
    }
}

/// The bytes of the Page Up sequence.
pub open spec fn seq_page_up() -> Seq<u8> {
    seq![0x1bu8, 0x5bu8, 0x35u8, 0x7eu8]
}

/// The bytes of the Page Down sequence.
pub open spec fn seq_page_down() -> Seq<u8> {
    seq![0x1bu8, 0x5bu8, 0x36u8, 0x7eu8]
}

/// The bytes of the four arrow-key sequences, which share the prefix and
/// differ in their final byte, `A` through `D`.
pub open spec fn seq_arrow(fin: u8) -> Seq<u8> {
    seq![0x1bu8, 0x5bu8, fin]
}

/// What a buffered byte string means once at least three bytes are in: one
/// of the six known sequences, `Unknown` for anything that plainly ended or
/// ran too long, or nothing while more bytes could still complete it.
pub open spec fn escape_state(s: Seq<u8>) -> Option<EscapeSequence> {
    if s.len() < 3 {
        None
    } else if s == seq_page_up() {
        Some(EscapeSequence::PageUp)
    } else if s == seq_page_down() {
        Some(EscapeSequence::PageDown)
    } else if s == seq_arrow(0x41) {
        Some(EscapeSequence::ArrowUp)
    } else if s == seq_arrow(0x42) {
        Some(EscapeSequence::ArrowDown)
    } else if s == seq_arrow(0x43) {
        Some(EscapeSequence::ArrowRight)
    } else if s == seq_arrow(0x44) {
        Some(EscapeSequence::ArrowLeft)
    } else if s.len() > 6 || s.last() == 0x7e || (0x41 <= s.last() && s.last() <= 0x44) {
        Some(EscapeSequence::Unknown)
    } else {
        None
    }
}

/// Accumulates the bytes of one escape sequence until they resolve.
#[derive(Debug)]
pub struct EscapeParser {
    pub buffer: Vec<u8>,
}

impl EscapeParser {
    /// A parser with an empty buffer.
    pub fn new() -> (r: Self)
        ensures
            r.buffer@ == Seq::<u8>::empty(),
    {
        EscapeParser { buffer: Vec::new() }
    }

    /// Whether bytes of an unfinished sequence are pending.
    pub fn is_parsing(&self) -> (r: bool)
        ensures
            r == (self.buffer@.len() > 0),
    {
        !self.buffer.is_empty()
    }

    /// Drop any pending bytes.
    pub fn clear(&mut self)
        ensures
            final(self).buffer@ == Seq::<u8>::empty(),
    {
        self.buffer.clear();
    }

    /// Feed one byte. A recognized or plainly finished sequence is returned
    /// and the buffer reset; otherwise the byte is kept for the next call.
    pub fn feed(&mut self, byte: u8) -> (r: Option<EscapeSequence>)
        ensures
            r == escape_state(old(self).buffer@.push(byte)),
            r is Some ==> final(self).buffer@ == Seq::<u8>::empty(),
            r is None ==> final(self).buffer@ == old(self).buffer@.push(byte),
    {
        self.buffer.push(byte);
        let ghost s = self.buffer@;
        if self.buffer.len() >= 3 {
            if self.eq4(0x1b, 0x5b, 0x35, 0x7e) {
                proof {
                    assert(s =~= seq_page_up());
                }
                self.buffer.clear();
                return Some(EscapeSequence::PageUp);
            }
            if self.eq4(0x1b, 0x5b, 0x36, 0x7e) {
                proof {
                    assert(s =~= seq_page_down());
                    assert(s != seq_page_up());
                }
                self.buffer.clear();
                return Some(EscapeSequence::PageDown);
            }
            if self.eq3(0x1b, 0x5b, 0x41) {
                proof {
                    assert(s =~= seq_arrow(0x41));
                    assert(s != seq_page_up() && s != seq_page_down());
                }
                self.buffer.clear();
                return Some(EscapeSequence::ArrowUp);
            }
            if self.eq3(0x1b, 0x5b, 0x42) {
                proof {
                    assert(s =~= seq_arrow(0x42));
                    assert(s != seq_page_up() && s != seq_page_down() && s != seq_arrow(0x41));
                }
                self.buffer.clear();
                return Some(EscapeSequence::ArrowDown);
            }
            if self.eq3(0x1b, 0x5b, 0x43) {
                proof {
                    assert(s =~= seq_arrow(0x43));
                    assert(s != seq_page_up() && s != seq_page_down() && s != seq_arrow(0x41) && s
                        != seq_arrow(0x42));
                }
                self.buffer.clear();
                return Some(EscapeSequence::ArrowRight);
            }
            if self.eq3(0x1b, 0x5b, 0x44) {
                proof {
                    assert(s =~= seq_arrow(0x44));
                    assert(s != seq_page_up() && s != seq_page_down() && s != seq_arrow(0x41) && s
                        != seq_arrow(0x42) && s != seq_arrow(0x43));
                }
                self.buffer.clear();
                return Some(EscapeSequence::ArrowLeft);
            }
            proof {
                lemma_differs(s, seq_page_up());
                lemma_differs(s, seq_page_down());
                lemma_differs(s, seq_arrow(0x41));
                lemma_differs(s, seq_arrow(0x42));
                lemma_differs(s, seq_arrow(0x43));
                lemma_differs(s, seq_arrow(0x44));
            }
            let last = self.buffer[self.buffer.len() - 1];
            if self.buffer.len() > 6 || last == 0x7e || (0x41 <= last && last <= 0x44) {
                self.buffer.clear();
                return Some(EscapeSequence::Unknown);
            }
        }
        None
    }

    /// Whether the buffer is exactly these three bytes.
    fn eq3(&self, a: u8, b: u8, c: u8) -> (r: bool)
        ensures
            r == (self.buffer@ == seq![a, b, c]),
    {
        let r = self.buffer.len() == 3 && self.buffer[0] == a && self.buffer[1] == b
            && self.buffer[2] == c;
        proof {
            if r {
                assert(self.buffer@ =~= seq![a, b, c]);
            } else {
                if self.buffer@ == seq![a, b, c] {
                    assert(self.buffer@.len() == 3);
                    assert(self.buffer@[0] == a && self.buffer@[1] == b && self.buffer@[2] == c);
                }
            }
        }
        r
    }

    /// Whether the buffer is exactly these four bytes.
    fn eq4(&self, a: u8, b: u8, c: u8, d: u8) -> (r: bool)
        ensures
            r == (self.buffer@ == seq![a, b, c, d]),
    {
        let r = self.buffer.len() == 4 && self.buffer[0] == a && self.buffer[1] == b
            && self.buffer[2] == c && self.buffer[3] == d;
        proof {
            if r {
                assert(self.buffer@ =~= seq![a, b, c, d]);
            } else {
                if self.buffer@ == seq![a, b, c, d] {
                    assert(self.buffer@.len() == 4);
                    assert(self.buffer@[0] == a && self.buffer@[1] == b && self.buffer@[2] == c
                        && self.buffer@[3] == d);
                }
            }
        }
        r
    }
}

proof fn lemma_differs(s: Seq<u8>, t: Seq<u8>)
    requires
        s != t,
    ensures
        s.len() != t.len() || exists|i: int| 0 <= i < s.len() && s[i] != t[i],
{
    if s.len() == t.len() {
        if forall|i: int| 0 <= i < s.len() ==> s[i] == t[i] {
            assert(s =~= t);
        }
    }
}

} // verus!
