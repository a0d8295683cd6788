//! UI components: tab bar, input area, borders.

use vstd::prelude::*;
use vstd::string::StrSliceExecFns;

use crate::dec_graphics::{
    dec_char_of, enter_seq, exit_seq, DecGraphicsChar, ENTER_DEC_GRAPHICS, EXIT_DEC_GRAPHICS,
};
use crate::terminal::{
    cursor_to, cursor_to_seq, push_restore_cursor, push_save_cursor, restore_cursor_seq,
    save_cursor_seq, Tab, CHAT_REGION_END, CHAT_REGION_START, CLEAR_SCREEN, CURSOR_HIDE,
    CURSOR_HOME, CURSOR_SHOW, INPUT_ROWS, INPUT_ROW_END, INPUT_ROW_START, RESET_ATTRS, REVERSE,
    TERMINAL_HEIGHT,
};

verus! {

/// Saturating addition on machine words.
fn sat_add(a: usize, b: usize) -> (r: usize)
    ensures
        r == if a + b <= usize::MAX {
            a + b
        } else {
            usize::MAX as int
        },
{
    if a <= usize::MAX - b {
        a + b
    } else {
        usize::MAX
    }
}

/// Saturating subtraction on machine words.
fn sat_sub(a: usize, b: usize) -> (r: usize)
    ensures
        r == if a >= b {
            a - b
        } else {
            0int
        },
{
    if a >= b {
        a - b
    } else {
        0
    }
}

/// One horizontal border line: a left connector, the line itself, a right
/// connector, all in DEC graphics.
pub fn draw_horizontal_line(left: DecGraphicsChar, right: DecGraphicsChar, width: usize) -> (r:
    String)
    requires
        width >= 2,
    ensures
        r@ == enter_seq() + seq![dec_char_of(left)] + Seq::new(
            (width - 2) as nat,
            |i: int| dec_char_of(DecGraphicsChar::HorizontalLine),
        ) + seq![dec_char_of(right)] + exit_seq(),
{
    let mut b = crate::dec_graphics::DecGraphicsBuilder::new();
    b.graphic(left);
    b.repeat_graphic(DecGraphicsChar::HorizontalLine, width - 2);
    b.graphic(right);
    let r = b.build();
    proof {
        assert(r@ =~= enter_seq() + seq![dec_char_of(left)] + Seq::new(
            (width - 2) as nat,
            |i: int| dec_char_of(DecGraphicsChar::HorizontalLine),
        ) + seq![dec_char_of(right)] + exit_seq());
    }
    r
}

/// One tab caption: bracketed in reverse video when active, with the switch
/// hint when it is next in rotation, plain otherwise.
fn tab_caption(label: &str, is_active: bool, is_next: bool) -> (r: String)
    ensures
        r@.len() >= label@.len(),
{
    let mut out = String::new();
    if is_active {
        out.append(REVERSE);
        out.push('[');
        out.append(label);
        out.push(']');
        out.append(RESET_ATTRS);
    } else if is_next {
        out.push(' ');
        out.append(label);
        out.append(" <Tab> ");
    } else {
        out.push(' ');
        out.append(label);
        out.push(' ');
    }
    out
}

/// Append one horizontal-line character in DEC graphics, with the switches.
fn push_separator(out: &mut String)
    ensures
        final(out)@.len() > old(out)@.len(),
{
    out.append(ENTER_DEC_GRAPHICS);
    let c = DecGraphicsChar::HorizontalLine.as_dec_char();
    out.push(c);
    out.append(EXIT_DEC_GRAPHICS);
}

/// Everything of the tab bar after the initial cursor move: corner pieces,
/// captions, hints and line filler.
fn tab_bar_body(
    active_tab: Tab,
    gemini_available: bool,
    active_call: Option<&str>,
    width: usize,
) -> (r: String) {
    let mut body = String::new();
    body.append(ENTER_DEC_GRAPHICS);
    let ul = DecGraphicsChar::UpperLeftCorner.as_dec_char();
    body.push(ul);
    body.append(EXIT_DEC_GRAPHICS);

    let call_active = match active_call {
        Some(_) => true,
        None => false,
    };
    let next = active_tab.next(gemini_available, call_active);

    let chat_active = match active_tab {
        Tab::Chat => true,
        _ => false,
    };
    let chat_next = match next {
        Tab::Chat => true,
        _ => false,
    };
    let chat_caption = tab_caption("Chat", chat_active, chat_next);
    body.append(chat_caption.as_str());

    let mut used: usize = 1;
    used = sat_add(
        used,
        if chat_active {
            6
        } else if chat_next {
            12
        } else {
            6
        },
    );

    match active_call {
        Some(peer_name) => {
            push_separator(&mut body);
            let mut label = String::new();
            label.append("Call (");
            label.append(peer_name);
            label.push(')');
            let is_active = match active_tab {
                Tab::Call => true,
                _ => false,
            };
            let is_next = match next {
                Tab::Call => true,
                _ => false,
            };
            let cap = tab_caption(label.as_str(), is_active, is_next);
            body.append(cap.as_str());
            used = sat_add(used, 1);
            let label_len = sat_add(7, peer_name.unicode_len());
            if is_active {
                used = sat_add(used, sat_add(label_len, 2));
            } else if is_next {
                used = sat_add(used, sat_add(label_len, 8));
            } else {
                used = sat_add(used, sat_add(label_len, 2));
            }
        }
        None => {}
    }

    if gemini_available {
        push_separator(&mut body);
        let is_active = match active_tab {
            Tab::Gemini => true,
            _ => false,
        };
        let is_next = match next {
            Tab::Gemini => true,
            _ => false,
        };
        let cap = tab_caption("AI", is_active, is_next);
        body.append(cap.as_str());
        used = sat_add(used, 1);
        if is_active {
            used = sat_add(used, 4);
        } else if is_next {
            used = sat_add(used, 10);
        } else {
            used = sat_add(used, 4);
        }
    }

    used = sat_add(used, 19);
    used = sat_add(used, 1);

    let remaining = sat_sub(width, used);
    body.append(ENTER_DEC_GRAPHICS);
    let hl = DecGraphicsChar::HorizontalLine.as_dec_char();
    let mut k: usize = 0;
    while k < remaining
        decreases remaining - k,
    {
        body.push(hl);
        k += 1;
    }
    body.append(EXIT_DEC_GRAPHICS);
    body.append(" ^Refresh / ^Clear ");
    body.append(ENTER_DEC_GRAPHICS);
    let ur = DecGraphicsChar::UpperRightCorner.as_dec_char();
    body.push(ur);
    body.append(EXIT_DEC_GRAPHICS);
    body
}

/// The top border with tab captions: the corner pieces, the captions with
/// the active one highlighted, the refresh and clear hints, and a filler of
/// horizontal line characters sized to the width. The output begins by
/// positioning the cursor at the top left corner.
pub fn draw_tab_bar(
    active_tab: Tab,
    gemini_available: bool,
    active_call: Option<&str>,
    width: usize,
) -> (r: String)
    ensures
        r@.len() >= 6,
        r@.subrange(0, 6) == cursor_to_seq(1, 1),
{
    let mut output = cursor_to(1, 1);
    let body = tab_bar_body(active_tab, gemini_available, active_call, width);
    output.append(body.as_str());
    proof {
        assert(crate::util::dec_digits(1int) =~= seq!['1']);
        assert(cursor_to_seq(1, 1).len() == 6);
        assert(output@.subrange(0, 6) =~= cursor_to_seq(1, 1));
    }
    output
}

/// Redraw only the tab bar, bracketed by a cursor save and restore.
pub fn redraw_tab_bar(
    active_tab: Tab,
    gemini_available: bool,
    active_call: Option<&str>,
    width: usize,
) -> (r: String)
    ensures
        r@.len() >= 4,
        r@.subrange(0, 2) == save_cursor_seq(),
        r@.subrange(r@.len() - 2, r@.len() as int) == restore_cursor_seq(),
{
    let mut output = String::new();
    push_save_cursor(&mut output);
    let bar = draw_tab_bar(active_tab, gemini_available, active_call, width);
    output.append(bar.as_str());
    push_restore_cursor(&mut output);
    proof {
        assert(output@.subrange(0, 2) =~= save_cursor_seq());
        assert(output@.subrange(output@.len() - 2, output@.len() as int) =~= restore_cursor_seq());
    }
    output
}

/// The input characters the prompt leaves room for: what remains of the
/// first input row after the bracketed name, plus the full content width of
/// every further input row.
pub fn max_input_length(client_name: &str, width: usize) -> (r: usize)
    requires
        width >= 4,
        client_name@.len() + 3 <= width - 4,
        (width - 4) * (INPUT_ROWS - 1) + (width - 4) <= usize::MAX,
    ensures
        r == (width - 4) - (client_name@.len() + 3) + (width - 4) * (INPUT_ROWS - 1),
{
    let prompt_len = sat_add(client_name.unicode_len(), 3);
    let input_content_width = width - 4;
    let first_row_capacity = input_content_width - prompt_len;
    let other_rows_capacity = input_content_width * (INPUT_ROWS - 1);
    first_row_capacity + other_rows_capacity
}

/// Append a left and right vertical border for one row.
fn push_side_borders(out: &mut String, row: usize, width: usize)
    ensures
        final(out)@.len() > old(out)@.len(),
{
    let pos = cursor_to(row, 1);
    out.append(pos.as_str());
    out.append(ENTER_DEC_GRAPHICS);
    let vl = DecGraphicsChar::VerticalLine.as_dec_char();
    out.push(vl);
    out.append(EXIT_DEC_GRAPHICS);
    let pos2 = cursor_to(row, width);
    out.append(pos2.as_str());
    out.append(ENTER_DEC_GRAPHICS);
    out.push(vl);
    out.append(EXIT_DEC_GRAPHICS);
}

/// Everything of the split-screen setup after the clear and home: the tab
/// bar, borders, separator, prompt and cursor choice.
fn split_screen_body(
    client_name: &str,
    active_tab: Tab,
    gemini_available: bool,
    active_call: Option<&str>,
    call_status: Option<&str>,
    width: usize,
) -> (r: String)
    requires
        width >= 2,
{
    let mut body = draw_tab_bar(active_tab, gemini_available, active_call, width);
    let is_call = match active_tab {
        Tab::Call => true,
        _ => false,
    };
    if is_call {
        let mut row: usize = 2;
        while row <= 23
            decreases 24 - row,
        {
            push_side_borders(&mut body, row, width);
            row += 1;
        }
        let pos = cursor_to(24, 1);
        body.append(pos.as_str());
        let bottom = draw_horizontal_line(
            DecGraphicsChar::LowerLeftCorner,
            DecGraphicsChar::LowerRightCorner,
            width,
        );
        body.append(bottom.as_str());
        match call_status {
            Some(status) => {
                let pos2 = cursor_to(23, 3);
                body.append(pos2.as_str());
                body.append(status);
            }
            None => {}
        }
        body.append(CURSOR_HIDE);
    } else {
        let mut row: usize = CHAT_REGION_START;
        while row <= CHAT_REGION_END
            decreases CHAT_REGION_END + 1 - row,
        {
            push_side_borders(&mut body, row, width);
            row += 1;
        }
        let pos = cursor_to(21, 1);
        body.append(pos.as_str());
        let sep = draw_horizontal_line(DecGraphicsChar::LeftTee, DecGraphicsChar::RightTee, width);
        body.append(sep.as_str());
        let mut row2: usize = INPUT_ROW_START;
        while row2 <= INPUT_ROW_END
            decreases INPUT_ROW_END + 1 - row2,
        {
            push_side_borders(&mut body, row2, width);
            row2 += 1;
        }
        let pos3 = cursor_to(INPUT_ROW_START, 2);
        body.append(pos3.as_str());
        body.push('[');
        body.append(client_name);
        body.append("] ");
        let pos4 = cursor_to(24, 1);
        body.append(pos4.as_str());
        let bottom = draw_horizontal_line(
            DecGraphicsChar::LowerLeftCorner,
            DecGraphicsChar::LowerRightCorner,
            width,
        );
        body.append(bottom.as_str());
        let prompt_len = sat_add(client_name.unicode_len(), 3);
        let pos5 = cursor_to(INPUT_ROW_START, sat_add(2, prompt_len));
        body.append(pos5.as_str());
        body.append(CURSOR_SHOW);
    }
    body
}

/// Initialize the split-screen layout: clear the screen, draw the tab bar,
/// the side borders, the separator and bottom border, and the prompt; a call
/// tab instead gets one full box with an optional status line. The output
/// starts with the clear-screen and cursor-home sequences.
pub fn init_split_screen_with_tabs(
    client_name: &str,
    active_tab: Tab,
    gemini_available: bool,
    active_call: Option<&str>,
    call_status: Option<&str>,
    width: usize,
) -> (r: String)
    requires
        width >= 2,
    ensures
        r@.len() >= 7,
        r@.subrange(0, 4) == "\x1b[2J"@,
        r@.subrange(4, 7) == "\x1b[H"@,
{
    let mut output = String::new();
    output.append(CLEAR_SCREEN);
    output.append(CURSOR_HOME);
    let body = split_screen_body(
        client_name,
        active_tab,
        gemini_available,
        active_call,
        call_status,
        width,
    );
    output.append(body.as_str());
    proof {
        reveal_strlit("\x1b[2J");
        reveal_strlit("\x1b[H");
        assert(output@.subrange(0, 4) =~= "\x1b[2J"@);
        assert(output@.subrange(4, 7) =~= "\x1b[H"@);
    }
    output
}

/// The input rows and the final cursor placement, after the initial cursor
/// move to the first input row.
fn input_body(client_name: &str, buffer: &str, cursor_pos: usize, width: usize) -> (r: String)
    requires
        width >= 4,
        client_name@.len() + 3 < width - 4,
{
    let input_content_width = width - 4;
    let prompt_len = sat_add(client_name.unicode_len(), 3);
    let first_row_capacity = input_content_width - prompt_len;
    let buf_chars = buffer.unicode_len();

    let mut body = String::new();
    body.append(ENTER_DEC_GRAPHICS);
    let vl = DecGraphicsChar::VerticalLine.as_dec_char();
    body.push(vl);
    body.append(EXIT_DEC_GRAPHICS);
    body.push('[');
    body.append(client_name);
    body.append("] ");
    let first_end = if buf_chars <= first_row_capacity {
        buf_chars
    } else {
        first_row_capacity
    };
    let first_part = buffer.substring_char(0, first_end);
    body.append(first_part);
    let mut pad: usize = first_end;
    while pad < first_row_capacity
        decreases first_row_capacity - pad,
    {
        body.push(' ');
        pad += 1;
    }
    body.push(' ');
    body.append(ENTER_DEC_GRAPHICS);
    body.push(vl);
    body.append(EXIT_DEC_GRAPHICS);

    let mut row: usize = 1;
    let mut consumed: usize = first_end;
    while row < INPUT_ROWS
        invariant
            consumed <= buf_chars,
            buf_chars == buffer@.len(),
            input_content_width == width - 4,
            width >= 4,
        decreases INPUT_ROWS - row,
    {
        let pos2 = cursor_to(INPUT_ROW_START + row, 1);
        body.append(pos2.as_str());
        body.append(ENTER_DEC_GRAPHICS);
        body.push(vl);
        body.append(EXIT_DEC_GRAPHICS);
        let take = if buf_chars - consumed <= input_content_width {
            buf_chars - consumed
        } else {
            input_content_width
        };
        let part = buffer.substring_char(consumed, consumed + take);
        body.append(part);
        consumed += take;
        let mut pad2: usize = take;
        while pad2 < input_content_width
            decreases input_content_width - pad2,
        {
            body.push(' ');
            pad2 += 1;
        }
        body.push(' ');
        body.append(ENTER_DEC_GRAPHICS);
        body.push(vl);
        body.append(EXIT_DEC_GRAPHICS);
        row += 1;
    }

    let (cursor_row, cursor_col) = if cursor_pos <= first_row_capacity {
        (INPUT_ROW_START, sat_add(sat_add(2, prompt_len), cursor_pos))
    } else {
        let chars_after_first = cursor_pos - first_row_capacity;
        let mut row_index = sat_add(1, chars_after_first / input_content_width);
        let mut col_in_row = chars_after_first % input_content_width;
        if row_index >= INPUT_ROWS {
            row_index = INPUT_ROWS - 1;
            col_in_row = input_content_width;
        }
        (INPUT_ROW_START + row_index, sat_add(2, col_in_row))
    };
    let pos3 = cursor_to(cursor_row, cursor_col);
    body.append(pos3.as_str());
    body
}

/// Redraw the input rows with the buffer's contents and put the cursor where
/// the insertion point sits. The output starts by positioning the cursor at
/// the first input row.
pub fn redraw_input(client_name: &str, buffer: &str, cursor_pos: usize, width: usize) -> (r:
    String)
    requires
        width >= 4,
        client_name@.len() + 3 < width - 4,
    ensures
        r@.len() >= 7,
        r@.subrange(0, cursor_to_seq(INPUT_ROW_START as int, 1).len() as int) == cursor_to_seq(
            INPUT_ROW_START as int,
            1,
        ),
{
    let mut output = cursor_to(INPUT_ROW_START, 1);
    let body = input_body(client_name, buffer, cursor_pos, width);
    output.append(body.as_str());
    proof {
        assert(crate::util::dec_digits(2int) =~= seq!['2']);
        assert(crate::util::dec_digits(22int) =~= seq!['2', '2']);
        assert(crate::util::dec_digits(1int) =~= seq!['1']);
        assert(cursor_to_seq(INPUT_ROW_START as int, 1).len() == 7);
        assert(output@.subrange(0, 7) =~= cursor_to_seq(INPUT_ROW_START as int, 1));
    }
    output
}

/// Everything of the goodbye screen after the reset and clear: a sad
/// terminal face and its message, centered.
fn goodbye_body(width: usize) -> (r: String) {
    let mut body = String::new();
    let face: [&'static str; 6] = [
        " .-------. ",
        " | X   X | ",
        " |   L   | ",
        " |  ___  | ",
        " | /   \\ | ",
        " '-------' ",
    ];
    let messages: [&'static str; 2] = [
        "Wormhole server is not running.",
        "Please check logs or restart the device.",
    ];
    let total_lines: usize = 10;
    let start_row = (TERMINAL_HEIGHT - total_lines) / 2;

    let mut i: usize = 0;
    while i < 6
        decreases 6 - i,
    {
        let line = face[i];
        let padding = sat_sub(width, line.len()) / 2;
        let pos = cursor_to(sat_add(start_row, i), sat_add(padding, 1));
        body.append(pos.as_str());
        body.append(line);
        i += 1;
    }
    let text_start_row = sat_add(start_row, 8);
    let mut j: usize = 0;
    while j < 2
        decreases 2 - j,
    {
        let line = messages[j];
        let padding = sat_sub(width, line.len()) / 2;
        let pos = cursor_to(sat_add(text_start_row, j), sat_add(padding, 1));
        body.append(pos.as_str());
        body.append(line);
        j += 1;
    }
    let pos = cursor_to(TERMINAL_HEIGHT, 1);
    body.append(pos.as_str());
    body
}

/// The goodbye screen: reset the scroll region, clear, and center a sad
/// terminal face with its message. The output starts with the scroll-region
/// reset and the clear-screen sequence.
pub fn cleanup_split_screen(width: usize) -> (r: String)
    ensures
        r@.len() >= 7,
        r@.subrange(0, 3) == seq!['\x1b', '[', 'r'],
        r@.subrange(3, 7) == "\x1b[2J"@,
{
    let mut output = String::new();
    let reset = crate::terminal::reset_scroll_region();
    output.append(reset.as_str());
    output.append(CLEAR_SCREEN);
    let body = goodbye_body(width);
    output.append(body.as_str());
    proof {
        reveal_strlit("\x1b[2J");
        assert(output@.subrange(0, 3) =~= seq!['\x1b', '[', 'r']);
        assert(output@.subrange(3, 7) =~= "\x1b[2J"@);
    }
    output
}

} // verus!
