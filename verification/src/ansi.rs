//! Control sequences: what each parsed action does to the screen, the cursor
//! and the reply stream.

use vstd::prelude::*;

use crate::cursor::CursorState;
use crate::event::MouseMode;
use crate::grid::Grid;
use crate::params::{param1, CsiParams};
use crate::screen::Screen;
use crate::text::{push_bytes, push_decimal};

verus! {

/// Everything a parsed action can change.
#[verifier::ext_equal]
pub struct Term {
    pub screen: Screen,
    pub cursor: CursorState,
    /// Bytes to be sent back to the child.
    pub replies: Seq<u8>,
}

/// Reply to Primary Device Attributes: `ESC [ ? 6 c`, a VT102.
pub open spec fn da1_reply() -> Seq<u8> {
    seq![0x1b, 0x5b, 0x3f, 0x36, 0x63]
}

/// Reply to a device status query: `ESC [ 0 n`.
pub open spec fn status_reply() -> Seq<u8> {
    seq![0x1b, 0x5b, 0x30, 0x6e]
}

/// Cursor position report, one-based: `ESC [ row ; col R`.
pub open spec fn position_reply(cur: CursorState) -> Seq<u8> {
    seq![0x1bu8, 0x5bu8] + crate::text::decimal((cur.row + 1) as nat) + seq![0x3bu8]
        + crate::text::decimal((cur.col + 1) as nat) + seq![0x52u8]
}

impl Term {
    pub open spec fn with_cursor(self, cursor: CursorState) -> Term {
        Term { cursor, ..self }
    }

    pub open spec fn with_screen(self, screen: Screen) -> Term {
        Term { screen, ..self }
    }

    pub open spec fn with_both(self, both: (Screen, CursorState)) -> Term {
        Term { screen: both.0, cursor: both.1, ..self }
    }

    pub open spec fn reply(self, bytes: Seq<u8>) -> Term {
        Term { replies: self.replies + bytes, ..self }
    }

    // ---- Printable characters ----

    pub open spec fn can_print(self) -> bool {
        self.screen.cols > 0 && self.cursor.row < self.screen.rows
    }

    pub open spec fn print(self, c: char) -> Term {
        self.with_both(self.screen.put(self.cursor, c))
    }

    // ---- C0 controls ----

    pub open spec fn can_execute(self, byte: u8) -> bool {
        if byte == 0x0a {
            self.screen.can_feed(self.cursor)
        } else if byte == 0x09 {
            (self.cursor.col as int / 8 + 1) * 8 <= usize::MAX
        } else {
            true
        }
    }

    pub open spec fn execute(self, byte: u8) -> Term {
        if byte == 0x07 {
            self.with_screen(
                Screen { bell_seq: self.screen.bell_seq.wrapping_add(1), ..self.screen },
            )
        } else if byte == 0x08 {
            self.with_cursor(self.cursor.with_backspace())
        } else if byte == 0x09 {
            self.with_cursor(self.screen.tabbed(self.cursor))
        } else if byte == 0x0a {
            self.with_both(self.screen.line_feed(self.cursor))
        } else if byte == 0x0d {
            self.with_cursor(self.cursor.at(self.cursor.row as int, 0))
        } else {
            self
        }
    }

    // ---- Escape sequences ----

    pub open spec fn can_esc(self, byte: u8) -> bool {
        if byte == 0x44 || byte == 0x45 {
            self.screen.can_feed(self.cursor)
        } else if byte == 0x4d {
            self.screen.can_reverse(self.cursor)
        } else {
            true
        }
    }

    /// `7` saves and `8` restores the cursor, `M` is reverse index, `D` index,
    /// `E` next line.
    pub open spec fn esc(self, byte: u8) -> Term {
        if byte == 0x37 {
            self.with_cursor(self.cursor.with_save())
        } else if byte == 0x38 {
            self.with_cursor(self.cursor.with_restore())
        } else if byte == 0x4d {
            self.with_both(self.screen.reverse_index(self.cursor))
        } else if byte == 0x44 {
            self.with_both(self.screen.line_feed(self.cursor))
        } else if byte == 0x45 {
            self.with_both(self.screen.line_feed(self.cursor.at(self.cursor.row as int, 0)))
        } else {
            self
        }
    }

    // ---- DEC private modes ----

    pub open spec fn can_mode(self, n: u16, set: bool) -> bool {
        if n == 47 || n == 1047 || n == 1049 {
            if set {
                self.screen.alt || self.screen.rows > 0
            } else {
                !self.screen.alt || self.screen.rows > 0
            }
        } else {
            true
        }
    }

    /// One mode set or reset.
    pub open spec fn mode(self, n: u16, set: bool) -> Term {
        let scr = self.screen;
        if n == 7 {
            self.with_screen(Screen { autowrap: set, ..scr })
        } else if n == 25 {
            self.with_cursor(CursorState { visible: set, ..self.cursor })
        } else if n == 47 || n == 1047 {
            if set {
                self.with_screen(scr.entered_alt())
            } else {
                self.with_screen(scr.left_alt())
            }
        } else if n == 1000 {
            self.with_screen(
                Screen { mouse_mode: MouseMode { button: set, ..scr.mouse_mode }, ..scr },
            )
        } else if n == 1002 {
            self.with_screen(
                Screen { mouse_mode: MouseMode { drag: set, ..scr.mouse_mode }, ..scr },
            )
        } else if n == 1006 {
            self.with_screen(
                Screen { mouse_mode: MouseMode { sgr_encoded: set, ..scr.mouse_mode }, ..scr },
            )
        } else if n == 1049 {
            if set {
                self.with_cursor(self.cursor.with_save()).with_screen(scr.entered_alt())
            } else {
                self.with_screen(scr.left_alt()).with_cursor(self.cursor.with_restore())
            }
        } else if n == 2004 {
            self.with_screen(Screen { bracketed_paste: set, ..scr })
        } else {
            self
        }
    }

    /// The modes named by the groups from `i` on, in order.
    pub open spec fn modes_from(self, params: Seq<Seq<u16>>, i: int, set: bool) -> Term
        decreases params.len() - i,
    {
        if i < 0 || i >= params.len() {
            self
        } else {
            self.mode(crate::params::param_or(params, i, 0), set).modes_from(params, i + 1, set)
        }
    }

    pub open spec fn can_modes_from(self, params: Seq<Seq<u16>>, i: int, set: bool) -> bool
        decreases params.len() - i,
    {
        if i < 0 || i >= params.len() {
            true
        } else {
            let n = crate::params::param_or(params, i, 0);
            self.can_mode(n, set) && self.mode(n, set).can_modes_from(params, i + 1, set)
        }
    }

    // ---- CSI sequences ----

    /// Is this a DEC private sequence (`CSI ? ...`)?
    pub open spec fn private(intermediates: Seq<u8>) -> bool {
        intermediates.len() > 0 && intermediates[0] == 0x3f
    }

    pub open spec fn can_csi(
        self,
        params: Seq<Seq<u16>>,
        intermediates: Seq<u8>,
        action: char,
    ) -> bool {
        let scr = self.screen;
        let cur = self.cursor;
        let n = crate::params::count_param(params, 1);
        if action == 'A' {
            scr.can_move(cur, 0, -n)
        } else if action == 'B' {
            scr.can_move(cur, 0, n)
        } else if action == 'C' {
            scr.can_move(cur, n, 0)
        } else if action == 'D' {
            scr.can_move(cur, -n, 0)
        } else if action == 'J' {
            scr.cols > 0 && scr.rows > 0
        } else if action == 'K' || action == 'P' || action == '@' {
            scr.rows > 0
        } else if action == 'X' {
            scr.rows > 0 && crate::screen::least(cur.col as int, scr.cols as int) + n <= usize::MAX
        } else if action == 'n' {
            crate::params::param(params, 0) == Some(6u16) ==> cur.row < usize::MAX && cur.col
                < usize::MAX
        } else if (action == 'h' || action == 'l') && Term::private(intermediates) {
            self.can_modes_from(params, 0, action == 'h')
        } else if action == 'r' && intermediates.len() == 0 {
            scr.rows > 0
        } else if action == 'L' || action == 'M' {
            scr.can_edit_lines(cur)
        } else {
            true
        }
    }

    pub open spec fn csi(
        self,
        params: Seq<Seq<u16>>,
        intermediates: Seq<u8>,
        action: char,
    ) -> Term {
        let scr = self.screen;
        let cur = self.cursor;
        let n = crate::params::count_param(params, 1);
        if action == 'm' {
            self.with_cursor(CursorState { pen: crate::sgr::sgr_pen(cur.pen, params), ..cur })
        } else if action == 'H' || action == 'f' {
            self.with_cursor(cur.with_position(params))
        } else if action == 'A' {
            self.with_cursor(scr.moved(cur, 0, -n))
        } else if action == 'B' {
            self.with_cursor(scr.moved(cur, 0, n))
        } else if action == 'C' {
            self.with_cursor(scr.moved(cur, n, 0))
        } else if action == 'D' {
            self.with_cursor(scr.moved(cur, -n, 0))
        } else if action == 'G' || action == '`' {
            self.with_cursor(scr.col_set(cur, n))
        } else if action == 'd' {
            self.with_cursor(scr.row_set(cur, n))
        } else if action == 'J' {
            self.with_screen(scr.erase_display(cur, crate::params::param_or(params, 0, 0)))
        } else if action == 'K' {
            self.with_screen(scr.erase_line(cur, crate::params::param_or(params, 0, 0)))
        } else if action == 'P' {
            self.with_screen(scr.delete_chars(cur, n))
        } else if action == '@' {
            self.with_screen(scr.insert_chars(cur, n))
        } else if action == 'X' {
            self.with_screen(scr.erase_chars(cur, n))
        } else if action == 'c' && intermediates.len() == 0 {
            self.reply(da1_reply())
        } else if action == 'n' {
            if crate::params::param(params, 0) == Some(5u16) {
                self.reply(status_reply())
            } else if crate::params::param(params, 0) == Some(6u16) {
                self.reply(position_reply(cur))
            } else {
                self
            }
        } else if (action == 'h' || action == 'l') && Term::private(intermediates) {
            self.modes_from(params, 0, action == 'h')
        } else if action == 'r' && intermediates.len() == 0 {
            let bottom = crate::params::param_or(params, 1, 0);
            self.with_both(
                (
                    scr.with_region(
                        crate::params::param_or(params, 0, 1) as int,
                        if bottom == 0 {
                            scr.rows as int
                        } else {
                            bottom as int
                        },
                    ),
                    cur.at(0, 0),
                ),
            )
        } else if action == 's' && intermediates.len() == 0 {
            self.with_cursor(cur.with_save())
        } else if action == 'u' && intermediates.len() == 0 {
            self.with_cursor(cur.with_restore())
        } else if action == 'L' {
            self.with_screen(scr.insert_lines(cur, n))
        } else if action == 'M' {
            self.with_screen(scr.delete_lines(cur, n))
        } else {
            self
        }
    }
}

/// Bridges the stateless parser and the stateful grid.
///
/// `responses` is the downward-flowing reply sink: queries like DA1/DSR push
/// their answer bytes here, and the orchestrator writes them back to the PTY
/// after the parse pass. This keeps the parser free of any PTY back-reference.
pub struct StateMutator<'a> {
    pub grid: &'a mut Grid,
    pub cursor: &'a mut CursorState,
    pub responses: &'a mut Vec<u8>,
}

impl<'a> StateMutator<'a> {
    /// What the mutator currently works on.
    pub open spec fn term(&self) -> Term {
        Term { screen: self.grid@, cursor: *self.cursor, replies: self.responses@ }
    }

    /// Standard printable character insertion.
    pub fn print(&mut self, c: char)
        requires
            old(self).term().screen.wf(),
            old(self).term().can_print(),
        ensures
            final(self).term() == old(self).term().print(c),
            final(self).term().screen.wf(),
            *final(final(self).grid) == *final(old(self).grid),
            *final(final(self).cursor) == *final(old(self).cursor),
            *final(final(self).responses) == *final(old(self).responses),
    {
        self.grid.write_char(self.cursor, c);
    }

    /// C0 control characters (e.g., \n, \r, \b).
    pub fn execute(&mut self, byte: u8)
        requires
            old(self).term().screen.wf(),
            old(self).term().can_execute(byte),
        ensures
            final(self).term() == old(self).term().execute(byte),
            final(self).term().screen.wf(),
            *final(final(self).grid) == *final(old(self).grid),
            *final(final(self).cursor) == *final(old(self).cursor),
            *final(final(self).responses) == *final(old(self).responses),
    {
        if byte == 0x07 {
            self.grid.ring_bell();
        } else if byte == 0x08 {
            self.cursor.backspace();
        } else if byte == 0x09 {
            self.grid.tab(self.cursor);
        } else if byte == 0x0a {
            self.grid.line_feed(self.cursor);
        } else if byte == 0x0d {
            self.cursor.col = 0;
        }
    }

    /// ESC-sequence dispatch: cursor save/restore and the index operations.
    pub fn esc_dispatch(&mut self, _intermediates: &[u8], _ignore: bool, byte: u8)
        requires
            old(self).term().screen.wf(),
            old(self).term().can_esc(byte),
        ensures
            final(self).term() == old(self).term().esc(byte),
            final(self).term().screen.wf(),
            *final(final(self).grid) == *final(old(self).grid),
            *final(final(self).cursor) == *final(old(self).cursor),
            *final(final(self).responses) == *final(old(self).responses),
    {
        if byte == 0x37 {
            self.cursor.save();
        } else if byte == 0x38 {
            self.cursor.restore();
        } else if byte == 0x4d {
            self.grid.reverse_index(self.cursor);
        } else if byte == 0x44 {
            self.grid.line_feed(self.cursor);
        } else if byte == 0x45 {
            self.cursor.col = 0;
            self.grid.line_feed(self.cursor);
        }
    }

    /// One DEC private mode set or reset.
    fn set_mode(&mut self, n: u16, set: bool)
        requires
            old(self).term().screen.wf(),
            old(self).term().can_mode(n, set),
        ensures
            final(self).term() == old(self).term().mode(n, set),
            final(self).term().screen.wf(),
            *final(final(self).grid) == *final(old(self).grid),
            *final(final(self).cursor) == *final(old(self).cursor),
            *final(final(self).responses) == *final(old(self).responses),
    {
        if n == 7 {
            self.grid.set_autowrap(set);
        } else if n == 25 {
            self.cursor.visible = set;
        } else if n == 47 || n == 1047 {
            if set {
                self.grid.enter_alt_screen();
            } else {
                self.grid.exit_alt_screen();
            }
        } else if n == 1000 || n == 1002 || n == 1006 {
            let mut mode = self.grid.mouse_mode();
            if n == 1000 {
                mode.button = set;
            } else if n == 1002 {
                mode.drag = set;
            } else {
                mode.sgr_encoded = set;
            }
            self.grid.set_mouse_mode(mode);
        } else if n == 1049 {
            // Save cursor + alt screen as one unit.
            if set {
                self.cursor.save();
                self.grid.enter_alt_screen();
            } else {
                self.grid.exit_alt_screen();
                self.cursor.restore();
            }
        } else if n == 2004 {
            self.grid.set_bracketed_paste(set);
        }
    }

    /// DEC private mode set (h) / reset (l), one group after the other.
    fn set_modes(&mut self, params: &CsiParams, set: bool)
        requires
            old(self).term().screen.wf(),
            old(self).term().can_modes_from(params@, 0, set),
        ensures
            final(self).term() == old(self).term().modes_from(params@, 0, set),
            final(self).term().screen.wf(),
            *final(final(self).grid) == *final(old(self).grid),
            *final(final(self).cursor) == *final(old(self).cursor),
            *final(final(self).responses) == *final(old(self).responses),
    {
        let mut i: usize = 0;
        while i < params.len()
            invariant
                i <= params@.len(),
                self.term().screen.wf(),
                self.term().can_modes_from(params@, i as int, set),
                self.term().modes_from(params@, i as int, set) == old(self).term().modes_from(
                    params@,
                    0,
                    set,
                ),
                *final(self.grid) == *final(old(self).grid),
                *final(self.cursor) == *final(old(self).cursor),
                *final(self.responses) == *final(old(self).responses),
            decreases params@.len() - i,
        {
            let n = params.first_or(i, 0);
            self.set_mode(n, set);
            i += 1;
        }
    }

    /// Device Status Report.
    fn report(&mut self, params: &CsiParams)
        requires
            old(self).term().can_csi(params@, Seq::empty(), 'n'),
        ensures
            final(self).term() == old(self).term().csi(params@, Seq::empty(), 'n'),
            *final(final(self).grid) == *final(old(self).grid),
            *final(final(self).cursor) == *final(old(self).cursor),
            *final(final(self).responses) == *final(old(self).responses),
    {
        let what = params.first(0);
        if what == Some(5u16) {
            push_bytes(self.responses, vec![0x1bu8, 0x5b, 0x30, 0x6e].as_slice());
        } else if what == Some(6u16) {
            // Cursor Position Report: 1-based row;col.
            let (row, col) = (self.cursor.row, self.cursor.col);
            self.responses.push(0x1b);
            self.responses.push(0x5b);
            push_decimal(self.responses, row + 1);
            self.responses.push(0x3b);
            push_decimal(self.responses, col + 1);
            self.responses.push(0x52);
        }
        assert(self.term() =~= old(self).term().csi(params@, Seq::empty(), 'n'));
    }

    /// DECSTBM: top;bottom scroll margins (defaults to full screen).
    fn set_margins(&mut self, params: &CsiParams)
        requires
            old(self).term().screen.wf(),
            old(self).term().screen.rows > 0,
        ensures
            final(self).term() == old(self).term().csi(params@, Seq::empty(), 'r'),
            final(self).term().screen.wf(),
            *final(final(self).grid) == *final(old(self).grid),
            *final(final(self).cursor) == *final(old(self).cursor),
            *final(final(self).responses) == *final(old(self).responses),
    {
        let top = params.first_or(0, 1) as usize;
        let named = params.first_or(1, 0) as usize;
        let bottom = if named == 0 {
            self.grid.rows()
        } else {
            named
        };
        self.grid.set_scroll_region(top, bottom, self.cursor);
    }

    /// ANSI escape sequences (e.g., color changes, cursor movement).
    pub fn csi_dispatch(
        &mut self,
        params: &CsiParams,
        intermediates: &[u8],
        _ignore: bool,
        action: char,
    )
        requires
            old(self).term().screen.wf(),
            old(self).term().can_csi(params@, intermediates@, action),
        ensures
            final(self).term() == old(self).term().csi(params@, intermediates@, action),
            final(self).term().screen.wf(),
            *final(final(self).grid) == *final(old(self).grid),
            *final(final(self).cursor) == *final(old(self).cursor),
            *final(final(self).responses) == *final(old(self).responses),
    {
        let n = param1(params, 1);
        let plain = intermediates.len() == 0;
        let private = intermediates.len() > 0 && intermediates[0] == 0x3f;
        match action {
            'm' => self.grid.update_attributes(self.cursor, params),
            'H' | 'f' => self.cursor.move_to(params),
            'A' => self.grid.move_rel(self.cursor, 0, -(n as isize)),
            'B' => self.grid.move_rel(self.cursor, 0, n as isize),
            'C' => self.grid.move_rel(self.cursor, n as isize, 0),
            'D' => self.grid.move_rel(self.cursor, -(n as isize), 0),
            'G' | '`' => self.grid.set_col(self.cursor, n),
            'd' => self.grid.set_row(self.cursor, n),
            'J' => self.grid.erase_in_display(self.cursor, params),
            'K' => {
                let mode = params.first_or(0, 0);
                self.grid.erase_in_line(self.cursor, mode);
            },
            'P' => self.grid.delete_chars(self.cursor, n),
            '@' => self.grid.insert_chars(self.cursor, n),
            'X' => self.grid.erase_chars(self.cursor, n),
            'c' => {
                if plain {
                    // Primary Device Attributes (DA1): reply as a VT102. fish only
                    // needs a valid response; without it, it warns and waits 2s.
                    push_bytes(self.responses, vec![0x1bu8, 0x5b, 0x3f, 0x36, 0x63].as_slice());
                }
            },
            'n' => self.report(params),
            'h' | 'l' => {
                if private {
                    self.set_modes(params, action == 'h');
                }
            },
            'r' => {
                if plain {
                    self.set_margins(params);
                }
            },
            's' => {
                if plain {
                    self.cursor.save();
                }
            },
            'u' => {
                if plain {
                    self.cursor.restore();
                }
            },
            'L' => self.grid.insert_lines(self.cursor, n),
            'M' => self.grid.delete_lines(self.cursor, n),
            _ => {},
        }
    }
}

} // verus!
