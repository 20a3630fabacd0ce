//! Cursor position, pen, and shape.

use vstd::prelude::*;

use crate::cell::Cell;
use crate::params::CsiParams;

verus! {

/// DECSCUSR cursor shape (`CSI Ps SP q`).
#[derive(Debug, Clone, Copy, PartialEq, Eq, Structural)]
pub enum CursorStyle {
    Block,
    Underline,
    Bar,
}

impl Default for CursorStyle {
    fn default() -> (style: Self)
        ensures
            style == CursorStyle::Block,
    {
        CursorStyle::Block
    }
}

/// Snapshot saved by DECSC (ESC 7 / CSI s) and restored by DECRC (ESC 8 / CSI u).
#[derive(Copy, Clone, Debug)]
pub struct SavedCursor {
    pub row: usize,
    pub col: usize,
    pub pen: Cell,
}

/// Cursor position and the active pen carried into newly written cells.
#[derive(Debug)]
pub struct CursorState {
    pub row: usize,
    pub col: usize,
    /// Pen attributes applied to every written cell (set by SGR).
    pub pen: Cell,
    /// DECTCEM (`CSI ?25 h/l`): whether the cursor block is drawn.
    pub visible: bool,
    /// DECSCUSR shape.
    pub style: CursorStyle,
    /// DECSCUSR blink flag. Renderer interprets together with a clock.
    pub blink: bool,
    /// What DECRC brings back, once DECSC has run.
    pub saved: Option<SavedCursor>,
}

impl CursorState {
    /// Top left corner, default pen, visible steady block, nothing saved.
    pub open spec fn home() -> CursorState {
        CursorState {
            row: 0,
            col: 0,
            pen: Cell::blank(),
            visible: true,
            style: CursorStyle::Block,
            blink: false,
            saved: None,
        }
    }

    /// This cursor moved to `row`, `col`.
    pub open spec fn at(self, row: int, col: int) -> CursorState {
        CursorState { row: row as usize, col: col as usize, ..self }
    }

    /// This cursor with position and pen remembered.
    pub open spec fn with_save(self) -> CursorState {
        CursorState {
            saved: Some(SavedCursor { row: self.row, col: self.col, pen: self.pen }),
            ..self
        }
    }

    /// This cursor with the remembered position and pen, if any.
    pub open spec fn with_restore(self) -> CursorState {
        match self.saved {
            Some(s) => CursorState { row: s.row, col: s.col, pen: s.pen, ..self },
            None => self,
        }
    }

    /// This cursor one column to the left, stopping at the first.
    pub open spec fn with_backspace(self) -> CursorState {
        if self.col > 0 {
            self.at(self.row as int, self.col - 1)
        } else {
            self
        }
    }

    /// One-based `row;col` to a zero-based position; absent and zero mean 1.
    pub open spec fn with_position(self, params: Seq<Seq<u16>>) -> CursorState {
        let row = crate::params::param_or(params, 0, 1);
        let col = crate::params::param_or(params, 1, 1);
        self.at(
            if row == 0 {
                0
            } else {
                row - 1
            },
            if col == 0 {
                0
            } else {
                col - 1
            },
        )
    }

    pub fn new() -> (cursor: Self)
        ensures
            cursor == CursorState::home(),
    {
        CursorState {
            row: 0,
            col: 0,
            pen: Cell::default(),
            visible: true,
            style: CursorStyle::Block,
            blink: false,
            saved: None,
        }
    }

    /// DECSC: save position + pen.
    pub fn save(&mut self)
        ensures
            *final(self) == old(self).with_save(),
    {
        self.saved = Some(SavedCursor { row: self.row, col: self.col, pen: self.pen });
    }

    /// DECRC: restore the saved position + pen (no-op if nothing saved).
    pub fn restore(&mut self)
        ensures
            *final(self) == old(self).with_restore(),
    {
        if let Some(s) = self.saved {
            self.row = s.row;
            self.col = s.col;
            self.pen = s.pen;
        }
    }

    pub fn backspace(&mut self)
        ensures
            *final(self) == old(self).with_backspace(),
    {
        if self.col > 0 {
            self.col -= 1;
        }
    }

    /// CSI H / CSI f: parameters are 1-based (row;col); absence means 1.
    pub fn move_to(&mut self, params: &CsiParams)
        ensures
            *final(self) == old(self).with_position(params@),
    {
        let row = params.first_or(0, 1);
        let col = params.first_or(1, 1);
        self.row = if row == 0 {
            0
        } else {
            row as usize - 1
        };
        self.col = if col == 0 {
            0
        } else {
            col as usize - 1
        };
    }
}

/// Saving and then restoring, whatever happened to position and pen in
/// between, brings both back.
pub proof fn law_restore_undoes_moves(c: CursorState, row: usize, col: usize, pen: Cell)
    ensures
        ({
            let away = CursorState { row, col, pen, ..c.with_save() };
            let back = away.with_restore();
            back.row == c.row && back.col == c.col && back.pen == c.pen
        }),
{
}

} // verus!
