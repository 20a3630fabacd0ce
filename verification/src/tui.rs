//! The terminal in a terminal: the sole owner of screen, cursor and parser,
//! and what each event does to them.

use vstd::prelude::*;

use crate::ansi::{StateMutator, Term};
use crate::cursor::CursorState;
use crate::event::TerminalEvent;
use crate::grid::Grid;
use crate::keys::Key;
use crate::render::CrosstermRenderer;
use crate::screen::Screen;
use crate::stream::ByteStream;

verus! {

/// What an event asks of the outside, in this order.
#[derive(Debug)]
pub struct Reaction {
    /// Write these to the PTY; if that fails, stop.
    pub write: Option<Vec<u8>>,
    /// Tell the PTY its new size, rows first.
    pub pty_size: Option<(u16, u16)>,
    /// Draw a frame.
    pub draw: bool,
    pub stop: bool,
    /// Output was cut off in front of something the screen cannot take, such
    /// as a character below the last row.
    pub overrun: bool,
}

impl Reaction {
    /// Nothing to do but write, perhaps.
    pub open spec fn only_writes(self) -> bool {
        self.pty_size is None && !self.draw && !self.stop && !self.overrun
    }
}

/// The orchestrator of the crossterm frontend.
pub struct Tui {
    pub grid: Grid,
    pub cursor: CursorState,
    pub stream: ByteStream,
    pub renderer: CrosstermRenderer,
}

impl Tui {
    pub open spec fn term(self) -> Term {
        Term { screen: self.grid@, cursor: self.cursor, replies: Seq::empty() }
    }

    /// The terminal after output.
    pub open spec fn ran(self, bytes: Seq<u8>) -> Term {
        self.term().run(crate::stream::actions_of(self.stream@, bytes))
    }

    /// Has this event nothing to do with screen, cursor, parser and frame?
    pub open spec fn same_as(self, other: Tui) -> bool {
        &&& self.grid@ == other.grid@
        &&& self.cursor == other.cursor
        &&& self.stream@ == other.stream@
        &&& self.renderer == other.renderer
    }

    pub fn new(cols: u16, rows: u16, scrollback: usize) -> (tui: Self)
        requires
            scrollback <= isize::MAX,
            rows + scrollback <= usize::MAX,
        ensures
            tui.grid@ == Screen::fresh(cols as usize, rows as usize, scrollback),
            tui.grid@.wf(),
            tui.cursor == CursorState::home(),
            tui.stream@ == Seq::<u8>::empty(),
            tui.renderer.cols == cols,
            tui.renderer.rows == rows,
            tui.renderer.last_cursor is None,
            tui.renderer.wf(),
    {
        proof {
            lemma_cells(cols, rows);
        }
        Tui {
            grid: Grid::new(cols as usize, rows as usize, scrollback),
            cursor: CursorState::new(),
            stream: ByteStream::new(),
            renderer: CrosstermRenderer::new(cols as usize, rows as usize),
        }
    }

    /// Take an event.
    pub fn handle(&mut self, event: TerminalEvent) -> (reaction: Reaction)
        requires
            old(self).grid@.wf(),
            event is PtyOutput ==> old(self).term().bounded(),
            event matches TerminalEvent::Resize { rows, cols } ==> rows + old(
                self,
            ).grid@.max_history <= usize::MAX,
        ensures
            final(self).grid@.wf(),
            event matches TerminalEvent::PtyOutput(bytes) ==> {
                let after = old(self).ran(bytes@);
                &&& final(self).grid@ == after.screen
                &&& final(self).cursor == after.cursor
                &&& final(self).stream@ == old(self).stream@ + bytes@
                &&& final(self).renderer == old(self).renderer
                &&& final(self).term().bounded()
                &&& reaction.overrun == !old(self).term().runs(
                    crate::stream::actions_of(old(self).stream@, bytes@),
                )
                &&& crate::keys::same_bytes(
                    reaction.write,
                    if after.replies.len() > 0 {
                        Some(after.replies)
                    } else {
                        None
                    },
                )
                &&& reaction.pty_size is None
                &&& reaction.draw
                &&& !reaction.stop
            },
            event matches TerminalEvent::UserInput(bytes) ==> {
                &&& final(self).same_as(*old(self))
                &&& crate::keys::same_bytes(reaction.write, Some(bytes@))
                &&& reaction.only_writes()
            },
            event matches TerminalEvent::Paste(text) ==> {
                &&& final(self).same_as(*old(self))
                &&& crate::keys::same_bytes(
                    reaction.write,
                    Some(crate::keys::paste_payload(text@, old(self).grid@.bracketed_paste)),
                )
                &&& reaction.only_writes()
            },
            event matches TerminalEvent::Resize { rows, cols } ==> {
                &&& final(self).grid@ == old(self).grid@.resized(cols as usize, rows as usize)
                &&& final(self).cursor == old(self).grid@.resized_cursor(
                    cols as usize,
                    rows as usize,
                    old(self).cursor,
                )
                &&& final(self).stream@ == old(self).stream@
                &&& final(self).renderer.cols == cols
                &&& final(self).renderer.rows == rows
                &&& final(self).renderer.diff@ == Seq::new(
                    (cols * rows) as nat,
                    |i: int| crate::render::sentinel(),
                )
                &&& final(self).renderer.last_cursor is None
                &&& final(self).renderer.wf()
                &&& reaction.write is None
                &&& reaction.pty_size == Some((rows, cols))
                &&& reaction.draw
                &&& !reaction.stop
                &&& !reaction.overrun
            },
            event is Shutdown ==> {
                &&& final(self).same_as(*old(self))
                &&& reaction.write is None
                &&& reaction.pty_size is None
                &&& !reaction.draw
                &&& reaction.stop
                &&& !reaction.overrun
            },
    {
        match event {
            TerminalEvent::PtyOutput(bytes) => {
                let mut responses: Vec<u8> = Vec::new();
                let mut mutator = StateMutator {
                    grid: &mut self.grid,
                    cursor: &mut self.cursor,
                    responses: &mut responses,
                };
                assert(mutator.term() =~= old(self).term());
                let all = self.stream.feed(&mut mutator, bytes.as_slice());
                let write = if responses.len() > 0 {
                    Some(responses)
                } else {
                    None
                };
                Reaction { write, pty_size: None, draw: true, stop: false, overrun: !all }
            },
            TerminalEvent::UserInput(bytes) => Reaction {
                write: Some(bytes),
                pty_size: None,
                draw: false,
                stop: false,
                overrun: false,
            },
            TerminalEvent::Paste(text) => {
                let bytes = crate::keys::paste_bytes(text.as_str(), self.grid.bracketed_paste());
                Reaction {
                    write: Some(bytes),
                    pty_size: None,
                    draw: false,
                    stop: false,
                    overrun: false,
                }
            },
            TerminalEvent::Resize { rows, cols } => {
                proof {
                    lemma_cells(cols, rows);
                }
                self.grid.resize(cols as usize, rows as usize, &mut self.cursor);
                self.renderer.resize(cols as usize, rows as usize);
                Reaction {
                    write: None,
                    pty_size: Some((rows, cols)),
                    draw: true,
                    stop: false,
                    overrun: false,
                }
            },
            TerminalEvent::Shutdown => Reaction {
                write: None,
                pty_size: None,
                draw: false,
                stop: true,
                overrun: false,
            },
        }
    }
}

/// A screen of 16-bit size has a number of cells that fits the machine.
proof fn lemma_cells(cols: u16, rows: u16)
    ensures
        0 <= cols * rows <= usize::MAX,
{
    assert(0 <= cols * rows <= 0xFFFF * 0xFFFF) by (nonlinear_arith)
        requires
            0 <= cols <= 0xFFFF,
            0 <= rows <= 0xFFFF,
    ;
}

/// Translate a key event into the bytes a PTY expects. Releases send nothing.
pub fn encode_event(key: &Key, release: bool, ctrl: bool) -> (out: Option<Vec<u8>>)
    ensures
        crate::keys::same_bytes(
            out,
            if release {
                None
            } else {
                crate::keys::key_bytes(*key, ctrl)
            },
        ),
{
    if release {
        None
    } else {
        crate::keys::encode_key(key, ctrl)
    }
}

/// Output runs through the parser onto screen and cursor, from where they and
/// the parser stand; replies start anew.
pub proof fn law_output_runs(tui: Tui, bytes: Seq<u8>)
    ensures
        tui.term().screen == tui.grid@,
        tui.term().cursor == tui.cursor,
        tui.term().replies.len() == 0,
        tui.ran(bytes) == tui.term().run(crate::stream::actions_of(tui.stream@, bytes)),
{
}

} // verus!
