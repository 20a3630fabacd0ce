//! Event vocabulary shared by the PTY, input, and render tasks.

use vstd::prelude::*;

verus! {

/// Represents discrete state changes injected into the event loop.
#[derive(Debug)]
pub enum TerminalEvent {
    /// Bytes received from the PTY master.
    PtyOutput(Vec<u8>),
    /// Keystrokes or mouse events from the user.
    UserInput(Vec<u8>),
    /// A bracketed-paste payload; wrapping depends on the active DEC mode,
    /// which the orchestrator owns.
    Paste(String),
    /// Window resize triggers reflow.
    Resize { rows: u16, cols: u16 },
    /// SIGHUP or manual exit.
    Shutdown,
}

/// What a mouse button did.
#[derive(Debug, Clone, Copy, PartialEq, Eq, Structural)]
pub enum MouseAction {
    Press,
    Drag,
    Release,
}

#[derive(Debug, Clone, Copy, PartialEq, Eq, Structural)]
pub enum MouseButton {
    Left,
    Middle,
    Right,
    WheelUp,
    WheelDown,
}

/// Modifier keys held during an input event.
#[derive(Debug, Clone, Copy, PartialEq, Eq, Structural)]
pub struct Mods {
    pub ctrl: bool,
    pub shift: bool,
    pub alt: bool,
    pub super_: bool,
}

impl Default for Mods {
    fn default() -> (mods: Self)
        ensures
            mods == (Mods { ctrl: false, shift: false, alt: false, super_: false }),
    {
        Mods { ctrl: false, shift: false, alt: false, super_: false }
    }
}

/// A request to move the scrollback view.
#[derive(Debug, Clone, Copy, PartialEq, Eq, Structural)]
pub enum ScrollCmd {
    /// Positive scrolls up into history.
    Lines(isize),
    ToTop,
    ToBottom,
}

/// DEC mouse-reporting modes the child app has enabled.
#[derive(Debug, Clone, Copy, PartialEq, Eq, Structural)]
pub struct MouseMode {
    /// `?1000`: report press and release.
    pub button: bool,
    /// `?1002`: also report drag while a button is held.
    pub drag: bool,
    /// `?1006`: SGR-encoded reports (`\x1b[<b;c;rM`/`m`), else X10 fallback.
    pub sgr_encoded: bool,
}

impl MouseMode {
    pub open spec fn off() -> MouseMode {
        MouseMode { button: false, drag: false, sgr_encoded: false }
    }

    pub open spec fn reports(self) -> bool {
        self.button || self.drag
    }

    pub fn enabled(&self) -> (on: bool)
        ensures
            on == self.reports(),
    {
        self.button || self.drag
    }
}

impl Default for MouseMode {
    fn default() -> (mode: Self)
        ensures
            mode == MouseMode::off(),
    {
        MouseMode { button: false, drag: false, sgr_encoded: false }
    }
}

} // verus!
