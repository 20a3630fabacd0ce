//! The windowed terminal between the window system and the PTY: what each
//! input event does to the screen, and what has to be sent, drawn or copied.

use vstd::prelude::*;

use crate::ansi::{StateMutator, Term};
use crate::cursor::CursorState;
use crate::event::{Mods, MouseAction, MouseButton};
use crate::find::{FindModel, FindState};
use crate::grid::Grid;
use crate::keys::{Key, NamedKey, Zoom};
use crate::screen::Screen;
use crate::selection::{AbsCoord, Selection};
use crate::stream::ByteStream;

verus! {

/// Idle PTY poll cadence in milliseconds. The window system gives no wakeup on
/// PTY data, so the loop ticks.
pub const POLL_MS: u64 = 5;

/// Pace of running animations.
pub const FRAME_MS: u64 = 16;

/// Pace while only the cursor blinks.
pub const BLINK_MS: u64 = 250;

/// The state of the terminal.
#[verifier::ext_equal]
pub struct AppModel {
    pub screen: Screen,
    pub cursor: CursorState,
    /// Bytes of output parsed so far.
    pub seen: Seq<u8>,
    pub find: Option<FindModel>,
    pub cols: usize,
    pub rows: usize,
    pub mods: Mods,
    pub button_down: Option<MouseButton>,
    pub last_cell: Option<(usize, usize)>,
    pub alt_was_active: bool,
    pub last_bell_seq: u64,
    pub last_title_seq: u64,
}

/// What a key press comes to.
pub enum KeyEffect {
    /// Find mode took it.
    Find,
    /// The selection goes to the clipboard.
    Copy,
    /// The clipboard goes to the app.
    Paste,
    Zoom(Zoom),
    /// The view moved.
    Scroll,
    /// Bytes go to the app; the view may have snapped to the bottom.
    Send(Seq<u8>, bool),
    Ignored,
}

impl AppModel {
    pub open spec fn term(self) -> Term {
        Term { screen: self.screen, cursor: self.cursor, replies: Seq::empty() }
    }

    /// What every event keeps: screen, cursor and view are in order, the size
    /// is the screen's, and sizes are far from the machine's limits.
    pub open spec fn wf(self) -> bool {
        &&& self.term().bounded()
        &&& self.screen.view_ok()
        &&& self.screen.max_history <= isize::MAX / 2
        &&& 0 < self.cols
        &&& 0 < self.rows
        &&& self.cols == self.screen.cols
        &&& self.rows == self.screen.rows
        &&& self.find matches Some(f) ==> f.wf()
    }

    /// A new terminal of this size.
    pub open spec fn fresh(cols: usize, rows: usize, scrollback: usize) -> AppModel {
        AppModel {
            screen: Screen::fresh(cols, rows, scrollback),
            cursor: CursorState::home(),
            seen: Seq::empty(),
            find: None,
            cols,
            rows,
            mods: Mods { ctrl: false, shift: false, alt: false, super_: false },
            button_down: None,
            last_cell: None,
            alt_was_active: false,
            last_bell_seq: 0,
            last_title_seq: 0,
        }
    }

    pub open spec fn with_screen(self, screen: Screen) -> AppModel {
        AppModel { screen, ..self }
    }

    /// The view snapped to the bottom.
    pub open spec fn snapped(self) -> AppModel {
        self.with_screen(Screen { view_offset: 0, ..self.screen })
    }

    // ---- Keys ----

    /// What a key comes to. Find mode owns the keyboard; then come opening
    /// find, copy, paste, zoom, Shift+navigation, and last the app.
    pub open spec fn key_effect(self, key: Key) -> KeyEffect {
        if self.find is Some || crate::keys::opens_find(key, self.mods) {
            KeyEffect::Find
        } else if crate::keys::copies(key, self.mods) {
            KeyEffect::Copy
        } else if crate::keys::pastes(key, self.mods) {
            KeyEffect::Paste
        } else if let Some(zoom) = crate::keys::zooms(key, self.mods) {
            KeyEffect::Zoom(zoom)
        } else if self.mods.shift && crate::keys::scrolls(key, self.rows as int) is Some {
            KeyEffect::Scroll
        } else if let Some(bytes) = crate::keys::key_bytes(key, self.mods.ctrl) {
            KeyEffect::Send(bytes, self.screen.view_offset != 0)
        } else {
            KeyEffect::Ignored
        }
    }

    /// The terminal after a key.
    pub open spec fn after_key(self, key: Key) -> AppModel {
        match self.key_effect(key) {
            KeyEffect::Find => match self.find {
                Some(f) => AppModel {
                    screen: crate::keys::screen_after(f, self.screen, key, self.mods),
                    find: if key == Key::Named(NamedKey::Escape) {
                        None
                    } else {
                        Some(crate::keys::find_after(f, self.screen, key, self.mods))
                    },
                    ..self
                },
                None => AppModel {
                    find: Some(FindModel::empty().search(self.screen, Seq::empty())),
                    ..self
                },
            },
            KeyEffect::Paste => self.snapped(),
            KeyEffect::Scroll => self.with_screen(
                crate::keys::view_moved(
                    self.screen,
                    crate::keys::scrolls(key, self.rows as int)->0,
                ),
            ),
            KeyEffect::Send(bytes, redraw) => self.snapped(),
            _ => self,
        }
    }

    // ---- The mouse ----

    /// Do mouse events go to the app? Shift overrides that.
    pub open spec fn passes_through(self) -> bool {
        self.screen.mouse_mode.reports() && !self.mods.shift
    }

    /// The position displayed at `col`, `row`.
    pub open spec fn pointed(self, col: usize, row: usize) -> AbsCoord {
        AbsCoord { abs_row: (self.screen.view_top() + row) as usize, col }
    }

    /// The local selection after a mouse action at `p`.
    pub open spec fn selected(self, action: MouseAction, p: AbsCoord) -> Option<Selection> {
        match action {
            MouseAction::Press => Some(Selection { anchor: p, head: p }),
            _ => match self.screen.selection {
                Some(sel) => Some(Selection { head: p, ..sel }),
                None => None,
            },
        }
    }

    /// Does this button drive the local selection?
    pub open spec fn selects(self, button: MouseButton) -> bool {
        !self.passes_through() && button is Left
    }

    /// The terminal after a mouse action.
    pub open spec fn after_mouse(
        self,
        action: MouseAction,
        button: MouseButton,
        col: usize,
        row: usize,
    ) -> AppModel {
        if self.selects(button) {
            self.with_screen(
                Screen {
                    selection: self.selected(action, self.pointed(col, row)),
                    ..self.screen
                },
            )
        } else {
            self
        }
    }

    /// The bytes that a mouse action sends to the app.
    pub open spec fn mouse_bytes(
        self,
        action: MouseAction,
        button: MouseButton,
        col: usize,
        row: usize,
    ) -> Option<Seq<u8>> {
        if self.passes_through() {
            crate::mouse::mouse_report(
                self.screen.mouse_mode,
                action,
                button,
                col as int,
                row as int,
                self.mods,
            )
        } else {
            None
        }
    }

    /// Can this cell be pointed at without leaving the machine's integers?
    pub open spec fn can_point(self, col: usize, row: usize) -> bool {
        &&& col < usize::MAX
        &&& row < usize::MAX
        &&& self.screen.view_top() + row <= usize::MAX
    }

    /// Is a drag due when the pointer comes to this cell?
    pub open spec fn drags(self, col: usize, row: usize) -> bool {
        self.button_down is Some && self.last_cell != Some((col, row))
    }

    /// The terminal when the pointer has come to this cell.
    pub open spec fn after_move(self, col: usize, row: usize) -> AppModel {
        if self.drags(col, row) {
            AppModel { last_cell: Some((col, row)), ..self }.after_mouse(
                MouseAction::Drag,
                self.button_down->0,
                col,
                row,
            )
        } else {
            self
        }
    }

    /// The link displayed at `col`, `row`: a recorded hyperlink, else a URL in
    /// the text.
    pub open spec fn link(self, col: usize, row: usize) -> Option<Seq<char>> {
        let p = self.pointed(col, row);
        if self.screen.links.contains_key((p.abs_row, p.col)) {
            Some(self.screen.links[(p.abs_row, p.col)])
        } else {
            crate::links::url_at(self.screen.text_of_row(p.abs_row as int), col as int)
        }
    }

    /// Does this press open a link? Cmd/Ctrl and the left button do, on one.
    pub open spec fn opens_link(
        self,
        pressed: bool,
        button: MouseButton,
        col: usize,
        row: usize,
    ) -> bool {
        pressed && button is Left && (self.mods.super_ || self.mods.ctrl) && self.link(
            col,
            row,
        ) is Some
    }

    /// The terminal after a button went down or up.
    pub open spec fn after_button(
        self,
        pressed: bool,
        button: MouseButton,
        col: usize,
        row: usize,
    ) -> AppModel {
        if self.opens_link(pressed, button, col, row) {
            self
        } else if pressed {
            AppModel {
                button_down: Some(button),
                last_cell: Some((col, row)),
                ..self
            }.after_mouse(MouseAction::Press, button, col, row)
        } else {
            AppModel { button_down: None, ..self }.after_mouse(
                MouseAction::Release,
                button,
                col,
                row,
            )
        }
    }

    /// The bytes that a turn of the wheel sends to the app.
    pub open spec fn wheel_bytes(self, up: bool, col: usize, row: usize) -> Option<Seq<u8>> {
        self.mouse_bytes(
            MouseAction::Press,
            if up {
                MouseButton::WheelUp
            } else {
                MouseButton::WheelDown
            },
            col,
            row,
        )
    }

    /// The terminal after the wheel turned.
    pub open spec fn after_wheel(self, lines: int) -> AppModel {
        if self.passes_through() || lines == 0 {
            self
        } else {
            self.with_screen(self.screen.scrolled(lines))
        }
    }

    // ---- Size and output ----

    /// The terminal at another size.
    pub open spec fn after_resize(self, cols: usize, rows: usize) -> AppModel {
        AppModel {
            screen: self.screen.resized(cols, rows),
            cursor: self.screen.resized_cursor(cols, rows, self.cursor),
            cols,
            rows,
            ..self
        }
    }

    /// The terminal after output.
    pub open spec fn after_output(self, bytes: Seq<u8>) -> AppModel {
        let t = self.term().run(crate::stream::actions_of(self.seen, bytes));
        AppModel { screen: t.screen, cursor: t.cursor, seen: self.seen + bytes, ..self }
    }

    /// The screen with its view kept on the same lines after `pushed` lines
    /// have scrolled into history; at the bottom it stays there.
    pub open spec fn anchored(self, pushed: int) -> Screen {
        if pushed > 0 && self.screen.view_offset > 0 {
            Screen {
                view_offset: crate::screen::least(
                    self.screen.view_offset + pushed,
                    self.screen.history.len() as int,
                ) as usize,
                ..self.screen
            }
        } else {
            self.screen
        }
    }

    /// The terminal after a round of polling.
    pub open spec fn after_poll(self, pushed: int) -> AppModel {
        AppModel {
            screen: Screen { pending_clipboard: None, ..self.anchored(pushed) },
            alt_was_active: self.screen.alt,
            last_bell_seq: self.screen.bell_seq,
            last_title_seq: self.screen.title_seq,
            ..self
        }
    }

    /// Is a blinking cursor in view?
    pub open spec fn blinks(self) -> bool {
        self.cursor.blink && self.cursor.visible && self.screen.view_offset == 0
            && !self.screen.alt
    }
}

/// What a key press asks of the window.
#[derive(Debug)]
pub enum KeyOutcome {
    /// Find mode took it; redraw.
    Find,
    /// Copy the selection, if there is one.
    Copy,
    /// Paste the clipboard; redraw.
    Paste,
    Zoom(Zoom),
    /// The view moved; redraw.
    Scroll,
    /// Write the bytes to the PTY; redraw if the view snapped to the bottom.
    Send { bytes: Vec<u8>, redraw: bool },
    Ignored,
}

impl View for KeyOutcome {
    type V = KeyEffect;

    open spec fn view(&self) -> KeyEffect {
        match self {
            KeyOutcome::Find => KeyEffect::Find,
            KeyOutcome::Copy => KeyEffect::Copy,
            KeyOutcome::Paste => KeyEffect::Paste,
            KeyOutcome::Zoom(z) => KeyEffect::Zoom(*z),
            KeyOutcome::Scroll => KeyEffect::Scroll,
            KeyOutcome::Send { bytes, redraw } => KeyEffect::Send(bytes@, *redraw),
            KeyOutcome::Ignored => KeyEffect::Ignored,
        }
    }
}

/// What a mouse action asks of the window.
#[derive(Debug)]
pub struct MouseOutcome {
    /// Write these to the PTY.
    pub bytes: Option<Vec<u8>>,
    pub redraw: bool,
}

/// What a mouse button asks of the window.
#[derive(Debug)]
pub enum ClickOutcome {
    /// Open this link.
    Open(String),
    /// A mouse action; after a release, copy the selection if there is one.
    Mouse { outcome: MouseOutcome, copy: bool },
}

/// What the wheel asks of the window.
#[derive(Debug)]
pub enum WheelOutcome {
    /// Write these to the PTY once per line.
    Report(Vec<u8>),
    /// The view moved; redraw.
    Scroll,
    Ignored,
}

/// What a round of polling asks of the window.
#[derive(Debug)]
pub struct PollOutcome {
    /// The alternate screen was entered, or left.
    pub alt_toggled: Option<bool>,
    /// The bell rang at least once.
    pub bell: bool,
    /// Set the window title.
    pub title: Option<String>,
    /// Copy to the clipboard.
    pub clipboard: Option<String>,
}

/// The windowed terminal.
pub struct App {
    pub grid: Grid,
    pub cursor: CursorState,
    pub stream: ByteStream,
    pub find: Option<FindState>,
    pub cols: usize,
    pub rows: usize,
    pub mods: Mods,
    pub button_down: Option<MouseButton>,
    pub last_cell: Option<(usize, usize)>,
    pub alt_was_active: bool,
    pub last_bell_seq: u64,
    pub last_title_seq: u64,
}

impl View for App {
    type V = AppModel;

    open spec fn view(&self) -> AppModel {
        AppModel {
            screen: self.grid@,
            cursor: self.cursor,
            seen: self.stream@,
            find: match self.find {
                Some(f) => Some(f@),
                None => None,
            },
            cols: self.cols,
            rows: self.rows,
            mods: self.mods,
            button_down: self.button_down,
            last_cell: self.last_cell,
            alt_was_active: self.alt_was_active,
            last_bell_seq: self.last_bell_seq,
            last_title_seq: self.last_title_seq,
        }
    }
}

impl App {
    pub fn new(cols: usize, rows: usize, scrollback: usize) -> (app: Self)
        requires
            0 < cols <= isize::MAX / 2,
            0 < rows <= isize::MAX / 2,
            scrollback <= isize::MAX / 2,
            cols * rows <= usize::MAX,
        ensures
            app@ == AppModel::fresh(cols, rows, scrollback),
            app@.wf(),
    {
        App {
            grid: Grid::new(cols, rows, scrollback),
            cursor: CursorState::new(),
            stream: ByteStream::new(),
            find: None,
            cols,
            rows,
            mods: Mods::default(),
            button_down: None,
            last_cell: None,
            alt_was_active: false,
            last_bell_seq: 0,
            last_title_seq: 0,
        }
    }

    /// Other modifier keys are held now.
    pub fn set_mods(&mut self, mods: Mods)
        ensures
            final(self)@ == (AppModel { mods, ..old(self)@ }),
    {
        self.mods = mods;
    }

    /// A key was pressed.
    pub fn key(&mut self, key: &Key) -> (outcome: KeyOutcome)
        requires
            old(self)@.wf(),
        ensures
            outcome@ == old(self)@.key_effect(*key),
            final(self)@ == old(self)@.after_key(*key),
            final(self)@.wf(),
    {
        if self.find.is_some() {
            self.find_key(key);
            return KeyOutcome::Find;
        }
        if crate::keys::is_find_open_combo(key, self.mods) {
            let mut fs = FindState::new();
            fs.recompute(&self.grid);
            self.find = Some(fs);
            return KeyOutcome::Find;
        }
        if crate::keys::is_copy_combo(key, self.mods) {
            return KeyOutcome::Copy;
        }
        if crate::keys::is_paste_combo(key, self.mods) {
            self.grid.scroll_to_bottom();
            return KeyOutcome::Paste;
        }
        if let Some(zoom) = crate::keys::zoom_combo(key, self.mods) {
            return KeyOutcome::Zoom(zoom);
        }
        if self.mods.shift {
            if let Some(cmd) = crate::keys::scroll_for_key(key, self.rows) {
                crate::keys::apply_scroll(&mut self.grid, cmd);
                return KeyOutcome::Scroll;
            }
        }
        match crate::keys::encode_key(key, self.mods.ctrl) {
            Some(bytes) => {
                let redraw = !self.grid.at_bottom();
                self.grid.scroll_to_bottom();
                KeyOutcome::Send { bytes, redraw }
            },
            None => KeyOutcome::Ignored,
        }
    }

    /// A key while find mode is open.
    fn find_key(&mut self, key: &Key)
        requires
            old(self)@.wf(),
            old(self)@.find is Some,
        ensures
            final(self)@ == old(self)@.after_key(*key),
            final(self)@.wf(),
    {
        if let Some(mut fs) = self.find.take() {
            let close = crate::keys::handle_find_key(&mut fs, &mut self.grid, key, self.mods);
            if !close {
                self.find = Some(fs);
            }
        }
    }

    /// Either encode the event for the app (mouse mode and no Shift override)
    /// or drive the local selection.
    fn dispatch_mouse(
        &mut self,
        action: MouseAction,
        button: MouseButton,
        col: usize,
        row: usize,
    ) -> (outcome: MouseOutcome)
        requires
            old(self)@.wf(),
            old(self)@.can_point(col, row),
        ensures
            crate::keys::same_bytes(
                outcome.bytes,
                old(self)@.mouse_bytes(action, button, col, row),
            ),
            outcome.redraw == old(self)@.selects(button),
            final(self)@ == old(self)@.after_mouse(action, button, col, row),
            final(self)@.wf(),
    {
        let mode = self.grid.mouse_mode();
        if mode.enabled() && !self.mods.shift {
            let bytes = crate::mouse::encode_mouse(mode, action, button, col, row, self.mods);
            return MouseOutcome { bytes, redraw: false };
        }
        if !matches!(button, MouseButton::Left) {
            return MouseOutcome { bytes: None, redraw: false };
        }
        let at = AbsCoord { abs_row: self.grid.displayed_abs_row(row), col };
        let selection = match action {
            MouseAction::Press => Some(Selection::new(at)),
            _ => match self.grid.selection() {
                Some(sel) => Some(Selection { anchor: sel.anchor, head: at }),
                None => None,
            },
        };
        self.grid.set_selection(selection);
        MouseOutcome { bytes: None, redraw: true }
    }

    /// The pointer has come to a cell. A drag is only made of it when a button
    /// is down and the cell is another one.
    pub fn pointer_moved(&mut self, col: usize, row: usize) -> (outcome: MouseOutcome)
        requires
            old(self)@.wf(),
            old(self)@.can_point(col, row),
        ensures
            final(self)@ == old(self)@.after_move(col, row),
            final(self)@.wf(),
            old(self)@.drags(col, row) ==> {
                &&& crate::keys::same_bytes(
                    outcome.bytes,
                    old(self)@.mouse_bytes(
                        MouseAction::Drag,
                        old(self)@.button_down->0,
                        col,
                        row,
                    ),
                )
                &&& outcome.redraw == old(self)@.selects(old(self)@.button_down->0)
            },
            !old(self)@.drags(col, row) ==> outcome.bytes is None && !outcome.redraw,
    {
        if let Some(button) = self.button_down {
            let same = match self.last_cell {
                Some((c, r)) => c == col && r == row,
                None => false,
            };
            if !same {
                self.last_cell = Some((col, row));
                return self.dispatch_mouse(MouseAction::Drag, button, col, row);
            }
        }
        MouseOutcome { bytes: None, redraw: false }
    }

    /// A mouse button went down or up.
    pub fn pointer_button(
        &mut self,
        pressed: bool,
        button: MouseButton,
        col: usize,
        row: usize,
    ) -> (outcome: ClickOutcome)
        requires
            old(self)@.wf(),
            old(self)@.can_point(col, row),
        ensures
            final(self)@ == old(self)@.after_button(pressed, button, col, row),
            final(self)@.wf(),
            outcome is Open <==> old(self)@.opens_link(pressed, button, col, row),
            outcome matches ClickOutcome::Open(url) ==> Some(url@) == old(self)@.link(col, row),
            outcome matches ClickOutcome::Mouse { outcome: mouse, copy } ==> {
                &&& crate::keys::same_bytes(
                    mouse.bytes,
                    old(self)@.mouse_bytes(
                        if pressed {
                            MouseAction::Press
                        } else {
                            MouseAction::Release
                        },
                        button,
                        col,
                        row,
                    ),
                )
                &&& mouse.redraw == old(self)@.selects(button)
                &&& copy == (!pressed && final(self)@.screen.selection is Some)
            },
    {
        if pressed && matches!(button, MouseButton::Left) && (self.mods.super_ || self.mods.ctrl) {
            if let Some(url) = self.link_at(col, row) {
                return ClickOutcome::Open(url);
            }
        }
        if pressed {
            self.button_down = Some(button);
            self.last_cell = Some((col, row));
            let outcome = self.dispatch_mouse(MouseAction::Press, button, col, row);
            ClickOutcome::Mouse { outcome, copy: false }
        } else {
            self.button_down = None;
            let outcome = self.dispatch_mouse(MouseAction::Release, button, col, row);
            let copy = self.grid.selection().is_some();
            ClickOutcome::Mouse { outcome, copy }
        }
    }

    /// The link displayed at `col`, `row`.
    fn link_at(&self, col: usize, row: usize) -> (url: Option<String>)
        requires
            self@.wf(),
            self@.can_point(col, row),
        ensures
            url is Some <==> self@.link(col, row) is Some,
            url matches Some(u) ==> Some(u@) == self@.link(col, row),
    {
        let abs_row = self.grid.displayed_abs_row(row);
        if let Some(url) = self.grid.link_at(abs_row, col) {
            return Some(url);
        }
        let text = self.grid.row_text(abs_row);
        crate::links::detect_url_at(text.as_str(), col)
    }

    /// The wheel turned: reported to the app while it asked for that and Shift
    /// is not held, else `lines` of scrolling.
    pub fn wheel(&mut self, up: bool, lines: isize, col: usize, row: usize) -> (outcome:
        WheelOutcome)
        requires
            old(self)@.wf(),
            col < usize::MAX,
            row < usize::MAX,
            old(self)@.passes_through() || old(self)@.screen.alt || old(
                self,
            )@.screen.view_offset + lines <= isize::MAX,
        ensures
            final(self)@ == old(self)@.after_wheel(lines as int),
            final(self)@.wf(),
            outcome is Report <==> old(self)@.passes_through(),
            outcome matches WheelOutcome::Report(bytes) ==> Some(bytes@) == old(
                self,
            )@.mouse_bytes(
                MouseAction::Press,
                if up {
                    MouseButton::WheelUp
                } else {
                    MouseButton::WheelDown
                },
                col,
                row,
            ),
            outcome matches WheelOutcome::Report(bytes) ==> Some(bytes@) == old(
                self,
            )@.wheel_bytes(up, col, row),
            outcome is Scroll <==> !old(self)@.passes_through() && lines != 0,
    {
        let mode = self.grid.mouse_mode();
        if mode.enabled() && !self.mods.shift {
            let button = if up {
                MouseButton::WheelUp
            } else {
                MouseButton::WheelDown
            };
            return match crate::mouse::encode_mouse(
                mode,
                MouseAction::Press,
                button,
                col,
                row,
                self.mods,
            ) {
                Some(bytes) => WheelOutcome::Report(bytes),
                None => WheelOutcome::Ignored,
            };
        }
        if lines == 0 {
            return WheelOutcome::Ignored;
        }
        self.grid.scroll_lines(lines);
        WheelOutcome::Scroll
    }

    /// Text of the selection, for the clipboard.
    pub fn selection_text(&self) -> (text: Option<String>)
        requires
            self@.wf(),
            self@.screen.selection matches Some(sel) ==> self@.screen.selectable(sel),
        ensures
            text is Some <==> self@.screen.selection is Some,
            text matches Some(t) ==> t@ == self@.screen.selected(self@.screen.selection->0),
    {
        match self.grid.selection() {
            Some(sel) => Some(self.grid.get_selection_text(sel)),
            None => None,
        }
    }

    /// Bytes to write for clipboard text; an empty clipboard sends nothing.
    pub fn paste(&self, text: &str) -> (bytes: Option<Vec<u8>>)
        ensures
            crate::keys::same_bytes(
                bytes,
                if text@.len() > 0 {
                    Some(crate::keys::paste_payload(text@, self@.screen.bracketed_paste))
                } else {
                    None
                },
            ),
    {
        if text.is_empty() {
            return None;
        }
        Some(crate::keys::paste_bytes(text, self.grid.bracketed_paste()))
    }

    /// The window shows this many columns and rows now. Returns whether that is
    /// another size, which the PTY has to be told.
    pub fn resize(&mut self, cols: usize, rows: usize) -> (changed: bool)
        requires
            old(self)@.wf(),
            0 < cols <= isize::MAX / 2,
            0 < rows <= isize::MAX / 2,
            cols * rows <= usize::MAX,
        ensures
            changed == (cols != old(self)@.cols || rows != old(self)@.rows),
            final(self)@ == old(self)@.after_resize(cols, rows),
            final(self)@.wf(),
    {
        if cols == self.cols && rows == self.rows {
            return false;
        }
        self.cols = cols;
        self.rows = rows;
        self.grid.resize(cols, rows, &mut self.cursor);
        true
    }

    /// Output arrived from the PTY; returns the replies to write back. None,
    /// with the state as it then was, where a character would be printed below
    /// the last row.
    pub fn output(&mut self, bytes: &[u8]) -> (replies: Option<Vec<u8>>)
        requires
            old(self)@.wf(),
        ensures
            final(self)@ == old(self)@.after_output(bytes@),
            final(self)@.wf(),
            replies is Some <==> old(self)@.term().runs(
                crate::stream::actions_of(old(self)@.seen, bytes@),
            ),
            replies matches Some(r) ==> r@ == old(self)@.term().run(
                crate::stream::actions_of(old(self)@.seen, bytes@),
            ).replies,
    {
        let mut responses: Vec<u8> = Vec::new();
        let mut mutator = StateMutator {
            grid: &mut self.grid,
            cursor: &mut self.cursor,
            responses: &mut responses,
        };
        proof {
            let actions = crate::stream::actions_of(old(self)@.seen, bytes@);
            assert(mutator.term() =~= old(self)@.term());
            crate::laws::law_output_keeps_view(old(self)@.term(), actions);
            crate::laws::law_output_keeps_sizes(old(self)@.term(), actions);
        }
        let all = self.stream.feed(&mut mutator, bytes);
        if all {
            Some(responses)
        } else {
            None
        }
    }

    /// All output of this round is parsed and `pushed` lines of it have been
    /// logged.
    pub fn poll_done(&mut self, pushed: usize) -> (outcome: PollOutcome)
        requires
            old(self)@.wf(),
            old(self)@.screen.view_offset + pushed <= usize::MAX,
        ensures
            final(self)@ == old(self)@.after_poll(pushed as int),
            final(self)@.wf(),
            outcome.alt_toggled == if old(self)@.screen.alt != old(self)@.alt_was_active {
                Some(old(self)@.screen.alt)
            } else {
                None
            },
            outcome.bell == (old(self)@.screen.bell_seq != old(self)@.last_bell_seq),
            outcome.title is Some <==> old(self)@.screen.title_seq != old(self)@.last_title_seq,
            outcome.title matches Some(t) ==> t@ == old(self)@.screen.title,
            outcome.clipboard is Some <==> old(self)@.screen.pending_clipboard is Some,
            outcome.clipboard matches Some(t) ==> Some(t@) == old(
                self,
            )@.screen.pending_clipboard,
    {
        let offset = self.grid.view_offset();
        if pushed > 0 && offset > 0 {
            let depth = self.grid.scrollback_len();
            self.grid.set_view_offset(
                if offset + pushed <= depth {
                    offset + pushed
                } else {
                    depth
                },
            );
        }
        let alt = self.grid.is_alt();
        let alt_toggled = if alt != self.alt_was_active {
            Some(alt)
        } else {
            None
        };
        self.alt_was_active = alt;
        let bell = self.grid.bell_seq() != self.last_bell_seq;
        self.last_bell_seq = self.grid.bell_seq();
        let mut title: Option<String> = None;
        if self.grid.title_seq() != self.last_title_seq {
            title = Some(self.grid.title());
            self.last_title_seq = self.grid.title_seq();
        }
        let clipboard = self.grid.take_clipboard();
        PollOutcome { alt_toggled, bell, title, clipboard }
    }

    /// Is a redraw due? After output, and while anything moves.
    pub fn redraw_due(&self, dirty: bool, animating: bool) -> (due: bool)
        ensures
            due == (dirty || animating || self@.blinks()),
    {
        dirty || animating || self.blinking()
    }

    fn blinking(&self) -> (yes: bool)
        ensures
            yes == self@.blinks(),
    {
        self.cursor.blink && self.cursor.visible && self.grid.at_bottom() && !self.grid.is_alt()
    }

    /// Milliseconds until the next round: 60Hz while any effect is alive, 4Hz
    /// for the blink-only case, otherwise passive PTY polling for battery.
    pub fn next_round_ms(&self, animating: bool) -> (ms: u64)
        ensures
            ms == if animating {
                FRAME_MS
            } else if self@.blinks() {
                BLINK_MS
            } else {
                POLL_MS
            },
    {
        if animating {
            FRAME_MS
        } else if self.blinking() {
            BLINK_MS
        } else {
            POLL_MS
        }
    }
}

// ---- What holds of every session ----

/// While find mode is open, no key reaches the app.
pub proof fn law_find_owns_the_keyboard(app: AppModel, key: Key)
    requires
        app.find is Some,
    ensures
        app.key_effect(key) is Find,
        app.after_key(key).screen.cells == app.screen.cells,
{
}

/// Whatever is sent or pasted, the user then sees the bottom of the screen.
pub proof fn law_typing_snaps_to_bottom(app: AppModel, key: Key)
    requires
        app.key_effect(key) is Send || app.key_effect(key) is Paste,
    ensures
        app.after_key(key).screen.view_offset == 0,
{
}

/// With Shift held, no mouse action reaches the app: the selection is local.
pub proof fn law_shift_overrides_mouse_mode(
    app: AppModel,
    action: MouseAction,
    button: MouseButton,
    col: usize,
    row: usize,
)
    requires
        app.mods.shift,
    ensures
        app.mouse_bytes(action, button, col, row) is None,
        button is Left ==> app.selects(button),
{
}

/// An app that asked for mouse reports gets them instead of the selection.
pub proof fn law_mouse_mode_disables_selection(
    app: AppModel,
    action: MouseAction,
    button: MouseButton,
    col: usize,
    row: usize,
)
    requires
        app.passes_through(),
    ensures
        app.after_mouse(action, button, col, row) == app,
{
}

/// The view stays on the lines being read while new ones scroll into history
/// below its ceiling.
pub proof fn law_view_stays_anchored(before: AppModel, after: AppModel, pushed: int)
    requires
        before.wf(),
        after.wf(),
        before.screen.view_offset > 0,
        after.screen.view_offset == before.screen.view_offset,
        0 <= pushed,
        after.screen.history.len() == before.screen.history.len() + pushed,
    ensures
        after.after_poll(pushed).screen.view_top() == before.screen.view_top(),
{
}

/// Dragging within one cell does nothing more.
pub proof fn law_drag_needs_another_cell(app: AppModel, col: usize, row: usize)
    ensures
        app.after_move(col, row).after_move(col, row) == app.after_move(col, row),
{
}

/// Which event a key is: find mode comes first, then the combinations, then
/// Shift and a navigation key, and all the rest goes to the app.
pub proof fn law_keys_are_sorted(app: AppModel, key: Key)
    requires
        app.find is None,
    ensures
        ({
            let effect = app.key_effect(key);
            let held = crate::keys::opens_find(key, app.mods) || crate::keys::copies(key, app.mods)
                || crate::keys::pastes(key, app.mods) || crate::keys::zooms(key, app.mods) is Some;
            let scrolls = app.mods.shift && crate::keys::scrolls(key, app.rows as int) is Some;
            &&& crate::keys::opens_find(key, app.mods) <==> effect is Find
            &&& crate::keys::copies(key, app.mods) <==> effect is Copy
            &&& crate::keys::pastes(key, app.mods) <==> effect is Paste
            &&& effect is Zoom <==> crate::keys::zooms(key, app.mods) is Some
            &&& effect is Zoom ==> Some(effect->Zoom_0) == crate::keys::zooms(key, app.mods)
            &&& effect is Scroll <==> !held && scrolls
            &&& effect is Send <==> !held && !scrolls && crate::keys::key_bytes(
                key,
                app.mods.ctrl,
            ) is Some
            &&& effect is Send ==> Some(effect->Send_0) == crate::keys::key_bytes(
                key,
                app.mods.ctrl,
            ) && (effect->Send_1 <==> app.screen.view_offset > 0)
        }),
{
    crate::keys::law_combinations(key, app.mods);
    match key {
        Key::Character(s) => {
            if s@.len() == 1 {
                assert(s@ =~= seq![s@[0]]);
            }
        },
        _ => {},
    }
}

/// What a key changes: opening find starts an empty search, Escape closes it,
/// scrolling moves the view, sending and pasting bring it to the bottom. The
/// cells, the cursor, the modes and the mouse are left alone by all of them.
pub proof fn law_keys_change_little(app: AppModel, key: Key)
    ensures
        ({
            let after = app.after_key(key);
            let effect = app.key_effect(key);
            &&& after == (AppModel {
                screen: Screen { view_offset: after.screen.view_offset, ..app.screen },
                find: after.find,
                ..app
            })
            &&& !(effect is Find) ==> after.find == app.find
            &&& effect is Copy || effect is Zoom || effect is Ignored ==> after == app
            &&& effect is Send || effect is Paste ==> after.screen.view_offset == 0
            &&& effect is Find && app.find is None ==> after.screen == app.screen && after.find
                is Some && after.find->0.query.len() == 0 && after.find->0.matches.len() == 0
                && after.find->0.current == 0
            &&& effect is Find && app.find is Some ==> (after.find is None <==> key == Key::Named(
                NamedKey::Escape,
            ))
            &&& effect is Find && app.find is Some && key == Key::Named(NamedKey::Escape)
                ==> after.screen == app.screen
        }),
{
    let after = app.after_key(key);
    crate::find::law_empty_query(app.screen, app.screen.history.len() + app.screen.rows);
    assert(after.screen =~= (Screen { view_offset: after.screen.view_offset, ..app.screen }));
}

/// The left button selects: a press starts at the cell under the pointer, a
/// drag and a release move the end there, and the start stays. Rows count from
/// the oldest line of history. Nothing else changes, and other buttons, like
/// all buttons while the app gets the mouse, select nothing.
pub proof fn law_mouse_selects(
    app: AppModel,
    action: MouseAction,
    button: MouseButton,
    col: usize,
    row: usize,
)
    requires
        app.wf(),
        app.can_point(col, row),
    ensures
        ({
            let after = app.after_mouse(action, button, col, row);
            let local = app.mods.shift || !(app.screen.mouse_mode.button
                || app.screen.mouse_mode.drag);
            let old = app.screen.selection;
            let new = after.screen.selection;
            let abs = app.screen.history.len() - app.screen.view_offset + row;
            &&& after == app.with_screen(Screen { selection: new, ..app.screen })
            &&& !(local && button is Left) ==> after == app
            &&& local && button is Left && action is Press ==> new is Some && new->0.anchor
                == new->0.head
            &&& local && button is Left && !(action is Press) ==> (new is Some <==> old is Some)
                && (new is Some ==> new->0.anchor == old->0.anchor)
            &&& local && button is Left && new is Some ==> new->0.head.abs_row == abs
                && new->0.head.col == col
            &&& app.mouse_bytes(action, button, col, row) is Some ==> !local
            &&& !local ==> app.mouse_bytes(action, button, col, row) == crate::mouse::mouse_report(
                app.screen.mouse_mode,
                action,
                button,
                col as int,
                row as int,
                app.mods,
            )
        }),
{
    let after = app.after_mouse(action, button, col, row);
    assert(app.with_screen(app.screen) == app);
    assert(after =~= app.with_screen(
        Screen { selection: after.screen.selection, ..app.screen },
    ));
}

/// The button held and the cell it was last seen in are remembered from press
/// to release; a press that opens a link changes nothing. A move is a drag only
/// while a button is held, and only into another cell.
pub proof fn law_buttons_are_remembered(
    app: AppModel,
    pressed: bool,
    button: MouseButton,
    col: usize,
    row: usize,
)
    ensures
        ({
            let after = app.after_button(pressed, button, col, row);
            let opens = app.opens_link(pressed, button, col, row);
            &&& opens ==> after == app
            &&& !opens && pressed ==> after.button_down == Some(button) && after.last_cell == Some(
                (col, row),
            )
            &&& !opens && !pressed ==> after.button_down is None
            &&& !opens ==> after.screen == app.after_mouse(
                if pressed {
                    MouseAction::Press
                } else {
                    MouseAction::Release
                },
                button,
                col,
                row,
            ).screen
        }),
        ({
            let moved = app.after_move(col, row);
            let drags = app.button_down is Some && app.last_cell != Some((col, row));
            &&& app.drags(col, row) == drags
            &&& !drags ==> moved == app
            &&& drags ==> moved.last_cell == Some((col, row)) && moved.button_down
                == app.button_down && moved.screen == app.after_mouse(
                MouseAction::Drag,
                app.button_down->0,
                col,
                row,
            ).screen
        }),
{
}

/// A press of the left button with Control or Command opens the link under the
/// pointer, if there is one: a recorded hyperlink before a URL in the text.
pub proof fn law_links_open(
    app: AppModel,
    pressed: bool,
    button: MouseButton,
    col: usize,
    row: usize,
)
    requires
        app.wf(),
        app.can_point(col, row),
    ensures
        ({
            let abs = (app.screen.history.len() - app.screen.view_offset + row) as usize;
            let link = app.link(col, row);
            &&& app.opens_link(pressed, button, col, row) <==> pressed && button is Left && (
            app.mods.ctrl || app.mods.super_) && link is Some
            &&& app.screen.links.contains_key((abs, col)) ==> link == Some(
                app.screen.links[(abs, col)],
            )
            &&& !app.screen.links.contains_key((abs, col)) ==> link == crate::links::url_at(
                app.screen.text_of_row(abs as int),
                col as int,
            )
        }),
{
}

/// The wheel scrolls the view by its lines, unless the app gets the mouse. A
/// new size is the screen's and the cursor's; output changes screen and cursor
/// alone and is counted among what was seen.
pub proof fn law_wheel_size_and_output(
    app: AppModel,
    lines: int,
    cols: usize,
    rows: usize,
    bytes: Seq<u8>,
)
    ensures
        ({
            let after = app.after_wheel(lines);
            let local = app.mods.shift || !(app.screen.mouse_mode.button
                || app.screen.mouse_mode.drag);
            &&& !local || lines == 0 ==> after == app
            &&& local && lines != 0 ==> after == app.with_screen(app.screen.scrolled(lines))
        }),
        ({
            let after = app.after_resize(cols, rows);
            &&& after.cols == cols && after.rows == rows
            &&& after == (AppModel {
                screen: app.screen.resized(cols, rows),
                cursor: app.screen.resized_cursor(cols, rows, app.cursor),
                cols,
                rows,
                ..app
            })
        }),
        ({
            let after = app.after_output(bytes);
            &&& after == (AppModel {
                screen: after.screen,
                cursor: after.cursor,
                seen: app.seen + bytes,
                ..app
            })
            &&& after.screen == app.term().run(
                crate::stream::actions_of(app.seen, bytes),
            ).screen
            &&& after.cursor == app.term().run(
                crate::stream::actions_of(app.seen, bytes),
            ).cursor
        }),
{
}

/// An app that gets the mouse is told of the wheel as of a press: of button 64
/// when it turns up and 65 when it turns down, modifiers added, with the cell
/// under the pointer.
pub proof fn law_wheel_reports(app: AppModel, up: bool, col: usize, row: usize)
    requires
        !app.mods.shift,
        app.screen.mouse_mode.button || app.screen.mouse_mode.drag,
    ensures
        ({
            let bytes = app.wheel_bytes(up, col, row);
            let code = (if up {
                64int
            } else {
                65int
            }) + (if app.mods.alt {
                8int
            } else {
                0int
            }) + (if app.mods.ctrl {
                16int
            } else {
                0int
            });
            &&& bytes is Some
            &&& app.screen.mouse_mode.sgr_encoded ==> crate::mouse::spells(
                bytes->0,
                code,
                col + 1,
                row + 1,
                0x4d,
            )
            &&& !app.screen.mouse_mode.sgr_encoded ==> bytes->0.len() == 6 && bytes->0[3] == code
                + 32
        }),
{
    let button = if up {
        MouseButton::WheelUp
    } else {
        MouseButton::WheelDown
    };
    crate::mouse::law_mouse_reports(
        app.screen.mouse_mode,
        MouseAction::Press,
        button,
        col as int,
        row as int,
        app.mods,
    );
    crate::mouse::law_button_code(MouseAction::Press, button, app.mods);
}

/// A round of polling takes over bell, title and screen as seen, hands the
/// clipboard over, and leaves a view at the bottom where it is.
pub proof fn law_polling(app: AppModel, pushed: int)
    ensures
        ({
            let after = app.after_poll(pushed);
            &&& after.alt_was_active == app.screen.alt
            &&& after.last_bell_seq == app.screen.bell_seq
            &&& after.last_title_seq == app.screen.title_seq
            &&& after.screen == (Screen {
                pending_clipboard: None,
                view_offset: after.screen.view_offset,
                ..app.screen
            })
            &&& app.screen.view_offset == 0 || pushed == 0 ==> after.screen.view_offset
                == app.screen.view_offset
            &&& after == (AppModel {
                screen: after.screen,
                alt_was_active: after.alt_was_active,
                last_bell_seq: after.last_bell_seq,
                last_title_seq: after.last_title_seq,
                ..app
            })
        }),
        app.blinks() <==> app.cursor.blink && app.cursor.visible && app.screen.view_offset == 0
            && !app.screen.alt,
{
}

/// A new terminal shows a new screen of its size with the cursor in the corner;
/// nothing has been seen, held or searched.
pub proof fn law_fresh_app(cols: usize, rows: usize, scrollback: usize)
    ensures
        ({
            let app = AppModel::fresh(cols, rows, scrollback);
            &&& app.screen == Screen::fresh(cols, rows, scrollback)
            &&& app.cursor == CursorState::home()
            &&& app.cols == cols && app.rows == rows
            &&& app.seen.len() == 0 && app.find is None
            &&& !app.mods.ctrl && !app.mods.shift && !app.mods.alt && !app.mods.super_
            &&& app.button_down is None && app.last_cell is None && !app.alt_was_active
            &&& app.last_bell_seq == 0 && app.last_title_seq == 0
            &&& app.term().screen == app.screen && app.term().cursor == app.cursor
            &&& app.term().replies.len() == 0
        }),
        POLL_MS == 5 && FRAME_MS == 16 && BLINK_MS == 250,
{
}

/// A view that is scrolled up stays on its lines while others are added below,
/// and moves with them only where history has no room left.
pub proof fn law_anchor(app: AppModel, pushed: int)
    requires
        app.screen.view_offset > 0,
        pushed > 0,
        app.screen.history.len() <= usize::MAX,
    ensures
        ({
            let offset = app.after_poll(pushed).screen.view_offset;
            let want = app.screen.view_offset + pushed;
            &&& want <= app.screen.history.len() ==> offset == want
            &&& want > app.screen.history.len() ==> offset == app.screen.history.len()
        }),
{
}

} // verus!
