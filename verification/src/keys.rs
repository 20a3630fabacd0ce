//! Keyboard input: the bytes keys send, and the key combinations that the
//! terminal keeps for itself.

use vstd::prelude::*;

use crate::event::{Mods, ScrollCmd};
use crate::find::{FindModel, FindState};
use crate::grid::Grid;
use crate::screen::Screen;

verus! {

#[derive(Debug, Clone, Copy, PartialEq, Eq, Structural)]
pub enum NamedKey {
    Enter,
    Backspace,
    Tab,
    Escape,
    Space,
    ArrowUp,
    ArrowDown,
    ArrowRight,
    ArrowLeft,
    Home,
    End,
    PageUp,
    PageDown,
    Delete,
    /// Any other named key; it sends nothing.
    Other,
}

/// A key as the keyboard layout understands it.
#[derive(Debug)]
pub enum Key {
    /// The text that the key types.
    Character(String),
    Named(NamedKey),
    Other,
}

/// Live font zoom.
#[derive(Debug, Clone, Copy, PartialEq, Eq, Structural)]
pub enum Zoom {
    In,
    Out,
    Reset,
}

// ---- Bytes ----

/// Control character that Ctrl and an ASCII character make.
pub open spec fn control_byte(c: char) -> u8 {
    (c as int % 32) as u8
}

pub open spec fn is_ascii(c: char) -> bool {
    (c as int) < 128
}

/// What a named key sends.
pub open spec fn named_bytes(key: NamedKey) -> Option<Seq<u8>> {
    match key {
        NamedKey::Enter => Some(seq![0x0du8]),
        NamedKey::Backspace => Some(seq![0x7fu8]),
        NamedKey::Tab => Some(seq![0x09u8]),
        NamedKey::Escape => Some(seq![0x1bu8]),
        NamedKey::Space => Some(seq![0x20u8]),
        NamedKey::ArrowUp => Some(seq![0x1bu8, 0x5b, 0x41]),
        NamedKey::ArrowDown => Some(seq![0x1bu8, 0x5b, 0x42]),
        NamedKey::ArrowRight => Some(seq![0x1bu8, 0x5b, 0x43]),
        NamedKey::ArrowLeft => Some(seq![0x1bu8, 0x5b, 0x44]),
        NamedKey::Home => Some(seq![0x1bu8, 0x5b, 0x48]),
        NamedKey::End => Some(seq![0x1bu8, 0x5b, 0x46]),
        NamedKey::PageUp => Some(seq![0x1bu8, 0x5b, 0x35, 0x7e]),
        NamedKey::PageDown => Some(seq![0x1bu8, 0x5b, 0x36, 0x7e]),
        NamedKey::Delete => Some(seq![0x1bu8, 0x5b, 0x33, 0x7e]),
        NamedKey::Other => None,
    }
}

/// What typed text sends: with Ctrl, the control character of its first
/// character, if that is ASCII; else the text in UTF-8.
pub open spec fn typed_bytes(text: Seq<char>, ctrl: bool) -> Seq<u8> {
    if ctrl && text.len() > 0 && is_ascii(text[0]) {
        seq![control_byte(text[0])]
    } else {
        vstd::utf8::encode_utf8(text)
    }
}

/// The bytes a PTY expects for a key.
pub open spec fn key_bytes(key: Key, ctrl: bool) -> Option<Seq<u8>> {
    match key {
        Key::Character(s) => Some(typed_bytes(s@, ctrl)),
        Key::Named(n) => named_bytes(n),
        Key::Other => None,
    }
}

/// The same bytes, or none alike.
pub open spec fn same_bytes(out: Option<Vec<u8>>, expected: Option<Seq<u8>>) -> bool {
    match out {
        Some(bytes) => expected == Some(bytes@),
        None => expected is None,
    }
}

fn one(b: u8) -> (out: Option<Vec<u8>>)
    ensures
        same_bytes(out, Some(seq![b])),
{
    let mut v: Vec<u8> = Vec::new();
    v.push(b);
    assert(v@ =~= seq![b]);
    Some(v)
}

fn csi(b: u8) -> (out: Option<Vec<u8>>)
    ensures
        same_bytes(out, Some(seq![0x1bu8, 0x5b, b])),
{
    let mut v: Vec<u8> = Vec::new();
    v.push(0x1b);
    v.push(0x5b);
    v.push(b);
    assert(v@ =~= seq![0x1bu8, 0x5b, b]);
    Some(v)
}

fn csi_tilde(b: u8) -> (out: Option<Vec<u8>>)
    ensures
        same_bytes(out, Some(seq![0x1bu8, 0x5b, b, 0x7e])),
{
    let mut v: Vec<u8> = Vec::new();
    v.push(0x1b);
    v.push(0x5b);
    v.push(b);
    v.push(0x7e);
    assert(v@ =~= seq![0x1bu8, 0x5b, b, 0x7e]);
    Some(v)
}

/// What a named key sends.
pub fn encode_named(key: NamedKey) -> (out: Option<Vec<u8>>)
    ensures
        same_bytes(out, named_bytes(key)),
{
    match key {
        NamedKey::Enter => one(0x0d),
        NamedKey::Backspace => one(0x7f),
        NamedKey::Tab => one(0x09),
        NamedKey::Escape => one(0x1b),
        NamedKey::Space => one(0x20),
        NamedKey::ArrowUp => csi(0x41),
        NamedKey::ArrowDown => csi(0x42),
        NamedKey::ArrowRight => csi(0x43),
        NamedKey::ArrowLeft => csi(0x44),
        NamedKey::Home => csi(0x48),
        NamedKey::End => csi(0x46),
        NamedKey::PageUp => csi_tilde(0x35),
        NamedKey::PageDown => csi_tilde(0x36),
        NamedKey::Delete => csi_tilde(0x33),
        NamedKey::Other => None,
    }
}

/// Code point of a character.
fn code(c: char) -> (n: u32)
    ensures
        n == c as int,
{
    c as u32
}

/// What typed text sends.
pub fn encode_text(text: &str, ctrl: bool) -> (out: Vec<u8>)
    ensures
        out@ == typed_bytes(text@, ctrl),
{
    let mut out: Vec<u8> = Vec::new();
    if ctrl {
        let chars = crate::text::chars_of(text);
        if chars.len() > 0 && code(chars[0]) < 128 {
            out.push((code(chars[0]) % 32) as u8);
            assert(out@ =~= seq![control_byte(text@[0])]);
            return out;
        }
    }
    crate::text::push_bytes(&mut out, text.as_bytes());
    assert(out@ =~= vstd::utf8::encode_utf8(text@));
    out
}

/// Translate a key into the bytes a PTY expects.
pub fn encode_key(key: &Key, ctrl: bool) -> (out: Option<Vec<u8>>)
    ensures
        same_bytes(out, key_bytes(*key, ctrl)),
{
    match key {
        Key::Character(s) => Some(encode_text(s.as_str(), ctrl)),
        Key::Named(n) => encode_named(*n),
        Key::Other => None,
    }
}

/// Pasted text, in bracketed-paste markers where the app asked for them.
pub open spec fn paste_payload(text: Seq<char>, bracketed: bool) -> Seq<u8> {
    let bytes = vstd::utf8::encode_utf8(text);
    if bracketed {
        seq![0x1bu8, 0x5b, 0x32, 0x30, 0x30, 0x7e] + bytes + seq![
            0x1bu8,
            0x5b,
            0x32,
            0x30,
            0x31,
            0x7e,
        ]
    } else {
        bytes
    }
}

/// Wrap pasted text in DEC bracketed-paste markers only if the app enabled
/// `?2004`, so the shell can distinguish pasted input from typed input;
/// otherwise deliver the raw bytes.
pub fn paste_bytes(text: &str, bracketed: bool) -> (out: Vec<u8>)
    ensures
        out@ == paste_payload(text@, bracketed),
{
    let mut out: Vec<u8> = Vec::new();
    if bracketed {
        crate::text::push_bytes(&mut out, &[0x1b, 0x5b, 0x32, 0x30, 0x30, 0x7e]);
        crate::text::push_bytes(&mut out, text.as_bytes());
        crate::text::push_bytes(&mut out, &[0x1b, 0x5b, 0x32, 0x30, 0x31, 0x7e]);
    } else {
        crate::text::push_bytes(&mut out, text.as_bytes());
    }
    assert(out@ =~= paste_payload(text@, bracketed));
    out
}

// ---- Combinations ----

/// Does the key type just this letter, in either case?
pub open spec fn types_letter(key: Key, lower: char, upper: char) -> bool {
    key matches Key::Character(s) && s@.len() == 1 && (s@[0] == lower || s@[0] == upper)
}

/// Does the key type just this character?
pub open spec fn types_char(key: Key, c: char) -> bool {
    types_letter(key, c, c)
}

fn letter(key: &Key, lower: char, upper: char) -> (yes: bool)
    ensures
        yes == types_letter(*key, lower, upper),
{
    match key {
        Key::Character(s) => {
            let chars = crate::text::chars_of(s.as_str());
            chars.len() == 1 && (chars[0] == lower || chars[0] == upper)
        },
        _ => false,
    }
}

/// Ctrl or Cmd and `f`.
pub open spec fn opens_find(key: Key, mods: Mods) -> bool {
    (mods.ctrl || mods.super_) && types_letter(key, 'f', 'F')
}

/// Ctrl+Shift and `v`, or Cmd and `v`.
pub open spec fn pastes(key: Key, mods: Mods) -> bool {
    ((mods.ctrl && mods.shift) || mods.super_) && types_letter(key, 'v', 'V')
}

/// Ctrl+Shift and `c`, or Cmd and `c`.
pub open spec fn copies(key: Key, mods: Mods) -> bool {
    ((mods.ctrl && mods.shift) || mods.super_) && types_letter(key, 'c', 'C')
}

/// Ctrl or Cmd and `=` or `+`, `-` or `_`, or `0`.
pub open spec fn zooms(key: Key, mods: Mods) -> Option<Zoom> {
    if !(mods.ctrl || mods.super_) {
        None
    } else if types_char(key, '=') || types_char(key, '+') {
        Some(Zoom::In)
    } else if types_char(key, '-') || types_char(key, '_') {
        Some(Zoom::Out)
    } else if types_char(key, '0') {
        Some(Zoom::Reset)
    } else {
        None
    }
}

/// How a navigation key moves the view of a screen with this many rows.
pub open spec fn scrolls(key: Key, rows: int) -> Option<ScrollCmd> {
    let page = crate::screen::minus(rows, 1);
    match key {
        Key::Named(NamedKey::PageUp) => Some(ScrollCmd::Lines(page as isize)),
        Key::Named(NamedKey::PageDown) => Some(ScrollCmd::Lines((-page) as isize)),
        Key::Named(NamedKey::ArrowUp) => Some(ScrollCmd::Lines(1)),
        Key::Named(NamedKey::ArrowDown) => Some(ScrollCmd::Lines((-1) as isize)),
        Key::Named(NamedKey::Home) => Some(ScrollCmd::ToTop),
        Key::Named(NamedKey::End) => Some(ScrollCmd::ToBottom),
        _ => None,
    }
}

pub fn is_find_open_combo(key: &Key, mods: Mods) -> (yes: bool)
    ensures
        yes == opens_find(*key, mods),
{
    (mods.ctrl || mods.super_) && letter(key, 'f', 'F')
}

/// Ctrl+Shift+V (Linux/Windows convention) or Cmd+V (macOS native).
pub fn is_paste_combo(key: &Key, mods: Mods) -> (yes: bool)
    ensures
        yes == pastes(*key, mods),
{
    letter(key, 'v', 'V') && ((mods.ctrl && mods.shift) || mods.super_)
}

/// Ctrl+Shift+C (Linux/Windows convention) or Cmd+C (macOS native).
pub fn is_copy_combo(key: &Key, mods: Mods) -> (yes: bool)
    ensures
        yes == copies(*key, mods),
{
    letter(key, 'c', 'C') && ((mods.ctrl && mods.shift) || mods.super_)
}

pub fn zoom_combo(key: &Key, mods: Mods) -> (zoom: Option<Zoom>)
    ensures
        zoom == zooms(*key, mods),
{
    if !(mods.ctrl || mods.super_) {
        return None;
    }
    if letter(key, '=', '=') || letter(key, '+', '+') {
        Some(Zoom::In)
    } else if letter(key, '-', '-') || letter(key, '_', '_') {
        Some(Zoom::Out)
    } else if letter(key, '0', '0') {
        Some(Zoom::Reset)
    } else {
        None
    }
}

pub fn scroll_for_key(key: &Key, rows: usize) -> (cmd: Option<ScrollCmd>)
    requires
        rows <= isize::MAX,
    ensures
        cmd == scrolls(*key, rows as int),
{
    let page: isize = rows.saturating_sub(1) as isize;
    match key {
        Key::Named(NamedKey::PageUp) => Some(ScrollCmd::Lines(page)),
        Key::Named(NamedKey::PageDown) => Some(ScrollCmd::Lines(-page)),
        Key::Named(NamedKey::ArrowUp) => Some(ScrollCmd::Lines(1)),
        Key::Named(NamedKey::ArrowDown) => Some(ScrollCmd::Lines(-1)),
        Key::Named(NamedKey::Home) => Some(ScrollCmd::ToTop),
        Key::Named(NamedKey::End) => Some(ScrollCmd::ToBottom),
        _ => None,
    }
}

/// The screen with its view moved.
pub open spec fn view_moved(scr: Screen, cmd: ScrollCmd) -> Screen {
    match cmd {
        ScrollCmd::Lines(n) => scr.scrolled(n as int),
        ScrollCmd::ToTop => if scr.alt {
            scr
        } else {
            Screen { view_offset: scr.history.len() as usize, ..scr }
        },
        ScrollCmd::ToBottom => Screen { view_offset: 0, ..scr },
    }
}

pub fn apply_scroll(grid: &mut Grid, d: ScrollCmd)
    requires
        old(grid)@.wf(),
        d matches ScrollCmd::Lines(n) ==> old(grid)@.alt || isize::MIN <= (old(grid)@.view_offset
            as isize) + n <= isize::MAX,
    ensures
        final(grid)@ == view_moved(old(grid)@, d),
{
    match d {
        ScrollCmd::Lines(n) => grid.scroll_lines(n),
        ScrollCmd::ToTop => grid.scroll_to_top(),
        ScrollCmd::ToBottom => grid.scroll_to_bottom(),
    }
    assert(grid@ =~= view_moved(old(grid)@, d));
}

// ---- Find mode ----

/// Control characters are not typed into a query.
pub open spec fn is_control(c: char) -> bool {
    (c as int) < 0x20 || 0x7f <= (c as int) <= 0x9f
}

/// The search after the characters of `text` have been typed into its query.
pub open spec fn typed_into(find: FindModel, scr: Screen, text: Seq<char>) -> FindModel
    decreases text.len(),
{
    if text.len() == 0 {
        find
    } else {
        let before = typed_into(find, scr, text.drop_last());
        if is_control(text.last()) {
            before
        } else {
            before.pushed(scr, text.last())
        }
    }
}

/// The search after a key: Enter steps through the matches (backwards with
/// Shift), Backspace shortens the query, text lengthens it. Combinations with
/// Ctrl or Cmd are app-level shortcuts, not query characters.
pub open spec fn find_after(find: FindModel, scr: Screen, key: Key, mods: Mods) -> FindModel {
    match key {
        Key::Named(NamedKey::Enter) => if mods.shift {
            find.backwards()
        } else {
            find.forwards()
        },
        Key::Named(NamedKey::Backspace) => find.popped(scr),
        Key::Character(s) => if mods.ctrl || mods.super_ {
            find
        } else {
            typed_into(find, scr, s@)
        },
        _ => find,
    }
}

/// Does the view follow the highlighted match after this key?
pub open spec fn find_follows(key: Key, mods: Mods) -> bool {
    match key {
        Key::Named(NamedKey::Enter) => true,
        Key::Named(NamedKey::Backspace) => true,
        Key::Character(s) => !(mods.ctrl || mods.super_),
        _ => false,
    }
}

/// The screen after a key in find mode.
pub open spec fn screen_after(find: FindModel, scr: Screen, key: Key, mods: Mods) -> Screen {
    if find_follows(key, mods) {
        find_after(find, scr, key, mods).revealed(scr)
    } else {
        scr
    }
}

/// Returns `true` to close find (Esc); `false` keeps it open.
pub fn handle_find_key(fs: &mut FindState, grid: &mut Grid, key: &Key, mods: Mods) -> (close: bool)
    requires
        old(grid)@.wf(),
    ensures
        close == (*key == Key::Named(NamedKey::Escape)),
        final(fs)@ == find_after(old(fs)@, old(grid)@, *key, mods),
        final(grid)@ == screen_after(old(fs)@, old(grid)@, *key, mods),
        old(fs)@.wf() ==> final(fs)@.wf(),
{
    match key {
        Key::Named(NamedKey::Escape) => {
            return true;
        },
        Key::Named(NamedKey::Enter) => {
            if mods.shift {
                fs.prev();
            } else {
                fs.next();
            }
            fs.scroll_to_current(grid);
        },
        Key::Named(NamedKey::Backspace) => {
            fs.pop_char(grid);
            fs.scroll_to_current(grid);
        },
        Key::Character(s) => {
            if mods.ctrl || mods.super_ {
                return false;
            }
            let chars = crate::text::chars_of(s.as_str());
            let ghost start = fs@;
            let mut i: usize = 0;
            while i < chars.len()
                invariant
                    i <= chars@.len(),
                    grid@.wf(),
                    grid@ == old(grid)@,
                    old(fs)@.wf() ==> fs@.wf(),
                    fs@ == typed_into(start, grid@, chars@.take(i as int)),
                decreases chars@.len() - i,
            {
                let c = chars[i];
                let n = code(c);
                proof {
                    let next = chars@.take(i + 1);
                    assert(next.drop_last() =~= chars@.take(i as int));
                    assert(next.last() == c);
                }
                if !(n < 0x20 || (0x7f <= n && n <= 0x9f)) {
                    fs.push_char(c, grid);
                }
                i += 1;
            }
            assert(chars@.take(chars@.len() as int) =~= s@);
            fs.scroll_to_current(grid);
        },
        _ => {},
    }
    false
}

/// Half-second blink phase: the cursor draws when (elapsed / 500ms) is even,
/// and always while it does not blink.
pub fn cursor_on(blink: bool, elapsed_ms: u128) -> (on: bool)
    ensures
        on == (!blink || (elapsed_ms / 500) % 2 == 0),
{
    !blink || (elapsed_ms / 500) % 2 == 0
}

/// Without modifiers no key is kept for the terminal itself, apart from what
/// find mode takes: everything typed reaches the app.
pub proof fn law_plain_keys_reach_the_app(key: Key, mods: Mods)
    requires
        !mods.ctrl,
        !mods.shift,
        !mods.super_,
    ensures
        !opens_find(key, mods),
        !pastes(key, mods),
        !copies(key, mods),
        zooms(key, mods) is None,
        key matches Key::Character(s) ==> key_bytes(key, false) == Some(
            vstd::utf8::encode_utf8(s@),
        ),
{
}

/// What the named keys send: Enter a carriage return, Backspace delete, Tab,
/// Escape and Space themselves; arrows, Home and End `CSI` and a letter; the
/// paging keys and Delete `CSI`, a digit and a tilde; any other key nothing.
pub proof fn law_named_keys(key: NamedKey)
    ensures
        key is Enter ==> named_bytes(key) == Some(seq![13u8]),
        key is Backspace ==> named_bytes(key) == Some(seq![127u8]),
        key is Tab ==> named_bytes(key) == Some(seq![9u8]),
        key is Escape ==> named_bytes(key) == Some(seq![27u8]),
        key is Space ==> named_bytes(key) == Some(seq![32u8]),
        key is Other <==> named_bytes(key) is None,
        ({
            let letter = if key is ArrowUp {
                65u8
            } else if key is ArrowDown {
                66u8
            } else if key is ArrowRight {
                67u8
            } else if key is ArrowLeft {
                68u8
            } else if key is Home {
                72u8
            } else if key is End {
                70u8
            } else {
                0u8
            };
            letter != 0 ==> named_bytes(key) == Some(seq![27u8, 91u8, letter])
        }),
        ({
            let digit = if key is PageUp {
                53u8
            } else if key is PageDown {
                54u8
            } else if key is Delete {
                51u8
            } else {
                0u8
            };
            digit != 0 ==> named_bytes(key) == Some(seq![27u8, 91u8, digit, 126u8])
        }),
{
}

/// Keys that send anything can be told apart by what they send.
pub proof fn law_named_keys_differ(a: NamedKey, b: NamedKey)
    requires
        a != b,
        named_bytes(a) is Some,
    ensures
        named_bytes(a) != named_bytes(b),
{
    if named_bytes(b) is Some {
        let (x, y) = (named_bytes(a)->0, named_bytes(b)->0);
        if x.len() == y.len() {
            assert(x[0] != y[0] || x[2] != y[2]);
        }
    }
}

/// Typed text is sent as it is. With Control, a letter sends its number in the
/// alphabet, whatever its case; another ASCII character sends its lowest five
/// bits; what is not ASCII is sent as it is.
pub proof fn law_typed_text(text: Seq<char>, ctrl: bool)
    ensures
        !ctrl || text.len() == 0 || text[0] as int >= 128 ==> typed_bytes(text, ctrl)
            == vstd::utf8::encode_utf8(text),
        ctrl && text.len() > 0 && (text[0] as int) < 128 ==> typed_bytes(text, ctrl).len() == 1
            && typed_bytes(text, ctrl)[0] < 32 && (text[0] as int - typed_bytes(text, ctrl)[0]) % 32
            == 0,
        ctrl && text.len() > 0 && 'a' <= text[0] <= 'z' ==> typed_bytes(text, ctrl)[0] + 'a' as int
            == text[0] as int + 1,
        ctrl && text.len() > 0 && 'A' <= text[0] <= 'Z' ==> typed_bytes(text, ctrl)[0] + 'A' as int
            == text[0] as int + 1,
{
}

/// Pasted text is sent as it is, between `CSI 200 ~` and `CSI 201 ~` where the
/// app asked for brackets.
pub proof fn law_pasted_text(text: Seq<char>, i: int)
    ensures
        paste_payload(text, false) == vstd::utf8::encode_utf8(text),
        ({
            let bytes = vstd::utf8::encode_utf8(text);
            let out = paste_payload(text, true);
            &&& out.len() == bytes.len() + 12
            &&& out.take(6) == seq![27u8, 91u8, 50u8, 48u8, 48u8, 126u8]
            &&& out.skip(6 + bytes.len() as int) == seq![27u8, 91u8, 50u8, 48u8, 49u8, 126u8]
            &&& 0 <= i < bytes.len() ==> out[6 + i] == bytes[i]
        }),
{
    let bytes = vstd::utf8::encode_utf8(text);
    let out = paste_payload(text, true);
    assert(out.take(6) =~= seq![27u8, 91u8, 50u8, 48u8, 48u8, 126u8]);
    assert(out.skip(6 + bytes.len() as int) =~= seq![27u8, 91u8, 50u8, 48u8, 49u8, 126u8]);
}

/// Is this the key that types just one of these two characters?
pub open spec fn is_key(key: Key, a: char, b: char) -> bool {
    match key {
        Key::Character(s) => s@ == seq![a] || s@ == seq![b],
        _ => false,
    }
}

/// Which combinations the terminal keeps: Control or Command with F to find;
/// Control and Shift, or Command, with C to copy and V to paste; Control or
/// Command with plus, minus or zero to zoom in, out or back.
pub proof fn law_combinations(key: Key, mods: Mods)
    ensures
        opens_find(key, mods) <==> is_key(key, 'f', 'F') && (mods.ctrl || mods.super_),
        copies(key, mods) <==> is_key(key, 'c', 'C') && (mods.super_ || (mods.ctrl && mods.shift)),
        pastes(key, mods) <==> is_key(key, 'v', 'V') && (mods.super_ || (mods.ctrl && mods.shift)),
        zooms(key, mods) == Some(Zoom::In) <==> is_key(key, '+', '=') && (mods.ctrl
            || mods.super_),
        zooms(key, mods) == Some(Zoom::Out) <==> is_key(key, '-', '_') && (mods.ctrl
            || mods.super_),
        zooms(key, mods) == Some(Zoom::Reset) <==> is_key(key, '0', '0') && (mods.ctrl
            || mods.super_),
{
    match key {
        Key::Character(s) => {
            if s@.len() == 1 {
                assert(s@ =~= seq![s@[0]]);
            }
        },
        _ => {},
    }
}

/// The navigation keys move the view: arrows by one line, the paging keys by a
/// page, which is one row less than the screen has; up is towards older lines.
/// Home and End lead to both ends. No other key moves it.
pub proof fn law_navigation_keys(key: Key, rows: int, scr: Screen)
    requires
        0 < rows <= isize::MAX,
        scr.wf(),
        scr.view_ok(),
        !scr.alt,
        scr.history.len() <= isize::MAX,
    ensures
        ({
            let cmd = scrolls(key, rows);
            let named = key is Named;
            let name = key->Named_0;
            let offset = view_moved(scr, cmd->0).view_offset;
            let up = |n: int|
                if scr.view_offset + n <= scr.history.len() {
                    scr.view_offset + n
                } else {
                    scr.history.len() as int
                };
            let down = |n: int|
                if scr.view_offset >= n {
                    scr.view_offset - n
                } else {
                    0
                };
            &&& cmd is Some <==> named && (name is PageUp || name is PageDown || name is ArrowUp
                || name is ArrowDown || name is Home || name is End)
            &&& cmd is Some ==> view_moved(scr, cmd->0) == (Screen { view_offset: offset, ..scr })
            &&& named && name is ArrowUp ==> offset == up(1)
            &&& named && name is ArrowDown ==> offset == down(1)
            &&& named && name is PageUp ==> offset == up(rows - 1)
            &&& named && name is PageDown ==> offset == down(rows - 1)
            &&& named && name is Home ==> offset == scr.history.len()
            &&& named && name is End ==> offset == 0
        }),
{
}

/// On the alternate screen the view does not leave the bottom.
pub proof fn law_alternate_view_stays(scr: Screen, cmd: ScrollCmd)
    requires
        scr.alt,
        scr.view_ok(),
    ensures
        view_moved(scr, cmd) == scr,
{
}

/// In find mode, Enter steps to the next match and, with Shift, to the one
/// before; Backspace takes the last character off the query; text is added to
/// it, control characters left out; with Control or Command it is not. Nothing
/// else touches the search.
pub proof fn law_find_keys(find: FindModel, scr: Screen, key: Key, mods: Mods, c: char)
    requires
        find.wf(),
        find.matches.len() <= usize::MAX,
    ensures
        ({
            let after = find_after(find, scr, key, mods);
            let n = find.matches.len() as int;
            let held = mods.ctrl || mods.super_;
            &&& key == Key::Named(NamedKey::Enter) ==> after == (FindModel {
                current: after.current,
                ..find
            })
            &&& key == Key::Named(NamedKey::Enter) && !mods.shift && n > 0 ==> after.current
                == if find.current + 1 < n {
                find.current + 1
            } else {
                0
            }
            &&& key == Key::Named(NamedKey::Enter) && mods.shift && n > 0 ==> after.current
                == if find.current > 0 {
                find.current - 1
            } else {
                n - 1
            }
            &&& key == Key::Named(NamedKey::Backspace) ==> after.query == if find.query.len() > 0 {
                find.query.take(find.query.len() - 1)
            } else {
                find.query
            }
            &&& key is Character && held ==> after == find
            &&& key is Character && !held && key->Character_0@ == seq![c] ==> after.query == if (
            c as int) < 32 || 127 <= c as int <= 159 {
                find.query
            } else {
                find.query.push(c)
            }
            &&& key == Key::Named(NamedKey::Backspace) ==> after.matches
                == crate::find::all_matches(scr, after.query)
            &&& key is Character && !held && key->Character_0@ == seq![c] && after.query
                != find.query ==> after.matches == crate::find::all_matches(scr, after.query)
            &&& key is Character && !held && key->Character_0@ == seq![c] && ((c as int) < 32
                || 127 <= c as int <= 159) ==> after == find
            &&& key is Other || (key is Named && key->Named_0 != NamedKey::Enter && key->Named_0
                != NamedKey::Backspace) ==> after == find
        }),
{
    let n = find.matches.len() as int;
    if n > 0 {
        let cur = find.current as int;
        if cur + 1 < n {
            vstd::arithmetic::div_mod::lemma_small_mod((cur + 1) as nat, n as nat);
        } else {
            vstd::arithmetic::div_mod::lemma_mod_self_0(n);
        }
        if cur > 0 {
            vstd::arithmetic::div_mod::lemma_mod_add_multiples_vanish(cur - 1, n);
            vstd::arithmetic::div_mod::lemma_small_mod((cur - 1) as nat, n as nat);
        } else {
            vstd::arithmetic::div_mod::lemma_small_mod((n - 1) as nat, n as nat);
        }
    }
    if find.query.len() > 0 {
        assert(find.query.drop_last() =~= find.query.take(find.query.len() - 1));
    }
    if key is Character && key->Character_0@ == seq![c] {
        let text = key->Character_0@;
        reveal_with_fuel(typed_into, 2);
        assert(text.drop_last() =~= Seq::empty());
        assert(text.last() == c);
    }
}

/// Text typed into a query takes effect character by character.
pub proof fn law_typing_in_order(find: FindModel, scr: Screen, text: Seq<char>, c: char)
    ensures
        typed_into(find, scr, text.push(c)) == typed_into(
            typed_into(find, scr, text),
            scr,
            seq![c],
        ),
        typed_into(find, scr, Seq::empty()) == find,
{
    assert(text.push(c).drop_last() =~= text);
    assert(seq![c].drop_last() =~= Seq::<char>::empty());
    reveal_with_fuel(typed_into, 2);
}

/// Characters send what is typed, named keys what they stand for, and any
/// other key nothing; named keys do not mind Control.
pub proof fn law_what_keys_send(key: Key, ctrl: bool)
    ensures
        key is Other ==> key_bytes(key, ctrl) is None,
        key is Named ==> key_bytes(key, ctrl) == named_bytes(key->Named_0),
        key is Character ==> key_bytes(key, ctrl) == Some(typed_bytes(key->Character_0@, ctrl)),
{
}

/// In find mode, the view follows the highlighted match after stepping and
/// after each change of the query, and stays otherwise.
pub proof fn law_find_view(find: FindModel, scr: Screen, key: Key, mods: Mods)
    ensures
        ({
            let steps = key == Key::Named(NamedKey::Enter) || key == Key::Named(
                NamedKey::Backspace,
            ) || (key is Character && !mods.ctrl && !mods.super_);
            &&& steps ==> screen_after(find, scr, key, mods) == find_after(
                find,
                scr,
                key,
                mods,
            ).revealed(scr)
            &&& !steps ==> screen_after(find, scr, key, mods) == scr
        }),
{
}

} // verus!
