use gator::app::{App, ClickOutcome, KeyOutcome, WheelOutcome};
use gator::event::{Mods, MouseButton, MouseMode, ScrollCmd};
use gator::grid::{AbsCoord, Grid};
use gator::keys::{
    apply_scroll, cursor_on, encode_key, paste_bytes, scroll_for_key, Key, NamedKey, Zoom,
};

fn text(s: &str) -> Key {
    Key::Character(s.to_string())
}

fn mods(ctrl: bool, shift: bool, super_: bool) -> Mods {
    Mods { ctrl, shift, alt: false, super_ }
}

fn app_with(lines: &str) -> App {
    let mut app = App::new(10, 2, 100);
    assert!(app.output(lines.as_bytes()).unwrap().is_empty());
    app
}

fn sent(outcome: KeyOutcome) -> Vec<u8> {
    match outcome {
        KeyOutcome::Send { bytes, .. } => bytes,
        other => panic!("{other:?}"),
    }
}

#[test]
fn keys_send_what_terminals_expect() {
    assert_eq!(encode_key(&text("a"), false).unwrap(), b"a");
    assert_eq!(encode_key(&text("\u{20ac}"), true).unwrap(), "\u{20ac}".as_bytes());
    assert_eq!(encode_key(&text("c"), true).unwrap(), vec![3]);
    assert_eq!(encode_key(&text("["), true).unwrap(), vec![0x1b]);
    assert_eq!(encode_key(&text(""), true).unwrap(), b"");
    for (key, bytes) in [
        (NamedKey::Enter, "\r"),
        (NamedKey::Backspace, "\x7f"),
        (NamedKey::Tab, "\t"),
        (NamedKey::Escape, "\x1b"),
        (NamedKey::Space, " "),
        (NamedKey::ArrowUp, "\x1b[A"),
        (NamedKey::ArrowDown, "\x1b[B"),
        (NamedKey::ArrowRight, "\x1b[C"),
        (NamedKey::ArrowLeft, "\x1b[D"),
        (NamedKey::Home, "\x1b[H"),
        (NamedKey::End, "\x1b[F"),
        (NamedKey::PageUp, "\x1b[5~"),
        (NamedKey::PageDown, "\x1b[6~"),
        (NamedKey::Delete, "\x1b[3~"),
    ] {
        assert_eq!(encode_key(&Key::Named(key), false).unwrap(), bytes.as_bytes());
    }
    assert!(encode_key(&Key::Named(NamedKey::Other), false).is_none());
    assert!(encode_key(&Key::Other, false).is_none());
}

#[test]
fn paste_is_wrapped_when_asked_for() {
    assert_eq!(paste_bytes("hi", false), b"hi");
    assert_eq!(paste_bytes("hi", true), b"\x1b[200~hi\x1b[201~");
    let app = app_with("\x1b[?2004h");
    assert_eq!(app.paste("x").unwrap(), b"\x1b[200~x\x1b[201~");
    assert!(app.paste("").is_none());
}

#[test]
fn scroll_keys() {
    let page = scroll_for_key(&Key::Named(NamedKey::PageUp), 24);
    assert_eq!(page, Some(ScrollCmd::Lines(23)));
    assert_eq!(scroll_for_key(&Key::Named(NamedKey::PageDown), 24), Some(ScrollCmd::Lines(-23)));
    assert_eq!(scroll_for_key(&Key::Named(NamedKey::ArrowDown), 0), Some(ScrollCmd::Lines(-1)));
    assert_eq!(scroll_for_key(&Key::Named(NamedKey::Enter), 24), None);
    let mut g = Grid::new(2, 1, 10);
    g.push_history_line(vec![]);
    g.push_history_line(vec![]);
    apply_scroll(&mut g, ScrollCmd::Lines(1));
    assert_eq!(g.view_offset, 1);
    apply_scroll(&mut g, ScrollCmd::ToTop);
    assert_eq!(g.view_offset, 2);
    apply_scroll(&mut g, ScrollCmd::ToBottom);
    assert_eq!(g.view_offset, 0);
}

#[test]
fn the_cursor_blinks_twice_a_second() {
    assert!(cursor_on(false, 700));
    assert!(cursor_on(true, 499));
    assert!(!cursor_on(true, 500));
    assert!(!cursor_on(true, 999));
    assert!(cursor_on(true, 1000));
}

#[test]
fn keys_have_their_priorities() {
    let mut app = app_with("a\r\nb\r\nc\r\nd");
    app.set_mods(mods(false, true, false));
    assert!(matches!(app.key(&Key::Named(NamedKey::ArrowUp)), KeyOutcome::Scroll));
    assert_eq!(app.grid.view_offset, 1);
    // Typing snaps back to the bottom.
    match app.key(&text("X")) {
        KeyOutcome::Send { bytes, redraw } => assert_eq!((bytes, redraw), (b"X".to_vec(), true)),
        other => panic!("{other:?}"),
    }
    assert_eq!(app.grid.view_offset, 0);
    app.set_mods(mods(true, true, false));
    assert!(matches!(app.key(&text("C")), KeyOutcome::Copy));
    assert!(matches!(app.key(&text("v")), KeyOutcome::Paste));
    app.set_mods(mods(true, false, false));
    assert!(matches!(app.key(&text("+")), KeyOutcome::Zoom(Zoom::In)));
    assert!(matches!(app.key(&text("_")), KeyOutcome::Zoom(Zoom::Out)));
    assert!(matches!(app.key(&text("0")), KeyOutcome::Zoom(Zoom::Reset)));
    assert_eq!(sent(app.key(&text("c"))), vec![3]);
    app.set_mods(mods(false, false, true));
    assert!(matches!(app.key(&text("c")), KeyOutcome::Copy));
    app.set_mods(mods(false, false, false));
    assert_eq!(sent(app.key(&Key::Named(NamedKey::ArrowUp))), b"\x1b[A");
    assert!(matches!(app.key(&Key::Other), KeyOutcome::Ignored));
}

#[test]
fn find_mode_owns_the_keyboard() {
    let mut app = app_with("foo\r\nbar\r\nfoo\r\nbaz");
    app.set_mods(mods(true, false, false));
    assert!(matches!(app.key(&text("F")), KeyOutcome::Find));
    assert!(app.find.as_ref().unwrap().matches.is_empty());
    // Shortcuts are not typed into the query.
    assert!(matches!(app.key(&text("x")), KeyOutcome::Find));
    app.set_mods(mods(false, false, false));
    assert!(matches!(app.key(&text("fo\x07o")), KeyOutcome::Find));
    let f = app.find.as_ref().unwrap();
    assert_eq!(f.query, "foo");
    assert_eq!(f.matches.len(), 2);
    assert_eq!(app.grid.view_offset, 2);
    assert!(matches!(app.key(&Key::Named(NamedKey::Enter)), KeyOutcome::Find));
    assert_eq!(app.find.as_ref().unwrap().current, 1);
    app.set_mods(mods(false, true, false));
    app.key(&Key::Named(NamedKey::Enter));
    assert_eq!(app.find.as_ref().unwrap().current, 0);
    app.key(&Key::Named(NamedKey::Backspace));
    assert_eq!(app.find.as_ref().unwrap().query, "fo");
    app.key(&Key::Named(NamedKey::Tab));
    assert!(app.find.is_some());
    app.key(&Key::Named(NamedKey::Escape));
    assert!(app.find.is_none());
}

#[test]
fn the_mouse_selects_locally() {
    let mut app = app_with("hello\r\nworld");
    match app.pointer_button(true, MouseButton::Left, 1, 0) {
        ClickOutcome::Mouse { outcome, copy } => {
            assert!(outcome.bytes.is_none() && outcome.redraw && !copy);
        }
        other => panic!("{other:?}"),
    }
    assert!(!app.pointer_moved(1, 0).redraw);
    assert!(app.pointer_moved(2, 1).redraw);
    assert!(!app.pointer_moved(2, 1).redraw);
    match app.pointer_button(false, MouseButton::Left, 2, 1) {
        ClickOutcome::Mouse { copy, .. } => assert!(copy),
        other => panic!("{other:?}"),
    }
    assert_eq!(app.selection_text().unwrap(), "ello\nwor");
    assert!(!app.pointer_moved(5, 1).redraw);
    // Other buttons do nothing here.
    app.pointer_button(true, MouseButton::Right, 0, 0);
    assert_eq!(app.selection_text().unwrap(), "ello\nwor");
}

#[test]
fn mouse_mode_reports_unless_shift_is_held() {
    let mut app = app_with("\x1b[?1000h\x1b[?1006h");
    match app.pointer_button(true, MouseButton::Left, 1, 0) {
        ClickOutcome::Mouse { outcome, .. } => {
            assert_eq!(outcome.bytes.unwrap(), b"\x1b[<0;2;1M");
            assert!(!outcome.redraw);
        }
        other => panic!("{other:?}"),
    }
    assert!(app.grid.selection.is_none());
    // Without ?1002 drags are not reported.
    assert!(app.pointer_moved(3, 1).bytes.is_none());
    match app.wheel(false, -3, 0, 0) {
        WheelOutcome::Report(bytes) => assert_eq!(bytes, b"\x1b[<65;1;1M"),
        other => panic!("{other:?}"),
    }
    app.set_mods(mods(false, true, false));
    assert!(matches!(app.wheel(true, 3, 0, 0), WheelOutcome::Scroll));
    assert!(matches!(app.wheel(true, 0, 0, 0), WheelOutcome::Ignored));
    app.pointer_button(true, MouseButton::Left, 1, 0);
    assert_eq!(app.grid.selection.unwrap().anchor, AbsCoord { abs_row: 0, col: 1 });
    assert_eq!(app.grid.mouse_mode, MouseMode { button: true, drag: false, sgr_encoded: true });
}

#[test]
fn modified_clicks_open_links() {
    let mut app = App::new(30, 2, 100);
    app.output(b"go http://a.b now").unwrap();
    app.set_mods(mods(true, false, false));
    match app.pointer_button(true, MouseButton::Left, 5, 0) {
        ClickOutcome::Open(url) => assert_eq!(url, "http://a.b"),
        other => panic!("{other:?}"),
    }
    assert!(app.button_down.is_none());
    match app.pointer_button(true, MouseButton::Left, 0, 0) {
        ClickOutcome::Mouse { .. } => assert_eq!(app.button_down, Some(MouseButton::Left)),
        other => panic!("{other:?}"),
    }
    app.grid.active_link = Some("http://hidden".to_string());
    app.output(b"\rX").unwrap();
    match app.pointer_button(true, MouseButton::Left, 0, 0) {
        ClickOutcome::Open(url) => assert_eq!(url, "http://hidden"),
        other => panic!("{other:?}"),
    }
}

#[test]
fn output_is_answered_and_resizing_told_once() {
    let mut app = App::new(10, 2, 100);
    assert_eq!(app.output(b"\x1b[c").unwrap(), b"\x1b[?6c");
    assert!(app.resize(12, 3));
    assert!(!app.resize(12, 3));
    assert_eq!((app.grid.cols(), app.grid.rows()), (12, 3));
    assert!(app.output(b"\x1b[50;1Hx").is_none());
}

#[test]
fn the_view_stays_on_what_is_read() {
    let mut app = app_with("1\r\n2\r\n3\r\n4");
    app.poll_done(2);
    app.grid.view_offset = 1;
    let top = app.grid.displayed_abs_row(0);
    app.output(b"\r\n5\r\n6").unwrap();
    let pushed = gator::session::drain_text(&mut app.grid).len();
    assert_eq!(pushed, 4);
    app.poll_done(2);
    assert_eq!(app.grid.displayed_abs_row(0), top);
    app.poll_done(100);
    assert_eq!(app.grid.view_offset, 4);
}

#[test]
fn polling_reports_each_change_once() {
    let mut app = app_with("\x07\x1b[?1049h");
    app.grid.title = "hey".to_string();
    app.grid.title_seq = 1;
    app.grid.pending_clipboard = Some("clip".to_string());
    let out = app.poll_done(0);
    assert_eq!(out.alt_toggled, Some(true));
    assert!(out.bell);
    assert_eq!(out.title.as_deref(), Some("hey"));
    assert_eq!(out.clipboard.as_deref(), Some("clip"));
    let out = app.poll_done(0);
    assert!(out.alt_toggled.is_none() && !out.bell && out.title.is_none());
    assert!(out.clipboard.is_none());
    app.output(b"\x1b[?1049l").unwrap();
    assert_eq!(app.poll_done(0).alt_toggled, Some(false));
}

#[test]
fn rounds_are_paced_by_what_moves() {
    let mut app = App::new(4, 2, 10);
    assert!(!app.redraw_due(false, false));
    assert_eq!(app.next_round_ms(false), 5);
    assert_eq!(app.next_round_ms(true), 16);
    app.cursor.blink = true;
    assert!(app.redraw_due(false, false));
    assert_eq!(app.next_round_ms(false), 250);
    app.cursor.visible = false;
    assert_eq!(app.next_round_ms(false), 5);
    assert!(app.redraw_due(true, false) && app.redraw_due(false, true));
}
