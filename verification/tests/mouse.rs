use gator::event::{Mods, MouseAction, MouseButton};
use gator::grid::MouseMode;
use gator::mouse::encode_mouse;

fn mode(sgr: bool) -> MouseMode {
    MouseMode { button: true, drag: true, sgr_encoded: sgr }
}

#[test]
fn no_encoding_when_disabled() {
    let off = MouseMode::default();
    assert!(encode_mouse(off, MouseAction::Press, MouseButton::Left, 0, 0, Mods::default())
        .is_none());
}

#[test]
fn sgr_press_and_release_use_distinct_suffix() {
    let p = encode_mouse(mode(true), MouseAction::Press, MouseButton::Left, 5, 9, Mods::default())
        .unwrap();
    let r = encode_mouse(mode(true), MouseAction::Release, MouseButton::Left, 5, 9, Mods::default())
        .unwrap();
    assert_eq!(p, b"\x1b[<0;6;10M");
    assert_eq!(r, b"\x1b[<0;6;10m");
}

#[test]
fn sgr_drag_sets_motion_bit() {
    let d = encode_mouse(mode(true), MouseAction::Drag, MouseButton::Left, 0, 0, Mods::default())
        .unwrap();
    // Cb = 0 (left) | 32 (motion) = 32.
    assert_eq!(d, b"\x1b[<32;1;1M");
}

#[test]
fn x10_release_reports_button_3() {
    let r = encode_mouse(mode(false), MouseAction::Release, MouseButton::Left, 0, 0, Mods::default())
        .unwrap();
    // \x1b[M then (3+32), (1+32), (1+32) = '#', '!', '!'.
    assert_eq!(r, b"\x1b[M#!!");
}

#[test]
fn wheel_up_encodes_as_button_64() {
    let e = encode_mouse(mode(true), MouseAction::Press, MouseButton::WheelUp, 0, 0, Mods::default())
        .unwrap();
    assert_eq!(e, b"\x1b[<64;1;1M");
}

#[test]
fn drag_dropped_when_drag_mode_off() {
    let m = MouseMode { button: true, drag: false, sgr_encoded: true };
    assert!(encode_mouse(m, MouseAction::Drag, MouseButton::Left, 0, 0, Mods::default()).is_none());
}

#[test]
fn modifiers_and_limits() {
    let all = Mods { ctrl: true, shift: true, alt: true, super_: true };
    let e = encode_mouse(mode(true), MouseAction::Drag, MouseButton::Right, 1, 2, all).unwrap();
    assert_eq!(e, b"\x1b[<62;2;3M");
    let e = encode_mouse(mode(false), MouseAction::Press, MouseButton::WheelDown, 900, 222, all)
        .unwrap();
    assert_eq!(e, vec![0x1b, b'[', b'M', 65 + 28 + 32, 255, 255]);
    let e = encode_mouse(mode(false), MouseAction::Press, MouseButton::Left, 900, 221, all).unwrap();
    assert_eq!(e, vec![0x1b, b'[', b'M', 28 + 32, 255, 254]);
    // A press and a release look different.
    let none = Mods::default();
    let p = encode_mouse(mode(false), MouseAction::Press, MouseButton::Right, 0, 0, none).unwrap();
    let r = encode_mouse(mode(false), MouseAction::Release, MouseButton::Right, 0, 0, none).unwrap();
    assert_ne!(p, r);
}
