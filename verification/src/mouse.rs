//! Mouse events as terminal byte sequences (SGR or X10), for child apps that
//! asked for DEC mouse reporting.

use vstd::prelude::*;

use crate::event::{Mods, MouseAction, MouseButton, MouseMode};

verus! {

/// Largest coordinate that an X10 report can carry.
pub const X10_LIMIT: usize = 223;

pub open spec fn is_wheel(button: MouseButton) -> bool {
    button is WheelUp || button is WheelDown
}

pub open spec fn flag(on: bool, weight: int) -> int {
    if on {
        weight
    } else {
        0
    }
}

/// Button code: the button, the modifiers held, and whether the pointer moved.
pub open spec fn button_code(action: MouseAction, button: MouseButton, mods: Mods) -> int {
    let base: int = match button {
        MouseButton::Left => 0,
        MouseButton::Middle => 1,
        MouseButton::Right => 2,
        MouseButton::WheelUp => 64,
        MouseButton::WheelDown => 65,
    };
    base + flag(mods.shift, 4) + flag(mods.alt, 8) + flag(mods.ctrl, 16) + flag(
        action is Drag && !is_wheel(button),
        32,
    )
}

/// Does the child app want to hear of this action?
pub open spec fn wanted(mode: MouseMode, action: MouseAction) -> bool {
    mode.reports() && (action is Drag ==> mode.drag)
}

/// `ESC [ < code ; column ; row` and `M`, or `m` for a release.
pub open spec fn sgr_report(code: int, release: bool, col: int, row: int) -> Seq<u8> {
    seq![0x1bu8, 0x5b, 0x3c] + crate::text::decimal(code as nat) + seq![0x3bu8]
        + crate::text::decimal((col + 1) as nat) + seq![0x3bu8] + crate::text::decimal(
        (row + 1) as nat,
    ) + seq![
        if release {
            0x6du8
        } else {
            0x4du8
        },
    ]
}

/// `ESC [ M` and three bytes, each 32 up: code (3 for a release), column, row.
pub open spec fn x10_report(code: int, release: bool, col: int, row: int) -> Seq<u8> {
    let code = if release {
        3
    } else {
        code
    };
    seq![
        0x1bu8,
        0x5b,
        0x4d,
        (code + 32) as u8,
        (crate::screen::least(col + 1, X10_LIMIT as int) + 32) as u8,
        (crate::screen::least(row + 1, X10_LIMIT as int) + 32) as u8,
    ]
}

/// The bytes to send for a mouse event, if any.
pub open spec fn mouse_report(
    mode: MouseMode,
    action: MouseAction,
    button: MouseButton,
    col: int,
    row: int,
    mods: Mods,
) -> Option<Seq<u8>> {
    let code = button_code(action, button, mods);
    if !wanted(mode, action) {
        None
    } else if mode.sgr_encoded {
        Some(sgr_report(code, action is Release, col, row))
    } else {
        Some(x10_report(code, action is Release, col, row))
    }
}

/// Encode for the PTY based on active DEC modes. None = no reporting enabled
/// (or a drag while `?1002` is off), so the caller handles it locally.
pub fn encode_mouse(
    mode: MouseMode,
    action: MouseAction,
    button: MouseButton,
    col: usize,
    row: usize,
    mods: Mods,
) -> (bytes: Option<Vec<u8>>)
    requires
        wanted(mode, action) ==> col < usize::MAX && row < usize::MAX,
    ensures
        bytes is Some <==> wanted(mode, action),
        bytes matches Some(b) ==> Some(b@) == mouse_report(
            mode,
            action,
            button,
            col as int,
            row as int,
            mods,
        ),
{
    if !mode.enabled() {
        return None;
    }
    if matches!(action, MouseAction::Drag) && !mode.drag {
        return None;
    }
    let code = code_of(action, button, mods);
    let release = matches!(action, MouseAction::Release);
    if mode.sgr_encoded {
        Some(sgr_bytes(code, release, col, row))
    } else {
        Some(x10_bytes(code, release, col, row))
    }
}

/// Wheel steps use codes 64/65 and take no motion bit. Real buttons use 0/1/2
/// and combine with motion.
fn code_of(action: MouseAction, button: MouseButton, mods: Mods) -> (code: u8)
    ensures
        code == button_code(action, button, mods),
        code <= 93,
{
    let wheel = matches!(button, MouseButton::WheelUp | MouseButton::WheelDown);
    let base: u8 = match button {
        MouseButton::Left => 0,
        MouseButton::Middle => 1,
        MouseButton::Right => 2,
        MouseButton::WheelUp => 64,
        MouseButton::WheelDown => 65,
    };
    base + weight(mods.shift, 4) + weight(mods.alt, 8) + weight(mods.ctrl, 16) + weight(
        matches!(action, MouseAction::Drag) && !wheel,
        32,
    )
}

fn weight(on: bool, w: u8) -> (n: u8)
    ensures
        n == flag(on, w as int),
{
    if on {
        w
    } else {
        0
    }
}

fn sgr_bytes(code: u8, release: bool, col: usize, row: usize) -> (out: Vec<u8>)
    requires
        col < usize::MAX,
        row < usize::MAX,
    ensures
        out@ == sgr_report(code as int, release, col as int, row as int),
{
    let mut out: Vec<u8> = Vec::new();
    crate::text::push_bytes(&mut out, &[0x1b, 0x5b, 0x3c]);
    assert(out@ =~= seq![0x1bu8, 0x5b, 0x3c]);
    crate::text::push_decimal(&mut out, code as usize);
    out.push(0x3b);
    crate::text::push_decimal(&mut out, col + 1);
    out.push(0x3b);
    crate::text::push_decimal(&mut out, row + 1);
    if release {
        out.push(0x6d);
    } else {
        out.push(0x4d);
    }
    assert(out@ =~= sgr_report(code as int, release, col as int, row as int));
    out
}

fn x10_bytes(code: u8, release: bool, col: usize, row: usize) -> (out: Vec<u8>)
    requires
        code <= 93,
        col < usize::MAX,
        row < usize::MAX,
    ensures
        out@ == x10_report(code as int, release, col as int, row as int),
{
    let mut out: Vec<u8> = Vec::new();
    crate::text::push_bytes(&mut out, &[0x1b, 0x5b, 0x4d]);
    if release {
        out.push(3 + 32);
    } else {
        out.push(code + 32);
    }
    out.push(x10_coordinate(col));
    out.push(x10_coordinate(row));
    assert(out@ =~= x10_report(code as int, release, col as int, row as int));
    out
}

/// A zero-based coordinate as an X10 byte.
fn x10_coordinate(v: usize) -> (b: u8)
    requires
        v < usize::MAX,
    ensures
        b == crate::screen::least(v + 1, X10_LIMIT as int) + 32,
{
    if v + 1 < X10_LIMIT {
        (v + 1) as u8 + 32
    } else {
        255
    }
}

/// Press and release of the same button at the same place never look alike.
pub proof fn law_release_differs_from_press(
    mode: MouseMode,
    button: MouseButton,
    col: int,
    row: int,
    mods: Mods,
)
    requires
        mode.reports(),
    ensures
        mouse_report(mode, MouseAction::Press, button, col, row, mods) != mouse_report(
            mode,
            MouseAction::Release,
            button,
            col,
            row,
            mods,
        ),
{
    let code = button_code(MouseAction::Press, button, mods);
    if mode.sgr_encoded {
        assert(sgr_report(code, false, col, row).last() == 0x4d);
        assert(sgr_report(code, true, col, row).last() == 0x6d);
    } else {
        assert(x10_report(code, false, col, row)[3] == (code + 32) as u8);
        assert(x10_report(code, true, col, row)[3] == 35);
    }
}

/// The button code tells button, modifiers and motion apart: 0, 1 and 2 are the
/// buttons and 64 and 65 the wheel; shift adds 4, alt 8, control 16, and a drag
/// of a button 32.
pub proof fn law_button_code(action: MouseAction, button: MouseButton, mods: Mods)
    ensures
        ({
            let code = button_code(action, button, mods);
            let wheel = button is WheelUp || button is WheelDown;
            &&& 0 <= code < 128
            &&& code / 64 == 1 <==> wheel
            &&& (code / 32) % 2 == 1 <==> action is Drag && !wheel
            &&& (code / 16) % 2 == 1 <==> mods.ctrl
            &&& (code / 8) % 2 == 1 <==> mods.alt
            &&& (code / 4) % 2 == 1 <==> mods.shift
            &&& code % 4 == match button {
                MouseButton::Left => 0int,
                MouseButton::Middle => 1,
                MouseButton::Right => 2,
                MouseButton::WheelUp => 0,
                MouseButton::WheelDown => 1,
            }
        }),
{
}

/// Is this an SGR report: `ESC [ <`, three numbers apart by semicolons, and `M`
/// or `m`?
pub open spec fn is_sgr_report(
    bytes: Seq<u8>,
    code: int,
    col: int,
    row: int,
    last: u8,
    i: int,
    j: int,
) -> bool {
    &&& 3 < i < j < bytes.len() - 1
    &&& bytes[0] == 0x1b && bytes[1] == 0x5b && bytes[2] == 0x3c
    &&& bytes[i] == 0x3b && bytes[j] == 0x3b
    &&& bytes.last() == last
    &&& crate::text::number(bytes.subrange(3, i)) == Some(code)
    &&& crate::text::number(bytes.subrange(i + 1, j)) == Some(col)
    &&& crate::text::number(bytes.subrange(j + 1, bytes.len() - 1)) == Some(row)
}

/// Is this the SGR report of these numbers?
pub open spec fn spells(bytes: Seq<u8>, code: int, col: int, row: int, last: u8) -> bool {
    exists|i: int, j: int| #[trigger] is_sgr_report(bytes, code, col, row, last, i, j)
}

/// A mouse action is reported exactly if the app asked for reports, and for
/// drags if it asked for those. An SGR report spells code, column and row, both
/// counting from one, and ends in `m` for a release and `M` otherwise. The old
/// form has one byte for each, 32 up, no column or row above 223, and the same
/// code 3 for every release.
pub proof fn law_mouse_reports(
    mode: MouseMode,
    action: MouseAction,
    button: MouseButton,
    col: int,
    row: int,
    mods: Mods,
)
    requires
        0 <= col,
        0 <= row,
    ensures
        ({
            let report = mouse_report(mode, action, button, col, row, mods);
            let code = button_code(action, button, mods);
            let asked = (mode.button || mode.drag) && (action is Drag ==> mode.drag);
            let last: u8 = if action is Release {
                0x6d
            } else {
                0x4d
            };
            &&& report is Some <==> asked
            &&& asked && mode.sgr_encoded ==> spells(report->0, code, col + 1, row + 1, last)
            &&& asked && !mode.sgr_encoded ==> {
                &&& report->0.len() == 6
                &&& report->0[0] == 0x1b && report->0[1] == 0x5b && report->0[2] == 0x4d
                &&& action is Release ==> report->0[3] == 35
                &&& !(action is Release) ==> report->0[3] == code + 32
                &&& col < 222 ==> report->0[4] == col + 33
                &&& col >= 222 ==> report->0[4] == 255
                &&& row < 222 ==> report->0[5] == row + 33
                &&& row >= 222 ==> report->0[5] == 255
            }
        }),
{
    let code = button_code(action, button, mods);
    law_button_code(action, button, mods);
    if wanted(mode, action) && mode.sgr_encoded {
        let out = sgr_report(code, action is Release, col, row);
        let a = crate::text::decimal(code as nat);
        let b = crate::text::decimal((col + 1) as nat);
        let c = crate::text::decimal((row + 1) as nat);
        crate::text::law_decimal(code as nat);
        crate::text::law_decimal((col + 1) as nat);
        crate::text::law_decimal((row + 1) as nat);
        let i = 3 + a.len() as int;
        let j = i + 1 + b.len() as int;
        let last: u8 = if action is Release {
            0x6d
        } else {
            0x4d
        };
        assert(out.subrange(3, i) =~= a);
        assert(out.subrange(i + 1, j) =~= b);
        assert(out.subrange(j + 1, out.len() - 1) =~= c);
        assert(is_sgr_report(out, code, col + 1, row + 1, last, i, j));
    }
}

} // verus!
