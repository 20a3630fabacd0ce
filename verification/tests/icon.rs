use gator::icon::{
    draw_line, fill_rect, fill_rounded_rect, gator_icon, gator_window_icon, set_pixel, window_icon,
    IconError, ICON_SIZE,
};
use winit::window::BadIcon;

const RED: [u8; 4] = [255, 0, 0, 255];

fn canvas(size: u32) -> Vec<u8> {
    vec![0; (size * size * 4) as usize]
}

fn lit(rgba: &[u8], size: u32) -> Vec<(u32, u32)> {
    let mut out = Vec::new();
    for y in 0..size {
        for x in 0..size {
            let i = ((y * size + x) * 4) as usize;
            if rgba[i..i + 4] == RED {
                out.push((x, y));
            }
        }
    }
    out
}

#[test]
fn pixels_outside_are_left_alone() {
    let mut c = canvas(4);
    set_pixel(&mut c, 4, 1, 2, RED);
    set_pixel(&mut c, 4, 4, 0, RED);
    set_pixel(&mut c, 4, 0, 9, RED);
    assert_eq!(lit(&c, 4), vec![(1, 2)]);
    fill_rect(&mut c, 4, 3, 3, 5, 5, RED);
    assert_eq!(lit(&c, 4), vec![(1, 2), (3, 3)]);
    fill_rect(&mut c, 4, 0, 0, 4, 0, RED);
    assert_eq!(lit(&c, 4).len(), 2);
}

#[test]
fn rounded_corners_are_cut() {
    let mut c = canvas(8);
    fill_rounded_rect(&mut c, 8, 1, 1, 6, 6, 2, RED);
    let on = lit(&c, 8);
    assert!(!on.contains(&(1, 1)) && !on.contains(&(6, 6)));
    assert!(on.contains(&(3, 1)) && on.contains(&(1, 3)) && on.contains(&(2, 2)));
    assert!(on.contains(&(4, 4)));
}

#[test]
fn lines_join_their_ends() {
    // Corners of the 3 by 3 squares, as plain integer line drawing visits them.
    for (from, to) in [((2, 3), (12, 6)), ((12, 6), (2, 3)), ((5, 1), (3, 12)), ((4, 4), (4, 4))] {
        let mut c = canvas(20);
        draw_line(&mut c, 20, from, to, RED);
        let mut expected = canvas(20);
        let (mut x, mut y) = (from.0 as i32, from.1 as i32);
        let (x1, y1) = (to.0 as i32, to.1 as i32);
        let (dx, dy) = ((x1 - x).abs(), -(y1 - y).abs());
        let (sx, sy) = (if x < x1 { 1 } else { -1 }, if y < y1 { 1 } else { -1 });
        let mut err = dx + dy;
        loop {
            for py in y..y + 3 {
                for px in x..x + 3 {
                    let i = ((py * 20 + px) * 4) as usize;
                    expected[i..i + 4].copy_from_slice(&RED);
                }
            }
            if x == x1 && y == y1 {
                break;
            }
            let e2 = 2 * err;
            if e2 >= dy {
                err += dy;
                x += sx;
            }
            if e2 <= dx {
                err += dx;
                y += sy;
            }
        }
        assert_eq!(c, expected);
    }
}

#[test]
fn the_icon_is_drawn() {
    let rgba = gator_icon();
    assert_eq!(rgba.len(), 64 * 64 * 4);
    let px = |x: u32, y: u32| {
        let i = ((y * ICON_SIZE + x) * 4) as usize;
        [rgba[i], rgba[i + 1], rgba[i + 2], rgba[i + 3]]
    };
    assert_eq!(px(0, 0), [0, 0, 0, 0]);
    assert_eq!(px(8, 30), [8, 17, 11, 255]);
    assert_eq!(px(46, 30), [143, 191, 90, 255]);
    assert_eq!(px(30, 46), [211, 180, 92, 255]);
    assert_eq!(px(40, 27), [8, 17, 11, 255]);
    assert_eq!(px(50, 20), [20, 40, 26, 255]);
}

#[test]
fn the_window_system_takes_the_icon() {
    let icon = gator_window_icon().unwrap();
    let shown = format!("{icon:?}");
    assert!(shown.contains("width: 64") && shown.contains("height: 64"));
    let pixels = format!("{:?}", gator_icon());
    assert!(shown.contains(&pixels));
}

#[test]
fn a_made_icon_is_handed_on() {
    let made = winit::window::Icon::from_rgba(vec![1, 2, 3, 4, 5, 6, 7, 8], 2, 1);
    let shown = format!("{:?}", window_icon(made).unwrap());
    assert!(shown.contains("[1, 2, 3, 4, 5, 6, 7, 8]"));
    assert!(shown.contains("width: 2") && shown.contains("height: 1"));
}

#[test]
fn an_icon_that_was_not_made_is_refused() {
    let odd = winit::window::Icon::from_rgba(vec![0; 3], 1, 1);
    assert!(matches!(
        window_icon(odd),
        Err(IconError::Refused(BadIcon::ByteCountNotDivisibleBy4 { byte_count: 3 }))
    ));
    let short = winit::window::Icon::from_rgba(vec![0; 4], 2, 1);
    assert!(matches!(
        window_icon(short),
        Err(IconError::Refused(BadIcon::DimensionsVsPixelCount {
            width: 2,
            height: 1,
            width_x_height: 2,
            pixel_count: 1,
        }))
    ));
}
