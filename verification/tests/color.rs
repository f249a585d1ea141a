use painter::gfx::color::Color;
use painter::gfx::point::Point;

const LEVELS: [u8; 6] = [0, 95, 135, 175, 215, 255];

fn entry(index: u8) -> (i32, i32, i32) {
    if index < 232 {
        let cell = (index - 16) as usize;
        (LEVELS[cell / 36] as i32, LEVELS[(cell / 6) % 6] as i32, LEVELS[cell % 6] as i32)
    } else {
        let gray = 8 + 10 * (index as i32 - 232);
        (gray, gray, gray)
    }
}

fn distance(color: Color, index: u8) -> i32 {
    let (r, g, b) = entry(index);
    (color.r as i32 - r).pow(2) + (color.g as i32 - g).pow(2) + (color.b as i32 - b).pow(2)
}

fn nearest(color: Color) -> u8 {
    let mut best = 16u8;
    for index in 17..=255u8 {
        if distance(color, index) < distance(color, best) {
            best = index;
        }
    }
    best
}

#[test]
fn new_keeps_the_channels() {
    let color = Color::new(1, 2, 3);
    assert_eq!((color.r, color.g, color.b), (1, 2, 3));
    assert_eq!(color, Color { r: 1, g: 2, b: 3 });
}

#[test]
fn point_new_keeps_column_and_row() {
    let point = Point::new(7, 9);
    assert_eq!((point.x, point.y), (7, 9));
    assert_eq!(point, Point { x: 7, y: 9 });
    assert_ne!(point, Point::new(9, 7));
}

#[test]
fn average_is_exact_for_even_sums() {
    let blend = Color::new(100, 100, 100).avg_with(Color::new(200, 200, 200));
    assert_eq!(blend, Color::new(150, 150, 150));
}

#[test]
fn average_rounds_down() {
    let blend = Color::new(1, 0, 255).avg_with(Color::new(2, 1, 254));
    assert_eq!(blend, Color::new(1, 0, 254));
}

#[test]
fn average_does_not_overflow() {
    let blend = Color::new(255, 255, 255).avg_with(Color::new(255, 254, 0));
    assert_eq!(blend, Color::new(255, 254, 127));
}

#[test]
fn average_is_symmetric_and_idempotent() {
    let a = Color::new(12, 200, 33);
    let b = Color::new(250, 3, 34);
    assert_eq!(a.avg_with(b), b.avg_with(a));
    assert_eq!(a.avg_with(a), a);
}

#[test]
fn primaries_fall_on_the_corners_of_the_cube() {
    assert_eq!(Color::new(0, 0, 0).to_xterm(), 16);
    assert_eq!(Color::new(0, 0, 255).to_xterm(), 21);
    assert_eq!(Color::new(0, 255, 0).to_xterm(), 46);
    assert_eq!(Color::new(255, 0, 0).to_xterm(), 196);
    assert_eq!(Color::new(255, 255, 255).to_xterm(), 231);
}

#[test]
fn cube_entries_are_their_own_nearest() {
    assert_eq!(Color::new(95, 95, 95).to_xterm(), 59);
    assert_eq!(Color::new(135, 175, 215).to_xterm(), 16 + 36 * 2 + 6 * 3 + 4);
    assert_eq!(Color::new(215, 0, 95).to_xterm(), 16 + 36 * 4 + 1);
}

#[test]
fn grays_fall_on_the_ramp() {
    assert_eq!(Color::new(8, 8, 8).to_xterm(), 232);
    assert_eq!(Color::new(128, 128, 128).to_xterm(), 244);
    assert_eq!(Color::new(238, 238, 238).to_xterm(), 255);
    assert_eq!(Color::new(127, 129, 128).to_xterm(), 244);
}

#[test]
fn equally_near_entries_give_the_smaller_index() {
    // Halfway between the ramp's 8 and 18.
    assert_eq!(Color::new(13, 13, 13).to_xterm(), 232);
    // Halfway between the cube's 95 and 135 in blue.
    assert_eq!(Color::new(0, 0, 115).to_xterm(), 17);
    // As far from the cube's black as from the ramp's darkest gray.
    assert_eq!(distance(Color::new(4, 4, 4), 16), distance(Color::new(4, 4, 4), 232));
    assert_eq!(Color::new(4, 4, 4).to_xterm(), 16);
}

#[test]
fn near_colors_share_an_entry() {
    assert_eq!(Color::new(255, 0, 0).to_xterm(), Color::new(250, 3, 1).to_xterm());
    assert_ne!(Color::new(255, 0, 0).to_xterm(), Color::new(200, 0, 0).to_xterm());
}

#[test]
fn quantization_never_leaves_the_fixed_palette() {
    for r in (0..=255u8).step_by(15) {
        for g in (0..=255u8).step_by(15) {
            for b in (0..=255u8).step_by(15) {
                assert!(Color::new(r, g, b).to_xterm() >= 16);
            }
        }
    }
}

#[test]
fn quantization_is_the_nearest_entry() {
    for r in (0..=255u8).step_by(5) {
        for g in (0..=255u8).step_by(17) {
            for b in (0..=255u8).step_by(3) {
                let color = Color::new(r, g, b);
                assert_eq!(color.to_xterm(), nearest(color), "{:?}", color);
            }
        }
    }
}

#[test]
fn quantization_is_deterministic() {
    let color = Color::new(90, 180, 45);
    assert_eq!(color.to_xterm(), color.to_xterm());
}

#[test]
fn quantization_is_the_nearest_entry_along_each_axis() {
    for value in 0..=255u8 {
        for color in [
            Color::new(value, 0, 0),
            Color::new(0, value, 0),
            Color::new(0, 0, value),
            Color::new(value, value, value),
            Color::new(value, 255, 128),
            Color::new(255 - value, value, 115),
        ] {
            assert_eq!(color.to_xterm(), nearest(color), "{:?}", color);
        }
    }
}
