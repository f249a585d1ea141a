//! The 256-color terminal palette and the quantization of colors to it.
//!
//! Only the fixed part of the palette is used: the 6x6x6 color cube and the
//! grayscale ramp. The first sixteen entries differ from terminal to terminal.

use crate::gfx::color::Color;
use vstd::prelude::*;

verus! {

/// The first palette index of the color cube.
pub const CUBE_START: u8 = 16;

/// The first palette index of the grayscale ramp.
pub const GRAY_START: u8 = 232;

/// The intensity of step `step` (0 to 5) on one axis of the 6x6x6 color cube:
/// 0, 95, 135, 175, 215, 255.
pub open spec fn cube_level(step: int) -> int {
    if step == 0 {
        0
    } else {
        55 + 40 * step
    }
}

/// The intensity of step `step` (0 to 23) of the grayscale ramp: 8, 18, and so
/// on to 238.
pub open spec fn gray_level(step: int) -> int {
    8 + 10 * step
}

/// The color of palette entry `index`, for the fixed part of the palette:
/// the color cube (16 to 231, red-major) and the grayscale ramp (232 to 255).
pub open spec fn palette_entry(index: int) -> Color
    recommends
        CUBE_START <= index <= 255,
{
    if index < GRAY_START {
        let cell = index - CUBE_START;
        Color {
            r: cube_level(cell / 36) as u8,
            g: cube_level((cell / 6) % 6) as u8,
            b: cube_level(cell % 6) as u8,
        }
    } else {
        let level = gray_level(index - GRAY_START) as u8;
        Color { r: level, g: level, b: level }
    }
}

/// The square of the difference of two intensities.
pub open spec fn gap(a: int, b: int) -> int {
    (a - b) * (a - b)
}

/// The squared Euclidean distance between two colors.
pub open spec fn distance(a: Color, b: Color) -> int {
    gap(a.r as int, b.r as int) + gap(a.g as int, b.g as int) + gap(a.b as int, b.b as int)
}

/// `index` is the nearest to `color` of the palette entries from `first` to
/// `last`: none of them is closer, and those with a smaller index are strictly
/// farther away.
pub open spec fn is_nearest_among(color: Color, index: int, first: int, last: int) -> bool {
    &&& first <= index <= last
    &&& forall|other: int|
        first <= other <= last ==> distance(color, palette_entry(index)) <= distance(
            color,
            #[trigger] palette_entry(other),
        )
    &&& forall|other: int|
        first <= other < index ==> distance(color, palette_entry(index)) < distance(
            color,
            #[trigger] palette_entry(other),
        )
}

/// `index` is the palette entry nearest to `color`: no entry of the cube or of
/// the grayscale ramp is closer, and every entry with a smaller index is
/// strictly farther away.
pub open spec fn is_nearest(color: Color, index: int) -> bool {
    is_nearest_among(color, index, CUBE_START as int, 255)
}

impl Color {
    /// The index of the palette entry nearest to this color.
    pub open spec fn quantized(self) -> u8 {
        choose|index: u8| is_nearest(self, index as int)
    }

    /// Quantizes this color to the 256-color terminal palette: the index of the
    /// nearest entry of the color cube or the grayscale ramp, the smallest such
    /// index where several entries are equally near.
    pub fn to_xterm(&self) -> (index: u8)
        ensures
            is_nearest(*self, index as int),
            index == self.quantized(),
    {
        let cube = nearest_in_cube(*self);
        let gray = nearest_in_ramp(*self);
        let index = if distance_between(*self, entry(gray)) < distance_between(*self, entry(cube)) {
            gray
        } else {
            cube
        };
        proof {
            assert(is_nearest(*self, index as int));
            lemma_nearest_unique(*self, index as int, self.quantized() as int);
        }
        index
    }
}

/// The nearest palette entry is unique.
pub proof fn lemma_nearest_unique(color: Color, i: int, j: int)
    requires
        is_nearest(color, i),
        is_nearest(color, j),
    ensures
        i == j,
{
    if i < j {
        assert(distance(color, palette_entry(j)) < distance(color, palette_entry(i)));
    } else if j < i {
        assert(distance(color, palette_entry(i)) < distance(color, palette_entry(j)));
    }
}

/// Every color has a nearest palette entry, and [`Color::quantized`] is its
/// index.
pub proof fn lemma_quantized_is_nearest(color: Color)
    ensures
        is_nearest(color, color.quantized() as int),
{
    lemma_nearest_up_to(color, 255);
    let index = nearest_up_to(color, 255) as u8;
    assert(is_nearest(color, index as int));
}

/// The nearest to `color` of the palette entries up to `last`, found by going
/// through them in order.
spec fn nearest_up_to(color: Color, last: int) -> int
    decreases last,
{
    if last <= CUBE_START {
        CUBE_START as int
    } else {
        let before = nearest_up_to(color, last - 1);
        if distance(color, palette_entry(last)) < distance(color, palette_entry(before)) {
            last
        } else {
            before
        }
    }
}

proof fn lemma_nearest_up_to(color: Color, last: int)
    requires
        CUBE_START <= last <= 255,
    ensures
        is_nearest_among(color, nearest_up_to(color, last), CUBE_START as int, last),
    decreases last,
{
    if last > CUBE_START {
        lemma_nearest_up_to(color, last - 1);
    }
}

fn level(step: u8) -> (intensity: u8)
    requires
        step < 6,
    ensures
        intensity == cube_level(step as int),
{
    if step == 0 {
        0
    } else {
        55 + 40 * step
    }
}

fn entry(index: u8) -> (color: Color)
    requires
        index >= CUBE_START,
    ensures
        color == palette_entry(index as int),
{
    if index < GRAY_START {
        let cell: u8 = index - CUBE_START;
        Color { r: level(cell / 36), g: level((cell / 6) % 6), b: level(cell % 6) }
    } else {
        let gray: u8 = 8 + 10 * (index - GRAY_START);
        Color { r: gray, g: gray, b: gray }
    }
}

fn square_diff(a: u8, b: u8) -> (d: u32)
    ensures
        d == gap(a as int, b as int),
        d <= 255 * 255,
{
    let diff: u32 = if a >= b {
        (a - b) as u32
    } else {
        (b - a) as u32
    };
    assert(diff * diff == (a - b) * (a - b) && diff * diff <= 255 * 255) by (nonlinear_arith)
        requires
            diff == a - b || diff == b - a,
            diff <= 255,
    ;
    diff * diff
}

fn distance_between(a: Color, b: Color) -> (d: u32)
    ensures
        d == distance(a, b),
{
    square_diff(a.r, b.r) + square_diff(a.g, b.g) + square_diff(a.b, b.b)
}

/// Of two intensities, the one whose difference from `value` is smaller in
/// size has the smaller gap.
proof fn lemma_gap_order(value: int, near: int, far: int)
    ensures
        (far - near) * (near + far - 2 * value) >= 0 ==> gap(value, near) <= gap(value, far),
        (far - near) * (near + far - 2 * value) > 0 ==> gap(value, near) < gap(value, far),
{
    assert(gap(value, far) - gap(value, near) == (far - near) * (near + far - 2 * value))
        by (nonlinear_arith)
        requires
            gap(value, far) == (value - far) * (value - far),
            gap(value, near) == (value - near) * (value - near),
    ;
}

/// The sign of a product of two factors of the same sign.
proof fn lemma_same_sign(a: int, b: int)
    ensures
        (a >= 0 && b >= 0) || (a <= 0 && b <= 0) ==> a * b >= 0,
        (a > 0 && b > 0) || (a < 0 && b < 0) ==> a * b > 0,
{
    assert((a >= 0 && b >= 0) || (a <= 0 && b <= 0) ==> a * b >= 0) by (nonlinear_arith);
    assert((a > 0 && b > 0) || (a < 0 && b < 0) ==> a * b > 0) by (nonlinear_arith);
}

/// `step` is the step of the cube whose intensity is nearest to `value`, the
/// lower of two that are equally near.
spec fn is_nearest_step(value: int, step: int) -> bool {
    &&& 0 <= step < 6
    &&& forall|other: int|
        0 <= other < 6 ==> gap(value, cube_level(step)) <= gap(value, #[trigger] cube_level(other))
    &&& forall|other: int|
        0 <= other < step ==> gap(value, cube_level(step)) < gap(value, #[trigger] cube_level(other))
}

fn nearest_step(value: u8) -> (step: u8)
    ensures
        is_nearest_step(value as int, step as int),
{
    let step: u8 = if value < 48 {
        0
    } else if value <= 115 {
        1
    } else {
        (value - 36) / 40
    };
    proof {
        let near = cube_level(step as int);
        assert forall|other: int| 0 <= other < 6 implies gap(value as int, near) <= gap(
            value as int,
            #[trigger] cube_level(other),
        ) by {
            let far = cube_level(other);
            lemma_same_sign(far - near, near + far - 2 * value);
            lemma_gap_order(value as int, near, far);
        }
        assert forall|other: int| 0 <= other < step implies gap(value as int, near) < gap(
            value as int,
            #[trigger] cube_level(other),
        ) by {
            let far = cube_level(other);
            lemma_same_sign(far - near, near + far - 2 * value);
            lemma_gap_order(value as int, near, far);
        }
    }
    step
}

/// A cube entry is made of one step in each channel, red-major.
proof fn lemma_cube_entry(red: int, green: int, blue: int)
    requires
        0 <= red < 6,
        0 <= green < 6,
        0 <= blue < 6,
    ensures
        palette_entry(CUBE_START + 36 * red + 6 * green + blue) == (Color {
            r: cube_level(red) as u8,
            g: cube_level(green) as u8,
            b: cube_level(blue) as u8,
        }),
{
    let cell = 36 * red + 6 * green + blue;
    assert(cell / 36 == red);
    assert(cell / 6 == 6 * red + green);
    assert(cell % 6 == blue);
}

/// The cube entry made of the nearest step in each channel is at least as
/// near as any other cube entry, and nearer than those with a smaller index.
proof fn lemma_cube_by_channel(color: Color, r: int, g: int, b: int, other: int)
    requires
        is_nearest_step(color.r as int, r),
        is_nearest_step(color.g as int, g),
        is_nearest_step(color.b as int, b),
        CUBE_START <= other < GRAY_START,
    ensures
        distance(color, palette_entry(CUBE_START + 36 * r + 6 * g + b)) <= distance(
            color,
            palette_entry(other),
        ),
        other < CUBE_START + 36 * r + 6 * g + b ==> distance(
            color,
            palette_entry(CUBE_START + 36 * r + 6 * g + b),
        ) < distance(color, palette_entry(other)),
{
    let there = other - CUBE_START;
    let red = there / 36;
    let green = (there - 36 * red) / 6;
    let blue = there - 36 * red - 6 * green;
    lemma_cube_entry(r, g, b);
    lemma_cube_entry(red, green, blue);
    let near_r = gap(color.r as int, cube_level(r));
    let near_g = gap(color.g as int, cube_level(g));
    let near_b = gap(color.b as int, cube_level(b));
    let far_r = gap(color.r as int, cube_level(red));
    let far_g = gap(color.g as int, cube_level(green));
    let far_b = gap(color.b as int, cube_level(blue));
    assert(near_r <= far_r && near_g <= far_g && near_b <= far_b);
    if other < CUBE_START + 36 * r + 6 * g + b {
        assert(red < r || green < g || blue < b);
        assert(near_r < far_r || near_g < far_g || near_b < far_b);
    }
}

/// The entry of the color cube nearest to `color`.
fn nearest_in_cube(color: Color) -> (index: u8)
    ensures
        is_nearest_among(color, index as int, CUBE_START as int, GRAY_START - 1),
{
    let r = nearest_step(color.r);
    let g = nearest_step(color.g);
    let b = nearest_step(color.b);
    let index: u8 = CUBE_START + 36 * r + 6 * g + b;
    proof {
        assert forall|other: int| CUBE_START <= other < GRAY_START implies distance(
            color,
            palette_entry(index as int),
        ) <= distance(color, #[trigger] palette_entry(other)) && (other < index ==> distance(
            color,
            palette_entry(index as int),
        ) < distance(color, palette_entry(other))) by {
            lemma_cube_by_channel(color, r as int, g as int, b as int, other);
        }
    }
    index
}

/// From one step of the grayscale ramp to the next, the distance to a color
/// changes by an amount that grows with the step.
proof fn lemma_ramp_slope(color: Color, step: int)
    requires
        0 <= step < 23,
    ensures
        distance(color, palette_entry(GRAY_START + step + 1)) - distance(
            color,
            palette_entry(GRAY_START + step),
        ) == 20 * (30 * step + 39 - (color.r + color.g + color.b)),
{
    let level = gray_level(step);
    assert forall|value: int| gap(value, level + 10) - gap(value, level) == 20 * (level + 5 - value) by {
        assert((value - (level + 10)) * (value - (level + 10)) - (value - level) * (value - level)
            == 20 * (level + 5 - value)) by (nonlinear_arith);
    }
    assert(gap(color.r as int, level + 10) - gap(color.r as int, level) == 20 * (level + 5 - color.r));
    assert(gap(color.g as int, level + 10) - gap(color.g as int, level) == 20 * (level + 5 - color.g));
    assert(gap(color.b as int, level + 10) - gap(color.b as int, level) == 20 * (level + 5 - color.b));
}

/// Past the step where the distance to a color stops falling, no step of the
/// grayscale ramp is nearer.
proof fn lemma_ramp_rises(color: Color, low: int, step: int)
    requires
        0 <= low <= step <= 23,
        30 * low + 39 >= color.r + color.g + color.b,
    ensures
        distance(color, palette_entry(GRAY_START + low)) <= distance(
            color,
            palette_entry(GRAY_START + step),
        ),
    decreases step - low,
{
    if low < step {
        lemma_ramp_rises(color, low, step - 1);
        lemma_ramp_slope(color, step - 1);
    }
}

/// Before the step where the distance to a color stops falling, every step of
/// the grayscale ramp is farther away.
proof fn lemma_ramp_falls(color: Color, step: int, low: int)
    requires
        0 <= step < low <= 23,
        30 * (low - 1) + 39 < color.r + color.g + color.b,
    ensures
        distance(color, palette_entry(GRAY_START + low)) < distance(
            color,
            palette_entry(GRAY_START + step),
        ),
    decreases low - step,
{
    lemma_ramp_slope(color, step);
    if step + 1 < low {
        lemma_ramp_falls(color, step + 1, low);
    }
}

/// The entry of the grayscale ramp nearest to `color`.
fn nearest_in_ramp(color: Color) -> (index: u8)
    ensures
        is_nearest_among(color, index as int, GRAY_START as int, 255),
{
    let sum: u16 = color.r as u16 + color.g as u16 + color.b as u16;
    // The distance falls from one step to the next as long as
    // 30 * step + 39 is below the sum of the channels.
    let step: u16 = if sum <= 39 {
        0
    } else if sum > 699 {
        23
    } else {
        (sum - 10) / 30
    };
    let index: u8 = GRAY_START + step as u8;
    proof {
        let best = distance(color, palette_entry(index as int));
        assert forall|other: int| GRAY_START <= other <= 255 implies best <= distance(
            color,
            #[trigger] palette_entry(other),
        ) && (other < index ==> best < distance(color, palette_entry(other))) by {
            let there = other - GRAY_START;
            if there < step {
                lemma_ramp_falls(color, there, step as int);
            } else if there > step {
                lemma_ramp_rises(color, step as int, there);
            }
        }
    }
    index
}

} // verus!
