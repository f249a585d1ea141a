use painter::gfx::color::Color;
use painter::gfx::point::Point;
use painter::output::cell::{Cell, Grapheme};
use painter::output::painter::PaintMode;

const TOP: Color = Color { r: 100, g: 100, b: 100 };
const BOTTOM: Color = Color { r: 200, g: 200, b: 200 };
const INK: Color = Color { r: 1, g: 2, b: 3 };

fn bitmap() -> Cell {
    Cell { cursor: Point::new(3, 4), grapheme: None, top: TOP, bottom: BOTTOM }
}

fn text(char: &str, index: usize, width: u32) -> Cell {
    Cell {
        cursor: Point::new(3, 4),
        grapheme: Some(Grapheme { char: char.to_string(), index, width, color: INK }),
        top: TOP,
        bottom: BOTTOM,
    }
}

#[test]
fn bitmap_cell_shows_two_pixels() {
    let cell = bitmap();
    assert!(!cell.is_placeholder());
    assert_eq!(cell.mode(), PaintMode::Bitmap);
    assert_eq!(cell.width(), 1);
    assert_eq!(cell.background(), TOP);
    assert_eq!(cell.foreground(), BOTTOM);
    assert_eq!(cell.glyph(), "▄".as_bytes());
}

#[test]
fn text_cell_shows_its_glyph_over_the_blend() {
    let cell = text("A", 0, 1);
    assert!(!cell.is_placeholder());
    assert_eq!(cell.mode(), PaintMode::Text);
    assert_eq!(cell.width(), 1);
    assert_eq!(cell.background(), Color::new(150, 150, 150));
    assert_ne!(cell.background(), TOP);
    assert_ne!(cell.background(), BOTTOM);
    assert_eq!(cell.foreground(), INK);
    assert_eq!(cell.glyph(), b"A");
}

#[test]
fn wide_glyph_keeps_its_width_and_all_its_code_points() {
    let cell = text("👩‍🚀", 0, 2);
    assert_eq!(cell.width(), 2);
    assert_eq!(cell.glyph(), "👩‍🚀".as_bytes());
    assert_eq!(cell.glyph().len(), 11);
}

#[test]
fn later_columns_of_a_glyph_are_placeholders() {
    assert!(text("漢", 1, 2).is_placeholder());
    assert!(text("漢", usize::MAX, 2).is_placeholder());
    assert!(!text("漢", 0, 2).is_placeholder());
}

#[test]
fn malformed_glyphs_are_taken_as_they_are() {
    let cell = text("", 0, 0);
    assert!(!cell.is_placeholder());
    assert_eq!(cell.width(), 0);
    assert_eq!(cell.glyph(), b"");
    assert_eq!(text("x", 0, u32::MAX).width(), u32::MAX);
}
