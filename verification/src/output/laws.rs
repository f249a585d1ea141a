//! What holds of the painter over all states and cells.

use crate::output::cell::Cell;
use crate::output::escape::{cursor_to, set_rgb, Layer, ENTER_BITMAP, LEAVE_BITMAP};
use crate::output::painter::{PaintMode, PainterView};
use vstd::prelude::*;

verus! {

/// A cell that is painted a second time, right after the first, sends no mode
/// marker and no color, and leaves the state as it was. All that is sent is the
/// glyph, and before it a cursor movement if the glyph has a width: the first
/// painting left the cursor behind the glyph. A placeholder sends nothing.
pub proof fn lemma_repaint(state: PainterView, cell: Cell)
    ensures
        ({
            let once = state.paint(cell);
            &&& once.paint(cell) == (PainterView {
                buffer: once.buffer + once.emitted(cell),
                ..once
            })
            &&& once.emitted(cell) == if cell.is_placeholder() {
                Seq::<u8>::empty()
            } else if cell.width() == 0 {
                cell.glyph_bytes()
            } else {
                cursor_to(cell.cursor.x as nat, cell.cursor.y as nat) + cell.glyph_bytes()
            }
        }),
{
    let once = state.paint(cell);
    if !cell.is_placeholder() {
        assert(once.background_escape(cell) == Seq::<u8>::empty());
        assert(once.foreground_escape(cell) == Seq::<u8>::empty());
        assert(once.toggle(cell) == Seq::<u8>::empty());
    }
}

/// The mode marker that painting `cell` sends: the one that enters bitmap
/// mode, the one that leaves it, or nothing.
pub open spec fn marker(state: PainterView, cell: Cell) -> Seq<u8> {
    if cell.is_placeholder() {
        Seq::empty()
    } else {
        state.toggle(cell)
    }
}

/// How many of `cells`, painted one after the other from `state`, send the
/// mode marker `bytes`.
pub open spec fn count_markers(state: PainterView, cells: Seq<Cell>, bytes: Seq<u8>) -> nat
    decreases cells.len(),
{
    if cells.len() == 0 {
        0
    } else {
        let rest = cells.drop_last();
        let sent: nat = if marker(state.paint_all(rest), cells.last()) == bytes {
            1
        } else {
            0
        };
        count_markers(state, rest, bytes) + sent
    }
}

/// Painting two runs of cells in a row is painting the first and then the
/// second, for the state and for the count of markers.
pub proof fn lemma_paint_runs(state: PainterView, first: Seq<Cell>, second: Seq<Cell>, bytes: Seq<u8>)
    ensures
        state.paint_all(first + second) == state.paint_all(first).paint_all(second),
        count_markers(state, first + second, bytes) == count_markers(state, first, bytes)
            + count_markers(state.paint_all(first), second, bytes),
    decreases second.len(),
{
    if second.len() == 0 {
        assert(first + second == first);
    } else {
        assert((first + second).drop_last() == first + second.drop_last());
        assert((first + second).last() == second.last());
        lemma_paint_runs(state, first, second.drop_last(), bytes);
    }
}

spec fn other(mode: PaintMode) -> PaintMode {
    match mode {
        PaintMode::Bitmap => PaintMode::Text,
        PaintMode::Text => PaintMode::Bitmap,
    }
}

/// A run of cells of one mode sends that mode's marker once if it has to
/// change the mode, which it does with its first cell that is no placeholder,
/// and never the other marker.
proof fn lemma_run_of_one_mode(state: PainterView, cells: Seq<Cell>, mode: PaintMode)
    requires
        forall|i: int| 0 <= i < cells.len() ==> (#[trigger] cells[i]).mode() == mode,
    ensures
        ({
            let painted = exists|i: int| 0 <= i < cells.len() && !(#[trigger] cells[i]).is_placeholder();
            let entered: nat = if painted && state.mode != mode {
                1
            } else {
                0
            };
            &&& state.paint_all(cells).mode == if painted {
                mode
            } else {
                state.mode
            }
            &&& count_markers(state, cells, mode.marker()) == entered
            &&& count_markers(state, cells, other(mode).marker()) == 0
        }),
    decreases cells.len(),
{
    if cells.len() > 0 {
        let rest = cells.drop_last();
        let last = cells.last();
        assert forall|i: int| 0 <= i < rest.len() implies (#[trigger] rest[i]).mode() == mode by {
            assert(rest[i] == cells[i]);
        }
        lemma_run_of_one_mode(state, rest, mode);
        let painted_rest = exists|i: int| 0 <= i < rest.len() && !(#[trigger] rest[i]).is_placeholder();
        let painted = exists|i: int| 0 <= i < cells.len() && !(#[trigger] cells[i]).is_placeholder();
        assert(last == cells[cells.len() - 1]);
        if painted_rest {
            let i = choose|i: int| 0 <= i < rest.len() && !(#[trigger] rest[i]).is_placeholder();
            assert(rest[i] == cells[i]);
            assert(painted);
        } else if !last.is_placeholder() {
            assert(painted);
        } else {
            if painted {
                let i = choose|i: int| 0 <= i < cells.len() && !(#[trigger] cells[i]).is_placeholder();
                if i < rest.len() {
                    assert(rest[i] == cells[i]);
                }
                assert(false);
            }
        }
        assert(ENTER_BITMAP@.len() == 8);
        assert(LEAVE_BITMAP@.len() == 10);
    }
}

/// Mode markers are sent at the edges of runs, not with every cell. A run of
/// bitmap cells followed by a run of text cells sends the marker that enters
/// bitmap mode once if there is a bitmap cell and the painter was in text
/// mode, and not at all otherwise. It sends the marker that leaves bitmap mode
/// once if a text cell is painted (one that is no placeholder) after a bitmap
/// cell or from bitmap mode, and not at all otherwise.
pub proof fn lemma_markers_at_edges(state: PainterView, bitmaps: Seq<Cell>, texts: Seq<Cell>)
    requires
        forall|i: int| 0 <= i < bitmaps.len() ==> (#[trigger] bitmaps[i]).grapheme is None,
        forall|i: int| 0 <= i < texts.len() ==> (#[trigger] texts[i]).grapheme is Some,
    ensures
        ({
            let text_painted = exists|i: int|
                0 <= i < texts.len() && !(#[trigger] texts[i]).is_placeholder();
            let enters: nat = if bitmaps.len() > 0 && state.mode == PaintMode::Text {
                1
            } else {
                0
            };
            let leaves: nat = if text_painted && (bitmaps.len() > 0 || state.mode
                == PaintMode::Bitmap) {
                1
            } else {
                0
            };
            &&& count_markers(state, bitmaps + texts, ENTER_BITMAP@) == enters
            &&& count_markers(state, bitmaps + texts, LEAVE_BITMAP@) == leaves
            &&& enters == 1 ==> marker(state, bitmaps[0]) == ENTER_BITMAP@
            &&& leaves == 1 && !texts[0].is_placeholder() ==> marker(
                state.paint_all(bitmaps),
                texts[0],
            ) == LEAVE_BITMAP@
        }),
{
    lemma_paint_runs(state, bitmaps, texts, ENTER_BITMAP@);
    lemma_paint_runs(state, bitmaps, texts, LEAVE_BITMAP@);
    lemma_run_of_one_mode(state, bitmaps, PaintMode::Bitmap);
    lemma_run_of_one_mode(state.paint_all(bitmaps), texts, PaintMode::Text);
    if bitmaps.len() > 0 {
        assert(!bitmaps[0].is_placeholder());
    }
}

/// Without true color, two colors painted in a row that fall on the same
/// palette entry send that entry once at most, in either layer, though the
/// colors differ: if the first cell sent a color, the second sends none.
pub proof fn lemma_same_entry_sent_once(state: PainterView, first: Cell, second: Cell)
    requires
        !state.true_color,
        !first.is_placeholder(),
        !second.is_placeholder(),
    ensures
        first.background().quantized() == second.background().quantized() ==> {
            ||| state.background_escape(first) == Seq::<u8>::empty()
            ||| state.paint(first).background_escape(second) == Seq::<u8>::empty()
        },
        first.foreground().quantized() == second.foreground().quantized() ==> {
            ||| state.foreground_escape(first) == Seq::<u8>::empty()
            ||| state.paint(first).foreground_escape(second) == Seq::<u8>::empty()
        },
{
}

/// With true color, every change of color is sent with its exact value, in
/// either layer, whether or not the palette entry changes with it, and what is
/// known of the palette stays as it was.
pub proof fn lemma_true_color_sends_changes(state: PainterView, first: Cell, second: Cell)
    requires
        state.true_color,
        !first.is_placeholder(),
        !second.is_placeholder(),
    ensures
        first.background() != second.background() ==> state.paint(first).background_escape(second)
            == set_rgb(Layer::Background, second.background()),
        first.foreground() != second.foreground() ==> state.paint(first).foreground_escape(second)
            == set_rgb(Layer::Foreground, second.foreground()),
        state.paint(first).paint(second).background.code == state.background.code,
        state.paint(first).paint(second).foreground.code == state.foreground.code,
{
}

/// Mode and colors outlast the end of a frame: a cell that is painted again
/// in the next frame sends its glyph and the cursor movement before it, and
/// nothing else.
pub proof fn lemma_repaint_in_next_frame(state: PainterView, cell: Cell)
    requires
        !cell.is_placeholder(),
    ensures
        state.paint(cell).end().begin().emitted(cell) == cursor_to(
            cell.cursor.x as nat,
            cell.cursor.y as nat,
        ) + cell.glyph_bytes(),
{
    let next = state.paint(cell).end().begin();
    assert(next.background_escape(cell) == Seq::<u8>::empty());
    assert(next.foreground_escape(cell) == Seq::<u8>::empty());
    assert(next.toggle(cell) == Seq::<u8>::empty());
}

/// A placeholder is inert: it sends nothing and changes nothing.
pub proof fn lemma_placeholder_inert(state: PainterView, cell: Cell)
    requires
        cell.is_placeholder(),
    ensures
        state.emitted(cell) == Seq::<u8>::empty(),
        state.paint(cell) == state,
{
}

/// Placeholders can be left out of a run of cells: what is painted is the
/// same.
pub proof fn lemma_placeholders_drop_out(state: PainterView, cells: Seq<Cell>)
    ensures
        state.paint_all(cells) == state.paint_all(
            cells.filter(|cell: Cell| !cell.is_placeholder()),
        ),
    decreases cells.len(),
{
    reveal(Seq::filter);
    if cells.len() > 0 {
        lemma_placeholders_drop_out(state, cells.drop_last());
        let kept = cells.drop_last().filter(|cell: Cell| !cell.is_placeholder());
        if !cells.last().is_placeholder() {
            assert(kept.push(cells.last()).drop_last() == kept);
        }
    }
}

/// After a cell is painted the cursor is expected right behind its glyph: the
/// next cell moves the cursor unless it stands exactly there.
pub proof fn lemma_cursor_follows_glyph(state: PainterView, first: Cell, second: Cell)
    requires
        !first.is_placeholder(),
    ensures
        state.paint(first).reposition(second) == if second.cursor.y == first.cursor.y
            && second.cursor.x == first.cursor.x + first.width() {
            Seq::<u8>::empty()
        } else {
            cursor_to(second.cursor.x as nat, second.cursor.y as nat)
        },
        cursor_to(second.cursor.x as nat, second.cursor.y as nat).len() > 0,
{
}

} // verus!
