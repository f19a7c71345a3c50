//! The display as text for a character terminal.

use vstd::prelude::*;
use vstd::string::*;
use crate::constants::{DISPLAY_HEIGHT, DISPLAY_WIDTH};

verus! {

/// Columns of the terminal that one pixel takes.
pub const CELL_WIDTH: usize = 2;

/// One pixel as text: two full blocks for a pixel that is on, two spaces for
/// one that is off, so that pixels come out about square.
pub open spec fn cell_text(on: bool) -> Seq<char> {
    if on {
        seq!['\u{2588}', '\u{2588}']
    } else {
        seq![' ', ' ']
    }
}

/// A row of pixels as text, left to right.
pub open spec fn row_text(row: Seq<bool>) -> Seq<char>
    decreases row.len(),
{
    if row.len() == 0 {
        Seq::empty()
    } else {
        row_text(row.drop_last()) + cell_text(row.last())
    }
}

/// Rows of pixels as text, top to bottom, with a line feed between rows and
/// none after the last.
pub open spec fn frame_text(frame: Seq<Seq<bool>>) -> Seq<char>
    decreases frame.len(),
{
    if frame.len() == 0 {
        Seq::empty()
    } else if frame.len() == 1 {
        row_text(frame[0])
    } else {
        frame_text(frame.drop_last()) + seq!['\n'] + row_text(frame.last())
    }
}

/// The rows of a display, each as a sequence of pixels.
pub open spec fn frame_rows(frame_buffer: [[bool; 64]; 32]) -> Seq<Seq<bool>> {
    Seq::new(32, |y: int| frame_buffer@[y]@)
}

/// Writes the display as text.
pub fn render_frame(frame_buffer: &[[bool; 64]; 32]) -> (text: String)
    ensures
        text@ == frame_text(frame_rows(*frame_buffer)),
{
    let ghost rows = frame_rows(*frame_buffer);
    let mut text = String::new();
    let mut y: usize = 0;
    proof {
        reveal_strlit("\u{2588}\u{2588}");
        reveal_strlit("  ");
        reveal_strlit("\n");
        assert(rows.take(0) =~= Seq::<Seq<bool>>::empty());
    }
    while y < DISPLAY_HEIGHT
        invariant
            y <= 32,
            rows == frame_rows(*frame_buffer),
            text@ == frame_text(rows.take(y as int)),
        decreases 32 - y,
    {
        let ghost above = text@;
        if y > 0 {
            text.append("\n");
        }
        let ghost start = text@;
        let mut x: usize = 0;
        proof {
            reveal_strlit("\n");
            assert(rows[y as int].take(0) =~= Seq::<bool>::empty());
            assert(text@ =~= start + row_text(rows[y as int].take(0)));
        }
        while x < DISPLAY_WIDTH
            invariant
                x <= 64,
                y < 32,
                rows == frame_rows(*frame_buffer),
                text@ == start + row_text(rows[y as int].take(x as int)),
            decreases 64 - x,
        {
            let ghost before = text@;
            if frame_buffer[y][x] {
                text.append("\u{2588}\u{2588}");
            } else {
                text.append("  ");
            }
            proof {
                reveal_strlit("\u{2588}\u{2588}");
                reveal_strlit("  ");
                let row = rows[y as int];
                assert(row.take(x + 1).drop_last() =~= row.take(x as int));
                assert(row.take(x + 1).last() == frame_buffer@[y as int]@[x as int]);
                assert(text@ =~= before + cell_text(frame_buffer@[y as int]@[x as int]));
                assert(text@ =~= start + row_text(row.take(x + 1)));
            }
            x += 1;
        }
        proof {
            let row = rows[y as int];
            assert(row.take(64) =~= row);
            assert(rows.take(y + 1).drop_last() =~= rows.take(y as int));
            assert(rows.take(y + 1).last() == row);
            if y == 0 {
                assert(rows.take(1)[0] == row);
                assert(text@ =~= row_text(row));
            } else {
                assert(start =~= above + seq!['\n']);
                assert(text@ =~= frame_text(rows.take(y as int)) + seq!['\n'] + row_text(row));
            }
        }
        y += 1;
    }
    proof {
        assert(rows.take(32) =~= rows);
    }
    text
}

/// Whether a terminal of the given size can show the whole display: it needs
/// `CELL_WIDTH` columns for each of the 64 pixels of a row, and 32 lines.
pub fn terminal_fits(width: u16, height: u16) -> (fits: bool)
    ensures
        fits == (width >= 128 && height >= 32),
{
    width as usize >= CELL_WIDTH * DISPLAY_WIDTH && height as usize >= DISPLAY_HEIGHT
}

} // verus!
