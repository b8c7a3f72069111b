//! The text of one frame: two characters per cell, one line per row.

use crate::grid::{height_of, width_of, Grid};
use vstd::prelude::*;
use vstd::string::StringExecFns;

verus! {

/// The two characters that draw one cell: a full block when it is alive,
/// blanks when it is dead.
pub open spec fn glyphs(alive: bool) -> Seq<char> {
    if alive {
        seq!['\u{2588}', '\u{2588}']
    } else {
        seq![' ', ' ']
    }
}

/// The text of one row: the glyphs of its cells, left to right.
pub open spec fn row_text(row: Seq<bool>) -> Seq<char>
    decreases row.len(),
{
    if row.len() == 0 {
        Seq::empty()
    } else {
        row_text(row.drop_last()) + glyphs(row.last())
    }
}

/// The text of a matrix: each row's text followed by a line break, top to
/// bottom.
pub open spec fn frame_text(c: Seq<Seq<bool>>) -> Seq<char>
    decreases c.len(),
{
    if c.len() == 0 {
        Seq::empty()
    } else {
        frame_text(c.drop_last()) + row_text(c.last()) + seq!['\n']
    }
}

impl Grid {
    /// The text of this generation, as it is drawn on screen.
    pub fn render_text(&self) -> (r: String)
        ensures
            r@ == frame_text(self@),
    {
        let h = self.height();
        let w = self.width();
        let alive_glyphs = "\u{2588}\u{2588}";
        let dead_glyphs = "  ";
        let line_break = "\n";
        proof {
            reveal_strlit("\u{2588}\u{2588}");
            reveal_strlit("  ");
            reveal_strlit("\n");
            assert(alive_glyphs@ =~= glyphs(true));
            assert(dead_glyphs@ =~= glyphs(false));
        }
        let mut out = String::new();
        let mut y: usize = 0;
        while y < h
            invariant
                h == height_of(self@),
                w == width_of(self@),
                crate::grid::valid(self@),
                alive_glyphs@ == glyphs(true),
                dead_glyphs@ == glyphs(false),
                line_break@ == seq!['\n'],
                y <= h,
                out@ == frame_text(self@.subrange(0, y as int)),
            decreases h - y,
        {
            let ghost before = out@;
            let mut x: usize = 0;
            while x < w
                invariant
                    h == height_of(self@),
                    w == width_of(self@),
                    crate::grid::valid(self@),
                    alive_glyphs@ == glyphs(true),
                    dead_glyphs@ == glyphs(false),
                    y < h,
                    x <= w,
                    out@ == before + row_text(self@[y as int].subrange(0, x as int)),
                decreases w - x,
            {
                if self.is_alive(y, x) {
                    out.append(alive_glyphs);
                } else {
                    out.append(dead_glyphs);
                }
                proof {
                    let row = self@[y as int].subrange(0, x + 1);
                    assert(row.drop_last() =~= self@[y as int].subrange(0, x as int));
                }
                x = x + 1;
            }
            out.append(line_break);
            proof {
                let rows = self@.subrange(0, y + 1);
                assert(rows.drop_last() =~= self@.subrange(0, y as int));
                assert(self@[y as int].subrange(0, w as int) =~= self@[y as int]);
            }
            y = y + 1;
        }
        assert(self@.subrange(0, h as int) =~= self@);
        out
    }
}

} // verus!
