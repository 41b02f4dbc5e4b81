//! The display animator's state and geometry: a scroll offset advanced once
//! per display period, modulo the visible height plus a font margin, and the
//! fixed-stride vertical positions of the text lines drawn each frame. What
//! to draw is cosmetic and stays outside; this module fixes where.

use vstd::prelude::*;

verus! {

/// Height of the visible area, in pixels.
pub const SCREEN_HEIGHT: i32 = 160;

/// Extra scroll margin so a line leaves the screen fully before wrapping.
pub const FONT_BUFFER: i32 = 13;

/// Total scroll height: offsets advance modulo this.
pub const TOTAL_SCROLL: i32 = 173;

/// Number of text lines drawn per frame.
pub const NUM_LINES: i32 = 8;

/// Vertical stride between consecutive lines.
pub const LINE_STRIDE: i32 = 21;

/// The animator's state: the current scroll offset (`y`); `x` is kept for
/// symmetry with the drawing origin and stays put.
#[derive(Clone, Copy, Debug, PartialEq, Eq, Structural)]
pub struct Graphics {
    pub x: i32,
    pub y: i32,
}

/// Where one line of the frame is drawn: the left text rises as the right
/// text descends, and the first line is emphasized with the alternate style.
#[derive(Clone, Copy, Debug, PartialEq, Eq, Structural)]
pub struct LinePlacement {
    pub left_y: i32,
    pub right_y: i32,
    pub emphasized: bool,
}

/// The wrapped vertical offset of line `i` for scroll offset `y`.
pub open spec fn line_offset(y: int, i: int) -> int {
    (y + LINE_STRIDE * i) % (TOTAL_SCROLL as int)
}

/// The placement of line `i` for scroll offset `y`.
pub open spec fn line_placement(y: int, i: int) -> LinePlacement {
    LinePlacement {
        left_y: (TOTAL_SCROLL - line_offset(y, i)) as i32,
        right_y: line_offset(y, i) as i32,
        emphasized: i == 0,
    }
}

impl Graphics {
    /// The scroll offset stays within one wrap.
    pub open spec fn wf(&self) -> bool {
        0 <= self.y < TOTAL_SCROLL
    }

    /// The animator at its starting origin.
    pub fn new() -> (r: Graphics)
        ensures
            r.wf(),
            r.x == 0,
            r.y == 0,
    {
        Graphics { x: 0, y: 0 }
    }

    /// Advances the scroll offset by one pixel, wrapping at the total scroll
    /// height; the offset never leaves `[0, TOTAL_SCROLL)`.
    pub fn advance(&mut self)
        requires
            old(self).wf(),
        ensures
            final(self).wf(),
            final(self).x == old(self).x,
            final(self).y == (old(self).y + 1) % (TOTAL_SCROLL as int),
    {
        self.y = (self.y + 1) % TOTAL_SCROLL;
    }

    /// The placements of the frame's text lines at the current offset: one
    /// per line, at the fixed stride, each wrapped into the scroll range.
    pub fn frame(&self) -> (r: Vec<LinePlacement>)
        requires
            self.wf(),
        ensures
            r@.len() == NUM_LINES,
            forall|i: int| 0 <= i < NUM_LINES ==> r@[i] == line_placement(self.y as int, i),
    {
        let mut out: Vec<LinePlacement> = Vec::new();
        let mut i: i32 = 0;
        while i < NUM_LINES
            invariant
                0 <= i <= NUM_LINES,
                self.wf(),
                out@.len() == i,
                forall|j: int| 0 <= j < i ==> out@[j] == line_placement(self.y as int, j),
            decreases NUM_LINES - i,
        {
            let off = (self.y + LINE_STRIDE * i) % TOTAL_SCROLL;
            out.push(LinePlacement { left_y: TOTAL_SCROLL - off, right_y: off, emphasized: i == 0 });
            i = i + 1;
        }
        out
    }
}

} // verus!
