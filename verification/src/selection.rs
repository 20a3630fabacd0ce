//! Coordinates over history and viewport together, and selections of them.

use vstd::prelude::*;

verus! {

/// A position in either scrollback (`0..scrollback_len`) or the viewport
/// above. Absolute indexing keeps selections stable as new lines scroll in.
#[derive(Debug, Clone, Copy, PartialEq, Eq, Structural, PartialOrd, Ord)]
pub struct AbsCoord {
    pub abs_row: usize,
    pub col: usize,
}

impl AbsCoord {
    /// Reading order: row by row, left to right.
    pub open spec fn at_or_before(self, other: AbsCoord) -> bool {
        self.abs_row < other.abs_row || (self.abs_row == other.abs_row && self.col <= other.col)
    }

    /// Does `self` come no later than `other` in reading order?
    pub fn not_after(&self, other: &AbsCoord) -> (before: bool)
        ensures
            before == self.at_or_before(*other),
    {
        self.abs_row < other.abs_row || (self.abs_row == other.abs_row && self.col <= other.col)
    }
}

/// Does the inclusive range contain `p` in reading order?
pub open spec fn between(start: AbsCoord, p: AbsCoord, end: AbsCoord) -> bool {
    start.at_or_before(p) && p.at_or_before(end)
}

/// A text selection: where it began and where it currently ends.
#[derive(Debug, Clone, Copy, PartialEq, Eq, Structural)]
pub struct Selection {
    pub anchor: AbsCoord,
    pub head: AbsCoord,
}

impl Selection {
    /// First position in reading order.
    pub open spec fn start(self) -> AbsCoord {
        if self.anchor.at_or_before(self.head) {
            self.anchor
        } else {
            self.head
        }
    }

    /// Last position in reading order.
    pub open spec fn end(self) -> AbsCoord {
        if self.anchor.at_or_before(self.head) {
            self.head
        } else {
            self.anchor
        }
    }

    pub fn new(at: AbsCoord) -> (sel: Self)
        ensures
            sel == (Selection { anchor: at, head: at }),
    {
        Selection { anchor: at, head: at }
    }

    /// Reading-order (top-left, bottom-right) range. Both ends inclusive.
    pub fn normalized(&self) -> (range: (AbsCoord, AbsCoord))
        ensures
            range == (self.start(), self.end()),
    {
        if self.anchor.not_after(&self.head) {
            (self.anchor, self.head)
        } else {
            (self.head, self.anchor)
        }
    }

    pub fn contains(&self, p: AbsCoord) -> (inside: bool)
        ensures
            inside == between(self.start(), p, self.end()),
    {
        let (a, b) = self.normalized();
        a.not_after(&p) && p.not_after(&b)
    }
}

/// The normalized range runs forwards, and the way the selection was dragged
/// does not matter: swapping its two ends selects the same positions.
pub proof fn law_selection_normalized(sel: Selection)
    ensures
        sel.start().at_or_before(sel.end()),
        (Selection { anchor: sel.head, head: sel.anchor }).start() == sel.start(),
        (Selection { anchor: sel.head, head: sel.anchor }).end() == sel.end(),
{
}

/// Reading order as a number: positions of rows this wide count up.
pub open spec fn reading_number(p: AbsCoord, width: int) -> int {
    p.abs_row * width + p.col
}

/// A position is selected exactly if, reading row by row, it lies between the
/// two ends, both included, whichever of them was set first.
pub proof fn law_selected_positions(sel: Selection, p: AbsCoord, width: int)
    requires
        sel.anchor.col < width,
        sel.head.col < width,
        p.col < width,
    ensures
        ({
            let (a, h, n) = (
                reading_number(sel.anchor, width),
                reading_number(sel.head, width),
                reading_number(p, width),
            );
            between(sel.start(), p, sel.end()) <==> (a <= n <= h || h <= n <= a)
        }),
{
    lemma_number_order(sel.anchor, p, width);
    lemma_number_order(p, sel.anchor, width);
    lemma_number_order(sel.head, p, width);
    lemma_number_order(p, sel.head, width);
    lemma_number_order(sel.anchor, sel.head, width);
    lemma_number_order(sel.head, sel.anchor, width);
}

proof fn lemma_number_order(a: AbsCoord, b: AbsCoord, width: int)
    requires
        a.col < width,
        b.col < width,
    ensures
        a.at_or_before(b) <==> reading_number(a, width) <= reading_number(b, width),
{
    if a.abs_row < b.abs_row {
        assert(a.abs_row * width + width <= b.abs_row * width) by (nonlinear_arith)
            requires
                a.abs_row + 1 <= b.abs_row,
                0 <= width,
        ;
    } else if a.abs_row > b.abs_row {
        assert(b.abs_row * width + width <= a.abs_row * width) by (nonlinear_arith)
            requires
                b.abs_row + 1 <= a.abs_row,
                0 <= width,
        ;
    }
}

} // verus!
