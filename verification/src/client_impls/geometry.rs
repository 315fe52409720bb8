//! Places on the screen.

use vstd::prelude::*;

verus! {

/// A cell of the screen.
#[derive(Debug, Clone, Copy, PartialEq, Eq, Structural)]
pub struct Position {
    pub x: u16,
    pub y: u16,
}

/// A part of the screen.
#[derive(Debug, Clone, Copy, PartialEq, Eq, Structural)]
pub struct Rect {
    pub x: u16,
    pub y: u16,
    pub width: u16,
    pub height: u16,
}

/// A sum that stops at the largest number.
pub open spec fn capped(a: u16, b: u16) -> u16 {
    if a + b > u16::MAX {
        u16::MAX
    } else {
        (a + b) as u16
    }
}

fn capped_sum(a: u16, b: u16) -> (r: u16)
    ensures
        r == capped(a, b),
{
    if b > u16::MAX - a {
        u16::MAX
    } else {
        a + b
    }
}

impl Rect {
    /// A part of this size, as far as numbers of sixteen bits reach.
    pub open spec fn sized(x: u16, y: u16, width: u16, height: u16) -> Rect {
        Rect {
            x,
            y,
            width: (capped(x, width) - x) as u16,
            height: (capped(y, height) - y) as u16,
        }
    }

    /// A part of this size, as far as numbers of sixteen bits reach.
    pub fn new(x: u16, y: u16, width: u16, height: u16) -> (r: Rect)
        ensures
            r == Rect::sized(x, y, width, height),
    {
        Rect { x, y, width: capped_sum(x, width) - x, height: capped_sum(y, height) - y }
    }

    /// The column right of the part.
    pub open spec fn right(self) -> u16 {
        capped(self.x, self.width)
    }

    /// The row below the part.
    pub open spec fn bottom(self) -> u16 {
        capped(self.y, self.height)
    }

    /// Whether a cell lies in the part.
    pub open spec fn has(self, pos: Position) -> bool {
        self.x <= pos.x < self.right() && self.y <= pos.y < self.bottom()
    }

    /// The part without its outermost cells.
    pub open spec fn within(self) -> Rect {
        if self.width < 2 || self.height < 2 {
            Rect { x: 0, y: 0, width: 0, height: 0 }
        } else {
            Rect {
                x: capped(self.x, 1),
                y: capped(self.y, 1),
                width: (self.width - 2) as u16,
                height: (self.height - 2) as u16,
            }
        }
    }

    /// The smallest part that holds two parts.
    pub open spec fn spanned(self, other: Rect) -> Rect {
        let x = if self.x <= other.x {
            self.x
        } else {
            other.x
        };
        let y = if self.y <= other.y {
            self.y
        } else {
            other.y
        };
        let right = if self.right() >= other.right() {
            self.right()
        } else {
            other.right()
        };
        let bottom = if self.bottom() >= other.bottom() {
            self.bottom()
        } else {
            other.bottom()
        };
        Rect { x, y, width: (right - x) as u16, height: (bottom - y) as u16 }
    }

    /// The rows of the part, from the top. A part without width has none.
    pub open spec fn row_list(self) -> Seq<Rect> {
        if self.width == 0 {
            Seq::empty()
        } else {
            Seq::new(
                self.height as nat,
                |i: int| Rect { x: self.x, y: (self.y + i) as u16, width: self.width, height: 1 },
            )
        }
    }

    /// Whether the part ends on the screen that numbers of sixteen bits reach.
    pub open spec fn fits(self) -> bool {
        self.x + self.width <= u16::MAX && self.y + self.height <= u16::MAX
    }

    /// Whether a cell lies in the part.
    pub fn contains(self, pos: Position) -> (r: bool)
        ensures
            r == self.has(pos),
    {
        let right: u16 = capped_sum(self.x, self.width);
        let bottom: u16 = capped_sum(self.y, self.height);
        self.x <= pos.x && pos.x < right && self.y <= pos.y && pos.y < bottom
    }

    /// The part without its outermost cells.
    pub fn inner(self) -> (r: Rect)
        ensures
            r == self.within(),
    {
        if self.width < 2 || self.height < 2 {
            Rect { x: 0, y: 0, width: 0, height: 0 }
        } else {
            Rect {
                x: capped_sum(self.x, 1),
                y: capped_sum(self.y, 1),
                width: self.width - 2,
                height: self.height - 2,
            }
        }
    }

    /// The smallest part that holds two parts.
    pub fn union(self, other: Rect) -> (r: Rect)
        ensures
            r == self.spanned(other),
    {
        let x: u16 = if self.x <= other.x {
            self.x
        } else {
            other.x
        };
        let y: u16 = if self.y <= other.y {
            self.y
        } else {
            other.y
        };
        let right1: u16 = capped_sum(self.x, self.width);
        let right2: u16 = capped_sum(other.x, other.width);
        let right: u16 = if right1 >= right2 {
            right1
        } else {
            right2
        };
        let bottom1: u16 = capped_sum(self.y, self.height);
        let bottom2: u16 = capped_sum(other.y, other.height);
        let bottom: u16 = if bottom1 >= bottom2 {
            bottom1
        } else {
            bottom2
        };
        Rect { x, y, width: right - x, height: bottom - y }
    }

    /// The rows of the part, from the top. A part without width has none.
    pub fn rows(self) -> (r: Vec<Rect>)
        requires
            self.fits(),
        ensures
            r@ == self.row_list(),
    {
        let mut rows: Vec<Rect> = Vec::new();
        if self.width == 0 {
            return rows;
        }
        let mut i: u16 = 0;
        while i < self.height
            invariant
                self.fits(),
                self.width > 0,
                i <= self.height,
                rows@ == self.row_list().take(i as int),
            decreases self.height - i,
        {
            rows.push(Rect { x: self.x, y: self.y + i, width: self.width, height: 1 });
            i = i + 1;
            assert(self.row_list().take(i as int) =~= self.row_list().take(i - 1).push(
                self.row_list()[i - 1],
            ));
        }
        assert(self.row_list().take(self.height as int) =~= self.row_list());
        rows
    }
}

/// The rows of a part lie in it, one below the other, and cover it.
pub proof fn law_rows_cover(rect: Rect, pos: Position)
    requires
        rect.fits(),
    ensures
        rect.has(pos) ==> rect.row_list()[pos.y - rect.y].has(pos),
        forall|i: int|
            0 <= i < rect.row_list().len() && (#[trigger] rect.row_list()[i]).has(pos) ==> i
                == pos.y - rect.y && rect.has(pos),
{
}

/// Two parts lie in the part that spans them.
pub proof fn law_union_holds_both(a: Rect, b: Rect, pos: Position)
    requires
        a.has(pos) || b.has(pos),
    ensures
        a.spanned(b).has(pos),
{
}

/// A cell lies in a part exactly where it is in one of its columns and in one of
/// its rows, as far as numbers of sixteen bits reach.
pub proof fn law_parts_hold_their_cells(rect: Rect, pos: Position)
    ensures
        rect.has(pos) <==> {
            &&& pos.x < u16::MAX && rect.x <= pos.x && pos.x - rect.x < rect.width
            &&& pos.y < u16::MAX && rect.y <= pos.y && pos.y - rect.y < rect.height
        },
{
}

/// A part has the place and the size that it was made with, as far as numbers of
/// sixteen bits reach.
pub proof fn law_parts_are_made_as_told(x: u16, y: u16, width: u16, height: u16)
    ensures
        ({
            let rect = Rect::sized(x, y, width, height);
            &&& rect.x == x && rect.y == y
            &&& x + width <= u16::MAX ==> rect.width == width
            &&& x + width > u16::MAX ==> x + rect.width == u16::MAX
            &&& y + height <= u16::MAX ==> rect.height == height
            &&& y + height > u16::MAX ==> y + rect.height == u16::MAX
        }),
{
}

/// What lies within a part are its cells that have neighbours in it on all sides.
pub proof fn law_inner_cells_have_neighbours(rect: Rect, pos: Position)
    requires
        rect.fits(),
    ensures
        rect.within().has(pos) <==> {
            &&& rect.has(pos)
            &&& pos.x > rect.x && pos.y > rect.y
            &&& pos.x + 1 < rect.x + rect.width && pos.y + 1 < rect.y + rect.height
        },
{
}

/// No smaller part holds two parts than the one that spans them: it starts where
/// one of them starts, and ends where one of them ends.
pub proof fn law_union_is_the_smallest(a: Rect, b: Rect, other: Rect)
    requires
        a.fits(),
        b.fits(),
        other.x <= a.x && other.x <= b.x,
        other.y <= a.y && other.y <= b.y,
        a.x + a.width <= other.x + other.width && b.x + b.width <= other.x + other.width,
        a.y + a.height <= other.y + other.height && b.y + b.height <= other.y + other.height,
    ensures
        ({
            let union = a.spanned(b);
            &&& other.x <= union.x && other.y <= union.y
            &&& union.x + union.width <= other.x + other.width
            &&& union.y + union.height <= other.y + other.height
            &&& union.x <= a.x && union.x <= b.x && union.y <= a.y && union.y <= b.y
            &&& a.x + a.width <= union.x + union.width && b.x + b.width <= union.x + union.width
            &&& a.y + a.height <= union.y + union.height && b.y + b.height <= union.y
                + union.height
        }),
{
}

/// A part with any width has as many rows as it is high, each as wide as the part
/// and one cell high, from the top.
pub proof fn law_rows_are_as_wide_as_the_part(rect: Rect, i: int)
    requires
        rect.fits(),
        rect.width > 0,
        0 <= i < rect.height,
    ensures
        rect.row_list().len() == rect.height,
        rect.row_list()[i].x == rect.x && rect.row_list()[i].width == rect.width,
        rect.row_list()[i].y == rect.y + i && rect.row_list()[i].height == 1,
{
}

} // verus!
