//! Pixel-space points and axis-aligned rectangles.

use vstd::prelude::*;

verus! {

/// A length or coordinate, in pixels.
pub type Px = i32;

/// A point in pixel space. The origin is the upper-left corner: `x` grows to the right and `y`
/// grows downwards.
#[derive(Clone, Copy, Debug, PartialEq, Eq, Structural)]
pub struct Pos {
    pub x: Px,
    pub y: Px,
}

/// Whether a mathematical integer can be held in a `Px`.
pub open spec fn fits_px(v: int) -> bool {
    Px::MIN <= v <= Px::MAX
}

/// The smaller of two coordinates.
pub open spec fn lesser(a: Px, b: Px) -> Px {
    if a <= b {
        a
    } else {
        b
    }
}

/// The larger of two coordinates.
pub open spec fn greater(a: Px, b: Px) -> Px {
    if a <= b {
        b
    } else {
        a
    }
}

impl Pos {
    /// The point `(x, y)`.
    pub fn new(x: Px, y: Px) -> (p: Pos)
        ensures
            p == (Pos { x, y }),
    {
        Pos { x, y }
    }

    /// Whether moving `self` by `by` stays inside the coordinate range on both axes.
    pub open spec fn can_move_by(self, by: Pos) -> bool {
        fits_px(self.x + by.x) && fits_px(self.y + by.y)
    }

    /// `self` moved by `by`, component by component.
    pub open spec fn moved_by(self, by: Pos) -> Pos {
        Pos { x: (self.x + by.x) as Px, y: (self.y + by.y) as Px }
    }
}

impl core::ops::Add for Pos {
    type Output = Pos;

    /// Component-wise sum: `self` moved by `rhs`.
    fn add(self, rhs: Pos) -> (p: Pos) {
        Pos { x: self.x + rhs.x, y: self.y + rhs.y }
    }
}

impl vstd::std_specs::ops::AddSpecImpl for Pos {
    open spec fn obeys_add_spec() -> bool {
        true
    }

    open spec fn add_req(self, rhs: Pos) -> bool {
        self.can_move_by(rhs)
    }

    open spec fn add_spec(self, rhs: Pos) -> Pos {
        self.moved_by(rhs)
    }
}

/// A rectangular area.
///
/// ```text
///  ·----> (x)
///  |
///  |   L---------A
///  v   |         |
/// (y)  |         |
///      |         |
///      B---------U
/// ```
///
/// `L` is the *lower* point and `U` the *upper* point; `(A - L).x` is the width and
/// `(B - L).y` the height.
#[derive(Clone, Copy, Debug, PartialEq, Eq, Structural)]
pub struct Rect {
    pub lower: Pos,
    pub upper: Pos,
}

impl Rect {
    /// The invariant of a rectangle: the lower point is not beyond the upper point on either
    /// axis. Every constructor establishes it.
    pub open spec fn wf(&self) -> bool {
        self.lower.x <= self.upper.x && self.lower.y <= self.upper.y
    }

    /// The rectangle spanned by two opposite corners, given in any order.
    pub open spec fn spanning(a: Pos, b: Pos) -> Rect {
        Rect {
            lower: Pos { x: lesser(a.x, b.x), y: lesser(a.y, b.y) },
            upper: Pos { x: greater(a.x, b.x), y: greater(a.y, b.y) },
        }
    }

    /// Horizontal extent, as a mathematical integer.
    pub open spec fn spec_width(&self) -> int {
        self.upper.x - self.lower.x
    }

    /// Vertical extent, as a mathematical integer.
    pub open spec fn spec_height(&self) -> int {
        self.upper.y - self.lower.y
    }

    /// Whether both extents can be held in a `Px`.
    pub open spec fn extents_fit(&self) -> bool {
        fits_px(self.spec_width()) && fits_px(self.spec_height())
    }

    /// Builds the rectangle spanned by `lower` and `upper`, swapping coordinates where the
    /// corners come in the wrong order.
    pub fn new(lower: Pos, upper: Pos) -> (r: Rect)
        ensures
            r == Rect::spanning(lower, upper),
            r.wf(),
    {
        let mut out_lower = Pos { x: 0, y: 0 };
        let mut out_upper = Pos { x: 0, y: 0 };

        if lower.x <= upper.x {
            out_lower.x = lower.x;
            out_upper.x = upper.x;
        } else {
            out_lower.x = upper.x;
            out_upper.x = lower.x;
        }

        if lower.y <= upper.y {
            out_lower.y = lower.y;
            out_upper.y = upper.y;
        } else {
            out_lower.y = upper.y;
            out_upper.y = lower.y;
        }

        Rect { lower: out_lower, upper: out_upper }
    }

    /// Whether a rectangle of extents `w` and `h` anchored at `upper_left` has all its corners
    /// inside the coordinate range.
    pub open spec fn wh_fits(upper_left: Pos, w: Px, h: Px) -> bool {
        upper_left.can_move_by(Pos { x: w, y: h })
    }

    /// Builds the rectangle anchored at `upper_left` that is `w` wide and `h` high. A negative
    /// extent stretches the rectangle to the other side of the anchor.
    pub fn new_wh(upper_left: Pos, w: Px, h: Px) -> (r: Rect)
        requires
            Rect::wh_fits(upper_left, w, h),
        ensures
            r == Rect::spanning(upper_left, upper_left.moved_by(Pos { x: w, y: h })),
            r.wf(),
            w >= 0 && h >= 0 ==> r.lower == upper_left && r.spec_width() == w && r.spec_height()
                == h,
    {
        Rect::new(
            Pos::new(upper_left.x, upper_left.y + h),
            Pos::new(upper_left.x + w, upper_left.y),
        )
    }

    /// The horizontal extent, or `None` where it cannot be held in a `Px`.
    pub fn checked_width(&self) -> (w: Option<Px>)
        ensures
            w == if fits_px(self.spec_width()) {
                Some(self.spec_width() as Px)
            } else {
                None
            },
    {
        self.upper.x.checked_sub(self.lower.x)
    }

    /// The vertical extent, or `None` where it cannot be held in a `Px`.
    pub fn checked_height(&self) -> (h: Option<Px>)
        ensures
            h == if fits_px(self.spec_height()) {
                Some(self.spec_height() as Px)
            } else {
                None
            },
    {
        self.upper.y.checked_sub(self.lower.y)
    }

    /// The horizontal extent.
    pub fn width(&self) -> (w: Px)
        requires
            fits_px(self.spec_width()),
        ensures
            w == self.spec_width(),
    {
        self.upper.x - self.lower.x
    }

    /// The vertical extent.
    pub fn height(&self) -> (h: Px)
        requires
            fits_px(self.spec_height()),
        ensures
            h == self.spec_height(),
    {
        self.upper.y - self.lower.y
    }
}

/// The corners may be given in either order: the rectangle is the same.
pub proof fn lemma_spanning_symmetric(a: Pos, b: Pos)
    ensures
        Rect::spanning(a, b) == Rect::spanning(b, a),
{
}

/// Spanning a well-formed rectangle's own corners gives that rectangle back.
pub proof fn lemma_spanning_fixes_wf(r: Rect)
    requires
        r.wf(),
    ensures
        Rect::spanning(r.lower, r.upper) == r,
{
}

/// A spanned rectangle is well formed, and its extents are the distances between the corners.
pub proof fn lemma_spanning_extents(a: Pos, b: Pos)
    ensures
        Rect::spanning(a, b).wf(),
        Rect::spanning(a, b).spec_width() == if a.x <= b.x {
            b.x - a.x
        } else {
            a.x - b.x
        },
        Rect::spanning(a, b).spec_height() == if a.y <= b.y {
            b.y - a.y
        } else {
            a.y - b.y
        },
{
}

} // verus!
