//! The layout solver: where each child of a container goes, and the redraw that walks the
//! children with those placements.

use vstd::prelude::*;

use crate::geometry::{fits_px, Pos, Px, Rect};
use crate::widget::{InterpretedWidget, Layout, Positioning, Widget};

verus! {

/// The areas that a sequence of widgets ask for, in order.
pub open spec fn rects_of<W: Widget>(widgets: Seq<W>) -> Seq<Rect> {
    Seq::new(widgets.len(), |i: int| widgets[i].spec_rect())
}

/// The share of `total` that each of `count` tiles gets: the quotient, rounded towards zero.
pub open spec fn tile_extent(total: int, count: int) -> int {
    if count <= 0 {
        0
    } else if total >= 0 {
        total / count
    } else {
        -((-total) / count)
    }
}

impl Layout {
    /// Whether the children share the container's extent equally.
    pub open spec fn is_tiling(self) -> bool {
        self == Layout::Horizontal(Positioning::Tiling) || self == Layout::Vertical(
            Positioning::Tiling,
        )
    }

    /// Whether the children are packed from the container's upper edge.
    pub open spec fn is_last(self) -> bool {
        self == Layout::Horizontal(Positioning::Last) || self == Layout::Vertical(
            Positioning::Last,
        )
    }

    /// The extent of `r` along the axis on which the layout stacks its children. A floating
    /// layout has no such axis.
    pub open spec fn extent_of(self, r: Rect) -> int {
        match self {
            Layout::Horizontal(_) => r.spec_width(),
            Layout::Vertical(_) => r.spec_height(),
            Layout::Floating => 0,
        }
    }

    /// The coordinate of the container's edge from which the children are packed.
    pub open spec fn origin_of(self, parent: Rect) -> int {
        match self {
            Layout::Horizontal(Positioning::Last) => parent.upper.x as int,
            Layout::Horizontal(_) => parent.lower.x as int,
            Layout::Vertical(Positioning::Last) => parent.upper.y as int,
            Layout::Vertical(_) => parent.lower.y as int,
            Layout::Floating => 0,
        }
    }

    /// The coordinate at which `r` begins on the stacking axis.
    pub open spec fn start_of(self, r: Rect) -> int {
        match self {
            Layout::Horizontal(_) => r.lower.x as int,
            Layout::Vertical(_) => r.lower.y as int,
            Layout::Floating => 0,
        }
    }

    /// The coordinate at which `r` ends on the stacking axis.
    pub open spec fn end_of(self, r: Rect) -> int {
        match self {
            Layout::Horizontal(_) => r.upper.x as int,
            Layout::Vertical(_) => r.upper.y as int,
            Layout::Floating => 0,
        }
    }

    /// Whether `a` and `b` cover the same stretch of the axis across the stacking axis.
    pub open spec fn same_cross_section(self, a: Rect, b: Rect) -> bool {
        match self {
            Layout::Horizontal(_) => a.lower.y == b.lower.y && a.upper.y == b.upper.y,
            Layout::Vertical(_) => a.lower.x == b.lower.x && a.upper.x == b.upper.x,
            Layout::Floating => true,
        }
    }

    /// The band of `parent` that lies between the coordinates `from` and `to` of the stacking
    /// axis and spans the container on the other axis.
    pub open spec fn band(self, parent: Rect, from: Px, to: Px) -> Rect {
        match self {
            Layout::Horizontal(_) => Rect::spanning(
                Pos { x: from, y: parent.lower.y },
                Pos { x: to, y: parent.upper.y },
            ),
            Layout::Vertical(_) => Rect::spanning(
                Pos { x: parent.lower.x, y: from },
                Pos { x: parent.upper.x, y: to },
            ),
            Layout::Floating => parent,
        }
    }
}

/// How far child `i` moves the packing cursor along the stacking axis: its own extent, or under
/// a tiling layout the common share.
pub open spec fn stride(layout: Layout, parent: Rect, rects: Seq<Rect>, i: int) -> int {
    if layout.is_tiling() {
        tile_extent(layout.extent_of(parent), rects.len() as int)
    } else {
        layout.extent_of(rects[i])
    }
}

/// The distance that the children before child `i` take up together.
pub open spec fn consumed(layout: Layout, parent: Rect, rects: Seq<Rect>, i: int) -> int
    decreases i,
{
    if i <= 0 {
        0
    } else {
        consumed(layout, parent, rects, i - 1) + stride(layout, parent, rects, i - 1)
    }
}

/// The coordinate on the stacking axis at which child `i` starts.
pub open spec fn cursor(layout: Layout, parent: Rect, rects: Seq<Rect>, i: int) -> int {
    if layout.is_last() {
        layout.origin_of(parent) - consumed(layout, parent, rects, i)
    } else {
        layout.origin_of(parent) + consumed(layout, parent, rects, i)
    }
}

/// Where a floating child that asks for `child` goes inside `parent`: its lower point is taken
/// as an offset from the container's lower point, and it keeps its extents.
pub open spec fn floating_placement(parent: Rect, child: Rect) -> Rect {
    let at = parent.lower.moved_by(child.lower);
    Rect::spanning(
        at,
        at.moved_by(Pos { x: child.spec_width() as Px, y: child.spec_height() as Px }),
    )
}

/// Whether `floating_placement` can be computed inside the coordinate range.
pub open spec fn floating_fits(parent: Rect, child: Rect) -> bool {
    &&& child.extents_fit()
    &&& parent.lower.can_move_by(child.lower)
    &&& parent.lower.moved_by(child.lower).can_move_by(
        Pos { x: child.spec_width() as Px, y: child.spec_height() as Px },
    )
}

/// The area that child `i` is redrawn into.
pub open spec fn placement(layout: Layout, parent: Rect, rects: Seq<Rect>, i: int) -> Rect {
    if layout == Layout::Floating {
        floating_placement(parent, rects[i])
    } else {
        layout.band(
            parent,
            cursor(layout, parent, rects, i) as Px,
            cursor(layout, parent, rects, i + 1) as Px,
        )
    }
}

/// Whether the placement of child `i` can be computed inside the coordinate range: every
/// extent that is measured and every coordinate that is reached can be held in a `Px`.
pub open spec fn placement_fits(layout: Layout, parent: Rect, rects: Seq<Rect>, i: int) -> bool {
    if layout == Layout::Floating {
        floating_fits(parent, rects[i])
    } else {
        &&& layout.is_tiling() ==> fits_px(layout.extent_of(parent))
        &&& !layout.is_tiling() ==> fits_px(layout.extent_of(rects[i]))
        &&& fits_px(cursor(layout, parent, rects, i))
        &&& fits_px(cursor(layout, parent, rects, i + 1))
    }
}

/// Whether the placement of every child can be computed inside the coordinate range.
pub open spec fn layout_fits(layout: Layout, parent: Rect, rects: Seq<Rect>) -> bool {
    forall|i: int| 0 <= i < rects.len() ==> #[trigger] placement_fits(layout, parent, rects, i)
}

/// The areas that the children are redrawn into, in order.
pub open spec fn placements(layout: Layout, parent: Rect, rects: Seq<Rect>) -> Seq<Rect> {
    Seq::new(rects.len(), |i: int| placement(layout, parent, rects, i))
}

/// Whether every child can be redrawn: the placements can be computed, and each child accepts
/// its own.
pub open spec fn children_redrawable<V: View, W: InterpretedWidget<V>>(
    layout: Layout,
    parent: Rect,
    widgets: Seq<W>,
) -> bool {
    &&& layout_fits(layout, parent, rects_of(widgets))
    &&& forall|i: int|
        0 <= i < widgets.len() ==> (#[trigger] widgets[i]).redrawable(
            placement(layout, parent, rects_of(widgets), i),
        )
}

/// What the view shows after the first `k` children have been redrawn one after the other,
/// each into its placement, when it showed `before`.
pub open spec fn children_redrawn<V: View, W: InterpretedWidget<V>>(
    layout: Layout,
    parent: Rect,
    widgets: Seq<W>,
    k: int,
    before: V::V,
) -> V::V
    decreases k,
{
    if k <= 0 {
        before
    } else {
        widgets[k - 1].redrawn(
            placement(layout, parent, rects_of(widgets), k - 1),
            children_redrawn::<V, W>(layout, parent, widgets, k - 1, before),
        )
    }
}

/// Unfolds `consumed` once: the cursor after child `i` is the cursor before it, moved by the
/// child's stride.
pub proof fn lemma_cursor_step(layout: Layout, parent: Rect, rects: Seq<Rect>, i: int)
    requires
        0 <= i,
    ensures
        cursor(layout, parent, rects, 0) == layout.origin_of(parent),
        layout.is_last() ==> cursor(layout, parent, rects, i + 1) == cursor(
            layout,
            parent,
            rects,
            i,
        ) - stride(layout, parent, rects, i),
        !layout.is_last() ==> cursor(layout, parent, rects, i + 1) == cursor(
            layout,
            parent,
            rects,
            i,
        ) + stride(layout, parent, rects, i),
{
}

/// Every placement is a well-formed rectangle.
pub proof fn lemma_placement_wf(layout: Layout, parent: Rect, rects: Seq<Rect>, i: int)
    ensures
        placement(layout, parent, rects, i).wf(),
{
}

/// Under a stacking layout, child `i` covers the stretch of the stacking axis between the
/// cursor before it and the cursor after it, and the whole of a well-formed parent across that
/// axis. So the first child starts at the edge from which the layout packs, and as long as no
/// stride is negative each child begins where the one before it ended: the children neither
/// overlap nor leave gaps.
pub proof fn lemma_placement_edges(layout: Layout, parent: Rect, rects: Seq<Rect>, i: int)
    requires
        layout != Layout::Floating,
        0 <= i < rects.len(),
        placement_fits(layout, parent, rects, i),
        stride(layout, parent, rects, i) >= 0,
    ensures
        cursor(layout, parent, rects, 0) == layout.origin_of(parent),
        !layout.is_last() ==> layout.start_of(placement(layout, parent, rects, i)) == cursor(
            layout,
            parent,
            rects,
            i,
        ) && layout.end_of(placement(layout, parent, rects, i)) == cursor(
            layout,
            parent,
            rects,
            i + 1,
        ),
        layout.is_last() ==> layout.end_of(placement(layout, parent, rects, i)) == cursor(
            layout,
            parent,
            rects,
            i,
        ) && layout.start_of(placement(layout, parent, rects, i)) == cursor(
            layout,
            parent,
            rects,
            i + 1,
        ),
        layout.extent_of(placement(layout, parent, rects, i)) == stride(layout, parent, rects, i),
        parent.wf() ==> layout.same_cross_section(placement(layout, parent, rects, i), parent),
{
    lemma_cursor_step(layout, parent, rects, i);
}

/// Under a tiling layout the children before child `i` take up `i` equal shares.
pub proof fn lemma_tiling_consumed(layout: Layout, parent: Rect, rects: Seq<Rect>, i: int)
    requires
        layout.is_tiling(),
        0 <= i,
    ensures
        consumed(layout, parent, rects, i) == i * tile_extent(
            layout.extent_of(parent),
            rects.len() as int,
        ),
    decreases i,
{
    let share = tile_extent(layout.extent_of(parent), rects.len() as int);
    if i > 0 {
        lemma_tiling_consumed(layout, parent, rects, i - 1);
        assert(i * share == (i - 1) * share + share) by (nonlinear_arith);
    } else {
        assert(i * share == 0) by (nonlinear_arith)
            requires
                i == 0,
        ;
    }
}

/// The shares of a tiling never add up to more than the extent that is divided.
pub proof fn lemma_tiles_within_total(total: int, count: int, k: int)
    requires
        0 <= total,
        0 <= k <= count,
    ensures
        0 <= tile_extent(total, count),
        0 <= k * tile_extent(total, count) <= total,
{
    if count > 0 {
        let share = total / count;
        vstd::arithmetic::div_mod::lemma_div_pos_is_pos(total, count);
        vstd::arithmetic::div_mod::lemma_fundamental_div_mod(total, count);
        vstd::arithmetic::div_mod::lemma_mod_bound(total, count);
        assert(0 <= k * share <= count * share) by (nonlinear_arith)
            requires
                0 <= k <= count,
                0 <= share,
        ;
    }
}

/// Equal division: under a tiling layout of a well-formed parent, every child gets an area
/// of the same extent along the stacking axis, the common share; the areas follow one another
/// from the parent's lower edge, and all of them lie inside the parent.
pub proof fn lemma_tiles_equal_and_inside(layout: Layout, parent: Rect, rects: Seq<Rect>, i: int)
    requires
        layout.is_tiling(),
        parent.wf(),
        0 <= i < rects.len(),
    ensures
        placement_fits(layout, parent, rects, i) <==> fits_px(layout.extent_of(parent)),
        fits_px(layout.extent_of(parent)) ==> {
            let area = placement(layout, parent, rects, i);
            let share = tile_extent(layout.extent_of(parent), rects.len() as int);
            &&& layout.extent_of(area) == share
            &&& layout.start_of(area) == layout.start_of(parent) + i * share
            &&& layout.start_of(parent) <= layout.start_of(area)
            &&& layout.end_of(area) <= layout.end_of(parent)
            &&& layout.same_cross_section(area, parent)
        },
{
    let total = layout.extent_of(parent);
    let count = rects.len() as int;
    lemma_tiling_consumed(layout, parent, rects, i);
    lemma_tiling_consumed(layout, parent, rects, i + 1);
    lemma_tiles_within_total(total, count, i);
    lemma_tiles_within_total(total, count, i + 1);
    lemma_cursor_step(layout, parent, rects, i);
}

/// A floating child that asks for a well-formed area is placed at its own offset from the
/// parent's lower point and keeps its extents.
pub proof fn lemma_floating_keeps_extents(parent: Rect, child: Rect)
    requires
        child.wf(),
        floating_fits(parent, child),
    ensures
        floating_placement(parent, child).lower == parent.lower.moved_by(child.lower),
        floating_placement(parent, child).lower.x == parent.lower.x + child.lower.x,
        floating_placement(parent, child).lower.y == parent.lower.y + child.lower.y,
        floating_placement(parent, child).spec_width() == child.spec_width(),
        floating_placement(parent, child).spec_height() == child.spec_height(),
{
}

/// Computes the common share of a tiling layout.
pub fn tile(total: Px, count: usize) -> (share: Px)
    requires
        count > 0,
    ensures
        share == tile_extent(total as int, count as int),
{
    let magnitude: u64 = if total >= 0 {
        total as u64
    } else {
        (-(total as i64)) as u64
    };
    let quotient: u64 = magnitude / (count as u64);
    proof {
        vstd::arithmetic::div_mod::lemma_div_nonincreasing(magnitude as int, count as int);
        vstd::arithmetic::div_mod::lemma_div_pos_is_pos(magnitude as int, count as int);
    }
    if total >= 0 {
        quotient as Px
    } else {
        (-(quotient as i64)) as Px
    }
}

impl Layout {
    /// The coordinate from which the children are packed.
    fn origin(self, parent: &Rect) -> (at: Px)
        ensures
            at == self.origin_of(*parent),
    {
        match self {
            Layout::Horizontal(Positioning::Last) => parent.upper.x,
            Layout::Horizontal(_) => parent.lower.x,
            Layout::Vertical(Positioning::Last) => parent.upper.y,
            Layout::Vertical(_) => parent.lower.y,
            Layout::Floating => 0,
        }
    }

    /// Builds the band of `parent` between two coordinates of the stacking axis.
    fn band_between(self, parent: &Rect, from: Px, to: Px) -> (r: Rect)
        ensures
            r == self.band(*parent, from, to),
    {
        match self {
            Layout::Horizontal(_) => Rect::new(
                Pos::new(from, parent.lower.y),
                Pos::new(to, parent.upper.y),
            ),
            Layout::Vertical(_) => Rect::new(
                Pos::new(parent.lower.x, from),
                Pos::new(parent.upper.x, to),
            ),
            Layout::Floating => *parent,
        }
    }

    /// Measures `r` along the stacking axis, or gives `None` where the extent cannot be held
    /// in a `Px`.
    fn checked_extent(self, r: &Rect) -> (e: Option<Px>)
        ensures
            e == if fits_px(self.extent_of(*r)) {
                Some(self.extent_of(*r) as Px)
            } else {
                None
            },
    {
        match self {
            Layout::Horizontal(_) => r.checked_width(),
            Layout::Vertical(_) => r.checked_height(),
            Layout::Floating => Some(0),
        }
    }
}

/// Places a floating child inside `parent`, or gives `None` where that would leave the
/// coordinate range.
pub fn place_floating(parent: &Rect, child: &Rect) -> (placed: Option<Rect>)
    ensures
        placed == if floating_fits(*parent, *child) {
            Some(floating_placement(*parent, *child))
        } else {
            None
        },
{
    let w = match child.checked_width() {
        Some(w) => w,
        None => { return None; },
    };
    let h = match child.checked_height() {
        Some(h) => h,
        None => { return None; },
    };
    let x = match parent.lower.x.checked_add(child.lower.x) {
        Some(x) => x,
        None => { return None; },
    };
    let y = match parent.lower.y.checked_add(child.lower.y) {
        Some(y) => y,
        None => { return None; },
    };
    let far_x = match x.checked_add(w) {
        Some(far_x) => far_x,
        None => { return None; },
    };
    let far_y = match y.checked_add(h) {
        Some(far_y) => far_y,
        None => { return None; },
    };
    Some(Rect::new(Pos::new(x, y), Pos::new(far_x, far_y)))
}

/// The layout solver: partitions `parent` among children that ask for the areas `rects`, and
/// gives the area of each child, in order. Gives `None` where some placement would leave the
/// coordinate range.
pub fn place_children(layout: Layout, parent: Rect, rects: &[Rect]) -> (placed: Option<Vec<Rect>>)
    ensures
        placed is Some <==> layout_fits(layout, parent, rects@),
        placed matches Some(areas) ==> areas@ == placements(layout, parent, rects@),
{
    let count = rects.len();
    let mut areas: Vec<Rect> = Vec::new();
    if count == 0 {
        return Some(areas);
    }
    let tiling = match layout {
        Layout::Horizontal(Positioning::Tiling) | Layout::Vertical(Positioning::Tiling) => true,
        _ => false,
    };
    let last = match layout {
        Layout::Horizontal(Positioning::Last) | Layout::Vertical(Positioning::Last) => true,
        _ => false,
    };
    let share = if tiling {
        match layout.checked_extent(&parent) {
            Some(total) => tile(total, count),
            None => {
                assert(!placement_fits(layout, parent, rects@, 0));
                return None;
            },
        }
    } else {
        0
    };
    let mut cursor_at = layout.origin(&parent);
    proof {
        lemma_cursor_step(layout, parent, rects@, 0);
    }

    let mut i: usize = 0;
    while i < count
        invariant
            0 <= i <= count,
            count == rects@.len(),
            tiling == layout.is_tiling(),
            last == layout.is_last(),
            tiling ==> fits_px(layout.extent_of(parent)) && share == tile_extent(
                layout.extent_of(parent),
                count as int,
            ),
            layout != Layout::Floating ==> cursor_at == cursor(layout, parent, rects@, i as int),
            areas@.len() == i,
            forall|j: int| 0 <= j < i ==> #[trigger] placement_fits(layout, parent, rects@, j),
            forall|j: int|
                0 <= j < i ==> #[trigger] areas@[j] == placement(layout, parent, rects@, j),
        decreases count - i,
    {
        proof {
            lemma_cursor_step(layout, parent, rects@, i as int);
        }
        let child = &rects[i];
        let placed = match layout {
            Layout::Floating => place_floating(&parent, child),
            _ => {
                let step = if tiling {
                    Some(share)
                } else {
                    layout.checked_extent(child)
                };
                let next = match step {
                    Some(step) => if last {
                        cursor_at.checked_sub(step)
                    } else {
                        cursor_at.checked_add(step)
                    },
                    None => None,
                };
                match next {
                    Some(next) => {
                        let band = layout.band_between(&parent, cursor_at, next);
                        cursor_at = next;
                        Some(band)
                    },
                    None => None,
                }
            },
        };
        match placed {
            Some(area) => {
                assert(placement_fits(layout, parent, rects@, i as int));
                assert(area == placement(layout, parent, rects@, i as int));
                areas.push(area);
            },
            None => {
                assert(!placement_fits(layout, parent, rects@, i as int));
                return None;
            },
        }
        i = i + 1;
    }
    Some(areas)
}

/// Asks each widget for its area.
pub fn child_rects<W: Widget>(widgets: &[W]) -> (rects: Vec<Rect>)
    ensures
        rects@ == rects_of(widgets@),
{
    let mut rects: Vec<Rect> = Vec::new();
    let mut i: usize = 0;
    while i < widgets.len()
        invariant
            0 <= i <= widgets@.len(),
            rects@.len() == i,
            forall|j: int| 0 <= j < i ==> rects@[j] == (#[trigger] widgets@[j]).spec_rect(),
        decreases widgets@.len() - i,
    {
        rects.push(widgets[i].rect());
        i = i + 1;
    }
    rects
}

/// Decides whether the children of a widget can be redrawn: whether `redraw_children` may be
/// called on them.
pub fn children_can_redraw<V: View, W: InterpretedWidget<V>>(
    parent_layout: Layout,
    parent_rect: Rect,
    widgets: &[W],
) -> (ok: bool)
    ensures
        ok == children_redrawable::<V, W>(parent_layout, parent_rect, widgets@),
{
    let rects = child_rects(widgets);
    match place_children(parent_layout, parent_rect, rects.as_slice()) {
        Some(areas) => {
            let mut i: usize = 0;
            while i < widgets.len()
                invariant
                    0 <= i <= widgets@.len(),
                    rects@ == rects_of(widgets@),
                    areas@ == placements(parent_layout, parent_rect, rects@),
                    forall|j: int|
                        0 <= j < i ==> (#[trigger] widgets@[j]).redrawable(
                            placement(parent_layout, parent_rect, rects@, j),
                        ),
                decreases widgets@.len() - i,
            {
                if !widgets[i].can_redraw(areas[i]) {
                    return false;
                }
                i = i + 1;
            }
            true
        },
        None => false,
    }
}

/// Redraw the children widgets of a widget.
///
/// The layout solver gives each child its area inside the parent. The children are then
/// visited in order, and each draws itself into the view.
pub fn redraw_children<V: View, W: InterpretedWidget<V>>(
    parent_layout: Layout,
    parent_rect: Rect,
    widgets: &[W],
    view: &mut V,
)
    requires
        children_redrawable::<V, W>(parent_layout, parent_rect, widgets@),
    ensures
        final(view)@ == children_redrawn::<V, W>(
            parent_layout,
            parent_rect,
            widgets@,
            widgets@.len() as int,
            old(view)@,
        ),
{
    let ghost before = view@;
    let rects = child_rects(widgets);
    if let Some(areas) = place_children(parent_layout, parent_rect, rects.as_slice()) {
        let mut i: usize = 0;
        while i < widgets.len()
            invariant
                0 <= i <= widgets@.len(),
                rects@ == rects_of(widgets@),
                areas@ == placements(parent_layout, parent_rect, rects@),
                children_redrawable::<V, W>(parent_layout, parent_rect, widgets@),
                view@ == children_redrawn::<V, W>(
                    parent_layout,
                    parent_rect,
                    widgets@,
                    i as int,
                    before,
                ),
            decreases widgets@.len() - i,
        {
            widgets[i].redraw(areas[i], view);
            i = i + 1;
        }
    }
}

} // verus!
