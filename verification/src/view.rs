//! Views: the interpretations that widgets are redrawn into.

use vstd::prelude::*;

use crate::layout::{
    children_can_redraw,
    children_redrawable,
    children_redrawn,
    placement,
    rects_of,
    redraw_children,
};
use crate::widget::{Color, FillRectWidget, InterpretedWidget, Layout, Rect, RootWidget};

verus! {

/// What a widget view shows: the size of its frame and the areas to draw, oldest first.
pub struct Drawing {
    pub w: u32,
    pub h: u32,
    pub entries: Seq<(Rect, Color)>,
}

impl Drawing {
    /// The same frame with nothing to draw.
    pub open spec fn cleared(self) -> Drawing {
        Drawing { entries: Seq::empty(), ..self }
    }

    /// The same frame with one more area to draw.
    pub open spec fn pushed(self, rect: Rect, color: Color) -> Drawing {
        Drawing { entries: self.entries.push((rect, color)), ..self }
    }

    /// Whether `self` and `other` are drawings on frames of the same size.
    pub open spec fn same_frame(self, other: Drawing) -> bool {
        self.w == other.w && self.h == other.h
    }

    /// Whether every area to draw is a well-formed rectangle.
    pub open spec fn areas_wf(self) -> bool {
        forall|i: int| 0 <= i < self.entries.len() ==> (#[trigger] self.entries[i]).0.wf()
    }
}

/// Default widget interpretor state.
#[derive(Debug)]
pub struct WidgetViewSt {
    /// Width of the frame that the whole GUI is rendered into.
    pub w: u32,
    /// Height of the frame that the whole GUI is rendered into.
    pub h: u32,
    /// Buffer of rectangular areas to draw, in drawing order.
    pub fillrect_buffer: Vec<(Rect, Color)>,
}

impl View for WidgetViewSt {
    type V = Drawing;

    open spec fn view(&self) -> Drawing {
        Drawing { w: self.w, h: self.h, entries: self.fillrect_buffer@ }
    }
}

impl WidgetViewSt {
    /// The state of a view onto a `w` by `h` frame, with nothing to draw yet.
    pub fn new(w: u32, h: u32) -> (st: Self)
        ensures
            st@ == (Drawing { w, h, entries: Seq::empty() }),
    {
        WidgetViewSt { w, h, fillrect_buffer: Vec::new() }
    }
}

/// Default widget interpretor.
#[derive(Debug)]
pub struct WidgetView {
    pub state: WidgetViewSt,
}

impl View for WidgetView {
    type V = Drawing;

    open spec fn view(&self) -> Drawing {
        self.state@
    }
}

impl WidgetView {
    /// A view that draws into `st`.
    pub fn new(st: WidgetViewSt) -> (view: Self)
        ensures
            view.state == st,
    {
        WidgetView { state: st }
    }

    /// Gives back the state, with what has been buffered.
    pub fn into_state(self) -> (st: WidgetViewSt)
        ensures
            st == self.state,
    {
        self.state
    }

    /// Empties the buffer of areas to draw.
    pub fn clear_buffers(&mut self)
        ensures
            final(self)@ == old(self)@.cleared(),
    {
        self.state.fillrect_buffer.clear();
    }
}

impl<W: InterpretedWidget<WidgetView>> InterpretedWidget<WidgetView> for RootWidget<W> {
    open spec fn redrawable(&self, computed_rect: Rect) -> bool {
        children_redrawable::<WidgetView, W>(self.layout, self.rect, self.widgets@)
    }

    /// The buffer is emptied, then the children are redrawn in order into the container's own
    /// area, whatever area the container itself was given.
    open spec fn redrawn(&self, computed_rect: Rect, before: Drawing) -> Drawing {
        children_redrawn::<WidgetView, W>(
            self.layout,
            self.rect,
            self.widgets@,
            self.widgets@.len() as int,
            before.cleared(),
        )
    }

    fn can_redraw(&self, computed_rect: Rect) -> (ok: bool) {
        children_can_redraw(self.layout, self.rect, self.widgets.as_slice())
    }

    fn redraw(&self, computed_rect: Rect, view: &mut WidgetView) {
        // clear the previous render's buffers
        view.clear_buffers();
        redraw_children(self.layout, self.rect, self.widgets.as_slice(), view);
    }
}

impl InterpretedWidget<WidgetView> for FillRectWidget {
    open spec fn redrawable(&self, computed_rect: Rect) -> bool {
        true
    }

    /// One entry is appended to the buffer: the computed area with the widget's color.
    open spec fn redrawn(&self, computed_rect: Rect, before: Drawing) -> Drawing {
        before.pushed(computed_rect, self.color)
    }

    fn can_redraw(&self, computed_rect: Rect) -> (ok: bool) {
        true
    }

    fn redraw(&self, computed_rect: Rect, view: &mut WidgetView) {
        view.state.fillrect_buffer.push((computed_rect, self.color));
    }
}

/// The entries that the first `k` fill rectangles of a container leave in the buffer: for each,
/// its placement and its color.
pub open spec fn fill_entries(
    layout: Layout,
    parent: Rect,
    widgets: Seq<FillRectWidget>,
    k: int,
) -> Seq<(Rect, Color)> {
    Seq::new(
        k as nat,
        |i: int| (placement(layout, parent, rects_of(widgets), i), widgets[i].color),
    )
}

/// Redrawing the first `k` fill rectangles of a container appends their entries to the buffer,
/// in order.
pub proof fn lemma_fill_rects_appended(
    layout: Layout,
    parent: Rect,
    widgets: Seq<FillRectWidget>,
    k: int,
    before: Drawing,
)
    requires
        0 <= k <= widgets.len(),
    ensures
        children_redrawn::<WidgetView, FillRectWidget>(layout, parent, widgets, k, before) == (
        Drawing { entries: before.entries + fill_entries(layout, parent, widgets, k), ..before }),
    decreases k,
{
    if k > 0 {
        lemma_fill_rects_appended(layout, parent, widgets, k - 1, before);
        assert(fill_entries(layout, parent, widgets, k) == fill_entries(
            layout,
            parent,
            widgets,
            k - 1,
        ).push((placement(layout, parent, rects_of(widgets), k - 1), widgets[k - 1].color)));
        assert(before.entries + fill_entries(layout, parent, widgets, k) == (before.entries
            + fill_entries(layout, parent, widgets, k - 1)).push(
            (placement(layout, parent, rects_of(widgets), k - 1), widgets[k - 1].color),
        ));
    } else {
        assert(before.entries + fill_entries(layout, parent, widgets, k) == before.entries);
    }
}

/// A redraw of a container of fill rectangles leaves in the buffer exactly one entry for each
/// child, in order, whatever the buffer held before: the child's placement and its color.
pub proof fn lemma_fill_rects_buffered(
    root: RootWidget<FillRectWidget>,
    computed_rect: Rect,
    before: Drawing,
)
    ensures
        InterpretedWidget::<WidgetView>::redrawn(&root, computed_rect, before) == (Drawing {
            entries: fill_entries(
                root.layout,
                root.rect,
                root.widgets@,
                root.widgets@.len() as int,
            ),
            ..before
        }),
{
    lemma_fill_rects_appended(
        root.layout,
        root.rect,
        root.widgets@,
        root.widgets@.len() as int,
        before.cleared(),
    );
    assert(Seq::<(Rect, Color)>::empty() + fill_entries(
        root.layout,
        root.rect,
        root.widgets@,
        root.widgets@.len() as int,
    ) == fill_entries(root.layout, root.rect, root.widgets@, root.widgets@.len() as int));
}

/// A redraw of a container starts from an empty buffer: what it leaves does not depend on what
/// the buffer held before, only on the frame.
pub proof fn lemma_redraw_forgets_buffer<W: InterpretedWidget<WidgetView>>(
    root: RootWidget<W>,
    computed_rect: Rect,
    one: Drawing,
    other: Drawing,
)
    requires
        one.same_frame(other),
    ensures
        InterpretedWidget::<WidgetView>::redrawn(&root, computed_rect, one) == InterpretedWidget::<
            WidgetView,
        >::redrawn(&root, computed_rect, other),
{
    assert(one.cleared() == other.cleared());
}

/// A view that draws nothing: redrawing into it only walks the widgets.
#[derive(Debug)]
pub struct ConsoleView;

impl View for ConsoleView {
    type V = ();

    open spec fn view(&self) -> () {
        ()
    }
}

impl<W: InterpretedWidget<ConsoleView>> InterpretedWidget<ConsoleView> for RootWidget<W> {
    open spec fn redrawable(&self, computed_rect: Rect) -> bool {
        children_redrawable::<ConsoleView, W>(self.layout, self.rect, self.widgets@)
    }

    open spec fn redrawn(&self, computed_rect: Rect, before: ()) -> () {
        children_redrawn::<ConsoleView, W>(
            self.layout,
            self.rect,
            self.widgets@,
            self.widgets@.len() as int,
            before,
        )
    }

    fn can_redraw(&self, computed_rect: Rect) -> (ok: bool) {
        children_can_redraw(self.layout, self.rect, self.widgets.as_slice())
    }

    fn redraw(&self, computed_rect: Rect, view: &mut ConsoleView) {
        redraw_children(self.layout, self.rect, self.widgets.as_slice(), view);
    }
}

impl InterpretedWidget<ConsoleView> for FillRectWidget {
    open spec fn redrawable(&self, computed_rect: Rect) -> bool {
        true
    }

    open spec fn redrawn(&self, computed_rect: Rect, before: ()) -> () {
        before
    }

    fn can_redraw(&self, computed_rect: Rect) -> (ok: bool) {
        true
    }

    fn redraw(&self, computed_rect: Rect, view: &mut ConsoleView) {
    }
}

} // verus!
