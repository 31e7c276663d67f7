//! Widget data: layout policies, colors, the widget traits, and the two stock widgets.

use vstd::prelude::*;

pub use crate::geometry::{Pos, Px, Rect};

verus! {

/// How a container distributes its area among its children.
#[derive(Clone, Copy, Debug, PartialEq, Eq, Structural)]
pub enum Layout {
    /// Children stand side by side and span the container's height.
    Horizontal(Positioning),
    /// Children stand one below the other and span the container's width.
    Vertical(Positioning),
    /// Each child keeps its own extents and sits at its own offset from the container's lower
    /// point.
    Floating,
}

/// Where along the stacking axis the children of a container go.
#[derive(Clone, Copy, Debug, PartialEq, Eq, Structural)]
pub enum Positioning {
    /// Packed from the container's lower edge, each child with its own extent.
    First,
    /// Packed from the container's upper edge, each child with its own extent.
    Last,
    /// Packed from the lower edge, every child with the same share of the container's extent.
    Tiling,
}

/// An opaque three-channel color. Each channel carries the bit pattern of a single-precision
/// intensity; the widget layer passes colors on and never looks inside.
#[derive(Clone, Copy, Debug, PartialEq, Eq, Structural)]
pub struct Color {
    pub red: u32,
    pub green: u32,
    pub blue: u32,
}

impl Color {
    /// The color with the given channel bit patterns.
    pub fn new(red: u32, green: u32, blue: u32) -> (c: Color)
        ensures
            c == (Color { red, green, blue }),
    {
        Color { red, green, blue }
    }
}

/// Class of widgets.
pub trait Widget {
    /// The widget's name, as a sequence of characters.
    spec fn spec_name(&self) -> Seq<char>;

    /// The area the widget asks for.
    spec fn spec_rect(&self) -> Rect;

    /// The widget's name; a widget without a name has the empty one.
    fn name(&self) -> (name: String)
        ensures
            name@ == self.spec_name(),
    ;

    /// The area the widget asks for. What it gets is up to the layout of its container.
    fn rect(&self) -> (rect: Rect)
        ensures
            rect == self.spec_rect(),
    ;
}

/// Class of widget interpretors.
///
/// As-is, a widget is not a usable object because it lacks interpretation. For instance, having
/// a *slider* without a way to render it or treat events is plain useless. This trait solves
/// that by providing interpretation (`V`) to a widget.
///
/// What a redraw does is stated over the view's model, `V::V`.
pub trait InterpretedWidget<V: View>: Widget {
    /// Whether the widget can be redrawn into `computed_rect` without leaving the coordinate
    /// range.
    spec fn redrawable(&self, computed_rect: Rect) -> bool;

    /// What the view shows after the widget has been redrawn into `computed_rect`, when it
    /// showed `before`.
    spec fn redrawn(&self, computed_rect: Rect, before: V::V) -> V::V;

    /// Decides `redrawable`.
    fn can_redraw(&self, computed_rect: Rect) -> (ok: bool)
        ensures
            ok == self.redrawable(computed_rect),
    ;

    /// Redraws the widget into the area that its container computed for it.
    fn redraw(&self, computed_rect: Rect, view: &mut V)
        requires
            self.redrawable(computed_rect),
        ensures
            final(view)@ == self.redrawn(computed_rect, old(view)@),
    ;
}

/// Class of widgets that can contain other widgets, all of the type `W`.
///
/// In order to be redrawn with their container, those widgets must be interpreted.
pub trait WidgetContainer<W>: Widget {
    /// The contained widgets, in the order in which they were added.
    spec fn children(&self) -> Seq<W>;

    /// Appends `widget` to the contained widgets.
    fn add_widget(&mut self, widget: W)
        ensures
            final(self).children() == old(self).children().push(widget),
            final(self).spec_rect() == old(self).spec_rect(),
            final(self).spec_name() == old(self).spec_name(),
    ;
}

/// A simple widget representing a colored rectangular area.
#[derive(Debug)]
pub struct FillRectWidget {
    pub name: String,
    pub color: Color,
    pub rect: Rect,
}

impl FillRectWidget {
    /// A fill rectangle called `name` that asks for the area `rect`.
    pub fn new(name: &str, rect: Rect, color: Color) -> (widget: Self)
        ensures
            widget.name@ == name@,
            widget.rect == rect,
            widget.color == color,
    {
        FillRectWidget { name: name.to_owned(), color, rect }
    }
}

impl Widget for FillRectWidget {
    open spec fn spec_name(&self) -> Seq<char> {
        self.name@
    }

    open spec fn spec_rect(&self) -> Rect {
        self.rect
    }

    fn name(&self) -> (name: String) {
        self.name.clone()
    }

    fn rect(&self) -> (rect: Rect) {
        self.rect
    }
}

/// “Entry point” of widgets: a container that lays out children of the type `W`.
#[derive(Debug)]
pub struct RootWidget<W> {
    pub rect: Rect,
    pub layout: Layout,
    pub widgets: Vec<W>,
}

impl<W> RootWidget<W> {
    /// An empty container `w` wide and `h` high, anchored at the origin.
    pub fn new(w: Px, h: Px, layout: Layout) -> (root: Self)
        ensures
            root.rect == Rect::spanning(Pos { x: 0, y: 0 }, Pos { x: w, y: h }),
            root.rect.wf(),
            root.layout == layout,
            root.widgets@ == Seq::<W>::empty(),
    {
        RootWidget { rect: Rect::new_wh(Pos::new(0, 0), w, h), layout, widgets: Vec::new() }
    }

    /// Appends a child; the same as `add_widget`.
    pub fn add_fill_rect(&mut self, widget: W)
        ensures
            final(self).widgets@ == old(self).widgets@.push(widget),
            final(self).rect == old(self).rect,
            final(self).layout == old(self).layout,
    {
        self.widgets.push(widget)
    }
}

impl<W> Widget for RootWidget<W> {
    open spec fn spec_name(&self) -> Seq<char> {
        Seq::empty()
    }

    open spec fn spec_rect(&self) -> Rect {
        self.rect
    }

    fn name(&self) -> (name: String) {
        String::new()
    }

    fn rect(&self) -> (rect: Rect) {
        self.rect
    }
}

impl<W> WidgetContainer<W> for RootWidget<W> {
    open spec fn children(&self) -> Seq<W> {
        self.widgets@
    }

    fn add_widget(&mut self, widget: W)
        ensures
            final(self).layout == old(self).layout,
    {
        self.widgets.push(widget);
    }
}

} // verus!
