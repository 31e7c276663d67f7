//! A retained-mode widget layer: a tree of layout containers and fill-rectangle leaves whose
//! pixel-space placements are solved top-down and handed to a view as draw-buffer entries.

pub mod geometry;
pub mod layout;
pub mod node;
pub mod view;
pub mod widget;

pub use node::WidgetNode;
pub use view::{ConsoleView, WidgetView, WidgetViewSt};
pub use widget::{
    Color, FillRectWidget, InterpretedWidget, Layout, Pos, Positioning, Px, Rect, RootWidget,
    Widget, WidgetContainer,
};
