use gui::geometry::{Pos, Rect};
use gui::layout::{children_can_redraw, redraw_children};
use gui::view::{ConsoleView, WidgetView, WidgetViewSt};
use gui::widget::{
    Color, FillRectWidget, InterpretedWidget, Layout, Positioning, RootWidget, Widget,
    WidgetContainer,
};

fn rect(x0: i32, y0: i32, x1: i32, y1: i32) -> Rect {
    Rect { lower: Pos { x: x0, y: y0 }, upper: Pos { x: x1, y: y1 } }
}

fn red() -> Color {
    Color::new(0x3f80_0000, 0, 0)
}

fn green() -> Color {
    Color::new(0, 0x3f80_0000, 0)
}

fn blue() -> Color {
    Color::new(0, 0, 0x3f80_0000)
}

fn leaf(name: &str, w: i32, h: i32, color: Color) -> FillRectWidget {
    FillRectWidget::new(name, Rect::new_wh(Pos::new(0, 0), w, h), color)
}

fn three_leaves(layout: Layout) -> RootWidget<FillRectWidget> {
    let mut root = RootWidget::new(100, 60, layout);
    root.add_widget(leaf("a", 30, 10, red()));
    root.add_widget(leaf("b", 20, 25, green()));
    root.add_widget(leaf("c", 40, 15, blue()));
    root
}

fn draw(root: &RootWidget<FillRectWidget>, st: WidgetViewSt) -> WidgetViewSt {
    let mut view = WidgetView::new(st);
    assert!(InterpretedWidget::<WidgetView>::can_redraw(root, root.rect()));
    root.redraw(root.rect(), &mut view);
    view.into_state()
}

#[test]
fn color_keeps_its_channels() {
    let c = Color::new(1, 2, 3);
    assert_eq!((c.red, c.green, c.blue), (1, 2, 3));
}

#[test]
fn fill_rect_widget_keeps_what_it_was_made_of() {
    let w = FillRectWidget::new("panel", rect(1, 2, 3, 4), green());
    assert_eq!(w.name(), "panel");
    assert_eq!(w.rect(), rect(1, 2, 3, 4));
    assert_eq!(w.rect, rect(1, 2, 3, 4));
    assert_eq!(w.color, green());
}

#[test]
fn fill_rect_widget_may_have_an_empty_name() {
    let w = FillRectWidget::new("", rect(0, 0, 0, 0), red());
    assert_eq!(w.name(), "");
}

#[test]
fn root_widget_starts_empty_at_the_origin() {
    let root: RootWidget<FillRectWidget> = RootWidget::new(640, 480, Layout::Floating);
    assert_eq!(root.rect, rect(0, 0, 640, 480));
    assert_eq!(root.rect(), rect(0, 0, 640, 480));
    assert_eq!(root.layout, Layout::Floating);
    assert!(root.widgets.is_empty());
    assert_eq!(root.name(), "");
}

#[test]
fn root_widget_with_negative_extents_is_normalized() {
    let root: RootWidget<FillRectWidget> =
        RootWidget::new(-10, -20, Layout::Horizontal(Positioning::First));
    assert_eq!(root.rect, rect(-10, -20, 0, 0));
}

#[test]
fn root_widget_of_the_largest_extents() {
    let root: RootWidget<FillRectWidget> = RootWidget::new(i32::MAX, i32::MIN, Layout::Floating);
    assert_eq!(root.rect, rect(0, i32::MIN, i32::MAX, 0));
}

#[test]
fn add_widget_appends_in_order() {
    let mut root = RootWidget::new(10, 10, Layout::Vertical(Positioning::Tiling));
    root.add_widget(leaf("a", 1, 1, red()));
    root.add_widget(leaf("b", 2, 2, green()));
    root.add_fill_rect(leaf("c", 3, 3, blue()));
    let names: Vec<String> = root.widgets.iter().map(|w| w.name()).collect();
    assert_eq!(names, vec!["a", "b", "c"]);
    assert_eq!(root.rect, rect(0, 0, 10, 10));
    assert_eq!(root.layout, Layout::Vertical(Positioning::Tiling));
}

#[test]
fn view_state_starts_with_an_empty_buffer() {
    let st = WidgetViewSt::new(800, 600);
    assert_eq!((st.w, st.h), (800, 600));
    assert!(st.fillrect_buffer.is_empty());
}

#[test]
fn view_hands_its_state_back() {
    let mut st = WidgetViewSt::new(8, 6);
    st.fillrect_buffer.push((rect(0, 0, 1, 1), red()));
    let st = WidgetView::new(st).into_state();
    assert_eq!((st.w, st.h), (8, 6));
    assert_eq!(st.fillrect_buffer, vec![(rect(0, 0, 1, 1), red())]);
}

#[test]
fn clear_buffers_empties_the_buffer_only() {
    let mut st = WidgetViewSt::new(8, 6);
    st.fillrect_buffer.push((rect(0, 0, 1, 1), red()));
    let mut view = WidgetView::new(st);
    view.clear_buffers();
    assert!(view.state.fillrect_buffer.is_empty());
    assert_eq!((view.state.w, view.state.h), (8, 6));
}

#[test]
fn a_fill_rect_appends_its_computed_area_and_color() {
    let w = leaf("a", 30, 10, red());
    let mut view = WidgetView::new(WidgetViewSt::new(100, 100));
    w.redraw(rect(5, 6, 7, 8), &mut view);
    w.redraw(rect(1, 1, 2, 2), &mut view);
    assert_eq!(
        view.state.fillrect_buffer,
        vec![(rect(5, 6, 7, 8), red()), (rect(1, 1, 2, 2), red())]
    );
}

#[test]
fn a_fill_rect_can_always_be_redrawn() {
    let w = leaf("a", 30, 10, red());
    let anywhere = rect(i32::MIN, i32::MIN, i32::MAX, i32::MAX);
    assert!(InterpretedWidget::<WidgetView>::can_redraw(&w, anywhere));
    assert!(InterpretedWidget::<ConsoleView>::can_redraw(&w, anywhere));
}

#[test]
fn redraw_horizontal_first() {
    let root = three_leaves(Layout::Horizontal(Positioning::First));
    let st = draw(&root, WidgetViewSt::new(100, 60));
    assert_eq!(
        st.fillrect_buffer,
        vec![
            (rect(0, 0, 30, 60), red()),
            (rect(30, 0, 50, 60), green()),
            (rect(50, 0, 90, 60), blue()),
        ]
    );
}

#[test]
fn redraw_horizontal_last() {
    let root = three_leaves(Layout::Horizontal(Positioning::Last));
    let st = draw(&root, WidgetViewSt::new(100, 60));
    assert_eq!(
        st.fillrect_buffer,
        vec![
            (rect(70, 0, 100, 60), red()),
            (rect(50, 0, 70, 60), green()),
            (rect(10, 0, 50, 60), blue()),
        ]
    );
}

#[test]
fn redraw_horizontal_tiling() {
    let root = three_leaves(Layout::Horizontal(Positioning::Tiling));
    let st = draw(&root, WidgetViewSt::new(100, 60));
    assert_eq!(
        st.fillrect_buffer,
        vec![
            (rect(0, 0, 33, 60), red()),
            (rect(33, 0, 66, 60), green()),
            (rect(66, 0, 99, 60), blue()),
        ]
    );
}

#[test]
fn redraw_vertical_first() {
    let root = three_leaves(Layout::Vertical(Positioning::First));
    let st = draw(&root, WidgetViewSt::new(100, 60));
    assert_eq!(
        st.fillrect_buffer,
        vec![
            (rect(0, 0, 100, 10), red()),
            (rect(0, 10, 100, 35), green()),
            (rect(0, 35, 100, 50), blue()),
        ]
    );
}

#[test]
fn redraw_vertical_last() {
    let root = three_leaves(Layout::Vertical(Positioning::Last));
    let st = draw(&root, WidgetViewSt::new(100, 60));
    assert_eq!(
        st.fillrect_buffer,
        vec![
            (rect(0, 50, 100, 60), red()),
            (rect(0, 25, 100, 50), green()),
            (rect(0, 10, 100, 25), blue()),
        ]
    );
}

#[test]
fn redraw_vertical_tiling() {
    let root = three_leaves(Layout::Vertical(Positioning::Tiling));
    let st = draw(&root, WidgetViewSt::new(100, 60));
    assert_eq!(
        st.fillrect_buffer,
        vec![
            (rect(0, 0, 100, 20), red()),
            (rect(0, 20, 100, 40), green()),
            (rect(0, 40, 100, 60), blue()),
        ]
    );
}

#[test]
fn redraw_floating() {
    let mut root = RootWidget::new(100, 60, Layout::Floating);
    root.rect = rect(10, 20, 110, 80);
    root.add_widget(FillRectWidget::new("a", Rect::new_wh(Pos::new(5, 5), 20, 25), red()));
    root.add_widget(FillRectWidget::new("b", Rect::new_wh(Pos::new(0, 0), 40, 15), green()));
    let st = draw(&root, WidgetViewSt::new(100, 60));
    assert_eq!(
        st.fillrect_buffer,
        vec![(rect(15, 25, 35, 50), red()), (rect(10, 20, 50, 35), green())]
    );
}

#[test]
fn redraw_of_an_empty_root_leaves_an_empty_buffer() {
    let root: RootWidget<FillRectWidget> =
        RootWidget::new(100, 60, Layout::Vertical(Positioning::Tiling));
    let st = draw(&root, WidgetViewSt::new(100, 60));
    assert!(st.fillrect_buffer.is_empty());
}

#[test]
fn redraw_discards_what_the_buffer_held() {
    let mut st = WidgetViewSt::new(100, 60);
    st.fillrect_buffer.push((rect(1, 2, 3, 4), blue()));
    let root = three_leaves(Layout::Horizontal(Positioning::First));
    let once = draw(&root, st);
    let twice = draw(&root, WidgetViewSt::new(100, 60));
    assert_eq!(once.fillrect_buffer.len(), 3);
    assert_eq!(once.fillrect_buffer, twice.fillrect_buffer);
    let again = draw(&root, once);
    assert_eq!(again.fillrect_buffer, twice.fillrect_buffer);
    assert_eq!((again.w, again.h), (100, 60));
}

#[test]
fn root_ignores_the_area_it_is_given() {
    let root = three_leaves(Layout::Horizontal(Positioning::First));
    let mut view = WidgetView::new(WidgetViewSt::new(100, 60));
    root.redraw(rect(500, 500, 501, 501), &mut view);
    assert_eq!(view.state.fillrect_buffer[0], (rect(0, 0, 30, 60), red()));
}

#[test]
fn a_nested_root_clears_what_its_siblings_drew() {
    let mut left = RootWidget::new(50, 60, Layout::Vertical(Positioning::First));
    left.add_widget(leaf("a", 30, 10, red()));
    let mut right = RootWidget::new(40, 30, Layout::Horizontal(Positioning::Last));
    right.add_widget(leaf("b", 20, 25, green()));
    right.add_widget(leaf("c", 5, 5, blue()));
    let mut outer = RootWidget::new(100, 60, Layout::Horizontal(Positioning::Tiling));
    outer.add_widget(left);
    outer.add_widget(right);
    let mut view = WidgetView::new(WidgetViewSt::new(100, 60));
    assert!(InterpretedWidget::<WidgetView>::can_redraw(&outer, outer.rect()));
    outer.redraw(outer.rect(), &mut view);
    assert_eq!(
        view.state.fillrect_buffer,
        vec![(rect(20, 0, 40, 30), green()), (rect(15, 0, 20, 30), blue())]
    );
}

#[test]
fn redraw_children_appends_without_clearing() {
    let kids = vec![leaf("a", 30, 10, red()), leaf("b", 20, 25, green())];
    let mut st = WidgetViewSt::new(100, 60);
    st.fillrect_buffer.push((rect(1, 2, 3, 4), blue()));
    let mut view = WidgetView::new(st);
    let parent = rect(10, 20, 110, 80);
    let layout = Layout::Vertical(Positioning::Last);
    assert!(children_can_redraw::<WidgetView, _>(layout, parent, &kids));
    redraw_children(layout, parent, &kids, &mut view);
    assert_eq!(
        view.state.fillrect_buffer,
        vec![
            (rect(1, 2, 3, 4), blue()),
            (rect(10, 70, 110, 80), red()),
            (rect(10, 45, 110, 70), green()),
        ]
    );
}

#[test]
fn redraw_children_of_nothing_changes_nothing() {
    let kids: Vec<FillRectWidget> = Vec::new();
    let mut st = WidgetViewSt::new(100, 60);
    st.fillrect_buffer.push((rect(1, 2, 3, 4), blue()));
    let mut view = WidgetView::new(st);
    redraw_children(Layout::Floating, rect(0, 0, 1, 1), &kids, &mut view);
    assert_eq!(view.state.fillrect_buffer, vec![(rect(1, 2, 3, 4), blue())]);
}

#[test]
fn a_root_whose_layout_overflows_cannot_be_redrawn() {
    let mut root = three_leaves(Layout::Horizontal(Positioning::First));
    root.rect = rect(i32::MAX - 40, 0, i32::MAX, 10);
    assert!(!InterpretedWidget::<WidgetView>::can_redraw(&root, root.rect()));
    assert!(!InterpretedWidget::<ConsoleView>::can_redraw(&root, root.rect()));
    assert!(!children_can_redraw::<WidgetView, _>(root.layout, root.rect, &root.widgets));
    root.layout = Layout::Vertical(Positioning::First);
    assert!(InterpretedWidget::<WidgetView>::can_redraw(&root, root.rect()));
}

#[test]
fn a_root_cannot_be_redrawn_if_a_child_cannot() {
    let mut inner = three_leaves(Layout::Horizontal(Positioning::Last));
    inner.rect = rect(i32::MIN, 0, i32::MIN + 40, 10);
    let mut outer = RootWidget::new(100, 60, Layout::Vertical(Positioning::Tiling));
    outer.add_widget(three_leaves(Layout::Floating));
    outer.add_widget(inner);
    assert!(!InterpretedWidget::<WidgetView>::can_redraw(&outer, outer.rect()));
    outer.widgets.pop();
    assert!(InterpretedWidget::<WidgetView>::can_redraw(&outer, outer.rect()));
}

#[test]
fn console_view_walks_the_tree() {
    let mut outer = RootWidget::new(100, 60, Layout::Vertical(Positioning::First));
    outer.add_widget(three_leaves(Layout::Horizontal(Positioning::Tiling)));
    outer.add_widget(three_leaves(Layout::Floating));
    let mut view = ConsoleView;
    assert!(InterpretedWidget::<ConsoleView>::can_redraw(&outer, outer.rect()));
    outer.redraw(outer.rect(), &mut view);
    leaf("a", 1, 1, red()).redraw(rect(0, 0, 1, 1), &mut view);
}

#[test]
fn the_crate_root_names_the_widget_types() {
    let mut root: gui::RootWidget<gui::FillRectWidget> =
        gui::RootWidget::new(10, 10, gui::Layout::Horizontal(gui::Positioning::First));
    let area = gui::Rect::new_wh(gui::Pos::new(0, 0), 4, 4);
    root.add_fill_rect(gui::FillRectWidget::new("a", area, red()));
    let mut view = gui::ConsoleView;
    assert!(gui::InterpretedWidget::<gui::ConsoleView>::can_redraw(&root, root.rect()));
    root.redraw(root.rect(), &mut view);
    assert_eq!(root.widgets.len(), 1);
}
