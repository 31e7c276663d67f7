//! Widget trees of any shape.

use vstd::prelude::*;

use crate::layout::{
    child_rects,
    children_redrawn,
    layout_fits,
    place_children,
    placement,
    placements,
    rects_of,
};
use crate::view::{ConsoleView, Drawing, WidgetView};
use crate::widget::{FillRectWidget, InterpretedWidget, Layout, Rect, RootWidget, Widget};

verus! {

/// A node of a widget tree: a fill rectangle, or a container of further nodes. A container of
/// nodes can hold fill rectangles and containers side by side, to any depth.
#[derive(Debug)]
pub enum WidgetNode {
    FillRect(FillRectWidget),
    Root(RootWidget<WidgetNode>),
}

impl Widget for WidgetNode {
    open spec fn spec_name(&self) -> Seq<char> {
        match self {
            WidgetNode::FillRect(leaf) => leaf.spec_name(),
            WidgetNode::Root(root) => root.spec_name(),
        }
    }

    open spec fn spec_rect(&self) -> Rect {
        match self {
            WidgetNode::FillRect(leaf) => leaf.spec_rect(),
            WidgetNode::Root(root) => root.spec_rect(),
        }
    }

    fn name(&self) -> (name: String) {
        match self {
            WidgetNode::FillRect(leaf) => leaf.name(),
            WidgetNode::Root(root) => root.name(),
        }
    }

    fn rect(&self) -> (rect: Rect) {
        match self {
            WidgetNode::FillRect(leaf) => leaf.rect(),
            WidgetNode::Root(root) => root.rect(),
        }
    }
}

/// Whether each of `nodes` is a smaller tree than `whole`: what lets a walk of the tree end.
pub open spec fn all_below(whole: &WidgetNode, nodes: Seq<WidgetNode>) -> bool {
    forall|i: int| 0 <= i < nodes.len() ==> decreases_to!(whole => #[trigger] nodes[i])
}

/// What a widget view shows after the first `k` of `nodes` have been redrawn one after the
/// other, each into its placement, when it showed `before`.
pub open spec fn nodes_drawn(
    layout: Layout,
    parent: Rect,
    nodes: Seq<WidgetNode>,
    k: int,
    before: Drawing,
) -> Drawing
    decreases nodes, k,
{
    if 0 < k <= nodes.len() {
        nodes[k - 1].drawn(
            placement(layout, parent, rects_of(nodes), k - 1),
            nodes_drawn(layout, parent, nodes, k - 1, before),
        )
    } else {
        before
    }
}

impl WidgetNode {
    /// Whether the whole tree below the node can be laid out inside the coordinate range.
    pub open spec fn placeable(&self) -> bool
        decreases self,
    {
        match self {
            WidgetNode::FillRect(_) => true,
            WidgetNode::Root(root) => {
                &&& layout_fits(root.layout, root.rect, rects_of(root.widgets@))
                &&& forall|i: int|
                    0 <= i < root.widgets@.len() ==> (#[trigger] root.widgets@[i]).placeable()
            },
        }
    }

    /// What a widget view shows after a redraw of the node into `computed_rect`, when it
    /// showed `before`. A fill rectangle appends its entry. A container empties the buffer,
    /// whatever it holds, and lets its children draw in order, each into its placement inside
    /// the container's own area.
    pub open spec fn drawn(&self, computed_rect: Rect, before: Drawing) -> Drawing
        decreases self, 0int,
    {
        match self {
            WidgetNode::FillRect(leaf) => before.pushed(computed_rect, leaf.color),
            WidgetNode::Root(root) => nodes_drawn(
                root.layout,
                root.rect,
                root.widgets@,
                root.widgets@.len() as int,
                before.cleared(),
            ),
        }
    }

    /// Decides `placeable`.
    pub fn can_place(&self) -> (ok: bool)
        ensures
            ok == self.placeable(),
        decreases self,
    {
        match self {
            WidgetNode::FillRect(_) => true,
            WidgetNode::Root(root) => {
                assert(all_below(self, root.widgets@));
                let rects = child_rects(root.widgets.as_slice());
                if place_children(root.layout, root.rect, rects.as_slice()).is_none() {
                    return false;
                }
                let mut i: usize = 0;
                while i < root.widgets.len()
                    invariant
                        0 <= i <= root.widgets@.len(),
                        *self == WidgetNode::Root(*root),
                        layout_fits(root.layout, root.rect, rects_of(root.widgets@)),
                        all_below(self, root.widgets@),
                        forall|j: int| 0 <= j < i ==> (#[trigger] root.widgets@[j]).placeable(),
                    decreases root.widgets@.len() - i,
                {
                    if !root.widgets[i].can_place() {
                        assert(!root.widgets@[i as int].placeable());
                        return false;
                    }
                    i = i + 1;
                }
                true
            },
        }
    }
}

impl InterpretedWidget<WidgetView> for WidgetNode {
    open spec fn redrawable(&self, computed_rect: Rect) -> bool {
        self.placeable()
    }

    open spec fn redrawn(&self, computed_rect: Rect, before: Drawing) -> Drawing {
        self.drawn(computed_rect, before)
    }

    fn can_redraw(&self, computed_rect: Rect) -> (ok: bool) {
        self.can_place()
    }

    fn redraw(&self, computed_rect: Rect, view: &mut WidgetView)
        decreases self,
    {
        match self {
            WidgetNode::FillRect(leaf) => leaf.redraw(computed_rect, view),
            WidgetNode::Root(root) => {
                assert(all_below(self, root.widgets@));
                // clear the previous render's buffers
                view.clear_buffers();
                let ghost cleared = view@;
                let rects = child_rects(root.widgets.as_slice());
                if let Some(areas) = place_children(root.layout, root.rect, rects.as_slice()) {
                    let mut i: usize = 0;
                    while i < root.widgets.len()
                        invariant
                            0 <= i <= root.widgets@.len(),
                            rects@ == rects_of(root.widgets@),
                            areas@ == placements(root.layout, root.rect, rects@),
                            all_below(self, root.widgets@),
                            forall|j: int|
                                0 <= j < root.widgets@.len() ==> (#[trigger] root.widgets@[j])
                                    .placeable(),
                            view@ == nodes_drawn(
                                root.layout,
                                root.rect,
                                root.widgets@,
                                i as int,
                                cleared,
                            ),
                        decreases root.widgets@.len() - i,
                    {
                        root.widgets[i].redraw(areas[i], view);
                        i = i + 1;
                    }
                }
            },
        }
    }
}

/// The children of a container of nodes leave the view as `nodes_drawn` says.
pub proof fn lemma_children_drawn(
    layout: Layout,
    parent: Rect,
    nodes: Seq<WidgetNode>,
    k: int,
    before: Drawing,
)
    requires
        0 <= k <= nodes.len(),
    ensures
        children_redrawn::<WidgetView, WidgetNode>(layout, parent, nodes, k, before) == nodes_drawn(
            layout,
            parent,
            nodes,
            k,
            before,
        ),
    decreases k,
{
    if k > 0 {
        lemma_children_drawn(layout, parent, nodes, k - 1, before);
    }
}

/// A container of nodes is redrawn in the same way whether it stands alone or as a node of a
/// tree: it can be redrawn in the same cases, and leaves the same view.
pub proof fn lemma_root_as_node(root: RootWidget<WidgetNode>, computed_rect: Rect, before: Drawing)
    ensures
        InterpretedWidget::<WidgetView>::redrawable(&root, computed_rect) == WidgetNode::Root(
            root,
        ).placeable(),
        InterpretedWidget::<WidgetView>::redrawn(&root, computed_rect, before) == WidgetNode::Root(
            root,
        ).drawn(computed_rect, before),
{
    lemma_children_drawn(
        root.layout,
        root.rect,
        root.widgets@,
        root.widgets@.len() as int,
        before.cleared(),
    );
}

/// Redrawing the first `k` of `nodes` keeps the size of the frame, and adds only well-formed
/// areas to the buffer.
pub proof fn lemma_nodes_drawn_sound(
    layout: Layout,
    parent: Rect,
    nodes: Seq<WidgetNode>,
    k: int,
    before: Drawing,
)
    requires
        0 <= k <= nodes.len(),
        before.areas_wf(),
    ensures
        nodes_drawn(layout, parent, nodes, k, before).same_frame(before),
        nodes_drawn(layout, parent, nodes, k, before).areas_wf(),
    decreases nodes, k,
{
    if k > 0 {
        lemma_nodes_drawn_sound(layout, parent, nodes, k - 1, before);
        lemma_drawn_sound(
            nodes[k - 1],
            placement(layout, parent, rects_of(nodes), k - 1),
            nodes_drawn(layout, parent, nodes, k - 1, before),
        );
    }
}

/// A redraw of a tree keeps the size of the frame. Into a well-formed area, it leaves only
/// well-formed areas in the buffer.
pub proof fn lemma_drawn_sound(node: WidgetNode, computed_rect: Rect, before: Drawing)
    requires
        computed_rect.wf(),
        before.areas_wf(),
    ensures
        node.drawn(computed_rect, before).same_frame(before),
        node.drawn(computed_rect, before).areas_wf(),
    decreases node, 0int,
{
    match node {
        WidgetNode::FillRect(_) => {},
        WidgetNode::Root(root) => {
            lemma_nodes_drawn_sound(
                root.layout,
                root.rect,
                root.widgets@,
                root.widgets@.len() as int,
                before.cleared(),
            );
        },
    }
}

/// Redrawing a tree twice leaves what redrawing it once leaves, where the tree is a container.
pub proof fn lemma_redraw_twice(root: RootWidget<WidgetNode>, computed_rect: Rect, before: Drawing)
    ensures
        WidgetNode::Root(root).drawn(
            computed_rect,
            WidgetNode::Root(root).drawn(computed_rect, before),
        ) == WidgetNode::Root(root).drawn(computed_rect, before),
{
    let tree = WidgetNode::Root(root);
    lemma_nodes_drawn_sound(
        root.layout,
        root.rect,
        root.widgets@,
        root.widgets@.len() as int,
        before.cleared(),
    );
    assert(tree.drawn(computed_rect, before).cleared() == before.cleared());
}

impl InterpretedWidget<ConsoleView> for WidgetNode {
    open spec fn redrawable(&self, computed_rect: Rect) -> bool {
        self.placeable()
    }

    open spec fn redrawn(&self, computed_rect: Rect, before: ()) -> () {
        before
    }

    fn can_redraw(&self, computed_rect: Rect) -> (ok: bool) {
        self.can_place()
    }

    fn redraw(&self, computed_rect: Rect, view: &mut ConsoleView)
        decreases self,
    {
        match self {
            WidgetNode::FillRect(leaf) => leaf.redraw(computed_rect, view),
            WidgetNode::Root(root) => {
                assert(all_below(self, root.widgets@));
                let rects = child_rects(root.widgets.as_slice());
                if let Some(areas) = place_children(root.layout, root.rect, rects.as_slice()) {
                    let mut i: usize = 0;
                    while i < root.widgets.len()
                        invariant
                            0 <= i <= root.widgets@.len(),
                            areas@.len() == root.widgets@.len(),
                            all_below(self, root.widgets@),
                            forall|j: int|
                                0 <= j < root.widgets@.len() ==> (#[trigger] root.widgets@[j])
                                    .placeable(),
                        decreases root.widgets@.len() - i,
                    {
                        root.widgets[i].redraw(areas[i], view);
                        i = i + 1;
                    }
                }
            },
        }
    }
}

} // verus!
