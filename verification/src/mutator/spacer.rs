//! Frames that only take up room.
use crate::intermediate_node::length::{spec_add, Length, LengthView};
use crate::intermediate_node::{
    lemma_frame_view, FlexDirection, IntermediateNode, IntermediateNodeType, NodeView,
};
use crate::mutator::grows;
use vstd::prelude::*;

verus! {

/// Whether `node` is a frame that holds and shows nothing and does not grow:
/// no children, background, box shadow, stroke or link, and no flex-grow
/// other than zero.
pub open spec fn is_spacer(node: NodeView) -> bool {
    &&& node.node_type is Frame
    &&& node.children().len() == 0
    &&& !grows(node.location.flex_grow)
    &&& node.frame_appearance.background.is_none()
    &&& node.frame_appearance.box_shadow.is_none()
    &&& node.frame_appearance.stroke.is_none()
    &&& node.href.is_none()
}

/// The width of an empty node: what it sets, else its paddings to the right
/// and to the left.
pub open spec fn spacer_width(node: NodeView) -> LengthView {
    match node.location.width {
        Some(w) => w,
        None => spec_add(node.location.padding[1], node.location.padding[3]),
    }
}

/// The height of an empty node: what it sets, else its paddings at the top
/// and at the bottom.
pub open spec fn spacer_height(node: NodeView) -> LengthView {
    match node.location.height {
        Some(h) => h,
        None => spec_add(node.location.padding[0], node.location.padding[2]),
    }
}

/// The extent of an empty node along the main axis of its parent.
pub open spec fn main_extent(node: NodeView, direction: FlexDirection) -> LengthView {
    match direction {
        FlexDirection::Row => spacer_width(node),
        FlexDirection::Column => spacer_height(node),
    }
}

/// The extent of an empty node across the main axis of its parent.
pub open spec fn cross_extent(node: NodeView, direction: FlexDirection) -> LengthView {
    match direction {
        FlexDirection::Row => spacer_height(node),
        FlexDirection::Column => spacer_width(node),
    }
}

/// Whether `node` is a spacer along `direction`: a frame that holds and shows
/// nothing, does not grow, and has no extent across the main axis.
pub open spec fn is_flat_spacer(node: NodeView, direction: FlexDirection) -> bool {
    is_spacer(node) && cross_extent(node, direction) == LengthView::Zero
}

/// Whether two nodes set the same paddings, width and height.
pub open spec fn same_box(a: NodeView, b: NodeView) -> bool {
    a.location.padding == b.location.padding && a.location.width == b.location.width
        && a.location.height == b.location.height
}

/// The index of the first of `nodes` that is in the flow of its parent.
pub open spec fn first_static(nodes: Seq<NodeView>) -> Option<int>
    decreases nodes.len(),
{
    if nodes.len() == 0 {
        None
    } else {
        match first_static(nodes.drop_last()) {
            Some(i) => Some(i),
            None => if nodes.last().is_absolute() {
                None
            } else {
                Some(nodes.len() - 1)
            },
        }
    }
}

/// The index of the last of `nodes` that is in the flow of its parent.
pub open spec fn last_static(nodes: Seq<NodeView>) -> Option<int>
    decreases nodes.len(),
{
    if nodes.len() == 0 {
        None
    } else if nodes.last().is_absolute() {
        last_static(nodes.drop_last())
    } else {
        Some(nodes.len() - 1)
    }
}

/// What [`first_static`] finds is an index.
pub proof fn lemma_first_static_in_range(nodes: Seq<NodeView>)
    ensures
        first_static(nodes) matches Some(i) ==> 0 <= i < nodes.len(),
    decreases nodes.len(),
{
    if nodes.len() > 0 {
        lemma_first_static_in_range(nodes.drop_last());
    }
}

/// What [`last_static`] finds is an index.
pub proof fn lemma_last_static_in_range(nodes: Seq<NodeView>)
    ensures
        last_static(nodes) matches Some(i) ==> 0 <= i < nodes.len(),
    decreases nodes.len(),
{
    if nodes.len() > 0 {
        lemma_last_static_in_range(nodes.drop_last());
    }
}

pub(crate) fn find_first_static(children: &Vec<IntermediateNode>) -> (r: Option<usize>)
    ensures
        r.is_some() == first_static(crate::intermediate_node::forest_view(children@)).is_some(),
        r.is_some() ==> r.unwrap() == first_static(
            crate::intermediate_node::forest_view(children@),
        ).unwrap() && r.unwrap() < children@.len(),
{
    let ghost views = crate::intermediate_node::forest_view(children@);
    let mut i: usize = 0;
    while i < children.len()
        invariant
            i <= children.len(),
            views == crate::intermediate_node::forest_view(children@),
            first_static(views.take(i as int)).is_none(),
        decreases children.len() - i,
    {
        proof {
            assert(views.take(i + 1).drop_last() == views.take(i as int));
            assert(views.take(i + 1).last() == children@[i as int]@);
        }
        if children[i].location.inset.is_none() {
            proof {
                lemma_first_static_stays(views, i + 1);
            }
            return Some(i);
        }
        i += 1;
    }
    proof {
        assert(views.take(i as int) == views);
    }
    None
}

/// The first node in the flow among the first `n` is the first among all.
proof fn lemma_first_static_stays(nodes: Seq<NodeView>, n: int)
    requires
        0 <= n <= nodes.len(),
        first_static(nodes.take(n)).is_some(),
    ensures
        first_static(nodes) == first_static(nodes.take(n)),
    decreases nodes.len() - n,
{
    if n < nodes.len() {
        assert(nodes.take(n + 1).drop_last() == nodes.take(n));
        lemma_first_static_stays(nodes, n + 1);
    } else {
        assert(nodes.take(n) == nodes);
    }
}

pub(crate) fn find_last_static(children: &Vec<IntermediateNode>) -> (r: Option<usize>)
    ensures
        r.is_some() == last_static(crate::intermediate_node::forest_view(children@)).is_some(),
        r.is_some() ==> r.unwrap() == last_static(
            crate::intermediate_node::forest_view(children@),
        ).unwrap() && r.unwrap() < children@.len(),
{
    let ghost views = crate::intermediate_node::forest_view(children@);
    let mut i: usize = children.len();
    proof {
        assert(views.take(i as int) == views);
    }
    while i > 0
        invariant
            i <= children.len(),
            views == crate::intermediate_node::forest_view(children@),
            last_static(views) == last_static(views.take(i as int)),
        decreases i,
    {
        proof {
            assert(views.take(i as int).drop_last() == views.take(i - 1));
            assert(views.take(i as int).last() == children@[i - 1]@);
        }
        if children[i - 1].location.inset.is_none() {
            return Some(i - 1);
        }
        i -= 1;
    }
    None
}

fn is_zero_length(length: &Length) -> (r: bool)
    ensures
        r == (length@ == LengthView::Zero),
{
    match length {
        Length::Zero => true,
        _ => false,
    }
}

pub(crate) fn is_spacer_exec(node: &IntermediateNode) -> (r: bool)
    ensures
        r == is_spacer(node@),
{
    let childless = match &node.node_type {
        IntermediateNodeType::Frame { children } => {
            proof {
                lemma_frame_view(*node);
            }
            children.len() == 0
        },
        _ => false,
    };
    let grows = match node.location.flex_grow {
        Some(g) => !g.is_zero(),
        None => false,
    };
    childless && !grows && node.frame_appearance.background.is_none()
        && node.frame_appearance.box_shadow.is_none() && node.frame_appearance.stroke.is_none()
        && node.href.is_none()
}

pub(crate) fn spacer_width_exec(node: &IntermediateNode) -> (r: Length)
    ensures
        r@ == spacer_width(node@),
{
    match &node.location.width {
        Some(w) => w.clone(),
        None => node.location.padding[1].clone().add(node.location.padding[3].clone()),
    }
}

pub(crate) fn spacer_height_exec(node: &IntermediateNode) -> (r: Length)
    ensures
        r@ == spacer_height(node@),
{
    match &node.location.height {
        Some(h) => h.clone(),
        None => node.location.padding[0].clone().add(node.location.padding[2].clone()),
    }
}

pub(crate) fn main_extent_exec(node: &IntermediateNode, direction: FlexDirection) -> (r: Length)
    ensures
        r@ == main_extent(node@, direction),
{
    match direction {
        FlexDirection::Row => spacer_width_exec(node),
        FlexDirection::Column => spacer_height_exec(node),
    }
}

pub(crate) fn is_flat_spacer_exec(node: &IntermediateNode, direction: FlexDirection) -> (r: bool)
    ensures
        r == is_flat_spacer(node@, direction),
{
    if !is_spacer_exec(node) {
        return false;
    }
    let cross = match direction {
        FlexDirection::Row => spacer_height_exec(node),
        FlexDirection::Column => spacer_width_exec(node),
    };
    is_zero_length(&cross)
}

} // verus!
