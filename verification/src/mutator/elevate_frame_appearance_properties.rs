//! Moving the look of the box of an only child up to its parent.
use crate::decimal::Decimal;
use crate::inherited_properties::{nothing_inherited, InheritedProperties, InheritedView};
use crate::intermediate_node::length::{Length, LengthView};
use crate::intermediate_node::{
    lemma_frame_view, AlignItems, AlignSelf, FlexContainerView, FlexDirection, FrameAppearanceView,
    IntermediateNode, IntermediateNodeType, NodeTypeView, NodeView,
};
use crate::mutator::spacer::{find_first_static, first_static, lemma_first_static_in_range};
use crate::mutator::{
    count_static, improves, lemma_forest_update, lift_depth, lift_total, node_count, own_lifts,
    recursive_visitor_mut_sized_downwards, static_count, visit_all, NodeVisitor,
    RecursiveVisitorMutSizedDownwardsProps,
};
use crate::CSSVariablesMap;
use vstd::prelude::*;

verus! {

/// The flex settings of a node that is no flex container and lays out its
/// children as blocks: in a column, stretched, with no gap.
pub open spec fn block_flex() -> FlexContainerView {
    FlexContainerView {
        align_items: AlignItems::Stretch,
        direction: FlexDirection::Column,
        gap: LengthView::Zero,
        justify_content: None,
    }
}

/// The flex settings of `node`, or those of a block.
pub open spec fn flex_or_block(node: NodeView) -> FlexContainerView {
    match node.flex_container {
        Some(f) => f,
        None => block_flex(),
    }
}

/// Whether a flex-grow is set to one.
pub open spec fn grows_fully(flex_grow: Option<Decimal>) -> bool {
    flex_grow == Some(Decimal { micros: 1_000_000 })
}

/// Whether none of the paddings is set.
pub open spec fn no_padding(padding: Seq<LengthView>) -> bool {
    padding[0] == LengthView::Zero && padding[1] == LengthView::Zero && padding[2]
        == LengthView::Zero && padding[3] == LengthView::Zero
}

/// Whether the box of `parent` is the box of `child`, its only child in the
/// flow: `parent` has no padding, and along each axis either nothing sizes
/// `parent` from above or itself, or `child` follows that size (it grows
/// fully along the main axis; across it, it sets no size and is stretched).
pub open spec fn shares_box(
    parent: NodeView,
    child: NodeView,
    props: RecursiveVisitorMutSizedDownwardsProps,
) -> bool {
    let flex = flex_or_block(parent);
    let parent_main = match flex.direction {
        FlexDirection::Row => props.width_from_descent_inclusive,
        FlexDirection::Column => props.height_from_descent_inclusive,
    };
    let parent_counter = match flex.direction {
        FlexDirection::Row => props.height_from_descent_inclusive,
        FlexDirection::Column => props.width_from_descent_inclusive,
    };
    let child_counter = match flex.direction {
        FlexDirection::Row => child.location.height.is_some(),
        FlexDirection::Column => child.location.width.is_some(),
    };
    &&& !(parent_main && !grows_fully(child.location.flex_grow))
    &&& !(parent_counter && child_counter)
    &&& !(parent_counter && flex.align_items != AlignItems::Stretch && child.location.align_self
        != Some(AlignSelf::Stretch))
    &&& no_padding(parent.location.padding)
}

/// Which properties move from a child to its parent.
#[derive(Clone, Copy, Debug, PartialEq, Eq, Structural)]
pub struct Moves {
    pub background: bool,
    pub border_radius: bool,
    pub box_shadow: bool,
    pub stroke: bool,
    pub href: bool,
}

/// The properties that `child` has and for which `parent` has room: each one
/// that `child` sets and `parent` does not; the border radius only where
/// `parent` has no background, box shadow or stroke that it would clip.
pub open spec fn moves_to(parent: NodeView, child: NodeView) -> Moves {
    let p = parent.frame_appearance;
    let c = child.frame_appearance;
    Moves {
        background: p.background.is_none() && c.background.is_some(),
        border_radius: p.border_radius.is_none() && c.border_radius.is_some()
            && p.background.is_none() && p.box_shadow.is_none() && p.stroke.is_none(),
        box_shadow: p.box_shadow.is_none() && c.box_shadow.is_some(),
        stroke: p.stroke.is_none() && c.stroke.is_some(),
        href: parent.href.is_none() && child.href.is_some(),
    }
}

/// `from` where it moves, else `to`.
pub open spec fn received<T>(moves: bool, from: Option<T>, to: Option<T>) -> Option<T> {
    if moves {
        from
    } else {
        to
    }
}

/// What is left of `from` where it moves.
pub open spec fn given<T>(moves: bool, from: Option<T>) -> Option<T> {
    if moves {
        None
    } else {
        from
    }
}

/// `parent` after the properties in `moves` have moved to it from its child
/// at `index`.
pub open spec fn lifted(parent: NodeView, index: int, moves: Moves) -> NodeView {
    let child = parent.children()[index];
    let p = parent.frame_appearance;
    let c = child.frame_appearance;
    let child_after = NodeView {
        frame_appearance: FrameAppearanceView {
            background: given(moves.background, c.background),
            border_radius: given(moves.border_radius, c.border_radius),
            box_shadow: given(moves.box_shadow, c.box_shadow),
            stroke: given(moves.stroke, c.stroke),
        },
        href: given(moves.href, child.href),
        ..child
    };
    NodeView {
        frame_appearance: FrameAppearanceView {
            background: received(moves.background, c.background, p.background),
            border_radius: received(moves.border_radius, c.border_radius, p.border_radius),
            box_shadow: received(moves.box_shadow, c.box_shadow, p.box_shadow),
            stroke: received(moves.stroke, c.stroke, p.stroke),
        },
        href: received(moves.href, child.href, parent.href),
        node_type: NodeTypeView::Frame { children: parent.children().update(index, child_after) },
        ..parent
    }
}

/// Whether the look of the box of the only child in the flow of `parent` may
/// move up.
pub open spec fn elevates(parent: NodeView, props: RecursiveVisitorMutSizedDownwardsProps) -> bool {
    parent.node_type is Frame && static_count(parent.children()) == 1 && first_static(
        parent.children(),
    ).is_some() && shares_box(
        parent,
        parent.children()[first_static(parent.children()).unwrap()],
        props,
    )
}

/// `parent` after the background, border radius, box shadow, stroke and link
/// of its only child in the flow have moved to it, as far as the two share one
/// box and `parent` has room for them.
pub open spec fn elevated(parent: NodeView, props: RecursiveVisitorMutSizedDownwardsProps) -> NodeView {
    if elevates(parent, props) {
        let index = first_static(parent.children()).unwrap();
        lifted(parent, index, moves_to(parent, parent.children()[index]))
    } else {
        parent
    }
}

/// Moving properties up leaves a tree as it is or makes it simpler.
pub proof fn lemma_lifted_improves(parent: NodeView, index: int)
    requires
        parent.node_type is Frame,
        0 <= index < parent.children().len(),
    ensures
        ({
            let moves = moves_to(parent, parent.children()[index]);
            let after = lifted(parent, index, moves);
            &&& after == parent || improves(parent, after)
            &&& (after != parent) == (moves.background || moves.border_radius || moves.box_shadow
                || moves.stroke || moves.href)
        }),
{
    let children = parent.children();
    let child = children[index];
    let moves = moves_to(parent, child);
    let after = lifted(parent, index, moves);
    let child_after = after.children()[index];
    assert(child_after.node_type == child.node_type);
    assert(node_count(child_after) == node_count(child));
    assert(lift_depth(child_after) == lift_depth(child));
    lemma_forest_update(children, index, child_after);
    if !(moves.background || moves.border_radius || moves.box_shadow || moves.stroke
        || moves.href) {
        assert(child_after == child);
        assert(children.update(index, child_after) =~= children);
        assert(after.frame_appearance == parent.frame_appearance);
    } else {
        assert(own_lifts(child_after) < own_lifts(child));
        assert(own_lifts(after) + own_lifts(child_after) == own_lifts(parent) + own_lifts(child));
    }
}

fn is_no_length(length: &Length) -> (r: bool)
    ensures
        r == (length@ == LengthView::Zero),
{
    match length {
        Length::Zero => true,
        _ => false,
    }
}

fn shares_box_exec(
    parent: &IntermediateNode,
    child: &IntermediateNode,
    props: RecursiveVisitorMutSizedDownwardsProps,
) -> (r: bool)
    ensures
        r == shares_box(parent@, child@, props),
{
    let (direction, stretch_items) = match &parent.flex_container {
        Some(f) => (
            f.direction,
            match f.align_items {
                AlignItems::Stretch => true,
                _ => false,
            },
        ),
        None => (FlexDirection::Column, true),
    };
    let (parent_main, parent_counter, child_counter) = match direction {
        FlexDirection::Row => (
            props.width_from_descent_inclusive,
            props.height_from_descent_inclusive,
            child.location.height.is_some(),
        ),
        FlexDirection::Column => (
            props.height_from_descent_inclusive,
            props.width_from_descent_inclusive,
            child.location.width.is_some(),
        ),
    };
    let grows_fully = match child.location.flex_grow {
        Some(g) => g.is_one(),
        None => false,
    };
    let stretch_self = match child.location.align_self {
        Some(align_self) => {
            assert(align_self is Stretch);
            true
        },
        None => false,
    };
    let no_padding = is_no_length(&parent.location.padding[0]) && is_no_length(
        &parent.location.padding[1],
    ) && is_no_length(&parent.location.padding[2]) && is_no_length(&parent.location.padding[3]);
    !(parent_main && !grows_fully) && !(parent_counter && child_counter) && !(parent_counter
        && !stretch_items && !stretch_self) && no_padding
}

fn moves_to_exec(parent: &IntermediateNode, child: &IntermediateNode) -> (r: Moves)
    ensures
        r == moves_to(parent@, child@),
{
    let p = &parent.frame_appearance;
    let c = &child.frame_appearance;
    Moves {
        background: p.background.is_none() && c.background.is_some(),
        border_radius: p.border_radius.is_none() && c.border_radius.is_some()
            && p.background.is_none() && p.box_shadow.is_none() && p.stroke.is_none(),
        box_shadow: p.box_shadow.is_none() && c.box_shadow.is_some(),
        stroke: p.stroke.is_none() && c.stroke.is_some(),
        href: parent.href.is_none() && child.href.is_some(),
    }
}

/// The moves for the only child in the flow of `node`, with its index, where
/// its look may move up.
fn find_moves(node: &IntermediateNode, props: RecursiveVisitorMutSizedDownwardsProps) -> (r:
    Option<(usize, Moves)>)
    ensures
        r.is_some() == elevates(node@, props),
        r.is_some() ==> r.unwrap().0 < node@.children().len() && r.unwrap().0 == first_static(
            node@.children(),
        ).unwrap() && r.unwrap().1 == moves_to(node@, node@.children()[r.unwrap().0 as int]),
{
    match &node.node_type {
        IntermediateNodeType::Frame { children } => {
            proof {
                lemma_frame_view(*node);
            }
            if count_static(children) != 1 {
                return None;
            }
            match find_first_static(children) {
                Some(index) => {
                    if shares_box_exec(node, &children[index], props) {
                        Some((index, moves_to_exec(node, &children[index])))
                    } else {
                        None
                    }
                },
                None => None,
            }
        },
        _ => None,
    }
}

fn lift(node: &mut IntermediateNode, index: usize, moves: Moves)
    requires
        old(node).node_type is Frame,
        index < old(node).node_type->children@.len(),
    ensures
        final(node)@ == lifted(old(node)@, index as int, moves),
{
    proof {
        lemma_frame_view(*node);
    }
    let ghost before = node@.children();
    match &mut node.node_type {
        IntermediateNodeType::Frame { children } => {
            let child = &mut children[index];
            if moves.background {
                node.frame_appearance.background = child.frame_appearance.background.take();
            }
            if moves.border_radius {
                node.frame_appearance.border_radius = child.frame_appearance.border_radius.take();
            }
            if moves.box_shadow {
                node.frame_appearance.box_shadow = child.frame_appearance.box_shadow.take();
            }
            if moves.stroke {
                node.frame_appearance.stroke = child.frame_appearance.stroke.take();
            }
            if moves.href {
                node.href = child.href.take();
            }
        },
        _ => {},
    }
    proof {
        lemma_frame_view(*node);
        let target = lifted(old(node)@, index as int, moves);
        assert(node@.children() =~= target.children());
    }
}

/// The rewrite of [`elevate_frame_appearance_properties`].
pub struct ElevateFrameAppearance;

impl NodeVisitor for ElevateFrameAppearance {
    open spec fn visited(
        &self,
        node: NodeView,
        inherited: InheritedView,
        props: RecursiveVisitorMutSizedDownwardsProps,
    ) -> NodeView {
        elevated(node, props)
    }

    proof fn lemma_visited_improves(
        &self,
        node: NodeView,
        inherited: InheritedView,
        props: RecursiveVisitorMutSizedDownwardsProps,
    ) {
        if elevates(node, props) {
            lemma_first_static_in_range(node.children());
            lemma_lifted_improves(node, first_static(node.children()).unwrap());
        }
    }

    fn visit(
        &self,
        node: &mut IntermediateNode,
        inherited: &InheritedProperties,
        props: RecursiveVisitorMutSizedDownwardsProps,
    ) -> (mutated: bool) {
        match find_moves(node, props) {
            None => false,
            Some((index, moves)) => {
                proof {
                    lemma_frame_view(*node);
                    lemma_lifted_improves(node@, index as int);
                }
                lift(node, index, moves);
                moves.background || moves.border_radius || moves.box_shadow || moves.stroke
                    || moves.href
            },
        }
    }
}

/// Whether two trees have the same nodes at the same places: each place
/// holds a vector graphic in both, the same text in both, or a frame with as
/// many children in both.
pub open spec fn same_shape(a: NodeView, b: NodeView) -> bool
    decreases a, 1int,
{
    match a.node_type {
        NodeTypeView::Vector => b.node_type is Vector,
        NodeTypeView::Text { text } => b.node_type == a.node_type,
        NodeTypeView::Frame { children } => b.node_type is Frame && same_shapes(
            children,
            b.children(),
        ),
    }
}

/// [`same_shape`], of the children of one node.
pub open spec fn same_shapes(a: Seq<NodeView>, b: Seq<NodeView>) -> bool
    decreases a, 0int,
{
    a.len() == b.len() && (a.len() == 0 || (same_shapes(a.drop_last(), b.drop_last())
        && same_shape(a.last(), b.last())))
}

/// The properties of a tree that can move up, each counted once for itself
/// and once for every node above it.
pub open spec fn lift_weight(node: NodeView) -> nat {
    lift_total(node) + lift_depth(node)
}

/// A tree has the shape that it has.
pub proof fn lemma_same_shape_reflexive(a: NodeView)
    ensures
        same_shape(a, a),
    decreases a, 1int,
{
    match a.node_type {
        NodeTypeView::Frame { children } => {
            lemma_same_shapes_reflexive(children);
        },
        _ => {},
    }
}

/// Some trees have the shapes that they have.
pub proof fn lemma_same_shapes_reflexive(a: Seq<NodeView>)
    ensures
        same_shapes(a, a),
    decreases a, 0int,
{
    if a.len() > 0 {
        lemma_same_shapes_reflexive(a.drop_last());
        lemma_same_shape_reflexive(a.last());
    }
}

/// Two trees that have the shape of a third have the same shape.
pub proof fn lemma_same_shape_transitive(a: NodeView, b: NodeView, c: NodeView)
    requires
        same_shape(a, b),
        same_shape(b, c),
    ensures
        same_shape(a, c),
    decreases a, 1int,
{
    match a.node_type {
        NodeTypeView::Frame { children } => {
            lemma_same_shapes_transitive(children, b.children(), c.children());
        },
        _ => {},
    }
}

/// [`lemma_same_shape_transitive`], of the children of one node.
pub proof fn lemma_same_shapes_transitive(a: Seq<NodeView>, b: Seq<NodeView>, c: Seq<NodeView>)
    requires
        same_shapes(a, b),
        same_shapes(b, c),
    ensures
        same_shapes(a, c),
    decreases a, 0int,
{
    if a.len() > 0 {
        lemma_same_shapes_transitive(a.drop_last(), b.drop_last(), c.drop_last());
        lemma_same_shape_transitive(a.last(), b.last(), c.last());
    }
}

/// Trees of the same shape have as many nodes.
pub proof fn lemma_same_shape_count(a: NodeView, b: NodeView)
    requires
        same_shape(a, b),
    ensures
        node_count(a) == node_count(b),
    decreases a, 1int,
{
    match a.node_type {
        NodeTypeView::Frame { children } => {
            lemma_same_shapes_count(children, b.children());
        },
        _ => {},
    }
}

/// [`lemma_same_shape_count`], of the children of one node.
pub proof fn lemma_same_shapes_count(a: Seq<NodeView>, b: Seq<NodeView>)
    requires
        same_shapes(a, b),
    ensures
        crate::mutator::forest_count(a) == crate::mutator::forest_count(b),
    decreases a, 0int,
{
    if a.len() > 0 {
        lemma_same_shapes_count(a.drop_last(), b.drop_last());
        lemma_same_shape_count(a.last(), b.last());
    }
}

/// Another tree of the same shape in the place of one of some trees leaves
/// the shapes as they are.
pub proof fn lemma_same_shapes_update(nodes: Seq<NodeView>, i: int, node: NodeView)
    requires
        0 <= i < nodes.len(),
        same_shape(nodes[i], node),
    ensures
        same_shapes(nodes, nodes.update(i, node)),
    decreases nodes.len(),
{
    let updated = nodes.update(i, node);
    if i == nodes.len() - 1 {
        assert(updated.drop_last() =~= nodes.drop_last());
        assert(updated.last() == node);
        lemma_same_shapes_reflexive(nodes.drop_last());
    } else {
        assert(updated.drop_last() =~= nodes.drop_last().update(i, node));
        assert(updated.last() == nodes.last());
        assert(nodes.drop_last()[i] == nodes[i]);
        lemma_same_shapes_update(nodes.drop_last(), i, node);
        lemma_same_shape_reflexive(nodes.last());
    }
}

/// Moving the look of a child up to its parent leaves every node where it is
/// and what it is.
pub proof fn lemma_elevated_same_shape(
    parent: NodeView,
    props: RecursiveVisitorMutSizedDownwardsProps,
)
    ensures
        same_shape(parent, elevated(parent, props)),
{
    if elevates(parent, props) {
        lemma_first_static_in_range(parent.children());
        let index = first_static(parent.children()).unwrap();
        let child = parent.children()[index];
        let after = elevated(parent, props);
        let child_after = after.children()[index];
        assert(child_after.node_type == child.node_type);
        lemma_same_shape_reflexive(child);
        assert(same_shape(child, child_after));
        lemma_same_shapes_update(parent.children(), index, child_after);
        assert(after.children() == parent.children().update(index, child_after));
    } else {
        lemma_same_shape_reflexive(parent);
    }
}

/// Going over a tree and moving the look of only children up leaves every
/// node where it is and what it is.
pub proof fn lemma_elevate_keeps_shape(
    node: NodeView,
    inherited: InheritedView,
    props: RecursiveVisitorMutSizedDownwardsProps,
)
    ensures
        same_shape(node, visit_all(ElevateFrameAppearance, node, inherited, props)),
    decreases node_count(node), 0int,
{
    let inclusive = crate::mutator::inclusive_props(node, props);
    let here = elevated(node, inclusive);
    lemma_elevated_same_shape(node, inclusive);
    lemma_same_shape_count(node, here);
    let children = here.children();
    let after = crate::mutator::visit_each(
        ElevateFrameAppearance,
        children,
        crate::inherited_properties::spec_inherit(here, inherited),
        crate::mutator::flex_direction_of(here),
        crate::mutator::align_items_of(here),
        static_count(children) > 1,
        inclusive,
    );
    lemma_elevate_each_keeps_shape(
        children,
        crate::inherited_properties::spec_inherit(here, inherited),
        crate::mutator::flex_direction_of(here),
        crate::mutator::align_items_of(here),
        static_count(children) > 1,
        inclusive,
    );
    let result = here.with_children(after);
    if here.node_type is Frame {
        assert(result.children() == after);
    } else {
        lemma_same_shape_reflexive(here);
    }
    assert(same_shape(here, result));
    lemma_same_shape_transitive(node, here, result);
}

/// [`lemma_elevate_keeps_shape`], of the children of one node.
pub proof fn lemma_elevate_each_keeps_shape(
    nodes: Seq<NodeView>,
    inherited: InheritedView,
    parent_flex_direction: Option<FlexDirection>,
    parent_align_items: Option<AlignItems>,
    crowded: bool,
    parent_props: RecursiveVisitorMutSizedDownwardsProps,
)
    ensures
        same_shapes(
            nodes,
            crate::mutator::visit_each(
                ElevateFrameAppearance,
                nodes,
                inherited,
                parent_flex_direction,
                parent_align_items,
                crowded,
                parent_props,
            ),
        ),
    decreases crate::mutator::forest_count(nodes), 1int,
{
    if nodes.len() > 0 {
        crate::mutator::lemma_node_count_positive(nodes.last());
        let before = crate::mutator::visit_each(
            ElevateFrameAppearance,
            nodes.drop_last(),
            inherited,
            parent_flex_direction,
            parent_align_items,
            crowded,
            parent_props,
        );
        lemma_elevate_each_keeps_shape(
            nodes.drop_last(),
            inherited,
            parent_flex_direction,
            parent_align_items,
            crowded,
            parent_props,
        );
        let props = crate::mutator::child_props(
            nodes.last(),
            parent_flex_direction,
            parent_align_items,
            crowded,
            parent_props,
        );
        lemma_elevate_keeps_shape(nodes.last(), inherited, props);
        let last = visit_all(ElevateFrameAppearance, nodes.last(), inherited, props);
        assert(before.push(last).drop_last() == before);
        assert(before.push(last).last() == last);
    }
}

/// The tree after [`elevate_frame_appearance_properties`].
pub open spec fn spec_elevate_frame_appearance_properties(node: NodeView) -> NodeView {
    visit_all(
        ElevateFrameAppearance,
        node,
        nothing_inherited(),
        RecursiveVisitorMutSizedDownwardsProps {
            width_from_descent_inclusive: false,
            height_from_descent_inclusive: false,
        },
    )
}

/// Moving the look of only children up keeps the nodes of a tree, their order
/// and what each of them is, and, where it changes the tree, lowers the
/// weight of the properties that can move up.
pub proof fn lemma_elevate_keeps_nodes_and_lowers_weight(node: NodeView)
    ensures
        same_shape(node, spec_elevate_frame_appearance_properties(node)),
        node_count(spec_elevate_frame_appearance_properties(node)) == node_count(node),
        spec_elevate_frame_appearance_properties(node) != node ==> lift_weight(
            spec_elevate_frame_appearance_properties(node),
        ) < lift_weight(node),
{
    let from_above = RecursiveVisitorMutSizedDownwardsProps {
        width_from_descent_inclusive: false,
        height_from_descent_inclusive: false,
    };
    lemma_elevate_keeps_shape(node, nothing_inherited(), from_above);
    lemma_same_shape_count(node, spec_elevate_frame_appearance_properties(node));
    crate::mutator::lemma_visit_all_settles(
        ElevateFrameAppearance,
        node,
        nothing_inherited(),
        from_above,
    );
}

/// Goes through the tree from the root down and, wherever a node shares its
/// box with its only child in the flow, moves background, border radius, box
/// shadow, stroke and link of the child up to the node, each into a slot that
/// is empty. Nothing is blended. The nodes stay where and what they are. Says
/// whether anything changed.
pub fn elevate_frame_appearance_properties(
    node: &mut IntermediateNode,
    _css_variables: &mut CSSVariablesMap,
) -> (mutated: bool)
    ensures
        final(node)@ == spec_elevate_frame_appearance_properties(old(node)@),
        mutated == (final(node)@ != old(node)@),
        mutated ==> improves(old(node)@, final(node)@),
        same_shape(old(node)@, final(node)@),
        node_count(final(node)@) == node_count(old(node)@),
        mutated ==> lift_weight(final(node)@) < lift_weight(old(node)@),
        *final(_css_variables) == *old(_css_variables),
{
    proof {
        lemma_elevate_keeps_nodes_and_lowers_weight(node@);
    }
    recursive_visitor_mut_sized_downwards(
        node,
        &InheritedProperties::default(),
        RecursiveVisitorMutSizedDownwardsProps {
            width_from_descent_inclusive: false,
            height_from_descent_inclusive: false,
        },
        &ElevateFrameAppearance,
    )
}

} // verus!
