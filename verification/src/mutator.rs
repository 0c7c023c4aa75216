//! Passes that rewrite the intermediate tree without changing what it
//! renders, and the traversals that carry them over a whole tree.
use crate::decimal::Decimal;
use crate::inherited_properties::{spec_inherit, InheritedProperties, InheritedView};
use crate::intermediate_node::{
    forest_view, lemma_frame_view, AlignItems, AlignSelf, FlexDirection, Inset, IntermediateNode,
    IntermediateNodeType, NodeTypeView, NodeView,
};
use vstd::prelude::*;

pub mod alignment;
pub mod collapse_to_gap;
pub mod collapse_to_padding;
pub mod combine_parent_child;
pub mod drop_empty_absolute_frames;
pub mod elevate_frame_appearance_properties;
pub mod spacer;

pub use collapse_to_gap::collapse_to_gap;
pub use collapse_to_padding::collapse_to_padding;
pub use combine_parent_child::combine_parent_child;
pub use drop_empty_absolute_frames::drop_empty_absolute_frames;
pub use elevate_frame_appearance_properties::elevate_frame_appearance_properties;

verus! {

/// The number of nodes of a tree.
pub open spec fn node_count(node: NodeView) -> nat
    decreases node, 1int,
{
    match node.node_type {
        NodeTypeView::Frame { children } => 1 + forest_count(children),
        _ => 1,
    }
}

/// The number of nodes of some trees.
pub open spec fn forest_count(nodes: Seq<NodeView>) -> nat
    decreases nodes, 0int,
{
    if nodes.len() == 0 {
        0
    } else {
        forest_count(nodes.drop_last()) + node_count(nodes.last())
    }
}

/// A tree has at least one node.
pub proof fn lemma_node_count_positive(node: NodeView)
    ensures
        node_count(node) >= 1,
{
}

/// One where `set` holds, else zero.
pub open spec fn one_if(set: bool) -> nat {
    if set {
        1
    } else {
        0
    }
}

/// How many of the properties that can move to a parent (background, border
/// radius, box shadow, stroke, link) the node itself has.
pub open spec fn own_lifts(node: NodeView) -> nat {
    one_if(node.frame_appearance.background.is_some()) + one_if(
        node.frame_appearance.border_radius.is_some(),
    ) + one_if(node.frame_appearance.box_shadow.is_some()) + one_if(
        node.frame_appearance.stroke.is_some(),
    ) + one_if(node.href.is_some())
}

/// How many such properties a tree has.
pub open spec fn lift_total(node: NodeView) -> nat
    decreases node, 1int,
{
    match node.node_type {
        NodeTypeView::Frame { children } => own_lifts(node) + forest_lift_total(children),
        _ => own_lifts(node),
    }
}

/// How many such properties some trees have.
pub open spec fn forest_lift_total(nodes: Seq<NodeView>) -> nat
    decreases nodes, 0int,
{
    if nodes.len() == 0 {
        0
    } else {
        forest_lift_total(nodes.drop_last()) + lift_total(nodes.last())
    }
}

/// The sum, over such properties of a tree, of how far below the root each
/// one is.
pub open spec fn lift_depth(node: NodeView) -> nat
    decreases node, 1int,
{
    match node.node_type {
        NodeTypeView::Frame { children } => forest_lift_depth(children),
        _ => 0,
    }
}

/// The sum, over such properties of some trees, of how far below a common
/// parent of the trees each one is.
pub open spec fn forest_lift_depth(nodes: Seq<NodeView>) -> nat
    decreases nodes, 0int,
{
    if nodes.len() == 0 {
        0
    } else {
        forest_lift_depth(nodes.drop_last()) + lift_depth(nodes.last()) + lift_total(nodes.last())
    }
}

/// `after` is simpler than `before`: it has no more nodes and no more
/// properties that can move up, these are no farther from the root, and
/// there are fewer nodes or the properties are nearer to the root.
pub open spec fn improves(before: NodeView, after: NodeView) -> bool {
    &&& node_count(after) <= node_count(before)
    &&& lift_total(after) <= lift_total(before)
    &&& lift_depth(after) <= lift_depth(before)
    &&& (node_count(after) < node_count(before) || lift_depth(after) < lift_depth(before))
}

/// [`improves`], of the children of one node.
pub open spec fn forest_improves(before: Seq<NodeView>, after: Seq<NodeView>) -> bool {
    &&& forest_count(after) <= forest_count(before)
    &&& forest_lift_total(after) <= forest_lift_total(before)
    &&& forest_lift_depth(after) <= forest_lift_depth(before)
    &&& (forest_count(after) < forest_count(before) || forest_lift_depth(after)
        < forest_lift_depth(before))
}

/// What bounds the number of rewrites of a tree: each rewrite that changes
/// the tree takes at least one off.
pub open spec fn potential(node: NodeView) -> nat {
    node_count(node) + lift_depth(node)
}

/// The [`potential`] of a tree of `n` nodes is at most `5 * n * n`: a node
/// has at most five properties that can move up, and each of them is fewer
/// than `n` nodes below the root.
pub proof fn lemma_potential_bounded(node: NodeView)
    ensures
        lift_total(node) <= 5 * node_count(node),
        lift_depth(node) <= 5 * node_count(node) * (node_count(node) - 1),
        potential(node) <= 5 * node_count(node) * node_count(node),
    decreases node, 1int,
{
    let n = node_count(node) as int;
    match node.node_type {
        NodeTypeView::Frame { children } => {
            lemma_forest_potential_bounded(children);
            let c = forest_count(children) as int;
            assert(5 * c * (c + 1) == 5 * (c + 1) * ((c + 1) - 1)) by (nonlinear_arith);
        },
        _ => {
            assert(5 * 1 * (1 - 1) == 0) by (nonlinear_arith);
        },
    }
    assert(n + 5 * n * (n - 1) <= 5 * n * n) by (nonlinear_arith)
        requires
            n >= 1,
    ;
}

/// [`lemma_potential_bounded`], of the children of one node.
pub proof fn lemma_forest_potential_bounded(nodes: Seq<NodeView>)
    ensures
        forest_lift_total(nodes) <= 5 * forest_count(nodes),
        forest_lift_depth(nodes) <= 5 * forest_count(nodes) * (forest_count(nodes) + 1),
    decreases nodes, 0int,
{
    if nodes.len() > 0 {
        lemma_forest_potential_bounded(nodes.drop_last());
        lemma_potential_bounded(nodes.last());
        let a = forest_count(nodes.drop_last()) as int;
        let b = node_count(nodes.last()) as int;
        assert(5 * a * (a + 1) + 5 * b * (b - 1) + 5 * b <= 5 * (a + b) * ((a + b) + 1))
            by (nonlinear_arith)
            requires
                a >= 0,
                b >= 1,
        ;
    } else {
        assert(5 * 0 * (0 + 1) == 0) by (nonlinear_arith);
    }
}

/// Whether the size of a node along each axis is imposed on it by what lies
/// above it (or, where it says "inclusive", by the node itself).
#[derive(Clone, Copy, Debug, PartialEq, Eq, Structural)]
pub struct RecursiveVisitorMutSizedDownwardsProps {
    pub width_from_descent_inclusive: bool,
    pub height_from_descent_inclusive: bool,
}

/// The flex direction of a node, where it is a flex container.
pub open spec fn flex_direction_of(node: NodeView) -> Option<FlexDirection> {
    match node.flex_container {
        Some(f) => Some(f.direction),
        None => None,
    }
}

/// How a node aligns its items, where it is a flex container.
pub open spec fn align_items_of(node: NodeView) -> Option<AlignItems> {
    match node.flex_container {
        Some(f) => Some(f.align_items),
        None => None,
    }
}

/// Whether a flex-grow is set and is not zero.
pub open spec fn grows(flex_grow: Option<Decimal>) -> bool {
    match flex_grow {
        Some(g) => g.micros != 0,
        None => false,
    }
}

/// Whether the inset at `index` of a node is tied to its parent.
pub open spec fn inset_is_linear(node: NodeView, index: int) -> bool {
    node.location.inset.is_some() && node.location.inset.unwrap()[index] is Linear
}

/// Given that the parent has a width: whether the parent, with the given
/// flex direction and alignment of items, decides the width of `node`.
pub open spec fn spec_width_set_by_parent(
    node: NodeView,
    parent_flex_direction: Option<FlexDirection>,
    parent_align_items: Option<AlignItems>,
) -> bool {
    if inset_is_linear(node, 1) && inset_is_linear(node, 3) {
        true
    } else {
        match parent_flex_direction {
            Some(FlexDirection::Row) => grows(node.location.flex_grow),
            Some(FlexDirection::Column) => node.location.align_self == Some(AlignSelf::Stretch)
                || parent_align_items == Some(AlignItems::Stretch),
            None => node.location.width.is_none() && node.location.inset.is_none(),
        }
    }
}

/// Given that the parent has a height: whether the parent decides the height
/// of `node`.
pub open spec fn spec_height_set_by_parent(
    node: NodeView,
    parent_flex_direction: Option<FlexDirection>,
    parent_align_items: Option<AlignItems>,
) -> bool {
    if inset_is_linear(node, 0) && inset_is_linear(node, 2) {
        true
    } else {
        match parent_flex_direction {
            Some(FlexDirection::Row) => node.location.align_self == Some(AlignSelf::Stretch)
                || parent_align_items == Some(AlignItems::Stretch),
            Some(FlexDirection::Column) => grows(node.location.flex_grow),
            None => false,
        }
    }
}

/// How many of `nodes` are in the flow of their parent.
pub open spec fn static_count(nodes: Seq<NodeView>) -> nat
    decreases nodes.len(),
{
    if nodes.len() == 0 {
        0
    } else {
        static_count(nodes.drop_last()) + one_if(!nodes.last().is_absolute())
    }
}

/// `props` with what `node` sets itself.
pub open spec fn inclusive_props(
    node: NodeView,
    props: RecursiveVisitorMutSizedDownwardsProps,
) -> RecursiveVisitorMutSizedDownwardsProps {
    RecursiveVisitorMutSizedDownwardsProps {
        width_from_descent_inclusive: node.location.width.is_some()
            || props.width_from_descent_inclusive,
        height_from_descent_inclusive: node.location.height.is_some()
            || props.height_from_descent_inclusive,
    }
}

/// What is imposed on `child` by a parent with the given flex settings that
/// is itself sized as `parent_props` say. `crowded` says that the parent has
/// several children in its flow: then it may take its size from a sibling.
pub open spec fn child_props(
    child: NodeView,
    parent_flex_direction: Option<FlexDirection>,
    parent_align_items: Option<AlignItems>,
    crowded: bool,
    parent_props: RecursiveVisitorMutSizedDownwardsProps,
) -> RecursiveVisitorMutSizedDownwardsProps {
    RecursiveVisitorMutSizedDownwardsProps {
        width_from_descent_inclusive: (!child.is_absolute() && crowded)
            || (parent_props.width_from_descent_inclusive && spec_width_set_by_parent(
            child,
            parent_flex_direction,
            parent_align_items,
        )),
        height_from_descent_inclusive: (!child.is_absolute() && crowded)
            || (parent_props.height_from_descent_inclusive && spec_height_set_by_parent(
            child,
            parent_flex_direction,
            parent_align_items,
        )),
    }
}

/// A rewrite of one node, given what the node inherits and how it is sized
/// from above.
pub trait NodeVisitor: Sized {
    /// What the rewrite makes of `node`.
    spec fn visited(
        &self,
        node: NodeView,
        inherited: InheritedView,
        props: RecursiveVisitorMutSizedDownwardsProps,
    ) -> NodeView;

    /// A rewrite leaves a node as it is or makes it simpler.
    proof fn lemma_visited_improves(
        &self,
        node: NodeView,
        inherited: InheritedView,
        props: RecursiveVisitorMutSizedDownwardsProps,
    )
        ensures
            self.visited(node, inherited, props) == node || improves(
                node,
                self.visited(node, inherited, props),
            ),
    ;

    /// Rewrites `node` and says whether that changed it.
    fn visit(
        &self,
        node: &mut IntermediateNode,
        inherited: &InheritedProperties,
        props: RecursiveVisitorMutSizedDownwardsProps,
    ) -> (mutated: bool)
        ensures
            final(node)@ == self.visited(old(node)@, inherited@, props),
            mutated == (final(node)@ != old(node)@),
    ;
}

/// The tree after `visitor` has rewritten `node` and then, in the same way,
/// each child that the rewritten node has.
pub open spec fn visit_all<V: NodeVisitor>(
    visitor: V,
    node: NodeView,
    inherited: InheritedView,
    props: RecursiveVisitorMutSizedDownwardsProps,
) -> NodeView
    decreases node_count(node), 0int,
{
    let inclusive = inclusive_props(node, props);
    let here = visitor.visited(node, inherited, inclusive);
    if node_count(here) <= node_count(node) {
        here.with_children(
            visit_each(
                visitor,
                here.children(),
                spec_inherit(here, inherited),
                flex_direction_of(here),
                align_items_of(here),
                static_count(here.children()) > 1,
                inclusive,
            ),
        )
    } else {
        here
    }
}

/// The children of one node after `visitor` has gone over each of them.
pub open spec fn visit_each<V: NodeVisitor>(
    visitor: V,
    nodes: Seq<NodeView>,
    inherited: InheritedView,
    parent_flex_direction: Option<FlexDirection>,
    parent_align_items: Option<AlignItems>,
    crowded: bool,
    parent_props: RecursiveVisitorMutSizedDownwardsProps,
) -> Seq<NodeView>
    decreases forest_count(nodes), 1int,
{
    if nodes.len() == 0 {
        Seq::empty()
    } else {
        proof {
            lemma_node_count_positive(nodes.last());
        }
        visit_each(
            visitor,
            nodes.drop_last(),
            inherited,
            parent_flex_direction,
            parent_align_items,
            crowded,
            parent_props,
        ).push(
            visit_all(
                visitor,
                nodes.last(),
                inherited,
                child_props(
                    nodes.last(),
                    parent_flex_direction,
                    parent_align_items,
                    crowded,
                    parent_props,
                ),
            ),
        )
    }
}

/// A tree among some trees has no more nodes than all of them.
pub proof fn lemma_member_count(nodes: Seq<NodeView>, i: int)
    requires
        0 <= i < nodes.len(),
    ensures
        node_count(nodes[i]) <= forest_count(nodes),
    decreases nodes.len(),
{
    if i < nodes.len() - 1 {
        lemma_member_count(nodes.drop_last(), i);
    }
}

/// One more tree adds its measures to those of the others.
pub proof fn lemma_forest_push(nodes: Seq<NodeView>, node: NodeView)
    ensures
        forest_count(nodes.push(node)) == forest_count(nodes) + node_count(node),
        forest_lift_total(nodes.push(node)) == forest_lift_total(nodes) + lift_total(node),
        forest_lift_depth(nodes.push(node)) == forest_lift_depth(nodes) + lift_depth(node)
            + lift_total(node),
{
    assert(nodes.push(node).drop_last() == nodes);
    assert(nodes.push(node).last() == node);
}

/// Without one of them, some trees have the measures of that one less.
pub proof fn lemma_forest_remove(nodes: Seq<NodeView>, i: int)
    requires
        0 <= i < nodes.len(),
    ensures
        forest_count(nodes.remove(i)) + node_count(nodes[i]) == forest_count(nodes),
        forest_lift_total(nodes.remove(i)) + lift_total(nodes[i]) == forest_lift_total(nodes),
        forest_lift_depth(nodes.remove(i)) + lift_depth(nodes[i]) + lift_total(nodes[i])
            == forest_lift_depth(nodes),
    decreases nodes.len(),
{
    if i == nodes.len() - 1 {
        assert(nodes.remove(i) =~= nodes.drop_last());
    } else {
        lemma_forest_remove(nodes.drop_last(), i);
        assert(nodes.remove(i).drop_last() =~= nodes.drop_last().remove(i));
        assert(nodes.remove(i).last() == nodes.last());
    }
}

/// Where one of some trees gives way to another with as many nodes, the
/// measures of the trees together change by what the measures of that tree
/// change by.
pub proof fn lemma_forest_update(nodes: Seq<NodeView>, i: int, node: NodeView)
    requires
        0 <= i < nodes.len(),
        node_count(node) == node_count(nodes[i]),
    ensures
        forest_count(nodes.update(i, node)) == forest_count(nodes),
        forest_lift_total(nodes.update(i, node)) + lift_total(nodes[i]) == forest_lift_total(nodes)
            + lift_total(node),
        forest_lift_depth(nodes.update(i, node)) + lift_depth(nodes[i]) + lift_total(nodes[i])
            == forest_lift_depth(nodes) + lift_depth(node) + lift_total(node),
    decreases nodes.len(),
{
    if i == nodes.len() - 1 {
        assert(nodes.update(i, node).drop_last() =~= nodes.drop_last());
        assert(nodes.update(i, node).last() == node);
    } else {
        lemma_forest_update(nodes.drop_last(), i, node);
        assert(nodes.update(i, node).drop_last() =~= nodes.drop_last().update(i, node));
        assert(nodes.update(i, node).last() == nodes.last());
    }
}

/// Where each of some trees stays as it is or becomes simpler, the trees
/// together stay as they are or become simpler.
pub proof fn lemma_forest_settles(before: Seq<NodeView>, after: Seq<NodeView>)
    requires
        before.len() == after.len(),
        forall|i: int|
            0 <= i < before.len() ==> after[i] == before[i] || improves(
                before[i],
                #[trigger] after[i],
            ),
    ensures
        after == before || forest_improves(before, after),
    decreases before.len(),
{
    if before.len() == 0 {
        assert(after =~= before);
    } else {
        let b = before.drop_last();
        let a = after.drop_last();
        assert forall|i: int| 0 <= i < b.len() implies a[i] == b[i] || improves(
            b[i],
            #[trigger] a[i],
        ) by {
            assert(a[i] == after[i]);
            assert(b[i] == before[i]);
        }
        lemma_forest_settles(b, a);
        assert(after.last() == before.last() || improves(before.last(), after.last())) by {
            assert(after.last() == after[after.len() - 1]);
        }
        if a == b && after.last() == before.last() {
            assert(after =~= a.push(after.last()));
            assert(before =~= b.push(before.last()));
        }
    }
}

/// A node whose children stay as they are or become simpler stays as it is
/// or becomes simpler.
pub proof fn lemma_with_children_settles(node: NodeView, children: Seq<NodeView>)
    requires
        children == node.children() || forest_improves(node.children(), children),
        !(node.node_type is Frame) ==> children == node.children(),
    ensures
        node.with_children(children) == node || improves(node, node.with_children(children)),
{
    let after = node.with_children(children);
    if node.node_type is Frame {
        assert(own_lifts(after) == own_lifts(node));
        assert(after.node_type->children == children);
    }
}

/// Going over a tree with a rewrite leaves the tree as it is or makes it
/// simpler.
pub proof fn lemma_visit_all_settles<V: NodeVisitor>(
    visitor: V,
    node: NodeView,
    inherited: InheritedView,
    props: RecursiveVisitorMutSizedDownwardsProps,
)
    ensures
        visit_all(visitor, node, inherited, props) == node || improves(
            node,
            visit_all(visitor, node, inherited, props),
        ),
    decreases node_count(node), 0int,
{
    let inclusive = inclusive_props(node, props);
    let here = visitor.visited(node, inherited, inclusive);
    visitor.lemma_visited_improves(node, inherited, inclusive);
    let children = here.children();
    let after = visit_each(
        visitor,
        children,
        spec_inherit(here, inherited),
        flex_direction_of(here),
        align_items_of(here),
        static_count(children) > 1,
        inclusive,
    );
    lemma_visit_each_settles(
        visitor,
        children,
        spec_inherit(here, inherited),
        flex_direction_of(here),
        align_items_of(here),
        static_count(children) > 1,
        inclusive,
    );
    lemma_forest_settles(children, after);
    if !(here.node_type is Frame) {
        assert(after =~= children);
    }
    lemma_with_children_settles(here, after);
}

/// Going over the children of a node with a rewrite leaves each of them as
/// it is or makes it simpler.
pub proof fn lemma_visit_each_settles<V: NodeVisitor>(
    visitor: V,
    nodes: Seq<NodeView>,
    inherited: InheritedView,
    parent_flex_direction: Option<FlexDirection>,
    parent_align_items: Option<AlignItems>,
    crowded: bool,
    parent_props: RecursiveVisitorMutSizedDownwardsProps,
)
    ensures
        visit_each(
            visitor,
            nodes,
            inherited,
            parent_flex_direction,
            parent_align_items,
            crowded,
            parent_props,
        ).len() == nodes.len(),
        forall|i: int|
            0 <= i < nodes.len() ==> (#[trigger] visit_each(
                visitor,
                nodes,
                inherited,
                parent_flex_direction,
                parent_align_items,
                crowded,
                parent_props,
            )[i]) == nodes[i] || improves(
                nodes[i],
                visit_each(
                    visitor,
                    nodes,
                    inherited,
                    parent_flex_direction,
                    parent_align_items,
                    crowded,
                    parent_props,
                )[i],
            ),
    decreases forest_count(nodes), 1int,
{
    if nodes.len() > 0 {
        lemma_node_count_positive(nodes.last());
        let before = visit_each(
            visitor,
            nodes.drop_last(),
            inherited,
            parent_flex_direction,
            parent_align_items,
            crowded,
            parent_props,
        );
        lemma_visit_each_settles(
            visitor,
            nodes.drop_last(),
            inherited,
            parent_flex_direction,
            parent_align_items,
            crowded,
            parent_props,
        );
        let props = child_props(
            nodes.last(),
            parent_flex_direction,
            parent_align_items,
            crowded,
            parent_props,
        );
        lemma_visit_all_settles(visitor, nodes.last(), inherited, props);
        let last = visit_all(visitor, nodes.last(), inherited, props);
        let all = before.push(last);
        assert forall|i: int| 0 <= i < nodes.len() implies (#[trigger] all[i]) == nodes[i]
            || improves(nodes[i], all[i]) by {
            if i < nodes.len() - 1 {
                assert(all[i] == before[i]);
                assert(nodes.drop_last()[i] == nodes[i]);
            }
        }
    }
}

fn is_static(node: &IntermediateNode) -> (r: bool)
    ensures
        r == !node@.is_absolute(),
{
    node.location.inset.is_none()
}

pub(crate) fn count_static(children: &Vec<IntermediateNode>) -> (r: usize)
    ensures
        r == static_count(forest_view(children@)),
{
    let mut count: usize = 0;
    let mut i: usize = 0;
    while i < children.len()
        invariant
            i <= children.len(),
            count <= i,
            count == static_count(forest_view(children@).take(i as int)),
        decreases children.len() - i,
    {
        proof {
            let views = forest_view(children@);
            assert(views.take(i + 1).drop_last() == views.take(i as int));
            assert(views.take(i + 1).last() == children@[i as int]@);
        }
        if is_static(&children[i]) {
            count += 1;
        }
        i += 1;
    }
    proof {
        assert(forest_view(children@).take(i as int) == forest_view(children@));
    }
    count
}

fn flex_grows(flex_grow: Option<Decimal>) -> (r: bool)
    ensures
        r == grows(flex_grow),
{
    match flex_grow {
        Some(g) => !g.is_zero(),
        None => false,
    }
}

fn stretches(node: &IntermediateNode, parent_align_items: Option<AlignItems>) -> (r: bool)
    ensures
        r == (node@.location.align_self == Some(AlignSelf::Stretch) || parent_align_items == Some(
            AlignItems::Stretch,
        )),
{
    let own = match node.location.align_self {
        Some(align_self) => {
            assert(align_self is Stretch);
            true
        },
        None => false,
    };
    let parent = match parent_align_items {
        Some(AlignItems::Stretch) => true,
        _ => false,
    };
    own || parent
}

fn tied_at(node: &IntermediateNode, first: usize, second: usize) -> (r: bool)
    requires
        first < 4,
        second < 4,
    ensures
        r == (inset_is_linear(node@, first as int) && inset_is_linear(node@, second as int)),
{
    match &node.location.inset {
        Some(insets) => {
            let a = match insets[first] {
                Inset::Linear { .. } => true,
                Inset::Auto => false,
            };
            let b = match insets[second] {
                Inset::Linear { .. } => true,
                Inset::Auto => false,
            };
            a && b
        },
        None => false,
    }
}

/// Given that the parent has a width: whether the parent decides the width
/// of `node`.
pub fn width_set_by_parent(
    node: &IntermediateNode,
    parent_flex_direction: Option<FlexDirection>,
    parent_align_items: Option<AlignItems>,
) -> (r: bool)
    ensures
        r == spec_width_set_by_parent(node@, parent_flex_direction, parent_align_items),
{
    if tied_at(node, 1, 3) {
        return true;
    }
    match parent_flex_direction {
        Some(FlexDirection::Row) => flex_grows(node.location.flex_grow),
        Some(FlexDirection::Column) => stretches(node, parent_align_items),
        None => node.location.width.is_none() && node.location.inset.is_none(),
    }
}

/// Given that the parent has a height: whether the parent decides the height
/// of `node`.
pub fn height_set_by_parent(
    node: &IntermediateNode,
    parent_flex_direction: Option<FlexDirection>,
    parent_align_items: Option<AlignItems>,
) -> (r: bool)
    ensures
        r == spec_height_set_by_parent(node@, parent_flex_direction, parent_align_items),
{
    if tied_at(node, 0, 2) {
        return true;
    }
    match parent_flex_direction {
        Some(FlexDirection::Row) => stretches(node, parent_align_items),
        Some(FlexDirection::Column) => flex_grows(node.location.flex_grow),
        None => false,
    }
}

/// Whether `node` sets its own width.
pub fn width_set_by_self(node: &IntermediateNode) -> (r: bool)
    ensures
        r == node@.location.width.is_some(),
{
    node.location.width.is_some()
}

/// Whether `node` sets its own height.
pub fn height_set_by_self(node: &IntermediateNode) -> (r: bool)
    ensures
        r == node@.location.height.is_some(),
{
    node.location.height.is_some()
}

fn visit_children<V: NodeVisitor>(
    children: &mut Vec<IntermediateNode>,
    inherited: &InheritedProperties,
    parent_flex_direction: Option<FlexDirection>,
    parent_align_items: Option<AlignItems>,
    crowded: bool,
    parent_props: RecursiveVisitorMutSizedDownwardsProps,
    visitor: &V,
) -> (mutated: bool)
    ensures
        final(children)@.len() == old(children)@.len(),
        forest_view(final(children)@) == visit_each(
            *visitor,
            forest_view(old(children)@),
            inherited@,
            parent_flex_direction,
            parent_align_items,
            crowded,
            parent_props,
        ),
        mutated == (forest_view(final(children)@) != forest_view(old(children)@)),
        forall|i: int|
            0 <= i < old(children)@.len() ==> final(children)@[i]@ == old(children)@[i]@
                || improves(old(children)@[i]@, #[trigger] final(children)@[i]@),
    decreases forest_count(forest_view(old(children)@)), 1int,
{
    let n = children.len();
    let ghost before = forest_view(children@);
    let mut mutated = false;
    let mut i: usize = 0;
    while i < n
        invariant
            i <= n,
            children@.len() == n,
            old(children)@.len() == n,
            before == forest_view(old(children)@),
            forall|j: int| i <= j < n ==> children@[j] == old(children)@[j],
            forest_view(children@).take(i as int) == visit_each(
                *visitor,
                before.take(i as int),
                inherited@,
                parent_flex_direction,
                parent_align_items,
                crowded,
                parent_props,
            ),
            mutated == (forest_view(children@).take(i as int) != before.take(i as int)),
            forall|j: int|
                0 <= j < i ==> children@[j]@ == old(children)@[j]@ || improves(
                    old(children)@[j]@,
                    #[trigger] children@[j]@,
                ),
        decreases n - i,
    {
        let ghost views = forest_view(children@);
        let props = RecursiveVisitorMutSizedDownwardsProps {
            width_from_descent_inclusive: (is_static(&children[i]) && crowded) || (
            parent_props.width_from_descent_inclusive && width_set_by_parent(
                &children[i],
                parent_flex_direction,
                parent_align_items,
            )),
            height_from_descent_inclusive: (is_static(&children[i]) && crowded) || (
            parent_props.height_from_descent_inclusive && height_set_by_parent(
                &children[i],
                parent_flex_direction,
                parent_align_items,
            )),
        };
        proof {
            lemma_member_count(before, i as int);
            assert(before[i as int] == children@[i as int]@);
        }
        let changed = recursive_visitor_mut_sized_downwards(
            &mut children[i],
            inherited,
            props,
            visitor,
        );
        proof {
            let after = forest_view(children@);
            assert(before.take(i + 1).drop_last() == before.take(i as int));
            assert(before.take(i + 1).last() == before[i as int]);
            assert(after.take(i as int) =~= views.take(i as int));
            assert(after.take(i + 1) =~= after.take(i as int).push(children@[i as int]@));
            assert(before.take(i + 1) =~= before.take(i as int).push(before[i as int]));
            if after.take(i + 1) == before.take(i + 1) {
                assert(after.take(i + 1).take(i as int) == before.take(i + 1).take(i as int));
                assert(after.take(i + 1).take(i as int) =~= after.take(i as int));
                assert(before.take(i + 1).take(i as int) =~= before.take(i as int));
                assert(after.take(i + 1)[i as int] == before.take(i + 1)[i as int]);
            }
        }
        mutated = mutated || changed;
        i += 1;
    }
    proof {
        assert(forest_view(children@).take(i as int) == forest_view(children@));
        assert(before.take(i as int) == before);
    }
    mutated
}

/// Rewrites `node` with `visitor`, and then, in the same way, each child that
/// the rewritten node has, working out on the way down whether the size of
/// each node is imposed on it from above. Says whether anything changed.
pub fn recursive_visitor_mut_sized_downwards<V: NodeVisitor>(
    node: &mut IntermediateNode,
    inherited: &InheritedProperties,
    props: RecursiveVisitorMutSizedDownwardsProps,
    visitor: &V,
) -> (mutated: bool)
    ensures
        final(node)@ == visit_all(*visitor, old(node)@, inherited@, props),
        mutated == (final(node)@ != old(node)@),
        final(node)@ == old(node)@ || improves(old(node)@, final(node)@),
    decreases node_count(old(node)@), 0int,
{
    let inclusive = RecursiveVisitorMutSizedDownwardsProps {
        width_from_descent_inclusive: width_set_by_self(node)
            || props.width_from_descent_inclusive,
        height_from_descent_inclusive: height_set_by_self(node)
            || props.height_from_descent_inclusive,
    };
    let mut mutated = visitor.visit(node, inherited, inclusive);
    proof {
        visitor.lemma_visited_improves(old(node)@, inherited@, inclusive);
    }
    let ghost here = node@;
    let inherited_here = InheritedProperties::inherit(node, inherited);
    let parent_flex_direction = match &node.flex_container {
        Some(f) => Some(f.direction),
        None => None,
    };
    let parent_align_items = match &node.flex_container {
        Some(f) => Some(f.align_items),
        None => None,
    };
    match &mut node.node_type {
        IntermediateNodeType::Frame { children } => {
            let ghost before = forest_view(children@);
            let ghost children_before = children@;
            proof {
                assert(before =~= here.children());
            }
            let crowded = count_static(children) > 1;
            let changed = visit_children(
                children,
                &inherited_here,
                parent_flex_direction,
                parent_align_items,
                crowded,
                inclusive,
                visitor,
            );
            proof {
                let after = forest_view(children@);
                assert forall|i: int| 0 <= i < before.len() implies after[i] == before[i]
                    || improves(before[i], #[trigger] after[i]) by {
                    assert(after[i] == children@[i]@);
                    assert(before[i] == children_before[i]@);
                }
                lemma_forest_settles(before, after);
            }
            mutated = mutated || changed;
        },
        _ => {},
    }
    proof {
        if node.node_type is Frame {
            lemma_frame_view(*node);
        }
        lemma_with_children_settles(here, node@.children());
        assert(node@ == here.with_children(node@.children()));
    }
    mutated
}

/// Rewrites `node` with `visitor`, and then, in the same way, each child that
/// the rewritten node has. Says whether anything changed.
pub fn recursive_visitor_mut<V: NodeVisitor>(
    node: &mut IntermediateNode,
    inherited_properties: &InheritedProperties,
    visitor: &V,
) -> (mutated: bool)
    ensures
        final(node)@ == visit_all(
            *visitor,
            old(node)@,
            inherited_properties@,
            RecursiveVisitorMutSizedDownwardsProps {
                width_from_descent_inclusive: false,
                height_from_descent_inclusive: false,
            },
        ),
        mutated == (final(node)@ != old(node)@),
        final(node)@ == old(node)@ || improves(old(node)@, final(node)@),
{
    recursive_visitor_mut_sized_downwards(
        node,
        inherited_properties,
        RecursiveVisitorMutSizedDownwardsProps {
            width_from_descent_inclusive: false,
            height_from_descent_inclusive: false,
        },
        visitor,
    )
}

/// A test that decides which nodes stay in a tree, given what each node
/// inherits.
pub trait NodeFilter: Sized {
    /// Whether `node` stays.
    spec fn keeps(&self, node: NodeView, inherited: InheritedView) -> bool;

    /// Whether `node` stays.
    fn keep(&self, node: &IntermediateNode, inherited: &InheritedProperties) -> (r: bool)
        ensures
            r == self.keeps(node@, inherited@),
    ;
}

/// The tree after every node below the root that, once its own children are
/// gone through, does not pass `filter` is removed with all it holds.
pub open spec fn filter_all<F: NodeFilter>(
    filter: F,
    node: NodeView,
    inherited: InheritedView,
) -> NodeView
    decreases node, 1int,
{
    match node.node_type {
        NodeTypeView::Frame { children } => NodeView {
            node_type: NodeTypeView::Frame {
                children: filter_each(filter, children, spec_inherit(node, inherited)),
            },
            ..node
        },
        _ => node,
    }
}

/// The children of one node after each is gone through and those that do not
/// pass `filter` are removed.
pub open spec fn filter_each<F: NodeFilter>(
    filter: F,
    nodes: Seq<NodeView>,
    inherited: InheritedView,
) -> Seq<NodeView>
    decreases nodes, 0int,
{
    if nodes.len() == 0 {
        Seq::empty()
    } else {
        let before = filter_each(filter, nodes.drop_last(), inherited);
        let last = filter_all(filter, nodes.last(), inherited);
        if filter.keeps(last, inherited) {
            before.push(last)
        } else {
            before
        }
    }
}

/// Filtering a tree that was filtered changes nothing.
pub proof fn lemma_filter_all_idempotent<F: NodeFilter>(
    filter: F,
    node: NodeView,
    inherited: InheritedView,
)
    ensures
        filter_all(filter, filter_all(filter, node, inherited), inherited) == filter_all(
            filter,
            node,
            inherited,
        ),
    decreases node, 1int,
{
    match node.node_type {
        NodeTypeView::Frame { children } => {
            lemma_filter_each_idempotent(filter, children, spec_inherit(node, inherited));
            let once = filter_all(filter, node, inherited);
            assert(spec_inherit(once, inherited) == spec_inherit(node, inherited));
        },
        _ => {},
    }
}

/// Filtering the children of a node that were filtered changes nothing.
pub proof fn lemma_filter_each_idempotent<F: NodeFilter>(
    filter: F,
    nodes: Seq<NodeView>,
    inherited: InheritedView,
)
    ensures
        filter_each(filter, filter_each(filter, nodes, inherited), inherited) == filter_each(
            filter,
            nodes,
            inherited,
        ),
    decreases nodes, 0int,
{
    if nodes.len() > 0 {
        lemma_filter_each_idempotent(filter, nodes.drop_last(), inherited);
        lemma_filter_all_idempotent(filter, nodes.last(), inherited);
        let before = filter_each(filter, nodes.drop_last(), inherited);
        let last = filter_all(filter, nodes.last(), inherited);
        if filter.keeps(last, inherited) {
            assert(before.push(last).drop_last() == before);
            assert(before.push(last).last() == last);
        }
    }
}

/// Filtering a tree leaves it as it is or makes it simpler.
pub proof fn lemma_filter_all_settles<F: NodeFilter>(
    filter: F,
    node: NodeView,
    inherited: InheritedView,
)
    ensures
        filter_all(filter, node, inherited) == node || improves(
            node,
            filter_all(filter, node, inherited),
        ),
    decreases node, 1int,
{
    match node.node_type {
        NodeTypeView::Frame { children } => {
            lemma_filter_each_settles(filter, children, spec_inherit(node, inherited));
            lemma_with_children_settles(
                node,
                filter_each(filter, children, spec_inherit(node, inherited)),
            );
        },
        _ => {},
    }
}

/// Filtering the children of a node leaves them as they are or makes them
/// simpler.
pub proof fn lemma_filter_each_settles<F: NodeFilter>(
    filter: F,
    nodes: Seq<NodeView>,
    inherited: InheritedView,
)
    ensures
        filter_each(filter, nodes, inherited) == nodes || forest_improves(
            nodes,
            filter_each(filter, nodes, inherited),
        ),
    decreases nodes, 0int,
{
    if nodes.len() > 0 {
        let before = filter_each(filter, nodes.drop_last(), inherited);
        let last = filter_all(filter, nodes.last(), inherited);
        lemma_filter_each_settles(filter, nodes.drop_last(), inherited);
        lemma_filter_all_settles(filter, nodes.last(), inherited);
        lemma_node_count_positive(nodes.last());
        lemma_forest_push(before, last);
        lemma_forest_push(nodes.drop_last(), nodes.last());
        assert(nodes.drop_last().push(nodes.last()) =~= nodes);
        if filter.keeps(last, inherited) && before == nodes.drop_last() && last == nodes.last() {
            assert(before.push(last) =~= nodes);
        }
    }
}

fn filter_children<F: NodeFilter>(
    children: &mut Vec<IntermediateNode>,
    inherited: &InheritedProperties,
    filter: &F,
) -> (mutated: bool)
    ensures
        forest_view(final(children)@) == filter_each(
            *filter,
            forest_view(old(children)@),
            inherited@,
        ),
        mutated == (forest_view(final(children)@) != forest_view(old(children)@)),
        forest_view(final(children)@) == forest_view(old(children)@) || forest_improves(
            forest_view(old(children)@),
            forest_view(final(children)@),
        ),
    decreases forest_count(forest_view(old(children)@)), 1int,
{
    let ghost before = forest_view(children@);
    let ghost mut k: int = 0;
    let mut mutated = false;
    let mut i: usize = 0;
    while i < children.len()
        invariant
            0 <= k <= before.len(),
            i <= children@.len(),
            children@.len() - i == before.len() - k,
            before == forest_view(old(children)@),
            forall|j: int|
                0 <= j < before.len() - k ==> #[trigger] children@[i + j] == old(children)@[k + j],
            forest_view(children@).take(i as int) == filter_each(
                *filter,
                before.take(k),
                inherited@,
            ),
            mutated == (forest_view(children@).take(i as int) != before.take(k)),
            forest_view(children@).take(i as int) == before.take(k) || forest_improves(
                before.take(k),
                forest_view(children@).take(i as int),
            ),
        decreases children@.len() - i,
    {
        let ghost views = forest_view(children@);
        proof {
            assert(children@[i + 0] == old(children)@[k + 0]);
            lemma_member_count(before, k);
            assert(before.take(k + 1).drop_last() == before.take(k));
            assert(before.take(k + 1).last() == before[k]);
        }
        let changed = recursive_filter(&mut children[i], inherited, filter);
        let ghost mid = forest_view(children@);
        let ghost prev = children@;
        let ghost child = children@[i as int]@;
        proof {
            assert(mid.take(i as int) =~= views.take(i as int));
            assert(mid.take(i + 1) =~= mid.take(i as int).push(child));
            assert(before.take(k + 1) =~= before.take(k).push(before[k]));
            lemma_forest_push(mid.take(i as int), child);
            lemma_forest_push(before.take(k), before[k]);
            lemma_node_count_positive(before[k]);
            assert forall|j: int| 0 <= j < before.len() - (k + 1) implies #[trigger] prev[i + 1
                + j] == old(children)@[k + 1 + j] by {
                assert(prev[i + (j + 1)] == old(children)@[k + (j + 1)]);
            }
        }
        if filter.keep(&children[i], inherited) {
            mutated = mutated || changed;
            i += 1;
        } else {
            children.remove(i);
            mutated = true;
            proof {
                assert(forest_view(children@).take(i as int) =~= mid.take(i as int));
                assert forall|j: int| 0 <= j < before.len() - (k + 1) implies #[trigger] children@[i
                    + j] == old(children)@[k + 1 + j] by {
                    assert(children@[i + j] == prev[i + 1 + j]);
                }
            }
        }
        proof {
            k = k + 1;
        }
    }
    proof {
        assert(forest_view(children@).take(i as int) == forest_view(children@));
        assert(before.take(k) == before);
    }
    mutated
}

/// Goes through the children of `node`, and through theirs, and removes each
/// one that, once its own children are gone through, does not pass `filter`.
/// The root stays. Says whether anything was removed.
pub fn recursive_filter<F: NodeFilter>(
    node: &mut IntermediateNode,
    inherited_properties: &InheritedProperties,
    filter: &F,
) -> (mutated: bool)
    ensures
        final(node)@ == filter_all(*filter, old(node)@, inherited_properties@),
        mutated == (final(node)@ != old(node)@),
        final(node)@ == old(node)@ || improves(old(node)@, final(node)@),
    decreases node_count(old(node)@), 0int,
{
    let inherited_here = InheritedProperties::inherit(node, inherited_properties);
    let ghost here = node@;
    let mut mutated = false;
    match &mut node.node_type {
        IntermediateNodeType::Frame { children } => {
            proof {
                assert(forest_view(children@) =~= here.children());
            }
            mutated = filter_children(children, &inherited_here, filter);
        },
        _ => {},
    }
    proof {
        if node.node_type is Frame {
            lemma_frame_view(*node);
            assert(node@ == here.with_children(node@.children()));
        }
        lemma_with_children_settles(here, node@.children());
    }
    mutated
}

/// Whether none of the five passes changes the tree.
pub open spec fn is_fixpoint(node: NodeView) -> bool {
    &&& combine_parent_child::spec_combine_parent_child(node) == node
    &&& collapse_to_padding::spec_collapse_to_padding(node) == node
    &&& collapse_to_gap::spec_collapse_to_gap(node) == node
    &&& drop_empty_absolute_frames::without_empty_absolute_frames(node) == node
    &&& elevate_frame_appearance_properties::spec_elevate_frame_appearance_properties(node)
        == node
}

/// The tree after the first of the five passes, in their order, that changes
/// it; the tree itself where none does.
pub open spec fn spec_run_passes(node: NodeView) -> NodeView {
    if combine_parent_child::spec_combine_parent_child(node) != node {
        combine_parent_child::spec_combine_parent_child(node)
    } else if collapse_to_padding::spec_collapse_to_padding(node) != node {
        collapse_to_padding::spec_collapse_to_padding(node)
    } else if collapse_to_gap::spec_collapse_to_gap(node) != node {
        collapse_to_gap::spec_collapse_to_gap(node)
    } else if drop_empty_absolute_frames::without_empty_absolute_frames(node) != node {
        drop_empty_absolute_frames::without_empty_absolute_frames(node)
    } else {
        elevate_frame_appearance_properties::spec_elevate_frame_appearance_properties(node)
    }
}

/// A run of the passes that changes the tree lowers its [`potential`]: the
/// runs come to an end after no more rounds than the potential of the tree
/// at the start.
pub proof fn lemma_run_passes_lowers_potential(node: NodeView)
    ensures
        spec_run_passes(node) == node || (improves(node, spec_run_passes(node)) && potential(
            spec_run_passes(node),
        ) < potential(node)),
{
    let nothing = crate::inherited_properties::nothing_inherited();
    let from_above = RecursiveVisitorMutSizedDownwardsProps {
        width_from_descent_inclusive: false,
        height_from_descent_inclusive: false,
    };
    lemma_visit_all_settles(combine_parent_child::AbsorbOnlyChild, node, nothing, from_above);
    lemma_visit_all_settles(collapse_to_padding::FoldSpacerIntoPadding, node, nothing, from_above);
    lemma_visit_all_settles(collapse_to_gap::TurnSpacersIntoGap, node, nothing, from_above);
    lemma_filter_all_settles(
        drop_empty_absolute_frames::KeepAllButEmptyAbsoluteFrames,
        node,
        nothing,
    );
    lemma_visit_all_settles(
        elevate_frame_appearance_properties::ElevateFrameAppearance,
        node,
        nothing,
        from_above,
    );
}

/// The tree after the passes have been run over and over until none of them
/// changes it.
pub open spec fn spec_run_to_fixpoint(node: NodeView) -> NodeView
    decreases potential(node),
{
    let next = spec_run_passes(node);
    if next == node {
        node
    } else {
        proof {
            lemma_run_passes_lowers_potential(node);
        }
        spec_run_to_fixpoint(next)
    }
}

/// Runs the passes in their order up to the first one that changes the tree.
/// Says whether one did.
pub fn run_passes(node: &mut IntermediateNode, css_variables: &mut crate::CSSVariablesMap) -> (mutated:
    bool)
    ensures
        final(node)@ == spec_run_passes(old(node)@),
        mutated == (final(node)@ != old(node)@),
        mutated ==> improves(old(node)@, final(node)@),
        !mutated ==> is_fixpoint(final(node)@),
        *final(css_variables) == *old(css_variables),
{
    if combine_parent_child(node, css_variables) {
        return true;
    }
    if collapse_to_padding(node, css_variables) {
        return true;
    }
    if collapse_to_gap(node, css_variables) {
        return true;
    }
    if drop_empty_absolute_frames(node, css_variables) {
        return true;
    }
    elevate_frame_appearance_properties(node, css_variables)
}

/// Runs the passes over and over until none of them changes the tree, and
/// says how often one did. Each change takes at least one off the
/// [`potential`] of the tree, so there are no more changes than the potential
/// of the tree at the start, which is at most five times the square of the
/// number of its nodes.
pub fn run_to_fixpoint(node: &mut IntermediateNode, css_variables: &mut crate::CSSVariablesMap) -> (rounds:
    usize)
    ensures
        final(node)@ == spec_run_to_fixpoint(old(node)@),
        is_fixpoint(final(node)@),
        rounds + potential(final(node)@) <= potential(old(node)@),
        rounds <= 5 * node_count(old(node)@) * node_count(old(node)@),
        *final(css_variables) == *old(css_variables),
{
    proof {
        lemma_potential_bounded(node@);
    }
    let mut rounds: usize = 0;
    loop
        invariant
            rounds + potential(node@) <= potential(old(node)@),
            spec_run_to_fixpoint(node@) == spec_run_to_fixpoint(old(node)@),
            *css_variables == *old(css_variables),
        ensures
            node@ == spec_run_to_fixpoint(old(node)@),
            is_fixpoint(node@),
            rounds + potential(node@) <= potential(old(node)@),
            *css_variables == *old(css_variables),
        decreases potential(node@),
    {
        if !run_passes(node, css_variables) {
            break ;
        }
        if rounds < usize::MAX {
            rounds += 1;
        }
    }
    rounds
}

} // verus!
