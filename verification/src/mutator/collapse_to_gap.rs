//! Replacement of equal spacers between the items of a flex container by a gap.
use crate::inherited_properties::{nothing_inherited, InheritedProperties, InheritedView};
use crate::intermediate_node::length::{Length, LengthView};
use crate::intermediate_node::{
    edges_view, forest_view, lemma_frame_view, FlexContainerView, FlexDirection, IntermediateNode,
    IntermediateNodeType, NodeTypeView, NodeView,
};
use crate::mutator::spacer::{
    is_flat_spacer, is_flat_spacer_exec, main_extent, main_extent_exec, same_box,
};
use crate::mutator::{
    forest_count, forest_lift_depth, forest_lift_total, improves, lemma_forest_push,
    lemma_node_count_positive, recursive_visitor_mut, static_count, visit_all, NodeVisitor,
    RecursiveVisitorMutSizedDownwardsProps,
};
use crate::CSSVariablesMap;
use vstd::prelude::*;

verus! {

/// Whether the node at `j` stands between two items: it is in the flow of the
/// parent, and the number of nodes in the flow before it is odd.
pub open spec fn is_gap_position(children: Seq<NodeView>, j: int) -> bool {
    0 <= j < children.len() && !children[j].is_absolute() && static_count(children.take(j)) % 2
        == 1
}

/// Whether every node between two items is a spacer along `direction`.
pub open spec fn gaps_are_spacers(children: Seq<NodeView>, direction: FlexDirection) -> bool {
    forall|j: int| #[trigger]
        is_gap_position(children, j) ==> is_flat_spacer(children[j], direction)
}

/// Whether the nodes between two items all set the same box.
pub open spec fn gaps_agree(children: Seq<NodeView>) -> bool {
    forall|i: int, j: int| #[trigger]
        is_gap_position(children, i) && #[trigger] is_gap_position(children, j) ==> same_box(
            children[i],
            children[j],
        )
}

/// `children` without the nodes that stand between two items.
pub open spec fn without_gaps(children: Seq<NodeView>) -> Seq<NodeView>
    decreases children.len(),
{
    if children.len() == 0 {
        Seq::empty()
    } else {
        let before = without_gaps(children.drop_last());
        if !children.last().is_absolute() && static_count(children.drop_last()) % 2 == 1 {
            before
        } else {
            before.push(children.last())
        }
    }
}

/// Whether the spacers of `parent` can become its gap: it is a flex container
/// without a gap, the nodes in its flow are items and spacers in turn, with an
/// item at either end, and the spacers all set the same box.
pub open spec fn gap_collapses(parent: NodeView) -> bool {
    &&& parent.flex_container.is_some()
    &&& parent.node_type is Frame
    &&& parent.flex_container.unwrap().gap == LengthView::Zero
    &&& static_count(parent.children()) % 2 == 1
    &&& exists|j: int| is_gap_position(parent.children(), j)
    &&& gaps_are_spacers(parent.children(), parent.flex_container.unwrap().direction)
    &&& gaps_agree(parent.children())
}

/// `parent` after its spacers have become its gap, where they can.
pub open spec fn gap_collapsed(parent: NodeView) -> NodeView {
    if gap_collapses(parent) {
        let flex = parent.flex_container.unwrap();
        let children = parent.children();
        let spacer = children[choose|j: int| is_gap_position(children, j)];
        NodeView {
            flex_container: Some(
                FlexContainerView { gap: main_extent(spacer, flex.direction), ..flex },
            ),
            node_type: NodeTypeView::Frame { children: without_gaps(children) },
            ..parent
        }
    } else {
        parent
    }
}

/// Taking out the nodes between the items takes out nodes where there are any.
pub proof fn lemma_without_gaps_count(children: Seq<NodeView>)
    ensures
        forest_count(without_gaps(children)) <= forest_count(children),
        forest_lift_total(without_gaps(children)) <= forest_lift_total(children),
        forest_lift_depth(without_gaps(children)) <= forest_lift_depth(children),
        (exists|j: int| is_gap_position(children, j)) ==> forest_count(without_gaps(children))
            < forest_count(children),
    decreases children.len(),
{
    if children.len() > 0 {
        let before = children.drop_last();
        lemma_without_gaps_count(before);
        lemma_node_count_positive(children.last());
        lemma_forest_push(without_gaps(before), children.last());
        if !(!children.last().is_absolute() && static_count(before) % 2 == 1) {
            if exists|j: int| is_gap_position(children, j) {
                let j = choose|j: int| is_gap_position(children, j);
                assert(children.take(children.len() - 1) == before);
                assert(before.take(j) == children.take(j));
                assert(is_gap_position(before, j));
            }
        }
    } else {
        assert(forall|j: int| !is_gap_position(children, j));
    }
}

fn same_length(a: &Option<Length>, b: &Option<Length>) -> (r: bool)
    ensures
        r == (crate::intermediate_node::optional_length_view(*a)
            == crate::intermediate_node::optional_length_view(*b)),
{
    match (a, b) {
        (Some(x), Some(y)) => x.equals(y),
        (None, None) => true,
        _ => false,
    }
}

fn same_box_exec(a: &IntermediateNode, b: &IntermediateNode) -> (r: bool)
    ensures
        r == same_box(a@, b@),
{
    let same_padding = a.location.padding[0].equals(&b.location.padding[0])
        && a.location.padding[1].equals(&b.location.padding[1]) && a.location.padding[2].equals(
        &b.location.padding[2],
    ) && a.location.padding[3].equals(&b.location.padding[3]);
    proof {
        let pa = edges_view(a.location.padding);
        let pb = edges_view(b.location.padding);
        if same_padding {
            assert(pa =~= pb);
        } else {
            assert(pa[0] != pb[0] || pa[1] != pb[1] || pa[2] != pb[2] || pa[3] != pb[3]);
        }
    }
    same_padding && same_length(&a.location.width, &b.location.width) && same_length(
        &a.location.height,
        &b.location.height,
    )
}

/// Finds the first spacer between two items, where the spacers of the
/// children can become a gap.
fn find_gaps(children: &Vec<IntermediateNode>, direction: FlexDirection) -> (r: Option<usize>)
    ensures
        r.is_some() == (static_count(forest_view(children@)) % 2 == 1 && (exists|j: int|
            is_gap_position(forest_view(children@), j)) && gaps_are_spacers(
            forest_view(children@),
            direction,
        ) && gaps_agree(forest_view(children@))),
        r.is_some() ==> is_gap_position(forest_view(children@), r.unwrap() as int),
{
    let ghost views = forest_view(children@);
    let mut rank: usize = 0;
    let mut reference: Option<usize> = None;
    let mut i: usize = 0;
    while i < children.len()
        invariant
            i <= children.len(),
            views == forest_view(children@),
            rank <= i,
            rank == static_count(views.take(i as int)),
            reference.is_some() ==> reference.unwrap() < i && is_gap_position(
                views,
                reference.unwrap() as int,
            ),
            reference.is_none() ==> forall|j: int| 0 <= j < i ==> !is_gap_position(views, j),
            forall|j: int|
                0 <= j < i && #[trigger] is_gap_position(views, j) ==> is_flat_spacer(
                    views[j],
                    direction,
                ) && same_box(views[reference.unwrap() as int], views[j]),
        decreases children.len() - i,
    {
        proof {
            assert(views.take(i + 1).drop_last() == views.take(i as int));
            assert(views.take(i + 1).last() == children@[i as int]@);
        }
        if children[i].location.inset.is_none() {
            if rank % 2 == 1 {
                assert(is_gap_position(views, i as int));
                if !is_flat_spacer_exec(&children[i], direction) {
                    return None;
                }
                match reference {
                    Some(first) => {
                        if !same_box_exec(&children[first], &children[i]) {
                            return None;
                        }
                    },
                    None => {
                        reference = Some(i);
                    },
                }
            }
            rank += 1;
        }
        i += 1;
    }
    proof {
        assert(views.take(i as int) == views);
    }
    if rank % 2 == 1 && reference.is_some() {
        proof {
            let first = reference.unwrap() as int;
            assert forall|a: int, b: int| #[trigger]
                is_gap_position(views, a) && #[trigger] is_gap_position(
                    views,
                    b,
                ) implies same_box(views[a], views[b]) by {
                assert(same_box(views[first], views[a]));
                assert(same_box(views[first], views[b]));
            }
        }
        reference
    } else {
        None
    }
}

fn remove_gaps(children: &mut Vec<IntermediateNode>)
    ensures
        forest_view(final(children)@) == without_gaps(forest_view(old(children)@)),
{
    let ghost before = forest_view(children@);
    let ghost mut k: int = 0;
    let count = children.len();
    let mut rank: usize = 0;
    let mut i: usize = 0;
    while i < children.len()
        invariant
            0 <= k <= before.len(),
            before.len() == count,
            i <= children@.len(),
            rank <= k,
            children@.len() - i == before.len() - k,
            before == forest_view(old(children)@),
            before.len() == old(children)@.len(),
            rank == static_count(before.take(k)),
            forall|j: int|
                0 <= j < before.len() - k ==> #[trigger] children@[i + j] == old(children)@[k + j],
            forest_view(children@).take(i as int) == without_gaps(before.take(k)),
        decreases children@.len() - i,
    {
        let ghost views = forest_view(children@);
        let ghost prev = children@;
        proof {
            assert(k < before.len());
            assert(children@[i + 0] == old(children)@[k + 0]);
            assert(before.take(k + 1).drop_last() == before.take(k));
            assert(before.take(k + 1).last() == before[k]);
            assert(views.take(i + 1) =~= views.take(i as int).push(before[k]));
            assert forall|j: int| 0 <= j < before.len() - (k + 1) implies #[trigger] prev[i + 1
                + j] == old(children)@[k + 1 + j] by {
                assert(prev[i + (j + 1)] == old(children)@[k + (j + 1)]);
            }
        }
        let in_flow = children[i].location.inset.is_none();
        if in_flow && rank % 2 == 1 {
            children.remove(i);
            proof {
                assert(forest_view(children@).take(i as int) =~= views.take(i as int));
                assert forall|j: int| 0 <= j < before.len() - (k + 1) implies #[trigger] children@[i
                    + j] == old(children)@[k + 1 + j] by {
                    assert(children@[i + j] == prev[i + 1 + j]);
                }
            }
        } else {
            i += 1;
        }
        if in_flow {
            rank += 1;
        }
        proof {
            k = k + 1;
        }
    }
    proof {
        assert(forest_view(children@).take(i as int) == forest_view(children@));
        assert(before.take(k) == before);
    }
}

/// The rewrite of [`collapse_to_gap`].
pub struct TurnSpacersIntoGap;

impl NodeVisitor for TurnSpacersIntoGap {
    open spec fn visited(
        &self,
        node: NodeView,
        inherited: InheritedView,
        props: RecursiveVisitorMutSizedDownwardsProps,
    ) -> NodeView {
        gap_collapsed(node)
    }

    proof fn lemma_visited_improves(
        &self,
        node: NodeView,
        inherited: InheritedView,
        props: RecursiveVisitorMutSizedDownwardsProps,
    ) {
        if gap_collapses(node) {
            lemma_without_gaps_count(node.children());
            let after = gap_collapsed(node);
            assert(after.node_type->children == without_gaps(node.children()));
        }
    }

    fn visit(
        &self,
        node: &mut IntermediateNode,
        inherited: &InheritedProperties,
        props: RecursiveVisitorMutSizedDownwardsProps,
    ) -> (mutated: bool) {
        match find_gap(node) {
            None => false,
            Some(gap) => {
                proof {
                    lemma_without_gaps_count(node@.children());
                }
                set_gap(node, gap);
                true
            },
        }
    }
}

/// The extent of the spacers of `node`, where they can become its gap.
fn find_gap(node: &IntermediateNode) -> (r: Option<Length>)
    ensures
        r.is_some() == gap_collapses(node@),
        r.is_some() ==> gap_collapsed(node@).flex_container.unwrap().gap == r.unwrap()@,
{
    let direction = match &node.flex_container {
        Some(f) => {
            match &f.gap {
                Length::Zero => {},
                _ => {
                    return None;
                },
            }
            f.direction
        },
        None => {
            return None;
        },
    };
    match &node.node_type {
        IntermediateNodeType::Frame { children } => {
            proof {
                lemma_frame_view(*node);
            }
            match find_gaps(children, direction) {
                Some(first) => {
                    proof {
                        let views = node@.children();
                        let chosen = choose|j: int| is_gap_position(views, j);
                        assert(is_gap_position(views, first as int));
                        assert(is_gap_position(views, chosen));
                        assert(same_box(views[chosen], views[first as int]));
                    }
                    Some(main_extent_exec(&children[first], direction))
                },
                None => None,
            }
        },
        _ => None,
    }
}

/// Makes `gap` the gap of `node` and removes the spacers between its items.
fn set_gap(node: &mut IntermediateNode, gap: Length)
    requires
        old(node).flex_container.is_some(),
        old(node).node_type is Frame,
    ensures
        final(node)@ == (NodeView {
            flex_container: Some(
                FlexContainerView { gap: gap@, ..old(node)@.flex_container.unwrap() },
            ),
            node_type: NodeTypeView::Frame { children: without_gaps(old(node)@.children()) },
            ..old(node)@
        }),
{
    proof {
        lemma_frame_view(*node);
    }
    match &mut node.flex_container {
        Some(f) => {
            f.gap = gap;
        },
        None => {},
    }
    match &mut node.node_type {
        IntermediateNodeType::Frame { children } => {
            remove_gaps(children);
        },
        _ => {},
    }
    proof {
        lemma_frame_view(*node);
    }
}

/// The tree after [`collapse_to_gap`].
pub open spec fn spec_collapse_to_gap(node: NodeView) -> NodeView {
    visit_all(
        TurnSpacersIntoGap,
        node,
        nothing_inherited(),
        RecursiveVisitorMutSizedDownwardsProps {
            width_from_descent_inclusive: false,
            height_from_descent_inclusive: false,
        },
    )
}

/// Goes through the tree from the root down and, at each flex container
/// without a gap whose flow is items and equal spacers in turn, makes the
/// extent of the spacers the gap and removes them. Says whether anything
/// changed.
pub fn collapse_to_gap(node: &mut IntermediateNode, _css_variables: &mut CSSVariablesMap) -> (mutated:
    bool)
    ensures
        final(node)@ == spec_collapse_to_gap(old(node)@),
        mutated == (final(node)@ != old(node)@),
        mutated ==> improves(old(node)@, final(node)@),
        *final(_css_variables) == *old(_css_variables),
{
    recursive_visitor_mut(node, &InheritedProperties::default(), &TurnSpacersIntoGap)
}

} // verus!
