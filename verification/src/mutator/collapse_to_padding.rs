//! Folding of a spacer at either end of a flex container into its padding.
use crate::inherited_properties::{InheritedProperties, InheritedView};
use crate::intermediate_node::length::spec_add;
use crate::intermediate_node::{
    lemma_frame_view, FlexDirection, IntermediateNode, IntermediateNodeType, JustifyContent,
    LocationView, NodeTypeView, NodeView,
};
use crate::mutator::spacer::{
    find_first_static, find_last_static, first_static, is_flat_spacer, is_flat_spacer_exec,
    last_static, lemma_first_static_in_range, lemma_last_static_in_range, main_extent,
    main_extent_exec,
};
use crate::mutator::{
    improves, lemma_forest_remove, lemma_node_count_positive, recursive_visitor_mut, visit_all,
    NodeVisitor, RecursiveVisitorMutSizedDownwardsProps,
};
use crate::CSSVariablesMap;
use vstd::prelude::*;

verus! {

/// The padding edge that lies at the start or at the end of the main axis.
pub open spec fn padding_edge(direction: FlexDirection, at_start: bool) -> int {
    match (direction, at_start) {
        (FlexDirection::Row, true) => 3,
        (FlexDirection::Row, false) => 1,
        (FlexDirection::Column, true) => 0,
        (FlexDirection::Column, false) => 2,
    }
}

/// Whether a flex container packs its items together, so that a spacer at
/// either end does the same as padding.
pub open spec fn packs_items(justify_content: Option<JustifyContent>) -> bool {
    justify_content != Some(JustifyContent::SpaceBetween)
}

/// `parent` without its child at `index`, and with the extent of that child
/// along the main axis and the gap of `parent` added to its padding at `edge`.
pub open spec fn folded_into_padding(parent: NodeView, index: int, edge: int) -> NodeView {
    let flex = parent.flex_container.unwrap();
    let padding = parent.location.padding;
    let extent = main_extent(parent.children()[index], flex.direction);
    NodeView {
        location: LocationView {
            padding: padding.update(edge, spec_add(spec_add(padding[edge], flex.gap), extent)),
            ..parent.location
        },
        node_type: NodeTypeView::Frame { children: parent.children().remove(index) },
        ..parent
    }
}

/// Whether the child of `parent` at `index` can be folded into its padding.
pub open spec fn folds_at(parent: NodeView, index: Option<int>) -> bool {
    index.is_some() && is_flat_spacer(
        parent.children()[index.unwrap()],
        parent.flex_container.unwrap().direction,
    )
}

/// `parent` after one spacer is folded into its padding. Where `parent` is a
/// flex container that packs its items, and the last, else the first, of its
/// children in the flow is a spacer along its main axis, that child goes and
/// its extent and the gap are added to the padding at that end.
pub open spec fn padding_collapsed(parent: NodeView) -> NodeView {
    if parent.flex_container.is_some() && packs_items(
        parent.flex_container.unwrap().justify_content,
    ) && parent.node_type is Frame {
        let direction = parent.flex_container.unwrap().direction;
        let last = last_static(parent.children());
        let first = first_static(parent.children());
        if folds_at(parent, last) {
            folded_into_padding(parent, last.unwrap(), padding_edge(direction, false))
        } else if folds_at(parent, first) {
            folded_into_padding(parent, first.unwrap(), padding_edge(direction, true))
        } else {
            parent
        }
    } else {
        parent
    }
}

/// The rewrite of [`collapse_to_padding`].
pub struct FoldSpacerIntoPadding;

fn fold(node: &mut IntermediateNode, index: usize, edge: usize)
    requires
        old(node).flex_container.is_some(),
        old(node).node_type is Frame,
        index < old(node).node_type->children@.len(),
        edge < 4,
    ensures
        final(node)@ == folded_into_padding(old(node)@, index as int, edge as int),
{
    proof {
        lemma_frame_view(*node);
    }
    let direction = match &node.flex_container {
        Some(f) => f.direction,
        None => FlexDirection::Row,
    };
    let gap = match &node.flex_container {
        Some(f) => f.gap.clone(),
        None => crate::intermediate_node::Length::Zero,
    };
    let extent = match &node.node_type {
        IntermediateNodeType::Frame { children } => main_extent_exec(&children[index], direction),
        _ => crate::intermediate_node::Length::Zero,
    };
    let padding = node.location.padding[edge].clone().add(gap).add(extent);
    node.location.padding[edge] = padding;
    match &mut node.node_type {
        IntermediateNodeType::Frame { children } => {
            children.remove(index);
        },
        _ => {},
    }
    proof {
        lemma_frame_view(*node);
        let target = folded_into_padding(old(node)@, index as int, edge as int);
        assert(node@.location.padding =~= target.location.padding);
        assert(node@.children() =~= target.children());
    }
}

impl NodeVisitor for FoldSpacerIntoPadding {
    open spec fn visited(
        &self,
        node: NodeView,
        inherited: InheritedView,
        props: RecursiveVisitorMutSizedDownwardsProps,
    ) -> NodeView {
        padding_collapsed(node)
    }

    proof fn lemma_visited_improves(
        &self,
        node: NodeView,
        inherited: InheritedView,
        props: RecursiveVisitorMutSizedDownwardsProps,
    ) {
        let after = padding_collapsed(node);
        if after != node {
            let children = node.children();
            lemma_last_static_in_range(children);
            lemma_first_static_in_range(children);
            let index = if folds_at(node, last_static(children)) {
                last_static(children).unwrap()
            } else {
                first_static(children).unwrap()
            };
            lemma_forest_remove(children, index);
            lemma_node_count_positive(children[index]);
            assert(after.node_type->children == children.remove(index));
        }
    }

    fn visit(
        &self,
        node: &mut IntermediateNode,
        inherited: &InheritedProperties,
        props: RecursiveVisitorMutSizedDownwardsProps,
    ) -> (mutated: bool) {
        let (direction, packs) = match &node.flex_container {
            Some(f) => (
                f.direction,
                match f.justify_content {
                    Some(JustifyContent::SpaceBetween) => false,
                    _ => true,
                },
            ),
            None => {
                return false;
            },
        };
        if !packs {
            return false;
        }
        let (last, first, last_folds, first_folds) = match &node.node_type {
            IntermediateNodeType::Frame { children } => {
                proof {
                    lemma_frame_view(*node);
                }
                let last = find_last_static(children);
                let first = find_first_static(children);
                let last_folds = match last {
                    Some(i) => is_flat_spacer_exec(&children[i], direction),
                    None => false,
                };
                let first_folds = match first {
                    Some(i) => is_flat_spacer_exec(&children[i], direction),
                    None => false,
                };
                (last, first, last_folds, first_folds)
            },
            _ => {
                return false;
            },
        };
        proof {
            self.lemma_visited_improves(node@, inherited@, props);
            lemma_node_count_positive(node@);
        }
        if last_folds {
            let edge: usize = match direction {
                FlexDirection::Row => 1,
                FlexDirection::Column => 2,
            };
            fold(node, last.unwrap(), edge);
            true
        } else if first_folds {
            let edge: usize = match direction {
                FlexDirection::Row => 3,
                FlexDirection::Column => 0,
            };
            fold(node, first.unwrap(), edge);
            true
        } else {
            false
        }
    }
}

/// The tree after [`collapse_to_padding`].
pub open spec fn spec_collapse_to_padding(node: NodeView) -> NodeView {
    visit_all(
        FoldSpacerIntoPadding,
        node,
        crate::inherited_properties::nothing_inherited(),
        RecursiveVisitorMutSizedDownwardsProps {
            width_from_descent_inclusive: false,
            height_from_descent_inclusive: false,
        },
    )
}

/// Goes through the tree from the root down and, at each flex container that
/// packs its items, folds one spacer at the end or at the start of its flow
/// into the padding at that end. Says whether anything changed.
pub fn collapse_to_padding(node: &mut IntermediateNode, _css_variables: &mut CSSVariablesMap) -> (mutated:
    bool)
    ensures
        final(node)@ == spec_collapse_to_padding(old(node)@),
        mutated == (final(node)@ != old(node)@),
        mutated ==> improves(old(node)@, final(node)@),
        *final(_css_variables) == *old(_css_variables),
{
    recursive_visitor_mut(node, &InheritedProperties::default(), &FoldSpacerIntoPadding)
}

} // verus!
