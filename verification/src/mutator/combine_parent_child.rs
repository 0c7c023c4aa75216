//! Absorption of an only child into its parent.
use crate::decimal::Decimal;
use crate::inherited_properties::{nothing_inherited, or_else, InheritedProperties, InheritedView};
use crate::intermediate_node::length::{spec_add, Length, LengthView};
use crate::intermediate_node::{
    forest_view, lemma_frame_view, text_view, AlignItems, AlignSelf, Appearance, AppearanceView,
    FlexContainer, FlexContainerView, FlexDirection, IntermediateNode, IntermediateNodeType,
    JustifyContent, LocationView, NodeTypeView, NodeView,
};
use crate::mutator::alignment::{
    axis_facts, attempt_verdict, counter_axis_verdict, spec_decide, lemma_never_merges_double_sized,
    main_axis_verdict, Alignment, AxisFacts, Decision, FlexAttempt, FlexShape, MergeFacts, Verdict,
};
use crate::mutator::elevate_frame_appearance_properties::{block_flex, flex_or_block, grows_fully};
use crate::mutator::{
    forest_count, forest_lift_depth, forest_lift_total, improves, inclusive_props,
    lemma_forest_update, lift_depth, lift_total, node_count, own_lifts,
    recursive_visitor_mut_sized_downwards, static_count, visit_all, NodeVisitor,
    RecursiveVisitorMutSizedDownwardsProps,
};
use crate::CSSVariablesMap;
use vstd::prelude::*;

verus! {

/// Flex settings without their gap.
pub open spec fn shape_of(flex: FlexContainerView) -> FlexShape {
    FlexShape {
        align_items: flex.align_items,
        direction: flex.direction,
        justify_content: flex.justify_content,
    }
}

/// Whether an opacity changes nothing: it is not set, or it is one.
pub open spec fn is_opaque(opacity: Option<Decimal>) -> bool {
    match opacity {
        Some(o) => o.micros == 1_000_000,
        None => true,
    }
}

/// Whether `parent` has a single child that it could absorb: the child has
/// no background, opacity, border radius, box shadow, stroke or link of its
/// own, is in the flow of `parent`, and so are all of its own children.
pub open spec fn can_absorb(parent: NodeView) -> bool {
    &&& parent.node_type is Frame
    &&& parent.children().len() == 1
    &&& ({
        let child = parent.children()[0];
        &&& child.frame_appearance.background.is_none()
        &&& is_opaque(child.appearance.opacity)
        &&& child.frame_appearance.border_radius.is_none()
        &&& child.frame_appearance.box_shadow.is_none()
        &&& child.frame_appearance.stroke.is_none()
        &&& child.href.is_none()
        &&& !child.is_absolute()
        &&& static_count(child.children()) == child.children().len()
    })
}

/// What is known of `parent` and its child when the flex settings of their
/// merger are chosen.
pub open spec fn merge_facts(parent: NodeView, props: RecursiveVisitorMutSizedDownwardsProps) -> MergeFacts {
    let child = parent.children()[0];
    let grandchildren = child.children();
    let single = grandchildren.len() == 1;
    MergeFacts {
        parent_flex: shape_of(flex_or_block(parent)),
        child_flex: shape_of(flex_or_block(child)),
        child_align_self: child.location.align_self,
        child_grows_fully: grows_fully(child.location.flex_grow),
        child_sets_width: child.location.width.is_some(),
        child_sets_height: child.location.height.is_some(),
        grandchild_align_self: if single {
            grandchildren[0].location.align_self
        } else {
            None
        },
        grandchild_grows_fully: single && grows_fully(grandchildren[0].location.flex_grow),
        child_has_multiple_children: grandchildren.len() > 1,
        width_from_descent_inclusive: props.width_from_descent_inclusive,
        height_from_descent_inclusive: props.height_from_descent_inclusive,
    }
}

/// `node` once its parent has absorbed the node between them: it no longer
/// places itself, and grows fully or not at all.
pub open spec fn regrown(node: NodeView, use_flex_grow: bool) -> NodeView {
    NodeView {
        location: LocationView {
            align_self: None,
            flex_grow: if use_flex_grow {
                Some(Decimal { micros: 1_000_000 })
            } else {
                None
            },
            ..node.location
        },
        ..node
    }
}

/// What a parent is once it has absorbed its child: what the child was, with
/// its only child, where it has just one, regrown.
pub open spec fn absorbed_type(child: NodeView, use_flex_grow: bool) -> NodeTypeView {
    match child.node_type {
        NodeTypeView::Frame { children } => NodeTypeView::Frame {
            children: if children.len() == 1 {
                children.update(0, regrown(children[0], use_flex_grow))
            } else {
                children
            },
        },
        other => other,
    }
}

/// The extent that a parent takes from its child: that of the child with
/// the paddings of the parent around it; the parent's own where the child
/// sets none.
pub open spec fn absorbed_extent(
    child: Option<LengthView>,
    parent: Option<LengthView>,
    near: LengthView,
    far: LengthView,
) -> Option<LengthView> {
    match child {
        Some(extent) => Some(spec_add(spec_add(extent, near), far)),
        None => parent,
    }
}

/// The flex settings of a merger: gap and direction of the attempt that was
/// chosen, with the placement and alignment that were found for it.
pub open spec fn merged_flex(parent: NodeView, decision: Decision) -> FlexContainerView {
    let base = match decision.attempt {
        FlexAttempt::Parent => flex_or_block(parent),
        FlexAttempt::Child => flex_or_block(parent.children()[0]),
        FlexAttempt::Horizontal => FlexContainerView {
            direction: FlexDirection::Row,
            ..block_flex()
        },
        FlexAttempt::Vertical => block_flex(),
    };
    FlexContainerView {
        justify_content: Some(decision.justify_content),
        align_items: decision.align_items,
        ..base
    }
}

/// `parent` once it has absorbed its only child. It keeps its identity, its
/// place in its own parent, its opacity, the look of its box and its link.
/// From the child it takes what it is, and width and height with its own
/// paddings added; the paddings of the two add up; the appearance is that of
/// the child where the child sets it.
pub open spec fn merged(parent: NodeView, decision: Decision) -> NodeView {
    let child = parent.children()[0];
    let padding = parent.location.padding;
    let inner = child.location.padding;
    NodeView {
        flex_container: Some(merged_flex(parent, decision)),
        location: LocationView {
            padding: seq![
                spec_add(padding[0], inner[0]),
                spec_add(padding[1], inner[1]),
                spec_add(padding[2], inner[2]),
                spec_add(padding[3], inner[3]),
            ],
            width: absorbed_extent(
                child.location.width,
                parent.location.width,
                padding[1],
                padding[3],
            ),
            height: absorbed_extent(
                child.location.height,
                parent.location.height,
                padding[0],
                padding[2],
            ),
            ..parent.location
        },
        appearance: AppearanceView {
            color: or_else(child.appearance.color, parent.appearance.color),
            fill: or_else(child.appearance.fill, parent.appearance.fill),
            font: or_else(child.appearance.font, parent.appearance.font),
            opacity: parent.appearance.opacity,
            preserve_whitespace: child.appearance.preserve_whitespace
                || parent.appearance.preserve_whitespace,
            text_tranform: or_else(child.appearance.text_tranform, parent.appearance.text_tranform),
            text_decoration_line: or_else(
                child.appearance.text_decoration_line,
                parent.appearance.text_decoration_line,
            ),
        },
        node_type: absorbed_type(child, decision.use_flex_grow),
        ..parent
    }
}

/// `parent` after it has absorbed its only child, where it can and flex
/// settings are found that keep the layout; `props` say whether `parent` or
/// what lies above it sets its width and its height.
pub open spec fn combined(parent: NodeView, props: RecursiveVisitorMutSizedDownwardsProps) -> NodeView {
    if can_absorb(parent) {
        match spec_decide(merge_facts(parent, props)) {
            Some(decision) => merged(parent, decision),
            None => parent,
        }
    } else {
        parent
    }
}

/// A parent and a child that both set their width, or both set their height,
/// are never merged.
pub proof fn lemma_combine_keeps_double_sized(
    parent: NodeView,
    props: RecursiveVisitorMutSizedDownwardsProps,
)
    requires
        parent.children().len() > 0,
        (parent.location.width.is_some() && parent.children()[0].location.width.is_some()) || (
        parent.location.height.is_some() && parent.children()[0].location.height.is_some()),
    ensures
        combined(parent, inclusive_props(parent, props)) == parent,
{
    if can_absorb(parent) {
        lemma_never_merges_double_sized(merge_facts(parent, inclusive_props(parent, props)));
    }
}

/// A parent that has absorbed its child is simpler: it has one node less,
/// as many properties that can move up, and these no farther from the root.
pub proof fn lemma_merged_improves(parent: NodeView, decision: Decision)
    requires
        can_absorb(parent),
    ensures
        node_count(merged(parent, decision)) + 1 == node_count(parent),
        improves(parent, merged(parent, decision)),
{
    let child = parent.children()[0];
    let after = merged(parent, decision);
    assert(parent.children().drop_last().len() == 0);
    assert(forest_count(parent.children()) == node_count(child) && forest_lift_total(
        parent.children(),
    ) == lift_total(child) && forest_lift_depth(parent.children()) == lift_depth(child)
        + lift_total(child)) by {
        assert(forest_count(parent.children().drop_last()) == 0);
        assert(forest_lift_total(parent.children().drop_last()) == 0);
        assert(forest_lift_depth(parent.children().drop_last()) == 0);
    }
    assert(own_lifts(child) == 0);
    assert(own_lifts(after) == own_lifts(parent));
    match child.node_type {
        NodeTypeView::Frame { children } => {
            if children.len() == 1 {
                let grown = regrown(children[0], decision.use_flex_grow);
                assert(grown.node_type == children[0].node_type);
                assert(node_count(grown) == node_count(children[0]));
                assert(lift_total(grown) == lift_total(children[0]));
                assert(lift_depth(grown) == lift_depth(children[0]));
                lemma_forest_update(children, 0, grown);
            }
        },
        _ => {},
    }
}

fn shape_of_exec(flex: &Option<FlexContainer>) -> (r: FlexShape)
    ensures
        r == shape_of(
            match *flex {
                Some(f) => f@,
                None => block_flex(),
            },
        ),
{
    match flex {
        Some(f) => FlexShape {
            align_items: f.align_items,
            direction: f.direction,
            justify_content: f.justify_content,
        },
        None => FlexShape {
            align_items: AlignItems::Stretch,
            direction: FlexDirection::Column,
            justify_content: None,
        },
    }
}

fn grows_fully_exec(flex_grow: Option<Decimal>) -> (r: bool)
    ensures
        r == grows_fully(flex_grow),
{
    match flex_grow {
        Some(g) => g.is_one(),
        None => false,
    }
}

fn all_static(children: &Vec<IntermediateNode>) -> (r: bool)
    ensures
        r == (static_count(forest_view(children@)) == children@.len()),
{
    let count = crate::mutator::count_static(children);
    proof {
        lemma_static_count_bound(forest_view(children@));
    }
    count == children.len()
}

/// No more nodes are in the flow than there are nodes.
pub proof fn lemma_static_count_bound(nodes: Seq<NodeView>)
    ensures
        static_count(nodes) <= nodes.len(),
    decreases nodes.len(),
{
    if nodes.len() > 0 {
        lemma_static_count_bound(nodes.drop_last());
    }
}

/// What is known of `node` and its child, where `node` has a single child
/// that it could absorb.
fn gather(node: &IntermediateNode, props: RecursiveVisitorMutSizedDownwardsProps) -> (r: Option<
    MergeFacts,
>)
    ensures
        r.is_some() == can_absorb(node@),
        r.is_some() ==> r.unwrap() == merge_facts(node@, props),
{
    let children = match &node.node_type {
        IntermediateNodeType::Frame { children } => children,
        _ => {
            return None;
        },
    };
    proof {
        lemma_frame_view(*node);
    }
    if children.len() != 1 {
        return None;
    }
    let child = &children[0];
    let opaque = match child.appearance.opacity {
        Some(o) => o.is_one(),
        None => true,
    };
    if child.frame_appearance.background.is_some() || !opaque
        || child.frame_appearance.border_radius.is_some()
        || child.frame_appearance.box_shadow.is_some() || child.frame_appearance.stroke.is_some()
        || child.href.is_some() || child.location.inset.is_some() {
        return None;
    }
    let mut grandchild_align_self: Option<AlignSelf> = None;
    let mut grandchild_grows_fully = false;
    let mut child_has_multiple_children = false;
    match &child.node_type {
        IntermediateNodeType::Frame { children: grandchildren } => {
            proof {
                lemma_frame_view(*child);
            }
            if !all_static(grandchildren) {
                return None;
            }
            child_has_multiple_children = grandchildren.len() > 1;
            if grandchildren.len() == 1 {
                grandchild_align_self = grandchildren[0].location.align_self;
                grandchild_grows_fully = grows_fully_exec(grandchildren[0].location.flex_grow);
            }
        },
        _ => {
            proof {
                assert(child@.children().len() == 0);
                assert(static_count(child@.children()) == 0);
            }
        },
    }
    Some(
        MergeFacts {
            parent_flex: shape_of_exec(&node.flex_container),
            child_flex: shape_of_exec(&child.flex_container),
            child_align_self: child.location.align_self,
            child_grows_fully: grows_fully_exec(child.location.flex_grow),
            child_sets_width: child.location.width.is_some(),
            child_sets_height: child.location.height.is_some(),
            grandchild_align_self,
            grandchild_grows_fully,
            child_has_multiple_children,
            width_from_descent_inclusive: props.width_from_descent_inclusive,
            height_from_descent_inclusive: props.height_from_descent_inclusive,
        },
    )
}

fn axis_facts_exec(facts: MergeFacts, direction: FlexDirection) -> (r: AxisFacts)
    ensures
        r == axis_facts(facts, direction),
{
    let parent_width = Alignment::from_flex_container_width(
        facts.parent_flex,
        facts.child_align_self,
        facts.child_grows_fully,
    );
    let parent_height = Alignment::from_flex_container_height(
        facts.parent_flex,
        facts.child_align_self,
        facts.child_grows_fully,
    );
    let child_width = Alignment::from_flex_container_width(
        facts.child_flex,
        facts.grandchild_align_self,
        facts.grandchild_grows_fully,
    );
    let child_height = Alignment::from_flex_container_height(
        facts.child_flex,
        facts.grandchild_align_self,
        facts.grandchild_grows_fully,
    );
    let parent_stretches_height = match parent_height {
        Alignment::Align(AlignItems::Stretch) => true,
        _ => false,
    };
    let parent_stretches_items = match facts.parent_flex.align_items {
        AlignItems::Stretch => true,
        _ => false,
    };
    let stretched = facts.child_align_self.is_some() || parent_stretches_items;
    let child_main_sized = match direction {
        FlexDirection::Column => facts.child_sets_height,
        FlexDirection::Row => facts.child_sets_width || (facts.child_grows_fully
            && facts.width_from_descent_inclusive),
    };
    let child_counter_sized = match direction {
        FlexDirection::Column => facts.child_sets_width,
        FlexDirection::Row => facts.child_sets_height || ((facts.child_align_self.is_some()
            || parent_stretches_height) && facts.height_from_descent_inclusive),
    };
    let same_direction = match (direction, facts.parent_flex.direction) {
        (FlexDirection::Row, FlexDirection::Row) => true,
        (FlexDirection::Column, FlexDirection::Column) => true,
        _ => false,
    };
    match direction {
        FlexDirection::Column => AxisFacts {
            child_main: child_height,
            child_counter: child_width,
            parent_main: parent_height,
            parent_counter: parent_width,
            child_main_sized,
            child_counter_sized,
            parent_main_sized: facts.height_from_descent_inclusive,
            parent_counter_sized: facts.width_from_descent_inclusive,
            main_axis_equal: if same_direction {
                facts.child_grows_fully
            } else {
                stretched && !child_main_sized
            },
            counter_axis_equal: if same_direction {
                stretched && !child_counter_sized
            } else {
                facts.child_grows_fully
            },
        },
        FlexDirection::Row => AxisFacts {
            child_main: child_width,
            child_counter: child_height,
            parent_main: parent_width,
            parent_counter: parent_height,
            child_main_sized,
            child_counter_sized,
            parent_main_sized: facts.width_from_descent_inclusive,
            parent_counter_sized: facts.height_from_descent_inclusive,
            main_axis_equal: if same_direction {
                facts.child_grows_fully
            } else {
                stretched && !child_main_sized
            },
            counter_axis_equal: if same_direction {
                stretched && !child_counter_sized
            } else {
                facts.child_grows_fully
            },
        },
    }
}

fn is_default_placement(placement: (JustifyContent, bool)) -> (r: bool)
    ensures
        r == (placement == (JustifyContent::FlexStart, false)),
{
    match placement {
        (JustifyContent::FlexStart, false) => true,
        _ => false,
    }
}

fn main_axis_verdict_exec(axes: AxisFacts, single_child: bool) -> (r: Verdict<
    (JustifyContent, bool),
>)
    ensures
        r == main_axis_verdict(axes, single_child),
{
    let parent = axes.parent_main.as_simplified_main_axis_alignment(true);
    let child = axes.child_main.as_simplified_main_axis_alignment(single_child);
    let child_verdict = match child {
        Some(c) => Verdict::Take(c),
        None => Verdict::Next,
    };
    let parent_verdict = match parent {
        Some(p) => Verdict::Take(p),
        None => Verdict::Next,
    };
    if axes.parent_main_sized && axes.child_main_sized {
        Verdict::Stop
    } else if axes.parent_main_sized {
        if axes.main_axis_equal {
            child_verdict
        } else {
            parent_verdict
        }
    } else if axes.child_main_sized {
        child_verdict
    } else {
        match (parent, child) {
            (None, _) => child_verdict,
            (Some(p), None) => if axes.main_axis_equal {
                Verdict::Next
            } else {
                Verdict::Take(p)
            },
            (Some(p), Some(c)) => if axes.main_axis_equal || is_default_placement(p) {
                Verdict::Take(c)
            } else {
                Verdict::Take(p)
            },
        }
    }
}

fn same_align_items(a: AlignItems, b: AlignItems) -> (r: bool)
    ensures
        r == (a == b),
{
    match (a, b) {
        (AlignItems::Stretch, AlignItems::Stretch) => true,
        (AlignItems::FlexStart, AlignItems::FlexStart) => true,
        (AlignItems::Center, AlignItems::Center) => true,
        (AlignItems::FlexEnd, AlignItems::FlexEnd) => true,
        (AlignItems::Baseline, AlignItems::Baseline) => true,
        _ => false,
    }
}

fn counter_axis_verdict_exec(axes: AxisFacts, multiple: bool) -> (r: Verdict<AlignItems>)
    ensures
        r == counter_axis_verdict(axes, multiple),
{
    let parent = axes.parent_counter.as_counter_axis_alignment(true);
    let child = axes.child_counter.as_counter_axis_alignment(!multiple);
    let child_verdict = match child {
        Some(c) => Verdict::Take(c),
        None => Verdict::Next,
    };
    if axes.parent_counter_sized && axes.child_counter_sized {
        Verdict::Stop
    } else if !axes.parent_counter_sized && multiple {
        child_verdict
    } else if axes.counter_axis_equal {
        child_verdict
    } else if axes.parent_counter_sized {
        match parent {
            None => Verdict::Next,
            Some(p) => if !multiple {
                Verdict::Take(p)
            } else {
                match child {
                    Some(c) => if same_align_items(p, c) {
                        Verdict::Take(p)
                    } else {
                        Verdict::Next
                    },
                    None => Verdict::Next,
                }
            },
        }
    } else {
        match (parent, child) {
            (Some(p), None) => Verdict::Take(p),
            (None, None) => Verdict::Next,
            (None, Some(c)) => Verdict::Take(c),
            (Some(p), Some(c)) => if axes.child_counter_sized {
                Verdict::Take(c)
            } else {
                Verdict::Take(p)
            },
        }
    }
}

fn attempt_verdict_exec(facts: MergeFacts, attempt: FlexAttempt) -> (r: Verdict<Decision>)
    ensures
        r == attempt_verdict(facts, attempt),
{
    let is_child = match attempt {
        FlexAttempt::Child => true,
        _ => false,
    };
    if !is_child && facts.child_has_multiple_children {
        return Verdict::Next;
    }
    let direction = match attempt {
        FlexAttempt::Parent => facts.parent_flex.direction,
        FlexAttempt::Child => facts.child_flex.direction,
        FlexAttempt::Horizontal => FlexDirection::Row,
        FlexAttempt::Vertical => FlexDirection::Column,
    };
    let axes = axis_facts_exec(facts, direction);
    match main_axis_verdict_exec(axes, !facts.child_has_multiple_children) {
        Verdict::Stop => Verdict::Stop,
        Verdict::Next => Verdict::Next,
        Verdict::Take((justify_content, use_flex_grow)) => match counter_axis_verdict_exec(
            axes,
            facts.child_has_multiple_children,
        ) {
            Verdict::Stop => Verdict::Stop,
            Verdict::Next => Verdict::Next,
            Verdict::Take(align_items) => Verdict::Take(
                Decision { attempt, justify_content, use_flex_grow, align_items },
            ),
        },
    }
}

/// The flex settings of the merger of a parent and its child, where there
/// are any.
pub fn decide(facts: MergeFacts) -> (r: Option<Decision>)
    ensures
        r == spec_decide(facts),
{
    match attempt_verdict_exec(facts, FlexAttempt::Parent) {
        Verdict::Take(d) => {
            return Some(d);
        },
        Verdict::Stop => {
            return None;
        },
        Verdict::Next => {},
    }
    match attempt_verdict_exec(facts, FlexAttempt::Child) {
        Verdict::Take(d) => {
            return Some(d);
        },
        Verdict::Stop => {
            return None;
        },
        Verdict::Next => {},
    }
    match attempt_verdict_exec(facts, FlexAttempt::Horizontal) {
        Verdict::Take(d) => {
            return Some(d);
        },
        Verdict::Stop => {
            return None;
        },
        Verdict::Next => {},
    }
    match attempt_verdict_exec(facts, FlexAttempt::Vertical) {
        Verdict::Take(d) => Some(d),
        _ => None,
    }
}

fn first_text(first: Option<String>, second: Option<String>) -> (r: Option<String>)
    ensures
        text_view(r) == or_else(text_view(first), text_view(second)),
{
    match first {
        Some(t) => Some(t),
        None => second,
    }
}

/// The children of what a frame is; nothing else has any.
pub open spec fn children_of(node_type: IntermediateNodeType) -> Seq<IntermediateNode> {
    match node_type {
        IntermediateNodeType::Frame { children } => children@,
        _ => Seq::empty(),
    }
}

/// Makes the only child of what `node_type` is, where there is just one,
/// stop placing itself and grow fully or not at all.
fn regrow(node_type: &mut IntermediateNodeType, use_flex_grow: bool)
    ensures
        (*final(node_type) is Frame) == (*old(node_type) is Frame),
        *old(node_type) is Frame ==> forest_view(children_of(*final(node_type))) == (if children_of(
            *old(node_type),
        ).len() == 1 {
            forest_view(children_of(*old(node_type))).update(
                0,
                regrown(children_of(*old(node_type))[0]@, use_flex_grow),
            )
        } else {
            forest_view(children_of(*old(node_type)))
        }),
        !(*old(node_type) is Frame) ==> *final(node_type) == *old(node_type),
{
    match node_type {
        IntermediateNodeType::Frame { children } => {
            if children.len() == 1 {
                let ghost before = children@;
                let only = &mut children[0];
                only.location.align_self = None;
                only.location.flex_grow = if use_flex_grow {
                    Some(Decimal::one())
                } else {
                    None
                };
                proof {
                    assert(forest_view(children@) =~= forest_view(before).update(
                        0,
                        regrown(before[0]@, use_flex_grow),
                    ));
                }
            }
        },
        _ => {},
    }
}

fn absorb(node: &mut IntermediateNode, decision: Decision)
    requires
        old(node).node_type is Frame,
        old(node).node_type->children@.len() == 1,
    ensures
        final(node)@ == merged(old(node)@, decision),
{
    proof {
        lemma_frame_view(*node);
    }
    let taken = match &mut node.node_type {
        IntermediateNodeType::Frame { children } => children.pop(),
        _ => None,
    };
    let child = match taken {
        Some(child) => child,
        None => {
            return ;
        },
    };
    let ghost child_view = child@;
    assert(child_view == old(node)@.children()[0]);
    let IntermediateNode {
        flex_container: child_flex,
        location: child_location,
        appearance: child_appearance,
        node_type: child_type,
        ..
    } = child;
    let crate::intermediate_node::Location {
        padding: child_padding,
        width: child_width,
        height: child_height,
        ..
    } = child_location;
    let Appearance { color, fill, font, preserve_whitespace, text_tranform, text_decoration_line, .. } =
        child_appearance;
    let (gap, direction) = match decision.attempt {
        FlexAttempt::Parent => match node.flex_container.take() {
            Some(f) => (f.gap, f.direction),
            None => (Length::Zero, FlexDirection::Column),
        },
        FlexAttempt::Child => match child_flex {
            Some(f) => (f.gap, f.direction),
            None => (Length::Zero, FlexDirection::Column),
        },
        FlexAttempt::Horizontal => (Length::Zero, FlexDirection::Row),
        FlexAttempt::Vertical => (Length::Zero, FlexDirection::Column),
    };
    node.flex_container = Some(
        FlexContainer {
            align_items: decision.align_items,
            direction,
            gap,
            justify_content: Some(decision.justify_content),
        },
    );
    match child_width {
        Some(width) => {
            node.location.width = Some(
                width.add(node.location.padding[1].clone()).add(node.location.padding[3].clone()),
            );
        },
        None => {},
    }
    match child_height {
        Some(height) => {
            node.location.height = Some(
                height.add(node.location.padding[0].clone()).add(node.location.padding[2].clone()),
            );
        },
        None => {},
    }
    node.location.padding[0] = node.location.padding[0].clone().add(child_padding[0].clone());
    node.location.padding[1] = node.location.padding[1].clone().add(child_padding[1].clone());
    node.location.padding[2] = node.location.padding[2].clone().add(child_padding[2].clone());
    node.location.padding[3] = node.location.padding[3].clone().add(child_padding[3].clone());
    node.appearance.color = first_text(color, node.appearance.color.take());
    node.appearance.fill = first_text(fill, node.appearance.fill.take());
    node.appearance.font = first_text(font, node.appearance.font.take());
    node.appearance.preserve_whitespace = preserve_whitespace
        || node.appearance.preserve_whitespace;
    node.appearance.text_tranform = match text_tranform {
        Some(t) => Some(t),
        None => node.appearance.text_tranform,
    };
    node.appearance.text_decoration_line = match text_decoration_line {
        Some(t) => Some(t),
        None => node.appearance.text_decoration_line,
    };
    let mut absorbed = child_type;
    regrow(&mut absorbed, decision.use_flex_grow);
    node.node_type = absorbed;
    proof {
        let target = merged(old(node)@, decision);
        if child_type is Frame {
            lemma_frame_view(child);
            lemma_frame_view(*node);
            assert(node@.children() =~= target.children());
        }
        assert(node@.location.padding =~= target.location.padding);
        assert(node@.node_type == target.node_type);
    }
}

/// The rewrite of [`combine_parent_child`].
pub struct AbsorbOnlyChild;

impl NodeVisitor for AbsorbOnlyChild {
    open spec fn visited(
        &self,
        node: NodeView,
        inherited: InheritedView,
        props: RecursiveVisitorMutSizedDownwardsProps,
    ) -> NodeView {
        combined(node, props)
    }

    proof fn lemma_visited_improves(
        &self,
        node: NodeView,
        inherited: InheritedView,
        props: RecursiveVisitorMutSizedDownwardsProps,
    ) {
        if can_absorb(node) {
            match spec_decide(merge_facts(node, props)) {
                Some(decision) => {
                    lemma_merged_improves(node, decision);
                },
                None => {},
            }
        }
    }

    fn visit(
        &self,
        node: &mut IntermediateNode,
        inherited: &InheritedProperties,
        props: RecursiveVisitorMutSizedDownwardsProps,
    ) -> (mutated: bool) {
        let decision = match gather(node, props) {
            Some(facts) => decide(facts),
            None => None,
        };
        match decision {
            Some(decision) => {
                proof {
                    lemma_frame_view(*node);
                    lemma_merged_improves(node@, decision);
                }
                absorb(node, decision);
                true
            },
            None => false,
        }
    }
}

/// The tree after [`combine_parent_child`].
pub open spec fn spec_combine_parent_child(node: NodeView) -> NodeView {
    visit_all(
        AbsorbOnlyChild,
        node,
        nothing_inherited(),
        RecursiveVisitorMutSizedDownwardsProps {
            width_from_descent_inclusive: false,
            height_from_descent_inclusive: false,
        },
    )
}

/// Goes through the tree from the root down and lets each node absorb its
/// only child, where the child has nothing that sets it apart and flex
/// settings are found under which the merger is laid out as the two were.
/// A node and a child that both set the same extent are never merged. Says
/// whether anything changed.
pub fn combine_parent_child(node: &mut IntermediateNode, _css_variables: &mut CSSVariablesMap) -> (mutated:
    bool)
    ensures
        final(node)@ == spec_combine_parent_child(old(node)@),
        mutated == (final(node)@ != old(node)@),
        mutated ==> improves(old(node)@, final(node)@),
        *final(_css_variables) == *old(_css_variables),
{
    recursive_visitor_mut_sized_downwards(
        node,
        &InheritedProperties::default(),
        RecursiveVisitorMutSizedDownwardsProps {
            width_from_descent_inclusive: false,
            height_from_descent_inclusive: false,
        },
        &AbsorbOnlyChild,
    )
}

} // verus!
