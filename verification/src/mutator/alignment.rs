//! Alignment along one axis, whichever way the axis lies in its container,
//! and the choice of the flex settings of a parent that absorbs its child.
use crate::intermediate_node::{AlignItems, AlignSelf, FlexDirection, JustifyContent};
use vstd::prelude::*;

verus! {

/// How a container aligns a child along one axis: as its main axis, or as
/// its cross axis.
#[derive(Clone, Copy, Debug, PartialEq, Eq, Structural)]
pub enum Alignment {
    Justify(JustifyContent),
    Align(AlignItems),
}

/// The flex settings of a container, but for its gap.
#[derive(Clone, Copy, Debug, PartialEq, Eq, Structural)]
pub struct FlexShape {
    pub align_items: AlignItems,
    pub direction: FlexDirection,
    pub justify_content: Option<JustifyContent>,
}

/// The alignment of items that a child asks for, or that of its container.
pub open spec fn spec_own_or(child_alignment: Option<AlignSelf>, align_items: AlignItems) -> AlignItems {
    match child_alignment {
        Some(_) => AlignItems::Stretch,
        None => align_items,
    }
}

/// The placement along the main axis, with its default.
pub open spec fn spec_justify_or_start(justify_content: Option<JustifyContent>) -> JustifyContent {
    match justify_content {
        Some(j) => j,
        None => JustifyContent::FlexStart,
    }
}

/// How a container with the settings `shape` aligns, along the horizontal
/// axis, a child that asks for `child_alignment` and grows fully or not.
pub open spec fn spec_from_flex_container_width(
    shape: FlexShape,
    child_alignment: Option<AlignSelf>,
    child_grows_fully: bool,
) -> Alignment {
    match shape.direction {
        FlexDirection::Row => if child_grows_fully {
            Alignment::Align(AlignItems::Stretch)
        } else {
            Alignment::Justify(spec_justify_or_start(shape.justify_content))
        },
        FlexDirection::Column => Alignment::Align(spec_own_or(child_alignment, shape.align_items)),
    }
}

/// The same along the vertical axis.
pub open spec fn spec_from_flex_container_height(
    shape: FlexShape,
    child_alignment: Option<AlignSelf>,
    child_grows_fully: bool,
) -> Alignment {
    match shape.direction {
        FlexDirection::Row => Alignment::Align(spec_own_or(child_alignment, shape.align_items)),
        FlexDirection::Column => if child_grows_fully {
            Alignment::Align(AlignItems::Stretch)
        } else {
            Alignment::Justify(spec_justify_or_start(shape.justify_content))
        },
    }
}

/// An alignment as a placement along the main axis, with whether the
/// children must grow to keep it, where it can be one. Stretched and
/// baseline alignment can be one only for a single child.
pub open spec fn spec_as_simplified_main_axis_alignment(
    alignment: Alignment,
    single_child: bool,
) -> Option<(JustifyContent, bool)> {
    match alignment {
        Alignment::Justify(j) => Some((j, false)),
        Alignment::Align(AlignItems::FlexStart) => Some((JustifyContent::FlexStart, false)),
        Alignment::Align(AlignItems::Center) => Some((JustifyContent::Center, false)),
        Alignment::Align(AlignItems::FlexEnd) => Some((JustifyContent::FlexEnd, false)),
        Alignment::Align(AlignItems::Stretch) => if single_child {
            Some((JustifyContent::FlexStart, true))
        } else {
            None
        },
        Alignment::Align(AlignItems::Baseline) => if single_child {
            Some((JustifyContent::FlexStart, false))
        } else {
            None
        },
    }
}

/// An alignment as an alignment of items across the main axis, where it can
/// be one. Space between the items can be one only for a single child.
pub open spec fn spec_as_counter_axis_alignment(alignment: Alignment, single_child: bool) -> Option<
    AlignItems,
> {
    match alignment {
        Alignment::Align(a) => Some(a),
        Alignment::Justify(JustifyContent::FlexStart) => Some(AlignItems::FlexStart),
        Alignment::Justify(JustifyContent::FlexEnd) => Some(AlignItems::FlexEnd),
        Alignment::Justify(JustifyContent::Center) => Some(AlignItems::Center),
        Alignment::Justify(JustifyContent::SpaceBetween) => if single_child {
            Some(AlignItems::FlexStart)
        } else {
            None
        },
    }
}

impl Alignment {
    /// How a container with the settings `shape` aligns a child along the
    /// horizontal axis.
    pub fn from_flex_container_width(
        shape: FlexShape,
        child_alignment: Option<AlignSelf>,
        child_grows_fully: bool,
    ) -> (r: Alignment)
        ensures
            r == spec_from_flex_container_width(shape, child_alignment, child_grows_fully),
    {
        match shape.direction {
            FlexDirection::Row => if child_grows_fully {
                Alignment::Align(AlignItems::Stretch)
            } else {
                Alignment::Justify(
                    match shape.justify_content {
                        Some(j) => j,
                        None => JustifyContent::FlexStart,
                    },
                )
            },
            FlexDirection::Column => Alignment::Align(
                match child_alignment {
                    Some(_) => AlignItems::Stretch,
                    None => shape.align_items,
                },
            ),
        }
    }

    /// How a container with the settings `shape` aligns a child along the
    /// vertical axis.
    pub fn from_flex_container_height(
        shape: FlexShape,
        child_alignment: Option<AlignSelf>,
        child_grows_fully: bool,
    ) -> (r: Alignment)
        ensures
            r == spec_from_flex_container_height(shape, child_alignment, child_grows_fully),
    {
        match shape.direction {
            FlexDirection::Row => Alignment::Align(
                match child_alignment {
                    Some(_) => AlignItems::Stretch,
                    None => shape.align_items,
                },
            ),
            FlexDirection::Column => if child_grows_fully {
                Alignment::Align(AlignItems::Stretch)
            } else {
                Alignment::Justify(
                    match shape.justify_content {
                        Some(j) => j,
                        None => JustifyContent::FlexStart,
                    },
                )
            },
        }
    }

    /// The alignment as a placement along the main axis, with whether the
    /// children must grow to keep it.
    pub fn as_simplified_main_axis_alignment(&self, single_child: bool) -> (r: Option<
        (JustifyContent, bool),
    >)
        ensures
            r == spec_as_simplified_main_axis_alignment(*self, single_child),
    {
        match self {
            Alignment::Justify(j) => Some((*j, false)),
            Alignment::Align(AlignItems::FlexStart) => Some((JustifyContent::FlexStart, false)),
            Alignment::Align(AlignItems::Center) => Some((JustifyContent::Center, false)),
            Alignment::Align(AlignItems::FlexEnd) => Some((JustifyContent::FlexEnd, false)),
            Alignment::Align(AlignItems::Stretch) => if single_child {
                Some((JustifyContent::FlexStart, true))
            } else {
                None
            },
            Alignment::Align(AlignItems::Baseline) => if single_child {
                Some((JustifyContent::FlexStart, false))
            } else {
                None
            },
        }
    }

    /// The alignment as an alignment of items across the main axis.
    pub fn as_counter_axis_alignment(&self, single_child: bool) -> (r: Option<AlignItems>)
        ensures
            r == spec_as_counter_axis_alignment(*self, single_child),
    {
        match self {
            Alignment::Align(a) => Some(*a),
            Alignment::Justify(JustifyContent::FlexStart) => Some(AlignItems::FlexStart),
            Alignment::Justify(JustifyContent::FlexEnd) => Some(AlignItems::FlexEnd),
            Alignment::Justify(JustifyContent::Center) => Some(AlignItems::Center),
            Alignment::Justify(JustifyContent::SpaceBetween) => if single_child {
                Some(AlignItems::FlexStart)
            } else {
                None
            },
        }
    }
}

/// What is known of a parent and its only child when the flex settings of
/// their merger are chosen.
#[derive(Clone, Copy, Debug, PartialEq, Eq, Structural)]
pub struct MergeFacts {
    pub parent_flex: FlexShape,
    pub child_flex: FlexShape,
    pub child_align_self: Option<AlignSelf>,
    pub child_grows_fully: bool,
    pub child_sets_width: bool,
    pub child_sets_height: bool,
    /// What the only child of the child asks for, where there is just one.
    pub grandchild_align_self: Option<AlignSelf>,
    pub grandchild_grows_fully: bool,
    pub child_has_multiple_children: bool,
    /// Whether the parent or what lies above it sets the width of the parent.
    pub width_from_descent_inclusive: bool,
    /// Whether the parent or what lies above it sets the height of the parent.
    pub height_from_descent_inclusive: bool,
}

/// The flex settings that are tried for the merger of a parent and its child.
#[derive(Clone, Copy, Debug, PartialEq, Eq, Structural)]
pub enum FlexAttempt {
    /// Those of the parent.
    Parent,
    /// Those of the child.
    Child,
    /// A row of stretched items.
    Horizontal,
    /// A column of stretched items.
    Vertical,
}

/// What a look at one axis of an attempt gives: a value for the merger, the
/// end of all attempts, or the end of this one.
#[derive(Debug, PartialEq, Eq, Structural)]
pub enum Verdict<T> {
    Take(T),
    Stop,
    Next,
}

/// The flex settings of the merger once they are chosen.
#[derive(Clone, Copy, Debug, PartialEq, Eq, Structural)]
pub struct Decision {
    pub attempt: FlexAttempt,
    pub justify_content: JustifyContent,
    /// Whether the only child of the merger is to grow fully.
    pub use_flex_grow: bool,
    pub align_items: AlignItems,
}

/// The settings of a block: a column of stretched items.
pub open spec fn block_shape() -> FlexShape {
    FlexShape {
        align_items: AlignItems::Stretch,
        direction: FlexDirection::Column,
        justify_content: None,
    }
}

/// The flex settings that an attempt starts from.
pub open spec fn attempt_shape(facts: MergeFacts, attempt: FlexAttempt) -> FlexShape {
    match attempt {
        FlexAttempt::Parent => facts.parent_flex,
        FlexAttempt::Child => facts.child_flex,
        FlexAttempt::Horizontal => FlexShape { direction: FlexDirection::Row, ..block_shape() },
        FlexAttempt::Vertical => block_shape(),
    }
}

/// How parent and child stand along the two axes of a merger with a given
/// main axis.
#[derive(Clone, Copy, Debug, PartialEq, Eq, Structural)]
pub struct AxisFacts {
    pub child_main: Alignment,
    pub child_counter: Alignment,
    pub parent_main: Alignment,
    pub parent_counter: Alignment,
    pub child_main_sized: bool,
    pub child_counter_sized: bool,
    pub parent_main_sized: bool,
    pub parent_counter_sized: bool,
    /// Whether the child has the extent of the parent along the main axis.
    pub main_axis_equal: bool,
    /// Whether the child has the extent of the parent across the main axis.
    pub counter_axis_equal: bool,
}

/// Whether the parent stretches the child across its main axis.
pub open spec fn child_is_stretched(facts: MergeFacts) -> bool {
    facts.child_align_self.is_some() || facts.parent_flex.align_items == AlignItems::Stretch
}

/// How parent and child stand along the axes of a merger whose main axis is
/// `direction`.
pub open spec fn axis_facts(facts: MergeFacts, direction: FlexDirection) -> AxisFacts {
    let parent_width = spec_from_flex_container_width(
        facts.parent_flex,
        facts.child_align_self,
        facts.child_grows_fully,
    );
    let parent_height = spec_from_flex_container_height(
        facts.parent_flex,
        facts.child_align_self,
        facts.child_grows_fully,
    );
    let child_width = spec_from_flex_container_width(
        facts.child_flex,
        facts.grandchild_align_self,
        facts.grandchild_grows_fully,
    );
    let child_height = spec_from_flex_container_height(
        facts.child_flex,
        facts.grandchild_align_self,
        facts.grandchild_grows_fully,
    );
    let child_main_sized = match direction {
        FlexDirection::Column => facts.child_sets_height,
        FlexDirection::Row => facts.child_sets_width || (facts.child_grows_fully
            && facts.width_from_descent_inclusive),
    };
    let child_counter_sized = match direction {
        FlexDirection::Column => facts.child_sets_width,
        FlexDirection::Row => facts.child_sets_height || ((facts.child_align_self.is_some()
            || parent_height == Alignment::Align(AlignItems::Stretch))
            && facts.height_from_descent_inclusive),
    };
    let same_direction = direction == facts.parent_flex.direction;
    AxisFacts {
        child_main: match direction {
            FlexDirection::Column => child_height,
            FlexDirection::Row => child_width,
        },
        child_counter: match direction {
            FlexDirection::Column => child_width,
            FlexDirection::Row => child_height,
        },
        parent_main: match direction {
            FlexDirection::Column => parent_height,
            FlexDirection::Row => parent_width,
        },
        parent_counter: match direction {
            FlexDirection::Column => parent_width,
            FlexDirection::Row => parent_height,
        },
        child_main_sized,
        child_counter_sized,
        parent_main_sized: match direction {
            FlexDirection::Column => facts.height_from_descent_inclusive,
            FlexDirection::Row => facts.width_from_descent_inclusive,
        },
        parent_counter_sized: match direction {
            FlexDirection::Column => facts.width_from_descent_inclusive,
            FlexDirection::Row => facts.height_from_descent_inclusive,
        },
        main_axis_equal: if same_direction {
            facts.child_grows_fully
        } else {
            child_is_stretched(facts) && !child_main_sized
        },
        counter_axis_equal: if same_direction {
            child_is_stretched(facts) && !child_counter_sized
        } else {
            facts.child_grows_fully
        },
    }
}

/// The placement along the main axis of the merger. Parent and child may not
/// both set the extent. The side that sets it decides, unless the child has
/// the extent of the parent anyway; where neither sets it, the side whose
/// placement is not the default decides, the parent first.
pub open spec fn main_axis_verdict(axes: AxisFacts, single_child: bool) -> Verdict<
    (JustifyContent, bool),
> {
    let parent = spec_as_simplified_main_axis_alignment(axes.parent_main, true);
    let child = spec_as_simplified_main_axis_alignment(axes.child_main, single_child);
    if axes.parent_main_sized && axes.child_main_sized {
        Verdict::Stop
    } else if axes.parent_main_sized {
        if axes.main_axis_equal {
            option_verdict(child)
        } else {
            option_verdict(parent)
        }
    } else if axes.child_main_sized {
        option_verdict(child)
    } else {
        match (parent, child) {
            (None, _) => option_verdict(child),
            (Some(p), None) => if axes.main_axis_equal {
                Verdict::Next
            } else {
                Verdict::Take(p)
            },
            (Some(p), Some(c)) => if axes.main_axis_equal || p == (
                JustifyContent::FlexStart,
                false,
            ) {
                Verdict::Take(c)
            } else {
                Verdict::Take(p)
            },
        }
    }
}

/// The value where there is one, else the end of the attempt.
pub open spec fn option_verdict<T>(value: Option<T>) -> Verdict<T> {
    match value {
        Some(v) => Verdict::Take(v),
        None => Verdict::Next,
    }
}

/// The alignment of items of the merger. Parent and child may not both set
/// the extent across the main axis. With several children the child decides,
/// and must agree with a parent that sets the extent.
pub open spec fn counter_axis_verdict(axes: AxisFacts, multiple: bool) -> Verdict<AlignItems> {
    let parent = spec_as_counter_axis_alignment(axes.parent_counter, true);
    let child = spec_as_counter_axis_alignment(axes.child_counter, !multiple);
    if axes.parent_counter_sized && axes.child_counter_sized {
        Verdict::Stop
    } else if !axes.parent_counter_sized && multiple {
        option_verdict(child)
    } else if axes.counter_axis_equal {
        option_verdict(child)
    } else if axes.parent_counter_sized {
        match parent {
            None => Verdict::Next,
            Some(p) => if !multiple {
                Verdict::Take(p)
            } else {
                match child {
                    Some(c) => if p == c {
                        Verdict::Take(p)
                    } else {
                        Verdict::Next
                    },
                    None => Verdict::Next,
                }
            },
        }
    } else {
        match (parent, child) {
            (Some(p), None) => Verdict::Take(p),
            (None, None) => Verdict::Next,
            (None, Some(c)) => Verdict::Take(c),
            (Some(p), Some(c)) => if axes.child_counter_sized {
                Verdict::Take(c)
            } else {
                Verdict::Take(p)
            },
        }
    }
}

/// What one attempt gives. A child with several children keeps its own
/// settings or is not absorbed.
pub open spec fn attempt_verdict(facts: MergeFacts, attempt: FlexAttempt) -> Verdict<Decision> {
    if attempt != FlexAttempt::Child && facts.child_has_multiple_children {
        Verdict::Next
    } else {
        let axes = axis_facts(facts, attempt_shape(facts, attempt).direction);
        match main_axis_verdict(axes, !facts.child_has_multiple_children) {
            Verdict::Stop => Verdict::Stop,
            Verdict::Next => Verdict::Next,
            Verdict::Take((justify_content, use_flex_grow)) => match counter_axis_verdict(
                axes,
                facts.child_has_multiple_children,
            ) {
                Verdict::Stop => Verdict::Stop,
                Verdict::Next => Verdict::Next,
                Verdict::Take(align_items) => Verdict::Take(
                    Decision { attempt, justify_content, use_flex_grow, align_items },
                ),
            },
        }
    }
}

/// What the last attempt gives: a column of stretched items.
pub open spec fn decide_from_vertical(facts: MergeFacts) -> Option<Decision> {
    match attempt_verdict(facts, FlexAttempt::Vertical) {
        Verdict::Take(d) => Some(d),
        _ => None,
    }
}

/// What the attempts from the row of stretched items on give.
pub open spec fn decide_from_horizontal(facts: MergeFacts) -> Option<Decision> {
    match attempt_verdict(facts, FlexAttempt::Horizontal) {
        Verdict::Take(d) => Some(d),
        Verdict::Stop => None,
        Verdict::Next => decide_from_vertical(facts),
    }
}

/// What the attempts from the settings of the child on give.
pub open spec fn decide_from_child(facts: MergeFacts) -> Option<Decision> {
    match attempt_verdict(facts, FlexAttempt::Child) {
        Verdict::Take(d) => Some(d),
        Verdict::Stop => None,
        Verdict::Next => decide_from_horizontal(facts),
    }
}

/// The flex settings of the merger of a parent and its child: those of the
/// first attempt that suits both axes, in the order parent, child, row,
/// column, if the attempts are not stopped before.
pub open spec fn spec_decide(facts: MergeFacts) -> Option<Decision> {
    match attempt_verdict(facts, FlexAttempt::Parent) {
        Verdict::Take(d) => Some(d),
        Verdict::Stop => None,
        Verdict::Next => decide_from_child(facts),
    }
}

/// No attempt suits where parent and child both set the width, or both set
/// the height: such a pair is never merged.
pub proof fn lemma_never_merges_double_sized(facts: MergeFacts)
    requires
        (facts.width_from_descent_inclusive && facts.child_sets_width) || (
        facts.height_from_descent_inclusive && facts.child_sets_height),
    ensures
        spec_decide(facts).is_none(),
{
    lemma_attempt_fails_double_sized(facts, FlexAttempt::Parent);
    lemma_attempt_fails_double_sized(facts, FlexAttempt::Child);
    lemma_attempt_fails_double_sized(facts, FlexAttempt::Horizontal);
    lemma_attempt_fails_double_sized(facts, FlexAttempt::Vertical);
}

/// An attempt gives no settings where parent and child both set the width,
/// or both set the height.
pub proof fn lemma_attempt_fails_double_sized(facts: MergeFacts, attempt: FlexAttempt)
    requires
        (facts.width_from_descent_inclusive && facts.child_sets_width) || (
        facts.height_from_descent_inclusive && facts.child_sets_height),
    ensures
        !(attempt_verdict(facts, attempt) is Take),
{
    let axes = axis_facts(facts, attempt_shape(facts, attempt).direction);
    assert((axes.parent_main_sized && axes.child_main_sized) || (axes.parent_counter_sized
        && axes.child_counter_sized));
}

} // verus!
