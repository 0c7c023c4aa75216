//! Removal of frames that show nothing and take no room.
use crate::inherited_properties::{nothing_inherited, InheritedProperties, InheritedView};
use crate::intermediate_node::{IntermediateNode, IntermediateNodeType, NodeView};
use crate::mutator::{
    filter_all, improves, lemma_filter_all_idempotent, recursive_filter, NodeFilter,
};
use crate::CSSVariablesMap;
use vstd::prelude::*;

verus! {

/// Whether `node` is a frame without children, background, box shadow, stroke
/// or link that is taken out of the flow of its parent: it shows nothing and
/// takes no room.
pub open spec fn is_empty_absolute_frame(node: NodeView) -> bool {
    &&& node.node_type is Frame
    &&& node.children().len() == 0
    &&& node.location.inset.is_some()
    &&& node.frame_appearance.background.is_none()
    &&& node.frame_appearance.box_shadow.is_none()
    &&& node.frame_appearance.stroke.is_none()
    &&& node.href.is_none()
}

/// The test that only empty absolute frames fail.
pub struct KeepAllButEmptyAbsoluteFrames;

impl NodeFilter for KeepAllButEmptyAbsoluteFrames {
    open spec fn keeps(&self, node: NodeView, inherited: InheritedView) -> bool {
        !is_empty_absolute_frame(node)
    }

    fn keep(&self, node: &IntermediateNode, inherited: &InheritedProperties) -> (r: bool) {
        let childless = match &node.node_type {
            IntermediateNodeType::Frame { children } => {
                proof {
                    crate::intermediate_node::lemma_frame_view(*node);
                }
                children.len() == 0
            },
            _ => false,
        };
        !(childless && node.location.inset.is_some() && node.frame_appearance.background.is_none()
            && node.frame_appearance.box_shadow.is_none() && node.frame_appearance.stroke.is_none()
            && node.href.is_none())
    }
}

/// The tree without its empty absolute frames: each one below the root that
/// is one, or becomes one when those inside it are removed, is removed.
pub open spec fn without_empty_absolute_frames(node: NodeView) -> NodeView {
    filter_all(KeepAllButEmptyAbsoluteFrames, node, nothing_inherited())
}

/// Removing the empty absolute frames of a tree that has lost them changes
/// nothing: a second run of [`drop_empty_absolute_frames`] reports no change.
pub proof fn lemma_drop_empty_absolute_frames_idempotent(node: NodeView)
    ensures
        without_empty_absolute_frames(without_empty_absolute_frames(node))
            == without_empty_absolute_frames(node),
{
    lemma_filter_all_idempotent(KeepAllButEmptyAbsoluteFrames, node, nothing_inherited());
}

/// Removes every frame below `node` that shows nothing and takes no room.
/// Says whether any was removed.
pub fn drop_empty_absolute_frames(
    node: &mut IntermediateNode,
    _css_variables: &mut CSSVariablesMap,
) -> (mutated: bool)
    ensures
        final(node)@ == without_empty_absolute_frames(old(node)@),
        mutated == (final(node)@ != old(node)@),
        mutated ==> improves(old(node)@, final(node)@),
        *final(_css_variables) == *old(_css_variables),
{
    recursive_filter(node, &InheritedProperties::default(), &KeepAllButEmptyAbsoluteFrames)
}

} // verus!
