//! What a node hands down to its children in CSS.
use crate::intermediate_node::{text_view, IntermediateNode, NodeView};
use crate::schema::TextCase;
use vstd::prelude::*;

verus! {

/// The inherited CSS properties in force at a node. Layout, opacity,
/// decoration and the look of the box are not inherited.
#[derive(Debug, PartialEq, Eq)]
pub struct InheritedProperties {
    pub color: Option<String>,
    pub fill: Option<String>,
    pub font: Option<String>,
    pub preserve_whitespace: bool,
    pub text_tranform: Option<TextCase>,
}

/// The mathematical value of an [`InheritedProperties`].
pub ghost struct InheritedView {
    pub color: Option<Seq<char>>,
    pub fill: Option<Seq<char>>,
    pub font: Option<Seq<char>>,
    pub preserve_whitespace: bool,
    pub text_tranform: Option<TextCase>,
}

impl View for InheritedProperties {
    type V = InheritedView;

    open spec fn view(&self) -> InheritedView {
        InheritedView {
            color: text_view(self.color),
            fill: text_view(self.fill),
            font: text_view(self.font),
            preserve_whitespace: self.preserve_whitespace,
            text_tranform: self.text_tranform,
        }
    }
}

/// `first` where it is set, else `second`.
pub open spec fn or_else<T>(first: Option<T>, second: Option<T>) -> Option<T> {
    match first {
        Some(_) => first,
        None => second,
    }
}

/// Nothing is inherited.
pub open spec fn nothing_inherited() -> InheritedView {
    InheritedView {
        color: None,
        fill: None,
        font: None,
        preserve_whitespace: false,
        text_tranform: None,
    }
}

/// What the children of `node` inherit: what `node` sets itself, else what it
/// inherits.
pub open spec fn spec_inherit(node: NodeView, inherited: InheritedView) -> InheritedView {
    InheritedView {
        color: or_else(node.appearance.color, inherited.color),
        fill: or_else(node.appearance.fill, inherited.fill),
        font: or_else(node.appearance.font, inherited.font),
        preserve_whitespace: node.appearance.preserve_whitespace || inherited.preserve_whitespace,
        text_tranform: or_else(node.appearance.text_tranform, inherited.text_tranform),
    }
}

fn text_or_else(first: &Option<String>, second: &Option<String>) -> (r: Option<String>)
    ensures
        text_view(r) == or_else(text_view(*first), text_view(*second)),
{
    match first {
        Some(t) => Some(t.clone()),
        None => match second {
            Some(t) => Some(t.clone()),
            None => None,
        },
    }
}

impl Default for InheritedProperties {
    fn default() -> (r: InheritedProperties)
        ensures
            r@ == nothing_inherited(),
    {
        InheritedProperties {
            color: None,
            fill: None,
            font: None,
            preserve_whitespace: false,
            text_tranform: None,
        }
    }
}

impl InheritedProperties {
    /// What the children of `node` inherit, given what `node` inherits.
    pub fn inherit(node: &IntermediateNode, inherited: &InheritedProperties) -> (r:
        InheritedProperties)
        ensures
            r@ == spec_inherit(node@, inherited@),
    {
        InheritedProperties {
            color: text_or_else(&node.appearance.color, &inherited.color),
            fill: text_or_else(&node.appearance.fill, &inherited.fill),
            font: text_or_else(&node.appearance.font, &inherited.font),
            preserve_whitespace: node.appearance.preserve_whitespace
                || inherited.preserve_whitespace,
            text_tranform: match node.appearance.text_tranform {
                Some(t) => Some(t),
                None => inherited.text_tranform,
            },
        }
    }
}

} // verus!
