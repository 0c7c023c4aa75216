//! The intermediate tree of layout and appearance facts.
pub mod css;
pub mod from_figma;
pub mod html_formatter;
pub mod inset;
pub mod length;
pub mod length_laws;

pub use html_formatter::{format_css, CssFormatError, HtmlFormatter};
pub use inset::Inset;
pub use length::{Length, LengthUnit, LengthView};

use crate::decimal::Decimal;
use crate::schema::{NodeType, StrokeAlign, TextCase, TextDecoration};
use vstd::prelude::*;

verus! {

/// A custom property that stands for a shared style.
#[derive(Debug, PartialEq, Eq)]
pub struct CSSVariable {
    /// The name of the custom property, with its two leading hyphens.
    pub name: String,
    /// The value of the property, once a node that uses the style was met.
    pub value: Option<String>,
}

impl Clone for CSSVariable {
    fn clone(&self) -> (r: CSSVariable)
        ensures
            r.name@ == self.name@,
            text_view(r.value) == text_view(self.value),
    {
        CSSVariable {
            name: self.name.clone(),
            value: match &self.value {
                Some(v) => Some(v.clone()),
                None => None,
            },
        }
    }
}

/// How a flex container places its items along the cross axis.
#[derive(Clone, Copy, Debug, PartialEq, Eq, Hash, Structural)]
pub enum AlignItems {
    Stretch,
    FlexStart,
    Center,
    FlexEnd,
    Baseline,
}

/// How a flex item places itself along the cross axis of its container.
#[derive(Clone, Copy, Debug, PartialEq, Eq, Hash, Structural)]
pub enum AlignSelf {
    Stretch,
}

/// The main axis of a flex container.
#[derive(Clone, Copy, Debug, PartialEq, Eq, Hash, Structural)]
pub enum FlexDirection {
    Row,
    Column,
}

/// How a flex container places its items along the main axis.
#[derive(Clone, Copy, Debug, PartialEq, Eq, Hash, Structural)]
pub enum JustifyContent {
    FlexStart,
    Center,
    FlexEnd,
    SpaceBetween,
}

/// How a stroke is drawn.
#[derive(Clone, Copy, Debug, PartialEq, Eq, Hash, Structural)]
pub enum StrokeStyle {
    Solid,
    Dashed,
}

/// The settings of a node that lays out its children in a row or a column.
#[derive(Debug, PartialEq)]
pub struct FlexContainer {
    pub align_items: AlignItems,
    pub direction: FlexDirection,
    pub gap: Length,
    pub justify_content: Option<JustifyContent>,
}

/// Where a node lies and how large it is. `padding` and `inset` run from the
/// top clockwise.
#[derive(Debug, PartialEq)]
pub struct Location {
    pub padding: [Length; 4],
    pub align_self: Option<AlignSelf>,
    pub flex_grow: Option<Decimal>,
    pub inset: Option<[Inset; 4]>,
    pub height: Option<Length>,
    pub width: Option<Length>,
}

/// How the content of a node looks. Children inherit these.
#[derive(Debug, PartialEq)]
pub struct Appearance {
    pub color: Option<String>,
    pub fill: Option<String>,
    pub font: Option<String>,
    pub opacity: Option<Decimal>,
    pub preserve_whitespace: bool,
    pub text_tranform: Option<TextCase>,
    pub text_decoration_line: Option<TextDecoration>,
}

/// How the box of a node looks.
#[derive(Debug, PartialEq)]
pub struct FrameAppearance {
    pub background: Option<String>,
    pub border_radius: Option<[Length; 4]>,
    pub box_shadow: Option<String>,
    pub stroke: Option<Stroke>,
}

/// The stroke around the box of a node. `weights` run from the top clockwise.
#[derive(Debug, PartialEq)]
pub struct Stroke {
    pub weights: [Decimal; 4],
    pub style: StrokeStyle,
    pub offset: StrokeAlign,
    pub color: String,
}

/// The node of the design document that an intermediate node was made from.
#[derive(Debug, PartialEq)]
pub struct Figma {
    pub name: String,
    pub id: String,
    pub node_type: NodeType,
}

/// What an intermediate node is: a vector graphic, a text, or a frame with
/// children.
#[derive(Debug, PartialEq)]
pub enum IntermediateNodeType {
    Vector,
    Text { text: String },
    Frame { children: Vec<IntermediateNode> },
}

/// A node of the intermediate tree.
#[derive(Debug, PartialEq)]
pub struct IntermediateNode {
    pub figma: Option<Figma>,
    pub flex_container: Option<FlexContainer>,
    pub location: Location,
    pub appearance: Appearance,
    pub frame_appearance: FrameAppearance,
    pub node_type: IntermediateNodeType,
    pub href: Option<String>,
}

/// The mathematical value of a [`FlexContainer`].
pub ghost struct FlexContainerView {
    pub align_items: AlignItems,
    pub direction: FlexDirection,
    pub gap: LengthView,
    pub justify_content: Option<JustifyContent>,
}

/// The mathematical value of a [`Location`].
pub ghost struct LocationView {
    pub padding: Seq<LengthView>,
    pub align_self: Option<AlignSelf>,
    pub flex_grow: Option<Decimal>,
    pub inset: Option<Seq<Inset>>,
    pub height: Option<LengthView>,
    pub width: Option<LengthView>,
}

/// The mathematical value of an [`Appearance`].
pub ghost struct AppearanceView {
    pub color: Option<Seq<char>>,
    pub fill: Option<Seq<char>>,
    pub font: Option<Seq<char>>,
    pub opacity: Option<Decimal>,
    pub preserve_whitespace: bool,
    pub text_tranform: Option<TextCase>,
    pub text_decoration_line: Option<TextDecoration>,
}

/// The mathematical value of a [`Stroke`].
pub ghost struct StrokeView {
    pub weights: Seq<Decimal>,
    pub style: StrokeStyle,
    pub offset: StrokeAlign,
    pub color: Seq<char>,
}

/// The mathematical value of a [`FrameAppearance`].
pub ghost struct FrameAppearanceView {
    pub background: Option<Seq<char>>,
    pub border_radius: Option<Seq<LengthView>>,
    pub box_shadow: Option<Seq<char>>,
    pub stroke: Option<StrokeView>,
}

/// The mathematical value of a [`Figma`].
pub ghost struct FigmaView {
    pub name: Seq<char>,
    pub id: Seq<char>,
    pub node_type: NodeType,
}

/// The mathematical value of an [`IntermediateNodeType`].
pub ghost enum NodeTypeView {
    Vector,
    Text { text: Seq<char> },
    Frame { children: Seq<NodeView> },
}

/// The mathematical value of an [`IntermediateNode`].
pub ghost struct NodeView {
    pub figma: Option<FigmaView>,
    pub flex_container: Option<FlexContainerView>,
    pub location: LocationView,
    pub appearance: AppearanceView,
    pub frame_appearance: FrameAppearanceView,
    pub node_type: NodeTypeView,
    pub href: Option<Seq<char>>,
}

/// The characters of an optional text.
pub open spec fn text_view(text: Option<String>) -> Option<Seq<char>> {
    match text {
        Some(t) => Some(t@),
        None => None,
    }
}

/// The value of an optional length.
pub open spec fn optional_length_view(length: Option<Length>) -> Option<LengthView> {
    match length {
        Some(l) => Some(l@),
        None => None,
    }
}

/// The values of four lengths, from the top clockwise.
pub open spec fn edges_view(edges: [Length; 4]) -> Seq<LengthView> {
    seq![edges[0]@, edges[1]@, edges[2]@, edges[3]@]
}

/// The values of four optional lengths.
pub open spec fn optional_edges_view(edges: Option<[Length; 4]>) -> Option<Seq<LengthView>> {
    match edges {
        Some(e) => Some(edges_view(e)),
        None => None,
    }
}

impl View for FlexContainer {
    type V = FlexContainerView;

    open spec fn view(&self) -> FlexContainerView {
        FlexContainerView {
            align_items: self.align_items,
            direction: self.direction,
            gap: self.gap@,
            justify_content: self.justify_content,
        }
    }
}

impl View for Location {
    type V = LocationView;

    open spec fn view(&self) -> LocationView {
        LocationView {
            padding: edges_view(self.padding),
            align_self: self.align_self,
            flex_grow: self.flex_grow,
            inset: inset::insets_view(self.inset),
            height: optional_length_view(self.height),
            width: optional_length_view(self.width),
        }
    }
}

impl View for Appearance {
    type V = AppearanceView;

    open spec fn view(&self) -> AppearanceView {
        AppearanceView {
            color: text_view(self.color),
            fill: text_view(self.fill),
            font: text_view(self.font),
            opacity: self.opacity,
            preserve_whitespace: self.preserve_whitespace,
            text_tranform: self.text_tranform,
            text_decoration_line: self.text_decoration_line,
        }
    }
}

impl View for Stroke {
    type V = StrokeView;

    open spec fn view(&self) -> StrokeView {
        StrokeView {
            weights: self.weights@,
            style: self.style,
            offset: self.offset,
            color: self.color@,
        }
    }
}

impl View for FrameAppearance {
    type V = FrameAppearanceView;

    open spec fn view(&self) -> FrameAppearanceView {
        FrameAppearanceView {
            background: text_view(self.background),
            border_radius: optional_edges_view(self.border_radius),
            box_shadow: text_view(self.box_shadow),
            stroke: match self.stroke {
                Some(s) => Some(s@),
                None => None,
            },
        }
    }
}

impl View for Figma {
    type V = FigmaView;

    open spec fn view(&self) -> FigmaView {
        FigmaView { name: self.name@, id: self.id@, node_type: self.node_type }
    }
}

/// The mathematical value of `node`.
pub open spec fn node_view(node: IntermediateNode) -> NodeView
    decreases node,
{
    NodeView {
        figma: match node.figma {
            Some(f) => Some(f@),
            None => None,
        },
        flex_container: match node.flex_container {
            Some(f) => Some(f@),
            None => None,
        },
        location: node.location@,
        appearance: node.appearance@,
        frame_appearance: node.frame_appearance@,
        node_type: match node.node_type {
            IntermediateNodeType::Vector => NodeTypeView::Vector,
            IntermediateNodeType::Text { text } => NodeTypeView::Text { text: text@ },
            IntermediateNodeType::Frame { children } => NodeTypeView::Frame {
                children: Seq::new(
                    children.len() as nat,
                    |i: int|
                        if 0 <= i < children.len() {
                            node_view(children[i])
                        } else {
                            arbitrary()
                        },
                ),
            },
        },
        href: text_view(node.href),
    }
}

/// The mathematical values of `nodes`.
pub open spec fn forest_view(nodes: Seq<IntermediateNode>) -> Seq<NodeView> {
    Seq::new(nodes.len(), |i: int| node_view(nodes[i]))
}

impl View for IntermediateNode {
    type V = NodeView;

    open spec fn view(&self) -> NodeView {
        node_view(*self)
    }
}

impl NodeView {
    /// The children of a frame; nothing else has any.
    pub open spec fn children(self) -> Seq<NodeView> {
        match self.node_type {
            NodeTypeView::Frame { children } => children,
            _ => Seq::empty(),
        }
    }

    /// The node with other children, where it is a frame.
    pub open spec fn with_children(self, children: Seq<NodeView>) -> NodeView {
        match self.node_type {
            NodeTypeView::Frame { .. } => NodeView {
                node_type: NodeTypeView::Frame { children },
                ..self
            },
            _ => self,
        }
    }

    /// Whether the node is taken out of the flow of its parent.
    pub open spec fn is_absolute(self) -> bool {
        self.location.inset.is_some()
    }
}

/// The children of a frame are the values of its children.
pub proof fn lemma_frame_view(node: IntermediateNode)
    requires
        node.node_type is Frame,
    ensures
        node@.node_type is Frame,
        node@.children() == forest_view(node.node_type->children@),
{
    assert(node@.children() =~= forest_view(node.node_type->children@));
}

impl IntermediateNode {
    /// The children of a frame.
    pub fn children(&self) -> (r: Option<&Vec<IntermediateNode>>)
        ensures
            r.is_some() == (self.node_type is Frame),
            r.is_some() ==> *r.unwrap() == self.node_type->children,
    {
        match &self.node_type {
            IntermediateNodeType::Frame { children } => Some(children),
            _ => None,
        }
    }
}

} // verus!
