//! The design document: a tree of nodes with absolute geometry, paints,
//! typography and auto-layout settings.
use crate::decimal::{decimal_text, Decimal};
use crate::ordered_map::{component_entries, components_get, stored};
use crate::text::{nat_text, push_char, push_nat, push_text};
use indexmap::IndexMap;
use vstd::prelude::*;

verus! {

/// Where a stroke is drawn relative to the outline of its shape.
#[derive(Clone, Copy, Debug, PartialEq, Eq, Hash, Structural)]
pub enum StrokeAlign {
    /// Inside the shape boundary.
    Inside,
    /// Outside the shape boundary.
    Outside,
    /// Centred along the shape boundary.
    Center,
}

/// Whether, and in which direction, a node lays out its children itself.
#[derive(Clone, Copy, Debug, PartialEq, Eq, Hash, Structural)]
pub enum LayoutMode {
    /// The node does not lay out its children.
    Freeform,
    Horizontal,
    Vertical,
}

/// Whether an axis of an auto-layout node has a length set by the user or one
/// that follows from its content.
#[derive(Clone, Copy, Debug, PartialEq, Eq, Hash, Structural)]
pub enum AxisSizingMode {
    Fixed,
    Auto,
}

/// How the children of an auto-layout node are placed along its primary axis.
#[derive(Clone, Copy, Debug, PartialEq, Eq, Hash, Structural)]
pub enum PrimaryAxisAlignItems {
    Min,
    Center,
    Max,
    SpaceBetween,
}

/// How the children of an auto-layout node are placed along its counter axis.
#[derive(Clone, Copy, Debug, PartialEq, Eq, Hash, Structural)]
pub enum CounterAxisAlignItems {
    Min,
    Center,
    Max,
    Baseline,
}

/// How a child of an auto-layout node is sized along the counter axis.
#[derive(Clone, Copy, Debug, PartialEq, Eq, Hash, Structural)]
pub enum LayoutAlign {
    Inherit,
    Stretch,
    Min,
    Center,
    Max,
}

/// Whether a child of an auto-layout node takes part in the layout.
#[derive(Clone, Copy, Debug, PartialEq, Eq, Hash, Structural)]
pub enum LayoutPositioning {
    Auto,
    Absolute,
}

/// How the vertical position and size of a node follow its containing frame.
#[derive(Clone, Copy, Debug, PartialEq, Eq, Hash, Structural)]
pub enum LayoutConstraintVertical {
    /// Laid out relative to the top of the containing frame.
    Top,
    /// Laid out relative to the bottom of the containing frame.
    Bottom,
    /// Vertically centred in the containing frame.
    Center,
    /// Top and bottom both follow the containing frame: the node stretches.
    TopBottom,
    /// The node scales with the containing frame.
    Scale,
}

/// How the horizontal position and size of a node follow its containing frame.
#[derive(Clone, Copy, Debug, PartialEq, Eq, Hash, Structural)]
pub enum LayoutConstraintHorizontal {
    /// Laid out relative to the left of the containing frame.
    Left,
    /// Laid out relative to the right of the containing frame.
    Right,
    /// Horizontally centred in the containing frame.
    Center,
    /// Left and right both follow the containing frame: the node stretches.
    LeftRight,
    /// The node scales with the containing frame.
    Scale,
}

/// Layout constraint relative to the containing frame.
#[derive(Clone, Copy, Debug, PartialEq, Eq, Hash, Structural)]
pub struct LayoutConstraint {
    pub vertical: LayoutConstraintVertical,
    pub horizontal: LayoutConstraintHorizontal,
}

/// Casing applied to a text.
#[derive(Clone, Copy, Debug, PartialEq, Eq, Hash, Structural)]
pub enum TextCase {
    Upper,
    Lower,
    Title,
    SmallCaps,
    SmallCapsForced,
}

/// Decoration applied to a text.
#[derive(Clone, Copy, Debug, PartialEq, Eq, Hash, Structural)]
pub enum TextDecoration {
    Strikethrough,
    Underline,
}

/// Dimensions along which a text box resizes to fit its text.
#[derive(Clone, Copy, Debug, PartialEq, Eq, Hash, Structural)]
pub enum TextAutoResize {
    Height,
    WidthAndHeight,
    /// The text is shortened to fit the box.
    Truncate,
}

/// Kind of hyperlink.
#[derive(Clone, Copy, Debug, PartialEq, Eq, Hash, Structural)]
pub enum HyperlinkType {
    Url,
    Node,
}

/// A link to a URL or to another node.
#[derive(Debug, PartialEq, Eq)]
pub struct Hyperlink {
    pub link_type: Option<HyperlinkType>,
    /// The URL linked to, for a link to a URL.
    pub url: Option<String>,
    /// The id of the node linked to, for a link to a node.
    pub node_id: Option<String>,
}

/// Character formatting.
#[derive(Debug, PartialEq, Eq)]
pub struct TypeStyle {
    /// Font family of the text.
    pub font_family: String,
    /// Space between paragraphs in pixels.
    pub paragraph_spacing: Option<Decimal>,
    /// Whether the text is italicised.
    pub italic: Option<bool>,
    /// Numeric font weight.
    pub font_weight: Decimal,
    /// Font size in pixels.
    pub font_size: Decimal,
    /// Casing applied to the text.
    pub text_case: Option<TextCase>,
    /// Decoration applied to the text.
    pub text_decoration: Option<TextDecoration>,
    /// Dimensions along which the text box resizes.
    pub text_auto_resize: Option<TextAutoResize>,
    /// Link to a URL or to a node.
    pub hyperlink: Option<Hyperlink>,
    /// Line height in pixels.
    pub line_height_px: Decimal,
}

/// How a layer blends with what is behind it.
#[derive(Clone, Copy, Debug, PartialEq, Eq, Hash, Structural)]
pub enum BlendMode {
    PassThrough,
    Normal,
    Darken,
    Multiply,
    LinearBurn,
    ColorBurn,
    Lighten,
    Screen,
    LinearDodge,
    ColorDodge,
    Overlay,
    SoftLight,
    HardLight,
    Difference,
    Exclusion,
    Hue,
    Saturation,
    Color,
    Luminosity,
}

/// Easing curve of a transition.
#[derive(Clone, Copy, Debug, PartialEq, Eq, Hash, Structural)]
pub enum EasingType {
    EaseIn,
    EaseOut,
    EaseInAndOut,
    Linear,
    EaseInBack,
    EaseOutBack,
    EaseInAndOutBack,
    CustomBezier,
    Gentle,
    Quick,
    Bouncy,
    Slow,
    CustomSpring,
}

/// Kind of visual effect.
#[derive(Clone, Copy, Debug, PartialEq, Eq, Hash, Structural)]
pub enum EffectType {
    InnerShadow,
    DropShadow,
    LayerBlur,
    BackgroundBlur,
}

/// Kind of shared style.
#[derive(Clone, Copy, Debug, PartialEq, Eq, Hash, Structural)]
pub enum StyleType {
    Fill,
    Text,
    Effect,
    Grid,
}

/// The properties of a node that a shared style can be attached to.
#[derive(Clone, Copy, Debug, PartialEq, Eq, Hash, Structural)]
pub enum StyleTypeMapKey {
    Fill,
    Fills,
    Text,
    Grid,
    Effect,
    Stroke,
    Strokes,
}

/// Kind of paint.
#[derive(Clone, Copy, Debug, PartialEq, Eq, Hash, Structural)]
pub enum PaintType {
    Solid,
    GradientLinear,
    GradientRadial,
    GradientAngular,
    GradientDiamond,
    Image,
}

/// What the gradient paints have in common.
#[derive(Clone, Copy, Debug, PartialEq, Eq, Hash, Structural)]
pub struct PaintTypeGradient {
}

/// A point or an offset.
#[derive(Clone, Copy, Debug, PartialEq, Eq, Hash, Structural)]
pub struct Vector {
    pub x: Decimal,
    pub y: Decimal,
}

/// A rectangle in the absolute coordinate space of the document.
#[derive(Clone, Copy, Debug, PartialEq, Eq)]
pub struct Rectangle {
    pub x: Option<Decimal>,
    pub y: Option<Decimal>,
    pub width: Option<Decimal>,
    pub height: Option<Decimal>,
}

/// A published component.
#[derive(Debug, PartialEq, Eq)]
pub struct Component {
    pub key: String,
    pub name: String,
    pub description: String,
}

/// A shared style.
#[derive(Debug, PartialEq, Eq)]
pub struct Style {
    pub key: String,
    pub name: String,
    pub description: String,
    pub remote: bool,
    pub style_type: StyleType,
}

/// The ids of the shared styles that a node uses.
#[derive(Debug, PartialEq, Eq)]
pub struct Styles {
    pub fill: Option<String>,
    pub text: Option<String>,
    pub stroke: Option<String>,
    pub effect: Option<String>,
}

/// Individual stroke weights.
#[derive(Clone, Copy, Debug, PartialEq, Eq, Hash, Structural)]
pub struct StrokeWeights {
    pub top: Decimal,
    pub right: Decimal,
    pub bottom: Decimal,
    pub left: Decimal,
}

/// Kind of node.
#[derive(Clone, Copy, Debug, PartialEq, Eq, Hash, Structural, Default)]
pub enum NodeType {
    Document,
    Canvas,
    #[default]
    Frame,
    Group,
    Vector,
    BooleanOperation,
    Star,
    Line,
    Ellipse,
    RegularPolygon,
    Rectangle,
    Text,
    Slice,
    Component,
    ComponentSet,
    Instance,
    Sticky,
    ShapeWithText,
    Connector,
    Section,
}

/// A colour: three channels and an opacity, each between zero and one.
#[derive(Clone, Copy, Debug, PartialEq, Eq, Hash, Structural)]
pub struct Color {
    pub red: Decimal,
    pub green: Decimal,
    pub blue: Decimal,
    pub alpha: Decimal,
}

/// The largest whole number not above 255 times a count of millionths.
pub open spec fn channel_level(micros: int) -> int {
    (micros * 255) / 1_000_000
}

/// A whole number written in decimal.
pub open spec fn int_text(v: int) -> Seq<char> {
    if v < 0 {
        seq!['-'] + nat_text((-v) as nat)
    } else {
        nat_text(v as nat)
    }
}

/// A colour as it is written in CSS: `rgb(`, the three channels as levels out
/// of 255, the opacity, `)`.
pub open spec fn rgb_text(c: Color) -> Seq<char> {
    "rgb("@ + int_text(channel_level(c.red.micros as int)) + ", "@ + int_text(
        channel_level(c.green.micros as int),
    ) + ", "@ + int_text(channel_level(c.blue.micros as int)) + ", "@ + decimal_text(
        c.alpha.micros as int,
    ) + ")"@
}

fn push_channel(s: &mut String, channel: Decimal)
    ensures
        final(s)@ == old(s)@ + int_text(channel_level(channel.micros as int)),
{
    if channel.micros >= 0 {
        let wide: u128 = (channel.micros as u128) * 255;
        let level: u128 = wide / 1_000_000;
        push_nat(s, level as u64);
    } else {
        let wide: u128 = ((-(channel.micros as i128)) as u128) * 255;
        let level: u128 = (wide + 999_999) / 1_000_000;
        assert(channel_level(channel.micros as int) == -(level as int));
        let ghost before = s@;
        push_char(s, '-');
        push_nat(s, level as u64);
        assert(s@ =~= before + int_text(channel_level(channel.micros as int)));
    }
}

impl Color {
    /// The colour as it is written in CSS.
    pub fn to_rgb_string(&self) -> (r: String)
        ensures
            r@ == rgb_text(*self),
    {
        let mut s = String::new();
        push_text(&mut s, "rgb(");
        push_channel(&mut s, self.red);
        push_text(&mut s, ", ");
        push_channel(&mut s, self.green);
        push_text(&mut s, ", ");
        push_channel(&mut s, self.blue);
        push_text(&mut s, ", ");
        self.alpha.write_to(&mut s);
        push_text(&mut s, ")");
        proof {
            assert(s@ =~= rgb_text(*self));
        }
        s
    }

    /// The colour as it is written in CSS, unless it is fully transparent.
    pub fn to_option_rgb_string(&self) -> (r: Option<String>)
        ensures
            self.alpha.micros == 0 ==> r.is_none(),
            self.alpha.micros != 0 ==> r.is_some() && r.unwrap()@ == rgb_text(*self),
    {
        if self.alpha.is_zero() {
            None
        } else {
            Some(self.to_rgb_string())
        }
    }
}

/// A solid colour, gradient or image that is applied as a fill or a stroke.
#[derive(Debug, PartialEq, Eq)]
pub struct Paint {
    pub paint_type: PaintType,
    /// Whether the paint is enabled. Absent means enabled.
    pub visible: Option<bool>,
    /// Overall opacity of the paint. Absent means opaque.
    pub opacity: Option<Decimal>,
    /// Solid colour of the paint.
    pub color: Option<Color>,
    /// How the paint blends with what is behind it.
    pub blend_mode: Option<BlendMode>,
    /// Start, end and width handle of a gradient.
    pub gradient_handle_positions: Option<[Vector; 3]>,
}

impl Paint {
    /// Whether the paint is enabled.
    pub open spec fn spec_visible(&self) -> bool {
        self.visible != Some(false)
    }

    /// The opacity of the paint, in millionths.
    pub open spec fn spec_opacity(&self) -> int {
        match self.opacity {
            Some(o) => o.micros as int,
            None => 1_000_000,
        }
    }

    /// Whether the paint is enabled.
    pub fn visible(&self) -> (r: bool)
        ensures
            r == self.spec_visible(),
    {
        match self.visible {
            Some(v) => v,
            None => true,
        }
    }

    /// The opacity of the paint.
    pub fn opacity(&self) -> (r: Decimal)
        ensures
            r.micros == self.spec_opacity(),
    {
        match self.opacity {
            Some(o) => o,
            None => Decimal::one(),
        }
    }

    /// The solid colour of the paint, if it has one.
    pub fn color(&self) -> (r: Option<&Color>)
        ensures
            r.is_some() == self.color.is_some(),
            r.is_some() ==> *r.unwrap() == self.color.unwrap(),
    {
        self.color.as_ref()
    }
}

/// A visual effect such as a shadow or a blur.
#[derive(Debug, PartialEq, Eq)]
pub struct Effect {
    pub effect_type: EffectType,
    /// Whether the effect is active.
    pub visible: bool,
    /// The colour of the shadow.
    pub color: Option<Color>,
    /// How far the shadow is cast in each direction.
    pub offset: Option<Vector>,
    /// How far the shadow spreads. Absent means not at all.
    pub spread: Option<Decimal>,
}

impl Effect {
    /// How far the shadow spreads.
    pub fn spread(&self) -> (r: Decimal)
        ensures
            r == match self.spread {
                Some(s) => s,
                None => (Decimal { micros: 0 }),
            },
    {
        match self.spread {
            Some(s) => s,
            None => Decimal::zero(),
        }
    }
}

/// The decimal where there is one, else so many millionths.
pub open spec fn or_decimal(value: Option<Decimal>, micros: int) -> Decimal {
    match value {
        Some(v) => v,
        None => Decimal { micros: micros as i64 },
    }
}

/// The paints of an optional list.
pub open spec fn paints_in(paints: Option<Vec<Paint>>) -> Seq<Paint> {
    match paints {
        Some(p) => p@,
        None => Seq::empty(),
    }
}

/// A node of the design document.
#[derive(Debug, PartialEq, Eq, Default)]
pub struct Node {
    /// A string that identifies the node within the document.
    pub id: String,
    /// The name that the user gave to the node.
    pub name: String,
    /// Whether the node is visible on the canvas. Absent means visible.
    pub visible: Option<bool>,
    /// The kind of the node.
    pub node_type: NodeType,
    /// The direct children of the node.
    pub children: Option<Vec<Node>>,
    /// Background colour of the canvas.
    pub background_color: Option<Color>,
    /// The fill paints applied to the node.
    pub fills: Option<Vec<Paint>>,
    /// The stroke paints applied to the node.
    pub strokes: Option<Vec<Paint>>,
    /// The weight of the strokes of the node.
    pub stroke_weight: Option<Decimal>,
    /// The weights of the four strokes, where they differ.
    pub individual_stroke_weights: Option<StrokeWeights>,
    /// Position of the stroke relative to the outline.
    pub stroke_align: Option<StrokeAlign>,
    /// Lengths of the dashes and gaps of a dashed stroke.
    pub stroke_dashes: Option<Vec<Decimal>>,
    /// Radius of every corner, where one radius is set for all of them.
    pub corner_radius: Option<Decimal>,
    /// Radius of each corner, from the top left clockwise.
    pub rectangle_corner_radii: Option<[Decimal; 4]>,
    /// The duration of the prototyping transition, in milliseconds.
    pub transition_duration: Option<Decimal>,
    /// The easing curve of the prototyping transition.
    pub transition_easing: Option<EasingType>,
    /// Opacity of the node.
    pub opacity: Option<Decimal>,
    /// Bounding box of the node in absolute coordinates.
    pub absolute_bounding_box: Option<Rectangle>,
    /// The bounds of the rendered node in absolute coordinates.
    pub absolute_render_bounds: Option<Rectangle>,
    /// Whether the primary axis of an auto-layout node has a fixed length.
    pub primary_axis_sizing_mode: Option<AxisSizingMode>,
    /// Whether the counter axis of an auto-layout node has a fixed length.
    pub counter_axis_sizing_mode: Option<AxisSizingMode>,
    /// How an auto-layout node aligns its children along the primary axis.
    pub primary_axis_align_items: Option<PrimaryAxisAlignItems>,
    /// How an auto-layout node aligns its children along the counter axis.
    pub counter_axis_align_items: Option<CounterAxisAlignItems>,
    /// The distance between the children of an auto-layout node.
    pub item_spacing: Option<Decimal>,
    /// Whether the node lays out its children itself.
    pub layout_mode: Option<LayoutMode>,
    /// Padding between the left border of an auto-layout node and its children.
    pub padding_left: Option<Decimal>,
    /// Padding between the right border of an auto-layout node and its children.
    pub padding_right: Option<Decimal>,
    /// Padding between the top border of an auto-layout node and its children.
    pub padding_top: Option<Decimal>,
    /// Padding between the bottom border of an auto-layout node and its children.
    pub padding_bottom: Option<Decimal>,
    /// The effects attached to the node.
    pub effects: Option<Vec<Effect>>,
    /// The shared styles that the node uses.
    pub styles: Option<Styles>,
    /// The text of a text node.
    pub characters: Option<String>,
    /// The character formatting of a text node.
    pub style: Option<TypeStyle>,
    /// How much a child of an auto-layout node stretches along the primary
    /// axis of its parent: zero is a fixed size, one is a full stretch.
    pub layout_grow: Option<Decimal>,
    /// How a child of an auto-layout node is sized along the counter axis.
    pub layout_align: Option<LayoutAlign>,
    /// Whether a child of an auto-layout node takes part in the layout.
    pub layout_positioning: Option<LayoutPositioning>,
    /// How position and size follow the containing frame.
    pub constraints: Option<LayoutConstraint>,
}

impl Node {
    /// Whether the node is visible on the canvas.
    pub open spec fn spec_visible(&self) -> bool {
        self.visible != Some(false)
    }

    /// The direct children of the node.
    pub open spec fn spec_children(&self) -> Seq<Node> {
        match self.children {
            Some(children) => children@,
            None => Seq::empty(),
        }
    }

    /// Whether the node lays out its children in a row or in a column.
    pub open spec fn spec_is_auto_layout(&self) -> bool {
        self.layout_mode == Some(LayoutMode::Horizontal) || self.layout_mode == Some(
            LayoutMode::Vertical,
        )
    }

    /// Whether the node is visible on the canvas.
    pub fn visible(&self) -> (r: bool)
        ensures
            r == self.spec_visible(),
    {
        match self.visible {
            Some(v) => v,
            None => true,
        }
    }

    /// Whether the node lays out its children in a row or in a column.
    pub fn is_auto_layout(&self) -> (r: bool)
        ensures
            r == self.spec_is_auto_layout(),
    {
        match self.layout_mode {
            Some(LayoutMode::Horizontal) => true,
            Some(LayoutMode::Vertical) => true,
            _ => false,
        }
    }

    /// The number of direct children of the node.
    pub fn child_count(&self) -> (r: usize)
        ensures
            r == self.spec_children().len(),
    {
        match &self.children {
            Some(children) => children.len(),
            None => 0,
        }
    }

    /// The direct child at `index`.
    pub fn child(&self, index: usize) -> (r: &Node)
        requires
            index < self.spec_children().len(),
        ensures
            *r == self.spec_children()[index as int],
    {
        match &self.children {
            Some(children) => &children[index],
            None => self,
        }
    }

    /// The background colour of the canvas.
    pub fn background_color(&self) -> (r: Option<&Color>)
        ensures
            r.is_some() == self.background_color.is_some(),
            r.is_some() ==> *r.unwrap() == self.background_color.unwrap(),
    {
        self.background_color.as_ref()
    }

    /// The bounding box that the node itself has.
    pub fn absolute_bounding_box(&self) -> (r: Option<&Rectangle>)
        ensures
            r.is_some() == self.absolute_bounding_box.is_some(),
            r.is_some() ==> *r.unwrap() == self.absolute_bounding_box.unwrap(),
    {
        self.absolute_bounding_box.as_ref()
    }

    /// The radius that is set for all corners.
    pub fn corner_radius(&self) -> (r: Option<Decimal>)
        ensures
            r == self.corner_radius,
    {
        self.corner_radius
    }

    /// The duration of the prototyping transition, in milliseconds.
    pub fn transition_duration(&self) -> (r: Option<Decimal>)
        ensures
            r == self.transition_duration,
    {
        self.transition_duration
    }

    /// The easing curve of the prototyping transition.
    pub fn transition_easing(&self) -> (r: Option<&EasingType>)
        ensures
            r.is_some() == self.transition_easing.is_some(),
            r.is_some() ==> *r.unwrap() == self.transition_easing.unwrap(),
    {
        self.transition_easing.as_ref()
    }

    /// The opacity of the node: one where none is set.
    pub fn opacity(&self) -> (r: Decimal)
        ensures
            r == or_decimal(self.opacity, 1_000_000),
    {
        match self.opacity {
            Some(o) => o,
            None => Decimal::one(),
        }
    }

    /// The padding on the left: zero where none is set.
    pub fn padding_left(&self) -> (r: Decimal)
        ensures
            r == or_decimal(self.padding_left, 0),
    {
        match self.padding_left {
            Some(p) => p,
            None => Decimal::zero(),
        }
    }

    /// The padding on the right: zero where none is set.
    pub fn padding_right(&self) -> (r: Decimal)
        ensures
            r == or_decimal(self.padding_right, 0),
    {
        match self.padding_right {
            Some(p) => p,
            None => Decimal::zero(),
        }
    }

    /// The padding at the top: zero where none is set.
    pub fn padding_top(&self) -> (r: Decimal)
        ensures
            r == or_decimal(self.padding_top, 0),
    {
        match self.padding_top {
            Some(p) => p,
            None => Decimal::zero(),
        }
    }

    /// The padding at the bottom: zero where none is set.
    pub fn padding_bottom(&self) -> (r: Decimal)
        ensures
            r == or_decimal(self.padding_bottom, 0),
    {
        match self.padding_bottom {
            Some(p) => p,
            None => Decimal::zero(),
        }
    }

    /// The visible ones among the direct children of the node, in their
    /// order.
    pub fn enabled_children(&self) -> (r: Vec<&Node>)
        ensures
            r@.len() == visible_ones(self.spec_children()).len(),
            forall|i: int| 0 <= i < r@.len() ==> *#[trigger] r@[i] == visible_ones(
                self.spec_children(),
            )[i],
    {
        let mut found: Vec<&Node> = Vec::new();
        let n = self.child_count();
        let mut i: usize = 0;
        while i < n
            invariant
                i <= n,
                n == self.spec_children().len(),
                found@.len() == visible_ones(self.spec_children().take(i as int)).len(),
                forall|j: int|
                    0 <= j < found@.len() ==> *#[trigger] found@[j] == visible_ones(
                        self.spec_children().take(i as int),
                    )[j],
            decreases n - i,
        {
            let child = self.child(i);
            proof {
                let all = self.spec_children();
                assert(all.take(i + 1).drop_last() == all.take(i as int));
                assert(all.take(i + 1).last() == all[i as int]);
            }
            if child.visible() {
                found.push(child);
            }
            i += 1;
        }
        proof {
            assert(self.spec_children().take(i as int) == self.spec_children());
        }
        found
    }

    /// The direct children of the node.
    pub fn children(&self) -> (r: &[Node])
        ensures
            r@ == self.spec_children(),
    {
        match &self.children {
            Some(children) => children.as_slice(),
            None => &[],
        }
    }

    /// The fill paints of the node.
    pub fn fills(&self) -> (r: &[Paint])
        ensures
            r@ == paints_in(self.fills),
    {
        match &self.fills {
            Some(paints) => paints.as_slice(),
            None => &[],
        }
    }

    /// The stroke paints of the node.
    pub fn strokes(&self) -> (r: &[Paint])
        ensures
            r@ == paints_in(self.strokes),
    {
        match &self.strokes {
            Some(paints) => paints.as_slice(),
            None => &[],
        }
    }

    /// The published component that the node is, if it is one.
    pub fn component<'a>(&self, file: &'a File) -> (r: Option<&'a Component>)
        ensures
            r.is_some() == stored(component_entries(file.components), self.id@).is_some(),
            r.is_some() ==> *r.unwrap() == stored(
                component_entries(file.components),
                self.id@,
            ).unwrap(),
    {
        components_get(&file.components, self.id.as_str())
    }

    /// The weight of the strokes of the node.
    pub fn stroke_weight(&self) -> (r: Option<Decimal>)
        ensures
            r == self.stroke_weight,
    {
        self.stroke_weight
    }

    /// Where the strokes of the node are drawn.
    pub fn stroke_align(&self) -> (r: Option<&StrokeAlign>)
        ensures
            r.is_some() == self.stroke_align.is_some(),
            r.is_some() ==> *r.unwrap() == self.stroke_align.unwrap(),
    {
        self.stroke_align.as_ref()
    }

    /// The radius of each corner: the individual radii, else the one radius
    /// that is set for all corners.
    pub fn rectangle_corner_radii(&self) -> (r: Option<[Decimal; 4]>)
        ensures
            r == match self.rectangle_corner_radii {
                Some(radii) => Some(radii),
                None => match self.corner_radius {
                    Some(radius) => Some([radius, radius, radius, radius]),
                    None => None,
                },
            },
    {
        match self.rectangle_corner_radii {
            Some(radii) => Some(radii),
            None => match self.corner_radius {
                Some(radius) => Some([radius, radius, radius, radius]),
                None => None,
            },
        }
    }
}

/// The visible ones among some nodes, in their order.
pub open spec fn visible_ones(nodes: Seq<Node>) -> Seq<Node>
    decreases nodes.len(),
{
    if nodes.len() == 0 {
        Seq::empty()
    } else if nodes.last().spec_visible() {
        visible_ones(nodes.drop_last()).push(nodes.last())
    } else {
        visible_ones(nodes.drop_last())
    }
}

/// A node and all that is below it: the node first, then its children, each
/// with all that is below it.
pub open spec fn depth_first(node: Node) -> Seq<Node>
    decreases node, 1int,
{
    match node.children {
        Some(children) => seq![node] + depth_first_each(children@),
        None => seq![node],
    }
}

/// Some nodes, each followed by all that is below it.
pub open spec fn depth_first_each(nodes: Seq<Node>) -> Seq<Node>
    decreases nodes, 0int,
{
    if nodes.len() == 0 {
        Seq::empty()
    } else {
        depth_first(nodes.first()) + depth_first_each(nodes.drop_first())
    }
}

/// A walk through all that is below a node, each node before its children
/// and these before its next sibling. At every step it holds the nodes on
/// the way from the root down to where it is, each with the number of its
/// children that the walk has been to.
pub struct NodeDepthFirstStackIterator<'a> {
    levels: Vec<(&'a Node, usize)>,
}

/// What is left of a walk that stands at `levels`.
pub open spec fn left_of_walk(levels: Seq<(&Node, usize)>) -> Seq<Node>
    decreases levels.len(),
{
    if levels.len() == 0 {
        Seq::empty()
    } else {
        depth_first_each(levels.last().0.spec_children().skip(levels.last().1 as int))
            + left_of_walk(levels.drop_last())
    }
}

/// What is left of a walk that goes one level deeper.
pub proof fn lemma_walk_deeper(levels: Seq<(&Node, usize)>, node: &Node, been_to: usize)
    ensures
        left_of_walk(levels.push((node, been_to))) == depth_first_each(
            node.spec_children().skip(been_to as int),
        ) + left_of_walk(levels),
{
    assert(levels.push((node, been_to)).drop_last() == levels);
    assert(levels.push((node, been_to)).last() == (node, been_to));
}

/// A node comes first in a walk through it and all that is below it.
pub proof fn lemma_depth_first_unfold(node: Node)
    ensures
        depth_first(node) == seq![node] + depth_first_each(node.spec_children()),
{
    if node.children.is_none() {
        assert(depth_first_each(node.spec_children()) =~= Seq::<Node>::empty());
        assert(seq![node] + Seq::<Node>::empty() =~= seq![node]);
    }
}

impl<'a> NodeDepthFirstStackIterator<'a> {
    /// The nodes on the way from the root down to where the walk is.
    pub closed spec fn path(&self) -> Seq<&'a Node> {
        Seq::new(self.levels@.len(), |i: int| self.levels@[i].0)
    }

    /// The nodes that the walk has yet to go to, in their order.
    pub closed spec fn remaining(&self) -> Seq<Node> {
        left_of_walk(self.levels@)
    }

    /// Whether the walk is in order: it has been to no more children of a node
    /// than the node has. Every walk that [`Node::depth_first_stack_iter`]
    /// starts is, and stays so.
    pub closed spec fn well_formed(&self) -> bool {
        forall|i: int|
            0 <= i < self.levels@.len() ==> (#[trigger] self.levels@[i]).1
                <= self.levels@[i].0.spec_children().len()
    }

    /// Goes to the next node, and hands it out with the nodes on the way
    /// from the root down to it; nothing once the walk is over.
    pub fn next(&mut self) -> (r: Option<(&'a Node, Vec<&'a Node>)>)
        requires
            old(self).well_formed(),
        ensures
            final(self).well_formed(),
            match r {
                Some((node, path)) => old(self).remaining().len() > 0 && *node == old(
                    self,
                ).remaining()[0] && final(self).remaining() == old(self).remaining().drop_first()
                    && path@ == final(self).path() && path@.len() > 0 && path@.last() == node,
                None => old(self).remaining().len() == 0 && final(self).remaining().len() == 0,
            },
    {
        while self.levels.len() > 0
            invariant
                self.well_formed(),
                self.remaining() == old(self).remaining(),
            decreases self.levels.len(),
        {
            let depth = self.levels.len() - 1;
            let (top, been_to): (&'a Node, usize) = self.levels[depth];
            let ghost levels_below = self.levels@.drop_last();
            let ghost below = left_of_walk(levels_below);
            let ghost children = top.spec_children();
            proof {
                assert(self.levels@ =~= levels_below.push((top, been_to)));
                lemma_walk_deeper(levels_below, top, been_to);
            }
            if been_to < top.child_count() {
                let child: &'a Node = top.child(been_to);
                self.levels.set(depth, (top, been_to + 1));
                self.levels.push((child, 0));
                proof {
                    let rest = children.skip(been_to as int);
                    assert(rest.first() == *child);
                    assert(rest.drop_first() =~= children.skip(been_to + 1));
                    lemma_depth_first_unfold(*child);
                    assert(child.spec_children().skip(0) =~= child.spec_children());
                    let levels_after = levels_below.push((top, (been_to + 1) as usize));
                    assert(self.levels@ =~= levels_after.push((child, 0usize)));
                    lemma_walk_deeper(levels_below, top, (been_to + 1) as usize);
                    lemma_walk_deeper(levels_after, child, 0);
                    let inner = depth_first_each(child.spec_children());
                    let siblings = depth_first_each(children.skip(been_to + 1));
                    assert(old(self).remaining() =~= seq![*child] + inner + siblings + below);
                    assert(self.remaining() =~= inner + siblings + below);
                    assert(self.remaining() =~= old(self).remaining().drop_first());
                    assert forall|i: int| 0 <= i < self.levels@.len() implies (
                    #[trigger] self.levels@[i]).1 <= self.levels@[i].0.spec_children().len() by {
                        if i < depth {
                            assert(self.levels@[i] == levels_below[i]);
                        }
                    }
                }
                let mut path: Vec<&'a Node> = Vec::new();
                let mut i: usize = 0;
                while i < self.levels.len()
                    invariant
                        i <= self.levels.len(),
                        path@.len() == i,
                        forall|j: int| 0 <= j < i ==> path@[j] == self.levels@[j].0,
                    decreases self.levels.len() - i,
                {
                    path.push(self.levels[i].0);
                    i += 1;
                }
                proof {
                    assert(path@ =~= self.path());
                }
                return Some((child, path));
            }
            proof {
                assert(children.skip(been_to as int) =~= Seq::<Node>::empty());
                assert(depth_first_each(Seq::<Node>::empty()) =~= Seq::<Node>::empty());
                assert(Seq::<Node>::empty() + below =~= below);
            }
            self.levels.pop();
            proof {
                assert(self.levels@ =~= levels_below);
                assert forall|i: int| 0 <= i < self.levels@.len() implies (
                #[trigger] self.levels@[i]).1 <= self.levels@[i].0.spec_children().len() by {
                    assert(self.levels@[i] == levels_below.push((top, been_to))[i]);
                }
            }
        }
        None
    }
}

impl Node {
    /// A walk through all that is below the node.
    pub fn depth_first_stack_iter(&self) -> (r: NodeDepthFirstStackIterator<'_>)
        ensures
            r.well_formed(),
            r.remaining() == depth_first_each(self.spec_children()),
            r.path() == seq![self],
    {
        let mut levels: Vec<(&Node, usize)> = Vec::new();
        levels.push((self, 0));
        proof {
            lemma_walk_deeper(Seq::<(&Node, usize)>::empty(), self, 0);
            assert(self.spec_children().skip(0) =~= self.spec_children());
            assert(levels@ =~= Seq::<(&Node, usize)>::empty().push((self, 0usize)));
            let all = depth_first_each(self.spec_children());
            assert(all + Seq::<Node>::empty() =~= all);
        }
        let r = NodeDepthFirstStackIterator { levels };
        proof {
            assert(r.path() =~= seq![self]);
        }
        r
    }
}

/// A design document with what it publishes.
#[derive(Debug, PartialEq, Eq)]
pub struct File {
    pub document: Node,
    /// The published components, each under the id of its node.
    pub components: IndexMap<String, Component>,
    /// The shared styles, each under its id.
    pub styles: IndexMap<String, Style>,
    pub name: String,
    pub schema_version: u8,
    pub version: String,
}

/// The first of `nodes` whose id is `id`.
pub open spec fn first_with_id(nodes: Seq<Node>, id: Seq<char>) -> Option<Node>
    decreases nodes.len(),
{
    if nodes.len() == 0 {
        None
    } else if nodes.first().id@ == id {
        Some(nodes.first())
    } else {
        first_with_id(nodes.drop_first(), id)
    }
}

} // verus!
