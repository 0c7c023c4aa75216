//! The CSS declarations of an intermediate node.
use crate::decimal::{decimal_text, Decimal};
use crate::intermediate_node::inset::inset_text;
use crate::intermediate_node::length::{length_text, Length, LengthView};
use crate::intermediate_node::{
    lemma_frame_view, text_view, AlignItems, FlexDirection, IntermediateNode,
    IntermediateNodeType, JustifyContent, NodeView, StrokeStyle,
};
use crate::mutator::static_count;
use crate::schema::{StrokeAlign, TextCase, TextDecoration};
use crate::text::push_text;
use vstd::prelude::*;
use vstd::string::StringExecFns;

verus! {

/// A CSS property with its value, where it has one.
pub type Property = (Seq<char>, Option<Seq<char>>);

/// A declaration of `property`, or nothing where it has no value.
pub open spec fn declaration(property: Property) -> Seq<char> {
    match property.1 {
        Some(value) => property.0 + ": "@ + value + ";"@,
        None => Seq::empty(),
    }
}

/// The declarations of `properties`, one after the other.
pub open spec fn declarations(properties: Seq<Property>) -> Seq<char>
    decreases properties.len(),
{
    if properties.len() == 0 {
        Seq::empty()
    } else {
        declarations(properties.drop_last()) + declaration(properties.last())
    }
}

/// Four texts with a space between each two of them.
pub open spec fn four(a: Seq<char>, b: Seq<char>, c: Seq<char>, d: Seq<char>) -> Seq<char> {
    a + " "@ + b + " "@ + c + " "@ + d
}

/// Four lengths as they are written in CSS.
pub open spec fn edges_text(edges: Seq<LengthView>) -> Seq<char> {
    four(
        length_text(edges[0]),
        length_text(edges[1]),
        length_text(edges[2]),
        length_text(edges[3]),
    )
}

/// The four radii of the corners of a node, where they are set.
pub open spec fn border_radius_text(node: NodeView) -> Option<Seq<char>> {
    match node.frame_appearance.border_radius {
        Some(r) => Some(edges_text(r)),
        None => None,
    }
}

/// How a flex container aligns its items, unless it stretches them.
pub open spec fn align_items_text(node: NodeView) -> Option<Seq<char>> {
    match node.flex_container {
        Some(f) => match f.align_items {
            AlignItems::Stretch => None,
            AlignItems::FlexStart => Some("flex-start"@),
            AlignItems::Center => Some("center"@),
            AlignItems::FlexEnd => Some("flex-end"@),
            AlignItems::Baseline => Some("baseline"@),
        },
        None => None,
    }
}

/// How a flex container places its items along its main axis, where it
/// says so.
pub open spec fn justify_content_text(node: NodeView) -> Option<Seq<char>> {
    match node.flex_container {
        Some(f) => match f.justify_content {
            None => None,
            Some(JustifyContent::FlexStart) => Some("flex-start"@),
            Some(JustifyContent::Center) => Some("center"@),
            Some(JustifyContent::FlexEnd) => Some("flex-end"@),
            Some(JustifyContent::SpaceBetween) => Some("space-between"@),
        },
        None => None,
    }
}

/// Whether a padding adds to an extent that the node sets, so that the box
/// has to be sized by its border.
pub open spec fn sized_by_border(node: NodeView) -> bool {
    let p = node.location.padding;
    ((p[0] != LengthView::Zero || p[2] != LengthView::Zero) && node.location.height.is_some()) || ((
    p[1] != LengthView::Zero || p[3] != LengthView::Zero) && node.location.width.is_some())
}

/// The main axis of a flex container.
pub open spec fn flex_direction_text(node: NodeView) -> Option<Seq<char>> {
    match node.flex_container {
        Some(f) => match f.direction {
            FlexDirection::Row => Some("row"@),
            FlexDirection::Column => Some("column"@),
        },
        None => None,
    }
}

/// The gap of a flex container, where it has one.
pub open spec fn gap_text(node: NodeView) -> Option<Seq<char>> {
    match node.flex_container {
        Some(f) => if f.gap == LengthView::Zero {
            None
        } else {
            Some(length_text(f.gap))
        },
        None => None,
    }
}

/// A length as it is written in CSS, where there is one.
pub open spec fn optional_length_text(length: Option<LengthView>) -> Option<Seq<char>> {
    match length {
        Some(l) => Some(length_text(l)),
        None => None,
    }
}

/// A decimal as it is written in CSS, where there is one.
pub open spec fn optional_decimal_text(value: Option<Decimal>) -> Option<Seq<char>> {
    match value {
        Some(v) => Some(decimal_text(v.micros as int)),
        None => None,
    }
}

/// The four insets of a node that is taken out of the flow.
pub open spec fn insets_text(node: NodeView) -> Option<Seq<char>> {
    match node.location.inset {
        Some(i) => Some(four(inset_text(i[0]), inset_text(i[1]), inset_text(i[2]), inset_text(i[3]))),
        None => None,
    }
}

/// How a stroke is drawn, as CSS names it.
pub open spec fn stroke_style_text(style: StrokeStyle) -> Seq<char> {
    match style {
        StrokeStyle::Solid => "solid"@,
        StrokeStyle::Dashed => "dashed"@,
    }
}

/// The outline that draws a stroke. The weight at the top stands for all.
pub open spec fn outline_text(node: NodeView) -> Option<Seq<char>> {
    match node.frame_appearance.stroke {
        Some(s) => if s.weights[0].micros == 0 {
            None
        } else {
            Some(
                decimal_text(s.weights[0].micros as int) + "px "@ + stroke_style_text(s.style)
                    + " "@ + s.color,
            )
        },
        None => None,
    }
}

/// How far the outline is drawn into the box.
pub open spec fn outline_offset_text(node: NodeView) -> Option<Seq<char>> {
    match node.frame_appearance.stroke {
        Some(s) => match s.offset {
            StrokeAlign::Inside => Some("-"@ + decimal_text(s.weights[0].micros as int) + "px"@),
            StrokeAlign::Outside => None,
            StrokeAlign::Center => Some(
                "-"@ + decimal_text(
                    crate::decimal::half_towards_zero(s.weights[0].micros as int),
                ) + "px"@,
            ),
        },
        None => None,
    }
}

/// The four paddings of a node, unless none is set.
pub open spec fn padding_text(node: NodeView) -> Option<Seq<char>> {
    let p = node.location.padding;
    if p[0] == LengthView::Zero && p[1] == LengthView::Zero && p[2] == LengthView::Zero && p[3]
        == LengthView::Zero {
        None
    } else {
        Some(edges_text(p))
    }
}

/// A node that is taken out of the flow is placed absolutely; one that has
/// such a child is what the child is placed in.
pub open spec fn position_text(node: NodeView) -> Option<Seq<char>> {
    if node.location.inset.is_some() {
        Some("absolute"@)
    } else if static_count(node.children()) < node.children().len() {
        Some("relative"@)
    } else {
        None
    }
}

/// The decoration of a text, as CSS names it.
pub open spec fn text_decoration_text(node: NodeView) -> Option<Seq<char>> {
    match node.appearance.text_decoration_line {
        Some(TextDecoration::Strikethrough) => Some("line-through"@),
        Some(TextDecoration::Underline) => Some("underline"@),
        None => None,
    }
}

/// The casing of a text, as far as CSS can transform to it.
pub open spec fn text_transform_text(node: NodeView) -> Option<Seq<char>> {
    match node.appearance.text_tranform {
        Some(TextCase::Upper) => Some("uppercase"@),
        Some(TextCase::Lower) => Some("lowercase"@),
        Some(TextCase::Title) => Some("capitalize"@),
        _ => None,
    }
}

/// `text` where `set` holds.
pub open spec fn text_if(set: bool, text: Seq<char>) -> Option<Seq<char>> {
    if set {
        Some(text)
    } else {
        None
    }
}

/// The properties from `align-items` to `box-sizing`.
pub open spec fn properties_from_align_items(node: NodeView) -> Seq<Property> {
    seq![
        ("align-items"@, align_items_text(node)),
        ("align-self"@, text_if(node.location.align_self.is_some(), "stretch"@)),
        ("background"@, node.frame_appearance.background),
        ("border-radius"@, border_radius_text(node)),
        ("box-shadow"@, node.frame_appearance.box_shadow),
        ("box-sizing"@, text_if(sized_by_border(node), "border-box"@)),
    ]
}

/// The properties from `color` to `font`.
pub open spec fn properties_from_color(node: NodeView) -> Seq<Property> {
    seq![
        ("color"@, node.appearance.color),
        ("display"@, text_if(node.flex_container.is_some(), "flex"@)),
        ("fill"@, node.appearance.fill),
        ("flex-direction"@, flex_direction_text(node)),
        ("flex-grow"@, optional_decimal_text(node.location.flex_grow)),
        ("font"@, node.appearance.font),
    ]
}

/// The properties from `gap` to `outline-offset`.
pub open spec fn properties_from_gap(node: NodeView) -> Seq<Property> {
    seq![
        ("gap"@, gap_text(node)),
        ("height"@, optional_length_text(node.location.height)),
        ("inset"@, insets_text(node)),
        ("justify-content"@, justify_content_text(node)),
        ("opacity"@, optional_decimal_text(node.appearance.opacity)),
        ("outline"@, outline_text(node)),
        ("outline-offset"@, outline_offset_text(node)),
    ]
}

/// The properties from `padding` to `width`.
pub open spec fn properties_from_padding(node: NodeView) -> Seq<Property> {
    seq![
        ("padding"@, padding_text(node)),
        ("position"@, position_text(node)),
        ("text-decoration-line"@, text_decoration_text(node)),
        ("text-transform"@, text_transform_text(node)),
        ("white-space"@, text_if(node.appearance.preserve_whitespace, "pre-wrap"@)),
        ("width"@, optional_length_text(node.location.width)),
    ]
}

/// The declarations of a node as they are before they are minified: those
/// of the properties that have a value, in the alphabetical order of the
/// names of the properties.
pub open spec fn naive_css(node: NodeView) -> Seq<char> {
    declarations(properties_from_align_items(node)) + declarations(properties_from_color(node))
        + declarations(properties_from_gap(node)) + declarations(properties_from_padding(node))
}

fn declare(s: &mut String, name: &str, value: Option<String>, Ghost(done): Ghost<Seq<Property>>)
    requires
        old(s)@ == declarations(done),
    ensures
        final(s)@ == declarations(
            done.push(
                (
                    name@,
                    match value {
                        Some(v) => Some(v@),
                        None => None,
                    },
                ),
            ),
        ),
{
    let ghost property = (name@, crate::intermediate_node::text_view(value));
    proof {
        assert(done.push(property).drop_last() == done);
        assert(done.push(property).last() == property);
    }
    match value {
        Some(v) => {
            push_text(s, name);
            push_text(s, ": ");
            push_text(s, v.as_str());
            push_text(s, ";");
            proof {
                assert(s@ =~= declarations(done) + declaration(property));
            }
        },
        None => {
            proof {
                assert(s@ =~= declarations(done) + declaration(property));
            }
        },
    }
}

fn literal(set: bool, text: &str) -> (r: Option<String>)
    ensures
        match r {
            Some(v) => Some(v@),
            None => None,
        } == text_if(set, text@),
{
    if set {
        Some(String::from_str(text))
    } else {
        None
    }
}

fn copy_text(text: &Option<String>) -> (r: Option<String>)
    ensures
        match r {
            Some(v) => Some(v@),
            None => None,
        } == crate::intermediate_node::text_view(*text),
{
    match text {
        Some(t) => Some(t.clone()),
        None => None,
    }
}

fn edges_to_text(edges: &[Length; 4]) -> (r: String)
    ensures
        r@ == edges_text(crate::intermediate_node::edges_view(*edges)),
{
    let mut s = String::new();
    edges[0].write_to(&mut s);
    push_text(&mut s, " ");
    edges[1].write_to(&mut s);
    push_text(&mut s, " ");
    edges[2].write_to(&mut s);
    push_text(&mut s, " ");
    edges[3].write_to(&mut s);
    proof {
        assert(s@ =~= edges_text(crate::intermediate_node::edges_view(*edges)));
    }
    s
}

fn is_set(length: &Length) -> (r: bool)
    ensures
        r == (length@ != LengthView::Zero),
{
    match length {
        Length::Zero => false,
        _ => true,
    }
}

fn length_to_text(length: &Option<Length>) -> (r: Option<String>)
    ensures
        match r {
            Some(v) => Some(v@),
            None => None,
        } == optional_length_text(crate::intermediate_node::optional_length_view(*length)),
{
    match length {
        Some(l) => Some(l.to_css_string()),
        None => None,
    }
}

fn decimal_to_text(value: Option<Decimal>) -> (r: Option<String>)
    ensures
        match r {
            Some(v) => Some(v@),
            None => None,
        } == optional_decimal_text(value),
{
    match value {
        Some(v) => Some(v.to_text()),
        None => None,
    }
}

fn has_absolute_child(node: &IntermediateNode) -> (r: bool)
    ensures
        r == (static_count(node@.children()) < node@.children().len()),
{
    match &node.node_type {
        IntermediateNodeType::Frame { children } => {
            proof {
                lemma_frame_view(*node);
            }
            crate::mutator::count_static(children) < children.len()
        },
        _ => {
            proof {
                assert(static_count(node@.children()) == 0);
            }
            false
        },
    }
}

impl IntermediateNode {
    fn align_items_css(&self) -> (r: Option<String>)
        ensures
            text_view(r) == align_items_text(self@),
    {
        match &self.flex_container {
            Some(f) => match f.align_items {
                AlignItems::Stretch => None,
                AlignItems::FlexStart => Some(String::from_str("flex-start")),
                AlignItems::Center => Some(String::from_str("center")),
                AlignItems::FlexEnd => Some(String::from_str("flex-end")),
                AlignItems::Baseline => Some(String::from_str("baseline")),
            },
            None => None,
        }
    }

    fn align_self_css(&self) -> (r: Option<String>)
        ensures
            text_view(r) == text_if(self@.location.align_self.is_some(), "stretch"@),
    {
        literal(self.location.align_self.is_some(), "stretch")
    }

    fn background_css(&self) -> (r: Option<String>)
        ensures
            text_view(r) == self@.frame_appearance.background,
    {
        copy_text(&self.frame_appearance.background)
    }

    fn border_radius_css(&self) -> (r: Option<String>)
        ensures
            text_view(r) == border_radius_text(self@),
    {
        match &self.frame_appearance.border_radius {
            Some(r) => Some(edges_to_text(r)),
            None => None,
        }
    }

    fn box_shadow_css(&self) -> (r: Option<String>)
        ensures
            text_view(r) == self@.frame_appearance.box_shadow,
    {
        copy_text(&self.frame_appearance.box_shadow)
    }

    fn box_sizing_css(&self) -> (r: Option<String>)
        ensures
            text_view(r) == text_if(sized_by_border(self@), "border-box"@),
    {
        let padding = &self.location.padding;
        let by_border = ((is_set(&padding[0]) || is_set(&padding[2]))
            && self.location.height.is_some()) || ((is_set(&padding[1]) || is_set(&padding[3]))
            && self.location.width.is_some());
        literal(by_border, "border-box")
    }

    fn color_css(&self) -> (r: Option<String>)
        ensures
            text_view(r) == self@.appearance.color,
    {
        copy_text(&self.appearance.color)
    }

    fn display_css(&self) -> (r: Option<String>)
        ensures
            text_view(r) == text_if(self@.flex_container.is_some(), "flex"@),
    {
        literal(self.flex_container.is_some(), "flex")
    }

    fn fill_css(&self) -> (r: Option<String>)
        ensures
            text_view(r) == self@.appearance.fill,
    {
        copy_text(&self.appearance.fill)
    }

    fn flex_direction_css(&self) -> (r: Option<String>)
        ensures
            text_view(r) == flex_direction_text(self@),
    {
        match &self.flex_container {
            Some(f) => match f.direction {
                FlexDirection::Row => Some(String::from_str("row")),
                FlexDirection::Column => Some(String::from_str("column")),
            },
            None => None,
        }
    }

    fn flex_grow_css(&self) -> (r: Option<String>)
        ensures
            text_view(r) == optional_decimal_text(self@.location.flex_grow),
    {
        decimal_to_text(self.location.flex_grow)
    }

    fn font_css(&self) -> (r: Option<String>)
        ensures
            text_view(r) == self@.appearance.font,
    {
        copy_text(&self.appearance.font)
    }

    fn gap_css(&self) -> (r: Option<String>)
        ensures
            text_view(r) == gap_text(self@),
    {
        match &self.flex_container {
            Some(f) => if is_set(&f.gap) {
                Some(f.gap.to_css_string())
            } else {
                None
            },
            None => None,
        }
    }

    fn height_css(&self) -> (r: Option<String>)
        ensures
            text_view(r) == optional_length_text(self@.location.height),
    {
        length_to_text(&self.location.height)
    }

    fn inset_css(&self) -> (r: Option<String>)
        ensures
            text_view(r) == insets_text(self@),
    {
        match &self.location.inset {
            Some(i) => {
                let mut t = String::new();
                i[0].write_to(&mut t);
                push_text(&mut t, " ");
                i[1].write_to(&mut t);
                push_text(&mut t, " ");
                i[2].write_to(&mut t);
                push_text(&mut t, " ");
                i[3].write_to(&mut t);
                proof {
                    assert(t@ =~= insets_text(self@).unwrap());
                }
                Some(t)
            },
            None => None,
        }
    }

    fn justify_content_css(&self) -> (r: Option<String>)
        ensures
            text_view(r) == justify_content_text(self@),
    {
        match &self.flex_container {
            Some(f) => match f.justify_content {
                None => None,
                Some(JustifyContent::FlexStart) => Some(String::from_str("flex-start")),
                Some(JustifyContent::Center) => Some(String::from_str("center")),
                Some(JustifyContent::FlexEnd) => Some(String::from_str("flex-end")),
                Some(JustifyContent::SpaceBetween) => Some(String::from_str("space-between")),
            },
            None => None,
        }
    }

    fn opacity_css(&self) -> (r: Option<String>)
        ensures
            text_view(r) == optional_decimal_text(self@.appearance.opacity),
    {
        decimal_to_text(self.appearance.opacity)
    }

    fn outline_css(&self) -> (r: Option<String>)
        ensures
            text_view(r) == outline_text(self@),
    {
        match &self.frame_appearance.stroke {
            Some(stroke) => if stroke.weights[0].is_zero() {
                None
            } else {
                let mut t = stroke.weights[0].to_text();
                push_text(&mut t, "px ");
                match stroke.style {
                    StrokeStyle::Solid => push_text(&mut t, "solid"),
                    StrokeStyle::Dashed => push_text(&mut t, "dashed"),
                }
                push_text(&mut t, " ");
                push_text(&mut t, stroke.color.as_str());
                proof {
                    assert(t@ =~= outline_text(self@).unwrap());
                }
                Some(t)
            },
            None => None,
        }
    }

    fn outline_offset_css(&self) -> (r: Option<String>)
        ensures
            text_view(r) == outline_offset_text(self@),
    {
        match &self.frame_appearance.stroke {
            Some(stroke) => match stroke.offset {
                StrokeAlign::Inside => {
                    let mut t = String::from_str("-");
                    stroke.weights[0].write_to(&mut t);
                    push_text(&mut t, "px");
                    Some(t)
                },
                StrokeAlign::Outside => None,
                StrokeAlign::Center => {
                    let mut t = String::from_str("-");
                    stroke.weights[0].half().write_to(&mut t);
                    push_text(&mut t, "px");
                    Some(t)
                },
            },
            None => None,
        }
    }

    fn padding_css(&self) -> (r: Option<String>)
        ensures
            text_view(r) == padding_text(self@),
    {
        let padding = &self.location.padding;
        if is_set(&padding[0]) || is_set(&padding[1]) || is_set(&padding[2]) || is_set(
            &padding[3],
        ) {
            Some(edges_to_text(padding))
        } else {
            None
        }
    }

    fn position_css(&self) -> (r: Option<String>)
        ensures
            text_view(r) == position_text(self@),
    {
        if self.location.inset.is_some() {
            Some(String::from_str("absolute"))
        } else if has_absolute_child(self) {
            Some(String::from_str("relative"))
        } else {
            None
        }
    }

    fn text_decoration_css(&self) -> (r: Option<String>)
        ensures
            text_view(r) == text_decoration_text(self@),
    {
        match self.appearance.text_decoration_line {
            Some(TextDecoration::Strikethrough) => Some(String::from_str("line-through")),
            Some(TextDecoration::Underline) => Some(String::from_str("underline")),
            None => None,
        }
    }

    fn text_transform_css(&self) -> (r: Option<String>)
        ensures
            text_view(r) == text_transform_text(self@),
    {
        match self.appearance.text_tranform {
            Some(TextCase::Upper) => Some(String::from_str("uppercase")),
            Some(TextCase::Lower) => Some(String::from_str("lowercase")),
            Some(TextCase::Title) => Some(String::from_str("capitalize")),
            _ => None,
        }
    }

    fn white_space_css(&self) -> (r: Option<String>)
        ensures
            text_view(r) == text_if(self@.appearance.preserve_whitespace, "pre-wrap"@),
    {
        literal(self.appearance.preserve_whitespace, "pre-wrap")
    }

    fn width_css(&self) -> (r: Option<String>)
        ensures
            text_view(r) == optional_length_text(self@.location.width),
    {
        length_to_text(&self.location.width)
    }

    /// The declarations from `align-items` to `box-sizing`.
    fn css_from_align_items(&self) -> (r: String)
        ensures
            r@ == declarations(properties_from_align_items(self@)),
    {
        let mut s = String::new();
        let ghost mut done: Seq<Property> = Seq::empty();
        declare(&mut s, "align-items", self.align_items_css(), Ghost(done));
        proof {
            done = done.push(("align-items"@, align_items_text(self@)));
        }
        declare(&mut s, "align-self", self.align_self_css(), Ghost(done));
        proof {
            done = done.push(("align-self"@, text_if(self@.location.align_self.is_some(), "stretch"@)));
        }
        declare(&mut s, "background", self.background_css(), Ghost(done));
        proof {
            done = done.push(("background"@, self@.frame_appearance.background));
        }
        declare(&mut s, "border-radius", self.border_radius_css(), Ghost(done));
        proof {
            done = done.push(("border-radius"@, border_radius_text(self@)));
        }
        declare(&mut s, "box-shadow", self.box_shadow_css(), Ghost(done));
        proof {
            done = done.push(("box-shadow"@, self@.frame_appearance.box_shadow));
        }
        declare(&mut s, "box-sizing", self.box_sizing_css(), Ghost(done));
        proof {
            done = done.push(("box-sizing"@, text_if(sized_by_border(self@), "border-box"@)));
        }
        proof {
            assert(done =~= properties_from_align_items(self@));
        }
        s
    }

    /// The declarations from `color` to `font`.
    fn css_from_color(&self) -> (r: String)
        ensures
            r@ == declarations(properties_from_color(self@)),
    {
        let mut s = String::new();
        let ghost mut done: Seq<Property> = Seq::empty();
        declare(&mut s, "color", self.color_css(), Ghost(done));
        proof {
            done = done.push(("color"@, self@.appearance.color));
        }
        declare(&mut s, "display", self.display_css(), Ghost(done));
        proof {
            done = done.push(("display"@, text_if(self@.flex_container.is_some(), "flex"@)));
        }
        declare(&mut s, "fill", self.fill_css(), Ghost(done));
        proof {
            done = done.push(("fill"@, self@.appearance.fill));
        }
        declare(&mut s, "flex-direction", self.flex_direction_css(), Ghost(done));
        proof {
            done = done.push(("flex-direction"@, flex_direction_text(self@)));
        }
        declare(&mut s, "flex-grow", self.flex_grow_css(), Ghost(done));
        proof {
            done = done.push(("flex-grow"@, optional_decimal_text(self@.location.flex_grow)));
        }
        declare(&mut s, "font", self.font_css(), Ghost(done));
        proof {
            done = done.push(("font"@, self@.appearance.font));
        }
        proof {
            assert(done =~= properties_from_color(self@));
        }
        s
    }

    /// The declarations from `gap` to `outline-offset`.
    fn css_from_gap(&self) -> (r: String)
        ensures
            r@ == declarations(properties_from_gap(self@)),
    {
        let mut s = String::new();
        let ghost mut done: Seq<Property> = Seq::empty();
        declare(&mut s, "gap", self.gap_css(), Ghost(done));
        proof {
            done = done.push(("gap"@, gap_text(self@)));
        }
        declare(&mut s, "height", self.height_css(), Ghost(done));
        proof {
            done = done.push(("height"@, optional_length_text(self@.location.height)));
        }
        declare(&mut s, "inset", self.inset_css(), Ghost(done));
        proof {
            done = done.push(("inset"@, insets_text(self@)));
        }
        declare(&mut s, "justify-content", self.justify_content_css(), Ghost(done));
        proof {
            done = done.push(("justify-content"@, justify_content_text(self@)));
        }
        declare(&mut s, "opacity", self.opacity_css(), Ghost(done));
        proof {
            done = done.push(("opacity"@, optional_decimal_text(self@.appearance.opacity)));
        }
        declare(&mut s, "outline", self.outline_css(), Ghost(done));
        proof {
            done = done.push(("outline"@, outline_text(self@)));
        }
        declare(&mut s, "outline-offset", self.outline_offset_css(), Ghost(done));
        proof {
            done = done.push(("outline-offset"@, outline_offset_text(self@)));
        }
        proof {
            assert(done =~= properties_from_gap(self@));
        }
        s
    }

    /// The declarations from `padding` to `width`.
    fn css_from_padding(&self) -> (r: String)
        ensures
            r@ == declarations(properties_from_padding(self@)),
    {
        let mut s = String::new();
        let ghost mut done: Seq<Property> = Seq::empty();
        declare(&mut s, "padding", self.padding_css(), Ghost(done));
        proof {
            done = done.push(("padding"@, padding_text(self@)));
        }
        declare(&mut s, "position", self.position_css(), Ghost(done));
        proof {
            done = done.push(("position"@, position_text(self@)));
        }
        declare(&mut s, "text-decoration-line", self.text_decoration_css(), Ghost(done));
        proof {
            done = done.push(("text-decoration-line"@, text_decoration_text(self@)));
        }
        declare(&mut s, "text-transform", self.text_transform_css(), Ghost(done));
        proof {
            done = done.push(("text-transform"@, text_transform_text(self@)));
        }
        declare(&mut s, "white-space", self.white_space_css(), Ghost(done));
        proof {
            done = done.push(("white-space"@, text_if(self@.appearance.preserve_whitespace, "pre-wrap"@)));
        }
        declare(&mut s, "width", self.width_css(), Ghost(done));
        proof {
            done = done.push(("width"@, optional_length_text(self@.location.width)));
        }
        proof {
            assert(done =~= properties_from_padding(self@));
        }
        s
    }

    /// The CSS declarations of the node, before they are minified: each
    /// property that has a value, in the alphabetical order of the names.
    pub fn naive_css_string(&self) -> (r: String)
        ensures
            r@ == naive_css(self@),
    {
        let mut s = self.css_from_align_items();
        push_text(&mut s, self.css_from_color().as_str());
        push_text(&mut s, self.css_from_gap().as_str());
        push_text(&mut s, self.css_from_padding().as_str());
        s
    }
}

} // verus!
