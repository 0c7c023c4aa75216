//! Making the intermediate tree from a node of the design document.
use crate::css_properties::{
    absolute_bounding_box, fills_color, optional_text, spec_absolute_bounding_box,
    spec_background, spec_box_shadow, spec_fills_color, spec_font, spec_stroke_color,
    stroke_color, CssProperties, Resolved,
};
use crate::decimal::Decimal;
use crate::intermediate_node::inset::{spec_insets, Inset};
use crate::intermediate_node::length::{Length, LengthUnit, LengthView};
use crate::intermediate_node::{
    forest_view, lemma_frame_view, AlignItems, AlignSelf, Appearance, AppearanceView, Figma,
    FigmaView, FlexContainer, FlexContainerView, FlexDirection, FrameAppearance,
    FrameAppearanceView, IntermediateNode, IntermediateNodeType, JustifyContent, Location,
    LocationView, NodeTypeView, NodeView, Stroke, StrokeStyle, StrokeView,
};
use crate::ordered_map::{variable_entries, VariableEntries};
use crate::schema::{
    AxisSizingMode, CounterAxisAlignItems, LayoutAlign, LayoutConstraintHorizontal,
    LayoutConstraintVertical, LayoutMode, Node, NodeType, PrimaryAxisAlignItems,
};
use crate::CSSVariablesMap;
use vstd::prelude::*;
use vstd::string::StringExecFns;

verus! {

/// A length of so many pixels; no length at all for none or zero.
pub open spec fn pixels_length(pixels: Option<Decimal>) -> LengthView {
    match pixels {
        None => LengthView::Zero,
        Some(p) => if p.micros == 0 {
            LengthView::Zero
        } else {
            LengthView::Value { unit: LengthUnit::Px, value: p }
        },
    }
}

/// The flex settings of a node: those of its auto-layout, where it has one.
pub open spec fn built_flex(node: Node) -> Option<FlexContainerView> {
    let align_items = match node.counter_axis_align_items {
        None => AlignItems::Stretch,
        Some(CounterAxisAlignItems::Min) => AlignItems::FlexStart,
        Some(CounterAxisAlignItems::Center) => AlignItems::Center,
        Some(CounterAxisAlignItems::Max) => AlignItems::FlexEnd,
        Some(CounterAxisAlignItems::Baseline) => AlignItems::Baseline,
    };
    let justify_content = match node.primary_axis_align_items {
        None => None,
        Some(PrimaryAxisAlignItems::Min) => Some(JustifyContent::FlexStart),
        Some(PrimaryAxisAlignItems::Center) => Some(JustifyContent::Center),
        Some(PrimaryAxisAlignItems::Max) => Some(JustifyContent::FlexEnd),
        Some(PrimaryAxisAlignItems::SpaceBetween) => Some(JustifyContent::SpaceBetween),
    };
    let gap = pixels_length(node.item_spacing);
    match node.layout_mode {
        Some(LayoutMode::Horizontal) => Some(
            FlexContainerView { align_items, direction: FlexDirection::Row, gap, justify_content },
        ),
        Some(LayoutMode::Vertical) => Some(
            FlexContainerView {
                align_items,
                direction: FlexDirection::Column,
                gap,
                justify_content,
            },
        ),
        _ => None,
    }
}

/// The layout mode of the parent, where there is a parent that has one.
pub open spec fn parent_mode(parent: Option<Node>) -> Option<LayoutMode> {
    match parent {
        Some(p) => p.layout_mode,
        None => None,
    }
}

/// Whether the parent lays out its children in a row or a column.
pub open spec fn parent_is_auto_layout(parent: Option<Node>) -> bool {
    parent_mode(parent) == Some(LayoutMode::Horizontal) || parent_mode(parent) == Some(
        LayoutMode::Vertical,
    )
}

/// Whether a node grows fully along the main axis of its parent.
pub open spec fn grows_to_fill(node: Node) -> bool {
    node.layout_grow == Some(Decimal { micros: 1_000_000 })
}

/// Whether the height of a node follows from something else than its box: it
/// is a text; its own auto-layout does not fix its height; it is tied to top
/// and bottom of its parent; or its parent stretches it or lets it grow
/// along the vertical axis.
pub open spec fn height_is_implied(node: Node, parent: Option<Node>) -> bool {
    ||| parent_mode(parent) == Some(LayoutMode::Horizontal) && node.layout_align == Some(
        LayoutAlign::Stretch,
    )
    ||| node.characters.is_some()
    ||| node.constraints.is_some() && node.constraints.unwrap().vertical
        == LayoutConstraintVertical::TopBottom
    ||| parent_mode(parent) == Some(LayoutMode::Vertical) && grows_to_fill(node)
    ||| node.layout_mode == Some(LayoutMode::Vertical) && node.primary_axis_sizing_mode != Some(
        AxisSizingMode::Fixed,
    )
    ||| node.layout_mode == Some(LayoutMode::Horizontal) && node.counter_axis_sizing_mode != Some(
        AxisSizingMode::Fixed,
    )
}

/// Whether the width of a node follows from something else than its box.
pub open spec fn width_is_implied(node: Node, parent: Option<Node>) -> bool {
    ||| parent_mode(parent) == Some(LayoutMode::Vertical) && node.layout_align == Some(
        LayoutAlign::Stretch,
    )
    ||| node.characters.is_some()
    ||| node.constraints.is_some() && node.constraints.unwrap().horizontal
        == LayoutConstraintHorizontal::LeftRight
    ||| parent_mode(parent) == Some(LayoutMode::Horizontal) && grows_to_fill(node)
    ||| node.layout_mode == Some(LayoutMode::Horizontal) && node.primary_axis_sizing_mode != Some(
        AxisSizingMode::Fixed,
    )
    ||| node.layout_mode == Some(LayoutMode::Vertical) && node.counter_axis_sizing_mode != Some(
        AxisSizingMode::Fixed,
    )
}

/// A measure of the box of a node as a length.
pub open spec fn box_length(measure: Option<Decimal>) -> Option<LengthView> {
    match measure {
        Some(m) => Some(pixels_length(Some(m))),
        None => None,
    }
}

/// Where a node lies and how large it is.
pub open spec fn built_location(node: Node, parent: Option<Node>) -> LocationView {
    let bounds = spec_absolute_bounding_box(node);
    LocationView {
        padding: seq![
            pixels_length(node.padding_top),
            pixels_length(node.padding_right),
            pixels_length(node.padding_bottom),
            pixels_length(node.padding_left),
        ],
        align_self: if parent_is_auto_layout(parent) && node.layout_align == Some(
            LayoutAlign::Stretch,
        ) {
            Some(AlignSelf::Stretch)
        } else {
            None
        },
        flex_grow: if parent_is_auto_layout(parent) && node.layout_grow.is_some()
            && node.layout_grow.unwrap().micros != 0 {
            node.layout_grow
        } else {
            None
        },
        inset: spec_insets(node, parent),
        height: if height_is_implied(node, parent) {
            None
        } else {
            match bounds {
                Some(b) => box_length(b.height),
                None => None,
            }
        },
        width: if width_is_implied(node, parent) {
            None
        } else {
            match bounds {
                Some(b) => box_length(b.width),
                None => None,
            }
        },
    }
}

/// Whether a character is white space in ASCII.
pub open spec fn is_white(c: char) -> bool {
    c == ' ' || c == '\t' || c == '\n' || c == '\x0C' || c == '\r'
}

/// Whether white space stands at `i` in `text` and either begins the text or
/// follows white space.
pub open spec fn runs_on(text: Seq<char>, i: int) -> bool {
    0 <= i < text.len() && is_white(text[i]) && (i == 0 || is_white(text[i - 1]))
}

/// Whether a line break stands at `i` in `text`.
pub open spec fn breaks_at(text: Seq<char>, i: int) -> bool {
    0 <= i < text.len() && text[i] == '\n'
}

/// Whether the white space of a text has to be kept as it is: the text has a
/// line break, begins or ends with white space or is empty, or has white
/// space that follows white space.
pub open spec fn spec_preserves_whitespace(text: Seq<char>) -> bool {
    ||| exists|i: int| breaks_at(text, i)
    ||| text.len() == 0
    ||| is_white(text.last())
    ||| exists|i: int| runs_on(text, i)
}

/// The stroke of a node: the colour of its strokes with its weights, one for
/// each side or one for all, where it has colour, weight and alignment.
pub open spec fn built_stroke(node: Node) -> Option<StrokeView> {
    let style = if node.stroke_dashes.is_some() && node.stroke_dashes.unwrap()@.len() > 0 {
        StrokeStyle::Dashed
    } else {
        StrokeStyle::Solid
    };
    match (spec_stroke_color(node), node.stroke_align) {
        (Some(color), Some(offset)) => match node.individual_stroke_weights {
            Some(w) => Some(
                StrokeView { weights: seq![w.top, w.right, w.bottom, w.left], style, offset, color },
            ),
            None => match node.stroke_weight {
                Some(w) => Some(StrokeView { weights: seq![w, w, w, w], style, offset, color }),
                None => None,
            },
        },
        _ => None,
    }
}

/// What a node links to: the URL of its hyperlink, or `#` where the
/// hyperlink leads to another node.
pub open spec fn built_href(node: Node) -> Option<Seq<char>> {
    match node.style {
        Some(style) => match style.hyperlink {
            Some(link) => match link.url {
                Some(url) => Some(url@),
                None => match link.node_id {
                    Some(_) => Some("#"@),
                    None => None,
                },
            },
            None => None,
        },
        None => None,
    }
}

/// The border radius of a node: that of each corner, else the one of all.
pub open spec fn built_radius(node: Node) -> Option<Seq<LengthView>> {
    match node.rectangle_corner_radii {
        Some(r) => Some(
            seq![
                pixels_length(Some(r[0])),
                pixels_length(Some(r[1])),
                pixels_length(Some(r[2])),
                pixels_length(Some(r[3])),
            ],
        ),
        None => match node.corner_radius {
            Some(r) => Some(
                seq![
                    pixels_length(Some(r)),
                    pixels_length(Some(r)),
                    pixels_length(Some(r)),
                    pixels_length(Some(r)),
                ],
            ),
            None => None,
        },
    }
}

/// An intermediate tree, with the registry of custom properties as it is
/// once the tree is made.
pub ghost struct Built {
    pub view: NodeView,
    pub entries: VariableEntries,
}

/// Some intermediate trees, with the registry as it is once they are made.
pub ghost struct BuiltForest {
    pub views: Seq<NodeView>,
    pub entries: VariableEntries,
}

/// Whether a node is drawn as a vector graphic.
pub open spec fn is_vector(node_type: NodeType) -> bool {
    node_type == NodeType::Vector || node_type == NodeType::BooleanOperation
}

/// The intermediate tree of `node`, a child of `parent`, made with the
/// registry `entries`. The colour, the font and the background of the node
/// go through the registry in this order, and then its visible children in
/// theirs.
pub open spec fn built(node: Node, parent: Option<Node>, entries: VariableEntries) -> Built
    decreases node, 1int,
{
    let colored = if node.node_type == NodeType::Text || is_vector(node.node_type) {
        spec_fills_color(node, entries)
    } else {
        Resolved { text: None, entries }
    };
    let font = spec_font(node, colored.entries);
    let background = spec_background(node, font.entries);
    let children = if is_vector(node.node_type) || node.node_type == NodeType::Text {
        BuiltForest { views: Seq::empty(), entries: background.entries }
    } else {
        match node.children {
            Some(children) => built_children(children@, node, background.entries),
            None => BuiltForest { views: Seq::empty(), entries: background.entries },
        }
    };
    Built {
        view: NodeView {
            figma: Some(FigmaView { name: node.name@, id: node.id@, node_type: node.node_type }),
            flex_container: built_flex(node),
            location: built_location(node, parent),
            appearance: AppearanceView {
                color: if node.node_type == NodeType::Text {
                    colored.text
                } else {
                    None
                },
                fill: if is_vector(node.node_type) {
                    colored.text
                } else {
                    None
                },
                font: font.text,
                opacity: node.opacity,
                preserve_whitespace: match node.characters {
                    Some(text) => spec_preserves_whitespace(text@),
                    None => false,
                },
                text_tranform: match node.style {
                    Some(s) => s.text_case,
                    None => None,
                },
                text_decoration_line: match node.style {
                    Some(s) => s.text_decoration,
                    None => None,
                },
            },
            frame_appearance: FrameAppearanceView {
                background: background.text,
                border_radius: built_radius(node),
                box_shadow: spec_box_shadow(node),
                stroke: built_stroke(node),
            },
            node_type: if is_vector(node.node_type) {
                NodeTypeView::Vector
            } else if node.node_type == NodeType::Text {
                NodeTypeView::Text {
                    text: match node.characters {
                        Some(text) => text@,
                        None => Seq::empty(),
                    },
                }
            } else {
                NodeTypeView::Frame { children: children.views }
            },
            href: built_href(node),
        },
        entries: children.entries,
    }
}

/// The intermediate trees of the visible ones among `children` of `parent`,
/// made one after the other.
pub open spec fn built_children(children: Seq<Node>, parent: Node, entries: VariableEntries) -> BuiltForest
    decreases children, 0int,
{
    if children.len() == 0 {
        BuiltForest { views: Seq::empty(), entries }
    } else {
        let before = built_children(children.drop_last(), parent, entries);
        if children.last().spec_visible() {
            let last = built(children.last(), Some(parent), before.entries);
            BuiltForest { views: before.views.push(last.view), entries: last.entries }
        } else {
            before
        }
    }
}

fn is_white_exec(c: char) -> (r: bool)
    ensures
        r == is_white(c),
{
    c == ' ' || c == '\t' || c == '\n' || c == '\x0C' || c == '\r'
}

/// Whether the white space of `text` has to be kept as it is.
#[verifier::loop_isolation(false)]
pub fn preserves_whitespace(text: &str) -> (r: bool)
    ensures
        r == spec_preserves_whitespace(text@),
{
    let mut newline = false;
    let mut runs = false;
    let mut last = true;
    for c in it: text.chars()
        invariant
            it.seq() == text@,
            newline == (exists|i: int| i < it.index() && breaks_at(text@, i)),
            runs == (exists|i: int| i < it.index() && runs_on(text@, i)),
            last == (it.index() == 0 || is_white(text@[it.index() - 1])),
    {
        let ghost k = it.index();
        let white = is_white_exec(c);
        proof {
            assert(c == text@[k]);
        }
        if white && last {
            assert(runs_on(text@, k));
            runs = true;
        }
        if c == '\n' {
            assert(breaks_at(text@, k));
            newline = true;
        }
        last = white;
    }
    newline || runs || last
}

fn pixels(value: Option<Decimal>) -> (r: Length)
    ensures
        r@ == pixels_length(value),
{
    Length::new_from_option_pixels(value)
}

fn build_flex(node: &Node) -> (r: Option<FlexContainer>)
    ensures
        match r {
            Some(f) => Some(f@),
            None => None,
        } == built_flex(*node),
{
    let align_items = match node.counter_axis_align_items {
        None => AlignItems::Stretch,
        Some(CounterAxisAlignItems::Min) => AlignItems::FlexStart,
        Some(CounterAxisAlignItems::Center) => AlignItems::Center,
        Some(CounterAxisAlignItems::Max) => AlignItems::FlexEnd,
        Some(CounterAxisAlignItems::Baseline) => AlignItems::Baseline,
    };
    let justify_content = match node.primary_axis_align_items {
        None => None,
        Some(PrimaryAxisAlignItems::Min) => Some(JustifyContent::FlexStart),
        Some(PrimaryAxisAlignItems::Center) => Some(JustifyContent::Center),
        Some(PrimaryAxisAlignItems::Max) => Some(JustifyContent::FlexEnd),
        Some(PrimaryAxisAlignItems::SpaceBetween) => Some(JustifyContent::SpaceBetween),
    };
    match node.layout_mode {
        Some(LayoutMode::Horizontal) => Some(
            FlexContainer {
                align_items,
                direction: FlexDirection::Row,
                gap: pixels(node.item_spacing),
                justify_content,
            },
        ),
        Some(LayoutMode::Vertical) => Some(
            FlexContainer {
                align_items,
                direction: FlexDirection::Column,
                gap: pixels(node.item_spacing),
                justify_content,
            },
        ),
        _ => None,
    }
}

/// The parent as a value.
pub open spec fn parent_of(parent: Option<&Node>) -> Option<Node> {
    match parent {
        Some(p) => Some(*p),
        None => None,
    }
}

fn build_location(node: &Node, parent: Option<&Node>) -> (r: Location)
    ensures
        r@ == built_location(*node, parent_of(parent)),
{
    let mode = match parent {
        Some(p) => p.layout_mode,
        None => None,
    };
    let (parent_row, parent_column) = match mode {
        Some(LayoutMode::Horizontal) => (true, false),
        Some(LayoutMode::Vertical) => (false, true),
        _ => (false, false),
    };
    let stretch = match node.layout_align {
        Some(LayoutAlign::Stretch) => true,
        _ => false,
    };
    let grows_to_fill = match node.layout_grow {
        Some(g) => g.is_one(),
        None => false,
    };
    let (own_row, own_column) = match node.layout_mode {
        Some(LayoutMode::Horizontal) => (true, false),
        Some(LayoutMode::Vertical) => (false, true),
        _ => (false, false),
    };
    let primary_fixed = match node.primary_axis_sizing_mode {
        Some(AxisSizingMode::Fixed) => true,
        _ => false,
    };
    let counter_fixed = match node.counter_axis_sizing_mode {
        Some(AxisSizingMode::Fixed) => true,
        _ => false,
    };
    let (tied_vertically, tied_horizontally) = match node.constraints {
        Some(c) => (
            match c.vertical {
                LayoutConstraintVertical::TopBottom => true,
                _ => false,
            },
            match c.horizontal {
                LayoutConstraintHorizontal::LeftRight => true,
                _ => false,
            },
        ),
        None => (false, false),
    };
    let is_text = node.characters.is_some();
    let height_implied = (parent_row && stretch) || is_text || tied_vertically || (parent_column
        && grows_to_fill) || (own_column && !primary_fixed) || (own_row && !counter_fixed);
    let width_implied = (parent_column && stretch) || is_text || tied_horizontally || (parent_row
        && grows_to_fill) || (own_row && !primary_fixed) || (own_column && !counter_fixed);
    let bounds = absolute_bounding_box(node);
    let height = if height_implied {
        None
    } else {
        match bounds {
            Some(b) => match b.height {
                Some(h) => Some(pixels(Some(h))),
                None => None,
            },
            None => None,
        }
    };
    let width = if width_implied {
        None
    } else {
        match bounds {
            Some(b) => match b.width {
                Some(w) => Some(pixels(Some(w))),
                None => None,
            },
            None => None,
        }
    };
    let location = Location {
        padding: [
            pixels(node.padding_top),
            pixels(node.padding_right),
            pixels(node.padding_bottom),
            pixels(node.padding_left),
        ],
        align_self: if (parent_row || parent_column) && stretch {
            Some(AlignSelf::Stretch)
        } else {
            None
        },
        flex_grow: match node.layout_grow {
            Some(g) => if (parent_row || parent_column) && !g.is_zero() {
                Some(g)
            } else {
                None
            },
            None => None,
        },
        inset: Inset::from_figma_node(node, parent),
        height,
        width,
    };
    proof {
        assert(location@.padding =~= built_location(*node, parent_of(parent)).padding);
    }
    location
}

fn build_stroke(node: &Node) -> (r: Option<Stroke>)
    ensures
        match r {
            Some(s) => Some(s@),
            None => None,
        } == built_stroke(*node),
{
    let style = match &node.stroke_dashes {
        Some(dashes) => if dashes.len() > 0 {
            StrokeStyle::Dashed
        } else {
            StrokeStyle::Solid
        },
        None => StrokeStyle::Solid,
    };
    match (stroke_color(node), node.stroke_align) {
        (Some(color), Some(offset)) => match node.individual_stroke_weights {
            Some(w) => {
                let stroke = Stroke {
                    weights: [w.top, w.right, w.bottom, w.left],
                    style,
                    offset,
                    color,
                };
                proof {
                    assert(stroke@.weights =~= seq![w.top, w.right, w.bottom, w.left]);
                }
                Some(stroke)
            },
            None => match node.stroke_weight {
                Some(w) => {
                    let stroke = Stroke { weights: [w, w, w, w], style, offset, color };
                    proof {
                        assert(stroke@.weights =~= seq![w, w, w, w]);
                    }
                    Some(stroke)
                },
                None => None,
            },
        },
        _ => None,
    }
}

fn build_href(node: &Node) -> (r: Option<String>)
    ensures
        optional_text(r) == built_href(*node),
{
    match &node.style {
        Some(style) => match &style.hyperlink {
            Some(link) => match &link.url {
                Some(url) => Some(url.clone()),
                None => match &link.node_id {
                    Some(_) => Some(String::from_str("#")),
                    None => None,
                },
            },
            None => None,
        },
        None => None,
    }
}

fn build_radius(node: &Node) -> (r: Option<[Length; 4]>)
    ensures
        crate::intermediate_node::optional_edges_view(r) == built_radius(*node),
{
    match node.rectangle_corner_radii() {
        Some(r) => {
            let radii = [pixels(Some(r[0])), pixels(Some(r[1])), pixels(Some(r[2])), pixels(Some(r[3]))];
            proof {
                assert(crate::intermediate_node::edges_view(radii) =~= built_radius(*node).unwrap());
            }
            Some(radii)
        },
        None => None,
    }
}

impl IntermediateNode {
    /// The intermediate tree of `node`, a child of `parent`. A shared style
    /// that `node` or a node below it uses gets its value in the registry.
    pub fn from_figma_node(
        node: &Node,
        parent: Option<&Node>,
        css_variables: &mut CSSVariablesMap,
    ) -> (r: IntermediateNode)
        ensures
            r@ == built(*node, parent_of(parent), variable_entries(*old(css_variables))).view,
            variable_entries(*final(css_variables)) == built(
                *node,
                parent_of(parent),
                variable_entries(*old(css_variables)),
            ).entries,
        decreases node,
    {
        let is_text = match node.node_type {
            NodeType::Text => true,
            _ => false,
        };
        let is_vector = match node.node_type {
            NodeType::Vector => true,
            NodeType::BooleanOperation => true,
            _ => false,
        };
        let colored = if is_text || is_vector {
            fills_color(node, css_variables)
        } else {
            None
        };
        let (color, fill) = if is_text {
            (colored, None)
        } else {
            (None, colored)
        };
        let font = node.font(css_variables);
        let background = node.background(css_variables);
        let ghost start = variable_entries(*css_variables);
        let node_type = if is_vector {
            IntermediateNodeType::Vector
        } else if is_text {
            IntermediateNodeType::Text {
                text: match &node.characters {
                    Some(text) => text.clone(),
                    None => String::new(),
                },
            }
        } else {
            let mut children: Vec<IntermediateNode> = Vec::new();
            match &node.children {
                Some(sources) => {
                    let mut i: usize = 0;
                    while i < sources.len()
                        invariant
                            i <= sources.len(),
                            node.children == Some(*sources),
                            forall|j: int|
                                0 <= j < sources.len() ==> decreases_to!(node => sources[j]),
                            forest_view(children@) == built_children(
                                sources@.take(i as int),
                                *node,
                                start,
                            ).views,
                            variable_entries(*css_variables) == built_children(
                                sources@.take(i as int),
                                *node,
                                start,
                            ).entries,
                        decreases sources.len() - i,
                    {
                        proof {
                            assert(sources@.take(i + 1).drop_last() == sources@.take(i as int));
                            assert(sources@.take(i + 1).last() == sources@[i as int]);
                        }
                        if sources[i].visible() {
                            let ghost before = forest_view(children@);
                            let child = IntermediateNode::from_figma_node(
                                &sources[i],
                                Some(node),
                                css_variables,
                            );
                            children.push(child);
                            proof {
                                assert(forest_view(children@) =~= before.push(child@));
                            }
                        }
                        i += 1;
                    }
                    proof {
                        assert(sources@.take(i as int) == sources@);
                    }
                },
                None => {
                    proof {
                        assert(forest_view(children@) =~= Seq::<NodeView>::empty());
                    }
                },
            }
            IntermediateNodeType::Frame { children }
        };
        let r = IntermediateNode {
            figma: Some(
                Figma { name: node.name.clone(), id: node.id.clone(), node_type: node.node_type },
            ),
            flex_container: build_flex(node),
            location: build_location(node, parent),
            appearance: Appearance {
                color,
                fill,
                font,
                opacity: node.opacity,
                preserve_whitespace: match &node.characters {
                    Some(text) => preserves_whitespace(text.as_str()),
                    None => false,
                },
                text_tranform: match &node.style {
                    Some(s) => s.text_case,
                    None => None,
                },
                text_decoration_line: match &node.style {
                    Some(s) => s.text_decoration,
                    None => None,
                },
            },
            frame_appearance: FrameAppearance {
                background,
                border_radius: build_radius(node),
                box_shadow: node.box_shadow(),
                stroke: build_stroke(node),
            },
            node_type,
            href: build_href(node),
        };
        proof {
            if r.node_type is Frame {
                lemma_frame_view(r);
            }
        }
        r
    }
}

} // verus!
