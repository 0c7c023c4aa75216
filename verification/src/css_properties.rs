//! Values of CSS properties, read off a node of the design document.
use crate::decimal::{clamp_micros, decimal_text, Decimal};
use crate::intermediate_node::CSSVariable;
use crate::ordered_map::{
    put, stored, variable_entries, variables_insert, variables_name_of, VariableEntries,
    VariableView,
};
use crate::schema::{
    rgb_text, Color, Effect, EffectType, Node, NodeType, Paint, Rectangle, TextCase,
};
use crate::text::{join_texts, joined, push_text, texts_view};
use crate::CSSVariablesMap;
use vstd::prelude::*;
use vstd::string::StringExecFns;

verus! {

/// A side of a rectangle.
#[derive(Clone, Copy, Debug, PartialEq, Eq, Structural)]
pub enum Side {
    Left,
    Top,
    Right,
    Bottom,
}

/// The sum of two decimals, kept inside the representable range.
pub open spec fn decimal_sum(a: Decimal, b: Decimal) -> Decimal {
    Decimal { micros: clamp_micros(a.micros + b.micros) as i64 }
}

/// The difference of two decimals, kept inside the representable range.
pub open spec fn decimal_difference(a: Decimal, b: Decimal) -> Decimal {
    Decimal { micros: clamp_micros(a.micros - b.micros) as i64 }
}

/// Where `side` of `r` lies, as far as `r` says.
pub open spec fn side_of(r: Rectangle, side: Side) -> Option<Decimal> {
    match side {
        Side::Left => r.x,
        Side::Top => r.y,
        Side::Right => match (r.x, r.width) {
            (Some(x), Some(width)) => Some(decimal_sum(x, width)),
            _ => None,
        },
        Side::Bottom => match (r.y, r.height) {
            (Some(y), Some(height)) => Some(decimal_sum(y, height)),
            _ => None,
        },
    }
}

/// Where `side` of what is rendered of `child` lies. A hidden child renders
/// nothing.
pub open spec fn rendered_side(child: Node, side: Side) -> Option<Decimal> {
    if child.spec_visible() {
        match child.absolute_render_bounds {
            Some(r) => side_of(r, side),
            None => None,
        }
    } else {
        None
    }
}

/// The outermost of two places on `side`: the lesser for left and top, the
/// greater for right and bottom.
pub open spec fn outer(a: Decimal, b: Decimal, side: Side) -> Decimal {
    match side {
        Side::Left | Side::Top => if b.micros < a.micros {
            b
        } else {
            a
        },
        Side::Right | Side::Bottom => if b.micros > a.micros {
            b
        } else {
            a
        },
    }
}

/// The outermost place on `side` of what is rendered of `children`.
pub open spec fn outermost(children: Seq<Node>, side: Side) -> Option<Decimal>
    decreases children.len(),
{
    if children.len() == 0 {
        None
    } else {
        let before = outermost(children.drop_last(), side);
        match (before, rendered_side(children.last(), side)) {
            (Some(a), Some(b)) => Some(outer(a, b, side)),
            (Some(a), None) => Some(a),
            (None, b) => b,
        }
    }
}

/// The bounding box of a node: its own where it has one, else the box around
/// what is rendered of its visible children, where that has all four sides.
pub open spec fn spec_absolute_bounding_box(node: Node) -> Option<Rectangle> {
    match node.absolute_bounding_box {
        Some(r) => Some(r),
        None => {
            let children = node.spec_children();
            match (
                outermost(children, Side::Left),
                outermost(children, Side::Top),
                outermost(children, Side::Right),
                outermost(children, Side::Bottom),
            ) {
                (Some(left), Some(top), Some(right), Some(bottom)) => Some(
                    Rectangle {
                        x: Some(left),
                        y: Some(top),
                        width: Some(decimal_difference(right, left)),
                        height: Some(decimal_difference(bottom, top)),
                    },
                ),
                _ => None,
            }
        },
    }
}

fn side_of_exec(r: &Rectangle, side: Side) -> (out: Option<Decimal>)
    ensures
        out == side_of(*r, side),
{
    match side {
        Side::Left => r.x,
        Side::Top => r.y,
        Side::Right => match (r.x, r.width) {
            (Some(x), Some(width)) => Some(x.add(width)),
            _ => None,
        },
        Side::Bottom => match (r.y, r.height) {
            (Some(y), Some(height)) => Some(y.add(height)),
            _ => None,
        },
    }
}

fn outermost_exec(node: &Node, side: Side) -> (out: Option<Decimal>)
    ensures
        out == outermost(node.spec_children(), side),
{
    let mut best: Option<Decimal> = None;
    let n = node.child_count();
    let mut i: usize = 0;
    while i < n
        invariant
            i <= n,
            n == node.spec_children().len(),
            best == outermost(node.spec_children().take(i as int), side),
        decreases n - i,
    {
        let child = node.child(i);
        proof {
            let cs = node.spec_children();
            assert(cs.take(i + 1).drop_last() == cs.take(i as int));
            assert(cs.take(i + 1).last() == cs[i as int]);
        }
        let here: Option<Decimal> = if child.visible() {
            match &child.absolute_render_bounds {
                Some(r) => side_of_exec(r, side),
                None => None,
            }
        } else {
            None
        };
        best = match (best, here) {
            (Some(a), Some(b)) => {
                let take_b = match side {
                    Side::Left => b.micros < a.micros,
                    Side::Top => b.micros < a.micros,
                    Side::Right => b.micros > a.micros,
                    Side::Bottom => b.micros > a.micros,
                };
                if take_b {
                    Some(b)
                } else {
                    Some(a)
                }
            },
            (Some(a), None) => Some(a),
            (None, b) => b,
        };
        i += 1;
    }
    proof {
        assert(node.spec_children().take(i as int) == node.spec_children());
    }
    best
}

/// The bounding box of a node in the absolute coordinates of the document.
pub fn absolute_bounding_box(node: &Node) -> (r: Option<Rectangle>)
    ensures
        r == spec_absolute_bounding_box(*node),
{
    match node.absolute_bounding_box {
        Some(r) => Some(r),
        None => {
            let left = outermost_exec(node, Side::Left);
            let top = outermost_exec(node, Side::Top);
            let right = outermost_exec(node, Side::Right);
            let bottom = outermost_exec(node, Side::Bottom);
            match (left, top, right, bottom) {
                (Some(left), Some(top), Some(right), Some(bottom)) => Some(
                    Rectangle {
                        x: Some(left),
                        y: Some(top),
                        width: Some(right.sub(left)),
                        height: Some(bottom.sub(top)),
                    },
                ),
                _ => None,
            }
        },
    }
}

/// A value of a CSS property, with the registry of custom properties as it
/// is once the value is worked out.
pub ghost struct Resolved {
    pub text: Option<Seq<char>>,
    pub entries: VariableEntries,
}

/// The characters of an optional text.
pub open spec fn optional_text(text: Option<String>) -> Option<Seq<char>> {
    match text {
        Some(t) => Some(t@),
        None => None,
    }
}

/// The colour of a paint that counts: the paint is enabled and, where
/// `shown_only`, neither the paint nor its colour is fully transparent.
pub open spec fn paint_color(paint: Paint, shown_only: bool) -> Option<Color> {
    if paint.spec_visible() && (!shown_only || (paint.spec_opacity() != 0 && paint.color.is_some()
        && paint.color.unwrap().alpha.micros != 0)) {
        paint.color
    } else {
        None
    }
}

/// The colour of the first of `paints` that counts.
pub open spec fn first_color(paints: Seq<Paint>, shown_only: bool) -> Option<Color>
    decreases paints.len(),
{
    if paints.len() == 0 {
        None
    } else {
        match first_color(paints.drop_last(), shown_only) {
            Some(c) => Some(c),
            None => paint_color(paints.last(), shown_only),
        }
    }
}

/// The paints of an optional list.
pub open spec fn paints_of(paints: Option<Vec<Paint>>) -> Seq<Paint> {
    match paints {
        Some(p) => p@,
        None => Seq::empty(),
    }
}

/// The colour that some paints give, as it is written in CSS: that of the
/// first paint that shows; else that of the first enabled paint, made fully
/// transparent.
pub open spec fn painted_color(paints: Seq<Paint>) -> Option<Seq<char>> {
    match first_color(paints, true) {
        Some(c) => Some(rgb_text(c)),
        None => match first_color(paints, false) {
            Some(c) => Some(rgb_text(Color { alpha: Decimal { micros: 0 }, ..c })),
            None => None,
        },
    }
}

/// `value` as a node with the shared style `style` uses it. Where the
/// registry has a custom property for the style, the property gets the value
/// and the node refers to the property.
pub open spec fn referred(
    entries: VariableEntries,
    style: Option<Seq<char>>,
    value: Seq<char>,
) -> Resolved {
    match style {
        Some(id) => match stored(entries, id) {
            Some(variable) => Resolved {
                text: Some("var("@ + variable.name + ")"@),
                entries: put(entries, id, VariableView { name: variable.name, value: Some(value) }),
            },
            None => Resolved { text: Some(value), entries },
        },
        None => Resolved { text: Some(value), entries },
    }
}

/// The id of the shared fill style of a node.
pub open spec fn fill_style(node: Node) -> Option<Seq<char>> {
    match node.styles {
        Some(styles) => optional_text(styles.fill),
        None => None,
    }
}

/// The id of the shared text style of a node.
pub open spec fn text_style(node: Node) -> Option<Seq<char>> {
    match node.styles {
        Some(styles) => optional_text(styles.text),
        None => None,
    }
}

/// The colour of the fills of a node.
pub open spec fn spec_fills_color(node: Node, entries: VariableEntries) -> Resolved {
    match painted_color(paints_of(node.fills)) {
        Some(value) => referred(entries, fill_style(node), value),
        None => Resolved { text: None, entries },
    }
}

/// The colour of the strokes of a node: that of the first stroke that shows.
pub open spec fn spec_stroke_color(node: Node) -> Option<Seq<char>> {
    match first_color(paints_of(node.strokes), true) {
        Some(c) => Some(rgb_text(c)),
        None => None,
    }
}

/// Whether a node of this kind has a box with a background.
pub open spec fn has_box(node_type: NodeType) -> bool {
    node_type != NodeType::Text && node_type != NodeType::Vector && node_type
        != NodeType::BooleanOperation
}

/// The background of a node: the colour of its fills, else its background
/// colour, unless that is fully transparent.
pub open spec fn spec_background(node: Node, entries: VariableEntries) -> Resolved {
    if has_box(node.node_type) {
        let fills = spec_fills_color(node, entries);
        if fills.text.is_some() {
            fills
        } else {
            Resolved {
                text: match node.background_color {
                    Some(c) => if c.alpha.micros == 0 {
                        None
                    } else {
                        Some(rgb_text(c))
                    },
                    None => None,
                },
                entries,
            }
        }
    } else {
        Resolved { text: None, entries }
    }
}

/// An inner shadow as it is written in CSS, where the effect is one that is
/// active and has an offset and a colour that shows.
pub open spec fn shadow_text(effect: Effect) -> Option<Seq<char>> {
    if effect.effect_type == EffectType::InnerShadow && effect.visible && effect.offset.is_some()
        && effect.color.is_some() && effect.color.unwrap().alpha.micros != 0 {
        let spread = match effect.spread {
            Some(s) => s,
            None => Decimal { micros: 0 },
        };
        Some(
            "inset "@ + decimal_text(effect.offset.unwrap().x.micros as int) + "px "@
                + decimal_text(effect.offset.unwrap().y.micros as int) + "px "@ + decimal_text(
                spread.micros as int,
            ) + "px "@ + rgb_text(effect.color.unwrap()),
        )
    } else {
        None
    }
}

/// The inner shadows among some effects.
pub open spec fn shadow_texts(effects: Seq<Effect>) -> Seq<Seq<char>>
    decreases effects.len(),
{
    if effects.len() == 0 {
        Seq::empty()
    } else {
        match shadow_text(effects.last()) {
            Some(text) => shadow_texts(effects.drop_last()).push(text),
            None => shadow_texts(effects.drop_last()),
        }
    }
}

/// The box shadow of a node: its inner shadows with `, ` between them, where
/// it has any.
pub open spec fn spec_box_shadow(node: Node) -> Option<Seq<char>> {
    let effects = match node.effects {
        Some(e) => e@,
        None => Seq::empty(),
    };
    let shadows = joined(shadow_texts(effects), ", "@);
    if shadows.len() == 0 {
        None
    } else {
        Some(shadows)
    }
}

/// The font of a node as it is written in CSS: style, variant, weight, size
/// over line height, and family.
pub open spec fn font_text(style: crate::schema::TypeStyle) -> Seq<char> {
    let slant = if style.italic == Some(true) {
        "italic"@
    } else {
        Seq::<char>::empty()
    };
    let variant = if style.text_case == Some(TextCase::SmallCaps) || style.text_case == Some(
        TextCase::SmallCapsForced,
    ) {
        "small-caps"@
    } else {
        Seq::<char>::empty()
    };
    slant + " "@ + variant + " "@ + decimal_text(style.font_weight.micros as int) + " "@
        + decimal_text(style.font_size.micros as int) + "px/"@ + decimal_text(
        style.line_height_px.micros as int,
    ) + "px \""@ + style.font_family@ + "\""@
}

/// The font of a node.
pub open spec fn spec_font(node: Node, entries: VariableEntries) -> Resolved {
    match node.style {
        Some(style) => referred(entries, text_style(node), font_text(style)),
        None => Resolved { text: None, entries },
    }
}

/// The first colour that counts among the first `n` paints is the first
/// among all.
proof fn lemma_first_color_stays(paints: Seq<Paint>, shown_only: bool, n: int)
    requires
        0 <= n <= paints.len(),
        first_color(paints.take(n), shown_only).is_some(),
    ensures
        first_color(paints, shown_only) == first_color(paints.take(n), shown_only),
    decreases paints.len() - n,
{
    if n < paints.len() {
        assert(paints.take(n + 1).drop_last() == paints.take(n));
        lemma_first_color_stays(paints, shown_only, n + 1);
    } else {
        assert(paints.take(n) == paints);
    }
}

fn first_color_exec(list: &Option<Vec<Paint>>, shown_only: bool) -> (r: Option<Color>)
    ensures
        r == first_color(paints_of(*list), shown_only),
{
    let paints = match list {
        Some(p) => p,
        None => {
            return None;
        },
    };
    let mut i: usize = 0;
    while i < paints.len()
        invariant
            i <= paints.len(),
            paints@ == paints_of(*list),
            first_color(paints@.take(i as int), shown_only).is_none(),
        decreases paints.len() - i,
    {
        proof {
            assert(paints@.take(i + 1).drop_last() == paints@.take(i as int));
            assert(paints@.take(i + 1).last() == paints@[i as int]);
        }
        let paint = &paints[i];
        let counts = paint.visible() && (!shown_only || (!paint.opacity().is_zero() && match paint.color {
            Some(c) => !c.alpha.is_zero(),
            None => false,
        }));
        if counts && paint.color.is_some() {
            proof {
                assert(paint_color(paints@[i as int], shown_only) == paint.color);
                assert(first_color(paints@.take(i + 1), shown_only) == paint.color);
                lemma_first_color_stays(paints@, shown_only, i + 1);
            }
            return paint.color;
        }
        proof {
            assert(paint_color(paints@[i as int], shown_only).is_none());
        }
        i += 1;
    }
    proof {
        assert(paints@.take(i as int) == paints@);
    }
    None
}

fn painted_color_exec(paints: &Option<Vec<Paint>>) -> (r: Option<String>)
    ensures
        optional_text(r) == painted_color(paints_of(*paints)),
{
    match first_color_exec(paints, true) {
        Some(c) => Some(c.to_rgb_string()),
        None => match first_color_exec(paints, false) {
            Some(c) => Some(
                Color {
                    red: c.red,
                    green: c.green,
                    blue: c.blue,
                    alpha: Decimal::zero(),
                }.to_rgb_string(),
            ),
            None => None,
        },
    }
}

/// Registers `value` under the shared style `style`, where the registry has
/// a custom property for it, and gives what the node is to use: a reference
/// to the property, else the value itself.
fn refer(style: Option<&String>, value: String, css_variables: &mut CSSVariablesMap) -> (r: String)
    ensures
        (Resolved { text: Some(r@), entries: variable_entries(*final(css_variables)) }) == referred(
            variable_entries(*old(css_variables)),
            match style {
                Some(s) => Some(s@),
                None => None,
            },
            value@,
        ),
{
    match style {
        Some(id) => match variables_name_of(css_variables, id.as_str()) {
            Some(name) => {
                let mut reference = String::from_str("var(");
                push_text(&mut reference, name.as_str());
                push_text(&mut reference, ")");
                variables_insert(css_variables, id.clone(), CSSVariable { name, value: Some(value) });
                reference
            },
            None => value,
        },
        None => value,
    }
}

fn fill_style_exec(node: &Node) -> (r: Option<&String>)
    ensures
        match r {
            Some(s) => Some(s@),
            None => None,
        } == fill_style(*node),
{
    match &node.styles {
        Some(styles) => styles.fill.as_ref(),
        None => None,
    }
}

fn text_style_exec(node: &Node) -> (r: Option<&String>)
    ensures
        match r {
            Some(s) => Some(s@),
            None => None,
        } == text_style(*node),
{
    match &node.styles {
        Some(styles) => styles.text.as_ref(),
        None => None,
    }
}

/// The colour of the fills of `node`, as `node` is to use it. Where `node`
/// has a shared fill style that the registry knows, the custom property of
/// the style gets the colour and `node` refers to the property.
pub fn fills_color(node: &Node, css_variables: &mut CSSVariablesMap) -> (r: Option<String>)
    ensures
        (Resolved { text: optional_text(r), entries: variable_entries(*final(css_variables)) })
            == spec_fills_color(*node, variable_entries(*old(css_variables))),
{
    match painted_color_exec(&node.fills) {
        Some(value) => Some(refer(fill_style_exec(node), value, css_variables)),
        None => None,
    }
}

/// The colour of the strokes of `node`.
pub fn stroke_color(node: &Node) -> (r: Option<String>)
    ensures
        optional_text(r) == spec_stroke_color(*node),
{
    match first_color_exec(&node.strokes, true) {
        Some(c) => Some(c.to_rgb_string()),
        None => None,
    }
}

fn shadow_text_exec(effect: &Effect) -> (r: Option<String>)
    ensures
        optional_text(r) == shadow_text(*effect),
{
    let inner = match effect.effect_type {
        EffectType::InnerShadow => true,
        _ => false,
    };
    if !inner || !effect.visible {
        return None;
    }
    match (effect.offset, effect.color) {
        (Some(offset), Some(color)) => {
            if color.alpha.is_zero() {
                return None;
            }
            let mut s = String::from_str("inset ");
            offset.x.write_to(&mut s);
            push_text(&mut s, "px ");
            offset.y.write_to(&mut s);
            push_text(&mut s, "px ");
            effect.spread().write_to(&mut s);
            push_text(&mut s, "px ");
            let rgb = color.to_rgb_string();
            push_text(&mut s, rgb.as_str());
            proof {
                assert(s@ =~= shadow_text(*effect).unwrap());
            }
            Some(s)
        },
        _ => None,
    }
}

/// Values of CSS properties that a node of the design document gives.
pub trait CssProperties {
    /// The background, with the registry as it is afterwards.
    spec fn background_of(&self, entries: VariableEntries) -> Resolved;

    /// The box shadow.
    spec fn box_shadow_of(&self) -> Option<Seq<char>>;

    /// The font, with the registry as it is afterwards.
    spec fn font_of(&self, entries: VariableEntries) -> Resolved;

    fn background(&self, css_variables: &mut CSSVariablesMap) -> (r: Option<String>)
        ensures
            (Resolved { text: optional_text(r), entries: variable_entries(*final(css_variables)) })
                == self.background_of(variable_entries(*old(css_variables))),
    ;

    fn box_shadow(&self) -> (r: Option<String>)
        ensures
            optional_text(r) == self.box_shadow_of(),
    ;

    fn font(&self, css_variables: &mut CSSVariablesMap) -> (r: Option<String>)
        ensures
            (Resolved { text: optional_text(r), entries: variable_entries(*final(css_variables)) })
                == self.font_of(variable_entries(*old(css_variables))),
    ;
}

impl CssProperties for Node {
    open spec fn background_of(&self, entries: VariableEntries) -> Resolved {
        spec_background(*self, entries)
    }

    open spec fn box_shadow_of(&self) -> Option<Seq<char>> {
        spec_box_shadow(*self)
    }

    open spec fn font_of(&self, entries: VariableEntries) -> Resolved {
        spec_font(*self, entries)
    }

    fn background(&self, css_variables: &mut CSSVariablesMap) -> (r: Option<String>) {
        match self.node_type {
            NodeType::Text => None,
            NodeType::Vector => None,
            NodeType::BooleanOperation => None,
            _ => match fills_color(self, css_variables) {
                Some(color) => Some(color),
                None => match &self.background_color {
                    Some(c) => c.to_option_rgb_string(),
                    None => None,
                },
            },
        }
    }

    fn box_shadow(&self) -> (r: Option<String>) {
        let mut parts: Vec<String> = Vec::new();
        match &self.effects {
            Some(effects) => {
                let mut i: usize = 0;
                while i < effects.len()
                    invariant
                        i <= effects.len(),
                        texts_view(parts@) == shadow_texts(effects@.take(i as int)),
                    decreases effects.len() - i,
                {
                    proof {
                        assert(effects@.take(i + 1).drop_last() == effects@.take(i as int));
                        assert(effects@.take(i + 1).last() == effects@[i as int]);
                    }
                    let ghost before = texts_view(parts@);
                    match shadow_text_exec(&effects[i]) {
                        Some(text) => {
                            parts.push(text);
                            proof {
                                assert(texts_view(parts@) =~= before.push(text@));
                            }
                        },
                        None => {},
                    }
                    i += 1;
                }
                proof {
                    assert(effects@.take(i as int) == effects@);
                }
            },
            None => {
                proof {
                    assert(texts_view(parts@) =~= Seq::<Seq<char>>::empty());
                }
            },
        }
        let shadows = join_texts(&parts, ", ");
        if shadows.as_str().is_empty() {
            None
        } else {
            Some(shadows)
        }
    }

    fn font(&self, css_variables: &mut CSSVariablesMap) -> (r: Option<String>) {
        let style = match &self.style {
            Some(style) => style,
            None => {
                return None;
            },
        };
        let mut s = String::new();
        match style.italic {
            Some(true) => {
                push_text(&mut s, "italic");
            },
            _ => {},
        }
        push_text(&mut s, " ");
        match style.text_case {
            Some(TextCase::SmallCaps) => {
                push_text(&mut s, "small-caps");
            },
            Some(TextCase::SmallCapsForced) => {
                push_text(&mut s, "small-caps");
            },
            _ => {},
        }
        push_text(&mut s, " ");
        style.font_weight.write_to(&mut s);
        push_text(&mut s, " ");
        style.font_size.write_to(&mut s);
        push_text(&mut s, "px/");
        style.line_height_px.write_to(&mut s);
        push_text(&mut s, "px \"");
        push_text(&mut s, style.font_family.as_str());
        push_text(&mut s, "\"");
        proof {
            assert(s@ =~= font_text(*style));
        }
        Some(refer(text_style_exec(self), s, css_variables))
    }
}

} // verus!
