use figma_html::css_properties::{absolute_bounding_box, fills_color, stroke_color, CssProperties};
use figma_html::decimal::Decimal;
use figma_html::intermediate_node::{
    format_css, AlignItems, CSSVariable, CssFormatError, FlexDirection, HtmlFormatter, Inset,
    IntermediateNode, IntermediateNodeType, JustifyContent, Length, LengthUnit,
};
use figma_html::schema::{
    Color, Effect, EffectType, File, Hyperlink, LayoutAlign, LayoutConstraint,
    LayoutConstraintHorizontal, LayoutConstraintVertical, LayoutMode, LayoutPositioning, Node,
    NodeType, Paint, PaintType, PrimaryAxisAlignItems, Rectangle, StrokeAlign, Style, StyleType,
    Styles, TextCase, TypeStyle, Vector,
};
use figma_html::{
    build_ir, figma_node_to_intermediate_node, file_collect_css_variables,
    find_figma_node_by_id, intermediate_node_to_html_writer, render, CSSVariablesMap,
};

fn dec(whole: i32) -> Decimal {
    Decimal::from_int(whole)
}

fn px(whole: i32) -> Length {
    Length::Value { unit: LengthUnit::Px, value: dec(whole) }
}

fn rect(x: i32, y: i32, width: i32, height: i32) -> Rectangle {
    Rectangle { x: Some(dec(x)), y: Some(dec(y)), width: Some(dec(width)), height: Some(dec(height)) }
}

fn node(id: &str, node_type: NodeType) -> Node {
    Node { id: id.to_string(), name: format!("node {id}"), node_type, ..Node::default() }
}

fn solid(red: i64, green: i64, blue: i64, alpha: i64) -> Paint {
    Paint {
        paint_type: PaintType::Solid,
        visible: None,
        opacity: None,
        color: Some(Color {
            red: Decimal::from_micros(red),
            green: Decimal::from_micros(green),
            blue: Decimal::from_micros(blue),
            alpha: Decimal::from_micros(alpha),
        }),
        blend_mode: None,
        gradient_handle_positions: None,
    }
}

fn text_node(id: &str, characters: &str) -> Node {
    let mut text = node(id, NodeType::Text);
    text.characters = Some(characters.to_string());
    text
}

fn type_style() -> TypeStyle {
    TypeStyle {
        font_family: "Inter".to_string(),
        paragraph_spacing: None,
        italic: None,
        font_weight: dec(400),
        font_size: dec(16),
        text_case: None,
        text_decoration: None,
        text_auto_resize: None,
        hyperlink: None,
        line_height_px: Decimal::from_micros(18_500_000),
    }
}

fn file(document: Node, styles: Vec<(String, Style)>) -> File {
    File {
        document,
        components: indexmap::IndexMap::new(),
        styles: styles.into_iter().collect(),
        name: "file".to_string(),
        schema_version: 0,
        version: "1".to_string(),
    }
}

fn style(name: &str) -> Style {
    Style {
        key: "key".to_string(),
        name: name.to_string(),
        description: String::new(),
        remote: false,
        style_type: StyleType::Fill,
    }
}

#[test]
fn node_is_found_below_the_root_in_document_order() {
    let mut first = node("1:1", NodeType::Frame);
    first.children = Some(vec![node("1:2", NodeType::Frame), node("1:3", NodeType::Text)]);
    let mut twin = node("1:3", NodeType::Frame);
    twin.name = "twin".to_string();
    let mut root = node("0:0", NodeType::Document);
    root.children = Some(vec![first, twin]);
    let file = file(root, vec![]);
    assert_eq!(find_figma_node_by_id(&file, "1:2").map(|n| n.name.as_str()), Some("node 1:2"));
    assert_eq!(find_figma_node_by_id(&file, "1:3").map(|n| n.node_type), Some(NodeType::Text));
    assert!(find_figma_node_by_id(&file, "0:0").is_none());
    assert!(find_figma_node_by_id(&file, "9:9").is_none());
}

#[test]
fn component_of_a_node_is_found_by_its_id() {
    let mut published = file(node("0:0", NodeType::Document), vec![]);
    published.components.insert(
        "1:1".to_string(),
        figma_html::schema::Component {
            key: "k".to_string(),
            name: "Button".to_string(),
            description: String::new(),
        },
    );
    assert_eq!(
        node("1:1", NodeType::Component).component(&published).map(|c| c.name.as_str()),
        Some("Button")
    );
    assert!(node("1:2", NodeType::Component).component(&published).is_none());
}

#[test]
fn node_hands_out_its_lists() {
    let mut parent = node("1:0", NodeType::Frame);
    assert!(parent.children().is_empty());
    assert!(parent.fills().is_empty());
    assert!(parent.strokes().is_empty());
    parent.children = Some(vec![node("1:1", NodeType::Frame)]);
    parent.fills = Some(vec![solid(0, 0, 0, 0), solid(0, 0, 0, 1)]);
    parent.strokes = Some(vec![solid(0, 0, 0, 0)]);
    assert_eq!(parent.children().len(), 1);
    assert_eq!(parent.children()[0].id, "1:1");
    assert_eq!(parent.fills().len(), 2);
    assert_eq!(parent.strokes().len(), 1);
}

#[test]
fn custom_properties_are_named_after_styles() {
    let file = file(
        node("0:0", NodeType::Document),
        vec![
            ("S:1".to_string(), style("Brand/Primary 500")),
            ("S:2".to_string(), style("Überschrift")),
        ],
    );
    let variables = file_collect_css_variables(&file);
    assert_eq!(variables.len(), 2);
    assert_eq!(
        variables.get("S:1"),
        Some(&CSSVariable { name: "--Brand-Primary-500".to_string(), value: None })
    );
    assert_eq!(variables.get_index(1).unwrap().1.name, "--Überschrift");
}

#[test]
fn colour_is_written_as_levels_out_of_255() {
    let color = Color {
        red: Decimal::one(),
        green: Decimal::from_micros(500_000),
        blue: Decimal::zero(),
        alpha: Decimal::from_micros(250_000),
    };
    assert_eq!(color.to_rgb_string(), "rgb(255, 127, 0, 0.25)");
    let clear = Color { alpha: Decimal::zero(), ..color };
    assert_eq!(clear.to_option_rgb_string(), None);
    assert_eq!(color.to_option_rgb_string().as_deref(), Some("rgb(255, 127, 0, 0.25)"));
}

#[test]
fn fills_colour_skips_hidden_and_clear_paints() {
    let mut hidden = solid(1_000_000, 0, 0, 1_000_000);
    hidden.visible = Some(false);
    let mut faded = solid(0, 1_000_000, 0, 1_000_000);
    faded.opacity = Some(Decimal::zero());
    let shown = solid(0, 0, 1_000_000, 1_000_000);
    let mut painted = node("1:1", NodeType::Frame);
    painted.fills = Some(vec![hidden, faded, shown]);
    let mut variables = CSSVariablesMap::new();
    assert_eq!(fills_color(&painted, &mut variables).as_deref(), Some("rgb(0, 0, 255, 1)"));
}

#[test]
fn fills_colour_falls_back_to_clear_colour() {
    let mut faded = solid(0, 1_000_000, 0, 1_000_000);
    faded.opacity = Some(Decimal::zero());
    let mut painted = node("1:1", NodeType::Frame);
    painted.fills = Some(vec![faded]);
    let mut variables = CSSVariablesMap::new();
    assert_eq!(fills_color(&painted, &mut variables).as_deref(), Some("rgb(0, 255, 0, 0)"));
    painted.fills = Some(vec![]);
    assert_eq!(fills_color(&painted, &mut variables), None);
}

#[test]
fn shared_fill_style_is_registered() {
    let mut painted = node("1:1", NodeType::Frame);
    painted.fills = Some(vec![solid(1_000_000, 1_000_000, 1_000_000, 1_000_000)]);
    painted.styles =
        Some(Styles { fill: Some("S:1".to_string()), text: None, stroke: None, effect: None });
    let file =
        file(node("0:0", NodeType::Document), vec![("S:1".to_string(), style("Surface"))]);
    let mut variables = file_collect_css_variables(&file);
    assert_eq!(fills_color(&painted, &mut variables).as_deref(), Some("var(--Surface)"));
    assert_eq!(variables["S:1"].value.as_deref(), Some("rgb(255, 255, 255, 1)"));
    let mut unknown = CSSVariablesMap::new();
    assert_eq!(fills_color(&painted, &mut unknown).as_deref(), Some("rgb(255, 255, 255, 1)"));
    assert!(unknown.is_empty());
}

#[test]
fn stroke_colour_is_that_of_first_shown_stroke() {
    let mut stroked = node("1:1", NodeType::Frame);
    stroked.strokes = Some(vec![solid(0, 0, 0, 0), solid(0, 0, 0, 1_000_000)]);
    assert_eq!(stroke_color(&stroked).as_deref(), Some("rgb(0, 0, 0, 1)"));
}

#[test]
fn box_shadow_joins_inner_shadows() {
    let shadow = |x: i32, visible: bool, effect_type: EffectType| Effect {
        effect_type,
        visible,
        color: Some(Color { red: dec(0), green: dec(0), blue: dec(0), alpha: dec(1) }),
        offset: Some(Vector { x: dec(x), y: dec(2) }),
        spread: None,
    };
    let mut shaded = node("1:1", NodeType::Frame);
    shaded.effects = Some(vec![
        shadow(1, true, EffectType::InnerShadow),
        shadow(5, true, EffectType::DropShadow),
        shadow(6, false, EffectType::InnerShadow),
        shadow(3, true, EffectType::InnerShadow),
    ]);
    assert_eq!(
        shaded.box_shadow().as_deref(),
        Some("inset 1px 2px 0px rgb(0, 0, 0, 1), inset 3px 2px 0px rgb(0, 0, 0, 1)")
    );
    shaded.effects = Some(vec![shadow(5, true, EffectType::DropShadow)]);
    assert_eq!(shaded.box_shadow(), None);
}

#[test]
fn font_is_composed_of_style_weight_size_and_family() {
    let mut text = text_node("1:1", "x");
    text.style = Some(type_style());
    let mut variables = CSSVariablesMap::new();
    assert_eq!(text.font(&mut variables).as_deref(), Some("  400 16px/18.5px \"Inter\""));
    let mut fancy = type_style();
    fancy.italic = Some(true);
    fancy.text_case = Some(TextCase::SmallCaps);
    text.style = Some(fancy);
    assert_eq!(
        text.font(&mut variables).as_deref(),
        Some("italic small-caps 400 16px/18.5px \"Inter\"")
    );
}

#[test]
fn bounding_box_of_group_surrounds_visible_children() {
    let mut a = node("1:1", NodeType::Frame);
    a.absolute_render_bounds = Some(rect(10, 20, 30, 40));
    let mut b = node("1:2", NodeType::Frame);
    b.absolute_render_bounds = Some(rect(-5, 25, 10, 100));
    let mut hidden = node("1:3", NodeType::Frame);
    hidden.visible = Some(false);
    hidden.absolute_render_bounds = Some(rect(-500, -500, 5000, 5000));
    let mut group = node("1:0", NodeType::Group);
    group.children = Some(vec![a, b, hidden]);
    assert_eq!(absolute_bounding_box(&group), Some(rect(-5, 20, 45, 105)));
    assert_eq!(absolute_bounding_box(&node("2:0", NodeType::Group)), None);
}

#[test]
fn covering_child_has_no_offset_from_top_and_left() {
    let mut parent = node("1:0", NodeType::Frame);
    parent.absolute_bounding_box = Some(rect(7, 9, 100, 50));
    let mut child = node("1:1", NodeType::Frame);
    child.absolute_bounding_box = Some(rect(7, 9, 100, 50));
    child.constraints = Some(LayoutConstraint {
        vertical: LayoutConstraintVertical::Top,
        horizontal: LayoutConstraintHorizontal::Left,
    });
    let plain = Inset::Linear { dy: dec(0), dx: dec(1), c: dec(0) };
    assert_eq!(
        Inset::from_figma_node(&child, Some(&parent)),
        Some([plain, Inset::Auto, Inset::Auto, plain])
    );
    assert_eq!(plain.to_css_string(), "calc(100% * 0 / 1 + 0px)");
    assert_eq!(Inset::Auto.to_css_string(), "auto");
}

#[test]
fn insets_follow_the_constraints() {
    let mut parent = node("1:0", NodeType::Frame);
    parent.absolute_bounding_box = Some(rect(0, 0, 100, 50));
    let mut child = node("1:1", NodeType::Frame);
    child.absolute_bounding_box = Some(rect(10, 5, 30, 20));
    child.constraints = Some(LayoutConstraint {
        vertical: LayoutConstraintVertical::Center,
        horizontal: LayoutConstraintHorizontal::LeftRight,
    });
    assert_eq!(
        Inset::from_figma_node(&child, Some(&parent)),
        Some([
            Inset::Linear { dy: dec(1), dx: dec(2), c: dec(-20) },
            Inset::Linear { dy: dec(0), dx: dec(1), c: dec(-60) },
            Inset::Auto,
            Inset::Linear { dy: dec(0), dx: dec(1), c: dec(10) },
        ])
    );
    child.constraints = Some(LayoutConstraint {
        vertical: LayoutConstraintVertical::Scale,
        horizontal: LayoutConstraintHorizontal::Right,
    });
    assert_eq!(
        Inset::from_figma_node(&child, Some(&parent)),
        Some([
            Inset::Linear { dy: dec(5), dx: dec(50), c: dec(0) },
            Inset::Linear { dy: dec(0), dx: dec(1), c: dec(-60) },
            Inset::Auto,
            Inset::Auto,
        ])
    );
}

#[test]
fn child_in_auto_layout_has_no_insets_unless_absolute() {
    let mut parent = node("1:0", NodeType::Frame);
    parent.absolute_bounding_box = Some(rect(0, 0, 100, 50));
    parent.layout_mode = Some(LayoutMode::Vertical);
    let mut child = node("1:1", NodeType::Frame);
    child.absolute_bounding_box = Some(rect(10, 5, 30, 20));
    child.constraints = Some(LayoutConstraint {
        vertical: LayoutConstraintVertical::Top,
        horizontal: LayoutConstraintHorizontal::Left,
    });
    assert_eq!(Inset::from_figma_node(&child, Some(&parent)), None);
    assert_eq!(Inset::from_figma_node(&child, None), None);
    child.layout_positioning = Some(LayoutPositioning::Absolute);
    assert!(Inset::from_figma_node(&child, Some(&parent)).is_some());
}

#[test]
fn text_with_line_break_keeps_its_white_space() {
    let text = text_node("1:1", "Hello\nWorld");
    let mut variables = CSSVariablesMap::new();
    let built = figma_node_to_intermediate_node(&text, &mut variables);
    assert!(built.appearance.preserve_whitespace);
    assert_eq!(built.node_type, IntermediateNodeType::Text { text: "Hello\nWorld".to_string() });
    assert!(built.naive_css_string().contains("white-space: pre-wrap;"));
    let html = HtmlFormatter { intermediate_node: &built, nesting_depth: 0 }.to_html().unwrap();
    assert!(html.contains("white-space: pre-wrap"));
}

#[test]
fn white_space_is_kept_only_where_it_matters() {
    let keeps = |characters: &str| {
        let mut variables = CSSVariablesMap::new();
        figma_node_to_intermediate_node(&text_node("1:1", characters), &mut variables)
            .appearance
            .preserve_whitespace
    };
    assert!(!keeps("Hello World"));
    assert!(keeps(" Hello"));
    assert!(keeps("Hello "));
    assert!(keeps("Hello  World"));
    assert!(keeps("Hello\tWorld\t!\n"));
    assert!(keeps(""));
    assert!(!keeps("a"));
}

#[test]
fn auto_layout_frame_is_built_with_its_visible_children() {
    let mut spacer = node("1:1", NodeType::Frame);
    spacer.absolute_bounding_box = Some(rect(0, 0, 0, 20));
    spacer.layout_align = Some(LayoutAlign::Stretch);
    let mut hidden = node("1:2", NodeType::Frame);
    hidden.visible = Some(false);
    let mut label = text_node("1:3", "B");
    label.fills = Some(vec![solid(0, 0, 0, 1_000_000)]);
    label.style = Some(TypeStyle {
        hyperlink: Some(Hyperlink { link_type: None, url: None, node_id: Some("1:1".to_string()) }),
        ..type_style()
    });
    label.layout_grow = Some(dec(1));
    let mut parent = node("1:0", NodeType::Frame);
    parent.layout_mode = Some(LayoutMode::Vertical);
    parent.primary_axis_align_items = Some(PrimaryAxisAlignItems::Center);
    parent.item_spacing = Some(dec(4));
    parent.padding_top = Some(dec(5));
    parent.absolute_bounding_box = Some(rect(0, 0, 100, 50));
    parent.corner_radius = Some(dec(3));
    parent.strokes = Some(vec![solid(0, 0, 0, 1_000_000)]);
    parent.stroke_weight = Some(dec(2));
    parent.stroke_align = Some(StrokeAlign::Inside);
    parent.children = Some(vec![spacer, hidden, label]);
    let mut variables = CSSVariablesMap::new();
    let built = figma_node_to_intermediate_node(&parent, &mut variables);
    let flex = built.flex_container.as_ref().unwrap();
    assert_eq!(flex.direction, FlexDirection::Column);
    assert_eq!(flex.align_items, AlignItems::Stretch);
    assert_eq!(flex.justify_content, Some(JustifyContent::Center));
    assert_eq!(flex.gap, px(4));
    assert_eq!(built.location.padding, [px(5), Length::Zero, Length::Zero, Length::Zero]);
    assert_eq!(built.location.height, None);
    assert_eq!(built.location.width, None);
    assert_eq!(built.frame_appearance.border_radius, Some([px(3), px(3), px(3), px(3)]));
    let stroke = built.frame_appearance.stroke.as_ref().unwrap();
    assert_eq!(stroke.weights, [dec(2), dec(2), dec(2), dec(2)]);
    assert_eq!(stroke.color, "rgb(0, 0, 0, 1)");
    let children = match &built.node_type {
        IntermediateNodeType::Frame { children } => children,
        _ => panic!("not a frame"),
    };
    assert_eq!(children.len(), 2);
    assert_eq!(children[0].location.width, None);
    assert_eq!(children[0].location.height, Some(px(20)));
    assert!(children[0].location.align_self.is_some());
    assert_eq!(children[1].location.flex_grow, Some(dec(1)));
    assert_eq!(children[1].appearance.color.as_deref(), Some("rgb(0, 0, 0, 1)"));
    assert_eq!(children[1].href.as_deref(), Some("#"));
    assert_eq!(children[1].figma.as_ref().unwrap().id, "1:3");
    assert_eq!(
        built.naive_css_string(),
        "border-radius: 3px 3px 3px 3px;display: flex;flex-direction: column;gap: 4px;\
         justify-content: center;outline: 2px solid rgb(0, 0, 0, 1);outline-offset: -2px;\
         padding: 5px 0 0 0;"
    );
}

#[test]
fn css_is_minified_and_laid_out() {
    assert_eq!(
        format_css(1, "margin: 0px;color: #ff0000;").unwrap(),
        "\n    color: red;\n    margin: 0;\n  "
    );
    assert_eq!(format_css(0, "").unwrap(), "\n");
}

#[test]
fn css_that_cannot_be_read_is_an_error() {
    match format_css(0, "color red") {
        Err(error) => {
            assert_eq!(
                error,
                CssFormatError::Parse("Unexpected token Ident(\"red\") at :0:6".to_string())
            );
            assert_eq!(
                error.to_text(),
                "Failed to parse CSS\nUnexpected token Ident(\"red\") at :0:6"
            );
        },
        other => panic!("unexpected {other:?}"),
    }
}

#[test]
fn frame_is_written_with_escaped_attributes_and_text() {
    let mut label = text_node("1:1", "a < b & c");
    label.name = "say \"hi\"".to_string();
    let mut variables = CSSVariablesMap::new();
    let built = figma_node_to_intermediate_node(&label, &mut variables);
    let html = HtmlFormatter { intermediate_node: &built, nesting_depth: 1 }.to_html().unwrap();
    assert_eq!(
        html,
        "<div\n    data-figma-name=\"say &quot;hi&quot;\"\n    data-figma-id=\"1:1\"\n    \
         >a &lt; b &amp; c</div\n  >"
    );
}

#[test]
fn vector_is_written_as_placeholder() {
    let vector = node("1:1", NodeType::Vector);
    let mut variables = CSSVariablesMap::new();
    let built = figma_node_to_intermediate_node(&vector, &mut variables);
    assert_eq!(built.node_type, IntermediateNodeType::Vector);
    let html = HtmlFormatter { intermediate_node: &built, nesting_depth: 0 }.to_html().unwrap();
    assert!(html.starts_with("<svg\n  data-figma-name=\"node 1:1\"\n"));
    assert!(html.contains("  viewBox=\"0 0 1 1\"\n  ><rect\n    x=\"-0.2\"\n"));
    assert!(html.ends_with("    height=\"1.4\"\n  /></svg\n>"));
}

#[test]
fn page_has_title_body_css_and_tree() {
    let mut root = node("1:0", NodeType::Frame);
    root.name = "Home & away".to_string();
    root.fills = Some(vec![solid(1_000_000, 1_000_000, 1_000_000, 1_000_000)]);
    root.styles =
        Some(Styles { fill: Some("S:1".to_string()), text: None, stroke: None, effect: None });
    root.children = Some(vec![text_node("1:1", "Hi")]);
    let file = file(node("0:0", NodeType::Document), vec![("S:1".to_string(), style("Surface"))]);
    let mut variables = file_collect_css_variables(&file);
    let built = figma_node_to_intermediate_node(&root, &mut variables);
    let mut page = String::new();
    intermediate_node_to_html_writer(&mut page, &built, &variables).unwrap();
    assert!(page.starts_with("<!DOCTYPE html>\n<html\n  ><head\n"));
    assert!(page.contains("<title>Home &amp; away</title\n"));
    assert!(page.contains("--Surface: #fff;"));
    assert!(page.contains("background: var(--Surface);"));
    assert!(page.contains("    >Hi</div\n"));
    assert!(page.ends_with("</body\n  ></html\n>\n"));
}

#[test]
fn tree_is_built_for_the_node_with_the_id() {
    let mut root = node("0:0", NodeType::Document);
    let mut label = text_node("1:1", "Hi");
    label.fills = Some(vec![solid(0, 0, 0, 1_000_000)]);
    label.styles =
        Some(Styles { fill: Some("S:1".to_string()), text: None, stroke: None, effect: None });
    root.children = Some(vec![label]);
    let file = file(root, vec![("S:1".to_string(), style("Ink"))]);
    let mut variables = file_collect_css_variables(&file);
    let built = build_ir(&file, "1:1", &mut variables).unwrap();
    assert_eq!(built.appearance.color.as_deref(), Some("var(--Ink)"));
    assert_eq!(variables["S:1"].value.as_deref(), Some("rgb(0, 0, 0, 1)"));
    let mut untouched = file_collect_css_variables(&file);
    assert!(build_ir(&file, "7:7", &mut untouched).is_none());
    assert_eq!(untouched["S:1"].value, None);
}

#[test]
fn page_is_the_same_written_or_handed_out() {
    let mut variables = CSSVariablesMap::new();
    let built = figma_node_to_intermediate_node(&text_node("1:1", "Hi"), &mut variables);
    let mut written = "before".to_string();
    intermediate_node_to_html_writer(&mut written, &built, &variables).unwrap();
    let page = render(&built, &variables).unwrap();
    assert_eq!(written, format!("before{page}"));
    assert_eq!(
        page,
        "<!DOCTYPE html>\n<html\n  ><head\n    ><meta charset=\"utf-8\" /><title>node 1:1</title\n    \
         ><style type=\"text/css\">\n      body {\n        margin: 0;\n      }\n    </style></head\n  \
         ><body\n    ><div\n      data-figma-name=\"node 1:1\"\n      data-figma-id=\"1:1\"\n      \
         >Hi</div\n    ></body\n  ></html\n>\n"
    );
}

#[test]
fn walk_goes_to_each_node_before_its_children() {
    let mut a = node("a", NodeType::Frame);
    a.children = Some(vec![node("a1", NodeType::Frame), node("a2", NodeType::Frame)]);
    let mut root = node("root", NodeType::Document);
    root.children = Some(vec![a, node("b", NodeType::Frame)]);
    let mut walk = root.depth_first_stack_iter();
    let mut seen = Vec::new();
    while let Some((found, path)) = walk.next() {
        let way: Vec<&str> = path.iter().map(|n| n.id.as_str()).collect();
        seen.push((found.id.as_str(), way));
    }
    assert_eq!(
        seen,
        vec![
            ("a", vec!["root", "a"]),
            ("a1", vec!["root", "a", "a1"]),
            ("a2", vec!["root", "a", "a2"]),
            ("b", vec!["root", "b"]),
        ]
    );
    assert!(walk.next().is_none());
    assert!(node("leaf", NodeType::Frame).depth_first_stack_iter().next().is_none());
}

#[test]
fn insets_need_boxes_and_constraints() {
    let mut parent = node("1:0", NodeType::Frame);
    parent.absolute_bounding_box = Some(rect(0, 0, 100, 50));
    let mut child = node("1:1", NodeType::Frame);
    child.absolute_bounding_box = Some(rect(10, 5, 30, 20));
    assert_eq!(Inset::from_figma_node(&child, Some(&parent)), None);
    child.constraints = Some(LayoutConstraint {
        vertical: LayoutConstraintVertical::Bottom,
        horizontal: LayoutConstraintHorizontal::Center,
    });
    assert_eq!(
        Inset::from_figma_node(&child, Some(&parent)),
        Some([
            Inset::Auto,
            Inset::Auto,
            Inset::Linear { dy: dec(0), dx: dec(1), c: dec(-25) },
            Inset::Linear { dy: dec(1), dx: dec(2), c: dec(-40) },
        ])
    );
    child.absolute_bounding_box =
        Some(Rectangle { x: Some(dec(10)), y: Some(dec(5)), width: None, height: Some(dec(20)) });
    assert_eq!(Inset::from_figma_node(&child, Some(&parent)), None);
    child.absolute_bounding_box = Some(rect(10, 5, 30, 20));
    parent.absolute_bounding_box = None;
    assert_eq!(Inset::from_figma_node(&child, Some(&parent)), None);
}

#[test]
fn paints_and_effects_give_defaults_where_nothing_is_set() {
    let mut paint = solid(0, 0, 0, 1_000_000);
    assert!(paint.visible());
    assert_eq!(paint.opacity(), Decimal::one());
    assert!(paint.color().is_some());
    paint.visible = Some(false);
    paint.opacity = Some(Decimal::from_micros(250_000));
    paint.color = None;
    assert!(!paint.visible());
    assert_eq!(paint.opacity(), Decimal::from_micros(250_000));
    assert!(paint.color().is_none());
    let mut effect = Effect {
        effect_type: EffectType::InnerShadow,
        visible: true,
        color: None,
        offset: None,
        spread: None,
    };
    assert_eq!(effect.spread(), Decimal::zero());
    effect.spread = Some(dec(3));
    assert_eq!(effect.spread(), dec(3));
    assert_eq!(LengthUnit::Px.to_css_string(), "px");
    assert_eq!(LengthUnit::Percentage.to_css_string(), "%");
}

#[test]
fn frame_without_geometry_or_style_sets_nothing() {
    let bare = node("1:1", NodeType::Frame);
    let mut variables = CSSVariablesMap::new();
    let built = figma_node_to_intermediate_node(&bare, &mut variables);
    assert_eq!(built.flex_container, None);
    assert_eq!(built.location.width, None);
    assert_eq!(built.location.height, None);
    assert_eq!(built.location.inset, None);
    assert_eq!(built.appearance.font, None);
    assert_eq!(built.frame_appearance.background, None);
    assert_eq!(built.frame_appearance.stroke, None);
    assert_eq!(built.href, None);
    assert_eq!(built.node_type, IntermediateNodeType::Frame { children: vec![] });
    assert_eq!(built.naive_css_string(), "");
    let html = HtmlFormatter { intermediate_node: &built, nesting_depth: 0 }.to_html().unwrap();
    assert_eq!(html, "<div\n  data-figma-name=\"node 1:1\"\n  data-figma-id=\"1:1\"\n  ></div\n>");
}

#[test]
fn background_falls_back_to_the_background_colour() {
    let mut canvas = node("1:1", NodeType::Canvas);
    canvas.background_color = Some(Color {
        red: Decimal::zero(),
        green: Decimal::zero(),
        blue: Decimal::one(),
        alpha: Decimal::one(),
    });
    let mut variables = CSSVariablesMap::new();
    assert_eq!(canvas.background(&mut variables).as_deref(), Some("rgb(0, 0, 255, 1)"));
    canvas.node_type = NodeType::Text;
    assert_eq!(canvas.background(&mut variables), None);
    canvas.node_type = NodeType::Frame;
    canvas.fills = Some(vec![solid(1_000_000, 0, 0, 1_000_000)]);
    assert_eq!(canvas.background(&mut variables).as_deref(), Some("rgb(255, 0, 0, 1)"));
}
