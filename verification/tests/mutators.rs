use figma_html::decimal::Decimal;
use figma_html::intermediate_node::{
    AlignItems, Appearance, FlexContainer, FlexDirection, FrameAppearance, Inset,
    IntermediateNode, IntermediateNodeType, JustifyContent, Length, LengthUnit, Location,
};
use figma_html::mutator::{
    collapse_to_gap, collapse_to_padding, combine_parent_child, drop_empty_absolute_frames,
    elevate_frame_appearance_properties, run_to_fixpoint,
};
use figma_html::CSSVariablesMap;

fn px(whole: i32) -> Length {
    Length::Value { unit: LengthUnit::Px, value: Decimal::from_int(whole) }
}

fn no_padding() -> [Length; 4] {
    [Length::Zero, Length::Zero, Length::Zero, Length::Zero]
}

fn frame(children: Vec<IntermediateNode>) -> IntermediateNode {
    IntermediateNode {
        figma: None,
        flex_container: None,
        location: Location {
            padding: no_padding(),
            align_self: None,
            flex_grow: None,
            inset: None,
            height: None,
            width: None,
        },
        appearance: Appearance {
            color: None,
            fill: None,
            font: None,
            opacity: None,
            preserve_whitespace: false,
            text_tranform: None,
            text_decoration_line: None,
        },
        frame_appearance: FrameAppearance {
            background: None,
            border_radius: None,
            box_shadow: None,
            stroke: None,
        },
        node_type: IntermediateNodeType::Frame { children },
        href: None,
    }
}

fn text(content: &str) -> IntermediateNode {
    let mut node = frame(vec![]);
    node.node_type = IntermediateNodeType::Text { text: content.to_string() };
    node
}

fn column(children: Vec<IntermediateNode>) -> IntermediateNode {
    let mut node = frame(children);
    node.flex_container = Some(FlexContainer {
        align_items: AlignItems::Stretch,
        direction: FlexDirection::Column,
        gap: Length::Zero,
        justify_content: None,
    });
    node
}

fn row(children: Vec<IntermediateNode>) -> IntermediateNode {
    let mut node = column(children);
    node.flex_container.as_mut().unwrap().direction = FlexDirection::Row;
    node
}

fn spacer_high(height: i32) -> IntermediateNode {
    let mut node = frame(vec![]);
    node.location.height = Some(px(height));
    node
}

fn spacer_wide(width: i32) -> IntermediateNode {
    let mut node = frame(vec![]);
    node.location.width = Some(px(width));
    node
}

fn absolute(mut node: IntermediateNode) -> IntermediateNode {
    node.location.inset = Some([Inset::Auto, Inset::Auto, Inset::Auto, Inset::Auto]);
    node
}

fn children(node: &IntermediateNode) -> &Vec<IntermediateNode> {
    match &node.node_type {
        IntermediateNodeType::Frame { children } => children,
        _ => panic!("not a frame"),
    }
}

#[test]
fn leading_spacer_becomes_top_padding() {
    let mut item = text("B");
    item.location.height = Some(px(10));
    let mut parent = column(vec![spacer_high(20), item]);
    parent.location.padding = [px(5), Length::Zero, Length::Zero, Length::Zero];
    let mut variables = CSSVariablesMap::new();
    assert!(collapse_to_padding(&mut parent, &mut variables));
    assert_eq!(parent.location.padding, [px(25), Length::Zero, Length::Zero, Length::Zero]);
    assert_eq!(children(&parent).len(), 1);
    assert_eq!(children(&parent)[0].location.height, Some(px(10)));
    assert!(!collapse_to_padding(&mut parent, &mut variables));
}

#[test]
fn trailing_spacer_in_row_becomes_right_padding_with_gap() {
    let mut parent = row(vec![text("A"), spacer_wide(8)]);
    parent.flex_container.as_mut().unwrap().gap = px(2);
    let mut variables = CSSVariablesMap::new();
    assert!(collapse_to_padding(&mut parent, &mut variables));
    assert_eq!(parent.location.padding, [Length::Zero, px(10), Length::Zero, Length::Zero]);
    assert_eq!(children(&parent).len(), 1);
}

#[test]
fn leading_spacer_in_row_becomes_left_padding() {
    let mut parent = row(vec![spacer_wide(8), text("A")]);
    let mut variables = CSSVariablesMap::new();
    assert!(collapse_to_padding(&mut parent, &mut variables));
    assert_eq!(parent.location.padding, [Length::Zero, Length::Zero, Length::Zero, px(8)]);
}

#[test]
fn spacer_is_kept_between_spaced_items() {
    let mut parent = column(vec![spacer_high(20), text("B")]);
    parent.flex_container.as_mut().unwrap().justify_content = Some(JustifyContent::SpaceBetween);
    let mut variables = CSSVariablesMap::new();
    assert!(!collapse_to_padding(&mut parent, &mut variables));
    assert_eq!(children(&parent).len(), 2);
}

#[test]
fn spacer_with_cross_extent_is_kept() {
    let mut spacer = spacer_high(20);
    spacer.location.width = Some(px(3));
    let mut parent = column(vec![spacer, text("B")]);
    let mut variables = CSSVariablesMap::new();
    assert!(!collapse_to_padding(&mut parent, &mut variables));
}

#[test]
fn equal_spacers_become_gap() {
    let mut parent =
        column(vec![text("A"), spacer_high(4), text("B"), spacer_high(4), text("C")]);
    let mut variables = CSSVariablesMap::new();
    assert!(collapse_to_gap(&mut parent, &mut variables));
    assert_eq!(parent.flex_container.as_ref().unwrap().gap, px(4));
    assert_eq!(children(&parent).len(), 3);
    assert!(!collapse_to_gap(&mut parent, &mut variables));
}

#[test]
fn unequal_spacers_stay() {
    let mut parent =
        column(vec![text("A"), spacer_high(4), text("B"), spacer_high(5), text("C")]);
    let mut variables = CSSVariablesMap::new();
    assert!(!collapse_to_gap(&mut parent, &mut variables));
    assert_eq!(children(&parent).len(), 5);
}

#[test]
fn spacers_stay_where_a_gap_is_set() {
    let mut parent = column(vec![text("A"), spacer_high(4), text("B")]);
    parent.flex_container.as_mut().unwrap().gap = px(1);
    let mut variables = CSSVariablesMap::new();
    assert!(!collapse_to_gap(&mut parent, &mut variables));
}

#[test]
fn absolute_children_do_not_count_as_items() {
    let mut parent = column(vec![
        text("A"),
        absolute(text("over")),
        spacer_high(4),
        text("B"),
    ]);
    let mut variables = CSSVariablesMap::new();
    assert!(collapse_to_gap(&mut parent, &mut variables));
    assert_eq!(children(&parent).len(), 3);
    assert!(children(&parent)[1].location.inset.is_some());
}

#[test]
fn empty_absolute_frames_are_dropped_once() {
    let mut inner = absolute(frame(vec![absolute(frame(vec![]))]));
    inner.frame_appearance.border_radius = Some(no_padding());
    let mut root = frame(vec![inner, text("kept")]);
    let mut variables = CSSVariablesMap::new();
    assert!(drop_empty_absolute_frames(&mut root, &mut variables));
    assert_eq!(children(&root).len(), 1);
    assert!(!drop_empty_absolute_frames(&mut root, &mut variables));
}

#[test]
fn absolute_frame_with_background_is_kept() {
    let mut shown = absolute(frame(vec![]));
    shown.frame_appearance.background = Some("red".to_string());
    let mut root = frame(vec![shown]);
    let mut variables = CSSVariablesMap::new();
    assert!(!drop_empty_absolute_frames(&mut root, &mut variables));
    assert_eq!(children(&root).len(), 1);
}

#[test]
fn background_of_parent_is_not_replaced() {
    let mut child = frame(vec![text("a"), text("b")]);
    child.frame_appearance.background = Some("rgb(1, 2, 3, 1)".to_string());
    let mut parent = frame(vec![child]);
    parent.frame_appearance.background = Some("rgb(1, 2, 3, 1)".to_string());
    let mut variables = CSSVariablesMap::new();
    assert!(!elevate_frame_appearance_properties(&mut parent, &mut variables));
    assert_eq!(children(&parent).len(), 1);
    assert_eq!(
        children(&parent)[0].frame_appearance.background.as_deref(),
        Some("rgb(1, 2, 3, 1)")
    );
}

#[test]
fn shared_background_stays_on_the_child() {
    let mut child = frame(vec![]);
    child.frame_appearance.background = Some("rgb(10, 20, 30, 1)".to_string());
    let mut parent = frame(vec![child]);
    parent.frame_appearance.background = Some("rgb(10, 20, 30, 1)".to_string());
    let mut variables = CSSVariablesMap::new();
    assert!(!elevate_frame_appearance_properties(&mut parent, &mut variables));
    assert_eq!(parent.frame_appearance.background.as_deref(), Some("rgb(10, 20, 30, 1)"));
    assert_eq!(children(&parent).len(), 1);
    assert_eq!(
        children(&parent)[0].frame_appearance.background.as_deref(),
        Some("rgb(10, 20, 30, 1)")
    );
    assert!(children(&children(&parent)[0]).is_empty());
}

#[test]
fn background_and_link_move_to_empty_parent() {
    let mut child = frame(vec![text("a"), text("b")]);
    child.frame_appearance.background = Some("blue".to_string());
    child.href = Some("#".to_string());
    let mut parent = frame(vec![child]);
    let mut variables = CSSVariablesMap::new();
    assert!(elevate_frame_appearance_properties(&mut parent, &mut variables));
    assert_eq!(parent.frame_appearance.background.as_deref(), Some("blue"));
    assert_eq!(parent.href.as_deref(), Some("#"));
    assert_eq!(children(&parent)[0].frame_appearance.background, None);
    assert_eq!(children(&parent)[0].href, None);
    assert!(!elevate_frame_appearance_properties(&mut parent, &mut variables));
}

#[test]
fn nothing_moves_to_padded_parent() {
    let mut child = frame(vec![]);
    child.frame_appearance.background = Some("blue".to_string());
    let mut parent = frame(vec![child]);
    parent.location.padding = [px(1), Length::Zero, Length::Zero, Length::Zero];
    let mut variables = CSSVariablesMap::new();
    assert!(!elevate_frame_appearance_properties(&mut parent, &mut variables));
}

#[test]
fn border_radius_stays_below_painted_parent() {
    let mut child = frame(vec![text("a"), text("b")]);
    child.frame_appearance.border_radius = Some([px(2), px(2), px(2), px(2)]);
    let mut parent = frame(vec![child]);
    parent.frame_appearance.background = Some("blue".to_string());
    let mut variables = CSSVariablesMap::new();
    assert!(!elevate_frame_appearance_properties(&mut parent, &mut variables));
    assert!(children(&parent)[0].frame_appearance.border_radius.is_some());
}

#[test]
fn plain_child_is_absorbed() {
    let mut child = column(vec![text("a"), text("b")]);
    child.location.padding = [px(1), px(2), px(3), px(4)];
    child.location.width = Some(px(100));
    let mut parent = frame(vec![child]);
    parent.location.padding = [px(10), px(20), px(30), px(40)];
    let mut variables = CSSVariablesMap::new();
    assert!(combine_parent_child(&mut parent, &mut variables));
    assert_eq!(children(&parent).len(), 2);
    assert_eq!(parent.location.padding, [px(11), px(22), px(33), px(44)]);
    assert_eq!(parent.location.width, Some(px(160)));
    let flex = parent.flex_container.as_ref().unwrap();
    assert_eq!(flex.direction, FlexDirection::Column);
    assert_eq!(flex.justify_content, Some(JustifyContent::FlexStart));
    assert_eq!(flex.align_items, AlignItems::Stretch);
}

#[test]
fn parent_and_child_with_widths_are_not_merged() {
    let mut child = frame(vec![text("a"), text("b")]);
    child.location.width = Some(px(100));
    let mut parent = frame(vec![child]);
    parent.location.width = Some(px(200));
    let mut variables = CSSVariablesMap::new();
    assert!(!combine_parent_child(&mut parent, &mut variables));
    assert_eq!(children(&parent).len(), 1);
}

#[test]
fn child_with_background_is_not_absorbed() {
    let mut child = frame(vec![text("a"), text("b")]);
    child.frame_appearance.background = Some("blue".to_string());
    let mut parent = frame(vec![child]);
    parent.frame_appearance.background = Some("red".to_string());
    let mut variables = CSSVariablesMap::new();
    assert!(!combine_parent_child(&mut parent, &mut variables));
}

#[test]
fn text_child_is_absorbed_with_its_appearance() {
    let mut child = text("Hello");
    child.appearance.color = Some("black".to_string());
    child.appearance.preserve_whitespace = true;
    let mut parent = frame(vec![child]);
    parent.appearance.color = Some("white".to_string());
    parent.appearance.font = Some("12px serif".to_string());
    parent.appearance.opacity = Some(Decimal::from_micros(500_000));
    let mut variables = CSSVariablesMap::new();
    assert!(combine_parent_child(&mut parent, &mut variables));
    assert_eq!(parent.node_type, IntermediateNodeType::Text { text: "Hello".to_string() });
    assert_eq!(parent.appearance.color.as_deref(), Some("black"));
    assert_eq!(parent.appearance.font.as_deref(), Some("12px serif"));
    assert_eq!(parent.appearance.opacity, Some(Decimal::from_micros(500_000)));
    assert!(parent.appearance.preserve_whitespace);
}

#[test]
fn fixpoint_folds_and_merges() {
    let mut item = text("B");
    item.location.height = Some(px(10));
    let mut root = column(vec![spacer_high(20), item]);
    let mut variables = CSSVariablesMap::new();
    let rounds = run_to_fixpoint(&mut root, &mut variables);
    assert_eq!(rounds, 2);
    assert_eq!(root.node_type, IntermediateNodeType::Text { text: "B".to_string() });
    assert_eq!(root.location.padding[0], px(20));
    assert_eq!(root.location.height, Some(px(30)));
    assert_eq!(run_to_fixpoint(&mut root, &mut variables), 0);
}

#[test]
fn declarations_come_in_the_alphabetical_order_of_their_names() {
    let mut node = row(vec![]);
    node.appearance.color = Some("black".to_string());
    node.appearance.fill = Some("red".to_string());
    node.appearance.font = Some("12px serif".to_string());
    node.location.flex_grow = Some(Decimal::one());
    assert_eq!(
        node.naive_css_string(),
        "color: black;display: flex;fill: red;flex-direction: row;flex-grow: 1;font: 12px serif;"
    );
    node.frame_appearance.background = Some("blue".to_string());
    node.location.padding = [px(1), px(2), px(3), px(4)];
    node.location.width = Some(px(5));
    node.location.height = Some(px(6));
    node.location.inset = Some([Inset::Auto, Inset::Auto, Inset::Auto, Inset::Auto]);
    node.appearance.opacity = Some(Decimal::from_micros(500_000));
    node.appearance.preserve_whitespace = true;
    let css = node.naive_css_string();
    let names: Vec<&str> =
        css.split(';').filter(|d| !d.is_empty()).map(|d| d.split(':').next().unwrap()).collect();
    let mut sorted = names.clone();
    sorted.sort();
    sorted.dedup();
    assert_eq!(names, sorted);
    assert_eq!(
        names,
        vec![
            "background", "box-sizing", "color", "display", "fill", "flex-direction",
            "flex-grow", "font", "height", "inset", "opacity", "padding", "position",
            "white-space", "width",
        ]
    );
}

fn kinds(node: &IntermediateNode, out: &mut Vec<String>) {
    match &node.node_type {
        IntermediateNodeType::Vector => out.push("vector".to_string()),
        IntermediateNodeType::Text { text } => out.push(format!("text {}", text)),
        IntermediateNodeType::Frame { children } => {
            out.push(format!("frame {}", children.len()));
            for child in children {
                kinds(child, out);
            }
        }
    }
}

fn nested_with_background() -> IntermediateNode {
    let mut inner = frame(vec![text("a"), text("b")]);
    inner.frame_appearance.background = Some("blue".to_string());
    frame(vec![frame(vec![inner])])
}

#[test]
fn elevation_keeps_every_node_in_its_place() {
    let mut root = nested_with_background();
    let mut before = Vec::new();
    kinds(&root, &mut before);
    let mut variables = CSSVariablesMap::new();
    assert!(elevate_frame_appearance_properties(&mut root, &mut variables));
    let mut after = Vec::new();
    kinds(&root, &mut after);
    assert_eq!(before, after);
    assert_eq!(root.frame_appearance.background, None);
    assert_eq!(children(&root)[0].frame_appearance.background.as_deref(), Some("blue"));
    assert_eq!(children(&children(&root)[0])[0].frame_appearance.background, None);
    assert!(elevate_frame_appearance_properties(&mut root, &mut variables));
    let mut last = Vec::new();
    kinds(&root, &mut last);
    assert_eq!(before, last);
    assert_eq!(root.frame_appearance.background.as_deref(), Some("blue"));
    assert_eq!(children(&root)[0].frame_appearance.background, None);
    assert!(!elevate_frame_appearance_properties(&mut root, &mut variables));
}

#[test]
fn fixpoint_comes_within_the_bound_in_the_number_of_nodes() {
    let mut root = nested_with_background();
    let mut before = Vec::new();
    kinds(&root, &mut before);
    let nodes = before.len();
    let mut variables = CSSVariablesMap::new();
    let rounds = run_to_fixpoint(&mut root, &mut variables);
    assert!(rounds >= 1);
    assert!(rounds <= 5 * nodes * nodes);
    assert_eq!(run_to_fixpoint(&mut root, &mut variables), 0);
    assert_eq!(root.frame_appearance.background.as_deref(), Some("blue"));
}
