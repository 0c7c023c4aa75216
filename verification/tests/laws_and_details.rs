use figma_html::decimal::Decimal;
use figma_html::inherited_properties::InheritedProperties;
use figma_html::intermediate_node::{
    AlignItems, AlignSelf, Appearance, CSSVariable, FlexContainer, FlexDirection,
    FrameAppearance, Inset, IntermediateNode, IntermediateNodeType, JustifyContent, Length,
    LengthUnit, Location,
};
use figma_html::mutator::alignment::{
    Alignment, Decision, FlexAttempt, FlexShape, MergeFacts,
};
use figma_html::mutator::combine_parent_child::decide;
use figma_html::mutator::{
    combine_parent_child, height_set_by_parent, run_passes, width_set_by_parent,
};
use figma_html::schema::{Node, NodeType, TextCase};
use figma_html::{intermediate_node_to_html_writer, CSSVariablesMap};

fn value(unit: LengthUnit, micros: i64) -> Length {
    Length::Value { unit, value: Decimal::from_micros(micros) }
}

fn px(whole: i32) -> Length {
    Length::Value { unit: LengthUnit::Px, value: Decimal::from_int(whole) }
}

fn percent(whole: i32) -> Length {
    Length::Value { unit: LengthUnit::Percentage, value: Decimal::from_int(whole) }
}

fn var(name: &str, multiplier: i32, relative: Option<bool>) -> Length {
    Length::Var {
        name: name.to_string(),
        containing_block_relative: relative,
        multiplier: Decimal::from_int(multiplier),
    }
}

fn sum(terms: Vec<Length>) -> Length {
    Length::Addition { terms }
}

fn frame(children: Vec<IntermediateNode>) -> IntermediateNode {
    IntermediateNode {
        figma: None,
        flex_container: None,
        location: Location {
            padding: [Length::Zero, Length::Zero, Length::Zero, Length::Zero],
            align_self: None,
            flex_grow: None,
            inset: None,
            height: None,
            width: None,
        },
        appearance: Appearance {
            color: None,
            fill: None,
            font: None,
            opacity: None,
            preserve_whitespace: false,
            text_tranform: None,
            text_decoration_line: None,
        },
        frame_appearance: FrameAppearance {
            background: None,
            border_radius: None,
            box_shadow: None,
            stroke: None,
        },
        node_type: IntermediateNodeType::Frame { children },
        href: None,
    }
}

fn text(content: &str) -> IntermediateNode {
    let mut node = frame(vec![]);
    node.node_type = IntermediateNodeType::Text { text: content.to_string() };
    node
}

#[test]
fn decimal_sums_stay_in_range() {
    let most = Decimal::from_micros(i64::MAX);
    let least = Decimal::from_micros(i64::MIN);
    assert_eq!(most.add(Decimal::one()), most);
    assert_eq!(least.sub(Decimal::one()), least);
    assert_eq!(least.neg(), most);
    assert_eq!(most.sub(least), most);
    assert_eq!(Decimal::from_int(2).add(Decimal::from_int(-5)), Decimal::from_int(-3));
    assert_eq!(Decimal::from_int(2).sub(Decimal::from_int(-5)), Decimal::from_int(7));
    assert_eq!(Decimal::from_int(3).neg(), Decimal::from_int(-3));
}

#[test]
fn decimal_half_rounds_towards_zero() {
    assert_eq!(Decimal::from_micros(3).half(), Decimal::from_micros(1));
    assert_eq!(Decimal::from_micros(-3).half(), Decimal::from_micros(-1));
    assert_eq!(Decimal::from_int(5).half(), Decimal::from_micros(2_500_000));
    assert!(Decimal::zero().is_zero());
    assert!(Decimal::one().is_one());
    assert!(!Decimal::from_int(2).is_one());
}

#[test]
fn decimal_text_of_extremes() {
    assert_eq!(Decimal::from_micros(i64::MIN).to_text(), "-9223372036854.775808");
    assert_eq!(Decimal::from_micros(i64::MAX).to_text(), "9223372036854.775807");
    assert_eq!(Decimal::from_micros(50_000).to_text(), "0.05");
    assert_eq!(Decimal::from_micros(-1).to_text(), "-0.000001");
}

#[test]
fn normal_form_adds_up_by_unit_and_custom_property() {
    let length = sum(vec![
        px(1),
        var("x", 1, Some(false)),
        percent(2),
        px(3),
        Length::Zero,
        sum(vec![var("x", 2, None), value(LengthUnit::Px, 0), var("y", 1, Some(true))]),
    ]);
    let normal = length.normalise();
    assert_eq!(
        normal,
        sum(vec![var("x", 3, None), var("y", 1, Some(true)), px(4), percent(2)])
    );
    assert_eq!(normal.normalised(), normal);
    assert_eq!(normal.to_css_string(), "calc(calc(3*var(--x)) + var(--y) + 4px + 2%)");
}

#[test]
fn normal_form_of_single_terms() {
    assert_eq!(sum(vec![]).normalise(), Length::Zero);
    assert_eq!(sum(vec![Length::Zero, sum(vec![])]).normalise(), Length::Zero);
    assert_eq!(sum(vec![px(2), px(3)]).normalise(), px(5));
    assert_eq!(sum(vec![var("x", 1, None)]).normalise(), var("x", 1, None));
    assert_eq!(value(LengthUnit::Px, 0).normalise(), Length::Zero);
    assert_eq!(var("x", 0, None).normalise(), var("x", 0, None));
}

#[test]
fn amount_that_comes_to_zero_is_left_out() {
    let once = sum(vec![px(5), px(-5)]).normalise();
    assert_eq!(once, Length::Zero);
    assert_eq!(once.normalise(), Length::Zero);
    let kept = sum(vec![var("x", 1, None), px(5), px(-5)]).normalise();
    assert_eq!(kept, var("x", 1, None));
    assert_eq!(kept.normalised(), kept);
    let rest = sum(vec![px(5), percent(2), px(-5)]).normalise();
    assert_eq!(rest, percent(2));
    let several = sum(vec![px(5), percent(2), var("x", 1, None), px(-5), var("x", -1, None)])
        .normalise();
    assert_eq!(several, sum(vec![var("x", 0, None), percent(2)]));
    assert_eq!(several.normalised(), several);
}

#[test]
fn normal_form_of_a_normal_form_is_the_same() {
    let lengths = vec![
        Length::Zero,
        px(3),
        value(LengthUnit::Px, 0),
        var("x", 0, Some(true)),
        sum(vec![]),
        sum(vec![px(1), px(-1)]),
        sum(vec![px(1), percent(-1), sum(vec![percent(1), var("y", 2, None)])]),
        sum(vec![value(LengthUnit::Px, i64::MAX), px(1), px(-1)]),
        sum(vec![sum(vec![sum(vec![px(1), var("x", 1, None)])]), var("x", -1, Some(false))]),
    ];
    for length in lengths {
        let once = length.normalised();
        assert_eq!(once.normalised(), once);
    }
}

#[test]
fn sums_hold_the_same_whichever_way_round() {
    let a = sum(vec![px(1), var("x", 2, Some(false))]);
    let b = sum(vec![percent(3), px(4), var("x", 1, None)]);
    let ab = a.clone().add(b.clone());
    let ba = b.add(a);
    assert_eq!(ab, sum(vec![var("x", 3, None), px(5), percent(3)]));
    assert_eq!(ba, sum(vec![var("x", 3, None), percent(3), px(5)]));
}

#[test]
fn sums_hold_the_same_however_they_are_grouped() {
    let a = || px(1);
    let b = || var("x", 2, Some(true));
    let c = || sum(vec![px(-1), percent(7)]);
    let left = a().add(b()).add(c());
    let right = a().add(b().add(c()));
    assert_eq!(left, sum(vec![var("x", 2, Some(true)), percent(7)]));
    assert_eq!(right, sum(vec![var("x", 2, Some(true)), percent(7)]));
}

#[test]
fn sum_stays_at_the_largest_amount() {
    let most = value(LengthUnit::Px, i64::MAX);
    assert_eq!(most.clone().add(px(1)), most);
}

#[test]
fn relativity_of_lengths() {
    assert_eq!(Length::Zero.containing_block_relative(), Some(false));
    assert_eq!(px(3).containing_block_relative(), Some(false));
    assert_eq!(percent(3).containing_block_relative(), Some(true));
    assert_eq!(var("x", 1, None).containing_block_relative(), None);
    assert_eq!(var("x", 1, Some(true)).containing_block_relative(), Some(true));
    assert_eq!(sum(vec![]).containing_block_relative(), Some(false));
    assert_eq!(sum(vec![px(1), var("x", 1, None)]).containing_block_relative(), None);
    assert_eq!(
        sum(vec![var("x", 1, None), percent(1), px(1)]).containing_block_relative(),
        Some(true)
    );
    assert_eq!(
        sum(vec![px(1), sum(vec![px(1), var("x", 1, Some(false))])]).containing_block_relative(),
        Some(false)
    );
}

#[test]
fn lengths_are_written_with_calc_only_where_needed() {
    assert_eq!(Length::Zero.to_css_string(), "0");
    assert_eq!(px(20).to_css_string(), "20px");
    assert_eq!(value(LengthUnit::Percentage, 12_500_000).to_css_string(), "12.5%");
    assert_eq!(var("gap", 1, None).to_css_string(), "var(--gap)");
    assert_eq!(var("gap", 2, None).to_css_string(), "calc(2*var(--gap))");
    assert_eq!(sum(vec![px(1), percent(2)]).to_css_string(), "calc(1px + 2%)");
    assert!(!px(20).requires_calc());
    assert!(!var("gap", 1, None).requires_calc());
    assert!(var("gap", 3, None).requires_calc());
    assert!(sum(vec![]).requires_calc());
}

#[test]
fn pixels_give_a_length_unless_they_are_none() {
    assert_eq!(Length::new_from_option_pixels(None), Length::Zero);
    assert_eq!(Length::new_from_option_pixels(Some(Decimal::zero())), Length::Zero);
    assert_eq!(Length::new_from_option_pixels(Some(Decimal::from_int(4))), px(4));
}

#[test]
fn lengths_are_equal_when_they_are_the_same_expression() {
    assert!(sum(vec![px(1), var("x", 1, None)]).equals(&sum(vec![px(1), var("x", 1, None)])));
    assert!(!sum(vec![px(1), var("x", 1, None)]).equals(&sum(vec![var("x", 1, None), px(1)])));
    assert!(!var("x", 1, None).equals(&var("x", 1, Some(false))));
    assert!(!px(1).equals(&percent(1)));
    assert!(!Length::Zero.equals(&value(LengthUnit::Px, 0)));
}

#[test]
fn children_inherit_what_a_node_sets_or_inherits() {
    let mut node = text("a");
    node.appearance.color = Some("red".to_string());
    node.appearance.preserve_whitespace = true;
    let inherited = InheritedProperties {
        color: Some("blue".to_string()),
        fill: Some("green".to_string()),
        font: None,
        preserve_whitespace: false,
        text_tranform: Some(TextCase::Upper),
    };
    assert_eq!(
        InheritedProperties::inherit(&node, &inherited),
        InheritedProperties {
            color: Some("red".to_string()),
            fill: Some("green".to_string()),
            font: None,
            preserve_whitespace: true,
            text_tranform: Some(TextCase::Upper),
        }
    );
    assert_eq!(
        InheritedProperties::default(),
        InheritedProperties {
            color: None,
            fill: None,
            font: None,
            preserve_whitespace: false,
            text_tranform: None,
        }
    );
}

#[test]
fn alignment_as_placement_along_the_main_axis() {
    let justify = Alignment::Justify(JustifyContent::SpaceBetween);
    assert_eq!(
        justify.as_simplified_main_axis_alignment(false),
        Some((JustifyContent::SpaceBetween, false))
    );
    let center = Alignment::Align(AlignItems::Center);
    assert_eq!(
        center.as_simplified_main_axis_alignment(false),
        Some((JustifyContent::Center, false))
    );
    let stretch = Alignment::Align(AlignItems::Stretch);
    assert_eq!(
        stretch.as_simplified_main_axis_alignment(true),
        Some((JustifyContent::FlexStart, true))
    );
    assert_eq!(stretch.as_simplified_main_axis_alignment(false), None);
    let baseline = Alignment::Align(AlignItems::Baseline);
    assert_eq!(
        baseline.as_simplified_main_axis_alignment(true),
        Some((JustifyContent::FlexStart, false))
    );
    assert_eq!(baseline.as_simplified_main_axis_alignment(false), None);
}

#[test]
fn alignment_as_alignment_of_items() {
    let stretch = Alignment::Align(AlignItems::Stretch);
    assert_eq!(stretch.as_counter_axis_alignment(false), Some(AlignItems::Stretch));
    let end = Alignment::Justify(JustifyContent::FlexEnd);
    assert_eq!(end.as_counter_axis_alignment(false), Some(AlignItems::FlexEnd));
    let between = Alignment::Justify(JustifyContent::SpaceBetween);
    assert_eq!(between.as_counter_axis_alignment(true), Some(AlignItems::FlexStart));
    assert_eq!(between.as_counter_axis_alignment(false), None);
}

#[test]
fn alignment_of_a_child_in_its_container() {
    let row = FlexShape {
        align_items: AlignItems::Center,
        direction: FlexDirection::Row,
        justify_content: None,
    };
    assert_eq!(
        Alignment::from_flex_container_width(row, None, false),
        Alignment::Justify(JustifyContent::FlexStart)
    );
    assert_eq!(
        Alignment::from_flex_container_width(row, None, true),
        Alignment::Align(AlignItems::Stretch)
    );
    assert_eq!(
        Alignment::from_flex_container_height(row, None, true),
        Alignment::Align(AlignItems::Center)
    );
    assert_eq!(
        Alignment::from_flex_container_height(row, Some(AlignSelf::Stretch), false),
        Alignment::Align(AlignItems::Stretch)
    );
}

fn block() -> FlexShape {
    FlexShape {
        align_items: AlignItems::Stretch,
        direction: FlexDirection::Column,
        justify_content: None,
    }
}

fn facts() -> MergeFacts {
    MergeFacts {
        parent_flex: block(),
        child_flex: block(),
        child_align_self: None,
        child_grows_fully: false,
        child_sets_width: false,
        child_sets_height: false,
        grandchild_align_self: None,
        grandchild_grows_fully: false,
        child_has_multiple_children: false,
        width_from_descent_inclusive: false,
        height_from_descent_inclusive: false,
    }
}

#[test]
fn centred_row_keeps_its_placement() {
    let decision = decide(MergeFacts {
        parent_flex: FlexShape {
            align_items: AlignItems::Stretch,
            direction: FlexDirection::Row,
            justify_content: Some(JustifyContent::Center),
        },
        ..facts()
    });
    assert_eq!(
        decision,
        Some(Decision {
            attempt: FlexAttempt::Parent,
            justify_content: JustifyContent::Center,
            use_flex_grow: false,
            align_items: AlignItems::FlexStart,
        })
    );
}

#[test]
fn blocks_merge_into_a_stretched_column() {
    assert_eq!(
        decide(facts()),
        Some(Decision {
            attempt: FlexAttempt::Parent,
            justify_content: JustifyContent::FlexStart,
            use_flex_grow: false,
            align_items: AlignItems::Stretch,
        })
    );
}

#[test]
fn both_sized_along_one_axis_never_merge() {
    for direction in [FlexDirection::Row, FlexDirection::Column] {
        for child_direction in [FlexDirection::Row, FlexDirection::Column] {
            for multiple in [false, true] {
                let base = MergeFacts {
                    parent_flex: FlexShape { direction, ..block() },
                    child_flex: FlexShape { direction: child_direction, ..block() },
                    child_has_multiple_children: multiple,
                    ..facts()
                };
                let wide = MergeFacts {
                    child_sets_width: true,
                    width_from_descent_inclusive: true,
                    ..base
                };
                let high = MergeFacts {
                    child_sets_height: true,
                    height_from_descent_inclusive: true,
                    ..base
                };
                assert_eq!(decide(wide), None);
                assert_eq!(decide(high), None);
            }
        }
    }
}

#[test]
fn child_with_several_children_keeps_its_own_settings() {
    let decision = decide(MergeFacts {
        child_flex: FlexShape {
            align_items: AlignItems::Center,
            direction: FlexDirection::Row,
            justify_content: Some(JustifyContent::SpaceBetween),
        },
        child_has_multiple_children: true,
        ..facts()
    });
    assert_eq!(
        decision,
        Some(Decision {
            attempt: FlexAttempt::Child,
            justify_content: JustifyContent::SpaceBetween,
            use_flex_grow: false,
            align_items: AlignItems::Center,
        })
    );
}

#[test]
fn only_grandchild_is_regrown() {
    let mut grandchild = text("x");
    grandchild.location.align_self = Some(AlignSelf::Stretch);
    grandchild.location.flex_grow = Some(Decimal::from_int(3));
    let mut child = frame(vec![grandchild]);
    child.flex_container = Some(FlexContainer {
        align_items: AlignItems::Stretch,
        direction: FlexDirection::Column,
        gap: Length::Zero,
        justify_content: None,
    });
    let mut parent = frame(vec![child]);
    let mut variables = CSSVariablesMap::new();
    assert!(combine_parent_child(&mut parent, &mut variables));
    let children = match &parent.node_type {
        IntermediateNodeType::Frame { children } => children,
        _ => panic!("not a frame"),
    };
    assert_eq!(children.len(), 1);
    assert_eq!(children[0].location.align_self, None);
    assert_eq!(children[0].location.flex_grow, None);
}

#[test]
fn size_follows_the_parent() {
    let mut grown = text("x");
    grown.location.flex_grow = Some(Decimal::one());
    assert!(width_set_by_parent(&grown, Some(FlexDirection::Row), Some(AlignItems::Center)));
    assert!(!height_set_by_parent(&grown, Some(FlexDirection::Row), Some(AlignItems::Center)));
    assert!(height_set_by_parent(&grown, Some(FlexDirection::Row), Some(AlignItems::Stretch)));
    assert!(height_set_by_parent(&grown, Some(FlexDirection::Column), None));
    let plain = text("y");
    assert!(width_set_by_parent(&plain, None, None));
    assert!(!height_set_by_parent(&plain, None, None));
    let mut sized = text("z");
    sized.location.width = Some(px(3));
    assert!(!width_set_by_parent(&sized, None, None));
    let mut tied = text("t");
    let linear = Inset::Linear { dy: Decimal::zero(), dx: Decimal::one(), c: Decimal::zero() };
    tied.location.inset = Some([Inset::Auto, linear, Inset::Auto, linear]);
    assert!(width_set_by_parent(&tied, None, None));
    assert!(!height_set_by_parent(&tied, Some(FlexDirection::Row), None));
}

fn child_count(node: &IntermediateNode) -> usize {
    match &node.node_type {
        IntermediateNodeType::Frame { children } => children.len(),
        _ => panic!("not a frame"),
    }
}

#[test]
fn one_run_is_one_pass_over_the_tree() {
    let mut root = frame(vec![frame(vec![frame(vec![text("a"), text("b")])])]);
    let mut variables = CSSVariablesMap::new();
    assert!(run_passes(&mut root, &mut variables));
    assert_eq!(child_count(&root), 1);
    assert!(run_passes(&mut root, &mut variables));
    assert_eq!(child_count(&root), 2);
    assert!(!run_passes(&mut root, &mut variables));
}

#[test]
fn node_gives_defaults_where_nothing_is_set() {
    let mut node = Node { id: "1:1".to_string(), node_type: NodeType::Frame, ..Node::default() };
    assert!(node.visible());
    assert_eq!(node.opacity(), Decimal::one());
    assert_eq!(node.padding_left(), Decimal::zero());
    assert_eq!(node.padding_top(), Decimal::zero());
    assert_eq!(node.child_count(), 0);
    assert_eq!(node.rectangle_corner_radii(), None);
    assert!(!node.is_auto_layout());
    node.corner_radius = Some(Decimal::from_int(2));
    node.visible = Some(false);
    node.padding_right = Some(Decimal::from_int(3));
    let hidden = Node { visible: Some(false), ..Node::default() };
    let shown = Node { id: "shown".to_string(), ..Node::default() };
    node.children = Some(vec![hidden, shown]);
    assert!(!node.visible());
    assert_eq!(node.padding_right(), Decimal::from_int(3));
    assert_eq!(node.rectangle_corner_radii(), Some([Decimal::from_int(2); 4]));
    assert_eq!(node.child_count(), 2);
    assert_eq!(node.child(1).id, "shown");
    let enabled = node.enabled_children();
    assert_eq!(enabled.len(), 1);
    assert_eq!(enabled[0].id, "shown");
}

#[test]
fn style_sheet_cannot_end_the_style_element() {
    let mut variables = CSSVariablesMap::new();
    variables.insert(
        "S:1".to_string(),
        CSSVariable { name: "--tag".to_string(), value: Some("\"</style>\"".to_string()) },
    );
    variables
        .insert("S:2".to_string(), CSSVariable { name: "--unused".to_string(), value: None });
    let mut page = String::new();
    intermediate_node_to_html_writer(&mut page, &text("x"), &variables).unwrap();
    assert!(page.contains("--tag: \"<\\/style>\";"));
    assert!(!page.contains("--unused"));
    assert_eq!(page.matches("</style>").count(), 1);
}
