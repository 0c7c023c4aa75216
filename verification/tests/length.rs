use figma_html::decimal::Decimal;
use figma_html::intermediate_node::{Length, LengthUnit};

fn px(whole: i32) -> Length {
    Length::Value { unit: LengthUnit::Px, value: Decimal::from_int(whole) }
}

fn var(name: &str, multiplier: Decimal, relative: Option<bool>) -> Length {
    Length::Var { name: name.to_string(), containing_block_relative: relative, multiplier }
}

#[test]
fn add_sums_pixels() {
    assert_eq!(px(20).add(px(10)), px(30));
}

#[test]
fn add_of_zeros_is_zero() {
    assert_eq!(Length::Zero.add(Length::Zero), Length::Zero);
}

#[test]
fn add_keeps_variables_before_values() {
    let sum = px(4).add(var("gap", Decimal::one(), None));
    assert_eq!(
        sum,
        Length::Addition { terms: vec![var("gap", Decimal::one(), None), px(4)] }
    );
    assert_eq!(sum.to_css_string(), "calc(var(--gap) + 4px)");
}

#[test]
fn decimal_text_drops_trailing_zeros() {
    assert_eq!(Decimal::from_micros(12_500_000).to_text(), "12.5");
    assert_eq!(Decimal::from_micros(-500_000).to_text(), "-0.5");
    assert_eq!(Decimal::from_micros(1_000_001).to_text(), "1.000001");
    assert_eq!(Decimal::from_int(20).to_text(), "20");
    assert_eq!(Decimal::zero().to_text(), "0");
}
