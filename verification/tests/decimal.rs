use marzban_exporter::metrics::setup_metrics_registry;
use marzban_exporter::value::GaugeValue;

#[test]
fn parses_integer_text() {
    let v = GaugeValue::from_decimal_str("1000").unwrap();
    assert_eq!(v, GaugeValue { mantissa: 1000, scale: 0 });
}

#[test]
fn parses_fractional_text_exactly() {
    let v = GaugeValue::from_decimal_str("12.5").unwrap();
    assert_eq!(v, GaugeValue { mantissa: 125, scale: 1 });
}

#[test]
fn parses_small_fraction_with_leading_zero() {
    let v = GaugeValue::from_decimal_str("0.05").unwrap();
    assert_eq!(v, GaugeValue { mantissa: 5, scale: 2 });
}

#[test]
fn parses_zero() {
    let v = GaugeValue::from_decimal_str("0").unwrap();
    assert_eq!(v, GaugeValue { mantissa: 0, scale: 0 });
}

#[test]
fn rejects_empty_text() {
    assert!(GaugeValue::from_decimal_str("").is_none());
}

#[test]
fn rejects_two_points() {
    assert!(GaugeValue::from_decimal_str("1.2.3").is_none());
}

#[test]
fn rejects_leading_point() {
    assert!(GaugeValue::from_decimal_str(".5").is_none());
}

#[test]
fn rejects_trailing_point() {
    assert!(GaugeValue::from_decimal_str("5.").is_none());
}

#[test]
fn rejects_letters() {
    assert!(GaugeValue::from_decimal_str("abc").is_none());
    assert!(GaugeValue::from_decimal_str("12x5").is_none());
    assert!(GaugeValue::from_decimal_str("-1").is_none());
}

#[test]
fn rejects_too_many_fraction_digits() {
    assert!(GaugeValue::from_decimal_str("0.00000000000000000001").is_none());
}

#[test]
fn rejects_mantissa_beyond_u64() {
    assert!(GaugeValue::from_decimal_str("18446744073709551616").is_none());
    assert_eq!(
        GaugeValue::from_decimal_str("18446744073709551615").unwrap(),
        GaugeValue { mantissa: u64::MAX, scale: 0 }
    );
}

#[test]
fn accepts_float_display_output() {
    let x: f64 = 12.5;
    let text = format!("{}", x);
    let v = GaugeValue::from_decimal_str(&text).unwrap();
    assert_eq!(v, GaugeValue { mantissa: 125, scale: 1 });
}

#[test]
fn renders_padded_fractions_through_the_registry() {
    let mut registry = setup_metrics_registry();
    registry
        .declare(String::from("coeff"), String::from("a coefficient"), Vec::new())
        .unwrap();
    registry.set("coeff", Vec::new(), GaugeValue { mantissa: 5, scale: 2 });
    assert!(registry.render().contains("\ncoeff 0.05\n"));
    registry.set("coeff", Vec::new(), GaugeValue { mantissa: 12345, scale: 3 });
    assert!(registry.render().contains("\ncoeff 12.345\n"));
}
