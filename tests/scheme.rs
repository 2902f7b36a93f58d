use terminal_colorsaurus::{color_scheme, ColorScheme, Lightness, QueryOptions};

fn lightness(value: f32) -> Lightness {
    Lightness::from_bits(value.to_bits()).unwrap()
}

#[test]
fn classifier_examples() {
    // White text on black, black text on white.
    assert_eq!(color_scheme(lightness(1.0), lightness(0.0)), ColorScheme::Dark);
    assert_eq!(color_scheme(lightness(0.0), lightness(1.0)), ColorScheme::Light);
    // Equal lightness: dark up to middle gray, light above it.
    assert_eq!(color_scheme(lightness(0.14), lightness(0.14)), ColorScheme::Dark);
    assert_eq!(color_scheme(lightness(0.5), lightness(0.5)), ColorScheme::Dark);
    assert_eq!(color_scheme(lightness(0.94), lightness(0.94)), ColorScheme::Light);
}

#[test]
fn classifier_follows_the_brighter_side() {
    assert_eq!(color_scheme(lightness(0.3), lightness(0.2)), ColorScheme::Dark);
    assert_eq!(color_scheme(lightness(0.9), lightness(0.8)), ColorScheme::Dark);
    assert_eq!(color_scheme(lightness(0.2), lightness(0.3)), ColorScheme::Light);
    assert_eq!(color_scheme(lightness(0.8), lightness(0.9)), ColorScheme::Light);
}

#[test]
fn lightness_outside_the_unit_range_is_refused() {
    assert!(Lightness::from_bits(1.5f32.to_bits()).is_none());
    assert!(Lightness::from_bits((-0.5f32).to_bits()).is_none());
    assert!(Lightness::from_bits(f32::NAN.to_bits()).is_none());
    assert_eq!(Lightness::from_bits(0.5f32.to_bits()).unwrap().bits, 0x3f00_0000);
}

#[test]
fn default_timeout_is_one_second() {
    assert_eq!(QueryOptions::default().timeout, std::time::Duration::from_secs(1));
}
