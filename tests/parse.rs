use terminal_colorsaurus::xparsecolor::xparsecolor;
use terminal_colorsaurus::Color;

#[test]
fn lib_parses_valid_rgb_color() {
    assert_eq!(
        Color::parse(b"rgb:f/e/d").unwrap(),
        Color {
            red: 0xffff,
            green: 0xeeee,
            blue: 0xdddd,
            alpha: u16::MAX,
        }
    );
    assert_eq!(
        Color::parse(b"rgb:11/aa/ff").unwrap(),
        Color {
            red: 0x1111,
            green: 0xaaaa,
            blue: 0xffff,
            alpha: u16::MAX,
        }
    );
    assert_eq!(
        Color::parse(b"rgb:f/ed1/cb23").unwrap(),
        Color {
            red: 0xffff,
            green: 0xed1d,
            blue: 0xcb23,
            alpha: u16::MAX,
        }
    );
    assert_eq!(
        Color::parse(b"rgb:ffff/0/0").unwrap(),
        Color {
            red: 0xffff,
            green: 0x0,
            blue: 0x0,
            alpha: u16::MAX,
        }
    );
}

#[test]
fn parses_valid_rgba_color() {
    assert_eq!(
        Color::parse(b"rgba:0000/0000/4443/cccc").unwrap(),
        Color {
            red: 0x0000,
            green: 0x0000,
            blue: 0x4443,
            alpha: 0xcccc,
        }
    );
}

#[test]
fn lib_fails_for_invalid_rgb_color() {
    assert!(Color::parse(b"rgb:").is_err()); // Empty
    assert!(Color::parse(b"rgb:f/f").is_err()); // Not enough channels
    assert!(Color::parse(b"rgb:f/f/f/f").is_err()); // Too many channels
    assert!(Color::parse(b"rgb:f//f").is_err()); // Empty channel
    assert!(Color::parse(b"rgb:ffff/ffff/fffff").is_err()); // Too many digits for one channel
}

#[test]
fn lib_parses_valid_sharp_color() {
    assert_eq!(Color::parse(b"#1af").unwrap(), Color::rgb(0x1000, 0xa000, 0xf000));
    assert_eq!(Color::parse(b"#1AF").unwrap(), Color::rgb(0x1000, 0xa000, 0xf000));
    assert_eq!(Color::parse(b"#11aaff").unwrap(), Color::rgb(0x1100, 0xaa00, 0xff00));
    assert_eq!(Color::parse(b"#110aa0ff0").unwrap(), Color::rgb(0x1100, 0xaa00, 0xff00));
    assert_eq!(Color::parse(b"#1100aa00ff00").unwrap(), Color::rgb(0x1100, 0xaa00, 0xff00));
    assert_eq!(Color::parse(b"#123456789ABC").unwrap(), Color::rgb(0x1234, 0x5678, 0x9ABC));
}

#[test]
fn lib_fails_for_invalid_sharp_color() {
    assert!(Color::parse(b"#").is_err()); // Empty
    assert!(Color::parse(b"#1234").is_err()); // Not divisible by three
    assert!(Color::parse(b"#123456789ABCDEF").is_err()); // Too many components
}

#[test]
fn xparsecolor_parses_valid_rgb_color() {
    assert_eq!(xparsecolor(b"rgb:f/e/d"), Some(Color::rgb(0xffff, 0xeeee, 0xdddd)));
    assert_eq!(xparsecolor(b"rgb:11/aa/ff"), Some(Color::rgb(0x1111, 0xaaaa, 0xffff)));
    assert_eq!(xparsecolor(b"rgb:f/ed1/cb23"), Some(Color::rgb(0xffff, 0xed1d, 0xcb23)));
    assert_eq!(xparsecolor(b"rgb:ffff/0/0"), Some(Color::rgb(0xffff, 0x0, 0x0)));
}

#[test]
fn xparsecolor_fails_for_invalid_rgb_color() {
    assert!(xparsecolor(b"rgb:").is_none()); // Empty
    assert!(xparsecolor(b"rgb:f/f").is_none()); // Not enough channels
    assert!(xparsecolor(b"rgb:f/f/f/f").is_none()); // Too many channels
    assert!(xparsecolor(b"rgb:f//f").is_none()); // Empty channel
    assert!(xparsecolor(b"rgb:ffff/ffff/fffff").is_none()); // Too many digits for one channel
}

#[test]
fn xparsecolor_parses_valid_sharp_color() {
    assert_eq!(xparsecolor(b"#1af"), Some(Color::rgb(0x1000, 0xa000, 0xf000)));
    assert_eq!(xparsecolor(b"#1AF"), Some(Color::rgb(0x1000, 0xa000, 0xf000)));
    assert_eq!(xparsecolor(b"#11aaff"), Some(Color::rgb(0x1100, 0xaa00, 0xff00)));
    assert_eq!(xparsecolor(b"#110aa0ff0"), Some(Color::rgb(0x1100, 0xaa00, 0xff00)));
    assert_eq!(xparsecolor(b"#1100aa00ff00"), Some(Color::rgb(0x1100, 0xaa00, 0xff00)));
    assert_eq!(xparsecolor(b"#123456789ABC"), Some(Color::rgb(0x1234, 0x5678, 0x9ABC)));
}

#[test]
fn xparsecolor_fails_for_invalid_sharp_color() {
    assert!(xparsecolor(b"#").is_none()); // Empty
    assert!(xparsecolor(b"#1234").is_none()); // Not divisible by three
    assert!(xparsecolor(b"#123456789ABCDEF").is_none()); // Too many components
}

#[test]
fn sharp_shifts_and_rgb_scales() {
    assert_eq!(Color::parse(b"#3a7").unwrap(), Color::rgb(0x3000, 0xa000, 0x7000));
    assert_eq!(Color::parse(b"rgb:3/a/7").unwrap(), Color::rgb(0x3333, 0xaaaa, 0x7777));
}

#[test]
fn four_digit_channels_round_trip() {
    for (r, g, b) in [(0u16, 0u16, 0u16), (0xffff, 0x1234, 0xabcd), (0xdcaa, 0xdcab, 0x0001)] {
        let text = format!("rgb:{r:04x}/{g:04x}/{b:04x}");
        assert_eq!(Color::parse(text.as_bytes()).unwrap(), Color::rgb(r, g, b));
    }
}

#[test]
fn rejects_other_prefixes_and_signs() {
    assert!(Color::parse(b"").is_err());
    assert!(Color::parse(b"rgbi:1/1/1").is_err());
    assert!(Color::parse(b"RGB:f/f/f").is_err());
    assert!(Color::parse(b"rgb:+f/f/f").is_err());
    assert!(Color::parse(b"rgb:g/f/f").is_err());
    assert!(Color::parse(b"rgba:f/f/f").is_err());
    assert!(Color::parse(b"rgba:f/f/f/f/f").is_err());
    assert!(Color::parse(b"#12g").is_err());
}

#[test]
fn scales_three_digit_and_mixed_case_channels() {
    assert_eq!(Color::parse(b"rgb:FfF/000/800").unwrap(), Color::rgb(0xffff, 0, 0x8007));
    assert_eq!(
        Color::parse(b"rgba:1/22/333/4444").unwrap(),
        Color { red: 0x1111, green: 0x2222, blue: 0x3333, alpha: 0x4444 }
    );
}

#[test]
fn scales_to_8bit() {
    assert_eq!(Color::rgb(u16::MAX, u16::MAX, u16::MAX).scale_to_8bit(), (255, 255, 255));
    assert_eq!(Color::rgb(0, 0, 0).scale_to_8bit(), (0, 0, 0));
    assert_eq!(Color::rgb(0x8080, 0x0101, 0x7fff).scale_to_8bit(), (128, 1, 127));
    assert_eq!(terminal_colorsaurus::scale_to_u8(0x00ff), 0);
}

#[test]
fn converts_to_and_from_rgb() {
    let color = Color::rgb(0x8080, 0x0101, 0xffff);
    let wide: rgb::RGB16 = color.into();
    assert_eq!(wide, rgb::RGB16 { r: 0x8080, g: 0x0101, b: 0xffff });
    let narrow: rgb::RGB8 = color.into();
    assert_eq!(narrow, rgb::RGB8 { r: 128, g: 1, b: 255 });
    let back: Color = rgb::RGB16 { r: 1, g: 2, b: 3 }.into();
    assert_eq!(back, Color::rgb(1, 2, 3));
}

#[test]
fn converts_to_anstyle() {
    let color: anstyle::RgbColor = Color::rgb(0xffff, 0x8080, 0).into();
    assert_eq!(color, anstyle::RgbColor(255, 128, 0));
}
