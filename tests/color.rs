use wasm_svg_graphics::color::{black, white, Color, TransparentableColor};

#[test]
fn test_from_hex() {
    let color_option = Color::from_hex("f7ebec");

    match color_option {
        Some(color) => assert_eq!(color.rgb(), (247, 235, 236)),
        None => assert!(false),
    }

    let color_option = Color::from_hex("#f7ebec");

    match color_option {
        Some(color) => assert_eq!(color.rgb(), (247, 235, 236)),
        None => assert!(false),
    }

    let color_option = Color::from_hex("000000");

    match color_option {
        Some(color) => assert_eq!(color.rgb(), (0, 0, 0)),
        None => assert!(false),
    }

    let color_option = Color::from_hex("ffffff");

    match color_option {
        Some(color) => assert_eq!(color.rgb(), (255, 255, 255)),
        None => assert!(false),
    }

    let color_option = Color::from_hex("a");
    assert_eq!(color_option, None);

    let color_option = Color::from_hex("abcdefg");
    assert_eq!(color_option, None);

    let color_option = Color::from_hex("abcdefgh");
    assert_eq!(color_option, None);

    let color_option = Color::from_hex("#bcdefgh");
    assert_eq!(color_option, None);

    let color_option = Color::from_hex("#12345z");
    assert_eq!(color_option, None);

    let color_option = Color::from_hex("#123z56");
    assert_eq!(color_option, None);

    let color_option = Color::from_hex("#1z3456");
    assert_eq!(color_option, None);
}

#[test]
fn test_to_rgb_string() {
    let color = Color::new(247, 235, 236);
    assert_eq!(color.to_rgb_string(), "rgb(247, 235, 236)");

    let color = Color::new(0, 0, 0);
    assert_eq!(color.to_rgb_string(), "rgb(0, 0, 0)");

    let color = Color::new(255, 255, 255);
    assert_eq!(color.to_rgb_string(), "rgb(255, 255, 255)");
}

#[test]
fn test_to_hex_string() {
    let color = Color::new(247, 235, 236);
    assert_eq!(color.to_hex_string(), "#f7ebec");

    let color = Color::new(0, 0, 0);
    assert_eq!(color.to_hex_string(), "#000000");

    let color = Color::new(255, 255, 255);
    assert_eq!(color.to_hex_string(), "#ffffff");
}

#[test]
fn test_eq() {
    let color1 = Color::new(247, 235, 236);
    assert_eq!(color1, color1);
    let color2 = Color::new(247, 235, 236);
    assert_eq!(color1, color2);

    let color1 = Color::new(0, 0, 0);
    assert_ne!(color1, color2);
}

#[test]
fn from_hex_reads_upper_case_and_signed_pairs() {
    assert_eq!(Color::from_hex("#ABCDEF").map(|c| c.rgb()), Some((171, 205, 239)));
    assert_eq!(Color::from_hex("+f+f+f").map(|c| c.rgb()), Some((15, 15, 15)));
    assert_eq!(Color::from_hex("-f0000"), None);
    assert_eq!(Color::from_hex("x123456"), None);
    assert_eq!(Color::from_hex(""), None);
    assert_eq!(Color::from_hex("a\u{e9}1234"), None);
}

#[test]
fn channel_accessors_agree() {
    let c = Color::new(172, 159, 187);
    assert_eq!((c.r(), c.g(), c.b()), (172, 159, 187));
    assert_eq!((c.red(), c.green(), c.blue()), (172, 159, 187));
    assert_eq!(c.to_hex_string(), "#ac9fbb");
    assert_eq!(c.to_rgb_string(), "rgb(172, 159, 187)");
}

#[test]
fn black_and_white() {
    assert_eq!(black().rgb(), (0, 0, 0));
    assert_eq!(white().rgb(), (255, 255, 255));
}

#[test]
fn paint_text() {
    assert_eq!(TransparentableColor::Color(Color::new(1, 2, 3)).to_string(), "#010203");
    assert_eq!(TransparentableColor::Transparent.to_string(), "transparent");
    assert_eq!(TransparentableColor::Transparent, TransparentableColor::Transparent);
    assert_ne!(TransparentableColor::Color(black()), TransparentableColor::Transparent);
}
