use blink::{Color, FontSize, Fraction, ParseError, WindowSize};

fn frac(negative: bool, mantissa: u64, scale: u32) -> Fraction {
    Fraction { negative, mantissa, scale }
}

#[test]
fn color_with_alpha() {
    let c = Color::parse("#35313bee").unwrap();
    assert_eq!(c, Color { red: 0x35, green: 0x31, blue: 0x3b, alpha: 0xee });
}

#[test]
fn color_without_alpha_is_opaque() {
    let c = Color::parse("#f8f8f2").unwrap();
    assert_eq!(c, Color { red: 0xf8, green: 0xf8, blue: 0xf2, alpha: 0xff });
}

#[test]
fn color_without_hash_and_upper_case() {
    let c = Color::parse("ABCDEF01").unwrap();
    assert_eq!(c, Color { red: 0xab, green: 0xcd, blue: 0xef, alpha: 0x01 });
}

#[test]
fn color_wrong_lengths_rejected() {
    for s in ["", "#", "#12345", "#1234567", "#123456789", "##123456"] {
        assert_eq!(Color::parse(s), Err(ParseError::MalformedColor), "{}", s);
    }
}

#[test]
fn color_non_hex_rejected() {
    for s in ["#gg0000", "#12345z", "#+f+f+f", "#12 456", "#12é45"] {
        assert_eq!(Color::parse(s), Err(ParseError::MalformedColor), "{}", s);
    }
}

#[test]
fn color_from_str_gives_message() {
    let r: Result<Color, String> = "#xyz".parse();
    assert_eq!(r, Err("Expected format: #RRGGBB or #RRGGBBAA".to_string()));
    let ok: Color = "#000000".parse().unwrap();
    assert_eq!(ok.alpha, 0xff);
}

#[test]
fn font_size_parses() {
    assert_eq!(FontSize::parse("18px"), Ok(FontSize(18)));
    assert_eq!(FontSize::parse("0px"), Ok(FontSize(0)));
    assert_eq!(FontSize::parse("+7px"), Ok(FontSize(7)));
    assert_eq!(FontSize::parse("4294967295px"), Ok(FontSize(4294967295)));
}

#[test]
fn font_size_rejections() {
    for s in ["18", "px", "-1px", "1.5px", "4294967296px", "18pxpx", "a18px", " 18px", "18 px"] {
        assert_eq!(FontSize::parse(s), Err(ParseError::MalformedFontSize), "{}", s);
    }
    let r: Result<FontSize, String> = "24".parse();
    assert_eq!(r, Err("Expected format: <size>px".to_string()));
}

#[test]
fn window_size_pixels() {
    assert_eq!(WindowSize::parse("800px,80px"), Ok(WindowSize::Pixels(800, 80)));
    assert_eq!(WindowSize::parse("960px,300px"), Ok(WindowSize::Pixels(960, 300)));
    assert_eq!(WindowSize::parse("0px,+5px"), Ok(WindowSize::Pixels(0, 5)));
}

#[test]
fn window_size_first_part_decides_units() {
    assert_eq!(WindowSize::parse("100px,50"), Ok(WindowSize::Pixels(100, 50)));
    assert_eq!(WindowSize::parse("0.5,100px"), Err(ParseError::MalformedDimension));
}

#[test]
fn window_size_percent() {
    assert_eq!(
        WindowSize::parse("0.66,0.066"),
        Ok(WindowSize::Percent(frac(false, 66, 2), frac(false, 66, 3)))
    );
    assert_eq!(
        WindowSize::parse("0.5,0.33"),
        Ok(WindowSize::Percent(frac(false, 5, 1), frac(false, 33, 2)))
    );
    assert_eq!(
        WindowSize::parse("-.5,1."),
        Ok(WindowSize::Percent(frac(true, 5, 1), frac(false, 1, 0)))
    );
    assert_eq!(
        WindowSize::parse("+1,0"),
        Ok(WindowSize::Percent(frac(false, 1, 0), frac(false, 0, 0)))
    );
}

#[test]
fn window_size_rejections() {
    for s in [
        "", "1", "1,2,3", ",", "0.5,", "a,b", ".,1", "1..2,1", "1.2.3,1", "px,1px",
        "1px,-1px", "0.5 ,0.5", "0.1234567890123456789,1", "99999999999999999999,1", "1e3,1",
    ] {
        assert_eq!(WindowSize::parse(s), Err(ParseError::MalformedDimension), "{}", s);
    }
}

#[test]
fn window_size_limits() {
    assert_eq!(
        WindowSize::parse("0.123456789012345678,18446744073709551615"),
        Ok(WindowSize::Percent(
            frac(false, 123456789012345678, 18),
            frac(false, 18446744073709551615, 0)
        ))
    );
    let r: Result<WindowSize, String> = "1;2".parse();
    assert_eq!(r, Err("Expected format: <width>,<height>".to_string()));
}

#[test]
fn parse_error_messages() {
    assert_eq!(ParseError::MalformedDimension.message(), "Expected format: <width>,<height>");
    assert_eq!(ParseError::MalformedColor.message(), "Expected format: #RRGGBB or #RRGGBBAA");
    assert_eq!(ParseError::MalformedFontSize.message(), "Expected format: <size>px");
}

#[test]
fn from_str_matches_parse() {
    let w: WindowSize = "800px,80px".parse().unwrap();
    assert_eq!(w, WindowSize::Pixels(800, 80));
    let p: WindowSize = "0.5,0.33".parse().unwrap();
    assert_eq!(p, WindowSize::Percent(frac(false, 5, 1), frac(false, 33, 2)));
    let f: FontSize = "24px".parse().unwrap();
    assert_eq!(f, FontSize(24));
    let c: Color = "#35313bee".parse().unwrap();
    assert_eq!(c, Color { red: 0x35, green: 0x31, blue: 0x3b, alpha: 0xee });
    for s in ["1,2,3", "800px", "", "1e-1,0.5"] {
        let r: Result<WindowSize, String> = s.parse();
        assert_eq!(r, Err("Expected format: <width>,<height>".to_string()), "{}", s);
    }
}
