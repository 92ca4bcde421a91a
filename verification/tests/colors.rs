use gui_core::math::colors::{color_u32_to_color_u8, NumColorComponent, RGBAColor, TColorRGBA};
use gui_core::types;

#[test]
fn test_conversion_from_html() {
    assert_eq!(
        RGBAColor::from_html("7fdc34"),
        Ok(RGBAColor::new_with_alpha(127, 220, 52, 255))
    );

    assert_eq!(
        RGBAColor::from_html("#7fdc34"),
        Ok(RGBAColor::new_with_alpha(127, 220, 52, 255))
    );

    assert_eq!(
        RGBAColor::from_html("0f499fff"),
        Ok(RGBAColor::new_with_alpha(15, 73, 159, 255))
    );

    assert_eq!(
        RGBAColor::from_html("#0f499fff"),
        Ok(RGBAColor::new_with_alpha(15, 73, 159, 255))
    );

    assert_eq!(RGBAColor::from_html("invalid str").is_ok(), false);
}

#[test]
fn test_conversion_from_slice() {
    let clr = [255u8, 0u8, 128u8, 255u8];
    assert_eq!(
        RGBAColor::from(clr),
        RGBAColor::new_with_alpha(255, 0, 128, 255)
    );

    let c: u32 = RGBAColor::new(0, 51, 153).into();
    assert_eq!(c, 0x003399ff);
}

#[test]
fn test_rgba() {
    let clr = types::RGBAColor::new(255, 64, 128, 255);
    let s = clr.as_slice();
    assert_eq!(clr.r, s[0]);
    assert_eq!(clr.g, s[1]);
    assert_eq!(clr.b, s[2]);
    assert_eq!(clr.a, s[3]);
}

#[test]
fn from_html_trims_white_space() {
    assert_eq!(
        RGBAColor::from_html("  \t#7FDC34\n"),
        Ok(RGBAColor::new_with_alpha(127, 220, 52, 255))
    );
    assert_eq!(
        RGBAColor::from_html("\u{a0}0f499f80\u{3000}"),
        Ok(RGBAColor::new_with_alpha(15, 73, 159, 128))
    );
}

#[test]
fn from_html_errors() {
    assert_eq!(RGBAColor::from_html(""), Err("empty input string"));
    assert_eq!(RGBAColor::from_html("   "), Err("empty input string"));
    assert_eq!(
        RGBAColor::from_html("#12345"),
        Err("wrong component count (either 6 or 8 hex color values expected)")
    );
    assert_eq!(
        RGBAColor::from_html("1234567"),
        Err("wrong component count (either 6 or 8 hex color values expected)")
    );
    assert_eq!(RGBAColor::from_html("12345g"), Err("Invalid color value"));
    assert_eq!(RGBAColor::from_html("#-12345"), Err("Invalid color value"));
    assert_eq!(RGBAColor::from_html("+"), Err("wrong component count (either 6 or 8 hex color values expected)"));
}

#[test]
fn from_html_accepts_a_plus_sign_as_from_str_radix_does() {
    assert_eq!(
        RGBAColor::from_html("+12345"),
        Ok(RGBAColor::new_with_alpha(0x01, 0x23, 0x45, 255))
    );
}

#[test]
fn html_value_packs_back() {
    let c = RGBAColor::from_html("#a1b2c3d4").unwrap();
    let v: u32 = c.into();
    assert_eq!(v, 0xa1b2c3d4);
    let c = RGBAColor::from_html("a1b2c3").unwrap();
    let v: u32 = c.into();
    assert_eq!(v, 0xa1b2c3ff);
}

#[test]
fn color_constructors() {
    assert_eq!(RGBAColor::new(1, 2, 3), RGBAColor::new_with_alpha(1, 2, 3, 255));
    assert_eq!(RGBAColor::default(), RGBAColor::new_with_alpha(0, 0, 0, 0));
    assert_eq!(RGBAColor::from((1u8, 2u8, 3u8)), RGBAColor::new_with_alpha(1, 2, 3, 255));
    assert_eq!(RGBAColor::from((1u8, 2u8, 3u8, 4u8)), RGBAColor::new_with_alpha(1, 2, 3, 4));
    assert_eq!(RGBAColor::from([5u8, 6, 7]), RGBAColor::new_with_alpha(5, 6, 7, 255));
    assert_eq!(RGBAColor::new_with_alpha(9, 8, 7, 6).as_slice(), [9, 8, 7, 6]);
    assert_eq!(<u8 as NumColorComponent>::alpha_max(), 255);
    assert_eq!(<u8 as NumColorComponent>::from_u32(0x01020304), (1, 2, 3, 4));
    let t: TColorRGBA<u8> = TColorRGBA { r: 1, g: 1, b: 1, a: 1 };
    assert_eq!(t, RGBAColor::new_with_alpha(1, 1, 1, 1));
}

#[test]
fn rgba_color_to_u32_puts_red_lowest() {
    let c = types::RGBAColor::new(0x11, 0x22, 0x33, 0x44);
    assert_eq!(types::rgba_color_to_u32(c), 0x44332211);
    let c = types::RGBAColor::from_slice(&[1, 2, 3, 4]);
    assert_eq!(c.as_slice(), [1, 2, 3, 4]);
}

#[test]
fn packed_colour_round_trip() {
    let c = 0x12345678u32;
    let (r, g, b, a) = color_u32_to_color_u8(c);
    assert_eq!((r, g, b, a), (0x12, 0x34, 0x56, 0x78));
    assert_eq!(u32::from(RGBAColor::new_with_alpha(r, g, b, a)), c);
    let k = RGBAColor::new_with_alpha(1, 2, 3, 4);
    assert_eq!(color_u32_to_color_u8(u32::from(k)), (1, 2, 3, 4));
}
