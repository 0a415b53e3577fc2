use std::collections::hash_map::DefaultHasher;
use std::hash::{Hash, Hasher};
use stitch_pty::terminal::graphics::{
    BG_256, Color, FG_256, TextAttr, bg_aixterm, bg_ansi, fg_aixterm, fg_ansi, fg_bg_256,
    text_attr,
};

#[test]
fn test_text_attr_setters() {
    assert_eq!(text_attr(1), Some(TextAttr::SetBold));
    assert_eq!(text_attr(3), Some(TextAttr::SetItalics));
    assert_eq!(text_attr(4), Some(TextAttr::SetUnderline));
    assert_eq!(text_attr(5), Some(TextAttr::SetBlink));
    assert_eq!(text_attr(7), Some(TextAttr::SetReverse));
    assert_eq!(text_attr(9), Some(TextAttr::SetStrikethrough));
}

#[test]
fn test_text_attr_resetters() {
    assert_eq!(text_attr(22), Some(TextAttr::ResetBold));
    assert_eq!(text_attr(23), Some(TextAttr::ResetItalics));
    assert_eq!(text_attr(24), Some(TextAttr::ResetUnderline));
    assert_eq!(text_attr(25), Some(TextAttr::ResetBlink));
    assert_eq!(text_attr(27), Some(TextAttr::ResetReverse));
    assert_eq!(text_attr(29), Some(TextAttr::ResetStrikethrough));
}

#[test]
fn test_text_attr_unknown() {
    assert_eq!(text_attr(0), None);
    assert_eq!(text_attr(2), None);
    assert_eq!(text_attr(6), None);
    assert_eq!(text_attr(8), None);
    assert_eq!(text_attr(10), None);
    assert_eq!(text_attr(-1), None);
    assert_eq!(text_attr(100), None);
}

#[test]
fn test_text_attr_is_set() {
    assert!(TextAttr::SetBold.is_set());
    assert!(TextAttr::SetItalics.is_set());
    assert!(TextAttr::SetUnderline.is_set());
    assert!(TextAttr::SetBlink.is_set());
    assert!(TextAttr::SetReverse.is_set());
    assert!(TextAttr::SetStrikethrough.is_set());
}

#[test]
fn test_text_attr_is_reset() {
    assert!(!TextAttr::ResetBold.is_set());
    assert!(!TextAttr::ResetItalics.is_set());
    assert!(!TextAttr::ResetUnderline.is_set());
    assert!(!TextAttr::ResetBlink.is_set());
    assert!(!TextAttr::ResetReverse.is_set());
    assert!(!TextAttr::ResetStrikethrough.is_set());
}

#[test]
fn test_fg_ansi() {
    assert_eq!(fg_ansi(30), Some("black"));
    assert_eq!(fg_ansi(31), Some("red"));
    assert_eq!(fg_ansi(32), Some("green"));
    assert_eq!(fg_ansi(33), Some("brown"));
    assert_eq!(fg_ansi(34), Some("blue"));
    assert_eq!(fg_ansi(35), Some("magenta"));
    assert_eq!(fg_ansi(36), Some("cyan"));
    assert_eq!(fg_ansi(37), Some("white"));
    assert_eq!(fg_ansi(39), Some("default"));
}

#[test]
fn test_fg_ansi_unknown() {
    assert_eq!(fg_ansi(0), None);
    assert_eq!(fg_ansi(1), None);
    assert_eq!(fg_ansi(29), None);
    assert_eq!(fg_ansi(40), None);
    assert_eq!(fg_ansi(100), None);
}

#[test]
fn test_fg_aixterm() {
    assert_eq!(fg_aixterm(90), Some("brightblack"));
    assert_eq!(fg_aixterm(91), Some("brightred"));
    assert_eq!(fg_aixterm(92), Some("brightgreen"));
    assert_eq!(fg_aixterm(93), Some("brightbrown"));
    assert_eq!(fg_aixterm(94), Some("brightblue"));
    assert_eq!(fg_aixterm(95), Some("brightmagenta"));
    assert_eq!(fg_aixterm(96), Some("brightcyan"));
    assert_eq!(fg_aixterm(97), Some("brightwhite"));
}

#[test]
fn test_fg_aixterm_unknown() {
    assert_eq!(fg_aixterm(30), None);
    assert_eq!(fg_aixterm(0), None);
    assert_eq!(fg_aixterm(99), None);
}

#[test]
fn test_bg_ansi() {
    assert_eq!(bg_ansi(40), Some("black"));
    assert_eq!(bg_ansi(41), Some("red"));
    assert_eq!(bg_ansi(42), Some("green"));
    assert_eq!(bg_ansi(43), Some("brown"));
    assert_eq!(bg_ansi(44), Some("blue"));
    assert_eq!(bg_ansi(45), Some("magenta"));
    assert_eq!(bg_ansi(46), Some("cyan"));
    assert_eq!(bg_ansi(47), Some("white"));
    assert_eq!(bg_ansi(49), Some("default"));
}

#[test]
fn test_bg_ansi_unknown() {
    assert_eq!(bg_ansi(0), None);
    assert_eq!(bg_ansi(30), None);
    assert_eq!(bg_ansi(100), None);
}

#[test]
fn test_bg_aixterm() {
    assert_eq!(bg_aixterm(100), Some("brightblack"));
    assert_eq!(bg_aixterm(101), Some("brightred"));
    assert_eq!(bg_aixterm(102), Some("brightgreen"));
    assert_eq!(bg_aixterm(103), Some("brightbrown"));
    assert_eq!(bg_aixterm(104), Some("brightblue"));
    assert_eq!(bg_aixterm(105), Some("brightmagenta"));
    assert_eq!(bg_aixterm(106), Some("brightcyan"));
    assert_eq!(bg_aixterm(107), Some("brightwhite"));
}

#[test]
fn test_bg_aixterm_unknown() {
    assert_eq!(bg_aixterm(40), None);
    assert_eq!(bg_aixterm(0), None);
    assert_eq!(bg_aixterm(108), None);
}

#[test]
fn test_fg_bg_256_constants() {
    assert_eq!(FG_256, 38);
    assert_eq!(BG_256, 48);
}

#[test]
fn test_fg_bg_256_palette() {
    let palette = fg_bg_256();
    assert_eq!(palette.len(), 256);
    assert_eq!(palette[0], "000000");
    assert_eq!(palette[1], "cd0000");
    assert_eq!(palette[7], "e5e5e5");
    assert_eq!(palette[8], "7f7f7f");
    assert_eq!(palette[15], "ffffff");
}

#[test]
fn test_color_default() {
    let c = Color::default();
    assert!(c.is_default());
}

#[test]
fn test_color_named() {
    let c = Color::Named("red");
    assert!(!c.is_default());
}

#[test]
fn test_color_indexed() {
    let c = Color::Indexed(42);
    assert!(!c.is_default());
}

#[test]
fn test_color_rgb() {
    let c = Color::Rgb("ff0000".to_string());
    assert!(!c.is_default());
}

#[test]
fn test_color_equality() {
    let c1 = Color::Named("red");
    let c2 = Color::Named("red");
    let c3 = Color::Named("blue");
    assert_eq!(c1, c2);
    assert_ne!(c1, c3);
}

#[test]
fn test_color_hash() {
    let c1 = Color::Named("red");
    let c2 = Color::Named("red");
    let mut h1: Box<dyn Hasher> = Box::new(DefaultHasher::new());
    let mut h2: Box<dyn Hasher> = Box::new(DefaultHasher::new());
    c1.hash(&mut h1);
    c2.hash(&mut h2);
    assert_eq!(c1, c2);
}

#[test]
fn test_text_attr_debug() {
    let attr = TextAttr::SetBold;
    let s = format!("{:?}", attr);
    assert!(s.contains("SetBold"));
}

#[test]
fn test_color_clone() {
    let c1 = Color::Rgb("ff0000".to_string());
    let c2 = c1.clone();
    assert_eq!(c1, c2);
}

#[test]
fn test_text_attr_clone() {
    let a1 = TextAttr::SetBold;
    let a2 = a1.clone();
    assert_eq!(a1, a2);
}
