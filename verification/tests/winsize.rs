use stitch_pty::winsize::{or_console_default, Winsize};

#[test]
fn test_winsize_new() {
    let ws = Winsize::new(24, 80, 0, 0);
    assert_eq!(ws.rows, 24);
    assert_eq!(ws.cols, 80);
    assert_eq!(ws.xpixel, 0);
    assert_eq!(ws.ypixel, 0);
}

#[test]
fn test_winsize_default() {
    let ws = Winsize::default();
    assert_eq!(ws.rows, 0);
    assert_eq!(ws.cols, 0);
    assert_eq!(ws.xpixel, 0);
    assert_eq!(ws.ypixel, 0);
}

#[test]
fn test_winsize_equality_equal() {
    let ws1 = Winsize::new(24, 80, 100, 200);
    let ws2 = Winsize::new(24, 80, 100, 200);
    assert_eq!(ws1, ws2);
}

#[test]
fn test_winsize_equality_different_rows() {
    let ws1 = Winsize::new(24, 80, 0, 0);
    let ws2 = Winsize::new(25, 80, 0, 0);
    assert_ne!(ws1, ws2);
}

#[test]
fn test_winsize_equality_different_cols() {
    let ws1 = Winsize::new(24, 80, 0, 0);
    let ws2 = Winsize::new(24, 120, 0, 0);
    assert_ne!(ws1, ws2);
}

#[test]
fn test_winsize_equality_different_pixels() {
    let ws1 = Winsize::new(24, 80, 100, 200);
    let ws2 = Winsize::new(24, 80, 200, 300);
    assert_ne!(ws1, ws2);
}

#[test]
fn test_winsize_repr() {
    let ws = Winsize::new(24, 80, 100, 200);
    let repr = ws.__repr__();
    assert!(repr.contains("rows=24"));
    assert!(repr.contains("cols=80"));
    assert!(repr.contains("xpixel=100"));
    assert!(repr.contains("ypixel=200"));
}

#[test]
fn test_winsize_repr_default() {
    let ws = Winsize::default();
    let repr = ws.__repr__();
    assert!(repr.contains("rows=0"));
    assert!(repr.contains("cols=0"));
}

#[test]
fn test_winsize_clone() {
    let ws1 = Winsize::new(24, 80, 100, 200);
    let ws2 = ws1.clone();
    assert_eq!(ws1, ws2);
}

#[test]
fn test_winsize_debug() {
    let ws = Winsize::new(24, 80, 0, 0);
    let debug = format!("{:?}", ws);
    assert!(debug.contains("Winsize"));
    assert!(debug.contains("24"));
    assert!(debug.contains("80"));
}

#[test]
fn test_winsize_max_values() {
    let ws = Winsize::new(u16::MAX, u16::MAX, u16::MAX, u16::MAX);
    assert_eq!(ws.rows, u16::MAX);
    assert_eq!(ws.cols, u16::MAX);
}

#[test]
fn test_winsize_copy_trait() {
    let ws1 = Winsize::new(24, 80, 0, 0);
    let ws2 = ws1;
    let ws3 = ws1;
    assert_eq!(ws1, ws2);
    assert_eq!(ws2, ws3);
}

#[test]
fn test_winsize_from_py_object_default() {
    let ws = Winsize::default();
    assert_eq!(ws.rows, 0);
    assert_eq!(ws.cols, 0);
}

#[test]
fn a_size_is_shown_whole() {
    let ws = Winsize::new(24, 80, 100, 200);
    assert_eq!(ws.__repr__(), "Winsize(rows=24, cols=80, xpixel=100, ypixel=200)");
    assert!(ws.__eq__(&Winsize::new(24, 80, 100, 200)));
    assert!(!ws.__eq__(&Winsize::new(24, 80, 100, 201)));
}

#[test]
fn a_console_coordinate_has_a_sign() {
    assert_eq!(Winsize::new(24, 80, 0, 0).coord(), (80, 24));
    assert_eq!(Winsize::new(0x8000, u16::MAX, 0, 0).coord(), (-1, i16::MIN));
}

#[test]
fn a_console_has_a_default_size() {
    assert_eq!(or_console_default(None), Winsize::new(24, 80, 0, 0));
    assert_eq!(or_console_default(Some(Winsize::new(1, 2, 3, 4))), Winsize::new(1, 2, 3, 4));
}
