use stitch_pty::terminal::modes::{
    ALT_SCREEN_1049, ANY_EVENT_MOUSE, BRACKETED_PASTE, DECAWM, DECCOLM, DECOM, DECSCNM, DECTCEM,
    FOCUS_EVENT, IRM, LNM, Modes, NORMAL_MOUSE, SGR_MOUSE, X10_MOUSE,
};

#[test]
fn test_default_modes() {
    let modes = Modes::new();
    assert!(modes.has_public(LNM));
    assert!(!modes.has_public(IRM));
    assert!(modes.has_private(DECAWM));
    assert!(modes.has_private(DECTCEM));
    assert!(!modes.has_private(DECCOLM));
}

#[test]
fn test_set_clear_public() {
    let mut modes = Modes::new();
    modes.set_public(IRM);
    assert!(modes.has_public(IRM));
    modes.clear_public(IRM);
    assert!(!modes.has_public(IRM));
    assert!(modes.has_public(LNM));
}

#[test]
fn test_set_clear_private() {
    let mut modes = Modes::new();
    modes.set_private(DECCOLM);
    assert!(modes.has_private(DECCOLM));
    modes.clear_private(DECCOLM);
    assert!(!modes.has_private(DECCOLM));
}

#[test]
fn test_mouse_modes() {
    let mut modes = Modes::new();
    modes.set_private(X10_MOUSE);
    assert!(modes.has_private(X10_MOUSE));
    modes.set_private(NORMAL_MOUSE);
    assert!(modes.has_private(NORMAL_MOUSE));
    modes.set_private(ANY_EVENT_MOUSE);
    assert!(modes.has_private(ANY_EVENT_MOUSE));
    modes.set_private(FOCUS_EVENT);
    assert!(modes.has_private(FOCUS_EVENT));
    modes.set_private(BRACKETED_PASTE);
    assert!(modes.has_private(BRACKETED_PASTE));

    modes.clear_private(X10_MOUSE);
    assert!(!modes.has_private(X10_MOUSE));
    assert!(modes.has_private(NORMAL_MOUSE));
    assert!(modes.has_private(BRACKETED_PASTE));
}

#[test]
fn test_mode_query_helpers() {
    let mut modes = Modes::new();
    assert_eq!(modes.mouse_protocol(), 0);
    assert!(!modes.sgr_mouse());
    assert!(!modes.is_alt_screen());

    modes.set_private(X10_MOUSE);
    assert_eq!(modes.mouse_protocol(), X10_MOUSE);
    modes.set_private(ANY_EVENT_MOUSE);
    assert_eq!(modes.mouse_protocol(), ANY_EVENT_MOUSE);

    modes.set_private(SGR_MOUSE);
    assert!(modes.sgr_mouse());

    modes.set_private(ALT_SCREEN_1049);
    assert!(modes.is_alt_screen());
    modes.clear_private(ALT_SCREEN_1049);
    assert!(!modes.is_alt_screen());
}

#[test]
fn test_unknown_mode_noop() {
    let mut modes = Modes::new();
    modes.set_public(9999);
    modes.set_private(9999);
    modes.clear_public(9999);
    modes.clear_private(9999);
    assert!(modes.has_public(LNM));
    assert!(modes.has_private(DECAWM));
}

#[test]
fn test_mode_constants() {
    assert_eq!(IRM, 4);
    assert_eq!(LNM, 20);
    assert_eq!(DECCOLM, 3);
    assert_eq!(DECOM, 6);
    assert_eq!(DECAWM, 7);
    assert_eq!(DECTCEM, 25);
    assert_eq!(DECSCNM, 5);
}
