use stitch_pty::terminal::control::{
    BEL, BS, C0, C1, CAN, CR, CSI, CSI_C0, CSI_C1, DEL, ESC, FF, HT, LF, NUL, OSC, OSC_C0, OSC_C1,
    SI, SO, ST, ST_C0, ST_C1, SUB, VT, is_c0, is_c1, is_control,
};

#[test]
fn test_c0_constants() {
    assert_eq!(NUL, '\x00');
    assert_eq!(BEL, '\x07');
    assert_eq!(BS, '\x08');
    assert_eq!(HT, '\x09');
    assert_eq!(LF, '\n');
    assert_eq!(VT, '\x0b');
    assert_eq!(FF, '\x0c');
    assert_eq!(CR, '\r');
    assert_eq!(SO, '\x0e');
    assert_eq!(SI, '\x0f');
    assert_eq!(CAN, '\x18');
    assert_eq!(SUB, '\x1a');
    assert_eq!(ESC, '\x1b');
    assert_eq!(DEL, '\x7f');
}

#[test]
fn test_c1_constants() {
    assert_eq!(CSI_C1, 0x9b);
    assert_eq!(ST_C1, 0x9c);
    assert_eq!(OSC_C1, 0x9d);
}

#[test]
fn test_escape_sequences_c0() {
    assert_eq!(CSI, "\x1b[");
    assert_eq!(ST, "\x1b\\");
    assert_eq!(OSC, "\x1b]");
    assert_eq!(CSI_C0, CSI);
    assert_eq!(ST_C0, ST);
    assert_eq!(OSC_C0, OSC);
}

#[test]
fn test_c0_array() {
    assert_eq!(C0.len(), 32);
    assert_eq!(C0[0], '\x00');
    assert_eq!(C0[31], '\x1f');
}

#[test]
fn test_c1_array() {
    assert_eq!(C1.len(), 32);
    assert_eq!(C1[0], 0x80);
    assert_eq!(C1[31], 0x9f);
}

#[test]
fn test_is_c0_basic() {
    assert!(is_c0('\x00'));
    assert!(is_c0('\x07'));
    assert!(is_c0('\x1f'));
}

#[test]
fn test_is_c0_boundary() {
    assert!(!is_c0('\x20'));
    assert!(!is_c0('a'));
    assert!(!is_c0('Z'));
    assert!(!is_c0('\x7f'));
}

#[test]
fn test_is_c1_basic() {
    assert!(is_c1('\u{80}'));
    assert!(is_c1('\u{90}'));
    assert!(is_c1('\u{9F}'));
}

#[test]
fn test_is_c1_boundary() {
    assert!(!is_c1('\x7f'));
    assert!(!is_c1('\u{A0}'));
    assert!(!is_c1('a'));
}

#[test]
fn test_is_control_c0() {
    assert!(is_control('\x00'));
    assert!(is_control('\x1f'));
    assert!(is_control(ESC));
}

#[test]
fn test_is_control_c1() {
    assert!(is_control('\u{80}'));
    assert!(is_control('\u{9F}'));
}

#[test]
fn test_is_control_non_control() {
    assert!(!is_control(' '));
    assert!(!is_control('a'));
    assert!(!is_control('Z'));
    assert!(!is_control('\x7f'));
    assert!(!is_control('\u{A0}'));
}
