use stitch_pty::terminal::escape::{
    CHA, CNL, CPL, CUB, CUD, CUF, CUP, CUU, DA, DCH, DECALN, DECRC, DECSC, DECSTBM, DL, DSR, ECH,
    ED, EL, HTS, ICH, IL, IND, NEL, RI, RIS, RM, SGR, SM, TBC, is_csi_final, is_csi_intermediate,
    is_csi_param,
};

#[test]
fn test_escape_designators() {
    assert_eq!(RIS, 'c');
    assert_eq!(IND, 'D');
    assert_eq!(NEL, 'E');
    assert_eq!(HTS, 'H');
    assert_eq!(RI, 'M');
    assert_eq!(DECSC, '7');
    assert_eq!(DECRC, '8');
    assert_eq!(DECALN, '8');
    assert_eq!(ICH, '@');
    assert_eq!(CUU, 'A');
    assert_eq!(CUD, 'B');
    assert_eq!(CUF, 'C');
    assert_eq!(CUB, 'D');
    assert_eq!(CNL, 'E');
    assert_eq!(CPL, 'F');
    assert_eq!(CHA, 'G');
    assert_eq!(CUP, 'H');
    assert_eq!(ED, 'J');
    assert_eq!(EL, 'K');
    assert_eq!(IL, 'L');
    assert_eq!(DL, 'M');
    assert_eq!(DCH, 'P');
    assert_eq!(ECH, 'X');
    assert_eq!(DA, 'c');
    assert_eq!(DSR, 'n');
    assert_eq!(DECSTBM, 'r');
    assert_eq!(SGR, 'm');
    assert_eq!(TBC, 'g');
    assert_eq!(SM, 'h');
    assert_eq!(RM, 'l');
}

#[test]
fn test_is_csi_final_basic() {
    assert!(is_csi_final('A'));
    assert!(is_csi_final('m'));
    assert!(is_csi_final('J'));
    assert!(is_csi_final('K'));
    assert!(is_csi_final('c'));
    assert!(is_csi_final('z'));
}

#[test]
fn test_is_csi_final_boundary() {
    assert!(is_csi_final('@'));
    assert!(is_csi_final('~'));
    assert!(!is_csi_final(' '));
    assert!(!is_csi_final('0'));
    assert!(!is_csi_final('!'));
}

#[test]
fn test_is_csi_param_basic() {
    assert!(is_csi_param('0'));
    assert!(is_csi_param('1'));
    assert!(is_csi_param('5'));
    assert!(is_csi_param('9'));
}

#[test]
fn test_is_csi_param_boundary() {
    assert!(is_csi_param('0'));
    assert!(is_csi_param('9'));
    assert!(!is_csi_param(' '));
    assert!(!is_csi_param(':'));
}

#[test]
fn test_is_csi_intermediate_basic() {
    assert!(is_csi_intermediate(' '));
    assert!(is_csi_intermediate('/'));
    assert!(is_csi_intermediate('#'));
}

#[test]
fn test_is_csi_intermediate_boundary() {
    assert!(is_csi_intermediate(' '));
    assert!(is_csi_intermediate('/'));
    assert!(!is_csi_intermediate('0'));
    assert!(!is_csi_intermediate('@'));
}

#[test]
fn test_is_csi_intermediate_all() {
    for i in 0x20u8..=0x2Fu8 {
        assert!(is_csi_intermediate(i as char));
    }
}
