use stitch_pty::launch::{
    child_arguments, child_environment, environment_for, parse_descriptor, stray_descriptors,
};

fn strings(texts: &[&str]) -> Vec<String> {
    texts.iter().map(|s| s.to_string()).collect()
}

#[test]
fn a_child_gets_its_name_first() {
    let argv = child_arguments("sh", &strings(&["-c", "ls"])).unwrap();
    assert_eq!(argv, strings(&["sh", "-c", "ls"]));
}

#[test]
fn an_argument_with_a_zero_becomes_empty() {
    let argv = child_arguments("sh", &strings(&["a\0b", "c"])).unwrap();
    assert_eq!(argv, strings(&["sh", "", "c"]));
    assert!(child_arguments("s\0h", &[]).is_none());
}

#[test]
fn variables_become_entries() {
    let env = [
        ("HOME".to_string(), "/root".to_string()),
        ("EMPTY".to_string(), "".to_string()),
    ];
    assert_eq!(child_environment(&env).unwrap(), strings(&["HOME=/root", "EMPTY="]));
    let bad = [("A".to_string(), "x\0".to_string())];
    assert!(child_environment(&bad).is_none());
}

#[test]
fn descriptors_are_decimal_numbers() {
    assert_eq!(parse_descriptor("0"), Some(0));
    assert_eq!(parse_descriptor("017"), Some(17));
    assert_eq!(parse_descriptor("+5"), Some(5));
    assert_eq!(parse_descriptor("-5"), Some(-5));
    assert_eq!(parse_descriptor("2147483647"), Some(i32::MAX));
    assert_eq!(parse_descriptor("-2147483648"), Some(i32::MIN));
    assert_eq!(parse_descriptor("2147483648"), None);
    assert_eq!(parse_descriptor("-2147483649"), None);
    assert_eq!(parse_descriptor("99999999999999999999"), None);
    assert_eq!(parse_descriptor("99999999999999999999x"), None);
    assert_eq!(parse_descriptor(""), None);
    assert_eq!(parse_descriptor("-"), None);
    assert_eq!(parse_descriptor("1 "), None);
    assert_eq!(parse_descriptor("x"), None);
}

#[test]
fn numbers_are_read_as_the_standard_library_reads_them() {
    for s in ["7", "-0", "+", "--1", "1_000", "٣", "00000000000000000000012"] {
        assert_eq!(parse_descriptor(s), s.parse::<i32>().ok(), "{}", s);
    }
}

#[test]
fn standard_and_kept_descriptors_stay_open() {
    let names = strings(&["0", "1", "2", "3", "4", "five", "6", "7"]);
    assert_eq!(stray_descriptors(&names, &[4, 6]), vec![3, 7]);
    assert!(stray_descriptors(&names[..3], &[]).is_empty());
}

#[test]
fn a_child_inherits_the_environment_unless_it_is_given_one() {
    let pairs = |key: &str| vec![(key.to_string(), "1".to_string())];
    assert_eq!(environment_for(None, pairs("PARENT")), pairs("PARENT"));
    assert_eq!(environment_for(Some(pairs("OWN")), pairs("PARENT")), pairs("OWN"));
    assert!(environment_for(Some(Vec::new()), pairs("PARENT")).is_empty());
}
