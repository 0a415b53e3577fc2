use stitch_pty::terminal::cwd::{parse_osc7, parse_osc9_9};

#[test]
fn test_osc7_basic_unix_path() {
    assert_eq!(
        parse_osc7(b"file://myhost/home/user"),
        Some("/home/user".to_string())
    );
}

#[test]
fn test_osc7_localhost_empty_host() {
    assert_eq!(
        parse_osc7(b"file:///etc/hostname"),
        Some("/etc/hostname".to_string())
    );
}

#[test]
fn test_osc7_percent_decoding() {
    assert_eq!(
        parse_osc7(b"file://myhost/home/user%20name/docs"),
        Some("/home/user name/docs".to_string())
    );
}

#[test]
fn test_osc7_percent_encoded_utf8() {
    assert_eq!(
        parse_osc7(b"file://h/m%C3%BCnchen"),
        Some("/münchen".to_string())
    );
}

#[test]
fn test_osc7_windows_drive() {
    assert_eq!(
        parse_osc7(b"file:///C:/Users/Main"),
        Some("C:/Users/Main".to_string())
    );
}

#[test]
fn test_osc7_rejects_garbage() {
    assert_eq!(parse_osc7(b""), None);
    assert_eq!(parse_osc7(b"not a uri"), None);
    assert_eq!(parse_osc7(b"http://host/path"), None);
    assert_eq!(parse_osc7(b"file://host"), None);
    assert_eq!(parse_osc7(b"file://host/"), Some("/".to_string()));
    assert_eq!(parse_osc7(b"file://h/a%zz"), None);
    assert_eq!(parse_osc7(b"file://h/a%2"), None);
    assert_eq!(parse_osc7(b"file://h/a%"), None);
    assert_eq!(parse_osc7(b"file://h/\xff\xfe"), None);
    assert_eq!(parse_osc7(b"file://h/a\x00b"), None);
}

#[test]
fn test_osc9_9_windows_path() {
    assert_eq!(
        parse_osc9_9(r"C:\Users\Main".as_bytes()),
        Some(r"C:\Users\Main".to_string())
    );
}

#[test]
fn test_osc9_9_rejects_garbage() {
    assert_eq!(parse_osc9_9(b""), None);
    assert_eq!(parse_osc9_9(b"\xff\xfe"), None);
    assert_eq!(parse_osc9_9(b"C:\\a\x00b"), None);
}
