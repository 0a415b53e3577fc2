use std::sync::atomic::{AtomicUsize, Ordering};
use stitch_pty::command_line::{
    append_quoted_wide, command_line, environment_block, pipe_name, wide, wide_with_nul,
    STARTUP_REPLY,
};

#[test]
fn test_append_quoted_wide_no_spaces() {
    let arg = wide("hello");
    let mut cmdline: Vec<u16> = Vec::new();
    append_quoted_wide(&arg, &mut cmdline);
    let result = String::from_utf16(&cmdline).unwrap();
    assert_eq!(result, "hello");
}

#[test]
fn test_append_quoted_wide_with_spaces() {
    let arg = wide("hello world");
    let mut cmdline: Vec<u16> = Vec::new();
    append_quoted_wide(&arg, &mut cmdline);
    let result = String::from_utf16(&cmdline).unwrap();
    assert_eq!(result, "\"hello world\"");
}

#[test]
fn test_append_quoted_wide_with_tabs() {
    let arg = wide("hello\tworld");
    let mut cmdline: Vec<u16> = Vec::new();
    append_quoted_wide(&arg, &mut cmdline);
    let result = String::from_utf16(&cmdline).unwrap();
    assert!(result.starts_with('"'));
    assert!(result.ends_with('"'));
}

#[test]
fn test_append_quoted_wide_with_quotes() {
    let arg = wide("hello \"world\"");
    let mut cmdline: Vec<u16> = Vec::new();
    append_quoted_wide(&arg, &mut cmdline);
    let result = String::from_utf16(&cmdline).unwrap();
    assert!(result.starts_with('"'));
    assert!(result.ends_with('"'));
}

#[test]
fn test_append_quoted_wide_with_backslashes() {
    let arg = wide("hello\\world");
    let mut cmdline: Vec<u16> = Vec::new();
    append_quoted_wide(&arg, &mut cmdline);
    let result = String::from_utf16(&cmdline).unwrap();
    assert_eq!(result, "hello\\world");
}

#[test]
fn test_append_quoted_wide_empty() {
    let arg = wide("");
    let mut cmdline: Vec<u16> = Vec::new();
    append_quoted_wide(&arg, &mut cmdline);
    let result = String::from_utf16(&cmdline).unwrap();
    assert_eq!(result, "\"\"");
}

#[test]
fn test_append_quoted_wide_newline() {
    let arg = wide("hello\nworld");
    let mut cmdline: Vec<u16> = Vec::new();
    append_quoted_wide(&arg, &mut cmdline);
    let result = String::from_utf16(&cmdline).unwrap();
    assert!(result.starts_with('"'));
    assert!(result.ends_with('"'));
}

#[test]
fn test_append_quoted_wide_vertical_tab() {
    let arg = wide("hello\x0bworld");
    let mut cmdline: Vec<u16> = Vec::new();
    append_quoted_wide(&arg, &mut cmdline);
    let result = String::from_utf16(&cmdline).unwrap();
    assert!(result.starts_with('"'));
    assert!(result.ends_with('"'));
}

#[test]
fn test_append_quoted_wide_complex() {
    let arg = wide("C:\\Program Files\\App\\app.exe");
    let mut cmdline: Vec<u16> = Vec::new();
    append_quoted_wide(&arg, &mut cmdline);
    let result = String::from_utf16(&cmdline).unwrap();
    assert!(result.starts_with('"'));
    assert!(result.ends_with('"'));
}

#[test]
fn test_append_quoted_wide_multiple_trailing_backslashes() {
    let arg = wide("path\\\\ ");
    let mut cmdline: Vec<u16> = Vec::new();
    append_quoted_wide(&arg, &mut cmdline);
    let result = String::from_utf16(&cmdline).unwrap();
    assert!(result.starts_with('"'));
    assert!(result.ends_with('"'));
}

#[test]
fn test_pipe_counter_increments() {
    let counter = AtomicUsize::new(1);
    let a = counter.fetch_add(1, Ordering::SeqCst);
    let b = counter.fetch_add(1, Ordering::SeqCst);
    assert_eq!(a, 1);
    assert_eq!(b, 2);
}

#[test]
fn pipes_of_a_process_are_numbered() {
    assert_eq!(pipe_name(812, 3), r"\\.\pipe\stitch-pty-812-3");
    assert_ne!(pipe_name(1, 11), pipe_name(11, 1));
}

#[test]
fn backslashes_are_doubled_before_quotation_marks_only() {
    let quoted = |s: &str| {
        let mut line: Vec<u16> = Vec::new();
        append_quoted_wide(&wide(s), &mut line);
        String::from_utf16(&line).unwrap()
    };
    assert_eq!(quoted(r#"a"b"#), r#""a\"b""#);
    assert_eq!(quoted(r#"a\"b"#), r#""a\\\"b""#);
    assert_eq!(quoted(r"a b\"), r#""a b\\""#);
    assert_eq!(quoted(r"a\ b"), r#""a\ b""#);
}

/// Takes a command line apart by the usual rules.
fn split(line: &str) -> Vec<String> {
    let mut args: Vec<String> = Vec::new();
    let mut arg = String::new();
    let mut inside = false;
    let mut pending = 0;
    for c in line.chars() {
        if c == '\\' {
            pending += 1;
            continue;
        }
        if c == '"' {
            arg.push_str(&"\\".repeat(pending / 2));
            if pending % 2 == 1 {
                arg.push('"');
            } else {
                inside = !inside;
            }
            pending = 0;
            continue;
        }
        arg.push_str(&"\\".repeat(pending));
        pending = 0;
        if (c == ' ' || c == '\t') && !inside {
            args.push(std::mem::take(&mut arg));
        } else {
            arg.push(c);
        }
    }
    arg.push_str(&"\\".repeat(pending));
    args.push(arg);
    args
}

#[test]
fn a_command_line_is_taken_apart_again() {
    let args: Vec<String> = [r"plain", "", r"two words", r#"say "hi""#, r"C:\dir\", r#"\\" \"#, "\t"]
        .iter()
        .map(|s| s.to_string())
        .collect();
    let mut line = command_line(r"C:\Program Files\a.exe", &args);
    assert_eq!(line.pop(), Some(0));
    let found = split(&String::from_utf16(&line).unwrap());
    assert_eq!(found[0], r"C:\Program Files\a.exe");
    assert_eq!(&found[1..], &args[..]);
}

#[test]
fn an_environment_block_ends_with_two_zeros() {
    assert!(environment_block(&[]).is_empty());
    let env = [("A".to_string(), "1".to_string()), ("B".to_string(), "".to_string())];
    let block = environment_block(&env);
    assert_eq!(String::from_utf16(&block).unwrap(), "A=1\0B=\0\0");
}

#[test]
fn text_beyond_the_basic_plane_takes_two_units() {
    assert_eq!(wide("a\u{20ac}\u{1f680}"), vec![0x61, 0x20ac, 0xd83d, 0xde80]);
    assert_eq!(wide_with_nul("ab"), vec![0x61, 0x62, 0]);
    assert_eq!(STARTUP_REPLY.as_bytes(), b"\x1b[1;1R");
}
