use stitch_pty::terminal::ansi_parser::{MAX_PARAMS, Params, Parser, Perform};

#[derive(Default)]
struct Dispatcher {
    dispatched: Vec<Sequence>,
}

#[derive(Debug, PartialEq, Eq)]
enum Sequence {
    Osc(Vec<Vec<u8>>, bool),
    Csi(Vec<Vec<u16>>, Vec<u8>, bool, char),
    Esc(Vec<u8>, bool, u8),
    DcsHook(Vec<Vec<u16>>, Vec<u8>, bool, char),
    DcsPut(u8),
    Print(char),
    Execute(u8),
    DcsUnhook,
}

impl Perform for Dispatcher {
    fn osc_dispatch(&mut self, params: &[&[u8]], bell_terminated: bool) {
        let params = params.iter().map(|p| p.to_vec()).collect();
        self.dispatched.push(Sequence::Osc(params, bell_terminated));
    }

    fn csi_dispatch(&mut self, params: &Params, intermediates: &[u8], ignore: bool, c: char) {
        let params = params.subparams.iter().map(|sp| sp.clone()).collect();
        self.dispatched
            .push(Sequence::Csi(params, intermediates.to_vec(), ignore, c));
    }

    fn esc_dispatch(&mut self, intermediates: &[u8], ignore: bool, byte: u8) {
        self.dispatched
            .push(Sequence::Esc(intermediates.to_vec(), ignore, byte));
    }

    fn hook(&mut self, params: &Params, intermediates: &[u8], ignore: bool, c: char) {
        let params = params.subparams.iter().map(|sp| sp.clone()).collect();
        self.dispatched
            .push(Sequence::DcsHook(params, intermediates.to_vec(), ignore, c));
    }

    fn put(&mut self, byte: u8) {
        self.dispatched.push(Sequence::DcsPut(byte));
    }

    fn unhook(&mut self) {
        self.dispatched.push(Sequence::DcsUnhook);
    }

    fn print(&mut self, c: char) {
        self.dispatched.push(Sequence::Print(c));
    }

    fn execute(&mut self, byte: u8) {
        self.dispatched.push(Sequence::Execute(byte));
    }
}

#[test]
fn test_print_chars() {
    let mut dispatcher = Dispatcher::default();
    let mut parser = Parser::new();
    parser.advance(&mut dispatcher, b"Hello");
    assert_eq!(dispatcher.dispatched.len(), 5);
    assert_eq!(dispatcher.dispatched[0], Sequence::Print('H'));
    assert_eq!(dispatcher.dispatched[4], Sequence::Print('o'));
}

#[test]
fn test_csi_dispatch() {
    let mut dispatcher = Dispatcher::default();
    let mut parser = Parser::new();
    parser.advance(&mut dispatcher, b"\x1b[38;2;255;0;255m");
    assert_eq!(dispatcher.dispatched.len(), 1);
    match &dispatcher.dispatched[0] {
        Sequence::Csi(params, intermediates, ignore, c) => {
            assert_eq!(params, &[vec![38], vec![2], vec![255], vec![0], vec![255]]);
            assert_eq!(*intermediates, Vec::<u8>::new());
            assert!(!ignore);
            assert_eq!(*c, 'm');
        }
        _ => panic!("expected CSI"),
    }
}

#[test]
fn test_osc_dispatch() {
    let mut dispatcher = Dispatcher::default();
    let mut parser = Parser::new();
    parser.advance(&mut dispatcher, b"\x1b]2;Hello World\x07");
    assert_eq!(dispatcher.dispatched.len(), 1);
    match &dispatcher.dispatched[0] {
        Sequence::Osc(params, bell) => {
            assert_eq!(params.len(), 2);
            assert!(bell);
        }
        _ => panic!("expected OSC"),
    }
}

#[test]
fn test_esc_dispatch() {
    let mut dispatcher = Dispatcher::default();
    let mut parser = Parser::new();
    parser.advance(&mut dispatcher, b"\x1b(A");
    assert_eq!(dispatcher.dispatched.len(), 1);
    match &dispatcher.dispatched[0] {
        Sequence::Esc(intermediates, _, byte) => {
            assert_eq!(*intermediates, vec![b'(']);
            assert_eq!(*byte, b'A');
        }
        _ => panic!("expected ESC"),
    }
}

#[test]
fn test_partial_utf8() {
    let mut dispatcher = Dispatcher::default();
    let mut parser = Parser::new();
    let input = b"\xF0\x9F\x9A\x80";
    parser.advance(&mut dispatcher, &input[..1]);
    parser.advance(&mut dispatcher, &input[1..2]);
    parser.advance(&mut dispatcher, &input[2..3]);
    parser.advance(&mut dispatcher, &input[3..]);
    assert_eq!(dispatcher.dispatched.len(), 1);
    assert_eq!(dispatcher.dispatched[0], Sequence::Print('\u{1F680}'));
}

#[test]
fn test_dcs() {
    let mut dispatcher = Dispatcher::default();
    let mut parser = Parser::new();
    parser.advance(&mut dispatcher, b"\x1bP0;1|17/ab\x9c");
    assert_eq!(dispatcher.dispatched.len(), 7);
    match &dispatcher.dispatched[0] {
        Sequence::DcsHook(params, _, _, c) => {
            assert_eq!(params, &[vec![0], vec![1]]);
            assert_eq!(*c, '|');
        }
        _ => panic!("expected DCS hook"),
    }
    assert_eq!(dispatcher.dispatched[1], Sequence::DcsPut(b'1'));
    assert_eq!(dispatcher.dispatched[6], Sequence::DcsUnhook);
}

#[test]
fn test_csi_trailing_semicolon() {
    let mut dispatcher = Dispatcher::default();
    let mut parser = Parser::new();
    parser.advance(&mut dispatcher, b"\x1b[4;m");
    assert_eq!(dispatcher.dispatched.len(), 1);
    match &dispatcher.dispatched[0] {
        Sequence::Csi(params, ..) => assert_eq!(params, &[vec![4], vec![0]]),
        _ => panic!("expected CSI"),
    }
}

#[test]
fn test_csi_leading_semicolon() {
    let mut dispatcher = Dispatcher::default();
    let mut parser = Parser::new();
    parser.advance(&mut dispatcher, b"\x1b[;4m");
    assert_eq!(dispatcher.dispatched.len(), 1);
    match &dispatcher.dispatched[0] {
        Sequence::Csi(params, ..) => assert_eq!(params, &[vec![0], vec![4]]),
        _ => panic!("expected CSI"),
    }
}

#[test]
fn test_csi_subparameters() {
    let mut dispatcher = Dispatcher::default();
    let mut parser = Parser::new();
    parser.advance(&mut dispatcher, b"\x1b[38:2:255:0:255;1m");
    assert_eq!(dispatcher.dispatched.len(), 1);
    match &dispatcher.dispatched[0] {
        Sequence::Csi(params, intermediates, ignore, _) => {
            assert_eq!(params, &[vec![38, 2, 255, 0, 255], vec![1]]);
            assert_eq!(intermediates, &[] as &[u8]);
            assert!(!ignore);
        }
        _ => panic!("expected CSI"),
    }
}

#[test]
fn test_csi_param_overflow() {
    let mut dispatcher = Dispatcher::default();
    let mut parser = Parser::new();
    parser.advance(&mut dispatcher, b"\x1b[9223372036854775808m");
    assert_eq!(dispatcher.dispatched.len(), 1);
    match &dispatcher.dispatched[0] {
        Sequence::Csi(params, ..) => assert_eq!(params, &[vec![u16::MAX]]),
        _ => panic!("expected CSI"),
    }
}

#[test]
fn test_csi_max_params() {
    let params = "1;".repeat(MAX_PARAMS - 1);
    let input = format!("\x1b[{}p", &params[..]).into_bytes();
    let mut dispatcher = Dispatcher::default();
    let mut parser = Parser::new();
    parser.advance(&mut dispatcher, &input);
    assert_eq!(dispatcher.dispatched.len(), 1);
    match &dispatcher.dispatched[0] {
        Sequence::Csi(params, _, ignore, _) => {
            assert_eq!(params.len(), MAX_PARAMS);
            assert!(!ignore);
        }
        _ => panic!("expected CSI"),
    }
}

#[test]
fn test_csi_exceed_max_params() {
    let params = "1;".repeat(MAX_PARAMS);
    let input = format!("\x1b[{}p", &params[..]).into_bytes();
    let mut dispatcher = Dispatcher::default();
    let mut parser = Parser::new();
    parser.advance(&mut dispatcher, &input);
    assert_eq!(dispatcher.dispatched.len(), 1);
    match &dispatcher.dispatched[0] {
        Sequence::Csi(params, _, ignore, _) => {
            assert_eq!(params.len(), MAX_PARAMS);
            assert!(ignore);
        }
        _ => panic!("expected CSI"),
    }
}

#[test]
fn test_subparam_buffer_fill() {
    let mut dispatcher = Dispatcher::default();
    let mut parser = Parser::new();
    parser.advance(&mut dispatcher, b"\x1b[38:2:255:0:255m");
    assert_eq!(dispatcher.dispatched.len(), 1);
    match &dispatcher.dispatched[0] {
        Sequence::Csi(params, intermediates, ignore, c) => {
            assert_eq!(intermediates, &[] as &[u8]);
            assert!(!ignore);
            assert_eq!(*c, 'm');
            assert_eq!(params, &[vec![38, 2, 255, 0, 255]]);
        }
        _ => panic!("expected CSI"),
    }
}

#[test]
fn test_csi_reset() {
    let mut dispatcher = Dispatcher::default();
    let mut parser = Parser::new();
    parser.advance(&mut dispatcher, b"\x1b[3;1\x1b[?1049h");
    assert_eq!(dispatcher.dispatched.len(), 1);
    match &dispatcher.dispatched[0] {
        Sequence::Csi(params, intermediates, ignore, _) => {
            assert_eq!(intermediates, b"?");
            assert_eq!(params, &[vec![1049]]);
            assert!(!ignore);
        }
        _ => panic!("expected CSI"),
    }
}

#[test]
fn test_esc_reset() {
    let mut dispatcher = Dispatcher::default();
    let mut parser = Parser::new();
    parser.advance(&mut dispatcher, b"\x1b[3;1\x1b(A");
    assert_eq!(dispatcher.dispatched.len(), 1);
    match &dispatcher.dispatched[0] {
        Sequence::Esc(intermediates, ignore, byte) => {
            assert_eq!(intermediates, b"(");
            assert_eq!(*byte, b'A');
            assert!(!ignore);
        }
        _ => panic!("expected ESC"),
    }
}

#[test]
fn test_esc_reset_intermediates() {
    let mut dispatcher = Dispatcher::default();
    let mut parser = Parser::new();
    parser.advance(&mut dispatcher, b"\x1b[?2004l\x1b#8");
    assert_eq!(dispatcher.dispatched.len(), 2);
    assert_eq!(dispatcher.dispatched[0], Sequence::Csi(vec![vec![2004]], vec![63], false, 'l'));
    assert_eq!(dispatcher.dispatched[1], Sequence::Esc(vec![35], false, 56));
}

#[test]
fn test_dcs_reset() {
    let mut dispatcher = Dispatcher::default();
    let mut parser = Parser::new();
    parser.advance(&mut dispatcher, b"\x1b[3;1\x1bP1$tx\x9c");
    assert_eq!(dispatcher.dispatched.len(), 3);
    match &dispatcher.dispatched[0] {
        Sequence::DcsHook(params, intermediates, ignore, _) => {
            assert_eq!(intermediates, b"$");
            assert_eq!(params, &[vec![1]]);
            assert!(!ignore);
        }
        _ => panic!("expected DCS hook"),
    }
    assert_eq!(dispatcher.dispatched[1], Sequence::DcsPut(b'x'));
    assert_eq!(dispatcher.dispatched[2], Sequence::DcsUnhook);
}

#[test]
fn test_intermediate_reset_on_dcs_exit() {
    let mut dispatcher = Dispatcher::default();
    let mut parser = Parser::new();
    parser.advance(&mut dispatcher, b"\x1bP=1sZZZ\x1b+\x5c");
    assert_eq!(dispatcher.dispatched.len(), 6);
    match &dispatcher.dispatched[5] {
        Sequence::Esc(intermediates, ..) => assert_eq!(intermediates, b"+"),
        _ => panic!("expected ESC"),
    }
}

#[test]
fn test_osc_empty() {
    let mut dispatcher = Dispatcher::default();
    let mut parser = Parser::new();
    parser.advance(&mut dispatcher, &[0x1B, 0x5D, 0x07]);
    assert_eq!(dispatcher.dispatched.len(), 1);
    match &dispatcher.dispatched[0] {
        Sequence::Osc(..) => (),
        _ => panic!("expected OSC"),
    }
}

#[test]
fn test_osc_st_terminated() {
    let mut dispatcher = Dispatcher::default();
    let mut parser = Parser::new();
    parser.advance(&mut dispatcher, b"\x1b]11;ff/00/ff\x1b\\");
    assert_eq!(dispatcher.dispatched.len(), 2);
    match &dispatcher.dispatched[0] {
        Sequence::Osc(_, false) => (),
        _ => panic!("expected OSC"),
    }
}

#[test]
fn test_osc_with_utf8() {
    let input: &[u8] = &[0x0D, 0x1B, 0x5D, 0x32, 0x3B, 0x65, 0x63, 0x68, 0x6F, 0x20, 0x27,
        0xC2, 0xAF, 0x5C, 0x5F, 0x28, 0xE3, 0x83, 0x84, 0x29, 0x5F, 0x2F, 0xC2, 0xAF,
        0x27, 0x20, 0x26, 0x26, 0x20, 0x73, 0x6C, 0x65, 0x65, 0x70, 0x20, 0x31, 0x07];
    let mut dispatcher = Dispatcher::default();
    let mut parser = Parser::new();
    parser.advance(&mut dispatcher, input);
    assert_eq!(dispatcher.dispatched.len(), 2);
    assert_eq!(dispatcher.dispatched[0], Sequence::Execute(b'\r'));
    match &dispatcher.dispatched[1] {
        Sequence::Osc(_, true) => (),
        _ => panic!("expected OSC"),
    }
}

#[test]
fn test_osc_containing_string_terminator() {
    let mut dispatcher = Dispatcher::default();
    let mut parser = Parser::new();
    parser.advance(&mut dispatcher, b"\x1b]2;\xe6\x9c\xab\x1b\\");
    assert_eq!(dispatcher.dispatched.len(), 2);
    match &dispatcher.dispatched[0] {
        Sequence::Osc(params, _) => {
            assert_eq!(params[1], b"\xe6\x9c\xab");
        }
        _ => panic!("expected OSC"),
    }
}

#[test]
fn test_invalid_utf8() {
    let mut dispatcher = Dispatcher::default();
    let mut parser = Parser::new();
    parser.advance(&mut dispatcher, b"a\xEF\xBCb");
    assert_eq!(dispatcher.dispatched.len(), 3);
    assert_eq!(dispatcher.dispatched[0], Sequence::Print('a'));
    assert_eq!(dispatcher.dispatched[1], Sequence::Print('\u{FFFD}'));
    assert_eq!(dispatcher.dispatched[2], Sequence::Print('b'));
}

#[test]
fn test_partial_utf8_separating() {
    let input = b"\xC4\xB8\xF0\x9F\x8E\x89";
    let mut dispatcher = Dispatcher::default();
    let mut parser = Parser::new();
    parser.advance(&mut dispatcher, &input[..1]);
    parser.advance(&mut dispatcher, &input[1..]);
    assert_eq!(dispatcher.dispatched.len(), 2);
    assert_eq!(dispatcher.dispatched[0], Sequence::Print('\u{0138}'));
    assert_eq!(dispatcher.dispatched[1], Sequence::Print('\u{1F389}'));
}

#[test]
fn test_partial_invalid_utf8() {
    let input = b"a\xEF\xBCb";
    let mut dispatcher = Dispatcher::default();
    let mut parser = Parser::new();
    parser.advance(&mut dispatcher, &input[..1]);
    parser.advance(&mut dispatcher, &input[1..2]);
    parser.advance(&mut dispatcher, &input[2..3]);
    parser.advance(&mut dispatcher, &input[3..]);
    assert_eq!(dispatcher.dispatched.len(), 3);
    assert_eq!(dispatcher.dispatched[0], Sequence::Print('a'));
    assert_eq!(dispatcher.dispatched[1], Sequence::Print('\u{FFFD}'));
    assert_eq!(dispatcher.dispatched[2], Sequence::Print('b'));
}

#[test]
fn test_partial_invalid_utf8_split() {
    let input = b"\xE4\xBF\x99\xB5";
    let mut dispatcher = Dispatcher::default();
    let mut parser = Parser::new();
    parser.advance(&mut dispatcher, &input[..2]);
    parser.advance(&mut dispatcher, &input[2..]);
    assert_eq!(dispatcher.dispatched[0], Sequence::Print('\u{4FD9}'));
    assert_eq!(dispatcher.dispatched[1], Sequence::Print('\u{FFFD}'));
}

#[test]
fn test_partial_utf8_into_esc() {
    let mut dispatcher = Dispatcher::default();
    let mut parser = Parser::new();
    parser.advance(&mut dispatcher, b"\xD8\x1b012");
    assert_eq!(dispatcher.dispatched.len(), 4);
    assert_eq!(dispatcher.dispatched[0], Sequence::Print('\u{FFFD}'));
    assert_eq!(dispatcher.dispatched[1], Sequence::Esc(Vec::new(), false, b'0'));
    assert_eq!(dispatcher.dispatched[2], Sequence::Print('1'));
    assert_eq!(dispatcher.dispatched[3], Sequence::Print('2'));
}

#[test]
fn test_execute_anywhere() {
    let mut dispatcher = Dispatcher::default();
    let mut parser = Parser::new();
    parser.advance(&mut dispatcher, b"\x18\x1a");
    assert_eq!(dispatcher.dispatched.len(), 2);
    assert_eq!(dispatcher.dispatched[0], Sequence::Execute(0x18));
    assert_eq!(dispatcher.dispatched[1], Sequence::Execute(0x1A));
}

#[test]
fn test_emoji_sequence() {
    let mut dispatcher = Dispatcher::default();
    let mut parser = Parser::new();
    parser.advance(&mut dispatcher, b"\xF0\x9F\x8E\x89_\xF0\x9F\xA6\x80\xF0\x9F\xA6\x80_\xF0\x9F\x8E\x89");
    assert_eq!(dispatcher.dispatched.len(), 6);
    assert_eq!(dispatcher.dispatched[0], Sequence::Print('\u{1F389}'));
    assert_eq!(dispatcher.dispatched[1], Sequence::Print('_'));
    assert_eq!(dispatcher.dispatched[2], Sequence::Print('\u{1F980}'));
    assert_eq!(dispatcher.dispatched[3], Sequence::Print('\u{1F980}'));
    assert_eq!(dispatcher.dispatched[4], Sequence::Print('_'));
    assert_eq!(dispatcher.dispatched[5], Sequence::Print('\u{1F389}'));
}

#[test]
fn test_c1_full() {
    let mut dispatcher = Dispatcher::default();
    let mut parser = Parser::new();
    parser.advance(&mut dispatcher, b"\x00\x1f\x80\x90\x98\x9b\x9c\x9d\x9e\x9fa");
    assert_eq!(dispatcher.dispatched.len(), 11);
    assert_eq!(dispatcher.dispatched[0], Sequence::Execute(0));
    assert_eq!(dispatcher.dispatched[1], Sequence::Execute(31));
    assert_eq!(dispatcher.dispatched[2], Sequence::Execute(128));
    assert_eq!(dispatcher.dispatched[3], Sequence::Execute(144));
    assert_eq!(dispatcher.dispatched[4], Sequence::Execute(152));
    assert_eq!(dispatcher.dispatched[5], Sequence::Execute(155));
    assert_eq!(dispatcher.dispatched[6], Sequence::Execute(156));
    assert_eq!(dispatcher.dispatched[7], Sequence::Execute(157));
    assert_eq!(dispatcher.dispatched[8], Sequence::Execute(158));
    assert_eq!(dispatcher.dispatched[9], Sequence::Execute(159));
    assert_eq!(dispatcher.dispatched[10], Sequence::Print('a'));
}

#[test]
fn characters_behind_a_cut_one_may_be_passed_over() {
    let mut dispatcher = Dispatcher::default();
    let mut parser = Parser::new();
    parser.advance(&mut dispatcher, b"\xC3");
    parser.advance(&mut dispatcher, b"\xA9A\xC3");
    parser.advance(&mut dispatcher, b"\xA9");
    assert_eq!(
        dispatcher.dispatched,
        vec![Sequence::Print('\u{e9}'), Sequence::Print('\u{e9}')]
    );
    let mut dispatcher = Dispatcher::default();
    parser.advance(&mut dispatcher, b"\xC3");
    parser.advance(&mut dispatcher, b"\xA9AB\xC3\xA9");
    assert_eq!(dispatcher.dispatched.len(), 4);
    assert_eq!(dispatcher.dispatched[1], Sequence::Print('A'));
}

#[test]
fn a_control_that_is_cut_is_printed() {
    let mut dispatcher = Dispatcher::default();
    let mut parser = Parser::new();
    parser.advance(&mut dispatcher, b"\xC2\x85");
    parser.advance(&mut dispatcher, b"\xC2");
    parser.advance(&mut dispatcher, b"\x85");
    assert_eq!(
        dispatcher.dispatched,
        vec![Sequence::Execute(0x85), Sequence::Print('\u{85}')]
    );
}
