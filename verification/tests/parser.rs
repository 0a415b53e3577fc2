use stitch_pty::terminal::ansi_parser::Perform;
use stitch_pty::terminal::charsets::CharsetRef;
use stitch_pty::terminal::modes as mo;
use stitch_pty::terminal::parser::{Parser, Performer, Stream};
use stitch_pty::terminal::screen::Screen;
use stitch_pty::terminal::state::{CursorStyle, Margins};

fn make_screen(cols: usize, lines: usize) -> Screen {
    Screen::new(cols, lines)
}

#[test]
fn test_parser_new() {
    let _parser = Parser::new();
}

#[test]
fn test_stream_new() {
    let mut stream = Stream::new();
    assert!(stream.screen().is_none());
}

#[test]
fn test_csi_cursor_up() {
    let mut s = make_screen(10, 10);
    s.cursor.y = 5;
    s.csi_dispatch(&[3], &[], 'A');
    assert_eq!(s.cursor.y, 2);
}

#[test]
fn test_csi_cursor_down() {
    let mut s = make_screen(10, 10);
    s.cursor.y = 2;
    s.csi_dispatch(&[3], &[], 'B');
    assert_eq!(s.cursor.y, 5);
}

#[test]
fn test_csi_cursor_forward() {
    let mut s = make_screen(10, 10);
    s.csi_dispatch(&[5], &[], 'C');
    assert_eq!(s.cursor.x, 5);
}

#[test]
fn test_csi_cursor_back() {
    let mut s = make_screen(10, 10);
    s.cursor.x = 8;
    s.csi_dispatch(&[3], &[], 'D');
    assert_eq!(s.cursor.x, 5);
}

#[test]
fn test_csi_cursor_position() {
    let mut s = make_screen(10, 10);
    s.csi_dispatch(&[5, 3], &[], 'H');
    assert_eq!(s.cursor.y, 4);
    assert_eq!(s.cursor.x, 2);
}

#[test]
fn test_csi_sgr() {
    let mut s = make_screen(10, 10);
    s.csi_dispatch(&[1], &[], 'm');
    assert!(s.cursor.attrs.bold);
    s.csi_dispatch(&[31], &[], 'm');
    assert_eq!(s.cursor.attrs.fg, "red");
}

#[test]
fn test_csi_erase_display() {
    let mut s = make_screen(5, 5);
    s.draw("hello");
    s.cursor.x = 0;
    s.cursor.y = 0;
    s.csi_dispatch(&[0], &[], 'J');
    assert_eq!(s.display()[0], "     ");
}

#[test]
fn test_csi_erase_line() {
    let mut s = make_screen(5, 1);
    s.draw("hello");
    s.cursor.x = 2;
    s.csi_dispatch(&[0], &[], 'K');
    assert_eq!(s.display(), vec!["he   "]);
}

#[test]
fn test_csi_set_private_mode() {
    let mut s = make_screen(10, 10);
    s.csi_dispatch(&[mo::DECAWM], &[b'?'], 'h');
    assert!(s.mode.has_private(mo::DECAWM));
}

#[test]
fn test_csi_reset_private_mode() {
    let mut s = make_screen(10, 10);
    s.csi_dispatch(&[mo::DECAWM], &[b'?'], 'l');
    assert!(!s.mode.has_private(mo::DECAWM));
}

#[test]
fn test_csi_set_public_mode() {
    let mut s = make_screen(10, 10);
    s.csi_dispatch(&[mo::IRM], &[], 'h');
    assert!(s.mode.has_public(mo::IRM));
}

#[test]
fn test_csi_reset_public_mode() {
    let mut s = make_screen(10, 10);
    s.csi_dispatch(&[mo::IRM], &[], 'l');
    assert!(!s.mode.has_public(mo::IRM));
}

#[test]
fn test_csi_scroll_region() {
    let mut s = make_screen(10, 24);
    s.csi_dispatch(&[1, 10], &[], 'r');
    assert_eq!(s.margins, Some(Margins { top: 0, bottom: 9 }));
}

#[test]
fn test_csi_save_restore_cursor() {
    let mut s = make_screen(10, 10);
    s.cursor.x = 5;
    s.cursor.y = 3;
    s.csi_dispatch(&[], &[], 's');
    s.cursor.x = 0;
    s.cursor.y = 0;
    s.csi_dispatch(&[], &[], 'u');
    assert_eq!(s.cursor.x, 5);
    assert_eq!(s.cursor.y, 3);
}

#[test]
fn test_osc_title() {
    let mut s = make_screen(10, 10);
    let mut performer = Performer::new(&mut s);
    performer.osc_dispatch(&[b"2", b"Test Title"], false);
    assert_eq!(s.title, "Test Title");
}

#[test]
fn test_osc_icon_name() {
    let mut s = make_screen(10, 10);
    let mut performer = Performer::new(&mut s);
    performer.osc_dispatch(&[b"1", b"Icon"], false);
    assert_eq!(s.icon_name, "Icon");
    assert_eq!(s.title, "");
}

#[test]
fn test_osc_both_name() {
    let mut s = make_screen(10, 10);
    let mut performer = Performer::new(&mut s);
    performer.osc_dispatch(&[b"0", b"Both"], false);
    assert_eq!(s.icon_name, "Both");
    assert_eq!(s.title, "Both");
}

#[test]
fn test_stream_attach_detach() {
    let mut stream = Stream::new();
    let screen = make_screen(10, 10);
    stream.attach(screen);
    assert!(stream.screen().is_some());
    let screen = stream.detach();
    assert_eq!(screen.unwrap().columns, 10);
    assert!(stream.screen().is_none());
}

#[test]
fn test_stream_feed_text() {
    let mut stream = Stream::new();
    stream.attach(make_screen(10, 1));
    stream.feed_str("Hello");
    if let Some(s) = stream.screen() {
        assert_eq!(s.display(), vec!["Hello     "]);
    }
}

#[test]
fn test_stream_feed_csi() {
    let mut stream = Stream::new();
    stream.attach(make_screen(10, 10));
    stream.feed(b"\x1b[5;3H");
    if let Some(s) = stream.screen() {
        assert_eq!(s.cursor.y, 4);
        assert_eq!(s.cursor.x, 2);
    }
}

#[test]
fn test_performer_print() {
    let mut s = make_screen(10, 1);
    let mut perf = Performer::new(&mut s);
    perf.print('H');
    perf.print('i');
    assert_eq!(s.display(), vec!["Hi        "]);
}

#[test]
fn test_performer_execute_cr() {
    let mut s = make_screen(10, 10);
    s.cursor.x = 5;
    let mut perf = Performer::new(&mut s);
    perf.execute(b'\r');
    assert_eq!(s.cursor.x, 0);
}

#[test]
fn test_performer_execute_lf() {
    let mut s = make_screen(10, 10);
    let mut perf = Performer::new(&mut s);
    perf.execute(b'\n');
    assert_eq!(s.cursor.y, 1);
}

#[test]
fn test_csi_alignment_display() {
    let mut s = make_screen(5, 5);
    s.csi_dispatch(&[], &[], '8');
    assert_eq!(s.display(), vec!["EEEEE"; 5]);
}

#[test]
fn test_csi_clear_tab_stop() {
    let mut s = make_screen(10, 10);
    s.cursor.x = 8;
    s.csi_dispatch(&[0], &[], 'g');
    assert!(!s.tabstops.contains(&8));
}

#[test]
fn test_esc_set_tab_stop() {
    let mut s = make_screen(10, 10);
    s.cursor.x = 5;
    let mut perf = Performer::new(&mut s);
    perf.esc_dispatch(&[], false, b'H');
    assert!(s.tabstops.contains(&5));
}

#[test]
fn test_esc_linefeed() {
    let mut s = make_screen(10, 10);
    let mut perf = Performer::new(&mut s);
    perf.esc_dispatch(&[], false, b'D');
    assert_eq!(s.cursor.y, 1);
}

#[test]
fn test_esc_next_line() {
    let mut s = make_screen(10, 10);
    s.cursor.x = 5;
    let mut perf = Performer::new(&mut s);
    perf.esc_dispatch(&[], false, b'E');
    assert_eq!(s.cursor.x, 0);
    assert_eq!(s.cursor.y, 1);
}

#[test]
fn test_esc_reverse_index() {
    let mut s = make_screen(10, 10);
    s.cursor.y = 5;
    let mut perf = Performer::new(&mut s);
    perf.esc_dispatch(&[], false, b'M');
    assert_eq!(s.cursor.y, 4);
}

#[test]
fn test_esc_save_cursor() {
    let mut s = make_screen(10, 10);
    s.cursor.x = 3;
    s.cursor.y = 2;
    let mut perf = Performer::new(&mut s);
    perf.esc_dispatch(&[], false, b'7');
    assert_eq!(s.cursor.stack.len(), 1);
}

#[test]
fn test_esc_restore_cursor() {
    let mut s = make_screen(10, 10);
    s.cursor.x = 3;
    s.cursor.y = 2;
    {
        let mut perf = Performer::new(&mut s);
        perf.esc_dispatch(&[], false, b'7');
    }
    s.cursor.x = 0;
    s.cursor.y = 0;
    {
        let mut perf = Performer::new(&mut s);
        perf.esc_dispatch(&[], false, b'8');
    }
    assert_eq!(s.cursor.x, 3);
    assert_eq!(s.cursor.y, 2);
}

#[test]
fn test_cursor_style_block() {
    let mut s = make_screen(10, 10);
    s.csi_dispatch(&[1], &[b' '], 'q');
    assert_eq!(s.cursor_style, CursorStyle::Block);
}

#[test]
fn test_cursor_style_underline() {
    let mut s = make_screen(10, 10);
    s.csi_dispatch(&[3], &[b' '], 'q');
    assert_eq!(s.cursor_style, CursorStyle::Underline);
}

#[test]
fn test_cursor_style_beam() {
    let mut s = make_screen(10, 10);
    s.csi_dispatch(&[5], &[b' '], 'q');
    assert_eq!(s.cursor_style, CursorStyle::Beam);
}

#[test]
fn parser_test_cursor_style_default() {
    let mut s = make_screen(10, 10);
    s.csi_dispatch(&[0], &[b' '], 'q');
    assert_eq!(s.cursor_style, CursorStyle::Default);
}

#[test]
fn test_set_keyboard_mode() {
    let mut s = make_screen(10, 10);
    s.csi_dispatch(&[1, 0], &[], 'u');
    assert_eq!(s.keyboard_mode, 1);
}

#[test]
fn test_push_keyboard_mode() {
    let mut s = make_screen(10, 10);
    s.csi_dispatch(&[1], &[b'>'], 'u');
    assert_eq!(s.keyboard_mode_stack, vec![1]);
}

#[test]
fn test_pop_keyboard_modes() {
    let mut s = make_screen(10, 10);
    s.keyboard_mode_stack = vec![1, 2, 3];
    s.csi_dispatch(&[1], &[b'<'], 'u');
    assert_eq!(s.keyboard_mode_stack, vec![1, 2]);
    assert_eq!(s.keyboard_mode, 3);
}

#[test]
fn test_da1_identification() {
    let mut s = make_screen(10, 10);
    s.csi_dispatch(&[], &[], 'c');
    assert_eq!(s.write_process_input.len(), 1);
    assert!(s.write_process_input[0].contains("[?6c"));
}

#[test]
fn test_da0_identification() {
    let mut s = make_screen(10, 10);
    let mut performer = Performer::new(&mut s);
    performer.esc_dispatch(&[], false, b'Z');
    assert_eq!(s.write_process_input.len(), 1);
    assert!(s.write_process_input[0].contains("[?6c"));
}

#[test]
fn test_parser_private_mode_via_feed() {
    let mut s = make_screen(10, 10);
    let mut parser = Parser::new();
    parser.feed(&mut s, b"\x1b[?7h");
    assert!(s.mode.has_private(mo::DECAWM));
}

#[test]
fn test_parser_public_mode_via_feed() {
    let mut s = make_screen(10, 10);
    let mut parser = Parser::new();
    parser.feed(&mut s, b"\x1b[4h");
    assert!(s.mode.has_public(mo::IRM));
}

#[test]
fn test_parser_osc_title_via_feed() {
    let mut s = make_screen(10, 10);
    let mut parser = Parser::new();
    parser.feed(&mut s, b"\x1b]2;My Terminal\x07");
    assert_eq!(s.title, "My Terminal");
}

#[test]
fn test_parser_esc_charset_via_feed() {
    let mut s = make_screen(10, 10);
    let mut parser = Parser::new();
    parser.feed(&mut s, b"\x1b(0");
    assert_eq!(s.g0_charset, CharsetRef::DecSpecial);
}

#[test]
fn test_parser_cursor_style_via_feed() {
    let mut s = make_screen(10, 10);
    let mut parser = Parser::new();
    parser.feed(&mut s, b"\x1b[2 q");
    assert_eq!(s.cursor_style, CursorStyle::Block);
}

#[test]
fn test_parser_kitty_keyboard_via_feed() {
    let mut s = make_screen(10, 10);
    let mut parser = Parser::new();
    parser.feed(&mut s, b"\x1b[3=u");
    assert_eq!(s.keyboard_mode, 3);
}

#[test]
fn test_parser_da1_via_feed() {
    let mut s = make_screen(10, 10);
    let mut parser = Parser::new();
    parser.feed(&mut s, b"\x1b[c");
    assert_eq!(s.write_process_input.len(), 1);
    assert!(s.write_process_input[0].contains("[?6c"));
}

#[test]
fn test_parser_da0_via_feed() {
    let mut s = make_screen(10, 10);
    let mut parser = Parser::new();
    parser.feed(&mut s, b"\x1bZ");
    assert_eq!(s.write_process_input.len(), 1);
    assert!(s.write_process_input[0].contains("[?6c"));
}

#[test]
fn test_csi_erase_characters() {
    let mut s = make_screen(10, 1);
    s.draw("abcde");
    s.cursor.x = 1;
    s.csi_dispatch(&[3], &[], 'X');
    let display = s.display();
    assert_eq!(display[0], "a   e     ");
}

#[test]
fn test_csi_clear_tab_stop_current() {
    let mut s = make_screen(10, 10);
    s.tabstops.insert(4);
    s.tabstops.insert(8);
    s.csi_dispatch(&[], &[], 'g');
    s.cursor.x = 4;
    s.csi_dispatch(&[], &[], 'g');
    assert!(!s.tabstops.contains(&4));
    assert!(s.tabstops.contains(&8));
}

#[test]
fn test_csi_truecolor() {
    let mut s = make_screen(10, 1);
    s.csi_dispatch(&[38, 2, 128, 66, 255], &[], 'm');
    s.draw("x");
    assert_eq!(s.buffer[0][0].fg, "8042ff");
}

#[test]
fn test_parser_csi_trailing_semicolon() {
    let mut s = make_screen(10, 1);
    let mut parser = Parser::new();
    parser.feed(&mut s, b"\x1b[4;m");
    s.draw("x");
    assert_eq!(s.buffer[0][0].underscore, false);
}

#[test]
fn test_parser_csi_leading_semicolon() {
    let mut s = make_screen(10, 1);
    let mut parser = Parser::new();
    parser.feed(&mut s, b"\x1b[;4m");
    s.draw("x");
    assert_eq!(s.buffer[0][0].underscore, true);
}

#[test]
fn test_parser_csi_subparameters() {
    let mut s = make_screen(10, 1);
    let mut parser = Parser::new();
    parser.feed(&mut s, b"\x1b[38:2:255:0:255m");
    s.draw("x");
    assert_eq!(s.buffer[0][0].fg, "ff00ff");
}

#[test]
fn test_parser_csi_reset() {
    let mut s = make_screen(10, 1);
    let mut parser = Parser::new();
    parser.feed(&mut s, b"\x1b[3;1\x1b[1m");
    s.draw("x");
    assert_eq!(s.buffer[0][0].bold, true);
}

#[test]
fn test_parser_esc_charset() {
    let mut s = make_screen(10, 10);
    let mut parser = Parser::new();
    parser.feed(&mut s, b"\x1b(B");
    assert_eq!(s.g0_charset, CharsetRef::Ascii);
}

#[test]
fn test_parser_esc_linefeed() {
    let mut s = make_screen(10, 10);
    let mut parser = Parser::new();
    s.cursor.y = 3;
    parser.feed(&mut s, b"\x1bM");
    assert_eq!(s.cursor.y, 2);
}

#[test]
fn test_parser_esc_next_line() {
    let mut s = make_screen(10, 10);
    let mut parser = Parser::new();
    s.cursor.y = 3;
    parser.feed(&mut s, b"\x1bE");
    assert_eq!(s.cursor.y, 4);
    assert_eq!(s.cursor.x, 0);
}

#[test]
fn test_parser_esc_set_tab_stop() {
    let mut s = make_screen(10, 10);
    let mut parser = Parser::new();
    s.cursor.x = 5;
    parser.feed(&mut s, b"\x1bH");
    assert!(s.tabstops.contains(&5));
}

#[test]
fn test_parser_osc_both_name() {
    let mut s = make_screen(10, 10);
    let mut parser = Parser::new();
    parser.feed(&mut s, b"\x1b]l;icon;title\x07");
    assert_eq!(s.icon_name, "icon");
    assert_eq!(s.title, "title");
}

#[test]
fn test_parser_csi_alignment_display() {
    let mut s = make_screen(5, 5);
    let mut parser = Parser::new();
    parser.feed(&mut s, b"\x1b#8");
    let display = s.display();
    assert_eq!(display, vec!["EEEEE"; 5]);
}

#[test]
fn test_parser_csi_sgr_256() {
    let mut s = make_screen(10, 1);
    let mut parser = Parser::new();
    parser.feed(&mut s, b"\x1b[38;5;196m");
    s.draw("x");
    assert_eq!(s.buffer[0][0].fg, "ff0000");
}

#[test]
fn test_parser_csi_sgr_aixterm() {
    let mut s = make_screen(10, 1);
    let mut parser = Parser::new();
    parser.feed(&mut s, b"\x1b[91m");
    s.draw("x");
    assert_eq!(s.buffer[0][0].fg, "brightred");
}

#[test]
fn test_parser_csi_scroll_region() {
    let mut s = make_screen(10, 10);
    let mut parser = Parser::new();
    parser.feed(&mut s, b"\x1b[3;7r");
    assert_eq!(s.margins, Some(Margins { top: 2, bottom: 6 }));
}

#[test]
fn test_parser_csi_save_restore_cursor() {
    let mut s = make_screen(10, 10);
    let mut parser = Parser::new();
    s.cursor.x = 3;
    s.cursor.y = 4;
    parser.feed(&mut s, b"\x1b7");
    s.cursor.x = 7;
    s.cursor.y = 8;
    parser.feed(&mut s, b"\x1b8");
    assert_eq!(s.cursor.x, 3);
    assert_eq!(s.cursor.y, 4);
}

#[test]
fn a_performer_works_on_the_screen_it_was_given() {
    let mut s = make_screen(1, 3);
    s.draw("abc");
    s.cursor_position(1, 1);
    let mut p = Performer::new(&mut s);
    p.esc_dispatch(&[], false, b'M');
    p.osc_dispatch(&[&b"2"[..], &b"title"[..]], true);
    p.print('x');
    assert_eq!(s.display(), vec!["x", "a", "b"]);
    assert_eq!(s.title, "title");
}

#[test]
fn scroll_sequences_move_the_lines() {
    let mut s = make_screen(1, 3);
    s.draw("abc");
    let mut parser = Parser::new();
    parser.feed(&mut s, b"\x1b[T");
    assert_eq!(s.display(), vec![" ", "a", "b"]);
    parser.feed(&mut s, b"\x1b[S");
    assert_eq!(s.display(), vec!["a", "b", " "]);
    parser.feed(&mut s, b"\x1b[2;3r");
    assert_eq!(s.margins, Some(Margins { top: 1, bottom: 2 }));
    parser.feed(&mut s, b"\x1b[0;0r");
    assert_eq!(s.margins, None);
}

#[test]
fn line_drawing_is_designated_by_an_escape() {
    let mut s = make_screen(4, 1);
    let mut parser = Parser::new();
    parser.feed(&mut s, b"\x1b(0lqk\x1b(Bq");
    assert_eq!(s.display(), vec!["\u{250c}\u{2500}\u{2510}q"]);
}

#[test]
fn a_stream_is_fed_after_its_screen_was_changed() {
    let mut stream = Stream::new();
    assert!(stream.screen().is_none());
    stream.feed(b"dropped");
    stream.attach(make_screen(3, 1));
    stream.feed(b"\x1b[3");
    if let Some(s) = stream.screen() {
        s.draw("a");
    }
    stream.feed(b"1mb");
    let s = stream.detach().unwrap();
    assert_eq!(s.display(), vec!["ab "]);
    assert_eq!(s.buffer[0][1].fg, "red");
}
