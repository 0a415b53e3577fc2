use stitch_pty::terminal::cell::{columns_taken, Char};
use stitch_pty::terminal::charsets::CharsetRef;
use stitch_pty::terminal::cwd::parse_osc7;
use stitch_pty::terminal::events::{drop_bells, log_event, TermEvent, MAX_EVENTS};
use stitch_pty::terminal::modes::{Modes, DECAWM, DECOM, IRM, LNM, SGR_MOUSE};
use stitch_pty::text::{joined, push_decimal, push_signed, rgb_name};
use stitch_pty::utf8::{decode_lossy, decode_strict, well_formed_len};
use stitch_pty::{HistoryScreen, Parser, Screen};

fn in_order(s: &Screen) {
    assert_eq!(s.buffer.len(), s.lines);
    for row in &s.buffer {
        assert_eq!(row.len(), s.columns);
    }
    assert!(s.cursor.x <= s.columns);
    assert!(s.cursor.y < s.lines);
    assert_eq!(s.alt_screen, s.parked.is_some());
}

fn noise(seed: u32, len: usize) -> Vec<u8> {
    let pieces: [&[u8]; 12] = [
        b"\x1b[", b"?1049h", b"?1049l", b"5;2r", b"\x1bM", b"\n\n", b"99999A", b"\x1b]2;t\x07",
        b"\xe4\xb8\xad", b"\x1b[?3h", b"\x1b[2J", b"\xff\xc2",
    ];
    let mut state = seed;
    let mut out: Vec<u8> = Vec::new();
    while out.len() < len {
        state = state.wrapping_mul(1_664_525).wrapping_add(1_013_904_223);
        let pick = (state >> 16) as usize;
        if pick % 3 == 0 {
            out.extend_from_slice(pieces[pick / 3 % pieces.len()]);
        } else {
            out.push((pick % 256) as u8);
        }
    }
    out
}

#[test]
fn any_input_leaves_the_screen_in_order() {
    for seed in 0..40 {
        let mut s = Screen::new(7, 4);
        let mut p = Parser::new();
        for chunk in noise(seed, 600).chunks(1 + seed as usize) {
            p.feed(&mut s, chunk);
            in_order(&s);
        }
    }
}

#[test]
fn input_may_be_cut_anywhere() {
    let input = b"a\x1b[1;31mb\xe4\xb8\xad\x1b]2;title\x07c\x1b[2;3Hd\xf0\x9f\x9a\x80";
    let mut whole = Screen::new(12, 3);
    Parser::new().feed(&mut whole, input);
    for cut in 0..=input.len() {
        let mut s = Screen::new(12, 3);
        let mut p = Parser::new();
        p.feed(&mut s, &input[..cut]);
        p.feed(&mut s, &input[cut..]);
        assert_eq!(s.display(), whole.display());
        assert_eq!(s.title, whole.title);
        assert_eq!((s.cursor.x, s.cursor.y), (whole.cursor.x, whole.cursor.y));
    }
}

#[test]
fn a_restore_brings_back_what_was_saved() {
    let mut s = Screen::new(10, 10);
    s.cursor_position(3, 4);
    s.select_graphic_rendition(&[1, 32]);
    s.set_mode(DECOM, true);
    s.cursor_position(3, 4);
    s.save_cursor();
    s.reset_mode(DECOM, true);
    s.select_graphic_rendition(&[0]);
    s.cursor_position(9, 9);
    s.restore_cursor();
    assert_eq!((s.cursor.x, s.cursor.y), (3, 2));
    assert!(s.cursor.attrs.bold);
    assert_eq!(s.cursor.attrs.fg, "green");
    assert!(s.mode.has_private(DECOM));
    assert!(s.cursor.stack.is_empty());
}

#[test]
fn a_pop_undoes_a_push() {
    let mut s = Screen::new(10, 10);
    s.push_keyboard_mode(5);
    s.push_keyboard_mode(7);
    s.pop_keyboard_modes(1);
    assert_eq!(s.keyboard_mode, 7);
    assert_eq!(s.keyboard_mode_stack, vec![5]);
}

#[test]
fn the_alternate_screen_leaves_the_primary_one_alone() {
    let mut hs = HistoryScreen::new(6, 3, 10);
    hs.feed(b"one\r\ntwo\x1b[31m");
    let before = hs.visible_display();
    let at = (hs.cursor().x, hs.cursor().y);
    hs.feed(b"\x1b[?1049h");
    hs.feed(&noise(3, 50).into_iter().filter(|b| *b != 0x1b && *b < 0x80).collect::<Vec<u8>>());
    hs.feed(b"\x1b[?1049l");
    assert_eq!(hs.visible_display(), before);
    assert_eq!((hs.cursor().x, hs.cursor().y), at);
    assert_eq!(hs.cursor().attrs.fg, "red");
    assert_eq!(hs.history_size(), 0);
}

#[test]
fn the_working_directory_is_the_shells() {
    let mut s = Screen::new(6, 3);
    s.set_cwd("/tmp".to_string());
    s.enter_alt_screen();
    assert_eq!(s.cwd.as_deref(), Some("/tmp"));
    s.exit_alt_screen();
    s.resize(2, 2);
    s.reset();
    assert_eq!(s.cwd.as_deref(), Some("/tmp"));
}

#[test]
fn a_resize_keeps_the_common_part() {
    let mut s = Screen::new(4, 3);
    s.draw("abcd");
    s.resize(5, 6);
    assert_eq!(s.display()[0], "abcd  ");
    assert_eq!(s.display().len(), 5);
    s.resize(2, 3);
    assert_eq!(s.display(), vec!["abc", "   "]);
}

#[test]
fn a_tab_goes_to_the_next_stop() {
    let mut s = Screen::new(30, 1);
    s.tab();
    assert_eq!(s.cursor.x, 8);
    s.cursor.x = 9;
    s.tab();
    assert_eq!(s.cursor.x, 16);
    s.cursor.x = 25;
    s.tab();
    assert_eq!(s.cursor.x, 29);
}

#[test]
fn text_is_shown_where_it_is_written() {
    let mut s = Screen::new(10, 2);
    s.draw("plain text");
    assert_eq!(s.display()[0], "plain text");
    let mut t = Screen::new(10, 2);
    Parser::new().feed_str(&mut t, "plain text");
    assert_eq!(t.display(), s.display());
}

#[test]
fn a_full_erase_leaves_blanks() {
    let mut s = Screen::new(4, 2);
    s.draw("abcdefg");
    s.erase_in_display(2);
    assert_eq!(s.display(), vec!["    "; 2]);
}

#[test]
fn a_bounded_scrollback_keeps_the_newest_lines() {
    let mut hs = HistoryScreen::new(3, 2, 2);
    hs.feed(b"1\r\n2\r\n3\r\n4\r\n5\r\n6");
    assert_eq!(hs.history_display(), vec!["3  ", "4  "]);
    let mut all = HistoryScreen::new(3, 2, 0);
    all.feed(b"1\r\n2\r\n3\r\n4\r\n5\r\n6");
    assert_eq!(all.history_display(), vec!["1  ", "2  ", "3  ", "4  "]);
    assert_eq!(all.styled_range(0, all.total_lines()), all.styled_viewport());
}

#[test]
fn shrinking_and_growing_lose_no_line() {
    let mut hs = HistoryScreen::new(3, 4, 0);
    hs.feed(b"1\r\n2\r\n3\r\n4");
    hs.resize(2, 3);
    assert_eq!(hs.display(), vec!["1  ", "2  ", "3  ", "4  "]);
    let kept = hs.history_size();
    hs.resize(5, 3);
    assert_eq!(hs.history_size(), kept);
}

#[test]
fn the_log_forgets_its_oldest_events() {
    let mut log: Vec<TermEvent> = Vec::new();
    log_event(&mut log, TermEvent::TitleChanged("first".to_string()));
    for _ in 0..MAX_EVENTS {
        log_event(&mut log, TermEvent::Bell);
    }
    assert_eq!(log.len(), MAX_EVENTS);
    assert!(log.iter().all(|e| *e == TermEvent::Bell));
    log_event(&mut log, TermEvent::IconChanged("i".to_string()));
    drop_bells(&mut log);
    assert_eq!(log, vec![TermEvent::IconChanged("i".to_string())]);
}

#[test]
fn modes_do_not_touch_each_other() {
    let mut modes = Modes::new();
    modes.set_private(SGR_MOUSE);
    modes.set_public(IRM);
    modes.clear_private(SGR_MOUSE);
    modes.clear_public(IRM);
    assert!(modes.has_private(DECAWM) && modes.has_public(LNM));
    assert!(!modes.has_private(SGR_MOUSE) && !modes.has_public(IRM));
}

#[test]
fn line_drawing_touches_only_its_bytes() {
    for b in 0..=255u8 {
        let drawn = CharsetRef::DecSpecial.map(b);
        if !(0x5f..=0x7e).contains(&b) {
            assert_eq!(drawn, b as char);
        }
    }
}

#[test]
fn plain_paths_are_read_as_they_are() {
    assert_eq!(parse_osc7(b"file://host/a/b_c.d"), Some("/a/b_c.d".to_string()));
}

#[test]
fn widths_are_those_of_unicode() {
    assert_eq!(columns_taken('a'), 1);
    assert_eq!(columns_taken('\u{4e2d}'), 2);
    assert_eq!(columns_taken('\u{0301}'), 0);
    assert_eq!(Char::new("\u{4e2d}").width(), 2);
    assert_eq!(Char::new("e\u{0301}").to_string(), "e\u{0301}");
    assert!(Char::blank().is_blank());
}

#[test]
fn numbers_become_text() {
    let mut s = String::new();
    push_decimal(&mut s, u128::MAX);
    assert_eq!(s, u128::MAX.to_string());
    let mut s = String::new();
    push_signed(&mut s, i64::MIN);
    s.push(' ');
    push_signed(&mut s, 0);
    assert_eq!(s, "-9223372036854775808 0");
    assert_eq!(rgb_name(1, 0xab, 255), "01abff");
    assert_eq!(joined("a", "b"), "ab");
}

#[test]
fn well_formed_text_ends_where_the_standard_library_says() {
    let cases: [&[u8]; 6] = [b"", b"ab", b"a\xc3\xa9\xc3", b"\xff", b"\xc3\xa9A\xed\xa0", b"x\x80y"];
    for bytes in cases {
        let expected = match std::str::from_utf8(bytes) {
            Ok(_) => bytes.len(),
            Err(e) => e.valid_up_to(),
        };
        assert_eq!(well_formed_len(bytes), expected);
    }
}

#[test]
fn bytes_become_text_as_the_standard_library_makes_it() {
    let cases: [&[u8]; 7] = [
        b"plain", b"m\xc3\xbcnchen", b"\xf0\x9f\x9a\x80", b"a\xff\xfeb", b"\xe4\xb8", b"\xed\xa0\x80",
        b"\xf4\x90\x80\x80x\xc0\xaf",
    ];
    for bytes in cases {
        assert_eq!(decode_lossy(bytes), String::from_utf8_lossy(bytes));
        assert_eq!(decode_strict(bytes), String::from_utf8(bytes.to_vec()).ok());
    }
}

#[test]
fn no_row_changes_without_a_mark() {
    let pieces: [&[u8]; 16] = [
        b"ab", b"\r\ncd", b"\x1b[?5h", b"\x1b[?5l", b"\x1b[2;3r", b"\x1b[S", b"\x1b[T", b"\x1bM",
        b"\x1b[2;1H\x1b[L", b"\x1b[M", b"\x1b#8", b"\x1b[2J", b"e\xcc\x88", b"\x1b[?1049h",
        b"alt", b"\x1b[?1049l",
    ];
    let mut s = Screen::new(4, 4);
    let mut parser = Parser::new();
    for round in 0..40u32 {
        let mut input = pieces[(round % 16) as usize].to_vec();
        if round >= 16 {
            input.extend(noise(round, 20));
        }
        let _ = s.take_dirty_rows();
        let before = s.display();
        parser.feed(&mut s, &input);
        let after = s.display();
        for y in 0..4 {
            assert!(before[y] == after[y] || s.dirty.contains(&y));
        }
    }
}
