use stitch_pty::terminal::events::TermEvent;
use stitch_pty::{HistoryScreen, TerminalState};

#[test]
fn a_terminal_starts_blank() {
    let t = TerminalState::new(10, 3, 100);
    assert_eq!(t.visible_display(), vec!["          "; 3]);
    assert!(t.history_display().is_empty());
    assert_eq!((t.cursor_x(), t.cursor_y()), (0, 0));
    assert_eq!(t.title(), "");
    assert_eq!(t.history_size(), 0);
    assert_eq!(t.scrollback_lines(), 100);
    assert_eq!(t.total_lines(), 3);
    assert!(t.cursor_visible());
    assert!(!t.app_cursor());
    assert!(!t.bracketed_paste());
    assert!(!t.sgr_mouse());
    assert!(!t.alt_screen());
    assert_eq!(t.mouse_proto(), 0);
    assert_eq!(t.cursor_shape(), "block");
    assert_eq!(t.cwd(), None);
    assert_eq!(t.__repr__(), "TerminalState(10x3, scrollback=0)");
}

#[test]
fn output_scrolls_into_the_history() {
    let mut t = TerminalState::new(5, 2, 1);
    t.feed(b"a\r\nb\r\nc\r\nd");
    assert_eq!(t.history_display(), vec!["b    "]);
    assert_eq!(t.display(), vec!["b    ", "c    ", "d    "]);
    assert_eq!(t.absolute_cursor(), (1, 2));
    assert_eq!(t.__repr__(), "TerminalState(5x2, scrollback=1)");
    t.set_scrollback_lines(0);
    t.feed(b"\r\ne");
    assert_eq!(t.history_size(), 2);
    t.set_scrollback_lines(1);
    assert_eq!(t.history_display(), vec!["c    "]);
    t.reset();
    assert_eq!(t.history_size(), 0);
    assert_eq!(t.visible_display(), vec!["     "; 2]);
}

#[test]
fn modes_are_surfaced() {
    let mut t = TerminalState::new(10, 3, 0);
    t.feed(b"\x1b[?1h\x1b[?25l\x1b[?2004h\x1b[?1006h\x1b[?1000h\x1b[?1002h\x1b[4 q");
    assert!(t.app_cursor());
    assert!(!t.cursor_visible());
    assert!(t.bracketed_paste());
    assert!(t.sgr_mouse());
    assert_eq!(t.mouse_proto(), 1002);
    assert_eq!(t.cursor_shape(), "underline");
    assert!(!t.cursor_blink());
    t.feed(b"\x1b[?1003h\x1b[5 q");
    assert_eq!(t.mouse_proto(), 1003);
    assert_eq!(t.cursor_shape(), "bar");
    assert!(t.cursor_blink());
    t.feed(b"\x1b[?1049h");
    assert!(t.alt_screen());
}

#[test]
fn events_come_in_order() {
    let mut t = TerminalState::new(10, 3, 0);
    t.feed(b"\x1b]2;t\x07\x07\x1b[?1049h");
    assert_eq!(
        t.poll_events(),
        vec![
            TermEvent::TitleChanged("t".to_string()),
            TermEvent::Bell,
            TermEvent::AltScreen { entered: true },
        ]
    );
    assert!(t.poll_events().is_empty());
    assert!(!t.take_bell());
}

#[test]
fn a_bell_is_taken_once() {
    let mut t = TerminalState::new(10, 3, 0);
    t.feed(b"\x07\x07");
    assert!(t.take_bell());
    assert!(!t.take_bell());
    assert!(t.poll_events().is_empty());
}

#[test]
fn only_a_bell_character_rings() {
    let mut t = TerminalState::new(10, 3, 0);
    t.feed(b"\x07");
    assert!(t.take_bell());
    t.feed(b"text\x1b]2;title\x07\x1b[31m\r\n");
    assert!(!t.take_bell());
    t.feed(b"\x07");
    assert!(t.take_bell());
}

#[test]
fn a_line_that_scrolled_off_comes_back() {
    let mut hs = HistoryScreen::new(4, 3, 0);
    hs.feed(b"old\r\na\r\nb");
    hs.scroll_up_with_history(1);
    assert_eq!(hs.history_display(), vec!["old "]);
    hs.scroll_down_with_history(1);
    assert_eq!(hs.visible_display()[0], "old ");
    assert_eq!(hs.history_size(), 0);
}

#[test]
fn a_growing_scrollback_is_reported() {
    let mut t = TerminalState::new(10, 2, 0);
    t.feed(b"a\r\nb\r\nc\r\nd");
    assert_eq!(t.poll_events(), vec![TermEvent::ScrollbackGrew(2)]);
    assert!(t.poll_events().is_empty());
}

#[test]
fn changed_rows_are_drained() {
    let mut t = TerminalState::new(10, 4, 0);
    t.take_dirty_rows();
    assert!(t.dirty().is_empty());
    t.feed(b"\x1b[3;1Hx\x1b[1;1Hy");
    assert_eq!(t.dirty(), vec![0, 2]);
    assert_eq!(t.take_dirty_rows(), vec![0, 2]);
    assert!(t.take_dirty_rows().is_empty());
    t.resize(2, 10);
    assert_eq!(t.take_dirty_rows(), vec![0, 1]);
    t.reset();
    assert_eq!(t.take_dirty_rows(), vec![0, 1]);
}

#[test]
fn the_shell_reports_its_directory() {
    let mut t = TerminalState::new(10, 2, 0);
    t.feed(b"\x1b]7;file://myhost/home/user%20name\x07");
    assert_eq!(t.cwd(), Some(&"/home/user name".to_string()));
    t.feed(b"\x1b]7;nonsense\x07");
    assert_eq!(t.cwd(), Some(&"/home/user name".to_string()));
    t.reset();
    assert_eq!(t.cwd(), Some(&"/home/user name".to_string()));
    t.feed(b"\x1b]9;9;C:\\Users\\Main\x1b\\");
    assert_eq!(t.cwd(), Some(&r"C:\Users\Main".to_string()));
}

#[test]
fn questions_are_answered_in_order() {
    let mut t = TerminalState::new(10, 4, 0);
    t.feed(b"\x1b[2;3H\x1b[6n\x1b[5n\x1b[c\x1b[?u");
    assert_eq!(t.take_replies(), vec!["\x1b[2;3R", "\x1b[0n", "\x1b[?6c", "\x1b[0;1;0 u"]);
    assert!(t.take_replies().is_empty());
}

#[test]
fn styled_cells_hold_colours_and_attributes() {
    let mut t = TerminalState::new(2, 1, 0);
    t.feed(b"\x1b[1;31;48;5;21mA");
    let rows = t.styled_viewport();
    let cell = ("A".to_string(), "red".to_string(), "0000ff".to_string(), 1u8);
    assert_eq!(rows[0][0], cell);
    let blank = (" ".to_string(), "default".to_string(), "default".to_string(), 0u8);
    assert_eq!(rows[0][1], blank);
}

#[test]
fn a_sequence_may_be_cut_between_two_feeds() {
    let mut t = TerminalState::new(4, 1, 0);
    t.feed(b"\x1b[3");
    t.feed(b"1mx");
    assert_eq!(t.visible_display(), vec!["x   "]);
    assert_eq!(t.styled_viewport()[0][0].1, "red");
    t.feed(b"\xc3");
    t.feed(b"\xa9");
    assert_eq!(t.visible_display(), vec!["xé  "]);
}

#[test]
fn a_reset_forgets_what_was_read() {
    let mut t = TerminalState::new(4, 1, 0);
    t.feed(b"\x1b[3");
    t.reset();
    t.feed(b"1m");
    assert_eq!(t.visible_display(), vec!["1m  "]);
}

#[test]
fn pieces_of_input_fill_the_scrollback_as_the_whole_does() {
    let input = b"one\r\n\x1b[32mtwo\r\n\xe4\xb8\xad\r\nfour\r\n\x1b]2;t\x07five\r\nsix";
    for limit in [0, 2] {
        let mut whole = TerminalState::new(6, 2, limit);
        whole.feed(input);
        for cut in 0..=input.len() {
            let mut t = TerminalState::new(6, 2, limit);
            t.feed(&input[..cut]);
            t.feed(&input[cut..]);
            assert_eq!(t.styled_viewport(), whole.styled_viewport());
            assert_eq!(t.history_size(), whole.history_size());
            assert_eq!(t.absolute_cursor(), whole.absolute_cursor());
            assert_eq!(t.title(), "t");
            assert_eq!(t.poll_events(), {
                let mut again = TerminalState::new(6, 2, limit);
                again.feed(input);
                again.poll_events()
            });
        }
    }
}
