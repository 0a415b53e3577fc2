use stitch_pty::terminal::cell::Char;
use stitch_pty::terminal::history::HistoryScreen;
use stitch_pty::terminal::modes as mo;

fn make_history(cols: usize, lines: usize, scrollback: usize) -> HistoryScreen {
    HistoryScreen::new(cols, lines, scrollback)
}

#[test]
fn test_new() {
    let hs = make_history(80, 24, 1000);
    assert_eq!(hs.columns(), 80);
    assert_eq!(hs.lines(), 24);
    assert_eq!(hs.history_size(), 0);
    assert_eq!(hs.scrollback_lines(), 1000);
}

#[test]
fn test_scroll_up_pushes_to_history() {
    let mut hs = make_history(5, 3, 100);
    hs.draw("line0");
    hs.inner.cursor.y = 0;

    for (i, line) in ["line0", "line1", "line2"].iter().enumerate() {
        for (j, ch) in line.chars().enumerate() {
            hs.inner.buffer[i][j] = Char::new(ch.to_string());
        }
    }

    hs.scroll_up_with_history(1);
    assert_eq!(hs.history_size(), 1);
    assert_eq!(hs.history_display()[0], "line0");
}

#[test]
fn test_scroll_down_pops_from_history() {
    let mut hs = make_history(5, 3, 100);
    for (i, line) in ["line0", "line1", "line2"].iter().enumerate() {
        for (j, ch) in line.chars().enumerate() {
            hs.inner.buffer[i][j] = Char::new(ch.to_string());
        }
    }

    hs.scroll_up_with_history(1);
    assert_eq!(hs.history_size(), 1);

    hs.scroll_down_with_history(1);
    assert_eq!(hs.history_size(), 0);
    assert_eq!(hs.visible_display()[0], "line0");
}

#[test]
fn test_feed_scroll_populates_history() {
    let mut hs = make_history(10, 3, 100);
    hs.feed(b"L0\r\nL1\r\nL2\r\nL3\r\nL4");
    assert!(hs.history_size() >= 2, "history={}", hs.history_size());
    assert_eq!(hs.history_display()[0].trim_end(), "L0");
    assert_eq!(hs.styled_viewport().len(), hs.total_lines());
}

#[test]
fn test_resize_shrink_pushes_top_to_history() {
    let mut hs = make_history(10, 4, 100);
    hs.feed(b"A\r\nB\r\nC\r\nD");
    assert_eq!(hs.history_size(), 0);
    hs.resize(2, 10);
    assert!(hs.history_size() >= 2, "history={}", hs.history_size());
    assert_eq!(hs.history_display()[0].trim_end(), "A");
    assert_eq!(hs.visible_display().last().unwrap().trim_end(), "D");
}

#[test]
fn test_resize_grow_preserves_history() {
    let mut hs = make_history(10, 2, 100);
    hs.feed(b"A\r\nB\r\nC\r\nD");
    let before = hs.history_size();
    assert!(before >= 2, "history={}", before);
    hs.resize(4, 10);
    assert_eq!(hs.history_size(), before);
    let vis = hs.visible_display();
    assert_eq!(vis.len(), 4);
    assert_eq!(vis[0].trim_end(), "C");
    assert_eq!(vis[1].trim_end(), "D");
    assert_eq!(vis[2].trim_end(), "");
}

#[test]
fn test_alt_screen_swap_and_restore() {
    let mut hs = make_history(10, 3, 100);
    hs.feed(b"primary");
    let saved_x = hs.cursor().x;
    hs.feed(b"\x1b[?1049h");
    assert!(hs.alt_screen());
    assert_eq!(hs.visible_display()[0].trim_end(), "");
    hs.feed(b"\x1b[H");
    hs.feed(b"ALT");
    assert_eq!(hs.visible_display()[0].trim_end(), "ALT");
    hs.feed(b"\x1b[?1049l");
    assert!(!hs.alt_screen());
    assert_eq!(hs.visible_display()[0].trim_end(), "primary");
    assert_eq!(hs.cursor().x, saved_x);
}

#[test]
fn test_alt_screen_no_scrollback() {
    let mut hs = make_history(10, 3, 100);
    hs.feed(b"\x1b[?1049h");
    let before = hs.history_size();
    hs.feed(b"a\r\nb\r\nc\r\nd\r\ne\r\nf");
    assert_eq!(hs.history_size(), before, "alt screen must not feed scrollback");
    hs.feed(b"\x1b[?1049l");
}

#[test]
fn test_alt_screen_resize_restores_primary() {
    let mut hs = make_history(10, 4, 100);
    hs.feed(b"P0\r\nP1\r\nP2\r\nP3");
    hs.feed(b"\x1b[?1049h");
    hs.resize(6, 10);
    assert!(hs.alt_screen());
    assert_eq!(hs.lines(), 6);
    hs.feed(b"\x1b[?1049l");
    assert_eq!(hs.lines(), 6);
    let vis = hs.visible_display();
    assert_eq!(vis[0].trim_end(), "P0");
    assert_eq!(vis[3].trim_end(), "P3");
}

#[test]
fn test_styled_range_windows_buffer() {
    let mut hs = make_history(10, 3, 100);
    hs.feed(b"L0\r\nL1\r\nL2\r\nL3\r\nL4\r\nL5");
    let total = hs.total_lines();
    assert_eq!(total, hs.history_size() + 3);
    let full = hs.styled_range(0, total);
    assert_eq!(full.len(), total);
    assert_eq!(full.len(), hs.styled_viewport().len());
    assert_eq!(hs.styled_range(1, 2).len(), 2);
    assert_eq!(hs.styled_range(total + 5, 4).len(), 0);
    assert_eq!(hs.styled_range(total - 1, 10).len(), 1);
}

#[test]
fn test_styled_range_matches_viewport_rows() {
    let mut hs = make_history(8, 2, 50);
    hs.feed(b"\x1b[31mAB\x1b[0m\r\nCD\r\nEF");
    let vp = hs.styled_viewport();
    let win = hs.styled_range(0, hs.total_lines());
    assert_eq!(win, vp);
}

#[test]
fn test_scrollback_limit() {
    let mut hs = make_history(5, 3, 2);
    for _ in 0..5 {
        hs.scroll_up_with_history(1);
    }
    assert_eq!(hs.history_size(), 2);
}

#[test]
fn test_unlimited_scrollback() {
    let mut hs = HistoryScreen::new(5, 3, 0);
    for _ in 0..10 {
        hs.scroll_up_with_history(1);
    }
    assert_eq!(hs.history_size(), 10);
}

#[test]
fn test_display_includes_history() {
    let mut hs = make_history(5, 2, 100);
    hs.draw("top");
    hs.inner.buffer[1] = vec![Char::new("bottom".chars().next().unwrap()); 5];

    hs.scroll_up_with_history(1);

    let full = hs.display();
    assert!(full.len() >= 2);
}

#[test]
fn test_visible_display() {
    let hs = make_history(5, 2, 100);
    assert_eq!(hs.visible_display().len(), 2);
}

#[test]
fn test_index_scrolls_to_history() {
    let mut hs = make_history(5, 2, 100);
    hs.draw("line0");
    hs.inner.cursor.y = 1;

    hs.index();
    assert_eq!(hs.history_size(), 1);
}

#[test]
fn test_reverse_index_pops_from_history() {
    let mut hs = make_history(5, 2, 100);
    hs.history.push(vec![Char::new("X"); 5]);
    hs.inner.cursor.y = 0;

    hs.reverse_index();
    assert_eq!(hs.history_size(), 0);
}

#[test]
fn test_clear_history() {
    let mut hs = make_history(5, 2, 100);
    hs.scroll_up_with_history(1);
    hs.scroll_up_with_history(1);
    assert_eq!(hs.history_size(), 2);
    hs.clear_history();
    assert_eq!(hs.history_size(), 0);
}

#[test]
fn test_reset_clears_history() {
    let mut hs = make_history(5, 2, 100);
    hs.scroll_up_with_history(1);
    assert_eq!(hs.history_size(), 1);
    hs.reset();
    assert_eq!(hs.history_size(), 0);
}

#[test]
fn test_resize() {
    let mut hs = make_history(5, 3, 100);
    hs.resize(4, 10);
    assert_eq!(hs.lines(), 4);
    assert_eq!(hs.columns(), 10);
}

#[test]
fn test_draw_delegation() {
    let mut hs = make_history(10, 1, 100);
    hs.draw("Hello");
    assert_eq!(hs.visible_display(), vec!["Hello     "]);
}

#[test]
fn test_cursor_delegation() {
    let mut hs = make_history(10, 10, 100);
    hs.cursor_position(5, 5);
    assert_eq!(hs.cursor().y, 4);
    assert_eq!(hs.cursor().x, 4);
}

#[test]
fn test_mode_delegation() {
    let mut hs = make_history(10, 10, 100);
    hs.set_mode(mo::DECAWM, true);
    assert!(hs.mode().has_private(mo::DECAWM));
}

#[test]
fn test_sgr_delegation() {
    let mut hs = make_history(10, 10, 100);
    hs.select_graphic_rendition(&[1, 31]);
    assert!(hs.cursor().attrs.bold);
    assert_eq!(hs.cursor().attrs.fg, "red");
}

#[test]
fn scrolling_back_undoes_scrolling_on_the_screen() {
    let mut hs = HistoryScreen::new(1, 3, 100);
    hs.draw("abc");
    hs.scroll_up_with_history(1);
    assert_eq!(hs.visible_display(), vec!["b", "c", " "]);
    hs.scroll_down_with_history(1);
    assert_eq!(hs.history_size(), 0);
    assert_eq!(hs.display(), vec!["a", "b", "c"]);
    hs.scroll_up_with_history(2);
    assert_eq!(hs.history_display(), vec!["a", "b"]);
    hs.scroll_down_with_history(2);
    assert_eq!(hs.history_size(), 0);
    assert_eq!(hs.display(), vec!["a", "b", "c"]);
}

#[test]
fn scrolling_back_too_far_brings_blank_lines() {
    let mut hs = HistoryScreen::new(1, 3, 0);
    hs.draw("abc");
    hs.scroll_up_with_history(1);
    hs.scroll_down_with_history(2);
    assert_eq!(hs.display(), vec![" ", "a", "b"]);
}

#[test]
fn scrolling_back_keeps_to_the_region_and_marks_it() {
    let mut hs = HistoryScreen::new(1, 4, 0);
    hs.draw("abcd");
    hs.set_margins(Some(2), Some(3));
    let _ = hs.take_dirty_rows();
    hs.scroll_up_with_history(1);
    assert_eq!(hs.take_dirty_rows(), vec![1, 2]);
    assert_eq!(hs.visible_display(), vec!["a", "c", " ", "d"]);
    hs.scroll_down_with_history(1);
    assert_eq!(hs.take_dirty_rows(), vec![1, 2]);
    assert_eq!(hs.visible_display(), vec!["a", "b", "c", "d"]);
}

#[test]
fn every_range_is_a_window_of_the_viewport() {
    let mut hs = HistoryScreen::new(2, 2, 0);
    hs.feed(b"a\r\nb\r\nc\r\nd");
    let all = hs.styled_viewport();
    let total = hs.total_lines();
    assert_eq!(all.len(), total);
    for start in [0, 1, 3, 4, 5, usize::MAX] {
        for count in [0, 1, 2, 4, usize::MAX] {
            let from = start.min(total);
            let to = start.saturating_add(count).min(total);
            assert_eq!(hs.styled_range(start, count), all[from..to].to_vec());
        }
    }
}

#[test]
fn a_screen_without_cells_can_grow() {
    let mut hs = HistoryScreen::new(0, 0, 5);
    hs.set_title("t");
    hs.select_graphic_rendition(&[31]);
    hs.save_cursor();
    hs.reset();
    hs.resize(2, 3);
    hs.feed(b"abc");
    assert_eq!(hs.display(), vec!["abc", "   "]);
}
