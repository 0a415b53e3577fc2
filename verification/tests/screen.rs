use stitch_pty::terminal::cell::Char;
use stitch_pty::terminal::graphics as g;
use stitch_pty::terminal::modes as mo;
use stitch_pty::terminal::screen::Screen;
use stitch_pty::terminal::state::{CursorStyle, KeyboardApplyBehavior, Margins};

fn make_screen(cols: usize, lines: usize) -> Screen {
    Screen::new(cols, lines)
}

#[test]
fn test_char_default() {
    let c = Char::blank();
    assert_eq!(c.data, " ");
    assert_eq!(c.fg, "default");
    assert_eq!(c.bg, "default");
    assert!(!c.bold);
}

#[test]
fn test_char_width() {
    let c = Char::new("A");
    assert_eq!(c.width(), 1);
    let c2 = Char::new("こ");
    assert_eq!(c2.width(), 2);
}

#[test]
fn test_screen_new() {
    let s = make_screen(80, 24);
    assert_eq!(s.columns, 80);
    assert_eq!(s.lines, 24);
    assert_eq!(s.buffer.len(), 24);
    assert_eq!(s.buffer[0].len(), 80);
    assert_eq!(s.cursor.x, 0);
    assert_eq!(s.cursor.y, 0);
}

#[test]
fn test_initial_tabstops() {
    let s = make_screen(80, 24);
    assert!(s.tabstops.contains(&8));
    assert!(s.tabstops.contains(&16));
    assert!(!s.tabstops.contains(&4));
}

#[test]
fn test_display_empty() {
    let s = make_screen(3, 3);
    let d = s.display();
    assert_eq!(d, vec!["   ", "   ", "   "]);
}

#[test]
fn test_draw_basic() {
    let mut s = make_screen(10, 1);
    s.draw("Hello");
    assert_eq!(s.display(), vec!["Hello     "]);
    assert_eq!(s.cursor.x, 5);
}

#[test]
fn test_draw_wrap() {
    let mut s = make_screen(3, 3);
    s.mode.set_public(mo::LNM);
    for ch in "abc".chars() {
        s.draw_char(ch);
    }
    assert_eq!(s.display()[0], "abc");
    assert_eq!(s.cursor.x, 3);

    s.draw_char('a');
    assert_eq!(s.cursor.y, 1);
    assert_eq!(s.cursor.x, 1);
}

#[test]
fn test_draw_width2() {
    let mut s = make_screen(10, 1);
    s.draw("コンニチハ");
    assert_eq!(s.cursor.x, 0);
}

#[test]
fn test_draw_russian() {
    let mut s = make_screen(20, 1);
    s.draw("Нерусский текст");
    assert_eq!(s.display(), vec!["Нерусский текст     "]);
}

#[test]
fn test_cursor_position() {
    let mut s = make_screen(10, 10);
    s.cursor_position(5, 10);
    assert_eq!(s.cursor.y, 4);
    assert_eq!(s.cursor.x, 9);
}

#[test]
fn test_cursor_up_down() {
    let mut s = make_screen(10, 10);
    s.cursor_up(1);
    assert_eq!(s.cursor.y, 0);
    s.cursor.y = 5;
    s.cursor_up(3);
    assert_eq!(s.cursor.y, 2);
    s.cursor_down(3);
    assert_eq!(s.cursor.y, 5);
}

#[test]
fn test_cursor_forward_back() {
    let mut s = make_screen(10, 10);
    s.cursor_forward(5);
    assert_eq!(s.cursor.x, 5);
    s.cursor_back(3);
    assert_eq!(s.cursor.x, 2);
    s.cursor_back(10);
    assert_eq!(s.cursor.x, 0);
}

#[test]
fn test_carriage_return() {
    let mut s = make_screen(10, 10);
    s.cursor.x = 7;
    s.carriage_return();
    assert_eq!(s.cursor.x, 0);
}

#[test]
fn test_sgr_bold() {
    let mut s = make_screen(2, 2);
    s.select_graphic_rendition(&[1]);
    assert!(s.cursor.attrs.bold);
    s.select_graphic_rendition(&[22]);
    assert!(!s.cursor.attrs.bold);
}

#[test]
fn test_sgr_colors() {
    let mut s = make_screen(2, 2);
    s.select_graphic_rendition(&[30, 40]);
    assert_eq!(s.cursor.attrs.fg, "black");
    assert_eq!(s.cursor.attrs.bg, "black");
    s.select_graphic_rendition(&[31]);
    assert_eq!(s.cursor.attrs.fg, "red");
}

#[test]
fn test_sgr_256_color() {
    let mut s = make_screen(2, 2);
    s.select_graphic_rendition(&[g::FG_256, 5, 0]);
    s.select_graphic_rendition(&[g::BG_256, 5, 15]);
    assert_eq!(s.cursor.attrs.fg, "000000");
    assert_eq!(s.cursor.attrs.bg, "ffffff");
}

#[test]
fn test_sgr_24bit_color() {
    let mut s = make_screen(2, 2);
    s.select_graphic_rendition(&[38, 2, 0, 0, 0]);
    s.select_graphic_rendition(&[48, 2, 255, 255, 255]);
    assert_eq!(s.cursor.attrs.fg, "000000");
    assert_eq!(s.cursor.attrs.bg, "ffffff");
}

#[test]
fn test_sgr_reset() {
    let mut s = make_screen(2, 2);
    s.select_graphic_rendition(&[30, 40]);
    s.select_graphic_rendition(&[0]);
    assert_eq!(s.cursor.attrs.fg, "default");
    assert_eq!(s.cursor.attrs.bg, "default");
}

#[test]
fn test_sgr_aixterm() {
    let mut s = make_screen(2, 2);
    s.select_graphic_rendition(&[94]);
    assert_eq!(s.cursor.attrs.fg, "brightblue");
    s.select_graphic_rendition(&[104]);
    assert_eq!(s.cursor.attrs.bg, "brightblue");
}

#[test]
fn test_erase_in_line() {
    let mut s = make_screen(5, 1);
    s.draw("sam i");
    s.cursor.x = 2;
    s.erase_in_line(0);
    assert_eq!(s.display(), vec!["sa   "]);
}

#[test]
fn test_erase_in_display() {
    let mut s = make_screen(3, 3);
    s.draw("abc");
    s.linefeed();
    s.draw("def");
    s.cursor.y = 1;
    s.cursor.x = 1;
    s.erase_in_display(0);
    assert_eq!(s.display()[0], "abc");
    assert_eq!(s.display()[1], "d  ");
    assert_eq!(s.display()[2], "   ");
}

#[test]
fn test_set_margins() {
    let mut s = make_screen(80, 24);
    s.set_margins(Some(1), Some(5));
    assert_eq!(s.margins, Some(Margins { top: 0, bottom: 4 }));
}

#[test]
fn test_margins_reset() {
    let mut s = make_screen(80, 24);
    s.set_margins(Some(1), Some(5));
    s.clear_margins();
    assert_eq!(s.margins, None);
}

#[test]
fn test_save_restore_cursor() {
    let mut s = make_screen(10, 10);
    s.save_cursor();
    s.cursor.x = 3;
    s.cursor.y = 5;
    s.save_cursor();
    s.cursor.x = 4;
    s.cursor.y = 4;

    s.restore_cursor();
    assert_eq!(s.cursor.x, 3);
    assert_eq!(s.cursor.y, 5);

    s.restore_cursor();
    assert_eq!(s.cursor.x, 0);
    assert_eq!(s.cursor.y, 0);
}

#[test]
fn test_set_mode_deccolm() {
    let mut s = make_screen(3, 3);
    s.set_mode(mo::DECCOLM, true);
    assert_eq!(s.columns, 132);
    assert_eq!(s.cursor.x, 0);
    assert_eq!(s.cursor.y, 0);
}

#[test]
fn test_set_mode_dectcem() {
    let mut s = make_screen(10, 10);
    s.cursor.hidden = true;
    s.set_mode(mo::DECTCEM, true);
    assert!(!s.cursor.hidden);
    s.reset_mode(mo::DECTCEM, true);
    assert!(s.cursor.hidden);
}

#[test]
fn test_alignment_display() {
    let mut s = make_screen(5, 5);
    s.alignment_display();
    assert_eq!(s.display(), vec!["EEEEE"; 5]);
}

#[test]
fn test_set_title() {
    let mut s = make_screen(10, 1);
    s.set_title("test");
    assert_eq!(s.title, "test");
    s.set_icon_name("icon");
    assert_eq!(s.icon_name, "icon");
}

#[test]
fn test_index() {
    let mut s = make_screen(2, 2);
    s.draw("wo");
    s.linefeed();
    s.draw("ot");
    s.index(); // At bottom, scrolls up: buffer[0]="ot", buffer[1]="  "
    assert_eq!(s.cursor.y, 1);
    assert_eq!(s.display()[0], "ot");
    s.index(); // Scrolls again: buffer[0]="  ", buffer[1]="  "
    assert_eq!(s.cursor.y, 1);
    assert_eq!(s.display()[0], "  ");
}

#[test]
fn test_reverse_index() {
    let mut s = make_screen(2, 2);
    s.draw("wo");
    s.reverse_index();
    assert_eq!(s.cursor.y, 0);
}

#[test]
fn test_insert_lines() {
    let mut s = make_screen(3, 3);
    s.draw("sam");
    s.linefeed();
    s.draw("is ");
    s.cursor.y = 0;
    s.insert_lines(1);
    assert_eq!(s.display()[0], "   ");
    assert_eq!(s.display()[1], "sam");
}

#[test]
fn test_delete_lines() {
    let mut s = make_screen(3, 3);
    s.draw("sam");
    s.linefeed();
    s.draw("is ");
    s.linefeed();
    s.draw("foo");
    s.cursor.y = 0;
    s.delete_lines(1);
    assert_eq!(s.display()[0], "is ");
    assert_eq!(s.display()[1], "foo");
    assert_eq!(s.display()[2], "   ");
}

#[test]
fn test_insert_characters() {
    let mut s = make_screen(4, 1);
    s.draw("sam");
    s.cursor.x = 0;
    s.insert_characters(1);
    assert_eq!(s.display(), vec![" sam"]);
}

#[test]
fn test_delete_characters() {
    let mut s = make_screen(3, 1);
    s.draw("sam");
    s.cursor.x = 0;
    s.delete_characters(2);
    assert_eq!(s.display(), vec!["m  "]);
}

#[test]
fn test_resize_wider() {
    let mut s = make_screen(2, 2);
    s.draw("bo");
    s.resize(2, 3);
    assert_eq!(s.display(), vec!["bo ", "   "]);
}

#[test]
fn test_resize_narrower() {
    let mut s = make_screen(2, 2);
    s.draw("bo");
    s.resize(2, 1);
    assert_eq!(s.display(), vec!["b", " "]);
}

#[test]
fn test_tab() {
    let mut s = make_screen(10, 10);
    s.clear_tab_stop(3);
    s.cursor.x = 1;
    s.set_tab_stop();
    s.cursor.x = 8;
    s.set_tab_stop();
    s.cursor.x = 0;
    s.tab();
    assert_eq!(s.cursor.x, 1);
    s.tab();
    assert_eq!(s.cursor.x, 8);
}

#[test]
fn test_irm_mode() {
    let mut s = make_screen(3, 3);
    s.mode.set_public(mo::LNM);
    for ch in "abc".chars() {
        s.draw_char(ch);
    }
    s.mode.set_public(mo::IRM);
    s.cursor.x = 0;
    s.cursor.y = 0;
    s.draw_char('x');
    assert_eq!(s.display()[0], "xab");
}

#[test]
fn test_decawm_off() {
    let mut s = make_screen(3, 3);
    s.mode.clear_private(mo::DECAWM);
    for ch in "abc".chars() {
        s.draw_char(ch);
    }
    s.draw_char('a');
    assert_eq!(s.display()[0], "aba");
}

#[test]
fn test_linefeed_lnm() {
    let mut s = make_screen(2, 2);
    s.mode.set_public(mo::LNM);
    s.cursor.x = 1;
    s.linefeed();
    assert_eq!(s.cursor.y, 1);
    assert_eq!(s.cursor.x, 0);
}

#[test]
fn test_linefeed_no_lnm() {
    let mut s = make_screen(2, 2);
    s.mode.clear_public(mo::LNM);
    s.cursor.x = 1;
    s.linefeed();
    assert_eq!(s.cursor.y, 1);
    assert_eq!(s.cursor.x, 1);
}

#[test]
fn test_combining_char() {
    let mut s = make_screen(4, 2);
    s.draw("bad");
    s.draw("\u{0308}");
    assert!(s.display()[0].contains('d'));
}

#[test]
fn screen_test_cursor_style_default() {
    let s = make_screen(10, 10);
    assert_eq!(s.cursor_style, CursorStyle::Default);
}

#[test]
fn test_set_cursor_style_block() {
    let mut s = make_screen(10, 10);
    s.set_cursor_style(1);
    assert_eq!(s.cursor_style, CursorStyle::Block);
    assert!(s.cursor_blink);
    s.set_cursor_style(2);
    assert_eq!(s.cursor_style, CursorStyle::Block);
    assert!(!s.cursor_blink);
}

#[test]
fn test_set_cursor_style_underline() {
    let mut s = make_screen(10, 10);
    s.set_cursor_style(3);
    assert_eq!(s.cursor_style, CursorStyle::Underline);
    s.set_cursor_style(4);
    assert_eq!(s.cursor_style, CursorStyle::Underline);
}

#[test]
fn test_set_cursor_style_beam() {
    let mut s = make_screen(10, 10);
    s.set_cursor_style(5);
    assert_eq!(s.cursor_style, CursorStyle::Beam);
    s.set_cursor_style(6);
    assert_eq!(s.cursor_style, CursorStyle::Beam);
}

#[test]
fn test_set_cursor_style_reset() {
    let mut s = make_screen(10, 10);
    s.set_cursor_style(5);
    assert_eq!(s.cursor_style, CursorStyle::Beam);
    s.set_cursor_style(0);
    assert_eq!(s.cursor_style, CursorStyle::Default);
}

#[test]
fn test_keyboard_mode_default() {
    let s = make_screen(10, 10);
    assert_eq!(s.keyboard_mode, 0);
    assert!(s.keyboard_mode_stack.is_empty());
}

#[test]
fn test_set_keyboard_mode_replace() {
    let mut s = make_screen(10, 10);
    s.set_keyboard_mode(5, KeyboardApplyBehavior::Replace);
    assert_eq!(s.keyboard_mode, 5);
}

#[test]
fn test_set_keyboard_mode_union() {
    let mut s = make_screen(10, 10);
    s.keyboard_mode = 0b0101;
    s.set_keyboard_mode(0b1010, KeyboardApplyBehavior::Union);
    assert_eq!(s.keyboard_mode, 0b1111);
}

#[test]
fn test_set_keyboard_mode_difference() {
    let mut s = make_screen(10, 10);
    s.keyboard_mode = 0b1111;
    s.set_keyboard_mode(0b0101, KeyboardApplyBehavior::Difference);
    assert_eq!(s.keyboard_mode, 0b1010);
}

#[test]
fn test_push_pop_keyboard_modes() {
    let mut s = make_screen(10, 10);
    s.keyboard_mode = 0;
    s.push_keyboard_mode(1);
    s.push_keyboard_mode(2);
    s.push_keyboard_mode(3);
    assert_eq!(s.keyboard_mode_stack, vec![1, 2, 3]);

    s.pop_keyboard_modes(1);
    assert_eq!(s.keyboard_mode_stack, vec![1, 2]);
    assert_eq!(s.keyboard_mode, 3);

    s.pop_keyboard_modes(2);
    assert!(s.keyboard_mode_stack.is_empty());
    assert_eq!(s.keyboard_mode, 1);

    s.pop_keyboard_modes(10);
    assert!(s.keyboard_mode_stack.is_empty());
    assert_eq!(s.keyboard_mode, 1);
}

#[test]
fn test_identify_terminal_primary() {
    let mut s = make_screen(10, 10);
    s.identify_terminal_primary();
    assert_eq!(s.write_process_input.len(), 1);
    assert!(s.write_process_input[0].contains("[?6c"));
}

#[test]
fn test_reset_clears_cursor_style() {
    let mut s = make_screen(10, 10);
    s.set_cursor_style(5);
    assert_eq!(s.cursor_style, CursorStyle::Beam);
    s.reset();
    assert_eq!(s.cursor_style, CursorStyle::Default);
}

#[test]
fn test_reset_clears_keyboard_mode() {
    let mut s = make_screen(10, 10);
    s.keyboard_mode = 5;
    s.keyboard_mode_stack = vec![1, 2];
    s.reset();
    assert_eq!(s.keyboard_mode, 0);
    assert!(s.keyboard_mode_stack.is_empty());
}

#[test]
fn test_backspace() {
    let mut s = make_screen(10, 10);
    s.cursor.x = 5;
    s.backspace();
    assert_eq!(s.cursor.x, 4);
    s.cursor.x = 0;
    s.backspace();
    assert_eq!(s.cursor.x, 0);
}

#[test]
fn test_cursor_back_last_column() {
    let mut s = make_screen(5, 5);
    s.cursor.x = 0;
    s.cursor_back(3);
    assert_eq!(s.cursor.x, 0);
}

#[test]
fn test_draw_utf8() {
    let mut s = make_screen(5, 1);
    s.draw("café");
    let display = s.display();
    assert_eq!(display[0], "café ");
}

#[test]
fn test_draw_multiple_chars() {
    let mut s = make_screen(10, 1);
    s.draw("hello");
    let display = s.display();
    assert_eq!(display[0], "hello     ");
}

#[test]
fn test_draw_with_carriage_return() {
    let mut s = make_screen(5, 1);
    s.draw("abc");
    s.carriage_return();
    s.draw("XYZ");
    let display = s.display();
    assert_eq!(display[0], "XYZ  ");
}

#[test]
fn test_clear_tabstops() {
    let mut s = make_screen(10, 10);
    s.tabstops.insert(4);
    s.tabstops.insert(8);
    s.clear_tab_stop(3);
    assert!(s.tabstops.is_empty());
}

#[test]
fn test_restore_cursor_none_saved() {
    let mut s = make_screen(10, 10);
    s.cursor.x = 5;
    s.cursor.y = 5;
    s.restore_cursor();
    assert_eq!(s.cursor.x, 0);
    assert_eq!(s.cursor.y, 0);
}

#[test]
fn test_restore_cursor_out_of_bounds() {
    let mut s = make_screen(10, 10);
    s.save_cursor();
    s.cursor.x = 5;
    s.cursor.y = 5;
    s.resize(3, 3);
    s.restore_cursor();
    assert!(s.cursor.x < 3);
    assert!(s.cursor.y < 3);
}

#[test]
fn test_erase_character() {
    let mut s = make_screen(5, 1);
    s.draw("abcde");
    s.cursor.x = 1;
    s.erase_characters(2);
    let display = s.display();
    assert_eq!(display[0], "a  de");
}

#[test]
fn test_display_multi_char_emoji() {
    let mut s = make_screen(5, 1);
    s.draw("🎉x");
    let display = s.display();
    assert!(display[0].len() > 0);
}

#[test]
fn test_resize_same() {
    let mut s = make_screen(5, 5);
    s.draw("abc");
    s.resize(5, 5);
    let display = s.display();
    assert_eq!(display[0], "abc  ");
}

#[test]
fn test_linefeed_margins() {
    let mut s = make_screen(10, 10);
    s.set_margins(Some(2), Some(7));
    s.cursor.y = 2;
    s.cursor.x = 5;
    s.mode.set_public(mo::LNM);
    s.linefeed();
    assert_eq!(s.cursor.y, 3);
    assert_eq!(s.cursor.x, 0);
}

#[test]
fn test_sgr_ignore_invalid() {
    let mut s = make_screen(10, 10);
    s.select_graphic_rendition(&[99]);
}

#[test]
fn test_reset_resets_colors() {
    let mut s = make_screen(10, 1);
    s.select_graphic_rendition(&[1, 31]);
    s.draw("x");
    s.select_graphic_rendition(&[0]);
    s.draw("y");
    assert_eq!(s.buffer[0][0].fg, "red");
    assert_eq!(s.buffer[0][1].fg, "default");
}

#[test]
fn test_multi_attribs() {
    let mut s = make_screen(10, 1);
    s.select_graphic_rendition(&[1, 4, 31]);
    s.draw("x");
    assert_eq!(s.buffer[0][0].bold, true);
    assert_eq!(s.buffer[0][0].underscore, true);
    assert_eq!(s.buffer[0][0].fg, "red");
}

#[test]
fn test_blink() {
    let mut s = make_screen(10, 1);
    s.select_graphic_rendition(&[5]);
    s.draw("x");
    assert_eq!(s.buffer[0][0].blink, true);
}

#[test]
fn test_colors256_missing_attrs() {
    let mut s = make_screen(10, 1);
    s.select_graphic_rendition(&[38, 5]); // incomplete 256-color → no change
    s.draw("x");
    assert_eq!(s.buffer[0][0].fg, "default");
}

#[test]
fn test_draw_width2_line_end() {
    let mut s = make_screen(3, 1);
    s.draw("ab");
    s.draw("中");
    let display = s.display();
    assert_eq!(display[0], "ab中");
}

#[test]
fn test_draw_width2_irm() {
    let mut s = make_screen(5, 1);
    s.mode.set_private(mo::IRM);
    s.draw("ab");
    s.draw("中");
    let display = s.display();
    assert_eq!(display[0], "ab中  ");
}

#[test]
fn test_set_margins_zero() {
    let mut s = make_screen(10, 10);
    s.set_margins(Some(0), Some(0));
    // Zero margins → reset to full screen
    assert_eq!(s.margins, None);
}

#[test]
fn test_reset_works_between_attributes() {
    let mut s = make_screen(10, 1);
    s.select_graphic_rendition(&[1, 0, 31]);
    s.draw("x");
    assert!(!s.buffer[0][0].bold);
    assert_eq!(s.buffer[0][0].fg, "red");
}

/// A screen one column wide, with a letter on each line.
fn letters(text: &str) -> Screen {
    let mut s = make_screen(1, text.len());
    s.draw(text);
    s
}

/// The rows that changed since they were last drained, after `step`.
fn changed_by(s: &mut Screen, step: fn(&mut Screen)) -> Vec<usize> {
    let _ = s.take_dirty_rows();
    step(s);
    s.take_dirty_rows()
}

#[test]
fn scrolling_down_moves_every_line() {
    let mut s = letters("abc");
    s.scroll_down(1);
    assert_eq!(s.display(), vec![" ", "a", "b"]);
    s.scroll_down(0);
    assert_eq!(s.display(), vec![" ", "a", "b"]);
    s.scroll_down(2);
    assert_eq!(s.display(), vec![" ", " ", " "]);
}

#[test]
fn scrolling_down_stays_inside_the_region() {
    let mut s = letters("abcde");
    s.set_margins(Some(2), Some(4));
    s.scroll_down(1);
    assert_eq!(s.display(), vec!["a", " ", "b", "c", "e"]);
    s.scroll_down(9);
    assert_eq!(s.display(), vec!["a", " ", " ", " ", "e"]);
}

#[test]
fn a_reverse_index_at_the_top_moves_the_lines_down() {
    let mut s = letters("abc");
    s.cursor_position(1, 1);
    s.reverse_index();
    assert_eq!(s.display(), vec![" ", "a", "b"]);
    assert_eq!((s.cursor.x, s.cursor.y), (0, 0));
}

#[test]
fn line_drawing_characters_are_drawn() {
    let mut s = make_screen(3, 1);
    s.define_charset("0", '(');
    s.draw("q");
    assert_eq!(s.display(), vec!["\u{2500}  "]);
    assert_eq!(s.cursor.x, 1);
    s.draw("Aé");
    assert_eq!(s.display(), vec!["\u{2500}Aé"]);
}

#[test]
fn shifting_out_draws_with_the_second_set() {
    let mut s = make_screen(4, 1);
    s.define_charset("0", ')');
    s.draw("q");
    s.shift_out();
    s.draw("q");
    s.shift_in();
    s.draw("q");
    assert_eq!(s.display(), vec!["q\u{2500}q "]);
}

#[test]
fn scrolling_marks_the_whole_region() {
    let mut s = make_screen(3, 3);
    s.draw("abc");
    s.linefeed();
    s.draw("def");
    s.dirty.clear();
    s.scroll_up(1);
    assert_eq!(s.display(), vec!["def", "   ", "   "]);
    assert!(s.dirty.contains(&0));
    assert!(s.dirty.contains(&1));
    assert_eq!(s.take_dirty_rows(), vec![0, 1, 2]);
    assert_eq!(changed_by(&mut s, |s| s.scroll_down(1)), vec![0, 1, 2]);
    assert!(changed_by(&mut s, |s| s.scroll_up(0)).is_empty());
    assert!(changed_by(&mut s, |s| s.scroll_down(0)).is_empty());
    s.set_margins(Some(2), Some(3));
    assert_eq!(changed_by(&mut s, |s| s.scroll_up(1)), vec![1, 2]);
    assert_eq!(changed_by(&mut s, |s| s.scroll_down(1)), vec![1, 2]);
}

#[test]
fn line_edits_mark_the_lines_that_moved() {
    let mut s = letters("abcd");
    s.cursor_position(2, 1);
    assert_eq!(changed_by(&mut s, |s| s.insert_lines(1)), vec![1, 2, 3]);
    assert_eq!(s.display(), vec!["a", " ", "b", "c"]);
    assert_eq!(changed_by(&mut s, |s| s.delete_lines(1)), vec![1, 2, 3]);
    assert_eq!(s.display(), vec!["a", "b", "c", " "]);
}

#[test]
fn reverse_video_marks_every_line() {
    let mut s = make_screen(2, 3);
    assert_eq!(changed_by(&mut s, |s| s.set_mode(mo::DECSCNM, true)), vec![0, 1, 2]);
    assert!(s.buffer[2][1].reverse);
    assert_eq!(changed_by(&mut s, |s| s.reset_mode(mo::DECSCNM, true)), vec![0, 1, 2]);
    assert!(!s.buffer[2][1].reverse);
}

#[test]
fn a_combining_mark_marks_its_line() {
    let mut s = make_screen(3, 2);
    s.draw("u");
    assert_eq!(changed_by(&mut s, |s| s.draw("\u{0308}")), vec![0]);
    assert_eq!(s.buffer[0][0].data, "u\u{0308}");
}

#[test]
fn an_incomplete_colour_changes_nothing() {
    let incomplete: [&[u16]; 4] = [&[38], &[48], &[38, 5], &[48, 5]];
    for params in incomplete {
        let mut s = make_screen(10, 1);
        s.select_graphic_rendition(params);
        assert!(s.cursor.attrs == Char::blank());
    }
}

#[test]
fn codes_after_a_colour_still_count() {
    let mut s = make_screen(10, 1);
    s.select_graphic_rendition(&[38, 5, 196, 1]);
    assert_eq!(s.cursor.attrs.fg, "ff0000");
    assert!(s.cursor.attrs.bold);
    let mut s = make_screen(10, 1);
    s.select_graphic_rendition(&[38, 9, 3]);
    assert!(s.cursor.attrs.strikethrough && s.cursor.attrs.italics);
}

#[test]
fn parameters_that_name_no_colour_are_codes() {
    let mut s = make_screen(10, 1);
    s.select_graphic_rendition(&[38, 5, 300]);
    assert_eq!(s.cursor.attrs.fg, "default");
    assert!(s.cursor.attrs.blink);
    let mut s = make_screen(10, 1);
    s.select_graphic_rendition(&[48, 5, 256, 4]);
    assert_eq!(s.cursor.attrs.bg, "default");
    assert!(s.cursor.attrs.blink && s.cursor.attrs.underscore);
    let mut s = make_screen(10, 1);
    s.select_graphic_rendition(&[38, 2, 1, 4]);
    assert_eq!(s.cursor.attrs.fg, "default");
    assert!(s.cursor.attrs.dim && s.cursor.attrs.bold && s.cursor.attrs.underscore);
    let mut s = make_screen(10, 1);
    s.select_graphic_rendition(&[48, 2]);
    assert!(s.cursor.attrs.dim);
}

#[test]
fn text_goes_on_line_after_line() {
    let mut s = make_screen(3, 3);
    s.draw("zzz");
    s.cursor_position(1, 2);
    s.draw("abcdefgh");
    assert_eq!(s.display(), vec!["zab", "cde", "fgh"]);
    assert_eq!((s.cursor.x, s.cursor.y), (3, 2));
}

#[test]
fn zero_margins_lift_the_region() {
    let mut s = make_screen(10, 10);
    s.set_margins(Some(2), Some(5));
    assert_eq!(s.margins, Some(Margins { top: 1, bottom: 4 }));
    s.set_margins(Some(0), Some(0));
    assert_eq!(s.margins, None);
    s.set_margins(Some(2), Some(5));
    s.set_margins(Some(5), Some(2));
    assert_eq!(s.margins, Some(Margins { top: 1, bottom: 4 }));
}

#[test]
fn a_reset_screen_is_as_a_new_one() {
    let mut s = make_screen(4, 2);
    s.set_mode(mo::DECSCNM, true);
    s.define_charset("0", '(');
    s.set_margins(Some(1), Some(2));
    s.select_graphic_rendition(&[1, 31]);
    s.draw("q");
    s.save_cursor();
    s.set_title("t");
    s.set_icon_name("i");
    s.reset();
    let fresh = make_screen(4, 2);
    assert!(s.buffer == fresh.buffer);
    assert!(s.default_char == fresh.default_char);
    assert!(s.cursor.attrs == fresh.cursor.attrs);
    assert_eq!((s.cursor.x, s.cursor.y, s.cursor.hidden), (0, 0, false));
    assert!(s.cursor.stack.is_empty());
    assert!(!s.mode.has_private(mo::DECSCNM));
    assert_eq!(s.margins, None);
    assert_eq!(s.tabstops, fresh.tabstops);
    assert_eq!(s.charset, fresh.charset);
    assert_eq!(s.g0_charset, fresh.g0_charset);
    assert_eq!((s.title.as_str(), s.icon_name.as_str()), ("", ""));
}
