//! The screen buffer: cells, cursor, modes, scroll region, and the record of what changed.
use super::cell;
use super::events;
use super::grid;
use super::soundness;
use super::modes;
use super::state;
use crate::text;
use std::collections::{BTreeSet, HashSet};
use vstd::prelude::*;

pub use super::cell::{Cell, Char};
pub use super::charsets::CharsetRef;
pub use super::events::TermEvent;
pub use super::modes::Modes;
pub use super::state::{
    CursorStyle, KeyboardApplyBehavior, Margins, Parked, SavedCursor, ScreenState,
};

verus! {

/// The cursor, with the attributes that new text gets and the positions that were saved.
#[derive(Debug, Clone)]
pub struct Cursor {
    pub x: usize,
    pub y: usize,
    pub attrs: Char,
    pub hidden: bool,
    pub stack: Vec<(usize, usize, Char, Modes)>,
}

/// The primary screen while the alternate screen is shown.
#[derive(Debug, Clone)]
pub struct ParkedScreen {
    pub buffer: Vec<Vec<Char>>,
    pub x: usize,
    pub y: usize,
    pub attrs: Char,
}

/// A terminal screen.
pub struct Screen {
    pub columns: usize,
    pub lines: usize,
    pub buffer: Vec<Vec<Char>>,
    pub cursor: Cursor,
    pub default_char: Char,
    pub mode: Modes,
    pub margins: Option<Margins>,
    pub tabstops: HashSet<usize>,
    pub g0_charset: CharsetRef,
    pub g1_charset: CharsetRef,
    pub charset: CharsetRef,
    pub charset_index: u8,
    pub dirty: BTreeSet<usize>,
    pub icon_name: String,
    pub title: String,
    /// What is to be sent to the process, oldest first.
    pub write_process_input: Vec<String>,
    pub cursor_style: CursorStyle,
    pub cursor_blink: bool,
    pub keyboard_mode: u16,
    pub keyboard_mode_stack: Vec<u16>,
    pub alt_screen: bool,
    pub parked: Option<ParkedScreen>,
    /// The rows that left the primary screen at its top and were not collected yet.
    pub scrolled_off: Vec<Vec<Char>>,
    pub bell: bool,
    pub cwd: Option<String>,
    pub events: Vec<TermEvent>,
}

impl View for ParkedScreen {
    type V = Parked;

    open spec fn view(&self) -> Parked {
        Parked {
            buffer: grid::grid(self.buffer@),
            x: self.x as int,
            y: self.y as int,
            attrs: self.attrs@,
        }
    }
}

/// What the entries of a cursor stack hold.
pub open spec fn saved_cursors(stack: Seq<(usize, usize, Char, Modes)>) -> Seq<SavedCursor> {
    stack.map_values(
        |c: (usize, usize, Char, Modes)|
            SavedCursor { x: c.0 as nat, y: c.1 as nat, attrs: c.2@, mode: c.3@ },
    )
}

impl View for Screen {
    type V = ScreenState;

    open spec fn view(&self) -> ScreenState {
        ScreenState {
            columns: self.columns as int,
            lines: self.lines as int,
            buffer: grid::grid(self.buffer@),
            x: self.cursor.x as int,
            y: self.cursor.y as int,
            attrs: self.cursor.attrs@,
            hidden: self.cursor.hidden,
            saved: saved_cursors(self.cursor.stack@),
            default_char: self.default_char@,
            mode: self.mode@,
            margins: self.margins,
            tabstops: self.tabstops@,
            g0_charset: self.g0_charset,
            g1_charset: self.g1_charset,
            charset: self.charset,
            charset_index: self.charset_index,
            dirty: self.dirty@,
            icon_name: self.icon_name@,
            title: self.title@,
            replies: grid::texts(self.write_process_input@),
            cursor_style: self.cursor_style,
            cursor_blink: self.cursor_blink,
            keyboard_mode: self.keyboard_mode,
            keyboard_mode_stack: self.keyboard_mode_stack@,
            alt_screen: self.alt_screen,
            parked: match self.parked {
                Some(p) => Some(p@),
                None => None,
            },
            scrolled_off: grid::grid(self.scrolled_off@),
            bell: self.bell,
            cwd: match self.cwd {
                Some(path) => Some(path@),
                None => None,
            },
            events: events::happenings(self.events@),
        }
    }
}

/// An optional number as an integer.
pub open spec fn opt_int(n: Option<usize>) -> Option<int> {
    match n {
        Some(v) => Some(v as int),
        None => None,
    }
}

impl Default for Cursor {
    fn default() -> (r: Self)
        ensures
            r.x == 0,
            r.y == 0,
            r.attrs@ == Cell::blank(),
            !r.hidden,
            r.stack@.len() == 0,
    {
        Cursor { x: 0, y: 0, attrs: Char::blank(), hidden: false, stack: Vec::new() }
    }
}

impl Default for CursorStyle {
    fn default() -> (r: Self)
        ensures
            r == CursorStyle::Default,
    {
        CursorStyle::Default
    }
}

impl Default for KeyboardApplyBehavior {
    fn default() -> (r: Self)
        ensures
            r == KeyboardApplyBehavior::Replace,
    {
        KeyboardApplyBehavior::Replace
    }
}

impl Margins {
    /// How many lines the scroll region has.
    pub fn height(&self) -> (h: usize)
        requires
            self.bottom - self.top < usize::MAX,
        ensures
            h == (if self.bottom >= self.top {
                self.bottom - self.top + 1
            } else {
                0
            }),
    {
        if self.bottom >= self.top {
            self.bottom - self.top + 1
        } else {
            0
        }
    }
}

/// A tab stop in every eighth column.
fn eighth_columns(columns: usize) -> (stops: HashSet<usize>)
    ensures
        stops@ == state::default_tabstops(columns as int),
{
    broadcast use vstd::std_specs::hash::group_hash_axioms;

    let mut stops: HashSet<usize> = HashSet::new();
    let n: usize = if columns == 0 {
        0
    } else {
        (columns - 1) / 8
    };
    let mut k: usize = 0;
    assert(stops@ =~= Set::new(|c: usize| 8 <= c <= 0 && c % 8 == 0));
    while k < n
        invariant
            k <= n,
            n * 8 < columns || n == 0,
            stops@ == Set::new(|c: usize| 8 <= c <= k * 8 && c % 8 == 0),
        decreases n - k,
    {
        k = k + 1;
        stops.insert(k * 8);
        assert(stops@ =~= Set::new(|c: usize| 8 <= c <= k * 8 && c % 8 == 0));
    }
    assert(stops@ =~= state::default_tabstops(columns as int));
    stops
}

/// The rows from 0 to before `lines`.
fn row_numbers(lines: usize) -> (rows: BTreeSet<usize>)
    ensures
        rows@ == state::rows_between(0, lines as int),
{
    broadcast use vstd::std_specs::btree::group_btree_axioms;

    let mut rows: BTreeSet<usize> = BTreeSet::new();
    let mut y: usize = 0;
    assert(rows@ =~= state::rows_between(0, 0));
    while y < lines
        invariant
            y <= lines,
            rows@ == state::rows_between(0, y as int),
        decreases lines - y,
    {
        rows.insert(y);
        y = y + 1;
        assert(rows@ =~= state::rows_between(0, y as int));
    }
    rows
}

impl Screen {
    /// A blank screen of the given size.
    pub fn new(columns: usize, lines: usize) -> (r: Self)
        ensures
            r@ == ScreenState::initial(columns as int, lines as int),
            columns > 0 && lines > 0 ==> r@.wf(),
    {
        let default_char = Char::blank();
        let buffer = grid::new_grid(&default_char, lines, columns);
        let r = Screen {
            columns,
            lines,
            buffer,
            cursor: Cursor::default(),
            default_char,
            mode: Modes::new(),
            margins: None,
            tabstops: eighth_columns(columns),
            g0_charset: CharsetRef::Ascii,
            g1_charset: CharsetRef::Ascii,
            charset: CharsetRef::Ascii,
            charset_index: 0,
            dirty: BTreeSet::new(),
            icon_name: String::new(),
            title: String::new(),
            write_process_input: Vec::new(),
            cursor_style: CursorStyle::Default,
            cursor_blink: true,
            keyboard_mode: 0,
            keyboard_mode_stack: Vec::new(),
            alt_screen: false,
            parked: None,
            scrolled_off: Vec::new(),
            bell: false,
            cwd: None,
            events: Vec::new(),
        };
        assert(r@.saved =~= seq![] && r@.replies =~= seq![] && r@.scrolled_off =~= seq![]
            && r@.events =~= seq![] && r@.icon_name =~= seq![] && r@.title =~= seq![]);
        proof {
            soundness::reshaped_is_rect(r@.buffer, lines as int, columns as int, Cell::blank());
        }
        r
    }

    /// The text of each row.
    pub fn display(&self) -> (rows: Vec<String>)
        ensures
            grid::texts(rows@) == grid::rows_text(self@.buffer),
    {
        let mut rows: Vec<String> = Vec::new();
        grid::push_texts(&mut rows, &self.buffer);
        assert(grid::texts(rows@) =~= grid::rows_text(self@.buffer));
        rows
    }

    /// Logs `event`; the log keeps the newest events only.
    pub fn push_event(&mut self, event: TermEvent)
        ensures
            final(self)@ == old(self)@.push_event(event@),
    {
        events::log_event(&mut self.events, event);
        assert(self@ == old(self)@.push_event(event@));
    }

    /// Rings the bell.
    pub fn ring_bell(&mut self)
        ensures
            final(self)@ == old(self)@.ring_bell(),
    {
        self.bell = true;
        self.push_event(TermEvent::Bell);
    }

    /// Whether the bell rang since it was last asked for; either way it has not rung now, and
    /// the log holds no bell.
    pub fn take_bell(&mut self) -> (rang: bool)
        ensures
            rang == old(self)@.bell,
            final(self)@ == (ScreenState {
                bell: false,
                events: events::without_bells(old(self)@.events),
                ..old(self)@
            }),
    {
        let rang: bool = self.bell;
        self.bell = false;
        events::drop_bells(&mut self.events);
        assert(self@ == (ScreenState {
            bell: false,
            events: events::without_bells(old(self)@.events),
            ..old(self)@
        }));
        rang
    }

    /// Drains the log. A bell in it has been heard.
    pub fn take_events(&mut self) -> (log: Vec<TermEvent>)
        ensures
            events::happenings(log@) == old(self)@.events,
            final(self)@ == (ScreenState { bell: false, events: seq![], ..old(self)@ }),
    {
        let mut log: Vec<TermEvent> = Vec::new();
        log.append(&mut self.events);
        self.bell = false;
        assert(log@ =~= old(self).events@);
        assert(self@.events =~= seq![]);
        log
    }

    /// Drains the rows that changed, in ascending order.
    pub fn take_dirty_rows(&mut self) -> (rows: Vec<usize>)
        ensures
            forall|y: usize| #[trigger] rows@.contains(y) <==> old(self)@.dirty.contains(y),
            forall|i: int, j: int| 0 <= i < j < rows@.len() ==> rows@[i] < rows@[j],
            final(self)@ == (ScreenState { dirty: Set::empty(), ..old(self)@ }),
    {
        let rows: Vec<usize> = ascending(&self.dirty);
        self.dirty.clear();
        assert(self@ == (ScreenState { dirty: Set::empty(), ..old(self)@ }));
        rows
    }

    /// Clears everything: the buffer, the cursor, the modes, the scroll region, the character
    /// sets, the titles, the cursor's shape and the keyboard modes. A reset on the alternate
    /// screen leaves it; the working directory stays.
    pub fn reset(&mut self)
        ensures
            final(self)@ == old(self)@.reset(),
            old(self)@.wf() ==> final(self)@.wf(),
    {
        self.mode = Modes::new();
        self.margins = None;
        self.cursor = Cursor::default();
        self.g0_charset = CharsetRef::Ascii;
        self.g1_charset = CharsetRef::Ascii;
        self.charset = CharsetRef::Ascii;
        self.charset_index = 0;
        self.icon_name = String::new();
        self.title = String::new();
        self.cursor_style = CursorStyle::Default;
        self.cursor_blink = true;
        self.keyboard_mode = 0;
        self.keyboard_mode_stack.clear();
        self.tabstops = eighth_columns(self.columns);
        self.default_char = Char::blank();
        self.clear_buffer();
        self.scrolled_off.clear();
        self.parked = None;
        if self.alt_screen {
            self.alt_screen = false;
            self.push_event(TermEvent::AltScreen { entered: false });
        }
        assert(self@.saved =~= seq![] && self@.scrolled_off =~= seq![] && self@.icon_name =~= seq![]
            && self@.title =~= seq![]);
        assert(self@ == old(self)@.reset());
        proof {
            if old(self)@.wf() {
                soundness::reset_keeps_wf(old(self)@);
            }
        }
    }

    /// Erases all cells and marks all rows as changed.
    fn clear_buffer(&mut self)
        ensures
            final(self)@ == (ScreenState {
                buffer: grid::grid_of(
                    old(self)@.default_char,
                    old(self)@.lines,
                    old(self)@.columns,
                ),
                ..old(self)@
            }).all_dirty(),
    {
        self.buffer = grid::new_grid(&self.default_char, self.lines, self.columns);
        self.dirty = row_numbers(self.lines);
    }

    /// Cuts or pads the screen to the given size, and the parked one with it.
    fn reshape(&mut self, lines: usize, columns: usize)
        ensures
            final(self)@ == (ScreenState {
                lines: lines as int,
                columns: columns as int,
                buffer: grid::reshaped(
                    old(self)@.buffer,
                    lines as int,
                    columns as int,
                    old(self)@.default_char,
                ),
                margins: None,
                tabstops: state::default_tabstops(columns as int),
                parked: match old(self)@.parked {
                    Some(p) => Some(
                        Parked {
                            buffer: grid::reshaped(
                                p.buffer,
                                lines as int,
                                columns as int,
                                old(self)@.default_char,
                            ),
                            x: state::min(p.x, state::max(columns - 1, 0)),
                            y: state::min(p.y, state::max(lines - 1, 0)),
                            attrs: p.attrs,
                        },
                    ),
                    None => None,
                },
                ..old(self)@
            }).all_dirty(),
    {
        grid::reshape(&mut self.buffer, lines, columns, &self.default_char);
        let parked: Option<ParkedScreen> = self.parked.take();
        self.parked = match parked {
            Some(p) => {
                let mut buffer: Vec<Vec<Char>> = p.buffer;
                grid::reshape(&mut buffer, lines, columns, &self.default_char);
                let last_x: usize = columns.saturating_sub(1);
                let last_y: usize = lines.saturating_sub(1);
                Some(
                    ParkedScreen {
                        buffer,
                        x: if p.x <= last_x {
                            p.x
                        } else {
                            last_x
                        },
                        y: if p.y <= last_y {
                            p.y
                        } else {
                            last_y
                        },
                        attrs: p.attrs,
                    },
                )
            },
            None => None,
        };
        self.lines = lines;
        self.columns = columns;
        self.margins = None;
        self.dirty = row_numbers(lines);
        self.tabstops = eighth_columns(columns);
    }

    /// Gives the screen another size. What does not fit is cut off at the right and at the
    /// bottom; the scroll region is lifted, and all rows count as changed.
    pub fn resize(&mut self, lines: usize, columns: usize)
        ensures
            final(self)@ == old(self)@.resize(lines as int, columns as int),
            old(self)@.wf() && lines > 0 && columns > 0 ==> final(self)@.wf(),
    {
        if self.lines == lines && self.columns == columns {
            return;
        }
        self.reshape(lines, columns);
        let last_x: usize = columns.saturating_sub(1);
        let last_y: usize = lines.saturating_sub(1);
        if self.cursor.x > last_x {
            self.cursor.x = last_x;
        }
        if self.cursor.y > last_y {
            self.cursor.y = last_y;
        }
        proof {
            if old(self)@.wf() && lines > 0 && columns > 0 {
                soundness::resize_keeps_wf(old(self)@, lines as int, columns as int);
            }
        }
    }

    /// Shows the alternate screen; the primary one is parked.
    pub fn enter_alt_screen(&mut self)
        ensures
            final(self)@ == old(self)@.enter_alt_screen(),
            old(self)@.wf() ==> final(self)@.wf(),
    {
        if self.alt_screen {
            return;
        }
        let mut buffer: Vec<Vec<Char>> = Vec::new();
        buffer.append(&mut self.buffer);
        assert(buffer@ =~= old(self).buffer@);
        self.parked = Some(
            ParkedScreen {
                buffer,
                x: self.cursor.x,
                y: self.cursor.y,
                attrs: self.cursor.attrs.clone(),
            },
        );
        self.alt_screen = true;
        self.clear_buffer();
        self.push_event(TermEvent::AltScreen { entered: true });
        assert(self@ == old(self)@.enter_alt_screen());
        proof {
            if old(self)@.wf() {
                soundness::alt_screen_keeps_wf(old(self)@);
            }
        }
    }

    /// Shows the primary screen again, with its cursor where it was.
    pub fn exit_alt_screen(&mut self)
        ensures
            final(self)@ == old(self)@.exit_alt_screen(),
            old(self)@.wf() ==> final(self)@.wf(),
    {
        match self.parked.take() {
            Some(p) => {
                self.buffer = p.buffer;
                self.cursor.x = p.x;
                self.cursor.y = p.y;
                self.cursor.attrs = p.attrs;
                self.alt_screen = false;
                self.dirty = row_numbers(self.lines);
                self.push_event(TermEvent::AltScreen { entered: false });
            },
            None => {},
        }
        assert(self@ == old(self)@.exit_alt_screen());
        proof {
            if old(self)@.wf() {
                soundness::alt_screen_keeps_wf(old(self)@);
            }
        }
    }

    /// Switches to `columns` columns.
    fn set_width(&mut self, columns: usize)
        requires
            columns > 0,
        ensures
            final(self)@ == old(self)@.set_width(columns as int),
    {
        self.reshape(self.lines, columns);
        self.cursor = Cursor::default();
        assert(self@.saved =~= seq![]);
    }

    /// Sets a mode.
    pub fn set_mode(&mut self, mode: u16, private: bool)
        requires
            old(self)@.wf(),
        ensures
            final(self)@ == old(self)@.set_mode(mode, private),
            final(self)@.wf(),
    {
        if private {
            self.set_private_mode(mode);
        } else {
            self.mode.set_public(mode);
        }
    }

    /// Clears a mode.
    pub fn reset_mode(&mut self, mode: u16, private: bool)
        requires
            old(self)@.wf(),
        ensures
            final(self)@ == old(self)@.reset_mode(mode, private),
            final(self)@.wf(),
    {
        if private {
            self.reset_private_mode(mode);
        } else {
            self.mode.clear_public(mode);
        }
    }

    /// Sets a private mode.
    pub fn set_private_mode(&mut self, mode: u16)
        requires
            old(self)@.wf(),
        ensures
            final(self)@ == old(self)@.set_private_mode(mode),
            final(self)@.wf(),
    {
        self.mode.set_private(mode);
        if mode == modes::DECCOLM {
            self.set_width(132);
            self.clear_buffer();
        } else if mode == modes::DECOM {
            self.cursor.x = 0;
            self.cursor.y = 0;
        } else if mode == modes::DECSCNM {
            self.reverse_all(true);
        } else if mode == modes::DECTCEM {
            self.cursor.hidden = false;
        } else if mode == modes::ALT_SCREEN_1049 || mode == modes::ALT_SCREEN_1047 || mode
            == modes::ALT_SCREEN_47 {
            self.enter_alt_screen();
        }
        proof {
            soundness::set_mode_keeps_wf(old(self)@, mode, true);
        }
    }

    /// Sets the reverse attribute of all cells, and of those to come, and marks all rows as
    /// changed.
    fn reverse_all(&mut self, on: bool)
        ensures
            final(self)@ == (ScreenState {
                default_char: grid::with_reverse(old(self)@.default_char, on),
                buffer: grid::reversed(old(self)@.buffer, on),
                ..old(self)@
            }).all_dirty(),
    {
        self.default_char.reverse = on;
        grid::set_reverse(&mut self.buffer, on);
        self.dirty = row_numbers(self.lines);
    }

    /// Clears a private mode.
    pub fn reset_private_mode(&mut self, mode: u16)
        requires
            old(self)@.wf(),
        ensures
            final(self)@ == old(self)@.reset_private_mode(mode),
            final(self)@.wf(),
    {
        self.mode.clear_private(mode);
        if mode == modes::DECCOLM {
            self.set_width(80);
        } else if mode == modes::DECSCNM {
            self.reverse_all(false);
        } else if mode == modes::DECTCEM {
            self.cursor.hidden = true;
        } else if mode == modes::ALT_SCREEN_1049 || mode == modes::ALT_SCREEN_1047 || mode
            == modes::ALT_SCREEN_47 {
            self.exit_alt_screen();
        }
        proof {
            soundness::reset_mode_keeps_wf(old(self)@, mode, true);
        }
    }
}

/// Puts `y` into an ascending list that does not hold it.
fn insert_ascending(rows: &mut Vec<usize>, y: usize)
    requires
        forall|i: int, j: int| 0 <= i < j < old(rows)@.len() ==> old(rows)@[i] < old(rows)@[j],
        !old(rows)@.contains(y),
    ensures
        forall|i: int, j: int|
            0 <= i < j < final(rows)@.len() ==> final(rows)@[i] < final(rows)@[j],
        forall|k: usize|
            #[trigger] final(rows)@.contains(k) <==> old(rows)@.contains(k) || k == y,
{
    let mut at: usize = rows.len();
    while at > 0 && rows[at - 1] > y
        invariant
            at <= rows@.len(),
            forall|i: int| at <= i < rows@.len() ==> rows@[i] > y,
        decreases at,
    {
        at = at - 1;
    }
    let ghost before = rows@;
    assert(at > 0 ==> before.contains(before[at - 1]));
    rows.insert(at, y);
    assert forall|k: usize| #[trigger] rows@.contains(k) <==> before.contains(k) || k == y by {
        if before.contains(k) {
            let i = choose|i: int| 0 <= i < before.len() && before[i] == k;
            assert(rows@[if i < at {
                i
            } else {
                i + 1
            }] == k);
        }
        assert(rows@[at as int] == y);
        if rows@.contains(k) {
            let i = choose|i: int| 0 <= i < rows@.len() && rows@[i] == k;
            if i != at {
                assert(before[if i < at {
                    i
                } else {
                    i - 1
                }] == k);
            }
        }
    }
}

/// The numbers in a set, in ascending order.
pub(crate) fn ascending(set: &BTreeSet<usize>) -> (rows: Vec<usize>)
    ensures
        forall|y: usize| #[trigger] rows@.contains(y) <==> set@.contains(y),
        forall|i: int, j: int| 0 <= i < j < rows@.len() ==> rows@[i] < rows@[j],
{
    broadcast use vstd::std_specs::btree::group_btree_axioms;

    let mut rows: Vec<usize> = Vec::new();
    for y in it: set.iter()
        invariant
            forall|k: usize|
                #[trigger] rows@.contains(k) <==> exists|j: int|
                    0 <= j < it.index() && *it.seq()[j] == k,
            forall|i: int, j: int| 0 <= i < j < rows@.len() ==> rows@[i] < rows@[j],
            it.seq().unref().to_set() == set@,
            it.seq().no_duplicates(),
    {
        assert(*it.seq()[it.index() as int] == *y);
        insert_ascending(&mut rows, *y);
    }
    assert forall|k: usize| #[trigger] rows@.contains(k) <==> set@.contains(k) by {
        let all = vstd::std_specs::iter::IteratorSpec::remaining(&set.iter());
        if set@.contains(k) {
            let j = choose|j: int| 0 <= j < all.unref().len() && all.unref()[j] == k;
            assert(*all[j] == k);
        }
        if rows@.contains(k) {
            let j = choose|j: int| 0 <= j < all.len() && *all[j] == k;
            assert(all.unref()[j] == k);
        }
    }
    rows
}

impl Screen {
    /// The first and the last line of the scroll region.
    fn scroll_region(&self) -> (r: (usize, usize))
        requires
            self@.wf(),
        ensures
            r.0 == self@.top(),
            r.1 == self@.bottom(),
            r.0 <= r.1 < self.lines,
    {
        match self.margins {
            Some(m) => (m.top, m.bottom),
            None => (0, self.lines - 1),
        }
    }

    /// Sets the scroll region, by its first and its last line counted from one; a region of
    /// fewer than two lines, or one that leaves the screen, is ignored. Two zeros lift the scroll
    /// region.
    pub fn set_margins(&mut self, top: Option<usize>, bottom: Option<usize>)
        ensures
            final(self)@ == old(self)@.set_margins(opt_int(top), opt_int(bottom)),
            old(self)@.wf() ==> final(self)@.wf(),
    {
        if let (Some(0), Some(0)) = (top, bottom) {
            self.margins = None;
            return;
        }
        let first: usize = match top {
            Some(t) => t,
            None => 1,
        };
        let last: usize = match bottom {
            Some(b) => b,
            None => self.lines,
        };
        let first: usize = first.saturating_sub(1);
        let last: usize = last.saturating_sub(1);
        if first < last && last < self.lines {
            self.margins = Some(Margins { top: first, bottom: last });
        }
    }

    /// Lifts the scroll region.
    pub fn clear_margins(&mut self)
        ensures
            final(self)@ == (ScreenState { margins: None, ..old(self)@ }),
            old(self)@.wf() ==> final(self)@.wf(),
    {
        self.margins = None;
    }

    /// Moves the cursor to a row and a column counted from one.
    pub fn cursor_position(&mut self, row: usize, col: usize)
        requires
            old(self)@.wf(),
        ensures
            final(self)@ == old(self)@.cursor_position(row as int, col as int),
            final(self)@.wf(),
    {
        let y: usize = self.line_at(row);
        let c: usize = col.saturating_sub(1);
        let x: usize = if c <= self.columns - 1 {
            c
        } else {
            self.columns - 1
        };
        assert(x == state::min(state::max(col as int, 1) - 1, self@.columns - 1));
        self.cursor.x = x;
        self.cursor.y = y;
        proof {
            soundness::cursor_moves_keep_wf(old(self)@, row as int, col as int);
        }
    }

    /// The line that `row`, counted from one, stands for: kept inside the screen, or in origin
    /// mode counted in the scroll region and kept inside it.
    fn line_at(&self, row: usize) -> (y: usize)
        requires
            self@.wf(),
        ensures
            y == self@.cursor_position(row as int, 1).y,
    {
        let (top, bottom) = self.scroll_region();
        let r: usize = row.saturating_sub(1);
        if self.mode.has_private(modes::DECOM) {
            let y: usize = r.saturating_add(top);
            if y <= bottom {
                y
            } else {
                bottom
            }
        } else if r <= self.lines - 1 {
            r
        } else {
            self.lines - 1
        }
    }

    /// Moves the cursor to a row, counted from one.
    pub fn cursor_to_line(&mut self, row: usize)
        requires
            old(self)@.wf(),
        ensures
            final(self)@ == old(self)@.cursor_position(row as int, old(self)@.x + 1),
            final(self)@.wf(),
    {
        self.cursor_position(row, self.cursor.x.saturating_add(1));
        assert(old(self)@.x + 1 > usize::MAX ==> old(self)@.x == old(self)@.columns);
    }

    /// Moves the cursor to a column, counted from one.
    pub fn cursor_to_column(&mut self, col: usize)
        requires
            old(self)@.wf(),
        ensures
            final(self)@ == old(self)@.cursor_position(old(self)@.y + 1, col as int),
            final(self)@.wf(),
    {
        self.cursor_position(self.cursor.y + 1, col);
    }

    /// Moves the cursor up, inside the scroll region.
    pub fn cursor_up(&mut self, rows: usize)
        requires
            old(self)@.wf(),
        ensures
            final(self)@ == old(self)@.cursor_up(rows as int),
            final(self)@.wf(),
    {
        let (top, _) = self.scroll_region();
        let y: usize = self.cursor.y.saturating_sub(rows);
        self.cursor.y = if y >= top {
            y
        } else {
            top
        };
    }

    /// Moves the cursor down, inside the scroll region.
    pub fn cursor_down(&mut self, rows: usize)
        requires
            old(self)@.wf(),
        ensures
            final(self)@ == old(self)@.cursor_down(rows as int),
            final(self)@.wf(),
    {
        let (_, bottom) = self.scroll_region();
        let y: usize = self.cursor.y.saturating_add(rows);
        self.cursor.y = if y <= bottom {
            y
        } else {
            bottom
        };
    }

    /// Moves the cursor right.
    pub fn cursor_forward(&mut self, cols: usize)
        requires
            old(self)@.wf(),
        ensures
            final(self)@ == old(self)@.cursor_forward(cols as int),
            final(self)@.wf(),
    {
        let x: usize = self.cursor.x.saturating_add(cols);
        self.cursor.x = if x <= self.columns - 1 {
            x
        } else {
            self.columns - 1
        };
    }

    /// Moves the cursor left.
    pub fn cursor_back(&mut self, cols: usize)
        ensures
            final(self)@ == old(self)@.cursor_back(cols as int),
            old(self)@.wf() ==> final(self)@.wf(),
    {
        self.cursor.x = self.cursor.x.saturating_sub(cols);
    }

    /// Moves the cursor to the start of its line.
    pub fn carriage_return(&mut self)
        ensures
            final(self)@ == old(self)@.at(0, old(self)@.y),
            old(self)@.wf() ==> final(self)@.wf(),
    {
        self.cursor.x = 0;
    }

    /// Moves the cursor down, or scrolls at the end of the scroll region.
    pub fn linefeed(&mut self)
        requires
            old(self)@.wf(),
        ensures
            final(self)@ == old(self)@.linefeed(),
            final(self)@.wf(),
    {
        let (_, bottom) = self.scroll_region();
        if self.cursor.y < bottom {
            self.cursor.y = self.cursor.y + 1;
        } else {
            self.scroll_up(1);
        }
        if self.mode.has_public(modes::LNM) {
            self.cursor.x = 0;
        }
        proof {
            soundness::line_moves_keep_wf(old(self)@);
        }
    }

    /// Moves the cursor to the start of the next line, or scrolls at the end of the scroll
    /// region.
    pub fn index(&mut self)
        requires
            old(self)@.wf(),
        ensures
            final(self)@ == old(self)@.index(),
            final(self)@.wf(),
    {
        let (_, bottom) = self.scroll_region();
        if self.cursor.y < bottom {
            self.cursor.y = self.cursor.y + 1;
            self.cursor.x = 0;
        } else {
            self.scroll_up(1);
        }
    }

    /// Moves the cursor to the start of the line above, or scrolls at the start of the scroll
    /// region.
    pub fn reverse_index(&mut self)
        requires
            old(self)@.wf(),
        ensures
            final(self)@ == old(self)@.reverse_index(),
            final(self)@.wf(),
    {
        let (top, _) = self.scroll_region();
        if self.cursor.y > top {
            self.cursor.y = self.cursor.y - 1;
            self.cursor.x = 0;
        } else {
            self.scroll_down(1);
        }
    }

    /// Moves the cursor left by one.
    pub fn backspace(&mut self)
        ensures
            final(self)@ == old(self)@.cursor_back(1),
            old(self)@.wf() ==> final(self)@.wf(),
    {
        self.cursor.x = self.cursor.x.saturating_sub(1);
    }

    /// Moves the cursor to the next tab stop, or to the last column.
    pub fn tab(&mut self)
        requires
            old(self)@.wf(),
        ensures
            final(self)@ == old(self)@.tab(),
            final(self)@.wf(),
    {
        broadcast use vstd::std_specs::hash::group_hash_axioms;

        proof {
            soundness::tab_and_restore_keep_wf(old(self)@);
        }
        let columns: usize = self.columns;
        if self.cursor.x >= columns - 1 {
            self.cursor.x = columns - 1;
            return;
        }
        let mut next: usize = self.cursor.x + 1;
        while next < columns && !self.tabstops.contains(&next)
            invariant
                next <= columns,
                columns == self@.columns,
                self@ == old(self)@,
                old(self)@.x + 1 <= next,
                state::next_tab(self@.tabstops, old(self)@.x + 1, columns as int)
                    == state::next_tab(self@.tabstops, next as int, columns as int),
            decreases columns - next,
        {
            next = next + 1;
        }
        self.cursor.x = if next < columns {
            next
        } else {
            columns - 1
        };
    }

    /// Sets a tab stop at the cursor.
    pub fn set_tab_stop(&mut self)
        ensures
            final(self)@ == old(self)@.set_tab_stop(),
            old(self)@.wf() ==> final(self)@.wf(),
    {
        broadcast use vstd::std_specs::hash::group_hash_axioms;

        self.tabstops.insert(self.cursor.x);
    }

    /// Clears the tab stop at the cursor (0), or all tab stops (3).
    pub fn clear_tab_stop(&mut self, mode: u16)
        ensures
            final(self)@ == old(self)@.clear_tab_stop(mode as int),
            old(self)@.wf() ==> final(self)@.wf(),
    {
        broadcast use vstd::std_specs::hash::group_hash_axioms;

        if mode == 0 {
            self.tabstops.remove(&self.cursor.x);
        } else if mode == 3 {
            self.tabstops.clear();
        }
    }

    /// Saves the cursor's position and attributes and the modes.
    pub fn save_cursor(&mut self)
        ensures
            final(self)@ == old(self)@.save_cursor(),
            old(self)@.wf() ==> final(self)@.wf(),
    {
        self.cursor.stack.push(
            (self.cursor.x, self.cursor.y, self.cursor.attrs.clone(), self.mode.clone()),
        );
        assert(self@.saved =~= old(self)@.save_cursor().saved);
    }

    /// Restores what was saved last, or homes the cursor where nothing is saved.
    pub fn restore_cursor(&mut self)
        requires
            old(self)@.wf(),
        ensures
            final(self)@ == old(self)@.restore_cursor(),
            final(self)@.wf(),
    {
        let (top, bottom) = self.scroll_region();
        match self.cursor.stack.pop() {
            Some(saved) => {
                self.cursor.x = if saved.0 <= self.columns - 1 {
                    saved.0
                } else {
                    self.columns - 1
                };
                self.cursor.y = if saved.1 < top {
                    top
                } else if saved.1 <= bottom {
                    saved.1
                } else {
                    bottom
                };
                self.cursor.attrs = saved.2;
                self.mode = saved.3;
                assert(self@.saved =~= old(self)@.saved.drop_last());
            },
            None => {
                self.cursor.x = 0;
                self.cursor.y = 0;
                assert(self@.saved =~= old(self)@.saved);
            },
        }
    }

    /// Moves the scroll region up by `rows` lines. What leaves the primary screen at its top is
    /// kept for collection.
    pub fn scroll_up(&mut self, rows: usize)
        requires
            old(self)@.wf(),
        ensures
            final(self)@ == old(self)@.scroll_up(rows as int),
            final(self)@.wf(),
    {
        let (top, _) = self.scroll_region();
        let n: usize = self.lines_to_scroll(rows);
        proof {
            grid::rect_row(old(self)@.buffer, old(self)@.lines, old(self)@.columns, 0);
            soundness::scroll_keeps_wf(old(self)@, rows as int);
        }
        if top == 0 && !self.alt_screen {
            grid::push_rows(&mut self.scrolled_off, &self.buffer, n);
        }
        self.lift(n);
    }

    /// How many lines a scroll by `rows` lines moves.
    pub fn lines_to_scroll(&self, rows: usize) -> (n: usize)
        requires
            self@.wf(),
        ensures
            n == self@.scroll_count(rows as int),
    {
        let (top, bottom) = self.scroll_region();
        if rows <= bottom - top {
            rows
        } else {
            bottom - top + 1
        }
    }

    /// Moves the lines of the scroll region up by `n`.
    pub fn lift(&mut self, n: usize)
        requires
            old(self)@.wf(),
            n <= old(self)@.bottom() - old(self)@.top() + 1,
        ensures
            final(self)@ == old(self)@.lifted(n as int),
            final(self)@.wf(),
    {
        let (top, bottom) = self.scroll_region();
        proof {
            grid::rect_row(old(self)@.buffer, old(self)@.lines, old(self)@.columns, 0);
            soundness::lift_keeps_wf(old(self)@, n as int);
        }
        let blank: Vec<Char> = grid::new_row(&self.default_char, self.columns);
        grid::move_up(&mut self.buffer, top, bottom, n, &blank);
        if n > 0 {
            mark_rows(&mut self.dirty, top, bottom + 1);
        }
    }

    /// Moves the scroll region down by `rows` lines.
    pub fn scroll_down(&mut self, rows: usize)
        requires
            old(self)@.wf(),
        ensures
            final(self)@ == old(self)@.scroll_down(rows as int),
            final(self)@.wf(),
    {
        let (top, bottom) = self.scroll_region();
        proof {
            grid::rect_row(old(self)@.buffer, old(self)@.lines, old(self)@.columns, 0);
            soundness::scroll_keeps_wf(old(self)@, rows as int);
        }
        let n: usize = self.lines_to_scroll(rows);
        let blank: Vec<Char> = grid::new_row(&self.default_char, self.columns);
        grid::move_down(&mut self.buffer, top, bottom, n, &blank);
        if n > 0 {
            mark_rows(&mut self.dirty, top, bottom + 1);
        }
    }
}

/// Inserts the row `y` into a set.
fn mark_row(dirty: &mut BTreeSet<usize>, y: usize)
    ensures
        final(dirty)@ == old(dirty)@.insert(y),
{
    broadcast use vstd::std_specs::btree::group_btree_axioms;

    dirty.insert(y);
}

/// Inserts the rows from `from` to before `to` into a set.
pub(crate) fn mark_rows(dirty: &mut BTreeSet<usize>, from: usize, to: usize)
    ensures
        final(dirty)@ == old(dirty)@.union(state::rows_between(from as int, to as int)),
{
    broadcast use vstd::std_specs::btree::group_btree_axioms;

    let ghost before = dirty@;
    let mut y: usize = from;
    assert(dirty@ =~= before.union(state::rows_between(from as int, y as int)));
    while y < to
        invariant
            from <= y,
            dirty@ == before.union(state::rows_between(from as int, y as int)),
            y <= to || y == from,
        decreases to - y,
    {
        dirty.insert(y);
        y = y + 1;
        assert(dirty@ =~= before.union(state::rows_between(from as int, y as int)));
    }
    assert(dirty@ =~= before.union(state::rows_between(from as int, to as int)));
}

/// The larger of `count` and one.
fn at_least_one(count: usize) -> (n: usize)
    ensures
        n == state::max(count as int, 1),
{
    if count == 0 {
        1
    } else {
        count
    }
}

impl Screen {
    /// Writes text at the cursor.
    pub fn draw(&mut self, data: &str)
        requires
            old(self)@.wf(),
        ensures
            final(self)@ == old(self)@.draw(data@),
            final(self)@.wf(),
    {
        assert(data@.take(0) =~= seq![]);
        for c in it: data.chars()
            invariant
                it.seq() == data@,
                self@.wf(),
                self@ == old(self)@.draw(data@.take(it.index() as int)),
        {
            assert(data@.take(it.index() + 1).drop_last() =~= data@.take(it.index() as int));
            self.draw_char(c);
        }
        assert(data@.take(data@.len() as int) =~= data@);
    }

    /// Moves the cursor to the start of the next line, where a wrap is pending.
    fn wrap(&mut self)
        requires
            old(self)@.wf(),
        ensures
            final(self)@ == old(self)@.wrapped(),
            final(self)@.wf(),
    {
        if self.cursor.x >= self.columns {
            self.cursor.x = 0;
            if self.cursor.y < self.lines - 1 {
                self.cursor.y = self.cursor.y + 1;
            }
        }
    }

    /// The character that stands for `ch` on the screen.
    fn glyph(&self, ch: char) -> (g: char)
        ensures
            g == self@.shown(ch),
    {
        if (ch as u32) < 0x80 {
            self.charset.map(ch as u8)
        } else {
            ch
        }
    }

    /// Writes one character at the cursor, as the character set in force shows it.
    pub fn draw_char(&mut self, ch: char)
        requires
            old(self)@.wf(),
        ensures
            final(self)@ == old(self)@.draw_char(ch),
            final(self)@.wf(),
    {
        let width: usize = cell::columns_taken(ch);
        let shown: char = self.glyph(ch);
        self.draw_sized(shown, width);
    }

    /// Writes one character that takes `width` columns.
    pub fn draw_sized(&mut self, ch: char, width: usize)
        requires
            old(self)@.wf(),
        ensures
            final(self)@ == old(self)@.draw_sized(ch, width as int),
            final(self)@.wf(),
    {
        proof {
            soundness::draw_keeps_wf(old(self)@, ch, width as int);
        }
        if width == 0 {
            self.join(ch);
            return;
        }
        self.wrap();
        if width == 1 && self.mode.has_public(modes::IRM) {
            self.insert_characters(1);
        }
        assert(self@ == old(self)@.wrapped().opened(width as int));
        self.put(ch, width);
        if width == 1 {
            if self.mode.has_private(modes::DECAWM) || self.cursor.x < self.columns - 1 {
                self.cursor.x = self.cursor.x + 1;
            } else {
                self.cursor.x = self.columns - 1;
            }
        }
    }

    /// Adds a character without a width to the cell before the cursor.
    fn join(&mut self, ch: char)
        requires
            old(self)@.wf(),
        ensures
            final(self)@ == old(self)@.joined(ch),
    {
        proof {
            grid::rect_row(
                old(self)@.buffer,
                old(self)@.lines,
                old(self)@.columns,
                old(self)@.y,
            );
        }
        if self.cursor.x > 0 {
            let x: usize = self.cursor.x - 1;
            let y: usize = self.cursor.y;
            let ghost before = self@.row()[x as int];
            let ghost joined = Cell { data: before.data.push(ch), ..before };
            self.buffer[y][x].data.push(ch);
            assert(grid::cells(self.buffer@[y as int]@) =~= old(self)@.row().update(
                x as int,
                joined,
            ));
            assert(self@.buffer =~= old(self)@.buffer.update(
                y as int,
                old(self)@.row().update(x as int, joined),
            ));
            mark_row(&mut self.dirty, y);
        }
    }

    /// Writes a character into the cell at the cursor; a wide one blanks the cell after it.
    fn put(&mut self, ch: char, width: usize)
        requires
            old(self)@.wf(),
            old(self)@.x < old(self)@.columns,
        ensures
            final(self)@ == old(self)@.put(ch, width as int),
    {
        proof {
            grid::rect_row(
                old(self)@.buffer,
                old(self)@.lines,
                old(self)@.columns,
                old(self)@.y,
            );
        }
        let x: usize = self.cursor.x;
        let y: usize = self.cursor.y;
        let mut cell: Char = self.cursor.attrs.clone();
        cell.data = text::char_to_string(ch);
        self.buffer[y][x] = cell;
        let ghost written = old(self)@.row().update(
            x as int,
            Cell { data: seq![ch], ..old(self)@.attrs },
        );
        assert(grid::cells(self.buffer@[y as int]@) =~= written);
        assert(self@.buffer =~= old(self)@.buffer.update(y as int, written));
        if width >= 2 && self.columns - x > 1 {
            self.buffer[y][x + 1] = self.default_char.clone();
            let ghost wide = written.update(x + 1, old(self)@.default_char);
            assert(grid::cells(self.buffer@[y as int]@) =~= wide);
            assert(self@.buffer =~= old(self)@.buffer.update(y as int, wide));
        }
        mark_row(&mut self.dirty, y);
    }

    /// Erases the cells of the cursor's row from `from` to before `to`.
    fn erase_cells(&mut self, from: usize, to: usize)
        requires
            old(self)@.wf(),
            to <= old(self)@.columns,
        ensures
            final(self)@ == old(self)@.with_row(
                grid::filled(
                    old(self)@.row(),
                    from as int,
                    to as int,
                    old(self)@.default_char,
                ),
            ),
    {
        proof {
            grid::rect_row(
                old(self)@.buffer,
                old(self)@.lines,
                old(self)@.columns,
                old(self)@.y,
            );
        }
        let y: usize = self.cursor.y;
        grid::fill(&mut self.buffer[y], from, to, &self.default_char);
        mark_row(&mut self.dirty, y);
        assert(self@.buffer =~= old(self)@.buffer.update(
            y as int,
            grid::cells(self.buffer@[y as int]@),
        ));
    }

    /// Erases lines from `from` to before `to`.
    fn erase_rows(&mut self, from: usize, to: usize)
        requires
            old(self)@.wf(),
            to <= old(self)@.lines,
        ensures
            final(self)@ == old(self)@.erase_lines(from as int, to as int),
            final(self)@.wf(),
    {
        proof {
            grid::rect_row(old(self)@.buffer, old(self)@.lines, old(self)@.columns, 0);
            soundness::erase_lines_keeps_wf(old(self)@, from as int, to as int);
        }
        let blank: Vec<Char> = grid::new_row(&self.default_char, self.columns);
        grid::blank_out(&mut self.buffer, from, to, &blank);
        mark_rows(&mut self.dirty, from, to);
    }

    /// Erases `count` cells from the cursor on.
    pub fn erase_characters(&mut self, count: usize)
        requires
            old(self)@.wf(),
        ensures
            final(self)@ == old(self)@.erase_characters(count as int),
            final(self)@.wf(),
    {
        proof {
            soundness::row_edits_keep_wf(old(self)@, count as int);
        }
        let n: usize = at_least_one(count);
        let x: usize = self.cursor.x;
        let left: usize = self.columns - x;
        let end: usize = if n < left {
            x + n
        } else {
            self.columns
        };
        self.erase_cells(x, end);
    }

    /// Takes `count` cells out at the cursor.
    pub fn delete_characters(&mut self, count: usize)
        requires
            old(self)@.wf(),
        ensures
            final(self)@ == old(self)@.delete_characters(count as int),
            final(self)@.wf(),
    {
        proof {
            soundness::row_edits_keep_wf(old(self)@, count as int);
            grid::rect_row(
                old(self)@.buffer,
                old(self)@.lines,
                old(self)@.columns,
                old(self)@.y,
            );
        }
        let n: usize = at_least_one(count);
        let y: usize = self.cursor.y;
        let x: usize = self.cursor.x;
        let left: usize = self.columns - x;
        let n: usize = if n < left {
            n
        } else {
            left
        };
        grid::close_up(&mut self.buffer[y], x, n, &self.default_char);
        mark_row(&mut self.dirty, y);
        assert(self@.buffer =~= old(self)@.buffer.update(
            y as int,
            grid::cells(self.buffer@[y as int]@),
        ));
    }

    /// Puts `count` blank cells in at the cursor.
    pub fn insert_characters(&mut self, count: usize)
        requires
            old(self)@.wf(),
        ensures
            final(self)@ == old(self)@.insert_characters(count as int),
            final(self)@.wf(),
    {
        proof {
            soundness::row_edits_keep_wf(old(self)@, count as int);
            grid::rect_row(
                old(self)@.buffer,
                old(self)@.lines,
                old(self)@.columns,
                old(self)@.y,
            );
        }
        let n: usize = at_least_one(count);
        let y: usize = self.cursor.y;
        let x: usize = self.cursor.x;
        let left: usize = self.columns - x;
        let n: usize = if n < left {
            n
        } else {
            left
        };
        grid::open_up(&mut self.buffer[y], x, n, &self.default_char);
        mark_row(&mut self.dirty, y);
        assert(self@.buffer =~= old(self)@.buffer.update(
            y as int,
            grid::cells(self.buffer@[y as int]@),
        ));
    }

    /// Erases in the cursor's line: from the cursor on (0), up to the cursor (1), or all of it.
    pub fn erase_in_line(&mut self, mode: usize)
        requires
            old(self)@.wf(),
        ensures
            final(self)@ == old(self)@.erase_in_line(mode as int),
            final(self)@.wf(),
    {
        proof {
            soundness::row_edits_keep_wf(old(self)@, mode as int);
        }
        let x: usize = self.cursor.x;
        let last: usize = self.columns - 1;
        if mode == 0 {
            self.erase_cells(x, self.columns);
            if x > last {
                self.cursor.x = last;
            }
        } else if mode == 1 {
            self.erase_cells(
                0,
                if x <= last {
                    x + 1
                } else {
                    self.columns
                },
            );
        } else {
            self.erase_cells(0, self.columns);
        }
    }

    /// Erases in the scroll region: from the cursor on (0), up to the cursor (1), or all of it
    /// (2 and 3).
    pub fn erase_in_display(&mut self, mode: usize)
        requires
            old(self)@.wf(),
        ensures
            final(self)@ == old(self)@.erase_in_display(mode as int),
            final(self)@.wf(),
    {
        proof {
            reveal(ScreenState::erase_in_display);
            soundness::erase_in_display_keeps_wf(old(self)@, mode as int);
            grid::rect_row(
                old(self)@.buffer,
                old(self)@.lines,
                old(self)@.columns,
                old(self)@.y,
            );
        }
        let (top, bottom) = self.scroll_region();
        let x: usize = self.cursor.x;
        let y: usize = self.cursor.y;
        if mode == 0 {
            self.erase_cells(x, self.columns);
            proof {
                soundness::with_row_keeps_wf(
                    old(self)@,
                    grid::filled(
                        old(self)@.row(),
                        x as int,
                        old(self)@.columns,
                        old(self)@.default_char,
                    ),
                );
            }
            self.erase_rows(y + 1, bottom + 1);
        } else if mode == 1 {
            self.erase_rows(top, y);
            assert(self@.row() == old(self)@.row());
            self.erase_cells(
                0,
                if x < self.columns {
                    x + 1
                } else {
                    self.columns
                },
            );
        } else if mode == 2 || mode == 3 {
            self.erase_rows(top, bottom + 1);
        }
    }

    /// Puts `count` blank lines in at the cursor, inside the scroll region.
    pub fn insert_lines(&mut self, count: usize)
        requires
            old(self)@.wf(),
        ensures
            final(self)@ == old(self)@.insert_lines(count as int),
            final(self)@.wf(),
    {
        proof {
            soundness::line_edits_keep_wf(old(self)@, count as int);
            grid::rect_row(old(self)@.buffer, old(self)@.lines, old(self)@.columns, 0);
        }
        let (top, bottom) = self.scroll_region();
        let y: usize = self.cursor.y;
        if y < top || y > bottom {
            return;
        }
        let n: usize = at_least_one(count);
        let n: usize = if n <= bottom - y {
            n
        } else {
            bottom - y
        };
        let blank: Vec<Char> = grid::new_row(&self.default_char, self.columns);
        grid::move_down(&mut self.buffer, y, bottom, n, &blank);
        if n > 0 {
            mark_rows(&mut self.dirty, y, bottom + 1);
        }
        self.cursor.x = 0;
    }

    /// Takes `count` lines out at the cursor, inside the scroll region.
    pub fn delete_lines(&mut self, count: usize)
        requires
            old(self)@.wf(),
        ensures
            final(self)@ == old(self)@.delete_lines(count as int),
            final(self)@.wf(),
    {
        proof {
            soundness::line_edits_keep_wf(old(self)@, count as int);
            grid::rect_row(old(self)@.buffer, old(self)@.lines, old(self)@.columns, 0);
        }
        let (top, bottom) = self.scroll_region();
        let y: usize = self.cursor.y;
        if y < top || y > bottom {
            return;
        }
        let n: usize = at_least_one(count);
        let n: usize = if n <= bottom - y {
            n
        } else {
            bottom - y
        };
        let blank: Vec<Char> = grid::new_row(&self.default_char, self.columns);
        grid::move_up(&mut self.buffer, y, bottom, n, &blank);
        if n > 0 {
            mark_rows(&mut self.dirty, y, bottom + 1);
        }
        self.cursor.x = 0;
    }

    /// Fills the screen with the letter E and homes the cursor.
    pub fn alignment_display(&mut self)
        ensures
            final(self)@ == old(self)@.alignment_display(),
            old(self)@.wf() ==> final(self)@.wf(),
    {
        let mut c: Char = self.default_char.clone();
        c.data = text::char_to_string('E');
        self.buffer = grid::new_grid(&c, self.lines, self.columns);
        mark_rows(&mut self.dirty, 0, self.lines);
        self.cursor.x = 0;
        self.cursor.y = 0;
        proof {
            if old(self)@.wf() {
                soundness::alignment_keeps_wf(old(self)@);
            }
        }
    }
}

} // verus!
