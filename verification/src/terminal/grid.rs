//! Rows of cells and grids of rows: the edits that the screen is made of.
use super::cell::{Cell, Char};
use vstd::prelude::*;

verus! {

/// The cells of a row.
pub open spec fn cells(row: Seq<Char>) -> Seq<Cell> {
    row.map_values(|c: Char| c@)
}

/// The cells of a list of rows.
pub open spec fn grid(rows: Seq<Vec<Char>>) -> Seq<Seq<Cell>> {
    rows.map_values(|r: Vec<Char>| cells(r@))
}

/// `columns` times the cell `c`.
pub open spec fn run_of(c: Cell, columns: int) -> Seq<Cell> {
    Seq::new(columns as nat, |i: int| c)
}

/// `lines` rows of `columns` times the cell `c`.
pub open spec fn grid_of(c: Cell, lines: int, columns: int) -> Seq<Seq<Cell>> {
    Seq::new(lines as nat, |y: int| run_of(c, columns))
}

/// Whether there are `lines` rows of `columns` cells each.
#[verifier::opaque]
pub open spec fn is_rect(rows: Seq<Seq<Cell>>, lines: int, columns: int) -> bool {
    &&& rows.len() == lines
    &&& forall|y: int| 0 <= y < rows.len() ==> (#[trigger] rows[y]).len() == columns
}

/// A rectangle has as many rows as it has lines, each as long as it has columns.
pub proof fn rect_row(rows: Seq<Seq<Cell>>, lines: int, columns: int, y: int)
    requires
        is_rect(rows, lines, columns),
    ensures
        rows.len() == lines,
        0 <= y < lines ==> rows[y].len() == columns,
{
    reveal(is_rect);
}

/// A rectangle with one row replaced by another one of the same length.
pub proof fn rect_update(rows: Seq<Seq<Cell>>, lines: int, columns: int, y: int, row: Seq<Cell>)
    requires
        is_rect(rows, lines, columns),
        0 <= y < lines,
        row.len() == columns,
    ensures
        is_rect(rows.update(y, row), lines, columns),
{
    reveal(is_rect);
}

/// `row` with the cells from `from` to before `to` replaced by `c`.
pub open spec fn filled(row: Seq<Cell>, from: int, to: int, c: Cell) -> Seq<Cell> {
    Seq::new(
        row.len(),
        |i: int|
            if from <= i < to {
                c
            } else {
                row[i]
            },
    )
}

/// `row` with `n` cells taken out at `x`; the rest moves left, and `c` fills the end.
pub open spec fn closed_up(row: Seq<Cell>, x: int, n: int, c: Cell) -> Seq<Cell> {
    Seq::new(
        row.len(),
        |i: int|
            if i < x {
                row[i]
            } else if i + n < row.len() {
                row[i + n]
            } else {
                c
            },
    )
}

/// `row` with `n` cells `c` put in at `x`; the rest moves right, and falls off the end.
pub open spec fn opened_up(row: Seq<Cell>, x: int, n: int, c: Cell) -> Seq<Cell> {
    Seq::new(
        row.len(),
        |i: int|
            if i < x {
                row[i]
            } else if i < x + n {
                c
            } else {
                row[i - n]
            },
    )
}

/// `row` cut or padded with `c` to `columns` cells.
pub open spec fn fitted(row: Seq<Cell>, columns: int, c: Cell) -> Seq<Cell> {
    Seq::new(
        columns as nat,
        |i: int|
            if i < row.len() {
                row[i]
            } else {
                c
            },
    )
}

/// `rows` cut or padded with `c` to `lines` rows of `columns` cells.
pub open spec fn reshaped(
    rows: Seq<Seq<Cell>>,
    lines: int,
    columns: int,
    c: Cell,
) -> Seq<Seq<Cell>> {
    Seq::new(
        lines as nat,
        |y: int|
            if y < rows.len() {
                fitted(rows[y], columns, c)
            } else {
                run_of(c, columns)
            },
    )
}

/// `rows` with the lines from `top` to `bottom` moved up by `n`; `blank` fills the end.
pub open spec fn moved_up(
    rows: Seq<Seq<Cell>>,
    top: int,
    bottom: int,
    n: int,
    blank: Seq<Cell>,
) -> Seq<Seq<Cell>> {
    Seq::new(
        rows.len(),
        |y: int|
            if top <= y <= bottom {
                if y + n <= bottom {
                    rows[y + n]
                } else {
                    blank
                }
            } else {
                rows[y]
            },
    )
}

/// `rows` with the lines from `top` to `bottom` moved down by `n`; `blank` fills the start.
pub open spec fn moved_down(
    rows: Seq<Seq<Cell>>,
    top: int,
    bottom: int,
    n: int,
    blank: Seq<Cell>,
) -> Seq<Seq<Cell>> {
    Seq::new(
        rows.len(),
        |y: int|
            if top <= y <= bottom {
                if y - n >= top {
                    rows[y - n]
                } else {
                    blank
                }
            } else {
                rows[y]
            },
    )
}

/// `rows` with the lines from `from` to before `to` replaced by `blank`.
pub open spec fn blanked(
    rows: Seq<Seq<Cell>>,
    from: int,
    to: int,
    blank: Seq<Cell>,
) -> Seq<Seq<Cell>> {
    Seq::new(
        rows.len(),
        |y: int|
            if from <= y < to {
                blank
            } else {
                rows[y]
            },
    )
}

/// `c` with the reverse attribute set to `on`.
pub open spec fn with_reverse(c: Cell, on: bool) -> Cell {
    Cell { reverse: on, ..c }
}

/// All cells of `rows`, with the reverse attribute set to `on`.
pub open spec fn reversed(rows: Seq<Seq<Cell>>, on: bool) -> Seq<Seq<Cell>> {
    rows.map_values(|row: Seq<Cell>| row.map_values(|c: Cell| with_reverse(c, on)))
}

/// The text of a row: the texts of its cells, one after another.
pub open spec fn row_text(row: Seq<Cell>) -> Seq<char>
    decreases row.len(),
{
    if row.len() == 0 {
        seq![]
    } else {
        row_text(row.drop_last()) + row.last().data
    }
}

/// A copy of a row.
pub fn copy_row(row: &Vec<Char>) -> (r: Vec<Char>)
    ensures
        r@ == row@,
{
    let r = row.clone();
    assert(r@ =~= row@);
    r
}

/// A row of `columns` copies of `c`.
pub fn new_row(c: &Char, columns: usize) -> (r: Vec<Char>)
    ensures
        cells(r@) == run_of(c@, columns as int),
{
    let r = vec![c.clone(); columns];
    assert(cells(r@) =~= run_of(c@, columns as int));
    r
}

/// A grid of `lines` rows of `columns` copies of `c`.
pub fn new_grid(c: &Char, lines: usize, columns: usize) -> (g: Vec<Vec<Char>>)
    ensures
        grid(g@) == grid_of(c@, lines as int, columns as int),
{
    let mut g: Vec<Vec<Char>> = Vec::new();
    let mut y: usize = 0;
    while y < lines
        invariant
            y <= lines,
            grid(g@) == grid_of(c@, y as int, columns as int),
        decreases lines - y,
    {
        let ghost step = grid(g@);
        g.push(new_row(c, columns));
        y = y + 1;
        assert(grid(g@) =~= step.push(run_of(c@, columns as int)));
        assert(grid(g@) =~= grid_of(c@, y as int, columns as int));
    }
    g
}

/// Replaces the cells from `from` to before `to` by `c`.
pub fn fill(row: &mut Vec<Char>, from: usize, to: usize, c: &Char)
    requires
        to <= old(row)@.len(),
    ensures
        cells(final(row)@) == filled(cells(old(row)@), from as int, to as int, c@),
{
    let ghost before = cells(row@);
    let mut i: usize = from;
    assert(cells(row@) =~= filled(before, from as int, i as int, c@));
    while i < to
        invariant
            from <= i,
            to <= row@.len(),
            row@.len() == before.len(),
            i <= to || i == from,
            cells(row@) == filled(before, from as int, i as int, c@),
        decreases to - i,
    {
        let ghost step = cells(row@);
        row[i] = c.clone();
        i = i + 1;
        assert(cells(row@) =~= step.update(i - 1, c@));
        assert(cells(row@) =~= filled(before, from as int, i as int, c@));
    }
    assert(cells(row@) =~= filled(before, from as int, to as int, c@));
}

/// Takes `n` cells out at `x` and fills the end with `c`.
pub fn close_up(row: &mut Vec<Char>, x: usize, n: usize, c: &Char)
    requires
        x + n <= old(row)@.len(),
    ensures
        cells(final(row)@) == closed_up(cells(old(row)@), x as int, n as int, c@),
{
    let ghost before = cells(row@);
    let mut i: usize = 0;
    assert(closed_up(before, x as int, 0, c@) =~= before);
    while i < n
        invariant
            i <= n,
            x + n <= row@.len(),
            row@.len() == before.len(),
            cells(row@) == closed_up(before, x as int, i as int, c@),
        decreases n - i,
    {
        let ghost step = cells(row@);
        let _ = row.remove(x);
        row.push(c.clone());
        i = i + 1;
        assert(cells(row@) =~= step.remove(x as int).push(c@));
        assert(cells(row@) =~= closed_up(before, x as int, i as int, c@));
    }
}

/// Puts `n` cells `c` in at `x`; what does not fit falls off the end.
pub fn open_up(row: &mut Vec<Char>, x: usize, n: usize, c: &Char)
    requires
        x + n <= old(row)@.len(),
    ensures
        cells(final(row)@) == opened_up(cells(old(row)@), x as int, n as int, c@),
{
    let ghost before = cells(row@);
    let mut i: usize = 0;
    assert(opened_up(before, x as int, 0, c@) =~= before);
    while i < n
        invariant
            i <= n,
            x + n <= row@.len(),
            row@.len() == before.len(),
            cells(row@) == opened_up(before, x as int, i as int, c@),
        decreases n - i,
    {
        let ghost step = cells(row@);
        let _ = row.pop();
        row.insert(x, c.clone());
        i = i + 1;
        assert(cells(row@) =~= step.drop_last().insert(x as int, c@));
        assert(cells(row@) =~= opened_up(before, x as int, i as int, c@));
    }
}

/// Cuts or pads a row to `columns` cells.
pub fn fit(row: &mut Vec<Char>, columns: usize, c: &Char)
    ensures
        cells(final(row)@) == fitted(cells(old(row)@), columns as int, c@),
{
    let ghost before = cells(row@);
    if row.len() > columns {
        row.truncate(columns);
    }
    assert(cells(row@) =~= fitted(before, row@.len() as int, c@));
    while row.len() < columns
        invariant
            row@.len() <= columns,
            cells(row@) == fitted(before, row@.len() as int, c@),
            before.len() <= row@.len() || row@.len() == columns,
        decreases columns - row@.len(),
    {
        let ghost step = cells(row@);
        row.push(c.clone());
        assert(cells(row@) =~= step.push(c@));
        assert(cells(row@) =~= fitted(before, row@.len() as int, c@));
    }
}

/// Cuts or pads a grid to `lines` rows of `columns` cells.
pub fn reshape(rows: &mut Vec<Vec<Char>>, lines: usize, columns: usize, c: &Char)
    ensures
        grid(final(rows)@) == reshaped(grid(old(rows)@), lines as int, columns as int, c@),
{
    let ghost before = grid(rows@);
    if rows.len() > lines {
        rows.truncate(lines);
    }
    let kept: usize = rows.len();
    let mut y: usize = 0;
    while y < kept
        invariant
            y <= kept <= before.len(),
            kept <= lines,
            rows@.len() == kept,
            forall|j: int|
                0 <= j < kept ==> (#[trigger] grid(rows@)[j]) == if j < y {
                    fitted(before[j], columns as int, c@)
                } else {
                    before[j]
                },
        decreases kept - y,
    {
        let ghost step = grid(rows@);
        assert(step[y as int] == before[y as int]);
        fit(&mut rows[y], columns, c);
        assert(grid(rows@) =~= step.update(y as int, fitted(before[y as int], columns as int, c@)));
        y = y + 1;
    }
    while rows.len() < lines
        invariant
            kept <= rows@.len() <= lines,
            kept == before.len() || kept == lines,
            kept <= before.len(),
            forall|j: int|
                0 <= j < rows@.len() ==> (#[trigger] grid(rows@)[j]) == if j < kept {
                    fitted(before[j], columns as int, c@)
                } else {
                    run_of(c@, columns as int)
                },
        decreases lines - rows@.len(),
    {
        let ghost step = grid(rows@);
        rows.push(new_row(c, columns));
        assert(grid(rows@) =~= step.push(run_of(c@, columns as int)));
    }
    assert(grid(rows@) =~= reshaped(before, lines as int, columns as int, c@));
}

/// Appends copies of the first `n` rows of `rows` to `out`.
pub fn push_rows(out: &mut Vec<Vec<Char>>, rows: &Vec<Vec<Char>>, n: usize)
    requires
        n <= rows@.len(),
    ensures
        grid(final(out)@) == grid(old(out)@) + grid(rows@).take(n as int),
{
    let ghost before = grid(out@);
    let ghost all = grid(rows@);
    let mut y: usize = 0;
    assert(grid(out@) =~= before + all.take(0));
    while y < n
        invariant
            y <= n <= rows@.len(),
            all == grid(rows@),
            grid(out@) == before + all.take(y as int),
        decreases n - y,
    {
        let ghost step = grid(out@);
        out.push(copy_row(&rows[y]));
        y = y + 1;
        assert(grid(out@) =~= step.push(all[y - 1]));
        assert(grid(out@) =~= before + all.take(y as int));
    }
}

/// Moves the lines from `top` to `bottom` up by `n`.
pub fn move_up(rows: &mut Vec<Vec<Char>>, top: usize, bottom: usize, n: usize, blank: &Vec<Char>)
    requires
        top <= bottom < old(rows)@.len(),
        n <= bottom - top + 1,
    ensures
        grid(final(rows)@) == moved_up(
            grid(old(rows)@),
            top as int,
            bottom as int,
            n as int,
            cells(blank@),
        ),
{
    let ghost before = grid(rows@);
    let mut i: usize = 0;
    assert(moved_up(before, top as int, bottom as int, 0, cells(blank@)) =~= before);
    while i < n
        invariant
            i <= n,
            n <= bottom - top + 1,
            top <= bottom < rows@.len(),
            rows@.len() == before.len(),
            grid(rows@) == moved_up(before, top as int, bottom as int, i as int, cells(blank@)),
        decreases n - i,
    {
        let ghost step = grid(rows@);
        let _ = rows.remove(top);
        rows.insert(bottom, copy_row(blank));
        i = i + 1;
        assert(grid(rows@) =~= step.remove(top as int).insert(bottom as int, cells(blank@)));
        assert(grid(rows@) =~= moved_up(
            before,
            top as int,
            bottom as int,
            i as int,
            cells(blank@),
        ));
    }
}

/// Moves the lines from `top` to `bottom` down by `n`.
pub fn move_down(rows: &mut Vec<Vec<Char>>, top: usize, bottom: usize, n: usize, blank: &Vec<Char>)
    requires
        top <= bottom < old(rows)@.len(),
        n <= bottom - top + 1,
    ensures
        grid(final(rows)@) == moved_down(
            grid(old(rows)@),
            top as int,
            bottom as int,
            n as int,
            cells(blank@),
        ),
{
    let ghost before = grid(rows@);
    let mut i: usize = 0;
    assert(moved_down(before, top as int, bottom as int, 0, cells(blank@)) =~= before);
    while i < n
        invariant
            i <= n,
            n <= bottom - top + 1,
            top <= bottom < rows@.len(),
            rows@.len() == before.len(),
            grid(rows@) == moved_down(before, top as int, bottom as int, i as int, cells(blank@)),
        decreases n - i,
    {
        let ghost step = grid(rows@);
        let _ = rows.remove(bottom);
        rows.insert(top, copy_row(blank));
        i = i + 1;
        assert(grid(rows@) =~= step.remove(bottom as int).insert(top as int, cells(blank@)));
        assert(grid(rows@) =~= moved_down(
            before,
            top as int,
            bottom as int,
            i as int,
            cells(blank@),
        ));
    }
}

/// Replaces the lines from `from` to before `to` by `blank`.
pub fn blank_out(rows: &mut Vec<Vec<Char>>, from: usize, to: usize, blank: &Vec<Char>)
    requires
        to <= old(rows)@.len(),
    ensures
        grid(final(rows)@) == blanked(grid(old(rows)@), from as int, to as int, cells(blank@)),
{
    let ghost before = grid(rows@);
    let mut y: usize = from;
    assert(grid(rows@) =~= blanked(before, from as int, y as int, cells(blank@)));
    while y < to
        invariant
            from <= y,
            to <= rows@.len(),
            rows@.len() == before.len(),
            grid(rows@) == blanked(before, from as int, y as int, cells(blank@)),
            y <= to || y == from,
        decreases to - y,
    {
        let ghost step = grid(rows@);
        rows[y] = copy_row(blank);
        y = y + 1;
        assert(grid(rows@) =~= step.update(y - 1, cells(blank@)));
        assert(grid(rows@) =~= blanked(before, from as int, y as int, cells(blank@)));
    }
    assert(grid(rows@) =~= blanked(before, from as int, to as int, cells(blank@)));
}

fn set_row_reverse(row: &mut Vec<Char>, on: bool)
    ensures
        cells(final(row)@) == cells(old(row)@).map_values(|c: Cell| with_reverse(c, on)),
{
    let ghost before = cells(row@);
    let mut i: usize = 0;
    while i < row.len()
        invariant
            i <= row@.len(),
            row@.len() == before.len(),
            forall|j: int|
                0 <= j < row@.len() ==> (#[trigger] cells(row@)[j]) == if j < i {
                    with_reverse(before[j], on)
                } else {
                    before[j]
                },
        decreases row@.len() - i,
    {
        let ghost step = cells(row@);
        assert(step[i as int] == before[i as int]);
        row[i].reverse = on;
        assert(cells(row@) =~= step.update(i as int, with_reverse(before[i as int], on)));
        i = i + 1;
    }
    assert(cells(row@) =~= before.map_values(|c: Cell| with_reverse(c, on)));
}

/// Sets the reverse attribute of all cells.
pub fn set_reverse(rows: &mut Vec<Vec<Char>>, on: bool)
    ensures
        grid(final(rows)@) == reversed(grid(old(rows)@), on),
{
    let ghost before = grid(rows@);
    let mut y: usize = 0;
    while y < rows.len()
        invariant
            y <= rows@.len(),
            rows@.len() == before.len(),
            forall|j: int|
                0 <= j < rows@.len() ==> (#[trigger] grid(rows@)[j]) == if j < y {
                    before[j].map_values(|c: Cell| with_reverse(c, on))
                } else {
                    before[j]
                },
        decreases rows@.len() - y,
    {
        let ghost step = grid(rows@);
        assert(step[y as int] == before[y as int]);
        set_row_reverse(&mut rows[y], on);
        assert(grid(rows@) =~= step.update(
            y as int,
            before[y as int].map_values(|c: Cell| with_reverse(c, on)),
        ));
        y = y + 1;
    }
    assert(grid(rows@) =~= reversed(before, on));
}

/// The text of a row.
pub fn text_of_row(row: &Vec<Char>) -> (s: String)
    ensures
        s@ == row_text(cells(row@)),
{
    let mut s = String::new();
    let mut i: usize = 0;
    assert(s@ =~= row_text(cells(row@).take(0)));
    while i < row.len()
        invariant
            i <= row@.len(),
            s@ == row_text(cells(row@).take(i as int)),
        decreases row@.len() - i,
    {
        s.append(row[i].data.as_str());
        assert(cells(row@).take(i + 1).drop_last() =~= cells(row@).take(i as int));
        i = i + 1;
    }
    assert(cells(row@).take(i as int) =~= cells(row@));
    s
}

/// The texts of rows, one string for each.
pub open spec fn rows_text(rows: Seq<Seq<Cell>>) -> Seq<Seq<char>> {
    rows.map_values(|row: Seq<Cell>| row_text(row))
}

/// The views of a list of strings.
pub open spec fn texts(lines: Seq<String>) -> Seq<Seq<char>> {
    lines.map_values(|s: String| s@)
}

/// The texts of rows, appended to `out`.
pub fn push_texts(out: &mut Vec<String>, rows: &Vec<Vec<Char>>)
    ensures
        texts(final(out)@) == texts(old(out)@) + rows_text(grid(rows@)),
{
    let ghost before = texts(out@);
    let ghost all = rows_text(grid(rows@));
    let mut y: usize = 0;
    assert(texts(out@) =~= before + all.take(0));
    while y < rows.len()
        invariant
            y <= rows@.len(),
            all == rows_text(grid(rows@)),
            texts(out@) == before + all.take(y as int),
        decreases rows@.len() - y,
    {
        let ghost step = texts(out@);
        out.push(text_of_row(&rows[y]));
        y = y + 1;
        assert(texts(out@) =~= step.push(all[y - 1]));
        assert(texts(out@) =~= before + all.take(y as int));
    }
    assert(all.take(y as int) =~= all);
}

} // verus!
