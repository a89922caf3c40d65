//! The heatmap: one column per week, one row per day of the week, each
//! cell a coloured square, written out as terminal text.

use vstd::prelude::*;
use vstd::string::*;
use crate::structs::{weeks_model, ContributionDay, DayModel, Week};
use crate::text::{
    decimal, lemma_decimal_is_digits, lemma_line_breaks_add, lemma_line_breaks_none, line_breaks,
    push_decimal, str_eq,
};

verus! {

/// The number of rows of the grid: one for each day of the week.
pub const GRID_ROWS: usize = 7;

/// The terminal colour index of a colour category. The five categories of
/// the palette, lightest first, have an index each; any other text counts
/// as the lightest.
pub open spec fn color_code(hex: Seq<char>) -> u8 {
    if hex == "#ebedf0"@ {
        255
    } else if hex == "#9be9a8"@ {
        120
    } else if hex == "#40c463"@ {
        34
    } else if hex == "#30a14e"@ {
        28
    } else if hex == "#216e39"@ {
        22
    } else {
        255
    }
}

/// What one position of the grid shows.
pub enum Cell {
    /// A square in the given terminal colour.
    Square(u8),
    /// Nothing: the week has no day in this row.
    Blank,
}

/// The cell that a week shows in a row.
pub open spec fn cell_at(week: Seq<DayModel>, row: int) -> Cell {
    if 0 <= row < week.len() {
        Cell::Square(color_code(week[row].color))
    } else {
        Cell::Blank
    }
}

/// The grid of a run of weeks: `GRID_ROWS` rows, and in each row one cell
/// for every week, oldest week first.
pub open spec fn grid(weeks: Seq<Seq<DayModel>>) -> Seq<Seq<Cell>> {
    Seq::new(GRID_ROWS as nat, |row: int| Seq::new(weeks.len(), |col: int| cell_at(weeks[col], row)))
}

/// The text of a square: the escape sequence that selects the background
/// colour, two spaces, and the escape sequence that resets the colours.
pub open spec fn square_text(code: u8) -> Seq<char> {
    "\x1b[48;5;"@ + decimal(code as nat) + "m  \x1b[0m"@
}

/// The text of a cell. A blank is two spaces, as wide as a square.
pub open spec fn cell_text(cell: Cell) -> Seq<char> {
    match cell {
        Cell::Square(code) => square_text(code),
        Cell::Blank => "  "@,
    }
}

/// The text of some cells, one after the other.
pub open spec fn cells_text(cells: Seq<Cell>) -> Seq<char> {
    cells.map_values(|cell: Cell| cell_text(cell)).flatten()
}

/// The text of a row: its cells, then a line break.
pub open spec fn row_text(row: Seq<Cell>) -> Seq<char> {
    cells_text(row) + "\n"@
}

/// The text of some rows, one after the other.
pub open spec fn rows_text(rows: Seq<Seq<Cell>>) -> Seq<char> {
    rows.map_values(|row: Seq<Cell>| row_text(row)).flatten()
}

/// The grid has `GRID_ROWS` rows whatever the calendar holds, and every
/// row has exactly one cell for each week.
pub proof fn lemma_grid_shape(weeks: Seq<Seq<DayModel>>)
    ensures
        grid(weeks).len() == GRID_ROWS,
        forall|row: int| 0 <= row < GRID_ROWS ==> (#[trigger] grid(weeks)[row]).len() == weeks.len(),
{
}

/// Every colour text has a code; the five categories of the palette have
/// five different ones, and a text outside the palette has the code of the
/// lightest category.
pub proof fn lemma_color_codes(hex: Seq<char>)
    ensures
        color_code("#ebedf0"@) == 255,
        color_code("#9be9a8"@) == 120,
        color_code("#40c463"@) == 34,
        color_code("#30a14e"@) == 28,
        color_code("#216e39"@) == 22,
        hex != "#ebedf0"@ && hex != "#9be9a8"@ && hex != "#40c463"@ && hex != "#30a14e"@ && hex
            != "#216e39"@ ==> color_code(hex) == color_code("#ebedf0"@),
        color_code(hex) == 255 || color_code(hex) == 120 || color_code(hex) == 34 || color_code(hex)
            == 28 || color_code(hex) == 22,
{
    reveal_strlit("#ebedf0");
    reveal_strlit("#9be9a8");
    reveal_strlit("#40c463");
    reveal_strlit("#30a14e");
    reveal_strlit("#216e39");
    assert("#ebedf0"@[1] == 'e');
    assert("#9be9a8"@[1] == '9');
    assert("#40c463"@[1] == '4');
    assert("#30a14e"@[1] == '3');
    assert("#216e39"@[1] == '2');
}

/// The terminal colour index for a colour category of the calendar.
pub fn github_color_to_ansi(hex: &str) -> (code: u8)
    ensures
        code == color_code(hex@),
{
    if str_eq(hex, "#ebedf0") {
        255
    } else if str_eq(hex, "#9be9a8") {
        120
    } else if str_eq(hex, "#40c463") {
        34
    } else if str_eq(hex, "#30a14e") {
        28
    } else if str_eq(hex, "#216e39") {
        22
    } else {
        255
    }
}

/// Appends a square in the given colour to `out`.
pub fn push_square(out: &mut String, square_color: u8)
    ensures
        final(out)@ == old(out)@ + square_text(square_color),
{
    out.append("\x1b[48;5;");
    push_decimal(out, square_color as u32);
    out.append("m  \x1b[0m");
    assert(out@ =~= old(out)@ + square_text(square_color));
}

/// The text of a single square in the given colour.
pub fn square(square_color: u8) -> (text: String)
    ensures
        text@ == square_text(square_color),
{
    let mut text = String::new();
    push_square(&mut text, square_color);
    assert(text@ =~= square_text(square_color));
    text
}

proof fn lemma_cells_text_next(cells: Seq<Cell>, col: int)
    requires
        0 <= col < cells.len(),
    ensures
        cells_text(cells.take(col + 1)) == cells_text(cells.take(col)) + cell_text(cells[col]),
{
    let texts = cells.map_values(|cell: Cell| cell_text(cell));
    assert(cells.take(col + 1).map_values(|cell: Cell| cell_text(cell)) =~= texts.take(col).push(
        texts[col],
    ));
    assert(cells.take(col).map_values(|cell: Cell| cell_text(cell)) =~= texts.take(col));
    texts.take(col).lemma_flatten_push(texts[col]);
}

proof fn lemma_rows_text_next(rows: Seq<Seq<Cell>>, row: int)
    requires
        0 <= row < rows.len(),
    ensures
        rows_text(rows.take(row + 1)) == rows_text(rows.take(row)) + row_text(rows[row]),
{
    let texts = rows.map_values(|r: Seq<Cell>| row_text(r));
    assert(rows.take(row + 1).map_values(|r: Seq<Cell>| row_text(r)) =~= texts.take(row).push(
        texts[row],
    ));
    assert(rows.take(row).map_values(|r: Seq<Cell>| row_text(r)) =~= texts.take(row));
    texts.take(row).lemma_flatten_push(texts[row]);
}

/// The text of a cell holds no line break.
pub proof fn lemma_cell_text_is_one_line(cell: Cell)
    ensures
        line_breaks(cell_text(cell)) == 0,
{
    reveal_strlit("\x1b[48;5;");
    reveal_strlit("m  \x1b[0m");
    reveal_strlit("  ");
    match cell {
        Cell::Square(code) => {
            lemma_decimal_is_digits(code as nat);
            lemma_line_breaks_none("\x1b[48;5;"@);
            lemma_line_breaks_none(decimal(code as nat));
            lemma_line_breaks_none("m  \x1b[0m"@);
            lemma_line_breaks_add("\x1b[48;5;"@, decimal(code as nat));
            lemma_line_breaks_add("\x1b[48;5;"@ + decimal(code as nat), "m  \x1b[0m"@);
        },
        Cell::Blank => {
            lemma_line_breaks_none("  "@);
        },
    }
}

/// The text of a row holds one line break, the one at its end.
pub proof fn lemma_row_text_is_one_line(row: Seq<Cell>)
    ensures
        line_breaks(row_text(row)) == 1,
        row_text(row).last() == '\n',
{
    reveal_strlit("\n");
    lemma_cells_one_line(row, row.len() as int);
    assert(row.take(row.len() as int) =~= row);
    lemma_line_breaks_add(cells_text(row), "\n"@);
    assert(line_breaks("\n"@) == 1) by {
        assert("\n"@.drop_last() =~= Seq::<char>::empty());
        assert(line_breaks("\n"@.drop_last()) == 0);
    }
}

proof fn lemma_cells_one_line(row: Seq<Cell>, n: int)
    requires
        0 <= n <= row.len(),
    ensures
        line_breaks(cells_text(row.take(n))) == 0,
    decreases n,
{
    if n == 0 {
        assert(row.take(0).map_values(|cell: Cell| cell_text(cell)) =~= Seq::<Seq<char>>::empty());
    } else {
        lemma_cells_one_line(row, n - 1);
        lemma_cells_text_next(row, n - 1);
        lemma_cell_text_is_one_line(row[n - 1]);
        lemma_line_breaks_add(cells_text(row.take(n - 1)), cell_text(row[n - 1]));
    }
}

proof fn lemma_rows_lines(rows: Seq<Seq<Cell>>, n: int)
    requires
        0 <= n <= rows.len(),
    ensures
        line_breaks(rows_text(rows.take(n))) == n,
    decreases n,
{
    if n == 0 {
        assert(rows.take(0).map_values(|r: Seq<Cell>| row_text(r)) =~= Seq::<Seq<char>>::empty());
    } else {
        lemma_rows_lines(rows, n - 1);
        lemma_rows_text_next(rows, n - 1);
        lemma_row_text_is_one_line(rows[n - 1]);
        lemma_line_breaks_add(rows_text(rows.take(n - 1)), row_text(rows[n - 1]));
    }
}

/// The heatmap is printed on exactly `GRID_ROWS` lines, whatever the
/// calendar holds: its text has that many line breaks, one at the end of
/// each row.
pub proof fn lemma_heatmap_lines(weeks: Seq<Seq<DayModel>>)
    ensures
        line_breaks(rows_text(grid(weeks))) == GRID_ROWS,
{
    let rows = grid(weeks);
    lemma_rows_lines(rows, rows.len() as int);
    assert(rows.take(rows.len() as int) =~= rows);
}

/// The heatmap of a run of weeks as terminal text: `GRID_ROWS` lines, one
/// for each day of the week, and on each line one cell for every week,
/// oldest week leftmost. A week that has a day in the row shows a square
/// in that day's colour; a week that has none shows a blank of the same
/// width, which keeps the columns aligned.
pub fn week_squares(weeks: &[Week]) -> (text: String)
    ensures
        text@ == rows_text(grid(weeks_model(weeks@))),
{
    let ghost model = weeks_model(weeks@);
    let ghost rows = grid(model);
    let mut text = String::new();
    let mut row: usize = 0;
    proof {
        assert(rows.take(0).map_values(|r: Seq<Cell>| row_text(r)) =~= Seq::<Seq<char>>::empty());
    }
    while row < GRID_ROWS
        invariant
            model == weeks_model(weeks@),
            rows == grid(model),
            row <= GRID_ROWS,
            text@ == rows_text(rows.take(row as int)),
        decreases GRID_ROWS - row,
    {
        let ghost done = text@;
        let ghost cells = rows[row as int];
        let mut col: usize = 0;
        proof {
            assert(cells.take(0).map_values(|cell: Cell| cell_text(cell)) =~= Seq::<
                Seq<char>,
            >::empty());
            assert(text@ =~= done + cells_text(cells.take(0)));
        }
        while col < weeks.len()
            invariant
                model == weeks_model(weeks@),
                rows == grid(model),
                row < GRID_ROWS,
                cells == rows[row as int],
                cells.len() == weeks@.len(),
                col <= weeks@.len(),
                text@ == done + cells_text(cells.take(col as int)),
            decreases weeks@.len() - col,
        {
            let ghost before = text@;
            let days = &weeks[col].contribution_days;
            proof {
                lemma_cells_text_next(cells, col as int);
                assert(model[col as int] == days@.map_values(|day: ContributionDay| day@));
            }
            if row < days.len() {
                let code = github_color_to_ansi(days[row].color.as_str());
                push_square(&mut text, code);
            } else {
                text.append("  ");
            }
            assert(text@ == before + cell_text(cells[col as int]));
            assert(text@ =~= done + cells_text(cells.take(col as int + 1)));
            col += 1;
        }
        text.append("\n");
        proof {
            assert(cells.take(col as int) =~= cells);
            lemma_rows_text_next(rows, row as int);
            assert(text@ =~= done + row_text(cells));
        }
        row += 1;
    }
    proof {
        assert(rows.take(row as int) =~= rows);
    }
    text
}

} // verus!
