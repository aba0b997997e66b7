//! The daily mini crossword: its puzzle data and text rendering.
//!
//! The puzzle itself is fetched from the web and its board image is
//! rasterized by the runtime; what arrives here is plain data — cells,
//! clues, constructors and the publication date — and everything computed
//! from it is specified exactly.
use vstd::prelude::*;

use crate::text::spaces;

verus! {

/// Reported when a crossword cannot be fetched or rendered.
#[derive(Debug, PartialEq, Clone)]
pub enum Error {
    /// The puzzle fetch failed.
    Request(String),
    /// The board's vector image could not be parsed.
    SVG(String),
    /// The rasterized board could not be encoded.
    PNGEncoding,
    /// Text art is only drawn for 5x5 grids.
    NotFiveByFive,
}

/// Sizing for the rasterized board image.
#[derive(Debug, PartialEq, Eq, Structural, Clone, Copy)]
pub struct MiniCrosswordOptions {
    pub dpi: u16,
    pub target_width: u32,
}

/// A calendar date, as plain values.
#[derive(Debug, PartialEq, Eq, Structural, Clone, Copy)]
pub struct Date {
    pub year: i16,
    pub month: u8,
    pub day: u8,
}

/// Whether `year` is a leap year.
pub open spec fn is_leap_year(year: int) -> bool {
    (year % 4 == 0 && year % 100 != 0) || year % 400 == 0
}

/// The number of days in a month.
pub open spec fn days_in_month(year: int, month: int) -> int {
    if month == 2 {
        if is_leap_year(year) {
            29
        } else {
            28
        }
    } else if month == 4 || month == 6 || month == 9 || month == 11 {
        30
    } else {
        31
    }
}

impl Date {
    /// A proper calendar date within the supported year range.
    pub open spec fn wf(&self) -> bool {
        &&& -9999 <= self.year <= 9999
        &&& 1 <= self.month <= 12
        &&& 1 <= self.day <= days_in_month(self.year as int, self.month as int)
    }

    /// Check that this is a proper calendar date.
    pub fn is_valid(&self) -> (r: bool)
        ensures
            r == self.wf(),
    {
        if !(-9999 <= self.year && self.year <= 9999) {
            return false;
        }
        if !(1 <= self.month && self.month <= 12) {
            return false;
        }
        let days: u8 = if self.month == 2 {
            let y = self.year as i64;
            if (y % 4 == 0 && y % 100 != 0) || y % 400 == 0 {
                29
            } else {
                28
            }
        } else if self.month == 4 || self.month == 6 || self.month == 9 || self.month == 11 {
            30
        } else {
            31
        };
        1 <= self.day && self.day <= days
    }
}

/// The formatted publication line for a date: weekday, month name, day and
/// year, as the date formatter prints it.
pub uninterp spec fn date_line_of(year: i16, month: u8, day: u8) -> Seq<char>;

/// Relies on jiff's civil dates and strftime: the "%A, %B %-d, %Y" line
/// for a calendar date, a function of the date alone.  A well-formed date
/// is always within jiff's range.
#[verifier::external_body]
pub fn format_date_line(d: &Date) -> (r: String)
    requires
        d.wf(),
    ensures
        r@ == date_line_of(d.year, d.month, d.day),
{
    jiff::civil::Date::new(d.year, d.month as i8, d.day as i8)
        .expect("well-formed dates are within jiff's range")
        .strftime("%A, %B %-d, %Y")
        .to_string()
}

/// One grid cell: a black square has no answer; a numbered cell carries
/// its label.
#[derive(Debug, PartialEq, Clone)]
pub struct Cell {
    pub answer: Option<String>,
    pub label: Option<String>,
}

/// Mathematical model of a cell.
pub struct CellModel {
    pub answer: Option<Seq<char>>,
    pub label: Option<Seq<char>>,
}

impl View for Cell {
    type V = CellModel;

    open spec fn view(&self) -> CellModel {
        CellModel {
            answer: match &self.answer {
                Some(a) => Some(a@),
                None => None,
            },
            label: match &self.label {
                Some(l) => Some(l@),
                None => None,
            },
        }
    }
}

/// The direction a clue list runs in.
#[derive(Debug, PartialEq, Eq, Structural, Clone, Copy)]
pub enum Direction {
    Across,
    Down,
}

/// How a direction is shown above its clues.
pub open spec fn direction_label(d: Direction) -> Seq<char> {
    match d {
        Direction::Across => "Across"@,
        Direction::Down => "Down"@,
    }
}

impl Direction {
    /// The direction's display form.
    pub fn label(&self) -> (r: &'static str)
        ensures
            r@ == direction_label(*self),
    {
        match self {
            Direction::Across => "Across",
            Direction::Down => "Down",
        }
    }
}

/// The clue numbers of one direction.
#[derive(Debug, PartialEq, Clone)]
pub struct ClueList {
    pub clues: Vec<u16>,
    pub name: Direction,
}

/// Mathematical model of a clue list.
pub struct ClueListModel {
    pub clues: Seq<u16>,
    pub name: Direction,
}

impl View for ClueList {
    type V = ClueListModel;

    open spec fn view(&self) -> ClueListModel {
        ClueListModel { clues: self.clues@, name: self.name }
    }
}

/// One clue's text, in plain form.
#[derive(Debug, PartialEq, Clone)]
pub struct ClueText {
    pub plain: String,
}

impl View for ClueText {
    type V = Seq<char>;

    open spec fn view(&self) -> Seq<char> {
        self.plain@
    }
}

/// One clue: its printed label and its text variants.
#[derive(Debug, PartialEq, Clone)]
pub struct Clue {
    pub label: String,
    pub text: Vec<ClueText>,
}

/// Mathematical model of a clue.
pub struct ClueModel {
    pub label: Seq<char>,
    pub text: Seq<Seq<char>>,
}

impl View for Clue {
    type V = ClueModel;

    open spec fn view(&self) -> ClueModel {
        ClueModel { label: self.label@, text: self.text@.map_values(|t: ClueText| t@) }
    }
}

/// One day's puzzle: the grid cells in row-major order and the clues.
#[derive(Debug, PartialEq, Clone)]
pub struct Puzzle {
    pub cells: Vec<Cell>,
    pub clue_lists: Vec<ClueList>,
    pub clues: Vec<Clue>,
}

/// Mathematical model of a puzzle.
pub struct PuzzleModel {
    pub cells: Seq<CellModel>,
    pub clue_lists: Seq<ClueListModel>,
    pub clues: Seq<ClueModel>,
}

impl View for Puzzle {
    type V = PuzzleModel;

    open spec fn view(&self) -> PuzzleModel {
        PuzzleModel {
            cells: self.cells@.map_values(|c: Cell| c@),
            clue_lists: self.clue_lists@.map_values(|l: ClueList| l@),
            clues: self.clues@.map_values(|c: Clue| c@),
        }
    }
}

/// A puzzle whose clue lists reference real clues, each with at least one
/// text: what the fetched data must satisfy before it is rendered.
pub open spec fn puzzle_wf(p: PuzzleModel) -> bool {
    forall|i: int, j: int|
        0 <= i < p.clue_lists.len() && 0 <= j < (#[trigger] p.clue_lists[i]).clues.len() ==> {
            &&& (#[trigger] p.clue_lists[i].clues[j]) < p.clues.len()
            &&& p.clues[p.clue_lists[i].clues[j] as int].text.len() > 0
        }
}

impl Puzzle {
    /// Check that every clue reference resolves and every referenced clue
    /// has a text; data from the network must pass this before rendering.
    #[verifier::loop_isolation(false)]
    pub fn references_valid(&self) -> (r: bool)
        ensures
            r == puzzle_wf(self@),
    {
        let n = self.clue_lists.len();
        let mut i: usize = 0;
        while i < n
            invariant
                i <= n,
                n == self.clue_lists@.len(),
                forall|a: int, b: int|
                    0 <= a < i && 0 <= b < (#[trigger] self@.clue_lists[a]).clues.len() ==> {
                        &&& (#[trigger] self@.clue_lists[a].clues[b]) < self@.clues.len()
                        &&& self@.clues[self@.clue_lists[a].clues[b] as int].text.len() > 0
                    },
            decreases n - i,
        {
            let m = self.clue_lists[i].clues.len();
            let mut j: usize = 0;
            while j < m
                invariant
                    j <= m,
                    i < n,
                    n == self.clue_lists@.len(),
                    m == self.clue_lists@[i as int].clues@.len(),
                    forall|b: int|
                        0 <= b < j ==> {
                            &&& (#[trigger] self@.clue_lists[i as int].clues[b])
                                < self@.clues.len()
                            &&& self@.clues[self@.clue_lists[i as int].clues[b] as int].text.len()
                                > 0
                        },
                decreases m - j,
            {
                let num = self.clue_lists[i].clues[j];
                proof {
                    assert(self@.clue_lists[i as int] == self.clue_lists@[i as int]@);
                    assert(self@.clue_lists[i as int].clues[j as int] == num);
                }
                if (num as usize) >= self.clues.len() {
                    return false;
                }
                if self.clues[num as usize].text.len() == 0 {
                    proof {
                        assert(self@.clues[num as int] == self.clues@[num as int]@);
                        assert(self@.clues[num as int].text.len() == 0);
                    }
                    return false;
                }
                proof {
                    assert(self@.clues[num as int] == self.clues@[num as int]@);
                }
                j += 1;
            }
            i += 1;
        }
        true
    }
}

/// The day's crossword, ready to print: the rasterized board image and the
/// puzzle data.
#[derive(Debug, PartialEq, Clone)]
pub struct Crossword {
    pub image: Vec<u8>,
    pub puzzle: Puzzle,
    pub publication_date: Date,
    pub constructors: Vec<String>,
}

/// Mathematical model of a day's crossword.
pub struct CrosswordModel {
    pub image: Seq<u8>,
    pub puzzle: PuzzleModel,
    pub publication_date: Date,
    pub constructors: Seq<Seq<char>>,
}

impl View for Crossword {
    type V = CrosswordModel;

    open spec fn view(&self) -> CrosswordModel {
        CrosswordModel {
            image: self.image@,
            puzzle: self.puzzle@,
            publication_date: self.publication_date,
            constructors: self.constructors@.map_values(|s: String| s@),
        }
    }
}

/// The response shape the puzzle service answers with.
#[derive(Debug, PartialEq, Clone)]
pub struct MiniCrossword {
    pub body: Vec<Puzzle>,
    pub constructors: Vec<String>,
    pub publication_date: Date,
}

/// Whether the cell at `idx` is a black square.
pub open spec fn cell_black(cells: Seq<CellModel>, idx: int) -> bool {
    cells[idx].answer is None
}

/// A label padded to the seven-character cell width.
pub open spec fn pad7(l: Seq<char>) -> Seq<char> {
    if l.len() >= 7 {
        l
    } else {
        l + Seq::new((7 - l.len()) as nat, |i: int| ' ')
    }
}

/// The top border's cells from `col` on: a corner, then a blocked or open
/// cell top.
pub open spec fn top_border_cols(cells: Seq<CellModel>, col: int) -> Seq<char>
    decreases 5 - col,
{
    if col < 0 || col >= 5 {
        Seq::empty()
    } else {
        (if col == 0 {
            "┌"@
        } else {
            "┬"@
        }) + (if cell_black(cells, col) {
            "███████"@
        } else {
            "───────"@
        }) + top_border_cols(cells, col + 1)
    }
}

/// The grid's top border.
pub open spec fn top_border(cells: Seq<CellModel>) -> Seq<char> {
    top_border_cols(cells, 0) + "┐"@
}

/// A middle border's cells from `col` on: blocked only where the cell and
/// the one above are both black.
pub open spec fn middle_border_cols(cells: Seq<CellModel>, row: int, col: int) -> Seq<char>
    decreases 5 - col,
{
    if col < 0 || col >= 5 {
        Seq::empty()
    } else {
        (if col == 0 {
            "├"@
        } else {
            "┼"@
        }) + (if cell_black(cells, row * 5 + col) && cell_black(cells, (row - 1) * 5 + col) {
            "███████"@
        } else {
            "───────"@
        }) + middle_border_cols(cells, row, col + 1)
    }
}

/// The border above row `row` (for rows after the first).
pub open spec fn middle_border(cells: Seq<CellModel>, row: int) -> Seq<char> {
    middle_border_cols(cells, row, 0) + "┤"@
}

/// The grid's bottom border.
pub open spec fn bottom_border_cols(col: int) -> Seq<char>
    decreases 5 - col,
{
    if col < 0 || col >= 5 {
        Seq::empty()
    } else {
        (if col == 0 {
            "└"@
        } else {
            "┴"@
        }) + "───────"@ + bottom_border_cols(col + 1)
    }
}

pub open spec fn bottom_border() -> Seq<char> {
    bottom_border_cols(0) + "┘"@
}

/// A content row's cells from `col` on: each open cell shows its label
/// padded to the cell width, black cells are filled.
pub open spec fn cell_row_cols(cells: Seq<CellModel>, row: int, col: int) -> Seq<char>
    decreases 5 - col,
{
    if col < 0 || col >= 5 {
        Seq::empty()
    } else {
        "│"@ + (match cells[row * 5 + col].answer {
            Some(_) => match cells[row * 5 + col].label {
                Some(l) => pad7(l),
                None => "       "@,
            },
            None => "███████"@,
        }) + cell_row_cols(cells, row, col + 1)
    }
}

pub open spec fn cell_row(cells: Seq<CellModel>, row: int) -> Seq<char> {
    cell_row_cols(cells, row, 0) + "│"@
}

/// A spacing row's cells from `col` on.
pub open spec fn empty_row_cols(cells: Seq<CellModel>, row: int, col: int) -> Seq<char>
    decreases 5 - col,
{
    if col < 0 || col >= 5 {
        Seq::empty()
    } else {
        "│"@ + (if cell_black(cells, row * 5 + col) {
            "███████"@
        } else {
            "       "@
        }) + empty_row_cols(cells, row, col + 1)
    }
}

pub open spec fn empty_row(cells: Seq<CellModel>, row: int) -> Seq<char> {
    empty_row_cols(cells, row, 0) + "│"@
}

/// The grid's rows from `row` on: each with its border above, its content
/// row and its spacing row.
pub open spec fn grid_rows_text(cells: Seq<CellModel>, row: int) -> Seq<char>
    decreases 5 - row,
{
    if row < 0 || row >= 5 {
        Seq::empty()
    } else {
        (if row == 0 {
            top_border(cells)
        } else {
            middle_border(cells, row)
        }) + "\n"@ + cell_row(cells, row) + "\n"@ + empty_row(cells, row) + "\n"@
            + grid_rows_text(cells, row + 1)
    }
}

/// The whole text-art grid for a 5x5 puzzle.
pub open spec fn ascii_grid(cells: Seq<CellModel>) -> Seq<char> {
    grid_rows_text(cells, 0) + bottom_border() + "\n"@
}

impl Puzzle {
    /// Whether the cell at `idx` is a black square.
    fn is_black(&self, idx: usize) -> (r: bool)
        requires
            idx < self.cells@.len(),
        ensures
            r == cell_black(self@.cells, idx as int),
    {
        proof {
            assert(self@.cells[idx as int] == self.cells@[idx as int]@);
        }
        self.cells[idx].answer.is_none()
    }

    /// The grid's top border.
    #[verifier::loop_isolation(false)]
    pub fn render_top_border(&self) -> (r: String)
        requires
            self@.cells.len() == 25,
        ensures
            r@ == top_border(self@.cells),
    {
        let ghost cells = self@.cells;
        let mut line = String::new();
        let mut col: usize = 0;
        while col < 5
            invariant
                col <= 5,
                cells.len() == 25,
                cells == self@.cells,
                top_border_cols(cells, 0) == line@ + top_border_cols(cells, col as int),
            decreases 5 - col,
        {
            let ghost before = line@;
            if col == 0 {
                line.append("┌");
            } else {
                line.append("┬");
            }
            if self.is_black(col) {
                line.append("███████");
            } else {
                line.append("───────");
            }
            proof {
                assert(top_border_cols(cells, 0) =~= line@ + top_border_cols(
                    cells,
                    col + 1 as int,
                ));
            }
            col += 1;
        }
        proof {
            assert(top_border_cols(cells, 5) =~= Seq::<char>::empty());
        }
        line.append("┐");
        proof {
            assert(line@ =~= top_border(cells));
        }
        line
    }

    /// The border above row `row`.
    #[verifier::loop_isolation(false)]
    pub fn render_middle_border(&self, row: usize) -> (r: String)
        requires
            self@.cells.len() == 25,
            1 <= row < 5,
        ensures
            r@ == middle_border(self@.cells, row as int),
    {
        let ghost cells = self@.cells;
        let mut line = String::new();
        let mut col: usize = 0;
        while col < 5
            invariant
                col <= 5,
                1 <= row < 5,
                cells.len() == 25,
                cells == self@.cells,
                middle_border_cols(cells, row as int, 0) == line@ + middle_border_cols(
                    cells,
                    row as int,
                    col as int,
                ),
            decreases 5 - col,
        {
            if col == 0 {
                line.append("├");
            } else {
                line.append("┼");
            }
            if self.is_black(row * 5 + col) && self.is_black((row - 1) * 5 + col) {
                line.append("███████");
            } else {
                line.append("───────");
            }
            proof {
                assert(middle_border_cols(cells, row as int, 0) =~= line@ + middle_border_cols(
                    cells,
                    row as int,
                    col + 1 as int,
                ));
            }
            col += 1;
        }
        proof {
            assert(middle_border_cols(cells, row as int, 5) =~= Seq::<char>::empty());
        }
        line.append("┤");
        proof {
            assert(line@ =~= middle_border(cells, row as int));
        }
        line
    }

    /// The grid's bottom border.
    #[verifier::loop_isolation(false)]
    pub fn render_bottom_border(&self) -> (r: String)
        ensures
            r@ == bottom_border(),
    {
        let mut line = String::new();
        let mut col: usize = 0;
        while col < 5
            invariant
                col <= 5,
                bottom_border_cols(0) == line@ + bottom_border_cols(col as int),
            decreases 5 - col,
        {
            if col == 0 {
                line.append("└");
            } else {
                line.append("┴");
            }
            line.append("───────");
            proof {
                assert(bottom_border_cols(0) =~= line@ + bottom_border_cols(col + 1 as int));
            }
            col += 1;
        }
        proof {
            assert(bottom_border_cols(5) =~= Seq::<char>::empty());
        }
        line.append("┘");
        proof {
            assert(line@ =~= bottom_border());
        }
        line
    }

    /// The content row of `row`: labels in open cells, filled black cells.
    #[verifier::loop_isolation(false)]
    pub fn render_cell_row(&self, row: usize) -> (r: String)
        requires
            self@.cells.len() == 25,
            row < 5,
        ensures
            r@ == cell_row(self@.cells, row as int),
    {
        let ghost cells = self@.cells;
        let mut line = String::new();
        let mut col: usize = 0;
        while col < 5
            invariant
                col <= 5,
                row < 5,
                cells.len() == 25,
                cells == self@.cells,
                cell_row_cols(cells, row as int, 0) == line@ + cell_row_cols(
                    cells,
                    row as int,
                    col as int,
                ),
            decreases 5 - col,
        {
            line.append("│");
            let idx = row * 5 + col;
            proof {
                assert(cells[idx as int] == self.cells@[idx as int]@);
            }
            let cell = &self.cells[idx];
            if cell.answer.is_some() {
                match &cell.label {
                    Some(label) => {
                        let w = label.as_str().unicode_len();
                        line.append(label.as_str());
                        if w < 7 {
                            let pad = spaces(7 - w);
                            line.append(pad.as_str());
                        }
                        proof {
                            assert(cells[idx as int].label matches Some(l) && pad7(l)
                                == pad7(label@));
                        }
                    },
                    None => {
                        line.append("       ");
                    },
                }
            } else {
                line.append("███████");
            }
            proof {
                assert(cell_row_cols(cells, row as int, 0) =~= line@ + cell_row_cols(
                    cells,
                    row as int,
                    col + 1 as int,
                ));
            }
            col += 1;
        }
        proof {
            assert(cell_row_cols(cells, row as int, 5) =~= Seq::<char>::empty());
        }
        line.append("│");
        proof {
            assert(line@ =~= cell_row(cells, row as int));
        }
        line
    }

    /// The spacing row under `row`'s content.
    #[verifier::loop_isolation(false)]
    pub fn render_empty_row(&self, row: usize) -> (r: String)
        requires
            self@.cells.len() == 25,
            row < 5,
        ensures
            r@ == empty_row(self@.cells, row as int),
    {
        let ghost cells = self@.cells;
        let mut line = String::new();
        let mut col: usize = 0;
        while col < 5
            invariant
                col <= 5,
                row < 5,
                cells.len() == 25,
                cells == self@.cells,
                empty_row_cols(cells, row as int, 0) == line@ + empty_row_cols(
                    cells,
                    row as int,
                    col as int,
                ),
            decreases 5 - col,
        {
            line.append("│");
            if self.is_black(row * 5 + col) {
                line.append("███████");
            } else {
                line.append("       ");
            }
            proof {
                assert(empty_row_cols(cells, row as int, 0) =~= line@ + empty_row_cols(
                    cells,
                    row as int,
                    col + 1 as int,
                ));
            }
            col += 1;
        }
        proof {
            assert(empty_row_cols(cells, row as int, 5) =~= Seq::<char>::empty());
        }
        line.append("│");
        proof {
            assert(line@ =~= empty_row(cells, row as int));
        }
        line
    }

    /// The whole grid as text art.  Exactly the 5x5 puzzles can be drawn;
    /// anything else is rejected.
    #[verifier::loop_isolation(false)]
    pub fn render_ascii(&self) -> (r: Result<String, Error>)
        ensures
            self@.cells.len() != 25 ==> r == Result::<String, Error>::Err(Error::NotFiveByFive),
            self@.cells.len() == 25 ==> (r matches Ok(s) && s@ == ascii_grid(self@.cells)),
    {
        let ghost cells = self@.cells;
        proof {
            assert(cells.len() == self.cells@.len());
        }
        if self.cells.len() != 25 {
            return Err(Error::NotFiveByFive);
        }
        let mut result = String::new();
        let mut row: usize = 0;
        while row < 5
            invariant
                row <= 5,
                cells.len() == 25,
                cells == self@.cells,
                grid_rows_text(cells, 0) == result@ + grid_rows_text(cells, row as int),
            decreases 5 - row,
        {
            let border = if row == 0 {
                self.render_top_border()
            } else {
                self.render_middle_border(row)
            };
            result.append(border.as_str());
            result.append("\n");
            let content = self.render_cell_row(row);
            result.append(content.as_str());
            result.append("\n");
            let spacing = self.render_empty_row(row);
            result.append(spacing.as_str());
            result.append("\n");
            proof {
                assert(grid_rows_text(cells, 0) =~= result@ + grid_rows_text(
                    cells,
                    row + 1 as int,
                ));
            }
            row += 1;
        }
        proof {
            assert(grid_rows_text(cells, 5) =~= Seq::<char>::empty());
        }
        let bottom = self.render_bottom_border();
        result.append(bottom.as_str());
        result.append("\n");
        proof {
            assert(result@ =~= ascii_grid(cells));
        }
        Ok(result)
    }
}

} // verus!
