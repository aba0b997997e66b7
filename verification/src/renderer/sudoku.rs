//! Rendering a Sudoku board as box-drawing text.
//!
//! The board itself comes from an outside generator and is random; the
//! rendering below is specified exactly, so whatever board arrives, the
//! printed grid is pinned down by `sudoku_commands_spec`.
use vstd::prelude::*;

use crate::printer::{Command, CommandModel, JustifyMode, commands_view};
use crate::renderer::RenderError;

verus! {

/// A 9x9 Sudoku board in row-major order; 0 is an empty cell.
pub struct SudokuBoard {
    cells: Vec<u8>,
}

impl View for SudokuBoard {
    type V = Seq<u8>;

    closed spec fn view(&self) -> Seq<u8> {
        self.cells@
    }
}

/// A well-formed board: 81 cells, each a digit or empty.
pub open spec fn board_wf(b: Seq<u8>) -> bool {
    b.len() == 81 && (forall|i: int| 0 <= i < 81 ==> b[i] <= 9)
}

impl SudokuBoard {
    /// Wrap 81 row-major cell values.
    pub fn new(cells: Vec<u8>) -> (r: Result<SudokuBoard, RenderError>)
        ensures
            r matches Ok(b) ==> b@ == cells@ && board_wf(b@),
            r is Err <==> !board_wf(cells@),
    {
        if cells.len() != 81 {
            return Err(
                RenderError::Expansion(String::from_str("a Sudoku board must have 81 cells")),
            );
        }
        let mut i: usize = 0;
        while i < 81
            invariant
                i <= 81,
                cells@.len() == 81,
                forall|q: int| 0 <= q < i ==> cells@[q] <= 9,
            decreases 81 - i,
        {
            if cells[i] > 9 {
                return Err(
                    RenderError::Expansion(String::from_str("a Sudoku cell must be 0 through 9")),
                );
            }
            i += 1;
        }
        Ok(SudokuBoard { cells })
    }

    /// Whether this board is well formed.
    pub open spec fn wf(&self) -> bool {
        board_wf(self@)
    }

    /// The digit at the given row and column; 0 when empty.
    pub fn get(&self, row: usize, col: usize) -> (n: u8)
        requires
            self.wf(),
            row < 9,
            col < 9,
        ensures
            n == self@[row * 9 + col],
            n <= 9,
    {
        self.cells[row * 9 + col]
    }
}

/// Relies on rustoku_lib::generate_board: a generated puzzle's cells are
/// digits 1 through 9 or 0 for an empty cell; generation is randomized and
/// may fail, in which case this returns the generator's message.
#[verifier::external_body]
fn generate_board_cells(num_clues: usize) -> (r: Result<Vec<u8>, String>)
    ensures
        r matches Ok(cells) ==> board_wf(cells@),
{
    match rustoku_lib::generate_board(num_clues) {
        Ok(board) => {
            let mut cells = Vec::with_capacity(81);
            for row in 0..9 {
                for col in 0..9 {
                    cells.push(board.get(row, col));
                }
            }
            Ok(cells)
        },
        Err(e) => Err(e.to_string()),
    }
}

/// How a cell's digit prints: the digit between spaces, or blank.
pub open spec fn cell_text(n: u8) -> Seq<char> {
    if n == 1 {
        " 1 "@
    } else if n == 2 {
        " 2 "@
    } else if n == 3 {
        " 3 "@
    } else if n == 4 {
        " 4 "@
    } else if n == 5 {
        " 5 "@
    } else if n == 6 {
        " 6 "@
    } else if n == 7 {
        " 7 "@
    } else if n == 8 {
        " 8 "@
    } else if n == 9 {
        " 9 "@
    } else {
        "   "@
    }
}

/// The vertical separator after a column: doubled on box boundaries.
pub open spec fn col_sep(col: int) -> Seq<char> {
    if col % 3 == 2 && col < 8 {
        "║"@
    } else {
        "│"@
    }
}

/// The writes for the cells of one row, from `col` on.
pub open spec fn data_cells(b: Seq<u8>, row: int, col: int) -> Seq<CommandModel>
    decreases 9 - col,
{
    if col < 0 || col >= 9 {
        Seq::empty()
    } else {
        seq![
            CommandModel::Write(cell_text(b[row * 9 + col])),
            CommandModel::Write(col_sep(col)),
        ] + data_cells(b, row, col + 1)
    }
}

/// One row of digits, between its left edge and its newline.
pub open spec fn data_row(b: Seq<u8>, row: int) -> Seq<CommandModel> {
    seq![CommandModel::Write("|"@)] + data_cells(b, row, 0) + seq![CommandModel::Write("\n"@)]
}

/// The nine segments of a horizontal rule, with a junction after each of
/// the first eight: doubled junctions on box boundaries.
pub open spec fn rule_segments(
    seg: Seq<char>,
    thin: Seq<char>,
    thick: Seq<char>,
    i: int,
) -> Seq<CommandModel>
    decreases 9 - i,
{
    if i < 0 || i >= 9 {
        Seq::empty()
    } else {
        seq![CommandModel::Write(seg)] + (if i < 8 {
            seq![
                CommandModel::Write(
                    if i % 3 == 2 {
                        thick
                    } else {
                        thin
                    },
                ),
            ]
        } else {
            Seq::empty()
        }) + rule_segments(seg, thin, thick, i + 1)
    }
}

/// A full horizontal rule: its left corner, nine segments with junctions,
/// and its right corner followed by a newline.
pub open spec fn rule_line(
    first: Seq<char>,
    seg: Seq<char>,
    thin: Seq<char>,
    thick: Seq<char>,
    last: Seq<char>,
) -> Seq<CommandModel> {
    seq![CommandModel::Write(first)] + rule_segments(seg, thin, thick, 0) + seq![
        CommandModel::Write(last + "\n"@),
    ]
}

/// The separator under a row: doubled lines under box boundaries.
pub open spec fn sep_line(row: int) -> Seq<CommandModel> {
    if row % 3 == 2 {
        rule_line("╞"@, "═══"@, "╪"@, "╬"@, "╡"@)
    } else {
        rule_line("├"@, "───"@, "┼"@, "╫"@, "┤"@)
    }
}

/// All nine data rows from `row` on, with a separator under each of the
/// first eight.
pub open spec fn grid_rows(b: Seq<u8>, row: int) -> Seq<CommandModel>
    decreases 9 - row,
{
    if row < 0 || row >= 9 {
        Seq::empty()
    } else {
        data_row(b, row) + (if row < 8 {
            sep_line(row)
        } else {
            Seq::empty()
        }) + grid_rows(b, row + 1)
    }
}

/// The whole rendering of a board: centered, a top rule, the grid, a
/// bottom rule, then alignment and size restored.
pub open spec fn sudoku_commands_spec(b: Seq<u8>) -> Seq<CommandModel> {
    seq![CommandModel::ResetSize, CommandModel::Justify(JustifyMode::Center)] + rule_line(
        "┌"@,
        "───"@,
        "┬"@,
        "╥"@,
        "┐"@,
    ) + grid_rows(b, 0) + rule_line("└"@, "───"@, "┴"@, "╨"@, "┘"@) + seq![
        CommandModel::Justify(JustifyMode::Left),
        CommandModel::ResetSize,
    ]
}

/// Append one command.
pub(crate) fn push_cmd(out: &mut Vec<Command>, c: Command)
    ensures
        commands_view(final(out)@) == commands_view(old(out)@) + seq![c@],
{
    let ghost prevs = out@;
    let ghost cv = c@;
    out.push(c);
    proof {
        assert(commands_view(prevs).len() == prevs.len());
        assert(commands_view(out@) =~= commands_view(prevs) + seq![cv]);
    }
}

/// Append a write of `s`.
fn push_write(out: &mut Vec<Command>, s: &str)
    ensures
        commands_view(final(out)@) == commands_view(old(out)@) + seq![CommandModel::Write(s@)],
{
    push_cmd(out, Command::Write(s.to_owned()));
}

/// Append a full horizontal rule.
#[verifier::loop_isolation(false)]
fn push_rule_line(out: &mut Vec<Command>, first: &str, seg: &str, thin: &str, thick: &str, last: &str)
    ensures
        commands_view(final(out)@) == commands_view(old(out)@) + rule_line(
            first@,
            seg@,
            thin@,
            thick@,
            last@,
        ),
{
    push_write(out, first);
    let ghost base = commands_view(out@);
    let mut i: usize = 0;
    while i < 9
        invariant
            i <= 9,
            base == commands_view(old(out)@) + seq![CommandModel::Write(first@)],
            base + rule_segments(seg@, thin@, thick@, 0) == commands_view(out@) + rule_segments(
                seg@,
                thin@,
                thick@,
                i as int,
            ),
        decreases 9 - i,
    {
        let ghost before = commands_view(out@);
        push_write(out, seg);
        if i < 8 {
            if i % 3 == 2 {
                push_write(out, thick);
            } else {
                push_write(out, thin);
            }
            proof {
                let mid = if i % 3 == 2 {
                    thick@
                } else {
                    thin@
                };
                assert((before + seq![CommandModel::Write(seg@)]) + seq![CommandModel::Write(mid)]
                    =~= before + (seq![CommandModel::Write(seg@)] + seq![
                    CommandModel::Write(mid),
                ]));
                assert(rule_segments(seg@, thin@, thick@, i as int) =~= (seq![
                    CommandModel::Write(seg@),
                ] + seq![CommandModel::Write(mid)]) + rule_segments(
                    seg@,
                    thin@,
                    thick@,
                    i + 1 as int,
                ));
                assert(before + ((seq![CommandModel::Write(seg@)] + seq![
                    CommandModel::Write(mid),
                ]) + rule_segments(seg@, thin@, thick@, i + 1 as int)) =~= (before + (seq![
                    CommandModel::Write(seg@),
                ] + seq![CommandModel::Write(mid)])) + rule_segments(
                    seg@,
                    thin@,
                    thick@,
                    i + 1 as int,
                ));
            }
        } else {
            proof {
                assert(rule_segments(seg@, thin@, thick@, i as int) =~= seq![
                    CommandModel::Write(seg@),
                ] + rule_segments(seg@, thin@, thick@, i + 1 as int));
                assert(before + (seq![CommandModel::Write(seg@)] + rule_segments(
                    seg@,
                    thin@,
                    thick@,
                    i + 1 as int,
                )) =~= (before + seq![CommandModel::Write(seg@)]) + rule_segments(
                    seg@,
                    thin@,
                    thick@,
                    i + 1 as int,
                ));
            }
        }
        i += 1;
    }
    proof {
        assert(rule_segments(seg@, thin@, thick@, 9) =~= Seq::<CommandModel>::empty());
        assert(commands_view(out@) + Seq::<CommandModel>::empty() =~= commands_view(out@));
    }
    let mut corner = last.to_owned();
    corner.append("\n");
    let ghost before_corner = commands_view(out@);
    push_cmd(out, Command::Write(corner));
    proof {
        assert(commands_view(out@) =~= before_corner + seq![CommandModel::Write(last@ + "\n"@)]);
        assert((commands_view(old(out)@) + seq![CommandModel::Write(first@)] + rule_segments(
            seg@,
            thin@,
            thick@,
            0,
        )) + seq![CommandModel::Write(last@ + "\n"@)] =~= commands_view(old(out)@) + rule_line(
            first@,
            seg@,
            thin@,
            thick@,
            last@,
        ));
    }
}

/// The text for one cell's digit.
fn cell_str(n: u8) -> (r: &'static str)
    ensures
        r@ == cell_text(n),
{
    if n == 1 {
        " 1 "
    } else if n == 2 {
        " 2 "
    } else if n == 3 {
        " 3 "
    } else if n == 4 {
        " 4 "
    } else if n == 5 {
        " 5 "
    } else if n == 6 {
        " 6 "
    } else if n == 7 {
        " 7 "
    } else if n == 8 {
        " 8 "
    } else if n == 9 {
        " 9 "
    } else {
        "   "
    }
}

/// Append one row of digits.
#[verifier::loop_isolation(false)]
fn push_data_row(out: &mut Vec<Command>, board: &SudokuBoard, row: usize)
    requires
        board.wf(),
        row < 9,
    ensures
        commands_view(final(out)@) == commands_view(old(out)@) + data_row(board@, row as int),
{
    push_write(out, "|");
    let ghost base = commands_view(out@);
    let mut col: usize = 0;
    while col < 9
        invariant
            col <= 9,
            row < 9,
            board.wf(),
            base == commands_view(old(out)@) + seq![CommandModel::Write("|"@)],
            base + data_cells(board@, row as int, 0) == commands_view(out@) + data_cells(
                board@,
                row as int,
                col as int,
            ),
        decreases 9 - col,
    {
        let ghost before = commands_view(out@);
        let n = board.get(row, col);
        push_write(out, cell_str(n));
        if col % 3 == 2 && col < 8 {
            push_write(out, "║");
        } else {
            push_write(out, "│");
        }
        proof {
            let pair = seq![
                CommandModel::Write(cell_text(board@[row * 9 + col])),
                CommandModel::Write(col_sep(col as int)),
            ];
            assert((before + seq![CommandModel::Write(cell_text(board@[row * 9 + col]))]) + seq![
                CommandModel::Write(col_sep(col as int)),
            ] =~= before + pair);
            assert(before + (pair + data_cells(board@, row as int, col + 1 as int)) =~= (before
                + pair) + data_cells(board@, row as int, col + 1 as int));
        }
        col += 1;
    }
    proof {
        assert(data_cells(board@, row as int, 9) =~= Seq::<CommandModel>::empty());
        assert(commands_view(out@) + Seq::<CommandModel>::empty() =~= commands_view(out@));
    }
    let ghost before_nl = commands_view(out@);
    push_write(out, "\n");
    proof {
        assert((commands_view(old(out)@) + seq![CommandModel::Write("|"@)] + data_cells(
            board@,
            row as int,
            0,
        )) + seq![CommandModel::Write("\n"@)] =~= commands_view(old(out)@) + data_row(
            board@,
            row as int,
        ));
    }
}

/// Render a board as primitive commands: exactly the grid the
/// specification describes, centered on the page.
#[verifier::loop_isolation(false)]
pub fn sudoku_commands(board: &SudokuBoard) -> (r: Vec<Command>)
    requires
        board.wf(),
    ensures
        commands_view(r@) == sudoku_commands_spec(board@),
{
    let mut out: Vec<Command> = Vec::new();
    push_cmd(&mut out, Command::ResetSize);
    push_cmd(&mut out, Command::Justify(JustifyMode::Center));
    let ghost pre = commands_view(out@);
    proof {
        assert(pre =~= seq![CommandModel::ResetSize, CommandModel::Justify(JustifyMode::Center)]);
    }
    push_rule_line(&mut out, "┌", "───", "┬", "╥", "┐");
    let ghost base = commands_view(out@);
    let mut row: usize = 0;
    while row < 9
        invariant
            row <= 9,
            board.wf(),
            base == pre + rule_line("┌"@, "───"@, "┬"@, "╥"@, "┐"@),
            base + grid_rows(board@, 0) == commands_view(out@) + grid_rows(board@, row as int),
        decreases 9 - row,
    {
        let ghost before = commands_view(out@);
        push_data_row(&mut out, board, row);
        if row < 8 {
            if row % 3 == 2 {
                push_rule_line(&mut out, "╞", "═══", "╪", "╬", "╡");
            } else {
                push_rule_line(&mut out, "├", "───", "┼", "╫", "┤");
            }
            proof {
                assert((before + data_row(board@, row as int)) + sep_line(row as int) =~= before + (
                data_row(board@, row as int) + sep_line(row as int)));
                assert(grid_rows(board@, row as int) =~= (data_row(board@, row as int) + sep_line(
                    row as int,
                )) + grid_rows(board@, row + 1 as int));
                assert(before + ((data_row(board@, row as int) + sep_line(row as int)) + grid_rows(
                    board@,
                    row + 1 as int,
                )) =~= (before + (data_row(board@, row as int) + sep_line(row as int)))
                    + grid_rows(board@, row + 1 as int));
            }
        } else {
            proof {
                assert(grid_rows(board@, row as int) =~= data_row(board@, row as int) + grid_rows(
                    board@,
                    row + 1 as int,
                ));
                assert(before + (data_row(board@, row as int) + grid_rows(board@, row + 1 as int))
                    =~= (before + data_row(board@, row as int)) + grid_rows(
                    board@,
                    row + 1 as int,
                ));
            }
        }
        row += 1;
    }
    proof {
        assert(grid_rows(board@, 9) =~= Seq::<CommandModel>::empty());
        assert(commands_view(out@) + Seq::<CommandModel>::empty() =~= commands_view(out@));
    }
    let ghost with_grid = commands_view(out@);
    push_rule_line(&mut out, "└", "───", "┴", "╨", "┘");
    push_cmd(&mut out, Command::Justify(JustifyMode::Left));
    push_cmd(&mut out, Command::ResetSize);
    proof {
        assert(((with_grid + rule_line("└"@, "───"@, "┴"@, "╨"@, "┘"@)) + seq![
            CommandModel::Justify(JustifyMode::Left),
        ]) + seq![CommandModel::ResetSize] =~= with_grid + rule_line(
            "└"@,
            "───"@,
            "┴"@,
            "╨"@,
            "┘"@,
        ) + seq![CommandModel::Justify(JustifyMode::Left), CommandModel::ResetSize]);
        assert(commands_view(out@) =~= sudoku_commands_spec(board@));
    }
    out
}

/// Generate a random Sudoku and render it; a generator failure aborts the
/// expansion with its message.
pub fn make_sudoku() -> (r: Result<Vec<Command>, RenderError>)
    ensures
        r matches Ok(cmds) ==> exists|b: Seq<u8>|
            board_wf(b) && commands_view(cmds@) == sudoku_commands_spec(b),
{
    match generate_board_cells(40) {
        Ok(cells) => {
            match SudokuBoard::new(cells) {
                Ok(board) => {
                    let cmds = sudoku_commands(&board);
                    proof {
                        assert(board_wf(board@) && commands_view(cmds@) == sudoku_commands_spec(
                            board@,
                        ));
                    }
                    Ok(cmds)
                },
                Err(e) => Err(e),
            }
        },
        Err(message) => Err(RenderError::Expansion(message)),
    }
}

} // verus!
