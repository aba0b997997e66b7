//! The renderer: splicing, todo wrapping, and the puzzle generators.
use escpos2mqtt::mini_crossword::{
    Cell, Clue, ClueList, ClueText, Crossword, Date, Direction, Error, Puzzle,
};
use escpos2mqtt::printer;
use escpos2mqtt::printer::JustifyMode;
use escpos2mqtt::profile::Profile;
use escpos2mqtt::program::{Command, Program};
use escpos2mqtt::renderer::mini_crossword::{format_list, make_mini_crossword};
use escpos2mqtt::renderer::sudoku::{make_sudoku, sudoku_commands, SudokuBoard};
use escpos2mqtt::renderer::{expansion_requests, render, ExpandRequest, RenderError};

fn no_profile() -> Profile {
    Profile { name: "default".to_string(), font_columns: None, dpi: None, width_px: None }
}

#[test]
fn render_keeps_expansion_in_place() {
    let program = Program {
        commands: vec![
            Command::Raw(printer::Command::Write("a".to_string())),
            Command::Sudoku,
            Command::Raw(printer::Command::Write("b".to_string())),
        ],
    };
    let requests = expansion_requests(&program);
    assert_eq!(requests, vec![ExpandRequest::Sudoku]);

    let expansion = printer::Program(vec![
        printer::Command::Write("X".to_string()),
        printer::Command::Cut,
    ]);
    let rendered = render(&program, &no_profile(), &vec![Ok(expansion)]).unwrap();
    assert_eq!(
        rendered.0,
        vec![
            printer::Command::Write("a".to_string()),
            printer::Command::Write("X".to_string()),
            printer::Command::Cut,
            printer::Command::Write("b".to_string()),
        ]
    );
}

#[test]
fn render_scenario_write_feed_cut() {
    let script = "write \"Hi\"\nfeed 2\ncut";
    let (leftover, program) = Program::parse(script).unwrap();
    assert_eq!(leftover, "");
    assert_eq!(program.commands.len(), 3);
    assert!(expansion_requests(&program).is_empty());

    let rendered = render(&program, &no_profile(), &vec![]).unwrap();
    assert_eq!(
        rendered.0,
        vec![
            printer::Command::Write("Hi".to_string()),
            printer::Command::Feed(2),
            printer::Command::Cut,
        ]
    );

    // exactly one device job, carrying those three primitives in order
    let mut queue = escpos2mqtt::printer::JobQueue::new();
    queue.submit(escpos2mqtt::printer::Job::Print(rendered));
    let job = queue.take_next().unwrap();
    match job {
        escpos2mqtt::printer::Job::Print(p) => assert_eq!(p.0.len(), 3),
        other => panic!("expected a print job, got {other:?}"),
    }
    assert!(queue.take_next().is_none());
}

#[test]
fn render_aborts_on_failed_expansion() {
    let program = Program { commands: vec![Command::Sudoku] };
    let result = render(&program, &no_profile(), &vec![Err("generator offline".to_string())]);
    assert_eq!(result, Err(RenderError::Expansion("generator offline".to_string())));
}

#[test]
fn render_wraps_todo_items() {
    let program = Program { commands: vec![Command::ToDo("Buy groceries".to_string())] };
    let rendered = render(&program, &no_profile(), &vec![]).unwrap();
    assert_eq!(
        rendered.0,
        vec![
            printer::Command::Justify(JustifyMode::Left),
            printer::Command::Write("- [ ] Buy groceries\n".to_string()),
        ]
    );
}

#[test]
fn render_wraps_long_todo_with_indent() {
    let program = Program {
        commands: vec![
            Command::ToDo("Pick up the huge box of thermal paper rolls from the store".to_string()),
        ],
    };
    let rendered = render(&program, &no_profile(), &vec![]).unwrap();
    assert!(rendered.0.len() > 2);
    match &rendered.0[1] {
        printer::Command::Write(first) => assert!(first.starts_with("- [ ] ")),
        other => panic!("expected a write, got {other:?}"),
    }
    match &rendered.0[2] {
        printer::Command::Write(second) => {
            assert!(second.starts_with("      "));
            assert!(!second.starts_with("       "));
        }
        other => panic!("expected a write, got {other:?}"),
    }
}

#[test]
fn sudoku_board_validates_input() {
    assert!(SudokuBoard::new(vec![0; 80]).is_err());
    assert!(SudokuBoard::new(vec![10; 81]).is_err());
    assert!(SudokuBoard::new(vec![0; 81]).is_ok());
}

#[test]
fn sudoku_grid_layout() {
    let board = SudokuBoard::new(vec![0; 81]).unwrap();
    let cmds = sudoku_commands(&board);
    assert_eq!(cmds.len(), 374);
    assert_eq!(cmds[0], printer::Command::ResetSize);
    assert_eq!(cmds[1], printer::Command::Justify(JustifyMode::Center));
    assert_eq!(cmds[2], printer::Command::Write("┌".to_string()));
    assert_eq!(cmds[3], printer::Command::Write("───".to_string()));
    assert_eq!(cmds[4], printer::Command::Write("┬".to_string()));
    assert_eq!(cmds[cmds.len() - 2], printer::Command::Justify(JustifyMode::Left));
    assert_eq!(cmds[cmds.len() - 1], printer::Command::ResetSize);
    // an empty board prints blank cells
    assert_eq!(cmds[22], printer::Command::Write("   ".to_string()));

    let mut filled = vec![0u8; 81];
    filled[0] = 5;
    let board = SudokuBoard::new(filled).unwrap();
    let cmds = sudoku_commands(&board);
    assert_eq!(cmds[21], printer::Command::Write("|".to_string()));
    assert_eq!(cmds[22], printer::Command::Write(" 5 ".to_string()));
}

#[test]
fn generated_sudoku_renders() {
    let cmds = make_sudoku().expect("generation should succeed");
    assert_eq!(cmds.len(), 374);
    assert_eq!(cmds[0], printer::Command::ResetSize);
    assert_eq!(cmds[1], printer::Command::Justify(JustifyMode::Center));
}

#[test]
fn format_list_joins_names() {
    let one = vec!["Alice".to_string()];
    assert_eq!(format_list(&one), "Alice");
    let two = vec!["Alice".to_string(), "Bob".to_string()];
    assert_eq!(format_list(&two), "Alice and Bob");
    let three = vec!["Alice".to_string(), "Bob".to_string(), "Carol".to_string()];
    assert_eq!(format_list(&three), "Alice, Bob, and Carol");
}

fn open_cell(label: Option<&str>) -> Cell {
    Cell { answer: Some("A".to_string()), label: label.map(|l| l.to_string()) }
}

fn black_cell() -> Cell {
    Cell { answer: None, label: None }
}

fn sample_puzzle() -> Puzzle {
    let mut cells = Vec::new();
    for i in 0..25 {
        if i == 24 {
            cells.push(black_cell());
        } else if i == 0 {
            cells.push(open_cell(Some("1")));
        } else {
            cells.push(open_cell(None));
        }
    }
    Puzzle {
        cells,
        clue_lists: vec![ClueList { clues: vec![0], name: Direction::Across }],
        clues: vec![Clue {
            label: "1".to_string(),
            text: vec![ClueText {
                plain: "This clue text is long enough to wrap onto a second line".to_string(),
            }],
        }],
    }
}

#[test]
fn ascii_grid_shape() {
    let puzzle = sample_puzzle();
    let art = puzzle.render_ascii().unwrap();
    let lines: Vec<&str> = art.lines().collect();
    assert_eq!(lines.len(), 16);
    assert_eq!(lines[0], "┌───────┬───────┬───────┬───────┬───────┐");
    assert!(lines[1].starts_with("│1      │"));
    assert!(lines[15].starts_with("└───────┴"));
    assert!(art.contains("███████"));
}

#[test]
fn ascii_grid_needs_five_by_five() {
    let puzzle = Puzzle { cells: vec![black_cell()], clue_lists: vec![], clues: vec![] };
    assert_eq!(puzzle.render_ascii(), Err(Error::NotFiveByFive));
}

#[test]
fn crossword_commands_structure() {
    let puzzle = sample_puzzle();
    assert!(puzzle.references_valid());
    let cw = Crossword {
        image: vec![1, 2, 3],
        puzzle,
        publication_date: Date { year: 2024, month: 7, day: 15 },
        constructors: vec!["Alice".to_string(), "Bob".to_string()],
    };
    assert!(cw.publication_date.is_valid());
    let cmds = make_mini_crossword(&cw, 512);

    assert_eq!(cmds[0], printer::Command::ResetSize);
    assert_eq!(cmds[1], printer::Command::Write("Monday, July 15, 2024\n".to_string()));
    assert_eq!(cmds[7], printer::Command::BitImageFromBytesWithWidth(vec![1, 2, 3], 512));
    assert!(cmds.contains(&printer::Command::Write("Across:\n".to_string())));
    assert!(cmds.contains(&printer::Command::Write(
        "1: This clue text is long enough to wrap\n".to_string()
    )));
    assert!(cmds.contains(&printer::Command::Write("   onto a second line\n".to_string())));
    assert!(cmds.contains(&printer::Command::Write("by Alice and Bob\n".to_string())));
    assert_eq!(cmds[cmds.len() - 1], printer::Command::ResetSize);
}

#[test]
fn invalid_puzzle_references_are_caught() {
    let mut puzzle = sample_puzzle();
    puzzle.clue_lists[0].clues = vec![9];
    assert!(!puzzle.references_valid());
}

#[test]
fn date_validation() {
    assert!(Date { year: 2024, month: 2, day: 29 }.is_valid());
    assert!(!Date { year: 2023, month: 2, day: 29 }.is_valid());
    assert!(!Date { year: 2023, month: 13, day: 1 }.is_valid());
    assert!(!Date { year: 2023, month: 4, day: 31 }.is_valid());
}
