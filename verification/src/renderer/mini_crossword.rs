//! Rendering the daily mini crossword as printer commands.
//!
//! The fetched puzzle data (see `crate::mini_crossword`) is turned into a
//! command sequence: the publication date, the centered board image, every
//! clue list with its clues wrapped and indented under their numbers, and
//! the constructors line.
use vstd::prelude::*;

use crate::mini_crossword::{
    date_line_of, direction_label, format_date_line, puzzle_wf, Crossword, CrosswordModel,
    PuzzleModel,
};
use crate::printer::{commands_view, Command, CommandModel, JustifyMode};
use crate::renderer::sudoku::push_cmd;
use crate::renderer::{line_write, wrap_of, wrap_text};
use crate::text::push_char;
use crate::text::spaces;

verus! {

/// The line width clue text is wrapped to.
pub const CROSSWORD_WRAP_COLUMNS: usize = 42;

/// How wide a string prints, in terminal columns, as the width tables
/// give it: a function of the characters alone.
pub uninterp spec fn display_width(s: Seq<char>) -> nat;

/// Relies on unicode_width's str width: the sum of the characters' column
/// widths, a function of the characters alone.
#[verifier::external_body]
fn str_display_width(s: &str) -> (r: usize)
    ensures
        r as nat == display_width(s@),
{
    unicode_width::UnicodeWidthStr::width(s)
}

/// Text wrapped to the crossword width, one write per line.
pub open spec fn wrapped_writes(
    text: Seq<char>,
    init: Seq<char>,
    subseq: Seq<char>,
) -> Seq<CommandModel> {
    wrap_of(text, CROSSWORD_WRAP_COLUMNS as int, init, subseq).map_values(
        |l: Seq<char>| line_write(l),
    )
}

/// The writes for the clues numbered in `nums`, from `j` on: each clue's
/// text wrapped behind its label, with continuation lines indented to the
/// label's display width.
pub open spec fn clue_commands(p: PuzzleModel, nums: Seq<u16>, j: int) -> Seq<CommandModel>
    decreases nums.len() - j,
{
    if j < 0 || j >= nums.len() {
        Seq::empty()
    } else {
        let clue = p.clues[nums[j] as int];
        let label = clue.label + ": "@;
        wrapped_writes(clue.text[0], label, Seq::new(display_width(label), |i: int| ' '))
            + clue_commands(p, nums, j + 1)
    }
}

/// The commands for the clue lists from `i` on: each list's direction
/// heading, its clues, and a blank feed after it.
pub open spec fn clue_list_commands(p: PuzzleModel, i: int) -> Seq<CommandModel>
    decreases p.clue_lists.len() - i,
{
    if i < 0 || i >= p.clue_lists.len() {
        Seq::empty()
    } else {
        seq![CommandModel::Write(direction_label(p.clue_lists[i].name) + ":\n"@)] + clue_commands(
            p,
            p.clue_lists[i].clues,
            0,
        ) + seq![CommandModel::Feed(1)] + clue_list_commands(p, i + 1)
    }
}

/// The whole crossword print-out: the date line, the centered board
/// image at the given pixel width, the clue lists, and the constructors.
pub open spec fn crossword_commands(cw: CrosswordModel, width_px: u32) -> Seq<CommandModel> {
    seq![
        CommandModel::ResetSize,
        CommandModel::Write(
            date_line_of(
                cw.publication_date.year,
                cw.publication_date.month,
                cw.publication_date.day,
            ) + "\n"@,
        ),
        CommandModel::Feed(1),
        CommandModel::ResetSize,
        CommandModel::Write("\n"@),
        CommandModel::Feed(1),
        CommandModel::Justify(JustifyMode::Center),
        CommandModel::BitImageFromBytesWithWidth(cw.image, width_px),
        CommandModel::Feed(2),
        CommandModel::Justify(JustifyMode::Left),
    ] + clue_list_commands(cw.puzzle, 0) + wrapped_writes(
        format_list_spec(cw.constructors),
        "by "@,
        "   "@,
    ) + seq![CommandModel::ResetSize]
}

/// Append text wrapped to the crossword width, one write per line.
#[verifier::loop_isolation(false)]
fn push_wrapped(out: &mut Vec<Command>, text: &str, init: &str, subseq: &str)
    ensures
        commands_view(final(out)@) == commands_view(old(out)@) + wrapped_writes(
            text@,
            init@,
            subseq@,
        ),
{
    let lines = wrap_text(text, CROSSWORD_WRAP_COLUMNS, init, subseq);
    let ghost wrapped = wrap_of(text@, CROSSWORD_WRAP_COLUMNS as int, init@, subseq@);
    proof {
        assert(lines@.map_values(|s: String| s@).len() == lines@.len());
    }
    let n = lines.len();
    let mut i: usize = 0;
    while i < n
        invariant
            i <= n,
            n == lines@.len(),
            lines@.map_values(|s: String| s@) == wrapped,
            commands_view(out@) == commands_view(old(out)@) + wrapped.take(i as int).map_values(
                |l: Seq<char>| line_write(l),
            ),
        decreases n - i,
    {
        let mut line = lines[i].clone();
        push_char(&mut line, '\n');
        let ghost before = commands_view(out@);
        push_cmd(out, Command::Write(line));
        proof {
            assert(wrapped[i as int] == lines@[i as int]@);
            assert(wrapped.take(i + 1 as int).map_values(|l: Seq<char>| line_write(l))
                =~= wrapped.take(i as int).map_values(|l: Seq<char>| line_write(l)).push(
                line_write(wrapped[i as int]),
            ));
            assert(commands_view(out@) =~= commands_view(old(out)@) + wrapped.take(
                i + 1 as int,
            ).map_values(|l: Seq<char>| line_write(l)));
        }
        i += 1;
    }
    proof {
        assert(wrapped.take(n as int) =~= wrapped);
        assert(commands_view(out@) =~= commands_view(old(out)@) + wrapped_writes(
            text@,
            init@,
            subseq@,
        ));
    }
}

/// Render a fetched crossword as primitive commands, with the board image
/// sized to `width_px` pixels.
#[verifier::loop_isolation(false)]
pub fn make_mini_crossword(cw: &Crossword, width_px: u32) -> (r: Vec<Command>)
    requires
        puzzle_wf(cw@.puzzle),
        cw.publication_date.wf(),
    ensures
        commands_view(r@) == crossword_commands(cw@, width_px),
{
    let ghost p = cw@.puzzle;
    let mut out: Vec<Command> = Vec::new();
    push_cmd(&mut out, Command::ResetSize);
    let mut date_line = format_date_line(&cw.publication_date);
    date_line.append("\n");
    proof {
        assert(date_line@ =~= date_line_of(
            cw@.publication_date.year,
            cw@.publication_date.month,
            cw@.publication_date.day,
        ) + "\n"@);
    }
    push_cmd(&mut out, Command::Write(date_line));
    push_cmd(&mut out, Command::Feed(1));
    push_cmd(&mut out, Command::ResetSize);
    push_cmd(&mut out, Command::Write(String::from_str("\n")));
    push_cmd(&mut out, Command::Feed(1));
    push_cmd(&mut out, Command::Justify(JustifyMode::Center));
    let image = cw.image.clone();
    proof {
        assert(image@ =~= cw@.image);
    }
    push_cmd(&mut out, Command::BitImageFromBytesWithWidth(image, width_px));
    push_cmd(&mut out, Command::Feed(2));
    push_cmd(&mut out, Command::Justify(JustifyMode::Left));
    let ghost header = commands_view(out@);
    let n = cw.puzzle.clue_lists.len();
    proof {
        assert(p.clue_lists.len() == n);
    }
    let mut i: usize = 0;
    while i < n
        invariant
            i <= n,
            n == cw.puzzle.clue_lists@.len(),
            p == cw@.puzzle,
            puzzle_wf(p),
            header + clue_list_commands(p, 0) == commands_view(out@) + clue_list_commands(
                p,
                i as int,
            ),
        decreases n - i,
    {
        let ghost before = commands_view(out@);
        proof {
            assert(p.clue_lists[i as int] == cw.puzzle.clue_lists@[i as int]@);
        }
        let mut heading = String::from_str(cw.puzzle.clue_lists[i].name.label());
        heading.append(":\n");
        proof {
            assert(heading@ =~= direction_label(p.clue_lists[i as int].name) + ":\n"@);
        }
        push_cmd(&mut out, Command::Write(heading));
        let ghost nums = p.clue_lists[i as int].clues;
        let ghost after_heading = commands_view(out@);
        let m = cw.puzzle.clue_lists[i].clues.len();
        proof {
            assert(nums.len() == m);
        }
        let mut j: usize = 0;
        while j < m
            invariant
                j <= m,
                i < n,
                n == cw.puzzle.clue_lists@.len(),
                m == cw.puzzle.clue_lists@[i as int].clues@.len(),
                p == cw@.puzzle,
                puzzle_wf(p),
                nums == p.clue_lists[i as int].clues,
                after_heading + clue_commands(p, nums, 0) == commands_view(out@) + clue_commands(
                    p,
                    nums,
                    j as int,
                ),
            decreases m - j,
        {
            let ghost before_clue = commands_view(out@);
            let num = cw.puzzle.clue_lists[i].clues[j];
            proof {
                assert(nums[j as int] == num);
                assert(p.clue_lists[i as int].clues[j as int] < p.clues.len());
                assert(p.clues[num as int].text.len() > 0);
            }
            let clue = &cw.puzzle.clues[num as usize];
            proof {
                assert(p.clues[num as int] == cw.puzzle.clues@[num as int]@);
                assert(p.clues[num as int].text[0] == clue.text@[0]@);
            }
            let mut label = clue.label.clone();
            label.append(": ");
            proof {
                assert(label@ =~= p.clues[num as int].label + ": "@);
            }
            let width = str_display_width(label.as_str());
            let indent = spaces(width);
            proof {
                assert(indent@ =~= Seq::new(display_width(label@), |q: int| ' '));
            }
            push_wrapped(&mut out, clue.text[0].plain.as_str(), label.as_str(), indent.as_str());
            proof {
                assert(clue_commands(p, nums, j as int) =~= wrapped_writes(
                    p.clues[nums[j as int] as int].text[0],
                    p.clues[nums[j as int] as int].label + ": "@,
                    Seq::new(display_width(p.clues[nums[j as int] as int].label + ": "@), |q: int| ' '),
                ) + clue_commands(p, nums, j + 1 as int));
                assert(before_clue + (wrapped_writes(
                    p.clues[nums[j as int] as int].text[0],
                    p.clues[nums[j as int] as int].label + ": "@,
                    Seq::new(display_width(p.clues[nums[j as int] as int].label + ": "@), |q: int| ' '),
                ) + clue_commands(p, nums, j + 1 as int)) =~= commands_view(out@) + clue_commands(
                    p,
                    nums,
                    j + 1 as int,
                ));
            }
            j += 1;
        }
        proof {
            assert(clue_commands(p, nums, m as int) =~= Seq::<CommandModel>::empty());
            assert(commands_view(out@) + Seq::<CommandModel>::empty() =~= commands_view(out@));
        }
        push_cmd(&mut out, Command::Feed(1));
        proof {
            assert(clue_list_commands(p, i as int) =~= (seq![
                CommandModel::Write(direction_label(p.clue_lists[i as int].name) + ":\n"@),
            ] + clue_commands(p, nums, 0) + seq![CommandModel::Feed(1)]) + clue_list_commands(
                p,
                i + 1 as int,
            ));
            assert(before + ((seq![
                CommandModel::Write(direction_label(p.clue_lists[i as int].name) + ":\n"@),
            ] + clue_commands(p, nums, 0) + seq![CommandModel::Feed(1)]) + clue_list_commands(
                p,
                i + 1 as int,
            )) =~= commands_view(out@) + clue_list_commands(p, i + 1 as int));
        }
        i += 1;
    }
    proof {
        assert(clue_list_commands(p, n as int) =~= Seq::<CommandModel>::empty());
        assert(commands_view(out@) + Seq::<CommandModel>::empty() =~= commands_view(out@));
    }
    let constructors_line = format_list(&cw.constructors);
    push_wrapped(&mut out, constructors_line.as_str(), "by ", "   ");
    push_cmd(&mut out, Command::ResetSize);
    proof {
        assert(commands_view(out@) =~= crossword_commands(cw@, width_px));
    }
    out
}

/// The separator printed before the `i`-th of `n` list items: an Oxford
/// comma before the last, a plain comma in the middle, nothing first.
pub open spec fn list_sep(i: int, n: int) -> Seq<char> {
    if i == n - 1 {
        ", and "@
    } else if i != 0 {
        ", "@
    } else {
        Seq::empty()
    }
}

/// The items of `xs` from `i` on, each behind its separator.
pub open spec fn joined_from(xs: Seq<Seq<char>>, i: int) -> Seq<char>
    decreases xs.len() - i,
{
    if i < 0 || i >= xs.len() {
        Seq::empty()
    } else {
        list_sep(i, xs.len() as int) + xs[i] + joined_from(xs, i + 1)
    }
}

/// A human-readable enumeration: one name alone, two joined with "and",
/// more with commas and a final ", and".
pub open spec fn format_list_spec(xs: Seq<Seq<char>>) -> Seq<char> {
    if xs.len() == 1 {
        xs[0]
    } else if xs.len() == 2 {
        xs[0] + " and "@ + xs[1]
    } else {
        joined_from(xs, 0)
    }
}

/// The models of a vector of strings.
pub open spec fn strings_view(v: Seq<String>) -> Seq<Seq<char>> {
    v.map_values(|s: String| s@)
}

/// Join names for the constructors line.
#[verifier::loop_isolation(false)]
pub fn format_list(s: &Vec<String>) -> (r: String)
    ensures
        r@ == format_list_spec(strings_view(s@)),
{
    let ghost xs = strings_view(s@);
    proof {
        assert(xs.len() == s@.len());
    }
    if s.len() == 1 {
        return s[0].clone();
    }
    if s.len() == 2 {
        let mut out = s[0].clone();
        out.append(" and ");
        out.append(s[1].as_str());
        return out;
    }
    let mut out = String::new();
    let n = s.len();
    let mut i: usize = 0;
    while i < n
        invariant
            i <= n,
            n == s@.len(),
            xs == strings_view(s@),
            joined_from(xs, 0) == out@ + joined_from(xs, i as int),
        decreases n - i,
    {
        let ghost before = out@;
        if i == n - 1 {
            out.append(", and ");
        } else if i != 0 {
            out.append(", ");
        }
        out.append(s[i].as_str());
        proof {
            assert(xs[i as int] == s@[i as int]@);
            assert(out@ =~= before + list_sep(i as int, n as int) + xs[i as int]);
            assert(before + (list_sep(i as int, n as int) + xs[i as int] + joined_from(
                xs,
                i + 1 as int,
            )) =~= (before + list_sep(i as int, n as int) + xs[i as int]) + joined_from(
                xs,
                i + 1 as int,
            ));
        }
        i += 1;
    }
    proof {
        assert(joined_from(xs, n as int) =~= Seq::<char>::empty());
        assert(out@ + Seq::<char>::empty() =~= out@);
    }
    out
}

} // verus!
