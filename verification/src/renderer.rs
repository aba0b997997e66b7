//! The renderer: expands a DSL program into a flat primitive program.
//!
//! Primitive commands pass through unchanged.  Todo items are wrapped to
//! the line width here.  The puzzle directives need outside work (network
//! fetches, generation), so the runtime resolves them first — concurrently
//! if it likes — and hands the results in; `render` splices each result in
//! at its directive's position, so the output order never depends on which
//! expansion finished first.
use vstd::prelude::*;

use crate::printer;
use crate::printer::JustifyMode;
use crate::profile::{Profile, ProfileModel};
use crate::program::{Command, CommandModel, Program};
use crate::text::push_char;

pub mod mini_crossword;
pub mod sudoku;

verus! {

/// Pixel density assumed when a profile does not state one.
pub const DEFAULT_DPI: u16 = 180;

/// Line width in characters assumed when a profile does not state one.
pub const DEFAULT_COLUMNS_PER_LINE: u8 = 42;

/// Print width in pixels assumed when a profile does not state one.
pub const DEFAULT_PIXELS_PER_LINE: u16 = 512;

/// The line width a profile provides, or the default.
pub open spec fn columns_of(p: ProfileModel) -> u8 {
    match p.font_columns {
        Some(c) => c,
        None => DEFAULT_COLUMNS_PER_LINE,
    }
}

/// The pixel density a profile provides, or the default.
pub open spec fn dpi_of(p: ProfileModel) -> u16 {
    match p.dpi {
        Some(d) => d,
        None => DEFAULT_DPI,
    }
}

/// The print width a profile provides, or the default.
pub open spec fn width_px_of(p: ProfileModel) -> u16 {
    match p.width_px {
        Some(w) => w,
        None => DEFAULT_PIXELS_PER_LINE,
    }
}

/// The sizing parameters a render uses: line width in characters, dots per
/// inch, and print width in pixels.
pub fn render_params(profile: &Profile) -> (r: (u8, u16, u16))
    ensures
        r.0 == columns_of(profile@),
        r.1 == dpi_of(profile@),
        r.2 == width_px_of(profile@),
{
    let columns = match profile.font_columns {
        Some(c) => c,
        None => DEFAULT_COLUMNS_PER_LINE,
    };
    let dpi = match profile.dpi {
        Some(d) => d,
        None => DEFAULT_DPI,
    };
    let width = match profile.width_px {
        Some(w) => w,
        None => DEFAULT_PIXELS_PER_LINE,
    };
    (columns, dpi, width)
}

/// A directive whose expansion needs outside work before rendering.
#[derive(Debug, PartialEq, Eq, Structural, Clone, Copy)]
pub enum ExpandRequest {
    Sudoku,
    MiniCrossword,
}

/// Reported when a render cannot complete; no partial output is produced.
#[derive(Debug, PartialEq, Clone)]
pub enum RenderError {
    /// A generator for an expandable directive failed.
    Expansion(String),
}

/// The expansion requests of the commands at or after `i`, in order.
pub open spec fn requests_of(cmds: Seq<CommandModel>, i: int) -> Seq<ExpandRequest>
    decreases cmds.len() - i,
{
    if i < 0 || i >= cmds.len() {
        Seq::empty()
    } else {
        let rest = requests_of(cmds, i + 1);
        match cmds[i] {
            CommandModel::Sudoku => seq![ExpandRequest::Sudoku] + rest,
            CommandModel::MiniCrossword => seq![ExpandRequest::MiniCrossword] + rest,
            _ => rest,
        }
    }
}

/// The outside work a program needs, in program order: one request per
/// expandable puzzle directive.
#[verifier::loop_isolation(false)]
pub fn expansion_requests(program: &Program) -> (r: Vec<ExpandRequest>)
    ensures
        r@ == requests_of(program@, 0),
{
    let mut r: Vec<ExpandRequest> = Vec::new();
    let n = program.commands.len();
    let mut i: usize = 0;
    while i < n
        invariant
            i <= n,
            n == program.commands@.len(),
            requests_of(program@, 0) == r@ + requests_of(program@, i as int),
        decreases n - i,
    {
        proof {
            assert(program@[i as int] == program.commands@[i as int]@);
        }
        match &program.commands[i] {
            Command::Sudoku => {
                let ghost prevs = r@;
                r.push(ExpandRequest::Sudoku);
                proof {
                    assert(prevs.push(ExpandRequest::Sudoku) + requests_of(program@, i + 1 as int)
                        =~= prevs + (seq![ExpandRequest::Sudoku] + requests_of(
                        program@,
                        i + 1 as int,
                    )));
                }
            },
            Command::MiniCrossword => {
                let ghost prevs = r@;
                r.push(ExpandRequest::MiniCrossword);
                proof {
                    assert(prevs.push(ExpandRequest::MiniCrossword) + requests_of(
                        program@,
                        i + 1 as int,
                    ) =~= prevs + (seq![ExpandRequest::MiniCrossword] + requests_of(
                        program@,
                        i + 1 as int,
                    )));
                }
            },
            _ => {},
        }
        i += 1;
    }
    proof {
        assert(r@ + Seq::<ExpandRequest>::empty() =~= r@);
    }
    r
}

/// What `textwrap::wrap` makes of a text at a given width with the given
/// first-line and continuation indents: a function of the arguments alone.
pub uninterp spec fn wrap_of(
    text: Seq<char>,
    width: int,
    initial_indent: Seq<char>,
    subsequent_indent: Seq<char>,
) -> Seq<Seq<char>>;

/// Relies on textwrap::wrap: line-wraps `text` to `width` columns, indenting
/// the first line with `initial_indent` and the rest with
/// `subsequent_indent`; the result depends on the arguments alone.
#[verifier::external_body]
pub(crate) fn wrap_text(text: &str, width: usize, initial_indent: &str, subsequent_indent: &str) -> (r:
    Vec<String>)
    ensures
        r@.map_values(|s: String| s@) == wrap_of(
            text@,
            width as int,
            initial_indent@,
            subsequent_indent@,
        ),
{
    textwrap::wrap(
        text,
        textwrap::Options::new(width).initial_indent(initial_indent).subsequent_indent(
            subsequent_indent,
        ),
    ).into_iter().map(|line| line.into_owned()).collect()
}

/// One wrapped line, sent as a write of the line plus a newline.
pub open spec fn line_write(l: Seq<char>) -> printer::CommandModel {
    printer::CommandModel::Write(l.push('\n'))
}

/// How a todo item renders: left-justified, wrapped to `width` columns
/// behind a checkbox, with continuation lines aligned under the text.
pub open spec fn todo_expansion(item: Seq<char>, width: u8) -> Seq<printer::CommandModel> {
    seq![printer::CommandModel::Justify(JustifyMode::Left)] + wrap_of(
        item,
        width as int,
        "- [ ] "@,
        "      "@,
    ).map_values(|l: Seq<char>| line_write(l))
}

/// Render a todo item.
#[verifier::loop_isolation(false)]
pub fn expand_todo(item: &str, width: u8) -> (r: Vec<printer::Command>)
    ensures
        printer::commands_view(r@) == todo_expansion(item@, width),
{
    let mut r: Vec<printer::Command> = Vec::new();
    r.push(printer::Command::Justify(JustifyMode::Left));
    let lines = wrap_text(item, width as usize, "- [ ] ", "      ");
    let ghost wrapped = wrap_of(item@, width as int, "- [ ] "@, "      "@);
    let n = lines.len();
    proof {
        assert(lines@.map_values(|s: String| s@).len() == lines@.len());
    }
    let mut i: usize = 0;
    while i < n
        invariant
            i <= n,
            n == lines@.len(),
            lines@.map_values(|s: String| s@) == wrapped,
            printer::commands_view(r@) == seq![
                printer::CommandModel::Justify(JustifyMode::Left),
            ] + wrapped.take(i as int).map_values(|l: Seq<char>| line_write(l)),
        decreases n - i,
    {
        let mut line = lines[i].clone();
        push_char(&mut line, '\n');
        let ghost prevs = r@;
        r.push(printer::Command::Write(line));
        proof {
            assert(wrapped[i as int] == lines@[i as int]@);
            assert(printer::commands_view(prevs).len() == prevs.len());
            assert(printer::commands_view(r@) =~= printer::commands_view(prevs).push(
                line_write(wrapped[i as int]),
            ));
            assert(wrapped.take(i + 1 as int).map_values(|l: Seq<char>| line_write(l))
                =~= wrapped.take(i as int).map_values(|l: Seq<char>| line_write(l)).push(
                line_write(wrapped[i as int]),
            ));
            assert(printer::commands_view(r@) =~= seq![
                printer::CommandModel::Justify(JustifyMode::Left),
            ] + wrapped.take(i + 1 as int).map_values(|l: Seq<char>| line_write(l)));
        }
        i += 1;
    }
    proof {
        assert(wrapped.take(n as int) =~= wrapped);
        assert(printer::commands_view(r@) =~= todo_expansion(item@, width));
    }
    r
}

/// The fully rendered program: each primitive command passes through at its
/// position, each puzzle directive is replaced by its expansion (`exps[j]`
/// for the `j`-th directive), and each todo item by its wrapped lines.
pub open spec fn spliced(
    cmds: Seq<CommandModel>,
    width: u8,
    exps: Seq<Seq<printer::CommandModel>>,
    i: int,
    j: int,
) -> Seq<printer::CommandModel>
    decreases cmds.len() - i,
{
    if i < 0 || i >= cmds.len() {
        Seq::empty()
    } else {
        match cmds[i] {
            CommandModel::Raw(c) => seq![c] + spliced(cmds, width, exps, i + 1, j),
            CommandModel::Sudoku => exps[j] + spliced(cmds, width, exps, i + 1, j + 1),
            CommandModel::MiniCrossword => exps[j] + spliced(cmds, width, exps, i + 1, j + 1),
            CommandModel::ToDo(item) => todo_expansion(item, width) + spliced(
                cmds,
                width,
                exps,
                i + 1,
                j,
            ),
        }
    }
}

/// The views of a vector of expansion results that are all successful.
pub open spec fn expansions_view(v: Seq<Result<printer::Program, String>>) -> Seq<
    Seq<printer::CommandModel>,
> {
    v.map_values(|x: Result<printer::Program, String>| (x->Ok_0)@)
}

/// Append field-for-field copies of `src`'s commands to `out`.
#[verifier::loop_isolation(false)]
fn append_commands(out: &mut Vec<printer::Command>, src: &Vec<printer::Command>)
    ensures
        printer::commands_view(final(out)@) == printer::commands_view(old(out)@)
            + printer::commands_view(src@),
{
    let n = src.len();
    let mut i: usize = 0;
    while i < n
        invariant
            i <= n,
            n == src@.len(),
            printer::commands_view(out@) == printer::commands_view(old(out)@)
                + printer::commands_view(src@).take(i as int),
        decreases n - i,
    {
        let c = src[i].duplicate();
        let ghost prevs = out@;
        out.push(c);
        proof {
            assert(printer::commands_view(prevs).len() == prevs.len());
            assert(printer::commands_view(out@) =~= printer::commands_view(prevs).push(
                src@[i as int]@,
            ));
            assert(printer::commands_view(src@).take(i + 1 as int) =~= printer::commands_view(
                src@,
            ).take(i as int).push(src@[i as int]@));
            assert(printer::commands_view(out@) =~= printer::commands_view(old(out)@)
                + printer::commands_view(src@).take(i + 1 as int));
        }
        i += 1;
    }
    proof {
        assert(printer::commands_view(src@).take(n as int) =~= printer::commands_view(src@));
    }
}

/// Render a program against a profile.  The runtime resolves the program's
/// expansion requests first (see `expansion_requests`) and passes the
/// results, in request order; a single failed expansion aborts the whole
/// render, so nothing partial is ever printed.
#[verifier::loop_isolation(false)]
pub fn render(
    program: &Program,
    profile: &Profile,
    expansions: &Vec<Result<printer::Program, String>>,
) -> (r: Result<printer::Program, RenderError>)
    requires
        expansions@.len() == requests_of(program@, 0).len(),
    ensures
        r is Err <==> (exists|j: int|
            0 <= j < expansions@.len() && expansions@[j] is Err),
        r matches Ok(p) ==> p@ == spliced(
            program@,
            columns_of(profile@),
            expansions_view(expansions@),
            0,
            0,
        ),
{
    let (columns, _dpi, _width) = render_params(profile);
    let n_exp = expansions.len();
    let mut j: usize = 0;
    while j < n_exp
        invariant
            j <= n_exp,
            n_exp == expansions@.len(),
            forall|q: int| 0 <= q < j ==> expansions@[q] is Ok,
        decreases n_exp - j,
    {
        if let Result::Err(message) = &expansions[j] {
            return Err(RenderError::Expansion(message.clone()));
        }
        j += 1;
    }
    let ghost exps = expansions_view(expansions@);
    let ghost cmds = program@;
    let mut out: Vec<printer::Command> = Vec::new();
    let n = program.commands.len();
    let mut i: usize = 0;
    let mut j: usize = 0;
    while i < n
        invariant
            i <= n,
            n == program.commands@.len(),
            j <= n_exp,
            n_exp == expansions@.len(),
            exps == expansions_view(expansions@),
            cmds == program@,
            forall|q: int| 0 <= q < n_exp ==> expansions@[q] is Ok,
            requests_of(cmds, i as int).len() == n_exp - j,
            spliced(cmds, columns, exps, 0, 0) == printer::commands_view(out@) + spliced(
                cmds,
                columns,
                exps,
                i as int,
                j as int,
            ),
        decreases n - i,
    {
        proof {
            assert(cmds[i as int] == program.commands@[i as int]@);
        }
        match &program.commands[i] {
            Command::Raw(c) => {
                let ghost prevs = out@;
                out.push(c.duplicate());
                proof {
                    assert(printer::commands_view(prevs).len() == prevs.len());
                    assert(printer::commands_view(out@) =~= printer::commands_view(prevs).push(
                        cmds[i as int]->Raw_0,
                    ));
                    assert(printer::commands_view(prevs).push(cmds[i as int]->Raw_0) + spliced(
                        cmds,
                        columns,
                        exps,
                        i + 1 as int,
                        j as int,
                    ) =~= printer::commands_view(prevs) + (seq![cmds[i as int]->Raw_0] + spliced(
                        cmds,
                        columns,
                        exps,
                        i + 1 as int,
                        j as int,
                    )));
                }
            },
            Command::Sudoku => {
                proof {
                    assert(requests_of(cmds, i as int).len() > 0);
                    assert(expansions@[j as int] is Ok);
                    assert(exps[j as int] == printer::commands_view(
                        (expansions@[j as int]->Ok_0).0@,
                    ));
                }
                let ghost prevs = out@;
                match &expansions[j] {
                    Result::Ok(p) => append_commands(&mut out, &p.0),
                    Result::Err(_) => {
                        proof {
                            assert(false);
                        }
                    },
                }
                j += 1;
                proof {
                    assert(printer::commands_view(out@) =~= printer::commands_view(prevs)
                        + exps[j - 1 as int]);
                    assert(printer::commands_view(prevs) + (exps[j - 1 as int] + spliced(
                        cmds,
                        columns,
                        exps,
                        i + 1 as int,
                        j as int,
                    )) =~= (printer::commands_view(prevs) + exps[j - 1 as int]) + spliced(
                        cmds,
                        columns,
                        exps,
                        i + 1 as int,
                        j as int,
                    ));
                }
            },
            Command::MiniCrossword => {
                proof {
                    assert(requests_of(cmds, i as int).len() > 0);
                    assert(expansions@[j as int] is Ok);
                    assert(exps[j as int] == printer::commands_view(
                        (expansions@[j as int]->Ok_0).0@,
                    ));
                }
                let ghost prevs = out@;
                match &expansions[j] {
                    Result::Ok(p) => append_commands(&mut out, &p.0),
                    Result::Err(_) => {
                        proof {
                            assert(false);
                        }
                    },
                }
                j += 1;
                proof {
                    assert(printer::commands_view(out@) =~= printer::commands_view(prevs)
                        + exps[j - 1 as int]);
                    assert(printer::commands_view(prevs) + (exps[j - 1 as int] + spliced(
                        cmds,
                        columns,
                        exps,
                        i + 1 as int,
                        j as int,
                    )) =~= (printer::commands_view(prevs) + exps[j - 1 as int]) + spliced(
                        cmds,
                        columns,
                        exps,
                        i + 1 as int,
                        j as int,
                    ));
                }
            },
            Command::ToDo(item) => {
                let expanded = expand_todo(item.as_str(), columns);
                let ghost prevs = out@;
                append_commands(&mut out, &expanded);
                proof {
                    assert(printer::commands_view(out@) =~= printer::commands_view(prevs)
                        + todo_expansion(item@, columns));
                    assert(printer::commands_view(prevs) + (todo_expansion(item@, columns)
                        + spliced(cmds, columns, exps, i + 1 as int, j as int))
                        =~= (printer::commands_view(prevs) + todo_expansion(item@, columns))
                        + spliced(cmds, columns, exps, i + 1 as int, j as int));
                }
            },
        }
        i += 1;
    }
    proof {
        assert(spliced(cmds, columns, exps, n as int, j as int) =~= Seq::<
            printer::CommandModel,
        >::empty());
        assert(printer::commands_view(out@) + Seq::<printer::CommandModel>::empty()
            =~= printer::commands_view(out@));
    }
    Ok(printer::Program(out))
}

/// Order stability: for a program that writes `a`, expands one directive
/// and then writes `b`, the rendered sequence is always `a`, the whole
/// expansion, then `b` — wherever the expansion was computed and whenever
/// it finished.
pub proof fn lemma_render_order_stable(
    a: printer::CommandModel,
    b: printer::CommandModel,
    exp: Seq<printer::CommandModel>,
    width: u8,
)
    ensures
        spliced(
            seq![CommandModel::Raw(a), CommandModel::Sudoku, CommandModel::Raw(b)],
            width,
            seq![exp],
            0,
            0,
        ) == seq![a] + exp + seq![b],
{
    let cmds = seq![CommandModel::Raw(a), CommandModel::Sudoku, CommandModel::Raw(b)];
    let exps = seq![exp];
    assert(spliced(cmds, width, exps, 3, 1) =~= Seq::<printer::CommandModel>::empty());
    assert(spliced(cmds, width, exps, 2, 1) =~= seq![b]);
    assert(spliced(cmds, width, exps, 1, 0) =~= exp + seq![b]);
    assert(spliced(cmds, width, exps, 0, 0) =~= seq![a] + (exp + seq![b]));
    assert(seq![a] + (exp + seq![b]) =~= seq![a] + exp + seq![b]);
}

} // verus!
