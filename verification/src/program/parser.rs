//! The DSL parser.
//!
//! The grammar is stated once, as spec functions over character sequences,
//! and the executable parser is proved to return exactly what the grammar
//! says.  A script is a sequence of lines; blank lines are skipped; each
//! other line must hold one command, surrounded by optional spaces.  Parsing
//! stops at the first line that matches no rule; everything from there on is
//! returned as leftover input, and the caller decides whether nonempty
//! leftover is an error.
use vstd::prelude::*;

use crate::printer;
use crate::printer::{Font, JustifyMode, UnderlineMode};
use crate::program::{Command, CommandModel, ParseError, Program};
use crate::text::push_char;
use crate::text::chars_of;

verus! {

// ---------------------------------------------------------------------------
// The grammar, as spec functions.  Positions are character indices; every
// function returns the position just past what it consumed.
// ---------------------------------------------------------------------------
/// Spaces and tabs; the only characters a line may carry around a command.
pub open spec fn is_space_char(c: char) -> bool {
    c == ' ' || c == '\t'
}

/// The first position at or after `i` holding no space character.
pub open spec fn skip_spaces(s: Seq<char>, i: int) -> int
    decreases s.len() - i,
{
    if i < 0 || i >= s.len() {
        i
    } else if is_space_char(s[i]) {
        skip_spaces(s, i + 1)
    } else {
        i
    }
}

/// `t` occurs verbatim at position `i`.
pub open spec fn lit_at(s: Seq<char>, i: int, t: Seq<char>) -> bool {
    0 <= i && i + t.len() <= s.len() && (forall|j: int| 0 <= j < t.len() ==> s[i + j] == t[j])
}

/// `a` matches `t` up to ASCII case, where `t` is a lower-case letter.
pub open spec fn matches_nocase(a: char, t: char) -> bool {
    a == t || (a as u32) + 32 == (t as u32)
}

/// `t` (a lower-case keyword) occurs at `i`, compared case-insensitively.
pub open spec fn nocase_lit_at(s: Seq<char>, i: int, t: Seq<char>) -> bool {
    0 <= i && i + t.len() <= s.len() && (forall|j: int|
        0 <= j < t.len() ==> matches_nocase(s[i + j], t[j]))
}

/// A line break at `i`: a bare newline or a carriage return + newline.
pub open spec fn newline_end(s: Seq<char>, i: int) -> Option<int> {
    if 0 <= i && i < s.len() && s[i] == '\n' {
        Some(i + 1)
    } else if 0 <= i && i + 1 < s.len() && s[i] == '\r' && s[i + 1] == '\n' {
        Some(i + 2)
    } else {
        None
    }
}

/// What may terminate a command: the end of input or a line break.
pub open spec fn line_end(s: Seq<char>, i: int) -> Option<int> {
    if i == s.len() {
        Some(i)
    } else {
        newline_end(s, i)
    }
}

/// At least one space after `i`.
pub open spec fn space1_end(s: Seq<char>, i: int) -> Option<int> {
    if skip_spaces(s, i) > i {
        Some(skip_spaces(s, i))
    } else {
        None
    }
}

/// A keyword followed by at least one space: where the argument begins.
pub open spec fn after_tag_arg(s: Seq<char>, i: int, t: Seq<char>) -> Option<int> {
    if lit_at(s, i, t) {
        space1_end(s, i + t.len())
    } else {
        None
    }
}

pub open spec fn is_digit_char(c: char) -> bool {
    '0' <= c && c <= '9'
}

pub open spec fn digit_val(c: char) -> int {
    (c as int) - ('0' as int)
}

/// The first position at or after `i` holding no decimal digit.
pub open spec fn digit_run_end(s: Seq<char>, i: int) -> int
    decreases s.len() - i,
{
    if i < 0 || i >= s.len() {
        i
    } else if is_digit_char(s[i]) {
        digit_run_end(s, i + 1)
    } else {
        i
    }
}

/// Accumulate the digits in `[i, j)` into a byte value; any intermediate
/// value above 255 makes the whole number ill-formed.
pub open spec fn u8_accum(s: Seq<char>, i: int, j: int, acc: int) -> Option<u8>
    decreases j - i,
{
    if !(0 <= acc <= 255) {
        None
    } else if i >= j {
        Some(acc as u8)
    } else {
        let acc2 = acc * 10 + digit_val(s[i]);
        if acc2 > 255 {
            None
        } else {
            u8_accum(s, i + 1, j, acc2)
        }
    }
}

/// A byte-sized decimal number: one or more digits, rejected on overflow.
pub open spec fn parse_u8_at(s: Seq<char>, i: int) -> Option<(int, u8)> {
    let j = digit_run_end(s, i);
    if j == i {
        None
    } else {
        match u8_accum(s, i, j, 0) {
            Some(v) => Some((j, v)),
            None => None,
        }
    }
}

/// Between `m` and `n` digits, taken greedily up to `n`.
pub open spec fn take_digits_m_n(s: Seq<char>, i: int, m: int, n: int) -> Option<(int, Seq<char>)> {
    let j = digit_run_end(s, i);
    let k = if j - i > n {
        i + n
    } else {
        j
    };
    if k - i >= m {
        Some((k, s.subrange(i, k)))
    } else {
        None
    }
}

/// The body of a double-quoted string, from just after the opening quote.
/// `\\` and `\"` are the only recognized escapes; any other character after a
/// backslash is a malformed escape and fails the string.
pub open spec fn esc_body(s: Seq<char>, i: int, acc: Seq<char>) -> Option<(int, Seq<char>)>
    decreases s.len() - i,
{
    if i < 0 || i >= s.len() {
        None
    } else if s[i] == '"' {
        Some((i + 1, acc))
    } else if s[i] == '\\' {
        if i + 1 < s.len() && (s[i + 1] == '\\' || s[i + 1] == '"') {
            esc_body(s, i + 2, acc.push(s[i + 1]))
        } else {
            None
        }
    } else {
        esc_body(s, i + 1, acc.push(s[i]))
    }
}

/// A double-quote-delimited string with escape processing.
pub open spec fn parse_quoted_at(s: Seq<char>, i: int) -> Option<(int, Seq<char>)> {
    if 0 <= i && i < s.len() && s[i] == '"' {
        esc_body(s, i + 1, Seq::empty())
    } else {
        None
    }
}

/// `true` or `false`, case-insensitive.
pub open spec fn parse_bool_at(s: Seq<char>, i: int) -> Option<(int, bool)> {
    if nocase_lit_at(s, i, "true"@) {
        Some((i + "true"@.len(), true))
    } else if nocase_lit_at(s, i, "false"@) {
        Some((i + "false"@.len(), false))
    } else {
        None
    }
}

/// `none`, `single` or `double`, case-insensitive.
pub open spec fn parse_underline_at(s: Seq<char>, i: int) -> Option<(int, UnderlineMode)> {
    if nocase_lit_at(s, i, "none"@) {
        Some((i + "none"@.len(), UnderlineMode::Off))
    } else if nocase_lit_at(s, i, "single"@) {
        Some((i + "single"@.len(), UnderlineMode::Single))
    } else if nocase_lit_at(s, i, "double"@) {
        Some((i + "double"@.len(), UnderlineMode::Double))
    } else {
        None
    }
}

/// `a`, `b` or `c`, case-insensitive.
pub open spec fn parse_font_at(s: Seq<char>, i: int) -> Option<(int, Font)> {
    if nocase_lit_at(s, i, "a"@) {
        Some((i + "a"@.len(), Font::A))
    } else if nocase_lit_at(s, i, "b"@) {
        Some((i + "b"@.len(), Font::B))
    } else if nocase_lit_at(s, i, "c"@) {
        Some((i + "c"@.len(), Font::C))
    } else {
        None
    }
}

/// `left`, `center` or `right`, case-insensitive.
pub open spec fn parse_justify_at(s: Seq<char>, i: int) -> Option<(int, JustifyMode)> {
    if nocase_lit_at(s, i, "left"@) {
        Some((i + "left"@.len(), JustifyMode::Left))
    } else if nocase_lit_at(s, i, "center"@) {
        Some((i + "center"@.len(), JustifyMode::Center))
    } else if nocase_lit_at(s, i, "right"@) {
        Some((i + "right"@.len(), JustifyMode::Right))
    } else {
        None
    }
}

/// A keyword with one quoted-string argument.
pub open spec fn quoted_arm(s: Seq<char>, i: int, t: Seq<char>) -> Option<(int, Seq<char>)> {
    match after_tag_arg(s, i, t) {
        Some(a) => parse_quoted_at(s, a),
        None => None,
    }
}

/// A keyword with one boolean argument.
pub open spec fn bool_arm(s: Seq<char>, i: int, t: Seq<char>) -> Option<(int, bool)> {
    match after_tag_arg(s, i, t) {
        Some(a) => parse_bool_at(s, a),
        None => None,
    }
}

/// A keyword with one byte-sized numeric argument.
pub open spec fn u8_arm(s: Seq<char>, i: int, t: Seq<char>) -> Option<(int, u8)> {
    match after_tag_arg(s, i, t) {
        Some(a) => parse_u8_at(s, a),
        None => None,
    }
}

/// A keyword with a digit-string argument of bounded length.
pub open spec fn digits_arm(s: Seq<char>, i: int, t: Seq<char>, m: int, n: int) -> Option<
    (int, Seq<char>),
> {
    match after_tag_arg(s, i, t) {
        Some(a) => take_digits_m_n(s, a, m, n),
        None => None,
    }
}

/// A bare keyword with no argument.
pub open spec fn bare_arm(s: Seq<char>, i: int, t: Seq<char>) -> Option<int> {
    if lit_at(s, i, t) {
        Some(i + t.len())
    } else {
        None
    }
}

/// `size <w>,<h>`.
pub open spec fn size_arm(s: Seq<char>, i: int) -> Option<(int, u8, u8)> {
    match after_tag_arg(s, i, "size"@) {
        Some(a) => match parse_u8_at(s, a) {
            Some((p, w)) => if lit_at(s, p, ","@) {
                match parse_u8_at(s, p + ","@.len()) {
                    Some((e, h)) => Some((e, w, h)),
                    None => None,
                }
            } else {
                None
            },
            None => None,
        },
        None => None,
    }
}

/// One command, tried rule by rule in a fixed order; the first rule that
/// applies wins.
pub open spec fn parse_command_at(s: Seq<char>, i: int) -> Option<(int, CommandModel)> {
    if let Some((e, txt)) = quoted_arm(s, i, "write"@) {
        Some((e, CommandModel::Raw(printer::CommandModel::Write(txt))))
    } else if let Some((e, txt)) = quoted_arm(s, i, "writeln"@) {
        Some((e, CommandModel::Raw(printer::CommandModel::Write(txt.push('\n')))))
    } else if let Some((e, b)) = bool_arm(s, i, "bold"@) {
        Some((e, CommandModel::Raw(printer::CommandModel::Bold(b))))
    } else if let Some((e, m)) = ({
        match after_tag_arg(s, i, "underline"@) {
            Some(a) => parse_underline_at(s, a),
            None => None,
        }
    }) {
        Some((e, CommandModel::Raw(printer::CommandModel::Underline(m))))
    } else if let Some((e, b)) = bool_arm(s, i, "double_strike"@) {
        Some((e, CommandModel::Raw(printer::CommandModel::DoubleStrike(b))))
    } else if let Some((e, f)) = ({
        match after_tag_arg(s, i, "font"@) {
            Some(a) => parse_font_at(s, a),
            None => None,
        }
    }) {
        Some((e, CommandModel::Raw(printer::CommandModel::Font(f))))
    } else if let Some((e, b)) = bool_arm(s, i, "flip"@) {
        Some((e, CommandModel::Raw(printer::CommandModel::Flip(b))))
    } else if let Some((e, m)) = ({
        match after_tag_arg(s, i, "justify"@) {
            Some(a) => parse_justify_at(s, a),
            None => None,
        }
    }) {
        Some((e, CommandModel::Raw(printer::CommandModel::Justify(m))))
    } else if let Some((e, b)) = bool_arm(s, i, "reverse"@) {
        Some((e, CommandModel::Raw(printer::CommandModel::Reverse(b))))
    } else if let Some((e, n)) = u8_arm(s, i, "feed"@) {
        Some((e, CommandModel::Raw(printer::CommandModel::Feed(n))))
    } else if let Some(e) = bare_arm(s, i, "feed"@) {
        Some((e, CommandModel::Raw(printer::CommandModel::Feed(1))))
    } else if let Some((e, d)) = digits_arm(s, i, "ean13"@, 12, 13) {
        Some((e, CommandModel::Raw(printer::CommandModel::Ean13(d))))
    } else if let Some((e, d)) = digits_arm(s, i, "ean8"@, 7, 8) {
        Some((e, CommandModel::Raw(printer::CommandModel::Ean8(d))))
    } else if let Some((e, txt)) = quoted_arm(s, i, "qr_code"@) {
        Some((e, CommandModel::Raw(printer::CommandModel::QrCode(txt))))
    } else if let Some((e, w, h)) = size_arm(s, i) {
        Some((e, CommandModel::Raw(printer::CommandModel::Size(w, h))))
    } else if let Some(e) = bare_arm(s, i, "reset_size"@) {
        Some((e, CommandModel::Raw(printer::CommandModel::ResetSize)))
    } else if let Some(e) = bare_arm(s, i, "sudoku"@) {
        Some((e, CommandModel::Sudoku))
    } else if let Some(e) = bare_arm(s, i, "minicrossword"@) {
        Some((e, CommandModel::MiniCrossword))
    } else if let Some(e) = bare_arm(s, i, "cut"@) {
        Some((e, CommandModel::Raw(printer::CommandModel::Cut)))
    } else if let Some((e, txt)) = quoted_arm(s, i, "todo"@) {
        Some((e, CommandModel::ToDo(txt)))
    } else {
        None
    }
}

/// One script line, starting at `i`.  Either a command line (optional
/// spaces, a command, optional spaces, then a line break or the end of
/// input), or a blank line (optional spaces and a line break).  `None`
/// means the line matches neither rule and parsing stops here.
pub open spec fn parse_line_at(s: Seq<char>, i: int) -> Option<(int, Option<CommandModel>)> {
    let j = skip_spaces(s, i);
    let command_line = match parse_command_at(s, j) {
        Some((k, c)) => match line_end(s, skip_spaces(s, k)) {
            Some(e) => Some((e, Some(c))),
            None => None,
        },
        None => None,
    };
    match command_line {
        Some(r) => Some(r),
        None => match newline_end(s, j) {
            Some(e) => Some((e, Option::<CommandModel>::None)),
            None => None,
        },
    }
}

/// The whole script from position `i` on: the commands of every line that
/// parses, and the position where parsing stopped (the start of the
/// leftover input).
pub open spec fn parse_program_at(s: Seq<char>, i: int) -> (Seq<CommandModel>, int)
    decreases s.len() - i,
{
    match parse_line_at(s, i) {
        Some((e, copt)) => if i < e <= s.len() {
            let (rest, end) = parse_program_at(s, e);
            (
                match copt {
                    Some(c) => seq![c] + rest,
                    None => rest,
                },
                end,
            )
        } else {
            (Seq::empty(), i)
        },
        None => (Seq::empty(), i),
    }
}

// ---------------------------------------------------------------------------
// The executable parser, proved against the grammar above.
// ---------------------------------------------------------------------------
#[verifier::loop_isolation(false)]
fn skip_spaces_x(v: &Vec<char>, i: usize) -> (r: usize)
    requires
        i <= v@.len(),
    ensures
        i <= r <= v@.len(),
        r as int == skip_spaces(v@, i as int),
{
    let mut k = i;
    while k < v.len() && (v[k] == ' ' || v[k] == '\t')
        invariant
            i <= k <= v@.len(),
            skip_spaces(v@, i as int) == skip_spaces(v@, k as int),
        decreases v@.len() - k,
    {
        k += 1;
    }
    k
}

#[verifier::loop_isolation(false)]
fn lit_at_x(v: &Vec<char>, i: usize, t: &str) -> (r: bool)
    requires
        i <= v@.len(),
    ensures
        r == lit_at(v@, i as int, t@),
{
    let n = t.unicode_len();
    if n > v.len() - i {
        return false;
    }
    let mut j: usize = 0;
    while j < n
        invariant
            j <= n,
            n == t@.len(),
            i + n <= v@.len(),
            forall|q: int| 0 <= q < j ==> v@[i + q] == t@[q],
        decreases n - j,
    {
        if v[i + j] != t.get_char(j) {
            assert(!lit_at(v@, i as int, t@));
            return false;
        }
        j += 1;
    }
    true
}

#[verifier::loop_isolation(false)]
fn nocase_lit_at_x(v: &Vec<char>, i: usize, t: &str) -> (r: bool)
    requires
        i <= v@.len(),
    ensures
        r == nocase_lit_at(v@, i as int, t@),
{
    let n = t.unicode_len();
    if n > v.len() - i {
        return false;
    }
    let mut j: usize = 0;
    while j < n
        invariant
            j <= n,
            n == t@.len(),
            i + n <= v@.len(),
            forall|q: int| 0 <= q < j ==> matches_nocase(v@[i + q], t@[q]),
        decreases n - j,
    {
        let a = v[i + j];
        let c = t.get_char(j);
        proof {
            vstd::utf8::char_is_scalar(a);
            vstd::utf8::char_is_scalar(c);
        }
        if !(a == c || (a as u32) + 32 == (c as u32)) {
            assert(!nocase_lit_at(v@, i as int, t@));
            return false;
        }
        j += 1;
    }
    true
}

fn tag_space_x(v: &Vec<char>, i: usize, t: &str) -> (r: Option<usize>)
    requires
        i <= v@.len(),
    ensures
        r is None ==> after_tag_arg(v@, i as int, t@) is None,
        r matches Some(e) ==> after_tag_arg(v@, i as int, t@) == Some(e as int) && i <= e
            <= v@.len(),
{
    let n = v.len();
    if !lit_at_x(v, i, t) {
        return None;
    }
    let a = i + t.unicode_len();
    let e = skip_spaces_x(v, a);
    if e > a {
        Some(e)
    } else {
        None
    }
}

#[verifier::loop_isolation(false)]
fn digit_run_end_x(v: &Vec<char>, i: usize) -> (r: usize)
    requires
        i <= v@.len(),
    ensures
        i <= r <= v@.len(),
        r as int == digit_run_end(v@, i as int),
        forall|q: int| i <= q < r ==> is_digit_char(v@[q]),
{
    let mut k = i;
    while k < v.len() && v[k] >= '0' && v[k] <= '9'
        invariant
            i <= k <= v@.len(),
            digit_run_end(v@, i as int) == digit_run_end(v@, k as int),
            forall|q: int| i <= q < k ==> is_digit_char(v@[q]),
        decreases v@.len() - k,
    {
        k += 1;
    }
    k
}

#[verifier::loop_isolation(false)]
fn parse_u8_x(v: &Vec<char>, i: usize) -> (r: Option<(usize, u8)>)
    requires
        i <= v@.len(),
    ensures
        r is None ==> parse_u8_at(v@, i as int) is None,
        r matches Some((e, val)) ==> parse_u8_at(v@, i as int) == Some((e as int, val)) && i < e
            <= v@.len(),
{
    let j = digit_run_end_x(v, i);
    if j == i {
        return None;
    }
    let ghost jj = j as int;
    let mut k = i;
    let mut acc: u16 = 0;
    while k < j
        invariant
            i <= k <= j <= v@.len(),
            acc <= 255,
            jj == j as int,
            jj == digit_run_end(v@, i as int),
            forall|q: int| i <= q < jj ==> is_digit_char(v@[q]),
            u8_accum(v@, i as int, jj, 0) == u8_accum(v@, k as int, jj, acc as int),
        decreases j - k,
    {
        let d: u32 = (v[k] as u32) - ('0' as u32);
        let acc2: u32 = (acc as u32) * 10 + d;
        if acc2 > 255 {
            return None;
        }
        acc = acc2 as u16;
        k += 1;
    }
    Some((j, acc as u8))
}

#[verifier::loop_isolation(false)]
fn digits_m_n_x(v: &Vec<char>, i: usize, m: usize, n: usize) -> (r: Option<(usize, String)>)
    requires
        i <= v@.len(),
        0 < m <= n,
    ensures
        r is None ==> take_digits_m_n(v@, i as int, m as int, n as int) is None,
        r matches Some((e, txt)) ==> take_digits_m_n(v@, i as int, m as int, n as int) == Some(
            (e as int, txt@),
        ) && i < e <= v@.len(),
{
    let j = digit_run_end_x(v, i);
    let k = if j - i > n {
        i + n
    } else {
        j
    };
    if k - i < m {
        return None;
    }
    let mut s = String::new();
    let mut q = i;
    while q < k
        invariant
            i <= q <= k <= v@.len(),
            s@ == v@.subrange(i as int, q as int),
        decreases k - q,
    {
        push_char(&mut s, v[q]);
        proof {
            assert(s@ =~= v@.subrange(i as int, q + 1 as int));
        }
        q += 1;
    }
    Some((k, s))
}

#[verifier::loop_isolation(false)]
fn parse_quoted_x(v: &Vec<char>, i: usize) -> (r: Option<(usize, String)>)
    requires
        i <= v@.len(),
    ensures
        r is None ==> parse_quoted_at(v@, i as int) is None,
        r matches Some((e, txt)) ==> parse_quoted_at(v@, i as int) == Some((e as int, txt@)) && i
            < e <= v@.len(),
{
    if i >= v.len() || v[i] != '"' {
        return None;
    }
    let mut k = i + 1;
    let mut acc = String::new();
    loop
        invariant
            i + 1 <= k <= v@.len(),
            i < v@.len(),
            v@[i as int] == '"',
            parse_quoted_at(v@, i as int) == esc_body(v@, k as int, acc@),
        decreases v@.len() - k,
    {
        if k >= v.len() {
            return None;
        }
        let c = v[k];
        if c == '"' {
            return Some((k + 1, acc));
        }
        if c == '\\' {
            if k + 1 < v.len() && (v[k + 1] == '\\' || v[k + 1] == '"') {
                push_char(&mut acc, v[k + 1]);
                k = k + 2;
            } else {
                return None;
            }
        } else {
            push_char(&mut acc, c);
            k = k + 1;
        }
    }
}

fn quoted_arm_x(v: &Vec<char>, i: usize, t: &str) -> (r: Option<(usize, String)>)
    requires
        i <= v@.len(),
    ensures
        r is None ==> quoted_arm(v@, i as int, t@) is None,
        r matches Some((e, txt)) ==> quoted_arm(v@, i as int, t@) == Some((e as int, txt@)) && i
            < e <= v@.len(),
{
    match tag_space_x(v, i, t) {
        Some(a) => parse_quoted_x(v, a),
        None => None,
    }
}

fn bool_arm_x(v: &Vec<char>, i: usize, t: &str) -> (r: Option<(usize, bool)>)
    requires
        i <= v@.len(),
    ensures
        r is None ==> bool_arm(v@, i as int, t@) is None,
        r matches Some((e, b)) ==> bool_arm(v@, i as int, t@) == Some((e as int, b)) && i < e
            <= v@.len(),
{
    let n = v.len();
    let a = match tag_space_x(v, i, t) {
        Some(a) => a,
        None => { return None },
    };
    let word = "true";
    if nocase_lit_at_x(v, a, word) {
        return Some((a + word.unicode_len(), true));
    }
    let word = "false";
    if nocase_lit_at_x(v, a, word) {
        return Some((a + word.unicode_len(), false));
    }
    None
}

fn u8_arm_x(v: &Vec<char>, i: usize, t: &str) -> (r: Option<(usize, u8)>)
    requires
        i <= v@.len(),
    ensures
        r is None ==> u8_arm(v@, i as int, t@) is None,
        r matches Some((e, n)) ==> u8_arm(v@, i as int, t@) == Some((e as int, n)) && i < e
            <= v@.len(),
{
    match tag_space_x(v, i, t) {
        Some(a) => parse_u8_x(v, a),
        None => None,
    }
}

fn digits_arm_x(v: &Vec<char>, i: usize, t: &str, m: usize, n: usize) -> (r: Option<
    (usize, String),
>)
    requires
        i <= v@.len(),
        0 < m <= n,
    ensures
        r is None ==> digits_arm(v@, i as int, t@, m as int, n as int) is None,
        r matches Some((e, txt)) ==> digits_arm(v@, i as int, t@, m as int, n as int) == Some(
            (e as int, txt@),
        ) && i < e <= v@.len(),
{
    match tag_space_x(v, i, t) {
        Some(a) => digits_m_n_x(v, a, m, n),
        None => None,
    }
}

fn bare_arm_x(v: &Vec<char>, i: usize, t: &str) -> (r: Option<usize>)
    requires
        i <= v@.len(),
        t@.len() > 0,
    ensures
        r is None ==> bare_arm(v@, i as int, t@) is None,
        r matches Some(e) ==> bare_arm(v@, i as int, t@) == Some(e as int) && i < e <= v@.len(),
{
    let n = v.len();
    if lit_at_x(v, i, t) {
        Some(i + t.unicode_len())
    } else {
        None
    }
}

fn size_arm_x(v: &Vec<char>, i: usize) -> (r: Option<(usize, u8, u8)>)
    requires
        i <= v@.len(),
    ensures
        r is None ==> size_arm(v@, i as int) is None,
        r matches Some((e, w, h)) ==> size_arm(v@, i as int) == Some((e as int, w, h)) && i < e
            <= v@.len(),
{
    let n = v.len();
    let a = match tag_space_x(v, i, "size") {
        Some(a) => a,
        None => { return None },
    };
    let (p, w) = match parse_u8_x(v, a) {
        Some(r) => r,
        None => { return None },
    };
    let comma = ",";
    if !lit_at_x(v, p, comma) {
        return None;
    }
    let (e, h) = match parse_u8_x(v, p + comma.unicode_len()) {
        Some(r) => r,
        None => { return None },
    };
    Some((e, w, h))
}

fn parse_command_x(v: &Vec<char>, i: usize) -> (r: Option<(usize, Command)>)
    requires
        i <= v@.len(),
    ensures
        r is None ==> parse_command_at(v@, i as int) is None,
        r matches Some((e, c)) ==> parse_command_at(v@, i as int) == Some((e as int, c@)) && i < e
            <= v@.len(),
{
    let n = v.len();
    proof {
        reveal_strlit("feed");
        reveal_strlit("reset_size");
        reveal_strlit("sudoku");
        reveal_strlit("minicrossword");
        reveal_strlit("cut");
    }
    if let Some((e, txt)) = quoted_arm_x(v, i, "write") {
        return Some((e, Command::Raw(printer::Command::Write(txt))));
    }
    if let Some((e, mut txt)) = quoted_arm_x(v, i, "writeln") {
        push_char(&mut txt, '\n');
        return Some((e, Command::Raw(printer::Command::Write(txt))));
    }
    if let Some((e, b)) = bool_arm_x(v, i, "bold") {
        return Some((e, Command::Raw(printer::Command::Bold(b))));
    }
    if let Some(a) = tag_space_x(v, i, "underline") {
        let word = "none";
        if nocase_lit_at_x(v, a, word) {
            return Some(
                (a + word.unicode_len(), Command::Raw(printer::Command::Underline(UnderlineMode::Off))),
            );
        }
        let word = "single";
        if nocase_lit_at_x(v, a, word) {
            return Some(
                (
                    a + word.unicode_len(),
                    Command::Raw(printer::Command::Underline(UnderlineMode::Single)),
                ),
            );
        }
        let word = "double";
        if nocase_lit_at_x(v, a, word) {
            return Some(
                (
                    a + word.unicode_len(),
                    Command::Raw(printer::Command::Underline(UnderlineMode::Double)),
                ),
            );
        }
    }
    if let Some((e, b)) = bool_arm_x(v, i, "double_strike") {
        return Some((e, Command::Raw(printer::Command::DoubleStrike(b))));
    }
    if let Some(a) = tag_space_x(v, i, "font") {
        let word = "a";
        if nocase_lit_at_x(v, a, word) {
            return Some((a + word.unicode_len(), Command::Raw(printer::Command::Font(Font::A))));
        }
        let word = "b";
        if nocase_lit_at_x(v, a, word) {
            return Some((a + word.unicode_len(), Command::Raw(printer::Command::Font(Font::B))));
        }
        let word = "c";
        if nocase_lit_at_x(v, a, word) {
            return Some((a + word.unicode_len(), Command::Raw(printer::Command::Font(Font::C))));
        }
    }
    if let Some((e, b)) = bool_arm_x(v, i, "flip") {
        return Some((e, Command::Raw(printer::Command::Flip(b))));
    }
    if let Some(a) = tag_space_x(v, i, "justify") {
        let word = "left";
        if nocase_lit_at_x(v, a, word) {
            return Some(
                (a + word.unicode_len(), Command::Raw(printer::Command::Justify(JustifyMode::Left))),
            );
        }
        let word = "center";
        if nocase_lit_at_x(v, a, word) {
            return Some(
                (
                    a + word.unicode_len(),
                    Command::Raw(printer::Command::Justify(JustifyMode::Center)),
                ),
            );
        }
        let word = "right";
        if nocase_lit_at_x(v, a, word) {
            return Some(
                (
                    a + word.unicode_len(),
                    Command::Raw(printer::Command::Justify(JustifyMode::Right)),
                ),
            );
        }
    }
    if let Some((e, b)) = bool_arm_x(v, i, "reverse") {
        return Some((e, Command::Raw(printer::Command::Reverse(b))));
    }
    if let Some((e, n)) = u8_arm_x(v, i, "feed") {
        return Some((e, Command::Raw(printer::Command::Feed(n))));
    }
    if let Some(e) = bare_arm_x(v, i, "feed") {
        return Some((e, Command::Raw(printer::Command::Feed(1))));
    }
    if let Some((e, d)) = digits_arm_x(v, i, "ean13", 12, 13) {
        return Some((e, Command::Raw(printer::Command::Ean13(d))));
    }
    if let Some((e, d)) = digits_arm_x(v, i, "ean8", 7, 8) {
        return Some((e, Command::Raw(printer::Command::Ean8(d))));
    }
    if let Some((e, txt)) = quoted_arm_x(v, i, "qr_code") {
        return Some((e, Command::Raw(printer::Command::QrCode(txt))));
    }
    if let Some((e, w, h)) = size_arm_x(v, i) {
        return Some((e, Command::Raw(printer::Command::Size(w, h))));
    }
    if let Some(e) = bare_arm_x(v, i, "reset_size") {
        return Some((e, Command::Raw(printer::Command::ResetSize)));
    }
    if let Some(e) = bare_arm_x(v, i, "sudoku") {
        return Some((e, Command::Sudoku));
    }
    if let Some(e) = bare_arm_x(v, i, "minicrossword") {
        return Some((e, Command::MiniCrossword));
    }
    if let Some(e) = bare_arm_x(v, i, "cut") {
        return Some((e, Command::Raw(printer::Command::Cut)));
    }
    if let Some((e, txt)) = quoted_arm_x(v, i, "todo") {
        return Some((e, Command::ToDo(txt)));
    }
    None
}

fn parse_line_x(v: &Vec<char>, i: usize) -> (r: Option<(usize, Option<Command>)>)
    requires
        i <= v@.len(),
    ensures
        r is None ==> parse_line_at(v@, i as int) is None,
        r matches Some((e, copt)) ==> i < e <= v@.len() && parse_line_at(v@, i as int) == Some(
            (
                e as int,
                match copt {
                    Some(c) => Some(c@),
                    None => None::<CommandModel>,
                },
            ),
        ),
{
    let j = skip_spaces_x(v, i);
    if let Some((k, c)) = parse_command_x(v, j) {
        let k2 = skip_spaces_x(v, k);
        if k2 == v.len() {
            return Some((k2, Some(c)));
        }
        if v[k2] == '\n' {
            return Some((k2 + 1, Some(c)));
        }
        if v[k2] == '\r' && k2 + 1 < v.len() && v[k2 + 1] == '\n' {
            return Some((k2 + 2, Some(c)));
        }
    }
    if j < v.len() && v[j] == '\n' {
        return Some((j + 1, None));
    }
    if j < v.len() && v[j] == '\r' && j + 1 < v.len() && v[j + 1] == '\n' {
        return Some((j + 2, None));
    }
    None
}

#[verifier::loop_isolation(false)]
fn parse_program_x(v: &Vec<char>) -> (r: (Vec<Command>, usize))
    ensures
        r.0@.map_values(|c: Command| c@) == parse_program_at(v@, 0).0,
        r.1 as int == parse_program_at(v@, 0).1,
        r.1 <= v@.len(),
{
    let mut out: Vec<Command> = Vec::new();
    let mut pos: usize = 0;
    loop
        invariant
            pos <= v@.len(),
            parse_program_at(v@, 0).0 == out@.map_values(|c: Command| c@) + parse_program_at(
                v@,
                pos as int,
            ).0,
            parse_program_at(v@, 0).1 == parse_program_at(v@, pos as int).1,
        decreases v@.len() - pos,
    {
        match parse_line_x(v, pos) {
            Some((e, copt)) => {
                let ghost before = out@.map_values(|c: Command| c@);
                match copt {
                    Some(c) => {
                        let ghost cm = c@;
                        out.push(c);
                        proof {
                            assert(out@.map_values(|c: Command| c@) =~= before.push(cm));
                            assert(before.push(cm) + parse_program_at(v@, e as int).0 =~= before + (
                            seq![cm] + parse_program_at(v@, e as int).0));
                        }
                    },
                    None => {},
                }
                pos = e;
            },
            None => {
                proof {
                    assert(parse_program_at(v@, pos as int).0 =~= Seq::<CommandModel>::empty());
                    assert(out@.map_values(|c: Command| c@) + Seq::<CommandModel>::empty()
                        =~= out@.map_values(|c: Command| c@));
                }
                return (out, pos);
            },
        }
    }
}

impl Command {
    /// Parse one command at the very start of `input`; on success the
    /// returned remainder is everything the command did not consume.
    pub fn parse<'a>(input: &'a str) -> (r: Result<(&'a str, Command), ParseError>)
        ensures
            r is Err <==> parse_command_at(input@, 0) is None,
            r matches Ok((leftover, c)) ==> (parse_command_at(input@, 0) matches Some((e, cm))
                && cm == c@ && leftover@ == input@.subrange(e, input@.len() as int)),
    {
        let v = chars_of(input);
        match parse_command_x(&v, 0) {
            Some((e, c)) => {
                let n = input.unicode_len();
                let leftover = input.substring_char(e, n);
                Ok((leftover, c))
            },
            None => Err(ParseError { pos: 0 }),
        }
    }
}

impl Program {
    /// Parse a whole script.  This never fails: lines are consumed while
    /// they match the grammar, and everything from the first unmatched
    /// line on is returned verbatim as the leftover string.
    pub fn parse<'a>(input: &'a str) -> (r: Result<(&'a str, Program), ParseError>)
        ensures
            r matches Ok((leftover, prog)) && prog@ == parse_program_at(input@, 0).0 && leftover@
                == input@.subrange(parse_program_at(input@, 0).1, input@.len() as int),
            0 <= parse_program_at(input@, 0).1 <= input@.len(),
    {
        let v = chars_of(input);
        let (commands, end) = parse_program_x(&v);
        let n = input.unicode_len();
        let leftover = input.substring_char(end, n);
        Ok((leftover, Program { commands }))
    }
}

} // verus!
