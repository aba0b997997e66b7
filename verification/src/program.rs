//! The printing DSL's abstract syntax.
//!
//! A script compiles to a `Program`: an ordered list of commands.  Most
//! commands are primitive (`Raw`) and reach the device unchanged; the
//! expandable directives (`Sudoku`, `MiniCrossword`, `ToDo`) must be resolved
//! by the renderer into primitive commands before printing.
use vstd::prelude::*;

use crate::printer;

pub mod doc_macros;
pub mod documentation;
pub mod parser;

verus! {

/// One DSL command.
#[derive(Debug, PartialEq, Clone)]
pub enum Command {
    /// A primitive printer command, passed through by the renderer.
    Raw(printer::Command),
    /// Expandable: generate and print a Sudoku puzzle.
    Sudoku,
    /// Expandable: fetch and print the daily mini crossword.
    MiniCrossword,
    /// Expandable: print a line-wrapped todo item.
    ToDo(String),
}

/// Mathematical model of a DSL command.
pub enum CommandModel {
    Raw(printer::CommandModel),
    Sudoku,
    MiniCrossword,
    ToDo(Seq<char>),
}

impl View for Command {
    type V = CommandModel;

    open spec fn view(&self) -> CommandModel {
        match self {
            Command::Raw(c) => CommandModel::Raw(c@),
            Command::Sudoku => CommandModel::Sudoku,
            Command::MiniCrossword => CommandModel::MiniCrossword,
            Command::ToDo(s) => CommandModel::ToDo(s@),
        }
    }
}

/// A parsed script: the commands in source order.
#[derive(Debug, PartialEq, Clone)]
pub struct Program {
    pub commands: Vec<Command>,
}

impl View for Program {
    type V = Seq<CommandModel>;

    open spec fn view(&self) -> Seq<CommandModel> {
        self.commands@.map_values(|c: Command| c@)
    }
}

/// Reported when a single command line matches no command grammar.
#[derive(Debug, PartialEq, Eq, Clone, Copy)]
pub struct ParseError {
    /// Character position at which no grammar rule applied.
    pub pos: usize,
}

} // verus!
