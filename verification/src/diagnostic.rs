//! Diagnostics: the one value that a failed check returns.
//!
//! A diagnostic names the rule that was broken, the variable concerned and
//! the position of the offending use. Its texts are fixed by the spec
//! functions below, so a contract that names a diagnostic fixes every
//! character of what a user will read.

use vstd::prelude::*;
use vstd::string::*;
use crate::ast::Location;

verus! {

/// The rules that a program can break.
#[derive(Debug, Clone, Copy, PartialEq, Eq, Structural)]
pub enum ErrorKind {
    /// A name was used that no enclosing scope declares.
    UndefinedVariable,
    /// A value was used after it had been moved away.
    UseOfMovedValue,
    /// A variable declared without `mut` was assigned to.
    AssignToImmutable,
    /// A variable was assigned to while a borrow of it exists.
    MutateWhileBorrowed,
    /// A value was moved while a borrow of it exists.
    MoveWhileBorrowed,
    /// `break` outside of any loop.
    BreakOutsideLoop,
    /// `continue` outside of any loop.
    ContinueOutsideLoop,
}

/// A positioned description of exactly one rule violation.
#[derive(Debug, Clone, PartialEq, Eq)]
pub struct Diagnostic {
    pub kind: ErrorKind,
    /// The variable concerned; `None` for `break` and `continue`.
    pub variable: Option<String>,
    pub file: String,
    pub line: usize,
    pub column: usize,
    /// Where the variable was declared; given for a use after a move.
    pub origin: Option<Location>,
    pub message: String,
    pub note: Option<String>,
    pub help: Option<String>,
}

/// What a [`Diagnostic`] holds, with each string as its characters.
pub struct DiagnosticModel {
    pub kind: ErrorKind,
    pub variable: Option<Seq<char>>,
    pub file: Seq<char>,
    pub line: usize,
    pub column: usize,
    pub origin: Option<Location>,
    pub message: Seq<char>,
    pub note: Option<Seq<char>>,
    pub help: Option<Seq<char>>,
}

/// The characters of an optional string.
pub open spec fn text_of(s: Option<String>) -> Option<Seq<char>> {
    match s {
        Some(t) => Some(t@),
        None => None,
    }
}

impl View for Diagnostic {
    type V = DiagnosticModel;

    open spec fn view(&self) -> DiagnosticModel {
        DiagnosticModel {
            kind: self.kind,
            variable: text_of(self.variable),
            file: self.file@,
            line: self.line,
            column: self.column,
            origin: self.origin,
            message: self.message@,
            note: text_of(self.note),
            help: text_of(self.help),
        }
    }
}

/// The decimal digit `d`, for `d` below ten.
pub open spec fn digit_char(d: nat) -> char {
    if d == 0 {
        '0'
    } else if d == 1 {
        '1'
    } else if d == 2 {
        '2'
    } else if d == 3 {
        '3'
    } else if d == 4 {
        '4'
    } else if d == 5 {
        '5'
    } else if d == 6 {
        '6'
    } else if d == 7 {
        '7'
    } else if d == 8 {
        '8'
    } else {
        '9'
    }
}

/// The decimal numeral of `n`, without leading zeros.
pub open spec fn decimal(n: nat) -> Seq<char>
    decreases n,
{
    if n < 10 {
        seq![digit_char(n)]
    } else {
        decimal(n / 10).push(digit_char(n % 10))
    }
}

/// Message of an [`ErrorKind::UndefinedVariable`] diagnostic.
pub open spec fn undefined_message(name: Seq<char>) -> Seq<char> {
    "cannot find value '"@ + name + "' in this scope"@
}

/// Message of an [`ErrorKind::UseOfMovedValue`] diagnostic.
pub open spec fn moved_message(name: Seq<char>) -> Seq<char> {
    "use of moved value '"@ + name + "'"@
}

/// Note of an [`ErrorKind::UseOfMovedValue`] diagnostic; `line` is the line
/// on which the variable was declared.
pub open spec fn moved_note(line: usize) -> Seq<char> {
    "value moved at line "@ + decimal(line as nat) + ", cannot be used again"@
}

/// Help of an [`ErrorKind::UseOfMovedValue`] diagnostic.
pub open spec fn moved_help(name: Seq<char>) -> Seq<char> {
    "Consider borrowing '&"@ + name + "' to keep ownership in the current scope"@
}

/// Message of an [`ErrorKind::AssignToImmutable`] diagnostic.
pub open spec fn immutable_message(name: Seq<char>) -> Seq<char> {
    "cannot assign to immutable variable '"@ + name + "'"@
}

/// Help of an [`ErrorKind::AssignToImmutable`] diagnostic.
pub open spec fn immutable_help(name: Seq<char>) -> Seq<char> {
    "Consider declaring with 'let mut "@ + name + "'"@
}

/// Message of the two borrow diagnostics.
pub open spec fn borrowed_message(name: Seq<char>) -> Seq<char> {
    "cannot move '"@ + name + "' while borrowed"@
}

/// Note of an [`ErrorKind::MutateWhileBorrowed`] diagnostic.
pub open spec fn borrowed_note(borrows: usize) -> Seq<char> {
    decimal(borrows as nat) + " active borrow(s) exist"@
}

/// A use of `name` at `at`, where no scope declares it.
pub open spec fn undefined_variable(
    file: Seq<char>,
    at: Location,
    name: Seq<char>,
) -> DiagnosticModel {
    DiagnosticModel {
        kind: ErrorKind::UndefinedVariable,
        variable: Some(name),
        file,
        line: at.line,
        column: at.column,
        origin: None,
        message: undefined_message(name),
        note: None,
        help: None,
    }
}

/// A use of `name` at `at`, after the value declared at `origin` was moved.
pub open spec fn use_of_moved_value(
    file: Seq<char>,
    at: Location,
    name: Seq<char>,
    origin: Location,
) -> DiagnosticModel {
    DiagnosticModel {
        kind: ErrorKind::UseOfMovedValue,
        variable: Some(name),
        file,
        line: at.line,
        column: at.column,
        origin: Some(origin),
        message: moved_message(name),
        note: Some(moved_note(origin.line)),
        help: Some(moved_help(name)),
    }
}

/// An assignment at `at` to `name`, which was declared without `mut`.
pub open spec fn assign_to_immutable(
    file: Seq<char>,
    at: Location,
    name: Seq<char>,
) -> DiagnosticModel {
    DiagnosticModel {
        kind: ErrorKind::AssignToImmutable,
        variable: Some(name),
        file,
        line: at.line,
        column: at.column,
        origin: None,
        message: immutable_message(name),
        note: None,
        help: Some(immutable_help(name)),
    }
}

/// An assignment at `at` to `name`, of which `borrows` borrows exist.
pub open spec fn mutate_while_borrowed(
    file: Seq<char>,
    at: Location,
    name: Seq<char>,
    borrows: usize,
) -> DiagnosticModel {
    DiagnosticModel {
        kind: ErrorKind::MutateWhileBorrowed,
        variable: Some(name),
        file,
        line: at.line,
        column: at.column,
        origin: None,
        message: borrowed_message(name),
        note: Some(borrowed_note(borrows)),
        help: None,
    }
}

/// A move at `at` of `name`, of which a borrow exists.
pub open spec fn move_while_borrowed(
    file: Seq<char>,
    at: Location,
    name: Seq<char>,
) -> DiagnosticModel {
    DiagnosticModel {
        kind: ErrorKind::MoveWhileBorrowed,
        variable: Some(name),
        file,
        line: at.line,
        column: at.column,
        origin: None,
        message: borrowed_message(name),
        note: None,
        help: None,
    }
}

/// A `break` at `at`, outside of any loop.
pub open spec fn break_outside_loop(file: Seq<char>, at: Location) -> DiagnosticModel {
    DiagnosticModel {
        kind: ErrorKind::BreakOutsideLoop,
        variable: None,
        file,
        line: at.line,
        column: at.column,
        origin: None,
        message: "'break' outside of loop"@,
        note: None,
        help: None,
    }
}

/// A `continue` at `at`, outside of any loop.
pub open spec fn continue_outside_loop(file: Seq<char>, at: Location) -> DiagnosticModel {
    DiagnosticModel {
        kind: ErrorKind::ContinueOutsideLoop,
        variable: None,
        file,
        line: at.line,
        column: at.column,
        origin: None,
        message: "'continue' outside of loop"@,
        note: None,
        help: None,
    }
}

/// What starts a note or help line: the move diagnostic indents them.
pub open spec fn line_break(kind: ErrorKind) -> Seq<char> {
    if kind == ErrorKind::UseOfMovedValue {
        "\n    "@
    } else {
        "\n"@
    }
}

/// The note line of a rendered diagnostic, empty where there is no note.
pub open spec fn note_line(kind: ErrorKind, note: Option<Seq<char>>) -> Seq<char> {
    match note {
        Some(text) => line_break(kind) + "Note: "@ + text,
        None => Seq::empty(),
    }
}

/// The help line of a rendered diagnostic, empty where there is no help.
pub open spec fn help_line(kind: ErrorKind, help: Option<Seq<char>>) -> Seq<char> {
    match help {
        Some(text) => line_break(kind) + "Help: "@ + text,
        None => Seq::empty(),
    }
}

/// The text shown for a diagnostic: `file:line:column: Error: message`,
/// followed by the note and the help, each on a line of its own.
pub open spec fn rendered(d: DiagnosticModel) -> Seq<char> {
    d.file + ":"@ + decimal(d.line as nat) + ":"@ + decimal(d.column as nat) + ": Error: "@
        + d.message + note_line(d.kind, d.note) + help_line(d.kind, d.help)
}

/// The numeral of one digit.
fn digit_text(d: usize) -> (text: &'static str)
    requires
        d < 10,
    ensures
        text@ == seq![digit_char(d as nat)],
{
    proof {
        reveal_strlit("0");
        reveal_strlit("1");
        reveal_strlit("2");
        reveal_strlit("3");
        reveal_strlit("4");
        reveal_strlit("5");
        reveal_strlit("6");
        reveal_strlit("7");
        reveal_strlit("8");
        reveal_strlit("9");
    }
    let text = if d == 0 {
        "0"
    } else if d == 1 {
        "1"
    } else if d == 2 {
        "2"
    } else if d == 3 {
        "3"
    } else if d == 4 {
        "4"
    } else if d == 5 {
        "5"
    } else if d == 6 {
        "6"
    } else if d == 7 {
        "7"
    } else if d == 8 {
        "8"
    } else {
        "9"
    };
    assert(text@ =~= seq![digit_char(d as nat)]);
    text
}

/// Writes `n` in decimal.
pub fn decimal_string(n: usize) -> (text: String)
    ensures
        text@ == decimal(n as nat),
    decreases n,
{
    if n < 10 {
        String::from_str(digit_text(n))
    } else {
        let mut text = decimal_string(n / 10);
        text.append(digit_text(n % 10));
        assert(text@ =~= decimal(n as nat));
        text
    }
}

/// Joins three pieces of text.
fn framed(before: &str, middle: &str, after: &str) -> (text: String)
    ensures
        text@ == before@ + middle@ + after@,
{
    let mut text = String::from_str(before);
    text.append(middle);
    text.append(after);
    text
}

impl Diagnostic {
    /// Reports a use of `name` that no scope declares.
    pub fn undefined_variable(file: &str, at: Location, name: &str) -> (d: Diagnostic)
        ensures
            d@ == undefined_variable(file@, at, name@),
    {
        Diagnostic {
            kind: ErrorKind::UndefinedVariable,
            variable: Some(String::from_str(name)),
            file: String::from_str(file),
            line: at.line,
            column: at.column,
            origin: None,
            message: framed("cannot find value '", name, "' in this scope"),
            note: None,
            help: None,
        }
    }

    /// Reports a use of `name` after the value declared at `origin` was moved.
    pub fn use_of_moved_value(file: &str, at: Location, name: &str, origin: Location) -> (d:
        Diagnostic)
        ensures
            d@ == use_of_moved_value(file@, at, name@, origin),
    {
        let line = decimal_string(origin.line);
        Diagnostic {
            kind: ErrorKind::UseOfMovedValue,
            variable: Some(String::from_str(name)),
            file: String::from_str(file),
            line: at.line,
            column: at.column,
            origin: Some(origin),
            message: framed("use of moved value '", name, "'"),
            note: Some(framed("value moved at line ", line.as_str(), ", cannot be used again")),
            help: Some(
                framed("Consider borrowing '&", name, "' to keep ownership in the current scope"),
            ),
        }
    }

    /// Reports an assignment to `name`, which was declared without `mut`.
    pub fn assign_to_immutable(file: &str, at: Location, name: &str) -> (d: Diagnostic)
        ensures
            d@ == assign_to_immutable(file@, at, name@),
    {
        Diagnostic {
            kind: ErrorKind::AssignToImmutable,
            variable: Some(String::from_str(name)),
            file: String::from_str(file),
            line: at.line,
            column: at.column,
            origin: None,
            message: framed("cannot assign to immutable variable '", name, "'"),
            note: None,
            help: Some(framed("Consider declaring with 'let mut ", name, "'")),
        }
    }

    /// Reports an assignment to `name` while `borrows` borrows of it exist.
    pub fn mutate_while_borrowed(file: &str, at: Location, name: &str, borrows: usize) -> (d:
        Diagnostic)
        ensures
            d@ == mutate_while_borrowed(file@, at, name@, borrows),
    {
        let mut note = decimal_string(borrows);
        note.append(" active borrow(s) exist");
        Diagnostic {
            kind: ErrorKind::MutateWhileBorrowed,
            variable: Some(String::from_str(name)),
            file: String::from_str(file),
            line: at.line,
            column: at.column,
            origin: None,
            message: framed("cannot move '", name, "' while borrowed"),
            note: Some(note),
            help: None,
        }
    }

    /// Reports a move of `name` while a borrow of it exists.
    pub fn move_while_borrowed(file: &str, at: Location, name: &str) -> (d: Diagnostic)
        ensures
            d@ == move_while_borrowed(file@, at, name@),
    {
        Diagnostic {
            kind: ErrorKind::MoveWhileBorrowed,
            variable: Some(String::from_str(name)),
            file: String::from_str(file),
            line: at.line,
            column: at.column,
            origin: None,
            message: framed("cannot move '", name, "' while borrowed"),
            note: None,
            help: None,
        }
    }

    /// Reports a `break` outside of any loop.
    pub fn break_outside_loop(file: &str, at: Location) -> (d: Diagnostic)
        ensures
            d@ == break_outside_loop(file@, at),
    {
        Diagnostic {
            kind: ErrorKind::BreakOutsideLoop,
            variable: None,
            file: String::from_str(file),
            line: at.line,
            column: at.column,
            origin: None,
            message: String::from_str("'break' outside of loop"),
            note: None,
            help: None,
        }
    }

    /// Reports a `continue` outside of any loop.
    pub fn continue_outside_loop(file: &str, at: Location) -> (d: Diagnostic)
        ensures
            d@ == continue_outside_loop(file@, at),
    {
        Diagnostic {
            kind: ErrorKind::ContinueOutsideLoop,
            variable: None,
            file: String::from_str(file),
            line: at.line,
            column: at.column,
            origin: None,
            message: String::from_str("'continue' outside of loop"),
            note: None,
            help: None,
        }
    }

    /// The diagnostic as the text that a user reads.
    pub fn render(&self) -> (text: String)
        ensures
            text@ == rendered(self@),
    {
        let line = decimal_string(self.line);
        let column = decimal_string(self.column);
        let mut text = self.file.clone();
        text.append(":");
        text.append(line.as_str());
        text.append(":");
        text.append(column.as_str());
        text.append(": Error: ");
        text.append(self.message.as_str());
        let indented = match self.kind {
            ErrorKind::UseOfMovedValue => true,
            _ => false,
        };
        match &self.note {
            Some(note) => {
                text.append(if indented { "\n    " } else { "\n" });
                text.append("Note: ");
                text.append(note.as_str());
                assert(text@ =~= self.file@ + ":"@ + decimal(self.line as nat) + ":"@ + decimal(
                    self.column as nat,
                ) + ": Error: "@ + self.message@ + note_line(self.kind, text_of(self.note)));
            },
            None => {
                assert(text@ =~= self.file@ + ":"@ + decimal(self.line as nat) + ":"@ + decimal(
                    self.column as nat,
                ) + ": Error: "@ + self.message@ + note_line(self.kind, text_of(self.note)));
            },
        }
        match &self.help {
            Some(help) => {
                text.append(if indented { "\n    " } else { "\n" });
                text.append("Help: ");
                text.append(help.as_str());
                assert(text@ =~= rendered(self@));
            },
            None => {
                assert(text@ =~= rendered(self@));
            },
        }
        text
    }
}

} // verus!
