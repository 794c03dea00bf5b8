//! The mathematical model of the analyzer's state.
//!
//! A variable is a record; a scope frame is a finite map from names to
//! records; the scope stack is a sequence of frames, innermost last. Every
//! rule of the analysis is a function on these values. The executable types
//! are held to this model by their views.
//!
//! Each variable is in one of three states: live and unborrowed, live and
//! borrowed (`borrow_count > 0`), or consumed. Whether a read consumes it is
//! decided by [`is_copy_type`] alone.

use vstd::prelude::*;
use crate::ast::Location;
use crate::diagnostic::{
    assign_to_immutable, break_outside_loop, continue_outside_loop, move_while_borrowed,
    mutate_while_borrowed, undefined_variable, use_of_moved_value, DiagnosticModel,
};

verus! {

/// What the analyzer knows of one declared variable.
pub struct VariableModel {
    /// Set once the value has been moved away.
    pub consumed: bool,
    /// The number of references taken with `&`. It never goes down, and
    /// stays at the largest `usize` once it has reached it.
    pub borrow_count: usize,
    /// Fixed when the variable is declared.
    pub mutable: bool,
    /// Where the variable was declared.
    pub declared_at: Location,
    /// The annotated or inferred type name.
    pub semantic_type: Seq<char>,
}

/// One scope frame: the variables that one block declares.
pub type Frame = Map<Seq<char>, VariableModel>;

/// Tells whether values of the type named `ty` may be read any number of
/// times. These are the scalars `int`, `bool` and `char`; every other type,
/// `string` included, names a resource with a single owner.
pub open spec fn is_copy_type(ty: Seq<char>) -> bool {
    ty == "int"@ || ty == "bool"@ || ty == "char"@
}

impl VariableModel {
    /// The record of a variable that has just been declared.
    pub open spec fn fresh(mutable: bool, ty: Seq<char>, at: Location) -> VariableModel {
        VariableModel {
            consumed: false,
            borrow_count: 0,
            mutable,
            declared_at: at,
            semantic_type: ty,
        }
    }

    /// Tells whether a read leaves the variable as it is.
    pub open spec fn is_copy(self) -> bool {
        is_copy_type(self.semantic_type)
    }

    /// The state in which a variable is declared.
    pub open spec fn live_unborrowed(self) -> bool {
        !self.consumed && self.borrow_count == 0
    }

    /// The record after its value was moved away.
    pub open spec fn moved(self) -> VariableModel {
        VariableModel { consumed: true, ..self }
    }

    /// The record after one more reference to it was taken.
    pub open spec fn borrowed(self) -> VariableModel {
        VariableModel {
            borrow_count: if self.borrow_count < usize::MAX {
                (self.borrow_count + 1) as usize
            } else {
                self.borrow_count
            },
            ..self
        }
    }
}

/// The index of the innermost frame that declares `name`.
pub open spec fn resolve(scopes: Seq<Frame>, name: Seq<char>) -> Option<int>
    decreases scopes.len(),
{
    if scopes.len() == 0 {
        None
    } else if scopes.last().dom().contains(name) {
        Some(scopes.len() - 1)
    } else {
        resolve(scopes.drop_last(), name)
    }
}

/// The record that `name` refers to: that of the innermost frame that
/// declares it.
pub open spec fn lookup(scopes: Seq<Frame>, name: Seq<char>) -> Option<VariableModel> {
    match resolve(scopes, name) {
        Some(i) => Some(scopes[i][name]),
        None => None,
    }
}

/// The stack after `name` was declared in the innermost frame. An entry of
/// that frame with the same name is replaced; outer frames are not touched.
pub open spec fn declare(scopes: Seq<Frame>, name: Seq<char>, v: VariableModel) -> Seq<Frame> {
    if scopes.len() == 0 {
        scopes
    } else {
        scopes.update(scopes.len() - 1, scopes.last().insert(name, v))
    }
}

/// The stack after the record that `name` refers to became `v`.
pub open spec fn replace(scopes: Seq<Frame>, name: Seq<char>, v: VariableModel) -> Seq<Frame> {
    match resolve(scopes, name) {
        Some(i) => scopes.update(i, scopes[i].insert(name, v)),
        None => scopes,
    }
}

/// The stack after the value of `name` was moved away.
pub open spec fn consume(scopes: Seq<Frame>, name: Seq<char>) -> Seq<Frame> {
    match lookup(scopes, name) {
        Some(v) => replace(scopes, name, v.moved()),
        None => scopes,
    }
}

/// The stack after a reference to `name` was taken.
pub open spec fn borrow(scopes: Seq<Frame>, name: Seq<char>) -> Seq<Frame> {
    match lookup(scopes, name) {
        Some(v) => replace(scopes, name, v.borrowed()),
        None => scopes,
    }
}

/// The stack without its innermost frame.
pub open spec fn leave(scopes: Seq<Frame>) -> Seq<Frame> {
    if scopes.len() == 0 {
        scopes
    } else {
        scopes.drop_last()
    }
}

/// The whole state of an analysis.
pub struct AnalyzerModel {
    /// The name of the source file, for diagnostics.
    pub file: Seq<char>,
    /// The scope stack, innermost frame last.
    pub scopes: Seq<Frame>,
    /// The position of the statement or name visited last.
    pub line: usize,
    pub column: usize,
    /// Whether the node being visited stands inside a loop body.
    pub in_loop: bool,
}

/// What visiting a node gives: the state it left behind and, where a rule
/// was broken, the diagnostic. After a failure the state is that of the
/// moment at which the rule was found broken.
pub struct Outcome {
    pub state: AnalyzerModel,
    pub error: Option<DiagnosticModel>,
}

impl Outcome {
    pub open spec fn pass(state: AnalyzerModel) -> Outcome {
        Outcome { state, error: None }
    }

    pub open spec fn fail(state: AnalyzerModel, d: DiagnosticModel) -> Outcome {
        Outcome { state, error: Some(d) }
    }

    pub open spec fn failed(self) -> bool {
        self.error is Some
    }
}

impl AnalyzerModel {
    /// The state in which an analysis of `file` starts: one empty frame,
    /// position 1:1, outside of any loop.
    pub open spec fn initial(file: Seq<char>) -> AnalyzerModel {
        AnalyzerModel { file, scopes: seq![Map::empty()], line: 1, column: 1, in_loop: false }
    }

    /// The current position.
    pub open spec fn here(self) -> Location {
        Location { line: self.line, column: self.column }
    }

    /// The state with the current position moved to `at`.
    pub open spec fn at(self, at: Location) -> AnalyzerModel {
        AnalyzerModel { line: at.line, column: at.column, ..self }
    }

    /// The state with the loop flag set to `flag`.
    pub open spec fn looping(self, flag: bool) -> AnalyzerModel {
        AnalyzerModel { in_loop: flag, ..self }
    }

    /// The state with the scope stack `scopes`.
    pub open spec fn with_scopes(self, scopes: Seq<Frame>) -> AnalyzerModel {
        AnalyzerModel { scopes, ..self }
    }

    /// The state after a block was entered.
    pub open spec fn entered(self) -> AnalyzerModel {
        self.with_scopes(self.scopes.push(Map::empty()))
    }

    /// The state after the innermost block was left.
    pub open spec fn left(self) -> AnalyzerModel {
        self.with_scopes(leave(self.scopes))
    }

    /// The state after `name` was declared in the innermost frame.
    pub open spec fn declared(
        self,
        name: Seq<char>,
        mutable: bool,
        ty: Seq<char>,
        at: Location,
    ) -> AnalyzerModel {
        self.with_scopes(declare(self.scopes, name, VariableModel::fresh(mutable, ty, at)))
    }

    /// The record that `name` refers to.
    pub open spec fn lookup(self, name: Seq<char>) -> Option<VariableModel> {
        lookup(self.scopes, name)
    }

    /// Tells whether `name` is declared with a type whose values are copied.
    pub open spec fn is_copy(self, name: Seq<char>) -> bool {
        match self.lookup(name) {
            Some(v) => v.is_copy(),
            None => false,
        }
    }

    /// The type name that `name` was declared with.
    pub open spec fn type_of(self, name: Seq<char>) -> Option<Seq<char>> {
        match self.lookup(name) {
            Some(v) => Some(v.semantic_type),
            None => None,
        }
    }

    /// The diagnostic owed where `name` is not declared.
    pub open spec fn undefined_fault(self, name: Seq<char>) -> Option<DiagnosticModel> {
        match self.lookup(name) {
            Some(_) => None,
            None => Some(undefined_variable(self.file, self.here(), name)),
        }
    }

    /// The diagnostic owed where the value of `name` was moved away. A
    /// variable of a copy type is never in that state.
    pub open spec fn moved_fault(self, name: Seq<char>) -> Option<DiagnosticModel> {
        match self.lookup(name) {
            Some(v) => if !v.is_copy() && v.consumed {
                Some(use_of_moved_value(self.file, self.here(), name, v.declared_at))
            } else {
                None
            },
            None => None,
        }
    }

    /// The diagnostic owed where `name` was declared without `mut`.
    pub open spec fn immutable_fault(self, name: Seq<char>) -> Option<DiagnosticModel> {
        match self.lookup(name) {
            Some(v) => if !v.mutable {
                Some(assign_to_immutable(self.file, self.here(), name))
            } else {
                None
            },
            None => None,
        }
    }

    /// The diagnostic owed to an assignment where a borrow of `name` exists.
    pub open spec fn borrowed_fault(self, name: Seq<char>) -> Option<DiagnosticModel> {
        match self.lookup(name) {
            Some(v) => if v.borrow_count > 0 {
                Some(mutate_while_borrowed(self.file, self.here(), name, v.borrow_count))
            } else {
                None
            },
            None => None,
        }
    }

    /// Moving the value of `name` away. Nothing happens to a variable of a
    /// copy type or to an undeclared name; a borrowed variable cannot be
    /// moved.
    pub open spec fn consume(self, name: Seq<char>) -> Outcome {
        match self.lookup(name) {
            Some(v) => if v.is_copy() {
                Outcome::pass(self)
            } else if v.borrow_count > 0 {
                Outcome::fail(self, move_while_borrowed(self.file, self.here(), name))
            } else {
                Outcome::pass(self.with_scopes(consume(self.scopes, name)))
            },
            None => Outcome::pass(self),
        }
    }

    /// Taking a reference to `name`.
    pub open spec fn borrow(self, name: Seq<char>) -> AnalyzerModel {
        self.with_scopes(borrow(self.scopes, name))
    }

    /// The first diagnostic that an assignment to `name` is owed: the name
    /// must be declared, mutable and not moved away, in this order; with
    /// `whole` set, that is for an assignment to the variable itself rather
    /// than to one of its elements, no borrow of it may exist.
    pub open spec fn assign_fault(self, name: Seq<char>, whole: bool) -> Option<DiagnosticModel> {
        if self.undefined_fault(name) is Some {
            self.undefined_fault(name)
        } else if self.immutable_fault(name) is Some {
            self.immutable_fault(name)
        } else if self.moved_fault(name) is Some {
            self.moved_fault(name)
        } else if whole {
            self.borrowed_fault(name)
        } else {
            None
        }
    }

    /// A plain read of `name` at `at`: the name must be declared and its
    /// value not moved away; the read then moves the value, unless its type
    /// is a copy type.
    pub open spec fn read(self, name: Seq<char>, at: Location) -> Outcome {
        let s = self.at(at);
        if s.undefined_fault(name) is Some {
            Outcome { state: s, error: s.undefined_fault(name) }
        } else if s.moved_fault(name) is Some {
            Outcome { state: s, error: s.moved_fault(name) }
        } else {
            s.consume(name)
        }
    }

    /// A read of `name` under `&` at `at`: the name must be declared and its
    /// value not moved away; the borrow is counted and the value stays.
    pub open spec fn reference(self, name: Seq<char>, at: Location) -> Outcome {
        let s = self.at(at);
        if s.undefined_fault(name) is Some {
            Outcome { state: s, error: s.undefined_fault(name) }
        } else if s.moved_fault(name) is Some {
            Outcome { state: s, error: s.moved_fault(name) }
        } else {
            Outcome::pass(s.borrow(name))
        }
    }

    /// A `break` or `continue`: legal inside a loop only.
    pub open spec fn jump(self, is_break: bool) -> Outcome {
        if self.in_loop {
            Outcome::pass(self)
        } else if is_break {
            Outcome::fail(self, break_outside_loop(self.file, self.here()))
        } else {
            Outcome::fail(self, continue_outside_loop(self.file, self.here()))
        }
    }
}

} // verus!
