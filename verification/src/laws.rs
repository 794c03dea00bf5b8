//! The laws of the ownership discipline, proved of the rules in
//! [`crate::rules`]. The analyzer is held to those rules by its contracts,
//! so each law holds of every run of it.

use vstd::prelude::*;
use crate::ast::{AstNode, Location};
use crate::diagnostic::{
    assign_to_immutable, move_while_borrowed, mutate_while_borrowed, use_of_moved_value,
};
use crate::invariants::{
    ages, escapes, evolves, held, is_jump_fault, lemma_evolves_exit, lemma_resolve,
    lemma_resolve_by_domains, lemma_visit, lemma_visit_each, shadowed,
};
use crate::model::{
    declare, leave, lookup, replace, AnalyzerModel, Frame, Outcome, VariableModel,
};
use crate::rules::{infer_type, visit, visit_each};

verus! {

/// Tells whether `node` is a plain read of the variable `x`.
pub open spec fn is_read_of(node: AstNode, x: Seq<char>) -> bool {
    node matches AstNode::Identifier { name, .. } && name@ == x
}

/// Tells whether `node` is a plain read of the variable `x` at `at`.
pub open spec fn is_read_at(node: AstNode, x: Seq<char>, at: Location) -> bool {
    node matches AstNode::Identifier { name, location } && name@ == x && location == at
}

/// Tells whether `node` is `&x`.
pub open spec fn is_borrow_of(node: AstNode, x: Seq<char>) -> bool {
    node matches AstNode::Reference(inner) && is_read_of(*inner, x)
}

/// Tells whether `node` is an assignment to the variable `x` at `at`.
pub open spec fn is_assignment_at(node: AstNode, x: Seq<char>, at: Location) -> bool {
    node matches AstNode::Assignment { name, location, .. } && name@ == x && location == at
}

/// Tells whether `node` is a literal.
pub open spec fn is_literal(node: AstNode) -> bool {
    node is Number || node is Boolean || node is Character || node is StringLit
}

/// The borrow count after `more` borrows were added to `count`.
pub open spec fn count_after(count: usize, more: nat) -> usize {
    if count + more <= usize::MAX {
        (count + more) as usize
    } else {
        usize::MAX
    }
}

/// The record that a name refers to after its record was replaced, and
/// that of every other name.
pub proof fn lemma_lookup_replace(
    scopes: Seq<Frame>,
    name: Seq<char>,
    v: VariableModel,
    other: Seq<char>,
)
    requires
        lookup(scopes, name) is Some,
    ensures
        lookup(replace(scopes, name, v), name) == Some(v),
        other != name ==> lookup(replace(scopes, name, v), other) == lookup(scopes, other),
        replace(scopes, name, v).len() == scopes.len(),
{
    let after = replace(scopes, name, v);
    lemma_resolve(scopes, name);
    lemma_resolve(scopes, other);
    assert forall|i: int| 0 <= i < scopes.len() implies (#[trigger] scopes[i]).dom().contains(name)
        == after[i].dom().contains(name) by {}
    lemma_resolve_by_domains(scopes, after, name);
    assert forall|i: int| 0 <= i < scopes.len() implies (#[trigger] scopes[i]).dom().contains(other)
        == after[i].dom().contains(other) by {}
    lemma_resolve_by_domains(scopes, after, other);
}

/// The record that a name refers to after it was declared, and that of
/// every other name.
pub proof fn lemma_lookup_declare(
    scopes: Seq<Frame>,
    name: Seq<char>,
    v: VariableModel,
    other: Seq<char>,
)
    requires
        scopes.len() > 0,
    ensures
        lookup(declare(scopes, name, v), name) == Some(v),
        other != name ==> lookup(declare(scopes, name, v), other) == lookup(scopes, other),
{
    let after = declare(scopes, name, v);
    let top = scopes.len() - 1;
    assert(after.last() == scopes.last().insert(name, v));
    assert(after.drop_last() =~= scopes.drop_last());
    if other != name {
        assert forall|i: int| 0 <= i < scopes.len() implies (#[trigger] scopes[i]).dom().contains(
            other,
        ) == after[i].dom().contains(other) by {
            if i == top {
                assert(after[i] == scopes[top].insert(name, v));
            } else {
                assert(after[i] == scopes[i]);
            }
        }
        lemma_resolve_by_domains(scopes, after, other);
        lemma_resolve(scopes, other);
    }
}

/// A variable of a copy type is never consumed: any number of plain reads
/// of it succeed and leave every record as it was, so a variable that was
/// live and unborrowed is so afterwards.
pub proof fn law_copy_reads_change_nothing(s: AnalyzerModel, reads: Seq<AstNode>, x: Seq<char>)
    requires
        s.lookup(x) is Some,
        s.lookup(x).unwrap().is_copy(),
        forall|i: int| 0 <= i < reads.len() ==> is_read_of(#[trigger] reads[i], x),
    ensures
        !visit_each(s, reads, 0).failed(),
        visit_each(s, reads, 0).state.scopes == s.scopes,
        visit_each(s, reads, 0).state.lookup(x) == s.lookup(x),
{
    lemma_copy_reads(s, reads, x, 0);
}

proof fn lemma_copy_reads(s: AnalyzerModel, reads: Seq<AstNode>, x: Seq<char>, from: int)
    requires
        0 <= from,
        s.lookup(x) is Some,
        s.lookup(x).unwrap().is_copy(),
        forall|i: int| 0 <= i < reads.len() ==> is_read_of(#[trigger] reads[i], x),
    ensures
        !visit_each(s, reads, from).failed(),
        visit_each(s, reads, from).state.scopes == s.scopes,
    decreases reads.len() - from,
{
    if from < reads.len() {
        assert(is_read_of(reads[from], x));
        let first = visit(s, reads[from]);
        assert(!first.failed() && first.state.scopes == s.scopes);
        lemma_copy_reads(first.state, reads, x, from + 1);
    }
}

/// A plain read of a variable whose value was moved away is rejected, and
/// the diagnostic names the place where the variable was declared.
pub proof fn law_moved_value_is_rejected(s: AnalyzerModel, read: AstNode, x: Seq<char>, at: Location)
    requires
        is_read_at(read, x, at),
        s.lookup(x) is Some,
        !s.lookup(x).unwrap().is_copy(),
        s.lookup(x).unwrap().consumed,
    ensures
        visit(s, read).error == Some(
            use_of_moved_value(s.file, at, x, s.lookup(x).unwrap().declared_at),
        ),
{
}

/// A plain read that succeeds moves the value of a variable that is not of
/// a copy type: the variable is consumed afterwards, and nothing else of
/// its record has changed.
pub proof fn law_read_moves(s: AnalyzerModel, read: AstNode, x: Seq<char>)
    requires
        is_read_of(read, x),
        s.lookup(x) is Some,
        !s.lookup(x).unwrap().is_copy(),
        !visit(s, read).failed(),
    ensures
        s.lookup(x).unwrap().live_unborrowed(),
        visit(s, read).state.lookup(x) == Some(s.lookup(x).unwrap().moved()),
{
    lemma_lookup_replace(s.scopes, x, s.lookup(x).unwrap().moved(), x);
}

/// After `let y = x;` has been accepted, where `x` is not of a copy type
/// and `y` is another name, a plain read of `x` is rejected as a use of a
/// moved value, and the diagnostic names the place where `x` was declared.
pub proof fn law_use_after_let(
    s: AnalyzerModel,
    binding: AstNode,
    again: AstNode,
    x: Seq<char>,
    at: Location,
)
    requires
        s.scopes.len() > 0,
        s.lookup(x) is Some,
        !s.lookup(x).unwrap().is_copy(),
        binding matches AstNode::LetBinding { name, value, .. } && name@ != x && is_read_of(
            *value,
            x,
        ),
        is_read_at(again, x, at),
        !visit(s, binding).failed(),
    ensures
        visit(visit(s, binding).state, again).error == Some(
            use_of_moved_value(s.file, at, x, s.lookup(x).unwrap().declared_at),
        ),
{
    match binding {
        AstNode::LetBinding { mutable, name, type_annotation, value, location } => {
            let start = s.at(location);
            let bound = visit(start, *value);
            law_read_moves(start, *value, x);
            lemma_lookup_replace(start.scopes, x, start.lookup(x).unwrap().moved(), x);
            let ty = match type_annotation {
                Some(t) => t@,
                None => infer_type(bound.state.scopes, *value),
            };
            lemma_lookup_declare(
                bound.state.scopes,
                name@,
                VariableModel::fresh(mutable, ty, location),
                x,
            );
        },
        _ => {},
    }
}

/// After a call `f(x)` has been accepted, where `x` is not of a copy type,
/// a plain read of `x` is rejected as a use of a moved value, and the
/// diagnostic names the place where `x` was declared.
pub proof fn law_use_after_call(
    s: AnalyzerModel,
    call: AstNode,
    again: AstNode,
    x: Seq<char>,
    at: Location,
)
    requires
        s.lookup(x) is Some,
        !s.lookup(x).unwrap().is_copy(),
        call matches AstNode::Call { args, .. } && args@.len() == 1 && is_read_of(args@[0], x),
        is_read_at(again, x, at),
        !visit(s, call).failed(),
    ensures
        visit(visit(s, call).state, again).error == Some(
            use_of_moved_value(s.file, at, x, s.lookup(x).unwrap().declared_at),
        ),
{
    match call {
        AstNode::Call { args, .. } => {
            let first = visit(s, args@[0]);
            assert(visit_each(s, args@, 0) == visit_each(first.state, args@, 1));
            assert(visit_each(first.state, args@, 1) == Outcome::pass(first.state));
            law_read_moves(s, args@[0], x);
        },
        _ => {},
    }
}

/// `&x` never consumes `x`, and any number of borrows is accepted: each
/// adds one to the borrow count, which stays at the largest `usize` once it
/// has reached it, and nothing else of the record changes.
pub proof fn law_borrows_accumulate(s: AnalyzerModel, borrows: Seq<AstNode>, x: Seq<char>)
    requires
        s.lookup(x) is Some,
        s.lookup(x).unwrap().is_copy() || !s.lookup(x).unwrap().consumed,
        forall|i: int| 0 <= i < borrows.len() ==> is_borrow_of(#[trigger] borrows[i], x),
    ensures
        !visit_each(s, borrows, 0).failed(),
        visit_each(s, borrows, 0).state.lookup(x) == Some(
            VariableModel {
                borrow_count: count_after(s.lookup(x).unwrap().borrow_count, borrows.len()),
                ..s.lookup(x).unwrap()
            },
        ),
        visit_each(s, borrows, 0).state.lookup(x).unwrap().consumed == s.lookup(x).unwrap().consumed,
        visit_each(s, borrows, 0).state.lookup(x).unwrap().borrow_count >= s.lookup(
            x,
        ).unwrap().borrow_count,
{
    lemma_borrows(s, borrows, x, 0);
}

proof fn lemma_borrows(s: AnalyzerModel, borrows: Seq<AstNode>, x: Seq<char>, from: int)
    requires
        0 <= from <= borrows.len(),
        s.lookup(x) is Some,
        s.lookup(x).unwrap().is_copy() || !s.lookup(x).unwrap().consumed,
        forall|i: int| 0 <= i < borrows.len() ==> is_borrow_of(#[trigger] borrows[i], x),
    ensures
        !visit_each(s, borrows, from).failed(),
        visit_each(s, borrows, from).state.lookup(x) == Some(
            VariableModel {
                borrow_count: count_after(
                    s.lookup(x).unwrap().borrow_count,
                    (borrows.len() - from) as nat,
                ),
                ..s.lookup(x).unwrap()
            },
        ),
    decreases borrows.len() - from,
{
    if from < borrows.len() {
        assert(is_borrow_of(borrows[from], x));
        let v = s.lookup(x).unwrap();
        let first = visit(s, borrows[from]);
        match borrows[from] {
            AstNode::Reference(inner) => {
                match *inner {
                    AstNode::Identifier { name, location } => {
                        lemma_lookup_replace(s.at(location).scopes, x, v.borrowed(), x);
                        assert(first.state.lookup(x) == Some(v.borrowed()));
                    },
                    _ => {},
                }
            },
            _ => {},
        }
        lemma_borrows(first.state, borrows, x, from + 1);
    }
}

/// No traversal takes a borrow back or brings a moved value back: of every
/// record in a frame that encloses the innermost one, the borrow count
/// after visiting any node is at least what it was, a value that was moved
/// away is still moved away, and what the declaration fixed is as it was.
pub proof fn law_enclosing_records_only_age(
    s: AnalyzerModel,
    node: AstNode,
    i: int,
    x: Seq<char>,
)
    requires
        0 <= i < s.scopes.len() - 1,
        s.scopes[i].dom().contains(x),
    ensures
        i < visit(s, node).state.scopes.len(),
        visit(s, node).state.scopes[i].dom().contains(x),
        ages(s.scopes[i][x], visit(s, node).state.scopes[i][x]),
{
    lemma_visit(s, node);
    reveal(evolves);
}

/// A block that is accepted leaves the stack as deep as it found it, every
/// frame with the names it had, and each record only aged: the borrow
/// counts are at least what they were and no moved value has come back.
pub proof fn law_block_holds_frames(s: AnalyzerModel, block: AstNode, i: int, x: Seq<char>)
    requires
        block is Block,
        !visit(s, block).failed(),
        0 <= i < s.scopes.len(),
    ensures
        visit(s, block).state.scopes.len() == s.scopes.len(),
        visit(s, block).state.scopes[i].dom().contains(x) == s.scopes[i].dom().contains(x),
        s.scopes[i].dom().contains(x) ==> ages(
            s.scopes[i][x],
            visit(s, block).state.scopes[i][x],
        ),
{
    match block {
        AstNode::Block(statements) => {
            let inner = visit_each(s.entered(), statements@, 0);
            lemma_visit_each(s.entered(), statements@, 0);
            lemma_evolves_exit(s.scopes, inner.state.scopes);
            reveal(held);
        },
        _ => {},
    }
}

/// An assignment to a variable that was declared without `mut` fails with
/// [`crate::diagnostic::ErrorKind::AssignToImmutable`], whatever the type
/// and the state of the variable and whatever is assigned.
pub proof fn law_assign_to_immutable(s: AnalyzerModel, node: AstNode, x: Seq<char>, at: Location)
    requires
        is_assignment_at(node, x, at),
        s.lookup(x) is Some,
        !s.lookup(x).unwrap().mutable,
    ensures
        visit(s, node).error == Some(assign_to_immutable(s.file, at, x)),
{
}

/// An assignment to an element of an array that was declared without `mut`
/// fails in the same way.
pub proof fn law_assign_element_of_immutable(
    s: AnalyzerModel,
    node: AstNode,
    x: Seq<char>,
    at: Location,
)
    requires
        node matches AstNode::ArrayAssignment { array, location, .. } && array@ == x && location
            == at,
        s.lookup(x) is Some,
        !s.lookup(x).unwrap().mutable,
    ensures
        visit(s, node).error == Some(assign_to_immutable(s.file, at, x)),
{
}

/// An assignment to a variable of which a borrow exists fails. Where the
/// variable is mutable and its value was not moved away, the diagnostic is
/// that of [`crate::diagnostic::ErrorKind::MutateWhileBorrowed`], with the
/// number of borrows.
pub proof fn law_assign_while_borrowed(
    s: AnalyzerModel,
    node: AstNode,
    x: Seq<char>,
    at: Location,
)
    requires
        is_assignment_at(node, x, at),
        s.lookup(x) is Some,
        s.lookup(x).unwrap().borrow_count > 0,
    ensures
        visit(s, node).failed(),
        s.lookup(x).unwrap().mutable && (s.lookup(x).unwrap().is_copy() || !s.lookup(
            x,
        ).unwrap().consumed) ==> visit(s, node).error == Some(
            mutate_while_borrowed(s.file, at, x, s.lookup(x).unwrap().borrow_count),
        ),
{
}

/// A plain read of a variable that is not of a copy type and of which a
/// borrow exists fails: the value cannot be moved. Where the value was not
/// moved away before, the diagnostic is that of
/// [`crate::diagnostic::ErrorKind::MoveWhileBorrowed`].
pub proof fn law_move_while_borrowed(s: AnalyzerModel, node: AstNode, x: Seq<char>, at: Location)
    requires
        is_read_at(node, x, at),
        s.lookup(x) is Some,
        !s.lookup(x).unwrap().is_copy(),
        s.lookup(x).unwrap().borrow_count > 0,
    ensures
        visit(s, node).failed(),
        !s.lookup(x).unwrap().consumed ==> visit(s, node).error == Some(
            move_while_borrowed(s.file, at, x),
        ),
{
}

/// A borrow is never given back: once `&x` has been accepted, where `x` is
/// not of a copy type, a plain read of `x` fails with
/// [`crate::diagnostic::ErrorKind::MoveWhileBorrowed`], whether or not the
/// reference is ever used.
pub proof fn law_move_after_borrow(
    s: AnalyzerModel,
    borrowing: AstNode,
    moving: AstNode,
    x: Seq<char>,
    at: Location,
)
    requires
        is_borrow_of(borrowing, x),
        is_read_at(moving, x, at),
        s.lookup(x) is Some,
        !s.lookup(x).unwrap().is_copy(),
        !visit(s, borrowing).failed(),
    ensures
        visit(visit(s, borrowing).state, moving).error == Some(move_while_borrowed(s.file, at, x)),
{
    let v = s.lookup(x).unwrap();
    match borrowing {
        AstNode::Reference(inner) => {
            match *inner {
                AstNode::Identifier { name, location } => {
                    lemma_lookup_replace(s.at(location).scopes, x, v.borrowed(), x);
                },
                _ => {},
            }
        },
        _ => {},
    }
}

/// Outside of a loop, a node that holds a `break` or `continue` which none
/// of its own loops encloses is rejected.
pub proof fn law_jump_outside_loop_fails(s: AnalyzerModel, node: AstNode)
    requires
        !s.in_loop,
        escapes(node),
    ensures
        visit(s, node).failed(),
{
    lemma_visit(s, node);
}

/// Inside a loop, and for a node each of whose `break` and `continue` is
/// enclosed by one of its own loops, no jump is ever reported: whatever the
/// outcome, it is not one of the two diagnostics for a jump outside of a
/// loop.
pub proof fn law_jump_inside_loop_passes(s: AnalyzerModel, node: AstNode)
    requires
        s.in_loop || !escapes(node),
    ensures
        !is_jump_fault(visit(s, node).error),
{
    lemma_visit(s, node);
}

/// A visit that succeeds leaves the stack as deep as it found it and the
/// loop flag as it found it; one that fails has discarded no frame.
pub proof fn law_visit_is_balanced(s: AnalyzerModel, node: AstNode)
    ensures
        visit(s, node).state.file == s.file,
        visit(s, node).state.scopes.len() >= s.scopes.len(),
        !visit(s, node).failed() ==> visit(s, node).state.scopes.len() == s.scopes.len(),
        !visit(s, node).failed() ==> visit(s, node).state.in_loop == s.in_loop,
{
    lemma_visit(s, node);
    reveal(evolves);
}

/// A record that is hidden by an inner declaration of the same name is not
/// touched, whatever is visited: every use of the name refers to the inner
/// variable.
pub proof fn law_shadowed_record_is_untouched(
    s: AnalyzerModel,
    node: AstNode,
    i: int,
    j: int,
    x: Seq<char>,
)
    requires
        0 <= i < j < s.scopes.len(),
        s.scopes[i].dom().contains(x),
        s.scopes[j].dom().contains(x),
    ensures
        i < visit(s, node).state.scopes.len(),
        visit(s, node).state.scopes[i].dom().contains(x),
        visit(s, node).state.scopes[i][x] == s.scopes[i][x],
{
    lemma_visit(s, node);
    reveal(evolves);
}

/// Shadowing: a block that begins by declaring `x` with a literal value
/// works on its own `x`. Once the block has been accepted, `x` refers to
/// what it referred to before the block, and that record is unchanged.
pub proof fn law_shadowing_restores_outer(s: AnalyzerModel, block: AstNode, x: Seq<char>)
    requires
        s.scopes.len() > 0,
        block matches AstNode::Block(statements) && statements@.len() > 0 && (
        statements@[0] matches AstNode::LetBinding { name, value, .. } && name@ == x && is_literal(
            *value,
        )),
        !visit(s, block).failed(),
    ensures
        visit(s, block).state.scopes.len() == s.scopes.len(),
        visit(s, block).state.lookup(x) == s.lookup(x),
{
    match block {
        AstNode::Block(statements) => {
            let opened = s.entered();
            let first = visit(opened, statements@[0]);
            match statements@[0] {
                AstNode::LetBinding { mutable, name, type_annotation, value, location } => {
                    assert(visit(opened.at(location), *value) == Outcome::pass(
                        opened.at(location),
                    ));
                    assert(!first.failed());
                    assert(first.state.scopes[s.scopes.len() as int].dom().contains(x));
                    assert(first.state.scopes.len() == s.scopes.len() + 1);
                    assert forall|i: int| 0 <= i < s.scopes.len() implies first.state.scopes[i]
                        == s.scopes[i] by {}
                },
                _ => {},
            }
            let inner = visit_each(first.state, statements@, 1);
            assert(inner == visit_each(opened, statements@, 0));
            lemma_visit_each(first.state, statements@, 1);
            let after = visit(s, block).state.scopes;
            assert(after == leave(inner.state.scopes));
            reveal(evolves);
            assert forall|i: int| 0 <= i < s.scopes.len() implies (#[trigger] s.scopes[i]).dom().contains(
                x,
            ) == after[i].dom().contains(x) && (s.scopes[i].dom().contains(x) ==> after[i][x]
                == s.scopes[i][x]) by {
                assert(first.state.scopes[i] == s.scopes[i]);
                assert(after[i] == inner.state.scopes[i]);
                if first.state.scopes[i].dom().contains(x) {
                    assert(first.state.scopes[s.scopes.len() as int].dom().contains(x));
                    assert(shadowed(first.state.scopes, i, x));
                    assert(inner.state.scopes[i].dom().contains(x));
                    assert(inner.state.scopes[i][x] == first.state.scopes[i][x]);
                } else {
                    if inner.state.scopes[i].dom().contains(x) {
                        assert(first.state.scopes[i].dom().contains(x));
                    }
                }
            }
            lemma_resolve_by_domains(s.scopes, after, x);
            lemma_resolve(s.scopes, x);
        },
        _ => {},
    }
}

} // verus!
