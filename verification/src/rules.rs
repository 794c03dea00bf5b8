//! The rules of the analysis, as functions on the model.
//!
//! [`visit`] says, for every node and every state, what the traversal leaves
//! behind and which diagnostic it returns. The traversal is fail-fast: the
//! first broken rule ends it.
//!
//! The order within each construct is that of evaluation: a condition before
//! the branches, an iterator before the loop variable, a matched value
//! before the arms, arguments from left to right.

use vstd::prelude::*;
use crate::ast::{AstNode, Location, MatchArm, Parameter};
use crate::diagnostic::decimal;
use crate::model::{lookup, AnalyzerModel, Frame, Outcome};

verus! {

/// The type name inferred for the expression `expr`.
///
/// A literal has the type of its kind; a name has the type it was declared
/// with; an operation has the type of its left operand; an array literal of
/// `n` elements has the type `[T; n]`, where `T` is the type of its first
/// element, and `[int; 0]` where it is empty. Anything else is `unknown`.
pub open spec fn infer_type(scopes: Seq<Frame>, expr: AstNode) -> Seq<char>
    decreases expr,
{
    match expr {
        AstNode::Number(_) => "int"@,
        AstNode::Boolean(_) => "bool"@,
        AstNode::Character(_) => "char"@,
        AstNode::StringLit(_) => "string"@,
        AstNode::Identifier { name, .. } => match lookup(scopes, name@) {
            Some(v) => v.semantic_type,
            None => "unknown"@,
        },
        AstNode::BinaryOp { left, .. } => infer_type(scopes, *left),
        AstNode::ArrayLit(elements) => if elements@.len() == 0 {
            "[int; 0]"@
        } else {
            "["@ + infer_type(scopes, elements@[0]) + "; "@ + decimal(elements@.len()) + "]"@
        },
        _ => "unknown"@,
    }
}

/// The position given to function parameters, which have none of their own.
pub open spec fn nowhere() -> Location {
    Location { line: 0, column: 0 }
}

/// The state after the parameters from index `from` on were declared, each
/// with its own type and mutability.
pub open spec fn declare_params(s: AnalyzerModel, params: Seq<Parameter>, from: int) -> AnalyzerModel
    decreases params.len() - from,
{
    if 0 <= from < params.len() {
        let p = params[from];
        declare_params(
            s.declared(p.name@, p.is_mutable, p.param_type@, nowhere()),
            params,
            from + 1,
        )
    } else {
        s
    }
}

/// What visiting `node` in the state `s` gives.
pub open spec fn visit(s: AnalyzerModel, node: AstNode) -> Outcome
    decreases node, 0nat,
{
    match node {
        AstNode::Program(nodes) => visit_each(s, nodes@, 0),
        AstNode::FunctionDef { params, body, .. } => {
            let inner = visit(declare_params(s.entered(), params@, 0), *body);
            if inner.failed() {
                inner
            } else {
                Outcome::pass(inner.state.left())
            }
        },
        AstNode::LetBinding { mutable, name, type_annotation, value, location } => {
            let bound = visit(s.at(location), *value);
            if bound.failed() {
                bound
            } else {
                let ty = match type_annotation {
                    Some(t) => t@,
                    None => infer_type(bound.state.scopes, *value),
                };
                Outcome::pass(bound.state.declared(name@, mutable, ty, location))
            }
        },
        AstNode::Assignment { name, value, location } => {
            let start = s.at(location);
            match start.assign_fault(name@, true) {
                Some(d) => Outcome::fail(start, d),
                None => visit(start, *value),
            }
        },
        AstNode::ArrayAssignment { array, index, value, location } => {
            let start = s.at(location);
            match start.assign_fault(array@, false) {
                Some(d) => Outcome::fail(start, d),
                None => {
                    let first = visit(start, *index);
                    if first.failed() {
                        first
                    } else {
                        visit(first.state, *value)
                    }
                },
            }
        },
        AstNode::Block(statements) => {
            let inner = visit_each(s.entered(), statements@, 0);
            if inner.failed() {
                inner
            } else {
                Outcome::pass(inner.state.left())
            }
        },
        AstNode::If { condition, then_block, else_block } => {
            let tested = visit(s, *condition);
            if tested.failed() {
                tested
            } else {
                let taken = visit_scoped(tested.state, *then_block);
                if taken.failed() {
                    taken
                } else {
                    match else_block {
                        Some(other) => visit_scoped(taken.state, *other),
                        None => taken,
                    }
                }
            }
        },
        AstNode::While { condition, body } => {
            let tested = visit(s, *condition);
            if tested.failed() {
                tested
            } else {
                let inner = visit_scoped(tested.state.looping(true), *body);
                if inner.failed() {
                    inner
                } else {
                    Outcome::pass(inner.state.looping(tested.state.in_loop))
                }
            }
        },
        AstNode::For { variable, iterator, body } => {
            let ranged = visit(s, *iterator);
            if ranged.failed() {
                ranged
            } else {
                let start = ranged.state.entered().declared(
                    variable@,
                    false,
                    "int"@,
                    ranged.state.here(),
                ).looping(true);
                let inner = visit(start, *body);
                if inner.failed() {
                    inner
                } else {
                    Outcome::pass(inner.state.looping(ranged.state.in_loop).left())
                }
            }
        },
        AstNode::Match { value, arms } => {
            let matched = visit(s, *value);
            if matched.failed() {
                matched
            } else {
                visit_arms(matched.state, arms@, 0)
            }
        },
        AstNode::Return(value) => match value {
            Some(v) => visit(s, *v),
            None => Outcome::pass(s),
        },
        AstNode::Break => s.jump(true),
        AstNode::Continue => s.jump(false),
        AstNode::ExpressionStatement(expr) => visit(s, *expr),
        AstNode::BinaryOp { left, right, .. } => {
            let first = visit(s, *left);
            if first.failed() {
                first
            } else {
                visit(first.state, *right)
            }
        },
        AstNode::UnaryOp { operand, .. } => visit(s, *operand),
        AstNode::Identifier { name, location } => s.read(name@, location),
        AstNode::Reference(expr) => match *expr {
            AstNode::Identifier { name, location } => s.reference(name@, location),
            _ => visit(s, *expr),
        },
        AstNode::Call { args, .. } => visit_each(s, args@, 0),
        AstNode::MethodCall { object, args, .. } => {
            let first = visit(s, *object);
            if first.failed() {
                first
            } else {
                visit_each(first.state, args@, 0)
            }
        },
        AstNode::MemberAccess { object, .. } => visit(s, *object),
        AstNode::Index { array, index } => {
            let first = visit(s, *array);
            if first.failed() {
                first
            } else {
                visit(first.state, *index)
            }
        },
        AstNode::ArrayLit(elements) => visit_each(s, elements@, 0),
        AstNode::StructInit { fields, .. } => visit_fields(s, fields@, 0),
        AstNode::EnumValue { value, .. } => match value {
            Some(v) => visit(s, *v),
            None => Outcome::pass(s),
        },
        AstNode::StructDef { .. } => Outcome::pass(s),
        AstNode::EnumDef { .. } => Outcome::pass(s),
        AstNode::ArrayType { .. } => Outcome::pass(s),
        AstNode::Number(_) => Outcome::pass(s),
        AstNode::Boolean(_) => Outcome::pass(s),
        AstNode::Character(_) => Outcome::pass(s),
        AstNode::StringLit(_) => Outcome::pass(s),
    }
}

/// Visiting `node` in a frame of its own, which is discarded afterwards.
pub open spec fn visit_scoped(s: AnalyzerModel, node: AstNode) -> Outcome
    decreases node, 1nat,
{
    let inner = visit(s.entered(), node);
    if inner.failed() {
        inner
    } else {
        Outcome::pass(inner.state.left())
    }
}

/// Visiting the nodes from index `from` on, in order.
pub open spec fn visit_each(s: AnalyzerModel, nodes: Seq<AstNode>, from: int) -> Outcome
    decreases nodes, nodes.len() - from,
{
    if 0 <= from < nodes.len() {
        let first = visit(s, nodes[from]);
        if first.failed() {
            first
        } else {
            visit_each(first.state, nodes, from + 1)
        }
    } else {
        Outcome::pass(s)
    }
}

/// Visiting the values of the field initializers from index `from` on.
pub open spec fn visit_fields(
    s: AnalyzerModel,
    fields: Seq<(String, AstNode)>,
    from: int,
) -> Outcome
    decreases fields, fields.len() - from,
{
    if 0 <= from < fields.len() {
        let first = visit(s, fields[from].1);
        if first.failed() {
            first
        } else {
            visit_fields(first.state, fields, from + 1)
        }
    } else {
        Outcome::pass(s)
    }
}

/// Visiting the bodies of the match arms from index `from` on, each in a
/// frame of its own.
pub open spec fn visit_arms(s: AnalyzerModel, arms: Seq<MatchArm>, from: int) -> Outcome
    decreases arms, arms.len() - from,
{
    if 0 <= from < arms.len() {
        let first = visit_scoped(s, arms[from].body);
        if first.failed() {
            first
        } else {
            visit_arms(first.state, arms, from + 1)
        }
    } else {
        Outcome::pass(s)
    }
}

} // verus!
