//! What every traversal preserves.
//!
//! Three facts hold of visiting any node in any state, and the laws of the
//! analysis rest on them:
//!
//! * the scope stack is balanced: a visit that succeeds leaves as many
//!   frames as it found, and the loop flag as it found it;
//! * the enclosing frames only age: no name is added to or taken from a
//!   frame below the innermost one, no borrow count goes down, no moved
//!   value comes back, and a record hidden by an inner declaration of the
//!   same name does not change at all;
//! * `break` and `continue` are accepted exactly inside loops.

use vstd::prelude::*;
use crate::ast::{AstNode, Location, MatchArm, Parameter};
use crate::diagnostic::{DiagnosticModel, ErrorKind};
use crate::model::{
    declare, leave, lookup, replace, resolve, AnalyzerModel, Frame, Outcome, VariableModel,
};
use crate::rules::{
    declare_params, infer_type, nowhere, visit, visit_arms, visit_each, visit_fields, visit_scoped,
};

verus! {

/// What [`resolve`] finds: the innermost frame that declares the name.
pub proof fn lemma_resolve(scopes: Seq<Frame>, name: Seq<char>)
    ensures
        match resolve(scopes, name) {
            Some(i) => {
                &&& 0 <= i < scopes.len()
                &&& scopes[i].dom().contains(name)
                &&& forall|j: int| i < j < scopes.len() ==> !(#[trigger] scopes[j]).dom().contains(name)
            },
            None => forall|j: int|
                0 <= j < scopes.len() ==> !(#[trigger] scopes[j]).dom().contains(name),
        },
    decreases scopes.len(),
{
    if scopes.len() > 0 && !scopes.last().dom().contains(name) {
        let rest = scopes.drop_last();
        lemma_resolve(rest, name);
        assert forall|j: int| 0 <= j < rest.len() implies rest[j] == scopes[j] by {}
        match resolve(rest, name) {
            Some(i) => {
                assert forall|j: int| i < j < scopes.len() implies !(#[trigger] scopes[j]).dom().contains(
                    name,
                ) by {
                    if j < rest.len() {
                        assert(rest[j] == scopes[j]);
                    }
                }
            },
            None => {
                assert forall|j: int| 0 <= j < scopes.len() implies !(#[trigger] scopes[j]).dom().contains(
                    name,
                ) by {
                    if j < rest.len() {
                        assert(rest[j] == scopes[j]);
                    }
                }
            },
        }
    }
}

/// Two stacks whose frames declare the same names resolve every name to
/// the same frame.
pub proof fn lemma_resolve_by_domains(a: Seq<Frame>, b: Seq<Frame>, name: Seq<char>)
    requires
        a.len() == b.len(),
        forall|i: int|
            0 <= i < a.len() ==> (#[trigger] a[i]).dom().contains(name) == b[i].dom().contains(name),
    ensures
        resolve(a, name) == resolve(b, name),
    decreases a.len(),
{
    if a.len() > 0 {
        assert(a.last() == a[a.len() - 1]);
        assert(b.last() == b[b.len() - 1]);
        let ra = a.drop_last();
        let rb = b.drop_last();
        assert forall|i: int| 0 <= i < ra.len() implies (#[trigger] ra[i]).dom().contains(name)
            == rb[i].dom().contains(name) by {
            assert(ra[i] == a[i]);
            assert(rb[i] == b[i]);
        }
        lemma_resolve_by_domains(ra, rb, name);
    }
}

/// Tells whether `after` can be a later state of the record `before`: what
/// a declaration fixes is the same, the borrow count is no smaller, and a
/// value that was moved away is still moved away.
pub open spec fn ages(before: VariableModel, after: VariableModel) -> bool {
    &&& after.mutable == before.mutable
    &&& after.declared_at == before.declared_at
    &&& after.semantic_type == before.semantic_type
    &&& after.borrow_count >= before.borrow_count
    &&& before.consumed ==> after.consumed
}

/// Tells whether the entry of frame `i` for `name` is hidden by a
/// declaration of the same name in a frame further in.
pub open spec fn shadowed(scopes: Seq<Frame>, i: int, name: Seq<char>) -> bool {
    exists|j: int| i < j < scopes.len() && (#[trigger] scopes[j]).dom().contains(name)
}

/// Tells whether the stack `after` can follow the stack `before` in one
/// traversal: no frame of `before` is gone and none has lost a name; the
/// frames below the innermost one of `before` declare the names they
/// declared, each record has only aged, and a shadowed record is unchanged.
#[verifier::opaque]
pub open spec fn evolves(before: Seq<Frame>, after: Seq<Frame>) -> bool {
    &&& before.len() <= after.len()
    &&& forall|i: int, n: Seq<char>|
        0 <= i < before.len() && before[i].dom().contains(n) ==> #[trigger] after[i].dom().contains(n)
    &&& forall|i: int, n: Seq<char>|
        0 <= i < before.len() - 1 && #[trigger] after[i].dom().contains(n) ==> before[i].dom().contains(
            n,
        )
    &&& forall|i: int, n: Seq<char>|
        0 <= i < before.len() - 1 && before[i].dom().contains(n) ==> ages(
            before[i][n],
            #[trigger] after[i][n],
        )
    &&& forall|i: int, n: Seq<char>|
        0 <= i < before.len() - 1 && before[i].dom().contains(n) && shadowed(before, i, n)
            ==> #[trigger] after[i][n] == before[i][n]
}

/// A stack follows itself.
pub proof fn lemma_evolves_refl(a: Seq<Frame>)
    ensures
        evolves(a, a),
{
    reveal(evolves);
}

/// What follows a stack that follows `a` follows `a`.
pub proof fn lemma_evolves_trans(a: Seq<Frame>, b: Seq<Frame>, c: Seq<Frame>)
    requires
        evolves(a, b),
        evolves(b, c),
    ensures
        evolves(a, c),
{
    reveal(evolves);
    assert forall|i: int, n: Seq<char>|
        0 <= i < a.len() && a[i].dom().contains(n) implies #[trigger] c[i].dom().contains(n) by {
        assert(b[i].dom().contains(n));
    }
    assert forall|i: int, n: Seq<char>|
        0 <= i < a.len() - 1 && #[trigger] c[i].dom().contains(n) implies a[i].dom().contains(n) by {
        assert(b[i].dom().contains(n));
    }
    assert forall|i: int, n: Seq<char>|
        0 <= i < a.len() - 1 && a[i].dom().contains(n) implies ages(a[i][n], #[trigger] c[i][n]) by {
        assert(b[i].dom().contains(n));
        assert(ages(a[i][n], b[i][n]));
        assert(ages(b[i][n], c[i][n]));
    }
    assert forall|i: int, n: Seq<char>|
        0 <= i < a.len() - 1 && a[i].dom().contains(n) && shadowed(a, i, n) implies #[trigger] c[i][n]
            == a[i][n] by {
        assert(b[i].dom().contains(n));
        assert(b[i][n] == a[i][n]);
        let j = choose|j: int| i < j < a.len() && (#[trigger] a[j]).dom().contains(n);
        assert(b[j].dom().contains(n));
        assert(shadowed(b, i, n));
    }
}

/// Entering a block leaves every frame as it is.
pub proof fn lemma_evolves_enter(a: Seq<Frame>)
    ensures
        evolves(a, a.push(Map::empty())),
{
    reveal(evolves);
}

/// A declaration touches the innermost frame only.
pub proof fn lemma_evolves_declare(a: Seq<Frame>, name: Seq<char>, v: VariableModel)
    ensures
        evolves(a, declare(a, name, v)),
        declare(a, name, v).len() == a.len(),
{
    reveal(evolves);
}

/// A record that ages in place keeps every frame's names; it is never a
/// shadowed one, since a name refers to the innermost frame that has it.
pub proof fn lemma_evolves_replace(a: Seq<Frame>, name: Seq<char>, v: VariableModel)
    requires
        lookup(a, name) is Some ==> ages(lookup(a, name).unwrap(), v),
    ensures
        evolves(a, replace(a, name, v)),
        replace(a, name, v).len() == a.len(),
{
    reveal(evolves);
    lemma_resolve(a, name);
    let b = replace(a, name, v);
    match resolve(a, name) {
        Some(k) => {
            assert forall|i: int, n: Seq<char>|
                0 <= i < a.len() - 1 && a[i].dom().contains(n) && shadowed(a, i, n) implies (
                #[trigger] b[i][n]) == a[i][n] by {
                if i == k && n == name {
                    let j = choose|j: int| i < j < a.len() && (#[trigger] a[j]).dom().contains(n);
                    assert(!a[j].dom().contains(name));
                }
            }
        },
        None => {},
    }
}

/// Leaving the block that was entered gives back a stack that follows the
/// one before the block, all of whose frames were enclosing ones meanwhile.
pub proof fn lemma_evolves_exit(a: Seq<Frame>, b: Seq<Frame>)
    requires
        evolves(a.push(Map::empty()), b),
        b.len() == a.len() + 1,
    ensures
        evolves(a, leave(b)),
        held(a, leave(b)),
{
    reveal(evolves);
    reveal(held);
    let inner = a.push(Map::empty());
    let c = leave(b);
    assert forall|i: int| 0 <= i < a.len() implies inner[i] == a[i] && c[i] == b[i] by {}
    assert forall|i: int, n: Seq<char>|
        0 <= i < a.len() && a[i].dom().contains(n) implies #[trigger] c[i].dom().contains(n) by {
        assert(inner[i].dom().contains(n));
        assert(b[i].dom().contains(n));
    }
    assert forall|i: int, n: Seq<char>|
        0 <= i < a.len() && #[trigger] c[i].dom().contains(n) implies a[i].dom().contains(n) by {
        assert(b[i].dom().contains(n));
        assert(inner[i].dom().contains(n));
    }
    assert forall|i: int, n: Seq<char>|
        0 <= i < a.len() && a[i].dom().contains(n) implies ages(a[i][n], #[trigger] c[i][n]) by {
        assert(inner[i].dom().contains(n));
        assert(ages(inner[i][n], b[i][n]));
    }
    assert forall|i: int, n: Seq<char>|
        0 <= i < a.len() - 1 && a[i].dom().contains(n) && shadowed(a, i, n) implies #[trigger] c[i][n]
            == a[i][n] by {
        let j = choose|j: int| i < j < a.len() && (#[trigger] a[j]).dom().contains(n);
        assert(inner[j].dom().contains(n));
        assert(shadowed(inner, i, n));
        assert(inner[i].dom().contains(n));
        assert(b[i][n] == inner[i][n]);
    }
}

/// Tells whether `after` has the frames of `before`, each with the names it
/// had and each record only aged. This is what a block leaves of the stack
/// it was entered with.
#[verifier::opaque]
pub open spec fn held(before: Seq<Frame>, after: Seq<Frame>) -> bool {
    &&& after.len() == before.len()
    &&& forall|i: int, n: Seq<char>|
        0 <= i < before.len() ==> before[i].dom().contains(n) == #[trigger] after[i].dom().contains(n)
    &&& forall|i: int, n: Seq<char>|
        0 <= i < before.len() && before[i].dom().contains(n) ==> ages(
            before[i][n],
            #[trigger] after[i][n],
        )
}

/// Tells whether `error` is one of the two diagnostics for a jump outside
/// of a loop.
pub open spec fn is_jump_fault(error: Option<DiagnosticModel>) -> bool {
    match error {
        Some(d) => d.kind == ErrorKind::BreakOutsideLoop || d.kind
            == ErrorKind::ContinueOutsideLoop,
        None => false,
    }
}

/// Tells whether `node` holds a `break` or `continue` that no `while` or
/// `for` body of `node` encloses. Conditions and iterators are not part of
/// a loop's body; a function definition that stands inside a loop body is
/// part of it, since the loop flag is changed by loops alone.
pub open spec fn escapes(node: AstNode) -> bool
    decreases node, 0nat,
{
    match node {
        AstNode::Program(nodes) => escapes_any(nodes@, 0),
        AstNode::FunctionDef { body, .. } => escapes(*body),
        AstNode::LetBinding { value, .. } => escapes(*value),
        AstNode::Assignment { value, .. } => escapes(*value),
        AstNode::ArrayAssignment { index, value, .. } => escapes(*index) || escapes(*value),
        AstNode::Block(statements) => escapes_any(statements@, 0),
        AstNode::If { condition, then_block, else_block } => {
            ||| escapes(*condition)
            ||| escapes(*then_block)
            ||| match else_block {
                Some(other) => escapes(*other),
                None => false,
            }
        },
        AstNode::While { condition, .. } => escapes(*condition),
        AstNode::For { iterator, .. } => escapes(*iterator),
        AstNode::Match { value, arms } => escapes(*value) || escapes_any_arm(arms@, 0),
        AstNode::Return(value) => match value {
            Some(v) => escapes(*v),
            None => false,
        },
        AstNode::Break => true,
        AstNode::Continue => true,
        AstNode::ExpressionStatement(expr) => escapes(*expr),
        AstNode::BinaryOp { left, right, .. } => escapes(*left) || escapes(*right),
        AstNode::UnaryOp { operand, .. } => escapes(*operand),
        AstNode::Reference(expr) => escapes(*expr),
        AstNode::Call { args, .. } => escapes_any(args@, 0),
        AstNode::MethodCall { object, args, .. } => escapes(*object) || escapes_any(args@, 0),
        AstNode::MemberAccess { object, .. } => escapes(*object),
        AstNode::Index { array, index } => escapes(*array) || escapes(*index),
        AstNode::ArrayLit(elements) => escapes_any(elements@, 0),
        AstNode::StructInit { fields, .. } => escapes_any_field(fields@, 0),
        AstNode::EnumValue { value, .. } => match value {
            Some(v) => escapes(*v),
            None => false,
        },
        _ => false,
    }
}

/// Tells whether one of the nodes from index `from` on escapes.
pub open spec fn escapes_any(nodes: Seq<AstNode>, from: int) -> bool
    decreases nodes, nodes.len() - from,
{
    if 0 <= from < nodes.len() {
        escapes(nodes[from]) || escapes_any(nodes, from + 1)
    } else {
        false
    }
}

/// Tells whether the value of one of the field initializers from index
/// `from` on escapes.
pub open spec fn escapes_any_field(fields: Seq<(String, AstNode)>, from: int) -> bool
    decreases fields, fields.len() - from,
{
    if 0 <= from < fields.len() {
        escapes(fields[from].1) || escapes_any_field(fields, from + 1)
    } else {
        false
    }
}

/// Tells whether the body of one of the match arms from index `from` on
/// escapes.
pub open spec fn escapes_any_arm(arms: Seq<MatchArm>, from: int) -> bool
    decreases arms, arms.len() - from,
{
    if 0 <= from < arms.len() {
        escapes(arms[from].body) || escapes_any_arm(arms, from + 1)
    } else {
        false
    }
}

/// What holds of the outcome `o` of a traversal that started in `s`.
pub open spec fn follows(s: AnalyzerModel, o: Outcome) -> bool {
    &&& o.state.file == s.file
    &&& evolves(s.scopes, o.state.scopes)
    &&& !o.failed() ==> o.state.scopes.len() == s.scopes.len() && o.state.in_loop == s.in_loop
}

/// What holds of the outcome `o` of visiting something that escapes or not,
/// as `escaping` says, in the state `s`.
pub open spec fn jumps_as_owed(s: AnalyzerModel, escaping: bool, o: Outcome) -> bool {
    &&& !s.in_loop && escaping ==> o.failed()
    &&& s.in_loop || !escaping ==> !is_jump_fault(o.error)
}

/// A plain read follows the rules of every traversal.
pub proof fn lemma_read(s: AnalyzerModel, name: Seq<char>, at: Location)
    ensures
        follows(s, s.read(name, at)),
        !is_jump_fault(s.read(name, at).error),
        s.read(name, at).state.scopes.len() == s.scopes.len(),
        s.read(name, at).state.in_loop == s.in_loop,
{
    lemma_evolves_refl(s.scopes);
    match lookup(s.scopes, name) {
        Some(v) => {
            lemma_evolves_replace(s.scopes, name, v.moved());
        },
        None => {},
    }
}

/// A read under `&` follows the rules of every traversal.
pub proof fn lemma_reference(s: AnalyzerModel, name: Seq<char>, at: Location)
    ensures
        follows(s, s.reference(name, at)),
        !is_jump_fault(s.reference(name, at).error),
        s.reference(name, at).state.scopes.len() == s.scopes.len(),
        s.reference(name, at).state.in_loop == s.in_loop,
{
    lemma_evolves_refl(s.scopes);
    match lookup(s.scopes, name) {
        Some(v) => {
            lemma_evolves_replace(s.scopes, name, v.borrowed());
        },
        None => {},
    }
}

/// Declaring parameters touches the innermost frame only.
pub proof fn lemma_declare_params(s: AnalyzerModel, params: Seq<Parameter>, from: int)
    ensures
        follows(s, Outcome::pass(declare_params(s, params, from))),
    decreases params.len() - from,
{
    if 0 <= from < params.len() {
        let p = params[from];
        let next = s.declared(p.name@, p.is_mutable, p.param_type@, nowhere());
        lemma_evolves_declare(
            s.scopes,
            p.name@,
            VariableModel::fresh(p.is_mutable, p.param_type@, nowhere()),
        );
        lemma_declare_params(next, params, from + 1);
        lemma_evolves_trans(s.scopes, next.scopes, declare_params(s, params, from).scopes);
    } else {
        lemma_evolves_refl(s.scopes);
    }
}

/// One traversal after another is a traversal.
proof fn lemma_then(s: AnalyzerModel, first: Outcome, second: Outcome)
    requires
        follows(s, first),
        !first.failed(),
        follows(first.state, second),
    ensures
        follows(s, second),
{
    lemma_evolves_trans(s.scopes, first.state.scopes, second.state.scopes);
}

/// A traversal inside a block: `start` is the state after the block was
/// entered and its own variables were declared, `inner` the outcome of what
/// was visited there.
proof fn lemma_inside(s: AnalyzerModel, start: AnalyzerModel, inner: Outcome)
    requires
        start.file == s.file,
        start.scopes.len() == s.scopes.len() + 1,
        evolves(s.scopes.push(Map::empty()), start.scopes),
        follows(start, inner),
    ensures
        inner.state.file == s.file,
        evolves(s.scopes, inner.state.scopes),
        !inner.failed() ==> {
            &&& inner.state.scopes.len() == s.scopes.len() + 1
            &&& leave(inner.state.scopes).len() == s.scopes.len()
            &&& inner.state.in_loop == start.in_loop
            &&& evolves(s.scopes, leave(inner.state.scopes))
            &&& held(s.scopes, leave(inner.state.scopes))
        },
{
    let entered = s.scopes.push(Map::empty());
    lemma_evolves_enter(s.scopes);
    lemma_evolves_trans(entered, start.scopes, inner.state.scopes);
    lemma_evolves_trans(s.scopes, entered, inner.state.scopes);
    if !inner.failed() {
        lemma_evolves_exit(s.scopes, inner.state.scopes);
    }
}

/// Every traversal is balanced, lets the enclosing frames only age, and
/// accepts `break` and `continue` exactly inside loops.
pub proof fn lemma_visit(s: AnalyzerModel, node: AstNode)
    ensures
        follows(s, visit(s, node)),
        jumps_as_owed(s, escapes(node), visit(s, node)),
    decreases node, 0nat,
{
    lemma_evolves_refl(s.scopes);
    match node {
        AstNode::Program(nodes) => {
            lemma_visit_each(s, nodes@, 0);
        },
        AstNode::FunctionDef { params, body, .. } => {
            let start = declare_params(s.entered(), params@, 0);
            lemma_declare_params(s.entered(), params@, 0);
            lemma_visit(start, *body);
            lemma_inside(s, start, visit(start, *body));
        },
        AstNode::LetBinding { mutable, name, type_annotation, value, location } => {
            let bound = visit(s.at(location), *value);
            lemma_visit(s.at(location), *value);
            if !bound.failed() {
                let ty = match type_annotation {
                    Some(t) => t@,
                    None => infer_type(bound.state.scopes, *value),
                };
                lemma_evolves_declare(
                    bound.state.scopes,
                    name@,
                    VariableModel::fresh(mutable, ty, location),
                );
                lemma_evolves_trans(
                    s.scopes,
                    bound.state.scopes,
                    visit(s, node).state.scopes,
                );
            }
        },
        AstNode::Assignment { name, value, location } => {
            lemma_visit(s.at(location), *value);
        },
        AstNode::ArrayAssignment { array, index, value, location } => {
            let start = s.at(location);
            lemma_visit(start, *index);
            let first = visit(start, *index);
            if !first.failed() {
                lemma_visit(first.state, *value);
                lemma_then(start, first, visit(first.state, *value));
            }
        },
        AstNode::Block(statements) => {
            lemma_visit_each(s.entered(), statements@, 0);
            lemma_evolves_refl(s.entered().scopes);
            lemma_inside(s, s.entered(), visit_each(s.entered(), statements@, 0));
        },
        AstNode::If { condition, then_block, else_block } => {
            lemma_visit(s, *condition);
            let tested = visit(s, *condition);
            if !tested.failed() {
                lemma_visit_scoped(tested.state, *then_block);
                let taken = visit_scoped(tested.state, *then_block);
                lemma_then(s, tested, taken);
                if !taken.failed() {
                    match else_block {
                        Some(other) => {
                            lemma_visit_scoped(taken.state, *other);
                            lemma_then(s, taken, visit_scoped(taken.state, *other));
                        },
                        None => {},
                    }
                }
            }
        },
        AstNode::While { condition, body } => {
            lemma_visit(s, *condition);
            let tested = visit(s, *condition);
            if !tested.failed() {
                let start = tested.state.looping(true);
                lemma_visit_scoped(start, *body);
                let inner = visit_scoped(start, *body);
                lemma_evolves_trans(s.scopes, tested.state.scopes, inner.state.scopes);
            }
        },
        AstNode::For { variable, iterator, body } => {
            lemma_visit(s, *iterator);
            let ranged = visit(s, *iterator);
            if !ranged.failed() {
                let opened = ranged.state.entered();
                let start = opened.declared(variable@, false, "int"@, ranged.state.here()).looping(
                    true,
                );
                lemma_evolves_declare(
                    opened.scopes,
                    variable@,
                    VariableModel::fresh(false, "int"@, ranged.state.here()),
                );
                lemma_visit(start, *body);
                let inner = visit(start, *body);
                lemma_inside(ranged.state, start, inner);
                lemma_evolves_trans(s.scopes, ranged.state.scopes, inner.state.scopes);
                if !inner.failed() {
                    lemma_evolves_trans(
                        s.scopes,
                        ranged.state.scopes,
                        leave(inner.state.scopes),
                    );
                }
            }
        },
        AstNode::Match { value, arms } => {
            lemma_visit(s, *value);
            let matched = visit(s, *value);
            if !matched.failed() {
                lemma_visit_arms(matched.state, arms@, 0);
                lemma_then(s, matched, visit_arms(matched.state, arms@, 0));
            }
        },
        AstNode::Return(value) => match value {
            Some(v) => {
                lemma_visit(s, *v);
            },
            None => {},
        },
        AstNode::Break => {},
        AstNode::Continue => {},
        AstNode::ExpressionStatement(expr) => {
            lemma_visit(s, *expr);
        },
        AstNode::BinaryOp { left, right, .. } => {
            lemma_visit(s, *left);
            let first = visit(s, *left);
            if !first.failed() {
                lemma_visit(first.state, *right);
                lemma_then(s, first, visit(first.state, *right));
            }
        },
        AstNode::UnaryOp { operand, .. } => {
            lemma_visit(s, *operand);
        },
        AstNode::Identifier { name, location } => {
            lemma_read(s, name@, location);
        },
        AstNode::Reference(expr) => match *expr {
            AstNode::Identifier { name, location } => {
                lemma_reference(s, name@, location);
                assert(!escapes(*expr));
            },
            _ => {
                lemma_visit(s, *expr);
            },
        },
        AstNode::Call { args, .. } => {
            lemma_visit_each(s, args@, 0);
        },
        AstNode::MethodCall { object, args, .. } => {
            lemma_visit(s, *object);
            let first = visit(s, *object);
            if !first.failed() {
                lemma_visit_each(first.state, args@, 0);
                lemma_then(s, first, visit_each(first.state, args@, 0));
            }
        },
        AstNode::MemberAccess { object, .. } => {
            lemma_visit(s, *object);
        },
        AstNode::Index { array, index } => {
            lemma_visit(s, *array);
            let first = visit(s, *array);
            if !first.failed() {
                lemma_visit(first.state, *index);
                lemma_then(s, first, visit(first.state, *index));
            }
        },
        AstNode::ArrayLit(elements) => {
            lemma_visit_each(s, elements@, 0);
        },
        AstNode::StructInit { fields, .. } => {
            lemma_visit_fields(s, fields@, 0);
        },
        AstNode::EnumValue { value, .. } => match value {
            Some(v) => {
                lemma_visit(s, *v);
            },
            None => {},
        },
        AstNode::StructDef { .. } => {},
        AstNode::EnumDef { .. } => {},
        AstNode::ArrayType { .. } => {},
        AstNode::Number(_) => {},
        AstNode::Boolean(_) => {},
        AstNode::Character(_) => {},
        AstNode::StringLit(_) => {},
    }
}

/// [`lemma_visit`] for a node visited in a frame of its own, which leaves
/// every frame with the names it had.
pub proof fn lemma_visit_scoped(s: AnalyzerModel, node: AstNode)
    ensures
        follows(s, visit_scoped(s, node)),
        jumps_as_owed(s, escapes(node), visit_scoped(s, node)),
        !visit_scoped(s, node).failed() ==> held(s.scopes, visit_scoped(s, node).state.scopes),
    decreases node, 1nat,
{
    lemma_visit(s.entered(), node);
    lemma_evolves_refl(s.entered().scopes);
    lemma_inside(s, s.entered(), visit(s.entered(), node));
}

/// [`lemma_visit`] for the nodes of a sequence from index `from` on.
pub proof fn lemma_visit_each(s: AnalyzerModel, nodes: Seq<AstNode>, from: int)
    ensures
        follows(s, visit_each(s, nodes, from)),
        jumps_as_owed(s, escapes_any(nodes, from), visit_each(s, nodes, from)),
    decreases nodes, nodes.len() - from,
{
    lemma_evolves_refl(s.scopes);
    if 0 <= from < nodes.len() {
        lemma_visit(s, nodes[from]);
        let first = visit(s, nodes[from]);
        if !first.failed() {
            lemma_visit_each(first.state, nodes, from + 1);
            lemma_then(s, first, visit_each(first.state, nodes, from + 1));
        }
    }
}

/// [`lemma_visit`] for the values of field initializers from index `from`
/// on.
pub proof fn lemma_visit_fields(s: AnalyzerModel, fields: Seq<(String, AstNode)>, from: int)
    ensures
        follows(s, visit_fields(s, fields, from)),
        jumps_as_owed(s, escapes_any_field(fields, from), visit_fields(s, fields, from)),
    decreases fields, fields.len() - from,
{
    lemma_evolves_refl(s.scopes);
    if 0 <= from < fields.len() {
        lemma_visit(s, fields[from].1);
        let first = visit(s, fields[from].1);
        if !first.failed() {
            lemma_visit_fields(first.state, fields, from + 1);
            lemma_then(s, first, visit_fields(first.state, fields, from + 1));
        }
    }
}

/// [`lemma_visit`] for the bodies of match arms from index `from` on.
pub proof fn lemma_visit_arms(s: AnalyzerModel, arms: Seq<MatchArm>, from: int)
    ensures
        follows(s, visit_arms(s, arms, from)),
        jumps_as_owed(s, escapes_any_arm(arms, from), visit_arms(s, arms, from)),
    decreases arms, arms.len() - from,
{
    lemma_evolves_refl(s.scopes);
    if 0 <= from < arms.len() {
        lemma_visit_scoped(s, arms[from].body);
        let first = visit_scoped(s, arms[from].body);
        if !first.failed() {
            lemma_visit_arms(first.state, arms, from + 1);
            lemma_then(s, first, visit_arms(first.state, arms, from + 1));
        }
    }
}

} // verus!
