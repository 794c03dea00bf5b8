//! The analyzer: one walk over a syntax tree that rejects the first use that
//! breaks the ownership discipline.
//!
//! Values of the types `int`, `bool` and `char` are copied; every other
//! value has one owner. A plain read of a variable moves its value away, a
//! read under `&` borrows it, and a borrow is never given back: a variable
//! that was borrowed once can be neither moved nor assigned to again.

use vstd::prelude::*;
use vstd::string::*;
use crate::ast::{AstNode, Location, MatchArm, Parameter};
use crate::diagnostic::{decimal_string, Diagnostic, DiagnosticModel};
use crate::model::{AnalyzerModel, Outcome};
use crate::rules::{
    declare_params, infer_type, visit, visit_arms, visit_each, visit_fields, visit_scoped,
};
use crate::scope::{ScopeStack, VariableState};

verus! {

/// Tells whether the result `r` of a check is the one that the model gives.
pub open spec fn reports(r: Result<(), Diagnostic>, error: Option<DiagnosticModel>) -> bool {
    match r {
        Ok(_) => error is None,
        Err(d) => error == Some(d@),
    }
}

/// Tells whether an executable step ended as `outcome` says.
pub open spec fn agrees(
    r: Result<(), Diagnostic>,
    after: AnalyzerModel,
    outcome: Outcome,
) -> bool {
    after == outcome.state && reports(r, outcome.error)
}

/// The state of one analysis: the scope stack, the position of the node
/// visited last, and whether the walk is inside a loop body.
pub struct SemanticAnalyzer<'a> {
    filename: &'a str,
    symbol_table: ScopeStack,
    current_line: usize,
    current_column: usize,
    in_loop: bool,
}

impl<'a> View for SemanticAnalyzer<'a> {
    type V = AnalyzerModel;

    closed spec fn view(&self) -> AnalyzerModel {
        AnalyzerModel {
            file: self.filename@,
            scopes: self.symbol_table@,
            line: self.current_line,
            column: self.current_column,
            in_loop: self.in_loop,
        }
    }
}

impl<'a> SemanticAnalyzer<'a> {
    /// An analyzer for the source file `filename`, with nothing declared.
    pub fn new(filename: &'a str) -> (analyzer: Self)
        ensures
            analyzer@ == AnalyzerModel::initial(filename@),
    {
        SemanticAnalyzer {
            filename,
            symbol_table: ScopeStack::new(),
            current_line: 1,
            current_column: 1,
            in_loop: false,
        }
    }

    /// The number of open scope frames.
    pub fn depth(&self) -> (depth: usize)
        ensures
            depth == self@.scopes.len(),
    {
        self.symbol_table.depth()
    }

    /// Tells whether the walk is inside a loop body.
    pub fn inside_loop(&self) -> (flag: bool)
        ensures
            flag == self@.in_loop,
    {
        self.in_loop
    }

    /// The position of the node visited last.
    pub fn position(&self) -> (at: Location)
        ensures
            at == self@.here(),
    {
        Location { line: self.current_line, column: self.current_column }
    }

    /// Tells whether `name` is declared with one of the copy types.
    pub fn is_copy_type(&self, name: &str) -> (copy: bool)
        ensures
            copy == self@.is_copy(name@),
    {
        match self.symbol_table.lookup(name) {
            Some(info) => info.is_copy(),
            None => false,
        }
    }

    /// Checks the program `ast`. The result is `Ok` where no rule is broken,
    /// and else the diagnostic of the first broken rule. No scope that was
    /// open is closed, so the analyzer can go on with another tree; a
    /// failure leaves open the scopes in which it was found.
    pub fn analyze(&mut self, ast: &AstNode) -> (r: Result<(), Diagnostic>)
        requires
            old(self)@.scopes.len() > 0,
        ensures
            agrees(r, final(self)@, visit(old(self)@, *ast)),
            final(self)@.scopes.len() >= old(self)@.scopes.len(),
            r is Ok ==> final(self)@.scopes.len() == old(self)@.scopes.len(),
    {
        self.visit(ast)
    }

    /// Visits one node.
    pub fn visit(&mut self, node: &AstNode) -> (r: Result<(), Diagnostic>)
        requires
            old(self)@.scopes.len() > 0,
        ensures
            agrees(r, final(self)@, visit(old(self)@, *node)),
            final(self)@.scopes.len() >= old(self)@.scopes.len(),
            r is Ok ==> final(self)@.scopes.len() == old(self)@.scopes.len(),
        decreases node, 0nat,
    {
        match node {
            AstNode::Program(nodes) => self.visit_each(nodes),
            AstNode::FunctionDef { params, body, .. } => {
                self.push_scope();
                self.declare_params(params);
                self.visit(body)?;
                self.pop_scope();
                Ok(())
            },
            AstNode::LetBinding { mutable, name, type_annotation, value, location } => {
                self.set_position(*location);
                self.visit(value)?;
                let var_type = match type_annotation {
                    Some(annotation) => annotation.clone(),
                    None => self.infer_type(value),
                };
                self.declare_variable(
                    name.as_str(),
                    *mutable,
                    var_type,
                    location.line,
                    location.column,
                );
                Ok(())
            },
            AstNode::Assignment { name, value, location } => {
                self.set_position(*location);
                self.check_assignable(name.as_str(), true)?;
                self.visit(value)
            },
            AstNode::ArrayAssignment { array, index, value, location } => {
                self.set_position(*location);
                self.check_assignable(array.as_str(), false)?;
                self.visit(index)?;
                self.visit(value)
            },
            AstNode::Block(statements) => {
                self.push_scope();
                self.visit_each(statements)?;
                self.pop_scope();
                Ok(())
            },
            AstNode::If { condition, then_block, else_block } => {
                self.visit(condition)?;
                self.visit_scoped(then_block)?;
                match else_block {
                    Some(other) => self.visit_scoped(other),
                    None => Ok(()),
                }
            },
            AstNode::While { condition, body } => {
                self.visit(condition)?;
                let was_in_loop = self.in_loop;
                self.in_loop = true;
                self.visit_scoped(body)?;
                self.in_loop = was_in_loop;
                Ok(())
            },
            AstNode::For { variable, iterator, body } => {
                self.visit(iterator)?;
                self.push_scope();
                self.declare_variable(
                    variable.as_str(),
                    false,
                    String::from_str("int"),
                    self.current_line,
                    self.current_column,
                );
                let was_in_loop = self.in_loop;
                self.in_loop = true;
                self.visit(body)?;
                self.in_loop = was_in_loop;
                self.pop_scope();
                Ok(())
            },
            AstNode::Match { value, arms } => {
                self.visit(value)?;
                self.visit_arms(arms)
            },
            AstNode::Return(value) => match value {
                Some(v) => self.visit(v),
                None => Ok(()),
            },
            AstNode::Break => self.check_jump(true),
            AstNode::Continue => self.check_jump(false),
            AstNode::ExpressionStatement(expr) => self.visit(expr),
            AstNode::BinaryOp { left, right, .. } => {
                self.visit(left)?;
                self.visit(right)
            },
            AstNode::UnaryOp { operand, .. } => self.visit(operand),
            AstNode::Identifier { name, location } => self.read_variable(name.as_str(), *location),
            AstNode::Reference(expr) => match &**expr {
                AstNode::Identifier { name, location } => self.reference_variable(
                    name.as_str(),
                    *location,
                ),
                _ => self.visit(expr),
            },
            AstNode::Call { args, .. } => self.visit_each(args),
            AstNode::MethodCall { object, args, .. } => {
                self.visit(object)?;
                self.visit_each(args)
            },
            AstNode::MemberAccess { object, .. } => self.visit(object),
            AstNode::Index { array, index } => {
                self.visit(array)?;
                self.visit(index)
            },
            AstNode::ArrayLit(elements) => self.visit_each(elements),
            AstNode::StructInit { fields, .. } => self.visit_fields(fields),
            AstNode::EnumValue { value, .. } => match value {
                Some(v) => self.visit(v),
                None => Ok(()),
            },
            AstNode::StructDef { .. } => Ok(()),
            AstNode::EnumDef { .. } => Ok(()),
            AstNode::ArrayType { .. } => Ok(()),
            AstNode::Number(_) => Ok(()),
            AstNode::Boolean(_) => Ok(()),
            AstNode::Character(_) => Ok(()),
            AstNode::StringLit(_) => Ok(()),
        }
    }

    /// Visits `node` in a frame of its own.
    fn visit_scoped(&mut self, node: &AstNode) -> (r: Result<(), Diagnostic>)
        requires
            old(self)@.scopes.len() > 0,
        ensures
            agrees(r, final(self)@, visit_scoped(old(self)@, *node)),
            final(self)@.scopes.len() >= old(self)@.scopes.len(),
            r is Ok ==> final(self)@.scopes.len() == old(self)@.scopes.len(),
        decreases node, 1nat,
    {
        self.push_scope();
        self.visit(node)?;
        self.pop_scope();
        Ok(())
    }

    /// Visits the nodes of a sequence in order.
    fn visit_each(&mut self, nodes: &Vec<AstNode>) -> (r: Result<(), Diagnostic>)
        requires
            old(self)@.scopes.len() > 0,
        ensures
            agrees(r, final(self)@, visit_each(old(self)@, nodes@, 0)),
            final(self)@.scopes.len() >= old(self)@.scopes.len(),
            r is Ok ==> final(self)@.scopes.len() == old(self)@.scopes.len(),
        decreases nodes, nodes.len(),
    {
        let mut i: usize = 0;
        while i < nodes.len()
            invariant
                i <= nodes.len(),
                self@.scopes.len() == old(self)@.scopes.len(),
                self@.scopes.len() > 0,
                visit_each(old(self)@, nodes@, 0) == visit_each(self@, nodes@, i as int),
            decreases nodes.len() - i,
        {
            self.visit(&nodes[i])?;
            i += 1;
        }
        Ok(())
    }

    /// Visits the values of field initializers in order.
    fn visit_fields(&mut self, fields: &Vec<(String, AstNode)>) -> (r: Result<(), Diagnostic>)
        requires
            old(self)@.scopes.len() > 0,
        ensures
            agrees(r, final(self)@, visit_fields(old(self)@, fields@, 0)),
            final(self)@.scopes.len() >= old(self)@.scopes.len(),
            r is Ok ==> final(self)@.scopes.len() == old(self)@.scopes.len(),
        decreases fields, fields.len(),
    {
        let mut i: usize = 0;
        while i < fields.len()
            invariant
                i <= fields.len(),
                self@.scopes.len() == old(self)@.scopes.len(),
                self@.scopes.len() > 0,
                visit_fields(old(self)@, fields@, 0) == visit_fields(self@, fields@, i as int),
            decreases fields.len() - i,
        {
            self.visit(&fields[i].1)?;
            i += 1;
        }
        Ok(())
    }

    /// Visits the bodies of match arms in order, each in a frame of its own.
    fn visit_arms(&mut self, arms: &Vec<MatchArm>) -> (r: Result<(), Diagnostic>)
        requires
            old(self)@.scopes.len() > 0,
        ensures
            agrees(r, final(self)@, visit_arms(old(self)@, arms@, 0)),
            final(self)@.scopes.len() >= old(self)@.scopes.len(),
            r is Ok ==> final(self)@.scopes.len() == old(self)@.scopes.len(),
        decreases arms, arms.len(),
    {
        let mut i: usize = 0;
        while i < arms.len()
            invariant
                i <= arms.len(),
                self@.scopes.len() == old(self)@.scopes.len(),
                self@.scopes.len() > 0,
                visit_arms(old(self)@, arms@, 0) == visit_arms(self@, arms@, i as int),
            decreases arms.len() - i,
        {
            self.visit_scoped(&arms[i].body)?;
            i += 1;
        }
        Ok(())
    }

    /// Declares the parameters of a function in the innermost frame.
    fn declare_params(&mut self, params: &Vec<Parameter>)
        requires
            old(self)@.scopes.len() > 0,
        ensures
            final(self)@ == declare_params(old(self)@, params@, 0),
            final(self)@.scopes.len() == old(self)@.scopes.len(),
    {
        let mut i: usize = 0;
        while i < params.len()
            invariant
                i <= params.len(),
                self@.scopes.len() == old(self)@.scopes.len(),
                self@.scopes.len() > 0,
                declare_params(old(self)@, params@, 0) == declare_params(self@, params@, i as int),
            decreases params.len() - i,
        {
            let param = &params[i];
            self.declare_variable(
                param.name.as_str(),
                param.is_mutable,
                param.param_type.clone(),
                0,
                0,
            );
            i += 1;
        }
    }

    /// Moves the current position to `at`.
    fn set_position(&mut self, at: Location)
        ensures
            final(self)@ == old(self)@.at(at),
    {
        self.current_line = at.line;
        self.current_column = at.column;
    }

    /// A plain read of `name` at `at`: the name must be declared and its
    /// value not moved away. The read moves the value, unless its type is a
    /// copy type.
    pub fn read_variable(&mut self, name: &str, at: Location) -> (r: Result<(), Diagnostic>)
        ensures
            agrees(r, final(self)@, old(self)@.read(name@, at)),
            final(self)@.scopes.len() == old(self)@.scopes.len(),
    {
        self.set_position(at);
        self.check_variable_exists(name)?;
        self.check_not_consumed(name)?;
        self.consume_variable(name)
    }

    /// A read of `name` under `&` at `at`: the name must be declared and its
    /// value not moved away. The borrow is counted and the value stays.
    pub fn reference_variable(&mut self, name: &str, at: Location) -> (r: Result<(), Diagnostic>)
        ensures
            agrees(r, final(self)@, old(self)@.reference(name@, at)),
            final(self)@.scopes.len() == old(self)@.scopes.len(),
    {
        self.set_position(at);
        self.check_variable_exists(name)?;
        self.check_not_consumed(name)?;
        self.borrow_variable(name)
    }

    /// Checks that `name` may be assigned to: it must be declared, mutable
    /// and not moved away, in this order. With `whole` set, that is for an
    /// assignment to the variable itself rather than to one of its elements,
    /// no borrow of it may exist either.
    pub fn check_assignable(&self, name: &str, whole: bool) -> (r: Result<(), Diagnostic>)
        ensures
            reports(r, self@.assign_fault(name@, whole)),
    {
        self.check_variable_exists(name)?;
        self.check_is_mutable(name)?;
        self.check_not_consumed(name)?;
        if whole {
            self.check_not_borrowed(name)
        } else {
            Ok(())
        }
    }

    /// Checks a `break` (`is_break` set) or a `continue`: either is legal
    /// inside a loop only.
    pub fn check_jump(&self, is_break: bool) -> (r: Result<(), Diagnostic>)
        ensures
            reports(r, self@.jump(is_break).error),
    {
        if self.in_loop {
            Ok(())
        } else if is_break {
            Err(Diagnostic::break_outside_loop(self.filename, self.position()))
        } else {
            Err(Diagnostic::continue_outside_loop(self.filename, self.position()))
        }
    }

    /// Declares `name` in the innermost frame, live and unborrowed, hiding
    /// any outer variable of that name.
    pub fn declare_variable(
        &mut self,
        name: &str,
        mutable: bool,
        var_type: String,
        line: usize,
        column: usize,
    )
        requires
            old(self)@.scopes.len() > 0,
        ensures
            final(self)@ == old(self)@.declared(
                name@,
                mutable,
                var_type@,
                Location { line, column },
            ),
            final(self)@.scopes.len() == old(self)@.scopes.len(),
    {
        self.symbol_table.declare(name, mutable, var_type, Location { line, column });
    }

    /// Fails where no open scope declares `name`.
    pub fn check_variable_exists(&self, name: &str) -> (r: Result<(), Diagnostic>)
        ensures
            reports(r, self@.undefined_fault(name@)),
    {
        match self.symbol_table.lookup(name) {
            Some(_) => Ok(()),
            None => Err(Diagnostic::undefined_variable(self.filename, self.position(), name)),
        }
    }

    /// Fails where the value of `name` was moved away. A variable of a copy
    /// type and an undeclared name pass.
    pub fn check_not_consumed(&self, name: &str) -> (r: Result<(), Diagnostic>)
        ensures
            reports(r, self@.moved_fault(name@)),
    {
        match self.symbol_table.lookup(name) {
            Some(info) => {
                if !info.is_copy() && info.consumed {
                    Err(
                        Diagnostic::use_of_moved_value(
                            self.filename,
                            self.position(),
                            name,
                            info.declared_at,
                        ),
                    )
                } else {
                    Ok(())
                }
            },
            None => Ok(()),
        }
    }

    /// Fails where `name` was declared without `mut`. An undeclared name
    /// passes.
    pub fn check_is_mutable(&self, name: &str) -> (r: Result<(), Diagnostic>)
        ensures
            reports(r, self@.immutable_fault(name@)),
    {
        match self.symbol_table.lookup(name) {
            Some(info) => {
                if !info.mutable {
                    Err(Diagnostic::assign_to_immutable(self.filename, self.position(), name))
                } else {
                    Ok(())
                }
            },
            None => Ok(()),
        }
    }

    /// Fails where a borrow of `name` exists. An undeclared name passes.
    pub fn check_not_borrowed(&self, name: &str) -> (r: Result<(), Diagnostic>)
        ensures
            reports(r, self@.borrowed_fault(name@)),
    {
        match self.symbol_table.lookup(name) {
            Some(info) => {
                if info.borrow_count > 0 {
                    Err(
                        Diagnostic::mutate_while_borrowed(
                            self.filename,
                            self.position(),
                            name,
                            info.borrow_count,
                        ),
                    )
                } else {
                    Ok(())
                }
            },
            None => Ok(()),
        }
    }

    /// Moves the value of `name` away. A variable of a copy type and an
    /// undeclared name stay as they are; a borrowed variable cannot be
    /// moved.
    pub fn consume_variable(&mut self, name: &str) -> (r: Result<(), Diagnostic>)
        ensures
            agrees(r, final(self)@, old(self)@.consume(name@)),
            final(self)@.scopes.len() == old(self)@.scopes.len(),
    {
        let borrowed = match self.symbol_table.lookup(name) {
            Some(info) => {
                if info.is_copy() {
                    return Ok(());
                }
                info.borrow_count > 0
            },
            None => {
                return Ok(());
            },
        };
        if borrowed {
            return Err(Diagnostic::move_while_borrowed(self.filename, self.position(), name));
        }
        self.symbol_table.consume(name);
        Ok(())
    }

    /// Counts one more borrow of `name`; the count stays at the largest
    /// `usize` once it has reached it. An undeclared name changes nothing.
    /// This never fails.
    pub fn borrow_variable(&mut self, name: &str) -> (r: Result<(), Diagnostic>)
        ensures
            r is Ok,
            final(self)@ == old(self)@.borrow(name@),
            final(self)@.scopes.len() == old(self)@.scopes.len(),
    {
        self.symbol_table.borrow(name);
        Ok(())
    }

    /// The record that `name` refers to: that of the innermost frame that
    /// declares it.
    pub fn lookup_variable(&self, name: &str) -> (found: Option<&VariableState>)
        ensures
            match found {
                Some(v) => self@.lookup(name@) == Some(v@),
                None => self@.lookup(name@) is None,
            },
    {
        self.symbol_table.lookup(name)
    }

    /// The type name that `name` was declared with.
    pub fn get_type(&self, name: &str) -> (found: Option<&str>)
        ensures
            match found {
                Some(ty) => self@.type_of(name@) == Some(ty@),
                None => self@.type_of(name@) is None,
            },
    {
        self.symbol_table.type_of(name)
    }

    /// The type name inferred for the expression `expr`.
    pub fn infer_type(&self, expr: &AstNode) -> (ty: String)
        ensures
            ty@ == infer_type(self@.scopes, *expr),
        decreases expr,
    {
        match expr {
            AstNode::Number(_) => String::from_str("int"),
            AstNode::Boolean(_) => String::from_str("bool"),
            AstNode::Character(_) => String::from_str("char"),
            AstNode::StringLit(_) => String::from_str("string"),
            AstNode::Identifier { name, .. } => match self.get_type(name.as_str()) {
                Some(ty) => String::from_str(ty),
                None => String::from_str("unknown"),
            },
            AstNode::BinaryOp { left, .. } => self.infer_type(left),
            AstNode::ArrayLit(elements) => {
                if elements.len() == 0 {
                    String::from_str("[int; 0]")
                } else {
                    let element = self.infer_type(&elements[0]);
                    let count = decimal_string(elements.len());
                    let mut ty = String::from_str("[");
                    ty.append(element.as_str());
                    ty.append("; ");
                    ty.append(count.as_str());
                    ty.append("]");
                    ty
                }
            },
            _ => String::from_str("unknown"),
        }
    }

    /// Opens a frame for a block that is entered.
    pub fn push_scope(&mut self)
        ensures
            final(self)@ == old(self)@.entered(),
    {
        self.symbol_table.push_scope();
    }

    /// Discards the innermost frame with all that it declares.
    pub fn pop_scope(&mut self)
        ensures
            final(self)@ == old(self)@.left(),
    {
        self.symbol_table.pop_scope();
    }
}

} // verus!
