//! The syntax tree that the analyzer walks.
//!
//! The tree is plain data. Names and type annotations are strings; wherever a
//! contract speaks of one, it speaks of its view, the sequence of its
//! characters.

use vstd::prelude::*;

verus! {

/// A position in the source text.
#[derive(Debug, Clone, Copy, PartialEq, Eq, Structural)]
pub struct Location {
    pub line: usize,
    pub column: usize,
}

/// One node of the syntax tree: a statement, an expression or a definition.
#[derive(Debug)]
#[allow(inconsistent_fields)]
pub enum AstNode {
    Program(Vec<AstNode>),
    LetBinding {
        mutable: bool,
        name: String,
        type_annotation: Option<String>,
        value: Box<AstNode>,
        location: Location,
    },
    Assignment { name: String, value: Box<AstNode>, location: Location },
    FunctionDef {
        name: String,
        params: Vec<Parameter>,
        return_type: Option<String>,
        body: Box<AstNode>,
    },
    StructDef { name: String, fields: Vec<Field> },
    StructInit { name: String, fields: Vec<(String, AstNode)> },
    EnumDef { name: String, variants: Vec<EnumVariant> },
    EnumValue { enum_name: String, variant: String, value: Option<Box<AstNode>> },
    ArrayLit(Vec<AstNode>),
    ArrayType { element_type: String, size: usize },
    Index { array: Box<AstNode>, index: Box<AstNode> },
    ArrayAssignment {
        array: String,
        index: Box<AstNode>,
        value: Box<AstNode>,
        location: Location,
    },
    BinaryOp { op: BinOp, left: Box<AstNode>, right: Box<AstNode> },
    UnaryOp { op: UnOp, operand: Box<AstNode> },
    Number(i64),
    Boolean(bool),
    Character(char),
    StringLit(String),
    Identifier { name: String, location: Location },
    Reference(Box<AstNode>),
    Call { name: String, args: Vec<AstNode> },
    MethodCall { object: Box<AstNode>, method: String, args: Vec<AstNode> },
    MemberAccess { object: Box<AstNode>, field: String },
    If {
        condition: Box<AstNode>,
        then_block: Box<AstNode>,
        else_block: Option<Box<AstNode>>,
    },
    While { condition: Box<AstNode>, body: Box<AstNode> },
    For { variable: String, iterator: Box<AstNode>, body: Box<AstNode> },
    Match { value: Box<AstNode>, arms: Vec<MatchArm> },
    Return(Option<Box<AstNode>>),
    Break,
    Continue,
    Block(Vec<AstNode>),
    ExpressionStatement(Box<AstNode>),
}

/// A binary operator.
#[derive(Debug, Clone, Copy, PartialEq, Eq, Structural)]
pub enum BinOp {
    Add,
    Sub,
    Mul,
    Div,
    Mod,
    Equal,
    NotEqual,
    LessThan,
    LessEqual,
    GreaterThan,
    GreaterEqual,
    And,
    Or,
}

/// A unary operator.
#[derive(Debug, Clone, Copy, PartialEq, Eq, Structural)]
pub enum UnOp {
    Not,
    Negate,
}

/// A parameter of a function definition.
#[derive(Debug, Clone)]
pub struct Parameter {
    pub is_reference: bool,
    pub is_mutable: bool,
    pub name: String,
    pub param_type: String,
}

/// A field of a struct definition.
#[derive(Debug, Clone)]
pub struct Field {
    pub name: String,
    pub field_type: String,
}

/// A variant of an enum definition.
#[derive(Debug, Clone)]
pub struct EnumVariant {
    pub name: String,
    pub value_type: Option<String>,
}

/// One arm of a `match`.
#[derive(Debug)]
pub struct MatchArm {
    pub pattern: Pattern,
    pub body: AstNode,
}

/// The pattern of a match arm.
#[derive(Debug, Clone)]
pub enum Pattern {
    Identifier(String),
    EnumPattern { enum_name: String, variant: String, binding: Option<String> },
    Wildcard,
}

} // verus!
