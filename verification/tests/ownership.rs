use astral::ast::{AstNode, BinOp, Location, MatchArm, Parameter, Pattern, UnOp};
use astral::diagnostic::ErrorKind;
use astral::semantic::SemanticAnalyzer;

fn at(line: usize, column: usize) -> Location {
    Location { line, column }
}

fn ident(name: &str, line: usize, column: usize) -> AstNode {
    AstNode::Identifier { name: name.to_string(), location: at(line, column) }
}

fn borrow(name: &str, line: usize, column: usize) -> AstNode {
    AstNode::Reference(Box::new(ident(name, line, column)))
}

fn text(value: &str) -> AstNode {
    AstNode::StringLit(value.to_string())
}

fn let_stmt(mutable: bool, name: &str, value: AstNode, line: usize) -> AstNode {
    AstNode::LetBinding {
        mutable,
        name: name.to_string(),
        type_annotation: None,
        value: Box::new(value),
        location: at(line, 1),
    }
}

fn assign(name: &str, value: AstNode, line: usize) -> AstNode {
    AstNode::Assignment { name: name.to_string(), value: Box::new(value), location: at(line, 1) }
}

fn call(name: &str, args: Vec<AstNode>) -> AstNode {
    AstNode::Call { name: name.to_string(), args }
}

fn while_loop(body: Vec<AstNode>) -> AstNode {
    AstNode::While {
        condition: Box::new(AstNode::Boolean(true)),
        body: Box::new(AstNode::Block(body)),
    }
}

fn function(name: &str, params: Vec<Parameter>, body: Vec<AstNode>) -> AstNode {
    AstNode::FunctionDef {
        name: name.to_string(),
        params,
        return_type: None,
        body: Box::new(AstNode::Block(body)),
    }
}

fn analyzer_with(statements: Vec<AstNode>) -> SemanticAnalyzer<'static> {
    let mut analyzer = SemanticAnalyzer::new("test.ast");
    for statement in &statements {
        assert_eq!(analyzer.analyze(statement), Ok(()));
    }
    analyzer
}

#[test]
fn new_analyzer_has_one_empty_frame() {
    let analyzer = SemanticAnalyzer::new("test.ast");
    assert_eq!(analyzer.depth(), 1);
    assert!(!analyzer.inside_loop());
    assert_eq!(analyzer.position(), at(1, 1));
    assert!(analyzer.lookup_variable("x").is_none());
    assert_eq!(analyzer.get_type("x"), None);
    assert!(!analyzer.is_copy_type("x"));
}

#[test]
fn copy_variable_survives_many_reads() {
    let mut analyzer = analyzer_with(vec![
        let_stmt(false, "n", AstNode::Number(1), 1),
        let_stmt(false, "b", AstNode::Boolean(true), 2),
        let_stmt(false, "c", AstNode::Character('c'), 3),
    ]);
    for name in ["n", "b", "c"] {
        assert!(analyzer.is_copy_type(name));
        for round in 0..50 {
            assert_eq!(analyzer.analyze(&ident(name, 10 + round, 3)), Ok(()));
        }
        let state = analyzer.lookup_variable(name).unwrap();
        assert!(!state.consumed);
        assert_eq!(state.borrow_count, 0);
    }
    assert_eq!(analyzer.position(), at(59, 3));
}

#[test]
fn read_moves_a_string() {
    let mut analyzer = analyzer_with(vec![let_stmt(false, "s", text("a"), 4)]);
    assert!(!analyzer.is_copy_type("s"));
    assert_eq!(analyzer.get_type("s"), Some("string"));
    assert_eq!(analyzer.analyze(&ident("s", 5, 2)), Ok(()));
    let state = analyzer.lookup_variable("s").unwrap();
    assert!(state.consumed);
    assert_eq!(state.borrow_count, 0);
    assert_eq!(state.declared_at, at(4, 1));

    let err = analyzer.analyze(&ident("s", 6, 7)).unwrap_err();
    assert_eq!(err.kind, ErrorKind::UseOfMovedValue);
    assert_eq!(err.variable, Some("s".to_string()));
    assert_eq!((err.line, err.column), (6, 7));
    assert_eq!(err.origin, Some(at(4, 1)));
    assert_eq!(err.file, "test.ast");
}

#[test]
fn use_after_let_names_the_declaration() {
    let mut analyzer = analyzer_with(vec![
        let_stmt(false, "x", text("hi"), 12),
        let_stmt(false, "y", ident("x", 13, 9), 13),
    ]);
    assert_eq!(analyzer.get_type("y"), Some("string"));
    let err = analyzer.analyze(&ident("x", 14, 5)).unwrap_err();
    assert_eq!(err.kind, ErrorKind::UseOfMovedValue);
    assert_eq!(err.origin, Some(at(12, 1)));
    assert_eq!(err.note, Some("value moved at line 12, cannot be used again".to_string()));
}

#[test]
fn use_after_call_names_the_declaration() {
    let mut analyzer = analyzer_with(vec![
        let_stmt(false, "x", text("hi"), 3),
        call("f", vec![ident("x", 4, 3)]),
    ]);
    assert!(analyzer.lookup_variable("x").unwrap().consumed);
    let err = analyzer.analyze(&ident("x", 5, 1)).unwrap_err();
    assert_eq!(err.kind, ErrorKind::UseOfMovedValue);
    assert_eq!(err.variable, Some("x".to_string()));
    assert_eq!(err.origin, Some(at(3, 1)));
}

#[test]
fn call_moves_each_argument_once() {
    let mut analyzer = analyzer_with(vec![let_stmt(false, "x", text("hi"), 1)]);
    let twice = call("f", vec![ident("x", 2, 3), ident("x", 2, 6)]);
    let err = analyzer.analyze(&twice).unwrap_err();
    assert_eq!(err.kind, ErrorKind::UseOfMovedValue);
    assert_eq!((err.line, err.column), (2, 6));
}

#[test]
fn call_with_copy_argument_keeps_it() {
    let mut analyzer = analyzer_with(vec![
        let_stmt(false, "n", AstNode::Number(3), 1),
        call("f", vec![ident("n", 2, 3), ident("n", 2, 6)]),
        call("g", vec![ident("n", 3, 3)]),
    ]);
    assert!(!analyzer.lookup_variable("n").unwrap().consumed);
    assert_eq!(analyzer.analyze(&ident("n", 4, 1)), Ok(()));
}

#[test]
fn method_call_moves_object_and_arguments() {
    let mut analyzer = analyzer_with(vec![
        let_stmt(false, "s", text("a"), 1),
        let_stmt(false, "t", text("b"), 2),
        AstNode::MethodCall {
            object: Box::new(ident("s", 3, 1)),
            method: "push".to_string(),
            args: vec![ident("t", 3, 8)],
        },
    ]);
    assert!(analyzer.lookup_variable("s").unwrap().consumed);
    assert!(analyzer.lookup_variable("t").unwrap().consumed);
}

#[test]
fn comparison_moves_both_operands() {
    let mut analyzer = analyzer_with(vec![
        let_stmt(false, "s", text("a"), 1),
        let_stmt(false, "t", text("b"), 2),
        AstNode::BinaryOp {
            op: BinOp::Equal,
            left: Box::new(ident("s", 3, 1)),
            right: Box::new(ident("t", 3, 6)),
        },
    ]);
    assert!(analyzer.lookup_variable("s").unwrap().consumed);
    assert!(analyzer.lookup_variable("t").unwrap().consumed);
}

#[test]
fn string_added_to_itself_is_rejected() {
    let mut analyzer = analyzer_with(vec![let_stmt(false, "s", text("a"), 1)]);
    let sum = AstNode::BinaryOp {
        op: BinOp::Add,
        left: Box::new(ident("s", 2, 1)),
        right: Box::new(ident("s", 2, 5)),
    };
    let err = analyzer.analyze(&sum).unwrap_err();
    assert_eq!(err.kind, ErrorKind::UseOfMovedValue);
    assert_eq!((err.line, err.column), (2, 5));
}

#[test]
fn borrows_are_counted_and_never_consume() {
    let mut analyzer = analyzer_with(vec![let_stmt(false, "s", text("a"), 1)]);
    for round in 0..200 {
        assert_eq!(analyzer.analyze(&borrow("s", 2 + round, 4)), Ok(()));
        let state = analyzer.lookup_variable("s").unwrap();
        assert!(!state.consumed);
        assert_eq!(state.borrow_count, round + 1);
    }
}

#[test]
fn borrow_of_undeclared_name_changes_nothing() {
    let mut analyzer = SemanticAnalyzer::new("test.ast");
    analyzer.declare_variable("s", true, "string".to_string(), 1, 1);
    assert_eq!(analyzer.borrow_variable("s"), Ok(()));
    assert_eq!(analyzer.lookup_variable("s").unwrap().borrow_count, 1);
    assert_eq!(analyzer.borrow_variable("missing"), Ok(()));
    assert!(analyzer.lookup_variable("missing").is_none());
}

#[test]
fn borrow_of_copy_variable_is_counted() {
    let mut analyzer = analyzer_with(vec![
        let_stmt(true, "n", AstNode::Number(1), 1),
        borrow("n", 2, 2),
    ]);
    let state = analyzer.lookup_variable("n").unwrap();
    assert_eq!(state.borrow_count, 1);
    assert!(!state.consumed);
    assert_eq!(analyzer.analyze(&ident("n", 3, 1)), Ok(()));
    let err = analyzer.analyze(&assign("n", AstNode::Number(2), 4)).unwrap_err();
    assert_eq!(err.kind, ErrorKind::MutateWhileBorrowed);
}

#[test]
fn borrow_of_moved_value_is_rejected() {
    let mut analyzer = analyzer_with(vec![
        let_stmt(false, "s", text("a"), 1),
        let_stmt(false, "t", ident("s", 2, 9), 2),
    ]);
    let err = analyzer.analyze(&borrow("s", 3, 2)).unwrap_err();
    assert_eq!(err.kind, ErrorKind::UseOfMovedValue);
    assert_eq!((err.line, err.column), (3, 2));
    assert_eq!(analyzer.lookup_variable("s").unwrap().borrow_count, 0);
}

#[test]
fn borrow_of_undeclared_name_is_rejected() {
    let mut analyzer = SemanticAnalyzer::new("test.ast");
    let err = analyzer.analyze(&call("f", vec![borrow("ghost", 7, 3)])).unwrap_err();
    assert_eq!(err.kind, ErrorKind::UndefinedVariable);
    assert_eq!(err.variable, Some("ghost".to_string()));
    assert_eq!((err.line, err.column), (7, 3));
}

#[test]
fn reference_to_other_expression_is_visited() {
    let mut analyzer = analyzer_with(vec![let_stmt(false, "s", text("a"), 1)]);
    let node = AstNode::Reference(Box::new(AstNode::MemberAccess {
        object: Box::new(ident("s", 2, 2)),
        field: "len".to_string(),
    }));
    assert_eq!(analyzer.analyze(&node), Ok(()));
    let state = analyzer.lookup_variable("s").unwrap();
    assert!(state.consumed);
    assert_eq!(state.borrow_count, 0);
}

#[test]
fn undefined_variable_is_rejected() {
    let mut analyzer = SemanticAnalyzer::new("test.ast");
    let err = analyzer.analyze(&ident("ghost", 3, 4)).unwrap_err();
    assert_eq!(err.kind, ErrorKind::UndefinedVariable);
    assert_eq!(err.variable, Some("ghost".to_string()));
    assert_eq!(err.message, "cannot find value 'ghost' in this scope");
    assert_eq!(err.note, None);
    assert_eq!(err.help, None);
    assert_eq!(err.origin, None);
    assert_eq!(err.render(), "test.ast:3:4: Error: cannot find value 'ghost' in this scope");
}

#[test]
fn assignment_to_undeclared_name_is_rejected() {
    let mut analyzer = SemanticAnalyzer::new("test.ast");
    let err = analyzer.analyze(&assign("ghost", AstNode::Number(1), 8)).unwrap_err();
    assert_eq!(err.kind, ErrorKind::UndefinedVariable);
    assert_eq!((err.line, err.column), (8, 1));
}

#[test]
fn assignment_to_immutable_fails_for_every_type() {
    let values = vec![
        AstNode::Number(1),
        AstNode::Boolean(false),
        AstNode::Character('x'),
        text("s"),
        AstNode::ArrayLit(vec![AstNode::Number(1)]),
    ];
    for value in values {
        let mut analyzer = analyzer_with(vec![let_stmt(false, "x", value, 1)]);
        let err = analyzer.analyze(&assign("x", AstNode::Number(2), 2)).unwrap_err();
        assert_eq!(err.kind, ErrorKind::AssignToImmutable);
        assert_eq!(err.variable, Some("x".to_string()));
    }
}

#[test]
fn assignment_to_immutable_fails_in_every_state() {
    let mut analyzer = analyzer_with(vec![
        let_stmt(false, "moved", text("a"), 1),
        let_stmt(false, "other", ident("moved", 2, 9), 2),
        let_stmt(false, "lent", text("b"), 3),
        borrow("lent", 4, 2),
    ]);
    for name in ["moved", "lent"] {
        let err = analyzer.analyze(&assign(name, text("c"), 5)).unwrap_err();
        assert_eq!(err.kind, ErrorKind::AssignToImmutable);
        assert_eq!(err.variable, Some(name.to_string()));
    }
}

#[test]
fn assignment_value_is_not_visited_after_a_failure() {
    let mut analyzer = analyzer_with(vec![
        let_stmt(false, "x", AstNode::Number(1), 1),
        let_stmt(false, "s", text("a"), 2),
    ]);
    assert!(analyzer.analyze(&assign("x", ident("s", 3, 5), 3)).is_err());
    assert!(!analyzer.lookup_variable("s").unwrap().consumed);
}

#[test]
fn assignment_moves_its_value() {
    let mut analyzer = analyzer_with(vec![
        let_stmt(true, "x", text("a"), 1),
        let_stmt(false, "s", text("b"), 2),
        assign("x", ident("s", 3, 5), 3),
    ]);
    assert!(analyzer.lookup_variable("s").unwrap().consumed);
    assert!(!analyzer.lookup_variable("x").unwrap().consumed);
}

#[test]
fn assignment_to_moved_variable_is_rejected() {
    let mut analyzer = analyzer_with(vec![
        let_stmt(true, "x", text("a"), 1),
        let_stmt(false, "y", ident("x", 2, 9), 2),
    ]);
    let err = analyzer.analyze(&assign("x", text("b"), 3)).unwrap_err();
    assert_eq!(err.kind, ErrorKind::UseOfMovedValue);
    assert_eq!((err.line, err.column), (3, 1));
    assert_eq!(err.origin, Some(at(1, 1)));
}

#[test]
fn assignment_while_borrowed_is_rejected() {
    let mut analyzer = analyzer_with(vec![
        let_stmt(true, "x", text("a"), 1),
        borrow("x", 2, 2),
        borrow("x", 3, 2),
    ]);
    let err = analyzer.analyze(&assign("x", text("b"), 4)).unwrap_err();
    assert_eq!(err.kind, ErrorKind::MutateWhileBorrowed);
    assert_eq!(err.variable, Some("x".to_string()));
    assert_eq!(err.message, "cannot move 'x' while borrowed");
    assert_eq!(err.note, Some("2 active borrow(s) exist".to_string()));
    assert_eq!(err.help, None);
    assert_eq!(
        err.render(),
        "test.ast:4:1: Error: cannot move 'x' while borrowed\nNote: 2 active borrow(s) exist"
    );
}

#[test]
fn move_while_borrowed_is_rejected() {
    let mut analyzer = analyzer_with(vec![let_stmt(false, "s", text("a"), 1), borrow("s", 2, 2)]);
    let err = analyzer.analyze(&call("take", vec![ident("s", 3, 6)])).unwrap_err();
    assert_eq!(err.kind, ErrorKind::MoveWhileBorrowed);
    assert_eq!(err.variable, Some("s".to_string()));
    assert_eq!((err.line, err.column), (3, 6));
    assert_eq!(err.note, None);
    assert_eq!(err.render(), "test.ast:3:6: Error: cannot move 's' while borrowed");
    assert!(!analyzer.lookup_variable("s").unwrap().consumed);
}

// Borrows are never released, not even when the reference goes out of scope.
// This is how the analysis is defined; a program that a more precise analysis
// would accept is rejected here.
#[test]
fn borrow_outlives_the_block_it_was_taken_in() {
    let mut analyzer = analyzer_with(vec![
        let_stmt(false, "s", text("a"), 1),
        AstNode::Block(vec![let_stmt(false, "r", borrow("s", 2, 10), 2)]),
    ]);
    assert!(analyzer.lookup_variable("r").is_none());
    assert_eq!(analyzer.lookup_variable("s").unwrap().borrow_count, 1);
    let err = analyzer.analyze(&let_stmt(false, "t", ident("s", 4, 9), 4)).unwrap_err();
    assert_eq!(err.kind, ErrorKind::MoveWhileBorrowed);
}

#[test]
fn array_assignment_checks_the_array() {
    let element = |name: &str, line: usize| AstNode::ArrayAssignment {
        array: name.to_string(),
        index: Box::new(AstNode::Number(0)),
        value: Box::new(AstNode::Number(9)),
        location: at(line, 1),
    };
    let mut analyzer = analyzer_with(vec![
        let_stmt(true, "a", AstNode::ArrayLit(vec![AstNode::Number(1), AstNode::Number(2)]), 1),
        let_stmt(false, "b", AstNode::ArrayLit(vec![AstNode::Number(1)]), 2),
    ]);
    assert_eq!(analyzer.get_type("a"), Some("[int; 2]"));
    assert_eq!(analyzer.analyze(&element("a", 3)), Ok(()));
    assert_eq!(analyzer.analyze(&element("b", 4)).unwrap_err().kind, ErrorKind::AssignToImmutable);
    assert_eq!(analyzer.analyze(&element("c", 5)).unwrap_err().kind, ErrorKind::UndefinedVariable);

    assert_eq!(analyzer.analyze(&borrow("a", 6, 2)), Ok(()));
    assert_eq!(analyzer.analyze(&element("a", 7)), Ok(()));

    let mut analyzer = analyzer_with(vec![
        let_stmt(true, "a", AstNode::ArrayLit(vec![AstNode::Number(1)]), 1),
        let_stmt(false, "b", ident("a", 2, 9), 2),
    ]);
    assert_eq!(analyzer.analyze(&element("a", 3)).unwrap_err().kind, ErrorKind::UseOfMovedValue);
}

#[test]
fn array_assignment_visits_index_then_value() {
    let mut analyzer = analyzer_with(vec![
        let_stmt(true, "a", AstNode::ArrayLit(vec![AstNode::Number(1)]), 1),
        let_stmt(false, "s", text("x"), 2),
    ]);
    let node = AstNode::ArrayAssignment {
        array: "a".to_string(),
        index: Box::new(ident("s", 3, 3)),
        value: Box::new(ident("s", 3, 8)),
        location: at(3, 1),
    };
    let err = analyzer.analyze(&node).unwrap_err();
    assert_eq!(err.kind, ErrorKind::UseOfMovedValue);
    assert_eq!((err.line, err.column), (3, 8));
}

#[test]
fn jumps_need_a_loop() {
    let mut analyzer = SemanticAnalyzer::new("test.ast");
    let err = analyzer.analyze(&AstNode::Continue).unwrap_err();
    assert_eq!(err.kind, ErrorKind::ContinueOutsideLoop);
    assert_eq!(err.message, "'continue' outside of loop");
    assert_eq!(err.variable, None);
    assert_eq!((err.line, err.column), (1, 1));
    let err = analyzer.analyze(&AstNode::Break).unwrap_err();
    assert_eq!(err.kind, ErrorKind::BreakOutsideLoop);

    assert_eq!(analyzer.analyze(&while_loop(vec![AstNode::Break, AstNode::Continue])), Ok(()));
    let for_loop = AstNode::For {
        variable: "i".to_string(),
        iterator: Box::new(AstNode::Number(3)),
        body: Box::new(AstNode::Block(vec![AstNode::Continue, AstNode::Break])),
    };
    assert_eq!(analyzer.analyze(&for_loop), Ok(()));
    assert!(!analyzer.inside_loop());
    assert_eq!(analyzer.depth(), 1);
}

#[test]
fn jumps_are_found_through_nested_constructs() {
    let nested = |jump: AstNode| {
        AstNode::If {
            condition: Box::new(AstNode::Boolean(true)),
            then_block: Box::new(AstNode::Block(vec![AstNode::Match {
                value: Box::new(AstNode::Number(1)),
                arms: vec![MatchArm {
                    pattern: Pattern::Wildcard,
                    body: AstNode::Block(vec![AstNode::Block(vec![jump])]),
                }],
            }])),
            else_block: None,
        }
    };
    let mut analyzer = SemanticAnalyzer::new("test.ast");
    assert_eq!(analyzer.analyze(&while_loop(vec![nested(AstNode::Break)])), Ok(()));
    assert_eq!(analyzer.analyze(&while_loop(vec![nested(AstNode::Continue)])), Ok(()));
    assert_eq!(
        analyzer.analyze(&nested(AstNode::Break)).unwrap_err().kind,
        ErrorKind::BreakOutsideLoop
    );
    let mut analyzer = SemanticAnalyzer::new("test.ast");
    assert_eq!(
        analyzer.analyze(&function("f", vec![], vec![nested(AstNode::Continue)])).unwrap_err().kind,
        ErrorKind::ContinueOutsideLoop
    );
}

#[test]
fn jump_in_a_loop_condition_is_outside_the_loop() {
    let mut analyzer = SemanticAnalyzer::new("test.ast");
    let node = AstNode::While {
        condition: Box::new(AstNode::Break),
        body: Box::new(AstNode::Block(vec![])),
    };
    assert_eq!(analyzer.analyze(&node).unwrap_err().kind, ErrorKind::BreakOutsideLoop);
}

#[test]
fn jump_after_a_loop_is_outside_the_loop() {
    let mut analyzer = SemanticAnalyzer::new("test.ast");
    let program = AstNode::Program(vec![
        function("g", vec![], vec![while_loop(vec![call("f", vec![])])]),
        function("f", vec![], vec![while_loop(vec![]), AstNode::Break]),
    ]);
    assert_eq!(analyzer.analyze(&program).unwrap_err().kind, ErrorKind::BreakOutsideLoop);
}

#[test]
fn inner_loop_restores_the_flag_of_the_outer_loop() {
    let mut analyzer = SemanticAnalyzer::new("test.ast");
    let program = while_loop(vec![while_loop(vec![AstNode::Break]), AstNode::Break]);
    assert_eq!(analyzer.analyze(&program), Ok(()));
    assert!(!analyzer.inside_loop());
}

#[test]
fn shadowing_leaves_the_outer_variable_alone() {
    let mut analyzer = analyzer_with(vec![
        let_stmt(false, "x", AstNode::Number(1), 1),
        AstNode::Block(vec![
            let_stmt(false, "x", text("s"), 3),
            borrow("x", 4, 2),
            AstNode::Block(vec![borrow("x", 5, 2)]),
        ]),
    ]);
    let outer = analyzer.lookup_variable("x").unwrap();
    assert_eq!(outer.semantic_type, "int");
    assert_eq!(outer.declared_at, at(1, 1));
    assert_eq!(outer.borrow_count, 0);
    assert!(!outer.consumed);
    assert_eq!(analyzer.depth(), 1);
}

#[test]
fn shadowing_a_string_keeps_the_outer_one_live() {
    let mut analyzer = analyzer_with(vec![
        let_stmt(false, "x", text("outer"), 1),
        AstNode::Block(vec![
            let_stmt(false, "x", text("inner"), 3),
            let_stmt(false, "y", ident("x", 4, 9), 4),
        ]),
        let_stmt(false, "z", ident("x", 6, 9), 6),
    ]);
    assert!(analyzer.lookup_variable("x").unwrap().consumed);
    assert!(analyzer.lookup_variable("y").is_none());
    assert!(analyzer.lookup_variable("z").is_some());
}

#[test]
fn inner_scope_sees_and_moves_outer_variables() {
    let mut analyzer = analyzer_with(vec![
        let_stmt(false, "s", text("a"), 1),
        AstNode::Block(vec![let_stmt(false, "t", ident("s", 2, 9), 2)]),
    ]);
    assert!(analyzer.lookup_variable("s").unwrap().consumed);
    let err = analyzer.analyze(&ident("s", 4, 1)).unwrap_err();
    assert_eq!(err.kind, ErrorKind::UseOfMovedValue);
}

#[test]
fn redeclaration_in_the_same_frame_starts_afresh() {
    let mut analyzer = analyzer_with(vec![
        let_stmt(false, "x", text("a"), 1),
        borrow("x", 2, 2),
        let_stmt(true, "x", text("b"), 3),
    ]);
    let state = analyzer.lookup_variable("x").unwrap();
    assert_eq!(state.borrow_count, 0);
    assert!(!state.consumed);
    assert!(state.mutable);
    assert_eq!(state.declared_at, at(3, 1));
}

#[test]
fn let_of_itself_declares_a_fresh_variable() {
    let mut analyzer = analyzer_with(vec![
        let_stmt(false, "x", text("a"), 1),
        let_stmt(false, "x", ident("x", 2, 9), 2),
    ]);
    let state = analyzer.lookup_variable("x").unwrap();
    assert!(!state.consumed);
    assert_eq!(state.semantic_type, "string");
    assert_eq!(state.declared_at, at(2, 1));
    assert_eq!(analyzer.analyze(&ident("x", 3, 1)), Ok(()));
}

#[test]
fn declarations_end_with_their_block() {
    let mut analyzer = analyzer_with(vec![AstNode::Block(vec![let_stmt(
        false,
        "inner",
        AstNode::Number(1),
        1,
    )])]);
    assert_eq!(analyzer.analyze(&ident("inner", 3, 1)).unwrap_err().kind, ErrorKind::UndefinedVariable);
}

#[test]
fn branches_have_frames_of_their_own() {
    let branch = AstNode::If {
        condition: Box::new(AstNode::Boolean(true)),
        then_block: Box::new(let_stmt(false, "a", AstNode::Number(1), 2)),
        else_block: Some(Box::new(let_stmt(false, "b", AstNode::Number(2), 3))),
    };
    let arms = AstNode::Match {
        value: Box::new(AstNode::Number(1)),
        arms: vec![
            MatchArm {
                pattern: Pattern::Identifier("n".to_string()),
                body: let_stmt(false, "c", AstNode::Number(3), 5),
            },
            MatchArm {
                pattern: Pattern::EnumPattern {
                    enum_name: "E".to_string(),
                    variant: "V".to_string(),
                    binding: None,
                },
                body: AstNode::Number(4),
            },
        ],
    };
    let looped = AstNode::While {
        condition: Box::new(AstNode::Boolean(true)),
        body: Box::new(let_stmt(false, "d", AstNode::Number(4), 7)),
    };
    let analyzer = analyzer_with(vec![branch, arms, looped]);
    for name in ["a", "b", "c", "d"] {
        assert!(analyzer.lookup_variable(name).is_none());
    }
    assert_eq!(analyzer.depth(), 1);
}

#[test]
fn condition_is_visited_before_the_branches() {
    let mut analyzer = analyzer_with(vec![let_stmt(false, "s", text("a"), 1)]);
    let node = AstNode::If {
        condition: Box::new(ident("s", 2, 4)),
        then_block: Box::new(AstNode::Block(vec![ident("s", 3, 5)])),
        else_block: None,
    };
    let err = analyzer.analyze(&node).unwrap_err();
    assert_eq!(err.kind, ErrorKind::UseOfMovedValue);
    assert_eq!((err.line, err.column), (3, 5));
}

#[test]
fn both_branches_are_visited_in_order() {
    let mut analyzer = analyzer_with(vec![let_stmt(false, "s", text("a"), 1)]);
    let node = AstNode::If {
        condition: Box::new(AstNode::Boolean(true)),
        then_block: Box::new(AstNode::Block(vec![ident("s", 3, 5)])),
        else_block: Some(Box::new(AstNode::Block(vec![ident("s", 5, 5)]))),
    };
    let err = analyzer.analyze(&node).unwrap_err();
    assert_eq!(err.kind, ErrorKind::UseOfMovedValue);
    assert_eq!((err.line, err.column), (5, 5));
}

#[test]
fn matched_value_is_visited_before_the_arms() {
    let mut analyzer = analyzer_with(vec![let_stmt(false, "s", text("a"), 1)]);
    let node = AstNode::Match {
        value: Box::new(ident("s", 2, 7)),
        arms: vec![MatchArm { pattern: Pattern::Wildcard, body: ident("s", 3, 10) }],
    };
    let err = analyzer.analyze(&node).unwrap_err();
    assert_eq!((err.line, err.column), (3, 10));
}

#[test]
fn for_loop_declares_its_variable() {
    let mut analyzer = analyzer_with(vec![let_stmt(false, "n", AstNode::Number(3), 4)]);
    let node = AstNode::For {
        variable: "i".to_string(),
        iterator: Box::new(ident("n", 5, 10)),
        body: Box::new(AstNode::Block(vec![
            let_stmt(false, "j", ident("i", 6, 9), 6),
            assign("i", AstNode::Number(0), 7),
        ])),
    };
    let err = analyzer.analyze(&node).unwrap_err();
    assert_eq!(err.kind, ErrorKind::AssignToImmutable);
    assert_eq!(err.variable, Some("i".to_string()));
    let state = analyzer.lookup_variable("i").unwrap();
    assert_eq!(state.semantic_type, "int");
    assert_eq!(state.declared_at, at(5, 10));
    assert!(!state.mutable);
    assert_eq!(analyzer.depth(), 3);
    assert!(analyzer.inside_loop());
}

#[test]
fn for_loop_iterator_is_visited_outside_the_loop_scope() {
    let mut analyzer = analyzer_with(vec![let_stmt(false, "items", text("abc"), 1)]);
    let node = AstNode::For {
        variable: "items".to_string(),
        iterator: Box::new(ident("items", 2, 14)),
        body: Box::new(AstNode::Block(vec![ident("items", 3, 5), ident("items", 4, 5)])),
    };
    assert_eq!(analyzer.analyze(&node), Ok(()));
    assert!(analyzer.lookup_variable("items").unwrap().consumed);
    assert_eq!(analyzer.get_type("items"), Some("string"));
}

#[test]
fn function_parameters_are_declared_in_the_function_scope() {
    let params = vec![
        Parameter {
            is_reference: false,
            is_mutable: true,
            name: "count".to_string(),
            param_type: "int".to_string(),
        },
        Parameter {
            is_reference: true,
            is_mutable: false,
            name: "label".to_string(),
            param_type: "string".to_string(),
        },
    ];
    let body = vec![
        assign("count", AstNode::Number(0), 2),
        let_stmt(false, "copy", ident("label", 3, 9), 3),
        assign("label", text("x"), 4),
    ];
    let mut analyzer = SemanticAnalyzer::new("test.ast");
    let err = analyzer.analyze(&function("f", params, body)).unwrap_err();
    assert_eq!(err.kind, ErrorKind::AssignToImmutable);
    assert_eq!(err.variable, Some("label".to_string()));
    let label = analyzer.lookup_variable("label").unwrap();
    assert!(label.consumed);
    assert_eq!(label.declared_at, at(0, 0));
    assert!(analyzer.lookup_variable("count").unwrap().mutable);
}

#[test]
fn function_scope_ends_with_the_function() {
    let params = vec![Parameter {
        is_reference: false,
        is_mutable: false,
        name: "p".to_string(),
        param_type: "int".to_string(),
    }];
    let analyzer = analyzer_with(vec![function("f", params, vec![ident("p", 2, 1)])]);
    assert!(analyzer.lookup_variable("p").is_none());
    assert_eq!(analyzer.depth(), 1);
}

#[test]
fn failure_leaves_the_scopes_open() {
    let mut analyzer = SemanticAnalyzer::new("test.ast");
    let program = AstNode::Block(vec![AstNode::Block(vec![ident("ghost", 2, 1)])]);
    assert!(analyzer.analyze(&program).is_err());
    assert_eq!(analyzer.depth(), 3);
}

#[test]
fn first_violation_ends_the_walk() {
    let mut analyzer = SemanticAnalyzer::new("test.ast");
    let program = AstNode::Program(vec![
        ident("first", 1, 1),
        AstNode::Break,
        ident("second", 3, 1),
    ]);
    let err = analyzer.analyze(&program).unwrap_err();
    assert_eq!(err.variable, Some("first".to_string()));
    assert_eq!(analyzer.position(), at(1, 1));
}

#[test]
fn aggregates_visit_every_part() {
    let parts = |line: usize| {
        vec![
            AstNode::ArrayLit(vec![AstNode::Number(1), ident("s", line, 1)]),
            AstNode::StructInit {
                name: "P".to_string(),
                fields: vec![
                    ("a".to_string(), AstNode::Number(1)),
                    ("b".to_string(), ident("s", line, 2)),
                ],
            },
            AstNode::EnumValue {
                enum_name: "E".to_string(),
                variant: "V".to_string(),
                value: Some(Box::new(ident("s", line, 3))),
            },
            AstNode::Index {
                array: Box::new(AstNode::ArrayLit(vec![])),
                index: Box::new(ident("s", line, 4)),
            },
            AstNode::UnaryOp { op: UnOp::Not, operand: Box::new(ident("s", line, 5)) },
            AstNode::Return(Some(Box::new(ident("s", line, 6)))),
            AstNode::ExpressionStatement(Box::new(ident("s", line, 7))),
            AstNode::MemberAccess { object: Box::new(ident("s", line, 8)), field: "f".to_string() },
        ]
    };
    for (column, node) in parts(2).into_iter().enumerate() {
        let mut analyzer = analyzer_with(vec![let_stmt(false, "s", text("a"), 1)]);
        assert_eq!(analyzer.analyze(&node), Ok(()));
        assert!(analyzer.lookup_variable("s").unwrap().consumed);
        assert_eq!(analyzer.position(), at(2, column + 1));
    }
}

#[test]
fn definitions_and_literals_are_accepted() {
    let nodes = vec![
        AstNode::StructDef { name: "P".to_string(), fields: vec![] },
        AstNode::EnumDef { name: "E".to_string(), variants: vec![] },
        AstNode::ArrayType { element_type: "int".to_string(), size: 3 },
        AstNode::Number(-4),
        AstNode::Boolean(true),
        AstNode::Character('q'),
        text("t"),
        AstNode::Return(None),
        AstNode::EnumValue { enum_name: "E".to_string(), variant: "V".to_string(), value: None },
        AstNode::Program(vec![]),
        AstNode::Block(vec![]),
    ];
    let mut analyzer = SemanticAnalyzer::new("test.ast");
    for node in &nodes {
        assert_eq!(analyzer.analyze(node), Ok(()));
    }
    assert_eq!(analyzer.depth(), 1);
    assert_eq!(analyzer.position(), at(1, 1));
}

#[test]
fn annotation_overrides_the_inferred_type() {
    let mut analyzer = SemanticAnalyzer::new("test.ast");
    let node = AstNode::LetBinding {
        mutable: false,
        name: "x".to_string(),
        type_annotation: Some("string".to_string()),
        value: Box::new(AstNode::Number(1)),
        location: at(1, 1),
    };
    assert_eq!(analyzer.analyze(&node), Ok(()));
    assert_eq!(analyzer.get_type("x"), Some("string"));
    assert!(!analyzer.is_copy_type("x"));
    let node = AstNode::LetBinding {
        mutable: false,
        name: "p".to_string(),
        type_annotation: Some("Point".to_string()),
        value: Box::new(AstNode::StructInit { name: "Point".to_string(), fields: vec![] }),
        location: at(2, 1),
    };
    assert_eq!(analyzer.analyze(&node), Ok(()));
    assert!(!analyzer.is_copy_type("p"));
}

#[test]
fn types_are_inferred_from_expressions() {
    let mut analyzer = analyzer_with(vec![
        let_stmt(false, "n", AstNode::Number(1), 1),
        let_stmt(false, "s", text("a"), 2),
    ]);
    let sum = AstNode::BinaryOp {
        op: BinOp::LessThan,
        left: Box::new(ident("n", 3, 1)),
        right: Box::new(text("b")),
    };
    assert_eq!(analyzer.infer_type(&AstNode::Number(3)), "int");
    assert_eq!(analyzer.infer_type(&AstNode::Boolean(true)), "bool");
    assert_eq!(analyzer.infer_type(&AstNode::Character('c')), "char");
    assert_eq!(analyzer.infer_type(&text("t")), "string");
    assert_eq!(analyzer.infer_type(&ident("s", 3, 1)), "string");
    assert_eq!(analyzer.infer_type(&ident("ghost", 3, 1)), "unknown");
    assert_eq!(analyzer.infer_type(&sum), "int");
    assert_eq!(analyzer.infer_type(&AstNode::ArrayLit(vec![])), "[int; 0]");
    assert_eq!(
        analyzer.infer_type(&AstNode::ArrayLit(vec![text("a"), AstNode::Number(1), text("c")])),
        "[string; 3]"
    );
    let rows: Vec<AstNode> = (0..12)
        .map(|_| AstNode::ArrayLit(vec![AstNode::Boolean(true), AstNode::Boolean(false)]))
        .collect();
    assert_eq!(analyzer.infer_type(&AstNode::ArrayLit(rows)), "[[bool; 2]; 12]");
    assert_eq!(analyzer.infer_type(&call("f", vec![])), "unknown");
    assert_eq!(analyzer.infer_type(&borrow("n", 1, 1)), "unknown");
    assert_eq!(analyzer.analyze(&let_stmt(false, "u", call("f", vec![]), 9)), Ok(()));
    assert!(!analyzer.is_copy_type("u"));
}

#[test]
fn checks_can_be_made_one_by_one() {
    let mut analyzer = SemanticAnalyzer::new("test.ast");
    analyzer.declare_variable("s", false, "string".to_string(), 2, 3);
    assert_eq!(analyzer.check_variable_exists("s"), Ok(()));
    assert_eq!(analyzer.check_not_consumed("s"), Ok(()));
    assert_eq!(analyzer.check_not_borrowed("s"), Ok(()));
    assert_eq!(analyzer.check_is_mutable("s").unwrap_err().kind, ErrorKind::AssignToImmutable);
    assert_eq!(analyzer.check_assignable("s", true).unwrap_err().kind, ErrorKind::AssignToImmutable);

    assert_eq!(analyzer.check_variable_exists("t").unwrap_err().kind, ErrorKind::UndefinedVariable);
    assert_eq!(analyzer.check_not_consumed("t"), Ok(()));
    assert_eq!(analyzer.check_is_mutable("t"), Ok(()));
    assert_eq!(analyzer.check_not_borrowed("t"), Ok(()));
    assert_eq!(analyzer.consume_variable("t"), Ok(()));

    assert_eq!(analyzer.consume_variable("s"), Ok(()));
    assert!(analyzer.lookup_variable("s").unwrap().consumed);
    assert_eq!(analyzer.check_not_consumed("s").unwrap_err().kind, ErrorKind::UseOfMovedValue);
    assert_eq!(analyzer.consume_variable("s"), Ok(()));

    analyzer.push_scope();
    assert_eq!(analyzer.depth(), 2);
    analyzer.declare_variable("s", true, "int".to_string(), 4, 1);
    assert_eq!(analyzer.check_not_consumed("s"), Ok(()));
    assert_eq!(analyzer.check_assignable("s", true), Ok(()));
    assert_eq!(analyzer.consume_variable("s"), Ok(()));
    assert!(!analyzer.lookup_variable("s").unwrap().consumed);
    assert_eq!(analyzer.borrow_variable("s"), Ok(()));
    assert_eq!(analyzer.check_not_borrowed("s").unwrap_err().kind, ErrorKind::MutateWhileBorrowed);
    assert_eq!(analyzer.check_assignable("s", false), Ok(()));
    assert_eq!(analyzer.check_assignable("s", true).unwrap_err().kind, ErrorKind::MutateWhileBorrowed);
    analyzer.pop_scope();
    assert_eq!(analyzer.depth(), 1);
    assert_eq!(analyzer.get_type("s"), Some("string"));
    assert_eq!(analyzer.lookup_variable("s").unwrap().borrow_count, 0);
    analyzer.pop_scope();
    analyzer.pop_scope();
    assert_eq!(analyzer.depth(), 0);
    assert!(analyzer.lookup_variable("s").is_none());
}

#[test]
fn jump_checks_follow_the_loop_flag() {
    let mut analyzer = SemanticAnalyzer::new("test.ast");
    assert_eq!(analyzer.check_jump(true).unwrap_err().kind, ErrorKind::BreakOutsideLoop);
    assert_eq!(analyzer.check_jump(false).unwrap_err().kind, ErrorKind::ContinueOutsideLoop);
    let failing = while_loop(vec![ident("ghost", 2, 1)]);
    assert!(analyzer.analyze(&failing).is_err());
    assert!(analyzer.inside_loop());
    assert_eq!(analyzer.check_jump(true), Ok(()));
    assert_eq!(analyzer.check_jump(false), Ok(()));
}

#[test]
fn reads_and_references_can_be_made_directly() {
    let mut analyzer = SemanticAnalyzer::new("test.ast");
    analyzer.declare_variable("s", false, "string".to_string(), 1, 1);
    assert_eq!(analyzer.reference_variable("s", at(2, 2)), Ok(()));
    assert_eq!(analyzer.position(), at(2, 2));
    let err = analyzer.read_variable("s", at(3, 3)).unwrap_err();
    assert_eq!(err.kind, ErrorKind::MoveWhileBorrowed);
    assert_eq!((err.line, err.column), (3, 3));
    analyzer.declare_variable("t", false, "string".to_string(), 4, 1);
    assert_eq!(analyzer.read_variable("t", at(5, 1)), Ok(()));
    assert_eq!(analyzer.reference_variable("t", at(6, 1)).unwrap_err().kind, ErrorKind::UseOfMovedValue);
    assert_eq!(analyzer.read_variable("u", at(7, 1)).unwrap_err().kind, ErrorKind::UndefinedVariable);
}
