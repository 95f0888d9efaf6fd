use kaleipl::error::CompilerError;
use kaleipl::frontend::{Analysis, analyze};
use kaleipl::lexer::tokens::LexerError;
use kaleipl::parser::decl::{Arg, DeclKind, Program, Prototype};
use kaleipl::parser::expr::{ConsKind, Expr, ExprKind, VarInfo};
use kaleipl::parser::literals::Literal;
use kaleipl::parser::op::BinaryOp;
use kaleipl::parser::parsing::ParserErrorKind;
use kaleipl::parser::precedence::PrecedenceTable;
use kaleipl::parser::types::TypeKind;
use kaleipl::semantics::symbols::SymbolTable;
use kaleipl::semantics::type_checking::{
    SemanticErrorKind, type_check_decl, type_check_expr, type_check_expr_checked, type_check_literal,
    type_check_program, type_check_program_checked, type_check_prototype, type_check_prototype_checked,
};

fn t(k: TypeKind) -> Box<TypeKind> {
    Box::new(k)
}

fn int_lit(n: i64) -> Expr {
    Box::new(ExprKind::Literal(Literal::I64(n)))
}

fn dbl(s: &str) -> Expr {
    Box::new(ExprKind::Literal(Literal::F64(s.to_string())))
}

fn id(n: &str) -> Expr {
    Box::new(ExprKind::Identifier(n.to_string(), None))
}

fn table_with_scope() -> SymbolTable {
    let mut st = SymbolTable::new();
    st.push();
    st
}

fn default_table() -> PrecedenceTable {
    let mut p = PrecedenceTable::new();
    p.insert('=', 2);
    p.insert('<', 10);
    p.insert('+', 20);
    p.insert('-', 20);
    p.insert('*', 40);
    p
}

#[test]
fn symbol_table_get_after_insert() {
    let mut st = SymbolTable::new();
    assert_eq!(st.len(), 0);
    st.push();
    st.push();
    assert_eq!(st.insert("x".to_string(), Some(t(TypeKind::I64)), 0), None);
    assert_eq!(st.get(&"x".to_string()), (Some(Some(t(TypeKind::I64))), 1));
    assert_eq!(st.insert("x".to_string(), None, 1), None);
    assert_eq!(st.get(&"x".to_string()), (Some(None), 0));
    assert_eq!(st.insert("x".to_string(), Some(t(TypeKind::F64)), 1), Some(None));
    st.pop();
    assert_eq!(st.get(&"x".to_string()), (Some(Some(t(TypeKind::I64))), 0));
    assert_eq!(st.get(&"y".to_string()), (None, 0));
    st.pop();
    st.pop();
    assert_eq!(st.len(), 0);
}

#[test]
fn symbol_table_prototypes() {
    let mut st = SymbolTable::default();
    let p = Prototype::new("f".to_string(), vec![], Some(t(TypeKind::Unit)));
    assert_eq!(st.get_proto(&"f".to_string()), None);
    assert_eq!(st.insert_proto("f".to_string(), p), None);
    assert_eq!(
        st.get_proto(&"f".to_string()),
        Some(Prototype::new("f".to_string(), vec![], Some(t(TypeKind::Unit))))
    );
}

#[test]
fn check_literals() {
    assert_eq!(type_check_literal(&Literal::I64(3)), t(TypeKind::I64));
    assert_eq!(type_check_literal(&Literal::F64("1.5".to_string())), t(TypeKind::F64));
    assert_eq!(type_check_literal(&Literal::Unit), t(TypeKind::Unit));
}

#[test]
fn check_arithmetic_and_comparison() {
    let mut st = table_with_scope();
    let mut e: Expr = Box::new(ExprKind::Binary(BinaryOp::Add, dbl("1.0"), dbl("2.0")));
    assert_eq!(type_check_expr(&mut e, &mut st), Ok(t(TypeKind::F64)));
    let mut c: Expr = Box::new(ExprKind::Binary(BinaryOp::Lt, dbl("1.0"), dbl("2.0")));
    assert_eq!(type_check_expr(&mut c, &mut st), Ok(t(TypeKind::I64)));
}

#[test]
fn check_type_mismatch() {
    let mut st = table_with_scope();
    let mut e: Expr = Box::new(ExprKind::Binary(BinaryOp::Mult, int_lit(1), dbl("2.0")));
    assert_eq!(
        type_check_expr(&mut e, &mut st),
        Err(SemanticErrorKind::TypeMismatch { expected: t(TypeKind::I64), found: t(TypeKind::F64) })
    );
}

#[test]
fn check_undefined_and_uninitialized_variables() {
    let mut st = table_with_scope();
    let mut e = id("nope");
    assert_eq!(
        type_check_expr(&mut e, &mut st),
        Err(SemanticErrorKind::UndefinedVariable { name: "nope".to_string() })
    );
    st.insert("u".to_string(), None, 0);
    let mut u = id("u");
    assert_eq!(
        type_check_expr(&mut u, &mut st),
        Err(SemanticErrorKind::UninitializedVariable { name: "u".to_string() })
    );
}

#[test]
fn check_records_identifier_type() {
    let mut st = table_with_scope();
    st.insert("x".to_string(), Some(t(TypeKind::I64)), 0);
    let mut e = id("x");
    assert_eq!(type_check_expr(&mut e, &mut st), Ok(t(TypeKind::I64)));
    assert_eq!(e, Box::new(ExprKind::Identifier("x".to_string(), Some(t(TypeKind::I64)))));
}

#[test]
fn check_var_infers_type_from_assignment() {
    let mut st = table_with_scope();
    let assign: Expr = Box::new(ExprKind::Binary(BinaryOp::Assign, id("v"), int_lit(4)));
    let body: Expr = Box::new(ExprKind::Sequence(vec![assign, id("v")]));
    let mut e: Expr = Box::new(ExprKind::Var(vec![VarInfo { name: "v".to_string(), t: None, val: None }], body));
    assert_eq!(type_check_expr(&mut e, &mut st), Ok(t(TypeKind::I64)));
    match &*e {
        ExprKind::Var(vars, _) => assert_eq!(vars[0].t, Some(t(TypeKind::I64))),
        other => panic!("not a var: {:?}", other),
    }
    assert_eq!(st.len(), 1);
}

#[test]
fn check_sequence_needs_unit_before_last() {
    let mut st = table_with_scope();
    let mut e: Expr = Box::new(ExprKind::Sequence(vec![int_lit(1), int_lit(2)]));
    assert_eq!(
        type_check_expr(&mut e, &mut st),
        Err(SemanticErrorKind::TypeMismatch { expected: t(TypeKind::Unit), found: t(TypeKind::I64) })
    );
    let mut empty: Expr = Box::new(ExprKind::Sequence(vec![]));
    assert_eq!(type_check_expr(&mut empty, &mut st), Ok(t(TypeKind::Unit)));
}

#[test]
fn check_tuples_lists_and_projection() {
    let mut st = table_with_scope();
    let mut tup: Expr = Box::new(ExprKind::Cons(vec![int_lit(1), dbl("2.0")], ConsKind::Tuple));
    assert_eq!(
        type_check_expr(&mut tup, &mut st),
        Ok(t(TypeKind::Tuple(vec![t(TypeKind::I64), t(TypeKind::F64)])))
    );
    let mut list: Expr = Box::new(ExprKind::Cons(vec![int_lit(1), dbl("2.0")], ConsKind::List));
    assert_eq!(type_check_expr(&mut list, &mut st), Err(SemanticErrorKind::UniqueTypes));
    let mut ok_list: Expr = Box::new(ExprKind::Cons(vec![int_lit(1), int_lit(2)], ConsKind::List));
    assert_eq!(type_check_expr(&mut ok_list, &mut st), Ok(t(TypeKind::List(Some(t(TypeKind::I64))))));
    let tup2: Expr = Box::new(ExprKind::Cons(vec![int_lit(1), dbl("2.0")], ConsKind::Tuple));
    let mut proj: Expr = Box::new(ExprKind::Projection(tup2, int_lit(1), None));
    assert_eq!(type_check_expr(&mut proj, &mut st), Ok(t(TypeKind::F64)));
    let tup3: Expr = Box::new(ExprKind::Cons(vec![int_lit(1), dbl("2.0")], ConsKind::Tuple));
    let mut bad: Expr = Box::new(ExprKind::Projection(tup3, int_lit(2), None));
    assert_eq!(
        type_check_expr(&mut bad, &mut st),
        Err(SemanticErrorKind::InvalidField {
            idx: 2,
            on: t(TypeKind::Tuple(vec![t(TypeKind::I64), t(TypeKind::F64)])),
        })
    );
}

#[test]
fn check_calls() {
    let mut st = table_with_scope();
    let mut ext = DeclKind::Extern(Prototype::new(
        "g".to_string(),
        vec![Arg::new("a".to_string(), t(TypeKind::F64))],
        Some(t(TypeKind::F64)),
    ));
    assert_eq!(type_check_decl(&mut ext, &mut st), Ok(()));
    let mut call: Expr = Box::new(ExprKind::Call("g".to_string(), vec![dbl("1.0")], None));
    assert_eq!(type_check_expr(&mut call, &mut st), Ok(t(TypeKind::F64)));
    assert_eq!(call, Box::new(ExprKind::Call("g".to_string(), vec![dbl("1.0")], Some(t(TypeKind::F64)))));
    let mut wrong: Expr = Box::new(ExprKind::Call("g".to_string(), vec![], None));
    assert_eq!(
        type_check_expr(&mut wrong, &mut st),
        Err(SemanticErrorKind::InvalidArgumentSize { expected: 1, found: 0 })
    );
    let mut unknown: Expr = Box::new(ExprKind::Call("h".to_string(), vec![], None));
    assert_eq!(
        type_check_expr(&mut unknown, &mut st),
        Err(SemanticErrorKind::UnknownFunction { name: "h".to_string() })
    );
    let mut op: Expr = Box::new(ExprKind::Binary(BinaryOp::UserDefined('|'), int_lit(1), int_lit(2)));
    assert_eq!(type_check_expr(&mut op, &mut st), Err(SemanticErrorKind::UnknownOperator { name: '|' }));
}

#[test]
fn check_if_and_for() {
    let mut st = table_with_scope();
    let mut e: Expr = Box::new(ExprKind::IfThenElse(int_lit(1), dbl("1.0"), dbl("2.0")));
    assert_eq!(type_check_expr(&mut e, &mut st), Ok(t(TypeKind::F64)));
    let mut bad: Expr = Box::new(ExprKind::IfThenElse(Box::new(ExprKind::Literal(Literal::Unit)), int_lit(1), int_lit(2)));
    assert_eq!(
        type_check_expr(&mut bad, &mut st),
        Err(SemanticErrorKind::TypeMismatch { expected: t(TypeKind::I64), found: t(TypeKind::Unit) })
    );
    let mut f: Expr = Box::new(ExprKind::ForLoop("i".to_string(), int_lit(0), int_lit(10), Some(int_lit(1)), id("i")));
    assert_eq!(type_check_expr(&mut f, &mut st), Ok(t(TypeKind::Unit)));
    assert_eq!(st.len(), 1);
}

#[test]
fn check_immutable_projection_target() {
    let mut st = table_with_scope();
    let tup: Expr = Box::new(ExprKind::Cons(vec![int_lit(1), int_lit(2)], ConsKind::Tuple));
    let target: Expr = Box::new(ExprKind::Projection(tup, int_lit(0), None));
    let mut e: Expr = Box::new(ExprKind::Binary(BinaryOp::Assign, target, int_lit(3)));
    match type_check_expr(&mut e, &mut st) {
        Err(SemanticErrorKind::Immutable { .. }) => {},
        other => panic!("unexpected result {:?}", other),
    }
}

#[test]
fn check_prototype_rejects_single_tuple() {
    let mut st = table_with_scope();
    let p = Prototype::new(
        "f".to_string(),
        vec![Arg::new("a".to_string(), t(TypeKind::Tuple(vec![t(TypeKind::I64)])))],
        None,
    );
    assert_eq!(
        type_check_prototype(&p, &mut st),
        Err(SemanticErrorKind::UnknownType { name: t(TypeKind::Tuple(vec![t(TypeKind::I64)])) })
    );
    let mut empty = SymbolTable::new();
    let q = Prototype::new("g".to_string(), vec![Arg::new("a".to_string(), t(TypeKind::I64))], None);
    assert_eq!(type_check_prototype_checked(&q, &mut empty), None);
}

#[test]
fn check_program_infers_return_type() {
    let mut st = SymbolTable::new();
    let mut prog: Program = vec![DeclKind::Function(
        Prototype::new("f".to_string(), vec![Arg::new("x".to_string(), t(TypeKind::F64))], None),
        Box::new(ExprKind::Binary(BinaryOp::Add, id("x"), dbl("1.0"))),
    )];
    assert_eq!(type_check_program(&mut prog, &mut st), Ok(()));
    match &prog[0] {
        DeclKind::Function(p, _) => assert_eq!(p.ret_type, Some(t(TypeKind::F64))),
        _ => panic!("not a function"),
    }
    assert_eq!(st.len(), 0);
    assert_eq!(
        st.get_proto(&"f".to_string()),
        Some(Prototype::new("f".to_string(), vec![Arg::new("x".to_string(), t(TypeKind::F64))], None))
    );
}

#[test]
fn check_call_of_function_without_return_type_stops() {
    let mut st = SymbolTable::new();
    let mut prog: Program = vec![
        DeclKind::Function(Prototype::new("f".to_string(), vec![], None), int_lit(1)),
        DeclKind::Function(
            Prototype::new("__anon_expr".to_string(), vec![], None),
            Box::new(ExprKind::Call("f".to_string(), vec![], None)),
        ),
    ];
    assert_eq!(type_check_program_checked(&mut prog, &mut st), None);
    let mut e: Expr = Box::new(ExprKind::Call("f".to_string(), vec![], None));
    assert_eq!(type_check_expr_checked(&mut e, &mut st), None);
}

#[test]
fn analyze_whole_inputs() {
    let mut prec = default_table();
    let mut st = SymbolTable::new();
    match analyze("def f(x: double) -> double x * 2.0", &mut prec, &mut st) {
        Some(Ok(Analysis::Checked(p))) => assert_eq!(p.len(), 1),
        other => panic!("unexpected result {:?}", other),
    }
    match analyze("def g(x: int) -> double x", &mut prec, &mut st) {
        Some(Err(SemanticErrorKind::TypeMismatch { expected, found })) => {
            assert_eq!(expected, t(TypeKind::F64));
            assert_eq!(found, t(TypeKind::I64));
        },
        other => panic!("unexpected result {:?}", other),
    }
    match analyze("def (", &mut prec, &mut st) {
        Some(Ok(Analysis::ParseErrors(es))) => assert!(!es.is_empty()),
        other => panic!("unexpected result {:?}", other),
    }
    match analyze("def binary% 7 (a: int b: int) -> int a", &mut prec, &mut st) {
        Some(Ok(Analysis::Checked(_))) => assert_eq!(prec.get('%'), Some(7)),
        other => panic!("unexpected result {:?}", other),
    }
}

#[test]
fn compiler_error_conversions() {
    match CompilerError::from(ParserErrorKind::LexerError(LexerError::UnknownChar('#'))) {
        CompilerError::Lexer(LexerError::UnknownChar(c)) => assert_eq!(c, '#'),
        other => panic!("unexpected {:?}", other),
    }
    match CompilerError::from(ParserErrorKind::UnexpectedEof) {
        CompilerError::Parser(ParserErrorKind::UnexpectedEof) => {},
        other => panic!("unexpected {:?}", other),
    }
    match CompilerError::from(SemanticErrorKind::UniqueTypes) {
        CompilerError::Semantic(SemanticErrorKind::UniqueTypes) => {},
        other => panic!("unexpected {:?}", other),
    }
    let io = std::io::Error::new(std::io::ErrorKind::Other, "disk");
    match CompilerError::from(io) {
        CompilerError::Io(e) => assert_eq!(e.to_string(), "disk"),
        other => panic!("unexpected {:?}", other),
    }
}
