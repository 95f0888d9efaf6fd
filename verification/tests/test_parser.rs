use kaleipl::lexer::scanner::tokenize;
use kaleipl::lexer::tokens::{LexerError, TokenKind};
use kaleipl::lexer::keywords::Keyword;
use kaleipl::parser::decl::{Arg, DeclKind, Program, Prototype};
use kaleipl::parser::expr::{ConsKind, ExprKind, VarInfo};
use kaleipl::parser::literals::Literal;
use kaleipl::parser::op::{BinaryOp, UnaryOp};
use kaleipl::parser::parsing::{Parser, ParserErrorKind};
use kaleipl::parser::precedence::PrecedenceTable;
use kaleipl::parser::types::TypeKind;

fn default_table() -> PrecedenceTable {
    let mut t = PrecedenceTable::new();
    t.insert('=', 2);
    t.insert('<', 10);
    t.insert('+', 20);
    t.insert('-', 20);
    t.insert('*', 40);
    t
}

fn parse(input: &str) -> (Option<Result<Program, Vec<ParserErrorKind>>>, PrecedenceTable) {
    let mut parser = Parser::new(tokenize(input), default_table());
    let r = parser.parse_program_checked();
    (r, parser.into_binop_precedence())
}

fn id(n: &str) -> Box<ExprKind> {
    Box::new(ExprKind::Identifier(n.to_string(), None))
}

fn int_lit(n: i64) -> Box<ExprKind> {
    Box::new(ExprKind::Literal(Literal::I64(n)))
}

fn dbl(s: &str) -> Box<ExprKind> {
    Box::new(ExprKind::Literal(Literal::F64(s.to_string())))
}

fn f64t() -> Box<TypeKind> {
    Box::new(TypeKind::F64)
}

fn assert_ast(ast: &Program, expected_ast: &Program) {
    for (i, node) in ast.iter().enumerate() {
        assert_eq!(*node, expected_ast[i]);
    }
}

#[test]
fn test_program() {
    let input = "extern putchard(x: double) : double;

def binary| 5 (LHS: double RHS: double) : double if LHS then 1.0 else if RHS then 1.0 else 0.0;

def binary> 10 (x: double y: double): double if y < x then 1.0 else 0.0;

def printdensity(d: double): double if d > 8.0 then putchard(32.0) else if d > 4.0 then putchard(46.0) else if d > 2.0 then putchard(43.0) else putchard(42.0); 

def binary: 1 (x: double y: double): double y;

def mandelconverger(real: double imag: double iters: double creal: double cimag: double): double if iters > 255.0 | (real*real + imag*imag > 4.0) then iters else mandelconverger(real*real - imag*imag + creal, 2.0*real*imag + cimag, iters+1.0, creal, cimag);

def mandelconverge(real: double imag: double): double mandelconverger(real, imag, 0.0, real, imag);

def mandelhelp(xmin: double xmax: double xstep: double ymin: double ymax: double ystep: double): double for y = ymin, y < ymax, ystep in (( for x = xmin, x < xmax, xstep in printdensity(mandelconverge(x,y))) : putchard(10.0));

def mandel(realstart: double imagstart: double realmag: double imagmag: double): double mandelhelp(realstart, realstart + realmag*78.0, realmag, imagstart, imagstart+imagmag*40.0, imagmag);

def unary- (v: double): double 0.0-v;

mandel(-2.3, -1.3, 0.05, 0.07);
";
    let mut binop_precedence = PrecedenceTable::new();
    binop_precedence.insert('=', 2);
    binop_precedence.insert('<', 10);
    binop_precedence.insert('+', 20);
    binop_precedence.insert('-', 20);
    binop_precedence.insert('*', 40);

    let mut parser = Parser::new(tokenize(input), binop_precedence);
    let ast = parser.parse_program().unwrap();

    let expected_ast: Vec<DeclKind> = vec![
        DeclKind::Extern(Prototype::new(
            "putchard".to_string(),
            vec![Arg::new("x".to_string(), Box::new(TypeKind::F64))],
            Some(Box::new(TypeKind::F64)),
        )),
        DeclKind::Function(
            Prototype::new(
                "binary|".to_string(),
                vec![
                    Arg::new("LHS".to_string(), Box::new(TypeKind::F64)),
                    Arg::new("RHS".to_string(), Box::new(TypeKind::F64)),
                ],
                Some(Box::new(TypeKind::F64)),
            ),
            Box::new(ExprKind::IfThenElse(
                Box::new(ExprKind::Identifier("LHS".to_string(), None)),
                Box::new(ExprKind::Literal(Literal::F64("1.0".to_string()))),
                Box::new(ExprKind::IfThenElse(
                    Box::new(ExprKind::Identifier("RHS".to_string(), None)),
                    Box::new(ExprKind::Literal(Literal::F64("1.0".to_string()))),
                    Box::new(ExprKind::Literal(Literal::F64("0.0".to_string()))),
                )),
            )),
        ),
        DeclKind::Function(
            Prototype::new(
                "binary>".to_string(),
                vec![
                    Arg::new("x".to_string(), Box::new(TypeKind::F64)),
                    Arg::new("y".to_string(), Box::new(TypeKind::F64)),
                ],
                Some(Box::new(TypeKind::F64)),
            ),
            Box::new(ExprKind::IfThenElse(
                Box::new(ExprKind::Binary(
                    BinaryOp::Lt,
                    Box::new(ExprKind::Identifier("y".to_string(), None)),
                    Box::new(ExprKind::Identifier("x".to_string(), None)),
                )),
                Box::new(ExprKind::Literal(Literal::F64("1.0".to_string()))),
                Box::new(ExprKind::Literal(Literal::F64("0.0".to_string()))),
            )),
        ),
        DeclKind::Function(
            Prototype::new(
                "printdensity".to_string(),
                vec![Arg::new("d".to_string(), Box::new(TypeKind::F64))],
                Some(Box::new(TypeKind::F64)),
            ),
            Box::new(ExprKind::IfThenElse(
                Box::new(ExprKind::Binary(
                    BinaryOp::UserDefined('>'),
                    Box::new(ExprKind::Identifier("d".to_string(), None)),
                    Box::new(ExprKind::Literal(Literal::F64("8.0".to_string()))),
                )),
                Box::new(ExprKind::Call(
                    "putchard".to_string(),
                    vec![Box::new(ExprKind::Literal(Literal::F64("32.0".to_string())))], None)),
                Box::new(ExprKind::IfThenElse(
                    Box::new(ExprKind::Binary(
                        BinaryOp::UserDefined('>'),
                        Box::new(ExprKind::Identifier("d".to_string(), None)),
                        Box::new(ExprKind::Literal(Literal::F64("4.0".to_string()))),
                    )),
                    Box::new(ExprKind::Call(
                        "putchard".to_string(),
                        vec![Box::new(ExprKind::Literal(Literal::F64("46.0".to_string())))], None)),
                    Box::new(ExprKind::IfThenElse(
                        Box::new(ExprKind::Binary(
                            BinaryOp::UserDefined('>'),
                            Box::new(ExprKind::Identifier("d".to_string(), None)),
                            Box::new(ExprKind::Literal(Literal::F64("2.0".to_string()))),
                        )),
                        Box::new(ExprKind::Call(
                            "putchard".to_string(),
                            vec![Box::new(ExprKind::Literal(Literal::F64("43.0".to_string())))], None)),
                        Box::new(ExprKind::Call(
                            "putchard".to_string(),
                            vec![Box::new(ExprKind::Literal(Literal::F64("42.0".to_string())))], None)),
                    )),
                )),
            )),
        ),
        DeclKind::Function(
            Prototype::new(
                "binary:".to_string(),
                vec![
                    Arg::new("x".to_string(), Box::new(TypeKind::F64)),
                    Arg::new("y".to_string(), Box::new(TypeKind::F64)),
                ],
                Some(Box::new(TypeKind::F64)),
            ),
            Box::new(ExprKind::Identifier("y".to_string(), None)),
        ),
        DeclKind::Function(
            Prototype::new(
                "mandelconverger".to_string(),
                vec![
                    Arg::new("real".to_string(), Box::new(TypeKind::F64)),
                    Arg::new("imag".to_string(), Box::new(TypeKind::F64)),
                    Arg::new("iters".to_string(), Box::new(TypeKind::F64)),
                    Arg::new("creal".to_string(), Box::new(TypeKind::F64)),
                    Arg::new("cimag".to_string(), Box::new(TypeKind::F64)),
                ],
                Some(Box::new(TypeKind::F64)),
            ),
            Box::new(ExprKind::IfThenElse(
                Box::new(ExprKind::Binary(
                    BinaryOp::UserDefined('|'),
                    Box::new(ExprKind::Binary(
                        BinaryOp::UserDefined('>'),
                        Box::new(ExprKind::Identifier("iters".to_string(), None)),
                        Box::new(ExprKind::Literal(Literal::F64("255.0".to_string()))),
                    )),
                    Box::new(ExprKind::Binary(
                        BinaryOp::UserDefined('>'),
                        Box::new(ExprKind::Binary(
                            BinaryOp::Add,
                            Box::new(ExprKind::Binary(
                                BinaryOp::Mult,
                                Box::new(ExprKind::Identifier("real".to_string(), None)),
                                Box::new(ExprKind::Identifier("real".to_string(), None)),
                            )),
                            Box::new(ExprKind::Binary(
                                BinaryOp::Mult,
                                Box::new(ExprKind::Identifier("imag".to_string(), None)),
                                Box::new(ExprKind::Identifier("imag".to_string(), None)),
                            )),
                        )),
                        Box::new(ExprKind::Literal(Literal::F64("4.0".to_string()))),
                    )),
                )),
                Box::new(ExprKind::Identifier("iters".to_string(), None)),
                Box::new(ExprKind::Call(
                    "mandelconverger".to_string(),
                    vec![
                        Box::new(ExprKind::Binary(
                            BinaryOp::Add,
                            Box::new(ExprKind::Binary(
                                BinaryOp::Sub,
                                Box::new(ExprKind::Binary(
                                    BinaryOp::Mult,
                                    Box::new(ExprKind::Identifier("real".to_string(), None)),
                                    Box::new(ExprKind::Identifier("real".to_string(), None)),
                                )),
                                Box::new(ExprKind::Binary(
                                    BinaryOp::Mult,
                                    Box::new(ExprKind::Identifier("imag".to_string(), None)),
                                    Box::new(ExprKind::Identifier("imag".to_string(), None)),
                                )),
                            )),
                            Box::new(ExprKind::Identifier("creal".to_string(), None)),
                        )),
                        Box::new(ExprKind::Binary(
                            BinaryOp::Add,
                            Box::new(ExprKind::Binary(
                                BinaryOp::Mult,
                                Box::new(ExprKind::Binary(
                                    BinaryOp::Mult,
                                    Box::new(ExprKind::Literal(Literal::F64("2.0".to_string()))),
                                    Box::new(ExprKind::Identifier("real".to_string(), None)),
                                )),
                                Box::new(ExprKind::Identifier("imag".to_string(), None)),
                            )),
                            Box::new(ExprKind::Identifier("cimag".to_string(), None)),
                        )),
                        Box::new(ExprKind::Binary(
                            BinaryOp::Add,
                            Box::new(ExprKind::Identifier("iters".to_string(), None)),
                            Box::new(ExprKind::Literal(Literal::F64("1.0".to_string()))),
                        )),
                        Box::new(ExprKind::Identifier("creal".to_string(), None)),
                        Box::new(ExprKind::Identifier("cimag".to_string(), None)),
                    ], None)),
            )),
        ),
        DeclKind::Function(
            Prototype::new(
                "mandelconverge".to_string(),
                vec![
                    Arg::new("real".to_string(), Box::new(TypeKind::F64)),
                    Arg::new("imag".to_string(), Box::new(TypeKind::F64)),
                ],
                Some(Box::new(TypeKind::F64)),
            ),
            Box::new(ExprKind::Call(
                "mandelconverger".to_string(),
                vec![
                    Box::new(ExprKind::Identifier("real".to_string(), None)),
                    Box::new(ExprKind::Identifier("imag".to_string(), None)),
                    Box::new(ExprKind::Literal(Literal::F64("0.0".to_string()))),
                    Box::new(ExprKind::Identifier("real".to_string(), None)),
                    Box::new(ExprKind::Identifier("imag".to_string(), None)),
                ], None)),
        ),
        DeclKind::Function(
            Prototype::new(
                "mandelhelp".to_string(),
                vec![
                    Arg::new("xmin".to_string(), Box::new(TypeKind::F64)),
                    Arg::new("xmax".to_string(), Box::new(TypeKind::F64)),
                    Arg::new("xstep".to_string(), Box::new(TypeKind::F64)),
                    Arg::new("ymin".to_string(), Box::new(TypeKind::F64)),
                    Arg::new("ymax".to_string(), Box::new(TypeKind::F64)),
                    Arg::new("ystep".to_string(), Box::new(TypeKind::F64)),
                ],
                Some(Box::new(TypeKind::F64)),
            ),
            Box::new(ExprKind::ForLoop(
                "y".to_string(),
                Box::new(ExprKind::Identifier("ymin".to_string(), None)),
                Box::new(ExprKind::Binary(
                    BinaryOp::Lt,
                    Box::new(ExprKind::Identifier("y".to_string(), None)),
                    Box::new(ExprKind::Identifier("ymax".to_string(), None)),
                )),
                Some(Box::new(ExprKind::Identifier("ystep".to_string(), None))),
                Box::new(ExprKind::Binary(
                    BinaryOp::UserDefined(':'),
                    Box::new(ExprKind::ForLoop(
                        "x".to_string(),
                        Box::new(ExprKind::Identifier("xmin".to_string(), None)),
                        Box::new(ExprKind::Binary(
                            BinaryOp::Lt,
                            Box::new(ExprKind::Identifier("x".to_string(), None)),
                            Box::new(ExprKind::Identifier("xmax".to_string(), None)),
                        )),
                        Some(Box::new(ExprKind::Identifier("xstep".to_string(), None))),
                        Box::new(ExprKind::Call(
                            "printdensity".to_string(),
                            vec![Box::new(ExprKind::Call(
                                "mandelconverge".to_string(),
                                vec![
                                    Box::new(ExprKind::Identifier("x".to_string(), None)),
                                    Box::new(ExprKind::Identifier("y".to_string(), None)),
                                ], None))], None)),
                    )),
                    Box::new(ExprKind::Call(
                        "putchard".to_string(),
                        vec![Box::new(ExprKind::Literal(Literal::F64("10.0".to_string())))], None)),
                )),
            )),
        ),
        DeclKind::Function(
            Prototype::new(
                "mandel".to_string(),
                vec![
                    Arg::new("realstart".to_string(), Box::new(TypeKind::F64)),
                    Arg::new("imagstart".to_string(), Box::new(TypeKind::F64)),
                    Arg::new("realmag".to_string(), Box::new(TypeKind::F64)),
                    Arg::new("imagmag".to_string(), Box::new(TypeKind::F64)),
                ],
                Some(Box::new(TypeKind::F64)),
            ),
            Box::new(ExprKind::Call(
                "mandelhelp".to_string(),
                vec![
                    Box::new(ExprKind::Identifier("realstart".to_string(), None)),
                    Box::new(ExprKind::Binary(
                        BinaryOp::Add,
                        Box::new(ExprKind::Identifier("realstart".to_string(), None)),
                        Box::new(ExprKind::Binary(
                            BinaryOp::Mult,
                            Box::new(ExprKind::Identifier("realmag".to_string(), None)),
                            Box::new(ExprKind::Literal(Literal::F64("78.0".to_string()))),
                        )),
                    )),
                    Box::new(ExprKind::Identifier("realmag".to_string(), None)),
                    Box::new(ExprKind::Identifier("imagstart".to_string(), None)),
                    Box::new(ExprKind::Binary(
                        BinaryOp::Add,
                        Box::new(ExprKind::Identifier("imagstart".to_string(), None)),
                        Box::new(ExprKind::Binary(
                            BinaryOp::Mult,
                            Box::new(ExprKind::Identifier("imagmag".to_string(), None)),
                            Box::new(ExprKind::Literal(Literal::F64("40.0".to_string()))),
                        )),
                    )),
                    Box::new(ExprKind::Identifier("imagmag".to_string(), None)),
                ], None)),
        ),
        DeclKind::Function(
            Prototype::new(
                "unary-".to_string(),
                vec![Arg::new("v".to_string(), Box::new(TypeKind::F64))],
                Some(Box::new(TypeKind::F64)),
            ),
            Box::new(ExprKind::Binary(
                BinaryOp::Sub,
                Box::new(ExprKind::Literal(Literal::F64("0.0".to_string()))),
                Box::new(ExprKind::Identifier("v".to_string(), None)),
            )),
        ),
        DeclKind::Function(
            Prototype::new("__anon_expr".to_string(), vec![], None),
            Box::new(ExprKind::Call(
                "mandel".to_string(),
                vec![
                    Box::new(ExprKind::Unary(
                        UnaryOp::UserDefined('-'),
                        Box::new(ExprKind::Literal(Literal::F64("2.3".to_string()))),
                    )),
                    Box::new(ExprKind::Unary(
                        UnaryOp::UserDefined('-'),
                        Box::new(ExprKind::Literal(Literal::F64("1.3".to_string()))),
                    )),
                    Box::new(ExprKind::Literal(Literal::F64("0.05".to_string()))),
                    Box::new(ExprKind::Literal(Literal::F64("0.07".to_string()))),
                ], None)),
        ),
    ];
    assert_ast(&ast, &expected_ast);
}

#[test]
fn parse_function_definition() {
    let (r, _) = parse("def f(x: double) -> double x + 1.0");
    let expected: Program = vec![DeclKind::Function(
        Prototype::new("f".to_string(), vec![Arg::new("x".to_string(), f64t())], Some(f64t())),
        Box::new(ExprKind::Binary(BinaryOp::Add, id("x"), dbl("1.0"))),
    )];
    assert_eq!(r, Some(Ok(expected)));
}

#[test]
fn parse_extern_without_return_type_is_unit() {
    let (r, _) = parse("extern putchard(c: int)");
    let expected: Program = vec![DeclKind::Extern(Prototype::new(
        "putchard".to_string(),
        vec![Arg::new("c".to_string(), Box::new(TypeKind::I64))],
        Some(Box::new(TypeKind::Unit)),
    ))];
    assert_eq!(r, Some(Ok(expected)));
}

#[test]
fn parse_top_level_expression_respects_precedence() {
    let (r, _) = parse("1 + 2 * 3");
    let expected: Program = vec![DeclKind::Function(
        Prototype::new("__anon_expr".to_string(), vec![], None),
        Box::new(ExprKind::Binary(
            BinaryOp::Add,
            int_lit(1),
            Box::new(ExprKind::Binary(BinaryOp::Mult, int_lit(2), int_lit(3))),
        )),
    )];
    assert_eq!(r, Some(Ok(expected)));
}

#[test]
fn parse_left_associative_and_parenthesised() {
    let (r, _) = parse("(1 - 2) - 3");
    let expected: Program = vec![DeclKind::Function(
        Prototype::new("__anon_expr".to_string(), vec![], None),
        Box::new(ExprKind::Binary(
            BinaryOp::Sub,
            Box::new(ExprKind::Binary(BinaryOp::Sub, int_lit(1), int_lit(2))),
            int_lit(3),
        )),
    )];
    assert_eq!(r, Some(Ok(expected)));
}

#[test]
fn parse_call_if_and_tuple() {
    let (r, _) = parse("if f(1, x) then (1, 2) else ()");
    let expected: Program = vec![DeclKind::Function(
        Prototype::new("__anon_expr".to_string(), vec![], None),
        Box::new(ExprKind::IfThenElse(
            Box::new(ExprKind::Call("f".to_string(), vec![int_lit(1), id("x")], None)),
            Box::new(ExprKind::Cons(vec![int_lit(1), int_lit(2)], ConsKind::Tuple)),
            Box::new(ExprKind::Literal(Literal::Unit)),
        )),
    )];
    assert_eq!(r, Some(Ok(expected)));
}

#[test]
fn parse_binary_definition_extends_precedence() {
    let (r, table) = parse("def binary| 5 (a: double b: double) -> double a");
    assert!(matches!(r, Some(Ok(_))));
    assert_eq!(table.get('|'), Some(5));
    assert_eq!(table.get('+'), Some(20));
    let (r2, table2) = parse("def binary& (a: double b: double) -> double a");
    assert!(matches!(r2, Some(Ok(_))));
    assert_eq!(table2.get('&'), Some(30));
}

#[test]
fn parse_binary_operator_use_after_definition() {
    let (r, _) = parse("def binary| 5 (a: double b: double) -> double a 1 | 2");
    match r {
        Some(Ok(p)) => {
            assert_eq!(p.len(), 2);
            assert_eq!(
                p[1],
                DeclKind::Function(
                    Prototype::new("__anon_expr".to_string(), vec![], None),
                    Box::new(ExprKind::Binary(BinaryOp::UserDefined('|'), int_lit(1), int_lit(2))),
                )
            );
        },
        other => panic!("unexpected result {:?}", other),
    }
}

#[test]
fn parse_unary_operator() {
    let (r, _) = parse("!x");
    let expected: Program = vec![DeclKind::Function(
        Prototype::new("__anon_expr".to_string(), vec![], None),
        Box::new(ExprKind::Unary(UnaryOp::UserDefined('!'), id("x"))),
    )];
    assert_eq!(r, Some(Ok(expected)));
}

#[test]
fn parse_var_binding() {
    let (r, _) = parse("var a = 1 in a");
    match r {
        Some(Ok(p)) => match &**match &p[0] {
            DeclKind::Function(_, body) => body,
            _ => panic!("not a function"),
        } {
            ExprKind::Var(vars, body) => {
                assert_eq!(vars.len(), 1);
                assert_eq!(vars[0], VarInfo { name: "a".to_string(), t: None, val: Some(int_lit(1)) });
                assert_eq!(*body, Box::new(ExprKind::Sequence(vec![id("a")])));
            },
            other => panic!("not a var: {:?}", other),
        },
        other => panic!("unexpected result {:?}", other),
    }
}

#[test]
fn parse_errors_are_collected_and_parsing_goes_on() {
    let (r, _) = parse("def (x) 1 + 2");
    match r {
        Some(Err(errs)) => {
            assert!(!errs.is_empty());
            assert_eq!(errs[0], ParserErrorKind::UnexpectedToken(TokenKind::Op('(')));
        },
        other => panic!("unexpected result {:?}", other),
    }
}

#[test]
fn parse_unexpected_eof() {
    let (r, _) = parse("def f(");
    assert_eq!(r, Some(Err(vec![ParserErrorKind::UnexpectedEof])));
}

#[test]
fn parse_invalid_signature() {
    let (r, _) = parse("def binary% (a: double) -> double a");
    match r {
        Some(Err(errs)) => assert_eq!(errs[0], ParserErrorKind::InvalidSignatuere),
        other => panic!("unexpected result {:?}", other),
    }
}

#[test]
fn parse_lexer_errors_are_reported() {
    let tokens = vec![Err(LexerError::UnknownChar('$')), Ok(TokenKind::Keyword(Keyword::Def))];
    let mut parser = Parser::new(tokens, default_table());
    match parser.parse_program_checked() {
        Some(Err(errs)) => assert_eq!(errs[0], ParserErrorKind::LexerError(LexerError::UnknownChar('$'))),
        other => panic!("unexpected result {:?}", other),
    }
}

#[test]
fn parse_integer_out_of_range_stops() {
    let (r, _) = parse("99999999999999999999");
    assert_eq!(r, None);
}

#[test]
fn parse_program_entry_point() {
    let mut parser = Parser::new(tokenize("1"), default_table());
    let r = parser.parse_program();
    assert!(r.is_ok());
}

#[test]
fn parse_list_tuple_and_unit_types() {
    let (r, _) = parse("extern f(a: [int] b: (int, double)) -> ()");
    let expected: Program = vec![DeclKind::Extern(Prototype::new(
        "f".to_string(),
        vec![
            Arg::new("a".to_string(), Box::new(TypeKind::List(Some(Box::new(TypeKind::I64))))),
            Arg::new(
                "b".to_string(),
                Box::new(TypeKind::Tuple(vec![Box::new(TypeKind::I64), f64t()])),
            ),
        ],
        Some(Box::new(TypeKind::Unit)),
    ))];
    assert_eq!(r, Some(Ok(expected)));
}

#[test]
fn parse_precedence_out_of_range() {
    let (r, table) = parse("def binary| 0 (a: int b: int) -> int a");
    match r {
        Some(Err(errs)) => {
            assert_eq!(errs[0], ParserErrorKind::UnexpectedToken(TokenKind::Number("0".to_string())))
        },
        other => panic!("unexpected result {:?}", other),
    }
    assert_eq!(table.get('|'), None);
}

#[test]
fn parse_semicolons_separate_items() {
    let (r, _) = parse("def f() : int 1; 2;;");
    let expected: Program = vec![
        DeclKind::Function(Prototype::new("f".to_string(), vec![], Some(Box::new(TypeKind::I64))), int_lit(1)),
        DeclKind::Function(Prototype::new("__anon_expr".to_string(), vec![], None), int_lit(2)),
    ];
    assert_eq!(r, Some(Ok(expected)));
}

#[test]
fn parse_var_body_is_a_block() {
    let (r, _) = parse("var x = 1 in x; x * 2");
    let expected: Program = vec![DeclKind::Function(
        Prototype::new("__anon_expr".to_string(), vec![], None),
        Box::new(ExprKind::Var(
            vec![VarInfo { name: "x".to_string(), t: None, val: Some(int_lit(1)) }],
            Box::new(ExprKind::Sequence(vec![
                id("x"),
                Box::new(ExprKind::Binary(BinaryOp::Mult, id("x"), int_lit(2))),
            ])),
        )),
    )];
    assert_eq!(r, Some(Ok(expected)));
}
