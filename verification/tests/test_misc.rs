use kaleipl::parser::numbers::{float_text_ok_exec, has_dot_exec, parse_i64, split_dot_exec};
use kaleipl::parser::op::{BinaryOp, UnaryOp};
use kaleipl::parser::precedence::PrecedenceTable;
use kaleipl::parser::types::{TypeKind, copy_type, opt_type_eq, type_eq};

#[test]
fn integer_texts() {
    assert_eq!(parse_i64(&"0".to_string()), Some(0));
    assert_eq!(parse_i64(&"255".to_string()), Some(255));
    assert_eq!(parse_i64(&"-42".to_string()), Some(-42));
    assert_eq!(parse_i64(&"+7".to_string()), Some(7));
    assert_eq!(parse_i64(&"9223372036854775807".to_string()), Some(i64::MAX));
    assert_eq!(parse_i64(&"-9223372036854775808".to_string()), Some(i64::MIN));
    assert_eq!(parse_i64(&"9223372036854775808".to_string()), None);
    assert_eq!(parse_i64(&"".to_string()), None);
    assert_eq!(parse_i64(&"-".to_string()), None);
    assert_eq!(parse_i64(&"1a".to_string()), None);
}

#[test]
fn float_texts_agree_with_std() {
    for s in ["1.0", "1.", ".5", "12.5e3", "1.e-2", "-0.5", "1.0e", "1..0", ".", "1.5x", "+.e1"] {
        let text = s.to_string();
        assert_eq!(float_text_ok_exec(&text), s.parse::<f64>().is_ok(), "text {}", s);
    }
}

#[test]
fn dots_in_texts() {
    assert!(has_dot_exec(&"1.5".to_string()));
    assert!(!has_dot_exec(&"15".to_string()));
    assert_eq!(split_dot_exec(&"0.1".to_string()), ("0".to_string(), "1".to_string()));
    assert_eq!(split_dot_exec(&"3".to_string()), ("3".to_string(), "".to_string()));
    assert_eq!(split_dot_exec(&"1.2.3".to_string()), ("1".to_string(), "2".to_string()));
}

#[test]
fn operator_spellings() {
    assert_eq!(BinaryOp::from('+'), BinaryOp::Add);
    assert_eq!(BinaryOp::from('-'), BinaryOp::Sub);
    assert_eq!(BinaryOp::from('*'), BinaryOp::Mult);
    assert_eq!(BinaryOp::from('<'), BinaryOp::Lt);
    assert_eq!(BinaryOp::from('='), BinaryOp::Assign);
    assert_eq!(BinaryOp::from('|'), BinaryOp::UserDefined('|'));
    assert_eq!(UnaryOp::from('!'), UnaryOp::UserDefined('!'));
    assert_eq!(BinaryOp::Add.as_str(), "+");
    assert_eq!(BinaryOp::Lt.as_str(), "<");
    assert_eq!(BinaryOp::Mult.as_str(), "*");
    assert_eq!(BinaryOp::Sub.as_str(), "-");
    assert_eq!(BinaryOp::UserDefined('^').as_str(), "^");
    assert_eq!(UnaryOp::UserDefined('!').as_str(), "!");
    for c in ['+', '-', '*', '<', '=', '|', '~'] {
        assert_eq!(BinaryOp::from(c).as_str(), c.to_string());
    }
}

#[test]
fn precedence_table_reads_back_writes() {
    let mut t = PrecedenceTable::new();
    assert_eq!(t.get('+'), None);
    assert_eq!(t.insert('+', 20), None);
    assert_eq!(t.insert('*', 40), None);
    assert_eq!(t.get('+'), Some(20));
    assert_eq!(t.insert('+', 25), Some(20));
    assert_eq!(t.get('+'), Some(25));
    assert_eq!(t.get('*'), Some(40));
}

#[test]
fn type_equality_and_copies() {
    let a = TypeKind::Tuple(vec![Box::new(TypeKind::I64), Box::new(TypeKind::List(None))]);
    let b = copy_type(&a);
    assert_eq!(a, b);
    assert!(type_eq(&a, &b));
    assert!(!type_eq(&a, &TypeKind::Tuple(vec![Box::new(TypeKind::I64)])));
    assert!(!type_eq(&TypeKind::F64, &TypeKind::I64));
    assert!(opt_type_eq(&None, &None));
    assert!(!opt_type_eq(&Some(Box::new(TypeKind::Unit)), &None));
}
