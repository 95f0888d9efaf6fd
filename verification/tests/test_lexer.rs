use kaleipl::lexer::keywords::Keyword;
use kaleipl::lexer::scanner::{Lexer, tokenize, tokenize_classified};
use kaleipl::lexer::symbols::Symbol;
use kaleipl::lexer::tokens::{LexerError, TokenKind, TokenResult, Typ};

fn assert_tokens(input: &str, tokens: &[TokenResult]) {
    let got = tokenize(input);
    assert_eq!(got.len(), tokens.len());
    for (i, token) in got.iter().enumerate() {
        assert_eq!(*token, tokens[i]);
    }
}

#[test]
fn test_valid_tokens() {
    let input = "1 1.0 1. if then else for in def extern olaaaa x XSSAS l s + - **? ~";
    
    let tokens: Vec<TokenResult> = vec![
        Ok(TokenKind::Number("1".to_string())),
        Ok(TokenKind::Number("1.0".to_string())),
        Ok(TokenKind::Number("1.".to_string())),
        Ok(TokenKind::Keyword(Keyword::If)),
        Ok(TokenKind::Keyword(Keyword::Then)),
        Ok(TokenKind::Keyword(Keyword::Else)),
        Ok(TokenKind::Keyword(Keyword::For)),
        Ok(TokenKind::Keyword(Keyword::In)),
        Ok(TokenKind::Keyword(Keyword::Def)),
        Ok(TokenKind::Keyword(Keyword::Extern)),
        Ok(TokenKind::Identifier("olaaaa".to_string())),
        Ok(TokenKind::Identifier("x".to_string())),
        Ok(TokenKind::Identifier("XSSAS".to_string())),
        Ok(TokenKind::Identifier("l".to_string())),
        Ok(TokenKind::Identifier("s".to_string())),
        Ok(TokenKind::Op('+')),
        Ok(TokenKind::Op('-')),
        Ok(TokenKind::Op('*')),
        Ok(TokenKind::Op('*')),
        Ok(TokenKind::Op('?')),
        Ok(TokenKind::Op('~')),
    ];
    assert_tokens(input, &tokens);
}

#[test]
fn test_for() {
    let input = "def mandelhelp(xmin xmax xstep ymin ymax ystep) 
                    for y = ymin, y < ymax, ystep in (
                        ( 
                          for x = xmin, x < xmax, xstep in 
                          printdensity(mandelconverge(x,y))
                        ) : putchard(10)
                    );
";
    
    let tokens: Vec<TokenResult> = vec![
        Ok(TokenKind::Keyword(Keyword::Def)),
        Ok(TokenKind::Identifier("mandelhelp".to_string())),
        Ok(TokenKind::Op('(')),
        Ok(TokenKind::Identifier("xmin".to_string())),
        Ok(TokenKind::Identifier("xmax".to_string())),
        Ok(TokenKind::Identifier("xstep".to_string())),
        Ok(TokenKind::Identifier("ymin".to_string())),
        Ok(TokenKind::Identifier("ymax".to_string())),
        Ok(TokenKind::Identifier("ystep".to_string())),
        Ok(TokenKind::Op(')')),
        Ok(TokenKind::Keyword(Keyword::For)),
        Ok(TokenKind::Identifier("y".to_string())),
        Ok(TokenKind::Op('=')),
        Ok(TokenKind::Identifier("ymin".to_string())),
        Ok(TokenKind::Op(',')),
        Ok(TokenKind::Identifier("y".to_string())),
        Ok(TokenKind::Op('<')),
        Ok(TokenKind::Identifier("ymax".to_string())),
        Ok(TokenKind::Op(',')),
        Ok(TokenKind::Identifier("ystep".to_string())),
        Ok(TokenKind::Keyword(Keyword::In)),
        Ok(TokenKind::Op('(')),
        Ok(TokenKind::Op('(')),
        Ok(TokenKind::Keyword(Keyword::For)),
        Ok(TokenKind::Identifier("x".to_string())),
        Ok(TokenKind::Op('=')),
        Ok(TokenKind::Identifier("xmin".to_string())),
        Ok(TokenKind::Op(',')),
        Ok(TokenKind::Identifier("x".to_string())),
        Ok(TokenKind::Op('<')),
        Ok(TokenKind::Identifier("xmax".to_string())),
        Ok(TokenKind::Op(',')),
        Ok(TokenKind::Identifier("xstep".to_string())),
        Ok(TokenKind::Keyword(Keyword::In)),
        Ok(TokenKind::Identifier("printdensity".to_string())),
        Ok(TokenKind::Op('(')),
        Ok(TokenKind::Identifier("mandelconverge".to_string())),
        Ok(TokenKind::Op('(')),
        Ok(TokenKind::Identifier("x".to_string())),
        Ok(TokenKind::Op(',')),
        Ok(TokenKind::Identifier("y".to_string())),
        Ok(TokenKind::Op(')')),
        Ok(TokenKind::Op(')')),
        Ok(TokenKind::Op(')')),
        Ok(TokenKind::Op(':')),
        Ok(TokenKind::Identifier("putchard".to_string())),
        Ok(TokenKind::Op('(')),
        Ok(TokenKind::Number("10".to_string())),
        Ok(TokenKind::Op(')')),
        Ok(TokenKind::Op(')')),
        Ok(TokenKind::Op(';')),
    ];
    assert_tokens(input, &tokens);
}

#[test]
fn test_if() {
    let input = "def mandelconverger(real imag iters creal cimag) 
                    if iters > 255 | (real*real + imag*imag > 4) then 
                        iters 
                    else 
                        mandelconverger(real*real - imag*imag + creal, 2*real*imag + cimag, iters+1, creal, cimag);
";
    
    let tokens: Vec<TokenResult> = vec![
        Ok(TokenKind::Keyword(Keyword::Def)),
        Ok(TokenKind::Identifier("mandelconverger".to_string())),
        Ok(TokenKind::Op('(')),
        Ok(TokenKind::Identifier("real".to_string())),
        Ok(TokenKind::Identifier("imag".to_string())),
        Ok(TokenKind::Identifier("iters".to_string())),
        Ok(TokenKind::Identifier("creal".to_string())),
        Ok(TokenKind::Identifier("cimag".to_string())),
        Ok(TokenKind::Op(')')),
        Ok(TokenKind::Keyword(Keyword::If)),
        Ok(TokenKind::Identifier("iters".to_string())),
        Ok(TokenKind::Op('>')),
        Ok(TokenKind::Number("255".to_string())),
        Ok(TokenKind::Op('|')),
        Ok(TokenKind::Op('(')),
        Ok(TokenKind::Identifier("real".to_string())),
        Ok(TokenKind::Op('*')),
        Ok(TokenKind::Identifier("real".to_string())),
        Ok(TokenKind::Op('+')),
        Ok(TokenKind::Identifier("imag".to_string())),
        Ok(TokenKind::Op('*')),
        Ok(TokenKind::Identifier("imag".to_string())),
        Ok(TokenKind::Op('>')),
        Ok(TokenKind::Number("4".to_string())),
        Ok(TokenKind::Op(')')),
        Ok(TokenKind::Keyword(Keyword::Then)),
        Ok(TokenKind::Identifier("iters".to_string())),
        Ok(TokenKind::Keyword(Keyword::Else)),
        Ok(TokenKind::Identifier("mandelconverger".to_string())),
        Ok(TokenKind::Op('(')),
        Ok(TokenKind::Identifier("real".to_string())),
        Ok(TokenKind::Op('*')),
        Ok(TokenKind::Identifier("real".to_string())),
        Ok(TokenKind::Op('-')),
        Ok(TokenKind::Identifier("imag".to_string())),
        Ok(TokenKind::Op('*')),
        Ok(TokenKind::Identifier("imag".to_string())),
        Ok(TokenKind::Op('+')),
        Ok(TokenKind::Identifier("creal".to_string())),
        Ok(TokenKind::Op(',')),
        Ok(TokenKind::Number("2".to_string())),
        Ok(TokenKind::Op('*')),
        Ok(TokenKind::Identifier("real".to_string())),
        Ok(TokenKind::Op('*')),
        Ok(TokenKind::Identifier("imag".to_string())),
        Ok(TokenKind::Op('+')),
        Ok(TokenKind::Identifier("cimag".to_string())),
        Ok(TokenKind::Op(',')),
        Ok(TokenKind::Identifier("iters".to_string())),
        Ok(TokenKind::Op('+')),
        Ok(TokenKind::Number("1".to_string())),
        Ok(TokenKind::Op(',')),
        Ok(TokenKind::Identifier("creal".to_string())),
        Ok(TokenKind::Op(',')),
        Ok(TokenKind::Identifier("cimag".to_string())),
        Ok(TokenKind::Op(')')),
        Ok(TokenKind::Op(';')),
    ];
    assert_tokens(input, &tokens);
}

#[test]
fn lexer_empty_and_blank_inputs() {
    assert_eq!(tokenize(""), Vec::<TokenResult>::new());
    assert_eq!(tokenize("  \t\n  "), Vec::<TokenResult>::new());
}

#[test]
fn lexer_new_keywords() {
    assert_tokens(
        "var double int binary unary",
        &[
            Ok(TokenKind::Keyword(Keyword::Var)),
            Ok(TokenKind::Keyword(Keyword::Double)),
            Ok(TokenKind::Keyword(Keyword::Int)),
            Ok(TokenKind::Keyword(Keyword::Binary)),
            Ok(TokenKind::Keyword(Keyword::Unary)),
        ],
    );
}

#[test]
fn lexer_words_with_digits_and_keyword_prefixes() {
    assert_tokens(
        "x1 definition iff in2",
        &[
            Ok(TokenKind::Identifier("x1".to_string())),
            Ok(TokenKind::Identifier("definition".to_string())),
            Ok(TokenKind::Identifier("iff".to_string())),
            Ok(TokenKind::Identifier("in2".to_string())),
        ],
    );
}

#[test]
fn lexer_numbers_and_dots() {
    assert_tokens(
        "12.5.3 7a .5",
        &[
            Ok(TokenKind::Number("12.5".to_string())),
            Ok(TokenKind::Op('.')),
            Ok(TokenKind::Number("3".to_string())),
            Ok(TokenKind::Number("7".to_string())),
            Ok(TokenKind::Identifier("a".to_string())),
            Ok(TokenKind::Op('.')),
            Ok(TokenKind::Number("5".to_string())),
        ],
    );
}

#[test]
fn lexer_unicode_letters() {
    assert_tokens(
        "été ²",
        &[Ok(TokenKind::Identifier("été".to_string())), Ok(TokenKind::Number("²".to_string()))],
    );
}

#[test]
fn lexer_next_token_one_by_one() {
    let mut lexer = Lexer::new("  def f");
    assert_eq!(lexer.next_token(), Some(Ok(TokenKind::Keyword(Keyword::Def))));
    assert_eq!(lexer.next_token(), Some(Ok(TokenKind::Identifier("f".to_string()))));
    assert_eq!(lexer.next_token(), None);
    assert_eq!(lexer.next_token(), None);
}

#[test]
fn keyword_from_str() {
    assert_eq!("extern".parse::<Keyword>(), Ok(Keyword::Extern));
    assert_eq!("var".parse::<Keyword>(), Ok(Keyword::Var));
    assert_eq!("Def".parse::<Keyword>(), Err(()));
    assert_eq!("".parse::<Keyword>(), Err(()));
}

#[test]
fn symbol_from_str_always_refuses() {
    assert_eq!("x".parse::<Symbol>(), Err("Invalid Token: x".to_string()));
    assert_eq!(Symbol::parse_symbol(""), Err("Invalid Token: ".to_string()));
}

#[test]
fn token_accessors() {
    assert_eq!(TokenKind::Op('+').into_op(), '+');
    assert_eq!(TokenKind::Identifier("ab".to_string()).into_identifier(), "ab".to_string());
    assert_eq!(TokenKind::Keyword(Keyword::For).into_keyword(), Keyword::For);
    assert_eq!(TokenKind::Number("2.5".to_string()).into_number(), "2.5".to_string());
    assert_eq!(Typ::Int(-3).into_int(), -3);
    assert_eq!(LexerError::UnknownChar('a'), LexerError::UnknownChar('a'));
}

#[test]
fn whitespace_is_the_white_space_list() {
    let listed = |u: u32| {
        (0x9..=0xD).contains(&u)
            || u == 0x20
            || u == 0x85
            || u == 0xA0
            || u == 0x1680
            || (0x2000..=0x200A).contains(&u)
            || u == 0x2028
            || u == 0x2029
            || u == 0x202F
            || u == 0x205F
            || u == 0x3000
    };
    for u in 0..=0x10FFFFu32 {
        if let Some(c) = char::from_u32(u) {
            assert_eq!(c.is_whitespace(), listed(u), "code point {:x}", u);
        }
    }
}

#[test]
fn tokenize_with_given_classes() {
    // "a_1 +2" where '_' is taken to be a letter and '+' to be whitespace.
    let chars: Vec<char> = "a_1 +2".chars().collect();
    let ws = vec![false, false, false, true, true, false];
    let alpha = vec![true, true, false, false, false, false];
    let num = vec![false, false, true, false, false, true];
    assert_eq!(
        tokenize_classified(chars, ws, alpha, num),
        Some(vec![
            Ok(TokenKind::Identifier("a_1".to_string())),
            Ok(TokenKind::Number("2".to_string())),
        ])
    );
    let chars: Vec<char> = "ab".chars().collect();
    assert_eq!(tokenize_classified(chars, vec![false], vec![true, true], vec![false, false]), None);
}

#[test]
fn lexer_with_classes_and_remaining_tokens() {
    let chars: Vec<char> = "x 1".chars().collect();
    assert!(Lexer::with_classes(chars.clone(), vec![], vec![], vec![]).is_none());
    let mut lexer = Lexer::with_classes(
        chars,
        vec![false, true, false],
        vec![true, false, false],
        vec![false, false, true],
    )
    .unwrap();
    assert_eq!(lexer.next_token(), Some(Ok(TokenKind::Identifier("x".to_string()))));
    assert_eq!(lexer.remaining_tokens(), vec![Ok(TokenKind::Number("1".to_string()))]);
    assert_eq!(lexer.next_token(), None);
}
