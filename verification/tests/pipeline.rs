use fellow::parser::parse;
use fellow::scanner::scan;
use fellow::token::TokenContext;
use fellow::{interpret, FellowError, FellowValue};

#[test]
fn parse_takes_the_last_meaningful_token() {
    let tokens = scan("1 2 ").unwrap();
    match parse(tokens) {
        Ok(FellowValue::Int(v)) => assert_eq!(v, 2),
        other => panic!("expected an integer value, got {:?}", other),
    }
    let tokens = scan("true \"text\"").unwrap();
    match parse(tokens) {
        Ok(FellowValue::Str(s)) => assert_eq!(s, "text"),
        other => panic!("expected a string value, got {:?}", other),
    }
    let tokens = scan("false").unwrap();
    match parse(tokens) {
        Ok(FellowValue::Boolean(b)) => assert!(!b),
        other => panic!("expected a boolean value, got {:?}", other),
    }
}

#[test]
fn parse_of_only_whitespace_fails() {
    let tokens = scan(" \n\t").unwrap();
    assert!(matches!(parse(tokens), Err(FellowError::InterpreterError)));
    let tokens: Vec<TokenContext> = scan("").unwrap();
    assert!(matches!(parse(tokens), Err(FellowError::InterpreterError)));
}

#[test]
fn interpret_reaches_the_stub_evaluator() {
    match interpret("print 1;") {
        Ok(value) => assert_eq!(value.display_string(), "Something"),
        other => panic!("expected a value, got {:?}", other),
    }
}

#[test]
fn interpret_reports_scan_errors() {
    match interpret("var x = @;") {
        Err(FellowError::ScanError(e)) => {
            assert_eq!(e.message, "Failed to scan at 9");
        }
        other => panic!("expected a scan error, got {:?}", other),
    }
}

#[test]
fn interpret_of_empty_input_fails_interpretation() {
    assert!(matches!(interpret(""), Err(FellowError::InterpreterError)));
}

#[test]
fn values_display_as_text() {
    assert_eq!(FellowValue::Int(0).display_string(), "0");
    assert_eq!(FellowValue::Int(1234567890).display_string(), "1234567890");
    assert_eq!(FellowValue::Int(-5).display_string(), "-5");
    assert_eq!(
        FellowValue::Int(i64::MIN).display_string(),
        "-9223372036854775808"
    );
    assert_eq!(
        FellowValue::Str("hello".to_string()).display_string(),
        "hello"
    );
    assert_eq!(
        FellowValue::Identifier("x".to_string()).display_string(),
        "x"
    );
    assert_eq!(FellowValue::Boolean(true).display_string(), "true");
    assert_eq!(FellowValue::Boolean(false).display_string(), "false");
    assert_eq!(FellowValue::Nil.display_string(), "nil");
}

#[test]
fn errors_display_as_text() {
    assert_eq!(
        FellowError::CannotReadFile.display_string(),
        "Cannot read file"
    );
    assert_eq!(
        FellowError::InterpreterError.display_string(),
        "Fellow interpreter error"
    );
    let err = match interpret("@") {
        Err(e) => e,
        Ok(v) => panic!("expected an error, got {:?}", v),
    };
    assert_eq!(
        err.display_string(),
        "Fellow scanner error occured at line 0:1\n\tFailed to scan at 1"
    );
}

#[test]
fn token_context_carries_its_provenance() {
    let contexts = scan("nil").unwrap();
    assert_eq!(contexts[0].lexeme, "nil");
    assert_eq!(contexts[0].line, 0);
    assert_eq!(contexts[0].start, 0);
    assert_eq!(contexts[0].end, 3);
    let built = TokenContext::new(fellow::token::Token::Nil, "nil".to_string(), 0, 0, 3);
    assert_eq!(built.token, contexts[0].token);
    assert_eq!(built.lexeme, contexts[0].lexeme);
    assert_eq!(built.line, contexts[0].line);
    assert_eq!(built.start, contexts[0].start);
    assert_eq!(built.end, contexts[0].end);
}
