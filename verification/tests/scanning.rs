use fellow::scanner::scan;
use fellow::token::Token;
use fellow::FellowError;

// Runs the scan function and unpacks the Tokens from the TokenContext.
// This helper calls unwrap() so it should only be used when the test
// is expected to scan properly.
fn scan_to_tokens(source: &str) -> Vec<Token> {
    scan(source)
        .unwrap()
        .into_iter()
        .map(|tc| tc.token)
        .collect()
}

#[test]
fn scans_all_single_character_tokens() {
    let source = "(){},.-+;*";
    let tokens = scan_to_tokens(source);
    assert_eq!(
        tokens,
        vec![
            Token::LeftParen,
            Token::RightParen,
            Token::LeftBrace,
            Token::RightBrace,
            Token::Comma,
            Token::Dot,
            Token::Minus,
            Token::Plus,
            Token::Semicolon,
            Token::Star,
            Token::EndOfFile
        ]
    )
}

#[test]
fn scans_multiline_strings() {
    let source = " \"Hello\nThere\" ";
    let tokens = scan_to_tokens(source);
    assert_eq!(
        tokens,
        vec![
            Token::Space,
            Token::StringLit("Hello\nThere".to_string()),
            Token::Space,
            Token::EndOfFile
        ]
    )
}

#[test]
fn scans_strings() {
    let source = " \"Hello\" ";
    let tokens = scan_to_tokens(source);
    assert_eq!(
        tokens,
        vec![
            Token::Space,
            Token::StringLit("Hello".to_string()),
            Token::Space,
            Token::EndOfFile
        ]
    )
}

#[test]
fn scans_comments() {
    let source = "// This is a comment\n// So is this\n\"Not this\"\n";
    let tokens = scan_to_tokens(source);
    assert_eq!(
        tokens,
        vec![
            Token::Comment(" This is a comment".to_string()),
            Token::Comment(" So is this".to_string()),
            Token::StringLit("Not this".to_string()),
            Token::NewLine,
            Token::EndOfFile
        ]
    )
}

#[test]
fn scans_two_char_tokens() {
    // Spaces keep stacked operators visually apart.
    let source = "=!<>: != <= >= == ::";
    let tokens = scan_to_tokens(source);
    assert_eq!(
        tokens,
        vec![
            Token::Equal,
            Token::Bang,
            Token::Less,
            Token::Greater,
            Token::Colon,
            Token::Space,
            Token::BangEqual,
            Token::Space,
            Token::LessEqual,
            Token::Space,
            Token::GreaterEqual,
            Token::Space,
            Token::EqualEqual,
            Token::Space,
            Token::ColonColon,
            Token::EndOfFile
        ]
    )
}

#[test]
fn scans_keywords() {
    let source = "and class else false fun for if nil or print return super this true var while";
    let tokens: Vec<Token> = scan_to_tokens(source)
        .into_iter()
        .filter(|t| t != &Token::Space)
        .collect();
    assert_eq!(
        tokens,
        vec![
            Token::And,
            Token::Class,
            Token::Else,
            Token::False,
            Token::Fun,
            Token::For,
            Token::If,
            Token::Nil,
            Token::Or,
            Token::Print,
            Token::Return,
            Token::Super,
            Token::This,
            Token::True,
            Token::Var,
            Token::While,
            Token::EndOfFile
        ]
    )
}

#[test]
fn scans_identifiers() {
    let source = "myIdentifier anotherIdentifier _underscore123";
    let tokens = scan_to_tokens(source);
    assert_eq!(
        tokens,
        vec![
            Token::Identifier("myIdentifier".to_string()),
            Token::Space,
            Token::Identifier("anotherIdentifier".to_string()),
            Token::Space,
            Token::Identifier("_underscore123".to_string()),
            Token::EndOfFile
        ]
    )
}

#[test]
fn spans_partition_the_input() {
    // Coverage/partition on a concrete input: the spans chain gaplessly
    // from 0 to the input's length, and only the final end-of-file token
    // is zero-width.
    let source = "var x = 1; // set x\n\"done\"";
    let contexts = scan(source).unwrap();
    let n = source.chars().count();
    assert!(contexts.len() >= 1);
    let last = contexts.last().unwrap();
    assert_eq!(last.token, Token::EndOfFile);
    assert_eq!(last.start, n);
    assert_eq!(last.end, n);
    assert_eq!(contexts[0].start, 0);
    for k in 0..contexts.len() - 1 {
        assert_eq!(contexts[k].end, contexts[k + 1].start);
        assert!(contexts[k].start < contexts[k].end);
        assert_ne!(contexts[k].token, Token::EndOfFile);
    }
}

#[test]
fn lexemes_round_trip_the_input() {
    // Round-trip on a concrete input: concatenating the lexemes, in order,
    // reproduces the source text exactly, markers and whitespace included.
    let source = "fun f() {\n  // comment\n  print \"a\nb\";\n}\n";
    let contexts = scan(source).unwrap();
    let mut rebuilt = String::new();
    for tc in &contexts {
        rebuilt.push_str(&tc.lexeme);
    }
    assert_eq!(rebuilt, source);
}

#[test]
fn lines_count_embedded_newlines_once() {
    // A newline inside a string or comment moves the line counter exactly
    // once, and the tokens after it report the moved line.
    let source = "\"a\nb\"\nx// c\ny";
    let contexts = scan(source).unwrap();
    assert_eq!(contexts[0].token, Token::StringLit("a\nb".to_string()));
    assert_eq!(contexts[0].line, 1);
    assert_eq!(contexts[1].token, Token::NewLine);
    assert_eq!(contexts[1].line, 2);
    assert_eq!(contexts[2].token, Token::Identifier("x".to_string()));
    assert_eq!(contexts[2].line, 2);
    assert_eq!(contexts[3].token, Token::Comment(" c".to_string()));
    assert_eq!(contexts[3].line, 3);
    assert_eq!(contexts[4].token, Token::Identifier("y".to_string()));
    assert_eq!(contexts[4].line, 3);
    assert_eq!(contexts[5].token, Token::EndOfFile);
    assert_eq!(contexts[5].line, 3);
}

#[test]
fn equality_operator_matches_greedily() {
    assert_eq!(
        scan_to_tokens("=="),
        vec![Token::EqualEqual, Token::EndOfFile]
    );
    assert_eq!(
        scan_to_tokens("=x"),
        vec![
            Token::Equal,
            Token::Identifier("x".to_string()),
            Token::EndOfFile
        ]
    );
    assert_eq!(scan_to_tokens("="), vec![Token::Equal, Token::EndOfFile]);
    assert_eq!(
        scan_to_tokens("==="),
        vec![Token::EqualEqual, Token::Equal, Token::EndOfFile]
    );
}

#[test]
fn keyword_prefix_stays_one_identifier() {
    assert_eq!(
        scan_to_tokens("iffy"),
        vec![Token::Identifier("iffy".to_string()), Token::EndOfFile]
    );
    assert_eq!(
        scan_to_tokens("if fy"),
        vec![
            Token::If,
            Token::Space,
            Token::Identifier("fy".to_string()),
            Token::EndOfFile
        ]
    );
}

#[test]
fn scans_comment_then_string() {
    let source = "// a comment\n\"kept\"\n";
    let tokens = scan_to_tokens(source);
    assert_eq!(
        tokens,
        vec![
            Token::Comment(" a comment".to_string()),
            Token::StringLit("kept".to_string()),
            Token::NewLine,
            Token::EndOfFile
        ]
    )
}

#[test]
fn scans_numbers_and_identifiers() {
    let source = "myVar_1 42 3.14";
    let tokens = scan_to_tokens(source);
    assert_eq!(
        tokens,
        vec![
            Token::Identifier("myVar_1".to_string()),
            Token::Space,
            Token::Integer(42),
            Token::Space,
            Token::Float("3.14".to_string()),
            Token::EndOfFile
        ]
    )
}

#[test]
fn unterminated_string_is_an_error() {
    let source = "\"unterminated";
    match scan(source) {
        Err(FellowError::ScanError(e)) => {
            assert_eq!(e.message, "Unterminated string \"unterminated");
            assert_eq!(e.line, 0);
            assert_eq!(e.position, 13);
        }
        other => panic!("expected a scan error, got {:?}", other),
    }
}

#[test]
fn unsupported_symbol_is_an_error() {
    match scan("@") {
        Err(FellowError::ScanError(e)) => {
            assert_eq!(e.message, "Failed to scan at 1");
            assert_eq!(e.line, 0);
            assert_eq!(e.position, 1);
        }
        other => panic!("expected a scan error, got {:?}", other),
    }
    match scan("ok @") {
        Err(FellowError::ScanError(e)) => {
            assert_eq!(e.message, "Failed to scan at 4");
            assert_eq!(e.position, 4);
        }
        other => panic!("expected a scan error, got {:?}", other),
    }
}

#[test]
fn integer_at_the_i64_boundary() {
    assert_eq!(
        scan_to_tokens("9223372036854775807"),
        vec![Token::Integer(i64::MAX), Token::EndOfFile]
    );
    match scan("9223372036854775808") {
        Err(FellowError::ScanError(e)) => {
            assert_eq!(e.message, "number too large to fit in target type");
            assert_eq!(e.position, 19);
        }
        other => panic!("expected a scan error, got {:?}", other),
    }
}

#[test]
fn trailing_dot_is_not_a_fraction() {
    // A dot with no digit after it is left unconsumed: the number is an
    // integer and the dot scans as its own token.
    assert_eq!(
        scan_to_tokens("42."),
        vec![Token::Integer(42), Token::Dot, Token::EndOfFile]
    );
    assert_eq!(
        scan_to_tokens("42.x"),
        vec![
            Token::Integer(42),
            Token::Dot,
            Token::Identifier("x".to_string()),
            Token::EndOfFile
        ]
    );
}

#[test]
fn comment_at_end_of_input() {
    assert_eq!(
        scan_to_tokens("//abc"),
        vec![Token::Comment("abc".to_string()), Token::EndOfFile]
    );
    assert_eq!(
        scan_to_tokens("//"),
        vec![Token::Comment("".to_string()), Token::EndOfFile]
    );
}

#[test]
fn empty_input_is_only_end_of_file() {
    let contexts = scan("").unwrap();
    assert_eq!(contexts.len(), 1);
    assert_eq!(contexts[0].token, Token::EndOfFile);
    assert_eq!(contexts[0].start, 0);
    assert_eq!(contexts[0].end, 0);
    assert_eq!(contexts[0].line, 0);
    assert_eq!(contexts[0].lexeme, "");
}

#[test]
fn identifiers_continue_beyond_ascii() {
    // Alphanumeric characters outside ASCII continue an identifier.
    assert_eq!(
        scan_to_tokens("caf\u{e9} b"),
        vec![
            Token::Identifier("caf\u{e9}".to_string()),
            Token::Space,
            Token::Identifier("b".to_string()),
            Token::EndOfFile
        ]
    );
    // But such a character cannot begin a token.
    assert!(matches!(
        scan("\u{e9}"),
        Err(FellowError::ScanError(_))
    ));
}

#[test]
fn whitespace_tokens_are_first_class() {
    assert_eq!(
        scan_to_tokens(" \t\r\n"),
        vec![
            Token::Space,
            Token::Tab,
            Token::CarriageReturn,
            Token::NewLine,
            Token::EndOfFile
        ]
    );
    assert!(Token::Space.is_whitespace());
    assert!(Token::EndOfFile.is_whitespace());
    assert!(!Token::Comma.is_whitespace());
    assert!(!Token::Identifier("x".to_string()).is_whitespace());
}

#[test]
fn slash_tokens() {
    assert_eq!(
        scan_to_tokens("/\\"),
        vec![Token::Slash, Token::ForwardSlash, Token::EndOfFile]
    );
}
