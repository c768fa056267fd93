use tinyscript::lexer::{tokenize, LexError, Lexer};
use tinyscript::types::{Keywords, LexerToken, Operators, Punctuations, Tokens, Types};

fn lex(source: &str) -> Vec<LexerToken> {
    tokenize(&source.to_string()).expect("the text has tokens only")
}

fn kinds(source: &str) -> Vec<Tokens> {
    lex(source).iter().map(|token| token.token).collect()
}

fn texts(source: &str) -> Vec<String> {
    lex(source).iter().map(|token| token.value.clone().unwrap_or_default()).collect()
}

#[test]
fn empty_text_has_no_tokens() {
    assert!(lex("").is_empty());
    assert!(lex("  \t\r\n ").is_empty());
}

#[test]
fn end_of_input_is_repeated() {
    let mut lexer = Lexer::new(&"x".to_string());
    let first = lexer.next_token().unwrap();
    assert_eq!(first.token, Tokens::Var(Types::Unknown));
    for _ in 0..3 {
        let token = lexer.next_token().unwrap();
        assert_eq!(token.token, Tokens::Eof);
        assert_eq!(token.value, None);
        assert_eq!(token.var_type, Types::Unknown);
    }
    assert!(lexer.at_end());
}

#[test]
fn parentheses_are_punctuation() {
    assert_eq!(
        kinds("()"),
        vec![
            Tokens::Punctuation(Punctuations::LParen),
            Tokens::Punctuation(Punctuations::RParen)
        ]
    );
    assert_eq!(texts("( )"), vec!["(", ")"]);
}

#[test]
fn every_keyword_is_recognized() {
    let table = [
        ("begin", Keywords::Begin),
        ("end", Keywords::End),
        ("if", Keywords::If),
        ("then", Keywords::Then),
        ("else", Keywords::Else),
        ("true", Keywords::True),
        ("false", Keywords::False),
        ("display", Keywords::Display),
        ("newline", Keywords::Newline),
        ("define", Keywords::Define),
        ("read", Keywords::Read),
        ("read-line", Keywords::ReadLine),
        ("while", Keywords::While),
    ];
    for (word, keyword) in table {
        let tokens = lex(word);
        assert_eq!(tokens.len(), 1, "{}", word);
        assert_eq!(tokens[0].token, Tokens::Keyword(keyword), "{}", word);
        assert_eq!(tokens[0].var_type, Types::Keyword);
        assert_eq!(tokens[0].value.as_deref(), Some(word));
    }
}

#[test]
fn other_words_are_literals_of_unknown_kind() {
    let tokens = lex("foo Begin x1 displays");
    assert_eq!(tokens.len(), 4);
    for token in &tokens {
        assert_eq!(token.token, Tokens::Var(Types::Unknown));
        assert_eq!(token.var_type, Types::Unknown);
    }
    assert_eq!(texts("foo Begin x1 displays"), vec!["foo", "Begin", "x1", "displays"]);
}

#[test]
fn words_go_on_over_letters_and_digits_of_any_script() {
    assert_eq!(texts("caf\u{e9}7 x"), vec!["caf\u{e9}7", "x"]);
}

#[test]
fn read_line_needs_its_whole_suffix() {
    assert_eq!(
        kinds("read-lines"),
        vec![
            Tokens::Keyword(Keywords::Read),
            Tokens::Operator(Operators::Minus),
            Tokens::Var(Types::Unknown)
        ]
    );
    assert_eq!(texts("read-lines"), vec!["read", "-", "lines"]);
    assert_eq!(
        kinds("read-lin"),
        vec![
            Tokens::Keyword(Keywords::Read),
            Tokens::Operator(Operators::Minus),
            Tokens::Var(Types::Unknown)
        ]
    );
    assert_eq!(
        kinds("(read-line)"),
        vec![
            Tokens::Punctuation(Punctuations::LParen),
            Tokens::Keyword(Keywords::ReadLine),
            Tokens::Punctuation(Punctuations::RParen)
        ]
    );
    assert_eq!(
        kinds("bread-line"),
        vec![
            Tokens::Var(Types::Unknown),
            Tokens::Operator(Operators::Minus),
            Tokens::Var(Types::Unknown)
        ]
    );
}

#[test]
fn numbers_are_integers_or_floats_by_the_point() {
    let tokens = lex("42 3.14 7.");
    assert_eq!(tokens.len(), 3);
    assert_eq!(tokens[0].token, Tokens::Var(Types::Int));
    assert_eq!(tokens[0].var_type, Types::Int);
    assert_eq!(tokens[0].value.as_deref(), Some("42"));
    assert_eq!(tokens[1].token, Tokens::Var(Types::Float));
    assert_eq!(tokens[1].var_type, Types::Float);
    assert_eq!(tokens[1].value.as_deref(), Some("3.14"));
    assert_eq!(tokens[2].token, Tokens::Var(Types::Float));
    assert_eq!(tokens[2].value.as_deref(), Some("7."));
}

#[test]
fn a_number_takes_one_point_at_most() {
    let mut lexer = Lexer::new(&"1.2.3".to_string());
    let number = lexer.next_token().unwrap();
    assert_eq!(number.token, Tokens::Var(Types::Float));
    assert_eq!(number.value.as_deref(), Some("1.2"));
    assert_eq!(lexer.position, 3);
    let stop = lexer.next_token().unwrap();
    assert_eq!(stop.token, Tokens::Eof);
    assert_eq!(lexer.position, 3);
    assert_eq!(
        tokenize(&"1.2.3".to_string()).unwrap_err(),
        LexError::UnrecognizedCharacter { row: 1, column: 4 }
    );
}

#[test]
fn a_number_ends_where_a_word_starts() {
    assert_eq!(
        kinds("12ab"),
        vec![Tokens::Var(Types::Int), Tokens::Var(Types::Unknown)]
    );
    assert_eq!(texts("12ab"), vec!["12", "ab"]);
}

#[test]
fn strings_are_taken_as_they_are() {
    let tokens = lex("\"hello world\" \"a\\nb\" \"\"");
    assert_eq!(tokens.len(), 3);
    for token in &tokens {
        assert_eq!(token.token, Tokens::Var(Types::String));
        assert_eq!(token.var_type, Types::String);
    }
    assert_eq!(tokens[0].value.as_deref(), Some("hello world"));
    assert_eq!(tokens[1].value.as_deref(), Some("a\\nb"));
    assert_eq!(tokens[2].value.as_deref(), Some(""));
}

#[test]
fn a_string_may_hold_parentheses_and_comment_markers() {
    assert_eq!(texts("\"(a ; b)\" x"), vec!["(a ; b)", "x"]);
}

#[test]
fn an_unterminated_string_is_an_error() {
    assert_eq!(
        tokenize(&"(display \"abc".to_string()).unwrap_err(),
        LexError::UnterminatedString { row: 1, column: 10 }
    );
    assert_eq!(
        tokenize(&"x\n  \"".to_string()).unwrap_err(),
        LexError::UnterminatedString { row: 2, column: 3 }
    );
    let mut lexer = Lexer::new(&"\"abc".to_string());
    assert_eq!(
        lexer.next_token().unwrap_err(),
        LexError::UnterminatedString { row: 1, column: 1 }
    );
    assert!(lexer.at_end());
}

#[test]
fn single_operators() {
    assert_eq!(
        kinds("+ - * / % < > ="),
        vec![
            Tokens::Operator(Operators::Plus),
            Tokens::Operator(Operators::Minus),
            Tokens::Operator(Operators::Asterisk),
            Tokens::Operator(Operators::Slash),
            Tokens::Operator(Operators::Percent),
            Tokens::Operator(Operators::Lt),
            Tokens::Operator(Operators::Gt),
            Tokens::Operator(Operators::Eq),
        ]
    );
    assert_eq!(texts("+ - * / % < > ="), vec!["+", "-", "*", "/", "%", "<", ">", "="]);
}

#[test]
fn double_operators() {
    assert_eq!(
        kinds("<= >= != =="),
        vec![
            Tokens::Operator(Operators::Le),
            Tokens::Operator(Operators::Ge),
            Tokens::Operator(Operators::Ne),
            Tokens::Operator(Operators::Eq),
        ]
    );
    assert_eq!(texts("<= >= != =="), vec!["<=", ">=", "!=", "=="]);
    for token in lex("<= >= != ==") {
        assert_eq!(token.var_type, Types::Unknown);
    }
}

#[test]
fn arithmetic_operators_do_not_join_an_equals_sign() {
    assert_eq!(
        kinds("+="),
        vec![Tokens::Operator(Operators::Plus), Tokens::Operator(Operators::Eq)]
    );
    assert_eq!(
        kinds("<=="),
        vec![Tokens::Operator(Operators::Le), Tokens::Operator(Operators::Eq)]
    );
}

#[test]
fn a_lone_exclamation_mark_starts_no_token() {
    assert_eq!(
        tokenize(&"(! x)".to_string()).unwrap_err(),
        LexError::UnrecognizedCharacter { row: 1, column: 2 }
    );
}

#[test]
fn an_unrecognized_character_is_an_error_with_its_place() {
    assert_eq!(
        tokenize(&"(display 1)\n  # no".to_string()).unwrap_err(),
        LexError::UnrecognizedCharacter { row: 2, column: 3 }
    );
    let mut lexer = Lexer::new(&"a @ b".to_string());
    assert_eq!(lexer.next_token().unwrap().value.as_deref(), Some("a"));
    let stop = lexer.next_token().unwrap();
    assert_eq!(stop.token, Tokens::Eof);
    assert_eq!(stop.value, None);
    assert_eq!(lexer.position, 2);
    assert_eq!(lexer.ch, '@');
    assert!(!lexer.at_end());
    let again = lexer.next_token().unwrap();
    assert_eq!(again.token, Tokens::Eof);
    assert_eq!(lexer.position, 2);
}

#[test]
fn comments_run_to_the_end_of_the_line() {
    assert_eq!(texts("a ; b c\nd"), vec!["a", "d"]);
    assert_eq!(texts("; only a comment"), Vec::<String>::new());
    assert_eq!(texts(";one\n;two\n  x ; three"), vec!["x"]);
}

#[test]
fn rows_and_columns_follow_the_cursor() {
    let mut lexer = Lexer::new(&"ab\n  cd".to_string());
    assert_eq!((lexer.position, lexer.row, lexer.column, lexer.ch), (0, 1, 1, 'a'));
    lexer.next_token().unwrap();
    assert_eq!((lexer.position, lexer.row, lexer.column, lexer.ch), (2, 1, 3, '\n'));
    lexer.next_token().unwrap();
    assert_eq!((lexer.position, lexer.row, lexer.column, lexer.ch), (7, 2, 5, '\0'));
    assert!(lexer.at_end());
}

#[test]
fn a_whole_call_is_tokenized_in_order() {
    assert_eq!(
        kinds("(define x (+ x 1))"),
        vec![
            Tokens::Punctuation(Punctuations::LParen),
            Tokens::Keyword(Keywords::Define),
            Tokens::Var(Types::Unknown),
            Tokens::Punctuation(Punctuations::LParen),
            Tokens::Operator(Operators::Plus),
            Tokens::Var(Types::Unknown),
            Tokens::Var(Types::Int),
            Tokens::Punctuation(Punctuations::RParen),
            Tokens::Punctuation(Punctuations::RParen),
        ]
    );
}
