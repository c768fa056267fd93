use tinyscript::lexer::tokenize;
use tinyscript::parser::{Argument, Expression, LiteralVariable, ParseError, Parser};
use tinyscript::types::{Keywords, LexerToken, Operators, Punctuations, Tokens, Types};

fn parse_text(source: &str) -> Result<Vec<Argument>, ParseError> {
    let tokens = tokenize(&source.to_string()).expect("the text has tokens only");
    Parser::new(tokens).parse()
}

/// The tree written out, so that two trees can be compared.
fn show(node: &Argument) -> String {
    match node {
        Argument::LiteralVariable(literal) => format!("{:?}:{}", literal.var_type, literal.value),
        Argument::Expression(call) => {
            let arguments: Vec<String> = call.arguments.iter().map(show).collect();
            format!("[{}|{}]", call.function, arguments.join(" "))
        }
    }
}

fn show_all(nodes: &[Argument]) -> Vec<String> {
    nodes.iter().map(show).collect()
}

fn token(token: Tokens, var_type: Types, value: Option<&str>) -> LexerToken {
    LexerToken { var_type, token, value: value.map(|text| text.to_string()) }
}

#[test]
fn no_tokens_no_expressions() {
    assert!(parse_text("").unwrap().is_empty());
}

#[test]
fn a_literal_is_an_expression() {
    assert_eq!(
        show_all(&parse_text("5 2.5 \"s\" word").unwrap()),
        vec!["Int:5", "Float:2.5", "String:s", "Unknown:word"]
    );
}

#[test]
fn a_call_keeps_the_order_of_its_arguments() {
    assert_eq!(
        show_all(&parse_text("(- 10 3 2)").unwrap()),
        vec!["[-|Int:10 Int:3 Int:2]"]
    );
}

#[test]
fn calls_nest() {
    assert_eq!(
        show_all(&parse_text("(if (< 1 2) (display \"a\") (display \"b\"))").unwrap()),
        vec!["[if|[<|Int:1 Int:2] [display|String:a] [display|String:b]]"]
    );
}

#[test]
fn a_program_is_a_sequence_of_expressions() {
    assert_eq!(
        show_all(&parse_text("(define x 5) (display x) 7 (newline)").unwrap()),
        vec!["[define|Unknown:x Int:5]", "[display|Unknown:x]", "Int:7", "[newline|]"]
    );
}

#[test]
fn a_call_with_an_operator_is_a_call() {
    assert_eq!(show_all(&parse_text("(+ 2 3)").unwrap()), vec!["[+|Int:2 Int:3]"]);
    assert_eq!(show_all(&parse_text("(== 2 3)").unwrap()), vec!["[==|Int:2 Int:3]"]);
}

#[test]
fn a_stray_closing_parenthesis_is_a_call_without_a_name() {
    let nodes = parse_text(")").unwrap();
    assert_eq!(show_all(&nodes), vec!["[|]"]);
    assert_eq!(
        show_all(&parse_text("(display 1)) 2").unwrap()),
        vec!["[display|Int:1]", "[|]", "Int:2"]
    );
}

#[test]
fn the_end_of_the_tokens_closes_every_open_call() {
    assert_eq!(
        show_all(&parse_text("(display (+ 1 2").unwrap()),
        vec!["[display|[+|Int:1 Int:2]]"]
    );
    assert_eq!(show_all(&parse_text("(begin").unwrap()), vec!["[begin|]"]);
}

#[test]
fn what_follows_an_opening_parenthesis_must_be_callable() {
    assert_eq!(
        parse_text("(foo 1 2)").unwrap_err(),
        ParseError::ExpectedCallable { position: 1 }
    );
    assert_eq!(
        parse_text("(display (5))").unwrap_err(),
        ParseError::ExpectedCallable { position: 3 }
    );
    assert_eq!(parse_text("((").unwrap_err(), ParseError::ExpectedCallable { position: 1 });
    assert_eq!(parse_text("()").unwrap_err(), ParseError::ExpectedCallable { position: 1 });
    assert_eq!(parse_text("(").unwrap_err(), ParseError::ExpectedCallable { position: 1 });
}

#[test]
fn a_keyword_or_operator_needs_its_parenthesis() {
    assert_eq!(
        parse_text("display 5").unwrap_err(),
        ParseError::ExpectedOpenParen { position: 0 }
    );
    assert_eq!(
        parse_text("(display + 5)").unwrap_err(),
        ParseError::ExpectedOpenParen { position: 2 }
    );
    assert_eq!(
        parse_text("(if true 1 2)").unwrap_err(),
        ParseError::ExpectedOpenParen { position: 2 }
    );
}

#[test]
fn a_token_without_text_cannot_be_parsed() {
    let literal = vec![token(Tokens::Var(Types::Int), Types::Int, None)];
    assert_eq!(
        Parser::new(literal).parse().unwrap_err(),
        ParseError::MissingText { position: 0 }
    );
    let call = vec![
        token(Tokens::Punctuation(Punctuations::LParen), Types::Unknown, Some("(")),
        token(Tokens::Keyword(Keywords::Display), Types::Keyword, None),
    ];
    assert_eq!(Parser::new(call).parse().unwrap_err(), ParseError::MissingText { position: 1 });
}

#[test]
fn an_end_of_input_token_ends_the_program() {
    let tokens = vec![
        token(Tokens::Punctuation(Punctuations::LParen), Types::Unknown, Some("(")),
        token(Tokens::Operator(Operators::Plus), Types::Unknown, Some("+")),
        token(Tokens::Var(Types::Int), Types::Int, Some("1")),
        token(Tokens::Eof, Types::Unknown, None),
        token(Tokens::Var(Types::Int), Types::Int, Some("2")),
    ];
    let mut parser = Parser::new(tokens);
    let nodes = parser.parse().unwrap();
    assert_eq!(show_all(&nodes), vec!["[+|Int:1]"]);
    assert_eq!(parser.position, 3);
}

#[test]
fn the_kind_of_a_literal_is_that_of_its_token() {
    let tokens = vec![token(Tokens::Var(Types::Float), Types::Unknown, Some("1.5"))];
    let nodes = Parser::new(tokens).parse().unwrap();
    assert_eq!(show_all(&nodes), vec!["Float:1.5"]);
}

#[test]
fn parsing_goes_on_from_the_cursor() {
    let tokens = tokenize(&"1 2 3".to_string()).unwrap();
    let mut parser = Parser::new(tokens);
    parser.position = 1;
    let nodes = parser.parse().unwrap();
    assert_eq!(show_all(&nodes), vec!["Int:2", "Int:3"]);
    assert_eq!(parser.position, 3);
    assert!(parser.parse().unwrap().is_empty());
}

#[test]
fn a_copy_of_a_tree_is_the_same_tree() {
    let tree = Argument::Expression(Expression {
        function: "display".to_string(),
        arguments: vec![
            Argument::LiteralVariable(LiteralVariable {
                var_type: Types::String,
                value: "a".to_string(),
            }),
            Argument::Expression(Expression { function: "+".to_string(), arguments: vec![] }),
        ],
    });
    assert_eq!(show(&tree.duplicate()), show(&tree));
    assert_eq!(show(&tree.clone()), "[display|String:a [+|]]");
}

/// The tokens that a tree is written with, every name as an operator.
fn write(node: &Argument, tokens: &mut Vec<LexerToken>) {
    match node {
        Argument::LiteralVariable(literal) => tokens.push(token(
            Tokens::Var(literal.var_type),
            literal.var_type,
            Some(literal.value.as_str()),
        )),
        Argument::Expression(call) => {
            tokens.push(token(Tokens::Punctuation(Punctuations::LParen), Types::Unknown, Some("(")));
            tokens.push(token(
                Tokens::Operator(Operators::Plus),
                Types::Unknown,
                Some(call.function.as_str()),
            ));
            for argument in &call.arguments {
                write(argument, tokens);
            }
            tokens.push(token(Tokens::Punctuation(Punctuations::RParen), Types::Unknown, Some(")")));
        }
    }
}

#[test]
fn what_is_written_is_read_back() {
    let program = vec![
        Argument::Expression(Expression {
            function: "anything at all".to_string(),
            arguments: vec![
                Argument::LiteralVariable(LiteralVariable {
                    var_type: Types::Bool,
                    value: "true".to_string(),
                }),
                Argument::Expression(Expression { function: "g".to_string(), arguments: vec![] }),
                Argument::Expression(Expression {
                    function: "while".to_string(),
                    arguments: vec![Argument::LiteralVariable(LiteralVariable {
                        var_type: Types::String,
                        value: "(".to_string(),
                    })],
                }),
            ],
        }),
        Argument::LiteralVariable(LiteralVariable {
            var_type: Types::Float,
            value: String::new(),
        }),
        Argument::Expression(Expression { function: "f".to_string(), arguments: vec![] }),
    ];
    let mut tokens = Vec::new();
    for node in &program {
        write(node, &mut tokens);
    }
    assert_eq!(tokens.len(), 15);
    let parsed = Parser::new(tokens).parse().unwrap();
    assert_eq!(show_all(&parsed), show_all(&program));
    assert_eq!(
        show_all(&parsed),
        vec!["[anything at all|Bool:true [g|] [while|String:(]]", "Float:", "[f|]"]
    );
}

#[test]
fn a_call_needs_a_name() {
    let tokens = vec![
        token(Tokens::Punctuation(Punctuations::LParen), Types::Unknown, Some("(")),
        token(Tokens::Operator(Operators::Plus), Types::Unknown, Some("")),
        token(Tokens::Var(Types::Int), Types::Int, Some("1")),
        token(Tokens::Punctuation(Punctuations::RParen), Types::Unknown, Some(")")),
    ];
    assert_eq!(Parser::new(tokens).parse().unwrap_err(), ParseError::MissingText { position: 1 });
    let empty_literal = vec![token(Tokens::Var(Types::String), Types::String, Some(""))];
    assert_eq!(show_all(&Parser::new(empty_literal).parse().unwrap()), vec!["String:"]);
}

#[test]
fn parsing_again_gives_nothing_more() {
    let tokens = tokenize(&"(display (+ 1 2)) 7 )".to_string()).unwrap();
    let count = tokens.len();
    let mut parser = Parser::new(tokens);
    let first = parser.parse().unwrap();
    assert_eq!(first.len(), 3);
    assert_eq!(parser.position, count);
    assert!(parser.parse().unwrap().is_empty());
    assert_eq!(parser.position, count);
}

#[test]
fn the_cursor_stays_within_the_tokens_after_an_error() {
    let tokens = tokenize(&"(display (".to_string()).unwrap();
    let count = tokens.len();
    let mut parser = Parser::new(tokens);
    assert_eq!(parser.parse().unwrap_err(), ParseError::ExpectedCallable { position: 3 });
    assert!(parser.position <= count);
    let _ = parser.parse();
    assert!(parser.position <= count);
}
