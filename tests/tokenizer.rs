use vmtranslator::syntax::{KeywordType, Symbol, Token};
use vmtranslator::tokenizer::{nested_tokenize, Tokenizer};

fn test_iter(input: &str, expected: &[Token]) {
    let lines: Vec<String> = input.lines().map(|l| l.to_string()).collect();
    let mut tokenizer = Tokenizer::new(lines);

    let mut actual = vec![];
    while let Some(token) = tokenizer.advance() {
        actual.push(token)
    }

    assert_eq!(expected, actual);
}

/// While invalid to neglect a semi-colon, it's easier to parse.
/// This allows building simple token-based parsing without a look ahead.
#[test]
fn test_assignment_no_semi() {
    let input = "let x = 100";
    let expected = [
        Token::Keyword(KeywordType::Let),
        Token::Identifier("x".to_string()),
        Token::Symbol("=".parse().unwrap()),
        Token::IntConst(100),
    ];

    test_iter(input, &expected);
}

#[test]
fn test_assignment() {
    let input = "let x = 100;";
    let expected = [
        Token::Keyword(KeywordType::Let),
        Token::Identifier("x".to_string()),
        Token::Symbol("=".parse().unwrap()),
        Token::IntConst(100),
        Token::Symbol(";".parse().unwrap()),
    ];

    test_iter(input, &expected);
}

#[test]
fn test_multiline_tokenize() {
    let input = r#"
            let x = 100;
            let y = 100;
        "#;

    let expected = [
        Token::Keyword(KeywordType::Let),
        Token::Identifier("x".to_string()),
        Token::Symbol("=".parse().unwrap()),
        Token::IntConst(100),
        Token::Symbol(";".parse().unwrap()),
        Token::Keyword(KeywordType::Let),
        Token::Identifier("y".to_string()),
        Token::Symbol("=".parse().unwrap()),
        Token::IntConst(100),
        Token::Symbol(";".parse().unwrap()),
    ];

    test_iter(input, &expected);
}

#[test]
fn test_while_no_comment() {
    let input = r#"
        if (x < 0) {
            // handles the sign
            let sign = "negative";
        }
        "#;

    let expected = [
        Token::Keyword(KeywordType::If),
        Token::Symbol("(".parse().unwrap()),
        Token::Identifier("x".to_string()),
        Token::Symbol("<".parse().unwrap()),
        Token::IntConst(0),
        Token::Symbol(")".parse().unwrap()),
        Token::Symbol("{".parse().unwrap()),
        Token::Keyword(KeywordType::Let),
        Token::Identifier("sign".to_string()),
        Token::Symbol("=".parse().unwrap()),
        Token::StringConst("negative".to_string()),
        Token::Symbol(";".parse().unwrap()),
        Token::Symbol("}".parse().unwrap()),
    ];

    test_iter(input, &expected);
}

#[test]
fn test_while_comment() {
    let input = r#"
        if (x < 0) {
            // handles the sign
            let sign = "negative";
        }
        "#;

    let expected = [
        Token::Keyword(KeywordType::If),
        Token::Symbol("(".parse().unwrap()),
        Token::Identifier("x".to_string()),
        Token::Symbol("<".parse().unwrap()),
        Token::IntConst(0),
        Token::Symbol(")".parse().unwrap()),
        Token::Symbol("{".parse().unwrap()),
        Token::Keyword(KeywordType::Let),
        Token::Identifier("sign".to_string()),
        Token::Symbol("=".parse().unwrap()),
        Token::StringConst("negative".to_string()),
        Token::Symbol(";".parse().unwrap()),
        Token::Symbol("}".parse().unwrap()),
    ];

    test_iter(input, &expected);
}

/// Test that string constants won't be split.
/// No semi-colon as that complicates the parsing.
#[test]
fn test_space_in_str_const_no_semi() {
    let input = "let sign = \"hello world\"";
    let expected = [
        Token::Keyword(KeywordType::Let),
        Token::Identifier("sign".to_string()),
        Token::Symbol("=".parse().unwrap()),
        Token::StringConst("hello world".to_string()),
    ];

    test_iter(input, &expected);
}

#[test]
fn test_nested_tokenize_num_semi() {
    let input = "42;";
    let expected = vec![Token::IntConst(42), Token::Symbol(Symbol::Semicolon)];

    let actual = nested_tokenize(input);

    assert_eq!(expected, actual);
}

#[test]
fn test_nested_tokenize_curly_brace_str_const() {
    let input = "{\"hello\"}";
    let expected = vec![
        Token::Symbol(Symbol::LCurlyBrace),
        Token::StringConst("hello".to_string()),
        Token::Symbol(Symbol::RCurlyBrace),
    ];

    let actual = nested_tokenize(input);

    assert_eq!(expected, actual);
}

#[test]
fn test_nested_tokenize_curly_brace_str_const_twice() {
    let input = "{\"hello\"}{\"hello\"}";
    let expected = vec![
        Token::Symbol(Symbol::LCurlyBrace),
        Token::StringConst("hello".to_string()),
        Token::Symbol(Symbol::RCurlyBrace),
        Token::Symbol(Symbol::LCurlyBrace),
        Token::StringConst("hello".to_string()),
        Token::Symbol(Symbol::RCurlyBrace),
    ];

    let actual = nested_tokenize(input);

    assert_eq!(expected, actual);
}

#[test]
fn tokenizer_stops_at_a_line_without_tokens() {
    let input = "let\n???\nx";
    test_iter(input, &[Token::Keyword(KeywordType::Let)]);
}

#[test]
fn nested_tokenize_drops_text_without_tokens() {
    assert_eq!(nested_tokenize("?"), vec![]);
    assert_eq!(nested_tokenize("0hello"), vec![Token::IntConst(0), Token::Identifier("hello".to_string())]);
}
