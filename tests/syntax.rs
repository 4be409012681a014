use std::fmt::Debug;
use std::str::FromStr;
use vmtranslator::syntax::KeywordType::Class;
use vmtranslator::syntax::Symbol::LCurlyBrace;
use vmtranslator::syntax::Token;
use vmtranslator::syntax::Token::{Identifier, IntConst, Keyword, StringConst, Symbol};

fn parse_tester<T>(input: &str, expected: T)
where
    T: FromStr + Debug + PartialEq,
    <T as FromStr>::Err: Debug + PartialEq,
{
    let expected = Ok(expected);
    let actual = input.parse::<T>();

    assert_eq!(expected, actual);
}

#[test]
fn parse_keyword_type() {
    parse_tester("class", Class);
}

#[test]
fn parse_token_keyword() {
    parse_tester("class", Keyword(Class));
}

#[test]
fn parse_token_symbol() {
    parse_tester("{", Symbol(LCurlyBrace));
}

#[test]
fn parse_token_int_const() {
    parse_tester("42", IntConst(42));
}

#[test]
fn parse_token_string_const() {
    parse_tester("\"my_const\"", StringConst("my_const".to_string()));
    assert_eq!(Err("\"hello\"}".to_string()), "\"hello\"}".parse::<Token>());
    assert_eq!(
        Err("\"hello\"world\"".to_string()),
        "\"hello\"world\"".parse::<Token>()
    );
}

#[test]
fn parse_token_identifier() {
    parse_tester("_hello", Identifier("_hello".to_string()));
    parse_tester("_hello0", Identifier("_hello0".to_string()));
    assert_eq!(Err("0hello".to_string()), "0hello".parse::<Token>());
    assert_eq!(Err("_hello;".to_string()), "_hello;".parse::<Token>());
}
