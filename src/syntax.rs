use vstd::prelude::*;
use vstd::string::{StrSliceExecFns, StringExecFns};
use crate::lex::{is_int_literal, literal_value, parse_decimal, str_eq};

verus! {

/// The reserved words of the Jack language.
#[derive(Debug, PartialEq, Eq, Clone, Copy, Structural)]
pub enum KeywordType {
    Class,
    Method,
    Function,
    Constructor,
    Int,
    Boolean,
    Char,
    Void,
    Var,
    Static,
    Field,
    Let,
    Do,
    If,
    Else,
    While,
    Return,
    True,
    False,
    Null,
    This,
}

/// The keyword spelled `s`, if any.
pub open spec fn keyword_of(s: Seq<char>) -> Option<KeywordType> {
    if s == "class"@ {
        Some(KeywordType::Class)
    } else if s == "method"@ {
        Some(KeywordType::Method)
    } else if s == "function"@ {
        Some(KeywordType::Function)
    } else if s == "constructor"@ {
        Some(KeywordType::Constructor)
    } else if s == "int"@ {
        Some(KeywordType::Int)
    } else if s == "boolean"@ {
        Some(KeywordType::Boolean)
    } else if s == "char"@ {
        Some(KeywordType::Char)
    } else if s == "void"@ {
        Some(KeywordType::Void)
    } else if s == "var"@ {
        Some(KeywordType::Var)
    } else if s == "static"@ {
        Some(KeywordType::Static)
    } else if s == "field"@ {
        Some(KeywordType::Field)
    } else if s == "let"@ {
        Some(KeywordType::Let)
    } else if s == "do"@ {
        Some(KeywordType::Do)
    } else if s == "if"@ {
        Some(KeywordType::If)
    } else if s == "else"@ {
        Some(KeywordType::Else)
    } else if s == "while"@ {
        Some(KeywordType::While)
    } else if s == "return"@ {
        Some(KeywordType::Return)
    } else if s == "true"@ {
        Some(KeywordType::True)
    } else if s == "false"@ {
        Some(KeywordType::False)
    } else if s == "null"@ {
        Some(KeywordType::Null)
    } else if s == "this"@ {
        Some(KeywordType::This)
    } else {
        None
    }
}

impl KeywordType {
    /// The keyword spelled `s`.
    pub fn parse_keyword(s: &str) -> (r: Result<KeywordType, ()>)
        ensures
            r matches Ok(k) ==> keyword_of(s@) == Some(k),
            r is Err <==> keyword_of(s@) is None,
    {
        if str_eq(s, "class") {
            Ok(KeywordType::Class)
        } else if str_eq(s, "method") {
            Ok(KeywordType::Method)
        } else if str_eq(s, "function") {
            Ok(KeywordType::Function)
        } else if str_eq(s, "constructor") {
            Ok(KeywordType::Constructor)
        } else if str_eq(s, "int") {
            Ok(KeywordType::Int)
        } else if str_eq(s, "boolean") {
            Ok(KeywordType::Boolean)
        } else if str_eq(s, "char") {
            Ok(KeywordType::Char)
        } else if str_eq(s, "void") {
            Ok(KeywordType::Void)
        } else if str_eq(s, "var") {
            Ok(KeywordType::Var)
        } else if str_eq(s, "static") {
            Ok(KeywordType::Static)
        } else if str_eq(s, "field") {
            Ok(KeywordType::Field)
        } else if str_eq(s, "let") {
            Ok(KeywordType::Let)
        } else if str_eq(s, "do") {
            Ok(KeywordType::Do)
        } else if str_eq(s, "if") {
            Ok(KeywordType::If)
        } else if str_eq(s, "else") {
            Ok(KeywordType::Else)
        } else if str_eq(s, "while") {
            Ok(KeywordType::While)
        } else if str_eq(s, "return") {
            Ok(KeywordType::Return)
        } else if str_eq(s, "true") {
            Ok(KeywordType::True)
        } else if str_eq(s, "false") {
            Ok(KeywordType::False)
        } else if str_eq(s, "null") {
            Ok(KeywordType::Null)
        } else if str_eq(s, "this") {
            Ok(KeywordType::This)
        } else {
            Err(())
        }
    }
}

impl std::str::FromStr for KeywordType {
    type Err = ();

    fn from_str(s: &str) -> Result<Self, Self::Err> {
        KeywordType::parse_keyword(s)
    }
}

/// The punctuation and operator symbols of the Jack language.
#[derive(Debug, PartialEq, Eq, Clone, Copy, Structural)]
pub enum Symbol {
    LCurlyBrace,
    RCurlyBrace,
    LParen,
    RParen,
    LBracket,
    RBracket,
    Period,
    Comma,
    Semicolon,
    Plus,
    Minus,
    Asterick,
    ForwardSlash,
    Ampersand,
    Pipe,
    LAngleBracket,
    RAngleBracket,
    Equal,
    Tilde,
}

/// The symbol spelled `s`, if any.
pub open spec fn symbol_of(s: Seq<char>) -> Option<Symbol> {
    if s == "{"@ {
        Some(Symbol::LCurlyBrace)
    } else if s == "}"@ {
        Some(Symbol::RCurlyBrace)
    } else if s == "("@ {
        Some(Symbol::LParen)
    } else if s == ")"@ {
        Some(Symbol::RParen)
    } else if s == "["@ {
        Some(Symbol::LBracket)
    } else if s == "]"@ {
        Some(Symbol::RBracket)
    } else if s == "."@ {
        Some(Symbol::Period)
    } else if s == ","@ {
        Some(Symbol::Comma)
    } else if s == ";"@ {
        Some(Symbol::Semicolon)
    } else if s == "+"@ {
        Some(Symbol::Plus)
    } else if s == "-"@ {
        Some(Symbol::Minus)
    } else if s == "*"@ {
        Some(Symbol::Asterick)
    } else if s == "/"@ {
        Some(Symbol::ForwardSlash)
    } else if s == "&"@ {
        Some(Symbol::Ampersand)
    } else if s == "|"@ {
        Some(Symbol::Pipe)
    } else if s == "<"@ {
        Some(Symbol::LAngleBracket)
    } else if s == ">"@ {
        Some(Symbol::RAngleBracket)
    } else if s == "="@ {
        Some(Symbol::Equal)
    } else if s == "~"@ {
        Some(Symbol::Tilde)
    } else {
        None
    }
}

impl Symbol {
    /// The symbol spelled `s`; the text itself when it is none.
    pub fn parse_symbol(s: &str) -> (r: Result<Symbol, String>)
        ensures
            r matches Ok(k) ==> symbol_of(s@) == Some(k),
            r matches Err(e) ==> symbol_of(s@) is None && e@ == s@,
            r is Err <==> symbol_of(s@) is None,
    {
        if str_eq(s, "{") {
            Ok(Symbol::LCurlyBrace)
        } else if str_eq(s, "}") {
            Ok(Symbol::RCurlyBrace)
        } else if str_eq(s, "(") {
            Ok(Symbol::LParen)
        } else if str_eq(s, ")") {
            Ok(Symbol::RParen)
        } else if str_eq(s, "[") {
            Ok(Symbol::LBracket)
        } else if str_eq(s, "]") {
            Ok(Symbol::RBracket)
        } else if str_eq(s, ".") {
            Ok(Symbol::Period)
        } else if str_eq(s, ",") {
            Ok(Symbol::Comma)
        } else if str_eq(s, ";") {
            Ok(Symbol::Semicolon)
        } else if str_eq(s, "+") {
            Ok(Symbol::Plus)
        } else if str_eq(s, "-") {
            Ok(Symbol::Minus)
        } else if str_eq(s, "*") {
            Ok(Symbol::Asterick)
        } else if str_eq(s, "/") {
            Ok(Symbol::ForwardSlash)
        } else if str_eq(s, "&") {
            Ok(Symbol::Ampersand)
        } else if str_eq(s, "|") {
            Ok(Symbol::Pipe)
        } else if str_eq(s, "<") {
            Ok(Symbol::LAngleBracket)
        } else if str_eq(s, ">") {
            Ok(Symbol::RAngleBracket)
        } else if str_eq(s, "=") {
            Ok(Symbol::Equal)
        } else if str_eq(s, "~") {
            Ok(Symbol::Tilde)
        } else {
            Err(String::from_str(s))
        }
    }
}

impl std::str::FromStr for Symbol {
    type Err = String;

    fn from_str(s: &str) -> Result<Self, Self::Err> {
        Symbol::parse_symbol(s)
    }
}

/// A lexical unit of the Jack language.
#[derive(Debug, PartialEq)]
pub enum Token {
    Keyword(KeywordType),
    Symbol(Symbol),
    Identifier(String),
    IntConst(i16),
    /// A string constant, without its quotes.
    StringConst(String),
}

pub ghost enum TokenModel {
    Keyword(KeywordType),
    Symbol(Symbol),
    Identifier(Seq<char>),
    IntConst(int),
    StringConst(Seq<char>),
}

impl View for Token {
    type V = TokenModel;

    open spec fn view(&self) -> TokenModel {
        match self {
            Token::Keyword(k) => TokenModel::Keyword(*k),
            Token::Symbol(s) => TokenModel::Symbol(*s),
            Token::Identifier(s) => TokenModel::Identifier(s@),
            Token::IntConst(v) => TokenModel::IntConst(*v as int),
            Token::StringConst(s) => TokenModel::StringConst(s@),
        }
    }
}

/// Text between two double quotes, with no double quote inside.
pub open spec fn is_string_const(s: Seq<char>) -> bool {
    s.len() >= 2 && s[0] == '"' && s[s.len() - 1] == '"' && forall|i: int|
        1 <= i < s.len() - 1 ==> #[trigger] s[i] != '"'
}

pub open spec fn is_ident_start(c: char) -> bool {
    ('a' <= c && c <= 'z') || ('A' <= c && c <= 'Z') || c == '_'
}

pub open spec fn is_ident_char(c: char) -> bool {
    is_ident_start(c) || ('0' <= c && c <= '9')
}

/// A letter or underscore, then letters, digits and underscores.
pub open spec fn is_identifier(s: Seq<char>) -> bool {
    s.len() >= 1 && is_ident_start(s[0]) && forall|i: int| 1 <= i < s.len() ==> is_ident_char(#[trigger] s[i])
}

/// Whether a decimal literal's value fits a Jack integer constant.
pub open spec fn fits_i16(v: int) -> bool {
    i16::MIN <= v <= i16::MAX
}

/// The token that the whole of `s` spells, if any; keywords first, then symbols, integers,
/// string constants and identifiers.
pub open spec fn token_of(s: Seq<char>) -> Option<TokenModel> {
    if keyword_of(s) is Some {
        Some(TokenModel::Keyword(keyword_of(s)->0))
    } else if symbol_of(s) is Some {
        Some(TokenModel::Symbol(symbol_of(s)->0))
    } else if is_int_literal(s) && fits_i16(literal_value(s)) {
        Some(TokenModel::IntConst(literal_value(s)))
    } else if is_string_const(s) {
        Some(TokenModel::StringConst(s.subrange(1, s.len() - 1)))
    } else if is_identifier(s) {
        Some(TokenModel::Identifier(s))
    } else {
        None
    }
}

fn check_string_const(s: &str) -> (r: bool)
    ensures
        r == is_string_const(s@),
{
    let n = s.unicode_len();
    if n < 2 || s.get_char(0) != '"' || s.get_char(n - 1) != '"' {
        return false;
    }
    let mut i: usize = 1;
    while i < n - 1
        invariant
            n == s@.len(),
            n >= 2,
            1 <= i <= n - 1,
            forall|j: int| 1 <= j < i ==> #[trigger] s@[j] != '"',
        decreases n - 1 - i,
    {
        if s.get_char(i) == '"' {
            return false;
        }
        i = i + 1;
    }
    true
}

fn check_identifier(s: &str) -> (r: bool)
    ensures
        r == is_identifier(s@),
{
    let n = s.unicode_len();
    if n == 0 {
        return false;
    }
    let c = s.get_char(0);
    if !(('a' <= c && c <= 'z') || ('A' <= c && c <= 'Z') || c == '_') {
        return false;
    }
    let mut i: usize = 1;
    while i < n
        invariant
            n == s@.len(),
            1 <= i <= n,
            forall|j: int| 1 <= j < i ==> is_ident_char(#[trigger] s@[j]),
        decreases n - i,
    {
        let c = s.get_char(i);
        if !(('a' <= c && c <= 'z') || ('A' <= c && c <= 'Z') || c == '_' || ('0' <= c && c <= '9')) {
            return false;
        }
        i = i + 1;
    }
    true
}

impl Token {
    /// The token that the whole of `s` spells; the text itself when it spells none.
    pub fn parse_token(s: &str) -> (r: Result<Token, String>)
        ensures
            r matches Ok(t) ==> token_of(s@) == Some(t@),
            r matches Err(e) ==> token_of(s@) is None && e@ == s@,
            r is Err <==> token_of(s@) is None,
    {
        if let Ok(keyword) = KeywordType::parse_keyword(s) {
            return Ok(Token::Keyword(keyword));
        }
        if let Ok(symbol) = Symbol::parse_symbol(s) {
            return Ok(Token::Symbol(symbol));
        }
        if let Some(v) = parse_decimal(s) {
            if -32768 <= v && v <= 32767 {
                return Ok(Token::IntConst(v as i16));
            }
        }
        if check_string_const(s) {
            let n = s.unicode_len();
            let inner = s.substring_char(1, n - 1);
            return Ok(Token::StringConst(String::from_str(inner)));
        }
        if check_identifier(s) {
            return Ok(Token::Identifier(String::from_str(s)));
        }
        Err(String::from_str(s))
    }
}

impl std::str::FromStr for Token {
    type Err = String;

    fn from_str(s: &str) -> Result<Self, Self::Err> {
        Token::parse_token(s)
    }
}

} // verus!
