//! The vocabulary of tokens that the lexer produces and the parser reads.

use vstd::prelude::*;

verus! {

/// What a token is.
#[derive(Debug, Clone, Copy, PartialEq, Eq, Structural)]
pub enum Tokens {
    /// The end of the recognizable input.
    Eof,
    /// A literal of the given kind.
    Var(Types),
    Punctuation(Punctuations),
    Keyword(Keywords),
    Operator(Operators),
}

/// The reserved words.
#[derive(Debug, Clone, Copy, PartialEq, Eq, Structural)]
pub enum Keywords {
    Begin,
    End,
    If,
    Then,
    Else,
    True,
    False,
    Display,
    Newline,
    Define,
    Read,
    ReadLine,
    While,
}

/// The kind of a value. `Keyword` marks the payload of a reserved word and
/// is never the kind of a value that a program computes.
#[derive(Debug, Clone, Copy, PartialEq, Eq, Structural)]
pub enum Types {
    Int,
    Float,
    String,
    Bool,
    Unknown,
    Keyword,
}

#[derive(Debug, Clone, Copy, PartialEq, Eq, Structural)]
pub enum Punctuations {
    LParen,
    RParen,
}

#[derive(Debug, Clone, Copy, PartialEq, Eq, Structural)]
pub enum Operators {
    Plus,
    Minus,
    Asterisk,
    Slash,
    Percent,
    Lt,
    Le,
    Gt,
    Ge,
    Eq,
    Ne,
}

/// One token: what it is, the kind of its payload and the payload itself,
/// which is the token's text as it stood in the source.
#[derive(Debug, Clone)]
pub struct LexerToken {
    pub var_type: Types,
    pub token: Tokens,
    pub value: Option<String>,
}

/// A token with its payload as a sequence of characters.
pub struct TokenModel {
    pub var_type: Types,
    pub token: Tokens,
    pub value: Option<Seq<char>>,
}

impl View for LexerToken {
    type V = TokenModel;

    open spec fn view(&self) -> TokenModel {
        TokenModel {
            var_type: self.var_type,
            token: self.token,
            value: match self.value {
                Some(text) => Some(text@),
                None => None,
            },
        }
    }
}

/// The tokens of a vector, each by its view.
pub open spec fn token_models(tokens: Seq<LexerToken>) -> Seq<TokenModel> {
    Seq::new(tokens.len(), |i: int| tokens[i]@)
}

impl TokenModel {
    /// The token that stands for the end of the input.
    pub open spec fn eof() -> TokenModel {
        TokenModel { var_type: Types::Unknown, token: Tokens::Eof, value: None }
    }
}

} // verus!
