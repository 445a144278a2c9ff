//! Tokens of the source language: keywords, delimiters, literals, and the
//! two-valued boolean domain `AtomType` that the whole pipeline computes over.

use vstd::prelude::*;

use crate::code_location::CodeLocation;

verus! {

/// A boolean constant of the source language.
#[derive(Debug, Clone, Copy, PartialEq, Eq, Hash, Structural)]
pub enum AtomType {
    True,
    False,
}

impl AtomType {
    /// Logical negation on the two-valued domain.
    pub fn not(self) -> (r: Self)
        ensures
            r == self.spec_not(),
    {
        match self {
            Self::True => Self::False,
            Self::False => Self::True,
        }
    }

    pub open spec fn spec_not(self) -> Self {
        match self {
            Self::True => Self::False,
            Self::False => Self::True,
        }
    }

    pub fn is_true(self) -> (r: bool)
        ensures
            r == (self == Self::True),
    {
        match self {
            Self::True => true,
            Self::False => false,
        }
    }

    pub fn is_false(self) -> (r: bool)
        ensures
            r == (self == Self::False),
    {
        match self {
            Self::True => false,
            Self::False => true,
        }
    }
}


/// The word-like tokens of the source language.
#[derive(Debug, Clone, Copy, PartialEq, Eq, Structural)]
pub enum Keyword {
    If,
    In,
    Let,
    For,
    Else,
    Super,
    Force,
    Import,
    Output,
    Problem,
    Solution,
    Composite,
    Collection,
    SubStructure,
}

/// The bracket shapes.
#[derive(Debug, Clone, Copy, PartialEq, Eq, Structural)]
pub enum Brace {
    Round,
    Curly,
    Square,
}

impl Brace {
    pub fn is_curly(&self) -> (r: bool)
        ensures
            r == (*self == Brace::Curly),
    {
        matches!(self, Brace::Curly)
    }

    pub fn is_round(&self) -> (r: bool)
        ensures
            r == (*self == Brace::Round),
    {
        matches!(self, Brace::Round)
    }

    pub fn is_square(&self) -> (r: bool)
        ensures
            r == (*self == Brace::Square),
    {
        matches!(self, Brace::Square)
    }
}

/// Whether a bracket opens or closes.
#[derive(Debug, Clone, Copy, PartialEq, Eq, Structural)]
pub enum BraceState {
    Open,
    Closed,
}

/// The punctuation tokens.
#[derive(Debug, Clone, Copy, PartialEq, Eq, Structural)]
pub enum Delimiter {
    Brace(Brace, BraceState),
    Colon,
    DoubleColon,
    Comma,
    Period,
    Semicolon,
    Equals,
    ThickArrowRight,
    ThinArrowRight,
}

impl Delimiter {
    pub fn is_double_colon(&self) -> (r: bool)
        ensures
            r == (*self == Delimiter::DoubleColon),
    {
        matches!(self, Delimiter::DoubleColon)
    }

    pub fn is_period(&self) -> (r: bool)
        ensures
            r == (*self == Delimiter::Period),
    {
        matches!(self, Delimiter::Period)
    }
}

/// The built-in boolean operators.
#[derive(Debug, Clone, Copy, PartialEq, Eq, Structural)]
pub enum AtomSub {
    Or,
    Not,
}

/// A boolean literal or a built-in boolean operator.
#[derive(Debug, Clone, Copy, PartialEq, Eq, Structural)]
pub enum Atom {
    Type(AtomType),
    Sub(AtomSub),
}

/// What one token is.
#[derive(Debug, Clone, PartialEq, Eq)]
pub enum TokenType {
    Keyword(Keyword),
    Delimiter(Delimiter),
    Identifier(String),
    Atom(Atom),
    Integer(usize),
    String(String),
    EOF,
}

impl TokenType {
    pub fn as_keyword(&self) -> (r: Option<&Keyword>)
        ensures
            r is Some <==> *self is Keyword,
            r is Some ==> *self == TokenType::Keyword(*r->Some_0),
    {
        match self {
            TokenType::Keyword(k) => Some(k),
            _ => None,
        }
    }

    pub fn as_delimiter(&self) -> (r: Option<&Delimiter>)
        ensures
            r is Some <==> *self is Delimiter,
            r is Some ==> *self == TokenType::Delimiter(*r->Some_0),
    {
        match self {
            TokenType::Delimiter(d) => Some(d),
            _ => None,
        }
    }

    pub fn into_identifier(self) -> (r: Result<String, TokenType>)
        ensures
            r is Ok <==> self is Identifier,
            r is Ok ==> self == TokenType::Identifier(r->Ok_0),
    {
        match self {
            TokenType::Identifier(s) => Ok(s),
            other => Err(other),
        }
    }

    pub fn into_integer(self) -> (r: Result<usize, TokenType>)
        ensures
            r is Ok <==> self is Integer,
            r is Ok ==> self == TokenType::Integer(r->Ok_0),
    {
        match self {
            TokenType::Integer(i) => Ok(i),
            other => Err(other),
        }
    }

    pub fn into_string(self) -> (r: Result<String, TokenType>)
        ensures
            r is Ok <==> self is String,
            r is Ok ==> self == TokenType::String(r->Ok_0),
    {
        match self {
            TokenType::String(s) => Ok(s),
            other => Err(other),
        }
    }

    pub fn into_atom(self) -> (r: Result<Atom, TokenType>)
        ensures
            r is Ok <==> self is Atom,
            r is Ok ==> self == TokenType::Atom(r->Ok_0),
    {
        match self {
            TokenType::Atom(a) => Ok(a),
            other => Err(other),
        }
    }
}

/// One lexed token with its source position.
#[derive(Debug, Clone, PartialEq, Eq)]
pub struct Token {
    pub code_location: CodeLocation,
    pub token_type: TokenType,
}

impl Token {
    /// The span from this token's start to the end of `end`.
    pub fn to(&self, end: &Self) -> (r: CodeLocation)
        requires
            self.code_location.section is Some <==> end.code_location.section is Some,
        ensures
            r.path@ == self.code_location.path@,
    {
        self.code_location.to(&end.code_location)
    }

    pub fn new(token_type: TokenType, code_location: CodeLocation) -> (r: Self)
        ensures
            r.token_type == token_type,
            r.code_location == code_location,
    {
        Self { token_type, code_location }
    }

    /// The end-of-file sentinel for the given file.
    pub fn eof(path: &str) -> (r: Self)
        ensures
            r.token_type == TokenType::EOF,
            r.code_location.section is None,
    {
        Self { token_type: TokenType::EOF, code_location: CodeLocation::new(path.to_owned()) }
    }

    pub fn code_location(&self) -> (r: &CodeLocation)
        ensures
            *r == self.code_location,
    {
        &self.code_location
    }

    pub fn token_type(&self) -> (r: &TokenType)
        ensures
            *r == self.token_type,
    {
        &self.token_type
    }

    pub fn into_token_type(self) -> (r: TokenType)
        ensures
            r == self.token_type,
    {
        self.token_type
    }
}

} // verus!
