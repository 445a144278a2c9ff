//! Groups the flat token stream into a tree of brace-delimited blocks, the
//! shape the recursive-descent parser works on.

use vstd::prelude::*;

use crate::code_location::{CodeLocation, LocationValue};
use crate::compilation::Compilation;
use crate::token::{Atom, AtomSub, AtomType, Brace, BraceState, Delimiter, Keyword, Token, TokenType};
use crate::type_stream::TypeStream;

verus! {

/// A token, or a whole brace-delimited block of nested token blocks.
#[derive(Debug)]
pub enum TokenBlock {
    Token(Token),
    Block(Block),
}

/// One brace-delimited block.
#[derive(Debug)]
pub struct Block {
    pub span: CodeLocation,
    pub brace_type: Brace,
    pub open_token: Token,
    pub body: Vec<TokenBlock>,
    pub close_token: Option<Token>,
}

/// A borrowed summary of what a token block is.
pub enum TokenBlockType<'a> {
    Token(&'a TokenType),
    Block(&'a Brace),
}

impl TokenBlock {
    /// The source position of this token or block.
    pub fn code_location(&self) -> (r: &CodeLocation) {
        match self {
            TokenBlock::Block(b) => &b.span,
            TokenBlock::Token(t) => t.code_location(),
        }
    }

    /// A borrowed summary: the token's type, or the block's brace shape.
    pub fn token_type(&self) -> (r: TokenBlockType<'_>) {
        match self {
            TokenBlock::Token(t) => TokenBlockType::Token(t.token_type()),
            TokenBlock::Block(b) => TokenBlockType::Block(&b.brace_type),
        }
    }

    /// The token inside, or the location of the block this turned out to be.
    pub fn into_token_or_none(self) -> (r: (CodeLocation, Option<Token>)) {
        match self {
            TokenBlock::Token(t) => (t.code_location.clone(), Some(t)),
            TokenBlock::Block(b) => (b.span, None),
        }
    }

    /// Borrowing variant of `into_token_or_none`.
    pub fn as_token_or_none(&self) -> (r: (CodeLocation, Option<&Token>)) {
        match self {
            TokenBlock::Token(t) => (t.code_location.clone(), Some(t)),
            TokenBlock::Block(b) => (b.span.clone(), None),
        }
    }

    /// The block inside, or the location of the token this turned out to be.
    pub fn into_block_or_none(self) -> (r: (CodeLocation, Option<Block>)) {
        match self {
            TokenBlock::Token(t) => (t.code_location.clone(), None),
            TokenBlock::Block(b) => (b.span.clone(), Some(b)),
        }
    }

    /// Borrowing variant of `into_block_or_none`.
    pub fn as_block_or_none(&self) -> (r: (CodeLocation, Option<&Block>)) {
        match self {
            TokenBlock::Token(t) => (t.code_location.clone(), None),
            TokenBlock::Block(b) => (b.span.clone(), Some(b)),
        }
    }

    /// The block inside, required to use the given brace shape; anything
    /// else is recorded as an error.
    pub fn into_block_type_or_error(self, compilation: &mut Compilation, block_type: Brace) -> (r:
        Option<Block>)
        ensures
            final(compilation).diags().len() >= old(compilation).diags().len(),
    {
        let (location, block) = self.into_block_or_none();
        if let Some(b) = block {
            if b.brace_type == block_type {
                return Some(b);
            }
            compilation.add_error("Expected a block of the required brace shape.", Some(b.span));
            return None;
        }
        compilation.add_error("Expected a block of the required brace shape.", Some(location));
        None
    }

    /// The identifier inside, or a recorded error.
    pub fn into_identifier_or_error(self, compilation: &mut Compilation) -> (r: Option<
        LocationValue<String>,
    >)
        ensures
            final(compilation).diags().len() >= old(compilation).diags().len(),
    {
        let (location, token) = self.into_token_or_none();
        if let Some(token) = token {
            if let Ok(identifier) = token.into_token_type().into_identifier() {
                return Some(LocationValue::new(Some(location), identifier));
            }
        }
        compilation.add_error("Expected identifier.", Some(location));
        None
    }

    /// The integer literal inside, or a recorded error.
    pub fn into_integer_or_error(self, compilation: &mut Compilation) -> (r: Option<
        LocationValue<usize>,
    >)
        ensures
            final(compilation).diags().len() >= old(compilation).diags().len(),
    {
        let (location, token) = self.into_token_or_none();
        if let Some(token) = token {
            if let Ok(value) = token.into_token_type().into_integer() {
                return Some(LocationValue::new(Some(location), value));
            }
        }
        compilation.add_error("Expected integer.", Some(location));
        None
    }

    /// The string literal inside, or a recorded error.
    pub fn into_string_or_error(self, compilation: &mut Compilation) -> (r: Option<
        LocationValue<String>,
    >)
        ensures
            final(compilation).diags().len() >= old(compilation).diags().len(),
    {
        let (location, token) = self.into_token_or_none();
        if let Some(token) = token {
            if let Ok(string) = token.into_token_type().into_string() {
                return Some(LocationValue::new(Some(location), string));
            }
        }
        compilation.add_error("Expected string.", Some(location));
        None
    }

    /// The boolean literal inside, or a recorded error.
    pub fn into_atom_type_or_error(self, compilation: &mut Compilation) -> (r: Option<
        LocationValue<AtomType>,
    >)
        ensures
            final(compilation).diags().len() >= old(compilation).diags().len(),
    {
        let (location, token) = self.into_token_or_none();
        if let Some(token) = token {
            if let Ok(Atom::Type(atom_type)) = token.into_token_type().into_atom() {
                return Some(LocationValue::new(Some(location), atom_type));
            }
        }
        compilation.add_error("Expected a boolean literal.", Some(location));
        None
    }

    /// The boolean operator inside, or a recorded error.
    pub fn into_atom_sub_or_error(self, compilation: &mut Compilation) -> (r: Option<
        LocationValue<AtomSub>,
    >)
        ensures
            final(compilation).diags().len() >= old(compilation).diags().len(),
    {
        let (location, token) = self.into_token_or_none();
        if let Some(token) = token {
            if let Ok(Atom::Sub(atom_sub)) = token.into_token_type().into_atom() {
                return Some(LocationValue::new(Some(location), atom_sub));
            }
        }
        compilation.add_error("Expected a boolean operator.", Some(location));
        None
    }

    /// Requires this to be exactly the given keyword; anything else is a
    /// recorded error.
    pub fn assert_is_keyword_or_error(&self, compilation: &mut Compilation, expected_keyword: Keyword) -> (r: Option<CodeLocation>)
        ensures
            final(compilation).diags().len() >= old(compilation).diags().len(),
    {
        let (location, token) = self.as_token_or_none();
        if let Some(token) = token {
            if let Some(found_keyword) = token.token_type().as_keyword() {
                if *found_keyword == expected_keyword {
                    return Some(location);
                }
            }
        }
        compilation.add_error("Expected a keyword.", Some(location));
        None
    }

    /// Requires this to be exactly the given delimiter; anything else is a
    /// recorded error.
    pub fn assert_is_delimiter_or_error(&self, compilation: &mut Compilation, expected_delimiter: Delimiter) -> (r: Option<CodeLocation>)
        ensures
            final(compilation).diags().len() >= old(compilation).diags().len(),
    {
        let (location, token) = self.as_token_or_none();
        if let Some(token) = token {
            if let Some(found_delim) = token.token_type().as_delimiter() {
                if *found_delim == expected_delimiter {
                    return Some(location);
                }
            }
        }
        compilation.add_error("Expected a delimiter.", Some(location));
        None
    }
}

impl<'a> TokenBlockType<'a> {
    pub fn as_delimiter(&self) -> (r: Option<&Delimiter>) {
        match self {
            TokenBlockType::Token(t) => t.as_delimiter(),
            TokenBlockType::Block(_b) => None,
        }
    }

    pub fn as_block(&self) -> (r: Option<&Brace>) {
        match self {
            TokenBlockType::Token(_t) => None,
            TokenBlockType::Block(b) => Some(b),
        }
    }

    pub fn is_double_colon(&self) -> (r: bool) {
        match self.as_delimiter() {
            Some(d) => d.is_double_colon(),
            None => false,
        }
    }

    pub fn is_period(&self) -> (r: bool) {
        match self.as_delimiter() {
            Some(d) => d.is_period(),
            None => false,
        }
    }

    pub fn is_curly_block(&self) -> (r: bool) {
        match self.as_block() {
            Some(b) => b.is_curly(),
            None => false,
        }
    }
}

impl TokenBlock {
    /// Groups a token stream into a stream of token blocks; an unmatched
    /// closing brace or a missing one is a recorded error.
    pub fn from_token_stream(token_stream: TypeStream<Token>, compilation: &mut Compilation) -> (r:
        Result<TypeStream<TokenBlock>, ()>)
        ensures
            final(compilation).diags().len() >= old(compilation).diags().len(),
    {
        let mut token_stream = token_stream;
        let fuel = token_stream.items.len();
        let mut res: Vec<TokenBlock> = Vec::new();
        loop
            invariant
                compilation.diags().len() >= old(compilation).diags().len(),
            decreases token_stream.items@.len(),
        {
            let ghost size0 = token_stream.items@.len();
            let token = match token_stream.next() {
                Some(t) => t,
                None => {
                    return Err(());
                },
            };
            match &token.token_type {
                TokenType::Delimiter(Delimiter::Brace(open_brace_type, BraceState::Open)) => {
                    let open_brace_type = *open_brace_type;
                    match Self::parse_block(
                        &mut token_stream,
                        compilation,
                        open_brace_type,
                        token,
                        fuel,
                    ) {
                        Some(b) => {
                            res.push(b);
                        },
                        None => {
                            return Err(());
                        },
                    }
                },
                TokenType::Delimiter(Delimiter::Brace(brace_type, BraceState::Closed)) => {
                    compilation.add_error(
                        "Unexpected closing brace.",
                        Some(token.code_location.clone()),
                    );
                    return Err(());
                },
                TokenType::EOF => {
                    return Ok(
                        TypeStream::from_iter(res, Some(token.code_location.clone())),
                    );
                },
                _ => {
                    res.push(TokenBlock::Token(token));
                },
            }
        }
    }

    /// Collects the body of one block up to its matching closing brace,
    /// recursing into nested blocks. `fuel` bounds the nesting depth; no
    /// token stream can exhaust it, since every level consumes a token.
    fn parse_block(
        token_stream: &mut TypeStream<Token>,
        compilation: &mut Compilation,
        exit_brace_type: Brace,
        open_token: Token,
        fuel: usize,
    ) -> (r: Option<TokenBlock>)
        ensures
            final(compilation).diags().len() >= old(compilation).diags().len(),
            final(token_stream).items@.len() <= old(token_stream).items@.len(),
        decreases fuel, old(token_stream).items@.len(),
    {
        let mut body: Vec<TokenBlock> = Vec::new();
        loop
            invariant
                compilation.diags().len() >= old(compilation).diags().len(),
                token_stream.items@.len() <= old(token_stream).items@.len(),
            decreases token_stream.items@.len(),
        {
            let is_empty = token_stream.is_empty();
            if is_empty {
                compilation.add_error("Expected a closing brace.", None);
                return None;
            }
            let closed_shape: Option<Brace> = match token_stream.peek() {
                Some(t) => match &t.token_type {
                    TokenType::Delimiter(Delimiter::Brace(b, BraceState::Closed)) => Some(*b),
                    _ => None,
                },
                None => None,
            };
            if let Some(closed_brace_type) = closed_shape {
                let close_token = match token_stream.next() {
                    Some(t) => t,
                    None => {
                        return None;
                    },
                };
                if closed_brace_type == exit_brace_type {
                    let span = if (open_token.code_location.section.is_some())
                        == (close_token.code_location.section.is_some()) {
                        open_token.to(&close_token)
                    } else {
                        open_token.code_location.clone()
                    };
                    return Some(
                        TokenBlock::Block(
                            Block {
                                brace_type: exit_brace_type,
                                span,
                                open_token,
                                body,
                                close_token: Some(close_token),
                            },
                        ),
                    );
                } else {
                    compilation.add_error(
                        "Expected the matching closing brace.",
                        Some(close_token.code_location.clone()),
                    );
                    return None;
                }
            }
            let is_eof = match token_stream.peek() {
                Some(t) => matches!(&t.token_type, TokenType::EOF),
                None => false,
            };
            if is_eof {
                let loc = match token_stream.peek() {
                    Some(t) => Some(t.code_location.clone()),
                    None => None,
                };
                compilation.add_error("Expected the matching closing brace.", loc);
                return None;
            }
            let open_shape: Option<Brace> = match token_stream.peek() {
                Some(t) => match &t.token_type {
                    TokenType::Delimiter(Delimiter::Brace(b, BraceState::Open)) => Some(*b),
                    _ => None,
                },
                None => None,
            };
            if let Some(open_brace_type) = open_shape {
                let inner_open = match token_stream.next() {
                    Some(t) => t,
                    None => {
                        return None;
                    },
                };
                if fuel == 0 {
                    compilation.add_error("Block nesting is too deep.", None);
                    return None;
                }
                match Self::parse_block(
                    token_stream,
                    compilation,
                    open_brace_type,
                    inner_open,
                    fuel - 1,
                ) {
                    Some(b) => {
                        body.push(b);
                    },
                    None => {
                        return None;
                    },
                }
            } else {
                match token_stream.next() {
                    Some(t) => {
                        body.push(TokenBlock::Token(t));
                    },
                    None => {
                        return None;
                    },
                }
            }
        }
    }
}

} // verus!
