//! The recursive-descent parser: turns the token-block stream of each file
//! into the project's abstract syntax. Parse errors are recorded and the
//! surrounding construct is skipped.

use vstd::prelude::*;

use crate::block_parser::{Block, TokenBlock};
use crate::code_location::LocationValue;
use crate::compilation::Compilation;
use crate::syntax::{
    CodeSyntax, CollectionSyntax, CompositeTypeSyntax, ExpressionSyntax, FieldAssignSyntax,
    ImportSyntax, Project, SubCallSyntax, SubLocation, SubstructureSyntax, TypeSyntax,
    TypedIdentifierSyntax,
};
use crate::token::{Atom, Brace, BraceState, Delimiter, Keyword, TokenType};
use crate::type_stream::TypeStream;

verus! {

/// The parser state: the imports seen so far and everything parsed.
pub struct Parser {
    pub imports: Vec<(ImportSyntax, bool)>,
    pub project: Project,
}

/// Whether the next item is the given delimiter.
fn peek_is_delim(ts: &TypeStream<TokenBlock>, d: Delimiter) -> (r: bool) {
    match ts.peek() {
        Some(TokenBlock::Token(t)) => match &t.token_type {
            TokenType::Delimiter(found) => *found == d,
            _ => false,
        },
        _ => false,
    }
}

/// Whether the next item is the given keyword.
fn peek_is_keyword(ts: &TypeStream<TokenBlock>, k: Keyword) -> (r: bool) {
    match ts.peek() {
        Some(TokenBlock::Token(t)) => match &t.token_type {
            TokenType::Keyword(found) => *found == k,
            _ => false,
        },
        _ => false,
    }
}

/// Whether the next item is a block with the given brace shape.
fn peek_is_block(ts: &TypeStream<TokenBlock>, b: Brace) -> (r: bool) {
    match ts.peek() {
        Some(TokenBlock::Block(block)) => block.brace_type == b,
        _ => false,
    }
}

/// How many semicolon tokens stand directly in the body.
fn count_semicolons(body: &Vec<TokenBlock>) -> (r: usize) {
    let mut n: usize = 0;
    let mut i: usize = 0;
    while i < body.len()
        invariant
            0 <= i <= body@.len(),
            n <= i,
        decreases body@.len() - i,
    {
        if let TokenBlock::Token(t) = &body[i] {
            if matches!(&t.token_type, TokenType::Delimiter(Delimiter::Semicolon)) {
                n = n + 1;
            }
        }
        i = i + 1;
    }
    n
}

impl Parser {
    pub fn new() -> (r: Self)
        ensures
            r.imports@.len() == 0,
    {
        Self { imports: Vec::new(), project: Project::new() }
    }

    /// Parses one `::`-separated import path.
    #[verifier::loop_isolation(false)]
    pub fn parse_import(
        &mut self,
        token_stream: &mut TypeStream<TokenBlock>,
        compilation: &mut Compilation,
    ) -> (r: Option<ImportSyntax>)
        ensures
            final(token_stream).items@.len() <= old(token_stream).items@.len(),
    {
        token_stream.error_if_empty(compilation, "Expected identifier.")?;
        let identifier = token_stream.next()?.into_identifier_or_error(compilation)?;
        let mut path = Vec::new();
        path.push(identifier);
        while peek_is_delim(token_stream, Delimiter::DoubleColon)
            invariant
                token_stream.items@.len() <= old(token_stream).items@.len(),
            decreases token_stream.items@.len(),
        {
            let ghost s0 = token_stream.items@.len();
            token_stream.skip();
            token_stream.error_if_empty(compilation, "Expected identifier.")?;
            let identifier = token_stream.next()?.into_identifier_or_error(compilation)?;
            path.push(identifier);
            proof {
                assert(token_stream.items@.len() < s0);
            }
        }
        Some(ImportSyntax { path })
    }

    /// Parses one whole file at the top level: imports, supers, problem and
    /// solution blocks, collections, and composite types.
    #[verifier::loop_isolation(false)]
    pub fn parse_file(
        &mut self,
        token_stream: &mut TypeStream<TokenBlock>,
        compilation: &mut Compilation,
        fuel: usize,
    )
        decreases fuel, token_stream.items@.len(), 20int,
    {
        loop
            invariant
                true,
            decreases token_stream.items@.len(),
        {
            if token_stream.is_empty() {
                return ;
            }
            let ghost s0 = token_stream.items@.len();
            let current_token = match token_stream.next() {
                Some(t) => t,
                None => {
                    return ;
                },
            };
            match &current_token {
                TokenBlock::Token(tok) => match &tok.token_type {
                    TokenType::Keyword(Keyword::Import) => {
                        if let Some(i) = self.parse_import(token_stream, compilation) {
                            let mut seen = false;
                            let mut k: usize = 0;
                            while k < self.imports.len()
                                invariant
                                    0 <= k <= self.imports@.len(),
                                decreases self.imports@.len() - k,
                            {
                                if self.imports[k].0.path.len() == i.path.len() {
                                    let mut same = true;
                                    let mut j: usize = 0;
                                    while j < i.path.len()
                                        invariant
                                            0 <= j <= i.path@.len(),
                                            k < self.imports@.len(),
                                            self.imports@[k as int].0.path@.len() == i.path@.len(),
                                        decreases i.path@.len() - j,
                                    {
                                        if self.imports[k].0.path[j].value != i.path[j].value {
                                            same = false;
                                        }
                                        j = j + 1;
                                    }
                                    if same {
                                        seen = true;
                                    }
                                }
                                k = k + 1;
                            }
                            if !seen {
                                self.imports.push((i, false));
                            }
                        }
                    },
                    TokenType::Keyword(Keyword::Super) => {
                        let _ = self.parse_super(token_stream, compilation);
                    },
                    TokenType::Keyword(Keyword::Solution) => {
                        if token_stream.error_if_empty(compilation, "Expected code block.").is_none() {
                            continue ;
                        }
                        let nb = match token_stream.next() {
                            Some(t) => t,
                            None => {
                                continue ;
                            },
                        };
                        let solution_block = match nb.into_block_type_or_error(
                            compilation,
                            Brace::Curly,
                        ) {
                            Some(s) => s,
                            None => {
                                continue ;
                            },
                        };
                        if fuel > 0 {
                            let _ = self.parse_solution(solution_block, compilation, fuel - 1);
                        }
                    },
                    TokenType::Keyword(Keyword::Collection) => {
                        if fuel > 0 {
                            if let Some(c) = self.parse_collection(
                                token_stream,
                                compilation,
                                fuel - 1,
                            ) {
                                self.project.collections.push(c);
                            }
                        }
                    },
                    TokenType::Keyword(Keyword::Problem) => {
                        if token_stream.error_if_empty(compilation, "Expected code block.").is_none() {
                            continue ;
                        }
                        let nb = match token_stream.next() {
                            Some(t) => t,
                            None => {
                                continue ;
                            },
                        };
                        let problem_block = match nb.into_block_type_or_error(
                            compilation,
                            Brace::Curly,
                        ) {
                            Some(s) => s,
                            None => {
                                continue ;
                            },
                        };
                        if fuel > 0 {
                            self.parse_problem(problem_block, compilation, fuel - 1);
                        }
                    },
                    TokenType::Keyword(Keyword::Composite) => {
                        if fuel > 0 {
                            let _ = self.parse_composite(token_stream, compilation, fuel - 1);
                        }
                    },
                    TokenType::EOF => {
                        return ;
                    },
                    _ => {
                        compilation.add_error(
                            "Unexpected token at file level.",
                            Some(tok.code_location.clone()),
                        );
                    },
                },
                TokenBlock::Block(b) => {
                    compilation.add_error(
                        "Unexpected block at file level.",
                        Some(b.span.clone()),
                    );
                },
            }
        }
    }

    /// Parses `composite Name { fields }`.
    #[verifier::loop_isolation(false)]
    fn parse_composite(
        &mut self,
        token_stream: &mut TypeStream<TokenBlock>,
        compilation: &mut Compilation,
        fuel: usize,
    ) -> (r: Option<()>)
        ensures
            final(token_stream).items@.len() <= old(token_stream).items@.len(),
        decreases fuel, token_stream.items@.len(), 19int,
    {
        token_stream.error_if_empty(compilation, "Expected identifier.")?;
        let identifier = token_stream.next()?.into_identifier_or_error(compilation)?;
        token_stream.error_if_empty(compilation, "Expected code block.")?;
        let composite_body = token_stream.next()?.into_block_type_or_error(
            compilation,
            Brace::Curly,
        )?;
        if fuel == 0 {
            return None;
        }
        let fields = self.parse_typed_identifiers(composite_body, compilation, fuel - 1)?;
        self.project.composite_types.push(CompositeTypeSyntax { name: identifier, fields });
        Some(())
    }

    /// Parses `super name = value`.
    #[verifier::loop_isolation(false)]
    fn parse_super(
        &mut self,
        token_stream: &mut TypeStream<TokenBlock>,
        compilation: &mut Compilation,
    ) -> (r: Option<()>)
        ensures
            final(token_stream).items@.len() <= old(token_stream).items@.len(),
    {
        let nb = token_stream.next()?;
        let identifier = nb.into_identifier_or_error(compilation)?;
        let _ = token_stream.next()?.assert_is_delimiter_or_error(compilation, Delimiter::Equals);
        let value = token_stream.next()?.into_integer_or_error(compilation)?;
        let mut k: usize = 0;
        while k < self.project.supers.len()
            invariant
                0 <= k <= self.project.supers@.len(),
            decreases self.project.supers@.len() - k,
        {
            if self.project.supers[k].0 == identifier.value {
                compilation.add_error(
                    "The name of this super is already in use.",
                    identifier.location,
                );
                return None;
            }
            k = k + 1;
        }
        self.project.supers.push((identifier.value, value.value));
        Some(())
    }

    /// Parses the substructures of a problem block.
    #[verifier::loop_isolation(false)]
    fn parse_problem(&mut self, block: Block, compilation: &mut Compilation, fuel: usize)
        decreases fuel, 19int,
    {
        let mut problems: Vec<SubstructureSyntax> = Vec::new();
        self.parse_sub_collection(block, &mut problems, compilation, fuel);
        let mut rem = problems;
        while rem.len() > 0
            decreases rem@.len(),
        {
            let p = rem.remove(0);
            self.project.problems.push(p);
        }
    }

    /// Parses `collection Name { subs }`.
    #[verifier::loop_isolation(false)]
    fn parse_collection(
        &mut self,
        token_stream: &mut TypeStream<TokenBlock>,
        compilation: &mut Compilation,
        fuel: usize,
    ) -> (r: Option<CollectionSyntax>)
        ensures
            final(token_stream).items@.len() <= old(token_stream).items@.len(),
        decreases fuel, token_stream.items@.len(), 19int,
    {
        token_stream.error_if_empty(compilation, "Expected identifier.")?;
        let name = token_stream.next()?.into_identifier_or_error(compilation)?;
        token_stream.error_if_empty(compilation, "Expected code block.")?;
        let collection_block = token_stream.next()?.into_block_type_or_error(
            compilation,
            Brace::Curly,
        )?;
        let mut subs: Vec<SubstructureSyntax> = Vec::new();
        self.parse_sub_collection(collection_block, &mut subs, compilation, fuel);
        Some(CollectionSyntax { subs, name })
    }

    /// Parses the name/application pairs of a solution block.
    #[verifier::loop_isolation(false)]
    fn parse_solution(&mut self, block: Block, compilation: &mut Compilation, fuel: usize) -> (r:
        Option<()>)
        decreases fuel, 19int,
    {
        let end = match block.close_token {
            Some(t) => Some(t.code_location.clone()),
            None => None,
        };
        let mut token_stream = TypeStream::from_iter(block.body, end);
        while !token_stream.is_empty()
            decreases token_stream.items@.len(),
        {
            let ghost s0 = token_stream.items@.len();
            let function_name = match token_stream.next()?.into_identifier_or_error(compilation) {
                Some(s) => s,
                None => {
                    continue ;
                },
            };
            token_stream.error_if_empty(compilation, "Expected application.")?;
            if fuel == 0 {
                return None;
            }
            let application = match self.parse_expression(
                &mut token_stream,
                compilation,
                fuel - 1,
            ) {
                Some(n) => n,
                None => {
                    continue ;
                },
            };
            self.project.solutions.push(
                (
                    function_name.value.clone(),
                    SubCallSyntax {
                        location: SubLocation::Structure {
                            collection: LocationValue::new(None, String::new()),
                            sub: function_name,
                        },
                        application: Some(application),
                    },
                ),
            );
            if token_stream.is_empty() {
                break ;
            }
            let _ = token_stream.next()?.assert_is_delimiter_or_error(
                compilation,
                Delimiter::Comma,
            );
        }
        Some(())
    }

    /// Parses the `sub` items inside a collection or problem block.
    #[verifier::loop_isolation(false)]
    fn parse_sub_collection(
        &mut self,
        block: Block,
        subs: &mut Vec<SubstructureSyntax>,
        compilation: &mut Compilation,
        fuel: usize,
    )
        decreases fuel, 18int,
    {
        let end = match block.close_token {
            Some(t) => Some(t.code_location.clone()),
            None => None,
        };
        let mut block_tokens = TypeStream::from_iter(block.body, end);
        while !block_tokens.is_empty()
            decreases block_tokens.items@.len(),
        {
            let ghost s0 = block_tokens.items@.len();
            let cur_token = match block_tokens.next() {
                Some(t) => t,
                None => {
                    return ;
                },
            };
            let is_sub = match &cur_token {
                TokenBlock::Token(t) => matches!(
                    &t.token_type,
                    TokenType::Keyword(Keyword::SubStructure)
                ),
                _ => false,
            };
            if is_sub {
                if fuel > 0 {
                    if let Some(s) = self.parse_sub(&mut block_tokens, compilation, fuel - 1) {
                        subs.push(s);
                    }
                }
            } else {
                compilation.add_error(
                    "Unexpected token within collection.",
                    Some(cur_token.code_location().clone()),
                );
            }
        }
    }

    /// Parses `sub name(args) { code } = result`.
    #[verifier::loop_isolation(false)]
    pub fn parse_sub(
        &mut self,
        token_stream: &mut TypeStream<TokenBlock>,
        compilation: &mut Compilation,
        fuel: usize,
    ) -> (r: Option<SubstructureSyntax>)
        ensures
            final(token_stream).items@.len() <= old(token_stream).items@.len(),
        decreases fuel, token_stream.items@.len(), 17int,
    {
        token_stream.error_if_empty(compilation, "Expected identifier.")?;
        let name = token_stream.next()?.into_identifier_or_error(compilation)?;
        token_stream.error_if_empty(compilation, "Expected arguments.")?;
        let args_block = token_stream.next()?.into_block_type_or_error(compilation, Brace::Round)?;
        if fuel == 0 {
            return None;
        }
        let args = self.parse_typed_identifiers(args_block, compilation, fuel - 1)?;
        token_stream.error_if_empty(compilation, "Expected code block.")?;
        let code_block = token_stream.next()?.into_block_type_or_error(compilation, Brace::Curly)?;
        let code = self.parse_code_block(code_block, compilation, fuel - 1)?;
        let mut result = None;
        if peek_is_delim(token_stream, Delimiter::Equals) {
            token_stream.skip();
            result = self.parse_expression(token_stream, compilation, fuel - 1);
        }
        Some(SubstructureSyntax { name, args, code, result })
    }

    /// Parses a comma-separated list of `type : name` pairs.
    #[verifier::loop_isolation(false)]
    pub fn parse_typed_identifiers(
        &mut self,
        block: Block,
        compilation: &mut Compilation,
        fuel: usize,
    ) -> (r: Option<Vec<TypedIdentifierSyntax>>)
        decreases fuel, 16int,
    {
        let mut enumeration: Vec<TypedIdentifierSyntax> = Vec::new();
        let end = match block.close_token {
            Some(t) => Some(t.code_location.clone()),
            None => None,
        };
        let mut token_stream = TypeStream::from_iter(block.body, end);
        while !token_stream.is_empty()
            decreases token_stream.items@.len(),
        {
            let ghost s0 = token_stream.items@.len();
            if fuel == 0 {
                return None;
            }
            let type_syntax = self.parse_type(&mut token_stream, compilation, fuel - 1)?;
            token_stream.error_if_empty(compilation, "Expected colon.")?;
            let _ = token_stream.next()?.assert_is_delimiter_or_error(
                compilation,
                Delimiter::Colon,
            )?;
            token_stream.error_if_empty(compilation, "Expected identifier.")?;
            let name = token_stream.next()?.into_identifier_or_error(compilation)?;
            enumeration.push(TypedIdentifierSyntax { type_syntax, name });
            if token_stream.is_empty() {
                break ;
            }
            let _ = token_stream.next()?.assert_is_delimiter_or_error(
                compilation,
                Delimiter::Comma,
            );
        }
        Some(enumeration)
    }

    /// Parses one type annotation: a boolean atom or a composite name.
    #[verifier::loop_isolation(false)]
    pub fn parse_type(
        &mut self,
        token_stream: &mut TypeStream<TokenBlock>,
        compilation: &mut Compilation,
        fuel: usize,
    ) -> (r: Option<TypeSyntax>)
        ensures
            final(token_stream).items@.len() <= old(token_stream).items@.len(),
            r is Some ==> final(token_stream).items@.len() < old(token_stream).items@.len(),
        decreases fuel, token_stream.items@.len(), 15int,
    {
        token_stream.error_if_empty(compilation, "Expected type.")?;
        let token = token_stream.next()?;
        match &token {
            TokenBlock::Token(t) => match &t.token_type {
                TokenType::Atom(Atom::Type(at)) => Some(TypeSyntax::Atom(*at)),
                TokenType::Identifier(_) => Some(
                    TypeSyntax::Composite { name: token.into_identifier_or_error(compilation)? },
                ),
                _ => {
                    compilation.add_error("Expected type.", Some(t.code_location.clone()));
                    None
                },
            },
            TokenBlock::Block(b) => {
                compilation.add_error("Expected type.", Some(b.span.clone()));
                None
            },
        }
    }

    /// Parses the statements of one curly block.
    #[verifier::loop_isolation(false)]
    pub fn parse_code_block(&mut self, block: Block, compilation: &mut Compilation, fuel: usize) -> (r:
        Option<Vec<CodeSyntax>>)
        decreases fuel, 14int,
    {
        let mut code_syntax: Vec<CodeSyntax> = Vec::new();
        let end = match block.close_token {
            Some(t) => Some(t.code_location.clone()),
            None => None,
        };
        let mut token_stream = TypeStream::from_iter(block.body, end);
        loop
            decreases token_stream.items@.len(),
        {
            if token_stream.is_empty() {
                return Some(code_syntax);
            }
            let ghost s0 = token_stream.items@.len();
            if peek_is_delim(&token_stream, Delimiter::Semicolon) {
                token_stream.skip();
                compilation.add_warning("Unneeded semicolon.", None);
            } else {
                if fuel == 0 {
                    return None;
                }
                if let Some(s) = self.parse_statement(&mut token_stream, compilation, fuel - 1) {
                    code_syntax.push(s);
                }
                proof {
                    assert(token_stream.items@.len() < s0);
                }
            }
        }
    }

    /// Parses one statement, chosen by its first token.
    #[verifier::loop_isolation(false)]
    pub fn parse_statement(
        &mut self,
        token_stream: &mut TypeStream<TokenBlock>,
        compilation: &mut Compilation,
        fuel: usize,
    ) -> (r: Option<CodeSyntax>)
        ensures
            final(token_stream).items@.len() <= old(token_stream).items@.len(),
            old(token_stream).items@.len() > 0 ==> final(token_stream).items@.len() < old(
                token_stream,
            ).items@.len(),
        decreases fuel, token_stream.items@.len(), 13int,
    {
        token_stream.error_if_empty(compilation, "Expected statement.")?;
        let statement = token_stream.next()?;
        if fuel == 0 {
            return None;
        }
        match &statement {
            TokenBlock::Token(tok) => match &tok.token_type {
                TokenType::Keyword(Keyword::For) => {
                    token_stream.error_if_empty(compilation, "Expected open parenthesis.")?;
                    let iterator_block = token_stream.next()?.into_block_type_or_error(
                        compilation,
                        Brace::Round,
                    )?;
                    let loop_code_block = token_stream.next()?.into_block_type_or_error(
                        compilation,
                        Brace::Curly,
                    )?;
                    let iend = match iterator_block.close_token {
                        Some(t) => Some(t.code_location.clone()),
                        None => None,
                    };
                    let mut iterator_stream = TypeStream::from_iter(iterator_block.body, iend);
                    let iterator_variable = iterator_stream.next()?.into_identifier_or_error(
                        compilation,
                    )?;
                    let _ = iterator_stream.next()?.assert_is_keyword_or_error(
                        compilation,
                        Keyword::In,
                    )?;
                    let iterator_amount = self.parse_expression(
                        &mut iterator_stream,
                        compilation,
                        fuel - 1,
                    )?;
                    let iterator_body = self.parse_code_block(
                        loop_code_block,
                        compilation,
                        fuel - 1,
                    )?;
                    Some(CodeSyntax::For { iterator_variable, iterator_amount, iterator_body })
                },
                TokenType::Keyword(Keyword::If) => {
                    token_stream.error_if_empty(compilation, "Expected code block.")?;
                    let condition_block = token_stream.next()?.into_block_type_or_error(
                        compilation,
                        Brace::Round,
                    )?;
                    let cend = match condition_block.close_token {
                        Some(t) => Some(t.code_location.clone()),
                        None => None,
                    };
                    let mut condition_stream = TypeStream::from_iter(condition_block.body, cend);
                    let condition = self.parse_expression(
                        &mut condition_stream,
                        compilation,
                        fuel - 1,
                    )?;
                    if !condition_stream.is_empty() {
                        let loc = match condition_stream.next() {
                            Some(t) => Some(t.code_location().clone()),
                            None => None,
                        };
                        compilation.add_error("Unexpected token.", loc);
                    }
                    token_stream.error_if_empty(compilation, "Expected code block.")?;
                    let condition_true_block = token_stream.next()?.into_block_type_or_error(
                        compilation,
                        Brace::Curly,
                    )?;
                    let condition_true = match self.parse_code_block(
                        condition_true_block,
                        compilation,
                        fuel - 1,
                    ) {
                        Some(c) => c,
                        None => Vec::new(),
                    };
                    if peek_is_keyword(token_stream, Keyword::Else) {
                        token_stream.skip();
                        token_stream.error_if_empty(compilation, "Expected code block.")?;
                        let condition_false_block = token_stream.next()?.into_block_type_or_error(
                            compilation,
                            Brace::Curly,
                        )?;
                        let condition_false = match self.parse_code_block(
                            condition_false_block,
                            compilation,
                            fuel - 1,
                        ) {
                            Some(c) => c,
                            None => Vec::new(),
                        };
                        Some(CodeSyntax::IfElse { condition, condition_true, condition_false })
                    } else {
                        Some(CodeSyntax::If { condition, condition_true })
                    }
                },
                TokenType::Keyword(Keyword::Let) => {
                    token_stream.error_if_empty(compilation, "Expected identifier.")?;
                    let variable = token_stream.next()?.into_identifier_or_error(compilation)?;
                    token_stream.error_if_empty(compilation, "Expected assignment.")?;
                    let _ = token_stream.next()?.assert_is_delimiter_or_error(
                        compilation,
                        Delimiter::Equals,
                    );
                    let value = self.parse_expression(token_stream, compilation, fuel - 1)?;
                    Some(CodeSyntax::Let { variable, value })
                },
                TokenType::Keyword(Keyword::Force) => {
                    let value = self.parse_expression(token_stream, compilation, fuel - 1)?;
                    token_stream.error_if_empty(compilation, "Expected a force arrow.")?;
                    let _ = token_stream.next()?.assert_is_delimiter_or_error(
                        compilation,
                        Delimiter::ThickArrowRight,
                    );
                    let type_syntax = self.parse_type(token_stream, compilation, fuel - 1)?;
                    Some(CodeSyntax::Force { value, type_syntax })
                },
                TokenType::Keyword(Keyword::Output) => {
                    let expression = self.parse_expression(token_stream, compilation, fuel - 1)?;
                    Some(CodeSyntax::Output { expression })
                },
                TokenType::Identifier(structure) => {
                    if peek_is_delim(token_stream, Delimiter::DoubleColon) {
                        let structure = structure.clone();
                        token_stream.skip();
                        token_stream.error_if_empty(compilation, "Expected identifier.")?;
                        let sub = token_stream.next()?.into_identifier_or_error(compilation)?;
                        let application = self.parse_expression(
                            token_stream,
                            compilation,
                            fuel - 1,
                        )?;
                        let syntax = SubCallSyntax {
                            application: Some(application),
                            location: SubLocation::Structure {
                                collection: LocationValue::new(
                                    Some(tok.code_location.clone()),
                                    structure,
                                ),
                                sub,
                            },
                        };
                        Some(CodeSyntax::Sub(syntax))
                    } else {
                        let base = statement.into_identifier_or_error(compilation)?;
                        let variable = self.parse_access(
                            token_stream,
                            base,
                            compilation,
                            fuel - 1,
                        )?;
                        token_stream.error_if_empty(compilation, "Expected assignment.")?;
                        let _ = token_stream.next()?.assert_is_delimiter_or_error(
                            compilation,
                            Delimiter::Equals,
                        );
                        let value = self.parse_expression(token_stream, compilation, fuel - 1)?;
                        Some(CodeSyntax::ReassignSyntax { variable, value })
                    }
                },
                _ => {
                    compilation.add_error(
                        "Unexpected token.",
                        Some(tok.code_location.clone()),
                    );
                    None
                },
            },
            TokenBlock::Block(b) => {
                compilation.add_error("Unexpected block.", Some(b.span.clone()));
                None
            },
        }
    }

    /// Parses one expression, chosen by its first token.
    #[verifier::loop_isolation(false)]
    pub fn parse_expression(
        &mut self,
        token_stream: &mut TypeStream<TokenBlock>,
        compilation: &mut Compilation,
        fuel: usize,
    ) -> (r: Option<ExpressionSyntax>)
        ensures
            final(token_stream).items@.len() <= old(token_stream).items@.len(),
            old(token_stream).items@.len() > 0 ==> final(token_stream).items@.len() < old(
                token_stream,
            ).items@.len(),
        decreases fuel, token_stream.items@.len(), 12int,
    {
        token_stream.error_if_empty(compilation, "Expected expression.")?;
        let node_value_token = token_stream.next()?;
        if fuel == 0 {
            return None;
        }
        match &node_value_token {
            TokenBlock::Token(tok) => match &tok.token_type {
                TokenType::String(_) => Some(
                    ExpressionSyntax::String(
                        node_value_token.into_string_or_error(compilation)?,
                    ),
                ),
                TokenType::Integer(_) => Some(
                    ExpressionSyntax::Int(node_value_token.into_integer_or_error(compilation)?),
                ),
                TokenType::Atom(Atom::Type(_)) => Some(
                    ExpressionSyntax::Literal(
                        node_value_token.into_atom_type_or_error(compilation)?,
                    ),
                ),
                TokenType::Atom(Atom::Sub(_)) => {
                    let sub = node_value_token.into_atom_sub_or_error(compilation)?;
                    let application = self.parse_expression(token_stream, compilation, fuel - 1)?;
                    Some(
                        ExpressionSyntax::Sub(
                            Box::new(
                                SubCallSyntax {
                                    application: Some(application),
                                    location: SubLocation::Atom(sub),
                                },
                            ),
                        ),
                    )
                },
                TokenType::Keyword(Keyword::Super) => {
                    if peek_is_delim(token_stream, Delimiter::DoubleColon) {
                        token_stream.skip();
                        token_stream.error_if_empty(compilation, "Expected identifier.")?;
                        let sub = token_stream.next()?.into_identifier_or_error(compilation)?;
                        let application = self.parse_expression(
                            token_stream,
                            compilation,
                            fuel - 1,
                        )?;
                        Some(
                            ExpressionSyntax::Sub(
                                Box::new(
                                    SubCallSyntax {
                                        application: Some(application),
                                        location: SubLocation::Super(sub),
                                    },
                                ),
                            ),
                        )
                    } else {
                        compilation.add_error(
                            "Expected expression.",
                            Some(tok.code_location.clone()),
                        );
                        None
                    }
                },
                TokenType::Identifier(name) => {
                    if peek_is_delim(token_stream, Delimiter::DoubleColon) {
                        let structure = node_value_token.into_identifier_or_error(compilation)?;
                        token_stream.skip();
                        token_stream.error_if_empty(compilation, "Expected identifier.")?;
                        let sub = token_stream.next()?.into_identifier_or_error(compilation)?;
                        let application = self.parse_expression(
                            token_stream,
                            compilation,
                            fuel - 1,
                        )?;
                        Some(
                            ExpressionSyntax::Sub(
                                Box::new(
                                    SubCallSyntax {
                                        application: Some(application),
                                        location: SubLocation::Structure {
                                            collection: structure,
                                            sub,
                                        },
                                    },
                                ),
                            ),
                        )
                    } else if peek_is_block(token_stream, Brace::Curly) {
                        let type_ident = node_value_token.into_identifier_or_error(compilation)?;
                        token_stream.error_if_empty(compilation, "Expected code block.")?;
                        let assign_block = token_stream.next()?.into_block_type_or_error(
                            compilation,
                            Brace::Curly,
                        )?;
                        let field_assign = self.parse_field_assign(
                            assign_block,
                            compilation,
                            fuel - 1,
                        )?;
                        Some(ExpressionSyntax::CompositeConstructor { type_ident, field_assign })
                    } else {
                        let base = node_value_token.into_identifier_or_error(compilation)?;
                        self.parse_access(token_stream, base, compilation, fuel - 1)
                    }
                },
                _ => {
                    compilation.add_error(
                        "Expected expression.",
                        Some(tok.code_location.clone()),
                    );
                    None
                },
            },
            TokenBlock::Block(block) => {
                if block.brace_type.is_square() {
                    let (_, b) = node_value_token.into_block_or_none();
                    let b = b?;
                    self.parse_array_creation_syntax(b, compilation, fuel - 1)
                } else if block.brace_type.is_round() {
                    let (_, b) = node_value_token.into_block_or_none();
                    let b = b?;
                    let elements = self.parse_comma_separated_expressions(
                        b,
                        compilation,
                        fuel - 1,
                    );
                    Some(ExpressionSyntax::Tuple(elements))
                } else {
                    compilation.add_error("Expected expression.", Some(block.span.clone()));
                    None
                }
            },
        }
    }

    /// Parses a chain of field, index, and bracket accesses off a base
    /// variable.
    #[verifier::loop_isolation(false)]
    pub fn parse_access(
        &mut self,
        token_stream: &mut TypeStream<TokenBlock>,
        base: LocationValue<String>,
        compilation: &mut Compilation,
        fuel: usize,
    ) -> (r: Option<ExpressionSyntax>)
        ensures
            final(token_stream).items@.len() <= old(token_stream).items@.len(),
        decreases fuel, token_stream.items@.len(), 11int,
    {
        let mut chain = ExpressionSyntax::Variable(base);
        loop
            invariant
                token_stream.items@.len() <= old(token_stream).items@.len(),
            decreases token_stream.items@.len(),
        {
            let ghost s0 = token_stream.items@.len();
            if peek_is_delim(token_stream, Delimiter::Period) {
                token_stream.skip();
                token_stream.error_if_empty(compilation, "Expected identifier.")?;
                let access_token = token_stream.next()?;
                match &access_token {
                    TokenBlock::Token(t) => match &t.token_type {
                        TokenType::Integer(_) => {
                            let idx = access_token.into_integer_or_error(compilation)?;
                            chain = ExpressionSyntax::AccessIdx { base: Box::new(chain), idx };
                        },
                        TokenType::Identifier(_) => {
                            let identifier = access_token.into_identifier_or_error(compilation)?;
                            chain = ExpressionSyntax::Access {
                                base: Box::new(chain),
                                field: identifier,
                            };
                        },
                        _ => {
                            compilation.add_error(
                                "Expected integer or identifier.",
                                Some(t.code_location.clone()),
                            );
                            return None;
                        },
                    },
                    TokenBlock::Block(b) => {
                        compilation.add_error(
                            "Expected integer or identifier.",
                            Some(b.span.clone()),
                        );
                        return None;
                    },
                }
            } else if peek_is_block(token_stream, Brace::Square) {
                let nb = token_stream.next()?;
                let block = nb.into_block_type_or_error(compilation, Brace::Square)?;
                let bend = match block.close_token {
                    Some(t) => Some(t.code_location.clone()),
                    None => None,
                };
                let mut index_stream = TypeStream::from_iter(block.body, bend);
                if fuel == 0 {
                    return None;
                }
                let index = self.parse_expression(&mut index_stream, compilation, fuel - 1)?;
                if !index_stream.is_empty() {
                    compilation.add_error("Unexpected token after an index expression.", None);
                }
                chain = ExpressionSyntax::IndexOp { base: Box::new(chain), index: Box::new(index) };
            } else {
                return Some(chain);
            }
        }
    }

    /// Parses `[a, b, c]` or `[base; count]`.
    #[verifier::loop_isolation(false)]
    pub fn parse_array_creation_syntax(
        &mut self,
        block: Block,
        compilation: &mut Compilation,
        fuel: usize,
    ) -> (r: Option<ExpressionSyntax>)
        decreases fuel, 10int,
    {
        if block.body.len() == 0 {
            return Some(ExpressionSyntax::Array(Vec::new()));
        }
        if fuel == 0 {
            return None;
        }
        if count_semicolons(&block.body) == 1 {
            let end = match block.close_token {
                Some(t) => Some(t.code_location.clone()),
                None => None,
            };
            let mut token_stream = TypeStream::from_iter(block.body, end);
            let base_element = self.parse_expression(&mut token_stream, compilation, fuel - 1)?;
            let _ = token_stream.next()?.assert_is_delimiter_or_error(
                compilation,
                Delimiter::Semicolon,
            );
            let count = self.parse_expression(&mut token_stream, compilation, fuel - 1)?;
            return Some(
                ExpressionSyntax::LengthArray {
                    count: Box::new(count),
                    base: Box::new(base_element),
                },
            );
        }
        let elements = self.parse_comma_separated_expressions(block, compilation, fuel - 1);
        Some(ExpressionSyntax::Array(elements))
    }

    /// Parses a comma-separated expression list.
    #[verifier::loop_isolation(false)]
    pub fn parse_comma_separated_expressions(
        &mut self,
        block: Block,
        compilation: &mut Compilation,
        fuel: usize,
    ) -> (r: Vec<ExpressionSyntax>)
        decreases fuel, 9int,
    {
        let end = match block.close_token {
            Some(t) => Some(t.code_location.clone()),
            None => None,
        };
        let mut token_stream = TypeStream::from_iter(block.body, end);
        let mut enumeration: Vec<ExpressionSyntax> = Vec::new();
        while !token_stream.is_empty()
            decreases token_stream.items@.len(),
        {
            let ghost s0 = token_stream.items@.len();
            if fuel == 0 {
                return enumeration;
            }
            match self.parse_expression(&mut token_stream, compilation, fuel - 1) {
                Some(s) => {
                    enumeration.push(s);
                },
                None => {},
            }
            if token_stream.is_empty() {
                break ;
            }
            let separator_token = match token_stream.next() {
                Some(t) => t,
                None => {
                    break ;
                },
            };
            let is_comma = match &separator_token {
                TokenBlock::Token(t) => matches!(
                    &t.token_type,
                    TokenType::Delimiter(Delimiter::Comma)
                ),
                _ => false,
            };
            if !is_comma {
                compilation.add_error(
                    "Expected a closing parenthesis or a comma.",
                    Some(separator_token.code_location().clone()),
                );
            }
        }
        enumeration
    }

    /// Parses `field: expression` pairs of a composite constructor.
    #[verifier::loop_isolation(false)]
    pub fn parse_field_assign(&mut self, block: Block, compilation: &mut Compilation, fuel: usize) -> (r:
        Option<Vec<FieldAssignSyntax>>)
        decreases fuel, 8int,
    {
        let mut res: Vec<FieldAssignSyntax> = Vec::new();
        let end = match block.close_token {
            Some(t) => Some(t.code_location.clone()),
            None => None,
        };
        let mut token_stream = TypeStream::from_iter(block.body, end);
        while !token_stream.is_empty()
            decreases token_stream.items@.len(),
        {
            let ghost s0 = token_stream.items@.len();
            let field_name = token_stream.next()?.into_identifier_or_error(compilation)?;
            token_stream.error_if_empty(compilation, "Expected colon.")?;
            let _ = token_stream.next()?.assert_is_delimiter_or_error(
                compilation,
                Delimiter::Colon,
            );
            if fuel == 0 {
                return None;
            }
            let expression = self.parse_expression(&mut token_stream, compilation, fuel - 1)?;
            res.push(FieldAssignSyntax { left: field_name, right: expression });
            if token_stream.is_empty() {
                break ;
            }
            let _ = token_stream.next()?.assert_is_delimiter_or_error(
                compilation,
                Delimiter::Comma,
            );
        }
        Some(res)
    }
}

} // verus!
