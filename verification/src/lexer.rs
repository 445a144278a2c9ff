//! The lexer: turns the characters of one source file into a stream of
//! tokens, ending with an end-of-file sentinel.

use vstd::prelude::*;

use crate::code_location::CodeLocation;
use crate::compilation::Compilation;
use crate::diagnostic::{Diagnostic, DiagnosticPipelineLocation, DiagnosticType};
use crate::file_reader::{FileReaderError, StringFileReader};
use crate::token::{Atom, AtomSub, AtomType, Brace, BraceState, Delimiter, Keyword, Token, TokenType};
use crate::type_stream::TypeStream;

verus! {

/// Relies on `String::push`: appends exactly the one character to the end
/// of the string, as its standard-library documentation states.
pub assume_specification[ std::string::String::push ](s: &mut std::string::String, c: char)
    ensures
        final(s)@ == old(s)@.push(c),
;

/// Whitespace the lexer skips.
pub open spec fn spec_is_ignored(c: char) -> bool {
    c == ' ' || c == '\t' || c == '\n' || c == '\r'
}

fn is_ignored(c: char) -> (r: bool)
    ensures
        r == spec_is_ignored(c),
{
    c == ' ' || c == '\t' || c == '\n' || c == '\r'
}

/// An ASCII decimal digit.
pub open spec fn spec_is_digit(c: char) -> bool {
    '0' <= c && c <= '9'
}

fn is_digit(c: char) -> (r: bool)
    ensures
        r == spec_is_digit(c),
{
    '0' <= c && c <= '9'
}

/// A character that may continue a word: an ASCII letter or digit, an
/// underscore, or any character beyond ASCII.
pub open spec fn spec_is_word_char(c: char) -> bool {
    ('a' <= c && c <= 'z') || ('A' <= c && c <= 'Z') || spec_is_digit(c) || c == '_' || (
    c as u32) >= 128
}

fn is_word_char(c: char) -> (r: bool)
    ensures
        r == spec_is_word_char(c),
{
    ('a' <= c && c <= 'z') || ('A' <= c && c <= 'Z') || is_digit(c) || c == '_' || (c as u32)
        >= 128
}

/// The token a complete word maps to, when it is a keyword or a boolean
/// atom.
pub fn try_get_keyword(keyword: &String) -> (r: Option<TokenType>) {
    if *keyword == "problem".to_owned() {
        Some(TokenType::Keyword(Keyword::Problem))
    } else if *keyword == "solution".to_owned() {
        Some(TokenType::Keyword(Keyword::Solution))
    } else if *keyword == "let".to_owned() {
        Some(TokenType::Keyword(Keyword::Let))
    } else if *keyword == "force".to_owned() {
        Some(TokenType::Keyword(Keyword::Force))
    } else if *keyword == "sub".to_owned() {
        Some(TokenType::Keyword(Keyword::SubStructure))
    } else if *keyword == "collection".to_owned() {
        Some(TokenType::Keyword(Keyword::Collection))
    } else if *keyword == "composite".to_owned() {
        Some(TokenType::Keyword(Keyword::Composite))
    } else if *keyword == "import".to_owned() {
        Some(TokenType::Keyword(Keyword::Import))
    } else if *keyword == "if".to_owned() {
        Some(TokenType::Keyword(Keyword::If))
    } else if *keyword == "in".to_owned() {
        Some(TokenType::Keyword(Keyword::In))
    } else if *keyword == "for".to_owned() {
        Some(TokenType::Keyword(Keyword::For))
    } else if *keyword == "else".to_owned() {
        Some(TokenType::Keyword(Keyword::Else))
    } else if *keyword == "super".to_owned() {
        Some(TokenType::Keyword(Keyword::Super))
    } else if *keyword == "output".to_owned() {
        Some(TokenType::Keyword(Keyword::Output))
    } else if *keyword == "true".to_owned() {
        Some(TokenType::Atom(Atom::Type(AtomType::True)))
    } else if *keyword == "false".to_owned() {
        Some(TokenType::Atom(Atom::Type(AtomType::False)))
    } else if *keyword == "not".to_owned() {
        Some(TokenType::Atom(Atom::Sub(AtomSub::Not)))
    } else if *keyword == "or".to_owned() {
        Some(TokenType::Atom(Atom::Sub(AtomSub::Or)))
    } else {
        None
    }
}

/// The token a delimiter character sequence maps to, if any.
pub fn try_get_delim(delim: &Vec<char>) -> (r: Option<TokenType>) {
    if delim.len() == 1 {
        let c = delim[0];
        match c {
            '(' => Some(TokenType::Delimiter(Delimiter::Brace(Brace::Round, BraceState::Open))),
            ')' => Some(TokenType::Delimiter(Delimiter::Brace(Brace::Round, BraceState::Closed))),
            '{' => Some(TokenType::Delimiter(Delimiter::Brace(Brace::Curly, BraceState::Open))),
            '}' => Some(TokenType::Delimiter(Delimiter::Brace(Brace::Curly, BraceState::Closed))),
            '[' => Some(TokenType::Delimiter(Delimiter::Brace(Brace::Square, BraceState::Open))),
            ']' => Some(
                TokenType::Delimiter(Delimiter::Brace(Brace::Square, BraceState::Closed)),
            ),
            ':' => Some(TokenType::Delimiter(Delimiter::Colon)),
            ';' => Some(TokenType::Delimiter(Delimiter::Semicolon)),
            ',' => Some(TokenType::Delimiter(Delimiter::Comma)),
            '.' => Some(TokenType::Delimiter(Delimiter::Period)),
            '=' => Some(TokenType::Delimiter(Delimiter::Equals)),
            _ => None,
        }
    } else if delim.len() == 2 {
        let c0 = delim[0];
        let c1 = delim[1];
        if c0 == ':' && c1 == ':' {
            Some(TokenType::Delimiter(Delimiter::DoubleColon))
        } else if c0 == '=' && c1 == '>' {
            Some(TokenType::Delimiter(Delimiter::ThickArrowRight))
        } else if c0 == '-' && c1 == '>' {
            Some(TokenType::Delimiter(Delimiter::ThinArrowRight))
        } else {
            None
        }
    } else {
        None
    }
}

/// Reads one integer literal; overflow is reported as a lexing error.
fn read_number(file_reader: &mut StringFileReader, current_file: &str) -> (r: Result<
    Token,
    Diagnostic,
>)
    requires
        old(file_reader).position < old(file_reader).chars@.len(),
        spec_is_digit(old(file_reader).chars@[old(file_reader).position as int]),
    ensures
        final(file_reader).chars@ == old(file_reader).chars@,
        final(file_reader).position > old(file_reader).position,
        final(file_reader).position <= final(file_reader).chars@.len(),
{
    let start_char = file_reader.get_position();
    let mut value: usize = 0;
    let mut overflow = false;
    let mut number_char = match file_reader.read_char() {
        Ok(c) => c,
        Err(_) => {
            return Err(
                Diagnostic::new(
                    DiagnosticType::Error,
                    "Unexpected end of input in a number.".to_owned(),
                    None,
                    DiagnosticPipelineLocation::Lexing,
                ),
            );
        },
    };
    let mut consumed: usize = 1;
    while is_digit(number_char)
        invariant
            file_reader.chars@ == old(file_reader).chars@,
            file_reader.position <= file_reader.chars@.len(),
            consumed >= 1,
            file_reader.position >= old(file_reader).position + consumed,
        decreases file_reader.chars@.len() - file_reader.position,
    {
        let d = ((number_char as u32) - ('0' as u32)) as usize;
        if value > (usize::MAX - d) / 10 {
            overflow = true;
        } else {
            value = value * 10 + d;
        }
        match file_reader.read_char() {
            Ok(c) => {
                number_char = c;
                consumed = consumed + 1;
            },
            Err(_) => {
                break ;
            },
        }
    }
    let p = file_reader.get_position();
    if p > start_char + 1 {
        file_reader.set_position(p - 1);
    }
    let location = CodeLocation::with_section(
        current_file.to_owned(),
        start_char as u64,
        file_reader.get_position() as u64,
    );
    if overflow {
        return Err(
            Diagnostic::new(
                DiagnosticType::Error,
                "Couldn't parse integer: the literal does not fit.".to_owned(),
                Some(location),
                DiagnosticPipelineLocation::Lexing,
            ),
        );
    }
    Ok(Token::new(TokenType::Integer(value), location))
}

/// Reads one word and classifies it as a keyword, a boolean atom, or an
/// identifier.
fn read_keyword(file_reader: &mut StringFileReader, current_file: &str) -> (r: Result<
    Token,
    Diagnostic,
>)
    requires
        old(file_reader).position < old(file_reader).chars@.len(),
        spec_is_word_char(old(file_reader).chars@[old(file_reader).position as int]),
    ensures
        final(file_reader).chars@ == old(file_reader).chars@,
        final(file_reader).position > old(file_reader).position,
        final(file_reader).position <= final(file_reader).chars@.len(),
{
    let start_char = file_reader.get_position();
    let mut keyword = String::new();
    let mut keyword_char = match file_reader.read_char() {
        Ok(c) => c,
        Err(_) => {
            return Err(
                Diagnostic::new(
                    DiagnosticType::Error,
                    "Unexpected end of input in a word.".to_owned(),
                    None,
                    DiagnosticPipelineLocation::Lexing,
                ),
            );
        },
    };
    let mut consumed: usize = 1;
    while is_word_char(keyword_char)
        invariant
            file_reader.chars@ == old(file_reader).chars@,
            file_reader.position <= file_reader.chars@.len(),
            consumed >= 1,
            file_reader.position >= old(file_reader).position + consumed,
        decreases file_reader.chars@.len() - file_reader.position,
    {
        keyword.push(keyword_char);
        match file_reader.read_char() {
            Ok(c) => {
                keyword_char = c;
                consumed = consumed + 1;
            },
            Err(_) => {
                break ;
            },
        }
    }
    let p = file_reader.get_position();
    if p > start_char + 1 {
        file_reader.set_position(p - 1);
    }
    let code_location = CodeLocation::with_section(
        current_file.to_owned(),
        start_char as u64,
        file_reader.get_position() as u64,
    );
    match try_get_keyword(&keyword) {
        Some(token_type) => Ok(Token::new(token_type, code_location)),
        None => Ok(Token::new(TokenType::Identifier(keyword), code_location)),
    }
}

/// Reads the longest delimiter the delimiter table knows from the cursor.
fn read_delim(file_reader: &mut StringFileReader, current_file: &str) -> (r: Result<
    Token,
    Diagnostic,
>)
    requires
        old(file_reader).position <= old(file_reader).chars@.len(),
    ensures
        final(file_reader).chars@ == old(file_reader).chars@,
        final(file_reader).position >= old(file_reader).position,
        final(file_reader).position > old(file_reader).position || final(file_reader).position
            == final(file_reader).chars@.len(),
        final(file_reader).position <= final(file_reader).chars@.len(),
{
    let start_char = file_reader.get_position();
    let mut delim: Vec<char> = Vec::new();
    let mut consumed: usize = 0;
    let mut hit_invalid = false;
    loop
        invariant_except_break
            file_reader.chars@ == old(file_reader).chars@,
            file_reader.position <= file_reader.chars@.len(),
            file_reader.position == old(file_reader).position + consumed,
            delim@.len() == consumed,
            !hit_invalid,
        ensures
            file_reader.chars@ == old(file_reader).chars@,
            file_reader.position <= file_reader.chars@.len(),
            file_reader.position == old(file_reader).position + consumed,
            hit_invalid ==> delim@.len() + 1 == consumed && consumed >= 1,
            !hit_invalid ==> delim@.len() == consumed && file_reader.position
                == file_reader.chars@.len(),
        decreases file_reader.chars@.len() - file_reader.position,
    {
        let delim_char = match file_reader.read_char() {
            Ok(c) => c,
            Err(_) => {
                break ;
            },
        };
        consumed = consumed + 1;
        delim.push(delim_char);
        if try_get_delim(&delim).is_none() {
            let _ = delim.pop();
            hit_invalid = true;
            break ;
        }
    }
    if hit_invalid && delim.len() > 0 {
        let p = file_reader.get_position();
        file_reader.set_position(p - 1);
    }
    let code_location = CodeLocation::with_section(
        current_file.to_owned(),
        start_char as u64,
        file_reader.get_position() as u64,
    );
    match try_get_delim(&delim) {
        Some(token_type) => Ok(Token::new(token_type, code_location)),
        None => Err(
            Diagnostic::new(
                DiagnosticType::Error,
                "Invalid delimiter.".to_owned(),
                Some(code_location),
                DiagnosticPipelineLocation::Lexing,
            ),
        ),
    }
}

/// Reads one token: a number, a word, or a delimiter, by the first
/// character.
fn read_text(file_reader: &mut StringFileReader, current_file: &str) -> (r: Result<
    Token,
    Diagnostic,
>)
    requires
        old(file_reader).position < old(file_reader).chars@.len(),
    ensures
        final(file_reader).chars@ == old(file_reader).chars@,
        final(file_reader).position >= old(file_reader).position,
        final(file_reader).position > old(file_reader).position || final(file_reader).position
            == final(file_reader).chars@.len(),
        final(file_reader).position <= final(file_reader).chars@.len(),
{
    let first_char = match file_reader.peek_char() {
        Ok(c) => c,
        Err(_) => {
            return Err(
                Diagnostic::new(
                    DiagnosticType::Error,
                    "Unexpected end of input.".to_owned(),
                    None,
                    DiagnosticPipelineLocation::Lexing,
                ),
            );
        },
    };
    if is_digit(first_char) {
        read_number(file_reader, current_file)
    } else if is_word_char(first_char) {
        read_keyword(file_reader, current_file)
    } else {
        read_delim(file_reader, current_file)
    }
}

/// If the reader failure was the end of the file, finishes the stream with
/// an end-of-file token; an unusual failure is recorded and discards the
/// incomplete stream.
pub fn on_file_reader_error(
    e: FileReaderError,
    compilation: &mut Compilation,
    token_stream: Vec<Token>,
    current_file: &str,
) -> (r: Option<TypeStream<Token>>)
    ensures
        final(compilation).diags().len() >= old(compilation).diags().len(),
        forall|k: int|
            0 <= k < old(compilation).diags().len() ==> final(compilation).diags()[k] == old(
                compilation,
            ).diags()[k],
{
    match e {
        FileReaderError::ReachedEOF => {
            let mut token_stream = token_stream;
            token_stream.push(Token::eof(current_file));
            Some(TypeStream::new(token_stream))
        },
        FileReaderError::DiagnosticError(d) => {
            compilation.add_diagnostic(d);
            proof {
                assert forall|k: int|
                    0 <= k < old(compilation).diags().len() implies compilation.diags()[k] == old(
                    compilation,
                ).diags()[k] by {
                    assert(compilation.diags()[k] == compilation.diags().drop_last()[k]);
                }
            }
            None
        },
    }
}

/// Lexes the whole text behind the reader into a token stream ending with
/// an end-of-file token; lexing errors are recorded and the offending text
/// skipped.
pub fn tokenize(
    file_reader: &mut StringFileReader,
    current_file: &str,
    compilation: &mut Compilation,
) -> (r: Option<TypeStream<Token>>)
    requires
        old(file_reader).position <= old(file_reader).chars@.len(),
{
    let mut token_stream: Vec<Token> = Vec::new();
    loop
        invariant
            file_reader.position <= file_reader.chars@.len(),
        decreases file_reader.chars@.len() - file_reader.position,
    {
        let current_char = match file_reader.peek_char() {
            Ok(c) => c,
            Err(e) => {
                return on_file_reader_error(e, compilation, token_stream, current_file);
            },
        };
        if current_char == '#' {
            let ghost p0 = file_reader.position;
            let ghost ch0 = file_reader.chars@;
            loop
                invariant
                    file_reader.chars@ == ch0,
                    file_reader.position <= file_reader.chars@.len(),
                    file_reader.position >= p0,
                ensures
                    file_reader.chars@ == ch0,
                    file_reader.position > p0,
                    file_reader.position <= file_reader.chars@.len(),
                decreases file_reader.chars@.len() - file_reader.position,
            {
                let comment_char = match file_reader.read_char() {
                    Ok(c) => c,
                    Err(e) => {
                        return on_file_reader_error(e, compilation, token_stream, current_file);
                    },
                };
                if comment_char == '\n' || comment_char == '\r' {
                    break ;
                }
            }
        } else if is_ignored(current_char) {
            let skipped = file_reader.read_char();
            proof {
                assert(skipped is Ok);
            }
        } else {
            let pos_before = file_reader.get_position();
            match read_text(file_reader, current_file) {
                Ok(t) => {
                    token_stream.push(t);
                },
                Err(e) => {
                    compilation.add_diagnostic(e);
                },
            }
            if file_reader.get_position() == pos_before {
                token_stream.push(Token::eof(current_file));
                return Some(TypeStream::new(token_stream));
            }
        }
    }
}

} // verus!
