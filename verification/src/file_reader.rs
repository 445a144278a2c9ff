//! Character-level access to one source text, with a cursor that the lexer
//! moves forward and occasionally steps back.

use vstd::prelude::*;

use crate::diagnostic::Diagnostic;
use vstd::std_specs::iter::IteratorSpec;

verus! {

/// Why a read failed: the end of the text, or a diagnosed problem.
#[derive(Debug)]
pub enum FileReaderError {
    ReachedEOF,
    DiagnosticError(Diagnostic),
}

/// A cursor over the characters of one source text.
#[derive(Debug)]
pub struct StringFileReader {
    pub chars: Vec<char>,
    pub position: usize,
}

impl StringFileReader {
    pub fn new() -> (r: Self)
        ensures
            r.chars@.len() == 0,
            r.position == 0,
    {
        Self { chars: Vec::new(), position: 0 }
    }

    /// Points the reader at the start of the given text.
    pub fn reset_to_string(&mut self, s: &str)
        ensures
            final(self).position == 0,
    {
        let mut out: Vec<char> = Vec::new();
        let mut it = s.chars();
        loop
            invariant
                it.obeys_prophetic_iter_laws(),
                it.decrease() is Some,
            decreases it.decrease()->0,
        {
            match it.next() {
                Some(c) => {
                    out.push(c);
                },
                None => {
                    break ;
                },
            }
        }
        self.chars = out;
        self.position = 0;
    }

    /// The character under the cursor, without moving it.
    pub fn peek_char(&self) -> (r: Result<char, FileReaderError>)
        ensures
            r is Ok <==> self.position < self.chars@.len(),
            r is Ok ==> r->Ok_0 == self.chars@[self.position as int],
    {
        if self.position < self.chars.len() {
            Ok(self.chars[self.position])
        } else {
            Err(FileReaderError::ReachedEOF)
        }
    }

    /// The character under the cursor, moving past it.
    pub fn read_char(&mut self) -> (r: Result<char, FileReaderError>)
        ensures
            final(self).chars@ == old(self).chars@,
            r is Ok <==> old(self).position < old(self).chars@.len(),
            r is Ok ==> r->Ok_0 == old(self).chars@[old(self).position as int] && final(self).position == old(self).position + 1,
            r is Err ==> final(self).position == old(self).position,
    {
        if self.position < self.chars.len() {
            let c = self.chars[self.position];
            self.position = self.position + 1;
            Ok(c)
        } else {
            Err(FileReaderError::ReachedEOF)
        }
    }

    pub fn get_position(&self) -> (r: usize)
        ensures
            r == self.position,
    {
        self.position
    }

    pub fn set_position(&mut self, p: usize)
        ensures
            final(self).chars@ == old(self).chars@,
            final(self).position == p,
    {
        self.position = p;
    }
}

} // verus!
