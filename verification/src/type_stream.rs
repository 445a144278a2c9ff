//! A forward-only stream of parsed items, with one-item lookahead and the
//! source position of its end for diagnostics.

use vstd::prelude::*;

use crate::code_location::CodeLocation;
use crate::compilation::Compilation;

verus! {

/// A consumable sequence of items.
#[derive(Debug)]
pub struct TypeStream<T> {
    pub items: Vec<T>,
    pub end: Option<CodeLocation>,
}

impl<T> TypeStream<T> {
    /// How many items are left.
    pub open spec fn remaining(&self) -> int {
        self.items@.len() as int
    }

    pub fn new(tokens: Vec<T>) -> (r: Self)
        ensures
            r.items@ == tokens@,
            r.end is None,
    {
        Self { items: tokens, end: None }
    }

    /// A stream over the given items, remembering where the enclosing
    /// construct ended.
    pub fn from_iter(tokens: Vec<T>, end: Option<CodeLocation>) -> (r: Self)
        ensures
            r.items@ == tokens@,
            r.end == end,
    {
        Self { items: tokens, end }
    }

    pub fn is_empty(&self) -> (r: bool)
        ensures
            r == (self.items@.len() == 0),
    {
        self.items.len() == 0
    }

    /// Adds an error naming what was expected when the stream is exhausted.
    pub fn error_if_empty(&self, compilation: &mut Compilation, expected: &str) -> (r: Option<()>)
        ensures
            r is Some <==> self.items@.len() > 0,
            final(compilation).diags().len() >= old(compilation).diags().len(),
    {
        if self.is_empty() {
            compilation.add_error(expected, self.end.clone());
            None
        } else {
            Some(())
        }
    }

    /// The next item, consumed; `None` when the stream is exhausted.
    pub fn next(&mut self) -> (r: Option<T>)
        ensures
            final(self).end == old(self).end,
            r is Some <==> old(self).items@.len() > 0,
            r is Some ==> r == Some(old(self).items@[0]) && final(self).items@ == old(self).items@.drop_first(),
            r is None ==> final(self).items@ == old(self).items@,
    {
        if self.items.len() > 0 {
            Some(self.items.remove(0))
        } else {
            None
        }
    }

    /// The next item, not consumed.
    pub fn peek(&self) -> (r: Option<&T>)
        ensures
            r is Some <==> self.items@.len() > 0,
            r is Some ==> *r->Some_0 == self.items@[0],
    {
        if self.items.len() > 0 {
            Some(&self.items[0])
        } else {
            None
        }
    }

    /// Discards the next item if there is one.
    pub fn skip(&mut self)
        ensures
            final(self).end == old(self).end,
            old(self).items@.len() > 0 ==> final(self).items@ == old(self).items@.drop_first(),
            old(self).items@.len() == 0 ==> final(self).items@ == old(self).items@,
    {
        let _ = self.next();
    }

    /// The remaining items, in order.
    pub fn to_vec(self) -> (r: Vec<T>)
        ensures
            r@ == self.items@,
    {
        self.items
    }
}

} // verus!
