//! The abstract syntax the parser produces: collections of substructures,
//! composite types, code blocks, and expressions.

use vstd::prelude::*;

use crate::code_location::{CodeLocation, LocationValue};
use crate::token::{AtomSub, AtomType};

verus! {

/// A named group of substructures.
#[derive(Debug)]
pub struct CollectionSyntax {
    pub subs: Vec<SubstructureSyntax>,
    pub name: LocationValue<String>,
}

/// One substructure: name, typed arguments, body, and optional result
/// expression.
#[derive(Debug, Clone)]
pub struct SubstructureSyntax {
    pub name: LocationValue<String>,
    pub args: Vec<TypedIdentifierSyntax>,
    pub code: Vec<CodeSyntax>,
    pub result: Option<ExpressionSyntax>,
}

/// One statement.
#[derive(Debug)]
pub enum CodeSyntax {
    ReassignSyntax { variable: ExpressionSyntax, value: ExpressionSyntax },
    For {
        iterator_variable: LocationValue<String>,
        iterator_amount: ExpressionSyntax,
        iterator_body: Vec<CodeSyntax>,
    },
    If { condition: ExpressionSyntax, condition_true: Vec<CodeSyntax> },
    IfElse {
        condition: ExpressionSyntax,
        condition_true: Vec<CodeSyntax>,
        condition_false: Vec<CodeSyntax>,
    },
    Let { variable: LocationValue<String>, value: ExpressionSyntax },
    Force { value: ExpressionSyntax, type_syntax: TypeSyntax },
    Sub(SubCallSyntax),
    Output { expression: ExpressionSyntax },
}

/// A type annotation.
#[derive(Debug, Clone)]
pub enum TypeSyntax {
    Atom(AtomType),
    Composite { name: LocationValue<String> },
}

impl TypeSyntax {
    pub fn as_atom(&self) -> (r: Option<&AtomType>)
        ensures
            r is Some <==> *self is Atom,
            r is Some ==> *self == TypeSyntax::Atom(*r->Some_0),
    {
        match self {
            TypeSyntax::Atom(t) => Some(t),
            _ => None,
        }
    }
}

/// One expression.
#[derive(Debug)]
pub enum ExpressionSyntax {
    String(LocationValue<String>),
    Int(LocationValue<usize>),
    Tuple(Vec<ExpressionSyntax>),
    Array(Vec<ExpressionSyntax>),
    LengthArray { count: Box<ExpressionSyntax>, base: Box<ExpressionSyntax> },
    Variable(LocationValue<String>),
    Access { base: Box<ExpressionSyntax>, field: LocationValue<String> },
    AccessIdx { base: Box<ExpressionSyntax>, idx: LocationValue<usize> },
    IndexOp { base: Box<ExpressionSyntax>, index: Box<ExpressionSyntax> },
    Sub(Box<SubCallSyntax>),
    Literal(LocationValue<AtomType>),
    CompositeConstructor {
        type_ident: LocationValue<String>,
        field_assign: Vec<FieldAssignSyntax>,
    },
}

/// A call to a substructure, a built-in boolean operator, or a helper.
#[derive(Debug)]
pub struct SubCallSyntax {
    pub location: SubLocation,
    pub application: Option<ExpressionSyntax>,
}

/// Which callee a call names.
#[derive(Debug, Clone)]
pub enum SubLocation {
    Structure { collection: LocationValue<String>, sub: LocationValue<String> },
    Super(LocationValue<String>),
    Atom(LocationValue<AtomSub>),
}

impl SubLocation {
    /// The source position of the callee name, when one is known.
    pub fn code_location(&self) -> (r: Option<CodeLocation>) {
        match self {
            SubLocation::Structure { collection, sub } => match (&collection.location, &sub.location) {
                (Some(c), Some(sl)) => {
                    if c.section.is_some() == sl.section.is_some() {
                        Some(c.to(sl))
                    } else {
                        Some(sl.clone())
                    }
                },
                (None, Some(sl)) => Some(sl.clone()),
                _ => None,
            },
            SubLocation::Super(location) => location.location.clone(),
            SubLocation::Atom(location) => location.location.clone(),
        }
    }
}

/// A name with its declared type.
#[derive(Debug, Clone)]
pub struct TypedIdentifierSyntax {
    pub name: LocationValue<String>,
    pub type_syntax: TypeSyntax,
}

/// One field assignment in a composite constructor.
#[derive(Debug, Clone)]
pub struct FieldAssignSyntax {
    pub left: LocationValue<String>,
    pub right: ExpressionSyntax,
}

/// A composite type declaration.
#[derive(Debug, Clone)]
pub struct CompositeTypeSyntax {
    pub name: LocationValue<String>,
    pub fields: Vec<TypedIdentifierSyntax>,
}

/// An import path.
#[derive(Debug, Clone)]
pub struct ImportSyntax {
    pub path: Vec<LocationValue<String>>,
}

/// Everything one parse run collects.
#[derive(Debug)]
pub struct Project {
    pub collections: Vec<CollectionSyntax>,
    pub composite_types: Vec<CompositeTypeSyntax>,
    pub problems: Vec<SubstructureSyntax>,
    pub solutions: Vec<(String, SubCallSyntax)>,
    pub supers: Vec<(String, usize)>,
}

impl Project {
    pub fn new() -> (r: Self)
        ensures
            r.collections@.len() == 0,
            r.composite_types@.len() == 0,
            r.problems@.len() == 0,
            r.solutions@.len() == 0,
            r.supers@.len() == 0,
    {
        Project {
            collections: Vec::new(),
            composite_types: Vec::new(),
            problems: Vec::new(),
            solutions: Vec::new(),
            supers: Vec::new(),
        }
    }
}


/// A structural deep copy of an expression.
pub fn expr_deep_clone(e: &ExpressionSyntax) -> (r: ExpressionSyntax)
    decreases *e, 0int,
{
    match e {
        ExpressionSyntax::String(v) => ExpressionSyntax::String(v.clone()),
        ExpressionSyntax::Int(v) => ExpressionSyntax::Int(v.clone()),
        ExpressionSyntax::Tuple(v) => ExpressionSyntax::Tuple(expr_vec_deep_clone(v)),
        ExpressionSyntax::Array(v) => ExpressionSyntax::Array(expr_vec_deep_clone(v)),
        ExpressionSyntax::LengthArray { count, base } => ExpressionSyntax::LengthArray {
            count: Box::new(expr_deep_clone(count)),
            base: Box::new(expr_deep_clone(base)),
        },
        ExpressionSyntax::Variable(v) => ExpressionSyntax::Variable(v.clone()),
        ExpressionSyntax::Access { base, field } => ExpressionSyntax::Access {
            base: Box::new(expr_deep_clone(base)),
            field: field.clone(),
        },
        ExpressionSyntax::AccessIdx { base, idx } => ExpressionSyntax::AccessIdx {
            base: Box::new(expr_deep_clone(base)),
            idx: idx.clone(),
        },
        ExpressionSyntax::IndexOp { base, index } => ExpressionSyntax::IndexOp {
            base: Box::new(expr_deep_clone(base)),
            index: Box::new(expr_deep_clone(index)),
        },
        ExpressionSyntax::Sub(c) => ExpressionSyntax::Sub(Box::new(subcall_deep_clone(c))),
        ExpressionSyntax::Literal(v) => ExpressionSyntax::Literal(v.clone()),
        ExpressionSyntax::CompositeConstructor { type_ident: tn, field_assign } => {
            ExpressionSyntax::CompositeConstructor {
                type_ident: tn.clone(),
                field_assign: field_assign_vec_deep_clone(field_assign),
            }
        },
    }
}

/// A structural deep copy of a field-assignment vector.
pub fn field_assign_vec_deep_clone(v: &Vec<FieldAssignSyntax>) -> (r: Vec<FieldAssignSyntax>)
    ensures
        r@.len() == v@.len(),
    decreases *v, 1int,
{
    let mut out: Vec<FieldAssignSyntax> = Vec::new();
    let mut i: usize = 0;
    while i < v.len()
        invariant
            0 <= i <= v@.len(),
            out@.len() == i,
        decreases v@.len() - i,
    {
        out.push(field_assign_deep_clone(&v[i]));
        i = i + 1;
    }
    out
}

/// A structural deep copy of one field assignment.
pub fn field_assign_deep_clone(f: &FieldAssignSyntax) -> (r: FieldAssignSyntax)
    decreases *f, 2int,
{
    FieldAssignSyntax { left: f.left.clone(), right: expr_deep_clone(&f.right) }
}

/// A structural deep copy of an expression vector.
pub fn expr_vec_deep_clone(v: &Vec<ExpressionSyntax>) -> (r: Vec<ExpressionSyntax>)
    ensures
        r@.len() == v@.len(),
    decreases *v, 1int,
{
    let mut out: Vec<ExpressionSyntax> = Vec::new();
    let mut i: usize = 0;
    while i < v.len()
        invariant
            0 <= i <= v@.len(),
            out@.len() == i,
        decreases v@.len() - i,
    {
        out.push(expr_deep_clone(&v[i]));
        i = i + 1;
    }
    out
}

/// A structural deep copy of a call.
pub fn subcall_deep_clone(c: &SubCallSyntax) -> (r: SubCallSyntax)
    decreases *c, 1int,
{
    let application = match &c.application {
        Some(a) => Some(expr_deep_clone(a)),
        None => None,
    };
    SubCallSyntax { location: c.location.clone(), application }
}

/// A structural deep copy of a statement.
pub fn code_deep_clone(st: &CodeSyntax) -> (r: CodeSyntax)
    decreases *st, 2int,
{
    match st {
        CodeSyntax::ReassignSyntax { variable, value } => CodeSyntax::ReassignSyntax {
            variable: expr_deep_clone(variable),
            value: expr_deep_clone(value),
        },
        CodeSyntax::For { iterator_variable, iterator_amount, iterator_body } => CodeSyntax::For {
            iterator_variable: iterator_variable.clone(),
            iterator_amount: expr_deep_clone(iterator_amount),
            iterator_body: code_vec_deep_clone(iterator_body),
        },
        CodeSyntax::If { condition, condition_true } => CodeSyntax::If {
            condition: expr_deep_clone(condition),
            condition_true: code_vec_deep_clone(condition_true),
        },
        CodeSyntax::IfElse { condition, condition_true, condition_false } => CodeSyntax::IfElse {
            condition: expr_deep_clone(condition),
            condition_true: code_vec_deep_clone(condition_true),
            condition_false: code_vec_deep_clone(condition_false),
        },
        CodeSyntax::Let { variable, value } => CodeSyntax::Let {
            variable: variable.clone(),
            value: expr_deep_clone(value),
        },
        CodeSyntax::Force { value, type_syntax } => CodeSyntax::Force {
            value: expr_deep_clone(value),
            type_syntax: type_syntax.clone(),
        },
        CodeSyntax::Sub(c) => CodeSyntax::Sub(subcall_deep_clone(c)),
        CodeSyntax::Output { expression } => CodeSyntax::Output {
            expression: expr_deep_clone(expression),
        },
    }
}

/// A structural deep copy of a statement vector.
pub fn code_vec_deep_clone(v: &Vec<CodeSyntax>) -> (r: Vec<CodeSyntax>)
    ensures
        r@.len() == v@.len(),
    decreases *v, 3int,
{
    let mut out: Vec<CodeSyntax> = Vec::new();
    let mut i: usize = 0;
    while i < v.len()
        invariant
            0 <= i <= v@.len(),
            out@.len() == i,
        decreases v@.len() - i,
    {
        out.push(code_deep_clone(&v[i]));
        i = i + 1;
    }
    out
}

impl Clone for ExpressionSyntax {
    fn clone(&self) -> (r: Self) {
        expr_deep_clone(self)
    }
}

impl Clone for CodeSyntax {
    fn clone(&self) -> (r: Self) {
        code_deep_clone(self)
    }
}

impl Clone for SubCallSyntax {
    fn clone(&self) -> (r: Self) {
        subcall_deep_clone(self)
    }
}

} // verus!
