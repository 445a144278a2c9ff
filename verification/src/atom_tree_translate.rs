//! The translator: walks the parsed syntax under a variable-scope and
//! condition-stack discipline and builds the initial, unsimplified atom
//! tree. Helper arithmetic is evaluated here; boolean structure is emitted
//! as atom-tree nodes.

use vstd::prelude::*;
use vstd::string::StringExecFns;

use crate::atom_tree::{AtomRoot, AtomTree};
use crate::atom_tree_to_graph::Label;
use crate::compilation::Compilation;
use crate::syntax::{
    CodeSyntax, CollectionSyntax, CompositeTypeSyntax, ExpressionSyntax, SubCallSyntax,
    SubLocation, SubstructureSyntax, TypedIdentifierSyntax,
};
use crate::token::{AtomSub, AtomType};

verus! {

/// A value the translator passes around: an error placeholder, an array, a
/// reference to a defined variable, a bare tree, a tuple, a composite value,
/// or a compile-time helper value.
#[derive(Debug)]
pub enum ValueCollection {
    Error,
    Array { items: Vec<ValueCollection> },
    SingleVar(usize),
    Single(AtomTree),
    Tuple(Vec<ValueCollection>),
    Composite { composite_name: String, fields: Vec<(String, ValueCollection)> },
    Super(SuperValue),
}

/// A compile-time helper value: a string or an integer.
#[derive(Debug, Clone)]
pub enum SuperValue {
    String(String),
    Int(usize),
}

/// A structural deep copy of a value.
pub fn vc_deep_clone(v: &ValueCollection) -> (r: ValueCollection)
    decreases *v, 0int,
{
    match v {
        ValueCollection::Error => ValueCollection::Error,
        ValueCollection::Array { items } => ValueCollection::Array {
            items: vc_vec_deep_clone(items),
        },
        ValueCollection::SingleVar(id) => ValueCollection::SingleVar(*id),
        ValueCollection::Single(t) => ValueCollection::Single(t.deep_clone()),
        ValueCollection::Tuple(items) => ValueCollection::Tuple(vc_vec_deep_clone(items)),
        ValueCollection::Composite { composite_name, fields } => ValueCollection::Composite {
            composite_name: composite_name.clone(),
            fields: vc_fields_deep_clone(fields),
        },
        ValueCollection::Super(s) => ValueCollection::Super(s.clone()),
    }
}

/// A structural deep copy of a value vector.
pub fn vc_vec_deep_clone(v: &Vec<ValueCollection>) -> (r: Vec<ValueCollection>)
    ensures
        r@.len() == v@.len(),
    decreases *v, 1int,
{
    let mut out: Vec<ValueCollection> = Vec::new();
    let mut i: usize = 0;
    while i < v.len()
        invariant
            0 <= i <= v@.len(),
            out@.len() == i,
        decreases v@.len() - i,
    {
        out.push(vc_deep_clone(&v[i]));
        i = i + 1;
    }
    out
}

/// A structural deep copy of a composite's field list.
pub fn vc_fields_deep_clone(v: &Vec<(String, ValueCollection)>) -> (r: Vec<
    (String, ValueCollection),
>)
    ensures
        r@.len() == v@.len(),
    decreases *v, 1int,
{
    let mut out: Vec<(String, ValueCollection)> = Vec::new();
    let mut i: usize = 0;
    while i < v.len()
        invariant
            0 <= i <= v@.len(),
            out@.len() == i,
        decreases v@.len() - i,
    {
        out.push(vc_entry_deep_clone(&v[i]));
        i = i + 1;
    }
    out
}

/// A structural deep copy of one field entry.
fn vc_entry_deep_clone(e: &(String, ValueCollection)) -> (r: (String, ValueCollection))
    decreases *e, 2int,
{
    (e.0.clone(), vc_deep_clone(&e.1))
}

impl Clone for ValueCollection {
    fn clone(&self) -> (r: Self) {
        vc_deep_clone(self)
    }
}

/// The variable scope: later entries shadow earlier ones.
pub struct VarScope {
    pub entries: Vec<(String, ValueCollection)>,
}

impl VarScope {
    pub fn new() -> (r: Self) {
        VarScope { entries: Vec::new() }
    }

    /// Binds or rebinds a name.
    pub fn insert(&mut self, name: String, value: ValueCollection) {
        self.entries.push((name, value));
    }

    /// The value bound to a name, most recent binding first.
    #[verifier::loop_isolation(false)]
    pub fn get(&self, name: &String) -> (r: Option<ValueCollection>) {
        let mut i: usize = self.entries.len();
        while i > 0
            invariant
                i <= self.entries@.len(),
            decreases i,
        {
            i = i - 1;
            if self.entries[i].0 == *name {
                return Some(vc_deep_clone(&self.entries[i].1));
            }
        }
        None
    }
}

impl ValueCollection {
    /// The helper integer inside, or a recorded error.
    pub fn get_as_int_or_error(self, compilation: &mut Compilation) -> (r: Option<usize>) {
        match self {
            ValueCollection::Super(SuperValue::Int(i)) => Some(i),
            _ => {
                compilation.add_error("Expected a helper integer value.", None);
                None
            },
        }
    }

    /// The array items inside, or a recorded error.
    pub fn get_as_array_or_error(self, compilation: &mut Compilation) -> (r: Option<
        Vec<ValueCollection>,
    >) {
        match self {
            ValueCollection::Array { items } => Some(items),
            _ => {
                compilation.add_error("Expected an array value.", None);
                None
            },
        }
    }

    /// The boolean tree inside a single value or a one-element tuple, or a
    /// recorded error.
    #[verifier::loop_isolation(false)]
    pub fn get_as_atom_tree_if_single_or_error(self, compilation: &mut Compilation) -> (r: Option<
        AtomTree,
    >)
        decreases self,
    {
        match self {
            ValueCollection::SingleVar(id) => Some(AtomTree::Variable { id }),
            ValueCollection::Single(tree) => Some(tree),
            ValueCollection::Tuple(t) => {
                if t.len() == 1 {
                    let mut t = t;
                    let first = t.remove(0);
                    first.get_as_atom_tree_if_single_or_error(compilation)
                } else {
                    compilation.add_error("Expected a simple boolean value.", None);
                    None
                }
            },
            _ => {
                compilation.add_error("Expected a simple boolean value.", None);
                None
            },
        }
    }

    /// The field with the given name, or a recorded error.
    #[verifier::loop_isolation(false)]
    pub fn access_identifier_or_error(&self, accessor_name: &String, compilation: &mut Compilation) -> (r: Option<ValueCollection>) {
        match self {
            ValueCollection::Composite { fields, .. } => {
                let mut i: usize = 0;
                while i < fields.len()
                    invariant
                        0 <= i <= fields@.len(),
                    decreases fields@.len() - i,
                {
                    if fields[i].0 == *accessor_name {
                        return Some(vc_deep_clone(&fields[i].1));
                    }
                    i = i + 1;
                }
                compilation.add_error("Field not found in composite type.", None);
                None
            },
            _ => {
                compilation.add_error(
                    "Tried to access a field on a value that doesn't have fields.",
                    None,
                );
                None
            },
        }
    }

    /// The array element at the given index, or a recorded error.
    pub fn access_indexed_or_error(&self, idx: &usize, compilation: &mut Compilation) -> (r:
        Option<ValueCollection>) {
        match self {
            ValueCollection::Array { items } => {
                if *idx < items.len() {
                    Some(vc_deep_clone(&items[*idx]))
                } else {
                    compilation.add_error("Index is out of bounds for the array.", None);
                    None
                }
            },
            _ => {
                compilation.add_error("Can't index a value of this type.", None);
                None
            },
        }
    }

    /// The tuple element at the given position, or a recorded error.
    pub fn access_index_or_error(&self, accessor_idx: &usize, compilation: &mut Compilation) -> (r:
        Option<ValueCollection>) {
        match self {
            ValueCollection::Tuple(fields) => {
                if *accessor_idx < fields.len() {
                    Some(vc_deep_clone(&fields[*accessor_idx]))
                } else {
                    compilation.add_error("Index is out of bounds for the tuple.", None);
                    None
                }
            },
            ValueCollection::Composite { .. } => {
                compilation.add_error("Indexing composite types is not supported.", None);
                None
            },
            _ => {
                compilation.add_error("Can't index a value of this type.", None);
                None
            },
        }
    }
}

/// The translator state: the known collections and composite types, the
/// atom tree being built, and the stack of enclosing conditions.
pub struct AtomTreeTranslator {
    pub collections: Vec<CollectionSyntax>,
    pub atom_tree: AtomRoot,
    pub composites: Vec<CompositeTypeSyntax>,
    pub condition_stack: Vec<AtomTree>,
}

impl ValueCollection {
    /// Replaces every bare tree in the value by a reference to a fresh
    /// definition holding it, recursively through tuples and composites.
    #[verifier::loop_isolation(false)]
    pub fn write_as_var(
        self,
        atom_tree_translate: &mut AtomTreeTranslator,
        compilation: &mut Compilation,
    ) -> (r: Self)
        requires
            old(atom_tree_translate).atom_tree.wf(),
        ensures
            final(atom_tree_translate).atom_tree.wf(),
        decreases self, 1int,
    {
        match self {
            ValueCollection::Single(atom_tree) => {
                if atom_tree_translate.atom_tree.variable_id < usize::MAX {
                    ValueCollection::SingleVar(
                        atom_tree_translate.atom_tree.define_new_var(atom_tree),
                    )
                } else {
                    compilation.add_error("Too many definitions.", None);
                    ValueCollection::Single(atom_tree)
                }
            },
            ValueCollection::Tuple(v) => ValueCollection::Tuple(
                write_all_as_var(v, atom_tree_translate, compilation),
            ),
            ValueCollection::Composite { composite_name, fields } => {
                ValueCollection::Composite {
                    composite_name,
                    fields: write_fields_as_var(fields, atom_tree_translate, compilation),
                }
            },
            other => other,
        }
    }
}

/// `write_as_var`, over every field of a composite, in order.
#[verifier::loop_isolation(false)]
fn write_fields_as_var(
    v: Vec<(String, ValueCollection)>,
    atom_tree_translate: &mut AtomTreeTranslator,
    compilation: &mut Compilation,
) -> (r: Vec<(String, ValueCollection)>)
    requires
        old(atom_tree_translate).atom_tree.wf(),
    ensures
        final(atom_tree_translate).atom_tree.wf(),
    decreases v, 3int,
{
    let ghost vv = v;
    let mut rem = v;
    let mut out: Vec<(String, ValueCollection)> = Vec::new();
    let ghost n: int = 0;
    while rem.len() > 0
        invariant
            atom_tree_translate.atom_tree.wf(),
            0 <= n,
            rem@.len() + n == vv@.len(),
            forall|k2: int| 0 <= k2 < rem@.len() ==> rem@[k2] == vv@[n + k2],
        decreases rem@.len(),
    {
        let e = rem.remove(0);
        proof {
            assert(e == vv@[n]);
            vstd::std_specs::vec::axiom_vec_index_decreases(vv, n);
            n = n + 1;
        }
        let ne = write_entry_as_var(e, atom_tree_translate, compilation);
        out.push(ne);
    }
    out
}

/// `write_as_var`, on one composite field.
fn write_entry_as_var(
    e: (String, ValueCollection),
    atom_tree_translate: &mut AtomTreeTranslator,
    compilation: &mut Compilation,
) -> (r: (String, ValueCollection))
    requires
        old(atom_tree_translate).atom_tree.wf(),
    ensures
        final(atom_tree_translate).atom_tree.wf(),
    decreases e, 2int,
{
    let (k, v) = e;
    let nv = v.write_as_var(atom_tree_translate, compilation);
    (k, nv)
}

/// `write_as_var`, over every element of a tuple, in order.
#[verifier::loop_isolation(false)]
fn write_all_as_var(
    v: Vec<ValueCollection>,
    atom_tree_translate: &mut AtomTreeTranslator,
    compilation: &mut Compilation,
) -> (r: Vec<ValueCollection>)
    requires
        old(atom_tree_translate).atom_tree.wf(),
    ensures
        final(atom_tree_translate).atom_tree.wf(),
    decreases v, 2int,
{
    let ghost vv = v;
    let mut rem = v;
    let mut out: Vec<ValueCollection> = Vec::new();
    let ghost n: int = 0;
    while rem.len() > 0
        invariant
            atom_tree_translate.atom_tree.wf(),
            0 <= n,
            rem@.len() + n == vv@.len(),
            forall|k2: int| 0 <= k2 < rem@.len() ==> rem@[k2] == vv@[n + k2],
        decreases rem@.len(),
    {
        let x = rem.remove(0);
        proof {
            assert(x == vv@[n]);
            vstd::std_specs::vec::axiom_vec_index_decreases(vv, n);
            n = n + 1;
        }
        let nx = x.write_as_var(atom_tree_translate, compilation);
        out.push(nx);
    }
    out
}

impl AtomTreeTranslator {
    /// The composite type with the given name, if declared.
    #[verifier::loop_isolation(false)]
    pub fn find_composite(&self, name: &String) -> (r: Option<&CompositeTypeSyntax>) {
        let mut i: usize = 0;
        while i < self.composites.len()
            invariant
                0 <= i <= self.composites@.len(),
            decreases self.composites@.len() - i,
        {
            if self.composites[i].name.value == *name {
                return Some(&self.composites[i]);
            }
            i = i + 1;
        }
        None
    }

    pub fn new(collections: Vec<CollectionSyntax>, composites: Vec<CompositeTypeSyntax>) -> (r:
        Self)
        ensures
            r.atom_tree.wf(),
            r.condition_stack@.len() == 0,
    {
        Self {
            collections,
            composites,
            atom_tree: AtomRoot::default(),
            condition_stack: Vec::new(),
        }
    }

    /// Translates every problem under its solution's seed labels and
    /// returns the built atom tree.
    #[verifier::loop_isolation(false)]
    #[verifier::loop_isolation(false)]
    pub fn convert(
        self,
        problems: Vec<SubstructureSyntax>,
        solutions: Vec<(String, SubCallSyntax)>,
        compilation: &mut Compilation,
        fuel: usize,
    ) -> (r: AtomRoot)
        requires
            self.atom_tree.wf(),
        ensures
            r.wf(),
    {
        let mut this = self;
        let mut rem = problems;
        while rem.len() > 0
            invariant
                this.atom_tree.wf(),
            decreases rem@.len(),
        {
            let problem = rem.remove(0);
            let mut labels: Vec<Label> = Vec::new();
            let mut found = false;
            let mut si: usize = 0;
            while si < solutions.len()
                invariant
                    0 <= si <= solutions@.len(),
                decreases solutions@.len() - si,
            {
                if !found && solutions[si].0 == problem.name.value {
                    match &solutions[si].1.application {
                        Some(ExpressionSyntax::Literal(l)) => {
                            labels.push(
                                match l.value {
                                    AtomType::True => Label::True,
                                    AtomType::False => Label::False,
                                },
                            );
                            found = true;
                        },
                        Some(ExpressionSyntax::Tuple(t)) => {
                            let mut ti: usize = 0;
                            while ti < t.len()
                                invariant
                                    0 <= ti <= t@.len(),
                                decreases t@.len() - ti,
                            {
                                match &t[ti] {
                                    ExpressionSyntax::Literal(l) => {
                                        labels.push(
                                            match l.value {
                                                AtomType::True => Label::True,
                                                AtomType::False => Label::False,
                                            },
                                        );
                                    },
                                    _ => {
                                        compilation.add_error(
                                            "Expected a tuple of literals.",
                                            None,
                                        );
                                        labels.push(Label::Null);
                                    },
                                }
                                ti = ti + 1;
                            }
                            found = true;
                        },
                        _ => {
                            compilation.add_warning(
                                "Internal error compiling a problem with its solution.",
                                None,
                            );
                        },
                    }
                }
                si = si + 1;
            }
            while labels.len() < problem.args.len()
                invariant
                    this.atom_tree.wf(),
                decreases problem.args@.len() - labels@.len(),
            {
                labels.push(Label::Null);
            }
            let mut input: Vec<ValueCollection> = Vec::new();
            let mut ai: usize = 0;
            while ai < problem.args.len()
                invariant
                    this.atom_tree.wf(),
                    0 <= ai <= problem.args@.len(),
                    labels@.len() >= problem.args@.len(),
                decreases problem.args@.len() - ai,
            {
                if this.atom_tree.variable_id < usize::MAX {
                    let in_var = this.atom_tree.define_new_var(
                        AtomTree::SeedLabel(labels[ai]),
                    );
                    input.push(ValueCollection::SingleVar(in_var));
                } else {
                    compilation.add_error("Too many definitions.", None);
                    input.push(ValueCollection::Error);
                }
                ai = ai + 1;
            }
            let _ = this.compile_substructure(&problem, input, compilation, fuel);
        }
        this.atom_tree
    }

    /// Binds the compiled inputs to the substructure's argument names.
    #[verifier::loop_isolation(false)]
    pub fn map_args(
        &mut self,
        input_args: Vec<ValueCollection>,
        map_args: &Vec<TypedIdentifierSyntax>,
        map: &mut VarScope,
        compilation: &mut Compilation,
    ) -> (r: Option<()>)
        requires
            old(self).atom_tree.wf(),
        ensures
            final(self).atom_tree.wf(),
    {
        if map_args.len() != input_args.len() {
            compilation.add_error(
                "The number of arguments does not match the substructure's parameters.",
                None,
            );
            return None;
        }
        let mut rem = input_args;
        let mut i: usize = 0;
        while rem.len() > 0
            invariant
                self.atom_tree.wf(),
                i + rem@.len() == map_args@.len(),
            decreases rem@.len(),
        {
            let v = rem.remove(0);
            let var = v.write_as_var(self, compilation);
            map.insert(map_args[i].name.value.clone(), var);
            i = i + 1;
        }
        Some(())
    }

    /// Wraps a value so that forcing it succeeds whenever any enclosing
    /// condition is unmet.
    #[verifier::loop_isolation(false)]
    pub fn mutate_value_to_enforce_at_condition(&self, value: AtomTree, t: AtomType) -> (r:
        AtomTree) {
        let mut value = value;
        let mut i: usize = 0;
        while i < self.condition_stack.len()
            invariant
                0 <= i <= self.condition_stack@.len(),
            decreases self.condition_stack@.len() - i,
        {
            let condition = self.condition_stack[i].deep_clone();
            value = match t {
                AtomType::True => {
                    let mut operands: Vec<AtomTree> = Vec::new();
                    operands.push(value);
                    operands.push(AtomTree::Not(Box::new(condition)));
                    AtomTree::Or(operands)
                },
                AtomType::False => {
                    let mut operands: Vec<AtomTree> = Vec::new();
                    operands.push(AtomTree::Not(Box::new(value)));
                    operands.push(AtomTree::Not(Box::new(condition)));
                    AtomTree::Not(Box::new(AtomTree::Or(operands)))
                },
            };
            i = i + 1;
        }
        value
    }

    /// Emits the restriction that a value must equal the given boolean,
    /// under the enclosing conditions; tuples are forced element by element.
    #[verifier::loop_isolation(false)]
    pub fn force(&mut self, value: ValueCollection, t: AtomType, compilation: &mut Compilation)
        requires
            old(self).atom_tree.wf(),
        ensures
            final(self).atom_tree.wf(),
        decreases value, 0int,
    {
        match value {
            ValueCollection::Single(v) => {
                let v = self.mutate_value_to_enforce_at_condition(v, t);
                self.atom_tree.define_restriction(v, t);
            },
            ValueCollection::SingleVar(id) => {
                let v = self.mutate_value_to_enforce_at_condition(
                    AtomTree::Variable { id },
                    t,
                );
                self.atom_tree.define_restriction(v, t);
            },
            ValueCollection::Tuple(values) => {
                self.force_all(values, t, compilation);
            },
            _ => {
                compilation.add_error("Can only force tuple types or single types.", None);
            },
        }
    }

    /// `force`, over every element of a tuple, in order.
    #[verifier::loop_isolation(false)]
    fn force_all(&mut self, values: Vec<ValueCollection>, t: AtomType, compilation: &mut Compilation)
        requires
            old(self).atom_tree.wf(),
        ensures
            final(self).atom_tree.wf(),
        decreases values, 1int,
    {
        let ghost vv = values;
        let mut rem = values;
        let ghost n: int = 0;
        while rem.len() > 0
            invariant
                self.atom_tree.wf(),
                0 <= n,
                rem@.len() + n == vv@.len(),
                forall|k2: int| 0 <= k2 < rem@.len() ==> rem@[k2] == vv@[n + k2],
            decreases rem@.len(),
        {
            let v = rem.remove(0);
            proof {
                assert(v == vv@[n]);
                vstd::std_specs::vec::axiom_vec_index_decreases(vv, n);
                n = n + 1;
            }
            self.force(v, t, compilation);
        }
    }

    /// Compiles one substructure call: binds the arguments, compiles the
    /// body, and compiles the optional result expression.
    #[verifier::loop_isolation(false)]
    pub fn compile_substructure(
        &mut self,
        substructure: &SubstructureSyntax,
        inputs: Vec<ValueCollection>,
        compilation: &mut Compilation,
        fuel: usize,
    ) -> (r: Option<ValueCollection>)
        requires
            old(self).atom_tree.wf(),
        ensures
            final(self).atom_tree.wf(),
        decreases fuel, 4int,
    {
        if fuel == 0 {
            compilation.add_error("The substructure call nesting is too deep.", None);
            return None;
        }
        let mut variables = VarScope::new();
        self.map_args(inputs, &substructure.args, &mut variables, compilation)?;
        let _ = self.compile_code_block(&substructure.code, &mut variables, compilation, fuel - 1);
        if let Some(res) = &substructure.result {
            self.compile_expression(res, &mut variables, compilation, fuel - 1)
        } else {
            Some(ValueCollection::Tuple(Vec::new()))
        }
    }

    /// A selector tree: the new value where the condition holds, the old
    /// value where it does not.
    #[verifier::loop_isolation(false)]
    pub fn select_if_conditions_met(
        select_if_true: AtomTree,
        select_if_false: AtomTree,
        condition: AtomTree,
    ) -> (r: AtomTree) {
        let selected_at_true = {
            let mut operands: Vec<AtomTree> = Vec::new();
            operands.push(AtomTree::Not(Box::new(condition.deep_clone())));
            operands.push(AtomTree::Not(Box::new(select_if_true)));
            AtomTree::Not(Box::new(AtomTree::Or(operands)))
        };
        let selected_at_false = {
            let mut operands: Vec<AtomTree> = Vec::new();
            operands.push(condition);
            operands.push(AtomTree::Not(Box::new(select_if_false)));
            AtomTree::Not(Box::new(AtomTree::Or(operands)))
        };
        let mut operands: Vec<AtomTree> = Vec::new();
        operands.push(selected_at_true);
        operands.push(selected_at_false);
        AtomTree::Or(operands)
    }

    /// The conjunction of every condition on the stack, as a tree.
    #[verifier::loop_isolation(false)]
    pub fn true_if_all_conditions_are_met(&self) -> (r: AtomTree) {
        let mut cur = AtomTree::AtomType { atom: AtomType::True };
        let mut i: usize = 0;
        while i < self.condition_stack.len()
            invariant
                0 <= i <= self.condition_stack@.len(),
            decreases self.condition_stack@.len() - i,
        {
            let condition = self.condition_stack[i].deep_clone();
            let mut operands: Vec<AtomTree> = Vec::new();
            operands.push(AtomTree::Not(Box::new(condition)));
            operands.push(AtomTree::Not(Box::new(cur)));
            cur = AtomTree::Not(Box::new(AtomTree::Or(operands)));
            i = i + 1;
        }
        cur
    }

    /// Compiles the statements of one block, in order.
    #[verifier::loop_isolation(false)]
    pub fn compile_code_block(
        &mut self,
        block: &Vec<CodeSyntax>,
        variables: &mut VarScope,
        compilation: &mut Compilation,
        fuel: usize,
    ) -> (r: Option<()>)
        requires
            old(self).atom_tree.wf(),
        ensures
            final(self).atom_tree.wf(),
        decreases fuel, 3int,
    {
        if fuel == 0 {
            compilation.add_error("The statement nesting is too deep.", None);
            return None;
        }
        let mut si: usize = 0;
        while si < block.len()
            invariant
                self.atom_tree.wf(),
                0 <= si <= block@.len(),
            decreases block@.len() - si,
        {
            let statement = &block[si];
            match statement {
                CodeSyntax::For { iterator_variable, iterator_amount, iterator_body } => {
                    let amount = match self.compile_expression(
                        iterator_amount,
                        variables,
                        compilation,
                        fuel - 1,
                    ) {
                        Some(v) => match v.get_as_int_or_error(compilation) {
                            Some(n) => n,
                            None => {
                                return None;
                            },
                        },
                        None => {
                            return None;
                        },
                    };
                    let mut i: usize = 0;
                    while i < amount
                        invariant
                            self.atom_tree.wf(),
                        decreases amount - i,
                    {
                        variables.insert(
                            iterator_variable.value.clone(),
                            ValueCollection::Super(SuperValue::Int(i)),
                        );
                        let _ = self.compile_code_block(
                            iterator_body,
                            variables,
                            compilation,
                            fuel - 1,
                        );
                        i = i + 1;
                    }
                },
                CodeSyntax::ReassignSyntax { variable, value } => {
                    let condition = self.true_if_all_conditions_are_met();
                    let new_value = self.compile_expression(
                        value,
                        variables,
                        compilation,
                        fuel - 1,
                    )?;
                    let trivially_true = match &condition {
                        AtomTree::AtomType { atom: AtomType::True } => true,
                        _ => false,
                    };
                    if trivially_true {
                        self.assign_access_expression(
                            variable,
                            new_value,
                            variables,
                            compilation,
                            fuel - 1,
                        )?;
                    } else {
                        let old_value = self.compile_access_expression(
                            variable,
                            variables,
                            compilation,
                            fuel - 1,
                        )?.get_as_atom_tree_if_single_or_error(compilation)?;
                        let new_value = new_value.get_as_atom_tree_if_single_or_error(
                            compilation,
                        )?;
                        let selected = Self::select_if_conditions_met(
                            new_value,
                            old_value,
                            condition,
                        );
                        self.assign_access_expression(
                            variable,
                            ValueCollection::Single(selected),
                            variables,
                            compilation,
                            fuel - 1,
                        )?;
                    }
                },
                CodeSyntax::If { condition, condition_true } => {
                    let condition = self.compile_expression(
                        condition,
                        variables,
                        compilation,
                        fuel - 1,
                    )?.write_as_var(self, compilation).get_as_atom_tree_if_single_or_error(
                        compilation,
                    )?;
                    self.condition_stack.push(condition);
                    let _ = self.compile_code_block(
                        condition_true,
                        variables,
                        compilation,
                        fuel - 1,
                    );
                    let _ = self.condition_stack.pop();
                },
                CodeSyntax::IfElse { condition, condition_true, condition_false } => {
                    let condition = self.compile_expression(
                        condition,
                        variables,
                        compilation,
                        fuel - 1,
                    )?.write_as_var(self, compilation).get_as_atom_tree_if_single_or_error(
                        compilation,
                    )?;
                    self.condition_stack.push(condition);
                    let _ = self.compile_code_block(
                        condition_true,
                        variables,
                        compilation,
                        fuel - 1,
                    );
                    let condition = match self.condition_stack.pop() {
                        Some(c) => c,
                        None => {
                            return None;
                        },
                    };
                    let inverted_condition = AtomTree::Not(Box::new(condition));
                    self.condition_stack.push(inverted_condition);
                    let _ = self.compile_code_block(
                        condition_false,
                        variables,
                        compilation,
                        fuel - 1,
                    );
                    let _ = self.condition_stack.pop();
                },
                CodeSyntax::Let { variable, value } => {
                    let value = match self.compile_expression(
                        value,
                        variables,
                        compilation,
                        fuel - 1,
                    ) {
                        Some(v) => v,
                        None => ValueCollection::Error,
                    };
                    let value = value.write_as_var(self, compilation);
                    variables.insert(variable.value.clone(), value);
                },
                CodeSyntax::Force { value, type_syntax } => {
                    let value = self.compile_expression(
                        value,
                        variables,
                        compilation,
                        fuel - 1,
                    )?;
                    let force_type = match type_syntax.as_atom() {
                        Some(t) => *t,
                        None => {
                            compilation.add_error(
                                "Forcing non-boolean types is not supported.",
                                None,
                            );
                            return None;
                        },
                    };
                    self.force(value, force_type, compilation);
                },
                CodeSyntax::Sub(sub) => {
                    let _ = self.compile_sub_call(sub, variables, compilation, fuel - 1);
                },
                CodeSyntax::Output { expression } => {
                    if compilation.settings.output_code_logs {
                        let value = self.compile_expression(
                            expression,
                            variables,
                            compilation,
                            fuel - 1,
                        )?;
                        let mut string_buffer: Vec<String> = Vec::new();
                        let mut value_buffer: Vec<AtomTree> = Vec::new();
                        let mut cur_str = String::new();
                        self.format(
                            &mut string_buffer,
                            &mut value_buffer,
                            value,
                            &mut cur_str,
                            compilation,
                        );
                        string_buffer.push(cur_str);
                        let condition = self.true_if_all_conditions_are_met();
                        self.atom_tree.value_actions.push(
                            (
                                condition,
                                crate::atom_tree::ValueAction::Output(
                                    string_buffer,
                                    value_buffer,
                                ),
                            ),
                        );
                    }
                },
            }
            si = si + 1;
        }
        Some(())
    }

    /// Renders a value for an output action: helper values become text,
    /// boolean trees become placeholders filled at export time.
    #[verifier::loop_isolation(false)]
    pub fn format(
        &mut self,
        string_buffer: &mut Vec<String>,
        value_buffer: &mut Vec<AtomTree>,
        value: ValueCollection,
        current_string: &mut String,
        compilation: &mut Compilation,
    )
        ensures
            *final(self) == *old(self),
        decreases value, 1int,
    {
        match value {
            ValueCollection::Error => {
                current_string.append("<Error>");
            },
            ValueCollection::Super(SuperValue::Int(i)) => {
                let digits = usize_to_string(i);
                current_string.append(digits.as_str());
            },
            ValueCollection::Super(SuperValue::String(s)) => {
                current_string.append(s.as_str());
            },
            ValueCollection::Array { items } => {
                current_string.append("[");
                self.format_all(string_buffer, value_buffer, items, current_string, compilation);
                current_string.append("]");
            },
            ValueCollection::Composite { composite_name, fields } => {
                current_string.append(composite_name.as_str());
                current_string.append(" { ");
                self.format_fields(string_buffer, value_buffer, fields, current_string, compilation);
                current_string.append(" } ");
            },
            ValueCollection::Single(tree) => {
                let mut push_string = String::new();
                core::mem::swap(current_string, &mut push_string);
                string_buffer.push(push_string);
                value_buffer.push(tree);
            },
            ValueCollection::SingleVar(v) => {
                let mut push_string = String::new();
                core::mem::swap(current_string, &mut push_string);
                string_buffer.push(push_string);
                value_buffer.push(AtomTree::Variable { id: v });
            },
            ValueCollection::Tuple(t) => {
                current_string.append("(");
                self.format_all(string_buffer, value_buffer, t, current_string, compilation);
                current_string.append(")");
            },
        }
    }
}

impl AtomTreeTranslator {
    /// `format`, over every element, in order, comma-separated.
    #[verifier::loop_isolation(false)]
    fn format_all(
        &mut self,
        string_buffer: &mut Vec<String>,
        value_buffer: &mut Vec<AtomTree>,
        values: Vec<ValueCollection>,
        current_string: &mut String,
        compilation: &mut Compilation,
    )
        ensures
            *final(self) == *old(self),
        decreases values, 2int,
    {
        let ghost vv = values;
        let mut rem = values;
        let ghost n: int = 0;
        while rem.len() > 0
            invariant
                *self == *old(self),
                0 <= n,
                rem@.len() + n == vv@.len(),
                forall|k2: int| 0 <= k2 < rem@.len() ==> rem@[k2] == vv@[n + k2],
            decreases rem@.len(),
        {
            let v = rem.remove(0);
            proof {
                assert(v == vv@[n]);
                vstd::std_specs::vec::axiom_vec_index_decreases(vv, n);
                n = n + 1;
            }
            self.format(string_buffer, value_buffer, v, current_string, compilation);
            current_string.append(", ");
        }
    }

    /// `format`, over every composite field, in order.
    #[verifier::loop_isolation(false)]
    fn format_fields(
        &mut self,
        string_buffer: &mut Vec<String>,
        value_buffer: &mut Vec<AtomTree>,
        fields: Vec<(String, ValueCollection)>,
        current_string: &mut String,
        compilation: &mut Compilation,
    )
        ensures
            *final(self) == *old(self),
        decreases fields, 3int,
    {
        let ghost vv = fields;
        let mut rem = fields;
        let ghost n: int = 0;
        while rem.len() > 0
            invariant
                *self == *old(self),
                0 <= n,
                rem@.len() + n == vv@.len(),
                forall|k2: int| 0 <= k2 < rem@.len() ==> rem@[k2] == vv@[n + k2],
            decreases rem@.len(),
        {
            let e = rem.remove(0);
            proof {
                assert(e == vv@[n]);
                vstd::std_specs::vec::axiom_vec_index_decreases(vv, n);
                n = n + 1;
            }
            self.format_entry(string_buffer, value_buffer, e, current_string, compilation);
        }
    }

    /// `format`, on one composite field.
    fn format_entry(
        &mut self,
        string_buffer: &mut Vec<String>,
        value_buffer: &mut Vec<AtomTree>,
        e: (String, ValueCollection),
        current_string: &mut String,
        compilation: &mut Compilation,
    )
        ensures
            *final(self) == *old(self),
        decreases e, 2int,
    {
        let (field, v) = e;
        current_string.append(field.as_str());
        current_string.append(": ");
        self.format(string_buffer, value_buffer, v, current_string, compilation);
        current_string.append(", ");
    }
}

/// The decimal digits of a number, most significant first.
pub fn usize_to_string(n: usize) -> (r: String) {
    let mut digits: Vec<char> = Vec::new();
    let mut rest = n;
    loop
        invariant_except_break
            true,
        decreases rest,
    {
        let d = rest % 10;
        let c: char = match d {
            0 => '0',
            1 => '1',
            2 => '2',
            3 => '3',
            4 => '4',
            5 => '5',
            6 => '6',
            7 => '7',
            8 => '8',
            _ => '9',
        };
        digits.push(c);
        rest = rest / 10;
        if rest == 0 {
            break ;
        }
    }
    let mut out = String::new();
    let mut i: usize = digits.len();
    while i > 0
        invariant
            i <= digits@.len(),
        decreases i,
    {
        i = i - 1;
        out.push(digits[i]);
    }
    out
}


impl AtomTreeTranslator {
    /// Compiles one call: a helper function on integers, a built-in boolean
    /// operator, or a substructure of a collection.
    #[verifier::loop_isolation(false)]
    pub fn compile_sub_call(
        &mut self,
        sub_call_syntax: &SubCallSyntax,
        variables: &mut VarScope,
        compilation: &mut Compilation,
        fuel: usize,
    ) -> (r: Option<ValueCollection>)
        requires
            old(self).atom_tree.wf(),
        ensures
            final(self).atom_tree.wf(),
        decreases fuel, 2int,
    {
        if fuel == 0 {
            compilation.add_error("The call nesting is too deep.", None);
            return None;
        }
        let application = match &sub_call_syntax.application {
            Some(application) => self.compile_expression(
                application,
                variables,
                compilation,
                fuel - 1,
            )?,
            None => ValueCollection::Tuple(Vec::new()),
        };
        match &sub_call_syntax.location {
            SubLocation::Super(name) => {
                let mut application = match application {
                    ValueCollection::Tuple(t) => t,
                    other => {
                        let mut v: Vec<ValueCollection> = Vec::new();
                        v.push(other);
                        v
                    },
                };
                let n = &name.value;
                if *n == "add".to_owned() {
                    if application.len() == 2 {
                        let a = application.pop()?.get_as_int_or_error(compilation)?;
                        let b = application.pop()?.get_as_int_or_error(compilation)?;
                        Some(
                            ValueCollection::Super(
                                SuperValue::Int(wrap_add(a, b)),
                            ),
                        )
                    } else {
                        compilation.add_error(
                            "Incorrect parameters for the add function; expected two integers.",
                            None,
                        );
                        None
                    }
                } else if *n == "sb".to_owned() {
                    if application.len() == 2 {
                        let b = application.pop()?.get_as_int_or_error(compilation)?;
                        let a = application.pop()?.get_as_int_or_error(compilation)?;
                        Some(
                            ValueCollection::Super(
                                SuperValue::Int(wrap_sub(a, b)),
                            ),
                        )
                    } else {
                        compilation.add_error(
                            "Incorrect parameters for the sb function; expected two integers.",
                            None,
                        );
                        None
                    }
                } else if *n == "mul".to_owned() {
                    if application.len() == 2 {
                        let a = application.pop()?.get_as_int_or_error(compilation)?;
                        let b = application.pop()?.get_as_int_or_error(compilation)?;
                        Some(
                            ValueCollection::Super(
                                SuperValue::Int(wrap_mul(a, b)),
                            ),
                        )
                    } else {
                        compilation.add_error(
                            "Incorrect parameters for the mul function; expected two integers.",
                            None,
                        );
                        None
                    }
                } else if *n == "div".to_owned() {
                    if application.len() == 2 {
                        let b = application.pop()?.get_as_int_or_error(compilation)?;
                        let a = application.pop()?.get_as_int_or_error(compilation)?;
                        if b == 0 {
                            compilation.add_error("Division by zero.", None);
                            return None;
                        }
                        Some(ValueCollection::Super(SuperValue::Int(a / b)))
                    } else {
                        compilation.add_error(
                            "Incorrect parameters for the div function; expected two integers.",
                            None,
                        );
                        None
                    }
                } else if *n == "mod".to_owned() {
                    if application.len() == 2 {
                        let b = application.pop()?.get_as_int_or_error(compilation)?;
                        let a = application.pop()?.get_as_int_or_error(compilation)?;
                        if b == 0 {
                            compilation.add_error("Division by zero.", None);
                            return None;
                        }
                        Some(ValueCollection::Super(SuperValue::Int(a % b)))
                    } else {
                        compilation.add_error(
                            "Incorrect parameters for the mod function; expected two integers.",
                            None,
                        );
                        None
                    }
                } else if *n == "eq".to_owned() {
                    if application.len() == 2 {
                        let a = application.pop()?.get_as_int_or_error(compilation)?;
                        let b = application.pop()?.get_as_int_or_error(compilation)?;
                        Some(
                            ValueCollection::Single(
                                AtomTree::AtomType {
                                    atom: if a == b {
                                        AtomType::True
                                    } else {
                                        AtomType::False
                                    },
                                },
                            ),
                        )
                    } else {
                        compilation.add_error(
                            "Incorrect parameters for the eq function; expected two integers.",
                            None,
                        );
                        None
                    }
                } else if *n == "ne".to_owned() {
                    if application.len() == 2 {
                        let a = application.pop()?.get_as_int_or_error(compilation)?;
                        let b = application.pop()?.get_as_int_or_error(compilation)?;
                        Some(
                            ValueCollection::Single(
                                AtomTree::AtomType {
                                    atom: if a != b {
                                        AtomType::True
                                    } else {
                                        AtomType::False
                                    },
                                },
                            ),
                        )
                    } else {
                        compilation.add_error(
                            "Incorrect parameters for the ne function; expected two integers.",
                            None,
                        );
                        None
                    }
                } else if *n == "grt".to_owned() {
                    if application.len() == 2 {
                        let b = application.pop()?.get_as_int_or_error(compilation)?;
                        let a = application.pop()?.get_as_int_or_error(compilation)?;
                        Some(
                            ValueCollection::Single(
                                AtomTree::AtomType {
                                    atom: if a > b {
                                        AtomType::True
                                    } else {
                                        AtomType::False
                                    },
                                },
                            ),
                        )
                    } else {
                        compilation.add_error(
                            "Incorrect parameters for the grt function; expected two integers.",
                            None,
                        );
                        None
                    }
                } else if *n == "grte".to_owned() {
                    if application.len() == 2 {
                        let b = application.pop()?.get_as_int_or_error(compilation)?;
                        let a = application.pop()?.get_as_int_or_error(compilation)?;
                        Some(
                            ValueCollection::Single(
                                AtomTree::AtomType {
                                    atom: if a >= b {
                                        AtomType::True
                                    } else {
                                        AtomType::False
                                    },
                                },
                            ),
                        )
                    } else {
                        compilation.add_error(
                            "Incorrect parameters for the grte function; expected two integers.",
                            None,
                        );
                        None
                    }
                } else if *n == "len".to_owned() {
                    if application.len() == 1 {
                        let a = application.pop()?.get_as_array_or_error(compilation)?;
                        Some(ValueCollection::Super(SuperValue::Int(a.len())))
                    } else {
                        compilation.add_error(
                            "Incorrect parameters for the len function; expected one array.",
                            None,
                        );
                        None
                    }
                } else if *n == "min".to_owned() {
                    if application.len() == 2 {
                        let b = application.pop()?.get_as_int_or_error(compilation)?;
                        let a = application.pop()?.get_as_int_or_error(compilation)?;
                        Some(
                            ValueCollection::Super(
                                SuperValue::Int(
                                    if a < b {
                                        a
                                    } else {
                                        b
                                    },
                                ),
                            ),
                        )
                    } else {
                        compilation.add_error(
                            "Incorrect parameters for the min function; expected two integers.",
                            None,
                        );
                        None
                    }
                } else if *n == "max".to_owned() {
                    if application.len() == 2 {
                        let b = application.pop()?.get_as_int_or_error(compilation)?;
                        let a = application.pop()?.get_as_int_or_error(compilation)?;
                        Some(
                            ValueCollection::Super(
                                SuperValue::Int(
                                    if a > b {
                                        a
                                    } else {
                                        b
                                    },
                                ),
                            ),
                        )
                    } else {
                        compilation.add_error(
                            "Incorrect parameters for the max function; expected two integers.",
                            None,
                        );
                        None
                    }
                } else {
                    compilation.add_error("Unknown helper function.", None);
                    None
                }
            },
            SubLocation::Atom(a) => {
                match a.value {
                    AtomSub::Not => {
                        let application = application.get_as_atom_tree_if_single_or_error(
                            compilation,
                        )?;
                        Some(ValueCollection::Single(AtomTree::Not(Box::new(application))))
                    },
                    AtomSub::Or => {
                        match application {
                            ValueCollection::Tuple(t) => {
                                if t.len() == 2 {
                                    let mut t = t;
                                    let application_b = t.pop()?
                                        .get_as_atom_tree_if_single_or_error(compilation)?;
                                    let application_a = t.pop()?
                                        .get_as_atom_tree_if_single_or_error(compilation)?;
                                    let mut operands: Vec<AtomTree> = Vec::new();
                                    operands.push(application_b);
                                    operands.push(application_a);
                                    Some(ValueCollection::Single(AtomTree::Or(operands)))
                                } else {
                                    compilation.add_error(
                                        "Incorrect parameters for the or operator; expected two booleans.",
                                        None,
                                    );
                                    None
                                }
                            },
                            _ => {
                                compilation.add_error(
                                    "Incorrect parameters for the or operator; expected two booleans.",
                                    None,
                                );
                                None
                            },
                        }
                    },
                }
            },
            SubLocation::Structure { collection, sub } => {
                let mut found_sub: Option<SubstructureSyntax> = None;
                let mut ci: usize = 0;
                while ci < self.collections.len()
                    invariant
                        0 <= ci <= self.collections@.len(),
                    decreases self.collections@.len() - ci,
                {
                    if self.collections[ci].name.value == collection.value {
                        let subs = &self.collections[ci].subs;
                        let mut sj: usize = 0;
                        while sj < subs.len()
                            invariant
                                0 <= sj <= subs@.len(),
                                ci < self.collections@.len(),
                            decreases subs@.len() - sj,
                        {
                            if subs[sj].name.value == sub.value {
                                found_sub = Some(subs[sj].clone());
                            }
                            sj = sj + 1;
                        }
                    }
                    ci = ci + 1;
                }
                let target = match found_sub {
                    Some(s) => s,
                    None => {
                        compilation.add_error(
                            "Unknown collection or substructure in a call.",
                            None,
                        );
                        return None;
                    },
                };
                let application = match application {
                    ValueCollection::Tuple(t) => t,
                    other => {
                        let mut v: Vec<ValueCollection> = Vec::new();
                        v.push(other);
                        v
                    },
                };
                self.compile_substructure(&target, application, compilation, fuel - 1)
            },
        }
    }

    /// Compiles one expression to a value.
    #[verifier::loop_isolation(false)]
    pub fn compile_expression(
        &mut self,
        value: &ExpressionSyntax,
        variables: &mut VarScope,
        compilation: &mut Compilation,
        fuel: usize,
    ) -> (r: Option<ValueCollection>)
        requires
            old(self).atom_tree.wf(),
        ensures
            final(self).atom_tree.wf(),
        decreases fuel, 1int,
    {
        if fuel == 0 {
            compilation.add_error("The expression nesting is too deep.", None);
            return None;
        }
        match value {
            ExpressionSyntax::Array(expressions) => {
                let mut items: Vec<ValueCollection> = Vec::new();
                let mut i: usize = 0;
                while i < expressions.len()
                    invariant
                        self.atom_tree.wf(),
                        0 <= i <= expressions@.len(),
                    decreases expressions@.len() - i,
                {
                    let item = match self.compile_expression(
                        &expressions[i],
                        variables,
                        compilation,
                        fuel - 1,
                    ) {
                        Some(v) => v,
                        None => ValueCollection::Error,
                    };
                    items.push(item);
                    i = i + 1;
                }
                Some(ValueCollection::Array { items })
            },
            ExpressionSyntax::LengthArray { count, base } => {
                let count = self.compile_expression(count, variables, compilation, fuel - 1)?;
                let expression = match self.compile_expression(
                    base,
                    variables,
                    compilation,
                    fuel - 1,
                ) {
                    Some(v) => v,
                    None => ValueCollection::Error,
                };
                match count {
                    ValueCollection::Super(SuperValue::Int(count)) => {
                        let mut items: Vec<ValueCollection> = Vec::new();
                        let mut i: usize = 0;
                        while i < count
                            invariant
                                0 <= i <= count,
                            decreases count - i,
                        {
                            items.push(vc_deep_clone(&expression));
                            i = i + 1;
                        }
                        Some(ValueCollection::Array { items })
                    },
                    _ => {
                        compilation.add_error("Expected integer.", None);
                        None
                    },
                }
            },
            ExpressionSyntax::Int(i) => Some(ValueCollection::Super(SuperValue::Int(i.value))),
            ExpressionSyntax::String(string) => Some(
                ValueCollection::Super(SuperValue::String(string.value.clone())),
            ),
            ExpressionSyntax::Access { base, field } => {
                let b = self.compile_access_expression(base, variables, compilation, fuel - 1)?;
                b.access_identifier_or_error(&field.value, compilation)
            },
            ExpressionSyntax::AccessIdx { base, idx } => {
                let b = self.compile_access_expression(base, variables, compilation, fuel - 1)?;
                b.access_index_or_error(&idx.value, compilation)
            },
            ExpressionSyntax::IndexOp { base, index } => {
                let idx = self.compile_expression(
                    index,
                    variables,
                    compilation,
                    fuel - 1,
                )?.get_as_int_or_error(compilation)?;
                let b = self.compile_access_expression(base, variables, compilation, fuel - 1)?;
                b.access_indexed_or_error(&idx, compilation)
            },
            ExpressionSyntax::CompositeConstructor { type_ident, field_assign } => {
                let composite = match self.find_composite(&type_ident.value) {
                    Some(s) => s.clone(),
                    None => {
                        compilation.add_error("Couldn't find the composite type.", None);
                        return None;
                    },
                };
                let mut missing_fields = composite.fields.clone();
                let mut assigned_fields: Vec<(String, ValueCollection)> = Vec::new();
                let mut fi: usize = 0;
                while fi < field_assign.len()
                    invariant
                        self.atom_tree.wf(),
                        0 <= fi <= field_assign@.len(),
                    decreases field_assign@.len() - fi,
                {
                    let fa = &field_assign[fi];
                    let mut found: Option<usize> = None;
                    let mut mi: usize = 0;
                    while mi < missing_fields.len()
                        invariant
                            0 <= mi <= missing_fields@.len(),
                            found is Some ==> found->Some_0 < missing_fields@.len(),
                        decreases missing_fields@.len() - mi,
                    {
                        if missing_fields[mi].name.value == fa.left.value {
                            found = Some(mi);
                        }
                        mi = mi + 1;
                    }
                    match found {
                        Some(pos) => {
                            let _ = missing_fields.remove(pos);
                            let v = self.compile_expression(
                                &fa.right,
                                variables,
                                compilation,
                                fuel - 1,
                            )?;
                            assigned_fields.push((fa.left.value.clone(), v));
                        },
                        None => {
                            compilation.add_error(
                                "The field has either already been assigned, or is not in the composite type.",
                                None,
                            );
                        },
                    }
                    fi = fi + 1;
                }
                if missing_fields.len() > 0 {
                    compilation.add_error(
                        "Some fields of the composite value haven't been assigned.",
                        None,
                    );
                    return None;
                }
                Some(
                    ValueCollection::Composite {
                        composite_name: type_ident.value.clone(),
                        fields: assigned_fields,
                    },
                )
            },
            ExpressionSyntax::Literal(atom) => Some(
                ValueCollection::Single(AtomTree::AtomType { atom: atom.value }),
            ),
            ExpressionSyntax::Variable(name) => {
                match variables.get(&name.value) {
                    Some(var) => Some(var),
                    None => {
                        compilation.add_error("Variable not found in the current scope.", None);
                        None
                    },
                }
            },
            ExpressionSyntax::Tuple(t) => {
                let mut vals: Vec<ValueCollection> = Vec::new();
                let mut i: usize = 0;
                while i < t.len()
                    invariant
                        self.atom_tree.wf(),
                        0 <= i <= t@.len(),
                    decreases t@.len() - i,
                {
                    let v = self.compile_expression(&t[i], variables, compilation, fuel - 1)?;
                    vals.push(v);
                    i = i + 1;
                }
                Some(ValueCollection::Tuple(vals))
            },
            ExpressionSyntax::Sub(sub_call_syntax) => {
                self.compile_sub_call(sub_call_syntax, variables, compilation, fuel - 1)
            },
        }
    }

    /// Reads the value an access expression names.
    #[verifier::loop_isolation(false)]
    pub fn compile_access_expression(
        &mut self,
        value: &ExpressionSyntax,
        variables: &mut VarScope,
        compilation: &mut Compilation,
        fuel: usize,
    ) -> (r: Option<ValueCollection>)
        requires
            old(self).atom_tree.wf(),
        ensures
            final(self).atom_tree.wf(),
        decreases fuel, 0int,
    {
        if fuel == 0 {
            compilation.add_error("The access nesting is too deep.", None);
            return None;
        }
        match value {
            ExpressionSyntax::Access { base, field } => {
                let b = self.compile_access_expression(base, variables, compilation, fuel - 1)?;
                b.access_identifier_or_error(&field.value, compilation)
            },
            ExpressionSyntax::AccessIdx { base, idx } => {
                let b = self.compile_access_expression(base, variables, compilation, fuel - 1)?;
                b.access_index_or_error(&idx.value, compilation)
            },
            ExpressionSyntax::IndexOp { base, index } => {
                let idx = self.compile_expression(
                    index,
                    variables,
                    compilation,
                    fuel - 1,
                )?.get_as_int_or_error(compilation)?;
                let b = self.compile_access_expression(base, variables, compilation, fuel - 1)?;
                b.access_indexed_or_error(&idx, compilation)
            },
            ExpressionSyntax::Variable(name) => {
                match variables.get(&name.value) {
                    Some(var) => Some(var),
                    None => {
                        compilation.add_error("Variable not found in the current scope.", None);
                        None
                    },
                }
            },
            _ => {
                compilation.add_error(
                    "Expected an access expression; this should have been caught during parsing.",
                    None,
                );
                None
            },
        }
    }

    /// Writes a new value to the place an access expression names.
    #[verifier::loop_isolation(false)]
    fn assign_access_expression(
        &mut self,
        place: &ExpressionSyntax,
        new_value: ValueCollection,
        variables: &mut VarScope,
        compilation: &mut Compilation,
        fuel: usize,
    ) -> (r: Option<()>)
        requires
            old(self).atom_tree.wf(),
        ensures
            final(self).atom_tree.wf(),
        decreases fuel, 0int,
    {
        if fuel == 0 {
            compilation.add_error("The access nesting is too deep.", None);
            return None;
        }
        match place {
            ExpressionSyntax::Variable(name) => {
                let known = match variables.get(&name.value) {
                    Some(_) => true,
                    None => false,
                };
                if !known {
                    compilation.add_error("Variable not found in the current scope.", None);
                    return None;
                }
                variables.insert(name.value.clone(), new_value);
                Some(())
            },
            ExpressionSyntax::Access { base, field } => {
                let container = self.compile_access_expression(
                    base,
                    variables,
                    compilation,
                    fuel - 1,
                )?;
                let updated = set_field(container, &field.value, new_value, compilation)?;
                self.assign_access_expression(base, updated, variables, compilation, fuel - 1)
            },
            ExpressionSyntax::AccessIdx { base, idx } => {
                let container = self.compile_access_expression(
                    base,
                    variables,
                    compilation,
                    fuel - 1,
                )?;
                let updated = set_tuple_index(container, idx.value, new_value, compilation)?;
                self.assign_access_expression(base, updated, variables, compilation, fuel - 1)
            },
            ExpressionSyntax::IndexOp { base, index } => {
                let idx = self.compile_expression(
                    index,
                    variables,
                    compilation,
                    fuel - 1,
                )?.get_as_int_or_error(compilation)?;
                let container = self.compile_access_expression(
                    base,
                    variables,
                    compilation,
                    fuel - 1,
                )?;
                let updated = set_array_index(container, idx, new_value, compilation)?;
                self.assign_access_expression(base, updated, variables, compilation, fuel - 1)
            },
            _ => {
                compilation.add_error(
                    "Expected an access expression; this should have been caught during parsing.",
                    None,
                );
                None
            },
        }
    }
}

/// The composite with one field replaced, or a recorded error.
#[verifier::loop_isolation(false)]
fn set_field(
    container: ValueCollection,
    name: &String,
    new_value: ValueCollection,
    compilation: &mut Compilation,
) -> (r: Option<ValueCollection>) {
    match container {
        ValueCollection::Composite { composite_name, fields } => {
            let mut out: Vec<(String, ValueCollection)> = Vec::new();
            let mut rem = fields;
            let mut replaced = false;
            while rem.len() > 0
                decreases rem@.len(),
            {
                let (k, v) = rem.remove(0);
                if !replaced && k == *name {
                    out.push((k, vc_deep_clone(&new_value)));
                    replaced = true;
                } else {
                    out.push((k, v));
                }
            }
            if !replaced {
                compilation.add_error("Field not found in composite type.", None);
                return None;
            }
            Some(ValueCollection::Composite { composite_name, fields: out })
        },
        _ => {
            compilation.add_error(
                "Tried to access a field on a value that doesn't have fields.",
                None,
            );
            None
        },
    }
}

/// The tuple with one position replaced, or a recorded error.
#[verifier::loop_isolation(false)]
fn set_tuple_index(
    container: ValueCollection,
    idx: usize,
    new_value: ValueCollection,
    compilation: &mut Compilation,
) -> (r: Option<ValueCollection>) {
    match container {
        ValueCollection::Tuple(fields) => {
            if idx >= fields.len() {
                compilation.add_error("Index is out of bounds for the tuple.", None);
                return None;
            }
            let mut out: Vec<ValueCollection> = Vec::new();
            let ghost total = fields@.len();
            let mut rem = fields;
            let mut i: usize = 0;
            while rem.len() > 0
                invariant
                    i + rem@.len() == total,
                decreases rem@.len(),
            {
                let v = rem.remove(0);
                if i == idx {
                    out.push(vc_deep_clone(&new_value));
                } else {
                    out.push(v);
                }
                i = i + 1;
            }
            Some(ValueCollection::Tuple(out))
        },
        _ => {
            compilation.add_error("Can't index a value of this type.", None);
            None
        },
    }
}

/// The array with one element replaced, or a recorded error.
#[verifier::loop_isolation(false)]
fn set_array_index(
    container: ValueCollection,
    idx: usize,
    new_value: ValueCollection,
    compilation: &mut Compilation,
) -> (r: Option<ValueCollection>) {
    match container {
        ValueCollection::Array { items } => {
            if idx >= items.len() {
                compilation.add_error("Index is out of bounds for the array.", None);
                return None;
            }
            let mut out: Vec<ValueCollection> = Vec::new();
            let ghost total = items@.len();
            let mut rem = items;
            let mut i: usize = 0;
            while rem.len() > 0
                invariant
                    i + rem@.len() == total,
                decreases rem@.len(),
            {
                let v = rem.remove(0);
                if i == idx {
                    out.push(vc_deep_clone(&new_value));
                } else {
                    out.push(v);
                }
                i = i + 1;
            }
            Some(ValueCollection::Array { items: out })
        },
        _ => {
            compilation.add_error("Can't index a value of this type.", None);
            None
        },
    }
}

/// Addition that wraps around at the integer boundary.
fn wrap_add(a: usize, b: usize) -> (r: usize)
    ensures
        a + b <= usize::MAX ==> r == a + b,
        a + b > usize::MAX ==> r == a + b - (usize::MAX as int + 1),
{
    if a <= usize::MAX - b {
        a + b
    } else {
        (a - (usize::MAX - b)) - 1
    }
}

/// Subtraction that wraps around at the integer boundary.
fn wrap_sub(a: usize, b: usize) -> (r: usize)
    ensures
        a >= b ==> r == a - b,
        a < b ==> r == a - b + (usize::MAX as int + 1),
{
    if a >= b {
        a - b
    } else {
        (usize::MAX - b) + a + 1
    }
}

/// Multiplication that wraps around at the integer boundary.
fn wrap_mul(a: usize, b: usize) -> (r: usize)
    ensures
        r as nat == (a as nat * b as nat) % (usize::MAX as nat + 1),
{
    let r = a.wrapping_mul(b);
    proof {
        assert(r == vstd::wrapping::usize_specs::wrapping_mul(a, b));
    }
    r
}

} // verus!
