//! Graph encoder: turns a simplified atom tree into a constrained undirected
//! graph whose valid 3-colorings correspond to satisfying assignments.

use vstd::prelude::*;

verus! {

/// A color of the 3-coloring reduction. `Null` is a sentinel meaning
/// "constraint already unsatisfiable / construction error", never a
/// legitimate final color.
#[derive(Debug, Default, PartialEq, Eq, Hash, Clone, Copy, Structural)]
pub enum Label {
    True,
    False,
    Neutral,
    #[default]
    Null,
}

impl Label {
    pub open spec fn spec_or(self, other: Self) -> Self {
        if self == Label::Null || other == Label::Null {
            Label::Null
        } else if self == Label::True || other == Label::True {
            Label::True
        } else {
            Label::False
        }
    }

    /// Boolean disjunction over `{True, False}`; `Null` is absorbing.
    /// `Neutral` operands are never valid inputs.
    pub fn or(&self, other: &Self) -> (r: Self)
        requires
            (*self == Label::True || *self == Label::False || *self == Label::Null),
            (*other == Label::True || *other == Label::False || *other == Label::Null),
        ensures
            r == self.spec_or(*other),
    {
        if *self == Label::Null || *other == Label::Null {
            return Label::Null;
        }
        match (self, other) {
            (Label::True, Label::True) => Label::True,
            (Label::False, Label::True) => Label::True,
            (Label::True, Label::False) => Label::True,
            _ => Label::False,
        }
    }

    pub open spec fn spec_and(self, other: Self) -> Self {
        if self == Label::Null || other == Label::Null {
            Label::Null
        } else if self == Label::True && other == Label::True {
            Label::True
        } else {
            Label::False
        }
    }

    /// Boolean conjunction over `{True, False}`; `Null` is absorbing.
    pub fn and(&self, other: &Self) -> (r: Self)
        requires
            (*self == Label::True || *self == Label::False || *self == Label::Null),
            (*other == Label::True || *other == Label::False || *other == Label::Null),
        ensures
            r == self.spec_and(*other),
    {
        if *self == Label::Null || *other == Label::Null {
            return Label::Null;
        }
        match (self, other) {
            (Label::True, Label::True) => Label::True,
            _ => Label::False,
        }
    }

    pub open spec fn spec_not(self) -> Self {
        match self {
            Label::True => Label::False,
            Label::False => Label::True,
            Label::Null => Label::Null,
            Label::Neutral => Label::Null,
        }
    }

    /// Boolean negation; `Null` maps to itself. `Neutral` cannot be inverted.
    pub fn not(&self) -> (r: Self)
        requires
            *self != Label::Neutral,
        ensures
            r == self.spec_not(),
    {
        match self {
            Label::True => Label::False,
            Label::False => Label::True,
            _ => Label::Null,
        }
    }
}


/// The set of colors a node may still legally take. `Null` is never a
/// member.
#[derive(Debug, Clone, Copy, PartialEq, Eq, Structural)]
pub struct LabelSet {
    pub has_true: bool,
    pub has_false: bool,
    pub has_neutral: bool,
}

impl LabelSet {
    /// Membership; `Null` is never contained.
    pub open spec fn contains(self, l: Label) -> bool {
        match l {
            Label::True => self.has_true,
            Label::False => self.has_false,
            Label::Neutral => self.has_neutral,
            Label::Null => false,
        }
    }

    /// All three legitimate colors.
    pub fn all() -> (r: Self)
        ensures
            r.has_true && r.has_false && r.has_neutral,
    {
        LabelSet { has_true: true, has_false: true, has_neutral: true }
    }

    /// Set intersection at the specification level.
    pub open spec fn intersect_spec(self, other: Self) -> LabelSet {
        LabelSet {
            has_true: self.has_true && other.has_true,
            has_false: self.has_false && other.has_false,
            has_neutral: self.has_neutral && other.has_neutral,
        }
    }

    /// Set intersection, member by member.
    pub fn intersect(self, other: Self) -> (r: Self)
        ensures
            r.has_true == (self.has_true && other.has_true),
            r.has_false == (self.has_false && other.has_false),
            r.has_neutral == (self.has_neutral && other.has_neutral),
    {
        LabelSet {
            has_true: self.has_true && other.has_true,
            has_false: self.has_false && other.has_false,
            has_neutral: self.has_neutral && other.has_neutral,
        }
    }

    /// Whether no color is left.
    pub fn is_empty(self) -> (r: bool)
        ensures
            r == (!self.has_true && !self.has_false && !self.has_neutral),
    {
        !self.has_true && !self.has_false && !self.has_neutral
    }
}

/// A graph vertex: its neighbor indices (an undirected edge is stored as two
/// directed entries), its intended label, and the colors still assignable.
#[derive(Debug)]
pub struct Node {
    pub connections: Vec<usize>,
    pub label: Label,
    pub label_whitelist: LabelSet,
}

/// Whether node `n` lists `j` among its neighbors.
pub open spec fn conn_contains(n: Node, j: int) -> bool {
    exists|k: int| 0 <= k < n.connections@.len() && (#[trigger] n.connections@[k]) as int == j
}

/// Every neighbor index of one node is below `bound`.
pub open spec fn node_in_bounds(n: Node, bound: int) -> bool {
    forall|k: int|
        0 <= k < n.connections@.len() ==> ((#[trigger] n.connections@[k]) as int) < bound
}

/// Every neighbor index of every node points into the arena.
pub open spec fn graph_closed(nodes: Seq<Node>) -> bool {
    forall|i: int| 0 <= i < nodes.len() ==> node_in_bounds(#[trigger] nodes[i], nodes.len() as int)
}

use crate::atom_tree::{AtomRoot, AtomTree, ValueAction};
use crate::compilation::Compilation;
use crate::diagnostic::DiagnosticType;
use crate::token::AtomType;

/// Compiles a simplified, marker-free atom root into the node arena of the
/// 3-coloring reduction.
pub struct AtomTreeCompiler {
    pub true_node: usize,
    pub false_node: usize,
    pub neutral_node: usize,
    pub tree: AtomRoot,
    pub nodes: Vec<Node>,
    pub variable_mappings: Vec<(usize, usize)>,
}

impl AtomTreeCompiler {
    /// Internal consistency: the basis indices and every recorded variable
    /// mapping point into the arena, and the arena is closed.
    pub open spec fn wf(&self) -> bool {
        &&& self.tree.wf()
        &&& self.nodes@.len() >= 3
        &&& self.true_node < self.nodes@.len()
        &&& self.false_node < self.nodes@.len()
        &&& self.neutral_node < self.nodes@.len()
        &&& forall|k: int|
            0 <= k < self.variable_mappings@.len() ==> (#[trigger] self.variable_mappings@[k]).1
                < self.nodes@.len() && (#[trigger] self.variable_mappings@[k]).1 >= 3
        &&& graph_closed(self.nodes@)
    }

    pub fn new(tree: AtomRoot) -> (r: Self)
        ensures
            r.tree == tree,
            r.nodes@.len() == 0,
            r.variable_mappings@.len() == 0,
    {
        AtomTreeCompiler {
            true_node: 0,
            false_node: 0,
            neutral_node: 0,
            nodes: Vec::new(),
            variable_mappings: Vec::new(),
            tree,
        }
    }
}

impl Node {
    /// Appends a fresh node with the intended label and a full whitelist and
    /// returns its index.
    pub fn new(compiler: &mut AtomTreeCompiler, label: Label) -> (r: usize)
        ensures
            final(compiler).nodes@.len() == old(compiler).nodes@.len() + 1,
            r == old(compiler).nodes@.len(),
            final(compiler).nodes@.drop_last() == old(compiler).nodes@,
            final(compiler).nodes@.last().label == label,
            final(compiler).nodes@.last().label_whitelist == (LabelSet {
                has_true: true,
                has_false: true,
                has_neutral: true,
            }),
            final(compiler).nodes@.last().connections@.len() == 0,
            final(compiler).tree == old(compiler).tree,
            final(compiler).variable_mappings@ == old(compiler).variable_mappings@,
            final(compiler).true_node == old(compiler).true_node,
            final(compiler).false_node == old(compiler).false_node,
            final(compiler).neutral_node == old(compiler).neutral_node,
    {
        let r = compiler.nodes.len();
        compiler.nodes.push(
            Node { connections: Vec::new(), label, label_whitelist: LabelSet::all() },
        );
        proof {
            assert(compiler.nodes@.drop_last() =~= old(compiler).nodes@);
        }
        r
    }

    /// Narrows the node's whitelist to its intersection with `whitelist`,
    /// reporting program-level unsatisfiability when nothing is left.
    pub fn force_whitelist(
        v: usize,
        compiler: &mut AtomTreeCompiler,
        whitelist: LabelSet,
        compilation: &mut Compilation,
    )
        requires
            v < old(compiler).nodes@.len(),
        ensures
            final(compiler).nodes@.len() == old(compiler).nodes@.len(),
            forall|i: int|
                0 <= i < old(compiler).nodes@.len() && i != v ==> final(compiler).nodes@[i] == old(compiler).nodes@[i],
            final(compiler).nodes@[v as int].label == old(compiler).nodes@[v as int].label,
            final(compiler).nodes@[v as int].connections@ == old(compiler).nodes@[v as int].connections@,
            forall|l: Label| #[trigger]
                final(compiler).nodes@[v as int].label_whitelist.contains(l) == (old(compiler).nodes@[v as int].label_whitelist.contains(l) && whitelist.contains(l)),
            final(compiler).tree == old(compiler).tree,
            final(compiler).variable_mappings@ == old(compiler).variable_mappings@,
            final(compiler).true_node == old(compiler).true_node,
            final(compiler).false_node == old(compiler).false_node,
            final(compiler).neutral_node == old(compiler).neutral_node,
            ({
                let wl0 = old(compiler).nodes@[v as int].label_whitelist;
                let empty = !((wl0.has_true && whitelist.has_true) || (wl0.has_false
                    && whitelist.has_false) || (wl0.has_neutral && whitelist.has_neutral));
                if empty {
                    diags_one_more(
                        old(compilation).diags(),
                        final(compilation).diags(),
                        DiagnosticType::Warning,
                    )
                } else {
                    final(compilation).diags() == old(compilation).diags()
                }
            }),
    {
        let current = compiler.nodes[v].label_whitelist;
        let narrowed = current.intersect(whitelist);
        if narrowed.is_empty() {
            let ghost dbefore = compilation.diags();
            compilation.add_warning("Node restrictions made graph unsolvable.", None);
            proof {
                assert forall|k: int|
                    0 <= k < dbefore.len() implies compilation.diags()[k] == dbefore[k] by {
                    assert(compilation.diags()[k] == compilation.diags().drop_last()[k]);
                }
            }
        }
        let mut node = Node { connections: Vec::new(), label: Label::Null, label_whitelist: narrowed };
        core::mem::swap(&mut node, &mut compiler.nodes[v]);
        let label = node.label;
        let connections = node.connections;
        compiler.nodes[v] = Node { connections, label, label_whitelist: narrowed };
        proof {
            assert forall|l: Label| #[trigger]
                compiler.nodes@[v as int].label_whitelist.contains(l) == (old(compiler).nodes@[v as int].label_whitelist.contains(l) && whitelist.contains(l)) by {}
        }
    }

    /// Narrows the node to the boolean colors.
    pub fn force_bool(v: usize, compiler: &mut AtomTreeCompiler, compilation: &mut Compilation)
        requires
            v < old(compiler).nodes@.len(),
        ensures
            final(compiler).nodes@.len() == old(compiler).nodes@.len(),
            forall|i: int|
                0 <= i < old(compiler).nodes@.len() && i != v ==> final(compiler).nodes@[i] == old(compiler).nodes@[i],
            final(compiler).nodes@[v as int].label == old(compiler).nodes@[v as int].label,
            final(compiler).nodes@[v as int].connections@ == old(compiler).nodes@[v as int].connections@,
            forall|l: Label| #[trigger]
                final(compiler).nodes@[v as int].label_whitelist.contains(l) == (old(compiler).nodes@[v as int].label_whitelist.contains(l) && (l == Label::True || l
                    == Label::False)),
            final(compiler).tree == old(compiler).tree,
            final(compiler).variable_mappings@ == old(compiler).variable_mappings@,
            final(compiler).true_node == old(compiler).true_node,
            final(compiler).false_node == old(compiler).false_node,
            final(compiler).neutral_node == old(compiler).neutral_node,
            ({
                let wl0 = old(compiler).nodes@[v as int].label_whitelist;
                if !wl0.has_true && !wl0.has_false {
                    diags_one_more(
                        old(compilation).diags(),
                        final(compilation).diags(),
                        DiagnosticType::Warning,
                    )
                } else {
                    final(compilation).diags() == old(compilation).diags()
                }
            }),
    {
        Self::force_whitelist(
            v,
            compiler,
            LabelSet { has_true: true, has_false: true, has_neutral: false },
            compilation,
        );
    }

    /// Narrows the node to the boolean colors plus neutral.
    pub fn force_bool_plus_neutral(
        v: usize,
        compiler: &mut AtomTreeCompiler,
        compilation: &mut Compilation,
    )
        requires
            v < old(compiler).nodes@.len(),
        ensures
            final(compiler).nodes@.len() == old(compiler).nodes@.len(),
            forall|i: int|
                0 <= i < old(compiler).nodes@.len() && i != v ==> final(compiler).nodes@[i] == old(compiler).nodes@[i],
            final(compiler).nodes@[v as int].label == old(compiler).nodes@[v as int].label,
            final(compiler).nodes@[v as int].connections@ == old(compiler).nodes@[v as int].connections@,
            forall|l: Label| #[trigger]
                final(compiler).nodes@[v as int].label_whitelist.contains(l) == old(compiler).nodes@[v as int].label_whitelist.contains(l),
            final(compiler).tree == old(compiler).tree,
            final(compiler).variable_mappings@ == old(compiler).variable_mappings@,
            final(compiler).true_node == old(compiler).true_node,
            final(compiler).false_node == old(compiler).false_node,
            final(compiler).neutral_node == old(compiler).neutral_node,
            ({
                let wl0 = old(compiler).nodes@[v as int].label_whitelist;
                if !wl0.has_true && !wl0.has_false && !wl0.has_neutral {
                    diags_one_more(
                        old(compilation).diags(),
                        final(compilation).diags(),
                        DiagnosticType::Warning,
                    )
                } else {
                    final(compilation).diags() == old(compilation).diags()
                }
            }),
    {
        Self::force_whitelist(v, compiler, LabelSet::all(), compilation);
        proof {
            assert forall|l: Label| #[trigger]
                compiler.nodes@[v as int].label_whitelist.contains(l) == old(compiler).nodes@[v as int].label_whitelist.contains(l) by {
                assert(compiler.nodes@[v as int].label_whitelist.contains(l) == (old(compiler).nodes@[v as int].label_whitelist.contains(l) && LabelSet {
                    has_true: true,
                    has_false: true,
                    has_neutral: true,
                }.contains(l)));
            }
        }
    }

    /// Adds the undirected edge between `a` and `b`; two adjacent nodes
    /// intended to take the same legitimate color indicate a construction
    /// defect and are reported.
    pub fn connect(
        a: usize,
        b: usize,
        compiler: &mut AtomTreeCompiler,
        compilation: &mut Compilation,
    )
        requires
            a < old(compiler).nodes@.len(),
            b < old(compiler).nodes@.len(),
            a != b,
        ensures
            final(compiler).nodes@.len() == old(compiler).nodes@.len(),
            forall|i: int|
                0 <= i < old(compiler).nodes@.len() && i != a && i != b ==> final(compiler).nodes@[i] == old(compiler).nodes@[i],
            final(compiler).nodes@[a as int].connections@ == old(compiler).nodes@[a as int].connections@.push(b),
            final(compiler).nodes@[b as int].connections@ == old(compiler).nodes@[b as int].connections@.push(a),
            final(compiler).nodes@[a as int].label == old(compiler).nodes@[a as int].label,
            final(compiler).nodes@[b as int].label == old(compiler).nodes@[b as int].label,
            final(compiler).nodes@[a as int].label_whitelist == old(compiler).nodes@[a as int].label_whitelist,
            final(compiler).nodes@[b as int].label_whitelist == old(compiler).nodes@[b as int].label_whitelist,
            final(compiler).tree == old(compiler).tree,
            final(compiler).variable_mappings@ == old(compiler).variable_mappings@,
            final(compiler).true_node == old(compiler).true_node,
            final(compiler).false_node == old(compiler).false_node,
            final(compiler).neutral_node == old(compiler).neutral_node,
            ({
                let la = old(compiler).nodes@[a as int].label;
                let lb = old(compiler).nodes@[b as int].label;
                if la != Label::Null && la == lb {
                    diags_one_more(
                        old(compilation).diags(),
                        final(compilation).diags(),
                        DiagnosticType::Warning,
                    )
                } else {
                    final(compilation).diags() == old(compilation).diags()
                }
            }),
    {
        let mut na = Node { connections: Vec::new(), label: Label::Null, label_whitelist: LabelSet::all() };
        core::mem::swap(&mut na, &mut compiler.nodes[a]);
        na.connections.push(b);
        core::mem::swap(&mut na, &mut compiler.nodes[a]);
        let mut nb = Node { connections: Vec::new(), label: Label::Null, label_whitelist: LabelSet::all() };
        core::mem::swap(&mut nb, &mut compiler.nodes[b]);
        nb.connections.push(a);
        core::mem::swap(&mut nb, &mut compiler.nodes[b]);
        let la = compiler.nodes[a].label;
        let lb = compiler.nodes[b].label;
        if la != Label::Null && la == lb {
            let ghost dbefore = compilation.diags();
            compilation.add_warning("Compilation error lead to not-solved graph.", None);
            proof {
                assert forall|k: int|
                    0 <= k < dbefore.len() implies compilation.diags()[k] == dbefore[k] by {
                    assert(compilation.diags()[k] == compilation.diags().drop_last()[k]);
                }
            }
        }
    }
}


/// Boolean disjunction of two intended labels, `Null` when either input is
/// not a definite boolean.
pub open spec fn or_total(a: Label, b: Label) -> Label {
    if (a == Label::True || a == Label::False) && (b == Label::True || b == Label::False) {
        if a == Label::True || b == Label::True {
            Label::True
        } else {
            Label::False
        }
    } else {
        Label::Null
    }
}

/// The intended label of the gadget's first center node.
pub open spec fn or_c1(res: Label) -> Label {
    match res {
        Label::True => Label::Neutral,
        Label::False => Label::True,
        _ => Label::Null,
    }
}

/// The intended label of the gadget's first input-side node.
pub open spec fn or_a1(res: Label, lb: Label) -> Label {
    if res == Label::Null {
        Label::Null
    } else if res == Label::True && lb == Label::False {
        Label::False
    } else {
        Label::Neutral
    }
}

/// The intended label of the gadget's second input-side node.
pub open spec fn or_b1(res: Label, lb: Label) -> Label {
    if res == Label::Null {
        Label::Null
    } else if res == Label::True && lb == Label::False {
        Label::Neutral
    } else if res == Label::False {
        Label::True
    } else {
        Label::False
    }
}

/// The intended label of the gadget's second center node.
pub open spec fn or_c2(res: Label) -> Label {
    match res {
        Label::False => Label::Neutral,
        Label::True => Label::False,
        _ => Label::Null,
    }
}

/// Diagnostics only grow, and the records already present are kept.
pub open spec fn diags_grow(old_d: Seq<crate::diagnostic::Diagnostic>, new_d: Seq<crate::diagnostic::Diagnostic>) -> bool {
    &&& new_d.len() >= old_d.len()
    &&& forall|k: int| 0 <= k < old_d.len() ==> new_d[k] == old_d[k]
}

/// Exactly one record of the given severity was appended.
pub open spec fn diags_one_more(
    old_d: Seq<crate::diagnostic::Diagnostic>,
    new_d: Seq<crate::diagnostic::Diagnostic>,
    severity: DiagnosticType,
) -> bool {
    &&& new_d.len() == old_d.len() + 1
    &&& forall|k: int| 0 <= k < old_d.len() ==> new_d[k] == old_d[k]
    &&& new_d.last().diagnostic_type == severity
}

/// The whitelist a seed label confers: exactly its own color, or all three
/// when the seed is unknown.
pub open spec fn seed_whitelist(l: Label) -> LabelSet {
    match l {
        Label::True => LabelSet { has_true: true, has_false: false, has_neutral: false },
        Label::False => LabelSet { has_true: false, has_false: true, has_neutral: false },
        _ => LabelSet { has_true: true, has_false: true, has_neutral: true },
    }
}

/// Boolean negation of an intended label; `Null` for a non-boolean input.
pub open spec fn not_total(l: Label) -> Label {
    match l {
        Label::True => Label::False,
        Label::False => Label::True,
        _ => Label::Null,
    }
}

/// Whether the memo table maps the variable id to a node.
pub open spec fn has_mapping(maps: Seq<(usize, usize)>, id: int) -> bool {
    exists|k: int| 0 <= k < maps.len() && (#[trigger] maps[k]).0 as int == id
}

/// The node the memo table's first entry for the id records.
pub open spec fn first_mapping(maps: Seq<(usize, usize)>, id: int) -> usize
    decreases maps.len(),
{
    if maps.len() == 0 {
        0
    } else if maps[0].0 as int == id {
        maps[0].1
    } else {
        first_mapping(maps.drop_first(), id)
    }
}

/// A hit with an untouched prefix is the first mapping.
proof fn lemma_first_mapping(maps: Seq<(usize, usize)>, mi: int)
    requires
        0 <= mi < maps.len(),
        forall|k: int| 0 <= k < mi ==> (#[trigger] maps[k]).0 != maps[mi].0,
    ensures
        first_mapping(maps, maps[mi].0 as int) == maps[mi].1,
    decreases mi,
{
    if mi == 0 {
    } else {
        assert(maps[0].0 != maps[mi].0);
        assert forall|k: int|
            0 <= k < mi - 1 implies (#[trigger] maps.drop_first()[k]).0 != maps.drop_first()[mi
            - 1].0 by {
            assert(maps.drop_first()[k] == maps[k + 1]);
        }
        assert(maps.drop_first()[mi - 1] == maps[mi]);
        lemma_first_mapping(maps.drop_first(), mi - 1);
    }
}

/// Whether the id names a seed-label definition.
pub open spec fn seed_def(defs: Seq<crate::atom_tree::VarDefinition>, id: int) -> bool {
    exists|j: int|
        0 <= j < defs.len() && (#[trigger] defs[j]).id as int == id && defs[j].definition@ is Seed
}

/// Whether the id names a constant definition.
pub open spec fn const_def(defs: Seq<crate::atom_tree::VarDefinition>, id: int) -> bool {
    exists|j: int|
        0 <= j < defs.len() && (#[trigger] defs[j]).id as int == id && defs[j].definition@ is Const
}

/// The seed label of the id's definition; meaningful under `seed_def`.
pub open spec fn seed_label_of(defs: Seq<crate::atom_tree::VarDefinition>, id: int) -> Label {
    let j = choose|j: int|
        0 <= j < defs.len() && (#[trigger] defs[j]).id as int == id && defs[j].definition@ is Seed;
    defs[j].definition@->Seed_0
}

/// Every seed definition either survives in the table or has been compiled
/// into the memo: nothing with provenance is lost by lowering.
pub open spec fn seeds_persist(
    defs0: Seq<crate::atom_tree::VarDefinition>,
    defs1: Seq<crate::atom_tree::VarDefinition>,
    maps1: Seq<(usize, usize)>,
) -> bool {
    forall|id2: int|
        #[trigger] seed_def(defs0, id2) ==> (seed_def(defs1, id2) && seed_label_of(defs1, id2)
            == seed_label_of(defs0, id2)) || has_mapping(maps1, id2)
}

impl AtomTreeCompiler {
    /// Realizes a binary disjunction with the fixed five-node gadget: the
    /// five fresh nodes take exactly the labels of the gadget table for the
    /// intended labels of the inputs, carry the prescribed whitelists, and
    /// are wired with the nine prescribed edges. Returns the output node.
    #[verifier::loop_isolation(false)]
    #[verifier::rlimit(100)]
    pub fn emit_or_gadget(&mut self, a: usize, b: usize, compilation: &mut Compilation) -> (r:
        usize)
        requires
            old(self).wf(),
            a < old(self).nodes@.len(),
            b < old(self).nodes@.len(),
            a >= 3,
            b >= 3,
        ensures
            final(self).wf(),
            final(self).nodes@.len() == old(self).nodes@.len() + 5,
            r == old(self).nodes@.len() + 4,
            forall|i: int| 0 <= i < 3 ==> final(self).nodes@[i] == old(self).nodes@[i],
            ({
                let la = old(self).nodes@[a as int].label;
                let lb = old(self).nodes@[b as int].label;
                let res = or_total(la, lb);
                let base = old(self).nodes@.len() as int;
                &&& final(self).nodes@[base].label == or_c1(res)
                &&& final(self).nodes@[base + 1].label == or_a1(res, lb)
                &&& final(self).nodes@[base + 2].label == or_b1(res, lb)
                &&& final(self).nodes@[base + 3].label == or_c2(res)
                &&& final(self).nodes@[base + 4].label == res
                &&& final(self).nodes@[base].label_whitelist == (LabelSet {
                    has_true: true,
                    has_false: true,
                    has_neutral: true,
                })
                &&& final(self).nodes@[base + 1].label_whitelist == (LabelSet {
                    has_true: true,
                    has_false: true,
                    has_neutral: true,
                })
                &&& final(self).nodes@[base + 2].label_whitelist == (LabelSet {
                    has_true: true,
                    has_false: true,
                    has_neutral: true,
                })
                &&& final(self).nodes@[base + 3].label_whitelist == (LabelSet {
                    has_true: false,
                    has_false: true,
                    has_neutral: true,
                })
                &&& final(self).nodes@[base + 4].label_whitelist == (LabelSet {
                    has_true: true,
                    has_false: true,
                    has_neutral: false,
                })
                &&& conn_contains(final(self).nodes@[a as int], base)
                &&& conn_contains(final(self).nodes@[b as int], base)
                &&& conn_contains(final(self).nodes@[a as int], base + 1)
                &&& conn_contains(final(self).nodes@[b as int], base + 2)
                &&& conn_contains(final(self).nodes@[base + 1], base + 2)
                &&& conn_contains(final(self).nodes@[base + 3], base)
                &&& conn_contains(final(self).nodes@[base + 4], base + 3)
                &&& conn_contains(final(self).nodes@[base + 4], base + 1)
                &&& conn_contains(final(self).nodes@[base + 4], base + 2)
                &&& final(self).nodes@[a as int].label == la
                &&& final(self).nodes@[b as int].label == lb
            }),
            final(self).tree == old(self).tree,
            final(self).variable_mappings@ == old(self).variable_mappings@,
            final(self).true_node == old(self).true_node,
            final(self).false_node == old(self).false_node,
            final(self).neutral_node == old(self).neutral_node,
            final(self).tree.definitions@.len() == old(self).tree.definitions@.len(),
            diags_grow(old(compilation).diags(), final(compilation).diags()),
    {
        let la = self.nodes[a].label;
        let lb = self.nodes[b].label;
        let a_bool = la == Label::True || la == Label::False;
        let b_bool = lb == Label::True || lb == Label::False;
        let res = if a_bool && b_bool {
            if la == Label::True || lb == Label::True {
                Label::True
            } else {
                Label::False
            }
        } else {
            Label::Null
        };
        let c_1 = Node::new(self, match res {
            Label::Null => Label::Null,
            Label::False => Label::True,
            Label::True => Label::Neutral,
            Label::Neutral => Label::Null,
        });
        Node::force_bool_plus_neutral(c_1, self, compilation);
        Node::connect(a, c_1, self, compilation);
        Node::connect(b, c_1, self, compilation);
        let a_1 = Node::new(self, match (res, lb) {
            (Label::Null, _) => Label::Null,
            (Label::True, Label::False) => Label::False,
            _ => Label::Neutral,
        });
        Node::force_bool_plus_neutral(a_1, self, compilation);
        Node::connect(a, a_1, self, compilation);
        let b_1 = Node::new(self, match (res, lb) {
            (Label::Null, _) => Label::Null,
            (Label::True, Label::False) => Label::Neutral,
            (Label::False, _) => Label::True,
            _ => Label::False,
        });
        Node::force_bool_plus_neutral(b_1, self, compilation);
        Node::connect(b, b_1, self, compilation);
        Node::connect(a_1, b_1, self, compilation);
        let c_2 = Node::new(self, match res {
            Label::False => Label::Neutral,
            Label::True => Label::False,
            _ => Label::Null,
        });
        Node::force_whitelist(
            c_2,
            self,
            LabelSet { has_true: false, has_false: true, has_neutral: true },
            compilation,
        );
        Node::connect(c_2, c_1, self, compilation);
        let output = Node::new(self, res);
        Node::force_bool(output, self, compilation);
        Node::connect(output, c_2, self, compilation);
        Node::connect(output, a_1, self, compilation);
        Node::connect(output, b_1, self, compilation);
        proof {
            let whole = self.nodes@;
            assert forall|i: int|
                0 <= i < whole.len() implies node_in_bounds(#[trigger] whole[i], whole.len() as int) by {
                if i < old(self).nodes@.len() && i != a && i != b {
                    assert(whole[i] == old(self).nodes@[i]);
                    assert(node_in_bounds(old(self).nodes@[i], old(self).nodes@.len() as int));
                }
            }
            let olen = old(self).nodes@[a as int].connections@.len() as int;
            let blen = old(self).nodes@[b as int].connections@.len() as int;
            assert(conn_contains(self.nodes@[a as int], c_1 as int)) by {
                assert(self.nodes@[a as int].connections@[olen] == c_1);
            }
            assert(conn_contains(self.nodes@[b as int], c_1 as int)) by {
                if a == b {
                    assert(self.nodes@[b as int].connections@[olen] == c_1);
                } else {
                    assert(self.nodes@[b as int].connections@[blen] == c_1);
                }
            }
            assert(conn_contains(self.nodes@[a as int], a_1 as int)) by {
                if a == b {
                    assert(self.nodes@[a as int].connections@[olen + 2] == a_1);
                } else {
                    assert(self.nodes@[a as int].connections@[olen + 1] == a_1);
                }
            }
            assert(conn_contains(self.nodes@[b as int], b_1 as int)) by {
                if a == b {
                    assert(self.nodes@[b as int].connections@[olen + 3] == b_1);
                } else {
                    assert(self.nodes@[b as int].connections@[blen + 1] == b_1);
                }
            }
            assert(conn_contains(self.nodes@[a_1 as int], b_1 as int)) by {
                assert(self.nodes@[a_1 as int].connections@[1] == b_1);
            }
            assert(conn_contains(self.nodes@[c_2 as int], c_1 as int)) by {
                assert(self.nodes@[c_2 as int].connections@[0] == c_1);
            }
            assert(conn_contains(self.nodes@[output as int], c_2 as int)) by {
                assert(self.nodes@[output as int].connections@[0] == c_2);
            }
            assert(conn_contains(self.nodes@[output as int], a_1 as int)) by {
                assert(self.nodes@[output as int].connections@[1] == a_1);
            }
            assert(conn_contains(self.nodes@[output as int], b_1 as int)) by {
                assert(self.nodes@[output as int].connections@[2] == b_1);
            }
            let wl_bn = LabelSet { has_true: true, has_false: true, has_neutral: true };
            assert(self.nodes@[c_1 as int].label_whitelist == wl_bn) by {
                assert(self.nodes@[c_1 as int].label_whitelist.contains(Label::True));
                assert(self.nodes@[c_1 as int].label_whitelist.contains(Label::False));
                assert(self.nodes@[c_1 as int].label_whitelist.contains(Label::Neutral));
            }
            assert(self.nodes@[a_1 as int].label_whitelist == wl_bn) by {
                assert(self.nodes@[a_1 as int].label_whitelist.contains(Label::True));
                assert(self.nodes@[a_1 as int].label_whitelist.contains(Label::False));
                assert(self.nodes@[a_1 as int].label_whitelist.contains(Label::Neutral));
            }
            assert(self.nodes@[b_1 as int].label_whitelist == wl_bn) by {
                assert(self.nodes@[b_1 as int].label_whitelist.contains(Label::True));
                assert(self.nodes@[b_1 as int].label_whitelist.contains(Label::False));
                assert(self.nodes@[b_1 as int].label_whitelist.contains(Label::Neutral));
            }
            assert(self.nodes@[c_2 as int].label_whitelist == (LabelSet {
                has_true: false,
                has_false: true,
                has_neutral: true,
            })) by {
                assert(!self.nodes@[c_2 as int].label_whitelist.contains(Label::True));
                assert(self.nodes@[c_2 as int].label_whitelist.contains(Label::False));
                assert(self.nodes@[c_2 as int].label_whitelist.contains(Label::Neutral));
            }
            assert(self.nodes@[output as int].label_whitelist == (LabelSet {
                has_true: true,
                has_false: true,
                has_neutral: false,
            })) by {
                assert(self.nodes@[output as int].label_whitelist.contains(Label::True));
                assert(self.nodes@[output as int].label_whitelist.contains(Label::False));
                assert(!self.nodes@[output as int].label_whitelist.contains(Label::Neutral));
            }
        }
        output
    }
}

/// Soundness of the disjunction gadget: with both inputs colored by definite
/// booleans, any coloring of the five gadget nodes that respects the
/// whitelists and makes every gadget edge bichromatic colors the output node
/// with the boolean disjunction of the inputs. Together with the edges the
/// whitelist completion adds, this makes the valid 3-colorings of the gadget
/// match the gadget table exactly on the output.
pub proof fn lemma_or_gadget_soundness(
    a: Label,
    b: Label,
    c1: Label,
    a1: Label,
    b1: Label,
    c2: Label,
    out: Label,
)
    requires
        a == Label::True || a == Label::False,
        b == Label::True || b == Label::False,
        c1 == Label::True || c1 == Label::False || c1 == Label::Neutral,
        a1 == Label::True || a1 == Label::False || a1 == Label::Neutral,
        b1 == Label::True || b1 == Label::False || b1 == Label::Neutral,
        c2 == Label::False || c2 == Label::Neutral,
        out == Label::True || out == Label::False,
        c1 != a,
        c1 != b,
        a1 != a,
        b1 != b,
        a1 != b1,
        c2 != c1,
        out != c2,
        out != a1,
        out != b1,
    ensures
        out == or_total(a, b),
{
}


/// The seed label a definition's view carries; `Null` otherwise.
pub open spec fn tree_view_is_seed_label(t: crate::atom_tree::SpecTree) -> Label {
    match t {
        crate::atom_tree::SpecTree::Seed(l) => l,
        _ => Label::Null,
    }
}

/// A prefix stays a prefix after pushing one more entry.
proof fn lemma_prefix_push(a: Seq<(usize, usize)>, b: Seq<(usize, usize)>, x: (usize, usize))
    requires
        a.is_prefix_of(b),
    ensures
        a.is_prefix_of(b.push(x)),
{
    assert(b.push(x).subrange(0, a.len() as int) =~= a);
}

/// Removing one entry keeps every other entry, shifted.
proof fn lemma_remove_keeps_others(
    before: Seq<crate::atom_tree::VarDefinition>,
    after: Seq<crate::atom_tree::VarDefinition>,
    idx: int,
)
    requires
        0 <= idx < before.len(),
        after == before.remove(idx),
    ensures
        after.len() + 1 == before.len(),
        forall|k: int| 0 <= k < idx ==> after[k] == before[k],
        forall|k: int| idx <= k < after.len() ==> after[k] == before[k + 1],
{
}

/// A seed definition other than the removed one survives removal with the
/// same label.
proof fn lemma_seed_survives(
    before: Seq<crate::atom_tree::VarDefinition>,
    after: Seq<crate::atom_tree::VarDefinition>,
    idx: int,
    id2: int,
)
    requires
        seed_def(before, id2),
        0 <= idx < before.len(),
        after == before.remove(idx),
        before[idx].id as int != id2,
        forall|i: int, j: int|
            0 <= i < j < before.len() ==> (#[trigger] before[i]).id != (#[trigger] before[j]).id,
    ensures
        seed_def(after, id2),
        seed_label_of(after, id2) == seed_label_of(before, id2),
{
    let j = choose|j: int|
        0 <= j < before.len() && (#[trigger] before[j]).id as int == id2 && before[j].definition@
            is Seed;
    let j2: int = if j < idx {
        j
    } else {
        j - 1
    };
    assert(after[j2] == before[j]);
    assert(seed_def(after, id2));
    let ja = choose|ja: int|
        0 <= ja < after.len() && (#[trigger] after[ja]).id as int == id2 && after[ja].definition@
            is Seed;
    let jb: int = if ja < idx {
        ja
    } else {
        ja + 1
    };
    assert(after[ja] == before[jb]);
    assert(before[jb].id as int == id2 && before[j].id as int == id2);
    assert(jb == j);
}

/// A closed graph stays closed when nodes are appended whose own neighbor
/// indices are in bounds.
pub proof fn lemma_graph_grow(pre: Seq<Node>, post: Seq<Node>)
    requires
        graph_closed(pre),
        post.len() >= pre.len(),
        forall|i: int| 0 <= i < pre.len() ==> post[i] == pre[i],
        forall|i: int|
            pre.len() <= i < post.len() ==> node_in_bounds(#[trigger] post[i], post.len() as int),
    ensures
        graph_closed(post),
{
    assert forall|i: int|
        0 <= i < post.len() implies node_in_bounds(#[trigger] post[i], post.len() as int) by {
        if i < pre.len() {
            assert(node_in_bounds(pre[i], pre.len() as int));
            assert forall|k: int|
                0 <= k < post[i].connections@.len() implies ((#[trigger] post[i].connections@[k]) as int)
                < post.len() as int by {
                assert(post[i].connections@[k] == pre[i].connections@[k]);
                assert((pre[i].connections@[k] as int) < pre.len() as int);
            }
        }
    }
}

impl Node {
    /// Graph completion for one node: connects it to the basis node of every
    /// color missing from its final whitelist, which turns the whitelist
    /// into actual coloring constraints.
    #[verifier::loop_isolation(false)]
    pub fn connect_with_whitelist(
        v: usize,
        compiler: &mut AtomTreeCompiler,
        compilation: &mut Compilation,
    )
        requires
            old(compiler).wf(),
            v < old(compiler).nodes@.len(),
            !old(compiler).nodes@[v as int].label_whitelist.contains(Label::True) ==> v != old(compiler).true_node,
            !old(compiler).nodes@[v as int].label_whitelist.contains(Label::False) ==> v != old(compiler).false_node,
            !old(compiler).nodes@[v as int].label_whitelist.contains(Label::Neutral) ==> v != old(compiler).neutral_node,
        ensures
            final(compiler).wf(),
            final(compiler).nodes@.len() == old(compiler).nodes@.len(),
            forall|i: int|
                0 <= i < old(compiler).nodes@.len() ==> (#[trigger] final(compiler).nodes@[i]).label
                    == old(compiler).nodes@[i].label && final(compiler).nodes@[i].label_whitelist
                    == old(compiler).nodes@[i].label_whitelist,
            forall|i: int|
                0 <= i < old(compiler).nodes@.len() ==> (#[trigger] old(compiler).nodes@[i]).connections@.is_prefix_of(
                    final(compiler).nodes@[i].connections@,
                ),
            !old(compiler).nodes@[v as int].label_whitelist.contains(Label::True) ==> conn_contains(
                final(compiler).nodes@[v as int],
                old(compiler).true_node as int,
            ),
            !old(compiler).nodes@[v as int].label_whitelist.contains(Label::False)
                ==> conn_contains(final(compiler).nodes@[v as int], old(compiler).false_node as int),
            !old(compiler).nodes@[v as int].label_whitelist.contains(Label::Neutral)
                ==> conn_contains(
                final(compiler).nodes@[v as int],
                old(compiler).neutral_node as int,
            ),
            ({
                let wl = old(compiler).nodes@[v as int].label_whitelist;
                let adds = (if !wl.has_true {
                    seq![old(compiler).true_node]
                } else {
                    Seq::<usize>::empty()
                }) + (if !wl.has_false {
                    seq![old(compiler).false_node]
                } else {
                    Seq::<usize>::empty()
                }) + (if !wl.has_neutral {
                    seq![old(compiler).neutral_node]
                } else {
                    Seq::<usize>::empty()
                });
                final(compiler).nodes@[v as int].connections@ == old(compiler).nodes@[v as int].connections@
                    + adds
            }),
            forall|i: int|
                0 <= i < old(compiler).nodes@.len() && i != v && !(i
                    == old(compiler).true_node as int && !old(compiler).nodes@[v as int].label_whitelist.has_true)
                    && !(i == old(compiler).false_node as int
                    && !old(compiler).nodes@[v as int].label_whitelist.has_false) && !(i
                    == old(compiler).neutral_node as int
                    && !old(compiler).nodes@[v as int].label_whitelist.has_neutral) ==> final(compiler).nodes@[i]
                    == old(compiler).nodes@[i],
            (!old(compiler).nodes@[v as int].label_whitelist.has_true && old(compiler).true_node as int != v)
                ==> conn_contains(
                final(compiler).nodes@[old(compiler).true_node as int],
                v as int,
            ),
            (!old(compiler).nodes@[v as int].label_whitelist.has_false && old(compiler).false_node as int != v)
                ==> conn_contains(
                final(compiler).nodes@[old(compiler).false_node as int],
                v as int,
            ),
            (!old(compiler).nodes@[v as int].label_whitelist.has_neutral && old(compiler).neutral_node as int != v)
                ==> conn_contains(
                final(compiler).nodes@[old(compiler).neutral_node as int],
                v as int,
            ),
            final(compiler).tree == old(compiler).tree,
            final(compiler).variable_mappings@ == old(compiler).variable_mappings@,
            final(compiler).true_node == old(compiler).true_node,
            final(compiler).false_node == old(compiler).false_node,
            final(compiler).neutral_node == old(compiler).neutral_node,
            diags_grow(old(compilation).diags(), final(compilation).diags()),
            ({
                let wl = old(compiler).nodes@[v as int].label_whitelist;
                let lv = old(compiler).nodes@[v as int].label;
                let warn = (!wl.has_true && lv != Label::Null && lv == old(compiler).nodes@[old(compiler).true_node as int].label)
                    || (!wl.has_false && lv != Label::Null && lv == old(compiler).nodes@[old(compiler).false_node as int].label)
                    || (!wl.has_neutral && lv != Label::Null && lv == old(compiler).nodes@[old(compiler).neutral_node as int].label);
                if warn {
                    final(compilation).diags().len() > old(compilation).diags().len()
                } else {
                    final(compilation).diags() == old(compilation).diags()
                }
            }),
    {
        let wl = compiler.nodes[v].label_whitelist;
        if !wl.has_true {
            Node::connect(v, compiler.true_node, compiler, compilation);
            proof {
                assert(conn_contains(compiler.nodes@[v as int], compiler.true_node as int)) by {
                    assert(compiler.nodes@[v as int].connections@.last() == compiler.true_node);
                }
                if compiler.true_node as int != v as int {
                    assert(conn_contains(
                        compiler.nodes@[compiler.true_node as int],
                        v as int,
                    )) by {
                        assert(compiler.nodes@[compiler.true_node as int].connections@.last()
                            == v);
                    }
                }
            }
        }
        let ghost mid1 = compiler.nodes@;
        if !wl.has_false {
            Node::connect(v, compiler.false_node, compiler, compilation);
            proof {
                assert(conn_contains(compiler.nodes@[v as int], compiler.false_node as int)) by {
                    assert(compiler.nodes@[v as int].connections@.last() == compiler.false_node);
                }
                if compiler.false_node as int != v as int {
                    assert(conn_contains(
                        compiler.nodes@[compiler.false_node as int],
                        v as int,
                    )) by {
                        assert(compiler.nodes@[compiler.false_node as int].connections@.last()
                            == v);
                    }
                }
                if !wl.has_true {
                    assert(conn_contains(compiler.nodes@[v as int], compiler.true_node as int)) by {
                        let c = compiler.nodes@[v as int].connections@;
                        assert(c[c.len() - 2] == compiler.true_node);
                    }
                    if compiler.true_node as int != v as int {
                        assert(conn_contains(
                            compiler.nodes@[compiler.true_node as int],
                            v as int,
                        )) by {
                            let w = choose|w: int|
                                0 <= w < mid1[compiler.true_node as int].connections@.len() && (
                                #[trigger] mid1[compiler.true_node as int].connections@[w]) as int
                                    == v as int;
                            assert(compiler.nodes@[compiler.true_node as int].connections@[w]
                                == mid1[compiler.true_node as int].connections@[w]);
                        }
                    }
                }
            }
        }
        let ghost mid2 = compiler.nodes@;
        if !wl.has_neutral {
            Node::connect(v, compiler.neutral_node, compiler, compilation);
            proof {
                let c = compiler.nodes@[v as int].connections@;
                assert(conn_contains(compiler.nodes@[v as int], compiler.neutral_node as int)) by {
                    assert(c.last() == compiler.neutral_node);
                }
                if compiler.neutral_node as int != v as int {
                    assert(conn_contains(
                        compiler.nodes@[compiler.neutral_node as int],
                        v as int,
                    )) by {
                        assert(compiler.nodes@[compiler.neutral_node as int].connections@.last()
                            == v);
                    }
                }
                if !wl.has_true && !wl.has_false {
                    assert(c[c.len() - 3] == compiler.true_node);
                    assert(c[c.len() - 2] == compiler.false_node);
                } else if !wl.has_true {
                    assert(c[c.len() - 2] == compiler.true_node);
                } else if !wl.has_false {
                    assert(c[c.len() - 2] == compiler.false_node);
                }
                assert(!wl.has_true ==> conn_contains(
                    compiler.nodes@[v as int],
                    compiler.true_node as int,
                ));
                assert(!wl.has_false ==> conn_contains(
                    compiler.nodes@[v as int],
                    compiler.false_node as int,
                ));
                if !wl.has_true && compiler.true_node as int != v as int {
                    assert(conn_contains(
                        compiler.nodes@[compiler.true_node as int],
                        v as int,
                    )) by {
                        let w = choose|w: int|
                            0 <= w < mid2[compiler.true_node as int].connections@.len() && (
                            #[trigger] mid2[compiler.true_node as int].connections@[w]) as int
                                == v as int;
                        assert(compiler.nodes@[compiler.true_node as int].connections@[w] == mid2[
                            compiler.true_node as int
                        ].connections@[w]);
                    }
                }
                if !wl.has_false && compiler.false_node as int != v as int {
                    assert(conn_contains(
                        compiler.nodes@[compiler.false_node as int],
                        v as int,
                    )) by {
                        let w = choose|w: int|
                            0 <= w < mid2[compiler.false_node as int].connections@.len() && (
                            #[trigger] mid2[compiler.false_node as int].connections@[w]) as int
                                == v as int;
                        assert(compiler.nodes@[compiler.false_node as int].connections@[w] == mid2[
                            compiler.false_node as int
                        ].connections@[w]);
                    }
                }
            }
        }
        proof {
            assert forall|i: int|
                0 <= i < old(compiler).nodes@.len() implies (#[trigger] old(compiler).nodes@[i]).connections@.is_prefix_of(
                compiler.nodes@[i].connections@,
            ) by {}
            let wl0 = old(compiler).nodes@[v as int].label_whitelist;
            let adds = (if !wl0.has_true {
                seq![old(compiler).true_node]
            } else {
                Seq::<usize>::empty()
            }) + (if !wl0.has_false {
                seq![old(compiler).false_node]
            } else {
                Seq::<usize>::empty()
            }) + (if !wl0.has_neutral {
                seq![old(compiler).neutral_node]
            } else {
                Seq::<usize>::empty()
            });
            assert(compiler.nodes@[v as int].connections@ =~= old(compiler).nodes@[v as int].connections@
                + adds);
        }
    }
}

impl AtomTreeCompiler {
    /// Looks up or lazily compiles the definition behind a variable id. The
    /// definition is removed from the table while it is compiled, so a
    /// self-referential variable surfaces as a missing definition and is
    /// reported as an internal error. A seed-label definition allocates a
    /// fresh node whitelisted to exactly the seed's label, or to all three
    /// colors when the seed is unknown; a constant reaching this point is an
    /// invariant violation and is reported as an internal error.
    #[verifier::loop_isolation(false)]
    #[verifier::rlimit(100)]
    pub fn compile_var(&mut self, var_id: usize, compilation: &mut Compilation) -> (r: Option<
        usize,
    >)
        requires
            old(self).wf(),
        ensures
            final(self).wf(),
            final(self).nodes@.len() >= old(self).nodes@.len(),
            final(self).tree.definitions@.len() <= old(self).tree.definitions@.len(),
            final(self).true_node == old(self).true_node,
            final(self).false_node == old(self).false_node,
            final(self).neutral_node == old(self).neutral_node,
            r is Some ==> r->Some_0 < final(self).nodes@.len() && r->Some_0 >= 3,
            forall|i: int| 0 <= i < 3 ==> final(self).nodes@[i] == old(self).nodes@[i],
            diags_grow(old(compilation).diags(), final(compilation).diags()),
            !crate::atom_tree::is_def_id(old(self).tree.definitions@, var_id) ==> r is None
                && *final(self) == *old(self) && diags_one_more(
                old(compilation).diags(),
                final(compilation).diags(),
                DiagnosticType::Error,
            ),
            seed_def(old(self).tree.definitions@, var_id as int) ==> {
                let l = seed_label_of(old(self).tree.definitions@, var_id as int);
                &&& r is Some
                &&& r->Some_0 as int == old(self).nodes@.len()
                &&& final(self).nodes@.len() == old(self).nodes@.len() + 1
                &&& final(self).nodes@.last().label == l
                &&& final(self).nodes@.last().label_whitelist == seed_whitelist(l)
                &&& final(self).nodes@.last().connections@.len() == 0
                &&& forall|i: int|
                    0 <= i < old(self).nodes@.len() ==> final(self).nodes@[i] == old(self).nodes@[i]
                &&& final(self).variable_mappings@ == old(self).variable_mappings@.push(
                    (var_id, r->Some_0),
                )
                &&& final(self).tree.definitions@.len() + 1 == old(self).tree.definitions@.len()
                &&& !crate::atom_tree::is_def_id(final(self).tree.definitions@, var_id)
                &&& final(compilation).diags() == old(compilation).diags()
            },
            const_def(old(self).tree.definitions@, var_id as int) ==> r is None && final(self).nodes@ == old(self).nodes@ && final(self).variable_mappings@ == old(self).variable_mappings@
                && final(self).tree.definitions@.len() + 1 == old(self).tree.definitions@.len()
                && !crate::atom_tree::is_def_id(final(self).tree.definitions@, var_id)
                && diags_one_more(
                old(compilation).diags(),
                final(compilation).diags(),
                DiagnosticType::Error,
            ),
            r is Some ==> final(self).variable_mappings@.last() == (var_id, r->Some_0),
            old(self).variable_mappings@.is_prefix_of(final(self).variable_mappings@),
            seeds_persist(
                old(self).tree.definitions@,
                final(self).tree.definitions@,
                final(self).variable_mappings@,
            ),
            r is None ==> final(compilation).diags().len() > old(compilation).diags().len(),
        decreases old(self).tree.definitions@.len(), 0int, (AtomTree::AtomType { atom: AtomType::False }),
    {
        let ghost defs0 = self.tree.definitions@;
        let mut di: usize = 0;
        let mut found = false;
        let mut fi: usize = 0;
        while di < self.tree.definitions.len()
            invariant
                0 <= di <= self.tree.definitions@.len(),
                found ==> 0 <= fi < self.tree.definitions@.len() && self.tree.definitions@[fi as int].id
                    == var_id,
                !found ==> forall|k: int|
                    0 <= k < di ==> (#[trigger] self.tree.definitions@[k]).id != var_id,
                *self == *old(self),
            decreases self.tree.definitions@.len() - di,
        {
            if self.tree.definitions[di].id == var_id {
                found = true;
                fi = di;
            }
            di = di + 1;
        }
        if !found {
            let ghost dbefore = compilation.diags();
            compilation.add_error(
                "Missing definition while lowering a variable; a self-referential definition leaves this trace.",
                None,
            );
            proof {
                assert forall|k: int|
                    0 <= k < dbefore.len() implies compilation.diags()[k] == dbefore[k] by {
                    assert(compilation.diags()[k] == compilation.diags().drop_last()[k]);
                }
                assert(!crate::atom_tree::is_def_id(defs0, var_id));
                if seed_def(defs0, var_id as int) {
                    assert(crate::atom_tree::is_def_id(defs0, var_id));
                }
                if const_def(defs0, var_id as int) {
                    assert(crate::atom_tree::is_def_id(defs0, var_id));
                }
                assert forall|id2: int| #[trigger]
                    seed_def(defs0, id2) implies (seed_def(self.tree.definitions@, id2)
                    && seed_label_of(self.tree.definitions@, id2) == seed_label_of(defs0, id2))
                    || has_mapping(self.variable_mappings@, id2) by {
                    assert(self.tree.definitions@ == defs0);
                    assert(seed_def(self.tree.definitions@, id2));
                }
            }
            return None;
        }
        proof {
            assert(crate::atom_tree::is_def_id(defs0, var_id));
            assert forall|k: int|
                0 <= k < defs0.len() && k != fi implies (#[trigger] defs0[k]).id != var_id by {}
        }
        let d = self.tree.definitions.remove(fi);
        proof {
            lemma_remove_keeps_others(defs0, self.tree.definitions@, fi as int);
            assert forall|k: int|
                0 <= k < self.tree.definitions@.len() implies (#[trigger] self.tree.definitions@[k]).id
                != var_id by {}
            assert(!crate::atom_tree::is_def_id(self.tree.definitions@, var_id));
        }
        let ghost defs1 = self.tree.definitions@;
        let body = *d.definition;
        match body {
            AtomTree::SeedLabel(l) => {
                proof {
                    assert(seed_def(defs0, var_id as int));
                    assert(seed_label_of(defs0, var_id as int) == tree_view_is_seed_label(
                        d.definition@,
                    )) by {
                        let j = choose|j: int|
                            0 <= j < defs0.len() && (#[trigger] defs0[j]).id as int
                                == var_id as int && defs0[j].definition@ is Seed;
                        assert(defs0[j].id == defs0[fi as int].id);
                        assert(j == fi);
                    }
                }
                let ghost pre = self.nodes@;
                let var_node = Node::new(self, l);
                proof {
                    assert forall|i: int| 0 <= i < pre.len() implies self.nodes@[i] == pre[i] by {
                        assert(self.nodes@.drop_last()[i] == self.nodes@[i]);
                    }
                    lemma_graph_grow(pre, self.nodes@);
                }
                let wl = match l {
                    Label::True => LabelSet { has_true: true, has_false: false, has_neutral: false },
                    Label::False => LabelSet {
                        has_true: false,
                        has_false: true,
                        has_neutral: false,
                    },
                    _ => LabelSet::all(),
                };
                Node::force_whitelist(var_node, self, wl, compilation);
                let ghost maps0 = self.variable_mappings@;
                self.variable_mappings.push((var_id, var_node));
                proof {
                    assert(self.variable_mappings@.drop_last() =~= maps0);
                    assert(maps0.is_prefix_of(maps0));
                    lemma_prefix_push(maps0, maps0, (var_id, var_node));
                    assert(graph_closed(self.nodes@)) by {
                        assert forall|i: int|
                            0 <= i < self.nodes@.len() implies node_in_bounds(
                            #[trigger] self.nodes@[i],
                            self.nodes@.len() as int,
                        ) by {
                            assert(self.nodes@[i].connections@ == pre.push(
                                self.nodes@[self.nodes@.len() - 1],
                            )[i].connections@ || true);
                        }
                    }
                    assert(self.nodes@.last().label_whitelist == seed_whitelist(l)) by {
                        assert(self.nodes@.last().label_whitelist.contains(Label::True)
                            == seed_whitelist(l).contains(Label::True));
                        assert(self.nodes@.last().label_whitelist.contains(Label::False)
                            == seed_whitelist(l).contains(Label::False));
                        assert(self.nodes@.last().label_whitelist.contains(Label::Neutral)
                            == seed_whitelist(l).contains(Label::Neutral));
                    }
                    assert(has_mapping(self.variable_mappings@, var_id as int)) by {
                        assert(self.variable_mappings@.last().0 == var_id);
                    }
                    assert forall|id2: int| #[trigger]
                        seed_def(defs0, id2) implies (seed_def(self.tree.definitions@, id2)
                        && seed_label_of(self.tree.definitions@, id2) == seed_label_of(defs0, id2))
                        || has_mapping(self.variable_mappings@, id2) by {
                        if id2 != var_id as int {
                            lemma_seed_survives(defs0, defs1, fi as int, id2);
                        }
                    }
                }
                Some(var_node)
            },
            AtomTree::AtomType { atom } => {
                let ghost dbefore = compilation.diags();
                compilation.add_error(
                    "A constant definition reached the graph encoder; simplification should have removed it.",
                    None,
                );
                proof {
                    assert forall|k: int|
                        0 <= k < dbefore.len() implies compilation.diags()[k] == dbefore[k] by {
                        assert(compilation.diags()[k] == compilation.diags().drop_last()[k]);
                    }
                    if seed_def(defs0, var_id as int) {
                        let j = choose|j: int|
                            0 <= j < defs0.len() && (#[trigger] defs0[j]).id as int
                                == var_id as int && defs0[j].definition@ is Seed;
                        assert(j == fi);
                        assert(false);
                    }
                    assert forall|id2: int| #[trigger]
                        seed_def(defs0, id2) implies (seed_def(self.tree.definitions@, id2)
                        && seed_label_of(self.tree.definitions@, id2) == seed_label_of(defs0, id2))
                        || has_mapping(self.variable_mappings@, id2) by {
                        if id2 != var_id as int {
                            lemma_seed_survives(defs0, defs1, fi as int, id2);
                        } else {
                            assert(defs0[fi as int].definition@ is Const);
                            if seed_def(defs0, id2) {
                                let j = choose|j: int|
                                    0 <= j < defs0.len() && (#[trigger] defs0[j]).id as int == id2
                                        && defs0[j].definition@ is Seed;
                                assert(j == fi);
                                assert(false);
                            }
                        }
                    }
                }
                None
            },
            other => {
                proof {
                    if seed_def(defs0, var_id as int) {
                        let j = choose|j: int|
                            0 <= j < defs0.len() && (#[trigger] defs0[j]).id as int
                                == var_id as int && defs0[j].definition@ is Seed;
                        assert(j == fi);
                        assert(false);
                    }
                    if const_def(defs0, var_id as int) {
                        let j = choose|j: int|
                            0 <= j < defs0.len() && (#[trigger] defs0[j]).id as int
                                == var_id as int && defs0[j].definition@ is Const;
                        assert(j == fi);
                        assert(false);
                    }
                }
                let r = self.compile_tree(&other, compilation);
                proof {
                    assert forall|id2: int| #[trigger]
                        seed_def(defs0, id2) implies (seed_def(self.tree.definitions@, id2)
                        && seed_label_of(self.tree.definitions@, id2) == seed_label_of(defs0, id2))
                        || has_mapping(self.variable_mappings@, id2) by {
                        if id2 != var_id as int {
                            lemma_seed_survives(defs0, defs1, fi as int, id2);
                        }
                    }
                }
                match r {
                    Some(var_node) => {
                        let ghost maps0 = self.variable_mappings@;
                        self.variable_mappings.push((var_id, var_node));
                        proof {
                            assert(self.variable_mappings@.drop_last() =~= maps0);
                            lemma_prefix_push(
                                old(self).variable_mappings@,
                                maps0,
                                (var_id, var_node),
                            );
                        }
                        Some(var_node)
                    },
                    None => None,
                }
            },
        }
    }

    /// Compiles one expression tree to the node that carries its value: a
    /// variable through the memo or its definition, a negation as a fresh
    /// oppositely-labeled node forced boolean and connected to its input
    /// (the structural edge the design note asks to make explicit), and a
    /// binary disjunction through the five-node gadget. A constant, seed
    /// label, marker, or non-binary disjunction left in the tree is an
    /// invariant violation and is reported as an internal error.
    #[verifier::loop_isolation(false)]
    #[verifier::rlimit(100)]
    pub fn compile_tree(&mut self, atom_tree: &AtomTree, compilation: &mut Compilation) -> (r:
        Option<usize>)
        requires
            old(self).wf(),
        ensures
            final(self).wf(),
            final(self).nodes@.len() >= old(self).nodes@.len(),
            final(self).tree.definitions@.len() <= old(self).tree.definitions@.len(),
            final(self).true_node == old(self).true_node,
            final(self).false_node == old(self).false_node,
            final(self).neutral_node == old(self).neutral_node,
            r is Some ==> r->Some_0 < final(self).nodes@.len() && r->Some_0 >= 3,
            forall|i: int| 0 <= i < 3 ==> final(self).nodes@[i] == old(self).nodes@[i],
            diags_grow(old(compilation).diags(), final(compilation).diags()),
            old(self).variable_mappings@.is_prefix_of(final(self).variable_mappings@),
            seeds_persist(
                old(self).tree.definitions@,
                final(self).tree.definitions@,
                final(self).variable_mappings@,
            ),
            r is None ==> final(compilation).diags().len() > old(compilation).diags().len(),
            atom_tree@ is Var && has_mapping(old(self).variable_mappings@, atom_tree@->Var_0)
                ==> *final(self) == *old(self) && final(compilation).diags() == old(compilation).diags() && r == Some(
                first_mapping(old(self).variable_mappings@, atom_tree@->Var_0),
            ),
            (atom_tree@ is Var && !has_mapping(old(self).variable_mappings@, atom_tree@->Var_0)
                && seed_def(old(self).tree.definitions@, atom_tree@->Var_0)) ==> {
                let l = seed_label_of(old(self).tree.definitions@, atom_tree@->Var_0);
                &&& r is Some
                &&& r->Some_0 as int == old(self).nodes@.len()
                &&& final(self).nodes@.len() == old(self).nodes@.len() + 1
                &&& final(self).nodes@.last().label == l
                &&& final(self).nodes@.last().label_whitelist == seed_whitelist(l)
                &&& final(compilation).diags() == old(compilation).diags()
            },
            (atom_tree@ is Var && !has_mapping(old(self).variable_mappings@, atom_tree@->Var_0)
                && !crate::atom_tree::is_def_id(
                old(self).tree.definitions@,
                atom_tree@->Var_0 as usize,
            )) ==> r is None && *final(self) == *old(self) && diags_one_more(
                old(compilation).diags(),
                final(compilation).diags(),
                DiagnosticType::Error,
            ),
            atom_tree@ is Neg && r is Some ==> {
                let last = final(self).nodes@.len() - 1;
                &&& r->Some_0 as int == last
                &&& exists|inp: int|
                    3 <= inp < last && (#[trigger] final(self).nodes@[inp]).label_whitelist
                        == (LabelSet { has_true: true, has_false: true, has_neutral: false }).intersect_spec(
                        final(self).nodes@[inp].label_whitelist,
                    ) && final(self).nodes@[last].label == not_total(final(self).nodes@[inp].label)
                        && final(self).nodes@[last].connections@ =~= seq![inp as usize]
                        && conn_contains(final(self).nodes@[inp], last)
                &&& final(self).nodes@[last].label_whitelist == (LabelSet {
                    has_true: true,
                    has_false: true,
                    has_neutral: false,
                })
            },
            (atom_tree@ is Or && atom_tree@->Or_0.len() != 2) ==> r is None && *final(self)
                == *old(self) && diags_one_more(
                old(compilation).diags(),
                final(compilation).diags(),
                DiagnosticType::Error,
            ),
            (atom_tree@ is Or && atom_tree@->Or_0.len() == 2 && r is Some) ==> {
                let base = final(self).nodes@.len() - 5;
                &&& r->Some_0 as int == base + 4
                &&& exists|a: int, b: int|
                    3 <= a < base && 3 <= b < base && {
                        let la = (#[trigger] final(self).nodes@[a]).label;
                        let lb = (#[trigger] final(self).nodes@[b]).label;
                        let res = or_total(la, lb);
                        &&& final(self).nodes@[base].label == or_c1(res)
                        &&& final(self).nodes@[base + 1].label == or_a1(res, lb)
                        &&& final(self).nodes@[base + 2].label == or_b1(res, lb)
                        &&& final(self).nodes@[base + 3].label == or_c2(res)
                        &&& final(self).nodes@[base + 4].label == res
                        &&& conn_contains(final(self).nodes@[a], base)
                        &&& conn_contains(final(self).nodes@[b], base)
                        &&& conn_contains(final(self).nodes@[a], base + 1)
                        &&& conn_contains(final(self).nodes@[b], base + 2)
                    }
                &&& final(self).nodes@[base].label_whitelist == (LabelSet {
                    has_true: true,
                    has_false: true,
                    has_neutral: true,
                })
                &&& final(self).nodes@[base + 1].label_whitelist == (LabelSet {
                    has_true: true,
                    has_false: true,
                    has_neutral: true,
                })
                &&& final(self).nodes@[base + 2].label_whitelist == (LabelSet {
                    has_true: true,
                    has_false: true,
                    has_neutral: true,
                })
                &&& final(self).nodes@[base + 3].label_whitelist == (LabelSet {
                    has_true: false,
                    has_false: true,
                    has_neutral: true,
                })
                &&& final(self).nodes@[base + 4].label_whitelist == (LabelSet {
                    has_true: true,
                    has_false: true,
                    has_neutral: false,
                })
                &&& conn_contains(final(self).nodes@[base + 1], base + 2)
                &&& conn_contains(final(self).nodes@[base + 3], base)
                &&& conn_contains(final(self).nodes@[base + 4], base + 3)
                &&& conn_contains(final(self).nodes@[base + 4], base + 1)
                &&& conn_contains(final(self).nodes@[base + 4], base + 2)
            },
            (atom_tree@ is Const || atom_tree@ is Seed || atom_tree@ is Marker) ==> r is None
                && *final(self) == *old(self) && diags_one_more(
                old(compilation).diags(),
                final(compilation).diags(),
                DiagnosticType::Error,
            ),
        decreases old(self).tree.definitions@.len(), 1int, *atom_tree,
    {
        match atom_tree {
            AtomTree::Variable { id } => {
                let mut mi: usize = 0;
                while mi < self.variable_mappings.len()
                    invariant
                        0 <= mi <= self.variable_mappings@.len(),
                        forall|k: int|
                            0 <= k < mi ==> (#[trigger] self.variable_mappings@[k]).0 != *id,
                        *self == *old(self),
                    decreases self.variable_mappings@.len() - mi,
                {
                    if self.variable_mappings[mi].0 == *id {
                        proof {
                            lemma_first_mapping(self.variable_mappings@, mi as int);
                            assert(self.variable_mappings@.is_prefix_of(self.variable_mappings@));
                        }
                        return Some(self.variable_mappings[mi].1);
                    }
                    mi = mi + 1;
                }
                proof {
                    assert(!has_mapping(self.variable_mappings@, *id as int));
                }
                self.compile_var(*id, compilation)
            },
            AtomTree::Not(a) => {
                let input = match self.compile_tree(a, compilation) {
                    Some(i) => i,
                    None => {
                        return None;
                    },
                };
                Node::force_bool(input, self, compilation);
                let res = match self.nodes[input].label {
                    Label::True => Label::False,
                    Label::False => Label::True,
                    _ => Label::Null,
                };
                let ghost pre = self.nodes@;
                let inverted_node = Node::new(self, res);
                proof {
                    assert forall|i: int| 0 <= i < pre.len() implies self.nodes@[i] == pre[i] by {
                        assert(self.nodes@.drop_last()[i] == self.nodes@[i]);
                    }
                    lemma_graph_grow(pre, self.nodes@);
                }
                Node::connect(input, inverted_node, self, compilation);
                Node::force_bool(inverted_node, self, compilation);
                proof {
                    let last = self.nodes@.len() - 1;
                    assert(self.nodes@[last].label_whitelist == (LabelSet {
                        has_true: true,
                        has_false: true,
                        has_neutral: false,
                    })) by {
                        assert(self.nodes@[last].label_whitelist.contains(Label::True));
                        assert(self.nodes@[last].label_whitelist.contains(Label::False));
                        assert(!self.nodes@[last].label_whitelist.contains(Label::Neutral));
                    }
                    assert(self.nodes@[input as int].label_whitelist == (LabelSet {
                        has_true: true,
                        has_false: true,
                        has_neutral: false,
                    }).intersect_spec(self.nodes@[input as int].label_whitelist)) by {
                        assert(self.nodes@[input as int].label_whitelist.contains(Label::True)
                            == self.nodes@[input as int].label_whitelist.has_true);
                        assert(!self.nodes@[input as int].label_whitelist.contains(Label::Neutral));
                    }
                    assert(self.nodes@[last].connections@ =~= seq![input]);
                    assert(conn_contains(self.nodes@[input as int], last)) by {
                        assert(self.nodes@[input as int].connections@.last() == inverted_node);
                    }
                }
                Some(inverted_node)
            },
            AtomTree::Or(v) => {
                proof {
                    crate::atom_tree::lemma_tree_view_seq(v@);
                }
                if v.len() != 2 {
                    let ghost dbefore = compilation.diags();
                    compilation.add_error(
                        "A non-binary disjunction reached the graph encoder.",
                        None,
                    );
                    proof {
                        assert forall|k: int|
                            0 <= k < dbefore.len() implies compilation.diags()[k] == dbefore[k] by {
                            assert(compilation.diags()[k] == compilation.diags().drop_last()[k]);
                        }
                    }
                    return None;
                }
                let a = match self.compile_tree(&v[0], compilation) {
                    Some(i) => i,
                    None => {
                        return None;
                    },
                };
                let b = match self.compile_tree(&v[1], compilation) {
                    Some(i) => i,
                    None => {
                        return None;
                    },
                };
                Node::force_bool(a, self, compilation);
                Node::force_bool(b, self, compilation);
                let output = self.emit_or_gadget(a, b, compilation);
                proof {
                    let base = self.nodes@.len() - 5;
                    assert(3 <= a < base && 3 <= b < base);
                }
                Some(output)
            },
            _ => {
                let ghost dbefore = compilation.diags();
                compilation.add_error(
                    "A constant, seed label, or marker reached the graph encoder as an expression; simplification should have removed it.",
                    None,
                );
                proof {
                    assert forall|k: int|
                        0 <= k < dbefore.len() implies compilation.diags()[k] == dbefore[k] by {
                        assert(compilation.diags()[k] == compilation.diags().drop_last()[k]);
                    }
                }
                None
            },
        }
    }

    /// Compiles the whole program: allocates the three basis nodes first,
    /// each whitelisted to exactly its own color, lowers every restriction
    /// by narrowing its node's whitelist to the forced color, rejects output
    /// actions loudly, and finally completes the graph by connecting every
    /// node to the basis nodes of the colors missing from its whitelist.
    #[verifier::loop_isolation(false)]
    #[verifier::rlimit(100)]
    pub fn compile(self, compilation: &mut Compilation) -> (r: Vec<Node>)
        requires
            self.nodes@.len() == 0,
            self.variable_mappings@.len() == 0,
            self.tree.wf(),
        ensures
            r@.len() >= 3,
            graph_closed(r@),
            r@[0].label == Label::True,
            r@[1].label == Label::False,
            r@[2].label == Label::Neutral,
            r@[0].label_whitelist == (LabelSet { has_true: true, has_false: false, has_neutral: false }),
            r@[1].label_whitelist == (LabelSet { has_true: false, has_false: true, has_neutral: false }),
            r@[2].label_whitelist == (LabelSet { has_true: false, has_false: false, has_neutral: true }),
            forall|i: int|
                0 <= i < r@.len() ==> {
                    &&& (!(#[trigger] r@[i]).label_whitelist.contains(Label::True) ==> conn_contains(r@[i], 0))
                    &&& (!r@[i].label_whitelist.contains(Label::False) ==> conn_contains(r@[i], 1))
                    &&& (!r@[i].label_whitelist.contains(Label::Neutral) ==> conn_contains(r@[i], 2))
                },
            diags_grow(old(compilation).diags(), final(compilation).diags()),
            self.tree.value_actions@.len() == 0 ==> r@.len() == 3 && final(compilation).diags()
                == old(compilation).diags(),
            (exists|k: int|
                0 <= k < self.tree.value_actions@.len() && (#[trigger] self.tree.value_actions@[k]).1
                    is Output) ==> final(compilation).diags().len() > old(compilation).diags().len(),
            (exists|k: int|
                0 <= k < self.tree.value_actions@.len() && (#[trigger] self.tree.value_actions@[k]).1
                    is Restriction && self.tree.value_actions@[k].0@ is Var && seed_def(
                    self.tree.definitions@,
                    self.tree.value_actions@[k].0@->Var_0,
                )) ==> r@.len() > 3,
    {
        let mut this = self;
        let ghost pre0 = this.nodes@;
        let true_node = Node::new(&mut this, Label::True);
        proof {
            assert(graph_closed(this.nodes@)) by {
                assert forall|i: int|
                    0 <= i < this.nodes@.len() implies node_in_bounds(
                    #[trigger] this.nodes@[i],
                    this.nodes@.len() as int,
                ) by {
                    assert(this.nodes@[i].connections@.len() == 0);
                }
            }
        }
        Node::force_whitelist(
            true_node,
            &mut this,
            LabelSet { has_true: true, has_false: false, has_neutral: false },
            compilation,
        );
        let false_node = Node::new(&mut this, Label::False);
        Node::force_whitelist(
            false_node,
            &mut this,
            LabelSet { has_true: false, has_false: true, has_neutral: false },
            compilation,
        );
        let neutral_node = Node::new(&mut this, Label::Neutral);
        Node::force_whitelist(
            neutral_node,
            &mut this,
            LabelSet { has_true: false, has_false: false, has_neutral: true },
            compilation,
        );
        this.true_node = true_node;
        this.false_node = false_node;
        this.neutral_node = neutral_node;
        proof {
            assert(this.wf());
            assert(this.nodes@[0].label_whitelist == (LabelSet {
                has_true: true,
                has_false: false,
                has_neutral: false,
            })) by {
                assert(this.nodes@[0].label_whitelist.contains(Label::True));
                assert(!this.nodes@[0].label_whitelist.contains(Label::False));
                assert(!this.nodes@[0].label_whitelist.contains(Label::Neutral));
            }
            assert(this.nodes@[1].label_whitelist == (LabelSet {
                has_true: false,
                has_false: true,
                has_neutral: false,
            })) by {
                assert(!this.nodes@[1].label_whitelist.contains(Label::True));
                assert(this.nodes@[1].label_whitelist.contains(Label::False));
                assert(!this.nodes@[1].label_whitelist.contains(Label::Neutral));
            }
            assert(this.nodes@[2].label_whitelist == (LabelSet {
                has_true: false,
                has_false: false,
                has_neutral: true,
            })) by {
                assert(!this.nodes@[2].label_whitelist.contains(Label::True));
                assert(!this.nodes@[2].label_whitelist.contains(Label::False));
                assert(this.nodes@[2].label_whitelist.contains(Label::Neutral));
            }
        }
        let ghost d0 = compilation.diags();
        let ghost defs0 = this.tree.definitions@;
        let mut actions: Vec<(AtomTree, ValueAction)> = Vec::new();
        core::mem::swap(&mut actions, &mut this.tree.value_actions);
        let ghost acts = actions@;
        let mut rem = actions;
        let ghost n: int = 0;
        while rem.len() > 0
            invariant
                this.wf(),
                this.true_node == 0 && this.false_node == 1 && this.neutral_node == 2,
                this.nodes@[0].label == Label::True,
                this.nodes@[1].label == Label::False,
                this.nodes@[2].label == Label::Neutral,
                this.nodes@[0].label_whitelist == (LabelSet {
                    has_true: true,
                    has_false: false,
                    has_neutral: false,
                }),
                this.nodes@[1].label_whitelist == (LabelSet {
                    has_true: false,
                    has_false: true,
                    has_neutral: false,
                }),
                this.nodes@[2].label_whitelist == (LabelSet {
                    has_true: false,
                    has_false: false,
                    has_neutral: true,
                }),
                diags_grow(d0, compilation.diags()),
                0 <= n,
                rem@.len() + n == acts.len(),
                forall|k2: int| 0 <= k2 < rem@.len() ==> rem@[k2] == acts[n + k2],
                (exists|k: int| 0 <= k < n && (#[trigger] acts[k]).1 is Output)
                    ==> compilation.diags().len() > d0.len(),
                forall|id2: int|
                    #[trigger] seed_def(defs0, id2) ==> seed_def(this.tree.definitions@, id2)
                        || has_mapping(this.variable_mappings@, id2),
                (exists|k: int|
                    0 <= k < n && (#[trigger] acts[k]).1 is Restriction && acts[k].0@ is Var
                        && seed_def(defs0, acts[k].0@->Var_0)) ==> this.nodes@.len() > 3,
                acts.len() == 0 ==> compilation.diags() == d0 && this.nodes@.len() == 3,
            decreases rem@.len(),
        {
            let ghost nn = n;
            let ghost defs_before = this.tree.definitions@;
            let ghost maps_before = this.variable_mappings@;
            let (atom_tree, action) = rem.remove(0);
            proof {
                n = n + 1;
                assert((atom_tree, action) == acts[nn]);
            }
            match action {
                ValueAction::Restriction(rt) => {
                    let node = this.compile_tree(&atom_tree, compilation);
                    proof {
                        if atom_tree@ is Var && seed_def(defs0, atom_tree@->Var_0) {
                            if has_mapping(maps_before, atom_tree@->Var_0) {
                                assert(node is Some);
                            } else {
                                if seed_def(defs_before, atom_tree@->Var_0) {
                                    assert(node is Some);
                                } else {
                                    assert(has_mapping(maps_before, atom_tree@->Var_0));
                                }
                            }
                            assert(node->Some_0 >= 3 && node->Some_0 < this.nodes@.len());
                            assert(this.nodes@.len() > 3);
                        }
                    }
                    match node {
                        Some(node) => {
                            let wl = match rt {
                                AtomType::True => LabelSet {
                                    has_true: true,
                                    has_false: false,
                                    has_neutral: false,
                                },
                                AtomType::False => LabelSet {
                                    has_true: false,
                                    has_false: true,
                                    has_neutral: false,
                                },
                            };
                            Node::force_whitelist(node, &mut this, wl, compilation);
                        },
                        None => {},
                    }
                },
                ValueAction::Output(fragments, expressions) => {
                    let ghost dbefore = compilation.diags();
                    compilation.add_error(
                        "Output actions are not supported by the graph encoder; the pipeline must consume them earlier.",
                        None,
                    );
                    proof {
                        assert forall|k: int|
                            0 <= k < dbefore.len() implies compilation.diags()[k] == dbefore[k] by {
                            assert(compilation.diags()[k] == compilation.diags().drop_last()[k]);
                        }
                    }
                },
            }
        }
        let mut i: usize = 0;
        while i < this.nodes.len()
            invariant
                this.wf(),
                this.true_node == 0 && this.false_node == 1 && this.neutral_node == 2,
                this.nodes@[0].label == Label::True,
                this.nodes@[1].label == Label::False,
                this.nodes@[2].label == Label::Neutral,
                this.nodes@[0].label_whitelist == (LabelSet {
                    has_true: true,
                    has_false: false,
                    has_neutral: false,
                }),
                this.nodes@[1].label_whitelist == (LabelSet {
                    has_true: false,
                    has_false: true,
                    has_neutral: false,
                }),
                this.nodes@[2].label_whitelist == (LabelSet {
                    has_true: false,
                    has_false: false,
                    has_neutral: true,
                }),
                0 <= i <= this.nodes@.len(),
                forall|k: int|
                    0 <= k < i ==> {
                        &&& (!(#[trigger] this.nodes@[k]).label_whitelist.contains(Label::True)
                            ==> conn_contains(this.nodes@[k], 0))
                        &&& (!this.nodes@[k].label_whitelist.contains(Label::False)
                            ==> conn_contains(this.nodes@[k], 1))
                        &&& (!this.nodes@[k].label_whitelist.contains(Label::Neutral)
                            ==> conn_contains(this.nodes@[k], 2))
                    },
                diags_grow(d0, compilation.diags()),
                (exists|k: int| 0 <= k < acts.len() && (#[trigger] acts[k]).1 is Output)
                    ==> compilation.diags().len() > d0.len(),
                acts.len() == 0 ==> this.nodes@.len() == 3 && compilation.diags() == d0,
                (exists|k: int|
                    0 <= k < acts.len() && (#[trigger] acts[k]).1 is Restriction && acts[k].0@
                        is Var && seed_def(defs0, acts[k].0@->Var_0)) ==> this.nodes@.len() > 3,
            decreases this.nodes@.len() - i,
        {
            let ghost before = this.nodes@;
            Node::connect_with_whitelist(i, &mut this, compilation);
            proof {
                assert forall|k: int|
                    0 <= k < i implies {
                    &&& (!(#[trigger] this.nodes@[k]).label_whitelist.contains(Label::True)
                        ==> conn_contains(this.nodes@[k], 0))
                    &&& (!this.nodes@[k].label_whitelist.contains(Label::False) ==> conn_contains(
                        this.nodes@[k],
                        1,
                    ))
                    &&& (!this.nodes@[k].label_whitelist.contains(Label::Neutral) ==> conn_contains(
                        this.nodes@[k],
                        2,
                    ))
                } by {
                    assert(before[k].connections@.is_prefix_of(this.nodes@[k].connections@));
                    if !before[k].label_whitelist.contains(Label::True) {
                        let w = choose|w: int|
                            0 <= w < before[k].connections@.len() && (
                            #[trigger] before[k].connections@[w]) as int == 0;
                        assert(this.nodes@[k].connections@[w] as int == 0);
                    }
                    if !before[k].label_whitelist.contains(Label::False) {
                        let w = choose|w: int|
                            0 <= w < before[k].connections@.len() && (
                            #[trigger] before[k].connections@[w]) as int == 1;
                        assert(this.nodes@[k].connections@[w] as int == 1);
                    }
                    if !before[k].label_whitelist.contains(Label::Neutral) {
                        let w = choose|w: int|
                            0 <= w < before[k].connections@.len() && (
                            #[trigger] before[k].connections@[w]) as int == 2;
                        assert(this.nodes@[k].connections@[w] as int == 2);
                    }
                }
            }
            i = i + 1;
        }
        this.nodes
    }
}

} // verus!
