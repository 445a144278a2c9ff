//! The boolean intermediate representation: a tagged tree of boolean
//! sub-expressions, a table of named definitions, and an ordered list of
//! value actions, together with the term-rewriting engine that reduces the
//! representation to a normal form.

use vstd::prelude::*;

use crate::atom_tree_to_graph::Label;
use crate::compilation::Compilation;
use crate::diagnostic::DiagnosticType;
use crate::token::AtomType;

verus! {

/// One node of the boolean expression tree.
#[derive(Debug)]
pub enum AtomTree {
    /// An input variable bound to an externally supplied label; a provenance
    /// marker, never inlined away.
    SeedLabel(Label),
    /// A transient protective wrapper; must not appear once the rewrite
    /// engine has finished.
    DoNotRemoveMarker(Box<AtomTree>),
    /// A reference to a definitions entry.
    Variable { id: usize },
    /// A boolean constant.
    AtomType { atom: AtomType },
    /// Logical negation.
    Not(Box<AtomTree>),
    /// N-ary, order-independent, duplicate-insensitive disjunction.
    Or(Vec<AtomTree>),
}

/// The mathematical model of an `AtomTree`: the same shape, with ghost
/// sequences for disjunction operands.
#[verifier::ext_equal]
pub enum SpecTree {
    Seed(Label),
    Marker(Box<SpecTree>),
    Var(int),
    Const(AtomType),
    Neg(Box<SpecTree>),
    Or(Seq<SpecTree>),
}

/// The model of a tree: the same shape with ghost sequences for operands.
pub open spec fn tree_view(t: AtomTree) -> SpecTree
    decreases t,
{
    match t {
        AtomTree::SeedLabel(l) => SpecTree::Seed(l),
        AtomTree::DoNotRemoveMarker(t) => SpecTree::Marker(Box::new(tree_view(*t))),
        AtomTree::Variable { id } => SpecTree::Var(id as int),
        AtomTree::AtomType { atom } => SpecTree::Const(atom),
        AtomTree::Not(t) => SpecTree::Neg(Box::new(tree_view(*t))),
        AtomTree::Or(v) => SpecTree::Or(tree_view_seq(v@)),
    }
}

/// The models of a sequence of trees, element by element.
pub open spec fn tree_view_seq(s: Seq<AtomTree>) -> Seq<SpecTree>
    decreases s,
{
    if s.len() == 0 {
        Seq::empty()
    } else {
        tree_view_seq(s.drop_last()).push(tree_view(s.last()))
    }
}

/// `tree_view_seq` maps `tree_view` over the sequence, pointwise.
pub proof fn lemma_tree_view_seq(s: Seq<AtomTree>)
    ensures
        tree_view_seq(s).len() == s.len(),
        forall|i: int| 0 <= i < s.len() ==> tree_view_seq(s)[i] == tree_view(#[trigger] s[i]),
    decreases s.len(),
{
    if s.len() > 0 {
        lemma_tree_view_seq(s.drop_last());
        assert forall|i: int| 0 <= i < s.len() implies tree_view_seq(s)[i] == tree_view(
            #[trigger] s[i],
        ) by {
            if i < s.len() - 1 {
                assert(s.drop_last()[i] == s[i]);
                assert(tree_view_seq(s)[i] == tree_view_seq(s.drop_last())[i]);
            } else {
                assert(s.last() == s[i]);
            }
        }
    }
}

/// Appending one tree appends its model.
pub proof fn lemma_tree_view_seq_push(s: Seq<AtomTree>, x: AtomTree)
    ensures
        tree_view_seq(s.push(x)) == tree_view_seq(s).push(tree_view(x)),
{
    assert(s.push(x).drop_last() =~= s);
    assert(s.push(x).last() == x);
}

impl View for AtomTree {
    type V = SpecTree;

    open spec fn view(&self) -> SpecTree {
        tree_view(*self)
    }
}

impl AtomTree {
    /// A structural deep copy; the copy has the same model as the original.
    pub fn deep_clone(&self) -> (r: AtomTree)
        ensures
            r@ == self@,
        decreases *self,
    {
        match self {
            AtomTree::SeedLabel(l) => AtomTree::SeedLabel(*l),
            AtomTree::DoNotRemoveMarker(t) => AtomTree::DoNotRemoveMarker(Box::new(t.deep_clone())),
            AtomTree::Variable { id } => AtomTree::Variable { id: *id },
            AtomTree::AtomType { atom } => AtomTree::AtomType { atom: *atom },
            AtomTree::Not(t) => AtomTree::Not(Box::new(t.deep_clone())),
            AtomTree::Or(v) => AtomTree::Or(deep_clone_vec(v)),
        }
    }
}

/// A structural deep copy of a sequence of trees.
fn deep_clone_vec(v: &Vec<AtomTree>) -> (r: Vec<AtomTree>)
    ensures
        r@.len() == v@.len(),
        forall|k: int| 0 <= k < v@.len() ==> r@[k]@ == v@[k]@,
        tree_view_seq(r@) == tree_view_seq(v@),
    decreases *v,
{
    let mut children: Vec<AtomTree> = Vec::new();
    let mut i: usize = 0;
    while i < v.len()
        invariant
            0 <= i <= v.len(),
            children@.len() == i as int,
            forall|k: int| 0 <= k < i ==> children@[k]@ == v@[k]@,
        decreases v.len() - i,
    {
        children.push(v[i].deep_clone());
        i = i + 1;
    }
    proof {
        lemma_tree_view_seq(children@);
        lemma_tree_view_seq(v@);
        assert forall|k: int| 0 <= k < v@.len() implies tree_view_seq(children@)[k]
            == tree_view_seq(v@)[k] by {
            assert(tree_view(children@[k]) == tree_view(v@[k]));
        }
        assert(tree_view_seq(children@) =~= tree_view_seq(v@));
    }
    children
}

impl AtomTree {
    /// Structural equality under `tree_equiv`: disjunction operands are
    /// compared as a set, and seed labels and markers match nothing.
    pub fn eq_tree(&self, other: &AtomTree) -> (r: bool)
        ensures
            r == tree_equiv(self@, other@),
        decreases *self, 0int,
    {
        match (self, other) {
            (AtomTree::Variable { id: x }, AtomTree::Variable { id: y }) => *x == *y,
            (AtomTree::AtomType { atom: x }, AtomTree::AtomType { atom: y }) => *x == *y,
            (AtomTree::Not(x), AtomTree::Not(y)) => x.eq_tree(y),
            (AtomTree::Or(u), AtomTree::Or(v)) => {
                if u.len() != v.len() {
                    proof {
                        lemma_tree_view_seq(u@);
                        lemma_tree_view_seq(v@);
                    }
                    return false;
                }
                proof {
                    lemma_tree_view_seq(u@);
                    lemma_tree_view_seq(v@);
                }
                let c1 = all_contained_in(u, v);
                if !c1 {
                    return false;
                }
                let c2 = all_cover(u, v);
                c2
            },
            _ => false,
        }
    }
}

/// Every operand of `u` has a `tree_equiv` partner in `v`.
fn all_contained_in(u: &Vec<AtomTree>, v: &Vec<AtomTree>) -> (r: bool)
    ensures
        r == (forall|i: int|
            0 <= i < tree_view_seq(u@).len() ==> seq_contains_equiv(
                tree_view_seq(v@),
                #[trigger] tree_view_seq(u@)[i],
            )),
    decreases *u, 2int,
{
    proof {
        lemma_tree_view_seq(u@);
    }
    let mut i: usize = 0;
    while i < u.len()
        invariant
            0 <= i <= u@.len(),
            tree_view_seq(u@).len() == u@.len(),
            forall|k: int|
                0 <= k < i ==> seq_contains_equiv(tree_view_seq(v@), #[trigger] tree_view_seq(
                    u@,
                )[k]),
        decreases u@.len() - i,
    {
        let found = contained_in(&u[i], v);
        proof {
            lemma_tree_view_seq(u@);
        }
        if !found {
            return false;
        }
        i = i + 1;
    }
    true
}

/// Some operand of `v` is a `tree_equiv` partner of `x`, `x` on the left.
fn contained_in(x: &AtomTree, v: &Vec<AtomTree>) -> (r: bool)
    ensures
        r == seq_contains_equiv(tree_view_seq(v@), x@),
    decreases *x, 1int,
{
    proof {
        lemma_tree_view_seq(v@);
    }
    let mut j: usize = 0;
    let mut found = false;
    while j < v.len()
        invariant
            0 <= j <= v@.len(),
            tree_view_seq(v@).len() == v@.len(),
            forall|k: int| 0 <= k < v@.len() ==> tree_view_seq(v@)[k] == tree_view(#[trigger] v@[k]),
            found == (exists|j0: int|
                0 <= j0 < j && tree_equiv(x@, #[trigger] tree_view_seq(v@)[j0])),
        decreases v@.len() - j,
    {
        if x.eq_tree(&v[j]) {
            found = true;
        }
        j = j + 1;
    }
    found
}

/// Every operand of `v` has a `tree_equiv` partner in `u`, partners on the
/// left.
fn all_cover(u: &Vec<AtomTree>, v: &Vec<AtomTree>) -> (r: bool)
    ensures
        r == (forall|j: int|
            0 <= j < tree_view_seq(v@).len() ==> seq_covered_by(
                tree_view_seq(u@),
                #[trigger] tree_view_seq(v@)[j],
            )),
    decreases *u, 2int,
{
    proof {
        lemma_tree_view_seq(v@);
    }
    let mut j: usize = 0;
    while j < v.len()
        invariant
            0 <= j <= v@.len(),
            tree_view_seq(v@).len() == v@.len(),
            forall|k: int|
                0 <= k < j ==> seq_covered_by(tree_view_seq(u@), #[trigger] tree_view_seq(v@)[k]),
        decreases v@.len() - j,
    {
        let found = covers(u, &v[j]);
        proof {
            lemma_tree_view_seq(v@);
        }
        if !found {
            return false;
        }
        j = j + 1;
    }
    true
}

/// Some operand of `u` is a `tree_equiv` partner of `y`, `y` on the right.
fn covers(u: &Vec<AtomTree>, y: &AtomTree) -> (r: bool)
    ensures
        r == seq_covered_by(tree_view_seq(u@), y@),
    decreases *u, 1int,
{
    proof {
        lemma_tree_view_seq(u@);
    }
    let mut i: usize = 0;
    let mut found = false;
    while i < u.len()
        invariant
            0 <= i <= u@.len(),
            tree_view_seq(u@).len() == u@.len(),
            forall|k: int| 0 <= k < u@.len() ==> tree_view_seq(u@)[k] == tree_view(#[trigger] u@[k]),
            found == (exists|i0: int|
                0 <= i0 < i && tree_equiv(#[trigger] tree_view_seq(u@)[i0], y@)),
        decreases u@.len() - i,
    {
        if u[i].eq_tree(y) {
            found = true;
        }
        i = i + 1;
    }
    found
}

impl AtomTree {
    /// Bottom-up local algebraic rewriting to a fixed point: double negation
    /// and constant negation are rewritten, disjunctions are short-circuited
    /// on `true`, stripped of `false`, flattened, deduplicated, and collapsed
    /// when empty or singleton. Raises `changed` on every net rewrite; an
    /// already-normal tree comes back unchanged with the flag untouched.
    #[verifier::loop_isolation(false)]
    #[verifier::rlimit(100)]
    pub fn simp_rec(self, changed: &mut bool) -> (r: Self)
        ensures
            r@ == norm(self@),
            *old(changed) ==> *final(changed),
            !*final(changed) ==> r@ == self@,
            normalized(self@) ==> r@ == self@ && *final(changed) == *old(changed),
        decreases self, 1int,
    {
        let ghost st = self@;
        let ghost changed0 = *changed;
        match self {
            AtomTree::Not(a) => {
                let na = a.simp_rec(changed);
                match na {
                    AtomTree::Not(y) => {
                        *changed = true;
                        *y
                    },
                    AtomTree::AtomType { atom } => {
                        *changed = true;
                        AtomTree::AtomType { atom: atom.not() }
                    },
                    other => AtomTree::Not(Box::new(other)),
                }
            },
            AtomTree::Or(v) => {
                let ghost vs = tree_view_seq(v@);
                proof {
                    lemma_tree_view_seq(v@);
                }
                proof {
                    assert(st == SpecTree::Or(vs));
                    if normalized(st) {
                        assert forall|k2: int| 0 <= k2 < v@.len() implies normalized(
                            #[trigger] v@[k2]@,
                        ) by {
                            assert(vs[k2] == tree_view(v@[k2]));
                            assert(normalized(vs[k2]));
                        }
                    }
                }
                let nv = simp_rec_vec(v, changed);
                let ghost nu = tree_view_seq(nv@);
                proof {
                    lemma_tree_view_seq(nv@);
                    lemma_norm_seq(vs);
                    assert forall|k2: int| 0 <= k2 < nu.len() implies nu[k2] == norm_seq(vs)[k2] by {
                        assert(nu[k2] == tree_view(nv@[k2]));
                        assert(nv@[k2]@ == norm(v@[k2]@));
                        assert(vs[k2] == tree_view(v@[k2]));
                    }
                    assert(nu =~= norm_seq(vs));
                    if !*changed {
                        assert forall|k2: int| 0 <= k2 < nu.len() implies nu[k2] == vs[k2] by {
                            assert(nv@[k2]@ == v@[k2]@);
                        }
                        assert(nu =~= vs);
                    }
                    if normalized(st) {
                        assert forall|k2: int| 0 <= k2 < nu.len() implies nu[k2] == vs[k2] by {
                            assert(nv@[k2]@ == v@[k2]@);
                        }
                        assert(nu =~= vs);
                    }
                }
                let mut rem = nv;
                let mut acc: Vec<AtomTree> = Vec::new();
                let ghost k: int = 0;
                proof {
                    assert(nu.take(0) =~= Seq::<SpecTree>::empty());
                    assert(flatten_ors(Seq::<SpecTree>::empty()) =~= Seq::<SpecTree>::empty());
                    assert(dedup_equiv(Seq::<SpecTree>::empty()) =~= Seq::<SpecTree>::empty());
                    assert(tree_view_seq(acc@) =~= Seq::<SpecTree>::empty());
                    assert(vs.take(0) =~= Seq::<SpecTree>::empty());
                }
                while rem.len() > 0
                    invariant
                        0 <= k <= nu.len(),
                        rem@.len() == nu.len() - k,
                        forall|k2: int| 0 <= k2 < rem@.len() ==> rem@[k2]@ == nu[k + k2],
                        forall|k0: int| 0 <= k0 < k ==> nu[k0] != SpecTree::Const(AtomType::True),
                        tree_view_seq(acc@) == dedup_equiv(flatten_ors(nu.take(k))),
                        changed0 ==> *changed,
                        !*changed ==> (changed0 == false && tree_view_seq(acc@) =~= nu.take(k)
                            && nu =~= vs),
                        normalized(st) ==> (*changed == changed0 && nu =~= vs && tree_view_seq(
                            acc@,
                        ) =~= vs.take(k)),
                    decreases rem@.len(),
                {
                    proof {
                        lemma_tree_view_seq(rem@);
                        lemma_tree_view_seq(acc@);
                    }
                    let x = rem.remove(0);
                    let ghost kk = k;
                    proof {
                        k = k + 1;
                        assert(x@ == nu[kk]);
                        assert(nu.take(kk + 1) =~= nu.take(kk).push(nu[kk]));
                        lemma_flatten_ors_append(nu.take(kk), seq![nu[kk]]);
                        assert(nu.take(kk) + seq![nu[kk]] =~= nu.take(kk + 1));
                        assert(seq![nu[kk]].drop_first() =~= Seq::<SpecTree>::empty());
                    }
                    match x {
                        AtomTree::AtomType { atom } => {
                            if atom.is_true() {
                                *changed = true;
                                proof {
                                    assert(seq_has_true(nu));
                                    if normalized(st) {
                                        assert(vs[kk] == nu[kk]);
                                        assert(false);
                                    }
                                }
                                return AtomTree::AtomType { atom: AtomType::True };
                            } else {
                                *changed = true;
                                proof {
                                    assert(flatten_ors(nu.take(kk + 1)) =~= flatten_ors(nu.take(kk)));
                                    if normalized(st) {
                                        assert(vs[kk] == nu[kk]);
                                        assert(false);
                                    }
                                }
                            }
                        },
                        AtomTree::Or(w) => {
                            *changed = true;
                            proof {
                                if normalized(st) {
                                    assert(vs[kk] == nu[kk]);
                                    assert(false);
                                }
                                assert(x@ == SpecTree::Or(tree_view_seq(w@)));
                                assert(flatten_ors(seq![nu[kk]]) =~= tree_view_seq(w@) + Seq::<
                                    SpecTree,
                                >::empty());
                                assert(flatten_ors(seq![nu[kk]]) =~= tree_view_seq(w@));
                                assert(flatten_ors(nu.take(kk + 1)) =~= flatten_ors(nu.take(kk))
                                    + tree_view_seq(w@));
                            }
                            let ghost ws = tree_view_seq(w@);
                            proof {
                                lemma_tree_view_seq(w@);
                            }
                            let mut wrem = w;
                            let ghost j: int = 0;
                            while wrem.len() > 0
                                invariant
                                    0 <= j <= ws.len(),
                                    wrem@.len() == ws.len() - j,
                                    forall|k2: int| 0 <= k2 < wrem@.len() ==> wrem@[k2]@ == ws[j + k2],
                                    tree_view_seq(acc@) == dedup_equiv(
                                        flatten_ors(nu.take(kk)) + ws.take(j),
                                    ),
                                decreases wrem@.len(),
                                {
                                proof {
                                    lemma_tree_view_seq(wrem@);
                                    lemma_tree_view_seq(acc@);
                                }
                                let y = wrem.remove(0);
                                let ghost jj = j;
                                proof {
                                    j = j + 1;
                                    assert(y@ == ws[jj]);
                                    lemma_dedup_equiv_push(flatten_ors(nu.take(kk)) + ws.take(jj), ws[jj]);
                                    assert((flatten_ors(nu.take(kk)) + ws.take(jj)).push(ws[jj])
                                        =~= flatten_ors(nu.take(kk)) + ws.take(jj + 1));
                                }
                                let ghost acc_before = acc@;
                                let dup = contained_in(&y, &acc);
                                if !dup {
                                    acc.push(y);
                                    proof {
                                        lemma_tree_view_seq_push(acc_before, y);
                                        assert(tree_view_seq(acc@) =~= dedup_equiv(
                                            flatten_ors(nu.take(kk)) + ws.take(jj),
                                        ).push(ws[jj]));
                                    }
                                } else {
                                    proof {
                                        assert(dedup_equiv(flatten_ors(nu.take(kk)) + ws.take(jj + 1))
                                            == dedup_equiv(flatten_ors(nu.take(kk)) + ws.take(jj)));
                                    }
                                }
                            }
                            proof {
                                assert(ws.take(j) =~= ws);
                                assert(flatten_ors(nu.take(kk)) + ws =~= flatten_ors(nu.take(kk + 1)));
                            }
                        },
                        other => {
                            let ghost acc_before = acc@;
                            let dup = contained_in(&other, &acc);
                            proof {
                                assert(!(nu[kk] is Or) && !(nu[kk] is Const));
                                assert(flatten_ors(seq![nu[kk]]) =~= seq![nu[kk]] + Seq::<
                                    SpecTree,
                                >::empty());
                                assert(flatten_ors(nu.take(kk)) + seq![nu[kk]] =~= flatten_ors(
                                    nu.take(kk),
                                ).push(nu[kk]));
                                assert(flatten_ors(nu.take(kk + 1)) =~= flatten_ors(nu.take(kk)).push(
                                    nu[kk],
                                ));
                                lemma_dedup_equiv_push(flatten_ors(nu.take(kk)), nu[kk]);
                            }
                            if dup {
                                *changed = true;
                                proof {
                                    if normalized(st) {
                                        assert(nu =~= vs);
                                        assert(tree_view_seq(acc@) =~= vs.take(kk));
                                        let jdup = choose|jd: int|
                                            0 <= jd < tree_view_seq(acc@).len() && tree_equiv(
                                                other@,
                                                tree_view_seq(acc@)[jd],
                                            );
                                        assert(tree_equiv(vs[kk], vs[jdup]));
                                        assert(false);
                                    }
                                }
                            } else {
                                acc.push(other);
                                proof {
                                    lemma_tree_view_seq_push(acc_before, other);
                                    assert(tree_view_seq(acc@) =~= dedup_equiv(
                                        flatten_ors(nu.take(kk)),
                                    ).push(nu[kk]));
                                    if normalized(st) {
                                        assert(tree_view_seq(acc@) =~= vs.take(kk + 1));
                                    }
                                    if !*changed {
                                        assert(tree_view_seq(acc@) =~= nu.take(kk + 1));
                                    }
                                }
                            }
                        },
                    }
                }
                proof {
                    assert(k == nu.len());
                    assert(nu.take(k) =~= nu);
                    assert(!seq_has_true(nu));
                    lemma_tree_view_seq(acc@);
                }
                let ghost r_seq = dedup_equiv(flatten_ors(nu));
                if acc.len() == 0 {
                    *changed = true;
                    proof {
                        if normalized(st) {
                            assert(vs.take(k) =~= vs);
                            assert(false);
                        }
                    }
                    AtomTree::AtomType { atom: AtomType::False }
                } else if acc.len() == 1 {
                    *changed = true;
                    proof {
                        if normalized(st) {
                            assert(vs.take(k) =~= vs);
                            assert(false);
                        }
                    }
                    let r = acc.pop().unwrap();
                    proof {
                        lemma_tree_view_seq_push(acc@, r);
                        assert(r@ == tree_view_seq(acc@.push(r))[0]);
                    }
                    r
                } else {
                    proof {
                        if normalized(st) {
                            assert(vs.take(k) =~= vs);
                            assert(tree_view_seq(acc@) =~= vs);
                        }
                        if !*changed {
                            assert(nu.take(k) =~= nu);
                            assert(tree_view_seq(acc@) =~= vs);
                        }
                    }
                    AtomTree::Or(acc)
                }
            },
            other => other,
        }
    }
}

impl AtomTree {
    /// One local rewriting step at the root: double negation, constant
    /// negation, or one disjunction normalization pass (short-circuit on
    /// `true`, drop `false`, splice nested disjunctions, deduplicate,
    /// collapse empty and singleton operand lists).
    #[verifier::loop_isolation(false)]
    #[verifier::rlimit(60)]
    pub fn simp(self) -> (r: (bool, Self))
        ensures
            r.0 == simp_step(self@).0,
            r.1@ == simp_step(self@).1,
    {
        let ghost st = self@;
        match self {
            AtomTree::Not(a) => {
                let ghost ga = (*a)@;
                proof {
                    assert(st == SpecTree::Neg(Box::new(ga)));
                }
                match *a {
                    AtomTree::Not(y) => {
                        proof {
                            assert(ga == SpecTree::Neg(Box::new((*y)@)));
                            assert(simp_step(st) == (true, (*y)@));
                        }
                        (true, *y)
                    },
                    AtomTree::AtomType { atom } => {
                        proof {
                            assert(ga == SpecTree::Const(atom));
                            assert(simp_step(st) == (true, SpecTree::Const(atom.spec_not())));
                        }
                        (true, AtomTree::AtomType { atom: atom.not() })
                    },
                    other => {
                        proof {
                            assert(ga == other@);
                            assert(simp_step(st) == (false, st));
                        }
                        (false, AtomTree::Not(Box::new(other)))
                    },
                }
            },
            AtomTree::Or(v) => {
                let ghost us = tree_view_seq(v@);
                proof {
                    lemma_tree_view_seq(v@);
                    assert(st == SpecTree::Or(us));
                    assert(us.take(0) =~= Seq::<SpecTree>::empty());
                    assert(flatten_ors(Seq::<SpecTree>::empty()) =~= Seq::<SpecTree>::empty());
                    assert(dedup_equiv(Seq::<SpecTree>::empty()) =~= Seq::<SpecTree>::empty());
                }
                let mut rem = v;
                let mut acc: Vec<AtomTree> = Vec::new();
                let mut spliced = false;
                let ghost k: int = 0;
                proof {
                    assert(tree_view_seq(acc@) =~= Seq::<SpecTree>::empty());
                }
                while rem.len() > 0
                    invariant
                        0 <= k <= us.len(),
                        rem@.len() == us.len() - k,
                        forall|k2: int| 0 <= k2 < rem@.len() ==> rem@[k2]@ == us[k + k2],
                        forall|k0: int| 0 <= k0 < k ==> us[k0] != SpecTree::Const(AtomType::True),
                        tree_view_seq(acc@) == dedup_equiv(flatten_ors(us.take(k))),
                        spliced == (exists|i: int| 0 <= i < k && (#[trigger] us[i]) is Or),
                    decreases rem@.len(),
                {
                    proof {
                        lemma_tree_view_seq(rem@);
                        lemma_tree_view_seq(acc@);
                    }
                    let x = rem.remove(0);
                    let ghost kk = k;
                    proof {
                        k = k + 1;
                        assert(x@ == us[kk]);
                        assert(us.take(kk + 1) =~= us.take(kk).push(us[kk]));
                        lemma_flatten_ors_append(us.take(kk), seq![us[kk]]);
                        assert(us.take(kk) + seq![us[kk]] =~= us.take(kk + 1));
                        assert(seq![us[kk]].drop_first() =~= Seq::<SpecTree>::empty());
                    }
                    match x {
                        AtomTree::AtomType { atom } => {
                            if atom.is_true() {
                                proof {
                                    assert(us[kk] == SpecTree::Const(AtomType::True));
                                    assert(seq_has_true(us));
                                }
                                return (true, AtomTree::AtomType { atom: AtomType::True });
                            } else {
                                proof {
                                    assert(flatten_ors(us.take(kk + 1)) =~= flatten_ors(
                                        us.take(kk),
                                    ));
                                }
                            }
                        },
                        AtomTree::Or(w) => {
                            spliced = true;
                            proof {
                                assert(x@ == SpecTree::Or(tree_view_seq(w@)));
                                assert((us[kk]) is Or);
                                assert(flatten_ors(seq![us[kk]]) =~= tree_view_seq(w@) + Seq::<
                                    SpecTree,
                                >::empty());
                                assert(flatten_ors(seq![us[kk]]) =~= tree_view_seq(w@));
                                assert(flatten_ors(us.take(kk + 1)) =~= flatten_ors(us.take(kk))
                                    + tree_view_seq(w@));
                            }
                            let ghost ws = tree_view_seq(w@);
                            proof {
                                lemma_tree_view_seq(w@);
                                assert(ws.take(0) =~= Seq::<SpecTree>::empty());
                                assert(flatten_ors(us.take(kk)) + ws.take(0) =~= flatten_ors(
                                    us.take(kk),
                                ));
                            }
                            let mut wrem = w;
                            let ghost j: int = 0;
                            while wrem.len() > 0
                                invariant
                                    0 <= j <= ws.len(),
                                    wrem@.len() == ws.len() - j,
                                    forall|k2: int|
                                        0 <= k2 < wrem@.len() ==> wrem@[k2]@ == ws[j + k2],
                                    tree_view_seq(acc@) == dedup_equiv(
                                        flatten_ors(us.take(kk)) + ws.take(j),
                                    ),
                                decreases wrem@.len(),
                            {
                                proof {
                                    lemma_tree_view_seq(wrem@);
                                    lemma_tree_view_seq(acc@);
                                }
                                let y = wrem.remove(0);
                                let ghost jj = j;
                                proof {
                                    j = j + 1;
                                    assert(y@ == ws[jj]);
                                    lemma_dedup_equiv_push(
                                        flatten_ors(us.take(kk)) + ws.take(jj),
                                        ws[jj],
                                    );
                                    assert((flatten_ors(us.take(kk)) + ws.take(jj)).push(ws[jj])
                                        =~= flatten_ors(us.take(kk)) + ws.take(jj + 1));
                                }
                                let ghost acc_before = acc@;
                                let dup = contained_in(&y, &acc);
                                if !dup {
                                    acc.push(y);
                                    proof {
                                        lemma_tree_view_seq_push(acc_before, y);
                                        assert(tree_view_seq(acc@) =~= dedup_equiv(
                                            flatten_ors(us.take(kk)) + ws.take(jj),
                                        ).push(ws[jj]));
                                    }
                                } else {
                                    proof {
                                        assert(dedup_equiv(
                                            flatten_ors(us.take(kk)) + ws.take(jj + 1),
                                        ) == dedup_equiv(flatten_ors(us.take(kk)) + ws.take(jj)));
                                    }
                                }
                            }
                            proof {
                                assert(ws.take(j) =~= ws);
                                assert(flatten_ors(us.take(kk)) + ws =~= flatten_ors(
                                    us.take(kk + 1),
                                ));
                            }
                        },
                        other => {
                            let ghost acc_before = acc@;
                            let dup = contained_in(&other, &acc);
                            proof {
                                assert(!(us[kk] is Or) && !(us[kk] is Const));
                                assert(flatten_ors(seq![us[kk]]) =~= seq![us[kk]] + Seq::<
                                    SpecTree,
                                >::empty());
                                assert(flatten_ors(us.take(kk)) + seq![us[kk]] =~= flatten_ors(
                                    us.take(kk),
                                ).push(us[kk]));
                                assert(flatten_ors(us.take(kk + 1)) =~= flatten_ors(
                                    us.take(kk),
                                ).push(us[kk]));
                                lemma_dedup_equiv_push(flatten_ors(us.take(kk)), us[kk]);
                            }
                            if !dup {
                                acc.push(other);
                                proof {
                                    lemma_tree_view_seq_push(acc_before, other);
                                    assert(tree_view_seq(acc@) =~= dedup_equiv(flatten_ors(
                                        us.take(kk),
                                    )).push(us[kk]));
                                }
                            }
                        },
                    }
                }
                proof {
                    assert(k == us.len());
                    assert(us.take(k) =~= us);
                    assert(!seq_has_true(us));
                    lemma_tree_view_seq(acc@);
                }
                if acc.len() == 0 {
                    (true, AtomTree::AtomType { atom: AtomType::False })
                } else if acc.len() == 1 {
                    let r = acc.pop().unwrap();
                    proof {
                        lemma_tree_view_seq_push(acc@, r);
                        assert(r@ == tree_view_seq(acc@.push(r))[0]);
                    }
                    (true, r)
                } else {
                    (spliced, AtomTree::Or(acc))
                }
            },
            other => (false, other),
        }
    }
}

/// `simp_rec`, applied to every tree of a vector, in order.
#[verifier::loop_isolation(false)]
fn simp_rec_vec(v: Vec<AtomTree>, changed: &mut bool) -> (r: Vec<AtomTree>)
    ensures
        r@.len() == v@.len(),
        forall|k: int| 0 <= k < v@.len() ==> (#[trigger] r@[k])@ == norm(v@[k]@),
        *old(changed) ==> *final(changed),
        !*final(changed) ==> (forall|k: int| 0 <= k < v@.len() ==> (#[trigger] r@[k])@ == v@[k]@),
        (forall|k: int| 0 <= k < v@.len() ==> normalized(#[trigger] v@[k]@)) ==> ((forall|k: int|
            0 <= k < v@.len() ==> (#[trigger] r@[k])@ == v@[k]@) && *final(changed) == *old(
            changed,
        )),
    decreases v, 2int,
{
    let ghost vv = v;
    let ghost orig = v@;
    let ghost changed0 = *changed;
    let mut rem = v;
    let mut out: Vec<AtomTree> = Vec::new();
    while rem.len() > 0
        invariant
            out@.len() + rem@.len() == orig.len(),
            forall|k2: int| 0 <= k2 < rem@.len() ==> rem@[k2] == orig[out@.len() + k2],
            forall|k: int| 0 <= k < out@.len() ==> (#[trigger] out@[k])@ == norm(orig[k]@),
            changed0 ==> *changed,
            !*changed ==> (changed0 == false && forall|k: int|
                0 <= k < out@.len() ==> (#[trigger] out@[k])@ == orig[k]@),
            (forall|k: int| 0 <= k < orig.len() ==> normalized(#[trigger] orig[k]@)) ==> ((forall|
                k: int,
            |
                0 <= k < out@.len() ==> (#[trigger] out@[k])@ == orig[k]@) && *changed == changed0),
        decreases rem@.len(),
    {
        let x = rem.remove(0);
        proof {
            assert(x == orig[out@.len() as int]);
            vstd::std_specs::vec::axiom_vec_index_decreases(vv, out@.len() as int);
        }
        let nx = x.simp_rec(changed);
        out.push(nx);
    }
    out
}

impl Clone for AtomTree {
    /// The clone has the same model as the original.
    fn clone(&self) -> (r: Self)
        ensures
            r@ == self@,
    {
        self.deep_clone()
    }
}

/// Structural equality on trees, where the operand collection of a
/// disjunction is compared as a set, not as a sequence. Seed labels and
/// protective markers compare unequal even to themselves, so a tree that
/// contains either never matches another tree.
pub open spec fn tree_equiv(a: SpecTree, b: SpecTree) -> bool
    decreases a, 0int,
{
    match (a, b) {
        (SpecTree::Var(x), SpecTree::Var(y)) => x == y,
        (SpecTree::Const(x), SpecTree::Const(y)) => x == y,
        (SpecTree::Neg(x), SpecTree::Neg(y)) => tree_equiv(*x, *y),
        (SpecTree::Or(u), SpecTree::Or(v)) => {
            &&& u.len() == v.len()
            &&& forall|i: int| 0 <= i < u.len() ==> seq_contains_equiv(v, #[trigger] u[i])
            &&& forall|j: int| 0 <= j < v.len() ==> seq_covered_by(u, #[trigger] v[j])
        },
        _ => false,
    }
}

/// Some member of `s` is equivalent to `x`, with `x` on the left.
pub open spec fn seq_contains_equiv(s: Seq<SpecTree>, x: SpecTree) -> bool
    decreases x, 1int,
{
    exists|j: int| 0 <= j < s.len() && tree_equiv(x, #[trigger] s[j])
}

/// Some member of `u` is equivalent to `y`, with `y` on the right.
pub open spec fn seq_covered_by(u: Seq<SpecTree>, y: SpecTree) -> bool
    decreases u, 1int,
{
    exists|i: int| 0 <= i < u.len() && tree_equiv(#[trigger] u[i], y)
}

/// Some member of `s` is the constant `true`.
pub open spec fn seq_has_true(s: Seq<SpecTree>) -> bool {
    exists|i: int| 0 <= i < s.len() && #[trigger] s[i] == SpecTree::Const(AtomType::True)
}

/// One flattening pass over disjunction operands: nested disjunctions are
/// spliced in place and boolean constants are dropped. Assumes the constant
/// `true` has already been handled by short-circuiting.
pub open spec fn flatten_ors(s: Seq<SpecTree>) -> Seq<SpecTree>
    decreases s,
{
    if s.len() == 0 {
        Seq::empty()
    } else {
        let rest = flatten_ors(s.drop_first());
        match s[0] {
            SpecTree::Const(c) => rest,
            SpecTree::Or(w) => w + rest,
            _ => seq![s[0]] + rest,
        }
    }
}

/// Removes duplicates under `tree_equiv`, keeping the first occurrence.
pub open spec fn dedup_equiv(s: Seq<SpecTree>) -> Seq<SpecTree>
    decreases s.len(),
{
    if s.len() == 0 {
        Seq::empty()
    } else {
        let rest = dedup_equiv(s.drop_last());
        if seq_contains_equiv(rest, s.last()) {
            rest
        } else {
            rest.push(s.last())
        }
    }
}

/// The normal form of the local algebraic rewriting pass: children first,
/// then double negation, constant negation, and disjunction normalization
/// (short-circuit on `true`, drop `false`, flatten, deduplicate, collapse
/// empty and singleton operand lists). Seed labels, variables, and protective
/// markers are opaque.
pub open spec fn norm(t: SpecTree) -> SpecTree
    decreases t, 1int,
{
    match t {
        SpecTree::Neg(x) => {
            let nx = norm(*x);
            match nx {
                SpecTree::Neg(y) => *y,
                SpecTree::Const(c) => SpecTree::Const(c.spec_not()),
                _ => SpecTree::Neg(Box::new(nx)),
            }
        },
        SpecTree::Or(u) => {
            let nu = norm_seq(u);
            if seq_has_true(nu) {
                SpecTree::Const(AtomType::True)
            } else {
                let r = dedup_equiv(flatten_ors(nu));
                if r.len() == 0 {
                    SpecTree::Const(AtomType::False)
                } else if r.len() == 1 {
                    r[0]
                } else {
                    SpecTree::Or(r)
                }
            }
        },
        _ => t,
    }
}

/// `norm`, applied to every operand of a disjunction.
pub open spec fn norm_seq(s: Seq<SpecTree>) -> Seq<SpecTree>
    decreases s, 2int,
{
    if s.len() == 0 {
        Seq::empty()
    } else {
        norm_seq(s.drop_last()).push(norm(s.last()))
    }
}

/// `norm_seq` maps `norm` over the sequence, pointwise.
pub proof fn lemma_norm_seq(s: Seq<SpecTree>)
    ensures
        norm_seq(s).len() == s.len(),
        forall|i: int| 0 <= i < s.len() ==> norm_seq(s)[i] == norm(#[trigger] s[i]),
    decreases s.len(),
{
    if s.len() > 0 {
        lemma_norm_seq(s.drop_last());
        assert forall|i: int| 0 <= i < s.len() implies norm_seq(s)[i] == norm(#[trigger] s[i]) by {
            if i < s.len() - 1 {
                assert(s.drop_last()[i] == s[i]);
            } else {
                assert(s.last() == s[i]);
            }
        }
    }
}

/// `tree_equiv` is symmetric.
pub proof fn lemma_tree_equiv_sym(a: SpecTree, b: SpecTree)
    ensures
        tree_equiv(a, b) == tree_equiv(b, a),
    decreases a,
{
    match (a, b) {
        (SpecTree::Neg(x), SpecTree::Neg(y)) => {
            lemma_tree_equiv_sym(*x, *y);
        },
        (SpecTree::Or(u), SpecTree::Or(v)) => {
            if tree_equiv(a, b) {
                assert forall|j: int| 0 <= j < v.len() implies seq_contains_equiv(
                    u,
                    #[trigger] v[j],
                ) by {
                    assert(seq_covered_by(u, v[j]));
                    let i = choose|i: int| 0 <= i < u.len() && tree_equiv(#[trigger] u[i], v[j]);
                    lemma_tree_equiv_sym(u[i], v[j]);
                    assert(tree_equiv(v[j], u[i]));
                }
                assert forall|i: int| 0 <= i < u.len() implies seq_covered_by(
                    v,
                    #[trigger] u[i],
                ) by {
                    assert(seq_contains_equiv(v, u[i]));
                    let j = choose|j: int| 0 <= j < v.len() && tree_equiv(u[i], #[trigger] v[j]);
                    lemma_tree_equiv_sym(u[i], v[j]);
                    assert(tree_equiv(v[j], u[i]));
                }
                assert(tree_equiv(b, a));
            }
            if tree_equiv(b, a) {
                assert forall|i: int| 0 <= i < u.len() implies seq_contains_equiv(
                    v,
                    #[trigger] u[i],
                ) by {
                    assert(seq_covered_by(v, u[i]));
                    let j = choose|j: int| 0 <= j < v.len() && tree_equiv(#[trigger] v[j], u[i]);
                    lemma_tree_equiv_sym(u[i], v[j]);
                    assert(tree_equiv(u[i], v[j]));
                }
                assert forall|j: int| 0 <= j < v.len() implies seq_covered_by(
                    u,
                    #[trigger] v[j],
                ) by {
                    assert(seq_contains_equiv(u, v[j]));
                    let i = choose|i: int| 0 <= i < u.len() && tree_equiv(v[j], #[trigger] u[i]);
                    lemma_tree_equiv_sym(u[i], v[j]);
                    assert(tree_equiv(u[i], v[j]));
                }
                assert(tree_equiv(a, b));
            }
        },
        _ => {},
    }
}

/// `tree_equiv` is transitive: together with symmetry this makes it an
/// equivalence on the trees that match themselves, so a disjunction's
/// operand collection genuinely behaves as a set.
pub proof fn lemma_tree_equiv_trans(a: SpecTree, b: SpecTree, c: SpecTree)
    requires
        tree_equiv(a, b),
        tree_equiv(b, c),
    ensures
        tree_equiv(a, c),
    decreases a,
{
    match (a, b, c) {
        (SpecTree::Neg(x), SpecTree::Neg(y), SpecTree::Neg(z)) => {
            lemma_tree_equiv_trans(*x, *y, *z);
        },
        (SpecTree::Or(u), SpecTree::Or(v), SpecTree::Or(w)) => {
            assert forall|i: int| 0 <= i < u.len() implies seq_contains_equiv(
                w,
                #[trigger] u[i],
            ) by {
                assert(seq_contains_equiv(v, u[i]));
                let j = choose|j: int| 0 <= j < v.len() && tree_equiv(u[i], #[trigger] v[j]);
                assert(seq_contains_equiv(w, v[j]));
                let k = choose|k: int| 0 <= k < w.len() && tree_equiv(v[j], #[trigger] w[k]);
                lemma_tree_equiv_trans(u[i], v[j], w[k]);
            }
            assert forall|k: int| 0 <= k < w.len() implies seq_covered_by(
                u,
                #[trigger] w[k],
            ) by {
                assert(seq_covered_by(v, w[k]));
                let j = choose|j: int| 0 <= j < v.len() && tree_equiv(#[trigger] v[j], w[k]);
                assert(seq_covered_by(u, v[j]));
                let i = choose|i: int| 0 <= i < u.len() && tree_equiv(#[trigger] u[i], v[j]);
                lemma_tree_equiv_trans(u[i], v[j], w[k]);
            }
        },
        _ => {},
    }
}

/// Flattening distributes over concatenation.
pub proof fn lemma_flatten_ors_append(s1: Seq<SpecTree>, s2: Seq<SpecTree>)
    ensures
        flatten_ors(s1 + s2) == flatten_ors(s1) + flatten_ors(s2),
    decreases s1.len(),
{
    if s1.len() == 0 {
        assert(s1 + s2 =~= s2);
        assert(flatten_ors(s1) + flatten_ors(s2) =~= flatten_ors(s2));
    } else {
        lemma_flatten_ors_append(s1.drop_first(), s2);
        assert((s1 + s2).drop_first() =~= s1.drop_first() + s2);
        assert((s1 + s2)[0] == s1[0]);
        assert((s1 + s2).len() > 0);
        match s1[0] {
            SpecTree::Const(c) => {},
            SpecTree::Or(w) => {
                assert(w + (flatten_ors(s1.drop_first()) + flatten_ors(s2)) =~= (w + flatten_ors(
                    s1.drop_first(),
                )) + flatten_ors(s2));
            },
            _ => {
                assert(seq![s1[0]] + (flatten_ors(s1.drop_first()) + flatten_ors(s2)) =~= (seq![
                    s1[0],
                ] + flatten_ors(s1.drop_first())) + flatten_ors(s2));
            },
        }
    }
}

/// One deduplication step: appending an element keeps the result unchanged
/// when an equivalent element is already present.
pub proof fn lemma_dedup_equiv_push(s: Seq<SpecTree>, x: SpecTree)
    ensures
        dedup_equiv(s.push(x)) == if seq_contains_equiv(dedup_equiv(s), x) {
            dedup_equiv(s)
        } else {
            dedup_equiv(s).push(x)
        },
{
    assert(s.push(x).drop_last() =~= s);
    assert(s.push(x).last() == x);
}

/// Every element of a flattened sequence is drawn from a normalized operand
/// list: normalized, not a disjunction, not a constant.
pub proof fn lemma_flatten_props(s: Seq<SpecTree>)
    requires
        forall|i: int| 0 <= i < s.len() ==> normalized(#[trigger] s[i]),
    ensures
        forall|i: int|
            0 <= i < flatten_ors(s).len() ==> normalized(#[trigger] flatten_ors(s)[i]) && !(
            flatten_ors(s)[i] is Or) && !(flatten_ors(s)[i] is Const),
    decreases s.len(),
{
    if s.len() > 0 {
        assert forall|i: int| 0 <= i < s.drop_first().len() implies normalized(
            #[trigger] s.drop_first()[i],
        ) by {
            assert(s.drop_first()[i] == s[i + 1]);
        }
        lemma_flatten_props(s.drop_first());
        let rest = flatten_ors(s.drop_first());
        match s[0] {
            SpecTree::Const(c) => {},
            SpecTree::Or(w) => {
                assert(normalized(s[0]));
                assert forall|i: int| 0 <= i < flatten_ors(s).len() implies normalized(
                    #[trigger] flatten_ors(s)[i],
                ) && !(flatten_ors(s)[i] is Or) && !(flatten_ors(s)[i] is Const) by {
                    if i < w.len() {
                        assert((w + rest)[i] == w[i]);
                        assert(normalized(w[i]) && !(w[i] is Or) && !(w[i] is Const));
                    } else {
                        assert((w + rest)[i] == rest[i - w.len()]);
                    }
                }
            },
            _ => {
                assert forall|i: int| 0 <= i < flatten_ors(s).len() implies normalized(
                    #[trigger] flatten_ors(s)[i],
                ) && !(flatten_ors(s)[i] is Or) && !(flatten_ors(s)[i] is Const) by {
                    if i == 0 {
                        assert((seq![s[0]] + rest)[0] == s[0]);
                    } else {
                        assert((seq![s[0]] + rest)[i] == rest[i - 1]);
                    }
                }
            },
        }
    }
}

/// Deduplication keeps only elements of the input, and leaves the survivors
/// pairwise inequivalent in both directions.
pub proof fn lemma_dedup_props(s: Seq<SpecTree>)
    ensures
        forall|i: int|
            0 <= i < dedup_equiv(s).len() ==> exists|j: int|
                0 <= j < s.len() && #[trigger] dedup_equiv(s)[i] == s[j],
        forall|i: int, j: int|
            0 <= i < j < dedup_equiv(s).len() ==> !tree_equiv(
                #[trigger] dedup_equiv(s)[i],
                #[trigger] dedup_equiv(s)[j],
            ) && !tree_equiv(dedup_equiv(s)[j], dedup_equiv(s)[i]),
    decreases s.len(),
{
    if s.len() > 0 {
        lemma_dedup_props(s.drop_last());
        let rest = dedup_equiv(s.drop_last());
        let d = dedup_equiv(s);
        assert forall|i: int|
            0 <= i < rest.len() implies exists|j: int|
            0 <= j < s.len() && #[trigger] rest[i] == s[j] by {
            let j = choose|j: int| 0 <= j < s.drop_last().len() && rest[i] == s.drop_last()[j];
            assert(s.drop_last()[j] == s[j]);
            assert(rest[i] == s[j]);
        }
        if seq_contains_equiv(rest, s.last()) {
            assert(d == rest);
        } else {
            assert(d == rest.push(s.last()));
            assert(d[d.len() - 1] == s[s.len() - 1]);
            assert forall|i: int, j: int|
                0 <= i < j < d.len() implies !tree_equiv(#[trigger] d[i], #[trigger] d[j])
                && !tree_equiv(d[j], d[i]) by {
                if j < d.len() - 1 {
                    assert(d[i] == rest[i] && d[j] == rest[j]);
                } else {
                    assert(d[i] == rest[i] && d[j] == s.last());
                    assert(!seq_contains_equiv(rest, s.last()));
                    assert(!tree_equiv(s.last(), rest[i]));
                    lemma_tree_equiv_sym(rest[i], s.last());
                }
            }
        }
    }
}

/// The normal form of any tree is normalized.
pub proof fn lemma_norm_normalized(t: SpecTree)
    ensures
        normalized(norm(t)),
    decreases t,
{
    match t {
        SpecTree::Neg(x) => {
            lemma_norm_normalized(*x);
        },
        SpecTree::Or(u) => {
            let nu = norm_seq(u);
            lemma_norm_seq(u);
            assert forall|i: int| 0 <= i < nu.len() implies normalized(#[trigger] nu[i]) by {
                assert(nu[i] == norm(u[i]));
                lemma_norm_normalized(u[i]);
            }
            if !seq_has_true(nu) {
                lemma_flatten_props(nu);
                let f = flatten_ors(nu);
                lemma_dedup_props(f);
                let r = dedup_equiv(f);
                assert forall|i: int|
                    0 <= i < r.len() implies normalized(#[trigger] r[i]) && !(r[i] is Or) && !(r[i]
                    is Const) by {
                    let j = choose|j: int| 0 <= j < f.len() && r[i] == f[j];
                    assert(normalized(f[j]) && !(f[j] is Or) && !(f[j] is Const));
                }
                if r.len() >= 2 {
                    assert(normalized(SpecTree::Or(r)));
                }
            }
        },
        _ => {},
    }
}

/// `norm_seq` leaves a sequence of normalized trees unchanged.
pub proof fn lemma_norm_seq_id(s: Seq<SpecTree>)
    requires
        forall|i: int| 0 <= i < s.len() ==> normalized(#[trigger] s[i]),
    ensures
        norm_seq(s) == s,
    decreases s, 1int,
{
    lemma_norm_seq(s);
    assert forall|i: int| 0 <= i < s.len() implies norm_seq(s)[i] == s[i] by {
        lemma_norm_id(s[i]);
    }
    assert(norm_seq(s) =~= s);
}

/// Flattening leaves a sequence without disjunctions and constants unchanged.
pub proof fn lemma_flatten_id(s: Seq<SpecTree>)
    requires
        forall|i: int| 0 <= i < s.len() ==> !((#[trigger] s[i]) is Or) && !(s[i] is Const),
    ensures
        flatten_ors(s) == s,
    decreases s.len(),
{
    if s.len() == 0 {
        assert(flatten_ors(s) =~= s);
    } else {
        assert forall|i: int|
            0 <= i < s.drop_first().len() implies !((#[trigger] s.drop_first()[i]) is Or) && !(
        s.drop_first()[i] is Const) by {
            assert(s.drop_first()[i] == s[i + 1]);
        }
        lemma_flatten_id(s.drop_first());
        assert(seq![s[0]] + s.drop_first() =~= s);
    }
}

/// Deduplication leaves a pairwise-inequivalent sequence unchanged.
pub proof fn lemma_dedup_id(s: Seq<SpecTree>)
    requires
        forall|i: int, j: int|
            0 <= i < j < s.len() ==> !tree_equiv(#[trigger] s[i], #[trigger] s[j]) && !tree_equiv(
                s[j],
                s[i],
            ),
    ensures
        dedup_equiv(s) == s,
    decreases s.len(),
{
    if s.len() == 0 {
        assert(dedup_equiv(s) =~= s);
    } else {
        assert forall|i: int, j: int|
            0 <= i < j < s.drop_last().len() implies !tree_equiv(
            #[trigger] s.drop_last()[i],
            #[trigger] s.drop_last()[j],
        ) && !tree_equiv(s.drop_last()[j], s.drop_last()[i]) by {
            assert(s.drop_last()[i] == s[i] && s.drop_last()[j] == s[j]);
        }
        lemma_dedup_id(s.drop_last());
        if seq_contains_equiv(s.drop_last(), s.last()) {
            let j = choose|j: int|
                0 <= j < s.drop_last().len() && tree_equiv(s.last(), #[trigger] s.drop_last()[j]);
            assert(s.drop_last()[j] == s[j]);
            assert(tree_equiv(s[s.len() - 1], s[j]));
            assert(false);
        }
        assert(dedup_equiv(s) == s.drop_last().push(s.last()));
        assert(s.drop_last().push(s.last()) =~= s);
    }
}

/// The local rewrite pass leaves a normalized tree unchanged.
pub proof fn lemma_norm_id(t: SpecTree)
    requires
        normalized(t),
    ensures
        norm(t) == t,
    decreases t, 0int,
{
    match t {
        SpecTree::Neg(x) => {
            lemma_norm_id(*x);
        },
        SpecTree::Or(u) => {
            lemma_norm_seq_id(u);
            assert(!seq_has_true(u)) by {
                if seq_has_true(u) {
                    let i = choose|i: int|
                        0 <= i < u.len() && #[trigger] u[i] == SpecTree::Const(AtomType::True);
                    assert(!(u[i] is Const));
                }
            }
            lemma_flatten_id(u);
            lemma_dedup_id(u);
        },
        _ => {},
    }
}

/// Idempotence of the local rewrite pass: normalizing a normal form changes
/// nothing, so running the pass a second time reports no change.
pub proof fn lemma_simp_idempotent(t: SpecTree)
    ensures
        norm(norm(t)) == norm(t),
{
    lemma_norm_normalized(t);
    lemma_norm_id(norm(t));
}

/// One local rewriting step, applied at the root only: the first matching
/// rule fires. The boolean says whether the step reports a rewrite; for a
/// multi-operand disjunction it reports only the splicing of a nested
/// disjunction.
pub open spec fn simp_step(t: SpecTree) -> (bool, SpecTree) {
    match t {
        SpecTree::Neg(x) => match *x {
            SpecTree::Neg(y) => (true, *y),
            SpecTree::Const(c) => (true, SpecTree::Const(c.spec_not())),
            _ => (false, t),
        },
        SpecTree::Or(u) => {
            if seq_has_true(u) {
                (true, SpecTree::Const(AtomType::True))
            } else {
                let r = dedup_equiv(flatten_ors(u));
                if r.len() == 0 {
                    (true, SpecTree::Const(AtomType::False))
                } else if r.len() == 1 {
                    (true, r[0])
                } else {
                    ((exists|i: int| 0 <= i < u.len() && (#[trigger] u[i]) is Or), SpecTree::Or(r))
                }
            }
        },
        _ => (false, t),
    }
}

/// A tree is in the rewrite engine's normal form: no double negation, no
/// negated constant, and every disjunction is flattened, constant-free,
/// duplicate-free, and has at least two operands.
pub open spec fn normalized(t: SpecTree) -> bool
    decreases t,
{
    match t {
        SpecTree::Neg(x) => normalized(*x) && !(*x is Neg) && !(*x is Const),
        SpecTree::Or(u) => {
            &&& u.len() >= 2
            &&& forall|i: int|
                0 <= i < u.len() ==> normalized(#[trigger] u[i]) && !(u[i] is Or) && !(u[i]
                    is Const)
            &&& forall|i: int, j: int|
                0 <= i < j < u.len() ==> !tree_equiv(#[trigger] u[i], #[trigger] u[j])
                    && !tree_equiv(u[j], u[i])
        },
        _ => true,
    }
}


/// A substitution keyed by variable ids, later entries overriding earlier
/// ones, as a map.
pub open spec fn subst_map(s: Seq<(usize, AtomTree)>) -> Map<int, SpecTree>
    decreases s.len(),
{
    if s.len() == 0 {
        Map::empty()
    } else {
        subst_map(s.drop_last()).insert(s.last().0 as int, s.last().1@)
    }
}

proof fn lemma_subst_map_absent(s: Seq<(usize, AtomTree)>, id: usize)
    requires
        forall|k: int| 0 <= k < s.len() ==> (#[trigger] s[k]).0 != id,
    ensures
        !subst_map(s).contains_key(id as int),
    decreases s.len(),
{
    if s.len() > 0 {
        assert forall|k: int| 0 <= k < s.drop_last().len() implies (#[trigger] s.drop_last()[k]).0
            != id by {
            assert(s.drop_last()[k] == s[k]);
        }
        lemma_subst_map_absent(s.drop_last(), id);
        assert(s.last() == s[s.len() - 1]);
    }
}

proof fn lemma_subst_map_found(s: Seq<(usize, AtomTree)>, i: int)
    requires
        0 <= i < s.len(),
        forall|k: int| i < k < s.len() ==> (#[trigger] s[k]).0 != s[i].0,
    ensures
        subst_map(s).contains_key(s[i].0 as int),
        subst_map(s)[s[i].0 as int] == s[i].1@,
    decreases s.len(),
{
    if i == s.len() - 1 {
        assert(s.last() == s[i]);
    } else {
        assert forall|k: int| i < k < s.drop_last().len() implies (#[trigger] s.drop_last()[k]).0
            != s.drop_last()[i].0 by {
            assert(s.drop_last()[k] == s[k]);
        }
        assert(s.drop_last()[i] == s[i]);
        lemma_subst_map_found(s.drop_last(), i);
        assert(s.last() == s[s.len() - 1]);
        assert(s.last().0 != s[i].0);
    }
}

/// Looks up the value a substitution assigns to `id`: the last entry wins.
fn subst_get(s: &Vec<(usize, AtomTree)>, id: usize) -> (r: Option<AtomTree>)
    ensures
        match r {
            Some(t) => subst_map(s@).contains_key(id as int) && t@ == subst_map(s@)[id as int],
            None => !subst_map(s@).contains_key(id as int),
        },
{
    let mut i: usize = s.len();
    while i > 0
        invariant
            0 <= i <= s@.len(),
            forall|k: int| i <= k < s@.len() ==> (#[trigger] s@[k]).0 != id,
        decreases i,
    {
        i = i - 1;
        if s[i].0 == id {
            proof {
                lemma_subst_map_found(s@, i as int);
            }
            return Some(s[i].1.deep_clone());
        }
    }
    proof {
        lemma_subst_map_absent(s@, id);
    }
    None
}

/// Replacing every variable the substitution knows, outside protective
/// markers; the replacement itself is not traversed again.
pub open spec fn apply_subst(t: SpecTree, m: Map<int, SpecTree>) -> SpecTree
    decreases t, 1int,
{
    match t {
        SpecTree::Var(id) => if m.contains_key(id) {
            m[id]
        } else {
            t
        },
        SpecTree::Neg(x) => SpecTree::Neg(Box::new(apply_subst(*x, m))),
        SpecTree::Or(u) => SpecTree::Or(apply_subst_seq(u, m)),
        _ => t,
    }
}

/// `apply_subst`, over every operand.
pub open spec fn apply_subst_seq(s: Seq<SpecTree>, m: Map<int, SpecTree>) -> Seq<SpecTree>
    decreases s, 2int,
{
    if s.len() == 0 {
        Seq::empty()
    } else {
        apply_subst_seq(s.drop_last(), m).push(apply_subst(s.last(), m))
    }
}

/// `apply_subst_seq` maps `apply_subst`, pointwise.
pub proof fn lemma_apply_subst_seq(s: Seq<SpecTree>, m: Map<int, SpecTree>)
    ensures
        apply_subst_seq(s, m).len() == s.len(),
        forall|i: int|
            0 <= i < s.len() ==> apply_subst_seq(s, m)[i] == apply_subst(#[trigger] s[i], m),
    decreases s.len(),
{
    if s.len() > 0 {
        lemma_apply_subst_seq(s.drop_last(), m);
        assert forall|i: int| 0 <= i < s.len() implies apply_subst_seq(s, m)[i] == apply_subst(
            #[trigger] s[i],
            m,
        ) by {
            if i < s.len() - 1 {
                assert(s.drop_last()[i] == s[i]);
            } else {
                assert(s.last() == s[i]);
            }
        }
    }
}

impl AtomTree {
    /// Replaces every variable occurrence the substitution knows by its
    /// image, leaving protective markers and their contents untouched.
    pub fn inline_var(self, subst: &Vec<(usize, AtomTree)>) -> (r: Self)
        ensures
            r@ == apply_subst(self@, subst_map(subst@)),
        decreases self, 1int,
    {
        match self {
            AtomTree::Variable { id } => {
                match subst_get(subst, id) {
                    Some(t) => t,
                    None => AtomTree::Variable { id },
                }
            },
            AtomTree::Not(a) => AtomTree::Not(Box::new(a.inline_var(subst))),
            AtomTree::Or(v) => {
                let ghost vs = tree_view_seq(v@);
                proof {
                    lemma_tree_view_seq(v@);
                    lemma_apply_subst_seq(vs, subst_map(subst@));
                }
                let nv = inline_var_vec(v, subst);
                proof {
                    lemma_tree_view_seq(nv@);
                    assert forall|k: int| 0 <= k < nv@.len() implies tree_view_seq(nv@)[k]
                        == apply_subst_seq(vs, subst_map(subst@))[k] by {
                        assert(tree_view_seq(nv@)[k] == tree_view(nv@[k]));
                        assert(vs[k] == tree_view(v@[k]));
                    }
                    assert(tree_view_seq(nv@) =~= apply_subst_seq(vs, subst_map(subst@)));
                }
                AtomTree::Or(nv)
            },
            other => other,
        }
    }
}

/// `inline_var`, applied to every tree of a vector, in order.
#[verifier::loop_isolation(false)]
fn inline_var_vec(v: Vec<AtomTree>, subst: &Vec<(usize, AtomTree)>) -> (r: Vec<AtomTree>)
    ensures
        r@.len() == v@.len(),
        forall|k: int|
            0 <= k < v@.len() ==> (#[trigger] r@[k])@ == apply_subst(v@[k]@, subst_map(subst@)),
    decreases v, 2int,
{
    let ghost vv = v;
    let ghost orig = v@;
    let mut rem = v;
    let mut out: Vec<AtomTree> = Vec::new();
    while rem.len() > 0
        invariant
            out@.len() + rem@.len() == orig.len(),
            forall|k2: int| 0 <= k2 < rem@.len() ==> rem@[k2] == orig[out@.len() + k2],
            forall|k: int|
                0 <= k < out@.len() ==> (#[trigger] out@[k])@ == apply_subst(
                    orig[k]@,
                    subst_map(subst@),
                ),
        decreases rem@.len(),
    {
        let x = rem.remove(0);
        proof {
            assert(x == orig[out@.len() as int]);
            vstd::std_specs::vec::axiom_vec_index_decreases(vv, out@.len() as int);
        }
        let nx = x.inline_var(subst);
        out.push(nx);
    }
    out
}

/// Every protective marker removed, recursively.
pub open spec fn strip_markers(t: SpecTree) -> SpecTree
    decreases t, 1int,
{
    match t {
        SpecTree::Marker(x) => strip_markers(*x),
        SpecTree::Neg(x) => SpecTree::Neg(Box::new(strip_markers(*x))),
        SpecTree::Or(u) => SpecTree::Or(strip_markers_seq(u)),
        _ => t,
    }
}

/// `strip_markers`, over every operand.
pub open spec fn strip_markers_seq(s: Seq<SpecTree>) -> Seq<SpecTree>
    decreases s, 2int,
{
    if s.len() == 0 {
        Seq::empty()
    } else {
        strip_markers_seq(s.drop_last()).push(strip_markers(s.last()))
    }
}

/// No protective marker occurs anywhere in the tree.
pub open spec fn marker_free(t: SpecTree) -> bool
    decreases t,
{
    match t {
        SpecTree::Marker(_) => false,
        SpecTree::Neg(x) => marker_free(*x),
        SpecTree::Or(u) => forall|i: int| 0 <= i < u.len() ==> marker_free(#[trigger] u[i]),
        _ => true,
    }
}

/// `strip_markers_seq` maps `strip_markers`, pointwise.
pub proof fn lemma_strip_markers_seq(s: Seq<SpecTree>)
    ensures
        strip_markers_seq(s).len() == s.len(),
        forall|i: int|
            0 <= i < s.len() ==> strip_markers_seq(s)[i] == strip_markers(#[trigger] s[i]),
    decreases s.len(),
{
    if s.len() > 0 {
        lemma_strip_markers_seq(s.drop_last());
        assert forall|i: int| 0 <= i < s.len() implies strip_markers_seq(s)[i] == strip_markers(
            #[trigger] s[i],
        ) by {
            if i < s.len() - 1 {
                assert(s.drop_last()[i] == s[i]);
            } else {
                assert(s.last() == s[i]);
            }
        }
    }
}

/// Stripping markers leaves a tree with no marker in it.
pub proof fn lemma_strip_markers_free(t: SpecTree)
    ensures
        marker_free(strip_markers(t)),
    decreases t, 1int,
{
    match t {
        SpecTree::Marker(x) => {
            lemma_strip_markers_free(*x);
        },
        SpecTree::Neg(x) => {
            lemma_strip_markers_free(*x);
        },
        SpecTree::Or(u) => {
            lemma_strip_markers_seq(u);
            assert forall|i: int|
                0 <= i < strip_markers_seq(u).len() implies marker_free(
                #[trigger] strip_markers_seq(u)[i],
            ) by {
                lemma_strip_markers_free(u[i]);
            }
        },
        _ => {},
    }
}

impl AtomTree {
    /// Unwraps every protective marker, recursively.
    pub fn remove_marker(self) -> (r: Self)
        ensures
            r@ == strip_markers(self@),
            marker_free(r@),
        decreases self, 1int,
    {
        proof {
            lemma_strip_markers_free(self@);
        }
        match self {
            AtomTree::DoNotRemoveMarker(m) => m.remove_marker(),
            AtomTree::Not(a) => AtomTree::Not(Box::new(a.remove_marker())),
            AtomTree::Or(v) => {
                let ghost vs = tree_view_seq(v@);
                proof {
                    lemma_tree_view_seq(v@);
                    lemma_strip_markers_seq(vs);
                }
                let nv = remove_marker_vec(v);
                proof {
                    lemma_tree_view_seq(nv@);
                    assert forall|k: int| 0 <= k < nv@.len() implies tree_view_seq(nv@)[k]
                        == strip_markers_seq(vs)[k] by {
                        assert(tree_view_seq(nv@)[k] == tree_view(nv@[k]));
                        assert(vs[k] == tree_view(v@[k]));
                    }
                    assert(tree_view_seq(nv@) =~= strip_markers_seq(vs));
                }
                AtomTree::Or(nv)
            },
            other => other,
        }
    }
}

/// `remove_marker`, applied to every tree of a vector, in order.
#[verifier::loop_isolation(false)]
fn remove_marker_vec(v: Vec<AtomTree>) -> (r: Vec<AtomTree>)
    ensures
        r@.len() == v@.len(),
        forall|k: int| 0 <= k < v@.len() ==> (#[trigger] r@[k])@ == strip_markers(v@[k]@),
    decreases v, 2int,
{
    let ghost vv = v;
    let ghost orig = v@;
    let mut rem = v;
    let mut out: Vec<AtomTree> = Vec::new();
    while rem.len() > 0
        invariant
            out@.len() + rem@.len() == orig.len(),
            forall|k2: int| 0 <= k2 < rem@.len() ==> rem@[k2] == orig[out@.len() + k2],
            forall|k: int|
                0 <= k < out@.len() ==> (#[trigger] out@[k])@ == strip_markers(orig[k]@),
        decreases rem@.len(),
    {
        let x = rem.remove(0);
        proof {
            assert(x == orig[out@.len() as int]);
            vstd::std_specs::vec::axiom_vec_index_decreases(vv, out@.len() as int);
        }
        let nx = x.remove_marker();
        out.push(nx);
    }
    out
}


/// One named definition: a variable id and the tree it stands for.
#[derive(Debug)]
pub struct VarDefinition {
    pub id: usize,
    pub definition: Box<AtomTree>,
}

impl Clone for VarDefinition {
    /// The clone has the same id and the same tree model.
    fn clone(&self) -> (r: Self)
        ensures
            r.id == self.id,
            r.definition@ == self.definition@,
    {
        VarDefinition { id: self.id, definition: Box::new(self.definition.deep_clone()) }
    }
}

/// What a value action asks of its expression: a diagnostic print, consumed
/// only at the export boundary, or the assertion that the expression equals
/// a boolean constant.
#[derive(Debug)]
pub enum ValueAction {
    Output(Vec<String>, Vec<AtomTree>),
    Restriction(AtomType),
}

/// The whole compiled-but-unlowered program: definitions, the next fresh
/// variable id, and the ordered value actions.
#[derive(Debug)]
pub struct AtomRoot {
    pub definitions: Vec<VarDefinition>,
    pub variable_id: usize,
    pub value_actions: Vec<(AtomTree, ValueAction)>,
}

impl AtomRoot {
    /// Well-formedness: definition ids are unique and below the next fresh
    /// id, so a fresh id never collides.
    pub open spec fn wf(&self) -> bool {
        &&& forall|i: int, j: int|
            0 <= i < j < self.definitions@.len() ==> (#[trigger] self.definitions@[i]).id != (
            #[trigger] self.definitions@[j]).id
        &&& forall|i: int|
            0 <= i < self.definitions@.len() ==> (#[trigger] self.definitions@[i]).id
                < self.variable_id
    }
}

impl Default for AtomRoot {
    /// An empty program.
    fn default() -> (r: Self)
        ensures
            r.definitions@.len() == 0,
            r.value_actions@.len() == 0,
            r.variable_id == 0,
            r.wf(),
    {
        AtomRoot { definitions: Vec::new(), variable_id: 0, value_actions: Vec::new() }
    }
}

impl AtomRoot {
    /// Introduces a definition under a fresh id and returns the id.
    pub fn define_new_var(&mut self, value: AtomTree) -> (r: usize)
        requires
            old(self).wf(),
            old(self).variable_id < usize::MAX,
        ensures
            final(self).wf(),
            r == old(self).variable_id,
            final(self).variable_id == old(self).variable_id + 1,
            final(self).definitions@.len() == old(self).definitions@.len() + 1,
            final(self).definitions@.drop_last() == old(self).definitions@,
            final(self).definitions@.last().id == r,
            final(self).definitions@.last().definition@ == value@,
            final(self).value_actions@ == old(self).value_actions@,
    {
        let id = self.variable_id;
        self.variable_id = self.variable_id + 1;
        self.definitions.push(VarDefinition { id, definition: Box::new(value) });
        proof {
            assert(self.definitions@.drop_last() =~= old(self).definitions@);
        }
        id
    }

    /// Appends a restriction: the expression must equal `t`.
    pub fn define_restriction(&mut self, value: AtomTree, t: AtomType)
        ensures
            final(self).definitions@ == old(self).definitions@,
            final(self).variable_id == old(self).variable_id,
            final(self).value_actions@.len() == old(self).value_actions@.len() + 1,
            final(self).value_actions@.drop_last() == old(self).value_actions@,
            final(self).value_actions@.last().0@ == value@,
            final(self).value_actions@.last().1 == ValueAction::Restriction(t),
    {
        self.value_actions.push((value, ValueAction::Restriction(t)));
        proof {
            assert(self.value_actions@.drop_last() =~= old(self).value_actions@);
        }
    }
}

/// The substitution that force propagation records: every restriction whose
/// target is a bare variable maps that variable to the forced constant,
/// later restrictions overriding earlier ones.
pub open spec fn force_subst_of(actions: Seq<(AtomTree, ValueAction)>) -> Map<int, SpecTree>
    decreases actions.len(),
{
    if actions.len() == 0 {
        Map::empty()
    } else {
        let m = force_subst_of(actions.drop_last());
        let a = actions.last();
        if a.1 is Restriction && a.0@ is Var {
            m.insert(a.0@->Var_0, SpecTree::Const(a.1->Restriction_0))
        } else {
            m
        }
    }
}

/// The actions force propagation keeps, case by case: a bare-variable target
/// is wrapped in a protective marker, a negated target is pushed through by
/// De Morgan, a disjunction forced false and a constant target are removed,
/// and everything else is kept unchanged.
pub open spec fn force_kept(actions: Seq<(AtomTree, ValueAction)>) -> Seq<(SpecTree, ValueAction)>
    decreases actions.len(),
{
    if actions.len() == 0 {
        Seq::empty()
    } else {
        let rest = force_kept(actions.drop_last());
        let a = actions.last();
        if a.1 is Restriction {
            let t = a.1->Restriction_0;
            if a.0@ is Var {
                rest.push((SpecTree::Marker(Box::new(a.0@)), a.1))
            } else if a.0@ is Neg {
                rest.push((*a.0@->Neg_0, ValueAction::Restriction(t.spec_not())))
            } else if a.0@ is Or && t == AtomType::False {
                rest
            } else if a.0@ is Const {
                rest
            } else {
                rest.push((a.0@, a.1))
            }
        } else {
            rest.push((a.0@, a.1))
        }
    }
}

/// The restrictions force propagation appends: a disjunction forced false
/// becomes one `false` restriction per operand.
pub open spec fn force_added(actions: Seq<(AtomTree, ValueAction)>) -> Seq<(SpecTree, ValueAction)>
    decreases actions.len(),
{
    if actions.len() == 0 {
        Seq::empty()
    } else {
        let rest = force_added(actions.drop_last());
        let a = actions.last();
        if a.1 is Restriction && a.0@ is Or && a.1->Restriction_0 == AtomType::False {
            rest + restrict_false_seq(a.0@->Or_0)
        } else {
            rest
        }
    }
}

/// Each operand, forced to `false`.
pub open spec fn restrict_false_seq(u: Seq<SpecTree>) -> Seq<(SpecTree, ValueAction)> {
    u.map_values(|x: SpecTree| (x, ValueAction::Restriction(AtomType::False)))
}

/// Whether force propagation reports a rewrite: it does for a De Morgan
/// push-through and for expanding a disjunction forced false; recording a
/// substitution or resolving a constant target deliberately does not.
pub open spec fn force_raises(actions: Seq<(AtomTree, ValueAction)>) -> bool {
    exists|i: int|
        0 <= i < actions.len() && (#[trigger] actions[i]).1 is Restriction && (actions[i].0@ is Neg
            || (actions[i].0@ is Or && actions[i].1->Restriction_0 == AtomType::False))
}

/// How many restrictions have a constant target contradicting the forced
/// value; each one draws a solvability warning.
pub open spec fn force_warning_count(actions: Seq<(AtomTree, ValueAction)>) -> nat
    decreases actions.len(),
{
    if actions.len() == 0 {
        0nat
    } else {
        let rest = force_warning_count(actions.drop_last());
        let a = actions.last();
        if a.1 is Restriction && a.0@ is Const && a.0@->Const_0 != a.1->Restriction_0 {
            rest + 1
        } else {
            rest
        }
    }
}


impl AtomRoot {
    /// Restriction-driven constant propagation: consumes each restriction
    /// once, records substitutions for bare-variable targets (protecting the
    /// authoritative restriction with a marker), pushes negated targets
    /// through by De Morgan, expands a disjunction forced `false` into one
    /// restriction per operand, resolves constant targets (warning when they
    /// contradict the forced value), then applies the substitution table to
    /// every definition and action tree and strips the markers again.
    #[verifier::loop_isolation(false)]
    #[verifier::rlimit(100)]
    pub fn simp_force(&mut self, compilation: &mut Compilation, changed: &mut bool)
        ensures
            final(self).value_actions@.len() == force_kept(old(self).value_actions@).len()
                + force_added(old(self).value_actions@).len(),
            forall|k: int|
                0 <= k < final(self).value_actions@.len() ==> {
                    let ka = force_kept(old(self).value_actions@) + force_added(
                        old(self).value_actions@,
                    );
                    let m = force_subst_of(old(self).value_actions@);
                    (#[trigger] final(self).value_actions@[k]).0@ == strip_markers(
                        apply_subst(ka[k].0, m),
                    ) && final(self).value_actions@[k].1 == ka[k].1 && marker_free(
                        final(self).value_actions@[k].0@,
                    )
                },
            final(self).definitions@.len() == old(self).definitions@.len(),
            forall|k: int|
                0 <= k < final(self).definitions@.len() ==> {
                    let m = force_subst_of(old(self).value_actions@);
                    (#[trigger] final(self).definitions@[k]).id == old(self).definitions@[k].id
                        && final(self).definitions@[k].definition@ == strip_markers(
                        apply_subst(old(self).definitions@[k].definition@, m),
                    ) && marker_free(final(self).definitions@[k].definition@)
                },
            final(self).variable_id == old(self).variable_id,
            *final(changed) == (*old(changed) || force_raises(old(self).value_actions@)),
            final(compilation).diags().len() == old(compilation).diags().len()
                + force_warning_count(old(self).value_actions@),
            forall|k: int|
                0 <= k < old(compilation).diags().len() ==> final(compilation).diags()[k] == old(
                    compilation,
                ).diags()[k],
            forall|k: int|
                old(compilation).diags().len() <= k < final(compilation).diags().len() ==> (
                #[trigger] final(compilation).diags()[k]).diagnostic_type
                    == DiagnosticType::Warning,
    {
        let mut actions: Vec<(AtomTree, ValueAction)> = Vec::new();
        core::mem::swap(&mut actions, &mut self.value_actions);
        let ghost acts = actions@;
        let ghost changed0 = *changed;
        let ghost diags0 = compilation.diags();
        let mut kept: Vec<(AtomTree, ValueAction)> = Vec::new();
        let mut added: Vec<(AtomTree, ValueAction)> = Vec::new();
        let mut subst: Vec<(usize, AtomTree)> = Vec::new();
        let mut rem = actions;
        let ghost i: int = 0;
        proof {
            assert(acts.take(0) =~= Seq::<(AtomTree, ValueAction)>::empty());
        }
        while rem.len() > 0
            invariant
                0 <= i <= acts.len(),
                rem@.len() == acts.len() - i,
                forall|k2: int| 0 <= k2 < rem@.len() ==> rem@[k2] == acts[i + k2],
                kept@.len() == force_kept(acts.take(i)).len(),
                forall|k: int|
                    0 <= k < kept@.len() ==> (#[trigger] kept@[k]).0@ == force_kept(
                        acts.take(i),
                    )[k].0 && kept@[k].1 == force_kept(acts.take(i))[k].1,
                added@.len() == force_added(acts.take(i)).len(),
                forall|k: int|
                    0 <= k < added@.len() ==> (#[trigger] added@[k]).0@ == force_added(
                        acts.take(i),
                    )[k].0 && added@[k].1 == force_added(acts.take(i))[k].1,
                subst_map(subst@) == force_subst_of(acts.take(i)),
                *changed == (changed0 || force_raises(acts.take(i))),
                compilation.diags().len() == diags0.len() + force_warning_count(acts.take(i)),
                forall|k: int| 0 <= k < diags0.len() ==> compilation.diags()[k] == diags0[k],
                forall|k: int|
                    diags0.len() <= k < compilation.diags().len() ==> (
                    #[trigger] compilation.diags()[k]).diagnostic_type == DiagnosticType::Warning,
            decreases rem@.len(),
        {
            let pair = rem.remove(0);
            let ghost ii = i;
            proof {
                i = i + 1;
                assert(pair == acts[ii]);
                assert(acts.take(ii + 1).drop_last() =~= acts.take(ii));
                assert(acts.take(ii + 1).last() == acts[ii]);
            }
            let (tree, action) = pair;
            match action {
                ValueAction::Restriction(t) => {
                    match tree {
                        AtomTree::Variable { id } => {
                            let ghost subst0 = subst@;
                            subst.push((id, AtomTree::AtomType { atom: t }));
                            kept.push(
                                (
                                    AtomTree::DoNotRemoveMarker(
                                        Box::new(AtomTree::Variable { id }),
                                    ),
                                    ValueAction::Restriction(t),
                                ),
                            );
                            proof {
                                assert(subst@.drop_last() =~= subst0);
                                assert(subst@.last() == (id, AtomTree::AtomType { atom: t }));
                                assert(subst_map(subst@) == subst_map(subst0).insert(
                                    id as int,
                                    SpecTree::Const(t),
                                ));
                            }
                        },
                        AtomTree::Not(a) => {
                            *changed = true;
                            kept.push((*a, ValueAction::Restriction(t.not())));
                        },
                        AtomTree::Or(u) => {
                            if t.is_false() {
                                *changed = true;
                                let ghost us = tree_view_seq(u@);
                                proof {
                                    lemma_tree_view_seq(u@);
                                    assert(us.take(0) =~= Seq::<SpecTree>::empty());
                                    assert(restrict_false_seq(us.take(0)) =~= Seq::<
                                        (SpecTree, ValueAction),
                                    >::empty());
                                }
                                let mut wrem = u;
                                let ghost j: int = 0;
                                while wrem.len() > 0
                                    invariant
                                        0 <= j <= us.len(),
                                        wrem@.len() == us.len() - j,
                                        forall|k2: int|
                                            0 <= k2 < wrem@.len() ==> wrem@[k2]@ == us[j + k2],
                                        added@.len() == force_added(acts.take(ii)).len() + j,
                                        forall|k: int|
                                            0 <= k < added@.len() ==> (#[trigger] added@[k]).0@ == (
                                            force_added(acts.take(ii)) + restrict_false_seq(
                                                us.take(j),
                                            ))[k].0 && added@[k].1 == (force_added(acts.take(ii))
                                                + restrict_false_seq(us.take(j)))[k].1,
                                    decreases wrem@.len(),
                                {
                                    let y = wrem.remove(0);
                                    let ghost jj = j;
                                    proof {
                                        j = j + 1;
                                        assert(y@ == us[jj]);
                                        assert(us.take(jj + 1) =~= us.take(jj).push(us[jj]));
                                        assert(restrict_false_seq(us.take(jj + 1))
                                            =~= restrict_false_seq(us.take(jj)).push(
                                            (us[jj], ValueAction::Restriction(AtomType::False)),
                                        ));
                                    }
                                    added.push((y, ValueAction::Restriction(AtomType::False)));
                                }
                                proof {
                                    assert(us.take(j) =~= us);
                                    assert(force_added(acts.take(ii + 1)) =~= force_added(
                                        acts.take(ii),
                                    ) + restrict_false_seq(us));
                                }
                            } else {
                                kept.push((AtomTree::Or(u), ValueAction::Restriction(t)));
                            }
                        },
                        AtomTree::AtomType { atom } => {
                            if atom == t {
                            } else {
                                let ghost dbefore = compilation.diags();
                                compilation.add_warning(
                                    "Force statement makes graph trivially unsolvable.",
                                    None,
                                );
                                proof {
                                    assert forall|k: int|
                                        0 <= k < dbefore.len() implies compilation.diags()[k]
                                        == dbefore[k] by {
                                        assert(compilation.diags()[k] == compilation.diags()
                                            .drop_last()[k]);
                                    }
                                    assert forall|k: int|
                                        diags0.len() <= k < compilation.diags().len()
                                            implies (#[trigger] compilation.diags()[k]).diagnostic_type
                                        == DiagnosticType::Warning by {
                                        if k < compilation.diags().len() - 1 {
                                            assert(compilation.diags()[k] == compilation.diags()
                                                .drop_last()[k]);
                                        }
                                    }
                                }
                            }
                        },
                        other => {
                            kept.push((other, ValueAction::Restriction(t)));
                        },
                    }
                },
                output => {
                    kept.push((tree, output));
                },
            }
        }
        proof {
            assert(acts.take(i) =~= acts);
        }
        let ghost m = force_subst_of(acts);
        let ghost ka = force_kept(acts) + force_added(acts);
        let mut all = kept;
        all.append(&mut added);
        proof {
            assert(all@.len() == ka.len());
        }
        let mut out: Vec<(AtomTree, ValueAction)> = Vec::new();
        let mut rem2 = all;
        let ghost n: int = 0;
        while rem2.len() > 0
            invariant
                0 <= n <= ka.len(),
                rem2@.len() == ka.len() - n,
                forall|k2: int|
                    0 <= k2 < rem2@.len() ==> (#[trigger] rem2@[k2]).0@ == ka[n + k2].0
                        && rem2@[k2].1 == ka[n + k2].1,
                out@.len() == n,
                forall|k: int|
                    0 <= k < n ==> (#[trigger] out@[k]).0@ == strip_markers(
                        apply_subst(ka[k].0, m),
                    ) && out@[k].1 == ka[k].1 && marker_free(out@[k].0@),
            decreases rem2@.len(),
        {
            let (tree, action) = rem2.remove(0);
            proof {
                n = n + 1;
            }
            let nt = tree.inline_var(&subst).remove_marker();
            out.push((nt, action));
        }
        self.value_actions = out;
        let mut defs: Vec<VarDefinition> = Vec::new();
        core::mem::swap(&mut defs, &mut self.definitions);
        let ghost odefs = defs@;
        let mut rem3 = defs;
        let mut newdefs: Vec<VarDefinition> = Vec::new();
        while rem3.len() > 0
            invariant
                newdefs@.len() + rem3@.len() == odefs.len(),
                forall|k2: int| 0 <= k2 < rem3@.len() ==> rem3@[k2] == odefs[newdefs@.len() + k2],
                forall|k: int|
                    0 <= k < newdefs@.len() ==> (#[trigger] newdefs@[k]).id == odefs[k].id
                        && newdefs@[k].definition@ == strip_markers(
                        apply_subst(odefs[k].definition@, m),
                    ) && marker_free(newdefs@[k].definition@),
            decreases rem3@.len(),
        {
            let d = rem3.remove(0);
            let body = *d.definition;
            let nb = body.inline_var(&subst).remove_marker();
            newdefs.push(VarDefinition { id: d.id, definition: Box::new(nb) });
        }
        self.definitions = newdefs;
    }
}


/// One alias-removal scan over the definitions, in order: a definition that
/// is a bare variable becomes a substitution (unless its target is already
/// being substituted), and its target is excluded from being substituted in
/// the same pass; a definition that is a bare constant always becomes a
/// substitution. Returns the substitution and the exclusion set.
pub open spec fn links_scan(defs: Seq<VarDefinition>) -> (Map<int, SpecTree>, Set<int>)
    decreases defs.len(),
{
    if defs.len() == 0 {
        (Map::empty(), Set::empty())
    } else {
        let (m, ex) = links_scan(defs.drop_last());
        let d = defs.last();
        if ex.contains(d.id as int) {
            (m, ex)
        } else {
            match d.definition@ {
                SpecTree::Var(v) => {
                    if m.contains_key(v) {
                        (m, ex)
                    } else {
                        (m.insert(d.id as int, SpecTree::Var(v)), ex.insert(v))
                    }
                },
                SpecTree::Const(c) => (m.insert(d.id as int, SpecTree::Const(c)), ex),
                _ => (m, ex),
            }
        }
    }
}

/// If one alias-removal scan records nothing, no definition is a bare
/// variable or a bare constant.
pub proof fn lemma_links_scan_empty(defs: Seq<VarDefinition>)
    requires
        links_scan(defs).0 == Map::<int, SpecTree>::empty(),
    ensures
        links_scan(defs).1 == Set::<int>::empty(),
        forall|k: int|
            0 <= k < defs.len() ==> !((#[trigger] defs[k]).definition@ is Var) && !(
            defs[k].definition@ is Const),
    decreases defs.len(),
{
    if defs.len() > 0 {
        let (m0, ex0) = links_scan(defs.drop_last());
        let d = defs.last();
        if !ex0.contains(d.id as int) {
            match d.definition@ {
                SpecTree::Var(v) => {
                    if !m0.contains_key(v) {
                        assert(links_scan(defs).0.contains_key(d.id as int));
                        assert(false);
                    }
                },
                SpecTree::Const(c) => {
                    assert(links_scan(defs).0.contains_key(d.id as int));
                    assert(false);
                },
                _ => {},
            }
        }
        assert(m0.dom() =~= Set::<int>::empty()) by {
            assert forall|key: int| !m0.dom().contains(key) by {
                if m0.dom().contains(key) {
                    assert(links_scan(defs).0.contains_key(key));
                }
            }
        }
        assert(m0 =~= Map::<int, SpecTree>::empty());
        lemma_links_scan_empty(defs.drop_last());
        assert(ex0 =~= Set::<int>::empty());
        match d.definition@ {
            SpecTree::Var(v) => {
                assert(links_scan(defs).0.contains_key(d.id as int));
                assert(false);
            },
            SpecTree::Const(c) => {
                assert(links_scan(defs).0.contains_key(d.id as int));
                assert(false);
            },
            _ => {},
        }
        assert forall|k: int|
            0 <= k < defs.len() implies !((#[trigger] defs[k]).definition@ is Var) && !(
        defs[k].definition@ is Const) by {
            if k < defs.len() - 1 {
                assert(defs.drop_last()[k] == defs[k]);
            } else {
                assert(defs.last() == defs[k]);
            }
        }
    }
}

/// The definitions that survive alias removal, with the substitution applied
/// to their bodies.
pub open spec fn keep_defs(defs: Seq<VarDefinition>, m: Map<int, SpecTree>) -> Seq<
    (usize, SpecTree),
>
    decreases defs.len(),
{
    if defs.len() == 0 {
        Seq::empty()
    } else {
        let rest = keep_defs(defs.drop_last(), m);
        let d = defs.last();
        if m.contains_key(d.id as int) {
            rest
        } else {
            rest.push((d.id, apply_subst(d.definition@, m)))
        }
    }
}

impl AtomRoot {
    /// Whether the substitution table `subst` knows the id.
    fn subst_has(subst: &Vec<(usize, AtomTree)>, id: usize) -> (r: bool)
        ensures
            r == subst_map(subst@).contains_key(id as int),
    {
        let mut i: usize = 0;
        while i < subst.len()
            invariant
                0 <= i <= subst@.len(),
                forall|k: int| 0 <= k < i ==> (#[trigger] subst@[k]).0 != id,
            decreases subst@.len() - i,
        {
            if subst[i].0 == id {
                proof {
                    lemma_subst_map_found_key(subst@, i as int);
                }
                return true;
            }
            i = i + 1;
        }
        proof {
            lemma_subst_map_absent(subst@, id);
        }
        false
    }

    /// Removes definitions that are bare variable references or bare
    /// constants, substituting them everywhere. At most one member of a
    /// mutual-alias chain is substituted per call; callers re-invoke until no
    /// further change is reported. Reports `false` exactly when no such
    /// definition exists, in which case nothing is changed; on `true`, at
    /// least one definition was removed.
    #[verifier::loop_isolation(false)]
    #[verifier::rlimit(100)]
    pub fn remove_links(&mut self) -> (r: bool)
        requires
            old(self).wf(),
        ensures
            final(self).wf(),
            final(self).variable_id == old(self).variable_id,
            r == (links_scan(old(self).definitions@).0 != Map::<int, SpecTree>::empty()),
            !r ==> *final(self) == *old(self) && (forall|k: int|
                0 <= k < old(self).definitions@.len() ==> !((#[trigger] old(self).definitions@[k]).definition@ is Var)
                    && !(old(self).definitions@[k].definition@ is Const)),
            r ==> final(self).definitions@.len() < old(self).definitions@.len(),
            ({
                let m = links_scan(old(self).definitions@).0;
                let kept = keep_defs(old(self).definitions@, m);
                &&& final(self).definitions@.len() == kept.len()
                &&& forall|k: int|
                    0 <= k < kept.len() ==> (#[trigger] final(self).definitions@[k]).id
                        == kept[k].0 && final(self).definitions@[k].definition@ == kept[k].1
                &&& final(self).value_actions@.len() == old(self).value_actions@.len()
                &&& forall|k: int|
                    0 <= k < old(self).value_actions@.len() ==> (#[trigger] final(self).value_actions@[k]).0@
                        == apply_subst(old(self).value_actions@[k].0@, m)
                        && final(self).value_actions@[k].1 == old(self).value_actions@[k].1
            }),
    {
        let ghost odefs = self.definitions@;
        let mut subst: Vec<(usize, AtomTree)> = Vec::new();
        let mut excluded: Vec<usize> = Vec::new();
        let ghost i: int = 0;
        proof {
            assert(odefs.take(0) =~= Seq::<VarDefinition>::empty());
        }
        let mut idx: usize = 0;
        while idx < self.definitions.len()
            invariant
                0 <= idx <= odefs.len(),
                i == idx,
                self.definitions@ == odefs,
                subst_map(subst@) == links_scan(odefs.take(i)).0,
                forall|id: int|
                    links_scan(odefs.take(i)).1.contains(id) <==> (exists|k: int|
                        0 <= k < excluded@.len() && (#[trigger] excluded@[k]) as int == id),
                subst@.len() > 0 ==> (exists|k: int|
                    0 <= k < odefs.len() && links_scan(odefs.take(i)).0.contains_key(
                        (#[trigger] odefs[k]).id as int,
                    )),
            decreases odefs.len() - idx,
        {
            let ghost ii = i;
            proof {
                i = i + 1;
                assert(odefs.take(ii + 1).drop_last() =~= odefs.take(ii));
                assert(odefs.take(ii + 1).last() == odefs[ii]);
            }
            let id = self.definitions[idx].id;
            let mut is_excluded = false;
            let mut e: usize = 0;
            while e < excluded.len()
                invariant
                    0 <= e <= excluded@.len(),
                    is_excluded == (exists|k: int|
                        0 <= k < e && (#[trigger] excluded@[k]) == id),
                decreases excluded@.len() - e,
            {
                if excluded[e] == id {
                    is_excluded = true;
                }
                e = e + 1;
            }
            if !is_excluded {
                match &*self.definitions[idx].definition {
                    AtomTree::Variable { id: v } => {
                        let v = *v;
                        if !Self::subst_has(&subst, v) {
                            let ghost subst0 = subst@;
                            let ghost excluded0 = excluded@;
                            subst.push((id, AtomTree::Variable { id: v }));
                            excluded.push(v);
                            proof {
                                assert(subst@.drop_last() =~= subst0);
                                assert(subst@.last() == (id, AtomTree::Variable { id: v }));
                                assert(subst_map(subst@).contains_key(odefs[ii].id as int));
                                assert forall|id2: int|
                                    links_scan(odefs.take(i)).1.contains(id2) <==> (exists|k: int|
                                        0 <= k < excluded@.len() && (#[trigger] excluded@[k]) as int
                                            == id2) by {
                                    if links_scan(odefs.take(i)).1.contains(id2) {
                                        if id2 == v as int {
                                            assert(excluded@[excluded@.len() - 1] == v);
                                        } else {
                                            let k = choose|k: int|
                                                0 <= k < excluded0.len() && (
                                                #[trigger] excluded0[k]) as int == id2;
                                            assert(excluded@[k] as int == id2);
                                        }
                                    }
                                    if exists|k: int|
                                        0 <= k < excluded@.len() && (#[trigger] excluded@[k]) as int
                                            == id2 {
                                        let k = choose|k: int|
                                            0 <= k < excluded@.len() && (#[trigger] excluded@[k]) as int
                                                == id2;
                                        if k < excluded0.len() {
                                            assert(excluded0[k] as int == id2);
                                        }
                                    }
                                }
                            }
                        }
                    },
                    AtomTree::AtomType { atom } => {
                        let atom = *atom;
                        let ghost subst0 = subst@;
                        subst.push((id, AtomTree::AtomType { atom }));
                        proof {
                            assert(subst@.drop_last() =~= subst0);
                            assert(subst@.last() == (id, AtomTree::AtomType { atom }));
                            assert(subst_map(subst@).contains_key(odefs[ii].id as int));
                        }
                    },
                    _ => {},
                }
            }
            idx = idx + 1;
        }
        proof {
            assert(odefs.take(i) =~= odefs);
        }
        let ghost m = links_scan(odefs).0;
        if subst.len() == 0 {
            proof {
                assert(subst@ =~= Seq::<(usize, AtomTree)>::empty());
                assert(subst_map(subst@) =~= Map::<int, SpecTree>::empty());
                lemma_links_scan_empty(odefs);
                assert(keep_defs(odefs, m) =~= no_alias_keep(odefs)) by {
                    lemma_keep_defs_id(odefs, m);
                }
                assert forall|k: int| 0 <= k < self.value_actions@.len() implies apply_subst(
                    (#[trigger] self.value_actions@[k]).0@,
                    m,
                ) == self.value_actions@[k].0@ by {
                    lemma_apply_subst_empty(self.value_actions@[k].0@);
                }
            }
            return false;
        }
        proof {
            assert(m != Map::<int, SpecTree>::empty()) by {
                assert(subst_map(subst@).contains_key(subst@.last().0 as int));
            }
        }
        let ghost kw: int = choose|k: int|
            0 <= k < odefs.len() && m.contains_key((#[trigger] odefs[k]).id as int);
        let mut defs: Vec<VarDefinition> = Vec::new();
        core::mem::swap(&mut defs, &mut self.definitions);
        let mut rem = defs;
        let mut out: Vec<VarDefinition> = Vec::new();
        let ghost n: int = 0;
        proof {
            assert(odefs.take(0) =~= Seq::<VarDefinition>::empty());
        }
        while rem.len() > 0
            invariant
                0 <= n <= odefs.len(),
                rem@.len() == odefs.len() - n,
                forall|k2: int| 0 <= k2 < rem@.len() ==> rem@[k2] == odefs[n + k2],
                out@.len() == keep_defs(odefs.take(n), m).len(),
                forall|k: int|
                    0 <= k < out@.len() ==> (#[trigger] out@[k]).id == keep_defs(
                        odefs.take(n),
                        m,
                    )[k].0 && out@[k].definition@ == keep_defs(odefs.take(n), m)[k].1,
                forall|k: int|
                    0 <= k < out@.len() ==> exists|j: int|
                        0 <= j < n && (#[trigger] out@[k]).id == odefs[j].id,
                forall|k1: int, k2: int|
                    0 <= k1 < k2 < out@.len() ==> (#[trigger] out@[k1]).id != (
                    #[trigger] out@[k2]).id,
                out@.len() <= n,
                n > kw ==> out@.len() < n,
            decreases rem@.len(),
        {
            let d = rem.remove(0);
            let ghost nn = n;
            proof {
                n = n + 1;
                assert(d == odefs[nn]);
                assert(odefs.take(nn + 1).drop_last() =~= odefs.take(nn));
                assert(odefs.take(nn + 1).last() == odefs[nn]);
            }
            if Self::subst_has(&subst, d.id) {
            } else {
                let body = *d.definition;
                let nb = body.inline_var(&subst);
                let ghost out0 = out@;
                out.push(VarDefinition { id: d.id, definition: Box::new(nb) });
                proof {
                    assert forall|k1: int, k2: int|
                        0 <= k1 < k2 < out@.len() implies (#[trigger] out@[k1]).id != (
                    #[trigger] out@[k2]).id by {
                        if k2 == out@.len() - 1 {
                            let j = choose|j: int|
                                0 <= j < nn && (#[trigger] out0[k1]).id == odefs[j].id;
                            assert(odefs[j].id != odefs[nn].id);
                        }
                    }
                }
            }
        }
        proof {
            assert(odefs.take(n) =~= odefs);
        }
        self.definitions = out;
        let mut actions: Vec<(AtomTree, ValueAction)> = Vec::new();
        core::mem::swap(&mut actions, &mut self.value_actions);
        let ghost oacts = actions@;
        let mut rem2 = actions;
        let mut aout: Vec<(AtomTree, ValueAction)> = Vec::new();
        while rem2.len() > 0
            invariant
                aout@.len() + rem2@.len() == oacts.len(),
                forall|k2: int| 0 <= k2 < rem2@.len() ==> rem2@[k2] == oacts[aout@.len() + k2],
                forall|k: int|
                    0 <= k < aout@.len() ==> (#[trigger] aout@[k]).0@ == apply_subst(
                        oacts[k].0@,
                        m,
                    ) && aout@[k].1 == oacts[k].1,
            decreases rem2@.len(),
        {
            let (tree, action) = rem2.remove(0);
            let nt = tree.inline_var(&subst);
            aout.push((nt, action));
        }
        self.value_actions = aout;
        true
    }
}

/// What `keep_defs` yields when the substitution is empty: everything, with
/// bodies unchanged.
pub open spec fn no_alias_keep(defs: Seq<VarDefinition>) -> Seq<(usize, SpecTree)> {
    defs.map_values(|d: VarDefinition| (d.id, d.definition@))
}

/// With an empty substitution, `keep_defs` keeps every definition unchanged.
pub proof fn lemma_keep_defs_id(defs: Seq<VarDefinition>, m: Map<int, SpecTree>)
    requires
        m == Map::<int, SpecTree>::empty(),
    ensures
        keep_defs(defs, m) == no_alias_keep(defs),
    decreases defs.len(),
{
    if defs.len() == 0 {
        assert(keep_defs(defs, m) =~= no_alias_keep(defs));
    } else {
        lemma_keep_defs_id(defs.drop_last(), m);
        lemma_apply_subst_empty(defs.last().definition@);
        assert(keep_defs(defs, m) =~= no_alias_keep(defs)) by {
            assert(no_alias_keep(defs).drop_last() =~= no_alias_keep(defs.drop_last()));
        }
    }
}

/// An empty substitution changes nothing.
pub proof fn lemma_apply_subst_empty(t: SpecTree)
    ensures
        apply_subst(t, Map::<int, SpecTree>::empty()) == t,
    decreases t, 1int,
{
    match t {
        SpecTree::Neg(x) => {
            lemma_apply_subst_empty(*x);
        },
        SpecTree::Or(u) => {
            lemma_apply_subst_seq(u, Map::<int, SpecTree>::empty());
            assert forall|k: int|
                0 <= k < u.len() implies apply_subst_seq(u, Map::<int, SpecTree>::empty())[k] == u[k] by {
                lemma_apply_subst_empty(u[k]);
            }
            assert(apply_subst_seq(u, Map::<int, SpecTree>::empty()) =~= u);
        },
        _ => {},
    }
}

proof fn lemma_subst_map_found_key(s: Seq<(usize, AtomTree)>, i: int)
    requires
        0 <= i < s.len(),
    ensures
        subst_map(s).contains_key(s[i].0 as int),
    decreases s.len(),
{
    if i == s.len() - 1 {
        assert(s.last() == s[i]);
    } else {
        assert(s.drop_last()[i] == s[i]);
        lemma_subst_map_found_key(s.drop_last(), i);
    }
}


impl AtomRoot {
    /// Strips every protective marker from every definition body and action
    /// tree. Must be the last rewriting step before the graph encoder, which
    /// never sees a marker.
    #[verifier::loop_isolation(false)]
    pub fn finalize_simp(&mut self)
        ensures
            final(self).variable_id == old(self).variable_id,
            final(self).definitions@.len() == old(self).definitions@.len(),
            forall|k: int|
                0 <= k < old(self).definitions@.len() ==> (#[trigger] final(self).definitions@[k]).id
                    == old(self).definitions@[k].id && final(self).definitions@[k].definition@
                    == strip_markers(old(self).definitions@[k].definition@) && marker_free(
                    final(self).definitions@[k].definition@,
                ),
            final(self).value_actions@.len() == old(self).value_actions@.len(),
            forall|k: int|
                0 <= k < old(self).value_actions@.len() ==> (#[trigger] final(self).value_actions@[k]).0@
                    == strip_markers(old(self).value_actions@[k].0@) && final(self).value_actions@[k].1
                    == old(self).value_actions@[k].1 && marker_free(final(self).value_actions@[k].0@),
            old(self).wf() ==> final(self).wf(),
    {
        let mut defs: Vec<VarDefinition> = Vec::new();
        core::mem::swap(&mut defs, &mut self.definitions);
        let ghost odefs = defs@;
        let mut rem = defs;
        let mut out: Vec<VarDefinition> = Vec::new();
        while rem.len() > 0
            invariant
                out@.len() + rem@.len() == odefs.len(),
                forall|k2: int| 0 <= k2 < rem@.len() ==> rem@[k2] == odefs[out@.len() + k2],
                forall|k: int|
                    0 <= k < out@.len() ==> (#[trigger] out@[k]).id == odefs[k].id
                        && out@[k].definition@ == strip_markers(odefs[k].definition@)
                        && marker_free(out@[k].definition@),
            decreases rem@.len(),
        {
            let d = rem.remove(0);
            let body = *d.definition;
            let nb = body.remove_marker();
            out.push(VarDefinition { id: d.id, definition: Box::new(nb) });
        }
        self.definitions = out;
        let mut actions: Vec<(AtomTree, ValueAction)> = Vec::new();
        core::mem::swap(&mut actions, &mut self.value_actions);
        let ghost oacts = actions@;
        let mut rem2 = actions;
        let mut aout: Vec<(AtomTree, ValueAction)> = Vec::new();
        while rem2.len() > 0
            invariant
                aout@.len() + rem2@.len() == oacts.len(),
                forall|k2: int| 0 <= k2 < rem2@.len() ==> rem2@[k2] == oacts[aout@.len() + k2],
                forall|k: int|
                    0 <= k < aout@.len() ==> (#[trigger] aout@[k]).0@ == strip_markers(
                        oacts[k].0@,
                    ) && aout@[k].1 == oacts[k].1 && marker_free(aout@[k].0@),
            decreases rem2@.len(),
        {
            let (tree, action) = rem2.remove(0);
            let nt = tree.remove_marker();
            aout.push((nt, action));
        }
        self.value_actions = aout;
    }

    /// One full rewriting round: force propagation, then the local algebraic
    /// pass over every definition body and action tree. The result is exact:
    /// the surviving actions are the force pass's output with every tree in
    /// its normal form, and likewise for the definitions. The flag reports a
    /// rewrite; removing a trivially satisfied restriction deliberately does
    /// not raise it, so a `false` result can coincide with one such removal.
    #[verifier::loop_isolation(false)]
    pub fn simp_all(&mut self, compilation: &mut Compilation) -> (r: bool)
        ensures
            final(self).variable_id == old(self).variable_id,
            final(self).definitions@.len() == old(self).definitions@.len(),
            forall|k: int|
                0 <= k < final(self).definitions@.len() ==> (#[trigger] final(self).definitions@[k]).id
                    == old(self).definitions@[k].id && normalized(
                    final(self).definitions@[k].definition@,
                ),
            forall|k: int|
                0 <= k < final(self).value_actions@.len() ==> normalized(
                    (#[trigger] final(self).value_actions@[k]).0@,
                ),
            old(self).wf() ==> final(self).wf(),
            force_raises(old(self).value_actions@) ==> r,
            !r ==> !force_raises(old(self).value_actions@),
            final(self).value_actions@.len() == force_kept(old(self).value_actions@).len()
                + force_added(old(self).value_actions@).len(),
            forall|k: int|
                0 <= k < final(self).value_actions@.len() ==> {
                    let ka = force_kept(old(self).value_actions@) + force_added(
                        old(self).value_actions@,
                    );
                    let m = force_subst_of(old(self).value_actions@);
                    (#[trigger] final(self).value_actions@[k]).0@ == norm(
                        strip_markers(apply_subst(ka[k].0, m)),
                    ) && final(self).value_actions@[k].1 == ka[k].1
                },
            forall|k: int|
                0 <= k < final(self).definitions@.len() ==> (#[trigger] final(self).definitions@[k]).definition@
                    == norm(
                    strip_markers(
                        apply_subst(
                            old(self).definitions@[k].definition@,
                            force_subst_of(old(self).value_actions@),
                        ),
                    ),
                ),
            final(compilation).diags().len() == old(compilation).diags().len()
                + force_warning_count(old(self).value_actions@),
            forall|k: int|
                0 <= k < old(compilation).diags().len() ==> final(compilation).diags()[k] == old(
                    compilation,
                ).diags()[k],
            forall|k: int|
                old(compilation).diags().len() <= k < final(compilation).diags().len() ==> (
                #[trigger] final(compilation).diags()[k]).diagnostic_type
                    == DiagnosticType::Warning,
    {
        let mut changed = false;
        self.simp_force(compilation, &mut changed);
        let mut defs: Vec<VarDefinition> = Vec::new();
        core::mem::swap(&mut defs, &mut self.definitions);
        let ghost odefs = defs@;
        let mut rem = defs;
        let mut out: Vec<VarDefinition> = Vec::new();
        while rem.len() > 0
            invariant
                out@.len() + rem@.len() == odefs.len(),
                forall|k2: int| 0 <= k2 < rem@.len() ==> rem@[k2] == odefs[out@.len() + k2],
                forall|k: int|
                    0 <= k < out@.len() ==> (#[trigger] out@[k]).id == odefs[k].id && normalized(
                        out@[k].definition@,
                    ) && out@[k].definition@ == norm(odefs[k].definition@),
                force_raises(old(self).value_actions@) ==> changed,
            decreases rem@.len(),
        {
            let d = rem.remove(0);
            let body = *d.definition;
            let nb = body.simp_rec(&mut changed);
            proof {
                lemma_norm_normalized(odefs[out@.len() as int].definition@);
            }
            out.push(VarDefinition { id: d.id, definition: Box::new(nb) });
        }
        self.definitions = out;
        let mut actions: Vec<(AtomTree, ValueAction)> = Vec::new();
        core::mem::swap(&mut actions, &mut self.value_actions);
        let ghost oacts = actions@;
        let mut rem2 = actions;
        let mut aout: Vec<(AtomTree, ValueAction)> = Vec::new();
        while rem2.len() > 0
            invariant
                aout@.len() + rem2@.len() == oacts.len(),
                forall|k2: int| 0 <= k2 < rem2@.len() ==> rem2@[k2] == oacts[aout@.len() + k2],
                forall|k: int|
                    0 <= k < aout@.len() ==> normalized((#[trigger] aout@[k]).0@) && (
                    #[trigger] aout@[k]).0@ == norm(oacts[k].0@) && aout@[k].1 == oacts[k].1,
                force_raises(old(self).value_actions@) ==> changed,
            decreases rem2@.len(),
        {
            let (tree, action) = rem2.remove(0);
            let ghost tv = tree@;
            let nt = tree.simp_rec(&mut changed);
            proof {
                lemma_norm_normalized(tv);
            }
            aout.push((nt, action));
        }
        self.value_actions = aout;
        changed
    }
}


/// The ids of the definitions whose body is a seed label.
pub open spec fn seed_ids(defs: Seq<VarDefinition>) -> Set<int> {
    Set::new(
        |id: int|
            exists|k: int|
                0 <= k < defs.len() && (#[trigger] defs[k]).id as int == id
                    && defs[k].definition@ is Seed,
    )
}

/// Every variable reference in the tree points into `ids`; protective
/// markers are opaque.
pub open spec fn vars_among(t: SpecTree, ids: Set<int>) -> bool
    decreases t,
{
    match t {
        SpecTree::Var(v) => ids.contains(v),
        SpecTree::Neg(x) => vars_among(*x, ids),
        SpecTree::Or(u) => forall|i: int| 0 <= i < u.len() ==> vars_among(#[trigger] u[i], ids),
        _ => true,
    }
}

/// Each operand of a disjunction whose variables all lie in `ids` has its
/// own variables in `ids`.
proof fn lemma_vars_among_or_elem(u: Seq<SpecTree>, ids: Set<int>, k: int)
    requires
        vars_among(SpecTree::Or(u), ids),
        0 <= k < u.len(),
    ensures
        vars_among(u[k], ids),
{
    let t2 = SpecTree::Or(u);
    assert(vars_among(t2, ids));
    assert(t2->Or_0 == u);
    assert(vars_among(t2->Or_0[k], ids));
}

/// The definitions whose body is a seed label, in order.
pub open spec fn seed_filter(defs: Seq<VarDefinition>) -> Seq<VarDefinition>
    decreases defs.len(),
{
    if defs.len() == 0 {
        Seq::empty()
    } else {
        let rest = seed_filter(defs.drop_last());
        if defs.last().definition@ is Seed {
            rest.push(defs.last())
        } else {
            rest
        }
    }
}

/// Whether `id` names some definition.
pub open spec fn is_def_id(defs: Seq<VarDefinition>, id: usize) -> bool {
    exists|j: int| 0 <= j < defs.len() && (#[trigger] defs[j]).id == id
}

/// Every entry of `vis` names a definition.
pub open spec fn all_def_ids(vis: Seq<usize>, defs: Seq<VarDefinition>) -> bool {
    forall|k: int| 0 <= k < vis.len() ==> is_def_id(defs, #[trigger] vis[k])
}

/// A sequence of distinct ids, each the id of some definition, is no longer
/// than the definition table.
proof fn lemma_visiting_bound(visiting: Seq<usize>, defs: Seq<VarDefinition>)
    requires
        visiting.no_duplicates(),
        all_def_ids(visiting, defs),
        forall|i: int, j: int|
            0 <= i < j < defs.len() ==> (#[trigger] defs[i]).id != (#[trigger] defs[j]).id,
    ensures
        visiting.len() <= defs.len(),
{
    let ids = defs.map_values(|d: VarDefinition| d.id);
    assert(ids.no_duplicates());
    visiting.unique_seq_to_set();
    ids.unique_seq_to_set();
    assert forall|x: usize| visiting.to_set().contains(x) implies ids.to_set().contains(x) by {
        assert(visiting.contains(x));
        let k = choose|k: int| 0 <= k < visiting.len() && visiting[k] == x;
        assert(is_def_id(defs, visiting[k]));
        let j = choose|j: int| 0 <= j < defs.len() && (#[trigger] defs[j]).id == visiting[k];
        assert(ids[j] == x);
        assert(ids.contains(x));
    }
    assert(visiting.to_set().subset_of(ids.to_set()));
    vstd::seq_lib::seq_to_set_is_finite(ids);
    vstd::set_lib::lemma_len_subset(visiting.to_set(), ids.to_set());
}

/// With unique ids, a seed id's definition entry has a seed body.
proof fn lemma_seed_id_means_seed_body(defs: Seq<VarDefinition>, id: usize, fi: int)
    requires
        forall|i: int, j: int|
            0 <= i < j < defs.len() ==> (#[trigger] defs[i]).id != (#[trigger] defs[j]).id,
        seed_ids(defs).contains(id as int),
        0 <= fi < defs.len(),
        defs[fi].id == id,
    ensures
        defs[fi].definition@ is Seed,
{
    let j = choose|j: int|
        0 <= j < defs.len() && (#[trigger] defs[j]).id as int == id as int && defs[j].definition@
            is Seed;
    assert(defs[j].id == defs[fi].id);
    assert(j == fi);
}

/// Recursively expands every non-seed definition into the tree, memoized per
/// variable id; a missing definition or a self-referential cycle is reported
/// as an error, clears `ok`, and leaves the reference in place.
#[verifier::loop_isolation(false)]
#[verifier::rlimit(100)]
fn inline_tree(
    t: AtomTree,
    defs: &Vec<VarDefinition>,
    memo: &mut Vec<(usize, AtomTree)>,
    visiting: &mut Vec<usize>,
    ok: &mut bool,
    compilation: &mut Compilation,
) -> (r: AtomTree)
    requires
        forall|i: int, j: int|
            0 <= i < j < defs@.len() ==> (#[trigger] defs@[i]).id != (#[trigger] defs@[j]).id,
        old(visiting)@.no_duplicates(),
        all_def_ids(old(visiting)@, defs@),
        *old(ok) ==> (forall|k: int|
            0 <= k < old(memo)@.len() ==> vars_among(
                (#[trigger] old(memo)@[k]).1@,
                seed_ids(defs@),
            )),
        forall|k: int|
            0 <= k < old(memo)@.len() ==> !seed_ids(defs@).contains(
                (#[trigger] old(memo)@[k]).0 as int,
            ),
    ensures
        final(visiting)@ == old(visiting)@,
        *final(ok) ==> *old(ok),
        *final(ok) ==> (forall|k: int|
            0 <= k < final(memo)@.len() ==> vars_among(
                (#[trigger] final(memo)@[k]).1@,
                seed_ids(defs@),
            )) && vars_among(r@, seed_ids(defs@)),
        forall|k: int|
            0 <= k < final(memo)@.len() ==> !seed_ids(defs@).contains(
                (#[trigger] final(memo)@[k]).0 as int,
            ),
        *final(ok) ==> final(compilation).diags() == old(compilation).diags(),
        (!*final(ok) && *old(ok)) ==> final(compilation).diags().len() > old(
            compilation,
        ).diags().len(),
        final(compilation).diags().len() >= old(compilation).diags().len(),
        forall|k: int|
            0 <= k < old(compilation).diags().len() ==> final(compilation).diags()[k] == old(
                compilation,
            ).diags()[k],
        forall|k: int|
            old(compilation).diags().len() <= k < final(compilation).diags().len() ==> (
            #[trigger] final(compilation).diags()[k]).diagnostic_type == DiagnosticType::Error,
        vars_among(t@, seed_ids(defs@)) ==> r@ == t@ && final(compilation).diags() == old(
            compilation,
        ).diags() && *final(ok) == *old(ok) && final(memo)@ == old(memo)@,
    decreases defs@.len() - visiting@.len(), t,
{
    match t {
        AtomTree::Variable { id } => {
            let mut mi: usize = 0;
            while mi < memo.len()
                invariant
                    0 <= mi <= memo@.len(),
                decreases memo@.len() - mi,
            {
                if memo[mi].0 == id {
                    proof {
                        if vars_among(t@, seed_ids(defs@)) {
                            assert(seed_ids(defs@).contains(id as int));
                            assert(!seed_ids(defs@).contains(memo@[mi as int].0 as int));
                            assert(false);
                        }
                    }
                    return memo[mi].1.deep_clone();
                }
                mi = mi + 1;
            }
            let mut di: usize = 0;
            let mut found = false;
            let mut fi: usize = 0;
            while di < defs.len()
                invariant
                    0 <= di <= defs@.len(),
                    found ==> 0 <= fi < defs@.len() && defs@[fi as int].id == id,
                    !found ==> (forall|k: int| 0 <= k < di ==> (#[trigger] defs@[k]).id != id),
                decreases defs@.len() - di,
            {
                if defs[di].id == id {
                    found = true;
                    fi = di;
                }
                di = di + 1;
            }
            if !found {
                proof {
                    if vars_among(t@, seed_ids(defs@)) {
                        assert(seed_ids(defs@).contains(id as int));
                        let j = choose|j: int|
                            0 <= j < defs@.len() && (#[trigger] defs@[j]).id as int == id as int
                                && defs@[j].definition@ is Seed;
                        assert(defs@[j].id == id);
                        assert(false);
                    }
                }
                *ok = false;
                let ghost dbefore = compilation.diags();
                compilation.add_error(
                    "Missing definition for a referenced variable.",
                    None,
                );
                proof {
                    assert forall|k: int|
                        0 <= k < dbefore.len() implies compilation.diags()[k] == dbefore[k] by {
                        assert(compilation.diags()[k] == compilation.diags().drop_last()[k]);
                    }
                }
                return AtomTree::Variable { id };
            }
            if matches!(&*defs[fi].definition, AtomTree::SeedLabel(_)) {
                proof {
                    if *ok {
                        assert(seed_ids(defs@).contains(id as int)) by {
                            assert((defs@[fi as int]).id as int == id as int && defs@[fi as int].definition@
                                is Seed);
                        }
                    }
                }
                return AtomTree::Variable { id };
            }
            let mut vi: usize = 0;
            let mut cyc = false;
            while vi < visiting.len()
                invariant
                    0 <= vi <= visiting@.len(),
                    cyc == (exists|k: int| 0 <= k < vi && (#[trigger] visiting@[k]) == id),
                decreases visiting@.len() - vi,
            {
                if visiting[vi] == id {
                    cyc = true;
                }
                vi = vi + 1;
            }
            if cyc {
                proof {
                    if vars_among(t@, seed_ids(defs@)) {
                        lemma_seed_id_means_seed_body(defs@, id, fi as int);
                        assert(false);
                    }
                }
                *ok = false;
                let ghost dbefore = compilation.diags();
                compilation.add_error("Self-referential variable definition.", None);
                proof {
                    assert forall|k: int|
                        0 <= k < dbefore.len() implies compilation.diags()[k] == dbefore[k] by {
                        assert(compilation.diags()[k] == compilation.diags().drop_last()[k]);
                    }
                }
                return AtomTree::Variable { id };
            }
            let ghost vis0 = visiting@;
            proof {
                if vars_among(t@, seed_ids(defs@)) {
                    lemma_seed_id_means_seed_body(defs@, id, fi as int);
                    assert(false);
                }
            }
            visiting.push(id);
            proof {
                assert(visiting@.drop_last() =~= vis0);
                assert(visiting@.no_duplicates());
                lemma_visiting_bound(visiting@, defs@);
            }
            let body = defs[fi].definition.deep_clone();
            let r = inline_tree(body, defs, memo, visiting, ok, compilation);
            visiting.pop().unwrap();
            proof {
                assert(visiting@ =~= vis0);
            }
            let ghost memo0 = memo@;
            memo.push((id, r.deep_clone()));
            proof {
                assert(memo@.drop_last() =~= memo0);
                assert(!seed_ids(defs@).contains(id as int)) by {
                    if seed_ids(defs@).contains(id as int) {
                        let j = choose|j: int|
                            0 <= j < defs@.len() && (#[trigger] defs@[j]).id as int == id as int
                                && defs@[j].definition@ is Seed;
                        assert(defs@[j].id == defs@[fi as int].id);
                        assert(j == fi);
                    }
                }
            }
            r
        },
        AtomTree::Not(a) => AtomTree::Not(Box::new(inline_tree(*a, defs, memo, visiting, ok, compilation))),
        AtomTree::Or(v) => {
            let ghost vs = tree_view_seq(v@);
            proof {
                lemma_tree_view_seq(v@);
                if vars_among(t@, seed_ids(defs@)) {
                    assert(t@ == SpecTree::Or(tree_view_seq(v@)));
                    assert(vars_among(SpecTree::Or(tree_view_seq(v@)), seed_ids(defs@)));
                    assert forall|k: int| 0 <= k < v@.len() implies vars_among(
                        (#[trigger] v@[k])@,
                        seed_ids(defs@),
                    ) by {
                        lemma_vars_among_or_elem(tree_view_seq(v@), seed_ids(defs@), k);
                        assert(tree_view_seq(v@)[k] == tree_view(v@[k]));
                    }
                }
            }
            let nv = inline_tree_vec(v, defs, memo, visiting, ok, compilation);
            proof {
                lemma_tree_view_seq(nv@);
                if vars_among(t@, seed_ids(defs@)) {
                    assert forall|k: int| 0 <= k < nv@.len() implies tree_view_seq(nv@)[k]
                        == tree_view_seq(v@)[k] by {
                        assert(tree_view_seq(nv@)[k] == tree_view(nv@[k]));
                        assert(nv@[k]@ == v@[k]@);
                        assert(tree_view_seq(v@)[k] == tree_view(v@[k]));
                    }
                    assert(tree_view_seq(nv@) =~= tree_view_seq(v@));
                }
                if *ok {
                    assert forall|i: int|
                        0 <= i < tree_view_seq(nv@).len() implies vars_among(
                        #[trigger] tree_view_seq(nv@)[i],
                        seed_ids(defs@),
                    ) by {
                        assert(tree_view_seq(nv@)[i] == tree_view(nv@[i]));
                        assert(vars_among(nv@[i]@, seed_ids(defs@)));
                    }
                }
            }
            AtomTree::Or(nv)
        },
        other => other,
    }
}

/// `inline_tree`, over every tree of a vector, in order.
#[verifier::loop_isolation(false)]
fn inline_tree_vec(
    v: Vec<AtomTree>,
    defs: &Vec<VarDefinition>,
    memo: &mut Vec<(usize, AtomTree)>,
    visiting: &mut Vec<usize>,
    ok: &mut bool,
    compilation: &mut Compilation,
) -> (r: Vec<AtomTree>)
    requires
        forall|i: int, j: int|
            0 <= i < j < defs@.len() ==> (#[trigger] defs@[i]).id != (#[trigger] defs@[j]).id,
        old(visiting)@.no_duplicates(),
        all_def_ids(old(visiting)@, defs@),
        *old(ok) ==> (forall|k: int|
            0 <= k < old(memo)@.len() ==> vars_among(
                (#[trigger] old(memo)@[k]).1@,
                seed_ids(defs@),
            )),
        forall|k: int|
            0 <= k < old(memo)@.len() ==> !seed_ids(defs@).contains(
                (#[trigger] old(memo)@[k]).0 as int,
            ),
    ensures
        final(visiting)@ == old(visiting)@,
        *final(ok) ==> *old(ok),
        *final(ok) ==> (forall|k: int|
            0 <= k < final(memo)@.len() ==> vars_among(
                (#[trigger] final(memo)@[k]).1@,
                seed_ids(defs@),
            )),
        forall|k: int|
            0 <= k < final(memo)@.len() ==> !seed_ids(defs@).contains(
                (#[trigger] final(memo)@[k]).0 as int,
            ),
        (forall|k: int|
            0 <= k < v@.len() ==> vars_among((#[trigger] v@[k])@, seed_ids(defs@))) ==> (forall|
            k: int,
        |
            0 <= k < v@.len() ==> (#[trigger] r@[k])@ == v@[k]@) && final(compilation).diags()
            == old(compilation).diags() && *final(ok) == *old(ok) && final(memo)@ == old(memo)@,
        r@.len() == v@.len(),
        *final(ok) ==> (forall|k: int|
            0 <= k < r@.len() ==> vars_among((#[trigger] r@[k])@, seed_ids(defs@))),
        *final(ok) ==> final(compilation).diags() == old(compilation).diags(),
        (!*final(ok) && *old(ok)) ==> final(compilation).diags().len() > old(
            compilation,
        ).diags().len(),
        final(compilation).diags().len() >= old(compilation).diags().len(),
        forall|k: int|
            0 <= k < old(compilation).diags().len() ==> final(compilation).diags()[k] == old(
                compilation,
            ).diags()[k],
        forall|k: int|
            old(compilation).diags().len() <= k < final(compilation).diags().len() ==> (
            #[trigger] final(compilation).diags()[k]).diagnostic_type == DiagnosticType::Error,
    decreases defs@.len() - visiting@.len(), v,
{
    let ghost vv = v;
    let ghost orig = v@;
    let ghost vis0 = visiting@;
    let ghost ok0 = *ok;
    let ghost d0 = compilation.diags();
    let ghost memo_at_entry = memo@;
    let mut rem = v;
    let mut out: Vec<AtomTree> = Vec::new();
    while rem.len() > 0
        invariant
            out@.len() + rem@.len() == orig.len(),
            forall|k2: int| 0 <= k2 < rem@.len() ==> rem@[k2] == orig[out@.len() + k2],
            visiting@ == vis0,
            *ok ==> ok0,
            *ok ==> (forall|k: int|
                0 <= k < memo@.len() ==> vars_among((#[trigger] memo@[k]).1@, seed_ids(defs@))),
            forall|k: int|
                0 <= k < memo@.len() ==> !seed_ids(defs@).contains((#[trigger] memo@[k]).0 as int),
            *ok ==> (forall|k: int|
                0 <= k < out@.len() ==> vars_among((#[trigger] out@[k])@, seed_ids(defs@))),
            *ok ==> compilation.diags() == d0,
            (!*ok && ok0) ==> compilation.diags().len() > d0.len(),
            compilation.diags().len() >= d0.len(),
            forall|k: int| 0 <= k < d0.len() ==> compilation.diags()[k] == d0[k],
            forall|k: int|
                d0.len() <= k < compilation.diags().len() ==> (
                #[trigger] compilation.diags()[k]).diagnostic_type == DiagnosticType::Error,
            (forall|k: int|
                0 <= k < orig.len() ==> vars_among((#[trigger] orig[k])@, seed_ids(defs@)))
                ==> (forall|k: int|
                0 <= k < out@.len() ==> (#[trigger] out@[k])@ == orig[k]@) && compilation.diags()
                == d0 && *ok == ok0 && memo@ == memo_at_entry,
        decreases rem@.len(),
    {
        let x = rem.remove(0);
        proof {
            assert(x == orig[out@.len() as int]);
            vstd::std_specs::vec::axiom_vec_index_decreases(vv, out@.len() as int);
        }
        let nx = inline_tree(x, defs, memo, visiting, ok, compilation);
        out.push(nx);
    }
    out
}

impl AtomRoot {
    /// Aggressively expands every non-seed definition into every use site,
    /// memoized per variable id; seed-label definitions are never inlined, so
    /// their provenance is preserved. Afterwards the definitions are pruned
    /// to the seed-label entries alone. A missing definition or a
    /// self-referential cycle is reported as an error instead of looping;
    /// when no error is reported, every variable still referenced by an
    /// action tree names a seed-label definition.
    #[verifier::loop_isolation(false)]
    pub fn inline_all(&mut self, compilation: &mut Compilation)
        requires
            old(self).wf(),
        ensures
            final(self).wf(),
            final(self).variable_id == old(self).variable_id,
            final(self).definitions@ == seed_filter(old(self).definitions@),
            final(self).value_actions@.len() == old(self).value_actions@.len(),
            forall|k: int|
                0 <= k < old(self).value_actions@.len() ==> (#[trigger] final(self).value_actions@[k]).1
                    == old(self).value_actions@[k].1,
            final(compilation).diags().len() >= old(compilation).diags().len(),
            forall|k: int|
                0 <= k < old(compilation).diags().len() ==> final(compilation).diags()[k] == old(
                    compilation,
                ).diags()[k],
            forall|k: int|
                old(compilation).diags().len() <= k < final(compilation).diags().len() ==> (
                #[trigger] final(compilation).diags()[k]).diagnostic_type == DiagnosticType::Error,
            final(compilation).diags().len() == old(compilation).diags().len() ==> (forall|k: int|
                0 <= k < final(self).value_actions@.len() ==> vars_among(
                    (#[trigger] final(self).value_actions@[k]).0@,
                    seed_ids(old(self).definitions@),
                )),
            (forall|k: int|
                0 <= k < old(self).value_actions@.len() ==> vars_among(
                    (#[trigger] old(self).value_actions@[k]).0@,
                    seed_ids(old(self).definitions@),
                )) ==> final(compilation).diags() == old(compilation).diags() && (forall|k: int|
                0 <= k < final(self).value_actions@.len() ==> (#[trigger] final(self).value_actions@[k]).0@
                    == old(self).value_actions@[k].0@),
    {
        let mut memo: Vec<(usize, AtomTree)> = Vec::new();
        let mut visiting: Vec<usize> = Vec::new();
        let mut ok = true;
        let ghost d0 = compilation.diags();
        let ghost odefs = self.definitions@;
        let mut actions: Vec<(AtomTree, ValueAction)> = Vec::new();
        core::mem::swap(&mut actions, &mut self.value_actions);
        let ghost oacts = actions@;
        let mut rem = actions;
        let mut aout: Vec<(AtomTree, ValueAction)> = Vec::new();
        while rem.len() > 0
            invariant
                self.definitions@ == odefs,
                aout@.len() + rem@.len() == oacts.len(),
                forall|k2: int| 0 <= k2 < rem@.len() ==> rem@[k2] == oacts[aout@.len() + k2],
                forall|k: int| 0 <= k < aout@.len() ==> (#[trigger] aout@[k]).1 == oacts[k].1,
                visiting@ == Seq::<usize>::empty(),
                ok ==> (forall|k: int|
                    0 <= k < memo@.len() ==> vars_among(
                        (#[trigger] memo@[k]).1@,
                        seed_ids(odefs),
                    )),
                forall|k: int|
                    0 <= k < memo@.len() ==> !seed_ids(odefs).contains(
                        (#[trigger] memo@[k]).0 as int,
                    ),
                ok ==> (forall|k: int|
                    0 <= k < aout@.len() ==> vars_among(
                        (#[trigger] aout@[k]).0@,
                        seed_ids(odefs),
                    )),
                (forall|k: int|
                    0 <= k < oacts.len() ==> vars_among(
                        (#[trigger] oacts[k]).0@,
                        seed_ids(odefs),
                    )) ==> (forall|k: int|
                    0 <= k < aout@.len() ==> (#[trigger] aout@[k]).0@ == oacts[k].0@)
                    && compilation.diags() == d0,
                ok ==> compilation.diags() == d0,
                !ok ==> compilation.diags().len() > d0.len(),
                compilation.diags().len() >= d0.len(),
                forall|k: int| 0 <= k < d0.len() ==> compilation.diags()[k] == d0[k],
                forall|k: int|
                    d0.len() <= k < compilation.diags().len() ==> (
                    #[trigger] compilation.diags()[k]).diagnostic_type == DiagnosticType::Error,
            decreases rem@.len(),
        {
            let (tree, action) = rem.remove(0);
            let nt = inline_tree(tree, &self.definitions, &mut memo, &mut visiting, &mut ok, compilation);
            aout.push((nt, action));
        }
        self.value_actions = aout;
        let ghost va2 = self.value_actions@;
        let ghost dfinal = compilation.diags();
        let mut defs: Vec<VarDefinition> = Vec::new();
        core::mem::swap(&mut defs, &mut self.definitions);
        let mut rem2 = defs;
        let mut dout: Vec<VarDefinition> = Vec::new();
        let ghost n: int = 0;
        proof {
            assert(odefs.take(0) =~= Seq::<VarDefinition>::empty());
        }
        while rem2.len() > 0
            invariant
                self.value_actions@ == va2,
                compilation.diags() == dfinal,
                0 <= n <= odefs.len(),
                rem2@.len() == odefs.len() - n,
                forall|k2: int| 0 <= k2 < rem2@.len() ==> rem2@[k2] == odefs[n + k2],
                dout@ == seed_filter(odefs.take(n)),
                forall|k: int|
                    0 <= k < dout@.len() ==> exists|j: int|
                        0 <= j < n && #[trigger] dout@[k] == odefs[j],
                forall|k1: int, k2: int|
                    0 <= k1 < k2 < dout@.len() ==> (#[trigger] dout@[k1]).id != (
                    #[trigger] dout@[k2]).id,
            decreases rem2@.len(),
        {
            let d = rem2.remove(0);
            let ghost nn = n;
            proof {
                n = n + 1;
                assert(d == odefs[nn]);
                assert(odefs.take(nn + 1).drop_last() =~= odefs.take(nn));
                assert(odefs.take(nn + 1).last() == odefs[nn]);
            }
            if matches!(&*d.definition, AtomTree::SeedLabel(_)) {
                let ghost dout0 = dout@;
                dout.push(d);
                proof {
                    assert forall|k1: int, k2: int|
                        0 <= k1 < k2 < dout@.len() implies (#[trigger] dout@[k1]).id != (
                    #[trigger] dout@[k2]).id by {
                        if k2 == dout@.len() - 1 {
                            let j = choose|j: int| 0 <= j < nn && #[trigger] dout0[k1] == odefs[j];
                            assert(odefs[j].id != odefs[nn].id);
                        }
                    }
                }
            }
        }
        proof {
            assert(odefs.take(n) =~= odefs);
        }
        self.definitions = dout;
    }
}

/// The outlining table: keys get sequential ids starting right above `lo`,
/// and keys are pairwise inequivalent.
pub open spec fn otable_inv(table: Seq<(AtomTree, usize)>, lo: int) -> bool {
    &&& forall|k: int| 0 <= k < table.len() ==> (#[trigger] table[k]).1 as int == lo + 1 + k
    &&& forall|i: int, j: int|
        0 <= i < j < table.len() ==> !tree_equiv((#[trigger] table[i]).0@, (#[trigger] table[j]).0@)
            && !tree_equiv(table[j].0@, table[i].0@)
}

/// The first table entry whose key is equivalent to `x`, if any.
fn otable_find(outlined: &Vec<(AtomTree, usize)>, x: &AtomTree) -> (r: Option<usize>)
    ensures
        match r {
            Some(id) => exists|k: int|
                0 <= k < outlined@.len() && tree_equiv(x@, (#[trigger] outlined@[k]).0@)
                    && outlined@[k].1 == id,
            None => forall|k: int|
                0 <= k < outlined@.len() ==> !tree_equiv(x@, (#[trigger] outlined@[k]).0@),
        },
{
    let mut i: usize = 0;
    while i < outlined.len()
        invariant
            0 <= i <= outlined@.len(),
            forall|k: int| 0 <= k < i ==> !tree_equiv(x@, (#[trigger] outlined@[k]).0@),
        decreases outlined@.len() - i,
    {
        if x.eq_tree(&outlined[i].0) {
            return Some(outlined[i].1);
        }
        i = i + 1;
    }
    None
}

/// Replaces this subtree, bottom up, by references to outlined definitions:
/// a subtree equivalent to an already-outlined one becomes a reference to
/// it, any other subtree is given a fresh sequential id and recorded;
/// variables and bare seed labels are left alone.
#[verifier::loop_isolation(false)]
fn outline_tree(
    t: AtomTree,
    outlined: &mut Vec<(AtomTree, usize)>,
    var_count: &mut usize,
    Ghost(lo): Ghost<int>,
) -> (r: AtomTree)
    requires
        otable_inv(old(outlined)@, lo),
        *old(var_count) as int == lo + old(outlined)@.len(),
        lo >= 0,
        *old(var_count) as int > lo ==> *old(var_count) < usize::MAX,
    ensures
        otable_inv(final(outlined)@, lo),
        *final(var_count) as int == lo + final(outlined)@.len(),
        *final(var_count) >= *old(var_count),
        *final(var_count) as int > lo ==> *final(var_count) < usize::MAX,
        final(outlined)@.len() >= old(outlined)@.len(),
        forall|k: int|
            0 <= k < old(outlined)@.len() ==> #[trigger] final(outlined)@[k] == old(outlined)@[k],
        t@ is Seed ==> r@ == t@ && *final(outlined) == *old(outlined) && *final(var_count) == *old(
            var_count,
        ),
        !(t@ is Seed) ==> r@ is Var || *final(var_count) as int >= usize::MAX as int - 1,
    decreases t,
{
    let inner = match t {
        AtomTree::Variable { id } => {
            return AtomTree::Variable { id };
        },
        AtomTree::SeedLabel(l) => {
            return AtomTree::SeedLabel(l);
        },
        AtomTree::Not(a) => AtomTree::Not(
            Box::new(outline_tree(*a, outlined, var_count, Ghost(lo))),
        ),
        AtomTree::Or(v) => AtomTree::Or(outline_tree_vec(v, outlined, var_count, Ghost(lo))),
        other => other,
    };
    match otable_find(outlined, &inner) {
        Some(id) => AtomTree::Variable { id },
        None => {
            if *var_count < usize::MAX - 1 {
                *var_count = *var_count + 1;
                let id = *var_count;
                let ghost table0 = outlined@;
                outlined.push((inner, id));
                proof {
                    assert forall|i: int, j: int|
                        0 <= i < j < outlined@.len() implies !tree_equiv(
                        (#[trigger] outlined@[i]).0@,
                        (#[trigger] outlined@[j]).0@,
                    ) && !tree_equiv(outlined@[j].0@, outlined@[i].0@) by {
                        if j == outlined@.len() - 1 {
                            assert(!tree_equiv(outlined@[j].0@, table0[i].0@));
                            lemma_tree_equiv_sym(outlined@[i].0@, outlined@[j].0@);
                        }
                    }
                }
                AtomTree::Variable { id }
            } else {
                inner
            }
        },
    }
}

/// `outline_tree`, over every operand, in order.
#[verifier::loop_isolation(false)]
fn outline_tree_vec(
    v: Vec<AtomTree>,
    outlined: &mut Vec<(AtomTree, usize)>,
    var_count: &mut usize,
    Ghost(lo): Ghost<int>,
) -> (r: Vec<AtomTree>)
    requires
        otable_inv(old(outlined)@, lo),
        *old(var_count) as int == lo + old(outlined)@.len(),
        lo >= 0,
        *old(var_count) as int > lo ==> *old(var_count) < usize::MAX,
    ensures
        otable_inv(final(outlined)@, lo),
        *final(var_count) as int == lo + final(outlined)@.len(),
        *final(var_count) >= *old(var_count),
        *final(var_count) as int > lo ==> *final(var_count) < usize::MAX,
        final(outlined)@.len() >= old(outlined)@.len(),
        forall|k: int|
            0 <= k < old(outlined)@.len() ==> #[trigger] final(outlined)@[k] == old(outlined)@[k],
        r@.len() == v@.len(),
    decreases v,
{
    let ghost vv = v;
    let ghost orig = v@;
    let ghost table0 = outlined@;
    let ghost vc0 = *var_count;
    let mut rem = v;
    let mut out: Vec<AtomTree> = Vec::new();
    while rem.len() > 0
        invariant
            out@.len() + rem@.len() == orig.len(),
            forall|k2: int| 0 <= k2 < rem@.len() ==> rem@[k2] == orig[out@.len() + k2],
            otable_inv(outlined@, lo),
            *var_count as int == lo + outlined@.len(),
            *var_count >= vc0,
            *var_count as int > lo ==> *var_count < usize::MAX,
            outlined@.len() >= table0.len(),
            forall|k: int| 0 <= k < table0.len() ==> #[trigger] outlined@[k] == table0[k],
        decreases rem@.len(),
    {
        let x = rem.remove(0);
        proof {
            assert(x == orig[out@.len() as int]);
            vstd::std_specs::vec::axiom_vec_index_decreases(vv, out@.len() as int);
        }
        let nx = outline_tree(x, outlined, var_count, Ghost(lo));
        out.push(nx);
    }
    out
}

impl AtomRoot {
    /// Re-introduces sharing after full inlining: every subtree other than a
    /// bare seed label or variable is outlined into a definition, a subtree
    /// equivalent to an already-outlined one reusing the recorded id, so
    /// recurring logic shares one definition; the bodies of the definitions
    /// this adds are pairwise structurally inequivalent. Afterwards every
    /// action tree and definition body that was not a bare seed label is a
    /// plain variable reference (unless the id supply ran out, which is
    /// reported by the final id counter standing at the integer boundary).
    #[verifier::loop_isolation(false)]
    pub fn outline_common_expressions(&mut self)
        requires
            old(self).wf(),
        ensures
            final(self).wf(),
            final(self).variable_id >= old(self).variable_id,
            forall|k: int|
                0 <= k < old(self).value_actions@.len() ==> {
                    &&& ((#[trigger] old(self).value_actions@[k]).0@ is Seed ==> final(self).value_actions@[k].0@
                        == old(self).value_actions@[k].0@)
                    &&& (!(old(self).value_actions@[k].0@ is Seed) ==> final(self).value_actions@[k].0@
                        is Var || final(self).variable_id as int >= usize::MAX as int - 1)
                },
            (forall|k: int|
                0 <= k < old(self).definitions@.len() ==> (#[trigger] old(self).definitions@[k]).definition@
                    is Seed) ==> (forall|i: int, j: int|
                0 <= i < j < final(self).definitions@.len() ==> !tree_equiv(
                    (#[trigger] final(self).definitions@[i]).definition@,
                    (#[trigger] final(self).definitions@[j]).definition@,
                ) && !tree_equiv(
                    final(self).definitions@[j].definition@,
                    final(self).definitions@[i].definition@,
                )),
            final(self).definitions@.len() >= old(self).definitions@.len(),
            forall|k: int|
                0 <= k < old(self).definitions@.len() ==> (#[trigger] final(self).definitions@[k]).id
                    == old(self).definitions@[k].id,
            forall|k: int|
                0 <= k < old(self).definitions@.len() && old(self).definitions@[k].definition@
                    is Seed ==> (#[trigger] final(self).definitions@[k]).definition@ == old(
                    self,
                ).definitions@[k].definition@,
            forall|i: int, j: int|
                old(self).definitions@.len() <= i < j < final(self).definitions@.len()
                    ==> !tree_equiv(
                    (#[trigger] final(self).definitions@[i]).definition@,
                    (#[trigger] final(self).definitions@[j]).definition@,
                ) && !tree_equiv(
                    final(self).definitions@[j].definition@,
                    final(self).definitions@[i].definition@,
                ),
            forall|i: int|
                old(self).definitions@.len() <= i < final(self).definitions@.len() ==> (
                #[trigger] final(self).definitions@[i]).id as int >= old(self).variable_id,
            final(self).value_actions@.len() == old(self).value_actions@.len(),
            forall|k: int|
                0 <= k < old(self).value_actions@.len() ==> (#[trigger] final(self).value_actions@[k]).1
                    == old(self).value_actions@[k].1,
    {
        let mut outlined: Vec<(AtomTree, usize)> = Vec::new();
        let mut var_count: usize = self.variable_id;
        let ghost lo = self.variable_id as int;
        let ghost odefs = self.definitions@;
        let mut actions: Vec<(AtomTree, ValueAction)> = Vec::new();
        core::mem::swap(&mut actions, &mut self.value_actions);
        let ghost oacts = actions@;
        let mut rem = actions;
        let mut aout: Vec<(AtomTree, ValueAction)> = Vec::new();
        while rem.len() > 0
            invariant
                self.definitions@ == odefs,
                aout@.len() + rem@.len() == oacts.len(),
                forall|k2: int| 0 <= k2 < rem@.len() ==> rem@[k2] == oacts[aout@.len() + k2],
                forall|k: int| 0 <= k < aout@.len() ==> (#[trigger] aout@[k]).1 == oacts[k].1,
                forall|k: int|
                    0 <= k < aout@.len() ==> {
                        &&& ((#[trigger] oacts[k]).0@ is Seed ==> aout@[k].0@ == oacts[k].0@)
                        &&& (!(oacts[k].0@ is Seed) ==> aout@[k].0@ is Var || var_count as int
                            >= usize::MAX as int - 1)
                    },
                otable_inv(outlined@, lo),
                var_count as int == lo + outlined@.len(),
                lo >= 0,
                var_count as int > lo ==> var_count < usize::MAX,
                self.variable_id == old(self).variable_id,
            decreases rem@.len(),
        {
            let (tree, action) = rem.remove(0);
            let nt = if matches!(&tree, AtomTree::SeedLabel(_)) {
                tree
            } else {
                outline_tree(tree, &mut outlined, &mut var_count, Ghost(lo))
            };
            aout.push((nt, action));
        }
        self.value_actions = aout;
        let ghost va = self.value_actions@;
        let mut defs: Vec<VarDefinition> = Vec::new();
        core::mem::swap(&mut defs, &mut self.definitions);
        let ghost odefs2 = defs@;
        let mut rem2 = defs;
        let mut dout: Vec<VarDefinition> = Vec::new();
        while rem2.len() > 0
            invariant
                dout@.len() + rem2@.len() == odefs2.len(),
                forall|k2: int| 0 <= k2 < rem2@.len() ==> rem2@[k2] == odefs2[dout@.len() + k2],
                forall|k: int|
                    0 <= k < dout@.len() ==> (#[trigger] dout@[k]).id == odefs2[k].id,
                forall|k: int|
                    0 <= k < dout@.len() && odefs2[k].definition@ is Seed ==> (
                    #[trigger] dout@[k]).definition@ == odefs2[k].definition@,
                otable_inv(outlined@, lo),
                var_count as int == lo + outlined@.len(),
                lo >= 0,
                var_count as int > lo ==> var_count < usize::MAX,
                self.variable_id == old(self).variable_id,
                self.value_actions@ == va,
                va.len() == oacts.len(),
                forall|k: int|
                    0 <= k < oacts.len() ==> {
                        &&& ((#[trigger] oacts[k]).0@ is Seed ==> va[k].0@ == oacts[k].0@)
                        &&& (!(oacts[k].0@ is Seed) ==> va[k].0@ is Var || var_count as int
                            >= usize::MAX as int - 1)
                    },
            decreases rem2@.len(),
        {
            let d = rem2.remove(0);
            let nb = if matches!(&*d.definition, AtomTree::SeedLabel(_)) {
                *d.definition
            } else {
                outline_tree(*d.definition, &mut outlined, &mut var_count, Ghost(lo))
            };
            dout.push(VarDefinition { id: d.id, definition: Box::new(nb) });
        }
        self.definitions = dout;
        let ghost base = self.definitions@.len() as int;
        let ghost table = outlined@;
        let mut rem3 = outlined;
        let ghost m: int = 0;
        while rem3.len() > 0
            invariant
                0 <= m <= table.len(),
                rem3@.len() == table.len() - m,
                forall|k2: int| 0 <= k2 < rem3@.len() ==> rem3@[k2] == table[m + k2],
                self.definitions@.len() == base + m,
                forall|k: int|
                    0 <= k < base ==> (#[trigger] self.definitions@[k]).id == odefs2[k].id,
                forall|k: int|
                    0 <= k < base && odefs2[k].definition@ is Seed ==> (
                    #[trigger] self.definitions@[k]).definition@ == odefs2[k].definition@,
                forall|k: int|
                    base <= k < self.definitions@.len() ==> (#[trigger] self.definitions@[k]).id
                        == table[k - base].1 && self.definitions@[k].definition@ == table[k
                        - base].0@,
                var_count as int == lo + table.len(),
                var_count as int > lo ==> var_count < usize::MAX,
                self.variable_id == old(self).variable_id,
                self.value_actions@ == va,
                va.len() == oacts.len(),
                forall|k: int|
                    0 <= k < oacts.len() ==> {
                        &&& ((#[trigger] oacts[k]).0@ is Seed ==> va[k].0@ == oacts[k].0@)
                        &&& (!(oacts[k].0@ is Seed) ==> va[k].0@ is Var || var_count as int
                            >= usize::MAX as int - 1)
                    },
                otable_inv(table, lo),
            decreases rem3@.len(),
        {
            let e = rem3.remove(0);
            let ghost dbefore = self.definitions@;
            self.definitions.push(VarDefinition { id: e.1, definition: Box::new(e.0) });
            proof {
                m = m + 1;
                assert(self.definitions@.drop_last() =~= dbefore);
            }
        }
        if var_count < usize::MAX {
            if var_count + 1 > self.variable_id {
                self.variable_id = var_count + 1;
            }
        }
        proof {
            assert(base == odefs.len());
            assert(odefs2 == odefs);
            assert forall|i: int, j: int|
                0 <= i < j < self.definitions@.len() implies (#[trigger] self.definitions@[i]).id
                != (#[trigger] self.definitions@[j]).id by {
                if i < base && j < base {
                    assert(self.definitions@[i].id == odefs[i].id);
                    assert(self.definitions@[j].id == odefs[j].id);
                } else if i < base && j >= base {
                    assert(self.definitions@[i].id == odefs[i].id);
                    assert(odefs[i].id < old(self).variable_id);
                    assert(self.definitions@[j].id == table[j - base].1);
                    assert(self.definitions@[j].id as int == lo + 1 + (j - base));
                } else {
                    assert(self.definitions@[i].id as int == lo + 1 + (i - base));
                    assert(self.definitions@[j].id as int == lo + 1 + (j - base));
                }
            }
            assert forall|i: int|
                0 <= i < self.definitions@.len() implies (#[trigger] self.definitions@[i]).id
                < self.variable_id by {
                if i < base {
                    assert(self.definitions@[i].id == odefs[i].id);
                    assert(odefs[i].id < old(self).variable_id);
                } else {
                    assert(self.definitions@[i].id as int == lo + 1 + (i - base));
                    assert(self.definitions@[i].id as int <= var_count as int);
                }
            }
            assert(var_count as int >= usize::MAX as int - 1 ==> self.variable_id as int
                >= usize::MAX as int - 1);
            if forall|k: int|
                0 <= k < old(self).definitions@.len() ==> (#[trigger] old(self).definitions@[k]).definition@
                    is Seed {
                assert forall|i: int, j: int|
                    0 <= i < j < self.definitions@.len() implies !tree_equiv(
                    (#[trigger] self.definitions@[i]).definition@,
                    (#[trigger] self.definitions@[j]).definition@,
                ) && !tree_equiv(
                    self.definitions@[j].definition@,
                    self.definitions@[i].definition@,
                ) by {
                    if i < base {
                        assert(odefs[i].definition@ is Seed);
                        assert(self.definitions@[i].definition@ == odefs[i].definition@);
                    }
                    if j >= base {
                        assert(self.definitions@[j].definition@ == table[j - base].0@);
                        if i >= base {
                            assert(self.definitions@[i].definition@ == table[i - base].0@);
                        }
                    } else {
                        assert(odefs[j].definition@ is Seed);
                        assert(self.definitions@[j].definition@ == odefs[j].definition@);
                    }
                }
            }
        }
    }
}

/// No two distinct definitions have structurally-equal bodies when the first
/// group consists of seed labels (which never compare equal) and the second
/// group is pairwise inequivalent: the state outlining leaves behind after
/// full inlining.
pub proof fn lemma_no_equal_definitions(defs: Seq<VarDefinition>, split: int)
    requires
        0 <= split <= defs.len(),
        forall|i: int| 0 <= i < split ==> (#[trigger] defs[i]).definition@ is Seed,
        forall|i: int, j: int|
            split <= i < j < defs.len() ==> !tree_equiv(
                (#[trigger] defs[i]).definition@,
                (#[trigger] defs[j]).definition@,
            ) && !tree_equiv(defs[j].definition@, defs[i].definition@),
    ensures
        forall|i: int, j: int|
            0 <= i < j < defs.len() ==> !tree_equiv(
                (#[trigger] defs[i]).definition@,
                (#[trigger] defs[j]).definition@,
            ) && !tree_equiv(defs[j].definition@, defs[i].definition@),
{
    assert forall|i: int, j: int|
        0 <= i < j < defs.len() implies !tree_equiv(
        (#[trigger] defs[i]).definition@,
        (#[trigger] defs[j]).definition@,
    ) && !tree_equiv(defs[j].definition@, defs[i].definition@) by {
        if i < split {
            assert(defs[i].definition@ is Seed);
        } else {
        }
    }
}


/// Double negation: `Not(Not(X))` simplifies to the same normal form as `X`
/// itself, for any tree `X`.
pub proof fn lemma_double_negation(x: SpecTree)
    ensures
        norm(SpecTree::Neg(Box::new(SpecTree::Neg(Box::new(x))))) == norm(x),
{
    lemma_norm_normalized(x);
    let nx = norm(x);
    let inner = norm(SpecTree::Neg(Box::new(x)));
    match nx {
        SpecTree::Neg(y) => {
            assert(inner == *y);
            assert(normalized(*y) && !(*y is Neg) && !(*y is Const));
            assert(norm(SpecTree::Neg(Box::new(SpecTree::Neg(Box::new(x))))) == SpecTree::Neg(
                Box::new(*y),
            ));
        },
        SpecTree::Const(c) => {
            assert(inner == SpecTree::Const(c.spec_not()));
            assert(norm(SpecTree::Neg(Box::new(SpecTree::Neg(Box::new(x))))) == SpecTree::Const(
                c.spec_not().spec_not(),
            ));
        },
        _ => {
            assert(inner == SpecTree::Neg(Box::new(nx)));
            assert(norm(SpecTree::Neg(Box::new(SpecTree::Neg(Box::new(x))))) == nx);
        },
    }
}

/// Disjunction short-circuit: if any operand is the constant `true`, the
/// whole disjunction simplifies to the constant `true`.
pub proof fn lemma_or_short_circuit(u: Seq<SpecTree>)
    requires
        exists|i: int| 0 <= i < u.len() && #[trigger] u[i] == SpecTree::Const(AtomType::True),
    ensures
        norm(SpecTree::Or(u)) == SpecTree::Const(AtomType::True),
{
    let i = choose|i: int| 0 <= i < u.len() && #[trigger] u[i] == SpecTree::Const(AtomType::True);
    lemma_norm_seq(u);
    assert(norm_seq(u)[i] == SpecTree::Const(AtomType::True));
    assert(seq_has_true(norm_seq(u)));
}

/// A disjunction whose operands are all the constant `false` simplifies to
/// the constant `false`.
pub proof fn lemma_or_all_false(u: Seq<SpecTree>)
    requires
        forall|i: int| 0 <= i < u.len() ==> #[trigger] u[i] == SpecTree::Const(AtomType::False),
    ensures
        norm(SpecTree::Or(u)) == SpecTree::Const(AtomType::False),
{
    lemma_norm_seq(u);
    let nu = norm_seq(u);
    assert forall|i: int| 0 <= i < nu.len() implies #[trigger] nu[i] == SpecTree::Const(
        AtomType::False,
    ) by {
        assert(nu[i] == norm(u[i]));
    }
    if seq_has_true(nu) {
        let i = choose|i: int|
            0 <= i < nu.len() && #[trigger] nu[i] == SpecTree::Const(AtomType::True);
        assert(false);
    }
    lemma_flatten_all_const(nu);
    assert(dedup_equiv(flatten_ors(nu)) =~= Seq::<SpecTree>::empty());
}

/// Flattening a sequence of constants leaves nothing.
proof fn lemma_flatten_all_const(s: Seq<SpecTree>)
    requires
        forall|i: int| 0 <= i < s.len() ==> (#[trigger] s[i]) is Const,
    ensures
        flatten_ors(s) == Seq::<SpecTree>::empty(),
    decreases s.len(),
{
    if s.len() == 0 {
        assert(flatten_ors(s) =~= Seq::<SpecTree>::empty());
    } else {
        assert forall|i: int| 0 <= i < s.drop_first().len() implies (#[trigger] s.drop_first()[i])
            is Const by {
            assert(s.drop_first()[i] == s[i + 1]);
        }
        lemma_flatten_all_const(s.drop_first());
        assert(s[0] is Const);
    }
}

/// A singleton disjunction simplifies to its operand's own normal form.
pub proof fn lemma_or_singleton(x: SpecTree)
    ensures
        norm(SpecTree::Or(seq![x])) == norm(x),
{
    let u = seq![x];
    lemma_norm_seq(u);
    let nu = norm_seq(u);
    assert(nu.len() == 1 && nu[0] == norm(x));
    assert(nu =~= seq![norm(x)]);
    lemma_norm_normalized(x);
    let nx = norm(x);
    assert(nu.drop_first() =~= Seq::<SpecTree>::empty());
    assert(flatten_ors(Seq::<SpecTree>::empty()) =~= Seq::<SpecTree>::empty());
    if seq_has_true(nu) {
        let i = choose|i: int|
            0 <= i < nu.len() && #[trigger] nu[i] == SpecTree::Const(AtomType::True);
        assert(nx == SpecTree::Const(AtomType::True));
        assert(norm(SpecTree::Or(u)) == SpecTree::Const(AtomType::True));
    } else {
        match nx {
            SpecTree::Const(c) => {
                assert(c == AtomType::False) by {
                    if c == AtomType::True {
                        assert(nu[0] == SpecTree::Const(AtomType::True));
                    }
                }
                assert(flatten_ors(nu) =~= Seq::<SpecTree>::empty());
                assert(dedup_equiv(flatten_ors(nu)) =~= Seq::<SpecTree>::empty());
            },
            SpecTree::Or(w) => {
                assert(flatten_ors(nu) =~= w + Seq::<SpecTree>::empty());
                assert(flatten_ors(nu) =~= w);
                assert(normalized(nx));
                assert forall|i: int, j: int|
                    0 <= i < j < w.len() implies !tree_equiv(#[trigger] w[i], #[trigger] w[j])
                    && !tree_equiv(w[j], w[i]) by {}
                lemma_dedup_id(w);
                assert(w.len() >= 2);
                assert(norm(SpecTree::Or(u)) == SpecTree::Or(w));
            },
            _ => {
                assert(flatten_ors(nu) =~= seq![nx] + Seq::<SpecTree>::empty());
                assert(flatten_ors(nu) =~= seq![nx]);
                assert(seq![nx].drop_last() =~= Seq::<SpecTree>::empty());
                assert(seq![nx].last() == nx);
                assert(dedup_equiv(Seq::<SpecTree>::empty()) == Seq::<SpecTree>::empty());
                assert(!seq_contains_equiv(Seq::<SpecTree>::empty(), nx));
                assert(dedup_equiv(seq![nx]) =~= seq![nx]);
            },
        }
    }
}


/// The boolean value a tree takes under an assignment of the variables, if
/// any: a neutral or null seed and an unassigned variable have no value, and
/// a disjunction has a value only when every operand has one.
pub open spec fn eval_tree(t: SpecTree, env: Map<int, bool>) -> Option<bool>
    decreases t, 1int,
{
    match t {
        SpecTree::Seed(l) => if l == Label::True {
            Some(true)
        } else if l == Label::False {
            Some(false)
        } else {
            None
        },
        SpecTree::Marker(x) => eval_tree(*x, env),
        SpecTree::Var(id) => if env.contains_key(id) {
            Some(env[id])
        } else {
            None
        },
        SpecTree::Const(c) => Some(c == AtomType::True),
        SpecTree::Neg(x) => match eval_tree(*x, env) {
            Some(b) => Some(!b),
            None => None,
        },
        SpecTree::Or(u) => eval_or_seq(u, env),
    }
}

/// The strict disjunction of the operand values.
pub open spec fn eval_or_seq(u: Seq<SpecTree>, env: Map<int, bool>) -> Option<bool>
    decreases u, 2int,
{
    if u.len() == 0 {
        Some(false)
    } else {
        match (eval_or_seq(u.drop_last(), env), eval_tree(u.last(), env)) {
            (Some(a), Some(b)) => Some(a || b),
            _ => None,
        }
    }
}

/// An assignment satisfies a restriction when the target evaluates exactly
/// to the required boolean.
pub open spec fn restriction_satisfied(t: SpecTree, required: AtomType, env: Map<int, bool>) -> bool {
    eval_tree(t, env) == Some(required == AtomType::True)
}

/// Force/De Morgan duality: forcing `Not(X)` to a value constrains exactly
/// the assignments that forcing `X` to the negated value constrains, so the
/// rewritten program is equivalent to the original.
pub proof fn lemma_force_de_morgan(x: SpecTree, required: AtomType, env: Map<int, bool>)
    ensures
        restriction_satisfied(SpecTree::Neg(Box::new(x)), required, env) == restriction_satisfied(
            x,
            required.spec_not(),
            env,
        ),
{
}


} // verus!
