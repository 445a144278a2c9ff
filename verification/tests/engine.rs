//! Tests of the rewrite engine: local simplification, force propagation,
//! alias removal, inlining, and outlining.

use coala::atom_tree::{AtomRoot, AtomTree, ValueAction};
use coala::atom_tree_to_graph::Label;
use coala::compilation::Compilation;
use coala::diagnostic::DiagnosticType;
use coala::settings::Settings;
use coala::token::AtomType;

fn fresh_compilation() -> Compilation {
    Compilation::new(Settings::default())
}

fn tt() -> AtomTree {
    AtomTree::AtomType { atom: AtomType::True }
}

fn ff() -> AtomTree {
    AtomTree::AtomType { atom: AtomType::False }
}

fn var(id: usize) -> AtomTree {
    AtomTree::Variable { id }
}

fn not(t: AtomTree) -> AtomTree {
    AtomTree::Not(Box::new(t))
}

fn or2(a: AtomTree, b: AtomTree) -> AtomTree {
    AtomTree::Or(vec![a, b])
}

#[test]
fn simp_double_negation() {
    // Not(Not(X)) simplifies to X, for variables and for constants.
    let mut changed = false;
    let r = not(not(var(7))).simp_rec(&mut changed);
    assert!(changed);
    assert!(r.eq_tree(&var(7)));

    let mut changed = false;
    let r = not(not(tt())).simp_rec(&mut changed);
    assert!(changed);
    assert!(r.eq_tree(&tt()));
}

#[test]
fn simp_constant_negation() {
    let mut changed = false;
    let r = not(tt()).simp_rec(&mut changed);
    assert!(changed);
    assert!(r.eq_tree(&ff()));
}

#[test]
fn simp_or_short_circuit() {
    // Or([true, X]) collapses to true.
    let mut changed = false;
    let r = or2(tt(), var(3)).simp_rec(&mut changed);
    assert!(changed);
    assert!(r.eq_tree(&tt()));
}

#[test]
fn simp_or_all_false() {
    // Or([false, false]) collapses to false.
    let mut changed = false;
    let r = or2(ff(), ff()).simp_rec(&mut changed);
    assert!(changed);
    assert!(r.eq_tree(&ff()));
}

#[test]
fn simp_or_singleton() {
    // Or([X]) collapses to X.
    let mut changed = false;
    let r = AtomTree::Or(vec![var(5)]).simp_rec(&mut changed);
    assert!(changed);
    assert!(r.eq_tree(&var(5)));
}

#[test]
fn simp_or_dedup_and_flatten() {
    // Or([X, Or([X, Y]), false]) flattens and deduplicates to Or([X, Y]).
    let inner = or2(var(1), var(2));
    let t = AtomTree::Or(vec![var(1), inner, ff()]);
    let mut changed = false;
    let r = t.simp_rec(&mut changed);
    assert!(changed);
    assert!(r.eq_tree(&or2(var(1), var(2))));
    // Order independence under the tree's own equality: the operand order
    // of the expected tree does not matter.
    assert!(r.eq_tree(&or2(var(2), var(1))));
}

#[test]
fn simp_idempotent() {
    // Running the pass again on an already-simplified tree reports no
    // change and returns the tree unchanged.
    let t = AtomTree::Or(vec![var(1), not(var(2)), ff(), or2(var(3), var(1))]);
    let mut changed = false;
    let r = t.simp_rec(&mut changed);
    assert!(changed);
    let printed = format!("{:?}", r);
    let mut changed2 = false;
    let r2 = r.simp_rec(&mut changed2);
    assert!(!changed2);
    assert_eq!(printed, format!("{:?}", r2));
}

#[test]
fn force_de_morgan_rewrite() {
    // Forcing Not(X) to true becomes forcing X to false.
    let mut root = AtomRoot::default();
    let x = root.define_new_var(AtomTree::SeedLabel(Label::Neutral));
    root.define_restriction(not(var(x)), AtomType::True);
    let mut compilation = fresh_compilation();
    let mut changed = false;
    root.simp_force(&mut compilation, &mut changed);
    assert!(changed);
    assert_eq!(root.value_actions.len(), 1);
    let (tree, action) = &root.value_actions[0];
    assert!(tree.eq_tree(&var(x)));
    match action {
        ValueAction::Restriction(t) => assert_eq!(*t, AtomType::False),
        _ => panic!("expected a restriction"),
    }
}

#[test]
fn force_or_false_expands() {
    // A disjunction forced false becomes one false restriction per operand.
    let mut root = AtomRoot::default();
    let a = root.define_new_var(AtomTree::SeedLabel(Label::Neutral));
    let b = root.define_new_var(AtomTree::SeedLabel(Label::Neutral));
    root.define_restriction(or2(var(a), var(b)), AtomType::False);
    let mut compilation = fresh_compilation();
    let mut changed = false;
    root.simp_force(&mut compilation, &mut changed);
    assert!(changed);
    assert_eq!(root.value_actions.len(), 2);
    for (tree, action) in &root.value_actions {
        assert!(tree.eq_tree(&var(a)) || tree.eq_tree(&var(b)));
        match action {
            ValueAction::Restriction(t) => assert_eq!(*t, AtomType::False),
            _ => panic!("expected a restriction"),
        }
    }
}

#[test]
fn force_variable_substitutes_elsewhere() {
    // A restriction on a bare variable substitutes the constant everywhere
    // else, but the authoritative restriction itself keeps the variable.
    let mut root = AtomRoot::default();
    let a = root.define_new_var(AtomTree::SeedLabel(Label::Neutral));
    let b = root.define_new_var(or2(var(a), var(a)));
    root.define_restriction(var(a), AtomType::True);
    let mut compilation = fresh_compilation();
    let mut changed = false;
    root.simp_force(&mut compilation, &mut changed);
    // The restriction target is still the variable.
    assert!(root.value_actions[0].0.eq_tree(&var(a)));
    // The other definition saw the substitution.
    let body = root
        .definitions
        .iter()
        .find(|d| d.id == b)
        .map(|d| (*d.definition).clone())
        .unwrap();
    assert!(body.eq_tree(&or2(tt(), tt())));
}

#[test]
fn force_contradictory_constant_warns_and_resolves() {
    // A constant target contradicting the forced value draws a solvability
    // warning and the action is removed.
    let mut root = AtomRoot::default();
    root.define_restriction(tt(), AtomType::False);
    let mut compilation = fresh_compilation();
    let mut changed = false;
    root.simp_force(&mut compilation, &mut changed);
    assert_eq!(root.value_actions.len(), 0);
    assert_eq!(compilation.diagnostics().len(), 1);
    assert_eq!(
        compilation.diagnostics()[0].diagnostic_type,
        DiagnosticType::Warning
    );
}

#[test]
fn force_trivially_satisfied_resolves_silently() {
    let mut root = AtomRoot::default();
    root.define_restriction(tt(), AtomType::True);
    let mut compilation = fresh_compilation();
    let mut changed = false;
    root.simp_force(&mut compilation, &mut changed);
    assert_eq!(root.value_actions.len(), 0);
    assert_eq!(compilation.diagnostics().len(), 0);
}

#[test]
fn remove_links_chain_converges() {
    // A chain of three aliases converges in at most three calls and leaves
    // no definition that is a bare variable or constant.
    let mut root = AtomRoot::default();
    let c = root.define_new_var(tt());
    let b = root.define_new_var(var(c));
    let a = root.define_new_var(var(b));
    root.define_restriction(or2(var(a), AtomTree::SeedLabel(Label::Neutral)), AtomType::True);
    let mut calls = 0;
    while root.remove_links() {
        calls += 1;
        assert!(calls <= 3);
    }
    for d in &root.definitions {
        assert!(!matches!(&*d.definition, AtomTree::Variable { .. }));
        assert!(!matches!(&*d.definition, AtomTree::AtomType { .. }));
    }
}

#[test]
fn inline_all_leaves_only_seeds() {
    let mut root = AtomRoot::default();
    let s = root.define_new_var(AtomTree::SeedLabel(Label::True));
    let d = root.define_new_var(not(var(s)));
    let e = root.define_new_var(or2(var(d), var(s)));
    root.define_restriction(var(e), AtomType::True);
    let mut compilation = fresh_compilation();
    root.inline_all(&mut compilation);
    assert_eq!(compilation.diagnostics().len(), 0);
    for def in &root.definitions {
        assert!(matches!(&*def.definition, AtomTree::SeedLabel(_)));
    }
    // The action tree references only the seed definition.
    let expected = or2(not(var(s)), var(s));
    assert!(root.value_actions[0].0.eq_tree(&expected));
}

#[test]
fn inline_all_reports_cycles() {
    // A self-referential definition is reported instead of looping.
    let mut root = AtomRoot::default();
    let a = root.define_new_var(tt());
    root.definitions[0].definition = Box::new(not(var(a)));
    root.define_restriction(var(a), AtomType::True);
    let mut compilation = fresh_compilation();
    root.inline_all(&mut compilation);
    assert!(compilation
        .diagnostics()
        .iter()
        .any(|d| d.diagnostic_type == DiagnosticType::Error));
}

#[test]
fn outline_shares_common_expressions() {
    let mut root = AtomRoot::default();
    let s = root.define_new_var(AtomTree::SeedLabel(Label::Neutral));
    let common = not(var(s));
    root.define_restriction(or2(common.clone(), var(s)), AtomType::True);
    root.define_restriction(or2(common.clone(), not(not(var(s)))), AtomType::False);
    let before = root.definitions.len();
    root.outline_common_expressions();
    assert!(root.definitions.len() > before);
    // No two added definitions have structurally equal bodies.
    for i in before..root.definitions.len() {
        for j in (i + 1)..root.definitions.len() {
            assert!(!root.definitions[i]
                .definition
                .eq_tree(&root.definitions[j].definition));
        }
    }
}

#[test]
fn finalize_strips_markers() {
    let mut root = AtomRoot::default();
    let a = root.define_new_var(AtomTree::SeedLabel(Label::True));
    root.value_actions.push((
        AtomTree::DoNotRemoveMarker(Box::new(var(a))),
        ValueAction::Restriction(AtomType::True),
    ));
    root.finalize_simp();
    assert!(root.value_actions[0].0.eq_tree(&var(a)));
}

#[test]
fn tree_equality_treats_or_as_set() {
    assert!(or2(var(1), var(2)).eq_tree(&or2(var(2), var(1))));
    assert!(!or2(var(1), var(2)).eq_tree(&or2(var(1), var(3))));
    // Seed labels never compare equal, even to themselves.
    assert!(!AtomTree::SeedLabel(Label::True).eq_tree(&AtomTree::SeedLabel(Label::True)));
}
