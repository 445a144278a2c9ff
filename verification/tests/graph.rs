//! Tests of the graph encoder: basis nodes, the disjunction gadget table,
//! whitelist completion, and end-to-end scenarios.

use coala::atom_tree::{AtomRoot, AtomTree};
use coala::atom_tree_to_graph::{AtomTreeCompiler, Label};
use coala::compilation::Compilation;
use coala::diagnostic::DiagnosticType;
use coala::settings::Settings;
use coala::token::AtomType;

fn fresh_compilation() -> Compilation {
    Compilation::new(Settings::default())
}

fn var(id: usize) -> AtomTree {
    AtomTree::Variable { id }
}

fn or2(a: AtomTree, b: AtomTree) -> AtomTree {
    AtomTree::Or(vec![a, b])
}

fn label_of(b: bool) -> Label {
    if b {
        Label::True
    } else {
        Label::False
    }
}

#[test]
fn basis_nodes_come_first() {
    let root = AtomRoot::default();
    let mut compilation = fresh_compilation();
    let nodes = AtomTreeCompiler::new(root).compile(&mut compilation);
    assert_eq!(nodes.len(), 3);
    assert_eq!(nodes[0].label, Label::True);
    assert_eq!(nodes[1].label, Label::False);
    assert_eq!(nodes[2].label, Label::Neutral);
    // Each basis node is whitelisted to exactly its own color, and the
    // completion connects it to the other two basis nodes.
    assert!(nodes[0].connections.contains(&1) && nodes[0].connections.contains(&2));
    assert!(nodes[1].connections.contains(&0) && nodes[1].connections.contains(&2));
    assert!(nodes[2].connections.contains(&0) && nodes[2].connections.contains(&1));
}

#[test]
fn or_gadget_matches_table() {
    // For each boolean combination, the five gadget nodes take exactly the
    // labels of the gadget table.
    let table = [
        // (a, b, c1, a1, b1, c2, output)
        (true, true, Label::Neutral, Label::Neutral, Label::False, Label::False, Label::True),
        (true, false, Label::Neutral, Label::False, Label::Neutral, Label::False, Label::True),
        (false, true, Label::Neutral, Label::Neutral, Label::False, Label::False, Label::True),
        (false, false, Label::True, Label::Neutral, Label::True, Label::Neutral, Label::False),
    ];
    for (a, b, c1, a1, b1, c2, output) in table {
        let mut root = AtomRoot::default();
        let va = root.define_new_var(AtomTree::SeedLabel(label_of(a)));
        let vb = root.define_new_var(AtomTree::SeedLabel(label_of(b)));
        root.define_restriction(or2(var(va), var(vb)), AtomType::True);
        let mut compilation = fresh_compilation();
        let nodes = AtomTreeCompiler::new(root).compile(&mut compilation);
        // Layout: 0..3 basis, 3 seed a, 4 seed b, 5..10 the gadget.
        assert_eq!(nodes.len(), 10);
        assert_eq!(nodes[3].label, label_of(a));
        assert_eq!(nodes[4].label, label_of(b));
        assert_eq!(nodes[5].label, c1);
        assert_eq!(nodes[6].label, a1);
        assert_eq!(nodes[7].label, b1);
        assert_eq!(nodes[8].label, c2);
        assert_eq!(nodes[9].label, output);
        // The nine gadget edges.
        assert!(nodes[3].connections.contains(&5));
        assert!(nodes[4].connections.contains(&5));
        assert!(nodes[3].connections.contains(&6));
        assert!(nodes[4].connections.contains(&7));
        assert!(nodes[6].connections.contains(&7));
        assert!(nodes[8].connections.contains(&5));
        assert!(nodes[9].connections.contains(&8));
        assert!(nodes[9].connections.contains(&6));
        assert!(nodes[9].connections.contains(&7));
    }
}

#[test]
fn negation_connects_input_and_output() {
    // The negation encoding ties input and output with a structural edge,
    // the explicit decision the design notes ask for, and labels the output
    // with the opposite boolean.
    let mut root = AtomRoot::default();
    let s = root.define_new_var(AtomTree::SeedLabel(Label::True));
    root.define_restriction(AtomTree::Not(Box::new(var(s))), AtomType::False);
    let mut compilation = fresh_compilation();
    let nodes = AtomTreeCompiler::new(root).compile(&mut compilation);
    // Layout: 0..3 basis, 3 the seed input, 4 the negation output.
    assert_eq!(nodes.len(), 5);
    assert_eq!(nodes[3].label, Label::True);
    assert_eq!(nodes[4].label, Label::False);
    assert!(nodes[4].connections.contains(&3));
    assert!(nodes[3].connections.contains(&4));
}

#[test]
fn whitelist_completion_connects_to_basis() {
    // A seed whitelisted to one color is connected to the other two basis
    // nodes by graph completion.
    let mut root = AtomRoot::default();
    let s = root.define_new_var(AtomTree::SeedLabel(Label::True));
    root.define_restriction(var(s), AtomType::True);
    let mut compilation = fresh_compilation();
    let nodes = AtomTreeCompiler::new(root).compile(&mut compilation);
    assert_eq!(nodes.len(), 4);
    assert!(nodes[3].connections.contains(&1));
    assert!(nodes[3].connections.contains(&2));
    assert!(!nodes[3].connections.contains(&0));
    assert!(compilation.is_error_free());
}

#[test]
fn output_action_fails_loudly_in_encoder() {
    let mut root = AtomRoot::default();
    root.value_actions.push((
        AtomTree::AtomType { atom: AtomType::True },
        coala::atom_tree::ValueAction::Output(vec![], vec![]),
    ));
    let mut compilation = fresh_compilation();
    let _ = AtomTreeCompiler::new(root).compile(&mut compilation);
    assert!(compilation
        .diagnostics()
        .iter()
        .any(|d| d.diagnostic_type == DiagnosticType::Error));
}

#[test]
fn nonbinary_or_is_rejected_by_encoder() {
    let mut root = AtomRoot::default();
    let a = root.define_new_var(AtomTree::SeedLabel(Label::Neutral));
    let b = root.define_new_var(AtomTree::SeedLabel(Label::Neutral));
    let c = root.define_new_var(AtomTree::SeedLabel(Label::Neutral));
    root.define_restriction(
        AtomTree::Or(vec![var(a), var(b), var(c)]),
        AtomType::True,
    );
    let mut compilation = fresh_compilation();
    let _ = AtomTreeCompiler::new(root).compile(&mut compilation);
    assert!(compilation
        .diagnostics()
        .iter()
        .any(|d| d.diagnostic_type == DiagnosticType::Error));
}

#[test]
fn de_morgan_duality_preserves_satisfiability() {
    // Forcing Not(X) to true and forcing X to false compile to graphs with
    // the same satisfiability verdict, for a satisfiable and for an
    // unsatisfiable seeding.
    for seed in [Label::False, Label::True] {
        let run = |negated: bool| {
            let mut root = AtomRoot::default();
            let x = root.define_new_var(AtomTree::SeedLabel(seed));
            if negated {
                root.define_restriction(
                    AtomTree::Not(Box::new(var(x))),
                    AtomType::True,
                );
            } else {
                root.define_restriction(var(x), AtomType::False);
            }
            let mut compilation = fresh_compilation();
            let mut rounds = 0;
            while root.simp_all(&mut compilation) {
                rounds += 1;
                assert!(rounds < 100);
            }
            root.finalize_simp();
            let _ = AtomTreeCompiler::new(root).compile(&mut compilation);
            compilation
                .diagnostics()
                .iter()
                .any(|d| d.diagnostic_type == DiagnosticType::Warning)
        };
        assert_eq!(run(true), run(false));
    }
}

#[test]
fn scenario_or_true_with_false_seed_is_satisfiable() {
    // Restricting Or(true, X) to true with seed X = false compiles to a
    // trivially satisfiable graph with no unsatisfiability diagnostic.
    let mut root = AtomRoot::default();
    let x = root.define_new_var(AtomTree::SeedLabel(Label::False));
    root.define_restriction(
        or2(AtomTree::AtomType { atom: AtomType::True }, var(x)),
        AtomType::True,
    );
    let mut compilation = fresh_compilation();
    let mut rounds = 0;
    while root.simp_all(&mut compilation) {
        rounds += 1;
        assert!(rounds < 100);
    }
    root.finalize_simp();
    let nodes = AtomTreeCompiler::new(root).compile(&mut compilation);
    assert!(nodes.len() >= 3);
    assert_eq!(compilation.diagnostics().len(), 0);
}

#[test]
fn scenario_contradictory_seed_restrictions_warn_and_emit() {
    // Restricting a seed variable to both true and false raises the
    // unsatisfiability diagnostic and still emits a graph.
    let mut root = AtomRoot::default();
    let x = root.define_new_var(AtomTree::SeedLabel(Label::Neutral));
    root.define_restriction(var(x), AtomType::True);
    root.define_restriction(var(x), AtomType::False);
    let mut compilation = fresh_compilation();
    let mut rounds = 0;
    while root.simp_all(&mut compilation) {
        rounds += 1;
        assert!(rounds < 100);
    }
    root.finalize_simp();
    let nodes = AtomTreeCompiler::new(root).compile(&mut compilation);
    assert!(nodes.len() >= 3);
    assert!(compilation
        .diagnostics()
        .iter()
        .any(|d| d.diagnostic_type == DiagnosticType::Warning));
}

#[test]
fn scenario_double_negated_constant_forced_false_reports_contradiction() {
    // Not(Not(true)) forced to false: the double negation simplifies away,
    // leaving the constant true forced to false, a trivial contradiction.
    let mut root = AtomRoot::default();
    root.define_restriction(
        AtomTree::Not(Box::new(AtomTree::Not(Box::new(AtomTree::AtomType {
            atom: AtomType::True,
        })))),
        AtomType::False,
    );
    let mut compilation = fresh_compilation();
    let mut rounds = 0;
    while root.simp_all(&mut compilation) {
        rounds += 1;
        assert!(rounds < 100);
    }
    assert!(compilation
        .diagnostics()
        .iter()
        .any(|d| d.diagnostic_type == DiagnosticType::Warning));
    assert_eq!(root.value_actions.len(), 0);
}
