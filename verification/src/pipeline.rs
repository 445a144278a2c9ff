//! The compilation driver: lexes and parses the given sources, translates
//! them to the boolean intermediate representation, runs the rewriting
//! passes to a fixed point, and encodes the result as a graph. All file
//! reading and writing stays with the caller, which hands in source texts
//! and receives the export tables.

use vstd::prelude::*;

use crate::atom_tree_to_graph::{conn_contains, graph_closed, AtomTreeCompiler, Label, Node};
use crate::atom_tree_translate::AtomTreeTranslator;
use crate::block_parser::TokenBlock;
use crate::compilation::Compilation;
use crate::diagnostic::{Diagnostic, DiagnosticPipelineLocation, DiagnosticType};
use crate::export::export_as_csv;
use crate::file_reader::StringFileReader;
use crate::lexer::tokenize;
use crate::lib_embed::get_std_lib_file;
use crate::parser::Parser;
use crate::settings::Settings;
use crate::syntax::ImportSyntax;

verus! {

/// The cap on rewriting rounds; reaching it draws a diagnostic instead of
/// looping on.
pub const MAX_SIMP_ROUNDS: usize = 10000;

/// The path a `::`-separated import names under the base path, looked up
/// among the sources the caller provided; a miss is a diagnostic.
pub fn to_path(base_path: &str, import_syntax: &ImportSyntax, sources: &Vec<(String, String)>) -> (r: Result<String, Diagnostic>) {
    let mut path = base_path.to_owned();
    let mut i: usize = 0;
    while i < import_syntax.path.len()
        invariant
            0 <= i <= import_syntax.path@.len(),
        decreases import_syntax.path@.len() - i,
    {
        path.append("/");
        path.append(import_syntax.path[i].value.as_str());
        i = i + 1;
    }
    path.append(".coala");
    let mut k: usize = 0;
    while k < sources.len()
        invariant
            0 <= k <= sources@.len(),
        decreases sources@.len() - k,
    {
        if sources[k].0 == path {
            return Ok(path);
        }
        k = k + 1;
    }
    Err(
        Diagnostic::new(
            DiagnosticType::Error,
            "Couldn't find part of the import path.".to_owned(),
            None,
            DiagnosticPipelineLocation::IO,
        ),
    )
}

/// The source text registered under a path, if any.
#[verifier::loop_isolation(false)]
fn find_source(sources: &Vec<(String, String)>, path: &String) -> (r: Option<String>)
    ensures
        r is Some <==> exists|k: int|
            0 <= k < sources@.len() && (#[trigger] sources@[k]).0@ == path@,
{
    let mut k: usize = 0;
    while k < sources.len()
        invariant
            0 <= k <= sources@.len(),
            forall|k2: int| 0 <= k2 < k ==> (#[trigger] sources@[k2]).0@ != path@,
        decreases sources@.len() - k,
    {
        if sources[k].0 == *path {
            return Some(sources[k].1.clone());
        }
        k = k + 1;
    }
    None
}

/// Lexes, groups, and parses one source text into the parser's project.
pub fn parse_file(
    text: &String,
    display_path: &String,
    parser: &mut Parser,
    compilation: &mut Compilation,
)
{
    let mut file_reader = StringFileReader::new();
    file_reader.reset_to_string(text.as_str());
    let tokens = match tokenize(&mut file_reader, display_path.as_str(), compilation) {
        Some(t) => t,
        None => {
            return ;
        },
    };
    let mut blocks = match TokenBlock::from_token_stream(tokens, compilation) {
        Ok(b) => b,
        Err(_) => {
            return ;
        },
    };
    parser.parse_file(&mut blocks, compilation, usize::MAX);
}

/// Whether the import path starts with the standard-library marker.
fn is_std_import(import_syntax: &ImportSyntax) -> (r: bool) {
    if import_syntax.path.len() == 0 {
        return false;
    }
    import_syntax.path[0].value == "std".to_owned()
}

/// The standard-library file path an import names, under the marker.
fn std_import_path(import_syntax: &ImportSyntax) -> (r: String) {
    let mut path = String::new();
    let mut i: usize = 1;
    while i < import_syntax.path.len()
        invariant
            1 <= i <= import_syntax.path@.len() || import_syntax.path@.len() == 0,
        decreases import_syntax.path@.len() - i,
    {
        if path.as_str().is_empty() {
            path.append(import_syntax.path[i].value.as_str());
        } else {
            path.append("/");
            path.append(import_syntax.path[i].value.as_str());
        }
        i = i + 1;
    }
    path.append(".coala");
    path
}

/// Runs the whole compilation over the given sources: the main file first,
/// then every import as it is discovered (standard-library imports are
/// served from the bundle or, failing that, from the caller's sources);
/// then translation, the rewriting fixpoint, the optional heavy tier,
/// finalization, graph encoding, and export. Returns the node arena
/// together with the edge and label tables; diagnostics accumulate in
/// `compilation`. A run is refused, with an error recorded, when no base
/// path is set, the main file is missing, or parsing left errors that the
/// settings do not ignore.
#[verifier::loop_isolation(false)]
#[verifier::rlimit(60)]
pub fn compile(
    settings: &Settings,
    sources: &Vec<(String, String)>,
    compilation: &mut Compilation,
) -> (r: Option<(Vec<Node>, String, String)>)
    ensures
        r is Some ==> settings.base_path is Some,
        r is Some ==> {
            let nodes = r->Some_0.0;
            &&& nodes@.len() >= 3
            &&& graph_closed(nodes@)
            &&& nodes@[0].label == Label::True
            &&& nodes@[1].label == Label::False
            &&& nodes@[2].label == Label::Neutral
            &&& forall|i: int|
                0 <= i < nodes@.len() ==> {
                    &&& (!(#[trigger] nodes@[i]).label_whitelist.contains(Label::True)
                        ==> conn_contains(nodes@[i], 0))
                    &&& (!nodes@[i].label_whitelist.contains(Label::False) ==> conn_contains(
                        nodes@[i],
                        1,
                    ))
                    &&& (!nodes@[i].label_whitelist.contains(Label::Neutral) ==> conn_contains(
                        nodes@[i],
                        2,
                    ))
                }
            &&& ("Id,Label,Color\n"@).is_prefix_of(r->Some_0.2@)
        },
        r is None ==> exists|i: int|
            0 <= i < final(compilation).diags().len() && (#[trigger] final(compilation).diags()[i]).diagnostic_type
                == DiagnosticType::Error,
{
    let base_path: String = match &settings.base_path {
        Some(s) => s.clone(),
        None => {
            compilation.add_error("No project file was specified.", None);
            proof {
                assert(compilation.diags().last().diagnostic_type == DiagnosticType::Error);
            }
            return None;
        },
    };
    let mut parser = Parser::new();
    let mut main_file = base_path.clone();
    main_file.append("/main.coala");
    match find_source(sources, &main_file) {
        Some(text) => {
            parse_file(&text, &main_file, &mut parser, compilation);
        },
        None => {
            compilation.add_error(
                "No main file found. Please make sure your base directory contains the main source file.",
                None,
            );
            proof {
                assert(compilation.diags().last().diagnostic_type == DiagnosticType::Error);
            }
            return None;
        },
    }
    let mut import_rounds: usize = 0;
    loop
        invariant
            import_rounds <= MAX_SIMP_ROUNDS,
        decreases MAX_SIMP_ROUNDS - import_rounds,
    {
        if import_rounds == MAX_SIMP_ROUNDS {
            compilation.add_warning("Too many imports; not all were processed.", None);
            break ;
        }
        import_rounds = import_rounds + 1;
        let mut next_idx: Option<usize> = None;
        let mut k: usize = 0;
        while k < parser.imports.len()
            invariant
                0 <= k <= parser.imports@.len(),
                next_idx is Some ==> next_idx->Some_0 < parser.imports@.len() && !parser.imports@[
                    next_idx->Some_0 as int
                ].1,
            decreases parser.imports@.len() - k,
        {
            if next_idx.is_none() && !parser.imports[k].1 {
                next_idx = Some(k);
            }
            k = k + 1;
        }
        let idx = match next_idx {
            Some(i) => i,
            None => {
                break ;
            },
        };
        let import_syntax = parser.imports[idx].0.clone();
        mark_done(&mut parser.imports, idx);
        if is_std_import(&import_syntax) {
            let path = std_import_path(&import_syntax);
            let mut display = "std/".to_owned();
            display.append(path.as_str());
            match get_std_lib_file(path.as_str()) {
                Some(file) => {
                    parse_file(&file, &display, &mut parser, compilation);
                },
                None => {
                    let mut local = base_path.clone();
                    local.append("/");
                    local.append(display.as_str());
                    match find_source(sources, &display) {
                        Some(file) => {
                            parse_file(&file, &display, &mut parser, compilation);
                        },
                        None => {
                            match find_source(sources, &local) {
                                Some(file) => {
                                    parse_file(&file, &local, &mut parser, compilation);
                                },
                                None => {
                                    compilation.add_error(
                                        "Couldn't find the standard library file.",
                                        None,
                                    );
                                },
                            }
                        },
                    }
                },
            }
        } else {
            match to_path(base_path.as_str(), &import_syntax, sources) {
                Ok(path) => {
                    match find_source(sources, &path) {
                        Some(text) => {
                            parse_file(&text, &path, &mut parser, compilation);
                        },
                        None => {
                            compilation.add_error(
                                "Couldn't find part of the import path.",
                                None,
                            );
                        },
                    }
                },
                Err(diagnostic) => {
                    compilation.add_diagnostic(diagnostic);
                },
            }
        }
    }
    let project = parser.project;
    if !(settings.ignore_errors || compilation.is_error_free()) {
        return None;
    }
    let translator = AtomTreeTranslator::new(project.collections, project.composite_types);
    let mut atom_tree = translator.convert(
        project.problems,
        project.solutions,
        compilation,
        usize::MAX,
    );
    if settings.optimize {
        while atom_tree.remove_links()
            invariant
                atom_tree.wf(),
            decreases atom_tree.definitions@.len(),
        {
        }
        let mut rounds: usize = 0;
        while atom_tree.simp_all(compilation)
            invariant
                atom_tree.wf(),
                rounds <= MAX_SIMP_ROUNDS,
            decreases MAX_SIMP_ROUNDS - rounds,
        {
            while atom_tree.remove_links()
                invariant
                    atom_tree.wf(),
                decreases atom_tree.definitions@.len(),
            {
            }
            if rounds == MAX_SIMP_ROUNDS {
                compilation.add_warning(
                    "The rewriting pass did not reach a fixed point within the round cap.",
                    None,
                );
                break ;
            }
            rounds = rounds + 1;
        }
        if settings.heavy_optimization {
            atom_tree.inline_all(compilation);
            let mut rounds2: usize = 0;
            while atom_tree.simp_all(compilation)
                invariant
                    atom_tree.wf(),
                    rounds2 <= MAX_SIMP_ROUNDS,
                decreases MAX_SIMP_ROUNDS - rounds2,
            {
                if rounds2 == MAX_SIMP_ROUNDS {
                    compilation.add_warning(
                        "The rewriting pass did not reach a fixed point within the round cap.",
                        None,
                    );
                    break ;
                }
                rounds2 = rounds2 + 1;
            }
        }
        atom_tree.outline_common_expressions();
        let mut rounds3: usize = 0;
        while atom_tree.simp_all(compilation)
            invariant
                atom_tree.wf(),
                rounds3 <= MAX_SIMP_ROUNDS,
            decreases MAX_SIMP_ROUNDS - rounds3,
        {
            while atom_tree.remove_links()
                invariant
                    atom_tree.wf(),
                decreases atom_tree.definitions@.len(),
            {
            }
            if rounds3 == MAX_SIMP_ROUNDS {
                compilation.add_warning(
                    "The rewriting pass did not reach a fixed point within the round cap.",
                    None,
                );
                break ;
            }
            rounds3 = rounds3 + 1;
        }
    }
    atom_tree.finalize_simp();
    let atom_tree_compiler = AtomTreeCompiler::new(atom_tree);
    let nodes = atom_tree_compiler.compile(compilation);
    let mut buf_edges = String::new();
    let mut buf_labels = String::new();
    proof {
        assert(buf_labels@.len() == 0);
    }
    export_as_csv(&nodes, &mut buf_edges, &mut buf_labels);
    proof {
        assert(("Id,Label,Color\n"@).is_prefix_of(buf_labels@)) by {
            assert(Seq::<char>::empty() + "Id,Label,Color\n"@ =~= "Id,Label,Color\n"@);
        }
    }
    Some((nodes, buf_edges, buf_labels))
}

/// Marks one import as handled.
fn mark_done(imports: &mut Vec<(ImportSyntax, bool)>, idx: usize)
    requires
        idx < old(imports)@.len(),
    ensures
        final(imports)@.len() == old(imports)@.len(),
        forall|k: int|
            0 <= k < old(imports)@.len() && k != idx ==> final(imports)@[k] == old(imports)@[k],
        final(imports)@[idx as int].0 == old(imports)@[idx as int].0,
        final(imports)@[idx as int].1,
{
    let entry = imports.remove(idx);
    imports.insert(idx, (entry.0, true));
    proof {
        assert forall|k: int|
            0 <= k < old(imports)@.len() && k != idx implies imports@[k] == old(imports)@[k] by {}
    }
}

} // verus!
