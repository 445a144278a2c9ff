//! A compiler core for a small boolean-logic description language: a
//! tree-shaped boolean intermediate representation with a term-rewriting
//! engine, and a backend that encodes the simplified representation as an
//! undirected graph whose valid 3-colorings correspond to satisfying
//! assignments of the original program.

pub mod atom_tree;
pub mod atom_tree_translate;
pub mod block_parser;
pub mod code_location;
pub mod compilation;
pub mod diagnostic;
pub mod file_reader;
pub mod lexer;
pub mod parser;
pub mod export;
pub mod lib_embed;
pub mod pipeline;
pub mod settings;
pub mod syntax;
pub mod type_stream;
pub mod atom_tree_to_graph;
pub mod token;
