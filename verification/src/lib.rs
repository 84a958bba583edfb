//! A scanner for Soroban contracts: from source texts to a tree of nodes, and from there to a
//! report of what detectors find.
pub mod ast;
pub mod build_expr;
pub mod build_item;
pub mod build_stmt;
pub mod content_laws;
pub mod context;
pub mod count;
pub mod entry_laws;
pub mod file_provider;
pub mod id_laws;
pub mod kinds;
pub mod laws;
mod lists;
pub mod numbering_laws;
pub mod order;
pub mod outside;
pub mod parse;
pub mod path_laws;
pub mod paths;
pub mod reader;
pub mod reading_laws;
pub mod record;
pub mod report;
pub mod scan;
pub mod scan_laws;
pub mod scope_laws;
pub mod sequences;
pub mod shape;
pub mod storage;
pub mod storage_laws;
pub mod support_laws;
pub mod symbol_table;
pub mod syntax;
pub mod text;
pub mod text_laws;
pub mod tree;
pub mod tree_laws;
pub mod weigh;
