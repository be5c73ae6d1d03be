//! A small scripting language over an entity/component/resource store:
//! lexer, lossless parser, lowering, name, type and effect resolution,
//! and a tree-walking evaluator.

pub mod arena;
pub mod ast;
pub mod borrow_resolution;
pub mod cache;
pub mod compile;
pub mod cst;
pub mod effects;
pub mod grammar;
pub mod hir;
pub mod lexer;
pub mod lower;
pub mod lowering;
pub mod machine;
pub mod module_index;
pub mod name_resolution;
pub mod name_scope;
pub mod names;
pub mod pretty_print;
pub mod report;
pub mod resolved_effect;
pub mod resolved_type;
pub mod stork_std;
pub mod stork_value;
pub mod syntax;
pub mod token;
pub mod tree_walker;
pub mod type_resolution;
pub mod types;
pub mod vm_module_index;
