//! Analysis of a module's syntax tree into Candid type declarations and
//! bounded stable-map declarations, with every diagnostic collected.
pub mod ast;
pub mod candid;
pub mod errors;
pub mod resolver;
pub mod source_map;
pub mod tuple;
pub mod type_alias;
pub mod record;
pub mod stable_storage;
pub mod program;
pub mod function_def;
