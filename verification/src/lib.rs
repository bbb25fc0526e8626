//! Building blocks of a Cairo compiler toolchain, each with a machine-checked
//! contract.
//!
//! The backend lowers a program of statements, each an invocation of a
//! library function or a return, to target code:
//! - `registry`: what each library function costs and does;
//! - `program`: the statements and functions of a program, and what makes a
//!   program well formed;
//! - `ap_change`: where the allocation pointer stands at each statement;
//! - `gas`: what each statement and each function costs, in two phases that
//!   are put together;
//! - `casm`: the target instructions, with jumps resolved and a bound on size;
//! - `serializer`: the code in machine words, with hints and entry points;
//! - `pipeline`: all of these in a row;
//! - `sierra_compile`: reading Sierra programs, and checking the code that
//!   the Cairo compiler crates assemble for them;
//! - `enforced_costs`: costs that are given as text.
//!
//! Around it stand what a language server and the compiler front end need:
//! - `paths`, `project`, `scarb`: project manifests and the crate roots of a
//!   Scarb workspace;
//! - `inline_macros`: the expansions of `assert!` and `format!`;
//! - `items`: trait and impl contexts;
//! - `unordered_hash_set`, `unordered_hash_map`: hash containers that cannot
//!   be walked, so that nothing depends on their order;
//! - `text`: a few helpers for strings.

pub mod ap_change;
pub mod casm;
pub mod enforced_costs;
pub mod gas;
pub mod inline_macros;
pub mod items;
pub mod paths;
pub mod pipeline;
pub mod program;
pub mod project;
pub mod registry;
pub mod scarb;
pub mod serializer;
pub mod sierra_compile;
pub mod text;
pub mod unordered_hash_map;
pub mod unordered_hash_set;
