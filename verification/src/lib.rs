pub mod span;
pub mod ast;
pub mod ty;
pub mod error;
pub mod typed_ast;
pub mod env;
pub mod fold_model;
pub mod fold_spec;
pub mod fold;
pub mod dbz;
pub mod cfg;
pub mod opt_notes;
pub mod op_hierarchy;
pub mod return_paths;
pub mod exhaustive;
pub mod constraints;
pub mod dce;
pub mod prop;
pub mod constrain;
pub mod names;
pub mod escape;
pub mod purity;
pub mod liveness;
pub mod resolve;
pub mod unused;
pub mod narrowing;
pub mod prelude_cache;
pub mod http;
pub mod debug_text;
pub mod conformance;
pub mod type_compat;
pub mod signatures;
pub mod solve;
pub mod collect;
pub mod imports;
pub mod infer_bounds;
