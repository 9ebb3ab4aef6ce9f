//! Verified core of the x07 compiler front end: type names, symbol
//! validation, near-match suggestions, type unification, the x07AST
//! typechecker, the solve-pure WASM back end's module planning, and the
//! `std.stream.pipe_v1` descriptors: their parsing, brand checking, plugin
//! binding, canonical form and the pieces of the helpers they compile to.

pub mod text;
pub mod types;
pub mod wasm_emit;
pub mod unify;
pub mod suggest;
pub mod validate;
pub mod ast;
pub mod diagnostics;
pub mod typecheck;
pub mod contract_rules;
pub mod infer;
pub mod tapp;
pub mod compile;
pub mod program;
pub mod stream_pipe;
pub mod pipe_brands;
pub mod stream_plugins;
pub mod pipe_canon;
pub mod pipe_stages;
pub mod pipe_meta;
pub mod pipe_docs;
pub mod pipe_prelude;
pub mod pipe_net_sink;
pub mod pipe_fs_sink;
pub mod pipe_return;
pub mod pipe_emit;
pub mod pipe_sink_init;
pub mod pipe_prologue;
