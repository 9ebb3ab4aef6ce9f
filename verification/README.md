# x07c

The core of the x07 compiler front end as a Verus library. Every executable
function in `src/` verifies against its `requires`/`ensures` contract; how
much a contract pins down differs by module, as listed below.

- `types`, `unify`, `infer`, `tapp`, `contract_rules`, `diagnostics`, `ast`:
  type names, unification with occurs check (result, error and substitution
  stated for each case, applications unified argument by argument up to the
  first failure, with the most-general-unifier property), constraint inference,
  solving (stated as unification of the sorted constraints in order, stopping
  at the first failure), and explicit type-application rewrites.
- `typecheck`: the x07AST typechecker. Its contract states the report's order
  and shape, the rewrite diagnostics, an empty report for a file with no
  definitions whose solve expression is a `bytes.lit` call, and the
  unknown-callee diagnostic for a solve expression or definition body that
  calls an unknown function of the module at its root. The other diagnostics
  (argument mismatches, contract clause types, branch types) are computed by
  verified code, but the contract does not say which of them a file gets.
- `validate`, `suggest`, `text`: symbol and name validation, near-match
  suggestions (ranking laws stated and proved), string helpers.
- `wasm_emit`: the solve-pure WASM back end: features, memory layout, and the
  module plan (functions, locals, instructions, data) that
  `emit_solve_pure_wasm_v1` builds. A program whose definitions return an
  integer literal or a parameter, and whose solve expression is a `bytes.lit`
  form, is promised a plan with those bodies fixed; for other expressions the
  contract fixes the code of operands, arithmetic heads and `bytes.lit` only.
- `stream_pipe`, `pipe_brands`, `stream_plugins`, `pipe_stages`, `pipe_meta`:
  parsing `std.stream.pipe_v1` descriptors, item brand checking, the stream
  plugin registry, binding stages to plugins, and module brand metadata.
- `pipe_canon`: the canonical JSON form of a pipe descriptor and its hash.
- `pipe_docs`, `pipe_prelude`, `pipe_prologue`, `pipe_sink_init`, `pipe_emit`,
  `pipe_fs_sink`, `pipe_net_sink`, `pipe_return`: x07AST fragments of a pipe
  helper: result documents, stage and sink state, budgets, sink writes and the
  final return. The helper body that chains these fragments, the plugin-call,
  parallel-map and TCP-source loops, and the rewriting of pipe expressions in
  a module are not part of this library.

`app/` holds the host side that the library does not verify: encoding a
module plan to WASM bytes with `wasm-encoder`, reading plugin files and module
metadata with `serde_json`, and rendering diagnostics as JSON.
