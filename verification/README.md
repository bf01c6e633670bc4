# kiln

The semantic analyses of the kiln language, verified with Verus.

`src/` is the library. Each module states what it computes in `requires`/`ensures`
over mathematical models (`Seq`, `Set`, `Map`, and a model of each syntax type), and
Verus proves every function against its contract.

- `span`, `ast`, `ty`, `typed_ast`, `error` — source spans, the declaration and
  expression syntax, semantic types with their models, the typed tree, and the
  diagnostics with their codes and messages.
- `env` — the scoped symbol table: definition, lookup, shadowing, projection pins and
  generic-parameter bounds.
- `solve` — the type registry of types, conformances and interface hierarchies; whether
  a type satisfies an interface bound; solving collected constraints into errors, with
  weaker-bound suggestions.
- `collect` — the first pass over a source file: binding top-level names, registering
  nominal types, reporting duplicates.
- `debug_text` — the single-line `Debug` form of type expressions and hook names used
  in conformance messages.
- `resolve`, `signatures`, `type_compat`, `narrowing` — resolving written types,
  bounds on generic parameters, assignability, overload choice, substitution, and
  narrowing by `implements`.
- `conformance`, `exhaustive`, `return_paths`, `constraints`, `constrain`,
  `op_hierarchy`, `unused`, `dbz` — interface conformance, match exhaustiveness,
  return paths, constraint collection, unused-variable warnings and division by
  zero.
- `fold`, `prop`, `dce`, `purity`, `escape`, `cfg`, `liveness` — constant folding,
  constant propagation, dead-binding elimination, impurity, escape analysis, control
  flow graphs and liveness.
- `http`, `prelude_cache` — the decisions behind the HTTP runtime's responses and the
  prelude cache.

Laws that relate several calls (such as `closing_scope_restores_lookups`, over the
contracts of `push_scope`, `define`, `pin_projection`, `register_param_iface` and
`pop_scope`) are public proof functions next to the code they speak of.

Not in the library: type inference and checking of function bodies, inference of
generic bounds from bodies, the pretty-printer of optimized code, and the driver that
runs all passes over a file and its imports. They are written against the parser's
syntax tree and the standard-library sources, which this crate does not include.

`app/` holds what touches the outside world: the C-ABI HTTP runtime on `reqwest`,
the cache file on disk with `bincode`, and an error type for callers. `tests/` runs
the library on concrete inputs.
