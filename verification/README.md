# aadl2rust

A verified generator that turns an AADL model (its syntax tree, `ast`) into a
Rust syntax tree (`intermediate_ast`) for a multi-threaded program, together
with the `build.rs` that compiles the C code the model binds to.

Every conversion step is written in Verus: its contract states exactly which
items, statements and fields it produces, and how it changes the
converter's tables.

## Layout

- `src/ast/` – the AADL syntax tree.
- `src/intermediate_ast.rs` – the Rust syntax tree that is generated, with a
  specification view of each type.
- `src/text.rs` – string helpers (joining, trimming, splitting, decimal
  text, string order).
- `src/aadlAst2rustCode/` – the Behavior Annex state-machine generator, the
  `build.rs` generator, the list helper that keeps repeated entries, and the
  conversions of devices, systems and data implementations.
- `src/aadl_ast2rust_code/` – the converter's state (`converter.rs`), the
  model-wide collectors (`collector.rs`), the conversion of a whole package
  (`package.rs`), and the per-component conversions under `types/` and
  `implementations/`.
- `tests/` – tests on concrete models.
- `app/` – the unverified edge: file output, hash maps turned into the
  library's lists, real numbers as text, and a package driver.

## Entry point

`AadlConverter::convert_package` collects the component types and the
broadcast connections of a package, then converts each declaration in
order. It returns `None` at the first declaration that cannot be converted
(a port whose direction contradicts a broadcast, an integer that cannot be
negated, an array base type that is not known, or a sent value whose type
has no default).
