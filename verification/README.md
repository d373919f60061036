# zsh_module_macros

The decisions behind the `#[state]`, `#[builtin(..)]`, `#[derive(Activate)]`
and `#[derive(Deactivate)]` macros of a zsh-module framework, verified with
Verus.

- `src/syntax.rs` — a plain model of the syntax the macros read (literals,
  expressions, `key = value` pairs, function signatures) and of their
  diagnostics.
- `src/utils/args.rs` — attribute-argument handling: single-use slots,
  C-string and integer literals, `min` / `max`, key dispatch, and the state
  argument of a function.
- `src/utils/emit.rs` — the name of each macro's companion module.
- `src/builtin.rs`, `src/state.rs` — what `#[builtin(..)]` and `#[state]`
  decide, with the laws of `#[builtin(..)]`'s arguments.
- `src/text.rs` — the `std` text functions the library calls.
- `app/` — the token-stream entry points: `syn` in, `quote` out.
