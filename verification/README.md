# mtnc

The front end of the Mountain language: a recursive-descent parser with operator precedence,
and a type checker. Both are written in Verus, and both are proved to do what a mathematical
model says, for every input.

## Layout

- `src/token.rs`, `src/ast.rs`: what the parser reads and what it builds.
- `src/tree.rs`, `src/ast_tree.rs`: the syntax tree as a mathematical value, and the value that
  each node stands for.
- `src/text.rs`: joining, quoting and reading text and numbers.
- `src/grammar/`: the grammar, as functions from a place in the token stream to the tree or
  the failure there; `laws.rs` and `joined.rs` hold what is proved of it (precedence, grouping,
  struct literals and conditions, going on after a bad item, one program behind another), and
  `windows/` that a rule reads only what it goes past.
- `src/parser/`: the parser. Each of its functions gives what the grammar's rule gives: the
  same tree, the same error, and the same place in the stream.
- `src/types/rules.rs`, `checks.rs`, `model.rs`: how types are read, what is declared, and what
  each piece of a body is checked for.
- `src/types/checker.rs`, `registry.rs`, `resolve.rs`, `bodies.rs`, `env.rs`: the checker. The
  types it gives and the errors it reports, in order, are those of the rules.
- `src/types/laws.rs`, `growth.rs`, `order.rs`, `params.rs`, `permutation.rs`: what is proved of
  the rules (no implicit coercion, literal defaults, matrix dimensions, trait bounds, type
  parameters, the order of declarations and of whole programs).

## Use

```rust
let (program, errors) = mtnc::parser::parse_program(tokens);
let mut checker = mtnc::types::TypeChecker::new();
checker.check_program(&program);
```

The token stream has to hold an `Eof` token; a lexer puts one at its end.

## What is taken on trust

One call into the standard library: what `{:?}` prints for a string, which stands in messages
about unexpected tokens. It is called in `src/text.rs`.
