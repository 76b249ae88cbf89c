# JakeScript

A small JavaScript lexer, parser and interpreter, whose lexer, parser and execution
machinery are proved correct against their specifications with Verus.

## Layout

- `src/` — the verified library:
  - `token/` and `lexer/`: lexical elements, the lexical grammar as spec functions
    (`lexer/spec.rs`), and a lexer proved to follow it element by element;
  - `ast/` and `parser/`: the syntax tree, a grammar relating trees to token ranges
    (`parser/grammar.rs`) that fixes how operators group by precedence (operators of one
    precedence grouping to the left), and a recursive-descent parser, with hoisting of
    declarations, proved to build only trees that the grammar relates to the tokens it read,
    to name in each error the token it stopped at, and to succeed on every input that the
    grammar relates to a tree: each expression, statement, block and script that the tokens
    spell is read whole, up to where it ends, wherever what follows lets it end there (see
    the contracts of `parse_expression`, `parse_statement`, `parse_block` and `execute`);
  - `interpreter/`: the machine that evaluation runs on — an object heap, a call stack of
    frames and nested scopes, and the control state for `break`, `continue`, `return`,
    exceptions and `finally`;
  - `repl.rs`: when buffered input at the interactive prompt is ready to run;
  - `enumerate.rs`, `iter.rs`, `str.rs`: small utilities.
- `tests/` — tests of the library.
- `app/` — the command-line program: reading files, printing, the interactive prompt,
  writing the tree as JSON or YAML, and the evaluator itself, which computes with
  double-precision numbers and so runs on the verified machine without being verified.

## Usage

```shell
jakescript-cli [--eval | --parse [--json | --yaml] | --lex] <source-path>
jakescript-cli --repl
```
