# querydown

Querydown is a small query language for relational databases ("markdown for SQL"): a query names a
base table, filters it with terse conditions, sorts it and picks result columns, and is compiled
to SQL. This crate parses Querydown into a syntax tree and holds some of the parts of the compiler
that work on plain values (condition sets, joins, aliases, ordering), written and checked with
Verus.

What is proved of the parsers: for every element of the grammar, exactly when it is found at a
position, where it ends, and the tree it parses to, as a plain model (`src/tree.rs`). The
contracts of the expression parsers, of annotations, column specs, filtering, sorting and display
sections state that model. Those of the definitions section and of the whole query state only
when the text is accepted and where it ends; the tests check their trees on examples. The lexical
tokens (numbers, strings, dates, durations, operators, flags) are specified exactly, values
included.

## Layout

- `src/lex.rs`, `src/tokens.rs`: whitespace and comments, identifiers, numbers, quoted strings,
  dates, durations, operators and column control flags, each with an exact specification.
- `src/grammar.rs`: expressions, parsed by recursive descent over characters. Spec functions
  named `*_end` say, for each grammar element, exactly when it is found at a position and where it
  ends; each parser's contract is stated over them.
- `src/sections.rs`, `src/entry.rs`: annotations, result columns, sorting, definitions and whole
  queries; `parse`, `parse_definitions`, `parse_conditions`, `parse_sorting`, `parse_display`.
- `src/nesting.rs`: the `.( )` nesting groups and window definitions.
- `src/ast.rs`: the syntax tree; `src/copy.rs` its `Clone` impls, each proved to give a copy
  (the `same_*` relations).
- `src/sql_tree.rs`, `src/render.rs`: the SQL statement being built, its condition sets (merged
  and simplified) and their rendering.
- `src/join_tree.rs`: the tree of joins that chains of links are integrated into;
  `src/aliases.rs`: unique table and CTE aliases.
- `src/sorting.rs`, `src/order.rs`: placing `ORDER BY` entries by their ordinals.
- `src/syntax.rs`, `src/conditions.rs`, `src/functions.rs`: compiler expressions, the expansion of
  comparisons between sets, compositions around aggregates and their SQL.
- `app/lib.rs`: JSON serialization of column annotations (serde).

## What is not here

The compiler's passes that turn a parsed query into SQL against a database schema are not in this
crate: the schema model and the search for chains of links between tables, the building of joins
and of grouped common table expressions for links to many rows, the clarification of paths, the
conversion of comparisons to SQL conditions, and the SQL dialects. Only the parts of the compiler
that work on plain values are here. So the goals that rest on those passes, that a result never
has more rows than the base table and that no arbitrary join is made, are not stated or proved
here.
