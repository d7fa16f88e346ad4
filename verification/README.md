# pyexpr

A parser for Python expressions, written in Verus and proved correct against
a grammar stated as spec functions.

- `src/ast.rs`: the syntax tree, and its mathematical model.
- `src/lexer.rs`: blanks, fixed tokens, names, integers and string literals.
- `src/grammar.rs`: the grammar, one spec function per nonterminal.
- `src/parser.rs`: the executable parser; each function is proved to return
  exactly what the spec function of the same name describes.
- `src/arglist.rs`: the split of call arguments into positional and keyword
  ones, and the errors of a misplaced argument.
- `src/expressions.rs`: `ExpressionParser`, the entry points on strings.
- `src/laws.rs`: properties of the grammar as a whole (how operators group,
  when an argument list is accepted).

Lambda expressions are parsed only without parameters (`lambda: body`):
the grammar of parameter lists is not part of this project.
