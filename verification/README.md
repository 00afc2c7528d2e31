# zen_parser

The shared part of a recursive-descent parser for expressions, verified with Verus. A parser walks
over lexed tokens and builds syntax-tree nodes in a `bumpalo` arena. There is one method per
construct; a method that needs a whole expression is handed the parser of expressions as a
function.

- `token`, `ast`, `error`, `builtin`: the data that goes in and comes out.
- `cursor`: the state of a parser in mathematical terms.
- `grammar`: what each construct is, as a relation between the state before, the result and the
  state after.
- `parser`, `atoms`, `access`, `calls`, `collections`, `forms`: the parser itself, each method
  proved to do what `grammar` says.
- `progress`, `steps`, `determined`, `laws`: what follows for all inputs. Parsing never goes back,
  it is done if and only if it has tried to pass the last token, its result is determined, lists
  keep their order.
- `arena`, `decimal`: the calls into `bumpalo` and `rust_decimal`, with what is taken on trust.
