# declarative

A DSL for declarative view code: a view describes objects, their
properties and their children, and its expansion writes the Rust statements
that create them, build them in order (children before their parents) and
set them up.

- `src/` is the library, verified with Verus. `view` expands the roots of a
  view (`block`), and places views in the code of an item (`view`);
  `expand` and `property` expand items and their content; `spec` states
  what every expansion step writes; `visit` fills the `_` and placeholder
  macros of expressions; `read` reads a view from its tokens, with the
  decisions of `grammar`, and asks `fragment` where each Rust expression,
  type, pattern or attribute in it ends (a question answered by `syn`);
  `syntax` states, over the tokens, which views are well formed, where
  each construct ends and the first error met, which the readers follow;
  `naming` makes the names of unnamed objects; `compose` holds the
  slot decisions of the widget integration. Tokens are modelled in `token`,
  with spans as indices into a table kept by the caller.
- `app/` holds the procedural macros: converting tokens to and from the
  library's model, splitting the expressions that were read into pieces
  with `syn`, and writing the result.
- `tests/` runs the library on concrete views.
