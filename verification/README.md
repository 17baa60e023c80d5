# armature-graphql-macros

The `#[resolver]` attribute lets one inherent `impl` block mix `#[query]`,
`#[mutation]` and `#[subscription]` methods; it splits them into one wrapper
type per kind in use (`FooQuery`, `FooMutation`, `FooSubscription`), each
driven by `async-graphql`'s own `#[Object]` / `#[Subscription]` macro, and
leaves untagged items on the original type.

Layout:

- `src/` — the verified library (Verus). `parse` parses the block's tokens with `syn` and reads the model from the parsed tree; `outside` declares the types of `syn` and `proc-macro2` that the library holds; `expansion` states the sections written in its place and holds the whole pipeline; `syntax` models the parts of an
  `impl` block that the attribute reads; `kind` holds the three kinds and
  their names; `resolver` decides markers, attribute stripping, the type
  name, the refusals and the expansion plan; `positions` and `text` are
  general helpers; `properties` proves what holds of every plan and expansion.
- `app/` — the procedural-macro edge: passes the tokens to the library,
  places refusals on the offending tokens, and writes out the sections,
  copying the block's own tokens from the tree the library parsed.
- `tests/` — tests of the library, on tokens and on model values.
