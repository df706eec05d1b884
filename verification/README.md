# whelk

The term machinery of the Welkin structural editor, written in Verus: the
behaviour of each function is stated as a contract and proved.

- `term`, `literal`: analysis terms and their annotation-free model; compressed
  literals (words, sizes, characters, strings) and the terms they stand for.
- `annotated`: the model with each annotation kept in its place, with
  shifting and substitution on it; normalization is stated on it too.
- `shift`, `substitute`, `normalize`, `complete`, `stratified`: de Bruijn
  shifting and substitution, full and weak-head normalization against a
  definition table, completeness and stratification checks.
- `zipper`: editor terms, paths and cursors; moving up and down, the names in
  scope at a position, one-step expansion of literals.
- `resolve`: the focused term as an analysis term, references turned into
  indices of the binders in scope.
- `edit`, `ui_section`, `dynamic`: the edits the editor queues on nodes and
  what they do to a cursor; extension-node colours and storage frames.
- `controls`: the controls of extension nodes (variables, prompts, size and
  string literals, data types): what they stand for, how they are stored, and
  which control the typed text turns them into.
- `bindings`: the Welkin data types (booleans, words, vectors, characters,
  strings, syntax) and their conversions to and from Rust values.
- `clipboard`: the text form of terms on the clipboard (base91 behind a
  `welkin:` prefix).
- `evaluator`: evaluation by substitution.

`app/` holds what needs outside derives or drives the library from the
editor's views: error types with messages and serde forms, the binary form of
literals, and the walk that applies queued edits over a whole term.
