# iced_focus_derive

The logic of the `Focus` derive for `iced_focus`, with machine-checked contracts and proofs.

- `src/model.rs`: a plain model of the item the derive is applied to (fields, attributes).
- `src/attribute.rs`: reading `#[focus(enable)]` and `#[focus(enable = "PATH")]`, and the errors the derive reports.
- `src/field.rs`: the annotated fields, in order, and the statements that add them to the focus chain.
- `src/codegen.rs`: the source text of the `iced_focus::Focus` implementation for structs and enums.
- `src/decimal.rs`: decimal rendering of indices.
- `src/tokens.rs`: the one call into syn, which reads a path string as tokens; its contract relates each outcome to the source and says that a source with unbalanced delimiters does not lex, and the callers state what holds whatever it returns.
- `src/laws.rs`: properties that hold for every input.
- `app/lib.rs`: the procedural-macro glue: syn parsing into the model, and the generated text back into tokens.
