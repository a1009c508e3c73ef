# jsonrpsee-ts

Builds an [rpckit](https://rpckit.dev) schema for a `jsonrpsee` RPC trait and
renders it as TypeScript. The library under `src/` is verified with Verus:

- `schema`: `Schema`, `Method`, `Param`, `ParamKind`; each has an abstract
  value (`SchemaView`, `MethodView`, `ParamView`) and every rendering method
  is proved to produce the text that `inline_text`, `method_text`,
  `params_text`, ... define. Laws: merging is associative with the empty
  schema as identity; a merged schema lists the entries of its first part
  before those of its second; an appended request adds one line at the end.
- `naming`: `to_snake_case` (proved idempotent, free of upper-case letters),
  the names of the generated items, namespaced RPC method names.
- `attrs`: the decisions taken while reading an RPC trait: which attribute
  argument applies (duplicates refused), how far an argument's value runs,
  which generic argument of `Result`/`RpcResult`/`Option` is meant, which
  kind of entry a method makes and what the entry is (`plan_entry`: required
  `name`/`item`, default `param_kind`, return type), parameter keys after
  `rename`, the checks on the trait, which type parameters gain `TS`, the
  order of the entries, and the error messages.
- `text`: joining and padding.

`app/` holds the `#[export_schema]` expansion written with `syn` and `quote`, as
a function on `proc_macro2` token streams: the body that a crate of type
`proc-macro` would expose as the attribute (no such crate is part of this
project).
