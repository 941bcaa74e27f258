# hallouminate

A library for per-repository markdown wikis that a language model writes and
searches, written in Verus. Every function states what it returns or changes, in
its own contract or in that of the trait whose method it is, and Verus proves it
but for what is listed here, which is believed:

- functions that call other crates or std: `cli::config::toml_keys`,
  `cli::init_repo::toml_quote`, `daemon::ipc::text_field`, `object_of_text` and
  `value_of_text`, `daemon::read::text_of_bytes`, `store::rows::blake3_hash`,
  `text::debug_quote` and `tilde::expand_tilde`;
- the names of what those calls return: `toml_top`, `toml_literal`,
  `text_fields`, `lone_text`, `utf8_fault`, `blake3_digest` and `debug_text`;
- the declaration of `serde_json::Value` in `daemon::ipc`, and what `text` says
  of `String::push`.

Each says in its doc comment what is believed of it. Of what `derive` writes
nothing is claimed but that `==` compares fields.

- `src/` is the library. `text` and `path` model texts and Unix paths;
  `corpus`, `config`, `layers`, `union` and `globs` are the configuration;
  `cli`, `hook` and `index` are the decisions of the commands; `daemon` is the
  process that owns the store, its requests written as steps and events; `mcp`
  is what the tools answer; `markdown` and `footnotes` read pages; `store` is what the rows
  of the store hold; `rerank`, `models`, `logs`, `xdg` and `tilde` are small.
- `app/` is the program around it: arguments, files, sockets, the watcher, the
  models. It runs each request step by step as the library says.
- `tests/` runs the library on concrete values.

Paths are Unix paths, and the program is for Unix. Embeddings are of any type
that can be copied; scores and vectors are computed outside the library.
