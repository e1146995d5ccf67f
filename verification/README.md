# gohangout_rs

An ETL pipeline library in the style of Logstash: events (JSON payloads with
metadata), processors and pipelines, input, filter and output plugins, a
plugin registry, factory and manager, configuration loading and validation,
and the decisions of a configuration file watcher. The library is written in
Verus: each public function carries a contract, and Verus proves the code
against it.

Layout:

- `src/` — the verified library. `json.rs` models JSON values (objects keep
  their keys in ascending order); `event/` holds events, processors and
  pipelines; `plugin/` the plugin traits, registry, factory and manager;
  `input/` and `output/` the codecs, formats and the built-in plugins;
  `config/` the configuration model, loader and validator; `watcher.rs` and
  `cli.rs` the watcher's and the command line's decisions. Calls into
  serde_json, chrono, uuid and rand stand behind small trusted wrappers whose
  contracts are stated in their doc comments.
- `tests/` — tests run against the compiled library.
- `app/` — the program: YAML files (serde_yaml), standard input, the file
  watcher (notify, tokio) and the command line.
