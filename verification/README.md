# fluvio_control

The control logic of Fluvio clusters and their tools, verified with Verus.

- `src/` is the library. Its functions state what they return or change, and Verus proves it of all
  of them but the wrappers named below.
  - `k8/` builds the Kubernetes objects of a group of stream processing units and decides what the
    controllers do next. `k8/fit.rs` states how the objects fit together.
  - `metadata/` holds metadata objects in memory and builds the documents with which they are kept
    in a cluster.
  - `generate/`, `cdk.rs` and `smdk.rs` make projects from templates.
  - `repair.rs` and `repair_index.rs` check and rebuild the indexes of logs.
  - `clear/` is the request to clear a topic, from the command to the answer.
  - `cluster.rs` and `profile_sync.rs` are the configuration of a client.
  - `health.rs`, `otel.rs`, `namespace_gc.rs` and `start.rs` are the decisions of the services.
- `app/` is what the programs do around the library: arguments, files, network, and the conversion
  between the library's types and those of other crates.
- `tests/` runs the library.

Verus believes, without a proof, what these say of code outside the library:

- `cluster.rs`: `new_table`, `get_value`, `insert_value` (toml), `from_millis` (std)
- `clear/wire.rs`: `encode_text`, `encode_bool`, `decode_text`, `decode_bool` (fluvio-protocol)
- `generate/values.rs`: `new_object`, `insert_text`, `has_name`, `copy_object`, `is_scalar`,
  `text_of`;
  `generate/expand.rs`: `parse_text`, `render_template` (liquid)
- `generate/ignore.rs`: `new_glob`, `new_builder`, `add_glob`, `build_set`, `set_matches` (globset)
- `generate/tags.rs`: `replace_tags`; `generate/references.rs`: `find_tags` (regex)
- `generate/kebab.rs`: `char_is_upper`, `char_to_lower` (std)
- `text.rs`: what is said of `String::push`
- `health.rs`: `notify_event` (fluvio-types), of which nothing is said

Of a text whose tags are names it is stated that the values take their places. Of another text it is
stated that it becomes one that the template language can make of it, and stays as it was only where
the language can fail on it: which it is depends on the clock and on the parser. Texts that are not
tame are kept from the language and stay as they were. `generate/tame.rs` says which these are. They
are the texts on which the language could stop the program, and some with no danger in them, where
that cannot be seen from the text and the values.

`kstring` is named in `Cargo.toml` only to hold it, a dependency of liquid, at a version that the
compiler of this project can build.

Runs such as `SetRun` or `RepairRun` are state machines: they say what to do next, the program does
it and hands back what came of it.
