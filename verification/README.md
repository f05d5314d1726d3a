# codex-rs

A command-line client for running AI models on Replicate, Fal and WaveSpeed,
with its decision logic verified by Verus.

## Layout

- `src/` — the verified library:
  - `cli.rs`: providers, output formats and commands as plain values.
  - `config.rs`: the stored API keys, the order in which a key is looked for
    (environment first), key masking and what `config show`/`set`/`clear` print.
  - `strmap.rs`: a string-keyed map that keeps insertion order and never holds a
    key twice.
  - `json.rs`: JSON values, member lookup and update.
  - `providers/`: file arguments and MIME detection, data URIs, prediction
    results, the polling schedule, and for each provider its endpoints, request
    bodies, status words, schemas and listings.
  - `output.rs`: the text form of results, values, schemas and listings, as
    lines of styled pieces.
  - `interactive.rs`: the guided session as a sequence of stages.
- `app/` — the program: argument parsing, the configuration file, HTTP
  requests, prompts and printing, all calling into the library for decisions.
- `tests/` — tests of the library on concrete values.
