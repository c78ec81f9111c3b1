# ananke

The verified core of a daemon that runs local language models: it reads what an
operator configured, estimates the memory a model will need, watches what its
services hold, and remembers why it restarted them. Everything that decides or
computes is written in Verus and proved; files, the database, the network and
the clock stay at the edges.

## Layout

- `src/config`: tables as written, inheritance between services, renames,
  containers, defaults and their documentation.
- `src/estimate`: memory estimates by model architecture. Every size is
  exact; `pipeline::estimate_if_countable` tests first whether a machine word
  holds each of them. What the fitted graph model, the tensor split and the
  mamba family say of a model is handed in as values.
- `src/gguf`: what is kept of a model file.
- `src/devices`: device snapshots, and which process belongs to which service.
- `src/db`: rows, windows and counts of what is stored.
- `src/api`: what clients are told.
- `src/text`, `src/text_map`: text and a map keyed by text.
- `app`: ordinary Rust around the library: SQLite, TOML, JSON, sampling.
- `tests`: tests of the library, run against the real crates.

## What is trusted

Regular expressions come from `regex`, identifiers from `uuid`. Four small
functions call them, and their contracts are believed without proof; each says
so in its doc comment. Whatever follows such a call is a verified function that
takes the result as an argument.

## Laws

Properties that span functions are public proof functions named `lemma_*`, with
the law in words above them: that overrides move the bytes that were counted and
lose none, that an owner is created once, that restart counts never fall, that
accepted inheritance ends, that renames are refused exactly where they run in a
circle, and others.
