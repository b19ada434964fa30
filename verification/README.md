# zkguard

`zk-guard` is a best-effort static security scanner for Noir
zero-knowledge circuits: text-level heuristics that flag suspicious source
patterns (unconstrained public inputs, unasserted comparisons, missing range
checks, untagged hash commitments and nullifiers, circuits without negative
tests). A finding is a lead to investigate, not a proof of a bug.

The analysis is written in Verus and verified:

- `src/text.rs`, `src/heuristics.rs`, `src/patterns.rs`: the character-level
  scanning primitives and the Noir heuristics, each executable function proved
  equal to a specification over the source's characters.
- `src/rules/`: the six rules and the registry; every `check_source` is proved
  to return exactly the findings its specification describes.
- `src/config.rs`: rule enabling, the fail-on threshold, inline
  `// zkguard:ignore` directives and `zkguard.toml` suppressions.
- `src/report/`: the human, Markdown and SARIF reports.
- `src/discovery.rs`: which paths are Noir sources and manifests, and how a
  walk's findings become a project (files sorted by path, the shallowest
  `Nargo.toml` as manifest).
- `src/commands/`: what `scan`, `rules list` and `fixtures validate` decide,
  given the discovered sources.
- `src/laws.rs`, `src/finding_laws.rs`, `src/shape_laws.rs`: properties of the
  library as a whole (ordering, suppression, rule selection, well-formed
  findings, the rules on their documented shapes).

`app/` is the command-line program around the library: argument parsing,
the file-system walk, reading `zkguard.toml`, and the JSON/SARIF
serialization. `tests/` exercises the library on concrete inputs.
