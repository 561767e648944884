# audiolabs_core

Workspace orientation for Rust audio-plugin repositories (`agal`): a
structural graph of a Cargo workspace (plugins, crates, members, edges),
findings with a health gate, a delta against the previous generation, agent
maps (`agal.agent.md`, `AGAL.md`), hybrid notes, a folder cheatsheet, the
HTML view data and curated skill packs.

The library in `src/` is written in Verus: every function carries a
`requires` / `ensures` contract over spec-level models (`Seq<char>` for
text, sorted string lists for sets, association lists for maps) and is
proved. `app/` is the thin command line around it: it reads manifest and
source files, parses and walks the Rust syntax trees, reads the clock and
`PATH`, serialises JSON and writes files, handing the library plain values.

## Layout

- `src/text.rs` — the character-level text model and its lemmas (ordering,
  searching, splitting, sorted sets, association lists).
- `src/config.rs`, `src/registry.rs` — configuration, taxonomy and the
  shipped framework registry.
- `src/syntax.rs` — the items of a parsed Rust file as plain values and the
  syntax events read from them (compact type text, derive names,
  `#[param]` tokens, `use` text).
- `src/manifest.rs` — Cargo manifests: the text parsed as TOML (through the
  `toml` crate) and the tables picked out as plain values; member patterns
  and their errors, dependencies, features, workspace versions, member
  input.
- `src/ast.rs` — source facts of a crate from a stream of syntax events and
  source texts (file roles, IPC signals, parameter binding, Slint exports).
- `src/assemble.rs` — the graph from the workspace input.
- `src/findings.rs` — findings, health, suppression.
- `src/delta.rs` — comparing two generations.
- `src/agent.rs`, `src/notes.rs`, `src/guide.rs`, `src/html.rs` — the
  generated texts.
- `src/skills.rs`, `src/skill_texts.rs`, `src/tool_hints.rs` — skill packs
  and external tool hints.
- `src/lib.rs` — the graph types and the `scan` / `doctor` / `generate`
  steps.

## Laws proved in `src/`

- `notes::lemma_human_body_kept`, `notes::lemma_regenerate_stable`,
  `notes::lemma_compose_shape`, `notes::lemma_note_file_reserved` — the
  human body of a note survives regeneration, regeneration is idempotent, a
  note starts with its AUTO block and holds the HUMAN marker once, and no
  node note takes the workspace memory or index file.
- `findings::lemma_kept_none`, `findings::lemma_kept_exactly`,
  `findings::lemma_kept_idempotent` — suppression keeps exactly the
  unmatched findings, keeps all without rules, and mutes nothing on a second
  pass; `findings::lemma_sorted_findings` — the analysis reorders its
  findings without loss, errors first, then warnings, then info;
  `tool_hints::lemma_hints_keep_health` — tool hints never move the health
  gate; `findings::lemma_health_concat`, `lemma_health_ignores_info`,
  `lemma_health_permutation` — health of a concatenation is the worse part's,
  info findings and reordering never change it.
- `delta::lemma_self_delta_empty`, `delta::lemma_new_and_resolved_disjoint`,
  `delta::lemma_delta_reversed` — comparing a graph with itself finds no
  change; nothing is both new and resolved; swapping generations swaps the
  delta.
- `skills::lemma_selection_in_catalog_order`, `lemma_selection_by_parts`,
  `lemma_group_name_round_trip`, `lemma_catalog_shape` — a selection lists
  catalog files in catalog order, each at most once, and depends only on
  which parts it lists; group names read back in any case; the catalog has
  17 files with distinct paths and distinct stems under their group
  folders, groups in order (`lemma_catalog_stems`); the skills of some groups
  are the catalog filtered by group (`lemma_select_owned_filter`).
