//! The folder cheatsheet (`Cheatsheet.md`): CLI commands, what lives in the
//! output folder, health levels, workflow, and this workspace's members.
use vstd::prelude::*;

use crate::agent::{ticked, ticked_names};
use crate::text::{join, join_strings, owned, push_str, str_eq};
use crate::Audiolabs;

verus! {

/// The first node name of a kind, in order.
pub open spec fn first_name(ns: Seq<crate::Node>, kind: Seq<char>) -> Option<Seq<char>>
    decreases ns.len(),
{
    if ns.len() == 0 {
        None
    } else {
        match first_name(ns.drop_last(), kind) {
            Some(x) => Some(x),
            None => if ns.last().kind@ == kind {
                Some(ns.last().name@)
            } else {
                None
            },
        }
    }
}

/// The plugin named in the examples: the first plugin, else `aether`.
pub open spec fn example_plugin(g: Audiolabs) -> Seq<char> {
    match first_name(g.nodes@, "plugin"@) {
        Some(x) => x,
        None => "aether"@,
    }
}

/// Backticked names joined by `, `, or `_none_`.
pub open spec fn name_list(ticked: Seq<Seq<char>>) -> Seq<char> {
    if ticked.len() == 0 {
        "_none_"@
    } else {
        join(ticked, ", "@)
    }
}

/// The cheatsheet of a graph whose output folder is `out`.
pub open spec fn cheatsheet(g: Audiolabs, out: Seq<char>) -> Seq<char> {
    "# Cheatsheet — agal / audiolabs\n\n**Summary:** Local orientation layer for humans and AI in a plugin workspace.  \nEverything useful lives **in this folder**. Product: **agentic-audiolab**, binary: **`agal`**.\n\nproject: **"@
        + g.project_name@
        + "**  \ngenerated: `"@
        + g.generated_at@
        + "`  \ntool version: "@
        + g.version@
        + "\n\n---\n\n## Quick start (from the workspace root)\n\n```bash\n# Rebuild map + note headers + HTML + this Cheatsheet\nagal .\n\n# Optional: focus one plugin (1-hop slice JSON)\nagal --plugin "@
        + example_plugin(g)
        + " .\n\n# PATH check: Clippy + clap-validator (not run by generate)\nagal doctor\n\n# Pull skills once (live in the tool; not auto-copied on every generate)\nagal skills sync\n```\n\nRequires `agal` on your `PATH`, or install from the tool repo:  \n`cargo install --path . --force` in **Agentic Audiolab**.\n\nConfig (optional): **`agal.toml`** next to the root `Cargo.toml`\n\n---\n\n## What is in this folder?\n\n| Path | Who | Purpose |\n|------|-----|---------|\n| **[AGAL.md](./AGAL.md)** | AI first | **agal entry** — skills index + hot path (regenerated) |\n| **[Cheatsheet.md](./Cheatsheet.md)** | you | **this file** — CLI + workflow |\n| **[audiolabs.html](./audiolabs.html)** | you | graph overview (browser / Obsidian HTML) |\n| **[audiolabs.agent.md](./audiolabs.agent.md)** | AI | structural map + **health** (~1–3k tokens) |\n| **[audiolabs.delta.md](./audiolabs.delta.md)** | AI / you | structural changes since last generate |\n| **[audiolabs.json](./audiolabs.json)** | AI escalate | full edges, params, **all** findings (incl. info) |\n| **[notes/](./notes/)** | you + AI | one MD per plugin/crate (auto header + your text) |\n| **[notes/_index.md](./notes/_index.md)** | you | index of all notes |\n| **skills/** | AI | tool packs after `agal skills sync` — default: core (DSP) |\n| `*.slice.json` | AI | after `agal --plugin NAME .`; **refreshed** on later `agal .` |\n\nWorkspace-root **`AGENTS.md`**: yours. Point at `"@
        + out
        + "/AGAL.md`; agal never overwrites it.\n\nTypical setup: **`"@
        + out
        + "/`** is in `.gitignore` (code on GitHub, PM layer local).\n\n---\n\n## CLI commands\n\nBinary: **`agal`**. Always run from the **Cargo workspace root** (root `Cargo.toml`).\n\n### Generate (refresh the map)\n\n| Command | What it does |\n|---------|----------------|\n| `agal .` | **AGAL.md**, agent map, delta, json, **notes/**, html, Cheatsheet |\n| `agal` | same as `agal .` |\n| `agal --plugin "@
        + example_plugin(g)
        + " .` | same **plus** `"@
        + example_plugin(g)
        + ".slice.json` |\n| `agal -v .` | verbose JSON (dependency_details, symbols, full catalog) |\n| `agal --agent-only .` | skip HTML |\n| `agal -o other-dir .` | write somewhere other than `"@
        + out
        + "/` |\n| `agal --watch .` | regenerate on `.rs` / `Cargo.toml` / `.slint` changes |\n| `agal --install-hook .` | post-commit → run `agal` after each commit |\n\n### Skills (not on every generate)\n\n| Command | What it does |\n|---------|----------------|\n| `agal skills list` | list embedded packs |\n| `agal skills sync` | **default: core** → `"@
        + out
        + "/skills/00-core/` |\n| `agal skills sync --only policy` | whole group (opt-in) |\n| `agal skills sync --only ui/slint` | **single** skill from a group |\n| `agal skills sync --only core,ui/slint` | mix groups + singles |\n| `agal skills sync --only all` | everything (rare — context bloat) |\n| `agal skills sync --force` | overwrite existing skill files |\n| `agal skills sync --output "@
        + out
        + "` | different output directory |\n\nWithout `--force`, existing skill files are **skipped** (local edits kept).\n\n### Doctor (external tools — not executed by generate)\n\n| Command | What it does |\n|---------|----------------|\n| `agal doctor` | PATH: **Clippy** + **clap-validator**; recommended commands |\n| `agal doctor .` | same with explicit root |\n\nGenerate only adds **info** findings (`tool_hint_clippy`, `tool_hint_clap_validator`).  \nIt does **not** run Clippy or validate built `.clap` files.\n\n---\n\n## Health & findings\n\n| health | Meaning |\n|--------|---------|\n| **ok** | no error/warn |\n| **degraded** | warnings only |\n| **blocked** | any **error** — fix before feature work |\n\n- **agent.md**: error + warn only (`path` + `fix` when present); header shows `suppressed: N` when `[[suppress]]` mutes findings\n- **json / html**: all severities (info includes tool hints, param surface, …); `findings_suppressed` count\n- **suppress** intentional noise in root `agal.toml` (health stays green; count still visible):\n\n```toml\n[[suppress]]\ncode = \"large_param_surface\"\nnode = \"aurum-slint\"    # package name, path, or id; omit = all nodes\nreason = \"product surface intentional\"\n```\n\n---\n\n## Workflow\n\n### Human\n\n1. `agal .` after larger code changes (or `--watch`)\n2. Open **[audiolabs.html](./audiolabs.html)** — plugins + hubs\n3. Edit **[notes/&lt;name&gt;.md](./notes/)** below the HUMAN marker (auto block is rewritten)\n4. `agal skills sync` once per machine/workspace when needed\n5. `agal doctor` before release-style validation\n\n### AI agent (hot path — do not dump the whole folder)\n\n1. **`AGAL.md`** — orientation home + skills index\n2. `audiolabs.agent.md` — structural map + **health**\n3. If **blocked**: fix error findings first (`path` + `fix`)\n4. `audiolabs.delta.md`\n5. `notes/&lt;focus&gt;.md` for the plugin/crate you touch\n6. Skills on demand from pack list in `AGAL.md` (`00-core` default, `ui/slint`, …)\n7. Escalate: slice / `audiolabs.json` (info findings live here)\n\n### Skills layout (tool packs only)\n\n| Path | Who writes | Sync |\n|------|------------|------|\n| `skills/00-core/` | `agal skills sync` (default) | tool pack |\n| `skills/01-policy/` … `06-agents/` | `agal skills sync --only …` | opt-in packs |\n\nLive index: **`AGAL.md`**. Without `--force`, existing skill files are skipped (local edits kept).\n\nExample: *“Continue on "@
        + example_plugin(g)
        + " — read AGAL.md + notes/"@
        + example_plugin(g)
        + ".md.”*\n\n---\n\n## This workspace (auto)\n\n**Plugins:** "@
        + name_list(ticked_names(g.nodes@, "plugin"@))
        + "\n\n**Crates:** "@
        + name_list(ticked_names(g.nodes@, "crate"@))
        + "\n\n---\n\n## Common mix-ups\n\n| Wrong / unclear | Right |\n|-----------------|--------|\n| **`agal .`** |\n| `agal update` | **`agal .`** (no `update` subcommand) |\n| Skills missing after generate | expected → **`agal skills sync`** |\n| Note text gone after generate | edit only **below** the HUMAN marker |\n| Commit PM layer | prefer gitignoring `"@
        + out
        + "/` |\n| agal should run Clippy/validator | **no** — `agal doctor` + info hints only |\n\n---\n\n## Tool repo\n\n**agentic-audiolab** (binary **`agal`**).  \nRebuild: `cargo build --release` or `cargo install --path . --force` in the tool repo.\n\n"@
}

fn first_plugin(ns: &Vec<crate::Node>) -> (r: String)
    ensures
        r@ == match first_name(ns@, "plugin"@) {
            Some(x) => x,
            None => "aether"@,
        },
{
    let mut i: usize = 0;
    while i < ns.len()
        invariant
            i <= ns@.len(),
            first_name(ns@.take(i as int), "plugin"@) is None,
        decreases ns@.len() - i,
    {
        assert(ns@.take(i + 1).drop_last() =~= ns@.take(i as int));
        assert(ns@.take(i + 1).last() == ns@[i as int]);
        if str_eq(ns[i].kind.as_str(), "plugin") {
            proof {
                lemma_first_name_prefix(ns@, "plugin"@, i + 1);
            }
            return ns[i].name.clone();
        }
        i = i + 1;
    }
    assert(ns@.take(ns@.len() as int) =~= ns@);
    owned("aether")
}

proof fn lemma_first_name_prefix(ns: Seq<crate::Node>, kind: Seq<char>, i: int)
    requires
        0 <= i <= ns.len(),
        first_name(ns.take(i), kind) is Some,
    ensures
        first_name(ns, kind) == first_name(ns.take(i), kind),
    decreases ns.len() - i,
{
    if i < ns.len() {
        assert(ns.take(i + 1).drop_last() =~= ns.take(i));
        lemma_first_name_prefix(ns, kind, i + 1);
    } else {
        assert(ns.take(i) =~= ns);
    }
}

fn name_list_of(ticked: &Vec<String>) -> (r: String)
    ensures
        r@ == name_list(crate::text::strs(ticked@)),
{
    if ticked.len() == 0 {
        owned("_none_")
    } else {
        join_strings(ticked, ", ")
    }
}

/// The cheatsheet of a graph whose output folder is `out` (see
/// [`cheatsheet`]).
pub fn render(g: &Audiolabs, out: &str) -> (s: String)
    ensures
        s@ == cheatsheet(*g, out@),
{
    let ex = first_plugin(&g.nodes);
    let plugins = name_list_of(&ticked(&g.nodes, "plugin"));
    let crates = name_list_of(&ticked(&g.nodes, "crate"));
    let mut s = String::new();
    push_str(&mut s, "# Cheatsheet — agal / audiolabs\n\n**Summary:** Local orientation layer for humans and AI in a plugin workspace.  \nEverything useful lives **in this folder**. Product: **agentic-audiolab**, binary: **`agal`**.\n\nproject: **");
    push_str(&mut s, g.project_name.as_str());
    push_str(&mut s, "**  \ngenerated: `");
    push_str(&mut s, g.generated_at.as_str());
    push_str(&mut s, "`  \ntool version: ");
    push_str(&mut s, g.version.as_str());
    push_str(&mut s, "\n\n---\n\n## Quick start (from the workspace root)\n\n```bash\n# Rebuild map + note headers + HTML + this Cheatsheet\nagal .\n\n# Optional: focus one plugin (1-hop slice JSON)\nagal --plugin ");
    push_str(&mut s, ex.as_str());
    push_str(&mut s, " .\n\n# PATH check: Clippy + clap-validator (not run by generate)\nagal doctor\n\n# Pull skills once (live in the tool; not auto-copied on every generate)\nagal skills sync\n```\n\nRequires `agal` on your `PATH`, or install from the tool repo:  \n`cargo install --path . --force` in **Agentic Audiolab**.\n\nConfig (optional): **`agal.toml`** next to the root `Cargo.toml`\n\n---\n\n## What is in this folder?\n\n| Path | Who | Purpose |\n|------|-----|---------|\n| **[AGAL.md](./AGAL.md)** | AI first | **agal entry** — skills index + hot path (regenerated) |\n| **[Cheatsheet.md](./Cheatsheet.md)** | you | **this file** — CLI + workflow |\n| **[audiolabs.html](./audiolabs.html)** | you | graph overview (browser / Obsidian HTML) |\n| **[audiolabs.agent.md](./audiolabs.agent.md)** | AI | structural map + **health** (~1–3k tokens) |\n| **[audiolabs.delta.md](./audiolabs.delta.md)** | AI / you | structural changes since last generate |\n| **[audiolabs.json](./audiolabs.json)** | AI escalate | full edges, params, **all** findings (incl. info) |\n| **[notes/](./notes/)** | you + AI | one MD per plugin/crate (auto header + your text) |\n| **[notes/_index.md](./notes/_index.md)** | you | index of all notes |\n| **skills/** | AI | tool packs after `agal skills sync` — default: core (DSP) |\n| `*.slice.json` | AI | after `agal --plugin NAME .`; **refreshed** on later `agal .` |\n\nWorkspace-root **`AGENTS.md`**: yours. Point at `");
    push_str(&mut s, out);
    push_str(&mut s, "/AGAL.md`; agal never overwrites it.\n\nTypical setup: **`");
    push_str(&mut s, out);
    push_str(&mut s, "/`** is in `.gitignore` (code on GitHub, PM layer local).\n\n---\n\n## CLI commands\n\nBinary: **`agal`**. Always run from the **Cargo workspace root** (root `Cargo.toml`).\n\n### Generate (refresh the map)\n\n| Command | What it does |\n|---------|----------------|\n| `agal .` | **AGAL.md**, agent map, delta, json, **notes/**, html, Cheatsheet |\n| `agal` | same as `agal .` |\n| `agal --plugin ");
    push_str(&mut s, ex.as_str());
    push_str(&mut s, " .` | same **plus** `");
    push_str(&mut s, ex.as_str());
    push_str(&mut s, ".slice.json` |\n| `agal -v .` | verbose JSON (dependency_details, symbols, full catalog) |\n| `agal --agent-only .` | skip HTML |\n| `agal -o other-dir .` | write somewhere other than `");
    push_str(&mut s, out);
    push_str(&mut s, "/` |\n| `agal --watch .` | regenerate on `.rs` / `Cargo.toml` / `.slint` changes |\n| `agal --install-hook .` | post-commit → run `agal` after each commit |\n\n### Skills (not on every generate)\n\n| Command | What it does |\n|---------|----------------|\n| `agal skills list` | list embedded packs |\n| `agal skills sync` | **default: core** → `");
    push_str(&mut s, out);
    push_str(&mut s, "/skills/00-core/` |\n| `agal skills sync --only policy` | whole group (opt-in) |\n| `agal skills sync --only ui/slint` | **single** skill from a group |\n| `agal skills sync --only core,ui/slint` | mix groups + singles |\n| `agal skills sync --only all` | everything (rare — context bloat) |\n| `agal skills sync --force` | overwrite existing skill files |\n| `agal skills sync --output ");
    push_str(&mut s, out);
    push_str(&mut s, "` | different output directory |\n\nWithout `--force`, existing skill files are **skipped** (local edits kept).\n\n### Doctor (external tools — not executed by generate)\n\n| Command | What it does |\n|---------|----------------|\n| `agal doctor` | PATH: **Clippy** + **clap-validator**; recommended commands |\n| `agal doctor .` | same with explicit root |\n\nGenerate only adds **info** findings (`tool_hint_clippy`, `tool_hint_clap_validator`).  \nIt does **not** run Clippy or validate built `.clap` files.\n\n---\n\n## Health & findings\n\n| health | Meaning |\n|--------|---------|\n| **ok** | no error/warn |\n| **degraded** | warnings only |\n| **blocked** | any **error** — fix before feature work |\n\n- **agent.md**: error + warn only (`path` + `fix` when present); header shows `suppressed: N` when `[[suppress]]` mutes findings\n- **json / html**: all severities (info includes tool hints, param surface, …); `findings_suppressed` count\n- **suppress** intentional noise in root `agal.toml` (health stays green; count still visible):\n\n```toml\n[[suppress]]\ncode = \"large_param_surface\"\nnode = \"aurum-slint\"    # package name, path, or id; omit = all nodes\nreason = \"product surface intentional\"\n```\n\n---\n\n## Workflow\n\n### Human\n\n1. `agal .` after larger code changes (or `--watch`)\n2. Open **[audiolabs.html](./audiolabs.html)** — plugins + hubs\n3. Edit **[notes/&lt;name&gt;.md](./notes/)** below the HUMAN marker (auto block is rewritten)\n4. `agal skills sync` once per machine/workspace when needed\n5. `agal doctor` before release-style validation\n\n### AI agent (hot path — do not dump the whole folder)\n\n1. **`AGAL.md`** — orientation home + skills index\n2. `audiolabs.agent.md` — structural map + **health**\n3. If **blocked**: fix error findings first (`path` + `fix`)\n4. `audiolabs.delta.md`\n5. `notes/&lt;focus&gt;.md` for the plugin/crate you touch\n6. Skills on demand from pack list in `AGAL.md` (`00-core` default, `ui/slint`, …)\n7. Escalate: slice / `audiolabs.json` (info findings live here)\n\n### Skills layout (tool packs only)\n\n| Path | Who writes | Sync |\n|------|------------|------|\n| `skills/00-core/` | `agal skills sync` (default) | tool pack |\n| `skills/01-policy/` … `06-agents/` | `agal skills sync --only …` | opt-in packs |\n\nLive index: **`AGAL.md`**. Without `--force`, existing skill files are skipped (local edits kept).\n\nExample: *“Continue on ");
    push_str(&mut s, ex.as_str());
    push_str(&mut s, " — read AGAL.md + notes/");
    push_str(&mut s, ex.as_str());
    push_str(&mut s, ".md.”*\n\n---\n\n## This workspace (auto)\n\n**Plugins:** ");
    push_str(&mut s, plugins.as_str());
    push_str(&mut s, "\n\n**Crates:** ");
    push_str(&mut s, crates.as_str());
    push_str(&mut s, "\n\n---\n\n## Common mix-ups\n\n| Wrong / unclear | Right |\n|-----------------|--------|\n| **`agal .`** |\n| `agal update` | **`agal .`** (no `update` subcommand) |\n| Skills missing after generate | expected → **`agal skills sync`** |\n| Note text gone after generate | edit only **below** the HUMAN marker |\n| Commit PM layer | prefer gitignoring `");
    push_str(&mut s, out);
    push_str(&mut s, "/` |\n| agal should run Clippy/validator | **no** — `agal doctor` + info hints only |\n\n---\n\n## Tool repo\n\n**agentic-audiolab** (binary **`agal`**).  \nRebuild: `cargo build --release` or `cargo install --path . --force` in the tool repo.\n\n");
    s
}

} // verus!
