//! Texts of the skill packs shipped with the tool.
use vstd::prelude::*;

verus! {

/// `01-policy/caveman.md`.
pub const CAVEMAN: &'static str = r#"---
id: caveman
group: policy
summary: Dense agent communication; cut filler, keep technical precision.
---

# Caveman (policy)

**Summary:** Talk terse. Drop articles/filler/pleasantries. Fragments OK.  
Technical terms exact. Saves tokens; keeps diffs and answers scannable.

## Rules

- Prefer short clauses over essays.
- No ceremonial openers ("Great question", "I'd be happy to").
- Code, identifiers, paths, commands: exact.
- Security warnings and irreversible actions: normal clear prose.
- User can set intensity: lite | full | ultra (default full if active).

## When

- Default for agent replies during implementation.
- Not for user-facing product docs unless asked.

## See also

- [ponytail.md](./ponytail.md) — how to change code
- [../06-agents/agent-usage.md](../06-agents/agent-usage.md) — map reading order
"#;

/// `01-policy/ponytail.md`.
pub const PONYTAIL: &'static str = r#"---
id: ponytail
group: policy
summary: Minimal correct change; YAGNI; root cause; fewest files.
---

# Ponytail (policy)

**Summary:** Lazy senior dev. Smallest change that works. Delete > add.  
Boring > clever. No speculative abstractions. No new deps unless required.

## Ladder (before writing code)

1. YAGNI — does this need to exist?
2. Already in codebase?
3. stdlib / platform / installed dep?
4. One-liner?
5. Write minimum.

## Rules

- Bug fix = root cause, not symptom. Trace callers.
- Fewest files. Question complexity.
- Mark deliberate deferrals: `ponytail:` comment.
- Still required: validation that prevents data loss, security, a11y when relevant.
- Non-trivial logic → one assert or focused test when practical.

## When

- Every edit pass in this workspace.
- Especially against AI urge to "improve architecture" mid-task.

## See also

- [caveman.md](./caveman.md) — communication density
- [../00-core/dsp-realtime.md](../00-core/dsp-realtime.md) — audio thread constraints (default pack)
- [../00-core/dsp-correctness.md](../00-core/dsp-correctness.md) — filter/analysis correctness
"#;

/// `01-policy/versioning.md`.
pub const VERSIONING: &'static str = r#"---
id: versioning
group: policy
summary: SemVer conventions, release checklist, 0.x rules for all LX-Audiolabs projects.
triggers: version bump, release, tag, semver, changelog, crate publish
verify: single workspace version; annotated tag; CHANGELOG updated
---

# Versioning (policy)

**Summary:** How LX-Audiolabs numbers releases — SemVer with 0.x conventions.
Applies to all crates, plugins, and tools.

## Workspace versioning (Rust)

- **Single version** in root `Cargo.toml` → `[workspace.package] version`
- All crates use `version.workspace = true`
- `publish = false` until framework stable; crates.io later

## SemVer rules

| Range | Meaning |
|-------|---------|
| **0.y.z** | Public API may change. Bump **MINOR** for breaking/feature drops; **PATCH** for fixes/docs. |
| **1.0.0** | Stable line — documented compatibility promise. |

Cargo treats `0.1` → `0.2` as major break. Match that expectation.

## Release checklist

A release is **not** every merge. A release is:

1. Bump `[workspace.package] version` (one place).
2. Update `CHANGELOG.md`: move `## [Unreleased]` items under `## [X.Y.Z] - YYYY-MM-DD`.
3. Commit: `chore: release vX.Y.Z`.
4. Annotated tag: `git tag -a vX.Y.Z -m "vX.Y.Z"`.
5. `git push origin main --tags`.

## Git tags

- Format: `vMAJOR.MINOR.PATCH` (annotated)
- Example: `v0.1.0`
- Always push tags with the commit.
"#;

/// `06-agents/agent-usage.md`.
pub const AGENT_USAGE: &'static str = r#"---
id: agent-usage
group: agents
summary: How agents consume AGAL.md, map, notes, skills without context bloat.
triggers: AGAL, hot path, orientation, skills sync, context budget, disclosure
verify: L3→L2→L1→L0; 1 note · ≤1 skill · errors first; no skills/ dump
---

# Agent usage

**Summary:** Orientation layer for AI-assisted Rust audio work.  
Start at **`AGAL.md`**, then the structural map. Skills load on purpose — not a dump.

Product: **agentic-audiolab**, binary **`agal`**, folder **`audiolabs/`**.

## Disclosure (read layers)

Progressive disclosure — open the **next** layer only if the current one is not enough:

| Layer | Artifact | Open when |
|-------|----------|-----------|
| **L3** entry | `audiolabs/AGAL.md` | always first — budget, loadouts, skills index |
| **L2** map | `audiolabs.agent.md` (+ `delta`) | structure / health / what changed |
| **L1** focus | `notes/<focus>.md` (scan **`[ATOM]`** first) | work on one plugin/crate |
| **L0** raw | `*.slice.json` / `audiolabs.json` | map + note still insufficient |

Skills are a **side loadout** (≤1 file; match `triggers`), not a layer.  
HTML / Cheatsheet = humans. Do **not** skip to L0 by default.

## Read order (hot path)

1. **L3** **`audiolabs/AGAL.md`** — entry: skills index + budget / loadouts / disclosure
2. **L2** **`audiolabs/audiolabs.agent.md`** — structural map + **health** (`ok` / `degraded` / `blocked`)
3. If **blocked** — fix error findings first (`path` + `fix` on each line)
4. **L2** **`audiolabs/audiolabs.delta.md`** — what changed since last generate
5. **L1** **`audiolabs/notes/<focus>.md`** — **one** note; atoms → open → intent
6. **loadout** — skills on demand from `AGAL.md` (never the whole tree; **≤1** skill file)
7. **L0** escalate only if needed:
   - `agal --plugin <name> .` → `<name>.slice.json`
   - `audiolabs.json` for params_fields / full edges / **info** findings

## Context budget (per turn)

| Cap | Default |
|-----|---------|
| focus notes | **1** |
| skill files loaded | **1** (or one loadout row) |
| findings | **errors first**, then warns; skip info until escalate |
| JSON / slice | only after map + note are not enough |

## Task loadouts

| Task | `agal skills sync --only …` | Load in context |
|------|-----------------------------|-----------------|
| DSP / process / realtime | `core` (default) | `00-core/*` as needed |
| Policy / terse edits | `policy` | `caveman` **or** `ponytail` |
| Slint UI | `core,ui/slint` | `slint` (+ core if DSP) |
| CLAP ship / formats | `core,formats/clap` | `clap` |
| Agent orientation playbook | `agents` | `agent-usage` |
| Full pack | `all` | rare — context bloat |

## Stack layers

| Layer | Tool | Role |
|-------|------|------|
| **structure** | **agal** | map, health, notes, curated skills |
| **Rust lint** | Clippy | `agal doctor` + CI — not run by generate |
| **CLAP binary** | clap-validator | same |
| **symbols / call graph** | optional (codegraph, codebase-memory, graphify, …) | not agal; see `agal doctor` |

`agal doctor` PATH-checks Clippy + clap-validator **and** optional symbol binaries (found / not on PATH). Symbol tools never become generate findings.

## Skill frontmatter (optional)

```yaml
id: dsp-realtime
summary: …
triggers: process, realtime, audio callback
verify: review process() for alloc/lock
```

After sync, `AGAL.md` skill index shows `triggers` / `verify` when set — helps pick the right pack without opening every file.

## Notes atoms

**Graph atoms (auto)** — regenerated inside each note's AUTO block (max 12):

- kind / frameworks / migration
- formats, roles, has_process / has_editor
- semantic edges (`uses_ui`, `ipc_peer`, …), top deps / dependents
- error + warn findings (with `fix` when present)

At **L1**, scan the ```text [ATOM] …``` block first, then the human body.

**Human atoms** — below the HUMAN marker for durable decisions/lessons:

```text
[ATOM] type=decision|lesson|constraint | detail=…
```

## Workspace root vs agal folder

| File | Who owns it |
|------|-------------|
| **`AGENTS.md`** (repo root) | **you** — product rules, commit policy, team notes |
| **`audiolabs/AGAL.md`** | **agal** — regenerated; skills links + orientation |

Root `AGENTS.md` should **point** at `audiolabs/AGAL.md` and keep product rules.  
agal never overwrites root `AGENTS.md`.

## Skills (tool packs)

- Live under **`audiolabs/skills/`** after `agal skills sync` (never repo-root `*_SKILL.md`).
- Numbered groups: `00-core`, `01-policy`, `02-frameworks`, `03-formats`, `04-ui`, `05-migrations`, `06-agents`.
- Selectors: `core`, `ui/slint`, `04-ui/slint`, mixes, `all`.
- Without `--force`, existing files are **skipped** (local adaptations kept).
- Load **one** skill when the task needs it — not the whole tree.
- Live index is regenerated into **`AGAL.md`** on every `agal .` and `agal skills sync`.

## Do not

- Load every skill on every turn
- Open full JSON by default
- Treat completed migrations as ongoing work (agent map is quiet when legacy=0)
- Treat HTML as agent input (human map)
- Assume Clippy / clap-validator ran — use `agal doctor` + your CI
- Dump specialized guidance into root AGENTS.md when it belongs in a skill pack

## Humans

- **Cheatsheet.md** — all CLI commands in this folder
- **HTML** — overview graph, focus 1-hop, findings
- **notes/** — intent, open work, decisions, optional atoms (edit below HUMAN fence)
- **agal.toml** — migrations, rules, `[[suppress]]`
- Tool packs: `agal skills sync` (default: **core**)

## Commands

```bash
agal .                          # regenerate map + AGAL.md + notes headers + html
agal --plugin aether .          # + one-hop slice
agal doctor                     # Clippy + clap-validator PATH check
agal skills sync                # core → audiolabs/skills/
agal skills sync --only policy  # opt-in style skills
agal skills sync --only ui/slint
agal skills sync --only all     # full skill pack (rare)
agal skills list
```
"#;

/// `00-core/dsp-realtime.md`.
pub const DSP_REALTIME: &'static str = r#"---
source: global
copied_by: template
date: 2026-07-30
adapted: false
reason: "universal realtime safety rules for all audio plugins"
---

# DSP Realtime Rules

**Summary:** Hard constraints für Audio-Thread-Code.
Gilt für jedes `process()` / jeden Audio-Callback.
Ziel: deterministische Laufzeit — keine Xruns, keine Dropouts, keine Crashes im Host.

## 1. Kein Alloc im Audio-Callback

- Kein `Vec::push`/`reserve`, `Box::new`, `String`, `format!`, `to_string()`, `clone()` auf Collections
- Versteckte Allocs zählen auch: `HashMap`-Wachstum, `collect()`, Lazy-Init beim ersten Call (`OnceLock`, `lazy_static`), geboxte Closures
- Alles in `prepare()`/`reset()` vorallokieren: Buffer auf Max-Blocksize, max. Voices, Delay-Lines
- Wachstum nur per Double-Buffer-Swap vom GUI-/Main-Thread aus — nie in-place im Callback
- Fixed-Capacity-Alternativen: `arrayvec`, statische Arrays, eigene Pools

## 2. Keine Locks, keine I/O, keine Syscalls im Audio-Thread

- Kein `Mutex`/`RwLock::lock()` in `process()` — blockiert → Priority Inversion → Dropouts
- GUI↔Audio nur lock-free: Atomics (`AtomicF32`, `AtomicBool`) für Parameter, SPSC-Ringbuffer (`rtrb`, `ringbuf`) für Events/Messages
- Kein File-I/O, kein `println!`/`eprintln!`/Logging, kein `thread::spawn`, kein Netzwerk
- Kein blockierendes Warten: `Condvar`, `channel.recv()`, `join()`
- Einzige erlaubte Lock-Form: `try_lock()` mit Fallback (z.B. alte Werte weiterverwenden)

## 3. Keine Panics, kein unwrap

- `unwrap()`/`expect()`/`panic!` im Callback = Abort mitten im Host-Prozess → verboten
- Indexing (`buf[i]`) nur wenn Bounds vorher bewiesen; sonst `get()` mit Fallback
- Kein `catch_unwind` im Hot Path — Code so designen, dass er nicht panicken kann
- Ungültige Zustände (SR/Blocksize in `prepare()`): sauber ablehnen, nicht durchreichen

## 4. Numerik & Struktur

- Denormal-Schutz in Feedback-Pfaden (FTZ/DAZ oder DC-Offset)
- Parameter-Smoothing vor dem Sample-Loop; Parameter einmal pro Block samplen
- Keine trig-Funktionen / `powf` im inneren Loop, wenn Koeffizienten pro Block reichen
- Erste-Call-Effekte vermeiden: jede Lazy-Init gehört in `prepare()`, nicht in `process()`

## Verifizieren

- Debug/Test mit zählendem `#[global_allocator]`: `process()` fahren, `alloc_count == 0` asserten
- Review-Checkliste: jede Zeile im Callback gegen §1–3 prüfen
- Unter Last testen (kleine Blocksize, hohe CPU) — Funktion allein beweist keine RT-Safety

## See also

- [audio-thread-boundary.md](./audio-thread-boundary.md) — was wo läuft, Ownership über Threads
- [dsp-correctness.md](./dsp-correctness.md) — Filter-/Analyse-Korrektheit
"#;

/// `00-core/dsp-correctness.md`.
pub const DSP_CORRECTNESS: &'static str = r#"---
source: global
copied_by: template
date: 2026-07-30
adapted: false
reason: "universal DSP correctness rules: filters, IIR/FIR state, FFT/metering analysis"
---

# DSP Correctness Rules

**Summary:** Korrektheits-Regeln für DSP-Bausteine.
Ergänzt [dsp-realtime.md](./dsp-realtime.md) (RT-Safety) und
[filter-biquad.md](./filter-biquad.md) (Biquad-Stabilität).

## 1. Filter: Samplerate & State explizit

- Jeder Filter dokumentiert: gültige SR-Range, SR-Abhängigkeit der Koeffizienten, State-Layout
- Koeffizienten sind Funktion der Samplerate — bei SR-Wechsel (`prepare()`) neu berechnen, nie weiterverwenden
- State (Delay-Elemente, `z1/z2`) klar benennen und typisieren; kein impliziter globaler State
- Ein Filter-Struct pro Kanal (oder State pro Kanal) — State-Sharing zwischen Kanälen ist ein Bug

## 2. IIR/FIR: Init, Denormal, Reset explizit

- **Init:** State startet bei 0 (oder dokumentiertem DC-Wert) — kein uninitialisierter Speicher, kein f32::NAN
- **Denormal:** IIR mit Feedback braucht Denormal-Schutz (FTZ/DAZ-Flag oder `+ 1e-20`-Offset im Feedback-Pfad)
- **Reset:** explizite `reset()`-Methode, die State löscht ohne Koeffizienten anzufassen; wird bei Transport-Stop/Seek und `reset()` des Hosts aufgerufen
- Klickfreiheit: nach Reset/SR-Wechsel Koeffizienten smoothen oder State crossfaden, nicht hart umschalten
- FIR: Länge/ taps fest oder in `prepare()` gesetzt; Latenz = (taps-1)/2 Samples dokumentieren

## 3. FFT, Metering, Analyse: Fenster, Latenz, Auflösung dokumentieren

- **Fenster:** Typ (Hann/Blackman/…), Größe N, Hop/Overlap (z.B. 50 %) explizit am Code/API vermerken
- **Latenz:** Analyse-Latenz in Samples (Fenstergröße + Hop + Pufferung) angeben — entscheidet über Delay-Compensation
- **Auflösung:** Frequenzauflösung = SR/N Hz; Zeitauflösung = Hop/SR s — beides dokumentieren
- Metering: Ballistik (Attack/Release in ms oder dB/s), Peak vs. RMS vs. LUFS klar unterscheiden
- Analyse-Threads: FFT nie im Audio-Callback (→ dsp-realtime §2); Audio-Thread schreibt nur in Ringbuffer

## Checkliste (Review)

- [ ] SR-Wechsel führt zu neu berechneten Koeffizienten
- [ ] `reset()` löscht State, lässt Koeffizienten
- [ ] Feedback-Pfade denormal-sicher
- [ ] Fenster/Latenz/Auflösung an jeder Analyse dokumentiert
- [ ] Kein FFT/Metering-Compute im Audio-Thread
"#;

/// `00-core/audio-thread-boundary.md`.
pub const AUDIO_THREAD_BOUNDARY: &'static str = r#"---
source: global
copied_by: template
date: 2026-07-30
adapted: false
reason: "thread boundary rules: what runs where, messaging, ownership of shared state"
---

# Audio Thread Boundary

**Summary:** Wer was wo ausführt — Boundary zwischen Audio-, UI- und Main-Thread.
Mechanik der Lock-free-Kommunikation: siehe [dsp-realtime.md](./dsp-realtime.md) §2.

## 1. Was darf in DSP (Audio-Thread)

- Nur: Parameter samplen, smoothen, Samples rechnen, State fortschreiben
- Liest: Atomics (Parameter), SPSC-Queue (Note-/UI-Events), vorallokierte Buffer
- Schreibt: Ausgabe-Buffer, Atomics für Metering-Werte (Peak/RMS), SPSC-Queue Richtung UI (Metering, Status)
- Alles andere ist verdächtig — siehe dsp-realtime §1–3

## 2. Was nur in UI / Main-Thread

- Rendering, Widgets, Event-Handling, Preset-/File-I/O, Plugin-Scan, Netzwerk
- Parameter-Gesten: `begin_gesture` / `set_parameter` / `end_gesture` — Audio-Thread liest nur das Ergebnis
- Schwere Vorbereitung: FFT-Pläne, Samples laden, Lookup-Tabellen bauen → dann per Swap an den Audio-Thread übergeben
- Metering-Darstellung: UI pollt die Metering-Atomics im eigenen Timer (~30 Hz), nie umgekehrt

## 3. Messaging

- **UI → Audio:** Atomics für kontinuierliche Parameter (Cutoff, Gain); SPSC-Ringbuffer für diskrete Events (Notes, Program-Change)
- **Audio → UI:** SPSC-Ringbuffer für Events (Voice-Status), Atomics/Triple-Buffer für Metering
- **Große Objekte** (IR, Wavetables, Presets): außerhalb bauen, dann Pointer-Swap (`Arc` + atomic swap / Double-Buffer); Audio-Seite droppt das alte Objekt nie im Callback — Rückgabe-Queue an den Main-Thread
- Reihenfolge: Event-Queue am Blockanfang einmal entleeren, dann Atomics samplen, dann Sample-Loop

## 4. Ownership über Shared State

- Audio-Thread **besitzt** den DSP-State exklusiv (Filter-State, Voices, Delay-Lines) — niemand sonst schreibt darein
- Shared State nur über zwei Formen: Atomics (POD) oder Queues (Nachrichten) — nie `&mut` über Threadgrenzen, nie `Mutex` auf dem Audiopfad
- Ownership-Wechsel nur per Move/Swap: Bauen und Droppen auf Main/UI, Rechnen auf Audio
- `unsafe`/`Send`-Overrides an der Boundary: einzeln begründen und kommentieren, sonst Tabu

## Checkliste (Review)

- [ ] Jeder shared Wert ist entweder Atomic oder fließt durch eine Queue
- [ ] Kein `&mut` auf DSP-State von außerhalb des Audio-Threads
- [ ] Große Objekte: gebaut + gedroppt außerhalb, nur geswappt auf Audio
- [ ] UI liest Metering per Timer-Poll, Audio pushed nie synchron in die UI
"#;

/// `00-core/filter-biquad.md`.
pub const FILTER_BIQUAD: &'static str = r#"---
source: global
copied_by: template
date: 2026-07-29
adapted: false
reason: "biquad filter stability and implementation"
---

# Biquad Filter Design

**Summary:** Implementation rules for stable IIR biquads.
Emphasizes pole radius checks and numerically robust forms.
Prevents denormal slowdowns and trig overhead in hot loops.

- Stabilitätsprüfung: `|pole| < 1.0`
- Transposed Direct Form II bevorzugen
- Denormal-Schutz
- Keine trig-Funktionen im inneren Loop
"#;

/// `02-frameworks/framework-patterns.md`.
pub const FRAMEWORK_PATTERNS: &'static str = r#"---
source: global
copied_by: template
date: 2026-07-29
adapted: false
reason: "framework patterns for audio plugin stacks"
---

# Framework Patterns

**Summary:** Common architectural patterns for Rust audio plugin frameworks.
Covers parameter communication, process() hook structure, and thread separation.
Adaptable for truce, clack, nice-plug, and similar stacks.

- Params über lock-free Events
- `process()` Hook Struktur
- Editor-Thread vs Audio-Thread Trennung
"#;

/// `03-formats/clap.md`.
pub const CLAP: &'static str = r#"---
source: global
copied_by: template
date: 2026-07-29
adapted: false
reason: "clap plugin format rules and conventions"
---

# CLAP Format

**Summary:** Rules for building CLAP plugins.
Covers factory registration, plugin description, and threading.
Read this when targeting CLAP hosts.

## Key Rules

- Use `clap_plugin_factory` registration
- Declare `plugin_features` correctly
- Handle host callbacks in the main thread only

## See Also

- [registry/frameworks.toml](../../registry/frameworks.toml) → `formats.clap`
"#;

/// `03-formats/vst3.md`.
pub const VST3: &'static str = r#"---
source: global
copied_by: template
date: 2026-07-29
adapted: false
reason: "vst3 plugin format rules and conventions"
---

# VST3 Format

**Summary:** Rules for building VST3 plugins.
Covers component interfaces, kSingleComponent, and process context.
Read this when targeting VST3 hosts.

## Key Rules

- Implement `IComponent` and `IEditController`
- Use `Steinberg::Vst::kSingleComponent` when applicable
- Respect `ProcessContext` tempo and transport

## See Also

- [registry/frameworks.toml](../../registry/frameworks.toml) → `formats.vst3`
"#;

/// `03-formats/lv2.md`.
pub const LV2: &'static str = r#"---
source: global
copied_by: template
date: 2026-07-29
adapted: false
reason: "lv2 plugin format rules and conventions"
---

# LV2 Format

**Summary:** Rules for building LV2 plugins.
Covers TTL manifests, port definitions, and worker extensions.
Read this when targeting LV2 hosts.

## Key Rules

- Provide `manifest.ttl` and plugin `.ttl`
- Define input/output audio ports clearly
- Use `worker` extension for background tasks

## See Also

- [registry/frameworks.toml](../../registry/frameworks.toml) → `formats.lv2`
"#;

/// `04-ui/slint.md`.
pub const SLINT: &'static str = r#"---
id: slint
group: ui
summary: Slint UI patterns for plugin editors — components, callbacks, host.
triggers: slint, editor UI, .slint, widget, plugin GUI
verify: editor logic off audio thread; param gestures via callbacks
source: global
copied_by: template
date: 2026-07-29
adapted: false
reason: "slint ui stack rules for audio plugins"
---

# Slint UI

**Summary:** UI patterns for Slint-based plugin editors.
Covers component hierarchy, data flow, and editor hosting.
Read this when using Slint for plugin GUIs.

## Key Rules

- Export `component` blocks from `.slint` files
- Keep editor logic separate from `process()`
- Use callbacks for parameter changes

## See Also

- [registry/frameworks.toml](../../registry/frameworks.toml) → `ui.slint`
"#;

/// `04-ui/egui.md`.
pub const EGUI: &'static str = r#"---
source: global
copied_by: template
date: 2026-07-29
adapted: false
reason: "egui ui stack rules for audio plugins"
---

# egui UI

**Summary:** UI patterns for egui-based plugin editors.
Covers immediate-mode layout, context, and frame loops.
Read this when using egui for plugin GUIs.

## Key Rules

- Build UI in the `update()` method
- Avoid blocking the audio thread
- Use `egui::Context` for repaint requests

## See Also

- [registry/frameworks.toml](../../registry/frameworks.toml) → `ui.egui`
"#;

/// `04-ui/iced.md`.
pub const ICED: &'static str = r#"---
source: global
copied_by: template
date: 2026-07-29
adapted: false
reason: "iced ui stack rules for audio plugins"
---

# Iced UI

**Summary:** UI patterns for Iced-based plugin editors.
Covers Elm architecture, messages, and subscriptions.
Read this when using Iced for plugin GUIs.

## Key Rules

- Separate `view()` from `update()`
- Use `Subscription` for host sync
- Keep widget state minimal

## See Also

- [registry/frameworks.toml](../../registry/frameworks.toml) → `ui.iced`
"#;

/// `04-ui/vizia.md` (no text for this pack is bundled).
pub const VIZIA: &'static str = "";

/// `05-migrations/nih-plug-to-nice-plug.md`.
pub const NIH_PLUG_TO_NICE_PLUG: &'static str = r#"---
source: global
copied_by: template
date: 2026-07-29
adapted: false
reason: "migration path from nih-plug to nice-plug"
---

# nih-plug → nice-plug Migration

**Summary:** Steps to migrate plugins from nih-plug to nice-plug.
Focus on params, editor adapters, and export macros.
Read this before editing legacy plugin code.

## Migration Steps

- Replace `nih_plug` imports with `nice_plug`
- Update `Params` derive and smoothing API
- Swap `nih_export_*` macros for `nice_plug` equivalents

## See Also

- [registry/frameworks.toml](../../registry/frameworks.toml) → `frameworks.nice-plug`
- [02-frameworks/framework-patterns.md](../02-frameworks/framework-patterns.md)
"#;

} // verus!
