//! External tool hints (Clippy, clap-validator, optional symbol tools).
//!
//! Tools are never run: which of them are on `PATH` is looked up outside and
//! handed in; the library turns that into info findings and the doctor report.
use vstd::prelude::*;

use crate::findings::{fviews, lemma_fviews_push, node_finding, Finding, FindingView, Severity};
use crate::text::{assoc_get, cat2, cat3, clone_opt, has_sub, lookup, opt_view, owned, push_str, strs, upper};

verus! {

/// Result of probing common audio/Rust quality tools.
#[derive(Debug, Clone)]
pub struct ToolStatus {
    pub clippy: ToolProbe,
    pub clap_validator: ToolProbe,
    /// Optional local symbol / call-graph tools (never required).
    pub symbol_tools: Vec<ToolProbe>,
}

/// One tool: its binary name and where it was found on `PATH`.
#[derive(Debug, Clone)]
pub struct ToolProbe {
    pub name: &'static str,
    pub found: bool,
    pub path: Option<String>,
}

/// Binaries recognized as optional code-intelligence tools.
pub open spec fn optional_symbol_tools_spec() -> Seq<Seq<char>> {
    seq!["codegraph"@, "codebase-memory-mcp"@, "graphify"@]
}

/// Binaries recognized as optional code-intelligence tools.
pub fn optional_symbol_tools() -> (v: Vec<&'static str>)
    ensures
        v@.map_values(|s: &'static str| s@) == optional_symbol_tools_spec(),
{
    let v = vec!["codegraph", "codebase-memory-mcp", "graphify"];
    assert(v@.map_values(|s: &'static str| s@) =~= optional_symbol_tools_spec());
    v
}

/// Every binary the probe looks up: `cargo-clippy`, `clap-validator`, then the
/// optional symbol tools.
pub fn probed_tool_names() -> (v: Vec<&'static str>)
    ensures
        v@.map_values(|s: &'static str| s@) == seq!["cargo-clippy"@, "clap-validator"@] + optional_symbol_tools_spec(),
{
    let v = vec!["cargo-clippy", "clap-validator", "codegraph", "codebase-memory-mcp", "graphify"];
    assert(v@.map_values(|s: &'static str| s@) =~= seq!["cargo-clippy"@, "clap-validator"@] + optional_symbol_tools_spec());
    v
}

/// The probe of `name` given the binaries located on `PATH` (name → path).
pub open spec fn probe_of(name: Seq<char>, located: Seq<(String, String)>, p: ToolProbe) -> bool {
    p.name@ == name && p.found == (lookup(located, name) is Some) && opt_view(p.path) == match lookup(located, name) {
        Some(x) => Some(x@),
        None => None,
    }
}

impl ToolProbe {
    /// Probe of `name` from the located binaries.
    pub fn probe(name: &'static str, located: &Vec<(String, String)>) -> (p: ToolProbe)
        ensures
            probe_of(name@, located@, p),
    {
        let path = match assoc_get(located, name) {
            Some(x) => Some(x.clone()),
            None => None,
        };
        ToolProbe { name, found: path.is_some(), path }
    }
}

/// Status of `cargo-clippy`, `clap-validator` and the optional symbol tools,
/// given the binaries found on `PATH` (name → path).
pub fn probe_tools(located: &Vec<(String, String)>) -> (s: ToolStatus)
    ensures
        probe_of("cargo-clippy"@, located@, s.clippy),
        probe_of("clap-validator"@, located@, s.clap_validator),
        s.symbol_tools@.len() == optional_symbol_tools_spec().len(),
        forall|i: int| 0 <= i < s.symbol_tools@.len() ==> probe_of(optional_symbol_tools_spec()[i], located@, #[trigger] s.symbol_tools@[i]),
{
    let names = optional_symbol_tools();
    let mut symbol_tools: Vec<ToolProbe> = Vec::new();
    let mut i: usize = 0;
    while i < names.len()
        invariant
            i <= names@.len(),
            names@.map_values(|s: &'static str| s@) == optional_symbol_tools_spec(),
            symbol_tools@.len() == i,
            forall|j: int| 0 <= j < i ==> probe_of(optional_symbol_tools_spec()[j], located@, #[trigger] symbol_tools@[j]),
        decreases names@.len() - i,
    {
        assert(names@.map_values(|s: &'static str| s@)[i as int] == names@[i as int]@);
        symbol_tools.push(ToolProbe::probe(names[i], located));
        i = i + 1;
    }
    ToolStatus {
        clippy: ToolProbe::probe("cargo-clippy", located),
        clap_validator: ToolProbe::probe("clap-validator", located),
        symbol_tools,
    }
}

/// The plugin exports CLAP: a detected format whose ASCII upper-casing
/// contains `CLAP`, or the `clap` / `truce` framework.
pub open spec fn exports_clap(n: crate::Node) -> bool {
    (match n.ast_summary {
        Some(a) => exists|i: int| 0 <= i < a.plugin_formats@.len() && has_sub(upper(a.plugin_formats@[i]@), "CLAP"@),
        None => false,
    }) || strs(n.frameworks@).contains("clap"@) || strs(n.frameworks@).contains("truce"@)
}

fn exports_clap_exec(n: &crate::Node) -> (r: bool)
    ensures
        r == exports_clap(*n),
{
    let by_format = match &n.ast_summary {
        Some(a) => {
            let mut found = false;
            let mut i: usize = 0;
            while i < a.plugin_formats.len()
                invariant
                    i <= a.plugin_formats@.len(),
                    found == exists|j: int| 0 <= j < i && has_sub(upper(a.plugin_formats@[j]@), "CLAP"@),
                decreases a.plugin_formats@.len() - i,
            {
                let u = crate::text::to_ascii_upper(a.plugin_formats[i].as_str());
                if crate::text::contains_str(u.as_str(), "CLAP") {
                    found = true;
                }
                i = i + 1;
            }
            found
        },
        None => false,
    };
    by_format || crate::text::set_contains(&n.frameworks, "clap") || crate::text::set_contains(&n.frameworks, "truce")
}

/// The workspace-level Clippy hint.
pub open spec fn clippy_hint(found: bool) -> FindingView {
    (Severity::Info, "tool_hint_clippy"@, None, if found {
        "run Clippy on the workspace before shipping (static lint; not a substitute for graph findings)"@
    } else {
        "Clippy not found on PATH — install via rustup, then lint the workspace"@
    }, Some("Cargo.toml"@), Some(if found {
        "cargo clippy --workspace --all-targets -- -D warnings"@
    } else {
        "install rustup component: `rustup component add clippy`, then `cargo clippy --workspace --all-targets -- -D warnings`"@
    }))
}

/// The clap-validator hint for one CLAP plugin.
pub open spec fn clap_hint(n: crate::Node, found: bool) -> FindingView {
    if found {
        node_finding(n, Severity::Info, "tool_hint_clap_validator"@,
            n.name@ + " exports CLAP — validate the **built** binary with clap-validator after compile"@, None,
            Some("after build: clap-validator validate path/to/"@ + n.name@ + ".clap  (or the host-exported .clap from your install step)"@))
    } else {
        node_finding(n, Severity::Info, "tool_hint_clap_validator"@,
            n.name@ + " exports CLAP — clap-validator not on PATH; install to validate built plugins"@, None,
            Some("install clap-validator (https://github.com/free-audio/clap-validator), then `clap-validator validate path/to/plugin.clap`"@))
    }
}

/// Clap hints for the CLAP-exporting plugins among `ns`, in order.
pub open spec fn clap_hints(ns: Seq<crate::Node>, found: bool) -> Seq<FindingView>
    decreases ns.len(),
{
    if ns.len() == 0 {
        seq![]
    } else if ns.last().kind@ == "plugin"@ && exports_clap(ns.last()) {
        clap_hints(ns.drop_last(), found).push(clap_hint(ns.last(), found))
    } else {
        clap_hints(ns.drop_last(), found)
    }
}

/// All tool hints: one Clippy hint, then one clap-validator hint per CLAP plugin.
pub open spec fn hints_of(nodes: Seq<crate::Node>, status: ToolStatus) -> Seq<FindingView> {
    seq![clippy_hint(status.clippy.found)] + clap_hints(nodes, status.clap_validator.found)
}

/// Append the info hints (never error or warn) for the given tool status.
pub fn append_hints(nodes: &Vec<crate::Node>, out: &mut Vec<Finding>, status: &ToolStatus)
    ensures
        fviews(final(out)@) == fviews(old(out)@) + hints_of(nodes@, *status),
{
    let ghost o0 = fviews(out@);
    let clippy_fix = if status.clippy.found {
        "cargo clippy --workspace --all-targets -- -D warnings"
    } else {
        "install rustup component: `rustup component add clippy`, then `cargo clippy --workspace --all-targets -- -D warnings`"
    };
    let clippy_msg = if status.clippy.found {
        "run Clippy on the workspace before shipping (static lint; not a substitute for graph findings)"
    } else {
        "Clippy not found on PATH — install via rustup, then lint the workspace"
    };
    let f = Finding::new(Severity::Info, "tool_hint_clippy", clippy_msg).with_path("Cargo.toml").with_fix(clippy_fix);
    proof {
        lemma_fviews_push(out@, f);
    }
    out.push(f);
    let ghost o1 = fviews(out@);
    assert(o1 == o0 + seq![clippy_hint(status.clippy.found)]);
    let mut i: usize = 0;
    while i < nodes.len()
        invariant
            i <= nodes@.len(),
            fviews(out@) == o1 + clap_hints(nodes@.take(i as int), status.clap_validator.found),
        decreases nodes@.len() - i,
    {
        let n = &nodes[i];
        proof {
            assert(nodes@.take(i + 1).drop_last() =~= nodes@.take(i as int));
            assert(nodes@.take(i + 1).last() == *n);
        }
        if crate::text::str_eq(n.kind.as_str(), "plugin") && exports_clap_exec(n) {
            let f = if status.clap_validator.found {
                let msg = cat2(n.name.as_str(), " exports CLAP — validate the **built** binary with clap-validator after compile");
                let fix = cat3("after build: clap-validator validate path/to/", n.name.as_str(), ".clap  (or the host-exported .clap from your install step)");
                Finding::new(Severity::Info, "tool_hint_clap_validator", msg.as_str()).at_node(n).with_fix(fix.as_str())
            } else {
                let msg = cat2(n.name.as_str(), " exports CLAP — clap-validator not on PATH; install to validate built plugins");
                Finding::new(Severity::Info, "tool_hint_clap_validator", msg.as_str()).at_node(n).with_fix(
                    "install clap-validator (https://github.com/free-audio/clap-validator), then `clap-validator validate path/to/plugin.clap`",
                )
            };
            proof {
                lemma_fviews_push(out@, f);
            }
            out.push(f);
        }
        assert(fviews(out@) =~= o1 + clap_hints(nodes@.take(i + 1), status.clap_validator.found));
        i = i + 1;
    }
    assert(nodes@.take(nodes@.len() as int) =~= nodes@);
    assert(fviews(out@) =~= o0 + hints_of(nodes@, *status));
}

// ---------------------------------------------------------------------------
// Doctor report
// ---------------------------------------------------------------------------

/// Intro of the optional-tools section.
pub const DOCTOR_SYMBOL_INTRO: &'static str = "\n## optional symbol / call-graph tools\n\nagal is the **structure** layer (map, health, notes, skills).  \nThese tools answer callers / impact / symbols — use when needed, not as a substitute for `AGAL.md`.\n\n";

/// Shown when no optional symbol tool was found.
pub const DOCTOR_NONE_FOUND: &'static str = "\n_None found — fine. Install only if you want local call-graph / symbol queries (e.g. [codegraph](https://github.com/colbymchenry/codegraph), [codebase-memory-mcp](https://github.com/DeusData/codebase-memory-mcp))._\n\n";

/// Closing note of the report.
pub const DOCTOR_NOTE: &'static str = "## note\n**agal** = structure (migration, params, IPC, health).  \n**Clippy** = Rust lints.  \n**clap-validator** = CLAP ABI/spec on the **binary**.  \n**codegraph / codebase-memory / …** = optional symbols & impact (not agal).  \nClippy + clap-validator hints appear as **info** findings on generate; symbol tools are doctor-only.\n\n";

/// The path shown for a found tool (`?` without one).
pub open spec fn path_or_q(p: ToolProbe) -> Seq<char> {
    match p.path {
        Some(x) => x@,
        None => "?"@,
    }
}

/// A required tool's line.
pub open spec fn required_line(p: ToolProbe) -> Seq<char> {
    if p.found {
        "- **"@ + p.name@ + "**: ok — `"@ + path_or_q(p) + "`\n"@
    } else {
        "- **"@ + p.name@ + "**: missing on PATH\n"@
    }
}

/// An optional tool's line.
pub open spec fn optional_line(p: ToolProbe) -> Seq<char> {
    if p.found {
        "- **"@ + p.name@ + "**: found — `"@ + path_or_q(p) + "`\n"@
    } else {
        "- **"@ + p.name@ + "**: not on PATH\n"@
    }
}

pub open spec fn optional_lines(ps: Seq<ToolProbe>) -> Seq<char>
    decreases ps.len(),
{
    if ps.len() == 0 {
        Seq::empty()
    } else {
        optional_lines(ps.drop_last()) + optional_line(ps.last())
    }
}

/// Validator lines for the CLAP plugins among `ns`.
pub open spec fn validator_lines(ns: Seq<crate::Node>) -> Seq<char>
    decreases ns.len(),
{
    if ns.len() == 0 {
        Seq::empty()
    } else {
        let n = ns.last();
        validator_lines(ns.drop_last()) + if n.kind@ == "plugin"@ && exports_clap(n) {
            "- **"@ + n.name@ + "** (`"@ + n.path@ + "`): `clap-validator validate path/to/"@ + n.name@ + ".clap`\n"@
        } else {
            Seq::empty()
        }
    }
}

/// Some node is a CLAP plugin.
pub open spec fn any_clap_plugin(ns: Seq<crate::Node>) -> bool {
    exists|i: int| 0 <= i < ns.len() && (#[trigger] ns[i]).kind@ == "plugin"@ && exports_clap(ns[i])
}

/// Some optional tool was found.
pub open spec fn any_found(ps: Seq<ToolProbe>) -> bool {
    exists|i: int| 0 <= i < ps.len() && (#[trigger] ps[i]).found
}

/// The doctor report.
pub open spec fn doctor_report(root: Seq<char>, nodes: Seq<crate::Node>, st: ToolStatus) -> Seq<char> {
    "# agal doctor\n\nproject: `"@ + root + "`\n\n## external tools (required quality stack)\n\n"@ + required_line(st.clippy)
        + required_line(st.clap_validator) + DOCTOR_SYMBOL_INTRO@ + optional_lines(st.symbol_tools@) + (if any_found(
        st.symbol_tools@,
    ) {
        "\n"@
    } else {
        DOCTOR_NONE_FOUND@
    }) + "\n## recommended commands\n\n### Clippy (workspace lint)\n\n"@ + (if st.clippy.found {
        "```bash\ncargo clippy --workspace --all-targets -- -D warnings\n```\n\n"@
    } else {
        "```bash\nrustup component add clippy\ncargo clippy --workspace --all-targets -- -D warnings\n```\n\n"@
    }) + "### clap-validator (after you **build** the plugin)\n\n"@ + (if !any_clap_plugin(nodes) {
        "_no CLAP plugins detected in graph_\n\n"@
    } else {
        (if !st.clap_validator.found {
            "Install: [clap-validator](https://github.com/free-audio/clap-validator) and put it on PATH.\n\n"@
        } else {
            Seq::empty()
        }) + "agal does **not** run the validator (needs a built `.clap`, not sources).\n\n"@ + validator_lines(nodes)
            + "\n"@
    }) + DOCTOR_NOTE@
}

fn push_probe_line(s: &mut String, p: &ToolProbe, required: bool)
    ensures
        final(s)@ == old(s)@ + if required {
            required_line(*p)
        } else {
            optional_line(*p)
        },
{
    push_str(s, "- **");
    push_str(s, p.name);
    if p.found {
        push_str(s, if required { "**: ok — `" } else { "**: found — `" });
        match &p.path {
            Some(x) => push_str(s, x.as_str()),
            None => push_str(s, "?"),
        }
        push_str(s, "`\n");
    } else {
        push_str(s, if required { "**: missing on PATH\n" } else { "**: not on PATH\n" });
    }
}

/// Human-readable checklist for `agal doctor`: required tools, optional
/// symbol tools, recommended commands, CLAP validation per plugin.
pub fn render_doctor(project_root: &str, nodes: &Vec<crate::Node>, status: &ToolStatus) -> (s: String)
    ensures
        s@ == doctor_report(project_root@, nodes@, *status),
{
    let mut s = owned("# agal doctor\n\nproject: `");
    push_str(&mut s, project_root);
    push_str(&mut s, "`\n\n## external tools (required quality stack)\n\n");
    push_probe_line(&mut s, &status.clippy, true);
    push_probe_line(&mut s, &status.clap_validator, true);
    push_str(&mut s, DOCTOR_SYMBOL_INTRO);
    let ghost s1 = s@;
    let tools = &status.symbol_tools;
    let mut any = false;
    let mut i: usize = 0;
    while i < tools.len()
        invariant
            i <= tools@.len(),
            s@ == s1 + optional_lines(tools@.take(i as int)),
            any == exists|j: int| 0 <= j < i && (#[trigger] tools@[j]).found,
        decreases tools@.len() - i,
    {
        assert(tools@.take(i + 1).drop_last() =~= tools@.take(i as int));
        push_probe_line(&mut s, &tools[i], false);
        if tools[i].found {
            any = true;
        }
        i = i + 1;
    }
    assert(tools@.take(tools@.len() as int) =~= tools@);
    if any {
        push_str(&mut s, "\n");
    } else {
        push_str(&mut s, DOCTOR_NONE_FOUND);
    }
    push_str(&mut s, "\n## recommended commands\n\n### Clippy (workspace lint)\n\n");
    if status.clippy.found {
        push_str(&mut s, "```bash\ncargo clippy --workspace --all-targets -- -D warnings\n```\n\n");
    } else {
        push_str(&mut s, "```bash\nrustup component add clippy\ncargo clippy --workspace --all-targets -- -D warnings\n```\n\n");
    }
    push_str(&mut s, "### clap-validator (after you **build** the plugin)\n\n");
    let ghost s2 = s@;
    let mut seen_clap = false;
    let mut lines = String::new();
    let mut k: usize = 0;
    while k < nodes.len()
        invariant
            k <= nodes@.len(),
            lines@ == validator_lines(nodes@.take(k as int)),
            seen_clap == exists|j: int| 0 <= j < k && (#[trigger] nodes@[j]).kind@ == "plugin"@ && exports_clap(nodes@[j]),
        decreases nodes@.len() - k,
    {
        assert(nodes@.take(k + 1).drop_last() =~= nodes@.take(k as int));
        assert(nodes@.take(k + 1).last() == nodes@[k as int]);
        let n = &nodes[k];
        if crate::text::str_eq(n.kind.as_str(), "plugin") && exports_clap_exec(n) {
            seen_clap = true;
            push_str(&mut lines, "- **");
            push_str(&mut lines, n.name.as_str());
            push_str(&mut lines, "** (`");
            push_str(&mut lines, n.path.as_str());
            push_str(&mut lines, "`): `clap-validator validate path/to/");
            push_str(&mut lines, n.name.as_str());
            push_str(&mut lines, ".clap`\n");
        }
        k = k + 1;
    }
    assert(nodes@.take(nodes@.len() as int) =~= nodes@);
    if !seen_clap {
        push_str(&mut s, "_no CLAP plugins detected in graph_\n\n");
    } else {
        if !status.clap_validator.found {
            push_str(&mut s, "Install: [clap-validator](https://github.com/free-audio/clap-validator) and put it on PATH.\n\n");
        }
        push_str(&mut s, "agal does **not** run the validator (needs a built `.clap`, not sources).\n\n");
        push_str(&mut s, lines.as_str());
        push_str(&mut s, "\n");
    }
    push_str(&mut s, DOCTOR_NOTE);
    s
}

proof fn lemma_clap_hints_info(ns: Seq<crate::Node>, found: bool)
    ensures
        forall|i: int| 0 <= i < clap_hints(ns, found).len() ==> (#[trigger] clap_hints(ns, found)[i]).0 == Severity::Info,
    decreases ns.len(),
{
    if ns.len() > 0 {
        lemma_clap_hints_info(ns.drop_last(), found);
    }
}

/// Tool hints never move the health gate: appending them to any findings
/// leaves the health of those findings as it was (they are all info).
pub proof fn lemma_hints_keep_health(fs: Seq<FindingView>, nodes: Seq<crate::Node>, status: ToolStatus)
    ensures
        crate::findings::health_of(fs + hints_of(nodes, status)) == crate::findings::health_of(fs),
{
    lemma_clap_hints_info(nodes, status.clap_validator.found);
    let h = hints_of(nodes, status);
    let all = fs + h;
    assert forall|i: int| 0 <= i < h.len() implies (#[trigger] h[i]).0 == Severity::Info by {
        if i > 0 {
            assert(h[i] == clap_hints(nodes, status.clap_validator.found)[i - 1]);
        }
    }
    assert forall|s: Severity| s != Severity::Info implies (crate::findings::any_severity(all, s)
        <==> crate::findings::any_severity(fs, s)) by {
        if crate::findings::any_severity(all, s) {
            let i = choose|i: int| 0 <= i < all.len() && all[i].0 == s;
            if i >= fs.len() {
                assert(all[i] == h[i - fs.len()]);
            } else {
                assert(all[i] == fs[i]);
            }
        }
        if crate::findings::any_severity(fs, s) {
            let i = choose|i: int| 0 <= i < fs.len() && fs[i].0 == s;
            assert(all[i] == fs[i]);
        }
    }
    assert(crate::findings::any_severity(all, Severity::Error) == crate::findings::any_severity(fs, Severity::Error));
    assert(crate::findings::any_severity(all, Severity::Warn) == crate::findings::any_severity(fs, Severity::Warn));
}

} // verus!
