use audiolabs_core::agent::{
    normalize_fm_list, parse_skill_frontmatter, plugin_slice, render_agal_md,
    render_agent_md, skill_index_entry, sort_index, truncate_line,
};
use audiolabs_core::findings::{Finding, Severity};
use audiolabs_core::{Audiolabs, Edge, MigrationSummary, Node};
use audiolabs_core::agent::parse_frontmatter_with_id;

fn graph(findings: Vec<Finding>) -> Audiolabs {
    Audiolabs {
        version: "0.0.0".into(),
        generated_at: "t".into(),
        project_root: ".".into(),
        project_name: "t".into(),
        used_frameworks: vec![],
        frameworks: vec![],
        nodes: vec![],
        edges: vec![],
        findings,
        findings_suppressed: 0,
        migration_summary: MigrationSummary { total_plugins: 0, total_legacy: 0, total_migrated: 0, migrations: vec![] },
        rules: vec![],
        delta: None,
    }
}

fn node(id: &str, name: &str, kind: &str) -> Node {
    Node {
        id: id.into(),
        name: name.into(),
        kind: kind.into(),
        description: None,
        version: Some("0.1.0".into()),
        path: id.into(),
        frameworks: vec![],
        migration_status: None,
        internal_deps: vec![],
        external_flags: vec![],
        dependency_names: vec![],
        dependency_details: vec![],
        ast_summary: None,
    }
}

#[test]
fn frontmatter_id_and_summary() {
    let text = "---\nid: slint-lx\ngroup: ui\nsource: workspace\nsummary: hello world skill\n---\n\n# Title\n";
    let fm = parse_skill_frontmatter(text, "04-ui/slint.md");
    assert_eq!(fm.id, "slint-lx");
    assert_eq!(fm.summary, "hello world skill");
    assert!(fm.triggers.is_none());
    assert!(fm.verify.is_none());
}

#[test]
fn frontmatter_triggers_and_verify() {
    let text = "---\nid: dsp-realtime\nsummary: RT rules\ntriggers: [process, realtime, \"audio callback\"]\nverify: review process() for alloc/lock\n---\n\n# DSP\n";
    let fm = parse_skill_frontmatter(text, "00-core/dsp-realtime.md");
    assert_eq!(fm.id, "dsp-realtime");
    assert_eq!(fm.triggers.as_deref(), Some("process, realtime, audio callback"));
    assert_eq!(fm.verify.as_deref(), Some("review process() for alloc/lock"));
}

#[test]
fn frontmatter_fallback_from_path() {
    let fm = parse_skill_frontmatter("# Only heading\n", "04-ui/slint.md");
    assert_eq!(fm.id, "slint");
    assert_eq!(fm.summary, "Only heading");
}

#[test]
fn agal_md_lists_skills_without_legacy_paths() {
    let md = render_agal_md(None, None, "agal");
    assert!(md.contains("# AGAL"));
    assert!(md.contains("00-core"));
    assert!(md.contains("04-ui"));
    assert!(!md.contains("10-lx"));
    assert!(!md.contains("90-project"));
    assert!(md.contains("Context budget"));
    assert!(md.contains("Task loadouts"));
    assert!(md.contains("Stack layers"));
    assert!(md.contains("[ATOM]"));
    assert!(md.contains("Disclosure"));
    assert!(md.contains("**L3**"));
    assert!(md.contains("**L0**"));
    assert!(md.contains("Equipped (on disk)"));
    assert!(md.contains("no `skills/` yet") || md.contains("Equipped"));
    assert!(md.contains("clap-validator validate"));
    assert!(md.contains("notes/_workspace.md"));
}

#[test]
fn agal_md_focus_strip_when_blocked() {
    let g = graph(vec![
        Finding::new(Severity::Error, "migration_legacy", "still on old editor")
            .with_path("plugins/x")
            .with_fix("migrate to new editor"),
        Finding::new(Severity::Warn, "large_param_surface", "many params"),
        Finding::new(Severity::Info, "tool_hint_clippy", "run clippy"),
    ]);
    let md = render_agal_md(Some(&g), None, "agal");
    assert!(md.contains("## Focus (health = **blocked**)"));
    assert!(md.contains("migration_legacy"));
    assert!(md.contains("large_param_surface"));
    assert!(!md.contains("tool_hint_clippy") || md.find("## Focus").is_some());
    let focus = md.split("## Focus").nth(1).and_then(|r| r.split("## ").next()).unwrap_or("");
    assert!(!focus.contains("tool_hint_clippy"));
}

#[test]
fn focus_strip_orders_errors_first() {
    let g = graph(vec![
        Finding::new(Severity::Warn, "w1", "first warning"),
        Finding::new(Severity::Error, "e1", "an error").with_path("plugins/x"),
    ]);
    let md = render_agal_md(Some(&g), None, "out");
    let e = md.find("- [error] **e1**: an error · `plugins/x`\n").unwrap();
    let w = md.find("- [warn] **w1**: first warning\n").unwrap();
    assert!(e < w);
    assert!(md.contains("output: `out/`"));
    assert!(md.contains("nodes: 0 · edges: 0 · findings: 2 (error=1 warn=1 info=0)"));
}

#[test]
fn agal_md_without_graph_header() {
    let md = render_agal_md(None, None, "agal");
    assert!(md.contains("project: **(unknown — run `agal .`)**  \ngenerated: `skills-sync`  \n"));
    assert!(md.contains("health: **n/a**"));
    assert!(!md.contains("## Focus"));
}

#[test]
fn equipped_lists_groups_from_index() {
    let mut idx = vec![];
    for (rel, text) in [("04-ui/slint.md", "# Slint\n"), ("00-core/dsp-realtime.md", "---\nid: rt\nsummary: rt\n---\n# RT\n"), ("README.md", "# r\n")] {
        if let Some(e) = skill_index_entry(rel, text) {
            idx.push(e);
        }
    }
    let idx = sort_index(idx);
    assert_eq!(idx.len(), 2);
    assert_eq!(idx[0].rel_path, "skills/00-core/dsp-realtime.md");
    let md = render_agal_md(None, Some(&idx), "agal");
    assert!(md.contains("**2** skill file(s) · groups: **core, ui**"));
    assert!(md.contains("- **rt** — rt · [`skills/00-core/dsp-realtime.md`](./skills/00-core/dsp-realtime.md)\n"));
    let empty = vec![];
    let md2 = render_agal_md(None, Some(&empty), "agal");
    assert!(md2.contains("_`skills/` empty_"));
}

#[test]
fn fm_list_normalizes_and_caps() {
    assert_eq!(normalize_fm_list("  ['a', \"b\" , ,c] ").as_deref(), Some("a, b, c"));
    assert_eq!(normalize_fm_list(" [] "), None);
    let long = "x".repeat(200);
    let r = normalize_fm_list(&long).unwrap();
    assert_eq!(r.len(), 160);
    assert!(r.ends_with("..."));
}

#[test]
fn long_summary_is_cut() {
    let text = format!("---\nsummary: {}\n---\n", "y".repeat(130));
    let fm = parse_skill_frontmatter(&text, "a.md");
    assert_eq!(fm.summary.chars().count(), 120);
    assert!(fm.summary.ends_with("..."));
    assert_eq!(fm.id, "a");
    let wide = format!("---\nsummary: {}\n---\n", "é".repeat(61));
    let fm = parse_skill_frontmatter(&wide, "00-core/x.md");
    assert_eq!(fm.id, "x");
    assert_eq!(fm.summary, "é".repeat(61));
    let longer = format!("---\nsummary: {}é{}\n---\n", "y".repeat(116), "z".repeat(10));
    let fm = parse_skill_frontmatter(&longer, "a.md");
    assert_eq!(fm.summary, format!("{}é...", "y".repeat(116)));
}

#[test]
fn truncate_line_marks_cut() {
    assert_eq!(truncate_line("abcdef", 3), "abc…");
    assert_eq!(truncate_line("abc", 3), "abc");
}

#[test]
fn agent_map_sections() {
    let mut g = graph(vec![Finding::new(Severity::Warn, "w", "msg").at_node(&node("plugins/p", "p", "plugin"))]);
    g.nodes.push(node("plugins/p", "p", "plugin"));
    g.nodes.push(node("crates/c", "c", "crate"));
    g.edges.push(Edge { from: "plugins/p".into(), to: "crates/c".into(), kind: "depends_on".into(), feature: None, note: Some("n".into()) });
    let md = render_agent_md(&g, None);
    assert!(md.starts_with("# agal agent summary\n"));
    assert!(md.contains("## plugins\n- **p** `plugins/p` fw=`` deps=[] \n"));
    assert!(md.contains("## crates\n- **c** `crates/c` deps=[] \n"));
    assert!(md.contains("## edges\n### depends_on\n- `p` → `c` — n\n"));
    assert!(md.contains("- [WRN] **w** `p`: msg · path=`plugins/p`\n"));
    assert!(md.contains("plugins: `p`\n\ncrates: `c`\n\n"));
    assert!(md.contains("_no skills synced yet"));
    assert!(md.ends_with("Human CLI cheatsheet: **`Cheatsheet.md`** in this folder.\n\n"));
}

#[test]
fn slice_picks_node_neighbors_edges_findings() {
    let mut g = graph(vec![
        Finding::new(Severity::Warn, "w", "m").at_node(&node("plugins/p", "p", "plugin")),
        Finding::new(Severity::Warn, "w", "m"),
    ]);
    g.nodes.push(node("plugins/p", "p", "plugin"));
    g.nodes.push(node("crates/c", "c", "crate"));
    g.nodes.push(node("crates/d", "d", "crate"));
    g.edges.push(Edge { from: "plugins/p".into(), to: "crates/c".into(), kind: "depends_on".into(), feature: None, note: None });
    g.edges.push(Edge { from: "crates/d".into(), to: "crates/c".into(), kind: "depends_on".into(), feature: None, note: None });
    let s = plugin_slice(&g, "p").unwrap();
    assert_eq!(s.plugin, 0);
    assert_eq!(s.edges, vec![0]);
    assert_eq!(s.neighbors, vec![1]);
    assert_eq!(s.findings, vec![0]);
    assert!(plugin_slice(&g, "zzz").is_none());
    assert_eq!(plugin_slice(&g, "plugins/p").unwrap().plugin, 0);
}

#[test]
fn frontmatter_with_an_explicit_fallback_id() {
    let text = "---\nsummary: Realtime rules\n---\n# Heading\n";
    let fm = parse_frontmatter_with_id(text, "given");
    assert_eq!(fm.id, "given");
    assert_eq!(fm.summary, "Realtime rules");
    let named = parse_frontmatter_with_id("---\nid: own\n---\n", "given");
    assert_eq!(named.id, "own");
    assert_eq!(named.summary, "(no summary)");
    assert_eq!(parse_skill_frontmatter("# T\n", "02-frameworks/framework-patterns.md").id, "framework-patterns");
}

#[test]
fn agal_md_equipped_lists_groups() {
    let entry = skill_index_entry("00-core/dsp-realtime.md", "---\nid: dsp-realtime\nsummary: rt\n---\n# RT\n").unwrap();
    let md = render_agal_md(None, Some(&vec![entry]), "agal");
    assert!(md.contains("Equipped (on disk)"));
    assert!(md.contains("skill file(s)"));
    assert!(md.contains("groups: **core**") || md.contains("**core**"), "expected core group in equipped: {md}");
}

#[test]
fn agent_map_delta_lists_no_info_findings() {
    let mut g = graph(vec![]);
    g.delta = Some(audiolabs_core::delta::GraphDelta {
        previous_generated_at: Some("t0".into()),
        previous_version: Some("0.0.0".into()),
        added_nodes: vec![],
        removed_nodes: vec![],
        changed_nodes: vec![],
        added_edges: vec![],
        removed_edges: vec![],
        new_findings: vec![
            Finding::new(Severity::Info, "tool_hint_clippy", "run clippy"),
            Finding::new(Severity::Warn, "large_param_surface", "many params"),
        ],
        resolved_findings: vec![],
        first_run: false,
    });
    let md = render_agent_md(&g, None);
    assert!(!md.contains("[INF]"));
    assert!(md.contains("- NEW [WRN] **large_param_surface**"));
    assert!(md.contains("+2 findings"));
}
