use audiolabs_core::findings::{Finding, Severity};
use audiolabs_core::notes::{
    compose, human_body_of, node_findings, note_body, note_file_name, render_auto_section, render_graph_atoms,
    render_index, sanitize_atom_detail, sanitize_filename, AUTO_END, AUTO_START, HUMAN_MARK, HUMAN_TEMPLATE,
    WORKSPACE_NOTE,
};
use audiolabs_core::{Audiolabs, Edge, MigrationSummary, Node};

fn node(id: &str, name: &str, kind: &str) -> Node {
    Node {
        id: id.into(),
        name: name.into(),
        kind: kind.into(),
        description: None,
        version: None,
        path: id.into(),
        frameworks: vec![],
        migration_status: None,
        internal_deps: vec![],
        external_flags: vec![],
        dependency_names: vec![],
        dependency_details: vec![],
        ast_summary: None,
    }
}

fn edge(from: &str, to: &str, kind: &str) -> Edge {
    Edge { from: from.into(), to: to.into(), kind: kind.into(), feature: None, note: None }
}

fn graph(nodes: Vec<Node>, edges: Vec<Edge>, findings: Vec<Finding>) -> Audiolabs {
    Audiolabs {
        version: "0.6.2".into(),
        generated_at: "2024-01-01T00:00:00Z".into(),
        project_root: ".".into(),
        project_name: "ws".into(),
        used_frameworks: vec![],
        frameworks: vec![],
        nodes,
        edges,
        findings,
        findings_suppressed: 0,
        migration_summary: MigrationSummary { total_plugins: 0, total_legacy: 0, total_migrated: 0, migrations: vec![] },
        rules: vec![],
        delta: None,
    }
}

#[test]
fn file_names_are_sanitized() {
    assert_eq!(sanitize_filename("aurum-slint"), "aurum-slint");
    assert_eq!(sanitize_filename("my crate/v2.0"), "my_crate_v2_0");
    assert_eq!(sanitize_filename("é_x"), "__x");
}

#[test]
fn atom_details_are_one_line() {
    assert_eq!(sanitize_atom_detail("  a |b\n\nc\r d  "), "a b c d");
    assert_eq!(sanitize_atom_detail(""), "");
    assert_eq!(sanitize_atom_detail("| |"), "");
}

#[test]
fn compose_without_human_uses_template() {
    let s = compose("# x\n", None);
    assert!(s.starts_with(AUTO_START));
    assert!(s.contains(&format!("# x\n{}\n\n{}\n\n", AUTO_END, HUMAN_MARK)));
    assert!(s.ends_with(HUMAN_TEMPLATE));
    let t = compose("# x", Some(""));
    assert!(t.contains(&format!("# x\n{}", AUTO_END)));
    assert!(t.ends_with(HUMAN_TEMPLATE));
}

#[test]
fn human_body_survives_regeneration() {
    let first = compose("# a\n", Some("my notes"));
    assert_eq!(human_body_of(&first).as_deref(), Some("my notes\n"));
    let second = compose("# b changed\n", human_body_of(&first).as_deref());
    assert_eq!(human_body_of(&second).as_deref(), Some("my notes\n"));
    assert!(second.contains("# b changed"));
}

#[test]
fn human_body_legacy_and_missing() {
    let legacy = format!("{}\nauto\n{}\n\n\nkept text\n", AUTO_START, AUTO_END);
    assert_eq!(human_body_of(&legacy).as_deref(), Some("kept text\n"));
    let empty = format!("{}\nauto\n{}\n\n", AUTO_START, AUTO_END);
    assert_eq!(human_body_of(&empty), None);
    assert_eq!(human_body_of("no markers here"), None);
}

#[test]
fn note_files_for_workspace_members() {
    assert_eq!(note_file_name(&node("plugins/a b", "a b", "plugin")).as_deref(), Some("a_b.md"));
    assert_eq!(note_file_name(&node("crates/c", "c", "crate")).as_deref(), Some("c.md"));
    assert_eq!(note_file_name(&node("tools/t", "t", "member")).as_deref(), Some("t.md"));
    assert_eq!(note_file_name(&node("x/y", "y", "other")), None);
}

#[test]
fn graph_atoms_cover_edges_and_findings() {
    let mut p = node("plugins/aether", "aether", "plugin");
    p.frameworks = vec!["truce".into()];
    p.migration_status = Some("legacy".into());
    p.internal_deps = vec!["crates/dsp".into()];
    let c = node("crates/dsp", "dsp", "crate");
    let f1 = Finding::new(Severity::Info, "info_code", "just info").at_node(&p);
    let f2 = Finding::new(Severity::Warn, "warn_code", "a | warning").at_node(&p).with_fix("do it");
    let f3 = Finding::new(Severity::Error, "err_code", "broken").at_node(&p);
    let g = graph(
        vec![p.clone(), c],
        vec![edge("plugins/aether", "crates/dsp", "depends_on"), edge("plugins/aether", "crates/ui", "uses_ui")],
        vec![f1, f2, f3],
    );
    let atoms = render_graph_atoms(&p, &g);
    assert!(atoms.starts_with("## Graph atoms (auto)\n\n"));
    assert!(atoms.contains("[ATOM] type=fact | detail=kind=plugin id=plugins/aether\n"));
    assert!(atoms.contains("[ATOM] type=fact | detail=frameworks=truce\n"));
    assert!(atoms.contains("[ATOM] type=constraint | detail=migration=legacy — migrate before feature work\n"));
    assert!(atoms.contains("[ATOM] type=fact | detail=uses_ui→ui\n"));
    assert!(atoms.contains("[ATOM] type=fact | detail=depends_on=dsp\n"));
    let err = atoms.find("[error] err_code: broken").unwrap();
    let warn = atoms.find("[warn] warn_code: a warning fix: do it").unwrap();
    assert!(err < warn);
    assert!(!atoms.contains("info_code"));
    assert!(atoms.ends_with("```\n\n"));
}

#[test]
fn graph_atoms_are_capped_at_twelve() {
    let mut p = node("plugins/x", "x", "plugin");
    let mut fs = vec![];
    for i in 0..20 {
        fs.push(Finding::new(Severity::Warn, &format!("w{}", i), "m").at_node(&p));
    }
    p.frameworks = vec!["a".into()];
    let g = graph(vec![p.clone()], vec![], fs);
    let atoms = render_graph_atoms(&p, &g);
    assert_eq!(atoms.matches("[ATOM]").count(), 12);
}

#[test]
fn auto_section_lists_sections() {
    let p = node("plugins/aether", "aether", "plugin");
    let c = node("crates/dsp", "dsp", "crate");
    let f = Finding::new(Severity::Warn, "code_a", "message a").at_node(&c).with_path("crates/dsp/src/lib.rs");
    let g = graph(vec![p, c.clone()], vec![edge("plugins/aether", "crates/dsp", "depends_on")], vec![f.clone()]);
    assert_eq!(node_findings(&g.findings, "crates/dsp").len(), 1);
    let s = render_auto_section(&c, &g);
    assert!(s.starts_with("# dsp\n\n> Auto-generated from workspace scan."));
    assert!(s.contains("| kind | `crate` |\n| path | `crates/dsp` |\n"));
    assert!(s.contains("## dependents (inbound)\n- `aether` --depends_on--> `dsp`\n"));
    assert!(s.contains("## findings\n- [warn] **code_a**: message a · `crates/dsp/src/lib.rs`\n"));
    assert!(s.ends_with("Escalate L0: `crates/dsp` in json / `agal --plugin dsp .`\n\n"));
}

#[test]
fn note_body_keeps_existing_human_text() {
    let p = node("plugins/aether", "aether", "plugin");
    let g = graph(vec![p.clone()], vec![], vec![]);
    let old = compose("# old auto\n", Some("## Intent\n\nreal notes\n"));
    let new_note = note_body(&p, &g, Some(&old));
    assert!(new_note.contains("# aether"));
    assert!(!new_note.contains("# old auto"));
    assert!(new_note.ends_with("## Intent\n\nreal notes\n"));
    let fresh = note_body(&p, &g, None);
    assert!(fresh.ends_with(HUMAN_TEMPLATE));
}

#[test]
fn index_lists_plugins_then_crates() {
    let mut p = node("plugins/aether", "aether", "plugin");
    p.migration_status = Some("migrated".into());
    let c = node("crates/dsp", "dsp", "crate");
    let m = node("tools/x", "x", "member");
    let g = graph(vec![c, p, m], vec![], vec![]);
    let s = render_index(&g);
    assert!(s.contains("## plugins\n\n- [aether](aether.md) — `plugins/aether` · migrated\n"));
    assert!(s.contains("\n## crates\n\n- [dsp](dsp.md) — `crates/dsp`\n"));
    assert!(s.ends_with("\n## members\n\n- [x](x.md) — `tools/x`\n"));
    let only = render_index(&graph(vec![node("crates/dsp", "dsp", "crate")], vec![], vec![]));
    assert!(!only.contains("## members"));
    assert!(WORKSPACE_NOTE.starts_with("# Workspace memory"));
}

#[test]
fn regenerating_a_regenerated_note_changes_nothing() {
    let auto = "# plugin\n- kind: plugin\n";
    for existing in ["", "stray text", "<!-- AGAL:AUTO-END -->\n\nold body", "x\n<!-- AGAL:HUMAN — edit below this line; preserved on regenerate -->\n\n\nmine"] {
        let once = compose(auto, human_body_of(existing).as_deref());
        let twice = compose(auto, human_body_of(&once).as_deref());
        assert_eq!(twice, once);
    }
    let fresh = compose(auto, None);
    assert!(fresh.ends_with(HUMAN_TEMPLATE));
    assert_eq!(compose(auto, human_body_of(&fresh).as_deref()), fresh);
}

#[test]
fn workspace_note_is_seeded_once() {
    assert_eq!(audiolabs_core::notes::workspace_note_seed(false), Some(WORKSPACE_NOTE));
    assert_eq!(audiolabs_core::notes::workspace_note_seed(true), None);
}

#[test]
fn a_node_note_never_takes_the_memory_or_index_file() {
    assert_eq!(note_file_name(&node("crates/_workspace", "_workspace", "crate")).as_deref(), Some("_workspace-node.md"));
    assert_eq!(note_file_name(&node("plugins/_index", "_index", "plugin")).as_deref(), Some("_index-node.md"));
    assert_eq!(note_file_name(&node("crates/core", "core", "crate")).as_deref(), Some("core.md"));
}
