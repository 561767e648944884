use audiolabs_core::delta::{compute, is_empty, render_md};
use audiolabs_core::findings::{Finding, Severity};
use audiolabs_core::{Audiolabs, Edge, MigrationSummary, Node};

fn empty_graph(stamp: &str) -> Audiolabs {
    Audiolabs {
        version: "0.4.0".into(),
        generated_at: stamp.into(),
        project_root: "/tmp".into(),
        project_name: "t".into(),
        used_frameworks: vec![],
        frameworks: vec![],
        nodes: vec![],
        edges: vec![],
        findings: vec![],
        findings_suppressed: 0,
        migration_summary: MigrationSummary {
            total_plugins: 0,
            total_legacy: 0,
            total_migrated: 0,
            migrations: vec![],
        },
        rules: vec![],
        delta: None,
    }
}

fn node(id: &str, name: &str) -> Node {
    Node {
        id: id.into(),
        name: name.into(),
        kind: "plugin".into(),
        description: None,
        version: Some("0.1.0".into()),
        path: id.into(),
        frameworks: vec![],
        migration_status: Some("migrated".into()),
        internal_deps: vec![],
        external_flags: vec![],
        dependency_names: vec![],
        dependency_details: vec![],
        ast_summary: None,
    }
}

fn edge(from: &str, to: &str, kind: &str) -> Edge {
    Edge { from: from.into(), to: to.into(), kind: kind.into(), feature: None, note: None }
}

#[test]
fn first_run_delta() {
    let curr = empty_graph("t1");
    let d = compute(None, &curr);
    assert!(d.first_run);
}

#[test]
fn detects_added_node_and_finding() {
    let prev = empty_graph("t0");
    let mut curr = empty_graph("t1");
    curr.nodes.push(node("plugins/a", "a"));
    curr.findings.push(Finding::new(Severity::Warn, "missing_version", "x"));
    let d = compute(Some(&prev), &curr);
    assert!(!d.first_run);
    assert_eq!(d.added_nodes, vec!["plugins/a".to_string()]);
    assert_eq!(d.new_findings.len(), 1);
    assert_eq!(d.new_findings[0].code, "missing_version");
}

#[test]
fn detects_resolved_finding() {
    let mut prev = empty_graph("t0");
    prev.findings.push(Finding::new(Severity::Error, "migration_legacy", "old").at_node(&node("plugins/a", "a")));
    let curr = empty_graph("t1");
    let d = compute(Some(&prev), &curr);
    assert_eq!(d.resolved_findings.len(), 1);
    assert_eq!(d.resolved_findings[0].code, "migration_legacy");
}

#[test]
fn self_delta_is_empty() {
    let mut g = empty_graph("t0");
    g.nodes.push(node("plugins/a", "a"));
    g.nodes.push(node("crates/b", "b"));
    g.edges.push(edge("plugins/a", "crates/b", "depends_on"));
    g.findings.push(Finding::new(Severity::Warn, "w", "warn"));
    let d = compute(Some(&g), &g);
    assert!(is_empty(&d));
    let md = render_md(&d);
    assert!(md.contains("_no structural changes._"));
}

#[test]
fn node_changes_list_version_and_deps() {
    let mut prev = empty_graph("t0");
    let mut curr = empty_graph("t1");
    let mut a = node("plugins/a", "a");
    a.internal_deps = vec!["crates/x".into()];
    prev.nodes.push(a.clone());
    a.version = Some("0.2.0".into());
    a.internal_deps = vec!["crates/y".into()];
    curr.nodes.push(a);
    let d = compute(Some(&prev), &curr);
    assert_eq!(d.changed_nodes.len(), 1);
    assert_eq!(d.changed_nodes[0].id, "plugins/a");
    assert_eq!(
        d.changed_nodes[0].changes,
        vec![
            "version: 0.1.0 → 0.2.0".to_string(),
            "deps+: [\"crates/y\"]".to_string(),
            "deps-: [\"crates/x\"]".to_string(),
        ]
    );
}

#[test]
fn edges_added_and_removed_in_key_order() {
    let mut prev = empty_graph("t0");
    let mut curr = empty_graph("t1");
    prev.edges.push(edge("a", "b", "uses_ui"));
    curr.edges.push(edge("c", "d", "ipc_peer"));
    curr.edges.push(edge("a", "b", "depends_on"));
    let d = compute(Some(&prev), &curr);
    assert_eq!(d.added_edges, vec!["depends_on|a|b".to_string(), "ipc_peer|c|d".to_string()]);
    assert_eq!(d.removed_edges, vec!["uses_ui|a|b".to_string()]);
    let md = render_md(&d);
    assert!(md.contains("## added edges (2)\n- `depends_on → a → b`\n- `ipc_peer → c → d`\n"));
    assert!(md.contains("## removed edges (1)\n"));
    assert!(md.starts_with("# agal delta\n\n**Summary:** Structural changes"));
    assert!(md.contains("previous: `t0` (v0.4.0)\n"));
}

#[test]
fn first_run_markdown() {
    let d = compute(None, &empty_graph("t1"));
    let md = render_md(&d);
    assert!(md.contains("_first run — no previous graph to compare._"));
    assert!(!is_empty(&d));
}

#[test]
fn new_and_resolved_never_share_a_key() {
    let mut prev = empty_graph("t0");
    let mut curr = empty_graph("t1");
    prev.findings.push(Finding::new(Severity::Warn, "a", "x"));
    prev.findings.push(Finding::new(Severity::Warn, "b", "x"));
    curr.findings.push(Finding::new(Severity::Warn, "b", "y"));
    curr.findings.push(Finding::new(Severity::Error, "a", "x"));
    let d = compute(Some(&prev), &curr);
    assert_eq!(d.new_findings.len(), 1);
    assert_eq!(d.resolved_findings.len(), 1);
    assert_eq!(d.new_findings[0].severity, Severity::Error);
    assert_eq!(d.resolved_findings[0].severity, Severity::Warn);
    assert_eq!(d.resolved_findings[0].code, "a");
}

#[test]
fn reversed_comparison_swaps_the_delta() {
    let mut a = empty_graph("t0");
    let mut b = empty_graph("t1");
    a.nodes.push(node("plugins/a", "a"));
    b.nodes.push(node("crates/b", "b"));
    a.edges.push(edge("a", "b", "uses_ui"));
    b.edges.push(edge("c", "d", "ipc_peer"));
    a.findings.push(Finding::new(Severity::Warn, "old", "x"));
    b.findings.push(Finding::new(Severity::Error, "new", "y"));
    let forward = compute(Some(&a), &b);
    let backward = compute(Some(&b), &a);
    assert_eq!(forward.added_nodes, vec!["crates/b".to_string()]);
    assert_eq!(forward.added_nodes, backward.removed_nodes);
    assert_eq!(forward.removed_nodes, backward.added_nodes);
    assert_eq!(forward.added_edges, backward.removed_edges);
    assert_eq!(forward.removed_edges, backward.added_edges);
    assert_eq!(forward.new_findings, backward.resolved_findings);
    assert_eq!(forward.resolved_findings, backward.new_findings);
    assert_eq!(forward.new_findings[0].code, "new");
}
