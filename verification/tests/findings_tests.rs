use audiolabs_core::config::SuppressRule;
use audiolabs_core::findings::{apply_suppressions, count_by_severity, finding_key, health, Finding, Health, Severity};
use audiolabs_core::findings::{analyze, MemberCheck, WorkspaceLayout};
use audiolabs_core::tool_hints::{ToolProbe, ToolStatus};
use audiolabs_core::Node;

#[test]
fn health_gate_ranks_error_over_warn() {
    assert_eq!(health(&vec![]), Health::Okay);
    let w = Finding::new(Severity::Warn, "w", "warn");
    assert_eq!(health(&vec![w.clone()]), Health::Degraded);
    let e = Finding::new(Severity::Error, "e", "err");
    assert_eq!(health(&vec![w, e]), Health::Blocked);
}

#[test]
fn suppress_by_code_and_node_name() {
    let mut f = Finding::new(Severity::Info, "large_param_surface", "many");
    f.node = Some("plugins/aurum-slint".into());
    f.path = Some("plugins/aurum-slint".into());
    let other = Finding::new(Severity::Info, "large_param_surface", "many2");
    let mut other = other;
    other.node = Some("plugins/meridian".into());

    let rules = vec![SuppressRule {
        code: "large_param_surface".into(),
        node: Some("aurum-slint".into()),
        reason: Some("intentional".into()),
    }];
    let (out, n) = apply_suppressions(vec![f, other.clone()], &rules);
    assert_eq!(out.len(), 1);
    assert_eq!(n, 1);
    assert_eq!(out[0].node.as_deref(), Some("plugins/meridian"));

    let (all, n_all) = apply_suppressions(
        vec![other],
        &vec![SuppressRule { code: "large_param_surface".into(), node: None, reason: None }],
    );
    assert!(all.is_empty());
    assert_eq!(n_all, 1);

    let (noop, n0) = apply_suppressions(vec![Finding::new(Severity::Info, "x", "y")], &vec![]);
    assert_eq!(noop.len(), 1);
    assert_eq!(n0, 0);
}

#[test]
fn finding_key_joins_severity_code_node() {
    let f = Finding::new(Severity::Warn, "c", "m");
    assert_eq!(finding_key(&f), "warn|c|");
    let mut g = f.clone();
    g.node = Some("plugins/x".into());
    assert_eq!(finding_key(&g), "warn|c|plugins/x");
}

#[test]
fn counts_only_present_severities() {
    let m = count_by_severity(&vec![
        Finding::new(Severity::Warn, "a", "m"),
        Finding::new(Severity::Warn, "b", "m"),
        Finding::new(Severity::Info, "c", "m"),
    ]);
    assert_eq!(m, vec![("info".to_string(), 1), ("warn".to_string(), 2)]);
}

#[test]
fn suppressing_twice_mutes_nothing_more() {
    let rules = vec![SuppressRule { code: "noisy".into(), node: None, reason: None }];
    let fs = vec![
        Finding::new(Severity::Warn, "noisy", "a"),
        Finding::new(Severity::Error, "kept", "b"),
        Finding::new(Severity::Info, "noisy", "c"),
    ];
    let (once, n1) = apply_suppressions(fs, &rules);
    assert_eq!(n1, 2);
    let (twice, n2) = apply_suppressions(once.clone(), &rules);
    assert_eq!(n2, 0);
    assert_eq!(twice, once);
    assert_eq!(twice[0].code, "kept");
}

#[test]
fn analysis_lists_errors_then_warnings_then_info() {
    let lone = Node {
        id: "crates/lone".into(),
        name: "lone".into(),
        kind: "crate".into(),
        description: None,
        version: Some("0.1.0".into()),
        path: "crates/lone".into(),
        frameworks: vec![],
        migration_status: None,
        internal_deps: vec![],
        external_flags: vec![],
        dependency_names: vec![],
        dependency_details: vec![],
        ast_summary: None,
    };
    let layout = WorkspaceLayout {
        members: vec![MemberCheck { pattern: Some("crates/gone".into()), exists: false }],
        package_dirs: vec![("plugins".into(), "plugins/stray".into())],
    };
    let tools = ToolStatus {
        clippy: ToolProbe { name: "cargo-clippy", found: false, path: None },
        clap_validator: ToolProbe { name: "clap-validator", found: false, path: None },
        symbol_tools: vec![],
    };
    let out = analyze(&layout, &vec![lone], &vec![], &vec![], &tools);
    let ranks: Vec<u8> = out
        .iter()
        .map(|f| match f.severity {
            Severity::Error => 0,
            Severity::Warn => 1,
            Severity::Info => 2,
        })
        .collect();
    assert!(ranks.windows(2).all(|w| w[0] <= w[1]));
    assert_eq!(out[0].code, "workspace_member_missing");
    assert!(out.iter().any(|f| f.code == "tool_hint_clippy"));
    assert_eq!(out.last().unwrap().severity, Severity::Info);
}

#[test]
fn a_rule_names_a_node_by_id_short_id_or_path_not_by_suffix() {
    let mut f = Finding::new(Severity::Info, "large_param_surface", "many");
    f.node = Some("plugins/aurum-slint".into());
    let rule = |node: &str| vec![SuppressRule { code: "large_param_surface".into(), node: Some(node.into()), reason: None }];
    let (kept, n) = apply_suppressions(vec![f.clone()], &rule("slint"));
    assert_eq!(kept.len(), 1);
    assert_eq!(n, 0);
    for name in ["aurum-slint", "plugins/aurum-slint"] {
        let (kept, n) = apply_suppressions(vec![f.clone()], &rule(name));
        assert!(kept.is_empty());
        assert_eq!(n, 1);
    }
}
