use audiolabs_core::ast::AstSummary;
use audiolabs_core::tool_hints::{append_hints, optional_symbol_tools, probe_tools, render_doctor, ToolProbe, ToolStatus};
use audiolabs_core::Node;
use audiolabs_core::findings::{health, Finding, Health, Severity};

fn status(clippy: bool, clap: bool) -> ToolStatus {
    ToolStatus {
        clippy: ToolProbe { name: "cargo-clippy", found: clippy, path: if clippy { Some("/bin/cargo-clippy".into()) } else { None } },
        clap_validator: ToolProbe { name: "clap-validator", found: clap, path: None },
        symbol_tools: vec![ToolProbe { name: "codegraph", found: false, path: None }],
    }
}

#[test]
fn probe_does_not_panic() {
    let s = probe_tools(&vec![]);
    assert_eq!(s.clippy.name, "cargo-clippy");
    assert_eq!(s.clap_validator.name, "clap-validator");
    assert_eq!(s.symbol_tools.len(), optional_symbol_tools().len());
    assert!(s.symbol_tools.iter().any(|p| p.name == "codegraph"));
}

#[test]
fn probe_reports_located_paths() {
    let s = probe_tools(&vec![("codegraph".to_string(), "/usr/bin/codegraph".to_string())]);
    assert!(!s.clippy.found);
    let cg = s.symbol_tools.iter().find(|p| p.name == "codegraph").unwrap();
    assert!(cg.found);
    assert_eq!(cg.path.as_deref(), Some("/usr/bin/codegraph"));
}

#[test]
fn doctor_mentions_symbol_tools_section() {
    let report = render_doctor(".", &vec![], &status(false, false));
    assert!(report.contains("optional symbol"));
    assert!(report.contains("codegraph"));
    assert!(report.contains("not on PATH"));
}

#[test]
fn doctor_lists_found_tools_and_clap_plugins() {
    let mut ast = AstSummary::default();
    ast.plugin_formats = vec!["CLAP".into()];
    let n = Node {
        id: "plugins/demo".into(),
        name: "demo".into(),
        kind: "plugin".into(),
        description: None,
        version: None,
        path: "plugins/demo".into(),
        frameworks: vec![],
        migration_status: None,
        internal_deps: vec![],
        external_flags: vec![],
        dependency_names: vec![],
        dependency_details: vec![],
        ast_summary: Some(ast),
    };
    let report = render_doctor("/w", &vec![n], &status(true, false));
    assert!(report.starts_with("# agal doctor\n\nproject: `/w`\n"));
    assert!(report.contains("- **cargo-clippy**: ok — `/bin/cargo-clippy`\n"));
    assert!(report.contains("- **clap-validator**: missing on PATH\n"));
    assert!(report.contains("Install: [clap-validator]"));
    assert!(report.contains("- **demo** (`plugins/demo`): `clap-validator validate path/to/demo.clap`\n"));
}

#[test]
fn append_hints_does_not_emit_symbol_tool_findings() {
    let mut out = Vec::new();
    append_hints(&vec![], &mut out, &probe_tools(&vec![]));
    assert!(out.iter().all(|f| !f.code.contains("symbol") && !f.code.contains("codegraph")));
}

#[test]
fn clap_hint_only_for_clapish_plugins() {
    let mut clap = Node {
        id: "plugins/demo".into(),
        name: "demo".into(),
        kind: "plugin".into(),
        description: None,
        version: Some("0.1.0".into()),
        path: "plugins/demo".into(),
        frameworks: vec!["clap".into(), "truce".into()],
        migration_status: None,
        internal_deps: vec![],
        external_flags: vec![],
        dependency_names: vec![],
        dependency_details: vec![],
        ast_summary: Some({
            let mut a = AstSummary::default();
            a.plugin_formats = vec!["CLAP".into()];
            a
        }),
    };
    let other = Node {
        id: "plugins/headless".into(),
        name: "headless".into(),
        kind: "plugin".into(),
        description: None,
        version: Some("0.1.0".into()),
        path: "plugins/headless".into(),
        frameworks: vec![],
        migration_status: None,
        internal_deps: vec![],
        external_flags: vec![],
        dependency_names: vec![],
        dependency_details: vec![],
        ast_summary: Some(AstSummary::default()),
    };
    let st = probe_tools(&vec![]);
    let mut out = Vec::new();
    append_hints(&vec![clap.clone()], &mut out, &st);
    let clap_hints: Vec<_> = out.iter().filter(|f| f.code == "tool_hint_clap_validator").collect();
    assert_eq!(clap_hints.len(), 1);
    assert!(clap_hints[0].fix.is_some());

    out.clear();
    clap.frameworks.clear();
    if let Some(a) = clap.ast_summary.as_mut() {
        a.plugin_formats.clear();
    }
    append_hints(&vec![clap, other], &mut out, &st);
    assert!(out.iter().all(|f| f.code != "tool_hint_clap_validator"));
}

#[test]
fn tool_hints_never_change_health() {
    let plugin = Node {
        id: "plugins/demo".into(),
        name: "demo".into(),
        kind: "plugin".into(),
        description: None,
        version: Some("0.1.0".into()),
        path: "plugins/demo".into(),
        frameworks: vec!["clap".into()],
        migration_status: None,
        internal_deps: vec![],
        external_flags: vec![],
        dependency_names: vec![],
        dependency_details: vec![],
        ast_summary: None,
    };
    for base in [vec![], vec![Finding::new(Severity::Warn, "w", "warn")], vec![Finding::new(Severity::Error, "e", "err")]] {
        let before = health(&base);
        let mut out = base.clone();
        append_hints(&vec![plugin.clone()], &mut out, &status(true, false));
        assert_eq!(out.len(), base.len() + 2);
        assert_eq!(health(&out), before);
    }
    assert_eq!(health(&vec![]), Health::Okay);
}
