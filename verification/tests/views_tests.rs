use audiolabs_core::assemble::{detect_project_name, glob_members_dir, order_members};
use audiolabs_core::config::ProjectConfig;
use audiolabs_core::findings::{Finding, Severity};
use audiolabs_core::guide::render;
use audiolabs_core::html::{html_escape, node_colors, render_html, replace_str, viz_edge, viz_node, HtmlMeta};
use audiolabs_core::{
    debounce_step, generate, hook_script, is_interesting_event, output_dir_for, run_report, slice_names, Audiolabs,
    DependencyDetail, Edge, GenerateOptions, GenerateStep, MigrationDetail, MigrationSummary, Node,
};
use audiolabs_core::html::fill_page;

fn node(id: &str, name: &str, kind: &str) -> Node {
    Node {
        id: id.into(),
        name: name.into(),
        kind: kind.into(),
        description: None,
        version: None,
        path: id.into(),
        frameworks: vec![],
        migration_status: None,
        internal_deps: vec![],
        external_flags: vec![],
        dependency_names: vec![],
        dependency_details: vec![],
        ast_summary: None,
    }
}

fn graph(nodes: Vec<Node>, findings: Vec<Finding>) -> Audiolabs {
    Audiolabs {
        version: "0.6.2".into(),
        generated_at: "2024-01-01T00:00:00Z".into(),
        project_root: "/ws".into(),
        project_name: "studio".into(),
        used_frameworks: vec![],
        frameworks: vec![],
        nodes,
        edges: vec![],
        findings,
        findings_suppressed: 0,
        migration_summary: MigrationSummary { total_plugins: 0, total_legacy: 0, total_migrated: 0, migrations: vec![] },
        rules: vec![],
        delta: None,
    }
}

#[test]
fn cheatsheet_names_members() {
    let g = graph(vec![node("crates/dsp", "dsp", "crate"), node("plugins/aether", "aether", "plugin")], vec![]);
    let s = render(&g, "agal");
    assert!(s.starts_with("# Cheatsheet — agal / audiolabs\n"));
    assert!(s.contains("project: **studio**  \ngenerated: `2024-01-01T00:00:00Z`  \ntool version: 0.6.2\n"));
    assert!(s.contains("agal --plugin aether ."));
    assert!(s.contains("**Plugins:** `aether`\n\n**Crates:** `dsp`\n"));
    assert!(s.contains("prefer gitignoring `agal/`"));
    let empty = render(&graph(vec![], vec![]), "out");
    assert!(empty.contains("agal --plugin aether ."));
    assert!(empty.contains("**Plugins:** _none_\n\n**Crates:** _none_\n"));
    assert!(empty.ends_with("in the tool repo.\n\n"));
}

#[test]
fn html_escaping_and_colours() {
    assert_eq!(html_escape("a<b & \"c\">"), "a&lt;b &amp; &quot;c&quot;&gt;");
    let mut p = node("plugins/a", "a", "plugin");
    p.migration_status = Some("legacy".into());
    let (fill, border) = node_colors(&p);
    assert_eq!(fill, "#8b5cf6");
    assert_eq!(border.as_deref(), Some("#f59e0b"));
    let (fill2, border2) = node_colors(&node("tools/t", "t", "member"));
    assert_eq!(fill2, "#475569");
    assert_eq!(border2, None);
}

#[test]
fn replace_is_left_to_right_and_non_overlapping() {
    assert_eq!(replace_str("aaaa", "aa", "b"), "bb");
    assert_eq!(replace_str("x{{A}}y{{A}}", "{{A}}", "1"), "x1y1");
    assert_eq!(replace_str("none", "zz", "q"), "none");
}

#[test]
fn page_is_filled() {
    let meta = HtmlMeta { project_name: "a<b", generated_at: "now", graph_version: "0.6.2", view_default: None };
    let page = render_html("[1]", "[2]", "[3]", &meta);
    assert!(page.starts_with("<!DOCTYPE html>"));
    assert!(!page.contains("{{NODES_JSON}}"));
    assert!(!page.contains("{{VIEW_CONFIG}}"));
    assert!(page.contains("a&lt;b"));
    assert!(page.contains("{\"default\":null}"));
    let meta2 = HtmlMeta { project_name: "p", generated_at: "now", graph_version: "v", view_default: Some("plugins") };
    assert!(render_html("[]", "[]", "[]", &meta2).contains("{\"default\":\"plugins\"}"));
}

#[test]
fn viz_records() {
    let mut n = node("plugins/a", "a", "plugin");
    n.dependency_details = vec![DependencyDetail { name: "truce".into(), version: Some("1".into()), source: None }];
    let v = viz_node(&n);
    assert_eq!(v.label, "a");
    assert_eq!(v.internal_deps, None);
    assert_eq!(v.dependency_details.as_ref().map(|d| d.len()), Some(1));
    let e = viz_edge(&Edge { from: "a".into(), to: "b".into(), kind: "uses_ui".into(), feature: None, note: None });
    assert_eq!(e.source, "a");
    assert_eq!(e.target, "b");
}

#[test]
fn run_steps_and_output_dir() {
    let mut o = GenerateOptions::default();
    assert_eq!(generate(&o), GenerateStep::OneShot);
    o.watch_mode = true;
    assert_eq!(generate(&o), GenerateStep::Watch);
    o.install_hook = true;
    assert_eq!(generate(&o), GenerateStep::InstallHook);
    let cfg = ProjectConfig::default();
    assert_eq!(output_dir_for(&GenerateOptions::default(), &cfg), "agal");
    let mut cfg2 = ProjectConfig::default();
    cfg2.output_dir = Some("pm".into());
    assert_eq!(output_dir_for(&GenerateOptions::default(), &cfg2), "pm");
    let mut o2 = GenerateOptions::default();
    o2.output_dir_override = Some("x".into());
    assert_eq!(output_dir_for(&o2, &cfg2), "x");
}

#[test]
fn slices_from_filter_and_files() {
    let files = vec!["aether.slice.json".to_string(), ".slice.json".to_string(), "agal.json".to_string()];
    assert_eq!(slice_names(Some("zeta"), &files), vec!["aether".to_string(), "zeta".to_string()]);
    assert_eq!(slice_names(None, &vec![]), Vec::<String>::new());
}

#[test]
fn report_lines_of_a_run() {
    let mut g = graph(vec![node("plugins/a", "a", "plugin")], vec![Finding::new(Severity::Warn, "w", "m")]);
    g.migration_summary = MigrationSummary {
        total_plugins: 1,
        total_legacy: 1,
        total_migrated: 0,
        migrations: vec![(
            "truce-slint".into(),
            MigrationDetail {
                from: "truce-slint".into(),
                to: "lx-slint-editor".into(),
                legacy_count: 1,
                migrated_count: 0,
                legacy_plugins: vec!["a".into()],
            },
        )],
    };
    let lines = run_report(&g, 2, "agal", "/ws", 3);
    assert_eq!(lines[0], "agal v0.6.2 generated for studio in /ws/agal");
    assert_eq!(lines[1], "  1 nodes, 0 edges, 1 plugins, 1 findings");
    assert_eq!(lines[2], "  health: degraded");
    assert_eq!(lines[3], "  findings: error=0 warn=1 info=0");
    assert_eq!(lines[4], "  suppress: 0 finding(s) muted (2 rule(s) in config)");
    assert_eq!(lines[5], "  truce-slint: 1 legacy (truce-slint), 0 migrated (lx-slint-editor)");
    assert_eq!(lines[6], "    - a");
    assert_eq!(lines[9], "  notes: agal/notes/ (3 files)");
    assert_eq!(lines.len(), 12);
}

#[test]
fn watch_decisions() {
    assert!(is_interesting_event(&vec![Some("rs".into())], false));
    assert!(!is_interesting_event(&vec![Some("rs".into())], true));
    assert!(!is_interesting_event(&vec![Some("md".into()), None], false));
    assert_eq!(debounce_step(None, 1000, true), (Some(1000), false));
    assert_eq!(debounce_step(Some(1000), 1400, false), (Some(1000), false));
    assert_eq!(debounce_step(Some(1000), 1500, false), (None, true));
    assert_eq!(debounce_step(None, 1500, false), (None, false));
    assert_eq!(hook_script("/ws"), "#!/bin/sh\n# Auto-generated by agal install-hook\nagal \"/ws\"\n");
}

#[test]
fn members_in_name_order_first_wins() {
    let ms = vec![
        ("b".to_string(), "crates/b".to_string()),
        ("a".to_string(), "crates/a".to_string()),
        ("b".to_string(), "plugins/b".to_string()),
    ];
    assert_eq!(
        order_members(&ms),
        vec![("a".to_string(), "crates/a".to_string()), ("b".to_string(), "crates/b".to_string())]
    );
}

#[test]
fn page_takes_the_given_view_config() {
    let meta = HtmlMeta { project_name: "p", generated_at: "now", graph_version: "v", view_default: Some("all") };
    let page = fill_page("[]", "[]", "[]", &meta, "{\"default\":\"crate\"}");
    assert!(page.contains("{\"default\":\"crate\"}"));
    assert!(!page.contains("{{VIEW_CONFIG}}"));
    assert_eq!(render_html("[]", "[]", "[]", &meta), fill_page("[]", "[]", "[]", &meta, "{\"default\":\"all\"}"));
}

#[test]
fn member_globs_and_project_names() {
    assert_eq!(glob_members_dir("plugins/*").as_deref(), Some("plugins"));
    assert_eq!(glob_members_dir("crates/**").as_deref(), Some("crates"));
    assert_eq!(glob_members_dir("tools/cli"), None);
    assert_eq!(detect_project_name(Some("ws".into()), Some("pkg".into()), Some("dir".into())), "ws");
    assert_eq!(detect_project_name(None, Some("pkg".into()), Some("dir".into())), "pkg");
    assert_eq!(detect_project_name(None, None, Some("dir".into())), "dir");
    assert_eq!(detect_project_name(None, None, None), "project");
}

#[test]
fn view_config_is_escaped_json() {
    let meta = HtmlMeta { project_name: "p", generated_at: "now", graph_version: "v", view_default: Some("a\"b\\\n\u{1}") };
    let page = render_html("[]", "[]", "[]", &meta);
    assert!(page.contains("{\"default\":\"a\\\"b\\\\\\n\\u0001\"}"));
}

#[test]
fn delta_counts_fit_for_plain_graphs() {
    let g = Audiolabs {
        version: "v".into(),
        generated_at: "t".into(),
        project_root: ".".into(),
        project_name: "p".into(),
        used_frameworks: vec![],
        frameworks: vec![],
        nodes: vec![node("plugins/a", "a", "plugin")],
        edges: vec![],
        findings: vec![],
        findings_suppressed: 0,
        migration_summary: MigrationSummary { total_plugins: 0, total_legacy: 0, total_migrated: 0, migrations: vec![] },
        rules: vec![],
        delta: None,
    };
    assert!(audiolabs_core::delta_ready(&g, &None));
    assert!(audiolabs_core::delta_ready(&g, &Some(g.clone())));
}
