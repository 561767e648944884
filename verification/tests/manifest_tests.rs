use audiolabs_core::ast::AstSummary;
use audiolabs_core::manifest::{
    manifest_of_text, parse_toml, TomlValue, dep_paths, features_map, listed_members, member_input_of, member_patterns, package_name, project_name_of,
    workspace_versions, CargoManifest, DepSpec, PackageSection, WorkspaceSection,
};

fn empty() -> CargoManifest {
    CargoManifest {
        package: None,
        workspace: None,
        dependencies: vec![],
        build_dependencies: vec![],
        dev_dependencies: vec![],
        features: vec![],
    }
}

fn table(path: Option<&str>, workspace: Option<bool>, version: Option<&str>, git: Option<&str>) -> DepSpec {
    DepSpec::Table {
        path: path.map(|s| s.to_string()),
        workspace,
        version: version.map(|s| s.to_string()),
        git: git.map(|s| s.to_string()),
    }
}

#[test]
fn root_without_workspace_is_an_error() {
    assert_eq!(member_patterns(&empty(), "/w/Cargo.toml"), Err("no [workspace] in /w/Cargo.toml".to_string()));
    let mut m = empty();
    m.workspace = Some(WorkspaceSection { members: None, package_name: None, dependencies: vec![] });
    assert_eq!(member_patterns(&m, "/w/Cargo.toml"), Err("no workspace.members in /w/Cargo.toml".to_string()));
    assert!(listed_members(&m).is_empty());
    m.workspace = Some(WorkspaceSection {
        members: Some(vec![Some("plugins/*".into()), None]),
        package_name: None,
        dependencies: vec![],
    });
    assert_eq!(member_patterns(&m, "x"), Err("workspace member is not a string".to_string()));
    assert_eq!(listed_members(&m), vec![Some("plugins/*".to_string()), None]);
    m.workspace = Some(WorkspaceSection {
        members: Some(vec![Some("plugins/*".into()), Some("crates/core".into())]),
        package_name: Some("ws".into()),
        dependencies: vec![("nih_plug".into(), table(None, None, Some("0.1"), None)), ("serde".into(), DepSpec::Version("1".into()))],
    });
    assert_eq!(member_patterns(&m, "x"), Ok(vec!["plugins/*".to_string(), "crates/core".to_string()]));
    assert_eq!(
        workspace_versions(&m),
        vec![("nih_plug".to_string(), Some("0.1".to_string())), ("serde".to_string(), Some("1".to_string()))]
    );
    assert_eq!(project_name_of(Some(&m), Some("dir".into())), "ws");
    assert_eq!(project_name_of(None, None), "project");
}

#[test]
fn member_input_from_manifest() {
    let mut m = empty();
    assert_eq!(
        member_input_of(&m, "p/Cargo.toml", "a", "plugins/a", &vec![], AstSummary::new()).err(),
        Some("no [package] in p/Cargo.toml".to_string())
    );
    m.package = Some(PackageSection { name: Some("a".into()), version: Some("0.2.0".into()), description: None });
    m.dependencies = vec![("x".into(), table(Some("../x"), Some(true), None, None))];
    m.build_dependencies = vec![("b".into(), DepSpec::Version("2".into()))];
    m.dev_dependencies = vec![("g".into(), table(None, None, None, Some("https://g"))), ("o".into(), DepSpec::Other)];
    m.features = vec![("default".into(), vec!["clap".into()]), ("clap".into(), vec![])];
    assert_eq!(package_name(&m).as_deref(), Some("a"));
    assert_eq!(dep_paths(&m), vec![Some("../x".to_string()), None, None, None]);
    assert_eq!(features_map(&m)[0].0, "clap");
    let mi = member_input_of(&m, "p", "a", "plugins/a", &vec![Some("xpkg".into()), None, None, None], AstSummary::new())
        .unwrap();
    assert_eq!(mi.version.as_deref(), Some("0.2.0"));
    assert_eq!(mi.deps.len(), 4);
    assert!(mi.deps[0].path && mi.deps[0].workspace && mi.deps[0].kind == "normal");
    assert_eq!(mi.deps[0].outside_package.as_deref(), Some("xpkg"));
    assert_eq!(mi.deps[1].kind, "build");
    assert_eq!(mi.deps[1].version.as_deref(), Some("2"));
    assert!(mi.deps[2].git && mi.deps[2].kind == "dev");
    assert!(!mi.deps[3].git && mi.deps[3].version.is_none());
    assert_eq!(mi.features.iter().map(|(k, _)| k.as_str()).collect::<Vec<_>>(), vec!["clap", "default"]);
}

#[test]
fn manifest_text_is_parsed_and_picked() {
    let text = "[workspace]\r\nmembers = [\"plugins/*\", 3]\r\n[workspace.package]\nname = \"ws\"\n[workspace.dependencies]\nserde = { version = \"1\" }\n\n[package]\nname = \"a\"\nversion = \"0.1.0\"\n\n[dependencies]\nx = { path = \"../x\", workspace = true }\ny = \"2\"\nz = 5\n\n[features]\ndefault = [\"clap\", 1]\nclap = \"odd\"\n";
    let m = manifest_of_text(text, "Cargo.toml").unwrap();
    assert_eq!(package_name(&m).as_deref(), Some("a"));
    assert_eq!(listed_members(&m), vec![Some("plugins/*".to_string()), None]);
    assert_eq!(member_patterns(&m, "Cargo.toml"), Err("workspace member is not a string".to_string()));
    assert_eq!(project_name_of(Some(&m), None), "ws");
    assert_eq!(workspace_versions(&m), vec![("serde".to_string(), Some("1".to_string()))]);
    assert_eq!(dep_paths(&m), vec![Some("../x".to_string()), None, None]);
    assert!(matches!(&m.dependencies[1].1, DepSpec::Version(v) if v == "2"));
    assert!(matches!(&m.dependencies[2].1, DepSpec::Other));
    let feats = features_map(&m);
    assert_eq!(feats, vec![("clap".to_string(), vec![]), ("default".to_string(), vec!["clap".to_string()])]);
    let err = manifest_of_text("[package\n", "p/Cargo.toml").unwrap_err();
    assert!(err.starts_with("failed to parse p/Cargo.toml: "));
    assert!(matches!(parse_toml("a = true").unwrap()[0].1, TomlValue::Bool(true)));
}
