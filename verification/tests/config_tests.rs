use audiolabs_core::config::{default_migrations, resolve_framework_id};

#[test]
fn resolve_framework_aliases() {
    assert_eq!(resolve_framework_id("truce-params").as_deref(), Some("truce"));
    assert_eq!(resolve_framework_id("lx-slint-editor").as_deref(), Some("lx-slint-editor"));
    assert_eq!(resolve_framework_id("clap-sys").as_deref(), Some("clap"));
    assert_eq!(resolve_framework_id("lv2-sys").as_deref(), Some("lv2"));
    assert_eq!(resolve_framework_id("lv2").as_deref(), Some("lv2"));
    assert_eq!(resolve_framework_id("serde"), None);
}

#[test]
fn default_migrations_truce_slint() {
    let m = default_migrations();
    let t = &m.iter().find(|(k, _)| k == "truce-slint").expect("migration").1;
    assert_eq!(t.from, "truce-slint");
    assert_eq!(t.to, "lx-slint-editor");
}
