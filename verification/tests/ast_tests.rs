use audiolabs_core::ast::{
    analyze_slint_file, analyze_sources, contains_ident, extract_macro_arg, extract_string_assign, find_arg_end,
    infer_file_role, is_internal_param_name, param_field_of, param_meta_of, scan_ipc_text, snake_to_pascal,
    visit_items, AnalyzeOptions, AstSummary, FieldInput, SourceEntry, SyntaxEvent,
};

#[test]
fn file_roles_by_path() {
    assert_eq!(infer_file_role("Cargo.toml"), Some("manifest"));
    assert_eq!(infer_file_role("build.rs"), Some("build"));
    assert_eq!(infer_file_role("ui/main.slint"), Some("slint"));
    assert_eq!(infer_file_role("src/lib.rs"), Some("entry"));
    assert_eq!(infer_file_role("src/Main.rs"), Some("entry"));
    assert_eq!(infer_file_role("src/relay_state.rs"), Some("ipc"));
    assert_eq!(infer_file_role("src/dsp/filter.rs"), Some("audio"));
    assert_eq!(infer_file_role("src/process.rs"), Some("audio"));
    assert_eq!(infer_file_role("src/editor.rs"), Some("ui"));
    assert_eq!(infer_file_role("src/presets.rs"), Some("state"));
    assert_eq!(infer_file_role("src/util.rs"), Some("source"));
    assert_eq!(infer_file_role("README.md"), None);
}

#[test]
fn ipc_signals_from_text_and_path() {
    let mut a = AstSummary::new();
    scan_ipc_text("use lx_shm::Slot; let s: SharedState;", "src/relay.rs", &mut a);
    assert_eq!(a.ipc_signals, vec!["relay".to_string(), "shared_state".to_string(), "shm".to_string()]);
    assert!(a.has_strong_ipc());
}

#[test]
fn identifier_boundaries() {
    assert!(contains_ident("let gain = 1;", "gain"));
    assert!(!contains_ident("let gain_db = 1;", "gain"));
    assert!(contains_ident("x_gain; gain", "gain"));
    assert!(!contains_ident("again", "gain"));
    assert!(!contains_ident("anything", ""));
    assert!(is_internal_param_name("_bypass"));
    assert!(is_internal_param_name("internal_x"));
    assert!(!is_internal_param_name("gain"));
}

#[test]
fn pascal_case() {
    assert_eq!(snake_to_pascal("output_gain"), "OutputGain");
    assert_eq!(snake_to_pascal("__a__b"), "AB");
    assert_eq!(snake_to_pascal(""), "");
}

#[test]
fn macro_arguments() {
    let t = "logic : MyLogic , params : Params < f32 , 2 > , editor : E";
    assert_eq!(extract_macro_arg(t, "logic").as_deref(), Some("MyLogic"));
    assert_eq!(extract_macro_arg(t, "params").as_deref(), Some("Params < f32 , 2 >"));
    assert_eq!(extract_macro_arg(t, "missing"), None);
    assert_eq!(extract_macro_arg("logic = X", "logic"), None);
    assert_eq!(find_arg_end("a<b,c>,d"), 6);
    assert_eq!(find_arg_end("abc"), 3);
}

#[test]
fn param_attributes() {
    assert_eq!(extract_string_assign("name = \"Gain\" , unit = \"dB\"", "name").as_deref(), Some("Gain"));
    assert_eq!(extract_string_assign("name = Gain", "name"), None);
    let m = param_meta_of("name = \"Bypass\" , flags = \"AUTOMATABLE | Bypass\"");
    assert_eq!(m.display_name.as_deref(), Some("Bypass"));
    assert!(m.hidden);
    let m2 = param_meta_of("name = \"Gain\" , flags = \"automatable\"");
    assert!(!m2.hidden);
    let m3 = param_meta_of("name = \"_scratch\"");
    assert!(m3.hidden);
    let f = param_field_of("gain", "FloatParam", None).unwrap();
    assert_eq!(f.display_name, None);
    assert!(!f.hidden);
    assert!(param_field_of("cache", "Vec<f32>", None).is_none());
    let g = param_field_of("_x", "Arc<u8>", Some("name = \"X\"")).unwrap();
    assert_eq!(g.display_name.as_deref(), Some("X"));
    assert!(g.hidden);
}

#[test]
fn slint_components_and_exports() {
    let mut a = AstSummary::new();
    let src = "export component LxKnob inherits Rectangle {\n  LxSlider { }\n  lx-big-button { }\n  LxResult { }\n}\nexport global Theme { }\n";
    analyze_slint_file(src, &mut a);
    assert_eq!(a.slint_exports, vec!["LxKnob".to_string()]);
    assert_eq!(
        a.slint_components,
        vec!["LxBigButton".to_string(), "LxKnob".to_string(), "LxSlider".to_string()]
    );
}

fn impl_start(t: &str, s: &str) -> SyntaxEvent {
    SyntaxEvent::ImplStart { trait_name: Some(t.into()), self_name: Some(s.into()) }
}

#[test]
fn items_record_plugin_facts() {
    let mut a = AstSummary::new();
    let events = vec![
        SyntaxEvent::Use { path: "truce_slint::Editor".into() },
        SyntaxEvent::Struct {
            name: "GainParams".into(),
            is_pub: true,
            derives: vec!["Params".into()],
            fields: vec![
                FieldInput { name: "gain".into(), ty: "FloatParam".into(), param_tokens: None },
                FieldInput { name: "cache".into(), ty: "Vec<f32>".into(), param_tokens: None },
            ],
        },
        impl_start("PluginLogic", "Gain"),
        SyntaxEvent::ImplFn { name: "process".into() },
        SyntaxEvent::ImplFn { name: "editor".into() },
        SyntaxEvent::ImplEnd,
        impl_start("Filter", "Biquad"),
        SyntaxEvent::ImplFn { name: "process".into() },
        SyntaxEvent::ImplEnd,
        SyntaxEvent::Fn { name: "helper".into(), is_pub: true },
        SyntaxEvent::Enum { name: "Mode".into(), is_pub: true },
        SyntaxEvent::Macro { path: "truce::plugin".into(), tokens: "logic : Gain , params : GainParams".into() },
    ];
    visit_items(&mut a, "src/lib.rs", true, &events);
    assert_eq!(a.plugin_logic_impls, vec!["Gain".to_string()]);
    assert_eq!(a.plugin_macro_types, vec!["Gain".to_string()]);
    assert_eq!(a.params_structs, vec!["GainParams".to_string()]);
    assert_eq!(a.process_method_count, 2);
    assert_eq!(a.process_hooks, vec!["PluginLogic::process @ src/lib.rs".to_string()]);
    assert_eq!(a.editor_functions, vec!["editor".to_string()]);
    assert_eq!(a.imported_crates, vec!["truce-slint".to_string()]);
    assert_eq!(a.imported_editor_adapters, vec!["truce-slint".to_string()]);
    assert_eq!(
        a.public_api,
        vec!["enum Mode".to_string(), "fn helper".to_string(), "struct GainParams".to_string()]
    );
    assert_eq!(a.params_fields.len(), 1);
    assert_eq!(a.params_fields[0].1.len(), 1);
    assert_eq!(a.params_fields[0].1[0].name, "gain");
    assert_eq!(a.symbols_by_file.len(), 1);
    assert!(a.symbols_by_file[0].1.contains(&"impl PluginLogic for Gain".to_string()));
    assert!(a.symbols_by_file[0].1.contains(&"#[derive(Params)] GainParams".to_string()));
}

#[test]
fn sources_bind_params() {
    let lib = SourceEntry {
        rel: "src/lib.rs".into(),
        ext: Some("rs".into()),
        content: Some("struct GainParams { gain: FloatParam, mix: FloatParam }".into()),
        items: Some(vec![SyntaxEvent::Struct {
            name: "GainParams".into(),
            is_pub: false,
            derives: vec![],
            fields: vec![
                FieldInput { name: "gain".into(), ty: "FloatParam".into(), param_tokens: None },
                FieldInput { name: "mix".into(), ty: "FloatParam".into(), param_tokens: None },
                FieldInput { name: "_scratch".into(), ty: "FloatParam".into(), param_tokens: None },
            ],
        }]),
    };
    let editor = SourceEntry {
        rel: "src/editor.rs".into(),
        ext: Some("rs".into()),
        content: Some("fn bind() { params.gain.set(1.0); }".into()),
        items: None,
    };
    let ui = SourceEntry {
        rel: "ui/main.slint".into(),
        ext: Some("slint".into()),
        content: Some("export component LxPanel { }".into()),
        items: None,
    };
    let skipped = SourceEntry { rel: "target/debug/x.rs".into(), ext: Some("rs".into()), content: None, items: None };
    let a = analyze_sources(&vec![lib, editor, ui, skipped], AnalyzeOptions { include_symbols: false });
    assert_eq!(a.files, vec!["src/editor.rs".to_string(), "src/lib.rs".to_string(), "ui/main.slint".to_string()]);
    assert_eq!(a.params_referenced, vec!["gain".to_string()]);
    assert_eq!(a.params_unbound, vec!["mix".to_string()]);
    assert_eq!(a.slint_exports, vec!["LxPanel".to_string()]);
    assert!(a.symbols_by_file.is_empty());
    assert_eq!(a.file_roles.len(), 3);
}
