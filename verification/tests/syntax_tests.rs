use audiolabs_core::ast::SyntaxEvent;
use audiolabs_core::syntax::{
    compact_type, item_event, segment_text, syntax_events, use_tree_text, AttrInfo, FieldItem, GenericArg, PathSeg,
    SyntaxItem, TypeTree, UseTreeItem, Vis,
};

fn path(names: &[&str]) -> TypeTree {
    TypeTree::Path(names.iter().map(|n| PathSeg { ident: n.to_string(), angle_args: None }).collect())
}

fn generic(name: &str, args: Vec<GenericArg>) -> TypeTree {
    TypeTree::Path(vec![PathSeg { ident: name.to_string(), angle_args: Some(args) }])
}

#[test]
fn compact_type_texts() {
    assert_eq!(compact_type(&path(&["std", "sync", "Arc"])), "Arc");
    let t = generic("Arc", vec![GenericArg::Other, GenericArg::Type(generic("Vec", vec![GenericArg::Type(path(&["f32"]))]))]);
    assert_eq!(compact_type(&t), "Arc<Vec<f32>>");
    assert_eq!(compact_type(&TypeTree::Reference(Box::new(path(&["str"])))), "&str");
    assert_eq!(compact_type(&TypeTree::Tuple(vec![path(&["u8"]), TypeTree::Slice(Box::new(path(&["u8"])))])), "(u8, [u8])");
    assert_eq!(compact_type(&TypeTree::Array(Box::new(path(&["f32"])))), "[f32]");
    assert_eq!(compact_type(&TypeTree::Other), "…");
    assert_eq!(compact_type(&generic("Vec", vec![GenericArg::Other])), "Vec");
    assert_eq!(segment_text(&PathSeg { ident: "Box".into(), angle_args: None }), "Box");
}

#[test]
fn use_trees_as_text() {
    let t = UseTreeItem::Path {
        ident: "nih_plug".into(),
        tree: Box::new(UseTreeItem::Group(vec![
            UseTreeItem::Name("prelude".into()),
            UseTreeItem::Rename { ident: "Plugin".into(), rename: "P".into() },
            UseTreeItem::Glob,
        ])),
    };
    assert_eq!(use_tree_text(&t), "nih_plug::prelude,Plugin,*");
}

#[test]
fn struct_items_give_derives_and_param_fields() {
    let derive = AttrInfo {
        path: vec!["derive".into()],
        list_tokens: Some("Params , Clone".into()),
        arg_paths: Some(vec![vec!["nih_plug".into(), "Params".into()], vec!["Clone".into()]]),
    };
    let param = AttrInfo { path: vec!["param".into()], list_tokens: Some("name = \"Gain\"".into()), arg_paths: None };
    let item = SyntaxItem::Struct {
        name: "GainParams".into(),
        vis: Vis::Public,
        attrs: vec![derive],
        named_fields: Some(vec![
            FieldItem { ident: Some("gain".into()), ty: path(&["FloatParam"]), attrs: vec![param] },
            FieldItem { ident: None, ty: TypeTree::Other, attrs: vec![] },
        ]),
    };
    match item_event(&item) {
        SyntaxEvent::Struct { name, is_pub, derives, fields } => {
            assert_eq!(name, "GainParams");
            assert!(is_pub);
            assert_eq!(derives, vec!["Params".to_string(), "Clone".to_string()]);
            assert_eq!(fields.len(), 1);
            assert_eq!(fields[0].ty, "FloatParam");
            assert_eq!(fields[0].param_tokens.as_deref(), Some("name = \"Gain\""));
        }
        other => panic!("unexpected {other:?}"),
    }
    let evs = syntax_events(&vec![
        SyntaxItem::ImplStart { trait_path: Some(vec!["nih_plug".into(), "Plugin".into()]), self_ty: path(&["Gain"]) },
        SyntaxItem::ImplFn { name: "process".into() },
        SyntaxItem::ImplEnd,
        SyntaxItem::Macro { path: vec!["truce".into(), "plugin".into()], tokens: "x".into() },
        SyntaxItem::Fn { name: "f".into(), vis: Vis::Restricted },
    ]);
    assert_eq!(evs.len(), 5);
    assert!(matches!(&evs[0], SyntaxEvent::ImplStart { trait_name: Some(t), self_name: Some(s) } if t == "Plugin" && s == "Gain"));
    assert!(matches!(&evs[3], SyntaxEvent::Macro { path, .. } if path == "truce::plugin"));
    assert!(matches!(&evs[4], SyntaxEvent::Fn { is_pub: false, .. }));
}
