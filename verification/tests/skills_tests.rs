use audiolabs_core::skills::{catalog, check_sync_selection, parse_selection, resolve_preset, select_owned, should_copy, sync_summary, Selection, SkillGroup};

#[test]
fn default_empty_is_core() {
    let s = parse_selection("").unwrap();
    assert!(s.files.iter().all(|f| f.group == SkillGroup::Core));
    assert_eq!(s.files.len(), 4);
}

#[test]
fn group_policy() {
    let s = parse_selection("policy").unwrap();
    assert_eq!(s.files.len(), 3);
    assert!(s.files.iter().all(|f| f.group == SkillGroup::Policy));
}

#[test]
fn single_ui_slint() {
    let s = parse_selection("ui/slint").unwrap();
    assert_eq!(s.files.len(), 1);
    assert_eq!(s.files[0].rel_path, "04-ui/slint.md");
}

#[test]
fn single_numbered_path() {
    let s = parse_selection("04-ui/slint").unwrap();
    assert_eq!(s.files.len(), 1);
    assert_eq!(s.files[0].rel_path, "04-ui/slint.md");
}

#[test]
fn mix_group_and_single() {
    let s = parse_selection("core,ui/slint").unwrap();
    assert_eq!(s.files.len(), 5);
    assert!(s.files.iter().any(|f| f.rel_path == "04-ui/slint.md"));
}

#[test]
fn bare_unique_stem() {
    let s = parse_selection("slint").unwrap();
    assert_eq!(s.files.len(), 1);
    assert_eq!(s.files[0].rel_path, "04-ui/slint.md");
}

#[test]
fn unknown_skill_in_group() {
    let err = parse_selection("ui/nope").unwrap_err();
    assert!(err.contains("no skill"), "{err}");
    assert!(err.contains("slint"), "{err}");
}

#[test]
fn all_alone() {
    let s = parse_selection("all").unwrap();
    assert_eq!(s.files.len(), catalog().len());
}

#[test]
fn preset_slint_ui() {
    let s = parse_selection("slint-ui").unwrap();
    assert_eq!(s.files.len(), 5);
    assert!(s.files.iter().any(|f| f.rel_path == "04-ui/slint.md"));
    assert!(s.files.iter().any(|f| f.group == SkillGroup::Core));
    assert!(s.labels.iter().any(|l| l == "preset:slint-ui"));
}

#[test]
fn preset_clap_ship() {
    let s = parse_selection("clap-ship").unwrap();
    assert!(s.files.iter().any(|f| f.rel_path == "03-formats/clap.md"));
    assert!(s.files.iter().all(|f| f.group == SkillGroup::Core || f.rel_path == "03-formats/clap.md"));
    assert_eq!(s.files.len(), 5);
}

#[test]
fn preset_via_resolve() {
    assert_eq!(resolve_preset("dsp-fix").unwrap(), "core");
    assert_eq!(resolve_preset("DSP").unwrap(), "core");
    assert!(resolve_preset("nope").is_err());
}

#[test]
fn all_cannot_be_mixed() {
    let err = parse_selection("all,core").unwrap_err();
    assert_eq!(err, "'all' cannot be mixed with other selectors");
}

#[test]
fn unknown_selector_message() {
    let err = parse_selection("nothing-like-this").unwrap_err();
    assert_eq!(
        err,
        "unknown selector 'nothing-like-this'; use a group (ui), group/skill (ui/slint), path (04-ui/slint), or preset (dsp-fix|slint-ui|clap-ship|agent-playbook|policy-edit)"
    );
}

#[test]
fn labels_follow_selectors() {
    let s = parse_selection(" core , ui/slint.md,slint-ui ").unwrap();
    assert_eq!(s.labels, vec!["core".to_string(), "ui/slint".to_string(), "preset:slint-ui".to_string()]);
    assert_eq!(s.files.len(), 5);
    // catalog order, no duplicates
    assert_eq!(s.files[4].rel_path, "04-ui/slint.md");
}

#[test]
fn path_selector_errors() {
    assert_eq!(
        parse_selection("ui/a/b").unwrap_err(),
        "invalid skill path 'ui/a/b'; use group/skill (one slash) e.g. ui/slint"
    );
    assert_eq!(parse_selection("ui/.md").unwrap_err(), "invalid skill path 'ui/.md'; missing skill name");
    assert_eq!(
        parse_selection("99-x/slint").unwrap_err(),
        "unknown skill path '99-x/slint'; try ui/slint or run `agal skills list`"
    );
    assert_eq!(
        parse_selection("ui/nope").unwrap_err(),
        "no skill 'nope' in group 'ui'; available: slint, egui, iced, vizia"
    );
}

#[test]
fn group_names_and_prefixes() {
    assert_eq!(SkillGroup::Ui.as_str(), "ui");
    assert_eq!(SkillGroup::Migrations.dir_prefix(), "05-migrations");
    assert_eq!(SkillGroup::parse_one("FW").unwrap(), SkillGroup::Frameworks);
    assert!(SkillGroup::parse_one("nope").unwrap_err().starts_with("unknown skill group 'nope'"));
    assert_eq!(SkillGroup::parse_list("slint-ui,agents").unwrap(), vec![SkillGroup::Core, SkillGroup::Ui, SkillGroup::Agents]);
    assert_eq!(select_owned(&[SkillGroup::Formats]).len(), 3);
}

#[test]
fn preset_unknown_message() {
    assert_eq!(
        resolve_preset("  Nope ").unwrap_err(),
        "unknown preset 'nope'; known: dsp-fix, slint-ui, clap-ship, agent-playbook, policy-edit"
    );
}

#[test]
fn selection_keeps_catalog_order_without_repeats() {
    let cat = catalog();
    let s = parse_selection("ui/slint, core, ui, slint-ui, 00-core/dsp-realtime").unwrap();
    let positions: Vec<usize> = s
        .files
        .iter()
        .map(|f| cat.iter().position(|c| c.rel_path == f.rel_path).unwrap())
        .collect();
    assert!(positions.windows(2).all(|w| w[0] < w[1]));
    assert_eq!(s.files.len(), 8);
    assert_eq!(s.files[0].rel_path, "00-core/dsp-realtime.md");
    assert_eq!(s.files[4].rel_path, "04-ui/slint.md");
}

#[test]
fn listing_groups_the_catalog() {
    let text = audiolabs_core::skills::list_text();
    assert!(text.starts_with("agal skills (embedded in tool; sync into workspace with `agal skills sync`)\n\nselectors:"));
    assert!(text.contains("presets (task loadouts):\n  dsp-fix          → core\n  slint-ui         → core,ui/slint\n"));
    assert!(text.contains("  policy-edit      → policy\n\n[core]\n  00-core/dsp-realtime.md   (core / dsp-realtime)\n"));
    assert_eq!(text.matches("[ui]\n").count(), 1);
    assert!(text.contains("[ui]\n  04-ui/slint.md   (ui / slint)\n  04-ui/egui.md   (ui / egui)\n"));
    assert!(text.ends_with("  agal skills sync --only all --force\n"));
}

#[test]
fn sync_never_overwrites_without_force() {
    assert!(should_copy(false, false));
    assert!(!should_copy(true, false));
    assert!(should_copy(true, true));
    assert_eq!(
        sync_summary(3, 1, "agal", &vec!["core".to_string(), "ui/slint".to_string()]),
        "skills sync: 3 written, 1 skipped (use --force to overwrite) → agal/skills/\n  selection: core, ui/slint\n"
    );
}

#[test]
fn reordering_or_repeating_parts_picks_the_same_files() {
    let a = parse_selection("ui/slint, core").unwrap();
    let b = parse_selection("core,ui/slint,core").unwrap();
    let paths = |s: &audiolabs_core::skills::Selection| s.files.iter().map(|f| f.rel_path).collect::<Vec<_>>();
    assert_eq!(paths(&a), paths(&b));
    assert!(parse_selection("nope, core").is_err() && parse_selection("core, nope").is_err());
}

#[test]
fn group_names_read_back_in_any_case() {
    for g in [SkillGroup::Core, SkillGroup::Policy, SkillGroup::Frameworks, SkillGroup::Formats, SkillGroup::Ui, SkillGroup::Migrations, SkillGroup::Agents] {
        assert_eq!(SkillGroup::parse_one(g.as_str()), Ok(g));
        assert_eq!(SkillGroup::parse_one(&g.as_str().to_ascii_uppercase()), Ok(g));
    }
    let c = catalog();
    assert_eq!(c.len(), 17);
    assert!(c.iter().all(|f| f.rel_path.starts_with(&format!("{}/", f.group.dir_prefix())) && f.rel_path.ends_with(".md")));
}

#[test]
fn owned_selection_filters_the_catalog() {
    let picked = select_owned(&[SkillGroup::Ui, SkillGroup::Core, SkillGroup::Core]);
    assert_eq!(picked.len(), 8);
    let want: Vec<&str> = catalog()
        .into_iter()
        .filter(|f| f.group == SkillGroup::Ui || f.group == SkillGroup::Core)
        .map(|f| f.rel_path)
        .collect();
    assert_eq!(picked.iter().map(|f| f.rel_path).collect::<Vec<_>>(), want);
    assert!(select_owned(&[]).is_empty());
    let stems: std::collections::BTreeSet<String> = catalog().iter().map(|f| f.stem()).collect();
    assert_eq!(stems.len(), 17);
}

#[test]
fn sync_needs_a_file() {
    assert_eq!(
        check_sync_selection(&Selection { files: vec![], labels: vec![] }),
        Err("no skills matched selection".to_string())
    );
    assert_eq!(check_sync_selection(&parse_selection("core").unwrap()), Ok(()));
}
