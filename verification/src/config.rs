//! Project configuration (`agal.toml`), the framework taxonomy, and the
//! rules that map Cargo dependency / import names onto framework ids.
use vstd::prelude::*;

use crate::registry::{Registry, RegistryFormat, RegistryFramework, RegistryUi};
use crate::text::{
    clone_opt, dec, find, find_str, is_map, is_set, join, join_strings, keys, lemma_find_from,
    lemma_lookup_take_step, lookup, map_find, map_insert, occurs_at, opt_view, owned, push_str,
    replace_char, replace_char_str, set_contains, set_insert, slice_string, chars_of, starts_with,
    starts_with_str, str_eq, strs,
};

verus! {

/// Project configuration as read from `agal.toml`.
#[derive(Debug, Clone, Default)]
pub struct ProjectConfig {
    /// Override of the auto-detected project name.
    pub project_name: Option<String>,
    /// Custom frameworks beyond the default taxonomy (sorted map).
    pub frameworks: Vec<(String, FrameworkSpec)>,
    /// Declared migrations between editor adapters or frameworks (sorted map).
    pub migrations: Vec<(String, MigrationSpec)>,
    /// Manual internal crate names.
    pub internal_crates: Vec<String>,
    /// Custom rules shown in the output (sorted map).
    pub rules: Vec<(String, String)>,
    /// Output directory override.
    pub output_dir: Option<String>,
    /// Package names treated as shared Slint UI libraries.
    pub ui_crates: Vec<String>,
    /// Package names that provide shared-memory / IPC hubs.
    pub ipc_hubs: Vec<String>,
    /// Findings to silence.
    pub suppress: Vec<SuppressRule>,
    /// HTML graph view preferences.
    pub view: ViewConfig,
}

/// HTML graph view settings.
#[derive(Debug, Clone, Default)]
pub struct ViewConfig {
    /// Default graph view mode (`overview` | `all` | `plugin` | `crate`).
    pub default: Option<String>,
}

/// One intentional mute for a finding code (optionally scoped to a node).
#[derive(Debug, Clone, Default)]
pub struct SuppressRule {
    pub code: String,
    pub node: Option<String>,
    pub reason: Option<String>,
}

/// A framework known to the taxonomy.
#[derive(Debug, Clone)]
pub struct FrameworkSpec {
    pub name: String,
    pub kind: String,
    pub notes: Option<String>,
}

/// A migration between two framework ids.
#[derive(Debug, Clone)]
pub struct MigrationSpec {
    pub from: String,
    pub to: String,
}

/// View of a framework spec: (name, kind, notes).
pub open spec fn fsv(f: FrameworkSpec) -> (Seq<char>, Seq<char>, Option<Seq<char>>) {
    (f.name@, f.kind@, opt_view(f.notes))
}

pub open spec fn fsv_opt(o: Option<FrameworkSpec>) -> Option<(Seq<char>, Seq<char>, Option<Seq<char>>)> {
    match o {
        Some(f) => Some(fsv(f)),
        None => None,
    }
}

impl ProjectConfig {
    /// Every map of the configuration is sorted by key.
    pub open spec fn wf(&self) -> bool {
        is_map(self.frameworks@) && is_map(self.migrations@) && is_map(self.rules@)
    }
}

/// Built-in editor-adapter migration when the config declares none:
/// `truce-slint` → `lx-slint-editor` under the id `truce-slint`.
pub fn default_migrations() -> (m: Vec<(String, MigrationSpec)>)
    ensures
        is_map(m@),
        m@.len() == 1,
        m@[0].0@ == "truce-slint"@,
        m@[0].1.from@ == "truce-slint"@,
        m@[0].1.to@ == "lx-slint-editor"@,
{
    let mut m: Vec<(String, MigrationSpec)> = Vec::new();
    m.push((owned("truce-slint"), MigrationSpec { from: owned("truce-slint"), to: owned("lx-slint-editor") }));
    m
}

/// The zero-config rule applied after loading: an empty migration table is
/// replaced by [`default_migrations`]; everything else is kept.
pub fn apply_default_migrations(cfg: &mut ProjectConfig)
    ensures
        old(cfg).migrations@.len() > 0 ==> final(cfg).migrations@ == old(cfg).migrations@,
        old(cfg).migrations@.len() == 0 ==> ({
            let m = final(cfg).migrations@;
            &&& m.len() == 1
            &&& m[0].0@ == "truce-slint"@
            &&& m[0].1.from@ == "truce-slint"@
            &&& m[0].1.to@ == "lx-slint-editor"@
        }),
        final(cfg).project_name == old(cfg).project_name,
        final(cfg).frameworks == old(cfg).frameworks,
        final(cfg).internal_crates == old(cfg).internal_crates,
        final(cfg).rules == old(cfg).rules,
        final(cfg).output_dir == old(cfg).output_dir,
        final(cfg).ui_crates == old(cfg).ui_crates,
        final(cfg).ipc_hubs == old(cfg).ipc_hubs,
        final(cfg).suppress == old(cfg).suppress,
        final(cfg).view == old(cfg).view,
{
    if cfg.migrations.len() == 0 {
        cfg.migrations = default_migrations();
    }
}

/// Config file names, in lookup order.
pub open spec fn config_names() -> Seq<Seq<char>> {
    seq!["agal.toml"@, "audiolabs.toml"@, "audio-graph.toml"@]
}

/// Which config file to read, given the names of the regular files present
/// next to the root `Cargo.toml`: the first of `agal.toml`, `audiolabs.toml`,
/// `audio-graph.toml` that is present.
pub fn config_path(present: &Vec<String>) -> (r: Option<String>)
    ensures
        match r {
            Some(n) => exists|i: int|
                0 <= i < 3 && n@ == config_names()[i] && strs(present@).contains(config_names()[i])
                    && forall|j: int| 0 <= j < i ==> !strs(present@).contains(config_names()[j]),
            None => forall|j: int| 0 <= j < 3 ==> !strs(present@).contains(config_names()[j]),
        },
{
    if set_contains(present, "agal.toml") {
        assert(config_names()[0] == "agal.toml"@);
        return Some(owned("agal.toml"));
    }
    if set_contains(present, "audiolabs.toml") {
        assert(config_names()[1] == "audiolabs.toml"@);
        return Some(owned("audiolabs.toml"));
    }
    if set_contains(present, "audio-graph.toml") {
        assert(config_names()[2] == "audio-graph.toml"@);
        return Some(owned("audio-graph.toml"));
    }
    None
}

/// Framework id that a Cargo package / crate name stands for.
pub open spec fn framework_alias(n: Seq<char>) -> Option<Seq<char>> {
    if n == "truce"@ || n == "truce-core"@ || n == "truce-params"@ || n == "truce-clap"@ || n == "truce-vst3"@ || n == "truce-lv2"@ || n == "truce-loader"@ || n == "truce-test"@ || n == "truce-slint-build"@ {
        Some("truce"@)
    } else if n == "truce-slint"@ {
        Some("truce-slint"@)
    } else if n == "lx-slint-editor"@ {
        Some("lx-slint-editor"@)
    } else if n == "nih-plug"@ {
        Some("nih-plug"@)
    } else if n == "clack"@ || n == "clack-plugin"@ || n == "clack-host"@ {
        Some("clack"@)
    } else if n == "juce"@ {
        Some("juce"@)
    } else if n == "slint"@ || n == "slint-build"@ || n == "slint-baseview"@ {
        Some("slint"@)
    } else if n == "egui"@ {
        Some("egui"@)
    } else if n == "iced"@ {
        Some("iced"@)
    } else if n == "vizia"@ {
        Some("vizia"@)
    } else if n == "wry"@ {
        Some("wry"@)
    } else if n == "baseview"@ {
        Some("baseview"@)
    } else if n == "raw-window-handle"@ {
        Some("raw-window-handle"@)
    } else if n == "clap-sys"@ || n == "clap"@ {
        Some("clap"@)
    } else if n == "vst3"@ {
        Some("vst3"@)
    } else if n == "lv2"@ || n == "lv2-sys"@ || n == "lv2_raw"@ || n == "lv2-raw"@ {
        Some("lv2"@)
    } else {
        None
    }
}

/// Framework id of a dependency or crate name (aliases such as `truce-params`,
/// `clap-sys` or `lv2-sys` resolve to their framework).
pub fn resolve_framework_id(name: &str) -> (r: Option<String>)
    ensures
        opt_view(r) == framework_alias(name@),
{
    if str_eq(name, "truce") || str_eq(name, "truce-core") || str_eq(name, "truce-params") || str_eq(name, "truce-clap") || str_eq(name, "truce-vst3") || str_eq(name, "truce-lv2") || str_eq(name, "truce-loader") || str_eq(name, "truce-test") || str_eq(name, "truce-slint-build") {
        Some(owned("truce"))
    } else if str_eq(name, "truce-slint") {
        Some(owned("truce-slint"))
    } else if str_eq(name, "lx-slint-editor") {
        Some(owned("lx-slint-editor"))
    } else if str_eq(name, "nih-plug") {
        Some(owned("nih-plug"))
    } else if str_eq(name, "clack") || str_eq(name, "clack-plugin") || str_eq(name, "clack-host") {
        Some(owned("clack"))
    } else if str_eq(name, "juce") {
        Some(owned("juce"))
    } else if str_eq(name, "slint") || str_eq(name, "slint-build") || str_eq(name, "slint-baseview") {
        Some(owned("slint"))
    } else if str_eq(name, "egui") {
        Some(owned("egui"))
    } else if str_eq(name, "iced") {
        Some(owned("iced"))
    } else if str_eq(name, "vizia") {
        Some(owned("vizia"))
    } else if str_eq(name, "wry") {
        Some(owned("wry"))
    } else if str_eq(name, "baseview") {
        Some(owned("baseview"))
    } else if str_eq(name, "raw-window-handle") {
        Some(owned("raw-window-handle"))
    } else if str_eq(name, "clap-sys") || str_eq(name, "clap") {
        Some(owned("clap"))
    } else if str_eq(name, "vst3") {
        Some(owned("vst3"))
    } else if str_eq(name, "lv2") || str_eq(name, "lv2-sys") || str_eq(name, "lv2_raw") || str_eq(name, "lv2-raw") {
        Some(owned("lv2"))
    } else {
        None
    }
}

/// The first `::`-separated segment of a use path.
pub open spec fn first_segment(p: Seq<char>) -> Seq<char> {
    match find(p, "::"@) {
        Some(i) => p.take(i),
        None => p,
    }
}

/// Crate named by a use path: its first segment with `_` written as `-`,
/// unless it is empty or one of `crate`, `self`, `super`, `std`, `core`, `alloc`.
pub open spec fn use_path_crate(p: Seq<char>) -> Option<Seq<char>> {
    let f = first_segment(p);
    if f.len() == 0 || f == "crate"@ || f == "self"@ || f == "super"@ || f == "std"@ || f == "core"@
        || f == "alloc"@ {
        None
    } else {
        Some(replace_char(f, '_', '-'))
    }
}

/// Crate name imported by a `use` path (see [`use_path_crate`]).
pub fn crate_name_from_use_path(path: &str) -> (r: Option<String>)
    ensures
        opt_view(r) == use_path_crate(path@),
{
    let x = chars_of(path);
    let first = match find_str(path, "::") {
        Some(i) => {
            proof {
                lemma_find_from(path@, "::"@, 0);
            }
            slice_string(&x, 0, i)
        },
        None => owned(path),
    };
    assert(first@ == first_segment(path@)) by {
        if let Some(i) = find(path@, "::"@) {
            assert(x@.subrange(0, i) =~= path@.take(i));
        }
    }
    if first.as_str().unicode_len() == 0 || str_eq(first.as_str(), "crate") || str_eq(first.as_str(), "self")
        || str_eq(first.as_str(), "super") || str_eq(first.as_str(), "std") || str_eq(first.as_str(), "core")
        || str_eq(first.as_str(), "alloc") {
        return None;
    }
    Some(replace_char_str(first.as_str(), '_', '-'))
}

/// `x` is detected as a framework id from the dependency / import name `d`.
pub open spec fn detected_by(tax: Seq<Seq<char>>, d: Seq<char>, x: Seq<char>) -> bool {
    tax.contains(x) && (framework_alias(d) == Some(x) || d == x)
}

/// Framework ids detected from some name among `names`.
pub open spec fn detected_from(tax: Seq<Seq<char>>, names: Seq<Seq<char>>) -> Set<Seq<char>> {
    Set::new(|x: Seq<char>| exists|j: int| 0 <= j < names.len() && detected_by(tax, names[j], x))
}

fn detect_into(
    taxonomy: &Vec<(String, FrameworkSpec)>,
    names: &Vec<String>,
    detected: &mut Vec<String>,
)
    requires
        is_map(taxonomy@),
        is_set(old(detected)@),
    ensures
        is_set(final(detected)@),
        strs(final(detected)@).to_set() == strs(old(detected)@).to_set().union(
            detected_from(keys(taxonomy@), strs(names@)),
        ),
{
    let ghost tax = keys(taxonomy@);
    let ghost start = strs(detected@).to_set();
    let mut i: usize = 0;
    while i < names.len()
        invariant
            is_map(taxonomy@),
            tax == keys(taxonomy@),
            i <= names@.len(),
            is_set(detected@),
            strs(detected@).to_set() == start.union(detected_from(tax, strs(names@).take(i as int))),
        decreases names@.len() - i,
    {
        let d = &names[i];
        let ghost before = strs(detected@).to_set();
        let alias = resolve_framework_id(d.as_str());
        let mut via_alias = false;
        if let Some(id) = alias {
            if map_find(taxonomy, id.as_str()).is_some() {
                proof {
                    lemma_lookup_key(taxonomy@, id@);
                }
                set_insert(detected, id);
                via_alias = true;
            }
        }
        let direct = map_find(taxonomy, d.as_str()).is_some();
        if direct {
            proof {
                lemma_lookup_key(taxonomy@, d@);
            }
            set_insert(detected, d.clone());
        }
        proof {
            let pre = strs(names@).take(i as int);
            let post = strs(names@).take(i + 1);
            assert(post =~= pre.push(d@));
            assert(strs(detected@).to_set() =~= start.union(detected_from(tax, post))) by {
                assert forall|x: Seq<char>| detected_from(tax, post).contains(x) <==> (detected_from(
                    tax,
                    pre,
                ).contains(x) || detected_by(tax, d@, x)) by {
                    if detected_from(tax, post).contains(x) {
                        let j = choose|j: int| 0 <= j < post.len() && detected_by(tax, post[j], x);
                        if j < pre.len() {
                            assert(pre[j] == post[j]);
                        }
                    }
                    if detected_from(tax, pre).contains(x) {
                        let j = choose|j: int| 0 <= j < pre.len() && detected_by(tax, pre[j], x);
                        assert(post[j] == pre[j]);
                    }
                    if detected_by(tax, d@, x) {
                        assert(post[i as int] == d@);
                    }
                }
                assert forall|x: Seq<char>| detected_by(tax, d@, x) implies strs(detected@).to_set().contains(x) by {
                    if framework_alias(d@) == Some(x) && tax.contains(x) {
                        lemma_key_lookup(taxonomy@, x);
                    }
                    if d@ == x && tax.contains(x) {
                        lemma_key_lookup(taxonomy@, x);
                    }
                }
            }
        }
        i = i + 1;
    }
    assert(strs(names@).take(names@.len() as int) =~= strs(names@));
}

/// A key of a sorted map has a value.
pub proof fn lemma_key_lookup<V>(m: Seq<(String, V)>, k: Seq<char>)
    requires
        is_map(m),
    ensures
        keys(m).contains(k) <==> lookup(m, k) is Some,
{
    if keys(m).contains(k) {
        let j = choose|j: int| 0 <= j < keys(m).len() && keys(m)[j] == k;
        crate::text::lemma_lookup_index(m, k, j);
    } else {
        crate::text::lemma_lookup_none(m, k);
    }
}

/// A key found by lookup is a key.
pub proof fn lemma_lookup_key<V>(m: Seq<(String, V)>, k: Seq<char>)
    requires
        is_map(m),
        lookup(m, k) is Some,
    ensures
        keys(m).contains(k),
{
    lemma_key_lookup(m, k);
}

/// Framework ids present in a node: from each dependency or import name,
/// its alias id and the name itself, whenever the taxonomy knows that id.
pub fn detect_framework_ids(
    taxonomy: &Vec<(String, FrameworkSpec)>,
    dependency_names: &Vec<String>,
    imported_crates: &Vec<String>,
) -> (r: Vec<String>)
    requires
        is_map(taxonomy@),
    ensures
        is_set(r@),
        strs(r@).to_set() == detected_from(keys(taxonomy@), strs(dependency_names@)).union(
            detected_from(keys(taxonomy@), strs(imported_crates@)),
        ),
{
    let mut detected: Vec<String> = Vec::new();
    assert(strs(detected@).to_set() =~= Set::empty());
    detect_into(taxonomy, dependency_names, &mut detected);
    detect_into(taxonomy, imported_crates, &mut detected);
    assert(strs(detected@).to_set() =~= detected_from(keys(taxonomy@), strs(dependency_names@)).union(
        detected_from(keys(taxonomy@), strs(imported_crates@)),
    ));
    detected
}

/// External dependencies kept as flags as they are.
pub open spec fn signal_dep(d: Seq<char>) -> bool {
    d == "realfft"@ || d == "serde"@ || d == "serde_json"@ || d == "tracing"@ || d == "tracing-subscriber"@
        || d == "tracing-appender"@ || d == "ebur128"@ || d == "atomic_float"@ || d == "num-complex"@
        || d == "shared_memory"@ || d == "baseview"@ || d == "raw-window-handle"@ || d == "slint"@
        || d == "slint-build"@ || d == "slint-baseview"@ || d == "log"@ || d == "paste"@
}

/// The flag (if any) that an external dependency name contributes.
pub open spec fn dep_flag(d: Seq<char>) -> Option<Seq<char>> {
    if starts_with(d, "truce"@) {
        Some("truce_stack"@)
    } else if d == "clap-sys"@ || d == "clap"@ {
        Some("clap"@)
    } else if signal_dep(d) {
        Some(d)
    } else {
        None
    }
}

/// Flags of the non-internal names among `deps`.
pub open spec fn external_flags_of(deps: Seq<Seq<char>>, internal: Seq<Seq<char>>) -> Set<Seq<char>> {
    Set::new(|x: Seq<char>| exists|j: int| 0 <= j < deps.len() && !internal.contains(deps[j]) && dep_flag(deps[j]) == Some(x))
}

fn is_signal_dep(d: &str) -> (r: bool)
    ensures
        r == signal_dep(d@),
{
    str_eq(d, "realfft") || str_eq(d, "serde") || str_eq(d, "serde_json") || str_eq(d, "tracing")
        || str_eq(d, "tracing-subscriber") || str_eq(d, "tracing-appender") || str_eq(d, "ebur128")
        || str_eq(d, "atomic_float") || str_eq(d, "num-complex") || str_eq(d, "shared_memory")
        || str_eq(d, "baseview") || str_eq(d, "raw-window-handle") || str_eq(d, "slint")
        || str_eq(d, "slint-build") || str_eq(d, "slint-baseview") || str_eq(d, "log")
        || str_eq(d, "paste")
}

/// Collapse external Cargo dependencies into short flags: every `truce*`
/// dependency becomes `truce_stack`, `clap-sys`/`clap` become `clap`, a fixed
/// list of signal-bearing crates is kept by name, everything else and every
/// internal name is dropped.
pub fn summarize_external_deps(dep_names: &Vec<String>, internal: &Vec<String>) -> (r: Vec<String>)
    ensures
        is_set(r@),
        strs(r@).to_set() == external_flags_of(strs(dep_names@), strs(internal@)),
{
    let mut flags: Vec<String> = Vec::new();
    let mut truce_stack = false;
    let ghost deps = strs(dep_names@);
    let ghost int_ = strs(internal@);
    let ghost ts = "truce_stack"@;
    proof {
        reveal_strlit("truce_stack");
        reveal_strlit("truce");
        reveal_strlit("clap");
        assert(ts.take(5) =~= "truce"@);
        assert(starts_with(ts, "truce"@));
        assert("clap"@ != ts);
    }
    assert(strs(flags@).to_set() =~= external_flags_of(deps.take(0), int_).remove(ts));
    let mut i: usize = 0;
    while i < dep_names.len()
        invariant
            deps == strs(dep_names@),
            int_ == strs(internal@),
            ts == "truce_stack"@,
            starts_with(ts, "truce"@),
            "clap"@ != ts,
            i <= dep_names@.len(),
            is_set(flags@),
            strs(flags@).to_set() == external_flags_of(deps.take(i as int), int_).remove(ts),
            truce_stack <==> external_flags_of(deps.take(i as int), int_).contains(ts),
        decreases dep_names@.len() - i,
    {
        let d = &dep_names[i];
        let ghost pre = deps.take(i as int);
        let ghost post = deps.take(i + 1);
        assert(post =~= pre.push(d@));
        assert(deps[i as int] == d@);
        if set_contains(internal, d.as_str()) {
        } else if starts_with_str(d.as_str(), "truce") {
            truce_stack = true;
        } else if str_eq(d.as_str(), "clap-sys") || str_eq(d.as_str(), "clap") {
            set_insert(&mut flags, owned("clap"));
        } else if is_signal_dep(d.as_str()) {
            set_insert(&mut flags, d.clone());
        }
        proof {
            assert forall|x: Seq<char>| external_flags_of(post, int_).contains(x) <==> (external_flags_of(pre, int_).contains(x)
                || (!int_.contains(d@) && dep_flag(d@) == Some(x))) by {
                if external_flags_of(post, int_).contains(x) {
                    let j = choose|j: int| 0 <= j < post.len() && !int_.contains(post[j]) && dep_flag(post[j]) == Some(x);
                    if j < pre.len() {
                        assert(pre[j] == post[j]);
                    }
                }
                if external_flags_of(pre, int_).contains(x) {
                    let j = choose|j: int| 0 <= j < pre.len() && !int_.contains(pre[j]) && dep_flag(pre[j]) == Some(x);
                    assert(post[j] == pre[j]);
                }
                if !int_.contains(d@) && dep_flag(d@) == Some(x) {
                    assert(post[i as int] == d@);
                }
            }
            if !int_.contains(d@) && !starts_with(d@, "truce"@) && dep_flag(d@) is Some {
                assert(dep_flag(d@) != Some(ts));
            }
            assert(strs(flags@).to_set() =~= external_flags_of(post, int_).remove(ts));
        }
        i = i + 1;
    }
    assert(deps.take(dep_names@.len() as int) =~= deps);
    if truce_stack {
        set_insert(&mut flags, owned("truce_stack"));
        assert(strs(flags@).to_set() =~= external_flags_of(deps, int_));
    } else {
        assert(strs(flags@).to_set() =~= external_flags_of(deps, int_));
    }
    flags
}

/// Prefixed note part for a present optional value.
pub open spec fn note_part(prefix: Seq<char>, o: Option<String>) -> Seq<Seq<char>> {
    match o {
        Some(v) => seq![prefix + v@],
        None => seq![],
    }
}

/// `None` for no parts, else the parts joined by `; `.
pub open spec fn notes_of(parts: Seq<Seq<char>>) -> Option<Seq<char>> {
    if parts.len() == 0 {
        None
    } else {
        Some(join(parts, "; "@))
    }
}

/// Upper-cased text of `s` (`str::to_uppercase`, full Unicode case mapping).
pub uninterp spec fn unicode_upper(s: Seq<char>) -> Seq<char>;

/// Upper-cases `s` with `str::to_uppercase` (the Unicode case mapping of
/// the standard library; its result is named [`unicode_upper`]).
#[verifier::external_body]
pub(crate) fn to_uppercase(s: &str) -> (r: String)
    ensures
        r@ == unicode_upper(s@),
{
    s.to_uppercase()
}

pub open spec fn fw_entry_view(e: RegistryFramework) -> (Seq<char>, Seq<char>, Option<Seq<char>>) {
    (e.name@, "framework"@, notes_of(note_part("homepage: "@, e.homepage) + note_part("docs: "@, e.docs)
        + note_part("skill: "@, e.skill_source) + note_part("migrates from: "@, e.migrates_from)))
}

pub open spec fn ui_entry_view(e: RegistryUi) -> (Seq<char>, Seq<char>, Option<Seq<char>>) {
    (e.name@, "ui_framework"@, notes_of(note_part("homepage: "@, e.homepage) + note_part("docs: "@, e.docs)))
}

pub open spec fn format_entry_view(id: Seq<char>, e: RegistryFormat) -> (Seq<char>, Seq<char>, Option<Seq<char>>) {
    (unicode_upper(id), "plugin_format"@, notes_of(note_part("spec: "@, e.spec) + note_part("changelog: "@, e.changelog)))
}

/// The taxonomy entry the registry gives to id `q`: formats override UI
/// toolkits, which override frameworks.
pub open spec fn registry_view(reg: Option<Registry>, q: Seq<char>) -> Option<(Seq<char>, Seq<char>, Option<Seq<char>>)> {
    match reg {
        None => None,
        Some(r) => match lookup(r.formats@, q) {
            Some(f) => Some(format_entry_view(q, f)),
            None => match lookup(r.ui@, q) {
                Some(u) => Some(ui_entry_view(u)),
                None => match lookup(r.frameworks@, q) {
                    Some(e) => Some(fw_entry_view(e)),
                    None => None,
                },
            },
        },
    }
}

fn add_part(parts: &mut Vec<String>, prefix: &str, o: &Option<String>)
    ensures
        strs(final(parts)@) == strs(old(parts)@) + note_part(prefix@, *o),
{
    match o {
        Some(v) => {
            let mut t = owned(prefix);
            push_str(&mut t, v.as_str());
            let ghost p0 = parts@;
            parts.push(t);
            proof {
                crate::text::lemma_strs_push(p0, t);
            }
            assert(strs(parts@) =~= strs(p0) + note_part(prefix@, *o));
        },
        None => {
            assert(strs(parts@) =~= strs(parts@) + note_part(prefix@, *o));
        },
    }
}

fn notes_from(parts: &Vec<String>) -> (r: Option<String>)
    ensures
        opt_view(r) == notes_of(strs(parts@)),
{
    if parts.len() == 0 {
        None
    } else {
        Some(join_strings(parts, "; "))
    }
}

/// Taxonomy entries from the bundled registry: frameworks, then UI toolkits
/// (`ui_framework`), then plugin formats (`plugin_format`, upper-cased id as
/// name); notes join the present homepage / docs / skill / migration / spec /
/// changelog links with `; `.
pub fn load_registry_frameworks(reg: Option<&Registry>) -> (m: Vec<(String, FrameworkSpec)>)
    requires
        reg matches Some(r) ==> r.wf(),
    ensures
        is_map(m@),
        forall|q: Seq<char>| #[trigger] fsv_opt(lookup(m@, q)) == registry_view(
            match reg {
                Some(r) => Some(*r),
                None => None,
            },
            q,
        ),
{
    let mut map: Vec<(String, FrameworkSpec)> = Vec::new();
    let reg = match reg {
        Some(r) => r,
        None => {
            return map;
        },
    };
    let mut i: usize = 0;
    while i < reg.frameworks.len()
        invariant
            reg.wf(),
            i <= reg.frameworks@.len(),
            is_map(map@),
            forall|q: Seq<char>| #[trigger] fsv_opt(lookup(map@, q)) == match lookup(reg.frameworks@.take(i as int), q) {
                Some(e) => Some(fw_entry_view(e)),
                None => None,
            },
        decreases reg.frameworks@.len() - i,
    {
        let (id, fw) = (&reg.frameworks[i].0, &reg.frameworks[i].1);
        let mut parts: Vec<String> = Vec::new();
        add_part(&mut parts, "homepage: ", &fw.homepage);
        add_part(&mut parts, "docs: ", &fw.docs);
        add_part(&mut parts, "skill: ", &fw.skill_source);
        add_part(&mut parts, "migrates from: ", &fw.migrates_from);
        assert(strs(parts@) =~= note_part("homepage: "@, fw.homepage) + note_part("docs: "@, fw.docs)
            + note_part("skill: "@, fw.skill_source) + note_part("migrates from: "@, fw.migrates_from));
        let notes = notes_from(&parts);
        map_insert(&mut map, id.clone(), FrameworkSpec { name: fw.name.clone(), kind: owned("framework"), notes });
        proof {
            assert forall|q: Seq<char>| #[trigger] fsv_opt(lookup(map@, q)) == match lookup(reg.frameworks@.take(i + 1), q) {
                Some(e) => Some(fw_entry_view(e)),
                None => None,
            } by {
                lemma_lookup_take_step(reg.frameworks@, i as int, q);
            }
        }
        i = i + 1;
    }
    assert(reg.frameworks@.take(reg.frameworks@.len() as int) =~= reg.frameworks@);
    let mut i: usize = 0;
    while i < reg.ui.len()
        invariant
            reg.wf(),
            i <= reg.ui@.len(),
            is_map(map@),
            forall|q: Seq<char>| #[trigger] fsv_opt(lookup(map@, q)) == match lookup(reg.ui@.take(i as int), q) {
                Some(u) => Some(ui_entry_view(u)),
                None => match lookup(reg.frameworks@, q) {
                    Some(e) => Some(fw_entry_view(e)),
                    None => None,
                },
            },
        decreases reg.ui@.len() - i,
    {
        let (id, ui) = (&reg.ui[i].0, &reg.ui[i].1);
        let mut parts: Vec<String> = Vec::new();
        add_part(&mut parts, "homepage: ", &ui.homepage);
        add_part(&mut parts, "docs: ", &ui.docs);
        assert(strs(parts@) =~= note_part("homepage: "@, ui.homepage) + note_part("docs: "@, ui.docs));
        let notes = notes_from(&parts);
        map_insert(&mut map, id.clone(), FrameworkSpec { name: ui.name.clone(), kind: owned("ui_framework"), notes });
        proof {
            assert forall|q: Seq<char>| #[trigger] fsv_opt(lookup(map@, q)) == match lookup(reg.ui@.take(i + 1), q) {
                Some(u) => Some(ui_entry_view(u)),
                None => match lookup(reg.frameworks@, q) {
                    Some(e) => Some(fw_entry_view(e)),
                    None => None,
                },
            } by {
                lemma_lookup_take_step(reg.ui@, i as int, q);
            }
        }
        i = i + 1;
    }
    assert(reg.ui@.take(reg.ui@.len() as int) =~= reg.ui@);
    let mut i: usize = 0;
    while i < reg.formats.len()
        invariant
            reg.wf(),
            i <= reg.formats@.len(),
            is_map(map@),
            forall|q: Seq<char>| #[trigger] fsv_opt(lookup(map@, q)) == match lookup(reg.formats@.take(i as int), q) {
                Some(f) => Some(format_entry_view(q, f)),
                None => match lookup(reg.ui@, q) {
                    Some(u) => Some(ui_entry_view(u)),
                    None => match lookup(reg.frameworks@, q) {
                        Some(e) => Some(fw_entry_view(e)),
                        None => None,
                    },
                },
            },
        decreases reg.formats@.len() - i,
    {
        let (id, f) = (&reg.formats[i].0, &reg.formats[i].1);
        let mut parts: Vec<String> = Vec::new();
        add_part(&mut parts, "spec: ", &f.spec);
        add_part(&mut parts, "changelog: ", &f.changelog);
        assert(strs(parts@) =~= note_part("spec: "@, f.spec) + note_part("changelog: "@, f.changelog));
        let notes = notes_from(&parts);
        let name = to_uppercase(id.as_str());
        map_insert(&mut map, id.clone(), FrameworkSpec { name, kind: owned("plugin_format"), notes });
        proof {
            assert forall|q: Seq<char>| #[trigger] fsv_opt(lookup(map@, q)) == match lookup(reg.formats@.take(i + 1), q) {
                Some(f) => Some(format_entry_view(q, f)),
                None => match lookup(reg.ui@, q) {
                    Some(u) => Some(ui_entry_view(u)),
                    None => match lookup(reg.frameworks@, q) {
                        Some(e) => Some(fw_entry_view(e)),
                        None => None,
                    },
                },
            } by {
                lemma_lookup_take_step(reg.formats@, i as int, q);
            }
        }
        i = i + 1;
    }
    assert(reg.formats@.take(reg.formats@.len() as int) =~= reg.formats@);
    map
}

/// The built-in taxonomy rows: id → (name, kind, notes).
pub open spec fn builtin_table() -> Seq<(Seq<char>, (Seq<char>, Seq<char>, Option<Seq<char>>))> {
    seq![
        ("truce"@, ("truce.audio"@, "framework"@, None)),
        ("nih-plug"@, ("nih-plug"@, "framework"@, None)),
        ("clack"@, ("clack"@, "framework"@, None)),
        ("juce"@, ("JUCE"@, "framework"@, None)),
        ("slint"@, ("Slint"@, "ui_framework"@, None)),
        ("egui"@, ("egui"@, "ui_framework"@, None)),
        ("iced"@, ("Iced"@, "ui_framework"@, None)),
        ("vizia"@, ("Vizia"@, "ui_framework"@, None)),
        ("wry"@, ("WRY"@, "ui_framework"@, None)),
        ("baseview"@, ("baseview"@, "ui_framework"@, None)),
        ("raw-window-handle"@, ("raw-window-handle"@, "ui_framework"@, None)),
        ("truce-slint"@, ("truce-slint"@, "editor_adapter"@, Some("truce-slint"@ + " editor adapter."@))),
        ("lx-slint-editor"@, ("lx-slint-editor"@, "editor_adapter"@, Some("lx-slint-editor"@ + " editor adapter."@))),
        ("clap"@, ("CLAP"@, "plugin_format"@, None)),
        ("vst3"@, ("VST3"@, "plugin_format"@, None)),
        ("lv2"@, ("LV2"@, "plugin_format"@, None)),
    ]
}

/// Value of the last row with key `q`.
pub open spec fn last_match<V>(rows: Seq<(Seq<char>, V)>, q: Seq<char>) -> Option<V>
    decreases rows.len(),
{
    if rows.len() == 0 {
        None
    } else if rows.last().0 == q {
        Some(rows.last().1)
    } else {
        last_match(rows.drop_last(), q)
    }
}

/// The entries the taxonomy always has (they override the registry).
pub open spec fn builtin_framework(q: Seq<char>) -> Option<(Seq<char>, Seq<char>, Option<Seq<char>>)> {
    last_match(builtin_table(), q)
}

pub open spec fn row_view(r: (String, FrameworkSpec)) -> (Seq<char>, (Seq<char>, Seq<char>, Option<Seq<char>>)) {
    (r.0@, fsv(r.1))
}

fn builtin_rows() -> (t: Vec<(String, FrameworkSpec)>)
    ensures
        t@.map_values(|r: (String, FrameworkSpec)| row_view(r)) == builtin_table(),
{
    let mut t: Vec<(String, FrameworkSpec)> = Vec::new();
    t.push((owned("truce"), FrameworkSpec { name: owned("truce.audio"), kind: owned("framework"), notes: None }));
    t.push((owned("nih-plug"), FrameworkSpec { name: owned("nih-plug"), kind: owned("framework"), notes: None }));
    t.push((owned("clack"), FrameworkSpec { name: owned("clack"), kind: owned("framework"), notes: None }));
    t.push((owned("juce"), FrameworkSpec { name: owned("JUCE"), kind: owned("framework"), notes: None }));
    t.push((owned("slint"), FrameworkSpec { name: owned("Slint"), kind: owned("ui_framework"), notes: None }));
    t.push((owned("egui"), FrameworkSpec { name: owned("egui"), kind: owned("ui_framework"), notes: None }));
    t.push((owned("iced"), FrameworkSpec { name: owned("Iced"), kind: owned("ui_framework"), notes: None }));
    t.push((owned("vizia"), FrameworkSpec { name: owned("Vizia"), kind: owned("ui_framework"), notes: None }));
    t.push((owned("wry"), FrameworkSpec { name: owned("WRY"), kind: owned("ui_framework"), notes: None }));
    t.push((owned("baseview"), FrameworkSpec { name: owned("baseview"), kind: owned("ui_framework"), notes: None }));
    t.push((owned("raw-window-handle"), FrameworkSpec { name: owned("raw-window-handle"), kind: owned("ui_framework"), notes: None }));
    t.push((owned("truce-slint"), FrameworkSpec { name: owned("truce-slint"), kind: owned("editor_adapter"), notes: {
            let mut t = owned("truce-slint");
            push_str(&mut t, " editor adapter.");
            Some(t)
        } }));
    t.push((owned("lx-slint-editor"), FrameworkSpec { name: owned("lx-slint-editor"), kind: owned("editor_adapter"), notes: {
            let mut t = owned("lx-slint-editor");
            push_str(&mut t, " editor adapter.");
            Some(t)
        } }));
    t.push((owned("clap"), FrameworkSpec { name: owned("CLAP"), kind: owned("plugin_format"), notes: None }));
    t.push((owned("vst3"), FrameworkSpec { name: owned("VST3"), kind: owned("plugin_format"), notes: None }));
    t.push((owned("lv2"), FrameworkSpec { name: owned("LV2"), kind: owned("plugin_format"), notes: None }));
    assert(t@.map_values(|r: (String, FrameworkSpec)| row_view(r)) =~= builtin_table());
    t
}

/// The default taxonomy: registry entries, overridden by the built-in
/// frameworks, UI toolkits, editor adapters and plugin formats.
pub fn default_taxonomy(reg: Option<&Registry>) -> (m: Vec<(String, FrameworkSpec)>)
    requires
        reg matches Some(r) ==> r.wf(),
    ensures
        is_map(m@),
        forall|q: Seq<char>| #[trigger] fsv_opt(lookup(m@, q)) == match builtin_framework(q) {
            Some(b) => Some(b),
            None => registry_view(
                match reg {
                    Some(r) => Some(*r),
                    None => None,
                },
                q,
            ),
        },
{
    let ghost base = match reg {
        Some(r) => Some(*r),
        None => None,
    };
    let mut map = load_registry_frameworks(reg);
    let rows = builtin_rows();
    let ghost tab = rows@.map_values(|r: (String, FrameworkSpec)| row_view(r));
    let mut i: usize = 0;
    while i < rows.len()
        invariant
            i <= rows@.len(),
            tab == rows@.map_values(|r: (String, FrameworkSpec)| row_view(r)),
            is_map(map@),
            forall|q: Seq<char>| #[trigger] fsv_opt(lookup(map@, q)) == match last_match(tab.take(i as int), q) {
                Some(b) => Some(b),
                None => registry_view(base, q),
            },
        decreases rows@.len() - i,
    {
        let id = rows[i].0.clone();
        let spec = FrameworkSpec { name: rows[i].1.name.clone(), kind: rows[i].1.kind.clone(), notes: clone_opt(&rows[i].1.notes) };
        map_insert(&mut map, id, spec);
        proof {
            assert(tab.take(i + 1).drop_last() =~= tab.take(i as int));
            assert(tab.take(i + 1).last() == tab[i as int]);
        }
        i = i + 1;
    }
    assert(tab.take(rows@.len() as int) =~= tab);
    map
}

} // verus!
