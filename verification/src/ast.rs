//! Source facts of one crate: plugin/params/process/editor detection, IPC
//! signals, file roles, Slint components and parameter binding.
//!
//! The Rust syntax walk itself is driven from outside; every decision about
//! what a visited item means is made by the functions here.
use vstd::prelude::*;

use crate::text::{
    ascii_alnum, chars_of, char_width, concat, contains_str, ends_with, ends_with_str, find_from, find_in,
    has_sub, is_ascii_alnum, cat2, is_set, lower, occurs_at, owned, push_str, set_contains, set_insert,
    slice_string, split_char, split_on, trim, trim_str, trim_start, trim_start_str, find, find_str, opt_view, is_map, keys, lookup, map_insert, assoc_get, raw_lines, raw_lines_of, push_char, lemma_strs_push, starts_with, starts_with_str, str_eq, strs, to_ascii_lower,
};

verus! {

/// One parameter field on a Params struct.
#[derive(Debug, Clone, PartialEq, Eq)]
pub struct ParamField {
    pub name: String,
    pub ty: String,
    pub display_name: Option<String>,
    /// True when `#[param]` marks the field hidden / bypass scaffolding.
    pub hidden: bool,
}

/// Facts collected from the sources of one crate.  Every `Vec<String>` is a
/// sorted set and every `Vec<(String, _)>` a sorted map.
#[derive(Debug, Clone, Default)]
pub struct AstSummary {
    pub plugin_impls: Vec<String>,
    pub plugin_logic_impls: Vec<String>,
    pub plugin_macro_types: Vec<String>,
    pub params_impls: Vec<String>,
    pub params_structs: Vec<String>,
    /// Params struct name → fields.
    pub params_fields: Vec<(String, Vec<ParamField>)>,
    pub params_referenced: Vec<String>,
    pub params_unbound: Vec<String>,
    pub process_functions: Vec<String>,
    pub process_hooks: Vec<String>,
    pub process_method_count: usize,
    pub editor_functions: Vec<String>,
    pub imported_editor_adapters: Vec<String>,
    pub imported_crates: Vec<String>,
    pub public_api: Vec<String>,
    pub slint_components: Vec<String>,
    pub slint_exports: Vec<String>,
    pub ipc_signals: Vec<String>,
    /// Relative path → role.
    pub file_roles: Vec<(String, String)>,
    pub files: Vec<String>,
    /// Relative path → symbols (only when symbols are requested).
    pub symbols_by_file: Vec<(String, Vec<String>)>,
    /// Cargo feature → its entries.
    pub features: Vec<(String, Vec<String>)>,
    pub plugin_formats: Vec<String>,
}

/// Options of the crate analysis.
#[derive(Debug, Clone, Copy, Default)]
pub struct AnalyzeOptions {
    /// Keep per-file symbol lists.
    pub include_symbols: bool,
}

/// The signals that count as peer-relevant IPC.
pub open spec fn strong_ipc_in(signals: Seq<Seq<char>>) -> bool {
    signals.contains("shm"@) || signals.contains("relay"@) || signals.contains("seqlock"@)
}

/// The role values of a path → role map.
pub open spec fn role_values(m: Seq<(String, String)>) -> Seq<Seq<char>> {
    m.map_values(|p: (String, String)| p.1@)
}

impl AstSummary {
    /// Nothing is recorded in the summary.
    pub open spec fn blank(self) -> bool {
        &&& self.plugin_impls@.len() == 0
        &&& self.plugin_logic_impls@.len() == 0
        &&& self.plugin_macro_types@.len() == 0
        &&& self.params_impls@.len() == 0
        &&& self.params_structs@.len() == 0
        &&& self.params_fields@.len() == 0
        &&& self.params_referenced@.len() == 0
        &&& self.params_unbound@.len() == 0
        &&& self.process_functions@.len() == 0
        &&& self.process_hooks@.len() == 0
        &&& self.process_method_count == 0
        &&& self.editor_functions@.len() == 0
        &&& self.imported_editor_adapters@.len() == 0
        &&& self.imported_crates@.len() == 0
        &&& self.public_api@.len() == 0
        &&& self.slint_components@.len() == 0
        &&& self.slint_exports@.len() == 0
        &&& self.ipc_signals@.len() == 0
        &&& self.file_roles@.len() == 0
        &&& self.files@.len() == 0
        &&& self.symbols_by_file@.len() == 0
        &&& self.features@.len() == 0
        &&& self.plugin_formats@.len() == 0
    }

    /// A summary with nothing recorded.
    pub fn new() -> (a: AstSummary)
        ensures
            a.plugin_impls@.len() == 0,
            a.plugin_logic_impls@.len() == 0,
            a.plugin_macro_types@.len() == 0,
            a.params_impls@.len() == 0,
            a.params_structs@.len() == 0,
            a.params_fields@.len() == 0,
            a.params_referenced@.len() == 0,
            a.params_unbound@.len() == 0,
            a.process_functions@.len() == 0,
            a.process_hooks@.len() == 0,
            a.process_method_count == 0,
            a.editor_functions@.len() == 0,
            a.imported_editor_adapters@.len() == 0,
            a.imported_crates@.len() == 0,
            a.public_api@.len() == 0,
            a.slint_components@.len() == 0,
            a.slint_exports@.len() == 0,
            a.ipc_signals@.len() == 0,
            a.file_roles@.len() == 0,
            a.files@.len() == 0,
            a.symbols_by_file@.len() == 0,
            a.features@.len() == 0,
            a.plugin_formats@.len() == 0,
    {
        AstSummary {
            plugin_impls: Vec::new(),
            plugin_logic_impls: Vec::new(),
            plugin_macro_types: Vec::new(),
            params_impls: Vec::new(),
            params_structs: Vec::new(),
            params_fields: Vec::new(),
            params_referenced: Vec::new(),
            params_unbound: Vec::new(),
            process_functions: Vec::new(),
            process_hooks: Vec::new(),
            process_method_count: 0,
            editor_functions: Vec::new(),
            imported_editor_adapters: Vec::new(),
            imported_crates: Vec::new(),
            public_api: Vec::new(),
            slint_components: Vec::new(),
            slint_exports: Vec::new(),
            ipc_signals: Vec::new(),
            file_roles: Vec::new(),
            files: Vec::new(),
            symbols_by_file: Vec::new(),
            features: Vec::new(),
            plugin_formats: Vec::new(),
        }
    }

    /// Strong IPC (shm / relay / seqlock), not just shared-state UI glue.
    pub fn has_strong_ipc(&self) -> (r: bool)
        ensures
            r == strong_ipc_in(strs(self.ipc_signals@)),
    {
        set_contains(&self.ipc_signals, "shm") || set_contains(&self.ipc_signals, "relay")
            || set_contains(&self.ipc_signals, "seqlock")
    }

    /// Distinct role tags: every file role, plus `ipc` when strong IPC signals exist.
    pub fn role_tags(&self) -> (r: Vec<String>)
        ensures
            is_set(r@),
            strs(r@).to_set() == if strong_ipc_in(strs(self.ipc_signals@)) {
                role_values(self.file_roles@).to_set().insert("ipc"@)
            } else {
                role_values(self.file_roles@).to_set()
            },
    {
        let mut roles: Vec<String> = Vec::new();
        let mut i: usize = 0;
        while i < self.file_roles.len()
            invariant
                i <= self.file_roles@.len(),
                is_set(roles@),
                strs(roles@).to_set() == role_values(self.file_roles@).take(i as int).to_set(),
            decreases self.file_roles@.len() - i,
        {
            set_insert(&mut roles, self.file_roles[i].1.clone());
            assert(role_values(self.file_roles@).take(i + 1) =~= role_values(self.file_roles@).take(
                i as int,
            ).push(self.file_roles@[i as int].1@));
            proof {
                role_values(self.file_roles@).take(i as int).lemma_push_to_set_commute(
                    self.file_roles@[i as int].1@,
                );
            }
            i = i + 1;
        }
        assert(role_values(self.file_roles@).take(self.file_roles@.len() as int) =~= role_values(
            self.file_roles@,
        ));
        if self.has_strong_ipc() {
            set_insert(&mut roles, owned("ipc"));
        }
        roles
    }
}

// ---------------------------------------------------------------------------
// File roles and IPC signals
// ---------------------------------------------------------------------------

/// The role of a crate-relative path (matched ASCII case-insensitively).
pub open spec fn file_role(rel: Seq<char>) -> Option<Seq<char>> {
    let l = lower(rel);
    if l == "cargo.toml"@ {
        Some("manifest"@)
    } else if l == "build.rs"@ {
        Some("build"@)
    } else if ends_with(l, ".slint"@) {
        Some("slint"@)
    } else if l == "src/lib.rs"@ || l == "src/main.rs"@ {
        Some("entry"@)
    } else if has_sub(l, "relay"@) || has_sub(l, "shm"@) || has_sub(l, "shared_state"@) {
        Some("ipc"@)
    } else if ends_with(l, "process.rs"@) || has_sub(l, "/dsp/"@) || has_sub(l, "/audio/"@) {
        Some("audio"@)
    } else if ends_with(l, "editor.rs"@) || has_sub(l, "/ui/"@) || has_sub(l, "/editor/"@) {
        Some("ui"@)
    } else if ends_with(l, "presets.rs"@) || has_sub(l, "preset"@) || has_sub(l, "state"@) {
        Some("state"@)
    } else if starts_with(l, "src/"@) && ends_with(l, ".rs"@) {
        Some("source"@)
    } else {
        None
    }
}

/// The role of a crate-relative path, if it has one (see [`file_role`]).
pub fn infer_file_role(rel: &str) -> (r: Option<&'static str>)
    ensures
        match r {
            Some(x) => file_role(rel@) == Some(x@),
            None => file_role(rel@) is None,
        },
{
    let lo = to_ascii_lower(rel);
    let l = lo.as_str();
    if str_eq(l, "cargo.toml") {
        Some("manifest")
    } else if str_eq(l, "build.rs") {
        Some("build")
    } else if ends_with_str(l, ".slint") {
        Some("slint")
    } else if str_eq(l, "src/lib.rs") || str_eq(l, "src/main.rs") {
        Some("entry")
    } else if contains_str(l, "relay") || contains_str(l, "shm") || contains_str(l, "shared_state") {
        Some("ipc")
    } else if ends_with_str(l, "process.rs") || contains_str(l, "/dsp/") || contains_str(l, "/audio/") {
        Some("audio")
    } else if ends_with_str(l, "editor.rs") || contains_str(l, "/ui/") || contains_str(l, "/editor/") {
        Some("ui")
    } else if ends_with_str(l, "presets.rs") || contains_str(l, "preset") || contains_str(l, "state") {
        Some("state")
    } else if starts_with_str(l, "src/") && ends_with_str(l, ".rs") {
        Some("source")
    } else {
        None
    }
}

/// `{sig}` when `cond` holds, else nothing.
pub open spec fn sig_if(cond: bool, sig: Seq<char>) -> Set<Seq<char>> {
    if cond {
        set![sig]
    } else {
        Set::empty()
    }
}

/// IPC signals named by the text of a source file and by its path.
pub open spec fn ipc_hits(content: Seq<char>, rel: Seq<char>) -> Set<Seq<char>> {
    sig_if(has_sub(content, "lx_analysis::shm"@), "shm"@).union(sig_if(has_sub(content, "lx_analysis::relay"@), "relay"@))
        .union(sig_if(has_sub(content, "relay_hub"@), "relay"@)).union(
        sig_if(has_sub(content, "SharedState"@), "shared_state"@),
    ).union(sig_if(has_sub(content, "shared_memory"@), "shm"@)).union(sig_if(has_sub(content, "lx_shm"@), "shm"@))
        .union(sig_if(has_sub(content, "seqlock"@), "seqlock"@)).union(sig_if(has_sub(content, "shm_slot"@), "shm"@))
        .union(sig_if(has_sub(content, "relay_active_mask"@), "relay"@)).union(
        sig_if(has_sub(content, "RelayUi"@), "relay"@),
    ).union(sig_if(has_sub(rel, "relay"@), "relay"@))
}

fn add_if(v: &mut Vec<String>, cond: bool, sig: &str)
    requires
        is_set(old(v)@),
    ensures
        is_set(final(v)@),
        strs(final(v)@).to_set() == strs(old(v)@).to_set().union(sig_if(cond, sig@)),
{
    if cond {
        set_insert(v, owned(sig));
        assert(strs(v@).to_set() =~= strs(old(v)@).to_set().union(sig_if(cond, sig@)));
    } else {
        assert(strs(v@).to_set() =~= strs(old(v)@).to_set().union(sig_if(cond, sig@)));
    }
}

/// Adds the IPC signals that a source file's text and path name.
pub fn scan_ipc_text(content: &str, rel: &str, summary: &mut AstSummary)
    requires
        is_set(old(summary).ipc_signals@),
    ensures
        *final(summary) == (AstSummary { ipc_signals: final(summary).ipc_signals, ..*old(summary) }),
        is_set(final(summary).ipc_signals@),
        strs(final(summary).ipc_signals@).to_set() == strs(old(summary).ipc_signals@).to_set().union(
            ipc_hits(content@, rel@),
        ),
{
    let ghost s0 = strs(summary.ipc_signals@).to_set();
    let v = &mut summary.ipc_signals;
    add_if(v, contains_str(content, "lx_analysis::shm"), "shm");
    add_if(v, contains_str(content, "lx_analysis::relay"), "relay");
    add_if(v, contains_str(content, "relay_hub"), "relay");
    add_if(v, contains_str(content, "SharedState"), "shared_state");
    add_if(v, contains_str(content, "shared_memory"), "shm");
    add_if(v, contains_str(content, "lx_shm"), "shm");
    add_if(v, contains_str(content, "seqlock"), "seqlock");
    add_if(v, contains_str(content, "shm_slot"), "shm");
    add_if(v, contains_str(content, "relay_active_mask"), "relay");
    add_if(v, contains_str(content, "RelayUi"), "relay");
    add_if(v, contains_str(rel, "relay"), "relay");
    assert(strs(v@).to_set() =~= s0.union(ipc_hits(content@, rel@)));
}

// ---------------------------------------------------------------------------
// Parameter binding
// ---------------------------------------------------------------------------

/// `_`-prefixed or `internal_` params are scaffolding, not UI-bound.
pub open spec fn internal_param(name: Seq<char>) -> bool {
    starts_with(name, "_"@) || starts_with(name, "internal_"@)
}

pub fn is_internal_param_name(name: &str) -> (r: bool)
    ensures
        r == internal_param(name@),
{
    starts_with_str(name, "_") || starts_with_str(name, "internal_")
}

/// A character that continues an identifier (ASCII alphanumeric or `_`).
pub open spec fn ident_char(c: char) -> bool {
    ascii_alnum(c) || c == '_'
}

/// `n` occurs at `i` with no identifier character right before or after it.
pub open spec fn bounded_at(h: Seq<char>, n: Seq<char>, i: int) -> bool {
    &&& occurs_at(h, n, i)
    &&& (i == 0 || !ident_char(h[i - 1]))
    &&& (i + n.len() >= h.len() || !ident_char(h[i + n.len()]))
}

/// `n` occurs in `h` as a whole identifier.
pub open spec fn contains_ident_spec(h: Seq<char>, n: Seq<char>) -> bool {
    n.len() > 0 && exists|i: int| bounded_at(h, n, i)
}

/// The byte-wise search steps one byte past an occurrence that is not a
/// whole identifier; that slices inside a character (and panics) when the
/// needle starts with a multi-byte character and such an occurrence comes
/// before the first whole-identifier one.
pub open spec fn ident_search_panics(h: Seq<char>, n: Seq<char>) -> bool {
    n.len() > 0 && char_width(n[0]) > 1 && exists|i: int|
        occurs_at(h, n, i) && !bounded_at(h, n, i) && forall|j: int| 0 <= j < i ==> !#[trigger] bounded_at(h, n, j)
}

fn is_ident_char(c: char) -> (r: bool)
    ensures
        r == ident_char(c),
{
    is_ascii_alnum(c) || c == '_'
}

/// Whether `needle` occurs in `hay` as a whole identifier.
pub fn contains_ident(hay: &str, needle: &str) -> (r: bool)
    requires
        !ident_search_panics(hay@, needle@),
    ensures
        r == contains_ident_spec(hay@, needle@),
{
    let x = chars_of(hay);
    let y = chars_of(needle);
    if y.len() == 0 {
        return false;
    }
    let mut start: usize = 0;
    while start <= x.len()
        invariant
            x@ == hay@,
            y@ == needle@,
            y@.len() > 0,
            forall|j: int| 0 <= j < start ==> !#[trigger] bounded_at(hay@, needle@, j),
        decreases x@.len() + 1 - start,
    {
        proof {
            crate::text::lemma_find_from(x@, y@, start as int);
        }
        match find_in(&x, &y, start) {
            None => {
                assert forall|j: int| !#[trigger] bounded_at(hay@, needle@, j) by {
                    if j >= start as int {
                    }
                }
                return false;
            },
            Some(i) => {
                let after = i + y.len();
                let before_ok = i == 0 || !is_ident_char(x[i - 1]);
                let after_ok = after >= x.len() || !is_ident_char(x[after]);
                if before_ok && after_ok {
                    assert(bounded_at(hay@, needle@, i as int));
                    return true;
                }
                assert forall|j: int| 0 <= j < i + 1 implies !#[trigger] bounded_at(hay@, needle@, j) by {
                    if j >= start as int && j < i as int {
                        assert(!occurs_at(x@, y@, j));
                    }
                }
                start = i + 1;
            },
        }
    }
    assert forall|j: int| !#[trigger] bounded_at(hay@, needle@, j) by {
        if j >= start as int {
        }
    }
    false
}

/// A word with its first character upper-cased (Unicode mapping).
pub open spec fn capitalized(w: Seq<char>) -> Seq<char> {
    if w.len() == 0 {
        Seq::empty()
    } else {
        crate::config::unicode_upper(seq![w[0]]) + w.skip(1)
    }
}

/// Non-empty pieces, each capitalized.
pub open spec fn pascal_parts(ps: Seq<Seq<char>>) -> Seq<Seq<char>>
    decreases ps.len(),
{
    if ps.len() == 0 {
        Seq::empty()
    } else if ps.last().len() == 0 {
        pascal_parts(ps.drop_last())
    } else {
        pascal_parts(ps.drop_last()).push(capitalized(ps.last()))
    }
}

/// `snake_case` → `PascalCase` (pieces split at `sep`).
pub open spec fn pascal_of(s: Seq<char>, sep: char) -> Seq<char> {
    concat(pascal_parts(split_on(s, sep)))
}

fn capitalize(w: &str) -> (r: String)
    ensures
        r@ == capitalized(w@),
{
    let x = chars_of(w);
    if x.len() == 0 {
        return String::new();
    }
    let first = slice_string(&x, 0, 1);
    assert(x@.subrange(0, 1) =~= seq![w@[0]]);
    let mut r = crate::config::to_uppercase(first.as_str());
    let rest = slice_string(&x, 1, x.len());
    assert(x@.subrange(1, x@.len() as int) =~= w@.skip(1));
    push_str(&mut r, rest.as_str());
    r
}

fn pascal_with(s: &str, sep: char) -> (r: String)
    ensures
        r@ == pascal_of(s@, sep),
{
    let parts = split_char(s, sep);
    let ghost ps = strs(parts@);
    let mut r = String::new();
    let mut i: usize = 0;
    while i < parts.len()
        invariant
            i <= parts@.len(),
            ps == strs(parts@),
            ps == split_on(s@, sep),
            r@ == concat(pascal_parts(ps.take(i as int))),
        decreases parts@.len() - i,
    {
        assert(ps.take(i + 1).drop_last() =~= ps.take(i as int));
        let w = parts[i].as_str();
        if chars_of(w).len() > 0 {
            let c = capitalize(w);
            push_str(&mut r, c.as_str());
            assert(pascal_parts(ps.take(i as int)).push(capitalized(w@)).drop_last() =~= pascal_parts(
                ps.take(i as int),
            ));
        }
        i = i + 1;
    }
    assert(ps.take(ps.len() as int) =~= ps);
    r
}

/// `snake_case` → `PascalCase`.
pub fn snake_to_pascal(s: &str) -> (r: String)
    ensures
        r@ == pascal_of(s@, '_'),
{
    pascal_with(s, '_')
}

/// (name, skipped) for every recorded param field, Params structs in key
/// order; hidden and internal fields are skipped.
pub open spec fn field_flags(pf: Seq<(String, Vec<ParamField>)>) -> Seq<(Seq<char>, bool)>
    decreases pf.len(),
{
    if pf.len() == 0 {
        Seq::empty()
    } else {
        field_flags(pf.drop_last()) + flags_of(pf.last().1@)
    }
}

pub open spec fn flags_of(fs: Seq<ParamField>) -> Seq<(Seq<char>, bool)> {
    fs.map_values(|f: ParamField| (f.name@, f.hidden || internal_param(f.name@)))
}

/// A param counts as bound when its name, its PascalCase form, or its
/// `_text` / `_committed` companions appear in the binding sources.
pub open spec fn in_binding(c: Seq<char>, n: Seq<char>) -> bool {
    let p = pascal_of(n, '_');
    contains_ident_spec(c, n) || contains_ident_spec(c, p) || contains_ident_spec(c, n + "_text"@)
        || contains_ident_spec(c, n + "_committed"@) || has_sub(c, p)
}

/// The identifier searches that deciding [`in_binding`] runs, in order,
/// would reach one that panics.
pub open spec fn binding_panics(c: Seq<char>, n: Seq<char>) -> bool {
    let p = pascal_of(n, '_');
    ident_search_panics(c, n) || (!contains_ident_spec(c, n) && (ident_search_panics(c, p) || (!contains_ident_spec(c, p)
        && (ident_search_panics(c, n + "_text"@) || (!contains_ident_spec(c, n + "_text"@) && ident_search_panics(
        c,
        n + "_committed"@,
    ))))))
}

/// Names of non-skipped params whose binding status is `want`, in order.
pub open spec fn binding_names(ff: Seq<(Seq<char>, bool)>, c: Seq<char>, want: bool) -> Seq<Seq<char>>
    decreases ff.len(),
{
    if ff.len() == 0 {
        Seq::empty()
    } else {
        let x = ff.last();
        binding_names(ff.drop_last(), c, want) + if !x.1 && in_binding(c, x.0) == want {
            seq![x.0]
        } else {
            Seq::empty()
        }
    }
}

/// No binding search over the params of `pf` panics.
pub open spec fn binding_safe(pf: Seq<(String, Vec<ParamField>)>, c: Seq<char>) -> bool {
    forall|i: int| 0 <= i < field_flags(pf).len() && !#[trigger] field_flags(pf)[i].1 ==> !binding_panics(c, field_flags(pf)[i].0)
}

fn all_field_flags(pf: &Vec<(String, Vec<ParamField>)>) -> (r: Vec<(String, bool)>)
    ensures
        r@.map_values(|p: (String, bool)| (p.0@, p.1)) == field_flags(pf@),
{
    let mut r: Vec<(String, bool)> = Vec::new();
    let mut i: usize = 0;
    while i < pf.len()
        invariant
            i <= pf@.len(),
            r@.map_values(|p: (String, bool)| (p.0@, p.1)) == field_flags(pf@.take(i as int)),
        decreases pf@.len() - i,
    {
        assert(pf@.take(i + 1).drop_last() =~= pf@.take(i as int));
        let fs = &pf[i].1;
        let ghost base = field_flags(pf@.take(i as int));
        let mut j: usize = 0;
        while j < fs.len()
            invariant
                j <= fs@.len(),
                fs@ == pf@[i as int].1@,
                base == field_flags(pf@.take(i as int)),
                r@.map_values(|p: (String, bool)| (p.0@, p.1)) == base + flags_of(fs@.take(j as int)),
            decreases fs@.len() - j,
        {
            let f = &fs[j];
            let skip = f.hidden || is_internal_param_name(f.name.as_str());
            let ghost r0 = r@;
            r.push((f.name.clone(), skip));
            assert(r@.map_values(|p: (String, bool)| (p.0@, p.1)) =~= r0.map_values(|p: (String, bool)| (p.0@, p.1)).push(
                (f.name@, skip),
            ));
            assert(flags_of(fs@.take(j + 1)) =~= flags_of(fs@.take(j as int)).push((f.name@, skip)));
            j = j + 1;
        }
        assert(fs@.take(fs@.len() as int) =~= fs@);
        i = i + 1;
    }
    assert(pf@.take(pf@.len() as int) =~= pf@);
    r
}

/// Splits the recorded params into referenced ones (named in the binding
/// sources: editor, process, presets, Slint) and unbound ones (alive only in
/// their Params definition); hidden and internal params are left out.
pub fn finalize_param_binding(summary: &mut AstSummary, binding_corpus: &str, lib_corpus: &str)
    requires
        is_set(old(summary).params_referenced@),
        is_set(old(summary).params_unbound@),
        binding_safe(old(summary).params_fields@, binding_corpus@),
    ensures
        *final(summary) == (AstSummary {
            params_referenced: final(summary).params_referenced,
            params_unbound: final(summary).params_unbound,
            ..*old(summary)
        }),
        is_set(final(summary).params_referenced@),
        is_set(final(summary).params_unbound@),
        strs(final(summary).params_referenced@).to_set() == strs(old(summary).params_referenced@).to_set().union(
            binding_names(field_flags(old(summary).params_fields@), binding_corpus@, true).to_set(),
        ),
        strs(final(summary).params_unbound@).to_set() == strs(old(summary).params_unbound@).to_set().union(
            binding_names(field_flags(old(summary).params_fields@), binding_corpus@, false).to_set(),
        ),
{
    let all = all_field_flags(&summary.params_fields);
    let ghost ff = field_flags(summary.params_fields@);
    let ghost a0 = *summary;
    let c = binding_corpus;
    let mut i: usize = 0;
    while i < all.len()
        invariant
            i <= all@.len(),
            all@.map_values(|p: (String, bool)| (p.0@, p.1)) == ff,
            ff == field_flags(a0.params_fields@),
            binding_safe(a0.params_fields@, c@),
            *summary == (AstSummary {
                params_referenced: summary.params_referenced,
                params_unbound: summary.params_unbound,
                ..a0
            }),
            is_set(summary.params_referenced@),
            is_set(summary.params_unbound@),
            strs(summary.params_referenced@).to_set() == strs(a0.params_referenced@).to_set().union(
                binding_names(ff.take(i as int), c@, true).to_set(),
            ),
            strs(summary.params_unbound@).to_set() == strs(a0.params_unbound@).to_set().union(
                binding_names(ff.take(i as int), c@, false).to_set(),
            ),
        decreases all@.len() - i,
    {
        assert(ff.take(i + 1).drop_last() =~= ff.take(i as int));
        assert(ff.take(i + 1).last() == ff[i as int]);
        assert(ff[i as int] == (all@[i as int].0@, all@[i as int].1));
        let name = all[i].0.as_str();
        let ghost rb = binding_names(ff.take(i as int), c@, true);
        let ghost ub = binding_names(ff.take(i as int), c@, false);
        if !all[i].1 {
            assert(!field_flags(a0.params_fields@)[i as int].1);
            assert(!binding_panics(c@, ff[i as int].0));
            let pascal = snake_to_pascal(name);
            let t = cat2(name, "_text");
            let cm = cat2(name, "_committed");
            let bound = contains_ident(c, name) || contains_ident(c, pascal.as_str()) || contains_ident(c, t.as_str())
                || contains_ident(c, cm.as_str()) || contains_str(c, pascal.as_str());
            assert(bound == in_binding(c@, name@));
            if bound {
                set_insert(&mut summary.params_referenced, all[i].0.clone());
                assert(binding_names(ff.take(i + 1), c@, true) == rb.push(name@));
                assert(binding_names(ff.take(i + 1), c@, false) =~= ub);
                proof {
                    rb.lemma_push_to_set_commute(name@);
                }
            } else {
                set_insert(&mut summary.params_unbound, all[i].0.clone());
                assert(binding_names(ff.take(i + 1), c@, false) == ub.push(name@));
                assert(binding_names(ff.take(i + 1), c@, true) =~= rb);
                proof {
                    ub.lemma_push_to_set_commute(name@);
                }
            }
            assert(strs(summary.params_referenced@).to_set() =~= strs(a0.params_referenced@).to_set().union(
                binding_names(ff.take(i + 1), c@, true).to_set(),
            ));
            assert(strs(summary.params_unbound@).to_set() =~= strs(a0.params_unbound@).to_set().union(
                binding_names(ff.take(i + 1), c@, false).to_set(),
            ));
        } else {
            assert(binding_names(ff.take(i + 1), c@, true) =~= rb);
            assert(binding_names(ff.take(i + 1), c@, false) =~= ub);
        }
        i = i + 1;
    }
    assert(ff.take(ff.len() as int) =~= ff);
    let _ = lib_corpus;
}

// ---------------------------------------------------------------------------
// Slint sources
// ---------------------------------------------------------------------------

/// `char::is_alphanumeric`: Unicode `Alphabetic` or `Numeric`.
pub uninterp spec fn unicode_alnum(c: char) -> bool;

/// `char::is_alphanumeric`; its result is named [`unicode_alnum`].
#[verifier::external_body]
fn is_alphanumeric(c: char) -> (r: bool)
    ensures
        r == unicode_alnum(c),
{
    c.is_alphanumeric()
}

/// `char::is_uppercase`: Unicode `Uppercase`.
pub uninterp spec fn unicode_uppercase(c: char) -> bool;

/// `char::is_uppercase`; its result is named [`unicode_uppercase`].
#[verifier::external_body]
fn is_uppercase(c: char) -> (r: bool)
    ensures
        r == unicode_uppercase(c),
{
    c.is_uppercase()
}

/// A character of a Slint component name.
pub open spec fn name_like(c: char) -> bool {
    unicode_alnum(c) || c == '_'
}

/// Length of the leading run of name characters.
pub open spec fn name_run(s: Seq<char>) -> nat
    decreases s.len(),
{
    if s.len() > 0 && name_like(s[0]) {
        1 + name_run(s.drop_first())
    } else {
        0
    }
}

/// What follows `export component ` / `export global ` on a trimmed line.
pub open spec fn export_rest(t: Seq<char>) -> Option<Seq<char>> {
    if starts_with(t, "export component "@) {
        Some(t.skip("export component "@.len() as int))
    } else if starts_with(t, "export global "@) {
        Some(t.skip("export global "@.len() as int))
    } else {
        None
    }
}

/// The `Lx…` name a line exports, if any.
pub open spec fn export_name(line: Seq<char>) -> Option<Seq<char>> {
    match export_rest(trim(line)) {
        Some(rest) => {
            let name = rest.take(name_run(rest) as int);
            if starts_with(name, "Lx"@) || name == "Lx"@ {
                Some(name)
            } else {
                None
            }
        },
        None => None,
    }
}

/// Exported `Lx…` names of the lines, in order.
pub open spec fn export_names(lines: Seq<Seq<char>>) -> Seq<Seq<char>>
    decreases lines.len(),
{
    if lines.len() == 0 {
        Seq::empty()
    } else {
        export_names(lines.drop_last()) + match export_name(lines.last()) {
            Some(n) => seq![n],
            None => Seq::empty(),
        }
    }
}

/// A character inside a Slint word (alphanumeric or `-`).
pub open spec fn word_like(c: char) -> bool {
    unicode_alnum(c) || c == '-'
}

/// The pieces of `s` between non-word characters (`str::split` with a
/// predicate).
pub open spec fn slint_words(s: Seq<char>) -> Seq<Seq<char>>
    decreases s.len(),
{
    if s.len() == 0 {
        seq![Seq::empty()]
    } else {
        let r = slint_words(s.drop_last());
        if !word_like(s.last()) {
            r.push(Seq::empty())
        } else {
            r.update(r.len() - 1, r.last().push(s.last()))
        }
    }
}

proof fn lemma_slint_words_nonempty(s: Seq<char>)
    ensures
        slint_words(s).len() >= 1,
    decreases s.len(),
{
    if s.len() > 0 {
        lemma_slint_words_nonempty(s.drop_last());
    }
}

/// Suffixes of `Lx…` words that name types, not components.
pub open spec fn type_suffix(e: Seq<char>) -> bool {
    e == "Result"@ || e == "Error"@ || e == "Value"@ || e == "Ptr"@ || e == "Str"@ || e == "Type"@ || e == "Data"@
        || e == "Info"@ || e == "Mode"@
}

/// Every character is a word character.
pub open spec fn all_word_like(s: Seq<char>) -> bool {
    forall|i: int| 0 <= i < s.len() ==> word_like(#[trigger] s[i])
}

/// Components a (trimmed) word names: `LxKnob` itself, and `lx-big-knob`
/// as `LxBigKnob`.
pub open spec fn word_components(w: Seq<char>) -> Set<Seq<char>> {
    let direct = starts_with(w, "Lx"@) && w.len() > 2 && unicode_uppercase(w[2]) && !type_suffix(w.skip(2));
    let kebab = w.skip(3);
    let p = pascal_of(kebab, '-');
    let dashed = starts_with(w, "lx-"@) && w.len() > 3 && all_word_like(kebab) && !starts_with(kebab, "-"@) && p.len() > 0;
    sig_if(direct, w).union(sig_if(dashed, "Lx"@ + p))
}

/// Components named by the words of a text.
pub open spec fn words_components(ws: Seq<Seq<char>>) -> Set<Seq<char>>
    decreases ws.len(),
{
    if ws.len() == 0 {
        Set::empty()
    } else {
        words_components(ws.drop_last()).union(word_components(trim(ws.last())))
    }
}

fn split_slint_words(s: &str) -> (r: Vec<String>)
    ensures
        strs(r@) == slint_words(s@),
{
    let x = chars_of(s);
    let mut pieces: Vec<String> = Vec::new();
    let mut cur = String::new();
    let mut i: usize = 0;
    while i < x.len()
        invariant
            x@ == s@,
            i <= x@.len(),
            slint_words(s@.take(i as int)) == strs(pieces@).push(cur@),
        decreases x@.len() - i,
    {
        assert(s@.take(i + 1).drop_last() =~= s@.take(i as int));
        let c = x[i];
        if !(is_alphanumeric(c) || c == '-') {
            let ghost p0 = pieces@;
            pieces.push(cur);
            cur = String::new();
            proof {
                lemma_strs_push(p0, pieces@.last());
                assert(slint_words(s@.take(i + 1)) =~= strs(pieces@).push(cur@));
            }
        } else {
            push_char(&mut cur, c);
            assert(slint_words(s@.take(i + 1)) =~= strs(pieces@).push(cur@));
        }
        i = i + 1;
    }
    assert(s@.take(x@.len() as int) =~= s@);
    let ghost p0 = pieces@;
    pieces.push(cur);
    proof {
        lemma_strs_push(p0, pieces@.last());
    }
    pieces
}

fn name_prefix(rest: &str) -> (r: String)
    ensures
        r@ == rest@.take(name_run(rest@) as int),
{
    let x = chars_of(rest);
    let mut i: usize = 0;
    assert(x@.skip(0) =~= x@);
    while i < x.len() && (is_alphanumeric(x[i]) || x[i] == '_')
        invariant
            i <= x@.len(),
            x@ == rest@,
            name_run(rest@) == i + name_run(rest@.skip(i as int)),
        decreases x@.len() - i,
    {
        assert(rest@.skip(i as int).drop_first() =~= rest@.skip(i + 1));
        i = i + 1;
    }
    assert(name_run(rest@.skip(i as int)) == 0);
    assert(x@.subrange(0, i as int) =~= rest@.take(i as int));
    slice_string(&x, 0, i)
}

fn export_name_of(line: &str) -> (r: Option<String>)
    ensures
        crate::text::opt_view(r) == export_name(line@),
{
    let t = trim_str(line);
    let rest = if starts_with_str(t.as_str(), "export component ") {
        crate::text::drop_prefix_str(t.as_str(), "export component ")
    } else if starts_with_str(t.as_str(), "export global ") {
        crate::text::drop_prefix_str(t.as_str(), "export global ")
    } else {
        return None;
    };
    let name = name_prefix(rest.as_str());
    if starts_with_str(name.as_str(), "Lx") || str_eq(name.as_str(), "Lx") {
        Some(name)
    } else {
        None
    }
}

fn all_word_chars(x: &Vec<char>, from: usize) -> (r: bool)
    requires
        from <= x@.len(),
    ensures
        r == all_word_like(x@.skip(from as int)),
{
    let mut i = from;
    while i < x.len()
        invariant
            from <= i <= x@.len(),
            forall|j: int| from <= j < i ==> word_like(#[trigger] x@[j]),
        decreases x@.len() - i,
    {
        if !(is_alphanumeric(x[i]) || x[i] == '-') {
            assert(x@.skip(from as int)[i - from] == x@[i as int]);
            return false;
        }
        i = i + 1;
    }
    assert forall|j: int| 0 <= j < x@.skip(from as int).len() implies word_like(#[trigger] x@.skip(from as int)[j]) by {
        assert(x@.skip(from as int)[j] == x@[from + j]);
    }
    true
}

fn add_word_components(comps: &mut Vec<String>, w: &str)
    requires
        is_set(old(comps)@),
    ensures
        is_set(final(comps)@),
        strs(final(comps)@).to_set() == strs(old(comps)@).to_set().union(word_components(w@)),
{
    let x = chars_of(w);
    let direct = starts_with_str(w, "Lx") && x.len() > 2 && is_uppercase(x[2]) && {
        let e = slice_string(&x, 2, x.len());
        assert(x@.subrange(2, x@.len() as int) =~= w@.skip(2));
        let es = e.as_str();
        !(str_eq(es, "Result") || str_eq(es, "Error") || str_eq(es, "Value") || str_eq(es, "Ptr") || str_eq(es, "Str")
            || str_eq(es, "Type") || str_eq(es, "Data") || str_eq(es, "Info") || str_eq(es, "Mode"))
    };
    add_if(comps, direct, w);
    let ghost c1 = strs(comps@).to_set();
    if starts_with_str(w, "lx-") && x.len() > 3 {
        let kebab = slice_string(&x, 3, x.len());
        assert(x@.subrange(3, x@.len() as int) =~= w@.skip(3));
        if all_word_chars(&x, 3) && !starts_with_str(kebab.as_str(), "-") {
            let p = pascal_with(kebab.as_str(), '-');
            if chars_of(p.as_str()).len() > 0 {
                let name = cat2("Lx", p.as_str());
                set_insert(comps, name);
            }
        }
    }
    assert(strs(comps@).to_set() =~= strs(old(comps)@).to_set().union(word_components(w@)));
}

/// Adds the `Lx…` components a Slint file uses, and the ones it exports.
pub fn analyze_slint_file(content: &str, summary: &mut AstSummary)
    requires
        is_set(old(summary).slint_components@),
        is_set(old(summary).slint_exports@),
    ensures
        *final(summary) == (AstSummary {
            slint_components: final(summary).slint_components,
            slint_exports: final(summary).slint_exports,
            ..*old(summary)
        }),
        is_set(final(summary).slint_components@),
        is_set(final(summary).slint_exports@),
        strs(final(summary).slint_exports@).to_set() == strs(old(summary).slint_exports@).to_set().union(
            export_names(raw_lines(content@)).to_set(),
        ),
        strs(final(summary).slint_components@).to_set() == strs(old(summary).slint_components@).to_set().union(
            export_names(raw_lines(content@)).to_set(),
        ).union(words_components(slint_words(content@))),
{
    let ghost a0 = *summary;
    let lines = raw_lines_of(content);
    let ghost ls = strs(lines@);
    let mut i: usize = 0;
    while i < lines.len()
        invariant
            i <= lines@.len(),
            ls == strs(lines@),
            ls == raw_lines(content@),
            *summary == (AstSummary {
                slint_components: summary.slint_components,
                slint_exports: summary.slint_exports,
                ..a0
            }),
            is_set(summary.slint_components@),
            is_set(summary.slint_exports@),
            strs(summary.slint_exports@).to_set() == strs(a0.slint_exports@).to_set().union(
                export_names(ls.take(i as int)).to_set(),
            ),
            strs(summary.slint_components@).to_set() == strs(a0.slint_components@).to_set().union(
                export_names(ls.take(i as int)).to_set(),
            ),
        decreases lines@.len() - i,
    {
        assert(ls.take(i + 1).drop_last() =~= ls.take(i as int));
        let ghost before = export_names(ls.take(i as int));
        match export_name_of(lines[i].as_str()) {
            Some(name) => {
                set_insert(&mut summary.slint_exports, name.clone());
                set_insert(&mut summary.slint_components, name);
                assert(export_names(ls.take(i + 1)) == before.push(name@));
                proof {
                    before.lemma_push_to_set_commute(name@);
                }
                assert(strs(summary.slint_exports@).to_set() =~= strs(a0.slint_exports@).to_set().union(
                    export_names(ls.take(i + 1)).to_set(),
                ));
                assert(strs(summary.slint_components@).to_set() =~= strs(a0.slint_components@).to_set().union(
                    export_names(ls.take(i + 1)).to_set(),
                ));
            },
            None => {
                assert(export_names(ls.take(i + 1)) =~= before);
            },
        }
        i = i + 1;
    }
    assert(ls.take(ls.len() as int) =~= ls);
    let ghost e = export_names(ls).to_set();
    let words = split_slint_words(content);
    let ghost ws = strs(words@);
    let mut j: usize = 0;
    while j < words.len()
        invariant
            j <= words@.len(),
            ws == strs(words@),
            *summary == (AstSummary {
                slint_components: summary.slint_components,
                slint_exports: summary.slint_exports,
                ..a0
            }),
            is_set(summary.slint_components@),
            is_set(summary.slint_exports@),
            strs(summary.slint_exports@).to_set() == strs(a0.slint_exports@).to_set().union(e),
            strs(summary.slint_components@).to_set() == strs(a0.slint_components@).to_set().union(e).union(
                words_components(ws.take(j as int)),
            ),
        decreases words@.len() - j,
    {
        assert(ws.take(j + 1).drop_last() =~= ws.take(j as int));
        let w = trim_str(words[j].as_str());
        add_word_components(&mut summary.slint_components, w.as_str());
        assert(strs(summary.slint_components@).to_set() =~= strs(a0.slint_components@).to_set().union(e).union(
            words_components(ws.take(j + 1)),
        ));
        j = j + 1;
    }
    assert(ws.take(ws.len() as int) =~= ws);
}

// ---------------------------------------------------------------------------
// Macro arguments and `#[param]` attributes
// ---------------------------------------------------------------------------

/// Where a macro argument value ends: the first `,`, `}` or line break
/// outside `<…>` nesting (the depth counter is a wrapping `u32`).
pub open spec fn arg_end_from(s: Seq<char>, i: int, depth: nat) -> int
    decreases s.len() - i,
{
    if i < 0 || i >= s.len() {
        s.len() as int
    } else if s[i] == '<' {
        arg_end_from(s, i + 1, if depth == u32::MAX { 0 } else { depth + 1 })
    } else if s[i] == '>' {
        arg_end_from(s, i + 1, if depth == 0 { 0 } else { (depth - 1) as nat })
    } else if (s[i] == ',' || s[i] == '}' || s[i] == '\n') && depth == 0 {
        i
    } else {
        arg_end_from(s, i + 1, depth)
    }
}

pub open spec fn arg_end(s: Seq<char>) -> int {
    arg_end_from(s, 0, 0)
}

proof fn lemma_arg_end_bounds(s: Seq<char>, i: int, depth: nat)
    requires
        0 <= i <= s.len(),
    ensures
        i <= arg_end_from(s, i, depth) <= s.len(),
    decreases s.len() - i,
{
    if i < s.len() {
        let d1: nat = if depth == u32::MAX { 0 } else { depth + 1 };
        let d2: nat = if depth == 0 { 0 } else { (depth - 1) as nat };
        lemma_arg_end_bounds(s, i + 1, d1);
        lemma_arg_end_bounds(s, i + 1, d2);
        lemma_arg_end_bounds(s, i + 1, depth);
    }
}

/// End of a macro argument value (see [`arg_end`]), in characters.
pub fn find_arg_end(s: &str) -> (r: usize)
    ensures
        r as int == arg_end(s@),
        r <= s@.len(),
{
    proof {
        lemma_arg_end_bounds(s@, 0, 0);
    }
    let x = chars_of(s);
    let mut depth: u32 = 0;
    let mut i: usize = 0;
    while i < x.len()
        invariant
            i <= x@.len(),
            x@ == s@,
            arg_end(s@) == arg_end_from(s@, i as int, depth as nat),
        decreases x@.len() - i,
    {
        let c = x[i];
        if c == '<' {
            depth = if depth == u32::MAX { 0 } else { depth + 1 };
        } else if c == '>' {
            depth = if depth == 0 { 0 } else { depth - 1 };
        } else if (c == ',' || c == '}' || c == '\n') && depth == 0 {
            return i;
        }
        i = i + 1;
    }
    i
}

/// The value of `key: value` in macro tokens, trimmed; none when the key is
/// missing, not followed by `:`, or the value is empty.
pub open spec fn macro_arg(tokens: Seq<char>, key: Seq<char>) -> Option<Seq<char>> {
    match find(tokens, key) {
        Some(k) => {
            let rest = trim_start(tokens.skip(k + key.len()));
            if rest.len() > 0 && rest[0] == ':' {
                let r2 = trim_start(rest.skip(1));
                let v = trim(r2.take(arg_end(r2)));
                if v.len() > 0 {
                    Some(v)
                } else {
                    None
                }
            } else {
                None
            }
        },
        None => None,
    }
}

fn skip_chars(s: &str, n: usize) -> (r: String)
    requires
        n <= s@.len(),
    ensures
        r@ == s@.skip(n as int),
{
    let x = chars_of(s);
    assert(x@.subrange(n as int, x@.len() as int) =~= s@.skip(n as int));
    slice_string(&x, n, x.len())
}

fn take_chars(s: &str, n: usize) -> (r: String)
    requires
        n <= s@.len(),
    ensures
        r@ == s@.take(n as int),
{
    let x = chars_of(s);
    assert(x@.subrange(0, n as int) =~= s@.take(n as int));
    slice_string(&x, 0, n)
}

fn after_found(s: &str, k: usize, p: &str) -> (r: String)
    requires
        find(s@, p@) == Some(k as int),
    ensures
        r@ == s@.skip(k + p@.len()),
{
    proof {
        crate::text::lemma_find_from(s@, p@, 0);
        assert(occurs_at(s@, p@, k as int));
    }
    let n = chars_of(p).len();
    let ln = chars_of(s).len();
    assert(k + n <= ln);
    skip_chars(s, k + n)
}

/// `key: value` of macro tokens (see [`macro_arg`]).
pub fn extract_macro_arg(tokens: &str, key: &str) -> (r: Option<String>)
    ensures
        opt_view(r) == macro_arg(tokens@, key@),
{
    let k = match find_str(tokens, key) {
        Some(k) => k,
        None => return None,
    };
    let after = after_found(tokens, k, key);
    let rest = trim_start_str(after.as_str());
    let rc = chars_of(rest.as_str());
    if rc.len() == 0 || rc[0] != ':' {
        return None;
    }
    let r1 = skip_chars(rest.as_str(), 1);
    let r2 = trim_start_str(r1.as_str());
    let end = find_arg_end(r2.as_str());
    let v = trim_str(take_chars(r2.as_str(), end).as_str());
    if chars_of(v.as_str()).len() > 0 {
        Some(v)
    } else {
        None
    }
}

/// The quoted value of `key = "value"` in attribute tokens.
pub open spec fn string_assign(tokens: Seq<char>, key: Seq<char>) -> Option<Seq<char>> {
    let pat = key + " ="@;
    match find(tokens, pat) {
        Some(k) => {
            let rest = trim_start(tokens.skip(k + pat.len()));
            if rest.len() > 0 && rest[0] == '"' {
                let st = rest.skip(1);
                match find(st, "\""@) {
                    Some(e) => Some(st.take(e)),
                    None => None,
                }
            } else {
                None
            }
        },
        None => None,
    }
}

/// `key = "value"` of attribute tokens (see [`string_assign`]).
pub fn extract_string_assign(tokens: &str, key: &str) -> (r: Option<String>)
    ensures
        opt_view(r) == string_assign(tokens@, key@),
{
    let pat = cat2(key, " =");
    let k = match find_str(tokens, pat.as_str()) {
        Some(k) => k,
        None => return None,
    };
    let after = after_found(tokens, k, pat.as_str());
    let rest = trim_start_str(after.as_str());
    let rc = chars_of(rest.as_str());
    if rc.len() == 0 || rc[0] != '"' {
        return None;
    }
    let st = skip_chars(rest.as_str(), 1);
    match find_str(st.as_str(), "\"") {
        Some(e) => {
            proof {
                crate::text::lemma_find_from(st@, "\""@, 0);
                assert(occurs_at(st@, "\""@, e as int));
            }
            Some(take_chars(st.as_str(), e))
        },
        None => None,
    }
}

/// Display name and hidden flag of a `#[param(...)]` attribute.
#[derive(Debug, Clone)]
pub struct ParamMeta {
    pub display_name: Option<String>,
    pub hidden: bool,
}

/// Some `|`-separated flag is `bypass` (after trimming).
pub open spec fn has_bypass(flags: Seq<char>) -> bool {
    exists|i: int| 0 <= i < split_on(flags, '|').len() && trim(#[trigger] split_on(flags, '|')[i]) == "bypass"@
}

/// A param is hidden when its flags say `hidden` or `bypass`, or its display
/// name starts with `_` (flags compared ASCII case-insensitively).
pub open spec fn meta_hidden(tokens: Seq<char>) -> bool {
    let dn = string_assign(tokens, "name"@);
    let fl = lower(
        match string_assign(tokens, "flags"@) {
            Some(f) => f,
            None => Seq::empty(),
        },
    );
    has_sub(fl, "hidden"@) || has_bypass(fl) || (dn is Some && starts_with(dn->0, "_"@))
}

fn any_bypass(fl: &str) -> (r: bool)
    ensures
        r == has_bypass(fl@),
{
    let parts = split_char(fl, '|');
    let mut i: usize = 0;
    while i < parts.len()
        invariant
            i <= parts@.len(),
            strs(parts@) == split_on(fl@, '|'),
            forall|j: int| 0 <= j < i ==> trim(#[trigger] split_on(fl@, '|')[j]) != "bypass"@,
        decreases parts@.len() - i,
    {
        let t = trim_str(parts[i].as_str());
        assert(split_on(fl@, '|')[i as int] == parts@[i as int]@);
        if str_eq(t.as_str(), "bypass") {
            return true;
        }
        i = i + 1;
    }
    false
}

/// The meta of `#[param(...)]` attribute tokens.
pub fn param_meta_of(tokens: &str) -> (m: ParamMeta)
    ensures
        opt_view(m.display_name) == string_assign(tokens@, "name"@),
        m.hidden == meta_hidden(tokens@),
{
    let display_name = extract_string_assign(tokens, "name");
    let flags = match extract_string_assign(tokens, "flags") {
        Some(f) => f,
        None => String::new(),
    };
    let fl = to_ascii_lower(flags.as_str());
    let dn_hidden = match &display_name {
        Some(n) => starts_with_str(n.as_str(), "_"),
        None => false,
    };
    let hidden = contains_str(fl.as_str(), "hidden") || any_bypass(fl.as_str()) || dn_hidden;
    ParamMeta { display_name, hidden }
}

/// A struct field counts as a param when it carries `#[param(...)]` or its
/// type is a `…Param` / `…Param<…>`.
pub open spec fn looks_like_param(ty: Seq<char>, tokens: Option<Seq<char>>) -> bool {
    tokens is Some || ends_with(ty, "Param"@) || has_sub(ty, "Param<"@)
}

/// The param record of a Params struct field: its name, compact type, the
/// tokens of its first `#[param(...)]` attribute if any.
pub fn param_field_of(name: &str, ty: &str, param_tokens: Option<&str>) -> (r: Option<ParamField>)
    ensures
        r is Some <==> looks_like_param(ty@, match param_tokens {
            Some(t) => Some(t@),
            None => None,
        }),
        r matches Some(f) ==> {
            &&& f.name@ == name@
            &&& f.ty@ == ty@
            &&& opt_view(f.display_name) == match param_tokens {
                Some(t) => string_assign(t@, "name"@),
                None => None,
            }
            &&& f.hidden == (match param_tokens {
                Some(t) => meta_hidden(t@),
                None => false,
            } || internal_param(name@))
        },
{
    let meta: Option<ParamMeta> = match param_tokens {
        Some(t) => Some(param_meta_of(t)),
        None => None,
    };
    let looks = meta.is_some() || ends_with_str(ty, "Param") || contains_str(ty, "Param<");
    if !looks {
        return None;
    }
    let (display_name, meta_hidden_flag) = match meta {
        Some(m) => (m.display_name, m.hidden),
        None => (None, false),
    };
    let hidden = meta_hidden_flag || is_internal_param_name(name);
    Some(ParamField { name: owned(name), ty: owned(ty), display_name, hidden })
}

// ---------------------------------------------------------------------------
// Rust syntax items
// ---------------------------------------------------------------------------

/// A named field of a struct: name, compact type text, and the tokens of its
/// first `#[param(...)]` list attribute.
#[derive(Debug, Clone)]
pub struct FieldInput {
    pub name: String,
    pub ty: String,
    pub param_tokens: Option<String>,
}

/// One item met while walking a Rust file, in walk order (items nested in an
/// `impl` come between its `ImplStart` and `ImplEnd`).
#[derive(Debug, Clone)]
pub enum SyntaxEvent {
    /// An `impl` block opens: last path segment of the implemented trait (trait
    /// impls only) and of the self type (path types only).
    ImplStart { trait_name: Option<String>, self_name: Option<String> },
    /// The innermost open `impl` block closes.
    ImplEnd,
    /// An item macro: its path (`a::b`) and its token text.
    Macro { path: String, tokens: String },
    /// A free function.
    Fn { name: String, is_pub: bool },
    /// A function inside an `impl` block.
    ImplFn { name: String },
    /// A struct: name, visibility, the names its derives list, and its named
    /// fields (none for tuple and unit structs).
    Struct { name: String, is_pub: bool, derives: Vec<String>, fields: Vec<FieldInput> },
    /// An enum.
    Enum { name: String, is_pub: bool },
    /// A trait.
    Trait { name: String, is_pub: bool },
    /// A `use` item, its tree written as text (`a::b::{c,d}`).
    Use { path: String },
}

/// The set-valued facts of a summary a syntax item can add to.
#[derive(Debug, Clone, Copy, PartialEq, Eq, Structural)]
pub enum Slot {
    PluginImpls,
    PluginLogicImpls,
    PluginMacroTypes,
    ParamsImpls,
    ParamsStructs,
    ProcessFunctions,
    ProcessHooks,
    EditorFunctions,
    EditorAdapters,
    ImportedCrates,
    PublicApi,
    IpcSignals,
    Symbols,
}

/// The contents of a summary slot (symbols are kept per file elsewhere).
pub open spec fn slot_set(a: AstSummary, slot: Slot) -> Set<Seq<char>> {
    match slot {
        Slot::PluginImpls => strs(a.plugin_impls@).to_set(),
        Slot::PluginLogicImpls => strs(a.plugin_logic_impls@).to_set(),
        Slot::PluginMacroTypes => strs(a.plugin_macro_types@).to_set(),
        Slot::ParamsImpls => strs(a.params_impls@).to_set(),
        Slot::ParamsStructs => strs(a.params_structs@).to_set(),
        Slot::ProcessFunctions => strs(a.process_functions@).to_set(),
        Slot::ProcessHooks => strs(a.process_hooks@).to_set(),
        Slot::EditorFunctions => strs(a.editor_functions@).to_set(),
        Slot::EditorAdapters => strs(a.imported_editor_adapters@).to_set(),
        Slot::ImportedCrates => strs(a.imported_crates@).to_set(),
        Slot::PublicApi => strs(a.public_api@).to_set(),
        Slot::IpcSignals => strs(a.ipc_signals@).to_set(),
        Slot::Symbols => Set::empty(),
    }
}

/// Every slot of the summary is a sorted set.
pub open spec fn slots_wf(a: AstSummary) -> bool {
    &&& is_set(a.plugin_impls@)
    &&& is_set(a.plugin_logic_impls@)
    &&& is_set(a.plugin_macro_types@)
    &&& is_set(a.params_impls@)
    &&& is_set(a.params_structs@)
    &&& is_set(a.process_functions@)
    &&& is_set(a.process_hooks@)
    &&& is_set(a.editor_functions@)
    &&& is_set(a.imported_editor_adapters@)
    &&& is_set(a.imported_crates@)
    &&& is_set(a.public_api@)
    &&& is_set(a.ipc_signals@)
}

/// The fields a syntax walk does not touch are equal.
pub open spec fn walk_keeps(a0: AstSummary, a: AstSummary) -> bool {
    &&& a.params_referenced == a0.params_referenced
    &&& a.params_unbound == a0.params_unbound
    &&& a.slint_components == a0.slint_components
    &&& a.slint_exports == a0.slint_exports
    &&& a.file_roles == a0.file_roles
    &&& a.files == a0.files
    &&& a.features == a0.features
    &&& a.plugin_formats == a0.plugin_formats
}

/// Only `slot` may have changed, by adding `v`.
pub open spec fn added_one(a0: AstSummary, a: AstSummary, slot: Slot, v: Seq<char>) -> bool {
    &&& slots_wf(a)
    &&& walk_keeps(a0, a)
    &&& a.params_fields == a0.params_fields
    &&& a.symbols_by_file == a0.symbols_by_file
    &&& a.process_method_count == a0.process_method_count
    &&& forall|q: Slot| #[trigger] slot_set(a, q) == if q == slot && slot != Slot::Symbols {
        slot_set(a0, q).insert(v)
    } else {
        slot_set(a0, q)
    }
}

fn add_to_slot(a: &mut AstSummary, slot: Slot, v: String)
    requires
        slots_wf(*old(a)),
    ensures
        added_one(*old(a), *final(a), slot, v@),
{
    match slot {
        Slot::PluginImpls => set_insert(&mut a.plugin_impls, v),
        Slot::PluginLogicImpls => set_insert(&mut a.plugin_logic_impls, v),
        Slot::PluginMacroTypes => set_insert(&mut a.plugin_macro_types, v),
        Slot::ParamsImpls => set_insert(&mut a.params_impls, v),
        Slot::ParamsStructs => set_insert(&mut a.params_structs, v),
        Slot::ProcessFunctions => set_insert(&mut a.process_functions, v),
        Slot::ProcessHooks => set_insert(&mut a.process_hooks, v),
        Slot::EditorFunctions => set_insert(&mut a.editor_functions, v),
        Slot::EditorAdapters => set_insert(&mut a.imported_editor_adapters, v),
        Slot::ImportedCrates => set_insert(&mut a.imported_crates, v),
        Slot::PublicApi => set_insert(&mut a.public_api, v),
        Slot::IpcSignals => set_insert(&mut a.ipc_signals, v),
        Slot::Symbols => {},
    }
}

/// (inside a `PluginLogic` impl, inside a `Plugin` impl, saved states of
/// the enclosing impls).
pub type WalkFlags = (bool, bool, Seq<(bool, bool)>);

/// The walk state after an item.
pub open spec fn next_flags(e: SyntaxEvent, fl: WalkFlags) -> WalkFlags {
    match e {
        SyntaxEvent::ImplStart { trait_name, self_name } => {
            let saved = fl.2.push((fl.0, fl.1));
            if trait_name is Some && self_name is Some {
                let t = trait_name->0@;
                (if t == "PluginLogic"@ { true } else { fl.0 }, if t == "Plugin"@ { true } else { fl.1 }, saved)
            } else {
                (fl.0, fl.1, saved)
            }
        },
        SyntaxEvent::ImplEnd => if fl.2.len() > 0 {
            (fl.2.last().0, fl.2.last().1, fl.2.drop_last())
        } else {
            fl
        },
        _ => fl,
    }
}

/// Additions as (slot, value) pairs.
pub open spec fn adds(slot: Slot, vs: Seq<Seq<char>>) -> Seq<(Slot, Seq<char>)> {
    vs.map_values(|v: Seq<char>| (slot, v))
}

/// A value with its symbol line.
pub open spec fn with_symbol(slot: Slot, v: Seq<char>, sym: Seq<char>) -> Seq<(Slot, Seq<char>)> {
    seq![(slot, v), (Slot::Symbols, sym)]
}

/// `xs` when `cond` holds.
pub open spec fn adds_if(cond: bool, xs: Seq<(Slot, Seq<char>)>) -> Seq<(Slot, Seq<char>)> {
    if cond {
        xs
    } else {
        Seq::empty()
    }
}

/// What a trait impl records.
pub open spec fn impl_adds(trait_name: Option<String>, self_name: Option<String>) -> Seq<(Slot, Seq<char>)> {
    if trait_name is Some && self_name is Some {
        let t = trait_name->0@;
        let n = self_name->0@;
        if t == "Plugin"@ {
            with_symbol(Slot::PluginImpls, n, "impl Plugin for "@ + n)
        } else if t == "PluginLogic"@ {
            with_symbol(Slot::PluginLogicImpls, n, "impl PluginLogic for "@ + n)
        } else if t == "Params"@ {
            with_symbol(Slot::ParamsImpls, n, "impl Params for "@ + n)
        } else {
            Seq::empty()
        }
    } else {
        Seq::empty()
    }
}

/// What a `truce::plugin!`-style macro records: its logic and params types.
pub open spec fn macro_adds(path: Seq<char>, tokens: Seq<char>) -> Seq<(Slot, Seq<char>)> {
    if path == "truce::plugin"@ || ends_with(path, "::plugin"@) {
        (match macro_arg(tokens, "logic"@) {
            Some(l) => with_symbol(Slot::PluginMacroTypes, l, "truce::plugin! logic: "@ + l),
            None => Seq::empty(),
        }) + match macro_arg(tokens, "params"@) {
            Some(p) => with_symbol(Slot::ParamsStructs, p, "truce::plugin! params: "@ + p),
            None => Seq::empty(),
        }
    } else {
        Seq::empty()
    }
}

/// What a free function records.
pub open spec fn fn_adds(name: Seq<char>, is_pub: bool, file: Seq<char>) -> Seq<(Slot, Seq<char>)> {
    adds_if(is_pub, seq![(Slot::PublicApi, "fn "@ + name)]) + if name == "process"@ {
        seq![(Slot::ProcessFunctions, name), (Slot::ProcessHooks, "fn process @ "@ + file), (Slot::Symbols, "fn process"@)]
    } else if name == "editor"@ {
        seq![(Slot::EditorFunctions, name), (Slot::Symbols, "fn editor"@)]
    } else {
        Seq::empty()
    }
}

/// What a function inside an `impl` records: hooks of plugin impls only.
pub open spec fn impl_fn_adds(name: Seq<char>, file: Seq<char>, in_logic: bool, in_plugin: bool) -> Seq<(Slot, Seq<char>)> {
    if name == "process"@ && (in_logic || in_plugin) {
        seq![
            (Slot::ProcessFunctions, name),
            (Slot::ProcessHooks, "PluginLogic::process @ "@ + file),
            (Slot::Symbols, "fn process (plugin hook)"@),
        ]
    } else if name == "editor"@ && (in_logic || in_plugin) {
        seq![(Slot::EditorFunctions, name), (Slot::Symbols, "fn editor (plugin hook)"@)]
    } else {
        Seq::empty()
    }
}

/// What a struct records: public API, and `…Params` structs.
pub open spec fn struct_adds(name: Seq<char>, is_pub: bool, derives: Seq<Seq<char>>) -> Seq<(Slot, Seq<char>)> {
    let params = ends_with(name, "Params"@);
    adds_if(is_pub, seq![(Slot::PublicApi, "struct "@ + name)]) + adds_if(
        params,
        with_symbol(Slot::ParamsStructs, name, "struct "@ + name),
    ) + adds_if(params && derives.contains("Params"@), with_symbol(Slot::ParamsStructs, name, "#[derive(Params)] "@ + name))
}

/// What a `use` item records: imported crate, editor adapters, IPC hints.
pub open spec fn use_adds(path: Seq<char>) -> Seq<(Slot, Seq<char>)> {
    (match crate::config::use_path_crate(path) {
        Some(c) => with_symbol(Slot::ImportedCrates, c, "use "@ + c),
        None => Seq::empty(),
    }) + adds_if(
        has_sub(path, "truce_slint"@) || has_sub(path, "truce-slint"@),
        with_symbol(Slot::EditorAdapters, "truce-slint"@, "use truce-slint"@),
    ) + adds_if(
        has_sub(path, "lx_slint_editor"@) || has_sub(path, "lx-slint-editor"@),
        with_symbol(Slot::EditorAdapters, "lx-slint-editor"@, "use lx-slint-editor"@),
    ) + adds_if(has_sub(path, "shm"@) || has_sub(path, "shared_memory"@), seq![(Slot::IpcSignals, "shm"@)]) + adds_if(
        has_sub(path, "relay"@),
        seq![(Slot::IpcSignals, "relay"@)],
    )
}

/// What one item records, given the walk state before it.
pub open spec fn event_adds(e: SyntaxEvent, file: Seq<char>, in_logic: bool, in_plugin: bool) -> Seq<(Slot, Seq<char>)> {
    match e {
        SyntaxEvent::ImplStart { trait_name, self_name } => impl_adds(trait_name, self_name),
        SyntaxEvent::ImplEnd => Seq::empty(),
        SyntaxEvent::Macro { path, tokens } => macro_adds(path@, tokens@),
        SyntaxEvent::Fn { name, is_pub } => fn_adds(name@, is_pub, file),
        SyntaxEvent::ImplFn { name } => impl_fn_adds(name@, file, in_logic, in_plugin),
        SyntaxEvent::Struct { name, is_pub, derives, fields } => struct_adds(name@, is_pub, strs(derives@)),
        SyntaxEvent::Enum { name, is_pub } => adds_if(is_pub, seq![(Slot::PublicApi, "enum "@ + name@)]),
        SyntaxEvent::Trait { name, is_pub } => adds_if(is_pub, seq![(Slot::PublicApi, "trait "@ + name@)]),
        SyntaxEvent::Use { path } => use_adds(path@),
    }
}

/// The walk state after a run of items (starting outside any impl).
pub open spec fn flags_after(es: Seq<SyntaxEvent>) -> WalkFlags
    decreases es.len(),
{
    if es.len() == 0 {
        (false, false, Seq::empty())
    } else {
        next_flags(es.last(), flags_after(es.drop_last()))
    }
}

/// Everything a run of items records, in order.
pub open spec fn walk_adds(es: Seq<SyntaxEvent>, file: Seq<char>) -> Seq<(Slot, Seq<char>)>
    decreases es.len(),
{
    if es.len() == 0 {
        Seq::empty()
    } else {
        let fl = flags_after(es.drop_last());
        walk_adds(es.drop_last(), file) + event_adds(es.last(), file, fl.0, fl.1)
    }
}

/// Values recorded into one slot.
pub open spec fn slot_values(ads: Seq<(Slot, Seq<char>)>, slot: Slot) -> Set<Seq<char>> {
    Set::new(|v: Seq<char>| ads.contains((slot, v)))
}

/// Views of (slot, value) additions.
pub open spec fn avs(v: Seq<(Slot, String)>) -> Seq<(Slot, Seq<char>)> {
    v.map_values(|p: (Slot, String)| (p.0, p.1@))
}

fn push_add(v: &mut Vec<(Slot, String)>, slot: Slot, x: String)
    ensures
        avs(final(v)@) == avs(old(v)@).push((slot, x@)),
{
    let ghost v0 = v@;
    v.push((slot, x));
    assert(avs(v@) =~= avs(v0).push((slot, x@)));
}

fn push_with_symbol(v: &mut Vec<(Slot, String)>, slot: Slot, x: String, sym: String)
    ensures
        avs(final(v)@) == avs(old(v)@) + with_symbol(slot, x@, sym@),
{
    let ghost v0 = avs(v@);
    push_add(v, slot, x);
    push_add(v, Slot::Symbols, sym);
    assert(avs(v@) =~= v0 + with_symbol(slot, x@, sym@));
}

fn impl_adds_of(trait_name: &Option<String>, self_name: &Option<String>) -> (r: Vec<(Slot, String)>)
    ensures
        avs(r@) == impl_adds(*trait_name, *self_name),
{
    let mut r: Vec<(Slot, String)> = Vec::new();
    match (trait_name, self_name) {
        (Some(t), Some(n)) => {
            let ts = t.as_str();
            let ns = n.as_str();
            if str_eq(ts, "Plugin") {
                push_with_symbol(&mut r, Slot::PluginImpls, owned(ns), cat2("impl Plugin for ", ns));
            } else if str_eq(ts, "PluginLogic") {
                push_with_symbol(&mut r, Slot::PluginLogicImpls, owned(ns), cat2("impl PluginLogic for ", ns));
            } else if str_eq(ts, "Params") {
                push_with_symbol(&mut r, Slot::ParamsImpls, owned(ns), cat2("impl Params for ", ns));
            }
            assert(avs(r@) =~= impl_adds(*trait_name, *self_name));
        },
        _ => {
            assert(avs(r@) =~= impl_adds(*trait_name, *self_name));
        },
    }
    r
}

fn macro_adds_of(path: &str, tokens: &str) -> (r: Vec<(Slot, String)>)
    ensures
        avs(r@) == macro_adds(path@, tokens@),
{
    let mut r: Vec<(Slot, String)> = Vec::new();
    if str_eq(path, "truce::plugin") || ends_with_str(path, "::plugin") {
        match extract_macro_arg(tokens, "logic") {
            Some(l) => {
                let sym = cat2("truce::plugin! logic: ", l.as_str());
                push_with_symbol(&mut r, Slot::PluginMacroTypes, l, sym);
            },
            None => {},
        }
        let ghost r1 = avs(r@);
        match extract_macro_arg(tokens, "params") {
            Some(p) => {
                let sym = cat2("truce::plugin! params: ", p.as_str());
                push_with_symbol(&mut r, Slot::ParamsStructs, p, sym);
            },
            None => {},
        }
        assert(avs(r@) =~= macro_adds(path@, tokens@));
    } else {
        assert(avs(r@) =~= macro_adds(path@, tokens@));
    }
    r
}

fn fn_adds_of(name: &str, is_pub: bool, file: &str) -> (r: Vec<(Slot, String)>)
    ensures
        avs(r@) == fn_adds(name@, is_pub, file@),
{
    let mut r: Vec<(Slot, String)> = Vec::new();
    if is_pub {
        push_add(&mut r, Slot::PublicApi, cat2("fn ", name));
    }
    let ghost r1 = avs(r@);
    if str_eq(name, "process") {
        push_add(&mut r, Slot::ProcessFunctions, owned(name));
        push_add(&mut r, Slot::ProcessHooks, cat2("fn process @ ", file));
        push_add(&mut r, Slot::Symbols, owned("fn process"));
    } else if str_eq(name, "editor") {
        push_add(&mut r, Slot::EditorFunctions, owned(name));
        push_add(&mut r, Slot::Symbols, owned("fn editor"));
    }
    assert(avs(r@) =~= fn_adds(name@, is_pub, file@));
    r
}

fn impl_fn_adds_of(name: &str, file: &str, in_logic: bool, in_plugin: bool) -> (r: Vec<(Slot, String)>)
    ensures
        avs(r@) == impl_fn_adds(name@, file@, in_logic, in_plugin),
{
    let mut r: Vec<(Slot, String)> = Vec::new();
    if str_eq(name, "process") && (in_logic || in_plugin) {
        push_add(&mut r, Slot::ProcessFunctions, owned(name));
        push_add(&mut r, Slot::ProcessHooks, cat2("PluginLogic::process @ ", file));
        push_add(&mut r, Slot::Symbols, owned("fn process (plugin hook)"));
    } else if str_eq(name, "editor") && (in_logic || in_plugin) {
        push_add(&mut r, Slot::EditorFunctions, owned(name));
        push_add(&mut r, Slot::Symbols, owned("fn editor (plugin hook)"));
    }
    assert(avs(r@) =~= impl_fn_adds(name@, file@, in_logic, in_plugin));
    r
}

fn struct_adds_of(name: &str, is_pub: bool, derives: &Vec<String>) -> (r: Vec<(Slot, String)>)
    ensures
        avs(r@) == struct_adds(name@, is_pub, strs(derives@)),
{
    let mut r: Vec<(Slot, String)> = Vec::new();
    if is_pub {
        push_add(&mut r, Slot::PublicApi, cat2("struct ", name));
    }
    let ghost r1 = avs(r@);
    let params = ends_with_str(name, "Params");
    if params {
        push_with_symbol(&mut r, Slot::ParamsStructs, owned(name), cat2("struct ", name));
    }
    let ghost r2 = avs(r@);
    let mut has_params_derive = false;
    let mut i: usize = 0;
    while i < derives.len()
        invariant
            i <= derives@.len(),
            has_params_derive == strs(derives@).take(i as int).contains("Params"@),
        decreases derives@.len() - i,
    {
        assert(strs(derives@).take(i + 1) =~= strs(derives@).take(i as int).push(derives@[i as int]@));
        let ghost pre = strs(derives@).take(i as int);
        let ghost x = derives@[i as int]@;
        if str_eq(derives[i].as_str(), "Params") {
            has_params_derive = true;
            assert(pre.push(x)[i as int] == x);
        } else {
            proof {
                if pre.push(x).contains("Params"@) {
                    let j = choose|j: int| 0 <= j < pre.push(x).len() && pre.push(x)[j] == "Params"@;
                    if j < i {
                        assert(pre[j] == "Params"@);
                    }
                }
            }
        }
        i = i + 1;
    }
    assert(strs(derives@).take(derives@.len() as int) =~= strs(derives@));
    if params && has_params_derive {
        push_with_symbol(&mut r, Slot::ParamsStructs, owned(name), cat2("#[derive(Params)] ", name));
    }
    assert(avs(r@) =~= struct_adds(name@, is_pub, strs(derives@)));
    r
}

fn use_adds_of(path: &str) -> (r: Vec<(Slot, String)>)
    ensures
        avs(r@) == use_adds(path@),
{
    let mut r: Vec<(Slot, String)> = Vec::new();
    match crate::config::crate_name_from_use_path(path) {
        Some(c) => {
            let sym = cat2("use ", c.as_str());
            push_with_symbol(&mut r, Slot::ImportedCrates, c, sym);
        },
        None => {},
    }
    let ghost r1 = avs(r@);
    if contains_str(path, "truce_slint") || contains_str(path, "truce-slint") {
        push_with_symbol(&mut r, Slot::EditorAdapters, owned("truce-slint"), owned("use truce-slint"));
    }
    let ghost r2 = avs(r@);
    if contains_str(path, "lx_slint_editor") || contains_str(path, "lx-slint-editor") {
        push_with_symbol(&mut r, Slot::EditorAdapters, owned("lx-slint-editor"), owned("use lx-slint-editor"));
    }
    let ghost r3 = avs(r@);
    if contains_str(path, "shm") || contains_str(path, "shared_memory") {
        push_add(&mut r, Slot::IpcSignals, owned("shm"));
    }
    let ghost r4 = avs(r@);
    if contains_str(path, "relay") {
        push_add(&mut r, Slot::IpcSignals, owned("relay"));
    }
    assert(avs(r@) =~= use_adds(path@));
    r
}

fn event_adds_of(e: &SyntaxEvent, file: &str, in_logic: bool, in_plugin: bool) -> (r: Vec<(Slot, String)>)
    ensures
        avs(r@) == event_adds(*e, file@, in_logic, in_plugin),
{
    match e {
        SyntaxEvent::ImplStart { trait_name, self_name } => impl_adds_of(trait_name, self_name),
        SyntaxEvent::ImplEnd => {
            let r: Vec<(Slot, String)> = Vec::new();
            assert(avs(r@) =~= Seq::<(Slot, Seq<char>)>::empty());
            r
        },
        SyntaxEvent::Macro { path, tokens } => macro_adds_of(path.as_str(), tokens.as_str()),
        SyntaxEvent::Fn { name, is_pub } => fn_adds_of(name.as_str(), *is_pub, file),
        SyntaxEvent::ImplFn { name } => impl_fn_adds_of(name.as_str(), file, in_logic, in_plugin),
        SyntaxEvent::Struct { name, is_pub, derives, fields } => struct_adds_of(name.as_str(), *is_pub, derives),
        SyntaxEvent::Enum { name, is_pub } => {
            let mut r: Vec<(Slot, String)> = Vec::new();
            if *is_pub {
                push_add(&mut r, Slot::PublicApi, cat2("enum ", name.as_str()));
            }
            assert(avs(r@) =~= event_adds(*e, file@, in_logic, in_plugin));
            r
        },
        SyntaxEvent::Trait { name, is_pub } => {
            let mut r: Vec<(Slot, String)> = Vec::new();
            if *is_pub {
                push_add(&mut r, Slot::PublicApi, cat2("trait ", name.as_str()));
            }
            assert(avs(r@) =~= event_adds(*e, file@, in_logic, in_plugin));
            r
        },
        SyntaxEvent::Use { path } => use_adds_of(path.as_str()),
    }
}

proof fn lemma_slot_values_add(a: Seq<(Slot, Seq<char>)>, b: Seq<(Slot, Seq<char>)>, q: Slot)
    ensures
        slot_values(a + b, q) == slot_values(a, q).union(slot_values(b, q)),
{
    assert forall|v: Seq<char>| slot_values(a + b, q).contains(v) <==> slot_values(a, q).union(slot_values(b, q)).contains(v) by {
        if (a + b).contains((q, v)) {
            let k = choose|k: int| 0 <= k < (a + b).len() && (a + b)[k] == (q, v);
            if k < a.len() {
                assert(a[k] == (q, v));
            } else {
                assert(b[k - a.len()] == (q, v));
            }
        }
        if a.contains((q, v)) {
            let k = choose|k: int| 0 <= k < a.len() && a[k] == (q, v);
            assert((a + b)[k] == (q, v));
        }
        if b.contains((q, v)) {
            let k = choose|k: int| 0 <= k < b.len() && b[k] == (q, v);
            assert((a + b)[a.len() + k] == (q, v));
        }
    }
    assert(slot_values(a + b, q) =~= slot_values(a, q).union(slot_values(b, q)));
}

/// Symbols recorded for a file (none when it has no entry).
pub open spec fn sym_set(m: Seq<(String, Vec<String>)>, k: Seq<char>) -> Set<Seq<char>> {
    match lookup(m, k) {
        Some(v) => strs(v@).to_set(),
        None => Set::empty(),
    }
}

/// Every symbol list of the map is a sorted set.
pub open spec fn syms_wf(m: Seq<(String, Vec<String>)>) -> bool {
    forall|k: Seq<char>| #[trigger] lookup(m, k) is Some ==> is_set(lookup(m, k)->0@)
}

fn apply_adds(a: &mut AstSummary, acc: &mut Vec<String>, syms: bool, ads: &Vec<(Slot, String)>)
    requires
        slots_wf(*old(a)),
        is_set(old(acc)@),
    ensures
        slots_wf(*final(a)),
        is_set(final(acc)@),
        walk_keeps(*old(a), *final(a)),
        final(a).params_fields == old(a).params_fields,
        final(a).symbols_by_file == old(a).symbols_by_file,
        final(a).process_method_count == old(a).process_method_count,
        forall|q: Slot| q != Slot::Symbols ==> #[trigger] slot_set(*final(a), q) == slot_set(*old(a), q).union(
            slot_values(avs(ads@), q),
        ),
        strs(final(acc)@).to_set() == if syms {
            strs(old(acc)@).to_set().union(slot_values(avs(ads@), Slot::Symbols))
        } else {
            strs(old(acc)@).to_set()
        },
{
    let ghost a0 = *a;
    let ghost acc0 = strs(acc@).to_set();
    let ghost av = avs(ads@);
    let mut j: usize = 0;
    while j < ads.len()
        invariant
            j <= ads@.len(),
            av == avs(ads@),
            slots_wf(*a),
            is_set(acc@),
            walk_keeps(a0, *a),
            a.params_fields == a0.params_fields,
            a.symbols_by_file == a0.symbols_by_file,
            a.process_method_count == a0.process_method_count,
            forall|q: Slot| q != Slot::Symbols ==> #[trigger] slot_set(*a, q) == slot_set(a0, q).union(
                slot_values(av.take(j as int), q),
            ),
            strs(acc@).to_set() == if syms {
                acc0.union(slot_values(av.take(j as int), Slot::Symbols))
            } else {
                acc0
            },
        decreases ads@.len() - j,
    {
        let slot = ads[j].0;
        let v = ads[j].1.clone();
        let ghost before = *a;
        assert(av.take(j + 1) =~= av.take(j as int) + seq![(slot, v@)]);
        proof {
            assert forall|q: Slot| true implies #[trigger] slot_values(av.take(j + 1), q) == slot_values(av.take(j as int), q).union(
                slot_values(seq![(slot, v@)], q),
            ) by {
                lemma_slot_values_add(av.take(j as int), seq![(slot, v@)], q);
            }
            assert forall|q: Slot| true implies #[trigger] slot_values(seq![(slot, v@)], q) == if q == slot {
                set![v@]
            } else {
                Set::empty()
            } by {
                let one = seq![(slot, v@)];
                assert forall|x: Seq<char>| #[trigger] one.contains((q, x)) <==> (q == slot && x == v@) by {
                    if one.contains((q, x)) {
                        let k = choose|k: int| 0 <= k < one.len() && one[k] == (q, x);
                        assert(k == 0);
                    }
                    if q == slot && x == v@ {
                        assert(one[0] == (q, x));
                    }
                }
                assert(slot_values(seq![(slot, v@)], q) =~= if q == slot {
                    set![v@]
                } else {
                    Set::empty()
                });
            }
        }
        if slot == Slot::Symbols {
            if syms {
                set_insert(acc, v);
            }
        } else {
            add_to_slot(a, slot, v);
        }
        proof {
            assert forall|q: Slot| q != Slot::Symbols implies #[trigger] slot_set(*a, q) == slot_set(a0, q).union(
                slot_values(av.take(j + 1), q),
            ) by {
                assert(slot_set(*a, q) =~= slot_set(a0, q).union(slot_values(av.take(j + 1), q)));
            }
            if syms {
                assert(strs(acc@).to_set() =~= acc0.union(slot_values(av.take(j + 1), Slot::Symbols)));
            }
        }
        j = j + 1;
    }
    assert(av.take(ads@.len() as int) =~= av);
}

/// (name, type, display name, hidden) of a param field.
pub type ParamView = (Seq<char>, Seq<char>, Option<Seq<char>>, bool);

pub open spec fn pview(f: ParamField) -> ParamView {
    (f.name@, f.ty@, opt_view(f.display_name), f.hidden)
}

/// The param record of a struct field, when it looks like a param.
pub open spec fn field_param(fi: FieldInput) -> Option<ParamView> {
    let toks = opt_view(fi.param_tokens);
    if looks_like_param(fi.ty@, toks) {
        Some(
            (
                fi.name@,
                fi.ty@,
                match toks {
                    Some(t) => string_assign(t, "name"@),
                    None => None,
                },
                match toks {
                    Some(t) => meta_hidden(t),
                    None => false,
                } || internal_param(fi.name@),
            ),
        )
    } else {
        None
    }
}

/// The param records of a struct's fields, in order.
pub open spec fn field_params(fs: Seq<FieldInput>) -> Seq<ParamView>
    decreases fs.len(),
{
    if fs.len() == 0 {
        Seq::empty()
    } else {
        field_params(fs.drop_last()) + match field_param(fs.last()) {
            Some(p) => seq![p],
            None => Seq::empty(),
        }
    }
}

/// A `…Params` struct with param fields records them under its name.
pub open spec fn event_params(e: SyntaxEvent) -> Option<(Seq<char>, Seq<ParamView>)> {
    match e {
        SyntaxEvent::Struct { name, is_pub, derives, fields } => if ends_with(name@, "Params"@) && field_params(
            fields@,
        ).len() > 0 {
            Some((name@, field_params(fields@)))
        } else {
            None
        },
        _ => None,
    }
}

/// Param records of a run of items, in order.
pub open spec fn walk_params(es: Seq<SyntaxEvent>) -> Seq<(Seq<char>, Seq<ParamView>)>
    decreases es.len(),
{
    if es.len() == 0 {
        Seq::empty()
    } else {
        walk_params(es.drop_last()) + match event_params(es.last()) {
            Some(p) => seq![p],
            None => Seq::empty(),
        }
    }
}

/// The last record for `k`, else what was there before.
pub open spec fn last_params(ins: Seq<(Seq<char>, Seq<ParamView>)>, k: Seq<char>, before: Option<Seq<ParamView>>) -> Option<
    Seq<ParamView>,
>
    decreases ins.len(),
{
    if ins.len() == 0 {
        before
    } else if ins.last().0 == k {
        Some(ins.last().1)
    } else {
        last_params(ins.drop_last(), k, before)
    }
}

/// Param records of a Params struct in the summary map.
pub open spec fn params_lookup(m: Seq<(String, Vec<ParamField>)>, k: Seq<char>) -> Option<Seq<ParamView>> {
    match lookup(m, k) {
        Some(v) => Some(v@.map_values(|f: ParamField| pview(f))),
        None => None,
    }
}

/// Functions named `process` inside any `impl` (every DSP method counts).
pub open spec fn process_count(es: Seq<SyntaxEvent>) -> nat
    decreases es.len(),
{
    if es.len() == 0 {
        0
    } else {
        process_count(es.drop_last()) + match es.last() {
            SyntaxEvent::ImplFn { name } => if name@ == "process"@ {
                1nat
            } else {
                0nat
            },
            _ => 0nat,
        }
    }
}

fn param_fields_of(fields: &Vec<FieldInput>) -> (r: Vec<ParamField>)
    ensures
        r@.map_values(|f: ParamField| pview(f)) == field_params(fields@),
{
    let mut r: Vec<ParamField> = Vec::new();
    let mut i: usize = 0;
    while i < fields.len()
        invariant
            i <= fields@.len(),
            r@.map_values(|f: ParamField| pview(f)) == field_params(fields@.take(i as int)),
        decreases fields@.len() - i,
    {
        assert(fields@.take(i + 1).drop_last() =~= fields@.take(i as int));
        let fi = &fields[i];
        let toks: Option<&str> = match &fi.param_tokens {
            Some(t) => Some(t.as_str()),
            None => None,
        };
        let ghost r0 = r@;
        match param_field_of(fi.name.as_str(), fi.ty.as_str(), toks) {
            Some(f) => {
                r.push(f);
                assert(r@.map_values(|f: ParamField| pview(f)) =~= r0.map_values(|f: ParamField| pview(f)).push(pview(f)));
            },
            None => {},
        }
        assert(r@.map_values(|f: ParamField| pview(f)) =~= field_params(fields@.take(i + 1)));
        i = i + 1;
    }
    assert(fields@.take(fields@.len() as int) =~= fields@);
    r
}

fn merge_symbols(m: &mut Vec<(String, Vec<String>)>, file: &str, acc: &Vec<String>)
    requires
        is_map(old(m)@),
        syms_wf(old(m)@),
    ensures
        is_map(final(m)@),
        syms_wf(final(m)@),
        sym_set(final(m)@, file@) == sym_set(old(m)@, file@).union(strs(acc@).to_set()),
        lookup(final(m)@, file@) is Some,
        forall|k: Seq<char>| k != file@ ==> #[trigger] lookup(final(m)@, k) == lookup(old(m)@, k),
{
    let mut merged: Vec<String> = match assoc_get(m, file) {
        Some(v) => crate::text::clone_strings(v),
        None => Vec::new(),
    };
    proof {
        crate::text::lemma_canon(strs(merged@));
    }
    assert(is_set(merged@));
    let ghost base = strs(merged@).to_set();
    assert(base == sym_set(m@, file@));
    let mut i: usize = 0;
    while i < acc.len()
        invariant
            i <= acc@.len(),
            is_set(merged@),
            strs(merged@).to_set() == base.union(strs(acc@).take(i as int).to_set()),
        decreases acc@.len() - i,
    {
        set_insert(&mut merged, acc[i].clone());
        proof {
            strs(acc@).take(i as int).lemma_push_to_set_commute(acc@[i as int]@);
            assert(strs(acc@).take(i + 1) =~= strs(acc@).take(i as int).push(acc@[i as int]@));
        }
        assert(strs(merged@).to_set() =~= base.union(strs(acc@).take(i + 1).to_set()));
        i = i + 1;
    }
    assert(strs(acc@).take(acc@.len() as int) =~= strs(acc@));
    let ghost mv = merged;
    map_insert(m, owned(file), merged);
    assert forall|k: Seq<char>| #[trigger] lookup(m@, k) is Some implies is_set(lookup(m@, k)->0@) by {
        if k == file@ {
            assert(lookup(m@, k) == Some(mv));
        }
    }
}

fn record_params(m: &mut Vec<(String, Vec<ParamField>)>, e: &SyntaxEvent)
    requires
        is_map(old(m)@),
    ensures
        is_map(final(m)@),
        forall|k: Seq<char>| #[trigger] params_lookup(final(m)@, k) == match event_params(*e) {
            Some(p) => if p.0 == k {
                Some(p.1)
            } else {
                params_lookup(old(m)@, k)
            },
            None => params_lookup(old(m)@, k),
        },
{
    match e {
        SyntaxEvent::Struct { name, is_pub, derives, fields } => {
            if ends_with_str(name.as_str(), "Params") {
                let pf = param_fields_of(fields);
                assert(pf@.len() == field_params(fields@).len());
                if pf.len() > 0 {
                    let ghost pv = pf;
                    map_insert(m, name.clone(), pf);
                    assert(params_lookup(m@, name@) == Some(pv@.map_values(|f: ParamField| pview(f))));
                }
            }
        },
        _ => {},
    }
}

/// Symbols of the walk were recorded for the file.
pub open spec fn symbols_recorded(syms: bool, es: Seq<SyntaxEvent>, file: Seq<char>) -> bool {
    syms && slot_values(walk_adds(es, file), Slot::Symbols) != Set::<Seq<char>>::empty()
}

/// Records what the items of one Rust file (relative path `file`, items in
/// walk order) say about the crate: plugin / params / process / editor
/// hooks, public API, imports, IPC hints, param fields, DSP `process`
/// methods, and (when asked) per-file symbols.
pub fn visit_items(summary: &mut AstSummary, file: &str, include_symbols: bool, events: &Vec<SyntaxEvent>)
    requires
        slots_wf(*old(summary)),
        is_map(old(summary).params_fields@),
        is_map(old(summary).symbols_by_file@),
        syms_wf(old(summary).symbols_by_file@),
        old(summary).process_method_count + events@.len() <= usize::MAX,
    ensures
        slots_wf(*final(summary)),
        walk_keeps(*old(summary), *final(summary)),
        forall|q: Slot| q != Slot::Symbols ==> #[trigger] slot_set(*final(summary), q) == slot_set(*old(summary), q).union(
            slot_values(walk_adds(events@, file@), q),
        ),
        final(summary).process_method_count == old(summary).process_method_count + process_count(events@),
        is_map(final(summary).params_fields@),
        forall|k: Seq<char>| #[trigger] params_lookup(final(summary).params_fields@, k) == last_params(
            walk_params(events@),
            k,
            params_lookup(old(summary).params_fields@, k),
        ),
        is_map(final(summary).symbols_by_file@),
        syms_wf(final(summary).symbols_by_file@),
        symbols_recorded(include_symbols, events@, file@) ==> {
            &&& sym_set(final(summary).symbols_by_file@, file@) == sym_set(old(summary).symbols_by_file@, file@).union(
                slot_values(walk_adds(events@, file@), Slot::Symbols),
            )
            &&& lookup(final(summary).symbols_by_file@, file@) is Some
            &&& forall|k: Seq<char>| k != file@ ==> #[trigger] lookup(final(summary).symbols_by_file@, k) == lookup(
                old(summary).symbols_by_file@,
                k,
            )
        },
        !symbols_recorded(include_symbols, events@, file@) ==> final(summary).symbols_by_file == old(
            summary,
        ).symbols_by_file,
{
    let ghost a0 = *summary;
    let ghost es = events@;
    let mut acc: Vec<String> = Vec::new();
    let mut in_logic = false;
    let mut in_plugin = false;
    let mut stack: Vec<(bool, bool)> = Vec::new();
    let mut i: usize = 0;
    while i < events.len()
        invariant
            i <= es.len(),
            es == events@,
            slots_wf(*summary),
            is_set(acc@),
            walk_keeps(a0, *summary),
            summary.symbols_by_file == a0.symbols_by_file,
            is_map(summary.params_fields@),
            a0.process_method_count + es.len() <= usize::MAX,
            summary.process_method_count == a0.process_method_count + process_count(es.take(i as int)),
            process_count(es.take(i as int)) <= i,
            (in_logic, in_plugin, stack@) == flags_after(es.take(i as int)),
            forall|q: Slot| q != Slot::Symbols ==> #[trigger] slot_set(*summary, q) == slot_set(a0, q).union(
                slot_values(walk_adds(es.take(i as int), file@), q),
            ),
            strs(acc@).to_set() == if include_symbols {
                slot_values(walk_adds(es.take(i as int), file@), Slot::Symbols)
            } else {
                Set::empty()
            },
            forall|k: Seq<char>| #[trigger] params_lookup(summary.params_fields@, k) == last_params(
                walk_params(es.take(i as int)),
                k,
                params_lookup(a0.params_fields@, k),
            ),
        decreases es.len() - i,
    {
        assert(es.take(i + 1).drop_last() =~= es.take(i as int));
        assert(es.take(i + 1).last() == es[i as int]);
        let e = &events[i];
        let ghost pre = walk_adds(es.take(i as int), file@);
        let ghost before = *summary;
        let ghost acc_before = strs(acc@).to_set();
        let ads = event_adds_of(e, file, in_logic, in_plugin);
        assert(walk_adds(es.take(i + 1), file@) == pre + avs(ads@));
        apply_adds(summary, &mut acc, include_symbols, &ads);
        proof {
            assert forall|q: Slot| true implies #[trigger] slot_values(pre + avs(ads@), q) == slot_values(pre, q).union(
                slot_values(avs(ads@), q),
            ) by {
                lemma_slot_values_add(pre, avs(ads@), q);
            }
            assert forall|q: Slot| q != Slot::Symbols implies #[trigger] slot_set(*summary, q) == slot_set(a0, q).union(
                slot_values(walk_adds(es.take(i + 1), file@), q),
            ) by {
                assert(slot_set(*summary, q) =~= slot_set(a0, q).union(slot_values(walk_adds(es.take(i + 1), file@), q)));
            }
            if include_symbols {
                assert(strs(acc@).to_set() =~= slot_values(walk_adds(es.take(i + 1), file@), Slot::Symbols));
            }
        }
        let ghost mid = *summary;
        let ghost pf_before = summary.params_fields@;
        record_params(&mut summary.params_fields, e);
        match e {
            SyntaxEvent::ImplFn { name } => {
                if str_eq(name.as_str(), "process") {
                    summary.process_method_count = summary.process_method_count + 1;
                }
            },
            _ => {},
        }
        assert forall|q: Slot| true implies #[trigger] slot_set(*summary, q) == slot_set(mid, q) by {}
        assert forall|k: Seq<char>| #[trigger] params_lookup(summary.params_fields@, k) == last_params(
            walk_params(es.take(i + 1)),
            k,
            params_lookup(a0.params_fields@, k),
        ) by {
            let ins = walk_params(es.take(i as int));
            assert(params_lookup(pf_before, k) == last_params(ins, k, params_lookup(a0.params_fields@, k)));
            match event_params(es[i as int]) {
                Some(p) => {
                    assert(walk_params(es.take(i + 1)) == ins + seq![p]);
                    assert((ins + seq![p]).drop_last() =~= ins);
                    assert((ins + seq![p]).last() == p);
                },
                None => {
                    assert(walk_params(es.take(i + 1)) =~= ins);
                },
            }
        }
        match e {
            SyntaxEvent::ImplStart { trait_name, self_name } => {
                stack.push((in_logic, in_plugin));
                match (trait_name, self_name) {
                    (Some(t), Some(_)) => {
                        if str_eq(t.as_str(), "PluginLogic") {
                            in_logic = true;
                        }
                        if str_eq(t.as_str(), "Plugin") {
                            in_plugin = true;
                        }
                    },
                    _ => {},
                }
            },
            SyntaxEvent::ImplEnd => {
                if stack.len() > 0 {
                    let ghost st0 = stack@;
                    let top = stack.pop().unwrap();
                    assert(stack@ =~= st0.drop_last());
                    in_logic = top.0;
                    in_plugin = top.1;
                }
            },
            _ => {},
        }
        i = i + 1;
    }
    assert(es.take(es.len() as int) =~= es);
    let ghost done = *summary;
    if include_symbols && acc.len() > 0 {
        assert(strs(acc@)[0] == acc@[0]@);
        assert(strs(acc@).to_set().contains(acc@[0]@));
        merge_symbols(&mut summary.symbols_by_file, file, &acc);
    } else {
        proof {
            if include_symbols {
                assert(strs(acc@) =~= Seq::<Seq<char>>::empty());
                assert(strs(acc@).to_set() =~= Set::<Seq<char>>::empty());
            }
        }
    }
    assert forall|q: Slot| true implies #[trigger] slot_set(*summary, q) == slot_set(done, q) by {}
}

// ---------------------------------------------------------------------------
// A crate's sources
// ---------------------------------------------------------------------------

/// One file met while walking a crate directory.
#[derive(Debug, Clone)]
pub struct SourceEntry {
    /// Path relative to the crate root, `/`-separated.
    pub rel: String,
    /// Its extension, if any.
    pub ext: Option<String>,
    /// Its text, for a `.slint` or `.rs` file that could be read.
    pub content: Option<String>,
    /// Its items in walk order, for a Rust file that parsed.
    pub items: Option<Vec<SyntaxEvent>>,
}

/// Paths that count: not empty, not under `target/`.
pub open spec fn kept(e: SourceEntry) -> bool {
    e.rel@.len() > 0 && !starts_with(e.rel@, "target/"@)
}

pub open spec fn has_ext(e: SourceEntry, x: Seq<char>) -> bool {
    e.ext is Some && e.ext->0@ == x
}

/// A readable Slint file.
pub open spec fn slint_src(e: SourceEntry) -> bool {
    kept(e) && has_ext(e, "slint"@) && e.content is Some
}

/// A readable Rust file.
pub open spec fn rust_src(e: SourceEntry) -> bool {
    kept(e) && !has_ext(e, "slint"@) && has_ext(e, "rs"@) && e.content is Some
}

/// The items of a readable Rust file that parsed (none otherwise).
pub open spec fn rust_items(e: SourceEntry) -> Seq<SyntaxEvent> {
    if rust_src(e) && e.items is Some {
        e.items->0@
    } else {
        Seq::empty()
    }
}

/// `src/lib.rs` / `src/main.rs` (any ASCII case): crate entry sources.
pub open spec fn entry_source(rel: Seq<char>) -> bool {
    lower(rel) == "src/lib.rs"@ || lower(rel) == "src/main.rs"@
}

/// Sources searched for param bindings: Slint files and Rust files other
/// than the crate entry.
pub open spec fn binding_source(e: SourceEntry) -> bool {
    slint_src(e) || (rust_src(e) && !entry_source(e.rel@) && ends_with(lower(e.rel@), ".rs"@))
}

pub open spec fn src_files(es: Seq<SourceEntry>) -> Set<Seq<char>>
    decreases es.len(),
{
    if es.len() == 0 {
        Set::empty()
    } else {
        src_files(es.drop_last()).union(sig_if(kept(es.last()), es.last().rel@))
    }
}

/// The role recorded for path `k`.
pub open spec fn src_role(es: Seq<SourceEntry>, k: Seq<char>) -> Option<Seq<char>>
    decreases es.len(),
{
    if es.len() == 0 {
        None
    } else if kept(es.last()) && es.last().rel@ == k && file_role(k) is Some {
        file_role(k)
    } else {
        src_role(es.drop_last(), k)
    }
}

/// What one file adds to a slot.
pub open spec fn entry_slot(e: SourceEntry, q: Slot) -> Set<Seq<char>> {
    (if rust_src(e) && q == Slot::IpcSignals {
        ipc_hits(e.content->0@, e.rel@)
    } else {
        Set::empty()
    }).union(slot_values(walk_adds(rust_items(e), e.rel@), q))
}

pub open spec fn src_slot(es: Seq<SourceEntry>, q: Slot) -> Set<Seq<char>>
    decreases es.len(),
{
    if es.len() == 0 {
        Set::empty()
    } else {
        src_slot(es.drop_last(), q).union(entry_slot(es.last(), q))
    }
}

pub open spec fn src_exports(es: Seq<SourceEntry>) -> Set<Seq<char>>
    decreases es.len(),
{
    if es.len() == 0 {
        Set::empty()
    } else {
        src_exports(es.drop_last()).union(
            if slint_src(es.last()) {
                export_names(raw_lines(es.last().content->0@)).to_set()
            } else {
                Set::empty()
            },
        )
    }
}

pub open spec fn src_components(es: Seq<SourceEntry>) -> Set<Seq<char>>
    decreases es.len(),
{
    if es.len() == 0 {
        Set::empty()
    } else {
        src_components(es.drop_last()).union(
            if slint_src(es.last()) {
                export_names(raw_lines(es.last().content->0@)).to_set().union(
                    words_components(slint_words(es.last().content->0@)),
                )
            } else {
                Set::empty()
            },
        )
    }
}

pub open spec fn src_params(es: Seq<SourceEntry>) -> Seq<(Seq<char>, Seq<ParamView>)>
    decreases es.len(),
{
    if es.len() == 0 {
        Seq::empty()
    } else {
        src_params(es.drop_last()) + walk_params(rust_items(es.last()))
    }
}

pub open spec fn src_process(es: Seq<SourceEntry>) -> nat
    decreases es.len(),
{
    if es.len() == 0 {
        0
    } else {
        src_process(es.drop_last()) + process_count(rust_items(es.last()))
    }
}

/// Number of Rust items over all files.
pub open spec fn src_event_count(es: Seq<SourceEntry>) -> nat
    decreases es.len(),
{
    if es.len() == 0 {
        0
    } else {
        src_event_count(es.drop_last()) + rust_items(es.last()).len()
    }
}

/// The binding sources, each after a line break.
pub open spec fn src_corpus(es: Seq<SourceEntry>) -> Seq<char>
    decreases es.len(),
{
    if es.len() == 0 {
        Seq::empty()
    } else {
        src_corpus(es.drop_last()) + if binding_source(es.last()) {
            "\n"@ + es.last().content->0@
        } else {
            Seq::empty()
        }
    }
}

/// Symbols recorded for path `k`.
pub open spec fn src_symbols(es: Seq<SourceEntry>, k: Seq<char>) -> Set<Seq<char>>
    decreases es.len(),
{
    if es.len() == 0 {
        Set::empty()
    } else {
        src_symbols(es.drop_last(), k).union(
            if es.last().rel@ == k {
                slot_values(walk_adds(rust_items(es.last()), k), Slot::Symbols)
            } else {
                Set::empty()
            },
        )
    }
}

/// No binding search over these param records panics.
pub open spec fn views_safe(vs: Seq<ParamView>, c: Seq<char>) -> bool {
    forall|j: int| 0 <= j < vs.len() && !(#[trigger] vs[j]).3 ==> !binding_panics(c, vs[j].0)
}

/// No param binding search over the params the files define panics.
pub open spec fn sources_binding_safe(es: Seq<SourceEntry>) -> bool {
    forall|k: Seq<char>| #[trigger] last_params(src_params(es), k, None) is Some ==> views_safe(
        last_params(src_params(es), k, None)->0,
        src_corpus(es),
    )
}

proof fn lemma_process_le(es: Seq<SyntaxEvent>)
    ensures
        process_count(es) <= es.len(),
    decreases es.len(),
{
    if es.len() > 0 {
        lemma_process_le(es.drop_last());
    }
}

proof fn lemma_event_count_prefix(es: Seq<SourceEntry>, i: int)
    requires
        0 <= i <= es.len(),
    ensures
        src_event_count(es.take(i)) <= src_event_count(es),
    decreases es.len() - i,
{
    if i < es.len() {
        lemma_event_count_prefix(es, i + 1);
        assert(es.take(i + 1).drop_last() =~= es.take(i));
    } else {
        assert(es.take(i) =~= es);
    }
}

proof fn lemma_slot_values_empty(q: Slot)
    ensures
        slot_values(Seq::empty(), q) == Set::<Seq<char>>::empty(),
{
    assert(slot_values(Seq::empty(), q) =~= Set::<Seq<char>>::empty());
}

/// The index `i` of the flattened field flags comes from field `t` of
/// entry `j`.
proof fn lemma_field_flags_origin(m: Seq<(String, Vec<ParamField>)>, i: int) -> (jt: (int, int))
    requires
        0 <= i < field_flags(m).len(),
    ensures
        0 <= jt.0 < m.len(),
        0 <= jt.1 < m[jt.0].1@.len(),
        field_flags(m)[i] == (m[jt.0].1@[jt.1].name@, m[jt.0].1@[jt.1].hidden || internal_param(m[jt.0].1@[jt.1].name@)),
    decreases m.len(),
{
    let base = field_flags(m.drop_last());
    if i < base.len() {
        let r = lemma_field_flags_origin(m.drop_last(), i);
        assert(m.drop_last()[r.0] == m[r.0]);
        r
    } else {
        let t = i - base.len();
        (m.len() - 1, t)
    }
}

proof fn lemma_binding_safe(m: Seq<(String, Vec<ParamField>)>, es: Seq<SourceEntry>)
    requires
        is_map(m),
        sources_binding_safe(es),
        forall|k: Seq<char>| #[trigger] params_lookup(m, k) == last_params(src_params(es), k, None),
    ensures
        binding_safe(m, src_corpus(es)),
{
    let c = src_corpus(es);
    assert forall|i: int| 0 <= i < field_flags(m).len() && !#[trigger] field_flags(m)[i].1 implies !binding_panics(
        c,
        field_flags(m)[i].0,
    ) by {
        let jt = lemma_field_flags_origin(m, i);
        let key = m[jt.0].0@;
        crate::text::lemma_lookup_index(m, key, jt.0);
        assert(params_lookup(m, key) == Some(m[jt.0].1@.map_values(|f: ParamField| pview(f))));
        assert(last_params(src_params(es), key, None) is Some);
        let vs = last_params(src_params(es), key, None)->0;
        assert(vs[jt.1] == pview(m[jt.0].1@[jt.1]));
    }
}

/// Everything the crate's files say before the param binding split: file
/// list and roles, Slint components, IPC signals, Rust items (through
/// [`visit_items`]); with the binding sources and the entry sources, each
/// text after a line break.
pub fn collect_sources(entries: &Vec<SourceEntry>, opts: AnalyzeOptions) -> (r: (AstSummary, String, String))
    requires
        src_event_count(entries@) <= usize::MAX,
    ensures
        is_set(r.0.files@),
        strs(r.0.files@).to_set() == src_files(entries@),
        is_map(r.0.file_roles@),
        forall|k: Seq<char>| #[trigger] opt_view(lookup(r.0.file_roles@, k)) == src_role(entries@, k),
        slots_wf(r.0),
        forall|q: Slot| q != Slot::Symbols ==> #[trigger] slot_set(r.0, q) == src_slot(entries@, q),
        is_set(r.0.slint_exports@),
        strs(r.0.slint_exports@).to_set() == src_exports(entries@),
        is_set(r.0.slint_components@),
        strs(r.0.slint_components@).to_set() == src_components(entries@),
        r.0.process_method_count == src_process(entries@),
        is_map(r.0.params_fields@),
        forall|k: Seq<char>| #[trigger] params_lookup(r.0.params_fields@, k) == last_params(src_params(entries@), k, None),
        is_map(r.0.symbols_by_file@),
        forall|k: Seq<char>| #[trigger] sym_set(r.0.symbols_by_file@, k) == if opts.include_symbols {
            src_symbols(entries@, k)
        } else {
            Set::empty()
        },
        r.0.params_referenced@.len() == 0,
        r.0.params_unbound@.len() == 0,
        r.0.features@.len() == 0,
        r.0.plugin_formats@.len() == 0,
        r.1@ == src_corpus(entries@),
{
    let ghost es = entries@;
    let mut summary = AstSummary::new();
    let mut binding_corpus = String::new();
    let mut lib_corpus = String::new();
    proof {
        assert(strs(summary.files@) =~= Seq::<Seq<char>>::empty());
        assert forall|q: Slot| q != Slot::Symbols implies #[trigger] slot_set(summary, q) == src_slot(es.take(0), q) by {
            assert(slot_set(summary, q) =~= Set::<Seq<char>>::empty());
        }
        assert(strs(summary.slint_exports@).to_set() =~= Set::<Seq<char>>::empty());
        assert(strs(summary.slint_components@).to_set() =~= Set::<Seq<char>>::empty());
        assert(strs(summary.files@).to_set() =~= Set::<Seq<char>>::empty());
        assert(es.take(0) =~= Seq::<SourceEntry>::empty());
    }
    let mut i: usize = 0;
    while i < entries.len()
        invariant
            i <= es.len(),
            es == entries@,
            src_event_count(es) <= usize::MAX,
            slots_wf(summary),
            is_set(summary.files@),
            is_map(summary.file_roles@),
            is_set(summary.slint_exports@),
            is_set(summary.slint_components@),
            is_map(summary.params_fields@),
            is_map(summary.symbols_by_file@),
            syms_wf(summary.symbols_by_file@),
            summary.params_referenced@.len() == 0,
            summary.params_unbound@.len() == 0,
            summary.features@.len() == 0,
            summary.plugin_formats@.len() == 0,
            strs(summary.files@).to_set() == src_files(es.take(i as int)),
            forall|k: Seq<char>| #[trigger] opt_view(lookup(summary.file_roles@, k)) == src_role(es.take(i as int), k),
            forall|q: Slot| q != Slot::Symbols ==> #[trigger] slot_set(summary, q) == src_slot(es.take(i as int), q),
            strs(summary.slint_exports@).to_set() == src_exports(es.take(i as int)),
            strs(summary.slint_components@).to_set() == src_components(es.take(i as int)),
            summary.process_method_count == src_process(es.take(i as int)),
            src_process(es.take(i as int)) <= src_event_count(es.take(i as int)),
            forall|k: Seq<char>| #[trigger] params_lookup(summary.params_fields@, k) == last_params(
                src_params(es.take(i as int)),
                k,
                None,
            ),
            forall|k: Seq<char>| #[trigger] sym_set(summary.symbols_by_file@, k) == if opts.include_symbols {
                src_symbols(es.take(i as int), k)
            } else {
                Set::empty()
            },
            binding_corpus@ == src_corpus(es.take(i as int)),
        decreases es.len() - i,
    {
        proof {
            lemma_event_count_prefix(es, i + 1);
        }
        assert(es.take(i + 1).drop_last() =~= es.take(i as int));
        assert(es.take(i + 1).last() == es[i as int]);
        let e = &entries[i];
        let ghost before = summary;
        proof {
            lemma_slot_values_empty(Slot::Symbols);
            assert(rust_items(*e) == Seq::<SyntaxEvent>::empty() ==> walk_adds(rust_items(*e), e.rel@) =~= Seq::<
                (Slot, Seq<char>),
            >::empty());
            assert(rust_items(*e) == Seq::<SyntaxEvent>::empty() ==> walk_params(rust_items(*e)) =~= Seq::<
                (Seq<char>, Seq<ParamView>),
            >::empty());
        }
        let ghost pf_before = summary.params_fields@;
        step_entry(&mut summary, &mut binding_corpus, &mut lib_corpus, e, opts.include_symbols);
        proof {
            lemma_process_le(rust_items(*e));
            assert forall|k: Seq<char>| #[trigger] params_lookup(summary.params_fields@, k) == last_params(
                src_params(es.take(i + 1)),
                k,
                None,
            ) by {
                lemma_last_params_add(src_params(es.take(i as int)), walk_params(rust_items(*e)), k, None);
                assert(params_lookup(pf_before, k) == last_params(src_params(es.take(i as int)), k, None));
            }
        }
        i = i + 1;
    }
    assert(es.take(es.len() as int) =~= es);
    (summary, binding_corpus, lib_corpus)
}

/// Everything the crate's files say ([`collect_sources`]), then the param
/// binding split over the binding sources ([`finalize_param_binding`]).
pub fn analyze_sources(entries: &Vec<SourceEntry>, opts: AnalyzeOptions) -> (a: AstSummary)
    requires
        sources_binding_safe(entries@),
        src_event_count(entries@) <= usize::MAX,
    ensures
        is_set(a.files@),
        strs(a.files@).to_set() == src_files(entries@),
        is_map(a.file_roles@),
        forall|k: Seq<char>| #[trigger] opt_view(lookup(a.file_roles@, k)) == src_role(entries@, k),
        slots_wf(a),
        forall|q: Slot| q != Slot::Symbols ==> #[trigger] slot_set(a, q) == src_slot(entries@, q),
        is_set(a.slint_exports@),
        strs(a.slint_exports@).to_set() == src_exports(entries@),
        is_set(a.slint_components@),
        strs(a.slint_components@).to_set() == src_components(entries@),
        a.process_method_count == src_process(entries@),
        is_map(a.params_fields@),
        forall|k: Seq<char>| #[trigger] params_lookup(a.params_fields@, k) == last_params(src_params(entries@), k, None),
        is_map(a.symbols_by_file@),
        forall|k: Seq<char>| #[trigger] sym_set(a.symbols_by_file@, k) == if opts.include_symbols {
            src_symbols(entries@, k)
        } else {
            Set::empty()
        },
        is_set(a.params_referenced@),
        strs(a.params_referenced@).to_set() == binding_names(field_flags(a.params_fields@), src_corpus(entries@), true).to_set(),
        is_set(a.params_unbound@),
        strs(a.params_unbound@).to_set() == binding_names(field_flags(a.params_fields@), src_corpus(entries@), false).to_set(),
        a.features@.len() == 0,
        a.plugin_formats@.len() == 0,
{
    let ghost es = entries@;
    let (mut summary, binding_corpus, lib_corpus) = collect_sources(entries, opts);
    proof {
        lemma_binding_safe(summary.params_fields@, es);
    }
    let ghost pre_final = summary;
    finalize_param_binding(&mut summary, binding_corpus.as_str(), lib_corpus.as_str());
    assert forall|q: Slot| true implies #[trigger] slot_set(summary, q) == slot_set(pre_final, q) by {}
    proof {
        assert(strs(summary.params_referenced@).to_set() =~= binding_names(field_flags(summary.params_fields@), src_corpus(es), true).to_set());
        assert(strs(summary.params_unbound@).to_set() =~= binding_names(field_flags(summary.params_fields@), src_corpus(es), false).to_set());
    }
    summary
}

proof fn lemma_last_params_add(a: Seq<(Seq<char>, Seq<ParamView>)>, b: Seq<(Seq<char>, Seq<ParamView>)>, k: Seq<char>, before: Option<Seq<ParamView>>)
    ensures
        last_params(a + b, k, before) == last_params(b, k, last_params(a, k, before)),
    decreases b.len(),
{
    if b.len() == 0 {
        assert(a + b =~= a);
    } else {
        assert((a + b).drop_last() =~= a + b.drop_last());
        assert((a + b).last() == b.last());
        lemma_last_params_add(a, b.drop_last(), k, before);
    }
}

/// The per-summary facts the crate walk keeps.
pub open spec fn walk_wf(a: AstSummary) -> bool {
    &&& slots_wf(a)
    &&& is_set(a.files@)
    &&& is_map(a.file_roles@)
    &&& is_set(a.slint_exports@)
    &&& is_set(a.slint_components@)
    &&& is_map(a.params_fields@)
    &&& is_map(a.symbols_by_file@)
    &&& syms_wf(a.symbols_by_file@)
}

#[verifier::rlimit(80)]
#[verifier::spinoff_prover]
fn step_entry(summary: &mut AstSummary, corpus: &mut String, lib: &mut String, e: &SourceEntry, syms: bool)
    requires
        walk_wf(*old(summary)),
        old(summary).process_method_count + rust_items(*e).len() <= usize::MAX,
    ensures
        walk_wf(*final(summary)),
        final(summary).params_referenced == old(summary).params_referenced,
        final(summary).params_unbound == old(summary).params_unbound,
        final(summary).features == old(summary).features,
        final(summary).plugin_formats == old(summary).plugin_formats,
        strs(final(summary).files@).to_set() == strs(old(summary).files@).to_set().union(sig_if(kept(*e), e.rel@)),
        forall|k: Seq<char>| #[trigger] opt_view(lookup(final(summary).file_roles@, k)) == if kept(*e) && e.rel@ == k
            && file_role(k) is Some {
            file_role(k)
        } else {
            opt_view(lookup(old(summary).file_roles@, k))
        },
        forall|q: Slot| q != Slot::Symbols ==> #[trigger] slot_set(*final(summary), q) == slot_set(*old(summary), q).union(
            entry_slot(*e, q),
        ),
        strs(final(summary).slint_exports@).to_set() == strs(old(summary).slint_exports@).to_set().union(
            if slint_src(*e) {
                export_names(raw_lines(e.content->0@)).to_set()
            } else {
                Set::empty()
            },
        ),
        strs(final(summary).slint_components@).to_set() == strs(old(summary).slint_components@).to_set().union(
            if slint_src(*e) {
                export_names(raw_lines(e.content->0@)).to_set().union(words_components(slint_words(e.content->0@)))
            } else {
                Set::empty()
            },
        ),
        final(summary).process_method_count == old(summary).process_method_count + process_count(rust_items(*e)),
        forall|k: Seq<char>| #[trigger] params_lookup(final(summary).params_fields@, k) == last_params(
            walk_params(rust_items(*e)),
            k,
            params_lookup(old(summary).params_fields@, k),
        ),
        forall|k: Seq<char>| #[trigger] sym_set(final(summary).symbols_by_file@, k) == sym_set(old(summary).symbols_by_file@, k).union(
            if syms && e.rel@ == k {
                slot_values(walk_adds(rust_items(*e), k), Slot::Symbols)
            } else {
                Set::empty()
            },
        ),
        final(corpus)@ == old(corpus)@ + if binding_source(*e) {
            "\n"@ + e.content->0@
        } else {
            Seq::empty()
        },
{
    let ghost a0 = *summary;
    let rel = e.rel.as_str();
    proof {
        lemma_slot_values_empty(Slot::Symbols);
        assert forall|q: Slot| true implies #[trigger] slot_values(walk_adds(Seq::<SyntaxEvent>::empty(), rel@), q)
            == Set::<Seq<char>>::empty() by {
            lemma_slot_values_empty(q);
        }
    }
    if !(chars_of(rel).len() > 0 && !starts_with_str(rel, "target/")) {
        assert(strs(summary.files@).to_set() =~= strs(a0.files@).to_set().union(sig_if(kept(*e), e.rel@)));
        assert(strs(summary.slint_exports@).to_set() =~= strs(a0.slint_exports@).to_set().union(Set::empty()));
        assert(strs(summary.slint_components@).to_set() =~= strs(a0.slint_components@).to_set().union(Set::empty()));
        assert(corpus@ =~= corpus@ + Seq::<char>::empty());
        assert forall|q: Slot| q != Slot::Symbols implies #[trigger] slot_set(*summary, q) == slot_set(a0, q).union(
            entry_slot(*e, q),
        ) by {
            assert(slot_set(*summary, q) =~= slot_set(a0, q).union(entry_slot(*e, q)));
        }
        assert forall|k: Seq<char>| #[trigger] sym_set(summary.symbols_by_file@, k) == sym_set(a0.symbols_by_file@, k).union(
            if syms && e.rel@ == k {
                slot_values(walk_adds(rust_items(*e), k), Slot::Symbols)
            } else {
                Set::empty()
            },
        ) by {
            assert(sym_set(summary.symbols_by_file@, k) =~= sym_set(a0.symbols_by_file@, k).union(
                if syms && e.rel@ == k {
                    slot_values(walk_adds(rust_items(*e), k), Slot::Symbols)
                } else {
                    Set::empty()
                },
            ));
        }
        return;
    }
    set_insert(&mut summary.files, e.rel.clone());
    assert(strs(summary.files@).to_set() =~= strs(a0.files@).to_set().union(sig_if(kept(*e), e.rel@)));
    match infer_file_role(rel) {
        Some(role) => {
            map_insert(&mut summary.file_roles, e.rel.clone(), owned(role));
        },
        None => {},
    }
    let ghost a1 = *summary;
    assert forall|q: Slot| true implies #[trigger] slot_set(a1, q) == slot_set(a0, q) by {}
    let is_slint = match &e.ext {
        Some(x) => str_eq(x.as_str(), "slint"),
        None => false,
    };
    if is_slint {
        match &e.content {
            Some(c) => {
                analyze_slint_file(c.as_str(), summary);
                push_str(corpus, "\n");
                push_str(corpus, c.as_str());
                assert(corpus@ =~= old(corpus)@ + ("\n"@ + c@));
            },
            None => {
                assert(strs(summary.slint_exports@).to_set() =~= strs(a0.slint_exports@).to_set().union(Set::empty()));
                assert(strs(summary.slint_components@).to_set() =~= strs(a0.slint_components@).to_set().union(Set::empty()));
                assert(corpus@ =~= corpus@ + Seq::<char>::empty());
            },
        }
        assert forall|q: Slot| true implies #[trigger] slot_set(*summary, q) == slot_set(a1, q) by {}
        assert forall|q: Slot| q != Slot::Symbols implies #[trigger] slot_set(*summary, q) == slot_set(a0, q).union(
            entry_slot(*e, q),
        ) by {
            assert(slot_set(*summary, q) =~= slot_set(a0, q).union(entry_slot(*e, q)));
        }
        assert forall|k: Seq<char>| #[trigger] sym_set(summary.symbols_by_file@, k) == sym_set(a0.symbols_by_file@, k).union(
            if syms && e.rel@ == k {
                slot_values(walk_adds(rust_items(*e), k), Slot::Symbols)
            } else {
                Set::empty()
            },
        ) by {
            assert(sym_set(summary.symbols_by_file@, k) =~= sym_set(a0.symbols_by_file@, k).union(
                if syms && e.rel@ == k {
                    slot_values(walk_adds(rust_items(*e), k), Slot::Symbols)
                } else {
                    Set::empty()
                },
            ));
        }
        return;
    }
    assert(strs(summary.slint_exports@).to_set() =~= strs(a0.slint_exports@).to_set().union(Set::empty()));
    assert(strs(summary.slint_components@).to_set() =~= strs(a0.slint_components@).to_set().union(Set::empty()));
    step_rust(summary, corpus, lib, e, syms);
    assert forall|q: Slot| q != Slot::Symbols implies #[trigger] slot_set(*summary, q) == slot_set(a0, q).union(
        entry_slot(*e, q),
    ) by {
        assert(slot_set(a1, q) == slot_set(a0, q));
    }
}

#[verifier::rlimit(80)]
#[verifier::spinoff_prover]
fn step_rust(summary: &mut AstSummary, corpus: &mut String, lib: &mut String, e: &SourceEntry, syms: bool)
    requires
        kept(*e),
        !has_ext(*e, "slint"@),
        walk_wf(*old(summary)),
        old(summary).process_method_count + rust_items(*e).len() <= usize::MAX,
    ensures
        walk_wf(*final(summary)),
        final(summary).params_referenced == old(summary).params_referenced,
        final(summary).params_unbound == old(summary).params_unbound,
        final(summary).features == old(summary).features,
        final(summary).plugin_formats == old(summary).plugin_formats,
        final(summary).files == old(summary).files,
        final(summary).file_roles == old(summary).file_roles,
        final(summary).slint_exports == old(summary).slint_exports,
        final(summary).slint_components == old(summary).slint_components,
        forall|q: Slot| q != Slot::Symbols ==> #[trigger] slot_set(*final(summary), q) == slot_set(*old(summary), q).union(
            entry_slot(*e, q),
        ),
        final(summary).process_method_count == old(summary).process_method_count + process_count(rust_items(*e)),
        forall|k: Seq<char>| #[trigger] params_lookup(final(summary).params_fields@, k) == last_params(
            walk_params(rust_items(*e)),
            k,
            params_lookup(old(summary).params_fields@, k),
        ),
        forall|k: Seq<char>| #[trigger] sym_set(final(summary).symbols_by_file@, k) == sym_set(old(summary).symbols_by_file@, k).union(
            if syms && e.rel@ == k {
                slot_values(walk_adds(rust_items(*e), k), Slot::Symbols)
            } else {
                Set::empty()
            },
        ),
        final(corpus)@ == old(corpus)@ + if binding_source(*e) {
            "\n"@ + e.content->0@
        } else {
            Seq::empty()
        },
{
    let ghost a0 = *summary;
    let rel = e.rel.as_str();
    proof {
        lemma_slot_values_empty(Slot::Symbols);
        assert(walk_params(Seq::<SyntaxEvent>::empty()) =~= Seq::<(Seq<char>, Seq<ParamView>)>::empty());
        assert forall|q: Slot| true implies #[trigger] slot_values(walk_adds(Seq::<SyntaxEvent>::empty(), rel@), q)
            == Set::<Seq<char>>::empty() by {
            lemma_slot_values_empty(q);
        }
    }
    let is_rs = match &e.ext {
        Some(x) => str_eq(x.as_str(), "rs"),
        None => false,
    };
    let content = match &e.content {
        Some(c) => c.as_str(),
        None => {
            assert(!rust_src(*e));
            assert(corpus@ =~= corpus@ + Seq::<char>::empty());
            assert forall|q: Slot| q != Slot::Symbols implies #[trigger] slot_set(*summary, q) == slot_set(a0, q).union(
                entry_slot(*e, q),
            ) by {
                assert(slot_set(*summary, q) =~= slot_set(a0, q).union(entry_slot(*e, q)));
            }
            assert forall|k: Seq<char>| #[trigger] sym_set(summary.symbols_by_file@, k) == sym_set(a0.symbols_by_file@, k).union(
                if syms && e.rel@ == k {
                    slot_values(walk_adds(rust_items(*e), k), Slot::Symbols)
                } else {
                    Set::empty()
                },
            ) by {
                assert(sym_set(summary.symbols_by_file@, k) =~= sym_set(a0.symbols_by_file@, k));
            }
            return;
        },
    };
    if !is_rs {
        assert(!rust_src(*e));
        assert(corpus@ =~= corpus@ + Seq::<char>::empty());
        assert forall|q: Slot| q != Slot::Symbols implies #[trigger] slot_set(*summary, q) == slot_set(a0, q).union(
            entry_slot(*e, q),
        ) by {
            assert(slot_set(*summary, q) =~= slot_set(a0, q).union(entry_slot(*e, q)));
        }
        assert forall|k: Seq<char>| #[trigger] sym_set(summary.symbols_by_file@, k) == sym_set(a0.symbols_by_file@, k).union(
            if syms && e.rel@ == k {
                slot_values(walk_adds(rust_items(*e), k), Slot::Symbols)
            } else {
                Set::empty()
            },
        ) by {
            assert(sym_set(summary.symbols_by_file@, k) =~= sym_set(a0.symbols_by_file@, k));
        }
        return;
    }
    assert(rust_src(*e));
    scan_ipc_text(content, rel, summary);
    let ghost a1 = *summary;
    assert forall|q: Slot| #[trigger] slot_set(a1, q) == slot_set(a0, q).union(
        if q == Slot::IpcSignals {
            ipc_hits(content@, rel@)
        } else {
            Set::empty()
        },
    ) by {
        assert(slot_set(a1, q) =~= slot_set(a0, q).union(
            if q == Slot::IpcSignals {
                ipc_hits(content@, rel@)
            } else {
                Set::empty()
            },
        ));
    }
    match &e.items {
        Some(items) => {
            visit_items(summary, rel, syms, items);
        },
        None => {},
    }
    assert forall|q: Slot| q != Slot::Symbols implies #[trigger] slot_set(*summary, q) == slot_set(a0, q).union(
        entry_slot(*e, q),
    ) by {
        assert(slot_set(*summary, q) =~= slot_set(a0, q).union(entry_slot(*e, q)));
    }
    assert forall|k: Seq<char>| #[trigger] sym_set(summary.symbols_by_file@, k) == sym_set(a0.symbols_by_file@, k).union(
        if syms && e.rel@ == k {
            slot_values(walk_adds(rust_items(*e), k), Slot::Symbols)
        } else {
            Set::empty()
        },
    ) by {
        if symbols_recorded(syms, rust_items(*e), rel@) {
            if k != rel@ {
                assert(lookup(summary.symbols_by_file@, k) == lookup(a0.symbols_by_file@, k));
            }
        }
        assert(sym_set(summary.symbols_by_file@, k) =~= sym_set(a0.symbols_by_file@, k).union(
            if syms && e.rel@ == k {
                slot_values(walk_adds(rust_items(*e), k), Slot::Symbols)
            } else {
                Set::empty()
            },
        ));
    }
    let lo = to_ascii_lower(rel);
    if str_eq(lo.as_str(), "src/lib.rs") || str_eq(lo.as_str(), "src/main.rs") {
        push_str(lib, "\n");
        push_str(lib, content);
        assert(corpus@ =~= corpus@ + Seq::<char>::empty());
    } else if ends_with_str(lo.as_str(), ".rs") {
        push_str(corpus, "\n");
        push_str(corpus, content);
        assert(corpus@ =~= old(corpus)@ + ("\n"@ + content@));
    } else {
        assert(corpus@ =~= corpus@ + Seq::<char>::empty());
    }
}

/// Whether the identifier search of `needle` in `hay` panics (see
/// [`ident_search_panics`]): its first occurrence is not a whole identifier
/// and the needle starts with a multi-byte character.
pub fn ident_search_would_panic(hay: &str, needle: &str) -> (r: bool)
    ensures
        r == ident_search_panics(hay@, needle@),
{
    let x = chars_of(hay);
    let y = chars_of(needle);
    if y.len() == 0 {
        return false;
    }
    proof {
        crate::text::lemma_find_from(x@, y@, 0);
    }
    let wide = crate::text::width_of(y[0]) > 1;
    match find_in(&x, &y, 0) {
        None => {
            assert forall|i: int| !(occurs_at(hay@, needle@, i) && !bounded_at(hay@, needle@, i) && forall|j: int|
                0 <= j < i ==> !#[trigger] bounded_at(hay@, needle@, j)) by {
                if i < 0 {
                }
            }
            false
        },
        Some(i) => {
            assert(occurs_at(x@, y@, i as int));
            let n = x.len();
            let k = y.len();
            assert(i + k <= n);
            let after = i + k;
            let before_ok = i == 0 || !is_ident_char(x[i - 1]);
            let after_ok = after >= n || !is_ident_char(x[after]);
            let bounded = before_ok && after_ok;
            assert(bounded == bounded_at(hay@, needle@, i as int));
            if bounded {
                assert forall|k: int| !(occurs_at(hay@, needle@, k) && !bounded_at(hay@, needle@, k) && forall|j: int|
                    0 <= j < k ==> !#[trigger] bounded_at(hay@, needle@, j)) by {
                    if occurs_at(hay@, needle@, k) && !bounded_at(hay@, needle@, k) {
                        if k < i as int {
                            assert(!occurs_at(x@, y@, k));
                        } else {
                            assert(k != i as int);
                            assert(bounded_at(hay@, needle@, i as int));
                        }
                    }
                }
                false
            } else {
                if wide {
                    assert forall|j: int| 0 <= j < i implies !#[trigger] bounded_at(hay@, needle@, j) by {
                        assert(!occurs_at(x@, y@, j));
                    }
                    assert(occurs_at(hay@, needle@, i as int));
                }
                wide
            }
        },
    }
}

/// Whether deciding [`in_binding`] for `n` panics (see [`binding_panics`]).
pub fn binding_would_panic(c: &str, n: &str) -> (r: bool)
    ensures
        r == binding_panics(c@, n@),
{
    if ident_search_would_panic(c, n) {
        return true;
    }
    if contains_ident(c, n) {
        return false;
    }
    let p = snake_to_pascal(n);
    if ident_search_would_panic(c, p.as_str()) {
        return true;
    }
    if contains_ident(c, p.as_str()) {
        return false;
    }
    let t = cat2(n, "_text");
    if ident_search_would_panic(c, t.as_str()) {
        return true;
    }
    if contains_ident(c, t.as_str()) {
        return false;
    }
    let cm = cat2(n, "_committed");
    ident_search_would_panic(c, cm.as_str())
}

/// Whether the param binding split over `pf` and the binding sources `c`
/// runs without panicking (see [`binding_safe`]).
pub fn params_binding_safe(pf: &Vec<(String, Vec<ParamField>)>, c: &str) -> (r: bool)
    ensures
        r == binding_safe(pf@, c@),
{
    let all = all_field_flags(pf);
    let ghost ff = field_flags(pf@);
    let mut i: usize = 0;
    while i < all.len()
        invariant
            i <= all@.len(),
            all@.map_values(|p: (String, bool)| (p.0@, p.1)) == ff,
            ff == field_flags(pf@),
            forall|j: int| 0 <= j < i && !#[trigger] ff[j].1 ==> !binding_panics(c@, ff[j].0),
        decreases all@.len() - i,
    {
        assert(ff[i as int] == (all@[i as int].0@, all@[i as int].1));
        if !all[i].1 && binding_would_panic(c, all[i].0.as_str()) {
            assert(!ff[i as int].1 && binding_panics(c@, ff[i as int].0));
            return false;
        }
        i = i + 1;
    }
    true
}

} // verus!
