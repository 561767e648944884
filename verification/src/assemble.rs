//! Assembling the workspace graph from what was read off disk: node kinds,
//! dependency edges, detected frameworks and formats, migration status and
//! summary, the semantic `uses_ui` / IPC edges, the taxonomy entries, the
//! timestamp, and the final graph.
use vstd::prelude::*;

use crate::config::{FrameworkSpec, MigrationSpec};
use crate::text::{
    dec, is_map, is_set, keys, lemma_strs_push, lookup, opt_view, owned, push_str, push_usize, set_contains,
    str_eq, strs,
};
use crate::{Edge, Framework};

verus! {

// ---------------------------------------------------------------------------
// Migration status
// ---------------------------------------------------------------------------

/// Status from the first migration whose endpoints the plugin uses.
pub open spec fn mig_scan(fws: Seq<Seq<char>>, ms: Seq<(String, MigrationSpec)>) -> Option<Seq<char>>
    decreases ms.len(),
{
    if ms.len() == 0 {
        None
    } else {
        let has_from = fws.contains(ms[0].0@);
        let has_to = fws.contains(ms[0].1.to@);
        if has_to && !has_from {
            Some("migrated"@)
        } else if has_from && !has_to {
            Some("legacy"@)
        } else if has_from && has_to {
            Some("unknown"@)
        } else {
            mig_scan(fws, ms.drop_first())
        }
    }
}

/// Migration status of a plugin: none without migrations; `unknown` without
/// frameworks; else `migrated` / `legacy` / `unknown` (both ends present)
/// from the first migration touching it, none when no migration does.
pub open spec fn migration_status_of(fws: Seq<Seq<char>>, ms: Seq<(String, MigrationSpec)>) -> Option<Seq<char>> {
    if ms.len() == 0 {
        None
    } else if fws.len() == 0 {
        Some("unknown"@)
    } else {
        mig_scan(fws, ms)
    }
}

/// Migration status of a plugin with the given frameworks.
pub fn compute_migration_status(frameworks: &Vec<String>, migrations: &Vec<(String, MigrationSpec)>) -> (r: Option<
    String,
>)
    ensures
        opt_view(r) == migration_status_of(strs(frameworks@), migrations@),
{
    if migrations.len() == 0 {
        return None;
    }
    if frameworks.len() == 0 {
        return Some(owned("unknown"));
    }
    let ghost f = strs(frameworks@);
    let mut i: usize = 0;
    assert(migrations@.skip(0) =~= migrations@);
    while i < migrations.len()
        invariant
            f == strs(frameworks@),
            frameworks@.len() > 0,
            i <= migrations@.len(),
            mig_scan(f, migrations@) == mig_scan(f, migrations@.skip(i as int)),
        decreases migrations@.len() - i,
    {
        let ghost rest = migrations@.skip(i as int);
        assert(rest[0] == migrations@[i as int]);
        assert(rest.drop_first() =~= migrations@.skip(i + 1));
        let has_from = set_contains(frameworks, migrations[i].0.as_str());
        let has_to = set_contains(frameworks, migrations[i].1.to.as_str());
        if has_to && !has_from {
            return Some(owned("migrated"));
        }
        if has_from && !has_to {
            return Some(owned("legacy"));
        }
        if has_from && has_to {
            return Some(owned("unknown"));
        }
        i = i + 1;
    }
    None
}

// ---------------------------------------------------------------------------
// Taxonomy entries
// ---------------------------------------------------------------------------

/// (id, name, kind, migration target, notes)
pub type FrameworkView = (Seq<char>, Seq<char>, Seq<char>, Option<Seq<char>>, Option<Seq<char>>);

pub open spec fn framework_view(f: Framework) -> FrameworkView {
    (f.id@, f.name@, f.kind@, opt_view(f.migration_target), opt_view(f.notes))
}

/// The migration target of a framework id (`to` of the migration with that id).
pub open spec fn target_of(ms: Seq<(String, MigrationSpec)>, id: Seq<char>) -> Option<Seq<char>> {
    match lookup(ms, id) {
        Some(m) => Some(m.to@),
        None => None,
    }
}

/// Taxonomy entries kept (all, or those in use), in taxonomy order.
pub open spec fn frameworks_of(
    tax: Seq<(String, FrameworkSpec)>,
    ms: Seq<(String, MigrationSpec)>,
    used: Seq<Seq<char>>,
    all: bool,
) -> Seq<FrameworkView>
    decreases tax.len(),
{
    if tax.len() == 0 {
        Seq::empty()
    } else {
        let (id, sp) = tax.last();
        frameworks_of(tax.drop_last(), ms, used, all) + if all || used.contains(id@) {
            seq![(id@, sp.name@, sp.kind@, target_of(ms, id@), opt_view(sp.notes))]
        } else {
            Seq::empty()
        }
    }
}

/// Taxonomy entries for the frameworks in use (every entry when `include_all`).
pub fn build_frameworks_from_taxonomy(
    taxonomy: &Vec<(String, FrameworkSpec)>,
    migrations: &Vec<(String, MigrationSpec)>,
    used: &Vec<String>,
    include_all: bool,
) -> (r: Vec<Framework>)
    ensures
        r@.map_values(|f: Framework| framework_view(f)) == frameworks_of(taxonomy@, migrations@, strs(used@), include_all),
{
    let mut r: Vec<Framework> = Vec::new();
    let mut i: usize = 0;
    while i < taxonomy.len()
        invariant
            i <= taxonomy@.len(),
            r@.map_values(|f: Framework| framework_view(f)) == frameworks_of(
                taxonomy@.take(i as int),
                migrations@,
                strs(used@),
                include_all,
            ),
        decreases taxonomy@.len() - i,
    {
        assert(taxonomy@.take(i + 1).drop_last() =~= taxonomy@.take(i as int));
        let (id, sp) = (&taxonomy[i].0, &taxonomy[i].1);
        if include_all || set_contains(used, id.as_str()) {
            let target = match crate::text::assoc_get(migrations, id.as_str()) {
                Some(m) => Some(m.to.clone()),
                None => None,
            };
            let f = Framework {
                id: id.clone(),
                name: sp.name.clone(),
                kind: sp.kind.clone(),
                migration_target: target,
                notes: crate::text::clone_opt(&sp.notes),
            };
            let ghost r0 = r@;
            r.push(f);
            assert(r@.map_values(|f: Framework| framework_view(f)) =~= r0.map_values(|f: Framework| framework_view(f)).push(
                framework_view(f),
            ));
        }
        i = i + 1;
    }
    assert(taxonomy@.take(taxonomy@.len() as int) =~= taxonomy@);
    r
}

// ---------------------------------------------------------------------------
// Edges
// ---------------------------------------------------------------------------

/// Some edge goes `from` → `to` with this kind.
pub open spec fn has_edge(es: Seq<Edge>, from: Seq<char>, to: Seq<char>, kind: Seq<char>) -> bool {
    exists|i: int| 0 <= i < es.len() && (#[trigger] es[i]).from@ == from && es[i].to@ == to && es[i].kind@ == kind
}

/// Whether the edge list already holds this edge.
pub fn edge_exists(edges: &Vec<Edge>, from: &str, to: &str, kind: &str) -> (r: bool)
    ensures
        r == has_edge(edges@, from@, to@, kind@),
{
    let mut i: usize = 0;
    while i < edges.len()
        invariant
            i <= edges@.len(),
            forall|j: int|
                0 <= j < i ==> !((#[trigger] edges@[j]).from@ == from@ && edges@[j].to@ == to@ && edges@[j].kind@
                    == kind@),
        decreases edges@.len() - i,
    {
        let e = &edges[i];
        if str_eq(e.from.as_str(), from) && str_eq(e.to.as_str(), to) && str_eq(e.kind.as_str(), kind) {
            return true;
        }
        i = i + 1;
    }
    false
}

// ---------------------------------------------------------------------------
// Timestamps and paths
// ---------------------------------------------------------------------------

pub open spec fn leap(y: int) -> bool {
    (y % 4 == 0 && y % 100 != 0) || y % 400 == 0
}

/// Gregorian leap year (of a year of the common era).
pub fn is_leap_year(y: i64) -> (r: bool)
    requires
        y >= 0,
    ensures
        r == leap(y as int),
{
    (y % 4 == 0 && y % 100 != 0) || (y % 400 == 0)
}

pub open spec fn year_len(y: int) -> int {
    if leap(y) {
        366
    } else {
        365
    }
}

/// Whole years from `y` on, and the day left within the reached year.
pub open spec fn years_from(y: int, d: int) -> (int, int)
    decreases d,
{
    if d >= year_len(y) {
        years_from(y + 1, d - year_len(y))
    } else {
        (y, d)
    }
}

/// Length of month `i` (0-based).
pub open spec fn month_len(lp: bool, i: int) -> int {
    if i == 1 {
        if lp {
            29
        } else {
            28
        }
    } else if i == 3 || i == 5 || i == 8 || i == 10 {
        30
    } else {
        31
    }
}

/// Month (1-based) and 0-based day of day `d` counted from month `i`.
pub open spec fn months_from(lp: bool, i: int, d: int) -> (int, int)
    decreases 12 - i,
{
    if i >= 12 {
        (13, d)
    } else if d < month_len(lp, i) {
        (i + 1, d)
    } else {
        months_from(lp, i + 1, d - month_len(lp, i))
    }
}

/// Civil date of a day count since 1970-01-01 (year, month, day).
pub open spec fn ymd_of(days: int) -> (int, int, int) {
    let (y, d) = years_from(1970, days);
    let (m, dd) = months_from(leap(y), 0, d);
    (y, m, dd + 1)
}

proof fn lemma_years_bound(y: int, d: int)
    requires
        d >= 0,
    ensures
        y <= years_from(y, d).0 <= y + d,
        0 <= years_from(y, d).1 < year_len(years_from(y, d).0),
    decreases d,
{
    if d >= year_len(y) {
        lemma_years_bound(y + 1, d - year_len(y));
    }
}

proof fn lemma_months_bound(lp: bool, i: int, d: int)
    requires
        0 <= i <= 12,
        d >= 0,
    ensures
        0 <= months_from(lp, i, d).1 <= d,
        1 <= months_from(lp, i, d).0 <= 13,
    decreases 12 - i,
{
    if i < 12 && d >= month_len(lp, i) {
        lemma_months_bound(lp, i + 1, d - month_len(lp, i));
    }
}

/// Year, month and day of `days` since the Unix epoch (days counted from 0).
pub fn unix_days_to_ymd(days: i64) -> (r: (i64, i64, i64))
    requires
        days >= 0,
    ensures
        (r.0 as int, r.1 as int, r.2 as int) == ymd_of(days as int),
{
    let mut y: i64 = 1970;
    let mut d: i64 = days;
    proof {
        lemma_years_bound(1970, days as int);
    }
    loop
        invariant
            0 <= d <= days,
            1970 <= y,
            (y - 1970) * 365 <= days - d,
            years_from(1970, days as int) == years_from(y as int, d as int),
        ensures
            0 <= d <= days,
            1970 <= y,
            years_from(1970, days as int) == (y as int, d as int),
        decreases d,
    {
        let ydays: i64 = if is_leap_year(y) { 366 } else { 365 };
        if d >= ydays {
            d = d - ydays;
            y = y + 1;
        } else {
            break;
        }
    }
    let lp = is_leap_year(y);
    let mut m: i64 = 1;
    let mut i: i64 = 0;
    proof {
        lemma_months_bound(lp, 0, d as int);
    }
    while i < 12
        invariant
            0 <= i <= 12,
            0 <= d,
            months_from(lp, 0, years_from(1970, days as int).1) == months_from(lp, i as int, d as int),
            d <= days,
            lp == leap(y as int),
            years_from(1970, days as int).0 == y,
            m == i + 1,
        ensures
            i >= 12 ==> months_from(lp, i as int, d as int) == (13int, d as int) && m == 13,
            i < 12 ==> months_from(lp, i as int, d as int) == (i + 1, d as int) && m == i + 1,
        decreases 12 - i,
    {
        let md: i64 = if i == 1 {
            if lp {
                29
            } else {
                28
            }
        } else if i == 3 || i == 5 || i == 8 || i == 10 {
            30
        } else {
            31
        };
        assert(md == month_len(lp, i as int));
        if d < md {
            m = i + 1;
            break;
        }
        d = d - md;
        m = i + 2;
        i = i + 1;
    }
    (y, m, d + 1)
}

/// `n` in decimal, left-padded with zeros to `w` digits.
pub open spec fn pad0(n: nat, w: nat) -> Seq<char> {
    if dec(n).len() >= w {
        dec(n)
    } else {
        Seq::new((w - dec(n).len()) as nat, |_i: int| '0') + dec(n)
    }
}

fn push_pad0(s: &mut String, n: u64, w: usize)
    ensures
        final(s)@ == old(s)@ + pad0(n as nat, w as nat),
{
    let t = crate::text::fmt_u64(n);
    let tl = crate::text::chars_of(t.as_str()).len();
    let ghost s0 = s@;
    let mut k: usize = tl;
    while k < w
        invariant
            tl <= k <= if tl < w { w } else { tl },
            s@ == s0 + Seq::new((k - tl) as nat, |_i: int| '0'),
        decreases w - k,
    {
        crate::text::push_char(s, '0');
        assert(s@ =~= s0 + Seq::new((k + 1 - tl) as nat, |_i: int| '0'));
        k = k + 1;
    }
    push_str(s, t.as_str());
    if tl >= w {
        assert(s@ =~= s0 + dec(n as nat));
    }
}

/// `YYYY-MM-DDTHH:MM:SSZ` for seconds since the Unix epoch (UTC).
pub open spec fn rfc3339_of(secs: nat) -> Seq<char> {
    let days = secs / 86400;
    let rem = secs % 86400;
    let (y, m, d) = ymd_of(days as int);
    pad0(y as nat, 4) + "-"@ + pad0(m as nat, 2) + "-"@ + pad0(d as nat, 2) + "T"@ + pad0(rem / 3600, 2) + ":"@ + pad0(
        (rem % 3600) / 60,
        2,
    ) + ":"@ + pad0(rem % 60, 2) + "Z"@
}

/// The RFC 3339 stamp of a moment given in seconds since the Unix epoch.
pub fn rfc3339(secs: u64) -> (s: String)
    ensures
        s@ == rfc3339_of(secs as nat),
{
    let days = secs / 86400;
    let rem = secs % 86400;
    let (y, m, d) = unix_days_to_ymd(days as i64);
    proof {
        lemma_years_bound(1970, days as int);
        lemma_months_bound(leap(years_from(1970, days as int).0), 0, years_from(1970, days as int).1);
    }
    assert(y >= 1970 && 1 <= m <= 13 && d >= 1);
    let mut s = String::new();
    push_pad0(&mut s, y as u64, 4);
    push_str(&mut s, "-");
    push_pad0(&mut s, m as u64, 2);
    push_str(&mut s, "-");
    push_pad0(&mut s, d as u64, 2);
    push_str(&mut s, "T");
    push_pad0(&mut s, rem / 3600, 2);
    push_str(&mut s, ":");
    push_pad0(&mut s, (rem % 3600) / 60, 2);
    push_str(&mut s, ":");
    push_pad0(&mut s, rem % 60, 2);
    push_str(&mut s, "Z");
    s
}

/// A path as text with `/` separators and without a `//?/` prefix.
pub open spec fn clean_root(p: Seq<char>) -> Seq<char> {
    crate::text::drop_prefix(crate::text::replace_char(p, '\\', '/'), "//?/"@)
}

/// Display form of the project root (`\` → `/`, no `//?/` prefix).
pub fn clean_project_root(path: &str) -> (r: String)
    ensures
        r@ == clean_root(path@),
{
    let s = crate::text::replace_char_str(path, '\\', '/');
    crate::text::drop_prefix_str(s.as_str(), "//?/")
}

/// The directory a `workspace.members` glob (`dir/*` or `dir/**`) expands
/// under; none for a plain member path.
pub open spec fn glob_base_of(pattern: Seq<char>) -> Option<Seq<char>> {
    if crate::text::ends_with(pattern, "/**"@) {
        Some(crate::text::drop_suffix(pattern, "/**"@))
    } else if crate::text::ends_with(pattern, "/*"@) {
        Some(crate::text::drop_suffix(pattern, "/*"@))
    } else {
        None
    }
}

/// The directory whose subdirectories a member glob names, if it is one.
pub fn glob_members_dir(pattern: &str) -> (r: Option<String>)
    ensures
        opt_view(r) == glob_base_of(pattern@),
{
    if crate::text::ends_with_str(pattern, "/**") {
        Some(crate::text::drop_suffix_str(pattern, "/**"))
    } else if crate::text::ends_with_str(pattern, "/*") {
        Some(crate::text::drop_suffix_str(pattern, "/*"))
    } else {
        None
    }
}

/// The detected project name: `workspace.package.name`, else the root
/// `package.name`, else the folder's name, else `project`.
pub fn detect_project_name(workspace_package: Option<String>, package: Option<String>, folder: Option<String>) -> (r: String)
    ensures
        r@ == match workspace_package {
            Some(w) => w@,
            None => match package {
                Some(p) => p@,
                None => match folder {
                    Some(f) => f@,
                    None => "project"@,
                },
            },
        },
{
    match workspace_package {
        Some(w) => w,
        None => match package {
            Some(p) => p,
            None => match folder {
                Some(f) => f,
                None => owned("project"),
            },
        },
    }
}

// ---------------------------------------------------------------------------
// What was read off disk
// ---------------------------------------------------------------------------

/// One Cargo dependency of a member, as its manifest declares it.
#[derive(Debug, Clone)]
pub struct DepInput {
    pub name: String,
    /// `normal`, `build` or `dev`.
    pub kind: String,
    /// `workspace = true`.
    pub workspace: bool,
    /// Declared with `git`.
    pub git: bool,
    /// Declared with `path`.
    pub path: bool,
    pub version: Option<String>,
    /// Package name of a `path` dependency that resolves to a crate outside
    /// the workspace members.
    pub outside_package: Option<String>,
}

/// One workspace member, as read from its manifest and sources.
#[derive(Debug, Clone)]
pub struct MemberInput {
    /// Member name (package name, else directory name).
    pub name: String,
    /// Path relative to the workspace root, `/`-separated.
    pub rel_path: String,
    pub package_name: Option<String>,
    pub description: Option<String>,
    pub version: Option<String>,
    /// Dependencies: normal, then build, then dev.
    pub deps: Vec<DepInput>,
    /// Cargo `[features]`: feature → entries.
    pub features: Vec<(String, Vec<String>)>,
    /// Source facts of the member's crate.
    pub ast: crate::ast::AstSummary,
}

// ---------------------------------------------------------------------------
// Dependencies of one member
// ---------------------------------------------------------------------------

/// (from, to, kind, feature, note)
pub type EdgeView = (Seq<char>, Seq<char>, Seq<char>, Option<Seq<char>>, Option<Seq<char>>);

pub open spec fn ev(e: Edge) -> EdgeView {
    (e.from@, e.to@, e.kind@, opt_view(e.feature), opt_view(e.note))
}

pub open spec fn evs(es: Seq<Edge>) -> Seq<EdgeView> {
    es.map_values(|e: Edge| ev(e))
}

/// Some edge view goes `from` → `to` with this kind.
pub open spec fn has_ev(es: Seq<EdgeView>, from: Seq<char>, to: Seq<char>, kind: Seq<char>) -> bool {
    exists|i: int| 0 <= i < es.len() && (#[trigger] es[i]).0 == from && es[i].1 == to && es[i].2 == kind
}

/// Edge kind of a dependency kind.
pub open spec fn dep_edge_kind(k: Seq<char>) -> Seq<char> {
    if k == "build"@ {
        "build_depends_on"@
    } else if k == "dev"@ {
        "dev_depends_on"@
    } else {
        "depends_on"@
    }
}

/// Source hint of a dependency.
pub open spec fn dep_source(d: DepInput) -> Option<Seq<char>> {
    if d.workspace {
        Some("workspace"@)
    } else if d.git {
        Some("git"@)
    } else if d.path {
        Some("path"@)
    } else {
        None
    }
}

/// Version shown for a dependency: the workspace's for `workspace = true`
/// (falling back to its own), else its own.
pub open spec fn dep_version(d: DepInput, ws: Seq<(String, Option<String>)>) -> Option<Seq<char>> {
    if d.workspace {
        match lookup(ws, d.name@) {
            Some(Some(v)) => Some(v@),
            _ => opt_view(d.version),
        }
    } else {
        opt_view(d.version)
    }
}

/// The name a dependency is known by in the workspace.
pub open spec fn effective_name(d: DepInput) -> Seq<char> {
    match d.outside_package {
        Some(p) => p@,
        None => d.name@,
    }
}

/// (name, version, source)
pub type DetailView = (Seq<char>, Option<Seq<char>>, Option<Seq<char>>);

pub open spec fn detail_view(d: crate::DependencyDetail) -> DetailView {
    (d.name@, opt_view(d.version), opt_view(d.source))
}

pub open spec fn detail_views(ds: Seq<crate::DependencyDetail>) -> Seq<DetailView> {
    ds.map_values(|d: crate::DependencyDetail| detail_view(d))
}

/// Member name → node id (its relative path).
pub open spec fn member_ids(ms: Seq<MemberInput>) -> Seq<(Seq<char>, Seq<char>)> {
    ms.map_values(|m: MemberInput| (m.name@, m.rel_path@))
}

/// Node id of the member named `n` (the last one listed under it).
pub open spec fn id_of(ms: Seq<MemberInput>, n: Seq<char>) -> Option<Seq<char>>
    decreases ms.len(),
{
    if ms.len() == 0 {
        None
    } else if ms.last().name@ == n {
        Some(ms.last().rel_path@)
    } else {
        id_of(ms.drop_last(), n)
    }
}

/// Dependency state: edges so far, outside packages seen, dependency names,
/// internal dependency ids, dependency details.
pub type DepState = (Seq<EdgeView>, Seq<Seq<char>>, Set<Seq<char>>, Set<Seq<char>>, Seq<DetailView>);

/// One dependency of member `rel` applied to the state.
pub open spec fn dep_step(
    st: DepState,
    d: DepInput,
    rel: Seq<char>,
    ms: Seq<MemberInput>,
    internal_crates: Seq<Seq<char>>,
    ws: Seq<(String, Option<String>)>,
) -> DepState {
    let auto = match d.outside_package {
        Some(p) => st.1.push(p@),
        None => st.1,
    };
    let eff = effective_name(d);
    let details = st.4.push((d.name@, dep_version(d, ws), dep_source(d)));
    let internal = member_ids(ms).map_values(|p: (Seq<char>, Seq<char>)| p.0).contains(eff) || internal_crates.contains(eff)
        || auto.contains(eff);
    let (edges, ideps) = if internal {
        match id_of(ms, eff) {
            Some(target) => {
                let k = dep_edge_kind(d.kind@);
                let e2 = if has_ev(st.0, rel, target, k) {
                    st.0
                } else {
                    st.0.push((rel, target, k, None, None))
                };
                let i2 = if d.kind@ == "normal"@ || d.kind@.len() == 0 || d.kind@ == "build"@ {
                    st.3.insert(target)
                } else {
                    st.3
                };
                (e2, i2)
            },
            None => (st.0, st.3),
        }
    } else {
        (st.0, st.3)
    };
    (edges, auto, st.2.insert(d.name@), ideps, details)
}

pub open spec fn deps_fold(
    st: DepState,
    ds: Seq<DepInput>,
    rel: Seq<char>,
    ms: Seq<MemberInput>,
    internal_crates: Seq<Seq<char>>,
    ws: Seq<(String, Option<String>)>,
) -> DepState
    decreases ds.len(),
{
    if ds.len() == 0 {
        st
    } else {
        dep_step(deps_fold(st, ds.drop_last(), rel, ms, internal_crates, ws), ds.last(), rel, ms, internal_crates, ws)
    }
}

pub proof fn lemma_has_edge_ev(es: Seq<Edge>, from: Seq<char>, to: Seq<char>, kind: Seq<char>)
    ensures
        has_edge(es, from, to, kind) == has_ev(evs(es), from, to, kind),
{
    if has_edge(es, from, to, kind) {
        let i = choose|i: int| 0 <= i < es.len() && (#[trigger] es[i]).from@ == from && es[i].to@ == to && es[i].kind@ == kind;
        assert(evs(es)[i] == ev(es[i]));
    }
    if has_ev(evs(es), from, to, kind) {
        let i = choose|i: int| 0 <= i < evs(es).len() && (#[trigger] evs(es)[i]).0 == from && evs(es)[i].1 == to && evs(es)[i].2 == kind;
        assert(evs(es)[i] == ev(es[i]));
    }
}

fn push_edge(edges: &mut Vec<Edge>, from: &str, to: &str, kind: &str, note: Option<String>)
    ensures
        evs(final(edges)@) == evs(old(edges)@).push((from@, to@, kind@, None, opt_view(note))),
{
    let e = Edge { from: owned(from), to: owned(to), kind: owned(kind), feature: None, note };
    let ghost e0 = edges@;
    edges.push(e);
    assert(evs(edges@) =~= evs(e0).push(ev(e)));
}

fn id_of_exec(members: &Vec<MemberInput>, n: &str) -> (r: Option<String>)
    ensures
        opt_view(r) == id_of(members@, n@),
{
    let mut j: usize = members.len();
    assert(members@.take(members@.len() as int) =~= members@);
    while j > 0
        invariant
            j <= members@.len(),
            id_of(members@, n@) == id_of(members@.take(j as int), n@),
        decreases j,
    {
        assert(members@.take(j as int).drop_last() =~= members@.take(j - 1));
        if str_eq(members[j - 1].name.as_str(), n) {
            return Some(members[j - 1].rel_path.clone());
        }
        j = j - 1;
    }
    None
}

fn is_member_name(members: &Vec<MemberInput>, n: &str) -> (r: bool)
    ensures
        r == member_ids(members@).map_values(|p: (Seq<char>, Seq<char>)| p.0).contains(n@),
{
    let ghost names = member_ids(members@).map_values(|p: (Seq<char>, Seq<char>)| p.0);
    let mut i: usize = 0;
    while i < members.len()
        invariant
            names == member_ids(members@).map_values(|p: (Seq<char>, Seq<char>)| p.0),
            i <= members@.len(),
            forall|j: int| 0 <= j < i ==> names[j] != n@,
        decreases members@.len() - i,
    {
        assert(names[i as int] == members@[i as int].name@);
        if str_eq(members[i].name.as_str(), n) {
            return true;
        }
        i = i + 1;
    }
    proof {
        if names.contains(n@) {
            let k = choose|k: int| 0 <= k < names.len() && names[k] == n@;
        }
    }
    false
}

fn version_of(d: &DepInput, ws: &Vec<(String, Option<String>)>) -> (r: Option<String>)
    ensures
        opt_view(r) == dep_version(*d, ws@),
{
    if d.workspace {
        match crate::text::assoc_get(ws, d.name.as_str()) {
            Some(Some(v)) => {
                return Some(v.clone());
            },
            _ => {},
        }
    }
    crate::text::clone_opt(&d.version)
}

/// Applies the dependencies of one member: edges to internal members, the
/// member's dependency names, internal dependency ids and details.
fn member_deps(
    m: &MemberInput,
    members: &Vec<MemberInput>,
    internal_crates: &Vec<String>,
    ws: &Vec<(String, Option<String>)>,
    edges: &mut Vec<Edge>,
    auto: &mut Vec<String>,
) -> (r: (Vec<String>, Vec<String>, Vec<crate::DependencyDetail>))
    ensures
        ({
            let st = deps_fold(
                (evs(old(edges)@), strs(old(auto)@), Set::empty(), Set::empty(), Seq::empty()),
                m.deps@,
                m.rel_path@,
                members@,
                strs(internal_crates@),
                ws@,
            );
            &&& evs(final(edges)@) == st.0
            &&& strs(final(auto)@) == st.1
            &&& is_set(r.0@) && strs(r.0@).to_set() == st.2
            &&& is_set(r.1@) && strs(r.1@).to_set() == st.3
            &&& detail_views(r.2@) == st.4
        }),
{
    let ghost st0: DepState = (evs(edges@), strs(auto@), Set::empty(), Set::empty(), Seq::empty());
    let mut names: Vec<String> = Vec::new();
    let mut ideps: Vec<String> = Vec::new();
    let mut details: Vec<crate::DependencyDetail> = Vec::new();
    assert(strs(names@).to_set() =~= Set::<Seq<char>>::empty());
    assert(strs(ideps@).to_set() =~= Set::<Seq<char>>::empty());
    assert(detail_views(details@) =~= Seq::<DetailView>::empty());
    let rel = m.rel_path.as_str();
    let mut i: usize = 0;
    while i < m.deps.len()
        invariant
            i <= m.deps@.len(),
            rel@ == m.rel_path@,
            is_set(names@),
            is_set(ideps@),
            deps_fold(st0, m.deps@.take(i as int), m.rel_path@, members@, strs(internal_crates@), ws@) == (
                evs(edges@),
                strs(auto@),
                strs(names@).to_set(),
                strs(ideps@).to_set(),
                detail_views(details@),
            ),
        decreases m.deps@.len() - i,
    {
        assert(m.deps@.take(i + 1).drop_last() =~= m.deps@.take(i as int));
        let d = &m.deps[i];
        let ghost s_before = (evs(edges@), strs(auto@), strs(names@).to_set(), strs(ideps@).to_set(), detail_views(details@));
        if let Some(p) = &d.outside_package {
            let ghost a0 = auto@;
            auto.push(p.clone());
            proof {
                lemma_strs_push(a0, auto@.last());
            }
        }
        let eff: &str = match &d.outside_package {
            Some(p) => p.as_str(),
            None => d.name.as_str(),
        };
        assert(eff@ == effective_name(*d));
        let source: Option<String> = if d.workspace {
            Some(owned("workspace"))
        } else if d.git {
            Some(owned("git"))
        } else if d.path {
            Some(owned("path"))
        } else {
            None
        };
        let det = crate::DependencyDetail { name: d.name.clone(), version: version_of(d, ws), source };
        let ghost dv0 = details@;
        details.push(det);
        assert(detail_views(details@) =~= detail_views(dv0).push(detail_view(det)));
        let internal = is_member_name(members, eff) || set_contains(internal_crates, eff) || set_contains(auto, eff);
        if internal {
            match id_of_exec(members, eff) {
                Some(target) => {
                    let k: &str = if str_eq(d.kind.as_str(), "build") {
                        "build_depends_on"
                    } else if str_eq(d.kind.as_str(), "dev") {
                        "dev_depends_on"
                    } else {
                        "depends_on"
                    };
                    assert(k@ == dep_edge_kind(d.kind@));
                    proof {
                        lemma_has_edge_ev(edges@, rel@, target@, k@);
                    }
                    if !edge_exists(edges, rel, target.as_str(), k) {
                        push_edge(edges, rel, target.as_str(), k, None);
                    }
                    proof {
                        reveal_strlit("");
                    }
                    if str_eq(d.kind.as_str(), "normal") || crate::text::chars_of(d.kind.as_str()).len() == 0 || str_eq(
                        d.kind.as_str(),
                        "build",
                    ) {
                        crate::text::set_insert(&mut ideps, target);
                    }
                },
                None => {},
            }
        }
        crate::text::set_insert(&mut names, d.name.clone());
        i = i + 1;
    }
    assert(m.deps@.take(m.deps@.len() as int) =~= m.deps@);
    (names, ideps, details)
}

// ---------------------------------------------------------------------------
// One node
// ---------------------------------------------------------------------------

/// Kind of a member from its path: `plugin`, `crate` or `member`.
pub open spec fn node_kind(rel: Seq<char>) -> Seq<char> {
    if crate::text::starts_with(rel, "plugins/"@) {
        "plugin"@
    } else if crate::text::starts_with(rel, "crates/"@) {
        "crate"@
    } else {
        "member"@
    }
}

/// Package name of a member (else its member name).
pub open spec fn pkg_name(m: MemberInput) -> Seq<char> {
    match m.package_name {
        Some(p) => p@,
        None => m.name@,
    }
}

/// Frameworks of a node: detected from dependency names and imports, plus
/// its own package name when the taxonomy knows it.
pub open spec fn node_frameworks(
    tax: Seq<(String, FrameworkSpec)>,
    dep_names: Seq<Seq<char>>,
    imports: Seq<Seq<char>>,
    pkg: Seq<char>,
) -> Set<Seq<char>> {
    let d = crate::config::detected_from(keys(tax), dep_names).union(crate::config::detected_from(keys(tax), imports));
    if lookup(tax, pkg) is Some {
        d.insert(pkg)
    } else {
        d
    }
}

/// Export formats detected on a plugin from its feature names and
/// (lower-cased) frameworks.
pub open spec fn formats_from(feats: Set<Seq<char>>, fws: Seq<Seq<char>>) -> Set<Seq<char>> {
    let fl = fws.map_values(|f: Seq<char>| crate::text::lower(f));
    let clap = fl.contains("truce"@) || feats.contains("clap"@) || fl.contains("clap"@) || fl.contains("clack"@)
        || feats.contains("nih_export_clap"@) || feats.contains("nih-export-clap"@);
    let vst3 = feats.contains("vst3"@) || fl.contains("vst3"@) || feats.contains("nih_export_vst3"@) || feats.contains(
        "nih-export-vst3"@,
    );
    let lv2 = feats.contains("lv2"@) || fl.contains("lv2"@);
    Set::new(|x: Seq<char>| (clap && x == "CLAP"@) || (vst3 && x == "VST3"@) || (lv2 && x == "LV2"@))
}

/// Public API kept on a node: none for plugins, at most the first 80 else.
pub open spec fn kept_api(api: Seq<Seq<char>>, plugin: bool) -> Seq<Seq<char>> {
    if plugin {
        Seq::empty()
    } else {
        crate::text::first_n(api, 80)
    }
}

/// Features after inserting the manifest's features in order.
pub open spec fn features_lookup(a0: Seq<(String, Vec<String>)>, feats: Seq<(String, Vec<String>)>, k: Seq<char>) -> Option<Vec<String>>
    decreases feats.len(),
{
    if feats.len() == 0 {
        lookup(a0, k)
    } else if feats.last().0@ == k {
        Some(feats.last().1)
    } else {
        features_lookup(a0, feats.drop_last(), k)
    }
}

/// The source summary of a node: the member's, with public API capped,
/// manifest features added, and export formats detected on plugins.
pub open spec fn ast_processed(
    a0: crate::ast::AstSummary,
    feats: Seq<(String, Vec<String>)>,
    plugin: bool,
    fws: Seq<Seq<char>>,
    a: crate::ast::AstSummary,
) -> bool {
    &&& a.plugin_impls == a0.plugin_impls
    &&& a.plugin_logic_impls == a0.plugin_logic_impls
    &&& a.plugin_macro_types == a0.plugin_macro_types
    &&& a.params_impls == a0.params_impls
    &&& a.params_structs == a0.params_structs
    &&& a.params_fields == a0.params_fields
    &&& a.params_referenced == a0.params_referenced
    &&& a.params_unbound == a0.params_unbound
    &&& a.process_functions == a0.process_functions
    &&& a.process_hooks == a0.process_hooks
    &&& a.process_method_count == a0.process_method_count
    &&& a.editor_functions == a0.editor_functions
    &&& a.imported_editor_adapters == a0.imported_editor_adapters
    &&& a.imported_crates == a0.imported_crates
    &&& a.slint_components == a0.slint_components
    &&& a.slint_exports == a0.slint_exports
    &&& a.ipc_signals == a0.ipc_signals
    &&& a.file_roles == a0.file_roles
    &&& a.files == a0.files
    &&& a.symbols_by_file == a0.symbols_by_file
    &&& strs(a.public_api@) == kept_api(strs(a0.public_api@), plugin)
    &&& is_map(a.features@)
    &&& keys(a.features@).to_set() == keys(a0.features@).to_set().union(feats.map_values(|p: (String, Vec<String>)| p.0@).to_set())
    &&& (forall|k: Seq<char>| #[trigger] lookup(a.features@, k) == features_lookup(a0.features@, feats, k))
    &&& is_set(a.plugin_formats@)
    &&& strs(a.plugin_formats@).to_set() == if plugin {
        strs(a0.plugin_formats@).to_set().union(formats_from(keys(a.features@).to_set(), fws))
    } else {
        strs(a0.plugin_formats@).to_set()
    }
}

fn lower_all(v: &Vec<String>) -> (r: Vec<String>)
    ensures
        strs(r@) == strs(v@).map_values(|f: Seq<char>| crate::text::lower(f)),
{
    let mut r: Vec<String> = Vec::new();
    let mut i: usize = 0;
    while i < v.len()
        invariant
            i <= v@.len(),
            strs(r@) == strs(v@).take(i as int).map_values(|f: Seq<char>| crate::text::lower(f)),
        decreases v@.len() - i,
    {
        let ghost r0 = r@;
        r.push(crate::text::to_ascii_lower(v[i].as_str()));
        proof {
            lemma_strs_push(r0, r@.last());
            assert(strs(v@).take(i + 1).map_values(|f: Seq<char>| crate::text::lower(f)) =~= strs(v@).take(i as int).map_values(
                |f: Seq<char>| crate::text::lower(f),
            ).push(crate::text::lower(v@[i as int]@)));
        }
        i = i + 1;
    }
    assert(strs(v@).take(v@.len() as int) =~= strs(v@));
    r
}

fn has_key<V>(m: &Vec<(String, V)>, k: &str) -> (r: bool)
    requires
        is_map(m@),
    ensures
        r == keys(m@).to_set().contains(k@),
{
    match crate::text::map_find(m, k) {
        Some(i) => {
            assert(keys(m@)[i as int] == k@);
            true
        },
        None => false,
    }
}

/// Inserts the formats a plugin's features and frameworks imply.
fn add_formats(formats: &mut Vec<String>, features: &Vec<(String, Vec<String>)>, fws: &Vec<String>)
    requires
        is_set(old(formats)@),
        is_map(features@),
    ensures
        is_set(final(formats)@),
        strs(final(formats)@).to_set() == strs(old(formats)@).to_set().union(formats_from(keys(features@).to_set(), strs(fws@))),
{
    let fl = lower_all(fws);
    let ghost fk = keys(features@).to_set();
    let clap = set_contains(&fl, "truce") || has_key(features, "clap") || set_contains(&fl, "clap") || set_contains(&fl, "clack")
        || has_key(features, "nih_export_clap") || has_key(features, "nih-export-clap");
    let vst3 = has_key(features, "vst3") || set_contains(&fl, "vst3") || has_key(features, "nih_export_vst3") || has_key(
        features,
        "nih-export-vst3",
    );
    let lv2 = has_key(features, "lv2") || set_contains(&fl, "lv2");
    let ghost f0 = strs(formats@).to_set();
    if clap {
        crate::text::set_insert(formats, owned("CLAP"));
    }
    if vst3 {
        crate::text::set_insert(formats, owned("VST3"));
    }
    if lv2 {
        crate::text::set_insert(formats, owned("LV2"));
    }
    assert(strs(formats@).to_set() =~= f0.union(formats_from(fk, strs(fws@))));
}

/// The member's source summary as the node keeps it.
fn process_ast(a: crate::ast::AstSummary, feats: Vec<(String, Vec<String>)>, plugin: bool, fws: &Vec<String>) -> (r:
    crate::ast::AstSummary)
    requires
        is_map(a.features@),
        is_set(a.plugin_formats@),
    ensures
        ast_processed(a, feats@, plugin, strs(fws@), r),
{
    let ghost a0 = a;
    let ghost f0 = feats@;
    let mut a = a;
    let mut feats = feats;
    if plugin {
        a.public_api.clear();
    } else {
        a.public_api.truncate(80);
    }
    assert(strs(a.public_api@) =~= kept_api(strs(a0.public_api@), plugin));
    let n = feats.len();
    let mut i: usize = 0;
    while i < n
        invariant
            n == feats@.len(),
            f0.len() == n,
            i <= n,
            forall|j: int| i <= j < n ==> #[trigger] feats@[j] == f0[j],
            is_map(a.features@),
            keys(a.features@).to_set() == keys(a0.features@).to_set().union(
                f0.take(i as int).map_values(|p: (String, Vec<String>)| p.0@).to_set(),
            ),
            forall|k: Seq<char>| #[trigger] lookup(a.features@, k) == features_lookup(a0.features@, f0.take(i as int), k),
            a.plugin_formats == a0.plugin_formats,
            a.public_api == a.public_api,
            strs(a.public_api@) == kept_api(strs(a0.public_api@), plugin),
            a.plugin_impls == a0.plugin_impls,
            a.plugin_logic_impls == a0.plugin_logic_impls,
            a.plugin_macro_types == a0.plugin_macro_types,
            a.params_impls == a0.params_impls,
            a.params_structs == a0.params_structs,
            a.params_fields == a0.params_fields,
            a.params_referenced == a0.params_referenced,
            a.params_unbound == a0.params_unbound,
            a.process_functions == a0.process_functions,
            a.process_hooks == a0.process_hooks,
            a.process_method_count == a0.process_method_count,
            a.editor_functions == a0.editor_functions,
            a.imported_editor_adapters == a0.imported_editor_adapters,
            a.imported_crates == a0.imported_crates,
            a.slint_components == a0.slint_components,
            a.slint_exports == a0.slint_exports,
            a.ipc_signals == a0.ipc_signals,
            a.file_roles == a0.file_roles,
            a.files == a0.files,
            a.symbols_by_file == a0.symbols_by_file,
        decreases n - i,
    {
        let mut x: (String, Vec<String>) = (String::new(), Vec::new());
        std::mem::swap(&mut x, &mut feats[i]);
        let ghost ks0 = keys(a.features@).to_set();
        let ghost fa = a.features@;
        let (k, v) = x;
        let ghost kv = k@;
        crate::text::map_insert(&mut a.features, k, v);
        proof {
            let m = f0.take(i + 1).map_values(|p: (String, Vec<String>)| p.0@);
            assert(f0.take(i + 1).drop_last() =~= f0.take(i as int));
            assert(m =~= f0.take(i as int).map_values(|p: (String, Vec<String>)| p.0@).push(kv));
            f0.take(i as int).map_values(|p: (String, Vec<String>)| p.0@).lemma_push_to_set_commute(kv);
            assert forall|q: Seq<char>| #[trigger] lookup(a.features@, q) == features_lookup(a0.features@, f0.take(i + 1), q) by {
                if q != kv {
                    assert(lookup(a.features@, q) == lookup(fa, q));
                }
            }
        }
        i = i + 1;
    }
    assert(f0.take(n as int) =~= f0);
    if plugin {
        add_formats(&mut a.plugin_formats, &a.features, fws);
    }
    a
}

/// Insert a detail after every one whose name does not sort after it.
pub open spec fn ins_detail(s: Seq<DetailView>, x: DetailView) -> Seq<DetailView>
    decreases s.len(),
{
    if s.len() == 0 {
        seq![x]
    } else if !crate::text::lt(x.0, s.last().0) {
        s.push(x)
    } else {
        ins_detail(s.drop_last(), x).push(s.last())
    }
}

/// Stable sort of details by name.
pub open spec fn sort_details(s: Seq<DetailView>) -> Seq<DetailView>
    decreases s.len(),
{
    if s.len() == 0 {
        s
    } else {
        ins_detail(sort_details(s.drop_last()), s.last())
    }
}

fn sort_details_exec(v: Vec<crate::DependencyDetail>) -> (r: Vec<crate::DependencyDetail>)
    ensures
        detail_views(r@) == sort_details(detail_views(v@)),
{
    let mut r: Vec<crate::DependencyDetail> = Vec::new();
    let mut src = v;
    let ghost all = detail_views(src@);
    let n = src.len();
    let mut i: usize = 0;
    while i < n
        invariant
            n == src@.len(),
            all.len() == n,
            i <= n,
            forall|j: int| i <= j < n ==> #[trigger] detail_view(src@[j]) == all[j],
            detail_views(r@) == sort_details(all.take(i as int)),
        decreases n - i,
    {
        let mut x = crate::DependencyDetail { name: String::new(), version: None, source: None };
        std::mem::swap(&mut x, &mut src[i]);
        proof {
            assert(all.take(i + 1).drop_last() =~= all.take(i as int));
            assert(all.take(i + 1).last() == all[i as int]);
        }
        let ghost rv = detail_views(r@);
        let mut j: usize = r.len();
        assert(rv.take(rv.len() as int) =~= rv);
        assert(rv.skip(rv.len() as int) =~= Seq::<DetailView>::empty());
        while j > 0 && crate::text::str_lt(x.name.as_str(), r[j - 1].name.as_str())
            invariant
                j <= r@.len(),
                rv == detail_views(r@),
                ins_detail(rv, detail_view(x)) == ins_detail(rv.take(j as int), detail_view(x)) + rv.skip(j as int),
            decreases j,
        {
            proof {
                assert(rv.take(j as int).last() == rv[j - 1]);
                assert(rv.take(j as int).drop_last() =~= rv.take(j - 1));
                assert(rv.skip(j - 1) =~= seq![rv[j - 1]] + rv.skip(j as int));
            }
            j = j - 1;
        }
        proof {
            if j > 0 {
                assert(rv.take(j as int).last() == rv[j - 1]);
            }
            assert(ins_detail(rv.take(j as int), detail_view(x)) =~= rv.take(j as int).push(detail_view(x)));
        }
        r.insert(j, x);
        assert(detail_views(r@) =~= rv.take(j as int).push(all[i as int]) + rv.skip(j as int));
        i = i + 1;
    }
    assert(all.take(n as int) =~= all);
    r
}

/// The node built from a member, given the results of its dependencies
/// (`st`), the taxonomy, the migrations and the sorted member names.
pub open spec fn node_built(
    m: MemberInput,
    st: DepState,
    tax: Seq<(String, FrameworkSpec)>,
    migs: Seq<(String, MigrationSpec)>,
    names: Seq<Seq<char>>,
    verbose: bool,
    n: crate::Node,
) -> bool {
    let rel = m.rel_path@;
    let kind = node_kind(rel);
    let plugin = kind == "plugin"@;
    &&& n.id@ == rel
    &&& n.path@ == rel
    &&& n.name@ == pkg_name(m)
    &&& n.kind@ == kind
    &&& opt_view(n.description) == opt_view(m.description)
    &&& opt_view(n.version) == opt_view(m.version)
    &&& is_set(n.frameworks@)
    &&& strs(n.frameworks@).to_set() == node_frameworks(tax, crate::text::canon(st.2), strs(m.ast.imported_crates@), pkg_name(m))
    &&& opt_view(n.migration_status) == if plugin {
        migration_status_of(strs(n.frameworks@), migs)
    } else {
        None
    }
    &&& is_set(n.internal_deps@)
    &&& strs(n.internal_deps@).to_set() == st.3
    &&& is_set(n.external_flags@)
    &&& strs(n.external_flags@).to_set() == crate::config::external_flags_of(crate::text::canon(st.2), names)
    &&& strs(n.dependency_names@) == if verbose { crate::text::canon(st.2) } else { Seq::empty() }
    &&& detail_views(n.dependency_details@) == sort_details(st.4)
    &&& (n.ast_summary matches Some(a) && ast_processed(m.ast, m.features@, plugin, strs(n.frameworks@), a))
}

/// Builds one node.
fn build_node(
    m: MemberInput,
    deps: (Vec<String>, Vec<String>, Vec<crate::DependencyDetail>),
    taxonomy: &Vec<(String, FrameworkSpec)>,
    migrations: &Vec<(String, MigrationSpec)>,
    member_names: &Vec<String>,
    verbose: bool,
) -> (n: crate::Node)
    requires
        is_map(taxonomy@),
        is_set(deps.0@),
        is_set(deps.1@),
        is_map(m.ast.features@),
        is_set(m.ast.plugin_formats@),
    ensures
        node_built(
            m,
            (Seq::empty(), Seq::empty(), strs(deps.0@).to_set(), strs(deps.1@).to_set(), detail_views(deps.2@)),
            taxonomy@,
            migrations@,
            strs(member_names@),
            verbose,
            n,
        ),
{
    let ghost m0 = m;
    let (names, ideps, details) = deps;
    proof {
        crate::text::lemma_canon(strs(names@));
        reveal_strlit("plugin");
        reveal_strlit("plugins/");
        reveal_strlit("crates/");
    }
    let rel = m.rel_path;
    let plugin = crate::text::starts_with_str(rel.as_str(), "plugins/");
    let kind: &str = if plugin {
        "plugin"
    } else if crate::text::starts_with_str(rel.as_str(), "crates/") {
        "crate"
    } else {
        "member"
    };
    proof {
        reveal_strlit("crate");
        reveal_strlit("member");
        assert("crate"@.len() == 5);
        assert("member"@.len() == 6);
        assert("crate"@ != "plugin"@);
        assert("member"@[0] != "plugin"@[0]);
    }
    assert(kind@ == node_kind(rel@));
    assert(plugin == (node_kind(rel@) == "plugin"@));
    let pkg = match m.package_name {
        Some(p) => p,
        None => m.name,
    };
    let mut fws = crate::config::detect_framework_ids(taxonomy, &names, &m.ast.imported_crates);
    if has_key(taxonomy, pkg.as_str()) {
        crate::text::set_insert(&mut fws, pkg.clone());
    }
    proof {
        let d = crate::config::detected_from(keys(taxonomy@), strs(names@)).union(
            crate::config::detected_from(keys(taxonomy@), strs(m0.ast.imported_crates@)),
        );
        if lookup(taxonomy@, pkg@) is Some {
            crate::config::lemma_lookup_key(taxonomy@, pkg@);
        } else {
            if keys(taxonomy@).contains(pkg@) {
                crate::config::lemma_key_lookup(taxonomy@, pkg@);
            }
        }
    }
    let ast = process_ast(m.ast, m.features, plugin, &fws);
    let migration_status = if plugin {
        compute_migration_status(&fws, migrations)
    } else {
        None
    };
    let external_flags = crate::config::summarize_external_deps(&names, member_names);
    let dependency_names = if verbose {
        names
    } else {
        Vec::new()
    };
    assert(strs(dependency_names@) =~= if verbose { crate::text::canon(strs(names@).to_set()) } else { Seq::empty() });
    crate::Node {
        id: rel.clone(),
        name: pkg,
        kind: owned(kind),
        description: m.description,
        version: m.version,
        path: rel,
        frameworks: fws,
        migration_status,
        internal_deps: ideps,
        external_flags,
        dependency_names,
        dependency_details: sort_details_exec(details),
        ast_summary: Some(ast),
    }
}

// ---------------------------------------------------------------------------
// Semantic edges
// ---------------------------------------------------------------------------

/// Elements of `a` that `b` contains.
pub open spec fn count_in(a: Seq<Seq<char>>, b: Seq<Seq<char>>) -> nat
    decreases a.len(),
{
    if a.len() == 0 {
        0
    } else {
        count_in(a.drop_last(), b) + if b.contains(a.last()) { 1nat } else { 0nat }
    }
}

/// The node is a shared UI crate: listed in the config, or exporting Slint
/// components.
pub open spec fn is_ui(n: crate::Node, ui_crates: Seq<Seq<char>>) -> bool {
    ui_crates.contains(n.name@) || (n.ast_summary matches Some(a) && a.slint_exports@.len() > 0)
}

/// Exports of a node (none without a summary).
pub open spec fn exports_of(n: crate::Node) -> Seq<Seq<char>> {
    match n.ast_summary {
        Some(a) => strs(a.slint_exports@),
        None => Seq::empty(),
    }
}

/// Components a node uses (none without a summary).
pub open spec fn components_of(n: crate::Node) -> Seq<Seq<char>> {
    match n.ast_summary {
        Some(a) => strs(a.slint_components@),
        None => Seq::empty(),
    }
}

/// `uses_ui` edges from node `n` to the UI crates `uis` (id, exports).
pub open spec fn ui_edges_from(es: Seq<EdgeView>, n: crate::Node, uis: Seq<(Seq<char>, Seq<Seq<char>>)>) -> Seq<EdgeView>
    decreases uis.len(),
{
    if uis.len() == 0 {
        es
    } else {
        let prev = ui_edges_from(es, n, uis.drop_last());
        let (uid, ex) = uis.last();
        let overlap = count_in(components_of(n), ex);
        if uid == n.id@ || overlap == 0 || has_ev(prev, n.id@, uid, "uses_ui"@) {
            prev
        } else {
            prev.push((n.id@, uid, "uses_ui"@, None, Some(dec(overlap) + " shared Lx* components"@)))
        }
    }
}

/// `uses_ui` edges of every plugin that uses Slint components.
pub open spec fn ui_edges(es: Seq<EdgeView>, ns: Seq<crate::Node>, uis: Seq<(Seq<char>, Seq<Seq<char>>)>) -> Seq<EdgeView>
    decreases ns.len(),
{
    if ns.len() == 0 {
        es
    } else {
        let prev = ui_edges(es, ns.drop_last(), uis);
        let n = ns.last();
        if n.kind@ == "plugin"@ && n.ast_summary is Some && components_of(n).len() > 0 {
            ui_edges_from(prev, n, uis)
        } else {
            prev
        }
    }
}

/// The strong IPC signals of a node, in order.
pub open spec fn strong_of(sigs: Seq<Seq<char>>) -> Seq<Seq<char>>
    decreases sigs.len(),
{
    if sigs.len() == 0 {
        Seq::empty()
    } else {
        strong_of(sigs.drop_last()) + if sigs.last() == "shm"@ || sigs.last() == "relay"@ || sigs.last() == "seqlock"@ {
            seq![sigs.last()]
        } else {
            Seq::empty()
        }
    }
}

/// Plugins with strong IPC signals: (id, signals).
pub open spec fn ipc_plugins(ns: Seq<crate::Node>) -> Seq<(Seq<char>, Seq<Seq<char>>)>
    decreases ns.len(),
{
    if ns.len() == 0 {
        Seq::empty()
    } else {
        let n = ns.last();
        ipc_plugins(ns.drop_last()) + match n.ast_summary {
            Some(a) => if n.kind@ == "plugin"@ && strong_of(strs(a.ipc_signals@)).len() > 0 {
                seq![(n.id@, strong_of(strs(a.ipc_signals@)))]
            } else {
                Seq::empty()
            },
            None => Seq::empty(),
        }
    }
}

/// `runtime_depends_on` edges to the shared-memory hub.
pub open spec fn runtime_edges(es: Seq<EdgeView>, ps: Seq<(Seq<char>, Seq<Seq<char>>)>, shm: Option<Seq<char>>) -> Seq<EdgeView>
    decreases ps.len(),
{
    if ps.len() == 0 {
        es
    } else {
        let prev = runtime_edges(es, ps.drop_last(), shm);
        let (pid, sigs) = ps.last();
        match shm {
            Some(h) => if !has_ev(prev, pid, h, "depends_on"@) && !has_ev(prev, pid, h, "runtime_depends_on"@) {
                prev.push((pid, h, "runtime_depends_on"@, None, Some("via "@ + crate::text::join(sigs, "+"@))))
            } else {
                prev
            },
            None => prev,
        }
    }
}

/// Signals of `a` that `b` shares, in order.
pub open spec fn shared_of(a: Seq<Seq<char>>, b: Seq<Seq<char>>) -> Seq<Seq<char>>
    decreases a.len(),
{
    if a.len() == 0 {
        Seq::empty()
    } else {
        shared_of(a.drop_last(), b) + if b.contains(a.last()) {
            seq![a.last()]
        } else {
            Seq::empty()
        }
    }
}

/// Peer edge between IPC plugins `i` and `j` (i < j), if they share signals.
pub open spec fn peer_step(es: Seq<EdgeView>, ps: Seq<(Seq<char>, Seq<Seq<char>>)>, i: int, j: int) -> Seq<EdgeView> {
    let (a, sa) = ps[i];
    let (b, sb) = ps[j];
    let sh = shared_of(sa, sb);
    if sh.len() == 0 || has_ev(es, a, b, "ipc_peer"@) || has_ev(es, b, a, "ipc_peer"@) {
        es
    } else {
        es.push((a, b, "ipc_peer"@, None, Some("shared: "@ + crate::text::join(sh, ", "@))))
    }
}

/// Peer edges for pairs (i, j) with i fixed and i < j < k.
pub open spec fn peers_row(es: Seq<EdgeView>, ps: Seq<(Seq<char>, Seq<Seq<char>>)>, i: int, k: int) -> Seq<EdgeView>
    decreases k - i,
{
    if k <= i + 1 {
        es
    } else {
        peer_step(peers_row(es, ps, i, k - 1), ps, i, k - 1)
    }
}

/// Peer edges for every pair (i, j), i < j, i below `k`.
pub open spec fn peers(es: Seq<EdgeView>, ps: Seq<(Seq<char>, Seq<Seq<char>>)>, k: int) -> Seq<EdgeView>
    decreases k,
{
    if k <= 0 {
        es
    } else {
        peers_row(peers(es, ps, k - 1), ps, k - 1, ps.len() as int)
    }
}

/// UI crates by node id → exports (a later node with the same id wins).
pub open spec fn ui_map(ns: Seq<crate::Node>, ui: Seq<Seq<char>>) -> Map<Seq<char>, Seq<Seq<char>>>
    decreases ns.len(),
{
    if ns.len() == 0 {
        Map::empty()
    } else if is_ui(ns.last(), ui) {
        ui_map(ns.drop_last(), ui).insert(ns.last().id@, exports_of(ns.last()))
    } else {
        ui_map(ns.drop_last(), ui)
    }
}

/// The UI table in id order.
pub open spec fn ui_entries(ns: Seq<crate::Node>, ui: Seq<Seq<char>>) -> Seq<(Seq<char>, Seq<Seq<char>>)> {
    let m = ui_map(ns, ui);
    crate::text::canon(m.dom()).map_values(|k: Seq<char>| (k, m[k]))
}

pub open spec fn table_view(t: Seq<(String, Vec<String>)>) -> Seq<(Seq<char>, Seq<Seq<char>>)> {
    t.map_values(|p: (String, Vec<String>)| (p.0@, strs(p.1@)))
}

fn ui_table(nodes: &Vec<crate::Node>, ui_crates: &Vec<String>) -> (t: Vec<(String, Vec<String>)>)
    ensures
        table_view(t@) == ui_entries(nodes@, strs(ui_crates@)),
{
    let ghost ui = strs(ui_crates@);
    let mut t: Vec<(String, Vec<String>)> = Vec::new();
    let mut i: usize = 0;
    proof {
        assert(keys(t@).to_set() =~= ui_map(nodes@.take(0), ui).dom());
    }
    while i < nodes.len()
        invariant
            ui == strs(ui_crates@),
            i <= nodes@.len(),
            is_map(t@),
            keys(t@).to_set() == ui_map(nodes@.take(i as int), ui).dom(),
            forall|k: Seq<char>|
                #[trigger] ui_map(nodes@.take(i as int), ui).dom().contains(k) ==> (lookup(t@, k) matches Some(v) && strs(
                    v@,
                ) == ui_map(nodes@.take(i as int), ui)[k]),
        decreases nodes@.len() - i,
    {
        assert(nodes@.take(i + 1).drop_last() =~= nodes@.take(i as int));
        assert(nodes@.take(i + 1).last() == nodes@[i as int]);
        let n = &nodes[i];
        let ghost before = ui_map(nodes@.take(i as int), ui);
        let exports: Option<&Vec<String>> = match &n.ast_summary {
            Some(a) => Some(&a.slint_exports),
            None => None,
        };
        let by_exports = match exports {
            Some(e) => e.len() > 0,
            None => false,
        };
        if set_contains(ui_crates, n.name.as_str()) || by_exports {
            let ex: Vec<String> = match exports {
                Some(e) => crate::text::clone_strings(e),
                None => Vec::new(),
            };
            assert(strs(ex@) =~= exports_of(*n));
            let ghost t0 = t@;
            crate::text::map_insert(&mut t, n.id.clone(), ex);
            proof {
                let after = before.insert(n.id@, exports_of(*n));
                assert(keys(t@).to_set() =~= after.dom());
                assert forall|k: Seq<char>| #[trigger] after.dom().contains(k) implies (lookup(t@, k) matches Some(v) && strs(
                    v@,
                ) == after[k]) by {
                    if k != n.id@ {
                        assert(lookup(t@, k) == lookup(t0, k));
                    }
                }
            }
        }
        i = i + 1;
    }
    assert(nodes@.take(nodes@.len() as int) =~= nodes@);
    proof {
        let m = ui_map(nodes@, ui);
        crate::text::lemma_canon(keys(t@));
        assert(table_view(t@) =~= crate::text::canon(m.dom()).map_values(|k: Seq<char>| (k, m[k]))) by {
            assert forall|j: int| 0 <= j < t@.len() implies table_view(t@)[j] == (keys(t@)[j], m[keys(t@)[j]]) by {
                let k = keys(t@)[j];
                assert(keys(t@).to_set().contains(k));
                crate::text::lemma_lookup_index(t@, k, j);
            }
        }
    }
    t
}

fn count_shared(a: &Vec<String>, b: &Vec<String>) -> (r: usize)
    ensures
        r == count_in(strs(a@), strs(b@)),
{
    let mut c: usize = 0;
    let mut i: usize = 0;
    while i < a.len()
        invariant
            i <= a@.len(),
            c == count_in(strs(a@).take(i as int), strs(b@)),
            c <= i,
        decreases a@.len() - i,
    {
        assert(strs(a@).take(i + 1).drop_last() =~= strs(a@).take(i as int));
        if set_contains(b, a[i].as_str()) {
            c = c + 1;
        }
        i = i + 1;
    }
    assert(strs(a@).take(a@.len() as int) =~= strs(a@));
    c
}

fn add_ui_edges(nodes: &Vec<crate::Node>, table: &Vec<(String, Vec<String>)>, edges: &mut Vec<Edge>)
    ensures
        evs(final(edges)@) == ui_edges(evs(old(edges)@), nodes@, table_view(table@)),
{
    let ghost e0 = evs(edges@);
    let ghost tv = table_view(table@);
    let mut i: usize = 0;
    while i < nodes.len()
        invariant
            tv == table_view(table@),
            i <= nodes@.len(),
            evs(edges@) == ui_edges(e0, nodes@.take(i as int), tv),
        decreases nodes@.len() - i,
    {
        assert(nodes@.take(i + 1).drop_last() =~= nodes@.take(i as int));
        assert(nodes@.take(i + 1).last() == nodes@[i as int]);
        let n = &nodes[i];
        match &n.ast_summary {
            Some(a) => {
                if str_eq(n.kind.as_str(), "plugin") && a.slint_components.len() > 0 {
                    let ghost prev = evs(edges@);
                    let mut k: usize = 0;
                    while k < table.len()
                        invariant
                            tv == table_view(table@),
                            k <= table@.len(),
                            i < nodes@.len(),
                            n == &nodes@[i as int],
                            n.ast_summary == Some(*a),
                            evs(edges@) == ui_edges_from(prev, *n, tv.take(k as int)),
                        decreases table@.len() - k,
                    {
                        assert(tv.take(k + 1).drop_last() =~= tv.take(k as int));
                        assert(tv.take(k + 1).last() == tv[k as int]);
                        let uid = &table[k].0;
                        if !str_eq(uid.as_str(), n.id.as_str()) {
                            let overlap = count_shared(&a.slint_components, &table[k].1);
                            proof {
                                lemma_has_edge_ev(edges@, n.id@, uid@, "uses_ui"@);
                            }
                            if overlap > 0 && !edge_exists(edges, n.id.as_str(), uid.as_str(), "uses_ui") {
                                let mut note = crate::text::fmt_usize(overlap);
                                push_str(&mut note, " shared Lx* components");
                                push_edge(edges, n.id.as_str(), uid.as_str(), "uses_ui", Some(note));
                            }
                        }
                        k = k + 1;
                    }
                    assert(tv.take(table@.len() as int) =~= tv);
                }
            },
            None => {},
        }
        i = i + 1;
    }
    assert(nodes@.take(nodes@.len() as int) =~= nodes@);
}

fn strong_signals(sigs: &Vec<String>) -> (r: Vec<String>)
    ensures
        strs(r@) == strong_of(strs(sigs@)),
{
    let mut r: Vec<String> = Vec::new();
    let mut i: usize = 0;
    while i < sigs.len()
        invariant
            i <= sigs@.len(),
            strs(r@) == strong_of(strs(sigs@).take(i as int)),
        decreases sigs@.len() - i,
    {
        assert(strs(sigs@).take(i + 1).drop_last() =~= strs(sigs@).take(i as int));
        let x = sigs[i].as_str();
        if str_eq(x, "shm") || str_eq(x, "relay") || str_eq(x, "seqlock") {
            let ghost r0 = r@;
            r.push(sigs[i].clone());
            proof {
                lemma_strs_push(r0, r@.last());
            }
        }
        i = i + 1;
    }
    assert(strs(sigs@).take(sigs@.len() as int) =~= strs(sigs@));
    r
}

fn ipc_plugin_list(nodes: &Vec<crate::Node>) -> (r: Vec<(String, Vec<String>)>)
    ensures
        table_view(r@) == ipc_plugins(nodes@),
{
    let mut r: Vec<(String, Vec<String>)> = Vec::new();
    let mut i: usize = 0;
    while i < nodes.len()
        invariant
            i <= nodes@.len(),
            table_view(r@) == ipc_plugins(nodes@.take(i as int)),
        decreases nodes@.len() - i,
    {
        assert(nodes@.take(i + 1).drop_last() =~= nodes@.take(i as int));
        assert(nodes@.take(i + 1).last() == nodes@[i as int]);
        let n = &nodes[i];
        if let Some(a) = &n.ast_summary {
            let sigs = strong_signals(&a.ipc_signals);
            if str_eq(n.kind.as_str(), "plugin") && sigs.len() > 0 {
                let ghost r0 = r@;
                r.push((n.id.clone(), sigs));
                assert(table_view(r@) =~= table_view(r0).push((n.id@, strong_of(strs(a.ipc_signals@)))));
            }
        }
        assert(table_view(r@) =~= ipc_plugins(nodes@.take(i + 1)));
        i = i + 1;
    }
    assert(nodes@.take(nodes@.len() as int) =~= nodes@);
    r
}

fn add_runtime_edges(ps: &Vec<(String, Vec<String>)>, shm: &Option<String>, edges: &mut Vec<Edge>)
    ensures
        evs(final(edges)@) == runtime_edges(evs(old(edges)@), table_view(ps@), opt_view(*shm)),
{
    let ghost e0 = evs(edges@);
    let ghost pv = table_view(ps@);
    let mut i: usize = 0;
    while i < ps.len()
        invariant
            pv == table_view(ps@),
            i <= ps@.len(),
            evs(edges@) == runtime_edges(e0, pv.take(i as int), opt_view(*shm)),
        decreases ps@.len() - i,
    {
        assert(pv.take(i + 1).drop_last() =~= pv.take(i as int));
        assert(pv.take(i + 1).last() == pv[i as int]);
        if let Some(h) = shm {
            let pid = ps[i].0.as_str();
            proof {
                lemma_has_edge_ev(edges@, pid@, h@, "depends_on"@);
                lemma_has_edge_ev(edges@, pid@, h@, "runtime_depends_on"@);
            }
            if !edge_exists(edges, pid, h.as_str(), "depends_on") && !edge_exists(edges, pid, h.as_str(), "runtime_depends_on") {
                let j = crate::text::join_strings(&ps[i].1, "+");
                let note = crate::text::cat2("via ", j.as_str());
                push_edge(edges, pid, h.as_str(), "runtime_depends_on", Some(note));
            }
        }
        i = i + 1;
    }
    assert(pv.take(ps@.len() as int) =~= pv);
}

fn shared_signals(a: &Vec<String>, b: &Vec<String>) -> (r: Vec<String>)
    ensures
        strs(r@) == shared_of(strs(a@), strs(b@)),
{
    let mut r: Vec<String> = Vec::new();
    let mut i: usize = 0;
    while i < a.len()
        invariant
            i <= a@.len(),
            strs(r@) == shared_of(strs(a@).take(i as int), strs(b@)),
        decreases a@.len() - i,
    {
        assert(strs(a@).take(i + 1).drop_last() =~= strs(a@).take(i as int));
        if set_contains(b, a[i].as_str()) {
            let ghost r0 = r@;
            r.push(a[i].clone());
            proof {
                lemma_strs_push(r0, r@.last());
            }
        }
        i = i + 1;
    }
    assert(strs(a@).take(a@.len() as int) =~= strs(a@));
    r
}

fn add_peer_edges(ps: &Vec<(String, Vec<String>)>, edges: &mut Vec<Edge>)
    ensures
        evs(final(edges)@) == peers(evs(old(edges)@), table_view(ps@), ps@.len() as int),
{
    let ghost e0 = evs(edges@);
    let ghost pv = table_view(ps@);
    let mut i: usize = 0;
    while i < ps.len()
        invariant
            pv == table_view(ps@),
            i <= ps@.len(),
            evs(edges@) == peers(e0, pv, i as int),
        decreases ps@.len() - i,
    {
        let ghost row0 = evs(edges@);
        let mut j: usize = i + 1;
        while j < ps.len()
            invariant
                pv == table_view(ps@),
                i < j <= ps@.len(),
                evs(edges@) == peers_row(row0, pv, i as int, j as int),
            decreases ps@.len() - j,
        {
            let a = ps[i].0.as_str();
            let b = ps[j].0.as_str();
            let sh = shared_signals(&ps[i].1, &ps[j].1);
            proof {
                lemma_has_edge_ev(edges@, a@, b@, "ipc_peer"@);
                lemma_has_edge_ev(edges@, b@, a@, "ipc_peer"@);
            }
            if sh.len() > 0 && !edge_exists(edges, a, b, "ipc_peer") && !edge_exists(edges, b, a, "ipc_peer") {
                let note = crate::text::cat2("shared: ", crate::text::join_strings(&sh, ", ").as_str());
                push_edge(edges, a, b, "ipc_peer", Some(note));
            }
            j = j + 1;
        }
        i = i + 1;
    }
}

// ---------------------------------------------------------------------------
// Taxonomy, members, migrations, edge order
// ---------------------------------------------------------------------------

/// Taxonomy entry under `q`: the config's, else the built-in / registry one.
pub open spec fn tax_entry(reg: Option<crate::registry::Registry>, cfw: Seq<(String, FrameworkSpec)>, q: Seq<char>) -> Option<
    (Seq<char>, Seq<char>, Option<Seq<char>>),
> {
    match lookup(cfw, q) {
        Some(f) => Some(crate::config::fsv(f)),
        None => match crate::config::builtin_framework(q) {
            Some(b) => Some(b),
            None => crate::config::registry_view(reg, q),
        },
    }
}

/// A sorted taxonomy with exactly these entries.
pub open spec fn tax_ok(t: Seq<(String, FrameworkSpec)>, reg: Option<crate::registry::Registry>, cfw: Seq<(String, FrameworkSpec)>) -> bool {
    is_map(t) && forall|q: Seq<char>| #[trigger] crate::config::fsv_opt(lookup(t, q)) == tax_entry(reg, cfw, q)
}

fn copy_spec(f: &FrameworkSpec) -> (r: FrameworkSpec)
    ensures
        crate::config::fsv(r) == crate::config::fsv(*f),
{
    FrameworkSpec { name: f.name.clone(), kind: f.kind.clone(), notes: crate::text::clone_opt(&f.notes) }
}

/// The built-in taxonomy (with the registry) extended by the config's frameworks.
pub fn merged_taxonomy(reg: Option<&crate::registry::Registry>, cfw: &Vec<(String, FrameworkSpec)>) -> (t: Vec<(String, FrameworkSpec)>)
    requires
        reg matches Some(r) ==> r.wf(),
        is_map(cfw@),
    ensures
        tax_ok(
            t@,
            match reg {
                Some(r) => Some(*r),
                None => None,
            },
            cfw@,
        ),
{
    let ghost rv = match reg {
        Some(r) => Some(*r),
        None => None,
    };
    let mut t = crate::config::default_taxonomy(reg);
    let mut i: usize = 0;
    while i < cfw.len()
        invariant
            is_map(cfw@),
            i <= cfw@.len(),
            is_map(t@),
            forall|q: Seq<char>| #[trigger] crate::config::fsv_opt(lookup(t@, q)) == match lookup(cfw@.take(i as int), q) {
                Some(f) => Some(crate::config::fsv(f)),
                None => match crate::config::builtin_framework(q) {
                    Some(b) => Some(b),
                    None => crate::config::registry_view(rv, q),
                },
            },
        decreases cfw@.len() - i,
    {
        let ghost t0 = t@;
        let k = cfw[i].0.clone();
        let v = copy_spec(&cfw[i].1);
        crate::text::map_insert(&mut t, k, v);
        proof {
            assert forall|q: Seq<char>| #[trigger] crate::config::fsv_opt(lookup(t@, q)) == match lookup(cfw@.take(i + 1), q) {
                Some(f) => Some(crate::config::fsv(f)),
                None => match crate::config::builtin_framework(q) {
                    Some(b) => Some(b),
                    None => crate::config::registry_view(rv, q),
                },
            } by {
                crate::text::lemma_lookup_take_step(cfw@, i as int, q);
                if q != cfw@[i as int].0@ {
                    assert(lookup(t@, q) == lookup(t0, q));
                }
            }
        }
        i = i + 1;
    }
    assert(cfw@.take(cfw@.len() as int) =~= cfw@);
    t
}

/// Dependency state after the members before `i` (edges and outside packages).
pub open spec fn state_before(
    ms: Seq<MemberInput>,
    ic: Seq<Seq<char>>,
    ws: Seq<(String, Option<String>)>,
    i: int,
) -> (Seq<EdgeView>, Seq<Seq<char>>)
    decreases i, 0int,
{
    if i <= 0 {
        (Seq::empty(), Seq::empty())
    } else {
        let st = member_state(ms, ic, ws, i - 1);
        (st.0, st.1)
    }
}

/// Dependency state of member `i`.
pub open spec fn member_state(ms: Seq<MemberInput>, ic: Seq<Seq<char>>, ws: Seq<(String, Option<String>)>, i: int) -> DepState
    decreases i, 1int,
{
    let b = state_before(ms, ic, ws, i);
    deps_fold((b.0, b.1, Set::empty(), Set::empty(), Seq::empty()), ms[i].deps@, ms[i].rel_path@, ms, ic, ws)
}

/// Node `i` of the graph was built from member `i`.
pub open spec fn nodes_built(
    ms: Seq<MemberInput>,
    ic: Seq<Seq<char>>,
    ws: Seq<(String, Option<String>)>,
    tax: Seq<(String, FrameworkSpec)>,
    migs: Seq<(String, MigrationSpec)>,
    verbose: bool,
    ns: Seq<crate::Node>,
) -> bool {
    &&& ns.len() == ms.len()
    &&& forall|i: int|
        0 <= i < ns.len() ==> {
            let st = member_state(ms, ic, ws, i);
            node_built(
                ms[i],
                (Seq::empty(), Seq::empty(), st.2, st.3, st.4),
                tax,
                migs,
                crate::text::canon(ms.map_values(|m: MemberInput| m.name@).to_set()),
                verbose,
                #[trigger] ns[i],
            )
        }
}

/// Every member's source summary keeps its maps and sets well-formed.
pub open spec fn members_ok(ms: Seq<MemberInput>) -> bool {
    forall|i: int|
        0 <= i < ms.len() ==> is_map((#[trigger] ms[i]).ast.features@) && is_set(ms[i].ast.plugin_formats@)
            && crate::findings::counts_fit(ms[i].ast)
}

/// Result of one member's dependencies: names, internal ids, details.
pub type DepResult = (Vec<String>, Vec<String>, Vec<crate::DependencyDetail>);

pub open spec fn result_ok(r: DepResult, st: DepState) -> bool {
    is_set(r.0@) && strs(r.0@).to_set() == st.2 && is_set(r.1@) && strs(r.1@).to_set() == st.3 && detail_views(r.2@) == st.4
}

fn all_member_deps(
    members: &Vec<MemberInput>,
    ic: &Vec<String>,
    ws: &Vec<(String, Option<String>)>,
) -> (r: (Vec<Edge>, Vec<DepResult>))
    ensures
        evs(r.0@) == state_before(members@, strs(ic@), ws@, members@.len() as int).0,
        r.1@.len() == members@.len(),
        forall|i: int| 0 <= i < members@.len() ==> result_ok(#[trigger] r.1@[i], member_state(members@, strs(ic@), ws@, i)),
{
    let mut edges: Vec<Edge> = Vec::new();
    let mut auto: Vec<String> = Vec::new();
    let mut results: Vec<DepResult> = Vec::new();
    let ghost icv = strs(ic@);
    let mut i: usize = 0;
    assert(evs(edges@) =~= Seq::<EdgeView>::empty());
    assert(strs(auto@) =~= Seq::<Seq<char>>::empty());
    while i < members.len()
        invariant
            icv == strs(ic@),
            i <= members@.len(),
            results@.len() == i,
            (evs(edges@), strs(auto@)) == state_before(members@, icv, ws@, i as int),
            forall|j: int| 0 <= j < i ==> result_ok(#[trigger] results@[j], member_state(members@, icv, ws@, j)),
        decreases members@.len() - i,
    {
        let r = member_deps(&members[i], members, ic, ws, &mut edges, &mut auto);
        results.push(r);
        assert(state_before(members@, icv, ws@, i + 1) == (evs(edges@), strs(auto@)));
        i = i + 1;
    }
    (edges, results)
}

/// A member with nothing in it (empty name and path, no package fields,
/// dependencies or features, a blank source summary), used as a placeholder
/// while members are moved out of their vector.
fn dummy_member() -> (m: MemberInput)
    ensures
        m.name@.len() == 0,
        m.rel_path@.len() == 0,
        m.package_name is None,
        m.description is None,
        m.version is None,
        m.deps@.len() == 0,
        m.features@.len() == 0,
        m.ast.blank(),
{
    MemberInput {
        name: String::new(),
        rel_path: String::new(),
        package_name: None,
        description: None,
        version: None,
        deps: Vec::new(),
        features: Vec::new(),
        ast: crate::ast::AstSummary::new(),
    }
}

fn build_nodes(
    members: Vec<MemberInput>,
    results: Vec<DepResult>,
    ic: &Vec<String>,
    ws: &Vec<(String, Option<String>)>,
    taxonomy: &Vec<(String, FrameworkSpec)>,
    migrations: &Vec<(String, MigrationSpec)>,
    verbose: bool,
) -> (ns: Vec<crate::Node>)
    requires
        is_map(taxonomy@),
        members_ok(members@),
        results@.len() == members@.len(),
        forall|i: int| 0 <= i < members@.len() ==> result_ok(#[trigger] results@[i], member_state(members@, strs(ic@), ws@, i)),
    ensures
        nodes_built(members@, strs(ic@), ws@, taxonomy@, migrations@, verbose, ns@),
{
    let ghost ms = members@;
    let ghost icv = strs(ic@);
    let mut names: Vec<String> = Vec::new();
    let mut k: usize = 0;
    while k < members.len()
        invariant
            k <= members@.len(),
            members@ == ms,
            strs(names@) == ms.map_values(|m: MemberInput| m.name@).take(k as int),
        decreases members@.len() - k,
    {
        let ghost n0 = names@;
        names.push(members[k].name.clone());
        proof {
            lemma_strs_push(n0, names@.last());
            assert(ms.map_values(|m: MemberInput| m.name@).take(k + 1) =~= ms.map_values(|m: MemberInput| m.name@).take(
                k as int,
            ).push(ms[k as int].name@));
        }
        k = k + 1;
    }
    assert(ms.map_values(|m: MemberInput| m.name@).take(ms.len() as int) =~= ms.map_values(|m: MemberInput| m.name@));
    let member_names = crate::text::sorted_distinct(&names);
    proof {
        crate::text::lemma_canon(strs(member_names@));
    }
    let mut src = members;
    let mut res = results;
    let n = src.len();
    let mut ns: Vec<crate::Node> = Vec::new();
    let mut i: usize = 0;
    while i < n
        invariant
            n == ms.len(),
            src@.len() == n,
            res@.len() == n,
            i <= n,
            is_map(taxonomy@),
            members_ok(ms),
            icv == strs(ic@),
            strs(member_names@) == crate::text::canon(ms.map_values(|m: MemberInput| m.name@).to_set()),
            forall|j: int| i <= j < n ==> #[trigger] src@[j] == ms[j],
            forall|j: int| i <= j < n ==> result_ok(#[trigger] res@[j], member_state(ms, icv, ws@, j)),
            ns@.len() == i,
            forall|j: int|
                0 <= j < i ==> {
                    let st = member_state(ms, icv, ws@, j);
                    node_built(
                        ms[j],
                        (Seq::empty(), Seq::empty(), st.2, st.3, st.4),
                        taxonomy@,
                        migrations@,
                        crate::text::canon(ms.map_values(|m: MemberInput| m.name@).to_set()),
                        verbose,
                        #[trigger] ns@[j],
                    )
                },
        decreases n - i,
    {
        let mut m = dummy_member();
        std::mem::swap(&mut m, &mut src[i]);
        let mut r: DepResult = (Vec::new(), Vec::new(), Vec::new());
        std::mem::swap(&mut r, &mut res[i]);
        assert(m == ms[i as int]);
        let node = build_node(m, r, taxonomy, migrations, &member_names, verbose);
        ns.push(node);
        i = i + 1;
    }
    ns
}

/// Names of the plugins still on the legacy side of a migration.
pub open spec fn legacy_names(ns: Seq<crate::Node>, from: Seq<char>, to: Seq<char>) -> Seq<Seq<char>>
    decreases ns.len(),
{
    if ns.len() == 0 {
        Seq::empty()
    } else {
        let n = ns.last();
        legacy_names(ns.drop_last(), from, to) + if n.kind@ == "plugin"@ && strs(n.frameworks@).contains(from) && !strs(
            n.frameworks@,
        ).contains(to) {
            seq![n.name@]
        } else {
            Seq::empty()
        }
    }
}

/// Number of plugins on the target side only.
pub open spec fn migrated_count(ns: Seq<crate::Node>, from: Seq<char>, to: Seq<char>) -> nat
    decreases ns.len(),
{
    if ns.len() == 0 {
        0
    } else {
        let n = ns.last();
        migrated_count(ns.drop_last(), from, to) + if n.kind@ == "plugin"@ && strs(n.frameworks@).contains(to) && !strs(
            n.frameworks@,
        ).contains(from) {
            1nat
        } else {
            0nat
        }
    }
}

/// Number of plugins.
pub open spec fn plugin_count(ns: Seq<crate::Node>) -> nat
    decreases ns.len(),
{
    if ns.len() == 0 {
        0
    } else {
        plugin_count(ns.drop_last()) + if ns.last().kind@ == "plugin"@ { 1nat } else { 0nat }
    }
}

pub open spec fn legacy_total(ns: Seq<crate::Node>, ms: Seq<(String, MigrationSpec)>) -> nat
    decreases ms.len(),
{
    if ms.len() == 0 {
        0
    } else {
        legacy_total(ns, ms.drop_last()) + legacy_names(ns, ms.last().1.from@, ms.last().1.to@).len()
    }
}

pub open spec fn migrated_total(ns: Seq<crate::Node>, ms: Seq<(String, MigrationSpec)>) -> nat
    decreases ms.len(),
{
    if ms.len() == 0 {
        0
    } else {
        migrated_total(ns, ms.drop_last()) + migrated_count(ns, ms.last().1.from@, ms.last().1.to@)
    }
}

/// The migration summary of the nodes: per migration (in id order) its
/// endpoints, legacy plugins and counts, and the totals.
pub open spec fn summary_ok(s: crate::MigrationSummary, ns: Seq<crate::Node>, ms: Seq<(String, MigrationSpec)>) -> bool {
    &&& s.total_plugins == plugin_count(ns)
    &&& s.total_legacy == legacy_total(ns, ms)
    &&& s.total_migrated == migrated_total(ns, ms)
    &&& s.migrations@.len() == ms.len()
    &&& forall|i: int|
        0 <= i < ms.len() ==> {
            let (id, d) = #[trigger] s.migrations@[i];
            let (mid, sp) = ms[i];
            &&& id@ == mid@
            &&& d.from@ == sp.from@
            &&& d.to@ == sp.to@
            &&& strs(d.legacy_plugins@) == legacy_names(ns, sp.from@, sp.to@)
            &&& d.legacy_count == legacy_names(ns, sp.from@, sp.to@).len()
            &&& d.migrated_count == migrated_count(ns, sp.from@, sp.to@)
        }
}

proof fn lemma_counts_bound(ns: Seq<crate::Node>, from: Seq<char>, to: Seq<char>)
    ensures
        legacy_names(ns, from, to).len() <= ns.len(),
        migrated_count(ns, from, to) <= ns.len(),
        plugin_count(ns) <= ns.len(),
    decreases ns.len(),
{
    if ns.len() > 0 {
        lemma_counts_bound(ns.drop_last(), from, to);
    }
}

proof fn lemma_totals_bound(ns: Seq<crate::Node>, ms: Seq<(String, MigrationSpec)>)
    ensures
        legacy_total(ns, ms) <= ms.len() * ns.len(),
        migrated_total(ns, ms) <= ms.len() * ns.len(),
    decreases ms.len(),
{
    if ms.len() > 0 {
        lemma_totals_bound(ns, ms.drop_last());
        lemma_counts_bound(ns, ms.last().1.from@, ms.last().1.to@);
        assert((ms.len() - 1) * ns.len() + ns.len() == ms.len() * ns.len()) by (nonlinear_arith);
    }
}

proof fn lemma_total_step(ns: Seq<crate::Node>, ms: Seq<(String, MigrationSpec)>, i: int)
    requires
        0 <= i < ms.len(),
    ensures
        legacy_total(ns, ms.take(i + 1)) == legacy_total(ns, ms.take(i)) + legacy_names(ns, ms[i].1.from@, ms[i].1.to@).len(),
        migrated_total(ns, ms.take(i + 1)) == migrated_total(ns, ms.take(i)) + migrated_count(ns, ms[i].1.from@, ms[i].1.to@),
        legacy_total(ns, ms.take(i + 1)) <= legacy_total(ns, ms),
        migrated_total(ns, ms.take(i + 1)) <= migrated_total(ns, ms),
    decreases ms.len() - i,
{
    assert(ms.take(i + 1).drop_last() =~= ms.take(i));
    if i + 1 < ms.len() {
        lemma_total_step(ns, ms, i + 1);
    } else {
        assert(ms.take(i + 1) =~= ms);
    }
}

fn migration_summary(nodes: &Vec<crate::Node>, migrations: &Vec<(String, MigrationSpec)>) -> (s: crate::MigrationSummary)
    requires
        migrations@.len() * nodes@.len() <= usize::MAX,
    ensures
        summary_ok(s, nodes@, migrations@),
{
    let ghost ns = nodes@;
    let mut total_plugins: usize = 0;
    let mut k: usize = 0;
    while k < nodes.len()
        invariant
            k <= ns.len(),
            ns == nodes@,
            total_plugins == plugin_count(ns.take(k as int)),
            total_plugins <= k,
        decreases ns.len() - k,
    {
        assert(ns.take(k + 1).drop_last() =~= ns.take(k as int));
        if str_eq(nodes[k].kind.as_str(), "plugin") {
            total_plugins = total_plugins + 1;
        }
        k = k + 1;
    }
    assert(ns.take(ns.len() as int) =~= ns);
    proof {
        lemma_totals_bound(ns, migrations@);
    }
    let mut details: Vec<(String, crate::MigrationDetail)> = Vec::new();
    let mut total_legacy: usize = 0;
    let mut total_migrated: usize = 0;
    let mut i: usize = 0;
    while i < migrations.len()
        invariant
            ns == nodes@,
            i <= migrations@.len(),
            details@.len() == i,
            total_legacy == legacy_total(ns, migrations@.take(i as int)),
            total_migrated == migrated_total(ns, migrations@.take(i as int)),
            legacy_total(ns, migrations@) <= usize::MAX,
            migrated_total(ns, migrations@) <= usize::MAX,
            forall|j: int|
                0 <= j < i ==> {
                    let (id, d) = #[trigger] details@[j];
                    let (mid, sp) = migrations@[j];
                    &&& id@ == mid@
                    &&& d.from@ == sp.from@
                    &&& d.to@ == sp.to@
                    &&& strs(d.legacy_plugins@) == legacy_names(ns, sp.from@, sp.to@)
                    &&& d.legacy_count == legacy_names(ns, sp.from@, sp.to@).len()
                    &&& d.migrated_count == migrated_count(ns, sp.from@, sp.to@)
                },
        decreases migrations@.len() - i,
    {
        let from = migrations[i].1.from.as_str();
        let to = migrations[i].1.to.as_str();
        let mut legacy: Vec<String> = Vec::new();
        let mut migrated: usize = 0;
        let mut k: usize = 0;
        while k < nodes.len()
            invariant
                ns == nodes@,
                k <= ns.len(),
                strs(legacy@) == legacy_names(ns.take(k as int), from@, to@),
                migrated == migrated_count(ns.take(k as int), from@, to@),
                migrated <= k,
            decreases ns.len() - k,
        {
            assert(ns.take(k + 1).drop_last() =~= ns.take(k as int));
            assert(ns.take(k + 1).last() == ns[k as int]);
            let n = &nodes[k];
            if str_eq(n.kind.as_str(), "plugin") {
                let hf = set_contains(&n.frameworks, from);
                let ht = set_contains(&n.frameworks, to);
                if hf && !ht {
                    let ghost l0 = legacy@;
                    legacy.push(n.name.clone());
                    proof {
                        lemma_strs_push(l0, legacy@.last());
                    }
                }
                if ht && !hf {
                    migrated = migrated + 1;
                }
            }
            k = k + 1;
        }
        assert(ns.take(ns.len() as int) =~= ns);
        proof {
            lemma_total_step(ns, migrations@, i as int);
        }
        total_legacy = total_legacy + legacy.len();
        total_migrated = total_migrated + migrated;
        let d = crate::MigrationDetail {
            from: migrations[i].1.from.clone(),
            to: migrations[i].1.to.clone(),
            legacy_count: legacy.len(),
            migrated_count: migrated,
            legacy_plugins: legacy,
        };
        details.push((migrations[i].0.clone(), d));
        i = i + 1;
    }
    assert(migrations@.take(migrations@.len() as int) =~= migrations@);
    crate::MigrationSummary { total_plugins, total_legacy, total_migrated, migrations: details }
}

/// Frameworks detected on some node.
pub open spec fn used_set(ns: Seq<crate::Node>) -> Set<Seq<char>> {
    Set::new(|f: Seq<char>| exists|i: int| 0 <= i < ns.len() && strs((#[trigger] ns[i]).frameworks@).contains(f))
}

fn used_frameworks(nodes: &Vec<crate::Node>) -> (r: Vec<String>)
    ensures
        is_set(r@),
        strs(r@).to_set() == used_set(nodes@),
{
    let mut r: Vec<String> = Vec::new();
    let mut i: usize = 0;
    assert(strs(r@).to_set() =~= used_set(nodes@.take(0)));
    while i < nodes.len()
        invariant
            i <= nodes@.len(),
            is_set(r@),
            strs(r@).to_set() == used_set(nodes@.take(i as int)),
        decreases nodes@.len() - i,
    {
        let fws = &nodes[i].frameworks;
        let ghost before = strs(r@).to_set();
        let mut k: usize = 0;
        while k < fws.len()
            invariant
                k <= fws@.len(),
                is_set(r@),
                strs(r@).to_set() == before.union(strs(fws@).take(k as int).to_set()),
            decreases fws@.len() - k,
        {
            crate::text::set_insert(&mut r, fws[k].clone());
            proof {
                assert(strs(fws@).take(k + 1) =~= strs(fws@).take(k as int).push(fws@[k as int]@));
                strs(fws@).take(k as int).lemma_push_to_set_commute(fws@[k as int]@);
            }
            k = k + 1;
        }
        assert(strs(fws@).take(fws@.len() as int) =~= strs(fws@));
        proof {
            assert(nodes@.take(i + 1)[i as int] == nodes@[i as int]);
            assert forall|f: Seq<char>| #[trigger] used_set(nodes@.take(i + 1)).contains(f) <==> before.union(strs(fws@).to_set()).contains(f) by {
                if used_set(nodes@.take(i + 1)).contains(f) {
                    let j = choose|j: int| 0 <= j < nodes@.take(i + 1).len() && strs((#[trigger] nodes@.take(i + 1)[j]).frameworks@).contains(f);
                    if j < i {
                        assert(nodes@.take(i as int)[j] == nodes@.take(i + 1)[j]);
                    }
                }
                if before.contains(f) {
                    let j = choose|j: int| 0 <= j < nodes@.take(i as int).len() && strs((#[trigger] nodes@.take(i as int)[j]).frameworks@).contains(f);
                    assert(nodes@.take(i + 1)[j] == nodes@.take(i as int)[j]);
                }
            }
            assert(used_set(nodes@.take(i + 1)) =~= before.union(strs(fws@).to_set()));
        }
        i = i + 1;
    }
    assert(nodes@.take(nodes@.len() as int) =~= nodes@);
    r
}

/// Edge `a` sorts strictly before `b`: by kind, then from, then to.
pub open spec fn edge_lt(a: EdgeView, b: EdgeView) -> bool {
    crate::text::lt(a.2, b.2) || (a.2 == b.2 && (crate::text::lt(a.0, b.0) || (a.0 == b.0 && crate::text::lt(a.1, b.1))))
}

pub open spec fn ins_edge(s: Seq<EdgeView>, x: EdgeView) -> Seq<EdgeView>
    decreases s.len(),
{
    if s.len() == 0 {
        seq![x]
    } else if !edge_lt(x, s.last()) {
        s.push(x)
    } else {
        ins_edge(s.drop_last(), x).push(s.last())
    }
}

/// Stable sort of edges by kind, from, to.
pub open spec fn sort_edges(s: Seq<EdgeView>) -> Seq<EdgeView>
    decreases s.len(),
{
    if s.len() == 0 {
        s
    } else {
        ins_edge(sort_edges(s.drop_last()), s.last())
    }
}

fn edge_lt_exec(a: &Edge, b: &Edge) -> (r: bool)
    ensures
        r == edge_lt(ev(*a), ev(*b)),
{
    crate::text::str_lt(a.kind.as_str(), b.kind.as_str()) || (str_eq(a.kind.as_str(), b.kind.as_str()) && (
    crate::text::str_lt(a.from.as_str(), b.from.as_str()) || (str_eq(a.from.as_str(), b.from.as_str())
        && crate::text::str_lt(a.to.as_str(), b.to.as_str()))))
}

fn sort_edges_exec(v: Vec<Edge>) -> (r: Vec<Edge>)
    ensures
        evs(r@) == sort_edges(evs(v@)),
{
    let mut r: Vec<Edge> = Vec::new();
    let mut src = v;
    let ghost all = evs(src@);
    let n = src.len();
    let mut i: usize = 0;
    while i < n
        invariant
            n == src@.len(),
            all.len() == n,
            i <= n,
            forall|j: int| i <= j < n ==> #[trigger] ev(src@[j]) == all[j],
            evs(r@) == sort_edges(all.take(i as int)),
        decreases n - i,
    {
        let mut x = Edge { from: String::new(), to: String::new(), kind: String::new(), feature: None, note: None };
        std::mem::swap(&mut x, &mut src[i]);
        proof {
            assert(all.take(i + 1).drop_last() =~= all.take(i as int));
            assert(all.take(i + 1).last() == all[i as int]);
        }
        let ghost rv = evs(r@);
        let mut j: usize = r.len();
        assert(rv.take(rv.len() as int) =~= rv);
        assert(rv.skip(rv.len() as int) =~= Seq::<EdgeView>::empty());
        while j > 0 && edge_lt_exec(&x, &r[j - 1])
            invariant
                j <= r@.len(),
                rv == evs(r@),
                ins_edge(rv, ev(x)) == ins_edge(rv.take(j as int), ev(x)) + rv.skip(j as int),
            decreases j,
        {
            proof {
                assert(rv.take(j as int).last() == rv[j - 1]);
                assert(rv.take(j as int).drop_last() =~= rv.take(j - 1));
                assert(rv.skip(j - 1) =~= seq![rv[j - 1]] + rv.skip(j as int));
            }
            j = j - 1;
        }
        proof {
            if j > 0 {
                assert(rv.take(j as int).last() == rv[j - 1]);
            }
            assert(ins_edge(rv.take(j as int), ev(x)) =~= rv.take(j as int).push(ev(x)));
        }
        r.insert(j, x);
        assert(evs(r@) =~= rv.take(j as int).push(all[i as int]) + rv.skip(j as int));
        i = i + 1;
    }
    assert(all.take(n as int) =~= all);
    r
}

/// The findings kept by the suppression rules, as views.
pub open spec fn kept_views(rules: Seq<crate::config::SuppressRule>, fs: Seq<crate::findings::FindingView>) -> Seq<
    crate::findings::FindingView,
>
    decreases fs.len(),
{
    if fs.len() == 0 {
        fs
    } else if crate::findings::suppressed_by(rules, fs.last()) {
        kept_views(rules, fs.drop_last())
    } else {
        kept_views(rules, fs.drop_last()).push(fs.last())
    }
}

proof fn lemma_kept_views(rules: Seq<crate::config::SuppressRule>, fs: Seq<crate::findings::Finding>)
    ensures
        crate::findings::fviews(crate::findings::kept_by(rules, fs)) == kept_views(rules, crate::findings::fviews(fs)),
    decreases fs.len(),
{
    if fs.len() > 0 {
        lemma_kept_views(rules, fs.drop_last());
        assert(crate::findings::fviews(fs).drop_last() =~= crate::findings::fviews(fs.drop_last()));
        crate::findings::lemma_fviews_push(crate::findings::kept_by(rules, fs.drop_last()), fs.last());
    }
}

proof fn lemma_ins_len(s: Seq<crate::findings::FindingView>, x: crate::findings::FindingView)
    ensures
        crate::findings::ins(s, x).len() == s.len() + 1,
    decreases s.len(),
{
    if s.len() > 0 {
        lemma_ins_len(s.drop_last(), x);
    }
}

proof fn lemma_sort_len(s: Seq<crate::findings::FindingView>)
    ensures
        crate::findings::sort_findings(s).len() == s.len(),
    decreases s.len(),
{
    if s.len() > 0 {
        lemma_sort_len(s.drop_last());
        lemma_ins_len(crate::findings::sort_findings(s.drop_last()), s.last());
    }
}

// ---------------------------------------------------------------------------
// The graph
// ---------------------------------------------------------------------------

/// Everything about the workspace that was read off disk or probed.
#[derive(Debug, Clone)]
pub struct WorkspaceInput {
    /// Members in name order, one per name.
    pub members: Vec<MemberInput>,
    /// `[workspace.dependencies]`: name → version (sorted map).
    pub workspace_versions: Vec<(String, Option<String>)>,
    /// Project name found in the root manifest (or the folder name).
    pub detected_name: String,
    /// The project root as text.
    pub project_root: String,
    /// Generation time (RFC 3339).
    pub generated_at: String,
    /// The framework registry shipped with the tool.
    pub registry: Option<crate::registry::Registry>,
    /// Filesystem facts for the integrity checks.
    pub layout: crate::findings::WorkspaceLayout,
    /// Tools found on `PATH`.
    pub tools: crate::tool_hints::ToolStatus,
}

/// Node id that a package name resolves to: the last node of that package
/// name, else the member of that name.
pub open spec fn hub_id(ms: Seq<MemberInput>, ns: Seq<crate::Node>, k: Seq<char>) -> Option<Seq<char>>
    decreases ns.len(),
{
    if ns.len() == 0 {
        id_of(ms, k)
    } else if ns.last().name@ == k {
        Some(ns.last().id@)
    } else {
        hub_id(ms, ns.drop_last(), k)
    }
}

/// The edges before sorting: dependency edges, then `uses_ui`, then
/// runtime edges to `lx-shm`, then IPC peers.
pub open spec fn graph_edges(input: WorkspaceInput, cfg: crate::config::ProjectConfig, ns: Seq<crate::Node>) -> Seq<EdgeView> {
    let ms = input.members@;
    let dep = state_before(ms, strs(cfg.internal_crates@), input.workspace_versions@, ms.len() as int).0;
    let ui = ui_edges(dep, ns, ui_entries(ns, strs(cfg.ui_crates@)));
    let ps = ipc_plugins(ns);
    peers(runtime_edges(ui, ps, hub_id(ms, ns, "lx-shm"@)), ps, ps.len() as int)
}

pub open spec fn rule_views(rs: Seq<(String, String)>) -> Seq<(Seq<char>, Seq<char>)> {
    rs.map_values(|p: (String, String)| (p.0@, p.1@))
}

/// The graph built from the workspace: nodes from members (with the merged
/// taxonomy), edges sorted by kind/from/to, suppressed and sorted findings,
/// the migration summary, the frameworks in use, and the run's metadata.
pub open spec fn graph_ok(input: WorkspaceInput, cfg: crate::config::ProjectConfig, verbose: bool, g: crate::Audiolabs) -> bool {
    let ms = input.members@;
    let ic = strs(cfg.internal_crates@);
    let ws = input.workspace_versions@;
    &&& exists|tax: Seq<(String, FrameworkSpec)>, es: Seq<Edge>|
        #![trigger tax_ok(tax, input.registry, cfg.frameworks@), evs(es)]
        {
            let all = crate::findings::sort_findings(
                crate::findings::unsorted_findings(input.layout, g.nodes@, es, cfg.rules@, input.tools),
            );
            &&& tax_ok(tax, input.registry, cfg.frameworks@)
            &&& nodes_built(ms, ic, ws, tax, cfg.migrations@, verbose, g.nodes@)
            &&& g.frameworks@.map_values(|f: Framework| framework_view(f)) == frameworks_of(
                tax,
                cfg.migrations@,
                crate::text::canon(used_set(g.nodes@)),
                verbose,
            )
            &&& evs(es) == graph_edges(input, cfg, g.nodes@)
            &&& crate::findings::fviews(g.findings@) == kept_views(cfg.suppress@, all)
            &&& g.findings_suppressed == all.len() - kept_views(cfg.suppress@, all).len()
        }
    &&& evs(g.edges@) == sort_edges(graph_edges(input, cfg, g.nodes@))
    &&& summary_ok(g.migration_summary, g.nodes@, cfg.migrations@)
    &&& is_set(g.used_frameworks@)
    &&& strs(g.used_frameworks@).to_set() == used_set(g.nodes@)
    &&& g.version@ == crate::agent::AGAL_VERSION@
    &&& g.generated_at@ == input.generated_at@
    &&& g.project_root@ == clean_root(input.project_root@)
    &&& g.project_name@ == match cfg.project_name {
        Some(n) => n@,
        None => input.detected_name@,
    }
    &&& rule_views(g.rules@) == rule_views(cfg.rules@)
    &&& g.delta is None
}

fn hub_id_exec(ns: &Vec<crate::Node>, member_id: &Option<String>, k: &str) -> (r: Option<String>)
    ensures
        forall|ms: Seq<MemberInput>| opt_view(*member_id) == id_of(ms, k@) ==> opt_view(r) == hub_id(ms, ns@, k@),
{
    let mut j: usize = ns.len();
    assert(ns@.take(ns@.len() as int) =~= ns@);
    while j > 0
        invariant
            j <= ns@.len(),
            forall|ms: Seq<MemberInput>| hub_id(ms, ns@, k@) == hub_id(ms, ns@.take(j as int), k@),
        decreases j,
    {
        assert(ns@.take(j as int).drop_last() =~= ns@.take(j - 1));
        if str_eq(ns[j - 1].name.as_str(), k) {
            return Some(ns[j - 1].id.clone());
        }
        j = j - 1;
    }
    crate::text::clone_opt(member_id)
}

fn copy_rules(rs: &Vec<(String, String)>) -> (r: Vec<(String, String)>)
    ensures
        rule_views(r@) == rule_views(rs@),
        is_map(rs@) ==> is_map(r@),
{
    let mut r: Vec<(String, String)> = Vec::new();
    let mut i: usize = 0;
    while i < rs.len()
        invariant
            i <= rs@.len(),
            rule_views(r@) == rule_views(rs@).take(i as int),
            keys(r@) == keys(rs@).take(i as int),
        decreases rs@.len() - i,
    {
        let ghost r0 = r@;
        let a = rs[i].0.clone();
        let b = rs[i].1.clone();
        r.push((a, b));
        assert(rule_views(r@) =~= rule_views(r0).push((a@, b@)));
        assert(rule_views(r@) =~= rule_views(rs@).take(i + 1));
        assert(keys(r@) =~= keys(rs@).take(i + 1));
        i = i + 1;
    }
    assert(rule_views(rs@).take(rs@.len() as int) =~= rule_views(rs@));
    assert(keys(rs@).take(rs@.len() as int) =~= keys(rs@));
    r
}

proof fn lemma_members_fit(ms: Seq<MemberInput>, ns: Seq<crate::Node>, ic: Seq<Seq<char>>, ws: Seq<(String, Option<String>)>,
    tax: Seq<(String, FrameworkSpec)>, migs: Seq<(String, MigrationSpec)>, verbose: bool)
    requires
        members_ok(ms),
        nodes_built(ms, ic, ws, tax, migs, verbose, ns),
    ensures
        crate::findings::plugins_fit(ns),
{
    assert forall|i: int| 0 <= i < ns.len() implies match #[trigger] ns[i].ast_summary {
        Some(a) => crate::findings::counts_fit(a),
        None => true,
    } by {
        let st = member_state(ms, ic, ws, i);
        assert(node_built(
            ms[i],
            (Seq::empty(), Seq::empty(), st.2, st.3, st.4),
            tax,
            migs,
            crate::text::canon(ms.map_values(|m: MemberInput| m.name@).to_set()),
            verbose,
            ns[i],
        ));
        assert(members_ok(ms) ==> crate::findings::counts_fit(ms[i].ast));
    }
}

/// Assembles the workspace graph from what was read off disk.
pub fn build_audiolabs(input: WorkspaceInput, config: &crate::config::ProjectConfig, verbose: bool) -> (g: crate::Audiolabs)
    requires
        config.wf(),
        input.registry matches Some(r) ==> r.wf(),
        members_ok(input.members@),
        config.migrations@.len() * input.members@.len() <= usize::MAX,
    ensures
        graph_ok(input, *config, verbose, g),
{
    let ghost inp = input;
    let tax = merged_taxonomy(
        match &input.registry {
            Some(r) => Some(r),
            None => None,
        },
        &config.frameworks,
    );
    let (mut edges, results) = all_member_deps(&input.members, &config.internal_crates, &input.workspace_versions);
    let shm_member = id_of_exec(&input.members, "lx-shm");
    let WorkspaceInput { members, workspace_versions, detected_name, project_root, generated_at, registry, layout, tools } =
        input;
    let nodes = build_nodes(
        members,
        results,
        &config.internal_crates,
        &workspace_versions,
        &tax,
        &config.migrations,
        verbose,
    );
    proof {
        lemma_members_fit(inp.members@, nodes@, strs(config.internal_crates@), inp.workspace_versions@, tax@, config.migrations@, verbose);
    }
    let table = ui_table(&nodes, &config.ui_crates);
    add_ui_edges(&nodes, &table, &mut edges);
    let ps = ipc_plugin_list(&nodes);
    let shm = hub_id_exec(&nodes, &shm_member, "lx-shm");
    add_runtime_edges(&ps, &shm, &mut edges);
    add_peer_edges(&ps, &mut edges);
    assert(evs(edges@) == graph_edges(inp, *config, nodes@));
    proof {
        assert(nodes@.len() == inp.members@.len());
    }
    let migration_summary = migration_summary(&nodes, &config.migrations);
    let used = used_frameworks(&nodes);
    proof {
        crate::text::lemma_canon(strs(used@));
    }
    let frameworks = build_frameworks_from_taxonomy(&tax, &config.migrations, &used, verbose);
    let found = crate::findings::analyze(&layout, &nodes, &edges, &config.rules, &tools);
    let ghost fv = crate::findings::fviews(found@);
    let (findings, findings_suppressed) = crate::findings::apply_suppressions(found, &config.suppress);
    proof {
        lemma_kept_views(config.suppress@, found@);
        lemma_sort_len(crate::findings::unsorted_findings(layout, nodes@, edges@, config.rules@, tools));
        assert(fv.len() == found@.len());
    }
    let ghost ues = edges@;
    let edges = sort_edges_exec(edges);
    let project_name = match &config.project_name {
        Some(n) => n.clone(),
        None => detected_name,
    };
    let g = crate::Audiolabs {
        version: owned(crate::agent::AGAL_VERSION),
        generated_at,
        project_root: clean_project_root(project_root.as_str()),
        project_name,
        used_frameworks: used,
        frameworks,
        nodes,
        edges,
        findings,
        findings_suppressed,
        migration_summary,
        rules: copy_rules(&config.rules),
        delta: None,
    };
    assert(tax_ok(tax@, inp.registry, config.frameworks@) && evs(ues) == graph_edges(inp, *config, g.nodes@));
    g
}

/// The path of the first member listed under `name`.
pub open spec fn first_path(ms: Seq<(String, String)>, name: Seq<char>) -> Option<Seq<char>>
    decreases ms.len(),
{
    if ms.len() == 0 {
        None
    } else {
        match first_path(ms.drop_last(), name) {
            Some(p) => Some(p),
            None => if ms.last().0@ == name {
                Some(ms.last().1@)
            } else {
                None
            },
        }
    }
}

/// Workspace members (name, path) in name order, one per name: the first
/// listed path of a name wins.
pub fn order_members(ms: &Vec<(String, String)>) -> (r: Vec<(String, String)>)
    ensures
        is_map(r@),
        forall|k: Seq<char>| #[trigger] opt_view(lookup(r@, k)) == first_path(ms@, k),
{
    let mut r: Vec<(String, String)> = Vec::new();
    let mut i: usize = 0;
    while i < ms.len()
        invariant
            i <= ms@.len(),
            is_map(r@),
            forall|k: Seq<char>| #[trigger] opt_view(lookup(r@, k)) == first_path(ms@.take(i as int), k),
        decreases ms@.len() - i,
    {
        assert(ms@.take(i + 1).drop_last() =~= ms@.take(i as int));
        assert(ms@.take(i + 1).last() == ms@[i as int]);
        let name = ms[i].0.as_str();
        assert(opt_view(lookup(r@, name@)) == first_path(ms@.take(i as int), name@));
        match crate::text::map_find(&r, name) {
            Some(_) => {
                assert forall|k: Seq<char>| #[trigger] opt_view(lookup(r@, k)) == first_path(ms@.take(i + 1), k) by {
                    assert(opt_view(lookup(r@, k)) == first_path(ms@.take(i as int), k));
                }
            },
            None => {
                let ghost r0 = r@;
                crate::text::map_insert(&mut r, ms[i].0.clone(), ms[i].1.clone());
                assert forall|k: Seq<char>| #[trigger] opt_view(lookup(r@, k)) == first_path(ms@.take(i + 1), k) by {
                    assert(opt_view(lookup(r0, k)) == first_path(ms@.take(i as int), k));
                    if k != name@ {
                        assert(lookup(r@, k) == lookup(r0, k));
                    }
                }
            },
        }
        i = i + 1;
    }
    assert(ms@.take(ms@.len() as int) =~= ms@);
    r
}

/// Export format that a Cargo feature of a plugin declares.
pub open spec fn format_of_feature(f: Seq<char>) -> Option<Seq<char>> {
    if f == "clap"@ || f == "nih_export_clap"@ || f == "nih-export-clap"@ {
        Some("CLAP"@)
    } else if f == "vst3"@ || f == "nih_export_vst3"@ || f == "nih-export-vst3"@ {
        Some("VST3"@)
    } else if f == "lv2"@ {
        Some("LV2"@)
    } else {
        None
    }
}

/// Export format that a framework of a plugin (lower-cased) implies.
pub open spec fn format_of_framework(fw: Seq<char>) -> Option<Seq<char>> {
    if fw == "truce"@ || fw == "clap"@ || fw == "clack"@ {
        Some("CLAP"@)
    } else if fw == "vst3"@ {
        Some("VST3"@)
    } else if fw == "lv2"@ {
        Some("LV2"@)
    } else {
        None
    }
}

/// A node built from a plugin member lists among its export formats every
/// format that one of the member's Cargo features declares, and every format
/// that one of the node's frameworks implies.
pub proof fn lemma_declared_formats_node(
    m: MemberInput,
    st: DepState,
    tax: Seq<(String, FrameworkSpec)>,
    migs: Seq<(String, MigrationSpec)>,
    names: Seq<Seq<char>>,
    verbose: bool,
    n: crate::Node,
)
    requires
        node_built(m, st, tax, migs, names, verbose, n),
        crate::text::starts_with(m.rel_path@, "plugins/"@),
    ensures
        n.ast_summary is Some,
        forall|f: Seq<char>|
            #![trigger keys(m.features@).contains(f), format_of_feature(f)]
            keys(m.features@).contains(f) && format_of_feature(f) is Some ==> strs(
                n.ast_summary->0.plugin_formats@,
            ).contains(format_of_feature(f)->0),
        forall|fw: Seq<char>|
            #![trigger strs(n.frameworks@).contains(fw), format_of_framework(crate::text::lower(fw))]
            strs(n.frameworks@).contains(fw) && format_of_framework(crate::text::lower(fw)) is Some ==> strs(
                n.ast_summary->0.plugin_formats@,
            ).contains(format_of_framework(crate::text::lower(fw))->0),
{
    let a = n.ast_summary->0;
    assert(node_kind(m.rel_path@) == "plugin"@);
    let fk = m.features@.map_values(|p: (String, Vec<String>)| p.0@);
    assert(fk =~= keys(m.features@));
    let fws = strs(n.frameworks@);
    let fl = fws.map_values(|f: Seq<char>| crate::text::lower(f));
    let formats = formats_from(keys(a.features@).to_set(), fws);
    assert(strs(a.plugin_formats@).to_set() == strs(m.ast.plugin_formats@).to_set().union(formats));
    assert forall|f: Seq<char>|
        #![trigger keys(m.features@).contains(f), format_of_feature(f)]
        keys(m.features@).contains(f) && format_of_feature(f) is Some implies strs(a.plugin_formats@).contains(
            format_of_feature(f)->0,
        ) by {
        assert(fk.to_set().contains(f));
        assert(keys(a.features@).to_set().contains(f));
        assert(formats.contains(format_of_feature(f)->0));
        assert(strs(a.plugin_formats@).to_set().contains(format_of_feature(f)->0));
    }
    assert forall|fw: Seq<char>|
        #![trigger strs(n.frameworks@).contains(fw), format_of_framework(crate::text::lower(fw))]
        strs(n.frameworks@).contains(fw) && format_of_framework(crate::text::lower(fw)) is Some implies strs(
            a.plugin_formats@,
        ).contains(format_of_framework(crate::text::lower(fw))->0) by {
        let j = choose|j: int| 0 <= j < fws.len() && fws[j] == fw;
        assert(fl[j] == crate::text::lower(fw));
        assert(fl.contains(crate::text::lower(fw)));
        assert(formats.contains(format_of_framework(crate::text::lower(fw))->0));
        assert(strs(a.plugin_formats@).to_set().contains(format_of_framework(crate::text::lower(fw))->0));
    }
}

/// Every export format of a node built from a plugin member is accounted
/// for: the member's source summary already listed it, or one of the node's
/// feature names declares it, or one of its frameworks implies it.
pub proof fn lemma_formats_explained(
    m: MemberInput,
    st: DepState,
    tax: Seq<(String, FrameworkSpec)>,
    migs: Seq<(String, MigrationSpec)>,
    names: Seq<Seq<char>>,
    verbose: bool,
    n: crate::Node,
    x: Seq<char>,
)
    requires
        node_built(m, st, tax, migs, names, verbose, n),
        crate::text::starts_with(m.rel_path@, "plugins/"@),
        n.ast_summary matches Some(a) && strs(a.plugin_formats@).contains(x),
    ensures
        ({
            ||| strs(m.ast.plugin_formats@).contains(x)
            ||| exists|f: Seq<char>|
                #[trigger] format_of_feature(f) == Some(x) && keys(n.ast_summary->0.features@).contains(f)
            ||| exists|fw: Seq<char>|
                #[trigger] format_of_framework(crate::text::lower(fw)) == Some(x) && strs(n.frameworks@).contains(fw)
        }),
{
    let a = n.ast_summary->0;
    assert(node_kind(m.rel_path@) == "plugin"@);
    let fws = strs(n.frameworks@);
    let fl = fws.map_values(|f: Seq<char>| crate::text::lower(f));
    let feats = keys(a.features@).to_set();
    let formats = formats_from(feats, fws);
    assert(strs(a.plugin_formats@).to_set().contains(x));
    if !strs(m.ast.plugin_formats@).contains(x) {
        assert(!strs(m.ast.plugin_formats@).to_set().contains(x));
        assert(formats.contains(x));
        reveal_strlit("clap");
        reveal_strlit("nih_export_clap");
        reveal_strlit("nih-export-clap");
        reveal_strlit("vst3");
        reveal_strlit("nih_export_vst3");
        reveal_strlit("nih-export-vst3");
        reveal_strlit("lv2");
        reveal_strlit("truce");
        reveal_strlit("clack");
        reveal_strlit("CLAP");
        reveal_strlit("VST3");
        reveal_strlit("LV2");
        assert("CLAP"@[0] != "VST3"@[0]);
        assert("vst3"@[0] != "clap"@[0]);
        assert("clack"@[0] != "truce"@[0]);
        assert("nih_export_vst3"@[11] != "nih_export_clap"@[11]);
        assert("nih-export-vst3"@[11] != "nih-export-clap"@[11]);
        assert("nih_export_vst3"@[3] != "nih-export-clap"@[3]);
        assert("nih-export-vst3"@[3] != "nih_export_clap"@[3]);
        let clap = fl.contains("truce"@) || feats.contains("clap"@) || fl.contains("clap"@) || fl.contains("clack"@)
            || feats.contains("nih_export_clap"@) || feats.contains("nih-export-clap"@);
        let vst3 = feats.contains("vst3"@) || fl.contains("vst3"@) || feats.contains("nih_export_vst3"@) || feats.contains(
            "nih-export-vst3"@,
        );
        let lv2 = feats.contains("lv2"@) || fl.contains("lv2"@);
        assert((clap && x == "CLAP"@) || (vst3 && x == "VST3"@) || (lv2 && x == "LV2"@));
        if x == "CLAP"@ {
            if feats.contains("clap"@) {
                assert(format_of_feature("clap"@) == Some(x));
                assert(keys(a.features@).contains("clap"@));
            } else if feats.contains("nih_export_clap"@) {
                assert(format_of_feature("nih_export_clap"@) == Some(x));
                assert(keys(a.features@).contains("nih_export_clap"@));
            } else if feats.contains("nih-export-clap"@) {
                assert(format_of_feature("nih-export-clap"@) == Some(x));
                assert(keys(a.features@).contains("nih-export-clap"@));
            } else if fl.contains("truce"@) {
                lemma_framework_witness(fws, "truce"@, x);
            } else if fl.contains("clap"@) {
                lemma_framework_witness(fws, "clap"@, x);
            } else {
                lemma_framework_witness(fws, "clack"@, x);
            }
        } else if x == "VST3"@ {
            if feats.contains("vst3"@) {
                assert(format_of_feature("vst3"@) == Some(x));
                assert(keys(a.features@).contains("vst3"@));
            } else if feats.contains("nih_export_vst3"@) {
                assert(format_of_feature("nih_export_vst3"@) == Some(x));
                assert(keys(a.features@).contains("nih_export_vst3"@));
            } else if feats.contains("nih-export-vst3"@) {
                assert(format_of_feature("nih-export-vst3"@) == Some(x));
                assert(keys(a.features@).contains("nih-export-vst3"@));
            } else {
                lemma_framework_witness(fws, "vst3"@, x);
            }
        } else {
            assert(x == "LV2"@);
            if feats.contains("lv2"@) {
                assert("lv2"@.len() != "clap"@.len() && "lv2"@.len() != "vst3"@.len());
                assert("lv2"@.len() != "nih_export_clap"@.len() && "lv2"@.len() != "nih-export-clap"@.len());
                assert("lv2"@.len() != "nih_export_vst3"@.len() && "lv2"@.len() != "nih-export-vst3"@.len());
                assert(format_of_feature("lv2"@) == Some(x));
                assert(keys(a.features@).contains("lv2"@));
            } else {
                lemma_framework_witness(fws, "lv2"@, x);
            }
        }
    }
}

proof fn lemma_framework_witness(fws: Seq<Seq<char>>, w: Seq<char>, x: Seq<char>)
    requires
        fws.map_values(|f: Seq<char>| crate::text::lower(f)).contains(w),
        format_of_framework(w) == Some(x),
    ensures
        exists|fw: Seq<char>| #[trigger] format_of_framework(crate::text::lower(fw)) == Some(x) && fws.contains(fw),
{
    let fl = fws.map_values(|f: Seq<char>| crate::text::lower(f));
    let j = choose|j: int| 0 <= j < fl.len() && fl[j] == w;
    assert(fws.contains(fws[j]));
    assert(format_of_framework(crate::text::lower(fws[j])) == Some(x));
}

/// Scanning a workspace: every plugin member (under `plugins/`) becomes a
/// node that exports each format one of its Cargo features declares (a
/// `vst3` feature gives `VST3`, `clap` gives `CLAP`, `lv2` gives `LV2`, and
/// so do nih-plug's `nih_export_*` features).
pub proof fn lemma_feature_formats_exported(
    input: WorkspaceInput,
    cfg: crate::config::ProjectConfig,
    verbose: bool,
    g: crate::Audiolabs,
    i: int,
    f: Seq<char>,
)
    requires
        graph_ok(input, cfg, verbose, g),
        0 <= i < input.members@.len(),
        crate::text::starts_with(input.members@[i].rel_path@, "plugins/"@),
        keys(input.members@[i].features@).contains(f),
        format_of_feature(f) is Some,
    ensures
        g.nodes@[i].ast_summary matches Some(a) && strs(a.plugin_formats@).contains(format_of_feature(f)->0),
{
    let ms = input.members@;
    let ic = strs(cfg.internal_crates@);
    let ws = input.workspace_versions@;
    let (tax, es) = choose|tax: Seq<(String, FrameworkSpec)>, es: Seq<Edge>|
        #![trigger tax_ok(tax, input.registry, cfg.frameworks@), evs(es)]
        {
            let all = crate::findings::sort_findings(
                crate::findings::unsorted_findings(input.layout, g.nodes@, es, cfg.rules@, input.tools),
            );
            &&& tax_ok(tax, input.registry, cfg.frameworks@)
            &&& nodes_built(ms, ic, ws, tax, cfg.migrations@, verbose, g.nodes@)
            &&& g.frameworks@.map_values(|f: Framework| framework_view(f)) == frameworks_of(
                tax,
                cfg.migrations@,
                crate::text::canon(used_set(g.nodes@)),
                verbose,
            )
            &&& evs(es) == graph_edges(input, cfg, g.nodes@)
            &&& crate::findings::fviews(g.findings@) == kept_views(cfg.suppress@, all)
            &&& g.findings_suppressed == all.len() - kept_views(cfg.suppress@, all).len()
        };
    assert(nodes_built(ms, ic, ws, tax, cfg.migrations@, verbose, g.nodes@));
    let st = member_state(ms, ic, ws, i);
    let names = crate::text::canon(ms.map_values(|m: MemberInput| m.name@).to_set());
    assert(node_built(ms[i], (Seq::empty(), Seq::empty(), st.2, st.3, st.4), tax, cfg.migrations@, names, verbose, g.nodes@[i]));
    lemma_declared_formats_node(ms[i], (Seq::empty(), Seq::empty(), st.2, st.3, st.4), tax, cfg.migrations@, names, verbose, g.nodes@[i]);
    assert(keys(ms[i].features@).contains(f) && format_of_feature(f) is Some);
}

} // verus!
