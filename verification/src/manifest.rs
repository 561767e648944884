//! Cargo manifests (`Cargo.toml`): their text parsed as TOML, the tables the
//! workspace reading uses picked out as plain values, and what is decided on
//! them: the member patterns of the root manifest (with its errors), package
//! names, dependency entries, `[workspace.dependencies]` versions, features,
//! and the input of one member.
use vstd::prelude::*;

use crate::assemble::{DepInput, MemberInput};
use crate::text::{assoc_get, cat2, clone_opt, clone_strings, is_map, lookup, map_insert, opt_view, owned, push_str, strs};

verus! {

// ---------------------------------------------------------------------------
// TOML text
// ---------------------------------------------------------------------------

/// A TOML value: string, integer, boolean, array, table (its entries in the
/// parser's key order), or any other kind (float, date-time).
#[derive(Debug)]
pub enum TomlValue {
    Str(String),
    Int(i64),
    Bool(bool),
    Array(Vec<TomlValue>),
    Table(Vec<(String, TomlValue)>),
    Other,
}

#[verifier::external_type_specification]
#[verifier::external_body]
pub struct ExTomlValue(toml::Value);

/// The document `toml` parses from a text (its top-level table), or the
/// text of its parse error.
pub uninterp spec fn toml_doc(text: Seq<char>) -> Result<Seq<(String, TomlValue)>, Seq<char>>;

/// A parsed `toml::Value` as a [`TomlValue`], variant by variant (the
/// conversion that [`parse_toml`] applies to every value it returns).
#[verifier::external_body]
fn toml_value(v: toml::Value) -> TomlValue {
    match v {
        toml::Value::String(s) => TomlValue::Str(s),
        toml::Value::Integer(i) => TomlValue::Int(i),
        toml::Value::Boolean(b) => TomlValue::Bool(b),
        toml::Value::Array(a) => TomlValue::Array(a.into_iter().map(toml_value).collect()),
        toml::Value::Table(t) => TomlValue::Table(t.into_iter().map(|(k, v)| (k, toml_value(v))).collect()),
        _ => TomlValue::Other,
    }
}

/// Parses a TOML document (`text.parse::<toml::Table>()`), its values
/// converted to [`TomlValue`]s; the error is the parser's message.  The
/// result is named [`toml_doc`].
#[verifier::external_body]
pub fn parse_toml(text: &str) -> (r: Result<Vec<(String, TomlValue)>, String>)
    ensures
        match r {
            Ok(t) => toml_doc(text@) == Ok::<Seq<(String, TomlValue)>, Seq<char>>(t@),
            Err(e) => toml_doc(text@) == Err::<Seq<(String, TomlValue)>, Seq<char>>(e@),
        },
{
    match text.parse::<toml::Table>() {
        Ok(t) => Ok(t.into_iter().map(|(k, v)| (k, toml_value(v))).collect()),
        Err(e) => Err(e.to_string()),
    }
}

/// `s` without its `\r` characters.
pub open spec fn strip_cr(s: Seq<char>) -> Seq<char>
    decreases s.len(),
{
    if s.len() == 0 {
        s
    } else {
        strip_cr(s.drop_last()) + if s.last() == '\r' {
            Seq::empty()
        } else {
            seq![s.last()]
        }
    }
}

fn strip_cr_str(s: &str) -> (r: String)
    ensures
        r@ == strip_cr(s@),
{
    let x = crate::text::chars_of(s);
    let mut r = String::new();
    let mut i: usize = 0;
    while i < x.len()
        invariant
            i <= x@.len(),
            x@ == s@,
            r@ == strip_cr(s@.take(i as int)),
        decreases x@.len() - i,
    {
        assert(s@.take(i + 1).drop_last() =~= s@.take(i as int));
        if x[i] != '\r' {
            crate::text::push_char(&mut r, x[i]);
        } else {
            assert(r@ =~= r@ + Seq::<char>::empty());
        }
        i = i + 1;
    }
    assert(s@.take(x@.len() as int) =~= s@);
    r
}

/// The string under key `k` of a table, if it is a string.
pub open spec fn str_at(t: Seq<(String, TomlValue)>, k: Seq<char>) -> Option<Seq<char>> {
    match lookup(t, k) {
        Some(TomlValue::Str(s)) => Some(s@),
        _ => None,
    }
}

/// The boolean under key `k` of a table, if it is a boolean.
pub open spec fn bool_at(t: Seq<(String, TomlValue)>, k: Seq<char>) -> Option<bool> {
    match lookup(t, k) {
        Some(TomlValue::Bool(b)) => Some(b),
        _ => None,
    }
}

/// The table under key `k` of a table, if it is a table.
pub open spec fn table_at(t: Seq<(String, TomlValue)>, k: Seq<char>) -> Option<Seq<(String, TomlValue)>> {
    match lookup(t, k) {
        Some(TomlValue::Table(x)) => Some(x@),
        _ => None,
    }
}

/// The array under key `k` of a table, if it is an array.
pub open spec fn array_at(t: Seq<(String, TomlValue)>, k: Seq<char>) -> Option<Seq<TomlValue>> {
    match lookup(t, k) {
        Some(TomlValue::Array(x)) => Some(x@),
        _ => None,
    }
}

fn str_in(t: &Vec<(String, TomlValue)>, k: &str) -> (r: Option<String>)
    ensures
        opt_view(r) == str_at(t@, k@),
{
    match assoc_get(t, k) {
        Some(TomlValue::Str(s)) => Some(s.clone()),
        _ => None,
    }
}

/// A value is a string: its text.
pub open spec fn str_of(v: TomlValue) -> Option<Seq<char>> {
    match v {
        TomlValue::Str(s) => Some(s@),
        _ => None,
    }
}

/// A dependency entry is read from its TOML value.
pub open spec fn dep_spec_of(d: DepSpec, v: TomlValue) -> bool {
    match v {
        TomlValue::Str(x) => d matches DepSpec::Version(y) && y@ == x@,
        TomlValue::Table(t) => d matches DepSpec::Table { path, workspace, version, git } && opt_view(path) == str_at(
            t@,
            "path"@,
        ) && workspace == bool_at(t@, "workspace"@) && opt_view(version) == str_at(t@, "version"@) && opt_view(git)
            == str_at(t@, "git"@),
        _ => d is Other,
    }
}

/// A dependency table is read entry for entry (none when the key does not
/// hold a table).
pub open spec fn deps_of(ds: Seq<(String, DepSpec)>, t: Option<Seq<(String, TomlValue)>>) -> bool {
    match t {
        None => ds.len() == 0,
        Some(t) => ds.len() == t.len() && forall|i: int|
            0 <= i < t.len() ==> (#[trigger] ds[i]).0@ == t[i].0@ && dep_spec_of(ds[i].1, t[i].1),
    }
}

/// The string entries of a feature's value (none unless it is an array).
pub open spec fn feature_entries(v: TomlValue) -> Seq<Seq<char>> {
    match v {
        TomlValue::Array(a) => str_entries(a@),
        _ => Seq::empty(),
    }
}

/// The strings among the values, in order.
pub open spec fn str_entries(vs: Seq<TomlValue>) -> Seq<Seq<char>>
    decreases vs.len(),
{
    if vs.len() == 0 {
        Seq::empty()
    } else {
        str_entries(vs.drop_last()) + match vs.last() {
            TomlValue::Str(s) => seq![s@],
            _ => Seq::empty(),
        }
    }
}

/// `[features]` is read entry for entry.
pub open spec fn features_read(fs: Seq<(String, Vec<String>)>, t: Option<Seq<(String, TomlValue)>>) -> bool {
    match t {
        None => fs.len() == 0,
        Some(t) => fs.len() == t.len() && forall|i: int|
            0 <= i < t.len() ==> (#[trigger] fs[i]).0@ == t[i].0@ && strs(fs[i].1@) == feature_entries(t[i].1),
    }
}

/// The manifest holds what a parsed document says: `[package]`'s name,
/// version and description, `[workspace]`'s `members` (each string entry,
/// `None` for the others), `package.name` and `dependencies`, the three
/// dependency tables, and `[features]`.
pub open spec fn manifest_read(m: CargoManifest, doc: Seq<(String, TomlValue)>) -> bool {
    &&& match table_at(doc, "package"@) {
        None => m.package is None,
        Some(p) => m.package matches Some(pk) && opt_view(pk.name) == str_at(p, "name"@) && opt_view(pk.version)
            == str_at(p, "version"@) && opt_view(pk.description) == str_at(p, "description"@),
    }
    &&& match table_at(doc, "workspace"@) {
        None => m.workspace is None,
        Some(w) => m.workspace matches Some(ws) && (match array_at(w, "members"@) {
            None => ws.members is None,
            Some(a) => ws.members matches Some(ms) && ms@.len() == a.len() && forall|i: int|
                0 <= i < a.len() ==> opt_view(#[trigger] ms@[i]) == str_of(a[i]),
        }) && opt_view(ws.package_name) == (match table_at(w, "package"@) {
            Some(p) => str_at(p, "name"@),
            None => None,
        }) && deps_of(ws.dependencies@, table_at(w, "dependencies"@)),
    }
    &&& deps_of(m.dependencies@, table_at(doc, "dependencies"@))
    &&& deps_of(m.build_dependencies@, table_at(doc, "build-dependencies"@))
    &&& deps_of(m.dev_dependencies@, table_at(doc, "dev-dependencies"@))
    &&& features_read(m.features@, table_at(doc, "features"@))
}

fn dep_spec_from(v: &TomlValue) -> (d: DepSpec)
    ensures
        dep_spec_of(d, *v),
{
    match v {
        TomlValue::Str(x) => DepSpec::Version(x.clone()),
        TomlValue::Table(t) => DepSpec::Table {
            path: str_in(t, "path"),
            workspace: match assoc_get(t, "workspace") {
                Some(TomlValue::Bool(b)) => Some(*b),
                _ => None,
            },
            version: str_in(t, "version"),
            git: str_in(t, "git"),
        },
        _ => DepSpec::Other,
    }
}

fn deps_from(doc: &Vec<(String, TomlValue)>, key: &str) -> (ds: Vec<(String, DepSpec)>)
    ensures
        deps_of(ds@, table_at(doc@, key@)),
{
    let mut ds: Vec<(String, DepSpec)> = Vec::new();
    match assoc_get(doc, key) {
        Some(TomlValue::Table(t)) => {
            let mut i: usize = 0;
            while i < t.len()
                invariant
                    i <= t@.len(),
                    ds@.len() == i,
                    forall|j: int| 0 <= j < i ==> (#[trigger] ds@[j]).0@ == t@[j].0@ && dep_spec_of(ds@[j].1, t@[j].1),
                decreases t@.len() - i,
            {
                let d = dep_spec_from(&t[i].1);
                ds.push((t[i].0.clone(), d));
                i = i + 1;
            }
        },
        _ => {},
    }
    ds
}

fn str_entries_of(vs: &Vec<TomlValue>) -> (r: Vec<String>)
    ensures
        strs(r@) == str_entries(vs@),
{
    let mut r: Vec<String> = Vec::new();
    let mut i: usize = 0;
    while i < vs.len()
        invariant
            i <= vs@.len(),
            strs(r@) == str_entries(vs@.take(i as int)),
        decreases vs@.len() - i,
    {
        assert(vs@.take(i + 1).drop_last() =~= vs@.take(i as int));
        match &vs[i] {
            TomlValue::Str(x) => {
                let ghost r0 = r@;
                let c = x.clone();
                r.push(c);
                proof {
                    crate::text::lemma_strs_push(r0, c);
                }
            },
            _ => {
                assert(strs(r@) =~= strs(r@) + Seq::<Seq<char>>::empty());
            },
        }
        i = i + 1;
    }
    assert(vs@.take(vs@.len() as int) =~= vs@);
    r
}

fn features_from(doc: &Vec<(String, TomlValue)>) -> (fs: Vec<(String, Vec<String>)>)
    ensures
        features_read(fs@, table_at(doc@, "features"@)),
{
    let mut fs: Vec<(String, Vec<String>)> = Vec::new();
    match assoc_get(doc, "features") {
        Some(TomlValue::Table(t)) => {
            let mut i: usize = 0;
            while i < t.len()
                invariant
                    i <= t@.len(),
                    fs@.len() == i,
                    forall|j: int|
                        0 <= j < i ==> (#[trigger] fs@[j]).0@ == t@[j].0@ && strs(fs@[j].1@) == feature_entries(t@[j].1),
                decreases t@.len() - i,
            {
                let entries = match &t[i].1 {
                    TomlValue::Array(a) => str_entries_of(a),
                    _ => Vec::new(),
                };
                assert(strs(entries@) == feature_entries(t@[i as int].1));
                fs.push((t[i].0.clone(), entries));
                i = i + 1;
            }
        },
        _ => {},
    }
    fs
}

fn members_from(a: &Vec<TomlValue>) -> (ms: Vec<Option<String>>)
    ensures
        ms@.len() == a@.len(),
        forall|i: int| 0 <= i < a@.len() ==> opt_view(#[trigger] ms@[i]) == str_of(a@[i]),
{
    let mut ms: Vec<Option<String>> = Vec::new();
    let mut i: usize = 0;
    while i < a.len()
        invariant
            i <= a@.len(),
            ms@.len() == i,
            forall|j: int| 0 <= j < i ==> opt_view(#[trigger] ms@[j]) == str_of(a@[j]),
        decreases a@.len() - i,
    {
        let m = match &a[i] {
            TomlValue::Str(x) => Some(x.clone()),
            _ => None,
        };
        ms.push(m);
        i = i + 1;
    }
    ms
}

/// The manifest read from a parsed document (see [`manifest_read`]).
pub fn manifest_of_doc(doc: &Vec<(String, TomlValue)>) -> (m: CargoManifest)
    ensures
        manifest_read(m, doc@),
{
    let package = match assoc_get(doc, "package") {
        Some(TomlValue::Table(p)) => Some(
            PackageSection { name: str_in(p, "name"), version: str_in(p, "version"), description: str_in(p, "description") },
        ),
        _ => None,
    };
    let workspace = match assoc_get(doc, "workspace") {
        Some(TomlValue::Table(w)) => {
            let members = match assoc_get(w, "members") {
                Some(TomlValue::Array(a)) => Some(members_from(a)),
                _ => None,
            };
            let package_name = match assoc_get(w, "package") {
                Some(TomlValue::Table(p)) => str_in(p, "name"),
                _ => None,
            };
            Some(WorkspaceSection { members, package_name, dependencies: deps_from(w, "dependencies") })
        },
        _ => None,
    };
    CargoManifest {
        package,
        workspace,
        dependencies: deps_from(doc, "dependencies"),
        build_dependencies: deps_from(doc, "build-dependencies"),
        dev_dependencies: deps_from(doc, "dev-dependencies"),
        features: features_from(doc),
    }
}

/// The manifest in a `Cargo.toml` text read from `path`: carriage returns
/// dropped, the text parsed as TOML and its tables picked out (see
/// [`manifest_read`]); the error names the file and gives the parser's
/// message.
pub fn manifest_of_text(text: &str, path: &str) -> (r: Result<CargoManifest, String>)
    ensures
        match toml_doc(strip_cr(text@)) {
            Ok(doc) => r matches Ok(m) && manifest_read(m, doc),
            Err(e) => r matches Err(x) && x@ == "failed to parse "@ + path@ + ": "@ + e,
        },
{
    let t = strip_cr_str(text);
    match parse_toml(t.as_str()) {
        Ok(doc) => Ok(manifest_of_doc(&doc)),
        Err(e) => {
            let mut x = cat2("failed to parse ", path);
            push_str(&mut x, ": ");
            push_str(&mut x, e.as_str());
            Err(x)
        },
    }
}

/// A dependency entry as written: a version string, a table (its string,
/// boolean fields as found), or any other value.
#[derive(Debug, Clone)]
pub enum DepSpec {
    Version(String),
    Table { path: Option<String>, workspace: Option<bool>, version: Option<String>, git: Option<String> },
    Other,
}

/// `[package]`: the string fields that are read.
#[derive(Debug, Clone)]
pub struct PackageSection {
    pub name: Option<String>,
    pub version: Option<String>,
    pub description: Option<String>,
}

/// `[workspace]`: `members` (when it is an array: each entry, `None` where
/// it is not a string), `package.name`, and `dependencies`.
#[derive(Debug, Clone)]
pub struct WorkspaceSection {
    pub members: Option<Vec<Option<String>>>,
    pub package_name: Option<String>,
    pub dependencies: Vec<(String, DepSpec)>,
}

/// A manifest: the tables that are read, in the manifest's key order.
#[derive(Debug, Clone)]
pub struct CargoManifest {
    pub package: Option<PackageSection>,
    pub workspace: Option<WorkspaceSection>,
    pub dependencies: Vec<(String, DepSpec)>,
    pub build_dependencies: Vec<(String, DepSpec)>,
    pub dev_dependencies: Vec<(String, DepSpec)>,
    /// `[features]`: feature → its string entries.
    pub features: Vec<(String, Vec<String>)>,
}

// ---------------------------------------------------------------------------
// Root manifest
// ---------------------------------------------------------------------------

/// The member patterns of the root manifest, or the error reading them.
pub open spec fn patterns_of(root: CargoManifest, path: Seq<char>) -> Result<Seq<Seq<char>>, Seq<char>> {
    match root.workspace {
        None => Err("no [workspace] in "@ + path),
        Some(w) => match w.members {
            None => Err("no workspace.members in "@ + path),
            Some(ms) => if exists|i: int| 0 <= i < ms.len() && (#[trigger] ms@[i]) is None {
                Err("workspace member is not a string"@)
            } else {
                Ok(ms@.map_values(|m: Option<String>| opt_view(m)->0))
            },
        },
    }
}

/// The `workspace.members` patterns of the root manifest at `path`: an
/// error when it has no `[workspace]` table, no `members` array, or an entry
/// that is not a string.
pub fn member_patterns(root: &CargoManifest, path: &str) -> (r: Result<Vec<String>, String>)
    ensures
        match r {
            Ok(v) => patterns_of(*root, path@) == Ok::<Seq<Seq<char>>, Seq<char>>(strs(v@)),
            Err(e) => patterns_of(*root, path@) == Err::<Seq<Seq<char>>, Seq<char>>(e@),
        },
{
    let w = match &root.workspace {
        None => {
            return Err(cat2("no [workspace] in ", path));
        },
        Some(w) => w,
    };
    let ms = match &w.members {
        None => {
            return Err(cat2("no workspace.members in ", path));
        },
        Some(ms) => ms,
    };
    let mut out: Vec<String> = Vec::new();
    let mut i: usize = 0;
    while i < ms.len()
        invariant
            i <= ms@.len(),
            root.workspace == Some(*w),
            w.members == Some(*ms),
            forall|j: int| 0 <= j < i ==> (#[trigger] ms@[j]) is Some,
            strs(out@) == ms@.take(i as int).map_values(|m: Option<String>| opt_view(m)->0),
        decreases ms@.len() - i,
    {
        match &ms[i] {
            None => {
                assert(ms@[i as int] is None);
                assert(exists|j: int| 0 <= j < ms@.len() && (#[trigger] ms@[j]) is None);
                return Err(owned("workspace member is not a string"));
            },
            Some(p) => {
                let ghost o0 = out@;
                out.push(p.clone());
                proof {
                    crate::text::lemma_strs_push(o0, out@.last());
                    assert(ms@.take(i + 1).map_values(|m: Option<String>| opt_view(m)->0) =~= ms@.take(
                        i as int,
                    ).map_values(|m: Option<String>| opt_view(m)->0).push(p@));
                }
            },
        }
        i = i + 1;
    }
    assert(ms@.take(ms@.len() as int) =~= ms@);
    Ok(out)
}

/// The `workspace.members` entries as the integrity checks read them (none
/// without a `[workspace]` table or a `members` array).
pub fn listed_members(root: &CargoManifest) -> (r: Vec<Option<String>>)
    ensures
        r@ == match root.workspace {
            Some(w) => match w.members {
                Some(ms) => ms@,
                None => Seq::empty(),
            },
            None => Seq::empty(),
        },
{
    match &root.workspace {
        Some(w) => match &w.members {
            Some(ms) => ms.clone(),
            None => Vec::new(),
        },
        None => Vec::new(),
    }
}

/// `package.name` of a manifest.
pub open spec fn package_name_spec(m: CargoManifest) -> Option<Seq<char>> {
    match m.package {
        Some(p) => opt_view(p.name),
        None => None,
    }
}

/// `package.name` of a manifest, if any.
pub fn package_name(m: &CargoManifest) -> (r: Option<String>)
    ensures
        opt_view(r) == package_name_spec(*m),
{
    match &m.package {
        Some(p) => clone_opt(&p.name),
        None => None,
    }
}

/// The project name from the root manifest (if it was read) and the
/// folder name: `workspace.package.name`, else `package.name`, else the
/// folder, else `project`.
pub fn project_name_of(root: Option<&CargoManifest>, folder: Option<String>) -> (r: String)
    ensures
        r@ == match root {
            Some(m) => match m.workspace {
                Some(w) if w.package_name is Some => w.package_name->0@,
                _ => match package_name_spec(*m) {
                    Some(p) => p,
                    None => match folder {
                        Some(f) => f@,
                        None => "project"@,
                    },
                },
            },
            None => match folder {
                Some(f) => f@,
                None => "project"@,
            },
        },
{
    let (ws, pk) = match root {
        Some(m) => {
            let ws = match &m.workspace {
                Some(w) => clone_opt(&w.package_name),
                None => None,
            };
            (ws, package_name(m))
        },
        None => (None, None),
    };
    crate::assemble::detect_project_name(ws, pk, folder)
}

// ---------------------------------------------------------------------------
// Dependencies
// ---------------------------------------------------------------------------

/// What a dependency entry says: path, `workspace = true`, version, git.
pub open spec fn dep_fields(d: DepSpec) -> (Option<Seq<char>>, bool, Option<Seq<char>>, bool) {
    match d {
        DepSpec::Version(v) => (None, false, Some(v@), false),
        DepSpec::Table { path, workspace, version, git } => (opt_view(path), match workspace {
            Some(b) => b,
            None => false,
        }, opt_view(version), git is Some),
        DepSpec::Other => (None, false, None, false),
    }
}

/// Entries of one dependency table, tagged with their kind.
pub open spec fn tagged(ds: Seq<(String, DepSpec)>, kind: Seq<char>) -> Seq<(Seq<char>, Seq<char>, DepSpec)> {
    ds.map_values(|e: (String, DepSpec)| (e.0@, kind, e.1))
}

/// All dependencies of a manifest: normal, then build, then dev.
pub open spec fn all_deps(m: CargoManifest) -> Seq<(Seq<char>, Seq<char>, DepSpec)> {
    tagged(m.dependencies@, "normal"@) + tagged(m.build_dependencies@, "build"@) + tagged(
        m.dev_dependencies@,
        "dev"@,
    )
}

/// The `path` of each dependency, in [`all_deps`] order (what is resolved
/// on disk to find packages outside the workspace).
pub fn dep_paths(m: &CargoManifest) -> (r: Vec<Option<String>>)
    ensures
        r@.len() == all_deps(*m).len(),
        forall|i: int| 0 <= i < r@.len() ==> opt_view(#[trigger] r@[i]) == dep_fields(all_deps(*m)[i].2).0,
{
    let mut r: Vec<Option<String>> = Vec::new();
    push_paths(&mut r, &m.dependencies);
    let ghost r1 = r@;
    push_paths(&mut r, &m.build_dependencies);
    let ghost r2 = r@;
    push_paths(&mut r, &m.dev_dependencies);
    let ghost all = all_deps(*m);
    let ghost n1 = m.dependencies@.len();
    let ghost n2 = m.build_dependencies@.len();
    assert forall|i: int| 0 <= i < r@.len() implies opt_view(#[trigger] r@[i]) == dep_fields(all[i].2).0 by {
        if i < n1 {
            assert(r@[i] == r2[i] && r2[i] == r1[i]);
            assert(r1[0 + i] == r1[i]);
            assert(all[i] == (m.dependencies@[i].0@, "normal"@, m.dependencies@[i].1));
        } else if i < n1 + n2 {
            assert(r@[i] == r2[i]);
            assert(r2[n1 + (i - n1)] == r2[i]);
            assert(all[i] == (m.build_dependencies@[i - n1].0@, "build"@, m.build_dependencies@[i - n1].1));
        } else {
            assert(r@[(n1 + n2) + (i - n1 - n2)] == r@[i]);
            assert(all[i] == (m.dev_dependencies@[i - n1 - n2].0@, "dev"@, m.dev_dependencies@[i - n1 - n2].1));
        }
    }
    r
}

fn push_paths(r: &mut Vec<Option<String>>, ds: &Vec<(String, DepSpec)>)
    ensures
        final(r)@.len() == old(r)@.len() + ds@.len(),
        forall|i: int| 0 <= i < old(r)@.len() ==> #[trigger] final(r)@[i] == old(r)@[i],
        forall|i: int|
            0 <= i < ds@.len() ==> opt_view(#[trigger] final(r)@[old(r)@.len() + i]) == dep_fields(ds@[i].1).0,
{
    let ghost r0 = r@;
    let mut i: usize = 0;
    while i < ds.len()
        invariant
            i <= ds@.len(),
            r@.len() == r0.len() + i,
            forall|j: int| 0 <= j < r0.len() ==> #[trigger] r@[j] == r0[j],
            forall|j: int| 0 <= j < i ==> opt_view(#[trigger] r@[r0.len() + j]) == dep_fields(ds@[j].1).0,
        decreases ds@.len() - i,
    {
        let p = match &ds[i].1 {
            DepSpec::Table { path, .. } => clone_opt(path),
            _ => None,
        };
        r.push(p);
        i = i + 1;
    }
}

/// The library's record of one dependency.
pub open spec fn dep_input_ok(d: DepInput, e: (Seq<char>, Seq<char>, DepSpec), outside: Option<Seq<char>>) -> bool {
    let f = dep_fields(e.2);
    &&& d.name@ == e.0
    &&& d.kind@ == e.1
    &&& d.workspace == f.1
    &&& d.git == f.3
    &&& d.path == f.0 is Some
    &&& opt_view(d.version) == f.2
    &&& opt_view(d.outside_package) == outside
}

fn push_deps(out: &mut Vec<DepInput>, ds: &Vec<(String, DepSpec)>, kind: &str, outside: &Vec<Option<String>>, at: usize)
    requires
        at + ds@.len() <= outside@.len(),
        old(out)@.len() == at,
    ensures
        final(out)@.len() == at + ds@.len(),
        forall|i: int| 0 <= i < at ==> #[trigger] final(out)@[i] == old(out)@[i],
        forall|i: int|
            0 <= i < ds@.len() ==> dep_input_ok(
                #[trigger] final(out)@[at + i],
                (ds@[i].0@, kind@, ds@[i].1),
                opt_view(outside@[at + i]),
            ),
{
    let ghost o0 = out@;
    let mut i: usize = 0;
    while i < ds.len()
        invariant
            i <= ds@.len(),
            at + ds@.len() <= outside@.len(),
            o0.len() == at,
            out@.len() == at + i,
            forall|j: int| 0 <= j < at ==> #[trigger] out@[j] == o0[j],
            forall|j: int|
                0 <= j < i ==> dep_input_ok(#[trigger] out@[at + j], (ds@[j].0@, kind@, ds@[j].1), opt_view(outside@[at + j])),
        decreases ds@.len() - i,
    {
        let (path, workspace, version, git) = match &ds[i].1 {
            DepSpec::Version(v) => (false, false, Some(v.clone()), false),
            DepSpec::Table { path, workspace, version, git } => (path.is_some(), match workspace {
                Some(b) => *b,
                None => false,
            }, clone_opt(version), git.is_some()),
            DepSpec::Other => (false, false, None, false),
        };
        let olen = outside.len();
        assert(at + i < olen);
        out.push(
            DepInput {
                name: ds[i].0.clone(),
                kind: owned(kind),
                workspace,
                git,
                path,
                version,
                outside_package: clone_opt(&outside[at + i]),
            },
        );
        i = i + 1;
    }
}

// ---------------------------------------------------------------------------
// Features and workspace versions
// ---------------------------------------------------------------------------

/// The value under the last entry named `k`.
pub open spec fn last_value<V>(m: Seq<(String, V)>, k: Seq<char>) -> Option<V>
    decreases m.len(),
{
    if m.len() == 0 {
        None
    } else if m.last().0@ == k {
        Some(m.last().1)
    } else {
        last_value(m.drop_last(), k)
    }
}

/// The text of an optional list of strings.
pub open spec fn strs_opt(o: Option<Vec<String>>) -> Option<Seq<Seq<char>>> {
    match o {
        Some(v) => Some(strs(v@)),
        None => None,
    }
}

/// `[features]` as a sorted map (the last entry of a name wins).
pub fn features_map(m: &CargoManifest) -> (r: Vec<(String, Vec<String>)>)
    ensures
        is_map(r@),
        forall|k: Seq<char>| #[trigger] strs_opt(lookup(r@, k)) == strs_opt(last_value(m.features@, k)),
{
    let fs = &m.features;
    let mut r: Vec<(String, Vec<String>)> = Vec::new();
    let mut i: usize = 0;
    while i < fs.len()
        invariant
            i <= fs@.len(),
            is_map(r@),
            forall|k: Seq<char>| #[trigger] strs_opt(lookup(r@, k)) == strs_opt(last_value(fs@.take(i as int), k)),
        decreases fs@.len() - i,
    {
        assert(fs@.take(i + 1).drop_last() =~= fs@.take(i as int));
        map_insert(&mut r, fs[i].0.clone(), clone_strings(&fs[i].1));
        i = i + 1;
    }
    assert(fs@.take(fs@.len() as int) =~= fs@);
    r
}

pub open spec fn versions_view(o: Option<Option<String>>) -> Option<Option<Seq<char>>> {
    match o {
        Some(v) => Some(opt_view(v)),
        None => None,
    }
}

pub open spec fn dep_version(o: Option<DepSpec>) -> Option<Option<Seq<char>>> {
    match o {
        Some(d) => Some(dep_fields(d).2),
        None => None,
    }
}

/// The version of each `[workspace.dependencies]` entry, as a sorted map
/// (the last entry of a name wins).
pub fn workspace_versions(root: &CargoManifest) -> (r: Vec<(String, Option<String>)>)
    ensures
        is_map(r@),
        forall|k: Seq<char>| #[trigger] versions_view(lookup(r@, k)) == match root.workspace {
            Some(w) => dep_version(last_value(w.dependencies@, k)),
            None => None,
        },
{
    let mut r: Vec<(String, Option<String>)> = Vec::new();
    let ds = match &root.workspace {
        Some(w) => &w.dependencies,
        None => {
            return r;
        },
    };
    let mut i: usize = 0;
    while i < ds.len()
        invariant
            i <= ds@.len(),
            is_map(r@),
            forall|k: Seq<char>| #[trigger] versions_view(lookup(r@, k)) == dep_version(last_value(ds@.take(i as int), k)),
        decreases ds@.len() - i,
    {
        assert(ds@.take(i + 1).drop_last() =~= ds@.take(i as int));
        let v = match &ds[i].1 {
            DepSpec::Version(v) => Some(v.clone()),
            DepSpec::Table { version, .. } => clone_opt(version),
            DepSpec::Other => None,
        };
        map_insert(&mut r, ds[i].0.clone(), v);
        i = i + 1;
    }
    assert(ds@.take(ds@.len() as int) =~= ds@);
    r
}

// ---------------------------------------------------------------------------
// One member
// ---------------------------------------------------------------------------

/// The input of one member from its manifest (at `path`), its name and
/// relative path, the package each `path` dependency names outside the
/// workspace (in [`all_deps`] order), and its source facts; an error when
/// the manifest has no `[package]` table.
pub fn member_input_of(
    m: &CargoManifest,
    path: &str,
    name: &str,
    rel_path: &str,
    outside: &Vec<Option<String>>,
    ast: crate::ast::AstSummary,
) -> (r: Result<MemberInput, String>)
    requires
        outside@.len() == all_deps(*m).len(),
    ensures
        match r {
            Err(e) => m.package is None && e@ == "no [package] in "@ + path@,
            Ok(mi) => {
                &&& m.package is Some
                &&& mi.name@ == name@
                &&& mi.rel_path@ == rel_path@
                &&& opt_view(mi.package_name) == opt_view(m.package->0.name)
                &&& opt_view(mi.version) == opt_view(m.package->0.version)
                &&& opt_view(mi.description) == opt_view(m.package->0.description)
                &&& mi.deps@.len() == all_deps(*m).len()
                &&& forall|i: int|
                    0 <= i < mi.deps@.len() ==> dep_input_ok(#[trigger] mi.deps@[i], all_deps(*m)[i], opt_view(outside@[i]))
                &&& is_map(mi.features@)
                &&& forall|k: Seq<char>| #[trigger] strs_opt(lookup(mi.features@, k)) == strs_opt(last_value(m.features@, k))
                &&& mi.ast == ast
            },
        },
{
    let p = match &m.package {
        None => {
            return Err(cat2("no [package] in ", path));
        },
        Some(p) => p,
    };
    let mut deps: Vec<DepInput> = Vec::new();
    let n1 = m.dependencies.len();
    let n2 = m.build_dependencies.len();
    assert(all_deps(*m).len() == n1 + n2 + m.dev_dependencies@.len());
    let olen = outside.len();
    assert(n1 + n2 <= olen);
    push_deps(&mut deps, &m.dependencies, "normal", outside, 0);
    let ghost d1 = deps@;
    push_deps(&mut deps, &m.build_dependencies, "build", outside, n1);
    let ghost d2 = deps@;
    push_deps(&mut deps, &m.dev_dependencies, "dev", outside, n1 + n2);
    let ghost all = all_deps(*m);
    assert forall|i: int| 0 <= i < deps@.len() implies dep_input_ok(#[trigger] deps@[i], all[i], opt_view(outside@[i])) by {
        if i < n1 {
            assert(deps@[i] == d2[i] && d2[i] == d1[i]);
            assert(d1[0 + i] == d1[i]);
            assert(all[i] == (m.dependencies@[i].0@, "normal"@, m.dependencies@[i].1));
        } else if i < n1 + n2 {
            assert(deps@[i] == d2[i]);
            assert(d2[n1 + (i - n1)] == d2[i]);
            assert(all[i] == (m.build_dependencies@[i - n1].0@, "build"@, m.build_dependencies@[i - n1].1));
        } else {
            assert(deps@[(n1 + n2) + (i - n1 - n2)] == deps@[i]);
            assert(all[i] == (m.dev_dependencies@[i - n1 - n2].0@, "dev"@, m.dev_dependencies@[i - n1 - n2].1));
        }
    }
    Ok(
        MemberInput {
            name: owned(name),
            rel_path: owned(rel_path),
            package_name: clone_opt(&p.name),
            description: clone_opt(&p.description),
            version: clone_opt(&p.version),
            deps,
            features: features_map(m),
            ast,
        },
    )
}

} // verus!
