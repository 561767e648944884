//! The skill catalog shipped with the tool and the `--only` / `--preset`
//! selection grammar: groups (`policy`, `ui`), single skills (`ui/slint`,
//! `04-ui/slint`, or a unique stem such as `slint`), presets (`slint-ui` →
//! `core,ui/slint`) and `all`.
//!
//! Copying the selected files into a workspace is done from outside; the
//! selection itself is decided here.
use vstd::prelude::*;

use crate::skill_texts::{
    AGENT_USAGE, AUDIO_THREAD_BOUNDARY, CAVEMAN, CLAP, DSP_CORRECTNESS, DSP_REALTIME, EGUI,
    FILTER_BIQUAD, FRAMEWORK_PATTERNS, ICED, LV2, NIH_PLUG_TO_NICE_PLUG, PONYTAIL, SLINT,
    VERSIONING, VIZIA, VST3,
};
use crate::text::{
    after_last, after_last_str, cat2, cat3, chars_of, contains_char, drop_prefixes, drop_prefixes_str,
    drop_suffix, drop_suffix_str, eq_ignore_case, ends_with, ends_with_str, join, join_strings,
    lemma_split_nonempty, lemma_strs_push, lower, owned, push_str, replace_char, replace_char_str,
    split_char, split_on, split_once, split_once_str, starts_with, starts_with_str, str_eq, strs,
    to_ascii_lower, trim, trim_str, upper, lower_char, upper_char,
};

verus! {

/// Skill groups, in catalog order.
#[derive(Debug, Clone, Copy, PartialEq, Eq, PartialOrd, Ord, Structural)]
pub enum SkillGroup {
    Core,
    Policy,
    Frameworks,
    Formats,
    Ui,
    Migrations,
    Agents,
}

impl SkillGroup {
    pub open spec fn name(self) -> Seq<char> {
        match self {
            SkillGroup::Core => "core"@,
            SkillGroup::Policy => "policy"@,
            SkillGroup::Frameworks => "frameworks"@,
            SkillGroup::Formats => "formats"@,
            SkillGroup::Ui => "ui"@,
            SkillGroup::Migrations => "migrations"@,
            SkillGroup::Agents => "agents"@,
        }
    }

    pub open spec fn prefix(self) -> Seq<char> {
        match self {
            SkillGroup::Core => "00-core"@,
            SkillGroup::Policy => "01-policy"@,
            SkillGroup::Frameworks => "02-frameworks"@,
            SkillGroup::Formats => "03-formats"@,
            SkillGroup::Ui => "04-ui"@,
            SkillGroup::Migrations => "05-migrations"@,
            SkillGroup::Agents => "06-agents"@,
        }
    }

    /// The group's name (`core`, `policy`, …).
    pub fn as_str(self) -> (r: &'static str)
        ensures
            r@ == self.name(),
    {
        match self {
            SkillGroup::Core => "core",
            SkillGroup::Policy => "policy",
            SkillGroup::Frameworks => "frameworks",
            SkillGroup::Formats => "formats",
            SkillGroup::Ui => "ui",
            SkillGroup::Migrations => "migrations",
            SkillGroup::Agents => "agents",
        }
    }

    /// Directory prefix in the catalog, e.g. `00-core`, `04-ui`.
    pub fn dir_prefix(self) -> (r: &'static str)
        ensures
            r@ == self.prefix(),
    {
        match self {
            SkillGroup::Core => "00-core",
            SkillGroup::Policy => "01-policy",
            SkillGroup::Frameworks => "02-frameworks",
            SkillGroup::Formats => "03-formats",
            SkillGroup::Ui => "04-ui",
            SkillGroup::Migrations => "05-migrations",
            SkillGroup::Agents => "06-agents",
        }
    }

    /// The group a lower-case name (or alias) stands for.
    pub open spec fn named(s: Seq<char>) -> Option<SkillGroup> {
        if s == "core"@ {
            Some(SkillGroup::Core)
        } else if s == "policy"@ {
            Some(SkillGroup::Policy)
        } else if s == "frameworks"@ || s == "fw"@ {
            Some(SkillGroup::Frameworks)
        } else if s == "formats"@ || s == "format"@ {
            Some(SkillGroup::Formats)
        } else if s == "ui"@ {
            Some(SkillGroup::Ui)
        } else if s == "migrations"@ || s == "migration"@ {
            Some(SkillGroup::Migrations)
        } else if s == "agents"@ || s == "agent"@ {
            Some(SkillGroup::Agents)
        } else {
            None
        }
    }

    /// A group by name, case-insensitively; the error names the accepted groups.
    pub fn parse_one(s: &str) -> (r: Result<SkillGroup, String>)
        ensures
            match r {
                Ok(g) => SkillGroup::named(lower(s@)) == Some(g),
                Err(e) => SkillGroup::named(lower(s@)) is None && e@ == unknown_group_msg(lower(s@)),
            },
    {
        let l = to_ascii_lower(s);
        let t = l.as_str();
        if str_eq(t, "core") {
            Ok(SkillGroup::Core)
        } else if str_eq(t, "policy") {
            Ok(SkillGroup::Policy)
        } else if str_eq(t, "frameworks") || str_eq(t, "fw") {
            Ok(SkillGroup::Frameworks)
        } else if str_eq(t, "formats") || str_eq(t, "format") {
            Ok(SkillGroup::Formats)
        } else if str_eq(t, "ui") {
            Ok(SkillGroup::Ui)
        } else if str_eq(t, "migrations") || str_eq(t, "migration") {
            Ok(SkillGroup::Migrations)
        } else if str_eq(t, "agents") || str_eq(t, "agent") {
            Ok(SkillGroup::Agents)
        } else {
            Err(cat3(
                "unknown skill group '",
                t,
                "'; use core|policy|frameworks|formats|ui|migrations|agents|all  (or single: ui/slint)",
            ))
        }
    }
}

/// Message for an unknown group name.
pub open spec fn unknown_group_msg(s: Seq<char>) -> Seq<char> {
    "unknown skill group '"@ + s
        + "'; use core|policy|frameworks|formats|ui|migrations|agents|all  (or single: ui/slint)"@
}

/// One skill file of the catalog.
#[derive(Debug, Clone, Copy)]
pub struct SkillFile {
    pub group: SkillGroup,
    pub rel_path: &'static str,
    pub content: &'static str,
}

impl SkillFile {
    /// The file name without `.md`.
    pub fn stem(&self) -> (r: String)
        ensures
            r@ == stem_of(self.rel_path@),
    {
        let n = after_last_str(self.rel_path, '/');
        drop_suffix_str(n.as_str(), ".md")
    }
}

/// The catalog, ordered by priority (directory number).
pub open spec fn catalog_spec() -> Seq<SkillFile> {
    seq![
        SkillFile { group: SkillGroup::Core, rel_path: "00-core/dsp-realtime.md", content: DSP_REALTIME },
        SkillFile { group: SkillGroup::Core, rel_path: "00-core/dsp-correctness.md", content: DSP_CORRECTNESS },
        SkillFile { group: SkillGroup::Core, rel_path: "00-core/audio-thread-boundary.md", content: AUDIO_THREAD_BOUNDARY },
        SkillFile { group: SkillGroup::Core, rel_path: "00-core/filter-biquad.md", content: FILTER_BIQUAD },
        SkillFile { group: SkillGroup::Policy, rel_path: "01-policy/caveman.md", content: CAVEMAN },
        SkillFile { group: SkillGroup::Policy, rel_path: "01-policy/ponytail.md", content: PONYTAIL },
        SkillFile { group: SkillGroup::Policy, rel_path: "01-policy/versioning.md", content: VERSIONING },
        SkillFile { group: SkillGroup::Frameworks, rel_path: "02-frameworks/framework-patterns.md", content: FRAMEWORK_PATTERNS },
        SkillFile { group: SkillGroup::Formats, rel_path: "03-formats/clap.md", content: CLAP },
        SkillFile { group: SkillGroup::Formats, rel_path: "03-formats/vst3.md", content: VST3 },
        SkillFile { group: SkillGroup::Formats, rel_path: "03-formats/lv2.md", content: LV2 },
        SkillFile { group: SkillGroup::Ui, rel_path: "04-ui/slint.md", content: SLINT },
        SkillFile { group: SkillGroup::Ui, rel_path: "04-ui/egui.md", content: EGUI },
        SkillFile { group: SkillGroup::Ui, rel_path: "04-ui/iced.md", content: ICED },
        SkillFile { group: SkillGroup::Ui, rel_path: "04-ui/vizia.md", content: VIZIA },
        SkillFile { group: SkillGroup::Migrations, rel_path: "05-migrations/nih-plug-to-nice-plug.md", content: NIH_PLUG_TO_NICE_PLUG },
        SkillFile { group: SkillGroup::Agents, rel_path: "06-agents/agent-usage.md", content: AGENT_USAGE },
    ]
}

/// The full catalog shipped with the tool.
pub fn catalog() -> (r: Vec<SkillFile>)
    ensures
        r@ == catalog_spec(),
{
    let mut r: Vec<SkillFile> = Vec::new();
    r.push(SkillFile { group: SkillGroup::Core, rel_path: "00-core/dsp-realtime.md", content: DSP_REALTIME });
    r.push(SkillFile { group: SkillGroup::Core, rel_path: "00-core/dsp-correctness.md", content: DSP_CORRECTNESS });
    r.push(SkillFile { group: SkillGroup::Core, rel_path: "00-core/audio-thread-boundary.md", content: AUDIO_THREAD_BOUNDARY });
    r.push(SkillFile { group: SkillGroup::Core, rel_path: "00-core/filter-biquad.md", content: FILTER_BIQUAD });
    r.push(SkillFile { group: SkillGroup::Policy, rel_path: "01-policy/caveman.md", content: CAVEMAN });
    r.push(SkillFile { group: SkillGroup::Policy, rel_path: "01-policy/ponytail.md", content: PONYTAIL });
    r.push(SkillFile { group: SkillGroup::Policy, rel_path: "01-policy/versioning.md", content: VERSIONING });
    r.push(SkillFile { group: SkillGroup::Frameworks, rel_path: "02-frameworks/framework-patterns.md", content: FRAMEWORK_PATTERNS });
    r.push(SkillFile { group: SkillGroup::Formats, rel_path: "03-formats/clap.md", content: CLAP });
    r.push(SkillFile { group: SkillGroup::Formats, rel_path: "03-formats/vst3.md", content: VST3 });
    r.push(SkillFile { group: SkillGroup::Formats, rel_path: "03-formats/lv2.md", content: LV2 });
    r.push(SkillFile { group: SkillGroup::Ui, rel_path: "04-ui/slint.md", content: SLINT });
    r.push(SkillFile { group: SkillGroup::Ui, rel_path: "04-ui/egui.md", content: EGUI });
    r.push(SkillFile { group: SkillGroup::Ui, rel_path: "04-ui/iced.md", content: ICED });
    r.push(SkillFile { group: SkillGroup::Ui, rel_path: "04-ui/vizia.md", content: VIZIA });
    r.push(SkillFile { group: SkillGroup::Migrations, rel_path: "05-migrations/nih-plug-to-nice-plug.md", content: NIH_PLUG_TO_NICE_PLUG });
    r.push(SkillFile { group: SkillGroup::Agents, rel_path: "06-agents/agent-usage.md", content: AGENT_USAGE });
    assert(r@ =~= catalog_spec());
    r
}

// ---------------------------------------------------------------------------
// Catalog queries
// ---------------------------------------------------------------------------

/// File name of a path without its `.md` extension.
pub open spec fn stem_of(p: Seq<char>) -> Seq<char> {
    drop_suffix(after_last(p, '/'), ".md"@)
}

pub open spec fn group_at(i: int) -> SkillGroup {
    catalog_spec()[i].group
}

pub open spec fn path_at(i: int) -> Seq<char> {
    catalog_spec()[i].rel_path@
}

pub open spec fn stem_at(i: int) -> Seq<char> {
    stem_of(path_at(i))
}

/// Catalog positions below `k` that satisfy `p`, in order.
pub open spec fn upto(k: nat, p: spec_fn(int) -> bool) -> Seq<int>
    decreases k,
{
    if k == 0 {
        Seq::empty()
    } else {
        upto((k - 1) as nat, p) + if p(k - 1) {
            seq![k - 1]
        } else {
            Seq::empty()
        }
    }
}

/// Catalog positions that satisfy `p`, in order.
pub open spec fn matching(p: spec_fn(int) -> bool) -> Seq<int> {
    upto(17, p)
}

/// The catalog files at the positions that satisfy `p`, in order.
pub open spec fn pick(p: spec_fn(int) -> bool) -> Seq<SkillFile> {
    matching(p).map_values(|i: int| catalog_spec()[i])
}

pub open spec fn of_group(g: SkillGroup) -> spec_fn(int) -> bool {
    |i: int| group_at(i) == g
}

pub open spec fn group_and_stem(g: SkillGroup, stem: Seq<char>) -> spec_fn(int) -> bool {
    |i: int| group_at(i) == g && lower(stem_at(i)) == lower(stem)
}

pub open spec fn stem_is(stem: Seq<char>) -> spec_fn(int) -> bool {
    |i: int| lower(stem_at(i)) == lower(stem)
}

pub open spec fn path_like(with_md: Seq<char>, left: Seq<char>, stem: Seq<char>) -> spec_fn(int) -> bool {
    |i: int|
        lower(path_at(i)) == with_md || (starts_with(lower(path_at(i)), left + "/"@) && lower(stem_at(i))
            == lower(stem))
}

pub open spec fn chosen(want: Set<int>) -> spec_fn(int) -> bool {
    |i: int| want.contains(i)
}

/// Stems of catalog positions.
pub open spec fn stems_at(ix: Seq<int>) -> Seq<Seq<char>> {
    ix.map_values(|i: int| stem_at(i))
}

/// Paths of catalog positions.
pub open spec fn paths_at(ix: Seq<int>) -> Seq<Seq<char>> {
    ix.map_values(|i: int| path_at(i))
}

/// `group/stem` label of a catalog position.
pub open spec fn label_at(i: int) -> Seq<char> {
    group_at(i).name() + "/"@ + stem_at(i)
}

fn path_stem(rel: &str) -> (r: String)
    ensures
        r@ == stem_of(rel@),
{
    let name = after_last_str(rel, '/');
    drop_suffix_str(name.as_str(), ".md")
}

/// Positions of the catalog satisfying one of the selector predicates.
/// `kind`: 0 = in group `g`; 1 = group `g` and stem `a`; 2 = stem `a`;
/// 3 = path `a` or path under `b/` with stem `c`.
fn positions(cat: &Vec<SkillFile>, kind: u8, g: SkillGroup, a: &str, b: &str, c: &str) -> (r: Vec<usize>)
    requires
        cat@ == catalog_spec(),
        kind <= 3,
    ensures
        r@.map_values(|x: usize| x as int) == matching(
            if kind == 0 {
                of_group(g)
            } else if kind == 1 {
                group_and_stem(g, a@)
            } else if kind == 2 {
                stem_is(a@)
            } else {
                path_like(a@, b@, c@)
            },
        ),
        forall|j: int| 0 <= j < r@.len() ==> r@[j] < 17,
{
    let ghost p = if kind == 0 {
        of_group(g)
    } else if kind == 1 {
        group_and_stem(g, a@)
    } else if kind == 2 {
        stem_is(a@)
    } else {
        path_like(a@, b@, c@)
    };
    let mut r: Vec<usize> = Vec::new();
    let mut i: usize = 0;
    while i < cat.len()
        invariant
            cat@ == catalog_spec(),
            kind <= 3,
            p == if kind == 0 {
                of_group(g)
            } else if kind == 1 {
                group_and_stem(g, a@)
            } else if kind == 2 {
                stem_is(a@)
            } else {
                path_like(a@, b@, c@)
            },
            i <= 17,
            r@.map_values(|x: usize| x as int) == upto(i as nat, p),
            forall|j: int| 0 <= j < r@.len() ==> r@[j] < i,
        decreases 17 - i,
    {
        let f = cat[i];
        let st = path_stem(f.rel_path);
        let hit = if kind == 0 {
            f.group == g
        } else if kind == 1 {
            f.group == g && eq_ignore_case(st.as_str(), a)
        } else if kind == 2 {
            eq_ignore_case(st.as_str(), a)
        } else {
            let lp = to_ascii_lower(f.rel_path);
            let pre = cat2(b, "/");
            str_eq(lp.as_str(), a) || (starts_with_str(lp.as_str(), pre.as_str()) && eq_ignore_case(
                st.as_str(),
                c,
            ))
        };
        assert(hit == p(i as int));
        let ghost r0 = r@;
        if hit {
            r.push(i);
            assert(r@.map_values(|x: usize| x as int) =~= r0.map_values(|x: usize| x as int).push(i as int));
        }
        assert(upto((i + 1) as nat, p) =~= upto(i as nat, p) + if p(i as int) {
            seq![i as int]
        } else {
            Seq::<int>::empty()
        });
        i = i + 1;
    }
    r
}

fn stems_joined(cat: &Vec<SkillFile>, ix: &Vec<usize>) -> (r: String)
    requires
        cat@ == catalog_spec(),
        forall|j: int| 0 <= j < ix@.len() ==> ix@[j] < 17,
    ensures
        r@ == join(stems_at(ix@.map_values(|x: usize| x as int)), ", "@),
{
    let mut v: Vec<String> = Vec::new();
    let mut i: usize = 0;
    while i < ix.len()
        invariant
            cat@ == catalog_spec(),
            forall|j: int| 0 <= j < ix@.len() ==> ix@[j] < 17,
            i <= ix@.len(),
            strs(v@) == stems_at(ix@.map_values(|x: usize| x as int)).take(i as int),
        decreases ix@.len() - i,
    {
        let ghost v0 = v@;
        v.push(path_stem(cat[ix[i]].rel_path));
        proof {
            lemma_strs_push(v0, v@.last());
            assert(stems_at(ix@.map_values(|x: usize| x as int)).take(i + 1) =~= strs(v@));
        }
        i = i + 1;
    }
    assert(stems_at(ix@.map_values(|x: usize| x as int)).take(ix@.len() as int) =~= stems_at(
        ix@.map_values(|x: usize| x as int),
    ));
    join_strings(&v, ", ")
}

fn paths_joined(cat: &Vec<SkillFile>, ix: &Vec<usize>) -> (r: String)
    requires
        cat@ == catalog_spec(),
        forall|j: int| 0 <= j < ix@.len() ==> ix@[j] < 17,
    ensures
        r@ == join(paths_at(ix@.map_values(|x: usize| x as int)), ", "@),
{
    let mut v: Vec<String> = Vec::new();
    let mut i: usize = 0;
    while i < ix.len()
        invariant
            cat@ == catalog_spec(),
            forall|j: int| 0 <= j < ix@.len() ==> ix@[j] < 17,
            i <= ix@.len(),
            strs(v@) == paths_at(ix@.map_values(|x: usize| x as int)).take(i as int),
        decreases ix@.len() - i,
    {
        let ghost v0 = v@;
        v.push(owned(cat[ix[i]].rel_path));
        proof {
            lemma_strs_push(v0, v@.last());
            assert(paths_at(ix@.map_values(|x: usize| x as int)).take(i + 1) =~= strs(v@));
        }
        i = i + 1;
    }
    assert(paths_at(ix@.map_values(|x: usize| x as int)).take(ix@.len() as int) =~= paths_at(
        ix@.map_values(|x: usize| x as int),
    ));
    join_strings(&v, ", ")
}

fn label_of(cat: &Vec<SkillFile>, i: usize) -> (r: String)
    requires
        cat@ == catalog_spec(),
        i < 17,
    ensures
        r@ == label_at(i as int),
{
    let st = path_stem(cat[i].rel_path);
    cat3(cat[i].group.as_str(), "/", st.as_str())
}

// ---------------------------------------------------------------------------
// Presets
// ---------------------------------------------------------------------------

/// What a preset (lower-case, trimmed) expands to.
pub open spec fn preset_of(k: Seq<char>) -> Option<Seq<char>> {
    if k == "dsp-fix"@ || k == "dsp"@ {
        Some("core"@)
    } else if k == "slint-ui"@ {
        Some("core,ui/slint"@)
    } else if k == "clap-ship"@ {
        Some("core,formats/clap"@)
    } else if k == "agent-playbook"@ || k == "agents-playbook"@ {
        Some("agents"@)
    } else if k == "policy-edit"@ {
        Some("policy"@)
    } else {
        None
    }
}

/// Canonical preset names.
pub const PRESET_NAMES: [&'static str; 5] = ["dsp-fix", "slint-ui", "clap-ship", "agent-playbook", "policy-edit"];

/// A task-loadout preset as an `--only` spec (`slint-ui` → `core,ui/slint`);
/// case-insensitive, surrounding blanks ignored.
pub fn resolve_preset(name: &str) -> (r: Result<&'static str, String>)
    ensures
        match r {
            Ok(e) => preset_of(lower(trim(name@))) == Some(e@),
            Err(m) => preset_of(lower(trim(name@))) is None && m@ == "unknown preset '"@ + lower(trim(name@))
                + "'; known: dsp-fix, slint-ui, clap-ship, agent-playbook, policy-edit"@,
        },
{
    let t = trim_str(name);
    let k = to_ascii_lower(t.as_str());
    let ks = k.as_str();
    if str_eq(ks, "dsp-fix") || str_eq(ks, "dsp") {
        Ok("core")
    } else if str_eq(ks, "slint-ui") {
        Ok("core,ui/slint")
    } else if str_eq(ks, "clap-ship") {
        Ok("core,formats/clap")
    } else if str_eq(ks, "agent-playbook") || str_eq(ks, "agents-playbook") {
        Ok("agents")
    } else if str_eq(ks, "policy-edit") {
        Ok("policy")
    } else {
        Err(cat3("unknown preset '", ks, "'; known: dsp-fix, slint-ui, clap-ship, agent-playbook, policy-edit"))
    }
}

/// How a row of the guide's loadouts table documents a preset:
/// `` `--preset <name>` (= `<expansion>`) ``.
pub open spec fn preset_cell(name: Seq<char>, expansion: Seq<char>) -> Seq<char> {
    "`--preset "@ + name + "` (= `"@ + expansion + "`)"@
}

/// A lower-case name without blanks is its own canonical form.
proof fn lemma_plain_name(n: Seq<char>)
    requires
        n.len() > 0,
        forall|i: int| 0 <= i < n.len() ==> ('a' <= #[trigger] n[i] && n[i] <= 'z') || n[i] == '-',
    ensures
        lower(trim(n)) == n,
{
    assert(n.skip(0) =~= n);
    assert(crate::text::lead_ws(n) == 0);
    assert(crate::text::trail_ws(n) == 0);
    assert(n.take(n.len() as int) =~= n);
    assert(trim(n) =~= n);
    assert(lower(n) =~= n);
}

/// The agent guide (`AGAL.md`) documents the presets in its loadouts table:
/// each preset cell stands in the guide, names a canonical preset, and gives
/// exactly the expansion that the preset resolves to.
pub proof fn lemma_presets_as_documented(k: int)
    requires
        0 <= k < 5,
    ensures
        crate::text::has_sub(crate::agent::agal_guide(), crate::agent::loadout_cells()[k]),
        exists|name: Seq<char>, e: Seq<char>|
            #[trigger] preset_cell(name, e) == crate::agent::loadout_cells()[k] && PRESET_NAMES@.map_values(
                |n: &str| n@,
            ).contains(name) && preset_of(lower(trim(name))) == Some(e),
{
    reveal_strlit("`--preset ");
    reveal_strlit("` (= `");
    reveal_strlit("`)");
    reveal_strlit("dsp-fix");
    reveal_strlit("dsp");
    reveal_strlit("slint-ui");
    reveal_strlit("clap-ship");
    reveal_strlit("agent-playbook");
    reveal_strlit("agents-playbook");
    reveal_strlit("policy-edit");
    reveal_strlit("core");
    reveal_strlit("core,ui/slint");
    reveal_strlit("core,formats/clap");
    reveal_strlit("agents");
    reveal_strlit("policy");
    reveal_strlit("`--preset dsp-fix` (= `core`)");
    reveal_strlit("`--preset policy-edit` (= `policy`)");
    reveal_strlit("`--preset slint-ui` (= `core,ui/slint`)");
    reveal_strlit("`--preset clap-ship` (= `core,formats/clap`)");
    reveal_strlit("`--preset agent-playbook` (= `agents`)");
    let g = crate::agent::agal_guide();
    let cells = crate::agent::loadout_cells();
    let names = PRESET_NAMES@.map_values(|n: &str| n@);
    let a0 = crate::agent::GUIDE_LEAD@;
    let a1 = a0 + crate::agent::LOADOUT_DSP_FIX@ + crate::agent::GUIDE_AFTER_DSP_FIX@;
    let a2 = a1 + crate::agent::LOADOUT_POLICY_EDIT@ + crate::agent::GUIDE_AFTER_POLICY_EDIT@;
    let a3 = a2 + crate::agent::LOADOUT_SLINT_UI@ + crate::agent::GUIDE_AFTER_SLINT_UI@;
    let a4 = a3 + crate::agent::LOADOUT_CLAP_SHIP@ + crate::agent::GUIDE_AFTER_CLAP_SHIP@;
    let (pre, name, e, i) = if k == 0 {
        (a0, "dsp-fix"@, "core"@, 0int)
    } else if k == 1 {
        (a1, "policy-edit"@, "policy"@, 4int)
    } else if k == 2 {
        (a2, "slint-ui"@, "core,ui/slint"@, 1int)
    } else if k == 3 {
        (a3, "clap-ship"@, "core,formats/clap"@, 2int)
    } else {
        (a4, "agent-playbook"@, "agents"@, 3int)
    };
    assert(g.subrange(pre.len() as int, (pre.len() + cells[k].len()) as int) =~= cells[k]);
    assert(crate::text::occurs_at(g, cells[k], pre.len() as int));
    assert(preset_cell(name, e) =~= cells[k]);
    assert(names[i] == name);
    lemma_plain_name(name);
    assert(preset_of(lower(trim(name))) == Some(e));
}

// ---------------------------------------------------------------------------
// Path selectors (`ui/slint`, `04-ui/slint.md`)
// ---------------------------------------------------------------------------

/// The catalog position a path selector names, or why it names none.
pub open spec fn path_selector(raw0: Seq<char>) -> Result<int, Seq<char>> {
    let raw = drop_prefixes(trim(raw0), "./"@);
    let low = lower(raw);
    match split_once(low, '/') {
        None => Err("invalid skill path '"@ + raw + "'; expected group/skill e.g. ui/slint"@),
        Some(lr) => {
            let left = lr.0;
            let right = lr.1;
            let stem = drop_suffix(right, ".md"@);
            if right.contains('/') {
                Err("invalid skill path '"@ + raw + "'; use group/skill (one slash) e.g. ui/slint"@)
            } else if stem.len() == 0 {
                Err("invalid skill path '"@ + raw + "'; missing skill name"@)
            } else {
                match SkillGroup::named(lower(left)) {
                    Some(g) => {
                        let ms = matching(group_and_stem(g, stem));
                        if ms.len() == 1 {
                            Ok(ms[0])
                        } else if ms.len() == 0 {
                            Err("no skill '"@ + stem + "' in group '"@ + g.name() + "'; available: "@ + join(
                                stems_at(matching(of_group(g))),
                                ", "@,
                            ))
                        } else {
                            Err("internal: multiple matches for "@ + left + "/"@ + stem)
                        }
                    },
                    None => {
                        let with_md = if ends_with(low, ".md"@) {
                            low
                        } else {
                            low + ".md"@
                        };
                        let ms = matching(path_like(with_md, left, stem));
                        if ms.len() == 1 {
                            Ok(ms[0])
                        } else if ms.len() == 0 {
                            Err("unknown skill path '"@ + raw + "'; try ui/slint or run `agal skills list`"@)
                        } else {
                            Err("ambiguous path '"@ + raw + "'; matches: "@ + join(paths_at(ms), ", "@))
                        }
                    },
                }
            }
        },
    }
}

proof fn lemma_upto_bound(k: nat, p: spec_fn(int) -> bool)
    ensures
        forall|j: int| 0 <= j < upto(k, p).len() ==> 0 <= #[trigger] upto(k, p)[j] < k,
    decreases k,
{
    if k > 0 {
        let k1 = (k - 1) as nat;
        lemma_upto_bound(k1, p);
        let tail = if p(k - 1) {
            seq![k - 1]
        } else {
            Seq::<int>::empty()
        };
        assert(upto(k, p) == upto(k1, p) + tail);
        assert forall|j: int| 0 <= j < upto(k, p).len() implies 0 <= #[trigger] upto(k, p)[j] < k by {
            if j < upto(k1, p).len() {
                assert(upto(k, p)[j] == upto(k1, p)[j]);
            } else {
                assert(upto(k, p)[j] == tail[j - upto(k1, p).len()]);
            }
        }
    }
}

proof fn lemma_upto_increasing(k: nat, p: spec_fn(int) -> bool)
    ensures
        forall|i: int, j: int| 0 <= i < j < upto(k, p).len() ==> #[trigger] upto(k, p)[i] < #[trigger] upto(k, p)[j],
    decreases k,
{
    if k > 0 {
        let k1 = (k - 1) as nat;
        lemma_upto_increasing(k1, p);
        lemma_upto_bound(k1, p);
        let tail = if p(k - 1) {
            seq![k - 1]
        } else {
            Seq::<int>::empty()
        };
        let u = upto(k, p);
        let u1 = upto(k1, p);
        assert(u == u1 + tail);
        assert forall|i: int, j: int| 0 <= i < j < u.len() implies #[trigger] u[i] < #[trigger] u[j] by {
            assert(u[i] == u1[i]);
            if j < u1.len() {
                assert(u[j] == u1[j]);
            } else {
                assert(u[j] == tail[j - u1.len()]);
            }
        }
    }
}

/// A group's own name reads back as that group, in any ASCII case.
pub proof fn lemma_group_name_round_trip(g: SkillGroup)
    ensures
        SkillGroup::named(lower(g.name())) == Some(g),
        SkillGroup::named(lower(upper(g.name()))) == Some(g),
{
    reveal_strlit("core");
    reveal_strlit("policy");
    reveal_strlit("frameworks");
    reveal_strlit("fw");
    reveal_strlit("formats");
    reveal_strlit("format");
    reveal_strlit("ui");
    reveal_strlit("migrations");
    reveal_strlit("migration");
    reveal_strlit("agents");
    reveal_strlit("agent");
    match g {
        SkillGroup::Core => {
            reveal_strlit("core");
            reveal_strlit("CORE");
            assert(lower("core"@) =~= "core"@);
            assert(upper("core"@) =~= "CORE"@);
            assert(lower("CORE"@) =~= "core"@);
            assert(SkillGroup::named("core"@) == Some(SkillGroup::Core));
        },
        SkillGroup::Policy => {
            reveal_strlit("policy");
            reveal_strlit("POLICY");
            assert(lower("policy"@) =~= "policy"@);
            assert(upper("policy"@) =~= "POLICY"@);
            assert(lower("POLICY"@) =~= "policy"@);
            assert(SkillGroup::named("policy"@) == Some(SkillGroup::Policy));
        },
        SkillGroup::Frameworks => {
            reveal_strlit("frameworks");
            reveal_strlit("FRAMEWORKS");
            assert(lower("frameworks"@) =~= "frameworks"@);
            assert(upper("frameworks"@) =~= "FRAMEWORKS"@);
            assert(lower("FRAMEWORKS"@) =~= "frameworks"@);
            assert(SkillGroup::named("frameworks"@) == Some(SkillGroup::Frameworks));
        },
        SkillGroup::Formats => {
            reveal_strlit("formats");
            reveal_strlit("FORMATS");
            assert(lower("formats"@) =~= "formats"@);
            assert(upper("formats"@) =~= "FORMATS"@);
            assert(lower("FORMATS"@) =~= "formats"@);
            assert(SkillGroup::named("formats"@) == Some(SkillGroup::Formats));
        },
        SkillGroup::Ui => {
            reveal_strlit("ui");
            reveal_strlit("UI");
            assert(lower("ui"@) =~= "ui"@);
            assert(upper("ui"@) =~= "UI"@);
            assert(lower("UI"@) =~= "ui"@);
            assert("ui"@[0] != "fw"@[0]);
            assert(SkillGroup::named("ui"@) == Some(SkillGroup::Ui));
        },
        SkillGroup::Migrations => {
            reveal_strlit("migrations");
            reveal_strlit("MIGRATIONS");
            assert(lower("migrations"@) =~= "migrations"@);
            assert(upper("migrations"@) =~= "MIGRATIONS"@);
            assert(lower("MIGRATIONS"@) =~= "migrations"@);
            assert("migrations"@[0] != "frameworks"@[0]);
            assert(SkillGroup::named("migrations"@) == Some(SkillGroup::Migrations));
        },
        SkillGroup::Agents => {
            reveal_strlit("agents");
            reveal_strlit("AGENTS");
            assert(lower("agents"@) =~= "agents"@);
            assert(upper("agents"@) =~= "AGENTS"@);
            assert(lower("AGENTS"@) =~= "agents"@);
            assert("agents"@[0] != "policy"@[0] && "agents"@[0] != "format"@[0]);
            assert(SkillGroup::named("agents"@) == Some(SkillGroup::Agents));
        },
    }
}

/// Position of a group in catalog order.
pub open spec fn group_order(g: SkillGroup) -> int {
    match g {
        SkillGroup::Core => 0,
        SkillGroup::Policy => 1,
        SkillGroup::Frameworks => 2,
        SkillGroup::Formats => 3,
        SkillGroup::Ui => 4,
        SkillGroup::Migrations => 5,
        SkillGroup::Agents => 6,
    }
}

/// The shipped catalog: 17 files, groups in order, each file under its
/// group's numbered folder with a `.md` name.
pub proof fn lemma_catalog_shape()
    ensures
        catalog_spec().len() == 17,
        forall|i: int, j: int|
            0 <= i < j < 17 ==> group_order(#[trigger] catalog_spec()[i].group) <= group_order(
                #[trigger] catalog_spec()[j].group,
            ),
        forall|i: int|
            0 <= i < 17 ==> starts_with(
                (#[trigger] catalog_spec()[i]).rel_path@,
                catalog_spec()[i].group.prefix() + "/"@,
            ) && ends_with(catalog_spec()[i].rel_path@, ".md"@),
        forall|i: int, j: int|
            0 <= i < j < 17 ==> (#[trigger] catalog_spec()[i]).rel_path@ != (#[trigger] catalog_spec()[j]).rel_path@,
{
    reveal_strlit("00-core/dsp-realtime.md");
    reveal_strlit("00-core/dsp-correctness.md");
    reveal_strlit("00-core/audio-thread-boundary.md");
    reveal_strlit("00-core/filter-biquad.md");
    reveal_strlit("01-policy/caveman.md");
    reveal_strlit("01-policy/ponytail.md");
    reveal_strlit("01-policy/versioning.md");
    reveal_strlit("02-frameworks/framework-patterns.md");
    reveal_strlit("03-formats/clap.md");
    reveal_strlit("03-formats/vst3.md");
    reveal_strlit("03-formats/lv2.md");
    reveal_strlit("04-ui/slint.md");
    reveal_strlit("04-ui/egui.md");
    reveal_strlit("04-ui/iced.md");
    reveal_strlit("04-ui/vizia.md");
    reveal_strlit("05-migrations/nih-plug-to-nice-plug.md");
    reveal_strlit("06-agents/agent-usage.md");
    reveal_strlit("00-core");
    reveal_strlit("01-policy");
    reveal_strlit("02-frameworks");
    reveal_strlit("03-formats");
    reveal_strlit("04-ui");
    reveal_strlit("05-migrations");
    reveal_strlit("06-agents");
    reveal_strlit("/");
    reveal_strlit(".md");
    let c = catalog_spec();
    assert forall|i: int| 0 <= i < 17 implies starts_with(
        (#[trigger] c[i]).rel_path@,
        c[i].group.prefix() + "/"@,
    ) && ends_with(c[i].rel_path@, ".md"@) by {
        let p = c[i].rel_path@;
        let q = c[i].group.prefix() + "/"@;
        assert(p.take(q.len() as int) =~= q);
        assert(p.skip(p.len() - 3) =~= ".md"@);
    }
    assert forall|i: int, j: int| 0 <= i < j < 17 implies (#[trigger] c[i]).rel_path@ != (#[trigger] c[j]).rel_path@ by {
        if c[i].group != c[j].group {
            let pi = c[i].group.prefix() + "/"@;
            let pj = c[j].group.prefix() + "/"@;
            assert(c[i].group.prefix()[1] != c[j].group.prefix()[1]);
            assert(c[i].rel_path@[1] == pi[1]);
            assert(c[j].rel_path@[1] == pj[1]);
        } else if c[i].rel_path@.len() == c[j].rel_path@.len() {
            let k: int = (c[i].group.prefix().len() + 1) as int;
            assert(c[i].rel_path@[k] != c[j].rel_path@[k]);
        }
    }
}

/// The catalog positions one selector picks, whatever came before it, or
/// why it picks nothing.
pub open spec fn tok_pick(part: Seq<char>) -> Result<Set<int>, Seq<char>> {
    let norm = replace_char(part, '\\', '/');
    if norm.contains('/') {
        match path_selector(norm) {
            Err(e) => Err(e),
            Ok(i) => Ok(set![i]),
        }
    } else {
        match SkillGroup::named(lower(norm)) {
            Some(g) => Ok(matching(of_group(g)).to_set()),
            None => {
                let ms = matching(stem_is(lower(drop_suffix(norm, ".md"@))));
                if ms.len() == 1 {
                    Ok(set![ms[0]])
                } else {
                    Err(Seq::empty())
                }
            },
        }
    }
}

/// Every token picks something.
pub open spec fn toks_ok(toks: Seq<TokenView>) -> bool {
    forall|i: int| 0 <= i < toks.len() ==> (#[trigger] tok_pick(toks[i].0)) is Ok
}

/// The positions all tokens pick.
pub open spec fn toks_union(toks: Seq<TokenView>) -> Set<int>
    decreases toks.len(),
{
    if toks.len() == 0 {
        Set::empty()
    } else {
        toks_union(toks.drop_last()).union(
            match tok_pick(toks.last().0) {
                Ok(p) => p,
                Err(_) => Set::empty(),
            },
        )
    }
}

proof fn lemma_step_pick(st: SelState, part: Seq<char>, pl: Option<Seq<char>>)
    ensures
        (sel_step(st, part, pl) is Ok) == (tok_pick(part) is Ok),
        sel_step(st, part, pl) is Ok ==> sel_step(st, part, pl)->Ok_0.0 == st.0.union(tok_pick(part)->Ok_0),
{
    let norm = replace_char(part, '\\', '/');
    if !norm.contains('/') && SkillGroup::named(lower(norm)) is None {
        let ms = matching(stem_is(lower(drop_suffix(norm, ".md"@))));
        if ms.len() == 1 {
            assert(st.0.insert(ms[0]) =~= st.0.union(set![ms[0]]));
        }
    } else if norm.contains('/') {
        if path_selector(norm) is Ok {
            let i = path_selector(norm)->Ok_0;
            assert(st.0.insert(i) =~= st.0.union(set![i]));
        }
    }
}

proof fn lemma_fold_pick(toks: Seq<TokenView>)
    ensures
        (sel_fold(toks) is Ok) == toks_ok(toks),
        sel_fold(toks) is Ok ==> sel_fold(toks)->Ok_0.0 == toks_union(toks),
    decreases toks.len(),
{
    if toks.len() > 0 {
        let init = toks.drop_last();
        lemma_fold_pick(init);
        if sel_fold(init) is Ok {
            lemma_step_pick(sel_fold(init)->Ok_0, toks.last().0, toks.last().1);
        }
        if toks_ok(toks) {
            assert forall|i: int| 0 <= i < init.len() implies (#[trigger] tok_pick(init[i].0)) is Ok by {
                assert(init[i] == toks[i]);
            }
            assert(tok_pick(toks[toks.len() - 1].0) is Ok);
        }
        if toks_ok(init) && tok_pick(toks.last().0) is Ok {
            assert forall|i: int| 0 <= i < toks.len() implies (#[trigger] tok_pick(toks[i].0)) is Ok by {
                if i < init.len() {
                    assert(init[i] == toks[i]);
                }
            }
        }
        if !toks_ok(init) {
            let i = choose|i: int| 0 <= i < init.len() && !(#[trigger] tok_pick(init[i].0) is Ok);
            assert(init[i] == toks[i]);
        }
    } else {
        assert(Set::<int>::empty() =~= Set::empty());
    }
}

/// The positions the parts pick, and whether each of them picks something.
pub open spec fn parts_union(parts: Seq<Seq<char>>) -> Set<int>
    decreases parts.len(),
{
    if parts.len() == 0 {
        Set::empty()
    } else {
        parts_union(parts.drop_last()).union(toks_union(part_tokens(parts.last())))
    }
}

pub open spec fn parts_ok(parts: Seq<Seq<char>>) -> bool {
    forall|i: int| 0 <= i < parts.len() ==> toks_ok(part_tokens(#[trigger] parts[i]))
}

#[verifier::rlimit(80)]
#[verifier::spinoff_prover]
proof fn lemma_toks_concat(a: Seq<TokenView>, b: Seq<TokenView>)
    ensures
        toks_union(a + b) == toks_union(a).union(toks_union(b)),
        toks_ok(a + b) == (toks_ok(a) && toks_ok(b)),
    decreases b.len(),
{
    if b.len() == 0 {
        assert(a + b =~= a);
        assert(toks_union(a).union(Set::empty()) =~= toks_union(a));
    } else {
        lemma_toks_concat(a, b.drop_last());
        assert((a + b).drop_last() =~= a + b.drop_last());
        assert((a + b).last() == b.last());
        assert(toks_union(a + b) =~= toks_union(a).union(toks_union(b)));
    }
    let c = a + b;
    if toks_ok(c) {
        assert forall|i: int| 0 <= i < a.len() implies (#[trigger] tok_pick(a[i].0)) is Ok by {
            assert(c[i] == a[i]);
        }
        assert forall|i: int| 0 <= i < b.len() implies (#[trigger] tok_pick(b[i].0)) is Ok by {
            assert(c[a.len() + i] == b[i]);
        }
    }
    if toks_ok(a) && toks_ok(b) {
        assert forall|i: int| 0 <= i < c.len() implies (#[trigger] tok_pick(c[i].0)) is Ok by {
            if i < a.len() {
                assert(c[i] == a[i]);
            } else {
                assert(c[i] == b[i - a.len()]);
            }
        }
    }
}

proof fn lemma_parts_tokens(parts: Seq<Seq<char>>)
    ensures
        toks_union(tokens_of(parts)) == parts_union(parts),
        toks_ok(tokens_of(parts)) == parts_ok(parts),
        forall|x: int|
            #[trigger] parts_union(parts).contains(x) <==> exists|i: int|
                0 <= i < parts.len() && toks_union(part_tokens(#[trigger] parts[i])).contains(x),
    decreases parts.len(),
{
    if parts.len() == 0 {
        assert(toks_union(Seq::<TokenView>::empty()) =~= Set::<int>::empty());
    } else {
        let init = parts.drop_last();
        lemma_parts_tokens(init);
        lemma_toks_concat(tokens_of(init), part_tokens(parts.last()));
        if parts_ok(parts) {
            assert forall|i: int| 0 <= i < init.len() implies toks_ok(part_tokens(#[trigger] init[i])) by {
                assert(init[i] == parts[i]);
            }
            assert(toks_ok(part_tokens(parts[parts.len() - 1])));
        }
        if parts_ok(init) && toks_ok(part_tokens(parts.last())) {
            assert forall|i: int| 0 <= i < parts.len() implies toks_ok(part_tokens(#[trigger] parts[i])) by {
                if i < init.len() {
                    assert(init[i] == parts[i]);
                }
            }
        }
        if !parts_ok(init) {
            let i = choose|i: int| 0 <= i < init.len() && !toks_ok(part_tokens(#[trigger] init[i]));
            assert(init[i] == parts[i]);
        }
        assert forall|x: int| #[trigger] parts_union(parts).contains(x) <==> exists|i: int|
            0 <= i < parts.len() && toks_union(part_tokens(#[trigger] parts[i])).contains(x) by {
            if parts_union(parts).contains(x) {
                if parts_union(init).contains(x) {
                    let i = choose|i: int| 0 <= i < init.len() && toks_union(part_tokens(#[trigger] init[i])).contains(x);
                    assert(init[i] == parts[i]);
                } else {
                    assert(toks_union(part_tokens(parts[parts.len() - 1])).contains(x));
                }
            }
            if exists|i: int| 0 <= i < parts.len() && toks_union(part_tokens(#[trigger] parts[i])).contains(x) {
                let i = choose|i: int| 0 <= i < parts.len() && toks_union(part_tokens(#[trigger] parts[i])).contains(x);
                if i < init.len() {
                    assert(init[i] == parts[i]);
                }
            }
        }
    }
}

/// Which files a selection picks depends only on which parts it lists:
/// reordering the parts, or repeating one, picks the same files, and the
/// selection succeeds for both or for neither (`all`, which must stand
/// alone, aside).
pub proof fn lemma_selection_by_parts(spec1: Seq<char>, spec2: Seq<char>)
    requires
        clean_parts(split_on(spec1, ',')).to_set() == clean_parts(split_on(spec2, ',')).to_set(),
        !has_all(clean_parts(split_on(spec1, ','))),
    ensures
        (selection_of(spec1) is Ok) == (selection_of(spec2) is Ok),
        selection_of(spec1) is Ok ==> selection_of(spec1)->Ok_0.0 == selection_of(spec2)->Ok_0.0,
{
    let p1 = clean_parts(split_on(spec1, ','));
    let p2 = clean_parts(split_on(spec2, ','));
    assert(!has_all(p2)) by {
        if has_all(p2) {
            let i = choose|i: int| 0 <= i < p2.len() && lower(#[trigger] p2[i]) == "all"@;
            assert(p2.to_set().contains(p2[i]));
            assert(p1.contains(p2[i]));
            let j = choose|j: int| 0 <= j < p1.len() && p1[j] == p2[i];
            assert(lower(p1[j]) == "all"@);
        }
    }
    if p1.len() == 0 {
        if p2.len() > 0 {
            assert(p2.to_set().contains(p2[0]));
            assert(p1.contains(p2[0]));
        }
    } else if p2.len() == 0 {
        assert(p1.to_set().contains(p1[0]));
        assert(p2.contains(p1[0]));
    } else {
        lemma_parts_tokens(p1);
        lemma_parts_tokens(p2);
        lemma_fold_pick(tokens_of(p1));
        lemma_fold_pick(tokens_of(p2));
        assert(parts_ok(p1) == parts_ok(p2)) by {
            if parts_ok(p1) {
                assert forall|i: int| 0 <= i < p2.len() implies toks_ok(part_tokens(#[trigger] p2[i])) by {
                    assert(p2.to_set().contains(p2[i]));
                    let j = choose|j: int| 0 <= j < p1.len() && p1[j] == p2[i];
                    assert(toks_ok(part_tokens(p1[j])));
                }
            }
            if parts_ok(p2) {
                assert forall|i: int| 0 <= i < p1.len() implies toks_ok(part_tokens(#[trigger] p1[i])) by {
                    assert(p1.to_set().contains(p1[i]));
                    let j = choose|j: int| 0 <= j < p2.len() && p2[j] == p1[i];
                    assert(toks_ok(part_tokens(p2[j])));
                }
            }
        }
        assert(parts_union(p1) =~= parts_union(p2)) by {
            assert forall|x: int| parts_union(p1).contains(x) implies parts_union(p2).contains(x) by {
                let i = choose|i: int| 0 <= i < p1.len() && toks_union(part_tokens(#[trigger] p1[i])).contains(x);
                assert(p1.to_set().contains(p1[i]));
                let j = choose|j: int| 0 <= j < p2.len() && p2[j] == p1[i];
                assert(toks_union(part_tokens(p2[j])).contains(x));
            }
            assert forall|x: int| parts_union(p2).contains(x) implies parts_union(p1).contains(x) by {
                let i = choose|i: int| 0 <= i < p2.len() && toks_union(part_tokens(#[trigger] p2[i])).contains(x);
                assert(p2.to_set().contains(p2[i]));
                let j = choose|j: int| 0 <= j < p1.len() && p1[j] == p2[i];
                assert(toks_union(part_tokens(p1[j])).contains(x));
            }
        }
    }
}

/// No `/` in `s` from position `i` on.
pub open spec fn slash_free_from(s: Seq<char>, i: nat) -> bool
    decreases s.len() - i,
{
    i >= s.len() || (s[i as int] != '/' && slash_free_from(s, i + 1))
}

proof fn lemma_slash_free(s: Seq<char>, i: nat, k: int)
    requires
        slash_free_from(s, i),
        i <= k < s.len(),
    ensures
        s[k] != '/',
    decreases k - i,
{
    if i < k {
        lemma_slash_free(s, i + 1, k);
    }
}

proof fn lemma_after_last_none(y: Seq<char>)
    requires
        forall|k: int| 0 <= k < y.len() ==> y[k] != '/',
    ensures
        after_last(y, '/') == y,
    decreases y.len(),
{
    if y.len() > 0 {
        lemma_after_last_none(y.drop_last());
        assert(y.drop_last().push(y.last()) =~= y);
    }
}

proof fn lemma_after_last_tail(x: Seq<char>, y: Seq<char>, c: char)
    ensures
        after_last(x.push(c) + y, c) == after_last(y, c),
    decreases y.len(),
{
    if y.len() == 0 {
        assert(x.push(c) + y =~= x.push(c));
    } else {
        lemma_after_last_tail(x, y.drop_last(), c);
        assert((x.push(c) + y).drop_last() =~= x.push(c) + y.drop_last());
    }
}

proof fn lemma_stem_parts(d: Seq<char>, f: Seq<char>)
    requires
        slash_free_from(f, 0),
    ensures
        after_last(d.push('/') + f, '/') == f,
{
    assert forall|k: int| 0 <= k < f.len() implies f[k] != '/' by {
        lemma_slash_free(f, 0, k);
    }
    lemma_after_last_none(f);
    lemma_after_last_tail(d, f, '/');
}

#[verifier::rlimit(40)]
#[verifier::spinoff_prover]
proof fn lemma_stems_0()
    ensures
        stem_of(catalog_spec()[0].rel_path@) == "dsp-realtime"@,
        stem_of(catalog_spec()[1].rel_path@) == "dsp-correctness"@,
        stem_of(catalog_spec()[2].rel_path@) == "audio-thread-boundary"@,
        stem_of(catalog_spec()[3].rel_path@) == "filter-biquad"@,
        stem_of(catalog_spec()[4].rel_path@) == "caveman"@,
{
    let c = catalog_spec();
    reveal_strlit(".md");
    reveal_strlit("00-core/dsp-realtime.md");
    reveal_strlit("00-core");
    reveal_strlit("dsp-realtime.md");
    reveal_strlit("dsp-realtime");
    assert(slash_free_from("dsp-realtime.md"@, 0)) by {
        reveal_with_fuel(slash_free_from, 40);
    }
    lemma_stem_parts("00-core"@, "dsp-realtime.md"@);
    assert("00-core/dsp-realtime.md"@ =~= "00-core"@.push('/') + "dsp-realtime.md"@);
    assert("dsp-realtime.md"@.skip("dsp-realtime.md"@.len() - 3) =~= ".md"@);
    assert("dsp-realtime.md"@.take("dsp-realtime.md"@.len() - 3) =~= "dsp-realtime"@);
    assert(stem_of(c[0].rel_path@) == "dsp-realtime"@);
    reveal_strlit("00-core/dsp-correctness.md");
    reveal_strlit("00-core");
    reveal_strlit("dsp-correctness.md");
    reveal_strlit("dsp-correctness");
    assert(slash_free_from("dsp-correctness.md"@, 0)) by {
        reveal_with_fuel(slash_free_from, 40);
    }
    lemma_stem_parts("00-core"@, "dsp-correctness.md"@);
    assert("00-core/dsp-correctness.md"@ =~= "00-core"@.push('/') + "dsp-correctness.md"@);
    assert("dsp-correctness.md"@.skip("dsp-correctness.md"@.len() - 3) =~= ".md"@);
    assert("dsp-correctness.md"@.take("dsp-correctness.md"@.len() - 3) =~= "dsp-correctness"@);
    assert(stem_of(c[1].rel_path@) == "dsp-correctness"@);
    reveal_strlit("00-core/audio-thread-boundary.md");
    reveal_strlit("00-core");
    reveal_strlit("audio-thread-boundary.md");
    reveal_strlit("audio-thread-boundary");
    assert(slash_free_from("audio-thread-boundary.md"@, 0)) by {
        reveal_with_fuel(slash_free_from, 40);
    }
    lemma_stem_parts("00-core"@, "audio-thread-boundary.md"@);
    assert("00-core/audio-thread-boundary.md"@ =~= "00-core"@.push('/') + "audio-thread-boundary.md"@);
    assert("audio-thread-boundary.md"@.skip("audio-thread-boundary.md"@.len() - 3) =~= ".md"@);
    assert("audio-thread-boundary.md"@.take("audio-thread-boundary.md"@.len() - 3) =~= "audio-thread-boundary"@);
    assert(stem_of(c[2].rel_path@) == "audio-thread-boundary"@);
    reveal_strlit("00-core/filter-biquad.md");
    reveal_strlit("00-core");
    reveal_strlit("filter-biquad.md");
    reveal_strlit("filter-biquad");
    assert(slash_free_from("filter-biquad.md"@, 0)) by {
        reveal_with_fuel(slash_free_from, 40);
    }
    lemma_stem_parts("00-core"@, "filter-biquad.md"@);
    assert("00-core/filter-biquad.md"@ =~= "00-core"@.push('/') + "filter-biquad.md"@);
    assert("filter-biquad.md"@.skip("filter-biquad.md"@.len() - 3) =~= ".md"@);
    assert("filter-biquad.md"@.take("filter-biquad.md"@.len() - 3) =~= "filter-biquad"@);
    assert(stem_of(c[3].rel_path@) == "filter-biquad"@);
    reveal_strlit("01-policy/caveman.md");
    reveal_strlit("01-policy");
    reveal_strlit("caveman.md");
    reveal_strlit("caveman");
    assert(slash_free_from("caveman.md"@, 0)) by {
        reveal_with_fuel(slash_free_from, 40);
    }
    lemma_stem_parts("01-policy"@, "caveman.md"@);
    assert("01-policy/caveman.md"@ =~= "01-policy"@.push('/') + "caveman.md"@);
    assert("caveman.md"@.skip("caveman.md"@.len() - 3) =~= ".md"@);
    assert("caveman.md"@.take("caveman.md"@.len() - 3) =~= "caveman"@);
    assert(stem_of(c[4].rel_path@) == "caveman"@);
}

#[verifier::rlimit(40)]
#[verifier::spinoff_prover]
proof fn lemma_stems_1()
    ensures
        stem_of(catalog_spec()[5].rel_path@) == "ponytail"@,
        stem_of(catalog_spec()[6].rel_path@) == "versioning"@,
        stem_of(catalog_spec()[7].rel_path@) == "framework-patterns"@,
        stem_of(catalog_spec()[8].rel_path@) == "clap"@,
        stem_of(catalog_spec()[9].rel_path@) == "vst3"@,
{
    let c = catalog_spec();
    reveal_strlit(".md");
    reveal_strlit("01-policy/ponytail.md");
    reveal_strlit("01-policy");
    reveal_strlit("ponytail.md");
    reveal_strlit("ponytail");
    assert(slash_free_from("ponytail.md"@, 0)) by {
        reveal_with_fuel(slash_free_from, 40);
    }
    lemma_stem_parts("01-policy"@, "ponytail.md"@);
    assert("01-policy/ponytail.md"@ =~= "01-policy"@.push('/') + "ponytail.md"@);
    assert("ponytail.md"@.skip("ponytail.md"@.len() - 3) =~= ".md"@);
    assert("ponytail.md"@.take("ponytail.md"@.len() - 3) =~= "ponytail"@);
    assert(stem_of(c[5].rel_path@) == "ponytail"@);
    reveal_strlit("01-policy/versioning.md");
    reveal_strlit("01-policy");
    reveal_strlit("versioning.md");
    reveal_strlit("versioning");
    assert(slash_free_from("versioning.md"@, 0)) by {
        reveal_with_fuel(slash_free_from, 40);
    }
    lemma_stem_parts("01-policy"@, "versioning.md"@);
    assert("01-policy/versioning.md"@ =~= "01-policy"@.push('/') + "versioning.md"@);
    assert("versioning.md"@.skip("versioning.md"@.len() - 3) =~= ".md"@);
    assert("versioning.md"@.take("versioning.md"@.len() - 3) =~= "versioning"@);
    assert(stem_of(c[6].rel_path@) == "versioning"@);
    reveal_strlit("02-frameworks/framework-patterns.md");
    reveal_strlit("02-frameworks");
    reveal_strlit("framework-patterns.md");
    reveal_strlit("framework-patterns");
    assert(slash_free_from("framework-patterns.md"@, 0)) by {
        reveal_with_fuel(slash_free_from, 40);
    }
    lemma_stem_parts("02-frameworks"@, "framework-patterns.md"@);
    assert("02-frameworks/framework-patterns.md"@ =~= "02-frameworks"@.push('/') + "framework-patterns.md"@);
    assert("framework-patterns.md"@.skip("framework-patterns.md"@.len() - 3) =~= ".md"@);
    assert("framework-patterns.md"@.take("framework-patterns.md"@.len() - 3) =~= "framework-patterns"@);
    assert(stem_of(c[7].rel_path@) == "framework-patterns"@);
    reveal_strlit("03-formats/clap.md");
    reveal_strlit("03-formats");
    reveal_strlit("clap.md");
    reveal_strlit("clap");
    assert(slash_free_from("clap.md"@, 0)) by {
        reveal_with_fuel(slash_free_from, 40);
    }
    lemma_stem_parts("03-formats"@, "clap.md"@);
    assert("03-formats/clap.md"@ =~= "03-formats"@.push('/') + "clap.md"@);
    assert("clap.md"@.skip("clap.md"@.len() - 3) =~= ".md"@);
    assert("clap.md"@.take("clap.md"@.len() - 3) =~= "clap"@);
    assert(stem_of(c[8].rel_path@) == "clap"@);
    reveal_strlit("03-formats/vst3.md");
    reveal_strlit("03-formats");
    reveal_strlit("vst3.md");
    reveal_strlit("vst3");
    assert(slash_free_from("vst3.md"@, 0)) by {
        reveal_with_fuel(slash_free_from, 40);
    }
    lemma_stem_parts("03-formats"@, "vst3.md"@);
    assert("03-formats/vst3.md"@ =~= "03-formats"@.push('/') + "vst3.md"@);
    assert("vst3.md"@.skip("vst3.md"@.len() - 3) =~= ".md"@);
    assert("vst3.md"@.take("vst3.md"@.len() - 3) =~= "vst3"@);
    assert(stem_of(c[9].rel_path@) == "vst3"@);
}

#[verifier::rlimit(40)]
#[verifier::spinoff_prover]
proof fn lemma_stems_2()
    ensures
        stem_of(catalog_spec()[10].rel_path@) == "lv2"@,
        stem_of(catalog_spec()[11].rel_path@) == "slint"@,
        stem_of(catalog_spec()[12].rel_path@) == "egui"@,
        stem_of(catalog_spec()[13].rel_path@) == "iced"@,
{
    let c = catalog_spec();
    reveal_strlit(".md");
    reveal_strlit("03-formats/lv2.md");
    reveal_strlit("03-formats");
    reveal_strlit("lv2.md");
    reveal_strlit("lv2");
    assert(slash_free_from("lv2.md"@, 0)) by {
        reveal_with_fuel(slash_free_from, 40);
    }
    lemma_stem_parts("03-formats"@, "lv2.md"@);
    assert("03-formats/lv2.md"@ =~= "03-formats"@.push('/') + "lv2.md"@);
    assert("lv2.md"@.skip("lv2.md"@.len() - 3) =~= ".md"@);
    assert("lv2.md"@.take("lv2.md"@.len() - 3) =~= "lv2"@);
    assert(stem_of(c[10].rel_path@) == "lv2"@);
    reveal_strlit("04-ui/slint.md");
    reveal_strlit("04-ui");
    reveal_strlit("slint.md");
    reveal_strlit("slint");
    assert(slash_free_from("slint.md"@, 0)) by {
        reveal_with_fuel(slash_free_from, 40);
    }
    lemma_stem_parts("04-ui"@, "slint.md"@);
    assert("04-ui/slint.md"@ =~= "04-ui"@.push('/') + "slint.md"@);
    assert("slint.md"@.skip("slint.md"@.len() - 3) =~= ".md"@);
    assert("slint.md"@.take("slint.md"@.len() - 3) =~= "slint"@);
    assert(stem_of(c[11].rel_path@) == "slint"@);
    reveal_strlit("04-ui/egui.md");
    reveal_strlit("04-ui");
    reveal_strlit("egui.md");
    reveal_strlit("egui");
    assert(slash_free_from("egui.md"@, 0)) by {
        reveal_with_fuel(slash_free_from, 40);
    }
    lemma_stem_parts("04-ui"@, "egui.md"@);
    assert("04-ui/egui.md"@ =~= "04-ui"@.push('/') + "egui.md"@);
    assert("egui.md"@.skip("egui.md"@.len() - 3) =~= ".md"@);
    assert("egui.md"@.take("egui.md"@.len() - 3) =~= "egui"@);
    assert(stem_of(c[12].rel_path@) == "egui"@);
    reveal_strlit("04-ui/iced.md");
    reveal_strlit("04-ui");
    reveal_strlit("iced.md");
    reveal_strlit("iced");
    assert(slash_free_from("iced.md"@, 0)) by {
        reveal_with_fuel(slash_free_from, 40);
    }
    lemma_stem_parts("04-ui"@, "iced.md"@);
    assert("04-ui/iced.md"@ =~= "04-ui"@.push('/') + "iced.md"@);
    assert("iced.md"@.skip("iced.md"@.len() - 3) =~= ".md"@);
    assert("iced.md"@.take("iced.md"@.len() - 3) =~= "iced"@);
    assert(stem_of(c[13].rel_path@) == "iced"@);
}

#[verifier::rlimit(40)]
#[verifier::spinoff_prover]
proof fn lemma_stems_3()
    ensures
        stem_of(catalog_spec()[14].rel_path@) == "vizia"@,
        stem_of(catalog_spec()[15].rel_path@) == "nih-plug-to-nice-plug"@,
        stem_of(catalog_spec()[16].rel_path@) == "agent-usage"@,
{
    let c = catalog_spec();
    reveal_strlit(".md");
    reveal_strlit("04-ui/vizia.md");
    reveal_strlit("04-ui");
    reveal_strlit("vizia.md");
    reveal_strlit("vizia");
    assert(slash_free_from("vizia.md"@, 0)) by {
        reveal_with_fuel(slash_free_from, 40);
    }
    lemma_stem_parts("04-ui"@, "vizia.md"@);
    assert("04-ui/vizia.md"@ =~= "04-ui"@.push('/') + "vizia.md"@);
    assert("vizia.md"@.skip("vizia.md"@.len() - 3) =~= ".md"@);
    assert("vizia.md"@.take("vizia.md"@.len() - 3) =~= "vizia"@);
    assert(stem_of(c[14].rel_path@) == "vizia"@);
    reveal_strlit("05-migrations/nih-plug-to-nice-plug.md");
    reveal_strlit("05-migrations");
    reveal_strlit("nih-plug-to-nice-plug.md");
    reveal_strlit("nih-plug-to-nice-plug");
    assert(slash_free_from("nih-plug-to-nice-plug.md"@, 0)) by {
        reveal_with_fuel(slash_free_from, 40);
    }
    lemma_stem_parts("05-migrations"@, "nih-plug-to-nice-plug.md"@);
    assert("05-migrations/nih-plug-to-nice-plug.md"@ =~= "05-migrations"@.push('/') + "nih-plug-to-nice-plug.md"@);
    assert("nih-plug-to-nice-plug.md"@.skip("nih-plug-to-nice-plug.md"@.len() - 3) =~= ".md"@);
    assert("nih-plug-to-nice-plug.md"@.take("nih-plug-to-nice-plug.md"@.len() - 3) =~= "nih-plug-to-nice-plug"@);
    assert(stem_of(c[15].rel_path@) == "nih-plug-to-nice-plug"@);
    reveal_strlit("06-agents/agent-usage.md");
    reveal_strlit("06-agents");
    reveal_strlit("agent-usage.md");
    reveal_strlit("agent-usage");
    assert(slash_free_from("agent-usage.md"@, 0)) by {
        reveal_with_fuel(slash_free_from, 40);
    }
    lemma_stem_parts("06-agents"@, "agent-usage.md"@);
    assert("06-agents/agent-usage.md"@ =~= "06-agents"@.push('/') + "agent-usage.md"@);
    assert("agent-usage.md"@.skip("agent-usage.md"@.len() - 3) =~= ".md"@);
    assert("agent-usage.md"@.take("agent-usage.md"@.len() - 3) =~= "agent-usage"@);
    assert(stem_of(c[16].rel_path@) == "agent-usage"@);
}

/// The file stems of the catalog, in catalog order.
pub open spec fn catalog_stems() -> Seq<Seq<char>> {
    seq!["dsp-realtime"@, "dsp-correctness"@, "audio-thread-boundary"@, "filter-biquad"@, "caveman"@, "ponytail"@, "versioning"@, "framework-patterns"@, "clap"@, "vst3"@, "lv2"@, "slint"@, "egui"@, "iced"@, "vizia"@, "nih-plug-to-nice-plug"@, "agent-usage"@]
}

/// Every catalog file's stem (name without `.md`) is distinct, so a bare
/// stem selects at most one file.
pub proof fn lemma_catalog_stems()
    ensures
        forall|i: int| 0 <= i < 17 ==> stem_of(#[trigger] catalog_spec()[i].rel_path@) == catalog_stems()[i],
        forall|i: int, j: int|
            0 <= i < j < 17 ==> stem_of((#[trigger] catalog_spec()[i]).rel_path@) != stem_of(
                (#[trigger] catalog_spec()[j]).rel_path@,
            ),
{
    lemma_stems_0();
    lemma_stems_1();
    lemma_stems_2();
    lemma_stems_3();
    let c = catalog_spec();
    let t = catalog_stems();
    reveal_strlit("dsp-realtime");
    reveal_strlit("dsp-correctness");
    reveal_strlit("audio-thread-boundary");
    reveal_strlit("filter-biquad");
    reveal_strlit("caveman");
    reveal_strlit("ponytail");
    reveal_strlit("versioning");
    reveal_strlit("framework-patterns");
    reveal_strlit("clap");
    reveal_strlit("vst3");
    reveal_strlit("lv2");
    reveal_strlit("slint");
    reveal_strlit("egui");
    reveal_strlit("iced");
    reveal_strlit("vizia");
    reveal_strlit("nih-plug-to-nice-plug");
    reveal_strlit("agent-usage");
    assert forall|i: int, j: int| 0 <= i < j < 17 implies (#[trigger] t[i]) != (#[trigger] t[j]) by {
        if t[i].len() == t[j].len() {
            assert(t[i][0] != t[j][0]);
        }
    }
    assert forall|i: int| 0 <= i < 17 implies stem_of(#[trigger] c[i].rel_path@) == t[i] by {}
}

pub open spec fn in_group_list(gs: Seq<SkillGroup>) -> spec_fn(SkillFile) -> bool {
    |f: SkillFile| gs.contains(f.group)
}

proof fn lemma_upto_filter(k: nat, gs: Seq<SkillGroup>)
    requires
        k <= 17,
    ensures
        upto(k, in_groups(gs)).map_values(|i: int| catalog_spec()[i]) == catalog_spec().take(k as int).filter(
            in_group_list(gs),
        ),
    decreases k,
{
    let p = in_groups(gs);
    let q = in_group_list(gs);
    let c = catalog_spec();
    if k == 0 {
        assert(c.take(0) =~= Seq::<SkillFile>::empty());
        assert(upto(0, p).map_values(|i: int| c[i]) =~= Seq::<SkillFile>::empty());
    } else {
        let k1 = (k - 1) as nat;
        lemma_upto_filter(k1, gs);
        let t = c.take(k as int);
        assert(t.drop_last() =~= c.take(k1 as int));
        assert(t.last() == c[k1 as int]);
        reveal(Seq::filter);
        assert(t.filter(q) == if q(t.last()) {
            t.drop_last().filter(q).push(t.last())
        } else {
            t.drop_last().filter(q)
        });
        assert(q(t.last()) == p(k1 as int));
        if p(k1 as int) {
            assert(upto(k, p) == upto(k1, p) + seq![k1 as int]);
            assert(upto(k, p).map_values(|i: int| c[i]) =~= upto(k1, p).map_values(|i: int| c[i]).push(c[k1 as int]));
        } else {
            assert(upto(k, p) =~= upto(k1, p) + Seq::<int>::empty());
            assert(upto(k, p).map_values(|i: int| c[i]) =~= upto(k1, p).map_values(|i: int| c[i]));
        }
    }
}

/// The skills of some groups are exactly the catalog filtered by group, in
/// catalog order (a group listed twice adds nothing).
pub proof fn lemma_select_owned_filter(gs: Seq<SkillGroup>)
    ensures
        pick(in_groups(gs)) == catalog_spec().filter(in_group_list(gs)),
{
    lemma_upto_filter(17, gs);
    assert(catalog_spec().take(17) =~= catalog_spec());
}

/// Positions strictly increasing inside the catalog.
pub open spec fn catalog_positions(ps: Seq<int>) -> bool {
    &&& forall|i: int| 0 <= i < ps.len() ==> 0 <= #[trigger] ps[i] < catalog_spec().len()
    &&& forall|i: int, j: int| 0 <= i < j < ps.len() ==> #[trigger] ps[i] < #[trigger] ps[j]
}

/// The catalog entries at the given positions.
pub open spec fn at_positions(ps: Seq<int>) -> Seq<SkillFile> {
    ps.map_values(|i: int| catalog_spec()[i])
}

/// A selection lists skill files in catalog order, each at most once: its
/// files are the catalog entries at strictly increasing positions.
pub proof fn lemma_selection_in_catalog_order(spec: Seq<char>)
    requires
        selection_of(spec) is Ok,
    ensures
        exists|ps: Seq<int>|
            catalog_positions(ps) && selection_of(spec)->Ok_0.0 == #[trigger] at_positions(ps),
{
    let parts = clean_parts(split_on(spec, ','));
    let files = selection_of(spec)->Ok_0.0;
    let p: spec_fn(int) -> bool = if parts.len() == 0 {
        in_groups(seq![SkillGroup::Core])
    } else if has_all(parts) {
        |i: int| true
    } else {
        chosen(sel_fold(tokens_of(parts))->Ok_0.0)
    };
    if parts.len() > 0 && has_all(parts) {
        let ps = Seq::new(17, |i: int| i);
        assert(catalog_positions(ps));
        assert(files =~= at_positions(ps));
    } else {
        let ps = matching(p);
        lemma_upto_bound(17, p);
        lemma_upto_increasing(17, p);
        assert(catalog_positions(ps));
        assert(files == pick(p));
        assert(files == at_positions(ps));
    }
}

/// Resolves `ui/slint`, `ui/slint.md`, `04-ui/slint`, `04-ui/slint.md` to a
/// catalog position.
fn resolve_path_selector(cat: &Vec<SkillFile>, raw0: &str) -> (r: Result<usize, String>)
    requires
        cat@ == catalog_spec(),
    ensures
        match r {
            Ok(i) => path_selector(raw0@) == Ok::<int, Seq<char>>(i as int) && i < 17,
            Err(e) => path_selector(raw0@) == Err::<int, Seq<char>>(e@),
        },
{
    let t = trim_str(raw0);
    let raw = drop_prefixes_str(t.as_str(), "./");
    let low = to_ascii_lower(raw.as_str());
    let so = split_once_str(low.as_str(), '/');
    match so {
        None => Err(cat3("invalid skill path '", raw.as_str(), "'; expected group/skill e.g. ui/slint")),
        Some((left, right)) => {
            let stem = drop_suffix_str(right.as_str(), ".md");
            if contains_char(right.as_str(), '/') {
                return Err(cat3("invalid skill path '", raw.as_str(), "'; use group/skill (one slash) e.g. ui/slint"));
            }
            if chars_of(stem.as_str()).len() == 0 {
                return Err(cat3("invalid skill path '", raw.as_str(), "'; missing skill name"));
            }
            match SkillGroup::parse_one(left.as_str()) {
                Ok(g) => {
                    let ms = positions(cat, 1, g, stem.as_str(), "", "");
                    proof {
                        lemma_upto_bound(17, group_and_stem(g, stem@));
                    }
                    if ms.len() == 1 {
                        Ok(ms[0])
                    } else if ms.len() == 0 {
                        let all = positions(cat, 0, g, "", "", "");
                        let av = stems_joined(cat, &all);
                        let mut e = cat3("no skill '", stem.as_str(), "' in group '");
                        push_str(&mut e, g.as_str());
                        push_str(&mut e, "'; available: ");
                        push_str(&mut e, av.as_str());
                        Err(e)
                    } else {
                        let mut e = cat3("internal: multiple matches for ", left.as_str(), "/");
                        push_str(&mut e, stem.as_str());
                        Err(e)
                    }
                },
                Err(_) => {
                    let with_md = if ends_with_str(low.as_str(), ".md") {
                        owned(low.as_str())
                    } else {
                        cat2(low.as_str(), ".md")
                    };
                    let ms = positions(cat, 3, SkillGroup::Core, with_md.as_str(), left.as_str(), stem.as_str());
                    if ms.len() == 1 {
                        Ok(ms[0])
                    } else if ms.len() == 0 {
                        Err(cat3("unknown skill path '", raw.as_str(), "'; try ui/slint or run `agal skills list`"))
                    } else {
                        let pj = paths_joined(cat, &ms);
                        let mut e = cat3("ambiguous path '", raw.as_str(), "'; matches: ");
                        push_str(&mut e, pj.as_str());
                        Err(e)
                    }
                },
            }
        },
    }
}

// ---------------------------------------------------------------------------
// Selections
// ---------------------------------------------------------------------------

/// Resolved selection: files in catalog order, and labels for logging.
#[derive(Debug, Clone)]
pub struct Selection {
    pub files: Vec<SkillFile>,
    /// Human labels (`core`, `ui/slint`, `preset:slint-ui`, …).
    pub labels: Vec<String>,
}

/// Trimmed pieces, blank ones dropped.
pub open spec fn clean_parts(ps: Seq<Seq<char>>) -> Seq<Seq<char>>
    decreases ps.len(),
{
    if ps.len() == 0 {
        Seq::empty()
    } else {
        clean_parts(ps.drop_last()) + if trim(ps.last()).len() > 0 {
            seq![trim(ps.last())]
        } else {
            Seq::empty()
        }
    }
}

/// A selector token with the preset label it came from, if any.
pub type TokenView = (Seq<char>, Option<Seq<char>>);

/// The tokens of one part: a preset expands to its selectors, labelled.
pub open spec fn part_tokens(part: Seq<char>) -> Seq<TokenView> {
    let k = lower(trim(part));
    match preset_of(k) {
        Some(e) => clean_parts(split_on(e, ',')).map_values(|x: Seq<char>| (x, Some("preset:"@ + k))),
        None => seq![(part, None)],
    }
}

pub open spec fn tokens_of(parts: Seq<Seq<char>>) -> Seq<TokenView>
    decreases parts.len(),
{
    if parts.len() == 0 {
        Seq::empty()
    } else {
        tokens_of(parts.drop_last()) + part_tokens(parts.last())
    }
}

/// Selection state: chosen catalog positions, labels, preset labels seen.
pub type SelState = (Set<int>, Seq<Seq<char>>, Set<Seq<char>>);

/// `group/skill` labels of catalog positions.
pub open spec fn labels_at(ix: Seq<int>) -> Seq<Seq<char>> {
    ix.map_values(|i: int| label_at(i))
}

/// Message for a selector that names nothing.
pub open spec fn unknown_selector_msg(part: Seq<char>) -> Seq<char> {
    "unknown selector '"@ + part
        + "'; use a group (ui), group/skill (ui/slint), path (04-ui/slint), or preset (dsp-fix|slint-ui|clap-ship|agent-playbook|policy-edit)"@
}

/// One selector applied to the state.
pub open spec fn sel_step(st: SelState, part: Seq<char>, pl: Option<Seq<char>>) -> Result<SelState, Seq<char>> {
    let st1: SelState = match pl {
        Some(l) => if st.2.contains(l) {
            st
        } else {
            (st.0, st.1.push(l), st.2.insert(l))
        },
        None => st,
    };
    let norm = replace_char(part, '\\', '/');
    if norm.contains('/') {
        match path_selector(norm) {
            Err(e) => Err(e),
            Ok(i) => Ok((st1.0.insert(i), if pl is None { st1.1.push(label_at(i)) } else { st1.1 }, st1.2)),
        }
    } else {
        match SkillGroup::named(lower(norm)) {
            Some(g) => Ok(
                (
                    st1.0.union(matching(of_group(g)).to_set()),
                    if pl is None {
                        st1.1.push(g.name())
                    } else {
                        st1.1
                    },
                    st1.2,
                ),
            ),
            None => {
                let ms = matching(stem_is(lower(drop_suffix(norm, ".md"@))));
                if ms.len() == 0 {
                    Err(unknown_selector_msg(part))
                } else if ms.len() == 1 {
                    Ok((st1.0.insert(ms[0]), if pl is None { st1.1.push(label_at(ms[0])) } else { st1.1 }, st1.2))
                } else {
                    Err("ambiguous skill '"@ + part + "'; disambiguate with group/name: "@ + join(labels_at(ms), ", "@))
                }
            },
        }
    }
}

/// The selectors applied in order; the first failure stops.
pub open spec fn sel_fold(toks: Seq<TokenView>) -> Result<SelState, Seq<char>>
    decreases toks.len(),
{
    if toks.len() == 0 {
        Ok((Set::empty(), Seq::empty(), Set::empty()))
    } else {
        match sel_fold(toks.drop_last()) {
            Err(e) => Err(e),
            Ok(st) => sel_step(st, toks.last().0, toks.last().1),
        }
    }
}

/// Some part is `all` (any case).
pub open spec fn has_all(parts: Seq<Seq<char>>) -> bool {
    exists|i: int| 0 <= i < parts.len() && lower(#[trigger] parts[i]) == "all"@
}

/// What a `--only` spec selects: files in catalog order and labels, or the
/// reason it selects nothing.
pub open spec fn selection_of(spec: Seq<char>) -> Result<(Seq<SkillFile>, Seq<Seq<char>>), Seq<char>> {
    let parts = clean_parts(split_on(spec, ','));
    if parts.len() == 0 {
        Ok((pick(in_groups(seq![SkillGroup::Core])), seq!["core"@]))
    } else if has_all(parts) {
        if parts.len() != 1 {
            Err("'all' cannot be mixed with other selectors"@)
        } else {
            Ok((catalog_spec(), seq!["all"@]))
        }
    } else {
        match sel_fold(tokens_of(parts)) {
            Err(e) => Err(e),
            Ok(st) => if pick(chosen(st.0)).len() == 0 {
                Err("no skills matched selection"@)
            } else {
                Ok((pick(chosen(st.0)), st.1))
            },
        }
    }
}

/// Positions flagged in a flag vector over the catalog.
pub open spec fn flagged(w: Seq<bool>) -> Set<int> {
    Set::new(|i: int| 0 <= i < w.len() && w[i])
}

pub open spec fn tok_view(t: (String, Option<String>)) -> TokenView {
    (t.0@, crate::text::opt_view(t.1))
}

fn clean_split(spec: &str, c: char) -> (r: Vec<String>)
    ensures
        strs(r@) == clean_parts(split_on(spec@, c)),
{
    let ps = split_char(spec, c);
    let mut r: Vec<String> = Vec::new();
    let mut i: usize = 0;
    while i < ps.len()
        invariant
            strs(ps@) == split_on(spec@, c),
            i <= ps@.len(),
            strs(r@) == clean_parts(strs(ps@).take(i as int)),
        decreases ps@.len() - i,
    {
        assert(strs(ps@).take(i + 1).drop_last() =~= strs(ps@).take(i as int));
        let t = trim_str(ps[i].as_str());
        if chars_of(t.as_str()).len() > 0 {
            let ghost r0 = r@;
            r.push(t);
            proof {
                lemma_strs_push(r0, r@.last());
            }
        }
        assert(strs(r@) =~= clean_parts(strs(ps@).take(i + 1)));
        i = i + 1;
    }
    assert(strs(ps@).take(ps@.len() as int) =~= strs(ps@));
    r
}

/// Selector tokens of the parts, presets expanded.
fn expand_tokens(parts: &Vec<String>) -> (r: Vec<(String, Option<String>)>)
    ensures
        r@.map_values(|t: (String, Option<String>)| tok_view(t)) == tokens_of(strs(parts@)),
{
    let mut r: Vec<(String, Option<String>)> = Vec::new();
    let mut i: usize = 0;
    while i < parts.len()
        invariant
            i <= parts@.len(),
            r@.map_values(|t: (String, Option<String>)| tok_view(t)) == tokens_of(strs(parts@).take(i as int)),
        decreases parts@.len() - i,
    {
        assert(strs(parts@).take(i + 1).drop_last() =~= strs(parts@).take(i as int));
        let part = parts[i].as_str();
        let ghost r0 = r@.map_values(|t: (String, Option<String>)| tok_view(t));
        match resolve_preset(part) {
            Ok(expanded) => {
                let k = to_ascii_lower(trim_str(part).as_str());
                let label = cat2("preset:", k.as_str());
                let subs = clean_split(expanded, ',');
                let ghost sv = strs(subs@);
                let mut j: usize = 0;
                while j < subs.len()
                    invariant
                        j <= subs@.len(),
                        strs(subs@) == sv,
                        label@ == "preset:"@ + k@,
                        r@.map_values(|t: (String, Option<String>)| tok_view(t)) == r0 + sv.take(j as int).map_values(
                            |x: Seq<char>| (x, Some("preset:"@ + k@)),
                        ),
                    decreases subs@.len() - j,
                {
                    let ghost rv = r@;
                    let tk = (subs[j].clone(), Some(label.clone()));
                    assert(tok_view(tk) == (subs@[j as int]@, Some("preset:"@ + k@)));
                    r.push(tk);
                    assert(r@[r@.len() - 1] == tk);
                    assert(r@.map_values(|t: (String, Option<String>)| tok_view(t)) =~= rv.map_values(
                        |t: (String, Option<String>)| tok_view(t),
                    ).push((subs@[j as int]@, Some("preset:"@ + k@))));
                    assert(sv.take(j + 1).map_values(|x: Seq<char>| (x, Some("preset:"@ + k@))) =~= sv.take(
                        j as int,
                    ).map_values(|x: Seq<char>| (x, Some("preset:"@ + k@))).push((sv[j as int], Some("preset:"@ + k@))));
                    j = j + 1;
                }
                assert(sv.take(sv.len() as int) =~= sv);
            },
            Err(_) => {
                let ghost rv = r@;
                r.push((parts[i].clone(), None));
                assert(r@.map_values(|t: (String, Option<String>)| tok_view(t)) =~= rv.map_values(
                    |t: (String, Option<String>)| tok_view(t),
                ).push((parts@[i as int]@, None)));
            },
        }
        assert(r@.map_values(|t: (String, Option<String>)| tok_view(t)) =~= tokens_of(strs(parts@).take(i + 1)));
        i = i + 1;
    }
    assert(strs(parts@).take(parts@.len() as int) =~= strs(parts@));
    r
}

proof fn lemma_fold_err(toks: Seq<TokenView>, i: int, e: Seq<char>)
    requires
        0 <= i <= toks.len(),
        sel_fold(toks.take(i)) == Err::<SelState, Seq<char>>(e),
    ensures
        sel_fold(toks) == Err::<SelState, Seq<char>>(e),
    decreases toks.len() - i,
{
    if i < toks.len() {
        assert(toks.take(i + 1).drop_last() =~= toks.take(i));
        lemma_fold_err(toks, i + 1, e);
    } else {
        assert(toks.take(i) =~= toks);
    }
}

/// Flags every catalog position of `ix`.
fn flag_all(want: &mut Vec<bool>, ix: &Vec<usize>)
    requires
        old(want)@.len() == 17,
        forall|j: int| 0 <= j < ix@.len() ==> ix@[j] < 17,
    ensures
        final(want)@.len() == 17,
        flagged(final(want)@) == flagged(old(want)@).union(ix@.map_values(|x: usize| x as int).to_set()),
{
    let mut k: usize = 0;
    while k < ix.len()
        invariant
            want@.len() == 17,
            forall|j: int| 0 <= j < ix@.len() ==> ix@[j] < 17,
            k <= ix@.len(),
            flagged(want@) == flagged(old(want)@).union(ix@.map_values(|x: usize| x as int).take(k as int).to_set()),
        decreases ix@.len() - k,
    {
        let ghost w0 = want@;
        want.set(ix[k], true);
        proof {
            let m = ix@.map_values(|x: usize| x as int);
            assert(m.take(k + 1) =~= m.take(k as int).push(ix@[k as int] as int));
            m.take(k as int).lemma_push_to_set_commute(ix@[k as int] as int);
            assert(flagged(want@) =~= flagged(w0).insert(ix@[k as int] as int));
            assert(flagged(want@) =~= flagged(old(want)@).union(m.take(k + 1).to_set()));
        }
        k = k + 1;
    }
    assert(ix@.map_values(|x: usize| x as int).take(ix@.len() as int) =~= ix@.map_values(|x: usize| x as int));
}

/// Applies one selector token to the selection state.
fn apply_token(
    cat: &Vec<SkillFile>,
    want: &mut Vec<bool>,
    labels: &mut Vec<String>,
    seen: &mut Vec<String>,
    part: &String,
    pl: &Option<String>,
) -> (r: Result<(), String>)
    requires
        cat@ == catalog_spec(),
        old(want)@.len() == 17,
        crate::text::is_set(old(seen)@),
    ensures
        final(want)@.len() == 17,
        crate::text::is_set(final(seen)@),
        match r {
            Ok(_) => sel_step(
                (flagged(old(want)@), strs(old(labels)@), strs(old(seen)@).to_set()),
                part@,
                crate::text::opt_view(*pl),
            ) == Ok::<SelState, Seq<char>>((flagged(final(want)@), strs(final(labels)@), strs(final(seen)@).to_set())),
            Err(e) => sel_step(
                (flagged(old(want)@), strs(old(labels)@), strs(old(seen)@).to_set()),
                part@,
                crate::text::opt_view(*pl),
            ) == Err::<SelState, Seq<char>>(e@),
        },
{
    if let Some(l) = pl {
        if !crate::text::set_contains(seen, l.as_str()) {
            let ghost l0 = labels@;
            labels.push(l.clone());
            proof {
                lemma_strs_push(l0, labels@.last());
            }
            crate::text::set_insert(seen, l.clone());
        }
    }
    let ghost w1 = flagged(want@);
    let ghost lab1 = strs(labels@);
    let ghost seen1 = strs(seen@).to_set();
    let norm = replace_char_str(part.as_str(), '\\', '/');
    if contains_char(norm.as_str(), '/') {
        match resolve_path_selector(cat, norm.as_str()) {
            Err(e) => {
                return Err(e);
            },
            Ok(i) => {
                let ghost w0 = want@;
                want.set(i, true);
                assert(flagged(want@) =~= flagged(w0).insert(i as int));
                if pl.is_none() {
                    let ghost l0 = labels@;
                    labels.push(label_of(cat, i));
                    proof {
                        lemma_strs_push(l0, labels@.last());
                    }
                }
                return Ok(());
            },
        }
    }
    match SkillGroup::parse_one(norm.as_str()) {
        Ok(g) => {
            let ms = positions(cat, 0, g, "", "", "");
            flag_all(want, &ms);
            if pl.is_none() {
                let ghost l0 = labels@;
                labels.push(owned(g.as_str()));
                proof {
                    lemma_strs_push(l0, labels@.last());
                }
            }
            Ok(())
        },
        Err(_) => {
            let st = drop_suffix_str(norm.as_str(), ".md");
            let stem = to_ascii_lower(st.as_str());
            let ms = positions(cat, 2, SkillGroup::Core, stem.as_str(), "", "");
            proof {
                lemma_upto_bound(17, stem_is(stem@));
            }
            if ms.len() == 0 {
                Err(cat3(
                    "unknown selector '",
                    part.as_str(),
                    "'; use a group (ui), group/skill (ui/slint), path (04-ui/slint), or preset (dsp-fix|slint-ui|clap-ship|agent-playbook|policy-edit)",
                ))
            } else if ms.len() == 1 {
                let ghost w0 = want@;
                want.set(ms[0], true);
                assert(flagged(want@) =~= flagged(w0).insert(ms@[0] as int));
                if pl.is_none() {
                    let ghost l0 = labels@;
                    labels.push(label_of(cat, ms[0]));
                    proof {
                        lemma_strs_push(l0, labels@.last());
                    }
                }
                Ok(())
            } else {
                let mut v: Vec<String> = Vec::new();
                let mut k: usize = 0;
                while k < ms.len()
                    invariant
                        cat@ == catalog_spec(),
                        forall|j: int| 0 <= j < ms@.len() ==> ms@[j] < 17,
                        k <= ms@.len(),
                        strs(v@) == labels_at(ms@.map_values(|x: usize| x as int)).take(k as int),
                    decreases ms@.len() - k,
                {
                    let ghost v0 = v@;
                    v.push(label_of(cat, ms[k]));
                    proof {
                        lemma_strs_push(v0, v@.last());
                        assert(labels_at(ms@.map_values(|x: usize| x as int)).take(k + 1) =~= strs(v@));
                    }
                    k = k + 1;
                }
                assert(labels_at(ms@.map_values(|x: usize| x as int)).take(ms@.len() as int) =~= labels_at(
                    ms@.map_values(|x: usize| x as int),
                ));
                let opts = join_strings(&v, ", ");
                let mut e = cat3("ambiguous skill '", part.as_str(), "'; disambiguate with group/name: ");
                push_str(&mut e, opts.as_str());
                Err(e)
            }
        },
    }
}

/// The catalog files at flagged positions, in catalog order.
fn files_flagged(cat: &Vec<SkillFile>, want: &Vec<bool>) -> (r: Vec<SkillFile>)
    requires
        cat@ == catalog_spec(),
        want@.len() == 17,
    ensures
        r@ == pick(chosen(flagged(want@))),
{
    let ghost p = chosen(flagged(want@));
    let mut r: Vec<SkillFile> = Vec::new();
    let mut i: usize = 0;
    while i < cat.len()
        invariant
            cat@ == catalog_spec(),
            want@.len() == 17,
            p == chosen(flagged(want@)),
            i <= 17,
            r@ == upto(i as nat, p).map_values(|j: int| catalog_spec()[j]),
        decreases 17 - i,
    {
        assert(p(i as int) == want@[i as int]);
        if want[i] {
            r.push(cat[i]);
        }
        assert(upto((i + 1) as nat, p).map_values(|j: int| catalog_spec()[j]) =~= r@);
        i = i + 1;
    }
    r
}

/// The catalog files of the groups listed, in catalog order.
fn files_of_groups(cat: &Vec<SkillFile>, groups: &[SkillGroup]) -> (r: Vec<SkillFile>)
    requires
        cat@ == catalog_spec(),
    ensures
        r@ == pick(in_groups(groups@)),
{
    let ghost p = in_groups(groups@);
    let mut r: Vec<SkillFile> = Vec::new();
    let mut i: usize = 0;
    while i < cat.len()
        invariant
            cat@ == catalog_spec(),
            p == in_groups(groups@),
            i <= 17,
            r@ == upto(i as nat, p).map_values(|j: int| catalog_spec()[j]),
        decreases 17 - i,
    {
        let mut found = false;
        let mut k: usize = 0;
        while k < groups.len()
            invariant
                cat@ == catalog_spec(),
                i < 17,
                k <= groups@.len(),
                found == exists|j: int| 0 <= j < k && groups@[j] == cat@[i as int].group,
            decreases groups@.len() - k,
        {
            if groups[k] == cat[i].group {
                found = true;
            }
            k = k + 1;
        }
        assert(p(i as int) == found);
        if found {
            r.push(cat[i]);
        }
        assert(upto((i + 1) as nat, p).map_values(|j: int| catalog_spec()[j]) =~= r@);
        i = i + 1;
    }
    r
}

/// Catalog positions whose group is listed.
pub open spec fn in_groups(gs: Seq<SkillGroup>) -> spec_fn(int) -> bool {
    |i: int| gs.contains(group_at(i))
}

/// Applies the tokens in order: the flags and labels they select, or the
/// first failure.
fn run_tokens(cat: &Vec<SkillFile>, toks: &Vec<(String, Option<String>)>) -> (r: Result<(Vec<bool>, Vec<String>), String>)
    requires
        cat@ == catalog_spec(),
    ensures
        match r {
            Ok((want, labels)) => want@.len() == 17 && (sel_fold(toks@.map_values(|t: (String, Option<String>)| tok_view(t))) matches Ok(st)
                && st.0 == flagged(want@) && st.1 == strs(labels@)),
            Err(e) => sel_fold(toks@.map_values(|t: (String, Option<String>)| tok_view(t))) == Err::<SelState, Seq<char>>(e@),
        },
{
    let ghost tv = toks@.map_values(|t: (String, Option<String>)| tok_view(t));
    let mut want: Vec<bool> = Vec::new();
    let mut k: usize = 0;
    while k < 17
        invariant
            k <= 17,
            want@.len() == k,
            forall|j: int| 0 <= j < k ==> !want@[j],
        decreases 17 - k,
    {
        want.push(false);
        k = k + 1;
    }
    let mut labels: Vec<String> = Vec::new();
    let mut seen: Vec<String> = Vec::new();
    assert(flagged(want@) =~= Set::<int>::empty());
    assert(strs(labels@) =~= Seq::<Seq<char>>::empty());
    assert(strs(seen@).to_set() =~= Set::<Seq<char>>::empty());
    let mut t: usize = 0;
    while t < toks.len()
        invariant
            cat@ == catalog_spec(),
            tv == toks@.map_values(|t: (String, Option<String>)| tok_view(t)),
            t <= toks@.len(),
            want@.len() == 17,
            crate::text::is_set(seen@),
            sel_fold(tv.take(t as int)) == Ok::<SelState, Seq<char>>(
                (flagged(want@), strs(labels@), strs(seen@).to_set()),
            ),
        decreases toks@.len() - t,
    {
        assert(tv.take(t + 1).drop_last() =~= tv.take(t as int));
        assert(tv.take(t + 1).last() == tok_view(toks@[t as int]));
        match apply_token(cat, &mut want, &mut labels, &mut seen, &toks[t].0, &toks[t].1) {
            Err(e) => {
                proof {
                    lemma_fold_err(tv, t + 1, e@);
                }
                return Err(e);
            },
            Ok(_) => {},
        }
        t = t + 1;
    }
    assert(tv.take(toks@.len() as int) =~= tv);
    Ok((want, labels))
}

/// Parses a `--only` / `--preset` spec: groups, singles, presets, `all`
/// (empty means `core`).  Files come deduplicated, in catalog order.
pub fn parse_selection(spec: &str) -> (r: Result<Selection, String>)
    ensures
        match r {
            Ok(sel) => selection_of(spec@) == Ok::<(Seq<SkillFile>, Seq<Seq<char>>), Seq<char>>(
                (sel.files@, strs(sel.labels@)),
            ),
            Err(e) => selection_of(spec@) == Err::<(Seq<SkillFile>, Seq<Seq<char>>), Seq<char>>(e@),
        },
{
    let cat = catalog();
    let parts = clean_split(spec, ',');
    if parts.len() == 0 {
        let mut gs: Vec<SkillGroup> = Vec::new();
        gs.push(SkillGroup::Core);
        assert(gs@ =~= seq![SkillGroup::Core]);
        let files = files_of_groups(&cat, gs.as_slice());
        let mut labels: Vec<String> = Vec::new();
        labels.push(owned("core"));
        assert(strs(labels@) =~= seq!["core"@]);
        return Ok(Selection { files, labels });
    }
    let mut any_all = false;
    let mut i: usize = 0;
    proof {
        reveal_strlit("all");
        assert(lower("all"@) =~= "all"@);
    }
    while i < parts.len()
        invariant
            i <= parts@.len(),
            lower("all"@) == "all"@,
            any_all == exists|j: int| 0 <= j < i && lower(#[trigger] strs(parts@)[j]) == "all"@,
        decreases parts@.len() - i,
    {
        assert(strs(parts@)[i as int] == parts@[i as int]@);
        if eq_ignore_case(parts[i].as_str(), "all") {
            any_all = true;
        }
        i = i + 1;
    }
    if any_all {
        if parts.len() != 1 {
            return Err(owned("'all' cannot be mixed with other selectors"));
        }
        let mut labels: Vec<String> = Vec::new();
        labels.push(owned("all"));
        assert(strs(labels@) =~= seq!["all"@]);
        return Ok(Selection { files: cat, labels });
    }
    let toks = expand_tokens(&parts);
    let (want, labels) = match run_tokens(&cat, &toks) {
        Ok(x) => x,
        Err(e) => {
            return Err(e);
        },
    };
    let files = files_flagged(&cat, &want);
    if files.len() == 0 {
        return Err(owned("no skills matched selection"));
    }
    Ok(Selection { files, labels })
}

/// Skills of the given groups, in catalog order.
pub fn select_owned(groups: &[SkillGroup]) -> (r: Vec<SkillFile>)
    ensures
        r@ == pick(in_groups(groups@)),
{
    let cat = catalog();
    files_of_groups(&cat, groups)
}

/// Distinct groups, in order of first appearance.
pub open spec fn distinct_groups(fs: Seq<SkillFile>) -> Seq<SkillGroup>
    decreases fs.len(),
{
    if fs.len() == 0 {
        Seq::empty()
    } else if distinct_groups(fs.drop_last()).contains(fs.last().group) {
        distinct_groups(fs.drop_last())
    } else {
        distinct_groups(fs.drop_last()).push(fs.last().group)
    }
}

impl SkillGroup {
    /// The groups of a selection (distinct, in catalog order).
    pub fn parse_list(spec: &str) -> (r: Result<Vec<SkillGroup>, String>)
        ensures
            match r {
                Ok(gs) => selection_of(spec@) is Ok && gs@ == distinct_groups(selection_of(spec@)->Ok_0.0),
                Err(e) => selection_of(spec@) == Err::<(Seq<SkillFile>, Seq<Seq<char>>), Seq<char>>(e@),
            },
    {
        let sel = match parse_selection(spec) {
            Ok(s) => s,
            Err(e) => {
                return Err(e);
            },
        };
        let mut groups: Vec<SkillGroup> = Vec::new();
        let mut i: usize = 0;
        while i < sel.files.len()
            invariant
                i <= sel.files@.len(),
                groups@ == distinct_groups(sel.files@.take(i as int)),
            decreases sel.files@.len() - i,
        {
            assert(sel.files@.take(i + 1).drop_last() =~= sel.files@.take(i as int));
            let g = sel.files[i].group;
            let mut found = false;
            let mut k: usize = 0;
            while k < groups.len()
                invariant
                    k <= groups@.len(),
                    found == exists|j: int| 0 <= j < k && groups@[j] == g,
                decreases groups@.len() - k,
            {
                if groups[k] == g {
                    found = true;
                }
                k = k + 1;
            }
            if !found {
                groups.push(g);
            }
            i = i + 1;
        }
        assert(sel.files@.take(sel.files@.len() as int) =~= sel.files@);
        Ok(groups)
    }
}

/// Options of a skills sync into a workspace.
pub struct SyncOptions {
    pub selection: Selection,
    pub force: bool,
    pub output_dir: String,
}

/// A sync needs a selection with some file: otherwise it fails with
/// `no skills matched selection`.
pub fn check_sync_selection(sel: &Selection) -> (r: Result<(), String>)
    ensures
        match r {
            Ok(()) => sel.files@.len() > 0,
            Err(e) => sel.files@.len() == 0 && e@ == "no skills matched selection"@,
        },
{
    if sel.files.len() == 0 {
        Err(owned("no skills matched selection"))
    } else {
        Ok(())
    }
}

/// A selected file is copied unless it is already there and `--force` is off.
pub fn should_copy(present: bool, force: bool) -> (r: bool)
    ensures
        r == (!present || force),
{
    !present || force
}

/// The closing lines of a skills sync.
pub open spec fn sync_summary_text(written: nat, skipped: nat, out: Seq<char>, labels: Seq<Seq<char>>) -> Seq<char> {
    "skills sync: "@ + crate::text::dec(written) + " written, "@ + crate::text::dec(skipped)
        + " skipped (use --force to overwrite) → "@ + out + "/skills/\n  selection: "@ + join(labels, ", "@) + "\n"@
}

/// The closing lines of a skills sync: how many files were written and
/// skipped, where, and which selectors chose them.
pub fn sync_summary(written: usize, skipped: usize, output_dir: &str, labels: &Vec<String>) -> (r: String)
    ensures
        r@ == sync_summary_text(written as nat, skipped as nat, output_dir@, strs(labels@)),
{
    let mut r = owned("skills sync: ");
    crate::text::push_usize(&mut r, written);
    push_str(&mut r, " written, ");
    crate::text::push_usize(&mut r, skipped);
    push_str(&mut r, " skipped (use --force to overwrite) → ");
    push_str(&mut r, output_dir);
    push_str(&mut r, "/skills/\n  selection: ");
    let j = join_strings(labels, ", ");
    push_str(&mut r, j.as_str());
    push_str(&mut r, "\n");
    r
}

// ---------------------------------------------------------------------------
// The listing of `agal skills list`
// ---------------------------------------------------------------------------

/// Head of the skills listing, up to the preset lines.
pub const LIST_HEAD: &'static str = "agal skills (embedded in tool; sync into workspace with `agal skills sync`)\n\nselectors: group | group/skill | numbered-path/skill | stem (if unique) | preset | all\n\ngroups: core (default) | policy | frameworks | formats | ui | migrations | agents\n\npresets (task loadouts):\n";

/// Tail of the skills listing: usage examples.
pub const LIST_EXAMPLES: &'static str = "\nexamples:\n  agal skills sync                      # core only\n  agal skills sync --only policy        # whole group\n  agal skills sync --only ui/slint      # single skill\n  agal skills sync --preset slint-ui    # core + slint\n  agal skills sync --only slint-ui      # same (preset as --only token)\n  agal skills sync --only core,ui/slint,formats/clap\n  agal skills sync --only all --force\n";

/// `s` padded with blanks on the right to at least `w` characters.
pub open spec fn pad_right(s: Seq<char>, w: nat) -> Seq<char> {
    if s.len() < w {
        s + Seq::new((w - s.len()) as nat, |i: int| ' ')
    } else {
        s
    }
}

/// One preset line: name padded to 16, then what it expands to.
pub open spec fn preset_line(name: Seq<char>) -> Seq<char> {
    "  "@ + pad_right(name, 16) + " → "@ + match preset_of(lower(trim(name))) {
        Some(e) => e,
        None => "?"@,
    } + "\n"@
}

/// The preset lines, in order.
pub open spec fn preset_lines(ns: Seq<Seq<char>>) -> Seq<char>
    decreases ns.len(),
{
    if ns.len() == 0 {
        Seq::empty()
    } else {
        preset_lines(ns.drop_last()) + preset_line(ns.last())
    }
}

/// One catalog line, led by a `[group]` header when the group changes.
pub open spec fn entry_text(f: SkillFile, prev: Option<SkillGroup>) -> Seq<char> {
    (if prev == Some(f.group) {
        Seq::empty()
    } else {
        "["@ + f.group.name() + "]\n"@
    }) + "  "@ + f.rel_path@ + "   ("@ + f.group.name() + " / "@ + stem_of(f.rel_path@) + ")\n"@
}

/// The catalog lines of `fs`, grouped.
pub open spec fn catalog_text(fs: Seq<SkillFile>) -> Seq<char>
    decreases fs.len(),
{
    if fs.len() == 0 {
        Seq::empty()
    } else {
        catalog_text(fs.drop_last()) + entry_text(
            fs.last(),
            if fs.len() > 1 {
                Some(fs[fs.len() - 2].group)
            } else {
                None
            },
        )
    }
}

/// The `agal skills list` text: selectors, groups, presets, the catalog by
/// group, and examples.
pub open spec fn listing() -> Seq<char> {
    LIST_HEAD@ + preset_lines(PRESET_NAMES@.map_values(|n: &str| n@)) + "\n"@ + catalog_text(catalog_spec())
        + LIST_EXAMPLES@
}

fn push_padded(s: &mut String, t: &str, w: usize)
    ensures
        final(s)@ == old(s)@ + pad_right(t@, w as nat),
{
    push_str(s, t);
    let n = chars_of(t).len();
    let mut k: usize = n;
    while k < w
        invariant
            n == t@.len(),
            n <= k <= w || (k == n && n >= w),
            s@ == old(s)@ + t@ + Seq::new((k - n) as nat, |i: int| ' '),
        decreases w - k,
    {
        crate::text::push_char(s, ' ');
        assert(Seq::new((k + 1 - n) as nat, |i: int| ' ') =~= Seq::new((k - n) as nat, |i: int| ' ').push(' '));
        k = k + 1;
    }
    if n >= w {
        assert(Seq::new(0, |i: int| ' ') =~= Seq::<char>::empty());
    } else {
        assert(k == w);
    }
    assert(s@ =~= old(s)@ + pad_right(t@, w as nat));
}

fn push_entry(s: &mut String, f: &SkillFile, prev: Option<SkillGroup>)
    ensures
        final(s)@ == old(s)@ + entry_text(*f, prev),
{
    let g = f.group;
    if prev != Some(g) {
        push_str(s, "[");
        push_str(s, g.as_str());
        push_str(s, "]\n");
    }
    push_str(s, "  ");
    push_str(s, f.rel_path);
    push_str(s, "   (");
    push_str(s, g.as_str());
    push_str(s, " / ");
    let st = f.stem();
    push_str(s, st.as_str());
    push_str(s, ")\n");
}

/// The `agal skills list` text (see [`listing`]).
pub fn list_text() -> (s: String)
    ensures
        s@ == listing(),
{
    let mut s = owned(LIST_HEAD);
    let names = PRESET_NAMES;
    let ghost ns = PRESET_NAMES@.map_values(|n: &str| n@);
    let mut i: usize = 0;
    while i < 5
        invariant
            i <= 5,
            names@ == PRESET_NAMES@,
            ns == PRESET_NAMES@.map_values(|n: &str| n@),
            ns.len() == 5,
            s@ == LIST_HEAD@ + preset_lines(ns.take(i as int)),
        decreases 5 - i,
    {
        let name = names[i];
        assert(ns.take(i + 1).drop_last() =~= ns.take(i as int));
        assert(ns.take(i + 1).last() == name@);
        push_str(&mut s, "  ");
        push_padded(&mut s, name, 16);
        push_str(&mut s, " → ");
        match resolve_preset(name) {
            Ok(e) => push_str(&mut s, e),
            Err(_) => push_str(&mut s, "?"),
        }
        push_str(&mut s, "\n");
        i = i + 1;
    }
    assert(ns.take(5) =~= ns);
    push_str(&mut s, "\n");
    let cat = catalog();
    let ghost base = s@;
    let mut current: Option<SkillGroup> = None;
    let mut j: usize = 0;
    while j < cat.len()
        invariant
            j <= cat@.len(),
            s@ == base + catalog_text(cat@.take(j as int)),
            current == if j > 0 {
                Some(cat@[j - 1].group)
            } else {
                None::<SkillGroup>
            },
        decreases cat@.len() - j,
    {
        let ghost t = cat@.take(j + 1);
        assert(t.drop_last() =~= cat@.take(j as int));
        assert(t.last() == cat@[j as int]);
        if j > 0 {
            assert(t[t.len() - 2] == cat@[j - 1]);
        }
        push_entry(&mut s, &cat[j], current);
        current = Some(cat[j].group);
        j = j + 1;
    }
    assert(cat@.take(cat@.len() as int) =~= cat@);
    push_str(&mut s, LIST_EXAMPLES);
    s
}

} // verus!
