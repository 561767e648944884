//! Audio-plugin workspace orientation: the structural graph of a Cargo
//! workspace (plugins, crates, edges), its findings and health gate, the
//! graph delta between runs, curated skill selection, and the markdown
//! views rendered from the graph.
//!
//! Every string set of the graph is a strictly sorted `Vec<String>` and every
//! string-keyed map a strictly sorted `Vec<(String, V)>` (see [`text`]).
use vstd::prelude::*;

use crate::text::{dec, is_set, lookup, opt_view, owned, push_str, push_usize, strs};

pub mod text;
pub mod agent;
pub mod ast;
pub mod assemble;
pub mod config;
pub mod delta;
pub mod findings;
pub mod guide;
pub mod html;
pub mod manifest;
pub mod syntax;
pub mod notes;
pub mod registry;
pub mod skill_texts;
pub mod skills;
pub mod tool_hints;



verus! {

/// Default workspace output folder (`agal/`).
pub const DEFAULT_OUTPUT_DIR: &'static str = "agal";

/// One taxonomy entry surfaced in the graph.
#[derive(Debug, Clone)]
pub struct Framework {
    pub id: String,
    pub name: String,
    pub kind: String,
    pub migration_target: Option<String>,
    pub notes: Option<String>,
}

/// A Cargo dependency as shown in the graph (name, version, source hint).
#[derive(Debug, Clone)]
pub struct DependencyDetail {
    pub name: String,
    pub version: Option<String>,
    pub source: Option<String>,
}

/// A workspace member: plugin, crate or other member.
#[derive(Debug, Clone)]
pub struct Node {
    pub id: String,
    pub name: String,
    pub kind: String,
    pub description: Option<String>,
    pub version: Option<String>,
    pub path: String,
    pub frameworks: Vec<String>,
    pub migration_status: Option<String>,
    /// Workspace-internal dependency node ids (sorted set).
    pub internal_deps: Vec<String>,
    /// Compact external dependency flags (sorted set).
    pub external_flags: Vec<String>,
    /// Full Cargo dependency names (sorted set; only when verbose).
    pub dependency_names: Vec<String>,
    pub dependency_details: Vec<DependencyDetail>,
    pub ast_summary: Option<ast::AstSummary>,
}

/// A directed edge between two node ids.
#[derive(Debug, Clone)]
pub struct Edge {
    pub from: String,
    pub to: String,
    pub kind: String,
    pub feature: Option<String>,
    pub note: Option<String>,
}

/// Per-migration counts.
#[derive(Debug, Clone)]
pub struct MigrationDetail {
    pub from: String,
    pub to: String,
    pub legacy_count: usize,
    pub migrated_count: usize,
    pub legacy_plugins: Vec<String>,
}

/// Migration totals over all plugins.
#[derive(Debug, Clone)]
pub struct MigrationSummary {
    pub total_plugins: usize,
    pub total_legacy: usize,
    pub total_migrated: usize,
    /// Migration id → detail (sorted map).
    pub migrations: Vec<(String, MigrationDetail)>,
}

/// The workspace graph written as `agal.json`.
#[derive(Debug, Clone)]
pub struct Audiolabs {
    pub version: String,
    pub generated_at: String,
    pub project_root: String,
    pub project_name: String,
    /// Framework ids detected on at least one node.
    pub used_frameworks: Vec<String>,
    /// Taxonomy entries for the used frameworks (all with `--verbose`).
    pub frameworks: Vec<Framework>,
    pub nodes: Vec<Node>,
    pub edges: Vec<Edge>,
    pub findings: Vec<findings::Finding>,
    /// Findings matched by `[[suppress]]` and omitted from `findings`.
    pub findings_suppressed: usize,
    pub migration_summary: MigrationSummary,
    /// Rule id → value (sorted map).
    pub rules: Vec<(String, String)>,
    /// Diff against the previous graph, when one was found.
    pub delta: Option<delta::GraphDelta>,
}

/// Options of one generate run.
#[derive(Debug, Clone, Default)]
pub struct GenerateOptions {
    pub watch_mode: bool,
    pub install_hook: bool,
    pub output_dir_override: Option<String>,
    pub verbose: bool,
    pub agent_only: bool,
    pub plugin_filter: Option<String>,
}

// ---------------------------------------------------------------------------
// Entry points
// ---------------------------------------------------------------------------

/// Scans the workspace read into `input` into its graph (no file writes).
pub fn scan(input: assemble::WorkspaceInput, config: &config::ProjectConfig, verbose: bool) -> (g: Audiolabs)
    requires
        config.wf(),
        input.registry matches Some(r) ==> r.wf(),
        assemble::members_ok(input.members@),
        config.migrations@.len() * input.members@.len() <= usize::MAX,
    ensures
        assemble::graph_ok(input, *config, verbose, g),
{
    assemble::build_audiolabs(input, config, verbose)
}

fn params_total_fits(pf: &Vec<(String, Vec<ast::ParamField>)>) -> (r: bool)
    ensures
        r == (findings::total_params(pf@) <= usize::MAX),
{
    let mut total: usize = 0;
    let mut i: usize = 0;
    while i < pf.len()
        invariant
            i <= pf@.len(),
            total == findings::total_params(pf@.take(i as int)),
        decreases pf@.len() - i,
    {
        assert(pf@.take(i + 1).drop_last() =~= pf@.take(i as int));
        assert(pf@.take(i + 1).last() == pf@[i as int]);
        let n = pf[i].1.len();
        assert(findings::total_params(pf@.take(i + 1)) == total + n);
        if total > usize::MAX - n {
            proof {
                findings::lemma_total_params_prefix(pf@, i + 1);
            }
            return false;
        }
        total = total + n;
        i = i + 1;
    }
    assert(pf@.take(pf@.len() as int) =~= pf@);
    true
}

fn summary_fits(a: &ast::AstSummary) -> (r: bool)
    ensures
        r == (text::is_map(a.features@) && is_set(a.plugin_formats@) && findings::counts_fit(*a)),
{
    if !text::keys_sorted(&a.features) || !text::texts_sorted(&a.plugin_formats) {
        return false;
    }
    params_total_fits(&a.params_fields) && a.params_unbound.len() <= usize::MAX / 100
}

fn nodes_fit(ns: &Vec<Node>) -> (r: bool)
    ensures
        r == delta::params_fit(ns@),
{
    let mut i: usize = 0;
    while i < ns.len()
        invariant
            i <= ns@.len(),
            forall|j: int| 0 <= j < i ==> #[trigger] delta::params_of(ns@[j]) <= usize::MAX,
        decreases ns@.len() - i,
    {
        let ok = match &ns[i].ast_summary {
            Some(a) => params_total_fits(&a.params_fields),
            None => true,
        };
        if !ok {
            assert(!(delta::params_of(ns@[i as int]) <= usize::MAX));
            return false;
        }
        i = i + 1;
    }
    true
}

/// Whether [`attach_delta`] can count the parameters of both graphs.
pub fn delta_ready(graph: &Audiolabs, previous: &Option<Audiolabs>) -> (r: bool)
    ensures
        r == (delta::params_fit(graph.nodes@) && (previous matches Some(p) ==> delta::params_fit(p.nodes@))),
{
    nodes_fit(&graph.nodes) && match previous {
        Some(p) => nodes_fit(&p.nodes),
        None => true,
    }
}

/// Whether the workspace input and config meet what [`scan`] and
/// [`doctor`] need: sorted maps and sets, and counts that fit in `usize`.
pub fn scan_ready(input: &assemble::WorkspaceInput, config: &config::ProjectConfig) -> (r: bool)
    ensures
        r == (config.wf() && (input.registry matches Some(g) ==> g.wf()) && assemble::members_ok(input.members@)
            && config.migrations@.len() * input.members@.len() <= usize::MAX),
{
    if !text::keys_sorted(&config.frameworks) || !text::keys_sorted(&config.migrations) || !text::keys_sorted(
        &config.rules,
    ) {
        return false;
    }
    match &input.registry {
        Some(g) => {
            if !text::keys_sorted(&g.frameworks) || !text::keys_sorted(&g.ui) || !text::keys_sorted(&g.formats) {
                return false;
            }
        },
        None => {},
    }
    let ms = &input.members;
    let mut i: usize = 0;
    while i < ms.len()
        invariant
            i <= ms@.len(),
            ms@ == input.members@,
            forall|j: int| 0 <= j < i ==> assemble::members_ok(seq![#[trigger] ms@[j]]),
        decreases ms@.len() - i,
    {
        if !summary_fits(&ms[i].ast) {
            proof {
                if assemble::members_ok(ms@) {
                    assert(text::is_map(ms@[i as int].ast.features@));
                }
            }
            return false;
        }
        assert(assemble::members_ok(seq![ms@[i as int]]));
        i = i + 1;
    }
    assert(assemble::members_ok(ms@)) by {
        assert forall|j: int| 0 <= j < ms@.len() implies text::is_map((#[trigger] ms@[j]).ast.features@) && is_set(ms@[j].ast.plugin_formats@) && findings::counts_fit(ms@[j].ast) by {
            assert(assemble::members_ok(seq![ms@[j]]));
            assert(seq![ms@[j]][0] == ms@[j]);
        }
    }
    match config.migrations.len().checked_mul(ms.len()) {
        Some(_) => true,
        None => false,
    }
}

/// The probes of a tool status match the binaries found on `PATH`.
pub open spec fn status_of(located: Seq<(String, String)>, st: tool_hints::ToolStatus) -> bool {
    &&& tool_hints::probe_of("cargo-clippy"@, located, st.clippy)
    &&& tool_hints::probe_of("clap-validator"@, located, st.clap_validator)
    &&& st.symbol_tools@.len() == tool_hints::optional_symbol_tools_spec().len()
    &&& forall|i: int| 0 <= i < st.symbol_tools@.len() ==> tool_hints::probe_of(
        tool_hints::optional_symbol_tools_spec()[i],
        located,
        #[trigger] st.symbol_tools@[i],
    )
}

/// The `agal doctor` report: the external tool checklist for the binaries
/// found on `PATH` (name → path) and the graph-aware hints of the scanned
/// workspace (scanned without verbose detail).
pub fn doctor(input: assemble::WorkspaceInput, config: &config::ProjectConfig, located: &Vec<(String, String)>) -> (s: String)
    requires
        config.wf(),
        input.registry matches Some(r) ==> r.wf(),
        assemble::members_ok(input.members@),
        config.migrations@.len() * input.members@.len() <= usize::MAX,
    ensures
        exists|g: Audiolabs, st: tool_hints::ToolStatus|
            assemble::graph_ok(input, *config, false, g) && status_of(located@, st) && s@ == tool_hints::doctor_report(
                input.project_root@,
                g.nodes@,
                st,
            ),
{
    let root = input.project_root.clone();
    let ghost inp = input;
    let graph = scan(input, config, false);
    let status = tool_hints::probe_tools(located);
    let s = tool_hints::render_doctor(root.as_str(), &graph.nodes, &status);
    assert(assemble::graph_ok(inp, *config, false, graph) && status_of(located@, status));
    s
}

/// What one `agal` run does.
#[derive(Debug, Clone, Copy, PartialEq, Eq, Structural)]
pub enum GenerateStep {
    /// Install the post-commit hook, nothing else.
    InstallHook,
    /// Regenerate on every relevant source change.
    Watch,
    /// Generate once.
    OneShot,
}

/// The step a run takes: installing the hook wins over watching, which wins
/// over a single generate.
pub fn generate(options: &GenerateOptions) -> (r: GenerateStep)
    ensures
        r == if options.install_hook {
            GenerateStep::InstallHook
        } else if options.watch_mode {
            GenerateStep::Watch
        } else {
            GenerateStep::OneShot
        },
{
    if options.install_hook {
        GenerateStep::InstallHook
    } else if options.watch_mode {
        GenerateStep::Watch
    } else {
        GenerateStep::OneShot
    }
}

/// The output folder of a run: the `-o` override, else `output_dir` from
/// the config, else `agal`.
pub fn output_dir_for(options: &GenerateOptions, config: &config::ProjectConfig) -> (r: String)
    ensures
        r@ == match options.output_dir_override {
            Some(o) => o@,
            None => match config.output_dir {
                Some(c) => c@,
                None => DEFAULT_OUTPUT_DIR@,
            },
        },
{
    match &options.output_dir_override {
        Some(o) => o.clone(),
        None => match &config.output_dir {
            Some(c) => c.clone(),
            None => owned(DEFAULT_OUTPUT_DIR),
        },
    }
}

/// Stores the delta against the previous graph on `graph`; the previous
/// graph's own stored delta is dropped first, so deltas never nest.
pub fn attach_delta(graph: &mut Audiolabs, previous: Option<Audiolabs>)
    requires
        delta::params_fit(old(graph).nodes@),
        previous matches Some(p) ==> delta::params_fit(p.nodes@),
    ensures
        *final(graph) == (Audiolabs { delta: final(graph).delta, ..*old(graph) }),
        final(graph).delta matches Some(d) && delta::delta_of(
            match previous {
                Some(p) => Some(Audiolabs { delta: None, ..p }),
                None => None,
            },
            *old(graph),
            d,
        ),
{
    let prev: Option<Audiolabs> = match previous {
        Some(p) => {
            let mut p = p;
            p.delta = None;
            Some(p)
        },
        None => None,
    };
    let d = match &prev {
        Some(p) => delta::compute(Some(p), graph),
        None => delta::compute(None, graph),
    };
    graph.delta = Some(d);
}

/// The graph as written to `agal.json`: without verbose detail, nodes drop
/// their dependency names and details.
pub fn slim_for_json(graph: &mut Audiolabs, verbose: bool)
    ensures
        final(graph).nodes@.len() == old(graph).nodes@.len(),
        forall|i: int| 0 <= i < final(graph).nodes@.len() ==> #[trigger] final(graph).nodes@[i] == if verbose {
            old(graph).nodes@[i]
        } else {
            Node { dependency_details: final(graph).nodes@[i].dependency_details, dependency_names: final(graph).nodes@[i].dependency_names, ..old(graph).nodes@[i] }
        },
        !verbose ==> forall|i: int| 0 <= i < final(graph).nodes@.len() ==> #[trigger] final(graph).nodes@[i].dependency_details@.len()
            == 0 && final(graph).nodes@[i].dependency_names@.len() == 0,
        *final(graph) == (Audiolabs { nodes: final(graph).nodes, ..*old(graph) }),
{
    if verbose {
        return;
    }
    let ghost n0 = graph.nodes@;
    let mut nodes: Vec<Node> = Vec::new();
    std::mem::swap(&mut nodes, &mut graph.nodes);
    let mut out: Vec<Node> = Vec::new();
    while nodes.len() > 0
        invariant
            out@.len() <= n0.len(),
            nodes@ == n0.skip(out@.len() as int),
            forall|j: int| 0 <= j < out@.len() ==> #[trigger] out@[j] == (Node { dependency_details: out@[j].dependency_details, dependency_names: out@[j].dependency_names, ..n0[j] }),
            forall|j: int| 0 <= j < out@.len() ==> #[trigger] out@[j].dependency_details@.len() == 0 && out@[j].dependency_names@.len() == 0,
        decreases nodes@.len(),
    {
        let ghost k: int = out@.len() as int;
        let mut n = nodes.remove(0);
        assert(n == n0[k]);
        assert(nodes@ =~= n0.skip(k + 1));
        n.dependency_details = Vec::new();
        n.dependency_names = Vec::new();
        out.push(n);
    }
    graph.nodes = out;
}

/// The plugin slice names of a run, from the `--plugin` filter and the
/// `<name>.slice.json` files already in the output folder.
pub open spec fn slice_set(filter: Option<Seq<char>>, files: Seq<Seq<char>>) -> Set<Seq<char>> {
    (match filter {
        Some(f) => set![f],
        None => Set::empty(),
    }).union(
        Set::new(
            |x: Seq<char>|
                exists|i: int|
                    0 <= i < files.len() && text::ends_with(#[trigger] files[i], ".slice.json"@) && x == text::drop_suffix(
                        files[i],
                        ".slice.json"@,
                    ) && x.len() > 0,
        ),
    )
}

/// Slice names to (re)write, as a sorted set.
pub fn slice_names(filter: Option<&str>, files: &Vec<String>) -> (r: Vec<String>)
    ensures
        is_set(r@),
        strs(r@).to_set() == slice_set(
            match filter {
                Some(f) => Some(f@),
                None => None,
            },
            strs(files@),
        ),
{
    let ghost fv = strs(files@);
    let ghost fo = match filter {
        Some(f) => Some(f@),
        None => None,
    };
    let mut r: Vec<String> = Vec::new();
    match filter {
        Some(f) => text::set_insert(&mut r, owned(f)),
        None => {},
    }
    let ghost base = strs(r@).to_set();
    assert(base =~= match fo {
        Some(f) => set![f],
        None => Set::<Seq<char>>::empty(),
    });
    let mut i: usize = 0;
    while i < files.len()
        invariant
            i <= files@.len(),
            fv == strs(files@),
            is_set(r@),
            strs(r@).to_set() == base.union(
                Set::new(
                    |x: Seq<char>|
                        exists|j: int|
                            0 <= j < i && text::ends_with(#[trigger] fv[j], ".slice.json"@) && x == text::drop_suffix(
                                fv[j],
                                ".slice.json"@,
                            ) && x.len() > 0,
                ),
            ),
        decreases files@.len() - i,
    {
        let f = files[i].as_str();
        let ghost before = strs(r@).to_set();
        if text::ends_with_str(f, ".slice.json") {
            let stem = text::drop_suffix_str(f, ".slice.json");
            if text::chars_of(stem.as_str()).len() > 0 {
                text::set_insert(&mut r, stem);
            }
        }
        assert(fv[i as int] == files@[i as int]@);
        assert(strs(r@).to_set() =~= base.union(
            Set::new(
                |x: Seq<char>|
                    exists|j: int|
                        0 <= j < i + 1 && text::ends_with(#[trigger] fv[j], ".slice.json"@) && x == text::drop_suffix(
                            fv[j],
                            ".slice.json"@,
                        ) && x.len() > 0,
            ),
        ));
        i = i + 1;
    }
    assert(strs(r@).to_set() =~= slice_set(fo, fv));
    r
}

/// Report lines of the migrations with legacy plugins, each followed by its
/// legacy plugins.
pub open spec fn mig_report(ms: Seq<(String, MigrationDetail)>) -> Seq<Seq<char>>
    decreases ms.len(),
{
    if ms.len() == 0 {
        Seq::empty()
    } else {
        let id = ms.last().0@;
        let d = ms.last().1;
        mig_report(ms.drop_last()) + if d.legacy_count > 0 {
            seq![
                "  "@ + id + ": "@ + dec(d.legacy_count as nat) + " legacy ("@ + d.from@ + "), "@ + dec(
                    d.migrated_count as nat,
                ) + " migrated ("@ + d.to@ + ")"@,
            ] + strs(d.legacy_plugins@).map_values(|p: Seq<char>| "    - "@ + p)
        } else {
            Seq::empty()
        }
    }
}

/// The delta line of the run report.
pub open spec fn delta_report(d: delta::GraphDelta) -> Seq<char> {
    if d.first_run {
        "  delta: first run (no previous graph)"@
    } else if delta::empty_delta(d) {
        "  delta: no structural changes"@
    } else {
        "  delta: +"@ + dec(d.added_nodes@.len()) + " nodes -"@ + dec(d.removed_nodes@.len()) + " nodes ~"@ + dec(
            d.changed_nodes@.len(),
        ) + " nodes · +"@ + dec(d.added_edges@.len()) + " edges -"@ + dec(d.removed_edges@.len()) + " edges · +"@
            + dec(d.new_findings@.len()) + " findings -"@ + dec(d.resolved_findings@.len()) + " resolved"@
    }
}

/// Totals, health, severity counts and muted findings of a run.
pub open spec fn report_totals(g: Audiolabs, rules: nat, out: Seq<char>, root: Seq<char>) -> Seq<Seq<char>> {
    let fs = findings::fviews(g.findings@);
    let ms = g.migration_summary;
    seq![
        "agal v"@ + agent::AGAL_VERSION@ + " generated for "@ + g.project_name@ + " in "@ + root + "/"@ + out,
        "  "@ + dec(g.nodes@.len()) + " nodes, "@ + dec(g.edges@.len()) + " edges, "@ + dec(ms.total_plugins as nat)
            + " plugins, "@ + dec(g.findings@.len()) + " findings"@,
        "  health: "@ + findings::health_of(fs).name(),
    ] + (if fs.len() > 0 {
        seq![
            "  findings: error="@ + dec(findings::count_sev(fs, findings::Severity::Error)) + " warn="@ + dec(
                findings::count_sev(fs, findings::Severity::Warn),
            ) + " info="@ + dec(findings::count_sev(fs, findings::Severity::Info)),
        ]
    } else {
        Seq::empty()
    }) + if g.findings_suppressed > 0 || rules > 0 {
        seq![
            "  suppress: "@ + dec(g.findings_suppressed as nat) + " finding(s) muted ("@ + dec(rules)
                + " rule(s) in config)"@,
        ]
    } else {
        Seq::empty()
    }
}

/// Open migrations, or the completed-migrations line.
pub open spec fn report_migrations(ms: MigrationSummary) -> Seq<Seq<char>> {
    if ms.total_legacy > 0 {
        mig_report(ms.migrations@)
    } else if ms.total_migrated > 0 {
        seq!["  migrations: complete ("@ + dec(ms.total_migrated as nat) + " plugins on target adapters)"@]
    } else {
        Seq::empty()
    }
}

/// Where the outputs went.
pub open spec fn report_paths(out: Seq<char>, notes: nat) -> Seq<Seq<char>> {
    seq![
        "  agal: "@ + out + "/AGAL.md"@,
        "  agent map: "@ + out + "/agal.agent.md"@,
        "  notes: "@ + out + "/notes/ ("@ + dec(notes) + " files)"@,
        "  guide: "@ + out + "/Cheatsheet.md"@,
        "  skills: not auto-copied — run `agal skills sync` (default: core)"@,
    ]
}

/// The lines printed after a generate run: totals, health, severity counts,
/// muted findings, open migrations, where things were written, and the
/// delta.
pub open spec fn report_lines(g: Audiolabs, rules: nat, out: Seq<char>, root: Seq<char>, notes: nat) -> Seq<Seq<char>> {
    report_totals(g, rules, out, root) + report_migrations(g.migration_summary) + report_paths(out, notes) + match g.delta {
        Some(d) => seq![delta_report(d)],
        None => Seq::empty(),
    }
}

fn push_line(v: &mut Vec<String>, x: String)
    ensures
        strs(final(v)@) == strs(old(v)@).push(x@),
{
    agent::push_item(v, x);
}

fn count_of(m: &Vec<(String, usize)>, k: &str) -> (n: usize)
    ensures
        n == match lookup(m@, k@) {
            Some(c) => c,
            None => 0,
        },
{
    match text::assoc_get(m, k) {
        Some(c) => *c,
        None => 0,
    }
}

fn mig_report_lines(v: &mut Vec<String>, ms: &Vec<(String, MigrationDetail)>)
    ensures
        strs(final(v)@) == strs(old(v)@) + mig_report(ms@),
{
    let ghost v0 = strs(v@);
    let mut i: usize = 0;
    while i < ms.len()
        invariant
            i <= ms@.len(),
            strs(v@) == v0 + mig_report(ms@.take(i as int)),
        decreases ms@.len() - i,
    {
        assert(ms@.take(i + 1).drop_last() =~= ms@.take(i as int));
        assert(ms@.take(i + 1).last() == ms@[i as int]);
        let id = ms[i].0.as_str();
        let d = &ms[i].1;
        let ghost before = strs(v@);
        if d.legacy_count > 0 {
            let mut l = text::cat3("  ", id, ": ");
            push_usize(&mut l, d.legacy_count);
            push_str(&mut l, " legacy (");
            push_str(&mut l, d.from.as_str());
            push_str(&mut l, "), ");
            push_usize(&mut l, d.migrated_count);
            push_str(&mut l, " migrated (");
            push_str(&mut l, d.to.as_str());
            push_str(&mut l, ")");
            push_line(v, l);
            let ghost head = strs(v@);
            let mut j: usize = 0;
            while j < d.legacy_plugins.len()
                invariant
                    j <= d.legacy_plugins@.len(),
                    strs(v@) == head + strs(d.legacy_plugins@).take(j as int).map_values(|p: Seq<char>| "    - "@ + p),
                decreases d.legacy_plugins@.len() - j,
            {
                push_line(v, text::cat2("    - ", d.legacy_plugins[j].as_str()));
                assert(strs(d.legacy_plugins@).take(j + 1).map_values(|p: Seq<char>| "    - "@ + p) =~= strs(
                    d.legacy_plugins@,
                ).take(j as int).map_values(|p: Seq<char>| "    - "@ + p).push("    - "@ + d.legacy_plugins@[j as int]@));
                j = j + 1;
            }
            assert(strs(d.legacy_plugins@).take(d.legacy_plugins@.len() as int) =~= strs(d.legacy_plugins@));
        }
        assert(strs(v@) =~= v0 + mig_report(ms@.take(i + 1)));
        i = i + 1;
    }
    assert(ms@.take(ms@.len() as int) =~= ms@);
}

fn delta_line(d: &delta::GraphDelta) -> (r: String)
    ensures
        r@ == delta_report(*d),
{
    if d.first_run {
        owned("  delta: first run (no previous graph)")
    } else if delta::is_empty(d) {
        owned("  delta: no structural changes")
    } else {
        let mut l = owned("  delta: +");
        push_usize(&mut l, d.added_nodes.len());
        push_str(&mut l, " nodes -");
        push_usize(&mut l, d.removed_nodes.len());
        push_str(&mut l, " nodes ~");
        push_usize(&mut l, d.changed_nodes.len());
        push_str(&mut l, " nodes · +");
        push_usize(&mut l, d.added_edges.len());
        push_str(&mut l, " edges -");
        push_usize(&mut l, d.removed_edges.len());
        push_str(&mut l, " edges · +");
        push_usize(&mut l, d.new_findings.len());
        push_str(&mut l, " findings -");
        push_usize(&mut l, d.resolved_findings.len());
        push_str(&mut l, " resolved");
        l
    }
}

fn push_totals(v: &mut Vec<String>, g: &Audiolabs, rules: usize, out: &str, root: &str)
    ensures
        strs(final(v)@) == strs(old(v)@) + report_totals(*g, rules as nat, out@, root@),
{
    let ghost v0 = strs(v@);
    let mut l = text::cat4("agal v", agent::AGAL_VERSION, " generated for ", g.project_name.as_str());
    push_str(&mut l, " in ");
    push_str(&mut l, root);
    push_str(&mut l, "/");
    push_str(&mut l, out);
    push_line(v, l);
    let mut l = owned("  ");
    push_usize(&mut l, g.nodes.len());
    push_str(&mut l, " nodes, ");
    push_usize(&mut l, g.edges.len());
    push_str(&mut l, " edges, ");
    push_usize(&mut l, g.migration_summary.total_plugins);
    push_str(&mut l, " plugins, ");
    push_usize(&mut l, g.findings.len());
    push_str(&mut l, " findings");
    push_line(v, l);
    let h = findings::health(&g.findings);
    push_line(v, text::cat2("  health: ", h.as_str()));
    let ghost v1 = strs(v@);
    assert(v1.len() == v0.len() + 3);
    let counts = findings::count_by_severity(&g.findings);
    if g.findings.len() > 0 {
        proof {
            reveal_strlit("error");
            reveal_strlit("warn");
            reveal_strlit("info");
            assert(findings::Severity::Error.name() == "error"@);
            assert(findings::Severity::Warn.name() == "warn"@);
            assert(findings::Severity::Info.name() == "info"@);
        }
        let ghost fs = findings::fviews(g.findings@);
        assert(lookup(counts@, findings::Severity::Error.name()) == if findings::count_sev(fs, findings::Severity::Error) > 0 {
            Some(findings::count_sev(fs, findings::Severity::Error) as usize)
        } else {
            None
        });
        assert(lookup(counts@, findings::Severity::Warn.name()) == if findings::count_sev(fs, findings::Severity::Warn) > 0 {
            Some(findings::count_sev(fs, findings::Severity::Warn) as usize)
        } else {
            None
        });
        assert(lookup(counts@, findings::Severity::Info.name()) == if findings::count_sev(fs, findings::Severity::Info) > 0 {
            Some(findings::count_sev(fs, findings::Severity::Info) as usize)
        } else {
            None
        });
        proof {
            findings::lemma_count_sev_bound(fs, findings::Severity::Error);
            findings::lemma_count_sev_bound(fs, findings::Severity::Warn);
            findings::lemma_count_sev_bound(fs, findings::Severity::Info);
        }
        let e = count_of(&counts, "error");
        let w = count_of(&counts, "warn");
        let n = count_of(&counts, "info");
        assert(e == findings::count_sev(fs, findings::Severity::Error));
        assert(w == findings::count_sev(fs, findings::Severity::Warn));
        assert(n == findings::count_sev(fs, findings::Severity::Info));
        let mut l = owned("  findings: error=");
        push_usize(&mut l, e);
        push_str(&mut l, " warn=");
        push_usize(&mut l, w);
        push_str(&mut l, " info=");
        push_usize(&mut l, n);
        push_line(v, l);
    }
    let ghost v2 = strs(v@);
    assert(v2 =~= v1 + if findings::fviews(g.findings@).len() > 0 {
        seq![
            "  findings: error="@ + dec(findings::count_sev(findings::fviews(g.findings@), findings::Severity::Error)) + " warn="@ + dec(
                findings::count_sev(findings::fviews(g.findings@), findings::Severity::Warn),
            ) + " info="@ + dec(findings::count_sev(findings::fviews(g.findings@), findings::Severity::Info)),
        ]
    } else {
        Seq::empty()
    });
    if g.findings_suppressed > 0 || rules > 0 {
        let mut l = owned("  suppress: ");
        push_usize(&mut l, g.findings_suppressed);
        push_str(&mut l, " finding(s) muted (");
        push_usize(&mut l, rules);
        push_str(&mut l, " rule(s) in config)");
        push_line(v, l);
    }
    assert(strs(v@) =~= v0 + report_totals(*g, rules as nat, out@, root@));
}

fn push_migrations(v: &mut Vec<String>, ms: &MigrationSummary)
    ensures
        strs(final(v)@) == strs(old(v)@) + report_migrations(*ms),
{
    let ghost v0 = strs(v@);
    if ms.total_legacy > 0 {
        mig_report_lines(v, &ms.migrations);
    } else if ms.total_migrated > 0 {
        let mut l = owned("  migrations: complete (");
        push_usize(&mut l, ms.total_migrated);
        push_str(&mut l, " plugins on target adapters)");
        push_line(v, l);
    }
    assert(strs(v@) =~= v0 + report_migrations(*ms));
}

fn push_paths(v: &mut Vec<String>, out: &str, notes: usize)
    ensures
        strs(final(v)@) == strs(old(v)@) + report_paths(out@, notes as nat),
{
    let ghost v0 = strs(v@);
    push_line(v, text::cat3("  agal: ", out, "/AGAL.md"));
    push_line(v, text::cat3("  agent map: ", out, "/agal.agent.md"));
    let mut l = text::cat3("  notes: ", out, "/notes/ (");
    push_usize(&mut l, notes);
    push_str(&mut l, " files)");
    push_line(v, l);
    push_line(v, text::cat3("  guide: ", out, "/Cheatsheet.md"));
    push_line(v, owned("  skills: not auto-copied — run `agal skills sync` (default: core)"));
    assert(strs(v@) =~= v0 + report_paths(out@, notes as nat));
}

/// The lines printed after a generate run (see [`report_lines`]); `rules`
/// is the number of `[[suppress]]` rules in the config, `root` the project
/// root as shown.
pub fn run_report(g: &Audiolabs, rules: usize, out: &str, root: &str, notes: usize) -> (r: Vec<String>)
    ensures
        strs(r@) == report_lines(*g, rules as nat, out@, root@, notes as nat),
{
    let mut v: Vec<String> = Vec::new();
    push_totals(&mut v, g, rules, out, root);
    push_migrations(&mut v, &g.migration_summary);
    push_paths(&mut v, out, notes);
    let ghost v3 = strs(v@);
    match &g.delta {
        Some(d) => push_line(&mut v, delta_line(d)),
        None => {},
    }
    assert(strs(v@) =~= report_lines(*g, rules as nat, out@, root@, notes as nat));
    v
}

/// The post-commit hook: runs `agal` on the (cleaned) project root.
pub open spec fn hook_text(root: Seq<char>) -> Seq<char> {
    "#!/bin/sh\n# Auto-generated by agal install-hook\nagal \""@ + root + "\"\n"@
}

/// The post-commit hook script for a project root shown as `root`.
pub fn hook_script(root: &str) -> (s: String)
    ensures
        s@ == hook_text(root@),
{
    text::cat3("#!/bin/sh\n# Auto-generated by agal install-hook\nagal \"", root, "\"\n")
}

/// A change worth regenerating for: some path is a `.rs`, `.toml` or
/// `.slint` file, and the event is not a mere access.
pub open spec fn interesting(exts: Seq<Option<String>>, is_access: bool) -> bool {
    !is_access && exists|i: int|
        0 <= i < exts.len() && (#[trigger] exts[i]) is Some && (exts[i]->0@ == "rs"@ || exts[i]->0@ == "toml"@
            || exts[i]->0@ == "slint"@)
}

/// Whether a file-system event (the extensions of its paths, and whether it
/// is an access) should trigger a regenerate.
pub fn is_interesting_event(exts: &Vec<Option<String>>, is_access: bool) -> (r: bool)
    ensures
        r == interesting(exts@, is_access),
{
    let mut any = false;
    let mut i: usize = 0;
    while i < exts.len()
        invariant
            i <= exts@.len(),
            any == exists|j: int|
                0 <= j < i && (#[trigger] exts@[j]) is Some && (exts@[j]->0@ == "rs"@ || exts@[j]->0@ == "toml"@
                    || exts@[j]->0@ == "slint"@),
        decreases exts@.len() - i,
    {
        match &exts[i] {
            Some(x) => {
                let xs = x.as_str();
                if text::str_eq(xs, "rs") || text::str_eq(xs, "toml") || text::str_eq(xs, "slint") {
                    any = true;
                }
            },
            None => {},
        }
        i = i + 1;
    }
    any && !is_access
}

/// Quiet time after the last interesting change before regenerating.
pub const DEBOUNCE_MS: u64 = 500;

/// One tick of the watch loop at time `now` (ms): an interesting change
/// (re)starts the quiet period; once `DEBOUNCE_MS` have passed since the last
/// one, regenerate and clear it.  Returns the new pending time and whether
/// to regenerate.
pub fn debounce_step(pending: Option<u64>, now: u64, interesting_change: bool) -> (r: (Option<u64>, bool))
    ensures
        ({
            let p = if interesting_change { Some(now) } else { pending };
            match p {
                Some(t) => if now >= t && now - t >= DEBOUNCE_MS {
                    r == (None::<u64>, true)
                } else {
                    r == (p, false)
                },
                None => r == (None::<u64>, false),
            }
        }),
{
    let p = if interesting_change {
        Some(now)
    } else {
        pending
    };
    match p {
        Some(t) => if now >= t && now - t >= DEBOUNCE_MS {
            (None, true)
        } else {
            (p, false)
        },
        None => (None, false),
    }
}

} // verus!
