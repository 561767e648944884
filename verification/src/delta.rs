//! The difference between two generations of the graph: added, removed and
//! changed nodes, added and removed edges, new and resolved findings.
use vstd::prelude::*;

use crate::findings::{finding_key, key_of, total_params, Finding, FindingView};
use crate::text::{
    dec, debug_list, debug_set, debug_string_list, debug_string_set, first_n, is_set, last_index,
    last_index_of, lemma_last_index, lemma_strs_push, opt_view, owned, push_str, push_usize,
    set_contains, sorted, sorted_distinct, str_eq, strings_without, strs, without,
};
use crate::{Audiolabs, Edge, Node};

verus! {

/// What changed on one node present in both graphs.
#[derive(Debug, Clone)]
pub struct NodeChange {
    pub id: String,
    pub changes: Vec<String>,
}

/// Diff against the previous `agal.json`.
#[derive(Debug, Clone)]
pub struct GraphDelta {
    pub previous_generated_at: Option<String>,
    pub previous_version: Option<String>,
    pub added_nodes: Vec<String>,
    pub removed_nodes: Vec<String>,
    pub changed_nodes: Vec<NodeChange>,
    pub added_edges: Vec<String>,
    pub removed_edges: Vec<String>,
    pub new_findings: Vec<Finding>,
    pub resolved_findings: Vec<Finding>,
    /// True when no previous graph existed.
    pub first_run: bool,
}

// ---------------------------------------------------------------------------
// Keys
// ---------------------------------------------------------------------------

/// Node ids, in graph order.
pub open spec fn node_keys(ns: Seq<Node>) -> Seq<Seq<char>> {
    ns.map_values(|n: Node| n.id@)
}

/// `kind|from|to`.
pub open spec fn edge_text(e: Edge) -> Seq<char> {
    e.kind@ + "|"@ + e.from@ + "|"@ + e.to@
}

/// Edge keys, in graph order.
pub open spec fn edge_texts(es: Seq<Edge>) -> Seq<Seq<char>> {
    es.map_values(|e: Edge| edge_text(e))
}

/// Finding keys, in list order.
pub open spec fn finding_keys(fs: Seq<Finding>) -> Seq<Seq<char>> {
    fs.map_values(|f: Finding| key_of(f@))
}

/// The node a graph keeps under `id`: the last one listed with that id.
pub open spec fn node_under(ns: Seq<Node>, id: Seq<char>) -> Node {
    match last_index(node_keys(ns), id) {
        Some(i) => ns[i],
        None => ns[0],
    }
}

/// The finding kept under key `k`: the last one listed with that key.
pub open spec fn finding_under(fs: Seq<Finding>, k: Seq<char>) -> FindingView {
    match last_index(finding_keys(fs), k) {
        Some(i) => fs[i]@,
        None => fs[0]@,
    }
}

fn edge_key(e: &Edge) -> (k: String)
    ensures
        k@ == edge_text(*e),
{
    let mut k = owned(e.kind.as_str());
    push_str(&mut k, "|");
    push_str(&mut k, e.from.as_str());
    push_str(&mut k, "|");
    push_str(&mut k, e.to.as_str());
    k
}

fn node_key_list(ns: &Vec<Node>) -> (r: Vec<String>)
    ensures
        strs(r@) == node_keys(ns@),
{
    let mut r: Vec<String> = Vec::new();
    let mut i: usize = 0;
    while i < ns.len()
        invariant
            i <= ns@.len(),
            strs(r@) == node_keys(ns@).take(i as int),
        decreases ns@.len() - i,
    {
        let ghost r0 = r@;
        r.push(ns[i].id.clone());
        proof {
            lemma_strs_push(r0, r@.last());
            assert(node_keys(ns@).take(i + 1) =~= node_keys(ns@).take(i as int).push(ns@[i as int].id@));
        }
        i = i + 1;
    }
    assert(node_keys(ns@).take(ns@.len() as int) =~= node_keys(ns@));
    r
}

fn edge_key_list(es: &Vec<Edge>) -> (r: Vec<String>)
    ensures
        strs(r@) == edge_texts(es@),
{
    let mut r: Vec<String> = Vec::new();
    let mut i: usize = 0;
    while i < es.len()
        invariant
            i <= es@.len(),
            strs(r@) == edge_texts(es@).take(i as int),
        decreases es@.len() - i,
    {
        let ghost r0 = r@;
        r.push(edge_key(&es[i]));
        proof {
            lemma_strs_push(r0, r@.last());
            assert(edge_texts(es@).take(i + 1) =~= edge_texts(es@).take(i as int).push(edge_text(es@[i as int])));
        }
        i = i + 1;
    }
    assert(edge_texts(es@).take(es@.len() as int) =~= edge_texts(es@));
    r
}

fn finding_key_list(fs: &Vec<Finding>) -> (r: Vec<String>)
    ensures
        strs(r@) == finding_keys(fs@),
{
    let mut r: Vec<String> = Vec::new();
    let mut i: usize = 0;
    while i < fs.len()
        invariant
            i <= fs@.len(),
            strs(r@) == finding_keys(fs@).take(i as int),
        decreases fs@.len() - i,
    {
        let ghost r0 = r@;
        r.push(finding_key(&fs[i]));
        proof {
            lemma_strs_push(r0, r@.last());
            assert(finding_keys(fs@).take(i + 1) =~= finding_keys(fs@).take(i as int).push(key_of(fs@[i as int]@)));
        }
        i = i + 1;
    }
    assert(finding_keys(fs@).take(fs@.len() as int) =~= finding_keys(fs@));
    r
}

/// `without` keeps exactly the elements of `a` outside `b`.
pub proof fn lemma_without_set(a: Seq<Seq<char>>, b: Seq<Seq<char>>)
    ensures
        without(a, b).to_set() == a.to_set().difference(b.to_set()),
    decreases a.len(),
{
    if a.len() > 0 {
        lemma_without_set(a.drop_last(), b);
        assert(a =~= a.drop_last().push(a.last()));
        a.drop_last().lemma_push_to_set_commute(a.last());
        if !b.contains(a.last()) {
            without(a.drop_last(), b).lemma_push_to_set_commute(a.last());
        }
        assert(without(a, b).to_set() =~= a.to_set().difference(b.to_set()));
    } else {
        assert(without(a, b).to_set() =~= a.to_set().difference(b.to_set()));
    }
}

/// Sorted set difference of two string lists.
fn sorted_difference(a: &Vec<String>, b: &Vec<String>) -> (r: Vec<String>)
    ensures
        is_set(r@),
        strs(r@).to_set() == strs(a@).to_set().difference(strs(b@).to_set()),
{
    let sa = sorted_distinct(a);
    let sb = sorted_distinct(b);
    let r = strings_without(&sa, &sb);
    proof {
        lemma_without_set(strs(sa@), strs(sb@));
    }
    r
}

// ---------------------------------------------------------------------------
// What changed on one node
// ---------------------------------------------------------------------------

/// An optional text, `?` when absent.
pub open spec fn or_q(o: Option<String>) -> Seq<char> {
    match o {
        Some(s) => s@,
        None => "?"@,
    }
}

/// Number of params of a node (0 without a source summary).
pub open spec fn params_of(n: Node) -> nat {
    match n.ast_summary {
        Some(a) => total_params(a.params_fields@),
        None => 0,
    }
}

/// IPC signals of a node (none without a source summary).
pub open spec fn ipc_of(n: Node) -> Seq<Seq<char>> {
    match n.ast_summary {
        Some(a) => strs(a.ipc_signals@),
        None => Seq::empty(),
    }
}

/// Source files of a node (none without a source summary).
pub open spec fn files_of(n: Node) -> Seq<Seq<char>> {
    match n.ast_summary {
        Some(a) => strs(a.files@),
        None => Seq::empty(),
    }
}

/// `line` when `cond` holds, else nothing.
pub open spec fn line_if(cond: bool, line: Seq<char>) -> Seq<Seq<char>> {
    if cond {
        seq![line]
    } else {
        Seq::empty()
    }
}

/// `before → after`.
pub open spec fn arrow(label: Seq<char>, before: Seq<char>, after: Seq<char>) -> Seq<char> {
    label + ": "@ + before + " → "@ + after
}

/// Change lines for the dependency sets.
pub open spec fn dep_changes(p: Seq<Seq<char>>, c: Seq<Seq<char>>) -> Seq<Seq<char>> {
    if p != c {
        line_if(without(c, p).len() > 0, "deps+: "@ + debug_list(without(c, p))) + line_if(
            without(p, c).len() > 0,
            "deps-: "@ + debug_list(without(p, c)),
        )
    } else {
        Seq::empty()
    }
}

/// Change lines for the file sets (at most six names each way).
pub open spec fn file_changes(p: Seq<Seq<char>>, c: Seq<Seq<char>>) -> Seq<Seq<char>> {
    if p != c {
        line_if(without(c, p).len() > 0, "files+: "@ + debug_list(first_n(without(c, p), 6)))
            + line_if(without(p, c).len() > 0, "files-: "@ + debug_list(first_n(without(p, c), 6)))
    } else {
        Seq::empty()
    }
}

/// The change lines between two versions of one node, in report order:
/// version, migration, frameworks, dependencies, params, IPC, files.
pub open spec fn node_changes(p: Node, c: Node) -> Seq<Seq<char>> {
    line_if(opt_view(p.version) != opt_view(c.version), arrow("version"@, or_q(p.version), or_q(c.version)))
        + line_if(
        opt_view(p.migration_status) != opt_view(c.migration_status),
        arrow("migration"@, or_q(p.migration_status), or_q(c.migration_status)),
    ) + line_if(
        strs(p.frameworks@) != strs(c.frameworks@),
        arrow("frameworks"@, debug_list(strs(p.frameworks@)), debug_list(strs(c.frameworks@))),
    ) + dep_changes(strs(p.internal_deps@), strs(c.internal_deps@)) + line_if(
        params_of(p) != params_of(c),
        arrow("params"@, dec(params_of(p)), dec(params_of(c))),
    ) + line_if(ipc_of(p) != ipc_of(c), arrow("ipc"@, debug_set(ipc_of(p)), debug_set(ipc_of(c))))
        + file_changes(files_of(p), files_of(c))
}

/// The param count of every node fits in `usize`.
pub open spec fn params_fit(ns: Seq<Node>) -> bool {
    forall|i: int| 0 <= i < ns.len() ==> #[trigger] params_of(ns[i]) <= usize::MAX
}

fn opt_text(o: &Option<String>) -> (r: &str)
    ensures
        r@ == or_q(*o),
{
    match o {
        Some(s) => s.as_str(),
        None => "?",
    }
}

fn opt_same(a: &Option<String>, b: &Option<String>) -> (r: bool)
    ensures
        r == (opt_view(*a) == opt_view(*b)),
{
    match (a, b) {
        (Some(x), Some(y)) => str_eq(x.as_str(), y.as_str()),
        (None, None) => true,
        _ => false,
    }
}

fn strings_same(a: &Vec<String>, b: &Vec<String>) -> (r: bool)
    ensures
        r == (strs(a@) == strs(b@)),
{
    if a.len() != b.len() {
        assert(strs(a@).len() != strs(b@).len());
        return false;
    }
    let mut i: usize = 0;
    while i < a.len()
        invariant
            a@.len() == b@.len(),
            i <= a@.len(),
            forall|j: int| 0 <= j < i ==> strs(a@)[j] == strs(b@)[j],
        decreases a@.len() - i,
    {
        if !str_eq(a[i].as_str(), b[i].as_str()) {
            assert(strs(a@)[i as int] != strs(b@)[i as int]);
            return false;
        }
        i = i + 1;
    }
    assert(strs(a@) =~= strs(b@));
    true
}

fn arrow_line(label: &str, before: &str, after: &str) -> (r: String)
    ensures
        r@ == arrow(label@, before@, after@),
{
    let mut r = owned(label);
    push_str(&mut r, ": ");
    push_str(&mut r, before);
    push_str(&mut r, " → ");
    push_str(&mut r, after);
    r
}

fn push_line(out: &mut Vec<String>, line: String)
    ensures
        strs(final(out)@) == strs(old(out)@).push(line@),
{
    let ghost o0 = out@;
    out.push(line);
    proof {
        lemma_strs_push(o0, line);
    }
}

fn param_total(n: &Node) -> (r: usize)
    requires
        params_of(*n) <= usize::MAX,
    ensures
        r == params_of(*n),
{
    match &n.ast_summary {
        None => 0,
        Some(a) => {
            let pf = &a.params_fields;
            let mut tot: usize = 0;
            let mut i: usize = 0;
            while i < pf.len()
                invariant
                    total_params(pf@) <= usize::MAX,
                    i <= pf@.len(),
                    tot == total_params(pf@.take(i as int)),
                decreases pf@.len() - i,
            {
                proof {
                    assert(pf@.take(i + 1).drop_last() =~= pf@.take(i as int));
                    crate::findings::lemma_total_params_prefix(pf@, i + 1);
                }
                tot = tot + pf[i].1.len();
                i = i + 1;
            }
            assert(pf@.take(pf@.len() as int) =~= pf@);
            tot
        },
    }
}

fn ipc_list(n: &Node) -> (r: Vec<String>)
    ensures
        strs(r@) == ipc_of(*n),
{
    match &n.ast_summary {
        Some(a) => crate::text::clone_strings(&a.ipc_signals),
        None => {
            let r: Vec<String> = Vec::new();
            assert(strs(r@) =~= Seq::<Seq<char>>::empty());
            r
        },
    }
}

fn file_list(n: &Node) -> (r: Vec<String>)
    ensures
        strs(r@) == files_of(*n),
{
    match &n.ast_summary {
        Some(a) => crate::text::clone_strings(&a.files),
        None => {
            let r: Vec<String> = Vec::new();
            assert(strs(r@) =~= Seq::<Seq<char>>::empty());
            r
        },
    }
}

/// The first `n` strings (all of them when there are fewer).
fn take_strings(v: &Vec<String>, n: usize) -> (r: Vec<String>)
    ensures
        strs(r@) == first_n(strs(v@), n as nat),
{
    let mut r: Vec<String> = Vec::new();
    let mut i: usize = 0;
    while i < v.len() && i < n
        invariant
            i <= v@.len(),
            i <= n,
            strs(r@) == strs(v@).take(i as int),
        decreases v@.len() - i,
    {
        let ghost r0 = r@;
        r.push(v[i].clone());
        proof {
            lemma_strs_push(r0, r@.last());
            assert(strs(v@).take(i + 1) =~= strs(v@).take(i as int).push(v@[i as int]@));
        }
        i = i + 1;
    }
    if v.len() <= n {
        assert(strs(v@).take(v@.len() as int) =~= strs(v@));
    }
    r
}

fn push_set_changes(out: &mut Vec<String>, p: &Vec<String>, c: &Vec<String>, files: bool)
    ensures
        strs(final(out)@) == strs(old(out)@) + if files {
            file_changes(strs(p@), strs(c@))
        } else {
            dep_changes(strs(p@), strs(c@))
        },
{
    if strings_same(p, c) {
        assert(strs(out@) =~= strs(out@) + Seq::<Seq<char>>::empty());
        return;
    }
    let ghost o0 = strs(out@);
    let added = strings_without(c, p);
    let removed = strings_without(p, c);
    let (la, lr) = if files {
        (take_strings(&added, 6), take_strings(&removed, 6))
    } else {
        (crate::text::clone_strings(&added), crate::text::clone_strings(&removed))
    };
    let ghost mid = o0 + line_if(added.len() > 0, if files {
        "files+: "@ + debug_list(strs(la@))
    } else {
        "deps+: "@ + debug_list(strs(la@))
    });
    if added.len() > 0 {
        let d = debug_string_list(&la);
        let line = if files { crate::text::cat2("files+: ", d.as_str()) } else { crate::text::cat2("deps+: ", d.as_str()) };
        push_line(out, line);
    }
    assert(strs(out@) =~= mid);
    if removed.len() > 0 {
        let d = debug_string_list(&lr);
        let line = if files { crate::text::cat2("files-: ", d.as_str()) } else { crate::text::cat2("deps-: ", d.as_str()) };
        push_line(out, line);
    }
    assert(strs(out@) =~= strs(old(out)@) + if files {
        file_changes(strs(p@), strs(c@))
    } else {
        dep_changes(strs(p@), strs(c@))
    });
}

/// The change lines between two versions of one node.
fn node_change_lines(p: &Node, c: &Node) -> (r: Vec<String>)
    requires
        params_of(*p) <= usize::MAX,
        params_of(*c) <= usize::MAX,
    ensures
        strs(r@) == node_changes(*p, *c),
{
    let mut out: Vec<String> = Vec::new();
    let ghost e = strs(out@);
    assert(e =~= Seq::<Seq<char>>::empty());
    if !opt_same(&p.version, &c.version) {
        push_line(&mut out, arrow_line("version", opt_text(&p.version), opt_text(&c.version)));
    }
    let ghost s1 = line_if(opt_view(p.version) != opt_view(c.version), arrow("version"@, or_q(p.version), or_q(c.version)));
    assert(strs(out@) =~= s1);
    if !opt_same(&p.migration_status, &c.migration_status) {
        push_line(&mut out, arrow_line("migration", opt_text(&p.migration_status), opt_text(&c.migration_status)));
    }
    let ghost s2 = s1 + line_if(
        opt_view(p.migration_status) != opt_view(c.migration_status),
        arrow("migration"@, or_q(p.migration_status), or_q(c.migration_status)),
    );
    assert(strs(out@) =~= s2);
    if !strings_same(&p.frameworks, &c.frameworks) {
        let a = debug_string_list(&p.frameworks);
        let b = debug_string_list(&c.frameworks);
        push_line(&mut out, arrow_line("frameworks", a.as_str(), b.as_str()));
    }
    let ghost s3 = s2 + line_if(
        strs(p.frameworks@) != strs(c.frameworks@),
        arrow("frameworks"@, debug_list(strs(p.frameworks@)), debug_list(strs(c.frameworks@))),
    );
    assert(strs(out@) =~= s3);
    push_set_changes(&mut out, &p.internal_deps, &c.internal_deps, false);
    let ghost s4 = s3 + dep_changes(strs(p.internal_deps@), strs(c.internal_deps@));
    let pp = param_total(p);
    let cp = param_total(c);
    if pp != cp {
        let a = crate::text::fmt_usize(pp);
        let b = crate::text::fmt_usize(cp);
        push_line(&mut out, arrow_line("params", a.as_str(), b.as_str()));
    }
    let ghost s5 = s4 + line_if(params_of(*p) != params_of(*c), arrow("params"@, dec(params_of(*p)), dec(params_of(*c))));
    assert(strs(out@) =~= s5);
    let pi = ipc_list(p);
    let ci = ipc_list(c);
    if !strings_same(&pi, &ci) {
        let a = debug_string_set(&pi);
        let b = debug_string_set(&ci);
        push_line(&mut out, arrow_line("ipc", a.as_str(), b.as_str()));
    }
    let ghost s6 = s5 + line_if(ipc_of(*p) != ipc_of(*c), arrow("ipc"@, debug_set(ipc_of(*p)), debug_set(ipc_of(*c))));
    assert(strs(out@) =~= s6);
    let pf = file_list(p);
    let cf = file_list(c);
    push_set_changes(&mut out, &pf, &cf, true);
    assert(strs(out@) =~= node_changes(*p, *c));
    out
}

// ---------------------------------------------------------------------------
// The delta
// ---------------------------------------------------------------------------

/// Ids of a list of node changes.
pub open spec fn change_ids(cs: Seq<NodeChange>) -> Seq<Seq<char>> {
    cs.map_values(|c: NodeChange| c.id@)
}

/// Ids among `ids` present in `curr` whose node changed.
pub open spec fn changed_among(ids: Seq<Seq<char>>, prev: Seq<Node>, curr: Seq<Node>) -> Set<Seq<char>> {
    Set::new(
        |id: Seq<char>|
            ids.contains(id) && node_keys(curr).contains(id) && node_changes(
                node_under(prev, id),
                node_under(curr, id),
            ).len() > 0,
    )
}

/// `cs` lists, in id order, every node of both graphs that changed, with its
/// change lines.
pub open spec fn changes_listed(prev: Seq<Node>, curr: Seq<Node>, cs: Seq<NodeChange>) -> bool {
    &&& sorted(change_ids(cs))
    &&& change_ids(cs).to_set() == changed_among(node_keys(prev), prev, curr)
    &&& forall|k: int|
        0 <= k < cs.len() ==> strs((#[trigger] cs[k]).changes@) == node_changes(
            node_under(prev, cs[k].id@),
            node_under(curr, cs[k].id@),
        )
}

/// `out` lists, in key order, the finding kept under each key of `from`
/// that `minus` lacks.
pub open spec fn findings_listed(from: Seq<Finding>, minus: Seq<Finding>, out: Seq<Finding>) -> bool {
    &&& sorted(finding_keys(out))
    &&& finding_keys(out).to_set() == finding_keys(from).to_set().difference(
        finding_keys(minus).to_set(),
    )
    &&& forall|k: int|
        0 <= k < out.len() ==> (#[trigger] out[k])@ == finding_under(from, key_of(out[k]@))
}

/// `v` is the sorted list of the strings of `s`.
pub open spec fn lists_sorted(v: Seq<String>, s: Set<Seq<char>>) -> bool {
    is_set(v) && strs(v).to_set() == s
}

/// What `compute` returns: the first-run marker without a previous graph;
/// otherwise every difference, each list in sorted key order.
pub open spec fn delta_of(prev: Option<Audiolabs>, curr: Audiolabs, d: GraphDelta) -> bool {
    match prev {
        None => {
            &&& d.first_run
            &&& d.previous_generated_at is None
            &&& d.previous_version is None
            &&& d.added_nodes@.len() == 0
            &&& d.removed_nodes@.len() == 0
            &&& d.changed_nodes@.len() == 0
            &&& d.added_edges@.len() == 0
            &&& d.removed_edges@.len() == 0
            &&& d.new_findings@.len() == 0
            &&& d.resolved_findings@.len() == 0
        },
        Some(p) => {
            let pn = node_keys(p.nodes@).to_set();
            let cn = node_keys(curr.nodes@).to_set();
            let pe = edge_texts(p.edges@).to_set();
            let ce = edge_texts(curr.edges@).to_set();
            &&& !d.first_run
            &&& opt_view(d.previous_generated_at) == Some(p.generated_at@)
            &&& opt_view(d.previous_version) == Some(p.version@)
            &&& lists_sorted(d.added_nodes@, cn.difference(pn))
            &&& lists_sorted(d.removed_nodes@, pn.difference(cn))
            &&& changes_listed(p.nodes@, curr.nodes@, d.changed_nodes@)
            &&& lists_sorted(d.added_edges@, ce.difference(pe))
            &&& lists_sorted(d.removed_edges@, pe.difference(ce))
            &&& findings_listed(curr.findings@, p.findings@, d.new_findings@)
            &&& findings_listed(p.findings@, curr.findings@, d.resolved_findings@)
        },
    }
}

proof fn lemma_take_step(s: Seq<Seq<char>>, i: int)
    requires
        0 <= i < s.len(),
    ensures
        forall|y: Seq<char>| #[trigger] s.take(i + 1).contains(y) <==> (s.take(i).contains(y) || y == s[i]),
{
    assert forall|y: Seq<char>| #[trigger] s.take(i + 1).contains(y) <==> (s.take(i).contains(y) || y == s[i]) by {
        if s.take(i + 1).contains(y) {
            let t = s.take(i + 1);
            let j = choose|j: int| 0 <= j < t.len() && t[j] == y;
            if j < i {
                assert(s.take(i)[j] == y);
            }
        }
        if s.take(i).contains(y) {
            let t = s.take(i);
            let j = choose|j: int| 0 <= j < t.len() && t[j] == y;
            assert(s.take(i + 1)[j] == y);
        }
        if y == s[i] {
            assert(s.take(i + 1)[i] == y);
        }
    }
}

#[verifier::rlimit(80)]
#[verifier::spinoff_prover]
fn changed_nodes_of(prev: &Vec<Node>, curr: &Vec<Node>) -> (r: Vec<NodeChange>)
    requires
        params_fit(prev@),
        params_fit(curr@),
    ensures
        changes_listed(prev@, curr@, r@),
{
    let pk = node_key_list(prev);
    let ck = node_key_list(curr);
    let ids = sorted_distinct(&pk);
    let mut r: Vec<NodeChange> = Vec::new();
    let mut i: usize = 0;
    proof {
        assert(changed_among(strs(ids@).take(0), prev@, curr@) =~= Set::empty());
        assert(change_ids(r@).to_set() =~= Set::empty());
    }
    while i < ids.len()
        invariant
            params_fit(prev@),
            params_fit(curr@),
            strs(pk@) == node_keys(prev@),
            strs(ck@) == node_keys(curr@),
            is_set(ids@),
            strs(ids@).to_set() == node_keys(prev@).to_set(),
            i <= ids@.len(),
            sorted(change_ids(r@)),
            change_ids(r@).to_set() == changed_among(strs(ids@).take(i as int), prev@, curr@),
            r@.len() > 0 ==> exists|j: int| 0 <= j < i && change_ids(r@).last() == #[trigger] strs(ids@)[j],
            forall|k: int|
                0 <= k < r@.len() ==> strs((#[trigger] r@[k]).changes@) == node_changes(
                    node_under(prev@, r@[k].id@),
                    node_under(curr@, r@[k].id@),
                ),
        decreases ids@.len() - i,
    {
        let ghost x = strs(ids@)[i as int];
        let ghost before = changed_among(strs(ids@).take(i as int), prev@, curr@);
        proof {
            lemma_take_step(strs(ids@), i as int);
        }
        assert(strs(ids@).take(i + 1) =~= strs(ids@).take(i as int).push(x));
        assert(strs(ids@).to_set().contains(x));
        let mut pushed = false;
        if set_contains(&ck, ids[i].as_str()) {
            let pi = last_index_of(&pk, ids[i].as_str());
            let ci = last_index_of(&ck, ids[i].as_str());
            proof {
                lemma_last_index(node_keys(prev@), x);
                lemma_last_index(node_keys(curr@), x);
                assert(node_keys(prev@).contains(x));
            }
            let pidx = pi.unwrap();
            let cidx = ci.unwrap();
            assert(params_of(prev@[pidx as int]) <= usize::MAX);
            assert(params_of(curr@[cidx as int]) <= usize::MAX);
            let lines = node_change_lines(&prev[pidx], &curr[cidx]);
            assert(node_under(prev@, x) == prev@[pidx as int]);
            assert(node_under(curr@, x) == curr@[cidx as int]);
            assert(node_keys(curr@).contains(x));
            if lines.len() > 0 {
                let ghost r0 = r@;
                proof {
                    if r0.len() > 0 {
                        let j = choose|j: int| 0 <= j < i && change_ids(r0).last() == #[trigger] strs(ids@)[j];
                        assert(crate::text::lt(strs(ids@)[j], x));
                    }
                    crate::text::lemma_sorted_push(change_ids(r0), x);
                }
                r.push(NodeChange { id: ids[i].clone(), changes: lines });
                proof {
                    assert(change_ids(r@) =~= change_ids(r0).push(x));
                    change_ids(r0).lemma_push_to_set_commute(x);
                    assert(changed_among(strs(ids@).take(i + 1), prev@, curr@) =~= before.insert(x));
                }
                pushed = true;
            }
        }
        if !pushed {
            assert(changed_among(strs(ids@).take(i + 1), prev@, curr@) =~= before);
        }
        i = i + 1;
    }
    proof {
        assert(strs(ids@).take(ids@.len() as int) =~= strs(ids@));
        assert forall|id: Seq<char>| strs(ids@).contains(id) <==> node_keys(prev@).contains(id) by {
            assert(strs(ids@).to_set().contains(id) <==> node_keys(prev@).to_set().contains(id));
        }
        assert(changed_among(strs(ids@), prev@, curr@) =~= changed_among(node_keys(prev@), prev@, curr@));
    }
    r
}

fn findings_missing(from: &Vec<Finding>, minus: &Vec<Finding>) -> (r: Vec<Finding>)
    ensures
        findings_listed(from@, minus@, r@),
{
    let fk = finding_key_list(from);
    let mk = finding_key_list(minus);
    let keys = sorted_difference(&fk, &mk);
    let mut r: Vec<Finding> = Vec::new();
    let mut i: usize = 0;
    while i < keys.len()
        invariant
            strs(fk@) == finding_keys(from@),
            i <= keys@.len(),
            finding_keys(r@) == strs(keys@).take(i as int),
            strs(keys@).to_set() == finding_keys(from@).to_set().difference(finding_keys(minus@).to_set()),
            forall|k: int| 0 <= k < r@.len() ==> (#[trigger] r@[k])@ == finding_under(from@, key_of(r@[k]@)),
        decreases keys@.len() - i,
    {
        let ghost x = strs(keys@)[i as int];
        assert(strs(keys@).to_set().contains(x));
        proof {
            lemma_last_index(finding_keys(from@), x);
        }
        let idx = last_index_of(&fk, keys[i].as_str()).unwrap();
        let f = from[idx].copy();
        let ghost r0 = r@;
        r.push(f);
        proof {
            assert(finding_keys(r@) =~= finding_keys(r0).push(key_of(f@)));
            assert(strs(keys@).take(i + 1) =~= strs(keys@).take(i as int).push(x));
        }
        i = i + 1;
    }
    assert(strs(keys@).take(keys@.len() as int) =~= strs(keys@));
    r
}

/// The delta from `prev` (if any) to `curr`.
pub fn compute(prev: Option<&Audiolabs>, curr: &Audiolabs) -> (d: GraphDelta)
    requires
        params_fit(curr.nodes@),
        prev matches Some(p) ==> params_fit(p.nodes@),
    ensures
        delta_of(
            match prev {
                Some(p) => Some(*p),
                None => None,
            },
            *curr,
            d,
        ),
{
    match prev {
        None => GraphDelta {
            previous_generated_at: None,
            previous_version: None,
            added_nodes: Vec::new(),
            removed_nodes: Vec::new(),
            changed_nodes: Vec::new(),
            added_edges: Vec::new(),
            removed_edges: Vec::new(),
            new_findings: Vec::new(),
            resolved_findings: Vec::new(),
            first_run: true,
        },
        Some(p) => {
            let pk = node_key_list(&p.nodes);
            let ck = node_key_list(&curr.nodes);
            let pe = edge_key_list(&p.edges);
            let ce = edge_key_list(&curr.edges);
            GraphDelta {
                previous_generated_at: Some(p.generated_at.clone()),
                previous_version: Some(p.version.clone()),
                added_nodes: sorted_difference(&ck, &pk),
                removed_nodes: sorted_difference(&pk, &ck),
                changed_nodes: changed_nodes_of(&p.nodes, &curr.nodes),
                added_edges: sorted_difference(&ce, &pe),
                removed_edges: sorted_difference(&pe, &ce),
                new_findings: findings_missing(&curr.findings, &p.findings),
                resolved_findings: findings_missing(&p.findings, &curr.findings),
                first_run: false,
            }
        },
    }
}

/// No difference at all (and not a first run).
pub open spec fn empty_delta(d: GraphDelta) -> bool {
    &&& !d.first_run
    &&& d.added_nodes@.len() == 0
    &&& d.removed_nodes@.len() == 0
    &&& d.changed_nodes@.len() == 0
    &&& d.added_edges@.len() == 0
    &&& d.removed_edges@.len() == 0
    &&& d.new_findings@.len() == 0
    &&& d.resolved_findings@.len() == 0
}

/// True when the delta records no structural change.
pub fn is_empty(d: &GraphDelta) -> (r: bool)
    ensures
        r == empty_delta(*d),
{
    !d.first_run && d.added_nodes.len() == 0 && d.removed_nodes.len() == 0 && d.changed_nodes.len()
        == 0 && d.added_edges.len() == 0 && d.removed_edges.len() == 0 && d.new_findings.len() == 0
        && d.resolved_findings.len() == 0
}

// ---------------------------------------------------------------------------
// Markdown
// ---------------------------------------------------------------------------

/// "- `x`" lines.
pub open spec fn code_bullets(items: Seq<Seq<char>>) -> Seq<char>
    decreases items.len(),
{
    if items.len() == 0 {
        Seq::empty()
    } else {
        code_bullets(items.drop_last()) + "- `"@ + items.last() + "`\n"@
    }
}

/// "- `from → to`" lines for edge keys.
pub open spec fn edge_bullets(items: Seq<Seq<char>>) -> Seq<char>
    decreases items.len(),
{
    if items.len() == 0 {
        Seq::empty()
    } else {
        edge_bullets(items.drop_last()) + "- `"@ + crate::text::replace_with(items.last(), '|', " → "@)
            + "`\n"@
    }
}

/// Indented change lines.
pub open spec fn sub_bullets(items: Seq<Seq<char>>) -> Seq<char>
    decreases items.len(),
{
    if items.len() == 0 {
        Seq::empty()
    } else {
        sub_bullets(items.drop_last()) + "  - "@ + items.last() + "\n"@
    }
}

/// One block per changed node: its id in bold, then its change lines.
pub open spec fn change_blocks(cs: Seq<NodeChange>) -> Seq<char>
    decreases cs.len(),
{
    if cs.len() == 0 {
        Seq::empty()
    } else {
        change_blocks(cs.drop_last()) + "- **"@ + cs.last().id@ + "**\n"@ + sub_bullets(
            strs(cs.last().changes@),
        )
    }
}

/// Node of a finding, `-` when it has none.
pub open spec fn node_or_dash(f: FindingView) -> Seq<char> {
    match f.2 {
        Some(n) => n,
        None => "-"@,
    }
}

/// `- [severity] **code** node`.
pub open spec fn finding_head(f: FindingView) -> Seq<char> {
    "- ["@ + f.0.name() + "] **"@ + f.1 + "** "@ + node_or_dash(f)
}

/// New findings, with their messages.
pub open spec fn new_finding_lines(fs: Seq<Finding>) -> Seq<char>
    decreases fs.len(),
{
    if fs.len() == 0 {
        Seq::empty()
    } else {
        new_finding_lines(fs.drop_last()) + finding_head(fs.last()@) + ": "@ + fs.last()@.3 + "\n"@
    }
}

/// Resolved findings, without messages.
pub open spec fn resolved_lines(fs: Seq<Finding>) -> Seq<char>
    decreases fs.len(),
{
    if fs.len() == 0 {
        Seq::empty()
    } else {
        resolved_lines(fs.drop_last()) + finding_head(fs.last()@) + "\n"@
    }
}

/// `body` and a blank line when `cond` holds.
pub open spec fn section(cond: bool, body: Seq<char>) -> Seq<char> {
    if cond {
        body + "\n"@
    } else {
        Seq::empty()
    }
}

/// The added-edges section body: count, first thirty, and how many more.
pub open spec fn added_edges_body(es: Seq<Seq<char>>) -> Seq<char> {
    "## added edges ("@ + dec(es.len()) + ")\n"@ + edge_bullets(first_n(es, 30)) + if es.len() > 30 {
        "- _…"@ + dec((es.len() - 30) as nat) + " more_\n"@
    } else {
        Seq::empty()
    }
}

/// The removed-edges section body: count and first thirty.
pub open spec fn removed_edges_body(es: Seq<Seq<char>>) -> Seq<char> {
    "## removed edges ("@ + dec(es.len()) + ")\n"@ + edge_bullets(first_n(es, 30))
}

/// Title and summary of a delta after a previous run.
pub open spec fn delta_header(d: GraphDelta) -> Seq<char> {
    "# agal delta\n\n**Summary:** Structural changes since the previous generation.  \nTracks added/removed/changed nodes, edges, and new/resolved findings.  \nUse to review architecture drift before editing code.\n\nprevious: `"@
        + or_q(d.previous_generated_at) + "` (v"@ + or_q(d.previous_version) + ")\n\n"@
}

/// Node sections: added, removed, changed.
pub open spec fn node_sections(d: GraphDelta) -> Seq<char> {
    section(d.added_nodes@.len() > 0, "## added nodes\n"@ + code_bullets(strs(d.added_nodes@)))
        + section(d.removed_nodes@.len() > 0, "## removed nodes\n"@ + code_bullets(strs(d.removed_nodes@)))
        + section(d.changed_nodes@.len() > 0, "## changed nodes\n"@ + change_blocks(d.changed_nodes@))
}

/// Edge sections: added, removed.
pub open spec fn edge_sections(d: GraphDelta) -> Seq<char> {
    section(d.added_edges@.len() > 0, added_edges_body(strs(d.added_edges@)))
        + section(d.removed_edges@.len() > 0, removed_edges_body(strs(d.removed_edges@)))
}

/// Finding sections: new, resolved.
pub open spec fn finding_sections(d: GraphDelta) -> Seq<char> {
    section(d.new_findings@.len() > 0, "## new findings\n"@ + new_finding_lines(d.new_findings@))
        + section(d.resolved_findings@.len() > 0, "## resolved findings\n"@ + resolved_lines(d.resolved_findings@))
}

/// The sections of a non-empty delta.
pub open spec fn delta_sections(d: GraphDelta) -> Seq<char> {
    node_sections(d) + edge_sections(d) + finding_sections(d)
}

/// The delta as markdown.
pub open spec fn delta_md(d: GraphDelta) -> Seq<char> {
    if d.first_run {
        "# agal delta\n\n**Summary:** First run; no previous graph exists for comparison.  \nThe graph baseline has been written and future runs will show changes.  \nReview the agent summary for the initial workspace structure.\n\n_first run — no previous graph to compare._\n\n"@
    } else if empty_delta(d) {
        delta_header(d) + "_no structural changes._\n\n"@
    } else {
        delta_header(d) + delta_sections(d)
    }
}

fn push_code_bullets(s: &mut String, items: &Vec<String>)
    ensures
        final(s)@ == old(s)@ + code_bullets(strs(items@)),
{
    let mut i: usize = 0;
    while i < items.len()
        invariant
            i <= items@.len(),
            s@ == old(s)@ + code_bullets(strs(items@).take(i as int)),
        decreases items@.len() - i,
    {
        assert(strs(items@).take(i + 1).drop_last() =~= strs(items@).take(i as int));
        push_str(s, "- `");
        push_str(s, items[i].as_str());
        push_str(s, "`\n");
        i = i + 1;
    }
    assert(strs(items@).take(items@.len() as int) =~= strs(items@));
}

fn push_edge_bullets(s: &mut String, items: &Vec<String>)
    ensures
        final(s)@ == old(s)@ + edge_bullets(first_n(strs(items@), 30)),
{
    let mut i: usize = 0;
    while i < items.len() && i < 30
        invariant
            i <= items@.len(),
            i <= 30,
            s@ == old(s)@ + edge_bullets(strs(items@).take(i as int)),
        decreases items@.len() - i,
    {
        assert(strs(items@).take(i + 1).drop_last() =~= strs(items@).take(i as int));
        push_str(s, "- `");
        let e = crate::text::replace_char_with(items[i].as_str(), '|', " → ");
        push_str(s, e.as_str());
        push_str(s, "`\n");
        i = i + 1;
    }
    if items.len() <= 30 {
        assert(strs(items@).take(items@.len() as int) =~= strs(items@));
    }
}

fn push_change_blocks(s: &mut String, cs: &Vec<NodeChange>)
    ensures
        final(s)@ == old(s)@ + change_blocks(cs@),
{
    let mut i: usize = 0;
    while i < cs.len()
        invariant
            i <= cs@.len(),
            s@ == old(s)@ + change_blocks(cs@.take(i as int)),
        decreases cs@.len() - i,
    {
        assert(cs@.take(i + 1).drop_last() =~= cs@.take(i as int));
        let ghost s0 = s@;
        push_str(s, "- **");
        push_str(s, cs[i].id.as_str());
        push_str(s, "**\n");
        let ch = &cs[i].changes;
        let mut j: usize = 0;
        let ghost s1 = s@;
        while j < ch.len()
            invariant
                j <= ch@.len(),
                s@ == s1 + sub_bullets(strs(ch@).take(j as int)),
            decreases ch@.len() - j,
        {
            assert(strs(ch@).take(j + 1).drop_last() =~= strs(ch@).take(j as int));
            push_str(s, "  - ");
            push_str(s, ch[j].as_str());
            push_str(s, "\n");
            j = j + 1;
        }
        assert(strs(ch@).take(ch@.len() as int) =~= strs(ch@));
        i = i + 1;
    }
    assert(cs@.take(cs@.len() as int) =~= cs@);
}

fn push_finding_head(s: &mut String, f: &Finding)
    ensures
        final(s)@ == old(s)@ + finding_head(f@),
{
    push_str(s, "- [");
    push_str(s, f.severity.as_str());
    push_str(s, "] **");
    push_str(s, f.code.as_str());
    push_str(s, "** ");
    match &f.node {
        Some(n) => push_str(s, n.as_str()),
        None => push_str(s, "-"),
    }
}

fn push_finding_lines(s: &mut String, fs: &Vec<Finding>, with_message: bool)
    ensures
        final(s)@ == old(s)@ + if with_message {
            new_finding_lines(fs@)
        } else {
            resolved_lines(fs@)
        },
{
    let mut i: usize = 0;
    while i < fs.len()
        invariant
            i <= fs@.len(),
            s@ == old(s)@ + if with_message {
                new_finding_lines(fs@.take(i as int))
            } else {
                resolved_lines(fs@.take(i as int))
            },
        decreases fs@.len() - i,
    {
        assert(fs@.take(i + 1).drop_last() =~= fs@.take(i as int));
        push_finding_head(s, &fs[i]);
        if with_message {
            push_str(s, ": ");
            push_str(s, fs[i].message.as_str());
        }
        push_str(s, "\n");
        i = i + 1;
    }
    assert(fs@.take(fs@.len() as int) =~= fs@);
}

fn push_node_sections(s: &mut String, d: &GraphDelta)
    ensures
        final(s)@ == old(s)@ + node_sections(*d),
{
    let ghost s0 = s@;
    if d.added_nodes.len() > 0 {
        push_str(s, "## added nodes\n");
        push_code_bullets(s, &d.added_nodes);
        push_str(s, "\n");
    }
    let ghost a1 = section(d.added_nodes@.len() > 0, "## added nodes\n"@ + code_bullets(strs(d.added_nodes@)));
    assert(s@ =~= s0 + a1);
    if d.removed_nodes.len() > 0 {
        push_str(s, "## removed nodes\n");
        push_code_bullets(s, &d.removed_nodes);
        push_str(s, "\n");
    }
    let ghost a2 = a1 + section(d.removed_nodes@.len() > 0, "## removed nodes\n"@ + code_bullets(strs(d.removed_nodes@)));
    assert(s@ =~= s0 + a2);
    if d.changed_nodes.len() > 0 {
        push_str(s, "## changed nodes\n");
        push_change_blocks(s, &d.changed_nodes);
        push_str(s, "\n");
    }
    assert(s@ =~= s0 + node_sections(*d));
}

fn push_edge_sections(s: &mut String, d: &GraphDelta)
    ensures
        final(s)@ == old(s)@ + edge_sections(*d),
{
    let ghost s0 = s@;
    if d.added_edges.len() > 0 {
        push_str(s, "## added edges (");
        push_usize(s, d.added_edges.len());
        push_str(s, ")\n");
        push_edge_bullets(s, &d.added_edges);
        if d.added_edges.len() > 30 {
            push_str(s, "- _…");
            push_usize(s, d.added_edges.len() - 30);
            push_str(s, " more_\n");
        }
        push_str(s, "\n");
    }
    let ghost a4 = section(d.added_edges@.len() > 0, added_edges_body(strs(d.added_edges@)));
    assert(s@ =~= s0 + a4);
    if d.removed_edges.len() > 0 {
        push_str(s, "## removed edges (");
        push_usize(s, d.removed_edges.len());
        push_str(s, ")\n");
        push_edge_bullets(s, &d.removed_edges);
        push_str(s, "\n");
    }
    assert(s@ =~= s0 + edge_sections(*d));
}

fn push_finding_sections(s: &mut String, d: &GraphDelta)
    ensures
        final(s)@ == old(s)@ + finding_sections(*d),
{
    let ghost s0 = s@;
    if d.new_findings.len() > 0 {
        push_str(s, "## new findings\n");
        push_finding_lines(s, &d.new_findings, true);
        push_str(s, "\n");
    }
    let ghost a6 = section(d.new_findings@.len() > 0, "## new findings\n"@ + new_finding_lines(d.new_findings@));
    assert(s@ =~= s0 + a6);
    if d.resolved_findings.len() > 0 {
        push_str(s, "## resolved findings\n");
        push_finding_lines(s, &d.resolved_findings, false);
        push_str(s, "\n");
    }
    assert(s@ =~= s0 + finding_sections(*d));
}

/// Compact markdown of a delta, for agents and PR notes.
pub fn render_md(d: &GraphDelta) -> (s: String)
    ensures
        s@ == delta_md(*d),
{
    if d.first_run {
        return owned(
            "# agal delta\n\n**Summary:** First run; no previous graph exists for comparison.  \nThe graph baseline has been written and future runs will show changes.  \nReview the agent summary for the initial workspace structure.\n\n_first run — no previous graph to compare._\n\n",
        );
    }
    let mut s = owned(
        "# agal delta\n\n**Summary:** Structural changes since the previous generation.  \nTracks added/removed/changed nodes, edges, and new/resolved findings.  \nUse to review architecture drift before editing code.\n\nprevious: `",
    );
    push_str(&mut s, opt_text(&d.previous_generated_at));
    push_str(&mut s, "` (v");
    push_str(&mut s, opt_text(&d.previous_version));
    push_str(&mut s, ")\n\n");
    if is_empty(d) {
        push_str(&mut s, "_no structural changes._\n\n");
        return s;
    }
    let ghost h = s@;
    push_node_sections(&mut s, d);
    push_edge_sections(&mut s, d);
    push_finding_sections(&mut s, d);
    assert(s@ =~= h + delta_sections(*d));
    s
}

// ---------------------------------------------------------------------------
// Laws
// ---------------------------------------------------------------------------

proof fn lemma_empty_set_seq(v: Seq<String>)
    requires
        strs(v).to_set() == Set::<Seq<char>>::empty(),
    ensures
        v.len() == 0,
{
    if v.len() > 0 {
        assert(strs(v).to_set().contains(strs(v)[0]));
    }
}

proof fn lemma_no_change(n: Node)
    ensures
        node_changes(n, n).len() == 0,
{
    assert(dep_changes(strs(n.internal_deps@), strs(n.internal_deps@)) =~= Seq::<Seq<char>>::empty());
    assert(file_changes(files_of(n), files_of(n)) =~= Seq::<Seq<char>>::empty());
    assert(node_changes(n, n) =~= Seq::<Seq<char>>::empty());
}

/// Comparing a graph with itself finds no structural change.
pub proof fn lemma_self_delta_empty(g: Audiolabs, d: GraphDelta)
    requires
        delta_of(Some(g), g, d),
    ensures
        empty_delta(d),
{
    let n = node_keys(g.nodes@).to_set();
    let e = edge_texts(g.edges@).to_set();
    assert(n.difference(n) =~= Set::empty());
    assert(e.difference(e) =~= Set::empty());
    lemma_empty_set_seq(d.added_nodes@);
    lemma_empty_set_seq(d.removed_nodes@);
    lemma_empty_set_seq(d.added_edges@);
    lemma_empty_set_seq(d.removed_edges@);
    assert forall|id: Seq<char>| !changed_among(node_keys(g.nodes@), g.nodes@, g.nodes@).contains(id) by {
        lemma_no_change(node_under(g.nodes@, id));
    }
    if d.changed_nodes@.len() > 0 {
        assert(change_ids(d.changed_nodes@).to_set().contains(change_ids(d.changed_nodes@)[0]));
    }
    let f = finding_keys(g.findings@).to_set();
    assert(f.difference(f) =~= Set::empty());
    if d.new_findings@.len() > 0 {
        assert(finding_keys(d.new_findings@).to_set().contains(finding_keys(d.new_findings@)[0]));
    }
    if d.resolved_findings@.len() > 0 {
        assert(finding_keys(d.resolved_findings@).to_set().contains(finding_keys(d.resolved_findings@)[0]));
    }
}

/// No finding key is both new and resolved, and no node id both added and
/// removed.
pub proof fn lemma_new_and_resolved_disjoint(prev: Audiolabs, curr: Audiolabs, d: GraphDelta)
    requires
        delta_of(Some(prev), curr, d),
    ensures
        forall|i: int, j: int|
            0 <= i < d.new_findings@.len() && 0 <= j < d.resolved_findings@.len() ==> key_of(
                (#[trigger] d.new_findings@[i])@,
            ) != key_of((#[trigger] d.resolved_findings@[j])@),
        forall|i: int, j: int|
            0 <= i < d.added_nodes@.len() && 0 <= j < d.removed_nodes@.len() ==> (#[trigger] d.added_nodes@[i])@
                != (#[trigger] d.removed_nodes@[j])@,
{
    assert forall|i: int, j: int|
        0 <= i < d.new_findings@.len() && 0 <= j < d.resolved_findings@.len() implies key_of(
            (#[trigger] d.new_findings@[i])@,
        ) != key_of((#[trigger] d.resolved_findings@[j])@) by {
        assert(finding_keys(d.new_findings@)[i] == key_of(d.new_findings@[i]@));
        assert(finding_keys(d.new_findings@).to_set().contains(key_of(d.new_findings@[i]@)));
        assert(finding_keys(d.resolved_findings@)[j] == key_of(d.resolved_findings@[j]@));
        assert(finding_keys(d.resolved_findings@).to_set().contains(key_of(d.resolved_findings@[j]@)));
    }
    assert forall|i: int, j: int|
        0 <= i < d.added_nodes@.len() && 0 <= j < d.removed_nodes@.len() implies (#[trigger] d.added_nodes@[i])@
            != (#[trigger] d.removed_nodes@[j])@ by {
        assert(strs(d.added_nodes@)[i] == d.added_nodes@[i]@);
        assert(strs(d.added_nodes@).to_set().contains(d.added_nodes@[i]@));
        assert(strs(d.removed_nodes@)[j] == d.removed_nodes@[j]@);
        assert(strs(d.removed_nodes@).to_set().contains(d.removed_nodes@[j]@));
    }
}

proof fn lemma_same_sorted(a: Seq<Seq<char>>, b: Seq<Seq<char>>)
    requires
        sorted(a),
        sorted(b),
        a.to_set() == b.to_set(),
    ensures
        a == b,
{
    crate::text::lemma_canon(a);
    crate::text::lemma_canon(b);
}

proof fn lemma_same_findings(from: Seq<Finding>, minus: Seq<Finding>, x: Seq<Finding>, y: Seq<Finding>)
    requires
        findings_listed(from, minus, x),
        findings_listed(from, minus, y),
    ensures
        crate::findings::fviews(x) == crate::findings::fviews(y),
{
    lemma_same_sorted(finding_keys(x), finding_keys(y));
    assert(x.len() == finding_keys(x).len() && y.len() == finding_keys(y).len());
    assert forall|k: int| 0 <= k < x.len() implies x[k]@ == y[k]@ by {
        assert(finding_keys(x)[k] == key_of(x[k]@));
        assert(finding_keys(y)[k] == key_of(y[k]@));
    }
    assert(crate::findings::fviews(x) =~= crate::findings::fviews(y));
}

/// Swapping the two generations swaps the delta: what one comparison lists
/// as added nodes and edges the reverse comparison lists as removed (and the
/// other way round), and its new findings are the reverse's resolved ones.
pub proof fn lemma_delta_reversed(a: Audiolabs, b: Audiolabs, d1: GraphDelta, d2: GraphDelta)
    requires
        delta_of(Some(a), b, d1),
        delta_of(Some(b), a, d2),
    ensures
        strs(d1.added_nodes@) == strs(d2.removed_nodes@),
        strs(d1.removed_nodes@) == strs(d2.added_nodes@),
        strs(d1.added_edges@) == strs(d2.removed_edges@),
        strs(d1.removed_edges@) == strs(d2.added_edges@),
        crate::findings::fviews(d1.new_findings@) == crate::findings::fviews(d2.resolved_findings@),
        crate::findings::fviews(d1.resolved_findings@) == crate::findings::fviews(d2.new_findings@),
{
    lemma_same_sorted(strs(d1.added_nodes@), strs(d2.removed_nodes@));
    lemma_same_sorted(strs(d1.removed_nodes@), strs(d2.added_nodes@));
    lemma_same_sorted(strs(d1.added_edges@), strs(d2.removed_edges@));
    lemma_same_sorted(strs(d1.removed_edges@), strs(d2.added_edges@));
    lemma_same_findings(b.findings@, a.findings@, d1.new_findings@, d2.resolved_findings@);
    lemma_same_findings(a.findings@, b.findings@, d1.resolved_findings@, d2.new_findings@);
}

/// A node kept under the same id in both generations whose param count went
/// up or down is listed among the changed nodes, and its change lines hold
/// `params: <old count> → <new count>`.
pub proof fn lemma_params_change_listed(prev: Audiolabs, curr: Audiolabs, d: GraphDelta, id: Seq<char>)
    requires
        delta_of(Some(prev), curr, d),
        node_keys(prev.nodes@).contains(id),
        node_keys(curr.nodes@).contains(id),
        params_of(node_under(prev.nodes@, id)) != params_of(node_under(curr.nodes@, id)),
    ensures
        exists|k: int|
            0 <= k < d.changed_nodes@.len() && (#[trigger] d.changed_nodes@[k]).id@ == id && strs(
                d.changed_nodes@[k].changes@,
            ).contains(
                "params: "@ + dec(params_of(node_under(prev.nodes@, id))) + " → "@ + dec(
                    params_of(node_under(curr.nodes@, id)),
                ),
            ),
{
    let p = node_under(prev.nodes@, id);
    let c = node_under(curr.nodes@, id);
    lemma_field_change_lines(p, c);
    lemma_changed_node_listed(prev, curr, d, id);
}

/// The change lines of a node hold one line per field that differs between
/// its two versions: version, migration status, frameworks, param count and
/// IPC signals, each as `<field>: <before> → <after>`.
pub proof fn lemma_field_change_lines(p: Node, c: Node)
    ensures
        opt_view(p.version) != opt_view(c.version) ==> node_changes(p, c).contains(
            "version: "@ + or_q(p.version) + " → "@ + or_q(c.version),
        ),
        opt_view(p.migration_status) != opt_view(c.migration_status) ==> node_changes(p, c).contains(
            "migration: "@ + or_q(p.migration_status) + " → "@ + or_q(c.migration_status),
        ),
        strs(p.frameworks@) != strs(c.frameworks@) ==> node_changes(p, c).contains(
            "frameworks: "@ + debug_list(strs(p.frameworks@)) + " → "@ + debug_list(strs(c.frameworks@)),
        ),
        params_of(p) != params_of(c) ==> node_changes(p, c).contains(
            "params: "@ + dec(params_of(p)) + " → "@ + dec(params_of(c)),
        ),
        ipc_of(p) != ipc_of(c) ==> node_changes(p, c).contains(
            "ipc: "@ + debug_set(ipc_of(p)) + " → "@ + debug_set(ipc_of(c)),
        ),
{
    reveal_strlit(": ");
    reveal_strlit("version");
    reveal_strlit("version: ");
    reveal_strlit("migration");
    reveal_strlit("migration: ");
    reveal_strlit("frameworks");
    reveal_strlit("frameworks: ");
    reveal_strlit("params");
    reveal_strlit("params: ");
    reveal_strlit("ipc");
    reveal_strlit("ipc: ");
    assert("version"@ + ": "@ =~= "version: "@);
    assert("migration"@ + ": "@ =~= "migration: "@);
    assert("frameworks"@ + ": "@ =~= "frameworks: "@);
    assert("params"@ + ": "@ =~= "params: "@);
    assert("ipc"@ + ": "@ =~= "ipc: "@);
    let l1 = line_if(opt_view(p.version) != opt_view(c.version), arrow("version"@, or_q(p.version), or_q(c.version)));
    let l2 = line_if(
        opt_view(p.migration_status) != opt_view(c.migration_status),
        arrow("migration"@, or_q(p.migration_status), or_q(c.migration_status)),
    );
    let l3 = line_if(
        strs(p.frameworks@) != strs(c.frameworks@),
        arrow("frameworks"@, debug_list(strs(p.frameworks@)), debug_list(strs(c.frameworks@))),
    );
    let l4 = dep_changes(strs(p.internal_deps@), strs(c.internal_deps@));
    let l5 = line_if(params_of(p) != params_of(c), arrow("params"@, dec(params_of(p)), dec(params_of(c))));
    let l6 = line_if(ipc_of(p) != ipc_of(c), arrow("ipc"@, debug_set(ipc_of(p)), debug_set(ipc_of(c))));
    let ch = node_changes(p, c);
    assert(ch == l1 + l2 + l3 + l4 + l5 + l6 + file_changes(files_of(p), files_of(c)));
    if opt_view(p.version) != opt_view(c.version) {
        assert(arrow("version"@, or_q(p.version), or_q(c.version)) =~= "version: "@ + or_q(p.version) + " → "@ + or_q(c.version));
        assert(ch[0] == l1[0]);
    }
    if opt_view(p.migration_status) != opt_view(c.migration_status) {
        assert(arrow("migration"@, or_q(p.migration_status), or_q(c.migration_status)) =~= "migration: "@ + or_q(
            p.migration_status,
        ) + " → "@ + or_q(c.migration_status));
        assert(ch[l1.len() as int] == l2[0]);
    }
    if strs(p.frameworks@) != strs(c.frameworks@) {
        assert(arrow("frameworks"@, debug_list(strs(p.frameworks@)), debug_list(strs(c.frameworks@))) =~= "frameworks: "@
            + debug_list(strs(p.frameworks@)) + " → "@ + debug_list(strs(c.frameworks@)));
        assert(ch[(l1.len() + l2.len()) as int] == l3[0]);
    }
    if params_of(p) != params_of(c) {
        assert(arrow("params"@, dec(params_of(p)), dec(params_of(c))) =~= "params: "@ + dec(params_of(p)) + " → "@ + dec(
            params_of(c),
        ));
        assert(ch[(l1.len() + l2.len() + l3.len() + l4.len()) as int] == l5[0]);
    }
    if ipc_of(p) != ipc_of(c) {
        assert(arrow("ipc"@, debug_set(ipc_of(p)), debug_set(ipc_of(c))) =~= "ipc: "@ + debug_set(ipc_of(p)) + " → "@
            + debug_set(ipc_of(c)));
        assert(ch[(l1.len() + l2.len() + l3.len() + l4.len() + l5.len()) as int] == l6[0]);
    }
}

/// A node kept under the same id in both generations whose version,
/// migration status, frameworks, param count or IPC signals differ is listed
/// among the changed nodes, with exactly its change lines.
pub proof fn lemma_changed_node_listed(prev: Audiolabs, curr: Audiolabs, d: GraphDelta, id: Seq<char>)
    requires
        delta_of(Some(prev), curr, d),
        node_keys(prev.nodes@).contains(id),
        node_keys(curr.nodes@).contains(id),
        ({
            let p = node_under(prev.nodes@, id);
            let c = node_under(curr.nodes@, id);
            ||| opt_view(p.version) != opt_view(c.version)
            ||| opt_view(p.migration_status) != opt_view(c.migration_status)
            ||| strs(p.frameworks@) != strs(c.frameworks@)
            ||| params_of(p) != params_of(c)
            ||| ipc_of(p) != ipc_of(c)
        }),
    ensures
        exists|k: int|
            0 <= k < d.changed_nodes@.len() && (#[trigger] d.changed_nodes@[k]).id@ == id && strs(
                d.changed_nodes@[k].changes@,
            ) == node_changes(node_under(prev.nodes@, id), node_under(curr.nodes@, id)),
{
    let p = node_under(prev.nodes@, id);
    let c = node_under(curr.nodes@, id);
    lemma_field_change_lines(p, c);
    assert(node_changes(p, c).len() > 0);
    let cs = d.changed_nodes@;
    assert(changed_among(node_keys(prev.nodes@), prev.nodes@, curr.nodes@).contains(id));
    assert(change_ids(cs).to_set().contains(id));
    let k = choose|k: int| 0 <= k < change_ids(cs).len() && change_ids(cs)[k] == id;
    assert(cs[k].id@ == id);
}

} // verus!
