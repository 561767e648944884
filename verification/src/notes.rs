//! Per-node notes: an AUTO block regenerated from the graph (led by dense
//! `[ATOM]` lines agents scan first) followed by a human body that survives
//! regeneration, plus the notes index and the workspace memory note.
use vstd::prelude::*;

use crate::agent::{
    findings_with, item_if, of_severity, push_item, roles_of, short_id, short_of, truncate_chars,
    truncate_line,
};
use crate::findings::{fviews, Finding, FindingView, Severity};
use crate::text::{assoc_get, canon, cat2, cat3, dec, first_n, lookup, push_usize, str_eq};
use crate::{Audiolabs, Edge, Node};
use crate::text::{
    ascii_alnum, chars_of, drop_prefixes, drop_prefixes_str, ends_with, ends_with_str, find,
    find_from, find_str, has_sub, is_ascii_alnum, occurs_at, is_ws, join, join_strings, opt_view, owned, push_char, push_str,
    slice_string, strs, ws,
};

verus! {

/// At most this many graph atoms per note.
pub const MAX_GRAPH_ATOMS: usize = 12;

/// Opens the regenerated block of a note.
pub const AUTO_START: &'static str = "<!-- AGAL:AUTO-START -->";

/// Closes the regenerated block of a note.
pub const AUTO_END: &'static str = "<!-- AGAL:AUTO-END -->";

/// Everything below this line is the human body, kept on regenerate.
pub const HUMAN_MARK: &'static str = "<!-- AGAL:HUMAN — edit below this line; preserved on regenerate -->";

/// Body of a note that has no human text yet.
pub const HUMAN_TEMPLATE: &'static str = "## Intent\n\n_Why this crate/plugin exists. Edit freely._\n\n## Open\n\n- [ ] \n\n## Decisions\n\n_Architecture choices worth remembering._\n\n## Atoms (human)\n\n_Graph atoms live **above** in AUTO. Add durable decisions/lessons here:_\n\n```text\n[ATOM] type=decision|lesson|constraint | detail=…\n```\n";

/// `notes/_workspace.md`: durable workspace memory, written once and never
/// overwritten.
pub const WORKSPACE_NOTE: &'static str = "# Workspace memory\n\n**Summary:** Durable cross-plugin / cross-crate notes for agents.  \n**Never overwritten** by `agal .` (unlike per-node AUTO blocks).  \nKeep this file short (~80 lines). Prefer `[ATOM]` one-liners.\n\n## Atoms\n\n```text\n[ATOM] type=decision|lesson|constraint | detail=…\n```\n\n## Open\n\n- [ ]\n\n## Decisions\n\n_Workspace-wide architecture choices worth remembering._\n";

/// What to write to `notes/_workspace.md`: the seed while the file does not
/// exist, nothing once it does (workspace memory is never overwritten).
pub fn workspace_note_seed(present: bool) -> (r: Option<&'static str>)
    ensures
        r == if present {
            None
        } else {
            Some(WORKSPACE_NOTE)
        },
{
    if present {
        None
    } else {
        Some(WORKSPACE_NOTE)
    }
}

// ---------------------------------------------------------------------------
// File names and atom text
// ---------------------------------------------------------------------------

/// A character of a note file name: ASCII alphanumerics, `-` and `_` kept,
/// anything else `_`.
pub open spec fn file_char(c: char) -> char {
    if ascii_alnum(c) || c == '-' || c == '_' {
        c
    } else {
        '_'
    }
}

/// A node name made safe as a file name.
pub open spec fn safe_file_name(s: Seq<char>) -> Seq<char> {
    s.map_values(|c: char| file_char(c))
}

/// A node name made safe as a file name, character by character.
pub fn sanitize_filename(name: &str) -> (r: String)
    ensures
        r@ == safe_file_name(name@),
{
    let x = chars_of(name);
    let mut r = String::new();
    let mut i: usize = 0;
    while i < x.len()
        invariant
            i <= x@.len(),
            x@ == name@,
            r@ == safe_file_name(name@).take(i as int),
        decreases x@.len() - i,
    {
        let c = x[i];
        let d = if is_ascii_alnum(c) || c == '-' || c == '_' {
            c
        } else {
            '_'
        };
        push_char(&mut r, d);
        assert(safe_file_name(name@).take(i + 1) =~= safe_file_name(name@).take(i as int).push(d));
        i = i + 1;
    }
    assert(safe_file_name(name@).take(x@.len() as int) =~= safe_file_name(name@));
    r
}

/// The file stem of a node's note: its safe name, with `-node` appended
/// where that name is taken by the workspace memory (`_workspace`) or the
/// notes index (`_index`), so a node note never overwrites either.
pub open spec fn note_stem(name: Seq<char>) -> Seq<char> {
    let b = safe_file_name(name);
    if b == "_workspace"@ || b == "_index"@ {
        b + "-node"@
    } else {
        b
    }
}

/// The file stem of a node's note (see [`note_stem`]).
pub fn note_stem_of(name: &str) -> (r: String)
    ensures
        r@ == note_stem(name@),
{
    let mut b = sanitize_filename(name);
    if str_eq(b.as_str(), "_workspace") || str_eq(b.as_str(), "_index") {
        push_str(&mut b, "-node");
    }
    b
}

/// Line breaks and `|` become blanks inside an atom.
pub open spec fn blank_char(c: char) -> char {
    if c == '\n' || c == '\r' || c == '|' {
        ' '
    } else {
        c
    }
}

/// Words found so far and the word being read, left to right.
pub open spec fn words_acc(s: Seq<char>) -> (Seq<Seq<char>>, Seq<char>)
    decreases s.len(),
{
    if s.len() == 0 {
        (Seq::empty(), Seq::empty())
    } else {
        let p = words_acc(s.drop_last());
        let c = s.last();
        if ws(c) {
            if p.1.len() > 0 {
                (p.0.push(p.1), Seq::empty())
            } else {
                p
            }
        } else {
            (p.0, p.1.push(c))
        }
    }
}

/// The whitespace-separated words of `s` (`str::split_whitespace`).
pub open spec fn words(s: Seq<char>) -> Seq<Seq<char>> {
    let p = words_acc(s);
    if p.1.len() > 0 {
        p.0.push(p.1)
    } else {
        p.0
    }
}

/// One-line atom text: breaks and `|` blanked, runs of whitespace collapsed
/// to one space, no leading or trailing blanks.
pub open spec fn atom_clean(s: Seq<char>) -> Seq<char> {
    join(words(s.map_values(|c: char| blank_char(c))), " "@)
}

fn push_word(w: &mut Vec<String>, x: String)
    ensures
        strs(final(w)@) == strs(old(w)@).push(x@),
{
    let ghost w0 = w@;
    w.push(x);
    proof {
        crate::text::lemma_strs_push(w0, x);
    }
}

/// Atom text on one line (see [`atom_clean`]).
pub fn sanitize_atom_detail(s: &str) -> (r: String)
    ensures
        r@ == atom_clean(s@),
{
    let x = chars_of(s);
    let ghost b = s@.map_values(|c: char| blank_char(c));
    let mut w: Vec<String> = Vec::new();
    let mut cur: Vec<char> = Vec::new();
    let mut i: usize = 0;
    while i < x.len()
        invariant
            i <= x@.len(),
            x@ == s@,
            b == s@.map_values(|c: char| blank_char(c)),
            strs(w@) == words_acc(b.take(i as int)).0,
            cur@ == words_acc(b.take(i as int)).1,
        decreases x@.len() - i,
    {
        let c0 = x[i];
        let c = if c0 == '\n' || c0 == '\r' || c0 == '|' {
            ' '
        } else {
            c0
        };
        assert(b.take(i + 1).drop_last() =~= b.take(i as int));
        assert(b.take(i + 1).last() == c);
        if is_ws(c) {
            if cur.len() > 0 {
                let t = slice_string(&cur, 0, cur.len());
                assert(cur@.subrange(0, cur@.len() as int) =~= cur@);
                push_word(&mut w, t);
                cur = Vec::new();
                assert(cur@ =~= Seq::<char>::empty());
            }
        } else {
            cur.push(c);
        }
        i = i + 1;
    }
    assert(b.take(x@.len() as int) =~= b);
    if cur.len() > 0 {
        let t = slice_string(&cur, 0, cur.len());
        assert(cur@.subrange(0, cur@.len() as int) =~= cur@);
        push_word(&mut w, t);
    }
    join_strings(&w, " ")
}

// ---------------------------------------------------------------------------
// Composing a note and keeping its human body
// ---------------------------------------------------------------------------

/// Number of leading `\r` / `\n` characters.
pub open spec fn lead_nl(s: Seq<char>) -> nat
    decreases s.len(),
{
    if s.len() > 0 && (s[0] == '\r' || s[0] == '\n') {
        1 + lead_nl(s.drop_first())
    } else {
        0
    }
}

/// `s` without leading line breaks.
pub open spec fn strip_nl(s: Seq<char>) -> Seq<char> {
    s.skip(lead_nl(s) as int)
}

/// The human body kept from an existing note: what follows the HUMAN marker;
/// failing that, a non-empty text after the AUTO end marker (with a stray
/// marker and line breaks removed).
pub open spec fn human_body(content: Seq<char>) -> Option<Seq<char>> {
    match find(content, HUMAN_MARK@) {
        Some(i) => Some(strip_nl(content.skip(i + HUMAN_MARK@.len()))),
        None => match find(content, AUTO_END@) {
            Some(i) => {
                let t = strip_nl(drop_prefixes(strip_nl(content.skip(i + AUTO_END@.len())), HUMAN_MARK@));
                if t.len() > 0 {
                    Some(t)
                } else {
                    None
                }
            },
            None => None,
        },
    }
}

fn strip_nl_str(s: &str) -> (r: String)
    ensures
        r@ == strip_nl(s@),
{
    let x = chars_of(s);
    let mut i: usize = 0;
    assert(x@.skip(0) =~= x@);
    while i < x.len() && (x[i] == '\r' || x[i] == '\n')
        invariant
            i <= x@.len(),
            x@ == s@,
            lead_nl(s@) == i + lead_nl(s@.skip(i as int)),
        decreases x@.len() - i,
    {
        assert(s@.skip(i as int).drop_first() =~= s@.skip(i + 1));
        i = i + 1;
    }
    assert(lead_nl(s@.skip(i as int)) == 0);
    assert(x@.subrange(i as int, x@.len() as int) =~= s@.skip(i as int));
    slice_string(&x, i, x.len())
}

fn after_match(s: &str, i: usize, p: &str) -> (r: String)
    requires
        find(s@, p@) == Some(i as int),
    ensures
        r@ == s@.skip(i + p@.len()),
{
    proof {
        crate::text::lemma_find_from(s@, p@, 0);
        assert(crate::text::occurs_at(s@, p@, i as int));
    }
    let x = chars_of(s);
    let y = chars_of(p);
    let n = x.len();
    let k = y.len();
    assert(i + k <= n);
    assert(x@.subrange(i + k, n as int) =~= s@.skip(i + p@.len()));
    slice_string(&x, i + k, n)
}

/// The human body of an existing note, if it has one (see [`human_body`]).
pub fn human_body_of(content: &str) -> (r: Option<String>)
    ensures
        opt_view(r) == human_body(content@),
{
    match find_str(content, HUMAN_MARK) {
        Some(i) => {
            let after = after_match(content, i, HUMAN_MARK);
            Some(strip_nl_str(after.as_str()))
        },
        None => match find_str(content, AUTO_END) {
            Some(i) => {
                let after = after_match(content, i, AUTO_END);
                let a = strip_nl_str(after.as_str());
                let b = drop_prefixes_str(a.as_str(), HUMAN_MARK);
                let t = strip_nl_str(b.as_str());
                if chars_of(t.as_str()).len() > 0 {
                    Some(t)
                } else {
                    None
                }
            },
            None => None,
        },
    }
}

/// A full note: the AUTO block, the HUMAN marker, then the human body (or
/// the starter template when there is none).
pub open spec fn note_text(auto: Seq<char>, human: Option<Seq<char>>) -> Seq<char> {
    AUTO_START@ + "\n"@ + auto + (if ends_with(auto, "\n"@) {
        Seq::empty()
    } else {
        "\n"@
    }) + AUTO_END@ + "\n\n"@ + HUMAN_MARK@ + "\n\n"@ + if human is Some && human->0.len() > 0 {
        human->0 + if ends_with(human->0, "\n"@) {
            Seq::empty()
        } else {
            "\n"@
        }
    } else {
        HUMAN_TEMPLATE@
    }
}

/// A note from its AUTO block and the human body kept from before.
pub fn compose(auto: &str, human: Option<&str>) -> (s: String)
    ensures
        s@ == note_text(auto@, match human {
            Some(h) => Some(h@),
            None => None,
        }),
{
    let mut s = owned(AUTO_START);
    push_str(&mut s, "\n");
    push_str(&mut s, auto);
    if !ends_with_str(auto, "\n") {
        push_str(&mut s, "\n");
    }
    push_str(&mut s, AUTO_END);
    push_str(&mut s, "\n\n");
    push_str(&mut s, HUMAN_MARK);
    push_str(&mut s, "\n\n");
    match human {
        Some(h) => {
            if chars_of(h).len() > 0 {
                push_str(&mut s, h);
                if !ends_with_str(h, "\n") {
                    push_str(&mut s, "\n");
                }
            } else {
                push_str(&mut s, HUMAN_TEMPLATE);
            }
        },
        None => {
            push_str(&mut s, HUMAN_TEMPLATE);
        },
    }
    s
}

// ---------------------------------------------------------------------------
// Graph atoms
// ---------------------------------------------------------------------------

/// One atom: its type (`fact` / `constraint`) and its detail.
pub type Atom = (Seq<char>, Seq<char>);

/// Views of a list of (type, detail) pairs.
pub open spec fn aviews(v: Seq<(String, String)>) -> Seq<Atom> {
    v.map_values(|p: (String, String)| (p.0@, p.1@))
}

/// Findings about the node `id`, in order.
pub open spec fn about_node(fs: Seq<FindingView>, id: Seq<char>) -> Seq<FindingView>
    decreases fs.len(),
{
    if fs.len() == 0 {
        fs
    } else if fs.last().2 == Some(id) {
        about_node(fs.drop_last(), id).push(fs.last())
    } else {
        about_node(fs.drop_last(), id)
    }
}

/// Details as `fact` atoms.
pub open spec fn facts(xs: Seq<Seq<char>>) -> Seq<Atom> {
    xs.map_values(|x: Seq<char>| ("fact"@, x))
}

/// The migration atom of a node.
pub open spec fn mig_atoms(st: Option<Seq<char>>) -> Seq<Atom> {
    match st {
        Some(m) => if m == "legacy"@ {
            seq![("constraint"@, "migration=legacy — migrate before feature work"@)]
        } else if m == "unknown"@ {
            seq![("constraint"@, "migration=unknown"@)]
        } else if m == "migrated"@ {
            seq![("fact"@, "migration=migrated"@)]
        } else {
            seq![("fact"@, "migration="@ + m)]
        },
        None => Seq::empty(),
    }
}

/// Atoms from the source summary: formats, roles, process and editor.
pub open spec fn ast_atoms(a: Option<crate::ast::AstSummary>) -> Seq<Atom> {
    match a {
        Some(a) => {
            let roles = canon(roles_of(a));
            facts(
                item_if(a.plugin_formats@.len() > 0, "formats="@ + join(strs(a.plugin_formats@), "+"@))
                    + item_if(roles.len() > 0, "roles="@ + join(roles, "+"@)) + item_if(
                    a.process_hooks@.len() > 0 || a.process_method_count > 0,
                    "has_process=true"@,
                ) + item_if(a.editor_functions@.len() > 0, "has_editor=true"@),
            )
        },
        None => Seq::empty(),
    }
}

/// UI, IPC and runtime edges: the strongest outbound signals.
pub open spec fn semantic_kind(k: Seq<char>) -> bool {
    k == "uses_ui"@ || k == "ipc_peer"@ || k == "runtime_depends_on"@
}

/// `kind→target` for the strong outbound edges of `id`.
pub open spec fn out_facts(es: Seq<Edge>, id: Seq<char>) -> Seq<Seq<char>>
    decreases es.len(),
{
    if es.len() == 0 {
        Seq::empty()
    } else {
        let e = es.last();
        out_facts(es.drop_last(), id) + item_if(
            e.from@ == id && semantic_kind(e.kind@),
            e.kind@ + "→"@ + short_of(e.to@),
        )
    }
}

/// Edges pointing at `id`, in order.
pub open spec fn inbound(es: Seq<Edge>, id: Seq<char>) -> Seq<Edge>
    decreases es.len(),
{
    if es.len() == 0 {
        es
    } else if es.last().to@ == id {
        inbound(es.drop_last(), id).push(es.last())
    } else {
        inbound(es.drop_last(), id)
    }
}

/// `depends_on=` facts of workspace dependencies.
pub open spec fn dep_facts(ds: Seq<Seq<char>>) -> Seq<Seq<char>> {
    ds.map_values(|d: Seq<char>| "depends_on="@ + short_of(d))
}

/// `used_by=` facts of inbound edges.
pub open spec fn used_by_facts(es: Seq<Edge>) -> Seq<Seq<char>> {
    es.map_values(|e: Edge| "used_by="@ + short_of(e.from@) + " via "@ + e.kind@)
}

/// The detail of a finding atom (message and fix shortened).
pub open spec fn finding_atom(f: FindingView) -> Seq<char> {
    "["@ + f.0.name() + "] "@ + f.1 + ": "@ + truncate_chars(f.3, 80) + match f.5 {
        Some(x) => " | fix: "@ + truncate_chars(x, 60),
        None => Seq::empty(),
    }
}

/// Findings as `constraint` atoms.
pub open spec fn constraint_atoms(fs: Seq<FindingView>) -> Seq<Atom> {
    fs.map_values(|f: FindingView| ("constraint"@, atom_clean(finding_atom(f))))
}

/// Every atom of a node before the cap: identity, frameworks, migration,
/// source facts, strong outbound edges, three dependencies, three inbound
/// edges, then its errors and warnings (errors first).
pub open spec fn all_atoms(n: Node, g: Audiolabs) -> Seq<Atom> {
    let nf = about_node(fviews(g.findings@), n.id@);
    seq![("fact"@, "kind="@ + n.kind@ + " id="@ + atom_clean(n.id@))] + facts(
        item_if(n.frameworks@.len() > 0, "frameworks="@ + join(strs(n.frameworks@), "+"@)),
    ) + mig_atoms(opt_view(n.migration_status)) + ast_atoms(n.ast_summary) + facts(out_facts(g.edges@, n.id@))
        + facts(dep_facts(first_n(strs(n.internal_deps@), 3))) + facts(
        used_by_facts(first_n(inbound(g.edges@, n.id@), 3)),
    ) + constraint_atoms(of_severity(nf, Severity::Error) + of_severity(nf, Severity::Warn))
}

/// Rendered atom lines.
pub open spec fn atom_lines(atoms: Seq<Atom>) -> Seq<char>
    decreases atoms.len(),
{
    if atoms.len() == 0 {
        Seq::empty()
    } else {
        atom_lines(atoms.drop_last()) + "[ATOM] type="@ + atoms.last().0 + " | detail="@ + atom_clean(
            atoms.last().1,
        ) + "\n"@
    }
}

/// The graph-atoms block of a note: at most twelve atoms.
pub open spec fn graph_atoms(n: Node, g: Audiolabs) -> Seq<char> {
    let atoms = first_n(all_atoms(n, g), MAX_GRAPH_ATOMS as nat);
    if atoms.len() == 0 {
        Seq::empty()
    } else {
        "## Graph atoms (auto)\n\n_Regenerated each `agal .`. Scan these first. Human atoms: below HUMAN marker._\n\n```text\n"@
            + atom_lines(atoms) + "```\n\n"@
    }
}

/// Findings about the node `id` (copies, in order).
pub fn node_findings(fs: &Vec<Finding>, id: &str) -> (r: Vec<Finding>)
    ensures
        fviews(r@) == about_node(fviews(fs@), id@),
{
    let mut r: Vec<Finding> = Vec::new();
    let mut i: usize = 0;
    while i < fs.len()
        invariant
            i <= fs@.len(),
            fviews(r@) == about_node(fviews(fs@).take(i as int), id@),
        decreases fs@.len() - i,
    {
        assert(fviews(fs@).take(i + 1).drop_last() =~= fviews(fs@).take(i as int));
        assert(fviews(fs@).take(i + 1).last() == fs@[i as int]@);
        let hit = match &fs[i].node {
            Some(n) => str_eq(n.as_str(), id),
            None => false,
        };
        if hit {
            let c = fs[i].copy();
            proof {
                crate::findings::lemma_fviews_push(r@, c);
            }
            r.push(c);
        }
        i = i + 1;
    }
    assert(fviews(fs@).take(fs@.len() as int) =~= fviews(fs@));
    r
}

fn push_atom(v: &mut Vec<(String, String)>, ty: &str, d: String)
    ensures
        aviews(final(v)@) == aviews(old(v)@).push((ty@, d@)),
{
    let ghost v0 = v@;
    let t = owned(ty);
    v.push((t, d));
    assert(aviews(v@) =~= aviews(v0).push((ty@, d@)));
}

fn push_facts(v: &mut Vec<(String, String)>, xs: &Vec<String>)
    ensures
        aviews(final(v)@) == aviews(old(v)@) + facts(strs(xs@)),
{
    let ghost v0 = v@;
    let mut i: usize = 0;
    while i < xs.len()
        invariant
            i <= xs@.len(),
            aviews(v@) == aviews(v0) + facts(strs(xs@).take(i as int)),
        decreases xs@.len() - i,
    {
        push_atom(v, "fact", xs[i].clone());
        assert(facts(strs(xs@).take(i + 1)) =~= facts(strs(xs@).take(i as int)).push(("fact"@, xs@[i as int]@)));
        i = i + 1;
    }
    assert(strs(xs@).take(xs@.len() as int) =~= strs(xs@));
}

fn ast_fact_list(a: &crate::ast::AstSummary) -> (r: Vec<String>)
    ensures
        facts(strs(r@)) == ast_atoms(Some(*a)),
{
    let mut r: Vec<String> = Vec::new();
    if a.plugin_formats.len() > 0 {
        let j = join_strings(&a.plugin_formats, "+");
        push_item(&mut r, cat2("formats=", j.as_str()));
    }
    let ghost r1 = strs(r@);
    let roles = a.role_tags();
    proof {
        crate::text::lemma_canon(strs(roles@));
    }
    if roles.len() > 0 {
        let j = join_strings(&roles, "+");
        push_item(&mut r, cat2("roles=", j.as_str()));
    }
    if a.process_hooks.len() > 0 || a.process_method_count > 0 {
        push_item(&mut r, owned("has_process=true"));
    }
    if a.editor_functions.len() > 0 {
        push_item(&mut r, owned("has_editor=true"));
    }
    let ghost roles_s = canon(roles_of(*a));
    assert(strs(r@) =~= item_if(a.plugin_formats@.len() > 0, "formats="@ + join(strs(a.plugin_formats@), "+"@))
        + item_if(roles_s.len() > 0, "roles="@ + join(roles_s, "+"@)) + item_if(
        a.process_hooks@.len() > 0 || a.process_method_count > 0,
        "has_process=true"@,
    ) + item_if(a.editor_functions@.len() > 0, "has_editor=true"@));
    r
}

fn out_fact_list(es: &Vec<Edge>, id: &str) -> (r: Vec<String>)
    ensures
        strs(r@) == out_facts(es@, id@),
{
    let mut r: Vec<String> = Vec::new();
    let mut i: usize = 0;
    while i < es.len()
        invariant
            i <= es@.len(),
            strs(r@) == out_facts(es@.take(i as int), id@),
        decreases es@.len() - i,
    {
        assert(es@.take(i + 1).drop_last() =~= es@.take(i as int));
        let e = &es[i];
        let k = e.kind.as_str();
        if str_eq(e.from.as_str(), id) && (str_eq(k, "uses_ui") || str_eq(k, "ipc_peer") || str_eq(
            k,
            "runtime_depends_on",
        )) {
            let t = cat3(k, "→", short_id(e.to.as_str()).as_str());
            push_item(&mut r, t);
        }
        assert(strs(r@) =~= out_facts(es@.take(i + 1), id@));
        i = i + 1;
    }
    assert(es@.take(es@.len() as int) =~= es@);
    r
}

fn dep_fact_list(ds: &Vec<String>) -> (r: Vec<String>)
    ensures
        strs(r@) == dep_facts(first_n(strs(ds@), 3)),
{
    let mut r: Vec<String> = Vec::new();
    let mut i: usize = 0;
    while i < ds.len() && i < 3
        invariant
            i <= ds@.len(),
            i <= 3,
            strs(r@) == dep_facts(strs(ds@).take(i as int)),
        decreases ds@.len() - i,
    {
        push_item(&mut r, cat2("depends_on=", short_id(ds[i].as_str()).as_str()));
        assert(dep_facts(strs(ds@).take(i + 1)) =~= dep_facts(strs(ds@).take(i as int)).push(
            "depends_on="@ + short_of(ds@[i as int]@),
        ));
        i = i + 1;
    }
    assert(first_n(strs(ds@), 3) =~= strs(ds@).take(i as int));
    r
}

proof fn lemma_first3_push(s: Seq<Edge>, e: Edge)
    ensures
        first_n(s.push(e), 3) == if s.len() < 3 {
            s.push(e)
        } else {
            first_n(s, 3)
        },
{
    if s.len() < 3 {
        assert(first_n(s.push(e), 3) =~= s.push(e));
    } else {
        assert(first_n(s.push(e), 3) =~= first_n(s, 3));
    }
}

fn used_by_list(es: &Vec<Edge>, id: &str) -> (r: Vec<String>)
    ensures
        strs(r@) == used_by_facts(first_n(inbound(es@, id@), 3)),
{
    let mut r: Vec<String> = Vec::new();
    let mut i: usize = 0;
    while i < es.len()
        invariant
            i <= es@.len(),
            strs(r@) == used_by_facts(first_n(inbound(es@.take(i as int), id@), 3)),
            r@.len() == first_n(inbound(es@.take(i as int), id@), 3).len(),
            r@.len() <= 3,
        decreases es@.len() - i,
    {
        assert(es@.take(i + 1).drop_last() =~= es@.take(i as int));
        let ghost pre = inbound(es@.take(i as int), id@);
        if str_eq(es[i].to.as_str(), id) {
            proof {
                lemma_first3_push(pre, es@[i as int]);
            }
            if r.len() < 3 {
                let e = &es[i];
                let mut t = cat2("used_by=", short_id(e.from.as_str()).as_str());
                push_str(&mut t, " via ");
                push_str(&mut t, e.kind.as_str());
                push_item(&mut r, t);
                assert(first_n(pre, 3) =~= pre);
                assert(used_by_facts(pre.push(es@[i as int])) =~= used_by_facts(pre).push(
                    "used_by="@ + short_of(es@[i as int].from@) + " via "@ + es@[i as int].kind@,
                ));
            }
        }
        i = i + 1;
    }
    assert(es@.take(es@.len() as int) =~= es@);
    r
}

fn finding_atom_text(f: &Finding) -> (r: String)
    ensures
        r@ == finding_atom(f@),
{
    let mut d = cat3("[", f.severity.as_str(), "] ");
    push_str(&mut d, f.code.as_str());
    push_str(&mut d, ": ");
    push_str(&mut d, truncate_line(f.message.as_str(), 80).as_str());
    match &f.fix {
        Some(x) => {
            push_str(&mut d, " | fix: ");
            push_str(&mut d, truncate_line(x.as_str(), 60).as_str());
        },
        None => {},
    }
    d
}

fn push_constraints(v: &mut Vec<(String, String)>, fs: &Vec<Finding>)
    ensures
        aviews(final(v)@) == aviews(old(v)@) + constraint_atoms(fviews(fs@)),
{
    let ghost v0 = v@;
    let mut i: usize = 0;
    while i < fs.len()
        invariant
            i <= fs@.len(),
            aviews(v@) == aviews(v0) + constraint_atoms(fviews(fs@).take(i as int)),
        decreases fs@.len() - i,
    {
        let d = finding_atom_text(&fs[i]);
        push_atom(v, "constraint", sanitize_atom_detail(d.as_str()));
        assert(constraint_atoms(fviews(fs@).take(i + 1)) =~= constraint_atoms(fviews(fs@).take(i as int)).push(
            ("constraint"@, atom_clean(finding_atom(fs@[i as int]@))),
        ));
        i = i + 1;
    }
    assert(fviews(fs@).take(fs@.len() as int) =~= fviews(fs@));
}

fn atom_list(n: &Node, g: &Audiolabs) -> (r: Vec<(String, String)>)
    ensures
        aviews(r@) == all_atoms(*n, *g),
{
    let mut v: Vec<(String, String)> = Vec::new();
    let mut k = cat2("kind=", n.kind.as_str());
    push_str(&mut k, " id=");
    push_str(&mut k, sanitize_atom_detail(n.id.as_str()).as_str());
    push_atom(&mut v, "fact", k);
    let ghost a0 = aviews(v@);
    let mut fw: Vec<String> = Vec::new();
    if n.frameworks.len() > 0 {
        let j = join_strings(&n.frameworks, "+");
        push_item(&mut fw, cat2("frameworks=", j.as_str()));
    }
    assert(strs(fw@) =~= item_if(n.frameworks@.len() > 0, "frameworks="@ + join(strs(n.frameworks@), "+"@)));
    push_facts(&mut v, &fw);
    let ghost a1 = aviews(v@);
    match &n.migration_status {
        Some(m) => {
            let ms = m.as_str();
            if str_eq(ms, "legacy") {
                push_atom(&mut v, "constraint", owned("migration=legacy — migrate before feature work"));
            } else if str_eq(ms, "unknown") {
                push_atom(&mut v, "constraint", owned("migration=unknown"));
            } else if str_eq(ms, "migrated") {
                push_atom(&mut v, "fact", owned("migration=migrated"));
            } else {
                push_atom(&mut v, "fact", cat2("migration=", ms));
            }
        },
        None => {},
    }
    assert(aviews(v@) =~= a1 + mig_atoms(opt_view(n.migration_status)));
    let ghost a2 = aviews(v@);
    match &n.ast_summary {
        Some(a) => {
            let xs = ast_fact_list(a);
            push_facts(&mut v, &xs);
        },
        None => {},
    }
    assert(aviews(v@) =~= a2 + ast_atoms(n.ast_summary));
    let outs = out_fact_list(&g.edges, n.id.as_str());
    push_facts(&mut v, &outs);
    let deps = dep_fact_list(&n.internal_deps);
    push_facts(&mut v, &deps);
    let used = used_by_list(&g.edges, n.id.as_str());
    push_facts(&mut v, &used);
    let nf = node_findings(&g.findings, n.id.as_str());
    let mut items = findings_with(&nf, Severity::Error);
    let mut warns = findings_with(&nf, Severity::Warn);
    let ghost ev = fviews(items@);
    let ghost wv = fviews(warns@);
    items.append(&mut warns);
    assert(fviews(items@) =~= ev + wv);
    push_constraints(&mut v, &items);
    v
}

/// The graph-atoms block of a note (see [`graph_atoms`]).
pub fn render_graph_atoms(n: &Node, g: &Audiolabs) -> (s: String)
    ensures
        s@ == graph_atoms(*n, *g),
{
    let atoms = atom_list(n, g);
    let ghost av = aviews(atoms@);
    let mut s = String::new();
    if atoms.len() == 0 {
        return s;
    }
    push_str(
        &mut s,
        "## Graph atoms (auto)\n\n_Regenerated each `agal .`. Scan these first. Human atoms: below HUMAN marker._\n\n```text\n",
    );
    let ghost s0 = s@;
    let mut i: usize = 0;
    while i < atoms.len() && i < MAX_GRAPH_ATOMS
        invariant
            i <= atoms@.len(),
            i <= MAX_GRAPH_ATOMS,
            av == aviews(atoms@),
            s@ == s0 + atom_lines(av.take(i as int)),
        decreases atoms@.len() - i,
    {
        assert(av.take(i + 1).drop_last() =~= av.take(i as int));
        push_str(&mut s, "[ATOM] type=");
        push_str(&mut s, atoms[i].0.as_str());
        push_str(&mut s, " | detail=");
        push_str(&mut s, sanitize_atom_detail(atoms[i].1.as_str()).as_str());
        push_str(&mut s, "\n");
        i = i + 1;
    }
    assert(first_n(av, MAX_GRAPH_ATOMS as nat) =~= av.take(i as int));
    push_str(&mut s, "```\n\n");
    s
}

// ---------------------------------------------------------------------------
// The AUTO block of a note
// ---------------------------------------------------------------------------

/// `pre + v + post` when the value is present.
pub open spec fn opt_row(o: Option<Seq<char>>, pre: Seq<char>, post: Seq<char>) -> Seq<char> {
    match o {
        Some(v) => pre + v + post,
        None => Seq::empty(),
    }
}

/// Title and property table of a note.
pub open spec fn note_header(n: Node, g: Audiolabs) -> Seq<char> {
    "# "@ + n.name@ + "\n\n> Auto-generated from workspace scan. Do not edit between AUTO markers.\n\n| | |\n|---|---|\n| kind | `"@
        + n.kind@ + "` |\n| path | `"@ + n.id@ + "` |\n"@ + opt_row(opt_view(n.version), "| version | "@, " |\n"@)
        + opt_row(opt_view(n.description), "| description | "@, " |\n"@) + (if n.frameworks@.len() > 0 {
        "| frameworks | "@ + join(strs(n.frameworks@), ", "@) + " |\n"@
    } else {
        Seq::empty()
    }) + opt_row(opt_view(n.migration_status), "| migration | **"@, "** |\n"@) + "| generated | `"@
        + g.generated_at@ + "` |\n\n"@
}

/// One list line per workspace dependency.
pub open spec fn dep_lines(ds: Seq<Seq<char>>) -> Seq<char>
    decreases ds.len(),
{
    if ds.len() == 0 {
        Seq::empty()
    } else {
        dep_lines(ds.drop_last()) + "- `"@ + short_of(ds.last()) + "`\n"@
    }
}

/// The workspace dependencies of a node.
pub open spec fn deps_section(n: Node) -> Seq<char> {
    if n.internal_deps@.len() > 0 {
        "## deps (workspace)\n"@ + dep_lines(strs(n.internal_deps@)) + "\n"@
    } else {
        Seq::empty()
    }
}

/// One line per inbound edge.
pub open spec fn dependent_lines(es: Seq<Edge>) -> Seq<char>
    decreases es.len(),
{
    if es.len() == 0 {
        Seq::empty()
    } else {
        let e = es.last();
        dependent_lines(es.drop_last()) + "- `"@ + short_of(e.from@) + "` --"@ + e.kind@ + "--> `"@ + short_of(e.to@)
            + "`\n"@
    }
}

/// Who points at the node (its blast radius).
pub open spec fn dependents_section(g: Audiolabs, id: Seq<char>) -> Seq<char> {
    let ins = inbound(g.edges@, id);
    if ins.len() > 0 {
        "## dependents (inbound)\n"@ + dependent_lines(ins) + "\n"@
    } else {
        Seq::empty()
    }
}

/// Outbound edges of `id` other than plain (build) dependencies, in order.
pub open spec fn semantic_out(es: Seq<Edge>, id: Seq<char>) -> Seq<Edge>
    decreases es.len(),
{
    if es.len() == 0 {
        es
    } else {
        let e = es.last();
        if e.from@ == id && e.kind@ != "depends_on"@ && e.kind@ != "build_depends_on"@ {
            semantic_out(es.drop_last(), id).push(e)
        } else {
            semantic_out(es.drop_last(), id)
        }
    }
}

/// One line per semantic edge, with its note.
pub open spec fn semantic_lines(es: Seq<Edge>) -> Seq<char>
    decreases es.len(),
{
    if es.len() == 0 {
        Seq::empty()
    } else {
        let e = es.last();
        semantic_lines(es.drop_last()) + "- **"@ + e.kind@ + "** → `"@ + short_of(e.to@) + "`"@ + opt_row(
            opt_view(e.note),
            " — "@,
            Seq::empty(),
        ) + "\n"@
    }
}

/// The semantic outbound edges of a node.
pub open spec fn semantic_section(g: Audiolabs, id: Seq<char>) -> Seq<char> {
    let out = semantic_out(g.edges@, id);
    if out.len() > 0 {
        "## semantic edges\n"@ + semantic_lines(out) + "\n"@
    } else {
        Seq::empty()
    }
}

/// Number of fields recorded for a Params struct.
pub open spec fn field_count(pf: Seq<(String, Vec<crate::ast::ParamField>)>, p: Seq<char>) -> nat {
    match lookup(pf, p) {
        Some(f) => f@.len(),
        None => 0,
    }
}

/// One line per Params struct.
pub open spec fn params_lines(ps: Seq<Seq<char>>, pf: Seq<(String, Vec<crate::ast::ParamField>)>) -> Seq<char>
    decreases ps.len(),
{
    if ps.len() == 0 {
        Seq::empty()
    } else {
        params_lines(ps.drop_last(), pf) + "- params: "@ + ps.last() + " ("@ + dec(field_count(pf, ps.last()))
            + " fields)\n"@
    }
}

/// `text` when `cond` holds.
pub open spec fn text_if(cond: bool, text: Seq<char>) -> Seq<char> {
    if cond {
        text
    } else {
        Seq::empty()
    }
}

/// The structure lines of a source summary.
pub open spec fn structure_lines(a: crate::ast::AstSummary, is_crate: bool) -> Seq<char> {
    structure_head(a) + structure_tail(a, is_crate)
}

/// Logic, params, process, editor, formats and IPC lines.
pub open spec fn structure_head(a: crate::ast::AstSummary) -> Seq<char> {
    text_if(a.plugin_logic_impls@.len() > 0, "- logic: "@ + join(strs(a.plugin_logic_impls@), ", "@) + "\n"@)
        + params_lines(strs(a.params_structs@), a.params_fields@) + text_if(
        a.process_hooks@.len() > 0,
        "- process: "@ + join(strs(a.process_hooks@), ", "@) + "\n"@,
    ) + text_if(a.editor_functions@.len() > 0, "- editor: yes\n"@) + text_if(
        a.plugin_formats@.len() > 0,
        "- formats: "@ + join(strs(a.plugin_formats@), ", "@) + "\n"@,
    ) + text_if(a.ipc_signals@.len() > 0, "- ipc: "@ + join(strs(a.ipc_signals@), ", "@) + "\n"@)
}

/// Slint, DSP method, public API and role lines.
pub open spec fn structure_tail(a: crate::ast::AstSummary, is_crate: bool) -> Seq<char> {
    let roles = canon(roles_of(a));
    text_if(
        a.slint_components@.len() > 0,
        "- slint components: "@ + dec(a.slint_components@.len()) + "\n"@,
    ) + text_if(a.slint_exports@.len() > 0, "- slint exports: "@ + dec(a.slint_exports@.len()) + "\n"@)
        + text_if(
        a.process_method_count > 0 && is_crate,
        "- process methods (DSP): "@ + dec(a.process_method_count as nat) + "\n"@,
    ) + text_if(
        a.public_api@.len() > 0 && is_crate,
        "- public_api symbols: "@ + dec(a.public_api@.len()) + " (see json)\n"@,
    ) + text_if(roles.len() > 0, "- roles: "@ + join(roles, ", "@) + "\n"@)
}

/// The structure section of a node with a source summary.
pub open spec fn structure_section(n: Node) -> Seq<char> {
    match n.ast_summary {
        Some(a) => "## structure\n"@ + structure_lines(a, n.kind@ == "crate"@) + "\n"@,
        None => Seq::empty(),
    }
}

/// One finding line of a note (full message, path and fix).
pub open spec fn note_finding_line(f: FindingView) -> Seq<char> {
    "- ["@ + f.0.name() + "] **"@ + f.1 + "**: "@ + f.3 + opt_row(f.4, " · `"@, "`"@) + opt_row(
        f.5,
        " · fix: "@,
        Seq::empty(),
    ) + "\n"@
}

pub open spec fn note_finding_lines(fs: Seq<FindingView>) -> Seq<char>
    decreases fs.len(),
{
    if fs.len() == 0 {
        Seq::empty()
    } else {
        note_finding_lines(fs.drop_last()) + note_finding_line(fs.last())
    }
}

/// Every finding about the node.
pub open spec fn findings_section(nf: Seq<FindingView>) -> Seq<char> {
    if nf.len() > 0 {
        "## findings\n"@ + note_finding_lines(nf) + "\n"@
    } else {
        Seq::empty()
    }
}

/// Reading-order hint closing the AUTO block.
pub open spec fn focus_section(n: Node) -> Seq<char> {
    "## agent focus\n**L1:** scan **Graph atoms** above first, then human body below HUMAN.  \nAfter `agal.agent.md` (L2). Escalate L0: `"@
        + n.id@ + "` in json / `agal --plugin "@ + n.name@ + " .`\n\n"@
}

/// The AUTO block of a node's note.
pub open spec fn auto_section(n: Node, g: Audiolabs) -> Seq<char> {
    note_header(n, g) + graph_atoms(n, g) + deps_section(n) + dependents_section(g, n.id@) + semantic_section(g, n.id@)
        + structure_section(n) + findings_section(about_node(fviews(g.findings@), n.id@)) + focus_section(n)
}

fn push_opt_row(s: &mut String, o: &Option<String>, pre: &str, post: &str)
    ensures
        final(s)@ == old(s)@ + opt_row(opt_view(*o), pre@, post@),
{
    match o {
        Some(v) => {
            push_str(s, pre);
            push_str(s, v.as_str());
            push_str(s, post);
        },
        None => {},
    }
}

#[verifier::rlimit(80)]
#[verifier::spinoff_prover]
fn push_note_header(s: &mut String, n: &Node, g: &Audiolabs)
    ensures
        final(s)@ == old(s)@ + note_header(*n, *g),
{
    let ghost s0 = s@;
    push_str(s, "# ");
    push_str(s, n.name.as_str());
    push_str(s, "\n\n> Auto-generated from workspace scan. Do not edit between AUTO markers.\n\n| | |\n|---|---|\n| kind | `");
    push_str(s, n.kind.as_str());
    push_str(s, "` |\n| path | `");
    push_str(s, n.id.as_str());
    push_str(s, "` |\n");
    push_opt_row(s, &n.version, "| version | ", " |\n");
    push_opt_row(s, &n.description, "| description | ", " |\n");
    let ghost s1 = s@;
    if n.frameworks.len() > 0 {
        push_str(s, "| frameworks | ");
        push_str(s, join_strings(&n.frameworks, ", ").as_str());
        push_str(s, " |\n");
    }
    assert(s@ =~= s1 + if n.frameworks@.len() > 0 {
        "| frameworks | "@ + join(strs(n.frameworks@), ", "@) + " |\n"@
    } else {
        Seq::empty()
    });
    push_opt_row(s, &n.migration_status, "| migration | **", "** |\n");
    push_str(s, "| generated | `");
    push_str(s, g.generated_at.as_str());
    push_str(s, "` |\n\n");
    assert(s@ =~= s0 + note_header(*n, *g));
}

fn push_deps_section(s: &mut String, n: &Node)
    ensures
        final(s)@ == old(s)@ + deps_section(*n),
{
    let ghost s0 = s@;
    if n.internal_deps.len() == 0 {
        assert(s@ =~= s0 + deps_section(*n));
        return;
    }
    push_str(s, "## deps (workspace)\n");
    let ghost s1 = s@;
    let ghost ds = strs(n.internal_deps@);
    let mut i: usize = 0;
    while i < n.internal_deps.len()
        invariant
            i <= n.internal_deps@.len(),
            ds == strs(n.internal_deps@),
            s@ == s1 + dep_lines(ds.take(i as int)),
        decreases n.internal_deps@.len() - i,
    {
        assert(ds.take(i + 1).drop_last() =~= ds.take(i as int));
        push_str(s, "- `");
        push_str(s, short_id(n.internal_deps[i].as_str()).as_str());
        push_str(s, "`\n");
        i = i + 1;
    }
    assert(ds.take(ds.len() as int) =~= ds);
    push_str(s, "\n");
}

fn push_dependents_section(s: &mut String, g: &Audiolabs, id: &str)
    ensures
        final(s)@ == old(s)@ + dependents_section(*g, id@),
{
    let ghost s0 = s@;
    let ghost es = g.edges@;
    let mut lines = String::new();
    let mut count: usize = 0;
    let mut i: usize = 0;
    while i < g.edges.len()
        invariant
            i <= es.len(),
            es == g.edges@,
            lines@ == dependent_lines(inbound(es.take(i as int), id@)),
            count == inbound(es.take(i as int), id@).len(),
            count <= i,
        decreases es.len() - i,
    {
        assert(es.take(i + 1).drop_last() =~= es.take(i as int));
        let e = &g.edges[i];
        assert(es.take(i + 1).last() == es[i as int]);
        let ghost l0 = lines@;
        if str_eq(e.to.as_str(), id) {
            push_str(&mut lines, "- `");
            push_str(&mut lines, short_id(e.from.as_str()).as_str());
            push_str(&mut lines, "` --");
            push_str(&mut lines, e.kind.as_str());
            push_str(&mut lines, "--> `");
            push_str(&mut lines, short_id(e.to.as_str()).as_str());
            push_str(&mut lines, "`\n");
            assert(inbound(es.take(i + 1), id@) == inbound(es.take(i as int), id@).push(es[i as int]));
            assert(inbound(es.take(i as int), id@).push(es[i as int]).drop_last() =~= inbound(es.take(i as int), id@));
            assert(lines@ =~= l0 + "- `"@ + short_of(e.from@) + "` --"@ + e.kind@ + "--> `"@ + short_of(e.to@)
                + "`\n"@);
            count = count + 1;
        }
        i = i + 1;
    }
    assert(es.take(es.len() as int) =~= es);
    if count > 0 {
        push_str(s, "## dependents (inbound)\n");
        push_str(s, lines.as_str());
        push_str(s, "\n");
    }
}

fn push_semantic_section(s: &mut String, g: &Audiolabs, id: &str)
    ensures
        final(s)@ == old(s)@ + semantic_section(*g, id@),
{
    let ghost es = g.edges@;
    let mut lines = String::new();
    let mut count: usize = 0;
    let mut i: usize = 0;
    while i < g.edges.len()
        invariant
            i <= es.len(),
            es == g.edges@,
            lines@ == semantic_lines(semantic_out(es.take(i as int), id@)),
            count == semantic_out(es.take(i as int), id@).len(),
            count <= i,
        decreases es.len() - i,
    {
        assert(es.take(i + 1).drop_last() =~= es.take(i as int));
        let e = &g.edges[i];
        assert(es.take(i + 1).last() == es[i as int]);
        let ghost l0 = lines@;
        if str_eq(e.from.as_str(), id) && !str_eq(e.kind.as_str(), "depends_on") && !str_eq(
            e.kind.as_str(),
            "build_depends_on",
        ) {
            push_str(&mut lines, "- **");
            push_str(&mut lines, e.kind.as_str());
            push_str(&mut lines, "** → `");
            push_str(&mut lines, short_id(e.to.as_str()).as_str());
            push_str(&mut lines, "`");
            let ghost l1 = lines@;
            proof {
                reveal_strlit("");
            }
            push_opt_row(&mut lines, &e.note, " — ", "");
            push_str(&mut lines, "\n");
            assert(l1 =~= l0 + "- **"@ + e.kind@ + "** → `"@ + short_of(e.to@) + "`"@);
            assert(semantic_out(es.take(i + 1), id@) == semantic_out(es.take(i as int), id@).push(es[i as int]));
            assert(semantic_out(es.take(i as int), id@).push(es[i as int]).drop_last() =~= semantic_out(
                es.take(i as int),
                id@,
            ));
            assert(lines@ =~= l0 + "- **"@ + e.kind@ + "** → `"@ + short_of(e.to@) + "`"@ + opt_row(
                opt_view(e.note),
                " — "@,
                Seq::empty(),
            ) + "\n"@);
            count = count + 1;
        }
        i = i + 1;
    }
    assert(es.take(es.len() as int) =~= es);
    if count > 0 {
        push_str(s, "## semantic edges\n");
        push_str(s, lines.as_str());
        push_str(s, "\n");
    }
}

fn push_text_if(s: &mut String, cond: bool, t: &str)
    ensures
        final(s)@ == old(s)@ + text_if(cond, t@),
{
    if cond {
        push_str(s, t);
    } else {
        assert(s@ =~= s@ + text_if(cond, t@));
    }
}

fn push_params_lines(s: &mut String, a: &crate::ast::AstSummary)
    ensures
        final(s)@ == old(s)@ + params_lines(strs(a.params_structs@), a.params_fields@),
{
    let ghost s0 = s@;
    let ghost ps = strs(a.params_structs@);
    let mut i: usize = 0;
    while i < a.params_structs.len()
        invariant
            i <= ps.len(),
            ps == strs(a.params_structs@),
            s@ == s0 + params_lines(ps.take(i as int), a.params_fields@),
        decreases ps.len() - i,
    {
        assert(ps.take(i + 1).drop_last() =~= ps.take(i as int));
        let p = a.params_structs[i].as_str();
        let nf: usize = match assoc_get(&a.params_fields, p) {
            Some(f) => f.len(),
            None => 0,
        };
        push_str(s, "- params: ");
        push_str(s, p);
        push_str(s, " (");
        push_usize(s, nf);
        push_str(s, " fields)\n");
        i = i + 1;
    }
    assert(ps.take(ps.len() as int) =~= ps);
}

fn push_joined_line(s: &mut String, pre: &str, v: &Vec<String>)
    ensures
        final(s)@ == old(s)@ + text_if(v@.len() > 0, pre@ + join(strs(v@), ", "@) + "\n"@),
{
    if v.len() > 0 {
        push_str(s, pre);
        push_str(s, join_strings(v, ", ").as_str());
        push_str(s, "\n");
    } else {
        assert(s@ =~= s@ + text_if(v@.len() > 0, pre@ + join(strs(v@), ", "@) + "\n"@));
    }
}

fn push_count_line(s: &mut String, cond: bool, pre: &str, n: usize, post: &str)
    ensures
        final(s)@ == old(s)@ + text_if(cond, pre@ + dec(n as nat) + post@),
{
    if cond {
        push_str(s, pre);
        push_usize(s, n);
        push_str(s, post);
    } else {
        assert(s@ =~= s@ + text_if(cond, pre@ + dec(n as nat) + post@));
    }
}

#[verifier::rlimit(80)]
#[verifier::spinoff_prover]
fn push_structure_head(s: &mut String, a: &crate::ast::AstSummary)
    ensures
        final(s)@ == old(s)@ + structure_head(*a),
{
    let ghost s1 = s@;
    push_joined_line(s, "- logic: ", &a.plugin_logic_impls);
    push_params_lines(s, a);
    push_joined_line(s, "- process: ", &a.process_hooks);
    push_text_if(s, a.editor_functions.len() > 0, "- editor: yes\n");
    push_joined_line(s, "- formats: ", &a.plugin_formats);
    push_joined_line(s, "- ipc: ", &a.ipc_signals);
    assert(s@ =~= s1 + structure_head(*a));
}

#[verifier::rlimit(80)]
#[verifier::spinoff_prover]
fn push_structure_tail(s: &mut String, a: &crate::ast::AstSummary, is_crate: bool)
    ensures
        final(s)@ == old(s)@ + structure_tail(*a, is_crate),
{
    let ghost s2 = s@;
    push_count_line(s, a.slint_components.len() > 0, "- slint components: ", a.slint_components.len(), "\n");
    push_count_line(s, a.slint_exports.len() > 0, "- slint exports: ", a.slint_exports.len(), "\n");
    push_count_line(
        s,
        a.process_method_count > 0 && is_crate,
        "- process methods (DSP): ",
        a.process_method_count,
        "\n",
    );
    push_count_line(
        s,
        a.public_api.len() > 0 && is_crate,
        "- public_api symbols: ",
        a.public_api.len(),
        " (see json)\n",
    );
    let roles = a.role_tags();
    proof {
        crate::text::lemma_canon(strs(roles@));
    }
    push_joined_line(s, "- roles: ", &roles);
    assert(s@ =~= s2 + structure_tail(*a, is_crate));
}

#[verifier::rlimit(80)]
#[verifier::spinoff_prover]
fn push_structure_section(s: &mut String, n: &Node)
    ensures
        final(s)@ == old(s)@ + structure_section(*n),
{
    let ghost s0 = s@;
    match &n.ast_summary {
        None => {
            assert(s@ =~= s0 + structure_section(*n));
        },
        Some(a) => {
            let is_crate = str_eq(n.kind.as_str(), "crate");
            push_str(s, "## structure\n");
            let ghost s1 = s@;
            push_structure_head(s, a);
            push_structure_tail(s, a, is_crate);
            assert(s@ =~= s1 + structure_lines(*a, n.kind@ == "crate"@));
            push_str(s, "\n");
        },
    }
}

fn push_note_finding_line(s: &mut String, f: &Finding)
    ensures
        final(s)@ == old(s)@ + note_finding_line(f@),
{
    let ghost t0 = s@;
    push_str(s, "- [");
    push_str(s, f.severity.as_str());
    push_str(s, "] **");
    push_str(s, f.code.as_str());
    push_str(s, "**: ");
    push_str(s, f.message.as_str());
    let ghost t1 = s@;
    assert(t1 =~= t0 + ("- ["@ + f@.0.name() + "] **"@ + f@.1 + "**: "@ + f@.3));
    push_opt_row(s, &f.path, " · `", "`");
    proof {
        reveal_strlit("");
    }
    push_opt_row(s, &f.fix, " · fix: ", "");
    push_str(s, "\n");
    assert(s@ =~= t1 + opt_row(f@.4, " · `"@, "`"@) + opt_row(f@.5, " · fix: "@, Seq::empty()) + "\n"@);
}

fn push_findings_section(s: &mut String, nf: &Vec<Finding>)
    ensures
        final(s)@ == old(s)@ + findings_section(fviews(nf@)),
{
    let ghost s0 = s@;
    if nf.len() == 0 {
        assert(s@ =~= s0 + findings_section(fviews(nf@)));
        return;
    }
    push_str(s, "## findings\n");
    let ghost s1 = s@;
    let ghost fv = fviews(nf@);
    let mut i: usize = 0;
    while i < nf.len()
        invariant
            i <= nf@.len(),
            fv == fviews(nf@),
            s@ == s1 + note_finding_lines(fv.take(i as int)),
        decreases nf@.len() - i,
    {
        assert(fv.take(i + 1).drop_last() =~= fv.take(i as int));
        assert(fv.take(i + 1).last() == nf@[i as int]@);
        push_note_finding_line(s, &nf[i]);
        i = i + 1;
    }
    assert(fv.take(fv.len() as int) =~= fv);
    push_str(s, "\n");
}

/// The AUTO block of a node's note (see [`auto_section`]).
#[verifier::rlimit(80)]
#[verifier::spinoff_prover]
pub fn render_auto_section(n: &Node, g: &Audiolabs) -> (s: String)
    ensures
        s@ == auto_section(*n, *g),
{
    let mut s = String::new();
    push_note_header(&mut s, n, g);
    push_str(&mut s, render_graph_atoms(n, g).as_str());
    push_deps_section(&mut s, n);
    push_dependents_section(&mut s, g, n.id.as_str());
    push_semantic_section(&mut s, g, n.id.as_str());
    push_structure_section(&mut s, n);
    let nf = node_findings(&g.findings, n.id.as_str());
    push_findings_section(&mut s, &nf);
    push_str(
        &mut s,
        "## agent focus\n**L1:** scan **Graph atoms** above first, then human body below HUMAN.  \nAfter `agal.agent.md` (L2). Escalate L0: `",
    );
    push_str(&mut s, n.id.as_str());
    push_str(&mut s, "` in json / `agal --plugin ");
    push_str(&mut s, n.name.as_str());
    push_str(&mut s, " .`\n\n");
    s
}

// ---------------------------------------------------------------------------
// Note files and the notes index
// ---------------------------------------------------------------------------

/// Plugins, crates and other workspace members get a note.
pub open spec fn has_note(n: Node) -> bool {
    n.kind@ == "plugin"@ || n.kind@ == "crate"@ || n.kind@ == "member"@
}

/// The note file of a node (`<note stem>.md`), for plugins, crates and
/// other members.
pub fn note_file_name(n: &Node) -> (r: Option<String>)
    ensures
        opt_view(r) == if has_note(*n) {
            Some(note_stem(n.name@) + ".md"@)
        } else {
            None
        },
{
    if str_eq(n.kind.as_str(), "plugin") || str_eq(n.kind.as_str(), "crate") || str_eq(n.kind.as_str(), "member") {
        let mut f = note_stem_of(n.name.as_str());
        push_str(&mut f, ".md");
        Some(f)
    } else {
        None
    }
}

/// The regenerated note of a node: a fresh AUTO block followed by the human
/// body kept from the existing note text, if any.
pub fn note_body(n: &Node, g: &Audiolabs, existing: Option<&str>) -> (s: String)
    ensures
        s@ == note_text(auto_section(*n, *g), match existing {
            Some(c) => human_body(c@),
            None => None,
        }),
{
    let auto = render_auto_section(n, g);
    let human: Option<String> = match existing {
        Some(c) => human_body_of(c),
        None => None,
    };
    match &human {
        Some(h) => compose(auto.as_str(), Some(h.as_str())),
        None => compose(auto.as_str(), None),
    }
}

/// Index lines of the nodes of one kind (plugin lines carry the migration
/// status).
pub open spec fn index_lines(ns: Seq<Node>, kind: Seq<char>) -> Seq<char>
    decreases ns.len(),
{
    if ns.len() == 0 {
        Seq::empty()
    } else {
        let n = ns.last();
        index_lines(ns.drop_last(), kind) + if n.kind@ == kind {
            "- ["@ + n.name@ + "]("@ + note_stem(n.name@) + ".md) — `"@ + n.id@ + "`"@ + (if kind == "plugin"@ {
                opt_row(opt_view(n.migration_status), " · "@, Seq::empty())
            } else {
                Seq::empty()
            }) + "\n"@
        } else {
            Seq::empty()
        }
    }
}

/// `notes/_index.md`: plugins, crates, then other members when there are
/// any.
pub open spec fn index_text(g: Audiolabs) -> Seq<char> {
    let members = index_lines(g.nodes@, "member"@);
    "# notes index\n\nAuto-generated. Per-node notes for focus work.\n\n**Workspace memory** (durable, never overwritten): [`_workspace.md`](./_workspace.md)\n\n## plugins\n\n"@
        + index_lines(g.nodes@, "plugin"@) + "\n## crates\n\n"@ + index_lines(g.nodes@, "crate"@) + if members.len() > 0 {
        "\n## members\n\n"@ + members
    } else {
        Seq::empty()
    }
}

fn push_index_lines(s: &mut String, ns: &Vec<Node>, kind: &str)
    ensures
        final(s)@ == old(s)@ + index_lines(ns@, kind@),
{
    let ghost s0 = s@;
    let is_plugin = str_eq(kind, "plugin");
    let mut i: usize = 0;
    while i < ns.len()
        invariant
            i <= ns@.len(),
            is_plugin == (kind@ == "plugin"@),
            s@ == s0 + index_lines(ns@.take(i as int), kind@),
        decreases ns@.len() - i,
    {
        assert(ns@.take(i + 1).drop_last() =~= ns@.take(i as int));
        let n = &ns[i];
        let ghost t0 = s@;
        if str_eq(n.kind.as_str(), kind) {
            push_str(s, "- [");
            push_str(s, n.name.as_str());
            push_str(s, "](");
            push_str(s, note_stem_of(n.name.as_str()).as_str());
            push_str(s, ".md) — `");
            push_str(s, n.id.as_str());
            push_str(s, "`");
            let ghost t1 = s@;
            proof {
                reveal_strlit("");
            }
            if is_plugin {
                push_opt_row(s, &n.migration_status, " · ", "");
            }
            push_str(s, "\n");
            assert(t1 =~= t0 + ("- ["@ + n.name@ + "]("@ + note_stem(n.name@) + ".md) — `"@ + n.id@ + "`"@));
        }
        assert(s@ =~= s0 + index_lines(ns@.take(i + 1), kind@));
        i = i + 1;
    }
    assert(ns@.take(ns@.len() as int) =~= ns@);
}

/// The notes index (see [`index_text`]).
pub fn render_index(g: &Audiolabs) -> (s: String)
    ensures
        s@ == index_text(*g),
{
    let mut s = owned(
        "# notes index\n\nAuto-generated. Per-node notes for focus work.\n\n**Workspace memory** (durable, never overwritten): [`_workspace.md`](./_workspace.md)\n\n## plugins\n\n",
    );
    push_index_lines(&mut s, &g.nodes, "plugin");
    push_str(&mut s, "\n## crates\n\n");
    push_index_lines(&mut s, &g.nodes, "crate");
    let mut members = String::new();
    push_index_lines(&mut members, &g.nodes, "member");
    if chars_of(members.as_str()).len() > 0 {
        push_str(&mut s, "\n## members\n\n");
        push_str(&mut s, members.as_str());
    }
    s
}

// ---------------------------------------------------------------------------
// The human body survives regeneration
// ---------------------------------------------------------------------------

/// No line break in `s` from position `i` on.
pub open spec fn line_free_from(s: Seq<char>, i: nat) -> bool
    decreases s.len() - i,
{
    i >= s.len() || (s[i as int] != '\n' && line_free_from(s, i + 1))
}

proof fn lemma_line_free(s: Seq<char>, i: nat, k: int)
    requires
        line_free_from(s, i),
        i <= k < s.len(),
    ensures
        s[k] != '\n',
    decreases k - i,
{
    if i < k {
        lemma_line_free(s, i + 1, k);
    }
}

proof fn lemma_marker_facts()
    ensures
        line_free_from(HUMAN_MARK@, 0),
        AUTO_START@.len() < HUMAN_MARK@.len(),
        AUTO_END@.len() < HUMAN_MARK@.len(),
{
    reveal_strlit("<!-- AGAL:HUMAN — edit below this line; preserved on regenerate -->");
    reveal_strlit("<!-- AGAL:AUTO-START -->");
    reveal_strlit("<!-- AGAL:AUTO-END -->");
    assert(line_free_from(HUMAN_MARK@, 0)) by {
        reveal_with_fuel(line_free_from, 70);
    }
}

proof fn lemma_find_at(s: Seq<char>, p: Seq<char>, i: int, k: int)
    requires
        0 <= i <= k,
        occurs_at(s, p, k),
        forall|j: int| i <= j < k ==> !occurs_at(s, p, j),
    ensures
        find_from(s, p, i) == Some(k),
    decreases k - i,
{
    if i < k {
        assert(!occurs_at(s, p, i));
        lemma_find_at(s, p, i + 1, k);
    }
}

/// Regenerating a note keeps its human body: a note composed from an AUTO
/// block that does not itself contain the HUMAN marker reads back the human
/// body it was given (ending in a line break).
pub proof fn lemma_human_body_kept(auto: Seq<char>, h: Seq<char>)
    requires
        !has_sub(auto, HUMAN_MARK@),
        h.len() > 0,
        h[0] != '\r',
        h[0] != '\n',
    ensures
        human_body(note_text(auto, Some(h))) == Some(
            h + if ends_with(h, "\n"@) {
                Seq::<char>::empty()
            } else {
                "\n"@
            },
        ),
{
    lemma_marker_facts();
    reveal_strlit("\n");
    reveal_strlit("\n\n");
    let m = HUMAN_MARK@;
    let a = AUTO_START@;
    let b = AUTO_END@;
    let t: Seq<char> = if ends_with(auto, "\n"@) {
        Seq::empty()
    } else {
        "\n"@
    };
    let hh = h + if ends_with(h, "\n"@) {
        Seq::<char>::empty()
    } else {
        "\n"@
    };
    let pre = a + "\n"@ + auto + t + b + "\n\n"@;
    let note = note_text(auto, Some(h));
    assert(note =~= pre + m + "\n\n"@ + hh);
    let q: int = (a.len() + auto.len() + t.len()) as int;
    assert(note[a.len() as int] == '\n');
    if t.len() == 0 {
        assert(auto.skip(auto.len() - 1)[0] == '\n');
        assert(note[q] == auto[auto.len() - 1]);
    }
    assert(note[q] == '\n');
    assert(note[pre.len() - 2] == '\n');
    assert(note[pre.len() - 1] == '\n');
    assert forall|j: int| 0 <= j < pre.len() implies !occurs_at(note, m, j) by {
        if occurs_at(note, m, j) {
            if j <= a.len() {
                assert(note.subrange(j, j + m.len())[a.len() - j] == note[a.len() as int]);
                lemma_line_free(m, 0, a.len() - j);
            } else if j <= q {
                if j + m.len() > q {
                    assert(note.subrange(j, j + m.len())[q - j] == note[q]);
                    lemma_line_free(m, 0, q - j);
                } else {
                    let off = j - a.len() - 1;
                    assert(auto.subrange(off, off + m.len()) =~= note.subrange(j, j + m.len()));
                    assert(occurs_at(auto, m, off));
                }
            } else {
                let k = if j <= pre.len() - 2 {
                    pre.len() - 2
                } else {
                    pre.len() - 1
                };
                assert(note.subrange(j, j + m.len())[k - j] == note[k]);
                lemma_line_free(m, 0, k - j);
            }
        }
    }
    assert(note.subrange(pre.len() as int, (pre.len() + m.len()) as int) =~= m);
    lemma_find_at(note, m, 0, pre.len() as int);
    let rest = note.skip((pre.len() + m.len()) as int);
    assert(rest =~= "\n\n"@ + hh);
    assert(rest.drop_first() =~= "\n"@ + hh);
    assert(("\n"@ + hh).drop_first() =~= hh);
    assert(lead_nl(hh) == 0);
    assert(("\n"@ + hh)[0] == '\n');
    assert(lead_nl("\n"@ + hh) == 1);
    assert(rest[0] == '\n');
    assert(lead_nl(rest) == 2);
    assert(strip_nl(rest) =~= hh);
}

proof fn lemma_strip_nl_head(s: Seq<char>)
    ensures
        lead_nl(s) <= s.len(),
        strip_nl(s).len() == 0 || (strip_nl(s)[0] != '\r' && strip_nl(s)[0] != '\n'),
    decreases s.len(),
{
    if s.len() > 0 && (s[0] == '\r' || s[0] == '\n') {
        lemma_strip_nl_head(s.drop_first());
        assert(lead_nl(s) == 1 + lead_nl(s.drop_first()));
        assert(s.skip(lead_nl(s) as int) =~= s.drop_first().skip(lead_nl(s.drop_first()) as int));
    }
}

proof fn lemma_template_facts()
    ensures
        HUMAN_TEMPLATE@.len() > 0,
        HUMAN_TEMPLATE@[0] == '#',
        ends_with(HUMAN_TEMPLATE@, "\n"@),
{
    reveal_strlit("## Intent\n\n_Why this crate/plugin exists. Edit freely._\n\n## Open\n\n- [ ] \n\n## Decisions\n\n_Architecture choices worth remembering._\n\n## Atoms (human)\n\n_Graph atoms live **above** in AUTO. Add durable decisions/lessons here:_\n\n```text\n[ATOM] type=decision|lesson|constraint | detail=…\n```\n");
    reveal_strlit("\n");
    let t = HUMAN_TEMPLATE@;
    assert(t.skip(t.len() - 1) =~= "\n"@);
}

/// Regeneration is idempotent: regenerating a note that was just regenerated
/// from any earlier text gives the very same note, for an AUTO block that
/// does not itself contain the HUMAN marker.
pub proof fn lemma_regenerate_stable(auto: Seq<char>, existing: Seq<char>)
    requires
        !has_sub(auto, HUMAN_MARK@),
    ensures
        note_text(auto, human_body(note_text(auto, human_body(existing)))) == note_text(
            auto,
            human_body(existing),
        ),
{
    reveal_strlit("\n");
    let hb = human_body(existing);
    let n1 = note_text(auto, hb);
    let h: Seq<char> = if hb is Some && hb->0.len() > 0 {
        hb->0
    } else {
        lemma_template_facts();
        HUMAN_TEMPLATE@
    };
    if hb is Some && hb->0.len() > 0 {
        match find(existing, HUMAN_MARK@) {
            Some(i) => {
                lemma_strip_nl_head(existing.skip(i + HUMAN_MARK@.len()));
            },
            None => match find(existing, AUTO_END@) {
                Some(i) => {
                    lemma_strip_nl_head(
                        drop_prefixes(strip_nl(existing.skip(i + AUTO_END@.len())), HUMAN_MARK@),
                    );
                },
                None => {},
            },
        }
    }
    assert(h.len() > 0 && h[0] != '\r' && h[0] != '\n');
    lemma_human_body_kept(auto, h);
    let hh = h + if ends_with(h, "\n"@) {
        Seq::<char>::empty()
    } else {
        "\n"@
    };
    assert(hh.skip(hh.len() - 1) =~= "\n"@);
    assert(ends_with(hh, "\n"@));
    assert(hh + Seq::<char>::empty() =~= hh);
    assert(note_text(auto, Some(hh)) =~= n1);
}

/// A node note never takes the file of the workspace memory or of the notes
/// index, whatever the node is named.
pub proof fn lemma_note_file_reserved(name: Seq<char>)
    ensures
        note_stem(name) + ".md"@ != "_workspace.md"@,
        note_stem(name) + ".md"@ != "_index.md"@,
{
    reveal_strlit("_workspace");
    reveal_strlit("_index");
    reveal_strlit("-node");
    reveal_strlit(".md");
    reveal_strlit("_workspace.md");
    reveal_strlit("_index.md");
    let b = safe_file_name(name);
    let f = note_stem(name) + ".md"@;
    if b == "_workspace"@ || b == "_index"@ {
        assert(f.len() == b.len() + 8);
    } else {
        assert(note_stem(name) == b);
        assert(f.len() == b.len() + 3);
        assert(b =~= f.take(b.len() as int));
        if f == "_workspace.md"@ {
            assert(b.len() == 10);
            assert("_workspace.md"@.take(10) =~= "_workspace"@);
        }
        if f == "_index.md"@ {
            assert(b.len() == 6);
            assert("_index.md"@.take(6) =~= "_index"@);
        }
    }
}

/// A composed note starts with its AUTO block and holds the HUMAN marker
/// exactly once, when neither the AUTO block nor the human body contains the
/// marker themselves.
pub proof fn lemma_compose_shape(auto: Seq<char>, h: Seq<char>)
    requires
        !has_sub(auto, HUMAN_MARK@),
        !has_sub(h, HUMAN_MARK@),
        h.len() > 0,
    ensures
        crate::text::starts_with(note_text(auto, Some(h)), AUTO_START@ + "\n"@ + auto),
        has_sub(note_text(auto, Some(h)), HUMAN_MARK@),
        forall|j: int, k: int|
            occurs_at(note_text(auto, Some(h)), HUMAN_MARK@, j) && occurs_at(note_text(auto, Some(h)), HUMAN_MARK@, k)
                ==> j == k,
{
    lemma_marker_facts();
    reveal_strlit("\n");
    reveal_strlit("\n\n");
    let m = HUMAN_MARK@;
    let a = AUTO_START@;
    let b = AUTO_END@;
    let t: Seq<char> = if ends_with(auto, "\n"@) {
        Seq::empty()
    } else {
        "\n"@
    };
    let body: Seq<char> = h + if ends_with(h, "\n"@) {
        Seq::<char>::empty()
    } else {
        "\n"@
    };
    let pre = a + "\n"@ + auto + t + b + "\n\n"@;
    let note = note_text(auto, Some(h));
    assert(note =~= pre + m + "\n\n"@ + body);
    assert(note.take((a + "\n"@ + auto).len() as int) =~= a + "\n"@ + auto);
    let q: int = (a.len() + auto.len() + t.len()) as int;
    assert(note[a.len() as int] == '\n');
    if t.len() == 0 {
        assert(auto.skip(auto.len() - 1)[0] == '\n');
        assert(note[q] == auto[auto.len() - 1]);
    }
    assert(note[q] == '\n');
    assert(note[pre.len() - 2] == '\n');
    assert(note[pre.len() - 1] == '\n');
    let e: int = (pre.len() + m.len()) as int;
    assert(note[e] == '\n');
    assert(note[e + 1] == '\n');
    assert(note.subrange(pre.len() as int, e) =~= m);
    assert(occurs_at(note, m, pre.len() as int));
    assert forall|j: int| occurs_at(note, m, j) implies j == pre.len() by {
        if j < pre.len() {
            if j <= a.len() {
                assert(note.subrange(j, j + m.len())[a.len() - j] == note[a.len() as int]);
                lemma_line_free(m, 0, a.len() - j);
            } else if j <= q {
                if j + m.len() > q {
                    assert(note.subrange(j, j + m.len())[q - j] == note[q]);
                    lemma_line_free(m, 0, q - j);
                } else {
                    let off = j - a.len() - 1;
                    assert(auto.subrange(off, off + m.len()) =~= note.subrange(j, j + m.len()));
                    assert(occurs_at(auto, m, off));
                }
            } else {
                let k = if j <= pre.len() - 2 {
                    pre.len() - 2
                } else {
                    pre.len() - 1
                };
                assert(note.subrange(j, j + m.len())[k - j] == note[k]);
                lemma_line_free(m, 0, k - j);
            }
        } else if j > pre.len() {
            if j <= e + 1 {
                let k = if j <= e { e } else { e + 1 };
                assert(j + m.len() > k);
                assert(note.subrange(j, j + m.len())[k - j] == note[k]);
                lemma_line_free(m, 0, k - j);
            } else {
                let off = j - e - 2;
                assert(note.subrange(j, j + m.len()) =~= body.subrange(off, off + m.len()));
                if off + m.len() <= h.len() {
                    assert(h.subrange(off, off + m.len()) =~= body.subrange(off, off + m.len()));
                    assert(occurs_at(h, m, off));
                } else {
                    assert(!ends_with(h, "\n"@));
                    assert(body[h.len() as int] == '\n');
                    assert(body.subrange(off, off + m.len())[h.len() - off] == body[h.len() as int]);
                    lemma_line_free(m, 0, h.len() - off);
                }
            }
        }
    }
}


} // verus!
