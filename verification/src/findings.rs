//! Structural and integrity findings over the workspace graph, the health
//! gate derived from them, and `[[suppress]]` rules.
use vstd::prelude::*;

use crate::config::SuppressRule;
use crate::text::{
    after_last, after_last_str, ends_with, ends_with_str, is_map, lookup, map_find, map_insert,
    opt_view, owned, push_str, str_eq, trim, trim_char, trim_char_str, trim_str,
};

verus! {

#[derive(Debug, Clone, Copy, PartialEq, Eq, PartialOrd, Ord, Structural)]
pub enum Severity {
    Error,
    Warn,
    Info,
}

impl Severity {
    /// Lower-case name (`error`, `warn`, `info`), as the severity is displayed.
    pub open spec fn name(self) -> Seq<char> {
        match self {
            Severity::Error => "error"@,
            Severity::Warn => "warn"@,
            Severity::Info => "info"@,
        }
    }

    /// The displayed name of the severity.
    pub fn as_str(self) -> (r: &'static str)
        ensures
            r@ == self.name(),
    {
        match self {
            Severity::Error => "error",
            Severity::Warn => "warn",
            Severity::Info => "info",
        }
    }
}

/// Project health from findings.
#[derive(Debug, Clone, Copy, PartialEq, Eq, Structural)]
pub enum Health {
    /// No error or warning.
    Okay,
    /// Warnings only.
    Degraded,
    /// Some error.
    Blocked,
}

impl Health {
    pub open spec fn name(self) -> Seq<char> {
        match self {
            Health::Okay => "ok"@,
            Health::Degraded => "degraded"@,
            Health::Blocked => "blocked"@,
        }
    }

    /// `ok`, `degraded` or `blocked`.
    pub fn as_str(self) -> (r: &'static str)
        ensures
            r@ == self.name(),
    {
        match self {
            Health::Okay => "ok",
            Health::Degraded => "degraded",
            Health::Blocked => "blocked",
        }
    }
}

/// One finding about the workspace.
#[derive(Debug, Clone, PartialEq, Eq)]
pub struct Finding {
    pub severity: Severity,
    pub code: String,
    pub node: Option<String>,
    pub message: String,
    /// Relative path for navigation.
    pub path: Option<String>,
    /// Short remediation.
    pub fix: Option<String>,
}

/// (severity, code, node, message, path, fix)
pub type FindingView = (Severity, Seq<char>, Option<Seq<char>>, Seq<char>, Option<Seq<char>>, Option<Seq<char>>);

impl View for Finding {
    type V = FindingView;

    open spec fn view(&self) -> FindingView {
        (self.severity, self.code@, opt_view(self.node), self.message@, opt_view(self.path), opt_view(self.fix))
    }
}

/// Views of a sequence of findings.
pub open spec fn fviews(s: Seq<Finding>) -> Seq<FindingView> {
    s.map_values(|f: Finding| f@)
}

pub proof fn lemma_fviews_push(s: Seq<Finding>, f: Finding)
    ensures
        fviews(s.push(f)) == fviews(s).push(f@),
{
    assert(fviews(s.push(f)) =~= fviews(s).push(f@));
}

impl Finding {
    /// A finding with no node, path or fix.
    pub fn new(severity: Severity, code: &str, message: &str) -> (f: Finding)
        ensures
            f@ == (severity, code@, None::<Seq<char>>, message@, None::<Seq<char>>, None::<Seq<char>>),
    {
        Finding { severity, code: owned(code), node: None, message: owned(message), path: None, fix: None }
    }

    /// Attached to node `n`: node id and, as path, the node's path.
    pub fn at_node(self, n: &crate::Node) -> (f: Finding)
        ensures
            f@ == (self@.0, self@.1, Some(n.id@), self@.3, Some(n.path@), self@.5),
    {
        let mut f = self;
        f.node = Some(n.id.clone());
        f.path = Some(n.path.clone());
        f
    }

    pub fn with_path(self, path: &str) -> (f: Finding)
        ensures
            f@ == (self@.0, self@.1, self@.2, self@.3, Some(path@), self@.5),
    {
        let mut f = self;
        f.path = Some(owned(path));
        f
    }

    pub fn with_fix(self, fix: &str) -> (f: Finding)
        ensures
            f@ == (self@.0, self@.1, self@.2, self@.3, self@.4, Some(fix@)),
    {
        let mut f = self;
        f.fix = Some(owned(fix));
        f
    }

    /// A copy with the same view.
    pub fn copy(&self) -> (f: Finding)
        ensures
            f@ == self@,
    {
        Finding {
            severity: self.severity,
            code: self.code.clone(),
            node: crate::text::clone_opt(&self.node),
            message: self.message.clone(),
            path: crate::text::clone_opt(&self.path),
            fix: crate::text::clone_opt(&self.fix),
        }
    }
}

/// Key of a finding for matching across runs: `severity|code|node`
/// (empty node text when the finding has no node).
pub open spec fn key_of(f: FindingView) -> Seq<char> {
    f.0.name() + "|"@ + f.1 + "|"@ + match f.2 {
        Some(n) => n,
        None => Seq::empty(),
    }
}

/// Stable key for delta matching (severity + code + node).
pub fn finding_key(f: &Finding) -> (k: String)
    ensures
        k@ == key_of(f@),
{
    let mut k = owned(f.severity.as_str());
    push_str(&mut k, "|");
    push_str(&mut k, f.code.as_str());
    push_str(&mut k, "|");
    match &f.node {
        Some(n) => push_str(&mut k, n.as_str()),
        None => {
            assert(k@ + Seq::<char>::empty() =~= k@);
        },
    }
    k
}

pub open spec fn any_severity(fs: Seq<FindingView>, s: Severity) -> bool {
    exists|i: int| 0 <= i < fs.len() && fs[i].0 == s
}

/// `blocked` when some finding is an error, else `degraded` when some is a
/// warning, else `ok`.
pub open spec fn health_of(fs: Seq<FindingView>) -> Health {
    if any_severity(fs, Severity::Error) {
        Health::Blocked
    } else if any_severity(fs, Severity::Warn) {
        Health::Degraded
    } else {
        Health::Okay
    }
}

fn has_severity(findings: &Vec<Finding>, s: Severity) -> (r: bool)
    ensures
        r == any_severity(fviews(findings@), s),
{
    let mut i: usize = 0;
    while i < findings.len()
        invariant
            i <= findings@.len(),
            forall|j: int| 0 <= j < i ==> findings@[j].severity != s,
        decreases findings@.len() - i,
    {
        if findings[i].severity == s {
            assert(fviews(findings@)[i as int].0 == s);
            return true;
        }
        i = i + 1;
    }
    proof {
        if any_severity(fviews(findings@), s) {
            let j = choose|j: int| 0 <= j < fviews(findings@).len() && fviews(findings@)[j].0 == s;
            assert(findings@[j].severity == s);
        }
    }
    false
}

/// The worse of two health levels (`ok` < `degraded` < `blocked`).
pub open spec fn worse(a: Health, b: Health) -> Health {
    if a == Health::Blocked || b == Health::Blocked {
        Health::Blocked
    } else if a == Health::Degraded || b == Health::Degraded {
        Health::Degraded
    } else {
        Health::Okay
    }
}

proof fn lemma_any_concat(a: Seq<FindingView>, b: Seq<FindingView>, s: Severity)
    ensures
        any_severity(a + b, s) == (any_severity(a, s) || any_severity(b, s)),
{
    let c = a + b;
    if any_severity(c, s) {
        let i = choose|i: int| 0 <= i < c.len() && c[i].0 == s;
        if i < a.len() {
            assert(c[i] == a[i]);
        } else {
            assert(c[i] == b[i - a.len()]);
        }
    }
    if any_severity(a, s) {
        let i = choose|i: int| 0 <= i < a.len() && a[i].0 == s;
        assert(c[i] == a[i]);
    }
    if any_severity(b, s) {
        let i = choose|i: int| 0 <= i < b.len() && b[i].0 == s;
        assert(c[a.len() + i] == b[i]);
    }
}

/// The health of findings put together is the worse of the two parts'.
pub proof fn lemma_health_concat(a: Seq<FindingView>, b: Seq<FindingView>)
    ensures
        health_of(a + b) == worse(health_of(a), health_of(b)),
{
    lemma_any_concat(a, b, Severity::Error);
    lemma_any_concat(a, b, Severity::Warn);
}

/// Info findings never move the health gate.
pub proof fn lemma_health_ignores_info(a: Seq<FindingView>, infos: Seq<FindingView>)
    requires
        forall|i: int| 0 <= i < infos.len() ==> (#[trigger] infos[i]).0 == Severity::Info,
    ensures
        health_of(a + infos) == health_of(a),
        health_of(infos + a) == health_of(a),
{
    lemma_health_concat(a, infos);
    lemma_health_concat(infos, a);
    assert(!any_severity(infos, Severity::Error));
    assert(!any_severity(infos, Severity::Warn));
}

/// Reordering findings does not change the health gate.
pub proof fn lemma_health_permutation(a: Seq<FindingView>, b: Seq<FindingView>)
    requires
        a.to_multiset() == b.to_multiset(),
    ensures
        health_of(a) == health_of(b),
{
    broadcast use vstd::seq_lib::group_to_multiset_ensures;
    assert forall|s: Severity| any_severity(a, s) implies any_severity(b, s) by {
        let i = choose|i: int| 0 <= i < a.len() && a[i].0 == s;
        assert(a.to_multiset().count(a[i]) > 0);
        assert(b.contains(a[i]));
    }
    assert forall|s: Severity| any_severity(b, s) implies any_severity(a, s) by {
        let i = choose|i: int| 0 <= i < b.len() && b[i].0 == s;
        assert(b.to_multiset().count(b[i]) > 0);
        assert(a.contains(b[i]));
    }
}

/// Health gate of a set of findings.
pub fn health(findings: &Vec<Finding>) -> (h: Health)
    ensures
        h == health_of(fviews(findings@)),
{
    if has_severity(findings, Severity::Error) {
        Health::Blocked
    } else if has_severity(findings, Severity::Warn) {
        Health::Degraded
    } else {
        Health::Okay
    }
}

/// Error or warning.
pub open spec fn is_actionable(f: FindingView) -> bool {
    f.0 == Severity::Error || f.0 == Severity::Warn
}

/// The actionable findings, in order.
pub open spec fn actionable_of(fs: Seq<FindingView>) -> Seq<FindingView>
    decreases fs.len(),
{
    if fs.len() == 0 {
        fs
    } else if is_actionable(fs.last()) {
        actionable_of(fs.drop_last()).push(fs.last())
    } else {
        actionable_of(fs.drop_last())
    }
}

/// Error and warning findings (copies, in order).
pub fn actionable(findings: &Vec<Finding>) -> (r: Vec<Finding>)
    ensures
        fviews(r@) == actionable_of(fviews(findings@)),
{
    let mut r: Vec<Finding> = Vec::new();
    let mut i: usize = 0;
    while i < findings.len()
        invariant
            i <= findings@.len(),
            fviews(r@) == actionable_of(fviews(findings@).take(i as int)),
        decreases findings@.len() - i,
    {
        let f = &findings[i];
        assert(fviews(findings@).take(i + 1).drop_last() =~= fviews(findings@).take(i as int));
        assert(fviews(findings@).take(i + 1).last() == f@);
        if f.severity == Severity::Error || f.severity == Severity::Warn {
            let c = f.copy();
            proof {
                lemma_fviews_push(r@, c);
            }
            r.push(c);
        }
        i = i + 1;
    }
    assert(fviews(findings@).take(findings@.len() as int) =~= fviews(findings@));
    r
}

/// Rank used to order findings: error, then warn, then info.
pub open spec fn rank(s: Severity) -> u8 {
    match s {
        Severity::Error => 0,
        Severity::Warn => 1,
        Severity::Info => 2,
    }
}

pub fn severity_rank(s: &Severity) -> (r: u8)
    ensures
        r == rank(*s),
{
    match s {
        Severity::Error => 0,
        Severity::Warn => 1,
        Severity::Info => 2,
    }
}

/// Number of findings with severity `s`.
pub open spec fn count_sev(fs: Seq<FindingView>, s: Severity) -> nat
    decreases fs.len(),
{
    if fs.len() == 0 {
        0
    } else {
        count_sev(fs.drop_last(), s) + if fs.last().0 == s { 1nat } else { 0nat }
    }
}

pub proof fn lemma_count_sev_bound(fs: Seq<FindingView>, s: Severity)
    ensures
        count_sev(fs, s) <= fs.len(),
    decreases fs.len(),
{
    if fs.len() > 0 {
        lemma_count_sev_bound(fs.drop_last(), s);
    }
}

/// Count per displayed severity name; a severity with no finding has no entry.
pub fn count_by_severity(findings: &Vec<Finding>) -> (m: Vec<(String, usize)>)
    ensures
        is_map(m@),
        forall|s: Severity| #[trigger] lookup(m@, s.name()) == if count_sev(fviews(findings@), s) > 0 {
            Some(count_sev(fviews(findings@), s) as usize)
        } else {
            None
        },
        forall|k: Seq<char>| k != "error"@ && k != "warn"@ && k != "info"@ ==> #[trigger] lookup(m@, k) is None,
{
    let mut m: Vec<(String, usize)> = Vec::new();
    let ghost fs = fviews(findings@);
    proof {
        reveal_strlit("error");
        reveal_strlit("warn");
        reveal_strlit("info");
        assert("error"@.len() != "warn"@.len());
        assert("error"@.len() != "info"@.len());
        assert("warn"@[0] != "info"@[0]);
    }
    let mut i: usize = 0;
    while i < findings.len()
        invariant
            fs == fviews(findings@),
            i <= findings@.len(),
            is_map(m@),
            forall|s: Severity| #[trigger] lookup(m@, s.name()) == if count_sev(fs.take(i as int), s) > 0 {
                Some(count_sev(fs.take(i as int), s) as usize)
            } else {
                None
            },
            forall|k: Seq<char>| k != "error"@ && k != "warn"@ && k != "info"@ ==> #[trigger] lookup(m@, k) is None,
            "error"@ != "warn"@ && "error"@ != "info"@ && "warn"@ != "info"@,
        decreases findings@.len() - i,
    {
        let sev = findings[i].severity;
        let name = sev.as_str();
        proof {
            assert(fs.take(i + 1).drop_last() =~= fs.take(i as int));
            assert(fs.take(i + 1).last() == fs[i as int]);
            lemma_count_sev_bound(fs.take(i as int), sev);
        }
        let prev = match map_find(&m, name) {
            Some(j) => m[j].1,
            None => 0,
        };
        map_insert(&mut m, owned(name), prev + 1);
        proof {
            assert forall|s: Severity| #[trigger] lookup(m@, s.name()) == if count_sev(fs.take(i + 1), s) > 0 {
                Some(count_sev(fs.take(i + 1), s) as usize)
            } else {
                None
            } by {
                if s != sev {
                    assert(s.name() != sev.name());
                }
            }
        }
        i = i + 1;
    }
    assert(fs.take(findings@.len() as int) =~= fs);
    m
}

// ---------------------------------------------------------------------------
// Suppression
// ---------------------------------------------------------------------------

/// Does the suppress-rule node selector `want` name the finding's node: its
/// id, its short id (package name), a trailing `/`-separated part of the id,
/// or its path?
pub open spec fn node_matches_spec(f: FindingView, want0: Seq<char>) -> bool {
    let want = trim_char(trim(want0), '`');
    if want.len() == 0 {
        true
    } else {
        match f.2 {
            None => f.4 == Some(want) || want == "."@,
            Some(id) => id == want || after_last(id, '/') == want || ends_with(id, "/"@ + want) || f.4 == Some(
                want,
            ),
        }
    }
}

/// Does rule `r` silence finding `f`?  The code must match (or be `*`); a
/// missing, empty or `*` node matches everything.
pub open spec fn rule_silences(r: SuppressRule, f: FindingView) -> bool {
    (r.code@ == "*"@ || r.code@ == f.1) && match r.node {
        None => true,
        Some(n) => n@ == "*"@ || n@.len() == 0 || node_matches_spec(f, n@),
    }
}

pub open spec fn suppressed_by(rules: Seq<SuppressRule>, f: FindingView) -> bool {
    exists|i: int| 0 <= i < rules.len() && rule_silences(rules[i], f)
}

/// The findings no rule silences, in order.
pub open spec fn kept_by(rules: Seq<SuppressRule>, fs: Seq<Finding>) -> Seq<Finding>
    decreases fs.len(),
{
    if fs.len() == 0 {
        fs
    } else if suppressed_by(rules, fs.last()@) {
        kept_by(rules, fs.drop_last())
    } else {
        kept_by(rules, fs.drop_last()).push(fs.last())
    }
}

proof fn lemma_kept_len(rules: Seq<SuppressRule>, fs: Seq<Finding>)
    ensures
        kept_by(rules, fs).len() <= fs.len(),
    decreases fs.len(),
{
    if fs.len() > 0 {
        lemma_kept_len(rules, fs.drop_last());
    }
}

fn node_matches(f: &Finding, want: &str) -> (r: bool)
    ensures
        r == node_matches_spec(f@, want@),
{
    let t = trim_str(want);
    let w = trim_char_str(t.as_str(), '`');
    if w.as_str().unicode_len() == 0 {
        return true;
    }
    match &f.node {
        None => {
            let path_eq = match &f.path {
                Some(p) => str_eq(p.as_str(), w.as_str()),
                None => false,
            };
            path_eq || str_eq(w.as_str(), ".")
        },
        Some(id) => {
            if str_eq(id.as_str(), w.as_str()) {
                return true;
            }
            let short = after_last_str(id.as_str(), '/');
            if str_eq(short.as_str(), w.as_str()) {
                return true;
            }
            let mut slash_w = owned("/");
            push_str(&mut slash_w, w.as_str());
            let path_eq = match &f.path {
                Some(p) => str_eq(p.as_str(), w.as_str()),
                None => false,
            };
            ends_with_str(id.as_str(), slash_w.as_str()) || path_eq
        },
    }
}

fn rule_matches(r: &SuppressRule, f: &Finding) -> (b: bool)
    ensures
        b == rule_silences(*r, f@),
{
    if !str_eq(r.code.as_str(), "*") && !str_eq(r.code.as_str(), f.code.as_str()) {
        return false;
    }
    match &r.node {
        None => true,
        Some(n) => str_eq(n.as_str(), "*") || n.as_str().unicode_len() == 0 || node_matches(f, n.as_str()),
    }
}

fn is_suppressed(f: &Finding, rules: &Vec<SuppressRule>) -> (r: bool)
    ensures
        r == suppressed_by(rules@, f@),
{
    let mut i: usize = 0;
    while i < rules.len()
        invariant
            i <= rules@.len(),
            forall|j: int| 0 <= j < i ==> !rule_silences(rules@[j], f@),
        decreases rules@.len() - i,
    {
        if rule_matches(&rules[i], f) {
            return true;
        }
        i = i + 1;
    }
    false
}

/// Drop the findings matched by `[[suppress]]` rules; returns the kept
/// findings (in order) and how many were dropped.
pub fn apply_suppressions(findings: Vec<Finding>, rules: &Vec<SuppressRule>) -> (r: (Vec<Finding>, usize))
    ensures
        r.0@ == kept_by(rules@, findings@),
        r.1 == findings@.len() - kept_by(rules@, findings@).len(),
{
    if rules.len() == 0 {
        proof {
            lemma_kept_none(rules@, findings@);
        }
        return (findings, 0);
    }
    let before = findings.len();
    let mut kept: Vec<Finding> = Vec::new();
    let mut rest = findings;
    let ghost all = rest@;
    let mut i: usize = 0;
    while i < before
        invariant
            before == all.len(),
            i <= before,
            rest@.len() == before,
            forall|j: int| i <= j < before ==> rest@[j] == all[j],
            kept@ == kept_by(rules@, all.take(i as int)),
        decreases before - i,
    {
        proof {
            assert(all.take(i + 1).drop_last() =~= all.take(i as int));
            assert(all.take(i + 1).last() == all[i as int]);
        }
        if !is_suppressed(&rest[i], rules) {
            let ghost k0 = kept@;
            let mut g = Finding::new(Severity::Info, "", "");
            proof {
                assert(rest@[i as int] == all[i as int]);
            }
            std::mem::swap(&mut g, &mut rest[i]);
            kept.push(g);
        }
        i = i + 1;
    }
    assert(all.take(before as int) =~= all);
    proof {
        lemma_kept_len(rules@, all);
    }
    let n = before - kept.len();
    (kept, n)
}

/// Without suppress rules nothing is muted: every finding is kept, in order.
pub proof fn lemma_kept_none(rules: Seq<SuppressRule>, fs: Seq<Finding>)
    requires
        rules.len() == 0,
    ensures
        kept_by(rules, fs) == fs,
    decreases fs.len(),
{
    if fs.len() > 0 {
        lemma_kept_none(rules, fs.drop_last());
        assert(fs.drop_last().push(fs.last()) =~= fs);
    }
}

/// Suppression keeps exactly the findings no rule matches: a kept finding is
/// one of the input's and unmatched, and every unmatched input finding is
/// kept.
pub proof fn lemma_kept_exactly(rules: Seq<SuppressRule>, fs: Seq<Finding>)
    ensures
        forall|i: int| 0 <= i < kept_by(rules, fs).len() ==> fs.contains(#[trigger] kept_by(rules, fs)[i]) && !suppressed_by(
            rules,
            kept_by(rules, fs)[i]@,
        ),
        forall|i: int| 0 <= i < fs.len() && !suppressed_by(rules, #[trigger] fs[i]@) ==> kept_by(rules, fs).contains(fs[i]),
    decreases fs.len(),
{
    if fs.len() > 0 {
        let init = fs.drop_last();
        lemma_kept_exactly(rules, init);
        let k0 = kept_by(rules, init);
        assert forall|i: int| 0 <= i < kept_by(rules, fs).len() implies fs.contains(#[trigger] kept_by(rules, fs)[i])
            && !suppressed_by(rules, kept_by(rules, fs)[i]@) by {
            if i < k0.len() {
                let j = choose|j: int| 0 <= j < init.len() && init[j] == k0[i];
                assert(fs[j] == init[j]);
            } else {
                assert(fs[fs.len() - 1] == fs.last());
            }
        }
        assert forall|i: int| 0 <= i < fs.len() && !suppressed_by(rules, #[trigger] fs[i]@) implies kept_by(rules, fs).contains(
            fs[i],
        ) by {
            if i < fs.len() - 1 {
                assert(init[i] == fs[i]);
                let j = choose|j: int| 0 <= j < k0.len() && k0[j] == fs[i];
                assert(kept_by(rules, fs)[j] == fs[i]);
            } else {
                assert(kept_by(rules, fs)[kept_by(rules, fs).len() - 1] == fs[i]);
            }
        }
    }
}

/// Suppression is idempotent: applying the same rules to findings that were
/// already filtered keeps every one of them, so a second pass mutes nothing.
pub proof fn lemma_kept_idempotent(rules: Seq<SuppressRule>, fs: Seq<Finding>)
    ensures
        kept_by(rules, kept_by(rules, fs)) == kept_by(rules, fs),
    decreases fs.len(),
{
    if fs.len() > 0 {
        let init = fs.drop_last();
        lemma_kept_idempotent(rules, init);
        if !suppressed_by(rules, fs.last()@) {
            let k = kept_by(rules, init).push(fs.last());
            assert(k.drop_last() =~= kept_by(rules, init));
            assert(k.last() == fs.last());
        }
    }
}

// ---------------------------------------------------------------------------
// Building blocks of the analysis
// ---------------------------------------------------------------------------

/// One finding when `c` holds, none otherwise.
pub open spec fn when(c: bool, f: FindingView) -> Seq<FindingView> {
    if c {
        seq![f]
    } else {
        seq![]
    }
}

/// A finding attached to node `n` (node id, path = node path unless given).
pub open spec fn node_finding(
    n: crate::Node,
    sev: Severity,
    code: Seq<char>,
    msg: Seq<char>,
    path: Option<Seq<char>>,
    fix: Option<Seq<char>>,
) -> FindingView {
    (sev, code, Some(n.id@), msg, match path {
        Some(p) => Some(p),
        None => Some(n.path@),
    }, fix)
}

fn push_f(out: &mut Vec<Finding>, f: Finding)
    ensures
        fviews(final(out)@) == fviews(old(out)@).push(f@),
{
    proof {
        lemma_fviews_push(old(out)@, f);
    }
    out.push(f);
}

fn mk(n: &crate::Node, sev: Severity, code: &str, msg: &str, path: Option<&str>, fix: Option<&str>) -> (f: Finding)
    ensures
        f@ == node_finding(*n, sev, code@, msg@, match path {
            Some(p) => Some(p@),
            None => None,
        }, match fix {
            Some(x) => Some(x@),
            None => None,
        }),
{
    let mut f = Finding::new(sev, code, msg).at_node(n);
    if let Some(p) = path {
        f = f.with_path(p);
    }
    if let Some(x) = fix {
        f = f.with_fix(x);
    }
    f
}

/// The editor crate that plugins should use: the first token of the
/// `plugin_target_editor` rule (split at characters other than ASCII
/// alphanumerics, `-`, `_`) that ends in `-editor` and is not `truce-slint`;
/// otherwise `lx-slint-editor`.
pub open spec fn editor_target_of(rules: Seq<(String, String)>) -> Seq<char> {
    match lookup(rules, "plugin_target_editor"@) {
        Some(t) => match first_editor_token(crate::text::name_tokens(t@), 0) {
            Some(x) => x,
            None => "lx-slint-editor"@,
        },
        None => "lx-slint-editor"@,
    }
}

pub open spec fn editor_token(t: Seq<char>) -> bool {
    ends_with(t, "-editor"@) && t != "truce-slint"@
}

pub open spec fn first_editor_token(toks: Seq<Seq<char>>, i: int) -> Option<Seq<char>>
    decreases toks.len() - i,
{
    if i < 0 || i >= toks.len() {
        None
    } else if editor_token(toks[i]) {
        Some(toks[i])
    } else {
        first_editor_token(toks, i + 1)
    }
}

fn editor_target(rules: &Vec<(String, String)>) -> (r: String)
    requires
        is_map(rules@),
    ensures
        r@ == editor_target_of(rules@),
{
    match crate::text::map_get(rules, "plugin_target_editor") {
        None => owned("lx-slint-editor"),
        Some(t) => {
            let toks = crate::text::split_name_tokens(t.as_str());
            let mut i: usize = 0;
            while i < toks.len()
                invariant
                    i <= toks@.len(),
                    lookup(rules@, "plugin_target_editor"@) == Some(*t),
                    crate::text::strs(toks@) == crate::text::name_tokens(t@),
                    first_editor_token(crate::text::name_tokens(t@), 0) == first_editor_token(
                        crate::text::name_tokens(t@),
                        i as int,
                    ),
                decreases toks@.len() - i,
            {
                assert(crate::text::strs(toks@)[i as int] == toks@[i as int]@);
                if ends_with_str(toks[i].as_str(), "-editor") && !str_eq(toks[i].as_str(), "truce-slint") {
                    assert(editor_token(crate::text::name_tokens(t@)[i as int]));
                    assert(first_editor_token(crate::text::name_tokens(t@), i as int) == Some(toks@[i as int]@));
                    let r = toks[i].clone();
                    assert(r@ == toks@[i as int]@);
                    return r;
                }
                i = i + 1;
            }
            owned("lx-slint-editor")
        },
    }
}

/// What the filesystem says about one `workspace.members` entry of the root
/// manifest: its pattern (`None` when not a string) and whether the path it
/// names exists (for a glob: the base directory of [`member_glob_base`]; for
/// a plain member: its `Cargo.toml`).
#[derive(Debug, Clone)]
pub struct MemberCheck {
    pub pattern: Option<String>,
    pub exists: bool,
}

/// Filesystem facts the integrity checks read.
#[derive(Debug, Clone)]
pub struct WorkspaceLayout {
    /// Entries of `workspace.members` (empty when the root manifest has none).
    pub members: Vec<MemberCheck>,
    /// Directories with a `Cargo.toml` directly under `plugins/` or `crates/`:
    /// (base, path relative to the workspace root).
    pub package_dirs: Vec<(String, String)>,
}

/// `s` with every trailing repetition of `p` removed (`str::trim_end_matches`).
pub open spec fn trim_suffix_all(s: Seq<char>, p: Seq<char>) -> Seq<char>
    decreases s.len(),
{
    if p.len() > 0 && ends_with(s, p) {
        trim_suffix_all(s.take(s.len() - p.len()), p)
    } else {
        s
    }
}

fn trim_suffix_all_exec(s: &str, p: &str) -> (r: String)
    ensures
        r@ == trim_suffix_all(s@, p@),
    decreases s@.len(),
{
    if p.unicode_len() > 0 && ends_with_str(s, p) {
        let x = crate::text::chars_of(s);
        let n = x.len() - p.unicode_len();
        let t = crate::text::slice_string(&x, 0, n);
        assert(x@.subrange(0, n as int) =~= s@.take(s@.len() - p@.len()));
        trim_suffix_all_exec(t.as_str(), p)
    } else {
        owned(s)
    }
}

/// Base directory a member glob refers to: the pattern without trailing
/// `/**`, `/*`, `*` and `/` runs, in that order.
pub open spec fn glob_base(pattern: Seq<char>) -> Seq<char> {
    trim_suffix_all(trim_suffix_all(trim_suffix_all(trim_suffix_all(pattern, "/**"@), "/*"@), "*"@), "/"@)
}

/// The base directory that a glob member pattern needs to exist.
pub fn member_glob_base(pattern: &str) -> (r: String)
    ensures
        r@ == glob_base(pattern@),
{
    let a = trim_suffix_all_exec(pattern, "/**");
    let b = trim_suffix_all_exec(a.as_str(), "/*");
    let c = trim_suffix_all_exec(b.as_str(), "*");
    trim_suffix_all_exec(c.as_str(), "/")
}

/// Finding for one `workspace.members` entry.
pub open spec fn member_findings(m: MemberCheck) -> Seq<FindingView> {
    match m.pattern {
        None => seq![],
        Some(p) => if p@.contains('*') {
            let base = glob_base(p@);
            when(base.len() > 0 && !m.exists, (Severity::Error, "workspace_member_missing"@, None,
                "workspace member glob `"@ + p@ + "` base `"@ + base + "` does not exist"@, Some("Cargo.toml"@),
                Some("create `"@ + base + "/` or remove `"@ + p@ + "` from workspace.members"@)))
        } else {
            when(!m.exists, (Severity::Error, "workspace_member_missing"@, None,
                "workspace member `"@ + p@ + "` has no Cargo.toml"@, Some(p@),
                Some("add `"@ + p@ + "/Cargo.toml` or remove member from root Cargo.toml"@)))
        },
    }
}

/// Finding for one package directory that is not a graph node.
pub open spec fn package_finding(base: Seq<char>, rel: Seq<char>, known: Seq<Seq<char>>) -> Seq<FindingView> {
    when(!known.contains(rel), (Severity::Warn, if base == "plugins"@ {
        "plugin_not_in_workspace"@
    } else {
        "package_not_in_workspace"@
    }, None, "`"@ + rel + "` has Cargo.toml but is not a workspace member"@, Some(rel),
        Some("add `"@ + rel + "` (or `"@ + base + "/*`) to workspace.members in root Cargo.toml"@)))
}

/// Node paths of the graph.
pub open spec fn node_paths(nodes: Seq<crate::Node>) -> Seq<Seq<char>> {
    nodes.map_values(|n: crate::Node| n.path@)
}

pub open spec fn members_findings(ms: Seq<MemberCheck>) -> Seq<FindingView>
    decreases ms.len(),
{
    if ms.len() == 0 {
        seq![]
    } else {
        members_findings(ms.drop_last()) + member_findings(ms.last())
    }
}

pub open spec fn packages_findings(ds: Seq<(String, String)>, known: Seq<Seq<char>>) -> Seq<FindingView>
    decreases ds.len(),
{
    if ds.len() == 0 {
        seq![]
    } else {
        packages_findings(ds.drop_last(), known) + package_finding(ds.last().0@, ds.last().1@, known)
    }
}

/// Integrity findings: members that do not resolve, then packages under
/// `plugins/` and `crates/` that are not workspace members.
pub open spec fn integrity_of(layout: WorkspaceLayout, nodes: Seq<crate::Node>) -> Seq<FindingView> {
    members_findings(layout.members@) + packages_findings(layout.package_dirs@, node_paths(nodes))
}

fn path_known(nodes: &Vec<crate::Node>, rel: &str) -> (r: bool)
    ensures
        r == node_paths(nodes@).contains(rel@),
{
    let mut i: usize = 0;
    while i < nodes.len()
        invariant
            i <= nodes@.len(),
            forall|j: int| 0 <= j < i ==> nodes@[j].path@ != rel@,
        decreases nodes@.len() - i,
    {
        if str_eq(nodes[i].path.as_str(), rel) {
            assert(node_paths(nodes@)[i as int] == rel@);
            return true;
        }
        i = i + 1;
    }
    proof {
        if node_paths(nodes@).contains(rel@) {
            let j = choose|j: int| 0 <= j < node_paths(nodes@).len() && node_paths(nodes@)[j] == rel@;
            assert(nodes@[j].path@ == rel@);
        }
    }
    false
}

/// Integrity findings (see [`integrity_of`]).
pub fn integrity_checks(layout: &WorkspaceLayout, nodes: &Vec<crate::Node>, out: &mut Vec<Finding>)
    ensures
        fviews(final(out)@) == fviews(old(out)@) + integrity_of(*layout, nodes@),
{
    let ghost start = fviews(out@);
    let mut i: usize = 0;
    while i < layout.members.len()
        invariant
            i <= layout.members@.len(),
            fviews(out@) == start + members_findings(layout.members@.take(i as int)),
        decreases layout.members@.len() - i,
    {
        let m = &layout.members[i];
        proof {
            assert(layout.members@.take(i + 1).drop_last() =~= layout.members@.take(i as int));
            assert(layout.members@.take(i + 1).last() == *m);
        }
        match &m.pattern {
            None => {
                assert(fviews(out@) =~= start + members_findings(layout.members@.take(i + 1)));
            },
            Some(p) => {
                if crate::text::contains_char(p.as_str(), '*') {
                    let base = member_glob_base(p.as_str());
                    if base.as_str().unicode_len() > 0 && !m.exists {
                        let msg = crate::text::cat5("workspace member glob `", p.as_str(), "` base `", base.as_str(), "` does not exist");
                        let fix = crate::text::cat5("create `", base.as_str(), "/` or remove `", p.as_str(), "` from workspace.members");
                        let f = Finding::new(Severity::Error, "workspace_member_missing", msg.as_str()).with_path(
                            "Cargo.toml",
                        ).with_fix(fix.as_str());
                        push_f(out, f);
                    }
                } else if !m.exists {
                    let msg = crate::text::cat3("workspace member `", p.as_str(), "` has no Cargo.toml");
                    let fix = crate::text::cat3("add `", p.as_str(), "/Cargo.toml` or remove member from root Cargo.toml");
                    let f = Finding::new(Severity::Error, "workspace_member_missing", msg.as_str()).with_path(
                        p.as_str(),
                    ).with_fix(fix.as_str());
                    push_f(out, f);
                }
                assert(fviews(out@) =~= start + members_findings(layout.members@.take(i + 1)));
            },
        }
        i = i + 1;
    }
    assert(layout.members@.take(layout.members@.len() as int) =~= layout.members@);
    let ghost mid = fviews(out@);
    let mut i: usize = 0;
    while i < layout.package_dirs.len()
        invariant
            i <= layout.package_dirs@.len(),
            fviews(out@) == mid + packages_findings(layout.package_dirs@.take(i as int), node_paths(nodes@)),
        decreases layout.package_dirs@.len() - i,
    {
        let (base, rel) = (&layout.package_dirs[i].0, &layout.package_dirs[i].1);
        proof {
            assert(layout.package_dirs@.take(i + 1).drop_last() =~= layout.package_dirs@.take(i as int));
            assert(layout.package_dirs@.take(i + 1).last() == layout.package_dirs@[i as int]);
        }
        if !path_known(nodes, rel.as_str()) {
            let code = if str_eq(base.as_str(), "plugins") {
                "plugin_not_in_workspace"
            } else {
                "package_not_in_workspace"
            };
            let msg = crate::text::cat3("`", rel.as_str(), "` has Cargo.toml but is not a workspace member");
            let fix = crate::text::cat5("add `", rel.as_str(), "` (or `", base.as_str(), "/*`) to workspace.members in root Cargo.toml");
            let f = Finding::new(Severity::Warn, code, msg.as_str()).with_path(rel.as_str()).with_fix(fix.as_str());
            push_f(out, f);
        }
        assert(fviews(out@) =~= mid + packages_findings(layout.package_dirs@.take(i + 1), node_paths(nodes@)));
        i = i + 1;
    }
    assert(layout.package_dirs@.take(layout.package_dirs@.len() as int) =~= layout.package_dirs@);
}

// ---------------------------------------------------------------------------
// Small queries over strings, nodes and edges
// ---------------------------------------------------------------------------

pub open spec fn any_has_sub(v: Seq<Seq<char>>, sub: Seq<char>) -> bool {
    exists|i: int| 0 <= i < v.len() && crate::text::has_sub(v[i], sub)
}

fn any_contains(v: &Vec<String>, sub: &str) -> (r: bool)
    ensures
        r == any_has_sub(crate::text::strs(v@), sub@),
{
    let mut i: usize = 0;
    while i < v.len()
        invariant
            i <= v@.len(),
            forall|j: int| 0 <= j < i ==> !crate::text::has_sub(v@[j]@, sub@),
        decreases v@.len() - i,
    {
        if crate::text::contains_str(v[i].as_str(), sub) {
            assert(crate::text::strs(v@)[i as int] == v@[i as int]@);
            return true;
        }
        i = i + 1;
    }
    proof {
        if any_has_sub(crate::text::strs(v@), sub@) {
            let j = choose|j: int| 0 <= j < crate::text::strs(v@).len() && crate::text::has_sub(crate::text::strs(v@)[j], sub@);
            assert(crate::text::strs(v@)[j] == v@[j]@);
        }
    }
    false
}

pub open spec fn any_ends_with(v: Seq<Seq<char>>, suffix: Seq<char>) -> bool {
    exists|i: int| 0 <= i < v.len() && ends_with(v[i], suffix)
}

fn any_ends(v: &Vec<String>, suffix: &str) -> (r: bool)
    ensures
        r == any_ends_with(crate::text::strs(v@), suffix@),
{
    let mut i: usize = 0;
    while i < v.len()
        invariant
            i <= v@.len(),
            forall|j: int| 0 <= j < i ==> !ends_with(v@[j]@, suffix@),
        decreases v@.len() - i,
    {
        if ends_with_str(v[i].as_str(), suffix) {
            assert(crate::text::strs(v@)[i as int] == v@[i as int]@);
            return true;
        }
        i = i + 1;
    }
    proof {
        if any_ends_with(crate::text::strs(v@), suffix@) {
            let j = choose|j: int| 0 <= j < crate::text::strs(v@).len() && ends_with(crate::text::strs(v@)[j], suffix@);
            assert(crate::text::strs(v@)[j] == v@[j]@);
        }
    }
    false
}

/// Some role value equals `x`.
pub open spec fn has_role(m: Seq<(String, String)>, x: Seq<char>) -> bool {
    crate::ast::role_values(m).contains(x)
}

fn role_present(m: &Vec<(String, String)>, x: &str) -> (r: bool)
    ensures
        r == has_role(m@, x@),
{
    let mut i: usize = 0;
    while i < m.len()
        invariant
            i <= m@.len(),
            forall|j: int| 0 <= j < i ==> m@[j].1@ != x@,
        decreases m@.len() - i,
    {
        if str_eq(m[i].1.as_str(), x) {
            assert(crate::ast::role_values(m@)[i as int] == x@);
            return true;
        }
        i = i + 1;
    }
    proof {
        if has_role(m@, x@) {
            let j = choose|j: int| 0 <= j < crate::ast::role_values(m@).len() && crate::ast::role_values(m@)[j] == x@;
            assert(m@[j].1@ == x@);
        }
    }
    false
}

/// Some node is named `x`.
pub open spec fn node_named(nodes: Seq<crate::Node>, x: Seq<char>) -> bool {
    exists|i: int| 0 <= i < nodes.len() && nodes[i].name@ == x
}

fn any_node_named(nodes: &Vec<crate::Node>, x: &str) -> (r: bool)
    ensures
        r == node_named(nodes@, x@),
{
    let mut i: usize = 0;
    while i < nodes.len()
        invariant
            i <= nodes@.len(),
            forall|j: int| 0 <= j < i ==> nodes@[j].name@ != x@,
        decreases nodes@.len() - i,
    {
        if str_eq(nodes[i].name.as_str(), x) {
            return true;
        }
        i = i + 1;
    }
    false
}

/// Edge from `from` of kind `k1` or `k2` whose target contains `sub`.
pub open spec fn edge_from_kind_to_sub(edges: Seq<crate::Edge>, from: Seq<char>, k1: Seq<char>, k2: Seq<char>, sub: Seq<char>) -> bool {
    exists|i: int|
        0 <= i < edges.len() && edges[i].from@ == from && (edges[i].kind@ == k1 || edges[i].kind@ == k2)
            && crate::text::has_sub(edges[i].to@, sub)
}

fn edge_to_sub(edges: &Vec<crate::Edge>, from: &str, k1: &str, k2: &str, sub: &str) -> (r: bool)
    ensures
        r == edge_from_kind_to_sub(edges@, from@, k1@, k2@, sub@),
{
    let mut i: usize = 0;
    while i < edges.len()
        invariant
            i <= edges@.len(),
            forall|j: int| 0 <= j < i ==> !(edges@[j].from@ == from@ && (edges@[j].kind@ == k1@ || edges@[j].kind@ == k2@)
                && crate::text::has_sub(edges@[j].to@, sub@)),
        decreases edges@.len() - i,
    {
        let e = &edges[i];
        if str_eq(e.from.as_str(), from) && (str_eq(e.kind.as_str(), k1) || str_eq(e.kind.as_str(), k2))
            && crate::text::contains_str(e.to.as_str(), sub) {
            return true;
        }
        i = i + 1;
    }
    false
}

/// Edge `from` → `to` whose kind is one of `k1`, `k2`, `k3`.
pub open spec fn edge_between(edges: Seq<crate::Edge>, from: Seq<char>, to: Seq<char>, k1: Seq<char>, k2: Seq<char>, k3: Seq<char>) -> bool {
    exists|i: int|
        0 <= i < edges.len() && edges[i].from@ == from && edges[i].to@ == to && (edges[i].kind@ == k1
            || edges[i].kind@ == k2 || edges[i].kind@ == k3)
}

fn edge_between_exec(edges: &Vec<crate::Edge>, from: &str, to: &str, k1: &str, k2: &str, k3: &str) -> (r: bool)
    ensures
        r == edge_between(edges@, from@, to@, k1@, k2@, k3@),
{
    let mut i: usize = 0;
    while i < edges.len()
        invariant
            i <= edges@.len(),
            forall|j: int| 0 <= j < i ==> !(edges@[j].from@ == from@ && edges@[j].to@ == to@ && (edges@[j].kind@ == k1@
                || edges@[j].kind@ == k2@ || edges@[j].kind@ == k3@)),
        decreases edges@.len() - i,
    {
        let e = &edges[i];
        if str_eq(e.from.as_str(), from) && str_eq(e.to.as_str(), to) && (str_eq(e.kind.as_str(), k1)
            || str_eq(e.kind.as_str(), k2) || str_eq(e.kind.as_str(), k3)) {
            return true;
        }
        i = i + 1;
    }
    false
}

/// Edge from `from` of kind `k`.
pub open spec fn edge_from_kind(edges: Seq<crate::Edge>, from: Seq<char>, k: Seq<char>) -> bool {
    exists|i: int| 0 <= i < edges.len() && edges[i].from@ == from && edges[i].kind@ == k
}

fn edge_from_kind_exec(edges: &Vec<crate::Edge>, from: &str, k: &str) -> (r: bool)
    ensures
        r == edge_from_kind(edges@, from@, k@),
{
    let mut i: usize = 0;
    while i < edges.len()
        invariant
            i <= edges@.len(),
            forall|j: int| 0 <= j < i ==> !(edges@[j].from@ == from@ && edges@[j].kind@ == k@),
        decreases edges@.len() - i,
    {
        if str_eq(edges[i].from.as_str(), from) && str_eq(edges[i].kind.as_str(), k) {
            return true;
        }
        i = i + 1;
    }
    false
}

/// Edge of kind `k` touching node `id` at either end.
pub open spec fn edge_touching(edges: Seq<crate::Edge>, id: Seq<char>, k: Seq<char>) -> bool {
    exists|i: int| 0 <= i < edges.len() && edges[i].kind@ == k && (edges[i].from@ == id || edges[i].to@ == id)
}

fn edge_touching_exec(edges: &Vec<crate::Edge>, id: &str, k: &str) -> (r: bool)
    ensures
        r == edge_touching(edges@, id@, k@),
{
    let mut i: usize = 0;
    while i < edges.len()
        invariant
            i <= edges@.len(),
            forall|j: int| 0 <= j < i ==> !(edges@[j].kind@ == k@ && (edges@[j].from@ == id@ || edges@[j].to@ == id@)),
        decreases edges@.len() - i,
    {
        let e = &edges[i];
        if str_eq(e.kind.as_str(), k) && (str_eq(e.from.as_str(), id) || str_eq(e.to.as_str(), id)) {
            return true;
        }
        i = i + 1;
    }
    false
}

/// Number of edges into `id`.
pub open spec fn inbound_count(edges: Seq<crate::Edge>, id: Seq<char>) -> nat
    decreases edges.len(),
{
    if edges.len() == 0 {
        0
    } else {
        inbound_count(edges.drop_last(), id) + if edges.last().to@ == id { 1nat } else { 0nat }
    }
}

proof fn lemma_inbound_bound(edges: Seq<crate::Edge>, id: Seq<char>)
    ensures
        inbound_count(edges, id) <= edges.len(),
    decreases edges.len(),
{
    if edges.len() > 0 {
        lemma_inbound_bound(edges.drop_last(), id);
    }
}

fn inbound(edges: &Vec<crate::Edge>, id: &str) -> (n: usize)
    ensures
        n == inbound_count(edges@, id@),
{
    let mut n: usize = 0;
    let mut i: usize = 0;
    while i < edges.len()
        invariant
            i <= edges@.len(),
            n == inbound_count(edges@.take(i as int), id@),
            n <= i,
        decreases edges@.len() - i,
    {
        assert(edges@.take(i + 1).drop_last() =~= edges@.take(i as int));
        if str_eq(edges[i].to.as_str(), id) {
            n = n + 1;
        }
        i = i + 1;
    }
    assert(edges@.take(edges@.len() as int) =~= edges@);
    n
}

/// Two string sets share an element.
pub open spec fn intersects(a: Seq<Seq<char>>, b: Seq<Seq<char>>) -> bool {
    exists|i: int| 0 <= i < a.len() && b.contains(a[i])
}

fn intersects_exec(a: &Vec<String>, b: &Vec<String>) -> (r: bool)
    ensures
        r == intersects(crate::text::strs(a@), crate::text::strs(b@)),
{
    let mut i: usize = 0;
    while i < a.len()
        invariant
            i <= a@.len(),
            forall|j: int| 0 <= j < i ==> !crate::text::strs(b@).contains(a@[j]@),
        decreases a@.len() - i,
    {
        if crate::text::set_contains(b, a[i].as_str()) {
            assert(crate::text::strs(a@)[i as int] == a@[i as int]@);
            return true;
        }
        i = i + 1;
    }
    proof {
        if intersects(crate::text::strs(a@), crate::text::strs(b@)) {
            let j = choose|j: int| 0 <= j < crate::text::strs(a@).len() && crate::text::strs(b@).contains(crate::text::strs(a@)[j]);
            assert(crate::text::strs(a@)[j] == a@[j]@);
        }
    }
    false
}

// ---------------------------------------------------------------------------
// Plugin checks
// ---------------------------------------------------------------------------

/// Visible (non-hidden) fields.
pub open spec fn visible_in(fields: Seq<crate::ast::ParamField>) -> nat
    decreases fields.len(),
{
    if fields.len() == 0 {
        0
    } else {
        visible_in(fields.drop_last()) + if fields.last().hidden { 0nat } else { 1nat }
    }
}

/// Visible params over all Params structs.
pub open spec fn visible_params(pf: Seq<(String, Vec<crate::ast::ParamField>)>) -> nat
    decreases pf.len(),
{
    if pf.len() == 0 {
        0
    } else {
        visible_params(pf.drop_last()) + visible_in(pf.last().1@)
    }
}

/// All params over all Params structs.
pub open spec fn total_params(pf: Seq<(String, Vec<crate::ast::ParamField>)>) -> nat
    decreases pf.len(),
{
    if pf.len() == 0 {
        0
    } else {
        total_params(pf.drop_last()) + pf.last().1@.len()
    }
}

proof fn lemma_visible_le(fields: Seq<crate::ast::ParamField>)
    ensures
        visible_in(fields) <= fields.len(),
    decreases fields.len(),
{
    if fields.len() > 0 {
        lemma_visible_le(fields.drop_last());
    }
}

proof fn lemma_params_mono(pf: Seq<(String, Vec<crate::ast::ParamField>)>, i: int)
    requires
        0 <= i <= pf.len(),
    ensures
        visible_params(pf.take(i)) <= total_params(pf.take(i)) <= total_params(pf),
        visible_params(pf) <= total_params(pf),
    decreases pf.len() - i,
{
    lemma_params_all(pf.take(i));
    if i < pf.len() {
        lemma_params_mono(pf, i + 1);
        assert(pf.take(i + 1).drop_last() =~= pf.take(i));
        assert(pf.take(i + 1).last() == pf[i]);
        lemma_visible_le(pf[i].1@);
        lemma_params_all(pf);
    } else {
        assert(pf.take(i) =~= pf);
        lemma_params_all(pf);
    }
}

/// The total over a prefix is at most the whole total.
pub proof fn lemma_total_params_prefix(pf: Seq<(String, Vec<crate::ast::ParamField>)>, i: int)
    requires
        0 <= i <= pf.len(),
    ensures
        total_params(pf.take(i)) <= total_params(pf),
    decreases pf.len() - i,
{
    if i < pf.len() {
        lemma_total_params_prefix(pf, i + 1);
        assert(pf.take(i + 1).drop_last() =~= pf.take(i));
    } else {
        assert(pf.take(i) =~= pf);
    }
}

proof fn lemma_params_all(pf: Seq<(String, Vec<crate::ast::ParamField>)>)
    ensures
        visible_params(pf) <= total_params(pf),
    decreases pf.len(),
{
    if pf.len() > 0 {
        lemma_params_all(pf.drop_last());
        lemma_visible_le(pf.last().1@);
    }
}

/// Counts that the plugin checks compute fit in `usize` (else the counting
/// itself would overflow).
pub open spec fn counts_fit(a: crate::ast::AstSummary) -> bool {
    total_params(a.params_fields@) <= usize::MAX && a.params_unbound@.len() * 100 <= usize::MAX
}

fn param_counts(a: &crate::ast::AstSummary) -> (r: (usize, usize))
    requires
        counts_fit(*a),
    ensures
        r.0 == visible_params(a.params_fields@),
        r.1 == total_params(a.params_fields@),
{
    let pf = &a.params_fields;
    let mut vis: usize = 0;
    let mut tot: usize = 0;
    let mut i: usize = 0;
    while i < pf.len()
        invariant
            counts_fit(*a),
            pf == &a.params_fields,
            i <= pf@.len(),
            vis == visible_params(pf@.take(i as int)),
            tot == total_params(pf@.take(i as int)),
        decreases pf@.len() - i,
    {
        proof {
            assert(pf@.take(i + 1).drop_last() =~= pf@.take(i as int));
            lemma_params_mono(pf@, i + 1);
        }
        let fields = &pf[i].1;
        let mut j: usize = 0;
        let mut v: usize = 0;
        while j < fields.len()
            invariant
                j <= fields@.len(),
                v == visible_in(fields@.take(j as int)),
                v <= j,
            decreases fields@.len() - j,
        {
            assert(fields@.take(j + 1).drop_last() =~= fields@.take(j as int));
            if !fields[j].hidden {
                v = v + 1;
            }
            j = j + 1;
        }
        assert(fields@.take(fields@.len() as int) =~= fields@);
        vis = vis + v;
        tot = tot + fields.len();
        i = i + 1;
    }
    assert(pf@.take(pf@.len() as int) =~= pf@);
    (vis, tot)
}

pub open spec fn cargo_toml_of(p: crate::Node) -> Seq<char> {
    p.path@ + "/Cargo.toml"@
}

/// Metadata checks: missing version (warn), missing description (info).
#[verifier::opaque]
pub open spec fn meta_findings(p: crate::Node) -> Seq<FindingView> {
    when(p.version is None, node_finding(p, Severity::Warn, "missing_version"@,
        p.name@ + " has no version in Cargo.toml — add `version = \"...\"` under [package]"@,
        Some(cargo_toml_of(p)), Some("set `version` in `"@ + p.path@ + "/Cargo.toml` [package]"@)))
    + when(p.description is None, node_finding(p, Severity::Info, "missing_description"@,
        p.name@ + " has no description in Cargo.toml — add `description = \"...\"` under [package]"@,
        Some(cargo_toml_of(p)), Some("set `description` in `"@ + p.path@ + "/Cargo.toml` [package]"@)))
}

fn meta_checks(p: &crate::Node, out: &mut Vec<Finding>)
    ensures
        fviews(final(out)@) == fviews(old(out)@) + meta_findings(*p),
{
    reveal(meta_findings);
    let ghost o0 = fviews(out@);
    let cargo = crate::text::cat2(p.path.as_str(), "/Cargo.toml");
    if p.version.is_none() {
        let msg = crate::text::cat2(p.name.as_str(), " has no version in Cargo.toml — add `version = \"...\"` under [package]");
        let fix = crate::text::cat3("set `version` in `", p.path.as_str(), "/Cargo.toml` [package]");
        push_f(out, mk(p, Severity::Warn, "missing_version", msg.as_str(), Some(cargo.as_str()), Some(fix.as_str())));
    }
    let ghost o1 = fviews(out@);
    if p.description.is_none() {
        let msg = crate::text::cat2(p.name.as_str(), " has no description in Cargo.toml — add `description = \"...\"` under [package]");
        let fix = crate::text::cat3("set `description` in `", p.path.as_str(), "/Cargo.toml` [package]");
        push_f(out, mk(p, Severity::Info, "missing_description", msg.as_str(), Some(cargo.as_str()), Some(fix.as_str())));
    }
    assert(fviews(out@) =~= o0 + meta_findings(*p));
}

/// Text the legacy-migration message ends with: the `plugin_target_editor`
/// rule, or `migrate editor adapter`.
pub open spec fn target_text(rules: Seq<(String, String)>) -> Seq<char> {
    match lookup(rules, "plugin_target_editor"@) {
        Some(t) => t@,
        None => "migrate editor adapter"@,
    }
}

/// Uses Slint: `slint` framework or some Slint component.
pub open spec fn has_slint(p: crate::Node, a: crate::ast::AstSummary) -> bool {
    crate::text::strs(p.frameworks@).contains("slint"@) || a.slint_components@.len() > 0
}

pub open spec fn editorish(f: Seq<char>) -> bool {
    f == "lx-slint-editor"@ || f == "truce-slint"@ || ends_with(f, "-editor"@)
}

pub open spec fn any_editorish(fws: Seq<Seq<char>>) -> bool {
    exists|i: int| 0 <= i < fws.len() && editorish(fws[i])
}

fn any_editorish_exec(v: &Vec<String>) -> (r: bool)
    ensures
        r == any_editorish(crate::text::strs(v@)),
{
    let mut i: usize = 0;
    while i < v.len()
        invariant
            i <= v@.len(),
            forall|j: int| 0 <= j < i ==> !editorish(v@[j]@),
        decreases v@.len() - i,
    {
        let f = v[i].as_str();
        if str_eq(f, "lx-slint-editor") || str_eq(f, "truce-slint") || ends_with_str(f, "-editor") {
            assert(crate::text::strs(v@)[i as int] == v@[i as int]@);
            return true;
        }
        i = i + 1;
    }
    proof {
        if any_editorish(crate::text::strs(v@)) {
            let j = choose|j: int| 0 <= j < crate::text::strs(v@).len() && editorish(crate::text::strs(v@)[j]);
            assert(crate::text::strs(v@)[j] == v@[j]@);
        }
    }
    false
}

/// Format, migration and editor-adapter checks.
#[verifier::opaque]
pub open spec fn adapter_findings(p: crate::Node, a: crate::ast::AstSummary, rules: Seq<(String, String)>, et: Seq<char>) -> Seq<FindingView> {
    when(a.plugin_formats@.len() == 0, node_finding(p, Severity::Warn, "missing_format"@,
        p.name@ + " has no detected export format (CLAP/VST3/LV2) — check [features] or framework config"@,
        Some(cargo_toml_of(p)), Some("enable format features in `"@ + p.path@ + "/Cargo.toml` (e.g. clap/vst3)"@)))
    + match opt_view(p.migration_status) {
        Some(m) => if m == "legacy"@ {
            seq![node_finding(p, Severity::Error, "migration_legacy"@,
                p.name@ + " still on legacy editor adapter — "@ + target_text(rules), None,
                Some("switch `"@ + p.name@ + "` to `"@ + et + "` (Cargo dep + editor imports)"@))]
        } else if m == "unknown"@ {
            seq![node_finding(p, Severity::Info, "migration_unknown"@,
                p.name@ + " migration status unknown (mixed or unmatched editor adapters)"@, None,
                Some("use only `"@ + et + "` as editor adapter in "@ + p.name@))]
        } else {
            seq![]
        },
        None => seq![],
    }
    + when(a.imported_editor_adapters@.len() > 1, node_finding(p, Severity::Warn, "mixed_editor_adapters"@,
        p.name@ + " imports multiple editor adapters: "@ + crate::text::join(crate::text::strs(a.imported_editor_adapters@), ", "@),
        None, Some("keep a single editor adapter (prefer `"@ + et + "`)"@)))
    + when(has_slint(p, a) && a.imported_editor_adapters@.len() == 0 && !any_editorish(crate::text::strs(p.frameworks@)),
        node_finding(p, Severity::Warn, "missing_editor_adapter"@,
        p.name@ + " uses Slint UI but no editor adapter import detected"@, None,
        Some("depend on and import `"@ + et + "` in "@ + p.name@)))
}

fn adapter_checks(
    p: &crate::Node,
    a: &crate::ast::AstSummary,
    rules: &Vec<(String, String)>,
    et: &String,
    out: &mut Vec<Finding>,
)
    requires
        is_map(rules@),
    ensures
        fviews(final(out)@) == fviews(old(out)@) + adapter_findings(*p, *a, rules@, et@),
{
    reveal(adapter_findings);
    let ghost o0 = fviews(out@);
    if a.plugin_formats.len() == 0 {
        let msg = crate::text::cat2(p.name.as_str(), " has no detected export format (CLAP/VST3/LV2) — check [features] or framework config");
        let cargo = crate::text::cat2(p.path.as_str(), "/Cargo.toml");
        let fix = crate::text::cat3("enable format features in `", p.path.as_str(), "/Cargo.toml` (e.g. clap/vst3)");
        push_f(out, mk(p, Severity::Warn, "missing_format", msg.as_str(), Some(cargo.as_str()), Some(fix.as_str())));
    }
    let ghost o1 = fviews(out@);
    match &p.migration_status {
        Some(m) => {
            if str_eq(m.as_str(), "legacy") {
                let rt = match crate::text::map_get(rules, "plugin_target_editor") {
                    Some(t) => t.clone(),
                    None => owned("migrate editor adapter"),
                };
                let msg = crate::text::cat3(p.name.as_str(), " still on legacy editor adapter — ", rt.as_str());
                let fix = crate::text::cat5("switch `", p.name.as_str(), "` to `", et.as_str(), "` (Cargo dep + editor imports)");
                push_f(out, mk(p, Severity::Error, "migration_legacy", msg.as_str(), None, Some(fix.as_str())));
            } else if str_eq(m.as_str(), "unknown") {
                let msg = crate::text::cat2(p.name.as_str(), " migration status unknown (mixed or unmatched editor adapters)");
                let fix = crate::text::cat4("use only `", et.as_str(), "` as editor adapter in ", p.name.as_str());
                push_f(out, mk(p, Severity::Info, "migration_unknown", msg.as_str(), None, Some(fix.as_str())));
            }
        },
        None => {},
    }
    let ghost o2 = fviews(out@);
    if a.imported_editor_adapters.len() > 1 {
        let list = crate::text::join_strings(&a.imported_editor_adapters, ", ");
        let msg = crate::text::cat3(p.name.as_str(), " imports multiple editor adapters: ", list.as_str());
        let fix = crate::text::cat3("keep a single editor adapter (prefer `", et.as_str(), "`)");
        push_f(out, mk(p, Severity::Warn, "mixed_editor_adapters", msg.as_str(), None, Some(fix.as_str())));
    }
    let ghost o3 = fviews(out@);
    let has_sl = crate::text::set_contains(&p.frameworks, "slint") || a.slint_components.len() > 0;
    if has_sl && a.imported_editor_adapters.len() == 0 && !any_editorish_exec(&p.frameworks) {
        let msg = crate::text::cat2(p.name.as_str(), " uses Slint UI but no editor adapter import detected");
        let fix = crate::text::cat4("depend on and import `", et.as_str(), "` in ", p.name.as_str());
        push_f(out, mk(p, Severity::Warn, "missing_editor_adapter", msg.as_str(), None, Some(fix.as_str())));
    }
    assert(fviews(out@) =~= o0 + adapter_findings(*p, *a, rules@, et@));
}

/// Some finding of `fs` on node `id` is `missing_editor_adapter` or `migration_legacy`.
pub open spec fn editor_already_flagged(fs: Seq<FindingView>, id: Seq<char>) -> bool {
    exists|i: int| 0 <= i < fs.len() && fs[i].2 == Some(id) && (fs[i].1 == "missing_editor_adapter"@ || fs[i].1 == "migration_legacy"@)
}

fn flagged_exec(out: &Vec<Finding>, id: &str) -> (r: bool)
    ensures
        r == editor_already_flagged(fviews(out@), id@),
{
    let mut i: usize = 0;
    while i < out.len()
        invariant
            i <= out@.len(),
            forall|j: int| 0 <= j < i ==> !(fviews(out@)[j].2 == Some(id@) && (fviews(out@)[j].1 == "missing_editor_adapter"@
                || fviews(out@)[j].1 == "migration_legacy"@)),
        decreases out@.len() - i,
    {
        let f = &out[i];
        assert(fviews(out@)[i as int] == f@);
        let on_node = match &f.node {
            Some(n) => str_eq(n.as_str(), id),
            None => false,
        };
        if on_node && (str_eq(f.code.as_str(), "missing_editor_adapter") || str_eq(f.code.as_str(), "migration_legacy")) {
            return true;
        }
        i = i + 1;
    }
    false
}

/// The plugin links the editor crate: internal dep naming it, framework, or
/// (build) dependency edge to a node whose id contains it.
pub open spec fn links_editor(p: crate::Node, edges: Seq<crate::Edge>, et: Seq<char>) -> bool {
    any_has_sub(crate::text::strs(p.internal_deps@), et) || crate::text::strs(p.frameworks@).contains(et)
        || edge_from_kind_to_sub(edges, p.id@, "depends_on"@, "build_depends_on"@, et)
}

/// Missing workspace dependency on the editor crate (unless already flagged).
#[verifier::opaque]
pub open spec fn editor_dep_findings(
    p: crate::Node,
    a: crate::ast::AstSummary,
    nodes: Seq<crate::Node>,
    edges: Seq<crate::Edge>,
    et: Seq<char>,
    prior: Seq<FindingView>,
) -> Seq<FindingView> {
    when(has_slint(p, a) && node_named(nodes, et) && !links_editor(p, edges, et) && !editor_already_flagged(prior, p.id@),
        node_finding(p, Severity::Warn, "required_dep_missing"@,
        p.name@ + " uses Slint but has no workspace dep on `"@ + et + "`"@, Some(cargo_toml_of(p)),
        Some("add path dep `"@ + et + "` in `"@ + p.path@ + "/Cargo.toml`"@)))
}

fn editor_dep_check(
    p: &crate::Node,
    a: &crate::ast::AstSummary,
    nodes: &Vec<crate::Node>,
    edges: &Vec<crate::Edge>,
    et: &String,
    out: &mut Vec<Finding>,
)
    ensures
        fviews(final(out)@) == fviews(old(out)@) + editor_dep_findings(*p, *a, nodes@, edges@, et@, fviews(old(out)@)),
{
    reveal(editor_dep_findings);
    let ghost o0 = fviews(out@);
    let has_sl = crate::text::set_contains(&p.frameworks, "slint") || a.slint_components.len() > 0;
    let has_target = any_node_named(nodes, et.as_str());
    let links = any_contains(&p.internal_deps, et.as_str()) || crate::text::set_contains(&p.frameworks, et.as_str())
        || edge_to_sub(edges, p.id.as_str(), "depends_on", "build_depends_on", et.as_str());
    if has_sl && has_target && !links {
        if !flagged_exec(out, p.id.as_str()) {
            let msg = crate::text::cat4(p.name.as_str(), " uses Slint but has no workspace dep on `", et.as_str(), "`");
            let cargo = crate::text::cat2(p.path.as_str(), "/Cargo.toml");
            let fix = crate::text::cat5("add path dep `", et.as_str(), "` in `", p.path.as_str(), "/Cargo.toml`");
            push_f(out, mk(p, Severity::Warn, "required_dep_missing", msg.as_str(), Some(cargo.as_str()), Some(fix.as_str())));
        }
    }
    assert(fviews(out@) =~= o0 + editor_dep_findings(*p, *a, nodes@, edges@, et@, o0));
}

/// The plugin reaches `lx-shm`: directly (dep / edge) or through `lx-analysis`.
pub open spec fn links_shm(p: crate::Node, edges: Seq<crate::Edge>, shm: crate::Node) -> bool {
    (exists|i: int| 0 <= i < p.internal_deps@.len() && (p.internal_deps@[i]@ == shm.id@ || ends_with(p.internal_deps@[i]@, "lx-shm"@)))
        || edge_between(edges, p.id@, shm.id@, "depends_on"@, "runtime_depends_on"@, "build_depends_on"@)
        || any_has_sub(crate::text::strs(p.internal_deps@), "lx-analysis"@)
        || edge_from_kind_to_sub(edges, p.id@, "depends_on"@, "depends_on"@, "lx-analysis"@)
}

/// Strong IPC signals with no link to the `lx-shm` hub (when the hub exists).
#[verifier::opaque]
pub open spec fn ipc_dep_findings(p: crate::Node, a: crate::ast::AstSummary, edges: Seq<crate::Edge>, shm: Option<crate::Node>) -> Seq<FindingView> {
    match shm {
        Some(h) => when(crate::ast::strong_ipc_in(crate::text::strs(a.ipc_signals@)) && !links_shm(p, edges, h),
            node_finding(p, Severity::Warn, "required_dep_missing"@,
            p.name@ + " has shm/relay signals but no link to `lx-shm` (direct or via lx-analysis)"@, Some(cargo_toml_of(p)),
            Some("depend on `lx-shm` or `lx-analysis` from `"@ + p.path@ + "`"@))),
        None => seq![],
    }
}

fn direct_shm_dep(deps: &Vec<String>, shm_id: &str) -> (r: bool)
    ensures
        r == exists|i: int| 0 <= i < deps@.len() && (deps@[i]@ == shm_id@ || ends_with(deps@[i]@, "lx-shm"@)),
{
    let mut i: usize = 0;
    while i < deps.len()
        invariant
            i <= deps@.len(),
            forall|j: int| 0 <= j < i ==> !(deps@[j]@ == shm_id@ || ends_with(deps@[j]@, "lx-shm"@)),
        decreases deps@.len() - i,
    {
        if str_eq(deps[i].as_str(), shm_id) || ends_with_str(deps[i].as_str(), "lx-shm") {
            return true;
        }
        i = i + 1;
    }
    false
}

fn ipc_dep_check(
    p: &crate::Node,
    a: &crate::ast::AstSummary,
    edges: &Vec<crate::Edge>,
    shm: Option<&crate::Node>,
    out: &mut Vec<Finding>,
)
    ensures
        fviews(final(out)@) == fviews(old(out)@) + ipc_dep_findings(*p, *a, edges@, match shm {
            Some(h) => Some(*h),
            None => None,
        }),
{
    reveal(ipc_dep_findings);
    let ghost o0 = fviews(out@);
    if let Some(h) = shm {
        if a.has_strong_ipc() {
            let links = direct_shm_dep(&p.internal_deps, h.id.as_str())
                || edge_between_exec(edges, p.id.as_str(), h.id.as_str(), "depends_on", "runtime_depends_on", "build_depends_on")
                || any_contains(&p.internal_deps, "lx-analysis")
                || edge_to_sub(edges, p.id.as_str(), "depends_on", "depends_on", "lx-analysis");
            if !links {
                let msg = crate::text::cat2(p.name.as_str(), " has shm/relay signals but no link to `lx-shm` (direct or via lx-analysis)");
                let cargo = crate::text::cat2(p.path.as_str(), "/Cargo.toml");
                let fix = crate::text::cat3("depend on `lx-shm` or `lx-analysis` from `", p.path.as_str(), "`");
                push_f(out, mk(p, Severity::Warn, "required_dep_missing", msg.as_str(), Some(cargo.as_str()), Some(fix.as_str())));
            }
        }
    }
    assert(fviews(out@) =~= o0 + ipc_dep_findings(*p, *a, edges@, match shm {
        Some(h) => Some(*h),
        None => None,
    }));
}

pub open spec fn r_missing_hook(p: crate::Node, a: crate::ast::AstSummary) -> Seq<FindingView> {
    when(a.plugin_logic_impls@.len() > 0 && a.process_hooks@.len() == 0, node_finding(p, Severity::Warn, "missing_process_hook"@,
        p.name@ + " has PluginLogic but no process hook detected"@, None,
        Some("implement process/audio callback on PluginLogic in `"@ + p.path@ + "`"@)))
}

pub open spec fn r_logic_macro(p: crate::Node, a: crate::ast::AstSummary) -> Seq<FindingView> {
    let logic = crate::text::strs(a.plugin_logic_impls@);
    let macros = crate::text::strs(a.plugin_macro_types@);
    when(logic.len() > 0 && macros.len() > 0 && !intersects(logic, macros), node_finding(p, Severity::Error,
        "logic_macro_mismatch"@, p.name@ + " PluginLogic "@ + crate::text::debug_set(logic)
            + " does not match truce::plugin! logic "@ + crate::text::debug_set(macros), None,
        Some("align `truce::plugin!(logic = …)` with PluginLogic type in `"@ + p.path@ + "`"@)))
}

pub open spec fn r_params_macro(p: crate::Node, a: crate::ast::AstSummary) -> Seq<FindingView> {
    when(a.params_structs@.len() > 0 && a.plugin_macro_types@.len() == 0, node_finding(p, Severity::Info,
        "params_without_plugin_macro"@, p.name@ + " has Params struct(s) but no truce::plugin! logic type seen"@, None,
        Some("wire Params via framework plugin macro in `"@ + p.path@ + "`"@)))
}

pub open spec fn r_process_no_editor(p: crate::Node, a: crate::ast::AstSummary) -> Seq<FindingView> {
    when(a.process_hooks@.len() > 0 && a.editor_functions@.len() == 0, node_finding(p, Severity::Info,
        "process_without_editor"@, p.name@ + " has process hook but no editor() — headless/pass-through?"@, None, None))
}

pub open spec fn r_editor_no_process(p: crate::Node, a: crate::ast::AstSummary) -> Seq<FindingView> {
    when(a.editor_functions@.len() > 0 && a.process_hooks@.len() == 0, node_finding(p, Severity::Warn,
        "editor_without_process"@, p.name@ + " has editor() but no process hook — audio path missing?"@, None,
        Some("add process hook or mark plugin headless intentionally in `"@ + p.path@ + "`"@)))
}

pub open spec fn r_ui_files(p: crate::Node, a: crate::ast::AstSummary) -> Seq<FindingView> {
    when((has_role(a.file_roles@, "ui"@) || has_role(a.file_roles@, "slint"@)) && a.slint_components@.len() == 0
        && has_slint(p, a), node_finding(p, Severity::Info, "ui_files_without_lx_components"@,
        p.name@ + " has ui/slint files but no Lx* components detected"@, None, None))
}

pub open spec fn intersects_set(a: Seq<Seq<char>>, b: Set<Seq<char>>) -> bool {
    exists|i: int| 0 <= i < a.len() && b.contains(a[i])
}

pub open spec fn r_ui_coupling(p: crate::Node, a: crate::ast::AstSummary, edges: Seq<crate::Edge>, ui_exports: Set<Seq<char>>) -> Seq<FindingView> {
    when(a.slint_components@.len() > 0 && ui_exports != Set::<Seq<char>>::empty() && intersects_set(crate::text::strs(a.slint_components@), ui_exports)
        && !edge_from_kind(edges, p.id@, "uses_ui"@), node_finding(p, Severity::Info, "ui_coupling_implicit"@,
        p.name@ + " uses shared Lx* components but no uses_ui edge was created"@, None, None))
}

pub open spec fn r_ipc_file(p: crate::Node, a: crate::ast::AstSummary) -> Seq<FindingView> {
    when(has_role(a.file_roles@, "ipc"@) && !crate::text::strs(a.ipc_signals@).contains("shm"@)
        && !crate::text::strs(a.ipc_signals@).contains("relay"@), node_finding(p, Severity::Info,
        "ipc_file_without_signal"@, p.name@ + " has ipc-role file but no shm/relay signal detected in sources"@, None, None))
}

/// Hook / macro / UI / IPC-file consistency checks.
#[verifier::opaque]
pub open spec fn structure_findings(
    p: crate::Node,
    a: crate::ast::AstSummary,
    edges: Seq<crate::Edge>,
    ui_exports: Set<Seq<char>>,
) -> Seq<FindingView> {
    r_missing_hook(p, a) + r_logic_macro(p, a) + r_params_macro(p, a) + r_process_no_editor(p, a)
        + r_editor_no_process(p, a) + r_ui_files(p, a) + r_ui_coupling(p, a, edges, ui_exports) + r_ipc_file(p, a)
}

fn c_missing_hook(p: &crate::Node, a: &crate::ast::AstSummary, out: &mut Vec<Finding>)
    ensures
        fviews(final(out)@) == fviews(old(out)@) + r_missing_hook(*p, *a),
{
    let ghost o0 = fviews(out@);
    if a.plugin_logic_impls.len() > 0 && a.process_hooks.len() == 0 {
        let msg = crate::text::cat2(p.name.as_str(), " has PluginLogic but no process hook detected");
        let fix = crate::text::cat3("implement process/audio callback on PluginLogic in `", p.path.as_str(), "`");
        push_f(out, mk(p, Severity::Warn, "missing_process_hook", msg.as_str(), None, Some(fix.as_str())));
    }
    assert(fviews(out@) =~= o0 + r_missing_hook(*p, *a));
}

fn c_logic_macro(p: &crate::Node, a: &crate::ast::AstSummary, out: &mut Vec<Finding>)
    ensures
        fviews(final(out)@) == fviews(old(out)@) + r_logic_macro(*p, *a),
{
    let ghost o0 = fviews(out@);
    if a.plugin_logic_impls.len() > 0 && a.plugin_macro_types.len() > 0 && !intersects_exec(&a.plugin_logic_impls, &a.plugin_macro_types) {
        let l = crate::text::debug_string_set(&a.plugin_logic_impls);
        let m = crate::text::debug_string_set(&a.plugin_macro_types);
        let mut msg = crate::text::cat3(p.name.as_str(), " PluginLogic ", l.as_str());
        push_str(&mut msg, " does not match truce::plugin! logic ");
        push_str(&mut msg, m.as_str());
        let fix = crate::text::cat3("align `truce::plugin!(logic = …)` with PluginLogic type in `", p.path.as_str(), "`");
        push_f(out, mk(p, Severity::Error, "logic_macro_mismatch", msg.as_str(), None, Some(fix.as_str())));
    }
    assert(fviews(out@) =~= o0 + r_logic_macro(*p, *a));
}

fn c_params_macro(p: &crate::Node, a: &crate::ast::AstSummary, out: &mut Vec<Finding>)
    ensures
        fviews(final(out)@) == fviews(old(out)@) + r_params_macro(*p, *a),
{
    let ghost o0 = fviews(out@);
    if a.params_structs.len() > 0 && a.plugin_macro_types.len() == 0 {
        let msg = crate::text::cat2(p.name.as_str(), " has Params struct(s) but no truce::plugin! logic type seen");
        let fix = crate::text::cat3("wire Params via framework plugin macro in `", p.path.as_str(), "`");
        push_f(out, mk(p, Severity::Info, "params_without_plugin_macro", msg.as_str(), None, Some(fix.as_str())));
    }
    assert(fviews(out@) =~= o0 + r_params_macro(*p, *a));
}

fn c_hook_editor(p: &crate::Node, a: &crate::ast::AstSummary, out: &mut Vec<Finding>)
    ensures
        fviews(final(out)@) == fviews(old(out)@) + r_process_no_editor(*p, *a) + r_editor_no_process(*p, *a),
{
    let ghost o0 = fviews(out@);
    if a.process_hooks.len() > 0 && a.editor_functions.len() == 0 {
        let msg = crate::text::cat2(p.name.as_str(), " has process hook but no editor() — headless/pass-through?");
        push_f(out, mk(p, Severity::Info, "process_without_editor", msg.as_str(), None, None));
    }
    let ghost o1 = fviews(out@);
    assert(o1 =~= o0 + r_process_no_editor(*p, *a));
    if a.editor_functions.len() > 0 && a.process_hooks.len() == 0 {
        let msg = crate::text::cat2(p.name.as_str(), " has editor() but no process hook — audio path missing?");
        let fix = crate::text::cat3("add process hook or mark plugin headless intentionally in `", p.path.as_str(), "`");
        push_f(out, mk(p, Severity::Warn, "editor_without_process", msg.as_str(), None, Some(fix.as_str())));
    }
    assert(fviews(out@) =~= o1 + r_editor_no_process(*p, *a));
}

fn c_ui(p: &crate::Node, a: &crate::ast::AstSummary, edges: &Vec<crate::Edge>, ui_exports: &Vec<String>, out: &mut Vec<Finding>)
    ensures
        fviews(final(out)@) == fviews(old(out)@) + r_ui_files(*p, *a) + r_ui_coupling(*p, *a, edges@, crate::text::strs(ui_exports@).to_set()),
{
    let ghost o0 = fviews(out@);
    let has_sl = crate::text::set_contains(&p.frameworks, "slint") || a.slint_components.len() > 0;
    let ui_role = role_present(&a.file_roles, "ui") || role_present(&a.file_roles, "slint");
    if ui_role && a.slint_components.len() == 0 && has_sl {
        let msg = crate::text::cat2(p.name.as_str(), " has ui/slint files but no Lx* components detected");
        push_f(out, mk(p, Severity::Info, "ui_files_without_lx_components", msg.as_str(), None, None));
    }
    let ghost o1 = fviews(out@);
    assert(o1 =~= o0 + r_ui_files(*p, *a));
    proof {
        let u = crate::text::strs(ui_exports@);
        if u.len() > 0 {
            assert(u.to_set().contains(u[0]));
        } else {
            assert(u.to_set() =~= Set::<Seq<char>>::empty());
        }
        assert(intersects(crate::text::strs(a.slint_components@), u) == intersects_set(crate::text::strs(a.slint_components@), u.to_set()));
    }
    if a.slint_components.len() > 0 && ui_exports.len() > 0 {
        if intersects_exec(&a.slint_components, ui_exports) && !edge_from_kind_exec(edges, p.id.as_str(), "uses_ui") {
            let msg = crate::text::cat2(p.name.as_str(), " uses shared Lx* components but no uses_ui edge was created");
            push_f(out, mk(p, Severity::Info, "ui_coupling_implicit", msg.as_str(), None, None));
        }
    }
    assert(fviews(out@) =~= o1 + r_ui_coupling(*p, *a, edges@, crate::text::strs(ui_exports@).to_set()));
}

fn c_ipc_file(p: &crate::Node, a: &crate::ast::AstSummary, out: &mut Vec<Finding>)
    ensures
        fviews(final(out)@) == fviews(old(out)@) + r_ipc_file(*p, *a),
{
    let ghost o0 = fviews(out@);
    if role_present(&a.file_roles, "ipc") && !crate::text::set_contains(&a.ipc_signals, "shm")
        && !crate::text::set_contains(&a.ipc_signals, "relay") {
        let msg = crate::text::cat2(p.name.as_str(), " has ipc-role file but no shm/relay signal detected in sources");
        push_f(out, mk(p, Severity::Info, "ipc_file_without_signal", msg.as_str(), None, None));
    }
    assert(fviews(out@) =~= o0 + r_ipc_file(*p, *a));
}

#[verifier::rlimit(80)]
#[verifier::spinoff_prover]
fn structure_checks(
    p: &crate::Node,
    a: &crate::ast::AstSummary,
    edges: &Vec<crate::Edge>,
    ui_exports: &Vec<String>,
    out: &mut Vec<Finding>,
)
    ensures
        fviews(final(out)@) == fviews(old(out)@) + structure_findings(*p, *a, edges@, crate::text::strs(ui_exports@).to_set()),
{
    reveal(structure_findings);
    let ghost o0 = fviews(out@);
    c_missing_hook(p, a, out);
    c_logic_macro(p, a, out);
    c_params_macro(p, a, out);
    c_hook_editor(p, a, out);
    c_ui(p, a, edges, ui_exports, out);
    c_ipc_file(p, a, out);
    assert(fviews(out@) =~= o0 + structure_findings(*p, *a, edges@, crate::text::strs(ui_exports@).to_set()));
}

/// At most the first eight unbound params, joined by `, `.
pub open spec fn unbound_sample(u: Seq<Seq<char>>) -> Seq<char> {
    crate::text::join(u.take(if u.len() < 8 { u.len() as int } else { 8 }), ", "@)
}

/// Suffix counting the unbound params beyond the sample.
pub open spec fn unbound_more(n: nat) -> Seq<char> {
    if n > 8 {
        " (+"@ + crate::text::dec((n - 8) as nat) + " more)"@
    } else {
        Seq::empty()
    }
}

pub open spec fn max1(n: nat) -> nat {
    if n >= 1 { n } else { 1 }
}

/// Parameter-surface checks and the process-in-lib hint.
#[verifier::opaque]
pub open spec fn params_findings(p: crate::Node, a: crate::ast::AstSummary) -> Seq<FindingView> {
    let vis = visible_params(a.params_fields@);
    let tot = total_params(a.params_fields@);
    let u = crate::text::strs(a.params_unbound@);
    let total = max1(vis);
    let comps = a.slint_components@.len();
    when(vis > 40, node_finding(p, Severity::Info, "large_param_surface"@,
        p.name@ + " exposes "@ + crate::text::dec(vis) + " visible params ("@ + crate::text::dec(tot)
            + " total) — state migration / UI binding cost is high"@, None, None))
    + when(u.len() > 0, node_finding(p, if u.len() * 100 / total >= 25 { Severity::Warn } else { Severity::Info },
        "params_unbound"@, p.name@ + " has "@ + crate::text::dec(u.len()) + "/"@ + crate::text::dec(total)
            + " visible params never referenced outside Params def: "@ + unbound_sample(u) + unbound_more(u.len()), None,
        Some("bind or hide unused params in `"@ + p.path@ + "` editor/process/UI"@)))
    + when(vis >= 20 && comps > 0 && vis / comps >= 4, node_finding(p, Severity::Info, "params_heavy_ui_light"@,
        p.name@ + " has "@ + crate::text::dec(vis) + " visible params but only "@ + crate::text::dec(comps)
            + " Lx* components — check binding density"@, None, None))
    + when(a.process_hooks@.len() > 0 && !has_role(a.file_roles@, "audio"@) && any_ends_with(crate::text::strs(a.files@), "lib.rs"@),
        node_finding(p, Severity::Info, "process_inlined_in_lib"@,
        p.name@ + " process hook lives without process.rs — audio path may be inlined in lib.rs"@,
        Some(p.path@ + "/src/lib.rs"@), None))
}

fn params_checks(p: &crate::Node, a: &crate::ast::AstSummary, out: &mut Vec<Finding>)
    requires
        counts_fit(*a),
    ensures
        fviews(final(out)@) == fviews(old(out)@) + params_findings(*p, *a),
{
    reveal(params_findings);
    let ghost o0 = fviews(out@);
    let (vis, tot) = param_counts(a);
    if vis > 40 {
        let mut msg = crate::text::cat2(p.name.as_str(), " exposes ");
        crate::text::push_usize(&mut msg, vis);
        push_str(&mut msg, " visible params (");
        crate::text::push_usize(&mut msg, tot);
        push_str(&mut msg, " total) — state migration / UI binding cost is high");
        push_f(out, mk(p, Severity::Info, "large_param_surface", msg.as_str(), None, None));
    }
    let un = a.params_unbound.len();
    if un > 0 {
        let total = if vis >= 1 { vis } else { 1 };
        let n8 = if un < 8 { un } else { 8 };
        let mut sample_v: Vec<String> = Vec::new();
        let mut i: usize = 0;
        while i < n8
            invariant
                i <= n8 <= a.params_unbound@.len(),
                crate::text::strs(sample_v@) == crate::text::strs(a.params_unbound@).take(i as int),
            decreases n8 - i,
        {
            let ghost s0 = sample_v@;
            let t = a.params_unbound[i].clone();
            sample_v.push(t);
            proof {
                crate::text::lemma_strs_push(s0, t);
                assert(crate::text::strs(a.params_unbound@).take(i + 1) =~= crate::text::strs(a.params_unbound@).take(
                    i as int,
                ).push(a.params_unbound@[i as int]@));
            }
            i = i + 1;
        }
        let sample = crate::text::join_strings(&sample_v, ", ");
        let more = if un > 8 {
            let mut m = owned(" (+");
            crate::text::push_usize(&mut m, un - 8);
            push_str(&mut m, " more)");
            m
        } else {
            String::new()
        };
        let sev = if un * 100 / total >= 25 { Severity::Warn } else { Severity::Info };
        let mut msg = crate::text::cat2(p.name.as_str(), " has ");
        crate::text::push_usize(&mut msg, un);
        push_str(&mut msg, "/");
        crate::text::push_usize(&mut msg, total);
        push_str(&mut msg, " visible params never referenced outside Params def: ");
        push_str(&mut msg, sample.as_str());
        push_str(&mut msg, more.as_str());
        let fix = crate::text::cat3("bind or hide unused params in `", p.path.as_str(), "` editor/process/UI");
        push_f(out, mk(p, sev, "params_unbound", msg.as_str(), None, Some(fix.as_str())));
    }
    let comps = a.slint_components.len();
    if vis >= 20 && comps > 0 {
        if vis / comps >= 4 {
            let mut msg = crate::text::cat2(p.name.as_str(), " has ");
            crate::text::push_usize(&mut msg, vis);
            push_str(&mut msg, " visible params but only ");
            crate::text::push_usize(&mut msg, comps);
            push_str(&mut msg, " Lx* components — check binding density");
            push_f(out, mk(p, Severity::Info, "params_heavy_ui_light", msg.as_str(), None, None));
        }
    }
    if a.process_hooks.len() > 0 && !role_present(&a.file_roles, "audio") && any_ends(&a.files, "lib.rs") {
        let msg = crate::text::cat2(p.name.as_str(), " process hook lives without process.rs — audio path may be inlined in lib.rs");
        let path = crate::text::cat2(p.path.as_str(), "/src/lib.rs");
        push_f(out, mk(p, Severity::Info, "process_inlined_in_lib", msg.as_str(), Some(path.as_str()), None));
    }
    assert(fviews(out@) =~= o0 + params_findings(*p, *a));
}

// ---------------------------------------------------------------------------
// Whole-graph passes
// ---------------------------------------------------------------------------

/// All checks of one plugin node; `prior` are the findings emitted before it.
pub open spec fn plugin_findings(
    p: crate::Node,
    nodes: Seq<crate::Node>,
    edges: Seq<crate::Edge>,
    rules: Seq<(String, String)>,
    et: Seq<char>,
    ui: Set<Seq<char>>,
    shm: Option<crate::Node>,
    prior: Seq<FindingView>,
) -> Seq<FindingView> {
    let m = meta_findings(p);
    match p.ast_summary {
        None => m,
        Some(a) => {
            let b = m + adapter_findings(p, a, rules, et);
            b + editor_dep_findings(p, a, nodes, edges, et, prior + b) + ipc_dep_findings(p, a, edges, shm)
                + structure_findings(p, a, edges, ui) + params_findings(p, a)
        },
    }
}

/// Every plugin's counts fit in `usize`.
pub open spec fn plugins_fit(nodes: Seq<crate::Node>) -> bool {
    forall|i: int| 0 <= i < nodes.len() ==> match #[trigger] nodes[i].ast_summary {
        Some(a) => counts_fit(a),
        None => true,
    }
}

fn plugin_checks(
    p: &crate::Node,
    nodes: &Vec<crate::Node>,
    edges: &Vec<crate::Edge>,
    rules: &Vec<(String, String)>,
    et: &String,
    ui_exports: &Vec<String>,
    shm: Option<&crate::Node>,
    out: &mut Vec<Finding>,
)
    requires
        is_map(rules@),
        p.ast_summary matches Some(a) ==> counts_fit(a),
    ensures
        fviews(final(out)@) == fviews(old(out)@) + plugin_findings(*p, nodes@, edges@, rules@, et@,
            crate::text::strs(ui_exports@).to_set(), match shm {
                Some(h) => Some(*h),
                None => None,
            }, fviews(old(out)@)),
{
    let ghost o0 = fviews(out@);
    meta_checks(p, out);
    match &p.ast_summary {
        None => {},
        Some(a) => {
            adapter_checks(p, a, rules, et, out);
            let ghost o1 = fviews(out@);
            editor_dep_check(p, a, nodes, edges, et, out);
            ipc_dep_check(p, a, edges, shm, out);
            structure_checks(p, a, edges, ui_exports, out);
            params_checks(p, a, out);
            proof {
                let b = meta_findings(*p) + adapter_findings(*p, *a, rules@, et@);
                assert(o1 =~= o0 + b);
            }
        },
    }
    assert(fviews(out@) =~= o0 + plugin_findings(*p, nodes@, edges@, rules@, et@, crate::text::strs(ui_exports@).to_set(),
        match shm {
            Some(h) => Some(*h),
            None => None,
        }, o0));
}

/// Plugin checks over `ns` in order (non-plugins skipped).
pub open spec fn plugins_pass(
    ns: Seq<crate::Node>,
    nodes: Seq<crate::Node>,
    edges: Seq<crate::Edge>,
    rules: Seq<(String, String)>,
    et: Seq<char>,
    ui: Set<Seq<char>>,
    shm: Option<crate::Node>,
    prior: Seq<FindingView>,
) -> Seq<FindingView>
    decreases ns.len(),
{
    if ns.len() == 0 {
        seq![]
    } else {
        let r = plugins_pass(ns.drop_last(), nodes, edges, rules, et, ui, shm, prior);
        if ns.last().kind@ == "plugin"@ {
            r + plugin_findings(ns.last(), nodes, edges, rules, et, ui, shm, prior + r)
        } else {
            r
        }
    }
}

/// Checks of one workspace crate.
pub open spec fn crate_findings(n: crate::Node, edges: Seq<crate::Edge>) -> Seq<FindingView> {
    (match n.ast_summary {
        Some(a) => when(a.process_method_count >= 5, node_finding(n, Severity::Info, "dsp_process_methods"@,
            n.name@ + " has "@ + crate::text::dec(a.process_method_count as nat) + " methods named process (DSP units, not plugin hooks)"@,
            None, None)),
        None => seq![],
    }) + when(inbound_count(edges, n.id@) == 0 && n.name@ != "lx-slint-build"@ && !(crate::text::has_sub(n.id@, "/examples/"@)
        || crate::text::has_sub(n.path@, "/examples/"@)), node_finding(n, Severity::Info, "crate_no_dependents"@,
        n.name@ + " has no inbound workspace edges — unused or only path-included?"@, None,
        Some("wire `"@ + n.name@ + "` as a path dep from a plugin/crate, or remove from workspace"@)))
}

pub open spec fn crates_pass(ns: Seq<crate::Node>, edges: Seq<crate::Edge>) -> Seq<FindingView>
    decreases ns.len(),
{
    if ns.len() == 0 {
        seq![]
    } else if ns.last().kind@ == "crate"@ {
        crates_pass(ns.drop_last(), edges) + crate_findings(ns.last(), edges)
    } else {
        crates_pass(ns.drop_last(), edges)
    }
}

fn crate_checks(n: &crate::Node, edges: &Vec<crate::Edge>, out: &mut Vec<Finding>)
    ensures
        fviews(final(out)@) == fviews(old(out)@) + crate_findings(*n, edges@),
{
    let ghost o0 = fviews(out@);
    if let Some(a) = &n.ast_summary {
        if a.process_method_count >= 5 {
            let mut msg = cat_name_has(n);
            crate::text::push_usize(&mut msg, a.process_method_count);
            push_str(&mut msg, " methods named process (DSP units, not plugin hooks)");
            push_f(out, mk(n, Severity::Info, "dsp_process_methods", msg.as_str(), None, None));
        }
    }
    let ghost o1 = fviews(out@);
    let in_count = inbound(edges, n.id.as_str());
    let nested = crate::text::contains_str(n.id.as_str(), "/examples/") || crate::text::contains_str(n.path.as_str(), "/examples/");
    if in_count == 0 && !str_eq(n.name.as_str(), "lx-slint-build") && !nested {
        let msg = crate::text::cat2(n.name.as_str(), " has no inbound workspace edges — unused or only path-included?");
        let fix = crate::text::cat3("wire `", n.name.as_str(), "` as a path dep from a plugin/crate, or remove from workspace");
        push_f(out, mk(n, Severity::Info, "crate_no_dependents", msg.as_str(), None, Some(fix.as_str())));
    }
    assert(fviews(out@) =~= o0 + crate_findings(*n, edges@));
}

fn cat_name_has(n: &crate::Node) -> (r: String)
    ensures
        r@ == n.name@ + " has "@,
{
    crate::text::cat2(n.name.as_str(), " has ")
}

/// A plugin with strong IPC signals.
pub open spec fn is_ipc_plugin(n: crate::Node) -> bool {
    n.kind@ == "plugin"@ && match n.ast_summary {
        Some(a) => crate::ast::strong_ipc_in(crate::text::strs(a.ipc_signals@)),
        None => false,
    }
}

/// The IPC plugins, in order.
pub open spec fn ipc_plugins_of(ns: Seq<crate::Node>) -> Seq<crate::Node>
    decreases ns.len(),
{
    if ns.len() == 0 {
        seq![]
    } else if is_ipc_plugin(ns.last()) {
        ipc_plugins_of(ns.drop_last()).push(ns.last())
    } else {
        ipc_plugins_of(ns.drop_last())
    }
}

/// Names of the IPC plugins other than `id`.
pub open spec fn peer_names(ps: Seq<crate::Node>, id: Seq<char>) -> Seq<Seq<char>>
    decreases ps.len(),
{
    if ps.len() == 0 {
        seq![]
    } else if ps.last().id@ != id {
        peer_names(ps.drop_last(), id).push(ps.last().name@)
    } else {
        peer_names(ps.drop_last(), id)
    }
}

/// The only IPC plugin: its peer is missing.
pub open spec fn single_peer_findings(ipcs: Seq<crate::Node>) -> Seq<FindingView> {
    when(ipcs.len() == 1, node_finding(ipcs[0], Severity::Warn, "ipc_single_peer"@,
        ipcs[0].name@ + " is the only plugin with shm/relay signals — peer missing or not detected"@, None,
        Some("add peer plugin with matching shm/relay, or remove dead IPC code"@)))
}

pub open spec fn relay_ish(p: crate::Node) -> bool {
    crate::text::has_sub(p.name@, "relay"@) || match p.ast_summary {
        Some(a) => crate::text::strs(a.ipc_signals@).contains("relay"@),
        None => false,
    }
}

/// A relay-ish IPC plugin without an `ipc_peer` edge, while candidates exist.
pub open spec fn relay_finding(p: crate::Node, ipcs: Seq<crate::Node>, edges: Seq<crate::Edge>) -> Seq<FindingView> {
    when(relay_ish(p) && !edge_touching(edges, p.id@, "ipc_peer"@) && ipcs.len() > 1 && peer_names(ipcs, p.id@).len() > 0,
        node_finding(p, Severity::Info, "relay_no_ipc_peer_edge"@,
        p.name@ + " has relay signals but no ipc_peer edge (candidates: "@ + crate::text::join(peer_names(ipcs, p.id@), ", "@) + ")"@,
        None, Some("ensure both peers share shm/relay signals so ipc_peer edge appears"@)))
}

pub open spec fn relay_pass(ps: Seq<crate::Node>, ipcs: Seq<crate::Node>, edges: Seq<crate::Edge>) -> Seq<FindingView>
    decreases ps.len(),
{
    if ps.len() == 0 {
        seq![]
    } else {
        relay_pass(ps.drop_last(), ipcs, edges) + relay_finding(ps.last(), ipcs, edges)
    }
}

fn is_ipc_plugin_exec(n: &crate::Node) -> (r: bool)
    ensures
        r == is_ipc_plugin(*n),
{
    str_eq(n.kind.as_str(), "plugin") && match &n.ast_summary {
        Some(a) => a.has_strong_ipc(),
        None => false,
    }
}

fn collect_ipc_plugins(nodes: &Vec<crate::Node>) -> (r: Vec<usize>)
    ensures
        forall|k: int| 0 <= k < r@.len() ==> r@[k] < nodes@.len(),
        r@.map_values(|k: usize| nodes@[k as int]) == ipc_plugins_of(nodes@),
{
    let mut r: Vec<usize> = Vec::new();
    let mut i: usize = 0;
    while i < nodes.len()
        invariant
            i <= nodes@.len(),
            forall|k: int| 0 <= k < r@.len() ==> r@[k] < i,
            r@.map_values(|k: usize| nodes@[k as int]) == ipc_plugins_of(nodes@.take(i as int)),
        decreases nodes@.len() - i,
    {
        proof {
            assert(nodes@.take(i + 1).drop_last() =~= nodes@.take(i as int));
            assert(nodes@.take(i + 1).last() == nodes@[i as int]);
        }
        if is_ipc_plugin_exec(&nodes[i]) {
            let ghost r0 = r@;
            r.push(i);
            assert(r@.map_values(|k: usize| nodes@[k as int]) =~= r0.map_values(|k: usize| nodes@[k as int]).push(nodes@[i as int]));
        }
        i = i + 1;
    }
    assert(nodes@.take(nodes@.len() as int) =~= nodes@);
    r
}

fn peers_of(nodes: &Vec<crate::Node>, ipcs: &Vec<usize>, id: &str) -> (r: Vec<String>)
    requires
        forall|k: int| 0 <= k < ipcs@.len() ==> ipcs@[k] < nodes@.len(),
    ensures
        crate::text::strs(r@) == peer_names(ipcs@.map_values(|k: usize| nodes@[k as int]), id@),
{
    let ghost ps = ipcs@.map_values(|k: usize| nodes@[k as int]);
    let mut r: Vec<String> = Vec::new();
    let mut i: usize = 0;
    while i < ipcs.len()
        invariant
            i <= ipcs@.len(),
            ps == ipcs@.map_values(|k: usize| nodes@[k as int]),
            forall|k: int| 0 <= k < ipcs@.len() ==> ipcs@[k] < nodes@.len(),
            crate::text::strs(r@) == peer_names(ps.take(i as int), id@),
        decreases ipcs@.len() - i,
    {
        let o = &nodes[ipcs[i]];
        proof {
            assert(ps.take(i + 1).drop_last() =~= ps.take(i as int));
            assert(ps.take(i + 1).last() == *o);
        }
        if !str_eq(o.id.as_str(), id) {
            let ghost r0 = r@;
            let t = o.name.clone();
            r.push(t);
            proof {
                crate::text::lemma_strs_push(r0, t);
            }
        }
        i = i + 1;
    }
    assert(ps.take(ipcs@.len() as int) =~= ps);
    r
}

// ---------------------------------------------------------------------------
// Ordering of findings
// ---------------------------------------------------------------------------

/// `Option<String>` order: `None` first, then by text.
pub open spec fn opt_lt(a: Option<Seq<char>>, b: Option<Seq<char>>) -> bool {
    match (a, b) {
        (None, Some(_)) => true,
        (Some(x), Some(y)) => crate::text::lt(x, y),
        _ => false,
    }
}

/// Finding `a` sorts strictly before `b`: by severity rank, then node, then code.
pub open spec fn key_lt(a: FindingView, b: FindingView) -> bool {
    rank(a.0) < rank(b.0) || (rank(a.0) == rank(b.0) && (opt_lt(a.2, b.2) || (a.2 == b.2 && crate::text::lt(a.1, b.1))))
}

/// Insert `x` after every element that does not sort after it.
pub open spec fn ins(s: Seq<FindingView>, x: FindingView) -> Seq<FindingView>
    decreases s.len(),
{
    if s.len() == 0 {
        seq![x]
    } else if !key_lt(x, s.last()) {
        s.push(x)
    } else {
        ins(s.drop_last(), x).push(s.last())
    }
}

/// Stable sort by [`key_lt`]: equal keys keep their relative order.
pub open spec fn sort_findings(s: Seq<FindingView>) -> Seq<FindingView>
    decreases s.len(),
{
    if s.len() == 0 {
        s
    } else {
        ins(sort_findings(s.drop_last()), s.last())
    }
}

/// Severity ranks never decrease along `s`.
pub open spec fn ranked(s: Seq<FindingView>) -> bool {
    forall|i: int, j: int| 0 <= i < j < s.len() ==> rank((#[trigger] s[i]).0) <= rank((#[trigger] s[j]).0)
}

proof fn lemma_ins_facts(s: Seq<FindingView>, x: FindingView)
    requires
        ranked(s),
    ensures
        ranked(ins(s, x)),
        ins(s, x).to_multiset() =~= s.to_multiset().insert(x),
    decreases s.len(),
{
    broadcast use vstd::seq_lib::group_to_multiset_ensures;
    if s.len() == 0 {
        assert(ins(s, x) =~= seq![x]);
        assert(seq![x] =~= Seq::<FindingView>::empty().push(x));
    } else if !key_lt(x, s.last()) {
        let t = s.push(x);
        assert forall|i: int, j: int| 0 <= i < j < t.len() implies rank((#[trigger] t[i]).0) <= rank((#[trigger] t[j]).0) by {
            if j == s.len() {
                assert(rank(s[i].0) <= rank(s.last().0));
            }
        }
    } else {
        let init = s.drop_last();
        let l = s.last();
        assert(ranked(init)) by {
            assert forall|i: int, j: int| 0 <= i < j < init.len() implies rank((#[trigger] init[i]).0) <= rank((#[trigger] init[j]).0) by {
                assert(init[i] == s[i] && init[j] == s[j]);
            }
        }
        lemma_ins_facts(init, x);
        let u = ins(init, x);
        assert forall|i: int| 0 <= i < init.len() implies rank((#[trigger] init[i]).0) <= rank(l.0) by {
            assert(init[i] == s[i]);
        }
        assert(rank(x.0) <= rank(l.0));
        assert forall|i: int| 0 <= i < u.len() implies rank((#[trigger] u[i]).0) <= rank(l.0) by {
            assert(u.to_multiset().count(u[i]) > 0);
            assert(init.to_multiset().insert(x).count(u[i]) > 0);
            if u[i] != x {
                assert(init.to_multiset().count(u[i]) > 0);
                assert(init.contains(u[i]));
            }
        }
        let t = u.push(l);
        assert forall|i: int, j: int| 0 <= i < j < t.len() implies rank((#[trigger] t[i]).0) <= rank((#[trigger] t[j]).0) by {
            assert(t[i] == u[i]);
            if j < u.len() {
                assert(t[j] == u[j]);
            }
        }
        assert(s =~= init.push(l));
    }
}

/// The ordering of findings reorders without loss: the sorted list holds
/// exactly the same findings (as a multiset), errors first, then warnings,
/// then info.
pub proof fn lemma_sorted_findings(s: Seq<FindingView>)
    ensures
        sort_findings(s).to_multiset() =~= s.to_multiset(),
        ranked(sort_findings(s)),
    decreases s.len(),
{
    broadcast use vstd::seq_lib::group_to_multiset_ensures;
    if s.len() > 0 {
        lemma_sorted_findings(s.drop_last());
        lemma_ins_facts(sort_findings(s.drop_last()), s.last());
        assert(s =~= s.drop_last().push(s.last()));
    }
}

fn opt_lt_exec(a: &Option<String>, b: &Option<String>) -> (r: bool)
    ensures
        r == opt_lt(opt_view(*a), opt_view(*b)),
{
    match (a, b) {
        (None, Some(_)) => true,
        (Some(x), Some(y)) => crate::text::str_lt(x.as_str(), y.as_str()),
        _ => false,
    }
}

fn opt_eq_exec(a: &Option<String>, b: &Option<String>) -> (r: bool)
    ensures
        r == (opt_view(*a) == opt_view(*b)),
{
    match (a, b) {
        (None, None) => true,
        (Some(x), Some(y)) => str_eq(x.as_str(), y.as_str()),
        _ => false,
    }
}

fn key_lt_exec(a: &Finding, b: &Finding) -> (r: bool)
    ensures
        r == key_lt(a@, b@),
{
    let ra = severity_rank(&a.severity);
    let rb = severity_rank(&b.severity);
    ra < rb || (ra == rb && (opt_lt_exec(&a.node, &b.node) || (opt_eq_exec(&a.node, &b.node)
        && crate::text::str_lt(a.code.as_str(), b.code.as_str()))))
}

/// Sorts findings stably by severity rank, node and code.
pub fn sort_findings_exec(v: Vec<Finding>) -> (r: Vec<Finding>)
    ensures
        fviews(r@) == sort_findings(fviews(v@)),
{
    let mut r: Vec<Finding> = Vec::new();
    let mut src = v;
    let ghost all = fviews(src@);
    let n = src.len();
    let mut i: usize = 0;
    while i < n
        invariant
            n == src@.len(),
            all.len() == n,
            i <= n,
            forall|j: int| i <= j < n ==> #[trigger] src@[j]@ == all[j],
            fviews(r@) == sort_findings(all.take(i as int)),
        decreases n - i,
    {
        let mut x = Finding::new(Severity::Info, "", "");
        std::mem::swap(&mut x, &mut src[i]);
        proof {
            assert(all.take(i + 1).drop_last() =~= all.take(i as int));
            assert(all.take(i + 1).last() == all[i as int]);
        }
        let ghost rv = fviews(r@);
        let mut j: usize = r.len();
        assert(rv.take(rv.len() as int) =~= rv);
        assert(rv.skip(rv.len() as int) =~= Seq::<FindingView>::empty());
        while j > 0 && key_lt_exec(&x, &r[j - 1])
            invariant
                j <= r@.len(),
                rv == fviews(r@),
                ins(rv, x@) == ins(rv.take(j as int), x@) + rv.skip(j as int),
            decreases j,
        {
            proof {
                assert(rv.take(j as int).last() == rv[j - 1]);
                assert(rv.take(j as int).drop_last() =~= rv.take(j - 1));
                assert(rv.skip(j - 1) =~= seq![rv[j - 1]] + rv.skip(j as int));
            }
            j = j - 1;
        }
        proof {
            if j > 0 {
                assert(rv.take(j as int).last() == rv[j - 1]);
            }
            assert(ins(rv.take(j as int), x@) =~= rv.take(j as int).push(x@));
        }
        r.insert(j, x);
        assert(fviews(r@) =~= rv.take(j as int).push(all[i as int]) + rv.skip(j as int));
        i = i + 1;
    }
    assert(all.take(n as int) =~= all);
    r
}

// ---------------------------------------------------------------------------
// The analysis
// ---------------------------------------------------------------------------

/// Slint components exported by some node.
pub open spec fn ui_export_set(nodes: Seq<crate::Node>) -> Set<Seq<char>> {
    Set::new(|x: Seq<char>| exists|i: int| 0 <= i < nodes.len() && match #[trigger] nodes[i].ast_summary {
        Some(a) => crate::text::strs(a.slint_exports@).contains(x),
        None => false,
    })
}

/// First node named `x`.
pub open spec fn first_named(ns: Seq<crate::Node>, x: Seq<char>) -> Option<crate::Node>
    decreases ns.len(),
{
    if ns.len() == 0 {
        None
    } else if ns[0].name@ == x {
        Some(ns[0])
    } else {
        first_named(ns.drop_first(), x)
    }
}

/// Every finding of the analysis, before sorting: integrity, plugin checks,
/// crate checks, lone IPC peer, relay peers, tool hints.
pub open spec fn unsorted_findings(
    layout: WorkspaceLayout,
    nodes: Seq<crate::Node>,
    edges: Seq<crate::Edge>,
    rules: Seq<(String, String)>,
    tools: crate::tool_hints::ToolStatus,
) -> Seq<FindingView> {
    let integ = integrity_of(layout, nodes);
    let pl = plugins_pass(nodes, nodes, edges, rules, editor_target_of(rules), ui_export_set(nodes),
        first_named(nodes, "lx-shm"@), integ);
    let ipcs = ipc_plugins_of(nodes);
    integ + pl + crates_pass(nodes, edges) + single_peer_findings(ipcs) + relay_pass(ipcs, ipcs, edges)
        + crate::tool_hints::hints_of(nodes, tools)
}

fn ui_exports_exec(nodes: &Vec<crate::Node>) -> (r: Vec<String>)
    ensures
        crate::text::is_set(r@),
        crate::text::strs(r@).to_set() == ui_export_set(nodes@),
{
    let mut r: Vec<String> = Vec::new();
    let mut i: usize = 0;
    while i < nodes.len()
        invariant
            i <= nodes@.len(),
            crate::text::is_set(r@),
            crate::text::strs(r@).to_set() == ui_export_set(nodes@.take(i as int)),
        decreases nodes@.len() - i,
    {
        let ghost before = crate::text::strs(r@).to_set();
        if let Some(a) = &nodes[i].ast_summary {
            let mut k: usize = 0;
            while k < a.slint_exports.len()
                invariant
                    k <= a.slint_exports@.len(),
                    crate::text::is_set(r@),
                    crate::text::strs(r@).to_set() == before.union(crate::text::strs(a.slint_exports@).take(k as int).to_set()),
                decreases a.slint_exports@.len() - k,
            {
                crate::text::set_insert(&mut r, a.slint_exports[k].clone());
                proof {
                    assert(crate::text::strs(a.slint_exports@).take(k + 1) =~= crate::text::strs(a.slint_exports@).take(
                        k as int,
                    ).push(a.slint_exports@[k as int]@));
                    crate::text::strs(a.slint_exports@).take(k as int).lemma_push_to_set_commute(a.slint_exports@[k as int]@);
                }
                assert(crate::text::strs(r@).to_set() =~= before.union(crate::text::strs(a.slint_exports@).take(k + 1).to_set()));
                k = k + 1;
            }
            assert(crate::text::strs(a.slint_exports@).take(a.slint_exports@.len() as int) =~= crate::text::strs(a.slint_exports@));
        }
        proof {
            let pre = nodes@.take(i as int);
            let post = nodes@.take(i + 1);
            assert(post =~= pre.push(nodes@[i as int]));
            assert forall|x: Seq<char>| ui_export_set(post).contains(x) <==> crate::text::strs(r@).to_set().contains(x) by {
                if ui_export_set(post).contains(x) {
                    let j = choose|j: int| 0 <= j < post.len() && match #[trigger] post[j].ast_summary {
                        Some(a) => crate::text::strs(a.slint_exports@).contains(x),
                        None => false,
                    };
                    if j < pre.len() {
                        assert(pre[j] == post[j]);
                        assert(ui_export_set(pre).contains(x));
                    }
                }
                if ui_export_set(pre).contains(x) {
                    let j = choose|j: int| 0 <= j < pre.len() && match #[trigger] pre[j].ast_summary {
                        Some(a) => crate::text::strs(a.slint_exports@).contains(x),
                        None => false,
                    };
                    assert(post[j] == pre[j]);
                }
                if let Some(a) = nodes@[i as int].ast_summary {
                    if crate::text::strs(a.slint_exports@).contains(x) {
                        assert(post[i as int] == nodes@[i as int]);
                    }
                }
            }
            assert(crate::text::strs(r@).to_set() =~= ui_export_set(post));
        }
        i = i + 1;
    }
    assert(nodes@.take(nodes@.len() as int) =~= nodes@);
    r
}

fn find_named<'a>(nodes: &'a Vec<crate::Node>, x: &str) -> (r: Option<&'a crate::Node>)
    ensures
        match r {
            Some(n) => first_named(nodes@, x@) == Some(*n),
            None => first_named(nodes@, x@) is None,
        },
{
    let mut i: usize = 0;
    assert(nodes@.skip(0) =~= nodes@);
    while i < nodes.len()
        invariant
            i <= nodes@.len(),
            first_named(nodes@, x@) == first_named(nodes@.skip(i as int), x@),
        decreases nodes@.len() - i,
    {
        assert(nodes@.skip(i as int)[0] == nodes@[i as int]);
        if str_eq(nodes[i].name.as_str(), x) {
            return Some(&nodes[i]);
        }
        assert(nodes@.skip(i as int).drop_first() =~= nodes@.skip(i + 1));
        i = i + 1;
    }
    None
}

/// Run the structural and integrity checks over the built graph; the
/// findings come sorted (stably) by severity, node and code.
pub fn analyze(
    layout: &WorkspaceLayout,
    nodes: &Vec<crate::Node>,
    edges: &Vec<crate::Edge>,
    rules: &Vec<(String, String)>,
    tools: &crate::tool_hints::ToolStatus,
) -> (r: Vec<Finding>)
    requires
        is_map(rules@),
        plugins_fit(nodes@),
    ensures
        fviews(r@) == sort_findings(unsorted_findings(*layout, nodes@, edges@, rules@, *tools)),
{
    let mut out: Vec<Finding> = Vec::new();
    integrity_checks(layout, nodes, &mut out);
    let ghost integ = fviews(out@);
    assert(integ =~= integrity_of(*layout, nodes@));
    let et = editor_target(rules);
    let ui = ui_exports_exec(nodes);
    let shm = find_named(nodes, "lx-shm");
    let ghost shm_v = first_named(nodes@, "lx-shm"@);
    let mut i: usize = 0;
    while i < nodes.len()
        invariant
            i <= nodes@.len(),
            is_map(rules@),
            plugins_fit(nodes@),
            et@ == editor_target_of(rules@),
            crate::text::strs(ui@).to_set() == ui_export_set(nodes@),
            match shm {
                Some(h) => shm_v == Some(*h),
                None => shm_v is None,
            },
            fviews(out@) == integ + plugins_pass(nodes@.take(i as int), nodes@, edges@, rules@, et@, ui_export_set(nodes@), shm_v, integ),
        decreases nodes@.len() - i,
    {
        let p = &nodes[i];
        proof {
            assert(nodes@.take(i + 1).drop_last() =~= nodes@.take(i as int));
            assert(nodes@.take(i + 1).last() == *p);
            assert(match nodes@[i as int].ast_summary {
                Some(a) => counts_fit(a),
                None => true,
            });
        }
        let ghost before = fviews(out@);
        if str_eq(p.kind.as_str(), "plugin") {
            plugin_checks(p, nodes, edges, rules, &et, &ui, shm, &mut out);
        }
        assert(fviews(out@) =~= integ + plugins_pass(nodes@.take(i + 1), nodes@, edges@, rules@, et@, ui_export_set(nodes@), shm_v, integ));
        i = i + 1;
    }
    assert(nodes@.take(nodes@.len() as int) =~= nodes@);
    let ghost after_plugins = fviews(out@);
    let mut i: usize = 0;
    while i < nodes.len()
        invariant
            i <= nodes@.len(),
            fviews(out@) == after_plugins + crates_pass(nodes@.take(i as int), edges@),
        decreases nodes@.len() - i,
    {
        let n = &nodes[i];
        proof {
            assert(nodes@.take(i + 1).drop_last() =~= nodes@.take(i as int));
            assert(nodes@.take(i + 1).last() == *n);
        }
        if str_eq(n.kind.as_str(), "crate") {
            crate_checks(n, edges, &mut out);
        }
        assert(fviews(out@) =~= after_plugins + crates_pass(nodes@.take(i + 1), edges@));
        i = i + 1;
    }
    let ghost after_crates = fviews(out@);
    let ipcs = collect_ipc_plugins(nodes);
    let ghost ips = ipc_plugins_of(nodes@);
    if ipcs.len() == 1 {
        let q = &nodes[ipcs[0]];
        assert(*q == ips[0]);
        let msg = crate::text::cat2(q.name.as_str(), " is the only plugin with shm/relay signals — peer missing or not detected");
        push_f(&mut out, mk(q, Severity::Warn, "ipc_single_peer", msg.as_str(), None, Some("add peer plugin with matching shm/relay, or remove dead IPC code")));
    }
    assert(fviews(out@) =~= after_crates + single_peer_findings(ips));
    let ghost after_single = fviews(out@);
    let mut k: usize = 0;
    while k < ipcs.len()
        invariant
            k <= ipcs@.len(),
            forall|j: int| 0 <= j < ipcs@.len() ==> ipcs@[j] < nodes@.len(),
            ips == ipcs@.map_values(|j: usize| nodes@[j as int]),
            fviews(out@) == after_single + relay_pass(ips.take(k as int), ips, edges@),
        decreases ipcs@.len() - k,
    {
        let p = &nodes[ipcs[k]];
        proof {
            assert(ips.take(k + 1).drop_last() =~= ips.take(k as int));
            assert(ips.take(k + 1).last() == *p);
        }
        let named = crate::text::contains_str(p.name.as_str(), "relay");
        let has_relay = match &p.ast_summary {
            Some(a) => crate::text::set_contains(&a.ipc_signals, "relay"),
            None => false,
        };
        if named || has_relay {
            let has_peer = edge_touching_exec(edges, p.id.as_str(), "ipc_peer");
            if !has_peer && ipcs.len() > 1 {
                let peers = peers_of(nodes, &ipcs, p.id.as_str());
                if peers.len() > 0 {
                    let list = crate::text::join_strings(&peers, ", ");
                    let msg = crate::text::cat4(p.name.as_str(), " has relay signals but no ipc_peer edge (candidates: ", list.as_str(), ")");
                    push_f(&mut out, mk(p, Severity::Info, "relay_no_ipc_peer_edge", msg.as_str(), None,
                        Some("ensure both peers share shm/relay signals so ipc_peer edge appears")));
                }
            }
        }
        assert(fviews(out@) =~= after_single + relay_pass(ips.take(k + 1), ips, edges@));
        k = k + 1;
    }
    assert(ips.take(ipcs@.len() as int) =~= ips);
    crate::tool_hints::append_hints(nodes, &mut out, tools);
    assert(fviews(out@) =~= unsorted_findings(*layout, nodes@, edges@, rules@, *tools));
    sort_findings_exec(out)
}

/// `s` holds a finding of severity `sev` and code `code` on node `id`.
pub open spec fn has_finding(s: Seq<FindingView>, sev: Severity, code: Seq<char>, id: Seq<char>) -> bool {
    exists|k: int| 0 <= k < s.len() && (#[trigger] s[k]).0 == sev && s[k].1 == code && s[k].2 == Some(id)
}

proof fn lemma_plugins_pass_meta(
    ns: Seq<crate::Node>,
    nodes: Seq<crate::Node>,
    edges: Seq<crate::Edge>,
    rules: Seq<(String, String)>,
    et: Seq<char>,
    ui: Set<Seq<char>>,
    shm: Option<crate::Node>,
    prior: Seq<FindingView>,
    i: int,
    j: int,
)
    requires
        0 <= i < ns.len(),
        ns[i].kind@ == "plugin"@,
        0 <= j < meta_findings(ns[i]).len(),
    ensures
        plugins_pass(ns, nodes, edges, rules, et, ui, shm, prior).contains(meta_findings(ns[i])[j]),
    decreases ns.len(),
{
    let r = plugins_pass(ns.drop_last(), nodes, edges, rules, et, ui, shm, prior);
    let all = plugins_pass(ns, nodes, edges, rules, et, ui, shm, prior);
    if i == ns.len() - 1 {
        let p = ns.last();
        let pf = plugin_findings(p, nodes, edges, rules, et, ui, shm, prior + r);
        assert(pf[j] == meta_findings(p)[j]);
        assert(all == r + pf);
        assert(all[r.len() + j] == pf[j]);
    } else {
        assert(ns.drop_last()[i] == ns[i]);
        lemma_plugins_pass_meta(ns.drop_last(), nodes, edges, rules, et, ui, shm, prior, i, j);
        let k = choose|k: int| 0 <= k < r.len() && r[k] == meta_findings(ns[i])[j];
        assert(all[k] == r[k]);
    }
}

/// Every finding of the metadata checks of a plugin node is among the sorted
/// findings of the analysis.
proof fn lemma_meta_in_analysis(
    layout: WorkspaceLayout,
    nodes: Seq<crate::Node>,
    edges: Seq<crate::Edge>,
    rules: Seq<(String, String)>,
    tools: crate::tool_hints::ToolStatus,
    i: int,
    j: int,
)
    requires
        0 <= i < nodes.len(),
        nodes[i].kind@ == "plugin"@,
        0 <= j < meta_findings(nodes[i]).len(),
    ensures
        sort_findings(unsorted_findings(layout, nodes, edges, rules, tools)).contains(meta_findings(nodes[i])[j]),
{
    broadcast use vstd::seq_lib::group_to_multiset_ensures;
    let integ = integrity_of(layout, nodes);
    let pl = plugins_pass(nodes, nodes, edges, rules, editor_target_of(rules), ui_export_set(nodes),
        first_named(nodes, "lx-shm"@), integ);
    let ipcs = ipc_plugins_of(nodes);
    let rest = crates_pass(nodes, edges) + single_peer_findings(ipcs) + relay_pass(ipcs, ipcs, edges)
        + crate::tool_hints::hints_of(nodes, tools);
    let u = unsorted_findings(layout, nodes, edges, rules, tools);
    let x = meta_findings(nodes[i])[j];
    lemma_plugins_pass_meta(nodes, nodes, edges, rules, editor_target_of(rules), ui_export_set(nodes),
        first_named(nodes, "lx-shm"@), integ, i, j);
    let k = choose|k: int| 0 <= k < pl.len() && pl[k] == x;
    assert(u =~= integ + pl + rest);
    assert(u[integ.len() + k] == x);
    lemma_sorted_findings(u);
    assert(u.to_multiset().count(x) > 0);
}

/// Every plugin whose `Cargo.toml` has no version gets a warning
/// `missing_version` on its node, so the analysis is at best degraded; every
/// plugin without a description gets an info `missing_description` on its
/// node.
pub proof fn lemma_missing_metadata_findings(
    layout: WorkspaceLayout,
    nodes: Seq<crate::Node>,
    edges: Seq<crate::Edge>,
    rules: Seq<(String, String)>,
    tools: crate::tool_hints::ToolStatus,
    i: int,
)
    requires
        0 <= i < nodes.len(),
        nodes[i].kind@ == "plugin"@,
    ensures
        nodes[i].version is None ==> has_finding(
            sort_findings(unsorted_findings(layout, nodes, edges, rules, tools)),
            Severity::Warn,
            "missing_version"@,
            nodes[i].id@,
        ),
        nodes[i].version is None ==> health_of(sort_findings(unsorted_findings(layout, nodes, edges, rules, tools)))
            != Health::Okay,
        nodes[i].description is None ==> has_finding(
            sort_findings(unsorted_findings(layout, nodes, edges, rules, tools)),
            Severity::Info,
            "missing_description"@,
            nodes[i].id@,
        ),
{
    let s = sort_findings(unsorted_findings(layout, nodes, edges, rules, tools));
    let p = nodes[i];
    reveal(meta_findings);
    let m = meta_findings(p);
    if p.version is None {
        lemma_meta_in_analysis(layout, nodes, edges, rules, tools, i, 0);
        let k = choose|k: int| 0 <= k < s.len() && s[k] == m[0];
        assert(s[k].0 == Severity::Warn && s[k].1 == "missing_version"@ && s[k].2 == Some(p.id@));
        assert(any_severity(s, Severity::Warn));
    }
    if p.description is None {
        let j = m.len() - 1;
        lemma_meta_in_analysis(layout, nodes, edges, rules, tools, i, j);
        let k = choose|k: int| 0 <= k < s.len() && s[k] == m[j];
        assert(s[k].0 == Severity::Info && s[k].1 == "missing_description"@ && s[k].2 == Some(p.id@));
    }
}

} // verus!
