//! The agent-facing markdown: the structural map (`agal.agent.md`), the
//! orientation entry (`AGAL.md`), skill frontmatter and the skill index,
//! and one-hop plugin slices.
use vstd::prelude::*;

use crate::findings::{count_by_severity, count_sev, fviews, health, health_of, Finding, FindingView, Health, Severity};
use crate::text::{canon, dec, drop_prefixes, drop_prefixes_str, first_n, push_usize, str_eq};
use crate::Audiolabs;
use crate::text::{
    drop_prefix_str, find, find_str, join, join_strings, lemma_strs_push,
    opt_view, owned, push_str, raw_lines, raw_lines_of, slice_string, split_char, split_on,
    starts_with, starts_with_str, ends_with, ends_with_str, chars_of, strs, trim, trim_char,
    trim_char_str, trim_start, trim_start_char, trim_start_char_str, trim_start_str, trim_str,
};

verus! {

// ---------------------------------------------------------------------------
// Skill frontmatter
// ---------------------------------------------------------------------------

/// Parsed skill frontmatter (YAML-ish between `---` fences).
#[derive(Debug, Clone)]
pub struct SkillFrontmatter {
    pub id: String,
    pub summary: String,
    pub triggers: Option<String>,
    pub verify: Option<String>,
}

/// `file_stem` of a path (`std::path::Path::file_stem`), as text.
pub uninterp spec fn path_file_stem(p: Seq<char>) -> Option<Seq<char>>;

/// The file stem of a relative path (`Path::file_stem`, converted to text);
/// the result is named [`path_file_stem`].
#[verifier::external_body]
fn file_stem_text(p: &str) -> (r: Option<String>)
    ensures
        opt_view(r) == path_file_stem(p@),
{
    std::path::Path::new(p).file_stem().map(|s| s.to_string_lossy().into_owned())
}

/// A value with surrounding blanks and quote characters removed.
pub open spec fn unquote(v: Seq<char>) -> Seq<char> {
    trim_char(trim_char(trim(v), '"'), '\'')
}

/// Elements of a list value, each cleaned, blanks dropped.
pub open spec fn list_items(ps: Seq<Seq<char>>) -> Seq<Seq<char>>
    decreases ps.len(),
{
    if ps.len() == 0 {
        Seq::empty()
    } else {
        let x = trim(trim_char(trim_char(trim(ps.last()), '"'), '\''));
        list_items(ps.drop_last()) + if x.len() > 0 {
            seq![x]
        } else {
            Seq::empty()
        }
    }
}

/// A list value without its brackets, if it has them.
pub open spec fn unbracket(v: Seq<char>) -> Seq<char> {
    if starts_with(v, "["@) && ends_with(v, "]"@) {
        v.subrange(1, v.len() - 1)
    } else {
        v
    }
}

/// The items of a list value joined by `, ` (before any length cap).
pub open spec fn list_joined(raw: Seq<char>) -> Seq<char> {
    join(list_items(split_on(unbracket(unquote(raw)), ',')), ", "@)
}

/// A text of more than `max` characters cut to its first `keep` characters
/// and `...`; a shorter one unchanged.
pub open spec fn cap_dots(s: Seq<char>, max: nat, keep: nat) -> Seq<char> {
    if s.len() > max {
        s.take(keep as int) + "..."@
    } else {
        s
    }
}

fn cap_dots_str(s: &str, max: usize, keep: usize) -> (r: String)
    requires
        keep <= max,
    ensures
        r@ == cap_dots(s@, max as nat, keep as nat),
{
    let x = chars_of(s);
    if x.len() > max {
        let mut r = slice_string(&x, 0, keep);
        assert(x@.subrange(0, keep as int) =~= s@.take(keep as int));
        push_str(&mut r, "...");
        r
    } else {
        owned(s)
    }
}

/// `a, b` or `["a", "b"]` / `['a']` as a short comma-separated text; none
/// when no item remains.  Longer than 160 characters: cut to 157 and `...`.
pub open spec fn fm_list(raw: Seq<char>) -> Option<Seq<char>> {
    let items = list_items(split_on(unbracket(unquote(raw)), ','));
    if items.len() == 0 {
        None
    } else {
        let j = join(items, ", "@);
        Some(cap_dots(j, 160, 157))
    }
}

fn clean_item(p: &str) -> (r: String)
    ensures
        r@ == trim(trim_char(trim_char(trim(p@), '"'), '\'')),
{
    let a = trim_str(p);
    let b = trim_char_str(a.as_str(), '"');
    let c = trim_char_str(b.as_str(), '\'');
    trim_str(c.as_str())
}

fn unquote_str(v: &str) -> (r: String)
    ensures
        r@ == unquote(v@),
{
    let a = trim_str(v);
    let b = trim_char_str(a.as_str(), '"');
    trim_char_str(b.as_str(), '\'')
}

/// Normalizes a frontmatter list value.
pub fn normalize_fm_list(raw: &str) -> (r: Option<String>)
    ensures
        match r {
            Some(t) => fm_list(raw@) == Some(t@),
            None => fm_list(raw@) is None,
        },
{
    let v0 = unquote_str(raw);
    let v = if starts_with_str(v0.as_str(), "[") && ends_with_str(v0.as_str(), "]") {
        let x = chars_of(v0.as_str());
        proof {
            reveal_strlit("[");
            reveal_strlit("]");
            assert(v0@.take(1)[0] == '[');
            assert(v0@.skip(v0@.len() - 1)[0] == ']');
        }
        slice_string(&x, 1, x.len() - 1)
    } else {
        v0
    };
    assert(v@ == unbracket(unquote(raw@)));
    let ps = split_char(v.as_str(), ',');
    let mut items: Vec<String> = Vec::new();
    let mut i: usize = 0;
    while i < ps.len()
        invariant
            i <= ps@.len(),
            strs(items@) == list_items(strs(ps@).take(i as int)),
        decreases ps@.len() - i,
    {
        assert(strs(ps@).take(i + 1).drop_last() =~= strs(ps@).take(i as int));
        let x = clean_item(ps[i].as_str());
        if chars_of(x.as_str()).len() > 0 {
            let ghost i0 = items@;
            items.push(x);
            proof {
                lemma_strs_push(i0, items@.last());
            }
        }
        assert(strs(items@) =~= list_items(strs(ps@).take(i + 1)));
        i = i + 1;
    }
    assert(strs(ps@).take(ps@.len() as int) =~= strs(ps@));
    if items.len() == 0 {
        return None;
    }
    let joined = join_strings(&items, ", ");
    Some(cap_dots_str(joined.as_str(), 160, 157))
}

/// Frontmatter fields gathered so far: id, summary, triggers, verify.
pub type FmState = (Seq<char>, Seq<char>, Option<Seq<char>>, Option<Seq<char>>);

/// One frontmatter line applied to the fields.
pub open spec fn fm_line(st: FmState, line: Seq<char>) -> FmState {
    let l = trim(line);
    if starts_with(l, "id:"@) {
        let v = unquote(l.skip(3));
        if v.len() > 0 { (v, st.1, st.2, st.3) } else { st }
    } else if starts_with(l, "summary:"@) {
        let v = unquote(l.skip(8));
        if v.len() > 0 { (st.0, v, st.2, st.3) } else { st }
    } else if starts_with(l, "triggers:"@) {
        match fm_list(l.skip(9)) {
            Some(t) => (st.0, st.1, Some(t), st.3),
            None => st,
        }
    } else if starts_with(l, "verify:"@) {
        match fm_list(l.skip(7)) {
            Some(t) => (st.0, st.1, st.2, Some(t)),
            None => st,
        }
    } else {
        st
    }
}

pub open spec fn fm_fold(st: FmState, lines: Seq<Seq<char>>) -> FmState
    decreases lines.len(),
{
    if lines.len() == 0 {
        st
    } else {
        fm_line(fm_fold(st, lines.drop_last()), lines.last())
    }
}

/// The frontmatter block: after a leading `---`, up to the next `\n---`.
pub open spec fn fm_block(text: Seq<char>) -> Option<Seq<char>> {
    let t = trim_start(text);
    if starts_with(t, "---"@) {
        match find(t.skip(3), "\n---"@) {
            Some(e) => Some(t.skip(3).take(e)),
            None => None,
        }
    } else {
        None
    }
}

/// Text of the first markdown heading line (trimmed, `#`s removed).
pub open spec fn first_heading(lines: Seq<Seq<char>>) -> Option<Seq<char>>
    decreases lines.len(),
{
    if lines.len() == 0 {
        None
    } else if starts_with(trim(lines[0]), "#"@) {
        Some(trim(trim_start_char(trim(lines[0]), '#')))
    } else {
        first_heading(lines.drop_first())
    }
}

/// The fallback id: the path's file stem, else the whole path.
pub open spec fn fallback_id(rel: Seq<char>) -> Seq<char> {
    match path_file_stem(rel) {
        Some(s) => s,
        None => rel,
    }
}

/// Fields after the frontmatter lines (if any frontmatter), starting from
/// the id `id0`.
pub open spec fn fm_fields_from(text: Seq<char>, id0: Seq<char>) -> FmState {
    let st0: FmState = (id0, Seq::empty(), None, None);
    match fm_block(text) {
        Some(b) => fm_fold(st0, raw_lines(b)),
        None => st0,
    }
}

/// The summary before the length cap: frontmatter, else first heading,
/// else `(no summary)`.
pub open spec fn summary_from(text: Seq<char>, id0: Seq<char>) -> Seq<char> {
    let s = fm_fields_from(text, id0).1;
    if s.len() > 0 {
        s
    } else {
        let h = match first_heading(raw_lines(text)) {
            Some(x) => x,
            None => Seq::empty(),
        };
        if h.len() > 0 { h } else { "(no summary)"@ }
    }
}

/// Parsed frontmatter with `id0` as the id when the frontmatter names none:
/// id, summary (at most 120 characters: cut to 117 and `...`), triggers,
/// verify.
pub open spec fn frontmatter_from(text: Seq<char>, id0: Seq<char>) -> FmState {
    let f = fm_fields_from(text, id0);
    let s = summary_from(text, id0);
    (f.0, cap_dots(s, 120, 117), f.2, f.3)
}

/// Parsed frontmatter, the id falling back to the file stem of `rel`.
pub open spec fn frontmatter_of(text: Seq<char>, rel: Seq<char>) -> FmState {
    frontmatter_from(text, fallback_id(rel))
}

pub open spec fn fm_view(st: (String, String, Option<String>, Option<String>)) -> FmState {
    (st.0@, st.1@, opt_view(st.2), opt_view(st.3))
}

fn after(s: &str, n: usize) -> (r: String)
    requires
        n <= s@.len(),
    ensures
        r@ == s@.skip(n as int),
{
    let x = chars_of(s);
    assert(x@.subrange(n as int, x@.len() as int) =~= s@.skip(n as int));
    slice_string(&x, n, x.len())
}

fn apply_fm_line(st: &mut (String, String, Option<String>, Option<String>), line: &str)
    ensures
        fm_view(*final(st)) == fm_line(fm_view(*old(st)), line@),
{
    proof {
        reveal_strlit("id:");
        reveal_strlit("summary:");
        reveal_strlit("triggers:");
        reveal_strlit("verify:");
    }
    let l = trim_str(line);
    if starts_with_str(l.as_str(), "id:") {
        let v = unquote_str(after(l.as_str(), 3).as_str());
        if chars_of(v.as_str()).len() > 0 {
            st.0 = v;
        }
    } else if starts_with_str(l.as_str(), "summary:") {
        let v = unquote_str(after(l.as_str(), 8).as_str());
        if chars_of(v.as_str()).len() > 0 {
            st.1 = v;
        }
    } else if starts_with_str(l.as_str(), "triggers:") {
        let rest = after(l.as_str(), 9);
        if let Some(t) = normalize_fm_list(rest.as_str()) {
            st.2 = Some(t);
        }
    } else if starts_with_str(l.as_str(), "verify:") {
        let rest = after(l.as_str(), 7);
        if let Some(t) = normalize_fm_list(rest.as_str()) {
            st.3 = Some(t);
        }
    }
}

fn heading_text(lines: &Vec<String>) -> (r: Option<String>)
    ensures
        opt_view(r) == first_heading(strs(lines@)),
{
    let mut i: usize = 0;
    assert(strs(lines@).skip(0) =~= strs(lines@));
    while i < lines.len()
        invariant
            i <= lines@.len(),
            first_heading(strs(lines@)) == first_heading(strs(lines@).skip(i as int)),
        decreases lines@.len() - i,
    {
        assert(strs(lines@).skip(i as int)[0] == lines@[i as int]@);
        assert(strs(lines@).skip(i as int).drop_first() =~= strs(lines@).skip(i + 1));
        let t = trim_str(lines[i].as_str());
        if starts_with_str(t.as_str(), "#") {
            let h = trim_start_char_str(t.as_str(), '#');
            return Some(trim_str(h.as_str()));
        }
        i = i + 1;
    }
    None
}

/// The frontmatter block of a skill text.
fn fm_block_text(text: &str) -> (r: Option<String>)
    ensures
        opt_view(r) == fm_block(text@),
{
    proof {
        reveal_strlit("---");
    }
    let t = trim_start_str(text);
    if !starts_with_str(t.as_str(), "---") {
        return None;
    }
    let rest = after(t.as_str(), 3);
    match find_str(rest.as_str(), "\n---") {
        Some(e) => {
            let x = chars_of(rest.as_str());
            proof {
                crate::text::lemma_find_from(rest@, "\n---"@, 0);
            }
            assert(x@.subrange(0, e as int) =~= rest@.take(e as int));
            Some(slice_string(&x, 0, e))
        },
        None => None,
    }
}

fn list_joined_str(raw: &str) -> (r: String)
    ensures
        r@ == list_joined(raw@),
{
    let v0 = unquote_str(raw);
    let v = if starts_with_str(v0.as_str(), "[") && ends_with_str(v0.as_str(), "]") {
        let x = chars_of(v0.as_str());
        proof {
            reveal_strlit("[");
            reveal_strlit("]");
            assert(v0@.take(1)[0] == '[');
            assert(v0@.skip(v0@.len() - 1)[0] == ']');
        }
        slice_string(&x, 1, x.len() - 1)
    } else {
        v0
    };
    let ps = split_char(v.as_str(), ',');
    let mut items: Vec<String> = Vec::new();
    let mut i: usize = 0;
    while i < ps.len()
        invariant
            i <= ps@.len(),
            strs(items@) == list_items(strs(ps@).take(i as int)),
        decreases ps@.len() - i,
    {
        assert(strs(ps@).take(i + 1).drop_last() =~= strs(ps@).take(i as int));
        let x = clean_item(ps[i].as_str());
        if chars_of(x.as_str()).len() > 0 {
            let ghost i0 = items@;
            items.push(x);
            proof {
                lemma_strs_push(i0, items@.last());
            }
        }
        assert(strs(items@) =~= list_items(strs(ps@).take(i + 1)));
        i = i + 1;
    }
    assert(strs(ps@).take(ps@.len() as int) =~= strs(ps@));
    join_strings(&items, ", ")
}

/// Frontmatter fields of a skill text (before the summary fallback), the id
/// starting as `id0`.
fn fm_fields_of(text: &str, id0: String) -> (r: (String, String, Option<String>, Option<String>))
    ensures
        fm_view(r) == fm_fields_from(text@, id0@),
{
    let mut st = (id0, String::new(), None, None);
    assert(fm_view(st) =~= (id0@, Seq::<char>::empty(), None::<Seq<char>>, None::<Seq<char>>));
    let ghost st0 = fm_view(st);
    if let Some(b) = fm_block_text(text) {
        let lines = raw_lines_of(b.as_str());
        let mut i: usize = 0;
        while i < lines.len()
            invariant
                i <= lines@.len(),
                fm_view(st) == fm_fold(st0, strs(lines@).take(i as int)),
            decreases lines@.len() - i,
        {
            assert(strs(lines@).take(i + 1).drop_last() =~= strs(lines@).take(i as int));
            assert(strs(lines@)[i as int] == lines@[i as int]@);
            apply_fm_line(&mut st, lines[i].as_str());
            i = i + 1;
        }
        assert(strs(lines@).take(lines@.len() as int) =~= strs(lines@));
    }
    st
}

/// The fallback id of a skill file: its file stem, else the whole path.
fn fallback_id_of(rel_path: &str) -> (r: String)
    ensures
        r@ == fallback_id(rel_path@),
{
    match file_stem_text(rel_path) {
        Some(s) => s,
        None => owned(rel_path),
    }
}

fn summary_of(text: &str, fields_summary: &String) -> (r: String)
    ensures
        r@ == (if fields_summary@.len() > 0 {
            fields_summary@
        } else {
            let h = match first_heading(raw_lines(text@)) {
                Some(x) => x,
                None => Seq::empty(),
            };
            if h.len() > 0 { h } else { "(no summary)"@ }
        }),
{
    if chars_of(fields_summary.as_str()).len() > 0 {
        return fields_summary.clone();
    }
    let lines = raw_lines_of(text);
    let h = match heading_text(&lines) {
        Some(x) => x,
        None => String::new(),
    };
    if chars_of(h.as_str()).len() > 0 {
        h
    } else {
        owned("(no summary)")
    }
}

/// Parses YAML-ish frontmatter with `id0` as the id when the frontmatter
/// names none; the summary falls back to the first heading.
pub fn parse_frontmatter_with_id(text: &str, id0: &str) -> (fm: SkillFrontmatter)
    ensures
        (fm.id@, fm.summary@, opt_view(fm.triggers), opt_view(fm.verify)) == frontmatter_from(text@, id0@),
{
    let f = fm_fields_of(text, owned(id0));
    let s = summary_of(text, &f.1);
    let summary = cap_dots_str(s.as_str(), 120, 117);
    SkillFrontmatter { id: f.0, summary, triggers: f.2, verify: f.3 }
}

/// Parses YAML-ish frontmatter; id and summary fall back to the file stem
/// and the first heading.
pub fn parse_skill_frontmatter(text: &str, rel_path: &str) -> (fm: SkillFrontmatter)
    ensures
        (fm.id@, fm.summary@, opt_view(fm.triggers), opt_view(fm.verify)) == frontmatter_of(text@, rel_path@),
{
    let id0 = fallback_id_of(rel_path);
    parse_frontmatter_with_id(text, id0.as_str())
}

// ---------------------------------------------------------------------------
// Skill index
// ---------------------------------------------------------------------------

/// One skill file found under `skills/`, as listed in `AGAL.md`.
#[derive(Debug, Clone)]
pub struct SkillIndexEntry {
    pub id: String,
    pub summary: String,
    pub rel_path: String,
    pub triggers: Option<String>,
    pub verify: Option<String>,
}

/// (id, summary, rel_path, triggers, verify)
pub type IndexView = (Seq<char>, Seq<char>, Seq<char>, Option<Seq<char>>, Option<Seq<char>>);

impl View for SkillIndexEntry {
    type V = IndexView;

    open spec fn view(&self) -> IndexView {
        (self.id@, self.summary@, self.rel_path@, opt_view(self.triggers), opt_view(self.verify))
    }
}

pub open spec fn index_views(v: Seq<SkillIndexEntry>) -> Seq<IndexView> {
    v.map_values(|e: SkillIndexEntry| e@)
}

/// The index entry of a markdown file at `rel` (relative to `skills/`), none
/// for the folder's `README.md`.
pub open spec fn index_entry_of(rel: Seq<char>, text: Seq<char>) -> Option<IndexView> {
    if crate::text::lower(rel) == "readme.md"@ {
        None
    } else {
        let fm = frontmatter_of(text, rel);
        Some((fm.0, fm.1, "skills/"@ + rel, fm.2, fm.3))
    }
}

/// The index entry of one markdown file under `skills/`.
pub fn skill_index_entry(rel: &str, text: &str) -> (r: Option<SkillIndexEntry>)
    ensures
        match r {
            Some(e) => index_entry_of(rel@, text@) == Some(e@),
            None => index_entry_of(rel@, text@) is None,
        },
{
    proof {
        reveal_strlit("README.md");
        reveal_strlit("readme.md");
        assert(crate::text::lower("README.md"@) =~= "readme.md"@);
    }
    if crate::text::eq_ignore_case(rel, "README.md") {
        return None;
    }
    let fm = parse_skill_frontmatter(text, rel);
    Some(SkillIndexEntry {
        id: fm.id,
        summary: fm.summary,
        rel_path: crate::text::cat2("skills/", rel),
        triggers: fm.triggers,
        verify: fm.verify,
    })
}

/// Insert `x` after every entry whose path does not sort after it.
pub open spec fn ins_entry(s: Seq<IndexView>, x: IndexView) -> Seq<IndexView>
    decreases s.len(),
{
    if s.len() == 0 {
        seq![x]
    } else if !crate::text::lt(x.2, s.last().2) {
        s.push(x)
    } else {
        ins_entry(s.drop_last(), x).push(s.last())
    }
}

/// Stable sort by path.
pub open spec fn sort_entries(s: Seq<IndexView>) -> Seq<IndexView>
    decreases s.len(),
{
    if s.len() == 0 {
        s
    } else {
        ins_entry(sort_entries(s.drop_last()), s.last())
    }
}

/// Sorts index entries by path (stable).
pub fn sort_index(v: Vec<SkillIndexEntry>) -> (r: Vec<SkillIndexEntry>)
    ensures
        index_views(r@) == sort_entries(index_views(v@)),
{
    let mut r: Vec<SkillIndexEntry> = Vec::new();
    let mut src = v;
    let ghost all = index_views(src@);
    let n = src.len();
    let mut i: usize = 0;
    while i < n
        invariant
            n == src@.len(),
            all.len() == n,
            i <= n,
            forall|j: int| i <= j < n ==> #[trigger] src@[j]@ == all[j],
            index_views(r@) == sort_entries(all.take(i as int)),
        decreases n - i,
    {
        let mut x = SkillIndexEntry {
            id: String::new(),
            summary: String::new(),
            rel_path: String::new(),
            triggers: None,
            verify: None,
        };
        std::mem::swap(&mut x, &mut src[i]);
        proof {
            assert(all.take(i + 1).drop_last() =~= all.take(i as int));
            assert(all.take(i + 1).last() == all[i as int]);
        }
        let ghost rv = index_views(r@);
        let mut j: usize = r.len();
        assert(rv.take(rv.len() as int) =~= rv);
        assert(rv.skip(rv.len() as int) =~= Seq::<IndexView>::empty());
        while j > 0 && crate::text::str_lt(x.rel_path.as_str(), r[j - 1].rel_path.as_str())
            invariant
                j <= r@.len(),
                rv == index_views(r@),
                ins_entry(rv, x@) == ins_entry(rv.take(j as int), x@) + rv.skip(j as int),
            decreases j,
        {
            proof {
                assert(rv.take(j as int).last() == rv[j - 1]);
                assert(rv.take(j as int).drop_last() =~= rv.take(j - 1));
                assert(rv.skip(j - 1) =~= seq![rv[j - 1]] + rv.skip(j as int));
            }
            j = j - 1;
        }
        proof {
            if j > 0 {
                assert(rv.take(j as int).last() == rv[j - 1]);
            }
            assert(ins_entry(rv.take(j as int), x@) =~= rv.take(j as int).push(x@));
        }
        r.insert(j, x);
        assert(index_views(r@) =~= rv.take(j as int).push(all[i as int]) + rv.skip(j as int));
        i = i + 1;
    }
    assert(all.take(n as int) =~= all);
    r
}

// ---------------------------------------------------------------------------
// AGAL.md
// ---------------------------------------------------------------------------

/// Version of the tool, as shown in `AGAL.md`.
pub const AGAL_VERSION: &'static str = "0.6.2";

/// Layers, hot path, budget and context sections of `AGAL.md`, up to the
/// first row of the task loadouts table.
pub const GUIDE_LEAD: &'static str = "## Disclosure (read layers)\n\nProgressive disclosure — open the **next** layer only if the current one is not enough:\n\n| Layer | Artifact | Open when |\n|-------|----------|----------|\n| **L3** entry | **this file** (`AGAL.md`) | always first — budget, loadouts, skills index |\n| **L2** map | `agal.agent.md` (+ `delta` if present) | need structure / health / what changed |\n| **L1** focus | `notes/<focus>.md` (scan **`[ATOM]`** first) | work on one plugin/crate |\n| **L0** raw | `*.slice.json` / `agal.json` | map + note still insufficient |\n| durable | `notes/_workspace.md` | cross-cutting decisions (never overwritten) |\n\nSkills are a **side loadout** (≤1 file), not a layer — use `triggers` in the index.  \nWhen health ≠ ok, read **Focus** strip on this page first.  \nHTML / Cheatsheet = humans. Do **not** skip to L0 by default.\n\n## Hot path\n\n1. **L3** — this file (`AGAL.md`)  \n2. **L2** — `agal.agent.md` (structural map + health)  \n3. If **blocked** — fix error findings first (`path` + `fix`)  \n4. **L2** — `agal.delta.md` if present  \n5. **L1** — `notes/<focus>.md` (atoms → open → intent)  \n6. **loadout** — one skill from the pack list below (match `triggers`)  \n7. **L0** escalate — `agal --plugin NAME .` slice, or `agal.json`  \n8. HTML / Cheatsheet are for humans\n\n## Context budget (per turn)\n\nKeep context small. Default caps:\n\n| Cap | Default |\n|-----|--------|\n| focus notes | **1** (`notes/<focus>.md`) |\n| skill files loaded | **1** (or one loadout row) |\n| findings to act on | **errors first**, then warns; skip info until escalate |\n| JSON / slice | only after map + note are not enough |\n\nDo **not** dump `skills/`, full `agal.json`, or every note.\n\n## Task loadouts\n\nSync once, then load **only** what the task needs:\n\n| Task | Preset / `--only` | Load in context | Verify (when applicable) |\n|------|-------------------|-----------------|--------------------------|\n| DSP / process / realtime | ";

/// Preset cell of a loadouts row.
pub const LOADOUT_DSP_FIX: &'static str = "`--preset dsp-fix` (= `core`)";

/// Loadouts table between two preset cells.
pub const GUIDE_AFTER_DSP_FIX: &'static str = " | `00-core/*` as needed | `cargo clippy --workspace --all-targets -- -D warnings` |\n| Policy / terse edits | ";

/// Preset cell of a loadouts row.
pub const LOADOUT_POLICY_EDIT: &'static str = "`--preset policy-edit` (= `policy`)";

/// Loadouts table between two preset cells.
pub const GUIDE_AFTER_POLICY_EDIT: &'static str = " | `caveman` **or** `ponytail` | — |\n| Slint UI | ";

/// Preset cell of a loadouts row.
pub const LOADOUT_SLINT_UI: &'static str = "`--preset slint-ui` (= `core,ui/slint`)";

/// Loadouts table between two preset cells.
pub const GUIDE_AFTER_SLINT_UI: &'static str = " | `slint` (+ core) | — |\n| CLAP ship / formats | ";

/// Preset cell of a loadouts row.
pub const LOADOUT_CLAP_SHIP: &'static str = "`--preset clap-ship` (= `core,formats/clap`)";

/// Loadouts table between two preset cells.
pub const GUIDE_AFTER_CLAP_SHIP: &'static str = " | `clap` | after build: `clap-validator validate path/to/plugin.clap` |\n| Agent orientation playbook | ";

/// Preset cell of a loadouts row.
pub const LOADOUT_AGENT_PLAYBOOK: &'static str = "`--preset agent-playbook` (= `agents`)";

/// Rest of the loadouts table, then the stack and atoms sections of `AGAL.md`.
pub const GUIDE_REST: &'static str = " | `agent-usage` | — |\n| Full pack | `--only all` | rare — context bloat | — |\n\n## Stack layers\n\n| Layer | Tool | Role |\n|-------|------|------|\n| **structure** | **agal** | map, health, notes, curated skills |\n| **Rust lint** | Clippy | `agal doctor` + CI — not run by generate |\n| **CLAP binary** | clap-validator | same |\n| **symbols / call graph** | optional (codegraph, codebase-memory, graphify, …) | not agal — use when you need callers/impact |\n\n## Notes atoms\n\n**Graph atoms (auto)** — inside each note's AUTO block: migration, frameworks, key edges, error/warn findings as `[ATOM]` lines (regenerated; max 12). Scan these first at L1.\n\n**Human atoms (optional)** — below the HUMAN marker for durable decisions/lessons:\n\n```text\n[ATOM] type=decision|lesson|constraint | detail=…\n```\n\n";

/// The preset cells of the loadouts table, in table order.
pub open spec fn loadout_cells() -> Seq<Seq<char>> {
    seq![LOADOUT_DSP_FIX@, LOADOUT_POLICY_EDIT@, LOADOUT_SLINT_UI@, LOADOUT_CLAP_SHIP@, LOADOUT_AGENT_PLAYBOOK@]
}

/// Layers, hot path, budget, loadouts, stack and atoms sections of `AGAL.md`.
pub open spec fn agal_guide() -> Seq<char> {
    GUIDE_LEAD@ + LOADOUT_DSP_FIX@ + GUIDE_AFTER_DSP_FIX@ + LOADOUT_POLICY_EDIT@ + GUIDE_AFTER_POLICY_EDIT@
        + LOADOUT_SLINT_UI@ + GUIDE_AFTER_SLINT_UI@ + LOADOUT_CLAP_SHIP@ + GUIDE_AFTER_CLAP_SHIP@
        + LOADOUT_AGENT_PLAYBOOK@ + GUIDE_REST@
}

fn push_guide(s: &mut String)
    ensures
        final(s)@ == old(s)@ + agal_guide(),
{
    push_str(s, GUIDE_LEAD);
    push_str(s, LOADOUT_DSP_FIX);
    push_str(s, GUIDE_AFTER_DSP_FIX);
    push_str(s, LOADOUT_POLICY_EDIT);
    push_str(s, GUIDE_AFTER_POLICY_EDIT);
    push_str(s, LOADOUT_SLINT_UI);
    push_str(s, GUIDE_AFTER_SLINT_UI);
    push_str(s, LOADOUT_CLAP_SHIP);
    push_str(s, GUIDE_AFTER_CLAP_SHIP);
    push_str(s, LOADOUT_AGENT_PLAYBOOK);
    push_str(s, GUIDE_REST);
    assert(s@ =~= old(s)@ + agal_guide());
}

/// Artifacts and commands sections of `AGAL.md`.
pub const AGAL_TAIL: &'static str = "## Artifacts in this folder\n\n| Path | Role |\n|------|------|\n| **`AGAL.md`** | **AI entry** (this file) |\n| `agal.agent.md` | structural map + health |\n| `agal.delta.md` | structural diff |\n| `agal.json` | full edges / params / info findings |\n| `notes/` | auto header + human body + graph atoms |\n| `notes/_workspace.md` | durable workspace memory (**never** overwritten) |\n| `skills/` | synced tool packs (see above) |\n| `Cheatsheet.md` | human CLI guide |\n| `agal.html` | human graph |\n| `*.slice.json` | 1-hop plugin focus |\n\n## Commands\n\n```bash\nagal .                              # refresh map + AGAL.md + notes + html\nagal --plugin aether .              # + one-hop slice\nagal skills sync                    # default: core (00-core)\nagal skills sync --preset slint-ui  # core + slint (loadout)\nagal skills sync --only ui/slint    # single pack file\nagal skills sync --only policy,agents\nagal skills list\nagal doctor                         # Clippy + clap-validator + optional symbol tools\n```\n\n";

/// Header of the skill packs section.
pub const AGAL_PACKS: &'static str = "## Skills (tool packs)\n\nCanonical packs live in the **agal tool**. Sync a curated copy into `skills/`:\n\n| Group | Path | Sync |\n|-------|------|------|\n| **core** (default) | `skills/00-core/` | `agal skills sync` |\n| policy | `skills/01-policy/` | `--only policy` |\n| frameworks | `skills/02-frameworks/` | `--only frameworks` |\n| formats | `skills/03-formats/` | `--only formats` |\n| ui | `skills/04-ui/` | `--only ui` or `ui/slint` |\n| migrations | `skills/05-migrations/` | `--only migrations` |\n| agents | `skills/06-agents/` | `--only agents` |\n\n- **Load on demand** — never dump `skills/` into context.\n- Without `--force`, existing files are **skipped** (local edits kept).\n- Prefer adapting pack files in place; do **not** invent root `*_SKILL.md`.\n- Optional frontmatter: `id`, `summary` (≤120 chars), `triggers`, `verify`, `adapted: true`.\n\n";

/// Displayed counts of error, warn and info findings.
pub open spec fn sev_counts(fs: Seq<Finding>) -> (nat, nat, nat) {
    let v = fviews(fs);
    (count_sev(v, Severity::Error), count_sev(v, Severity::Warn), count_sev(v, Severity::Info))
}

fn severity_counts(fs: &Vec<Finding>) -> (r: (usize, usize, usize))
    ensures
        r.0 == sev_counts(fs@).0,
        r.1 == sev_counts(fs@).1,
        r.2 == sev_counts(fs@).2,
{
    let m = count_by_severity(fs);
    let ghost v = fviews(fs@);
    let n = fs.len();
    assert(v.len() == n);
    assert(crate::text::lookup(m@, Severity::Error.name()) == if count_sev(v, Severity::Error) > 0 {
        Some(count_sev(v, Severity::Error) as usize)
    } else {
        None
    });
    assert(crate::text::lookup(m@, Severity::Warn.name()) == if count_sev(v, Severity::Warn) > 0 {
        Some(count_sev(v, Severity::Warn) as usize)
    } else {
        None
    });
    assert(crate::text::lookup(m@, Severity::Info.name()) == if count_sev(v, Severity::Info) > 0 {
        Some(count_sev(v, Severity::Info) as usize)
    } else {
        None
    });
    proof {
        crate::findings::lemma_count_sev_bound(v, Severity::Error);
        crate::findings::lemma_count_sev_bound(v, Severity::Warn);
        crate::findings::lemma_count_sev_bound(v, Severity::Info);
    }
    let e = match crate::text::map_get(&m, "error") {
        Some(x) => *x,
        None => 0,
    };
    let w = match crate::text::map_get(&m, "warn") {
        Some(x) => *x,
        None => 0,
    };
    let i = match crate::text::map_get(&m, "info") {
        Some(x) => *x,
        None => 0,
    };
    (e, w, i)
}

/// `nodes: N · edges: E · findings: F (error=a warn=b info=c)`.
pub open spec fn stats_line(g: Audiolabs) -> Seq<char> {
    let c = sev_counts(g.findings@);
    "nodes: "@ + dec(g.nodes@.len()) + " · edges: "@ + dec(g.edges@.len()) + " · findings: "@ + dec(
        g.findings@.len(),
    ) + " (error="@ + dec(c.0) + " warn="@ + dec(c.1) + " info="@ + dec(c.2) + ")"@
}

/// Header of `AGAL.md`.
pub open spec fn agal_head(g: Option<Audiolabs>, out: Seq<char>) -> Seq<char> {
    let (project, generated, version, health_s, stats) = match g {
        Some(gr) => (gr.project_name@, gr.generated_at@, gr.version@, health_of(fviews(gr.findings@)).name(), stats_line(gr)),
        None => ("(unknown — run `agal .`)"@, "skills-sync"@, AGAL_VERSION@, "n/a"@, "map not loaded — run `agal .` for full graph"@),
    };
    "# AGAL\n\n**Summary:** agal-owned agent orientation for this workspace.  \nRegenerated by `agal .` and `agal skills sync` — **do not hand-edit**.  \nPut product / team rules in the workspace-root **`AGENTS.md`** and point here.\n\nproject: **"@
        + project + "**  \ngenerated: `"@ + generated + "`  \ntool: agal "@ + version + "  \nhealth: **"@ + health_s
        + "**  \n"@ + stats + "  \noutput: `"@ + out + "/`\n\n"@
}

/// Findings of one severity, in order.
pub open spec fn of_severity(fs: Seq<FindingView>, sv: Severity) -> Seq<FindingView>
    decreases fs.len(),
{
    if fs.len() == 0 {
        fs
    } else if fs.last().0 == sv {
        of_severity(fs.drop_last(), sv).push(fs.last())
    } else {
        of_severity(fs.drop_last(), sv)
    }
}

/// At most `max` characters, with `…` when some were cut.
pub open spec fn truncate_chars(s: Seq<char>, max: nat) -> Seq<char> {
    if s.len() > max {
        s.take(max as int).push('…')
    } else {
        s
    }
}

/// A node id without its `plugins/` / `crates/` prefix.
pub open spec fn short_of(id: Seq<char>) -> Seq<char> {
    drop_prefixes(drop_prefixes(id, "plugins/"@), "crates/"@)
}

/// One focus-strip line.
pub open spec fn focus_line(f: FindingView) -> Seq<char> {
    "- ["@ + f.0.name() + "] **"@ + f.1 + "**: "@ + truncate_chars(f.3, 100) + match f.2 {
        Some(n) => " · `"@ + short_of(n) + "`"@,
        None => Seq::empty(),
    } + match f.4 {
        Some(p) => " · `"@ + p + "`"@,
        None => Seq::empty(),
    } + match f.5 {
        Some(x) => " · fix: "@ + truncate_chars(x, 80),
        None => Seq::empty(),
    } + "\n"@
}

pub open spec fn focus_lines(fs: Seq<FindingView>) -> Seq<char>
    decreases fs.len(),
{
    if fs.len() == 0 {
        Seq::empty()
    } else {
        focus_lines(fs.drop_last()) + focus_line(fs.last())
    }
}

/// The L3 strip: the first eight errors then warnings, when health is not ok.
pub open spec fn focus_strip(fs: Seq<FindingView>) -> Seq<char> {
    let h = health_of(fs);
    let items = of_severity(fs, Severity::Error) + of_severity(fs, Severity::Warn);
    if h == Health::Okay || items.len() == 0 {
        Seq::empty()
    } else {
        "## Focus (health = **"@ + h.name() + "**)\n\nFix these before feature work. Full list: `agal.agent.md`.\n\n"@
            + focus_lines(first_n(items, 8)) + if items.len() > 8 {
            "\n_… "@ + dec((items.len() - 8) as nat) + " more error/warn in `agal.agent.md`._\n\n"@
        } else {
            "\n"@
        }
    }
}

/// Short name of a skill directory (`04-ui` → `ui`).
pub open spec fn group_short(d: Seq<char>) -> Seq<char> {
    if d == "00-core"@ {
        "core"@
    } else if d == "01-policy"@ {
        "policy"@
    } else if d == "02-frameworks"@ {
        "frameworks"@
    } else if d == "03-formats"@ {
        "formats"@
    } else if d == "04-ui"@ {
        "ui"@
    } else if d == "05-migrations"@ {
        "migrations"@
    } else if d == "06-agents"@ {
        "agents"@
    } else {
        d
    }
}

pub fn skill_group_short(d: &str) -> (r: String)
    ensures
        r@ == group_short(d@),
{
    let r = if str_eq(d, "00-core") {
        "core"
    } else if str_eq(d, "01-policy") {
        "policy"
    } else if str_eq(d, "02-frameworks") {
        "frameworks"
    } else if str_eq(d, "03-formats") {
        "formats"
    } else if str_eq(d, "04-ui") {
        "ui"
    } else if str_eq(d, "05-migrations") {
        "migrations"
    } else if str_eq(d, "06-agents") {
        "agents"
    } else {
        d
    };
    owned(r)
}

/// Group of an indexed file (`skills/<dir>/…`).
pub open spec fn entry_group(rel: Seq<char>) -> Option<Seq<char>> {
    if starts_with(rel, "skills/"@) {
        Some(group_short(split_on(rel.skip(7), '/')[0]))
    } else {
        None
    }
}

/// Groups present in the index.
pub open spec fn index_groups(idx: Seq<IndexView>) -> Set<Seq<char>> {
    Set::new(|g: Seq<char>| exists|i: int| 0 <= i < idx.len() && entry_group(#[trigger] idx[i].2) == Some(g))
}

/// `Equipped (on disk)` section: what is synced under `skills/`.
pub open spec fn equipped(skills: Option<Seq<IndexView>>) -> Seq<char> {
    "## Equipped (on disk)\n\n"@ + match skills {
        None => "_no `skills/` yet_ — run `agal skills sync` (default: **core**).\n\n"@,
        Some(idx) => if idx.len() == 0 {
            "_`skills/` empty_ — run `agal skills sync` (default: **core**).\n\n"@
        } else {
            "**"@ + dec(idx.len()) + "** skill file(s) · groups: **"@ + join(canon(index_groups(idx)), ", "@)
                + "**  \nCatalog + full index below. Sync more: `agal skills sync --only …`.\n\n"@
        },
    }
}

/// Meta line of an index entry (triggers, verify).
pub open spec fn entry_meta(e: IndexView) -> Seq<char> {
    let m = match e.3 {
        Some(t) => seq!["triggers: "@ + t],
        None => Seq::<Seq<char>>::empty(),
    } + match e.4 {
        Some(v) => seq!["verify: "@ + v],
        None => Seq::<Seq<char>>::empty(),
    };
    if m.len() > 0 {
        "  · "@ + join(m, " · "@) + "\n"@
    } else {
        Seq::empty()
    }
}

pub open spec fn index_lines(idx: Seq<IndexView>) -> Seq<char>
    decreases idx.len(),
{
    if idx.len() == 0 {
        Seq::empty()
    } else {
        let e = idx.last();
        index_lines(idx.drop_last()) + "- **"@ + e.0 + "** — "@ + e.1 + " · [`"@ + e.2 + "`](./"@ + e.2 + ")\n"@
            + entry_meta(e)
    }
}

/// Skill packs section with the live index.
pub open spec fn packs_index(skills: Option<Seq<IndexView>>) -> Seq<char> {
    AGAL_PACKS@ + match skills {
        None => "### present\n\n_no `skills/` yet — run `agal skills sync`._\n\n"@,
        Some(idx) => if idx.len() == 0 {
            "### present\n\n_`skills/` empty — run `agal skills sync` (core)._\n\n"@
        } else {
            "### present (id · summary · path)\n\n"@ + index_lines(idx) + "\n"@
        },
    }
}

/// Migration lines of the open migrations.
pub open spec fn mig_lines(ms: Seq<(String, crate::MigrationDetail)>) -> Seq<char>
    decreases ms.len(),
{
    if ms.len() == 0 {
        Seq::empty()
    } else {
        mig_lines(ms.drop_last()) + mig_line(ms.last().0, ms.last().1)
    }
}

/// One open-migration line (nothing when no plugin is on the legacy side).
pub open spec fn mig_line(id: String, d: crate::MigrationDetail) -> Seq<char> {
    if d.legacy_count > 0 {
        "- **"@ + id@ + "** `"@ + d.from@ + "`→`"@ + d.to@ + "`: "@ + dec(d.legacy_count as nat) + " legacy ("@
            + join(strs(d.legacy_plugins@), ", "@) + ")\n"@
    } else {
        Seq::empty()
    }
}

fn push_mig_line(s: &mut String, id: &String, d: &crate::MigrationDetail)
    ensures
        final(s)@ == old(s)@ + mig_line(*id, *d),
{
    if d.legacy_count > 0 {
        push_str(s, "- **");
        push_str(s, id.as_str());
        push_str(s, "** `");
        push_str(s, d.from.as_str());
        push_str(s, "`→`");
        push_str(s, d.to.as_str());
        push_str(s, "`: ");
        push_usize(s, d.legacy_count);
        push_str(s, " legacy (");
        let j = join_strings(&d.legacy_plugins, ", ");
        push_str(s, j.as_str());
        push_str(s, ")\n");
    } else {
        assert(s@ =~= s@ + Seq::<char>::empty());
    }
}

/// Migration section: open legacy work, or one quiet line when complete.
pub open spec fn migration_section(ms: crate::MigrationSummary) -> Seq<char> {
    if ms.migrations@.len() == 0 {
        Seq::empty()
    } else if ms.total_legacy > 0 {
        "## migration (open)\nplugins: "@ + dec(ms.total_plugins as nat) + " · **legacy: "@ + dec(ms.total_legacy as nat)
            + "** · migrated: "@ + dec(ms.total_migrated as nat) + "\n\n"@ + mig_lines(ms.migrations@) + "\n"@
    } else if ms.total_migrated > 0 {
        "## migration\n_complete_ — "@ + dec(ms.total_migrated as nat) + " plugins on target adapters (no open legacy).\n\n"@
    } else {
        Seq::empty()
    }
}

/// Pointer block for the workspace-root `AGENTS.md`.
pub open spec fn root_agents(out: Seq<char>) -> Seq<char> {
    "## Root AGENTS.md (yours)\n\nagal **never** overwrites the workspace-root `AGENTS.md`.  \nMinimal hook (keep your own rules above/below):\n\n```markdown\n## Orientation (agal)\nRead **`"@
        + out + "/AGAL.md`** first for map, health, and skills.\n```\n\n"@
}

/// `AGAL.md`.
pub open spec fn agal_md(g: Option<Audiolabs>, skills: Option<Seq<IndexView>>, out: Seq<char>) -> Seq<char> {
    agal_head(g, out) + match g {
        Some(gr) => focus_strip(fviews(gr.findings@)),
        None => Seq::empty(),
    } + equipped(skills) + root_agents(out) + agal_guide() + match g {
        Some(gr) => migration_section(gr.migration_summary),
        None => Seq::empty(),
    } + packs_index(skills) + AGAL_TAIL@
}

fn stats_text(g: &Audiolabs) -> (r: String)
    ensures
        r@ == stats_line(*g),
{
    let (e, w, i) = severity_counts(&g.findings);
    let mut r = owned("nodes: ");
    push_usize(&mut r, g.nodes.len());
    push_str(&mut r, " · edges: ");
    push_usize(&mut r, g.edges.len());
    push_str(&mut r, " · findings: ");
    push_usize(&mut r, g.findings.len());
    push_str(&mut r, " (error=");
    push_usize(&mut r, e);
    push_str(&mut r, " warn=");
    push_usize(&mut r, w);
    push_str(&mut r, " info=");
    push_usize(&mut r, i);
    push_str(&mut r, ")");
    r
}

fn push_agal_head(s: &mut String, g: Option<&Audiolabs>, out: &str)
    ensures
        final(s)@ == old(s)@ + agal_head(
            match g {
                Some(x) => Some(*x),
                None => None,
            },
            out@,
        ),
{
    let (project, generated, version, health_s, stats) = match g {
        Some(gr) => (
            gr.project_name.clone(),
            gr.generated_at.clone(),
            gr.version.clone(),
            owned(health(&gr.findings).as_str()),
            stats_text(gr),
        ),
        None => (
            owned("(unknown — run `agal .`)"),
            owned("skills-sync"),
            owned(AGAL_VERSION),
            owned("n/a"),
            owned("map not loaded — run `agal .` for full graph"),
        ),
    };
    push_str(
        s,
        "# AGAL\n\n**Summary:** agal-owned agent orientation for this workspace.  \nRegenerated by `agal .` and `agal skills sync` — **do not hand-edit**.  \nPut product / team rules in the workspace-root **`AGENTS.md`** and point here.\n\nproject: **",
    );
    push_str(s, project.as_str());
    push_str(s, "**  \ngenerated: `");
    push_str(s, generated.as_str());
    push_str(s, "`  \ntool: agal ");
    push_str(s, version.as_str());
    push_str(s, "  \nhealth: **");
    push_str(s, health_s.as_str());
    push_str(s, "**  \n");
    push_str(s, stats.as_str());
    push_str(s, "  \noutput: `");
    push_str(s, out);
    push_str(s, "/`\n\n");
}

/// Findings of one severity (copies, in order).
pub(crate) fn findings_with(fs: &Vec<Finding>, sv: Severity) -> (r: Vec<Finding>)
    ensures
        fviews(r@) == of_severity(fviews(fs@), sv),
{
    let mut r: Vec<Finding> = Vec::new();
    let mut i: usize = 0;
    while i < fs.len()
        invariant
            i <= fs@.len(),
            fviews(r@) == of_severity(fviews(fs@).take(i as int), sv),
        decreases fs@.len() - i,
    {
        assert(fviews(fs@).take(i + 1).drop_last() =~= fviews(fs@).take(i as int));
        assert(fviews(fs@).take(i + 1).last() == fs@[i as int]@);
        if fs[i].severity == sv {
            let c = fs[i].copy();
            proof {
                crate::findings::lemma_fviews_push(r@, c);
            }
            r.push(c);
        }
        i = i + 1;
    }
    assert(fviews(fs@).take(fs@.len() as int) =~= fviews(fs@));
    r
}

/// At most `max` characters, `…` appended when some were cut.
pub fn truncate_line(s: &str, max: usize) -> (r: String)
    ensures
        r@ == truncate_chars(s@, max as nat),
{
    let x = chars_of(s);
    if x.len() > max {
        let mut r = slice_string(&x, 0, max);
        crate::text::push_char(&mut r, '…');
        assert(x@.subrange(0, max as int) =~= s@.take(max as int));
        r
    } else {
        owned(s)
    }
}

/// A node id without its `plugins/` / `crates/` prefix.
pub fn short_id(id: &str) -> (r: String)
    ensures
        r@ == short_of(id@),
{
    let a = drop_prefixes_str(id, "plugins/");
    drop_prefixes_str(a.as_str(), "crates/")
}

fn node_part(f: &Finding) -> (r: String)
    ensures
        r@ == match f@.2 {
            Some(n) => " · `"@ + short_of(n) + "`"@,
            None => Seq::<char>::empty(),
        },
{
    match &f.node {
        Some(n) => crate::text::cat3(" · `", short_id(n.as_str()).as_str(), "`"),
        None => String::new(),
    }
}

fn path_part(f: &Finding) -> (r: String)
    ensures
        r@ == match f@.4 {
            Some(p) => " · `"@ + p + "`"@,
            None => Seq::<char>::empty(),
        },
{
    match &f.path {
        Some(p) => crate::text::cat3(" · `", p.as_str(), "`"),
        None => String::new(),
    }
}

fn fix_part(f: &Finding) -> (r: String)
    ensures
        r@ == match f@.5 {
            Some(x) => " · fix: "@ + truncate_chars(x, 80),
            None => Seq::<char>::empty(),
        },
{
    match &f.fix {
        Some(x) => crate::text::cat2(" · fix: ", truncate_line(x.as_str(), 80).as_str()),
        None => String::new(),
    }
}

fn push_focus_line(s: &mut String, f: &Finding)
    ensures
        final(s)@ == old(s)@ + focus_line(f@),
{
    let ghost s0 = s@;
    let np = node_part(f);
    let pp = path_part(f);
    let fp = fix_part(f);
    let m = truncate_line(f.message.as_str(), 100);
    push_str(s, "- [");
    push_str(s, f.severity.as_str());
    push_str(s, "] **");
    push_str(s, f.code.as_str());
    push_str(s, "**: ");
    push_str(s, m.as_str());
    let ghost s1 = s@;
    assert(s1 =~= s0 + ("- ["@ + f@.0.name() + "] **"@ + f@.1 + "**: "@ + truncate_chars(f@.3, 100)));
    push_str(s, np.as_str());
    push_str(s, pp.as_str());
    push_str(s, fp.as_str());
    push_str(s, "\n");
    assert(s@ =~= s1 + np@ + pp@ + fp@ + "\n"@);
}

fn push_focus_strip(s: &mut String, fs: &Vec<Finding>)
    ensures
        final(s)@ == old(s)@ + focus_strip(fviews(fs@)),
{
    let h = health(fs);
    let mut items = findings_with(fs, Severity::Error);
    let mut warns = findings_with(fs, Severity::Warn);
    let ghost ev = fviews(items@);
    let ghost wv = fviews(warns@);
    items.append(&mut warns);
    assert(fviews(items@) =~= ev + wv);
    if h == Health::Okay || items.len() == 0 {
        assert(s@ =~= s@ + Seq::<char>::empty());
        return;
    }
    let ghost s0 = s@;
    push_str(s, "## Focus (health = **");
    push_str(s, h.as_str());
    push_str(s, "**)\n\nFix these before feature work. Full list: `agal.agent.md`.\n\n");
    let ghost s1 = s@;
    let ghost iv = fviews(items@);
    let mut i: usize = 0;
    while i < items.len() && i < 8
        invariant
            i <= items@.len(),
            i <= 8,
            iv == fviews(items@),
            s@ == s1 + focus_lines(iv.take(i as int)),
        decreases items@.len() - i,
    {
        assert(iv.take(i + 1).drop_last() =~= iv.take(i as int));
        assert(iv.take(i + 1).last() == items@[i as int]@);
        push_focus_line(s, &items[i]);
        i = i + 1;
    }
    if items.len() <= 8 {
        assert(iv.take(items@.len() as int) =~= iv);
    }
    if items.len() > 8 {
        push_str(s, "\n_… ");
        push_usize(s, items.len() - 8);
        push_str(s, " more error/warn in `agal.agent.md`._\n\n");
    } else {
        push_str(s, "\n");
    }
    assert(s@ =~= s0 + focus_strip(fviews(fs@)));
}

fn entry_group_of(rel: &str) -> (r: Option<String>)
    ensures
        opt_view(r) == entry_group(rel@),
{
    proof {
        reveal_strlit("skills/");
    }
    if starts_with_str(rel, "skills/") {
        let rest = after(rel, 7);
        let parts = split_char(rest.as_str(), '/');
        proof {
            crate::text::lemma_split_nonempty(rest@, '/');
        }
        assert(strs(parts@)[0] == parts@[0]@);
        Some(skill_group_short(parts[0].as_str()))
    } else {
        None
    }
}

fn push_equipped(s: &mut String, skills: Option<&Vec<SkillIndexEntry>>)
    ensures
        final(s)@ == old(s)@ + equipped(
            match skills {
                Some(v) => Some(index_views(v@)),
                None => None,
            },
        ),
{
    push_str(s, "## Equipped (on disk)\n\n");
    match skills {
        None => {
            push_str(s, "_no `skills/` yet_ — run `agal skills sync` (default: **core**).\n\n");
        },
        Some(idx) => {
            if idx.len() == 0 {
                push_str(s, "_`skills/` empty_ — run `agal skills sync` (default: **core**).\n\n");
            } else {
                let ghost iv = index_views(idx@);
                let mut groups: Vec<String> = Vec::new();
                let mut i: usize = 0;
                while i < idx.len()
                    invariant
                        iv == index_views(idx@),
                        i <= idx@.len(),
                        crate::text::is_set(groups@),
                        strs(groups@).to_set() == index_groups(iv.take(i as int)),
                    decreases idx@.len() - i,
                {
                    let ghost before = index_groups(iv.take(i as int));
                    let g = entry_group_of(idx[i].rel_path.as_str());
                    assert(iv[i as int].2 == idx@[i as int].rel_path@);
                    match g {
                        Some(x) => {
                            let ghost xv = x@;
                            crate::text::set_insert(&mut groups, x);
                            assert(index_groups(iv.take(i + 1)) =~= before.insert(xv)) by {
                                assert forall|y: Seq<char>| index_groups(iv.take(i + 1)).contains(y) <==> before.insert(xv).contains(y) by {
                                    if index_groups(iv.take(i + 1)).contains(y) {
                                        let k = choose|k: int| 0 <= k < iv.take(i + 1).len() && entry_group(#[trigger] iv.take(i + 1)[k].2) == Some(y);
                                        if k < i {
                                            assert(iv.take(i as int)[k] == iv.take(i + 1)[k]);
                                        }
                                    }
                                    if before.contains(y) {
                                        let k = choose|k: int| 0 <= k < iv.take(i as int).len() && entry_group(#[trigger] iv.take(i as int)[k].2) == Some(y);
                                        assert(iv.take(i + 1)[k] == iv.take(i as int)[k]);
                                    }
                                    if y == xv {
                                        assert(iv.take(i + 1)[i as int] == iv[i as int]);
                                    }
                                }
                            }
                        },
                        None => {
                            assert(index_groups(iv.take(i + 1)) =~= before) by {
                                assert forall|y: Seq<char>| index_groups(iv.take(i + 1)).contains(y) <==> before.contains(y) by {
                                    if index_groups(iv.take(i + 1)).contains(y) {
                                        let k = choose|k: int| 0 <= k < iv.take(i + 1).len() && entry_group(#[trigger] iv.take(i + 1)[k].2) == Some(y);
                                        if k < i {
                                            assert(iv.take(i as int)[k] == iv.take(i + 1)[k]);
                                        } else {
                                            assert(iv.take(i + 1)[k] == iv[i as int]);
                                        }
                                    }
                                    if before.contains(y) {
                                        let k = choose|k: int| 0 <= k < iv.take(i as int).len() && entry_group(#[trigger] iv.take(i as int)[k].2) == Some(y);
                                        assert(iv.take(i + 1)[k] == iv.take(i as int)[k]);
                                    }
                                }
                            }
                        },
                    }
                    i = i + 1;
                }
                assert(iv.take(idx@.len() as int) =~= iv);
                proof {
                    crate::text::lemma_canon(strs(groups@));
                }
                let gl = join_strings(&groups, ", ");
                push_str(s, "**");
                push_usize(s, idx.len());
                push_str(s, "** skill file(s) · groups: **");
                push_str(s, gl.as_str());
                push_str(s, "**  \nCatalog + full index below. Sync more: `agal skills sync --only …`.\n\n");
            }
        },
    }
}

fn push_entry_meta(s: &mut String, e: &SkillIndexEntry)
    ensures
        final(s)@ == old(s)@ + entry_meta(e@),
{
    let mut meta: Vec<String> = Vec::new();
    if let Some(t) = &e.triggers {
        meta.push(crate::text::cat2("triggers: ", t.as_str()));
    }
    let ghost m1 = strs(meta@);
    if let Some(v) = &e.verify {
        let ghost m0 = meta@;
        meta.push(crate::text::cat2("verify: ", v.as_str()));
        proof {
            lemma_strs_push(m0, meta@.last());
        }
    }
    assert(strs(meta@) =~= match e@.3 {
        Some(t) => seq!["triggers: "@ + t],
        None => Seq::<Seq<char>>::empty(),
    } + match e@.4 {
        Some(v) => seq!["verify: "@ + v],
        None => Seq::<Seq<char>>::empty(),
    });
    if meta.len() > 0 {
        push_str(s, "  · ");
        let j = join_strings(&meta, " · ");
        push_str(s, j.as_str());
        push_str(s, "\n");
    } else {
        assert(s@ =~= s@ + Seq::<char>::empty());
    }
}

#[verifier::rlimit(80)]
#[verifier::spinoff_prover]
fn push_packs_index(s: &mut String, skills: Option<&Vec<SkillIndexEntry>>)
    ensures
        final(s)@ == old(s)@ + packs_index(
            match skills {
                Some(v) => Some(index_views(v@)),
                None => None,
            },
        ),
{
    push_str(s, AGAL_PACKS);
    match skills {
        None => {
            push_str(s, "### present\n\n_no `skills/` yet — run `agal skills sync`._\n\n");
        },
        Some(idx) => {
            if idx.len() == 0 {
                push_str(s, "### present\n\n_`skills/` empty — run `agal skills sync` (core)._\n\n");
            } else {
                push_str(s, "### present (id · summary · path)\n\n");
                let ghost s1 = s@;
                let ghost iv = index_views(idx@);
                let mut i: usize = 0;
                while i < idx.len()
                    invariant
                        iv == index_views(idx@),
                        i <= idx@.len(),
                        s@ == s1 + index_lines(iv.take(i as int)),
                    decreases idx@.len() - i,
                {
                    assert(iv.take(i + 1).drop_last() =~= iv.take(i as int));
                    assert(iv.take(i + 1).last() == idx@[i as int]@);
                    let e = &idx[i];
                    let ghost s2 = s@;
                    push_str(s, "- **");
                    push_str(s, e.id.as_str());
                    push_str(s, "** — ");
                    push_str(s, e.summary.as_str());
                    push_str(s, " · [`");
                    push_str(s, e.rel_path.as_str());
                    push_str(s, "`](./");
                    push_str(s, e.rel_path.as_str());
                    push_str(s, ")\n");
                    push_entry_meta(s, e);
                    i = i + 1;
                }
                assert(iv.take(idx@.len() as int) =~= iv);
                push_str(s, "\n");
            }
        },
    }
}

fn push_migration_section(s: &mut String, ms: &crate::MigrationSummary)
    ensures
        final(s)@ == old(s)@ + migration_section(*ms),
{
    if ms.migrations.len() == 0 {
        assert(s@ =~= s@ + Seq::<char>::empty());
        return;
    }
    if ms.total_legacy > 0 {
        push_str(s, "## migration (open)\nplugins: ");
        push_usize(s, ms.total_plugins);
        push_str(s, " · **legacy: ");
        push_usize(s, ms.total_legacy);
        push_str(s, "** · migrated: ");
        push_usize(s, ms.total_migrated);
        push_str(s, "\n\n");
        let ghost s1 = s@;
        let mut i: usize = 0;
        while i < ms.migrations.len()
            invariant
                i <= ms.migrations@.len(),
                s@ == s1 + mig_lines(ms.migrations@.take(i as int)),
            decreases ms.migrations@.len() - i,
        {
            assert(ms.migrations@.take(i + 1).drop_last() =~= ms.migrations@.take(i as int));
            push_mig_line(s, &ms.migrations[i].0, &ms.migrations[i].1);
            i = i + 1;
        }
        assert(ms.migrations@.take(ms.migrations@.len() as int) =~= ms.migrations@);
        push_str(s, "\n");
        return;
    }
    if ms.total_migrated > 0 {
        push_str(s, "## migration\n_complete_ — ");
        push_usize(s, ms.total_migrated);
        push_str(s, " plugins on target adapters (no open legacy).\n\n");
    } else {
        assert(s@ =~= s@ + Seq::<char>::empty());
    }
}

/// The agal-owned orientation entry `AGAL.md`: header, focus strip (with a
/// graph), equipped skills, root pointer, layers and budget, migration,
/// skill packs with the live index, artifacts and commands.
pub fn render_agal_md(
    graph: Option<&Audiolabs>,
    skills: Option<&Vec<SkillIndexEntry>>,
    output_dir_name: &str,
) -> (s: String)
    ensures
        s@ == agal_md(
            match graph {
                Some(g) => Some(*g),
                None => None,
            },
            match skills {
                Some(v) => Some(index_views(v@)),
                None => None,
            },
            output_dir_name@,
        ),
{
    let mut s = String::new();
    push_agal_head(&mut s, graph, output_dir_name);
    if let Some(g) = graph {
        push_focus_strip(&mut s, &g.findings);
    }
    let ghost a = s@;
    push_equipped(&mut s, skills);
    push_str(
        &mut s,
        "## Root AGENTS.md (yours)\n\nagal **never** overwrites the workspace-root `AGENTS.md`.  \nMinimal hook (keep your own rules above/below):\n\n```markdown\n## Orientation (agal)\nRead **`",
    );
    push_str(&mut s, output_dir_name);
    push_str(&mut s, "/AGAL.md`** first for map, health, and skills.\n```\n\n");
    push_guide(&mut s);
    let ghost b = s@;
    if let Some(g) = graph {
        push_migration_section(&mut s, &g.migration_summary);
    }
    let ghost c = s@;
    push_packs_index(&mut s, skills);
    push_str(&mut s, AGAL_TAIL);
    proof {
        let gg = match graph {
            Some(g) => Some(*g),
            None => None::<Audiolabs>,
        };
        let sk = match skills {
            Some(v) => Some(index_views(v@)),
            None => None::<Seq<IndexView>>,
        };
        assert(s@ =~= agal_md(gg, sk, output_dir_name@));
    }
    s
}

// ---------------------------------------------------------------------------
// agal.agent.md
// ---------------------------------------------------------------------------

/// Read-order section closing `agal.agent.md`.
pub const AGENT_READ_ORDER: &'static str = "## read order\nDisclosure: **L3** `AGAL.md` → **L2** this file (+ delta) → **L1** one note → **L0** slice/json.  \nOpen the next layer only if the current one is not enough.\n\n1. **L3** **`AGAL.md`** (orientation — skills + budget / loadouts / disclosure).  \n2. **L2** **this file** (structural map + health).  \n3. If health is **blocked**, fix error findings first (path + fix fields).  \n4. **L2** **`agal.delta.md`** if present.  \n5. **L1** **`notes/<focus>.md`** (**one** note; scan `[ATOM]` first).  \n6. **loadout** — skills on demand from `AGAL.md` (never dump all; **≤1** skill file).  \n7. **L0** escalate: `agal --plugin NAME .` slice, or `agal.json`.  \n8. HTML is for humans (overview); agents prefer md/json.  \n\nSkills are **not** auto-copied on generate — `agal skills sync` (default: **core** only).  \nExisting `*.slice.json` files are refreshed on every generate; new slices need `--plugin NAME`.  \nHuman CLI cheatsheet: **`Cheatsheet.md`** in this folder.\n\n";

/// Edge kinds in the order the map lists them.
pub open spec fn edge_kinds() -> Seq<Seq<char>> {
    seq!["depends_on"@, "build_depends_on"@, "dev_depends_on"@, "uses_ui"@, "ipc_peer"@, "runtime_depends_on"@]
}

/// Role tags of a source summary (file roles, plus `ipc` with strong IPC).
pub open spec fn roles_of(a: crate::ast::AstSummary) -> Set<Seq<char>> {
    if crate::ast::strong_ipc_in(strs(a.ipc_signals@)) {
        crate::ast::role_values(a.file_roles@).to_set().insert("ipc"@)
    } else {
        crate::ast::role_values(a.file_roles@).to_set()
    }
}

/// `x` when `cond` holds, else nothing (one item of a space-joined list).
pub open spec fn item_if(cond: bool, x: Seq<char>) -> Seq<Seq<char>> {
    if cond {
        seq![x]
    } else {
        Seq::empty()
    }
}

/// Node ids without their folder prefixes.
pub open spec fn shorts(ids: Seq<Seq<char>>) -> Seq<Seq<char>> {
    ids.map_values(|x: Seq<char>| short_of(x))
}

/// Extras of a plugin line: logic, params, ipc, Slint components, roles.
pub open spec fn plugin_extras(a: crate::ast::AstSummary) -> Seq<Seq<char>> {
    let logic = strs(a.plugin_logic_impls@);
    let params = strs(a.params_structs@);
    let ipc = strs(a.ipc_signals@);
    let roles = canon(roles_of(a));
    item_if(logic.len() > 0, "logic="@ + logic[0]) + item_if(
        params.len() > 0,
        "params="@ + params[0] + "("@ + dec(
            match crate::text::lookup(a.params_fields@, params[0]) {
                Some(f) => f@.len(),
                None => 0,
            },
        ) + ")"@,
    ) + item_if(ipc.len() > 0, "ipc="@ + join(ipc, ","@)) + item_if(
        a.slint_components@.len() > 0,
        "slint_comp="@ + dec(a.slint_components@.len()),
    ) + item_if(roles.len() > 0, "roles="@ + join(roles, ","@))
}

/// Migration badge of a plugin with open work.
pub open spec fn mig_badge(st: Option<Seq<char>>) -> Seq<char> {
    if st == Some("legacy"@) {
        " [legacy]"@
    } else if st == Some("unknown"@) {
        " [mig=?]"@
    } else {
        Seq::empty()
    }
}

/// One plugin line of the map.
pub open spec fn plugin_line_of(n: crate::Node) -> Seq<char> {
    let extras = match n.ast_summary {
        Some(a) => plugin_extras(a),
        None => Seq::empty(),
    };
    "- **"@ + n.name@ + "** `"@ + n.id@ + "`"@ + mig_badge(opt_view(n.migration_status)) + " fw=`"@ + join(
        strs(n.frameworks@),
        "+"@,
    ) + "` deps=["@ + join(shorts(strs(n.internal_deps@)), ", "@) + "] "@ + join(extras, " "@)
}

/// Extras of a crate line: api, Slint exports, ipc, process methods.
pub open spec fn crate_extras(a: crate::ast::AstSummary) -> Seq<Seq<char>> {
    item_if(a.public_api@.len() > 0, "api="@ + dec(a.public_api@.len())) + item_if(
        a.slint_exports@.len() > 0,
        "slint_export="@ + dec(a.slint_exports@.len()),
    ) + item_if(a.ipc_signals@.len() > 0, "ipc="@ + join(strs(a.ipc_signals@), ","@)) + item_if(
        a.process_method_count > 0,
        "process_methods="@ + dec(a.process_method_count as nat),
    )
}

/// One crate line of the map.
pub open spec fn crate_line_of(n: crate::Node) -> Seq<char> {
    let extras = match n.ast_summary {
        Some(a) => crate_extras(a),
        None => Seq::empty(),
    };
    "- **"@ + n.name@ + "** `"@ + n.id@ + "` deps=["@ + join(shorts(strs(n.internal_deps@)), ", "@) + "] "@ + join(
        extras,
        " "@,
    )
}

/// Severity icon of a finding line.
pub open spec fn icon(s: Severity) -> Seq<char> {
    match s {
        Severity::Error => "ERR"@,
        Severity::Warn => "WRN"@,
        Severity::Info => "INF"@,
    }
}

/// One finding line of the map.
pub open spec fn finding_line_of(f: FindingView) -> Seq<char> {
    "- ["@ + icon(f.0) + "] **"@ + f.1 + "**"@ + match f.2 {
        Some(n) => " `"@ + short_of(n) + "`"@,
        None => Seq::empty(),
    } + ": "@ + f.3 + match f.4 {
        Some(p) => " · path=`"@ + p + "`"@,
        None => Seq::empty(),
    } + match f.5 {
        Some(x) => " · fix: "@ + x,
        None => Seq::empty(),
    }
}

/// Lines for the nodes of one kind.
pub open spec fn node_lines(ns: Seq<crate::Node>, plugin: bool) -> Seq<char>
    decreases ns.len(),
{
    if ns.len() == 0 {
        Seq::empty()
    } else {
        let n = ns.last();
        node_lines(ns.drop_last(), plugin) + if plugin && n.kind@ == "plugin"@ {
            plugin_line_of(n) + "\n"@
        } else if !plugin && n.kind@ == "crate"@ {
            crate_line_of(n) + "\n"@
        } else {
            Seq::empty()
        }
    }
}

/// One edge line.
pub open spec fn edge_line(e: crate::Edge) -> Seq<char> {
    "- `"@ + short_of(e.from@) + "` → `"@ + short_of(e.to@) + "`"@ + match e.note {
        Some(n) => " — "@ + n@,
        None => Seq::empty(),
    } + "\n"@
}

/// Lines of the edges of one kind.
pub open spec fn edges_of_kind(es: Seq<crate::Edge>, kind: Seq<char>) -> Seq<char>
    decreases es.len(),
{
    if es.len() == 0 {
        Seq::empty()
    } else {
        edges_of_kind(es.drop_last(), kind) + if es.last().kind@ == kind {
            edge_line(es.last())
        } else {
            Seq::empty()
        }
    }
}

/// Some edge has this kind.
pub open spec fn has_kind(es: Seq<crate::Edge>, kind: Seq<char>) -> bool {
    exists|i: int| 0 <= i < es.len() && (#[trigger] es[i]).kind@ == kind
}

/// Edge groups for the first `k` kinds.
pub open spec fn edge_groups(es: Seq<crate::Edge>, k: nat) -> Seq<char>
    decreases k,
{
    if k == 0 {
        Seq::empty()
    } else {
        let kind = edge_kinds()[k - 1];
        edge_groups(es, (k - 1) as nat) + if has_kind(es, kind) {
            "### "@ + kind + "\n"@ + edges_of_kind(es, kind)
        } else {
            Seq::empty()
        }
    }
}

pub open spec fn finding_lines(fs: Seq<FindingView>) -> Seq<char>
    decreases fs.len(),
{
    if fs.len() == 0 {
        Seq::empty()
    } else {
        finding_lines(fs.drop_last()) + finding_line_of(fs.last()) + "\n"@
    }
}

/// Header of the map.
pub open spec fn agent_head(g: Audiolabs) -> Seq<char> {
    "# agal agent summary\n\n**Summary:** Compact structural map of this audio-plugin workspace.  \nLists plugins, crates, frameworks, migrations, edges, and findings.  \nUse as first context before opening the full JSON graph.\n\nproject: **"@
        + g.project_name@ + "**  \ngenerated: `"@ + g.generated_at@ + "`  \nversion: "@ + g.version@
        + "  \nhealth: **"@ + health_of(fviews(g.findings@)).name() + "**  \n"@ + stats_line(g) + (if g.findings_suppressed > 0 {
        " · suppressed: "@ + dec(g.findings_suppressed as nat) + " (see agal.toml)"@
    } else {
        Seq::empty()
    }) + "\n\n"@
}

/// Frameworks and rules sections.
pub open spec fn agent_context(g: Audiolabs) -> Seq<char> {
    let used = canon(strs(g.used_frameworks@).to_set());
    (if used.len() > 0 {
        "## frameworks detected\n"@ + join(used, ", "@) + "\n\n"@
    } else {
        Seq::empty()
    }) + (if g.rules@.len() > 0 {
        "## rules\n"@ + rule_lines(g.rules@) + "\n"@
    } else {
        Seq::empty()
    })
}

pub open spec fn rule_lines(rs: Seq<(String, String)>) -> Seq<char>
    decreases rs.len(),
{
    if rs.len() == 0 {
        Seq::empty()
    } else {
        rule_lines(rs.drop_last()) + "- **"@ + rs.last().0@ + "**: "@ + rs.last().1@ + "\n"@
    }
}

/// Plugins, crates and edges sections.
pub open spec fn agent_structure(g: Audiolabs) -> Seq<char> {
    "## plugins\n"@ + node_lines(g.nodes@, true) + "\n## crates\n"@ + node_lines(g.nodes@, false) + "\n## edges\n"@
        + edge_groups(g.edges@, 6) + "\n"@
}

/// Findings section: errors and warnings only.
pub open spec fn agent_findings(g: Audiolabs) -> Seq<char> {
    let c = sev_counts(g.findings@);
    let act = crate::findings::actionable_of(fviews(g.findings@));
    "## findings (error="@ + dec(c.0) + " warn="@ + dec(c.1) + " · info="@ + dec(c.2) + " in json/html)\nhealth **"@
        + health_of(fviews(g.findings@)).name() + "** — if **blocked**, fix errors before feature work.\n"@ + if act.len()
        == 0 {
        "_no error/warn_\n\n"@
    } else {
        finding_lines(act) + "\n"@
    }
}

/// Compact change lines of a delta.
pub open spec fn change_lines(cs: Seq<crate::delta::NodeChange>) -> Seq<char>
    decreases cs.len(),
{
    if cs.len() == 0 {
        Seq::empty()
    } else {
        change_lines(cs.drop_last()) + "- **"@ + short_of(cs.last().id@) + "**: "@ + join(strs(cs.last().changes@), "; "@)
            + "\n"@
    }
}

/// Lines of new findings; the map is given only errors and warnings.
pub open spec fn new_lines(fs: Seq<FindingView>) -> Seq<char>
    decreases fs.len(),
{
    if fs.len() == 0 {
        Seq::empty()
    } else {
        new_lines(fs.drop_last()) + "- NEW "@ + drop_prefixes(finding_line_of(fs.last()), "- "@) + "\n"@
    }
}

pub open spec fn resolved_lines(fs: Seq<FindingView>) -> Seq<char>
    decreases fs.len(),
{
    if fs.len() == 0 {
        Seq::empty()
    } else {
        resolved_lines(fs.drop_last()) + "- RESOLVED ["@ + fs.last().0.name() + "] **"@ + fs.last().1 + "** "@ + match fs.last().2 {
            Some(n) => short_of(n),
            None => Seq::empty(),
        } + "\n"@
    }
}

/// Delta section of the map.
pub open spec fn agent_delta(d: Option<crate::delta::GraphDelta>) -> Seq<char> {
    match d {
        None => Seq::empty(),
        Some(d) => "## delta\n"@ + if d.first_run {
            "_first run — no previous graph._\n\n"@
        } else if crate::delta::empty_delta(d) {
            "_no structural changes since previous graph._\n\n"@
        } else {
            "since `"@ + crate::delta::or_q(d.previous_generated_at) + "`: +"@ + dec(d.added_nodes@.len()) + " nodes · -"@
                + dec(d.removed_nodes@.len()) + " nodes · ~"@ + dec(d.changed_nodes@.len()) + " nodes · +"@ + dec(
                d.added_edges@.len(),
            ) + " edges · -"@ + dec(d.removed_edges@.len()) + " edges · +"@ + dec(d.new_findings@.len())
                + " findings · -"@ + dec(d.resolved_findings@.len()) + " resolved\n\n"@ + change_lines(
                first_n(d.changed_nodes@, 8),
            ) + new_lines(first_n(crate::findings::actionable_of(fviews(d.new_findings@)), 6)) + resolved_lines(first_n(fviews(d.resolved_findings@), 4))
                + "\n_full: `agal.delta.md`_\n\n"@
        },
    }
}

/// Names of the nodes of one kind, in backticks.
pub open spec fn ticked_names(ns: Seq<crate::Node>, kind: Seq<char>) -> Seq<Seq<char>>
    decreases ns.len(),
{
    if ns.len() == 0 {
        Seq::empty()
    } else {
        ticked_names(ns.drop_last(), kind) + if ns.last().kind@ == kind {
            seq!["`"@ + ns.last().name@ + "`"@]
        } else {
            Seq::empty()
        }
    }
}

/// Notes index and skills pointer.
pub open spec fn agent_notes(g: Audiolabs, skill_count: nat) -> Seq<char> {
    let p = ticked_names(g.nodes@, "plugin"@);
    let c = ticked_names(g.nodes@, "crate"@);
    "## notes (focus)\n`agal/notes/<name>.md` — auto header + human body\n\n"@ + (if p.len() > 0 {
        "plugins: "@ + join(p, ", "@) + "\n\n"@
    } else {
        Seq::empty()
    }) + (if c.len() > 0 {
        "crates: "@ + join(c, ", "@) + "\n\n"@
    } else {
        Seq::empty()
    }) + "## skills\n\nFull pack list + index: **`AGAL.md`**. Load on demand only.\n\n"@ + if skill_count == 0 {
        "_no skills synced yet — `agal skills sync` (default core)._\n\n"@
    } else {
        "_"@ + dec(skill_count) + " skill file(s) under `skills/` — see AGAL.md._\n\n"@
    }
}

/// `agal.agent.md`.
pub open spec fn agent_md(g: Audiolabs, skill_count: nat) -> Seq<char> {
    agent_head(g) + agent_context(g) + migration_section(g.migration_summary) + agent_structure(g) + agent_findings(g)
        + agent_delta(g.delta) + agent_notes(g, skill_count) + AGENT_READ_ORDER@
}

pub(crate) fn push_item(v: &mut Vec<String>, x: String)
    ensures
        strs(final(v)@) == strs(old(v)@).push(x@),
{
    let ghost v0 = v@;
    v.push(x);
    proof {
        lemma_strs_push(v0, x);
    }
}

pub(crate) fn short_ids(ids: &Vec<String>) -> (r: Vec<String>)
    ensures
        strs(r@) == shorts(strs(ids@)),
{
    let mut r: Vec<String> = Vec::new();
    let mut i: usize = 0;
    while i < ids.len()
        invariant
            i <= ids@.len(),
            strs(r@) == shorts(strs(ids@)).take(i as int),
        decreases ids@.len() - i,
    {
        push_item(&mut r, short_id(ids[i].as_str()));
        assert(shorts(strs(ids@)).take(i + 1) =~= shorts(strs(ids@)).take(i as int).push(short_of(ids@[i as int]@)));
        i = i + 1;
    }
    assert(shorts(strs(ids@)).take(ids@.len() as int) =~= shorts(strs(ids@)));
    r
}

fn plugin_extras_of(a: &crate::ast::AstSummary) -> (r: Vec<String>)
    ensures
        strs(r@) == plugin_extras(*a),
{
    let mut ex: Vec<String> = Vec::new();
    if a.plugin_logic_impls.len() > 0 {
        push_item(&mut ex, crate::text::cat2("logic=", a.plugin_logic_impls[0].as_str()));
    }
    let ghost e1 = strs(ex@);
    if a.params_structs.len() > 0 {
        let p = a.params_structs[0].as_str();
        let nf: usize = match crate::text::assoc_get(&a.params_fields, p) {
            Some(f) => f.len(),
            None => 0,
        };
        let mut t = crate::text::cat3("params=", p, "(");
        push_usize(&mut t, nf);
        push_str(&mut t, ")");
        push_item(&mut ex, t);
    }
    let ghost e2 = strs(ex@);
    if a.ipc_signals.len() > 0 {
        let j = join_strings(&a.ipc_signals, ",");
        push_item(&mut ex, crate::text::cat2("ipc=", j.as_str()));
    }
    let ghost e3 = strs(ex@);
    if a.slint_components.len() > 0 {
        let mut t = owned("slint_comp=");
        push_usize(&mut t, a.slint_components.len());
        push_item(&mut ex, t);
    }
    let ghost e4 = strs(ex@);
    let roles = a.role_tags();
    proof {
        crate::text::lemma_canon(strs(roles@));
    }
    if roles.len() > 0 {
        let j = join_strings(&roles, ",");
        push_item(&mut ex, crate::text::cat2("roles=", j.as_str()));
    }
    assert(strs(ex@) =~= plugin_extras(*a));
    ex
}

/// One plugin line of the map.
pub fn plugin_line(n: &crate::Node) -> (r: String)
    ensures
        r@ == plugin_line_of(*n),
{
    proof {
        reveal_strlit("");
    }
    let badge = match &n.migration_status {
        Some(m) => if str_eq(m.as_str(), "legacy") {
            " [legacy]"
        } else if str_eq(m.as_str(), "unknown") {
            " [mig=?]"
        } else {
            ""
        },
        None => "",
    };
    assert(badge@ == mig_badge(opt_view(n.migration_status)));
    let fw = join_strings(&n.frameworks, "+");
    let extras: Vec<String> = match &n.ast_summary {
        Some(a) => plugin_extras_of(a),
        None => Vec::new(),
    };
    assert(strs(extras@) == match n.ast_summary {
        Some(a) => plugin_extras(a),
        None => Seq::<Seq<char>>::empty(),
    });
    let deps = short_ids(&n.internal_deps);
    let mut r = crate::text::cat5("- **", n.name.as_str(), "** `", n.id.as_str(), "`");
    push_str(&mut r, badge);
    push_str(&mut r, " fw=`");
    push_str(&mut r, fw.as_str());
    push_str(&mut r, "` deps=[");
    push_str(&mut r, join_strings(&deps, ", ").as_str());
    push_str(&mut r, "] ");
    push_str(&mut r, join_strings(&extras, " ").as_str());
    assert(r@ =~= plugin_line_of(*n));
    r
}

fn crate_extras_of(a: &crate::ast::AstSummary) -> (r: Vec<String>)
    ensures
        strs(r@) == crate_extras(*a),
{
    let mut ex: Vec<String> = Vec::new();
    if a.public_api.len() > 0 {
        let mut t = owned("api=");
        push_usize(&mut t, a.public_api.len());
        push_item(&mut ex, t);
    }
    if a.slint_exports.len() > 0 {
        let mut t = owned("slint_export=");
        push_usize(&mut t, a.slint_exports.len());
        push_item(&mut ex, t);
    }
    if a.ipc_signals.len() > 0 {
        let j = join_strings(&a.ipc_signals, ",");
        push_item(&mut ex, crate::text::cat2("ipc=", j.as_str()));
    }
    if a.process_method_count > 0 {
        let mut t = owned("process_methods=");
        push_usize(&mut t, a.process_method_count);
        push_item(&mut ex, t);
    }
    assert(strs(ex@) =~= crate_extras(*a));
    ex
}

/// One crate line of the map.
pub fn crate_line(n: &crate::Node) -> (r: String)
    ensures
        r@ == crate_line_of(*n),
{
    let extras: Vec<String> = match &n.ast_summary {
        Some(a) => crate_extras_of(a),
        None => Vec::new(),
    };
    assert(strs(extras@) == match n.ast_summary {
        Some(a) => crate_extras(a),
        None => Seq::<Seq<char>>::empty(),
    });
    let deps = short_ids(&n.internal_deps);
    let mut r = crate::text::cat5("- **", n.name.as_str(), "** `", n.id.as_str(), "` deps=[");
    push_str(&mut r, join_strings(&deps, ", ").as_str());
    push_str(&mut r, "] ");
    push_str(&mut r, join_strings(&extras, " ").as_str());
    r
}

/// One finding line of the map.
#[verifier::rlimit(80)]
#[verifier::spinoff_prover]
pub fn finding_line(f: &Finding) -> (r: String)
    ensures
        r@ == finding_line_of(f@),
{
    let ic = match f.severity {
        Severity::Error => "ERR",
        Severity::Warn => "WRN",
        Severity::Info => "INF",
    };
    let mut r = crate::text::cat5("- [", ic, "] **", f.code.as_str(), "**");
    let ghost r0 = r@;
    if let Some(n) = &f.node {
        push_str(&mut r, " `");
        push_str(&mut r, short_id(n.as_str()).as_str());
        push_str(&mut r, "`");
    }
    let ghost r1 = r@;
    push_str(&mut r, ": ");
    push_str(&mut r, f.message.as_str());
    let ghost r2 = r@;
    if let Some(p) = &f.path {
        push_str(&mut r, " · path=`");
        push_str(&mut r, p.as_str());
        push_str(&mut r, "`");
    }
    let ghost r3 = r@;
    if let Some(x) = &f.fix {
        push_str(&mut r, " · fix: ");
        push_str(&mut r, x.as_str());
    }
    assert(r@ =~= finding_line_of(f@));
    r
}

fn push_agent_head(s: &mut String, g: &Audiolabs)
    ensures
        final(s)@ == old(s)@ + agent_head(*g),
{
    let h = health(&g.findings);
    let stats = stats_text(g);
    let ghost s0 = s@;
    push_str(
        s,
        "# agal agent summary\n\n**Summary:** Compact structural map of this audio-plugin workspace.  \nLists plugins, crates, frameworks, migrations, edges, and findings.  \nUse as first context before opening the full JSON graph.\n\nproject: **",
    );
    push_str(s, g.project_name.as_str());
    push_str(s, "**  \ngenerated: `");
    push_str(s, g.generated_at.as_str());
    push_str(s, "`  \nversion: ");
    push_str(s, g.version.as_str());
    push_str(s, "  \nhealth: **");
    push_str(s, h.as_str());
    push_str(s, "**  \n");
    push_str(s, stats.as_str());
    let ghost s1 = s@;
    if g.findings_suppressed > 0 {
        push_str(s, " · suppressed: ");
        push_usize(s, g.findings_suppressed);
        push_str(s, " (see agal.toml)");
    }
    let ghost s2 = s@;
    push_str(s, "\n\n");
    assert(s2 =~= s1 + if g.findings_suppressed > 0 {
        " · suppressed: "@ + dec(g.findings_suppressed as nat) + " (see agal.toml)"@
    } else {
        Seq::<char>::empty()
    });
    assert(s@ =~= s0 + agent_head(*g));
}

fn push_agent_context(s: &mut String, g: &Audiolabs)
    ensures
        final(s)@ == old(s)@ + agent_context(*g),
{
    let ghost s0 = s@;
    let used = crate::text::sorted_distinct(&g.used_frameworks);
    proof {
        crate::text::lemma_canon(strs(used@));
    }
    if used.len() > 0 {
        push_str(s, "## frameworks detected\n");
        push_str(s, join_strings(&used, ", ").as_str());
        push_str(s, "\n\n");
    }
    let ghost s1 = s@;
    if g.rules.len() > 0 {
        push_str(s, "## rules\n");
        let ghost s2 = s@;
        let mut i: usize = 0;
        while i < g.rules.len()
            invariant
                i <= g.rules@.len(),
                s@ == s2 + rule_lines(g.rules@.take(i as int)),
            decreases g.rules@.len() - i,
        {
            assert(g.rules@.take(i + 1).drop_last() =~= g.rules@.take(i as int));
            push_str(s, "- **");
            push_str(s, g.rules[i].0.as_str());
            push_str(s, "**: ");
            push_str(s, g.rules[i].1.as_str());
            push_str(s, "\n");
            i = i + 1;
        }
        assert(g.rules@.take(g.rules@.len() as int) =~= g.rules@);
        push_str(s, "\n");
    }
    assert(s@ =~= s0 + agent_context(*g));
}

fn push_node_lines(s: &mut String, ns: &Vec<crate::Node>, plugin: bool)
    ensures
        final(s)@ == old(s)@ + node_lines(ns@, plugin),
{
    let ghost s0 = s@;
    let mut i: usize = 0;
    while i < ns.len()
        invariant
            i <= ns@.len(),
            s@ == s0 + node_lines(ns@.take(i as int), plugin),
        decreases ns@.len() - i,
    {
        assert(ns@.take(i + 1).drop_last() =~= ns@.take(i as int));
        assert(ns@.take(i + 1).last() == ns@[i as int]);
        let n = &ns[i];
        if plugin && str_eq(n.kind.as_str(), "plugin") {
            push_str(s, plugin_line(n).as_str());
            push_str(s, "\n");
        } else if !plugin && str_eq(n.kind.as_str(), "crate") {
            push_str(s, crate_line(n).as_str());
            push_str(s, "\n");
        }
        i = i + 1;
    }
    assert(ns@.take(ns@.len() as int) =~= ns@);
}

fn push_edge_kind(s: &mut String, es: &Vec<crate::Edge>, kind: &str)
    ensures
        final(s)@ == old(s)@ + if has_kind(es@, kind@) {
            "### "@ + kind@ + "\n"@ + edges_of_kind(es@, kind@)
        } else {
            Seq::empty()
        },
{
    let mut found = false;
    let mut i: usize = 0;
    while i < es.len()
        invariant
            i <= es@.len(),
            found == exists|j: int| 0 <= j < i && (#[trigger] es@[j]).kind@ == kind@,
        decreases es@.len() - i,
    {
        if str_eq(es[i].kind.as_str(), kind) {
            found = true;
        }
        i = i + 1;
    }
    if !found {
        assert(s@ =~= s@ + Seq::<char>::empty());
        return;
    }
    push_str(s, "### ");
    push_str(s, kind);
    push_str(s, "\n");
    let ghost s0 = s@;
    let mut i: usize = 0;
    while i < es.len()
        invariant
            i <= es@.len(),
            s@ == s0 + edges_of_kind(es@.take(i as int), kind@),
        decreases es@.len() - i,
    {
        assert(es@.take(i + 1).drop_last() =~= es@.take(i as int));
        assert(es@.take(i + 1).last() == es@[i as int]);
        let e = &es[i];
        if str_eq(e.kind.as_str(), kind) {
            push_str(s, "- `");
            push_str(s, short_id(e.from.as_str()).as_str());
            push_str(s, "` → `");
            push_str(s, short_id(e.to.as_str()).as_str());
            push_str(s, "`");
            if let Some(n) = &e.note {
                push_str(s, " — ");
                push_str(s, n.as_str());
            }
            push_str(s, "\n");
        }
        i = i + 1;
    }
    assert(es@.take(es@.len() as int) =~= es@);
}

/// Edge kinds in listing order.
pub fn edge_kind_order() -> (r: Vec<&'static str>)
    ensures
        r@.len() == 6,
        forall|i: int| 0 <= i < 6 ==> (#[trigger] r@[i])@ == edge_kinds()[i],
{
    let mut r: Vec<&'static str> = Vec::new();
    r.push("depends_on");
    r.push("build_depends_on");
    r.push("dev_depends_on");
    r.push("uses_ui");
    r.push("ipc_peer");
    r.push("runtime_depends_on");
    r
}

fn push_agent_structure(s: &mut String, g: &Audiolabs)
    ensures
        final(s)@ == old(s)@ + agent_structure(*g),
{
    let ghost s0 = s@;
    push_str(s, "## plugins\n");
    push_node_lines(s, &g.nodes, true);
    push_str(s, "\n## crates\n");
    push_node_lines(s, &g.nodes, false);
    push_str(s, "\n## edges\n");
    let ghost s1 = s@;
    let kinds = edge_kind_order();
    let mut k: usize = 0;
    while k < kinds.len()
        invariant
            kinds@.len() == 6,
            forall|i: int| 0 <= i < 6 ==> (#[trigger] kinds@[i])@ == edge_kinds()[i],
            k <= 6,
            s@ == s1 + edge_groups(g.edges@, k as nat),
        decreases 6 - k,
    {
        assert(kinds@[k as int]@ == edge_kinds()[k as int]);
        push_edge_kind(s, &g.edges, kinds[k]);
        k = k + 1;
    }
    push_str(s, "\n");
    assert(s@ =~= s0 + agent_structure(*g));
}

#[verifier::rlimit(80)]
#[verifier::spinoff_prover]
fn push_agent_findings(s: &mut String, g: &Audiolabs)
    ensures
        final(s)@ == old(s)@ + agent_findings(*g),
{
    let ghost s0 = s@;
    let (e, w, i) = severity_counts(&g.findings);
    let h = health(&g.findings);
    push_str(s, "## findings (error=");
    push_usize(s, e);
    push_str(s, " warn=");
    push_usize(s, w);
    push_str(s, " · info=");
    push_usize(s, i);
    push_str(s, " in json/html)\nhealth **");
    push_str(s, h.as_str());
    push_str(s, "** — if **blocked**, fix errors before feature work.\n");
    let act = crate::findings::actionable(&g.findings);
    let ghost s1 = s@;
    if act.len() == 0 {
        push_str(s, "_no error/warn_\n\n");
    } else {
        let ghost av = fviews(act@);
        let mut k: usize = 0;
        while k < act.len()
            invariant
                av == fviews(act@),
                k <= act@.len(),
                s@ == s1 + finding_lines(av.take(k as int)),
            decreases act@.len() - k,
        {
            assert(av.take(k + 1).drop_last() =~= av.take(k as int));
            assert(av.take(k + 1).last() == act@[k as int]@);
            push_str(s, finding_line(&act[k]).as_str());
            push_str(s, "\n");
            k = k + 1;
        }
        assert(av.take(act@.len() as int) =~= av);
        push_str(s, "\n");
    }
    assert(s@ =~= s0 + agent_findings(*g));
}

fn push_delta_counts(s: &mut String, d: &crate::delta::GraphDelta)
    ensures
        final(s)@ == old(s)@ + "since `"@ + crate::delta::or_q(d.previous_generated_at) + "`: +"@ + dec(d.added_nodes@.len())
            + " nodes · -"@ + dec(d.removed_nodes@.len()) + " nodes · ~"@ + dec(d.changed_nodes@.len()) + " nodes · +"@
            + dec(d.added_edges@.len()) + " edges · -"@ + dec(d.removed_edges@.len()) + " edges · +"@ + dec(
            d.new_findings@.len(),
        ) + " findings · -"@ + dec(d.resolved_findings@.len()) + " resolved\n\n"@,
{
    let ghost s0 = s@;
    push_str(s, "since `");
    match &d.previous_generated_at {
        Some(p) => push_str(s, p.as_str()),
        None => push_str(s, "?"),
    }
    push_str(s, "`: +");
    push_usize(s, d.added_nodes.len());
    push_str(s, " nodes · -");
    push_usize(s, d.removed_nodes.len());
    push_str(s, " nodes · ~");
    push_usize(s, d.changed_nodes.len());
    push_str(s, " nodes · +");
    push_usize(s, d.added_edges.len());
    push_str(s, " edges · -");
    push_usize(s, d.removed_edges.len());
    push_str(s, " edges · +");
    push_usize(s, d.new_findings.len());
    push_str(s, " findings · -");
    push_usize(s, d.resolved_findings.len());
    push_str(s, " resolved\n\n");
}

fn push_delta_items(s: &mut String, d: &crate::delta::GraphDelta)
    ensures
        final(s)@ == old(s)@ + change_lines(first_n(d.changed_nodes@, 8)) + new_lines(first_n(crate::findings::actionable_of(fviews(d.new_findings@)), 6))
            + resolved_lines(first_n(fviews(d.resolved_findings@), 4)),
{
    let ghost s0 = s@;
    let cs = &d.changed_nodes;
    let mut i: usize = 0;
    while i < cs.len() && i < 8
        invariant
            i <= cs@.len(),
            i <= 8,
            s@ == s0 + change_lines(cs@.take(i as int)),
        decreases cs@.len() - i,
    {
        assert(cs@.take(i + 1).drop_last() =~= cs@.take(i as int));
        push_str(s, "- **");
        push_str(s, short_id(cs[i].id.as_str()).as_str());
        push_str(s, "**: ");
        push_str(s, join_strings(&cs[i].changes, "; ").as_str());
        push_str(s, "\n");
        i = i + 1;
    }
    if cs.len() <= 8 {
        assert(cs@.take(cs@.len() as int) =~= cs@);
    }
    let ghost s1 = s@;
    let act = crate::findings::actionable(&d.new_findings);
    let nf = &act;
    let ghost nv = fviews(nf@);
    let mut i: usize = 0;
    while i < nf.len() && i < 6
        invariant
            nv == fviews(nf@),
            i <= nf@.len(),
            i <= 6,
            s@ == s1 + new_lines(nv.take(i as int)),
        decreases nf@.len() - i,
    {
        assert(nv.take(i + 1).drop_last() =~= nv.take(i as int));
        assert(nv.take(i + 1).last() == nf@[i as int]@);
        push_str(s, "- NEW ");
        let l = finding_line(&nf[i]);
        push_str(s, drop_prefixes_str(l.as_str(), "- ").as_str());
        push_str(s, "\n");
        i = i + 1;
    }
    if nf.len() <= 6 {
        assert(nv.take(nv.len() as int) =~= nv);
    }
    let ghost s2 = s@;
    let rf = &d.resolved_findings;
    let ghost rv = fviews(rf@);
    let mut i: usize = 0;
    while i < rf.len() && i < 4
        invariant
            rv == fviews(rf@),
            i <= rf@.len(),
            i <= 4,
            s@ == s2 + resolved_lines(rv.take(i as int)),
        decreases rf@.len() - i,
    {
        assert(rv.take(i + 1).drop_last() =~= rv.take(i as int));
        assert(rv.take(i + 1).last() == rf@[i as int]@);
        let f = &rf[i];
        push_str(s, "- RESOLVED [");
        push_str(s, f.severity.as_str());
        push_str(s, "] **");
        push_str(s, f.code.as_str());
        push_str(s, "** ");
        match &f.node {
            Some(n) => push_str(s, short_id(n.as_str()).as_str()),
            None => {
                assert(s@ =~= s@ + Seq::<char>::empty());
            },
        }
        push_str(s, "\n");
        i = i + 1;
    }
    if rf.len() <= 4 {
        assert(rv.take(rv.len() as int) =~= rv);
    }
}

#[verifier::rlimit(80)]
#[verifier::spinoff_prover]
fn push_agent_delta(s: &mut String, d: &Option<crate::delta::GraphDelta>)
    ensures
        final(s)@ == old(s)@ + agent_delta(*d),
{
    match d {
        None => {
            assert(s@ =~= s@ + Seq::<char>::empty());
        },
        Some(d) => {
            let ghost s0 = s@;
            push_str(s, "## delta\n");
            if d.first_run {
                push_str(s, "_first run — no previous graph._\n\n");
            } else if crate::delta::is_empty(d) {
                push_str(s, "_no structural changes since previous graph._\n\n");
            } else {
                let ghost s1 = s@;
                push_delta_counts(s, d);
                let ghost s2 = s@;
                push_delta_items(s, d);
                let ghost s3 = s@;
                push_str(s, "\n_full: `agal.delta.md`_\n\n");
                assert(s@ =~= s1 + (s2.skip(s1.len() as int) + s3.skip(s2.len() as int) + "\n_full: `agal.delta.md`_\n\n"@));
            }
        },
    }
}

pub(crate) fn ticked(ns: &Vec<crate::Node>, kind: &str) -> (r: Vec<String>)
    ensures
        strs(r@) == ticked_names(ns@, kind@),
{
    let mut r: Vec<String> = Vec::new();
    let mut i: usize = 0;
    while i < ns.len()
        invariant
            i <= ns@.len(),
            strs(r@) == ticked_names(ns@.take(i as int), kind@),
        decreases ns@.len() - i,
    {
        assert(ns@.take(i + 1).drop_last() =~= ns@.take(i as int));
        assert(ns@.take(i + 1).last() == ns@[i as int]);
        if str_eq(ns[i].kind.as_str(), kind) {
            push_item(&mut r, crate::text::cat3("`", ns[i].name.as_str(), "`"));
        }
        i = i + 1;
    }
    assert(ns@.take(ns@.len() as int) =~= ns@);
    r
}

#[verifier::rlimit(80)]
#[verifier::spinoff_prover]
fn push_agent_notes(s: &mut String, g: &Audiolabs, skill_count: usize)
    ensures
        final(s)@ == old(s)@ + agent_notes(*g, skill_count as nat),
{
    let ghost s0 = s@;
    let p = ticked(&g.nodes, "plugin");
    let c = ticked(&g.nodes, "crate");
    push_str(s, "## notes (focus)\n`agal/notes/<name>.md` — auto header + human body\n\n");
    if p.len() > 0 {
        push_str(s, "plugins: ");
        push_str(s, join_strings(&p, ", ").as_str());
        push_str(s, "\n\n");
    }
    let ghost s1 = s@;
    if c.len() > 0 {
        push_str(s, "crates: ");
        push_str(s, join_strings(&c, ", ").as_str());
        push_str(s, "\n\n");
    }
    let ghost s2 = s@;
    assert(s2 =~= s0 + "## notes (focus)\n`agal/notes/<name>.md` — auto header + human body\n\n"@ + (if strs(p@).len() > 0 {
        "plugins: "@ + join(strs(p@), ", "@) + "\n\n"@
    } else {
        Seq::<char>::empty()
    }) + (if strs(c@).len() > 0 {
        "crates: "@ + join(strs(c@), ", "@) + "\n\n"@
    } else {
        Seq::<char>::empty()
    }));
    push_str(s, "## skills\n\nFull pack list + index: **`AGAL.md`**. Load on demand only.\n\n");
    if skill_count == 0 {
        push_str(s, "_no skills synced yet — `agal skills sync` (default core)._\n\n");
    } else {
        push_str(s, "_");
        push_usize(s, skill_count);
        push_str(s, " skill file(s) under `skills/` — see AGAL.md._\n\n");
    }
    assert(s@ =~= s0 + agent_notes(*g, skill_count as nat));
}

/// Compact markdown map of the workspace for agents (`agal.agent.md`);
/// `skills` is the index of `skills/` when that folder exists.
pub fn render_agent_md(graph: &Audiolabs, skills: Option<&Vec<SkillIndexEntry>>) -> (s: String)
    ensures
        s@ == agent_md(
            *graph,
            match skills {
                Some(v) => v@.len(),
                None => 0,
            },
        ),
{
    let mut s = String::new();
    push_agent_head(&mut s, graph);
    push_agent_context(&mut s, graph);
    push_migration_section(&mut s, &graph.migration_summary);
    push_agent_structure(&mut s, graph);
    push_agent_findings(&mut s, graph);
    push_agent_delta(&mut s, &graph.delta);
    let n: usize = match skills {
        Some(v) => v.len(),
        None => 0,
    };
    push_agent_notes(&mut s, graph, n);
    push_str(&mut s, AGENT_READ_ORDER);
    s
}

// ---------------------------------------------------------------------------
// Plugin slices
// ---------------------------------------------------------------------------

/// A one-hop slice around one node, as positions in the graph's lists: the
/// node, its neighbours, the edges touching it and its findings.
#[derive(Debug, Clone)]
pub struct PluginSlice {
    pub plugin: usize,
    pub neighbors: Vec<usize>,
    pub edges: Vec<usize>,
    pub findings: Vec<usize>,
}

/// The node matches the requested plugin: by name, id, or id ending in `/name`.
pub open spec fn names_node(n: crate::Node, name: Seq<char>) -> bool {
    n.name@ == name || n.id@ == name || ends_with(n.id@, "/"@ + name)
}

/// Positions `< k` satisfying `p`, in order.
pub open spec fn positions_below(k: nat, p: spec_fn(int) -> bool) -> Seq<int>
    decreases k,
{
    if k == 0 {
        Seq::empty()
    } else {
        positions_below((k - 1) as nat, p) + if p(k - 1) {
            seq![k - 1]
        } else {
            Seq::empty()
        }
    }
}

/// Edge `i` touches node id `id`.
pub open spec fn touches(es: Seq<crate::Edge>, id: Seq<char>) -> spec_fn(int) -> bool {
    |i: int| es[i].from@ == id || es[i].to@ == id
}

/// Node `i` is the other end of some edge touching `id`.
pub open spec fn neighbour_of(ns: Seq<crate::Node>, es: Seq<crate::Edge>, id: Seq<char>) -> spec_fn(int) -> bool {
    |i: int|
        ns[i].id@ != id && exists|j: int|
            0 <= j < es.len() && touches(es, id)(j) && (es[j].from@ == ns[i].id@ || es[j].to@ == ns[i].id@)
}

/// Finding `i` is about node `id`.
pub open spec fn about(fs: Seq<Finding>, id: Seq<char>) -> spec_fn(int) -> bool {
    |i: int| fs[i].node is Some && fs[i].node->0@ == id
}

/// Node `i` matches the requested plugin.
pub open spec fn named(ns: Seq<crate::Node>, name: Seq<char>) -> spec_fn(int) -> bool {
    |i: int| names_node(ns[i], name)
}

/// The first node that the name matches.
pub open spec fn first_match(ns: Seq<crate::Node>, name: Seq<char>) -> Option<int> {
    let ps = positions_below(ns.len(), named(ns, name));
    if ps.len() == 0 {
        None
    } else {
        Some(ps[0])
    }
}

pub open spec fn ints(v: Seq<usize>) -> Seq<int> {
    v.map_values(|x: usize| x as int)
}

proof fn lemma_positions_step(k: nat, p: spec_fn(int) -> bool)
    ensures
        positions_below(k + 1, p) == positions_below(k, p) + if p(k as int) {
            seq![k as int]
        } else {
            Seq::<int>::empty()
        },
{
    assert(((k + 1) as nat - 1) as nat == k);
}

fn node_named(ns: &Vec<crate::Node>, name: &str) -> (r: Option<usize>)
    ensures
        match r {
            Some(i) => first_match(ns@, name@) == Some(i as int) && i < ns@.len(),
            None => first_match(ns@, name@) is None,
        },
{
    let suffix = crate::text::cat2("/", name);
    let mut i: usize = 0;
    while i < ns.len()
        invariant
            i <= ns@.len(),
            suffix@ == "/"@ + name@,
            positions_below(i as nat, named(ns@, name@)).len() == 0,
        decreases ns@.len() - i,
    {
        proof {
            lemma_positions_step(i as nat, named(ns@, name@));
        }
        let n = &ns[i];
        if str_eq(n.name.as_str(), name) || str_eq(n.id.as_str(), name) || ends_with_str(n.id.as_str(), suffix.as_str()) {
            proof {
                lemma_positions_prefix(ns@.len(), i as nat + 1, named(ns@, name@));
            }
            return Some(i);
        }
        i = i + 1;
    }
    None
}

/// Positions below `k` extend those below `j <= k`.
proof fn lemma_positions_prefix(k: nat, j: nat, p: spec_fn(int) -> bool)
    requires
        j <= k,
    ensures
        positions_below(k, p).len() >= positions_below(j, p).len(),
        forall|x: int| 0 <= x < positions_below(j, p).len() ==> positions_below(k, p)[x] == positions_below(j, p)[x],
    decreases k - j,
{
    if j < k {
        lemma_positions_prefix((k - 1) as nat, j, p);
        lemma_positions_step((k - 1) as nat, p);
    }
}

fn touching(es: &Vec<crate::Edge>, id: &str) -> (r: Vec<usize>)
    ensures
        ints(r@) == positions_below(es@.len(), touches(es@, id@)),
{
    let mut r: Vec<usize> = Vec::new();
    let mut i: usize = 0;
    while i < es.len()
        invariant
            i <= es@.len(),
            ints(r@) == positions_below(i as nat, touches(es@, id@)),
        decreases es@.len() - i,
    {
        proof {
            lemma_positions_step(i as nat, touches(es@, id@));
        }
        if str_eq(es[i].from.as_str(), id) || str_eq(es[i].to.as_str(), id) {
            r.push(i);
        }
        assert(ints(r@) =~= positions_below((i + 1) as nat, touches(es@, id@)));
        i = i + 1;
    }
    r
}

fn neighbours(ns: &Vec<crate::Node>, es: &Vec<crate::Edge>, id: &str) -> (r: Vec<usize>)
    ensures
        ints(r@) == positions_below(ns@.len(), neighbour_of(ns@, es@, id@)),
{
    let mut r: Vec<usize> = Vec::new();
    let mut i: usize = 0;
    while i < ns.len()
        invariant
            i <= ns@.len(),
            ints(r@) == positions_below(i as nat, neighbour_of(ns@, es@, id@)),
        decreases ns@.len() - i,
    {
        proof {
            lemma_positions_step(i as nat, neighbour_of(ns@, es@, id@));
        }
        let nid = ns[i].id.as_str();
        let mut hit = false;
        let mut j: usize = 0;
        while j < es.len()
            invariant
                j <= es@.len(),
                i < ns@.len(),
                nid@ == ns@[i as int].id@,
                hit == exists|k: int|
                    0 <= k < j && touches(es@, id@)(k) && (es@[k].from@ == ns@[i as int].id@ || es@[k].to@
                        == ns@[i as int].id@),
            decreases es@.len() - j,
        {
            let e = &es[j];
            if (str_eq(e.from.as_str(), id) || str_eq(e.to.as_str(), id)) && (str_eq(e.from.as_str(), nid) || str_eq(
                e.to.as_str(),
                nid,
            )) {
                hit = true;
            }
            j = j + 1;
        }
        if hit && !str_eq(nid, id) {
            r.push(i);
        }
        assert(ints(r@) =~= positions_below((i + 1) as nat, neighbour_of(ns@, es@, id@)));
        i = i + 1;
    }
    r
}

fn findings_about(fs: &Vec<Finding>, id: &str) -> (r: Vec<usize>)
    ensures
        ints(r@) == positions_below(fs@.len(), about(fs@, id@)),
{
    let mut r: Vec<usize> = Vec::new();
    let mut i: usize = 0;
    while i < fs.len()
        invariant
            i <= fs@.len(),
            ints(r@) == positions_below(i as nat, about(fs@, id@)),
        decreases fs@.len() - i,
    {
        proof {
            lemma_positions_step(i as nat, about(fs@, id@));
        }
        let hit = match &fs[i].node {
            Some(n) => str_eq(n.as_str(), id),
            None => false,
        };
        if hit {
            r.push(i);
        }
        assert(ints(r@) =~= positions_below((i + 1) as nat, about(fs@, id@)));
        i = i + 1;
    }
    r
}

/// The one-hop slice around the plugin named `plugin_name` (by name, id, or
/// id suffix): none when no node matches.
pub fn plugin_slice(graph: &Audiolabs, plugin_name: &str) -> (r: Option<PluginSlice>)
    ensures
        match r {
            None => first_match(graph.nodes@, plugin_name@) is None,
            Some(sl) => {
                let id = graph.nodes@[sl.plugin as int].id@;
                &&& first_match(graph.nodes@, plugin_name@) == Some(sl.plugin as int)
                &&& ints(sl.edges@) == positions_below(graph.edges@.len(), touches(graph.edges@, id))
                &&& ints(sl.neighbors@) == positions_below(graph.nodes@.len(), neighbour_of(graph.nodes@, graph.edges@, id))
                &&& ints(sl.findings@) == positions_below(graph.findings@.len(), about(graph.findings@, id))
            },
        },
{
    let i = match node_named(&graph.nodes, plugin_name) {
        Some(i) => i,
        None => {
            return None;
        },
    };
    let id = graph.nodes[i].id.as_str();
    let edges = touching(&graph.edges, id);
    let neighbors = neighbours(&graph.nodes, &graph.edges, id);
    let findings = findings_about(&graph.findings, id);
    Some(PluginSlice { plugin: i, neighbors, edges, findings })
}

/// On the map, a plugin whose migration status is `legacy` shows the badge
/// ` [legacy]` right after its backticked id, one whose status is `unknown`
/// shows ` [mig=?]`, and any other plugin (no status, or a finished one)
/// shows no badge: its frameworks follow the id.
pub proof fn lemma_migration_badge(n: crate::Node)
    ensures
        opt_view(n.migration_status) == Some("legacy"@) ==> ("- **"@ + n.name@ + "** `"@ + n.id@ + "` [legacy]"@).is_prefix_of(
            plugin_line_of(n),
        ),
        opt_view(n.migration_status) == Some("unknown"@) ==> ("- **"@ + n.name@ + "** `"@ + n.id@ + "` [mig=?]"@).is_prefix_of(
            plugin_line_of(n),
        ),
        opt_view(n.migration_status) != Some("legacy"@) && opt_view(n.migration_status) != Some("unknown"@) ==> ("- **"@
            + n.name@ + "** `"@ + n.id@ + "` fw=`"@).is_prefix_of(plugin_line_of(n)),
{
    reveal_strlit("`");
    reveal_strlit(" [legacy]");
    reveal_strlit("` [legacy]");
    reveal_strlit(" [mig=?]");
    reveal_strlit("` [mig=?]");
    reveal_strlit(" fw=`");
    reveal_strlit("` fw=`");
    let head = "- **"@ + n.name@ + "** `"@ + n.id@;
    let line = plugin_line_of(n);
    let st = opt_view(n.migration_status);
    reveal_strlit("legacy");
    reveal_strlit("unknown");
    reveal_strlit("");
    assert("legacy"@.len() != "unknown"@.len());
    if st == Some("legacy"@) {
        let want = head + "` [legacy]"@;
        assert(want =~= head + "`"@ + " [legacy]"@);
        assert(line.subrange(0, want.len() as int) =~= want);
        assert(want.is_prefix_of(line));
    } else if st == Some("unknown"@) {
        let want = head + "` [mig=?]"@;
        assert(mig_badge(st) == " [mig=?]"@);
        assert(want =~= head + "`"@ + " [mig=?]"@);
        assert(line.subrange(0, want.len() as int) =~= want);
        assert(want.is_prefix_of(line));
    } else {
        let want = head + "` fw=`"@;
        assert(want =~= head + "`"@ + Seq::<char>::empty() + " fw=`"@);
        assert(line.subrange(0, want.len() as int) =~= want);
        assert(want.is_prefix_of(line));
    }
}

} // verus!
