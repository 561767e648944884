//! Character-level text model shared by the whole library.
//!
//! Every string is viewed as its `Seq<char>`.  Ordered string sets and maps
//! (the library's stand-ins for `BTreeSet<String>` / `BTreeMap<String, V>`)
//! are vectors kept strictly sorted by code-point order, which is also the
//! byte order of their UTF-8 encodings.
use vstd::prelude::*;

verus! {

// ---------------------------------------------------------------------------
// Order on character sequences
// ---------------------------------------------------------------------------

/// Strict lexicographic order by code point.
pub open spec fn lt(a: Seq<char>, b: Seq<char>) -> bool
    decreases a.len(),
{
    if a.len() == 0 {
        b.len() > 0
    } else if b.len() == 0 {
        false
    } else if a[0] < b[0] {
        true
    } else if a[0] == b[0] {
        lt(a.drop_first(), b.drop_first())
    } else {
        false
    }
}

pub proof fn lemma_lt_irrefl(a: Seq<char>)
    ensures
        !lt(a, a),
    decreases a.len(),
{
    if a.len() > 0 {
        lemma_lt_irrefl(a.drop_first());
    }
}

pub proof fn lemma_lt_trans(a: Seq<char>, b: Seq<char>, c: Seq<char>)
    requires
        lt(a, b),
        lt(b, c),
    ensures
        lt(a, c),
    decreases a.len(),
{
    if a.len() > 0 && b.len() > 0 && c.len() > 0 {
        if a[0] == b[0] && b[0] == c[0] {
            lemma_lt_trans(a.drop_first(), b.drop_first(), c.drop_first());
        }
    }
}

pub proof fn lemma_lt_total(a: Seq<char>, b: Seq<char>)
    ensures
        a != b ==> (lt(a, b) || lt(b, a)),
    decreases a.len(),
{
    if a.len() == 0 && b.len() == 0 {
        assert(a =~= b);
    } else if a.len() == 0 || b.len() == 0 {
    } else if a[0] != b[0] {
        assert(a[0] < b[0] || b[0] < a[0]);
    } else {
        lemma_lt_total(a.drop_first(), b.drop_first());
        if a.drop_first() == b.drop_first() {
            assert(a =~= seq![a[0]] + a.drop_first());
            assert(b =~= seq![b[0]] + b.drop_first());
        }
    }
}

pub proof fn lemma_lt_asym(a: Seq<char>, b: Seq<char>)
    ensures
        lt(a, b) ==> !lt(b, a),
{
    if lt(a, b) && lt(b, a) {
        lemma_lt_trans(a, b, a);
        lemma_lt_irrefl(a);
    }
}

/// The views of a sequence of strings.
pub open spec fn strs(v: Seq<String>) -> Seq<Seq<char>> {
    v.map_values(|s: String| s@)
}

/// Strictly increasing (hence duplicate-free) sequence of character sequences.
pub open spec fn sorted(s: Seq<Seq<char>>) -> bool {
    forall|i: int, j: int| 0 <= i < j < s.len() ==> lt(s[i], s[j])
}

/// A sorted string set, as the library stores every `BTreeSet<String>`.
pub open spec fn is_set(v: Seq<String>) -> bool {
    sorted(strs(v))
}

/// The keys of an association list.
pub open spec fn keys<V>(m: Seq<(String, V)>) -> Seq<Seq<char>> {
    m.map_values(|p: (String, V)| p.0@)
}

/// A map with strictly sorted keys, as the library stores every `BTreeMap<String, V>`.
pub open spec fn is_map<V>(m: Seq<(String, V)>) -> bool {
    sorted(keys(m))
}

/// Value stored under key `k` (first match).
pub open spec fn lookup<V>(m: Seq<(String, V)>, k: Seq<char>) -> Option<V>
    decreases m.len(),
{
    if m.len() == 0 {
        None
    } else if m[0].0@ == k {
        Some(m[0].1)
    } else {
        lookup(m.drop_first(), k)
    }
}

pub proof fn lemma_lookup_index<V>(m: Seq<(String, V)>, k: Seq<char>, i: int)
    requires
        is_map(m),
        0 <= i < m.len(),
        m[i].0@ == k,
    ensures
        lookup(m, k) == Some(m[i].1),
    decreases m.len(),
{
    if i > 0 {
        assert(lt(keys(m)[0], keys(m)[i]));
        lemma_lt_irrefl(k);
        assert(is_map(m.drop_first())) by {
            assert forall|a: int, b: int| 0 <= a < b < keys(m.drop_first()).len() implies lt(
                keys(m.drop_first())[a],
                keys(m.drop_first())[b],
            ) by {
                assert(keys(m.drop_first())[a] == keys(m)[a + 1]);
                assert(keys(m.drop_first())[b] == keys(m)[b + 1]);
            }
        }
        lemma_lookup_index(m.drop_first(), k, i - 1);
    }
}

pub proof fn lemma_lookup_none<V>(m: Seq<(String, V)>, k: Seq<char>)
    requires
        !keys(m).contains(k),
    ensures
        lookup(m, k) is None,
    decreases m.len(),
{
    if m.len() > 0 {
        assert(keys(m)[0] == m[0].0@);
        assert forall|x: Seq<char>| keys(m.drop_first()).contains(x) implies keys(m).contains(x) by {
            let j = choose|j: int| 0 <= j < keys(m.drop_first()).len() && keys(m.drop_first())[j] == x;
            assert(keys(m)[j + 1] == x);
        }
        lemma_lookup_none(m.drop_first(), k);
    }
}

// ---------------------------------------------------------------------------
// Basic string operations
// ---------------------------------------------------------------------------

/// The characters of `s`, in order.
pub fn chars_of(s: &str) -> (v: Vec<char>)
    ensures
        v@ == s@,
{
    let mut v: Vec<char> = Vec::new();
    for c in it: s.chars()
        invariant
            v@ == it.seq().take(it.index() as int),
    {
        v.push(c);
    }
    v
}

/// Appends one character (`String::push`).
#[verifier::external_body]
pub(crate) fn push_char(s: &mut String, c: char)
    ensures
        final(s)@ == old(s)@.push(c),
{
    s.push(c);
}

/// Appends a string slice.
pub fn push_str(s: &mut String, t: &str)
    ensures
        final(s)@ == old(s)@ + t@,
{
    s.append(t);
}

/// An owned copy of `t`.
pub fn owned(t: &str) -> (r: String)
    ensures
        r@ == t@,
{
    let mut r = String::new();
    r.append(t);
    r
}

/// The string whose characters are `v`.
pub fn from_chars(v: &[char]) -> (r: String)
    ensures
        r@ == v@,
{
    let mut r = String::new();
    let mut i: usize = 0;
    while i < v.len()
        invariant
            i <= v@.len(),
            r@ == v@.take(i as int),
        decreases v@.len() - i,
    {
        push_char(&mut r, v[i]);
        assert(v@.take(i as int).push(v@[i as int]) =~= v@.take(i + 1));
        i = i + 1;
    }
    assert(v@.take(v@.len() as int) =~= v@);
    r
}

/// Code-point equality of two strings.
pub fn str_eq(a: &str, b: &str) -> (r: bool)
    ensures
        r == (a@ == b@),
{
    let x = chars_of(a);
    let y = chars_of(b);
    if x.len() != y.len() {
        return false;
    }
    let mut i: usize = 0;
    while i < x.len()
        invariant
            x@ == a@,
            y@ == b@,
            x@.len() == y@.len(),
            i <= x@.len(),
            forall|j: int| 0 <= j < i ==> x@[j] == y@[j],
        decreases x@.len() - i,
    {
        if x[i] != y[i] {
            return false;
        }
        i = i + 1;
    }
    assert(x@ =~= y@);
    true
}

/// Whether the texts are strictly sorted (a sorted set).
pub fn texts_sorted(v: &Vec<String>) -> (r: bool)
    ensures
        r == sorted(strs(v@)),
{
    let ghost t = strs(v@);
    if v.len() == 0 {
        return true;
    }
    let mut i: usize = 1;
    while i < v.len()
        invariant
            1 <= i <= v@.len(),
            t == strs(v@),
            sorted(t.take(i as int)),
        decreases v@.len() - i,
    {
        if !str_lt(v[i - 1].as_str(), v[i].as_str()) {
            assert(!lt(t[i - 1], t[i as int]));
            return false;
        }
        assert forall|a: int, b: int| 0 <= a < b < i + 1 implies lt(#[trigger] t.take(i + 1)[a], #[trigger] t.take(i + 1)[b]) by {
            if b < i {
                assert(t.take(i as int)[a] == t[a] && t.take(i as int)[b] == t[b]);
            } else if a < i - 1 {
                assert(t.take(i as int)[a] == t[a] && t.take(i as int)[i - 1] == t[i - 1]);
                lemma_lt_trans(t[a], t[i - 1], t[i as int]);
            }
        }
        i = i + 1;
    }
    assert(t.take(v@.len() as int) =~= t);
    true
}

/// Whether the keys of an association list are strictly sorted (a map).
pub fn keys_sorted<V>(m: &Vec<(String, V)>) -> (r: bool)
    ensures
        r == is_map(m@),
{
    let mut ks: Vec<String> = Vec::new();
    let mut i: usize = 0;
    while i < m.len()
        invariant
            i <= m@.len(),
            strs(ks@) == keys(m@).take(i as int),
        decreases m@.len() - i,
    {
        let ghost k0 = ks@;
        let k = m[i].0.clone();
        ks.push(k);
        proof {
            lemma_strs_push(k0, k);
            assert(keys(m@).take(i + 1) =~= keys(m@).take(i as int).push(m@[i as int].0@));
        }
        i = i + 1;
    }
    assert(keys(m@).take(m@.len() as int) =~= keys(m@));
    texts_sorted(&ks)
}

/// `a < b` in code-point (= byte) order.
pub fn str_lt(a: &str, b: &str) -> (r: bool)
    ensures
        r == lt(a@, b@),
{
    let x = chars_of(a);
    let y = chars_of(b);
    let mut i: usize = 0;
    assert(a@.skip(0) =~= a@);
    assert(b@.skip(0) =~= b@);
    while i < x.len() && i < y.len()
        invariant
            x@ == a@,
            y@ == b@,
            i <= x@.len(),
            i <= y@.len(),
            lt(a@, b@) == lt(a@.skip(i as int), b@.skip(i as int)),
        decreases x@.len() - i,
    {
        let c = x[i];
        let d = y[i];
        assert(a@.skip(i as int)[0] == c);
        assert(b@.skip(i as int)[0] == d);
        if c < d {
            return true;
        }
        if c != d {
            return false;
        }
        assert(a@.skip(i as int).drop_first() =~= a@.skip(i + 1));
        assert(b@.skip(i as int).drop_first() =~= b@.skip(i + 1));
        i = i + 1;
    }
    i == x.len() && i < y.len()
}

// ---------------------------------------------------------------------------
// Sorted string sets
// ---------------------------------------------------------------------------

/// Membership in a string set.
pub fn set_contains(v: &Vec<String>, x: &str) -> (r: bool)
    ensures
        r == strs(v@).contains(x@),
{
    let mut i: usize = 0;
    while i < v.len()
        invariant
            i <= v@.len(),
            forall|j: int| 0 <= j < i ==> v@[j]@ != x@,
        decreases v@.len() - i,
    {
        if str_eq(v[i].as_str(), x) {
            assert(strs(v@)[i as int] == x@);
            return true;
        }
        i = i + 1;
    }
    proof {
        if strs(v@).contains(x@) {
            let k = choose|k: int| 0 <= k < strs(v@).len() && strs(v@)[k] == x@;
            assert(v@[k]@ == x@);
        }
    }
    false
}

/// Inserts `x` into a sorted string set (no effect when already present).
pub fn set_insert(v: &mut Vec<String>, x: String)
    requires
        is_set(old(v)@),
    ensures
        is_set(final(v)@),
        strs(final(v)@).to_set() == strs(old(v)@).to_set().insert(x@),
{
    let ghost xs = x@;
    let ghost s0 = strs(v@);
    let mut i: usize = 0;
    while i < v.len()
        invariant
            v@ == old(v)@,
            s0 == strs(v@),
            i <= v@.len(),
            x@ == xs,
            forall|j: int| 0 <= j < i ==> lt(s0[j], xs),
        ensures
            i <= v@.len(),
            forall|j: int| 0 <= j < i ==> lt(s0[j], xs),
            i < v@.len() ==> !lt(s0[i as int], xs),
        decreases v@.len() - i,
    {
        if !str_lt(v[i].as_str(), x.as_str()) {
            break;
        }
        i = i + 1;
    }
    if i < v.len() && str_eq(v[i].as_str(), x.as_str()) {
        assert(s0.to_set().insert(xs) =~= s0.to_set()) by {
            assert(s0[i as int] == xs);
        }
        return;
    }
    proof {
        if i < s0.len() {
            lemma_lt_total(s0[i as int], xs);
        }
    }
    v.insert(i, x);
    proof {
        let s1 = strs(v@);
        assert(s1 =~= s0.insert(i as int, xs));
        assert forall|a: int, b: int| 0 <= a < b < s1.len() implies lt(s1[a], s1[b]) by {
            if b < i {
            } else if b == i {
            } else if a < i {
                // a < i < b
                assert(s1[b] == s0[b - 1]);
                if b - 1 > i {
                    assert(lt(s0[i as int], s0[b - 1]));
                    lemma_lt_trans(xs, s0[i as int], s0[b - 1]);
                }
                lemma_lt_trans(s1[a], xs, s1[b]);
            } else if a == i {
                if b - 1 > i {
                    assert(lt(s0[i as int], s0[b - 1]));
                    lemma_lt_trans(xs, s0[i as int], s0[b - 1]);
                }
            } else {
                assert(s1[a] == s0[a - 1]);
                assert(s1[b] == s0[b - 1]);
            }
        }
        assert(s1.to_set() =~= s0.to_set().insert(xs)) by {
            assert forall|y: Seq<char>| s1.to_set().contains(y) <==> s0.to_set().insert(xs).contains(y) by {
                if s1.contains(y) {
                    let k = choose|k: int| 0 <= k < s1.len() && s1[k] == y;
                    if k < i {
                        assert(s0[k] == y);
                    } else if k > i {
                        assert(s0[k - 1] == y);
                    }
                }
                if s0.contains(y) {
                    let k = choose|k: int| 0 <= k < s0.len() && s0[k] == y;
                    if k < i {
                        assert(s1[k] == y);
                    } else {
                        assert(s1[k + 1] == y);
                    }
                }
                if y == xs {
                    assert(s1[i as int] == y);
                }
            }
        }
    }
}

// ---------------------------------------------------------------------------
// Sorted string-keyed maps
// ---------------------------------------------------------------------------

pub proof fn lemma_map_tail<V>(m: Seq<(String, V)>)
    requires
        is_map(m),
        m.len() > 0,
    ensures
        is_map(m.drop_first()),
{
    assert forall|a: int, b: int| 0 <= a < b < keys(m.drop_first()).len() implies lt(
        keys(m.drop_first())[a],
        keys(m.drop_first())[b],
    ) by {
        assert(keys(m.drop_first())[a] == keys(m)[a + 1]);
        assert(keys(m.drop_first())[b] == keys(m)[b + 1]);
    }
}

/// Position of key `k`, if present.
pub fn map_find<V>(m: &Vec<(String, V)>, k: &str) -> (r: Option<usize>)
    requires
        is_map(m@),
    ensures
        match r {
            Some(i) => i < m@.len() && m@[i as int].0@ == k@ && lookup(m@, k@) == Some(m@[i as int].1),
            None => !keys(m@).contains(k@) && lookup(m@, k@) is None,
        },
{
    let mut i: usize = 0;
    while i < m.len()
        invariant
            is_map(m@),
            i <= m@.len(),
            forall|j: int| 0 <= j < i ==> m@[j].0@ != k@,
        decreases m@.len() - i,
    {
        if str_eq(m[i].0.as_str(), k) {
            proof {
                lemma_lookup_index(m@, k@, i as int);
            }
            return Some(i);
        }
        i = i + 1;
    }
    proof {
        if keys(m@).contains(k@) {
            let j = choose|j: int| 0 <= j < keys(m@).len() && keys(m@)[j] == k@;
            assert(m@[j].0@ == k@);
        }
        lemma_lookup_none(m@, k@);
    }
    None
}

/// Value under key `k`, if present.
pub fn map_get<'a, V>(m: &'a Vec<(String, V)>, k: &str) -> (r: Option<&'a V>)
    requires
        is_map(m@),
    ensures
        match r {
            Some(x) => lookup(m@, k@) == Some(*x),
            None => lookup(m@, k@) is None,
        },
{
    match map_find(m, k) {
        Some(i) => Some(&m[i].1),
        None => None,
    }
}

/// Inserts or replaces the value under `k`.
pub fn map_insert<V>(m: &mut Vec<(String, V)>, k: String, v: V)
    requires
        is_map(old(m)@),
    ensures
        is_map(final(m)@),
        keys(final(m)@).to_set() == keys(old(m)@).to_set().insert(k@),
        lookup(final(m)@, k@) == Some(v),
        forall|q: Seq<char>| q != k@ ==> #[trigger] lookup(final(m)@, q) == lookup(old(m)@, q),
{
    let ghost ks = k@;
    let ghost m0 = m@;
    let ghost s0 = keys(m@);
    let mut i: usize = 0;
    while i < m.len()
        invariant
            m@ == m0,
            s0 == keys(m0),
            is_map(m0),
            i <= m@.len(),
            k@ == ks,
            forall|j: int| 0 <= j < i ==> lt(s0[j], ks),
        ensures
            i <= m@.len(),
            forall|j: int| 0 <= j < i ==> lt(s0[j], ks),
            i < m@.len() ==> !lt(s0[i as int], ks),
        decreases m@.len() - i,
    {
        if !str_lt(m[i].0.as_str(), k.as_str()) {
            break;
        }
        i = i + 1;
    }
    if i < m.len() && str_eq(m[i].0.as_str(), k.as_str()) {
        m.set(i, (k, v));
        proof {
            let m1 = m@;
            assert(keys(m1) =~= s0);
            assert(keys(m1).to_set() =~= s0.to_set().insert(ks)) by {
                assert(s0[i as int] == ks);
            }
            lemma_lookup_index(m1, ks, i as int);
            assert forall|q: Seq<char>| q != ks implies #[trigger] lookup(m1, q) == lookup(m0, q) by {
                if s0.contains(q) {
                    let j = choose|j: int| 0 <= j < s0.len() && s0[j] == q;
                    lemma_lookup_index(m0, q, j);
                    lemma_lookup_index(m1, q, j);
                } else {
                    lemma_lookup_none(m0, q);
                    lemma_lookup_none(m1, q);
                }
            }
        }
        return;
    }
    proof {
        if i < s0.len() {
            lemma_lt_total(s0[i as int], ks);
        }
    }
    m.insert(i, (k, v));
    proof {
        let m1 = m@;
        let s1 = keys(m1);
        assert(s1 =~= s0.insert(i as int, ks));
        assert forall|a: int, b: int| 0 <= a < b < s1.len() implies lt(s1[a], s1[b]) by {
            if b < i {
            } else if b == i {
            } else if a < i {
                assert(s1[b] == s0[b - 1]);
                if b - 1 > i {
                    assert(lt(s0[i as int], s0[b - 1]));
                    lemma_lt_trans(ks, s0[i as int], s0[b - 1]);
                }
                lemma_lt_trans(s1[a], ks, s1[b]);
            } else if a == i {
                if b - 1 > i {
                    assert(lt(s0[i as int], s0[b - 1]));
                    lemma_lt_trans(ks, s0[i as int], s0[b - 1]);
                }
            } else {
                assert(s1[a] == s0[a - 1]);
                assert(s1[b] == s0[b - 1]);
            }
        }
        assert(s1.to_set() =~= s0.to_set().insert(ks)) by {
            assert forall|y: Seq<char>| s1.to_set().contains(y) <==> s0.to_set().insert(ks).contains(y) by {
                if s1.contains(y) {
                    let j = choose|j: int| 0 <= j < s1.len() && s1[j] == y;
                    if j < i {
                        assert(s0[j] == y);
                    } else if j > i {
                        assert(s0[j - 1] == y);
                    }
                }
                if s0.contains(y) {
                    let j = choose|j: int| 0 <= j < s0.len() && s0[j] == y;
                    if j < i {
                        assert(s1[j] == y);
                    } else {
                        assert(s1[j + 1] == y);
                    }
                }
                if y == ks {
                    assert(s1[i as int] == y);
                }
            }
        }
        assert(m1[i as int].0@ == ks);
        lemma_lookup_index(m1, ks, i as int);
        assert forall|q: Seq<char>| q != ks implies #[trigger] lookup(m1, q) == lookup(m0, q) by {
            if s0.contains(q) {
                let j = choose|j: int| 0 <= j < s0.len() && s0[j] == q;
                lemma_lookup_index(m0, q, j);
                if j < i {
                    assert(m1[j].0@ == q);
                    lemma_lookup_index(m1, q, j);
                } else {
                    assert(m1[j + 1].0@ == q);
                    lemma_lookup_index(m1, q, j + 1);
                }
            } else {
                lemma_lookup_none(m0, q);
                assert(!s1.contains(q)) by {
                    if s1.contains(q) {
                        let j = choose|j: int| 0 <= j < s1.len() && s1[j] == q;
                        if j < i {
                            assert(s0[j] == q);
                        } else if j > i {
                            assert(s0[j - 1] == q);
                        }
                    }
                }
                lemma_lookup_none(m1, q);
            }
        }
    }
}

// ---------------------------------------------------------------------------
// Prefixes, suffixes, substrings
// ---------------------------------------------------------------------------

pub open spec fn starts_with(s: Seq<char>, p: Seq<char>) -> bool {
    p.len() <= s.len() && s.take(p.len() as int) == p
}

pub open spec fn ends_with(s: Seq<char>, p: Seq<char>) -> bool {
    p.len() <= s.len() && s.skip(s.len() - p.len()) == p
}

/// `p` occurs in `s` at position `i`.
pub open spec fn occurs_at(s: Seq<char>, p: Seq<char>, i: int) -> bool {
    0 <= i && i + p.len() <= s.len() && s.subrange(i, i + p.len()) == p
}

/// `p` occurs somewhere in `s` (`str::contains`).
pub open spec fn has_sub(s: Seq<char>, p: Seq<char>) -> bool {
    exists|i: int| occurs_at(s, p, i)
}

fn chars_match_at(s: &Vec<char>, p: &Vec<char>, i: usize) -> (r: bool)
    requires
        i + p@.len() <= s@.len(),
    ensures
        r == (s@.subrange(i as int, i + p@.len()) == p@),
{
    let mut j: usize = 0;
    while j < p.len()
        invariant
            i + p@.len() <= s.len(),
            j <= p@.len(),
            forall|k: int| 0 <= k < j ==> s@[i + k] == p@[k],
        decreases p@.len() - j,
    {
        if s[i + j] != p[j] {
            assert(s@.subrange(i as int, i + p@.len())[j as int] != p@[j as int]);
            return false;
        }
        j = j + 1;
    }
    assert(s@.subrange(i as int, i + p@.len()) =~= p@);
    true
}

/// `str::starts_with` with a string pattern.
pub fn starts_with_str(s: &str, p: &str) -> (r: bool)
    ensures
        r == starts_with(s@, p@),
{
    let x = chars_of(s);
    let y = chars_of(p);
    if y.len() > x.len() {
        return false;
    }
    let r = chars_match_at(&x, &y, 0);
    assert(x@.subrange(0, y@.len() as int) =~= x@.take(y@.len() as int));
    r
}

/// `str::ends_with` with a string pattern.
pub fn ends_with_str(s: &str, p: &str) -> (r: bool)
    ensures
        r == ends_with(s@, p@),
{
    let x = chars_of(s);
    let y = chars_of(p);
    if y.len() > x.len() {
        return false;
    }
    let r = chars_match_at(&x, &y, x.len() - y.len());
    assert(x@.subrange(x@.len() - y@.len(), x@.len() as int) =~= x@.skip(x@.len() - y@.len()));
    r
}

/// `str::contains` with a string pattern.
pub fn contains_str(s: &str, p: &str) -> (r: bool)
    ensures
        r == has_sub(s@, p@),
{
    let x = chars_of(s);
    let y = chars_of(p);
    if y.len() > x.len() {
        proof {
            assert forall|i: int| !occurs_at(s@, p@, i) by {}
        }
        return false;
    }
    if y.len() == 0 {
        assert(s@.subrange(0, 0) =~= p@);
        assert(occurs_at(s@, p@, 0));
        return true;
    }
    let mut i: usize = 0;
    while i <= x.len() - y.len()
        invariant
            x@ == s@,
            y@ == p@,
            1 <= y@.len() <= x@.len(),
            i <= x@.len() - y@.len() + 1,
            forall|k: int| 0 <= k < i ==> !occurs_at(s@, p@, k),
        decreases x@.len() - y@.len() + 1 - i,
    {
        if chars_match_at(&x, &y, i) {
            assert(occurs_at(s@, p@, i as int));
            return true;
        }
        i = i + 1;
    }
    proof {
        assert forall|k: int| !occurs_at(s@, p@, k) by {
            if 0 <= k && k < i {
            }
        }
    }
    false
}

/// `str::contains` with a character pattern.
pub fn contains_char(s: &str, c: char) -> (r: bool)
    ensures
        r == s@.contains(c),
{
    let x = chars_of(s);
    let mut i: usize = 0;
    while i < x.len()
        invariant
            x@ == s@,
            i <= x@.len(),
            forall|k: int| 0 <= k < i ==> x@[k] != c,
        decreases x@.len() - i,
    {
        if x[i] == c {
            return true;
        }
        i = i + 1;
    }
    false
}

// ---------------------------------------------------------------------------
// Numbers and joins
// ---------------------------------------------------------------------------

pub open spec fn digit(d: nat) -> char {
    if d == 0 { '0' } else if d == 1 { '1' } else if d == 2 { '2' } else if d == 3 { '3' }
    else if d == 4 { '4' } else if d == 5 { '5' } else if d == 6 { '6' } else if d == 7 { '7' }
    else if d == 8 { '8' } else { '9' }
}

/// Decimal rendering of a natural number (as `{}` formats an unsigned integer).
pub open spec fn dec(n: nat) -> Seq<char>
    decreases n,
{
    if n < 10 {
        seq![digit(n)]
    } else {
        dec(n / 10).push(digit(n % 10))
    }
}

fn digit_char(d: usize) -> (c: char)
    requires
        d < 10,
    ensures
        c == digit(d as nat),
{
    if d == 0 { '0' } else if d == 1 { '1' } else if d == 2 { '2' } else if d == 3 { '3' }
    else if d == 4 { '4' } else if d == 5 { '5' } else if d == 6 { '6' } else if d == 7 { '7' }
    else if d == 8 { '8' } else { '9' }
}

/// Decimal text of `n`.
pub fn fmt_usize(n: usize) -> (s: String)
    ensures
        s@ == dec(n as nat),
    decreases n,
{
    if n < 10 {
        let mut s = String::new();
        push_char(&mut s, digit_char(n));
        s
    } else {
        let mut s = fmt_usize(n / 10);
        push_char(&mut s, digit_char(n % 10));
        s
    }
}

/// Decimal text of a `u64`.
pub fn fmt_u64(n: u64) -> (s: String)
    ensures
        s@ == dec(n as nat),
    decreases n,
{
    if n < 10 {
        let mut s = String::new();
        push_char(&mut s, digit_char(n as usize));
        s
    } else {
        let mut s = fmt_u64(n / 10);
        push_char(&mut s, digit_char((n % 10) as usize));
        s
    }
}

/// Appends the decimal text of `n`.
pub fn push_usize(s: &mut String, n: usize)
    ensures
        final(s)@ == old(s)@ + dec(n as nat),
{
    let t = fmt_usize(n);
    push_str(s, t.as_str());
}

/// `parts` joined with `sep` between consecutive elements.
pub open spec fn join(parts: Seq<Seq<char>>, sep: Seq<char>) -> Seq<char>
    decreases parts.len(),
{
    if parts.len() == 0 {
        Seq::empty()
    } else if parts.len() == 1 {
        parts[0]
    } else {
        join(parts.drop_last(), sep) + sep + parts.last()
    }
}

/// `[String]::join`.
pub fn join_strings(v: &Vec<String>, sep: &str) -> (r: String)
    ensures
        r@ == join(strs(v@), sep@),
{
    let mut r = String::new();
    let mut i: usize = 0;
    while i < v.len()
        invariant
            i <= v@.len(),
            r@ == join(strs(v@).take(i as int), sep@),
        decreases v@.len() - i,
    {
        if i != 0 {
            push_str(&mut r, sep);
        }
        push_str(&mut r, v[i].as_str());
        assert(strs(v@).take(i + 1).drop_last() =~= strs(v@).take(i as int));
        i = i + 1;
    }
    assert(strs(v@).take(v@.len() as int) =~= strs(v@));
    r
}

// ---------------------------------------------------------------------------
// Search, case, whitespace, character maps
// ---------------------------------------------------------------------------

/// First position `>= i` where `p` occurs in `s`, if any.
pub open spec fn find_from(s: Seq<char>, p: Seq<char>, i: int) -> Option<int>
    decreases s.len() + 1 - i,
{
    if i < 0 || i + p.len() > s.len() {
        None
    } else if occurs_at(s, p, i) {
        Some(i)
    } else {
        find_from(s, p, i + 1)
    }
}

/// First position where `p` occurs in `s` (`str::find`, counted in characters).
pub open spec fn find(s: Seq<char>, p: Seq<char>) -> Option<int> {
    find_from(s, p, 0)
}

/// Position of the first occurrence of `p` in `s`, counted in characters.
pub fn find_str(s: &str, p: &str) -> (r: Option<usize>)
    ensures
        match r {
            Some(i) => find(s@, p@) == Some(i as int),
            None => find(s@, p@) is None,
        },
{
    let x = chars_of(s);
    let y = chars_of(p);
    find_in(&x, &y, 0)
}

/// `find_from` over character vectors.
pub fn find_in(x: &Vec<char>, y: &Vec<char>, start: usize) -> (r: Option<usize>)
    requires
        start <= x@.len(),
    ensures
        match r {
            Some(i) => find_from(x@, y@, start as int) == Some(i as int),
            None => find_from(x@, y@, start as int) is None,
        },
    decreases x@.len() - start,
{
    if y.len() > x.len() - start {
        return None;
    }
    if chars_match_at(x, y, start) {
        return Some(start);
    }
    if start == x.len() {
        assert(x@.subrange(start as int, start as int) =~= y@);
        return None;
    }
    find_in(x, y, start + 1)
}

/// `p` found by `find_from` really occurs there and nowhere before it.
pub proof fn lemma_find_from(s: Seq<char>, p: Seq<char>, i: int)
    requires
        0 <= i,
    ensures
        match find_from(s, p, i) {
            Some(k) => i <= k && occurs_at(s, p, k) && forall|j: int| i <= j < k ==> !occurs_at(s, p, j),
            None => forall|j: int| i <= j ==> !occurs_at(s, p, j),
        },
    decreases s.len() + 1 - i,
{
    if i + p.len() > s.len() {
    } else if occurs_at(s, p, i) {
    } else {
        lemma_find_from(s, p, i + 1);
    }
}

/// ASCII lower-casing of one character (`char::to_ascii_lowercase`).
pub open spec fn lower_char(c: char) -> char {
    if 'A' <= c && c <= 'Z' {
        (((c as u8) + 32) as u8) as char
    } else {
        c
    }
}

/// ASCII upper-casing of one character (`char::to_ascii_uppercase`).
pub open spec fn upper_char(c: char) -> char {
    if 'a' <= c && c <= 'z' {
        (((c as u8) - 32) as u8) as char
    } else {
        c
    }
}

pub open spec fn lower(s: Seq<char>) -> Seq<char> {
    s.map_values(|c: char| lower_char(c))
}

pub open spec fn upper(s: Seq<char>) -> Seq<char> {
    s.map_values(|c: char| upper_char(c))
}

fn lower_char_exec(c: char) -> (r: char)
    ensures
        r == lower_char(c),
{
    if 'A' <= c && c <= 'Z' {
        ((c as u8) + 32) as char
    } else {
        c
    }
}

fn upper_char_exec(c: char) -> (r: char)
    ensures
        r == upper_char(c),
{
    if 'a' <= c && c <= 'z' {
        ((c as u8) - 32) as char
    } else {
        c
    }
}

/// `str::to_ascii_lowercase`.
pub fn to_ascii_lower(s: &str) -> (r: String)
    ensures
        r@ == lower(s@),
{
    let x = chars_of(s);
    let mut r = String::new();
    let mut i: usize = 0;
    while i < x.len()
        invariant
            x@ == s@,
            i <= x@.len(),
            r@ == lower(s@).take(i as int),
        decreases x@.len() - i,
    {
        push_char(&mut r, lower_char_exec(x[i]));
        assert(lower(s@).take(i + 1) =~= lower(s@).take(i as int).push(lower_char(x@[i as int])));
        i = i + 1;
    }
    assert(lower(s@).take(x@.len() as int) =~= lower(s@));
    r
}

/// `str::to_ascii_uppercase`.
pub fn to_ascii_upper(s: &str) -> (r: String)
    ensures
        r@ == upper(s@),
{
    let x = chars_of(s);
    let mut r = String::new();
    let mut i: usize = 0;
    while i < x.len()
        invariant
            x@ == s@,
            i <= x@.len(),
            r@ == upper(s@).take(i as int),
        decreases x@.len() - i,
    {
        push_char(&mut r, upper_char_exec(x[i]));
        assert(upper(s@).take(i + 1) =~= upper(s@).take(i as int).push(upper_char(x@[i as int])));
        i = i + 1;
    }
    assert(upper(s@).take(x@.len() as int) =~= upper(s@));
    r
}

/// `str::eq_ignore_ascii_case`.
pub fn eq_ignore_case(a: &str, b: &str) -> (r: bool)
    ensures
        r == (lower(a@) == lower(b@)),
{
    let x = to_ascii_lower(a);
    let y = to_ascii_lower(b);
    str_eq(x.as_str(), y.as_str())
}

/// Unicode `White_Space` (what `char::is_whitespace` tests).
pub open spec fn ws(c: char) -> bool {
    ('\u{9}' <= c && c <= '\u{d}') || c == ' ' || c == '\u{85}' || c == '\u{a0}' || c == '\u{1680}'
        || ('\u{2000}' <= c && c <= '\u{200a}') || c == '\u{2028}' || c == '\u{2029}' || c == '\u{202f}'
        || c == '\u{205f}' || c == '\u{3000}'
}

pub fn is_ws(c: char) -> (r: bool)
    ensures
        r == ws(c),
{
    ('\u{9}' <= c && c <= '\u{d}') || c == ' ' || c == '\u{85}' || c == '\u{a0}' || c == '\u{1680}'
        || ('\u{2000}' <= c && c <= '\u{200a}') || c == '\u{2028}' || c == '\u{2029}' || c == '\u{202f}'
        || c == '\u{205f}' || c == '\u{3000}'
}

/// Number of leading characters satisfying `ws`.
pub open spec fn lead_ws(s: Seq<char>) -> nat
    decreases s.len(),
{
    if s.len() > 0 && ws(s[0]) {
        1 + lead_ws(s.drop_first())
    } else {
        0
    }
}

/// Number of trailing characters satisfying `ws`.
pub open spec fn trail_ws(s: Seq<char>) -> nat
    decreases s.len(),
{
    if s.len() > 0 && ws(s.last()) {
        1 + trail_ws(s.drop_last())
    } else {
        0
    }
}

/// `str::trim_start`.
pub open spec fn trim_start(s: Seq<char>) -> Seq<char> {
    s.skip(lead_ws(s) as int)
}

/// `str::trim_end`.
pub open spec fn trim_end(s: Seq<char>) -> Seq<char> {
    s.take(s.len() - trail_ws(s))
}

/// `str::trim`.
pub open spec fn trim(s: Seq<char>) -> Seq<char> {
    trim_end(trim_start(s))
}

proof fn lemma_lead_ws_bound(s: Seq<char>)
    ensures
        lead_ws(s) <= s.len(),
    decreases s.len(),
{
    if s.len() > 0 && ws(s[0]) {
        lemma_lead_ws_bound(s.drop_first());
    }
}

proof fn lemma_trail_ws_bound(s: Seq<char>)
    ensures
        trail_ws(s) <= s.len(),
    decreases s.len(),
{
    if s.len() > 0 && ws(s.last()) {
        lemma_trail_ws_bound(s.drop_last());
    }
}

/// Characters `[from, to)` of `x` as a string.
pub fn slice_string(x: &Vec<char>, from: usize, to: usize) -> (r: String)
    requires
        from <= to <= x@.len(),
    ensures
        r@ == x@.subrange(from as int, to as int),
{
    let mut r = String::new();
    let mut i: usize = from;
    while i < to
        invariant
            from <= i <= to <= x@.len(),
            r@ == x@.subrange(from as int, i as int),
        decreases to - i,
    {
        push_char(&mut r, x[i]);
        assert(x@.subrange(from as int, i + 1) =~= x@.subrange(from as int, i as int).push(x@[i as int]));
        i = i + 1;
    }
    r
}

/// Number of leading whitespace characters of `x` from position `i` on.
fn count_lead_ws(x: &Vec<char>) -> (n: usize)
    ensures
        n == lead_ws(x@),
{
    let mut i: usize = 0;
    assert(x@.skip(0) =~= x@);
    while i < x.len() && is_ws(x[i])
        invariant
            i <= x@.len(),
            lead_ws(x@) == i + lead_ws(x@.skip(i as int)),
        decreases x@.len() - i,
    {
        assert(x@.skip(i as int).drop_first() =~= x@.skip(i + 1));
        i = i + 1;
    }
    i
}

fn count_trail_ws(x: &Vec<char>) -> (n: usize)
    ensures
        n == trail_ws(x@),
{
    let mut n: usize = 0;
    assert(x@.take(x@.len() as int) =~= x@);
    while n < x.len() && is_ws(x[x.len() - 1 - n])
        invariant
            n <= x@.len(),
            trail_ws(x@) == n + trail_ws(x@.take(x@.len() - n)),
        decreases x@.len() - n,
    {
        assert(x@.take(x@.len() - n).drop_last() =~= x@.take(x@.len() - n - 1));
        n = n + 1;
    }
    n
}

/// `str::trim`.
pub fn trim_str(s: &str) -> (r: String)
    ensures
        r@ == trim(s@),
{
    let x = chars_of(s);
    let a = count_lead_ws(&x);
    proof {
        lemma_lead_ws_bound(x@);
    }
    let y = slice_vec(&x, a, x.len());
    let b = count_trail_ws(&y);
    proof {
        lemma_trail_ws_bound(y@);
    }
    slice_string(&y, 0, y.len() - b)
}

/// Characters `[from, to)` of `x`.
pub fn slice_vec(x: &Vec<char>, from: usize, to: usize) -> (r: Vec<char>)
    requires
        from <= to <= x@.len(),
    ensures
        r@ == x@.subrange(from as int, to as int),
{
    let mut r: Vec<char> = Vec::new();
    let mut i: usize = from;
    while i < to
        invariant
            from <= i <= to <= x@.len(),
            r@ == x@.subrange(from as int, i as int),
        decreases to - i,
    {
        r.push(x[i]);
        assert(x@.subrange(from as int, i + 1) =~= x@.subrange(from as int, i as int).push(x@[i as int]));
        i = i + 1;
    }
    r
}

/// Every `from` character replaced by `to`.
pub open spec fn replace_char(s: Seq<char>, from: char, to: char) -> Seq<char> {
    s.map_values(|c: char| if c == from { to } else { c })
}

/// `str::replace` with single-character pattern and replacement.
pub fn replace_char_str(s: &str, from: char, to: char) -> (r: String)
    ensures
        r@ == replace_char(s@, from, to),
{
    let x = chars_of(s);
    let mut r = String::new();
    let mut i: usize = 0;
    while i < x.len()
        invariant
            x@ == s@,
            i <= x@.len(),
            r@ == replace_char(s@, from, to).take(i as int),
        decreases x@.len() - i,
    {
        let c = x[i];
        push_char(&mut r, if c == from { to } else { c });
        assert(replace_char(s@, from, to).take(i + 1) =~= replace_char(s@, from, to).take(i as int).push(
            if c == from { to } else { c },
        ));
        i = i + 1;
    }
    assert(replace_char(s@, from, to).take(x@.len() as int) =~= replace_char(s@, from, to));
    r
}

// ---------------------------------------------------------------------------
// Optional strings and association-list steps
// ---------------------------------------------------------------------------

/// View of an optional string.
pub open spec fn opt_view(o: Option<String>) -> Option<Seq<char>> {
    match o {
        Some(s) => Some(s@),
        None => None,
    }
}

/// Clone of an optional string.
pub fn clone_opt(o: &Option<String>) -> (r: Option<String>)
    ensures
        opt_view(r) == opt_view(*o),
{
    match o {
        Some(s) => Some(s.clone()),
        None => None,
    }
}

/// Clone of a vector of strings.
pub fn clone_strings(v: &Vec<String>) -> (r: Vec<String>)
    ensures
        strs(r@) == strs(v@),
{
    let mut r: Vec<String> = Vec::new();
    let mut i: usize = 0;
    while i < v.len()
        invariant
            i <= v@.len(),
            strs(r@) == strs(v@).take(i as int),
        decreases v@.len() - i,
    {
        r.push(v[i].clone());
        assert(strs(v@).take(i + 1) =~= strs(v@).take(i as int).push(v@[i as int]@));
        i = i + 1;
    }
    assert(strs(v@).take(v@.len() as int) =~= strs(v@));
    r
}

/// Looking a key up in one more entry of a sorted map.
pub proof fn lemma_lookup_take_step<V>(m: Seq<(String, V)>, i: int, q: Seq<char>)
    requires
        is_map(m),
        0 <= i < m.len(),
    ensures
        lookup(m.take(i + 1), q) == if m[i].0@ == q {
            Some(m[i].1)
        } else {
            lookup(m.take(i), q)
        },
    decreases i,
{
    let a = m.take(i + 1);
    let b = m.take(i);
    if i == 0 {
        assert(b.len() == 0);
        assert(a[0] == m[0]);
        assert(a.len() == 1);
        if m[0].0@ != q {
            assert(a.drop_first().len() == 0);
            assert(lookup(a.drop_first(), q) is None);
        }
    } else {
        assert(a[0] == m[0]);
        assert(b[0] == m[0]);
        if m[0].0@ == q {
            assert(lt(keys(m)[0], keys(m)[i]));
            lemma_lt_irrefl(q);
        } else {
            lemma_map_tail(m);
            assert(a.drop_first() =~= m.drop_first().take(i));
            assert(b.drop_first() =~= m.drop_first().take(i - 1));
            lemma_lookup_take_step(m.drop_first(), i - 1, q);
            assert(m.drop_first()[i - 1] == m[i]);
        }
    }
}

/// Strings pushed onto the view of a vector of strings.
pub proof fn lemma_strs_push(v: Seq<String>, x: String)
    ensures
        strs(v.push(x)) == strs(v).push(x@),
{
    assert(strs(v.push(x)) =~= strs(v).push(x@));
}

// ---------------------------------------------------------------------------
// Concatenation helpers and character stripping
// ---------------------------------------------------------------------------

pub fn cat2(a: &str, b: &str) -> (r: String)
    ensures
        r@ == a@ + b@,
{
    let mut r = owned(a);
    push_str(&mut r, b);
    r
}

pub fn cat3(a: &str, b: &str, c: &str) -> (r: String)
    ensures
        r@ == a@ + b@ + c@,
{
    let mut r = owned(a);
    push_str(&mut r, b);
    push_str(&mut r, c);
    r
}

pub fn cat4(a: &str, b: &str, c: &str, d: &str) -> (r: String)
    ensures
        r@ == a@ + b@ + c@ + d@,
{
    let mut r = owned(a);
    push_str(&mut r, b);
    push_str(&mut r, c);
    push_str(&mut r, d);
    r
}

pub fn cat5(a: &str, b: &str, c: &str, d: &str, e: &str) -> (r: String)
    ensures
        r@ == a@ + b@ + c@ + d@ + e@,
{
    let mut r = owned(a);
    push_str(&mut r, b);
    push_str(&mut r, c);
    push_str(&mut r, d);
    push_str(&mut r, e);
    r
}

/// Number of leading `c` characters.
pub open spec fn lead_count(s: Seq<char>, c: char) -> nat
    decreases s.len(),
{
    if s.len() > 0 && s[0] == c {
        1 + lead_count(s.drop_first(), c)
    } else {
        0
    }
}

/// Number of trailing `c` characters.
pub open spec fn trail_count(s: Seq<char>, c: char) -> nat
    decreases s.len(),
{
    if s.len() > 0 && s.last() == c {
        1 + trail_count(s.drop_last(), c)
    } else {
        0
    }
}

proof fn lemma_lead_count_bound(s: Seq<char>, c: char)
    ensures
        lead_count(s, c) <= s.len(),
    decreases s.len(),
{
    if s.len() > 0 && s[0] == c {
        lemma_lead_count_bound(s.drop_first(), c);
    }
}

proof fn lemma_trail_count_bound(s: Seq<char>, c: char)
    ensures
        trail_count(s, c) <= s.len(),
    decreases s.len(),
{
    if s.len() > 0 && s.last() == c {
        lemma_trail_count_bound(s.drop_last(), c);
    }
}

/// `str::trim_matches` with a character pattern.
pub open spec fn trim_char(s: Seq<char>, c: char) -> Seq<char> {
    let t = s.skip(lead_count(s, c) as int);
    t.take(t.len() - trail_count(t, c))
}

/// `str::trim_start_matches` with a character pattern.
pub open spec fn trim_start_char(s: Seq<char>, c: char) -> Seq<char> {
    s.skip(lead_count(s, c) as int)
}

fn count_lead(x: &Vec<char>, c: char) -> (n: usize)
    ensures
        n == lead_count(x@, c),
{
    let mut i: usize = 0;
    assert(x@.skip(0) =~= x@);
    while i < x.len() && x[i] == c
        invariant
            i <= x@.len(),
            lead_count(x@, c) == i + lead_count(x@.skip(i as int), c),
        decreases x@.len() - i,
    {
        assert(x@.skip(i as int).drop_first() =~= x@.skip(i + 1));
        i = i + 1;
    }
    i
}

fn count_trail(x: &Vec<char>, c: char) -> (n: usize)
    ensures
        n == trail_count(x@, c),
{
    let mut n: usize = 0;
    assert(x@.take(x@.len() as int) =~= x@);
    while n < x.len() && x[x.len() - 1 - n] == c
        invariant
            n <= x@.len(),
            trail_count(x@, c) == n + trail_count(x@.take(x@.len() - n), c),
        decreases x@.len() - n,
    {
        assert(x@.take(x@.len() - n).drop_last() =~= x@.take(x@.len() - n - 1));
        n = n + 1;
    }
    n
}

/// `str::trim_matches(c)`.
pub fn trim_char_str(s: &str, c: char) -> (r: String)
    ensures
        r@ == trim_char(s@, c),
{
    let x = chars_of(s);
    let a = count_lead(&x, c);
    proof {
        lemma_lead_count_bound(x@, c);
    }
    let y = slice_vec(&x, a, x.len());
    let b = count_trail(&y, c);
    proof {
        lemma_trail_count_bound(y@, c);
    }
    slice_string(&y, 0, y.len() - b)
}

/// `str::trim_start_matches(c)`.
pub fn trim_start_char_str(s: &str, c: char) -> (r: String)
    ensures
        r@ == trim_start_char(s@, c),
{
    let x = chars_of(s);
    let a = count_lead(&x, c);
    proof {
        lemma_lead_count_bound(x@, c);
    }
    slice_string(&x, a, x.len())
}

/// Text after the last `c` (the whole text when `c` does not occur):
/// the first item of `str::rsplit(c)`.
pub open spec fn after_last(s: Seq<char>, c: char) -> Seq<char>
    decreases s.len(),
{
    if s.len() == 0 {
        s
    } else if s.last() == c {
        Seq::empty()
    } else {
        after_last(s.drop_last(), c).push(s.last())
    }
}

/// First item of `str::rsplit(c)`.
pub fn after_last_str(s: &str, c: char) -> (r: String)
    ensures
        r@ == after_last(s@, c),
{
    let x = chars_of(s);
    let mut j: usize = x.len();
    assert(x@.take(x@.len() as int) =~= x@);
    assert(x@.skip(x@.len() as int) =~= Seq::<char>::empty());
    while j > 0 && x[j - 1] != c
        invariant
            j <= x@.len(),
            after_last(x@, c) == after_last(x@.take(j as int), c) + x@.skip(j as int),
        decreases j,
    {
        assert(x@.take(j as int).drop_last() =~= x@.take(j - 1));
        assert(x@.skip(j - 1) =~= seq![x@[j - 1]] + x@.skip(j as int));
        j = j - 1;
    }
    if j > 0 {
        assert(after_last(x@.take(j as int), c) =~= Seq::<char>::empty());
    }
    assert(x@.subrange(j as int, x@.len() as int) =~= x@.skip(j as int));
    slice_string(&x, j, x.len())
}

// ---------------------------------------------------------------------------
// Identifier-like tokens
// ---------------------------------------------------------------------------

/// `char::is_ascii_alphanumeric`.
pub open spec fn ascii_alnum(c: char) -> bool {
    ('0' <= c && c <= '9') || ('a' <= c && c <= 'z') || ('A' <= c && c <= 'Z')
}

pub fn is_ascii_alnum(c: char) -> (r: bool)
    ensures
        r == ascii_alnum(c),
{
    ('0' <= c && c <= '9') || ('a' <= c && c <= 'z') || ('A' <= c && c <= 'Z')
}

/// Characters that belong to a crate-name token: ASCII alphanumerics, `-`, `_`.
pub open spec fn name_char(c: char) -> bool {
    ascii_alnum(c) || c == '-' || c == '_'
}

/// `str::split` on every character that is not a [`name_char`] (empty
/// pieces included, as `split` yields them).
pub open spec fn name_tokens(s: Seq<char>) -> Seq<Seq<char>>
    decreases s.len(),
{
    if s.len() == 0 {
        seq![Seq::empty()]
    } else {
        let t = name_tokens(s.drop_last());
        if name_char(s.last()) {
            t.update(t.len() - 1, t.last().push(s.last()))
        } else {
            t.push(Seq::empty())
        }
    }
}

pub proof fn lemma_name_tokens_nonempty(s: Seq<char>)
    ensures
        name_tokens(s).len() >= 1,
    decreases s.len(),
{
    if s.len() > 0 {
        lemma_name_tokens_nonempty(s.drop_last());
    }
}

/// The pieces of [`name_tokens`].
pub fn split_name_tokens(s: &str) -> (r: Vec<String>)
    ensures
        strs(r@) == name_tokens(s@),
{
    let x = chars_of(s);
    let mut done: Vec<String> = Vec::new();
    let mut cur: Vec<char> = Vec::new();
    let mut i: usize = 0;
    assert(x@.take(0) =~= Seq::<char>::empty());
    assert(strs(done@).push(cur@) =~= name_tokens(x@.take(0)));
    while i < x.len()
        invariant
            x@ == s@,
            i <= x@.len(),
            strs(done@).push(cur@) == name_tokens(x@.take(i as int)),
        decreases x@.len() - i,
    {
        let c = x[i];
        proof {
            assert(x@.take(i + 1).drop_last() =~= x@.take(i as int));
            assert(x@.take(i + 1).last() == c);
            lemma_name_tokens_nonempty(x@.take(i as int));
        }
        if is_ascii_alnum(c) || c == '-' || c == '_' {
            cur.push(c);
            assert(strs(done@).push(cur@) =~= name_tokens(x@.take(i + 1)));
        } else {
            let t = from_chars(cur.as_slice());
            let ghost d0 = done@;
            done.push(t);
            proof {
                lemma_strs_push(d0, t);
            }
            cur = Vec::new();
            assert(strs(done@).push(cur@) =~= name_tokens(x@.take(i + 1)));
        }
        i = i + 1;
    }
    assert(x@.take(x@.len() as int) =~= x@);
    let t = from_chars(cur.as_slice());
    let ghost d0 = done@;
    done.push(t);
    proof {
        lemma_strs_push(d0, t);
    }
    done
}

/// `{:?}` text of a string: quoted, with `str::escape_debug` escapes.
pub uninterp spec fn debug_text(s: Seq<char>) -> Seq<char>;

/// Debug rendering of a string (`format!("{:?}", s)`); the result is named
/// [`debug_text`].
#[verifier::external_body]
pub(crate) fn debug_str(s: &str) -> (r: String)
    ensures
        r@ == debug_text(s@),
{
    format!("{:?}", s)
}

/// Debug texts of the items, joined by `, `.
pub open spec fn debug_items(items: Seq<Seq<char>>) -> Seq<char> {
    join(items.map_values(|x: Seq<char>| debug_text(x)), ", "@)
}

/// `{:?}` text of an ordered string set: `{` + items joined by `, ` + `}`.
pub open spec fn debug_set(items: Seq<Seq<char>>) -> Seq<char> {
    "{"@ + debug_items(items) + "}"@
}

/// `{:?}` text of a list of strings: `[` + items joined by `, ` + `]`.
pub open spec fn debug_list(items: Seq<Seq<char>>) -> Seq<char> {
    "["@ + debug_items(items) + "]"@
}

fn debug_joined(v: &Vec<String>) -> (r: String)
    ensures
        r@ == debug_items(strs(v@)),
{
    let mut items: Vec<String> = Vec::new();
    let mut i: usize = 0;
    while i < v.len()
        invariant
            i <= v@.len(),
            strs(items@) == strs(v@).take(i as int).map_values(|x: Seq<char>| debug_text(x)),
        decreases v@.len() - i,
    {
        let d = debug_str(v[i].as_str());
        let ghost i0 = items@;
        items.push(d);
        proof {
            lemma_strs_push(i0, d);
            assert(strs(v@).take(i + 1).map_values(|x: Seq<char>| debug_text(x)) =~= strs(v@).take(
                i as int,
            ).map_values(|x: Seq<char>| debug_text(x)).push(debug_text(v@[i as int]@)));
        }
        i = i + 1;
    }
    assert(strs(v@).take(v@.len() as int) =~= strs(v@));
    join_strings(&items, ", ")
}

/// Debug rendering of an ordered string set.
pub fn debug_string_set(v: &Vec<String>) -> (r: String)
    ensures
        r@ == debug_set(strs(v@)),
{
    let j = debug_joined(v);
    cat3("{", j.as_str(), "}")
}

/// Debug rendering of a list of strings.
pub fn debug_string_list(v: &Vec<String>) -> (r: String)
    ensures
        r@ == debug_list(strs(v@)),
{
    let j = debug_joined(v);
    cat3("[", j.as_str(), "]")
}

/// Value under key `k` in an association list (first match, any order).
pub fn assoc_get<'a, V>(m: &'a Vec<(String, V)>, k: &str) -> (r: Option<&'a V>)
    ensures
        match r {
            Some(x) => lookup(m@, k@) == Some(*x),
            None => lookup(m@, k@) is None,
        },
{
    let mut i: usize = 0;
    assert(m@.skip(0) =~= m@);
    while i < m.len()
        invariant
            i <= m@.len(),
            lookup(m@, k@) == lookup(m@.skip(i as int), k@),
        decreases m@.len() - i,
    {
        assert(m@.skip(i as int)[0] == m@[i as int]);
        if str_eq(m[i].0.as_str(), k) {
            return Some(&m[i].1);
        }
        assert(m@.skip(i as int).drop_first() =~= m@.skip(i + 1));
        i = i + 1;
    }
    None
}

// ---------------------------------------------------------------------------
// Concatenation, set difference, last occurrence
// ---------------------------------------------------------------------------

/// The parts written one after another.
pub open spec fn concat(parts: Seq<Seq<char>>) -> Seq<char>
    decreases parts.len(),
{
    if parts.len() == 0 {
        Seq::empty()
    } else {
        concat(parts.drop_last()) + parts.last()
    }
}

/// `s` with every `c` written as `t` (`str::replace` of a character).
pub open spec fn replace_with(s: Seq<char>, c: char, t: Seq<char>) -> Seq<char>
    decreases s.len(),
{
    if s.len() == 0 {
        Seq::empty()
    } else {
        replace_with(s.drop_last(), c, t) + if s.last() == c {
            t
        } else {
            seq![s.last()]
        }
    }
}

/// `str::replace(c, t)`.
pub fn replace_char_with(s: &str, c: char, t: &str) -> (r: String)
    ensures
        r@ == replace_with(s@, c, t@),
{
    let x = chars_of(s);
    let mut r = String::new();
    let mut i: usize = 0;
    while i < x.len()
        invariant
            x@ == s@,
            i <= x@.len(),
            r@ == replace_with(s@.take(i as int), c, t@),
        decreases x@.len() - i,
    {
        assert(s@.take(i + 1).drop_last() =~= s@.take(i as int));
        if x[i] == c {
            push_str(&mut r, t);
        } else {
            push_char(&mut r, x[i]);
            assert(r@ =~= replace_with(s@.take(i as int), c, t@) + seq![x@[i as int]]);
        }
        i = i + 1;
    }
    assert(s@.take(x@.len() as int) =~= s@);
    r
}

/// Elements of `a` that `b` does not contain, in the order of `a`.
pub open spec fn without(a: Seq<Seq<char>>, b: Seq<Seq<char>>) -> Seq<Seq<char>>
    decreases a.len(),
{
    if a.len() == 0 {
        Seq::empty()
    } else if b.contains(a.last()) {
        without(a.drop_last(), b)
    } else {
        without(a.drop_last(), b).push(a.last())
    }
}

/// At most the first `n` elements.
pub open spec fn first_n<A>(s: Seq<A>, n: nat) -> Seq<A> {
    if s.len() <= n {
        s
    } else {
        s.take(n as int)
    }
}

/// Pushing a greater element keeps a sequence strictly sorted.
pub proof fn lemma_sorted_push(s: Seq<Seq<char>>, x: Seq<char>)
    requires
        sorted(s),
        s.len() > 0 ==> lt(s.last(), x),
    ensures
        sorted(s.push(x)),
{
    let t = s.push(x);
    assert forall|a: int, b: int| 0 <= a < b < t.len() implies lt(t[a], t[b]) by {
        if b == s.len() {
            if a < s.len() - 1 {
                lemma_lt_trans(s[a], s.last(), x);
            }
        }
    }
}

/// `a` minus the elements of `b`, in the order of `a` (for sorted sets,
/// `BTreeSet::difference`).
pub fn strings_without(a: &Vec<String>, b: &Vec<String>) -> (r: Vec<String>)
    ensures
        strs(r@) == without(strs(a@), strs(b@)),
        sorted(strs(a@)) ==> sorted(strs(r@)),
{
    let mut r: Vec<String> = Vec::new();
    let mut i: usize = 0;
    while i < a.len()
        invariant
            i <= a@.len(),
            strs(r@) == without(strs(a@).take(i as int), strs(b@)),
            sorted(strs(a@)) ==> sorted(strs(r@)),
            r@.len() > 0 ==> exists|j: int| 0 <= j < i && strs(r@).last() == #[trigger] strs(a@)[j],
        decreases a@.len() - i,
    {
        assert(strs(a@).take(i + 1).drop_last() =~= strs(a@).take(i as int));
        assert(strs(a@).take(i + 1).last() == a@[i as int]@);
        if !set_contains(b, a[i].as_str()) {
            let ghost r0 = r@;
            proof {
                if sorted(strs(a@)) && r0.len() > 0 {
                    let j = choose|j: int| 0 <= j < i && strs(r0).last() == #[trigger] strs(a@)[j];
                    assert(lt(strs(a@)[j], strs(a@)[i as int]));
                    lemma_sorted_push(strs(r0), a@[i as int]@);
                }
                if sorted(strs(a@)) && r0.len() == 0 {
                    lemma_sorted_push(strs(r0), a@[i as int]@);
                }
            }
            r.push(a[i].clone());
            proof {
                lemma_strs_push(r0, r@.last());
                assert(strs(r@).last() == strs(a@)[i as int]);
            }
        }
        i = i + 1;
    }
    assert(strs(a@).take(a@.len() as int) =~= strs(a@));
    r
}

/// Index of the last element equal to `k`.
pub open spec fn last_index(ks: Seq<Seq<char>>, k: Seq<char>) -> Option<int>
    decreases ks.len(),
{
    if ks.len() == 0 {
        None
    } else if ks.last() == k {
        Some(ks.len() - 1)
    } else {
        last_index(ks.drop_last(), k)
    }
}

/// `last_index` stays in bounds and points at `k`.
pub proof fn lemma_last_index(ks: Seq<Seq<char>>, k: Seq<char>)
    ensures
        match last_index(ks, k) {
            Some(i) => 0 <= i < ks.len() && ks[i] == k,
            None => !ks.contains(k),
        },
    decreases ks.len(),
{
    if ks.len() > 0 && ks.last() != k {
        lemma_last_index(ks.drop_last(), k);
        if ks.contains(k) {
            let j = choose|j: int| 0 <= j < ks.len() && ks[j] == k;
            assert(ks.drop_last()[j] == k);
        }
    }
}

/// Position of the last string equal to `k`.
pub fn last_index_of(v: &Vec<String>, k: &str) -> (r: Option<usize>)
    ensures
        match r {
            Some(i) => last_index(strs(v@), k@) == Some(i as int) && i < v@.len(),
            None => last_index(strs(v@), k@) is None,
        },
{
    let mut j: usize = v.len();
    assert(strs(v@).take(v@.len() as int) =~= strs(v@));
    while j > 0
        invariant
            j <= v@.len(),
            last_index(strs(v@), k@) == last_index(strs(v@).take(j as int), k@),
        decreases j,
    {
        assert(strs(v@).take(j as int).drop_last() =~= strs(v@).take(j - 1));
        if str_eq(v[j - 1].as_str(), k) {
            return Some(j - 1);
        }
        j = j - 1;
    }
    None
}

/// Sorted distinct strings of `v`.
pub fn sorted_distinct(v: &Vec<String>) -> (r: Vec<String>)
    ensures
        is_set(r@),
        strs(r@).to_set() == strs(v@).to_set(),
{
    let mut r: Vec<String> = Vec::new();
    let mut i: usize = 0;
    while i < v.len()
        invariant
            i <= v@.len(),
            is_set(r@),
            strs(r@).to_set() == strs(v@).take(i as int).to_set(),
        decreases v@.len() - i,
    {
        set_insert(&mut r, v[i].clone());
        assert(strs(v@).take(i + 1) =~= strs(v@).take(i as int).push(v@[i as int]@));
        proof {
            strs(v@).take(i as int).lemma_push_to_set_commute(v@[i as int]@);
        }
        i = i + 1;
    }
    assert(strs(v@).take(v@.len() as int) =~= strs(v@));
    r
}

// ---------------------------------------------------------------------------
// Splitting and stripping
// ---------------------------------------------------------------------------

/// `str::split(c)`: the pieces between occurrences of `c`.
pub open spec fn split_on(s: Seq<char>, c: char) -> Seq<Seq<char>>
    decreases s.len(),
{
    if s.len() == 0 {
        seq![Seq::empty()]
    } else {
        let r = split_on(s.drop_last(), c);
        if s.last() == c {
            r.push(Seq::empty())
        } else {
            r.update(r.len() - 1, r.last().push(s.last()))
        }
    }
}

pub proof fn lemma_split_nonempty(s: Seq<char>, c: char)
    ensures
        split_on(s, c).len() >= 1,
    decreases s.len(),
{
    if s.len() > 0 {
        lemma_split_nonempty(s.drop_last(), c);
    }
}

/// `str::split(c)` into owned pieces.
pub fn split_char(s: &str, c: char) -> (r: Vec<String>)
    ensures
        strs(r@) == split_on(s@, c),
{
    let x = chars_of(s);
    let mut pieces: Vec<String> = Vec::new();
    let mut cur = String::new();
    let mut i: usize = 0;
    while i < x.len()
        invariant
            x@ == s@,
            i <= x@.len(),
            split_on(s@.take(i as int), c) == strs(pieces@).push(cur@),
        decreases x@.len() - i,
    {
        assert(s@.take(i + 1).drop_last() =~= s@.take(i as int));
        if x[i] == c {
            let ghost p0 = pieces@;
            pieces.push(cur);
            cur = String::new();
            proof {
                lemma_strs_push(p0, pieces@.last());
                assert(split_on(s@.take(i + 1), c) =~= strs(pieces@).push(cur@));
            }
        } else {
            let ghost c0 = cur@;
            push_char(&mut cur, x[i]);
            assert(split_on(s@.take(i + 1), c) =~= strs(pieces@).push(cur@));
        }
        i = i + 1;
    }
    assert(s@.take(x@.len() as int) =~= s@);
    let ghost p0 = pieces@;
    pieces.push(cur);
    proof {
        lemma_strs_push(p0, pieces@.last());
    }
    pieces
}

/// `str::strip_suffix(p).unwrap_or(s)`.
pub open spec fn drop_suffix(s: Seq<char>, p: Seq<char>) -> Seq<char> {
    if ends_with(s, p) {
        s.take(s.len() - p.len())
    } else {
        s
    }
}

pub fn drop_suffix_str(s: &str, p: &str) -> (r: String)
    ensures
        r@ == drop_suffix(s@, p@),
{
    if ends_with_str(s, p) {
        let x = chars_of(s);
        let y = chars_of(p);
        slice_string(&x, 0, x.len() - y.len())
    } else {
        owned(s)
    }
}

/// `str::strip_prefix(p).unwrap_or(s)`.
pub open spec fn drop_prefix(s: Seq<char>, p: Seq<char>) -> Seq<char> {
    if starts_with(s, p) {
        s.skip(p.len() as int)
    } else {
        s
    }
}

pub fn drop_prefix_str(s: &str, p: &str) -> (r: String)
    ensures
        r@ == drop_prefix(s@, p@),
{
    if starts_with_str(s, p) {
        let x = chars_of(s);
        let y = chars_of(p);
        assert(x@.subrange(y@.len() as int, x@.len() as int) =~= x@.skip(y@.len() as int));
        slice_string(&x, y.len(), x.len())
    } else {
        owned(s)
    }
}

/// `str::trim_start_matches(p)` for a non-empty pattern.
pub open spec fn drop_prefixes(s: Seq<char>, p: Seq<char>) -> Seq<char>
    decreases s.len(),
{
    if p.len() > 0 && starts_with(s, p) {
        drop_prefixes(s.skip(p.len() as int), p)
    } else {
        s
    }
}

pub fn drop_prefixes_str(s: &str, p: &str) -> (r: String)
    ensures
        r@ == drop_prefixes(s@, p@),
{
    let mut cur = owned(s);
    let pc = chars_of(p);
    if pc.len() == 0 {
        return cur;
    }
    while starts_with_str(cur.as_str(), p)
        invariant
            p@.len() > 0,
            drop_prefixes(cur@, p@) == drop_prefixes(s@, p@),
        decreases cur@.len(),
    {
        let next = drop_prefix_str(cur.as_str(), p);
        cur = next;
    }
    cur
}

/// First index of `c`.
pub open spec fn index_of(s: Seq<char>, c: char) -> Option<int>
    decreases s.len(),
{
    if s.len() == 0 {
        None
    } else {
        match index_of(s.drop_last(), c) {
            Some(i) => Some(i),
            None => if s.last() == c {
                Some(s.len() - 1)
            } else {
                None
            },
        }
    }
}

pub proof fn lemma_index_of(s: Seq<char>, c: char)
    ensures
        match index_of(s, c) {
            Some(i) => 0 <= i < s.len() && s[i] == c && forall|j: int| 0 <= j < i ==> s[j] != c,
            None => forall|j: int| 0 <= j < s.len() ==> s[j] != c,
        },
    decreases s.len(),
{
    if s.len() > 0 {
        lemma_index_of(s.drop_last(), c);
        assert(forall|j: int| 0 <= j < s.len() - 1 ==> s.drop_last()[j] == s[j]);
    }
}

/// `str::split_once(c)`.
pub open spec fn split_once(s: Seq<char>, c: char) -> Option<(Seq<char>, Seq<char>)> {
    match index_of(s, c) {
        Some(i) => Some((s.take(i), s.skip(i + 1))),
        None => None,
    }
}

pub fn split_once_str(s: &str, c: char) -> (r: Option<(String, String)>)
    ensures
        match r {
            Some((a, b)) => split_once(s@, c) == Some((a@, b@)),
            None => split_once(s@, c) is None,
        },
{
    let x = chars_of(s);
    let mut i: usize = 0;
    while i < x.len()
        invariant
            x@ == s@,
            i <= x@.len(),
            index_of(s@.take(i as int), c) is None,
        decreases x@.len() - i,
    {
        assert(s@.take(i + 1).drop_last() =~= s@.take(i as int));
        if x[i] == c {
            proof {
                lemma_index_of(s@, c);
                lemma_index_of(s@.take(i as int), c);
                lemma_index_of(s@.take(i + 1), c);
                assert(index_of(s@.take(i + 1), c) == Some(i as int));
                lemma_index_prefix(s@, c, i + 1);
            }
            let a = slice_string(&x, 0, i);
            let b = slice_string(&x, i + 1, x.len());
            assert(x@.subrange(0, i as int) =~= s@.take(i as int));
            assert(x@.subrange(i + 1, x@.len() as int) =~= s@.skip(i + 1));
            return Some((a, b));
        }
        i = i + 1;
    }
    assert(s@.take(x@.len() as int) =~= s@);
    None
}

/// A first occurrence found in a prefix is the first occurrence overall.
pub proof fn lemma_index_prefix(s: Seq<char>, c: char, n: int)
    requires
        0 <= n <= s.len(),
        index_of(s.take(n), c) is Some,
    ensures
        index_of(s, c) == index_of(s.take(n), c),
    decreases s.len() - n,
{
    if n < s.len() {
        assert(s.take(n + 1).drop_last() =~= s.take(n));
        lemma_index_prefix(s, c, n + 1);
    } else {
        assert(s.take(n) =~= s);
    }
}

// ---------------------------------------------------------------------------
// Lines
// ---------------------------------------------------------------------------

/// `str::trim_start`.
pub fn trim_start_str(s: &str) -> (r: String)
    ensures
        r@ == trim_start(s@),
{
    let x = chars_of(s);
    let a = count_lead_ws(&x);
    proof {
        lemma_lead_ws_bound(x@);
    }
    assert(x@.subrange(a as int, x@.len() as int) =~= x@.skip(a as int));
    slice_string(&x, a, x.len())
}

/// The lines of a text as `str::lines` yields them, before trimming: split at
/// `\n`, without the empty piece after a final newline.  (A `\r` before the
/// `\n` stays on the line; every caller trims lines.)
pub open spec fn raw_lines(s: Seq<char>) -> Seq<Seq<char>> {
    let p = split_on(s, '\n');
    if p.last().len() == 0 {
        p.drop_last()
    } else {
        p
    }
}

/// `raw_lines` as strings.
pub fn raw_lines_of(s: &str) -> (r: Vec<String>)
    ensures
        strs(r@) == raw_lines(s@),
{
    let mut p = split_char(s, '\n');
    proof {
        lemma_split_nonempty(s@, '\n');
    }
    let n = p.len();
    if chars_of(p[n - 1].as_str()).len() == 0 {
        let ghost p0 = p@;
        p.pop();
        assert(strs(p@) =~= strs(p0).drop_last());
    }
    p
}

/// Bytes of a character in UTF-8.
pub open spec fn char_width(c: char) -> nat {
    if (c as u32) < 0x80 {
        1
    } else if (c as u32) < 0x800 {
        2
    } else if (c as u32) < 0x10000 {
        3
    } else {
        4
    }
}

/// Bytes of a character in UTF-8, as a number.
pub(crate) fn width_of(c: char) -> (w: usize)
    ensures
        w == char_width(c),
{
    let u = c as u32;
    if u < 0x80 {
        1
    } else if u < 0x800 {
        2
    } else if u < 0x10000 {
        3
    } else {
        4
    }
}

// ---------------------------------------------------------------------------
// Canonical order of a string set
// ---------------------------------------------------------------------------

/// The strictly sorted list of a finite string set (`BTreeSet` order).
pub open spec fn canon(s: Set<Seq<char>>) -> Seq<Seq<char>> {
    choose|v: Seq<Seq<char>>| sorted(v) && v.to_set() == s
}

/// A strictly sorted list is the canonical list of its elements.
pub proof fn lemma_canon(v: Seq<Seq<char>>)
    requires
        sorted(v),
    ensures
        canon(v.to_set()) == v,
{
    let c = canon(v.to_set());
    assert(sorted(v) && v.to_set() == v.to_set());
    lemma_sorted_unique(c, v);
}

proof fn lemma_sorted_unique(a: Seq<Seq<char>>, b: Seq<Seq<char>>)
    requires
        sorted(a),
        sorted(b),
        a.to_set() == b.to_set(),
    ensures
        a == b,
    decreases a.len() + b.len(),
{
    if a.len() == 0 {
        if b.len() > 0 {
            assert(b.to_set().contains(b[0]));
        }
        assert(a =~= b);
    } else if b.len() == 0 {
        assert(a.to_set().contains(a[0]));
    } else {
        assert(a.to_set().contains(a[0]));
        assert(b.to_set().contains(b[0]));
        assert(b.contains(a[0]));
        assert(a.contains(b[0]));
        let i = choose|i: int| 0 <= i < b.len() && b[i] == a[0];
        let j = choose|j: int| 0 <= j < a.len() && a[j] == b[0];
        if a[0] != b[0] {
            assert(i > 0);
            assert(j > 0);
            assert(lt(b[0], b[i]));
            assert(lt(a[0], a[j]));
            lemma_lt_asym(a[0], b[0]);
        }
        let a1 = a.drop_first();
        let b1 = b.drop_first();
        assert(sorted(a1)) by {
            assert forall|x: int, y: int| 0 <= x < y < a1.len() implies lt(a1[x], a1[y]) by {
                assert(a1[x] == a[x + 1] && a1[y] == a[y + 1]);
            }
        }
        assert(sorted(b1)) by {
            assert forall|x: int, y: int| 0 <= x < y < b1.len() implies lt(b1[x], b1[y]) by {
                assert(b1[x] == b[x + 1] && b1[y] == b[y + 1]);
            }
        }
        assert(a1.to_set() =~= b1.to_set()) by {
            assert forall|z: Seq<char>| a1.to_set().contains(z) <==> b1.to_set().contains(z) by {
                if a1.contains(z) {
                    let k = choose|k: int| 0 <= k < a1.len() && a1[k] == z;
                    assert(a[k + 1] == z);
                    assert(lt(a[0], z));
                    lemma_lt_irrefl(z);
                    assert(b.to_set().contains(z));
                    let m = choose|m: int| 0 <= m < b.len() && b[m] == z;
                    assert(m != 0);
                    assert(b1[m - 1] == z);
                }
                if b1.contains(z) {
                    let k = choose|k: int| 0 <= k < b1.len() && b1[k] == z;
                    assert(b[k + 1] == z);
                    assert(lt(b[0], z));
                    lemma_lt_irrefl(z);
                    assert(a.to_set().contains(z));
                    let m = choose|m: int| 0 <= m < a.len() && a[m] == z;
                    assert(m != 0);
                    assert(a1[m - 1] == z);
                }
            }
        }
        lemma_sorted_unique(a1, b1);
        assert(a =~= seq![a[0]] + a1);
        assert(b =~= seq![b[0]] + b1);
    }
}

} // verus!
