//! Name/count tallies and their orderings.
use vstd::prelude::*;
use crate::text::{chars_of, str_eq};

verus! {

// ── Lexicographic order on names ────────────────────────────────────────────

/// `a` sorts before `b`: lexicographic order by code point, which is the order
/// of `String`'s `Ord` (UTF-8 preserves code-point order byte by byte).
pub open spec fn lex_lt(a: Seq<char>, b: Seq<char>) -> bool
    decreases a.len(),
{
    if a.len() == 0 {
        b.len() > 0
    } else if b.len() == 0 {
        false
    } else if a[0] != b[0] {
        a[0] < b[0]
    } else {
        lex_lt(a.drop_first(), b.drop_first())
    }
}

pub proof fn lemma_lex_irreflexive(a: Seq<char>)
    ensures
        !lex_lt(a, a),
    decreases a.len(),
{
    if a.len() > 0 {
        lemma_lex_irreflexive(a.drop_first());
    }
}

pub proof fn lemma_lex_transitive(a: Seq<char>, b: Seq<char>, c: Seq<char>)
    requires
        lex_lt(a, b),
        lex_lt(b, c),
    ensures
        lex_lt(a, c),
    decreases a.len(),
{
    if a.len() > 0 && b.len() > 0 && c.len() > 0 && a[0] == b[0] && b[0] == c[0] {
        lemma_lex_transitive(a.drop_first(), b.drop_first(), c.drop_first());
    }
}

pub proof fn lemma_lex_total(a: Seq<char>, b: Seq<char>)
    requires
        a != b,
    ensures
        lex_lt(a, b) || lex_lt(b, a),
    decreases a.len(),
{
    if a.len() > 0 && b.len() > 0 && a[0] == b[0] {
        if a.drop_first() == b.drop_first() {
            assert(a =~= seq![a[0]] + a.drop_first());
            assert(b =~= seq![b[0]] + b.drop_first());
        }
        lemma_lex_total(a.drop_first(), b.drop_first());
    } else if a.len() == 0 && b.len() == 0 {
        assert(a =~= b);
    }
}

/// `a < b` on strings.
pub fn str_lt(a: &str, b: &str) -> (r: bool)
    ensures
        r == lex_lt(a@, b@),
{
    let x = chars_of(a);
    let y = chars_of(b);
    let mut i: usize = 0;
    assert(a@.skip(0) =~= a@);
    assert(b@.skip(0) =~= b@);
    while i < x.len() && i < y.len()
        invariant
            x@ == a@,
            y@ == b@,
            0 <= i <= x.len(),
            i <= y.len(),
            lex_lt(a@, b@) == lex_lt(a@.skip(i as int), b@.skip(i as int)),
        decreases x.len() - i,
    {
        if x[i] != y[i] {
            assert(a@.skip(i as int)[0] == x@[i as int]);
            assert(b@.skip(i as int)[0] == y@[i as int]);
            return x[i] < y[i];
        }
        assert(a@.skip(i as int).drop_first() =~= a@.skip(i + 1));
        assert(b@.skip(i as int).drop_first() =~= b@.skip(i + 1));
        i = i + 1;
    }
    i == x.len() && i < y.len()
}

// ── Tallies ─────────────────────────────────────────────────────────────────

/// A tally: names with counts.
pub type Tally = Seq<(Seq<char>, u32)>;

/// No name is listed twice.
pub open spec fn names_unique(t: Tally) -> bool {
    forall|i: int, j: int| 0 <= i < t.len() && 0 <= j < t.len() && i != j ==> #[trigger] t[i].0 != #[trigger] t[j].0
}

/// The count that `t` records for each listed name.
pub open spec fn tally_map(t: Tally) -> Map<Seq<char>, u32>
    decreases t.len(),
{
    if t.len() == 0 {
        Map::empty()
    } else {
        tally_map(t.drop_last()).insert(t.last().0, t.last().1)
    }
}

pub proof fn lemma_tally_map_index(t: Tally, i: int)
    requires
        names_unique(t),
        0 <= i < t.len(),
    ensures
        tally_map(t).contains_key(t[i].0),
        tally_map(t)[t[i].0] == t[i].1,
    decreases t.len(),
{
    if i < t.len() - 1 {
        assert(t.drop_last()[i] == t[i]);
        assert(t.last().0 != t[i].0) by {
            assert(t[t.len() - 1] == t.last());
        }
        lemma_tally_map_index(t.drop_last(), i);
    }
}

pub proof fn lemma_tally_map_domain(t: Tally, name: Seq<char>)
    ensures
        tally_map(t).contains_key(name) <==> exists|i: int| 0 <= i < t.len() && #[trigger] t[i].0 == name,
    decreases t.len(),
{
    if t.len() > 0 {
        lemma_tally_map_domain(t.drop_last(), name);
        if exists|i: int| 0 <= i < t.drop_last().len() && #[trigger] t.drop_last()[i].0 == name {
            let i = choose|i: int| 0 <= i < t.drop_last().len() && #[trigger] t.drop_last()[i].0 == name;
            assert(t[i].0 == name);
        }
        if exists|i: int| 0 <= i < t.len() && #[trigger] t[i].0 == name {
            let i = choose|i: int| 0 <= i < t.len() && #[trigger] t[i].0 == name;
            if i < t.len() - 1 {
                assert(t.drop_last()[i].0 == name);
            }
        }
    }
}

/// The sum of all counts of a tally.
pub open spec fn tally_sum(t: Tally) -> nat
    decreases t.len(),
{
    if t.len() == 0 {
        0
    } else {
        tally_sum(t.drop_last()) + t.last().1 as nat
    }
}

/// Each count is at most the sum of all counts.
pub proof fn lemma_tally_count_le_sum(t: Tally, name: Seq<char>)
    requires
        names_unique(t),
        tally_map(t).contains_key(name),
    ensures
        tally_map(t)[name] <= tally_sum(t),
    decreases t.len(),
{
    lemma_tally_map_domain(t, name);
    let i = choose|i: int| 0 <= i < t.len() && #[trigger] t[i].0 == name;
    lemma_tally_map_index(t, i);
    lemma_tally_index_le_sum(t, i);
}

proof fn lemma_tally_index_le_sum(t: Tally, i: int)
    requires
        0 <= i < t.len(),
    ensures
        t[i].1 <= tally_sum(t),
    decreases t.len(),
{
    if i < t.len() - 1 {
        assert(t.drop_last()[i] == t[i]);
        lemma_tally_index_le_sum(t.drop_last(), i);
    }
}

proof fn lemma_tally_sum_update(t: Tally, i: int, c: u32)
    requires
        0 <= i < t.len(),
    ensures
        tally_sum(t.update(i, (t[i].0, c))) == tally_sum(t) - t[i].1 + c,
    decreases t.len(),
{
    let u = t.update(i, (t[i].0, c));
    if i == t.len() - 1 {
        assert(u.drop_last() =~= t.drop_last());
    } else {
        assert(u.drop_last() =~= t.drop_last().update(i, (t[i].0, c)));
        assert(t.drop_last()[i] == t[i]);
        lemma_tally_sum_update(t.drop_last(), i, c);
    }
}

/// `name` counted once more: its count grows by one, or it enters with 1.
pub open spec fn tally_bump(m: Map<Seq<char>, u32>, name: Seq<char>) -> Map<Seq<char>, u32> {
    if m.contains_key(name) {
        m.insert(name, (m[name] + 1) as u32)
    } else {
        m.insert(name, 1)
    }
}

proof fn lemma_tally_map_update(t: Tally, i: int, c: u32)
    requires
        names_unique(t),
        0 <= i < t.len(),
    ensures
        tally_map(t.update(i, (t[i].0, c))) == tally_map(t).insert(t[i].0, c),
    decreases t.len(),
{
    let u = t.update(i, (t[i].0, c));
    if i == t.len() - 1 {
        assert(u.drop_last() =~= t.drop_last());
        assert(tally_map(t.drop_last()).insert(t[i].0, c) =~= tally_map(t).insert(t[i].0, c));
    } else {
        assert(u.drop_last() =~= t.drop_last().update(i, (t[i].0, c)));
        assert(t.drop_last()[i] == t[i]);
        lemma_tally_map_update(t.drop_last(), i, c);
        assert(t.last().0 != t[i].0) by {
            assert(t[t.len() - 1] == t.last());
        }
        assert(u.last() == t.last());
        assert(tally_map(u) =~= tally_map(t).insert(t[i].0, c));
    }
}

/// `name` counted once more, keeping the order of first appearance: its entry
/// is updated in place, or appended.
pub open spec fn tally_seq_bump(t: Tally, name: Seq<char>) -> Tally {
    if exists|i: int| 0 <= i < t.len() && #[trigger] t[i].0 == name {
        let i = choose|i: int| 0 <= i < t.len() && #[trigger] t[i].0 == name;
        t.update(i, (name, (t[i].1 + 1) as u32))
    } else {
        t.push((name, 1u32))
    }
}

/// Each name of `names`, in order, counted in `t` (order of first appearance).
pub open spec fn tally_seq_all(t: Tally, names: Seq<Seq<char>>) -> Tally
    decreases names.len(),
{
    if names.len() == 0 {
        t
    } else {
        tally_seq_bump(tally_seq_all(t, names.drop_last()), names.last())
    }
}

/// Counts `name` once more in `counts`.
pub fn tally_add(counts: &mut Vec<(String, u32)>, name: &str)
    requires
        names_unique(old(counts).deep_view()),
        tally_map(old(counts).deep_view()).contains_key(name@) ==> tally_map(old(counts).deep_view())[name@] < u32::MAX,
    ensures
        names_unique(final(counts).deep_view()),
        tally_map(final(counts).deep_view()) == tally_bump(tally_map(old(counts).deep_view()), name@),
        tally_sum(final(counts).deep_view()) == tally_sum(old(counts).deep_view()) + 1,
        final(counts).deep_view() == tally_seq_bump(old(counts).deep_view(), name@),
{
    let ghost t = counts.deep_view();
    let mut i: usize = 0;
    while i < counts.len()
        invariant
            0 <= i <= counts.len(),
            t == counts.deep_view(),
            t == old(counts).deep_view(),
            names_unique(t),
            tally_map(t).contains_key(name@) ==> tally_map(t)[name@] < u32::MAX,
            forall|j: int| 0 <= j < i ==> #[trigger] t[j].0 != name@,
        decreases counts.len() - i,
    {
        if str_eq(counts[i].0.as_str(), name) {
            assert(t[i as int].0 == name@);
            proof {
                lemma_tally_map_index(t, i as int);
            }
            assert(counts[i as int].1 == t[i as int].1);
            let c = counts[i].1 + 1;
            let entry = (counts[i].0.clone(), c);
            counts.set(i, entry);
            proof {
                assert(counts.deep_view() =~= t.update(i as int, (t[i as int].0, c)));
                lemma_tally_map_update(t, i as int, c);
                lemma_tally_sum_update(t, i as int, c);
                assert(exists|k: int| 0 <= k < t.len() && #[trigger] t[k].0 == name@);
                let k = choose|k: int| 0 <= k < t.len() && #[trigger] t[k].0 == name@;
                assert(k == i);
                assert forall|a: int, b: int| 0 <= a < counts.deep_view().len() && 0 <= b < counts.deep_view().len() && a != b
                    implies #[trigger] counts.deep_view()[a].0 != #[trigger] counts.deep_view()[b].0 by {
                    assert(counts.deep_view()[a].0 == t[a].0);
                    assert(counts.deep_view()[b].0 == t[b].0);
                }
            }
            return;
        }
        i = i + 1;
    }
    counts.push((name.to_owned(), 1));
    proof {
        assert(counts.deep_view() =~= t.push((name@, 1u32)));
        assert(!exists|k: int| 0 <= k < t.len() && #[trigger] t[k].0 == name@);
        lemma_tally_map_domain(t, name@);
        assert(counts.deep_view().drop_last() =~= t);
        assert(tally_sum(counts.deep_view()) == tally_sum(t) + 1);
        assert forall|a: int, b: int| 0 <= a < counts.deep_view().len() && 0 <= b < counts.deep_view().len() && a != b
            implies #[trigger] counts.deep_view()[a].0 != #[trigger] counts.deep_view()[b].0 by {
            if a < t.len() && b < t.len() {
                assert(counts.deep_view()[a].0 == t[a].0);
                assert(counts.deep_view()[b].0 == t[b].0);
            } else if a < t.len() {
                assert(counts.deep_view()[a].0 == t[a].0);
            } else {
                assert(counts.deep_view()[b].0 == t[b].0);
            }
        }
    }
}

/// Each name of `names`, in order, counted once more.
pub open spec fn tally_bump_all(m: Map<Seq<char>, u32>, names: Seq<Seq<char>>) -> Map<Seq<char>, u32>
    decreases names.len(),
{
    if names.len() == 0 {
        m
    } else {
        tally_bump(tally_bump_all(m, names.drop_last()), names.last())
    }
}

/// Counts each name of `names` once more in `counts`.
pub fn tally_add_all(counts: &mut Vec<(String, u32)>, names: &Vec<String>)
    requires
        names_unique(old(counts).deep_view()),
        tally_sum(old(counts).deep_view()) + names.len() <= u32::MAX,
    ensures
        names_unique(final(counts).deep_view()),
        tally_map(final(counts).deep_view()) == tally_bump_all(tally_map(old(counts).deep_view()), names.deep_view()),
        tally_sum(final(counts).deep_view()) == tally_sum(old(counts).deep_view()) + names.len(),
{
    let mut i: usize = 0;
    while i < names.len()
        invariant
            0 <= i <= names.len(),
            names_unique(counts.deep_view()),
            tally_sum(old(counts).deep_view()) + names.len() <= u32::MAX,
            tally_sum(counts.deep_view()) == tally_sum(old(counts).deep_view()) + i,
            tally_map(counts.deep_view()) == tally_bump_all(tally_map(old(counts).deep_view()), names.deep_view().take(i as int)),
        decreases names.len() - i,
    {
        proof {
            if tally_map(counts.deep_view()).contains_key(names[i as int]@) {
                lemma_tally_count_le_sum(counts.deep_view(), names[i as int]@);
            }
        }
        tally_add(counts, names[i].as_str());
        assert(names.deep_view().take(i + 1).drop_last() =~= names.deep_view().take(i as int));
        i = i + 1;
    }
    assert(names.deep_view().take(names.len() as int) =~= names.deep_view());
}

// ── Rankings ────────────────────────────────────────────────────────────────

/// The order of a ranking: by count, highest first, ties by name ascending
/// (`by_count`); or by name ascending alone.
pub open spec fn ranks_before(a: (Seq<char>, u32), b: (Seq<char>, u32), by_count: bool) -> bool {
    if by_count && a.1 != b.1 {
        a.1 > b.1
    } else {
        lex_lt(a.0, b.0)
    }
}

/// `r` lists the entries of `t` in the order of `ranks_before`.
pub open spec fn is_ranking(r: Tally, t: Tally, by_count: bool) -> bool {
    &&& r.len() == t.len()
    &&& forall|x: (Seq<char>, u32)| r.contains(x) <==> t.contains(x)
    &&& forall|i: int, j: int| 0 <= i < j < r.len() ==> ranks_before(#[trigger] r[i], #[trigger] r[j], by_count)
}

proof fn lemma_ranks_transitive(a: (Seq<char>, u32), b: (Seq<char>, u32), c: (Seq<char>, u32), by_count: bool)
    requires
        ranks_before(a, b, by_count),
        ranks_before(b, c, by_count),
    ensures
        ranks_before(a, c, by_count),
{
    if by_count && (a.1 != b.1 || b.1 != c.1) {
    } else {
        lemma_lex_transitive(a.0, b.0, c.0);
    }
}

proof fn lemma_ranks_total(a: (Seq<char>, u32), b: (Seq<char>, u32), by_count: bool)
    requires
        a.0 != b.0,
    ensures
        ranks_before(a, b, by_count) || ranks_before(b, a, by_count),
{
    lemma_lex_total(a.0, b.0);
}

fn ranks_before_exec(a: &(String, u32), b: &(String, u32), by_count: bool) -> (r: bool)
    ensures
        r == ranks_before(a.deep_view(), b.deep_view(), by_count),
{
    if by_count && a.1 != b.1 {
        a.1 > b.1
    } else {
        str_lt(a.0.as_str(), b.0.as_str())
    }
}

/// The entries of `t` ranked: by count descending then name ascending
/// (`by_count`), or by name ascending.
pub fn rank(t: &Vec<(String, u32)>, by_count: bool) -> (r: Vec<(String, u32)>)
    requires
        names_unique(t.deep_view()),
    ensures
        is_ranking(r.deep_view(), t.deep_view(), by_count),
        names_unique(r.deep_view()),
{
    let ghost src = t.deep_view();
    let mut out: Vec<(String, u32)> = Vec::new();
    let mut i: usize = 0;
    while i < t.len()
        invariant
            0 <= i <= t.len(),
            src == t.deep_view(),
            names_unique(src),
            out.len() == i,
            names_unique(out.deep_view()),
            forall|x: (Seq<char>, u32)| out.deep_view().contains(x) <==> src.take(i as int).contains(x),
            forall|a: int, b: int| 0 <= a < b < out.len() ==> ranks_before(#[trigger] out.deep_view()[a], #[trigger] out.deep_view()[b], by_count),
        decreases t.len() - i,
    {
        let ghost o = out.deep_view();
        let ghost x = src[i as int];
        let item = (t[i].0.clone(), t[i].1);
        assert(item.deep_view() == x);
        // x's name is not yet in out
        assert forall|k: int| 0 <= k < o.len() implies #[trigger] o[k].0 != x.0 by {
            assert(o.contains(o[k]));
            assert(src.take(i as int).contains(o[k]));
            let m = choose|m: int| 0 <= m < i && #[trigger] src.take(i as int)[m] == o[k];
            assert(src[m] == o[k]);
        }
        let mut p: usize = 0;
        while p < out.len() && !ranks_before_exec(&item, &out[p], by_count)
            invariant
                0 <= p <= out.len(),
                o == out.deep_view(),
                item.deep_view() == x,
                forall|k: int| 0 <= k < p ==> !ranks_before(x, #[trigger] o[k], by_count),
            decreases out.len() - p,
        {
            p = p + 1;
        }
        out.insert(p, item);
        proof {
            let n = out.deep_view();
            assert(n =~= o.insert(p as int, x));
            assert forall|k: int| 0 <= k < p implies ranks_before(#[trigger] o[k], x, by_count) by {
                lemma_ranks_total(o[k], x, by_count);
            }
            if p < o.len() {
                assert forall|k: int| p <= k < o.len() implies ranks_before(x, #[trigger] o[k], by_count) by {
                    if k > p {
                        lemma_ranks_transitive(x, o[p as int], o[k], by_count);
                    }
                }
            }
            assert forall|a: int, b: int| 0 <= a < b < n.len() implies ranks_before(#[trigger] n[a], #[trigger] n[b], by_count) by {
                if a < p && b < p {
                    assert(n[a] == o[a] && n[b] == o[b]);
                } else if a < p && b == p {
                    assert(n[a] == o[a] && n[b] == x);
                } else if a < p {
                    assert(n[a] == o[a] && n[b] == o[b - 1]);
                } else if a == p {
                    assert(n[a] == x && n[b] == o[b - 1]);
                } else {
                    assert(n[a] == o[a - 1] && n[b] == o[b - 1]);
                }
            }
            assert forall|a: int, b: int| 0 <= a < n.len() && 0 <= b < n.len() && a != b
                implies #[trigger] n[a].0 != #[trigger] n[b].0 by {
                let oa = if a < p { a } else { a - 1 };
                let ob = if b < p { b } else { b - 1 };
                if a != p && b != p {
                    assert(n[a] == o[oa] && n[b] == o[ob]);
                } else if a == p {
                    assert(n[a] == x && n[b] == o[ob]);
                } else {
                    assert(n[b] == x && n[a] == o[oa]);
                }
            }
            assert(src.take(i + 1) =~= src.take(i as int).push(x));
            assert forall|y: (Seq<char>, u32)| n.contains(y) <==> src.take(i + 1).contains(y) by {
                if n.contains(y) {
                    let k = choose|k: int| 0 <= k < n.len() && #[trigger] n[k] == y;
                    if k < p {
                        assert(o[k] == y);
                        assert(o.contains(y));
                    } else if k > p {
                        assert(o[k - 1] == y);
                        assert(o.contains(y));
                    }
                    if y != x {
                        assert(src.take(i as int).contains(y));
                        let m = choose|m: int| 0 <= m < i && #[trigger] src.take(i as int)[m] == y;
                        assert(src.take(i + 1)[m] == y);
                    } else {
                        assert(src.take(i + 1)[i as int] == y);
                    }
                }
                if src.take(i + 1).contains(y) {
                    let m = choose|m: int| 0 <= m < i + 1 && #[trigger] src.take(i + 1)[m] == y;
                    if m < i {
                        assert(src.take(i as int)[m] == y);
                        assert(src.take(i as int).contains(y));
                        assert(o.contains(y));
                        let k = choose|k: int| 0 <= k < o.len() && #[trigger] o[k] == y;
                        if k < p {
                            assert(n[k] == y);
                        } else {
                            assert(n[k + 1] == y);
                        }
                    } else {
                        assert(n[p as int] == y);
                    }
                }
            }
        }
        i = i + 1;
    }
    proof {
        assert(src.take(t.len() as int) =~= src);
    }
    out
}

} // verus!
