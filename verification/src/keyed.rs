//! Maps keyed by text, held as lists of pairs in increasing key order, as a
//! `BTreeMap<String, _>` holds them.
use vstd::prelude::*;
use crate::text::chars_of;

verus! {

/// Text order: lexicographic by character, a prefix first.
pub open spec fn text_lt(a: Seq<char>, b: Seq<char>) -> bool
    decreases a.len(),
{
    if a.len() == 0 {
        b.len() > 0
    } else if b.len() == 0 {
        false
    } else if a[0] != b[0] {
        a[0] < b[0]
    } else {
        text_lt(a.drop_first(), b.drop_first())
    }
}

pub proof fn lemma_text_lt_irreflexive(a: Seq<char>)
    ensures
        !text_lt(a, a),
    decreases a.len(),
{
    if a.len() > 0 {
        lemma_text_lt_irreflexive(a.drop_first());
    }
}

pub proof fn lemma_text_lt_total(a: Seq<char>, b: Seq<char>)
    ensures
        text_lt(a, b) || text_lt(b, a) || a == b,
    decreases a.len(),
{
    if a.len() > 0 && b.len() > 0 && a[0] == b[0] {
        lemma_text_lt_total(a.drop_first(), b.drop_first());
        if a.drop_first() == b.drop_first() {
            assert(a =~= seq![a[0]] + a.drop_first());
            assert(b =~= seq![b[0]] + b.drop_first());
        }
    } else if a.len() == 0 && b.len() == 0 {
        assert(a =~= b);
    }
}

pub proof fn lemma_text_lt_transitive(a: Seq<char>, b: Seq<char>, c: Seq<char>)
    requires
        text_lt(a, b),
        text_lt(b, c),
    ensures
        text_lt(a, c),
    decreases a.len(),
{
    if a.len() > 0 && b.len() > 0 && c.len() > 0 && a[0] == b[0] && b[0] == c[0] {
        lemma_text_lt_transitive(a.drop_first(), b.drop_first(), c.drop_first());
    }
}

pub proof fn lemma_text_lt_asymmetric(a: Seq<char>, b: Seq<char>)
    requires
        text_lt(a, b),
    ensures
        !text_lt(b, a),
    decreases a.len(),
{
    if a.len() > 0 && b.len() > 0 && a[0] == b[0] {
        lemma_text_lt_asymmetric(a.drop_first(), b.drop_first());
    }
}

/// Whether `a` comes before `b` in text order.
pub fn text_less(a: &str, b: &str) -> (r: bool)
    ensures
        r == text_lt(a@, b@),
{
    let x = chars_of(a);
    let y = chars_of(b);
    let mut i: usize = 0;
    assert(x@.skip(0) =~= x@);
    assert(y@.skip(0) =~= y@);
    while i < x.len() && i < y.len()
        invariant
            i <= x@.len(),
            i <= y@.len(),
            x@ == a@,
            y@ == b@,
            text_lt(a@, b@) == text_lt(x@.skip(i as int), y@.skip(i as int)),
        decreases x.len() - i,
    {
        assert(x@.skip(i as int)[0] == x@[i as int]);
        assert(y@.skip(i as int)[0] == y@[i as int]);
        if x[i] != y[i] {
            return x[i] < y[i];
        }
        assert(x@.skip(i as int).drop_first() =~= x@.skip(i + 1));
        assert(y@.skip(i as int).drop_first() =~= y@.skip(i + 1));
        i = i + 1;
    }
    i < y.len()
}

/// The pairs of a list, each seen by its view.
pub open spec fn pairs_view<V: View>(m: Seq<(String, V)>) -> Seq<(Seq<char>, V::V)> {
    m.map_values(|p: (String, V)| (p.0@, p.1@))
}

/// The keys are in strictly increasing text order.
pub open spec fn sorted_pairs<W>(m: Seq<(Seq<char>, W)>) -> bool {
    forall|i: int, j: int| 0 <= i < j < m.len() ==> text_lt(#[trigger] m[i].0, #[trigger] m[j].0)
}

pub open spec fn holds_key<W>(m: Seq<(Seq<char>, W)>, k: Seq<char>) -> bool {
    exists|i: int| 0 <= i < m.len() && (#[trigger] m[i]).0 == k
}

/// A position of a key that is held.
pub open spec fn position_of<W>(m: Seq<(Seq<char>, W)>, k: Seq<char>) -> int {
    choose|i: int| 0 <= i < m.len() && (#[trigger] m[i]).0 == k
}

/// The map a list of pairs stands for.
pub open spec fn as_map<W>(m: Seq<(Seq<char>, W)>) -> Map<Seq<char>, W> {
    Map::new(|k: Seq<char>| holds_key(m, k), |k: Seq<char>| m[position_of(m, k)].1)
}

pub proof fn lemma_as_map_at<W>(m: Seq<(Seq<char>, W)>, i: int)
    requires
        sorted_pairs(m),
        0 <= i < m.len(),
    ensures
        as_map(m).dom().contains(m[i].0),
        as_map(m)[m[i].0] == m[i].1,
{
    let k = m[i].0;
    assert(holds_key(m, k));
    let j = position_of(m, k);
    assert(0 <= j < m.len() && m[j].0 == k);
    if j != i {
        if j < i {
            assert(text_lt(m[j].0, m[i].0));
        } else {
            assert(text_lt(m[i].0, m[j].0));
        }
        lemma_text_lt_irreflexive(k);
    }
}

/// The empty list stands for the empty map.
pub proof fn lemma_as_map_empty<W>()
    ensures
        as_map(Seq::<(Seq<char>, W)>::empty()) == Map::<Seq<char>, W>::empty(),
        sorted_pairs(Seq::<(Seq<char>, W)>::empty()),
{
    assert(as_map(Seq::<(Seq<char>, W)>::empty()) =~= Map::<Seq<char>, W>::empty());
}

/// The position of a key, if it is held.
pub fn find_key<V: View>(m: &Vec<(String, V)>, k: &str) -> (r: Option<usize>)
    requires
        sorted_pairs(pairs_view(m@)),
    ensures
        match r {
            Some(i) => i < m@.len() && m@[i as int].0@ == k@ && as_map(pairs_view(m@)).dom().contains(k@)
                && as_map(pairs_view(m@))[k@] == m@[i as int].1@,
            None => !as_map(pairs_view(m@)).dom().contains(k@),
        },
{
    let ghost pv = pairs_view(m@);
    let mut i: usize = 0;
    while i < m.len()
        invariant
            pv == pairs_view(m@),
            sorted_pairs(pv),
            pv.len() == m@.len(),
            i <= m@.len(),
            forall|j: int| 0 <= j < i ==> (#[trigger] pv[j]).0 != k@,
        decreases m.len() - i,
    {
        assert(pv[i as int] == (m@[i as int].0@, m@[i as int].1@));
        if crate::text::str_eq(m[i].0.as_str(), k) {
            proof {
                lemma_as_map_at(pv, i as int);
            }
            return Some(i);
        }
        i = i + 1;
    }
    assert(!holds_key(pv, k@));
    None
}

/// The position where a key belongs: the first whose key does not come
/// before it.
fn insertion_point<V: View>(m: &Vec<(String, V)>, k: &str) -> (r: usize)
    ensures
        r <= m@.len(),
        forall|j: int| 0 <= j < r ==> text_lt(#[trigger] m@[j].0@, k@),
        r < m@.len() ==> !text_lt(m@[r as int].0@, k@),
{
    let mut i: usize = 0;
    while i < m.len()
        invariant
            i <= m@.len(),
            forall|j: int| 0 <= j < i ==> text_lt(#[trigger] m@[j].0@, k@),
        decreases m.len() - i,
    {
        if !text_less(m[i].0.as_str(), k) {
            return i;
        }
        i = i + 1;
    }
    i
}

/// Holds `v` under `k`, in place of what was held there.
pub fn insert<V: View>(m: &mut Vec<(String, V)>, k: String, v: V)
    requires
        sorted_pairs(pairs_view(old(m)@)),
    ensures
        sorted_pairs(pairs_view(final(m)@)),
        as_map(pairs_view(final(m)@)) == as_map(pairs_view(old(m)@)).insert(k@, v@),
{
    let p = insertion_point(m, k.as_str());
    let ghost km = k@;
    let ghost vv = v@;
    let ghost om = pairs_view(m@);
    if p < m.len() && crate::text::str_eq(m[p].0.as_str(), k.as_str()) {
        assert(om[p as int].0 == km);
        m[p] = (k, v);
        proof {
            let nm = pairs_view(m@);
            assert(nm =~= om.update(p as int, (km, vv)));
            assert forall|i: int, j: int| 0 <= i < j < nm.len() implies text_lt(#[trigger] nm[i].0, #[trigger] nm[j].0) by {
                assert(om[i].0 == nm[i].0);
                assert(om[j].0 == nm[j].0);
            }
            lemma_as_map_at(nm, p as int);
            assert forall|k2: Seq<char>| #[trigger] as_map(nm).dom().contains(k2) <==> as_map(om).insert(km, vv).dom().contains(k2) by {
                if holds_key(om, k2) {
                    let i = position_of(om, k2);
                    assert(nm[i].0 == om[i].0);
                }
                if holds_key(nm, k2) {
                    let i = position_of(nm, k2);
                    assert(nm[i].0 == om[i].0);
                }
            }
            assert forall|k2: Seq<char>| #[trigger] as_map(nm).dom().contains(k2) implies as_map(nm)[k2] == as_map(om).insert(km, vv)[k2] by {
                if k2 != km {
                    let i = position_of(om, k2);
                    lemma_as_map_at(om, i);
                    assert(i != p);
                    assert(nm[i] == om[i]);
                    lemma_as_map_at(nm, i);
                }
            }
            assert(as_map(nm) =~= as_map(om).insert(km, vv));
        }
    } else {
        proof {
            if p < om.len() {
                lemma_text_lt_total(om[p as int].0, km);
            }
        }
        m.insert(p, (k, v));
        proof {
            let nm = pairs_view(m@);
            assert(nm =~= om.insert(p as int, (km, vv)));
            assert forall|i: int, j: int| 0 <= i < j < nm.len() implies text_lt(#[trigger] nm[i].0, #[trigger] nm[j].0) by {
                if j == p {
                    assert(nm[i] == om[i]);
                } else if i == p {
                    assert(nm[j] == om[j - 1]);
                    if j - 1 > p {
                        lemma_text_lt_transitive(km, om[p as int].0, om[j - 1].0);
                    }
                } else if i < p {
                    if j < p {
                        assert(nm[j] == om[j]);
                    } else {
                        assert(nm[j] == om[j - 1]);
                    }
                    assert(nm[i] == om[i]);
                } else {
                    assert(nm[i] == om[i - 1]);
                    assert(nm[j] == om[j - 1]);
                }
            }
            lemma_as_map_at(nm, p as int);
            assert forall|k2: Seq<char>| #[trigger] as_map(nm).dom().contains(k2) <==> as_map(om).insert(km, vv).dom().contains(k2) by {
                if holds_key(om, k2) {
                    let i = position_of(om, k2);
                    let i2 = if i < p { i } else { i + 1 };
                    assert(nm[i2] == om[i]);
                }
                if holds_key(nm, k2) {
                    let i = position_of(nm, k2);
                    if i < p {
                        assert(nm[i] == om[i]);
                    } else if i > p {
                        assert(nm[i] == om[i - 1]);
                    }
                }
            }
            assert forall|k2: Seq<char>| #[trigger] as_map(nm).dom().contains(k2) implies as_map(nm)[k2] == as_map(om).insert(km, vv)[k2] by {
                if k2 != km {
                    let i = position_of(om, k2);
                    lemma_as_map_at(om, i);
                    let i2 = if i < p { i } else { i + 1 };
                    assert(nm[i2] == om[i]);
                    lemma_as_map_at(nm, i2);
                }
            }
            assert(as_map(nm) =~= as_map(om).insert(km, vv));
        }
    }
}

/// The value of the first pair under a key, in a list that need not be
/// ordered.
pub open spec fn first_value<W>(m: Seq<(Seq<char>, W)>, k: Seq<char>) -> Option<W>
    decreases m.len(),
{
    if m.len() == 0 {
        None
    } else {
        match first_value(m.drop_last(), k) {
            Some(v) => Some(v),
            None => if m.last().0 == k {
                Some(m.last().1)
            } else {
                None
            },
        }
    }
}

proof fn lemma_first_value_prefix<W>(m: Seq<(Seq<char>, W)>, n: nat, k: Seq<char>)
    requires
        n <= m.len(),
        first_value(m.take(n as int), k) is Some,
    ensures
        first_value(m, k) == first_value(m.take(n as int), k),
    decreases m.len() - n,
{
    if n < m.len() {
        assert(m.take((n + 1) as int).drop_last() =~= m.take(n as int));
        lemma_first_value_prefix(m, n + 1, k);
    } else {
        assert(m.take(n as int) =~= m);
    }
}

/// The position of the first pair under a key.
pub fn find_first<V: View>(m: &Vec<(String, V)>, k: &str) -> (r: Option<usize>)
    ensures
        match r {
            Some(i) => i < m@.len() && first_value(pairs_view(m@), k@) == Some(m@[i as int].1@),
            None => first_value(pairs_view(m@), k@) is None,
        },
{
    let ghost pv = pairs_view(m@);
    let mut i: usize = 0;
    while i < m.len()
        invariant
            pv == pairs_view(m@),
            i <= m@.len(),
            first_value(pv.take(i as int), k@) is None,
        decreases m.len() - i,
    {
        assert(pv.take(i + 1).drop_last() =~= pv.take(i as int));
        assert(pv.take(i + 1).last() == pv[i as int]);
        if crate::text::str_eq(m[i].0.as_str(), k) {
            proof {
                lemma_first_value_prefix(pv, (i + 1) as nat, k@);
            }
            return Some(i);
        }
        i = i + 1;
    }
    assert(pv.take(i as int) =~= pv);
    None
}

/// Whether the keys of a list of pairs are in strictly increasing order.
pub fn keys_in_order<V: View>(m: &Vec<(String, V)>) -> (r: bool)
    ensures
        r == sorted_pairs(pairs_view(m@)),
{
    let ghost pv = pairs_view(m@);
    if m.len() == 0 {
        return true;
    }
    let mut i: usize = 1;
    while i < m.len()
        invariant
            pv == pairs_view(m@),
            pv.len() == m@.len(),
            1 <= i <= m@.len(),
            sorted_pairs(pv.take(i as int)),
        decreases m.len() - i,
    {
        assert(pv[i - 1] == (m@[i - 1].0@, m@[i - 1].1@));
        assert(pv[i as int] == (m@[i as int].0@, m@[i as int].1@));
        if !text_less(m[i - 1].0.as_str(), m[i].0.as_str()) {
            proof {
                if sorted_pairs(pv) {
                    let a: int = i - 1;
                    let b: int = i as int;
                    assert(0 <= a < b < pv.len());
                    assert(text_lt(pv[a].0, pv[b].0));
                }
            }
            return false;
        }
        let ghost t = pv.take(i + 1);
        assert forall|a: int, b: int| 0 <= a < b < t.len() implies text_lt(#[trigger] t[a].0, #[trigger] t[b].0) by {
            assert(t[a] == pv[a] && t[b] == pv[b]);
            if b < i {
                assert(pv.take(i as int)[a] == pv[a] && pv.take(i as int)[b] == pv[b]);
            } else if a < i - 1 {
                assert(pv.take(i as int)[a] == pv[a] && pv.take(i as int)[i - 1] == pv[i - 1]);
                lemma_text_lt_transitive(pv[a].0, pv[i - 1].0, pv[b].0);
            }
        }
        i = i + 1;
    }
    assert(pv.take(i as int) =~= pv);
    true
}

} // verus!
