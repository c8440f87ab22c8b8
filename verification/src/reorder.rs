//! JSON read back in key order: `serde_json` reads each JSON object into a
//! map ordered by key, so what the library writes with its members in
//! schema order comes back with the same members in key order. Reading a
//! document out of such a value gives what reading the written value gives,
//! whenever the maps the document holds are in key order themselves.
use vstd::prelude::*;
use crate::json::JsonView;
use crate::keyed::{lemma_text_lt_asymmetric, lemma_text_lt_irreflexive, sorted_pairs, text_lt};
use crate::model::{AttestationView, HostView, ManifestView, ProvenanceView, PublisherView, SchemaView, SubjectView};
use crate::ordered::{
    attestation_ordered, host_ordered, json_ordered, lemma_items_ordered, lemma_parse_all_each, lemma_unknown_subseq,
    lemma_values_ordered, manifest_ordered, members_ordered, opt_members_ordered, provenance_ordered,
    publisher_ordered, schema_ordered, subject_ordered,
};
use crate::schema::{
    all_strings, attestation_keys, attestation_parser, f_opt_object, host_keys, lookup, manifest_keys,
    manifest_parser, parse_all, provenance_keys, provenance_parser, publisher_keys, publisher_parser, schema_keys,
    schema_parser, spec_attestation, spec_host, spec_manifest, spec_provenance, spec_publisher, spec_schema,
    spec_subject, subject_keys, subject_parser, unknown_members,
};
use crate::unpack::{ConfigView, config_keys, spec_entry_config};

verus! {

/// `r` holds what `w` holds, with the members of each of its objects in
/// strictly increasing key order: the same scalars, arrays of the same
/// length with the items reordered alike, and objects whose members have
/// the same keys, each value reordered alike.
#[verifier::opaque]
pub open spec fn reordered(w: JsonView, r: JsonView) -> bool
    decreases w, 0nat,
{
    match w {
        JsonView::Array(a) => match r {
            JsonView::Array(b) => a.len() == b.len() && items_reordered(a, b, a.len()),
            _ => false,
        },
        JsonView::Object(wm) => match r {
            JsonView::Object(rm) => {
                &&& sorted_pairs(rm)
                &&& members_reordered(wm, rm, wm.len())
                &&& forall|j: int| 0 <= j < rm.len() ==> #[trigger] key_held(wm, rm[j].0)
            },
            _ => false,
        },
        _ => r == w,
    }
}

/// Some member has the key.
pub open spec fn key_held(ms: Seq<(Seq<char>, JsonView)>, k: Seq<char>) -> bool {
    exists|i: int| 0 <= i < ms.len() && (#[trigger] ms[i]).0 == k
}

/// The first `n` items of `a` are reordered into those of `b`.
pub open spec fn items_reordered(a: Seq<JsonView>, b: Seq<JsonView>, n: nat) -> bool
    decreases a, n,
{
    if n == 0 || n > a.len() {
        true
    } else {
        items_reordered(a, b, (n - 1) as nat) && reordered(a[n - 1], b[n - 1])
    }
}

/// Each of the first `n` members of `wm` has a member of `rm` with its key
/// and its value reordered.
pub open spec fn members_reordered(wm: Seq<(Seq<char>, JsonView)>, rm: Seq<(Seq<char>, JsonView)>, n: nat) -> bool
    decreases wm, n,
{
    if n == 0 || n > wm.len() {
        true
    } else {
        members_reordered(wm, rm, (n - 1) as nat) && exists|j: int|
            0 <= j < rm.len() && (#[trigger] rm[j]).0 == wm[n - 1].0 && reordered(wm[n - 1].1, rm[j].1)
    }
}

pub(crate) proof fn lemma_items_reordered(a: Seq<JsonView>, b: Seq<JsonView>, n: nat)
    requires
        n <= a.len(),
    ensures
        items_reordered(a, b, n) <==> forall|i: int| 0 <= i < n ==> reordered(#[trigger] a[i], b[i]),
    decreases n,
{
    reveal(reordered);
    if n > 0 {
        lemma_items_reordered(a, b, (n - 1) as nat);
        if forall|i: int| 0 <= i < n ==> reordered(#[trigger] a[i], b[i]) {
            assert(reordered(a[n - 1], b[n - 1]));
        }
    }
}

pub(crate) proof fn lemma_members_reordered(wm: Seq<(Seq<char>, JsonView)>, rm: Seq<(Seq<char>, JsonView)>, n: nat)
    requires
        n <= wm.len(),
    ensures
        members_reordered(wm, rm, n) <==> forall|i: int| 0 <= i < n ==> exists|j: int|
            0 <= j < rm.len() && (#[trigger] rm[j]).0 == (#[trigger] wm[i]).0 && reordered(wm[i].1, rm[j].1),
    decreases n,
{
    reveal(reordered);
    if n > 0 {
        lemma_members_reordered(wm, rm, (n - 1) as nat);
        if forall|i: int| 0 <= i < n ==> exists|j: int|
            0 <= j < rm.len() && (#[trigger] rm[j]).0 == (#[trigger] wm[i]).0 && reordered(wm[i].1, rm[j].1) {
            assert(exists|j: int|
                0 <= j < rm.len() && (#[trigger] rm[j]).0 == wm[n - 1].0 && reordered(wm[n - 1].1, rm[j].1));
        }
    }
}

/// What reordering an object means, member by member.
pub(crate) proof fn lemma_object_reordered(wm: Seq<(Seq<char>, JsonView)>, rm: Seq<(Seq<char>, JsonView)>)
    requires
        reordered(JsonView::Object(wm), JsonView::Object(rm)),
    ensures
        sorted_pairs(rm),
        forall|i: int| 0 <= i < wm.len() ==> exists|j: int|
            0 <= j < rm.len() && (#[trigger] rm[j]).0 == (#[trigger] wm[i]).0 && reordered(wm[i].1, rm[j].1),
        forall|j: int| 0 <= j < rm.len() ==> #[trigger] key_held(wm, rm[j].0),
{
    reveal(reordered);
    lemma_members_reordered(wm, rm, wm.len());
}

/// What reordering means for each kind of value: objects stay objects,
/// arrays stay arrays of the same length with their items reordered, and
/// anything else stays as it is.
pub(crate) proof fn lemma_reordered_kind(w: JsonView, r: JsonView)
    requires
        reordered(w, r),
    ensures
        w is Object ==> r is Object,
        w is Array ==> r is Array && r->Array_0.len() == w->Array_0.len() && forall|i: int|
            0 <= i < w->Array_0.len() ==> reordered(#[trigger] w->Array_0[i], r->Array_0[i]),
        !(w is Object) && !(w is Array) ==> r == w,
{
    reveal(reordered);
    if let JsonView::Array(a) = w {
        lemma_items_reordered(a, r->Array_0, a.len());
    }
}

/// A key occurs at most once in members in strictly increasing key order.
pub(crate) proof fn lemma_sorted_key_once<W>(ms: Seq<(Seq<char>, W)>, i: int, j: int)
    requires
        sorted_pairs(ms),
        0 <= i < ms.len(),
        0 <= j < ms.len(),
        ms[i].0 == ms[j].0,
    ensures
        i == j,
{
    if i < j {
        lemma_text_lt_irreflexive(ms[i].0);
    } else if j < i {
        lemma_text_lt_irreflexive(ms[j].0);
    }
}

/// Two lists of pairs in strictly increasing key order that hold the same
/// pairs are the same list.
pub(crate) proof fn lemma_sorted_same<W>(a: Seq<(Seq<char>, W)>, b: Seq<(Seq<char>, W)>)
    requires
        sorted_pairs(a),
        sorted_pairs(b),
        forall|i: int| 0 <= i < a.len() ==> b.contains(#[trigger] a[i]),
        forall|j: int| 0 <= j < b.len() ==> a.contains(#[trigger] b[j]),
    ensures
        a == b,
    decreases a.len(),
{
    if a.len() == 0 {
        if b.len() > 0 {
            assert(a.contains(b[0]));
        }
        assert(a =~= b);
    } else {
        if b.len() == 0 {
            assert(b.contains(a[0]));
        }
        assert(b.contains(a[0]));
        let j0 = choose|j: int| 0 <= j < b.len() && b[j] == a[0];
        if j0 > 0 {
            assert(a.contains(b[0]));
            let i1 = choose|i: int| 0 <= i < a.len() && a[i] == b[0];
            assert(text_lt(b[0].0, b[j0].0));
            if i1 == 0 {
                lemma_text_lt_irreflexive(a[0].0);
            } else {
                assert(text_lt(a[0].0, a[i1].0));
                lemma_text_lt_asymmetric(a[0].0, a[i1].0);
            }
        }
        assert(b[0] == a[0]);
        let a1 = a.drop_first();
        let b1 = b.drop_first();
        assert forall|i: int, j: int| 0 <= i < j < a1.len() implies text_lt(#[trigger] a1[i].0, #[trigger] a1[j].0) by {
            assert(a1[i] == a[i + 1] && a1[j] == a[j + 1]);
        }
        assert forall|i: int, j: int| 0 <= i < j < b1.len() implies text_lt(#[trigger] b1[i].0, #[trigger] b1[j].0) by {
            assert(b1[i] == b[i + 1] && b1[j] == b[j + 1]);
        }
        assert forall|i: int| 0 <= i < a1.len() implies b1.contains(#[trigger] a1[i]) by {
            assert(a1[i] == a[i + 1]);
            assert(b.contains(a[i + 1]));
            let j = choose|j: int| 0 <= j < b.len() && b[j] == a[i + 1];
            if j == 0 {
                assert(text_lt(a[0].0, a[i + 1].0));
                lemma_text_lt_irreflexive(a[0].0);
            }
            assert(b1[j - 1] == b[j]);
        }
        assert forall|j: int| 0 <= j < b1.len() implies a1.contains(#[trigger] b1[j]) by {
            assert(b1[j] == b[j + 1]);
            assert(a.contains(b[j + 1]));
            let i = choose|i: int| 0 <= i < a.len() && a[i] == b[j + 1];
            if i == 0 {
                assert(text_lt(b[0].0, b[j + 1].0));
                lemma_text_lt_irreflexive(b[0].0);
            }
            assert(a1[i - 1] == a[i]);
        }
        lemma_sorted_same(a1, b1);
        assert(a =~= seq![a[0]] + a1);
        assert(b =~= seq![b[0]] + b1);
    }
}

/// A value whose objects are already in key order is its own reordering.
pub(crate) proof fn lemma_reordered_ordered(w: JsonView, r: JsonView)
    requires
        json_ordered(w),
        reordered(w, r),
    ensures
        r == w,
    decreases w, 0nat,
{
    lemma_reordered_kind(w, r);
    match w {
        JsonView::Array(a) => {
            let b = r->Array_0;
            lemma_items_ordered(a, a.len());
            assert forall|i: int| 0 <= i < a.len() implies b[i] == a[i] by {
                lemma_reordered_ordered(a[i], b[i]);
            }
            assert(a =~= b);
        },
        JsonView::Object(wm) => {
            lemma_values_ordered(wm, wm.len());
            lemma_object_reordered_ordered(wm, r->Object_0);
        },
        _ => {},
    }
}

proof fn lemma_object_reordered_ordered(wm: Seq<(Seq<char>, JsonView)>, rm: Seq<(Seq<char>, JsonView)>)
    requires
        sorted_pairs(wm),
        forall|i: int| 0 <= i < wm.len() ==> json_ordered(#[trigger] wm[i].1),
        reordered(JsonView::Object(wm), JsonView::Object(rm)),
    ensures
        rm == wm,
    decreases wm, 1nat,
{
    lemma_object_reordered(wm, rm);
    assert forall|i: int| 0 <= i < wm.len() implies rm.contains(#[trigger] wm[i]) by {
        let j = choose|j: int| 0 <= j < rm.len() && (#[trigger] rm[j]).0 == (#[trigger] wm[i]).0 && reordered(wm[i].1, rm[j].1);
        lemma_reordered_ordered(wm[i].1, rm[j].1);
        assert(rm[j] == wm[i]);
    }
    assert forall|j: int| 0 <= j < rm.len() implies wm.contains(#[trigger] rm[j]) by {
        assert(key_held(wm, rm[j].0));
        let i = choose|i: int| 0 <= i < wm.len() && (#[trigger] wm[i]).0 == rm[j].0;
        assert(rm.contains(wm[i]));
        let j2 = choose|j2: int| 0 <= j2 < rm.len() && rm[j2] == wm[i];
        lemma_sorted_key_once(rm, j, j2);
    }
    lemma_sorted_same(wm, rm);
}

/// The key at an index of members in strictly increasing key order looks
/// up the value at that index.
pub(crate) proof fn lemma_lookup_sorted(ms: Seq<(Seq<char>, JsonView)>, j: int)
    requires
        sorted_pairs(ms),
        0 <= j < ms.len(),
    ensures
        lookup(ms, ms[j].0) == Some(ms[j].1),
    decreases ms.len(),
{
    let init = ms.drop_last();
    if j < ms.len() - 1 {
        assert(init[j] == ms[j]);
        assert forall|a: int, b: int| 0 <= a < b < init.len() implies text_lt(#[trigger] init[a].0, #[trigger] init[b].0) by {
            assert(init[a] == ms[a] && init[b] == ms[b]);
        }
        lemma_lookup_sorted(init, j);
    } else {
        lemma_lookup_absent_key(init, ms[j].0);
        assert forall|a: int| 0 <= a < init.len() implies (#[trigger] init[a]).0 != ms[j].0 by {
            assert(init[a] == ms[a]);
            assert(text_lt(ms[a].0, ms[j].0));
            lemma_text_lt_irreflexive(ms[j].0);
        }
    }
}

/// Members without the key look up nothing; members that look up a value
/// hold the key with that value.
pub(crate) proof fn lemma_lookup_absent_key(ms: Seq<(Seq<char>, JsonView)>, k: Seq<char>)
    ensures
        (forall|a: int| 0 <= a < ms.len() ==> (#[trigger] ms[a]).0 != k) <==> lookup(ms, k) is None,
        lookup(ms, k) matches Some(v) ==> exists|a: int| 0 <= a < ms.len() && (#[trigger] ms[a]).0 == k && ms[a].1 == v,
    decreases ms.len(),
{
    if ms.len() > 0 {
        let init = ms.drop_last();
        lemma_lookup_absent_key(init, k);
        if forall|a: int| 0 <= a < ms.len() ==> (#[trigger] ms[a]).0 != k {
            assert forall|a: int| 0 <= a < init.len() implies (#[trigger] init[a]).0 != k by {
                assert(init[a] == ms[a]);
            }
            assert(ms[ms.len() - 1] == ms.last());
        }
        if let Some(v) = lookup(init, k) {
            let a = choose|a: int| 0 <= a < init.len() && (#[trigger] init[a]).0 == k && init[a].1 == v;
            assert(ms[a] == init[a]);
        } else if lookup(ms, k) is Some {
            assert(ms[ms.len() - 1] == ms.last());
        } else {
            assert forall|a: int| 0 <= a < ms.len() implies (#[trigger] ms[a]).0 != k by {
                if a < ms.len() - 1 {
                    assert(init[a] == ms[a]);
                } else {
                    assert(ms[a] == ms.last());
                }
            }
        }
    }
}

/// What a key looks up in reordered members is the reordering of what it
/// looks up in the members.
pub(crate) proof fn lemma_lookup_reordered(wm: Seq<(Seq<char>, JsonView)>, rm: Seq<(Seq<char>, JsonView)>, k: Seq<char>)
    requires
        reordered(JsonView::Object(wm), JsonView::Object(rm)),
    ensures
        lookup(wm, k) is None <==> lookup(rm, k) is None,
        lookup(wm, k) is Some ==> reordered(lookup(wm, k)->Some_0, lookup(rm, k)->Some_0),
        lookup(wm, k) matches Some(v) && json_ordered(v) ==> lookup(rm, k) == lookup(wm, k),
{
    lemma_object_reordered(wm, rm);
    lemma_lookup_absent_key(wm, k);
    lemma_lookup_absent_key(rm, k);
    if let Some(v) = lookup(wm, k) {
        let a = choose|a: int| 0 <= a < wm.len() && (#[trigger] wm[a]).0 == k && wm[a].1 == v;
        assert(exists|j: int| 0 <= j < rm.len() && (#[trigger] rm[j]).0 == wm[a].0 && reordered(wm[a].1, rm[j].1));
        let j = choose|j: int| 0 <= j < rm.len() && (#[trigger] rm[j]).0 == wm[a].0 && reordered(wm[a].1, rm[j].1);
        lemma_lookup_sorted(rm, j);
        assert(rm[j].0 == k);
        assert(lookup(rm, k) == Some(rm[j].1));
        if json_ordered(v) {
            lemma_reordered_ordered(v, rm[j].1);
        }
    } else {
        if lookup(rm, k) is Some {
            let j = choose|j: int| 0 <= j < rm.len() && (#[trigger] rm[j]).0 == k && rm[j].1 == lookup(rm, k)->Some_0;
            assert(key_held(wm, rm[j].0));
            let i = choose|i: int| 0 <= i < wm.len() && (#[trigger] wm[i]).0 == rm[j].0;
            assert(wm[i].0 == k);
        }
    }
}

pub(crate) proof fn lemma_unknown_member(ms: Seq<(Seq<char>, JsonView)>, known: Seq<Seq<char>>, x: (Seq<char>, JsonView))
    ensures
        unknown_members(ms, known).contains(x) <==> ms.contains(x) && !known.contains(x.0),
    decreases ms.len(),
{
    if ms.len() > 0 {
        let init = ms.drop_last();
        lemma_unknown_member(init, known, x);
        let u0 = unknown_members(init, known);
        let u = unknown_members(ms, known);
        if u.contains(x) {
            let k = choose|k: int| 0 <= k < u.len() && u[k] == x;
            if k < u0.len() {
                assert(u0[k] == u[k]);
                assert(u0.contains(x));
                let a = choose|a: int| 0 <= a < init.len() && init[a] == x;
                assert(ms[a] == init[a]);
            } else {
                assert(ms[ms.len() - 1] == x);
            }
        }
        if ms.contains(x) && !known.contains(x.0) {
            let a = choose|a: int| 0 <= a < ms.len() && ms[a] == x;
            if a < ms.len() - 1 {
                assert(init[a] == ms[a]);
                assert(init.contains(x));
                let k = choose|k: int| 0 <= k < u0.len() && u0[k] == x;
                assert(u[k] == u0[k]);
            } else {
                assert(u[u.len() - 1] == x);
            }
        }
    }
}

/// Reordering leaves the unknown members as they are, when they are in key
/// order with ordered values.
pub(crate) proof fn lemma_unknown_reordered(wm: Seq<(Seq<char>, JsonView)>, rm: Seq<(Seq<char>, JsonView)>, known: Seq<Seq<char>>)
    requires
        reordered(JsonView::Object(wm), JsonView::Object(rm)),
        members_ordered(unknown_members(wm, known)),
    ensures
        unknown_members(rm, known) == unknown_members(wm, known),
{
    let uw = unknown_members(wm, known);
    let ur = unknown_members(rm, known);
    lemma_unknown_subseq(rm, known);
    lemma_object_reordered(wm, rm);
    lemma_values_ordered(uw, uw.len());
    assert forall|x: int| 0 <= x < uw.len() implies ur.contains(#[trigger] uw[x]) by {
        assert(uw.contains(uw[x]));
        lemma_unknown_member(wm, known, uw[x]);
        let i = choose|i: int| 0 <= i < wm.len() && wm[i] == uw[x];
        let j = choose|j: int| 0 <= j < rm.len() && (#[trigger] rm[j]).0 == wm[i].0 && reordered(wm[i].1, rm[j].1);
        assert(json_ordered(uw[x].1));
        lemma_reordered_ordered(wm[i].1, rm[j].1);
        assert(rm[j] == uw[x]);
        assert(rm.contains(rm[j]));
        lemma_unknown_member(rm, known, uw[x]);
    }
    assert forall|y: int| 0 <= y < ur.len() implies uw.contains(#[trigger] ur[y]) by {
        assert(ur.contains(ur[y]));
        lemma_unknown_member(rm, known, ur[y]);
        let j = choose|j: int| 0 <= j < rm.len() && rm[j] == ur[y];
        assert(key_held(wm, rm[j].0));
        let i = choose|i: int| 0 <= i < wm.len() && (#[trigger] wm[i]).0 == rm[j].0;
        let j2 = choose|j2: int| 0 <= j2 < rm.len() && (#[trigger] rm[j2]).0 == wm[i].0 && reordered(wm[i].1, rm[j2].1);
        lemma_sorted_key_once(rm, j, j2);
        assert(wm.contains(wm[i]));
        lemma_unknown_member(wm, known, wm[i]);
        let x = choose|x: int| 0 <= x < uw.len() && uw[x] == wm[i];
        assert(json_ordered(uw[x].1));
        lemma_reordered_ordered(wm[i].1, rm[j].1);
        assert(ur[y] == wm[i]);
    }
    lemma_sorted_same(uw, ur);
}

/// Reading every item of reordered lists gives the same, when reading each
/// reordered item does.
pub(crate) proof fn lemma_parse_all_same<T>(a: Seq<JsonView>, b: Seq<JsonView>, f: spec_fn(JsonView) -> Result<T, Seq<char>>)
    requires
        a.len() == b.len(),
        forall|i: int| 0 <= i < a.len() ==> f(#[trigger] b[i]) == f(a[i]),
    ensures
        parse_all(b, f) == parse_all(a, f),
    decreases a.len(),
{
    if a.len() > 0 {
        let a0 = a.drop_last();
        let b0 = b.drop_last();
        assert forall|i: int| 0 <= i < a0.len() implies f(#[trigger] b0[i]) == f(a0[i]) by {
            assert(b0[i] == b[i] && a0[i] == a[i]);
        }
        lemma_parse_all_same(a0, b0, f);
        assert(f(b[b.len() - 1]) == f(a[a.len() - 1]));
    }
}


// ---------------------------------------------------------------------
// Reading reordered documents.

/// A member that holds a plain value, or a list of strings, reads the same
/// from reordered members.
pub(crate) proof fn lemma_plain_field(wm: Seq<(Seq<char>, JsonView)>, rm: Seq<(Seq<char>, JsonView)>, k: Seq<char>)
    requires
        reordered(JsonView::Object(wm), JsonView::Object(rm)),
        lookup(wm, k) matches Some(v) ==> (!(v is Object) && !(v is Array)) || (v is Array && all_strings(v->Array_0)),
    ensures
        lookup(rm, k) == lookup(wm, k),
{
    lemma_lookup_reordered(wm, rm, k);
    if let Some(v) = lookup(wm, k) {
        if let JsonView::Array(items) = v {
            lemma_items_ordered(items, items.len());
            assert forall|i: int| 0 <= i < items.len() implies json_ordered(#[trigger] items[i]) by {
                assert(items[i] is Str);
            }
        }
        assert(json_ordered(v));
    }
}

/// An object member whose members are in key order reads the same from
/// reordered members.
pub(crate) proof fn lemma_object_field(wm: Seq<(Seq<char>, JsonView)>, rm: Seq<(Seq<char>, JsonView)>, k: Seq<char>)
    requires
        reordered(JsonView::Object(wm), JsonView::Object(rm)),
        f_opt_object(wm, k) is Ok,
        opt_members_ordered(f_opt_object(wm, k)->Ok_0),
    ensures
        lookup(rm, k) == lookup(wm, k),
{
    lemma_lookup_reordered(wm, rm, k);
}

/// Reordering keeps what a value nested under `k` reads as, when reading
/// the nested value is kept alike.
proof fn lemma_nested<T>(wm: Seq<(Seq<char>, JsonView)>, rm: Seq<(Seq<char>, JsonView)>, k: Seq<char>, f: spec_fn(JsonView) -> Result<T, Seq<char>>)
    requires
        reordered(JsonView::Object(wm), JsonView::Object(rm)),
        lookup(wm, k) is Some && lookup(wm, k)->Some_0 != JsonView::Null ==> f(lookup(rm, k)->Some_0) == f(
            lookup(wm, k)->Some_0,
        ),
    ensures
        crate::schema::f_opt(rm, k, f) == crate::schema::f_opt(wm, k, f),
{
    lemma_lookup_reordered(wm, rm, k);
    if let Some(v) = lookup(wm, k) {
        lemma_reordered_kind(v, lookup(rm, k)->Some_0);
    }
}

proof fn lemma_subject_reordered(w: JsonView, r: JsonView)
    requires
        reordered(w, r),
        spec_subject(w) is Ok,
        subject_ordered(spec_subject(w)->Ok_0),
    ensures
        spec_subject(r) == spec_subject(w),
{
    lemma_reordered_kind(w, r);
    if let JsonView::Object(wm) = w {
        let rm = r->Object_0;
        lemma_plain_field(wm, rm, "type"@);
        lemma_plain_field(wm, rm, "digest"@);
        lemma_plain_field(wm, rm, "url"@);
        lemma_unknown_reordered(wm, rm, subject_keys());
    }
}

proof fn lemma_schema_reordered(w: JsonView, r: JsonView)
    requires
        reordered(w, r),
        spec_schema(w) is Ok,
        schema_ordered(spec_schema(w)->Ok_0),
    ensures
        spec_schema(r) == spec_schema(w),
{
    lemma_reordered_kind(w, r);
    if let JsonView::Object(wm) = w {
        let rm = r->Object_0;
        lemma_plain_field(wm, rm, "identifier"@);
        lemma_plain_field(wm, rm, "version"@);
        lemma_plain_field(wm, rm, "governanceUri"@);
        lemma_plain_field(wm, rm, "verificationMethods"@);
        lemma_unknown_reordered(wm, rm, schema_keys());
    }
}

proof fn lemma_attestation_reordered(w: JsonView, r: JsonView)
    requires
        reordered(w, r),
        spec_attestation(w) is Ok,
        attestation_ordered(spec_attestation(w)->Ok_0),
    ensures
        spec_attestation(r) == spec_attestation(w),
{
    lemma_reordered_kind(w, r);
    if let JsonView::Object(wm) = w {
        let rm = r->Object_0;
        lemma_plain_field(wm, rm, "type"@);
        lemma_plain_field(wm, rm, "uri"@);
        lemma_plain_field(wm, rm, "digest"@);
        lemma_plain_field(wm, rm, "size"@);
        lemma_plain_field(wm, rm, "description"@);
        lemma_unknown_reordered(wm, rm, attestation_keys());
    }
}

proof fn lemma_provenance_reordered(w: JsonView, r: JsonView)
    requires
        reordered(w, r),
        spec_provenance(w) is Ok,
        provenance_ordered(spec_provenance(w)->Ok_0),
    ensures
        spec_provenance(r) == spec_provenance(w),
{
    lemma_reordered_kind(w, r);
    if let JsonView::Object(wm) = w {
        let rm = r->Object_0;
        lemma_plain_field(wm, rm, "relation"@);
        lemma_plain_field(wm, rm, "sourceId"@);
        lemma_plain_field(wm, rm, "sourceDigest"@);
        lemma_plain_field(wm, rm, "registryUri"@);
        lemma_plain_field(wm, rm, "statementUri"@);
        lemma_plain_field(wm, rm, "signatureRef"@);
        lemma_unknown_reordered(wm, rm, provenance_keys());
    }
}

proof fn lemma_publisher_reordered(w: JsonView, r: JsonView)
    requires
        reordered(w, r),
        spec_publisher(w) is Ok,
        publisher_ordered(spec_publisher(w)->Ok_0),
    ensures
        spec_publisher(r) == spec_publisher(w),
{
    lemma_reordered_kind(w, r);
    if let JsonView::Object(wm) = w {
        let rm = r->Object_0;
        lemma_plain_field(wm, rm, "identifier"@);
        lemma_plain_field(wm, rm, "displayName"@);
        lemma_plain_field(wm, rm, "identityType"@);
        lemma_unknown_reordered(wm, rm, publisher_keys());
    }
}


/// Reordering keeps what a list member reads as, when reading each
/// reordered item is kept alike.
proof fn lemma_list<T>(wm: Seq<(Seq<char>, JsonView)>, rm: Seq<(Seq<char>, JsonView)>, k: Seq<char>, f: spec_fn(JsonView) -> Result<T, Seq<char>>)
    requires
        reordered(JsonView::Object(wm), JsonView::Object(rm)),
        lookup(wm, k) matches Some(JsonView::Array(a)) ==> forall|i: int| 0 <= i < a.len() ==> f(
            #[trigger] lookup(rm, k)->Some_0->Array_0[i],
        ) == f(a[i]),
    ensures
        crate::schema::f_list(rm, k, f) == crate::schema::f_list(wm, k, f),
{
    lemma_lookup_reordered(wm, rm, k);
    if let Some(v) = lookup(wm, k) {
        lemma_reordered_kind(v, lookup(rm, k)->Some_0);
        if let JsonView::Array(a) = v {
            lemma_parse_all_same(a, lookup(rm, k)->Some_0->Array_0, f);
        }
    }
}

/// The items of a list member, each reordered alike.
proof fn lemma_list_items(wm: Seq<(Seq<char>, JsonView)>, rm: Seq<(Seq<char>, JsonView)>, k: Seq<char>)
    requires
        reordered(JsonView::Object(wm), JsonView::Object(rm)),
    ensures
        lookup(wm, k) matches Some(JsonView::Array(a)) ==> lookup(rm, k) matches Some(JsonView::Array(b)) && b.len()
            == a.len() && forall|i: int| 0 <= i < a.len() ==> reordered(#[trigger] a[i], b[i]),
{
    lemma_lookup_reordered(wm, rm, k);
    if let Some(v) = lookup(wm, k) {
        lemma_reordered_kind(v, lookup(rm, k)->Some_0);
    }
}

#[verifier::rlimit(100)]
pub(crate) proof fn lemma_manifest_reordered(w: JsonView, r: JsonView)
    requires
        reordered(w, r),
        spec_manifest(w) is Ok,
        manifest_ordered(spec_manifest(w)->Ok_0),
    ensures
        spec_manifest(r) == spec_manifest(w),
{
    lemma_reordered_kind(w, r);
    if let JsonView::Object(wm) = w {
        let rm = r->Object_0;
        let m = spec_manifest(w)->Ok_0;
        lemma_plain_field(wm, rm, "identity"@);
        lemma_plain_field(wm, rm, "identityType"@);
        lemma_plain_field(wm, rm, "privacyPolicyUrl"@);
        lemma_plain_field(wm, rm, "termsOfServiceUrl"@);
        lemma_plain_field(wm, rm, "issuedAt"@);
        lemma_plain_field(wm, rm, "expiresAt"@);
        lemma_plain_field(wm, rm, "signature"@);
        lemma_object_field(wm, rm, "extensions"@);
        lemma_unknown_reordered(wm, rm, manifest_keys());
        lemma_lookup_reordered(wm, rm, "trustSchema"@);
        if let Some(v) = lookup(wm, "trustSchema"@) {
            if v != JsonView::Null {
                lemma_schema_reordered(v, lookup(rm, "trustSchema"@)->Some_0);
            }
        }
        lemma_nested(wm, rm, "trustSchema"@, schema_parser());
        lemma_lookup_reordered(wm, rm, "subject"@);
        if let Some(v) = lookup(wm, "subject"@) {
            if v != JsonView::Null {
                lemma_subject_reordered(v, lookup(rm, "subject"@)->Some_0);
            }
        }
        lemma_nested(wm, rm, "subject"@, subject_parser());
        lemma_list_items(wm, rm, "attestations"@);
        if let Some(JsonView::Array(a)) = lookup(wm, "attestations"@) {
            let b = lookup(rm, "attestations"@)->Some_0->Array_0;
            lemma_parse_all_each(a, attestation_parser());
            assert forall|i: int| 0 <= i < a.len() implies attestation_parser()(#[trigger] b[i]) == attestation_parser()(a[i]) by {
                assert(m.attestations[i] == parse_all(a, attestation_parser())->Ok_0[i]);
                lemma_attestation_reordered(a[i], b[i]);
            }
        }
        lemma_list(wm, rm, "attestations"@, attestation_parser());
        lemma_list_items(wm, rm, "provenance"@);
        if let Some(JsonView::Array(a)) = lookup(wm, "provenance"@) {
            let b = lookup(rm, "provenance"@)->Some_0->Array_0;
            lemma_parse_all_each(a, provenance_parser());
            assert forall|i: int| 0 <= i < a.len() implies provenance_parser()(#[trigger] b[i]) == provenance_parser()(a[i]) by {
                assert(m.provenance[i] == parse_all(a, provenance_parser())->Ok_0[i]);
                lemma_provenance_reordered(a[i], b[i]);
            }
        }
        lemma_list(wm, rm, "provenance"@, provenance_parser());
    }
}

pub(crate) proof fn lemma_host_reordered(w: JsonView, r: JsonView)
    requires
        reordered(w, r),
        spec_host(w) is Ok,
        host_ordered(spec_host(w)->Ok_0),
    ensures
        spec_host(r) == spec_host(w),
{
    lemma_reordered_kind(w, r);
    if let JsonView::Object(wm) = w {
        let rm = r->Object_0;
        lemma_plain_field(wm, rm, "displayName"@);
        lemma_plain_field(wm, rm, "identifier"@);
        lemma_plain_field(wm, rm, "documentationUrl"@);
        lemma_plain_field(wm, rm, "logoUrl"@);
        lemma_unknown_reordered(wm, rm, host_keys());
        lemma_lookup_reordered(wm, rm, "trustManifest"@);
        if let Some(v) = lookup(wm, "trustManifest"@) {
            if v != JsonView::Null {
                lemma_manifest_reordered(v, lookup(rm, "trustManifest"@)->Some_0);
            }
        }
        lemma_nested(wm, rm, "trustManifest"@, manifest_parser());
    }
}

/// The maps of an entry's configuration, and those of its publisher, are
/// in key order.
pub open spec fn config_ordered(c: ConfigView) -> bool {
    &&& opt_members_ordered(c.extensions)
    &&& members_ordered(c.extra_fields)
    &&& (c.publisher matches Some(p) ==> publisher_ordered(p))
}

pub(crate) proof fn lemma_config_reordered(w: JsonView, r: JsonView)
    requires
        reordered(w, r),
        spec_entry_config(w) is Ok,
        config_ordered(spec_entry_config(w)->Ok_0),
    ensures
        spec_entry_config(r) == spec_entry_config(w),
{
    lemma_reordered_kind(w, r);
    if let JsonView::Object(wm) = w {
        let rm = r->Object_0;
        lemma_plain_field(wm, rm, "identifier"@);
        lemma_plain_field(wm, rm, "displayName"@);
        lemma_plain_field(wm, rm, "description"@);
        lemma_plain_field(wm, rm, "tags"@);
        lemma_plain_field(wm, rm, "version"@);
        lemma_plain_field(wm, rm, "updatedAt"@);
        lemma_plain_field(wm, rm, "url"@);
        lemma_object_field(wm, rm, "extensions"@);
        lemma_unknown_reordered(wm, rm, config_keys());
        lemma_lookup_reordered(wm, rm, "publisher"@);
        if let Some(v) = lookup(wm, "publisher"@) {
            if v != JsonView::Null {
                lemma_publisher_reordered(v, lookup(rm, "publisher"@)->Some_0);
            }
        }
        lemma_nested(wm, rm, "publisher"@, publisher_parser());
    }
}

} // verus!
