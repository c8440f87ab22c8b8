//! Key order in the maps of a document: `serde_json` reads every JSON
//! object as a map keyed by text, in increasing key order and with each
//! key once, and a catalog read from such a value holds each of its maps
//! (extensions and unknown members) the same way, so that it writes them in
//! key order.
use vstd::prelude::*;
use crate::json::JsonView;
use crate::keyed::{sorted_pairs, text_lt};
use crate::model::{
    AttestationView, CatalogView, EntryView, HostView, ManifestView, ProvenanceView, PublisherView, SchemaView,
    SubjectView,
};
use crate::schema::{
    attestation_parser, entry_parser, f_list, f_opt, f_opt_json, f_opt_object, host_parser, lookup, manifest_parser,
    parse_all, provenance_parser, publisher_parser, schema_parser, spec_attestation, spec_catalog_from_json,
    spec_entry, spec_host, spec_manifest, spec_provenance, spec_publisher, spec_schema, spec_subject,
    subject_parser, unknown_members, subject_keys, schema_keys, attestation_keys, provenance_keys, manifest_keys,
    publisher_keys, host_keys, entry_keys, catalog_keys,
};

verus! {

/// The first `n` items are ordered values.
pub open spec fn items_ordered(items: Seq<JsonView>, n: nat) -> bool
    decreases items, n,
{
    if n == 0 || n > items.len() {
        true
    } else {
        items_ordered(items, (n - 1) as nat) && json_ordered(items[n - 1])
    }
}

/// The values of the first `n` members are ordered values.
pub open spec fn values_ordered(ms: Seq<(Seq<char>, JsonView)>, n: nat) -> bool
    decreases ms, n,
{
    if n == 0 || n > ms.len() {
        true
    } else {
        values_ordered(ms, (n - 1) as nat) && json_ordered(ms[n - 1].1)
    }
}

/// Every object in the value holds its keys in strictly increasing order,
/// each key once.
pub open spec fn json_ordered(v: JsonView) -> bool
    decreases v, 0nat,
{
    match v {
        JsonView::Array(items) => items_ordered(items, items.len()),
        JsonView::Object(ms) => sorted_pairs(ms) && values_ordered(ms, ms.len()),
        _ => true,
    }
}

/// Members in strictly increasing key order, with ordered values.
pub open spec fn members_ordered(ms: Seq<(Seq<char>, JsonView)>) -> bool {
    sorted_pairs(ms) && values_ordered(ms, ms.len())
}

pub open spec fn opt_members_ordered(o: Option<Seq<(Seq<char>, JsonView)>>) -> bool {
    match o {
        Some(ms) => members_ordered(ms),
        None => true,
    }
}

pub(crate) proof fn lemma_items_ordered(items: Seq<JsonView>, n: nat)
    requires
        n <= items.len(),
    ensures
        items_ordered(items, n) <==> forall|i: int| 0 <= i < n ==> json_ordered(#[trigger] items[i]),
    decreases n,
{
    if n > 0 {
        lemma_items_ordered(items, (n - 1) as nat);
    }
}

pub(crate) proof fn lemma_values_ordered(ms: Seq<(Seq<char>, JsonView)>, n: nat)
    requires
        n <= ms.len(),
    ensures
        values_ordered(ms, n) <==> forall|i: int| 0 <= i < n ==> json_ordered(#[trigger] ms[i].1),
    decreases n,
{
    if n > 0 {
        lemma_values_ordered(ms, (n - 1) as nat);
    }
}

proof fn lemma_lookup_held(ms: Seq<(Seq<char>, JsonView)>, key: Seq<char>)
    requires
        lookup(ms, key) is Some,
    ensures
        exists|i: int| 0 <= i < ms.len() && #[trigger] ms[i].1 == lookup(ms, key)->Some_0,
    decreases ms.len(),
{
    let init = ms.drop_last();
    if lookup(init, key) is Some {
        lemma_lookup_held(init, key);
        let i = choose|i: int| 0 <= i < init.len() && #[trigger] init[i].1 == lookup(init, key)->Some_0;
        assert(ms[i] == init[i]);
    } else {
        assert(ms[ms.len() - 1] == ms.last());
    }
}

/// A member's value in ordered members is an ordered value.
proof fn lemma_lookup_ordered(ms: Seq<(Seq<char>, JsonView)>, key: Seq<char>)
    requires
        members_ordered(ms),
        lookup(ms, key) is Some,
    ensures
        json_ordered(lookup(ms, key)->Some_0),
{
    lemma_lookup_held(ms, key);
    lemma_values_ordered(ms, ms.len());
    let i = choose|i: int| 0 <= i < ms.len() && #[trigger] ms[i].1 == lookup(ms, key)->Some_0;
    assert(json_ordered(ms[i].1));
}

pub(crate) proof fn lemma_unknown_subseq(ms: Seq<(Seq<char>, JsonView)>, known: Seq<Seq<char>>)
    ensures
        forall|k: int| 0 <= k < unknown_members(ms, known).len() ==> exists|j: int|
            0 <= j < ms.len() && #[trigger] unknown_members(ms, known)[k] == ms[j],
        sorted_pairs(ms) ==> sorted_pairs(unknown_members(ms, known)),
    decreases ms.len(),
{
    if ms.len() > 0 {
        let init = ms.drop_last();
        lemma_unknown_subseq(init, known);
        let u0 = unknown_members(init, known);
        let u = unknown_members(ms, known);
        assert forall|k: int| 0 <= k < u.len() implies exists|j: int| 0 <= j < ms.len() && #[trigger] u[k] == ms[j] by {
            if k < u0.len() {
                let j = choose|j: int| 0 <= j < init.len() && #[trigger] u0[k] == init[j];
                assert(u[k] == u0[k]);
                assert(ms[j] == init[j]);
            } else {
                assert(u[k] == ms[ms.len() - 1]);
            }
        }
        if sorted_pairs(ms) {
            assert(sorted_pairs(init)) by {
                assert forall|i: int, j: int| 0 <= i < j < init.len() implies text_lt(#[trigger] init[i].0, #[trigger] init[j].0) by {
                    assert(init[i] == ms[i] && init[j] == ms[j]);
                }
            }
            assert forall|a: int, b: int| 0 <= a < b < u.len() implies text_lt(#[trigger] u[a].0, #[trigger] u[b].0) by {
                if b < u0.len() {
                    assert(u[a] == u0[a] && u[b] == u0[b]);
                } else {
                    let j = choose|j: int| 0 <= j < init.len() && #[trigger] u0[a] == init[j];
                    assert(u[a] == u0[a]);
                    assert(u[b] == ms[ms.len() - 1]);
                    assert(ms[j] == init[j]);
                    assert(text_lt(ms[j].0, ms[ms.len() - 1].0));
                }
            }
        }
    }
}

/// Leaving out the known members keeps the others ordered.
proof fn lemma_unknown_ordered(ms: Seq<(Seq<char>, JsonView)>, known: Seq<Seq<char>>)
    requires
        members_ordered(ms),
    ensures
        members_ordered(unknown_members(ms, known)),
{
    lemma_unknown_subseq(ms, known);
    let u = unknown_members(ms, known);
    lemma_values_ordered(ms, ms.len());
    assert forall|k: int| 0 <= k < u.len() implies json_ordered(#[trigger] u[k].1) by {
        let j = choose|j: int| 0 <= j < ms.len() && #[trigger] u[k] == ms[j];
        assert(json_ordered(ms[j].1));
    }
    lemma_values_ordered(u, u.len());
}

proof fn lemma_opt_object_ordered(ms: Seq<(Seq<char>, JsonView)>, key: Seq<char>)
    requires
        members_ordered(ms),
        f_opt_object(ms, key) is Ok,
    ensures
        opt_members_ordered(f_opt_object(ms, key)->Ok_0),
{
    if lookup(ms, key) is Some {
        lemma_lookup_ordered(ms, key);
    }
}

proof fn lemma_opt_json_ordered(ms: Seq<(Seq<char>, JsonView)>, key: Seq<char>)
    requires
        members_ordered(ms),
    ensures
        f_opt_json(ms, key) matches Some(v) ==> json_ordered(v),
{
    if lookup(ms, key) is Some {
        lemma_lookup_ordered(ms, key);
    }
}

pub(crate) proof fn lemma_parse_all_each<T>(items: Seq<JsonView>, f: spec_fn(JsonView) -> Result<T, Seq<char>>)
    requires
        parse_all(items, f) is Ok,
    ensures
        parse_all(items, f)->Ok_0.len() == items.len(),
        forall|i: int| 0 <= i < items.len() ==> f(#[trigger] items[i]) == Ok::<T, Seq<char>>(parse_all(items, f)->Ok_0[i]),
    decreases items.len(),
{
    if items.len() > 0 {
        let init = items.drop_last();
        lemma_parse_all_each(init, f);
        let xs = parse_all(items, f)->Ok_0;
        let x0 = parse_all(init, f)->Ok_0;
        assert forall|i: int| 0 <= i < items.len() implies f(#[trigger] items[i]) == Ok::<T, Seq<char>>(xs[i]) by {
            if i < init.len() {
                assert(items[i] == init[i]);
                assert(xs[i] == x0[i]);
            } else {
                assert(items[i] == items.last());
            }
        }
    }
}

/// Each element a list member reads into comes from an ordered value.
proof fn lemma_list_from_ordered<T>(ms: Seq<(Seq<char>, JsonView)>, key: Seq<char>, f: spec_fn(JsonView) -> Result<T, Seq<char>>)
    requires
        members_ordered(ms),
        f_list(ms, key, f) is Ok,
    ensures
        forall|i: int| #![trigger f_list(ms, key, f)->Ok_0[i]] 0 <= i < f_list(ms, key, f)->Ok_0.len() ==> exists|v: JsonView|
            json_ordered(v) && #[trigger] f(v) == Ok::<T, Seq<char>>(f_list(ms, key, f)->Ok_0[i]),
{
    if let Some(JsonView::Array(items)) = lookup(ms, key) {
        lemma_lookup_ordered(ms, key);
        lemma_items_ordered(items, items.len());
        lemma_parse_all_each(items, f);
        let xs = f_list(ms, key, f)->Ok_0;
        assert forall|i: int| #![trigger xs[i]] 0 <= i < xs.len() implies exists|v: JsonView|
            json_ordered(v) && #[trigger] f(v) == Ok::<T, Seq<char>>(xs[i]) by {
            assert(json_ordered(items[i]) && f(items[i]) == Ok::<T, Seq<char>>(xs[i]));
        }
    }
}

/// An optional structured member reads from an ordered value.
proof fn lemma_opt_from_ordered<T>(ms: Seq<(Seq<char>, JsonView)>, key: Seq<char>, f: spec_fn(JsonView) -> Result<T, Seq<char>>)
    requires
        members_ordered(ms),
        f_opt(ms, key, f) is Ok,
    ensures
        f_opt(ms, key, f)->Ok_0 matches Some(x) ==> exists|v: JsonView| json_ordered(v) && #[trigger] f(v) == Ok::<T, Seq<char>>(x),
{
    if lookup(ms, key) is Some {
        lemma_lookup_ordered(ms, key);
        let v = lookup(ms, key)->Some_0;
        if f_opt(ms, key, f)->Ok_0 is Some {
            assert(f(v) == Ok::<T, Seq<char>>(f_opt(ms, key, f)->Ok_0->Some_0));
        }
    }
}


// ---------------------------------------------------------------------
// The maps of a document.

pub open spec fn subject_ordered(s: SubjectView) -> bool {
    members_ordered(s.extra_fields)
}

pub open spec fn schema_ordered(s: SchemaView) -> bool {
    members_ordered(s.extra_fields)
}

pub open spec fn attestation_ordered(a: AttestationView) -> bool {
    members_ordered(a.extra_fields)
}

pub open spec fn provenance_ordered(p: ProvenanceView) -> bool {
    members_ordered(p.extra_fields)
}

pub open spec fn publisher_ordered(p: PublisherView) -> bool {
    members_ordered(p.extra_fields)
}

/// A trust manifest's maps, and those of its parts, are in key order.
pub open spec fn manifest_ordered(m: ManifestView) -> bool {
    &&& opt_members_ordered(m.extensions)
    &&& members_ordered(m.extra_fields)
    &&& (m.trust_schema matches Some(s) ==> schema_ordered(s))
    &&& forall|i: int| 0 <= i < m.attestations.len() ==> attestation_ordered(#[trigger] m.attestations[i])
    &&& forall|i: int| 0 <= i < m.provenance.len() ==> provenance_ordered(#[trigger] m.provenance[i])
    &&& (m.subject matches Some(s) ==> subject_ordered(s))
}

pub open spec fn host_ordered(h: HostView) -> bool {
    &&& members_ordered(h.extra_fields)
    &&& (h.trust_manifest matches Some(m) ==> manifest_ordered(m))
}

/// An entry's maps, its data and those of its parts are in key order.
pub open spec fn entry_ordered(e: EntryView) -> bool {
    &&& opt_members_ordered(e.extensions)
    &&& members_ordered(e.extra_fields)
    &&& (e.data matches Some(d) ==> json_ordered(d))
    &&& (e.publisher matches Some(p) ==> publisher_ordered(p))
    &&& (e.trust_manifest matches Some(m) ==> manifest_ordered(m))
}

/// Every map of a catalog, at any depth, holds its keys in strictly
/// increasing order, each key once.
pub open spec fn catalog_ordered(c: CatalogView) -> bool {
    &&& opt_members_ordered(c.extensions)
    &&& members_ordered(c.extra_fields)
    &&& (c.host matches Some(h) ==> host_ordered(h))
    &&& forall|i: int| 0 <= i < c.entries.len() ==> entry_ordered(#[trigger] c.entries[i])
}

proof fn lemma_subject_read(j: JsonView)
    requires
        json_ordered(j),
        spec_subject(j) is Ok,
    ensures
        subject_ordered(spec_subject(j)->Ok_0),
{
    if let JsonView::Object(ms) = j {
        lemma_unknown_ordered(ms, subject_keys());
    }
}

proof fn lemma_schema_read(j: JsonView)
    requires
        json_ordered(j),
        spec_schema(j) is Ok,
    ensures
        schema_ordered(spec_schema(j)->Ok_0),
{
    if let JsonView::Object(ms) = j {
        lemma_unknown_ordered(ms, schema_keys());
    }
}

proof fn lemma_attestation_read(j: JsonView)
    requires
        json_ordered(j),
        spec_attestation(j) is Ok,
    ensures
        attestation_ordered(spec_attestation(j)->Ok_0),
{
    if let JsonView::Object(ms) = j {
        lemma_unknown_ordered(ms, attestation_keys());
    }
}

proof fn lemma_provenance_read(j: JsonView)
    requires
        json_ordered(j),
        spec_provenance(j) is Ok,
    ensures
        provenance_ordered(spec_provenance(j)->Ok_0),
{
    if let JsonView::Object(ms) = j {
        lemma_unknown_ordered(ms, provenance_keys());
    }
}

proof fn lemma_publisher_read(j: JsonView)
    requires
        json_ordered(j),
        spec_publisher(j) is Ok,
    ensures
        publisher_ordered(spec_publisher(j)->Ok_0),
{
    if let JsonView::Object(ms) = j {
        lemma_unknown_ordered(ms, publisher_keys());
    }
}

#[verifier::rlimit(50)]
proof fn lemma_manifest_read(j: JsonView)
    requires
        json_ordered(j),
        spec_manifest(j) is Ok,
    ensures
        manifest_ordered(spec_manifest(j)->Ok_0),
{
    if let JsonView::Object(ms) = j {
        let m = spec_manifest(j)->Ok_0;
        lemma_unknown_ordered(ms, manifest_keys());
        lemma_opt_object_ordered(ms, "extensions"@);
        lemma_opt_from_ordered(ms, "trustSchema"@, schema_parser());
        if let Some(s) = m.trust_schema {
            let v = choose|v: JsonView| json_ordered(v) && #[trigger] schema_parser()(v) == Ok::<SchemaView, Seq<char>>(s);
            lemma_schema_read(v);
        }
        lemma_opt_from_ordered(ms, "subject"@, subject_parser());
        if let Some(s) = m.subject {
            let v = choose|v: JsonView| json_ordered(v) && #[trigger] subject_parser()(v) == Ok::<SubjectView, Seq<char>>(s);
            lemma_subject_read(v);
        }
        lemma_list_from_ordered(ms, "attestations"@, attestation_parser());
        assert forall|i: int| 0 <= i < m.attestations.len() implies attestation_ordered(#[trigger] m.attestations[i]) by {
            assert(m.attestations[i] == f_list(ms, "attestations"@, attestation_parser())->Ok_0[i]);
            let v = choose|v: JsonView|
                json_ordered(v) && #[trigger] attestation_parser()(v) == Ok::<AttestationView, Seq<char>>(m.attestations[i]);
            lemma_attestation_read(v);
        }
        lemma_list_from_ordered(ms, "provenance"@, provenance_parser());
        assert forall|i: int| 0 <= i < m.provenance.len() implies provenance_ordered(#[trigger] m.provenance[i]) by {
            assert(m.provenance[i] == f_list(ms, "provenance"@, provenance_parser())->Ok_0[i]);
            let v = choose|v: JsonView|
                json_ordered(v) && #[trigger] provenance_parser()(v) == Ok::<ProvenanceView, Seq<char>>(m.provenance[i]);
            lemma_provenance_read(v);
        }
    }
}

proof fn lemma_host_read(j: JsonView)
    requires
        json_ordered(j),
        spec_host(j) is Ok,
    ensures
        host_ordered(spec_host(j)->Ok_0),
{
    if let JsonView::Object(ms) = j {
        let h = spec_host(j)->Ok_0;
        lemma_unknown_ordered(ms, host_keys());
        lemma_opt_from_ordered(ms, "trustManifest"@, manifest_parser());
        if let Some(m) = h.trust_manifest {
            let v = choose|v: JsonView| json_ordered(v) && #[trigger] manifest_parser()(v) == Ok::<ManifestView, Seq<char>>(m);
            lemma_manifest_read(v);
        }
    }
}

proof fn lemma_entry_read(j: JsonView)
    requires
        json_ordered(j),
        spec_entry(j) is Ok,
    ensures
        entry_ordered(spec_entry(j)->Ok_0),
{
    if let JsonView::Object(ms) = j {
        let e = spec_entry(j)->Ok_0;
        lemma_unknown_ordered(ms, entry_keys());
        lemma_opt_object_ordered(ms, "extensions"@);
        lemma_opt_json_ordered(ms, "data"@);
        lemma_opt_from_ordered(ms, "publisher"@, publisher_parser());
        if let Some(p) = e.publisher {
            let v = choose|v: JsonView| json_ordered(v) && #[trigger] publisher_parser()(v) == Ok::<PublisherView, Seq<char>>(p);
            lemma_publisher_read(v);
        }
        lemma_opt_from_ordered(ms, "trustManifest"@, manifest_parser());
        if let Some(m) = e.trust_manifest {
            let v = choose|v: JsonView| json_ordered(v) && #[trigger] manifest_parser()(v) == Ok::<ManifestView, Seq<char>>(m);
            lemma_manifest_read(v);
        }
    }
}

/// A catalog read from a JSON value whose objects hold their keys in
/// strictly increasing order, as `serde_json` reads every object, holds
/// each of its maps (extensions and unknown members, at every depth, and
/// the JSON values inside them) in the same order, each key once; what it
/// writes of those maps it therefore writes in key order.
pub proof fn law_read_catalog_keeps_key_order(j: JsonView)
    requires
        json_ordered(j),
        spec_catalog_from_json(j) is Ok,
    ensures
        catalog_ordered(spec_catalog_from_json(j)->Ok_0),
{
    if let JsonView::Object(ms) = j {
        let c = spec_catalog_from_json(j)->Ok_0;
        lemma_unknown_ordered(ms, catalog_keys());
        lemma_opt_object_ordered(ms, "extensions"@);
        lemma_opt_from_ordered(ms, "host"@, host_parser());
        if let Some(h) = c.host {
            let v = choose|v: JsonView| json_ordered(v) && #[trigger] host_parser()(v) == Ok::<HostView, Seq<char>>(h);
            lemma_host_read(v);
        }
        lemma_list_from_ordered(ms, "entries"@, entry_parser());
        assert forall|i: int| 0 <= i < c.entries.len() implies entry_ordered(#[trigger] c.entries[i]) by {
            assert(c.entries[i] == f_list(ms, "entries"@, entry_parser())->Ok_0[i]);
            let v = choose|v: JsonView| json_ordered(v) && #[trigger] entry_parser()(v) == Ok::<EntryView, Seq<char>>(c.entries[i]);
            lemma_entry_read(v);
        }
    }
}

} // verus!
