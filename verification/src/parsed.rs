//! What a catalog read from JSON satisfies: no unknown member carries a name
//! the schema knows, at any depth, so that it writes and packs back as
//! itself.
use vstd::prelude::*;
use crate::json::JsonView;
use crate::model::{
    AttestationView, EntryView, HostView, ManifestView, ProvenanceView, PublisherView, SchemaView, SubjectView,
};
use crate::ordered::{catalog_ordered, json_ordered, law_read_catalog_keeps_key_order};
use crate::pack::has_one_content;
use crate::reorder::lemma_unknown_member;
use crate::repack::{catalog_packable, entry_packable, manifests_distinct};
use crate::roundtrip::{
    attestation_wf, catalog_wf, entry_wf, host_wf, manifest_wf, no_known_keys, provenance_wf, publisher_wf,
    schema_wf, subject_wf,
};
use crate::schema::{
    attestation_keys, attestation_parser, catalog_keys, entry_keys, entry_parser, f_list, f_opt, host_keys,
    host_parser, manifest_keys, manifest_parser, parse_all, provenance_keys, provenance_parser, publisher_keys,
    publisher_parser, schema_keys, schema_parser, spec_attestation, spec_catalog_from_json, spec_entry, spec_host,
    spec_manifest, spec_provenance, spec_publisher, spec_schema, spec_subject, subject_keys, subject_parser,
    unknown_members, lookup,
};
use crate::ordered::lemma_parse_all_each;
use crate::unpack::config_keys;

verus! {

proof fn lemma_unknown_not_known(ms: Seq<(Seq<char>, JsonView)>, keys: Seq<Seq<char>>)
    ensures
        no_known_keys(unknown_members(ms, keys), keys),
{
    let u = unknown_members(ms, keys);
    assert forall|i: int| 0 <= i < u.len() implies !keys.contains(#[trigger] u[i].0) by {
        assert(u.contains(u[i]));
        lemma_unknown_member(ms, keys, u[i]);
    }
}

proof fn lemma_list_parsed<T>(ms: Seq<(Seq<char>, JsonView)>, key: Seq<char>, f: spec_fn(JsonView) -> Result<T, Seq<char>>)
    requires
        f_list(ms, key, f) is Ok,
    ensures
        forall|i: int| #![trigger f_list(ms, key, f)->Ok_0[i]] 0 <= i < f_list(ms, key, f)->Ok_0.len() ==> exists|v: JsonView|
            #[trigger] f(v) == Ok::<T, Seq<char>>(f_list(ms, key, f)->Ok_0[i]),
{
    if let Some(JsonView::Array(items)) = lookup(ms, key) {
        lemma_parse_all_each(items, f);
        let xs = f_list(ms, key, f)->Ok_0;
        assert forall|i: int| #![trigger xs[i]] 0 <= i < xs.len() implies exists|v: JsonView|
            #[trigger] f(v) == Ok::<T, Seq<char>>(xs[i]) by {
            assert(f(items[i]) == Ok::<T, Seq<char>>(xs[i]));
        }
    }
}

proof fn lemma_opt_parsed<T>(ms: Seq<(Seq<char>, JsonView)>, key: Seq<char>, f: spec_fn(JsonView) -> Result<T, Seq<char>>)
    requires
        f_opt(ms, key, f) is Ok,
    ensures
        f_opt(ms, key, f)->Ok_0 matches Some(x) ==> exists|v: JsonView| #[trigger] f(v) == Ok::<T, Seq<char>>(x),
{
    if let Some(v) = lookup(ms, key) {
        if f_opt(ms, key, f)->Ok_0 is Some {
            assert(f(v) == Ok::<T, Seq<char>>(f_opt(ms, key, f)->Ok_0->Some_0));
        }
    }
}

proof fn lemma_subject_wf(j: JsonView)
    requires
        spec_subject(j) is Ok,
    ensures
        subject_wf(spec_subject(j)->Ok_0),
{
    if let JsonView::Object(ms) = j {
        lemma_unknown_not_known(ms, subject_keys());
    }
}

proof fn lemma_schema_wf(j: JsonView)
    requires
        spec_schema(j) is Ok,
    ensures
        schema_wf(spec_schema(j)->Ok_0),
{
    if let JsonView::Object(ms) = j {
        lemma_unknown_not_known(ms, schema_keys());
    }
}

proof fn lemma_attestation_wf(j: JsonView)
    requires
        spec_attestation(j) is Ok,
    ensures
        attestation_wf(spec_attestation(j)->Ok_0),
{
    if let JsonView::Object(ms) = j {
        lemma_unknown_not_known(ms, attestation_keys());
    }
}

proof fn lemma_provenance_wf(j: JsonView)
    requires
        spec_provenance(j) is Ok,
    ensures
        provenance_wf(spec_provenance(j)->Ok_0),
{
    if let JsonView::Object(ms) = j {
        lemma_unknown_not_known(ms, provenance_keys());
    }
}

proof fn lemma_publisher_wf(j: JsonView)
    requires
        spec_publisher(j) is Ok,
    ensures
        publisher_wf(spec_publisher(j)->Ok_0),
{
    if let JsonView::Object(ms) = j {
        lemma_unknown_not_known(ms, publisher_keys());
    }
}

#[verifier::rlimit(50)]
proof fn lemma_manifest_wf(j: JsonView)
    requires
        spec_manifest(j) is Ok,
    ensures
        manifest_wf(spec_manifest(j)->Ok_0),
{
    if let JsonView::Object(ms) = j {
        let m = spec_manifest(j)->Ok_0;
        lemma_unknown_not_known(ms, manifest_keys());
        lemma_opt_parsed(ms, "trustSchema"@, schema_parser());
        if let Some(s) = m.trust_schema {
            let v = choose|v: JsonView| #[trigger] schema_parser()(v) == Ok::<SchemaView, Seq<char>>(s);
            lemma_schema_wf(v);
        }
        lemma_opt_parsed(ms, "subject"@, subject_parser());
        if let Some(s) = m.subject {
            let v = choose|v: JsonView| #[trigger] subject_parser()(v) == Ok::<SubjectView, Seq<char>>(s);
            lemma_subject_wf(v);
        }
        lemma_list_parsed(ms, "attestations"@, attestation_parser());
        assert forall|i: int| 0 <= i < m.attestations.len() implies attestation_wf(#[trigger] m.attestations[i]) by {
            assert(m.attestations[i] == f_list(ms, "attestations"@, attestation_parser())->Ok_0[i]);
            let v = choose|v: JsonView| #[trigger] attestation_parser()(v) == Ok::<AttestationView, Seq<char>>(m.attestations[i]);
            lemma_attestation_wf(v);
        }
        lemma_list_parsed(ms, "provenance"@, provenance_parser());
        assert forall|i: int| 0 <= i < m.provenance.len() implies provenance_wf(#[trigger] m.provenance[i]) by {
            assert(m.provenance[i] == f_list(ms, "provenance"@, provenance_parser())->Ok_0[i]);
            let v = choose|v: JsonView| #[trigger] provenance_parser()(v) == Ok::<ProvenanceView, Seq<char>>(m.provenance[i]);
            lemma_provenance_wf(v);
        }
    }
}

proof fn lemma_host_wf(j: JsonView)
    requires
        spec_host(j) is Ok,
    ensures
        host_wf(spec_host(j)->Ok_0),
{
    if let JsonView::Object(ms) = j {
        let h = spec_host(j)->Ok_0;
        lemma_unknown_not_known(ms, host_keys());
        lemma_opt_parsed(ms, "trustManifest"@, manifest_parser());
        if let Some(m) = h.trust_manifest {
            let v = choose|v: JsonView| #[trigger] manifest_parser()(v) == Ok::<ManifestView, Seq<char>>(m);
            lemma_manifest_wf(v);
        }
    }
}

/// The names an entry's configuration knows are names an entry knows.
proof fn lemma_config_keys_known()
    ensures
        forall|k: Seq<char>| #[trigger] config_keys().contains(k) ==> entry_keys().contains(k),
{
    let c = config_keys();
    let e = entry_keys();
    assert forall|k: Seq<char>| #[trigger] c.contains(k) implies e.contains(k) by {
        let x = choose|x: int| 0 <= x < c.len() && c[x] == k;
        if x == 0 {
            assert(e[0] == k);
        } else if x == 1 {
            assert(e[1] == k);
        } else if x == 2 {
            assert(e[6] == k);
        } else if x == 3 {
            assert(e[7] == k);
        } else if x == 4 {
            assert(e[5] == k);
        } else if x == 5 {
            assert(e[10] == k);
        } else if x == 6 {
            assert(e[11] == k);
        } else if x == 7 {
            assert(e[8] == k);
        } else {
            assert(e[3] == k);
        }
    }
}

proof fn lemma_entry_wf(j: JsonView)
    requires
        spec_entry(j) is Ok,
    ensures
        entry_wf(spec_entry(j)->Ok_0),
        no_known_keys(spec_entry(j)->Ok_0.extra_fields, config_keys()),
{
    if let JsonView::Object(ms) = j {
        let e = spec_entry(j)->Ok_0;
        lemma_unknown_not_known(ms, entry_keys());
        lemma_config_keys_known();
        lemma_opt_parsed(ms, "publisher"@, publisher_parser());
        if let Some(p) = e.publisher {
            let v = choose|v: JsonView| #[trigger] publisher_parser()(v) == Ok::<PublisherView, Seq<char>>(p);
            lemma_publisher_wf(v);
        }
        lemma_opt_parsed(ms, "trustManifest"@, manifest_parser());
        if let Some(m) = e.trust_manifest {
            let v = choose|v: JsonView| #[trigger] manifest_parser()(v) == Ok::<ManifestView, Seq<char>>(m);
            lemma_manifest_wf(v);
        }
    }
}

/// A catalog read from JSON is well formed: no unknown member of it, or of
/// anything it holds, carries a name the schema knows, and no entry's
/// unknown member carries a name of its configuration.
pub proof fn law_read_catalog_well_formed(j: JsonView)
    requires
        spec_catalog_from_json(j) is Ok,
    ensures
        catalog_wf(spec_catalog_from_json(j)->Ok_0),
        forall|i: int| 0 <= i < spec_catalog_from_json(j)->Ok_0.entries.len() ==> no_known_keys(
            (#[trigger] spec_catalog_from_json(j)->Ok_0.entries[i]).extra_fields,
            config_keys(),
        ),
{
    if let JsonView::Object(ms) = j {
        let c = spec_catalog_from_json(j)->Ok_0;
        lemma_unknown_not_known(ms, catalog_keys());
        lemma_opt_parsed(ms, "host"@, host_parser());
        if let Some(h) = c.host {
            let v = choose|v: JsonView| #[trigger] host_parser()(v) == Ok::<HostView, Seq<char>>(h);
            lemma_host_wf(v);
        }
        lemma_list_parsed(ms, "entries"@, entry_parser());
        assert forall|i: int| 0 <= i < c.entries.len() implies entry_wf(#[trigger] c.entries[i]) && no_known_keys(
            c.entries[i].extra_fields,
            config_keys(),
        ) by {
            assert(c.entries[i] == f_list(ms, "entries"@, entry_parser())->Ok_0[i]);
            let v = choose|v: JsonView| #[trigger] entry_parser()(v) == Ok::<EntryView, Seq<char>>(c.entries[i]);
            lemma_entry_wf(v);
        }
    }
}

/// A catalog read from JSON in key order, as `serde_json` reads it, meets
/// what packing and unpacking it back ask, once each entry has exactly one
/// of `url` and `data` and entries whose manifests share a digest carry the
/// same trust manifest: it is packable, and its maps are in key order.
pub proof fn law_read_catalog_packable(j: JsonView)
    requires
        json_ordered(j),
        spec_catalog_from_json(j) is Ok,
        forall|i: int| 0 <= i < spec_catalog_from_json(j)->Ok_0.entries.len() ==> has_one_content(
            #[trigger] spec_catalog_from_json(j)->Ok_0.entries[i],
        ),
        manifests_distinct(spec_catalog_from_json(j)->Ok_0.entries),
    ensures
        catalog_packable(spec_catalog_from_json(j)->Ok_0),
        catalog_ordered(spec_catalog_from_json(j)->Ok_0),
{
    let c = spec_catalog_from_json(j)->Ok_0;
    law_read_catalog_well_formed(j);
    law_read_catalog_keeps_key_order(j);
    assert forall|i: int| 0 <= i < c.entries.len() implies entry_packable(#[trigger] c.entries[i]) by {
        assert(entry_wf(c.entries[i]));
        assert(has_one_content(c.entries[i]));
    }
}

} // verus!
