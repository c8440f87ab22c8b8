//! Reading back what was packed: the artifacts a catalog packs into unpack
//! into the same catalog, when each blob and JSON annotation is read back
//! as the JSON value it was written from.
use vstd::prelude::*;
use vstd::string::*;
use crate::json::JsonView;
use crate::keyed::{lemma_text_lt_irreflexive, lemma_text_lt_transitive, text_lt};
use crate::layout::annotation_value;
use crate::model::{CatalogView, EntryView, ManifestView};
use crate::cosign::{
    cosign_annotations, cosign_manifest, first_with_digest, public_key_config_json, signature_config_json,
    spec_attach_cosign,
};
use crate::oci::{
    ArtifactSetView, DescriptorView, ImageManifestView, bytes_descriptor, json_bytes, COSIGN_PUBLIC_KEY_ARTIFACT_TYPE,
    COSIGN_PUBLIC_KEY_CONFIG_MEDIA_TYPE, COSIGN_PUBLIC_KEY_LAYER_MEDIA_TYPE, COSIGN_SIGNATURE_ARTIFACT_TYPE,
    COSIGN_SIGNATURE_CONFIG_MEDIA_TYPE, COSIGN_SIGNATURE_LAYER_MEDIA_TYPE,
};
use crate::pack::{
    PackState, annotation_key, no_annotations, catalog_annotations, config_descriptor, entry_config_json, entry_image_manifest,
    entry_layers, entry_manifest_descriptor, has_one_content, lemma_annotation_names_ordered, pack_entries,
    pack_entry, referrers_at, spec_pack_catalog, trust_config_descriptor, trust_referrer,
};
use crate::render::{
    Members, host_json, list_member, manifest_json, member, opt_json_member, opt_object_member,
    opt_string_member, publisher_json, string_writer,
};
use crate::roundtrip::{
    host_wf, law_host_round_trip, law_manifest_round_trip, law_publisher_round_trip, lemma_lookup_absent,
    lemma_lookup_concat, lemma_lookup_empty, lemma_lookup_member, lemma_strings_written, lemma_unknown_all,
    lemma_unknown_concat, lemma_unknown_none, manifest_wf, no_known_keys, only_known_keys, publisher_wf,
};
use crate::schema::{lookup, spec_manifest, unknown_members};
use crate::unpack::{
    ConfigView, UnpackFailure, config_keys, decoded_at, entry_content, entry_trust, entry_type_of,
    first_trust_referrer, is_trust_referrer, spec_entry_config, spec_unpack_catalog, unpack_entries,
    unpack_entry, blob_json,
};

use crate::ordered::{catalog_ordered, entry_ordered};
use crate::reorder::{
    lemma_config_reordered, lemma_host_reordered, lemma_manifest_reordered, lemma_reordered_ordered, reordered,
};

verus! {

/// The descriptor of an entry's manifest.
pub open spec fn manifest_descriptor_of(e: EntryView) -> DescriptorView {
    entry_manifest_descriptor(e, entry_layers(e)->Some_0)
}

/// An entry's manifest.
pub open spec fn image_manifest_of(e: EntryView) -> ImageManifestView {
    entry_image_manifest(e, entry_layers(e)->Some_0)
}

/// Entries whose manifests share a digest have the same manifest and the
/// same trust manifest: a digest names one manifest, and the trust manifest
/// is the one part of an entry its manifest does not hold.
pub open spec fn manifests_distinct(es: Seq<EntryView>) -> bool {
    forall|i: int, j: int|
        0 <= i < es.len() && 0 <= j < es.len() && #[trigger] manifest_descriptor_of(es[i]).digest
            == #[trigger] manifest_descriptor_of(es[j]).digest ==> image_manifest_of(es[i]) == image_manifest_of(es[j])
            && es[i].trust_manifest == es[j].trust_manifest
}

/// An entry whose configuration reads back as itself: no unknown member
/// carries a configuration member's name, and its publisher and trust
/// manifest read back as themselves.
pub open spec fn entry_packable(e: EntryView) -> bool {
    &&& has_one_content(e)
    &&& no_known_keys(e.extra_fields, config_keys())
    &&& (e.publisher matches Some(p) ==> publisher_wf(p))
    &&& (e.trust_manifest matches Some(m) ==> manifest_wf(m))
}

/// A catalog every entry of which packs and reads back, whose host reads
/// back as itself, and whose entries' manifests are told apart by digest.
pub open spec fn catalog_packable(c: CatalogView) -> bool {
    &&& (c.host matches Some(h) ==> host_wf(h))
    &&& (forall|i: int| 0 <= i < c.entries.len() ==> entry_packable(#[trigger] c.entries[i]))
    &&& manifests_distinct(c.entries)
}

/// The blob table reads each blob packing wrote as the JSON it was
/// written from, with the members of each object in key order, as
/// `serde_json` reads every object.
pub open spec fn reads_back_blobs(c: CatalogView, t: Seq<(Seq<char>, Result<JsonView, Seq<char>>)>) -> bool {
    forall|i: int|
        0 <= i < c.entries.len() ==> {
            let e = #[trigger] c.entries[i];
            &&& decoded_at(t, config_descriptor(e).digest) is Ok
            &&& reordered(entry_config_json(e), decoded_at(t, config_descriptor(e).digest)->Ok_0)
            &&& (e.url is None && e.data is Some ==> decoded_at(t, entry_layers(e)->Some_0[0].digest) is Ok
                && reordered(e.data->Some_0, decoded_at(t, entry_layers(e)->Some_0[0].digest)->Ok_0))
            &&& (e.trust_manifest is Some ==> decoded_at(t, trust_config_descriptor(e.trust_manifest->Some_0).digest) is Ok
                && reordered(
                manifest_json(e.trust_manifest->Some_0),
                decoded_at(t, trust_config_descriptor(e.trust_manifest->Some_0).digest)->Ok_0,
            ))
        }
}

/// The annotation table reads each JSON annotation packing wrote as the
/// JSON it was written from, with the members of each object in key
/// order.
pub open spec fn reads_back_annotations(c: CatalogView, t: Seq<(Seq<char>, Result<JsonView, Seq<char>>)>) -> bool {
    &&& (c.host is Some ==> decoded_at(t, annotation_key("host"@)) is Ok && reordered(
        host_json(c.host->Some_0),
        decoded_at(t, annotation_key("host"@))->Ok_0,
    ))
    &&& (c.extensions is Some ==> decoded_at(t, annotation_key("extensions"@)) is Ok && reordered(
        JsonView::Object(c.extensions->Some_0),
        decoded_at(t, annotation_key("extensions"@))->Ok_0,
    ))
    &&& (c.extra_fields.len() > 0 ==> decoded_at(t, annotation_key("extraFields"@)) is Ok && reordered(
        JsonView::Object(c.extra_fields),
        decoded_at(t, annotation_key("extraFields"@))->Ok_0,
    ))
}

// ---------------------------------------------------------------------
// The configuration reads back.

pub open spec fn config_of(e: EntryView) -> ConfigView {
    ConfigView {
        identifier: e.identifier,
        display_name: e.display_name,
        description: e.description,
        tags: e.tags,
        version: e.version,
        updated_at: e.updated_at,
        extensions: e.extensions,
        publisher: e.publisher,
        url: e.url,
        extra_fields: e.extra_fields,
    }
}

pub open spec fn config_known(e: EntryView) -> Members {
    member("identifier"@, JsonView::Str(e.identifier)) + opt_string_member("displayName"@, e.display_name)
        + opt_string_member("description"@, e.description) + list_member(
        "tags"@,
        e.tags.map_values(string_writer()),
    ) + opt_string_member("version"@, e.version) + opt_string_member("updatedAt"@, e.updated_at)
        + opt_object_member("extensions"@, e.extensions) + opt_json_member(
        "publisher"@,
        match e.publisher {
            Some(p) => Some(publisher_json(p)),
            None => None,
        },
    ) + opt_string_member("url"@, e.url)
}

proof fn lemma_config_names_distinct()
    ensures
        "identifier"@ != "displayName"@,
        "identifier"@ != "description"@,
        "identifier"@ != "tags"@,
        "identifier"@ != "version"@,
        "identifier"@ != "updatedAt"@,
        "identifier"@ != "extensions"@,
        "identifier"@ != "publisher"@,
        "identifier"@ != "url"@,
        "displayName"@ != "description"@,
        "displayName"@ != "tags"@,
        "displayName"@ != "version"@,
        "displayName"@ != "updatedAt"@,
        "displayName"@ != "extensions"@,
        "displayName"@ != "publisher"@,
        "displayName"@ != "url"@,
        "description"@ != "tags"@,
        "description"@ != "version"@,
        "description"@ != "updatedAt"@,
        "description"@ != "extensions"@,
        "description"@ != "publisher"@,
        "description"@ != "url"@,
        "tags"@ != "version"@,
        "tags"@ != "updatedAt"@,
        "tags"@ != "extensions"@,
        "tags"@ != "publisher"@,
        "tags"@ != "url"@,
        "version"@ != "updatedAt"@,
        "version"@ != "extensions"@,
        "version"@ != "publisher"@,
        "version"@ != "url"@,
        "updatedAt"@ != "extensions"@,
        "updatedAt"@ != "publisher"@,
        "updatedAt"@ != "url"@,
        "extensions"@ != "publisher"@,
        "extensions"@ != "url"@,
        "publisher"@ != "url"@,
{
    reveal_strlit("identifier");
    assert("identifier"@.len() == 10);
    reveal_strlit("displayName");
    assert("displayName"@.len() == 11);
    reveal_strlit("description");
    assert("description"@.len() == 11);
    reveal_strlit("tags");
    assert("tags"@.len() == 4);
    reveal_strlit("version");
    assert("version"@.len() == 7);
    reveal_strlit("updatedAt");
    assert("updatedAt"@.len() == 9);
    reveal_strlit("extensions");
    assert("extensions"@.len() == 10);
    reveal_strlit("publisher");
    assert("publisher"@.len() == 9);
    reveal_strlit("url");
    assert("url"@.len() == 3);
    assert("identifier"@[0] == 'i' && "extensions"@[0] == 'e');
    assert("displayName"@[1] == 'i' && "description"@[1] == 'e');
    assert("publisher"@[0] == 'p' && "updatedAt"@[0] == 'u');
}

#[verifier::rlimit(100)]
proof fn lemma_config_absent(e: EntryView)
    requires
        no_known_keys(e.extra_fields, config_keys()),
    ensures
        lookup(e.extra_fields, "identifier"@) is None,
        lookup(e.extra_fields, "displayName"@) is None,
        lookup(e.extra_fields, "description"@) is None,
        lookup(e.extra_fields, "tags"@) is None,
        lookup(e.extra_fields, "version"@) is None,
        lookup(e.extra_fields, "updatedAt"@) is None,
        lookup(e.extra_fields, "extensions"@) is None,
        lookup(e.extra_fields, "publisher"@) is None,
        lookup(e.extra_fields, "url"@) is None,
        unknown_members(config_known(e) + e.extra_fields, config_keys()) == e.extra_fields,
{
    broadcast use lemma_unknown_concat;
    let keys = config_keys();
    assert(keys[0] == "identifier"@ && keys[1] == "displayName"@ && keys[2] == "description"@ && keys[3] == "tags"@
        && keys[4] == "version"@ && keys[5] == "updatedAt"@ && keys[6] == "extensions"@ && keys[7] == "publisher"@
        && keys[8] == "url"@);
    lemma_lookup_absent(e.extra_fields, keys, "identifier"@);
    lemma_lookup_absent(e.extra_fields, keys, "displayName"@);
    lemma_lookup_absent(e.extra_fields, keys, "description"@);
    lemma_lookup_absent(e.extra_fields, keys, "tags"@);
    lemma_lookup_absent(e.extra_fields, keys, "version"@);
    lemma_lookup_absent(e.extra_fields, keys, "updatedAt"@);
    lemma_lookup_absent(e.extra_fields, keys, "extensions"@);
    lemma_lookup_absent(e.extra_fields, keys, "publisher"@);
    lemma_lookup_absent(e.extra_fields, keys, "url"@);
    lemma_unknown_none(e.extra_fields, keys);
    assert(only_known_keys(config_known(e), keys));
    lemma_unknown_all(config_known(e), keys);
    assert(Seq::<(Seq<char>, JsonView)>::empty() + e.extra_fields =~= e.extra_fields);
}

#[verifier::rlimit(100)]
proof fn lemma_config_fields_a(e: EntryView)
    requires
        no_known_keys(e.extra_fields, config_keys()),
    ensures
        ({
            let ms = config_known(e) + e.extra_fields;
            &&& crate::unpack::f_req_string(ms, "identifier"@) == Ok::<_, Seq<char>>(e.identifier)
            &&& crate::schema::f_opt_string(ms, "displayName"@) == Ok::<_, Seq<char>>(e.display_name)
            &&& crate::schema::f_opt_string(ms, "description"@) == Ok::<_, Seq<char>>(e.description)
            &&& crate::schema::f_strings(ms, "tags"@) == Ok::<_, Seq<char>>(e.tags)
            &&& crate::schema::f_opt_string(ms, "version"@) == Ok::<_, Seq<char>>(e.version)
        }),
{
    broadcast use lemma_lookup_concat, lemma_lookup_member, lemma_lookup_empty;
    lemma_config_names_distinct();
    lemma_config_absent(e);
    lemma_strings_written(e.tags);
}

#[verifier::rlimit(100)]
proof fn lemma_config_fields_b(e: EntryView)
    requires
        no_known_keys(e.extra_fields, config_keys()),
        e.publisher matches Some(p) ==> publisher_wf(p),
    ensures
        ({
            let ms = config_known(e) + e.extra_fields;
            &&& crate::schema::f_opt_string(ms, "updatedAt"@) == Ok::<_, Seq<char>>(e.updated_at)
            &&& crate::schema::f_opt_object(ms, "extensions"@) == Ok::<_, Seq<char>>(e.extensions)
            &&& crate::schema::f_opt(ms, "publisher"@, crate::schema::publisher_parser()) == Ok::<_, Seq<char>>(e.publisher)
            &&& crate::schema::f_opt_string(ms, "url"@) == Ok::<_, Seq<char>>(e.url)
        }),
{
    broadcast use lemma_lookup_concat, lemma_lookup_member, lemma_lookup_empty;
    lemma_config_names_distinct();
    lemma_config_absent(e);
    if let Some(p) = e.publisher {
        law_publisher_round_trip(p);
    }
}

/// An entry's configuration, written as JSON, reads back as the entry's
/// configuration.
pub proof fn law_config_round_trip(e: EntryView)
    requires
        no_known_keys(e.extra_fields, config_keys()),
        e.publisher matches Some(p) ==> publisher_wf(p),
    ensures
        spec_entry_config(entry_config_json(e)) == Ok::<_, Seq<char>>(config_of(e)),
{
    lemma_config_fields_a(e);
    lemma_config_fields_b(e);
    lemma_config_absent(e);
    assert(entry_config_json(e) == JsonView::Object(config_known(e) + e.extra_fields));
}

// ---------------------------------------------------------------------
// What packing holds after each entry.

/// The trust manifest referrer of an entry.
pub open spec fn referrer_of(e: EntryView) -> ImageManifestView {
    trust_referrer(manifest_descriptor_of(e), e.trust_manifest->Some_0)
}

/// After the first `n` entries: each entry's manifest is held under its
/// digest, its configuration, data and trust manifest as blobs, and its
/// trust manifest referrer first among the trust manifest referrers of its
/// manifest; referrers are held only for manifests of entries with a trust
/// manifest.
pub open spec fn pack_state_ok(es: Seq<EntryView>, n: nat, st: PackState) -> bool {
    &&& forall|i: int|
        0 <= i < n ==> st.manifests.dom().contains(manifest_descriptor_of(#[trigger] es[i]).digest)
            && st.manifests[manifest_descriptor_of(es[i]).digest] == image_manifest_of(es[i])
    &&& forall|i: int| 0 <= i < n ==> st.blobs.dom().contains(config_descriptor(#[trigger] es[i]).digest)
    &&& forall|i: int|
        0 <= i < n && (#[trigger] es[i]).url is None && es[i].data is Some ==> st.blobs.dom().contains(
            entry_layers(es[i])->Some_0[0].digest,
        )
    &&& forall|i: int|
        0 <= i < n && (#[trigger] es[i]).trust_manifest is Some ==> st.blobs.dom().contains(
            trust_config_descriptor(es[i].trust_manifest->Some_0).digest,
        )
    &&& forall|k: Seq<char>|
        #[trigger] st.referrers.dom().contains(k) ==> exists|i: int|
            0 <= i < n && manifest_descriptor_of(#[trigger] es[i]).digest == k && es[i].trust_manifest is Some
    &&& forall|i: int|
        0 <= i < n && (#[trigger] es[i]).trust_manifest is Some ==> st.referrers.dom().contains(
            manifest_descriptor_of(es[i]).digest,
        ) && first_trust_referrer(st.referrers[manifest_descriptor_of(es[i]).digest]) == Some(referrer_of(es[i]))
}

proof fn lemma_first_trust_push(l: Seq<ImageManifestView>, x: ImageManifestView)
    ensures
        first_trust_referrer(l) is Some ==> first_trust_referrer(l.push(x)) == first_trust_referrer(l),
        first_trust_referrer(l) is None && is_trust_referrer(x) ==> first_trust_referrer(l.push(x)) == Some(x),
{
    assert(l.push(x).drop_last() =~= l);
}

/// An entry's manifest is determined by its manifest: a shared manifest
/// means a shared descriptor and trust referrer.
proof fn lemma_same_manifest(a: EntryView, b: EntryView)
    requires
        has_one_content(a),
        has_one_content(b),
        image_manifest_of(a) == image_manifest_of(b),
        a.trust_manifest == b.trust_manifest,
    ensures
        manifest_descriptor_of(a) == manifest_descriptor_of(b),
        a.trust_manifest is Some ==> referrer_of(a) == referrer_of(b),
{
    assert(image_manifest_of(a).artifact_type == Some(a.entry_type));
    assert(image_manifest_of(a).annotations == crate::pack::entry_annotations(a));
}

#[verifier::rlimit(100)]
proof fn lemma_pack_step(es: Seq<EntryView>, n: nat, st: PackState)
    requires
        n < es.len(),
        forall|i: int| 0 <= i < es.len() ==> has_one_content(#[trigger] es[i]),
        manifests_distinct(es),
        pack_state_ok(es, n, st),
    ensures
        pack_entry(st, es[n as int]) is Ok,
        pack_state_ok(es, n + 1, pack_entry(st, es[n as int])->Ok_0),
{
    let e = es[n as int];
    assert(has_one_content(e));
    let layers = entry_layers(e)->Some_0;
    let md = manifest_descriptor_of(e);
    let st2 = pack_entry(st, e)->Ok_0;
    assert(st2.manifests == st.manifests.insert(md.digest, image_manifest_of(e)));
    assert forall|i: int| 0 <= i < n + 1 implies st2.manifests.dom().contains(manifest_descriptor_of(#[trigger] es[i]).digest)
        && st2.manifests[manifest_descriptor_of(es[i]).digest] == image_manifest_of(es[i]) by {
        if i < n && manifest_descriptor_of(es[i]).digest == md.digest {
            assert(image_manifest_of(es[i]) == image_manifest_of(es[n as int]));
        }
    }
    assert forall|i: int| 0 <= i < n + 1 implies st2.blobs.dom().contains(config_descriptor(#[trigger] es[i]).digest) by {
        if i < n {
            assert(st.blobs.dom().contains(config_descriptor(es[i]).digest));
        }
    }
    assert forall|i: int| 0 <= i < n + 1 && (#[trigger] es[i]).url is None && es[i].data is Some implies st2.blobs.dom().contains(
        entry_layers(es[i])->Some_0[0].digest,
    ) by {
        if i < n {
            assert(st.blobs.dom().contains(entry_layers(es[i])->Some_0[0].digest));
        }
    }
    assert forall|i: int| 0 <= i < n + 1 && (#[trigger] es[i]).trust_manifest is Some implies st2.blobs.dom().contains(
        trust_config_descriptor(es[i].trust_manifest->Some_0).digest,
    ) by {
        if i < n {
            assert(st.blobs.dom().contains(trust_config_descriptor(es[i].trust_manifest->Some_0).digest));
        }
    }
    lemma_pack_step_referrers(es, n, st);
}

#[verifier::rlimit(100)]
proof fn lemma_pack_step_referrers(es: Seq<EntryView>, n: nat, st: PackState)
    requires
        n < es.len(),
        forall|i: int| 0 <= i < es.len() ==> has_one_content(#[trigger] es[i]),
        manifests_distinct(es),
        pack_state_ok(es, n, st),
    ensures
        pack_entry(st, es[n as int]) is Ok,
        ({
            let st2 = pack_entry(st, es[n as int])->Ok_0;
            &&& forall|k: Seq<char>|
                #[trigger] st2.referrers.dom().contains(k) ==> exists|i: int|
                    0 <= i < n + 1 && manifest_descriptor_of(#[trigger] es[i]).digest == k && es[i].trust_manifest is Some
            &&& forall|i: int|
                0 <= i < n + 1 && (#[trigger] es[i]).trust_manifest is Some ==> st2.referrers.dom().contains(
                    manifest_descriptor_of(es[i]).digest,
                ) && first_trust_referrer(st2.referrers[manifest_descriptor_of(es[i]).digest]) == Some(
                    referrer_of(es[i]),
                )
        }),
{
    let e = es[n as int];
    assert(has_one_content(e));
    let md = manifest_descriptor_of(e);
    let st2 = pack_entry(st, e)->Ok_0;
    match e.trust_manifest {
        None => {
            assert(st2.referrers == st.referrers);
            assert forall|k: Seq<char>| #[trigger] st2.referrers.dom().contains(k) implies exists|i: int|
                0 <= i < n + 1 && manifest_descriptor_of(#[trigger] es[i]).digest == k && es[i].trust_manifest is Some by {
                let i = choose|i: int| 0 <= i < n && manifest_descriptor_of(#[trigger] es[i]).digest == k && es[i].trust_manifest is Some;
                assert(0 <= i < n + 1 && manifest_descriptor_of(es[i]).digest == k && es[i].trust_manifest is Some);
            }
        },
        Some(m) => {
            let old_list = referrers_at(st.referrers, md.digest);
            let r = referrer_of(e);
            assert(r == trust_referrer(md, m));
            assert(is_trust_referrer(r));
            assert(st2.referrers == st.referrers.insert(md.digest, old_list.push(r)));
            lemma_first_trust_push(old_list, r);
            assert forall|k: Seq<char>| #[trigger] st2.referrers.dom().contains(k) implies exists|i: int|
                0 <= i < n + 1 && manifest_descriptor_of(#[trigger] es[i]).digest == k && es[i].trust_manifest is Some by {
                if k == md.digest {
                    assert(0 <= n < n + 1 && manifest_descriptor_of(es[n as int]).digest == k);
                } else {
                    let i = choose|i: int| 0 <= i < n && manifest_descriptor_of(#[trigger] es[i]).digest == k && es[i].trust_manifest is Some;
                    assert(0 <= i < n + 1 && manifest_descriptor_of(es[i]).digest == k && es[i].trust_manifest is Some);
                }
            }
            if st.referrers.dom().contains(md.digest) {
                let j = choose|j: int| 0 <= j < n && manifest_descriptor_of(#[trigger] es[j]).digest == md.digest && es[j].trust_manifest is Some;
                assert(image_manifest_of(es[j]) == image_manifest_of(e) && es[j].trust_manifest == e.trust_manifest);
                lemma_same_manifest(es[j], e);
                assert(first_trust_referrer(st.referrers[md.digest]) == Some(referrer_of(es[j])));
            } else {
                assert(old_list =~= Seq::<ImageManifestView>::empty());
            }
            assert(first_trust_referrer(st2.referrers[md.digest]) == Some(r));
            assert forall|i: int| 0 <= i < n + 1 && (#[trigger] es[i]).trust_manifest is Some implies st2.referrers.dom().contains(
                manifest_descriptor_of(es[i]).digest,
            ) && first_trust_referrer(st2.referrers[manifest_descriptor_of(es[i]).digest]) == Some(referrer_of(es[i])) by {
                if i < n && manifest_descriptor_of(es[i]).digest == md.digest {
                    assert(first_trust_referrer(st.referrers[md.digest]) == Some(referrer_of(es[i])));
                    assert(old_list == st.referrers[md.digest]);
                }
            }
        },
    }
}

pub(crate) proof fn lemma_pack_state(es: Seq<EntryView>, n: nat)
    requires
        n <= es.len(),
        forall|i: int| 0 <= i < es.len() ==> has_one_content(#[trigger] es[i]),
        manifests_distinct(es),
    ensures
        pack_entries(es, n) is Ok,
        pack_state_ok(es, n, pack_entries(es, n)->Ok_0),
    decreases n,
{
    if n > 0 {
        lemma_pack_state(es, (n - 1) as nat);
        lemma_pack_step(es, (n - 1) as nat, pack_entries(es, (n - 1) as nat)->Ok_0);
    }
}

// ---------------------------------------------------------------------
// Unpacking what was packed.

#[verifier::rlimit(100)]
proof fn lemma_unpack_packed_entry(c: CatalogView, t: Seq<(Seq<char>, Result<JsonView, Seq<char>>)>, i: int)
    requires
        catalog_packable(c),
        catalog_ordered(c),
        reads_back_blobs(c, t),
        0 <= i < c.entries.len(),
    ensures
        spec_pack_catalog(c) is Ok,
        unpack_entry(spec_pack_catalog(c)->Ok_0, t, manifest_descriptor_of(c.entries[i])) == Ok::<_, UnpackFailure>(
            c.entries[i],
        ),
{
    let es = c.entries;
    lemma_pack_state(es, es.len());
    let st = pack_entries(es, es.len())->Ok_0;
    let a = spec_pack_catalog(c)->Ok_0;
    assert(a.manifests == st.manifests && a.blobs == st.blobs && a.referrers == st.referrers);
    let e = es[i];
    assert(entry_packable(e));
    let md = manifest_descriptor_of(e);
    let im = image_manifest_of(e);
    assert(a.manifests.dom().contains(md.digest) && a.manifests[md.digest] == im);
    assert(im.config == config_descriptor(e));
    assert(a.blobs.dom().contains(config_descriptor(e).digest));
    assert(entry_ordered(e));
    let rc = decoded_at(t, config_descriptor(e).digest)->Ok_0;
    assert(blob_json(a, t, im.config.digest) == Ok::<_, UnpackFailure>(rc));
    law_config_round_trip(e);
    lemma_config_reordered(entry_config_json(e), rc);
    assert(spec_entry_config(rc) == Ok::<_, Seq<char>>(config_of(e)));
    let cfg = config_of(e);
    let content = entry_content(a, t, im, cfg);
    match e.url {
        Some(u) => {
            assert(content == Ok::<_, UnpackFailure>((e.url, e.data)));
        },
        None => {
            assert(e.data is Some);
            assert(im.layers == entry_layers(e)->Some_0);
            assert(im.layers.len() > 0);
            assert(a.blobs.dom().contains(entry_layers(e)->Some_0[0].digest));
            lemma_reordered_ordered(e.data->Some_0, decoded_at(t, entry_layers(e)->Some_0[0].digest)->Ok_0);
            assert(content == Ok::<_, UnpackFailure>((e.url, e.data)));
        },
    }
    match e.trust_manifest {
        Some(m) => {
            assert(a.referrers.dom().contains(md.digest));
            assert(first_trust_referrer(referrers_at(a.referrers, md.digest)) == Some(referrer_of(e)));
            assert(referrer_of(e).config == trust_config_descriptor(m));
            assert(a.blobs.dom().contains(trust_config_descriptor(m).digest));
            law_manifest_round_trip(m);
            assert(spec_manifest(manifest_json(m)) == Ok::<_, Seq<char>>(m));
            lemma_manifest_reordered(manifest_json(m), decoded_at(t, trust_config_descriptor(m).digest)->Ok_0);
            assert(entry_trust(a, t, md.digest) == Ok::<_, UnpackFailure>(e.trust_manifest));
        },
        None => {
            if a.referrers.dom().contains(md.digest) {
                let j = choose|j: int| 0 <= j < es.len() && manifest_descriptor_of(#[trigger] es[j]).digest == md.digest && es[j].trust_manifest is Some;
                assert(es[j].trust_manifest == es[i].trust_manifest);
            }
            assert(referrers_at(a.referrers, md.digest) =~= Seq::<ImageManifestView>::empty());
            assert(entry_trust(a, t, md.digest) == Ok::<_, UnpackFailure>(e.trust_manifest));
        },
    }
    assert(entry_type_of(md, im) == e.entry_type);
}

proof fn lemma_unpack_packed_entries(c: CatalogView, t: Seq<(Seq<char>, Result<JsonView, Seq<char>>)>, n: nat)
    requires
        catalog_packable(c),
        catalog_ordered(c),
        reads_back_blobs(c, t),
        n <= c.entries.len(),
    ensures
        spec_pack_catalog(c) is Ok,
        unpack_entries(spec_pack_catalog(c)->Ok_0, t, n) == Ok::<_, UnpackFailure>(c.entries.take(n as int)),
    decreases n,
{
    lemma_pack_state(c.entries, c.entries.len());
    crate::pack::law_pack_index_follows_entries(c);
    let a = spec_pack_catalog(c)->Ok_0;
    if n == 0 {
        assert(c.entries.take(0) =~= Seq::<EntryView>::empty());
    } else {
        lemma_unpack_packed_entries(c, t, (n - 1) as nat);
        lemma_unpack_packed_entry(c, t, n - 1);
        assert(a.index.manifests[n - 1] == manifest_descriptor_of(c.entries[n - 1]));
        assert(c.entries.take(n as int) =~= c.entries.take(n - 1).push(c.entries[n - 1]));
    }
}

pub broadcast proof fn lemma_annotation_value_concat(
    a: Seq<(Seq<char>, Seq<char>)>,
    b: Seq<(Seq<char>, Seq<char>)>,
    k: Seq<char>,
)
    ensures
        #[trigger] annotation_value(a + b, k) == match annotation_value(a, k) {
            Some(v) => Some(v),
            None => annotation_value(b, k),
        },
    decreases b.len(),
{
    if b.len() == 0 {
        assert(a + b =~= a);
    } else {
        assert((a + b).drop_last() =~= a + b.drop_last());
        assert((a + b).last() == b.last());
        lemma_annotation_value_concat(a, b.drop_last(), k);
    }
}

pub broadcast proof fn lemma_annotation_value_single(k1: Seq<char>, v: Seq<char>, k: Seq<char>)
    ensures
        #[trigger] annotation_value(seq![(k1, v)], k) == if k == k1 {
            Some(v)
        } else {
            None
        },
{
    assert(seq![(k1, v)].drop_last() =~= Seq::<(Seq<char>, Seq<char>)>::empty());
    assert(annotation_value(Seq::<(Seq<char>, Seq<char>)>::empty(), k) is None);
    assert(seq![(k1, v)].last() == (k1, v));
    assert(seq![(k1, v)].len() == 1);
}

pub broadcast proof fn lemma_annotation_value_empty(k: Seq<char>)
    ensures
        #[trigger] annotation_value(Seq::<(Seq<char>, Seq<char>)>::empty(), k) is None,
{
}

/// The names of the root index's annotations differ from one another.
proof fn lemma_catalog_annotation_names_distinct()
    ensures
        annotation_key("extensions"@) != annotation_key("extraFields"@),
        annotation_key("extensions"@) != annotation_key("host"@),
        annotation_key("extensions"@) != annotation_key("signature"@),
        annotation_key("extensions"@) != annotation_key("specVersion"@),
        annotation_key("extraFields"@) != annotation_key("host"@),
        annotation_key("extraFields"@) != annotation_key("signature"@),
        annotation_key("extraFields"@) != annotation_key("specVersion"@),
        annotation_key("host"@) != annotation_key("signature"@),
        annotation_key("host"@) != annotation_key("specVersion"@),
        annotation_key("signature"@) != annotation_key("specVersion"@),
{
    lemma_annotation_names_ordered();
    let k1 = annotation_key("extensions"@);
    let k2 = annotation_key("extraFields"@);
    let k3 = annotation_key("host"@);
    let k4 = annotation_key("signature"@);
    let k5 = annotation_key("specVersion"@);
    lemma_text_lt_transitive(k1, k2, k3);
    lemma_text_lt_transitive(k1, k3, k4);
    lemma_text_lt_transitive(k1, k4, k5);
    lemma_text_lt_transitive(k2, k3, k4);
    lemma_text_lt_transitive(k2, k4, k5);
    lemma_text_lt_transitive(k3, k4, k5);
    lemma_text_lt_irreflexive(k1);
    lemma_text_lt_irreflexive(k2);
    lemma_text_lt_irreflexive(k3);
    lemma_text_lt_irreflexive(k4);
    lemma_text_lt_irreflexive(k5);
}

#[verifier::rlimit(100)]
proof fn lemma_catalog_annotation_values(c: CatalogView)
    ensures
        annotation_value(catalog_annotations(c), annotation_key("specVersion"@)) == Some(c.spec_version),
        annotation_value(catalog_annotations(c), annotation_key("signature"@)) == c.signature,
        annotation_value(catalog_annotations(c), annotation_key("host"@)) is Some <==> c.host is Some,
        annotation_value(catalog_annotations(c), annotation_key("extensions"@)) is Some <==> c.extensions is Some,
        annotation_value(catalog_annotations(c), annotation_key("extraFields"@)) is Some <==> c.extra_fields.len() > 0,
{
    broadcast use lemma_annotation_value_concat, lemma_annotation_value_single, lemma_annotation_value_empty;
    lemma_catalog_annotation_names_distinct();
}

/// Unpacking the artifacts a catalog packs into gives back the catalog:
/// when every entry has exactly one of `url` and `data`, entries whose
/// manifests share a digest have the same manifest and trust manifest,
/// everything read back as JSON reads back as itself, every map of the
/// catalog is in key order (as in any catalog read from JSON), and each
/// blob and JSON annotation is read as the JSON value it was written from
/// with its objects' members in key order, as `serde_json` reads them.
#[verifier::rlimit(100)]
pub proof fn law_unpack_after_pack(
    c: CatalogView,
    blob_json_table: Seq<(Seq<char>, Result<JsonView, Seq<char>>)>,
    annotation_table: Seq<(Seq<char>, Result<JsonView, Seq<char>>)>,
)
    requires
        catalog_packable(c),
        catalog_ordered(c),
        reads_back_blobs(c, blob_json_table),
        reads_back_annotations(c, annotation_table),
    ensures
        spec_pack_catalog(c) is Ok,
        spec_unpack_catalog(spec_pack_catalog(c)->Ok_0, blob_json_table, annotation_table) == Ok::<_, UnpackFailure>(c),
{
    lemma_unpack_packed_entries(c, blob_json_table, c.entries.len());
    crate::pack::law_pack_index_follows_entries(c);
    lemma_catalog_annotation_values(c);
    let a = spec_pack_catalog(c)->Ok_0;
    assert(a.index.annotations == catalog_annotations(c));
    assert(c.entries.take(c.entries.len() as int) =~= c.entries);
    if let Some(h) = c.host {
        law_host_round_trip(h);
        lemma_host_reordered(host_json(h), decoded_at(annotation_table, annotation_key("host"@))->Ok_0);
    }
    if let Some(ext) = c.extensions {
        lemma_reordered_ordered(JsonView::Object(ext), decoded_at(annotation_table, annotation_key("extensions"@))->Ok_0);
    }
    if c.extra_fields.len() > 0 {
        lemma_reordered_ordered(
            JsonView::Object(c.extra_fields),
            decoded_at(annotation_table, annotation_key("extraFields"@))->Ok_0,
        );
    }
    assert(crate::unpack::annotation_host(a, annotation_table) == Ok::<_, UnpackFailure>(c.host));
    assert(crate::unpack::annotation_object(a, annotation_table, "extensions"@) == Ok::<_, UnpackFailure>(c.extensions));
    if c.extra_fields.len() == 0 {
        assert(c.extra_fields =~= Seq::<(Seq<char>, JsonView)>::empty());
    }
}

// ---------------------------------------------------------------------
// Attaching cosign material leaves what unpacks unchanged.

proof fn lemma_cosign_types_not_trust()
    ensures
        COSIGN_SIGNATURE_ARTIFACT_TYPE@ != crate::pack::trust_manifest_artifact_type(),
        COSIGN_PUBLIC_KEY_ARTIFACT_TYPE@ != crate::pack::trust_manifest_artifact_type(),
{
    reveal_strlit("application/vnd.ai-catalog.cosign.signature.v1");
    reveal_strlit("application/vnd.ai-catalog.cosign.public-key.v1");
    reveal_strlit("application/vnd.ai-catalog.trust-manifest.v1+json");
    assert(COSIGN_SIGNATURE_ARTIFACT_TYPE@.len() == 46);
    assert(COSIGN_PUBLIC_KEY_ARTIFACT_TYPE@.len() == 47);
    assert(crate::pack::trust_manifest_artifact_type().len() == 49);
}

proof fn lemma_first_trust_push_other(l: Seq<ImageManifestView>, x: ImageManifestView)
    requires
        !is_trust_referrer(x),
    ensures
        first_trust_referrer(l.push(x)) == first_trust_referrer(l),
{
    assert(l.push(x).drop_last() =~= l);
}

/// The parts of artifacts that unpacking reads, compared: the same root
/// index and manifests, no blob fewer, and under each digest the same first
/// trust manifest referrer.
pub open spec fn unpacks_alike(a: ArtifactSetView, b: ArtifactSetView) -> bool {
    &&& b.index == a.index
    &&& b.manifests == a.manifests
    &&& forall|d: Seq<char>| #[trigger] a.blobs.dom().contains(d) ==> b.blobs.dom().contains(d)
    &&& forall|d: Seq<char>|
        #[trigger] first_trust_referrer(referrers_at(b.referrers, d)) == first_trust_referrer(referrers_at(a.referrers, d))
}

#[verifier::rlimit(100)]
proof fn lemma_unpack_entry_alike(
    a: ArtifactSetView,
    b: ArtifactSetView,
    t: Seq<(Seq<char>, Result<JsonView, Seq<char>>)>,
    d: DescriptorView,
)
    requires
        unpacks_alike(a, b),
        unpack_entry(a, t, d) is Ok,
    ensures
        unpack_entry(b, t, d) == unpack_entry(a, t, d),
{
    let m = a.manifests[d.digest];
    assert(blob_json(a, t, m.config.digest) is Ok);
    assert(b.blobs.dom().contains(m.config.digest));
    assert(blob_json(b, t, m.config.digest) == blob_json(a, t, m.config.digest));
    let cfg = spec_entry_config(blob_json(a, t, m.config.digest)->Ok_0)->Ok_0;
    if cfg.url is None {
        assert(blob_json(a, t, m.layers[0].digest) is Ok);
        assert(b.blobs.dom().contains(m.layers[0].digest));
        assert(entry_content(b, t, m, cfg) == entry_content(a, t, m, cfg));
    }
    assert(first_trust_referrer(referrers_at(b.referrers, d.digest)) == first_trust_referrer(referrers_at(a.referrers, d.digest)));
    match first_trust_referrer(referrers_at(a.referrers, d.digest)) {
        Some(r) => {
            assert(blob_json(a, t, r.config.digest) is Ok);
            assert(b.blobs.dom().contains(r.config.digest));
            assert(entry_trust(b, t, d.digest) == entry_trust(a, t, d.digest));
        },
        None => {},
    }
}

proof fn lemma_unpack_entries_alike(
    a: ArtifactSetView,
    b: ArtifactSetView,
    t: Seq<(Seq<char>, Result<JsonView, Seq<char>>)>,
    n: nat,
)
    requires
        unpacks_alike(a, b),
        unpack_entries(a, t, n) is Ok,
    ensures
        unpack_entries(b, t, n) == unpack_entries(a, t, n),
    decreases n,
{
    if n > 0 && n <= a.index.manifests.len() {
        lemma_unpack_entries_alike(a, b, t, (n - 1) as nat);
        lemma_unpack_entry_alike(a, b, t, a.index.manifests[n - 1]);
    }
}

/// Attaching cosign verification material leaves what unpacks unchanged:
/// artifacts that unpack into a catalog unpack into the same catalog once
/// a signature and a public key are attached, with the same JSON read for
/// each blob and annotation.
pub proof fn law_unpack_after_cosign(
    a: ArtifactSetView,
    subject_digest: Seq<char>,
    identity: Seq<char>,
    payload_digest: Seq<char>,
    signature: Seq<u8>,
    public_key: Seq<u8>,
    blob_json_table: Seq<(Seq<char>, Result<JsonView, Seq<char>>)>,
    annotation_table: Seq<(Seq<char>, Result<JsonView, Seq<char>>)>,
)
    requires
        spec_attach_cosign(a, subject_digest, identity, payload_digest, signature, public_key) is Ok,
        spec_unpack_catalog(a, blob_json_table, annotation_table) is Ok,
    ensures
        spec_unpack_catalog(
            spec_attach_cosign(a, subject_digest, identity, payload_digest, signature, public_key)->Ok_0,
            blob_json_table,
            annotation_table,
        ) == spec_unpack_catalog(a, blob_json_table, annotation_table),
{
    let b = spec_attach_cosign(a, subject_digest, identity, payload_digest, signature, public_key)->Ok_0;
    lemma_cosign_types_not_trust();
    let k = subject_digest;
    let i = first_with_digest(a.index.manifests, k)->Some_0;
    let subject = a.index.manifests[i];
    let sc = json_bytes(signature_config_json(identity, payload_digest));
    let pc = json_bytes(public_key_config_json(identity, payload_digest));
    let sm = cosign_manifest(
        subject,
        COSIGN_SIGNATURE_ARTIFACT_TYPE@,
        bytes_descriptor(sc, COSIGN_SIGNATURE_CONFIG_MEDIA_TYPE@, None, no_annotations()),
        bytes_descriptor(signature, COSIGN_SIGNATURE_LAYER_MEDIA_TYPE@, None, no_annotations()),
        cosign_annotations(identity, payload_digest, "cosign-signature"@),
    );
    let pm = cosign_manifest(
        subject,
        COSIGN_PUBLIC_KEY_ARTIFACT_TYPE@,
        bytes_descriptor(pc, COSIGN_PUBLIC_KEY_CONFIG_MEDIA_TYPE@, None, no_annotations()),
        bytes_descriptor(public_key, COSIGN_PUBLIC_KEY_LAYER_MEDIA_TYPE@, None, no_annotations()),
        cosign_annotations(identity, payload_digest, "cosign-public-key"@),
    );
    assert(b.referrers == a.referrers.insert(k, referrers_at(a.referrers, k).push(sm).push(pm)));
    assert(!is_trust_referrer(sm) && !is_trust_referrer(pm));
    lemma_first_trust_push_other(referrers_at(a.referrers, k), sm);
    lemma_first_trust_push_other(referrers_at(a.referrers, k).push(sm), pm);
    assert forall|d: Seq<char>| #[trigger] first_trust_referrer(referrers_at(b.referrers, d)) == first_trust_referrer(
        referrers_at(a.referrers, d),
    ) by {
        if d != k {
            assert(referrers_at(b.referrers, d) == referrers_at(a.referrers, d));
        }
    }
    assert(unpacks_alike(a, b));
    lemma_unpack_entries_alike(a, b, blob_json_table, a.index.manifests.len());
}

// ---------------------------------------------------------------------
// What packing holds, and nothing more.

/// A blob packing writes for the `i`-th entry: its configuration, its data,
/// or its trust manifest.
pub open spec fn packed_blob_of(e: EntryView, d: Seq<char>) -> bool {
    ||| d == config_descriptor(e).digest
    ||| (e.url is None && e.data is Some && d == entry_layers(e)->Some_0[0].digest)
    ||| (e.trust_manifest is Some && d == trust_config_descriptor(e.trust_manifest->Some_0).digest)
}

/// Packing holds, after the first `n` entries, only those entries'
/// manifests.
pub open spec fn only_manifests(es: Seq<EntryView>, n: nat, m: Map<Seq<char>, ImageManifestView>) -> bool {
    forall|d: Seq<char>|
        #[trigger] m.dom().contains(d) ==> exists|i: int| 0 <= i < n && manifest_descriptor_of(#[trigger] es[i]).digest == d
}

/// Packing holds, after the first `n` entries, only non-empty lists of
/// their trust manifest referrers.
pub open spec fn only_referrers(es: Seq<EntryView>, n: nat, r: Map<Seq<char>, Seq<ImageManifestView>>) -> bool {
    forall|k: Seq<char>|
        #[trigger] r.dom().contains(k) ==> r[k].len() > 0 && forall|j: int|
            0 <= j < r[k].len() ==> exists|i: int|
                0 <= i < n && #[trigger] r[k][j] == referrer_of(#[trigger] es[i]) && es[i].trust_manifest is Some
                    && manifest_descriptor_of(es[i]).digest == k
}

/// Packing holds, after the first `n` entries, only their blobs.
pub open spec fn only_blobs(es: Seq<EntryView>, n: nat, b: Map<Seq<char>, Seq<u8>>) -> bool {
    forall|d: Seq<char>| #[trigger] b.dom().contains(d) ==> exists|i: int| 0 <= i < n && packed_blob_of(#[trigger] es[i], d)
}

/// Packing holds, after the first `n` entries, only what those entries
/// bring.
pub open spec fn pack_state_only(es: Seq<EntryView>, n: nat, st: PackState) -> bool {
    &&& only_manifests(es, n, st.manifests)
    &&& only_referrers(es, n, st.referrers)
    &&& only_blobs(es, n, st.blobs)
}

proof fn lemma_only_manifests_step(es: Seq<EntryView>, n: nat, m: Map<Seq<char>, ImageManifestView>, v: ImageManifestView)
    requires
        n < es.len(),
        only_manifests(es, n, m),
    ensures
        only_manifests(es, n + 1, m.insert(manifest_descriptor_of(es[n as int]).digest, v)),
{
    let md = manifest_descriptor_of(es[n as int]);
    let m2 = m.insert(md.digest, v);
    assert forall|d: Seq<char>| #[trigger] m2.dom().contains(d) implies exists|i: int|
        0 <= i < n + 1 && manifest_descriptor_of(#[trigger] es[i]).digest == d by {
        if d == md.digest {
            assert(manifest_descriptor_of(es[n as int]).digest == d);
        } else {
            let i = choose|i: int| 0 <= i < n && manifest_descriptor_of(#[trigger] es[i]).digest == d;
            assert(0 <= i < n + 1);
        }
    }
}

proof fn lemma_only_blobs_step(es: Seq<EntryView>, n: nat, b: Map<Seq<char>, Seq<u8>>, b2: Map<Seq<char>, Seq<u8>>)
    requires
        n < es.len(),
        only_blobs(es, n, b),
        forall|d: Seq<char>| #[trigger] b2.dom().contains(d) ==> b.dom().contains(d) || packed_blob_of(es[n as int], d),
    ensures
        only_blobs(es, n + 1, b2),
{
    assert forall|d: Seq<char>| #[trigger] b2.dom().contains(d) implies exists|i: int| 0 <= i < n + 1 && packed_blob_of(#[trigger] es[i], d) by {
        if b.dom().contains(d) {
            let i = choose|i: int| 0 <= i < n && packed_blob_of(#[trigger] es[i], d);
            assert(0 <= i < n + 1);
        } else {
            assert(packed_blob_of(es[n as int], d));
        }
    }
}

proof fn lemma_only_referrers_keep(es: Seq<EntryView>, n: nat, r: Map<Seq<char>, Seq<ImageManifestView>>)
    requires
        n < es.len(),
        only_referrers(es, n, r),
    ensures
        only_referrers(es, n + 1, r),
{
    assert forall|k: Seq<char>| #[trigger] r.dom().contains(k) implies r[k].len() > 0 && forall|j: int|
        0 <= j < r[k].len() ==> exists|i: int|
            0 <= i < n + 1 && #[trigger] r[k][j] == referrer_of(#[trigger] es[i]) && es[i].trust_manifest is Some
                && manifest_descriptor_of(es[i]).digest == k by {
        assert forall|j: int| 0 <= j < r[k].len() implies exists|i: int|
            0 <= i < n + 1 && #[trigger] r[k][j] == referrer_of(#[trigger] es[i]) && es[i].trust_manifest is Some
                && manifest_descriptor_of(es[i]).digest == k by {
            let i = choose|i: int|
                0 <= i < n && #[trigger] r[k][j] == referrer_of(#[trigger] es[i]) && es[i].trust_manifest is Some
                    && manifest_descriptor_of(es[i]).digest == k;
            assert(0 <= i < n + 1);
        }
    }
}

#[verifier::rlimit(50)]
proof fn lemma_only_referrers_push(es: Seq<EntryView>, n: nat, r: Map<Seq<char>, Seq<ImageManifestView>>)
    requires
        n < es.len(),
        es[n as int].trust_manifest is Some,
        only_referrers(es, n, r),
    ensures
        ({
            let k0 = manifest_descriptor_of(es[n as int]).digest;
            only_referrers(es, n + 1, r.insert(k0, referrers_at(r, k0).push(referrer_of(es[n as int]))))
        }),
{
    let k0 = manifest_descriptor_of(es[n as int]).digest;
    let old_list = referrers_at(r, k0);
    let x = referrer_of(es[n as int]);
    let r2 = r.insert(k0, old_list.push(x));
    lemma_only_referrers_keep(es, n, r);
    assert forall|k: Seq<char>| #[trigger] r2.dom().contains(k) implies r2[k].len() > 0 && forall|j: int|
        0 <= j < r2[k].len() ==> exists|i: int|
            0 <= i < n + 1 && #[trigger] r2[k][j] == referrer_of(#[trigger] es[i]) && es[i].trust_manifest is Some
                && manifest_descriptor_of(es[i]).digest == k by {
        if k == k0 {
            assert forall|j: int| 0 <= j < r2[k].len() implies exists|i: int|
                0 <= i < n + 1 && #[trigger] r2[k][j] == referrer_of(#[trigger] es[i]) && es[i].trust_manifest is Some
                    && manifest_descriptor_of(es[i]).digest == k by {
                if j == old_list.len() {
                    assert(r2[k][j] == x);
                    assert(0 <= n < n + 1);
                } else {
                    assert(r.dom().contains(k));
                    assert(r2[k][j] == r[k][j]);
                }
            }
        }
    }
}

#[verifier::rlimit(50)]
proof fn lemma_pack_only_step(es: Seq<EntryView>, n: nat, st: PackState)
    requires
        n < es.len(),
        has_one_content(es[n as int]),
        pack_state_only(es, n, st),
    ensures
        pack_entry(st, es[n as int]) is Ok,
        pack_state_only(es, n + 1, pack_entry(st, es[n as int])->Ok_0),
{
    let e = es[n as int];
    let md = manifest_descriptor_of(e);
    let st2 = pack_entry(st, e)->Ok_0;
    assert(st2.manifests == st.manifests.insert(md.digest, image_manifest_of(e)));
    lemma_only_manifests_step(es, n, st.manifests, image_manifest_of(e));
    assert forall|d: Seq<char>| #[trigger] st2.blobs.dom().contains(d) implies st.blobs.dom().contains(d) || packed_blob_of(e, d) by {}
    lemma_only_blobs_step(es, n, st.blobs, st2.blobs);
    if e.trust_manifest is Some {
        assert(st2.referrers == st.referrers.insert(md.digest, referrers_at(st.referrers, md.digest).push(referrer_of(e))));
        lemma_only_referrers_push(es, n, st.referrers);
    } else {
        assert(st2.referrers == st.referrers);
        lemma_only_referrers_keep(es, n, st.referrers);
    }
}

pub(crate) proof fn lemma_pack_only(es: Seq<EntryView>, n: nat)
    requires
        n <= es.len(),
        forall|i: int| 0 <= i < es.len() ==> has_one_content(#[trigger] es[i]),
    ensures
        pack_entries(es, n) is Ok,
        pack_state_only(es, n, pack_entries(es, n)->Ok_0),
    decreases n,
{
    if n > 0 {
        lemma_pack_only(es, (n - 1) as nat);
        lemma_pack_only_step(es, (n - 1) as nat, pack_entries(es, (n - 1) as nat)->Ok_0);
    } else {
        assert(pack_state_only(es, 0, crate::pack::empty_pack()));
    }
}

} // verus!
