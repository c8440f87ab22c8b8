//! Reading back an exported layout: the artifacts written as an OCI image
//! layout are assembled again from what the layout holds.
use vstd::prelude::*;
use vstd::string::*;
use crate::import::{
    ImportFailure, blobs_map, blobs_named, first_missing, import_entries, import_referrers, lists_digest,
    manifest_blobs, may_refer, pairs_map, referrers_map, spec_assemble_import,
};
use crate::keyed::{
    as_map, first_value, holds_key, lemma_as_map_at, lemma_text_lt_irreflexive, pairs_view, position_of,
    sorted_pairs,
};
use crate::layout::{
    layout_index, referrer_describer, referrer_descriptor, referrer_manifests, root_index_descriptor,
};
use crate::oci::{
    ArtifactSetView, DescriptorView, ImageManifestView, OciArtifactSet, OciImageManifest, artifact_set_wf,
    image_manifest_json, json_bytes, manifest_list_view, referrers_view, sha256_digest_text,
};
use crate::cosign::{first_with_digest, spec_attach_cosign};
use crate::pack::pack_entry;
use crate::model::{CatalogView, EntryView};
use crate::pack::{config_descriptor, entry_layers, has_one_content, pack_entries, referrers_at, spec_pack_catalog, trust_config_descriptor};
use crate::repack::{
    catalog_packable, entry_packable, image_manifest_of, lemma_pack_only, lemma_pack_state, manifest_descriptor_of,
    law_unpack_after_cosign, law_unpack_after_pack, packed_blob_of, reads_back_annotations, reads_back_blobs, referrer_of,
};
use crate::json::JsonView;
use crate::ordered::catalog_ordered;
use crate::unpack::{UnpackFailure, first_trust_referrer, spec_unpack_catalog};

verus! {

/// The entry manifests of a set, each under its digest, in the root
/// index's order.
pub open spec fn entry_pairs(a: OciArtifactSet) -> Seq<(Seq<char>, ImageManifestView)> {
    a.index@.manifests.map_values(|d: DescriptorView| (d.digest, a@.manifests[d.digest]))
}

/// The referrers of a set, each with the digest it is held under, digest
/// after digest and in order within each.
pub open spec fn referrer_pairs(rs: Seq<(String, Vec<OciImageManifest>)>) -> Seq<(Seq<char>, ImageManifestView)>
    decreases rs.len(),
{
    if rs.len() == 0 {
        Seq::empty()
    } else {
        referrer_pairs(rs.drop_last()) + manifest_list_view(rs.last().1@).map_values(
            |m: ImageManifestView| (rs.last().0@, m),
        )
    }
}

/// A set that an image layout holds faithfully: its maps in key order;
/// its manifests exactly those its root index lists; each list of
/// referrers not empty, held under an entry manifest's digest, and each
/// referrer naming that manifest as its subject; the root index's digest
/// and each referrer's digest told apart from the entry manifests' digests;
/// and its blobs exactly those its manifests and referrers name.
pub open spec fn layout_ready(a: OciArtifactSet, tag: Seq<char>) -> bool {
    let root = a.index@.manifests;
    let rd = root_index_descriptor(a, tag).digest;
    &&& artifact_set_wf(a)
    &&& forall|d: Seq<char>| #[trigger] a@.manifests.dom().contains(d) <==> lists_digest(root, d)
    &&& forall|i: int|
        0 <= i < a.referrers@.len() ==> (#[trigger] a.referrers@[i]).1@.len() > 0 && lists_digest(
            root,
            a.referrers@[i].0@,
        ) && forall|j: int|
            0 <= j < a.referrers@[i].1@.len() ==> ((#[trigger] a.referrers@[i].1@[j])@.subject matches Some(s)
                && s.digest == a.referrers@[i].0@)
    &&& !lists_digest(root, rd)
    &&& forall|j: int|
        0 <= j < referrer_manifests(a.referrers@).len() ==> referrer_descriptor(
            #[trigger] referrer_manifests(a.referrers@)[j],
        ).digest != rd && !lists_digest(root, referrer_descriptor(referrer_manifests(a.referrers@)[j]).digest)
    &&& forall|d: Seq<char>|
        #[trigger] a@.blobs.dom().contains(d) <==> blobs_named(entry_pairs(a) + referrer_pairs(a.referrers@)).contains(d)
}

/// What was read from the layout is what was written: each manifest
/// under the digest it was written under, and each blob.
pub open spec fn reads_back_layout(
    a: OciArtifactSet,
    manifests: Seq<(Seq<char>, ImageManifestView)>,
    blobs: Seq<(Seq<char>, Seq<u8>)>,
) -> bool {
    let root = a.index@.manifests;
    &&& forall|i: int| 0 <= i < root.len() ==> first_value(manifests, (#[trigger] root[i]).digest) == Some(a@.manifests[root[i].digest])
    &&& forall|j: int|
        0 <= j < referrer_manifests(a.referrers@).len() ==> first_value(
            manifests,
            referrer_descriptor(#[trigger] referrer_manifests(a.referrers@)[j]).digest,
        ) == Some(referrer_manifests(a.referrers@)[j])
    &&& forall|d: Seq<char>| #[trigger] a@.blobs.dom().contains(d) ==> first_value(blobs, d) == Some(a@.blobs[d])
}

// ---------------------------------------------------------------------
// The entry manifests.

proof fn lemma_import_entries_read(a: OciArtifactSet, manifests: Seq<(Seq<char>, ImageManifestView)>, n: nat)
    requires
        n <= a.index@.manifests.len(),
        forall|i: int|
            0 <= i < a.index@.manifests.len() ==> first_value(manifests, (#[trigger] a.index@.manifests[i]).digest)
                == Some(a@.manifests[a.index@.manifests[i].digest]),
    ensures
        import_entries(a.index@.manifests, manifests, n) == Ok::<_, Seq<char>>(entry_pairs(a).take(n as int)),
    decreases n,
{
    if n == 0 {
        assert(entry_pairs(a).take(0) =~= Seq::<(Seq<char>, ImageManifestView)>::empty());
    } else {
        lemma_import_entries_read(a, manifests, (n - 1) as nat);
        let d = a.index@.manifests[n - 1];
        assert(first_value(manifests, d.digest) == Some(a@.manifests[d.digest]));
        assert(entry_pairs(a).take(n as int) =~= entry_pairs(a).take(n - 1).push((d.digest, a@.manifests[d.digest])));
    }
}

proof fn lemma_pairs_map_of(ps: Seq<(Seq<char>, ImageManifestView)>, m: Map<Seq<char>, ImageManifestView>)
    requires
        forall|i: int| 0 <= i < ps.len() ==> (#[trigger] ps[i]).1 == m[ps[i].0],
    ensures
        pairs_map(ps) == Map::new(|k: Seq<char>| exists|i: int| 0 <= i < ps.len() && (#[trigger] ps[i]).0 == k, |k: Seq<char>| m[k]),
    decreases ps.len(),
{
    let target = Map::new(|k: Seq<char>| exists|i: int| 0 <= i < ps.len() && (#[trigger] ps[i]).0 == k, |k: Seq<char>| m[k]);
    if ps.len() == 0 {
        assert(pairs_map(ps) =~= target);
    } else {
        let prev = ps.drop_last();
        assert forall|i: int| 0 <= i < prev.len() implies (#[trigger] prev[i]).1 == m[prev[i].0] by {
            assert(prev[i] == ps[i]);
        }
        lemma_pairs_map_of(prev, m);
        assert forall|k: Seq<char>| #[trigger] pairs_map(ps).dom().contains(k) <==> target.dom().contains(k) by {
            if exists|i: int| 0 <= i < prev.len() && (#[trigger] prev[i]).0 == k {
                let i = choose|i: int| 0 <= i < prev.len() && (#[trigger] prev[i]).0 == k;
                assert(ps[i] == prev[i]);
            }
            if target.dom().contains(k) {
                let i = choose|i: int| 0 <= i < ps.len() && (#[trigger] ps[i]).0 == k;
                if i < ps.len() - 1 {
                    assert(prev[i] == ps[i]);
                }
            }
        }
        assert(pairs_map(ps) =~= target);
    }
}

// ---------------------------------------------------------------------
// The referrers.

proof fn lemma_referrer_pairs_manifests(rs: Seq<(String, Vec<OciImageManifest>)>)
    ensures
        referrer_pairs(rs).map_values(|p: (Seq<char>, ImageManifestView)| p.1) == referrer_manifests(rs),
    decreases rs.len(),
{
    if rs.len() > 0 {
        lemma_referrer_pairs_manifests(rs.drop_last());
        assert(referrer_pairs(rs).map_values(|p: (Seq<char>, ImageManifestView)| p.1) =~= referrer_pairs(
            rs.drop_last(),
        ).map_values(|p: (Seq<char>, ImageManifestView)| p.1) + manifest_list_view(rs.last().1@));
    } else {
        assert(referrer_pairs(rs).map_values(|p: (Seq<char>, ImageManifestView)| p.1) =~= referrer_manifests(rs));
    }
}

/// Each referrer refers to the entry manifest it is held under.
pub open spec fn refers_to_key(p: (Seq<char>, ImageManifestView), root: Seq<DescriptorView>) -> bool {
    &&& p.1.subject matches Some(s) && s.digest == p.0
    &&& lists_digest(root, p.0)
}

proof fn lemma_referrer_pairs_subjects(rs: Seq<(String, Vec<OciImageManifest>)>, root: Seq<DescriptorView>)
    requires
        forall|i: int|
            0 <= i < rs.len() ==> lists_digest(root, (#[trigger] rs[i]).0@) && forall|j: int|
                0 <= j < rs[i].1@.len() ==> ((#[trigger] rs[i].1@[j])@.subject matches Some(s) && s.digest == rs[i].0@),
    ensures
        forall|j: int| 0 <= j < referrer_pairs(rs).len() ==> refers_to_key(#[trigger] referrer_pairs(rs)[j], root),
    decreases rs.len(),
{
    if rs.len() > 0 {
        let prev = rs.drop_last();
        assert forall|i: int| 0 <= i < prev.len() implies lists_digest(root, (#[trigger] prev[i]).0@) && forall|j: int|
            0 <= j < prev[i].1@.len() ==> ((#[trigger] prev[i].1@[j])@.subject matches Some(s) && s.digest == prev[i].0@) by {
            assert(prev[i] == rs[i]);
        }
        lemma_referrer_pairs_subjects(prev, root);
        let i = rs.len() - 1;
        assert(rs.last() == rs[i]);
        let last = manifest_list_view(rs[i].1@).map_values(|m: ImageManifestView| (rs[i].0@, m));
        assert(referrer_pairs(rs) == referrer_pairs(prev) + last);
        assert forall|j: int| 0 <= j < referrer_pairs(rs).len() implies refers_to_key(#[trigger] referrer_pairs(rs)[j], root) by {
            let n = referrer_pairs(prev).len();
            if j < n {
                assert(referrer_pairs(rs)[j] == referrer_pairs(prev)[j]);
            } else {
                let k = j - n;
                assert(referrer_pairs(rs)[j] == last[k]);
                assert(manifest_list_view(rs[i].1@)[k] == rs[i].1@[k]@);
                assert(rs[i].1@[k]@.subject matches Some(s) && s.digest == rs[i].0@);
            }
        }
    }
}

proof fn lemma_import_skips_root_and_entries(
    a: OciArtifactSet,
    tag: Seq<char>,
    manifests: Seq<(Seq<char>, ImageManifestView)>,
    n: nat,
)
    requires
        n <= 1 + a.index@.manifests.len(),
    ensures
        import_referrers(
            layout_index(a, tag).manifests,
            root_index_descriptor(a, tag).digest,
            a.index@.manifests,
            manifests,
            n,
        ) == Ok::<_, Seq<char>>(Seq::<(Seq<char>, ImageManifestView)>::empty()),
    decreases n,
{
    let l = layout_index(a, tag).manifests;
    let root = a.index@.manifests;
    let rd = root_index_descriptor(a, tag).digest;
    if n > 0 {
        lemma_import_skips_root_and_entries(a, tag, manifests, (n - 1) as nat);
        if n == 1 {
            assert(l[0] == root_index_descriptor(a, tag));
        } else {
            assert(l[n - 1] == root[n - 2]);
            assert(lists_digest(root, root[n - 2].digest));
        }
        assert(!may_refer(l[n - 1], rd, root));
    }
}

#[verifier::rlimit(50)]
proof fn lemma_import_reads_referrers(
    a: OciArtifactSet,
    tag: Seq<char>,
    manifests: Seq<(Seq<char>, ImageManifestView)>,
    j: nat,
)
    requires
        layout_ready(a, tag),
        forall|q: int|
            0 <= q < referrer_manifests(a.referrers@).len() ==> first_value(
                manifests,
                referrer_descriptor(#[trigger] referrer_manifests(a.referrers@)[q]).digest,
            ) == Some(referrer_manifests(a.referrers@)[q]),
        j <= referrer_manifests(a.referrers@).len(),
    ensures
        import_referrers(
            layout_index(a, tag).manifests,
            root_index_descriptor(a, tag).digest,
            a.index@.manifests,
            manifests,
            1 + a.index@.manifests.len() + j,
        ) == Ok::<_, Seq<char>>(referrer_pairs(a.referrers@).take(j as int)),
    decreases j,
{
    let l = layout_index(a, tag).manifests;
    let root = a.index@.manifests;
    let rd = root_index_descriptor(a, tag).digest;
    let rm = referrer_manifests(a.referrers@);
    let rp = referrer_pairs(a.referrers@);
    lemma_referrer_pairs_manifests(a.referrers@);
    if j == 0 {
        lemma_import_skips_root_and_entries(a, tag, manifests, 1 + root.len());
        assert(rp.take(0) =~= Seq::<(Seq<char>, ImageManifestView)>::empty());
    } else {
        lemma_import_reads_referrers(a, tag, manifests, (j - 1) as nat);
        let q = j - 1;
        let n = 1 + root.len() + j;
        assert(l[n - 1] == referrer_descriptor(rm[q]));
        assert(rm[q] == rp[q].1);
        assert(may_refer(l[n - 1], rd, root));
        assert(first_value(manifests, l[n - 1].digest) == Some(rm[q]));
        lemma_referrer_pairs_subjects(a.referrers@, root);
        assert(refers_to_key(rp[q], root));
        assert(rp.take(j as int) =~= rp.take(q).push(rp[q]));
    }
}

proof fn lemma_referrers_map_append(p: Seq<(Seq<char>, ImageManifestView)>, k: Seq<char>, ms: Seq<ImageManifestView>)
    ensures
        referrers_map(p + ms.map_values(|m: ImageManifestView| (k, m))) == if ms.len() == 0 {
            referrers_map(p)
        } else {
            referrers_map(p).insert(k, referrers_at(referrers_map(p), k) + ms)
        },
    decreases ms.len(),
{
    let f = |m: ImageManifestView| (k, m);
    if ms.len() == 0 {
        assert(p + ms.map_values(f) =~= p);
    } else {
        let init = ms.drop_last();
        lemma_referrers_map_append(p, k, init);
        let x = p + ms.map_values(f);
        assert(x.drop_last() =~= p + init.map_values(f));
        assert(x.last() == (k, ms.last()));
        let prev = referrers_map(p + init.map_values(f));
        if init.len() == 0 {
            assert(referrers_at(referrers_map(p), k) + ms =~= referrers_at(referrers_map(p), k).push(ms.last()));
        } else {
            assert(referrers_at(prev, k) == referrers_at(referrers_map(p), k) + init);
            assert(referrers_at(referrers_map(p), k) + ms =~= (referrers_at(referrers_map(p), k) + init).push(ms.last()));
        }
        assert(referrers_map(x) =~= referrers_map(p).insert(k, referrers_at(referrers_map(p), k) + ms));
    }
}

proof fn lemma_as_map_push<W>(s: Seq<(Seq<char>, W)>, p: (Seq<char>, W))
    requires
        sorted_pairs(s.push(p)),
    ensures
        sorted_pairs(s),
        as_map(s.push(p)) == as_map(s).insert(p.0, p.1),
        forall|k: Seq<char>| #[trigger] as_map(s).dom().contains(k) ==> k != p.0,
{
    let t = s.push(p);
    assert forall|i: int, j: int| 0 <= i < j < s.len() implies crate::keyed::text_lt(#[trigger] s[i].0, #[trigger] s[j].0) by {
        assert(t[i] == s[i] && t[j] == s[j]);
    }
    assert forall|k: Seq<char>| #[trigger] as_map(s).dom().contains(k) implies k != p.0 by {
        let i = position_of(s, k);
        assert(t[i] == s[i]);
        assert(t[s.len() as int] == p);
        assert(crate::keyed::text_lt(t[i].0, t[s.len() as int].0));
        lemma_text_lt_irreflexive(k);
    }
    let target = as_map(s).insert(p.0, p.1);
    assert forall|k: Seq<char>| #[trigger] as_map(t).dom().contains(k) <==> target.dom().contains(k) by {
        if holds_key(t, k) {
            let i = position_of(t, k);
            if i < s.len() {
                assert(s[i] == t[i]);
            }
        }
        if holds_key(s, k) {
            let i = position_of(s, k);
            assert(t[i] == s[i]);
        }
        if k == p.0 {
            assert(t[s.len() as int] == p);
        }
    }
    assert forall|k: Seq<char>| #[trigger] as_map(t).dom().contains(k) implies as_map(t)[k] == target[k] by {
        if k == p.0 {
            assert(t[s.len() as int] == p);
            lemma_as_map_at(t, s.len() as int);
        } else {
            let i = position_of(t, k);
            lemma_as_map_at(t, i);
            assert(i < s.len());
            assert(s[i] == t[i]);
            lemma_as_map_at(s, i);
        }
    }
    assert(as_map(t) =~= target);
}

proof fn lemma_referrers_map_of_pairs(rs: Seq<(String, Vec<OciImageManifest>)>)
    requires
        sorted_pairs(pairs_view(rs)),
        forall|i: int| 0 <= i < rs.len() ==> (#[trigger] rs[i]).1@.len() > 0,
    ensures
        referrers_map(referrer_pairs(rs)) == referrers_view(rs),
    decreases rs.len(),
{
    if rs.len() == 0 {
        crate::keyed::lemma_as_map_empty::<Seq<OciImageManifest>>();
        assert(pairs_view(rs) =~= Seq::<(Seq<char>, Seq<OciImageManifest>)>::empty());
        assert(referrers_view(rs) =~= Map::<Seq<char>, Seq<ImageManifestView>>::empty());
        assert(referrers_map(referrer_pairs(rs)) =~= Map::<Seq<char>, Seq<ImageManifestView>>::empty());
    } else {
        let prev = rs.drop_last();
        let last = rs.last();
        assert(pairs_view(rs) =~= pairs_view(prev).push((last.0@, last.1@)));
        lemma_as_map_push(pairs_view(prev), (last.0@, last.1@));
        assert forall|i: int| 0 <= i < prev.len() implies (#[trigger] prev[i]).1@.len() > 0 by {
            assert(prev[i] == rs[i]);
        }
        lemma_referrers_map_of_pairs(prev);
        let ms = manifest_list_view(last.1@);
        assert(last == rs[rs.len() - 1]);
        assert(ms.len() > 0);
        lemma_referrers_map_append(referrer_pairs(prev), last.0@, ms);
        let pm = referrers_map(referrer_pairs(prev));
        assert(!pm.dom().contains(last.0@));
        assert(referrers_at(pm, last.0@) + ms =~= ms);
        assert(referrers_view(rs) =~= referrers_view(prev).insert(last.0@, ms));
    }
}

// ---------------------------------------------------------------------
// The blobs.

proof fn lemma_nothing_missing(ds: Seq<Seq<char>>, t: Seq<(Seq<char>, Seq<u8>)>)
    requires
        forall|i: int| 0 <= i < ds.len() ==> first_value(t, #[trigger] ds[i]) is Some,
    ensures
        first_missing(ds, t) is None,
    decreases ds.len(),
{
    if ds.len() > 0 {
        let init = ds.drop_last();
        assert forall|i: int| 0 <= i < init.len() implies first_value(t, #[trigger] init[i]) is Some by {
            assert(init[i] == ds[i]);
        }
        lemma_nothing_missing(init, t);
        assert(ds.last() == ds[ds.len() - 1]);
    }
}

/// Importing an exported layout gives the artifacts back: the layout's
/// index, the root index it lists under the tag, the manifests and the
/// blobs read back as written assemble into the artifacts that were
/// exported, when their referrers refer to the manifests they are held
/// under, their manifests are those their root index lists, their blobs
/// are those the manifests name, and the root index's and the referrers'
/// digests differ from the entry manifests'.
#[verifier::rlimit(100)]
pub proof fn law_import_after_export(
    a: OciArtifactSet,
    tag: Seq<char>,
    manifests: Seq<(Seq<char>, ImageManifestView)>,
    blobs: Seq<(Seq<char>, Seq<u8>)>,
)
    requires
        layout_ready(a, tag),
        reads_back_layout(a, manifests, blobs),
    ensures
        spec_assemble_import(
            layout_index(a, tag),
            root_index_descriptor(a, tag).digest,
            a.index@,
            manifests,
            blobs,
        ) == Ok::<_, ImportFailure>(a@),
{
    let root = a.index@.manifests;
    let l = layout_index(a, tag);
    let rd = root_index_descriptor(a, tag).digest;
    lemma_import_entries_read(a, manifests, root.len());
    let es = entry_pairs(a);
    assert(es.take(root.len() as int) =~= es);
    let rm = referrer_manifests(a.referrers@);
    lemma_referrer_pairs_manifests(a.referrers@);
    let rp = referrer_pairs(a.referrers@);
    assert(l.manifests.len() == 1 + root.len() + rm.len());
    lemma_import_reads_referrers(a, tag, manifests, rm.len());
    assert(rp.len() == rm.len());
    assert(rp.take(rm.len() as int) =~= rp);
    // The manifests.
    assert forall|i: int| 0 <= i < es.len() implies (#[trigger] es[i]).1 == a@.manifests[es[i].0] by {}
    lemma_pairs_map_of(es, a@.manifests);
    assert forall|k: Seq<char>| #[trigger] pairs_map(es).dom().contains(k) <==> a@.manifests.dom().contains(k) by {
        if lists_digest(root, k) {
            let i = choose|i: int| 0 <= i < root.len() && (#[trigger] root[i]).digest == k;
            assert(es[i].0 == k);
        }
        if exists|i: int| 0 <= i < es.len() && (#[trigger] es[i]).0 == k {
            let i = choose|i: int| 0 <= i < es.len() && (#[trigger] es[i]).0 == k;
            assert(root[i].digest == k);
        }
    }
    assert(pairs_map(es) =~= a@.manifests);
    // The referrers.
    assert forall|i: int| 0 <= i < a.referrers@.len() implies (#[trigger] a.referrers@[i]).1@.len() > 0 by {}
    lemma_referrers_map_of_pairs(a.referrers@);
    // The blobs.
    let ds = blobs_named(es + rp);
    assert forall|i: int| 0 <= i < ds.len() implies first_value(blobs, #[trigger] ds[i]) is Some by {
        assert(ds.contains(ds[i]));
        assert(a@.blobs.dom().contains(ds[i]));
    }
    lemma_nothing_missing(ds, blobs);
    assert forall|d: Seq<char>| #[trigger] blobs_map(ds, blobs).dom().contains(d) <==> a@.blobs.dom().contains(d) by {}
    assert forall|d: Seq<char>| #[trigger] blobs_map(ds, blobs).dom().contains(d) implies blobs_map(ds, blobs)[d] == a@.blobs[d] by {}
    assert(blobs_map(ds, blobs) =~= a@.blobs);
}

// ---------------------------------------------------------------------
// The same conditions, over the view of the artifacts.

/// A referrer held under `k` refers to the entry manifest `k` names.
pub open spec fn names_key(index: Seq<DescriptorView>, k: Seq<char>, m: ImageManifestView) -> bool {
    &&& m.subject matches Some(s) && s.digest == k
    &&& lists_digest(index, k)
}

/// Some manifest the artifacts keep names the blob: an entry manifest of
/// the root index, or a referrer.
pub open spec fn blob_is_named(v: ArtifactSetView, d: Seq<char>) -> bool {
    ||| exists|i: int|
        0 <= i < v.index.manifests.len() && manifest_blobs(v.manifests[(#[trigger] v.index.manifests[i]).digest]).contains(d)
    ||| exists|k: Seq<char>, j: int|
        v.referrers.dom().contains(k) && 0 <= j < v.referrers[k].len() && manifest_blobs(#[trigger] v.referrers[k][j]).contains(d)
}

/// The digests an image layout must tell apart: that of the root index's
/// descriptor, `rd`, is no entry manifest's, and each referrer's is
/// neither `rd` nor an entry manifest's.
pub open spec fn digests_apart(v: ArtifactSetView, rd: Seq<char>) -> bool {
    let index = v.index.manifests;
    &&& !lists_digest(index, rd)
    &&& forall|k: Seq<char>, j: int|
        v.referrers.dom().contains(k) && 0 <= j < v.referrers[k].len() ==> referrer_descriptor(
            #[trigger] v.referrers[k][j],
        ).digest != rd && !lists_digest(index, referrer_descriptor(v.referrers[k][j]).digest)
}

/// `layout_ready`, said of the view of artifacts, given the digest of
/// their root index's descriptor.
pub open spec fn view_layout_ready(v: ArtifactSetView, rd: Seq<char>) -> bool {
    let index = v.index.manifests;
    &&& forall|d: Seq<char>| #[trigger] v.manifests.dom().contains(d) <==> lists_digest(index, d)
    &&& forall|k: Seq<char>|
        #[trigger] v.referrers.dom().contains(k) ==> v.referrers[k].len() > 0 && forall|j: int|
            0 <= j < v.referrers[k].len() ==> names_key(index, k, #[trigger] v.referrers[k][j])
    &&& digests_apart(v, rd)
    &&& forall|d: Seq<char>| #[trigger] v.blobs.dom().contains(d) <==> blob_is_named(v, d)
}

proof fn lemma_referrer_pairs_all(
    rs: Seq<(String, Vec<OciImageManifest>)>,
    p: spec_fn(Seq<char>, ImageManifestView) -> bool,
)
    requires
        forall|i: int, j: int| 0 <= i < rs.len() && 0 <= j < rs[i].1@.len() ==> #[trigger] p(rs[i].0@, rs[i].1@[j]@),
    ensures
        forall|q: int| 0 <= q < referrer_pairs(rs).len() ==> p(referrer_pairs(rs)[q].0, #[trigger] referrer_pairs(rs)[q].1),
    decreases rs.len(),
{
    if rs.len() > 0 {
        let prev = rs.drop_last();
        assert forall|i: int, j: int| 0 <= i < prev.len() && 0 <= j < prev[i].1@.len() implies #[trigger] p(prev[i].0@, prev[i].1@[j]@) by {
            assert(prev[i] == rs[i]);
            assert(p(rs[i].0@, rs[i].1@[j]@));
        }
        lemma_referrer_pairs_all(prev, p);
        let i = rs.len() - 1;
        assert(rs.last() == rs[i]);
        let last = manifest_list_view(rs[i].1@).map_values(|m: ImageManifestView| (rs[i].0@, m));
        assert(referrer_pairs(rs) == referrer_pairs(prev) + last);
        assert forall|q: int| 0 <= q < referrer_pairs(rs).len() implies p(referrer_pairs(rs)[q].0, #[trigger] referrer_pairs(rs)[q].1) by {
            let n = referrer_pairs(prev).len();
            if q < n {
                assert(referrer_pairs(rs)[q] == referrer_pairs(prev)[q]);
            } else {
                let k = q - n;
                assert(referrer_pairs(rs)[q] == last[k]);
                assert(manifest_list_view(rs[i].1@)[k] == rs[i].1@[k]@);
                assert(p(rs[i].0@, rs[i].1@[k]@));
            }
        }
    }
}

proof fn lemma_referrer_pairs_has(rs: Seq<(String, Vec<OciImageManifest>)>, i: int, j: int)
    requires
        0 <= i < rs.len(),
        0 <= j < rs[i].1@.len(),
    ensures
        exists|q: int| 0 <= q < referrer_pairs(rs).len() && #[trigger] referrer_pairs(rs)[q] == (rs[i].0@, rs[i].1@[j]@),
    decreases rs.len(),
{
    let prev = rs.drop_last();
    let n = referrer_pairs(prev).len();
    let last = manifest_list_view(rs.last().1@).map_values(|m: ImageManifestView| (rs.last().0@, m));
    assert(referrer_pairs(rs) == referrer_pairs(prev) + last);
    if i == rs.len() - 1 {
        assert(rs.last() == rs[i]);
        assert(manifest_list_view(rs[i].1@)[j] == rs[i].1@[j]@);
        assert(referrer_pairs(rs)[n + j] == (rs[i].0@, rs[i].1@[j]@));
    } else {
        assert(prev[i] == rs[i]);
        lemma_referrer_pairs_has(prev, i, j);
        let q = choose|q: int| 0 <= q < referrer_pairs(prev).len() && #[trigger] referrer_pairs(prev)[q] == (prev[i].0@, prev[i].1@[j]@);
        assert(referrer_pairs(rs)[q] == referrer_pairs(prev)[q]);
    }
}

proof fn lemma_blobs_named_contains(ps: Seq<(Seq<char>, ImageManifestView)>, d: Seq<char>)
    ensures
        blobs_named(ps).contains(d) <==> exists|q: int| 0 <= q < ps.len() && manifest_blobs((#[trigger] ps[q]).1).contains(d),
    decreases ps.len(),
{
    if ps.len() > 0 {
        let init = ps.drop_last();
        lemma_blobs_named_contains(init, d);
        let a = blobs_named(init);
        let b = manifest_blobs(ps.last().1);
        assert(blobs_named(ps) == a + b);
        if a.contains(d) {
            let x = choose|x: int| 0 <= x < a.len() && a[x] == d;
            assert((a + b)[x] == d);
            let q = choose|q: int| 0 <= q < init.len() && manifest_blobs((#[trigger] init[q]).1).contains(d);
            assert(ps[q] == init[q]);
        }
        if b.contains(d) {
            let x = choose|x: int| 0 <= x < b.len() && b[x] == d;
            assert((a + b)[a.len() + x] == d);
            assert(ps[ps.len() - 1] == ps.last());
        }
        if (a + b).contains(d) {
            let x = choose|x: int| 0 <= x < (a + b).len() && (a + b)[x] == d;
            if x < a.len() {
                assert(a[x] == d);
            } else {
                assert(b[x - a.len()] == d);
            }
        }
        if exists|q: int| 0 <= q < ps.len() && manifest_blobs((#[trigger] ps[q]).1).contains(d) {
            let q = choose|q: int| 0 <= q < ps.len() && manifest_blobs((#[trigger] ps[q]).1).contains(d);
            if q < ps.len() - 1 {
                assert(init[q] == ps[q]);
                let x = choose|x: int| 0 <= x < a.len() && a[x] == d;
                assert((a + b)[x] == d);
            } else {
                assert(ps[q] == ps.last());
                let x = choose|x: int| 0 <= x < b.len() && b[x] == d;
                assert((a + b)[a.len() + x] == d);
            }
        }
    }
}

proof fn lemma_referrers_at_position(a: OciArtifactSet, i: int)
    requires
        artifact_set_wf(a),
        0 <= i < a.referrers@.len(),
    ensures
        a@.referrers.dom().contains(a.referrers@[i].0@),
        a@.referrers[a.referrers@[i].0@] == manifest_list_view(a.referrers@[i].1@),
{
    let pv = pairs_view(a.referrers@);
    assert(pv[i] == (a.referrers@[i].0@, a.referrers@[i].1@));
    lemma_as_map_at(pv, i);
}

#[verifier::rlimit(100)]
proof fn lemma_layout_ready_of_view(a: OciArtifactSet, tag: Seq<char>)
    requires
        artifact_set_wf(a),
        view_layout_ready(a@, root_index_descriptor(a, tag).digest),
    ensures
        layout_ready(a, tag),
{
    let v = a@;
    let rs = a.referrers@;
    let index = a.index@.manifests;
    let rd = root_index_descriptor(a, tag).digest;
    // Each list of referrers.
    assert forall|i: int| 0 <= i < rs.len() implies (#[trigger] rs[i]).1@.len() > 0 && lists_digest(index, rs[i].0@)
        && forall|j: int| 0 <= j < rs[i].1@.len() ==> ((#[trigger] rs[i].1@[j])@.subject matches Some(s) && s.digest == rs[i].0@) by {
        lemma_referrers_at_position(a, i);
        let k = rs[i].0@;
        assert(v.referrers[k].len() > 0);
        assert(manifest_list_view(rs[i].1@).len() == rs[i].1@.len());
        assert(names_key(index, k, v.referrers[k][0]));
        assert forall|j: int| 0 <= j < rs[i].1@.len() implies ((#[trigger] rs[i].1@[j])@.subject matches Some(s) && s.digest == rs[i].0@) by {
            assert(v.referrers[k][j] == rs[i].1@[j]@);
            assert(names_key(index, k, v.referrers[k][j]));
        }
    }
    // The referrers' digests.
    let p1 = |k: Seq<char>, m: ImageManifestView| referrer_descriptor(m).digest != rd && !lists_digest(index, referrer_descriptor(m).digest);
    assert forall|i: int, j: int| 0 <= i < rs.len() && 0 <= j < rs[i].1@.len() implies #[trigger] p1(rs[i].0@, rs[i].1@[j]@) by {
        lemma_referrers_at_position(a, i);
        assert(v.referrers[rs[i].0@][j] == rs[i].1@[j]@);
    }
    lemma_referrer_pairs_all(rs, p1);
    lemma_referrer_pairs_manifests(rs);
    let rp = referrer_pairs(rs);
    let rm = referrer_manifests(rs);
    assert forall|q: int| 0 <= q < rm.len() implies referrer_descriptor(#[trigger] rm[q]).digest != rd && !lists_digest(
        index,
        referrer_descriptor(rm[q]).digest,
    ) by {
        assert(rm[q] == rp[q].1);
        assert(p1(rp[q].0, rp[q].1));
    }
    // The blobs.
    let p2 = |k: Seq<char>, m: ImageManifestView| v.referrers.dom().contains(k) && v.referrers[k].contains(m);
    assert forall|i: int, j: int| 0 <= i < rs.len() && 0 <= j < rs[i].1@.len() implies #[trigger] p2(rs[i].0@, rs[i].1@[j]@) by {
        lemma_referrers_at_position(a, i);
        assert(v.referrers[rs[i].0@][j] == rs[i].1@[j]@);
    }
    lemma_referrer_pairs_all(rs, p2);
    let es = entry_pairs(a);
    let all = es + rp;
    assert forall|d: Seq<char>| #[trigger] v.blobs.dom().contains(d) <==> blobs_named(all).contains(d) by {
        lemma_blobs_named_contains(all, d);
        if blob_is_named(v, d) {
            if exists|i: int| 0 <= i < index.len() && manifest_blobs(v.manifests[(#[trigger] index[i]).digest]).contains(d) {
                let i = choose|i: int| 0 <= i < index.len() && manifest_blobs(v.manifests[(#[trigger] index[i]).digest]).contains(d);
                assert(all[i] == es[i]);
                assert(manifest_blobs(all[i].1).contains(d));
            } else {
                let (k, j) = choose|k: Seq<char>, j: int|
                    v.referrers.dom().contains(k) && 0 <= j < v.referrers[k].len() && manifest_blobs(#[trigger] v.referrers[k][j]).contains(d);
                let i = position_of(pairs_view(rs), k);
                assert(pairs_view(rs)[i] == (rs[i].0@, rs[i].1@));
                lemma_referrers_at_position(a, i);
                assert(v.referrers[k][j] == rs[i].1@[j]@);
                lemma_referrer_pairs_has(rs, i, j);
                let q = choose|q: int| 0 <= q < rp.len() && #[trigger] rp[q] == (rs[i].0@, rs[i].1@[j]@);
                assert(all[es.len() + q] == rp[q]);
                assert(manifest_blobs(all[es.len() + q].1).contains(d));
            }
        }
        if blobs_named(all).contains(d) {
            let q = choose|q: int| 0 <= q < all.len() && manifest_blobs((#[trigger] all[q]).1).contains(d);
            if q < es.len() {
                assert(all[q] == es[q]);
                assert(manifest_blobs(v.manifests[index[q].digest]).contains(d));
            } else {
                let r = q - es.len();
                assert(all[q] == rp[r]);
                assert(p2(rp[r].0, rp[r].1));
                let k = rp[r].0;
                let j = choose|j: int| 0 <= j < v.referrers[k].len() && v.referrers[k][j] == rp[r].1;
                assert(manifest_blobs(v.referrers[k][j]).contains(d));
            }
            assert(blob_is_named(v, d));
        }
    }
}


// ---------------------------------------------------------------------
// What packing gives an image layout.

proof fn lemma_first_trust_held(l: Seq<ImageManifestView>, x: ImageManifestView)
    requires
        first_trust_referrer(l) == Some(x),
    ensures
        exists|j: int| 0 <= j < l.len() && #[trigger] l[j] == x,
    decreases l.len(),
{
    let init = l.drop_last();
    if first_trust_referrer(init) is Some {
        lemma_first_trust_held(init, x);
        let j = choose|j: int| 0 <= j < init.len() && #[trigger] init[j] == x;
        assert(l[j] == init[j]);
    } else {
        assert(l[l.len() - 1] == x);
    }
}

proof fn lemma_blobs_of_entry(e: EntryView, d: Seq<char>)
    requires
        has_one_content(e),
    ensures
        manifest_blobs(image_manifest_of(e)).contains(d) <==> d == config_descriptor(e).digest || (e.url is None
            && e.data is Some && d == entry_layers(e)->Some_0[0].digest),
{
    let m = image_manifest_of(e);
    let b = manifest_blobs(m);
    assert(b[0] == config_descriptor(e).digest);
    if e.url is None {
        assert(b.len() == 2);
        assert(b[1] == entry_layers(e)->Some_0[0].digest);
    } else {
        assert(b.len() == 1);
    }
    if b.contains(d) {
        let x = choose|x: int| 0 <= x < b.len() && b[x] == d;
    }
}

proof fn lemma_blobs_of_referrer(e: EntryView, d: Seq<char>)
    requires
        e.trust_manifest is Some,
    ensures
        manifest_blobs(referrer_of(e)).contains(d) <==> d == trust_config_descriptor(e.trust_manifest->Some_0).digest,
{
    let b = manifest_blobs(referrer_of(e));
    assert(b.len() == 1);
    assert(b[0] == trust_config_descriptor(e.trust_manifest->Some_0).digest);
    if b.contains(d) {
        let x = choose|x: int| 0 <= x < b.len() && b[x] == d;
    }
}

/// The artifacts a packable catalog packs into are ready for an image
/// layout, given that the layout tells their digests apart: their
/// manifests are those the root index lists, each list of referrers is
/// not empty and refers to the manifest it is held under, and their blobs
/// are those their manifests and referrers name.
#[verifier::rlimit(100)]
pub proof fn law_packed_layout_ready(c: CatalogView, rd: Seq<char>)
    requires
        catalog_packable(c),
        digests_apart(spec_pack_catalog(c)->Ok_0, rd),
    ensures
        spec_pack_catalog(c) is Ok,
        view_layout_ready(spec_pack_catalog(c)->Ok_0, rd),
{
    let es = c.entries;
    let n = es.len();
    assert forall|i: int| 0 <= i < n implies has_one_content(#[trigger] es[i]) by {
        assert(entry_packable(es[i]));
    }
    lemma_pack_state(es, n);
    lemma_pack_only(es, n);
    crate::pack::law_pack_index_follows_entries(c);
    let st = pack_entries(es, n)->Ok_0;
    let v = spec_pack_catalog(c)->Ok_0;
    let index = v.index.manifests;
    assert(v.manifests == st.manifests && v.referrers == st.referrers && v.blobs == st.blobs);
    assert forall|i: int| 0 <= i < n implies #[trigger] index[i] == manifest_descriptor_of(es[i]) by {}
    // The manifests.
    assert forall|d: Seq<char>| #[trigger] v.manifests.dom().contains(d) <==> lists_digest(index, d) by {
        if v.manifests.dom().contains(d) {
            let i = choose|i: int| 0 <= i < n && manifest_descriptor_of(#[trigger] es[i]).digest == d;
            assert(index[i].digest == d);
        }
        if lists_digest(index, d) {
            let i = choose|i: int| 0 <= i < index.len() && (#[trigger] index[i]).digest == d;
            assert(index[i] == manifest_descriptor_of(es[i]));
        }
    }
    // The referrers.
    assert forall|k: Seq<char>| #[trigger] v.referrers.dom().contains(k) implies v.referrers[k].len() > 0 && forall|j: int|
        0 <= j < v.referrers[k].len() ==> names_key(index, k, #[trigger] v.referrers[k][j]) by {
        assert forall|j: int| 0 <= j < v.referrers[k].len() implies names_key(index, k, #[trigger] v.referrers[k][j]) by {
            let i = choose|i: int|
                0 <= i < n && #[trigger] v.referrers[k][j] == referrer_of(#[trigger] es[i]) && es[i].trust_manifest is Some
                    && manifest_descriptor_of(es[i]).digest == k;
            assert(index[i].digest == k);
        }
    }
    // The blobs.
    assert forall|d: Seq<char>| #[trigger] v.blobs.dom().contains(d) <==> blob_is_named(v, d) by {
        if v.blobs.dom().contains(d) {
            let i = choose|i: int| 0 <= i < n && packed_blob_of(#[trigger] es[i], d);
            let e = es[i];
            lemma_blobs_of_entry(e, d);
            if d == config_descriptor(e).digest || (e.url is None && e.data is Some && d == entry_layers(e)->Some_0[0].digest) {
                assert(v.manifests[index[i].digest] == image_manifest_of(e));
                assert(manifest_blobs(v.manifests[index[i].digest]).contains(d));
            } else {
                let k = manifest_descriptor_of(e).digest;
                assert(first_trust_referrer(v.referrers[k]) == Some(referrer_of(e)));
                lemma_first_trust_held(v.referrers[k], referrer_of(e));
                let j = choose|j: int| 0 <= j < v.referrers[k].len() && #[trigger] v.referrers[k][j] == referrer_of(e);
                lemma_blobs_of_referrer(e, d);
                assert(manifest_blobs(v.referrers[k][j]).contains(d));
            }
        }
        if blob_is_named(v, d) {
            if exists|i: int| 0 <= i < index.len() && manifest_blobs(v.manifests[(#[trigger] index[i]).digest]).contains(d) {
                let i = choose|i: int| 0 <= i < index.len() && manifest_blobs(v.manifests[(#[trigger] index[i]).digest]).contains(d);
                let e = es[i];
                assert(v.manifests[index[i].digest] == image_manifest_of(e));
                lemma_blobs_of_entry(e, d);
            } else {
                let (k, j) = choose|k: Seq<char>, j: int|
                    v.referrers.dom().contains(k) && 0 <= j < v.referrers[k].len() && manifest_blobs(#[trigger] v.referrers[k][j]).contains(d);
                let i = choose|i: int|
                    0 <= i < n && #[trigger] v.referrers[k][j] == referrer_of(#[trigger] es[i]) && es[i].trust_manifest is Some
                        && manifest_descriptor_of(es[i]).digest == k;
                lemma_blobs_of_referrer(es[i], d);
            }
        }
    }
}


/// A catalog survives packing, export as an image layout, import and
/// unpacking: when `a` holds the artifacts the catalog packs into, the
/// layout tells their digests apart, the layout's manifests and blobs are
/// read back as written, the catalog's maps are in key order, and each blob
/// and JSON annotation is read as the JSON value it was written from with
/// its objects' members in key order, importing the layout assembles `a`
/// again, and unpacking that gives back the catalog.
pub proof fn law_catalog_through_layout(
    c: CatalogView,
    a: OciArtifactSet,
    tag: Seq<char>,
    manifests: Seq<(Seq<char>, ImageManifestView)>,
    blobs: Seq<(Seq<char>, Seq<u8>)>,
    blob_json_table: Seq<(Seq<char>, Result<JsonView, Seq<char>>)>,
    annotation_table: Seq<(Seq<char>, Result<JsonView, Seq<char>>)>,
)
    requires
        catalog_packable(c),
        artifact_set_wf(a),
        spec_pack_catalog(c) == Ok::<_, Seq<char>>(a@),
        digests_apart(a@, root_index_descriptor(a, tag).digest),
        reads_back_layout(a, manifests, blobs),
        catalog_ordered(c),
        reads_back_blobs(c, blob_json_table),
        reads_back_annotations(c, annotation_table),
    ensures
        spec_assemble_import(
            layout_index(a, tag),
            root_index_descriptor(a, tag).digest,
            a.index@,
            manifests,
            blobs,
        ) == Ok::<_, ImportFailure>(a@),
        spec_unpack_catalog(a@, blob_json_table, annotation_table) == Ok::<_, UnpackFailure>(c),
{
    law_packed_layout_ready(c, root_index_descriptor(a, tag).digest);
    lemma_layout_ready_of_view(a, tag);
    law_import_after_export(a, tag, manifests, blobs);
    law_unpack_after_pack(c, blob_json_table, annotation_table);
}


// ---------------------------------------------------------------------
// Content addressing.

/// Each blob is held under the digest of its bytes, and each manifest
/// under the digest of its JSON bytes.
pub open spec fn content_addressed(blobs: Map<Seq<char>, Seq<u8>>, manifests: Map<Seq<char>, ImageManifestView>) -> bool {
    &&& forall|d: Seq<char>| #[trigger] blobs.dom().contains(d) ==> d == sha256_digest_text(blobs[d])
    &&& forall|d: Seq<char>|
        #[trigger] manifests.dom().contains(d) ==> d == sha256_digest_text(json_bytes(image_manifest_json(manifests[d])))
}

/// Every blob a manifest or a referrer names is held.
pub open spec fn blobs_held(v: ArtifactSetView) -> bool {
    &&& forall|d: Seq<char>, b: Seq<char>|
        #[trigger] v.manifests.dom().contains(d) && #[trigger] manifest_blobs(v.manifests[d]).contains(b) ==> v.blobs.dom().contains(b)
    &&& forall|k: Seq<char>, j: int, b: Seq<char>|
        v.referrers.dom().contains(k) && 0 <= j < v.referrers[k].len() && #[trigger] manifest_blobs(v.referrers[k][j]).contains(b)
            ==> v.blobs.dom().contains(b)
}

proof fn lemma_pack_content(es: Seq<EntryView>, n: nat)
    requires
        n <= es.len(),
        forall|i: int| 0 <= i < es.len() ==> has_one_content(#[trigger] es[i]),
    ensures
        pack_entries(es, n) is Ok,
        content_addressed(pack_entries(es, n)->Ok_0.blobs, pack_entries(es, n)->Ok_0.manifests),
        forall|d: Seq<char>| #[trigger] pack_entries(es, n)->Ok_0.manifests.dom().contains(d) ==> exists|j: int|
            0 <= j < n && manifest_descriptor_of(#[trigger] es[j]).digest == d && pack_entries(es, n)->Ok_0.manifests[d]
                == image_manifest_of(es[j]),
    decreases n,
{
    if n > 0 {
        lemma_pack_content(es, (n - 1) as nat);
        let st = pack_entries(es, (n - 1) as nat)->Ok_0;
        let e = es[n - 1];
        assert(has_one_content(e));
        let st2 = pack_entry(st, e)->Ok_0;
        assert forall|d: Seq<char>| #[trigger] st2.blobs.dom().contains(d) implies d == sha256_digest_text(st2.blobs[d]) by {
            if !st.blobs.dom().contains(d) || d == config_descriptor(e).digest || (e.url is None && e.data is Some
                && d == entry_layers(e)->Some_0[0].digest) || (e.trust_manifest is Some && d == trust_config_descriptor(
                e.trust_manifest->Some_0,
            ).digest) {
            }
        }
        assert forall|d: Seq<char>| #[trigger] st2.manifests.dom().contains(d) implies d == sha256_digest_text(
            json_bytes(image_manifest_json(st2.manifests[d])),
        ) by {
            if d == manifest_descriptor_of(e).digest {
                assert(st2.manifests[d] == image_manifest_of(e));
            } else {
                assert(st2.manifests[d] == st.manifests[d]);
            }
        }
        assert forall|d: Seq<char>| #[trigger] st2.manifests.dom().contains(d) implies exists|j: int|
            0 <= j < n && manifest_descriptor_of(#[trigger] es[j]).digest == d && st2.manifests[d] == image_manifest_of(es[j]) by {
            if d == manifest_descriptor_of(e).digest {
                assert(st2.manifests[d] == image_manifest_of(e));
                assert(manifest_descriptor_of(es[n - 1]).digest == d);
            } else {
                let j = choose|j: int|
                    0 <= j < n - 1 && manifest_descriptor_of(#[trigger] es[j]).digest == d && st.manifests[d] == image_manifest_of(es[j]);
                assert(st2.manifests[d] == st.manifests[d]);
            }
        }
    }
}

proof fn lemma_packed_manifest_blobs_held(es: Seq<EntryView>, d: Seq<char>, b: Seq<char>)
    requires
        forall|i: int| 0 <= i < es.len() ==> has_one_content(#[trigger] es[i]),
        pack_entries(es, es.len()) is Ok,
        pack_entries(es, es.len())->Ok_0.manifests.dom().contains(d),
        manifest_blobs(pack_entries(es, es.len())->Ok_0.manifests[d]).contains(b),
    ensures
        pack_entries(es, es.len())->Ok_0.blobs.dom().contains(b),
{
    let n = es.len();
    lemma_pack_content(es, n);
    let st = pack_entries(es, n)->Ok_0;
    let i = choose|i: int| 0 <= i < n && manifest_descriptor_of(#[trigger] es[i]).digest == d && st.manifests[d] == image_manifest_of(es[i]);
    assert(has_one_content(es[i]));
    lemma_blobs_of_entry(es[i], b);
    assert(packed_blob_of(es[i], b));
    lemma_pack_blobs_of(es, n, i);
}

proof fn lemma_packed_referrer_blobs_held(es: Seq<EntryView>, k: Seq<char>, j: int, b: Seq<char>)
    requires
        forall|i: int| 0 <= i < es.len() ==> has_one_content(#[trigger] es[i]),
        pack_entries(es, es.len()) is Ok,
        pack_entries(es, es.len())->Ok_0.referrers.dom().contains(k),
        0 <= j < pack_entries(es, es.len())->Ok_0.referrers[k].len(),
        manifest_blobs(pack_entries(es, es.len())->Ok_0.referrers[k][j]).contains(b),
    ensures
        pack_entries(es, es.len())->Ok_0.blobs.dom().contains(b),
{
    let n = es.len();
    lemma_pack_only(es, n);
    let st = pack_entries(es, n)->Ok_0;
    let i = choose|i: int|
        0 <= i < n && #[trigger] st.referrers[k][j] == referrer_of(#[trigger] es[i]) && es[i].trust_manifest is Some
            && manifest_descriptor_of(es[i]).digest == k;
    lemma_blobs_of_referrer(es[i], b);
    assert(packed_blob_of(es[i], b));
    lemma_pack_blobs_of(es, n, i);
}

/// Packing stores content by address: each blob under the digest of its
/// bytes, each manifest under the digest of its JSON bytes, and every blob
/// that a manifest or a referrer names is among the blobs.
pub proof fn law_packed_content_addressed(c: CatalogView)
    requires
        forall|i: int| 0 <= i < c.entries.len() ==> has_one_content(#[trigger] c.entries[i]),
    ensures
        spec_pack_catalog(c) is Ok,
        content_addressed(spec_pack_catalog(c)->Ok_0.blobs, spec_pack_catalog(c)->Ok_0.manifests),
        blobs_held(spec_pack_catalog(c)->Ok_0),
{
    let es = c.entries;
    lemma_pack_content(es, es.len());
    let st = pack_entries(es, es.len())->Ok_0;
    let v = spec_pack_catalog(c)->Ok_0;
    assert(v.manifests == st.manifests && v.referrers == st.referrers && v.blobs == st.blobs);
    assert forall|d: Seq<char>, b: Seq<char>|
        #[trigger] v.manifests.dom().contains(d) && #[trigger] manifest_blobs(v.manifests[d]).contains(b) implies v.blobs.dom().contains(b) by {
        lemma_packed_manifest_blobs_held(es, d, b);
    }
    assert forall|k: Seq<char>, j: int, b: Seq<char>|
        v.referrers.dom().contains(k) && 0 <= j < v.referrers[k].len() && #[trigger] manifest_blobs(v.referrers[k][j]).contains(b)
            implies v.blobs.dom().contains(b) by {
        lemma_packed_referrer_blobs_held(es, k, j, b);
    }
}

/// The blobs packing writes for an entry stay among the blobs of every
/// later state.
proof fn lemma_pack_blobs_of(es: Seq<EntryView>, n: nat, i: int)
    requires
        n <= es.len(),
        0 <= i < n,
        forall|i: int| 0 <= i < es.len() ==> has_one_content(#[trigger] es[i]),
    ensures
        pack_entries(es, n) is Ok,
        forall|d: Seq<char>| #[trigger] packed_blob_of(es[i], d) ==> pack_entries(es, n)->Ok_0.blobs.dom().contains(d),
    decreases n,
{
    lemma_pack_content(es, n);
    if i < n - 1 {
        lemma_pack_blobs_of(es, (n - 1) as nat, i);
    }
}

/// Attaching cosign material keeps artifacts stored by address: the new
/// configurations and layers are stored under the digests of their bytes,
/// and every blob the new referrers name is among the blobs.
pub proof fn law_cosign_keeps_content_addressed(
    a: ArtifactSetView,
    subject_digest: Seq<char>,
    identity: Seq<char>,
    payload_digest: Seq<char>,
    signature: Seq<u8>,
    public_key: Seq<u8>,
)
    requires
        content_addressed(a.blobs, a.manifests),
        blobs_held(a),
        spec_attach_cosign(a, subject_digest, identity, payload_digest, signature, public_key) is Ok,
    ensures
        ({
            let v = spec_attach_cosign(a, subject_digest, identity, payload_digest, signature, public_key)->Ok_0;
            content_addressed(v.blobs, v.manifests) && blobs_held(v)
        }),
{
    let v = spec_attach_cosign(a, subject_digest, identity, payload_digest, signature, public_key)->Ok_0;
    assert forall|d: Seq<char>| #[trigger] v.blobs.dom().contains(d) implies d == sha256_digest_text(v.blobs[d]) by {}
    let old_list = referrers_at(a.referrers, subject_digest);
    assert forall|k: Seq<char>, j: int, b: Seq<char>|
        v.referrers.dom().contains(k) && 0 <= j < v.referrers[k].len() && #[trigger] manifest_blobs(v.referrers[k][j]).contains(b)
            implies v.blobs.dom().contains(b) by {
        let m = v.referrers[k][j];
        let mb = manifest_blobs(m);
        let x = choose|x: int| 0 <= x < mb.len() && mb[x] == b;
        if k == subject_digest && j >= old_list.len() {
            assert(mb.len() == 2);
        } else {
            assert(a.referrers.dom().contains(k));
            assert(m == a.referrers[k][j]);
        }
    }
}


// ---------------------------------------------------------------------
// Cosign material in an image layout.

proof fn lemma_first_with_digest_found(ds: Seq<DescriptorView>, digest: Seq<char>)
    requires
        first_with_digest(ds, digest) is Some,
    ensures
        0 <= first_with_digest(ds, digest)->Some_0 < ds.len(),
        ds[first_with_digest(ds, digest)->Some_0].digest == digest,
    decreases ds.len(),
{
    let init = ds.drop_last();
    if first_with_digest(init, digest) is Some {
        lemma_first_with_digest_found(init, digest);
        assert(ds[first_with_digest(init, digest)->Some_0] == init[first_with_digest(init, digest)->Some_0]);
    }
}

/// Attaching cosign material keeps artifacts ready for an image layout,
/// given that the layout tells the new referrers' digests apart: the new
/// referrers refer to the manifest they are held under, and their
/// configurations and layers are the blobs they add.
#[verifier::rlimit(100)]
pub proof fn law_cosign_keeps_layout_ready(
    a: ArtifactSetView,
    rd: Seq<char>,
    subject_digest: Seq<char>,
    identity: Seq<char>,
    payload_digest: Seq<char>,
    signature: Seq<u8>,
    public_key: Seq<u8>,
)
    requires
        view_layout_ready(a, rd),
        spec_attach_cosign(a, subject_digest, identity, payload_digest, signature, public_key) is Ok,
        digests_apart(spec_attach_cosign(a, subject_digest, identity, payload_digest, signature, public_key)->Ok_0, rd),
    ensures
        view_layout_ready(spec_attach_cosign(a, subject_digest, identity, payload_digest, signature, public_key)->Ok_0, rd),
{
    let v = spec_attach_cosign(a, subject_digest, identity, payload_digest, signature, public_key)->Ok_0;
    let index = a.index.manifests;
    lemma_first_with_digest_found(index, subject_digest);
    let i = first_with_digest(index, subject_digest)->Some_0;
    assert(lists_digest(index, subject_digest));
    let old_list = referrers_at(a.referrers, subject_digest);
    let new_list = v.referrers[subject_digest];
    assert(new_list.len() == old_list.len() + 2);
    assert(v.index == a.index && v.manifests == a.manifests);
    // The referrers.
    assert forall|k: Seq<char>| #[trigger] v.referrers.dom().contains(k) implies v.referrers[k].len() > 0 && forall|j: int|
        0 <= j < v.referrers[k].len() ==> names_key(index, k, #[trigger] v.referrers[k][j]) by {
        assert forall|j: int| 0 <= j < v.referrers[k].len() implies names_key(index, k, #[trigger] v.referrers[k][j]) by {
            if k == subject_digest && j >= old_list.len() {
                assert(v.referrers[k][j].subject == Some(index[i]));
            } else {
                assert(a.referrers.dom().contains(k));
                assert(v.referrers[k][j] == a.referrers[k][j]);
            }
        }
    }
    // The blobs.
    assert forall|d: Seq<char>| #[trigger] v.blobs.dom().contains(d) <==> blob_is_named(v, d) by {
        if blob_is_named(a, d) {
            if exists|x: int|
                0 <= x < index.len() && manifest_blobs(a.manifests[(#[trigger] index[x]).digest]).contains(d) {
            } else {
                let (k, j) = choose|k: Seq<char>, j: int|
                    a.referrers.dom().contains(k) && 0 <= j < a.referrers[k].len() && manifest_blobs(
                        #[trigger] a.referrers[k][j],
                    ).contains(d);
                assert(v.referrers.dom().contains(k));
                assert(v.referrers[k][j] == a.referrers[k][j]);
                assert(manifest_blobs(v.referrers[k][j]).contains(d));
            }
        }
        let sm = new_list[old_list.len() as int];
        let pm = new_list[old_list.len() + 1int];
        let bs = manifest_blobs(sm);
        let bp = manifest_blobs(pm);
        assert(bs.len() == 2 && bp.len() == 2);
        if v.blobs.dom().contains(d) && !a.blobs.dom().contains(d) {
            if d == bs[0] || d == bs[1] {
                assert(bs.contains(d));
                assert(manifest_blobs(v.referrers[subject_digest][old_list.len() as int]).contains(d));
            } else {
                assert(d == bp[0] || d == bp[1]);
                if d == bp[0] {
                    assert(bp[0] == d);
                } else {
                    assert(bp[1] == d);
                }
                assert(bp.contains(d));
                assert(manifest_blobs(v.referrers[subject_digest][old_list.len() + 1int]).contains(d));
            }
        }
        if blob_is_named(v, d) {
            if exists|x: int|
                0 <= x < index.len() && manifest_blobs(v.manifests[(#[trigger] index[x]).digest]).contains(d) {
                let x = choose|x: int|
                    0 <= x < index.len() && manifest_blobs(v.manifests[(#[trigger] index[x]).digest]).contains(d);
                assert(blob_is_named(a, d));
            } else {
                let (k, j) = choose|k: Seq<char>, j: int|
                    v.referrers.dom().contains(k) && 0 <= j < v.referrers[k].len() && manifest_blobs(
                        #[trigger] v.referrers[k][j],
                    ).contains(d);
                if k == subject_digest && j >= old_list.len() {
                    let mb = manifest_blobs(v.referrers[k][j]);
                    let y = choose|y: int| 0 <= y < mb.len() && mb[y] == d;
                } else {
                    assert(a.referrers.dom().contains(k));
                    assert(v.referrers[k][j] == a.referrers[k][j]);
                    assert(blob_is_named(a, d));
                }
            }
        }
    }
}

/// Importing an exported layout gives the artifacts back whenever they are
/// ready for a layout, as their view says: in particular after packing and
/// after each attachment of cosign material, which keep them ready.
pub proof fn law_import_after_export_of_ready(
    a: OciArtifactSet,
    tag: Seq<char>,
    manifests: Seq<(Seq<char>, ImageManifestView)>,
    blobs: Seq<(Seq<char>, Seq<u8>)>,
)
    requires
        artifact_set_wf(a),
        view_layout_ready(a@, root_index_descriptor(a, tag).digest),
        reads_back_layout(a, manifests, blobs),
    ensures
        spec_assemble_import(
            layout_index(a, tag),
            root_index_descriptor(a, tag).digest,
            a.index@,
            manifests,
            blobs,
        ) == Ok::<_, ImportFailure>(a@),
{
    lemma_layout_ready_of_view(a, tag);
    law_import_after_export(a, tag, manifests, blobs);
}


proof fn lemma_digests_apart_before_cosign(
    a: ArtifactSetView,
    rd: Seq<char>,
    subject_digest: Seq<char>,
    identity: Seq<char>,
    payload_digest: Seq<char>,
    signature: Seq<u8>,
    public_key: Seq<u8>,
)
    requires
        spec_attach_cosign(a, subject_digest, identity, payload_digest, signature, public_key) is Ok,
        digests_apart(spec_attach_cosign(a, subject_digest, identity, payload_digest, signature, public_key)->Ok_0, rd),
    ensures
        digests_apart(a, rd),
{
    let v = spec_attach_cosign(a, subject_digest, identity, payload_digest, signature, public_key)->Ok_0;
    assert forall|k: Seq<char>, j: int| a.referrers.dom().contains(k) && 0 <= j < a.referrers[k].len() implies referrer_descriptor(
        #[trigger] a.referrers[k][j],
    ).digest != rd && !lists_digest(a.index.manifests, referrer_descriptor(a.referrers[k][j]).digest) by {
        assert(v.referrers.dom().contains(k));
        assert(v.referrers[k][j] == a.referrers[k][j]);
    }
}

/// A catalog survives packing, attaching cosign material, export as an
/// image layout, import and unpacking: when `a` holds the catalog's
/// artifacts with a signature and a public key attached, the layout tells
/// their digests apart, the layout's manifests and blobs are read back as
/// written, the catalog's maps are in key order, and each blob and JSON
/// annotation is read as the JSON value it was written from with its
/// objects' members in key order, importing the layout assembles `a`
/// again, and unpacking that gives back the catalog.
pub proof fn law_cosigned_catalog_through_layout(
    c: CatalogView,
    subject_digest: Seq<char>,
    identity: Seq<char>,
    payload_digest: Seq<char>,
    signature: Seq<u8>,
    public_key: Seq<u8>,
    a: OciArtifactSet,
    tag: Seq<char>,
    manifests: Seq<(Seq<char>, ImageManifestView)>,
    blobs: Seq<(Seq<char>, Seq<u8>)>,
    blob_json_table: Seq<(Seq<char>, Result<JsonView, Seq<char>>)>,
    annotation_table: Seq<(Seq<char>, Result<JsonView, Seq<char>>)>,
)
    requires
        catalog_packable(c),
        artifact_set_wf(a),
        spec_pack_catalog(c) is Ok,
        spec_attach_cosign(spec_pack_catalog(c)->Ok_0, subject_digest, identity, payload_digest, signature, public_key)
            == Ok::<_, Seq<char>>(a@),
        digests_apart(a@, root_index_descriptor(a, tag).digest),
        reads_back_layout(a, manifests, blobs),
        catalog_ordered(c),
        reads_back_blobs(c, blob_json_table),
        reads_back_annotations(c, annotation_table),
    ensures
        spec_assemble_import(
            layout_index(a, tag),
            root_index_descriptor(a, tag).digest,
            a.index@,
            manifests,
            blobs,
        ) == Ok::<_, ImportFailure>(a@),
        spec_unpack_catalog(a@, blob_json_table, annotation_table) == Ok::<_, UnpackFailure>(c),
{
    let p = spec_pack_catalog(c)->Ok_0;
    let rd = root_index_descriptor(a, tag).digest;
    lemma_digests_apart_before_cosign(p, rd, subject_digest, identity, payload_digest, signature, public_key);
    law_packed_layout_ready(c, rd);
    law_cosign_keeps_layout_ready(p, rd, subject_digest, identity, payload_digest, signature, public_key);
    law_import_after_export_of_ready(a, tag, manifests, blobs);
    law_unpack_after_pack(c, blob_json_table, annotation_table);
    law_unpack_after_cosign(p, subject_digest, identity, payload_digest, signature, public_key, blob_json_table, annotation_table);
}


// ---------------------------------------------------------------------
// Descriptor sizes.

/// Bytes packing writes for an entry: its configuration, its inline data,
/// or its trust manifest.
pub open spec fn written_blob(e: EntryView, b: Seq<u8>) -> bool {
    ||| b == json_bytes(crate::pack::entry_config_json(e))
    ||| (e.url is None && e.data is Some && b == json_bytes(e.data->Some_0))
    ||| (e.trust_manifest is Some && b == json_bytes(crate::render::manifest_json(e.trust_manifest->Some_0)))
}

/// No two different byte strings that packing writes share a SHA-256
/// digest.
pub open spec fn digests_tell_apart(es: Seq<EntryView>) -> bool {
    forall|i: int, j: int, b1: Seq<u8>, b2: Seq<u8>|
        0 <= i < es.len() && 0 <= j < es.len() && #[trigger] written_blob(es[i], b1) && #[trigger] written_blob(es[j], b2)
            && sha256_digest_text(b1) == sha256_digest_text(b2) ==> b1 == b2
}

proof fn lemma_pack_blob_values(es: Seq<EntryView>, n: nat)
    requires
        n <= es.len(),
        forall|i: int| 0 <= i < es.len() ==> has_one_content(#[trigger] es[i]),
    ensures
        pack_entries(es, n) is Ok,
        forall|d: Seq<char>| #[trigger] pack_entries(es, n)->Ok_0.blobs.dom().contains(d) ==> exists|i: int|
            0 <= i < n && #[trigger] written_blob(es[i], pack_entries(es, n)->Ok_0.blobs[d]),
    decreases n,
{
    lemma_pack_content(es, n);
    if n > 0 {
        lemma_pack_blob_values(es, (n - 1) as nat);
        let st = pack_entries(es, (n - 1) as nat)->Ok_0;
        let e = es[n - 1];
        let st2 = pack_entry(st, e)->Ok_0;
        assert forall|d: Seq<char>| #[trigger] st2.blobs.dom().contains(d) implies exists|i: int|
            0 <= i < n && #[trigger] written_blob(es[i], st2.blobs[d]) by {
            if written_blob(e, st2.blobs[d]) {
                assert(written_blob(es[n - 1], st2.blobs[d]));
            } else {
                assert(st.blobs.dom().contains(d) && st2.blobs[d] == st.blobs[d]);
                let i = choose|i: int| 0 <= i < n - 1 && #[trigger] written_blob(es[i], st.blobs[d]);
                assert(written_blob(es[i], st2.blobs[d]));
            }
        }
    }
}

/// A blob packing wrote for an entry is held under its digest as those
/// very bytes, when digests tell the written bytes apart.
proof fn lemma_held_bytes(es: Seq<EntryView>, i: int, b: Seq<u8>)
    requires
        forall|k: int| 0 <= k < es.len() ==> has_one_content(#[trigger] es[k]),
        digests_tell_apart(es),
        0 <= i < es.len(),
        written_blob(es[i], b),
        pack_entries(es, es.len()) is Ok,
        pack_entries(es, es.len())->Ok_0.blobs.dom().contains(sha256_digest_text(b)),
    ensures
        pack_entries(es, es.len())->Ok_0.blobs[sha256_digest_text(b)] == b,
{
    let n = es.len();
    lemma_pack_blob_values(es, n);
    lemma_pack_content(es, n);
    let st = pack_entries(es, n)->Ok_0;
    let d = sha256_digest_text(b);
    let j = choose|j: int| 0 <= j < n && #[trigger] written_blob(es[j], st.blobs[d]);
    assert(d == sha256_digest_text(st.blobs[d]));
}

#[verifier::rlimit(100)]
proof fn lemma_manifest_sizes(es: Seq<EntryView>, d: Seq<char>)
    requires
        forall|k: int| 0 <= k < es.len() ==> has_one_content(#[trigger] es[k]),
        digests_tell_apart(es),
        pack_entries(es, es.len()) is Ok,
        pack_entries(es, es.len())->Ok_0.manifests.dom().contains(d),
    ensures
        ({
            let st = pack_entries(es, es.len())->Ok_0;
            let m = st.manifests[d];
            &&& st.blobs.dom().contains(m.config.digest)
            &&& st.blobs[m.config.digest].len() as u64 == m.config.size
            &&& forall|x: int| 0 <= x < m.layers.len() ==> st.blobs.dom().contains((#[trigger] m.layers[x]).digest)
                && st.blobs[m.layers[x].digest].len() as u64 == m.layers[x].size
        }),
{
    let n = es.len();
    lemma_pack_content(es, n);
    let st = pack_entries(es, n)->Ok_0;
    let i = choose|i: int| 0 <= i < n && manifest_descriptor_of(#[trigger] es[i]).digest == d && st.manifests[d] == image_manifest_of(es[i]);
    let e = es[i];
    assert(has_one_content(e));
    lemma_pack_blobs_of(es, n, i);
    assert(packed_blob_of(e, config_descriptor(e).digest));
    lemma_held_bytes(es, i, json_bytes(crate::pack::entry_config_json(e)));
    let m = st.manifests[d];
    assert forall|x: int| 0 <= x < m.layers.len() implies st.blobs.dom().contains((#[trigger] m.layers[x]).digest)
        && st.blobs[m.layers[x].digest].len() as u64 == m.layers[x].size by {
        assert(e.url is None && x == 0);
        assert(packed_blob_of(e, entry_layers(e)->Some_0[0].digest));
        lemma_held_bytes(es, i, json_bytes(e.data->Some_0));
    }
}

#[verifier::rlimit(100)]
proof fn lemma_referrer_sizes(es: Seq<EntryView>, k: Seq<char>, j: int)
    requires
        forall|x: int| 0 <= x < es.len() ==> has_one_content(#[trigger] es[x]),
        digests_tell_apart(es),
        pack_entries(es, es.len()) is Ok,
        pack_entries(es, es.len())->Ok_0.referrers.dom().contains(k),
        0 <= j < pack_entries(es, es.len())->Ok_0.referrers[k].len(),
    ensures
        ({
            let st = pack_entries(es, es.len())->Ok_0;
            let m = st.referrers[k][j];
            &&& st.blobs.dom().contains(m.config.digest)
            &&& st.blobs[m.config.digest].len() as u64 == m.config.size
            &&& m.layers.len() == 0
        }),
{
    let n = es.len();
    lemma_pack_only(es, n);
    let st = pack_entries(es, n)->Ok_0;
    let i = choose|i: int|
        0 <= i < n && #[trigger] st.referrers[k][j] == referrer_of(#[trigger] es[i]) && es[i].trust_manifest is Some
            && manifest_descriptor_of(es[i]).digest == k;
    let e = es[i];
    lemma_pack_blobs_of(es, n, i);
    assert(packed_blob_of(e, trust_config_descriptor(e.trust_manifest->Some_0).digest));
    lemma_held_bytes(es, i, json_bytes(crate::render::manifest_json(e.trust_manifest->Some_0)));
}

/// Packing describes what it stores by size as well as by digest: every
/// configuration and layer that a manifest or a referrer names is held
/// with the size its descriptor gives, and each descriptor of the root
/// index gives the digest and the size of the JSON bytes of the manifest
/// held under that digest; when no two different byte strings packing
/// writes share a SHA-256 digest.
pub proof fn law_packed_sizes(c: CatalogView)
    requires
        catalog_packable(c),
        digests_tell_apart(c.entries),
    ensures
        spec_pack_catalog(c) is Ok,
        ({
            let v = spec_pack_catalog(c)->Ok_0;
            &&& forall|d: Seq<char>| #[trigger] v.manifests.dom().contains(d) ==> v.blobs.dom().contains(v.manifests[d].config.digest)
                && v.blobs[v.manifests[d].config.digest].len() as u64 == v.manifests[d].config.size && forall|x: int|
                0 <= x < v.manifests[d].layers.len() ==> v.blobs.dom().contains((#[trigger] v.manifests[d].layers[x]).digest)
                    && v.blobs[v.manifests[d].layers[x].digest].len() as u64 == v.manifests[d].layers[x].size
            &&& forall|k: Seq<char>, j: int|
                v.referrers.dom().contains(k) && 0 <= j < v.referrers[k].len() ==> v.blobs.dom().contains(
                    (#[trigger] v.referrers[k][j]).config.digest,
                ) && v.blobs[v.referrers[k][j].config.digest].len() as u64 == v.referrers[k][j].config.size
                    && v.referrers[k][j].layers.len() == 0
            &&& forall|i: int| 0 <= i < v.index.manifests.len() ==> v.manifests.dom().contains((#[trigger] v.index.manifests[i]).digest)
                && v.index.manifests[i].digest == sha256_digest_text(json_bytes(image_manifest_json(v.manifests[v.index.manifests[i].digest])))
                && v.index.manifests[i].size == json_bytes(image_manifest_json(v.manifests[v.index.manifests[i].digest])).len() as u64
        }),
{
    let es = c.entries;
    let n = es.len();
    assert forall|i: int| 0 <= i < n implies has_one_content(#[trigger] es[i]) by {
        assert(entry_packable(es[i]));
    }
    lemma_pack_content(es, n);
    let st = pack_entries(es, n)->Ok_0;
    let v = spec_pack_catalog(c)->Ok_0;
    assert(v.manifests == st.manifests && v.referrers == st.referrers && v.blobs == st.blobs);
    assert forall|d: Seq<char>| #[trigger] v.manifests.dom().contains(d) implies v.blobs.dom().contains(v.manifests[d].config.digest)
        && v.blobs[v.manifests[d].config.digest].len() as u64 == v.manifests[d].config.size && forall|x: int|
        0 <= x < v.manifests[d].layers.len() ==> v.blobs.dom().contains((#[trigger] v.manifests[d].layers[x]).digest)
            && v.blobs[v.manifests[d].layers[x].digest].len() as u64 == v.manifests[d].layers[x].size by {
        lemma_manifest_sizes(es, d);
    }
    assert forall|k: Seq<char>, j: int|
        v.referrers.dom().contains(k) && 0 <= j < v.referrers[k].len() implies v.blobs.dom().contains(
            (#[trigger] v.referrers[k][j]).config.digest,
        ) && v.blobs[v.referrers[k][j].config.digest].len() as u64 == v.referrers[k][j].config.size
            && v.referrers[k][j].layers.len() == 0 by {
        lemma_referrer_sizes(es, k, j);
    }
    lemma_packed_index(c);
}

proof fn lemma_index_descriptor(e: EntryView, m: ImageManifestView, d: DescriptorView)
    requires
        has_one_content(e),
        m == image_manifest_of(e),
        d == manifest_descriptor_of(e),
    ensures
        d.digest == sha256_digest_text(json_bytes(image_manifest_json(m))),
        d.size == json_bytes(image_manifest_json(m)).len() as u64,
{
}

#[verifier::rlimit(100)]
proof fn lemma_packed_index(c: CatalogView)
    requires
        catalog_packable(c),
    ensures
        spec_pack_catalog(c) is Ok,
        ({
            let v = spec_pack_catalog(c)->Ok_0;
            forall|i: int| 0 <= i < v.index.manifests.len() ==> v.manifests.dom().contains((#[trigger] v.index.manifests[i]).digest)
                && v.index.manifests[i].digest == sha256_digest_text(json_bytes(image_manifest_json(v.manifests[v.index.manifests[i].digest])))
                && v.index.manifests[i].size == json_bytes(image_manifest_json(v.manifests[v.index.manifests[i].digest])).len() as u64
        }),
{
    let es = c.entries;
    let n = es.len();
    assert forall|i: int| 0 <= i < n implies has_one_content(#[trigger] es[i]) by {
        assert(entry_packable(es[i]));
    }
    lemma_pack_state(es, n);
    crate::pack::law_pack_index_follows_entries(c);
    let v = spec_pack_catalog(c)->Ok_0;
    let ix = v.index.manifests;
    assert forall|i: int| 0 <= i < ix.len() implies v.manifests.dom().contains((#[trigger] ix[i]).digest)
        && ix[i].digest == sha256_digest_text(json_bytes(image_manifest_json(v.manifests[ix[i].digest])))
        && ix[i].size == json_bytes(image_manifest_json(v.manifests[ix[i].digest])).len() as u64 by {
        let e = es[i];
        assert(ix[i] == manifest_descriptor_of(e));
        assert(v.manifests[manifest_descriptor_of(e).digest] == image_manifest_of(e));
        lemma_index_descriptor(e, image_manifest_of(e), ix[i]);
    }
}

} // verus!
