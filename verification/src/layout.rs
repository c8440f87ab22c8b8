//! The OCI image layout of a set of artifacts: the blobs written under
//! `blobs/<algorithm>/<encoded>`, and the layout's own index, which lists
//! the root index under a tag, the entry manifests and every referrer.
use vstd::prelude::*;
use vstd::string::*;
use crate::jsontext::to_json_bytes;
use crate::keyed::pairs_view;
use crate::oci::{
    DescriptorView, ImageManifestView, IndexView, OciArtifactSet, OciDescriptor, OciImageIndex, OciImageManifest,
    bytes_descriptor, clone_descriptor, clone_pairs, copy_bytes, descriptor_for_bytes, descriptor_views,
    image_manifest_json, image_manifest_to_json, index_json, index_to_json, json_bytes, manifest_list_view,
    AI_CATALOG_MEDIA_TYPE, OCI_IMAGE_INDEX_MEDIA_TYPE, OCI_IMAGE_MANIFEST_MEDIA_TYPE, OCI_REF_NAME_ANNOTATION,
};
use crate::pack::OciError;
use crate::text::{
    chars_of, find, find_char_exec, lemma_find_in_bounds, opt_view, slice_vec, str_eq, string_from_chars,
    trim, trim_exec,
};

verus! {

/// The algorithm and the encoded part of a digest, around its first `:`;
/// `None` when either would be empty.
pub open spec fn spec_split_digest(d: Seq<char>) -> Option<(Seq<char>, Seq<char>)> {
    match find(d, seq![':']) {
        Some(i) => if 0 < i && i + 1 < d.len() {
            Some((d.take(i), d.skip(i + 1)))
        } else {
            None
        },
        None => None,
    }
}

/// Splits a digest into its algorithm and its encoded part.
pub fn split_digest(digest: &str) -> (r: Result<(String, String), OciError>)
    ensures
        match r {
            Ok((a, e)) => spec_split_digest(digest@) == Some((a@, e@)),
            Err(OciError::InvalidDigest(s)) => spec_split_digest(digest@) is None && s@ == digest@,
            _ => false,
        },
{
    let chars = chars_of(digest);
    match find_char_exec(chars.as_slice(), ':') {
        Some(i) => {
            proof {
                lemma_find_in_bounds(chars@, seq![':'], 0);
            }
            assert(i < chars@.len());
            if 0 < i && chars.len() - i > 1 {
                let a = slice_vec(chars.as_slice(), 0, i);
                let e = slice_vec(chars.as_slice(), i + 1, chars.len());
                assert(a@ =~= digest@.take(i as int));
                assert(e@ =~= digest@.skip(i + 1));
                Ok((string_from_chars(a.as_slice()), string_from_chars(e.as_slice())))
            } else {
                Err(OciError::InvalidDigest(String::from_str(digest)))
            }
        },
        None => Err(OciError::InvalidDigest(String::from_str(digest))),
    }
}

/// The bytes of an image manifest: its compact JSON text.
pub open spec fn manifest_bytes(m: ImageManifestView) -> Seq<u8> {
    json_bytes(image_manifest_json(m))
}

/// The descriptor of a referrer in the layout's index.
pub open spec fn referrer_descriptor(m: ImageManifestView) -> DescriptorView {
    bytes_descriptor(manifest_bytes(m), OCI_IMAGE_MANIFEST_MEDIA_TYPE@, m.artifact_type, m.annotations)
}

pub open spec fn referrer_describer() -> spec_fn(ImageManifestView) -> DescriptorView {
    |m: ImageManifestView| referrer_descriptor(m)
}

pub open spec fn referrer_writer() -> spec_fn(ImageManifestView) -> (Seq<char>, Seq<u8>) {
    |m: ImageManifestView| (referrer_descriptor(m).digest, manifest_bytes(m))
}

pub open spec fn manifest_writer() -> spec_fn((Seq<char>, ImageManifestView)) -> (Seq<char>, Seq<u8>) {
    |p: (Seq<char>, ImageManifestView)| (p.0, manifest_bytes(p.1))
}

/// The referrers, list after list in digest order.
pub open spec fn referrer_manifests(rs: Seq<(String, Vec<OciImageManifest>)>) -> Seq<ImageManifestView>
    decreases rs.len(),
{
    if rs.len() == 0 {
        Seq::empty()
    } else {
        referrer_manifests(rs.drop_last()) + manifest_list_view(rs.last().1@)
    }
}

/// The bytes of the root index.
pub open spec fn root_index_bytes(a: OciArtifactSet) -> Seq<u8> {
    json_bytes(index_json(a.index@))
}

/// The descriptor of the root index, named by the tag.
pub open spec fn root_index_descriptor(a: OciArtifactSet, tag: Seq<char>) -> DescriptorView {
    bytes_descriptor(
        root_index_bytes(a),
        OCI_IMAGE_INDEX_MEDIA_TYPE@,
        a.index@.artifact_type,
        seq![(OCI_REF_NAME_ANNOTATION@, tag)],
    )
}

/// The layout's own index: the root index, the entry manifests of the
/// root index, and every referrer.
pub open spec fn layout_index(a: OciArtifactSet, tag: Seq<char>) -> IndexView {
    IndexView {
        schema_version: 2,
        media_type: OCI_IMAGE_INDEX_MEDIA_TYPE@,
        artifact_type: None,
        manifests: seq![root_index_descriptor(a, tag)] + a.index@.manifests + referrer_manifests(
            a.referrers@,
        ).map_values(referrer_describer()),
        annotations: Seq::empty(),
    }
}

/// What the layout holds as blobs, by digest, in the order written: the
/// root index, the entry manifests, the referrers and the other blobs.
pub open spec fn layout_writes(a: OciArtifactSet, tag: Seq<char>) -> Seq<(Seq<char>, Seq<u8>)> {
    seq![(root_index_descriptor(a, tag).digest, root_index_bytes(a))] + pairs_view(a.manifests@).map_values(
        manifest_writer(),
    ) + referrer_manifests(a.referrers@).map_values(referrer_writer()) + pairs_view(a.blobs@)
}

/// The position of the first write whose digest does not split.
pub open spec fn first_bad_digest(w: Seq<(Seq<char>, Seq<u8>)>) -> Option<int>
    decreases w.len(),
{
    if w.len() == 0 {
        None
    } else {
        match first_bad_digest(w.drop_last()) {
            Some(i) => Some(i),
            None => if spec_split_digest(w.last().0) is None {
                Some(w.len() - 1)
            } else {
                None
            },
        }
    }
}

/// The file a write goes to, and its bytes.
pub open spec fn layout_blob_of(w: (Seq<char>, Seq<u8>)) -> (Seq<char>, Seq<char>, Seq<u8>) {
    let s = spec_split_digest(w.0)->Some_0;
    (s.0, s.1, w.1)
}

pub open spec fn layout_blob_writer() -> spec_fn((Seq<char>, Seq<u8>)) -> (Seq<char>, Seq<char>, Seq<u8>) {
    |w: (Seq<char>, Seq<u8>)| layout_blob_of(w)
}

/// A blob of a layout: the file `blobs/<algorithm>/<encoded>` and its
/// bytes.
pub struct LayoutBlob {
    pub algorithm: String,
    pub encoded: String,
    pub bytes: Vec<u8>,
}

impl View for LayoutBlob {
    type V = (Seq<char>, Seq<char>, Seq<u8>);

    open spec fn view(&self) -> (Seq<char>, Seq<char>, Seq<u8>) {
        (self.algorithm@, self.encoded@, self.bytes@)
    }
}

pub open spec fn layout_blob_views(v: Seq<LayoutBlob>) -> Seq<(Seq<char>, Seq<char>, Seq<u8>)> {
    v.map_values(|b: LayoutBlob| b@)
}

/// What exporting a layout writes: its blobs, in order, and its index.
pub struct LayoutExport {
    pub blobs: Vec<LayoutBlob>,
    pub index: OciImageIndex,
}

proof fn lemma_map_add<A, B>(a: Seq<A>, b: Seq<A>, f: spec_fn(A) -> B)
    ensures
        (a + b).map_values(f) == a.map_values(f) + b.map_values(f),
{
    assert((a + b).map_values(f) =~= a.map_values(f) + b.map_values(f));
}

proof fn lemma_referrer_manifests_step(rs: Seq<(String, Vec<OciImageManifest>)>, i: int)
    requires
        0 <= i < rs.len(),
    ensures
        referrer_manifests(rs.take(i + 1)) == referrer_manifests(rs.take(i)) + manifest_list_view(rs[i].1@),
{
    assert(rs.take(i + 1).drop_last() =~= rs.take(i));
}

proof fn lemma_first_bad_prefix(w: Seq<(Seq<char>, Seq<u8>)>, n: nat)
    requires
        n <= w.len(),
        first_bad_digest(w.take(n as int)) is Some,
    ensures
        first_bad_digest(w) == first_bad_digest(w.take(n as int)),
    decreases w.len() - n,
{
    if n < w.len() {
        assert(w.take((n + 1) as int).drop_last() =~= w.take(n as int));
        lemma_first_bad_prefix(w, n + 1);
    } else {
        assert(w.take(n as int) =~= w);
    }
}

/// Adds, for each referrer, its descriptor and its bytes.
fn add_referrers(
    rs: &Vec<(String, Vec<OciImageManifest>)>,
    descriptors: &mut Vec<OciDescriptor>,
    writes: &mut Vec<(String, Vec<u8>)>,
)
    ensures
        descriptor_views(final(descriptors)@) == descriptor_views(old(descriptors)@) + referrer_manifests(
            rs@,
        ).map_values(referrer_describer()),
        pairs_view(final(writes)@) == pairs_view(old(writes)@) + referrer_manifests(rs@).map_values(
            referrer_writer(),
        ),
{
    let ghost d0 = descriptor_views(descriptors@);
    let ghost w0 = pairs_view(writes@);
    let mut i: usize = 0;
    assert(rs@.take(0) =~= Seq::<(String, Vec<OciImageManifest>)>::empty());
    assert(d0 + Seq::<DescriptorView>::empty() =~= d0);
    assert(w0 + Seq::<(Seq<char>, Seq<u8>)>::empty() =~= w0);
    while i < rs.len()
        invariant
            i <= rs@.len(),
            descriptor_views(descriptors@) == d0 + referrer_manifests(rs@.take(i as int)).map_values(
                referrer_describer(),
            ),
            pairs_view(writes@) == w0 + referrer_manifests(rs@.take(i as int)).map_values(referrer_writer()),
        decreases rs.len() - i,
    {
        let list = &rs[i].1;
        let ghost dm = descriptor_views(descriptors@);
        let ghost wm = pairs_view(writes@);
        let mut j: usize = 0;
        assert(manifest_list_view(list@).take(0) =~= Seq::<ImageManifestView>::empty());
        assert(dm + Seq::<DescriptorView>::empty() =~= dm);
        assert(wm + Seq::<(Seq<char>, Seq<u8>)>::empty() =~= wm);
        while j < list.len()
            invariant
                j <= list@.len(),
                list == &rs@[i as int].1,
                descriptor_views(descriptors@) == dm + manifest_list_view(list@).take(j as int).map_values(
                    referrer_describer(),
                ),
                pairs_view(writes@) == wm + manifest_list_view(list@).take(j as int).map_values(referrer_writer()),
            decreases list.len() - j,
        {
            let m = &list[j];
            let bytes = to_json_bytes(&image_manifest_to_json(m));
            let at = match &m.artifact_type {
                Some(s) => Some(s.clone()),
                None => None,
            };
            let d = descriptor_for_bytes(bytes.as_slice(), OCI_IMAGE_MANIFEST_MEDIA_TYPE, at, clone_pairs(&m.annotations));
            assert(d@ == referrer_descriptor(m@));
            let ghost before_d = descriptor_views(descriptors@);
            let ghost before_w = pairs_view(writes@);
            writes.push((d.digest.clone(), bytes));
            descriptors.push(d);
            proof {
                let mv = manifest_list_view(list@);
                assert(mv.take(j + 1) =~= mv.take(j as int).push(m@));
                assert(descriptor_views(descriptors@) =~= before_d.push(referrer_descriptor(m@)));
                assert(pairs_view(writes@) =~= before_w.push((referrer_descriptor(m@).digest, manifest_bytes(m@))));
                assert(mv.take(j + 1).map_values(referrer_describer()) =~= mv.take(j as int).map_values(
                    referrer_describer(),
                ).push(referrer_descriptor(m@)));
                assert(mv.take(j + 1).map_values(referrer_writer()) =~= mv.take(j as int).map_values(
                    referrer_writer(),
                ).push((referrer_descriptor(m@).digest, manifest_bytes(m@))));
            }
            j = j + 1;
        }
        proof {
            let mv = manifest_list_view(list@);
            assert(mv.take(j as int) =~= mv);
            lemma_referrer_manifests_step(rs@, i as int);
            lemma_map_add(referrer_manifests(rs@.take(i as int)), mv, referrer_describer());
            lemma_map_add(referrer_manifests(rs@.take(i as int)), mv, referrer_writer());
        }
        i = i + 1;
    }
    assert(rs@.take(i as int) =~= rs@);
}

/// What exporting artifacts as an OCI image layout writes, with the root
/// index named by `tag`: each blob under its digest, in order, the root
/// index, the entry manifests, the referrers, then the other blobs; and the
/// layout's index. Fails on a tag that is empty or white space only, and
/// then on the first blob whose digest has no algorithm or no encoded part.
pub fn layout_for_export(artifacts: &OciArtifactSet, tag: &str) -> (r: Result<LayoutExport, OciError>)
    ensures
        match r {
            Ok(x) => {
                &&& trim(tag@).len() > 0
                &&& first_bad_digest(layout_writes(*artifacts, tag@)) is None
                &&& x.index@ == layout_index(*artifacts, tag@)
                &&& layout_blob_views(x.blobs@) == layout_writes(*artifacts, tag@).map_values(layout_blob_writer())
            },
            Err(OciError::InvalidLayoutTag) => trim(tag@).len() == 0,
            Err(OciError::InvalidDigest(d)) => {
                &&& trim(tag@).len() > 0
                &&& first_bad_digest(layout_writes(*artifacts, tag@)) matches Some(i)
                &&& d@ == layout_writes(*artifacts, tag@)[i].0
            },
            _ => false,
        },
{
    let tc = chars_of(tag);
    let t = trim_exec(tc.as_slice());
    if t.len() == 0 {
        return Err(OciError::InvalidLayoutTag);
    }
    let root_bytes = to_json_bytes(&index_to_json(&artifacts.index));
    let mut ann: Vec<(String, String)> = Vec::new();
    ann.push((String::from_str(OCI_REF_NAME_ANNOTATION), String::from_str(tag)));
    assert(pairs_view(ann@) =~= seq![(OCI_REF_NAME_ANNOTATION@, tag@)]);
    let at = match &artifacts.index.artifact_type {
        Some(s) => Some(s.clone()),
        None => None,
    };
    let root = descriptor_for_bytes(root_bytes.as_slice(), OCI_IMAGE_INDEX_MEDIA_TYPE, at, ann);
    assert(root@ == root_index_descriptor(*artifacts, tag@));
    let mut descriptors: Vec<OciDescriptor> = Vec::new();
    let mut writes: Vec<(String, Vec<u8>)> = Vec::new();
    writes.push((root.digest.clone(), root_bytes));
    descriptors.push(root);
    let ghost d1 = descriptor_views(descriptors@);
    let mut i: usize = 0;
    while i < artifacts.index.manifests.len()
        invariant
            i <= artifacts.index.manifests@.len(),
            descriptor_views(descriptors@) == d1 + descriptor_views(artifacts.index.manifests@.take(i as int)),
        decreases artifacts.index.manifests.len() - i,
    {
        let ghost before = descriptor_views(descriptors@);
        descriptors.push(clone_descriptor(&artifacts.index.manifests[i]));
        assert(descriptor_views(descriptors@) =~= before.push(artifacts.index.manifests@[i as int]@));
        assert(descriptor_views(artifacts.index.manifests@.take(i + 1)) =~= descriptor_views(
            artifacts.index.manifests@.take(i as int),
        ).push(artifacts.index.manifests@[i as int]@));
        i = i + 1;
    }
    assert(artifacts.index.manifests@.take(i as int) =~= artifacts.index.manifests@);
    let ghost w1 = pairs_view(writes@);
    let mut k: usize = 0;
    while k < artifacts.manifests.len()
        invariant
            k <= artifacts.manifests@.len(),
            pairs_view(writes@) == w1 + pairs_view(artifacts.manifests@.take(k as int)).map_values(manifest_writer()),
        decreases artifacts.manifests.len() - k,
    {
        let ghost before = pairs_view(writes@);
        let bytes = to_json_bytes(&image_manifest_to_json(&artifacts.manifests[k].1));
        writes.push((artifacts.manifests[k].0.clone(), bytes));
        let ghost p = artifacts.manifests@[k as int];
        assert(pairs_view(writes@) =~= before.push((p.0@, manifest_bytes(p.1@))));
        assert(pairs_view(artifacts.manifests@.take(k + 1)).map_values(manifest_writer()) =~= pairs_view(
            artifacts.manifests@.take(k as int),
        ).map_values(manifest_writer()).push((p.0@, manifest_bytes(p.1@))));
        k = k + 1;
    }
    assert(artifacts.manifests@.take(k as int) =~= artifacts.manifests@);
    add_referrers(&artifacts.referrers, &mut descriptors, &mut writes);
    let ghost w3 = pairs_view(writes@);
    let mut b: usize = 0;
    while b < artifacts.blobs.len()
        invariant
            b <= artifacts.blobs@.len(),
            pairs_view(writes@) == w3 + pairs_view(artifacts.blobs@.take(b as int)),
        decreases artifacts.blobs.len() - b,
    {
        let ghost before = pairs_view(writes@);
        writes.push((artifacts.blobs[b].0.clone(), copy_bytes(artifacts.blobs[b].1.as_slice())));
        assert(pairs_view(writes@) =~= before.push(pairs_view(artifacts.blobs@)[b as int]));
        assert(pairs_view(artifacts.blobs@.take(b + 1)) =~= pairs_view(artifacts.blobs@.take(b as int)).push(
            pairs_view(artifacts.blobs@)[b as int],
        ));
        b = b + 1;
    }
    assert(artifacts.blobs@.take(b as int) =~= artifacts.blobs@);
    let ghost w = layout_writes(*artifacts, tag@);
    assert(pairs_view(writes@) =~= w);
    assert(descriptor_views(descriptors@) =~= layout_index(*artifacts, tag@).manifests);
    let mut blobs: Vec<LayoutBlob> = Vec::new();
    let mut n: usize = 0;
    assert(w.take(0) =~= Seq::<(Seq<char>, Seq<u8>)>::empty());
    while n < writes.len()
        invariant
            n <= writes@.len(),
            pairs_view(writes@) == w,
            w == layout_writes(*artifacts, tag@),
            trim(tag@).len() > 0,
            first_bad_digest(w.take(n as int)) is None,
            layout_blob_views(blobs@) == w.take(n as int).map_values(layout_blob_writer()),
        decreases writes.len() - n,
    {
        assert(w.take(n + 1).drop_last() =~= w.take(n as int));
        assert(w[n as int] == (writes@[n as int].0@, writes@[n as int].1@));
        match split_digest(writes[n].0.as_str()) {
            Ok((alg, enc)) => {
                let ghost before = layout_blob_views(blobs@);
                blobs.push(LayoutBlob { algorithm: alg, encoded: enc, bytes: copy_bytes(writes[n].1.as_slice()) });
                assert(layout_blob_views(blobs@) =~= before.push(layout_blob_of(w[n as int])));
                assert(w.take(n + 1).map_values(layout_blob_writer()) =~= w.take(n as int).map_values(
                    layout_blob_writer(),
                ).push(layout_blob_of(w[n as int])));
            },
            Err(e) => {
                proof {
                    assert(w.take(n + 1).last() == w[n as int]);
                    assert(first_bad_digest(w.take(n + 1)) == Some(n as int));
                    lemma_first_bad_prefix(w, (n + 1) as nat);
                }
                return Err(e);
            },
        }
        n = n + 1;
    }
    assert(w.take(n as int) =~= w);
    let index = OciImageIndex {
        schema_version: 2,
        media_type: String::from_str(OCI_IMAGE_INDEX_MEDIA_TYPE),
        artifact_type: None,
        manifests: descriptors,
        annotations: Vec::new(),
    };
    assert(pairs_view(index.annotations@) =~= Seq::<(Seq<char>, Seq<char>)>::empty());
    Ok(LayoutExport { blobs, index })
}

/// A descriptor of a catalog's root index.
pub open spec fn is_catalog_root(d: DescriptorView) -> bool {
    d.media_type == OCI_IMAGE_INDEX_MEDIA_TYPE@ && d.artifact_type == Some(AI_CATALOG_MEDIA_TYPE@)
}

/// The value of the first annotation under `key`.
pub open spec fn annotation_value(a: Seq<(Seq<char>, Seq<char>)>, key: Seq<char>) -> Option<Seq<char>>
    decreases a.len(),
{
    if a.len() == 0 {
        None
    } else {
        match annotation_value(a.drop_last(), key) {
            Some(v) => Some(v),
            None => if a.last().0 == key {
                Some(a.last().1)
            } else {
                None
            },
        }
    }
}

/// The first root descriptor named `name`.
pub open spec fn first_named_root(ds: Seq<DescriptorView>, name: Seq<char>) -> Option<DescriptorView>
    decreases ds.len(),
{
    if ds.len() == 0 {
        None
    } else {
        match first_named_root(ds.drop_last(), name) {
            Some(d) => Some(d),
            None => if is_catalog_root(ds.last()) && annotation_value(ds.last().annotations, OCI_REF_NAME_ANNOTATION@)
                == Some(name) {
                Some(ds.last())
            } else {
                None
            },
        }
    }
}

/// The first root descriptor.
pub open spec fn first_root(ds: Seq<DescriptorView>) -> Option<DescriptorView>
    decreases ds.len(),
{
    if ds.len() == 0 {
        None
    } else {
        match first_root(ds.drop_last()) {
            Some(d) => Some(d),
            None => if is_catalog_root(ds.last()) {
                Some(ds.last())
            } else {
                None
            },
        }
    }
}

/// How many root descriptors there are.
pub open spec fn root_count(ds: Seq<DescriptorView>) -> nat
    decreases ds.len(),
{
    if ds.len() == 0 {
        0
    } else {
        root_count(ds.drop_last()) + if is_catalog_root(ds.last()) {
            1nat
        } else {
            0nat
        }
    }
}

pub(crate) fn annotation_value_of(a: &Vec<(String, String)>, key: &str) -> (r: Option<String>)
    ensures
        opt_view(r) == annotation_value(pairs_view(a@), key@),
{
    let ghost pv = pairs_view(a@);
    let mut i: usize = 0;
    while i < a.len()
        invariant
            pv == pairs_view(a@),
            i <= a@.len(),
            annotation_value(pv.take(i as int), key@) is None,
        decreases a.len() - i,
    {
        assert(pv.take(i + 1).drop_last() =~= pv.take(i as int));
        if str_eq(a[i].0.as_str(), key) {
            proof {
                lemma_annotation_value_prefix(pv, (i + 1) as nat, key@);
            }
            return Some(a[i].1.clone());
        }
        i = i + 1;
    }
    assert(pv.take(i as int) =~= pv);
    None
}

proof fn lemma_annotation_value_prefix(a: Seq<(Seq<char>, Seq<char>)>, n: nat, key: Seq<char>)
    requires
        n <= a.len(),
        annotation_value(a.take(n as int), key) is Some,
    ensures
        annotation_value(a, key) == annotation_value(a.take(n as int), key),
    decreases a.len() - n,
{
    if n < a.len() {
        assert(a.take((n + 1) as int).drop_last() =~= a.take(n as int));
        lemma_annotation_value_prefix(a, n + 1, key);
    } else {
        assert(a.take(n as int) =~= a);
    }
}

fn is_catalog_root_exec(d: &OciDescriptor) -> (r: bool)
    ensures
        r == is_catalog_root(d@),
{
    str_eq(d.media_type.as_str(), OCI_IMAGE_INDEX_MEDIA_TYPE) && match &d.artifact_type {
        Some(t) => str_eq(t.as_str(), AI_CATALOG_MEDIA_TYPE),
        None => false,
    }
}

/// The root index a layout's index names: with a name, the first root
/// descriptor whose reference name annotation is that name; without one,
/// the only root descriptor. A root descriptor is one of an image index
/// of the catalog's artifact type.
pub fn select_layout_root_descriptor(layout_index: &OciImageIndex, ref_name: Option<&str>) -> (r: Result<
    OciDescriptor,
    OciError,
>)
    ensures
        match ref_name {
            Some(n) => match (r, first_named_root(layout_index@.manifests, n@)) {
                (Ok(d), Some(v)) => d@ == v,
                (Err(OciError::MissingLayoutReference(s)), None) => s@ == n@,
                _ => false,
            },
            None => match r {
                Ok(d) => root_count(layout_index@.manifests) == 1 && first_root(layout_index@.manifests) == Some(d@),
                Err(OciError::MissingLayoutReference(s)) => root_count(layout_index@.manifests) == 0 && s@ == "latest"@,
                Err(OciError::AmbiguousLayoutReference) => root_count(layout_index@.manifests) >= 2,
                _ => false,
            },
        },
{
    let ds = &layout_index.manifests;
    let ghost dv = descriptor_views(ds@);
    let mut i: usize = 0;
    let mut count: usize = 0;
    let mut first: Option<usize> = None;
    while i < ds.len()
        invariant
            dv == descriptor_views(ds@),
            dv == layout_index@.manifests,
            i <= ds@.len(),
            count == root_count(dv.take(i as int)),
            count <= i,
            first is None ==> count == 0,
            match first {
                Some(k) => k < i && first_root(dv.take(i as int)) == Some(dv[k as int]),
                None => first_root(dv.take(i as int)) is None,
            },
            match ref_name {
                Some(n) => first_named_root(dv.take(i as int), n@) is None,
                None => true,
            },
        decreases ds.len() - i,
    {
        assert(dv.take(i + 1).drop_last() =~= dv.take(i as int));
        assert(dv.take(i + 1).last() == dv[i as int]);
        if is_catalog_root_exec(&ds[i]) {
            match ref_name {
                Some(n) => {
                    let v = annotation_value_of(&ds[i].annotations, OCI_REF_NAME_ANNOTATION);
                    let named = match &v {
                        Some(t) => str_eq(t.as_str(), n),
                        None => false,
                    };
                    if named {
                        proof {
                            lemma_first_named_prefix(dv, (i + 1) as nat, n@);
                        }
                        return Ok(clone_descriptor(&ds[i]));
                    }
                },
                None => {},
            }
            if first.is_none() {
                first = Some(i);
            }
            count = count + 1;
        }
        i = i + 1;
    }
    assert(dv.take(i as int) =~= dv);
    match ref_name {
        Some(n) => {
            Err(OciError::MissingLayoutReference(String::from_str(n)))
        },
        None => {
            if count == 0 {
                Err(OciError::MissingLayoutReference(String::from_str("latest")))
            } else if count == 1 {
                match first {
                    Some(k) => Ok(clone_descriptor(&ds[k])),
                    None => Err(OciError::MissingLayoutReference(String::from_str("latest"))),
                }
            } else {
                Err(OciError::AmbiguousLayoutReference)
            }
        },
    }
}

proof fn lemma_first_named_prefix(ds: Seq<DescriptorView>, n: nat, name: Seq<char>)
    requires
        n <= ds.len(),
        first_named_root(ds.take(n as int), name) is Some,
    ensures
        first_named_root(ds, name) == first_named_root(ds.take(n as int), name),
    decreases ds.len() - n,
{
    if n < ds.len() {
        assert(ds.take((n + 1) as int).drop_last() =~= ds.take(n as int));
        lemma_first_named_prefix(ds, n + 1, name);
    } else {
        assert(ds.take(n as int) =~= ds);
    }
}

} // verus!
