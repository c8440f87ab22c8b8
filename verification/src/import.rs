//! Reading artifacts back out of an OCI image layout. The files are read
//! before: the layout's version, its index, the chosen root index, each
//! image manifest the layout holds by digest, and each blob by digest.
//! What is kept: the root index, its entry manifests, the manifests that
//! refer to one of them, and the blobs of all those manifests.
use vstd::prelude::*;
use vstd::string::*;
use crate::keyed::{as_map, find_first, first_value, insert, lemma_as_map_empty, pairs_view, sorted_pairs};
use crate::oci::{
    ArtifactSetView, DescriptorView, ImageManifestView, IndexView, OciArtifactSet, OciDescriptor, OciImageIndex,
    OciImageManifest, artifact_set_wf, clone_image_manifest, copy_bytes, descriptor_views, referrers_view,
    OCI_IMAGE_MANIFEST_MEDIA_TYPE, OCI_LAYOUT_VERSION,
};
use crate::pack::{OciError, push_referrer, referrers_at};
use crate::text::str_eq;

verus! {

/// Checks the version of an image layout.
pub fn check_layout_version(version: &str) -> (r: Result<(), OciError>)
    ensures
        match r {
            Ok(()) => version@ == OCI_LAYOUT_VERSION@,
            Err(OciError::UnsupportedLayoutVersion(v)) => version@ != OCI_LAYOUT_VERSION@ && v@ == version@,
            _ => false,
        },
{
    if str_eq(version, OCI_LAYOUT_VERSION) {
        Ok(())
    } else {
        Err(OciError::UnsupportedLayoutVersion(String::from_str(version)))
    }
}

/// Some descriptor of the list has the digest.
pub open spec fn lists_digest(ds: Seq<DescriptorView>, d: Seq<char>) -> bool {
    exists|i: int| 0 <= i < ds.len() && (#[trigger] ds[i]).digest == d
}

/// The entry manifests of the root index, each under its digest, in the
/// root index's order; `Err` holds the first digest with no manifest.
pub open spec fn import_entries(
    root: Seq<DescriptorView>,
    t: Seq<(Seq<char>, ImageManifestView)>,
    n: nat,
) -> Result<Seq<(Seq<char>, ImageManifestView)>, Seq<char>>
    decreases n,
{
    if n == 0 || n > root.len() {
        Ok(Seq::empty())
    } else {
        match import_entries(root, t, (n - 1) as nat) {
            Err(d) => Err(d),
            Ok(es) => match first_value(t, root[n - 1].digest) {
                None => Err(root[n - 1].digest),
                Some(m) => Ok(es.push((root[n - 1].digest, m))),
            },
        }
    }
}

/// A descriptor of the layout's index that may be a referrer: an image
/// manifest other than the root index and the entry manifests.
pub open spec fn may_refer(d: DescriptorView, root_digest: Seq<char>, root: Seq<DescriptorView>) -> bool {
    d.digest != root_digest && !lists_digest(root, d.digest) && d.media_type == OCI_IMAGE_MANIFEST_MEDIA_TYPE@
}

/// The referrers among the layout's manifests, each with the digest of
/// the entry manifest it refers to, in the layout index's order; `Err`
/// holds the first digest with no manifest.
pub open spec fn import_referrers(
    layout: Seq<DescriptorView>,
    root_digest: Seq<char>,
    root: Seq<DescriptorView>,
    t: Seq<(Seq<char>, ImageManifestView)>,
    n: nat,
) -> Result<Seq<(Seq<char>, ImageManifestView)>, Seq<char>>
    decreases n,
{
    if n == 0 || n > layout.len() {
        Ok(Seq::empty())
    } else {
        match import_referrers(layout, root_digest, root, t, (n - 1) as nat) {
            Err(d) => Err(d),
            Ok(rs) => {
                let d = layout[n - 1];
                if !may_refer(d, root_digest, root) {
                    Ok(rs)
                } else {
                    match first_value(t, d.digest) {
                        None => Err(d.digest),
                        Some(m) => match m.subject {
                            Some(s) => if lists_digest(root, s.digest) {
                                Ok(rs.push((s.digest, m)))
                            } else {
                                Ok(rs)
                            },
                            None => Ok(rs),
                        },
                    }
                }
            },
        }
    }
}

/// The map of a list of pairs, a later pair in place of an earlier one.
pub open spec fn pairs_map<W>(ps: Seq<(Seq<char>, W)>) -> Map<Seq<char>, W>
    decreases ps.len(),
{
    if ps.len() == 0 {
        Map::empty()
    } else {
        pairs_map(ps.drop_last()).insert(ps.last().0, ps.last().1)
    }
}

/// The referrers of a list of referrers with their subjects, each list in
/// order.
pub open spec fn referrers_map(rs: Seq<(Seq<char>, ImageManifestView)>) -> Map<Seq<char>, Seq<ImageManifestView>>
    decreases rs.len(),
{
    if rs.len() == 0 {
        Map::empty()
    } else {
        let prev = referrers_map(rs.drop_last());
        prev.insert(rs.last().0, referrers_at(prev, rs.last().0).push(rs.last().1))
    }
}

/// The blobs a manifest names: its configuration, then its layers.
pub open spec fn manifest_blobs(m: ImageManifestView) -> Seq<Seq<char>> {
    seq![m.config.digest] + m.layers.map_values(|l: DescriptorView| l.digest)
}

/// The blobs the manifests name, manifest after manifest.
pub open spec fn blobs_named(ms: Seq<(Seq<char>, ImageManifestView)>) -> Seq<Seq<char>>
    decreases ms.len(),
{
    if ms.len() == 0 {
        Seq::empty()
    } else {
        blobs_named(ms.drop_last()) + manifest_blobs(ms.last().1)
    }
}

/// The first digest with no blob.
pub open spec fn first_missing(ds: Seq<Seq<char>>, t: Seq<(Seq<char>, Seq<u8>)>) -> Option<Seq<char>>
    decreases ds.len(),
{
    if ds.len() == 0 {
        None
    } else {
        match first_missing(ds.drop_last(), t) {
            Some(d) => Some(d),
            None => if first_value(t, ds.last()) is None {
                Some(ds.last())
            } else {
                None
            },
        }
    }
}

/// The blobs under the digests, each as the table holds it.
pub open spec fn blobs_map(ds: Seq<Seq<char>>, t: Seq<(Seq<char>, Seq<u8>)>) -> Map<Seq<char>, Seq<u8>> {
    Map::new(|d: Seq<char>| ds.contains(d), |d: Seq<char>| first_value(t, d)->Some_0)
}

/// Why an import fails: a manifest or a blob that was not read.
pub enum ImportFailure {
    MissingManifest(Seq<char>),
    MissingBlob(Seq<char>),
}

/// The artifacts an image layout holds, given the layout's index, the
/// digest of the chosen root index and that root index, the manifests the
/// layout holds and its blobs: the root index, its entry manifests by
/// digest, the manifests of the layout's index that refer to an entry
/// manifest, and the blobs of all those manifests.
pub open spec fn spec_assemble_import(
    layout: IndexView,
    root_digest: Seq<char>,
    root: IndexView,
    manifests: Seq<(Seq<char>, ImageManifestView)>,
    blobs: Seq<(Seq<char>, Seq<u8>)>,
) -> Result<ArtifactSetView, ImportFailure> {
    match import_entries(root.manifests, manifests, root.manifests.len()) {
        Err(d) => Err(ImportFailure::MissingManifest(d)),
        Ok(es) => match import_referrers(layout.manifests, root_digest, root.manifests, manifests, layout.manifests.len()) {
            Err(d) => Err(ImportFailure::MissingManifest(d)),
            Ok(rs) => {
                let ds = blobs_named(es + rs);
                match first_missing(ds, blobs) {
                    Some(d) => Err(ImportFailure::MissingBlob(d)),
                    None => Ok(
                        ArtifactSetView {
                            index: root,
                            manifests: pairs_map(es),
                            referrers: referrers_map(rs),
                            blobs: blobs_map(ds, blobs),
                        },
                    ),
                }
            },
        }
    }
}

pub open spec fn import_failure_of(e: OciError) -> Option<ImportFailure> {
    match e {
        OciError::MissingManifest(s) => Some(ImportFailure::MissingManifest(s@)),
        OciError::MissingBlob(s) => Some(ImportFailure::MissingBlob(s@)),
        _ => None,
    }
}

fn lists_digest_exec(ds: &Vec<OciDescriptor>, d: &str) -> (r: bool)
    ensures
        r == lists_digest(descriptor_views(ds@), d@),
{
    let ghost dv = descriptor_views(ds@);
    let mut i: usize = 0;
    while i < ds.len()
        invariant
            dv == descriptor_views(ds@),
            i <= ds@.len(),
            forall|j: int| 0 <= j < i ==> (#[trigger] dv[j]).digest != d@,
        decreases ds.len() - i,
    {
        if str_eq(ds[i].digest.as_str(), d) {
            assert(dv[i as int].digest == d@);
            return true;
        }
        i = i + 1;
    }
    false
}

proof fn lemma_import_entries_err(root: Seq<DescriptorView>, t: Seq<(Seq<char>, ImageManifestView)>, i: nat, n: nat)
    requires
        i <= n <= root.len(),
        import_entries(root, t, i) is Err,
    ensures
        import_entries(root, t, n) == import_entries(root, t, i),
    decreases n - i,
{
    if n > i {
        lemma_import_entries_err(root, t, i, (n - 1) as nat);
    }
}

proof fn lemma_import_referrers_err(
    layout: Seq<DescriptorView>,
    root_digest: Seq<char>,
    root: Seq<DescriptorView>,
    t: Seq<(Seq<char>, ImageManifestView)>,
    i: nat,
    n: nat,
)
    requires
        i <= n <= layout.len(),
        import_referrers(layout, root_digest, root, t, i) is Err,
    ensures
        import_referrers(layout, root_digest, root, t, n) == import_referrers(layout, root_digest, root, t, i),
    decreases n - i,
{
    if n > i {
        lemma_import_referrers_err(layout, root_digest, root, t, i, (n - 1) as nat);
    }
}

proof fn lemma_first_missing_prefix(ds: Seq<Seq<char>>, t: Seq<(Seq<char>, Seq<u8>)>, n: nat)
    requires
        n <= ds.len(),
        first_missing(ds.take(n as int), t) is Some,
    ensures
        first_missing(ds, t) == first_missing(ds.take(n as int), t),
    decreases ds.len() - n,
{
    if n < ds.len() {
        assert(ds.take((n + 1) as int).drop_last() =~= ds.take(n as int));
        lemma_first_missing_prefix(ds, t, n + 1);
    } else {
        assert(ds.take(n as int) =~= ds);
    }
}

proof fn lemma_blobs_named_push(ms: Seq<(Seq<char>, ImageManifestView)>, p: (Seq<char>, ImageManifestView))
    ensures
        blobs_named(ms.push(p)) == blobs_named(ms) + manifest_blobs(p.1),
{
    assert(ms.push(p).drop_last() =~= ms);
}

/// The digests of the blobs a manifest names.
fn manifest_blob_digests(m: &OciImageManifest, out: &mut Vec<String>)
    ensures
        final(out)@.map_values(|s: String| s@) == old(out)@.map_values(|s: String| s@) + manifest_blobs(m@),
{
    let ghost start = out@.map_values(|s: String| s@);
    out.push(m.config.digest.clone());
    let mut j: usize = 0;
    let ghost layers = m@.layers.map_values(|l: DescriptorView| l.digest);
    assert(out@.map_values(|s: String| s@) =~= start + seq![m@.config.digest] + layers.take(0));
    while j < m.layers.len()
        invariant
            j <= m.layers@.len(),
            layers == m@.layers.map_values(|l: DescriptorView| l.digest),
            layers.len() == m.layers@.len(),
            out@.map_values(|s: String| s@) == start + seq![m@.config.digest] + layers.take(j as int),
        decreases m.layers.len() - j,
    {
        let ghost before = out@.map_values(|s: String| s@);
        out.push(m.layers[j].digest.clone());
        assert(layers[j as int] == m.layers@[j as int].digest@);
        assert(out@.map_values(|s: String| s@) =~= before.push(m.layers@[j as int].digest@));
        assert(layers.take(j + 1) =~= layers.take(j as int).push(layers[j as int]));
        j = j + 1;
    }
    assert(layers.take(j as int) =~= layers);
    assert(start + seq![m@.config.digest] + layers =~= start + manifest_blobs(m@));
}

/// The artifacts an image layout holds, assembled from what was read out
/// of it: the root index chosen in the layout's index under `root_digest`,
/// its entry manifests by digest, each manifest of the layout's index that
/// refers to one of them, in the layout's order, and the blobs of all those
/// manifests. `manifests` holds the image manifests read, by digest;
/// `blobs` the blobs read, by digest. Fails on a manifest or a blob that
/// was not read.
pub fn assemble_import(
    layout_index: &OciImageIndex,
    root_digest: &str,
    root_index: OciImageIndex,
    manifests: &Vec<(String, OciImageManifest)>,
    blobs: &Vec<(String, Vec<u8>)>,
) -> (r: Result<OciArtifactSet, OciError>)
    requires
        sorted_pairs(pairs_view(root_index.annotations@)),
    ensures
        match r {
            Ok(a) => artifact_set_wf(a) && spec_assemble_import(
                layout_index@,
                root_digest@,
                root_index@,
                pairs_view(manifests@),
                pairs_view(blobs@),
            ) == Ok::<_, ImportFailure>(a@),
            Err(e) => import_failure_of(e) is Some && spec_assemble_import(
                layout_index@,
                root_digest@,
                root_index@,
                pairs_view(manifests@),
                pairs_view(blobs@),
            ) == Err::<ArtifactSetView, _>(import_failure_of(e)->Some_0),
        },
{
    let ghost mt = pairs_view(manifests@);
    let ghost bt = pairs_view(blobs@);
    let ghost root = descriptor_views(root_index.manifests@);
    let ghost layout = descriptor_views(layout_index.manifests@);
    // The entry manifests.
    let mut entry_map: Vec<(String, OciImageManifest)> = Vec::new();
    let mut kept: Vec<(String, OciImageManifest)> = Vec::new();
    proof {
        lemma_as_map_empty::<ImageManifestView>();
        assert(pairs_view(entry_map@) =~= Seq::<(Seq<char>, ImageManifestView)>::empty());
        assert(pairs_map(Seq::<(Seq<char>, ImageManifestView)>::empty()) =~= Map::<Seq<char>, ImageManifestView>::empty());
    }
    let mut i: usize = 0;
    while i < root_index.manifests.len()
        invariant
            mt == pairs_view(manifests@),
            root == descriptor_views(root_index.manifests@),
            i <= root.len(),
            root.len() == root_index.manifests@.len(),
            sorted_pairs(pairs_view(entry_map@)),
            import_entries(root, mt, i as nat) == Ok::<_, Seq<char>>(pairs_view(kept@)),
            as_map(pairs_view(entry_map@)) == pairs_map(pairs_view(kept@)),
        decreases root_index.manifests.len() - i,
    {
        let d = &root_index.manifests[i];
        assert(root[i as int] == d@);
        match find_first(manifests, d.digest.as_str()) {
            None => {
                proof {
                    lemma_import_entries_err(root, mt, (i + 1) as nat, root.len());
                }
                return Err(OciError::MissingManifest(d.digest.clone()));
            },
            Some(k) => {
                let ghost before = pairs_view(kept@);
                let m = clone_image_manifest(&manifests[k].1);
                let m2 = clone_image_manifest(&manifests[k].1);
                insert(&mut entry_map, d.digest.clone(), m);
                kept.push((d.digest.clone(), m2));
                proof {
                    assert(pairs_view(kept@) =~= before.push((d@.digest, manifests@[k as int].1@)));
                    assert(pairs_view(kept@).drop_last() =~= before);
                }
            },
        }
        i = i + 1;
    }
    let ghost es = pairs_view(kept@);
    // The referrers.
    let mut referrers: Vec<(String, Vec<OciImageManifest>)> = Vec::new();
    let mut refs: Vec<(String, OciImageManifest)> = Vec::new();
    proof {
        lemma_as_map_empty::<Seq<OciImageManifest>>();
        assert(pairs_view(referrers@) =~= Seq::<(Seq<char>, Seq<OciImageManifest>)>::empty());
        assert(referrers_view(referrers@) =~= Map::<Seq<char>, Seq<ImageManifestView>>::empty());
        assert(pairs_view(refs@) =~= Seq::<(Seq<char>, ImageManifestView)>::empty());
    }
    let mut n: usize = 0;
    while n < layout_index.manifests.len()
        invariant
            mt == pairs_view(manifests@),
            root == descriptor_views(root_index.manifests@),
            layout == descriptor_views(layout_index.manifests@),
            n <= layout.len(),
            layout.len() == layout_index.manifests@.len(),
            sorted_pairs(pairs_view(referrers@)),
            import_entries(root, mt, root.len() as nat) == Ok::<_, Seq<char>>(es),
            import_referrers(layout, root_digest@, root, mt, n as nat) == Ok::<_, Seq<char>>(pairs_view(refs@)),
            referrers_view(referrers@) == referrers_map(pairs_view(refs@)),
        decreases layout_index.manifests.len() - n,
    {
        let d = &layout_index.manifests[n];
        assert(layout[n as int] == d@);
        let may = !str_eq(d.digest.as_str(), root_digest) && !lists_digest_exec(&root_index.manifests, d.digest.as_str())
            && str_eq(d.media_type.as_str(), OCI_IMAGE_MANIFEST_MEDIA_TYPE);
        if may {
            match find_first(manifests, d.digest.as_str()) {
                None => {
                    proof {
                        lemma_import_referrers_err(layout, root_digest@, root, mt, (n + 1) as nat, layout.len());
                    }
                    return Err(OciError::MissingManifest(d.digest.clone()));
                },
                Some(k) => {
                    let m = &manifests[k].1;
                    match &m.subject {
                        Some(s) => {
                            if lists_digest_exec(&root_index.manifests, s.digest.as_str()) {
                                let ghost before = pairs_view(refs@);
                                push_referrer(&mut referrers, s.digest.clone(), clone_image_manifest(m));
                                refs.push((s.digest.clone(), clone_image_manifest(m)));
                                proof {
                                    assert(pairs_view(refs@) =~= before.push((s@.digest, m@)));
                                    assert(pairs_view(refs@).drop_last() =~= before);
                                }
                            }
                        },
                        None => {},
                    }
                },
            }
        }
        n = n + 1;
    }
    let ghost rs = pairs_view(refs@);
    // The blobs the kept manifests name.
    let mut names: Vec<String> = Vec::new();
    assert(names@.map_values(|s: String| s@) =~= blobs_named(Seq::<(Seq<char>, ImageManifestView)>::empty()));
    let mut k: usize = 0;
    while k < kept.len()
        invariant
            k <= kept@.len(),
            names@.map_values(|s: String| s@) == blobs_named(pairs_view(kept@).take(k as int)),
        decreases kept.len() - k,
    {
        manifest_blob_digests(&kept[k].1, &mut names);
        proof {
            let pv = pairs_view(kept@);
            assert(pv.take(k + 1) =~= pv.take(k as int).push(pv[k as int]));
            lemma_blobs_named_push(pv.take(k as int), pv[k as int]);
        }
        k = k + 1;
    }
    assert(pairs_view(kept@).take(k as int) =~= es);
    let mut q: usize = 0;
    while q < refs.len()
        invariant
            q <= refs@.len(),
            es == pairs_view(kept@),
            names@.map_values(|s: String| s@) == blobs_named(es + pairs_view(refs@).take(q as int)),
        decreases refs.len() - q,
    {
        manifest_blob_digests(&refs[q].1, &mut names);
        proof {
            let pv = pairs_view(refs@);
            assert(es + pv.take(q + 1) =~= (es + pv.take(q as int)).push(pv[q as int]));
            lemma_blobs_named_push(es + pv.take(q as int), pv[q as int]);
        }
        q = q + 1;
    }
    assert(pairs_view(refs@).take(q as int) =~= rs);
    let ghost ds = blobs_named(es + rs);
    assert(names@.map_values(|s: String| s@) == ds);
    let mut blob_map: Vec<(String, Vec<u8>)> = Vec::new();
    proof {
        lemma_as_map_empty::<Seq<u8>>();
        assert(pairs_view(blob_map@) =~= Seq::<(Seq<char>, Seq<u8>)>::empty());
        assert(blobs_map(ds.take(0), bt) =~= Map::<Seq<char>, Seq<u8>>::empty());
    }
    let mut b: usize = 0;
    while b < names.len()
        invariant
            bt == pairs_view(blobs@),
            mt == pairs_view(manifests@),
            root == descriptor_views(root_index.manifests@),
            layout == descriptor_views(layout_index.manifests@),
            import_entries(root, mt, root.len() as nat) == Ok::<_, Seq<char>>(es),
            import_referrers(layout, root_digest@, root, mt, layout.len() as nat) == Ok::<_, Seq<char>>(rs),
            ds == blobs_named(es + rs),
            names@.map_values(|s: String| s@) == ds,
            b <= names@.len(),
            sorted_pairs(pairs_view(blob_map@)),
            first_missing(ds.take(b as int), bt) is None,
            as_map(pairs_view(blob_map@)) == blobs_map(ds.take(b as int), bt),
        decreases names.len() - b,
    {
        assert(ds[b as int] == names@[b as int]@);
        assert(ds.take(b + 1).drop_last() =~= ds.take(b as int));
        assert(ds.take(b + 1).last() == ds[b as int]);
        match find_first(blobs, names[b].as_str()) {
            None => {
                proof {
                    lemma_first_missing_prefix(ds, bt, (b + 1) as nat);
                }
                return Err(OciError::MissingBlob(names[b].clone()));
            },
            Some(j) => {
                insert(&mut blob_map, names[b].clone(), copy_bytes(blobs[j].1.as_slice()));
                proof {
                    assert(blobs_map(ds.take(b + 1), bt) =~= blobs_map(ds.take(b as int), bt).insert(
                        ds[b as int],
                        blobs@[j as int].1@,
                    ));
                }
            },
        }
        b = b + 1;
    }
    assert(ds.take(b as int) =~= ds);
    Ok(OciArtifactSet { index: root_index, manifests: entry_map, referrers, blobs: blob_map })
}

/// The manifests an import reads, by digest: the entry manifests of the
/// root index, then each manifest of the layout's index that may refer to
/// one of them.
pub open spec fn manifests_to_read_spec(layout: Seq<DescriptorView>, root_digest: Seq<char>, root: Seq<DescriptorView>) -> Seq<Seq<char>> {
    root.map_values(|d: DescriptorView| d.digest) + layout.filter(|d: DescriptorView| may_refer(d, root_digest, root)).map_values(
        |d: DescriptorView| d.digest,
    )
}

/// The digests of the manifests an import reads.
pub fn manifests_to_read(layout_index: &OciImageIndex, root_digest: &str, root_index: &OciImageIndex) -> (r: Vec<String>)
    ensures
        r@.map_values(|s: String| s@) == manifests_to_read_spec(
            descriptor_views(layout_index.manifests@),
            root_digest@,
            descriptor_views(root_index.manifests@),
        ),
{
    let ghost root = descriptor_views(root_index.manifests@);
    let ghost layout = descriptor_views(layout_index.manifests@);
    let ghost pred = |d: DescriptorView| may_refer(d, root_digest@, root);
    let ghost dig = |d: DescriptorView| d.digest;
    let mut out: Vec<String> = Vec::new();
    let mut i: usize = 0;
    while i < root_index.manifests.len()
        invariant
            root == descriptor_views(root_index.manifests@),
            dig == (|d: DescriptorView| d.digest),
            i <= root.len(),
            root.len() == root_index.manifests@.len(),
            out@.map_values(|s: String| s@) == root.take(i as int).map_values(dig),
        decreases root_index.manifests.len() - i,
    {
        let ghost before = out@.map_values(|s: String| s@);
        out.push(root_index.manifests[i].digest.clone());
        assert(out@.map_values(|s: String| s@) =~= before.push(root[i as int].digest));
        assert(root.take(i + 1).map_values(dig) =~= root.take(i as int).map_values(dig).push(root[i as int].digest));
        i = i + 1;
    }
    assert(root.take(i as int) =~= root);
    let ghost head = out@.map_values(|s: String| s@);
    let mut n: usize = 0;
    assert(layout.take(0).filter(pred) =~= Seq::<DescriptorView>::empty());
    while n < layout_index.manifests.len()
        invariant
            root == descriptor_views(root_index.manifests@),
            layout == descriptor_views(layout_index.manifests@),
            pred == (|d: DescriptorView| may_refer(d, root_digest@, root)),
            dig == (|d: DescriptorView| d.digest),
            n <= layout.len(),
            layout.len() == layout_index.manifests@.len(),
            out@.map_values(|s: String| s@) == head + layout.take(n as int).filter(pred).map_values(dig),
        decreases layout_index.manifests.len() - n,
    {
        let d = &layout_index.manifests[n];
        assert(layout[n as int] == d@);
        proof {
            layout.take(n as int).lemma_filter_push(layout[n as int], pred);
            assert(layout.take(n as int).push(layout[n as int]) =~= layout.take(n + 1));
        }
        let may = !str_eq(d.digest.as_str(), root_digest) && !lists_digest_exec(&root_index.manifests, d.digest.as_str())
            && str_eq(d.media_type.as_str(), OCI_IMAGE_MANIFEST_MEDIA_TYPE);
        if may {
            let ghost before = out@.map_values(|s: String| s@);
            out.push(d.digest.clone());
            assert(out@.map_values(|s: String| s@) =~= before.push(d@.digest));
            assert(layout.take(n as int).filter(pred).push(d@).map_values(dig) =~= layout.take(n as int).filter(pred).map_values(
                dig,
            ).push(d@.digest));
        }
        n = n + 1;
    }
    assert(layout.take(n as int) =~= layout);
    out
}

/// The digests of the blobs a manifest names: its configuration, then its
/// layers.
pub fn blobs_of_manifest(m: &OciImageManifest) -> (r: Vec<String>)
    ensures
        r@.map_values(|s: String| s@) == manifest_blobs(m@),
{
    let mut out: Vec<String> = Vec::new();
    assert(out@.map_values(|s: String| s@) =~= Seq::<Seq<char>>::empty());
    manifest_blob_digests(m, &mut out);
    assert(Seq::<Seq<char>>::empty() + manifest_blobs(m@) =~= manifest_blobs(m@));
    out
}

} // verus!
