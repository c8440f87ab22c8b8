//! Cosign verification material attached to an entry's manifest: a
//! signature and a public key, each as a referrer of the manifest with its
//! own configuration and one layer.
use vstd::prelude::*;
use vstd::string::*;
use crate::json::{JsonMember, JsonValue, JsonView, json_view, object_view};
use crate::jsontext::to_json_bytes;
use crate::keyed::{pairs_view, sorted_pairs, text_lt};
use crate::oci::{
    ArtifactSetView, DescriptorView, ImageManifestView, OciArtifactSet, OciDescriptor, OciImageManifest,
    artifact_set_wf, bytes_descriptor, clone_descriptor, descriptor_views, json_bytes, store_blob,
    COSIGN_PUBLIC_KEY_ARTIFACT_TYPE, COSIGN_PUBLIC_KEY_CONFIG_MEDIA_TYPE, COSIGN_PUBLIC_KEY_LAYER_MEDIA_TYPE,
    COSIGN_SIGNATURE_ARTIFACT_TYPE, COSIGN_SIGNATURE_CONFIG_MEDIA_TYPE, COSIGN_SIGNATURE_LAYER_MEDIA_TYPE,
    OCI_IMAGE_MANIFEST_MEDIA_TYPE, TRUST_MANIFEST_ARTIFACT_TYPE,
};
use crate::pack::{
    OciError, annotation_key, keys_at_most, keys_below, lemma_keys_below_next, lemma_sorted_append,
    lemma_text_lt_prefix, no_annotations, push_referrer, referrers_at,
};
use crate::render::{add_string, member};
use crate::text::{lemma_seq_add_empty, str_eq};
use crate::validate::cat;
use crate::conformance::opt_or_empty;
use crate::layout::{annotation_value, annotation_value_of};
use crate::oci::manifest_list_view;
use crate::unpack::{first_trust_referrer, first_trust_referrer_exec};

verus! {

/// The configuration of a signature referrer.
pub open spec fn signature_config_json(identity: Seq<char>, payload_digest: Seq<char>) -> JsonView {
    JsonView::Object(
        member("identity"@, JsonView::Str(identity)) + member("payloadDigest"@, JsonView::Str(payload_digest))
            + member("payloadMediaType"@, JsonView::Str(TRUST_MANIFEST_ARTIFACT_TYPE@)),
    )
}

/// The configuration of a public key referrer.
pub open spec fn public_key_config_json(identity: Seq<char>, payload_digest: Seq<char>) -> JsonView {
    JsonView::Object(
        member("identity"@, JsonView::Str(identity)) + member("payloadDigest"@, JsonView::Str(payload_digest))
            + member("format"@, JsonView::Str("pem"@)),
    )
}

/// The annotations of a cosign referrer, in key order.
pub open spec fn cosign_annotations(identity: Seq<char>, payload_digest: Seq<char>, material: Seq<char>) -> Seq<
    (Seq<char>, Seq<char>),
> {
    seq![
        (annotation_key("identity"@), identity),
        (annotation_key("payloadDigest"@), payload_digest),
        (annotation_key("payloadMediaType"@), TRUST_MANIFEST_ARTIFACT_TYPE@),
        (annotation_key("verificationMaterial"@), material),
    ]
}

/// A cosign referrer of `subject`.
pub open spec fn cosign_manifest(
    subject: DescriptorView,
    artifact_type: Seq<char>,
    config: DescriptorView,
    layer: DescriptorView,
    annotations: Seq<(Seq<char>, Seq<char>)>,
) -> ImageManifestView {
    ImageManifestView {
        schema_version: 2,
        media_type: OCI_IMAGE_MANIFEST_MEDIA_TYPE@,
        artifact_type: Some(artifact_type),
        config,
        layers: seq![layer],
        subject: Some(subject),
        annotations,
    }
}

/// The position of the first descriptor with the given digest.
pub open spec fn first_with_digest(ds: Seq<DescriptorView>, digest: Seq<char>) -> Option<int>
    decreases ds.len(),
{
    if ds.len() == 0 {
        None
    } else {
        match first_with_digest(ds.drop_last(), digest) {
            Some(i) => Some(i),
            None => if ds.last().digest == digest {
                Some(ds.len() - 1)
            } else {
                None
            },
        }
    }
}

/// The artifacts with a signature and a public key attached to the entry
/// manifest that the root index lists under `subject_digest`: their
/// configurations and layers as blobs, and two referrers of that manifest,
/// the signature's first. `Err` holds the digest when the index lists no
/// such manifest.
pub open spec fn spec_attach_cosign(
    a: ArtifactSetView,
    subject_digest: Seq<char>,
    identity: Seq<char>,
    payload_digest: Seq<char>,
    signature: Seq<u8>,
    public_key: Seq<u8>,
) -> Result<ArtifactSetView, Seq<char>> {
    match first_with_digest(a.index.manifests, subject_digest) {
        None => Err(subject_digest),
        Some(i) => {
            let subject = a.index.manifests[i];
            let sc = json_bytes(signature_config_json(identity, payload_digest));
            let scd = bytes_descriptor(sc, COSIGN_SIGNATURE_CONFIG_MEDIA_TYPE@, None, no_annotations());
            let sld = bytes_descriptor(signature, COSIGN_SIGNATURE_LAYER_MEDIA_TYPE@, None, no_annotations());
            let pc = json_bytes(public_key_config_json(identity, payload_digest));
            let pcd = bytes_descriptor(pc, COSIGN_PUBLIC_KEY_CONFIG_MEDIA_TYPE@, None, no_annotations());
            let pld = bytes_descriptor(public_key, COSIGN_PUBLIC_KEY_LAYER_MEDIA_TYPE@, None, no_annotations());
            let sm = cosign_manifest(
                subject,
                COSIGN_SIGNATURE_ARTIFACT_TYPE@,
                scd,
                sld,
                cosign_annotations(identity, payload_digest, "cosign-signature"@),
            );
            let pm = cosign_manifest(
                subject,
                COSIGN_PUBLIC_KEY_ARTIFACT_TYPE@,
                pcd,
                pld,
                cosign_annotations(identity, payload_digest, "cosign-public-key"@),
            );
            Ok(
                ArtifactSetView {
                    index: a.index,
                    manifests: a.manifests,
                    referrers: a.referrers.insert(
                        subject_digest,
                        referrers_at(a.referrers, subject_digest).push(sm).push(pm),
                    ),
                    blobs: a.blobs.insert(scd.digest, sc).insert(sld.digest, signature).insert(pcd.digest, pc).insert(
                        pld.digest,
                        public_key,
                    ),
                },
            )
        },
    }
}

proof fn lemma_cosign_names_ordered()
    ensures
        text_lt(annotation_key("identity"@), annotation_key("payloadDigest"@)),
        text_lt(annotation_key("payloadDigest"@), annotation_key("payloadMediaType"@)),
        text_lt(annotation_key("payloadMediaType"@), annotation_key("verificationMaterial"@)),
{
    reveal_strlit("identity");
    reveal_strlit("payloadDigest");
    reveal_strlit("payloadMediaType");
    reveal_strlit("verificationMaterial");
    let p = "ai-catalog."@;
    lemma_text_lt_prefix(p, "identity"@, "payloadDigest"@);
    lemma_text_lt_prefix(p, "payloadDigest"@, "payloadMediaType"@);
    lemma_text_lt_prefix(p, "payloadMediaType"@, "verificationMaterial"@);
    let a = "payloadDigest"@;
    let b = "payloadMediaType"@;
    assert(text_lt(a.skip(7), b.skip(7)));
    assert(a.skip(6).drop_first() =~= a.skip(7) && b.skip(6).drop_first() =~= b.skip(7));
    assert(a.skip(5).drop_first() =~= a.skip(6) && b.skip(5).drop_first() =~= b.skip(6));
    assert(a.skip(4).drop_first() =~= a.skip(5) && b.skip(4).drop_first() =~= b.skip(5));
    assert(a.skip(3).drop_first() =~= a.skip(4) && b.skip(3).drop_first() =~= b.skip(4));
    assert(a.skip(2).drop_first() =~= a.skip(3) && b.skip(2).drop_first() =~= b.skip(3));
    assert(a.skip(1).drop_first() =~= a.skip(2) && b.skip(1).drop_first() =~= b.skip(2));
    assert(a.drop_first() =~= a.skip(1) && b.drop_first() =~= b.skip(1));
    assert(text_lt(a.skip(6), b.skip(6)));
    assert(text_lt(a.skip(5), b.skip(5)));
    assert(text_lt(a.skip(4), b.skip(4)));
    assert(text_lt(a.skip(3), b.skip(3)));
    assert(text_lt(a.skip(2), b.skip(2)));
    assert(text_lt(a.skip(1), b.skip(1)));
    assert(text_lt(a, b));
}

/// The annotations of a cosign referrer.
fn cosign_annotations_of(identity: &str, payload_digest: &str, material: &str) -> (r: Vec<(String, String)>)
    ensures
        pairs_view(r@) == cosign_annotations(identity@, payload_digest@, material@),
        sorted_pairs(pairs_view(r@)),
{
    proof {
        lemma_cosign_names_ordered();
    }
    let ghost k1 = annotation_key("identity"@);
    let ghost k2 = annotation_key("payloadDigest"@);
    let ghost k3 = annotation_key("payloadMediaType"@);
    let ghost k4 = annotation_key("verificationMaterial"@);
    let mut out: Vec<(String, String)> = Vec::new();
    out.push((cat("ai-catalog.", "identity"), String::from_str(identity)));
    let ghost s1 = pairs_view(out@);
    proof {
        lemma_sorted_append(Seq::<(Seq<char>, Seq<char>)>::empty(), s1, k1);
        assert(Seq::<(Seq<char>, Seq<char>)>::empty() + s1 =~= s1);
        lemma_keys_below_next(s1, k1, k2);
    }
    out.push((cat("ai-catalog.", "payloadDigest"), String::from_str(payload_digest)));
    let ghost s2 = pairs_view(out@);
    proof {
        assert(s2 =~= s1 + seq![(k2, payload_digest@)]);
        lemma_sorted_append(s1, seq![(k2, payload_digest@)], k2);
        lemma_keys_below_next(s2, k2, k3);
    }
    out.push((cat("ai-catalog.", "payloadMediaType"), String::from_str(TRUST_MANIFEST_ARTIFACT_TYPE)));
    let ghost s3 = pairs_view(out@);
    proof {
        assert(s3 =~= s2 + seq![(k3, TRUST_MANIFEST_ARTIFACT_TYPE@)]);
        lemma_sorted_append(s2, seq![(k3, TRUST_MANIFEST_ARTIFACT_TYPE@)], k3);
        lemma_keys_below_next(s3, k3, k4);
    }
    out.push((cat("ai-catalog.", "verificationMaterial"), String::from_str(material)));
    proof {
        assert(pairs_view(out@) =~= s3 + seq![(k4, material@)]);
        lemma_sorted_append(s3, seq![(k4, material@)], k4);
        assert(pairs_view(out@) =~= cosign_annotations(identity@, payload_digest@, material@));
    }
    out
}

fn config_to_json(identity: &str, payload_digest: &str, last_key: &str, last_value: &str) -> (r: JsonValue)
    ensures
        r matches JsonValue::Object(ms) && object_view(ms@) == member("identity"@, JsonView::Str(identity@))
            + member("payloadDigest"@, JsonView::Str(payload_digest@)) + member(last_key@, JsonView::Str(last_value@)),
{
    let mut out: Vec<JsonMember> = Vec::new();
    assert(object_view(out@) =~= Seq::<(Seq<char>, JsonView)>::empty());
    add_string(&mut out, "identity", &String::from_str(identity));
    proof {
        lemma_seq_add_empty(member("identity"@, JsonView::Str(identity@)));
    }
    add_string(&mut out, "payloadDigest", &String::from_str(payload_digest));
    add_string(&mut out, last_key, &String::from_str(last_value));
    JsonValue::Object(out)
}

/// The position of the first descriptor with the given digest.
fn find_descriptor(ds: &Vec<OciDescriptor>, digest: &str) -> (r: Option<usize>)
    ensures
        crate::text::opt_int(r) == first_with_digest(descriptor_views(ds@), digest@),
        r matches Some(i) ==> i < ds@.len(),
{
    let ghost dv = descriptor_views(ds@);
    let mut i: usize = 0;
    while i < ds.len()
        invariant
            dv == descriptor_views(ds@),
            i <= ds@.len(),
            first_with_digest(dv.take(i as int), digest@) is None,
        decreases ds.len() - i,
    {
        assert(dv.take(i + 1).drop_last() =~= dv.take(i as int));
        if str_eq(ds[i].digest.as_str(), digest) {
            proof {
                lemma_first_with_digest_prefix(dv, (i + 1) as nat, digest@);
            }
            return Some(i);
        }
        i = i + 1;
    }
    assert(dv.take(i as int) =~= dv);
    None
}

proof fn lemma_first_with_digest_prefix(ds: Seq<DescriptorView>, n: nat, digest: Seq<char>)
    requires
        n <= ds.len(),
        first_with_digest(ds.take(n as int), digest) is Some,
    ensures
        first_with_digest(ds, digest) == first_with_digest(ds.take(n as int), digest),
    decreases ds.len() - n,
{
    if n < ds.len() {
        assert(ds.take((n + 1) as int).drop_last() =~= ds.take(n as int));
        lemma_first_with_digest_prefix(ds, n + 1, digest);
    } else {
        assert(ds.take(n as int) =~= ds);
    }
}

/// Attaches cosign verification material to the entry manifest that the
/// root index lists under `subject_digest`: the signature and the public
/// key, each with a configuration naming the identity and payload digest,
/// stored as blobs and added as two referrers of that manifest, the
/// signature's first. Fails, changing nothing, when the index lists no
/// manifest with that digest.
pub fn attach_cosign_verification_artifacts(
    artifacts: &mut OciArtifactSet,
    subject_digest: &str,
    identity: &str,
    payload_digest: &str,
    signature: &[u8],
    public_key: &[u8],
) -> (r: Result<(), OciError>)
    requires
        artifact_set_wf(*old(artifacts)),
    ensures
        artifact_set_wf(*final(artifacts)),
        match (r, spec_attach_cosign(old(artifacts)@, subject_digest@, identity@, payload_digest@, signature@, public_key@)) {
            (Ok(()), Ok(v)) => final(artifacts)@ == v,
            (Err(OciError::MissingSubjectDescriptor(s)), Err(d)) => s@ == d && *final(artifacts) == *old(artifacts),
            _ => false,
        },
{
    let found = find_descriptor(&artifacts.index.manifests, subject_digest);
    let i = match found {
        Some(i) => i,
        None => {
            return Err(OciError::MissingSubjectDescriptor(String::from_str(subject_digest)));
        },
    };
    let ghost a0 = artifacts@;
    let subject = clone_descriptor(&artifacts.index.manifests[i]);
    let ghost empty_pairs = Seq::<(String, String)>::empty();
    assert(pairs_view(empty_pairs) =~= no_annotations());
    assert(descriptor_views(Seq::<OciDescriptor>::empty().push(subject)) =~= seq![subject@]);
    let scj = config_to_json(identity, payload_digest, "payloadMediaType", TRUST_MANIFEST_ARTIFACT_TYPE);
    assert(json_view(scj) == signature_config_json(identity@, payload_digest@));
    let sc = to_json_bytes(&scj);
    let scd = store_blob(&mut artifacts.blobs, sc.as_slice(), COSIGN_SIGNATURE_CONFIG_MEDIA_TYPE, None, Vec::new());
    let sld = store_blob(&mut artifacts.blobs, signature, COSIGN_SIGNATURE_LAYER_MEDIA_TYPE, None, Vec::new());
    let mut slayers: Vec<OciDescriptor> = Vec::new();
    slayers.push(sld);
    let sm = OciImageManifest {
        schema_version: 2,
        media_type: String::from_str(OCI_IMAGE_MANIFEST_MEDIA_TYPE),
        artifact_type: Some(String::from_str(COSIGN_SIGNATURE_ARTIFACT_TYPE)),
        config: scd,
        layers: slayers,
        subject: Some(clone_descriptor(&subject)),
        annotations: cosign_annotations_of(identity, payload_digest, "cosign-signature"),
    };
    let pcj = config_to_json(identity, payload_digest, "format", "pem");
    assert(json_view(pcj) == public_key_config_json(identity@, payload_digest@));
    let pc = to_json_bytes(&pcj);
    let pcd = store_blob(&mut artifacts.blobs, pc.as_slice(), COSIGN_PUBLIC_KEY_CONFIG_MEDIA_TYPE, None, Vec::new());
    let pld = store_blob(&mut artifacts.blobs, public_key, COSIGN_PUBLIC_KEY_LAYER_MEDIA_TYPE, None, Vec::new());
    let mut players: Vec<OciDescriptor> = Vec::new();
    players.push(pld);
    let pm = OciImageManifest {
        schema_version: 2,
        media_type: String::from_str(OCI_IMAGE_MANIFEST_MEDIA_TYPE),
        artifact_type: Some(String::from_str(COSIGN_PUBLIC_KEY_ARTIFACT_TYPE)),
        config: pcd,
        layers: players,
        subject: Some(subject),
        annotations: cosign_annotations_of(identity, payload_digest, "cosign-public-key"),
    };
    let ghost smv = sm@;
    let ghost pmv = pm@;
    proof {
        let sc_v = json_bytes(signature_config_json(identity@, payload_digest@));
        let pc_v = json_bytes(public_key_config_json(identity@, payload_digest@));
        assert(sc@ == sc_v);
        assert(smv.layers =~= seq![bytes_descriptor(signature@, COSIGN_SIGNATURE_LAYER_MEDIA_TYPE@, None, no_annotations())]);
        assert(pmv.layers =~= seq![bytes_descriptor(public_key@, COSIGN_PUBLIC_KEY_LAYER_MEDIA_TYPE@, None, no_annotations())]);
        assert(smv == cosign_manifest(
            a0.index.manifests[i as int],
            COSIGN_SIGNATURE_ARTIFACT_TYPE@,
            bytes_descriptor(sc_v, COSIGN_SIGNATURE_CONFIG_MEDIA_TYPE@, None, no_annotations()),
            bytes_descriptor(signature@, COSIGN_SIGNATURE_LAYER_MEDIA_TYPE@, None, no_annotations()),
            cosign_annotations(identity@, payload_digest@, "cosign-signature"@),
        ));
        assert(pmv == cosign_manifest(
            a0.index.manifests[i as int],
            COSIGN_PUBLIC_KEY_ARTIFACT_TYPE@,
            bytes_descriptor(pc_v, COSIGN_PUBLIC_KEY_CONFIG_MEDIA_TYPE@, None, no_annotations()),
            bytes_descriptor(public_key@, COSIGN_PUBLIC_KEY_LAYER_MEDIA_TYPE@, None, no_annotations()),
            cosign_annotations(identity@, payload_digest@, "cosign-public-key"@),
        ));
    }
    push_referrer(&mut artifacts.referrers, String::from_str(subject_digest), sm);
    push_referrer(&mut artifacts.referrers, String::from_str(subject_digest), pm);
    proof {
        let v = spec_attach_cosign(a0, subject_digest@, identity@, payload_digest@, signature@, public_key@)->Ok_0;
        assert(subject@ == a0.index.manifests[i as int]);
        assert(artifacts@.index == v.index);
        assert(artifacts@.manifests == v.manifests);
        assert(artifacts@.blobs == v.blobs);
        let k = subject_digest@;
        let r0 = a0.referrers;
        let r1 = r0.insert(k, referrers_at(r0, k).push(smv));
        assert(referrers_at(r1, k) == referrers_at(r0, k).push(smv));
        assert(r1.insert(k, referrers_at(r1, k).push(pmv)) =~= r0.insert(k, referrers_at(r0, k).push(smv).push(pmv)));
        assert(artifacts@.referrers == v.referrers);
    }
    Ok(())
}


/// What signing the trust manifest held under `k` asks for, given the
/// referrers held there: the manifest digest it refers to, the identity its
/// referrer names, and the digest of the trust manifest's blob; nothing
/// when no referrer there carries a trust manifest.
pub open spec fn signing_request(k: Seq<char>, rs: Seq<ImageManifestView>) -> Option<(Seq<char>, Seq<char>, Seq<char>)> {
    match first_trust_referrer(rs) {
        Some(m) => Some(
            (k, opt_or_empty(annotation_value(m.annotations, annotation_key("identity"@))), m.config.digest),
        ),
        None => None,
    }
}

/// The signing requests of the referrer lists, in their order.
pub open spec fn signing_requests(rs: Seq<(String, Vec<OciImageManifest>)>) -> Seq<(Seq<char>, Seq<char>, Seq<char>)>
    decreases rs.len(),
{
    if rs.len() == 0 {
        Seq::empty()
    } else {
        signing_requests(rs.drop_last()) + match signing_request(rs.last().0@, manifest_list_view(rs.last().1@)) {
            Some(q) => seq![q],
            None => Seq::empty(),
        }
    }
}

/// Each trust manifest the artifacts carry, as what signing it asks for:
/// the digest of the entry manifest it refers to, its identity, and the
/// digest of its blob, in the order of the referrer lists.
pub fn trust_signing_requests(artifacts: &OciArtifactSet) -> (r: Vec<(String, String, String)>)
    ensures
        r@.map_values(|q: (String, String, String)| (q.0@, q.1@, q.2@)) == signing_requests(artifacts.referrers@),
{
    let mut out: Vec<(String, String, String)> = Vec::new();
    let ghost rs = artifacts.referrers@;
    let mut i: usize = 0;
    assert(rs.take(0) =~= Seq::<(String, Vec<OciImageManifest>)>::empty());
    assert(out@.map_values(|q: (String, String, String)| (q.0@, q.1@, q.2@)) =~= signing_requests(rs.take(0)));
    while i < artifacts.referrers.len()
        invariant
            rs == artifacts.referrers@,
            i <= rs.len(),
            out@.map_values(|q: (String, String, String)| (q.0@, q.1@, q.2@)) == signing_requests(rs.take(i as int)),
        decreases artifacts.referrers.len() - i,
    {
        let ghost before = out@.map_values(|q: (String, String, String)| (q.0@, q.1@, q.2@));
        assert(rs.take(i + 1).drop_last() =~= rs.take(i as int));
        assert(rs.take(i + 1).last() == rs[i as int]);
        let (k, list) = (&artifacts.referrers[i].0, &artifacts.referrers[i].1);
        match first_trust_referrer_exec(list) {
            Some(j) => {
                let m = &list[j];
                let identity = match annotation_value_of(&m.annotations, "ai-catalog.identity") {
                    Some(v) => v,
                    None => String::new(),
                };
                proof {
                    reveal_strlit("ai-catalog.identity");
                    reveal_strlit("ai-catalog.");
                    reveal_strlit("identity");
                    assert("ai-catalog.identity"@ =~= annotation_key("identity"@));
                }
                out.push((k.clone(), identity, m.config.digest.clone()));
                assert(out@.map_values(|q: (String, String, String)| (q.0@, q.1@, q.2@)) =~= before + seq![
                    (k@, opt_or_empty(annotation_value(list@[j as int]@.annotations, annotation_key("identity"@))),
                    list@[j as int]@.config.digest)]);
            },
            None => {
                assert(out@.map_values(|q: (String, String, String)| (q.0@, q.1@, q.2@)) =~= before + Seq::empty());
            },
        }
        i = i + 1;
    }
    assert(rs.take(rs.len() as int) =~= rs);
    out
}

} // verus!
