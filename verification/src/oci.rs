//! OCI artifacts for catalogs: descriptors, image manifests and indexes,
//! and the content-addressed set of them a catalog is packed into.
use vstd::prelude::*;
use vstd::string::*;
use vstd::utf8::encode_utf8;
use crate::digest::{hex_lower, sha256_of};
use crate::json::{JsonMember, JsonValue, JsonView, json_view, lemma_array_view, lemma_object_view, array_view, object_view};
use crate::jsontext::{json_text, to_json_bytes};
use crate::keyed::{as_map, insert, pairs_view, sorted_pairs};
use crate::render::{Members, add_member, add_opt_string, list_member, member, opt_json_member, opt_string_member};
use crate::text::{decimal, lemma_seq_add_empty, opt_view, u64_to_string};

verus! {

pub open spec fn oci_image_index_media_type() -> Seq<char> {
    "application/vnd.oci.image.index.v1+json"@
}

pub open spec fn oci_image_manifest_media_type() -> Seq<char> {
    "application/vnd.oci.image.manifest.v1+json"@
}

pub const OCI_IMAGE_INDEX_MEDIA_TYPE: &'static str = "application/vnd.oci.image.index.v1+json";
pub const OCI_IMAGE_MANIFEST_MEDIA_TYPE: &'static str = "application/vnd.oci.image.manifest.v1+json";
pub const AI_CATALOG_MEDIA_TYPE: &'static str = "application/ai-catalog+json";
pub const ENTRY_CONFIG_MEDIA_TYPE: &'static str = "application/vnd.ai-catalog.entry.config.v1+json";
pub const OCI_LAYOUT_VERSION: &'static str = "1.0.0";
pub const OCI_REF_NAME_ANNOTATION: &'static str = "org.opencontainers.image.ref.name";
pub const TRUST_MANIFEST_ARTIFACT_TYPE: &'static str = "application/vnd.ai-catalog.trust-manifest.v1+json";
pub const TRUST_MANIFEST_CONFIG_MEDIA_TYPE: &'static str = "application/vnd.ai-catalog.trust-manifest.config.v1+json";
pub const COSIGN_SIGNATURE_ARTIFACT_TYPE: &'static str = "application/vnd.ai-catalog.cosign.signature.v1";
pub const COSIGN_SIGNATURE_CONFIG_MEDIA_TYPE: &'static str = "application/vnd.ai-catalog.cosign.signature.config.v1+json";
pub const COSIGN_SIGNATURE_LAYER_MEDIA_TYPE: &'static str = "application/vnd.dev.sigstore.cosign.signature";
pub const COSIGN_PUBLIC_KEY_ARTIFACT_TYPE: &'static str = "application/vnd.ai-catalog.cosign.public-key.v1";
pub const COSIGN_PUBLIC_KEY_CONFIG_MEDIA_TYPE: &'static str = "application/vnd.ai-catalog.cosign.public-key.config.v1+json";
pub const COSIGN_PUBLIC_KEY_LAYER_MEDIA_TYPE: &'static str = "application/vnd.dev.sigstore.cosign.public-key";

/// A reference to content by digest: its media type, digest and size.
pub struct OciDescriptor {
    pub media_type: String,
    pub digest: String,
    pub size: u64,
    pub artifact_type: Option<String>,
    /// In increasing key order.
    pub annotations: Vec<(String, String)>,
}

/// An OCI image index.
pub struct OciImageIndex {
    pub schema_version: u32,
    pub media_type: String,
    pub artifact_type: Option<String>,
    pub manifests: Vec<OciDescriptor>,
    /// In increasing key order.
    pub annotations: Vec<(String, String)>,
}

/// An OCI image manifest.
pub struct OciImageManifest {
    pub schema_version: u32,
    pub media_type: String,
    pub artifact_type: Option<String>,
    pub config: OciDescriptor,
    pub layers: Vec<OciDescriptor>,
    pub subject: Option<OciDescriptor>,
    /// In increasing key order.
    pub annotations: Vec<(String, String)>,
}

/// A catalog as OCI artifacts: the root index, the entry manifests and the
/// referrers of each by digest, and the blobs by digest; each map in
/// increasing key order.
pub struct OciArtifactSet {
    pub index: OciImageIndex,
    pub manifests: Vec<(String, OciImageManifest)>,
    pub referrers: Vec<(String, Vec<OciImageManifest>)>,
    pub blobs: Vec<(String, Vec<u8>)>,
}

pub struct DescriptorView {
    pub media_type: Seq<char>,
    pub digest: Seq<char>,
    pub size: u64,
    pub artifact_type: Option<Seq<char>>,
    pub annotations: Seq<(Seq<char>, Seq<char>)>,
}

impl View for OciDescriptor {
    type V = DescriptorView;

    open spec fn view(&self) -> DescriptorView {
        DescriptorView {
            media_type: self.media_type@,
            digest: self.digest@,
            size: self.size,
            artifact_type: opt_view(self.artifact_type),
            annotations: pairs_view(self.annotations@),
        }
    }
}

pub open spec fn descriptor_views(v: Seq<OciDescriptor>) -> Seq<DescriptorView> {
    v.map_values(|d: OciDescriptor| d@)
}

pub open spec fn opt_descriptor_view(o: Option<OciDescriptor>) -> Option<DescriptorView> {
    match o {
        Some(d) => Some(d@),
        None => None,
    }
}

pub struct ImageManifestView {
    pub schema_version: u32,
    pub media_type: Seq<char>,
    pub artifact_type: Option<Seq<char>>,
    pub config: DescriptorView,
    pub layers: Seq<DescriptorView>,
    pub subject: Option<DescriptorView>,
    pub annotations: Seq<(Seq<char>, Seq<char>)>,
}

impl View for OciImageManifest {
    type V = ImageManifestView;

    open spec fn view(&self) -> ImageManifestView {
        ImageManifestView {
            schema_version: self.schema_version,
            media_type: self.media_type@,
            artifact_type: opt_view(self.artifact_type),
            config: self.config@,
            layers: descriptor_views(self.layers@),
            subject: opt_descriptor_view(self.subject),
            annotations: pairs_view(self.annotations@),
        }
    }
}

pub struct IndexView {
    pub schema_version: u32,
    pub media_type: Seq<char>,
    pub artifact_type: Option<Seq<char>>,
    pub manifests: Seq<DescriptorView>,
    pub annotations: Seq<(Seq<char>, Seq<char>)>,
}

impl View for OciImageIndex {
    type V = IndexView;

    open spec fn view(&self) -> IndexView {
        IndexView {
            schema_version: self.schema_version,
            media_type: self.media_type@,
            artifact_type: opt_view(self.artifact_type),
            manifests: descriptor_views(self.manifests@),
            annotations: pairs_view(self.annotations@),
        }
    }
}

pub open spec fn manifest_list_view(v: Seq<OciImageManifest>) -> Seq<ImageManifestView> {
    v.map_values(|m: OciImageManifest| m@)
}

/// The referrers, each list seen by the views of its manifests.
pub open spec fn referrers_view(v: Seq<(String, Vec<OciImageManifest>)>) -> Map<Seq<char>, Seq<ImageManifestView>> {
    as_map(pairs_view(v)).map_values(|l: Seq<OciImageManifest>| manifest_list_view(l))
}

pub struct ArtifactSetView {
    pub index: IndexView,
    pub manifests: Map<Seq<char>, ImageManifestView>,
    pub referrers: Map<Seq<char>, Seq<ImageManifestView>>,
    pub blobs: Map<Seq<char>, Seq<u8>>,
}

impl View for OciArtifactSet {
    type V = ArtifactSetView;

    open spec fn view(&self) -> ArtifactSetView {
        ArtifactSetView {
            index: self.index@,
            manifests: as_map(pairs_view(self.manifests@)),
            referrers: referrers_view(self.referrers@),
            blobs: as_map(pairs_view(self.blobs@)),
        }
    }
}

/// Every map of the set holds its keys in increasing order.
pub open spec fn artifact_set_wf(a: OciArtifactSet) -> bool {
    &&& sorted_pairs(pairs_view(a.index.annotations@))
    &&& sorted_pairs(pairs_view(a.manifests@))
    &&& sorted_pairs(pairs_view(a.referrers@))
    &&& sorted_pairs(pairs_view(a.blobs@))
}

/// The JSON object of a map of strings.
pub open spec fn string_map_json(a: Seq<(Seq<char>, Seq<char>)>) -> JsonView {
    JsonView::Object(a.map_values(|p: (Seq<char>, Seq<char>)| (p.0, JsonView::Str(p.1))))
}

/// An annotations member, left out when there are none.
pub open spec fn annotations_member(a: Seq<(Seq<char>, Seq<char>)>) -> Members {
    if a.len() == 0 {
        Seq::empty()
    } else {
        member("annotations"@, string_map_json(a))
    }
}

pub open spec fn descriptor_json(d: DescriptorView) -> JsonView {
    JsonView::Object(
        member("mediaType"@, JsonView::Str(d.media_type)) + member("digest"@, JsonView::Str(d.digest))
            + member("size"@, JsonView::Number(decimal(d.size as nat))) + opt_string_member(
            "artifactType"@,
            d.artifact_type,
        ) + annotations_member(d.annotations),
    )
}

pub open spec fn descriptor_writer() -> spec_fn(DescriptorView) -> JsonView {
    |d: DescriptorView| descriptor_json(d)
}

/// An image manifest as JSON, as the OCI format lays it out.
pub open spec fn image_manifest_json(m: ImageManifestView) -> JsonView {
    JsonView::Object(
        member("schemaVersion"@, JsonView::Number(decimal(m.schema_version as nat))) + member(
            "mediaType"@,
            JsonView::Str(m.media_type),
        ) + opt_string_member("artifactType"@, m.artifact_type) + member(
            "config"@,
            descriptor_json(m.config),
        ) + list_member("layers"@, m.layers.map_values(descriptor_writer())) + opt_json_member(
            "subject"@,
            match m.subject {
                Some(d) => Some(descriptor_json(d)),
                None => None,
            },
        ) + annotations_member(m.annotations),
    )
}

/// An image index as JSON, as the OCI format lays it out.
pub open spec fn index_json(ix: IndexView) -> JsonView {
    JsonView::Object(
        member("schemaVersion"@, JsonView::Number(decimal(ix.schema_version as nat))) + member(
            "mediaType"@,
            JsonView::Str(ix.media_type),
        ) + opt_string_member("artifactType"@, ix.artifact_type) + member(
            "manifests"@,
            JsonView::Array(ix.manifests.map_values(descriptor_writer())),
        ) + annotations_member(ix.annotations),
    )
}

/// The bytes of a value's compact JSON text.
pub open spec fn json_bytes(v: JsonView) -> Seq<u8> {
    encode_utf8(json_text(v))
}

/// The digest of some bytes: `sha256:` and the lowercase hex SHA-256.
pub open spec fn sha256_digest_text(bytes: Seq<u8>) -> Seq<char> {
    "sha256:"@ + hex_lower(sha256_of(bytes))
}

/// The descriptor of some bytes.
pub open spec fn bytes_descriptor(
    bytes: Seq<u8>,
    media_type: Seq<char>,
    artifact_type: Option<Seq<char>>,
    annotations: Seq<(Seq<char>, Seq<char>)>,
) -> DescriptorView {
    DescriptorView {
        media_type,
        digest: sha256_digest_text(bytes),
        size: bytes.len() as u64,
        artifact_type,
        annotations,
    }
}

pub fn clone_pairs(v: &Vec<(String, String)>) -> (r: Vec<(String, String)>)
    ensures
        pairs_view(r@) == pairs_view(v@),
{
    let mut out: Vec<(String, String)> = Vec::new();
    let mut i: usize = 0;
    while i < v.len()
        invariant
            i <= v@.len(),
            out@.len() == i,
            forall|k: int| 0 <= k < i ==> (#[trigger] out@[k]).0@ == v@[k].0@ && out@[k].1@ == v@[k].1@,
        decreases v.len() - i,
    {
        out.push((v[i].0.clone(), v[i].1.clone()));
        i = i + 1;
    }
    assert(pairs_view(out@) =~= pairs_view(v@));
    out
}

pub fn clone_descriptor(d: &OciDescriptor) -> (r: OciDescriptor)
    ensures
        r@ == d@,
{
    let artifact_type = match &d.artifact_type {
        Some(a) => Some(a.clone()),
        None => None,
    };
    OciDescriptor {
        media_type: d.media_type.clone(),
        digest: d.digest.clone(),
        size: d.size,
        artifact_type,
        annotations: clone_pairs(&d.annotations),
    }
}

fn clone_descriptors(v: &Vec<OciDescriptor>) -> (r: Vec<OciDescriptor>)
    ensures
        descriptor_views(r@) == descriptor_views(v@),
{
    let mut out: Vec<OciDescriptor> = Vec::new();
    let mut i: usize = 0;
    while i < v.len()
        invariant
            i <= v@.len(),
            out@.len() == i,
            forall|k: int| 0 <= k < i ==> (#[trigger] out@[k])@ == v@[k]@,
        decreases v.len() - i,
    {
        out.push(clone_descriptor(&v[i]));
        i = i + 1;
    }
    assert(descriptor_views(out@) =~= descriptor_views(v@));
    out
}

pub fn clone_image_manifest(m: &OciImageManifest) -> (r: OciImageManifest)
    ensures
        r@ == m@,
{
    let artifact_type = match &m.artifact_type {
        Some(a) => Some(a.clone()),
        None => None,
    };
    let subject = match &m.subject {
        Some(d) => Some(clone_descriptor(d)),
        None => None,
    };
    OciImageManifest {
        schema_version: m.schema_version,
        media_type: m.media_type.clone(),
        artifact_type,
        config: clone_descriptor(&m.config),
        layers: clone_descriptors(&m.layers),
        subject,
        annotations: clone_pairs(&m.annotations),
    }
}

pub fn clone_manifest_list(v: &Vec<OciImageManifest>) -> (r: Vec<OciImageManifest>)
    ensures
        manifest_list_view(r@) == manifest_list_view(v@),
{
    let mut out: Vec<OciImageManifest> = Vec::new();
    let mut i: usize = 0;
    while i < v.len()
        invariant
            i <= v@.len(),
            out@.len() == i,
            forall|k: int| 0 <= k < i ==> (#[trigger] out@[k])@ == v@[k]@,
        decreases v.len() - i,
    {
        out.push(clone_image_manifest(&v[i]));
        i = i + 1;
    }
    assert(manifest_list_view(out@) =~= manifest_list_view(v@));
    out
}

fn string_map_to_json(a: &Vec<(String, String)>) -> (r: JsonValue)
    ensures
        json_view(r) == string_map_json(pairs_view(a@)),
{
    let mut out: Vec<JsonMember> = Vec::new();
    let mut i: usize = 0;
    while i < a.len()
        invariant
            i <= a@.len(),
            out@.len() == i,
            forall|k: int| 0 <= k < i ==> (#[trigger] out@[k]).key@ == a@[k].0@ && json_view(out@[k].value) == JsonView::Str(a@[k].1@),
        decreases a.len() - i,
    {
        out.push(JsonMember { key: a[i].0.clone(), value: JsonValue::Str(a[i].1.clone()) });
        i = i + 1;
    }
    proof {
        lemma_object_view(out@);
        assert(object_view(out@) =~= pairs_view(a@).map_values(|p: (Seq<char>, Seq<char>)| (p.0, JsonView::Str(p.1))));
    }
    JsonValue::Object(out)
}

fn add_annotations(out: &mut Vec<JsonMember>, a: &Vec<(String, String)>)
    ensures
        object_view(final(out)@) == object_view(old(out)@) + annotations_member(pairs_view(a@)),
{
    if a.len() == 0 {
        proof {
            lemma_seq_add_empty(object_view(out@));
        }
    } else {
        let v = string_map_to_json(a);
        add_member(out, "annotations", v);
    }
}

/// A descriptor as JSON.
pub fn descriptor_to_json(d: &OciDescriptor) -> (r: JsonValue)
    ensures
        json_view(r) == descriptor_json(d@),
{
    let mut out: Vec<JsonMember> = Vec::new();
    assert(object_view(out@) =~= Seq::<(Seq<char>, JsonView)>::empty());
    add_member(&mut out, "mediaType", JsonValue::Str(d.media_type.clone()));
    proof {
        lemma_seq_add_empty(member("mediaType"@, JsonView::Str(d@.media_type)));
    }
    add_member(&mut out, "digest", JsonValue::Str(d.digest.clone()));
    add_member(&mut out, "size", JsonValue::Number(u64_to_string(d.size)));
    add_opt_string(&mut out, "artifactType", &d.artifact_type);
    add_annotations(&mut out, &d.annotations);
    JsonValue::Object(out)
}

/// An image manifest as JSON.
pub fn image_manifest_to_json(m: &OciImageManifest) -> (r: JsonValue)
    ensures
        json_view(r) == image_manifest_json(m@),
{
    let mut out: Vec<JsonMember> = Vec::new();
    assert(object_view(out@) =~= Seq::<(Seq<char>, JsonView)>::empty());
    add_member(&mut out, "schemaVersion", JsonValue::Number(u64_to_string(m.schema_version as u64)));
    proof {
        lemma_seq_add_empty(member("schemaVersion"@, JsonView::Number(decimal(m.schema_version as nat))));
    }
    add_member(&mut out, "mediaType", JsonValue::Str(m.media_type.clone()));
    add_opt_string(&mut out, "artifactType", &m.artifact_type);
    add_member(&mut out, "config", descriptor_to_json(&m.config));
    let mut layers: Vec<JsonValue> = Vec::new();
    let mut i: usize = 0;
    while i < m.layers.len()
        invariant
            i <= m.layers@.len(),
            layers@.len() == i,
            forall|k: int| 0 <= k < i ==> json_view(#[trigger] layers@[k]) == descriptor_json(m.layers@[k]@),
        decreases m.layers.len() - i,
    {
        layers.push(descriptor_to_json(&m.layers[i]));
        i = i + 1;
    }
    proof {
        lemma_array_view(layers@);
        assert(array_view(layers@) =~= m@.layers.map_values(descriptor_writer()));
    }
    if layers.len() == 0 {
        proof {
            lemma_seq_add_empty(object_view(out@));
        }
    } else {
        add_member(&mut out, "layers", JsonValue::Array(layers));
    }
    match &m.subject {
        Some(d) => add_member(&mut out, "subject", descriptor_to_json(d)),
        None => {
            proof {
                lemma_seq_add_empty(object_view(out@));
            }
        },
    }
    add_annotations(&mut out, &m.annotations);
    JsonValue::Object(out)
}

/// An image index as JSON.
pub fn index_to_json(ix: &OciImageIndex) -> (r: JsonValue)
    ensures
        json_view(r) == index_json(ix@),
{
    let mut out: Vec<JsonMember> = Vec::new();
    assert(object_view(out@) =~= Seq::<(Seq<char>, JsonView)>::empty());
    add_member(&mut out, "schemaVersion", JsonValue::Number(u64_to_string(ix.schema_version as u64)));
    proof {
        lemma_seq_add_empty(member("schemaVersion"@, JsonView::Number(decimal(ix.schema_version as nat))));
    }
    add_member(&mut out, "mediaType", JsonValue::Str(ix.media_type.clone()));
    add_opt_string(&mut out, "artifactType", &ix.artifact_type);
    let mut items: Vec<JsonValue> = Vec::new();
    let mut i: usize = 0;
    while i < ix.manifests.len()
        invariant
            i <= ix.manifests@.len(),
            items@.len() == i,
            forall|k: int| 0 <= k < i ==> json_view(#[trigger] items@[k]) == descriptor_json(ix.manifests@[k]@),
        decreases ix.manifests.len() - i,
    {
        items.push(descriptor_to_json(&ix.manifests[i]));
        i = i + 1;
    }
    proof {
        lemma_array_view(items@);
        assert(array_view(items@) =~= ix@.manifests.map_values(descriptor_writer()));
    }
    add_member(&mut out, "manifests", JsonValue::Array(items));
    add_annotations(&mut out, &ix.annotations);
    JsonValue::Object(out)
}

/// The digest text of some bytes.
pub fn sha256_digest_of(bytes: &[u8]) -> (r: String)
    ensures
        r@ == sha256_digest_text(bytes@),
{
    let hash = crate::digest::sha256_digest(bytes);
    let hex = crate::digest::digest_hex(hash.as_slice());
    crate::validate::cat("sha256:", hex.as_str())
}

/// The descriptor of some bytes.
pub fn descriptor_for_bytes(
    bytes: &[u8],
    media_type: &str,
    artifact_type: Option<String>,
    annotations: Vec<(String, String)>,
) -> (r: OciDescriptor)
    ensures
        r@ == bytes_descriptor(bytes@, media_type@, opt_view(artifact_type), pairs_view(annotations@)),
{
    OciDescriptor {
        media_type: String::from_str(media_type),
        digest: sha256_digest_of(bytes),
        size: bytes.len() as u64,
        artifact_type,
        annotations,
    }
}

/// Stores bytes as a blob under their digest and returns their
/// descriptor.
pub fn store_blob(
    blobs: &mut Vec<(String, Vec<u8>)>,
    bytes: &[u8],
    media_type: &str,
    artifact_type: Option<String>,
    annotations: Vec<(String, String)>,
) -> (r: OciDescriptor)
    requires
        sorted_pairs(pairs_view(old(blobs)@)),
    ensures
        r@ == bytes_descriptor(bytes@, media_type@, opt_view(artifact_type), pairs_view(annotations@)),
        sorted_pairs(pairs_view(final(blobs)@)),
        as_map(pairs_view(final(blobs)@)) == as_map(pairs_view(old(blobs)@)).insert(r@.digest, bytes@),
{
    let d = descriptor_for_bytes(bytes, media_type, artifact_type, annotations);
    insert(blobs, d.digest.clone(), copy_bytes(bytes));
    d
}

/// A copy of some bytes.
pub fn copy_bytes(bytes: &[u8]) -> (r: Vec<u8>)
    ensures
        r@ == bytes@,
{
    let mut copy: Vec<u8> = Vec::new();
    let mut i: usize = 0;
    while i < bytes.len()
        invariant
            i <= bytes@.len(),
            copy@ == bytes@.take(i as int),
        decreases bytes.len() - i,
    {
        copy.push(bytes[i]);
        assert(copy@ =~= bytes@.take(i + 1));
        i = i + 1;
    }
    assert(copy@ =~= bytes@);
    copy
}

/// Whether every map of the set holds its keys in increasing order.
pub fn artifact_set_is_wf(a: &OciArtifactSet) -> (r: bool)
    ensures
        r == artifact_set_wf(*a),
{
    crate::keyed::keys_in_order(&a.index.annotations) && crate::keyed::keys_in_order(&a.manifests)
        && crate::keyed::keys_in_order(&a.referrers) && crate::keyed::keys_in_order(&a.blobs)
}

} // verus!
