//! Packing a catalog into OCI artifacts: one image manifest per entry,
//! its configuration and inline data as blobs, its trust manifest as a
//! referrer, and a root index that carries the catalog's own members.
use vstd::prelude::*;
use vstd::string::*;
use crate::json::{JsonMember, JsonValue, JsonView, clone_json, clone_members, json_view, object_view};
use crate::jsontext::{json_text, to_json_bytes, to_json_text};
use crate::keyed::{
    as_map, find_key, insert, lemma_as_map_empty, lemma_text_lt_transitive, pairs_view, sorted_pairs,
    text_lt,
};
use crate::model::{AiCatalog, CatalogEntry, CatalogView, EntryView, ManifestView, TrustManifest};
use crate::oci::{
    DescriptorView, ImageManifestView, IndexView, OciArtifactSet, OciDescriptor, OciImageIndex,
    OciImageManifest, ArtifactSetView, bytes_descriptor, clone_descriptor, clone_manifest_list, clone_pairs,
    AI_CATALOG_MEDIA_TYPE, ENTRY_CONFIG_MEDIA_TYPE, OCI_IMAGE_INDEX_MEDIA_TYPE, OCI_IMAGE_MANIFEST_MEDIA_TYPE,
    TRUST_MANIFEST_ARTIFACT_TYPE, TRUST_MANIFEST_CONFIG_MEDIA_TYPE,
    descriptor_for_bytes, descriptor_views, image_manifest_json, image_manifest_to_json,
    json_bytes, manifest_list_view, oci_image_index_media_type, oci_image_manifest_media_type,
    artifact_set_wf, referrers_view, store_blob,
};
use crate::render::{
    add_extra, add_list, add_member, add_opt_json, add_opt_object, add_opt_string, add_string,
    host_json, host_to_json, list_member, manifest_json, manifest_to_json, member, opt_json_member,
    opt_object_member, opt_string_member, publisher_json, publisher_to_json, string_writer,
    strings_to_json,
};
use crate::text::{lemma_seq_add_empty, opt_view};
use crate::validate::cat;

verus! {

/// Errors of packing and unpacking OCI artifacts.
#[derive(Debug)]
pub enum OciError {
    /// An entry without exactly one of `url` and `data`; holds its identifier.
    InvalidEntryContent(String),
    MissingManifest(String),
    MissingBlob(String),
    UnsupportedIndexArtifactType,
    MissingSpecVersion,
    MissingEntryContent(String),
    InvalidLayoutTag,
    InvalidDigest(String),
    UnsupportedLayoutVersion(String),
    MissingLayoutReference(String),
    AmbiguousLayoutReference,
    MissingSubjectDescriptor(String),
    /// Content that does not read as the JSON expected; holds the reason.
    Json(String),
}

pub open spec fn catalog_media_type() -> Seq<char> {
    "application/ai-catalog+json"@
}

pub open spec fn entry_config_media_type() -> Seq<char> {
    "application/vnd.ai-catalog.entry.config.v1+json"@
}

pub open spec fn trust_manifest_artifact_type() -> Seq<char> {
    "application/vnd.ai-catalog.trust-manifest.v1+json"@
}

pub open spec fn trust_manifest_config_media_type() -> Seq<char> {
    "application/vnd.ai-catalog.trust-manifest.config.v1+json"@
}

/// An annotation name in the catalog's namespace.
pub open spec fn annotation_key(name: Seq<char>) -> Seq<char> {
    "ai-catalog."@ + name
}

/// What an entry's configuration blob holds: its members other than its
/// type, content and trust manifest.
pub open spec fn entry_config_json(e: EntryView) -> JsonView {
    JsonView::Object(
        member("identifier"@, JsonView::Str(e.identifier)) + opt_string_member(
            "displayName"@,
            e.display_name,
        ) + opt_string_member("description"@, e.description) + list_member(
            "tags"@,
            e.tags.map_values(string_writer()),
        ) + opt_string_member("version"@, e.version) + opt_string_member(
            "updatedAt"@,
            e.updated_at,
        ) + opt_object_member("extensions"@, e.extensions) + opt_json_member(
            "publisher"@,
            match e.publisher {
                Some(p) => Some(publisher_json(p)),
                None => None,
            },
        ) + opt_string_member("url"@, e.url) + e.extra_fields,
    )
}

pub open spec fn no_annotations() -> Seq<(Seq<char>, Seq<char>)> {
    Seq::empty()
}

pub open spec fn config_descriptor(e: EntryView) -> DescriptorView {
    bytes_descriptor(json_bytes(entry_config_json(e)), entry_config_media_type(), None, no_annotations())
}

/// The layers of an entry: none for an entry by URL, its data for an
/// inline entry; `None` for an entry with both or neither.
pub open spec fn entry_layers(e: EntryView) -> Option<Seq<DescriptorView>> {
    match (e.url, e.data) {
        (Some(_), None) => Some(Seq::empty()),
        (None, Some(d)) => Some(seq![bytes_descriptor(json_bytes(d), e.entry_type, None, no_annotations())]),
        _ => None,
    }
}

/// The annotations of an entry's manifest: its display name, identifier
/// and version, in key order.
pub open spec fn entry_annotations(e: EntryView) -> Seq<(Seq<char>, Seq<char>)> {
    (match e.display_name {
        Some(n) => seq![(annotation_key("displayName"@), n)],
        None => Seq::empty(),
    }) + seq![(annotation_key("identifier"@), e.identifier)] + match e.version {
        Some(v) => seq![(annotation_key("version"@), v)],
        None => Seq::empty(),
    }
}

pub open spec fn entry_image_manifest(e: EntryView, layers: Seq<DescriptorView>) -> ImageManifestView {
    ImageManifestView {
        schema_version: 2,
        media_type: oci_image_manifest_media_type(),
        artifact_type: Some(e.entry_type),
        config: config_descriptor(e),
        layers,
        subject: None,
        annotations: entry_annotations(e),
    }
}

pub open spec fn entry_manifest_descriptor(e: EntryView, layers: Seq<DescriptorView>) -> DescriptorView {
    bytes_descriptor(
        json_bytes(image_manifest_json(entry_image_manifest(e, layers))),
        oci_image_manifest_media_type(),
        Some(e.entry_type),
        entry_annotations(e),
    )
}

pub open spec fn trust_config_descriptor(m: ManifestView) -> DescriptorView {
    bytes_descriptor(json_bytes(manifest_json(m)), trust_manifest_config_media_type(), None, no_annotations())
}

/// The referrer that binds a trust manifest to an entry's manifest.
pub open spec fn trust_referrer(subject: DescriptorView, m: ManifestView) -> ImageManifestView {
    ImageManifestView {
        schema_version: 2,
        media_type: oci_image_manifest_media_type(),
        artifact_type: Some(trust_manifest_artifact_type()),
        config: trust_config_descriptor(m),
        layers: Seq::empty(),
        subject: Some(subject),
        annotations: seq![(annotation_key("identity"@), m.identity)],
    }
}

/// The referrers held under a digest, none when there are none.
pub open spec fn referrers_at(r: Map<Seq<char>, Seq<ImageManifestView>>, k: Seq<char>) -> Seq<ImageManifestView> {
    if r.dom().contains(k) {
        r[k]
    } else {
        Seq::empty()
    }
}

/// What packing has built so far.
pub struct PackState {
    pub blobs: Map<Seq<char>, Seq<u8>>,
    pub manifests: Map<Seq<char>, ImageManifestView>,
    pub referrers: Map<Seq<char>, Seq<ImageManifestView>>,
    pub index: Seq<DescriptorView>,
}

/// Packing one more entry; an error holds the identifier of an entry with
/// both or neither of `url` and `data`.
pub open spec fn pack_entry(st: PackState, e: EntryView) -> Result<PackState, Seq<char>> {
    let cfg_bytes = json_bytes(entry_config_json(e));
    let blobs1 = st.blobs.insert(config_descriptor(e).digest, cfg_bytes);
    match entry_layers(e) {
        None => Err(e.identifier),
        Some(layers) => {
            let blobs2 = match e.data {
                Some(d) => if e.url is None {
                    blobs1.insert(layers[0].digest, json_bytes(d))
                } else {
                    blobs1
                },
                None => blobs1,
            };
            let md = entry_manifest_descriptor(e, layers);
            let blobs3 = match e.trust_manifest {
                Some(m) => blobs2.insert(trust_config_descriptor(m).digest, json_bytes(manifest_json(m))),
                None => blobs2,
            };
            let referrers = match e.trust_manifest {
                Some(m) => st.referrers.insert(
                    md.digest,
                    referrers_at(st.referrers, md.digest).push(trust_referrer(md, m)),
                ),
                None => st.referrers,
            };
            Ok(
                PackState {
                    blobs: blobs3,
                    manifests: st.manifests.insert(md.digest, entry_image_manifest(e, layers)),
                    referrers,
                    index: st.index.push(md),
                },
            )
        },
    }
}

pub open spec fn empty_pack() -> PackState {
    PackState { blobs: Map::empty(), manifests: Map::empty(), referrers: Map::empty(), index: Seq::empty() }
}

/// Packing the first `n` entries, in order.
pub open spec fn pack_entries(es: Seq<EntryView>, n: nat) -> Result<PackState, Seq<char>>
    decreases n,
{
    if n == 0 || n > es.len() {
        Ok(empty_pack())
    } else {
        match pack_entries(es, (n - 1) as nat) {
            Err(id) => Err(id),
            Ok(st) => pack_entry(st, es[n - 1]),
        }
    }
}

/// The annotations of the root index: the catalog's members other than
/// its entries, in key order.
pub open spec fn catalog_annotations(c: CatalogView) -> Seq<(Seq<char>, Seq<char>)> {
    (match c.extensions {
        Some(ms) => seq![(annotation_key("extensions"@), json_text(JsonView::Object(ms)))],
        None => Seq::empty(),
    }) + (if c.extra_fields.len() > 0 {
        seq![(annotation_key("extraFields"@), json_text(JsonView::Object(c.extra_fields)))]
    } else {
        Seq::empty()
    }) + (match c.host {
        Some(h) => seq![(annotation_key("host"@), json_text(host_json(h)))],
        None => Seq::empty(),
    }) + (match c.signature {
        Some(s) => seq![(annotation_key("signature"@), s)],
        None => Seq::empty(),
    }) + seq![(annotation_key("specVersion"@), c.spec_version)]
}

/// A catalog packed into OCI artifacts, or the identifier of the first
/// entry with both or neither of `url` and `data`.
pub open spec fn spec_pack_catalog(c: CatalogView) -> Result<ArtifactSetView, Seq<char>> {
    match pack_entries(c.entries, c.entries.len()) {
        Err(id) => Err(id),
        Ok(st) => Ok(
            ArtifactSetView {
                index: IndexView {
                    schema_version: 2,
                    media_type: oci_image_index_media_type(),
                    artifact_type: Some(catalog_media_type()),
                    manifests: st.index,
                    annotations: catalog_annotations(c),
                },
                manifests: st.manifests,
                referrers: st.referrers,
                blobs: st.blobs,
            },
        ),
    }
}

pub proof fn lemma_text_lt_prefix(p: Seq<char>, a: Seq<char>, b: Seq<char>)
    ensures
        text_lt(p + a, p + b) == text_lt(a, b),
    decreases p.len(),
{
    if p.len() > 0 {
        assert((p + a).drop_first() =~= p.drop_first() + a);
        assert((p + b).drop_first() =~= p.drop_first() + b);
        assert((p + a)[0] == p[0]);
        assert((p + b)[0] == p[0]);
        lemma_text_lt_prefix(p.drop_first(), a, b);
    } else {
        assert(p + a =~= a);
        assert(p + b =~= b);
    }
}

/// The annotation names used, in increasing text order.
pub proof fn lemma_annotation_names_ordered()
    ensures
        text_lt(annotation_key("displayName"@), annotation_key("identifier"@)),
        text_lt(annotation_key("identifier"@), annotation_key("version"@)),
        text_lt(annotation_key("extensions"@), annotation_key("extraFields"@)),
        text_lt(annotation_key("extraFields"@), annotation_key("host"@)),
        text_lt(annotation_key("host"@), annotation_key("signature"@)),
        text_lt(annotation_key("signature"@), annotation_key("specVersion"@)),
{
    reveal_strlit("displayName");
    reveal_strlit("identifier");
    reveal_strlit("version");
    reveal_strlit("extensions");
    reveal_strlit("extraFields");
    reveal_strlit("host");
    reveal_strlit("signature");
    reveal_strlit("specVersion");
    let p = "ai-catalog."@;
    lemma_text_lt_prefix(p, "displayName"@, "identifier"@);
    lemma_text_lt_prefix(p, "identifier"@, "version"@);
    lemma_text_lt_prefix(p, "extensions"@, "extraFields"@);
    lemma_text_lt_prefix(p, "extraFields"@, "host"@);
    lemma_text_lt_prefix(p, "host"@, "signature"@);
    lemma_text_lt_prefix(p, "signature"@, "specVersion"@);
    let a = "extensions"@;
    let b = "extraFields"@;
    assert(a.drop_first() =~= "xtensions"@) by {
        reveal_strlit("xtensions");
    }
    assert(a[0] == 'e' && b[0] == 'e' && a[1] == 'x' && b[1] == 'x' && a[2] == 't' && b[2] == 't' && a[3] == 'e' && b[3] == 'r');
    assert(text_lt(a.drop_first().drop_first().drop_first(), b.drop_first().drop_first().drop_first()));
    assert(text_lt(a.drop_first().drop_first(), b.drop_first().drop_first()));
    assert(text_lt(a.drop_first(), b.drop_first()));
    assert(text_lt("signature"@.drop_first(), "specVersion"@.drop_first()));
}

/// The keys of a list of pairs all come before `k`.
pub open spec fn keys_below<W>(s: Seq<(Seq<char>, W)>, k: Seq<char>) -> bool {
    forall|i: int| 0 <= i < s.len() ==> text_lt(#[trigger] s[i].0, k)
}

/// The keys of a list of pairs all come before `k` or equal it.
pub open spec fn keys_at_most<W>(s: Seq<(Seq<char>, W)>, k: Seq<char>) -> bool {
    forall|i: int| 0 <= i < s.len() ==> (#[trigger] s[i].0 == k || text_lt(s[i].0, k))
}

/// Appending at most one pair under a key after all held keeps the keys in
/// order.
pub proof fn lemma_sorted_append<W>(s: Seq<(Seq<char>, W)>, t: Seq<(Seq<char>, W)>, k: Seq<char>)
    requires
        sorted_pairs(s),
        keys_below(s, k),
        t.len() <= 1,
        forall|i: int| 0 <= i < t.len() ==> (#[trigger] t[i]).0 == k,
    ensures
        sorted_pairs(s + t),
        keys_at_most(s + t, k),
{
    let u = s + t;
    assert forall|i: int, j: int| 0 <= i < j < u.len() implies text_lt(#[trigger] u[i].0, #[trigger] u[j].0) by {
        if j < s.len() {
            assert(u[i] == s[i] && u[j] == s[j]);
        } else {
            assert(u[i] == s[i]);
            assert(u[j] == t[j - s.len()]);
        }
    }
    assert forall|i: int| 0 <= i < u.len() implies (#[trigger] u[i].0 == k || text_lt(u[i].0, k)) by {
        if i < s.len() {
            assert(u[i] == s[i]);
        } else {
            assert(u[i] == t[i - s.len()]);
        }
    }
}

pub proof fn lemma_keys_below_next<W>(s: Seq<(Seq<char>, W)>, k: Seq<char>, next: Seq<char>)
    requires
        keys_at_most(s, k),
        text_lt(k, next),
    ensures
        keys_below(s, next),
{
    assert forall|i: int| 0 <= i < s.len() implies text_lt(#[trigger] s[i].0, next) by {
        if s[i].0 != k {
            lemma_text_lt_transitive(s[i].0, k, next);
        }
    }
}

/// The state packing has built, seen through the views of its parts.
pub open spec fn pack_state_of(
    blobs: Seq<(String, Vec<u8>)>,
    manifests: Seq<(String, OciImageManifest)>,
    referrers: Seq<(String, Vec<OciImageManifest>)>,
    index: Seq<OciDescriptor>,
) -> PackState {
    PackState {
        blobs: as_map(pairs_view(blobs)),
        manifests: as_map(pairs_view(manifests)),
        referrers: referrers_view(referrers),
        index: descriptor_views(index),
    }
}

proof fn lemma_pack_entries_err(es: Seq<EntryView>, i: nat, n: nat)
    requires
        i <= n <= es.len(),
        pack_entries(es, i) is Err,
    ensures
        pack_entries(es, n) == pack_entries(es, i),
    decreases n - i,
{
    if n > i {
        lemma_pack_entries_err(es, i, (n - 1) as nat);
    }
}

/// An entry's configuration written as a JSON value.
fn entry_config_to_json(e: &CatalogEntry) -> (r: JsonValue)
    ensures
        json_view(r) == entry_config_json(e@),
{
    let mut out: Vec<JsonMember> = Vec::new();
    assert(object_view(out@) =~= Seq::<(Seq<char>, JsonView)>::empty());
    add_string(&mut out, "identifier", &e.identifier);
    proof {
        lemma_seq_add_empty(member("identifier"@, JsonView::Str(e@.identifier)));
    }
    add_opt_string(&mut out, "displayName", &e.display_name);
    add_opt_string(&mut out, "description", &e.description);
    let tags = strings_to_json(&e.tags);
    add_list(&mut out, "tags", tags);
    add_opt_string(&mut out, "version", &e.version);
    add_opt_string(&mut out, "updatedAt", &e.updated_at);
    add_opt_object(&mut out, "extensions", &e.extensions);
    let publisher = match &e.publisher {
        Some(p) => Some(publisher_to_json(p)),
        None => None,
    };
    add_opt_json(&mut out, "publisher", publisher);
    add_opt_string(&mut out, "url", &e.url);
    add_extra(&mut out, &e.extra_fields);
    JsonValue::Object(out)
}

/// The annotations of an entry's manifest.
fn entry_annotations_of(e: &CatalogEntry) -> (r: Vec<(String, String)>)
    ensures
        pairs_view(r@) == entry_annotations(e@),
        sorted_pairs(pairs_view(r@)),
{
    proof {
        lemma_annotation_names_ordered();
    }
    let ghost kd = annotation_key("displayName"@);
    let ghost ki = annotation_key("identifier"@);
    let ghost kv = annotation_key("version"@);
    let mut out: Vec<(String, String)> = Vec::new();
    match &e.display_name {
        Some(n) => out.push((cat("ai-catalog.", "displayName"), n.clone())),
        None => {},
    }
    let ghost a = pairs_view(out@);
    proof {
        lemma_sorted_append(Seq::<(Seq<char>, Seq<char>)>::empty(), a, kd);
        assert(Seq::<(Seq<char>, Seq<char>)>::empty() + a =~= a);
        lemma_keys_below_next(a, kd, ki);
    }
    out.push((cat("ai-catalog.", "identifier"), e.identifier.clone()));
    let ghost b = pairs_view(out@);
    proof {
        assert(b =~= a + seq![(ki, e@.identifier)]);
        lemma_sorted_append(a, seq![(ki, e@.identifier)], ki);
        lemma_keys_below_next(b, ki, kv);
    }
    match &e.version {
        Some(v) => out.push((cat("ai-catalog.", "version"), v.clone())),
        None => {},
    }
    proof {
        let c = pairs_view(out@);
        let t = match e@.version {
            Some(v) => seq![(kv, v)],
            None => Seq::<(Seq<char>, Seq<char>)>::empty(),
        };
        assert(c =~= b + t);
        lemma_sorted_append(b, t, kv);
        assert(c =~= entry_annotations(e@));
    }
    out
}

/// The annotations of the root index.
fn catalog_annotations_of(c: &AiCatalog) -> (r: Vec<(String, String)>)
    ensures
        pairs_view(r@) == catalog_annotations(c@),
        sorted_pairs(pairs_view(r@)),
{
    proof {
        lemma_annotation_names_ordered();
    }
    let ghost k1 = annotation_key("extensions"@);
    let ghost k2 = annotation_key("extraFields"@);
    let ghost k3 = annotation_key("host"@);
    let ghost k4 = annotation_key("signature"@);
    let ghost k5 = annotation_key("specVersion"@);
    let mut out: Vec<(String, String)> = Vec::new();
    match &c.extensions {
        Some(ms) => {
            let t = to_json_text(&JsonValue::Object(clone_members(ms)));
            out.push((cat("ai-catalog.", "extensions"), t));
        },
        None => {},
    }
    let ghost s1 = pairs_view(out@);
    proof {
        lemma_sorted_append(Seq::<(Seq<char>, Seq<char>)>::empty(), s1, k1);
        assert(Seq::<(Seq<char>, Seq<char>)>::empty() + s1 =~= s1);
        lemma_keys_below_next(s1, k1, k2);
    }
    if c.extra_fields.len() > 0 {
        let t = to_json_text(&JsonValue::Object(clone_members(&c.extra_fields)));
        out.push((cat("ai-catalog.", "extraFields"), t));
    }
    let ghost s2 = pairs_view(out@);
    proof {
        crate::json::lemma_object_view(c.extra_fields@);
        let t = if c@.extra_fields.len() > 0 {
            seq![(k2, json_text(JsonView::Object(c@.extra_fields)))]
        } else {
            Seq::<(Seq<char>, Seq<char>)>::empty()
        };
        assert(s2 =~= s1 + t);
        lemma_sorted_append(s1, t, k2);
        lemma_keys_below_next(s2, k2, k3);
    }
    match &c.host {
        Some(h) => {
            let t = to_json_text(&host_to_json(h));
            out.push((cat("ai-catalog.", "host"), t));
        },
        None => {},
    }
    let ghost s3 = pairs_view(out@);
    proof {
        let t = match c@.host {
            Some(h) => seq![(k3, json_text(host_json(h)))],
            None => Seq::<(Seq<char>, Seq<char>)>::empty(),
        };
        assert(s3 =~= s2 + t);
        lemma_sorted_append(s2, t, k3);
        lemma_keys_below_next(s3, k3, k4);
    }
    match &c.signature {
        Some(sig) => out.push((cat("ai-catalog.", "signature"), sig.clone())),
        None => {},
    }
    let ghost s4 = pairs_view(out@);
    proof {
        let t = match c@.signature {
            Some(sig) => seq![(k4, sig)],
            None => Seq::<(Seq<char>, Seq<char>)>::empty(),
        };
        assert(s4 =~= s3 + t);
        lemma_sorted_append(s3, t, k4);
        lemma_keys_below_next(s4, k4, k5);
    }
    out.push((cat("ai-catalog.", "specVersion"), c.spec_version.clone()));
    proof {
        let t = seq![(k5, c@.spec_version)];
        assert(pairs_view(out@) =~= s4 + t);
        lemma_sorted_append(s4, t, k5);
        assert(pairs_view(out@) =~= catalog_annotations(c@));
    }
    out
}

/// Adds a referrer under a digest, after those already held there.
pub(crate) fn push_referrer(referrers: &mut Vec<(String, Vec<OciImageManifest>)>, digest: String, m: OciImageManifest)
    requires
        sorted_pairs(pairs_view(old(referrers)@)),
    ensures
        sorted_pairs(pairs_view(final(referrers)@)),
        referrers_view(final(referrers)@) == referrers_view(old(referrers)@).insert(
            digest@,
            referrers_at(referrers_view(old(referrers)@), digest@).push(m@),
        ),
{
    let ghost old_pairs = referrers@;
    let ghost old_map = as_map(pairs_view(referrers@));
    let ghost k = digest@;
    let ghost mv = m@;
    let found = find_key(referrers, digest.as_str());
    let mut list: Vec<OciImageManifest> = match found {
        Some(i) => clone_manifest_list(&referrers[i].1),
        None => Vec::new(),
    };
    proof {
        assert(manifest_list_view(list@) == referrers_at(referrers_view(old_pairs), k)) by {
            if found is None {
                assert(manifest_list_view(list@) =~= Seq::<ImageManifestView>::empty());
            }
        }
    }
    let ghost before = list@;
    list.push(m);
    proof {
        assert(manifest_list_view(list@) =~= manifest_list_view(before).push(mv));
    }
    insert(referrers, digest, list);
    proof {
        assert(referrers_view(referrers@) =~= referrers_view(old_pairs).insert(
            k,
            referrers_at(referrers_view(old_pairs), k).push(mv),
        ));
    }
}

/// Packs one entry into the artifacts built so far.
fn pack_entry_into(
    e: &CatalogEntry,
    blobs: &mut Vec<(String, Vec<u8>)>,
    manifests: &mut Vec<(String, OciImageManifest)>,
    referrers: &mut Vec<(String, Vec<OciImageManifest>)>,
    index: &mut Vec<OciDescriptor>,
) -> (r: Result<(), OciError>)
    requires
        sorted_pairs(pairs_view(old(blobs)@)),
        sorted_pairs(pairs_view(old(manifests)@)),
        sorted_pairs(pairs_view(old(referrers)@)),
    ensures
        match (r, pack_entry(pack_state_of(old(blobs)@, old(manifests)@, old(referrers)@, old(index)@), e@)) {
            (Ok(()), Ok(st)) => {
                &&& st == pack_state_of(final(blobs)@, final(manifests)@, final(referrers)@, final(index)@)
                &&& sorted_pairs(pairs_view(final(blobs)@))
                &&& sorted_pairs(pairs_view(final(manifests)@))
                &&& sorted_pairs(pairs_view(final(referrers)@))
            },
            (Err(OciError::InvalidEntryContent(s)), Err(id)) => s@ == id,
            _ => false,
        },
{
    if e.url.is_some() == e.data.is_some() {
        return Err(OciError::InvalidEntryContent(e.identifier.clone()));
    }
    let ghost ev = e@;
    let ghost st = pack_state_of(blobs@, manifests@, referrers@, index@);
    let ghost no_pairs = Seq::<(String, String)>::empty();
    assert(pairs_view(no_pairs) =~= no_annotations());
    let cfg = entry_config_to_json(e);
    let cfg_bytes = to_json_bytes(&cfg);
    let cfg_desc = store_blob(blobs, cfg_bytes.as_slice(), ENTRY_CONFIG_MEDIA_TYPE, None, Vec::new());
    assert(cfg_desc@ == config_descriptor(ev));
    let mut layers: Vec<OciDescriptor> = Vec::new();
    match &e.data {
        Some(d) => {
            let bytes = to_json_bytes(d);
            let ld = store_blob(blobs, bytes.as_slice(), e.entry_type.as_str(), None, Vec::new());
            layers.push(ld);
        },
        None => {},
    }
    let ghost lv = entry_layers(ev)->Some_0;
    assert(descriptor_views(layers@) =~= lv);
    let ghost blobs2 = as_map(pairs_view(blobs@));
    let ann = entry_annotations_of(e);
    let manifest = OciImageManifest {
        schema_version: 2,
        media_type: String::from_str(OCI_IMAGE_MANIFEST_MEDIA_TYPE),
        artifact_type: Some(e.entry_type.clone()),
        config: cfg_desc,
        layers,
        subject: None,
        annotations: clone_pairs(&ann),
    };
    assert(manifest@ == entry_image_manifest(ev, lv));
    let mbytes = to_json_bytes(&image_manifest_to_json(&manifest));
    let md = descriptor_for_bytes(mbytes.as_slice(), OCI_IMAGE_MANIFEST_MEDIA_TYPE, Some(e.entry_type.clone()), ann);
    assert(md@ == entry_manifest_descriptor(ev, lv));
    match &e.trust_manifest {
        Some(tm) => {
            let tbytes = to_json_bytes(&manifest_to_json(tm));
            let tcfg = store_blob(blobs, tbytes.as_slice(), TRUST_MANIFEST_CONFIG_MEDIA_TYPE, None, Vec::new());
            let mut tann: Vec<(String, String)> = Vec::new();
            tann.push((cat("ai-catalog.", "identity"), tm.identity.clone()));
            let referrer = OciImageManifest {
                schema_version: 2,
                media_type: String::from_str(OCI_IMAGE_MANIFEST_MEDIA_TYPE),
                artifact_type: Some(String::from_str(TRUST_MANIFEST_ARTIFACT_TYPE)),
                config: tcfg,
                layers: Vec::new(),
                subject: Some(clone_descriptor(&md)),
                annotations: tann,
            };
            proof {
                assert(descriptor_views(Seq::<OciDescriptor>::empty()) =~= Seq::<DescriptorView>::empty());
                assert(pairs_view(tann@) =~= seq![(annotation_key("identity"@), tm@.identity)]);
            }
            assert(referrer@ == trust_referrer(md@, tm@));
            push_referrer(referrers, md.digest.clone(), referrer);
        },
        None => {},
    }
    index.push(clone_descriptor(&md));
    assert(descriptor_views(index@) =~= st.index.push(md@));
    insert(manifests, md.digest.clone(), manifest);
    Ok(())
}

/// Packs a catalog into OCI artifacts: for each entry, in order, its
/// configuration and inline data as blobs, its image manifest under the
/// manifest's digest, a descriptor of that manifest in the root index, and
/// its trust manifest as a referrer of the manifest; the catalog's other
/// members as annotations of the root index. Fails on the first entry
/// with both or neither of `url` and `data`.
pub fn pack_catalog(catalog: &AiCatalog) -> (r: Result<OciArtifactSet, OciError>)
    ensures
        match (r, spec_pack_catalog(catalog@)) {
            (Ok(a), Ok(v)) => a@ == v && artifact_set_wf(a),
            (Err(OciError::InvalidEntryContent(s)), Err(id)) => s@ == id,
            _ => false,
        },
{
    let mut blobs: Vec<(String, Vec<u8>)> = Vec::new();
    let mut manifests: Vec<(String, OciImageManifest)> = Vec::new();
    let mut referrers: Vec<(String, Vec<OciImageManifest>)> = Vec::new();
    let mut index: Vec<OciDescriptor> = Vec::new();
    proof {
        lemma_as_map_empty::<Seq<u8>>();
        lemma_as_map_empty::<ImageManifestView>();
        lemma_as_map_empty::<Seq<OciImageManifest>>();
        assert(pairs_view(blobs@) =~= Seq::<(Seq<char>, Seq<u8>)>::empty());
        assert(pairs_view(manifests@) =~= Seq::<(Seq<char>, ImageManifestView)>::empty());
        assert(pairs_view(referrers@) =~= Seq::<(Seq<char>, Seq<OciImageManifest>)>::empty());
        assert(referrers_view(referrers@) =~= Map::<Seq<char>, Seq<ImageManifestView>>::empty());
        assert(descriptor_views(index@) =~= Seq::<DescriptorView>::empty());
        assert(pack_state_of(blobs@, manifests@, referrers@, index@) == empty_pack());
    }
    let ghost es = catalog@.entries;
    let mut i: usize = 0;
    while i < catalog.entries.len()
        invariant
            es == catalog@.entries,
            es.len() == catalog.entries@.len(),
            i <= es.len(),
            sorted_pairs(pairs_view(blobs@)),
            sorted_pairs(pairs_view(manifests@)),
            sorted_pairs(pairs_view(referrers@)),
            pack_entries(es, i as nat) == Ok::<PackState, Seq<char>>(pack_state_of(blobs@, manifests@, referrers@, index@)),
        decreases catalog.entries.len() - i,
    {
        assert(es[i as int] == catalog.entries@[i as int]@);
        let res = pack_entry_into(&catalog.entries[i], &mut blobs, &mut manifests, &mut referrers, &mut index);
        match res {
            Ok(()) => {},
            Err(err) => {
                proof {
                    lemma_pack_entries_err(es, (i + 1) as nat, es.len());
                }
                return Err(err);
            },
        }
        i = i + 1;
    }
    let annotations = catalog_annotations_of(catalog);
    let set = OciArtifactSet {
        index: OciImageIndex {
            schema_version: 2,
            media_type: String::from_str(OCI_IMAGE_INDEX_MEDIA_TYPE),
            artifact_type: Some(String::from_str(AI_CATALOG_MEDIA_TYPE)),
            manifests: index,
            annotations,
        },
        manifests,
        referrers,
        blobs,
    };
    Ok(set)
}

/// An entry has exactly one of `url` and `data`.
pub open spec fn has_one_content(e: EntryView) -> bool {
    e.url is Some != e.data is Some
}

proof fn lemma_pack_entries_shape(es: Seq<EntryView>, n: nat)
    requires
        n <= es.len(),
    ensures
        pack_entries(es, n) is Ok <==> (forall|i: int| 0 <= i < n ==> has_one_content(#[trigger] es[i])),
        pack_entries(es, n) is Ok ==> pack_entries(es, n)->Ok_0.index.len() == n && (forall|i: int|
            0 <= i < n ==> #[trigger] pack_entries(es, n)->Ok_0.index[i] == entry_manifest_descriptor(
                es[i],
                entry_layers(es[i])->Some_0,
            )),
        pack_entries(es, n) is Err ==> exists|i: int|
            0 <= i < n && !has_one_content(#[trigger] es[i]) && pack_entries(es, n)->Err_0 == es[i].identifier
                && forall|j: int| 0 <= j < i ==> has_one_content(#[trigger] es[j]),
    decreases n,
{
    if n > 0 {
        lemma_pack_entries_shape(es, (n - 1) as nat);
        let prev = pack_entries(es, (n - 1) as nat);
        if prev is Err {
            let i = choose|i: int|
                0 <= i < n - 1 && !has_one_content(#[trigger] es[i]) && prev->Err_0 == es[i].identifier
                    && forall|j: int| 0 <= j < i ==> has_one_content(#[trigger] es[j]);
            assert(0 <= i < n && !has_one_content(es[i]));
        } else if !has_one_content(es[n - 1]) {
            assert(0 <= n - 1 < n && !has_one_content(es[n - 1]));
        }
    }
}

/// Packing succeeds exactly when every entry has exactly one of `url` and
/// `data`; the root index then holds one manifest descriptor per entry, in
/// the entries' order. Otherwise the error names the first entry without.
pub proof fn law_pack_index_follows_entries(c: CatalogView)
    ensures
        spec_pack_catalog(c) is Ok <==> (forall|i: int| 0 <= i < c.entries.len() ==> has_one_content(#[trigger] c.entries[i])),
        spec_pack_catalog(c) is Ok ==> {
            let ix = spec_pack_catalog(c)->Ok_0.index;
            &&& ix.manifests.len() == c.entries.len()
            &&& forall|i: int| 0 <= i < c.entries.len() ==> #[trigger] ix.manifests[i] == entry_manifest_descriptor(
                c.entries[i],
                entry_layers(c.entries[i])->Some_0,
            )
            &&& ix.artifact_type == Some(catalog_media_type())
            &&& ix.annotations == catalog_annotations(c)
        },
        spec_pack_catalog(c) is Err ==> exists|i: int|
            0 <= i < c.entries.len() && !has_one_content(#[trigger] c.entries[i]) && spec_pack_catalog(c)->Err_0
                == c.entries[i].identifier && forall|j: int| 0 <= j < i ==> has_one_content(#[trigger] c.entries[j]),
{
    lemma_pack_entries_shape(c.entries, c.entries.len());
}

} // verus!
