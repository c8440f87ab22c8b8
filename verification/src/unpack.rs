//! Unpacking OCI artifacts back into a catalog. Reading JSON text is
//! `serde_json`'s work and is done before: each blob, by digest, and each
//! JSON annotation of the root index, by annotation name, comes with the
//! JSON value its text reads as, or the reason it does not read as JSON.
use vstd::prelude::*;
use vstd::string::*;
use crate::json::{JsonMember, JsonValue, JsonView, clone_json, json_view, object_view, clone_members};
use crate::keyed::{as_map, find_key, pairs_view, sorted_pairs};
use crate::layout::{annotation_value, annotation_value_of};
use crate::model::{
    AiCatalog, CatalogEntry, CatalogView, EntryView, HostInfo, HostView, ManifestView, Publisher,
    PublisherView, TrustManifest, opt_json_view, opt_manifest_view, opt_object_view, opt_publisher_view,
    opt_host_view, strings_view,
};
use crate::oci::{
    ArtifactSetView, DescriptorView, ImageManifestView, OciArtifactSet, OciDescriptor, OciImageManifest,
    artifact_set_wf, manifest_list_view, referrers_view, AI_CATALOG_MEDIA_TYPE, TRUST_MANIFEST_ARTIFACT_TYPE,
};
use crate::pack::{OciError, annotation_key, catalog_media_type, referrers_at, trust_manifest_artifact_type};
use crate::schema::{
    f_opt, f_opt_object, f_opt_string, f_strings, get_opt_object, get_opt_publisher, get_opt_string,
    get_strings, host_from_json, invalid_member, invalid_member_msg, lookup, lookup_exec, manifest_from_json,
    not_an_object, not_an_object_msg, publisher_parser, spec_host, spec_manifest, unknown_members,
    unknown_members_exec,
};
use crate::text::{opt_view, str_eq};
use crate::validate::{cat, cat3};

verus! {

/// Why artifacts do not unpack into a catalog.
pub enum UnpackFailure {
    UnsupportedIndexArtifactType,
    MissingSpecVersion,
    MissingManifest(Seq<char>),
    MissingBlob(Seq<char>),
    MissingEntryContent(Seq<char>),
    Json(Seq<char>),
}

/// The failure an error stands for, among those of unpacking.
pub open spec fn failure_of(e: OciError) -> Option<UnpackFailure> {
    match e {
        OciError::UnsupportedIndexArtifactType => Some(UnpackFailure::UnsupportedIndexArtifactType),
        OciError::MissingSpecVersion => Some(UnpackFailure::MissingSpecVersion),
        OciError::MissingManifest(s) => Some(UnpackFailure::MissingManifest(s@)),
        OciError::MissingBlob(s) => Some(UnpackFailure::MissingBlob(s@)),
        OciError::MissingEntryContent(s) => Some(UnpackFailure::MissingEntryContent(s@)),
        OciError::Json(s) => Some(UnpackFailure::Json(s@)),
        _ => None,
    }
}

pub open spec fn decoded_view(d: Result<JsonValue, String>) -> Result<JsonView, Seq<char>> {
    match d {
        Ok(v) => Ok(json_view(v)),
        Err(e) => Err(e@),
    }
}

/// A table of decoded texts, seen by key.
pub open spec fn decoded_table(t: Seq<(String, Result<JsonValue, String>)>) -> Seq<(Seq<char>, Result<JsonView, Seq<char>>)> {
    t.map_values(|p: (String, Result<JsonValue, String>)| (p.0@, decoded_view(p.1)))
}

pub open spec fn not_decoded(key: Seq<char>) -> Seq<char> {
    "no JSON was read for '"@ + key + "'"@
}

/// The first entry of a table under a key.
pub open spec fn decoded_lookup(t: Seq<(Seq<char>, Result<JsonView, Seq<char>>)>, key: Seq<char>) -> Option<Result<JsonView, Seq<char>>>
    decreases t.len(),
{
    if t.len() == 0 {
        None
    } else {
        match decoded_lookup(t.drop_last(), key) {
            Some(d) => Some(d),
            None => if t.last().0 == key {
                Some(t.last().1)
            } else {
                None
            },
        }
    }
}

/// What a table holds for a key; a key it lacks reads as not decoded.
pub open spec fn decoded_at(t: Seq<(Seq<char>, Result<JsonView, Seq<char>>)>, key: Seq<char>) -> Result<JsonView, Seq<char>> {
    match decoded_lookup(t, key) {
        Some(d) => d,
        None => Err(not_decoded(key)),
    }
}

/// An entry's configuration, as read from its configuration blob.
pub struct ConfigView {
    pub identifier: Seq<char>,
    pub display_name: Option<Seq<char>>,
    pub description: Option<Seq<char>>,
    pub tags: Seq<Seq<char>>,
    pub version: Option<Seq<char>>,
    pub updated_at: Option<Seq<char>>,
    pub extensions: Option<Seq<(Seq<char>, JsonView)>>,
    pub publisher: Option<PublisherView>,
    pub url: Option<Seq<char>>,
    pub extra_fields: Seq<(Seq<char>, JsonView)>,
}

pub open spec fn missing_member(key: Seq<char>) -> Seq<char> {
    "missing member '"@ + key + "'"@
}

/// A string member that must be present.
pub open spec fn f_req_string(ms: Seq<(Seq<char>, JsonView)>, key: Seq<char>) -> Result<Seq<char>, Seq<char>> {
    match lookup(ms, key) {
        None => Err(missing_member(key)),
        Some(JsonView::Str(s)) => Ok(s),
        Some(_) => Err(invalid_member(key)),
    }
}

pub open spec fn config_keys() -> Seq<Seq<char>> {
    seq![
        "identifier"@,
        "displayName"@,
        "description"@,
        "tags"@,
        "version"@,
        "updatedAt"@,
        "extensions"@,
        "publisher"@,
        "url"@,
    ]
}

/// The configuration a JSON value reads as, or why it does not.
pub open spec fn spec_entry_config(j: JsonView) -> Result<ConfigView, Seq<char>> {
    match j {
        JsonView::Object(ms) => {
            let a = f_req_string(ms, "identifier"@);
            let b = f_opt_string(ms, "displayName"@);
            let c = f_opt_string(ms, "description"@);
            let d = f_strings(ms, "tags"@);
            let e = f_opt_string(ms, "version"@);
            let f = f_opt_string(ms, "updatedAt"@);
            let g = f_opt_object(ms, "extensions"@);
            let h = f_opt(ms, "publisher"@, publisher_parser());
            let i = f_opt_string(ms, "url"@);
            if a is Err {
                Err(a->Err_0)
            } else if b is Err {
                Err(b->Err_0)
            } else if c is Err {
                Err(c->Err_0)
            } else if d is Err {
                Err(d->Err_0)
            } else if e is Err {
                Err(e->Err_0)
            } else if f is Err {
                Err(f->Err_0)
            } else if g is Err {
                Err(g->Err_0)
            } else if h is Err {
                Err(h->Err_0)
            } else if i is Err {
                Err(i->Err_0)
            } else {
                Ok(
                    ConfigView {
                        identifier: a->Ok_0,
                        display_name: b->Ok_0,
                        description: c->Ok_0,
                        tags: d->Ok_0,
                        version: e->Ok_0,
                        updated_at: f->Ok_0,
                        extensions: g->Ok_0,
                        publisher: h->Ok_0,
                        url: i->Ok_0,
                        extra_fields: unknown_members(ms, config_keys()),
                    },
                )
            }
        },
        _ => Err(not_an_object()),
    }
}

/// The JSON of a blob: missing when the set has no such blob.
pub open spec fn blob_json(a: ArtifactSetView, t: Seq<(Seq<char>, Result<JsonView, Seq<char>>)>, digest: Seq<char>) -> Result<JsonView, UnpackFailure> {
    if !a.blobs.dom().contains(digest) {
        Err(UnpackFailure::MissingBlob(digest))
    } else {
        match decoded_at(t, digest) {
            Ok(v) => Ok(v),
            Err(m) => Err(UnpackFailure::Json(m)),
        }
    }
}

pub open spec fn is_trust_referrer(m: ImageManifestView) -> bool {
    m.artifact_type == Some(trust_manifest_artifact_type())
}

/// The first referrer that carries a trust manifest.
pub open spec fn first_trust_referrer(rs: Seq<ImageManifestView>) -> Option<ImageManifestView>
    decreases rs.len(),
{
    if rs.len() == 0 {
        None
    } else {
        match first_trust_referrer(rs.drop_last()) {
            Some(m) => Some(m),
            None => if is_trust_referrer(rs.last()) {
                Some(rs.last())
            } else {
                None
            },
        }
    }
}

/// An entry's `url` and `data`: its URL when its configuration has one,
/// else the JSON of its first layer.
pub open spec fn entry_content(a: ArtifactSetView, t: Seq<(Seq<char>, Result<JsonView, Seq<char>>)>, m: ImageManifestView, cfg: ConfigView) -> Result<
    (Option<Seq<char>>, Option<JsonView>),
    UnpackFailure,
> {
    match cfg.url {
        Some(u) => Ok((Some(u), None)),
        None => if m.layers.len() > 0 {
            match blob_json(a, t, m.layers[0].digest) {
                Ok(v) => Ok((None, Some(v))),
                Err(f) => Err(f),
            }
        } else {
            Err(UnpackFailure::MissingEntryContent(cfg.identifier))
        },
    }
}

/// An entry's trust manifest: that of the first trust manifest referrer
/// of its manifest, if there is one.
pub open spec fn entry_trust(a: ArtifactSetView, t: Seq<(Seq<char>, Result<JsonView, Seq<char>>)>, digest: Seq<char>) -> Result<Option<ManifestView>, UnpackFailure> {
    match first_trust_referrer(referrers_at(a.referrers, digest)) {
        None => Ok(None),
        Some(r) => match blob_json(a, t, r.config.digest) {
            Err(f) => Err(f),
            Ok(j) => match spec_manifest(j) {
                Ok(tm) => Ok(Some(tm)),
                Err(m) => Err(UnpackFailure::Json(m)),
            },
        },
    }
}

/// The type of an entry: the artifact type of its descriptor, else that
/// of its manifest, else empty.
pub open spec fn entry_type_of(d: DescriptorView, m: ImageManifestView) -> Seq<char> {
    match d.artifact_type {
        Some(x) => x,
        None => match m.artifact_type {
            Some(x) => x,
            None => Seq::empty(),
        },
    }
}

/// The entry a descriptor of the root index stands for.
pub open spec fn unpack_entry(a: ArtifactSetView, t: Seq<(Seq<char>, Result<JsonView, Seq<char>>)>, d: DescriptorView) -> Result<EntryView, UnpackFailure> {
    if !a.manifests.dom().contains(d.digest) {
        Err(UnpackFailure::MissingManifest(d.digest))
    } else {
        let m = a.manifests[d.digest];
        match blob_json(a, t, m.config.digest) {
            Err(f) => Err(f),
            Ok(j) => match spec_entry_config(j) {
                Err(msg) => Err(UnpackFailure::Json(msg)),
                Ok(cfg) => match entry_content(a, t, m, cfg) {
                    Err(f) => Err(f),
                    Ok(content) => match entry_trust(a, t, d.digest) {
                        Err(f) => Err(f),
                        Ok(tm) => Ok(
                            EntryView {
                                identifier: cfg.identifier,
                                display_name: cfg.display_name,
                                entry_type: entry_type_of(d, m),
                                url: content.0,
                                data: content.1,
                                version: cfg.version,
                                description: cfg.description,
                                tags: cfg.tags,
                                publisher: cfg.publisher,
                                trust_manifest: tm,
                                updated_at: cfg.updated_at,
                                extensions: cfg.extensions,
                                extra_fields: cfg.extra_fields,
                            },
                        ),
                    },
                },
            },
        }
    }
}

/// The entries of the first `n` descriptors of the root index, in order.
pub open spec fn unpack_entries(a: ArtifactSetView, t: Seq<(Seq<char>, Result<JsonView, Seq<char>>)>, n: nat) -> Result<Seq<EntryView>, UnpackFailure>
    decreases n,
{
    if n == 0 || n > a.index.manifests.len() {
        Ok(Seq::empty())
    } else {
        match unpack_entries(a, t, (n - 1) as nat) {
            Err(f) => Err(f),
            Ok(es) => match unpack_entry(a, t, a.index.manifests[n - 1]) {
                Err(f) => Err(f),
                Ok(e) => Ok(es.push(e)),
            },
        }
    }
}

/// The JSON of an annotation of the root index, if it has one.
pub open spec fn annotation_json(a: ArtifactSetView, t: Seq<(Seq<char>, Result<JsonView, Seq<char>>)>, name: Seq<char>) -> Option<Result<JsonView, Seq<char>>> {
    match annotation_value(a.index.annotations, annotation_key(name)) {
        None => None,
        Some(_) => Some(decoded_at(t, annotation_key(name))),
    }
}

/// An annotation that holds a JSON object.
pub open spec fn annotation_object(a: ArtifactSetView, t: Seq<(Seq<char>, Result<JsonView, Seq<char>>)>, name: Seq<char>) -> Result<Option<Seq<(Seq<char>, JsonView)>>, UnpackFailure> {
    match annotation_json(a, t, name) {
        None => Ok(None),
        Some(Err(m)) => Err(UnpackFailure::Json(m)),
        Some(Ok(JsonView::Object(ms))) => Ok(Some(ms)),
        Some(Ok(_)) => Err(UnpackFailure::Json(not_an_object())),
    }
}

/// The host annotation.
pub open spec fn annotation_host(a: ArtifactSetView, t: Seq<(Seq<char>, Result<JsonView, Seq<char>>)>) -> Result<Option<HostView>, UnpackFailure> {
    match annotation_json(a, t, "host"@) {
        None => Ok(None),
        Some(Err(m)) => Err(UnpackFailure::Json(m)),
        Some(Ok(j)) => match spec_host(j) {
            Ok(h) => Ok(Some(h)),
            Err(m) => Err(UnpackFailure::Json(m)),
        },
    }
}

/// The catalog that artifacts unpack into, given the JSON of their blobs
/// and of the JSON annotations of their root index.
pub open spec fn spec_unpack_catalog(
    a: ArtifactSetView,
    blob_json_table: Seq<(Seq<char>, Result<JsonView, Seq<char>>)>,
    annotation_table: Seq<(Seq<char>, Result<JsonView, Seq<char>>)>,
) -> Result<CatalogView, UnpackFailure> {
    if a.index.artifact_type != Some(catalog_media_type()) {
        Err(UnpackFailure::UnsupportedIndexArtifactType)
    } else {
        match annotation_value(a.index.annotations, annotation_key("specVersion"@)) {
            None => Err(UnpackFailure::MissingSpecVersion),
            Some(sv) => match annotation_host(a, annotation_table) {
                Err(f) => Err(f),
                Ok(host) => match annotation_object(a, annotation_table, "extensions"@) {
                    Err(f) => Err(f),
                    Ok(ext) => match annotation_object(a, annotation_table, "extraFields"@) {
                        Err(f) => Err(f),
                        Ok(extra) => match unpack_entries(a, blob_json_table, a.index.manifests.len()) {
                            Err(f) => Err(f),
                            Ok(es) => Ok(
                                CatalogView {
                                    spec_version: sv,
                                    host,
                                    entries: es,
                                    signature: annotation_value(a.index.annotations, annotation_key("signature"@)),
                                    extensions: ext,
                                    extra_fields: match extra {
                                        Some(ms) => ms,
                                        None => Seq::empty(),
                                    },
                                },
                            ),
                        },
                    },
                },
            },
        }
    }
}

// ---------------------------------------------------------------------
// Executable code.

/// An entry's configuration.
pub struct EntryConfig {
    pub identifier: String,
    pub display_name: Option<String>,
    pub description: Option<String>,
    pub tags: Vec<String>,
    pub version: Option<String>,
    pub updated_at: Option<String>,
    pub extensions: Option<Vec<JsonMember>>,
    pub publisher: Option<Publisher>,
    pub url: Option<String>,
    pub extra_fields: Vec<JsonMember>,
}

impl View for EntryConfig {
    type V = ConfigView;

    open spec fn view(&self) -> ConfigView {
        ConfigView {
            identifier: self.identifier@,
            display_name: opt_view(self.display_name),
            description: opt_view(self.description),
            tags: strings_view(self.tags),
            version: opt_view(self.version),
            updated_at: opt_view(self.updated_at),
            extensions: opt_object_view(self.extensions),
            publisher: opt_publisher_view(self.publisher),
            url: opt_view(self.url),
            extra_fields: object_view(self.extra_fields@),
        }
    }
}

fn get_req_string(members: &Vec<JsonMember>, key: &str) -> (r: Result<String, String>)
    ensures
        match r {
            Ok(s) => f_req_string(object_view(members@), key@) == Ok::<_, Seq<char>>(s@),
            Err(e) => f_req_string(object_view(members@), key@) == Err::<Seq<char>, _>(e@),
        },
{
    match lookup_exec(members, key) {
        None => Err(cat3("missing member '", key, "'")),
        Some(i) => match &members[i].value {
            JsonValue::Str(s) => Ok(s.clone()),
            _ => Err(invalid_member_msg(key)),
        },
    }
}

/// Reads an entry's configuration out of a JSON value.
pub fn entry_config_from_json(v: &JsonValue) -> (r: Result<EntryConfig, String>)
    ensures
        match r {
            Ok(x) => spec_entry_config(json_view(*v)) == Ok::<_, Seq<char>>(x@),
            Err(e) => spec_entry_config(json_view(*v)) == Err::<ConfigView, _>(e@),
        },
{
    match v {
        JsonValue::Object(ms) => {
            let identifier = get_req_string(ms, "identifier")?;
            let display_name = get_opt_string(ms, "displayName")?;
            let description = get_opt_string(ms, "description")?;
            let tags = get_strings(ms, "tags")?;
            let version = get_opt_string(ms, "version")?;
            let updated_at = get_opt_string(ms, "updatedAt")?;
            let extensions = get_opt_object(ms, "extensions")?;
            let publisher = get_opt_publisher(ms, "publisher")?;
            let url = get_opt_string(ms, "url")?;
            let known = vec![
                "identifier",
                "displayName",
                "description",
                "tags",
                "version",
                "updatedAt",
                "extensions",
                "publisher",
                "url",
            ];
            assert(crate::schema::keys_view(known@) =~= config_keys());
            let extra_fields = unknown_members_exec(ms, &known);
            Ok(
                EntryConfig {
                    identifier,
                    display_name,
                    description,
                    tags,
                    version,
                    updated_at,
                    extensions,
                    publisher,
                    url,
                    extra_fields,
                },
            )
        },
        _ => Err(not_an_object_msg()),
    }
}

fn clone_decoded(d: &Result<JsonValue, String>) -> (r: Result<JsonValue, String>)
    ensures
        decoded_view(r) == decoded_view(*d),
{
    match d {
        Ok(v) => Ok(clone_json(v)),
        Err(e) => Err(e.clone()),
    }
}

proof fn lemma_decoded_lookup_prefix(t: Seq<(Seq<char>, Result<JsonView, Seq<char>>)>, n: nat, key: Seq<char>)
    requires
        n <= t.len(),
        decoded_lookup(t.take(n as int), key) is Some,
    ensures
        decoded_lookup(t, key) == decoded_lookup(t.take(n as int), key),
    decreases t.len() - n,
{
    if n < t.len() {
        assert(t.take((n + 1) as int).drop_last() =~= t.take(n as int));
        lemma_decoded_lookup_prefix(t, n + 1, key);
    } else {
        assert(t.take(n as int) =~= t);
    }
}

/// What a table of decoded texts holds for a key.
fn decoded_at_exec(t: &Vec<(String, Result<JsonValue, String>)>, key: &str) -> (r: Result<JsonValue, String>)
    ensures
        decoded_view(r) == decoded_at(decoded_table(t@), key@),
{
    let ghost tv = decoded_table(t@);
    let mut i: usize = 0;
    while i < t.len()
        invariant
            tv == decoded_table(t@),
            i <= t@.len(),
            decoded_lookup(tv.take(i as int), key@) is None,
        decreases t.len() - i,
    {
        assert(tv.take(i + 1).drop_last() =~= tv.take(i as int));
        assert(tv.take(i + 1).last() == tv[i as int]);
        if str_eq(t[i].0.as_str(), key) {
            proof {
                lemma_decoded_lookup_prefix(tv, (i + 1) as nat, key@);
            }
            return clone_decoded(&t[i].1);
        }
        i = i + 1;
    }
    assert(tv.take(i as int) =~= tv);
    Err(cat3("no JSON was read for '", key, "'"))
}

/// The JSON of a blob.
fn blob_json_exec(
    artifacts: &OciArtifactSet,
    t: &Vec<(String, Result<JsonValue, String>)>,
    digest: &str,
) -> (r: Result<JsonValue, OciError>)
    requires
        artifact_set_wf(*artifacts),
    ensures
        match r {
            Ok(v) => blob_json(artifacts@, decoded_table(t@), digest@) == Ok::<_, UnpackFailure>(json_view(v)),
            Err(e) => failure_of(e) is Some && blob_json(artifacts@, decoded_table(t@), digest@) == Err::<JsonView, _>(
                failure_of(e)->Some_0,
            ),
        },
{
    match find_key(&artifacts.blobs, digest) {
        None => Err(OciError::MissingBlob(String::from_str(digest))),
        Some(_) => match decoded_at_exec(t, digest) {
            Ok(v) => Ok(v),
            Err(m) => Err(OciError::Json(m)),
        },
    }
}

/// The first referrer that carries a trust manifest.
pub(crate) fn first_trust_referrer_exec(rs: &Vec<OciImageManifest>) -> (r: Option<usize>)
    ensures
        match r {
            Some(i) => i < rs@.len() && first_trust_referrer(manifest_list_view(rs@)) == Some(rs@[i as int]@),
            None => first_trust_referrer(manifest_list_view(rs@)) is None,
        },
{
    let ghost mv = manifest_list_view(rs@);
    let mut i: usize = 0;
    while i < rs.len()
        invariant
            mv == manifest_list_view(rs@),
            i <= rs@.len(),
            first_trust_referrer(mv.take(i as int)) is None,
        decreases rs.len() - i,
    {
        assert(mv.take(i + 1).drop_last() =~= mv.take(i as int));
        assert(mv.take(i + 1).last() == rs@[i as int]@);
        let is_trust = match &rs[i].artifact_type {
            Some(s) => str_eq(s.as_str(), TRUST_MANIFEST_ARTIFACT_TYPE),
            None => false,
        };
        if is_trust {
            proof {
                lemma_first_trust_prefix(mv, (i + 1) as nat);
            }
            return Some(i);
        }
        i = i + 1;
    }
    assert(mv.take(i as int) =~= mv);
    None
}

proof fn lemma_first_trust_prefix(rs: Seq<ImageManifestView>, n: nat)
    requires
        n <= rs.len(),
        first_trust_referrer(rs.take(n as int)) is Some,
    ensures
        first_trust_referrer(rs) == first_trust_referrer(rs.take(n as int)),
    decreases rs.len() - n,
{
    if n < rs.len() {
        assert(rs.take((n + 1) as int).drop_last() =~= rs.take(n as int));
        lemma_first_trust_prefix(rs, n + 1);
    } else {
        assert(rs.take(n as int) =~= rs);
    }
}

/// The trust manifest of the entry whose manifest has the given digest.
fn entry_trust_exec(
    artifacts: &OciArtifactSet,
    t: &Vec<(String, Result<JsonValue, String>)>,
    digest: &str,
) -> (r: Result<Option<TrustManifest>, OciError>)
    requires
        artifact_set_wf(*artifacts),
    ensures
        match r {
            Ok(x) => entry_trust(artifacts@, decoded_table(t@), digest@) == Ok::<_, UnpackFailure>(opt_manifest_view(x)),
            Err(e) => failure_of(e) is Some && entry_trust(artifacts@, decoded_table(t@), digest@) == Err::<
                Option<ManifestView>,
                _,
            >(failure_of(e)->Some_0),
        },
{
    let ghost a = artifacts@;
    match find_key(&artifacts.referrers, digest) {
        None => {
            assert(referrers_at(a.referrers, digest@) =~= Seq::<ImageManifestView>::empty());
            Ok(None)
        },
        Some(k) => {
            let list = &artifacts.referrers[k].1;
            assert(referrers_at(a.referrers, digest@) == manifest_list_view(list@));
            match first_trust_referrer_exec(list) {
                None => Ok(None),
                Some(j) => {
                    let j_json = blob_json_exec(artifacts, t, list[j].config.digest.as_str())?;
                    match manifest_from_json(&j_json) {
                        Ok(tm) => Ok(Some(tm)),
                        Err(m) => Err(OciError::Json(m)),
                    }
                },
            }
        },
    }
}

/// The entry a descriptor of the root index stands for.
fn unpack_entry_exec(
    artifacts: &OciArtifactSet,
    t: &Vec<(String, Result<JsonValue, String>)>,
    d: &OciDescriptor,
) -> (r: Result<CatalogEntry, OciError>)
    requires
        artifact_set_wf(*artifacts),
    ensures
        match r {
            Ok(e) => unpack_entry(artifacts@, decoded_table(t@), d@) == Ok::<_, UnpackFailure>(e@),
            Err(e) => failure_of(e) is Some && unpack_entry(artifacts@, decoded_table(t@), d@) == Err::<EntryView, _>(
                failure_of(e)->Some_0,
            ),
        },
{
    let ghost a = artifacts@;
    let ghost tv = decoded_table(t@);
    let k = match find_key(&artifacts.manifests, d.digest.as_str()) {
        None => {
            return Err(OciError::MissingManifest(d.digest.clone()));
        },
        Some(k) => k,
    };
    let m = &artifacts.manifests[k].1;
    assert(a.manifests[d@.digest] == m@);
    let cj = blob_json_exec(artifacts, t, m.config.digest.as_str())?;
    let cfg = match entry_config_from_json(&cj) {
        Ok(c) => c,
        Err(msg) => {
            return Err(OciError::Json(msg));
        },
    };
    let url: Option<String>;
    let data: Option<JsonValue>;
    match &cfg.url {
        Some(u) => {
            url = Some(u.clone());
            data = None;
        },
        None => {
            if m.layers.len() > 0 {
                let lj = blob_json_exec(artifacts, t, m.layers[0].digest.as_str())?;
                url = None;
                data = Some(lj);
            } else {
                return Err(OciError::MissingEntryContent(cfg.identifier));
            }
        },
    }
    assert(entry_content(a, tv, m@, cfg@) == Ok::<_, UnpackFailure>((opt_view(url), opt_json_view(data))));
    let trust_manifest = entry_trust_exec(artifacts, t, d.digest.as_str())?;
    let entry_type = match &d.artifact_type {
        Some(x) => x.clone(),
        None => match &m.artifact_type {
            Some(x) => x.clone(),
            None => String::new(),
        },
    };
    let e = CatalogEntry {
        identifier: cfg.identifier,
        display_name: cfg.display_name,
        entry_type,
        url,
        data,
        version: cfg.version,
        description: cfg.description,
        tags: cfg.tags,
        publisher: cfg.publisher,
        trust_manifest,
        updated_at: cfg.updated_at,
        extensions: cfg.extensions,
        extra_fields: cfg.extra_fields,
    };
    Ok(e)
}

/// The JSON of an annotation of the root index, if it has one.
fn annotation_json_exec(
    artifacts: &OciArtifactSet,
    t: &Vec<(String, Result<JsonValue, String>)>,
    name: &str,
) -> (r: Option<Result<JsonValue, String>>)
    ensures
        match r {
            None => annotation_json(artifacts@, decoded_table(t@), name@) is None,
            Some(d) => annotation_json(artifacts@, decoded_table(t@), name@) == Some(decoded_view(d)),
        },
{
    let key = cat("ai-catalog.", name);
    match annotation_value_of(&artifacts.index.annotations, key.as_str()) {
        None => None,
        Some(_) => Some(decoded_at_exec(t, key.as_str())),
    }
}

fn annotation_object_exec(
    artifacts: &OciArtifactSet,
    t: &Vec<(String, Result<JsonValue, String>)>,
    name: &str,
) -> (r: Result<Option<Vec<JsonMember>>, OciError>)
    ensures
        match r {
            Ok(x) => annotation_object(artifacts@, decoded_table(t@), name@) == Ok::<_, UnpackFailure>(opt_object_view(x)),
            Err(e) => failure_of(e) is Some && annotation_object(artifacts@, decoded_table(t@), name@) == Err::<
                Option<Seq<(Seq<char>, JsonView)>>,
                _,
            >(failure_of(e)->Some_0),
        },
{
    match annotation_json_exec(artifacts, t, name) {
        None => Ok(None),
        Some(Err(m)) => Err(OciError::Json(m)),
        Some(Ok(JsonValue::Object(ms))) => Ok(Some(ms)),
        Some(Ok(_)) => Err(OciError::Json(not_an_object_msg())),
    }
}

fn annotation_host_exec(artifacts: &OciArtifactSet, t: &Vec<(String, Result<JsonValue, String>)>) -> (r: Result<
    Option<HostInfo>,
    OciError,
>)
    ensures
        match r {
            Ok(x) => annotation_host(artifacts@, decoded_table(t@)) == Ok::<_, UnpackFailure>(opt_host_view(x)),
            Err(e) => failure_of(e) is Some && annotation_host(artifacts@, decoded_table(t@)) == Err::<Option<HostView>, _>(
                failure_of(e)->Some_0,
            ),
        },
{
    match annotation_json_exec(artifacts, t, "host") {
        None => Ok(None),
        Some(Err(m)) => Err(OciError::Json(m)),
        Some(Ok(j)) => match host_from_json(&j) {
            Ok(h) => Ok(Some(h)),
            Err(m) => Err(OciError::Json(m)),
        },
    }
}

/// Unpacks OCI artifacts into a catalog: its members other than its
/// entries from the annotations of the root index, and one entry per
/// descriptor of the root index, in order, from that descriptor's
/// manifest, configuration, first layer and trust manifest referrer.
/// `blob_json` holds, by digest, the JSON each blob reads as;
/// `annotation_json` holds, by annotation name, the JSON each JSON
/// annotation of the root index reads as. Fails on artifacts of another
/// type, on a missing spec version, manifest, blob or content, and on
/// content that does not read as the JSON expected.
pub fn unpack_catalog(
    artifacts: &OciArtifactSet,
    blob_json: &Vec<(String, Result<JsonValue, String>)>,
    annotation_json: &Vec<(String, Result<JsonValue, String>)>,
) -> (r: Result<AiCatalog, OciError>)
    requires
        artifact_set_wf(*artifacts),
    ensures
        match r {
            Ok(c) => spec_unpack_catalog(artifacts@, decoded_table(blob_json@), decoded_table(annotation_json@))
                == Ok::<_, UnpackFailure>(c@),
            Err(e) => failure_of(e) is Some && spec_unpack_catalog(
                artifacts@,
                decoded_table(blob_json@),
                decoded_table(annotation_json@),
            ) == Err::<CatalogView, _>(failure_of(e)->Some_0),
        },
{
    let ghost a = artifacts@;
    let ghost bt = decoded_table(blob_json@);
    let is_catalog = match &artifacts.index.artifact_type {
        Some(s) => str_eq(s.as_str(), AI_CATALOG_MEDIA_TYPE),
        None => false,
    };
    if !is_catalog {
        return Err(OciError::UnsupportedIndexArtifactType);
    }
    let sv_key = cat("ai-catalog.", "specVersion");
    let spec_version = match annotation_value_of(&artifacts.index.annotations, sv_key.as_str()) {
        Some(s) => s,
        None => {
            return Err(OciError::MissingSpecVersion);
        },
    };
    let host = annotation_host_exec(artifacts, annotation_json)?;
    let extensions = annotation_object_exec(artifacts, annotation_json, "extensions")?;
    let extra = annotation_object_exec(artifacts, annotation_json, "extraFields")?;
    let sig_key = cat("ai-catalog.", "signature");
    let signature = annotation_value_of(&artifacts.index.annotations, sig_key.as_str());
    let ghost at = decoded_table(annotation_json@);
    let mut entries: Vec<CatalogEntry> = Vec::new();
    assert(entries@.map_values(|e: CatalogEntry| e@) =~= Seq::<EntryView>::empty());
    let mut i: usize = 0;
    while i < artifacts.index.manifests.len()
        invariant
            a == artifacts@,
            bt == decoded_table(blob_json@),
            at == decoded_table(annotation_json@),
            a.index.artifact_type == Some(catalog_media_type()),
            annotation_value(a.index.annotations, annotation_key("specVersion"@)) == Some(spec_version@),
            annotation_host(a, at) == Ok::<_, UnpackFailure>(opt_host_view(host)),
            annotation_object(a, at, "extensions"@) == Ok::<_, UnpackFailure>(opt_object_view(extensions)),
            annotation_object(a, at, "extraFields"@) == Ok::<_, UnpackFailure>(opt_object_view(extra)),
            annotation_value(a.index.annotations, annotation_key("signature"@)) == opt_view(signature),
            artifact_set_wf(*artifacts),
            i <= a.index.manifests.len(),
            unpack_entries(a, bt, i as nat) == Ok::<_, UnpackFailure>(entries@.map_values(|e: CatalogEntry| e@)),
        decreases artifacts.index.manifests.len() - i,
    {
        let e = match unpack_entry_exec(artifacts, blob_json, &artifacts.index.manifests[i]) {
            Ok(e) => e,
            Err(err) => {
                proof {
                    lemma_unpack_entries_err(a, bt, (i + 1) as nat, a.index.manifests.len());
                }
                return Err(err);
            },
        };
        let ghost before = entries@.map_values(|e: CatalogEntry| e@);
        entries.push(e);
        assert(entries@.map_values(|e: CatalogEntry| e@) =~= before.push(e@));
        i = i + 1;
    }
    let extra_fields = match extra {
        Some(ms) => ms,
        None => Vec::new(),
    };
    assert(object_view(Seq::<JsonMember>::empty()) =~= Seq::<(Seq<char>, JsonView)>::empty());
    Ok(AiCatalog { spec_version, host, entries, signature, extensions, extra_fields })
}

proof fn lemma_unpack_entries_err(a: ArtifactSetView, t: Seq<(Seq<char>, Result<JsonView, Seq<char>>)>, i: nat, n: nat)
    requires
        i <= n <= a.index.manifests.len(),
        unpack_entries(a, t, i) is Err,
    ensures
        unpack_entries(a, t, n) == unpack_entries(a, t, i),
    decreases n - i,
{
    if n > i {
        lemma_unpack_entries_err(a, t, i, (n - 1) as nat);
    }
}

} // verus!
