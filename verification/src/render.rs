//! Writing a catalog as a JSON value, as the document's schema lays it out:
//! members in their schema order, absent optional members and empty lists
//! left out, and the unknown members kept aside written after the others.
use vstd::prelude::*;
use vstd::string::*;
use crate::json::{JsonMember, JsonValue, JsonView, clone_json, clone_members, json_view, lemma_array_view, lemma_object_view, object_view, array_view};
use crate::model::{
    AiCatalog, Attestation, AttestationView, CatalogEntry, CatalogView, EntryView, HostInfo,
    HostView, ManifestView, ProvenanceLink, ProvenanceView, Publisher, PublisherView, SchemaView,
    Subject, SubjectView, TrustManifest, TrustSchema,
};
use crate::text::{decimal, lemma_seq_add_empty, opt_view, u64_to_string};

verus! {

pub type Members = Seq<(Seq<char>, JsonView)>;

pub open spec fn member(key: Seq<char>, value: JsonView) -> Members {
    seq![(key, value)]
}

pub open spec fn opt_string_member(key: Seq<char>, o: Option<Seq<char>>) -> Members {
    match o {
        Some(s) => member(key, JsonView::Str(s)),
        None => Seq::empty(),
    }
}

/// A list member, left out when the list is empty.
pub open spec fn list_member(key: Seq<char>, items: Seq<JsonView>) -> Members {
    if items.len() == 0 {
        Seq::empty()
    } else {
        member(key, JsonView::Array(items))
    }
}

pub open spec fn opt_json_member(key: Seq<char>, o: Option<JsonView>) -> Members {
    match o {
        Some(v) => member(key, v),
        None => Seq::empty(),
    }
}

pub open spec fn opt_object_member(key: Seq<char>, o: Option<Members>) -> Members {
    match o {
        Some(ms) => member(key, JsonView::Object(ms)),
        None => Seq::empty(),
    }
}

pub open spec fn string_writer() -> spec_fn(Seq<char>) -> JsonView {
    |s: Seq<char>| JsonView::Str(s)
}

pub open spec fn attestation_writer() -> spec_fn(AttestationView) -> JsonView {
    |a: AttestationView| attestation_json(a)
}

pub open spec fn provenance_writer() -> spec_fn(ProvenanceView) -> JsonView {
    |p: ProvenanceView| provenance_json(p)
}

pub open spec fn entry_writer() -> spec_fn(EntryView) -> JsonView {
    |e: EntryView| entry_json(e)
}

pub open spec fn subject_json(s: SubjectView) -> JsonView {
    JsonView::Object(
        member("type"@, JsonView::Str(s.subject_type)) + member("digest"@, JsonView::Str(s.digest))
            + opt_string_member("url"@, s.url) + s.extra_fields,
    )
}

pub open spec fn schema_json(s: SchemaView) -> JsonView {
    JsonView::Object(
        member("identifier"@, JsonView::Str(s.identifier)) + member(
            "version"@,
            JsonView::Str(s.version),
        ) + opt_string_member("governanceUri"@, s.governance_uri) + list_member(
            "verificationMethods"@,
            s.verification_methods.map_values(string_writer()),
        ) + s.extra_fields,
    )
}

pub open spec fn attestation_json(a: AttestationView) -> JsonView {
    JsonView::Object(
        member("type"@, JsonView::Str(a.attestation_type)) + member("uri"@, JsonView::Str(a.uri))
            + opt_string_member("digest"@, a.digest) + (match a.size {
            Some(n) => member("size"@, JsonView::Number(decimal(n as nat))),
            None => Seq::empty(),
        }) + opt_string_member("description"@, a.description) + a.extra_fields,
    )
}

pub open spec fn provenance_json(p: ProvenanceView) -> JsonView {
    JsonView::Object(
        member("relation"@, JsonView::Str(p.relation)) + member(
            "sourceId"@,
            JsonView::Str(p.source_id),
        ) + opt_string_member("sourceDigest"@, p.source_digest) + opt_string_member(
            "registryUri"@,
            p.registry_uri,
        ) + opt_string_member("statementUri"@, p.statement_uri) + opt_string_member(
            "signatureRef"@,
            p.signature_ref,
        ) + p.extra_fields,
    )
}

pub open spec fn manifest_json(m: ManifestView) -> JsonView {
    JsonView::Object(
        member("identity"@, JsonView::Str(m.identity)) + opt_string_member(
            "identityType"@,
            m.identity_type,
        ) + opt_json_member(
            "trustSchema"@,
            match m.trust_schema {
                Some(s) => Some(schema_json(s)),
                None => None,
            },
        ) + list_member(
            "attestations"@,
            m.attestations.map_values(attestation_writer()),
        ) + list_member(
            "provenance"@,
            m.provenance.map_values(provenance_writer()),
        ) + opt_string_member("privacyPolicyUrl"@, m.privacy_policy_url) + opt_string_member(
            "termsOfServiceUrl"@,
            m.terms_of_service_url,
        ) + opt_json_member(
            "subject"@,
            match m.subject {
                Some(s) => Some(subject_json(s)),
                None => None,
            },
        ) + opt_string_member("issuedAt"@, m.issued_at) + opt_string_member(
            "expiresAt"@,
            m.expires_at,
        ) + opt_string_member("signature"@, m.signature) + opt_object_member(
            "extensions"@,
            m.extensions,
        ) + m.extra_fields,
    )
}

pub open spec fn opt_manifest_json(o: Option<ManifestView>) -> Option<JsonView> {
    match o {
        Some(m) => Some(manifest_json(m)),
        None => None,
    }
}

pub open spec fn publisher_json(p: PublisherView) -> JsonView {
    JsonView::Object(
        member("identifier"@, JsonView::Str(p.identifier)) + member(
            "displayName"@,
            JsonView::Str(p.display_name),
        ) + opt_string_member("identityType"@, p.identity_type) + p.extra_fields,
    )
}

pub open spec fn host_json(h: HostView) -> JsonView {
    JsonView::Object(
        member("displayName"@, JsonView::Str(h.display_name)) + opt_string_member(
            "identifier"@,
            h.identifier,
        ) + opt_string_member("documentationUrl"@, h.documentation_url) + opt_string_member(
            "logoUrl"@,
            h.logo_url,
        ) + opt_json_member("trustManifest"@, opt_manifest_json(h.trust_manifest)) + h.extra_fields,
    )
}

pub open spec fn entry_json(e: EntryView) -> JsonView {
    JsonView::Object(
        member("identifier"@, JsonView::Str(e.identifier)) + opt_string_member(
            "displayName"@,
            e.display_name,
        ) + member("type"@, JsonView::Str(e.entry_type)) + opt_string_member("url"@, e.url)
            + opt_json_member("data"@, e.data) + opt_string_member("version"@, e.version)
            + opt_string_member("description"@, e.description) + list_member(
            "tags"@,
            e.tags.map_values(string_writer()),
        ) + opt_json_member(
            "publisher"@,
            match e.publisher {
                Some(p) => Some(publisher_json(p)),
                None => None,
            },
        ) + opt_json_member("trustManifest"@, opt_manifest_json(e.trust_manifest))
            + opt_string_member("updatedAt"@, e.updated_at) + opt_object_member(
            "extensions"@,
            e.extensions,
        ) + e.extra_fields,
    )
}

/// A catalog written as a JSON value.
pub open spec fn catalog_json(c: CatalogView) -> JsonView {
    JsonView::Object(
        member("specVersion"@, JsonView::Str(c.spec_version)) + opt_json_member(
            "host"@,
            match c.host {
                Some(h) => Some(host_json(h)),
                None => None,
            },
        ) + member("entries"@, JsonView::Array(c.entries.map_values(entry_writer())))
            + opt_string_member("signature"@, c.signature) + opt_object_member(
            "extensions"@,
            c.extensions,
        ) + c.extra_fields,
    )
}

proof fn lemma_object_view_push(v: Seq<JsonMember>, m: JsonMember)
    ensures
        object_view(v.push(m)) == object_view(v) + member(m.key@, json_view(m.value)),
{
    lemma_object_view(v);
    lemma_object_view(v.push(m));
    assert(object_view(v.push(m)) =~= object_view(v) + member(m.key@, json_view(m.value)));
}

pub(crate) fn add_member(out: &mut Vec<JsonMember>, key: &str, value: JsonValue)
    ensures
        object_view(final(out)@) == object_view(old(out)@) + member(key@, json_view(value)),
{
    let m = JsonMember { key: String::from_str(key), value };
    proof {
        lemma_object_view_push(out@, m);
    }
    out.push(m);
}

pub(crate) fn add_string(out: &mut Vec<JsonMember>, key: &str, s: &String)
    ensures
        object_view(final(out)@) == object_view(old(out)@) + member(key@, JsonView::Str(s@)),
{
    add_member(out, key, JsonValue::Str(s.clone()));
}

pub(crate) fn add_opt_string(out: &mut Vec<JsonMember>, key: &str, o: &Option<String>)
    ensures
        object_view(final(out)@) == object_view(old(out)@) + opt_string_member(key@, opt_view(*o)),
{
    match o {
        Some(s) => add_string(out, key, s),
        None => {
            proof {
                lemma_seq_add_empty(object_view(out@));
            }
        },
    }
}

pub(crate) fn add_opt_json(out: &mut Vec<JsonMember>, key: &str, o: Option<JsonValue>)
    ensures
        object_view(final(out)@) == object_view(old(out)@) + opt_json_member(
            key@,
            match o {
                Some(v) => Some(json_view(v)),
                None => None,
            },
        ),
{
    match o {
        Some(v) => add_member(out, key, v),
        None => {
            proof {
                lemma_seq_add_empty(object_view(out@));
            }
        },
    }
}

pub(crate) fn add_opt_object(out: &mut Vec<JsonMember>, key: &str, o: &Option<Vec<JsonMember>>)
    ensures
        object_view(final(out)@) == object_view(old(out)@) + opt_object_member(
            key@,
            crate::model::opt_object_view(*o),
        ),
{
    match o {
        Some(ms) => add_member(out, key, JsonValue::Object(clone_members(ms))),
        None => {
            proof {
                lemma_seq_add_empty(object_view(out@));
            }
        },
    }
}

pub(crate) fn add_list(out: &mut Vec<JsonMember>, key: &str, items: Vec<JsonValue>)
    ensures
        object_view(final(out)@) == object_view(old(out)@) + list_member(key@, array_view(items@)),
{
    proof {
        lemma_array_view(items@);
    }
    if items.len() == 0 {
        proof {
            lemma_seq_add_empty(object_view(out@));
        }
    } else {
        add_member(out, key, JsonValue::Array(items));
    }
}

pub(crate) fn add_extra(out: &mut Vec<JsonMember>, extra: &Vec<JsonMember>)
    ensures
        object_view(final(out)@) == object_view(old(out)@) + object_view(extra@),
{
    let ghost start = object_view(out@);
    let mut i: usize = 0;
    proof {
        lemma_object_view(extra@);
        assert(object_view(extra@).take(0) =~= Seq::<(Seq<char>, JsonView)>::empty());
        lemma_seq_add_empty(start);
    }
    while i < extra.len()
        invariant
            i <= extra@.len(),
            object_view(extra@).len() == extra@.len(),
            forall|k: int| 0 <= k < extra@.len() ==> #[trigger] object_view(extra@)[k] == (extra@[k].key@, json_view(extra@[k].value)),
            object_view(out@) == start + object_view(extra@).take(i as int),
        decreases extra.len() - i,
    {
        let m = JsonMember { key: extra[i].key.clone(), value: clone_json(&extra[i].value) };
        proof {
            lemma_object_view_push(out@, m);
        }
        out.push(m);
        assert(object_view(extra@).take(i + 1) =~= object_view(extra@).take(i as int) + member(extra@[i as int].key@, json_view(extra@[i as int].value)));
        proof {
            crate::text::lemma_seq_assoc(start, object_view(extra@).take(i as int), member(extra@[i as int].key@, json_view(extra@[i as int].value)));
        }
        i = i + 1;
    }
    assert(object_view(extra@).take(extra@.len() as int) =~= object_view(extra@));
}

pub(crate) fn strings_to_json(v: &Vec<String>) -> (r: Vec<JsonValue>)
    ensures
        array_view(r@) == v@.map_values(|s: String| s@).map_values(string_writer()),
{
    let mut out: Vec<JsonValue> = Vec::new();
    let mut i: usize = 0;
    while i < v.len()
        invariant
            i <= v@.len(),
            out@.len() == i,
            forall|k: int| 0 <= k < i ==> json_view(#[trigger] out@[k]) == JsonView::Str(v@[k]@),
        decreases v.len() - i,
    {
        out.push(JsonValue::Str(v[i].clone()));
        i = i + 1;
    }
    proof {
        lemma_array_view(out@);
        assert(array_view(out@) =~= v@.map_values(|s: String| s@).map_values(string_writer()));
    }
    out
}

/// A subject written as a JSON value.
pub fn subject_to_json(s: &Subject) -> (r: JsonValue)
    ensures
        json_view(r) == subject_json(s@),
{
    let mut out: Vec<JsonMember> = Vec::new();
    assert(object_view(out@) =~= Seq::<(Seq<char>, JsonView)>::empty());
    add_string(&mut out, "type", &s.subject_type);
    proof {
        lemma_seq_add_empty(member("type"@, JsonView::Str(s@.subject_type)));
    }
    add_string(&mut out, "digest", &s.digest);
    add_opt_string(&mut out, "url", &s.url);
    add_extra(&mut out, &s.extra_fields);
    JsonValue::Object(out)
}

/// A trust schema written as a JSON value.
pub fn schema_to_json(s: &TrustSchema) -> (r: JsonValue)
    ensures
        json_view(r) == schema_json(s@),
{
    let mut out: Vec<JsonMember> = Vec::new();
    assert(object_view(out@) =~= Seq::<(Seq<char>, JsonView)>::empty());
    add_string(&mut out, "identifier", &s.identifier);
    proof {
        lemma_seq_add_empty(member("identifier"@, JsonView::Str(s@.identifier)));
    }
    add_string(&mut out, "version", &s.version);
    add_opt_string(&mut out, "governanceUri", &s.governance_uri);
    let methods = strings_to_json(&s.verification_methods);
    add_list(&mut out, "verificationMethods", methods);
    add_extra(&mut out, &s.extra_fields);
    JsonValue::Object(out)
}

/// An attestation written as a JSON value.
pub fn attestation_to_json(a: &Attestation) -> (r: JsonValue)
    ensures
        json_view(r) == attestation_json(a@),
{
    let mut out: Vec<JsonMember> = Vec::new();
    assert(object_view(out@) =~= Seq::<(Seq<char>, JsonView)>::empty());
    add_string(&mut out, "type", &a.attestation_type);
    proof {
        lemma_seq_add_empty(member("type"@, JsonView::Str(a@.attestation_type)));
    }
    add_string(&mut out, "uri", &a.uri);
    add_opt_string(&mut out, "digest", &a.digest);
    let size = match a.size {
        Some(n) => Some(JsonValue::Number(u64_to_string(n))),
        None => None,
    };
    add_opt_json(&mut out, "size", size);
    add_opt_string(&mut out, "description", &a.description);
    add_extra(&mut out, &a.extra_fields);
    JsonValue::Object(out)
}

/// A provenance link written as a JSON value.
pub fn provenance_to_json(p: &ProvenanceLink) -> (r: JsonValue)
    ensures
        json_view(r) == provenance_json(p@),
{
    let mut out: Vec<JsonMember> = Vec::new();
    assert(object_view(out@) =~= Seq::<(Seq<char>, JsonView)>::empty());
    add_string(&mut out, "relation", &p.relation);
    proof {
        lemma_seq_add_empty(member("relation"@, JsonView::Str(p@.relation)));
    }
    add_string(&mut out, "sourceId", &p.source_id);
    add_opt_string(&mut out, "sourceDigest", &p.source_digest);
    add_opt_string(&mut out, "registryUri", &p.registry_uri);
    add_opt_string(&mut out, "statementUri", &p.statement_uri);
    add_opt_string(&mut out, "signatureRef", &p.signature_ref);
    add_extra(&mut out, &p.extra_fields);
    JsonValue::Object(out)
}

/// A trust manifest written as a JSON value.
pub fn manifest_to_json(m: &TrustManifest) -> (r: JsonValue)
    ensures
        json_view(r) == manifest_json(m@),
{
    let mut out: Vec<JsonMember> = Vec::new();
    assert(object_view(out@) =~= Seq::<(Seq<char>, JsonView)>::empty());
    add_string(&mut out, "identity", &m.identity);
    proof {
        lemma_seq_add_empty(member("identity"@, JsonView::Str(m@.identity)));
    }
    add_opt_string(&mut out, "identityType", &m.identity_type);
    let schema = match &m.trust_schema {
        Some(s) => Some(schema_to_json(s)),
        None => None,
    };
    add_opt_json(&mut out, "trustSchema", schema);
    let mut atts: Vec<JsonValue> = Vec::new();
    let mut i: usize = 0;
    while i < m.attestations.len()
        invariant
            i <= m.attestations@.len(),
            atts@.len() == i,
            forall|k: int| 0 <= k < i ==> json_view(#[trigger] atts@[k]) == attestation_json(m.attestations@[k]@),
        decreases m.attestations.len() - i,
    {
        atts.push(attestation_to_json(&m.attestations[i]));
        i = i + 1;
    }
    proof {
        lemma_array_view(atts@);
        assert(array_view(atts@) =~= m@.attestations.map_values(attestation_writer()));
    }
    add_list(&mut out, "attestations", atts);
    let mut links: Vec<JsonValue> = Vec::new();
    let mut j: usize = 0;
    while j < m.provenance.len()
        invariant
            j <= m.provenance@.len(),
            links@.len() == j,
            forall|k: int| 0 <= k < j ==> json_view(#[trigger] links@[k]) == provenance_json(m.provenance@[k]@),
        decreases m.provenance.len() - j,
    {
        links.push(provenance_to_json(&m.provenance[j]));
        j = j + 1;
    }
    proof {
        lemma_array_view(links@);
        assert(array_view(links@) =~= m@.provenance.map_values(provenance_writer()));
    }
    add_list(&mut out, "provenance", links);
    add_opt_string(&mut out, "privacyPolicyUrl", &m.privacy_policy_url);
    add_opt_string(&mut out, "termsOfServiceUrl", &m.terms_of_service_url);
    let subject = match &m.subject {
        Some(s) => Some(subject_to_json(s)),
        None => None,
    };
    add_opt_json(&mut out, "subject", subject);
    add_opt_string(&mut out, "issuedAt", &m.issued_at);
    add_opt_string(&mut out, "expiresAt", &m.expires_at);
    add_opt_string(&mut out, "signature", &m.signature);
    add_opt_object(&mut out, "extensions", &m.extensions);
    add_extra(&mut out, &m.extra_fields);
    JsonValue::Object(out)
}

/// A publisher written as a JSON value.
pub fn publisher_to_json(p: &Publisher) -> (r: JsonValue)
    ensures
        json_view(r) == publisher_json(p@),
{
    let mut out: Vec<JsonMember> = Vec::new();
    assert(object_view(out@) =~= Seq::<(Seq<char>, JsonView)>::empty());
    add_string(&mut out, "identifier", &p.identifier);
    proof {
        lemma_seq_add_empty(member("identifier"@, JsonView::Str(p@.identifier)));
    }
    add_string(&mut out, "displayName", &p.display_name);
    add_opt_string(&mut out, "identityType", &p.identity_type);
    add_extra(&mut out, &p.extra_fields);
    JsonValue::Object(out)
}

/// A host written as a JSON value.
pub fn host_to_json(h: &HostInfo) -> (r: JsonValue)
    ensures
        json_view(r) == host_json(h@),
{
    let mut out: Vec<JsonMember> = Vec::new();
    assert(object_view(out@) =~= Seq::<(Seq<char>, JsonView)>::empty());
    add_string(&mut out, "displayName", &h.display_name);
    proof {
        lemma_seq_add_empty(member("displayName"@, JsonView::Str(h@.display_name)));
    }
    add_opt_string(&mut out, "identifier", &h.identifier);
    add_opt_string(&mut out, "documentationUrl", &h.documentation_url);
    add_opt_string(&mut out, "logoUrl", &h.logo_url);
    let manifest = match &h.trust_manifest {
        Some(m) => Some(manifest_to_json(m)),
        None => None,
    };
    add_opt_json(&mut out, "trustManifest", manifest);
    add_extra(&mut out, &h.extra_fields);
    JsonValue::Object(out)
}

/// An entry written as a JSON value.
pub fn entry_to_json(e: &CatalogEntry) -> (r: JsonValue)
    ensures
        json_view(r) == entry_json(e@),
{
    let mut out: Vec<JsonMember> = Vec::new();
    assert(object_view(out@) =~= Seq::<(Seq<char>, JsonView)>::empty());
    add_string(&mut out, "identifier", &e.identifier);
    proof {
        lemma_seq_add_empty(member("identifier"@, JsonView::Str(e@.identifier)));
    }
    add_opt_string(&mut out, "displayName", &e.display_name);
    add_string(&mut out, "type", &e.entry_type);
    add_opt_string(&mut out, "url", &e.url);
    let data = match &e.data {
        Some(d) => Some(clone_json(d)),
        None => None,
    };
    add_opt_json(&mut out, "data", data);
    add_opt_string(&mut out, "version", &e.version);
    add_opt_string(&mut out, "description", &e.description);
    let tags = strings_to_json(&e.tags);
    add_list(&mut out, "tags", tags);
    let publisher = match &e.publisher {
        Some(p) => Some(publisher_to_json(p)),
        None => None,
    };
    add_opt_json(&mut out, "publisher", publisher);
    let manifest = match &e.trust_manifest {
        Some(m) => Some(manifest_to_json(m)),
        None => None,
    };
    add_opt_json(&mut out, "trustManifest", manifest);
    add_opt_string(&mut out, "updatedAt", &e.updated_at);
    add_opt_object(&mut out, "extensions", &e.extensions);
    add_extra(&mut out, &e.extra_fields);
    JsonValue::Object(out)
}

/// A catalog written as a JSON value, as the document's schema lays it
/// out.
pub fn catalog_to_json(c: &AiCatalog) -> (r: JsonValue)
    ensures
        json_view(r) == catalog_json(c@),
{
    let mut out: Vec<JsonMember> = Vec::new();
    assert(object_view(out@) =~= Seq::<(Seq<char>, JsonView)>::empty());
    add_string(&mut out, "specVersion", &c.spec_version);
    proof {
        lemma_seq_add_empty(member("specVersion"@, JsonView::Str(c@.spec_version)));
    }
    let host = match &c.host {
        Some(h) => Some(host_to_json(h)),
        None => None,
    };
    add_opt_json(&mut out, "host", host);
    let mut entries: Vec<JsonValue> = Vec::new();
    let mut i: usize = 0;
    while i < c.entries.len()
        invariant
            i <= c.entries@.len(),
            entries@.len() == i,
            forall|k: int| 0 <= k < i ==> json_view(#[trigger] entries@[k]) == entry_json(c.entries@[k]@),
        decreases c.entries.len() - i,
    {
        entries.push(entry_to_json(&c.entries[i]));
        i = i + 1;
    }
    proof {
        lemma_array_view(entries@);
        assert(array_view(entries@) =~= c@.entries.map_values(entry_writer()));
    }
    add_member(&mut out, "entries", JsonValue::Array(entries));
    add_opt_string(&mut out, "signature", &c.signature);
    add_opt_object(&mut out, "extensions", &c.extensions);
    add_extra(&mut out, &c.extra_fields);
    JsonValue::Object(out)
}

} // verus!
