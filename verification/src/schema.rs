//! Reading a catalog out of a JSON value, member by member, as the
//! document's schema lays out: each known member with its type, missing
//! members defaulted, and unknown members kept aside.
use vstd::prelude::*;
use vstd::string::*;
use crate::json::{
    JsonMember, JsonValue, JsonView, array_view, clone_json, clone_members, json_view,
    lemma_array_view, lemma_object_view, object_view,
};
use crate::model::{
    AiCatalog, Attestation, AttestationView, CatalogEntry, CatalogView, EntryView, HostInfo,
    HostView, ManifestView, ProvenanceLink, ProvenanceView, Publisher, PublisherView, SchemaView,
    Subject, SubjectView, TrustManifest, TrustSchema, opt_host_view, opt_json_view,
    opt_manifest_view, opt_object_view, opt_publisher_view, opt_schema_view, opt_subject_view,
    strings_view,
};
use crate::text::{chars_of, chars_eq, opt_view};

verus! {

/// The value of the first member named `key`.
pub open spec fn lookup(ms: Seq<(Seq<char>, JsonView)>, key: Seq<char>) -> Option<JsonView>
    decreases ms.len(),
{
    if ms.len() == 0 {
        None
    } else {
        match lookup(ms.drop_last(), key) {
            Some(v) => Some(v),
            None => if ms.last().0 == key {
                Some(ms.last().1)
            } else {
                None
            },
        }
    }
}

/// The members whose key is not among `known`, in order.
pub open spec fn unknown_members(ms: Seq<(Seq<char>, JsonView)>, known: Seq<Seq<char>>) -> Seq<(Seq<char>, JsonView)>
    decreases ms.len(),
{
    if ms.len() == 0 {
        Seq::empty()
    } else {
        let prefix = unknown_members(ms.drop_last(), known);
        if known.contains(ms.last().0) {
            prefix
        } else {
            prefix.push(ms.last())
        }
    }
}

pub open spec fn invalid_member(key: Seq<char>) -> Seq<char> {
    "invalid type for member '"@ + key + "'"@
}

pub open spec fn not_an_object() -> Seq<char> {
    "invalid type: expected a JSON object"@
}

/// A string member with an empty default.
pub open spec fn f_string(ms: Seq<(Seq<char>, JsonView)>, key: Seq<char>) -> Result<Seq<char>, Seq<char>> {
    match lookup(ms, key) {
        None => Ok(Seq::empty()),
        Some(JsonView::Str(s)) => Ok(s),
        Some(_) => Err(invalid_member(key)),
    }
}

/// An optional string member; `null` reads as absent.
pub open spec fn f_opt_string(ms: Seq<(Seq<char>, JsonView)>, key: Seq<char>) -> Result<Option<Seq<char>>, Seq<char>> {
    match lookup(ms, key) {
        None => Ok(None),
        Some(JsonView::Null) => Ok(None),
        Some(JsonView::Str(s)) => Ok(Some(s)),
        Some(_) => Err(invalid_member(key)),
    }
}

pub open spec fn all_strings(items: Seq<JsonView>) -> bool {
    forall|i: int| 0 <= i < items.len() ==> items[i] is Str
}

/// A list-of-strings member with an empty default.
pub open spec fn f_strings(ms: Seq<(Seq<char>, JsonView)>, key: Seq<char>) -> Result<Seq<Seq<char>>, Seq<char>> {
    match lookup(ms, key) {
        None => Ok(Seq::empty()),
        Some(JsonView::Array(items)) => if all_strings(items) {
            Ok(items.map_values(|v: JsonView| v->Str_0))
        } else {
            Err(invalid_member(key))
        },
        Some(_) => Err(invalid_member(key)),
    }
}

/// An optional object member; `null` reads as absent.
pub open spec fn f_opt_object(ms: Seq<(Seq<char>, JsonView)>, key: Seq<char>) -> Result<Option<Seq<(Seq<char>, JsonView)>>, Seq<char>> {
    match lookup(ms, key) {
        None => Ok(None),
        Some(JsonView::Null) => Ok(None),
        Some(JsonView::Object(m)) => Ok(Some(m)),
        Some(_) => Err(invalid_member(key)),
    }
}

/// An optional member of any JSON value; `null` reads as absent.
pub open spec fn f_opt_json(ms: Seq<(Seq<char>, JsonView)>, key: Seq<char>) -> Option<JsonView> {
    match lookup(ms, key) {
        None => None,
        Some(JsonView::Null) => None,
        Some(v) => Some(v),
    }
}

pub open spec fn is_digit(c: char) -> bool {
    '0' <= c && c <= '9'
}

pub open spec fn digits_value(t: Seq<char>) -> nat
    decreases t.len(),
{
    if t.len() == 0 {
        0
    } else {
        digits_value(t.drop_last()) * 10 + ((t.last() as u32) - 48) as nat
    }
}

/// The unsigned 64-bit integer a JSON number's text denotes, if it is one.
pub open spec fn number_as_u64(t: Seq<char>) -> Option<u64> {
    if t.len() > 0 && (forall|i: int| 0 <= i < t.len() ==> is_digit(#[trigger] t[i]))
        && digits_value(t) <= u64::MAX {
        Some(digits_value(t) as u64)
    } else {
        None
    }
}

/// An optional unsigned integer member; `null` reads as absent.
pub open spec fn f_opt_u64(ms: Seq<(Seq<char>, JsonView)>, key: Seq<char>) -> Result<Option<u64>, Seq<char>> {
    match lookup(ms, key) {
        None => Ok(None),
        Some(JsonView::Null) => Ok(None),
        Some(JsonView::Number(t)) => match number_as_u64(t) {
            Some(n) => Ok(Some(n)),
            None => Err(invalid_member(key)),
        },
        Some(_) => Err(invalid_member(key)),
    }
}

/// Reading every element of a list, stopping at the first error.
pub open spec fn parse_all<T>(items: Seq<JsonView>, f: spec_fn(JsonView) -> Result<T, Seq<char>>) -> Result<Seq<T>, Seq<char>>
    decreases items.len(),
{
    if items.len() == 0 {
        Ok(Seq::empty())
    } else {
        match parse_all(items.drop_last(), f) {
            Err(e) => Err(e),
            Ok(prefix) => match f(items.last()) {
                Err(e) => Err(e),
                Ok(x) => Ok(prefix.push(x)),
            },
        }
    }
}

/// A list member of structured elements with an empty default.
pub open spec fn f_list<T>(ms: Seq<(Seq<char>, JsonView)>, key: Seq<char>, f: spec_fn(JsonView) -> Result<T, Seq<char>>) -> Result<Seq<T>, Seq<char>> {
    match lookup(ms, key) {
        None => Ok(Seq::empty()),
        Some(JsonView::Array(items)) => parse_all(items, f),
        Some(_) => Err(invalid_member(key)),
    }
}

/// An optional structured member; `null` reads as absent.
pub open spec fn f_opt<T>(ms: Seq<(Seq<char>, JsonView)>, key: Seq<char>, f: spec_fn(JsonView) -> Result<T, Seq<char>>) -> Result<Option<T>, Seq<char>> {
    match lookup(ms, key) {
        None => Ok(None),
        Some(JsonView::Null) => Ok(None),
        Some(v) => match f(v) {
            Ok(x) => Ok(Some(x)),
            Err(e) => Err(e),
        },
    }
}

pub open spec fn schema_parser() -> spec_fn(JsonView) -> Result<SchemaView, Seq<char>> {
    |v: JsonView| spec_schema(v)
}

pub open spec fn attestation_parser() -> spec_fn(JsonView) -> Result<AttestationView, Seq<char>> {
    |v: JsonView| spec_attestation(v)
}

pub open spec fn provenance_parser() -> spec_fn(JsonView) -> Result<ProvenanceView, Seq<char>> {
    |v: JsonView| spec_provenance(v)
}

pub open spec fn subject_parser() -> spec_fn(JsonView) -> Result<SubjectView, Seq<char>> {
    |v: JsonView| spec_subject(v)
}

pub open spec fn manifest_parser() -> spec_fn(JsonView) -> Result<ManifestView, Seq<char>> {
    |v: JsonView| spec_manifest(v)
}

pub open spec fn publisher_parser() -> spec_fn(JsonView) -> Result<PublisherView, Seq<char>> {
    |v: JsonView| spec_publisher(v)
}

pub open spec fn host_parser() -> spec_fn(JsonView) -> Result<HostView, Seq<char>> {
    |v: JsonView| spec_host(v)
}

pub open spec fn entry_parser() -> spec_fn(JsonView) -> Result<EntryView, Seq<char>> {
    |v: JsonView| spec_entry(v)
}

pub open spec fn subject_keys() -> Seq<Seq<char>> {
    seq!["type"@, "digest"@, "url"@]
}

pub open spec fn spec_subject(j: JsonView) -> Result<SubjectView, Seq<char>> {
    match j {
        JsonView::Object(ms) => {
            let t = f_string(ms, "type"@);
            let d = f_string(ms, "digest"@);
            let u = f_opt_string(ms, "url"@);
            if t is Err {
                Err(t->Err_0)
            } else if d is Err {
                Err(d->Err_0)
            } else if u is Err {
                Err(u->Err_0)
            } else {
                Ok(
                    SubjectView {
                        subject_type: t->Ok_0,
                        digest: d->Ok_0,
                        url: u->Ok_0,
                        extra_fields: unknown_members(ms, subject_keys()),
                    },
                )
            }
        },
        _ => Err(not_an_object()),
    }
}

pub open spec fn schema_keys() -> Seq<Seq<char>> {
    seq!["identifier"@, "version"@, "governanceUri"@, "verificationMethods"@]
}

pub open spec fn spec_schema(j: JsonView) -> Result<SchemaView, Seq<char>> {
    match j {
        JsonView::Object(ms) => {
            let a = f_string(ms, "identifier"@);
            let b = f_string(ms, "version"@);
            let c = f_opt_string(ms, "governanceUri"@);
            let d = f_strings(ms, "verificationMethods"@);
            if a is Err {
                Err(a->Err_0)
            } else if b is Err {
                Err(b->Err_0)
            } else if c is Err {
                Err(c->Err_0)
            } else if d is Err {
                Err(d->Err_0)
            } else {
                Ok(
                    SchemaView {
                        identifier: a->Ok_0,
                        version: b->Ok_0,
                        governance_uri: c->Ok_0,
                        verification_methods: d->Ok_0,
                        extra_fields: unknown_members(ms, schema_keys()),
                    },
                )
            }
        },
        _ => Err(not_an_object()),
    }
}

pub open spec fn attestation_keys() -> Seq<Seq<char>> {
    seq!["type"@, "uri"@, "digest"@, "size"@, "description"@]
}

pub open spec fn spec_attestation(j: JsonView) -> Result<AttestationView, Seq<char>> {
    match j {
        JsonView::Object(ms) => {
            let a = f_string(ms, "type"@);
            let b = f_string(ms, "uri"@);
            let c = f_opt_string(ms, "digest"@);
            let d = f_opt_u64(ms, "size"@);
            let e = f_opt_string(ms, "description"@);
            if a is Err {
                Err(a->Err_0)
            } else if b is Err {
                Err(b->Err_0)
            } else if c is Err {
                Err(c->Err_0)
            } else if d is Err {
                Err(d->Err_0)
            } else if e is Err {
                Err(e->Err_0)
            } else {
                Ok(
                    AttestationView {
                        attestation_type: a->Ok_0,
                        uri: b->Ok_0,
                        digest: c->Ok_0,
                        size: d->Ok_0,
                        description: e->Ok_0,
                        extra_fields: unknown_members(ms, attestation_keys()),
                    },
                )
            }
        },
        _ => Err(not_an_object()),
    }
}

pub open spec fn provenance_keys() -> Seq<Seq<char>> {
    seq![
        "relation"@,
        "sourceId"@,
        "sourceDigest"@,
        "registryUri"@,
        "statementUri"@,
        "signatureRef"@,
    ]
}

pub open spec fn spec_provenance(j: JsonView) -> Result<ProvenanceView, Seq<char>> {
    match j {
        JsonView::Object(ms) => {
            let a = f_string(ms, "relation"@);
            let b = f_string(ms, "sourceId"@);
            let c = f_opt_string(ms, "sourceDigest"@);
            let d = f_opt_string(ms, "registryUri"@);
            let e = f_opt_string(ms, "statementUri"@);
            let f = f_opt_string(ms, "signatureRef"@);
            if a is Err {
                Err(a->Err_0)
            } else if b is Err {
                Err(b->Err_0)
            } else if c is Err {
                Err(c->Err_0)
            } else if d is Err {
                Err(d->Err_0)
            } else if e is Err {
                Err(e->Err_0)
            } else if f is Err {
                Err(f->Err_0)
            } else {
                Ok(
                    ProvenanceView {
                        relation: a->Ok_0,
                        source_id: b->Ok_0,
                        source_digest: c->Ok_0,
                        registry_uri: d->Ok_0,
                        statement_uri: e->Ok_0,
                        signature_ref: f->Ok_0,
                        extra_fields: unknown_members(ms, provenance_keys()),
                    },
                )
            }
        },
        _ => Err(not_an_object()),
    }
}

} // verus!

verus! {

pub open spec fn manifest_keys() -> Seq<Seq<char>> {
    seq![
        "identity"@,
        "identityType"@,
        "trustSchema"@,
        "attestations"@,
        "provenance"@,
        "privacyPolicyUrl"@,
        "termsOfServiceUrl"@,
        "subject"@,
        "issuedAt"@,
        "expiresAt"@,
        "signature"@,
        "extensions"@,
    ]
}

pub open spec fn spec_manifest(j: JsonView) -> Result<ManifestView, Seq<char>> {
    match j {
        JsonView::Object(ms) => {
            let a = f_string(ms, "identity"@);
            let b = f_opt_string(ms, "identityType"@);
            let c = f_opt(ms, "trustSchema"@, schema_parser());
            let d = f_list(ms, "attestations"@, attestation_parser());
            let e = f_list(ms, "provenance"@, provenance_parser());
            let f = f_opt_string(ms, "privacyPolicyUrl"@);
            let g = f_opt_string(ms, "termsOfServiceUrl"@);
            let h = f_opt(ms, "subject"@, subject_parser());
            let i = f_opt_string(ms, "issuedAt"@);
            let k = f_opt_string(ms, "expiresAt"@);
            let l = f_opt_string(ms, "signature"@);
            let m = f_opt_object(ms, "extensions"@);
            if a is Err {
                Err(a->Err_0)
            } else if b is Err {
                Err(b->Err_0)
            } else if c is Err {
                Err(c->Err_0)
            } else if d is Err {
                Err(d->Err_0)
            } else if e is Err {
                Err(e->Err_0)
            } else if f is Err {
                Err(f->Err_0)
            } else if g is Err {
                Err(g->Err_0)
            } else if h is Err {
                Err(h->Err_0)
            } else if i is Err {
                Err(i->Err_0)
            } else if k is Err {
                Err(k->Err_0)
            } else if l is Err {
                Err(l->Err_0)
            } else if m is Err {
                Err(m->Err_0)
            } else {
                Ok(
                    ManifestView {
                        identity: a->Ok_0,
                        identity_type: b->Ok_0,
                        trust_schema: c->Ok_0,
                        attestations: d->Ok_0,
                        provenance: e->Ok_0,
                        privacy_policy_url: f->Ok_0,
                        terms_of_service_url: g->Ok_0,
                        subject: h->Ok_0,
                        issued_at: i->Ok_0,
                        expires_at: k->Ok_0,
                        signature: l->Ok_0,
                        extensions: m->Ok_0,
                        extra_fields: unknown_members(ms, manifest_keys()),
                    },
                )
            }
        },
        _ => Err(not_an_object()),
    }
}

pub open spec fn publisher_keys() -> Seq<Seq<char>> {
    seq!["identifier"@, "displayName"@, "identityType"@]
}

pub open spec fn spec_publisher(j: JsonView) -> Result<PublisherView, Seq<char>> {
    match j {
        JsonView::Object(ms) => {
            let a = f_string(ms, "identifier"@);
            let b = f_string(ms, "displayName"@);
            let c = f_opt_string(ms, "identityType"@);
            if a is Err {
                Err(a->Err_0)
            } else if b is Err {
                Err(b->Err_0)
            } else if c is Err {
                Err(c->Err_0)
            } else {
                Ok(
                    PublisherView {
                        identifier: a->Ok_0,
                        display_name: b->Ok_0,
                        identity_type: c->Ok_0,
                        extra_fields: unknown_members(ms, publisher_keys()),
                    },
                )
            }
        },
        _ => Err(not_an_object()),
    }
}

pub open spec fn host_keys() -> Seq<Seq<char>> {
    seq!["displayName"@, "identifier"@, "documentationUrl"@, "logoUrl"@, "trustManifest"@]
}

pub open spec fn spec_host(j: JsonView) -> Result<HostView, Seq<char>> {
    match j {
        JsonView::Object(ms) => {
            let a = f_string(ms, "displayName"@);
            let b = f_opt_string(ms, "identifier"@);
            let c = f_opt_string(ms, "documentationUrl"@);
            let d = f_opt_string(ms, "logoUrl"@);
            let e = f_opt(ms, "trustManifest"@, manifest_parser());
            if a is Err {
                Err(a->Err_0)
            } else if b is Err {
                Err(b->Err_0)
            } else if c is Err {
                Err(c->Err_0)
            } else if d is Err {
                Err(d->Err_0)
            } else if e is Err {
                Err(e->Err_0)
            } else {
                Ok(
                    HostView {
                        display_name: a->Ok_0,
                        identifier: b->Ok_0,
                        documentation_url: c->Ok_0,
                        logo_url: d->Ok_0,
                        trust_manifest: e->Ok_0,
                        extra_fields: unknown_members(ms, host_keys()),
                    },
                )
            }
        },
        _ => Err(not_an_object()),
    }
}

pub open spec fn entry_keys() -> Seq<Seq<char>> {
    seq![
        "identifier"@,
        "displayName"@,
        "type"@,
        "url"@,
        "data"@,
        "version"@,
        "description"@,
        "tags"@,
        "publisher"@,
        "trustManifest"@,
        "updatedAt"@,
        "extensions"@,
    ]
}

pub open spec fn spec_entry(j: JsonView) -> Result<EntryView, Seq<char>> {
    match j {
        JsonView::Object(ms) => {
            let a = f_string(ms, "identifier"@);
            let b = f_opt_string(ms, "displayName"@);
            let c = f_string(ms, "type"@);
            let d = f_opt_string(ms, "url"@);
            let e = f_opt_string(ms, "version"@);
            let f = f_opt_string(ms, "description"@);
            let g = f_strings(ms, "tags"@);
            let h = f_opt(ms, "publisher"@, publisher_parser());
            let i = f_opt(ms, "trustManifest"@, manifest_parser());
            let k = f_opt_string(ms, "updatedAt"@);
            let l = f_opt_object(ms, "extensions"@);
            if a is Err {
                Err(a->Err_0)
            } else if b is Err {
                Err(b->Err_0)
            } else if c is Err {
                Err(c->Err_0)
            } else if d is Err {
                Err(d->Err_0)
            } else if e is Err {
                Err(e->Err_0)
            } else if f is Err {
                Err(f->Err_0)
            } else if g is Err {
                Err(g->Err_0)
            } else if h is Err {
                Err(h->Err_0)
            } else if i is Err {
                Err(i->Err_0)
            } else if k is Err {
                Err(k->Err_0)
            } else if l is Err {
                Err(l->Err_0)
            } else {
                Ok(
                    EntryView {
                        identifier: a->Ok_0,
                        display_name: b->Ok_0,
                        entry_type: c->Ok_0,
                        url: d->Ok_0,
                        data: f_opt_json(ms, "data"@),
                        version: e->Ok_0,
                        description: f->Ok_0,
                        tags: g->Ok_0,
                        publisher: h->Ok_0,
                        trust_manifest: i->Ok_0,
                        updated_at: k->Ok_0,
                        extensions: l->Ok_0,
                        extra_fields: unknown_members(ms, entry_keys()),
                    },
                )
            }
        },
        _ => Err(not_an_object()),
    }
}

pub open spec fn catalog_keys() -> Seq<Seq<char>> {
    seq!["specVersion"@, "host"@, "entries"@, "signature"@, "extensions"@]
}

/// The catalog a JSON value reads as, or why it does not read as one.
pub open spec fn spec_catalog_from_json(j: JsonView) -> Result<CatalogView, Seq<char>> {
    match j {
        JsonView::Object(ms) => {
            let a = f_string(ms, "specVersion"@);
            let b = f_opt(ms, "host"@, host_parser());
            let c = f_list(ms, "entries"@, entry_parser());
            let d = f_opt_string(ms, "signature"@);
            let e = f_opt_object(ms, "extensions"@);
            if a is Err {
                Err(a->Err_0)
            } else if b is Err {
                Err(b->Err_0)
            } else if c is Err {
                Err(c->Err_0)
            } else if d is Err {
                Err(d->Err_0)
            } else if e is Err {
                Err(e->Err_0)
            } else {
                Ok(
                    CatalogView {
                        spec_version: a->Ok_0,
                        host: b->Ok_0,
                        entries: c->Ok_0,
                        signature: d->Ok_0,
                        extensions: e->Ok_0,
                        extra_fields: unknown_members(ms, catalog_keys()),
                    },
                )
            }
        },
        _ => Err(not_an_object()),
    }
}

} // verus!

verus! {

pub proof fn lemma_lookup_extend(ms: Seq<(Seq<char>, JsonView)>, n: int, key: Seq<char>)
    requires
        0 <= n <= ms.len(),
        lookup(ms.take(n), key) is Some,
    ensures
        lookup(ms, key) == lookup(ms.take(n), key),
    decreases ms.len(),
{
    if ms.len() > n {
        assert(ms.drop_last().take(n) == ms.take(n));
        lemma_lookup_extend(ms.drop_last(), n, key);
    } else {
        assert(ms.take(n) == ms);
    }
}

/// The index of the first member named `key`.
pub fn lookup_exec(members: &Vec<JsonMember>, key: &str) -> (r: Option<usize>)
    ensures
        match r {
            Some(i) => i < members@.len() && lookup(object_view(members@), key@) == Some(
                json_view(members@[i as int].value),
            ),
            None => lookup(object_view(members@), key@) is None,
        },
{
    let ghost ov = object_view(members@);
    proof {
        lemma_object_view(members@);
        assert(ov.take(0) == Seq::<(Seq<char>, JsonView)>::empty());
    }
    let mut i: usize = 0;
    while i < members.len()
        invariant
            ov == object_view(members@),
            ov.len() == members@.len(),
            forall|k: int| 0 <= k < members@.len() ==> #[trigger] ov[k] == (members@[k].key@, json_view(members@[k].value)),
            i <= members@.len(),
            lookup(ov.take(i as int), key@) is None,
        decreases members.len() - i,
    {
        assert(ov.take(i + 1).drop_last() == ov.take(i as int));
        assert(ov.take(i + 1).last() == ov[i as int]);
        if crate::text::str_eq(members[i].key.as_str(), key) {
            proof {
                lemma_lookup_extend(ov, i + 1, key@);
            }
            return Some(i);
        }
        i = i + 1;
    }
    assert(ov.take(ov.len() as int) == ov);
    None
}

pub fn invalid_member_msg(key: &str) -> (r: String)
    ensures
        r@ == invalid_member(key@),
{
    let mut s = String::from_str("invalid type for member '");
    s.append(key);
    s.append("'");
    s
}

pub fn not_an_object_msg() -> (r: String)
    ensures
        r@ == not_an_object(),
{
    String::from_str("invalid type: expected a JSON object")
}

pub fn get_string(members: &Vec<JsonMember>, key: &str) -> (r: Result<String, String>)
    ensures
        match r {
            Ok(s) => f_string(object_view(members@), key@) == Ok::<_, Seq<char>>(s@),
            Err(e) => f_string(object_view(members@), key@) == Err::<Seq<char>, _>(e@),
        },
{
    match lookup_exec(members, key) {
        None => Ok(String::new()),
        Some(i) => match &members[i].value {
            JsonValue::Str(s) => Ok(s.clone()),
            _ => Err(invalid_member_msg(key)),
        },
    }
}

pub fn get_opt_string(members: &Vec<JsonMember>, key: &str) -> (r: Result<Option<String>, String>)
    ensures
        match r {
            Ok(s) => f_opt_string(object_view(members@), key@) == Ok::<_, Seq<char>>(opt_view(s)),
            Err(e) => f_opt_string(object_view(members@), key@) == Err::<Option<Seq<char>>, _>(e@),
        },
{
    match lookup_exec(members, key) {
        None => Ok(None),
        Some(i) => match &members[i].value {
            JsonValue::Null => Ok(None),
            JsonValue::Str(s) => Ok(Some(s.clone())),
            _ => Err(invalid_member_msg(key)),
        },
    }
}

pub fn get_strings(members: &Vec<JsonMember>, key: &str) -> (r: Result<Vec<String>, String>)
    ensures
        match r {
            Ok(s) => f_strings(object_view(members@), key@) == Ok::<_, Seq<char>>(strings_view(s)),
            Err(e) => f_strings(object_view(members@), key@) == Err::<Seq<Seq<char>>, _>(e@),
        },
{
    match lookup_exec(members, key) {
        None => {
            let out: Vec<String> = Vec::new();
            assert(strings_view(out) =~= Seq::<Seq<char>>::empty());
            Ok(out)
        },
        Some(i) => match &members[i].value {
            JsonValue::Array(items) => {
                let ghost av = array_view(items@);
                proof {
                    lemma_array_view(items@);
                    assert(json_view(members@[i as int].value) == JsonView::Array(av));
                }
                let mut out: Vec<String> = Vec::new();
                let mut k: usize = 0;
                while k < items.len()
                    invariant
                        av == array_view(items@),
                        lookup(object_view(members@), key@) == Some(JsonView::Array(av)),
                        av.len() == items@.len(),
                        forall|j: int| 0 <= j < items@.len() ==> #[trigger] av[j] == json_view(items@[j]),
                        k <= items@.len(),
                        out@.len() == k,
                        forall|j: int| 0 <= j < k ==> (#[trigger] av[j]) is Str,
                        forall|j: int| 0 <= j < k ==> (#[trigger] out@[j])@ == av[j]->Str_0,
                    decreases items.len() - k,
                {
                    match &items[k] {
                        JsonValue::Str(s) => {
                            assert(av[k as int] == JsonView::Str(s@));
                            out.push(s.clone());
                        },
                        _ => {
                            assert(!(av[k as int] is Str));
                            assert(!all_strings(av));
                            return Err(invalid_member_msg(key));
                        },
                    }
                    k = k + 1;
                }
                assert(all_strings(av));
                assert(strings_view(out) =~= av.map_values(|v: JsonView| v->Str_0));
                Ok(out)
            },
            _ => Err(invalid_member_msg(key)),
        },
    }
}

pub fn get_opt_object(members: &Vec<JsonMember>, key: &str) -> (r: Result<Option<Vec<JsonMember>>, String>)
    ensures
        match r {
            Ok(m) => f_opt_object(object_view(members@), key@) == Ok::<_, Seq<char>>(opt_object_view(m)),
            Err(e) => f_opt_object(object_view(members@), key@) == Err::<Option<Seq<(Seq<char>, JsonView)>>, _>(e@),
        },
{
    match lookup_exec(members, key) {
        None => Ok(None),
        Some(i) => match &members[i].value {
            JsonValue::Null => Ok(None),
            JsonValue::Object(m) => Ok(Some(clone_members(m))),
            _ => Err(invalid_member_msg(key)),
        },
    }
}

pub fn get_opt_json(members: &Vec<JsonMember>, key: &str) -> (r: Option<JsonValue>)
    ensures
        opt_json_view(r) == f_opt_json(object_view(members@), key@),
{
    match lookup_exec(members, key) {
        None => None,
        Some(i) => match &members[i].value {
            JsonValue::Null => None,
            v => Some(clone_json(v)),
        },
    }
}

pub proof fn lemma_digits_value_monotone(t: Seq<char>, n: int)
    requires
        0 <= n <= t.len(),
        forall|i: int| 0 <= i < t.len() ==> is_digit(#[trigger] t[i]),
    ensures
        digits_value(t.take(n)) <= digits_value(t),
    decreases t.len(),
{
    if n < t.len() {
        assert(t.drop_last().take(n) == t.take(n));
        lemma_digits_value_monotone(t.drop_last(), n);
    } else {
        assert(t.take(n) == t);
    }
}

/// The unsigned 64-bit integer a JSON number's text denotes, if it is one.
pub fn number_as_u64_exec(text: &str) -> (r: Option<u64>)
    ensures
        r == number_as_u64(text@),
{
    let t = chars_of(text);
    if t.len() == 0 {
        return None;
    }
    let mut value: u64 = 0;
    let mut i: usize = 0;
    while i < t.len()
        invariant
            i <= t@.len(),
            t@ == text@,
            t@.len() > 0,
            forall|j: int| 0 <= j < i ==> is_digit(#[trigger] t@[j]),
            value == digits_value(t@.take(i as int)),
        decreases t.len() - i,
    {
        let c = t[i];
        if !('0' <= c && c <= '9') {
            return None;
        }
        let d = (c as u32 - 48) as u64;
        proof {
            assert(t@.take(i + 1).drop_last() == t@.take(i as int));
        }
        if value > (u64::MAX - d) / 10 {
            proof {
                assert(digits_value(t@.take(i + 1)) == value * 10 + d);
                assert(value * 10 + d > u64::MAX) by (nonlinear_arith)
                    requires
                        value > (u64::MAX - d) / 10,
                        d <= 9,
                ;
                if forall|j: int| 0 <= j < t@.len() ==> is_digit(#[trigger] t@[j]) {
                    lemma_digits_value_monotone(t@, i + 1);
                }
            }
            return None;
        }
        proof {
            assert(value * 10 + d <= u64::MAX) by (nonlinear_arith)
                requires
                    value <= (u64::MAX - d) / 10,
                    d <= 9,
            ;
        }
        value = value * 10 + d;
        i = i + 1;
    }
    assert(t@.take(t@.len() as int) == t@);
    Some(value)
}

pub fn get_opt_u64(members: &Vec<JsonMember>, key: &str) -> (r: Result<Option<u64>, String>)
    ensures
        match r {
            Ok(n) => f_opt_u64(object_view(members@), key@) == Ok::<_, Seq<char>>(n),
            Err(e) => f_opt_u64(object_view(members@), key@) == Err::<Option<u64>, _>(e@),
        },
{
    match lookup_exec(members, key) {
        None => Ok(None),
        Some(i) => match &members[i].value {
            JsonValue::Null => Ok(None),
            JsonValue::Number(t) => match number_as_u64_exec(t.as_str()) {
                Some(n) => Ok(Some(n)),
                None => Err(invalid_member_msg(key)),
            },
            _ => Err(invalid_member_msg(key)),
        },
    }
}

pub open spec fn keys_view(known: Seq<&str>) -> Seq<Seq<char>> {
    known.map_values(|s: &str| s@)
}

fn is_known(key: &str, known: &Vec<&str>) -> (r: bool)
    ensures
        r == keys_view(known@).contains(key@),
{
    let mut i: usize = 0;
    while i < known.len()
        invariant
            i <= known@.len(),
            forall|j: int| 0 <= j < i ==> known@[j]@ != key@,
        decreases known.len() - i,
    {
        if crate::text::str_eq(known[i], key) {
            assert(keys_view(known@)[i as int] == key@);
            return true;
        }
        i = i + 1;
    }
    assert forall|j: int| 0 <= j < keys_view(known@).len() implies keys_view(known@)[j] != key@ by {
        assert(keys_view(known@)[j] == known@[j]@);
    }
    false
}

/// The members whose key is not among `known`, copied in order.
pub fn unknown_members_exec(members: &Vec<JsonMember>, known: &Vec<&str>) -> (r: Vec<JsonMember>)
    ensures
        object_view(r@) == unknown_members(object_view(members@), keys_view(known@)),
{
    let ghost ov = object_view(members@);
    let ghost kv = keys_view(known@);
    proof {
        lemma_object_view(members@);
        assert(ov.take(0) == Seq::<(Seq<char>, JsonView)>::empty());
    }
    let mut out: Vec<JsonMember> = Vec::new();
    let mut i: usize = 0;
    while i < members.len()
        invariant
            ov == object_view(members@),
            kv == keys_view(known@),
            ov.len() == members@.len(),
            forall|k: int| 0 <= k < members@.len() ==> #[trigger] ov[k] == (members@[k].key@, json_view(members@[k].value)),
            i <= members@.len(),
            out@.len() == unknown_members(ov.take(i as int), kv).len(),
            forall|k: int|
                0 <= k < out@.len() ==> (#[trigger] out@[k].key@, json_view(out@[k].value))
                    == unknown_members(ov.take(i as int), kv)[k],
        decreases members.len() - i,
    {
        assert(ov.take(i + 1).drop_last() == ov.take(i as int));
        assert(ov.take(i + 1).last() == ov[i as int]);
        let m = &members[i];
        if !is_known(m.key.as_str(), known) {
            out.push(JsonMember { key: m.key.clone(), value: clone_json(&m.value) });
        }
        i = i + 1;
    }
    assert(ov.take(ov.len() as int) == ov);
    proof {
        lemma_object_view(out@);
        assert(object_view(out@) =~= unknown_members(ov, kv));
    }
    out
}

} // verus!

verus! {

pub proof fn lemma_parse_all_step<T>(items: Seq<JsonView>, f: spec_fn(JsonView) -> Result<T, Seq<char>>, i: int)
    requires
        0 <= i < items.len(),
    ensures
        parse_all(items.take(i + 1), f) == match parse_all(items.take(i), f) {
            Err(e) => Err(e),
            Ok(prefix) => match f(items[i]) {
                Err(e) => Err(e),
                Ok(x) => Ok(prefix.push(x)),
            },
        },
{
    assert(items.take(i + 1).drop_last() == items.take(i));
    assert(items.take(i + 1).last() == items[i]);
}

pub proof fn lemma_parse_all_err_extend<T>(items: Seq<JsonView>, f: spec_fn(JsonView) -> Result<T, Seq<char>>, n: int)
    requires
        0 <= n <= items.len(),
        parse_all(items.take(n), f) is Err,
    ensures
        parse_all(items, f) == parse_all(items.take(n), f),
    decreases items.len(),
{
    if items.len() > n {
        assert(items.drop_last().take(n) == items.take(n));
        lemma_parse_all_err_extend(items.drop_last(), f, n);
    } else {
        assert(items.take(n) == items);
    }
}

pub fn subject_from_json(v: &JsonValue) -> (r: Result<Subject, String>)
    ensures
        match r {
            Ok(x) => spec_subject(json_view(*v)) == Ok::<_, Seq<char>>(x@),
            Err(e) => spec_subject(json_view(*v)) == Err::<SubjectView, _>(e@),
        },
{
    match v {
        JsonValue::Object(ms) => {
            let subject_type = get_string(ms, "type")?;
            let digest = get_string(ms, "digest")?;
            let url = get_opt_string(ms, "url")?;
            let known = vec!["type", "digest", "url"];
            assert(keys_view(known@) =~= subject_keys());
            let extra_fields = unknown_members_exec(ms, &known);
            Ok(Subject { subject_type, digest, url, extra_fields })
        },
        _ => Err(not_an_object_msg()),
    }
}

pub fn schema_from_json(v: &JsonValue) -> (r: Result<TrustSchema, String>)
    ensures
        match r {
            Ok(x) => spec_schema(json_view(*v)) == Ok::<_, Seq<char>>(x@),
            Err(e) => spec_schema(json_view(*v)) == Err::<SchemaView, _>(e@),
        },
{
    match v {
        JsonValue::Object(ms) => {
            let identifier = get_string(ms, "identifier")?;
            let version = get_string(ms, "version")?;
            let governance_uri = get_opt_string(ms, "governanceUri")?;
            let verification_methods = get_strings(ms, "verificationMethods")?;
            let known = vec!["identifier", "version", "governanceUri", "verificationMethods"];
            assert(keys_view(known@) =~= schema_keys());
            let extra_fields = unknown_members_exec(ms, &known);
            Ok(TrustSchema { identifier, version, governance_uri, verification_methods, extra_fields })
        },
        _ => Err(not_an_object_msg()),
    }
}

pub fn attestation_from_json(v: &JsonValue) -> (r: Result<Attestation, String>)
    ensures
        match r {
            Ok(x) => spec_attestation(json_view(*v)) == Ok::<_, Seq<char>>(x@),
            Err(e) => spec_attestation(json_view(*v)) == Err::<AttestationView, _>(e@),
        },
{
    match v {
        JsonValue::Object(ms) => {
            let attestation_type = get_string(ms, "type")?;
            let uri = get_string(ms, "uri")?;
            let digest = get_opt_string(ms, "digest")?;
            let size = get_opt_u64(ms, "size")?;
            let description = get_opt_string(ms, "description")?;
            let known = vec!["type", "uri", "digest", "size", "description"];
            assert(keys_view(known@) =~= attestation_keys());
            let extra_fields = unknown_members_exec(ms, &known);
            Ok(Attestation { attestation_type, uri, digest, size, description, extra_fields })
        },
        _ => Err(not_an_object_msg()),
    }
}

pub fn provenance_from_json(v: &JsonValue) -> (r: Result<ProvenanceLink, String>)
    ensures
        match r {
            Ok(x) => spec_provenance(json_view(*v)) == Ok::<_, Seq<char>>(x@),
            Err(e) => spec_provenance(json_view(*v)) == Err::<ProvenanceView, _>(e@),
        },
{
    match v {
        JsonValue::Object(ms) => {
            let relation = get_string(ms, "relation")?;
            let source_id = get_string(ms, "sourceId")?;
            let source_digest = get_opt_string(ms, "sourceDigest")?;
            let registry_uri = get_opt_string(ms, "registryUri")?;
            let statement_uri = get_opt_string(ms, "statementUri")?;
            let signature_ref = get_opt_string(ms, "signatureRef")?;
            let known = vec![
                "relation",
                "sourceId",
                "sourceDigest",
                "registryUri",
                "statementUri",
                "signatureRef",
            ];
            assert(keys_view(known@) =~= provenance_keys());
            let extra_fields = unknown_members_exec(ms, &known);
            Ok(
                ProvenanceLink {
                    relation,
                    source_id,
                    source_digest,
                    registry_uri,
                    statement_uri,
                    signature_ref,
                    extra_fields,
                },
            )
        },
        _ => Err(not_an_object_msg()),
    }
}

pub fn get_attestations(members: &Vec<JsonMember>, key: &str) -> (r: Result<Vec<Attestation>, String>)
    ensures
        match r {
            Ok(x) => f_list(object_view(members@), key@, attestation_parser()) == Ok::<_, Seq<char>>(
                x@.map_values(|a: Attestation| a@),
            ),
            Err(e) => f_list(object_view(members@), key@, attestation_parser()) == Err::<
                Seq<AttestationView>,
                _,
            >(e@),
        },
{
    match lookup_exec(members, key) {
        None => {
            let out: Vec<Attestation> = Vec::new();
            assert(out@.map_values(|a: Attestation| a@) =~= Seq::<AttestationView>::empty());
            Ok(out)
        },
        Some(i) => match &members[i].value {
            JsonValue::Array(items) => {
                let ghost av = array_view(items@);
                let ghost f = attestation_parser();
                proof {
                    lemma_array_view(items@);
                    assert(json_view(members@[i as int].value) == JsonView::Array(av));
                    assert(av.take(0) == Seq::<JsonView>::empty());
                }
                let mut out: Vec<Attestation> = Vec::new();
                assert(out@.map_values(|a: Attestation| a@) =~= Seq::<AttestationView>::empty());
                let mut k: usize = 0;
                while k < items.len()
                    invariant
                        av == array_view(items@),
                        f == attestation_parser(),
                        lookup(object_view(members@), key@) == Some(JsonView::Array(av)),
                        av.len() == items@.len(),
                        forall|j: int| 0 <= j < items@.len() ==> #[trigger] av[j] == json_view(items@[j]),
                        k <= items@.len(),
                        parse_all(av.take(k as int), f) == Ok::<_, Seq<char>>(
                            out@.map_values(|a: Attestation| a@),
                        ),
                    decreases items.len() - k,
                {
                    proof {
                        lemma_parse_all_step(av, f, k as int);
                    }
                    match attestation_from_json(&items[k]) {
                        Ok(a) => {
                            let ghost before = out@;
                            out.push(a);
                            assert(out@.map_values(|a: Attestation| a@) =~= before.map_values(
                                |a: Attestation| a@,
                            ).push(a@));
                        },
                        Err(e) => {
                            proof {
                                lemma_parse_all_err_extend(av, f, k + 1);
                            }
                            return Err(e);
                        },
                    }
                    k = k + 1;
                }
                assert(av.take(av.len() as int) == av);
                Ok(out)
            },
            _ => Err(invalid_member_msg(key)),
        },
    }
}

pub fn get_provenance(members: &Vec<JsonMember>, key: &str) -> (r: Result<Vec<ProvenanceLink>, String>)
    ensures
        match r {
            Ok(x) => f_list(object_view(members@), key@, provenance_parser()) == Ok::<_, Seq<char>>(
                x@.map_values(|a: ProvenanceLink| a@),
            ),
            Err(e) => f_list(object_view(members@), key@, provenance_parser()) == Err::<
                Seq<ProvenanceView>,
                _,
            >(e@),
        },
{
    match lookup_exec(members, key) {
        None => {
            let out: Vec<ProvenanceLink> = Vec::new();
            assert(out@.map_values(|a: ProvenanceLink| a@) =~= Seq::<ProvenanceView>::empty());
            Ok(out)
        },
        Some(i) => match &members[i].value {
            JsonValue::Array(items) => {
                let ghost av = array_view(items@);
                let ghost f = provenance_parser();
                proof {
                    lemma_array_view(items@);
                    assert(json_view(members@[i as int].value) == JsonView::Array(av));
                    assert(av.take(0) == Seq::<JsonView>::empty());
                }
                let mut out: Vec<ProvenanceLink> = Vec::new();
                assert(out@.map_values(|a: ProvenanceLink| a@) =~= Seq::<ProvenanceView>::empty());
                let mut k: usize = 0;
                while k < items.len()
                    invariant
                        av == array_view(items@),
                        f == provenance_parser(),
                        lookup(object_view(members@), key@) == Some(JsonView::Array(av)),
                        av.len() == items@.len(),
                        forall|j: int| 0 <= j < items@.len() ==> #[trigger] av[j] == json_view(items@[j]),
                        k <= items@.len(),
                        parse_all(av.take(k as int), f) == Ok::<_, Seq<char>>(
                            out@.map_values(|a: ProvenanceLink| a@),
                        ),
                    decreases items.len() - k,
                {
                    proof {
                        lemma_parse_all_step(av, f, k as int);
                    }
                    match provenance_from_json(&items[k]) {
                        Ok(a) => {
                            let ghost before = out@;
                            out.push(a);
                            assert(out@.map_values(|a: ProvenanceLink| a@) =~= before.map_values(
                                |a: ProvenanceLink| a@,
                            ).push(a@));
                        },
                        Err(e) => {
                            proof {
                                lemma_parse_all_err_extend(av, f, k + 1);
                            }
                            return Err(e);
                        },
                    }
                    k = k + 1;
                }
                assert(av.take(av.len() as int) == av);
                Ok(out)
            },
            _ => Err(invalid_member_msg(key)),
        },
    }
}

} // verus!

verus! {

pub fn get_opt_schema(members: &Vec<JsonMember>, key: &str) -> (r: Result<Option<TrustSchema>, String>)
    ensures
        match r {
            Ok(x) => f_opt(object_view(members@), key@, schema_parser()) == Ok::<_, Seq<char>>(opt_schema_view(x)),
            Err(e) => f_opt(object_view(members@), key@, schema_parser()) == Err::<Option<SchemaView>, _>(e@),
        },
{
    match lookup_exec(members, key) {
        None => Ok(None),
        Some(i) => match &members[i].value {
            JsonValue::Null => Ok(None),
            v => match schema_from_json(v) {
                Ok(x) => Ok(Some(x)),
                Err(e) => Err(e),
            },
        },
    }
}

pub fn get_opt_subject(members: &Vec<JsonMember>, key: &str) -> (r: Result<Option<Subject>, String>)
    ensures
        match r {
            Ok(x) => f_opt(object_view(members@), key@, subject_parser()) == Ok::<_, Seq<char>>(opt_subject_view(x)),
            Err(e) => f_opt(object_view(members@), key@, subject_parser()) == Err::<Option<SubjectView>, _>(e@),
        },
{
    match lookup_exec(members, key) {
        None => Ok(None),
        Some(i) => match &members[i].value {
            JsonValue::Null => Ok(None),
            v => match subject_from_json(v) {
                Ok(x) => Ok(Some(x)),
                Err(e) => Err(e),
            },
        },
    }
}

pub fn get_opt_manifest(members: &Vec<JsonMember>, key: &str) -> (r: Result<Option<TrustManifest>, String>)
    ensures
        match r {
            Ok(x) => f_opt(object_view(members@), key@, manifest_parser()) == Ok::<_, Seq<char>>(opt_manifest_view(x)),
            Err(e) => f_opt(object_view(members@), key@, manifest_parser()) == Err::<Option<ManifestView>, _>(e@),
        },
{
    match lookup_exec(members, key) {
        None => Ok(None),
        Some(i) => match &members[i].value {
            JsonValue::Null => Ok(None),
            v => match manifest_from_json(v) {
                Ok(x) => Ok(Some(x)),
                Err(e) => Err(e),
            },
        },
    }
}

pub fn get_opt_publisher(members: &Vec<JsonMember>, key: &str) -> (r: Result<Option<Publisher>, String>)
    ensures
        match r {
            Ok(x) => f_opt(object_view(members@), key@, publisher_parser()) == Ok::<_, Seq<char>>(opt_publisher_view(x)),
            Err(e) => f_opt(object_view(members@), key@, publisher_parser()) == Err::<Option<PublisherView>, _>(e@),
        },
{
    match lookup_exec(members, key) {
        None => Ok(None),
        Some(i) => match &members[i].value {
            JsonValue::Null => Ok(None),
            v => match publisher_from_json(v) {
                Ok(x) => Ok(Some(x)),
                Err(e) => Err(e),
            },
        },
    }
}

pub fn get_opt_host(members: &Vec<JsonMember>, key: &str) -> (r: Result<Option<HostInfo>, String>)
    ensures
        match r {
            Ok(x) => f_opt(object_view(members@), key@, host_parser()) == Ok::<_, Seq<char>>(opt_host_view(x)),
            Err(e) => f_opt(object_view(members@), key@, host_parser()) == Err::<Option<HostView>, _>(e@),
        },
{
    match lookup_exec(members, key) {
        None => Ok(None),
        Some(i) => match &members[i].value {
            JsonValue::Null => Ok(None),
            v => match host_from_json(v) {
                Ok(x) => Ok(Some(x)),
                Err(e) => Err(e),
            },
        },
    }
}

pub fn manifest_from_json(v: &JsonValue) -> (r: Result<TrustManifest, String>)
    ensures
        match r {
            Ok(x) => spec_manifest(json_view(*v)) == Ok::<_, Seq<char>>(x@),
            Err(e) => spec_manifest(json_view(*v)) == Err::<ManifestView, _>(e@),
        },
{
    match v {
        JsonValue::Object(ms) => {
            let identity = get_string(ms, "identity")?;
            let identity_type = get_opt_string(ms, "identityType")?;
            let trust_schema = get_opt_schema(ms, "trustSchema")?;
            let attestations = get_attestations(ms, "attestations")?;
            let provenance = get_provenance(ms, "provenance")?;
            let privacy_policy_url = get_opt_string(ms, "privacyPolicyUrl")?;
            let terms_of_service_url = get_opt_string(ms, "termsOfServiceUrl")?;
            let subject = get_opt_subject(ms, "subject")?;
            let issued_at = get_opt_string(ms, "issuedAt")?;
            let expires_at = get_opt_string(ms, "expiresAt")?;
            let signature = get_opt_string(ms, "signature")?;
            let extensions = get_opt_object(ms, "extensions")?;
            let known = vec![
                "identity",
                "identityType",
                "trustSchema",
                "attestations",
                "provenance",
                "privacyPolicyUrl",
                "termsOfServiceUrl",
                "subject",
                "issuedAt",
                "expiresAt",
                "signature",
                "extensions",
            ];
            assert(keys_view(known@) =~= manifest_keys());
            let extra_fields = unknown_members_exec(ms, &known);
            Ok(
                TrustManifest {
                    identity,
                    identity_type,
                    trust_schema,
                    attestations,
                    provenance,
                    privacy_policy_url,
                    terms_of_service_url,
                    subject,
                    issued_at,
                    expires_at,
                    signature,
                    extensions,
                    extra_fields,
                },
            )
        },
        _ => Err(not_an_object_msg()),
    }
}

pub fn publisher_from_json(v: &JsonValue) -> (r: Result<Publisher, String>)
    ensures
        match r {
            Ok(x) => spec_publisher(json_view(*v)) == Ok::<_, Seq<char>>(x@),
            Err(e) => spec_publisher(json_view(*v)) == Err::<PublisherView, _>(e@),
        },
{
    match v {
        JsonValue::Object(ms) => {
            let identifier = get_string(ms, "identifier")?;
            let display_name = get_string(ms, "displayName")?;
            let identity_type = get_opt_string(ms, "identityType")?;
            let known = vec!["identifier", "displayName", "identityType"];
            assert(keys_view(known@) =~= publisher_keys());
            let extra_fields = unknown_members_exec(ms, &known);
            Ok(Publisher { identifier, display_name, identity_type, extra_fields })
        },
        _ => Err(not_an_object_msg()),
    }
}

pub fn host_from_json(v: &JsonValue) -> (r: Result<HostInfo, String>)
    ensures
        match r {
            Ok(x) => spec_host(json_view(*v)) == Ok::<_, Seq<char>>(x@),
            Err(e) => spec_host(json_view(*v)) == Err::<HostView, _>(e@),
        },
{
    match v {
        JsonValue::Object(ms) => {
            let display_name = get_string(ms, "displayName")?;
            let identifier = get_opt_string(ms, "identifier")?;
            let documentation_url = get_opt_string(ms, "documentationUrl")?;
            let logo_url = get_opt_string(ms, "logoUrl")?;
            let trust_manifest = get_opt_manifest(ms, "trustManifest")?;
            let known = vec!["displayName", "identifier", "documentationUrl", "logoUrl", "trustManifest"];
            assert(keys_view(known@) =~= host_keys());
            let extra_fields = unknown_members_exec(ms, &known);
            Ok(
                HostInfo {
                    display_name,
                    identifier,
                    documentation_url,
                    logo_url,
                    trust_manifest,
                    extra_fields,
                },
            )
        },
        _ => Err(not_an_object_msg()),
    }
}

pub fn entry_from_json(v: &JsonValue) -> (r: Result<CatalogEntry, String>)
    ensures
        match r {
            Ok(x) => spec_entry(json_view(*v)) == Ok::<_, Seq<char>>(x@),
            Err(e) => spec_entry(json_view(*v)) == Err::<EntryView, _>(e@),
        },
{
    match v {
        JsonValue::Object(ms) => {
            let identifier = get_string(ms, "identifier")?;
            let display_name = get_opt_string(ms, "displayName")?;
            let entry_type = get_string(ms, "type")?;
            let url = get_opt_string(ms, "url")?;
            let version = get_opt_string(ms, "version")?;
            let description = get_opt_string(ms, "description")?;
            let tags = get_strings(ms, "tags")?;
            let publisher = get_opt_publisher(ms, "publisher")?;
            let trust_manifest = get_opt_manifest(ms, "trustManifest")?;
            let updated_at = get_opt_string(ms, "updatedAt")?;
            let extensions = get_opt_object(ms, "extensions")?;
            let data = get_opt_json(ms, "data");
            let known = vec![
                "identifier",
                "displayName",
                "type",
                "url",
                "data",
                "version",
                "description",
                "tags",
                "publisher",
                "trustManifest",
                "updatedAt",
                "extensions",
            ];
            assert(keys_view(known@) =~= entry_keys());
            let extra_fields = unknown_members_exec(ms, &known);
            Ok(
                CatalogEntry {
                    identifier,
                    display_name,
                    entry_type,
                    url,
                    data,
                    version,
                    description,
                    tags,
                    publisher,
                    trust_manifest,
                    updated_at,
                    extensions,
                    extra_fields,
                },
            )
        },
        _ => Err(not_an_object_msg()),
    }
}
pub fn get_entries(members: &Vec<JsonMember>, key: &str) -> (r: Result<Vec<CatalogEntry>, String>)
    ensures
        match r {
            Ok(x) => f_list(object_view(members@), key@, entry_parser()) == Ok::<_, Seq<char>>(
                x@.map_values(|a: CatalogEntry| a@),
            ),
            Err(e) => f_list(object_view(members@), key@, entry_parser()) == Err::<
                Seq<EntryView>,
                _,
            >(e@),
        },
{
    match lookup_exec(members, key) {
        None => {
            let out: Vec<CatalogEntry> = Vec::new();
            assert(out@.map_values(|a: CatalogEntry| a@) =~= Seq::<EntryView>::empty());
            Ok(out)
        },
        Some(i) => match &members[i].value {
            JsonValue::Array(items) => {
                let ghost av = array_view(items@);
                let ghost f = entry_parser();
                proof {
                    lemma_array_view(items@);
                    assert(json_view(members@[i as int].value) == JsonView::Array(av));
                    assert(av.take(0) == Seq::<JsonView>::empty());
                }
                let mut out: Vec<CatalogEntry> = Vec::new();
                assert(out@.map_values(|a: CatalogEntry| a@) =~= Seq::<EntryView>::empty());
                let mut k: usize = 0;
                while k < items.len()
                    invariant
                        av == array_view(items@),
                        f == entry_parser(),
                        lookup(object_view(members@), key@) == Some(JsonView::Array(av)),
                        av.len() == items@.len(),
                        forall|j: int| 0 <= j < items@.len() ==> #[trigger] av[j] == json_view(items@[j]),
                        k <= items@.len(),
                        parse_all(av.take(k as int), f) == Ok::<_, Seq<char>>(
                            out@.map_values(|a: CatalogEntry| a@),
                        ),
                    decreases items.len() - k,
                {
                    proof {
                        lemma_parse_all_step(av, f, k as int);
                    }
                    match entry_from_json(&items[k]) {
                        Ok(a) => {
                            let ghost before = out@;
                            out.push(a);
                            assert(out@.map_values(|a: CatalogEntry| a@) =~= before.map_values(
                                |a: CatalogEntry| a@,
                            ).push(a@));
                        },
                        Err(e) => {
                            proof {
                                lemma_parse_all_err_extend(av, f, k + 1);
                            }
                            return Err(e);
                        },
                    }
                    k = k + 1;
                }
                assert(av.take(av.len() as int) == av);
                Ok(out)
            },
            _ => Err(invalid_member_msg(key)),
        },
    }
}


/// Reads a catalog out of a JSON value, as the document's schema lays it
/// out: missing members take their defaults, `null` optional members read as
/// absent, and unknown members are kept in `extra_fields`.
pub fn catalog_from_json(v: &JsonValue) -> (r: Result<AiCatalog, String>)
    ensures
        match r {
            Ok(x) => spec_catalog_from_json(json_view(*v)) == Ok::<_, Seq<char>>(x@),
            Err(e) => spec_catalog_from_json(json_view(*v)) == Err::<CatalogView, _>(e@),
        },
        r matches Ok(x) ==> crate::roundtrip::catalog_wf(x@),
        crate::ordered::json_ordered(json_view(*v)) ==> (r matches Ok(x) ==> crate::ordered::catalog_ordered(x@)),
{
    let r = read_catalog_value(v);
    proof {
        if r is Ok {
            crate::parsed::law_read_catalog_well_formed(json_view(*v));
            if crate::ordered::json_ordered(json_view(*v)) {
                crate::ordered::law_read_catalog_keeps_key_order(json_view(*v));
            }
        }
    }
    r
}

/// The catalog a JSON value reads as, member by member.
fn read_catalog_value(v: &JsonValue) -> (r: Result<AiCatalog, String>)
    ensures
        match r {
            Ok(x) => spec_catalog_from_json(json_view(*v)) == Ok::<_, Seq<char>>(x@),
            Err(e) => spec_catalog_from_json(json_view(*v)) == Err::<CatalogView, _>(e@),
        },
{
    match v {
        JsonValue::Object(ms) => {
            let spec_version = get_string(ms, "specVersion")?;
            let host = get_opt_host(ms, "host")?;
            let entries = get_entries(ms, "entries")?;
            let signature = get_opt_string(ms, "signature")?;
            let extensions = get_opt_object(ms, "extensions")?;
            let known = vec!["specVersion", "host", "entries", "signature", "extensions"];
            assert(keys_view(known@) =~= catalog_keys());
            let extra_fields = unknown_members_exec(ms, &known);
            Ok(AiCatalog { spec_version, host, entries, signature, extensions, extra_fields })
        },
        _ => Err(not_an_object_msg()),
    }
}

} // verus!
