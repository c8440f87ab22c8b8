//! Reading back what was written: a catalog written as a JSON value reads
//! as the same catalog.
use vstd::prelude::*;
use vstd::string::*;
use crate::json::JsonView;
use crate::model::{
    AttestationView, CatalogView, EntryView, HostView, ManifestView, ProvenanceView,
    PublisherView, SchemaView, SubjectView,
};
use crate::render::{
    Members, attestation_json, attestation_writer, catalog_json, entry_writer,
    provenance_writer, string_writer, entry_json, host_json, list_member, manifest_json,
    member, opt_json_member, opt_manifest_json, opt_object_member, opt_string_member, provenance_json,
    publisher_json, schema_json, subject_json,
};
use crate::schema::{
    all_strings, attestation_keys, attestation_parser, catalog_keys, digits_value, entry_keys,
    entry_parser, host_keys, host_parser, is_digit, lookup, manifest_keys, manifest_parser,
    number_as_u64, parse_all, provenance_keys, provenance_parser, publisher_keys,
    publisher_parser, schema_keys, schema_parser, spec_attestation, spec_catalog_from_json,
    spec_entry, spec_host, spec_manifest, spec_provenance, spec_publisher, spec_schema,
    spec_subject, subject_keys, subject_parser, unknown_members,
};
use crate::text::decimal;

verus! {

/// No member of `extra` is named by one of `keys`.
pub open spec fn no_known_keys(extra: Members, keys: Seq<Seq<char>>) -> bool {
    forall|i: int| 0 <= i < extra.len() ==> !keys.contains(#[trigger] extra[i].0)
}

/// Every member of `ms` is named by one of `keys`.
pub open spec fn only_known_keys(ms: Members, keys: Seq<Seq<char>>) -> bool {
    forall|i: int| 0 <= i < ms.len() ==> keys.contains(#[trigger] ms[i].0)
}

pub broadcast proof fn lemma_lookup_concat(a: Members, b: Members, key: Seq<char>)
    ensures
        #[trigger] lookup(a + b, key) == match lookup(a, key) {
            Some(v) => Some(v),
            None => lookup(b, key),
        },
    decreases b.len(),
{
    if b.len() == 0 {
        assert(a + b =~= a);
    } else {
        assert((a + b).drop_last() =~= a + b.drop_last());
        assert((a + b).last() == b.last());
        lemma_lookup_concat(a, b.drop_last(), key);
    }
}

pub broadcast proof fn lemma_lookup_member(k: Seq<char>, v: JsonView, key: Seq<char>)
    ensures
        #[trigger] lookup(member(k, v), key) == if key == k {
            Some(v)
        } else {
            None
        },
{
    assert(lookup(Seq::<(Seq<char>, JsonView)>::empty(), key) is None);
    assert(member(k, v).drop_last() =~= Seq::<(Seq<char>, JsonView)>::empty());
    assert(member(k, v).last() == (k, v));
}

pub broadcast proof fn lemma_lookup_empty(key: Seq<char>)
    ensures
        #[trigger] lookup(Seq::<(Seq<char>, JsonView)>::empty(), key) is None,
{
}

pub proof fn lemma_lookup_absent(extra: Members, keys: Seq<Seq<char>>, key: Seq<char>)
    requires
        no_known_keys(extra, keys),
        keys.contains(key),
    ensures
        lookup(extra, key) is None,
    decreases extra.len(),
{
    if extra.len() > 0 {
        assert(extra.last() == extra[extra.len() - 1]);
        lemma_lookup_absent(extra.drop_last(), keys, key);
    }
}

pub broadcast proof fn lemma_unknown_concat(a: Members, b: Members, keys: Seq<Seq<char>>)
    ensures
        #[trigger] unknown_members(a + b, keys) == unknown_members(a, keys) + unknown_members(b, keys),
    decreases b.len(),
{
    if b.len() == 0 {
        assert(a + b =~= a);
        assert(unknown_members(a, keys) + unknown_members(b, keys) =~= unknown_members(a, keys));
    } else {
        assert((a + b).drop_last() =~= a + b.drop_last());
        assert((a + b).last() == b.last());
        lemma_unknown_concat(a, b.drop_last(), keys);
        assert(unknown_members(a, keys) + unknown_members(b.drop_last(), keys).push(b.last())
            =~= (unknown_members(a, keys) + unknown_members(b.drop_last(), keys)).push(b.last()));
    }
}

pub proof fn lemma_unknown_none(extra: Members, keys: Seq<Seq<char>>)
    requires
        no_known_keys(extra, keys),
    ensures
        unknown_members(extra, keys) == extra,
    decreases extra.len(),
{
    if extra.len() > 0 {
        assert(extra.last() == extra[extra.len() - 1]);
        lemma_unknown_none(extra.drop_last(), keys);
        assert(extra.drop_last().push(extra.last()) =~= extra);
    } else {
        assert(extra =~= Seq::<(Seq<char>, JsonView)>::empty());
    }
}

pub proof fn lemma_unknown_all(ms: Members, keys: Seq<Seq<char>>)
    requires
        only_known_keys(ms, keys),
    ensures
        unknown_members(ms, keys) == Seq::<(Seq<char>, JsonView)>::empty(),
    decreases ms.len(),
{
    if ms.len() > 0 {
        assert(ms.last() == ms[ms.len() - 1]);
        lemma_unknown_all(ms.drop_last(), keys);
    }
}

/// A subject whose unknown members carry no name the schema knows.
pub open spec fn subject_wf(s: SubjectView) -> bool {
    no_known_keys(s.extra_fields, subject_keys())
}

/// A subject written as JSON reads back as itself.
#[verifier::rlimit(50)]
pub proof fn law_subject_round_trip(s: SubjectView)
    requires
        subject_wf(s),
    ensures
        spec_subject(subject_json(s)) == Ok::<_, Seq<char>>(s),
{
    broadcast use lemma_lookup_concat, lemma_lookup_member, lemma_lookup_empty, lemma_unknown_concat;
    lemma_subject_names_distinct();
    let keys = subject_keys();
    assert(keys[0] == "type"@ && keys[1] == "digest"@ && keys[2] == "url"@);
    let known = member("type"@, JsonView::Str(s.subject_type)) + member("digest"@, JsonView::Str(s.digest))
        + opt_string_member("url"@, s.url);
    lemma_lookup_absent(s.extra_fields, keys, "type"@);
    lemma_lookup_absent(s.extra_fields, keys, "digest"@);
    lemma_lookup_absent(s.extra_fields, keys, "url"@);
    lemma_unknown_none(s.extra_fields, keys);
    assert(only_known_keys(known, keys));
    lemma_unknown_all(known, keys);
    assert(Seq::<(Seq<char>, JsonView)>::empty() + s.extra_fields =~= s.extra_fields);
}

/// Reading back every element of a list written element by element.
pub proof fn lemma_parse_all_written<T>(
    items: Seq<T>,
    write: spec_fn(T) -> JsonView,
    read: spec_fn(JsonView) -> Result<T, Seq<char>>,
)
    requires
        forall|i: int| 0 <= i < items.len() ==> read(write(#[trigger] items[i])) == Ok::<T, Seq<char>>(items[i]),
    ensures
        parse_all(items.map_values(write), read) == Ok::<Seq<T>, Seq<char>>(items),
    decreases items.len(),
{
    if items.len() > 0 {
        let w = items.map_values(write);
        assert(w.drop_last() =~= items.drop_last().map_values(write));
        assert(w.last() == write(items.last()));
        assert(read(write(items[items.len() - 1])) == Ok::<T, Seq<char>>(items[items.len() - 1]));
        lemma_parse_all_written(items.drop_last(), write, read);
        assert(items.drop_last().push(items.last()) =~= items);
    } else {
        assert(items.map_values(write) =~= Seq::<JsonView>::empty());
        assert(items =~= Seq::<T>::empty());
    }
}

pub proof fn lemma_strings_written(ss: Seq<Seq<char>>)
    ensures
        all_strings(ss.map_values(string_writer())),
        ss.map_values(string_writer()).map_values(|v: JsonView| v->Str_0) == ss,
        ss.map_values(string_writer()).len() == 0 ==> ss == Seq::<Seq<char>>::empty(),
{
    assert(ss.map_values(string_writer()).map_values(|v: JsonView| v->Str_0) =~= ss);
    if ss.len() == 0 {
        assert(ss =~= Seq::<Seq<char>>::empty());
    }
}

pub proof fn lemma_decimal_digits(n: nat)
    ensures
        decimal(n).len() > 0,
        forall|i: int| 0 <= i < decimal(n).len() ==> is_digit(#[trigger] decimal(n)[i]),
        digits_value(decimal(n)) == n,
    decreases n,
{
    if n >= 10 {
        lemma_decimal_digits(n / 10);
        let d = decimal(n);
        let c = (((n % 10) + 48) as u32) as char;
        assert(d.drop_last() =~= decimal(n / 10));
        assert(d.last() == c);
        assert((c as u32) == (n % 10) + 48);
        assert(n == (n / 10) * 10 + n % 10) by (nonlinear_arith);
        assert(digits_value(d.drop_last()) == n / 10);
        assert(((d.last() as u32) - 48) as nat == n % 10);
        assert(digits_value(d) == digits_value(d.drop_last()) * 10 + ((d.last() as u32) - 48) as nat);
        assert forall|i: int| 0 <= i < d.len() implies is_digit(#[trigger] d[i]) by {
            if i < d.len() - 1 {
                assert(d[i] == decimal(n / 10)[i]);
            }
        }
    } else {
        let c = ((n + 48) as u32) as char;
        let d = decimal(n);
        assert(d == seq![c]);
        assert(d.drop_last() =~= Seq::<char>::empty());
        assert(d.last() == c);
        assert((c as u32) == n + 48);
        assert(digits_value(d.drop_last()) == 0);
        assert(digits_value(d) == digits_value(d.drop_last()) * 10 + ((d.last() as u32) - 48) as nat);
    }
}

/// A number written in decimal reads back as itself.
pub proof fn lemma_u64_written(n: u64)
    ensures
        number_as_u64(decimal(n as nat)) == Some(n),
{
    lemma_decimal_digits(n as nat);
}

pub open spec fn schema_wf(s: SchemaView) -> bool {
    no_known_keys(s.extra_fields, schema_keys())
}

#[verifier::rlimit(50)]
pub proof fn law_schema_round_trip(s: SchemaView)
    requires
        schema_wf(s),
    ensures
        spec_schema(schema_json(s)) == Ok::<_, Seq<char>>(s),
{
    broadcast use lemma_lookup_concat, lemma_lookup_member, lemma_lookup_empty, lemma_unknown_concat;
    lemma_schema_names_distinct();
    let keys = schema_keys();
    let methods = s.verification_methods.map_values(string_writer());
    let known = member("identifier"@, JsonView::Str(s.identifier)) + member("version"@, JsonView::Str(s.version))
        + opt_string_member("governanceUri"@, s.governance_uri) + list_member("verificationMethods"@, methods);
    assert(keys.contains("identifier"@) && keys.contains("version"@) && keys.contains("governanceUri"@) && keys.contains("verificationMethods"@)) by {
        assert(keys[0] == "identifier"@ && keys[1] == "version"@ && keys[2] == "governanceUri"@ && keys[3] == "verificationMethods"@);
    }
    lemma_lookup_absent(s.extra_fields, keys, "identifier"@);
    lemma_lookup_absent(s.extra_fields, keys, "version"@);
    lemma_lookup_absent(s.extra_fields, keys, "governanceUri"@);
    lemma_lookup_absent(s.extra_fields, keys, "verificationMethods"@);
    lemma_unknown_none(s.extra_fields, keys);
    assert(only_known_keys(known, keys));
    lemma_unknown_all(known, keys);
    lemma_strings_written(s.verification_methods);
    if methods.len() == 0 {
        assert(s.verification_methods =~= Seq::<Seq<char>>::empty());
    }
    assert(Seq::<(Seq<char>, JsonView)>::empty() + s.extra_fields =~= s.extra_fields);
    let ms = known + s.extra_fields;
    assert(schema_json(s) == JsonView::Object(ms));
    assert(lookup(ms, "identifier"@) == Some(JsonView::Str(s.identifier)));
    assert(lookup(ms, "version"@) == Some(JsonView::Str(s.version)));
    assert(crate::schema::f_opt_string(ms, "governanceUri"@) == Ok::<_, Seq<char>>(s.governance_uri));
    assert(crate::schema::f_strings(ms, "verificationMethods"@) == Ok::<_, Seq<char>>(s.verification_methods));
    assert(unknown_members(ms, keys) == s.extra_fields);
}

pub open spec fn attestation_wf(a: AttestationView) -> bool {
    no_known_keys(a.extra_fields, attestation_keys())
}

#[verifier::rlimit(50)]
pub proof fn law_attestation_round_trip(a: AttestationView)
    requires
        attestation_wf(a),
    ensures
        spec_attestation(attestation_json(a)) == Ok::<_, Seq<char>>(a),
{
    broadcast use lemma_lookup_concat, lemma_lookup_member, lemma_lookup_empty, lemma_unknown_concat;
    lemma_attestation_names_distinct();
    let keys = attestation_keys();
    let size = match a.size {
        Some(n) => member("size"@, JsonView::Number(decimal(n as nat))),
        None => Seq::empty(),
    };
    let known = member("type"@, JsonView::Str(a.attestation_type)) + member("uri"@, JsonView::Str(a.uri))
        + opt_string_member("digest"@, a.digest) + size + opt_string_member("description"@, a.description);
    assert(keys[0] == "type"@ && keys[1] == "uri"@ && keys[2] == "digest"@ && keys[3] == "size"@ && keys[4] == "description"@);
    lemma_lookup_absent(a.extra_fields, keys, "type"@);
    lemma_lookup_absent(a.extra_fields, keys, "uri"@);
    lemma_lookup_absent(a.extra_fields, keys, "digest"@);
    lemma_lookup_absent(a.extra_fields, keys, "size"@);
    lemma_lookup_absent(a.extra_fields, keys, "description"@);
    lemma_unknown_none(a.extra_fields, keys);
    assert(only_known_keys(known, keys));
    lemma_unknown_all(known, keys);
    if let Some(n) = a.size {
        lemma_u64_written(n);
    }
    assert(Seq::<(Seq<char>, JsonView)>::empty() + a.extra_fields =~= a.extra_fields);
    let ms = known + a.extra_fields;
    assert(attestation_json(a) == JsonView::Object(ms));
    assert(lookup(ms, "type"@) == Some(JsonView::Str(a.attestation_type)));
    assert(lookup(ms, "uri"@) == Some(JsonView::Str(a.uri)));
    assert(crate::schema::f_opt_string(ms, "digest"@) == Ok::<_, Seq<char>>(a.digest));
    assert(crate::schema::f_opt_u64(ms, "size"@) == Ok::<_, Seq<char>>(a.size));
    assert(crate::schema::f_opt_string(ms, "description"@) == Ok::<_, Seq<char>>(a.description));
    assert(unknown_members(ms, keys) == a.extra_fields);
}

pub open spec fn provenance_wf(p: ProvenanceView) -> bool {
    no_known_keys(p.extra_fields, provenance_keys())
}

#[verifier::rlimit(50)]
pub proof fn law_provenance_round_trip(p: ProvenanceView)
    requires
        provenance_wf(p),
    ensures
        spec_provenance(provenance_json(p)) == Ok::<_, Seq<char>>(p),
{
    broadcast use lemma_lookup_concat, lemma_lookup_member, lemma_lookup_empty, lemma_unknown_concat;
    lemma_provenance_names_distinct();
    let keys = provenance_keys();
    let known = member("relation"@, JsonView::Str(p.relation)) + member("sourceId"@, JsonView::Str(p.source_id))
        + opt_string_member("sourceDigest"@, p.source_digest) + opt_string_member("registryUri"@, p.registry_uri)
        + opt_string_member("statementUri"@, p.statement_uri) + opt_string_member("signatureRef"@, p.signature_ref);
    assert(keys[0] == "relation"@ && keys[1] == "sourceId"@ && keys[2] == "sourceDigest"@ && keys[3] == "registryUri"@ && keys[4] == "statementUri"@ && keys[5] == "signatureRef"@);
    lemma_lookup_absent(p.extra_fields, keys, "relation"@);
    lemma_lookup_absent(p.extra_fields, keys, "sourceId"@);
    lemma_lookup_absent(p.extra_fields, keys, "sourceDigest"@);
    lemma_lookup_absent(p.extra_fields, keys, "registryUri"@);
    lemma_lookup_absent(p.extra_fields, keys, "statementUri"@);
    lemma_lookup_absent(p.extra_fields, keys, "signatureRef"@);
    lemma_unknown_none(p.extra_fields, keys);
    assert(only_known_keys(known, keys));
    lemma_unknown_all(known, keys);
    assert(Seq::<(Seq<char>, JsonView)>::empty() + p.extra_fields =~= p.extra_fields);
    let ms = known + p.extra_fields;
    assert(provenance_json(p) == JsonView::Object(ms));
    assert(lookup(ms, "relation"@) == Some(JsonView::Str(p.relation)));
    assert(lookup(ms, "sourceId"@) == Some(JsonView::Str(p.source_id)));
    assert(crate::schema::f_opt_string(ms, "sourceDigest"@) == Ok::<_, Seq<char>>(p.source_digest));
    assert(crate::schema::f_opt_string(ms, "registryUri"@) == Ok::<_, Seq<char>>(p.registry_uri));
    assert(crate::schema::f_opt_string(ms, "statementUri"@) == Ok::<_, Seq<char>>(p.statement_uri));
    assert(crate::schema::f_opt_string(ms, "signatureRef"@) == Ok::<_, Seq<char>>(p.signature_ref));
    assert(unknown_members(ms, keys) == p.extra_fields);
}

pub open spec fn publisher_wf(p: PublisherView) -> bool {
    no_known_keys(p.extra_fields, publisher_keys())
}

#[verifier::rlimit(50)]
pub proof fn law_publisher_round_trip(p: PublisherView)
    requires
        publisher_wf(p),
    ensures
        spec_publisher(publisher_json(p)) == Ok::<_, Seq<char>>(p),
{
    broadcast use lemma_lookup_concat, lemma_lookup_member, lemma_lookup_empty, lemma_unknown_concat;
    lemma_publisher_names_distinct();
    let keys = publisher_keys();
    let known = member("identifier"@, JsonView::Str(p.identifier)) + member("displayName"@, JsonView::Str(p.display_name))
        + opt_string_member("identityType"@, p.identity_type);
    assert(keys[0] == "identifier"@ && keys[1] == "displayName"@ && keys[2] == "identityType"@);
    lemma_lookup_absent(p.extra_fields, keys, "identifier"@);
    lemma_lookup_absent(p.extra_fields, keys, "displayName"@);
    lemma_lookup_absent(p.extra_fields, keys, "identityType"@);
    lemma_unknown_none(p.extra_fields, keys);
    assert(only_known_keys(known, keys));
    lemma_unknown_all(known, keys);
    assert(Seq::<(Seq<char>, JsonView)>::empty() + p.extra_fields =~= p.extra_fields);
    let ms = known + p.extra_fields;
    assert(publisher_json(p) == JsonView::Object(ms));
    assert(lookup(ms, "identifier"@) == Some(JsonView::Str(p.identifier)));
    assert(lookup(ms, "displayName"@) == Some(JsonView::Str(p.display_name)));
    assert(crate::schema::f_opt_string(ms, "identityType"@) == Ok::<_, Seq<char>>(p.identity_type));
    assert(unknown_members(ms, keys) == p.extra_fields);
}

/// The member names of the subject object differ from one another.
proof fn lemma_subject_names_distinct()
    ensures
        "type"@ != "digest"@,
        "type"@ != "url"@,
        "digest"@ != "url"@,
{
    reveal_strlit("type");
    assert("type"@.len() == 4);
    reveal_strlit("digest");
    assert("digest"@.len() == 6);
    reveal_strlit("url");
    assert("url"@.len() == 3);
}

/// The member names of the schema object differ from one another.
proof fn lemma_schema_names_distinct()
    ensures
        "identifier"@ != "version"@,
        "identifier"@ != "governanceUri"@,
        "identifier"@ != "verificationMethods"@,
        "version"@ != "governanceUri"@,
        "version"@ != "verificationMethods"@,
        "governanceUri"@ != "verificationMethods"@,
{
    reveal_strlit("identifier");
    assert("identifier"@.len() == 10);
    reveal_strlit("version");
    assert("version"@.len() == 7);
    reveal_strlit("governanceUri");
    assert("governanceUri"@.len() == 13);
    reveal_strlit("verificationMethods");
    assert("verificationMethods"@.len() == 19);
}

/// The member names of the attestation object differ from one another.
proof fn lemma_attestation_names_distinct()
    ensures
        "type"@ != "uri"@,
        "type"@ != "digest"@,
        "type"@ != "size"@,
        "type"@ != "description"@,
        "uri"@ != "digest"@,
        "uri"@ != "size"@,
        "uri"@ != "description"@,
        "digest"@ != "size"@,
        "digest"@ != "description"@,
        "size"@ != "description"@,
{
    reveal_strlit("type");
    assert("type"@.len() == 4);
    reveal_strlit("uri");
    assert("uri"@.len() == 3);
    reveal_strlit("digest");
    assert("digest"@.len() == 6);
    reveal_strlit("size");
    assert("size"@.len() == 4);
    reveal_strlit("description");
    assert("description"@.len() == 11);
    assert("type"@[0] == 't' && "size"@[0] == 's');
}

/// The member names of the provenance object differ from one another.
proof fn lemma_provenance_names_distinct()
    ensures
        "relation"@ != "sourceId"@,
        "relation"@ != "sourceDigest"@,
        "relation"@ != "registryUri"@,
        "relation"@ != "statementUri"@,
        "relation"@ != "signatureRef"@,
        "sourceId"@ != "sourceDigest"@,
        "sourceId"@ != "registryUri"@,
        "sourceId"@ != "statementUri"@,
        "sourceId"@ != "signatureRef"@,
        "sourceDigest"@ != "registryUri"@,
        "sourceDigest"@ != "statementUri"@,
        "sourceDigest"@ != "signatureRef"@,
        "registryUri"@ != "statementUri"@,
        "registryUri"@ != "signatureRef"@,
        "statementUri"@ != "signatureRef"@,
{
    reveal_strlit("relation");
    assert("relation"@.len() == 8);
    reveal_strlit("sourceId");
    assert("sourceId"@.len() == 8);
    reveal_strlit("sourceDigest");
    assert("sourceDigest"@.len() == 12);
    reveal_strlit("registryUri");
    assert("registryUri"@.len() == 11);
    reveal_strlit("statementUri");
    assert("statementUri"@.len() == 12);
    reveal_strlit("signatureRef");
    assert("signatureRef"@.len() == 12);
    assert("relation"@[0] == 'r' && "sourceId"@[0] == 's');
    assert("sourceDigest"@[1] == 'o' && "statementUri"@[1] == 't');
    assert("sourceDigest"@[1] == 'o' && "signatureRef"@[1] == 'i');
    assert("statementUri"@[1] == 't' && "signatureRef"@[1] == 'i');
}

/// The member names of the manifest object differ from one another.
proof fn lemma_manifest_names_distinct()
    ensures
        "identity"@ != "identityType"@,
        "identity"@ != "trustSchema"@,
        "identity"@ != "attestations"@,
        "identity"@ != "provenance"@,
        "identity"@ != "privacyPolicyUrl"@,
        "identity"@ != "termsOfServiceUrl"@,
        "identity"@ != "subject"@,
        "identity"@ != "issuedAt"@,
        "identity"@ != "expiresAt"@,
        "identity"@ != "signature"@,
        "identity"@ != "extensions"@,
        "identityType"@ != "trustSchema"@,
        "identityType"@ != "attestations"@,
        "identityType"@ != "provenance"@,
        "identityType"@ != "privacyPolicyUrl"@,
        "identityType"@ != "termsOfServiceUrl"@,
        "identityType"@ != "subject"@,
        "identityType"@ != "issuedAt"@,
        "identityType"@ != "expiresAt"@,
        "identityType"@ != "signature"@,
        "identityType"@ != "extensions"@,
        "trustSchema"@ != "attestations"@,
        "trustSchema"@ != "provenance"@,
        "trustSchema"@ != "privacyPolicyUrl"@,
        "trustSchema"@ != "termsOfServiceUrl"@,
        "trustSchema"@ != "subject"@,
        "trustSchema"@ != "issuedAt"@,
        "trustSchema"@ != "expiresAt"@,
        "trustSchema"@ != "signature"@,
        "trustSchema"@ != "extensions"@,
        "attestations"@ != "provenance"@,
        "attestations"@ != "privacyPolicyUrl"@,
        "attestations"@ != "termsOfServiceUrl"@,
        "attestations"@ != "subject"@,
        "attestations"@ != "issuedAt"@,
        "attestations"@ != "expiresAt"@,
        "attestations"@ != "signature"@,
        "attestations"@ != "extensions"@,
        "provenance"@ != "privacyPolicyUrl"@,
        "provenance"@ != "termsOfServiceUrl"@,
        "provenance"@ != "subject"@,
        "provenance"@ != "issuedAt"@,
        "provenance"@ != "expiresAt"@,
        "provenance"@ != "signature"@,
        "provenance"@ != "extensions"@,
        "privacyPolicyUrl"@ != "termsOfServiceUrl"@,
        "privacyPolicyUrl"@ != "subject"@,
        "privacyPolicyUrl"@ != "issuedAt"@,
        "privacyPolicyUrl"@ != "expiresAt"@,
        "privacyPolicyUrl"@ != "signature"@,
        "privacyPolicyUrl"@ != "extensions"@,
        "termsOfServiceUrl"@ != "subject"@,
        "termsOfServiceUrl"@ != "issuedAt"@,
        "termsOfServiceUrl"@ != "expiresAt"@,
        "termsOfServiceUrl"@ != "signature"@,
        "termsOfServiceUrl"@ != "extensions"@,
        "subject"@ != "issuedAt"@,
        "subject"@ != "expiresAt"@,
        "subject"@ != "signature"@,
        "subject"@ != "extensions"@,
        "issuedAt"@ != "expiresAt"@,
        "issuedAt"@ != "signature"@,
        "issuedAt"@ != "extensions"@,
        "expiresAt"@ != "signature"@,
        "expiresAt"@ != "extensions"@,
        "signature"@ != "extensions"@,
{
    reveal_strlit("identity");
    assert("identity"@.len() == 8);
    reveal_strlit("identityType");
    assert("identityType"@.len() == 12);
    reveal_strlit("trustSchema");
    assert("trustSchema"@.len() == 11);
    reveal_strlit("attestations");
    assert("attestations"@.len() == 12);
    reveal_strlit("provenance");
    assert("provenance"@.len() == 10);
    reveal_strlit("privacyPolicyUrl");
    assert("privacyPolicyUrl"@.len() == 16);
    reveal_strlit("termsOfServiceUrl");
    assert("termsOfServiceUrl"@.len() == 17);
    reveal_strlit("subject");
    assert("subject"@.len() == 7);
    reveal_strlit("issuedAt");
    assert("issuedAt"@.len() == 8);
    reveal_strlit("expiresAt");
    assert("expiresAt"@.len() == 9);
    reveal_strlit("signature");
    assert("signature"@.len() == 9);
    reveal_strlit("extensions");
    assert("extensions"@.len() == 10);
    assert("identity"@[1] == 'd' && "issuedAt"@[1] == 's');
    assert("identityType"@[0] == 'i' && "attestations"@[0] == 'a');
    assert("provenance"@[0] == 'p' && "extensions"@[0] == 'e');
    assert("expiresAt"@[0] == 'e' && "signature"@[0] == 's');
}

/// The member names of the publisher object differ from one another.
proof fn lemma_publisher_names_distinct()
    ensures
        "identifier"@ != "displayName"@,
        "identifier"@ != "identityType"@,
        "displayName"@ != "identityType"@,
{
    reveal_strlit("identifier");
    assert("identifier"@.len() == 10);
    reveal_strlit("displayName");
    assert("displayName"@.len() == 11);
    reveal_strlit("identityType");
    assert("identityType"@.len() == 12);
}

/// The member names of the host object differ from one another.
proof fn lemma_host_names_distinct()
    ensures
        "displayName"@ != "identifier"@,
        "displayName"@ != "documentationUrl"@,
        "displayName"@ != "logoUrl"@,
        "displayName"@ != "trustManifest"@,
        "identifier"@ != "documentationUrl"@,
        "identifier"@ != "logoUrl"@,
        "identifier"@ != "trustManifest"@,
        "documentationUrl"@ != "logoUrl"@,
        "documentationUrl"@ != "trustManifest"@,
        "logoUrl"@ != "trustManifest"@,
{
    reveal_strlit("displayName");
    assert("displayName"@.len() == 11);
    reveal_strlit("identifier");
    assert("identifier"@.len() == 10);
    reveal_strlit("documentationUrl");
    assert("documentationUrl"@.len() == 16);
    reveal_strlit("logoUrl");
    assert("logoUrl"@.len() == 7);
    reveal_strlit("trustManifest");
    assert("trustManifest"@.len() == 13);
}

/// The member names of the entry object differ from one another.
proof fn lemma_entry_names_distinct()
    ensures
        "identifier"@ != "displayName"@,
        "identifier"@ != "type"@,
        "identifier"@ != "url"@,
        "identifier"@ != "data"@,
        "identifier"@ != "version"@,
        "identifier"@ != "description"@,
        "identifier"@ != "tags"@,
        "identifier"@ != "publisher"@,
        "identifier"@ != "trustManifest"@,
        "identifier"@ != "updatedAt"@,
        "identifier"@ != "extensions"@,
        "displayName"@ != "type"@,
        "displayName"@ != "url"@,
        "displayName"@ != "data"@,
        "displayName"@ != "version"@,
        "displayName"@ != "description"@,
        "displayName"@ != "tags"@,
        "displayName"@ != "publisher"@,
        "displayName"@ != "trustManifest"@,
        "displayName"@ != "updatedAt"@,
        "displayName"@ != "extensions"@,
        "type"@ != "url"@,
        "type"@ != "data"@,
        "type"@ != "version"@,
        "type"@ != "description"@,
        "type"@ != "tags"@,
        "type"@ != "publisher"@,
        "type"@ != "trustManifest"@,
        "type"@ != "updatedAt"@,
        "type"@ != "extensions"@,
        "url"@ != "data"@,
        "url"@ != "version"@,
        "url"@ != "description"@,
        "url"@ != "tags"@,
        "url"@ != "publisher"@,
        "url"@ != "trustManifest"@,
        "url"@ != "updatedAt"@,
        "url"@ != "extensions"@,
        "data"@ != "version"@,
        "data"@ != "description"@,
        "data"@ != "tags"@,
        "data"@ != "publisher"@,
        "data"@ != "trustManifest"@,
        "data"@ != "updatedAt"@,
        "data"@ != "extensions"@,
        "version"@ != "description"@,
        "version"@ != "tags"@,
        "version"@ != "publisher"@,
        "version"@ != "trustManifest"@,
        "version"@ != "updatedAt"@,
        "version"@ != "extensions"@,
        "description"@ != "tags"@,
        "description"@ != "publisher"@,
        "description"@ != "trustManifest"@,
        "description"@ != "updatedAt"@,
        "description"@ != "extensions"@,
        "tags"@ != "publisher"@,
        "tags"@ != "trustManifest"@,
        "tags"@ != "updatedAt"@,
        "tags"@ != "extensions"@,
        "publisher"@ != "trustManifest"@,
        "publisher"@ != "updatedAt"@,
        "publisher"@ != "extensions"@,
        "trustManifest"@ != "updatedAt"@,
        "trustManifest"@ != "extensions"@,
        "updatedAt"@ != "extensions"@,
{
    reveal_strlit("identifier");
    assert("identifier"@.len() == 10);
    reveal_strlit("displayName");
    assert("displayName"@.len() == 11);
    reveal_strlit("type");
    assert("type"@.len() == 4);
    reveal_strlit("url");
    assert("url"@.len() == 3);
    reveal_strlit("data");
    assert("data"@.len() == 4);
    reveal_strlit("version");
    assert("version"@.len() == 7);
    reveal_strlit("description");
    assert("description"@.len() == 11);
    reveal_strlit("tags");
    assert("tags"@.len() == 4);
    reveal_strlit("publisher");
    assert("publisher"@.len() == 9);
    reveal_strlit("trustManifest");
    assert("trustManifest"@.len() == 13);
    reveal_strlit("updatedAt");
    assert("updatedAt"@.len() == 9);
    reveal_strlit("extensions");
    assert("extensions"@.len() == 10);
    assert("identifier"@[0] == 'i' && "extensions"@[0] == 'e');
    assert("displayName"@[1] == 'i' && "description"@[1] == 'e');
    assert("type"@[0] == 't' && "data"@[0] == 'd');
    assert("type"@[1] == 'y' && "tags"@[1] == 'a');
    assert("data"@[0] == 'd' && "tags"@[0] == 't');
    assert("publisher"@[0] == 'p' && "updatedAt"@[0] == 'u');
}

/// The member names of the catalog object differ from one another.
proof fn lemma_catalog_names_distinct()
    ensures
        "specVersion"@ != "host"@,
        "specVersion"@ != "entries"@,
        "specVersion"@ != "signature"@,
        "specVersion"@ != "extensions"@,
        "host"@ != "entries"@,
        "host"@ != "signature"@,
        "host"@ != "extensions"@,
        "entries"@ != "signature"@,
        "entries"@ != "extensions"@,
        "signature"@ != "extensions"@,
{
    reveal_strlit("specVersion");
    assert("specVersion"@.len() == 11);
    reveal_strlit("host");
    assert("host"@.len() == 4);
    reveal_strlit("entries");
    assert("entries"@.len() == 7);
    reveal_strlit("signature");
    assert("signature"@.len() == 9);
    reveal_strlit("extensions");
    assert("extensions"@.len() == 10);
}

pub open spec fn opt_schema_wf(o: Option<SchemaView>) -> bool {
    o matches Some(s) ==> schema_wf(s)
}

pub open spec fn opt_subject_wf(o: Option<SubjectView>) -> bool {
    o matches Some(s) ==> subject_wf(s)
}

/// A trust manifest whose unknown members, and those of everything it
/// holds, carry no name the schema knows.
pub open spec fn manifest_wf(m: ManifestView) -> bool {
    &&& no_known_keys(m.extra_fields, manifest_keys())
    &&& opt_schema_wf(m.trust_schema)
    &&& forall|i: int| 0 <= i < m.attestations.len() ==> attestation_wf(#[trigger] m.attestations[i])
    &&& forall|i: int| 0 <= i < m.provenance.len() ==> provenance_wf(#[trigger] m.provenance[i])
    &&& opt_subject_wf(m.subject)
}

proof fn lemma_attestations_written(atts: Seq<AttestationView>)
    requires
        forall|i: int| 0 <= i < atts.len() ==> attestation_wf(#[trigger] atts[i]),
    ensures
        parse_all(atts.map_values(attestation_writer()), attestation_parser()) == Ok::<_, Seq<char>>(atts),
        atts.map_values(attestation_writer()).len() == 0 ==> atts == Seq::<AttestationView>::empty(),
{
    assert forall|i: int| 0 <= i < atts.len() implies attestation_parser()(attestation_writer()(#[trigger] atts[i])) == Ok::<AttestationView, Seq<char>>(atts[i]) by {
        law_attestation_round_trip(atts[i]);
    }
    lemma_parse_all_written(atts, attestation_writer(), attestation_parser());
    if atts.len() == 0 {
        assert(atts =~= Seq::<AttestationView>::empty());
    }
}

proof fn lemma_provenance_written(links: Seq<ProvenanceView>)
    requires
        forall|i: int| 0 <= i < links.len() ==> provenance_wf(#[trigger] links[i]),
    ensures
        parse_all(links.map_values(provenance_writer()), provenance_parser()) == Ok::<_, Seq<char>>(links),
        links.map_values(provenance_writer()).len() == 0 ==> links == Seq::<ProvenanceView>::empty(),
{
    assert forall|i: int| 0 <= i < links.len() implies provenance_parser()(provenance_writer()(#[trigger] links[i])) == Ok::<ProvenanceView, Seq<char>>(links[i]) by {
        law_provenance_round_trip(links[i]);
    }
    lemma_parse_all_written(links, provenance_writer(), provenance_parser());
    if links.len() == 0 {
        assert(links =~= Seq::<ProvenanceView>::empty());
    }
}

pub open spec fn opt_schema_json(o: Option<SchemaView>) -> Option<JsonView> {
    match o {
        Some(s) => Some(schema_json(s)),
        None => None,
    }
}

pub open spec fn opt_subject_json(o: Option<SubjectView>) -> Option<JsonView> {
    match o {
        Some(s) => Some(subject_json(s)),
        None => None,
    }
}

/// The members a trust manifest is written with, before its unknown ones.
pub open spec fn manifest_known(m: ManifestView) -> Members {
    member("identity"@, JsonView::Str(m.identity)) + opt_string_member("identityType"@, m.identity_type)
        + opt_json_member("trustSchema"@, opt_schema_json(m.trust_schema)) + list_member(
        "attestations"@,
        m.attestations.map_values(attestation_writer()),
    ) + list_member("provenance"@, m.provenance.map_values(provenance_writer()))
        + opt_string_member("privacyPolicyUrl"@, m.privacy_policy_url) + opt_string_member(
        "termsOfServiceUrl"@,
        m.terms_of_service_url,
    ) + opt_json_member("subject"@, opt_subject_json(m.subject)) + opt_string_member(
        "issuedAt"@,
        m.issued_at,
    ) + opt_string_member("expiresAt"@, m.expires_at) + opt_string_member("signature"@, m.signature)
        + opt_object_member("extensions"@, m.extensions)
}

#[verifier::rlimit(100)]
proof fn lemma_manifest_absent(m: ManifestView)
    requires
        manifest_wf(m),
    ensures
        lookup(m.extra_fields, "identity"@) is None,
        lookup(m.extra_fields, "identityType"@) is None,
        lookup(m.extra_fields, "trustSchema"@) is None,
        lookup(m.extra_fields, "attestations"@) is None,
        lookup(m.extra_fields, "provenance"@) is None,
        lookup(m.extra_fields, "privacyPolicyUrl"@) is None,
        lookup(m.extra_fields, "termsOfServiceUrl"@) is None,
        lookup(m.extra_fields, "subject"@) is None,
        lookup(m.extra_fields, "issuedAt"@) is None,
        lookup(m.extra_fields, "expiresAt"@) is None,
        lookup(m.extra_fields, "signature"@) is None,
        lookup(m.extra_fields, "extensions"@) is None,
        unknown_members(manifest_known(m) + m.extra_fields, manifest_keys()) == m.extra_fields,
{
    broadcast use lemma_unknown_concat;
    let keys = manifest_keys();
    assert(keys[0] == "identity"@ && keys[1] == "identityType"@ && keys[2] == "trustSchema"@
        && keys[3] == "attestations"@ && keys[4] == "provenance"@ && keys[5] == "privacyPolicyUrl"@
        && keys[6] == "termsOfServiceUrl"@ && keys[7] == "subject"@ && keys[8] == "issuedAt"@
        && keys[9] == "expiresAt"@ && keys[10] == "signature"@ && keys[11] == "extensions"@);
    lemma_lookup_absent(m.extra_fields, keys, "identity"@);
    lemma_lookup_absent(m.extra_fields, keys, "identityType"@);
    lemma_lookup_absent(m.extra_fields, keys, "trustSchema"@);
    lemma_lookup_absent(m.extra_fields, keys, "attestations"@);
    lemma_lookup_absent(m.extra_fields, keys, "provenance"@);
    lemma_lookup_absent(m.extra_fields, keys, "privacyPolicyUrl"@);
    lemma_lookup_absent(m.extra_fields, keys, "termsOfServiceUrl"@);
    lemma_lookup_absent(m.extra_fields, keys, "subject"@);
    lemma_lookup_absent(m.extra_fields, keys, "issuedAt"@);
    lemma_lookup_absent(m.extra_fields, keys, "expiresAt"@);
    lemma_lookup_absent(m.extra_fields, keys, "signature"@);
    lemma_lookup_absent(m.extra_fields, keys, "extensions"@);
    lemma_unknown_none(m.extra_fields, keys);
    assert(only_known_keys(manifest_known(m), keys));
    lemma_unknown_all(manifest_known(m), keys);
    assert(Seq::<(Seq<char>, JsonView)>::empty() + m.extra_fields =~= m.extra_fields);
}

#[verifier::rlimit(100)]
proof fn lemma_manifest_fields_a(m: ManifestView)
    requires
        manifest_wf(m),
    ensures
        ({
            let ms = manifest_known(m) + m.extra_fields;
            &&& crate::schema::f_string(ms, "identity"@) == Ok::<_, Seq<char>>(m.identity)
            &&& crate::schema::f_opt_string(ms, "identityType"@) == Ok::<_, Seq<char>>(m.identity_type)
            &&& crate::schema::f_opt(ms, "trustSchema"@, schema_parser()) == Ok::<_, Seq<char>>(m.trust_schema)
            &&& crate::schema::f_list(ms, "attestations"@, attestation_parser()) == Ok::<_, Seq<char>>(m.attestations)
        }),
{
    broadcast use lemma_lookup_concat, lemma_lookup_member, lemma_lookup_empty;
    lemma_manifest_names_distinct();
    lemma_manifest_absent(m);
    lemma_attestations_written(m.attestations);
    if let Some(s) = m.trust_schema {
        law_schema_round_trip(s);
    }
}

#[verifier::rlimit(100)]
proof fn lemma_manifest_fields_b(m: ManifestView)
    requires
        manifest_wf(m),
    ensures
        ({
            let ms = manifest_known(m) + m.extra_fields;
            &&& crate::schema::f_list(ms, "provenance"@, provenance_parser()) == Ok::<_, Seq<char>>(m.provenance)
            &&& crate::schema::f_opt_string(ms, "privacyPolicyUrl"@) == Ok::<_, Seq<char>>(m.privacy_policy_url)
            &&& crate::schema::f_opt_string(ms, "termsOfServiceUrl"@) == Ok::<_, Seq<char>>(m.terms_of_service_url)
            &&& crate::schema::f_opt(ms, "subject"@, subject_parser()) == Ok::<_, Seq<char>>(m.subject)
        }),
{
    broadcast use lemma_lookup_concat, lemma_lookup_member, lemma_lookup_empty;
    lemma_manifest_names_distinct();
    lemma_manifest_absent(m);
    lemma_provenance_written(m.provenance);
    if let Some(s) = m.subject {
        law_subject_round_trip(s);
    }
}

#[verifier::rlimit(100)]
proof fn lemma_manifest_fields_c(m: ManifestView)
    requires
        manifest_wf(m),
    ensures
        ({
            let ms = manifest_known(m) + m.extra_fields;
            &&& crate::schema::f_opt_string(ms, "issuedAt"@) == Ok::<_, Seq<char>>(m.issued_at)
            &&& crate::schema::f_opt_string(ms, "expiresAt"@) == Ok::<_, Seq<char>>(m.expires_at)
            &&& crate::schema::f_opt_string(ms, "signature"@) == Ok::<_, Seq<char>>(m.signature)
            &&& crate::schema::f_opt_object(ms, "extensions"@) == Ok::<_, Seq<char>>(m.extensions)
        }),
{
    broadcast use lemma_lookup_concat, lemma_lookup_member, lemma_lookup_empty;
    lemma_manifest_names_distinct();
    lemma_manifest_absent(m);
}

/// A trust manifest written as JSON reads back as itself.
pub proof fn law_manifest_round_trip(m: ManifestView)
    requires
        manifest_wf(m),
    ensures
        spec_manifest(manifest_json(m)) == Ok::<_, Seq<char>>(m),
{
    lemma_manifest_fields_a(m);
    lemma_manifest_fields_b(m);
    lemma_manifest_fields_c(m);
    lemma_manifest_absent(m);
    assert(manifest_json(m) == JsonView::Object(manifest_known(m) + m.extra_fields));
}

/// A host whose unknown members, and those of its trust manifest, carry
/// no name the schema knows.
pub open spec fn host_wf(h: HostView) -> bool {
    &&& no_known_keys(h.extra_fields, host_keys())
    &&& (h.trust_manifest matches Some(m) ==> manifest_wf(m))
}

/// The members a host is written with, before its unknown ones.
pub open spec fn host_known(h: HostView) -> Members {
    member("displayName"@, JsonView::Str(h.display_name)) + opt_string_member(
        "identifier"@,
        h.identifier,
    ) + opt_string_member("documentationUrl"@, h.documentation_url) + opt_string_member(
        "logoUrl"@,
        h.logo_url,
    ) + opt_json_member("trustManifest"@, opt_manifest_json(h.trust_manifest))
}

#[verifier::rlimit(100)]
proof fn lemma_host_absent(h: HostView)
    requires
        host_wf(h),
    ensures
        lookup(h.extra_fields, "displayName"@) is None,
        lookup(h.extra_fields, "identifier"@) is None,
        lookup(h.extra_fields, "documentationUrl"@) is None,
        lookup(h.extra_fields, "logoUrl"@) is None,
        lookup(h.extra_fields, "trustManifest"@) is None,
        unknown_members(host_known(h) + h.extra_fields, host_keys()) == h.extra_fields,
{
    broadcast use lemma_unknown_concat;
    let keys = host_keys();
    assert(keys[0] == "displayName"@ && keys[1] == "identifier"@ && keys[2] == "documentationUrl"@ && keys[3] == "logoUrl"@ && keys[4] == "trustManifest"@);
    lemma_lookup_absent(h.extra_fields, keys, "displayName"@);
    lemma_lookup_absent(h.extra_fields, keys, "identifier"@);
    lemma_lookup_absent(h.extra_fields, keys, "documentationUrl"@);
    lemma_lookup_absent(h.extra_fields, keys, "logoUrl"@);
    lemma_lookup_absent(h.extra_fields, keys, "trustManifest"@);
    lemma_unknown_none(h.extra_fields, keys);
    assert(only_known_keys(host_known(h), keys));
    lemma_unknown_all(host_known(h), keys);
    assert(Seq::<(Seq<char>, JsonView)>::empty() + h.extra_fields =~= h.extra_fields);
}

/// A host written as JSON reads back as itself.
#[verifier::rlimit(100)]
pub proof fn law_host_round_trip(h: HostView)
    requires
        host_wf(h),
    ensures
        spec_host(host_json(h)) == Ok::<_, Seq<char>>(h),
{
    broadcast use lemma_lookup_concat, lemma_lookup_member, lemma_lookup_empty;
    lemma_host_names_distinct();
    lemma_host_absent(h);
    if let Some(m) = h.trust_manifest {
        law_manifest_round_trip(m);
    }
    let ms = host_known(h) + h.extra_fields;
    assert(host_json(h) == JsonView::Object(ms));
    assert(crate::schema::f_string(ms, "displayName"@) == Ok::<_, Seq<char>>(h.display_name));
    assert(crate::schema::f_opt_string(ms, "identifier"@) == Ok::<_, Seq<char>>(h.identifier));
    assert(crate::schema::f_opt_string(ms, "documentationUrl"@) == Ok::<_, Seq<char>>(h.documentation_url));
    assert(crate::schema::f_opt_string(ms, "logoUrl"@) == Ok::<_, Seq<char>>(h.logo_url));
    assert(crate::schema::f_opt(ms, "trustManifest"@, manifest_parser()) == Ok::<_, Seq<char>>(h.trust_manifest));
}

/// An entry whose unknown members, and those of everything it holds, carry
/// no name the schema knows, and whose data is not `null`.
pub open spec fn entry_wf(e: EntryView) -> bool {
    &&& no_known_keys(e.extra_fields, entry_keys())
    &&& !(e.data matches Some(JsonView::Null))
    &&& (e.publisher matches Some(p) ==> publisher_wf(p))
    &&& (e.trust_manifest matches Some(m) ==> manifest_wf(m))
}

/// The members an entry is written with, before its unknown ones.
pub open spec fn entry_known(e: EntryView) -> Members {
    member("identifier"@, JsonView::Str(e.identifier)) + opt_string_member(
        "displayName"@,
        e.display_name,
    ) + member("type"@, JsonView::Str(e.entry_type)) + opt_string_member("url"@, e.url)
        + opt_json_member("data"@, e.data) + opt_string_member("version"@, e.version)
        + opt_string_member("description"@, e.description) + list_member(
        "tags"@,
        e.tags.map_values(string_writer()),
    ) + opt_json_member(
        "publisher"@,
        match e.publisher {
            Some(p) => Some(publisher_json(p)),
            None => None,
        },
    ) + opt_json_member("trustManifest"@, opt_manifest_json(e.trust_manifest))
        + opt_string_member("updatedAt"@, e.updated_at) + opt_object_member(
        "extensions"@,
        e.extensions,
    )
}

#[verifier::rlimit(100)]
proof fn lemma_entry_absent(e: EntryView)
    requires
        entry_wf(e),
    ensures
        lookup(e.extra_fields, "identifier"@) is None,
        lookup(e.extra_fields, "displayName"@) is None,
        lookup(e.extra_fields, "type"@) is None,
        lookup(e.extra_fields, "url"@) is None,
        lookup(e.extra_fields, "data"@) is None,
        lookup(e.extra_fields, "version"@) is None,
        lookup(e.extra_fields, "description"@) is None,
        lookup(e.extra_fields, "tags"@) is None,
        lookup(e.extra_fields, "publisher"@) is None,
        lookup(e.extra_fields, "trustManifest"@) is None,
        lookup(e.extra_fields, "updatedAt"@) is None,
        lookup(e.extra_fields, "extensions"@) is None,
        unknown_members(entry_known(e) + e.extra_fields, entry_keys()) == e.extra_fields,
{
    broadcast use lemma_unknown_concat;
    let keys = entry_keys();
    assert(keys[0] == "identifier"@ && keys[1] == "displayName"@ && keys[2] == "type"@ && keys[3] == "url"@ && keys[4] == "data"@ && keys[5] == "version"@ && keys[6] == "description"@ && keys[7] == "tags"@ && keys[8] == "publisher"@ && keys[9] == "trustManifest"@ && keys[10] == "updatedAt"@ && keys[11] == "extensions"@);
    lemma_lookup_absent(e.extra_fields, keys, "identifier"@);
    lemma_lookup_absent(e.extra_fields, keys, "displayName"@);
    lemma_lookup_absent(e.extra_fields, keys, "type"@);
    lemma_lookup_absent(e.extra_fields, keys, "url"@);
    lemma_lookup_absent(e.extra_fields, keys, "data"@);
    lemma_lookup_absent(e.extra_fields, keys, "version"@);
    lemma_lookup_absent(e.extra_fields, keys, "description"@);
    lemma_lookup_absent(e.extra_fields, keys, "tags"@);
    lemma_lookup_absent(e.extra_fields, keys, "publisher"@);
    lemma_lookup_absent(e.extra_fields, keys, "trustManifest"@);
    lemma_lookup_absent(e.extra_fields, keys, "updatedAt"@);
    lemma_lookup_absent(e.extra_fields, keys, "extensions"@);
    lemma_unknown_none(e.extra_fields, keys);
    assert(only_known_keys(entry_known(e), keys));
    lemma_unknown_all(entry_known(e), keys);
    assert(Seq::<(Seq<char>, JsonView)>::empty() + e.extra_fields =~= e.extra_fields);
}

#[verifier::rlimit(100)]
proof fn lemma_entry_fields_a(e: EntryView)
    requires
        entry_wf(e),
    ensures
        ({
            let ms = entry_known(e) + e.extra_fields;
            &&& crate::schema::f_string(ms, "identifier"@) == Ok::<_, Seq<char>>(e.identifier)
            &&& crate::schema::f_opt_string(ms, "displayName"@) == Ok::<_, Seq<char>>(e.display_name)
            &&& crate::schema::f_string(ms, "type"@) == Ok::<_, Seq<char>>(e.entry_type)
            &&& crate::schema::f_opt_string(ms, "url"@) == Ok::<_, Seq<char>>(e.url)
        }),
{
    broadcast use lemma_lookup_concat, lemma_lookup_member, lemma_lookup_empty;
    lemma_entry_names_distinct();
    lemma_entry_absent(e);
}

#[verifier::rlimit(100)]
proof fn lemma_entry_fields_b(e: EntryView)
    requires
        entry_wf(e),
    ensures
        ({
            let ms = entry_known(e) + e.extra_fields;
            &&& crate::schema::f_opt_json(ms, "data"@) == e.data
            &&& crate::schema::f_opt_string(ms, "version"@) == Ok::<_, Seq<char>>(e.version)
            &&& crate::schema::f_opt_string(ms, "description"@) == Ok::<_, Seq<char>>(e.description)
            &&& crate::schema::f_strings(ms, "tags"@) == Ok::<_, Seq<char>>(e.tags)
        }),
{
    broadcast use lemma_lookup_concat, lemma_lookup_member, lemma_lookup_empty;
    lemma_entry_names_distinct();
    lemma_entry_absent(e);
    lemma_strings_written(e.tags);
}

#[verifier::rlimit(100)]
proof fn lemma_entry_fields_c(e: EntryView)
    requires
        entry_wf(e),
    ensures
        ({
            let ms = entry_known(e) + e.extra_fields;
            &&& crate::schema::f_opt(ms, "publisher"@, publisher_parser()) == Ok::<_, Seq<char>>(e.publisher)
            &&& crate::schema::f_opt(ms, "trustManifest"@, manifest_parser()) == Ok::<_, Seq<char>>(e.trust_manifest)
            &&& crate::schema::f_opt_string(ms, "updatedAt"@) == Ok::<_, Seq<char>>(e.updated_at)
            &&& crate::schema::f_opt_object(ms, "extensions"@) == Ok::<_, Seq<char>>(e.extensions)
        }),
{
    broadcast use lemma_lookup_concat, lemma_lookup_member, lemma_lookup_empty;
    lemma_entry_names_distinct();
    lemma_entry_absent(e);
    if let Some(p) = e.publisher {
        law_publisher_round_trip(p);
    }
    if let Some(m) = e.trust_manifest {
        law_manifest_round_trip(m);
    }
}

/// An entry written as JSON reads back as itself.
pub proof fn law_entry_round_trip(e: EntryView)
    requires
        entry_wf(e),
    ensures
        spec_entry(entry_json(e)) == Ok::<_, Seq<char>>(e),
{
    lemma_entry_fields_a(e);
    lemma_entry_fields_b(e);
    lemma_entry_fields_c(e);
    lemma_entry_absent(e);
    assert(entry_json(e) == JsonView::Object(entry_known(e) + e.extra_fields));
}

/// A catalog whose unknown members, and those of everything it holds,
/// carry no name the schema knows, and whose entries' data is not `null`.
pub open spec fn catalog_wf(c: CatalogView) -> bool {
    &&& no_known_keys(c.extra_fields, catalog_keys())
    &&& (c.host matches Some(h) ==> host_wf(h))
    &&& forall|i: int| 0 <= i < c.entries.len() ==> entry_wf(#[trigger] c.entries[i])
}

/// The members a catalog is written with, before its unknown ones.
pub open spec fn catalog_known(c: CatalogView) -> Members {
    member("specVersion"@, JsonView::Str(c.spec_version)) + opt_json_member(
        "host"@,
        match c.host {
            Some(h) => Some(host_json(h)),
            None => None,
        },
    ) + member("entries"@, JsonView::Array(c.entries.map_values(entry_writer())))
        + opt_string_member("signature"@, c.signature) + opt_object_member(
        "extensions"@,
        c.extensions,
    )
}

#[verifier::rlimit(100)]
proof fn lemma_catalog_absent(c: CatalogView)
    requires
        catalog_wf(c),
    ensures
        lookup(c.extra_fields, "specVersion"@) is None,
        lookup(c.extra_fields, "host"@) is None,
        lookup(c.extra_fields, "entries"@) is None,
        lookup(c.extra_fields, "signature"@) is None,
        lookup(c.extra_fields, "extensions"@) is None,
        unknown_members(catalog_known(c) + c.extra_fields, catalog_keys()) == c.extra_fields,
{
    broadcast use lemma_unknown_concat;
    let keys = catalog_keys();
    assert(keys[0] == "specVersion"@ && keys[1] == "host"@ && keys[2] == "entries"@ && keys[3] == "signature"@ && keys[4] == "extensions"@);
    lemma_lookup_absent(c.extra_fields, keys, "specVersion"@);
    lemma_lookup_absent(c.extra_fields, keys, "host"@);
    lemma_lookup_absent(c.extra_fields, keys, "entries"@);
    lemma_lookup_absent(c.extra_fields, keys, "signature"@);
    lemma_lookup_absent(c.extra_fields, keys, "extensions"@);
    lemma_unknown_none(c.extra_fields, keys);
    assert(only_known_keys(catalog_known(c), keys));
    lemma_unknown_all(catalog_known(c), keys);
    assert(Seq::<(Seq<char>, JsonView)>::empty() + c.extra_fields =~= c.extra_fields);
}

/// A catalog written as a JSON value reads back as the same catalog,
/// provided no unknown member it keeps carries a name the schema knows and
/// no entry's data is `null`.
#[verifier::rlimit(100)]
pub proof fn law_catalog_round_trip(c: CatalogView)
    requires
        catalog_wf(c),
    ensures
        spec_catalog_from_json(catalog_json(c)) == Ok::<_, Seq<char>>(c),
{
    broadcast use lemma_lookup_concat, lemma_lookup_member, lemma_lookup_empty;
    lemma_catalog_names_distinct();
    lemma_catalog_absent(c);
    if let Some(h) = c.host {
        law_host_round_trip(h);
    }
    assert forall|i: int| 0 <= i < c.entries.len() implies entry_parser()(entry_writer()(#[trigger] c.entries[i])) == Ok::<EntryView, Seq<char>>(c.entries[i]) by {
        law_entry_round_trip(c.entries[i]);
    }
    lemma_parse_all_written(c.entries, entry_writer(), entry_parser());
    let ms = catalog_known(c) + c.extra_fields;
    assert(catalog_json(c) == JsonView::Object(ms));
    assert(crate::schema::f_string(ms, "specVersion"@) == Ok::<_, Seq<char>>(c.spec_version));
    assert(crate::schema::f_opt(ms, "host"@, host_parser()) == Ok::<_, Seq<char>>(c.host));
    assert(crate::schema::f_list(ms, "entries"@, entry_parser()) == Ok::<_, Seq<char>>(c.entries));
    assert(crate::schema::f_opt_string(ms, "signature"@) == Ok::<_, Seq<char>>(c.signature));
    assert(crate::schema::f_opt_object(ms, "extensions"@) == Ok::<_, Seq<char>>(c.extensions));
}

} // verus!
