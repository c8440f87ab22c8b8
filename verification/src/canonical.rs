//! Canonical JSON of catalogs and trust manifests, the text their
//! signatures sign: their JSON without the `signature` member, in the JSON
//! Canonicalization Scheme (RFC 8785).
use vstd::prelude::*;
use vstd::string::*;
use crate::json::{JsonView, json_view, without_key, without_member};
use crate::jsontext::{json_text, to_json_text};
use crate::model::{AiCatalog, CatalogView, ManifestView, TrustManifest};
use crate::render::{
    Members, attestation_writer, catalog_json, catalog_to_json, entry_writer, host_json, list_member, manifest_json,
    manifest_to_json, member, opt_json_member, opt_object_member, opt_string_member, provenance_writer, schema_json,
    subject_json,
};

verus! {

/// What `serde_jcs` writes for the JSON text `text` once `serde_json` has
/// read it; `None` when either refuses it.
pub uninterp spec fn jcs_text(text: Seq<char>) -> Option<Seq<char>>;

/// Reads `text` with `serde_json::from_str` into a `serde_json::Value` and
/// writes that with `serde_jcs::to_string`. The claim is only that the
/// result is the named canonical text of the argument, which depends on
/// the text alone; of an error only its display text is returned.
#[verifier::external_body]
fn jcs_of_json_text(text: &str) -> (r: Result<String, String>)
    ensures
        match r {
            Ok(s) => jcs_text(text@) == Some(s@),
            Err(_) => jcs_text(text@) is None,
        },
{
    match serde_json::from_str::<serde_json::Value>(text) {
        Ok(value) => match serde_jcs::to_string(&value) {
            Ok(s) => Ok(s),
            Err(e) => Err(e.to_string()),
        },
        Err(e) => Err(e.to_string()),
    }
}

/// A JSON value with its `signature` members left out, when it is an
/// object.
pub open spec fn without_signature(v: JsonView) -> JsonView {
    match v {
        JsonView::Object(ms) => JsonView::Object(without_key(ms, "signature"@)),
        other => other,
    }
}

/// The JSON text a catalog's canonical form is made from: its JSON without
/// its signature.
pub open spec fn catalog_signing_text(c: CatalogView) -> Seq<char> {
    json_text(without_signature(catalog_json(c)))
}

/// The JSON text a trust manifest's canonical form is made from: its JSON
/// without its signature.
pub open spec fn manifest_signing_text(m: ManifestView) -> Seq<char> {
    json_text(without_signature(manifest_json(m)))
}

/// The canonical JSON of a catalog, its signature left out: the text a
/// catalog signature signs.
pub fn canonicalize_catalog(catalog: &AiCatalog) -> (r: Result<String, String>)
    ensures
        match r {
            Ok(s) => jcs_text(catalog_signing_text(catalog@)) == Some(s@),
            Err(_) => jcs_text(catalog_signing_text(catalog@)) is None,
        },
{
    let value = without_member(&catalog_to_json(catalog), "signature");
    let text = to_json_text(&value);
    jcs_of_json_text(text.as_str())
}

/// The canonical JSON of a trust manifest, its signature left out: the
/// text a trust manifest signature signs.
pub fn canonicalize_trust_manifest(manifest: &TrustManifest) -> (r: Result<String, String>)
    ensures
        match r {
            Ok(s) => jcs_text(manifest_signing_text(manifest@)) == Some(s@),
            Err(_) => jcs_text(manifest_signing_text(manifest@)) is None,
        },
{
    let value = without_member(&manifest_to_json(manifest), "signature");
    let text = to_json_text(&value);
    jcs_of_json_text(text.as_str())
}

proof fn lemma_signature_member_dropped(pre: Members, a: Option<Seq<char>>, b: Option<Seq<char>>, post: Members)
    ensures
        without_key(pre + opt_string_member("signature"@, a) + post, "signature"@) == without_key(
            pre + opt_string_member("signature"@, b) + post,
            "signature"@,
        ),
{
    let p = |m: (Seq<char>, JsonView)| m.0 != "signature"@;
    let sa = opt_string_member("signature"@, a);
    let sb = opt_string_member("signature"@, b);
    reveal_with_fuel(Seq::filter, 2);
    assert(sa.filter(p) =~= Seq::<(Seq<char>, JsonView)>::empty());
    assert(sb.filter(p) =~= Seq::<(Seq<char>, JsonView)>::empty());
    Seq::filter_distributes_over_add(pre + sa, post, p);
    Seq::filter_distributes_over_add(pre, sa, p);
    Seq::filter_distributes_over_add(pre + sb, post, p);
    Seq::filter_distributes_over_add(pre, sb, p);
    assert(without_key(pre + sa + post, "signature"@) == (pre + sa + post).filter(p));
    assert(without_key(pre + sb + post, "signature"@) == (pre + sb + post).filter(p));
    assert(pre.filter(p) + sa.filter(p) =~= pre.filter(p));
    assert(pre.filter(p) + sb.filter(p) =~= pre.filter(p));
}

/// A catalog's canonical form does not depend on its signature: catalogs
/// that differ only in their signature have the same signing text.
pub proof fn law_catalog_canonical_ignores_signature(c: CatalogView, signature: Option<Seq<char>>)
    ensures
        catalog_signing_text(CatalogView { signature, ..c }) == catalog_signing_text(c),
{
    let d = CatalogView { signature, ..c };
    let pre = member("specVersion"@, JsonView::Str(c.spec_version)) + opt_json_member(
        "host"@,
        match c.host {
            Some(h) => Some(host_json(h)),
            None => None,
        },
    ) + member("entries"@, JsonView::Array(c.entries.map_values(entry_writer())));
    let post = opt_object_member("extensions"@, c.extensions) + c.extra_fields;
    assert(catalog_json(c) == JsonView::Object(pre + opt_string_member("signature"@, c.signature) + post)) by {
        assert(pre + opt_string_member("signature"@, c.signature) + opt_object_member("extensions"@, c.extensions)
            + c.extra_fields =~= pre + opt_string_member("signature"@, c.signature) + post);
    }
    assert(catalog_json(d) == JsonView::Object(pre + opt_string_member("signature"@, signature) + post)) by {
        assert(pre + opt_string_member("signature"@, signature) + opt_object_member("extensions"@, c.extensions)
            + c.extra_fields =~= pre + opt_string_member("signature"@, signature) + post);
    }
    lemma_signature_member_dropped(pre, signature, c.signature, post);
}

/// A trust manifest's canonical form does not depend on its signature:
/// manifests that differ only in their signature have the same signing
/// text.
pub proof fn law_manifest_canonical_ignores_signature(m: ManifestView, signature: Option<Seq<char>>)
    ensures
        manifest_signing_text(ManifestView { signature, ..m }) == manifest_signing_text(m),
{
    let n = ManifestView { signature, ..m };
    let pre = member("identity"@, JsonView::Str(m.identity)) + opt_string_member("identityType"@, m.identity_type)
        + opt_json_member(
        "trustSchema"@,
        match m.trust_schema {
            Some(s) => Some(schema_json(s)),
            None => None,
        },
    ) + list_member("attestations"@, m.attestations.map_values(attestation_writer())) + list_member(
        "provenance"@,
        m.provenance.map_values(provenance_writer()),
    ) + opt_string_member("privacyPolicyUrl"@, m.privacy_policy_url) + opt_string_member(
        "termsOfServiceUrl"@,
        m.terms_of_service_url,
    ) + opt_json_member(
        "subject"@,
        match m.subject {
            Some(s) => Some(subject_json(s)),
            None => None,
        },
    ) + opt_string_member("issuedAt"@, m.issued_at) + opt_string_member("expiresAt"@, m.expires_at);
    let post = opt_object_member("extensions"@, m.extensions) + m.extra_fields;
    assert(manifest_json(m) == JsonView::Object(pre + opt_string_member("signature"@, m.signature) + post)) by {
        assert(pre + opt_string_member("signature"@, m.signature) + opt_object_member("extensions"@, m.extensions)
            + m.extra_fields =~= pre + opt_string_member("signature"@, m.signature) + post);
    }
    assert(manifest_json(n) == JsonView::Object(pre + opt_string_member("signature"@, signature) + post)) by {
        assert(pre + opt_string_member("signature"@, signature) + opt_object_member("extensions"@, m.extensions)
            + m.extra_fields =~= pre + opt_string_member("signature"@, signature) + post);
    }
    lemma_signature_member_dropped(pre, signature, m.signature, post);
}

} // verus!
