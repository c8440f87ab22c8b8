//! Semantic validation of a catalog: the checks of `conformance`, carried
//! out on a document and collected in the order they are reported.
use vstd::prelude::*;
use vstd::string::*;
use crate::conformance::{
    MAX_NESTING_DEPTH,
    ConformanceLevel, DiagView, Diagnostic, Report, ValidationResult, attestation_errors,
    catalog_report, detect_level, diag, duplicate_errors, dviews, entries_report,
    entry_manifest_report, entry_member_errors, entry_report, identifier_warnings, is_signed,
    is_trusted, law_attestation_type_required, law_errors_ignore_time, opt_manifest, entry_manifests, catalog_manifests, document_manifests,
    entries_manifests, catalog_media, validation_errors, validation_report,
    expiry_warnings, extension_errors, host_report, identity_binding_errors, indexed, key_errors,
    manifest_errors, nothing, one, opt_or_empty, payload_errors, provenance_errors,
    publisher_errors, require_member, rust_parse_u64, schema_errors, signed_member_errors,
    spec_version_errors, subject_binding_errors, subject_errors, substantive_errors,
    timestamp_errors, updated_at_errors,
};
use crate::identity::{identity_domain, publisher_domain};
use crate::timestamp::parse_rfc3339_nanos;
use crate::text::{decimal, opt_view, str_eq};
use crate::model::{AiCatalog, EntryView, ManifestView};
use crate::schema::{catalog_from_json, spec_catalog_from_json};
use crate::timestamp::now_unix_nanos;
use crate::digest::count_char_exec;
use crate::json::{JsonMember, JsonView, lemma_object_view, object_view};
use crate::model::{
    Attestation, CatalogEntry, HostInfo, ProvenanceLink, Publisher, Subject, TrustManifest,
    TrustSchema, opt_manifest_view, opt_object_view, opt_publisher_view, opt_schema_view, opt_subject_view,
};
use crate::pattern::is_extension_key;
use crate::schema::number_as_u64_exec;
use crate::text::{chars_of, find_char_exec, lemma_find_in_bounds, slice_vec, string_from_chars, usize_to_string};

verus! {

proof fn lemma_assoc(a: Seq<DiagView>, b: Seq<DiagView>, c: Seq<DiagView>)
    ensures
        (a + b) + c == a + (b + c),
{
    assert((a + b) + c =~= a + (b + c));
}

proof fn lemma_add_nothing(a: Seq<DiagView>)
    ensures
        a + nothing() == a,
{
    assert(a + nothing() =~= a);
}

/// `a` followed by `b`.
pub(crate) fn cat(a: &str, b: &str) -> (r: String)
    ensures
        r@ == a@ + b@,
{
    let mut s = String::from_str(a);
    s.append(b);
    s
}

/// `a`, `b` and `c` in a row.
pub(crate) fn cat3(a: &str, b: &str, c: &str) -> (r: String)
    ensures
        r@ == a@ + b@ + c@,
{
    let mut s = String::from_str(a);
    s.append(b);
    s.append(c);
    s
}

/// The path of the `i`-th item of a list member of the value at `path`.
pub(crate) fn indexed_path(path: &str, field: &str, i: usize) -> (r: String)
    ensures
        r@ == indexed(path@, field@, i as nat),
{
    let n = usize_to_string(i);
    let mut s = String::from_str(path);
    s.append(field);
    s.append(n.as_str());
    s.append("]");
    s
}

/// Reports one diagnostic.
fn report(out: &mut Vec<Diagnostic>, path: String, message: String)
    ensures
        dviews(final(out)@) == dviews(old(out)@) + one(path@, message@),
{
    let d = Diagnostic { path, message };
    let ghost dv = d@;
    out.push(d);
    assert(dviews(out@) =~= dviews(old(out)@) + one(path@, message@));
}

fn check_required(value: &str, path: String, member: &str, errors: &mut Vec<Diagnostic>)
    ensures
        dviews(final(errors)@) == dviews(old(errors)@) + require_member(value@, path@, member@),
{
    if value.is_empty() {
        let message = cat(member, " is required and must not be empty");
        report(errors, path, message);
    } else {
        proof {
            lemma_add_nothing(dviews(errors@));
        }
    }
}

/// `u64::from_str` on a character sequence.
fn parse_u64_chars(s: &[char]) -> (r: Option<u64>)
    ensures
        r == rust_parse_u64(s@),
{
    if s.len() > 0 && s[0] == '+' {
        let rest = slice_vec(s, 1, s.len());
        assert(rest@ == s@.drop_first());
        let text = string_from_chars(rest.as_slice());
        number_as_u64_exec(text.as_str())
    } else {
        let text = string_from_chars(s);
        number_as_u64_exec(text.as_str())
    }
}

fn check_spec_version(sv: &str, path: String, errors: &mut Vec<Diagnostic>)
    ensures
        dviews(final(errors)@) == dviews(old(errors)@) + spec_version_errors(sv@, path@),
{
    if sv.is_empty() {
        report(errors, path, String::from_str("specVersion must not be empty"));
        return;
    }
    let chars = chars_of(sv);
    if count_char_exec(chars.as_slice(), '.') != 1 {
        let message = cat3(
            "specVersion must be in Major.Minor format (e.g., '1.0'), found '",
            sv,
            "'",
        );
        report(errors, path, message);
        return;
    }
    match find_char_exec(chars.as_slice(), '.') {
        None => {
            proof {
                lemma_add_nothing(dviews(errors@));
            }
        },
        Some(k) => {
            proof {
                lemma_find_in_bounds(chars@, seq!['.'], 0);
                assert(crate::text::find_from(chars@, seq!['.'], 0) == Some(k as int));
                assert(seq!['.'].len() == 1);
                assert(k + 1 <= chars@.len());
            }
            let major = slice_vec(chars.as_slice(), 0, k);
            let minor = slice_vec(chars.as_slice(), k + 1, chars.len());
            assert(major@ == sv@.take(k as int));
            assert(minor@ == sv@.skip(k + 1));
            let major_number = parse_u64_chars(major.as_slice());
            let minor_number = parse_u64_chars(minor.as_slice());
            match (major_number, minor_number) {
                (Some(m), Some(_)) => {
                    if m > 1 {
                        let major_text = string_from_chars(major.as_slice());
                        let message = cat3(
                            "unsupported specVersion major version: ",
                            major_text.as_str(),
                            " (this implementation supports major version 1)",
                        );
                        report(errors, path, message);
                    } else {
                        proof {
                            lemma_add_nothing(dviews(errors@));
                        }
                    }
                },
                _ => {
                    let message = cat3(
                        "specVersion major and minor components must be non-negative integers, found '",
                        sv,
                        "'",
                    );
                    report(errors, path, message);
                },
            }
        },
    }
}

fn check_extension_keys(extensions: &Option<Vec<JsonMember>>, path: &str, errors: &mut Vec<Diagnostic>)
    ensures
        dviews(final(errors)@) == dviews(old(errors)@) + extension_errors(
            opt_object_view(*extensions),
            path@,
        ),
{
    match extensions {
        None => {
            proof {
                lemma_add_nothing(dviews(errors@));
            }
        },
        Some(members) => {
            let ghost ov = object_view(members@);
            let ghost start = dviews(errors@);
            proof {
                lemma_object_view(members@);
                assert(ov.take(0) =~= Seq::<(Seq<char>, JsonView)>::empty());
                lemma_add_nothing(start);
            }
            let mut i: usize = 0;
            while i < members.len()
                invariant
                    ov == object_view(members@),
                    ov.len() == members@.len(),
                    forall|k: int| 0 <= k < members@.len() ==> (#[trigger] ov[k]).0 == members@[k].key@,
                    i <= members@.len(),
                    dviews(errors@) == start + key_errors(ov.take(i as int), path@),
                decreases members.len() - i,
            {
                assert(ov.take(i + 1).drop_last() =~= ov.take(i as int));
                assert(ov.take(i + 1).last() == ov[i as int]);
                let key = members[i].key.as_str();
                if !is_extension_key(key) {
                    let message = cat3(
                        "extension key '",
                        key,
                        "' must be a valid URL or a reverse-DNS string",
                    );
                    report(errors, String::from_str(path), message);
                    proof {
                        lemma_assoc(start, key_errors(ov.take(i as int), path@), one(path@, message@));
                    }
                } else {
                    proof {
                        lemma_add_nothing(key_errors(ov.take(i as int), path@));
                    }
                }
                i = i + 1;
            }
            assert(ov.take(ov.len() as int) =~= ov);
        },
    }
}

fn check_attestations(atts: &Vec<Attestation>, path: &str, errors: &mut Vec<Diagnostic>)
    ensures
        dviews(final(errors)@) == dviews(old(errors)@) + attestation_errors(
            atts@.map_values(|a: Attestation| a@),
            path@,
        ),
{
    let ghost av = atts@.map_values(|a: Attestation| a@);
    let ghost start = dviews(errors@);
    proof {
        assert(av.take(0) =~= Seq::<crate::model::AttestationView>::empty());
        lemma_add_nothing(start);
    }
    let mut i: usize = 0;
    while i < atts.len()
        invariant
            av == atts@.map_values(|a: Attestation| a@),
            i <= atts@.len(),
            dviews(errors@) == start + attestation_errors(av.take(i as int), path@),
        decreases atts.len() - i,
    {
        assert(av.take(i + 1).drop_last() =~= av.take(i as int));
        assert(av.take(i + 1).last() == atts@[i as int]@);
        let ghost before = dviews(errors@);
        let p = indexed_path(path, ".attestations[", i);
        let a = &atts[i];
        check_required(a.attestation_type.as_str(), cat(p.as_str(), ".type"), "attestation.type", errors);
        check_required(a.uri.as_str(), cat(p.as_str(), ".uri"), "attestation.uri", errors);
        proof {
            let x = require_member(a.attestation_type@, p@ + ".type"@, "attestation.type"@);
            let y = require_member(a.uri@, p@ + ".uri"@, "attestation.uri"@);
            lemma_assoc(before, x, y);
            lemma_assoc(start, attestation_errors(av.take(i as int), path@), x + y);
            lemma_assoc(attestation_errors(av.take(i as int), path@), x, y);
        }
        i = i + 1;
    }
    assert(av.take(av.len() as int) =~= av);
}

fn check_provenance(links: &Vec<ProvenanceLink>, path: &str, errors: &mut Vec<Diagnostic>)
    ensures
        dviews(final(errors)@) == dviews(old(errors)@) + provenance_errors(
            links@.map_values(|p: ProvenanceLink| p@),
            path@,
        ),
{
    let ghost lv = links@.map_values(|p: ProvenanceLink| p@);
    let ghost start = dviews(errors@);
    proof {
        assert(lv.take(0) =~= Seq::<crate::model::ProvenanceView>::empty());
        lemma_add_nothing(start);
    }
    let mut i: usize = 0;
    while i < links.len()
        invariant
            lv == links@.map_values(|p: ProvenanceLink| p@),
            i <= links@.len(),
            dviews(errors@) == start + provenance_errors(lv.take(i as int), path@),
        decreases links.len() - i,
    {
        assert(lv.take(i + 1).drop_last() =~= lv.take(i as int));
        assert(lv.take(i + 1).last() == links@[i as int]@);
        let ghost before = dviews(errors@);
        let p = indexed_path(path, ".provenance[", i);
        let l = &links[i];
        check_required(l.relation.as_str(), cat(p.as_str(), ".relation"), "provenance.relation", errors);
        check_required(l.source_id.as_str(), cat(p.as_str(), ".sourceId"), "provenance.sourceId", errors);
        proof {
            let x = require_member(l.relation@, p@ + ".relation"@, "provenance.relation"@);
            let y = require_member(l.source_id@, p@ + ".sourceId"@, "provenance.sourceId"@);
            lemma_assoc(before, x, y);
            lemma_assoc(start, provenance_errors(lv.take(i as int), path@), x + y);
            lemma_assoc(provenance_errors(lv.take(i as int), path@), x, y);
        }
        i = i + 1;
    }
    assert(lv.take(lv.len() as int) =~= lv);
}

proof fn lemma_nothing_add(a: Seq<DiagView>)
    ensures
        nothing() + a == a,
{
    assert(nothing() + a =~= a);
}

fn check_schema(schema: &Option<TrustSchema>, path: &str, errors: &mut Vec<Diagnostic>)
    ensures
        dviews(final(errors)@) == dviews(old(errors)@) + schema_errors(opt_schema_view(*schema), path@),
{
    match schema {
        Some(s) => {
            let ghost start = dviews(errors@);
            check_required(s.identifier.as_str(), cat(path, ".identifier"), "trustSchema.identifier", errors);
            check_required(s.version.as_str(), cat(path, ".version"), "trustSchema.version", errors);
            proof {
                lemma_assoc(
                    start,
                    require_member(s.identifier@, path@ + ".identifier"@, "trustSchema.identifier"@),
                    require_member(s.version@, path@ + ".version"@, "trustSchema.version"@),
                );
            }
        },
        None => {
            proof {
                lemma_add_nothing(dviews(errors@));
            }
        },
    }
}

fn check_substantive(m: &TrustManifest, path: &str, errors: &mut Vec<Diagnostic>)
    ensures
        dviews(final(errors)@) == dviews(old(errors)@) + substantive_errors(m@, path@),
{
    let signed = m.signature.is_some() && m.subject.is_some() && m.issued_at.is_some();
    if signed || m.attestations.len() > 0 || m.provenance.len() > 0 || m.trust_schema.is_some() {
        proof {
            lemma_add_nothing(dviews(errors@));
        }
    } else {
        report(
            errors,
            String::from_str(path),
            String::from_str(
                "trustManifest must carry at least one substantive member (a signature with its subject and issuedAt, a non-empty attestations or provenance array, or a trustSchema) and must otherwise be omitted entirely",
            ),
        );
    }
}

fn check_signed_members(m: &TrustManifest, path: &str, errors: &mut Vec<Diagnostic>)
    ensures
        dviews(final(errors)@) == dviews(old(errors)@) + signed_member_errors(m@, path@),
{
    let ghost start = dviews(errors@);
    if m.signature.is_none() {
        proof {
            lemma_add_nothing(start);
        }
        return;
    }
    if m.subject.is_none() {
        report(
            errors,
            cat(path, ".subject"),
            String::from_str("a trustManifest carrying a signature must include a subject"),
        );
    } else {
        proof {
            lemma_add_nothing(start);
        }
    }
    let ghost mid = dviews(errors@);
    if m.issued_at.is_none() {
        report(
            errors,
            cat(path, ".issuedAt"),
            String::from_str("a trustManifest carrying a signature must include issuedAt"),
        );
    } else {
        proof {
            lemma_add_nothing(mid);
        }
    }
    assert(dviews(errors@) =~= start + signed_member_errors(m@, path@));
}

fn check_timestamps(m: &TrustManifest, path: &str, errors: &mut Vec<Diagnostic>)
    ensures
        dviews(final(errors)@) == dviews(old(errors)@) + timestamp_errors(m@, path@),
{
    let ghost start = dviews(errors@);
    match &m.issued_at {
        Some(s) => {
            if parse_rfc3339_nanos(s.as_str()).is_none() {
                let message = cat3("issuedAt is not a valid RFC 3339 datetime: '", s.as_str(), "'");
                report(errors, cat(path, ".issuedAt"), message);
            } else {
                proof {
                    lemma_add_nothing(start);
                }
            }
        },
        None => {
            proof {
                lemma_add_nothing(start);
            }
        },
    }
    let ghost mid = dviews(errors@);
    match &m.expires_at {
        Some(s) => {
            if parse_rfc3339_nanos(s.as_str()).is_none() {
                let message = cat3("expiresAt is not a valid RFC 3339 datetime: '", s.as_str(), "'");
                report(errors, cat(path, ".expiresAt"), message);
            } else {
                proof {
                    lemma_add_nothing(mid);
                }
            }
        },
        None => {
            proof {
                lemma_add_nothing(mid);
            }
        },
    }
    assert(dviews(errors@) =~= start + timestamp_errors(m@, path@));
}

fn check_expiry(m: &TrustManifest, path: &str, now: i128, warnings: &mut Vec<Diagnostic>)
    ensures
        dviews(final(warnings)@) == dviews(old(warnings)@) + expiry_warnings(m@, path@, now as int),
{
    match &m.expires_at {
        Some(s) => match parse_rfc3339_nanos(s.as_str()) {
            Some(t) => {
                if t < now {
                    let message = cat3("trustManifest expired at '", s.as_str(), "' and SHOULD be rejected");
                    report(warnings, cat(path, ".expiresAt"), message);
                } else {
                    proof {
                        lemma_add_nothing(dviews(warnings@));
                    }
                }
            },
            None => {
                proof {
                    lemma_add_nothing(dviews(warnings@));
                }
            },
        },
        None => {
            proof {
                lemma_add_nothing(dviews(warnings@));
            }
        },
    }
}

fn check_subject(subject: &Option<Subject>, path: &str, errors: &mut Vec<Diagnostic>)
    ensures
        dviews(final(errors)@) == dviews(old(errors)@) + subject_errors(opt_subject_view(*subject), path@),
{
    let ghost start = dviews(errors@);
    match subject {
        None => {
            proof {
                lemma_add_nothing(start);
            }
        },
        Some(s) => {
            if s.subject_type.as_str().is_empty() {
                report(
                    errors,
                    cat(path, ".type"),
                    String::from_str("subject.type is required and must not be empty"),
                );
            } else {
                proof {
                    lemma_add_nothing(start);
                }
            }
            let ghost mid = dviews(errors@);
            if s.digest.as_str().is_empty() {
                report(
                    errors,
                    cat(path, ".digest"),
                    String::from_str("subject.digest is required and must not be empty"),
                );
            } else {
                proof {
                    lemma_add_nothing(mid);
                }
            }
            assert(dviews(errors@) =~= start + subject_errors(opt_subject_view(*subject), path@));
        },
    }
}

/// The errors of a trust manifest at `path`, then its expiry warning.
fn check_manifest(
    m: &TrustManifest,
    path: &str,
    now: i128,
    errors: &mut Vec<Diagnostic>,
    warnings: &mut Vec<Diagnostic>,
)
    ensures
        dviews(final(errors)@) == dviews(old(errors)@) + manifest_errors(m@, path@),
        dviews(final(warnings)@) == dviews(old(warnings)@) + expiry_warnings(m@, path@, now as int),
{
    let ghost start = dviews(errors@);
    let ghost mv = m@;
    let ghost p = path@;
    let ghost a = extension_errors(mv.extensions, p + ".extensions"@);
    let ghost b = require_member(mv.identity, p + ".identity"@, "trustManifest.identity"@);
    let ghost c = schema_errors(mv.trust_schema, p + ".trustSchema"@);
    let ghost d = attestation_errors(mv.attestations, p);
    let ghost e = provenance_errors(mv.provenance, p);
    let ghost f = substantive_errors(mv, p);
    let ghost g = signed_member_errors(mv, p);
    let ghost h = timestamp_errors(mv, p);
    let ghost k = subject_errors(mv.subject, p + ".subject"@);
    check_extension_keys(&m.extensions, cat(path, ".extensions").as_str(), errors);
    check_required(m.identity.as_str(), cat(path, ".identity"), "trustManifest.identity", errors);
    proof {
        lemma_assoc(start, a, b);
    }
    check_schema(&m.trust_schema, cat(path, ".trustSchema").as_str(), errors);
    proof {
        lemma_assoc(start, a + b, c);
    }
    check_attestations(&m.attestations, path, errors);
    proof {
        lemma_assoc(start, a + b + c, d);
    }
    check_provenance(&m.provenance, path, errors);
    proof {
        lemma_assoc(start, a + b + c + d, e);
    }
    check_substantive(m, path, errors);
    proof {
        lemma_assoc(start, a + b + c + d + e, f);
    }
    check_signed_members(m, path, errors);
    proof {
        lemma_assoc(start, a + b + c + d + e + f, g);
    }
    check_timestamps(m, path, errors);
    proof {
        lemma_assoc(start, a + b + c + d + e + f + g, h);
    }
    check_subject(&m.subject, cat(path, ".subject").as_str(), errors);
    proof {
        lemma_assoc(start, a + b + c + d + e + f + g + h, k);
    }
    check_expiry(m, path, now, warnings);
}

fn check_host(
    h: &HostInfo,
    path: &str,
    now: i128,
    errors: &mut Vec<Diagnostic>,
    warnings: &mut Vec<Diagnostic>,
)
    ensures
        dviews(final(errors)@) == dviews(old(errors)@) + host_report(h@, path@, now as int).errors,
        dviews(final(warnings)@) == dviews(old(warnings)@) + host_report(h@, path@, now as int).warnings,
{
    let ghost start = dviews(errors@);
    let ghost wstart = dviews(warnings@);
    check_required(h.display_name.as_str(), cat(path, ".displayName"), "host.displayName", errors);
    let ghost req = require_member(h.display_name@, path@ + ".displayName"@, "host.displayName"@);
    match &h.trust_manifest {
        Some(m) => {
            check_manifest(m, cat(path, ".trustManifest").as_str(), now, errors, warnings);
            proof {
                lemma_assoc(start, req, manifest_errors(m@, path@ + ".trustManifest"@));
                lemma_nothing_add(expiry_warnings(m@, path@ + ".trustManifest"@, now as int));
            }
        },
        None => {
            proof {
                lemma_add_nothing(req);
                lemma_add_nothing(wstart);
                lemma_add_nothing(nothing());
            }
        },
    }
}

fn check_publisher(publisher: &Option<Publisher>, path: &str, errors: &mut Vec<Diagnostic>)
    ensures
        dviews(final(errors)@) == dviews(old(errors)@) + publisher_errors(opt_publisher_view(*publisher), path@),
{
    match publisher {
        Some(p) => {
            let ghost start = dviews(errors@);
            check_required(p.identifier.as_str(), cat(path, ".identifier"), "publisher.identifier", errors);
            check_required(p.display_name.as_str(), cat(path, ".displayName"), "publisher.displayName", errors);
            proof {
                lemma_assoc(
                    start,
                    require_member(p.identifier@, path@ + ".identifier"@, "publisher.identifier"@),
                    require_member(p.display_name@, path@ + ".displayName"@, "publisher.displayName"@),
                );
            }
        },
        None => {
            proof {
                lemma_add_nothing(dviews(errors@));
            }
        },
    }
}

fn check_payload(e: &CatalogEntry, path: &str, errors: &mut Vec<Diagnostic>)
    ensures
        dviews(final(errors)@) == dviews(old(errors)@) + payload_errors(e@, path@),
{
    if e.url.is_some() && e.data.is_some() {
        report(
            errors,
            String::from_str(path),
            String::from_str("entry must have exactly one of 'url' or 'data', found both"),
        );
    } else if e.url.is_none() && e.data.is_none() {
        report(
            errors,
            String::from_str(path),
            String::from_str("entry must have exactly one of 'url' or 'data'"),
        );
    } else {
        proof {
            lemma_add_nothing(dviews(errors@));
        }
    }
}

fn check_updated_at(e: &CatalogEntry, path: &str, errors: &mut Vec<Diagnostic>)
    ensures
        dviews(final(errors)@) == dviews(old(errors)@) + updated_at_errors(e@, path@),
{
    match &e.updated_at {
        Some(s) => {
            if parse_rfc3339_nanos(s.as_str()).is_none() {
                let message = cat3("updatedAt is not a valid RFC 3339 datetime: '", s.as_str(), "'");
                report(errors, cat(path, ".updatedAt"), message);
            } else {
                proof {
                    lemma_add_nothing(dviews(errors@));
                }
            }
        },
        None => {
            proof {
                lemma_add_nothing(dviews(errors@));
            }
        },
    }
}

fn check_subject_binding(e: &CatalogEntry, m: &TrustManifest, path: &str, errors: &mut Vec<Diagnostic>)
    ensures
        dviews(final(errors)@) == dviews(old(errors)@) + subject_binding_errors(e@, m@, path@),
{
    let ghost start = dviews(errors@);
    match &m.subject {
        None => {
            proof {
                lemma_add_nothing(start);
            }
        },
        Some(s) => {
            if !s.subject_type.as_str().is_empty() && !e.entry_type.as_str().is_empty() && !str_eq(
                s.subject_type.as_str(),
                e.entry_type.as_str(),
            ) {
                let mut message = cat3("subject.type '", s.subject_type.as_str(), "' must equal the entry type '");
                message.append(e.entry_type.as_str());
                message.append("'");
                report(errors, cat(path, ".subject.type"), message);
            } else {
                proof {
                    lemma_add_nothing(start);
                }
            }
            let ghost mid = dviews(errors@);
            match &s.url {
                Some(u) => {
                    let same = match &e.url {
                        Some(eu) => str_eq(u.as_str(), eu.as_str()),
                        None => false,
                    };
                    if !same {
                        let entry_url = match &e.url {
                            Some(eu) => eu.clone(),
                            None => String::new(),
                        };
                        assert(entry_url@ == opt_or_empty(opt_view(e.url)));
                        let mut message = cat3("subject.url '", u.as_str(), "' must equal the entry url '");
                        message.append(entry_url.as_str());
                        message.append("'");
                        report(errors, cat(path, ".subject.url"), message);
                    } else {
                        proof {
                            lemma_add_nothing(mid);
                        }
                    }
                },
                None => {
                    proof {
                        lemma_add_nothing(mid);
                    }
                },
            }
            assert(dviews(errors@) =~= start + subject_binding_errors(e@, m@, path@));
        },
    }
}

fn check_identity_binding(identifier: &str, identity: &str, path: &str, errors: &mut Vec<Diagnostic>)
    ensures
        dviews(final(errors)@) == dviews(old(errors)@) + identity_binding_errors(identifier@, identity@, path@),
{
    match publisher_domain(identifier) {
        None => {
            proof {
                lemma_add_nothing(dviews(errors@));
            }
        },
        Some(p) => match identity_domain(identity) {
            Some(d) => {
                if str_eq(d.as_str(), p.as_str()) {
                    proof {
                        lemma_add_nothing(dviews(errors@));
                    }
                } else {
                    let mut message = cat3("trustManifest.identity domain '", d.as_str(), "' does not align with the entry identifier publisher domain '");
                    message.append(p.as_str());
                    message.append("'");
                    report(errors, cat(path, ".identity"), message);
                }
            },
            None => {
                let mut message = cat3("trustManifest.identity '", identity, "' has no trust domain to align with the entry identifier publisher domain '");
                message.append(p.as_str());
                message.append("'");
                report(errors, cat(path, ".identity"), message);
            },
        },
    }
}

fn check_entry_members(e: &CatalogEntry, path: &str, errors: &mut Vec<Diagnostic>)
    ensures
        dviews(final(errors)@) == dviews(old(errors)@) + entry_member_errors(e@, path@),
{
    let ghost start = dviews(errors@);
    let ghost ev = e@;
    let ghost p = path@;
    let ghost a = require_member(ev.identifier, p + ".identifier"@, "identifier"@);
    let ghost b = require_member(ev.entry_type, p + ".type"@, "type"@);
    let ghost c = payload_errors(ev, p);
    let ghost d = updated_at_errors(ev, p);
    let ghost f = extension_errors(ev.extensions, p + ".extensions"@);
    let ghost g = publisher_errors(ev.publisher, p + ".publisher"@);
    check_required(e.identifier.as_str(), cat(path, ".identifier"), "identifier", errors);
    check_required(e.entry_type.as_str(), cat(path, ".type"), "type", errors);
    proof {
        lemma_assoc(start, a, b);
    }
    check_payload(e, path, errors);
    proof {
        lemma_assoc(start, a + b, c);
    }
    check_updated_at(e, path, errors);
    proof {
        lemma_assoc(start, a + b + c, d);
    }
    check_extension_keys(&e.extensions, cat(path, ".extensions").as_str(), errors);
    proof {
        lemma_assoc(start, a + b + c + d, f);
    }
    check_publisher(&e.publisher, cat(path, ".publisher").as_str(), errors);
    proof {
        lemma_assoc(start, a + b + c + d + f, g);
    }
}

fn check_entry_manifest(
    e: &CatalogEntry,
    m: &TrustManifest,
    path: &str,
    now: i128,
    errors: &mut Vec<Diagnostic>,
    warnings: &mut Vec<Diagnostic>,
)
    ensures
        dviews(final(errors)@) == dviews(old(errors)@) + entry_manifest_report(e@, m@, path@, now as int).errors,
        dviews(final(warnings)@) == dviews(old(warnings)@) + entry_manifest_report(e@, m@, path@, now as int).warnings,
{
    let ghost start = dviews(errors@);
    let ghost a = manifest_errors(m@, path@);
    let ghost b = subject_binding_errors(e@, m@, path@);
    let ghost c = identity_binding_errors(e@.identifier, m@.identity, path@);
    check_manifest(m, path, now, errors, warnings);
    check_subject_binding(e, m, path, errors);
    proof {
        lemma_assoc(start, a, b);
    }
    check_identity_binding(e.identifier.as_str(), m.identity.as_str(), path, errors);
    proof {
        lemma_assoc(start, a + b, c);
    }
}

fn check_identifier_warning(e: &CatalogEntry, path: &str, warnings: &mut Vec<Diagnostic>)
    ensures
        dviews(final(warnings)@) == dviews(old(warnings)@) + identifier_warnings(e@, path@),
{
    let chars = chars_of(e.identifier.as_str());
    if find_char_exec(chars.as_slice(), ':').is_none() {
        report(
            warnings,
            cat(path, ".identifier"),
            String::from_str("identifier SHOULD be a URN or URI"),
        );
    } else {
        proof {
            lemma_add_nothing(dviews(warnings@));
        }
    }
}

/// Validates an entry at `path` of a catalog at nesting `depth`, a nested
/// catalog in its data included.
fn validate_entry(
    e: &CatalogEntry,
    path: &str,
    depth: usize,
    now: i128,
    errors: &mut Vec<Diagnostic>,
    warnings: &mut Vec<Diagnostic>,
)
    requires
        1 <= depth <= MAX_NESTING_DEPTH,
    ensures
        dviews(final(errors)@) == dviews(old(errors)@) + entry_report(e@, path@, depth as nat, now as int).errors,
        dviews(final(warnings)@) == dviews(old(warnings)@) + entry_report(e@, path@, depth as nat, now as int).warnings,
    decreases MAX_NESTING_DEPTH - depth, 0nat,
{
    let ghost es = dviews(errors@);
    let ghost ws = dviews(warnings@);
    let ghost r = entry_report(e@, path@, depth as nat, now as int);
    let ghost a = entry_member_errors(e@, path@);
    check_entry_members(e, path, errors);
    let ghost manifest = match e@.trust_manifest {
        Some(m) => entry_manifest_report(e@, m, path@ + ".trustManifest"@, now as int),
        None => Report { errors: nothing(), warnings: nothing() },
    };
    match &e.trust_manifest {
        Some(m) => {
            check_entry_manifest(e, m, cat(path, ".trustManifest").as_str(), now, errors, warnings);
        },
        None => {
            proof {
                lemma_add_nothing(dviews(errors@));
                lemma_add_nothing(dviews(warnings@));
            }
        },
    }
    proof {
        lemma_assoc(es, a, manifest.errors);
        lemma_nothing_add(manifest.warnings);
    }
    let ghost e1 = dviews(errors@);
    let ghost w1 = dviews(warnings@);
    let ghost nested_errors: Seq<DiagView> = dviews(errors@).skip(e1.len() as int);
    if str_eq(e.entry_type.as_str(), "application/ai-catalog+json") {
        if depth >= MAX_NESTING_DEPTH {
            report(
                errors,
                String::from_str(path),
                String::from_str("nested catalog depth exceeds recommended limit of 4"),
            );
            proof {
                lemma_add_nothing(w1);
            }
        } else {
            match &e.data {
                Some(d) => match catalog_from_json(d) {
                    Ok(c) => {
                        validate_catalog(&c, cat(path, ".data").as_str(), depth + 1, now, errors, warnings);
                    },
                    Err(msg) => {
                        report(
                            errors,
                            cat(path, ".data"),
                            cat("nested catalog data is not a valid AI Catalog: ", msg.as_str()),
                        );
                        proof {
                            lemma_add_nothing(w1);
                        }
                    },
                },
                None => {
                    proof {
                        lemma_add_nothing(e1);
                        lemma_add_nothing(w1);
                    }
                },
            }
        }
    } else {
        proof {
            lemma_add_nothing(e1);
            lemma_add_nothing(w1);
        }
    }
    let ghost e2 = dviews(errors@);
    let ghost w2 = dviews(warnings@);
    check_identifier_warning(e, path, warnings);
    proof {
        let nested = if e@.entry_type == crate::conformance::catalog_media() {
            if depth >= MAX_NESTING_DEPTH {
                crate::conformance::errors_only(one(path@, crate::conformance::depth_message()))
            } else {
                match e@.data {
                    Some(d) => match crate::schema::spec_catalog_from_json(d) {
                        Ok(c) => catalog_report(c, path@ + ".data"@, (depth + 1) as nat, now as int),
                        Err(msg) => crate::conformance::errors_only(
                            one(path@ + ".data"@, "nested catalog data is not a valid AI Catalog: "@ + msg),
                        ),
                    },
                    None => crate::conformance::empty_report(),
                }
            }
        } else {
            crate::conformance::empty_report()
        };
        assert(e2 == e1 + nested.errors);
        assert(w2 == w1 + nested.warnings);
        lemma_assoc(es, a + manifest.errors, nested.errors);
        lemma_assoc(ws, manifest.warnings, nested.warnings);
        lemma_add_nothing(e2);
        lemma_assoc(ws, manifest.warnings + nested.warnings, identifier_warnings(e@, path@));
        lemma_add_nothing(a + manifest.errors + nested.errors);
        assert(r.errors == a + manifest.errors + nested.errors + nothing());
        assert(r.warnings == nothing() + manifest.warnings + nested.warnings + identifier_warnings(e@, path@));
    }
}

pub open spec fn entry_views(v: Seq<CatalogEntry>) -> Seq<EntryView> {
    v.map_values(|e: CatalogEntry| e@)
}

fn has_unversioned_before(entries: &Vec<CatalogEntry>, i: usize, identifier: &str) -> (r: bool)
    requires
        i <= entries@.len(),
    ensures
        r == exists|j: int|
            0 <= j < i && (#[trigger] entry_views(entries@)[j]).version is None
                && entry_views(entries@)[j].identifier == identifier@,
{
    let ghost es = entry_views(entries@);
    let mut j: usize = 0;
    while j < i
        invariant
            es == entry_views(entries@),
            i <= entries@.len(),
            j <= i,
            forall|k: int| 0 <= k < j ==> !((#[trigger] es[k]).version is None && es[k].identifier == identifier@),
        decreases i - j,
    {
        assert(es[j as int] == entries@[j as int]@);
        if entries[j].version.is_none() && str_eq(entries[j].identifier.as_str(), identifier) {
            return true;
        }
        j = j + 1;
    }
    false
}

fn has_same_version_before(entries: &Vec<CatalogEntry>, i: usize, identifier: &str, version: &str) -> (r: bool)
    requires
        i <= entries@.len(),
    ensures
        r == exists|j: int|
            0 <= j < i && (#[trigger] entry_views(entries@)[j]).version == Some(version@)
                && entry_views(entries@)[j].identifier == identifier@,
{
    let ghost es = entry_views(entries@);
    let mut j: usize = 0;
    while j < i
        invariant
            es == entry_views(entries@),
            i <= entries@.len(),
            j <= i,
            forall|k: int| 0 <= k < j ==> !((#[trigger] es[k]).version == Some(version@) && es[k].identifier == identifier@),
        decreases i - j,
    {
        assert(es[j as int] == entries@[j as int]@);
        let same = match &entries[j].version {
            Some(w) => str_eq(w.as_str(), version),
            None => false,
        };
        if same && str_eq(entries[j].identifier.as_str(), identifier) {
            return true;
        }
        j = j + 1;
    }
    false
}

fn has_identifier_before(entries: &Vec<CatalogEntry>, i: usize, identifier: &str) -> (r: bool)
    requires
        i <= entries@.len(),
    ensures
        r == exists|j: int| 0 <= j < i && (#[trigger] entry_views(entries@)[j]).identifier == identifier@,
{
    let ghost es = entry_views(entries@);
    let mut j: usize = 0;
    while j < i
        invariant
            es == entry_views(entries@),
            i <= entries@.len(),
            j <= i,
            forall|k: int| 0 <= k < j ==> (#[trigger] es[k]).identifier != identifier@,
        decreases i - j,
    {
        assert(es[j as int] == entries@[j as int]@);
        if str_eq(entries[j].identifier.as_str(), identifier) {
            return true;
        }
        j = j + 1;
    }
    false
}

fn check_duplicates(entries: &Vec<CatalogEntry>, i: usize, path: &str, errors: &mut Vec<Diagnostic>)
    requires
        i < entries@.len(),
    ensures
        dviews(final(errors)@) == dviews(old(errors)@) + duplicate_errors(
            entries@.map_values(|e: CatalogEntry| e@),
            i as int,
            path@,
        ),
{
    let ghost es = entry_views(entries@);
    let ghost start = dviews(errors@);
    let e = &entries[i];
    assert(es[i as int] == e@);
    let p = indexed_path(path, ".entries[", i);
    match &e.version {
        Some(v) => {
            if has_unversioned_before(entries, i, e.identifier.as_str()) {
                let message = cat3("identifier '", e.identifier.as_str(), "' cannot appear with and without version");
                report(errors, cat(p.as_str(), ".identifier"), message);
            } else {
                proof {
                    lemma_add_nothing(start);
                }
            }
            let ghost mid = dviews(errors@);
            if has_same_version_before(entries, i, e.identifier.as_str(), v.as_str()) {
                let mut message = cat3("duplicate (identifier, version) pair: ('", e.identifier.as_str(), "', '");
                message.append(v.as_str());
                message.append("')");
                report(errors, p, message);
            } else {
                proof {
                    lemma_add_nothing(mid);
                }
            }
            assert(dviews(errors@) =~= start + duplicate_errors(es, i as int, path@));
        },
        None => {
            if has_identifier_before(entries, i, e.identifier.as_str()) {
                let message = cat3("duplicate identifier '", e.identifier.as_str(), "' without version differentiation");
                report(errors, p, message);
            } else {
                proof {
                    lemma_add_nothing(start);
                }
            }
        },
    }
}

/// Validates a catalog at `path` and nesting `depth`.
fn validate_catalog(
    c: &AiCatalog,
    path: &str,
    depth: usize,
    now: i128,
    errors: &mut Vec<Diagnostic>,
    warnings: &mut Vec<Diagnostic>,
)
    requires
        1 <= depth <= MAX_NESTING_DEPTH,
    ensures
        dviews(final(errors)@) == dviews(old(errors)@) + catalog_report(c@, path@, depth as nat, now as int).errors,
        dviews(final(warnings)@) == dviews(old(warnings)@) + catalog_report(c@, path@, depth as nat, now as int).warnings,
    decreases MAX_NESTING_DEPTH - depth, 1nat,
{
    let ghost es = dviews(errors@);
    let ghost ws = dviews(warnings@);
    let ghost cv = c@;
    let ghost a = spec_version_errors(cv.spec_version, path@ + ".specVersion"@);
    let ghost host = match cv.host {
        Some(h) => host_report(h, path@ + ".host"@, now as int),
        None => Report { errors: nothing(), warnings: nothing() },
    };
    let ghost x = extension_errors(cv.extensions, path@ + ".extensions"@);
    check_spec_version(c.spec_version.as_str(), cat(path, ".specVersion"), errors);
    match &c.host {
        Some(h) => {
            check_host(h, cat(path, ".host").as_str(), now, errors, warnings);
        },
        None => {
            proof {
                lemma_add_nothing(dviews(errors@));
                lemma_add_nothing(dviews(warnings@));
            }
        },
    }
    proof {
        lemma_assoc(es, a, host.errors);
    }
    check_extension_keys(&c.extensions, cat(path, ".extensions").as_str(), errors);
    proof {
        lemma_assoc(es, a + host.errors, x);
        lemma_add_nothing(dviews(warnings@));
    }
    let ghost e0 = dviews(errors@);
    let ghost w0 = dviews(warnings@);
    let ghost ev = c.entries@.map_values(|e: CatalogEntry| e@);
    proof {
        lemma_add_nothing(e0);
        lemma_add_nothing(w0);
    }
    let mut i: usize = 0;
    while i < c.entries.len()
        invariant
            1 <= depth <= MAX_NESTING_DEPTH,
            ev == c.entries@.map_values(|e: CatalogEntry| e@),
            i <= c.entries@.len(),
            dviews(errors@) == e0 + entries_report(ev, i as nat, path@, depth as nat, now as int).errors,
            dviews(warnings@) == w0 + entries_report(ev, i as nat, path@, depth as nat, now as int).warnings,
        decreases c.entries.len() - i,
    {
        let ghost before = entries_report(ev, i as nat, path@, depth as nat, now as int);
        let ghost eb = dviews(errors@);
        let ghost wb = dviews(warnings@);
        let p = indexed_path(path, ".entries[", i);
        assert(ev[i as int] == c.entries@[i as int]@);
        validate_entry(&c.entries[i], p.as_str(), depth, now, errors, warnings);
        let ghost r = entry_report(ev[i as int], p@, depth as nat, now as int);
        check_duplicates(&c.entries, i, path, errors);
        proof {
            let dup = duplicate_errors(ev, i as int, path@);
            lemma_assoc(eb, r.errors, dup);
            lemma_assoc(e0, before.errors, r.errors + dup);
            lemma_assoc(w0, before.warnings, r.warnings);
        }
        i = i + 1;
    }
    proof {
        assert(ev.len() == c.entries@.len());
        lemma_assoc(es, a + host.errors + x, entries_report(ev, ev.len(), path@, depth as nat, now as int).errors);
        lemma_assoc(ws, host.warnings + nothing(), entries_report(ev, ev.len(), path@, depth as nat, now as int).warnings);
        lemma_nothing_add(host.warnings);
    }
}

fn is_signed_exec(m: &TrustManifest) -> (r: bool)
    ensures
        r == is_signed(m@),
{
    m.signature.is_some() && m.subject.is_some() && m.issued_at.is_some()
}

/// Whether each manifest is signed, manifest after manifest.
pub open spec fn signed_flags(ms: Seq<ManifestView>) -> Seq<bool> {
    ms.map_values(|m: ManifestView| is_signed(m))
}

proof fn lemma_signed_flags_add(a: Seq<ManifestView>, b: Seq<ManifestView>)
    ensures
        signed_flags(a + b) == signed_flags(a) + signed_flags(b),
{
    assert(signed_flags(a + b) =~= signed_flags(a) + signed_flags(b));
}

fn push_signed(m: &Option<TrustManifest>, out: &mut Vec<bool>)
    ensures
        final(out)@ == old(out)@ + signed_flags(opt_manifest(opt_manifest_view(*m))),
{
    match m {
        Some(m) => {
            let ghost before = out@;
            out.push(is_signed_exec(m));
            assert(out@ =~= before + signed_flags(opt_manifest(opt_manifest_view(Some(*m)))));
        },
        None => {
            assert(old(out)@ + signed_flags(opt_manifest(None)) =~= old(out)@);
        },
    }
}

/// Appends whether each trust manifest of an entry at nesting `depth` is
/// signed, those of a nested catalog included.
fn collect_entry_signed(e: &CatalogEntry, depth: usize, out: &mut Vec<bool>)
    requires
        1 <= depth <= MAX_NESTING_DEPTH,
    ensures
        final(out)@ == old(out)@ + signed_flags(entry_manifests(e@, depth as nat)),
    decreases MAX_NESTING_DEPTH - depth, 0nat,
{
    push_signed(&e.trust_manifest, out);
    let ghost own = signed_flags(opt_manifest(e@.trust_manifest));
    let ghost mid = out@;
    let ghost nested: Seq<ManifestView> = if e@.entry_type == catalog_media() && depth < MAX_NESTING_DEPTH {
        match e@.data {
            Some(d) => match spec_catalog_from_json(d) {
                Ok(c) => catalog_manifests(c, (depth + 1) as nat),
                Err(_) => Seq::empty(),
            },
            None => Seq::empty(),
        }
    } else {
        Seq::empty()
    };
    assert(entry_manifests(e@, depth as nat) == opt_manifest(e@.trust_manifest) + nested);
    proof {
        lemma_signed_flags_add(opt_manifest(e@.trust_manifest), nested);
    }
    if depth < MAX_NESTING_DEPTH && str_eq(e.entry_type.as_str(), "application/ai-catalog+json") {
        match &e.data {
            Some(d) => match catalog_from_json(d) {
                Ok(c) => {
                    collect_signed(&c, depth + 1, out);
                },
                Err(_) => {
                    assert(mid + signed_flags(nested) =~= mid);
                },
            },
            None => {
                assert(mid + signed_flags(nested) =~= mid);
            },
        }
    } else {
        assert(mid + signed_flags(nested) =~= mid);
    }
    assert(old(out)@ + own + signed_flags(nested) =~= old(out)@ + (own + signed_flags(nested)));
}

/// Appends whether each trust manifest of a catalog at nesting `depth` is
/// signed: its host's, then its entries'.
fn collect_signed(c: &AiCatalog, depth: usize, out: &mut Vec<bool>)
    requires
        1 <= depth <= MAX_NESTING_DEPTH,
    ensures
        final(out)@ == old(out)@ + signed_flags(catalog_manifests(c@, depth as nat)),
    decreases MAX_NESTING_DEPTH - depth, 1nat,
{
    let ghost cv = c@;
    let ghost host_m: Option<ManifestView> = match cv.host {
        Some(h) => h.trust_manifest,
        None => None,
    };
    match &c.host {
        Some(h) => {
            push_signed(&h.trust_manifest, out);
        },
        None => {
            assert(old(out)@ + signed_flags(opt_manifest(None)) =~= old(out)@);
        },
    }
    let ghost start = out@;
    let ghost ev = cv.entries;
    assert(entries_manifests(ev, 0, depth as nat) =~= Seq::<ManifestView>::empty());
    assert(start + signed_flags(entries_manifests(ev, 0, depth as nat)) =~= start);
    let mut i: usize = 0;
    while i < c.entries.len()
        invariant
            cv == c@,
            ev == cv.entries,
            ev.len() == c.entries@.len(),
            1 <= depth <= MAX_NESTING_DEPTH,
            i <= ev.len(),
            out@ == start + signed_flags(entries_manifests(ev, i as nat, depth as nat)),
        decreases c.entries.len() - i,
    {
        assert(ev[i as int] == c.entries@[i as int]@);
        let ghost before = entries_manifests(ev, i as nat, depth as nat);
        collect_entry_signed(&c.entries[i], depth, out);
        assert(entries_manifests(ev, (i + 1) as nat, depth as nat) == before + entry_manifests(ev[i as int], depth as nat));
        proof {
            lemma_signed_flags_add(before, entry_manifests(ev[i as int], depth as nat));
        }
        assert(start + signed_flags(before) + signed_flags(entry_manifests(ev[i as int], depth as nat)) =~= start
            + (signed_flags(before) + signed_flags(entry_manifests(ev[i as int], depth as nat))));
        i = i + 1;
    }
    proof {
        lemma_signed_flags_add(opt_manifest(host_m), entries_manifests(ev, ev.len(), depth as nat));
    }
    assert(old(out)@ + signed_flags(opt_manifest(host_m)) + signed_flags(entries_manifests(ev, ev.len(), depth as nat))
        =~= old(out)@ + (signed_flags(opt_manifest(host_m)) + signed_flags(entries_manifests(ev, ev.len(), depth as nat))));
}

/// Whether the document carries a trust manifest and every one is signed.
fn is_trusted_exec(c: &AiCatalog) -> (r: bool)
    ensures
        r == is_trusted(c@),
{
    let mut flags: Vec<bool> = Vec::new();
    collect_signed(c, 1, &mut flags);
    let ghost ms = document_manifests(c@);
    assert(flags@ =~= signed_flags(ms));
    assert(flags@.len() == ms.len());
    if flags.len() == 0 {
        return false;
    }
    let mut i: usize = 0;
    while i < flags.len()
        invariant
            ms == document_manifests(c@),
            flags@ == signed_flags(ms),
            i <= flags@.len(),
            forall|j: int| 0 <= j < i ==> is_signed(#[trigger] ms[j]),
        decreases flags.len() - i,
    {
        assert(signed_flags(ms)[i as int] == is_signed(ms[i as int]));
        if !flags[i] {
            assert(!is_signed(ms[i as int]));
            assert(0 <= i < ms.len());
            assert(!is_trusted(c@));
            return false;
        }
        i = i + 1;
    }
    true
}

pub fn validate_as_of(catalog: &AiCatalog, now: i128) -> (r: ValidationResult)
    ensures
        dviews(r.errors@) == validation_report(catalog@, now as int).errors,
        dviews(r.warnings@) == validation_report(catalog@, now as int).warnings,
        r.is_valid == (r.errors@.len() == 0),
        r.conformance_level == detect_level(catalog@, dviews(r.errors@)),        forall|i: int, k: int|
            0 <= i < catalog@.entries.len() && (#[trigger] catalog@.entries[i]).trust_manifest is Some && 0 <= k
                < catalog@.entries[i].trust_manifest->Some_0.attestations.len()
                && (#[trigger] catalog@.entries[i].trust_manifest->Some_0.attestations[k]).attestation_type.len() == 0
                ==> !r.is_valid && dviews(r.errors@).contains(
                DiagView {
                    path: "catalog.entries["@ + decimal(i as nat) + "].trustManifest.attestations["@ + decimal(k as nat)
                        + "].type"@,
                    message: "attestation.type is required and must not be empty"@,
                },
            ),
{
    let mut errors: Vec<Diagnostic> = Vec::new();
    let mut warnings: Vec<Diagnostic> = Vec::new();
    proof {
        assert(dviews(errors@) =~= Seq::<DiagView>::empty());
        assert(dviews(warnings@) =~= Seq::<DiagView>::empty());
    }
    validate_catalog(catalog, "catalog", 1, now, &mut errors, &mut warnings);
    proof {
        assert(Seq::<DiagView>::empty() + validation_report(catalog@, now as int).errors =~= validation_report(catalog@, now as int).errors);
        assert(Seq::<DiagView>::empty() + validation_report(catalog@, now as int).warnings =~= validation_report(catalog@, now as int).warnings);
    }
    let conformance_level = if errors.len() > 0 {
        ConformanceLevel::Minimal
    } else if catalog.host.is_none() {
        ConformanceLevel::Minimal
    } else if is_trusted_exec(catalog) {
        ConformanceLevel::Trusted
    } else {
        ConformanceLevel::Discoverable
    };
    let is_valid = errors.len() == 0;
    let r = ValidationResult { is_valid, conformance_level, errors, warnings };
    proof {
        assert forall|i: int, k: int|
            0 <= i < catalog@.entries.len() && (#[trigger] catalog@.entries[i]).trust_manifest is Some && 0 <= k
                < catalog@.entries[i].trust_manifest->Some_0.attestations.len()
                && (#[trigger] catalog@.entries[i].trust_manifest->Some_0.attestations[k]).attestation_type.len() == 0
                implies !r.is_valid && dviews(r.errors@).contains(
                DiagView {
                    path: "catalog.entries["@ + decimal(i as nat) + "].trustManifest.attestations["@ + decimal(k as nat)
                        + "].type"@,
                    message: "attestation.type is required and must not be empty"@,
                },
            ) by {
            law_attestation_type_required(catalog@, now as int, i, k);
        }
    }
    r
}

/// Validates a catalog at the current time: its errors, which do not
/// depend on the time, its warnings at the time read from the clock, and
/// the conformance level it reaches.
pub fn validate(catalog: &AiCatalog) -> (r: ValidationResult)
    ensures
        dviews(r.errors@) == validation_errors(catalog@),
        exists|now: int| dviews(r.warnings@) == (#[trigger] validation_report(catalog@, now)).warnings,
        r.is_valid == (r.errors@.len() == 0),
        r.conformance_level == detect_level(catalog@, dviews(r.errors@)),
        forall|i: int, k: int|
            0 <= i < catalog@.entries.len() && (#[trigger] catalog@.entries[i]).trust_manifest is Some && 0 <= k
                < catalog@.entries[i].trust_manifest->Some_0.attestations.len()
                && (#[trigger] catalog@.entries[i].trust_manifest->Some_0.attestations[k]).attestation_type.len() == 0
                ==> !r.is_valid && dviews(r.errors@).contains(
                DiagView {
                    path: "catalog.entries["@ + decimal(i as nat) + "].trustManifest.attestations["@ + decimal(k as nat)
                        + "].type"@,
                    message: "attestation.type is required and must not be empty"@,
                },
            ),
{
    let now = now_unix_nanos();
    let r = validate_as_of(catalog, now);
    proof {
        law_errors_ignore_time(catalog@, "catalog"@, 1, now as int, 0);
    }
    proof {
        assert forall|i: int, k: int|
            0 <= i < catalog@.entries.len() && (#[trigger] catalog@.entries[i]).trust_manifest is Some && 0 <= k
                < catalog@.entries[i].trust_manifest->Some_0.attestations.len()
                && (#[trigger] catalog@.entries[i].trust_manifest->Some_0.attestations[k]).attestation_type.len() == 0
                implies !r.is_valid && dviews(r.errors@).contains(
                DiagView {
                    path: "catalog.entries["@ + decimal(i as nat) + "].trustManifest.attestations["@ + decimal(k as nat)
                        + "].type"@,
                    message: "attestation.type is required and must not be empty"@,
                },
            ) by {
            law_attestation_type_required(catalog@, 0, i, k);
        }
    }
    r
}

} // verus!
