//! Trust analysis of a catalog: the findings of `analysis`, carried out on
//! a document.
use vstd::prelude::*;
use vstd::string::*;
use crate::analysis::{
    CatalogTrustReport, Finding, FindingView, ManifestReport, ReportView, Severity,
    TrustReportView, all_findings, attestation_findings, binding_findings, contents_findings,
    digest_findings, entries_reports, entry_manifest_report, entry_reports, error_at, fviews,
    host_manifest_report, manifest_report_view, nested_reports, none_found, opt_seq,
    provenance_findings, rviews, schema_findings, signature_algorithm_findings,
    signature_findings, spec_analyze_catalog, subject_findings, uri_like_findings,
    validity_findings, warning_at,
};
use crate::conformance::MAX_NESTING_DEPTH;
use crate::digest::ParsedDigest;
use crate::identity::{identity_domain, publisher_domain};
use crate::jws::{is_allowed_jws_algorithm, is_forbidden_jws_algorithm, jws_algorithm, looks_like_detached_jws};
use crate::model::{
    AiCatalog, Attestation, CatalogEntry, HostInfo, ProvenanceLink, Subject, TrustManifest,
    TrustSchema, opt_schema_view, opt_subject_view,
};
use crate::schema::catalog_from_json;
use crate::text::{chars_of, find_char_exec, lemma_seq_add_empty, lemma_seq_assoc, str_eq};
use crate::timestamp::{now_unix_nanos, parse_rfc3339_nanos};
use crate::validate::{cat, cat3, indexed_path};

verus! {

fn add_finding(out: &mut Vec<Finding>, severity: Severity, path: String, message: String)
    ensures
        fviews(final(out)@) == fviews(old(out)@) + seq![FindingView { severity, path: path@, message: message@ }],
{
    let f = Finding { severity, path, message };
    out.push(f);
    assert(fviews(out@) =~= fviews(old(out)@) + seq![FindingView { severity, path: path@, message: message@ }]);
}

fn add_error(out: &mut Vec<Finding>, path: String, message: String)
    ensures
        fviews(final(out)@) == fviews(old(out)@) + error_at(path@, message@),
{
    add_finding(out, Severity::Error, path, message);
}

fn add_warning(out: &mut Vec<Finding>, path: String, message: String)
    ensures
        fviews(final(out)@) == fviews(old(out)@) + warning_at(path@, message@),
{
    add_finding(out, Severity::Warning, path, message);
}

proof fn lemma_nothing_found(a: Seq<FindingView>)
    ensures
        a + none_found() == a,
        none_found() + a == a,
{
    lemma_seq_add_empty(a);
}

fn check_signature_algorithm(path: &str, signature: &str, out: &mut Vec<Finding>)
    ensures
        fviews(final(out)@) == fviews(old(out)@) + signature_algorithm_findings(path@, signature@),
{
    match jws_algorithm(signature) {
        None => {
            add_error(
                out,
                String::from_str(path),
                String::from_str("signature JWS header must be base64url-encoded JSON declaring an 'alg'"),
            );
        },
        Some(a) => {
            if is_forbidden_jws_algorithm(a.as_str()) {
                let message = cat3(
                    "signature algorithm '",
                    a.as_str(),
                    "' must be rejected; a trust manifest requires an asymmetric signature",
                );
                add_error(out, String::from_str(path), message);
            } else if !is_allowed_jws_algorithm(a.as_str()) {
                let mut message = cat3(
                    "signature algorithm '",
                    a.as_str(),
                    "' is outside the specification allowlist (",
                );
                message.append("ES256, ES384, EdDSA, PS256, PS384, RS256");
                message.append(")");
                add_warning(out, String::from_str(path), message);
            } else {
                proof {
                    lemma_nothing_found(fviews(out@));
                }
            }
        },
    }
}

fn check_signature(path: &str, m: &TrustManifest, out: &mut Vec<Finding>)
    ensures
        fviews(final(out)@) == fviews(old(out)@) + signature_findings(path@, m@),
{
    let ghost start = fviews(out@);
    match &m.signature {
        None => {
            proof {
                lemma_nothing_found(start);
            }
        },
        Some(sig) => {
            if !looks_like_detached_jws(sig.as_str()) {
                add_error(
                    out,
                    cat(path, ".signature"),
                    String::from_str("signature must use detached JWS compact serialization"),
                );
                return;
            }
            let ghost a = if m@.subject is None {
                error_at(
                    path@ + ".subject"@,
                    "a signed trust manifest must carry a subject binding it to the artifact"@,
                )
            } else {
                none_found()
            };
            let ghost b = if m@.issued_at is None {
                error_at(path@ + ".issuedAt"@, "a signed trust manifest must carry an issuedAt timestamp"@)
            } else {
                none_found()
            };
            if m.subject.is_none() {
                add_error(
                    out,
                    cat(path, ".subject"),
                    String::from_str("a signed trust manifest must carry a subject binding it to the artifact"),
                );
            } else {
                proof {
                    lemma_nothing_found(start);
                }
            }
            if m.issued_at.is_none() {
                add_error(
                    out,
                    cat(path, ".issuedAt"),
                    String::from_str("a signed trust manifest must carry an issuedAt timestamp"),
                );
            } else {
                proof {
                    lemma_nothing_found(start + a);
                }
            }
            proof {
                lemma_seq_assoc(start, a, b);
            }
            let sp = cat(path, ".signature");
            check_signature_algorithm(sp.as_str(), sig.as_str(), out);
            proof {
                lemma_seq_assoc(start, a + b, signature_algorithm_findings(sp@, sig@));
            }
        },
    }
}

fn check_digest(value: &str, path: String, out: &mut Vec<Finding>)
    ensures
        fviews(final(out)@) == fviews(old(out)@) + digest_findings(value@, path@),
{
    match ParsedDigest::parse(value) {
        Ok(_) => {
            proof {
                lemma_nothing_found(fviews(out@));
            }
        },
        Err(e) => {
            add_error(out, path, e.to_string());
        },
    }
}

fn check_subject(path: &str, subject: &Option<Subject>, out: &mut Vec<Finding>)
    ensures
        fviews(final(out)@) == fviews(old(out)@) + subject_findings(path@, opt_subject_view(*subject)),
{
    let ghost start = fviews(out@);
    match subject {
        None => {
            proof {
                lemma_nothing_found(start);
            }
        },
        Some(s) => {
            let ghost a = if s@.subject_type.len() == 0 {
                error_at(path@ + ".subject.type"@, "subject type must not be empty"@)
            } else {
                none_found()
            };
            if s.subject_type.as_str().is_empty() {
                add_error(out, cat(path, ".subject.type"), String::from_str("subject type must not be empty"));
            } else {
                proof {
                    lemma_nothing_found(start);
                }
            }
            if s.digest.as_str().is_empty() {
                add_error(
                    out,
                    cat(path, ".subject.digest"),
                    String::from_str("subject digest must not be empty"),
                );
            } else {
                check_digest(s.digest.as_str(), cat(path, ".subject.digest"), out);
            }
        },
    }
}

fn add_invalid_timestamp(out: &mut Vec<Finding>, path: String, value: &str)
    ensures
        fviews(final(out)@) == fviews(old(out)@) + crate::analysis::invalid_timestamp(path@, value@),
{
    let message = cat3("'", value, "' is not a valid RFC 3339 datetime");
    add_error(out, path, message);
}

fn check_validity(path: &str, m: &TrustManifest, now: i128, out: &mut Vec<Finding>)
    ensures
        fviews(final(out)@) == fviews(old(out)@) + validity_findings(path@, m@, now as int),
{
    let ghost start = fviews(out@);
    match &m.issued_at {
        Some(v) => {
            if parse_rfc3339_nanos(v.as_str()).is_none() {
                add_invalid_timestamp(out, cat(path, ".issuedAt"), v.as_str());
            } else {
                proof {
                    lemma_nothing_found(start);
                }
            }
        },
        None => {
            proof {
                lemma_nothing_found(start);
            }
        },
    }
    let ghost mid = fviews(out@);
    match &m.expires_at {
        None => {
            proof {
                lemma_nothing_found(mid);
            }
        },
        Some(v) => match parse_rfc3339_nanos(v.as_str()) {
            Some(t) => {
                if t < now {
                    let message = cat3("trust manifest expired at ", v.as_str(), " and SHOULD be rejected");
                    add_warning(out, cat(path, ".expiresAt"), message);
                } else {
                    proof {
                        lemma_nothing_found(mid);
                    }
                }
            },
            None => {
                add_invalid_timestamp(out, cat(path, ".expiresAt"), v.as_str());
            },
        },
    }
    assert(fviews(out@) =~= start + validity_findings(path@, m@, now as int));
}

fn check_schema(path: &str, schema: &Option<TrustSchema>, out: &mut Vec<Finding>)
    ensures
        fviews(final(out)@) == fviews(old(out)@) + schema_findings(path@, opt_schema_view(*schema)),
{
    let ghost start = fviews(out@);
    match schema {
        None => {
            proof {
                lemma_nothing_found(start);
            }
        },
        Some(s) => {
            if s.identifier.as_str().is_empty() {
                add_error(
                    out,
                    cat(path, ".trustSchema.identifier"),
                    String::from_str("trustSchema.identifier must not be empty"),
                );
            } else {
                proof {
                    lemma_nothing_found(start);
                }
            }
            let ghost mid = fviews(out@);
            if s.version.as_str().is_empty() {
                add_error(
                    out,
                    cat(path, ".trustSchema.version"),
                    String::from_str("trustSchema.version must not be empty"),
                );
            } else {
                proof {
                    lemma_nothing_found(mid);
                }
            }
            assert(fviews(out@) =~= start + schema_findings(path@, opt_schema_view(*schema)));
        },
    }
}

fn check_attestation(p: &str, a: &Attestation, out: &mut Vec<Finding>)
    ensures
        fviews(final(out)@) == fviews(old(out)@) + ((if a@.attestation_type.len() == 0 {
            error_at(p@ + ".type"@, "attestation type must not be empty"@)
        } else {
            none_found()
        }) + (if a@.uri.len() == 0 {
            error_at(p@ + ".uri"@, "attestation uri must not be empty"@)
        } else {
            none_found()
        }) + match a@.digest {
            Some(d) => digest_findings(d, p@ + ".digest"@),
            None => none_found(),
        }),
{
    let ghost start = fviews(out@);
    if a.attestation_type.as_str().is_empty() {
        add_error(out, cat(p, ".type"), String::from_str("attestation type must not be empty"));
    } else {
        proof {
            lemma_nothing_found(start);
        }
    }
    let ghost s1 = fviews(out@);
    if a.uri.as_str().is_empty() {
        add_error(out, cat(p, ".uri"), String::from_str("attestation uri must not be empty"));
    } else {
        proof {
            lemma_nothing_found(s1);
        }
    }
    let ghost s2 = fviews(out@);
    match &a.digest {
        Some(d) => {
            check_digest(d.as_str(), cat(p, ".digest"), out);
        },
        None => {
            proof {
                lemma_nothing_found(s2);
            }
        },
    }
    assert(fviews(out@) =~= start + ((if a@.attestation_type.len() == 0 {
        error_at(p@ + ".type"@, "attestation type must not be empty"@)
    } else {
        none_found()
    }) + (if a@.uri.len() == 0 {
        error_at(p@ + ".uri"@, "attestation uri must not be empty"@)
    } else {
        none_found()
    }) + match a@.digest {
        Some(d) => digest_findings(d, p@ + ".digest"@),
        None => none_found(),
    }));
}

fn check_attestations(path: &str, atts: &Vec<Attestation>, out: &mut Vec<Finding>)
    ensures
        fviews(final(out)@) == fviews(old(out)@) + attestation_findings(
            path@,
            atts@.map_values(|a: Attestation| a@),
        ),
{
    let ghost av = atts@.map_values(|a: Attestation| a@);
    let ghost start = fviews(out@);
    proof {
        assert(av.take(0) =~= Seq::<crate::model::AttestationView>::empty());
        lemma_nothing_found(start);
    }
    let mut i: usize = 0;
    while i < atts.len()
        invariant
            av == atts@.map_values(|a: Attestation| a@),
            i <= atts@.len(),
            fviews(out@) == start + attestation_findings(path@, av.take(i as int)),
        decreases atts.len() - i,
    {
        assert(av.take(i + 1).drop_last() =~= av.take(i as int));
        assert(av.take(i + 1).last() == atts@[i as int]@);
        let ghost before = fviews(out@);
        let p = indexed_path(path, ".attestations[", i);
        check_attestation(p.as_str(), &atts[i], out);
        proof {
            let prev = attestation_findings(path@, av.take(i as int));
            let step = fviews(out@).skip(before.len() as int);
            assert(fviews(out@) =~= before + step);
            lemma_seq_assoc(start, prev, step);
            assert(attestation_findings(path@, av.take(i + 1)) =~= prev + step);
        }
        i = i + 1;
    }
    assert(av.take(av.len() as int) =~= av);
}

fn check_link(p: &str, l: &ProvenanceLink, out: &mut Vec<Finding>)
    ensures
        fviews(final(out)@) == fviews(old(out)@) + ((if l@.relation.len() == 0 {
            error_at(p@ + ".relation"@, "provenance relation must not be empty"@)
        } else {
            none_found()
        }) + (if l@.source_id.len() == 0 {
            error_at(p@ + ".sourceId"@, "provenance sourceId must not be empty"@)
        } else {
            none_found()
        }) + match l@.source_digest {
            Some(d) => digest_findings(d, p@ + ".sourceDigest"@),
            None => none_found(),
        }),
{
    let ghost start = fviews(out@);
    if l.relation.as_str().is_empty() {
        add_error(out, cat(p, ".relation"), String::from_str("provenance relation must not be empty"));
    } else {
        proof {
            lemma_nothing_found(start);
        }
    }
    let ghost s1 = fviews(out@);
    if l.source_id.as_str().is_empty() {
        add_error(out, cat(p, ".sourceId"), String::from_str("provenance sourceId must not be empty"));
    } else {
        proof {
            lemma_nothing_found(s1);
        }
    }
    let ghost s2 = fviews(out@);
    match &l.source_digest {
        Some(d) => {
            check_digest(d.as_str(), cat(p, ".sourceDigest"), out);
        },
        None => {
            proof {
                lemma_nothing_found(s2);
            }
        },
    }
    assert(fviews(out@) =~= start + ((if l@.relation.len() == 0 {
        error_at(p@ + ".relation"@, "provenance relation must not be empty"@)
    } else {
        none_found()
    }) + (if l@.source_id.len() == 0 {
        error_at(p@ + ".sourceId"@, "provenance sourceId must not be empty"@)
    } else {
        none_found()
    }) + match l@.source_digest {
        Some(d) => digest_findings(d, p@ + ".sourceDigest"@),
        None => none_found(),
    }));
}

fn check_provenance(path: &str, links: &Vec<ProvenanceLink>, out: &mut Vec<Finding>)
    ensures
        fviews(final(out)@) == fviews(old(out)@) + provenance_findings(
            path@,
            links@.map_values(|l: ProvenanceLink| l@),
        ),
{
    let ghost lv = links@.map_values(|l: ProvenanceLink| l@);
    let ghost start = fviews(out@);
    proof {
        assert(lv.take(0) =~= Seq::<crate::model::ProvenanceView>::empty());
        lemma_nothing_found(start);
    }
    let mut i: usize = 0;
    while i < links.len()
        invariant
            lv == links@.map_values(|l: ProvenanceLink| l@),
            i <= links@.len(),
            fviews(out@) == start + provenance_findings(path@, lv.take(i as int)),
        decreases links.len() - i,
    {
        assert(lv.take(i + 1).drop_last() =~= lv.take(i as int));
        assert(lv.take(i + 1).last() == links@[i as int]@);
        let ghost before = fviews(out@);
        let p = indexed_path(path, ".provenance[", i);
        check_link(p.as_str(), &links[i], out);
        proof {
            let prev = provenance_findings(path@, lv.take(i as int));
            let step = fviews(out@).skip(before.len() as int);
            assert(fviews(out@) =~= before + step);
            lemma_seq_assoc(start, prev, step);
            assert(provenance_findings(path@, lv.take(i + 1)) =~= prev + step);
        }
        i = i + 1;
    }
    assert(lv.take(lv.len() as int) =~= lv);
}

fn check_contents(path: &str, m: &TrustManifest, now: i128, out: &mut Vec<Finding>)
    ensures
        fviews(final(out)@) == fviews(old(out)@) + contents_findings(path@, m@, now as int),
{
    let ghost start = fviews(out@);
    let ghost mv = m@;
    let ghost a = signature_findings(path@, mv);
    let ghost b = subject_findings(path@, mv.subject);
    let ghost c = validity_findings(path@, mv, now as int);
    let ghost d = schema_findings(path@, mv.trust_schema);
    let ghost e = attestation_findings(path@, mv.attestations);
    let ghost f = provenance_findings(path@, mv.provenance);
    check_signature(path, m, out);
    check_subject(path, &m.subject, out);
    proof {
        lemma_seq_assoc(start, a, b);
    }
    check_validity(path, m, now, out);
    proof {
        lemma_seq_assoc(start, a + b, c);
    }
    check_schema(path, &m.trust_schema, out);
    proof {
        lemma_seq_assoc(start, a + b + c, d);
    }
    check_attestations(path, &m.attestations, out);
    proof {
        lemma_seq_assoc(start, a + b + c + d, e);
    }
    check_provenance(path, &m.provenance, out);
    proof {
        lemma_seq_assoc(start, a + b + c + d + e, f);
    }
}

fn check_uri_like(path: &str, identity: &str, out: &mut Vec<Finding>)
    ensures
        fviews(final(out)@) == fviews(old(out)@) + uri_like_findings(path@, identity@),
{
    let chars = chars_of(identity);
    if find_char_exec(chars.as_slice(), ':').is_none() {
        add_warning(
            out,
            cat(path, ".identity"),
            String::from_str("trust manifest identity SHOULD be a URI-like identifier"),
        );
    } else {
        proof {
            lemma_nothing_found(fviews(out@));
        }
    }
}

fn check_binding(path: &str, identifier: &str, identity: &str, out: &mut Vec<Finding>)
    ensures
        fviews(final(out)@) == fviews(old(out)@) + binding_findings(path@, identifier@, identity@),
{
    match publisher_domain(identifier) {
        None => {
            proof {
                lemma_nothing_found(fviews(out@));
            }
        },
        Some(p) => match identity_domain(identity) {
            Some(d) => {
                if str_eq(d.as_str(), p.as_str()) {
                    proof {
                        lemma_nothing_found(fviews(out@));
                    }
                } else {
                    let mut message = cat3(
                        "trustManifest.identity domain '",
                        d.as_str(),
                        "' MUST align with entry identifier publisher domain '",
                    );
                    message.append(p.as_str());
                    message.append("'");
                    add_error(out, cat(path, ".identity"), message);
                }
            },
            None => {
                let mut message = cat3(
                    "trustManifest.identity '",
                    identity,
                    "' MUST carry a trust domain aligned with entry identifier publisher domain '",
                );
                message.append(p.as_str());
                message.append("'");
                add_error(out, cat(path, ".identity"), message);
            },
        },
    }
}

pub open spec fn opt_report_view(o: Option<ManifestReport>) -> Option<ReportView> {
    match o {
        Some(r) => Some(r@),
        None => None,
    }
}

/// The report of a host's trust manifest at `path`, if it has one.
fn analyze_host_manifest(h: &HostInfo, path: String, now: i128) -> (r: Option<ManifestReport>)
    ensures
        opt_report_view(r) == host_manifest_report(h@, path@, now as int),
{
    let m = match &h.trust_manifest {
        Some(m) => m,
        None => {
            return None;
        },
    };
    let mut findings: Vec<Finding> = Vec::new();
    let ghost start = fviews(findings@);
    assert(start =~= none_found());
    check_uri_like(path.as_str(), m.identity.as_str(), &mut findings);
    let ghost a = uri_like_findings(path@, m@.identity);
    let ghost b = match h@.identifier {
        Some(id) => if m@.identity != id {
            warning_at(
                path@ + ".identity"@,
                "host trustManifest.identity '"@ + m@.identity + "' SHOULD match host.identifier '"@
                    + id + "'"@,
            )
        } else {
            none_found()
        },
        None => none_found(),
    };
    match &h.identifier {
        Some(id) => {
            if !str_eq(m.identity.as_str(), id.as_str()) {
                let mut message = cat3(
                    "host trustManifest.identity '",
                    m.identity.as_str(),
                    "' SHOULD match host.identifier '",
                );
                message.append(id.as_str());
                message.append("'");
                add_warning(&mut findings, cat(path.as_str(), ".identity"), message);
            } else {
                proof {
                    lemma_nothing_found(fviews(findings@));
                }
            }
        },
        None => {
            proof {
                lemma_nothing_found(fviews(findings@));
            }
        },
    }
    check_contents(path.as_str(), m, now, &mut findings);
    proof {
        lemma_nothing_found(a);
        lemma_seq_assoc(a, b, contents_findings(path@, m@, now as int));
    }
    Some(
        ManifestReport {
            path,
            identity: m.identity.clone(),
            has_signature: m.signature.is_some(),
            attestation_count: m.attestations.len(),
            provenance_count: m.provenance.len(),
            findings,
        },
    )
}

/// The report of an entry's trust manifest, for the entry at `entry_path`.
fn analyze_entry_manifest(e: &CatalogEntry, entry_path: &str, now: i128) -> (r: Option<ManifestReport>)
    ensures
        opt_report_view(r) == entry_manifest_report(e@, entry_path@, now as int),
{
    let m = match &e.trust_manifest {
        Some(m) => m,
        None => {
            return None;
        },
    };
    let path = cat(entry_path, ".trustManifest");
    let mut findings: Vec<Finding> = Vec::new();
    assert(fviews(findings@) =~= none_found());
    let ghost a = binding_findings(path@, e@.identifier, m@.identity);
    let ghost b = uri_like_findings(path@, m@.identity);
    check_binding(path.as_str(), e.identifier.as_str(), m.identity.as_str(), &mut findings);
    check_uri_like(path.as_str(), m.identity.as_str(), &mut findings);
    check_contents(path.as_str(), m, now, &mut findings);
    proof {
        lemma_nothing_found(a);
        lemma_seq_assoc(a, b, contents_findings(path@, m@, now as int));
    }
    Some(
        ManifestReport {
            path,
            identity: m.identity.clone(),
            has_signature: m.signature.is_some(),
            attestation_count: m.attestations.len(),
            provenance_count: m.provenance.len(),
            findings,
        },
    )
}

proof fn lemma_rviews_push(v: Seq<ManifestReport>, r: ManifestReport)
    ensures
        rviews(v.push(r)) == rviews(v) + seq![r@],
{
    assert(rviews(v.push(r)) =~= rviews(v) + seq![r@]);
}

fn push_report(out: &mut Vec<ManifestReport>, r: Option<ManifestReport>)
    ensures
        rviews(final(out)@) == rviews(old(out)@) + opt_seq(opt_report_view(r)),
{
    match r {
        Some(r) => {
            proof {
                lemma_rviews_push(out@, r);
            }
            out.push(r);
        },
        None => {
            proof {
                lemma_seq_add_empty(rviews(out@));
            }
        },
    }
}

/// Collects the reports of an entry at `entry_path` of a catalog at nesting
/// `depth`, a catalog in its data included.
fn collect_entry(
    e: &CatalogEntry,
    entry_path: &str,
    depth: usize,
    now: i128,
    out: &mut Vec<ManifestReport>,
)
    requires
        1 <= depth <= MAX_NESTING_DEPTH,
    ensures
        rviews(final(out)@) == rviews(old(out)@) + entry_reports(e@, entry_path@, depth as nat, now as int),
    decreases MAX_NESTING_DEPTH - depth, 0nat,
{
    let ghost start = rviews(out@);
    let own = analyze_entry_manifest(e, entry_path, now);
    push_report(out, own);
    let ghost mid = rviews(out@);
    let ghost a = opt_seq(entry_manifest_report(e@, entry_path@, now as int));
    if depth < MAX_NESTING_DEPTH && str_eq(e.entry_type.as_str(), "application/ai-catalog+json") {
        match &e.data {
            Some(d) => match catalog_from_json(d) {
                Ok(c) => {
                    collect_nested(&c, cat(entry_path, ".data").as_str(), depth + 1, now, out);
                },
                Err(_) => {
                    proof {
                        lemma_seq_add_empty(mid);
                    }
                },
            },
            None => {
                proof {
                    lemma_seq_add_empty(mid);
                }
            },
        }
    } else {
        proof {
            lemma_seq_add_empty(mid);
        }
    }
    proof {
        let rest = rviews(out@).skip(mid.len() as int);
        assert(rviews(out@) =~= mid + rest);
        lemma_seq_assoc(start, a, rest);
    }
}

/// Collects the reports of a catalog at `path` and nesting `depth`, other
/// than the root host's.
fn collect_nested(c: &AiCatalog, path: &str, depth: usize, now: i128, out: &mut Vec<ManifestReport>)
    requires
        1 <= depth <= MAX_NESTING_DEPTH,
    ensures
        rviews(final(out)@) == rviews(old(out)@) + nested_reports(c@, path@, depth as nat, now as int),
    decreases MAX_NESTING_DEPTH - depth, 1nat,
{
    let ghost start = rviews(out@);
    if depth > 1 {
        match &c.host {
            Some(h) => {
                let r = analyze_host_manifest(h, cat(path, ".host.trustManifest"), now);
                push_report(out, r);
            },
            None => {
                proof {
                    lemma_seq_add_empty(start);
                }
            },
        }
    } else {
        proof {
            lemma_seq_add_empty(start);
        }
    }
    let ghost e0 = rviews(out@);
    let ghost ev = c.entries@.map_values(|e: CatalogEntry| e@);
    proof {
        lemma_seq_add_empty(e0);
    }
    let mut i: usize = 0;
    while i < c.entries.len()
        invariant
            1 <= depth <= MAX_NESTING_DEPTH,
            ev == c.entries@.map_values(|e: CatalogEntry| e@),
            i <= c.entries@.len(),
            rviews(out@) == e0 + entries_reports(ev, i as nat, path@, depth as nat, now as int),
        decreases c.entries.len() - i,
    {
        let ghost before = entries_reports(ev, i as nat, path@, depth as nat, now as int);
        let p = indexed_path(path, ".entries[", i);
        assert(ev[i as int] == c.entries@[i as int]@);
        collect_entry(&c.entries[i], p.as_str(), depth, now, out);
        proof {
            lemma_seq_assoc(e0, before, entry_reports(ev[i as int], p@, depth as nat, now as int));
        }
        i = i + 1;
    }
    proof {
        assert(ev.len() == c.entries@.len());
        let h = rviews(out@).take(e0.len() as int);
        lemma_seq_assoc(start, e0.skip(start.len() as int), entries_reports(ev, ev.len(), path@, depth as nat, now as int));
        assert(e0 =~= start + e0.skip(start.len() as int));
    }
}

fn clone_finding(f: &Finding) -> (r: Finding)
    ensures
        r@ == f@,
{
    Finding { severity: f.severity, path: f.path.clone(), message: f.message.clone() }
}

/// Appends copies of a report's findings.
fn extend_findings(out: &mut Vec<Finding>, r: &ManifestReport)
    ensures
        fviews(final(out)@) == fviews(old(out)@) + r@.findings,
{
    let ghost start = fviews(out@);
    let mut i: usize = 0;
    while i < r.findings.len()
        invariant
            i <= r.findings@.len(),
            fviews(out@) == start + fviews(r.findings@).take(i as int),
        decreases r.findings.len() - i,
    {
        let f = clone_finding(&r.findings[i]);
        let ghost prev = fviews(out@);
        out.push(f);
        assert(fviews(out@) =~= prev.push(r.findings@[i as int]@));
        assert(fviews(r.findings@).take(i + 1) =~= fviews(r.findings@).take(i as int).push(r.findings@[i as int]@));
        assert(fviews(out@) =~= start + fviews(r.findings@).take(i + 1));
        i = i + 1;
    }
    assert(fviews(r.findings@).take(r.findings@.len() as int) =~= fviews(r.findings@));
}

fn extend_all_findings(out: &mut Vec<Finding>, rs: &Vec<ManifestReport>)
    ensures
        fviews(final(out)@) == fviews(old(out)@) + all_findings(rviews(rs@)),
{
    let ghost start = fviews(out@);
    let ghost vs = rviews(rs@);
    proof {
        assert(vs.take(0) =~= Seq::<ReportView>::empty());
        lemma_nothing_found(start);
    }
    let mut i: usize = 0;
    while i < rs.len()
        invariant
            vs == rviews(rs@),
            i <= rs@.len(),
            fviews(out@) == start + all_findings(vs.take(i as int)),
        decreases rs.len() - i,
    {
        assert(vs.take(i + 1).drop_last() =~= vs.take(i as int));
        assert(vs.take(i + 1).last() == rs@[i as int]@);
        extend_findings(out, &rs[i]);
        proof {
            lemma_seq_assoc(start, all_findings(vs.take(i as int)), rs@[i as int]@.findings);
        }
        i = i + 1;
    }
    assert(vs.take(vs.len() as int) =~= vs);
}

pub open spec fn trust_report_view(r: CatalogTrustReport) -> TrustReportView {
    TrustReportView {
        findings: fviews(r.findings@),
        host: opt_report_view(r.host),
        entries: rviews(r.entries@),
        has_signature: r.has_signature,
    }
}

/// Analyzes the trust manifests of a catalog, judging expiry against the
/// instant `now` (nanoseconds since the Unix epoch).
pub fn analyze_catalog_as_of(catalog: &AiCatalog, now: i128) -> (r: CatalogTrustReport)
    ensures
        trust_report_view(r) == spec_analyze_catalog(catalog@, now as int),
{
    let host = match &catalog.host {
        Some(h) => analyze_host_manifest(h, String::from_str("catalog.host.trustManifest"), now),
        None => None,
    };
    let mut entries: Vec<ManifestReport> = Vec::new();
    assert(rviews(entries@) =~= Seq::<ReportView>::empty());
    collect_nested(catalog, "catalog", 1, now, &mut entries);
    proof {
        lemma_seq_add_empty(nested_reports(catalog@, "catalog"@, 1, now as int));
    }
    let mut findings: Vec<Finding> = Vec::new();
    assert(fviews(findings@) =~= none_found());
    match &catalog.signature {
        Some(s) => {
            check_signature_algorithm("catalog.signature", s.as_str(), &mut findings);
            proof {
                lemma_nothing_found(signature_algorithm_findings("catalog.signature"@, s@));
            }
        },
        None => {},
    }
    let ghost a = fviews(findings@);
    let ghost spec = spec_analyze_catalog(catalog@, now as int);
    assert(a == match catalog@.signature {
        Some(s) => signature_algorithm_findings("catalog.signature"@, s),
        None => none_found(),
    });
    match &host {
        Some(h) => {
            extend_findings(&mut findings, h);
            proof {
                let hs = seq![h@];
                assert(hs.drop_last() =~= Seq::<ReportView>::empty());
                assert(hs.last() == h@);
                assert(all_findings(Seq::<ReportView>::empty()) == none_found());
                assert(all_findings(hs.drop_last()) == none_found());
                lemma_nothing_found(h@.findings);
                assert(all_findings(hs) == h@.findings);
                assert(opt_seq(opt_report_view(host)) =~= hs);
            }
        },
        None => {
            proof {
                lemma_nothing_found(a);
                assert(opt_seq(opt_report_view(host)) =~= Seq::<ReportView>::empty());
                assert(all_findings(Seq::<ReportView>::empty()) == none_found());
            }
        },
    }
    let ghost b = fviews(findings@);
    assert(b == a + all_findings(opt_seq(opt_report_view(host))));
    extend_all_findings(&mut findings, &entries);
    let has_signature = catalog.signature.is_some();
    CatalogTrustReport { findings, host, entries, has_signature }
}

/// Analyzes the trust manifests of a catalog at the current time.
pub fn analyze_catalog(catalog: &AiCatalog) -> (r: CatalogTrustReport)
    ensures
        exists|now: int| trust_report_view(r) == #[trigger] spec_analyze_catalog(catalog@, now),
{
    let now = now_unix_nanos();
    analyze_catalog_as_of(catalog, now)
}

} // verus!
