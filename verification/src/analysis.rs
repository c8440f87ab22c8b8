//! What trust analysis finds in a catalog: the findings of each trust
//! manifest, and the manifests of a catalog in the order they are visited.
use vstd::prelude::*;
use vstd::string::*;
use crate::conformance::{MAX_NESTING_DEPTH, indexed};
use crate::digest::{digest_error_message, spec_parse_digest};
use crate::identity::{spec_identity_domain, spec_publisher_domain};
use crate::jws::{
    allowed_jws_algorithms, allowlist_text, spec_is_forbidden_jws_algorithm, spec_jws_algorithm,
    spec_looks_like_detached_jws,
};
use crate::model::{
    AttestationView, CatalogView, EntryView, HostView, ManifestView, ProvenanceView, SchemaView,
    SubjectView,
};
use crate::schema::spec_catalog_from_json;
use crate::text::find;
use crate::timestamp::rfc3339_instant;

verus! {

/// How serious a finding is.
#[derive(Debug, Clone, Copy, PartialEq, Eq, Structural)]
pub enum Severity {
    Error,
    Warning,
}

/// Something trust analysis found at a path of the document.
#[derive(Debug, Clone)]
pub struct Finding {
    pub severity: Severity,
    pub path: String,
    pub message: String,
}

pub struct FindingView {
    pub severity: Severity,
    pub path: Seq<char>,
    pub message: Seq<char>,
}

impl View for Finding {
    type V = FindingView;

    open spec fn view(&self) -> FindingView {
        FindingView { severity: self.severity, path: self.path@, message: self.message@ }
    }
}

pub open spec fn fviews(v: Seq<Finding>) -> Seq<FindingView> {
    v.map_values(|f: Finding| f@)
}

/// The analysis of one trust manifest.
#[derive(Debug, Clone)]
pub struct ManifestReport {
    pub path: String,
    pub identity: String,
    pub has_signature: bool,
    pub attestation_count: usize,
    pub provenance_count: usize,
    pub findings: Vec<Finding>,
}

pub struct ReportView {
    pub path: Seq<char>,
    pub identity: Seq<char>,
    pub has_signature: bool,
    pub attestation_count: nat,
    pub provenance_count: nat,
    pub findings: Seq<FindingView>,
}

impl View for ManifestReport {
    type V = ReportView;

    open spec fn view(&self) -> ReportView {
        ReportView {
            path: self.path@,
            identity: self.identity@,
            has_signature: self.has_signature,
            attestation_count: self.attestation_count as nat,
            provenance_count: self.provenance_count as nat,
            findings: fviews(self.findings@),
        }
    }
}

pub open spec fn rviews(v: Seq<ManifestReport>) -> Seq<ReportView> {
    v.map_values(|r: ManifestReport| r@)
}

/// The analysis of a catalog: every finding, the root host's manifest, and
/// the other manifests in the order they were visited.
#[derive(Debug, Clone)]
pub struct CatalogTrustReport {
    pub findings: Vec<Finding>,
    pub host: Option<ManifestReport>,
    pub entries: Vec<ManifestReport>,
    pub has_signature: bool,
}

pub open spec fn none_found() -> Seq<FindingView> {
    Seq::empty()
}

pub open spec fn error_at(path: Seq<char>, message: Seq<char>) -> Seq<FindingView> {
    seq![FindingView { severity: Severity::Error, path, message }]
}

pub open spec fn warning_at(path: Seq<char>, message: Seq<char>) -> Seq<FindingView> {
    seq![FindingView { severity: Severity::Warning, path, message }]
}

/// What the algorithm a signature's header declares gives rise to.
pub open spec fn signature_algorithm_findings(path: Seq<char>, signature: Seq<char>) -> Seq<FindingView> {
    match spec_jws_algorithm(signature) {
        None => error_at(path, "signature JWS header must be base64url-encoded JSON declaring an 'alg'"@),
        Some(a) => if spec_is_forbidden_jws_algorithm(a) {
            error_at(
                path,
                "signature algorithm '"@ + a
                    + "' must be rejected; a trust manifest requires an asymmetric signature"@,
            )
        } else if !allowed_jws_algorithms().contains(a) {
            warning_at(
                path,
                "signature algorithm '"@ + a + "' is outside the specification allowlist ("@
                    + allowlist_text() + ")"@,
            )
        } else {
            none_found()
        },
    }
}

pub open spec fn signature_findings(path: Seq<char>, m: ManifestView) -> Seq<FindingView> {
    match m.signature {
        None => none_found(),
        Some(sig) => if !spec_looks_like_detached_jws(sig) {
            error_at(path + ".signature"@, "signature must use detached JWS compact serialization"@)
        } else {
            (if m.subject is None {
                error_at(
                    path + ".subject"@,
                    "a signed trust manifest must carry a subject binding it to the artifact"@,
                )
            } else {
                none_found()
            }) + (if m.issued_at is None {
                error_at(path + ".issuedAt"@, "a signed trust manifest must carry an issuedAt timestamp"@)
            } else {
                none_found()
            }) + signature_algorithm_findings(path + ".signature"@, sig)
        },
    }
}

/// A digest member that does not parse.
pub open spec fn digest_findings(value: Seq<char>, path: Seq<char>) -> Seq<FindingView> {
    match spec_parse_digest(value) {
        Ok(_) => none_found(),
        Err(e) => error_at(path, digest_error_message(e)),
    }
}

pub open spec fn subject_findings(path: Seq<char>, subject: Option<SubjectView>) -> Seq<FindingView> {
    match subject {
        None => none_found(),
        Some(s) => (if s.subject_type.len() == 0 {
            error_at(path + ".subject.type"@, "subject type must not be empty"@)
        } else {
            none_found()
        }) + (if s.digest.len() == 0 {
            error_at(path + ".subject.digest"@, "subject digest must not be empty"@)
        } else {
            digest_findings(s.digest, path + ".subject.digest"@)
        }),
    }
}

pub open spec fn invalid_timestamp(path: Seq<char>, value: Seq<char>) -> Seq<FindingView> {
    error_at(path, "'"@ + value + "' is not a valid RFC 3339 datetime"@)
}

/// Timestamps that do not parse, and an expiry before `now`.
pub open spec fn validity_findings(path: Seq<char>, m: ManifestView, now: int) -> Seq<FindingView> {
    (match m.issued_at {
        Some(v) => if rfc3339_instant(v) is None {
            invalid_timestamp(path + ".issuedAt"@, v)
        } else {
            none_found()
        },
        None => none_found(),
    }) + (match m.expires_at {
        None => none_found(),
        Some(v) => match rfc3339_instant(v) {
            Some(t) => if t < now {
                warning_at(
                    path + ".expiresAt"@,
                    "trust manifest expired at "@ + v + " and SHOULD be rejected"@,
                )
            } else {
                none_found()
            },
            None => invalid_timestamp(path + ".expiresAt"@, v),
        },
    })
}

pub open spec fn schema_findings(path: Seq<char>, schema: Option<SchemaView>) -> Seq<FindingView> {
    match schema {
        None => none_found(),
        Some(s) => (if s.identifier.len() == 0 {
            error_at(path + ".trustSchema.identifier"@, "trustSchema.identifier must not be empty"@)
        } else {
            none_found()
        }) + (if s.version.len() == 0 {
            error_at(path + ".trustSchema.version"@, "trustSchema.version must not be empty"@)
        } else {
            none_found()
        }),
    }
}

pub open spec fn attestation_findings(path: Seq<char>, atts: Seq<AttestationView>) -> Seq<FindingView>
    decreases atts.len(),
{
    if atts.len() == 0 {
        none_found()
    } else {
        let a = atts.last();
        let p = indexed(path, ".attestations["@, (atts.len() - 1) as nat);
        attestation_findings(path, atts.drop_last()) + (if a.attestation_type.len() == 0 {
            error_at(p + ".type"@, "attestation type must not be empty"@)
        } else {
            none_found()
        }) + (if a.uri.len() == 0 {
            error_at(p + ".uri"@, "attestation uri must not be empty"@)
        } else {
            none_found()
        }) + match a.digest {
            Some(d) => digest_findings(d, p + ".digest"@),
            None => none_found(),
        }
    }
}

pub open spec fn provenance_findings(path: Seq<char>, links: Seq<ProvenanceView>) -> Seq<FindingView>
    decreases links.len(),
{
    if links.len() == 0 {
        none_found()
    } else {
        let l = links.last();
        let p = indexed(path, ".provenance["@, (links.len() - 1) as nat);
        provenance_findings(path, links.drop_last()) + (if l.relation.len() == 0 {
            error_at(p + ".relation"@, "provenance relation must not be empty"@)
        } else {
            none_found()
        }) + (if l.source_id.len() == 0 {
            error_at(p + ".sourceId"@, "provenance sourceId must not be empty"@)
        } else {
            none_found()
        }) + match l.source_digest {
            Some(d) => digest_findings(d, p + ".sourceDigest"@),
            None => none_found(),
        }
    }
}

/// The findings about a manifest's own contents.
pub open spec fn contents_findings(path: Seq<char>, m: ManifestView, now: int) -> Seq<FindingView> {
    signature_findings(path, m) + subject_findings(path, m.subject) + validity_findings(path, m, now)
        + schema_findings(path, m.trust_schema) + attestation_findings(path, m.attestations)
        + provenance_findings(path, m.provenance)
}

pub open spec fn uri_like_findings(path: Seq<char>, identity: Seq<char>) -> Seq<FindingView> {
    if find(identity, seq![':']) is None {
        warning_at(path + ".identity"@, "trust manifest identity SHOULD be a URI-like identifier"@)
    } else {
        none_found()
    }
}

/// A manifest identity whose domain does not align with the publisher
/// domain of an entry identifier that has one.
pub open spec fn binding_findings(path: Seq<char>, identifier: Seq<char>, identity: Seq<char>) -> Seq<FindingView> {
    match spec_publisher_domain(identifier) {
        None => none_found(),
        Some(p) => match spec_identity_domain(identity) {
            Some(d) => if d == p {
                none_found()
            } else {
                error_at(
                    path + ".identity"@,
                    "trustManifest.identity domain '"@ + d
                        + "' MUST align with entry identifier publisher domain '"@ + p + "'"@,
                )
            },
            None => error_at(
                path + ".identity"@,
                "trustManifest.identity '"@ + identity
                    + "' MUST carry a trust domain aligned with entry identifier publisher domain '"@
                    + p + "'"@,
            ),
        },
    }
}

pub open spec fn manifest_report_view(path: Seq<char>, m: ManifestView, findings: Seq<FindingView>) -> ReportView {
    ReportView {
        path,
        identity: m.identity,
        has_signature: m.signature is Some,
        attestation_count: m.attestations.len(),
        provenance_count: m.provenance.len(),
        findings,
    }
}

/// The report of a host's manifest at `path`, if it has one.
pub open spec fn host_manifest_report(h: HostView, path: Seq<char>, now: int) -> Option<ReportView> {
    match h.trust_manifest {
        None => None,
        Some(m) => Some(
            manifest_report_view(
                path,
                m,
                uri_like_findings(path, m.identity) + (match h.identifier {
                    Some(id) => if m.identity != id {
                        warning_at(
                            path + ".identity"@,
                            "host trustManifest.identity '"@ + m.identity
                                + "' SHOULD match host.identifier '"@ + id + "'"@,
                        )
                    } else {
                        none_found()
                    },
                    None => none_found(),
                }) + contents_findings(path, m, now),
            ),
        ),
    }
}

/// The report of an entry's manifest, for the entry at `entry_path`.
pub open spec fn entry_manifest_report(e: EntryView, entry_path: Seq<char>, now: int) -> Option<ReportView> {
    match e.trust_manifest {
        None => None,
        Some(m) => {
            let path = entry_path + ".trustManifest"@;
            Some(
                manifest_report_view(
                    path,
                    m,
                    binding_findings(path, e.identifier, m.identity) + uri_like_findings(
                        path,
                        m.identity,
                    ) + contents_findings(path, m, now),
                ),
            )
        },
    }
}

pub open spec fn opt_seq(o: Option<ReportView>) -> Seq<ReportView> {
    match o {
        Some(r) => seq![r],
        None => Seq::empty(),
    }
}

pub open spec fn catalog_media() -> Seq<char> {
    "application/ai-catalog+json"@
}

/// The reports of an entry at `entry_path`, of a catalog at nesting
/// `depth`: its own manifest's, then those of the catalog its data holds.
pub open spec fn entry_reports(e: EntryView, entry_path: Seq<char>, depth: nat, now: int) -> Seq<ReportView>
    decreases MAX_NESTING_DEPTH - depth, 0nat, 0nat,
{
    opt_seq(entry_manifest_report(e, entry_path, now)) + if depth < MAX_NESTING_DEPTH && e.entry_type
        == catalog_media() {
        match e.data {
            Some(d) => match spec_catalog_from_json(d) {
                Ok(c) => nested_reports(c, entry_path + ".data"@, depth + 1, now),
                Err(_) => Seq::empty(),
            },
            None => Seq::empty(),
        }
    } else {
        Seq::empty()
    }
}

/// The reports of the first `n` entries.
pub open spec fn entries_reports(es: Seq<EntryView>, n: nat, path: Seq<char>, depth: nat, now: int) -> Seq<ReportView>
    decreases MAX_NESTING_DEPTH - depth, 1nat, n,
{
    if n == 0 || n > es.len() {
        Seq::empty()
    } else {
        let i = (n - 1) as nat;
        entries_reports(es, i, path, depth, now) + entry_reports(
            es[i as int],
            indexed(path, ".entries["@, i),
            depth,
            now,
        )
    }
}

/// The reports a catalog at `path` and nesting `depth` contributes besides
/// the root host's: a nested catalog's host manifest first, then its
/// entries'.
pub open spec fn nested_reports(c: CatalogView, path: Seq<char>, depth: nat, now: int) -> Seq<ReportView>
    decreases MAX_NESTING_DEPTH - depth, 2nat, 0nat,
{
    (if depth > 1 {
        match c.host {
            Some(h) => opt_seq(host_manifest_report(h, path + ".host.trustManifest"@, now)),
            None => Seq::empty(),
        }
    } else {
        Seq::empty()
    }) + entries_reports(c.entries, c.entries.len(), path, depth, now)
}

/// The findings of a list of reports, one report after another.
pub open spec fn all_findings(rs: Seq<ReportView>) -> Seq<FindingView>
    decreases rs.len(),
{
    if rs.len() == 0 {
        none_found()
    } else {
        all_findings(rs.drop_last()) + rs.last().findings
    }
}

pub struct TrustReportView {
    pub findings: Seq<FindingView>,
    pub host: Option<ReportView>,
    pub entries: Seq<ReportView>,
    pub has_signature: bool,
}

/// The analysis of a catalog at the instant `now`.
pub open spec fn spec_analyze_catalog(c: CatalogView, now: int) -> TrustReportView {
    let host = match c.host {
        Some(h) => host_manifest_report(h, "catalog.host.trustManifest"@, now),
        None => None,
    };
    let entries = nested_reports(c, "catalog"@, 1, now);
    TrustReportView {
        findings: (match c.signature {
            Some(s) => signature_algorithm_findings("catalog.signature"@, s),
            None => none_found(),
        }) + all_findings(opt_seq(host)) + all_findings(entries),
        host,
        entries,
        has_signature: c.signature is Some,
    }
}

} // verus!
