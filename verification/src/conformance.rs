//! Semantic validation of a catalog and detection of the conformance level
//! it reaches: the rules a JSON schema cannot express.
use vstd::prelude::*;
use vstd::string::*;
use crate::digest::count_char;
use crate::identity::{spec_identity_domain, spec_publisher_domain};
use crate::json::JsonView;
use crate::model::{
    AttestationView, CatalogView, EntryView, HostView, ManifestView, ProvenanceView,
    PublisherView, SchemaView, SubjectView,
};
use crate::pattern::spec_is_extension_key;
use crate::schema::{number_as_u64, spec_catalog_from_json};
use crate::text::{decimal, find};
use crate::timestamp::rfc3339_instant;

verus! {

/// How much of the specification a valid document meets.
#[derive(Debug, Clone, Copy, PartialEq, Eq, Structural)]
pub enum ConformanceLevel {
    Minimal,
    Discoverable,
    Trusted,
}

/// A finding at a path in the document.
#[derive(Debug, Clone)]
pub struct Diagnostic {
    pub path: String,
    pub message: String,
}

pub struct DiagView {
    pub path: Seq<char>,
    pub message: Seq<char>,
}

impl View for Diagnostic {
    type V = DiagView;

    open spec fn view(&self) -> DiagView {
        DiagView { path: self.path@, message: self.message@ }
    }
}

/// The outcome of validating a document.
#[derive(Debug, Clone)]
pub struct ValidationResult {
    pub is_valid: bool,
    pub conformance_level: ConformanceLevel,
    pub errors: Vec<Diagnostic>,
    pub warnings: Vec<Diagnostic>,
}

pub open spec fn dviews(v: Seq<Diagnostic>) -> Seq<DiagView> {
    v.map_values(|d: Diagnostic| d@)
}

pub open spec fn diag(path: Seq<char>, message: Seq<char>) -> DiagView {
    DiagView { path, message }
}

/// Errors and warnings, in the order they are reported.
pub struct Report {
    pub errors: Seq<DiagView>,
    pub warnings: Seq<DiagView>,
}

pub open spec fn empty_report() -> Report {
    Report { errors: Seq::empty(), warnings: Seq::empty() }
}

pub open spec fn errors_only(errors: Seq<DiagView>) -> Report {
    Report { errors, warnings: Seq::empty() }
}

pub open spec fn join(a: Report, b: Report) -> Report {
    Report { errors: a.errors + b.errors, warnings: a.warnings + b.warnings }
}

/// How deep catalogs may nest in the data of their entries.
pub const MAX_NESTING_DEPTH: usize = 4;

pub open spec fn catalog_media() -> Seq<char> {
    "application/ai-catalog+json"@
}

pub open spec fn nothing() -> Seq<DiagView> {
    Seq::empty()
}

pub open spec fn one(path: Seq<char>, message: Seq<char>) -> Seq<DiagView> {
    seq![diag(path, message)]
}

pub open spec fn opt_or_empty(o: Option<Seq<char>>) -> Seq<char> {
    match o {
        Some(s) => s,
        None => Seq::empty(),
    }
}

/// A required member that is empty.
pub open spec fn require_member(value: Seq<char>, path: Seq<char>, member: Seq<char>) -> Seq<DiagView> {
    if value.len() == 0 {
        one(path, member + " is required and must not be empty"@)
    } else {
        nothing()
    }
}

/// `u64::from_str`: ASCII digits, optionally after one `+`, within range.
pub open spec fn rust_parse_u64(s: Seq<char>) -> Option<u64> {
    if s.len() > 0 && s[0] == '+' {
        number_as_u64(s.drop_first())
    } else {
        number_as_u64(s)
    }
}

/// The problems with a `specVersion`: empty, not `Major.Minor`, not numeric,
/// or of a major version above 1.
pub open spec fn spec_version_errors(sv: Seq<char>, path: Seq<char>) -> Seq<DiagView> {
    if sv.len() == 0 {
        one(path, "specVersion must not be empty"@)
    } else if count_char(sv, '.') != 1 {
        one(
            path,
            "specVersion must be in Major.Minor format (e.g., '1.0'), found '"@ + sv + "'"@,
        )
    } else {
        match find(sv, seq!['.']) {
            None => nothing(),
            Some(k) => {
                let major = sv.take(k);
                let minor = sv.skip(k + 1);
                match (rust_parse_u64(major), rust_parse_u64(minor)) {
                    (Some(m), Some(_)) => if m > 1 {
                        one(
                            path,
                            "unsupported specVersion major version: "@ + major
                                + " (this implementation supports major version 1)"@,
                        )
                    } else {
                        nothing()
                    },
                    _ => one(
                        path,
                        "specVersion major and minor components must be non-negative integers, found '"@
                            + sv + "'"@,
                    ),
                }
            },
        }
    }
}

/// Extension keys that are neither URLs nor reverse-DNS strings.
pub open spec fn key_errors(ms: Seq<(Seq<char>, JsonView)>, path: Seq<char>) -> Seq<DiagView>
    decreases ms.len(),
{
    if ms.len() == 0 {
        nothing()
    } else {
        key_errors(ms.drop_last(), path) + if spec_is_extension_key(ms.last().0) {
            nothing()
        } else {
            one(
                path,
                "extension key '"@ + ms.last().0 + "' must be a valid URL or a reverse-DNS string"@,
            )
        }
    }
}

pub open spec fn extension_errors(ext: Option<Seq<(Seq<char>, JsonView)>>, path: Seq<char>) -> Seq<DiagView> {
    match ext {
        None => nothing(),
        Some(ms) => key_errors(ms, path),
    }
}

pub open spec fn indexed(path: Seq<char>, field: Seq<char>, i: nat) -> Seq<char> {
    path + field + decimal(i) + "]"@
}

pub open spec fn attestation_errors(atts: Seq<AttestationView>, path: Seq<char>) -> Seq<DiagView>
    decreases atts.len(),
{
    if atts.len() == 0 {
        nothing()
    } else {
        let i = (atts.len() - 1) as nat;
        let p = indexed(path, ".attestations["@, i);
        attestation_errors(atts.drop_last(), path) + require_member(
            atts.last().attestation_type,
            p + ".type"@,
            "attestation.type"@,
        ) + require_member(atts.last().uri, p + ".uri"@, "attestation.uri"@)
    }
}

pub open spec fn provenance_errors(links: Seq<ProvenanceView>, path: Seq<char>) -> Seq<DiagView>
    decreases links.len(),
{
    if links.len() == 0 {
        nothing()
    } else {
        let i = (links.len() - 1) as nat;
        let p = indexed(path, ".provenance["@, i);
        provenance_errors(links.drop_last(), path) + require_member(
            links.last().relation,
            p + ".relation"@,
            "provenance.relation"@,
        ) + require_member(links.last().source_id, p + ".sourceId"@, "provenance.sourceId"@)
    }
}

pub open spec fn is_signed(m: ManifestView) -> bool {
    m.signature is Some && m.subject is Some && m.issued_at is Some
}

/// A manifest carries a signature with its subject and issuedAt, a
/// non-empty attestations or provenance list, or a trust schema.
pub open spec fn is_substantive(m: ManifestView) -> bool {
    is_signed(m) || m.attestations.len() > 0 || m.provenance.len() > 0 || m.trust_schema is Some
}

pub open spec fn substantive_message() -> Seq<char> {
    "trustManifest must carry at least one substantive member (a signature with its subject and issuedAt, a non-empty attestations or provenance array, or a trustSchema) and must otherwise be omitted entirely"@
}

pub open spec fn signed_member_errors(m: ManifestView, path: Seq<char>) -> Seq<DiagView> {
    if m.signature is None {
        nothing()
    } else {
        (if m.subject is None {
            one(path + ".subject"@, "a trustManifest carrying a signature must include a subject"@)
        } else {
            nothing()
        }) + (if m.issued_at is None {
            one(path + ".issuedAt"@, "a trustManifest carrying a signature must include issuedAt"@)
        } else {
            nothing()
        })
    }
}

pub open spec fn timestamp_errors(m: ManifestView, path: Seq<char>) -> Seq<DiagView> {
    (match m.issued_at {
        Some(s) => if rfc3339_instant(s) is None {
            one(path + ".issuedAt"@, "issuedAt is not a valid RFC 3339 datetime: '"@ + s + "'"@)
        } else {
            nothing()
        },
        None => nothing(),
    }) + (match m.expires_at {
        Some(s) => if rfc3339_instant(s) is None {
            one(path + ".expiresAt"@, "expiresAt is not a valid RFC 3339 datetime: '"@ + s + "'"@)
        } else {
            nothing()
        },
        None => nothing(),
    })
}

pub open spec fn expiry_warnings(m: ManifestView, path: Seq<char>, now: int) -> Seq<DiagView> {
    match m.expires_at {
        Some(s) => match rfc3339_instant(s) {
            Some(t) => if t < now {
                one(
                    path + ".expiresAt"@,
                    "trustManifest expired at '"@ + s + "' and SHOULD be rejected"@,
                )
            } else {
                nothing()
            },
            None => nothing(),
        },
        None => nothing(),
    }
}

pub open spec fn subject_errors(subject: Option<SubjectView>, path: Seq<char>) -> Seq<DiagView> {
    match subject {
        None => nothing(),
        Some(s) => (if s.subject_type.len() == 0 {
            one(path + ".type"@, "subject.type is required and must not be empty"@)
        } else {
            nothing()
        }) + (if s.digest.len() == 0 {
            one(path + ".digest"@, "subject.digest is required and must not be empty"@)
        } else {
            nothing()
        }),
    }
}

/// The errors of a trust schema at `path`.
pub open spec fn schema_errors(s: Option<SchemaView>, path: Seq<char>) -> Seq<DiagView> {
    match s {
        Some(s) => require_member(
            s.identifier,
            path + ".identifier"@,
            "trustSchema.identifier"@,
        ) + require_member(s.version, path + ".version"@, "trustSchema.version"@),
        None => nothing(),
    }
}

pub open spec fn substantive_errors(m: ManifestView, path: Seq<char>) -> Seq<DiagView> {
    if is_substantive(m) {
        nothing()
    } else {
        one(path, substantive_message())
    }
}

/// The errors of a trust manifest at `path`.
pub open spec fn manifest_errors(m: ManifestView, path: Seq<char>) -> Seq<DiagView> {
    extension_errors(m.extensions, path + ".extensions"@) + require_member(
        m.identity,
        path + ".identity"@,
        "trustManifest.identity"@,
    ) + schema_errors(m.trust_schema, path + ".trustSchema"@) + attestation_errors(
        m.attestations,
        path,
    ) + provenance_errors(m.provenance, path) + substantive_errors(m, path)
        + signed_member_errors(m, path) + timestamp_errors(m, path) + subject_errors(
        m.subject,
        path + ".subject"@,
    )
}

/// What validating a trust manifest reports.
pub open spec fn manifest_report(m: ManifestView, path: Seq<char>, now: int) -> Report {
    Report { errors: manifest_errors(m, path), warnings: expiry_warnings(m, path, now) }
}

/// What validating a host reports.
pub open spec fn host_report(h: HostView, path: Seq<char>, now: int) -> Report {
    join(
        errors_only(require_member(h.display_name, path + ".displayName"@, "host.displayName"@)),
        match h.trust_manifest {
            Some(m) => manifest_report(m, path + ".trustManifest"@, now),
            None => empty_report(),
        },
    )
}

pub open spec fn publisher_errors(p: Option<PublisherView>, path: Seq<char>) -> Seq<DiagView> {
    match p {
        None => nothing(),
        Some(p) => require_member(
            p.identifier,
            path + ".identifier"@,
            "publisher.identifier"@,
        ) + require_member(p.display_name, path + ".displayName"@, "publisher.displayName"@),
    }
}

pub open spec fn payload_errors(e: EntryView, path: Seq<char>) -> Seq<DiagView> {
    if e.url is Some && e.data is Some {
        one(path, "entry must have exactly one of 'url' or 'data', found both"@)
    } else if e.url is None && e.data is None {
        one(path, "entry must have exactly one of 'url' or 'data'"@)
    } else {
        nothing()
    }
}

pub open spec fn updated_at_errors(e: EntryView, path: Seq<char>) -> Seq<DiagView> {
    match e.updated_at {
        Some(s) => if rfc3339_instant(s) is None {
            one(path + ".updatedAt"@, "updatedAt is not a valid RFC 3339 datetime: '"@ + s + "'"@)
        } else {
            nothing()
        },
        None => nothing(),
    }
}

/// A subject that does not restate the entry it is bound to.
pub open spec fn subject_binding_errors(e: EntryView, m: ManifestView, path: Seq<char>) -> Seq<DiagView> {
    match m.subject {
        None => nothing(),
        Some(s) => (if s.subject_type.len() > 0 && e.entry_type.len() > 0 && s.subject_type
            != e.entry_type {
            one(
                path + ".subject.type"@,
                "subject.type '"@ + s.subject_type + "' must equal the entry type '"@
                    + e.entry_type + "'"@,
            )
        } else {
            nothing()
        }) + (match s.url {
            Some(u) => if Some(u) != e.url {
                one(
                    path + ".subject.url"@,
                    "subject.url '"@ + u + "' must equal the entry url '"@ + opt_or_empty(e.url)
                        + "'"@,
                )
            } else {
                nothing()
            },
            None => nothing(),
        }),
    }
}

/// A trust identity whose domain does not align with the publisher domain of
/// an entry identifier that has one.
pub open spec fn identity_binding_errors(identifier: Seq<char>, identity: Seq<char>, path: Seq<char>) -> Seq<DiagView> {
    match spec_publisher_domain(identifier) {
        None => nothing(),
        Some(p) => match spec_identity_domain(identity) {
            Some(d) => if d == p {
                nothing()
            } else {
                one(
                    path + ".identity"@,
                    "trustManifest.identity domain '"@ + d
                        + "' does not align with the entry identifier publisher domain '"@ + p
                        + "'"@,
                )
            },
            None => one(
                path + ".identity"@,
                "trustManifest.identity '"@ + identity
                    + "' has no trust domain to align with the entry identifier publisher domain '"@
                    + p + "'"@,
            ),
        },
    }
}

pub open spec fn depth_message() -> Seq<char> {
    "nested catalog depth exceeds recommended limit of 4"@
}

/// The errors of an entry's own members at `path`.
pub open spec fn entry_member_errors(e: EntryView, path: Seq<char>) -> Seq<DiagView> {
    require_member(e.identifier, path + ".identifier"@, "identifier"@) + require_member(
        e.entry_type,
        path + ".type"@,
        "type"@,
    ) + payload_errors(e, path) + updated_at_errors(e, path) + extension_errors(
        e.extensions,
        path + ".extensions"@,
    ) + publisher_errors(e.publisher, path + ".publisher"@)
}

/// What validating an entry's trust manifest at `path` (the manifest's own
/// path) reports, with its binding to the entry.
pub open spec fn entry_manifest_report(e: EntryView, m: ManifestView, path: Seq<char>, now: int) -> Report {
    Report {
        errors: manifest_errors(m, path) + subject_binding_errors(e, m, path)
            + identity_binding_errors(e.identifier, m.identity, path),
        warnings: expiry_warnings(m, path, now),
    }
}

pub open spec fn identifier_warnings(e: EntryView, path: Seq<char>) -> Seq<DiagView> {
    if find(e.identifier, seq![':']) is None {
        one(path + ".identifier"@, "identifier SHOULD be a URN or URI"@)
    } else {
        nothing()
    }
}

/// What validating an entry at `path`, inside a catalog at nesting `depth`,
/// reports.
pub open spec fn entry_report(e: EntryView, path: Seq<char>, depth: nat, now: int) -> Report
    decreases MAX_NESTING_DEPTH - depth, 0nat, 0nat,
{
    let basic = errors_only(entry_member_errors(e, path));
    let manifest = match e.trust_manifest {
        Some(m) => entry_manifest_report(e, m, path + ".trustManifest"@, now),
        None => empty_report(),
    };
    let nested = if e.entry_type == catalog_media() {
        if depth >= MAX_NESTING_DEPTH {
            errors_only(one(path, depth_message()))
        } else {
            match e.data {
                Some(d) => match spec_catalog_from_json(d) {
                    Ok(c) => catalog_report(c, path + ".data"@, depth + 1, now),
                    Err(msg) => errors_only(
                        one(path + ".data"@, "nested catalog data is not a valid AI Catalog: "@ + msg),
                    ),
                },
                None => empty_report(),
            }
        }
    } else {
        empty_report()
    };
    let identifier_warning = Report { errors: nothing(), warnings: identifier_warnings(e, path) };
    join(join(join(basic, manifest), nested), identifier_warning)
}

/// The duplicate-identifier errors of the entry at index `i`, given the
/// entries before it.
pub open spec fn duplicate_errors(es: Seq<EntryView>, i: int, path: Seq<char>) -> Seq<DiagView> {
    let e = es[i];
    let p = indexed(path, ".entries["@, i as nat);
    match e.version {
        Some(v) => (if exists|j: int|
            0 <= j < i && (#[trigger] es[j]).version is None && es[j].identifier == e.identifier {
            one(
                p + ".identifier"@,
                "identifier '"@ + e.identifier + "' cannot appear with and without version"@,
            )
        } else {
            nothing()
        }) + (if exists|j: int|
            0 <= j < i && (#[trigger] es[j]).version == Some(v) && es[j].identifier
                == e.identifier {
            one(
                p,
                "duplicate (identifier, version) pair: ('"@ + e.identifier + "', '"@ + v + "')"@,
            )
        } else {
            nothing()
        }),
        None => if exists|j: int| 0 <= j < i && (#[trigger] es[j]).identifier == e.identifier {
            one(
                p,
                "duplicate identifier '"@ + e.identifier + "' without version differentiation"@,
            )
        } else {
            nothing()
        },
    }
}

/// What validating the first `n` entries reports.
pub open spec fn entries_report(es: Seq<EntryView>, n: nat, path: Seq<char>, depth: nat, now: int) -> Report
    decreases MAX_NESTING_DEPTH - depth, 1nat, n,
{
    if n == 0 || n > es.len() {
        empty_report()
    } else {
        let i = (n - 1) as nat;
        let r = entry_report(es[i as int], indexed(path, ".entries["@, i), depth, now);
        join(
            entries_report(es, i, path, depth, now),
            Report {
                errors: r.errors + duplicate_errors(es, i as int, path),
                warnings: r.warnings,
            },
        )
    }
}

/// What validating a catalog at `path` and nesting `depth` reports.
pub open spec fn catalog_report(c: CatalogView, path: Seq<char>, depth: nat, now: int) -> Report
    decreases MAX_NESTING_DEPTH - depth, 2nat, 0nat,
{
    let head = errors_only(spec_version_errors(c.spec_version, path + ".specVersion"@));
    let host = match c.host {
        Some(h) => host_report(h, path + ".host"@, now),
        None => empty_report(),
    };
    let ext = errors_only(extension_errors(c.extensions, path + ".extensions"@));
    join(
        join(join(head, host), ext),
        entries_report(c.entries, c.entries.len(), path, depth, now),
    )
}

/// A trust manifest, if there is one, as a list.
pub open spec fn opt_manifest(m: Option<ManifestView>) -> Seq<ManifestView> {
    match m {
        Some(m) => seq![m],
        None => Seq::empty(),
    }
}

/// The trust manifests an entry carries at nesting `depth`: its own, then
/// those of the catalog its data holds when it is a nested catalog within
/// the depth limit.
pub open spec fn entry_manifests(e: EntryView, depth: nat) -> Seq<ManifestView>
    decreases MAX_NESTING_DEPTH - depth, 0nat, 0nat,
{
    opt_manifest(e.trust_manifest) + if e.entry_type == catalog_media() && depth < MAX_NESTING_DEPTH {
        match e.data {
            Some(d) => match spec_catalog_from_json(d) {
                Ok(c) => catalog_manifests(c, depth + 1),
                Err(_) => Seq::empty(),
            },
            None => Seq::empty(),
        }
    } else {
        Seq::empty()
    }
}

/// The trust manifests the first `n` entries carry, entry after entry.
pub open spec fn entries_manifests(es: Seq<EntryView>, n: nat, depth: nat) -> Seq<ManifestView>
    decreases MAX_NESTING_DEPTH - depth, 1nat, n,
{
    if n == 0 || n > es.len() {
        Seq::empty()
    } else {
        entries_manifests(es, (n - 1) as nat, depth) + entry_manifests(es[n - 1], depth)
    }
}

/// The trust manifests of a catalog at nesting `depth`: its host's, then
/// its entries'.
pub open spec fn catalog_manifests(c: CatalogView, depth: nat) -> Seq<ManifestView>
    decreases MAX_NESTING_DEPTH - depth, 2nat, 0nat,
{
    opt_manifest(
        match c.host {
            Some(h) => h.trust_manifest,
            None => None,
        },
    ) + entries_manifests(c.entries, c.entries.len(), depth)
}

/// Every trust manifest in a document: the host's and each entry's, those
/// of nested catalogs included.
pub open spec fn document_manifests(c: CatalogView) -> Seq<ManifestView> {
    catalog_manifests(c, 1)
}

/// The document carries at least one trust manifest, and every one of them
/// is signed.
pub open spec fn is_trusted(c: CatalogView) -> bool {
    let ms = document_manifests(c);
    &&& ms.len() > 0
    &&& forall|i: int| 0 <= i < ms.len() ==> is_signed(#[trigger] ms[i])
}

/// The conformance level of a catalog with the given errors.
pub open spec fn detect_level(c: CatalogView, errors: Seq<DiagView>) -> ConformanceLevel {
    if errors.len() > 0 {
        ConformanceLevel::Minimal
    } else if c.host is None {
        ConformanceLevel::Minimal
    } else if is_trusted(c) {
        ConformanceLevel::Trusted
    } else {
        ConformanceLevel::Discoverable
    }
}

/// The report of validating a whole document, at the given time.
pub open spec fn validation_report(c: CatalogView, now: int) -> Report {
    catalog_report(c, "catalog"@, 1, now)
}

/// The errors of a validation at any time.
pub open spec fn validation_errors(c: CatalogView) -> Seq<DiagView> {
    validation_report(c, 0).errors
}

proof fn lemma_entry_errors_ignore_time(e: EntryView, path: Seq<char>, depth: nat, t1: int, t2: int)
    ensures
        entry_report(e, path, depth, t1).errors == entry_report(e, path, depth, t2).errors,
    decreases MAX_NESTING_DEPTH - depth, 0nat, 0nat,
{
    if e.entry_type == catalog_media() && depth < MAX_NESTING_DEPTH {
        if let Some(d) = e.data {
            if let Ok(c) = spec_catalog_from_json(d) {
                law_errors_ignore_time(c, path + ".data"@, depth + 1, t1, t2);
            }
        }
    }
}

proof fn lemma_entries_errors_ignore_time(es: Seq<EntryView>, n: nat, path: Seq<char>, depth: nat, t1: int, t2: int)
    ensures
        entries_report(es, n, path, depth, t1).errors == entries_report(es, n, path, depth, t2).errors,
    decreases MAX_NESTING_DEPTH - depth, 1nat, n,
{
    if n > 0 && n <= es.len() {
        let i = (n - 1) as nat;
        lemma_entries_errors_ignore_time(es, i, path, depth, t1, t2);
        lemma_entry_errors_ignore_time(es[i as int], indexed(path, ".entries["@, i), depth, t1, t2);
    }
}

/// The errors of validating a catalog do not depend on the time the
/// validation is made at: only the expiry warnings do.
pub proof fn law_errors_ignore_time(c: CatalogView, path: Seq<char>, depth: nat, t1: int, t2: int)
    ensures
        catalog_report(c, path, depth, t1).errors == catalog_report(c, path, depth, t2).errors,
    decreases MAX_NESTING_DEPTH - depth, 2nat, 0nat,
{
    lemma_entries_errors_ignore_time(c.entries, c.entries.len(), path, depth, t1, t2);
}

/// A document at the Trusted level has no errors, has a host, carries at
/// least one trust manifest, and every trust manifest in it (the host's and
/// each entry's, nested catalogs included) is signed with its subject and
/// issuedAt.
pub proof fn law_trusted_requires_signed_manifests(c: CatalogView, errors: Seq<DiagView>)
    requires
        detect_level(c, errors) == ConformanceLevel::Trusted,
    ensures
        errors.len() == 0,
        c.host is Some,
        document_manifests(c).len() > 0,
        forall|m: ManifestView| #[trigger] document_manifests(c).contains(m) ==> is_signed(m),
{
}

/// A single unsigned trust manifest anywhere in the document keeps the
/// whole document below Trusted.
pub proof fn law_unsigned_manifest_blocks_trust(c: CatalogView, errors: Seq<DiagView>, m: ManifestView)
    requires
        document_manifests(c).contains(m),
        !is_signed(m),
    ensures
        detect_level(c, errors) != ConformanceLevel::Trusted,
{
}

/// The manifests of the host and of the top-level entries are among the
/// document's, and so is every manifest of a catalog nested in an entry's
/// data within the depth limit.
pub proof fn law_document_holds_top_level_manifests(c: CatalogView, i: int)
    requires
        0 <= i < c.entries.len(),
    ensures
        c.host matches Some(h) ==> (h.trust_manifest matches Some(m) ==> document_manifests(c).contains(m)),
        forall|m: ManifestView| #[trigger] entry_manifests(c.entries[i], 1).contains(m) ==> document_manifests(c).contains(m),
{
    let es = c.entries;
    let host = opt_manifest(
        match c.host {
            Some(h) => h.trust_manifest,
            None => None,
        },
    );
    if let Some(h) = c.host {
        if let Some(m) = h.trust_manifest {
            assert(document_manifests(c)[0] == m);
        }
    }
    lemma_entries_manifests_contain(es, es.len(), 1, i);
    assert forall|m: ManifestView| #[trigger] entry_manifests(es[i], 1).contains(m) implies document_manifests(c).contains(m) by {
        let all = entries_manifests(es, es.len(), 1);
        let k = choose|k: int| 0 <= k < all.len() && all[k] == m;
        assert(document_manifests(c) == host + all);
        assert(document_manifests(c)[host.len() + k] == m);
    }
}

proof fn lemma_entries_manifests_contain(es: Seq<EntryView>, n: nat, depth: nat, i: int)
    requires
        0 <= i < n <= es.len(),
    ensures
        forall|m: ManifestView| #[trigger] entry_manifests(es[i], depth).contains(m) ==> entries_manifests(es, n, depth).contains(m),
    decreases n,
{
    let prev = entries_manifests(es, (n - 1) as nat, depth);
    let last = entry_manifests(es[n - 1], depth);
    assert(entries_manifests(es, n, depth) == prev + last);
    if i < n - 1 {
        lemma_entries_manifests_contain(es, (n - 1) as nat, depth, i);
    }
    assert forall|m: ManifestView| #[trigger] entry_manifests(es[i], depth).contains(m) implies entries_manifests(es, n, depth).contains(m) by {
        if i < n - 1 {
            let k = choose|k: int| 0 <= k < prev.len() && prev[k] == m;
            assert((prev + last)[k] == m);
        } else {
            let k = choose|k: int| 0 <= k < last.len() && last[k] == m;
            assert((prev + last)[prev.len() + k] == m);
        }
    }
}

/// A document without errors reaches Discoverable or Trusted exactly when it
/// has a host; any error keeps it at Minimal.
pub proof fn law_level_follows_host_and_errors(c: CatalogView, errors: Seq<DiagView>)
    ensures
        errors.len() > 0 ==> detect_level(c, errors) == ConformanceLevel::Minimal,
        errors.len() == 0 ==> (detect_level(c, errors) != ConformanceLevel::Minimal <==> c.host is Some),
{
}


// ---------------------------------------------------------------------
// Attestations must name their type.

proof fn lemma_contains_add<A>(a: Seq<A>, b: Seq<A>, x: A)
    ensures
        a.contains(x) ==> (a + b).contains(x),
        b.contains(x) ==> (a + b).contains(x),
{
    if a.contains(x) {
        let k = choose|k: int| 0 <= k < a.len() && a[k] == x;
        assert((a + b)[k] == x);
    }
    if b.contains(x) {
        let k = choose|k: int| 0 <= k < b.len() && b[k] == x;
        assert((a + b)[a.len() + k] == x);
    }
}

/// The error an attestation without a type gets at `path`.
pub open spec fn missing_type_error(path: Seq<char>) -> DiagView {
    DiagView { path: path + ".type"@, message: "attestation.type is required and must not be empty"@ }
}

proof fn lemma_attestation_type_error(atts: Seq<AttestationView>, path: Seq<char>, k: int)
    requires
        0 <= k < atts.len(),
        atts[k].attestation_type.len() == 0,
    ensures
        attestation_errors(atts, path).contains(missing_type_error(indexed(path, ".attestations["@, k as nat))),
    decreases atts.len(),
{
    let x = missing_type_error(indexed(path, ".attestations["@, k as nat));
    let init = atts.drop_last();
    let i = (atts.len() - 1) as nat;
    let p = indexed(path, ".attestations["@, i);
    let t = require_member(atts.last().attestation_type, p + ".type"@, "attestation.type"@);
    let u = require_member(atts.last().uri, p + ".uri"@, "attestation.uri"@);
    assert(attestation_errors(atts, path) == attestation_errors(init, path) + t + u);
    if k < atts.len() - 1 {
        assert(init[k] == atts[k]);
        lemma_attestation_type_error(init, path, k);
        lemma_contains_add(attestation_errors(init, path), t, x);
    } else {
        assert(atts.last() == atts[k]);
        reveal_strlit("attestation.type");
        reveal_strlit(" is required and must not be empty");
        reveal_strlit("attestation.type is required and must not be empty");
        assert("attestation.type"@ + " is required and must not be empty"@ =~= "attestation.type is required and must not be empty"@);
        assert(t[0] == x);
        lemma_contains_add(attestation_errors(init, path), t, x);
    }
    lemma_contains_add(attestation_errors(init, path) + t, u, x);
}

proof fn lemma_manifest_type_error(m: ManifestView, path: Seq<char>, k: int)
    requires
        0 <= k < m.attestations.len(),
        m.attestations[k].attestation_type.len() == 0,
    ensures
        manifest_errors(m, path).contains(missing_type_error(indexed(path, ".attestations["@, k as nat))),
{
    let x = missing_type_error(indexed(path, ".attestations["@, k as nat));
    lemma_attestation_type_error(m.attestations, path, k);
    let a = extension_errors(m.extensions, path + ".extensions"@) + require_member(
        m.identity,
        path + ".identity"@,
        "trustManifest.identity"@,
    ) + schema_errors(m.trust_schema, path + ".trustSchema"@);
    let b = attestation_errors(m.attestations, path);
    let rest1 = provenance_errors(m.provenance, path);
    let rest2 = substantive_errors(m, path);
    let rest3 = signed_member_errors(m, path);
    let rest4 = timestamp_errors(m, path);
    let rest5 = subject_errors(m.subject, path + ".subject"@);
    lemma_contains_add(a, b, x);
    lemma_contains_add(a + b, rest1, x);
    lemma_contains_add(a + b + rest1, rest2, x);
    lemma_contains_add(a + b + rest1 + rest2, rest3, x);
    lemma_contains_add(a + b + rest1 + rest2 + rest3, rest4, x);
    lemma_contains_add(a + b + rest1 + rest2 + rest3 + rest4, rest5, x);
}

proof fn lemma_entry_manifest_error(e: EntryView, m: ManifestView, path: Seq<char>, depth: nat, now: int, x: DiagView)
    requires
        e.trust_manifest == Some(m),
        manifest_errors(m, path + ".trustManifest"@).contains(x),
    ensures
        entry_report(e, path, depth, now).errors.contains(x),
{
    let mp = path + ".trustManifest"@;
    let me = manifest_errors(m, mp);
    let r = entry_manifest_report(e, m, mp, now);
    lemma_contains_add(me, subject_binding_errors(e, m, mp), x);
    lemma_contains_add(me + subject_binding_errors(e, m, mp), identity_binding_errors(e.identifier, m.identity, mp), x);
    let basic = entry_member_errors(e, path);
    lemma_contains_add(basic, r.errors, x);
    let er = entry_report(e, path, depth, now);
    let nested_errors = er.errors.subrange((basic + r.errors).len() as int, er.errors.len() as int);
    assert(er.errors =~= basic + r.errors + nested_errors) by {
        assert(er.errors.len() >= (basic + r.errors).len());
    }
    lemma_contains_add(basic + r.errors, nested_errors, x);
}

/// Every error of a top-level entry's trust manifest is among the errors
/// validating the catalog reports.
pub proof fn law_entry_manifest_errors_reported(c: CatalogView, now: int, i: int, x: DiagView)
    requires
        0 <= i < c.entries.len(),
        c.entries[i].trust_manifest is Some,
        manifest_errors(
            c.entries[i].trust_manifest->Some_0,
            indexed("catalog"@, ".entries["@, i as nat) + ".trustManifest"@,
        ).contains(x),
    ensures
        validation_report(c, now).errors.contains(x),
{
    let path = "catalog"@;
    let e = c.entries[i];
    let ep = indexed(path, ".entries["@, i as nat);
    lemma_entry_manifest_error(e, e.trust_manifest->Some_0, ep, 1, now, x);
    lemma_entry_error_reported(c.entries, c.entries.len(), path, 1, now, i, x);
    let rep = validation_report(c, now);
    let ents = entries_report(c.entries, c.entries.len(), path, 1, now).errors;
    let before = rep.errors.subrange(0, rep.errors.len() - ents.len());
    assert(rep.errors =~= before + ents) by {
        assert(rep.errors.len() >= ents.len());
    }
    lemma_contains_add(before, ents, x);
}

proof fn lemma_entry_error_reported(es: Seq<EntryView>, n: nat, path: Seq<char>, depth: nat, now: int, i: int, x: DiagView)
    requires
        0 <= i < n <= es.len(),
        entry_report(es[i], indexed(path, ".entries["@, i as nat), depth, now).errors.contains(x),
    ensures
        entries_report(es, n, path, depth, now).errors.contains(x),
    decreases n,
{
    let j = (n - 1) as nat;
    let r = entry_report(es[j as int], indexed(path, ".entries["@, j), depth, now);
    let prev = entries_report(es, j, path, depth, now).errors;
    let here = r.errors + duplicate_errors(es, j as int, path);
    assert(entries_report(es, n, path, depth, now).errors == prev + here);
    if i < j {
        lemma_entry_error_reported(es, j, path, depth, now, i, x);
        lemma_contains_add(prev, here, x);
    } else {
        lemma_contains_add(r.errors, duplicate_errors(es, j as int, path), x);
        lemma_contains_add(prev, here, x);
    }
}

/// Validation requires each attestation of an entry's trust manifest to
/// name its type: one without reports an error at that attestation's
/// `type`, so the catalog is not valid.
pub proof fn law_attestation_type_required(c: CatalogView, now: int, i: int, k: int)
    requires
        0 <= i < c.entries.len(),
        c.entries[i].trust_manifest is Some,
        0 <= k < c.entries[i].trust_manifest->Some_0.attestations.len(),
        c.entries[i].trust_manifest->Some_0.attestations[k].attestation_type.len() == 0,
    ensures
        validation_report(c, now).errors.contains(
            DiagView {
                path: "catalog.entries["@ + decimal(i as nat) + "].trustManifest.attestations["@ + decimal(k as nat)
                    + "].type"@,
                message: "attestation.type is required and must not be empty"@,
            },
        ),
        validation_report(c, now).errors.len() > 0,
{
    let path = "catalog"@;
    let e = c.entries[i];
    let m = e.trust_manifest->Some_0;
    let ep = indexed(path, ".entries["@, i as nat);
    lemma_manifest_type_error(m, ep + ".trustManifest"@, k);
    let x = missing_type_error(indexed(ep + ".trustManifest"@, ".attestations["@, k as nat));
    assert(x == DiagView {
        path: "catalog.entries["@ + decimal(i as nat) + "].trustManifest.attestations["@ + decimal(k as nat) + "].type"@,
        message: "attestation.type is required and must not be empty"@,
    }) by {
        reveal_strlit("catalog");
        reveal_strlit(".entries[");
        reveal_strlit("]");
        reveal_strlit(".trustManifest");
        reveal_strlit(".attestations[");
        reveal_strlit(".type");
        reveal_strlit("catalog.entries[");
        reveal_strlit("].trustManifest.attestations[");
        reveal_strlit("].type");
        assert(x.path =~= "catalog.entries["@ + decimal(i as nat) + "].trustManifest.attestations["@ + decimal(k as nat)
            + "].type"@);
    }
    law_entry_manifest_errors_reported(c, now, i, x);
}


proof fn lemma_attestation_uri_error(atts: Seq<AttestationView>, path: Seq<char>, k: int)
    requires
        0 <= k < atts.len(),
        atts[k].uri.len() == 0,
    ensures
        attestation_errors(atts, path).contains(
            DiagView {
                path: indexed(path, ".attestations["@, k as nat) + ".uri"@,
                message: "attestation.uri is required and must not be empty"@,
            },
        ),
    decreases atts.len(),
{
    let x = DiagView {
        path: indexed(path, ".attestations["@, k as nat) + ".uri"@,
        message: "attestation.uri is required and must not be empty"@,
    };
    let init = atts.drop_last();
    let i = (atts.len() - 1) as nat;
    let p = indexed(path, ".attestations["@, i);
    let t = require_member(atts.last().attestation_type, p + ".type"@, "attestation.type"@);
    let u = require_member(atts.last().uri, p + ".uri"@, "attestation.uri"@);
    assert(attestation_errors(atts, path) == attestation_errors(init, path) + t + u);
    if k < atts.len() - 1 {
        assert(init[k] == atts[k]);
        lemma_attestation_uri_error(init, path, k);
        lemma_contains_add(attestation_errors(init, path), t, x);
        lemma_contains_add(attestation_errors(init, path) + t, u, x);
    } else {
        assert(atts.last() == atts[k]);
        reveal_strlit("attestation.uri");
        reveal_strlit(" is required and must not be empty");
        reveal_strlit("attestation.uri is required and must not be empty");
        assert("attestation.uri"@ + " is required and must not be empty"@ =~= "attestation.uri is required and must not be empty"@);
        assert(u[0] == x);
        lemma_contains_add(attestation_errors(init, path) + t, u, x);
    }
}

/// Validation requires each attestation of an entry's trust manifest to
/// name its URI: one without reports an error at that attestation's
/// `uri`.
pub proof fn law_attestation_uri_required(c: CatalogView, now: int, i: int, k: int)
    requires
        0 <= i < c.entries.len(),
        c.entries[i].trust_manifest is Some,
        0 <= k < c.entries[i].trust_manifest->Some_0.attestations.len(),
        c.entries[i].trust_manifest->Some_0.attestations[k].uri.len() == 0,
    ensures
        validation_report(c, now).errors.contains(
            DiagView {
                path: indexed(indexed("catalog"@, ".entries["@, i as nat) + ".trustManifest"@, ".attestations["@, k as nat)
                    + ".uri"@,
                message: "attestation.uri is required and must not be empty"@,
            },
        ),
{
    let m = c.entries[i].trust_manifest->Some_0;
    let mp = indexed("catalog"@, ".entries["@, i as nat) + ".trustManifest"@;
    let x = DiagView {
        path: indexed(mp, ".attestations["@, k as nat) + ".uri"@,
        message: "attestation.uri is required and must not be empty"@,
    };
    lemma_attestation_uri_error(m.attestations, mp, k);
    let a = extension_errors(m.extensions, mp + ".extensions"@) + require_member(
        m.identity,
        mp + ".identity"@,
        "trustManifest.identity"@,
    ) + schema_errors(m.trust_schema, mp + ".trustSchema"@);
    let b = attestation_errors(m.attestations, mp);
    lemma_contains_add(a, b, x);
    lemma_contains_add(a + b, provenance_errors(m.provenance, mp), x);
    lemma_contains_add(a + b + provenance_errors(m.provenance, mp), substantive_errors(m, mp), x);
    lemma_contains_add(a + b + provenance_errors(m.provenance, mp) + substantive_errors(m, mp), signed_member_errors(m, mp), x);
    lemma_contains_add(
        a + b + provenance_errors(m.provenance, mp) + substantive_errors(m, mp) + signed_member_errors(m, mp),
        timestamp_errors(m, mp),
        x,
    );
    lemma_contains_add(
        a + b + provenance_errors(m.provenance, mp) + substantive_errors(m, mp) + signed_member_errors(m, mp)
            + timestamp_errors(m, mp),
        subject_errors(m.subject, mp + ".subject"@),
        x,
    );
    law_entry_manifest_errors_reported(c, now, i, x);
}

} // verus!
