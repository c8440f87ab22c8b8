//! The AI Catalog document model: catalogs, entries, hosts, publishers and
//! trust manifests, each with a view that contracts speak of.
use vstd::prelude::*;
use crate::json::{JsonMember, JsonValue, JsonView, json_view, object_view};
use vstd::string::*;
use crate::pattern::{CompiledPattern, compile_pattern, pattern_is_match, regex_compiles, regex_matches};
use crate::text::{chars_of, contains, find_exec, opt_view, str_eq, to_lowercase, unicode_lower};

verus! {

pub open spec fn opt_object_view(o: Option<Vec<JsonMember>>) -> Option<Seq<(Seq<char>, JsonView)>> {
    match o {
        Some(m) => Some(object_view(m@)),
        None => None,
    }
}

pub open spec fn opt_json_view(o: Option<JsonValue>) -> Option<JsonView> {
    match o {
        Some(v) => Some(json_view(v)),
        None => None,
    }
}

pub open spec fn strings_view(v: Vec<String>) -> Seq<Seq<char>> {
    v@.map_values(|s: String| s@)
}

/// An AI Catalog document.
pub struct AiCatalog {
    pub spec_version: String,
    pub host: Option<HostInfo>,
    pub entries: Vec<CatalogEntry>,
    pub signature: Option<String>,
    pub extensions: Option<Vec<JsonMember>>,
    pub extra_fields: Vec<JsonMember>,
}

/// The operator of a catalog.
pub struct HostInfo {
    pub display_name: String,
    pub identifier: Option<String>,
    pub documentation_url: Option<String>,
    pub logo_url: Option<String>,
    pub trust_manifest: Option<TrustManifest>,
    pub extra_fields: Vec<JsonMember>,
}

/// One entry of a catalog.
pub struct CatalogEntry {
    pub identifier: String,
    pub display_name: Option<String>,
    pub entry_type: String,
    pub url: Option<String>,
    pub data: Option<JsonValue>,
    pub version: Option<String>,
    pub description: Option<String>,
    pub tags: Vec<String>,
    pub publisher: Option<Publisher>,
    pub trust_manifest: Option<TrustManifest>,
    pub updated_at: Option<String>,
    pub extensions: Option<Vec<JsonMember>>,
    pub extra_fields: Vec<JsonMember>,
}

/// The publisher of an entry.
pub struct Publisher {
    pub identifier: String,
    pub display_name: String,
    pub identity_type: Option<String>,
    pub extra_fields: Vec<JsonMember>,
}

/// Trust and provenance claims about a host or an entry.
pub struct TrustManifest {
    pub identity: String,
    pub identity_type: Option<String>,
    pub trust_schema: Option<TrustSchema>,
    pub attestations: Vec<Attestation>,
    pub provenance: Vec<ProvenanceLink>,
    pub privacy_policy_url: Option<String>,
    pub terms_of_service_url: Option<String>,
    pub subject: Option<Subject>,
    pub issued_at: Option<String>,
    pub expires_at: Option<String>,
    pub signature: Option<String>,
    pub extensions: Option<Vec<JsonMember>>,
    pub extra_fields: Vec<JsonMember>,
}

/// The artifact a signed trust manifest is bound to.
pub struct Subject {
    pub subject_type: String,
    pub digest: String,
    pub url: Option<String>,
    pub extra_fields: Vec<JsonMember>,
}

/// The trust framework a manifest follows.
pub struct TrustSchema {
    pub identifier: String,
    pub version: String,
    pub governance_uri: Option<String>,
    pub verification_methods: Vec<String>,
    pub extra_fields: Vec<JsonMember>,
}

/// An attestation document referenced by a trust manifest.
pub struct Attestation {
    pub attestation_type: String,
    pub uri: String,
    pub digest: Option<String>,
    pub size: Option<u64>,
    pub description: Option<String>,
    pub extra_fields: Vec<JsonMember>,
}

/// A provenance link of a trust manifest.
pub struct ProvenanceLink {
    pub relation: String,
    pub source_id: String,
    pub source_digest: Option<String>,
    pub registry_uri: Option<String>,
    pub statement_uri: Option<String>,
    pub signature_ref: Option<String>,
    pub extra_fields: Vec<JsonMember>,
}

pub struct CatalogView {
    pub spec_version: Seq<char>,
    pub host: Option<HostView>,
    pub entries: Seq<EntryView>,
    pub signature: Option<Seq<char>>,
    pub extensions: Option<Seq<(Seq<char>, JsonView)>>,
    pub extra_fields: Seq<(Seq<char>, JsonView)>,
}

pub struct HostView {
    pub display_name: Seq<char>,
    pub identifier: Option<Seq<char>>,
    pub documentation_url: Option<Seq<char>>,
    pub logo_url: Option<Seq<char>>,
    pub trust_manifest: Option<ManifestView>,
    pub extra_fields: Seq<(Seq<char>, JsonView)>,
}

pub struct EntryView {
    pub identifier: Seq<char>,
    pub display_name: Option<Seq<char>>,
    pub entry_type: Seq<char>,
    pub url: Option<Seq<char>>,
    pub data: Option<JsonView>,
    pub version: Option<Seq<char>>,
    pub description: Option<Seq<char>>,
    pub tags: Seq<Seq<char>>,
    pub publisher: Option<PublisherView>,
    pub trust_manifest: Option<ManifestView>,
    pub updated_at: Option<Seq<char>>,
    pub extensions: Option<Seq<(Seq<char>, JsonView)>>,
    pub extra_fields: Seq<(Seq<char>, JsonView)>,
}

pub struct PublisherView {
    pub identifier: Seq<char>,
    pub display_name: Seq<char>,
    pub identity_type: Option<Seq<char>>,
    pub extra_fields: Seq<(Seq<char>, JsonView)>,
}

pub struct ManifestView {
    pub identity: Seq<char>,
    pub identity_type: Option<Seq<char>>,
    pub trust_schema: Option<SchemaView>,
    pub attestations: Seq<AttestationView>,
    pub provenance: Seq<ProvenanceView>,
    pub privacy_policy_url: Option<Seq<char>>,
    pub terms_of_service_url: Option<Seq<char>>,
    pub subject: Option<SubjectView>,
    pub issued_at: Option<Seq<char>>,
    pub expires_at: Option<Seq<char>>,
    pub signature: Option<Seq<char>>,
    pub extensions: Option<Seq<(Seq<char>, JsonView)>>,
    pub extra_fields: Seq<(Seq<char>, JsonView)>,
}

pub struct SubjectView {
    pub subject_type: Seq<char>,
    pub digest: Seq<char>,
    pub url: Option<Seq<char>>,
    pub extra_fields: Seq<(Seq<char>, JsonView)>,
}

pub struct SchemaView {
    pub identifier: Seq<char>,
    pub version: Seq<char>,
    pub governance_uri: Option<Seq<char>>,
    pub verification_methods: Seq<Seq<char>>,
    pub extra_fields: Seq<(Seq<char>, JsonView)>,
}

pub struct AttestationView {
    pub attestation_type: Seq<char>,
    pub uri: Seq<char>,
    pub digest: Option<Seq<char>>,
    pub size: Option<u64>,
    pub description: Option<Seq<char>>,
    pub extra_fields: Seq<(Seq<char>, JsonView)>,
}

pub struct ProvenanceView {
    pub relation: Seq<char>,
    pub source_id: Seq<char>,
    pub source_digest: Option<Seq<char>>,
    pub registry_uri: Option<Seq<char>>,
    pub statement_uri: Option<Seq<char>>,
    pub signature_ref: Option<Seq<char>>,
    pub extra_fields: Seq<(Seq<char>, JsonView)>,
}

impl View for Subject {
    type V = SubjectView;

    open spec fn view(&self) -> SubjectView {
        SubjectView {
            subject_type: self.subject_type@,
            digest: self.digest@,
            url: opt_view(self.url),
            extra_fields: object_view(self.extra_fields@),
        }
    }
}

impl View for TrustSchema {
    type V = SchemaView;

    open spec fn view(&self) -> SchemaView {
        SchemaView {
            identifier: self.identifier@,
            version: self.version@,
            governance_uri: opt_view(self.governance_uri),
            verification_methods: strings_view(self.verification_methods),
            extra_fields: object_view(self.extra_fields@),
        }
    }
}

impl View for Attestation {
    type V = AttestationView;

    open spec fn view(&self) -> AttestationView {
        AttestationView {
            attestation_type: self.attestation_type@,
            uri: self.uri@,
            digest: opt_view(self.digest),
            size: self.size,
            description: opt_view(self.description),
            extra_fields: object_view(self.extra_fields@),
        }
    }
}

impl View for ProvenanceLink {
    type V = ProvenanceView;

    open spec fn view(&self) -> ProvenanceView {
        ProvenanceView {
            relation: self.relation@,
            source_id: self.source_id@,
            source_digest: opt_view(self.source_digest),
            registry_uri: opt_view(self.registry_uri),
            statement_uri: opt_view(self.statement_uri),
            signature_ref: opt_view(self.signature_ref),
            extra_fields: object_view(self.extra_fields@),
        }
    }
}

pub open spec fn opt_schema_view(o: Option<TrustSchema>) -> Option<SchemaView> {
    match o {
        Some(s) => Some(s@),
        None => None,
    }
}

pub open spec fn opt_subject_view(o: Option<Subject>) -> Option<SubjectView> {
    match o {
        Some(s) => Some(s@),
        None => None,
    }
}

impl View for TrustManifest {
    type V = ManifestView;

    open spec fn view(&self) -> ManifestView {
        ManifestView {
            identity: self.identity@,
            identity_type: opt_view(self.identity_type),
            trust_schema: opt_schema_view(self.trust_schema),
            attestations: self.attestations@.map_values(|a: Attestation| a@),
            provenance: self.provenance@.map_values(|p: ProvenanceLink| p@),
            privacy_policy_url: opt_view(self.privacy_policy_url),
            terms_of_service_url: opt_view(self.terms_of_service_url),
            subject: opt_subject_view(self.subject),
            issued_at: opt_view(self.issued_at),
            expires_at: opt_view(self.expires_at),
            signature: opt_view(self.signature),
            extensions: opt_object_view(self.extensions),
            extra_fields: object_view(self.extra_fields@),
        }
    }
}

pub open spec fn opt_manifest_view(o: Option<TrustManifest>) -> Option<ManifestView> {
    match o {
        Some(m) => Some(m@),
        None => None,
    }
}

impl View for Publisher {
    type V = PublisherView;

    open spec fn view(&self) -> PublisherView {
        PublisherView {
            identifier: self.identifier@,
            display_name: self.display_name@,
            identity_type: opt_view(self.identity_type),
            extra_fields: object_view(self.extra_fields@),
        }
    }
}

pub open spec fn opt_publisher_view(o: Option<Publisher>) -> Option<PublisherView> {
    match o {
        Some(p) => Some(p@),
        None => None,
    }
}

impl View for HostInfo {
    type V = HostView;

    open spec fn view(&self) -> HostView {
        HostView {
            display_name: self.display_name@,
            identifier: opt_view(self.identifier),
            documentation_url: opt_view(self.documentation_url),
            logo_url: opt_view(self.logo_url),
            trust_manifest: opt_manifest_view(self.trust_manifest),
            extra_fields: object_view(self.extra_fields@),
        }
    }
}

pub open spec fn opt_host_view(o: Option<HostInfo>) -> Option<HostView> {
    match o {
        Some(h) => Some(h@),
        None => None,
    }
}

impl View for CatalogEntry {
    type V = EntryView;

    open spec fn view(&self) -> EntryView {
        EntryView {
            identifier: self.identifier@,
            display_name: opt_view(self.display_name),
            entry_type: self.entry_type@,
            url: opt_view(self.url),
            data: opt_json_view(self.data),
            version: opt_view(self.version),
            description: opt_view(self.description),
            tags: strings_view(self.tags),
            publisher: opt_publisher_view(self.publisher),
            trust_manifest: opt_manifest_view(self.trust_manifest),
            updated_at: opt_view(self.updated_at),
            extensions: opt_object_view(self.extensions),
            extra_fields: object_view(self.extra_fields@),
        }
    }
}

impl View for AiCatalog {
    type V = CatalogView;

    open spec fn view(&self) -> CatalogView {
        CatalogView {
            spec_version: self.spec_version@,
            host: opt_host_view(self.host),
            entries: self.entries@.map_values(|e: CatalogEntry| e@),
            signature: opt_view(self.signature),
            extensions: opt_object_view(self.extensions),
            extra_fields: object_view(self.extra_fields@),
        }
    }
}

/// The position of the first entry with the given identifier.
pub open spec fn first_with_identifier(es: Seq<EntryView>, id: Seq<char>) -> Option<int> {
    if exists|i: int| 0 <= i < es.len() && (#[trigger] es[i]).identifier == id {
        Some(choose|i: int| 0 <= i < es.len() && (#[trigger] es[i]).identifier == id && forall|j: int| 0 <= j < i ==> (#[trigger] es[j]).identifier != id)
    } else {
        None
    }
}

/// Whether an entry matches a lowercased query: the query occurs in the
/// lowercased identifier, display name, description or one of the tags.
pub open spec fn entry_matches_query(e: EntryView, q: Seq<char>) -> bool {
    ||| contains(unicode_lower(e.identifier), q)
    ||| (e.display_name matches Some(s) && contains(unicode_lower(s), q))
    ||| (e.description matches Some(s) && contains(unicode_lower(s), q))
    ||| exists|k: int| 0 <= k < e.tags.len() && contains(unicode_lower(#[trigger] e.tags[k]), q)
}

/// The entries that match a lowercased query, in order.
pub open spec fn query_results(es: Seq<EntryView>, q: Seq<char>) -> Seq<EntryView>
    decreases es.len(),
{
    if es.len() == 0 {
        Seq::empty()
    } else {
        query_results(es.drop_last(), q) + if entry_matches_query(es.last(), q) {
            seq![es.last()]
        } else {
            Seq::empty()
        }
    }
}

/// Whether a pattern matches an entry's identifier, display name,
/// description or one of its tags.
pub open spec fn entry_matches_pattern(e: EntryView, pattern: Seq<char>) -> bool {
    ||| regex_matches(pattern, e.identifier)
    ||| (e.display_name matches Some(s) && regex_matches(pattern, s))
    ||| (e.description matches Some(s) && regex_matches(pattern, s))
    ||| exists|k: int| 0 <= k < e.tags.len() && regex_matches(pattern, #[trigger] e.tags[k])
}

/// The entries a pattern matches, in order.
pub open spec fn pattern_results(es: Seq<EntryView>, pattern: Seq<char>) -> Seq<EntryView>
    decreases es.len(),
{
    if es.len() == 0 {
        Seq::empty()
    } else {
        pattern_results(es.drop_last(), pattern) + if entry_matches_pattern(es.last(), pattern) {
            seq![es.last()]
        } else {
            Seq::empty()
        }
    }
}

proof fn lemma_query_results_members(es: Seq<EntryView>, q: Seq<char>, x: EntryView)
    ensures
        query_results(es, q).contains(x) <==> es.contains(x) && entry_matches_query(x, q),
    decreases es.len(),
{
    if es.len() > 0 {
        let init = es.drop_last();
        lemma_query_results_members(init, q, x);
        let tail = if entry_matches_query(es.last(), q) { seq![es.last()] } else { Seq::<EntryView>::empty() };
        let r0 = query_results(init, q);
        assert(query_results(es, q) == r0 + tail);
        if (r0 + tail).contains(x) {
            let k = choose|k: int| 0 <= k < (r0 + tail).len() && (r0 + tail)[k] == x;
            if k < r0.len() {
                assert(r0[k] == x);
                let a = choose|a: int| 0 <= a < init.len() && init[a] == x;
                assert(es[a] == init[a]);
            } else {
                assert(es[es.len() - 1] == x);
            }
        }
        if es.contains(x) && entry_matches_query(x, q) {
            let a = choose|a: int| 0 <= a < es.len() && es[a] == x;
            if a < es.len() - 1 {
                assert(init[a] == es[a]);
                assert(init.contains(x));
                let k = choose|k: int| 0 <= k < r0.len() && r0[k] == x;
                assert((r0 + tail)[k] == x);
            } else {
                assert(es.last() == x);
                assert((r0 + tail)[r0.len() as int] == x);
            }
        }
    }
}

/// Searching by text finds an entry exactly when the query, lowercased,
/// occurs in the entry's lowercased identifier, display name, description
/// or one of its tags; every result is an entry of the catalog, and an
/// entry in none of those places is never a result.
pub proof fn law_search_by_text(es: Seq<EntryView>, query: Seq<char>, x: EntryView)
    ensures
        es.contains(x) && contains(unicode_lower(x.identifier), unicode_lower(query)) ==> query_results(
            es,
            unicode_lower(query),
        ).contains(x),
        es.contains(x) && (x.display_name matches Some(s) && contains(unicode_lower(s), unicode_lower(query)))
            ==> query_results(es, unicode_lower(query)).contains(x),
        es.contains(x) && (x.description matches Some(s) && contains(unicode_lower(s), unicode_lower(query)))
            ==> query_results(es, unicode_lower(query)).contains(x),
        es.contains(x) && (exists|k: int| 0 <= k < x.tags.len() && contains(unicode_lower(#[trigger] x.tags[k]), unicode_lower(query)))
            ==> query_results(es, unicode_lower(query)).contains(x),
        query_results(es, unicode_lower(query)).contains(x) ==> es.contains(x) && {
            ||| contains(unicode_lower(x.identifier), unicode_lower(query))
            ||| (x.display_name matches Some(s) && contains(unicode_lower(s), unicode_lower(query)))
            ||| (x.description matches Some(s) && contains(unicode_lower(s), unicode_lower(query)))
            ||| exists|k: int| 0 <= k < x.tags.len() && contains(unicode_lower(#[trigger] x.tags[k]), unicode_lower(query))
        },
{
    lemma_query_results_members(es, unicode_lower(query), x);
}

proof fn lemma_pattern_results_members(es: Seq<EntryView>, p: Seq<char>, x: EntryView)
    ensures
        pattern_results(es, p).contains(x) <==> es.contains(x) && entry_matches_pattern(x, p),
    decreases es.len(),
{
    if es.len() > 0 {
        let init = es.drop_last();
        lemma_pattern_results_members(init, p, x);
        let tail = if entry_matches_pattern(es.last(), p) { seq![es.last()] } else { Seq::<EntryView>::empty() };
        let r0 = pattern_results(init, p);
        assert(pattern_results(es, p) == r0 + tail);
        if (r0 + tail).contains(x) {
            let k = choose|k: int| 0 <= k < (r0 + tail).len() && (r0 + tail)[k] == x;
            if k < r0.len() {
                assert(r0[k] == x);
                let a = choose|a: int| 0 <= a < init.len() && init[a] == x;
                assert(es[a] == init[a]);
            } else {
                assert(es[es.len() - 1] == x);
            }
        }
        if es.contains(x) && entry_matches_pattern(x, p) {
            let a = choose|a: int| 0 <= a < es.len() && es[a] == x;
            if a < es.len() - 1 {
                assert(init[a] == es[a]);
                assert(init.contains(x));
                let k = choose|k: int| 0 <= k < r0.len() && r0[k] == x;
                assert((r0 + tail)[k] == x);
            } else {
                assert(es.last() == x);
                assert((r0 + tail)[r0.len() as int] == x);
            }
        }
    }
}

/// Searching by a regular expression finds an entry exactly when the
/// pattern matches its identifier, display name, description or one of its
/// tags; every result is an entry of the catalog.
pub proof fn law_search_by_pattern(es: Seq<EntryView>, pattern: Seq<char>, x: EntryView)
    ensures
        es.contains(x) && regex_matches(pattern, x.identifier) ==> pattern_results(es, pattern).contains(x),
        es.contains(x) && (x.display_name matches Some(s) && regex_matches(pattern, s)) ==> pattern_results(
            es,
            pattern,
        ).contains(x),
        es.contains(x) && (x.description matches Some(s) && regex_matches(pattern, s)) ==> pattern_results(
            es,
            pattern,
        ).contains(x),
        es.contains(x) && (exists|k: int| 0 <= k < x.tags.len() && regex_matches(pattern, #[trigger] x.tags[k]))
            ==> pattern_results(es, pattern).contains(x),
        pattern_results(es, pattern).contains(x) ==> es.contains(x) && {
            ||| regex_matches(pattern, x.identifier)
            ||| (x.display_name matches Some(s) && regex_matches(pattern, s))
            ||| (x.description matches Some(s) && regex_matches(pattern, s))
            ||| exists|k: int| 0 <= k < x.tags.len() && regex_matches(pattern, #[trigger] x.tags[k])
        },
{
    lemma_pattern_results_members(es, pattern, x);
}

pub open spec fn ref_views(v: Seq<&CatalogEntry>) -> Seq<EntryView> {
    v.map_values(|e: &CatalogEntry| e@)
}

/// Errors of the catalog model.
#[derive(Debug)]
pub enum Error {
    /// A search pattern that is not a valid regular expression; holds the
    /// `regex` crate's description of the problem.
    Regex(String),
}

fn lower_contains(s: &str, q: &[char]) -> (r: bool)
    ensures
        r == contains(unicode_lower(s@), q@),
{
    let l = to_lowercase(s);
    let chars = chars_of(l.as_str());
    find_exec(chars.as_slice(), q).is_some()
}

fn entry_matches(e: &CatalogEntry, q: &[char]) -> (r: bool)
    ensures
        r == entry_matches_query(e@, q@),
{
    if lower_contains(e.identifier.as_str(), q) {
        return true;
    }
    match &e.display_name {
        Some(s) => {
            if lower_contains(s.as_str(), q) {
                return true;
            }
        },
        None => {},
    }
    match &e.description {
        Some(s) => {
            if lower_contains(s.as_str(), q) {
                return true;
            }
        },
        None => {},
    }
    let ghost tags = e@.tags;
    let mut k: usize = 0;
    while k < e.tags.len()
        invariant
            tags == strings_view(e.tags),
            tags.len() == e.tags@.len(),
            k <= e.tags@.len(),
            forall|j: int| 0 <= j < k ==> !contains(unicode_lower(#[trigger] tags[j]), q@),
        decreases e.tags.len() - k,
    {
        assert(tags[k as int] == e.tags@[k as int]@);
        if lower_contains(e.tags[k].as_str(), q) {
            assert(contains(unicode_lower(tags[k as int]), q@));
            assert(tags == e@.tags);
            assert(0 <= k < e@.tags.len() && contains(unicode_lower(e@.tags[k as int]), q@));
            return true;
        }
        k = k + 1;
    }
    false
}

fn entry_matches_compiled(e: &CatalogEntry, re: &CompiledPattern) -> (r: bool)
    ensures
        r == entry_matches_pattern(e@, re.pattern_view()),
{
    if pattern_is_match(re, e.identifier.as_str()) {
        return true;
    }
    match &e.display_name {
        Some(s) => {
            if pattern_is_match(re, s.as_str()) {
                return true;
            }
        },
        None => {},
    }
    match &e.description {
        Some(s) => {
            if pattern_is_match(re, s.as_str()) {
                return true;
            }
        },
        None => {},
    }
    let ghost tags = e@.tags;
    let mut k: usize = 0;
    while k < e.tags.len()
        invariant
            tags == strings_view(e.tags),
            tags.len() == e.tags@.len(),
            k <= e.tags@.len(),
            forall|j: int| 0 <= j < k ==> !regex_matches(re.pattern_view(), #[trigger] tags[j]),
        decreases e.tags.len() - k,
    {
        assert(tags[k as int] == e.tags@[k as int]@);
        if pattern_is_match(re, e.tags[k].as_str()) {
            assert(regex_matches(re.pattern_view(), tags[k as int]));
            assert(tags == e@.tags);
            assert(0 <= k < e@.tags.len() && regex_matches(re.pattern_view(), e@.tags[k as int]));
            return true;
        }
        k = k + 1;
    }
    false
}

impl AiCatalog {
    /// The first entry whose identifier is exactly `id`.
    pub fn get_by_id(&self, id: &str) -> (r: Option<&CatalogEntry>)
        ensures
            match first_with_identifier(self@.entries, id@) {
                Some(i) => r matches Some(e) && e@ == self@.entries[i],
                None => r is None,
            },
    {
        let ghost es = self@.entries;
        let mut i: usize = 0;
        while i < self.entries.len()
            invariant
                es == self@.entries,
                es.len() == self.entries@.len(),
                i <= self.entries@.len(),
                forall|j: int| 0 <= j < i ==> (#[trigger] es[j]).identifier != id@,
            decreases self.entries.len() - i,
        {
            assert(es[i as int] == self.entries@[i as int]@);
            if str_eq(self.entries[i].identifier.as_str(), id) {
                proof {
                    let k = first_with_identifier(es, id@)->0;
                    assert(es[i as int].identifier == id@);
                    if k < i {
                        assert(es[k].identifier != id@);
                    } else if k > i {
                    }
                }
                return Some(&self.entries[i]);
            }
            i = i + 1;
        }
        None
    }

    /// The entries in which `query` occurs, case-insensitively, in the
    /// identifier, display name, description or a tag.
    pub fn search(&self, query: &str) -> (r: Vec<&CatalogEntry>)
        ensures
            ref_views(r@) == query_results(self@.entries, unicode_lower(query@)),
            forall|i: int|
                0 <= i < self@.entries.len() && {
                    let e = #[trigger] self@.entries[i];
                    let q = unicode_lower(query@);
                    ||| contains(unicode_lower(e.identifier), q)
                    ||| (e.display_name matches Some(s) && contains(unicode_lower(s), q))
                    ||| (e.description matches Some(s) && contains(unicode_lower(s), q))
                    ||| exists|k: int| 0 <= k < e.tags.len() && contains(unicode_lower(#[trigger] e.tags[k]), q)
                } ==> ref_views(r@).contains(self@.entries[i]),
            forall|j: int|
                0 <= j < r@.len() ==> self@.entries.contains(#[trigger] ref_views(r@)[j]) && {
                    let e = ref_views(r@)[j];
                    let q = unicode_lower(query@);
                    ||| contains(unicode_lower(e.identifier), q)
                    ||| (e.display_name matches Some(s) && contains(unicode_lower(s), q))
                    ||| (e.description matches Some(s) && contains(unicode_lower(s), q))
                    ||| exists|k: int| 0 <= k < e.tags.len() && contains(unicode_lower(#[trigger] e.tags[k]), q)
                },
    {
        let ql = to_lowercase(query);
        let q = chars_of(ql.as_str());
        let ghost es = self@.entries;
        let mut out: Vec<&CatalogEntry> = Vec::new();
        let mut i: usize = 0;
        assert(es.take(0) =~= Seq::<EntryView>::empty());
        assert(ref_views(out@) =~= Seq::<EntryView>::empty());
        while i < self.entries.len()
            invariant
                es == self@.entries,
                es.len() == self.entries@.len(),
                q@ == unicode_lower(query@),
                i <= self.entries@.len(),
                ref_views(out@) == query_results(es.take(i as int), q@),
            decreases self.entries.len() - i,
        {
            assert(es.take(i + 1).drop_last() =~= es.take(i as int));
            assert(es.take(i + 1).last() == self.entries@[i as int]@);
            let e = &self.entries[i];
            if entry_matches(e, q.as_slice()) {
                let ghost prev = ref_views(out@);
                out.push(e);
                assert(ref_views(out@) =~= prev + seq![e@]);
            } else {
                assert(ref_views(out@) =~= ref_views(out@) + Seq::<EntryView>::empty());
            }
            i = i + 1;
        }
        assert(es.take(es.len() as int) =~= es);
        proof {
            assert forall|i: int| 0 <= i < es.len() && {
                let e = #[trigger] es[i];
                let q = unicode_lower(query@);
                ||| contains(unicode_lower(e.identifier), q)
                ||| (e.display_name matches Some(s) && contains(unicode_lower(s), q))
                ||| (e.description matches Some(s) && contains(unicode_lower(s), q))
                ||| exists|k: int| 0 <= k < e.tags.len() && contains(unicode_lower(#[trigger] e.tags[k]), q)
            } implies ref_views(out@).contains(es[i]) by {
                assert(es.contains(es[i]));
                law_search_by_text(es, query@, es[i]);
            }
            assert forall|j: int| 0 <= j < out@.len() implies es.contains(#[trigger] ref_views(out@)[j]) && {
                let e = ref_views(out@)[j];
                let q = unicode_lower(query@);
                ||| contains(unicode_lower(e.identifier), q)
                ||| (e.display_name matches Some(s) && contains(unicode_lower(s), q))
                ||| (e.description matches Some(s) && contains(unicode_lower(s), q))
                ||| exists|k: int| 0 <= k < e.tags.len() && contains(unicode_lower(#[trigger] e.tags[k]), q)
            } by {
                assert(ref_views(out@).contains(ref_views(out@)[j]));
                law_search_by_text(es, query@, ref_views(out@)[j]);
            }
        }
        out
    }

    /// The entries in whose identifier, display name, description or a tag
    /// the regular expression `pattern` matches; an error when `pattern` is
    /// not a valid regular expression.
    pub fn search_by_regex(&self, pattern: &str) -> (r: Result<Vec<&CatalogEntry>, Error>)
        ensures
            r is Ok <==> regex_compiles(pattern@),
            r matches Ok(v) ==> ref_views(v@) == pattern_results(self@.entries, pattern@),
            r matches Ok(v) ==> forall|i: int|
                0 <= i < self@.entries.len() && {
                    let e = #[trigger] self@.entries[i];
                    ||| regex_matches(pattern@, e.identifier)
                    ||| (e.display_name matches Some(s) && regex_matches(pattern@, s))
                    ||| (e.description matches Some(s) && regex_matches(pattern@, s))
                    ||| exists|k: int| 0 <= k < e.tags.len() && regex_matches(pattern@, #[trigger] e.tags[k])
                } ==> ref_views(v@).contains(self@.entries[i]),
            r matches Ok(v) ==> forall|j: int|
                0 <= j < v@.len() ==> self@.entries.contains(#[trigger] ref_views(v@)[j]) && {
                    let e = ref_views(v@)[j];
                    ||| regex_matches(pattern@, e.identifier)
                    ||| (e.display_name matches Some(s) && regex_matches(pattern@, s))
                    ||| (e.description matches Some(s) && regex_matches(pattern@, s))
                    ||| exists|k: int| 0 <= k < e.tags.len() && regex_matches(pattern@, #[trigger] e.tags[k])
                },
    {
        let re = match compile_pattern(pattern) {
            Ok(re) => re,
            Err(msg) => {
                return Err(Error::Regex(msg));
            },
        };
        let ghost es = self@.entries;
        let mut out: Vec<&CatalogEntry> = Vec::new();
        let mut i: usize = 0;
        assert(es.take(0) =~= Seq::<EntryView>::empty());
        assert(ref_views(out@) =~= Seq::<EntryView>::empty());
        while i < self.entries.len()
            invariant
                es == self@.entries,
                es.len() == self.entries@.len(),
                re.pattern_view() == pattern@,
                i <= self.entries@.len(),
                ref_views(out@) == pattern_results(es.take(i as int), pattern@),
            decreases self.entries.len() - i,
        {
            assert(es.take(i + 1).drop_last() =~= es.take(i as int));
            assert(es.take(i + 1).last() == self.entries@[i as int]@);
            let e = &self.entries[i];
            if entry_matches_compiled(e, &re) {
                let ghost prev = ref_views(out@);
                out.push(e);
                assert(ref_views(out@) =~= prev + seq![e@]);
            } else {
                assert(ref_views(out@) =~= ref_views(out@) + Seq::<EntryView>::empty());
            }
            i = i + 1;
        }
        assert(es.take(es.len() as int) =~= es);
        proof {
            assert forall|i: int| 0 <= i < es.len() && {
                let e = #[trigger] es[i];
                ||| regex_matches(pattern@, e.identifier)
                ||| (e.display_name matches Some(s) && regex_matches(pattern@, s))
                ||| (e.description matches Some(s) && regex_matches(pattern@, s))
                ||| exists|k: int| 0 <= k < e.tags.len() && regex_matches(pattern@, #[trigger] e.tags[k])
            } implies ref_views(out@).contains(es[i]) by {
                assert(es.contains(es[i]));
                law_search_by_pattern(es, pattern@, es[i]);
            }
            assert forall|j: int| 0 <= j < out@.len() implies es.contains(#[trigger] ref_views(out@)[j]) && {
                let e = ref_views(out@)[j];
                ||| regex_matches(pattern@, e.identifier)
                ||| (e.display_name matches Some(s) && regex_matches(pattern@, s))
                ||| (e.description matches Some(s) && regex_matches(pattern@, s))
                ||| exists|k: int| 0 <= k < e.tags.len() && regex_matches(pattern@, #[trigger] e.tags[k])
            } by {
                assert(ref_views(out@).contains(ref_views(out@)[j]));
                law_search_by_pattern(es, pattern@, ref_views(out@)[j]);
            }
        }
        Ok(out)
    }
}

impl CatalogEntry {
    /// Whether the entry's data is itself a catalog.
    pub fn is_nested_catalog(&self) -> (r: bool)
        ensures
            r == (self@.entry_type == "application/ai-catalog+json"@),
    {
        str_eq(self.entry_type.as_str(), "application/ai-catalog+json")
    }
}

} // verus!
