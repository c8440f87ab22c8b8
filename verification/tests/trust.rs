use ai_catalog::analysis::{CatalogTrustReport, Severity};
use ai_catalog::canonical::{canonicalize_catalog, canonicalize_trust_manifest};
use ai_catalog::digest::{DigestError, ParsedDigest, content_hash, verify_digest};
use ai_catalog::json::{JsonMember, JsonValue};
use ai_catalog::model::AiCatalog;
use ai_catalog::schema::catalog_from_json;
use ai_catalog::trust::{analyze_catalog, analyze_catalog_as_of};

fn to_json(value: &serde_json::Value) -> JsonValue {
    match value {
        serde_json::Value::Null => JsonValue::Null,
        serde_json::Value::Bool(b) => JsonValue::Bool(*b),
        serde_json::Value::Number(n) => JsonValue::Number(n.to_string()),
        serde_json::Value::String(s) => JsonValue::Str(s.clone()),
        serde_json::Value::Array(items) => JsonValue::Array(items.iter().map(to_json).collect()),
        serde_json::Value::Object(members) => JsonValue::Object(
            members
                .iter()
                .map(|(key, value)| JsonMember { key: key.clone(), value: to_json(value) })
                .collect(),
        ),
    }
}

fn parse_catalog(document: &str) -> AiCatalog {
    let value: serde_json::Value = serde_json::from_str(document).expect("catalog should parse");
    catalog_from_json(&to_json(&value)).expect("catalog should parse")
}

fn analyze(document: &str) -> CatalogTrustReport {
    analyze_catalog(&parse_catalog(document))
}

fn contains_finding(report: &CatalogTrustReport, severity: Severity, message: &str) -> bool {
    report
        .findings
        .iter()
        .any(|finding| finding.severity == severity && finding.message.contains(message))
}

fn with_algorithm(hex: &str, algorithm: &str) -> String {
    format!("{algorithm}:{hex}")
}

#[test]
fn rejects_signatures_that_cannot_establish_third_party_trust() {
    for (algorithm, signature) in [
        ("none", "eyJhbGciOiJub25lIn0..c2ln"),
        ("HS256", "eyJhbGciOiJIUzI1NiJ9..c2ln"),
    ] {
        let report = analyze(&format!(
            r#"{{
              "specVersion": "1.0",
              "entries": [
                {{
                  "identifier": "urn:example:weak",
                  "type": "application/json",
                  "url": "https://example.com/a.json",
                  "trustManifest": {{
                    "identity": "urn:example:weak",
                    "issuedAt": "2026-01-01T00:00:00Z",
                    "signature": "{signature}",
                    "subject": {{
                      "type": "application/json",
                      "digest": "sha256:9f86d081884c7d659a2feaa0c55ad015a3bf4f1b2b0b822cd15d6c15b0f00a08"
                    }}
                  }}
                }}
              ]
            }}"#
        ));

        assert!(
            contains_finding(&report, Severity::Error, "must be rejected"),
            "expected {algorithm} to be rejected"
        );
    }
}

#[test]
fn analyzes_manifests_inside_nested_catalogs() {
    let manifest = r#"{
        "identity": "did:web:acme.com",
        "signature": "eyJhbGciOiJub25lIn0..c2ln",
        "issuedAt": "2026-01-01T00:00:00Z",
        "subject": {"type": "application/parquet", "digest": "md5:abc", "url": "https://acme.com/d.parquet"}
    }"#;
    let report = analyze(&format!(
        r#"{{"specVersion":"1.0","entries":[
            {{"identifier":"urn:air:acme.com:catalog:c","type":"application/ai-catalog+json","data":{{
                "specVersion":"1.0","entries":[
                    {{"identifier":"urn:air:acme.com:data:d","type":"application/parquet","url":"https://acme.com/d.parquet","trustManifest":{manifest}}}
                ]}}}}
        ]}}"#
    ));

    assert!(
        contains_finding(&report, Severity::Error, "'none'"),
        "nested forbidden algorithm went unreported: {:?}",
        report.findings
    );
    assert!(
        contains_finding(&report, Severity::Error, "weaker than SHA-256"),
        "nested weak digest went unreported: {:?}",
        report.findings
    );
    assert!(
        report
            .entries
            .iter()
            .any(|entry| entry.path == "catalog.entries[0].data.entries[0].trustManifest"),
        "nested manifest missing from the report: {:?}",
        report.entries.iter().map(|e| &e.path).collect::<Vec<_>>()
    );
}

#[test]
fn stops_descending_at_the_recommended_depth_limit() {
    let mut document = r#"{"specVersion":"1.0","entries":[{"identifier":"urn:air:acme.com:data:d","type":"application/parquet","url":"https://acme.com/d.parquet","trustManifest":{"identity":"did:web:acme.com","signature":"eyJhbGciOiJub25lIn0..c2ln","issuedAt":"2026-01-01T00:00:00Z","subject":{"type":"application/parquet","digest":"sha256:9f86d081884c7d659a2feaa0c55ad015a3bf4f1b2b0b822cd15d6c15b0f00a08","url":"https://acme.com/d.parquet"}}}]}"#.to_owned();

    for _ in 0..5 {
        document = format!(
            r#"{{"specVersion":"1.0","entries":[{{"identifier":"urn:air:acme.com:catalog:c","type":"application/ai-catalog+json","data":{document}}}]}}"#
        );
    }

    let report = analyze(&document);

    assert!(
        report.findings.is_empty(),
        "recursion passed the depth limit: {:?}",
        report.findings
    );
}

#[test]
fn analyzes_the_catalog_level_signature() {
    let report = analyze(
        r#"{
          "specVersion": "1.0",
          "entries": [],
          "signature": "eyJhbGciOiJIUzI1NiJ9..c2ln"
        }"#,
    );

    assert!(report.has_signature);
    assert!(
        report
            .findings
            .iter()
            .any(|finding| finding.severity == Severity::Error && finding.path == "catalog.signature"),
        "catalog signature not analyzed: {:?}",
        report.findings
    );
}

#[test]
fn reports_malformed_and_expired_manifest_timestamps() {
    let report = analyze(
        r#"{
          "specVersion": "1.0",
          "entries": [
            {
              "identifier": "urn:example:bad-issued",
              "type": "application/json",
              "url": "https://example.com/a.json",
              "trustManifest": {
                "identity": "urn:example:bad-issued",
                "issuedAt": "not-a-date",
                "expiresAt": "2020-01-01T00:00:00Z"
              }
            }
          ]
        }"#,
    );

    assert!(contains_finding(&report, Severity::Error, "not a valid RFC 3339 datetime"));
    assert!(contains_finding(&report, Severity::Warning, "expired at"));
}

#[test]
fn compares_timestamps_as_instants_not_strings() {
    let report = analyze(
        r#"{
          "specVersion": "1.0",
          "entries": [
            {
              "identifier": "urn:example:offset",
              "type": "application/json",
              "url": "https://example.com/a.json",
              "trustManifest": {
                "identity": "urn:example:offset",
                "issuedAt": "2030-01-01T12:00:00Z",
                "expiresAt": "2030-01-01T02:00:00-11:00"
              }
            }
          ]
        }"#,
    );

    assert!(report.findings.is_empty(), "unexpected findings: {:?}", report.findings);
}

#[test]
fn warns_on_algorithms_outside_the_allowlist() {
    let report = analyze(
        r#"{
          "specVersion": "1.0",
          "entries": [
            {
              "identifier": "urn:example:odd",
              "type": "application/json",
              "url": "https://example.com/a.json",
              "trustManifest": {
                "identity": "urn:example:odd",
                "issuedAt": "2026-01-01T00:00:00Z",
                "signature": "eyJhbGciOiJSUzUxMiJ9..c2ln",
                "subject": {
                  "type": "application/json",
                  "digest": "sha256:9f86d081884c7d659a2feaa0c55ad015a3bf4f1b2b0b822cd15d6c15b0f00a08"
                }
              }
            }
          ]
        }"#,
    );

    assert!(contains_finding(&report, Severity::Warning, "outside the specification allowlist"));
}

#[test]
fn flags_a_signed_manifest_missing_its_subject_and_issued_at() {
    let report = analyze(
        r#"{
          "specVersion": "1.0",
          "entries": [
            {
              "identifier": "urn:example:bare",
              "type": "application/json",
              "url": "https://example.com/a.json",
              "trustManifest": {
                "identity": "urn:example:bare",
                "signature": "eyJhbGciOiJFUzI1NiJ9..c2ln"
              }
            }
          ]
        }"#,
    );

    assert!(report.findings.iter().any(|f| f.message.contains("must carry a subject")));
    assert!(report.findings.iter().any(|f| f.message.contains("must carry an issuedAt")));
}

#[test]
fn parses_and_verifies_supported_digests() {
    let digest = ParsedDigest::parse(
        "sha256:9f86d081884c7d659a2feaa0c55ad015a3bf4f1b2b0b822cd15d6c15b0f00a08",
    )
    .expect("digest should parse");

    assert_eq!(digest.algorithm(), "sha256");
    assert!(digest.verify_bytes(b"test"));
    assert!(verify_digest(&with_algorithm(digest.hex_value(), "sha256"), b"test").is_ok());
}

#[test]
fn rejects_weak_and_malformed_digests() {
    assert!(matches!(
        ParsedDigest::parse("md5:abcd"),
        Err(DigestError::WeakDigestAlgorithm(_))
    ));
    assert!(matches!(
        ParsedDigest::parse("sha256:not-hex"),
        Err(DigestError::InvalidDigestHex)
    ));
    assert!(matches!(
        ParsedDigest::parse("missing-colon"),
        Err(DigestError::InvalidDigestFormat(_))
    ));
}

#[test]
fn rejects_hex_values_of_the_wrong_length() {
    assert!(matches!(
        ParsedDigest::parse("sha256:abc"),
        Err(DigestError::InvalidDigestHex)
    ));
    assert!(matches!(
        ParsedDigest::parse("sha512:9f86d081884c7d659a2feaa0c55ad015a3bf4f1b2b0b822cd15d6c15b0f00a08"),
        Err(DigestError::InvalidDigestHex)
    ));
    assert!(matches!(
        ParsedDigest::parse(&with_algorithm(&"z".repeat(64), "sha256")),
        Err(DigestError::InvalidDigestHex)
    ));
}

#[test]
fn analyzes_catalog_trust_findings() {
    let report = analyze_catalog(&parse_catalog(
        r#"{
          "specVersion": "1.0",
          "host": {
            "displayName": "Example Host",
            "identifier": "did:web:example.com",
            "trustManifest": {
              "identity": "did:web:other.example.com",
              "signature": "not-a-detached-jws"
            }
          },
          "entries": [
            {
              "identifier": "urn:air:acme.com:agent:artifact",
              "displayName": "Artifact",
              "type": "application/json",
              "url": "https://example.com/artifact.json",
              "trustManifest": {
                "identity": "did:web:evil.example",
                "signature": "header.payload.signature",
                "trustSchema": {"identifier": "", "version": ""},
                "attestations": [{"type": "", "uri": "", "digest": "md5:abcd"}],
                "provenance": [{"relation": "", "sourceId": "", "sourceDigest": "sha256:not-hex"}]
              }
            }
          ]
        }"#,
    ));

    assert_eq!(report.entries.len(), 1);
    assert_eq!(report.host.as_ref().map(|host| host.findings.len()), Some(2));
    assert!(contains_finding(
        &report,
        Severity::Warning,
        "host trustManifest.identity 'did:web:other.example.com' SHOULD match host.identifier 'did:web:example.com'"
    ));
    assert!(contains_finding(&report, Severity::Error, "signature must use detached JWS compact serialization"));
    assert!(contains_finding(
        &report,
        Severity::Error,
        "trustManifest.identity domain 'evil.example' MUST align with entry identifier publisher domain 'acme.com'"
    ));
    assert!(contains_finding(&report, Severity::Error, "digest algorithm 'md5' is weaker than SHA-256"));
    assert!(contains_finding(&report, Severity::Error, "digest hex value contains non-hex characters"));
}

#[test]
fn non_uri_identity_warns_without_binding_error() {
    let report = analyze_catalog(&parse_catalog(
        r#"{"specVersion": "1.0", "entries": [{"identifier": "urn:example:artifact", "displayName": "Artifact", "type": "application/json", "url": "https://example.com/artifact.json", "trustManifest": {"identity": "plain-identifier"}}]}"#,
    ));

    assert!(contains_finding(&report, Severity::Warning, "trust manifest identity SHOULD be a URI-like identifier"));
    assert!(!contains_finding(&report, Severity::Error, "MUST align with entry identifier publisher domain"));
}

#[test]
fn identity_without_trust_domain_fails_binding() {
    let report = analyze_catalog(&parse_catalog(
        r#"{"specVersion": "1.0", "entries": [{"identifier": "urn:air:acme.com:agent:artifact", "displayName": "Artifact", "type": "application/json", "url": "https://acme.com/artifact.json", "trustManifest": {"identity": "urn:acme:agent:artifact"}}]}"#,
    ));

    assert!(contains_finding(
        &report,
        Severity::Error,
        "MUST carry a trust domain aligned with entry identifier publisher domain 'acme.com'"
    ));
}

#[test]
fn identity_binding_accepts_aligned_domains() {
    let report = analyze_catalog(&parse_catalog(
        r#"{"specVersion": "1.0", "entries": [{"identifier": "urn:air:acme.com:agent:artifact", "displayName": "Artifact", "type": "application/json", "url": "https://acme.com/artifact.json", "trustManifest": {"identity": "did:web:acme.com"}}]}"#,
    ));

    assert!(report.findings.is_empty());
}

#[test]
fn clean_catalog_produces_no_findings() {
    let report = analyze_catalog(&parse_catalog(
        r#"{
          "specVersion": "1.0",
          "host": {
            "displayName": "Example Host",
            "identifier": "did:web:example.com",
            "trustManifest": {
              "identity": "did:web:example.com",
              "issuedAt": "2026-01-01T00:00:00Z",
              "signature": "eyJhbGciOiJFUzI1NiJ9..c2ln",
              "subject": {
                "type": "application/ai-catalog+json",
                "digest": "sha256:9f86d081884c7d659a2feaa0c55ad015a3bf4f1b2b0b822cd15d6c15b0f00a08"
              }
            }
          },
          "entries": [
            {
              "identifier": "urn:example:artifact",
              "displayName": "Artifact",
              "type": "application/json",
              "url": "https://example.com/artifact.json",
              "trustManifest": {
                "identity": "urn:example:artifact",
                "issuedAt": "2026-01-01T00:00:00Z",
                "signature": "eyJhbGciOiJFUzI1NiJ9..c2ln",
                "subject": {
                  "type": "application/json",
                  "digest": "sha256:9f86d081884c7d659a2feaa0c55ad015a3bf4f1b2b0b822cd15d6c15b0f00a08",
                  "url": "https://example.com/artifact.json"
                },
                "trustSchema": {"identifier": "urn:trust:example", "version": "1.0"},
                "attestations": [
                  {"type": "publisher-identity", "uri": "https://example.com/publisher.jwt", "digest": "sha256:9f86d081884c7d659a2feaa0c55ad015a3bf4f1b2b0b822cd15d6c15b0f00a08"}
                ],
                "provenance": [
                  {"relation": "publishedFrom", "sourceId": "https://github.com/example/repo", "sourceDigest": "sha256:9f86d081884c7d659a2feaa0c55ad015a3bf4f1b2b0b822cd15d6c15b0f00a08"}
                ]
              }
            }
          ]
        }"#,
    ));

    assert!(report.findings.is_empty());
    assert_eq!(report.host.as_ref().map(|host| host.has_signature), Some(true));
    assert_eq!(report.entries[0].attestation_count, 1);
}

#[test]
fn nested_host_manifests_are_reported_among_the_entries() {
    let catalog = parse_catalog(
        r#"{"specVersion":"1.0","host":{"displayName":"Root","trustManifest":{"identity":"did:web:root.example"}},"entries":[
            {"identifier":"urn:example:c","type":"application/ai-catalog+json","data":{
                "specVersion":"1.0","host":{"displayName":"Inner","trustManifest":{"identity":"did:web:inner.example"}},"entries":[]}}]}"#,
    );
    let report = analyze_catalog_as_of(&catalog, 0);

    assert_eq!(report.host.as_ref().map(|h| h.path.as_str()), Some("catalog.host.trustManifest"));
    assert_eq!(report.entries.len(), 1);
    assert_eq!(report.entries[0].path, "catalog.entries[0].data.host.trustManifest");
    assert_eq!(report.entries[0].identity, "did:web:inner.example");
}

#[test]
fn digest_errors_display_their_problem() {
    assert_eq!(
        ParsedDigest::parse("abc").unwrap_err().to_string(),
        "digest must use the format 'algorithm:hex-value', found 'abc'"
    );
    assert_eq!(
        ParsedDigest::parse("SHA3:00").unwrap_err().to_string(),
        "unsupported digest algorithm 'sha3'"
    );
    assert_eq!(
        ParsedDigest::parse("a:b:c").unwrap_err().to_string(),
        "digest must use the format 'algorithm:hex-value', found 'a:b:c'"
    );
}

#[test]
fn parsed_digests_are_normalized_to_lowercase() {
    let digest = ParsedDigest::parse(
        "SHA256:9F86D081884C7D659A2FEAA0C55AD015A3BF4F1B2B0B822CD15D6C15B0F00A08",
    )
    .unwrap();

    assert_eq!(digest.algorithm(), "sha256");
    assert_eq!(
        digest.hex_value(),
        "9f86d081884c7d659a2feaa0c55ad015a3bf4f1b2b0b822cd15d6c15b0f00a08"
    );
    assert!(!digest.verify_bytes(b"other"));
}

#[test]
fn verifies_sha384_and_sha512_digests() {
    assert_eq!(
        verify_digest(
            "sha384:768412320f7b0aa5812fce428dc4706b3cae50e02a64caa16a782249bfe8efc4b7ef1ccb126255d196047dfedf17a0a9",
            b"test"
        )
        .unwrap(),
        true
    );
    assert_eq!(
        verify_digest(
            "sha512:ee26b0dd4af7e749aa1a8ee3c10ae9923f618980772e473f8819a5d4940e0db27ac185f8a0e1d5f84f88bc887fd67b143732c304cc5fa9ad8e6f57f50028a8ff",
            b"test"
        )
        .unwrap(),
        true
    );
}

#[test]
fn content_hash_is_the_sha256_hex_digest() {
    assert_eq!(
        content_hash(b"test"),
        "9f86d081884c7d659a2feaa0c55ad015a3bf4f1b2b0b822cd15d6c15b0f00a08"
    );
}

#[test]
fn canonicalization_sorts_keys_by_utf16_code_unit() {
    let manifest = parse_catalog(&format!(
        r#"{{
          "specVersion": "1.0",
          "entries": [
            {{
              "identifier": "urn:example:keys",
              "type": "application/json",
              "url": "https://example.com/a.json",
              "trustManifest": {{
                "identity": "urn:example:keys",
                "extensions": {{ "{bmp}": 1, "{non_bmp}": 2 }}
              }}
            }}
          ]
        }}"#,
        bmp = '\u{e000}',
        non_bmp = '\u{10000}'
    ));

    let canonical = canonicalize_trust_manifest(manifest.entries[0].trust_manifest.as_ref().expect("manifest should exist"))
        .expect("manifest should canonicalize");

    let non_bmp = canonical.find('\u{10000}').expect("non-BMP key is present");
    let bmp = canonical.find('\u{e000}').expect("BMP key is present");

    assert!(non_bmp < bmp, "non-BMP key must sort first, got: {canonical}");
}

#[test]
fn canonicalization_uses_ecmascript_number_formatting() {
    let manifest = parse_catalog(
        r#"{
          "specVersion": "1.0",
          "entries": [
            {
              "identifier": "urn:example:numbers",
              "type": "application/json",
              "url": "https://example.com/a.json",
              "trustManifest": {
                "identity": "urn:example:numbers",
                "extensions": { "com.example.big": 1e21 }
              }
            }
          ]
        }"#,
    );

    let canonical = canonicalize_trust_manifest(manifest.entries[0].trust_manifest.as_ref().expect("manifest should exist"))
        .expect("manifest should canonicalize");

    assert!(canonical.contains("1e+21"), "expected ECMAScript number form, got: {canonical}");
}

#[test]
fn canonicalizes_catalog_without_signature() {
    let catalog = parse_catalog(r#"{"specVersion":"1.0","entries":[],"signature":"eyJhbGciOiJFUzI1NiJ9..c2ln"}"#);

    let canonical = canonicalize_catalog(&catalog).expect("canonicalizes");

    assert!(!canonical.contains("signature"));
    assert_eq!(canonical, r#"{"entries":[],"specVersion":"1.0"}"#);
}

#[test]
fn canonicalizes_manifest_without_signature() {
    let catalog = parse_catalog(
        r#"{
          "specVersion": "1.0",
          "entries": [
            {
              "identifier": "urn:example:agent",
              "displayName": "Example Agent",
              "type": "application/json",
              "url": "https://example.com/agent.json",
              "trustManifest": {
                "identity": "urn:example:agent",
                "signature": "eyJhbGciOiJFUzI1NiJ9..c2ln",
                "extensions": {
                  "com.example.zeta": true,
                  "com.example.alpha": 1
                }
              }
            }
          ]
        }"#,
    );

    let manifest = catalog.entries[0].trust_manifest.as_ref().expect("entry trust manifest should exist");
    let canonical = canonicalize_trust_manifest(manifest).expect("canonicalization should work");

    assert!(!canonical.contains("signature"));
    assert!(canonical.contains("\"com.example.alpha\":1"));
    assert!(canonical.find("alpha").expect("alpha") < canonical.find("zeta").expect("zeta"));
}

#[test]
fn canonical_text_is_the_same_with_or_without_a_signature() {
    let signed = parse_catalog(r#"{"specVersion":"1.0","entries":[],"signature":"eyJhbGciOiJFUzI1NiJ9..c2ln"}"#);
    let unsigned = parse_catalog(r#"{"specVersion":"1.0","entries":[]}"#);

    assert_eq!(canonicalize_catalog(&signed).unwrap(), canonicalize_catalog(&unsigned).unwrap());
}
