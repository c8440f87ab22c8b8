use ai_catalog::conformance::{ConformanceLevel, ValidationResult};
use ai_catalog::json::{JsonMember, JsonValue};
use ai_catalog::model::AiCatalog;
use ai_catalog::schema::catalog_from_json;
use ai_catalog::validate::{validate, validate_as_of};

fn to_json(value: &serde_json::Value) -> JsonValue {
    match value {
        serde_json::Value::Null => JsonValue::Null,
        serde_json::Value::Bool(b) => JsonValue::Bool(*b),
        serde_json::Value::Number(n) => JsonValue::Number(n.to_string()),
        serde_json::Value::String(s) => JsonValue::Str(s.clone()),
        serde_json::Value::Array(items) => JsonValue::Array(items.iter().map(to_json).collect()),
        serde_json::Value::Object(members) => JsonValue::Object(
            members
                .iter()
                .map(|(key, value)| JsonMember { key: key.clone(), value: to_json(value) })
                .collect(),
        ),
    }
}

fn parse_str(text: &str) -> Result<AiCatalog, String> {
    let value: serde_json::Value = serde_json::from_str(text).map_err(|e| e.to_string())?;
    catalog_from_json(&to_json(&value))
}

fn validate_text(text: &str) -> ValidationResult {
    validate(&parse_str(text).expect("document should parse"))
}

fn has_error(result: &ValidationResult, text: &str) -> bool {
    result.errors.iter().any(|d| d.message.contains(text))
}

fn nested_catalog_text(levels: usize) -> String {
    if levels == 0 {
        r#"{"specVersion":"1.0","entries":[{"identifier":"urn:example:leaf","displayName":"Leaf","type":"application/json","url":"https://example.com/leaf.json"}]}"#.to_string()
    } else {
        format!(
            r#"{{"specVersion":"1.0","entries":[{{"identifier":"urn:example:nested:{levels}","displayName":"Nested {levels}","type":"application/ai-catalog+json","data":{}}}]}}"#,
            nested_catalog_text(levels - 1)
        )
    }
}

#[test]
fn rejects_entry_with_both_url_and_data() {
    let result = validate_text(
        r#"{
          "specVersion": "1.0",
          "entries": [
            {
              "identifier": "urn:example:test",
              "displayName": "Test",
              "type": "application/json",
              "url": "https://example.com/test.json",
              "data": {"key": "value"}
            }
          ]
        }"#,
    );

    assert!(!result.is_valid);
    assert!(has_error(&result, "exactly one of 'url' or 'data'"));
}

#[test]
fn rejects_duplicate_identifier_without_version() {
    let result = validate_text(
        r#"{
          "specVersion": "1.0",
          "entries": [
            {"identifier": "urn:example:test", "displayName": "First", "type": "application/json", "url": "https://example.com/one.json"},
            {"identifier": "urn:example:test", "displayName": "Second", "type": "application/json", "url": "https://example.com/two.json"}
          ]
        }"#,
    );

    assert!(!result.is_valid);
    assert!(has_error(&result, "duplicate identifier"));
}

#[test]
fn rejects_misaligned_trust_identity_domain() {
    let result = validate_text(
        r#"{
          "specVersion": "1.0",
          "entries": [
            {
              "identifier": "urn:air:acme.com:agent:test",
              "displayName": "Test",
              "type": "application/json",
              "url": "https://acme.com/test.json",
              "trustManifest": {"identity": "did:web:evil.example"}
            }
          ]
        }"#,
    );

    assert!(!result.is_valid);
    assert!(has_error(&result, "does not align with the entry identifier publisher domain"));
}

#[test]
fn rejects_trust_identity_without_a_trust_domain() {
    let result = validate_text(
        r#"{
          "specVersion": "1.0",
          "entries": [
            {
              "identifier": "urn:air:acme.com:agent:test",
              "displayName": "Test",
              "type": "application/json",
              "url": "https://acme.com/test.json",
              "trustManifest": {"identity": "urn:acme:agent:test"}
            }
          ]
        }"#,
    );

    assert!(!result.is_valid);
    assert!(result.errors.iter().any(|d| d.message
        == "trustManifest.identity 'urn:acme:agent:test' has no trust domain to align with the entry identifier publisher domain 'acme.com'"));
}

#[test]
fn accepts_trust_identity_aligned_by_domain() {
    let result = validate_text(
        r#"{
          "specVersion": "1.0",
          "entries": [
            {
              "identifier": "urn:air:acme.com:agent:test",
              "displayName": "Test",
              "type": "application/json",
              "url": "https://acme.com/test.json",
              "trustManifest": {
                "identity": "did:web:acme.com",
                "trustSchema": {"identifier": "urn:example:schema", "version": "1.0"}
              }
            }
          ]
        }"#,
    );

    assert!(result.is_valid, "unexpected errors: {:?}", result.errors);
}

#[test]
fn rejects_trust_manifest_without_substantive_members() {
    let result = validate_text(
        r#"{"specVersion": "1.0", "entries": [{"identifier": "urn:example:bare", "displayName": "Bare", "type": "application/json", "url": "https://example.com/bare.json", "trustManifest": {"identity": "urn:example:bare"}}]}"#,
    );

    assert!(!result.is_valid);
    assert!(has_error(&result, "must carry at least one substantive member"));
}

#[test]
fn requires_subject_and_issued_at_alongside_a_signature() {
    let result = validate_text(
        r#"{"specVersion": "1.0", "entries": [{"identifier": "urn:example:signed", "displayName": "Signed", "type": "application/json", "url": "https://example.com/signed.json", "trustManifest": {"identity": "urn:example:signed", "signature": "eyJhbGciOiJFUzI1NiJ9..c2ln"}}]}"#,
    );

    assert!(!result.is_valid);
    assert!(has_error(&result, "must include a subject"));
    assert!(has_error(&result, "must include issuedAt"));
}

#[test]
fn rejects_subject_that_does_not_restate_the_entry() {
    let result = validate_text(
        r#"{"specVersion": "1.0", "entries": [{"identifier": "urn:example:bound", "displayName": "Bound", "type": "application/json", "url": "https://example.com/bound.json", "trustManifest": {"identity": "urn:example:bound", "issuedAt": "2026-01-01T00:00:00Z", "signature": "eyJhbGciOiJFUzI1NiJ9..c2ln", "subject": {"type": "application/gguf", "digest": "sha256:abc", "url": "https://example.com/other.json"}}}]}"#,
    );

    assert!(!result.is_valid);
    assert!(has_error(&result, "must equal the entry type"));
    assert!(has_error(&result, "must equal the entry url"));
}

#[test]
fn diagnoses_every_missing_required_member() {
    let cases: [(&str, &str); 6] = [
        (r#"{"entries": []}"#, "specVersion must not be empty"),
        (
            r#"{"specVersion": "1.0", "entries": [{"type": "application/json", "url": "https://e.com/a"}]}"#,
            "identifier is required",
        ),
        (
            r#"{"specVersion": "1.0", "entries": [{"identifier": "urn:air:e.com:a:b", "url": "https://e.com/a"}]}"#,
            "type is required",
        ),
        (
            r#"{"specVersion": "1.0", "entries": [{"identifier": "urn:air:e.com:a:b", "type": "application/json", "url": "https://e.com/a", "publisher": {"identifier": "did:web:e.com"}}]}"#,
            "publisher.displayName is required",
        ),
        (
            r#"{"specVersion": "1.0", "entries": [{"identifier": "urn:air:e.com:a:b", "type": "application/json", "url": "https://e.com/a", "trustManifest": {"attestations": [{"type": "soc2"}]}}]}"#,
            "attestation.uri is required",
        ),
        (
            r#"{"specVersion": "1.0", "entries": [{"identifier": "urn:air:e.com:a:b", "type": "application/json", "url": "https://e.com/a", "trustManifest": {"identity": "did:web:e.com", "provenance": [{"relation": "derivedFrom"}]}}]}"#,
            "provenance.sourceId is required",
        ),
    ];

    for (document, expected) in cases {
        let result = validate_text(document);

        assert!(
            has_error(&result, expected),
            "expected '{expected}' for {document}, got {:?}",
            result.errors
        );
    }
}

#[test]
fn requires_trust_schema_identifier_and_version() {
    let result = validate_text(
        r#"{"specVersion": "1.0", "entries": [{"identifier": "urn:air:e.com:a:b", "type": "application/json", "url": "https://e.com/a", "trustManifest": {"identity": "did:web:e.com", "trustSchema": {}}}]}"#,
    );

    assert!(!result.is_valid);
    assert!(has_error(&result, "trustSchema.identifier is required"));
    assert!(has_error(&result, "trustSchema.version is required"));
}

#[test]
fn requires_publisher_identifier_and_display_name() {
    let result = validate_text(
        r#"{"specVersion": "1.0", "entries": [{"identifier": "urn:example:pub", "displayName": "Pub", "type": "application/json", "url": "https://example.com/pub.json", "publisher": {"identifier": "", "displayName": ""}}]}"#,
    );

    assert!(!result.is_valid);
    assert!(has_error(&result, "publisher.identifier is required"));
    assert!(has_error(&result, "publisher.displayName is required"));
}

#[test]
fn requires_host_display_name() {
    let result = validate_text(
        r#"{"specVersion": "1.0", "host": {"identifier": "did:web:example.com"}, "entries": []}"#,
    );

    assert!(!result.is_valid);
    assert!(has_error(&result, "host.displayName is required"));
}

#[test]
fn warns_on_expired_trust_manifest() {
    let result = validate_text(
        r#"{"specVersion": "1.0", "entries": [{"identifier": "urn:example:expired", "displayName": "Expired", "type": "application/json", "url": "https://example.com/expired.json", "trustManifest": {"identity": "urn:example:expired", "issuedAt": "2020-01-01T00:00:00Z", "expiresAt": "2020-06-01T00:00:00Z", "signature": "eyJhbGciOiJFUzI1NiJ9..c2ln", "subject": {"type": "application/json", "digest": "sha256:abc", "url": "https://example.com/expired.json"}}}]}"#,
    );

    assert!(result.is_valid, "unexpected errors: {:?}", result.errors);
    assert!(result.warnings.iter().any(|d| d.message.contains("expired at")));
}

#[test]
fn classifies_valid_hostless_catalog_as_minimal() {
    let result = validate_text(
        r#"{"specVersion": "1.0", "entries": [{"identifier": "urn:example:minimal", "displayName": "Minimal", "type": "application/json", "url": "https://example.com/minimal.json"}]}"#,
    );

    assert!(result.is_valid);
    assert_eq!(result.conformance_level, ConformanceLevel::Minimal);
}

#[test]
fn classifies_valid_catalog_with_signed_entry_manifest_as_trusted() {
    let result = validate_text(
        r#"{"specVersion": "1.0", "host": {"displayName": "Example Host"}, "entries": [{"identifier": "urn:example:trusted", "displayName": "Trusted", "type": "application/json", "url": "https://example.com/trusted.json", "trustManifest": {"identity": "urn:example:trusted", "issuedAt": "2026-01-01T00:00:00Z", "signature": "eyJhbGciOiJFUzI1NiJ9..c2ln", "subject": {"type": "application/json", "digest": "sha256:abc", "url": "https://example.com/trusted.json"}}}]}"#,
    );

    assert!(result.is_valid, "unexpected errors: {:?}", result.errors);
    assert_eq!(result.conformance_level, ConformanceLevel::Trusted);
}

#[test]
fn an_unsigned_manifest_downgrades_the_catalog_below_trusted() {
    let result = validate_text(
        r#"{"specVersion": "1.0", "host": {"displayName": "Example Host"}, "entries": [{"identifier": "urn:example:unsigned", "displayName": "Unsigned", "type": "application/json", "url": "https://example.com/unsigned.json", "trustManifest": {"identity": "urn:example:unsigned", "trustSchema": {"identifier": "urn:example:schema", "version": "1.0"}}}]}"#,
    );

    assert!(result.is_valid, "unexpected errors: {:?}", result.errors);
    assert_eq!(result.conformance_level, ConformanceLevel::Discoverable);
}

#[test]
fn an_unsigned_manifest_in_a_nested_catalog_keeps_the_document_below_trusted() {
    let result = validate_text(
        r#"{"specVersion": "1.0", "host": {"displayName": "Example Host"}, "entries": [{"identifier": "urn:example:trusted", "displayName": "Trusted", "type": "application/json", "url": "https://example.com/trusted.json", "trustManifest": {"identity": "urn:example:trusted", "issuedAt": "2026-01-01T00:00:00Z", "signature": "eyJhbGciOiJFUzI1NiJ9..c2ln", "subject": {"type": "application/json", "digest": "sha256:abc", "url": "https://example.com/trusted.json"}}}, {"identifier": "urn:example:n", "type": "application/ai-catalog+json", "data": {"specVersion": "1.0", "entries": [{"identifier": "urn:example:c", "type": "application/json", "url": "https://e.com/c.json", "trustManifest": {"identity": "urn:example:c", "trustSchema": {"identifier": "s", "version": "1"}}}]}}]}"#,
    );

    assert!(result.is_valid, "unexpected errors: {:?}", result.errors);
    assert_eq!(result.conformance_level, ConformanceLevel::Discoverable);
}

#[test]
fn signed_manifests_in_nested_catalogs_keep_the_document_trusted() {
    let result = validate_text(
        r#"{"specVersion": "1.0", "host": {"displayName": "Example Host"}, "entries": [{"identifier": "urn:example:n", "type": "application/ai-catalog+json", "data": {"specVersion": "1.0", "entries": [{"identifier": "urn:example:c", "type": "application/json", "url": "https://e.com/c.json", "trustManifest": {"identity": "urn:example:c", "issuedAt": "2026-01-01T00:00:00Z", "signature": "eyJhbGciOiJFUzI1NiJ9..c2ln", "subject": {"type": "application/json", "digest": "sha256:abc", "url": "https://e.com/c.json"}}}]}}]}"#,
    );

    assert!(result.is_valid, "unexpected errors: {:?}", result.errors);
    assert_eq!(result.conformance_level, ConformanceLevel::Trusted);
}

#[test]
fn rejects_duplicate_identifier_with_same_version() {
    let result = validate_text(
        r#"{"specVersion": "1.0", "entries": [
            {"identifier": "urn:example:versioned", "displayName": "First", "type": "application/json", "url": "https://example.com/one.json", "version": "1.0.0"},
            {"identifier": "urn:example:versioned", "displayName": "Second", "type": "application/json", "url": "https://example.com/two.json", "version": "1.0.0"}
        ]}"#,
    );

    assert!(!result.is_valid);
    assert!(has_error(&result, "duplicate (identifier, version) pair"));
}

#[test]
fn rejects_mixing_versioned_and_unversioned_identifiers() {
    let result = validate_text(
        r#"{"specVersion": "1.0", "entries": [
            {"identifier": "urn:example:mixed", "displayName": "Unversioned", "type": "application/json", "url": "https://example.com/unversioned.json"},
            {"identifier": "urn:example:mixed", "displayName": "Versioned", "type": "application/json", "url": "https://example.com/versioned.json", "version": "1.0.0"}
        ]}"#,
    );

    assert!(!result.is_valid);
    assert!(has_error(&result, "cannot appear with and without version"));
}

#[test]
fn rejects_entry_without_url_or_data() {
    let result = validate_text(
        r#"{"specVersion": "1.0", "entries": [{"identifier": "urn:example:missing-payload", "displayName": "Missing Payload", "type": "application/json"}]}"#,
    );

    assert!(!result.is_valid);
    assert!(has_error(&result, "entry must have exactly one of 'url' or 'data'"));
}

#[test]
fn rejects_invalid_updated_at_and_warns_on_non_uri_identifier() {
    let result = validate_text(
        r#"{"specVersion": "1.0", "entries": [{"identifier": "plain-identifier", "displayName": "Plain Identifier", "type": "application/json", "url": "https://example.com/plain.json", "updatedAt": "yesterday"}]}"#,
    );

    assert!(!result.is_valid);
    assert!(has_error(&result, "updatedAt is not a valid RFC 3339 datetime"));
    assert!(result.warnings.iter().any(|d| d.message.contains("identifier SHOULD be a URN or URI")));
}

#[test]
fn rejects_unnamespaced_extension_keys() {
    let result = validate_text(
        r#"{"specVersion": "1.0", "extensions": {"": true, "scope": "demo"}, "entries": [{"identifier": "urn:example:extensions", "displayName": "Extensions", "type": "application/json", "url": "https://example.com/extensions.json", "extensions": {"notNamespaced": 1}}]}"#,
    );

    assert!(!result.is_valid);
    assert_eq!(
        result
            .errors
            .iter()
            .filter(|d| d.message.contains("must be a valid URL or a reverse-DNS string"))
            .count(),
        3
    );
}

#[test]
fn accepts_url_and_reverse_dns_extension_keys() {
    let result = validate_text(
        r#"{"specVersion": "1.0", "extensions": {"com.example.confidenceScore": 0.9, "https://example.com/ext": true}, "entries": [{"identifier": "urn:example:extensions", "displayName": "Extensions", "type": "application/json", "url": "https://example.com/extensions.json"}]}"#,
    );

    assert!(result.is_valid, "unexpected errors: {:?}", result.errors);
}

#[test]
fn rejects_invalid_spec_versions() {
    let empty_result = validate_text(r#"{"specVersion": "", "entries": []}"#);
    let malformed_result = validate_text(r#"{"specVersion": "1", "entries": []}"#);
    let non_numeric_result = validate_text(r#"{"specVersion": "one.zero", "entries": []}"#);
    let unsupported_result = validate_text(r#"{"specVersion": "2.0", "entries": []}"#);

    assert!(has_error(&empty_result, "must not be empty"));
    assert!(has_error(&malformed_result, "Major.Minor format"));
    assert!(has_error(&non_numeric_result, "must be non-negative integers"));
    assert!(has_error(&unsupported_result, "unsupported specVersion major version"));
}

#[test]
fn validates_nested_catalog_data() {
    let result = validate_text(
        r#"{"specVersion": "1.0", "entries": [{"identifier": "urn:example:nested-root", "displayName": "Nested Root", "type": "application/ai-catalog+json", "data": {"specVersion": "1.0", "entries": [{"identifier": "urn:example:nested-child", "displayName": "Nested Child", "type": "application/json", "url": "https://example.com/nested-child.json"}]}}]}"#,
    );

    assert!(result.is_valid, "unexpected errors: {:?}", result.errors);
}

#[test]
fn reports_the_violated_member_inside_nested_catalog_data() {
    let result = validate_text(
        r#"{"specVersion": "1.0", "entries": [{"identifier": "urn:example:bad-nested", "displayName": "Bad Nested", "type": "application/ai-catalog+json", "data": {"unexpected": true}}]}"#,
    );

    assert!(!result.is_valid);
    assert!(
        result.errors.iter().any(|d| d.path == "catalog.entries[0].data.specVersion"
            && d.message.contains("specVersion must not be empty")),
        "unexpected errors: {:?}",
        result.errors
    );
}

#[test]
fn rejects_structurally_invalid_nested_catalog_data() {
    let result = validate_text(
        r#"{"specVersion": "1.0", "entries": [{"identifier": "urn:example:bad-nested", "displayName": "Bad Nested", "type": "application/ai-catalog+json", "data": {"specVersion": "1.0", "entries": "not-an-array"}}]}"#,
    );

    assert!(!result.is_valid);
    assert!(
        has_error(&result, "nested catalog data is not a valid AI Catalog"),
        "unexpected errors: {:?}",
        result.errors
    );
}

#[test]
fn rejects_nested_catalogs_beyond_depth_limit() {
    let result = validate_text(&nested_catalog_text(4));

    assert!(!result.is_valid);
    assert!(has_error(&result, "nested catalog depth exceeds recommended limit"));
}

#[test]
fn accepts_nesting_up_to_the_depth_limit() {
    let result = validate_text(&nested_catalog_text(3));

    assert!(result.is_valid, "unexpected errors: {:?}", result.errors);
}

#[test]
fn reports_errors_at_exact_paths_in_order() {
    let result = validate_text(
        r#"{"specVersion": "1.0", "entries": [{"identifier": "", "type": ""}]}"#,
    );
    let found: Vec<(String, String)> = result
        .errors
        .iter()
        .map(|d| (d.path.clone(), d.message.clone()))
        .collect();

    assert_eq!(
        found,
        vec![
            (
                "catalog.entries[0].identifier".to_string(),
                "identifier is required and must not be empty".to_string()
            ),
            (
                "catalog.entries[0].type".to_string(),
                "type is required and must not be empty".to_string()
            ),
            (
                "catalog.entries[0]".to_string(),
                "entry must have exactly one of 'url' or 'data'".to_string()
            ),
        ]
    );
    assert_eq!(result.warnings.len(), 1);
    assert_eq!(result.warnings[0].path, "catalog.entries[0].identifier");
}

#[test]
fn errors_do_not_depend_on_the_time_of_validation() {
    let catalog = parse_str(
        r#"{"specVersion": "1.0", "entries": [{"identifier": "urn:example:e", "type": "application/json", "url": "https://e.com", "trustManifest": {"identity": "urn:example:e", "expiresAt": "2020-06-01T00:00:00Z", "trustSchema": {"identifier": "s", "version": "1"}}}]}"#,
    )
    .unwrap();
    let early = validate_as_of(&catalog, 0);
    let late = validate_as_of(&catalog, i128::MAX);

    assert_eq!(early.errors.len(), late.errors.len());
    assert!(early.warnings.is_empty());
    assert_eq!(late.warnings.len(), 1);
    assert_eq!(
        late.warnings[0].message,
        "trustManifest expired at '2020-06-01T00:00:00Z' and SHOULD be rejected"
    );
}

#[test]
fn accepts_explicit_plus_signs_in_spec_versions() {
    let result = validate_text(r#"{"specVersion": "+1.+0", "entries": []}"#);

    assert!(result.errors.is_empty(), "unexpected errors: {:?}", result.errors);
}
