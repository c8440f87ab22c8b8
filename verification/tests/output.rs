use ai_catalog::analysis::{CatalogTrustReport, Finding, ManifestReport, Severity};
use ai_catalog::conformance::{ConformanceLevel, Diagnostic, ValidationResult};
use ai_catalog::json::{without_member, JsonMember, JsonValue};
use ai_catalog::jsontext::to_json_text;
use ai_catalog::output::{trust_report_json, trust_text_output, validation_result_json, validation_text_output};

fn diagnostic(path: &str, message: &str) -> Diagnostic {
    Diagnostic { path: path.to_string(), message: message.to_string() }
}

#[test]
fn valid_results_print_on_standard_output() {
    let result = ValidationResult {
        is_valid: true,
        conformance_level: ConformanceLevel::Discoverable,
        errors: Vec::new(),
        warnings: vec![diagnostic("$.entries[0].identifier", "should be a URI")],
    };

    let output = validation_text_output(&result);

    assert_eq!(output.exit_code, 0);
    assert_eq!(output.stderr, "");
    assert_eq!(
        output.stdout,
        "catalog is valid\nconformance: discoverable\nwarnings:\n  - $.entries[0].identifier: should be a URI\n"
    );
}

#[test]
fn invalid_results_print_on_standard_error() {
    let result = ValidationResult {
        is_valid: false,
        conformance_level: ConformanceLevel::Minimal,
        errors: vec![diagnostic("$.specVersion", "is required")],
        warnings: Vec::new(),
    };

    let output = validation_text_output(&result);

    assert_eq!(output.exit_code, 1);
    assert_eq!(output.stdout, "");
    assert_eq!(output.stderr, "catalog is invalid\nconformance: minimal\nerrors:\n  - $.specVersion: is required\n");
}

#[test]
fn validation_payloads_list_errors_and_warnings() {
    let errors = vec![diagnostic("$", "failed to parse input: bad")];
    let payload = validation_result_json(false, None, &errors, &Vec::new());
    assert_eq!(
        to_json_text(&payload),
        r#"{"valid":false,"conformanceLevel":null,"errors":[{"path":"$","message":"failed to parse input: bad"}],"warnings":[]}"#
    );

    let payload = validation_result_json(true, Some(ConformanceLevel::Trusted), &Vec::new(), &Vec::new());
    assert_eq!(to_json_text(&payload), r#"{"valid":true,"conformanceLevel":"trusted","errors":[],"warnings":[]}"#);
}

fn report_with(severity: Severity) -> CatalogTrustReport {
    let finding = Finding { severity, path: "$.host.trustManifest".to_string(), message: "problem".to_string() };
    CatalogTrustReport {
        findings: vec![finding.clone()],
        host: Some(ManifestReport {
            path: "$.host.trustManifest".to_string(),
            identity: "did:web:example.com".to_string(),
            has_signature: false,
            attestation_count: 2,
            provenance_count: 0,
            findings: vec![finding],
        }),
        entries: Vec::new(),
        has_signature: false,
    }
}

#[test]
fn trust_reports_with_errors_print_on_standard_error() {
    let output = trust_text_output(&report_with(Severity::Error));
    assert_eq!(output.exit_code, 1);
    assert_eq!(output.stdout, "");
    assert!(output.stderr.starts_with("trust report: errors found\nhost: $.host.trustManifest\n"));
    assert!(output.stderr.contains("  attestations: 2\n"));
    assert!(output.stderr.ends_with("  - error $.host.trustManifest: problem\n"));

    let output = trust_text_output(&report_with(Severity::Warning));
    assert_eq!(output.exit_code, 0);
    assert!(output.stdout.starts_with("trust report: warnings found\n"));
}

#[test]
fn trust_payloads_report_every_manifest() {
    let payload = trust_report_json(&report_with(Severity::Warning));
    assert_eq!(
        to_json_text(&payload),
        [
            r#"{"ok":true,"findings":[{"severity":"warning","path":"$.host.trustManifest","message":"problem"}],"#,
            r#""host":{"path":"$.host.trustManifest","identity":"did:web:example.com","hasSignature":false,"#,
            r#""attestationCount":2,"provenanceCount":0,"findings":[{"severity":"warning","path":"$.host.trustManifest","message":"problem"}]},"#,
            r#""entries":[]}"#,
        ]
        .concat()
    );
}

#[test]
fn removes_members_by_name() {
    let value = JsonValue::Object(vec![
        JsonMember { key: "specVersion".to_string(), value: JsonValue::Str("1.0".to_string()) },
        JsonMember { key: "signature".to_string(), value: JsonValue::Str("x".to_string()) },
        JsonMember { key: "entries".to_string(), value: JsonValue::Array(Vec::new()) },
    ]);
    assert_eq!(to_json_text(&without_member(&value, "signature")), r#"{"specVersion":"1.0","entries":[]}"#);
    assert_eq!(to_json_text(&without_member(&JsonValue::Null, "signature")), "null");
}
