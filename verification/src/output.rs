//! What the `validate` and `trust inspect` commands print, and the status
//! they exit with: as text, and as JSON payloads.
use vstd::prelude::*;
use vstd::string::*;
use crate::analysis::{CatalogTrustReport, Finding, FindingView, ManifestReport, ReportView, Severity, fviews, rviews};
use crate::cli::{
    conformance_level_name, diagnostic_lines, diagnostics_text, has_error_finding, severity_name,
    trust_report_has_errors, trust_report_text, write_trust_report,
};
use crate::conformance::{ConformanceLevel, DiagView, Diagnostic, ValidationResult, dviews};
use crate::json::{JsonMember, JsonValue, JsonView, array_view, json_view, lemma_array_view, object_view};
use crate::render::{add_member, member};
use crate::text::{decimal, lemma_seq_add_empty, usize_to_string};

verus! {

/// What a command prints on each stream, and its exit status.
pub struct CommandOutput {
    pub stdout: String,
    pub stderr: String,
    pub exit_code: i32,
}

pub open spec fn level_name(level: ConformanceLevel) -> Seq<char> {
    match level {
        ConformanceLevel::Minimal => "minimal"@,
        ConformanceLevel::Discoverable => "discoverable"@,
        ConformanceLevel::Trusted => "trusted"@,
    }
}

pub open spec fn severity_text(s: Severity) -> Seq<char> {
    match s {
        Severity::Error => "error"@,
        Severity::Warning => "warning"@,
    }
}

pub open spec fn diag_json(d: DiagView) -> JsonView {
    JsonView::Object(member("path"@, JsonView::Str(d.path)) + member("message"@, JsonView::Str(d.message)))
}

pub open spec fn diag_writer() -> spec_fn(DiagView) -> JsonView {
    |d: DiagView| diag_json(d)
}

/// The JSON payload of a validation: whether it is valid, its conformance
/// level if known, its errors and its warnings.
pub open spec fn validation_json(
    valid: bool,
    level: Option<ConformanceLevel>,
    errors: Seq<DiagView>,
    warnings: Seq<DiagView>,
) -> JsonView {
    JsonView::Object(
        member("valid"@, JsonView::Bool(valid)) + member(
            "conformanceLevel"@,
            match level {
                Some(l) => JsonView::Str(level_name(l)),
                None => JsonView::Null,
            },
        ) + member("errors"@, JsonView::Array(errors.map_values(diag_writer()))) + member(
            "warnings"@,
            JsonView::Array(warnings.map_values(diag_writer())),
        ),
    )
}

pub open spec fn finding_json(f: FindingView) -> JsonView {
    JsonView::Object(
        member("severity"@, JsonView::Str(severity_text(f.severity))) + member("path"@, JsonView::Str(f.path))
            + member("message"@, JsonView::Str(f.message)),
    )
}

pub open spec fn finding_writer() -> spec_fn(FindingView) -> JsonView {
    |f: FindingView| finding_json(f)
}

pub open spec fn report_json(r: ReportView) -> JsonView {
    JsonView::Object(
        member("path"@, JsonView::Str(r.path)) + member("identity"@, JsonView::Str(r.identity)) + member(
            "hasSignature"@,
            JsonView::Bool(r.has_signature),
        ) + member("attestationCount"@, JsonView::Number(decimal(r.attestation_count))) + member(
            "provenanceCount"@,
            JsonView::Number(decimal(r.provenance_count)),
        ) + member("findings"@, JsonView::Array(r.findings.map_values(finding_writer()))),
    )
}

pub open spec fn report_writer() -> spec_fn(ReportView) -> JsonView {
    |r: ReportView| report_json(r)
}

/// The JSON payload of a trust report: whether it has no error, every
/// finding, and each manifest's report.
pub open spec fn trust_json(findings: Seq<FindingView>, host: Option<ReportView>, entries: Seq<ReportView>) -> JsonView {
    JsonView::Object(
        member("ok"@, JsonView::Bool(!has_error_finding(findings))) + member(
            "findings"@,
            JsonView::Array(findings.map_values(finding_writer())),
        ) + member(
            "host"@,
            match host {
                Some(h) => report_json(h),
                None => JsonView::Null,
            },
        ) + member("entries"@, JsonView::Array(entries.map_values(report_writer()))),
    )
}

/// Diagnostics as a JSON list of objects with a path and a message.
pub fn diagnostics_to_json(diagnostics: &Vec<Diagnostic>) -> (r: JsonValue)
    ensures
        json_view(r) == JsonView::Array(dviews(diagnostics@).map_values(diag_writer())),
{
    let mut items: Vec<JsonValue> = Vec::new();
    let mut i: usize = 0;
    while i < diagnostics.len()
        invariant
            i <= diagnostics@.len(),
            items@.len() == i,
            forall|k: int| 0 <= k < i ==> json_view(#[trigger] items@[k]) == diag_json(diagnostics@[k]@),
        decreases diagnostics.len() - i,
    {
        let mut out: Vec<JsonMember> = Vec::new();
        assert(object_view(out@) =~= Seq::<(Seq<char>, JsonView)>::empty());
        add_member(&mut out, "path", JsonValue::Str(diagnostics[i].path.clone()));
        proof {
            lemma_seq_add_empty(member("path"@, JsonView::Str(diagnostics@[i as int].path@)));
        }
        add_member(&mut out, "message", JsonValue::Str(diagnostics[i].message.clone()));
        items.push(JsonValue::Object(out));
        i = i + 1;
    }
    proof {
        lemma_array_view(items@);
        assert(array_view(items@) =~= dviews(diagnostics@).map_values(diag_writer()));
    }
    JsonValue::Array(items)
}

/// The JSON payload of a validation.
pub fn validation_result_json(
    is_valid: bool,
    conformance_level: Option<ConformanceLevel>,
    errors: &Vec<Diagnostic>,
    warnings: &Vec<Diagnostic>,
) -> (r: JsonValue)
    ensures
        json_view(r) == validation_json(is_valid, conformance_level, dviews(errors@), dviews(warnings@)),
{
    let mut out: Vec<JsonMember> = Vec::new();
    assert(object_view(out@) =~= Seq::<(Seq<char>, JsonView)>::empty());
    add_member(&mut out, "valid", JsonValue::Bool(is_valid));
    proof {
        lemma_seq_add_empty(member("valid"@, JsonView::Bool(is_valid)));
    }
    let level = match conformance_level {
        Some(l) => JsonValue::Str(String::from_str(conformance_level_name(l))),
        None => JsonValue::Null,
    };
    add_member(&mut out, "conformanceLevel", level);
    add_member(&mut out, "errors", diagnostics_to_json(errors));
    add_member(&mut out, "warnings", diagnostics_to_json(warnings));
    JsonValue::Object(out)
}

/// A trust finding as a JSON object.
pub fn trust_finding_to_json(finding: &Finding) -> (r: JsonValue)
    ensures
        json_view(r) == finding_json(finding@),
{
    let mut out: Vec<JsonMember> = Vec::new();
    assert(object_view(out@) =~= Seq::<(Seq<char>, JsonView)>::empty());
    add_member(&mut out, "severity", JsonValue::Str(String::from_str(severity_name(finding.severity))));
    proof {
        lemma_seq_add_empty(member("severity"@, JsonView::Str(severity_text(finding.severity))));
    }
    add_member(&mut out, "path", JsonValue::Str(finding.path.clone()));
    add_member(&mut out, "message", JsonValue::Str(finding.message.clone()));
    JsonValue::Object(out)
}

fn findings_to_json(findings: &Vec<Finding>) -> (r: JsonValue)
    ensures
        json_view(r) == JsonView::Array(fviews(findings@).map_values(finding_writer())),
{
    let mut items: Vec<JsonValue> = Vec::new();
    let mut i: usize = 0;
    while i < findings.len()
        invariant
            i <= findings@.len(),
            items@.len() == i,
            forall|k: int| 0 <= k < i ==> json_view(#[trigger] items@[k]) == finding_json(findings@[k]@),
        decreases findings.len() - i,
    {
        items.push(trust_finding_to_json(&findings[i]));
        i = i + 1;
    }
    proof {
        lemma_array_view(items@);
        assert(array_view(items@) =~= fviews(findings@).map_values(finding_writer()));
    }
    JsonValue::Array(items)
}

/// A manifest report as a JSON object.
pub fn trust_manifest_report_to_json(report: &ManifestReport) -> (r: JsonValue)
    ensures
        json_view(r) == report_json(report@),
{
    let mut out: Vec<JsonMember> = Vec::new();
    assert(object_view(out@) =~= Seq::<(Seq<char>, JsonView)>::empty());
    add_member(&mut out, "path", JsonValue::Str(report.path.clone()));
    proof {
        lemma_seq_add_empty(member("path"@, JsonView::Str(report@.path)));
    }
    add_member(&mut out, "identity", JsonValue::Str(report.identity.clone()));
    add_member(&mut out, "hasSignature", JsonValue::Bool(report.has_signature));
    add_member(&mut out, "attestationCount", JsonValue::Number(usize_to_string(report.attestation_count)));
    add_member(&mut out, "provenanceCount", JsonValue::Number(usize_to_string(report.provenance_count)));
    add_member(&mut out, "findings", findings_to_json(&report.findings));
    JsonValue::Object(out)
}

/// The JSON payload of a trust report.
pub fn trust_report_json(report: &CatalogTrustReport) -> (r: JsonValue)
    ensures
        json_view(r) == trust_json(fviews(report.findings@), crate::trust::opt_report_view(report.host), rviews(report.entries@)),
{
    let mut out: Vec<JsonMember> = Vec::new();
    assert(object_view(out@) =~= Seq::<(Seq<char>, JsonView)>::empty());
    add_member(&mut out, "ok", JsonValue::Bool(!trust_report_has_errors(report)));
    proof {
        lemma_seq_add_empty(member("ok"@, JsonView::Bool(!has_error_finding(fviews(report.findings@)))));
    }
    add_member(&mut out, "findings", findings_to_json(&report.findings));
    let host = match &report.host {
        Some(h) => trust_manifest_report_to_json(h),
        None => JsonValue::Null,
    };
    add_member(&mut out, "host", host);
    let mut items: Vec<JsonValue> = Vec::new();
    let mut i: usize = 0;
    while i < report.entries.len()
        invariant
            i <= report.entries@.len(),
            items@.len() == i,
            forall|k: int| 0 <= k < i ==> json_view(#[trigger] items@[k]) == report_json(report.entries@[k]@),
        decreases report.entries.len() - i,
    {
        items.push(trust_manifest_report_to_json(&report.entries[i]));
        i = i + 1;
    }
    proof {
        lemma_array_view(items@);
        assert(array_view(items@) =~= rviews(report.entries@).map_values(report_writer()));
    }
    add_member(&mut out, "entries", JsonValue::Array(items));
    JsonValue::Object(out)
}

/// The text `validate` prints for a result: on success, on standard
/// output, the level and any warnings, exiting 0; on failure, on standard
/// error, the level, the errors and any warnings, exiting 1.
pub open spec fn validation_text(valid: bool, level: ConformanceLevel, errors: Seq<DiagView>, warnings: Seq<DiagView>) -> Seq<char> {
    (if valid {
        "catalog is valid\n"@
    } else {
        "catalog is invalid\n"@
    }) + "conformance: "@ + level_name(level) + "\n"@ + (if valid {
        Seq::empty()
    } else {
        "errors"@ + ":\n"@ + diagnostic_lines(errors)
    }) + if warnings.len() > 0 {
        "warnings"@ + ":\n"@ + diagnostic_lines(warnings)
    } else {
        Seq::empty()
    }
}

/// What `validate` prints as text for a result, and its exit status.
pub fn validation_text_output(result: &ValidationResult) -> (r: CommandOutput)
    ensures
        ({
            let text = validation_text(
                result.is_valid,
                result.conformance_level,
                dviews(result.errors@),
                dviews(result.warnings@),
            );
            if result.is_valid {
                r.stdout@ == text && r.stderr@ == Seq::<char>::empty() && r.exit_code == 0
            } else {
                r.stderr@ == text && r.stdout@ == Seq::<char>::empty() && r.exit_code == 1
            }
        }),
{
    let mut text = String::from_str(if result.is_valid { "catalog is valid\n" } else { "catalog is invalid\n" });
    text.append("conformance: ");
    text.append(conformance_level_name(result.conformance_level));
    text.append("\n");
    if !result.is_valid {
        let e = diagnostics_text("errors", &result.errors);
        text.append(e.as_str());
    }
    if result.warnings.len() > 0 {
        let w = diagnostics_text("warnings", &result.warnings);
        text.append(w.as_str());
    }
    assert(text@ =~= validation_text(
        result.is_valid,
        result.conformance_level,
        dviews(result.errors@),
        dviews(result.warnings@),
    ));
    if result.is_valid {
        CommandOutput { stdout: text, stderr: String::new(), exit_code: 0 }
    } else {
        CommandOutput { stdout: String::new(), stderr: text, exit_code: 1 }
    }
}

/// What `trust inspect` prints as text for a report, and its exit status:
/// the report on standard output, exiting 0, or, when it has an error, on
/// standard error, exiting 1.
pub fn trust_text_output(report: &CatalogTrustReport) -> (r: CommandOutput)
    ensures
        ({
            let text = trust_report_text(fviews(report.findings@), crate::trust::opt_report_view(report.host), rviews(report.entries@));
            if has_error_finding(fviews(report.findings@)) {
                r.stderr@ == text && r.stdout@ == Seq::<char>::empty() && r.exit_code == 1
            } else {
                r.stdout@ == text && r.stderr@ == Seq::<char>::empty() && r.exit_code == 0
            }
        }),
{
    let text = write_trust_report(report);
    if trust_report_has_errors(report) {
        CommandOutput { stdout: String::new(), stderr: text, exit_code: 1 }
    } else {
        CommandOutput { stdout: text, stderr: String::new(), exit_code: 0 }
    }
}

} // verus!
