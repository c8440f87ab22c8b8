use ai_catalog::cli::{
    OutputFormat, build_oras_cp_args, build_oras_cp_referrer_args, expect_single_path, help,
    input_label, parse_error_message, parse_oci_export_layout_options, parse_oci_push_options,
    parse_oci_unpack_layout_options, parse_trust_options, parse_validate_options,
    target_repository, usage,
};

fn args(items: &[&str]) -> Vec<String> {
    items.iter().map(|s| s.to_string()).collect()
}

#[test]
fn builds_oras_copy_arguments() {
    let args = build_oras_cp_args(
        "/tmp/source-layout",
        "demo",
        "example.com/catalog:demo",
        Some("/tmp/dest-layout"),
        true,
        true,
    );

    assert_eq!(
        args,
        vec![
            "cp",
            "-r",
            "--from-oci-layout",
            "--to-oci-layout-path",
            "/tmp/dest-layout",
            "--to-plain-http",
            "--to-insecure",
            "/tmp/source-layout:demo",
            "example.com/catalog:demo",
        ]
    );
}

#[test]
fn builds_oras_copy_arguments_for_entry_referrers() {
    let args = build_oras_cp_referrer_args(
        "/tmp/source-layout",
        "sha256:deadbeef",
        "example.com/catalog",
        Some("/tmp/dest-layout"),
        true,
        false,
    );

    assert_eq!(
        args,
        vec![
            "cp",
            "-r",
            "--from-oci-layout",
            "--to-oci-layout-path",
            "/tmp/dest-layout",
            "--to-plain-http",
            "/tmp/source-layout@sha256:deadbeef",
            "example.com/catalog",
        ]
    );
}

#[test]
fn strips_tags_from_target_repositories() {
    assert_eq!(
        target_repository("example.com/catalog:demo"),
        "example.com/catalog"
    );
    assert_eq!(
        target_repository("localhost:5000/example/catalog:demo"),
        "localhost:5000/example/catalog"
    );
    assert_eq!(
        target_repository("example.com/catalog@sha256:deadbeef"),
        "example.com/catalog"
    );
    assert_eq!(
        target_repository("example.com/catalog"),
        "example.com/catalog"
    );
}

#[test]
fn prints_help_without_arguments() {
    let stdout = help();

    assert!(stdout.contains("Usage:"));
    assert!(stdout.contains("validate [--json] <path|->"));
    assert!(stdout.contains("trust inspect [--json] <path|->"));
    assert!(stdout.contains("oci pack <path|->"));
    assert!(stdout.contains("oci export-layout [--tag <tag>] <path|-> <layout-dir>"));
    assert!(stdout.contains("oci unpack-layout [--ref-name <name>] <layout-dir>"));
    assert!(stdout.contains("oci push [--tag <tag>] [--plain-http] [--insecure] [--to-oci-layout-path <layout-dir>] <path|-> <target>"));
}

#[test]
fn rejects_unknown_validate_option() {
    let error = parse_validate_options(&args(&["--yaml", "-"])).unwrap_err();

    assert!(error.contains("unknown validate option: --yaml"));
}

#[test]
fn rejects_missing_format_path() {
    let error = expect_single_path("format", &args(&[])).unwrap_err();

    assert!(error.contains("format expects exactly one <path> argument"));
}

#[test]
fn reads_validate_options() {
    let options = parse_validate_options(&args(&["--json", "catalog.json"])).unwrap();
    assert_eq!(options.output_format, OutputFormat::Json);
    assert_eq!(options.path, "catalog.json");

    let options = parse_validate_options(&args(&["-"])).unwrap();
    assert_eq!(options.output_format, OutputFormat::Text);
    assert_eq!(options.path, "-");

    assert_eq!(
        parse_validate_options(&args(&["a.json", "b.json"])).unwrap_err(),
        "validate expects exactly one <path> argument"
    );
    assert_eq!(
        parse_validate_options(&args(&["--json"])).unwrap_err(),
        "validate expects exactly one <path> argument"
    );
}

#[test]
fn reads_trust_options() {
    let options = parse_trust_options(&args(&["x.json", "--json"])).unwrap();
    assert_eq!(options.output_format, OutputFormat::Json);
    assert_eq!(options.path, "x.json");
    assert_eq!(
        parse_trust_options(&args(&["-v"])).unwrap_err(),
        "unknown trust inspect option: -v"
    );
}

#[test]
fn reads_export_layout_options() {
    let options = parse_oci_export_layout_options(&args(&["-", "out", "--tag", "v1"])).unwrap();
    assert_eq!(options.path, "-");
    assert_eq!(options.layout_path, "out");
    assert_eq!(options.tag, "v1");

    let options = parse_oci_export_layout_options(&args(&["in.json", "out"])).unwrap();
    assert_eq!(options.tag, "latest");

    assert_eq!(
        parse_oci_export_layout_options(&args(&["in.json", "out", "--tag"])).unwrap_err(),
        "oci export-layout requires a value for --tag"
    );
    assert_eq!(
        parse_oci_export_layout_options(&args(&["in.json"])).unwrap_err(),
        "oci export-layout expects exactly one <path|-> and one <layout-dir> argument"
    );
    assert_eq!(
        parse_oci_export_layout_options(&args(&["--force", "a", "b"])).unwrap_err(),
        "unknown oci export-layout option: --force"
    );
}

#[test]
fn reads_push_options() {
    let options = parse_oci_push_options(&args(&[
        "--plain-http",
        "in.json",
        "--to-oci-layout-path",
        "dest",
        "registry.example/catalog:v1",
        "--insecure",
        "--tag",
        "v1",
    ]))
    .unwrap();
    assert_eq!(options.path, "in.json");
    assert_eq!(options.target, "registry.example/catalog:v1");
    assert_eq!(options.tag, "v1");
    assert_eq!(options.to_oci_layout_path.as_deref(), Some("dest"));
    assert!(options.plain_http);
    assert!(options.insecure);

    assert_eq!(
        parse_oci_push_options(&args(&["in.json", "--to-oci-layout-path"])).unwrap_err(),
        "oci push requires a value for --to-oci-layout-path"
    );
    assert_eq!(
        parse_oci_push_options(&args(&["in.json"])).unwrap_err(),
        "oci push expects exactly one <path|-> and one <target> argument"
    );
}

#[test]
fn reads_the_cosign_key_of_push() {
    let options = parse_oci_push_options(&args(&[
        "--cosign-key",
        "key.pem",
        "catalog.json",
        "ghcr.io/example/ai-catalog:latest",
    ]))
    .unwrap();
    assert_eq!(options.path, "catalog.json");
    assert_eq!(options.target, "ghcr.io/example/ai-catalog:latest");
    assert_eq!(options.cosign_key.as_deref(), Some("key.pem"));
    assert_eq!(options.tag, "latest");

    let plain = parse_oci_push_options(&args(&["in.json", "registry.example/catalog:v1"])).unwrap();
    assert_eq!(plain.cosign_key, None);

    assert_eq!(
        parse_oci_push_options(&args(&["in.json", "target", "--cosign-key"])).unwrap_err(),
        "oci push requires a value for --cosign-key"
    );
}

#[test]
fn reads_unpack_layout_options() {
    let options = parse_oci_unpack_layout_options(&args(&["--ref-name", "v2", "layout"])).unwrap();
    assert_eq!(options.layout_path, "layout");
    assert_eq!(options.ref_name.as_deref(), Some("v2"));

    assert_eq!(
        parse_oci_unpack_layout_options(&args(&["a", "b"])).unwrap_err(),
        "oci unpack-layout expects exactly one <layout-dir> argument"
    );
    assert_eq!(
        parse_oci_unpack_layout_options(&args(&["-"])).unwrap_err(),
        "unknown oci unpack-layout option: -"
    );
    assert_eq!(
        parse_oci_unpack_layout_options(&args(&[])).unwrap_err(),
        "oci unpack-layout expects exactly one <layout-dir> argument"
    );
}

#[test]
fn labels_inputs_and_parse_errors() {
    assert_eq!(input_label("-"), "stdin");
    assert_eq!(input_label("a.json"), "'a.json'");
    assert_eq!(parse_error_message("-", "boom"), "failed to parse stdin: boom");
    assert_eq!(
        parse_error_message("a.json", "boom"),
        "failed to parse 'a.json': boom"
    );
}

#[test]
fn usage_ends_with_the_stdin_hint() {
    let text = usage();
    assert!(text.starts_with("Usage:\n"));
    assert!(text.ends_with("Use '-' as <path> to read from stdin.\n"));
    assert_eq!(text.lines().count(), 13);
}
