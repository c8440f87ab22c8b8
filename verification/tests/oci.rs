use ai_catalog::cosign::{attach_cosign_verification_artifacts, trust_signing_requests};
use ai_catalog::digest::content_hash;
use ai_catalog::json::{JsonMember, JsonValue};
use ai_catalog::jsontext::{to_json_bytes, to_json_text};
use ai_catalog::cli::OciPushOptions;
use ai_catalog::import::{assemble_import, blobs_of_manifest, check_layout_version, manifests_to_read};
use ai_catalog::keyed::keys_in_order;
use ai_catalog::layout::{layout_for_export, select_layout_root_descriptor, split_digest};
use ai_catalog::push::{PushAction, first_push_action, oras_push_plan, push_step};
use ai_catalog::model::AiCatalog;
use ai_catalog::oci::{
    artifact_set_is_wf, clone_image_manifest, image_manifest_to_json, OciArtifactSet, OciDescriptor, OciImageIndex, OciImageManifest, COSIGN_PUBLIC_KEY_ARTIFACT_TYPE, COSIGN_SIGNATURE_ARTIFACT_TYPE,
    ENTRY_CONFIG_MEDIA_TYPE, OCI_IMAGE_INDEX_MEDIA_TYPE, OCI_IMAGE_MANIFEST_MEDIA_TYPE, OCI_REF_NAME_ANNOTATION,
    TRUST_MANIFEST_ARTIFACT_TYPE, AI_CATALOG_MEDIA_TYPE,
};
use ai_catalog::pack::{pack_catalog, OciError};
use ai_catalog::render::catalog_to_json;
use ai_catalog::schema::catalog_from_json;
use ai_catalog::unpack::unpack_catalog;

fn to_json(value: &serde_json::Value) -> JsonValue {
    match value {
        serde_json::Value::Null => JsonValue::Null,
        serde_json::Value::Bool(b) => JsonValue::Bool(*b),
        serde_json::Value::Number(n) => JsonValue::Number(n.to_string()),
        serde_json::Value::String(s) => JsonValue::Str(s.clone()),
        serde_json::Value::Array(items) => JsonValue::Array(items.iter().map(to_json).collect()),
        serde_json::Value::Object(members) => JsonValue::Object(
            members
                .iter()
                .map(|(key, value)| JsonMember { key: key.clone(), value: to_json(value) })
                .collect(),
        ),
    }
}

fn parse_catalog(document: &str) -> AiCatalog {
    let value: serde_json::Value = serde_json::from_str(document).expect("catalog should parse");
    catalog_from_json(&to_json(&value)).expect("catalog should parse")
}

fn catalog_text(catalog: &AiCatalog) -> String {
    to_json_text(&catalog_to_json(catalog))
}

/// Reads every blob and every annotation of the root index as JSON, as
/// `serde_json` does, and unpacks with what was read.
fn unpack(artifacts: &OciArtifactSet) -> Result<AiCatalog, OciError> {
    let read = |bytes: &[u8]| {
        serde_json::from_slice::<serde_json::Value>(bytes).map(|value| to_json(&value)).map_err(|error| error.to_string())
    };
    let blobs: Vec<(String, Result<JsonValue, String>)> =
        artifacts.blobs.iter().map(|(digest, bytes)| (digest.clone(), read(bytes))).collect();
    let annotations: Vec<(String, Result<JsonValue, String>)> =
        artifacts.index.annotations.iter().map(|(key, text)| (key.clone(), read(text.as_bytes()))).collect();
    unpack_catalog(artifacts, &blobs, &annotations)
}

fn referrers_of<'a>(artifacts: &'a OciArtifactSet, digest: &str) -> &'a Vec<ai_catalog::oci::OciImageManifest> {
    &artifacts.referrers.iter().find(|(key, _)| key == digest).expect("referrers should exist").1
}

fn annotation<'a>(pairs: &'a [(String, String)], key: &str) -> Option<&'a str> {
    pairs.iter().find(|(k, _)| k == key).map(|(_, v)| v.as_str())
}

const INLINE_CATALOG: &str = r#"{
  "specVersion": "1.0",
  "entries": [
    {
      "identifier": "urn:example:inline",
      "displayName": "Inline Entry",
      "type": "application/json",
      "data": {
        "name": "inline"
      },
      "trustManifest": {
        "identity": "urn:example:inline"
      }
    }
  ]
}"#;

#[test]
fn packs_inline_entries_and_trust_manifests() {
    let catalog = parse_catalog(
        r#"{
          "specVersion": "1.0",
          "extensions": {
            "com.example.scope": "test"
          },
          "entries": [
            {
              "identifier": "urn:example:inline",
              "displayName": "Inline Entry",
              "type": "application/json",
              "data": {
                "name": "inline"
              },
              "trustManifest": {
                "identity": "urn:example:inline"
              }
            }
          ]
        }"#,
    );

    let artifacts = pack_catalog(&catalog).ok().expect("catalog should pack");
    let manifest_digest = artifacts.index.manifests[0].digest.clone();

    assert_eq!(referrers_of(&artifacts, &manifest_digest).len(), 1);
    assert_eq!(
        referrers_of(&artifacts, &manifest_digest)[0].artifact_type.as_deref(),
        Some(TRUST_MANIFEST_ARTIFACT_TYPE)
    );

    let unpacked = unpack(&artifacts).ok().expect("artifacts should unpack");

    assert_eq!(catalog_text(&unpacked), catalog_text(&catalog));
}

#[test]
fn rejects_entries_with_invalid_content_shape() {
    let missing_payload = parse_catalog(
        r#"{
          "specVersion": "1.0",
          "entries": [
            {
              "identifier": "urn:example:missing",
              "displayName": "Missing",
              "type": "application/json"
            }
          ]
        }"#,
    );

    assert!(matches!(
        pack_catalog(&missing_payload),
        Err(OciError::InvalidEntryContent(identifier)) if identifier == "urn:example:missing"
    ));
}

#[test]
fn preserves_catalog_annotations() {
    let catalog = parse_catalog(
        r#"{
          "specVersion": "1.0",
          "host": {
            "displayName": "Example Host"
          },
          "extensions": {
            "com.example.scope": "demo"
          },
          "entries": [
            {
              "identifier": "urn:example:url",
              "displayName": "External Entry",
              "type": "application/json",
              "url": "https://example.com/entry.json"
            }
          ]
        }"#,
    );

    let artifacts = pack_catalog(&catalog).ok().expect("catalog should pack");

    assert_eq!(annotation(&artifacts.index.annotations, "ai-catalog.specVersion"), Some("1.0"));
    assert!(annotation(&artifacts.index.annotations, "ai-catalog.host").is_some());
    assert!(annotation(&artifacts.index.annotations, "ai-catalog.extensions").is_some());
}

#[test]
fn unpacks_catalog_with_additional_cosign_referrers() {
    let catalog = parse_catalog(INLINE_CATALOG);
    let mut artifacts = pack_catalog(&catalog).ok().expect("catalog should pack");
    let entry_digest = artifacts.index.manifests[0].digest.clone();

    attach_cosign_verification_artifacts(
        &mut artifacts,
        &entry_digest,
        "urn:example:inline",
        "sha256:1234abcd",
        b"cosign-signature",
        b"-----BEGIN PUBLIC KEY-----\nZmFrZQ==\n-----END PUBLIC KEY-----\n",
    )
    .ok()
    .expect("cosign artifacts should attach");

    let unpacked = unpack(&artifacts).ok().expect("artifacts should still unpack");

    assert_eq!(catalog_text(&unpacked), catalog_text(&catalog));
    assert_eq!(referrers_of(&artifacts, &entry_digest).len(), 3);
}

#[test]
fn cosign_referrers_follow_the_trust_manifest_in_order() {
    let catalog = parse_catalog(INLINE_CATALOG);
    let mut artifacts = pack_catalog(&catalog).ok().expect("catalog should pack");
    let entry_digest = artifacts.index.manifests[0].digest.clone();
    let blobs_before = artifacts.blobs.len();

    attach_cosign_verification_artifacts(&mut artifacts, &entry_digest, "urn:example:inline", "sha256:1234abcd", b"sig", b"key")
        .ok()
        .expect("cosign artifacts should attach");

    let types: Vec<&str> = referrers_of(&artifacts, &entry_digest)
        .iter()
        .filter_map(|manifest| manifest.artifact_type.as_deref())
        .collect();
    assert_eq!(types, vec![TRUST_MANIFEST_ARTIFACT_TYPE, COSIGN_SIGNATURE_ARTIFACT_TYPE, COSIGN_PUBLIC_KEY_ARTIFACT_TYPE]);
    assert_eq!(artifacts.blobs.len(), blobs_before + 4);
    let signature = &referrers_of(&artifacts, &entry_digest)[1];
    assert_eq!(annotation(&signature.annotations, "ai-catalog.verificationMaterial"), Some("cosign-signature"));
    assert_eq!(annotation(&signature.annotations, "ai-catalog.payloadDigest"), Some("sha256:1234abcd"));
    assert_eq!(signature.subject.as_ref().map(|d| d.digest.as_str()), Some(entry_digest.as_str()));
}

#[test]
fn cosign_attachment_requires_a_listed_subject() {
    let catalog = parse_catalog(INLINE_CATALOG);
    let mut artifacts = pack_catalog(&catalog).ok().expect("catalog should pack");
    let blobs_before = artifacts.blobs.len();

    let result = attach_cosign_verification_artifacts(&mut artifacts, "sha256:missing", "urn:example:inline", "sha256:1", b"sig", b"key");

    assert!(matches!(result, Err(OciError::MissingSubjectDescriptor(digest)) if digest == "sha256:missing"));
    assert_eq!(artifacts.blobs.len(), blobs_before);
}

#[test]
fn pack_stores_configuration_data_and_trust_blobs() {
    let catalog = parse_catalog(INLINE_CATALOG);
    let artifacts = pack_catalog(&catalog).ok().expect("catalog should pack");

    assert_eq!(artifacts.index.media_type, OCI_IMAGE_INDEX_MEDIA_TYPE);
    assert_eq!(artifacts.index.artifact_type.as_deref(), Some(AI_CATALOG_MEDIA_TYPE));
    assert_eq!(artifacts.index.manifests.len(), 1);
    assert_eq!(artifacts.manifests.len(), 1);
    assert_eq!(artifacts.blobs.len(), 3);
    let manifest = &artifacts.manifests[0].1;
    assert_eq!(manifest.config.media_type, ENTRY_CONFIG_MEDIA_TYPE);
    assert_eq!(manifest.media_type, OCI_IMAGE_MANIFEST_MEDIA_TYPE);
    assert_eq!(manifest.layers.len(), 1);
    assert_eq!(annotation(&manifest.annotations, "ai-catalog.identifier"), Some("urn:example:inline"));
    assert_eq!(annotation(&manifest.annotations, "ai-catalog.displayName"), Some("Inline Entry"));
    let data = artifacts
        .blobs
        .iter()
        .find(|(digest, _)| *digest == manifest.layers[0].digest)
        .expect("data blob should be stored");
    assert_eq!(data.1, br#"{"name":"inline"}"#.to_vec());
    assert!(manifest.layers[0].digest.starts_with("sha256:"));
    assert_eq!(manifest.layers[0].digest.len(), "sha256:".len() + 64);
    assert_eq!(manifest.layers[0].size, data.1.len() as u64);
}

#[test]
fn unpack_rejects_other_artifact_types_and_missing_spec_version() {
    let catalog = parse_catalog(INLINE_CATALOG);
    let mut artifacts = pack_catalog(&catalog).ok().expect("catalog should pack");
    artifacts.index.artifact_type = Some("application/other".to_string());
    assert!(matches!(unpack(&artifacts), Err(OciError::UnsupportedIndexArtifactType)));

    let mut artifacts = pack_catalog(&catalog).ok().expect("catalog should pack");
    artifacts.index.annotations.retain(|(key, _)| key != "ai-catalog.specVersion");
    assert!(matches!(unpack(&artifacts), Err(OciError::MissingSpecVersion)));
}

#[test]
fn unpack_reports_missing_manifests_and_blobs() {
    let catalog = parse_catalog(INLINE_CATALOG);
    let mut artifacts = pack_catalog(&catalog).ok().expect("catalog should pack");
    let digest = artifacts.index.manifests[0].digest.clone();
    artifacts.manifests.clear();
    assert!(matches!(unpack(&artifacts), Err(OciError::MissingManifest(d)) if d == digest));

    let mut artifacts = pack_catalog(&catalog).ok().expect("catalog should pack");
    let config = artifacts.manifests[0].1.config.digest.clone();
    artifacts.blobs.retain(|(key, _)| *key != config);
    assert!(matches!(unpack(&artifacts), Err(OciError::MissingBlob(d)) if d == config));
}

#[test]
fn splits_digests_around_the_first_colon() {
    let (algorithm, encoded) = split_digest("sha256:abc:def").ok().expect("digest should split");
    assert_eq!(algorithm, "sha256");
    assert_eq!(encoded, "abc:def");
    assert!(matches!(split_digest(":abc"), Err(OciError::InvalidDigest(d)) if d == ":abc"));
    assert!(matches!(split_digest("sha256:"), Err(OciError::InvalidDigest(d)) if d == "sha256:"));
    assert!(matches!(split_digest("sha256"), Err(OciError::InvalidDigest(d)) if d == "sha256"));
}

#[test]
fn layout_lists_referrers_and_writes_their_blobs() {
    let catalog = parse_catalog(INLINE_CATALOG);
    let artifacts = pack_catalog(&catalog).ok().expect("catalog should pack");
    let manifest_digest = artifacts.index.manifests[0].digest.clone();
    let config_digest = artifacts.manifests[0].1.config.digest.clone();

    let layout = layout_for_export(&artifacts, "latest").ok().expect("layout export should succeed");

    // The root index, one entry manifest, its trust referrer.
    assert_eq!(layout.index.manifests.len(), 3);
    assert_eq!(annotation(&layout.index.manifests[0].annotations, OCI_REF_NAME_ANNOTATION), Some("latest"));
    assert_eq!(layout.index.manifests[1].digest, manifest_digest);
    let referrer = &layout.index.manifests[2];
    assert_eq!(referrer.artifact_type.as_deref(), Some(TRUST_MANIFEST_ARTIFACT_TYPE));
    let encoded = |digest: &str| digest.trim_start_matches("sha256:").to_string();
    assert!(layout.blobs.iter().any(|b| b.algorithm == "sha256" && b.encoded == encoded(&referrer.digest)));
    assert!(layout.blobs.iter().any(|b| b.algorithm == "sha256" && b.encoded == encoded(&config_digest)));
    // Root index, entry manifest, trust referrer, then the three blobs.
    assert_eq!(layout.blobs.len(), 6);
    assert_eq!(layout.blobs[0].encoded, encoded(&layout.index.manifests[0].digest));
}

#[test]
fn export_rejects_blank_tags() {
    let catalog = parse_catalog(INLINE_CATALOG);
    let artifacts = pack_catalog(&catalog).ok().expect("catalog should pack");
    assert!(matches!(layout_for_export(&artifacts, " \t"), Err(OciError::InvalidLayoutTag)));
    assert!(matches!(layout_for_export(&artifacts, ""), Err(OciError::InvalidLayoutTag)));
}

fn root(name: Option<&str>) -> OciDescriptor {
    OciDescriptor {
        media_type: OCI_IMAGE_INDEX_MEDIA_TYPE.to_string(),
        digest: "sha256:aa".to_string(),
        size: 1,
        artifact_type: Some(AI_CATALOG_MEDIA_TYPE.to_string()),
        annotations: name.map(|n| vec![(OCI_REF_NAME_ANNOTATION.to_string(), n.to_string())]).unwrap_or_default(),
    }
}

fn index_of(manifests: Vec<OciDescriptor>) -> OciImageIndex {
    OciImageIndex {
        schema_version: 2,
        media_type: OCI_IMAGE_INDEX_MEDIA_TYPE.to_string(),
        artifact_type: None,
        manifests,
        annotations: Vec::new(),
    }
}

#[test]
fn selects_layout_roots_by_name_or_uniqueness() {
    let mut other = root(Some("other"));
    other.artifact_type = None;
    let index = index_of(vec![other, root(Some("v1"))]);
    let selected = select_layout_root_descriptor(&index, None).ok().expect("single root should be selected");
    assert_eq!(annotation(&selected.annotations, OCI_REF_NAME_ANNOTATION), Some("v1"));
    assert!(select_layout_root_descriptor(&index, Some("v1")).is_ok());
    assert!(matches!(
        select_layout_root_descriptor(&index, Some("other")),
        Err(OciError::MissingLayoutReference(reference)) if reference == "other"
    ));

    let two = index_of(vec![root(Some("a")), root(Some("b"))]);
    assert!(matches!(select_layout_root_descriptor(&two, None), Err(OciError::AmbiguousLayoutReference)));
    let none = index_of(Vec::new());
    assert!(matches!(
        select_layout_root_descriptor(&none, None),
        Err(OciError::MissingLayoutReference(reference)) if reference == "latest"
    ));
}

fn descriptor_from(value: &serde_json::Value) -> OciDescriptor {
    OciDescriptor {
        media_type: value["mediaType"].as_str().expect("media type").to_string(),
        digest: value["digest"].as_str().expect("digest").to_string(),
        size: value["size"].as_u64().expect("size"),
        artifact_type: value.get("artifactType").and_then(|v| v.as_str()).map(str::to_string),
        annotations: value
            .get("annotations")
            .and_then(|v| v.as_object())
            .map(|m| m.iter().map(|(k, v)| (k.clone(), v.as_str().expect("text").to_string())).collect())
            .unwrap_or_default(),
    }
}

fn index_from(value: &serde_json::Value) -> OciImageIndex {
    OciImageIndex {
        schema_version: value["schemaVersion"].as_u64().expect("schema version") as u32,
        media_type: value["mediaType"].as_str().expect("media type").to_string(),
        artifact_type: value.get("artifactType").and_then(|v| v.as_str()).map(str::to_string),
        manifests: value["manifests"].as_array().expect("manifests").iter().map(descriptor_from).collect(),
        annotations: value
            .get("annotations")
            .and_then(|v| v.as_object())
            .map(|m| m.iter().map(|(k, v)| (k.clone(), v.as_str().expect("text").to_string())).collect())
            .unwrap_or_default(),
    }
}

fn manifest_from(value: &serde_json::Value) -> OciImageManifest {
    OciImageManifest {
        schema_version: value["schemaVersion"].as_u64().expect("schema version") as u32,
        media_type: value["mediaType"].as_str().expect("media type").to_string(),
        artifact_type: value.get("artifactType").and_then(|v| v.as_str()).map(str::to_string),
        config: descriptor_from(&value["config"]),
        layers: value.get("layers").and_then(|v| v.as_array()).map(|l| l.iter().map(descriptor_from).collect()).unwrap_or_default(),
        subject: value.get("subject").map(descriptor_from),
        annotations: value
            .get("annotations")
            .and_then(|v| v.as_object())
            .map(|m| m.iter().map(|(k, v)| (k.clone(), v.as_str().expect("text").to_string())).collect())
            .unwrap_or_default(),
    }
}

/// Exports to an in-memory layout and imports it back, as a reader of the
/// layout's files would.
fn export_then_import(artifacts: &OciArtifactSet, tag: &str, ref_name: Option<&str>) -> Result<OciArtifactSet, OciError> {
    let layout = layout_for_export(artifacts, tag).ok().expect("layout export should succeed");
    let files: std::collections::BTreeMap<(String, String), Vec<u8>> =
        layout.blobs.iter().map(|b| ((b.algorithm.clone(), b.encoded.clone()), b.bytes.clone())).collect();
    let read = |digest: &str| {
        let (algorithm, encoded) = split_digest(digest).ok().expect("digest should split");
        files.get(&(algorithm, encoded)).cloned()
    };
    let root = select_layout_root_descriptor(&layout.index, ref_name)?;
    let root_json: serde_json::Value = serde_json::from_slice(&read(&root.digest).expect("root blob")).expect("root json");
    let root_index = index_from(&root_json);
    let mut manifests: Vec<(String, OciImageManifest)> = Vec::new();
    let mut blobs: std::collections::BTreeMap<String, Vec<u8>> = std::collections::BTreeMap::new();
    for digest in manifests_to_read(&layout.index, &root.digest, &root_index) {
        let value: serde_json::Value = serde_json::from_slice(&read(&digest).expect("manifest blob")).expect("manifest json");
        let manifest = manifest_from(&value);
        for blob in blobs_of_manifest(&manifest) {
            if let Some(bytes) = read(&blob) {
                blobs.insert(blob, bytes);
            }
        }
        manifests.push((digest, manifest));
    }
    let blobs: Vec<(String, Vec<u8>)> = blobs.into_iter().collect();
    assemble_import(&layout.index, &root.digest, root_index, &manifests, &blobs)
}

#[test]
fn imports_exported_layout_referrers() {
    let catalog = parse_catalog(INLINE_CATALOG);
    let artifacts = pack_catalog(&catalog).ok().expect("catalog should pack");
    let entry_digest = artifacts.index.manifests[0].digest.clone();

    let imported = export_then_import(&artifacts, "inline", Some("inline")).ok().expect("layout import should succeed");

    assert_eq!(referrers_of(&imported, &entry_digest).len(), 1);
    assert_eq!(
        referrers_of(&imported, &entry_digest)[0].artifact_type.as_deref(),
        Some(TRUST_MANIFEST_ARTIFACT_TYPE)
    );
}

#[test]
fn imported_layout_unpacks_to_the_packed_catalog() {
    let catalog = parse_catalog(INLINE_CATALOG);
    let mut artifacts = pack_catalog(&catalog).ok().expect("catalog should pack");
    let entry_digest = artifacts.index.manifests[0].digest.clone();
    attach_cosign_verification_artifacts(&mut artifacts, &entry_digest, "urn:example:inline", "sha256:1234abcd", b"sig", b"key")
        .ok()
        .expect("cosign artifacts should attach");

    let imported = export_then_import(&artifacts, "latest", None).ok().expect("layout import should succeed");
    let unpacked = unpack(&imported).ok().expect("imported layout should unpack");

    assert_eq!(imported.index.artifact_type.as_deref(), Some(AI_CATALOG_MEDIA_TYPE));
    assert_eq!(catalog_text(&unpacked), catalog_text(&catalog));
    let types: Vec<&str> = referrers_of(&imported, &entry_digest)
        .iter()
        .filter_map(|manifest| manifest.artifact_type.as_deref())
        .collect();
    assert_eq!(types, vec![TRUST_MANIFEST_ARTIFACT_TYPE, COSIGN_SIGNATURE_ARTIFACT_TYPE, COSIGN_PUBLIC_KEY_ARTIFACT_TYPE]);
    assert_eq!(imported.blobs.len(), artifacts.blobs.len());
}

#[test]
fn rejects_unknown_layout_reference() {
    let catalog = parse_catalog(INLINE_CATALOG);
    let artifacts = pack_catalog(&catalog).ok().expect("catalog should pack");

    assert!(matches!(
        export_then_import(&artifacts, "latest", Some("missing")),
        Err(OciError::MissingLayoutReference(reference)) if reference == "missing"
    ));
}

#[test]
fn import_reports_manifests_and_blobs_not_read() {
    let catalog = parse_catalog(INLINE_CATALOG);
    let artifacts = pack_catalog(&catalog).ok().expect("catalog should pack");
    let layout = layout_for_export(&artifacts, "latest").ok().expect("layout export should succeed");
    let root_digest = layout.index.manifests[0].digest.clone();
    let entry_digest = artifacts.index.manifests[0].digest.clone();
    let config_digest = artifacts.manifests[0].1.config.digest.clone();

    let missing_manifest = assemble_import(&layout.index, &root_digest, pack_catalog(&catalog).ok().expect("catalog should pack").index, &Vec::new(), &Vec::new());
    assert!(matches!(missing_manifest, Err(OciError::MissingManifest(d)) if d == entry_digest));

    // The entry manifest alone: the trust manifest referrer the layout
    // lists was not read either.
    let referrer_digest = layout.index.manifests[2].digest.clone();
    let manifests = vec![(entry_digest.clone(), clone_image_manifest(&artifacts.manifests[0].1))];
    let missing_referrer = assemble_import(&layout.index, &root_digest, pack_catalog(&catalog).ok().expect("catalog should pack").index, &manifests, &Vec::new());
    assert!(matches!(missing_referrer, Err(OciError::MissingManifest(d)) if d == referrer_digest));

    let manifests = vec![
        (entry_digest.clone(), clone_image_manifest(&artifacts.manifests[0].1)),
        (referrer_digest, clone_image_manifest(&artifacts.referrers[0].1[0])),
    ];
    let missing_blob = assemble_import(&layout.index, &root_digest, pack_catalog(&catalog).ok().expect("catalog should pack").index, &manifests, &Vec::new());
    assert!(matches!(missing_blob, Err(OciError::MissingBlob(d)) if d == config_digest));
}

#[test]
fn checks_layout_versions() {
    assert!(check_layout_version("1.0.0").is_ok());
    assert!(matches!(check_layout_version("2.0.0"), Err(OciError::UnsupportedLayoutVersion(v)) if v == "2.0.0"));
}

#[test]
fn packed_artifact_sets_keep_their_keys_in_order() {
    let catalog = parse_catalog(INLINE_CATALOG);
    let mut artifacts = pack_catalog(&catalog).ok().expect("catalog should pack");
    assert!(artifact_set_is_wf(&artifacts));
    assert!(keys_in_order(&artifacts.blobs));
    artifacts.blobs.reverse();
    assert!(!keys_in_order(&artifacts.blobs));
    assert!(!artifact_set_is_wf(&artifacts));
}

#[test]
fn plans_oras_pushes_for_the_root_and_each_referred_manifest() {
    let catalog = parse_catalog(INLINE_CATALOG);
    let artifacts = pack_catalog(&catalog).ok().expect("catalog should pack");
    let entry_digest = artifacts.index.manifests[0].digest.clone();
    let options = OciPushOptions {
        path: "-".to_string(),
        target: "registry.example.com/catalogs/demo:v1".to_string(),
        tag: "v1".to_string(),
        to_oci_layout_path: None,
        plain_http: true,
        insecure: false,
        cosign_key: None,
    };

    let plan = oras_push_plan(&artifacts, "/tmp/layout", &options);

    assert_eq!(plan.len(), 2);
    assert_eq!(plan[0], vec!["cp", "-r", "--from-oci-layout", "--to-plain-http", "/tmp/layout:v1", "registry.example.com/catalogs/demo:v1"]);
    assert_eq!(
        plan[1],
        vec![
            "cp".to_string(),
            "-r".to_string(),
            "--from-oci-layout".to_string(),
            "--to-plain-http".to_string(),
            format!("/tmp/layout@{entry_digest}"),
            "registry.example.com/catalogs/demo".to_string(),
        ]
    );
}

#[test]
fn lists_what_signing_each_trust_manifest_asks_for() {
    let catalog = parse_catalog(INLINE_CATALOG);
    let artifacts = pack_catalog(&catalog).ok().expect("catalog should pack");
    let requests = trust_signing_requests(&artifacts);

    assert_eq!(requests.len(), 1);
    let (subject, identity, payload) = &requests[0];
    assert_eq!(subject, &artifacts.index.manifests[0].digest);
    assert_eq!(identity, "urn:example:inline");
    let referrer = &referrers_of(&artifacts, subject)[0];
    assert_eq!(payload, &referrer.config.digest);
    assert!(artifacts.blobs.iter().any(|(digest, _)| digest == payload));

    let plain = parse_catalog(r#"{"specVersion":"1.0","entries":[{"identifier":"urn:example:a","type":"application/json","url":"https://example.com/a.json"}]}"#);
    let plain_artifacts = pack_catalog(&plain).ok().expect("catalog should pack");
    assert!(trust_signing_requests(&plain_artifacts).is_empty());
}

#[test]
fn push_steps_stop_at_the_first_failure() {
    assert_eq!(first_push_action(3), PushAction::Run(0));
    assert_eq!(first_push_action(0), PushAction::Finish(0));
    assert_eq!(push_step(3, 0, Ok(())), PushAction::Run(1));
    assert_eq!(push_step(3, 2, Ok(())), PushAction::Finish(0));
    assert_eq!(push_step(3, 1, Err(Some(7))), PushAction::Finish(7));
    assert_eq!(push_step(3, 0, Err(None)), PushAction::Finish(1));
}

#[test]
fn packed_and_cosigned_blobs_are_stored_under_their_digests() {
    let catalog = parse_catalog(INLINE_CATALOG);
    let mut artifacts = pack_catalog(&catalog).ok().expect("catalog should pack");
    let entry_digest = artifacts.index.manifests[0].digest.clone();
    attach_cosign_verification_artifacts(&mut artifacts, &entry_digest, "urn:example:inline", "sha256:1234abcd", b"sig", b"key")
        .ok()
        .expect("cosign artifacts should attach");

    for (digest, bytes) in &artifacts.blobs {
        assert_eq!(digest, &format!("sha256:{}", content_hash(bytes)));
    }
    let held = |digest: &str| artifacts.blobs.iter().any(|(d, _)| d == digest);
    for (digest, manifest) in &artifacts.manifests {
        assert_eq!(digest, &format!("sha256:{}", content_hash(&to_json_bytes(&image_manifest_to_json(manifest)))));
        assert!(held(&manifest.config.digest));
        assert!(manifest.layers.iter().all(|layer| held(&layer.digest)));
    }
    for (_, referrers) in &artifacts.referrers {
        for manifest in referrers {
            assert!(held(&manifest.config.digest));
            assert!(manifest.layers.iter().all(|layer| held(&layer.digest)));
        }
    }
}

#[test]
fn unpacks_what_serde_json_reads_back_in_key_order() {
    let catalog = parse_catalog(
        r#"{
          "specVersion": "1.0",
          "host": {"displayName": "Host", "identifier": "did:web:example.com", "zeta": 1, "alpha": 2},
          "extensions": {"com.example.z": {"b": 1, "a": 2}, "com.example.a": true},
          "entries": [
            {
              "identifier": "urn:example:agent",
              "displayName": "Agent",
              "description": "An agent",
              "type": "application/json",
              "tags": ["b", "a"],
              "version": "1.0.0",
              "data": {"z": 1, "a": {"y": 2, "b": 3}},
              "publisher": {"identifier": "did:web:example.com", "displayName": "Example", "note": "x"},
              "extensions": {"com.example.k": 1},
              "custom": {"q": 1, "p": 2},
              "trustManifest": {
                "identity": "urn:example:agent",
                "trustSchema": {"identifier": "s", "version": "1", "extra": true},
                "attestations": [{"type": "SOC2", "uri": "https://example.com/a", "note": 1}],
                "extensions": {"com.example.t": 1}
              }
            }
          ]
        }"#,
    );
    let artifacts = pack_catalog(&catalog).ok().expect("catalog should pack");

    let unpacked = unpack(&artifacts).ok().expect("artifacts should unpack");

    assert_eq!(catalog_text(&unpacked), catalog_text(&catalog));
}
