use ai_catalog::cache::{join_path, CacheManager};
use ai_catalog::json::{JsonMember, JsonValue};
use ai_catalog::jsontext::{to_json_bytes, to_json_text};
use ai_catalog::model::AiCatalog;
use ai_catalog::render::catalog_to_json;
use ai_catalog::schema::catalog_from_json;

fn to_json(value: &serde_json::Value) -> JsonValue {
    match value {
        serde_json::Value::Null => JsonValue::Null,
        serde_json::Value::Bool(b) => JsonValue::Bool(*b),
        serde_json::Value::Number(n) => JsonValue::Number(n.to_string()),
        serde_json::Value::String(s) => JsonValue::Str(s.clone()),
        serde_json::Value::Array(items) => JsonValue::Array(items.iter().map(to_json).collect()),
        serde_json::Value::Object(members) => JsonValue::Object(
            members
                .iter()
                .map(|(key, value)| JsonMember { key: key.clone(), value: to_json(value) })
                .collect(),
        ),
    }
}

fn parse_catalog(document: &str) -> AiCatalog {
    let value: serde_json::Value = serde_json::from_str(document).expect("catalog should parse");
    catalog_from_json(&to_json(&value)).expect("catalog should parse")
}

const CATALOG: &str = r#"{
  "specVersion": "1.0",
  "host": { "displayName": "Example Host", "identifier": "did:web:example.com" },
  "entries": [
    {
      "identifier": "urn:example:weather",
      "displayName": "Weather Agent",
      "type": "application/a2a-agent-card+json",
      "url": "https://example.com/weather.json",
      "description": "Forecasts for TODAY",
      "tags": ["forecast", "Climate"]
    },
    {
      "identifier": "urn:example:nested",
      "type": "application/ai-catalog+json",
      "data": { "specVersion": "1.0", "entries": [] },
      "version": "2.1.0",
      "com.example.note": "kept"
    }
  ],
  "extensions": { "com.example.scope": "demo" },
  "x-extra": [1, 2.5, true, null]
}"#;

#[test]
fn written_catalogs_read_back_as_themselves() {
    let catalog = parse_catalog(CATALOG);
    let written = catalog_to_json(&catalog);
    let reread = catalog_from_json(&written).expect("written catalog should read back");
    assert_eq!(to_json_text(&catalog_to_json(&reread)), to_json_text(&written));
}

#[test]
fn writes_members_in_schema_order_with_unknown_members_last() {
    let catalog = parse_catalog(r#"{"x-extra":1,"entries":[],"specVersion":"1.0","signature":"s"}"#);
    assert_eq!(
        to_json_text(&catalog_to_json(&catalog)),
        r#"{"specVersion":"1.0","entries":[],"signature":"s","x-extra":1}"#
    );
}

#[test]
fn compact_json_escapes_strings_as_serde_json_does() {
    let value = JsonValue::Str("a\"b\\c\n\u{1}é".to_string());
    assert_eq!(to_json_text(&value), serde_json::to_string("a\"b\\c\n\u{1}é").expect("string should serialize"));
    assert_eq!(to_json_bytes(&value), serde_json::to_vec("a\"b\\c\n\u{1}é").expect("string should serialize"));
}

#[test]
fn finds_entries_by_identifier() {
    let catalog = parse_catalog(CATALOG);
    let entry = catalog.get_by_id("urn:example:nested").expect("entry should be found");
    assert_eq!(entry.version.as_deref(), Some("2.1.0"));
    assert!(entry.is_nested_catalog());
    assert!(catalog.get_by_id("urn:example:missing").is_none());
    assert!(!catalog.get_by_id("urn:example:weather").expect("entry should be found").is_nested_catalog());
}

#[test]
fn searches_case_insensitively_in_names_descriptions_and_tags() {
    let catalog = parse_catalog(CATALOG);
    let ids = |found: Vec<&ai_catalog::model::CatalogEntry>| found.iter().map(|e| e.identifier.clone()).collect::<Vec<_>>();
    assert_eq!(ids(catalog.search("today")), vec!["urn:example:weather"]);
    assert_eq!(ids(catalog.search("CLIMATE")), vec!["urn:example:weather"]);
    assert_eq!(ids(catalog.search("urn:example")), vec!["urn:example:weather", "urn:example:nested"]);
    assert!(catalog.search("absent").is_empty());
}

#[test]
fn searches_by_regular_expression() {
    let catalog = parse_catalog(CATALOG);
    let found = catalog.search_by_regex("^urn:example:n").ok().expect("pattern should compile");
    assert_eq!(found.len(), 1);
    assert_eq!(found[0].identifier, "urn:example:nested");
    assert!(catalog.search_by_regex("(").is_err());
}

#[test]
fn cache_paths_live_under_the_base_directory() {
    let cache = CacheManager { base_dir: "/home/user/.ai-catalog".to_string() };
    assert_eq!(cache.registry_path(), "/home/user/.ai-catalog/catalog.json");
    assert_eq!(cache.refs_path(), "/home/user/.ai-catalog/refs.json");
    assert_eq!(cache.objects_dir(), "/home/user/.ai-catalog/objects");
    assert_eq!(cache.object_path("abc"), "/home/user/.ai-catalog/objects/abc.json");
    assert_eq!(cache.object_file_url("abc"), "file:///home/user/.ai-catalog/objects/abc.json");
    assert_eq!(join_path("/base/", "x"), "/base/x");
    assert_eq!(join_path("/base", "/abs"), "/abs");
}

#[test]
fn maps_read_from_json_are_written_in_key_order() {
    let catalog = parse_catalog(
        r#"{"specVersion":"1.0","zeta":1,"alpha":{"y":true,"b":false},"entries":[],"extensions":{"com.example.z":1,"com.example.a":2}}"#,
    );

    let extension_keys: Vec<&str> =
        catalog.extensions.as_ref().expect("extensions").iter().map(|m| m.key.as_str()).collect();
    assert_eq!(extension_keys, vec!["com.example.a", "com.example.z"]);
    let extra_keys: Vec<&str> = catalog.extra_fields.iter().map(|m| m.key.as_str()).collect();
    assert_eq!(extra_keys, vec!["alpha", "zeta"]);

    let text = to_json_text(&catalog_to_json(&catalog));
    assert_eq!(
        text,
        r#"{"specVersion":"1.0","entries":[],"extensions":{"com.example.a":2,"com.example.z":1},"alpha":{"b":false,"y":true},"zeta":1}"#
    );
}
