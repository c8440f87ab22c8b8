use ai_catalog::identity::{identity_binds_to_entry, identity_domain, publisher_domain};

#[test]
fn publisher_domain_reads_urn_air_publisher() {
    assert_eq!(
        publisher_domain("urn:air:Acme.com:agent:finance").as_deref(),
        Some("acme.com")
    );
    assert_eq!(publisher_domain("urn:example:agent"), None);
    assert_eq!(publisher_domain("urn:air:"), None);
}

#[test]
fn identity_domain_handles_supported_schemes() {
    assert_eq!(
        identity_domain("did:web:acme.com").as_deref(),
        Some("acme.com")
    );
    assert_eq!(
        identity_domain("did:web:acme.com%3A8443:user").as_deref(),
        Some("acme.com")
    );
    assert_eq!(
        identity_domain("urn:air:acme.com:agent:finance").as_deref(),
        Some("acme.com")
    );
    assert_eq!(
        identity_domain("spiffe://acme.com/workload").as_deref(),
        Some("acme.com")
    );
    assert_eq!(
        identity_domain("https://user@acme.com:8443/path").as_deref(),
        Some("acme.com")
    );
    assert_eq!(identity_domain("plain-identifier"), None);
}

#[test]
fn identity_binds_by_domain_not_exact_match() {
    assert_eq!(
        identity_binds_to_entry("urn:air:acme.com:agent:finance", "did:web:acme.com"),
        Some(true)
    );
    assert_eq!(
        identity_binds_to_entry("urn:air:acme.com:agent:finance", "did:web:evil.example"),
        Some(false)
    );
    assert_eq!(
        identity_binds_to_entry("urn:example:agent", "did:web:acme.com"),
        None
    );
    assert_eq!(
        identity_binds_to_entry("urn:air:acme.com:agent:finance", "plain-identifier"),
        None
    );
}

#[test]
fn identity_domain_is_lowercased_and_trimmed() {
    assert_eq!(
        identity_domain("  DID:WEB:Acme.COM  ").as_deref(),
        Some("acme.com")
    );
    assert_eq!(
        identity_domain("did:web:Acme.com%3a443").as_deref(),
        Some("acme.com")
    );
    assert_eq!(identity_domain("did:web:"), None);
    assert_eq!(identity_domain("https://"), None);
}

#[test]
fn identifier_binds_to_its_own_publisher() {
    let identifier = "urn:air:Example.org:agent:x";
    assert_eq!(identity_binds_to_entry(identifier, identifier), Some(true));
}

#[test]
fn binding_ignores_everything_but_the_domain() {
    assert_eq!(
        identity_binds_to_entry("urn:air:acme.com:a:b", "spiffe://ACME.com:9000/other"),
        identity_binds_to_entry("urn:air:acme.com:a:b", "did:web:acme.com:path")
    );
}
