use ai_catalog::media::{
    MEDIA_TYPE_A2A_AGENT_CARD, MEDIA_TYPE_AGENT_CARD, MEDIA_TYPE_AGENT_PLUGINS_GZIP,
    MEDIA_TYPE_AGENT_PLUGINS_ZIP, MEDIA_TYPE_AGENT_SKILLS_GZIP, MEDIA_TYPE_AGENT_SKILLS_JSON,
    MEDIA_TYPE_AGENT_SKILLS_MARKDOWN, MEDIA_TYPE_AGENT_SKILLS_ZIP, MEDIA_TYPE_CATALOG,
    MEDIA_TYPE_MCP_SERVER_CARD,
};

#[test]
fn known_media_types_match_spec() {
    assert_eq!(MEDIA_TYPE_CATALOG, "application/ai-catalog+json");
    assert_eq!(MEDIA_TYPE_AGENT_CARD, "application/agent-card+json");
    assert_eq!(MEDIA_TYPE_A2A_AGENT_CARD, "application/a2a-agent-card+json");
    assert_eq!(
        MEDIA_TYPE_MCP_SERVER_CARD,
        "application/mcp-server-card+json"
    );
    assert_eq!(
        MEDIA_TYPE_AGENT_SKILLS_JSON,
        "application/agent-skills+json"
    );
    assert_eq!(
        MEDIA_TYPE_AGENT_SKILLS_MARKDOWN,
        "application/agent-skills+md"
    );
    assert_eq!(MEDIA_TYPE_AGENT_SKILLS_ZIP, "application/agent-skills+zip");
    assert_eq!(
        MEDIA_TYPE_AGENT_SKILLS_GZIP,
        "application/agent-skills+gzip"
    );
    assert_eq!(
        MEDIA_TYPE_AGENT_PLUGINS_ZIP,
        "application/agent-plugins+zip"
    );
    assert_eq!(
        MEDIA_TYPE_AGENT_PLUGINS_GZIP,
        "application/agent-plugins+gzip"
    );
}
