//! Known catalog-entry media types from the AI Catalog specification.
use vstd::prelude::*;

verus! {

pub const MEDIA_TYPE_CATALOG: &'static str = "application/ai-catalog+json";

pub const MEDIA_TYPE_AGENT_CARD: &'static str = "application/agent-card+json";

pub const MEDIA_TYPE_A2A_AGENT_CARD: &'static str = "application/a2a-agent-card+json";

pub const MEDIA_TYPE_MCP_SERVER_CARD: &'static str = "application/mcp-server-card+json";

pub const MEDIA_TYPE_AGENT_SKILLS_JSON: &'static str = "application/agent-skills+json";

pub const MEDIA_TYPE_AGENT_SKILLS_MARKDOWN: &'static str = "application/agent-skills+md";

pub const MEDIA_TYPE_AGENT_SKILLS_ZIP: &'static str = "application/agent-skills+zip";

pub const MEDIA_TYPE_AGENT_SKILLS_GZIP: &'static str = "application/agent-skills+gzip";

pub const MEDIA_TYPE_AGENT_PLUGINS_ZIP: &'static str = "application/agent-plugins+zip";

pub const MEDIA_TYPE_AGENT_PLUGINS_GZIP: &'static str = "application/agent-plugins+gzip";

} // verus!
