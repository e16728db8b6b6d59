use vstd::prelude::*;
use crate::settings::model::AppSettings;

verus! {

/// What the command line says about the MCP service.
#[derive(Clone, Copy, Debug, PartialEq, Eq, Structural)]
pub enum McpOverride {
    /// The settings decide.
    Inherit,
    Enabled,
    Disabled,
}

/// The command line overrides the settings; without an override the settings decide.
pub open spec fn mcp_enabled_spec(mcp_override: McpOverride, configured: bool) -> bool {
    match mcp_override {
        McpOverride::Inherit => configured,
        McpOverride::Enabled => true,
        McpOverride::Disabled => false,
    }
}

/// Whether the MCP service runs.
pub fn effective_mcp_enabled(mcp_override: McpOverride, settings: &AppSettings) -> (r: bool)
    ensures
        r == mcp_enabled_spec(mcp_override, settings.mcp.enable),
{
    match mcp_override {
        McpOverride::Inherit => settings.mcp.enable,
        McpOverride::Enabled => true,
        McpOverride::Disabled => false,
    }
}

} // verus!
