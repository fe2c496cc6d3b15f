//! Installation settings that hold no measurements: the memory backend,
//! the router mode, research and UI settings.
use vstd::prelude::*;

verus! {

/// Memory store backend selection.
#[derive(Debug, Clone, Copy, PartialEq, Eq, Structural)]
pub enum MemoryBackend {
    /// JSON file on disk.
    File,
    /// Redis.
    Redis,
}

/// Default router optimization mode.
#[derive(Debug, Clone, Copy, PartialEq, Eq, Structural)]
pub enum RouterMode {
    /// The cheapest sufficient model.
    Cost,
    /// The lowest-latency sufficient model.
    Speed,
    /// The highest-quality sufficient model.
    Quality,
}

/// Research agent settings.
#[derive(Debug, Clone, Copy, PartialEq, Eq, Structural)]
pub struct ResearchConfig {
    /// Cache lifetime in hours.
    pub cache_ttl_hours: u64,
    /// Maximum parallel sources per query.
    pub max_parallel: usize,
    /// Whether Stack Overflow is a source.
    pub include_stack_overflow: bool,
    /// Whether GitHub signals are a source.
    pub include_github: bool,
}

impl Default for ResearchConfig {
    /// A day of caching, five sources at once, every source included.
    fn default() -> (r: Self)
        ensures
            r == (ResearchConfig {
                cache_ttl_hours: 24,
                max_parallel: 5,
                include_stack_overflow: true,
                include_github: true,
            }),
    {
        ResearchConfig {
            cache_ttl_hours: 24,
            max_parallel: 5,
            include_stack_overflow: true,
            include_github: true,
        }
    }
}

/// UI settings, kept across sessions.
#[derive(Debug, Clone, Copy, PartialEq, Eq, Structural)]
pub struct UiConfig {
    /// Whether the agent panel is visible.
    pub agent_panel_visible: bool,
    /// Whether the file tree is visible.
    pub file_tree_visible: bool,
    /// Whether the terminal is visible.
    pub terminal_visible: bool,
    /// Font size in pixels.
    pub font_size_px: u8,
}

impl Default for UiConfig {
    /// Every panel visible, 13-pixel font.
    fn default() -> (r: Self)
        ensures
            r == (UiConfig {
                agent_panel_visible: true,
                file_tree_visible: true,
                terminal_visible: true,
                font_size_px: 13,
            }),
    {
        UiConfig {
            agent_panel_visible: true,
            file_tree_visible: true,
            terminal_visible: true,
            font_size_px: 13,
        }
    }
}


/// What the status bar shows about the running app.
#[derive(Debug, Clone)]
pub struct AppInfo {
    /// The app's version.
    pub version: String,
    /// The version of the desktop runtime.
    pub tauri_version: String,
    /// The current project root.
    pub project_root: String,
    /// The default model id.
    pub default_model: String,
    /// How many providers are registered.
    pub provider_count: usize,
    /// Whether research is on.
    pub research_enabled: bool,
}

} // verus!
