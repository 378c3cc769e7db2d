//! The command-line surface, as plain values: what was asked for and
//! with which options.  Argument parsing itself lives with the runtime.

use vstd::prelude::*;

verus! {

/// The parsed command line.
pub struct Cli {
    /// Log level filter text.
    pub log_level: String,
    /// Which command was asked for.
    pub command: Commands,
}

/// The commands the tool offers.
pub enum Commands {
    /// Initialize a default configuration file.
    Init(InitArgs),
    /// Review code changes against rules.
    Review(ReviewArgs),
    /// Suggest new rules based on code changes.
    Suggest(SuggestArgs),
}

/// Arguments for the init command.
pub struct InitArgs {
    /// Path to the config file to create.
    pub config: String,
    /// Overwrite an existing config file.
    pub replace_existing: bool,
}

/// Arguments for the review command.
pub struct ReviewArgs {
    /// Base commit to compare against; empty asks for auto-detection.
    pub base: String,
    /// Path to the config file.
    pub config: String,
    /// Overrides of config values in `key=value` dot notation.
    pub config_overrides: Vec<String>,
    /// Provider API key.
    pub api_key: String,
    /// Only show the planned tasks, run nothing.
    pub dry_run: bool,
    /// Output file path.
    pub output: Option<String>,
    /// Trace file path recording agent responses and tool use.
    pub trace: Option<String>,
}

/// Arguments for the suggest command.
pub struct SuggestArgs {
    /// Base commit to compare against; empty asks for auto-detection.
    pub base: String,
    /// Path to the config file holding existing rules.
    pub config: String,
    /// Overrides of config values in `key=value` dot notation.
    pub config_overrides: Vec<String>,
    /// Provider API key.
    pub api_key: String,
    /// Output file path.
    pub output: Option<String>,
    /// Trace file path recording agent responses and tool use.
    pub trace: Option<String>,
}

} // verus!
