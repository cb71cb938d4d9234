//! Command-line settings.
use vstd::prelude::*;

verus! {

/// Settings taken from the command line.
pub struct Cli {
    /// Path to the config file
    pub config: String,
    /// Force re-download all icons, even if already present
    pub force: bool,
    /// Number of concurrent downloads (1–32)
    pub jobs: u32,
    /// Verbose output (show URLs, retry details, etc.)
    pub verbose: bool,
}

} // verus!
