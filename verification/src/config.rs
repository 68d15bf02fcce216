//! Where the tool keeps its files.

use vstd::prelude::*;

verus! {

/// Directories used by the tool.
#[derive(Debug, PartialEq, Eq)]
pub struct AppConfig {
    /// Directory of the event logs.
    pub log_directory: String,
    /// Directory of capture files.
    pub capture_directory: String,
    /// Directory of word lists.
    pub dictionary_directory: String,
}

impl Default for AppConfig {
    /// The directories `logs`, `captures` and `dictionaries`.
    fn default() -> (config: Self)
        ensures
            config.log_directory@ == "logs"@,
            config.capture_directory@ == "captures"@,
            config.dictionary_directory@ == "dictionaries"@,
    {
        AppConfig {
            log_directory: "logs".to_owned(),
            capture_directory: "captures".to_owned(),
            dictionary_directory: "dictionaries".to_owned(),
        }
    }
}

} // verus!
