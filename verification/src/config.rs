//! The application's persisted settings.
//!
//! Reading and writing the settings file is the surrounding program's
//! business; this module owns the shape of the settings and their
//! defaults.
use vstd::prelude::*;
use vstd::string::StringExecFns;

verus! {

/// Persisted settings: interface language, theme choice, and the
/// user-defined application categories, each a name with its members.
#[derive(Debug, Clone)]
pub struct AppConfig {
    pub language: String,
    pub theme: String,
    pub categories: Vec<(String, Vec<String>)>,
}

impl Default for AppConfig {
    /// The settings used until a configuration file says otherwise:
    /// default language, automatic theme, no categories.
    fn default() -> (c: Self)
        ensures
            c.language@ == "en"@,
            c.theme@ == "auto"@,
            c.categories@.len() == 0,
    {
        AppConfig {
            language: "en".to_owned(),
            theme: "auto".to_owned(),
            categories: Vec::new(),
        }
    }
}

} // verus!
