//! Application configuration.
use vstd::prelude::*;

verus! {

broadcast use vstd::string::group_string_axioms;

/// Application configuration.
pub struct AppConfig {
    /// Application name.
    pub name: String,
}

impl Default for AppConfig {
    /// The assistant is called Alliot.
    fn default() -> (r: Self)
        ensures
            r.name@ == "Alliot"@,
    {
        AppConfig { name: "Alliot".to_string() }
    }
}

} // verus!
