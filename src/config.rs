use vstd::prelude::*;

verus! {

/// Settings read once at startup.
#[derive(Debug)]
pub struct AppConfig {
    pub enable_sentry: bool,
}

impl Default for AppConfig {
    /// Diagnostics reporting is on unless a configuration turns it off.
    fn default() -> (r: Self)
        ensures
            r.enable_sentry,
    {
        AppConfig { enable_sentry: true }
    }
}

} // verus!
