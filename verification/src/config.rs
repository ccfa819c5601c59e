//! Settings that decide on installations.

use vstd::prelude::*;

verus! {

/// Signatures that bundles are verified by.
#[derive(Debug)]
pub struct SignaturesConfig {
    /// Paths of the trusted root certificates.
    pub roots: Vec<String>,
}

/// Policies on component metadata.
#[derive(Debug)]
pub struct CompatibilityConfig {
    pub require_bundle_components: Option<bool>,
}

/// The settings of the device.
#[derive(Debug)]
pub struct Config {
    pub signatures: Option<SignaturesConfig>,
    pub compatibility: Option<CompatibilityConfig>,
}

impl Default for Config {
    fn default() -> (r: Self)
        ensures
            r.signatures is None,
            r.compatibility is None,
    {
        Config { signatures: None, compatibility: None }
    }
}

} // verus!
