//! Installation of bundles.

pub mod app_bundle;
pub mod app_runs;
pub mod apps;
pub mod archive;
pub mod bundle;
pub mod bundle_runs;
pub mod preflight;
pub mod stages;
pub mod system;
pub mod system_runs;
pub mod transaction;
