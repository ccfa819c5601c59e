//! Applications: their generations, their persisted state and their units.

pub mod activation;
pub mod lifecycle;
pub mod lifecycle_runs;
pub mod manager;
pub mod recover_all;
pub mod restore;
pub mod restore_runs;
pub mod systemd;
