//! System configuration.

use vstd::prelude::*;
use crate::system::data_partition::PartitionConfig;

verus! {

/// The settings of the partitions that the system manages itself.
#[derive(Debug)]
pub struct SystemConfig {
    pub config_partition: Option<PartitionConfig>,
    pub data_partition: Option<PartitionConfig>,
}

/// Why a configuration is not consistent.
#[derive(Debug, Clone, Copy, PartialEq, Eq, Structural)]
pub enum ConfigError {
    /// A driver is configured for the config partition.
    ConfigPartitionDriver,
    /// Both a driver and a mount script are configured for the data partition.
    DriverAndMountScript,
}

impl ConfigError {
    pub open spec fn text(self) -> Seq<char> {
        match self {
            ConfigError::ConfigPartitionDriver => "config-partition.driver is not supported: drivers are only valid on the data partition"@,
            ConfigError::DriverAndMountScript => "data-partition: `driver` and `mount-script` are mutually exclusive — pick one (use `driver = { type = \"custom\", mount-script = \"...\" }` when migrating an existing `mount-script`)"@,
        }
    }

    /// What is said of the error.
    pub fn message(self) -> (r: &'static str)
        ensures
            r@ == self.text(),
    {
        match self {
            ConfigError::ConfigPartitionDriver => "config-partition.driver is not supported: drivers are only valid on the data partition",
            ConfigError::DriverAndMountScript => "data-partition: `driver` and `mount-script` are mutually exclusive — pick one (use `driver = { type = \"custom\", mount-script = \"...\" }` when migrating an existing `mount-script`)",
        }
    }
}

/// Whether a partition has both a driver and a mount script.
pub open spec fn has_both(partition: PartitionConfig) -> bool {
    partition.driver is Some && partition.mount_script is Some
}

/// Cross-field consistency checks.
pub fn validate(config: &SystemConfig) -> (r: Result<(), ConfigError>)
    ensures
        r == if config.config_partition is Some && config.config_partition->0.driver is Some {
            Err(ConfigError::ConfigPartitionDriver)
        } else if config.data_partition is Some && has_both(config.data_partition->0) {
            Err(ConfigError::DriverAndMountScript)
        } else {
            Ok(())
        },
{
    if let Some(partition) = &config.config_partition {
        if partition.driver.is_some() {
            return Err(ConfigError::ConfigPartitionDriver);
        }
    }
    if let Some(partition) = &config.data_partition {
        return validate_data_partition(partition);
    }
    Ok(())
}

fn validate_data_partition(partition: &PartitionConfig) -> (r: Result<(), ConfigError>)
    ensures
        r == if has_both(*partition) {
            Err(ConfigError::DriverAndMountScript)
        } else {
            Ok(())
        },
{
    if partition.driver.is_some() && partition.mount_script.is_some() {
        return Err(ConfigError::DriverAndMountScript);
    }
    Ok(())
}

} // verus!
