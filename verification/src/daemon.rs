//! The privileged operation daemon: its settings and the exchange with it.

use vstd::prelude::*;
use crate::text::concat;

verus! {

/// Additional operation families, as they are configured.
#[derive(Debug, Clone, Copy, PartialEq, Eq, Structural)]
pub struct DaemonFeaturesConfig {
    pub factory_reset: Option<bool>,
    pub system_commit: Option<bool>,
    pub system_reboot: Option<bool>,
    pub app_lifecycle: Option<bool>,
}

/// The configuration of the daemon.
#[derive(Debug)]
pub struct DaemonConfig {
    pub socket_path: Option<String>,
    pub max_control_frame_size: Option<u64>,
    pub dangerously_insecure: Option<bool>,
    pub features: Option<DaemonFeaturesConfig>,
}

impl Default for DaemonConfig {
    fn default() -> (r: Self)
        ensures
            r.socket_path is None,
            r.max_control_frame_size is None,
            r.dangerously_insecure is None,
            r.features is None,
    {
        DaemonConfig {
            socket_path: None,
            max_control_frame_size: None,
            dangerously_insecure: None,
            features: None,
        }
    }
}

/// Additional privileged operation families exposed by the daemon.
#[derive(Debug, Clone, Copy, PartialEq, Eq, Structural)]
pub struct DaemonFeatureSettings {
    pub factory_reset: bool,
    pub system_commit: bool,
    pub system_reboot: bool,
    pub app_lifecycle: bool,
}

/// Resolved configuration used by daemon clients and the server.
#[derive(Debug)]
pub struct DaemonSettings {
    pub socket_path: String,
    pub max_control_frame_size: usize,
    pub dangerously_insecure: bool,
    pub features: DaemonFeatureSettings,
}

/// What the daemon tells about itself.
#[derive(Debug, Clone, Copy, PartialEq, Eq, Structural)]
pub struct DaemonInfo {
    pub dangerously_insecure: bool,
    pub features: DaemonFeatureSettings,
}

/// Why the configuration is refused.
#[derive(Debug, Clone, Copy, PartialEq, Eq, Structural)]
pub enum DaemonConfigError {
    /// Daemon maximum control frame size must be greater than zero.
    ZeroFrameSize,
    /// Daemon maximum control frame size does not fit this platform.
    FrameSizeTooLarge,
}

/// Largest control frame unless told otherwise: eight mebibytes.
pub const DEFAULT_MAX_CONTROL_FRAME_SIZE: u64 = 8388608;

/// Whether an option is switched on.
pub open spec fn is_on(option: Option<bool>) -> bool {
    option == Some(true)
}

fn on(option: Option<bool>) -> (r: bool)
    ensures
        r == is_on(option),
{
    match option {
        Some(value) => value,
        None => false,
    }
}

/// The features of a configuration: nothing is exposed unless it is switched on.
pub open spec fn resolved_features(features: Option<DaemonFeaturesConfig>) -> DaemonFeatureSettings {
    match features {
        Some(features) => DaemonFeatureSettings {
            factory_reset: is_on(features.factory_reset),
            system_commit: is_on(features.system_commit),
            system_reboot: is_on(features.system_reboot),
            app_lifecycle: is_on(features.app_lifecycle),
        },
        None => DaemonFeatureSettings {
            factory_reset: false,
            system_commit: false,
            system_reboot: false,
            app_lifecycle: false,
        },
    }
}

/// The largest control frame of a configuration.
pub open spec fn frame_size(config: DaemonConfig) -> u64 {
    match config.max_control_frame_size {
        Some(size) => size,
        None => DEFAULT_MAX_CONTROL_FRAME_SIZE,
    }
}

/// Whether settings are those of a configuration.
pub open spec fn is_resolved(config: DaemonConfig, settings: DaemonSettings) -> bool {
    &&& settings.socket_path@ == match config.socket_path {
        Some(path) => path@,
        None => "/run/rugix/ctrl.sock"@,
    }
    &&& settings.max_control_frame_size == frame_size(config)
    &&& settings.max_control_frame_size > 0
    &&& settings.dangerously_insecure == is_on(config.dangerously_insecure)
    &&& settings.features == resolved_features(config.features)
}

/// Resolves a configuration.
pub fn resolve_daemon_settings(config: DaemonConfig) -> (r: Result<
    DaemonSettings,
    DaemonConfigError,
>)
    ensures
        match r {
            Ok(settings) => is_resolved(config, settings),
            Err(DaemonConfigError::ZeroFrameSize) => frame_size(config) == 0,
            Err(DaemonConfigError::FrameSizeTooLarge) => frame_size(config) > usize::MAX,
        },
{
    let size: u64 = match config.max_control_frame_size {
        Some(size) => size,
        None => DEFAULT_MAX_CONTROL_FRAME_SIZE,
    };
    if size == 0 {
        return Err(DaemonConfigError::ZeroFrameSize);
    }
    if size > usize::MAX as u64 {
        return Err(DaemonConfigError::FrameSizeTooLarge);
    }
    let features = match config.features {
        Some(features) => DaemonFeatureSettings {
            factory_reset: on(features.factory_reset),
            system_commit: on(features.system_commit),
            system_reboot: on(features.system_reboot),
            app_lifecycle: on(features.app_lifecycle),
        },
        None => DaemonFeatureSettings {
            factory_reset: false,
            system_commit: false,
            system_reboot: false,
            app_lifecycle: false,
        },
    };
    Ok(
        DaemonSettings {
            socket_path: match config.socket_path {
                Some(path) => path,
                None => "/run/rugix/ctrl.sock".to_owned(),
            },
            max_control_frame_size: size as usize,
            dangerously_insecure: on(config.dangerously_insecure),
            features,
        },
    )
}

/// What is found where the configuration is.
#[derive(Debug)]
pub enum ConfigFile {
    /// There is no such file.
    Missing,
    /// The file could not be read.
    Unreadable,
    /// The file could not be parsed.
    Unparsable,
    Parsed(DaemonConfig),
}

/// Where the configuration is.
pub fn daemon_config_path() -> (r: &'static str)
    ensures
        r@ == "/etc/rugix/daemon.toml"@,
{
    "/etc/rugix/daemon.toml"
}

/// Why there are no settings.
#[derive(Debug, Clone, Copy, PartialEq, Eq, Structural)]
pub enum DaemonSettingsError {
    /// Unable to read daemon configuration.
    Unreadable,
    /// Unable to parse daemon configuration.
    Unparsable,
    Config(DaemonConfigError),
}

/// Resolves what is found where the configuration is. Without a configuration the defaults
/// hold.
pub fn load_daemon_settings(file: ConfigFile) -> (r: Result<DaemonSettings, DaemonSettingsError>)
    ensures
        match (file, r) {
            (ConfigFile::Missing, Ok(settings)) => {
                &&& settings.socket_path@ == "/run/rugix/ctrl.sock"@
                &&& settings.max_control_frame_size == DEFAULT_MAX_CONTROL_FRAME_SIZE
                &&& !settings.dangerously_insecure
                &&& settings.features == resolved_features(None)
            },
            (ConfigFile::Unreadable, Err(e)) => e == DaemonSettingsError::Unreadable,
            (ConfigFile::Unparsable, Err(e)) => e == DaemonSettingsError::Unparsable,
            (ConfigFile::Parsed(config), Ok(settings)) => is_resolved(config, settings),
            (
                ConfigFile::Parsed(config),
                Err(DaemonSettingsError::Config(DaemonConfigError::ZeroFrameSize)),
            ) => frame_size(config) == 0,
            (
                ConfigFile::Parsed(config),
                Err(DaemonSettingsError::Config(DaemonConfigError::FrameSizeTooLarge)),
            ) => frame_size(config) > usize::MAX,
            _ => false,
        },
{
    let config = match file {
        ConfigFile::Missing => DaemonConfig::default(),
        ConfigFile::Unreadable => {
            return Err(DaemonSettingsError::Unreadable);
        },
        ConfigFile::Unparsable => {
            return Err(DaemonSettingsError::Unparsable);
        },
        ConfigFile::Parsed(config) => config,
    };
    match resolve_daemon_settings(config) {
        Ok(settings) => Ok(settings),
        Err(e) => Err(DaemonSettingsError::Config(e)),
    }
}

impl DaemonSettings {
    /// What the daemon tells about itself.
    pub fn info(&self) -> (r: DaemonInfo)
        ensures
            r == (DaemonInfo {
                dangerously_insecure: self.dangerously_insecure,
                features: self.features,
            }),
    {
        DaemonInfo { dangerously_insecure: self.dangerously_insecure, features: self.features }
    }
}

/// A configuration that says nothing exposes nothing.
pub proof fn law_nothing_is_exposed_by_default(config: DaemonConfig)
    requires
        config.features is None,
        config.dangerously_insecure is None,
    ensures
        !is_on(config.dangerously_insecure),
        !resolved_features(config.features).factory_reset,
        !resolved_features(config.features).system_commit,
        !resolved_features(config.features).system_reboot,
        !resolved_features(config.features).app_lifecycle,
{
}

/// A family of operations is exposed exactly where it is switched on, each for itself.
pub proof fn law_features_are_switched_on_one_by_one(features: Option<DaemonFeaturesConfig>)
    ensures
        ({
            let settings = resolved_features(features);
            let given = features is Some;
            let config = features->0;
            &&& settings.factory_reset <==> given && config.factory_reset == Some(true)
            &&& settings.system_commit <==> given && config.system_commit == Some(true)
            &&& settings.system_reboot <==> given && config.system_reboot == Some(true)
            &&& settings.app_lifecycle <==> given && config.app_lifecycle == Some(true)
        }),
{
}

/// The largest control frame is the configured one, or else the default one.
pub proof fn law_frame_size_is_configured(config: DaemonConfig, size: u64)
    ensures
        config.max_control_frame_size == Some(size) ==> frame_size(config) == size,
        config.max_control_frame_size is None ==> frame_size(config) == 8 * 1024 * 1024,
{
}

/// A response of the daemon.
#[derive(Debug)]
pub enum DaemonResponse {
    /// An event; whether it could be decoded.
    Event { decoded: bool },
    /// The output; whether it could be decoded.
    Output { decoded: bool },
    OperationError { message: String },
    ProtocolError { message: String },
    /// No response could be read.
    Unreadable,
}

/// What the client does about a response.
#[derive(Debug)]
pub enum ClientAction {
    /// Emit the event and read the next response.
    Emit,
    /// The output is there.
    Return,
    /// The operation failed, with the given message.
    Fail { message: String },
}

/// What is done about a response to an operation, and what is said of a failure.
pub open spec fn operation_message(response: DaemonResponse) -> Option<Seq<char>> {
    match response {
        DaemonResponse::Event { decoded } => if decoded {
            None
        } else {
            Some("unable to decode daemon event"@)
        },
        DaemonResponse::Output { decoded } => if decoded {
            None
        } else {
            Some("unable to decode daemon operation output"@)
        },
        DaemonResponse::OperationError { message } => Some(message@),
        DaemonResponse::ProtocolError { message } => Some(
            "privileged Rugix Ctrl daemon protocol error: "@ + message@,
        ),
        DaemonResponse::Unreadable => Some("unable to read daemon response"@),
    }
}

/// Decides what to do about a response to an operation. Events are emitted until there is
/// an output or a failure.
pub fn receive_response(response: DaemonResponse) -> (r: ClientAction)
    ensures
        match (r, operation_message(response)) {
            (ClientAction::Emit, None) => response is Event,
            (ClientAction::Return, None) => response is Output,
            (ClientAction::Fail { message }, Some(text)) => message@ == text,
            _ => false,
        },
{
    match response {
        DaemonResponse::Event { decoded } => if decoded {
            ClientAction::Emit
        } else {
            ClientAction::Fail { message: "unable to decode daemon event".to_owned() }
        },
        DaemonResponse::Output { decoded } => if decoded {
            ClientAction::Return
        } else {
            ClientAction::Fail { message: "unable to decode daemon operation output".to_owned() }
        },
        DaemonResponse::OperationError { message } => ClientAction::Fail { message },
        DaemonResponse::ProtocolError { message } => ClientAction::Fail {
            message: concat("privileged Rugix Ctrl daemon protocol error: ", message.as_str()),
        },
        DaemonResponse::Unreadable => ClientAction::Fail {
            message: "unable to read daemon response".to_owned(),
        },
    }
}

/// What is said of a failed request for information.
pub open spec fn info_message(response: DaemonResponse) -> Option<Seq<char>> {
    match response {
        DaemonResponse::Event { .. } => Some(
            "privileged Rugix Ctrl daemon sent an unexpected information event"@,
        ),
        DaemonResponse::Output { decoded } => if decoded {
            None
        } else {
            Some("unable to decode privileged daemon information"@)
        },
        _ => operation_message(response),
    }
}

/// A failure is said of every response but a decoded event or output, in the words of the
/// daemon where it reports one. A request for information takes nothing but a decoded output.
pub proof fn law_failed_responses_are_reported(response: DaemonResponse)
    ensures
        operation_message(response) is None <==> response == (DaemonResponse::Event {
            decoded: true,
        }) || response == (DaemonResponse::Output { decoded: true }),
        info_message(response) is None <==> response == (DaemonResponse::Output { decoded: true }),
        response matches DaemonResponse::OperationError { message } ==> operation_message(response)
            == Some(message@) && info_message(response) == Some(message@),
        response matches DaemonResponse::ProtocolError { message } ==> message@.is_suffix_of(
            operation_message(response)->0,
        ) && info_message(response) == operation_message(response),
{
}

/// Decides what to do about a response to a request for information. No events are
/// expected.
pub fn query_info(response: DaemonResponse) -> (r: Result<(), String>)
    ensures
        match (r, info_message(response)) {
            (Ok(_), None) => response is Output,
            (Err(message), Some(text)) => message@ == text,
            _ => false,
        },
{
    match response {
        DaemonResponse::Event { .. } => Err(
            "privileged Rugix Ctrl daemon sent an unexpected information event".to_owned(),
        ),
        DaemonResponse::Output { decoded } => if decoded {
            Ok(())
        } else {
            Err("unable to decode privileged daemon information".to_owned())
        },
        other => match receive_response(other) {
            ClientAction::Fail { message } => Err(message),
            _ => Ok(()),
        },
    }
}

/// What came of sending the input.
#[derive(Debug, Clone, Copy, PartialEq, Eq, Structural)]
pub enum InputOutcome {
    Sent,
    Failed,
    /// The task that sends it ended unexpectedly.
    Panicked,
}

/// What comes of an operation.
#[derive(Debug, Clone, Copy, PartialEq, Eq, Structural)]
pub enum OperationOutcome {
    /// The output counts.
    Output,
    /// The failure of the response counts.
    ResponseFailed,
    /// The failure to send the input counts.
    InputFailed,
    InputPanicked,
}

/// Combines the response and what came of sending the input. A failed response counts for
/// more than a failure to send the input, which follows from it.
pub fn conclude_operation(response_ok: bool, input: InputOutcome) -> (r: OperationOutcome)
    ensures
        r == match input {
            InputOutcome::Panicked => OperationOutcome::InputPanicked,
            InputOutcome::Sent => if response_ok {
                OperationOutcome::Output
            } else {
                OperationOutcome::ResponseFailed
            },
            InputOutcome::Failed => if response_ok {
                OperationOutcome::InputFailed
            } else {
                OperationOutcome::ResponseFailed
            },
        },
        r is Output <==> response_ok && input is Sent,
{
    match input {
        InputOutcome::Panicked => OperationOutcome::InputPanicked,
        InputOutcome::Sent => if response_ok {
            OperationOutcome::Output
        } else {
            OperationOutcome::ResponseFailed
        },
        InputOutcome::Failed => if response_ok {
            OperationOutcome::InputFailed
        } else {
            OperationOutcome::ResponseFailed
        },
    }
}

/// Executes typed operations through the privileged daemon.
#[derive(Debug)]
pub struct DaemonClient {
    pub settings: DaemonSettings,
}

impl DaemonClient {
    pub fn new(settings: DaemonSettings) -> (r: Self)
        ensures
            r.settings == settings,
    {
        DaemonClient { settings }
    }
}

/// Whether operations can be executed without the daemon.
pub fn is_privileged(effective_user: u32) -> (r: bool)
    ensures
        r == (effective_user == 0),
{
    effective_user == 0
}

} // verus!
