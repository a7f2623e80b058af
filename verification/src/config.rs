//! The daemon's configuration.
use crate::error::{Error, ErrorView, IoError, IoErrorKind};
use crate::policy::Action;
use vstd::prelude::*;

verus! {

pub const DEFAULT_CONFIG_PATH: &'static str = "/etc/custos/config.toml";

/// Whether decisions are written to sysfs or only reported.
#[derive(Clone, Copy, Debug, PartialEq, Eq, Structural)]
pub enum Mode {
    Enforce,
    DryRun,
}

impl Default for Mode {
    fn default() -> (r: Self)
        ensures
            r == Mode::Enforce,
    {
        Mode::Enforce
    }
}

/// What the `authorized_default` of each USB controller is set to.
#[derive(Clone, Copy, Debug, PartialEq, Eq, Structural)]
pub enum AuthorizedDefault {
    Keep,
    Nothing,
    All,
}

#[derive(Clone, Copy, Debug, PartialEq, Eq, Structural)]
pub struct ControllerConfig {
    pub authorized_default: AuthorizedDefault,
    pub restore_on_shutdown: bool,
}

impl Default for ControllerConfig {
    fn default() -> (r: Self)
        ensures
            r.authorized_default == AuthorizedDefault::Nothing,
            !r.restore_on_shutdown,
    {
        ControllerConfig { authorized_default: AuthorizedDefault::Nothing, restore_on_shutdown: false }
    }
}

#[derive(Debug, PartialEq, Eq)]
pub struct Config {
    pub mode: Mode,
    pub policy_path: String,
    pub socket_path: String,
    pub sysfs_root: String,
    pub unsafe_allow_empty_policy: bool,
    pub default_action: Action,
    pub controllers: ControllerConfig,
}

#[verifier::ext_equal]
pub struct ConfigView {
    pub mode: Mode,
    pub policy_path: Seq<char>,
    pub socket_path: Seq<char>,
    pub sysfs_root: Seq<char>,
    pub unsafe_allow_empty_policy: bool,
    pub default_action: Action,
    pub controllers: ControllerConfig,
}

impl View for Config {
    type V = ConfigView;

    open spec fn view(&self) -> ConfigView {
        ConfigView {
            mode: self.mode,
            policy_path: self.policy_path@,
            socket_path: self.socket_path@,
            sysfs_root: self.sysfs_root@,
            unsafe_allow_empty_policy: self.unsafe_allow_empty_policy,
            default_action: self.default_action,
            controllers: self.controllers,
        }
    }
}

/// The configuration that is in force where no file gives another.
pub open spec fn default_config() -> ConfigView {
    ConfigView {
        mode: Mode::Enforce,
        policy_path: "/etc/custos/policy.toml"@,
        socket_path: "/run/custos/control.sock"@,
        sysfs_root: "/sys"@,
        unsafe_allow_empty_policy: false,
        default_action: Action::Block,
        controllers: ControllerConfig {
            authorized_default: AuthorizedDefault::Nothing,
            restore_on_shutdown: false,
        },
    }
}

impl Default for Config {
    fn default() -> (r: Self)
        ensures
            r@ == default_config(),
    {
        Config {
            mode: Mode::Enforce,
            policy_path: "/etc/custos/policy.toml".to_owned(),
            socket_path: "/run/custos/control.sock".to_owned(),
            sysfs_root: "/sys".to_owned(),
            unsafe_allow_empty_policy: false,
            default_action: Action::Block,
            controllers: ControllerConfig {
                authorized_default: AuthorizedDefault::Nothing,
                restore_on_shutdown: false,
            },
        }
    }
}

impl Clone for Config {
    fn clone(&self) -> (r: Self)
        ensures
            r@ == self@,
    {
        Config {
            mode: self.mode,
            policy_path: self.policy_path.clone(),
            socket_path: self.socket_path.clone(),
            sysfs_root: self.sysfs_root.clone(),
            unsafe_allow_empty_policy: self.unsafe_allow_empty_policy,
            default_action: self.default_action,
            controllers: self.controllers,
        }
    }
}

/// Startup without a rule that allows an endpoint is permitted: nothing is enforced, or the
/// operator asked for it.
pub open spec fn permits_empty_policy(config: ConfigView) -> bool {
    config.mode == Mode::DryRun || config.unsafe_allow_empty_policy
}

/// What came of reading a file and parsing it.
pub enum Loaded<T> {
    Parsed(T),
    /// The file was read, but it does not parse; with the parser's message.
    Malformed(String),
    Unreadable(IoError),
}

/// The error of a configuration file that does not load.
pub open spec fn config_failure(path: Seq<char>, loaded: Loaded<Config>) -> Option<ErrorView> {
    match loaded {
        Loaded::Parsed(config) => None,
        Loaded::Malformed(message) => Some(ErrorView::Config(path + ": "@ + message@)),
        Loaded::Unreadable(error) => if error.kind == IoErrorKind::NotFound {
            None
        } else {
            Some(ErrorView::Io { context: "failed to read config "@ + path, source: error@ })
        },
    }
}

/// The configuration that a file gives: its own, or the built-in one where the file is absent.
pub open spec fn loaded_config(loaded: Loaded<Config>) -> ConfigView {
    match loaded {
        Loaded::Parsed(config) => config@,
        _ => default_config(),
    }
}

/// The configuration that a file gives: its own, or the built-in one where the file is absent.
pub fn load_config(path: &str, loaded: Loaded<Config>) -> (r: Result<Config, Error>)
    ensures
        r is Ok <==> config_failure(path@, loaded) is None,
        r matches Err(error) ==> Some(error@) == config_failure(path@, loaded),
        r matches Ok(config) ==> config@ == loaded_config(loaded),
{
    match loaded {
        Loaded::Parsed(config) => Ok(config),
        Loaded::Malformed(message) => {
            let mut text = path.to_owned();
            text.append(": ");
            text.append(message.as_str());
            Err(Error::Config(text))
        },
        Loaded::Unreadable(error) => {
            if error.kind == IoErrorKind::NotFound {
                Ok(Config::default())
            } else {
                let mut text = "failed to read config ".to_owned();
                text.append(path);
                Err(Error::io(text, error))
            }
        },
    }
}

} // verus!
