//! What the command line asks for.
use crate::config::{default_config, Config, ConfigView, Mode, DEFAULT_CONFIG_PATH};
use crate::control::Request;
use crate::error::{failure, Error, ErrorView};
use crate::policy::Action;
use vstd::prelude::*;

verus! {

/// The options that belong to the daemon.
#[derive(Debug, PartialEq, Eq)]
pub struct DaemonOptions {
    pub daemon: bool,
    pub config: Option<String>,
    pub dry_run: bool,
    pub unsafe_empty_policy: bool,
}

#[derive(Clone, Copy, Debug, PartialEq, Eq, Structural)]
pub struct OutputOptions {
    pub json: bool,
}

#[derive(Debug, PartialEq, Eq)]
pub enum Command {
    Status { socket: Option<String> },
    Devices { socket: Option<String> },
    Reload { socket: Option<String> },
    DryRunReload { socket: Option<String> },
    Allow { device_id: u32, socket: Option<String> },
    Block { device_id: u32, socket: Option<String> },
    ClearOverride { device_id: u32, socket: Option<String> },
    DryRun { config: Option<String> },
    Validate { config: Option<String>, dry_run: bool, unsafe_empty_policy: bool },
    GeneratePolicy { sysfs_root: Option<String> },
}

#[derive(Debug, PartialEq, Eq)]
pub struct Cli {
    pub daemon_options: DaemonOptions,
    pub output_options: OutputOptions,
    pub command: Option<Command>,
}

/// What has to be done.
#[derive(Debug, PartialEq, Eq)]
pub enum Plan {
    /// Print how the tool is used.
    Help,
    RunDaemon { config_path: String, dry_run: bool, unsafe_empty_policy: bool },
    /// Send a request to the daemon and print what it answers.
    Send { socket_path: String, request: Request, json: bool },
    DryRun { config_path: String, json: bool },
    Validate { config_path: String, dry_run: bool, unsafe_empty_policy: bool },
    GeneratePolicy { sysfs_root: String },
}

#[verifier::ext_equal]
pub enum PlanView {
    Help,
    RunDaemon { config_path: Seq<char>, dry_run: bool, unsafe_empty_policy: bool },
    Send { socket_path: Seq<char>, request: Request, json: bool },
    DryRun { config_path: Seq<char>, json: bool },
    Validate { config_path: Seq<char>, dry_run: bool, unsafe_empty_policy: bool },
    GeneratePolicy { sysfs_root: Seq<char> },
}

impl View for Plan {
    type V = PlanView;

    open spec fn view(&self) -> PlanView {
        match self {
            Plan::Help => PlanView::Help,
            Plan::RunDaemon { config_path, dry_run, unsafe_empty_policy } => PlanView::RunDaemon {
                config_path: config_path@,
                dry_run: *dry_run,
                unsafe_empty_policy: *unsafe_empty_policy,
            },
            Plan::Send { socket_path, request, json } => PlanView::Send {
                socket_path: socket_path@,
                request: *request,
                json: *json,
            },
            Plan::DryRun { config_path, json } => PlanView::DryRun {
                config_path: config_path@,
                json: *json,
            },
            Plan::Validate { config_path, dry_run, unsafe_empty_policy } => PlanView::Validate {
                config_path: config_path@,
                dry_run: *dry_run,
                unsafe_empty_policy: *unsafe_empty_policy,
            },
            Plan::GeneratePolicy { sysfs_root } => PlanView::GeneratePolicy {
                sysfs_root: sysfs_root@,
            },
        }
    }
}

/// The path that was given, or else another.
pub open spec fn path_or(path: Option<Seq<char>>, default: Seq<char>) -> Seq<char> {
    match path {
        Some(path) => path,
        None => default,
    }
}

/// Output as JSON is asked of a command that has none.
pub open spec fn json_failure(json: bool, command: Seq<char>) -> Option<ErrorView> {
    if json {
        Some(
            ErrorView::Usage(
                "`custos "@ + command
                    + " --json` is not supported; JSON output is available for daemon-backed commands and dry-run"@,
            ),
        )
    } else {
        None
    }
}

/// What a command comes to.
pub open spec fn command_plan(command: Command, json: bool) -> Result<PlanView, ErrorView> {
    match command {
        Command::Status { socket } => Ok(send_plan(socket.deep_view(), Request::Status, json)),
        Command::Devices { socket } => Ok(send_plan(socket.deep_view(), Request::ListDevices, json)),
        Command::Reload { socket } => Ok(send_plan(socket.deep_view(), Request::Reload, json)),
        Command::DryRunReload { socket } => Ok(
            send_plan(socket.deep_view(), Request::DryRunReload, json),
        ),
        Command::Allow { device_id, socket } => Ok(
            send_plan(
                socket.deep_view(),
                Request::Apply { id: device_id, action: Action::Allow },
                json,
            ),
        ),
        Command::Block { device_id, socket } => Ok(
            send_plan(
                socket.deep_view(),
                Request::Apply { id: device_id, action: Action::Block },
                json,
            ),
        ),
        Command::ClearOverride { device_id, socket } => Ok(
            send_plan(socket.deep_view(), Request::ClearOverride { id: device_id }, json),
        ),
        Command::DryRun { config } => Ok(
            PlanView::DryRun {
                config_path: path_or(config.deep_view(), DEFAULT_CONFIG_PATH@),
                json,
            },
        ),
        Command::Validate { config, dry_run, unsafe_empty_policy } => match json_failure(
            json,
            "validate"@,
        ) {
            Some(error) => Err(error),
            None => Ok(
                PlanView::Validate {
                    config_path: path_or(config.deep_view(), DEFAULT_CONFIG_PATH@),
                    dry_run,
                    unsafe_empty_policy,
                },
            ),
        },
        Command::GeneratePolicy { sysfs_root } => match json_failure(json, "generate-policy"@) {
            Some(error) => Err(error),
            None => Ok(
                PlanView::GeneratePolicy {
                    sysfs_root: path_or(sysfs_root.deep_view(), default_config().sysfs_root),
                },
            ),
        },
    }
}

/// A request to the daemon, over the given socket or the usual one.
pub open spec fn send_plan(socket: Option<Seq<char>>, request: Request, json: bool) -> PlanView {
    PlanView::Send {
        socket_path: path_or(socket, default_config().socket_path),
        request,
        json,
    }
}

/// What a command line comes to. The daemon runs alone; its options are only for it.
pub open spec fn cli_plan(cli: Cli) -> Result<PlanView, ErrorView> {
    let options = cli.daemon_options;
    if options.daemon {
        if cli.command is Some {
            Err(ErrorView::Usage("`--daemon` cannot be combined with a subcommand"@))
        } else if cli.output_options.json {
            Err(ErrorView::Usage("`--json` cannot be combined with `--daemon`"@))
        } else {
            Ok(
                PlanView::RunDaemon {
                    config_path: path_or(options.config.deep_view(), DEFAULT_CONFIG_PATH@),
                    dry_run: options.dry_run,
                    unsafe_empty_policy: options.unsafe_empty_policy,
                },
            )
        }
    } else if options.config is Some || options.dry_run || options.unsafe_empty_policy {
        Err(
            ErrorView::Usage(
                "`--config`, `--dry-run`, and `--unsafe-empty-policy` are top-level daemon options; use them with `--daemon` or the relevant subcommand"@,
            ),
        )
    } else {
        match cli.command {
            Some(command) => command_plan(command, cli.output_options.json),
            None => Ok(PlanView::Help),
        }
    }
}

/// The plain value of a plan, or of what is wrong with the command line.
pub open spec fn plan_result(r: Result<Plan, Error>) -> Result<PlanView, ErrorView> {
    match r {
        Ok(plan) => Ok(plan@),
        Err(error) => Err(error@),
    }
}

/// The configuration file that was named, or the usual one.
pub fn config_path(config: Option<String>) -> (r: String)
    ensures
        r@ == path_or(config.deep_view(), DEFAULT_CONFIG_PATH@),
{
    match config {
        Some(path) => path,
        None => DEFAULT_CONFIG_PATH.to_owned(),
    }
}

/// The control socket that was named, or the usual one.
pub fn socket_path(socket: Option<String>) -> (r: String)
    ensures
        r@ == path_or(socket.deep_view(), default_config().socket_path),
{
    match socket {
        Some(path) => path,
        None => Config::default().socket_path,
    }
}

/// The sysfs root that was named, or the usual one.
pub fn sysfs_root_path(sysfs_root: Option<String>) -> (r: String)
    ensures
        r@ == path_or(sysfs_root.deep_view(), default_config().sysfs_root),
{
    match sysfs_root {
        Some(path) => path,
        None => Config::default().sysfs_root,
    }
}

/// Refuses JSON output to a command that has none.
pub fn reject_json(options: OutputOptions, command: &str) -> (r: Result<(), Error>)
    ensures
        failure(r) == json_failure(options.json, command@),
{
    if options.json {
        let mut message = "`custos ".to_owned();
        message.append(command);
        message.append(
            " --json` is not supported; JSON output is available for daemon-backed commands and dry-run",
        );
        return Err(Error::Usage(message));
    }
    Ok(())
}

fn send(socket: Option<String>, request: Request, output: OutputOptions) -> (r: Plan)
    ensures
        r@ == send_plan(socket.deep_view(), request, output.json),
{
    Plan::Send { socket_path: socket_path(socket), request, json: output.json }
}

/// What a command comes to.
pub fn run_command(command: Command, output: OutputOptions) -> (r: Result<Plan, Error>)
    ensures
        plan_result(r) == command_plan(command, output.json),
{
    match command {
        Command::Status { socket } => Ok(send(socket, Request::Status, output)),
        Command::Devices { socket } => Ok(send(socket, Request::ListDevices, output)),
        Command::Reload { socket } => Ok(send(socket, Request::Reload, output)),
        Command::DryRunReload { socket } => Ok(send(socket, Request::DryRunReload, output)),
        Command::Allow { device_id, socket } => Ok(
            send(socket, Request::Apply { id: device_id, action: Action::Allow }, output),
        ),
        Command::Block { device_id, socket } => Ok(
            send(socket, Request::Apply { id: device_id, action: Action::Block }, output),
        ),
        Command::ClearOverride { device_id, socket } => Ok(
            send(socket, Request::ClearOverride { id: device_id }, output),
        ),
        Command::DryRun { config } => Ok(
            Plan::DryRun { config_path: config_path(config), json: output.json },
        ),
        Command::Validate { config, dry_run, unsafe_empty_policy } => match reject_json(
            output,
            "validate",
        ) {
            Err(error) => Err(error),
            Ok(()) => Ok(
                Plan::Validate { config_path: config_path(config), dry_run, unsafe_empty_policy },
            ),
        },
        Command::GeneratePolicy { sysfs_root } => match reject_json(output, "generate-policy") {
            Err(error) => Err(error),
            Ok(()) => Ok(Plan::GeneratePolicy { sysfs_root: sysfs_root_path(sysfs_root) }),
        },
    }
}

/// What a command line comes to.
pub fn run(cli: Cli) -> (r: Result<Plan, Error>)
    ensures
        plan_result(r) == cli_plan(cli),
{
    let Cli { daemon_options, output_options, command } = cli;
    if daemon_options.daemon {
        if command.is_some() {
            return Err(
                Error::Usage("`--daemon` cannot be combined with a subcommand".to_owned()),
            );
        }
        if output_options.json {
            return Err(Error::Usage("`--json` cannot be combined with `--daemon`".to_owned()));
        }
        return Ok(
            Plan::RunDaemon {
                config_path: config_path(daemon_options.config),
                dry_run: daemon_options.dry_run,
                unsafe_empty_policy: daemon_options.unsafe_empty_policy,
            },
        );
    }
    if daemon_options.config.is_some() || daemon_options.dry_run
        || daemon_options.unsafe_empty_policy {
        return Err(
            Error::Usage(
                "`--config`, `--dry-run`, and `--unsafe-empty-policy` are top-level daemon options; use them with `--daemon` or the relevant subcommand".to_owned(),
            ),
        );
    }
    match command {
        Some(command) => run_command(command, output_options),
        None => Ok(Plan::Help),
    }
}

/// A configuration with what the command line asks for on top of it.
pub open spec fn with_options(config: ConfigView, dry_run: bool, unsafe_empty_policy: bool) -> ConfigView {
    ConfigView {
        mode: if dry_run {
            Mode::DryRun
        } else {
            config.mode
        },
        unsafe_allow_empty_policy: config.unsafe_allow_empty_policy || unsafe_empty_policy,
        ..config
    }
}

/// A configuration with what the command line asks for on top of it.
pub fn apply_options(config: Config, dry_run: bool, unsafe_empty_policy: bool) -> (r: Config)
    ensures
        r@ == with_options(config@, dry_run, unsafe_empty_policy),
{
    let mut config = config;
    if dry_run {
        config.mode = Mode::DryRun;
    }
    if unsafe_empty_policy {
        config.unsafe_allow_empty_policy = true;
    }
    config
}

} // verus!
