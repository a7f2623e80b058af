//! What command lines and configuration files come to.
use crate::cli::{cli_plan, command_plan, with_options, Cli, Command, PlanView};
use crate::config::{
    config_failure, default_config, loaded_config, AuthorizedDefault, Config, ConfigView, Loaded,
    Mode,
};
use crate::control::Request;
use crate::error::{ErrorView, IoErrorKind};
use crate::policy::Action;
use vstd::prelude::*;

verus! {

/// A plan to send a request to the daemon, over the socket that was named or the usual one.
pub open spec fn sends(
    plan: Result<PlanView, ErrorView>,
    socket: Option<String>,
    asked: Request,
    as_json: bool,
) -> bool {
    plan matches Ok(PlanView::Send { socket_path, request, json }) && request == asked && json
        == as_json && (socket matches Some(path) ==> socket_path == path@) && (socket is None
        ==> socket_path == "/run/custos/control.sock"@)
}

/// Each command that is for the daemon sends it the request of its name, about the device that
/// was named and no other, over the socket that was named.
pub proof fn law_commands_ask_for_what_they_say(
    socket: Option<String>,
    device_id: u32,
    json: bool,
)
    ensures
        sends(command_plan(Command::Status { socket }, json), socket, Request::Status, json),
        sends(command_plan(Command::Devices { socket }, json), socket, Request::ListDevices, json),
        sends(command_plan(Command::Reload { socket }, json), socket, Request::Reload, json),
        sends(
            command_plan(Command::DryRunReload { socket }, json),
            socket,
            Request::DryRunReload,
            json,
        ),
        sends(
            command_plan(Command::Allow { device_id, socket }, json),
            socket,
            Request::Apply { id: device_id, action: Action::Allow },
            json,
        ),
        sends(
            command_plan(Command::Block { device_id, socket }, json),
            socket,
            Request::Apply { id: device_id, action: Action::Block },
            json,
        ),
        sends(
            command_plan(Command::ClearOverride { device_id, socket }, json),
            socket,
            Request::ClearOverride { id: device_id },
            json,
        ),
{
}

/// The commands that do not talk to the daemon use the files that were named or the usual ones.
/// Those that have no JSON output are refused where it is asked for.
pub proof fn law_local_commands(
    config: Option<String>,
    sysfs_root: Option<String>,
    dry_run: bool,
    unsafe_empty_policy: bool,
    json: bool,
)
    ensures
        ({
            let path = match config {
                Some(path) => path@,
                None => "/etc/custos/config.toml"@,
            };
            let root = match sysfs_root {
                Some(path) => path@,
                None => "/sys"@,
            };
            &&& command_plan(Command::DryRun { config }, json) == Ok::<PlanView, ErrorView>(
                PlanView::DryRun { config_path: path, json },
            )
            &&& !json ==> command_plan(
                Command::Validate { config, dry_run, unsafe_empty_policy },
                json,
            ) == Ok::<PlanView, ErrorView>(
                PlanView::Validate { config_path: path, dry_run, unsafe_empty_policy },
            )
            &&& !json ==> command_plan(Command::GeneratePolicy { sysfs_root }, json) == Ok::<
                PlanView,
                ErrorView,
            >(PlanView::GeneratePolicy { sysfs_root: root })
            &&& json ==> (command_plan(
                Command::Validate { config, dry_run, unsafe_empty_policy },
                json,
            ) matches Err(ErrorView::Usage(_)))
            &&& json ==> (command_plan(Command::GeneratePolicy { sysfs_root }, json) matches Err(
                ErrorView::Usage(_),
            ))
        }),
{
}

/// The daemon runs only where it is asked for, alone, with the options that were given. Its
/// options are refused without it.
pub proof fn law_the_daemon_runs_alone(cli: Cli)
    ensures
        (cli_plan(cli) matches Ok(PlanView::RunDaemon { config_path, dry_run, unsafe_empty_policy }))
            <==> cli.daemon_options.daemon && cli.command is None && !cli.output_options.json,
        cli_plan(cli) matches Ok(PlanView::RunDaemon { config_path, dry_run, unsafe_empty_policy })
            ==> {
            &&& dry_run == cli.daemon_options.dry_run
            &&& unsafe_empty_policy == cli.daemon_options.unsafe_empty_policy
            &&& cli.daemon_options.config matches Some(path) ==> config_path == path@
            &&& cli.daemon_options.config is None ==> config_path == "/etc/custos/config.toml"@
        },
        !cli.daemon_options.daemon && (cli.daemon_options.config is Some
            || cli.daemon_options.dry_run || cli.daemon_options.unsafe_empty_policy) ==> (cli_plan(
            cli,
        ) matches Err(ErrorView::Usage(_))),
        !cli.daemon_options.daemon && cli.daemon_options.config is None
            && !cli.daemon_options.dry_run && !cli.daemon_options.unsafe_empty_policy ==> {
            &&& cli.command is None ==> cli_plan(cli) == Ok::<PlanView, ErrorView>(PlanView::Help)
            &&& cli.command matches Some(command) ==> cli_plan(cli) == command_plan(
                command,
                cli.output_options.json,
            )
        },
{
}

/// Options turn enforcement off and the guard against an empty policy off; they never turn either
/// on, and they change nothing else.
pub proof fn law_options_only_relax(config: ConfigView, dry_run: bool, unsafe_empty_policy: bool)
    ensures
        ({
            let after = with_options(config, dry_run, unsafe_empty_policy);
            &&& after.mode == Mode::DryRun <==> dry_run || config.mode == Mode::DryRun
            &&& after.unsafe_allow_empty_policy <==> unsafe_empty_policy
                || config.unsafe_allow_empty_policy
            &&& after.policy_path == config.policy_path
            &&& after.socket_path == config.socket_path
            &&& after.sysfs_root == config.sysfs_root
            &&& after.default_action == config.default_action
            &&& after.controllers == config.controllers
        }),
{
}

/// Without a configuration file decisions are enforced, with the usual files, a default that
/// blocks, the guard against an empty policy on, and controllers that let nothing in by
/// themselves.
pub proof fn law_usual_configuration()
    ensures
        default_config().mode == Mode::Enforce,
        default_config().policy_path == "/etc/custos/policy.toml"@,
        default_config().socket_path == "/run/custos/control.sock"@,
        default_config().sysfs_root == "/sys"@,
        !default_config().unsafe_allow_empty_policy,
        default_config().default_action == Action::Block,
        default_config().controllers.authorized_default == AuthorizedDefault::Nothing,
        !default_config().controllers.restore_on_shutdown,
{
}

/// Only a configuration file that is absent may be missing: one that does not parse, or that
/// cannot be read, is an error that names it.
pub proof fn law_configuration_files(path: Seq<char>, loaded: Loaded<Config>)
    ensures
        config_failure(path, loaded) is None <==> loaded is Parsed || (loaded matches Loaded::Unreadable(
            error,
        ) && error.kind == IoErrorKind::NotFound),
        loaded matches Loaded::Parsed(config) ==> loaded_config(loaded) == config@,
        !(loaded is Parsed) ==> loaded_config(loaded) == default_config(),
        loaded matches Loaded::Malformed(message) ==> config_failure(path, loaded) == Some(
            ErrorView::Config(path + ": "@ + message@),
        ),
        loaded matches Loaded::Unreadable(error) ==> error.kind != IoErrorKind::NotFound
            ==> config_failure(path, loaded) == Some(
            ErrorView::Io { context: "failed to read config "@ + path, source: error@ },
        ),
{
}

} // verus!
