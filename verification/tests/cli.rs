use custos::cli::{
    apply_options, reject_json, run, Cli, Command, DaemonOptions, OutputOptions, Plan,
};
use custos::config::{load_config, Config, Loaded, Mode, DEFAULT_CONFIG_PATH};
use custos::control::Request;
use custos::error::{Error, IoError, IoErrorKind};
use custos::policy::Action;

const JSON_OUTPUT: OutputOptions = OutputOptions { json: true };
const HUMAN_OUTPUT: OutputOptions = OutputOptions { json: false };

fn no_daemon() -> DaemonOptions {
    DaemonOptions { daemon: false, config: None, dry_run: false, unsafe_empty_policy: false }
}

fn command(command: Command, output_options: OutputOptions) -> Result<Plan, Error> {
    run(Cli { daemon_options: no_daemon(), output_options, command: Some(command) })
}

#[test]
fn rejects_json_for_local_commands() {
    let error = match reject_json(JSON_OUTPUT, "generate-policy") {
        Ok(()) => panic!("expected JSON rejection"),
        Err(error) => error,
    };

    assert!(error.message().contains("not supported"));
}

#[test]
fn local_commands_have_no_json_output() {
    let error = command(
        Command::Validate { config: None, dry_run: false, unsafe_empty_policy: false },
        JSON_OUTPUT,
    )
    .expect_err("there is no such output");
    assert_eq!(
        error.message(),
        "`custos validate --json` is not supported; JSON output is available for daemon-backed \
         commands and dry-run"
    );
    assert!(command(Command::GeneratePolicy { sysfs_root: None }, JSON_OUTPUT).is_err());
    assert_eq!(
        command(Command::GeneratePolicy { sysfs_root: None }, HUMAN_OUTPUT),
        Ok(Plan::GeneratePolicy { sysfs_root: "/sys".to_string() })
    );
    assert_eq!(
        command(Command::DryRun { config: Some("/c".to_string()) }, JSON_OUTPUT),
        Ok(Plan::DryRun { config_path: "/c".to_string(), json: true })
    );
}

#[test]
fn daemon_backed_commands_become_requests() {
    let sent = |request| Plan::Send {
        socket_path: "/run/custos/control.sock".to_string(),
        request,
        json: false,
    };
    let plan = |wanted| command(wanted, HUMAN_OUTPUT).expect("the command is known");

    assert_eq!(plan(Command::Status { socket: None }), sent(Request::Status));
    assert_eq!(plan(Command::Devices { socket: None }), sent(Request::ListDevices));
    assert_eq!(plan(Command::Reload { socket: None }), sent(Request::Reload));
    assert_eq!(plan(Command::DryRunReload { socket: None }), sent(Request::DryRunReload));
    assert_eq!(
        plan(Command::Allow { device_id: 7, socket: None }),
        sent(Request::Apply { id: 7, action: Action::Allow })
    );
    assert_eq!(
        plan(Command::Block { device_id: 7, socket: None }),
        sent(Request::Apply { id: 7, action: Action::Block })
    );
    assert_eq!(
        plan(Command::ClearOverride { device_id: 7, socket: None }),
        sent(Request::ClearOverride { id: 7 })
    );
    assert_eq!(
        command(Command::Status { socket: Some("/tmp/s".to_string()) }, JSON_OUTPUT),
        Ok(Plan::Send { socket_path: "/tmp/s".to_string(), request: Request::Status, json: true })
    );
}

#[test]
fn the_daemon_runs_alone() {
    let daemon = |command, output_options| {
        run(Cli {
            daemon_options: DaemonOptions {
                daemon: true,
                config: None,
                dry_run: true,
                unsafe_empty_policy: false,
            },
            output_options,
            command,
        })
    };

    assert_eq!(
        daemon(None, HUMAN_OUTPUT),
        Ok(Plan::RunDaemon {
            config_path: DEFAULT_CONFIG_PATH.to_string(),
            dry_run: true,
            unsafe_empty_policy: false,
        })
    );
    assert_eq!(
        daemon(Some(Command::Status { socket: None }), HUMAN_OUTPUT),
        Err(Error::Usage("`--daemon` cannot be combined with a subcommand".to_string()))
    );
    assert_eq!(
        daemon(None, JSON_OUTPUT),
        Err(Error::Usage("`--json` cannot be combined with `--daemon`".to_string()))
    );
}

#[test]
fn daemon_options_are_for_the_daemon() {
    let plan = run(Cli {
        daemon_options: DaemonOptions { dry_run: true, ..no_daemon() },
        output_options: HUMAN_OUTPUT,
        command: Some(Command::Status { socket: None }),
    });
    assert_eq!(
        plan.expect_err("the option is for the daemon").message(),
        "`--config`, `--dry-run`, and `--unsafe-empty-policy` are top-level daemon options; use \
         them with `--daemon` or the relevant subcommand"
    );
    assert_eq!(
        run(Cli { daemon_options: no_daemon(), output_options: HUMAN_OUTPUT, command: None }),
        Ok(Plan::Help)
    );
}

#[test]
fn options_come_on_top_of_the_configuration() {
    let config = apply_options(Config::default(), true, true);
    assert_eq!(config.mode, Mode::DryRun);
    assert!(config.unsafe_allow_empty_policy);

    let config = apply_options(config, false, false);
    assert_eq!(config.mode, Mode::DryRun);
    assert!(config.unsafe_allow_empty_policy);
}

#[test]
fn an_absent_configuration_gives_the_defaults() {
    let error = |kind| IoError { kind, os_code: None, message: "gone".to_string() };

    assert_eq!(
        load_config("/c", Loaded::Unreadable(error(IoErrorKind::NotFound))),
        Ok(Config::default())
    );
    assert_eq!(
        load_config("/c", Loaded::Unreadable(error(IoErrorKind::Other)))
            .expect_err("the file cannot be read")
            .message(),
        "failed to read config /c: gone"
    );
    assert_eq!(
        load_config("/c", Loaded::Malformed("bad".to_string()))
            .expect_err("the file cannot be parsed")
            .message(),
        "configuration error: /c: bad"
    );
}
