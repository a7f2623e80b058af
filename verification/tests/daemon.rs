use std::collections::BTreeMap;

use custos::config::{AuthorizedDefault, Config, ControllerConfig, Loaded, Mode};
use custos::control::{FrameReader, FrameStep, Request, Response};
use custos::daemon::changes::{collect_device_change_events, DeviceChangeKind};
use custos::daemon::journal::{
    explicit_decision_source, log_device_change, ExplicitDecisionSource, JournalEntry, RecordKind,
};
use custos::daemon::overrides::OverrideStep;
use custos::daemon::requests::{
    answer_apply, answer_clear, answer_decisions, answer_invalid, handle_request, Handling,
};
use custos::daemon::socket::{
    bind_control_socket, cleanup_control_socket, SocketStep, SocketTask, SOCKET_MODE,
};
use custos::daemon::state::State;
use custos::daemon::steps::Step;
use custos::device::DeviceState;
use custos::error::{Error, IoError, IoErrorKind};
use custos::policy::{Action, Decision, DeviceMatcher, Policy, Rule};
use custos::sysfs::attributes::Contents;
use custos::sysfs::authorization::WriteAttempt;
use custos::sysfs::controllers::{
    controller_attribute, ControllerAuthorizationState, ControllerEntry,
};
use custos::sysfs::probe::{DeviceProbe, ProbeStep};
use custos::sysfs::scanner::{Listing, Scanner};
use custos::sysfs::UsbDevice;

const AUTHORIZED: &str = "/fake/bus/usb/devices/1-2/authorized";

/// Files below a sysfs root, in memory.
#[derive(Default)]
struct FakeSysfs {
    files: BTreeMap<String, Vec<u8>>,
}

fn not_found() -> IoError {
    IoError {
        kind: IoErrorKind::NotFound,
        os_code: Some(2),
        message: "No such file or directory (os error 2)".to_string(),
    }
}

impl FakeSysfs {
    fn put(&mut self, path: &str, contents: impl Into<Vec<u8>>) {
        self.files.insert(path.to_string(), contents.into());
    }

    fn remove(&mut self, path: &str) {
        self.files.remove(path);
    }

    fn text(&self, path: &str) -> String {
        String::from_utf8(self.files[path].clone()).expect("the file holds text")
    }

    fn read(&self, path: &str) -> Contents {
        self.files.get(path).cloned().ok_or_else(not_found)
    }

    /// Replaces the contents of a file, as opening it without creating it and writing would.
    fn overwrite(&mut self, path: &str, value: &str) -> WriteAttempt {
        match self.files.get_mut(path) {
            Some(contents) => {
                *contents = value.as_bytes().to_vec();
                WriteAttempt::Written
            }
            None => WriteAttempt::NotOpened(not_found()),
        }
    }

    /// The names of the entries of a directory.
    fn names(&self, directory: &str) -> Vec<String> {
        let prefix = format!("{directory}/");
        let mut names: Vec<String> = Vec::new();
        for path in self.files.keys() {
            if let Some(rest) = path.strip_prefix(&prefix) {
                let name = rest.split('/').next().unwrap_or_default().to_string();
                if !names.contains(&name) {
                    names.push(name);
                }
            }
        }
        names
    }

    fn probe(&self, directory: &str, name: &str) -> Result<Option<UsbDevice>, Error> {
        let mut step = DeviceProbe::start(&format!("{directory}/{name}"), Some(name));
        loop {
            match step {
                ProbeStep::Read(probe) => {
                    let contents = self.read(&probe.path());
                    step = probe.resume(contents);
                }
                ProbeStep::Done(found) => return found,
            }
        }
    }

    fn scan(&self, scanner: &Scanner) -> Result<Vec<UsbDevice>, Error> {
        let directory = scanner.devices_dir();
        let entries = self
            .names(&directory)
            .iter()
            .map(|name| Ok(self.probe(&directory, name)))
            .collect();
        scanner.scan(Ok(entries))
    }

    fn controllers(&self, scanner: &Scanner) -> Listing<ControllerEntry> {
        let directory = scanner.devices_dir();
        Ok(self
            .names(&directory)
            .into_iter()
            .map(|name| {
                let path = format!("{directory}/{name}");
                let name = Some(name);
                let authorized_default =
                    controller_attribute(&name, &path).map(|path| self.read(&path));
                Ok(ControllerEntry { name, path, authorized_default })
            })
            .collect())
    }
}

fn write_fake_device(sysfs: &mut FakeSysfs) {
    write_fake_device_without_authorized(sysfs);
    sysfs.put(AUTHORIZED, "1\n");
}

fn write_fake_device_without_authorized(sysfs: &mut FakeSysfs) {
    sysfs.put("/fake/bus/usb/devices/1-2/uevent", "DEVTYPE=usb_device\n");
    sysfs.put("/fake/bus/usb/devices/1-2/idVendor", "feed\n");
    sysfs.put("/fake/bus/usb/devices/1-2/idProduct", "1307\n");
}

fn report_device(id: u32, port_path: &str) -> UsbDevice {
    UsbDevice {
        id,
        sysfs_path: format!("/sys/bus/usb/devices/{port_path}"),
        port_path: port_path.to_string(),
        vendor_id: "feed".to_string(),
        product_id: "1307".to_string(),
        product_name: Some("Test Keyboard".to_string()),
        serial: Some("abc123".to_string()),
        ..UsbDevice::default()
    }
}

fn report_decision(device_id: u32, action: Action) -> Decision {
    Decision {
        device_id,
        action,
        reason: "matched rule".to_string(),
        rule: Some("trusted device".to_string()),
    }
}

fn report_state(device_id: u32, port_path: &str, action: Action) -> DeviceState {
    DeviceState::new(
        report_device(device_id, port_path),
        report_decision(device_id, action),
    )
}

fn allow_policy() -> Policy {
    Policy {
        default: Action::Block,
        rules: vec![Rule {
            name: "trusted device".to_string(),
            action: Action::Allow,
            matcher: DeviceMatcher {
                vendor_id: Some("feed".to_string()),
                product_id: Some("1307".to_string()),
                ..DeviceMatcher::default()
            },
        }],
    }
}

/// The policy that a TOML document describes, with the matcher fields that occur here.
fn parse_policy(text: &str) -> Loaded<Policy> {
    let document: toml::Value = match toml::from_str(text) {
        Ok(document) => document,
        Err(error) => return Loaded::Malformed(error.to_string()),
    };
    let text_of = |table: &toml::Value, key: &str| {
        table.get(key).and_then(|value| value.as_str()).map(str::to_string)
    };
    let action_of = |name: Option<String>| match name.as_deref() {
        Some("allow") => Action::Allow,
        _ => Action::Block,
    };
    let rules = document
        .get("rules")
        .and_then(|rules| rules.as_array())
        .cloned()
        .unwrap_or_default();
    Loaded::Parsed(Policy {
        default: action_of(text_of(&document, "default")),
        rules: rules
            .iter()
            .map(|rule| {
                let matcher = rule.get("match").expect("a rule has a matcher");
                Rule {
                    name: text_of(rule, "name").expect("a rule has a name"),
                    action: action_of(text_of(rule, "action")),
                    matcher: DeviceMatcher {
                        vendor_id: text_of(matcher, "vendor_id"),
                        product_id: text_of(matcher, "product_id"),
                        ..DeviceMatcher::default()
                    },
                }
            })
            .collect(),
    })
}

/// A daemon's surroundings: its sysfs and its policy file.
#[derive(Default)]
struct World {
    sysfs: FakeSysfs,
    policy: Option<String>,
    /// Paths whose writes fail.
    broken: Vec<String>,
    written: Vec<(String, String)>,
}

impl World {
    fn with_device() -> Self {
        let mut world = World::default();
        write_fake_device(&mut world.sysfs);
        world
    }

    fn write(&mut self, path: &str, value: &str) -> WriteAttempt {
        if self.broken.iter().any(|broken| broken == path) {
            return WriteAttempt::NotWritten(IoError {
                kind: IoErrorKind::Other,
                os_code: Some(5),
                message: "Input/output error (os error 5)".to_string(),
            });
        }
        let attempt = self.sysfs.overwrite(path, value);
        if attempt == WriteAttempt::Written {
            self.written.push((path.to_string(), value.to_string()));
        }
        attempt
    }

    /// Goes through the steps of some work.
    fn drive(&mut self, state: &mut State, start: Step) -> Result<Vec<Decision>, Error> {
        let scanner = Scanner::new("/fake".to_string());
        let mut step = start;
        loop {
            step = match step {
                Step::LoadPolicy(step) => {
                    let loaded = match &self.policy {
                        Some(text) => parse_policy(text),
                        None => Loaded::Unreadable(not_found()),
                    };
                    step.resume(state, loaded)
                }
                Step::ReadControllers(step) => {
                    let listing = self.sysfs.controllers(&scanner);
                    step.resume(state, scanner.controller_authorizations(listing))
                }
                Step::WriteController(step) => {
                    let (path, value) = (step.path().to_string(), step.value().to_string());
                    self.sysfs.put(&path, value.as_str());
                    self.written.push((path, value));
                    step.resume(state, Ok(()))
                }
                Step::Scan(step) => {
                    let found = self.sysfs.scan(&scanner);
                    step.resume(state, found)
                }
                Step::Authorize(step) => {
                    let write = step.write();
                    let attempt = self.write(&write.path, &write.value);
                    step.resume(state, attempt)
                }
                Step::Done(result) => return result,
            };
        }
    }

    fn refresh(&mut self, state: &mut State) -> Result<Vec<Decision>, Error> {
        let step = state.refresh();
        self.drive(state, step)
    }

    fn settle(&mut self, state: &mut State, start: OverrideStep) -> Result<Decision, Error> {
        let mut step = start;
        loop {
            step = match step {
                OverrideStep::Authorize(step) => {
                    let write = step.write();
                    let attempt = self.write(&write.path, &write.value);
                    step.resume(state, attempt)
                }
                OverrideStep::Done(result) => return result,
            };
        }
    }

    fn apply(&mut self, state: &mut State, id: u32, action: Action) -> Result<Decision, Error> {
        let step = state.apply_override(id, action);
        self.settle(state, step)
    }

    fn clear(&mut self, state: &mut State, id: u32) -> Result<Decision, Error> {
        let step = state.clear_override(id);
        self.settle(state, step)
    }

    fn ask(&mut self, state: &mut State, request: Request) -> Response {
        match handle_request(request, state) {
            Handling::Answer(response) => response,
            Handling::Decide(step) => {
                let decisions = self.drive(state, step);
                answer_decisions(decisions)
            }
            Handling::Apply { id, action, step } => {
                let decision = self.settle(state, OverrideStep::Authorize(step));
                answer_apply(id, action, decision)
            }
            Handling::Clear { id, step } => {
                let decision = self.settle(state, OverrideStep::Authorize(step));
                answer_clear(id, decision)
            }
        }
    }
}

fn enforcing() -> Config {
    Config { sysfs_root: "/fake".to_string(), ..Config::default() }
}

fn dry_run() -> Config {
    Config { mode: Mode::DryRun, ..enforcing() }
}

fn require_devices(response: Response) -> Vec<DeviceState> {
    match response {
        Response::Devices { devices } => devices,
        other => panic!("expected devices response, got {other:?}"),
    }
}

fn require_decisions(response: Response) -> Vec<Decision> {
    match response {
        Response::Decisions { decisions } => decisions,
        other => panic!("expected decisions response, got {other:?}"),
    }
}

fn require_done(response: Response) -> String {
    match response {
        Response::Done { message } => message,
        other => panic!("expected ok response, got {other:?}"),
    }
}

fn require_error(response: Response) -> String {
    match response {
        Response::Error { message } => message,
        other => panic!("expected error response, got {other:?}"),
    }
}

#[test]
fn dry_run_reload_does_not_replace_active_policy() {
    let mut world = World::with_device();
    world.policy = Some(
        r#"
default = "block"

[[rules]]
name = "candidate block"
action = "block"

[rules.match]
vendor_id = "feed"
product_id = "1307"
"#
        .to_string(),
    );
    let mut state = State::new(enforcing(), allow_policy());

    let step = state.dry_run_reload();
    let decisions = world.drive(&mut state, step).expect("the preview succeeds");

    assert_eq!(decisions[0].action, Action::Block);
    assert_eq!(state.active_policy().rules[0].action, Action::Allow);
    assert!(state.devices().is_empty());
    assert!(world.written.is_empty());
}

#[test]
fn failed_reload_does_not_replace_active_policy() {
    let mut world = World::with_device();
    world.policy = Some("default = \"block\"\n".to_string());
    let mut state = State::new(enforcing(), allow_policy());

    let step = state.reload();
    let error = world.drive(&mut state, step).expect_err("expected reload to fail");

    assert!(error.message().contains("refusing to enforce"));
    assert_eq!(state.active_policy().rules[0].name, "trusted device");
}

#[test]
fn a_reload_loads_the_configured_policy_file() {
    let config = Config { policy_path: "/fake/policy.toml".to_string(), ..enforcing() };
    let state = State::new(config, allow_policy());

    for step in [state.reload(), state.dry_run_reload()] {
        match step {
            Step::LoadPolicy(loading) => {
                assert_eq!(loading.path(), "/fake/policy.toml");
                match loading.resume(&state, Loaded::Malformed("bad".to_string())) {
                    Step::Done(Err(error)) => {
                        assert_eq!(error.message(), "policy error: /fake/policy.toml: bad")
                    }
                    _ => panic!("the policy does not parse"),
                }
            }
            _ => panic!("the policy has to be loaded"),
        }
    }
}

#[test]
fn reports_connected_device_with_decision() {
    let device = report_state(1, "1-2", Action::Allow);

    let events = collect_device_change_events(&vec![], &vec![device]);

    assert_eq!(events.len(), 1);
    assert_eq!(events[0].kind, DeviceChangeKind::Connected);
    assert_eq!(events[0].action, Action::Allow);
    assert_eq!(events[0].rule.as_deref(), Some("trusted device"));
    assert_eq!(
        explicit_decision_source(Some(&events[0].reason), events[0].rule.as_deref()),
        Some(ExplicitDecisionSource::PolicyRule)
    );
}

#[test]
fn reports_removed_device_with_last_decision() {
    let device = report_state(1, "1-2", Action::Block);

    let events = collect_device_change_events(&vec![device], &vec![]);

    assert_eq!(events.len(), 1);
    assert_eq!(events[0].kind, DeviceChangeKind::Removed);
    assert_eq!(events[0].action, Action::Block);
}

#[test]
fn reports_same_path_identity_change_as_remove_and_connect() {
    let previous = report_state(1, "1-2", Action::Allow);
    let mut current = report_device(2, "1-2");
    current.vendor_id = "cafe".to_string();
    current.product_id = "babe".to_string();
    let current_decision = Decision {
        device_id: 2,
        action: Action::Block,
        reason: "default action".to_string(),
        rule: None,
    };
    let current = DeviceState::new(current, current_decision);

    let events = collect_device_change_events(&vec![previous], &vec![current]);

    assert_eq!(events.len(), 2);
    assert_eq!(events[0].kind, DeviceChangeKind::Connected);
    assert_eq!(events[1].kind, DeviceChangeKind::Removed);
}

#[test]
fn reports_existing_device_decision_change() {
    let previous = report_state(1, "1-2", Action::Block);
    let current = report_state(1, "1-2", Action::Allow);

    let events = collect_device_change_events(&vec![previous], &vec![current]);

    assert_eq!(events.len(), 1);
    assert_eq!(events[0].kind, DeviceChangeKind::DecisionChanged);
    assert_eq!(events[0].previous_action, Some(Action::Block));
    assert_eq!(events[0].action, Action::Allow);
}

#[test]
fn scans_that_change_places_report_the_reverse() {
    let one = vec![
        report_state(1, "1-1", Action::Allow),
        report_state(2, "1-2", Action::Block),
        report_state(3, "1-3", Action::Allow),
    ];
    let other = vec![
        report_state(4, "1-4", Action::Block),
        report_state(3, "1-3", Action::Block),
        report_state(2, "1-2", Action::Allow),
        report_state(5, "1-5", Action::Allow),
    ];

    let there = collect_device_change_events(&one, &other);
    let back = collect_device_change_events(&other, &one);
    assert_eq!(
        there.iter().map(|event| (event.kind, event.device.id)).collect::<Vec<_>>(),
        vec![
            (DeviceChangeKind::Connected, 4),
            (DeviceChangeKind::DecisionChanged, 3),
            (DeviceChangeKind::DecisionChanged, 2),
            (DeviceChangeKind::Connected, 5),
            (DeviceChangeKind::Removed, 1),
        ]
    );
    assert_eq!(
        back.iter().map(|event| (event.kind, event.device.id)).collect::<Vec<_>>(),
        vec![
            (DeviceChangeKind::Connected, 1),
            (DeviceChangeKind::DecisionChanged, 2),
            (DeviceChangeKind::DecisionChanged, 3),
            (DeviceChangeKind::Removed, 4),
            (DeviceChangeKind::Removed, 5),
        ]
    );
    for (came, went) in [(&there[0], &back[3]), (&there[3], &back[4]), (&back[0], &there[4])] {
        assert_eq!(came.device, went.device);
        assert_eq!(came.action, went.action);
        assert_eq!(came.previous_action, went.previous_action);
        assert_eq!(came.reason, went.reason);
        assert_eq!(came.rule, went.rule);
    }
    for (changed, reversed) in [(&there[1], &back[2]), (&there[2], &back[1])] {
        assert_eq!(changed.previous_action, Some(reversed.action));
        assert_eq!(reversed.previous_action, Some(changed.action));
    }
    assert!(collect_device_change_events(&one, &one).is_empty());
}

#[test]
fn default_decision_is_not_explicit() {
    let device = DeviceState::new(
        report_device(1, "1-2"),
        Decision {
            device_id: 1,
            action: Action::Block,
            reason: "default action".to_string(),
            rule: None,
        },
    );

    let events = collect_device_change_events(&vec![], &vec![device]);

    assert_eq!(
        explicit_decision_source(Some(&events[0].reason), events[0].rule.as_deref()),
        None
    );
}

#[test]
fn manual_override_decision_is_explicit() {
    assert_eq!(
        explicit_decision_source(Some("manual override"), None),
        Some(ExplicitDecisionSource::ManualOverride)
    );
}

#[test]
fn control_socket_is_private_to_owner_and_group() {
    let mut tasks: Vec<(SocketTask, String)> = Vec::new();
    let mut mode = 0;
    let mut step = bind_control_socket("/run/custos/control.sock");
    loop {
        step = match step {
            SocketStep::Perform(perform) => {
                if perform.task() == SocketTask::Restrict {
                    mode = SOCKET_MODE;
                }
                tasks.push((perform.task(), perform.path().to_string()));
                perform.resume(Ok(()))
            }
            SocketStep::CheckExists(check) => check.resume(false),
            SocketStep::Done(result) => {
                assert_eq!(result, Ok(()));
                break;
            }
        };
    }

    assert_eq!(mode & 0o777, 0o660);
    assert_eq!(
        tasks,
        vec![
            (SocketTask::CreateDirectory, "/run/custos".to_string()),
            (SocketTask::Bind, "/run/custos/control.sock".to_string()),
            (SocketTask::Restrict, "/run/custos/control.sock".to_string()),
        ]
    );
}

#[test]
fn control_request_lists_devices() {
    let mut world = World::with_device();
    let mut state = State::new(dry_run(), allow_policy());
    world.refresh(&mut state).expect("the refresh succeeds");

    let devices = require_devices(world.ask(&mut state, Request::ListDevices));

    assert_eq!(devices.len(), 1);
    assert_eq!(devices[0].device.vendor_id, "feed");
    assert_eq!(devices[0].decision.action, Action::Allow);
}

#[test]
fn control_socket_workflow_applies_overrides_clear_and_reload() {
    let mut world = World::with_device();
    let text = r#"
default = "block"

[[rules]]
name = "trusted device"
action = "allow"

[rules.match]
vendor_id = "feed"
product_id = "1307"
"#;
    world.policy = Some(text.to_string());
    let config = enforcing();
    let policy = Policy::load(&config.policy_path, parse_policy(text), &config)
        .expect("the policy loads");
    let mut state = State::new(config, policy);
    world.refresh(&mut state).expect("the refresh succeeds");
    assert_eq!(world.sysfs.text(AUTHORIZED), "1\n");

    let devices = require_devices(world.ask(&mut state, Request::ListDevices));
    assert_eq!(devices[0].decision.action, Action::Allow);

    require_done(world.ask(
        &mut state,
        Request::Apply { id: devices[0].device.id, action: Action::Block },
    ));
    assert_eq!(world.sysfs.text(AUTHORIZED), "0\n");

    let devices = require_devices(world.ask(&mut state, Request::ListDevices));
    assert_eq!(devices[0].decision.action, Action::Block);

    let message = require_done(
        world.ask(&mut state, Request::ClearOverride { id: devices[0].device.id }),
    );
    assert!(message.contains("policy now allow"));
    assert_eq!(world.sysfs.text(AUTHORIZED), "1\n");

    world.policy = Some(
        r#"
default = "block"

[[rules]]
name = "block target"
action = "block"

[rules.match]
vendor_id = "feed"
product_id = "1307"

[[rules]]
name = "safety allow"
action = "allow"

[rules.match]
vendor_id = "ffff"
"#
        .to_string(),
    );
    let decisions = require_decisions(world.ask(&mut state, Request::Reload));
    assert_eq!(decisions[0].action, Action::Block);
    assert_eq!(world.sysfs.text(AUTHORIZED), "0\n");

    let (device_count, override_count) = match world.ask(&mut state, Request::Status) {
        Response::Status { device_count, override_count, .. } => (device_count, override_count),
        other => panic!("expected status response, got {other:?}"),
    };
    assert_eq!(device_count, 1);
    assert_eq!(override_count, 0);

    assert_eq!(state.devices().len(), 1);
    assert_eq!(state.devices()[0].decision.action, Action::Block);
}

#[test]
fn control_request_reports_command_errors() {
    let mut world = World::default();
    let mut state = State::new(dry_run(), Policy::default());

    let response = world.ask(&mut state, Request::Apply { id: 99, action: Action::Block });

    let message = require_error(response);
    assert!(message.contains("unknown device id 99"));
}

#[test]
fn oversized_control_request_is_rejected() {
    let mut sent = vec![b' '; 70 * 1024];
    sent.push(b'\n');
    let mut reader = FrameReader::new();
    let mut response = String::new();
    for chunk in sent.chunks(8 * 1024) {
        match reader.feed(chunk) {
            FrameStep::Read(next) => reader = next,
            FrameStep::Complete(_) => panic!("the request is too long"),
            FrameStep::Refused(refusal) => {
                response = refusal.message().to_string();
                break;
            }
        }
    }

    assert!(response.contains("control request exceeds"));
}

#[test]
fn manual_allow_override_survives_refresh_for_same_identity() {
    let mut world = World::with_device();
    let policy = Policy { default: Action::Block, rules: Vec::new() };
    let mut state = State::new(dry_run(), policy);

    let decisions = world.refresh(&mut state).expect("the refresh succeeds");
    assert_eq!(decisions[0].action, Action::Block);

    let override_decision =
        world.apply(&mut state, 1, Action::Allow).expect("the override succeeds");
    assert_eq!(override_decision.action, Action::Allow);
    assert_eq!(override_decision.reason, "manual override");

    let decisions = world.refresh(&mut state).expect("the refresh succeeds");
    assert_eq!(decisions[0].action, Action::Allow);
    assert_eq!(decisions[0].reason, "manual override");
}

#[test]
fn manual_override_survives_late_descriptor_metadata() {
    let mut world = World::with_device();
    let mut state = State::new(dry_run(), Policy::default());

    world.refresh(&mut state).expect("the refresh succeeds");
    world.apply(&mut state, 1, Action::Allow).expect("the override succeeds");
    world.sysfs.put("/fake/bus/usb/devices/1-2/product", "Late Metadata\n");
    world.sysfs.put(
        "/fake/bus/usb/devices/1-2/descriptors",
        [9, 4, 0, 0, 1, 0x03, 0x01, 0x01, 0],
    );

    let decisions = world.refresh(&mut state).expect("the refresh succeeds");

    assert_eq!(state.devices()[0].device.id, 1);
    assert_eq!(decisions[0].action, Action::Allow);
    assert_eq!(decisions[0].reason, "manual override");
}

#[test]
fn manual_override_does_not_transfer_to_new_identity_on_same_path() {
    let mut world = World::with_device();
    let mut state = State::new(dry_run(), Policy::default());

    world.refresh(&mut state).expect("the refresh succeeds");
    world.apply(&mut state, 1, Action::Allow).expect("the override succeeds");
    world.sysfs.put("/fake/bus/usb/devices/1-2/idVendor", "cafe\n");
    world.sysfs.put("/fake/bus/usb/devices/1-2/idProduct", "babe\n");

    let decisions = world.refresh(&mut state).expect("the refresh succeeds");

    assert_eq!(decisions[0].action, Action::Block);
    assert_eq!(decisions[0].reason, "default action");
    assert_eq!(state.override_count(), 0);
    assert_ne!(state.devices()[0].device.id, 1);
}

#[test]
fn manual_allow_override_forces_sysfs_write_after_policy_block() {
    let mut world = World::with_device();
    let mut state = State::new(enforcing(), Policy::default());

    world.refresh(&mut state).expect("the refresh succeeds");
    assert_eq!(world.sysfs.text(AUTHORIZED), "0\n");
    assert_eq!(state.devices()[0].device.authorized, Some(false));

    world.apply(&mut state, 1, Action::Allow).expect("the override succeeds");

    assert_eq!(world.sysfs.text(AUTHORIZED), "1\n");
    assert_eq!(state.devices()[0].device.authorized, Some(true));
}

#[test]
fn refresh_does_not_crash_when_authorized_file_disappears() {
    let mut world = World::default();
    write_fake_device_without_authorized(&mut world.sysfs);
    let mut state = State::new(enforcing(), Policy::default());

    let decisions = world.refresh(&mut state).expect("the refresh succeeds");

    assert_eq!(decisions[0].action, Action::Block);
    assert_eq!(state.devices()[0].device.authorized, None);
}

#[test]
fn manual_override_errors_when_device_disappears_before_write() {
    let mut world = World::with_device();
    let mut state = State::new(enforcing(), Policy::default());
    world.refresh(&mut state).expect("the refresh succeeds");
    world.sysfs.remove(AUTHORIZED);

    let error = world
        .apply(&mut state, 1, Action::Allow)
        .expect_err("expected manual override to fail");

    assert!(error.message().contains("disappeared"));
    assert_eq!(state.override_count(), 0);
    assert_eq!(state.devices()[0].device.authorized, Some(false));
}

#[test]
fn clearing_manual_override_reapplies_policy() {
    let mut world = World::with_device();
    let mut state = State::new(enforcing(), Policy::default());

    world.refresh(&mut state).expect("the refresh succeeds");
    world.apply(&mut state, 1, Action::Allow).expect("the override succeeds");
    assert_eq!(world.sysfs.text(AUTHORIZED), "1\n");

    let decision = world.clear(&mut state, 1).expect("clearing succeeds");

    assert_eq!(decision.action, Action::Block);
    assert_eq!(decision.reason, "default action");
    assert_eq!(state.override_count(), 0);
    assert_eq!(world.sysfs.text(AUTHORIZED), "0\n");
    assert_eq!(state.devices()[0].device.authorized, Some(false));
}

#[test]
fn clearing_manual_override_can_reapply_explicit_policy_rule() {
    let mut world = World::with_device();
    let mut state = State::new(enforcing(), allow_policy());

    world.refresh(&mut state).expect("the refresh succeeds");
    world.apply(&mut state, 1, Action::Block).expect("the override succeeds");
    assert_eq!(world.sysfs.text(AUTHORIZED), "0\n");

    let decision = world.clear(&mut state, 1).expect("clearing succeeds");

    assert_eq!(decision.action, Action::Allow);
    assert_eq!(decision.rule.as_deref(), Some("trusted device"));
    assert_eq!(world.sysfs.text(AUTHORIZED), "1\n");
    assert_eq!(
        state
            .devices()
            .iter()
            .find(|state| state.device.id == 1)
            .and_then(|state| state.decision.rule.as_deref()),
        Some("trusted device")
    );
}

#[test]
fn control_clear_override_reapplies_policy() {
    let mut world = World::with_device();
    let mut state = State::new(dry_run(), Policy::default());
    world.refresh(&mut state).expect("the refresh succeeds");
    world.apply(&mut state, 1, Action::Allow).expect("the override succeeds");

    let response = world.ask(&mut state, Request::ClearOverride { id: 1 });

    let message = require_done(response);
    assert!(message.contains("policy now block"));
}

#[test]
fn answers_are_worded_as_documented() {
    let mut world = World::with_device();
    let mut state = State::new(enforcing(), allow_policy());
    world.refresh(&mut state).expect("the refresh succeeds");

    assert_eq!(
        world.ask(&mut state, Request::Apply { id: 1, action: Action::Block }),
        Response::Done { message: "block device 1 with manual override".to_string() }
    );
    assert_eq!(
        world.ask(&mut state, Request::Status),
        Response::Status {
            mode: Mode::Enforce,
            device_count: 1,
            override_count: 1,
            socket_path: "/run/custos/control.sock".to_string(),
            policy_path: "/etc/custos/policy.toml".to_string(),
        }
    );
    assert_eq!(
        world.ask(&mut state, Request::ClearOverride { id: 1 }),
        Response::Done {
            message: "cleared manual override for device 1; policy now allow".to_string()
        }
    );
    assert_eq!(
        world.ask(&mut state, Request::ClearOverride { id: 7 }),
        Response::Error { message: "protocol error: unknown device id 7".to_string() }
    );
    assert_eq!(
        answer_invalid("expected value"),
        Response::Error { message: "invalid control request: expected value".to_string() }
    );
}

#[test]
fn dry_run_mode_writes_nothing() {
    let mut world = World::with_device();
    world.sysfs.put("/fake/bus/usb/devices/usb1/authorized_default", "1\n");
    world.policy = Some("default = \"block\"\n".to_string());
    let mut state = State::new(dry_run(), allow_policy());

    world.refresh(&mut state).expect("the refresh succeeds");
    world.apply(&mut state, 1, Action::Block).expect("the override succeeds");
    world.clear(&mut state, 1).expect("clearing succeeds");
    let step = state.reload();
    world.drive(&mut state, step).expect("the reload succeeds");

    assert!(world.written.is_empty());
    assert_eq!(world.sysfs.text(AUTHORIZED), "1\n");
    assert_eq!(state.devices()[0].device.authorized, Some(true));
}

#[test]
fn controllers_are_set_before_devices_are_scanned() {
    let mut world = World::with_device();
    world.sysfs.put("/fake/bus/usb/devices/usb1/authorized_default", "1\n");
    world.sysfs.put("/fake/bus/usb/devices/usb2/authorized_default", "0\n");
    let mut state = State::new(enforcing(), Policy::default());

    world.refresh(&mut state).expect("the refresh succeeds");

    assert_eq!(
        world.written,
        vec![
            ("/fake/bus/usb/devices/usb1/authorized_default".to_string(), "0".to_string()),
            (AUTHORIZED.to_string(), "0\n".to_string()),
        ]
    );
    let journal = state.take_journal();
    assert!(matches!(journal[0], JournalEntry::Controller { applied: true, .. }));
    assert!(state.take_journal().is_empty());
}

#[test]
fn kept_controllers_are_not_touched() {
    let mut world = World::with_device();
    world.sysfs.put("/fake/bus/usb/devices/usb1/authorized_default", "1\n");
    let config = Config {
        controllers: ControllerConfig {
            authorized_default: AuthorizedDefault::Keep,
            restore_on_shutdown: false,
        },
        ..enforcing()
    };
    let mut state = State::new(config, Policy::default());

    world.refresh(&mut state).expect("the refresh succeeds");

    assert_eq!(
        world.sysfs.text("/fake/bus/usb/devices/usb1/authorized_default"),
        "1\n"
    );
}

#[test]
fn settled_devices_are_written_once() {
    let mut world = World::with_device();
    let mut state = State::new(enforcing(), Policy::default());

    world.refresh(&mut state).expect("the refresh succeeds");
    world.refresh(&mut state).expect("the refresh succeeds");

    assert_eq!(world.written, vec![(AUTHORIZED.to_string(), "0\n".to_string())]);
}

#[test]
fn numbers_stay_with_identities() {
    let mut world = World::with_device();
    let mut state = State::new(dry_run(), Policy::default());
    world.refresh(&mut state).expect("the refresh succeeds");
    world.sysfs.put("/fake/bus/usb/devices/1-1/idVendor", "cafe\n");
    world.sysfs.put("/fake/bus/usb/devices/1-1/idProduct", "babe\n");
    world.refresh(&mut state).expect("the refresh succeeds");

    let ids: Vec<(&str, u32)> = state
        .devices()
        .iter()
        .map(|state| (state.device.port_path.as_str(), state.device.id))
        .collect();
    assert_eq!(ids, [("1-1", 2), ("1-2", 1)]);

    world.sysfs = FakeSysfs::default();
    world.sysfs.put("/fake/bus/usb/devices/1-9/idVendor", "feed\n");
    world.refresh(&mut state).expect("the refresh succeeds");
    assert!(state.devices().is_empty());

    write_fake_device(&mut world.sysfs);
    world.refresh(&mut state).expect("the refresh succeeds");
    assert_eq!(state.devices()[0].device.id, 1);
}

#[test]
fn a_failed_reload_is_rolled_back() {
    let mut world = World::with_device();
    world.sysfs.put("/fake/bus/usb/devices/1-3/idVendor", "cafe\n");
    world.sysfs.put("/fake/bus/usb/devices/1-3/idProduct", "babe\n");
    world.sysfs.put("/fake/bus/usb/devices/1-3/authorized", "0\n");
    let mut state = State::new(enforcing(), allow_policy());
    world.refresh(&mut state).expect("the refresh succeeds");
    assert!(world.written.is_empty());

    world.policy = Some(
        r#"
default = "block"

[[rules]]
name = "other device"
action = "allow"

[rules.match]
vendor_id = "cafe"
"#
        .to_string(),
    );
    world.broken.push("/fake/bus/usb/devices/1-3/authorized".to_string());

    let step = state.reload();
    let error = world.drive(&mut state, step).expect_err("the reload fails");

    assert_eq!(
        error.message(),
        "failed to write /fake/bus/usb/devices/1-3/authorized: Input/output error (os error 5)"
    );
    assert_eq!(state.active_policy().rules[0].name, "trusted device");
    assert_eq!(
        world.written,
        vec![
            (AUTHORIZED.to_string(), "0\n".to_string()),
            (AUTHORIZED.to_string(), "1\n".to_string()),
        ]
    );
}

#[test]
fn a_rollback_that_fails_is_reported_with_its_cause() {
    let mut world = World::with_device();
    let mut state = State::new(enforcing(), allow_policy());
    world.refresh(&mut state).expect("the refresh succeeds");
    world.policy = Some(
        r#"
default = "block"

[[rules]]
name = "other device"
action = "allow"

[rules.match]
vendor_id = "cafe"
"#
        .to_string(),
    );
    world.broken.push(AUTHORIZED.to_string());

    let mut step = state.reload();
    // The device loses its authorization while the reload is being undone.
    let error = loop {
        step = match step {
            Step::Authorize(authorizing) => {
                world.sysfs.put(AUTHORIZED, "0\n");
                let write = authorizing.write();
                let attempt = world.write(&write.path, &write.value);
                authorizing.resume(&mut state, attempt)
            }
            Step::Done(result) => break result.expect_err("the reload fails"),
            Step::LoadPolicy(loading) => {
                let text = world.policy.clone().expect("there is a policy");
                loading.resume(&state, parse_policy(&text))
            }
            Step::ReadControllers(reading) => reading.resume(&mut state, Ok(Vec::new())),
            Step::WriteController(writing) => writing.resume(&mut state, Ok(())),
            Step::Scan(scanning) => {
                let found = world.sysfs.scan(&Scanner::new("/fake".to_string()));
                scanning.resume(&mut state, found)
            }
        };
    };

    assert_eq!(
        error.message(),
        format!(
            "policy error: reload failed after partial apply: failed to write {AUTHORIZED}: \
             Input/output error (os error 5); rollback failed: failed to write {AUTHORIZED}: \
             Input/output error (os error 5)"
        )
    );
}

#[test]
fn an_override_is_forgotten_when_its_device_is_gone() {
    let mut world = World::with_device();
    let mut state = State::new(enforcing(), Policy::default());
    world.refresh(&mut state).expect("the refresh succeeds");
    world.apply(&mut state, 1, Action::Allow).expect("the override succeeds");
    world.sysfs.remove(AUTHORIZED);

    let error = world.clear(&mut state, 1).expect_err("the device is gone");

    assert_eq!(
        error.message(),
        "protocol error: device id 1 disappeared before policy could be reapplied"
    );
    assert_eq!(state.override_count(), 0);
}

#[test]
fn changes_and_overrides_are_logged() {
    let mut world = World::with_device();
    let mut state = State::new(enforcing(), allow_policy());
    world.refresh(&mut state).expect("the refresh succeeds");
    world.apply(&mut state, 1, Action::Block).expect("the override succeeds");
    world.clear(&mut state, 1).expect("clearing succeeds");

    let kinds: Vec<RecordKind> = state
        .take_journal()
        .iter()
        .filter_map(|entry| match entry {
            JournalEntry::Decision(record) => Some(record.kind),
            _ => None,
        })
        .collect();
    assert_eq!(
        kinds,
        [
            RecordKind::Connected,
            RecordKind::ExplicitlyAllowed,
            RecordKind::ExplicitlyBlocked,
            RecordKind::OverrideCleared,
            RecordKind::ExplicitlyAllowed,
        ]
    );
}

#[test]
fn a_change_of_decision_is_logged_with_the_former_action() {
    let previous = report_state(1, "1-2", Action::Block);
    let current = report_state(1, "1-2", Action::Allow);
    let events = collect_device_change_events(&vec![previous], &vec![current]);

    let record = log_device_change(&events[0]);

    assert_eq!(record.kind.message(), "USB authorization decision changed");
    assert_eq!(record.previous_action.as_deref(), Some("block"));
    assert_eq!(record.action, "allow");
    assert_eq!(record.rule, "trusted device");
    assert_eq!(record.device.serial(), "abc123");
}

#[test]
fn unchanged_devices_are_not_reported() {
    let devices = || vec![report_state(1, "1-2", Action::Allow), report_state(2, "1-3", Action::Block)];

    assert!(collect_device_change_events(&devices(), &devices()).is_empty());
}

#[test]
fn devices_that_vanish_while_written_are_noted() {
    let mut world = World::default();
    write_fake_device_without_authorized(&mut world.sysfs);
    let mut state = State::new(enforcing(), Policy::default());
    world.refresh(&mut state).expect("the refresh succeeds");

    let gone = state
        .take_journal()
        .iter()
        .filter(|entry| matches!(entry, JournalEntry::DeviceGone(_)))
        .count();
    assert_eq!(gone, 1);
}

#[test]
fn controllers_are_captured_only_where_they_are_put_back() {
    let kept = || {
        Ok(vec![ControllerAuthorizationState {
            controller: "usb1".to_string(),
            authorized_default: "1".to_string(),
        }])
    };
    let mut state = State::new(enforcing(), Policy::default());
    assert!(!state.wants_controller_restore());
    assert_eq!(state.capture_controller_restore_state(kept()), Ok(()));
    assert!(state.controller_restore().is_empty());

    let config = Config {
        controllers: ControllerConfig {
            authorized_default: AuthorizedDefault::Nothing,
            restore_on_shutdown: true,
        },
        ..enforcing()
    };
    let mut state = State::new(config, Policy::default());
    assert!(state.wants_controller_restore());
    assert_eq!(state.capture_controller_restore_state(kept()), Ok(()));
    assert_eq!(state.controller_restore().len(), 1);
    let failed = state.capture_controller_restore_state(Err(Error::Config("no".to_string())));
    assert_eq!(failed, Err(Error::Config("no".to_string())));
}

#[test]
fn a_socket_in_use_is_left_alone() {
    let refused = |kind: IoErrorKind| IoError {
        kind,
        os_code: None,
        message: "refused".to_string(),
    };
    let created = |path: &str| match bind_control_socket(path) {
        SocketStep::Perform(perform) => {
            assert_eq!(perform.task(), SocketTask::CreateDirectory);
            perform
        }
        _ => panic!("the directory has to be created"),
    };
    assert_eq!(created("control.sock").path(), "");
    match created("/run/custos/s").resume(Err(refused(IoErrorKind::Other))) {
        SocketStep::Done(Err(error)) => {
            assert_eq!(error.message(), "failed to create socket directory /run/custos: refused")
        }
        _ => panic!("the directory cannot be created"),
    }
    assert!(matches!(bind_control_socket("/"), SocketStep::CheckExists(_)));
    let connect = || match created("/s").resume(Ok(())) {
        SocketStep::CheckExists(check) => match check.resume(true) {
            SocketStep::Perform(perform) => {
                assert_eq!(perform.task(), SocketTask::Connect);
                perform
            }
            _ => panic!("the socket has to be tried"),
        },
        _ => panic!("it has to be found out whether a socket is there"),
    };

    match connect().resume(Ok(())) {
        SocketStep::Done(Err(error)) => assert_eq!(
            error.message(),
            "configuration error: control socket /s is already in use"
        ),
        _ => panic!("the socket is in use"),
    }
    match connect().resume(Err(refused(IoErrorKind::ConnectionRefused))) {
        SocketStep::Perform(perform) => assert_eq!(perform.task(), SocketTask::Remove),
        _ => panic!("the socket is stale"),
    }
    match connect().resume(Err(refused(IoErrorKind::Other))) {
        SocketStep::Done(Err(error)) => {
            assert_eq!(error.message(), "failed to inspect existing socket /s: refused")
        }
        _ => panic!("the socket cannot be inspected"),
    }
    assert_eq!(
        cleanup_control_socket("/s", Err(refused(IoErrorKind::NotFound))),
        Ok(())
    );
    assert_eq!(
        cleanup_control_socket("/s", Err(refused(IoErrorKind::Other)))
            .expect_err("the socket cannot be removed")
            .message(),
        "failed to remove control socket /s: refused"
    );
}
