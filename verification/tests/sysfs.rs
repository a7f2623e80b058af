use std::collections::BTreeMap;

use custos::config::AuthorizedDefault;
use custos::error::{Error, IoError, IoErrorKind};
use custos::policy::Action;
use custos::sysfs::attributes::{
    join_path, parse_uevent, read_trimmed_optional, trim_sysfs_value, Contents,
};
use custos::sysfs::authorization::{
    apply_authorization, enforcement_outcome, force_authorization, is_device_gone,
    preview_authorization, Enforcement, EnforcementOutcome, WriteAttempt,
};
use custos::sysfs::controllers::{
    controller_attribute, ControllerAuthorizationState, ControllerAuthorizationUpdate,
    ControllerEntry, ControllerStep,
};
use custos::sysfs::descriptors::{hash_descriptors, parse_interfaces};
use custos::sysfs::probe::{is_root_hub_name, DeviceProbe, ProbeStep};
use custos::sysfs::restore::RestoreStep;
use custos::sysfs::scanner::{Listing, Scanner};
use custos::sysfs::UsbDevice;

/// Files below a sysfs root, in memory.
#[derive(Default)]
struct FakeSysfs {
    files: BTreeMap<String, Vec<u8>>,
}

fn not_found() -> IoError {
    IoError {
        kind: IoErrorKind::NotFound,
        os_code: Some(2),
        message: "No such file or directory (os error 2)".to_string(),
    }
}

impl FakeSysfs {
    fn put(&mut self, path: &str, contents: impl Into<Vec<u8>>) {
        self.files.insert(path.to_string(), contents.into());
    }

    fn remove(&mut self, path: &str) {
        self.files.remove(path);
    }

    fn text(&self, path: &str) -> String {
        String::from_utf8(self.files[path].clone()).expect("the file holds text")
    }

    fn read(&self, path: &str) -> Contents {
        self.files.get(path).cloned().ok_or_else(not_found)
    }

    /// Replaces the contents of a file, as opening it without creating it and writing would.
    fn overwrite(&mut self, path: &str, value: &str) -> WriteAttempt {
        match self.files.get_mut(path) {
            Some(contents) => {
                *contents = value.as_bytes().to_vec();
                WriteAttempt::Written
            }
            None => WriteAttempt::NotOpened(not_found()),
        }
    }

    /// The names of the entries of a directory.
    fn names(&self, directory: &str) -> Vec<String> {
        let prefix = format!("{directory}/");
        let mut names: Vec<String> = Vec::new();
        for path in self.files.keys() {
            if let Some(rest) = path.strip_prefix(&prefix) {
                let name = rest.split('/').next().unwrap_or_default().to_string();
                if !names.contains(&name) {
                    names.push(name);
                }
            }
        }
        names
    }

    fn probe(&self, directory: &str, name: &str) -> Result<Option<UsbDevice>, Error> {
        let mut step = DeviceProbe::start(&format!("{directory}/{name}"), Some(name));
        loop {
            match step {
                ProbeStep::Read(probe) => {
                    let contents = self.read(&probe.path());
                    step = probe.resume(contents);
                }
                ProbeStep::Done(found) => return found,
            }
        }
    }

    fn scan(&self, scanner: &Scanner) -> Result<Vec<UsbDevice>, Error> {
        let directory = scanner.devices_dir();
        let entries = self
            .names(&directory)
            .iter()
            .map(|name| Ok(self.probe(&directory, name)))
            .collect();
        scanner.scan(Ok(entries))
    }

    fn controllers(&self, scanner: &Scanner) -> Listing<ControllerEntry> {
        let directory = scanner.devices_dir();
        Ok(self
            .names(&directory)
            .into_iter()
            .map(|name| {
                let path = format!("{directory}/{name}");
                let name = Some(name);
                let authorized_default =
                    controller_attribute(&name, &path).map(|path| self.read(&path));
                Ok(ControllerEntry { name, path, authorized_default })
            })
            .collect())
    }
}

fn apply_default(
    sysfs: &mut FakeSysfs,
    scanner: &Scanner,
    default: AuthorizedDefault,
) -> Result<Vec<ControllerAuthorizationUpdate>, Error> {
    let mut step =
        scanner.apply_controller_authorized_default(default, sysfs.controllers(scanner));
    loop {
        match step {
            ControllerStep::Write(writes) => {
                sysfs.put(writes.path(), writes.value());
                step = writes.resume(Ok(()));
            }
            ControllerStep::Done(updates) => return updates,
        }
    }
}

fn restore_defaults(
    sysfs: &mut FakeSysfs,
    scanner: &Scanner,
    states: Vec<ControllerAuthorizationState>,
) -> Result<Vec<ControllerAuthorizationUpdate>, Error> {
    let mut step = scanner.restore_controller_authorized_defaults(states);
    loop {
        match step {
            RestoreStep::Read(read) => {
                let contents = sysfs.read(&read.path());
                step = read.resume(contents);
            }
            RestoreStep::Write(write) => {
                sysfs.put(&write.path(), write.value());
                step = write.resume(Ok(()));
            }
            RestoreStep::Done(updates) => return updates,
        }
    }
}

fn forced(sysfs: &mut FakeSysfs, device: &UsbDevice, action: Action) -> EnforcementOutcome {
    match force_authorization(device, action) {
        Enforcement::Settled(outcome) => outcome,
        Enforcement::Write(write) => {
            let attempt = sysfs.overwrite(&write.path, &write.value);
            enforcement_outcome(&write.path, attempt).expect("the write is no failure")
        }
    }
}

fn denied() -> IoError {
    IoError {
        kind: IoErrorKind::Other,
        os_code: Some(13),
        message: "Permission denied (os error 13)".to_string(),
    }
}

#[test]
fn parses_interface_descriptors() {
    let descriptors = [
        9, 4, 0, 0, 1, 0x03, 0x01, 0x01, 0, 9, 4, 1, 0, 1, 0x08, 0x06, 0x50, 0,
    ];

    assert_eq!(
        parse_interfaces(&descriptors),
        vec!["03:01:01".to_string(), "08:06:50".to_string()]
    );
}

#[test]
fn scanner_reads_usb_device_from_fake_sysfs() {
    let mut sysfs = FakeSysfs::default();
    sysfs.put("/fake/bus/usb/devices/usb1/idVendor", "1d6b\n");
    sysfs.put("/fake/bus/usb/devices/usb1/idProduct", "0002\n");
    sysfs.put("/fake/bus/usb/devices/usb1/authorized_default", "1\n");

    sysfs.put("/fake/bus/usb/devices/1-2/uevent", "DEVTYPE=usb_device\n");
    sysfs.put("/fake/bus/usb/devices/1-2/idVendor", "FEED\n");
    sysfs.put("/fake/bus/usb/devices/1-2/idProduct", "1307\n");
    sysfs.put("/fake/bus/usb/devices/1-2/bDeviceClass", "00\n");
    sysfs.put("/fake/bus/usb/devices/1-2/product", "Test Keyboard\n");
    sysfs.put("/fake/bus/usb/devices/1-2/serial", "abc123\n");
    sysfs.put("/fake/bus/usb/devices/1-2/authorized", "1\n");
    sysfs.put("/fake/bus/usb/devices/1-2/port/connect_type", "hardwired\n");
    sysfs.put(
        "/fake/bus/usb/devices/1-2/descriptors",
        [9, 4, 0, 0, 1, 0x03, 0x01, 0x01, 0],
    );

    let devices = sysfs.scan(&Scanner::new("/fake".to_string())).expect("the scan succeeds");

    assert_eq!(devices.len(), 1);
    assert_eq!(devices[0].port_path, "1-2");
    assert_eq!(devices[0].vendor_id, "feed");
    assert_eq!(devices[0].product_id, "1307");
    assert_eq!(devices[0].product_name.as_deref(), Some("Test Keyboard"));
    assert_eq!(devices[0].serial.as_deref(), Some("abc123"));
    assert_eq!(devices[0].connect_type.as_deref(), Some("hardwired"));
    assert_eq!(devices[0].authorized, Some(true));
    assert_eq!(devices[0].interfaces, vec!["03:01:01".to_string()]);
    assert!(devices[0].descriptor_hash.is_some());
    assert!(!devices[0].is_hub);
    assert_eq!(devices[0].sysfs_path, "/fake/bus/usb/devices/1-2");
}

#[test]
fn scanner_classifies_usb_hubs() {
    let mut sysfs = FakeSysfs::default();
    sysfs.put("/fake/bus/usb/devices/1-2/uevent", "DEVTYPE=usb_device\n");
    sysfs.put("/fake/bus/usb/devices/1-2/idVendor", "05e3\n");
    sysfs.put("/fake/bus/usb/devices/1-2/idProduct", "0610\n");
    sysfs.put("/fake/bus/usb/devices/1-2/bDeviceClass", "09\n");
    sysfs.put("/fake/bus/usb/devices/1-2/authorized", "1\n");

    let devices = sysfs.scan(&Scanner::new("/fake".to_string())).expect("the scan succeeds");

    assert_eq!(devices.len(), 1);
    assert!(devices[0].is_hub);
}

#[test]
fn computes_controller_authorized_default_updates() {
    let mut sysfs = FakeSysfs::default();
    sysfs.put("/fake/bus/usb/devices/usb1/authorized_default", "1\n");

    let scanner = Scanner::new("/fake".to_string());
    let updates = scanner
        .controller_authorization_updates(AuthorizedDefault::Nothing, sysfs.controllers(&scanner))
        .expect("the controllers are read");

    assert_eq!(
        updates,
        vec![ControllerAuthorizationUpdate {
            controller: "usb1".to_string(),
            current: Some("1".to_string()),
            desired: "0".to_string(),
        }]
    );
    assert!(scanner
        .controller_authorization_updates(AuthorizedDefault::Keep, sysfs.controllers(&scanner))
        .expect("the controllers are read")
        .is_empty());
}

#[test]
fn applies_controller_authorized_default_updates() {
    let mut sysfs = FakeSysfs::default();
    sysfs.put("/fake/bus/usb/devices/usb1/authorized_default", "1\n");

    let scanner = Scanner::new("/fake".to_string());
    let updates = apply_default(&mut sysfs, &scanner, AuthorizedDefault::Nothing)
        .expect("the controllers are set");

    assert_eq!(updates.len(), 1);
    assert_eq!(sysfs.text("/fake/bus/usb/devices/usb1/authorized_default"), "0");
}

#[test]
fn forced_device_authorization_ignores_cached_state() {
    let mut sysfs = FakeSysfs::default();
    sysfs.put("/fake/bus/usb/devices/1-2/authorized", "0\n");
    let device = UsbDevice {
        sysfs_path: "/fake/bus/usb/devices/1-2".to_string(),
        authorized: Some(true),
        ..UsbDevice::default()
    };

    forced(&mut sysfs, &device, Action::Allow);

    assert_eq!(sysfs.text("/fake/bus/usb/devices/1-2/authorized"), "1\n");
}

#[test]
fn authorization_reports_disappeared_device() {
    let mut sysfs = FakeSysfs::default();
    let device = UsbDevice {
        sysfs_path: "/fake/bus/usb/devices/1-2".to_string(),
        authorized: Some(false),
        ..UsbDevice::default()
    };

    let outcome = forced(&mut sysfs, &device, Action::Allow);

    assert_eq!(outcome, EnforcementOutcome::DeviceGone);
}

#[test]
fn captures_and_restores_controller_authorized_defaults() {
    let mut sysfs = FakeSysfs::default();
    sysfs.put("/fake/bus/usb/devices/usb1/authorized_default", "1\n");

    let scanner = Scanner::new("/fake".to_string());
    let states = scanner
        .controller_authorization_states(sysfs.controllers(&scanner))
        .expect("the controllers are read");
    apply_default(&mut sysfs, &scanner, AuthorizedDefault::Nothing)
        .expect("the controllers are set");
    let updates =
        restore_defaults(&mut sysfs, &scanner, states).expect("the controllers are put back");

    assert_eq!(
        updates,
        vec![ControllerAuthorizationUpdate {
            controller: "usb1".to_string(),
            current: Some("0".to_string()),
            desired: "1".to_string(),
        }]
    );
    assert_eq!(sysfs.text("/fake/bus/usb/devices/usb1/authorized_default"), "1");
}

#[test]
fn recognizes_only_root_hub_names() {
    assert!(is_root_hub_name("usb1"));
    assert!(is_root_hub_name("usb42"));
    assert!(!is_root_hub_name("usb"));
    assert!(!is_root_hub_name("1-2"));
    assert!(!is_root_hub_name("1-2:1.0"));
}

#[test]
fn hashes_descriptors_with_sha256_in_base64() {
    assert_eq!(hash_descriptors(b""), "47DEQpj8HBSa+/TImW+5JCeuQeRkm5NMpJWZG3hSuFU=");
    assert_eq!(hash_descriptors(b"abc"), "ungWv48Bz+pBQUDeXa4iI7ADYaOWF3qctBD/YfIAFa0=");
}

#[test]
fn interfaces_are_sorted_without_repetition() {
    let descriptors = [
        9, 4, 0, 0, 1, 0x08, 0x06, 0x50, 0, 2, 5, 9, 4, 1, 0, 1, 0x03, 0x01, 0x02, 0, 9, 4, 2, 0,
        1, 0x08, 0x06, 0x50, 0,
    ];

    assert_eq!(
        parse_interfaces(&descriptors),
        vec!["03:01:02".to_string(), "08:06:50".to_string()]
    );
    assert!(parse_interfaces(&[9, 4, 0, 0, 1, 3, 1]).is_empty());
    assert!(parse_interfaces(&[0, 4, 9, 4]).is_empty());
}

#[test]
fn devices_come_in_the_order_of_their_ports() {
    let mut sysfs = FakeSysfs::default();
    for port in ["3-1", "1-10", "1-2"] {
        sysfs.put(&format!("/fake/bus/usb/devices/{port}/idVendor"), "feed\n");
        sysfs.put(&format!("/fake/bus/usb/devices/{port}/idProduct"), "1307\n");
    }

    let devices = sysfs.scan(&Scanner::new("/fake".to_string())).expect("the scan succeeds");

    let ports: Vec<&str> = devices.iter().map(|device| device.port_path.as_str()).collect();
    assert_eq!(ports, ["1-10", "1-2", "3-1"]);
}

#[test]
fn devices_at_one_port_keep_their_order() {
    let device = |port_path: &str, serial: &str| {
        Ok(Ok(Some(UsbDevice {
            port_path: port_path.to_string(),
            serial: Some(serial.to_string()),
            ..UsbDevice::default()
        })))
    };

    let devices = Scanner::new("/fake".to_string())
        .scan(Ok(vec![device("2", "b"), device("1", "c"), device("2", "a"), device("1", "d")]))
        .expect("the scan succeeds");

    let serials: Vec<&str> =
        devices.iter().filter_map(|device| device.serial.as_deref()).collect();
    assert_eq!(serials, ["c", "d", "b", "a"]);
}

#[test]
fn entries_that_are_no_devices_are_passed_over() {
    let mut sysfs = FakeSysfs::default();
    sysfs.put("/fake/bus/usb/devices/1-2:1.0/uevent", "DEVTYPE=usb_interface\n");
    sysfs.put("/fake/bus/usb/devices/1-2:1.0/idVendor", "feed\n");
    sysfs.put("/fake/bus/usb/devices/1-2:1.0/idProduct", "1307\n");
    sysfs.put("/fake/bus/usb/devices/1-3/idVendor", "feed\n");
    sysfs.put("/fake/bus/usb/devices/1-4/idVendor", "feed\n");
    sysfs.put("/fake/bus/usb/devices/1-4/idProduct", [0xff, 0xfe]);

    let devices = sysfs.scan(&Scanner::new("/fake".to_string())).expect("the scan succeeds");

    assert!(devices.is_empty());
}

#[test]
fn listing_failures_end_the_scan() {
    let scanner = Scanner::new("/fake".to_string());

    let error = scanner.scan(Err(denied())).expect_err("the scan fails");
    assert_eq!(
        error.message(),
        "failed to read USB sysfs directory /fake/bus/usb/devices: \
         Permission denied (os error 13)"
    );

    let error = scanner.scan(Ok(vec![Err(denied())])).expect_err("the scan fails");
    assert_eq!(
        error.message(),
        "failed to read sysfs entry: Permission denied (os error 13)"
    );

    let error = scanner
        .controller_authorizations(Ok(vec![Ok(ControllerEntry {
            name: Some("usb1".to_string()),
            path: "/fake/bus/usb/devices/usb1".to_string(),
            authorized_default: Some(Err(denied())),
        })]))
        .expect_err("the controllers cannot be read");
    assert_eq!(
        error.message(),
        "failed to read /fake/bus/usb/devices/usb1/authorized_default: \
         Permission denied (os error 13)"
    );
}

#[test]
fn settled_devices_are_not_written() {
    let device = UsbDevice {
        sysfs_path: "/fake/bus/usb/devices/1-2".to_string(),
        authorized: Some(true),
        ..UsbDevice::default()
    };

    assert_eq!(
        apply_authorization(&device, Action::Allow),
        Enforcement::Settled(EnforcementOutcome::Applied)
    );
    match apply_authorization(&device, Action::Block) {
        Enforcement::Write(write) => {
            assert_eq!(write.path, "/fake/bus/usb/devices/1-2/authorized");
            assert_eq!(write.value, "0\n");
        }
        Enforcement::Settled(_) => panic!("the device has another authorization"),
    }
    assert_eq!(
        preview_authorization(&device, Action::Block),
        EnforcementOutcome::Applied
    );
}

#[test]
fn write_failures_are_told_apart_from_gone_devices() {
    let no_device = IoError {
        kind: IoErrorKind::Other,
        os_code: Some(19),
        message: "No such device (os error 19)".to_string(),
    };

    assert!(is_device_gone(&no_device));
    assert!(is_device_gone(&not_found()));
    assert!(!is_device_gone(&denied()));
    assert_eq!(
        enforcement_outcome("/a", WriteAttempt::NotWritten(no_device)),
        Ok(EnforcementOutcome::DeviceGone)
    );
    assert_eq!(
        enforcement_outcome("/a", WriteAttempt::NotOpened(denied()))
            .expect_err("the file cannot be opened")
            .message(),
        "failed to open /a: Permission denied (os error 13)"
    );
    assert_eq!(
        enforcement_outcome("/a", WriteAttempt::NotWritten(denied()))
            .expect_err("the file cannot be written")
            .message(),
        "failed to write /a: Permission denied (os error 13)"
    );
}

#[test]
fn a_failed_controller_write_ends_setting() {
    let mut sysfs = FakeSysfs::default();
    sysfs.put("/fake/bus/usb/devices/usb1/authorized_default", "1\n");
    sysfs.put("/fake/bus/usb/devices/usb2/authorized_default", "1\n");
    let scanner = Scanner::new("/fake".to_string());

    let step = scanner
        .apply_controller_authorized_default(AuthorizedDefault::Nothing, sysfs.controllers(&scanner));
    match step {
        ControllerStep::Write(writes) => match writes.resume(Err(denied())) {
            ControllerStep::Done(Err(error)) => assert_eq!(
                error.message(),
                "failed to write /fake/bus/usb/devices/usb1/authorized_default: \
                 Permission denied (os error 13)"
            ),
            _ => panic!("setting ends"),
        },
        ControllerStep::Done(_) => panic!("a controller has to be set"),
    }
}

#[test]
fn restoring_leaves_settled_and_missing_controllers_alone() {
    let mut sysfs = FakeSysfs::default();
    sysfs.put("/fake/bus/usb/devices/usb1/authorized_default", "1\n");
    let scanner = Scanner::new("/fake".to_string());
    let kept = |controller: &str| ControllerAuthorizationState {
        controller: controller.to_string(),
        authorized_default: "1".to_string(),
    };

    let updates = restore_defaults(&mut sysfs, &scanner, vec![kept("usb1"), kept("usb2")])
        .expect("nothing fails");

    assert!(updates.is_empty());
    assert_eq!(sysfs.text("/fake/bus/usb/devices/usb1/authorized_default"), "1\n");
    sysfs.remove("/fake/bus/usb/devices/usb1/authorized_default");
    assert!(restore_defaults(&mut sysfs, &scanner, vec![kept("usb1")])
        .expect("nothing fails")
        .is_empty());
}

#[test]
fn putting_controllers_back_undoes_setting_them() {
    let scanner = Scanner::new("/sys".to_string());
    for (default, expected) in [
        (AuthorizedDefault::Keep, vec![]),
        (AuthorizedDefault::Nothing, vec![("usb1", "1", "0"), ("usb2", "2", "0")]),
        (AuthorizedDefault::All, vec![("usb10", "0", "1"), ("usb2", "2", "1")]),
    ] {
        let mut sysfs = FakeSysfs::default();
        sysfs.put("/sys/bus/usb/devices/usb2/authorized_default", "2\n");
        sysfs.put("/sys/bus/usb/devices/usb10/authorized_default", "0\n");
        sysfs.put("/sys/bus/usb/devices/usb1/authorized_default", "1");
        sysfs.put("/sys/bus/usb/devices/usb3/idVendor", "1d6b\n");
        let capture = |sysfs: &FakeSysfs| {
            scanner
                .controller_authorization_states(sysfs.controllers(&scanner))
                .expect("the controllers are read")
        };
        let states = capture(&sysfs);
        assert_eq!(states.len(), 3);

        let updates = apply_default(&mut sysfs, &scanner, default).expect("the values are set");
        assert_eq!(
            updates
                .iter()
                .map(|update| {
                    (
                        update.controller.as_str(),
                        update.current.as_deref().expect("there was a value"),
                        update.desired.as_str(),
                    )
                })
                .collect::<Vec<_>>(),
            expected
        );
        let files = sysfs.files.clone();
        assert_eq!(apply_default(&mut sysfs, &scanner, default), Ok(vec![]));
        assert_eq!(sysfs.files, files);

        let undone = restore_defaults(&mut sysfs, &scanner, states.clone())
            .expect("the values are put back");
        assert_eq!(undone.len(), updates.len());
        for (undo, update) in undone.iter().zip(&updates) {
            assert_eq!(undo.controller, update.controller);
            assert_eq!(undo.current.as_ref(), Some(&update.desired));
            assert_eq!(Some(&undo.desired), update.current.as_ref());
        }
        assert_eq!(capture(&sysfs), states);
    }
}

#[test]
fn attribute_texts_are_taken_apart() {
    assert_eq!(trim_sysfs_value("abc \n\t\r\0\n"), "abc ");
    assert_eq!(join_path("/sys", "bus/usb"), "/sys/bus/usb");
    assert_eq!(join_path("/sys/", "bus/usb"), "/sys/bus/usb");
    assert_eq!(join_path("/sys", "/etc"), "/etc");

    let properties = parse_uevent("DEVTYPE=usb_device\r\nPRODUCT=a=b\nnothing\nDEVTYPE=other");
    assert_eq!(properties.len(), 2);
    assert_eq!(
        properties.get(&"DEVTYPE".to_string()).map(String::as_str),
        Some("other")
    );
    assert_eq!(
        properties.get(&"PRODUCT".to_string()).map(String::as_str),
        Some("a=b")
    );
}

#[test]
fn attributes_that_are_no_text_are_failures() {
    let error = read_trimmed_optional("/a", Ok(vec![0xc3, 0x28])).expect_err("no text");
    assert_eq!(
        error.message(),
        "failed to read /a: stream did not contain valid UTF-8"
    );
    assert_eq!(
        read_trimmed_optional("/a", Ok("ä\n".as_bytes().to_vec())),
        Ok(Some("ä".to_string()))
    );
    assert_eq!(read_trimmed_optional("/a", Err(not_found())), Ok(None));
}
