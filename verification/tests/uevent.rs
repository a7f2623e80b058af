use custos::error::{IoError, IoErrorKind};
use custos::sysfs::attributes::Contents;
use custos::uevent::{recv_one, Drain, DrainStep, Uevent};

#[test]
fn parses_usb_device_add_event() {
    let event = Uevent::parse(
        b"add@/devices/pci0000:00/usb1/1-2\0ACTION=add\0SUBSYSTEM=usb\0DEVTYPE=usb_device\0PRODUCT=feed/1307/1\0",
    );

    assert_eq!(event.header, "add@/devices/pci0000:00/usb1/1-2");
    assert!(event.is_usb_device_change());
}

#[test]
fn ignores_usb_interface_events() {
    let event = Uevent::parse(
        b"add@/devices/pci0000:00/usb1/1-2:1.0\0ACTION=add\0SUBSYSTEM=usb\0DEVTYPE=usb_interface\0",
    );

    assert!(!event.is_usb_device_change());
}

#[test]
fn ignores_non_usb_events() {
    let event = Uevent::parse(
        b"add@/devices/virtual/block/dm-0\0ACTION=add\0SUBSYSTEM=block\0",
    );

    assert!(!event.is_usb_device_change());
}

#[test]
fn parses_payload_without_header() {
    let event =
        Uevent::parse(b"ACTION=add\0SUBSYSTEM=usb\0DEVTYPE=usb_device\0");

    assert_eq!(event.header, "");
    assert!(event.is_usb_device_change());
}

fn received(bytes: &[u8]) -> Contents {
    Ok(bytes.to_vec())
}

fn failed(os_code: i32) -> Contents {
    Err(IoError {
        kind: IoErrorKind::Other,
        os_code: Some(os_code),
        message: "failed".to_string(),
    })
}

#[test]
fn later_properties_count_and_parts_that_are_no_text_do_not() {
    let event = Uevent::parse(b"\xff\xfe\0head\0ACTION=add\0ACTION=remove\0SUBSYSTEM\0");

    assert_eq!(event.header, "head");
    assert_eq!(event.action.as_deref(), Some("remove"));
    assert_eq!(event.subsystem, None);
    assert_eq!(event.devtype, None);
}

#[test]
fn every_relevant_action_counts() {
    for action in ["add", "bind", "change", "remove", "unbind"] {
        let payload = format!("ACTION={action}\0SUBSYSTEM=usb\0DEVTYPE=usb_device");
        assert!(Uevent::parse(payload.as_bytes()).is_usb_device_change());
    }
    assert!(!Uevent::parse(b"ACTION=move\0SUBSYSTEM=usb\0DEVTYPE=usb_device")
        .is_usb_device_change());
}

#[test]
fn draining_reports_whether_a_device_changed() {
    let change = received(b"ACTION=add\0SUBSYSTEM=usb\0DEVTYPE=usb_device\0");
    let other = received(b"ACTION=add\0SUBSYSTEM=block\0");
    let drain = match Drain::start().resume(change) {
        DrainStep::Receive(drain) => drain,
        DrainStep::Done(_) => panic!("there may be more"),
    };
    let drain = match drain.resume(other) {
        DrainStep::Receive(drain) => drain,
        DrainStep::Done(_) => panic!("there may be more"),
    };
    match drain.resume(failed(11)) {
        DrainStep::Done(changed) => assert_eq!(changed, Ok(true)),
        DrainStep::Receive(_) => panic!("nothing is left"),
    }
    match Drain::start().resume(failed(4)) {
        DrainStep::Done(changed) => assert_eq!(changed, Ok(false)),
        DrainStep::Receive(_) => panic!("nothing is left"),
    }
    match Drain::start().resume(received(b"")) {
        DrainStep::Done(changed) => assert_eq!(changed, Ok(false)),
        DrainStep::Receive(_) => panic!("nothing is left"),
    }
}

#[test]
fn failures_to_receive_are_errors() {
    let error = recv_one(failed(105)).expect_err("receiving fails");
    assert_eq!(error.message(), "failed to receive kobject uevent: failed");
}
