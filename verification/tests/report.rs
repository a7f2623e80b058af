use custos::config::Mode;
use custos::control::Response;
use custos::device::DeviceState;
use custos::error::Error;
use custos::policy::{Action, Decision, Policy};
use custos::report::table::render_report_table;
use custos::report::{
    decision_source, dry_run, render_dry_run_report, render_message_report, render_response,
    response_outcome, source_label, DryRunReport,
};
use custos::sysfs::controllers::ControllerAuthorizationUpdate;
use custos::sysfs::UsbDevice;

fn lines(lines: &[&str]) -> String {
    lines.iter().map(|line| format!("{line}\n")).collect()
}

#[test]
fn renders_devices_as_human_table() {
    let output = render_response(&Response::Devices {
        devices: vec![DeviceState {
            device: UsbDevice {
                id: 1,
                port_path: "1-2".to_string(),
                vendor_id: "feed".to_string(),
                product_id: "1307".to_string(),
                product_name: Some("Test Keyboard".to_string()),
                authorized: Some(true),
                is_hub: false,
                ..UsbDevice::default()
            },
            decision: Decision {
                device_id: 1,
                action: Action::Allow,
                reason: "matched rule".to_string(),
                rule: Some("trusted keyboard".to_string()),
            },
        }],
    })
    .expect("the table is printed");

    assert!(output.starts_with('┌'));
    assert!(output.contains("┌┬"));
    assert!(output.contains("├┴"));
    assert!(output.contains("CUSTOS USB AUTHORIZATION DAEMON"));
    assert!(output.contains("CONNECTED DEVICES REPORT"));
    assert!(output.contains('┬'));
    assert!(output.contains('┼'));
    assert!(output.contains('┴'));
    assert!(output.contains("│ ID "));
    assert!(output.contains("VID:PID"));
    assert!(output.contains("│ 1  "));
    assert!(output.contains("1-2"));
    assert!(output.contains("feed:1307"));
    assert!(output.contains("Test Keyboard"));
    assert!(output.contains("NO"));
    assert!(output.contains("YES"));
    assert!(output.contains("ALLOW"));
    assert!(output.contains("RULE \"trusted keyboard\""));
}

#[test]
fn renders_local_dry_run_as_human_text() {
    let report = DryRunReport {
        controller_updates: vec![ControllerAuthorizationUpdate {
            controller: "usb1".to_string(),
            current: Some("1".to_string()),
            desired: "0".to_string(),
        }],
        devices: vec![DeviceState {
            device: UsbDevice {
                id: 1,
                port_path: "1-2".to_string(),
                vendor_id: "feed".to_string(),
                product_id: "1307".to_string(),
                authorized: Some(false),
                is_hub: true,
                ..UsbDevice::default()
            },
            decision: Decision {
                device_id: 1,
                action: Action::Allow,
                reason: "USB hub passthrough".to_string(),
                rule: None,
            },
        }],
    };

    let output = render_dry_run_report(&report).expect("the report is printed");

    assert!(output.contains("CONTROLLER DEFAULT PREVIEW"));
    assert!(output.contains("│ usb1       │ 1       │ 0"));
    assert!(output.contains("DEVICE DECISION PREVIEW"));
    assert!(output.contains("│ 1  "));
    assert!(output.contains("1-2"));
    assert!(output.contains("feed:1307"));
    assert!(output.contains("YES"));
    assert!(output.contains("ALLOW"));
    assert!(output.contains("REASON \"USB hub passthrough\""));
}

#[test]
fn prints_the_status_line_by_line() {
    let output = render_response(&Response::Status {
        mode: Mode::DryRun,
        device_count: 3,
        override_count: 1,
        socket_path: "/run/custos/control.sock".to_string(),
        policy_path: "/etc/custos/policy.toml".to_string(),
    });

    let expected = lines(&[
        "┌┬┬┬┬┬┬┬┬┬┬┬┬┬┬┬┬┬┬┬┬┬┬┬┬┬┬┬┬┬┬┬┬┬┬┬┬┬┬┬┬┬┬┬┬┬┐",
        "├┴┴┴┴┴┴┴┴┴┴┴┴┴┴┴┴┴┴┴┴┴┴┴┴┴┴┴┴┴┴┴┴┴┴┴┴┴┴┴┴┴┴┴┴┴┤",
        "│       CUSTOS USB AUTHORIZATION DAEMON       │",
        "│                STATUS REPORT                │",
        "├──────────────────┬──────────────────────────┤",
        "│ FIELD            │ VALUE                    │",
        "├──────────────────┼──────────────────────────┤",
        "│ MODE             │ DRY RUN                  │",
        "│ DEVICES          │ 3                        │",
        "│ MANUAL OVERRIDES │ 1                        │",
        "│ SOCKET           │ /run/custos/control.sock │",
        "│ POLICY           │ /etc/custos/policy.toml  │",
        "└──────────────────┴──────────────────────────┘",
    ]);
    assert_eq!(output, Ok(expected));
}

#[test]
fn pads_by_characters_in_columns_sized_by_bytes() {
    let output = render_response(&Response::Done { message: "äb ok".to_string() });

    let expected = lines(&[
        "┌┬┬┬┬┬┬┬┬┬┐",
        "├┴┴┴┴┴┴┴┴┴┤",
        "│ CUSTOS USB AUTHORIZATION DAEMON │",
        "│ COMMAND RESULT │",
        "├─────────┤",
        "│ MESSAGE │",
        "├─────────┤",
        "│ äB OK   │",
        "└─────────┘",
    ]);
    assert_eq!(output, Ok(expected));
}

#[test]
fn prints_decisions_with_quoted_sources() {
    let output = render_response(&Response::Decisions {
        decisions: vec![
            Decision {
                device_id: 1,
                action: Action::Allow,
                reason: "matched rule".to_string(),
                rule: Some("a \"b\"".to_string()),
            },
            Decision {
                device_id: 2,
                action: Action::Block,
                reason: "default action".to_string(),
                rule: None,
            },
        ],
    });

    let expected = lines(&[
        "┌┬┬┬┬┬┬┬┬┬┬┬┬┬┬┬┬┬┬┬┬┬┬┬┬┬┬┬┬┬┬┬┬┬┬┬┬┬┬┬┬┬┬┬┐",
        "├┴┴┴┴┴┴┴┴┴┴┴┴┴┴┴┴┴┴┴┴┴┴┴┴┴┴┴┴┴┴┴┴┴┴┴┴┴┴┴┴┴┴┴┤",
        "│      CUSTOS USB AUTHORIZATION DAEMON      │",
        "│          POLICY DECISION REPORT           │",
        "├────────┬────────┬─────────────────────────┤",
        "│ DEVICE │ ACTION │ SOURCE                  │",
        "├────────┼────────┼─────────────────────────┤",
        "│ 1      │ ALLOW  │ RULE \"a \\\"b\\\"\"          │",
        "│ 2      │ BLOCK  │ REASON \"default action\" │",
        "└────────┴────────┴─────────────────────────┘",
    ]);
    assert_eq!(output, Ok(expected));
}

#[test]
fn sources_are_quoted() {
    let decision = Decision {
        device_id: 1,
        action: Action::Allow,
        reason: "line\nbreak".to_string(),
        rule: None,
    };
    assert_eq!(decision_source(&decision), "REASON \"line\\nbreak\"");
    assert_eq!(source_label(true, "\"x\""), "RULE \"x\"");
    assert_eq!(source_label(false, "\"x\""), "REASON \"x\"");
}

#[test]
fn error_responses_are_passed_on() {
    let response = Response::Error { message: "unknown device id 99".to_string() };
    assert_eq!(
        render_response(&response),
        Err(Error::Protocol("unknown device id 99".to_string()))
    );
    assert_eq!(
        response_outcome(response),
        Err(Error::Protocol("unknown device id 99".to_string()))
    );
    assert_eq!(
        response_outcome(Response::Done { message: "done".to_string() }),
        Ok(())
    );
}

#[test]
fn tables_have_headers_and_even_rows() {
    let mut output = String::new();
    let error = render_report_table(&mut output, &vec![], &vec![], &vec![])
        .expect_err("there are no headers");
    assert_eq!(error.message(), "protocol error: cannot render a table without headers");

    let error = render_report_table(
        &mut output,
        &vec![],
        &vec!["A".to_string()],
        &vec![vec!["1".to_string(), "2".to_string()]],
    )
    .expect_err("the row is too long");
    assert_eq!(
        error.message(),
        "protocol error: cannot render a table with inconsistent row widths"
    );
    assert!(output.is_empty());
}

#[test]
fn titles_stand_in_the_middle_of_the_table() {
    let mut output = String::new();
    render_report_table(
        &mut output,
        &vec!["T".to_string(), "TT".to_string(), "TTT".to_string(), "TTTTTT".to_string()],
        &vec!["A".to_string(), "B".to_string()],
        &vec![],
    )
    .expect("the table is printed");
    let lines: Vec<&str> = output.lines().collect();
    assert_eq!(lines[0], "┌┬┬┬┬┬┬┬┐");
    assert_eq!(lines[1], "├┴┴┴┴┴┴┴┤");
    assert_eq!(lines[2], "│ CUSTOS USB AUTHORIZATION DAEMON │");
    assert_eq!(lines[3], "│   T   │");
    assert_eq!(lines[4], "│  TT   │");
    assert_eq!(lines[5], "│  TTT  │");
    assert_eq!(lines[6], "│ TTTTTT │");
    assert_eq!(lines[7], "├───┬───┤");
    assert_eq!(lines[8], "│ A │ B │");
}

#[test]
fn tables_are_boxes_of_titles_rows_and_seven_more_lines() {
    let mut output = String::new();
    render_report_table(
        &mut output,
        &vec!["FIRST".to_string(), "SECOND TITLE".to_string()],
        &vec!["NAME".to_string(), "a rather wide column of a table".to_string()],
        &vec![
            vec!["größe".to_string(), "1".to_string()],
            vec!["x".to_string(), "2".to_string()],
            vec!["y".to_string(), "3".to_string()],
        ],
    )
    .expect("the table is printed");
    assert_eq!(output.lines().count(), 2 + 3 + 7);
    assert!(output.ends_with('\n'));
    for line in output.lines() {
        assert_eq!(line.chars().count(), 7 + 31 + 2 * 3 + 1);
    }
}

#[test]
fn every_line_of_a_wide_table_has_the_same_width() {
    let output = render_message_report("TITLE", &"x".repeat(60)).expect("the table is printed");
    for line in output.lines() {
        assert_eq!(line.chars().count(), 64);
    }
}

#[test]
fn dry_runs_number_devices_and_decide_about_them() {
    let devices = vec![
        UsbDevice { port_path: "1-1".to_string(), is_hub: true, ..UsbDevice::default() },
        UsbDevice { port_path: "1-2".to_string(), ..UsbDevice::default() },
    ];

    let report = dry_run(&Policy::default(), Ok(vec![]), Ok(devices)).expect("the run succeeds");

    assert_eq!(report.devices[0].device.id, 1);
    assert_eq!(report.devices[0].decision.action, Action::Allow);
    assert_eq!(report.devices[1].device.id, 2);
    assert_eq!(report.devices[1].decision.device_id, 2);
    assert_eq!(report.devices[1].decision.action, Action::Block);
    assert!(!render_dry_run_report(&report)
        .expect("the report is printed")
        .contains("CONTROLLER DEFAULT PREVIEW"));

    let failed = dry_run(
        &Policy::default(),
        Err(Error::Config("first".to_string())),
        Err(Error::Config("second".to_string())),
    );
    assert_eq!(failed, Err(Error::Config("first".to_string())));
}
