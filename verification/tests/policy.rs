use custos::config::{Config, Loaded, Mode};
use custos::error::{IoError, IoErrorKind};
use custos::policy::generation::generate_policy;
use custos::policy::validation::is_valid_pattern;
use custos::policy::{interface_matches, Action, DeviceMatcher, InterfaceMatcher, Policy, Rule};
use custos::sysfs::UsbDevice;

fn sample_device() -> UsbDevice {
    UsbDevice {
        id: 42,
        sysfs_path: "/sys/bus/usb/devices/1-2".to_string(),
        port_path: "1-2".to_string(),
        vendor_id: "feed".to_string(),
        product_id: "1307".to_string(),
        product_name: Some("Test Keyboard".to_string()),
        serial: Some("abc123".to_string()),
        connect_type: Some("hotplug".to_string()),
        authorized: Some(true),
        descriptor_hash: Some("descriptor-sha256".to_string()),
        interfaces: vec!["03:01:01".to_string(), "03:00:00".to_string()],
        is_hub: false,
    }
}

#[test]
fn startup_validation_refuses_empty_enforcing_policy() {
    let policy = Policy::default();

    assert!(policy.validate_for_start(&Config::default()).is_err());

    let dry_run = Config {
        mode: Mode::DryRun,
        ..Config::default()
    };
    assert!(policy.validate_for_start(&dry_run).is_ok());

    let unsafe_empty = Config {
        unsafe_allow_empty_policy: true,
        ..Config::default()
    };
    assert!(policy.validate_for_start(&unsafe_empty).is_ok());
}

#[test]
fn startup_validation_requires_endpoint_allow_rule() {
    let policy = Policy {
        default: Action::Block,
        rules: vec![Rule {
            name: "hub passthrough".to_string(),
            action: Action::Allow,
            matcher: DeviceMatcher {
                is_hub: Some(true),
                ..DeviceMatcher::default()
            },
        }],
    };

    assert!(matches!(
            policy.validate_for_start(&Config::default()),
            Err(error) if error.message().contains("non-hub")
    ));
}

#[test]
fn policy_validation_rejects_empty_matcher() {
    let policy = Policy {
        default: Action::Block,
        rules: vec![Rule {
            name: "empty".to_string(),
            action: Action::Block,
            matcher: DeviceMatcher::default(),
        }],
    };

    assert!(matches!(
            policy.validate(),
            Err(error) if error.message().contains("empty matcher")
    ));
}

#[test]
fn policy_validation_rejects_malformed_interface_pattern() {
    let policy = Policy {
        default: Action::Block,
        rules: vec![Rule {
            name: "bad interface".to_string(),
            action: Action::Allow,
            matcher: DeviceMatcher {
                interfaces: InterfaceMatcher {
                    any: vec!["03:*".to_string()],
                    all: Vec::new(),
                },
                ..DeviceMatcher::default()
            },
        }],
    };

    assert!(matches!(
            policy.validate(),
            Err(error) if error.message().contains("invalid interface pattern")
    ));
}

/// The text under a key of a TOML table.
fn text(table: &toml::Value, key: &str) -> Option<String> {
    table.get(key).and_then(|value| value.as_str()).map(str::to_string)
}

/// The list of texts under a key of a TOML table.
fn texts(table: Option<&toml::Value>, key: &str) -> Vec<String> {
    table
        .and_then(|table| table.get(key))
        .and_then(|value| value.as_array())
        .map(|values| values.iter().filter_map(|value| value.as_str()).map(str::to_string).collect())
        .unwrap_or_default()
}

fn action(name: &str) -> Action {
    match name {
        "allow" => Action::Allow,
        _ => Action::Block,
    }
}

/// The policy that a TOML document describes.
fn policy_of(document: &toml::Value) -> Policy {
    let rules = document
        .get("rules")
        .and_then(|rules| rules.as_array())
        .map(|rules| {
            rules
                .iter()
                .map(|rule| {
                    let matcher = rule.get("match").expect("a rule has a matcher");
                    Rule {
                        name: text(rule, "name").expect("a rule has a name"),
                        action: action(&text(rule, "action").expect("a rule has an action")),
                        matcher: DeviceMatcher {
                            vendor_id: text(matcher, "vendor_id"),
                            product_id: text(matcher, "product_id"),
                            serial: text(matcher, "serial"),
                            product_name: text(matcher, "product_name"),
                            connect_type: text(matcher, "connect_type"),
                            port_path: text(matcher, "port_path"),
                            descriptor_hash: text(matcher, "descriptor_hash"),
                            is_hub: matcher.get("is_hub").and_then(|value| value.as_bool()),
                            interfaces: InterfaceMatcher {
                                any: texts(matcher.get("interfaces"), "any"),
                                all: texts(matcher.get("interfaces"), "all"),
                            },
                        },
                    }
                })
                .collect()
        })
        .unwrap_or_default();
    Policy {
        default: action(&text(document, "default").unwrap_or_else(|| "block".to_string())),
        rules,
    }
}

#[test]
fn toml_policy_matches_device_fields_and_interfaces() {
    let document: toml::Value = toml::from_str(
        r#"
default = "block"

[[rules]]
name = "test keyboard"
action = "allow"

[rules.match]
vendor_id = "FEED"
product_id = "1307"
serial = "abc123"
descriptor_hash = "descriptor-sha256"

[rules.match.interfaces]
any = ["03:*:*"]
all = ["03:01:01"]
"#,
    )
    .expect("the document parses");
    let policy = policy_of(&document);

    let decision = policy.decide(&sample_device());

    assert_eq!(decision.action, Action::Allow);
    assert_eq!(decision.rule.as_deref(), Some("test keyboard"));
}

#[test]
fn first_matching_rule_wins_for_allow_and_block() {
    let policy = Policy {
        default: Action::Block,
        rules: vec![
            Rule {
                name: "serial block".to_string(),
                action: Action::Block,
                matcher: DeviceMatcher {
                    serial: Some("abc123".to_string()),
                    ..DeviceMatcher::default()
                },
            },
            Rule {
                name: "vendor allow".to_string(),
                action: Action::Allow,
                matcher: DeviceMatcher {
                    vendor_id: Some("feed".to_string()),
                    product_id: Some("1307".to_string()),
                    ..DeviceMatcher::default()
                },
            },
        ],
    };

    let decision = policy.decide(&sample_device());

    assert_eq!(decision.action, Action::Block);
    assert_eq!(decision.rule.as_deref(), Some("serial block"));
}

#[test]
fn default_block_allows_hubs_for_downstream_enforcement() {
    let mut device = sample_device();
    device.is_hub = true;
    let policy = Policy::default();

    let decision = policy.decide(&device);

    assert_eq!(decision.action, Action::Allow);
    assert_eq!(decision.reason, "USB hub passthrough");
    assert!(decision.rule.is_none());
}

#[test]
fn explicit_hub_rule_overrides_hub_passthrough() {
    let mut device = sample_device();
    device.is_hub = true;
    let policy = Policy {
        default: Action::Block,
        rules: vec![Rule {
            name: "block hubs".to_string(),
            action: Action::Block,
            matcher: DeviceMatcher {
                is_hub: Some(true),
                ..DeviceMatcher::default()
            },
        }],
    };

    let decision = policy.decide(&device);

    assert_eq!(decision.action, Action::Block);
    assert_eq!(decision.rule.as_deref(), Some("block hubs"));
}

#[test]
fn generated_policy_defaults_to_block_and_allows_present_devices() {
    let policy = generate_policy(&[sample_device()]);

    assert_eq!(policy.default, Action::Block);
    assert_eq!(policy.rules.len(), 1);
    assert_eq!(policy.rules[0].action, Action::Allow);
    assert_eq!(policy.rules[0].matcher.is_hub, Some(false));
    assert_eq!(
        policy.decide(&sample_device()).rule.as_deref(),
        Some("Test Keyboard")
    );
}

#[test]
fn generated_policies_pass_validation_and_allow_their_devices() {
    let mut hub = sample_device();
    hub.is_hub = true;
    hub.serial = None;
    hub.product_name = None;
    hub.port_path = "1-3".to_string();
    let policy = generate_policy(&[sample_device(), hub.clone()]);

    assert_eq!(policy.validate_for_start(&Config::default()), Ok(()));
    assert_eq!(policy.decide(&hub).action, Action::Allow);
    assert_eq!(policy.decide(&hub).rule.as_deref(), Some("USB feed:1307"));
    assert_eq!(policy.rules[1].matcher.port_path.as_deref(), Some("1-3"));
}

#[test]
fn decisions_do_not_depend_on_the_authorization() {
    let mut device = sample_device();
    let policy = generate_policy(&[sample_device()]);
    device.authorized = None;

    assert_eq!(policy.decide(&device), policy.decide(&sample_device()));
}

#[test]
fn matchers_are_checked_field_by_field() {
    let failure = |matcher: DeviceMatcher| {
        let policy = Policy {
            default: Action::Block,
            rules: vec![Rule {
                name: "a \"rule\"".to_string(),
                action: Action::Allow,
                matcher,
            }],
        };
        policy.validate().expect_err("the matcher is wrong").message()
    };

    let message = failure(DeviceMatcher {
        vendor_id: Some("12g4".to_string()),
        ..DeviceMatcher::default()
    });
    assert!(message.contains("vendor_id"), "{message}");
    assert!(message.contains("\"a \\\"rule\\\"\""), "{message}");
    let message = failure(DeviceMatcher {
        product_id: Some("123".to_string()),
        ..DeviceMatcher::default()
    });
    assert!(message.contains("product_id"), "{message}");
    let message = failure(DeviceMatcher {
        serial: Some(String::new()),
        ..DeviceMatcher::default()
    });
    assert_eq!(
        message,
        "policy error: policy rule \"a \\\"rule\\\"\" field serial cannot be empty"
    );
}

#[test]
fn rule_names_cannot_be_blank() {
    let policy = Policy {
        default: Action::Block,
        rules: vec![Rule {
            name: " \t".to_string(),
            action: Action::Allow,
            matcher: DeviceMatcher { is_hub: Some(false), ..DeviceMatcher::default() },
        }],
    };
    assert_eq!(
        policy.validate().expect_err("the name is blank").message(),
        "policy error: policy rule name cannot be empty"
    );
}

#[test]
fn interface_patterns_match_segment_by_segment() {
    assert!(interface_matches("03:*:01", "03:01:01"));
    assert!(interface_matches("0A:*:*", "0a:ff:00"));
    assert!(!interface_matches("03:01", "03:01:01"));
    assert!(!interface_matches("03:01:02", "03:01:01"));
    assert!(is_valid_pattern("03:*:fF"));
    assert!(!is_valid_pattern("3:*:*"));
    assert!(!is_valid_pattern("03:*:*:*"));
}

#[test]
fn an_absent_policy_is_empty_where_that_is_permitted() {
    let absent = || {
        Loaded::Unreadable(IoError {
            kind: IoErrorKind::NotFound,
            os_code: Some(2),
            message: "gone".to_string(),
        })
    };
    let permitted = Config {
        unsafe_allow_empty_policy: true,
        default_action: Action::Allow,
        ..Config::default()
    };

    let policy = Policy::load("/p", absent(), &permitted).expect("the policy may be absent");
    assert_eq!(policy.default, Action::Allow);
    assert!(policy.rules.is_empty());
    assert_eq!(
        Policy::load("/p", absent(), &Config::default())
            .expect_err("the policy has to be there")
            .message(),
        "failed to read policy /p: gone"
    );
    assert_eq!(
        Policy::load("/p", Loaded::Malformed("bad".to_string()), &Config::default())
            .expect_err("the policy does not parse")
            .message(),
        "policy error: /p: bad"
    );
}

#[test]
fn decisions_do_not_depend_on_number_path_or_authorization() {
    let device = sample_device();
    let mut seen_again = device.clone();
    seen_again.id = 7;
    seen_again.sysfs_path = "/sys/bus/usb/devices/9-9".to_string();
    seen_again.authorized = None;
    let mut hub = device.clone();
    hub.is_hub = true;
    let block = Policy { default: Action::Block, rules: vec![] };
    let allow = Policy { default: Action::Allow, rules: vec![] };
    let named = generate_policy(&[sample_device()]);
    for (policy, device, action, reason, rule) in [
        (&block, &device, Action::Block, "default action", None),
        (&block, &hub, Action::Allow, "USB hub passthrough", None),
        (&allow, &device, Action::Allow, "default action", None),
        (&allow, &hub, Action::Allow, "default action", None),
        (&named, &device, Action::Allow, "matched rule", Some("Test Keyboard")),
    ] {
        let decision = policy.decide(device);
        assert_eq!(decision.device_id, 42);
        assert_eq!(decision.action, action);
        assert_eq!(decision.reason, reason);
        assert_eq!(decision.rule.as_deref(), rule);
    }
    let first = named.decide(&device);
    let again = named.decide(&seen_again);
    assert_eq!(again.device_id, 7);
    assert_eq!((again.action, again.reason, again.rule), (first.action, first.reason, first.rule));
}

#[test]
fn generated_rules_go_with_the_serial() {
    let with_serial = sample_device();
    let mut without_serial = sample_device();
    without_serial.serial = None;
    let moved = |device: &UsbDevice| {
        let mut device = device.clone();
        device.port_path = "3-4".to_string();
        device.sysfs_path = "/sys/bus/usb/devices/3-4".to_string();
        device
    };
    let policy = generate_policy(&[with_serial.clone()]);
    assert_eq!(policy.decide(&with_serial).action, Action::Allow);
    assert_eq!(policy.decide(&moved(&with_serial)).action, Action::Allow);
    let policy = generate_policy(&[without_serial.clone()]);
    assert_eq!(policy.decide(&without_serial).action, Action::Allow);
    assert_eq!(policy.decide(&moved(&without_serial)).action, Action::Block);
}

#[test]
fn generated_policies_of_hubs_alone_do_not_start() {
    let mut hub = sample_device();
    hub.is_hub = true;
    let hubs = generate_policy(&[hub.clone()]);
    assert_eq!(hubs.validate(), Ok(()));
    assert!(hubs.validate_for_start(&Config::default()).is_err());
    let dry_run = Config { mode: Mode::DryRun, ..Config::default() };
    assert_eq!(hubs.validate_for_start(&dry_run), Ok(()));
    let both = generate_policy(&[hub, sample_device()]);
    assert_eq!(both.validate_for_start(&Config::default()), Ok(()));
}
