//! An initial policy that allows the devices that are plugged in.
use super::{
    Action, DeviceMatcher, DeviceMatcherView, InterfaceMatcher, InterfaceMatcherView, Policy,
    PolicyView, Rule, RuleView,
};
use crate::sysfs::{UsbDevice, UsbDeviceView};
use vstd::prelude::*;

verus! {

/// A text that is there and not empty.
pub open spec fn nonempty(value: Option<Seq<char>>) -> Option<Seq<char>> {
    if value is Some && value->0.len() > 0 {
        value
    } else {
        None
    }
}

/// The name of the rule for a device: its product name, else its two ids.
pub open spec fn generated_name(d: UsbDeviceView) -> Seq<char> {
    match nonempty(d.product_name) {
        Some(name) => name,
        None => "USB "@ + d.vendor_id + ":"@ + d.product_id,
    }
}

/// The rule that allows one device. A device without a serial is told apart by its port.
pub open spec fn generated_rule(d: UsbDeviceView) -> RuleView {
    RuleView {
        name: generated_name(d),
        action: Action::Allow,
        matcher: DeviceMatcherView {
            vendor_id: Some(d.vendor_id),
            product_id: Some(d.product_id),
            serial: nonempty(d.serial),
            product_name: None,
            connect_type: nonempty(d.connect_type),
            port_path: if nonempty(d.serial) is None {
                Some(d.port_path)
            } else {
                None
            },
            descriptor_hash: d.descriptor_hash,
            is_hub: Some(d.is_hub),
            interfaces: InterfaceMatcherView { any: Seq::empty(), all: Seq::empty() },
        },
    }
}

/// One rule for each device, in order; everything else is blocked.
pub open spec fn generated_policy(devices: Seq<UsbDeviceView>) -> PolicyView {
    PolicyView {
        default: Action::Block,
        rules: Seq::new(devices.len(), |i: int| generated_rule(devices[i])),
    }
}

fn clone_nonempty(value: &Option<String>) -> (r: Option<String>)
    ensures
        r.deep_view() == nonempty(value.deep_view()),
{
    match value {
        Some(text) => {
            if text.as_str().is_empty() {
                None
            } else {
                Some(text.clone())
            }
        },
        None => None,
    }
}

fn generated_rule_name(device: &UsbDevice) -> (r: String)
    ensures
        r@ == generated_name(device@),
{
    match clone_nonempty(&device.product_name) {
        Some(product_name) => product_name,
        None => {
            let mut name = "USB ".to_owned();
            name.append(device.vendor_id.as_str());
            name.append(":");
            name.append(device.product_id.as_str());
            name
        },
    }
}

fn rule_for(device: &UsbDevice) -> (r: Rule)
    ensures
        r@ == generated_rule(device@),
{
    let serial = clone_nonempty(&device.serial);
    let port_path = if serial.is_none() {
        Some(device.port_path.clone())
    } else {
        None
    };
    Rule {
        name: generated_rule_name(device),
        action: Action::Allow,
        matcher: DeviceMatcher {
            vendor_id: Some(device.vendor_id.clone()),
            product_id: Some(device.product_id.clone()),
            serial,
            product_name: None,
            connect_type: clone_nonempty(&device.connect_type),
            port_path,
            descriptor_hash: device.descriptor_hash.clone(),
            is_hub: Some(device.is_hub),
            interfaces: InterfaceMatcher::default(),
        },
    }
}

/// The policy that allows the given devices and blocks all others.
pub fn generate_policy(devices: &[UsbDevice]) -> (r: Policy)
    ensures
        r@ == generated_policy(devices.deep_view()),
{
    let mut rules: Vec<Rule> = Vec::new();
    for i in 0..devices.len()
        invariant
            rules@.len() == i,
            forall|j: int| 0 <= j < i ==> (#[trigger] rules@[j])@ == generated_rule(devices@[j]@),
    {
        rules.push(rule_for(&devices[i]));
    }
    let r = Policy { default: Action::Block, rules };
    assert(r@.rules =~= generated_policy(devices.deep_view()).rules);
    r
}

} // verus!
