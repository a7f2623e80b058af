//! A device together with what was decided about it.
use crate::policy::{Decision, DecisionView};
use crate::sysfs::{UsbDevice, UsbDeviceView};
use vstd::prelude::*;

verus! {

#[derive(Debug, PartialEq, Eq)]
pub struct DeviceState {
    pub device: UsbDevice,
    pub decision: Decision,
}

#[verifier::ext_equal]
pub struct DeviceStateView {
    pub device: UsbDeviceView,
    pub decision: DecisionView,
}

impl View for DeviceState {
    type V = DeviceStateView;

    open spec fn view(&self) -> DeviceStateView {
        DeviceStateView { device: self.device@, decision: self.decision@ }
    }
}

impl DeepView for DeviceState {
    type V = DeviceStateView;

    open spec fn deep_view(&self) -> DeviceStateView {
        self@
    }
}

impl Clone for DeviceState {
    fn clone(&self) -> (r: Self)
        ensures
            r@ == self@,
    {
        DeviceState { device: self.device.clone(), decision: self.decision.clone() }
    }
}

impl DeviceState {
    pub fn new(device: UsbDevice, decision: Decision) -> (r: Self)
        ensures
            r@ == (DeviceStateView { device: device@, decision: decision@ }),
    {
        DeviceState { device, decision }
    }
}

} // verus!
