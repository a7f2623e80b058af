//! What makes a device the same device from one scan to the next.
use crate::sysfs::{UsbDevice, UsbDeviceView};
use crate::table::Key;
use crate::text::same_text;
use vstd::prelude::*;

verus! {

/// The identity of a device: where it is plugged in, what it is, and its serial number. Whatever
/// else is read of a device may change without making it another one.
#[derive(Debug, PartialEq, Eq)]
pub struct DeviceKey {
    sysfs_path: String,
    vendor_id: String,
    product_id: String,
    serial: Option<String>,
}

#[verifier::ext_equal]
pub struct DeviceKeyView {
    pub sysfs_path: Seq<char>,
    pub vendor_id: Seq<char>,
    pub product_id: Seq<char>,
    pub serial: Option<Seq<char>>,
}

impl View for DeviceKey {
    type V = DeviceKeyView;

    closed spec fn view(&self) -> DeviceKeyView {
        DeviceKeyView {
            sysfs_path: self.sysfs_path@,
            vendor_id: self.vendor_id@,
            product_id: self.product_id@,
            serial: self.serial.deep_view(),
        }
    }
}

/// The identity of a device.
pub open spec fn device_key(d: UsbDeviceView) -> DeviceKeyView {
    DeviceKeyView {
        sysfs_path: d.sysfs_path,
        vendor_id: d.vendor_id,
        product_id: d.product_id,
        serial: d.serial,
    }
}

fn same_optional_text(a: &Option<String>, b: &Option<String>) -> (r: bool)
    ensures
        r == (a.deep_view() == b.deep_view()),
{
    match (a, b) {
        (Some(a), Some(b)) => same_text(a.as_str(), b.as_str()),
        (None, None) => true,
        _ => false,
    }
}

impl Key for DeviceKey {
    fn same(&self, other: &Self) -> (r: bool) {
        let r = same_text(self.sysfs_path.as_str(), other.sysfs_path.as_str()) && same_text(
            self.vendor_id.as_str(),
            other.vendor_id.as_str(),
        ) && same_text(self.product_id.as_str(), other.product_id.as_str())
            && same_optional_text(&self.serial, &other.serial);
        r
    }

    fn copy(&self) -> (r: Self) {
        DeviceKey {
            sysfs_path: self.sysfs_path.clone(),
            vendor_id: self.vendor_id.clone(),
            product_id: self.product_id.clone(),
            serial: self.serial.clone(),
        }
    }
}

impl DeviceKey {
    /// The identity of a device.
    pub fn of(device: &UsbDevice) -> (r: Self)
        ensures
            r@ == device_key(device@),
    {
        DeviceKey {
            sysfs_path: device.sysfs_path.clone(),
            vendor_id: device.vendor_id.clone(),
            product_id: device.product_id.clone(),
            serial: device.serial.clone(),
        }
    }

    /// This is the identity of the device.
    pub fn is_of(&self, device: &UsbDevice) -> (r: bool)
        ensures
            r == (self@ == device_key(device@)),
    {
        let other = DeviceKey::of(device);
        self.same(&other)
    }
}

} // verus!
