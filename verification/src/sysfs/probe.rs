//! Finding out what one entry of the USB devices directory is.
//!
//! A probe says which attribute it needs next; it is resumed with what came of reading it, until
//! it knows whether the entry is a device and what the device is like.
use super::attributes::{
    join_path, joined, lines, optional_text, optional_value, parse_uevent, properties,
    read_optional, read_trimmed_optional, texts, Contents,
};
use super::descriptors::{
    descriptor_hash, hash_descriptors, interfaces_of, parse_interfaces,
};
use super::{UsbDevice, UsbDeviceView};
use crate::error::{Error, ErrorView};
use crate::text::{
    all_decimal, chars_of, is_all_decimal, lower, same_text, split_once, split_once_at, to_lower,
};
use vstd::prelude::*;

verus! {

/// The attributes that a probe reads, in their order.
#[derive(Clone, Copy, Debug, PartialEq, Eq, Structural)]
pub enum Attribute {
    Uevent,
    VendorId,
    ProductId,
    Descriptors,
    DeviceClass,
    ProductName,
    Serial,
    ConnectType,
    Authorized,
}

/// The file of an attribute, below the device's directory.
pub open spec fn attribute_file(attribute: Attribute) -> Seq<char> {
    match attribute {
        Attribute::Uevent => "uevent"@,
        Attribute::VendorId => "idVendor"@,
        Attribute::ProductId => "idProduct"@,
        Attribute::Descriptors => "descriptors"@,
        Attribute::DeviceClass => "bDeviceClass"@,
        Attribute::ProductName => "product"@,
        Attribute::Serial => "serial"@,
        Attribute::ConnectType => "port/connect_type"@,
        Attribute::Authorized => "authorized"@,
    }
}

impl Attribute {
    /// The file of the attribute, below the device's directory.
    pub fn file(self) -> (r: &'static str)
        ensures
            r@ == attribute_file(self),
    {
        match self {
            Attribute::Uevent => "uevent",
            Attribute::VendorId => "idVendor",
            Attribute::ProductId => "idProduct",
            Attribute::Descriptors => "descriptors",
            Attribute::DeviceClass => "bDeviceClass",
            Attribute::ProductName => "product",
            Attribute::Serial => "serial",
            Attribute::ConnectType => "port/connect_type",
            Attribute::Authorized => "authorized",
        }
    }
}

/// The name of a root hub: `usb` and a number.
pub open spec fn root_hub_name(name: Seq<char>) -> bool {
    &&& name.len() > 3
    &&& name[0] == 'u' && name[1] == 's' && name[2] == 'b'
    &&& all_decimal(name.skip(3))
}

pub fn is_root_hub_name(name: &str) -> (r: bool)
    ensures
        r == root_hub_name(name@),
{
    let chars = chars_of(name);
    if chars.len() <= 3 || chars[0] != 'u' || chars[1] != 's' || chars[2] != 'b' {
        return false;
    }
    let digits = vstd::slice::slice_subrange(chars.as_slice(), 3, chars.len());
    assert(digits@ =~= name@.skip(3));
    is_all_decimal(digits)
}

/// A `uevent` attribute names a device type, and it is another one than a USB device.
pub open spec fn other_device_type(uevent: Seq<char>) -> bool {
    let found = properties(lines(uevent));
    found.contains_key("DEVTYPE"@) && found["DEVTYPE"@] != "usb_device"@
}

fn is_other_device_type(uevent: &str) -> (r: bool)
    ensures
        r == other_device_type(uevent@),
{
    let table = parse_uevent(uevent);
    let key = "DEVTYPE".to_owned();
    match table.get(&key) {
        Some(devtype) => {
            assert(texts(table@).contains_key("DEVTYPE"@));
            !same_text(devtype.as_str(), "usb_device")
        },
        None => {
            assert(!texts(table@).contains_key("DEVTYPE"@));
            false
        },
    }
}

/// The class of hubs, as a device or an interface names it.
pub open spec fn hub_class(class: Seq<char>) -> bool {
    lower(class) == "09"@
}

/// Of an interface `cc:ss:pp`, the class is that of hubs.
pub open spec fn hub_interface(interface: Seq<char>) -> bool {
    match split_once(interface, ':') {
        Some((class, rest)) => hub_class(class),
        None => false,
    }
}

/// A device is a hub: its class or that of one of its interfaces says so.
pub open spec fn is_hub(device_class: Option<Seq<char>>, interfaces: Seq<Seq<char>>) -> bool {
    ||| device_class is Some && hub_class(device_class->0)
    ||| exists|i: int| 0 <= i < interfaces.len() && hub_interface(#[trigger] interfaces[i])
}

fn has_hub_interface(interfaces: &Vec<String>) -> (r: bool)
    ensures
        r == exists|i: int|
            0 <= i < interfaces@.len() && hub_interface(#[trigger] interfaces.deep_view()[i]),
{
    let ghost all = interfaces.deep_view();
    for i in 0..interfaces.len()
        invariant
            all == interfaces.deep_view(),
            forall|j: int| 0 <= j < i ==> !hub_interface(#[trigger] all[j]),
    {
        assert(all[i as int] == interfaces@[i as int]@);
        if let Some((class, _rest)) = split_once_at(interfaces[i].as_str(), ':') {
            let folded = to_lower(class.as_str());
            if same_text(folded.as_str(), "09") {
                assert(hub_interface(interfaces.deep_view()[i as int]));
                return true;
            }
        }
    }
    false
}

/// What the `authorized` attribute says.
pub open spec fn authorized_value(value: Option<Seq<char>>) -> Option<bool> {
    if value == Some("0"@) {
        Some(false)
    } else if value == Some("1"@) {
        Some(true)
    } else {
        None
    }
}

fn parse_authorized(value: &Option<String>) -> (r: Option<bool>)
    ensures
        r == authorized_value(value.deep_view()),
{
    proof {
        reveal_strlit("0");
        reveal_strlit("1");
        assert("0"@[0] != "1"@[0]);
    }
    match value {
        Some(text) => {
            if same_text(text.as_str(), "0") {
                Some(false)
            } else if same_text(text.as_str(), "1") {
                Some(true)
            } else {
                None
            }
        },
        None => None,
    }
}

// ---- The probe -------------------------------------------------------------------------------

/// An entry that is being looked at: what is known of the device so far, and the attribute that
/// has to be read next.
#[derive(Debug)]
pub struct DeviceProbe {
    next: Attribute,
    device: UsbDevice,
}

/// How a probe goes on.
#[derive(Debug)]
pub enum ProbeStep {
    /// The probe's next attribute has to be read.
    Read(DeviceProbe),
    /// The entry is a device, or it is none, or an attribute could not be read.
    Done(Result<Option<UsbDevice>, Error>),
}

#[verifier::ext_equal]
pub enum ProbeStepView {
    Read(Attribute, UsbDeviceView),
    Done(Result<Option<UsbDeviceView>, ErrorView>),
}

/// The plain value of what a probe found.
pub open spec fn found(r: Result<Option<UsbDevice>, Error>) -> Result<
    Option<UsbDeviceView>,
    ErrorView,
> {
    match r {
        Ok(device) => Ok(device.deep_view()),
        Err(error) => Err(error@),
    }
}

impl View for ProbeStep {
    type V = ProbeStepView;

    open spec fn view(&self) -> ProbeStepView {
        match self {
            ProbeStep::Read(probe) => ProbeStepView::Read(probe.awaited(), probe.known()),
            ProbeStep::Done(r) => ProbeStepView::Done(found(*r)),
        }
    }
}

/// A device of which only the place is known.
pub open spec fn unknown_device(sysfs_path: Seq<char>, port_path: Seq<char>) -> UsbDeviceView {
    UsbDeviceView {
        id: 0,
        sysfs_path,
        port_path,
        vendor_id: Seq::empty(),
        product_id: Seq::empty(),
        product_name: None,
        serial: None,
        connect_type: None,
        authorized: None,
        descriptor_hash: None,
        interfaces: Seq::empty(),
        is_hub: false,
    }
}

/// How the probe of an entry starts. Root hubs are no devices; a name that is no text is taken to
/// be empty.
pub open spec fn probe_start(sysfs_path: Seq<char>, name: Option<Seq<char>>) -> ProbeStepView {
    let port_path = if name is Some {
        name->0
    } else {
        Seq::empty()
    };
    if root_hub_name(port_path) {
        ProbeStepView::Done(Ok(None))
    } else {
        ProbeStepView::Read(Attribute::Uevent, unknown_device(sysfs_path, port_path))
    }
}

/// What the contents of the attribute add to what is known of the device.
pub open spec fn probe_resume(
    next: Attribute,
    d: UsbDeviceView,
    contents: Contents,
) -> ProbeStepView {
    let path = joined(d.sysfs_path, attribute_file(next));
    let text = optional_text(path, contents);
    let value = optional_value(path, contents);
    match next {
        Attribute::Uevent => match text {
            Err(error) => ProbeStepView::Done(Err(error)),
            Ok(uevent) => if uevent is Some && other_device_type(uevent->0) {
                ProbeStepView::Done(Ok(None))
            } else {
                ProbeStepView::Read(Attribute::VendorId, d)
            },
        },
        Attribute::VendorId => match value {
            Err(error) => ProbeStepView::Done(Err(error)),
            Ok(None) => ProbeStepView::Done(Ok(None)),
            Ok(Some(id)) => ProbeStepView::Read(
                Attribute::ProductId,
                UsbDeviceView { vendor_id: lower(id), ..d },
            ),
        },
        Attribute::ProductId => match value {
            Err(error) => ProbeStepView::Done(Err(error)),
            Ok(None) => ProbeStepView::Done(Ok(None)),
            Ok(Some(id)) => ProbeStepView::Read(
                Attribute::Descriptors,
                UsbDeviceView { product_id: lower(id), ..d },
            ),
        },
        Attribute::Descriptors => match contents {
            Err(error) => ProbeStepView::Read(Attribute::DeviceClass, d),
            Ok(bytes) => ProbeStepView::Read(
                Attribute::DeviceClass,
                UsbDeviceView {
                    descriptor_hash: Some(descriptor_hash(bytes@)),
                    interfaces: interfaces_of(bytes@),
                    ..d
                },
            ),
        },
        Attribute::DeviceClass => match value {
            Err(error) => ProbeStepView::Done(Err(error)),
            Ok(class) => ProbeStepView::Read(
                Attribute::ProductName,
                UsbDeviceView { is_hub: is_hub(class, d.interfaces), ..d },
            ),
        },
        Attribute::ProductName => match value {
            Err(error) => ProbeStepView::Done(Err(error)),
            Ok(name) => ProbeStepView::Read(
                Attribute::Serial,
                UsbDeviceView { product_name: name, ..d },
            ),
        },
        Attribute::Serial => match value {
            Err(error) => ProbeStepView::Done(Err(error)),
            Ok(serial) => ProbeStepView::Read(
                Attribute::ConnectType,
                UsbDeviceView { serial, ..d },
            ),
        },
        Attribute::ConnectType => match value {
            Err(error) => ProbeStepView::Done(Err(error)),
            Ok(connect_type) => ProbeStepView::Read(
                Attribute::Authorized,
                UsbDeviceView { connect_type, ..d },
            ),
        },
        Attribute::Authorized => match value {
            Err(error) => ProbeStepView::Done(Err(error)),
            Ok(authorized) => ProbeStepView::Done(
                Ok(Some(UsbDeviceView { authorized: authorized_value(authorized), ..d })),
            ),
        },
    }
}

impl DeviceProbe {
    /// The attribute that has to be read next.
    pub closed spec fn awaited(&self) -> Attribute {
        self.next
    }

    /// What is known of the device so far.
    pub closed spec fn known(&self) -> UsbDeviceView {
        self.device@
    }

    /// Starts to look at an entry. `name` is its file name, where that is text.
    pub fn start(sysfs_path: &str, name: Option<&str>) -> (r: ProbeStep)
        ensures
            r@ == probe_start(
                sysfs_path@,
                match name {
                    Some(text) => Some(text@),
                    None => None,
                },
            ),
    {
        let port_path = match name {
            Some(text) => text.to_owned(),
            None => String::new(),
        };
        if is_root_hub_name(port_path.as_str()) {
            return ProbeStep::Done(Ok(None));
        }
        let mut device = UsbDevice::default();
        device.sysfs_path = sysfs_path.to_owned();
        device.port_path = port_path;
        ProbeStep::Read(DeviceProbe { next: Attribute::Uevent, device })
    }

    /// The attribute that has to be read next.
    pub fn attribute(&self) -> (r: Attribute)
        ensures
            r == self.awaited(),
    {
        self.next
    }

    /// Where the attribute is that has to be read next.
    pub fn path(&self) -> (r: String)
        ensures
            r@ == joined(self.known().sysfs_path, attribute_file(self.awaited())),
    {
        join_path(self.device.sysfs_path.as_str(), self.next.file())
    }

    /// Goes on with what came of reading the attribute.
    pub fn resume(self, contents: Contents) -> (r: ProbeStep)
        ensures
            r@ == probe_resume(self.awaited(), self.known(), contents),
    {
        let path = self.path();
        let next = self.next;
        let mut device = self.device;
        if next == Attribute::Uevent {
            return match read_optional(path.as_str(), contents) {
                Err(error) => ProbeStep::Done(Err(error)),
                Ok(uevent) => {
                    if let Some(text) = &uevent {
                        if is_other_device_type(text.as_str()) {
                            return ProbeStep::Done(Ok(None));
                        }
                    }
                    ProbeStep::Read(DeviceProbe { next: Attribute::VendorId, device })
                },
            };
        }
        if next == Attribute::Descriptors {
            if let Ok(bytes) = contents {
                device.descriptor_hash = Some(hash_descriptors(bytes.as_slice()));
                device.interfaces = parse_interfaces(bytes.as_slice());
            }
            return ProbeStep::Read(DeviceProbe { next: Attribute::DeviceClass, device });
        }
        let value = match read_trimmed_optional(path.as_str(), contents) {
            Err(error) => {
                return ProbeStep::Done(Err(error));
            },
            Ok(value) => value,
        };
        match next {
            Attribute::VendorId => match value {
                None => ProbeStep::Done(Ok(None)),
                Some(id) => {
                    device.vendor_id = to_lower(id.as_str());
                    ProbeStep::Read(DeviceProbe { next: Attribute::ProductId, device })
                },
            },
            Attribute::ProductId => match value {
                None => ProbeStep::Done(Ok(None)),
                Some(id) => {
                    device.product_id = to_lower(id.as_str());
                    ProbeStep::Read(DeviceProbe { next: Attribute::Descriptors, device })
                },
            },
            Attribute::DeviceClass => {
                let class_is_hub = match &value {
                    Some(class) => {
                        let folded = to_lower(class.as_str());
                        same_text(folded.as_str(), "09")
                    },
                    None => false,
                };
                device.is_hub = class_is_hub || has_hub_interface(&device.interfaces);
                ProbeStep::Read(DeviceProbe { next: Attribute::ProductName, device })
            },
            Attribute::ProductName => {
                device.product_name = value;
                ProbeStep::Read(DeviceProbe { next: Attribute::Serial, device })
            },
            Attribute::Serial => {
                device.serial = value;
                ProbeStep::Read(DeviceProbe { next: Attribute::ConnectType, device })
            },
            Attribute::ConnectType => {
                device.connect_type = value;
                ProbeStep::Read(DeviceProbe { next: Attribute::Authorized, device })
            },
            _ => {
                device.authorized = parse_authorized(&value);
                ProbeStep::Done(Ok(Some(device)))
            },
        }
    }
}

} // verus!
