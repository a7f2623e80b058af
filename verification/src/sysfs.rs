//! USB devices and controllers as sysfs shows them.
use vstd::prelude::*;

pub mod attributes;
pub mod authorization;
pub mod authorization_laws;
pub mod controller_laws;
pub mod controllers;
pub mod descriptor_laws;
pub mod descriptors;
pub mod laws;
pub mod probe;
pub mod probe_laws;
pub mod restore;
pub mod round_trip;
pub mod scanner;

verus! {

/// One USB device: what sysfs says of it, and the number that the daemon gave it.
#[derive(Debug, PartialEq, Eq)]
pub struct UsbDevice {
    pub id: u32,
    pub sysfs_path: String,
    pub port_path: String,
    pub vendor_id: String,
    pub product_id: String,
    pub product_name: Option<String>,
    pub serial: Option<String>,
    pub connect_type: Option<String>,
    pub authorized: Option<bool>,
    pub descriptor_hash: Option<String>,
    pub interfaces: Vec<String>,
    pub is_hub: bool,
}

#[verifier::ext_equal]
pub struct UsbDeviceView {
    pub id: u32,
    pub sysfs_path: Seq<char>,
    pub port_path: Seq<char>,
    pub vendor_id: Seq<char>,
    pub product_id: Seq<char>,
    pub product_name: Option<Seq<char>>,
    pub serial: Option<Seq<char>>,
    pub connect_type: Option<Seq<char>>,
    pub authorized: Option<bool>,
    pub descriptor_hash: Option<Seq<char>>,
    pub interfaces: Seq<Seq<char>>,
    pub is_hub: bool,
}

impl View for UsbDevice {
    type V = UsbDeviceView;

    open spec fn view(&self) -> UsbDeviceView {
        UsbDeviceView {
            id: self.id,
            sysfs_path: self.sysfs_path@,
            port_path: self.port_path@,
            vendor_id: self.vendor_id@,
            product_id: self.product_id@,
            product_name: self.product_name.deep_view(),
            serial: self.serial.deep_view(),
            connect_type: self.connect_type.deep_view(),
            authorized: self.authorized,
            descriptor_hash: self.descriptor_hash.deep_view(),
            interfaces: self.interfaces.deep_view(),
            is_hub: self.is_hub,
        }
    }
}

impl DeepView for UsbDevice {
    type V = UsbDeviceView;

    open spec fn deep_view(&self) -> UsbDeviceView {
        self@
    }
}

impl Default for UsbDevice {
    fn default() -> (r: Self)
        ensures
            r@ == (UsbDeviceView {
                id: 0,
                sysfs_path: Seq::empty(),
                port_path: Seq::empty(),
                vendor_id: Seq::empty(),
                product_id: Seq::empty(),
                product_name: None,
                serial: None,
                connect_type: None,
                authorized: None,
                descriptor_hash: None,
                interfaces: Seq::empty(),
                is_hub: false,
            }),
    {
        let r = UsbDevice {
            id: 0,
            sysfs_path: String::new(),
            port_path: String::new(),
            vendor_id: String::new(),
            product_id: String::new(),
            product_name: None,
            serial: None,
            connect_type: None,
            authorized: None,
            descriptor_hash: None,
            interfaces: Vec::new(),
            is_hub: false,
        };
        assert(r.interfaces.deep_view() =~= Seq::empty());
        r
    }
}

impl Clone for UsbDevice {
    fn clone(&self) -> (r: Self)
        ensures
            r@ == self@,
    {
        UsbDevice {
            id: self.id,
            sysfs_path: self.sysfs_path.clone(),
            port_path: self.port_path.clone(),
            vendor_id: self.vendor_id.clone(),
            product_id: self.product_id.clone(),
            product_name: self.product_name.clone(),
            serial: self.serial.clone(),
            connect_type: self.connect_type.clone(),
            authorized: self.authorized,
            descriptor_hash: self.descriptor_hash.clone(),
            interfaces: crate::text::clone_strings(&self.interfaces),
            is_hub: self.is_hub,
        }
    }
}

} // verus!
