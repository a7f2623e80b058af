//! Looking at the USB devices directory as a whole.
use super::attributes::{join_path, joined};
use super::controllers::{
    authorizations_result, controller_updates, desired_authorized_default, desired_value,
    differing, entries_authorizations, entry_failure, pending_updates, read_entries,
    updates_result, updates_to, ControllerAuthorization, ControllerAuthorizationState,
    ControllerAuthorizationStateView, ControllerAuthorizationUpdate,
    ControllerAuthorizationUpdateView, ControllerAuthorizationView, ControllerEntry,
    ControllerStep, ControllerWrites, writes_start,
};
use super::probe::found;
use super::restore::{restore_start, RestoreRead, RestoreStep};
use super::{UsbDevice, UsbDeviceView};
use crate::config::AuthorizedDefault;
use crate::error::{Error, ErrorView, IoError, IoErrorView};
use crate::order::{sort_by_name, sorted_by_name, Named};
use vstd::prelude::*;

verus! {

/// What came of listing a directory: its entries, each with what is known of it, or how the
/// listing failed.
pub type Listing<T> = Result<Vec<Result<T, IoError>>, IoError>;

/// What a probe of an entry found.
pub type Probed = Result<Option<UsbDevice>, Error>;

impl Named for UsbDevice {
    open spec fn name_of(item: UsbDeviceView) -> Seq<char> {
        item.port_path
    }

    fn name(&self) -> (r: &str) {
        self.port_path.as_str()
    }
}

/// The USB devices directory below a sysfs root.
pub open spec fn usb_devices_dir(sysfs_root: Seq<char>) -> Seq<char> {
    joined(sysfs_root, "bus/usb/devices"@)
}

/// The error of a directory that could not be listed.
pub open spec fn listing_failure(directory: Seq<char>, source: IoErrorView) -> ErrorView {
    ErrorView::Io { context: "failed to read USB sysfs directory "@ + directory, source }
}

/// The devices among some entries, in their order. An entry whose probe failed is passed over; an
/// entry that could not be listed ends the scan.
pub open spec fn entries_devices(entries: Seq<Result<Probed, IoError>>) -> Result<
    Seq<UsbDeviceView>,
    ErrorView,
>
    decreases entries.len(),
{
    if entries.len() == 0 {
        Ok(Seq::empty())
    } else {
        match entries_devices(entries.drop_last()) {
            Err(error) => Err(error),
            Ok(devices) => match entries.last() {
                Err(error) => Err(entry_failure(error@)),
                Ok(probed) => match found(probed) {
                    Ok(Some(device)) => Ok(devices.push(device)),
                    _ => Ok(devices),
                },
            },
        }
    }
}

/// The devices of a directory, in the order of their ports.
pub open spec fn scanned_devices(directory: Seq<char>, listing: Listing<Probed>) -> Result<
    Seq<UsbDeviceView>,
    ErrorView,
> {
    match listing {
        Err(error) => Err(listing_failure(directory, error@)),
        Ok(entries) => match entries_devices(entries@) {
            Err(error) => Err(error),
            Ok(devices) => Ok(sorted_by_name::<UsbDevice>(devices)),
        },
    }
}

/// The controllers of a directory, in the order of their names.
pub open spec fn scanned_controllers(
    directory: Seq<char>,
    listing: Listing<ControllerEntry>,
) -> Result<Seq<ControllerAuthorizationView>, ErrorView> {
    match listing {
        Err(error) => Err(listing_failure(directory, error@)),
        Ok(entries) => match entries_authorizations(entries@) {
            Err(error) => Err(error),
            Ok(found) => Ok(sorted_by_name::<ControllerAuthorization>(found)),
        },
    }
}

/// The plain value of a list of devices that may have failed.
pub open spec fn devices_result(r: Result<Vec<UsbDevice>, Error>) -> Result<
    Seq<UsbDeviceView>,
    ErrorView,
> {
    match r {
        Ok(devices) => Ok(devices.deep_view()),
        Err(error) => Err(error@),
    }
}

/// The updates that would give the controllers the configured value.
pub open spec fn wanted_updates(
    default: AuthorizedDefault,
    found: Result<Seq<ControllerAuthorizationView>, ErrorView>,
) -> Result<Seq<ControllerAuthorizationUpdateView>, ErrorView> {
    match desired_value(default) {
        None => Ok(Seq::empty()),
        Some(desired) => match found {
            Err(error) => Err(error),
            Ok(found) => Ok(updates_to(differing(found, desired), desired)),
        },
    }
}

/// The present values of some controllers.
pub open spec fn states_of(found: Seq<ControllerAuthorizationView>) -> Seq<
    ControllerAuthorizationStateView,
> {
    Seq::new(
        found.len(),
        |i: int|
            ControllerAuthorizationStateView {
                controller: found[i].controller,
                authorized_default: found[i].current,
            },
    )
}

/// The plain value of controller states that may have failed.
pub open spec fn states_result(r: Result<Vec<ControllerAuthorizationState>, Error>) -> Result<
    Seq<ControllerAuthorizationStateView>,
    ErrorView,
> {
    match r {
        Ok(states) => Ok(states.deep_view()),
        Err(error) => Err(error@),
    }
}

fn listing_error(directory: &str, source: IoError) -> (r: Error)
    ensures
        r@ == listing_failure(directory@, source@),
{
    let mut context = "failed to read USB sysfs directory ".to_owned();
    context.append(directory);
    Error::io(context, source)
}

proof fn lemma_failure_stays(entries: Seq<Result<Probed, IoError>>, n: int)
    requires
        0 <= n <= entries.len(),
        entries_devices(entries.take(n)) is Err,
    ensures
        entries_devices(entries) == entries_devices(entries.take(n)),
    decreases entries.len() - n,
{
    if n == entries.len() {
        assert(entries.take(n) =~= entries);
    } else {
        assert(entries.take(n + 1).drop_last() =~= entries.take(n));
        lemma_failure_stays(entries, n + 1);
    }
}

fn collect_devices(entries: Vec<Result<Probed, IoError>>) -> (r: Result<Vec<UsbDevice>, Error>)
    ensures
        devices_result(r) == entries_devices(entries@),
{
    let ghost all = entries@;
    let mut rest = entries;
    let mut devices: Vec<UsbDevice> = Vec::new();
    let ghost mut done: int = 0;
    proof {
        assert(all.take(0) =~= Seq::empty());
        assert(devices.deep_view() =~= Seq::empty());
        assert(rest@ =~= all.skip(0));
    }
    while rest.len() > 0
        invariant
            all == entries@,
            0 <= done <= all.len(),
            rest@ == all.skip(done),
            entries_devices(all.take(done)) == Ok::<_, ErrorView>(devices.deep_view()),
        decreases rest.len(),
    {
        let ghost before = devices.deep_view();
        proof {
            assert(rest@[0] == all[done]);
            assert(rest@.drop_first() =~= all.skip(done + 1));
            assert(all.take(done + 1).drop_last() =~= all.take(done));
            assert(all.take(done + 1).last() == all[done]);
        }
        match rest.remove(0) {
            Err(error) => {
                proof {
                    lemma_failure_stays(all, done + 1);
                }
                return Err(Error::io("failed to read sysfs entry".to_owned(), error));
            },
            Ok(Ok(Some(device))) => {
                let ghost added = device@;
                devices.push(device);
                assert(devices.deep_view() =~= before.push(added));
            },
            Ok(_) => {},
        }
        proof {
            done = done + 1;
        }
    }
    assert(all.take(done) =~= all);
    Ok(devices)
}

/// Looks at the USB devices below a sysfs root.
#[derive(Debug)]
pub struct Scanner {
    sysfs_root: String,
}

impl View for Scanner {
    type V = Seq<char>;

    closed spec fn view(&self) -> Seq<char> {
        self.sysfs_root@
    }
}

impl Clone for Scanner {
    fn clone(&self) -> (r: Self)
        ensures
            r@ == self@,
    {
        Scanner { sysfs_root: self.sysfs_root.clone() }
    }
}

impl Scanner {
    pub fn new(sysfs_root: String) -> (r: Self)
        ensures
            r@ == sysfs_root@,
    {
        Scanner { sysfs_root }
    }

    /// The directory that has to be listed.
    pub fn devices_dir(&self) -> (r: String)
        ensures
            r@ == usb_devices_dir(self@),
    {
        join_path(self.sysfs_root.as_str(), "bus/usb/devices")
    }

    /// The devices that the probes of the directory's entries found, in the order of their ports.
    pub fn scan(&self, listing: Listing<Probed>) -> (r: Result<Vec<UsbDevice>, Error>)
        ensures
            devices_result(r) == scanned_devices(usb_devices_dir(self@), listing),
    {
        match listing {
            Err(error) => {
                let directory = self.devices_dir();
                Err(listing_error(directory.as_str(), error))
            },
            Ok(entries) => match collect_devices(entries) {
                Err(error) => Err(error),
                Ok(devices) => Ok(sort_by_name(devices)),
            },
        }
    }

    /// The controllers among the directory's entries, in the order of their names.
    pub fn controller_authorizations(&self, listing: Listing<ControllerEntry>) -> (r: Result<
        Vec<ControllerAuthorization>,
        Error,
    >)
        ensures
            authorizations_result(r) == scanned_controllers(usb_devices_dir(self@), listing),
    {
        match listing {
            Err(error) => {
                let directory = self.devices_dir();
                Err(listing_error(directory.as_str(), error))
            },
            Ok(entries) => match read_entries(entries) {
                Err(error) => Err(error),
                Ok(found) => Ok(sort_by_name(found)),
            },
        }
    }

    /// The updates that would give the controllers the configured value.
    pub fn controller_authorization_updates(
        &self,
        default: AuthorizedDefault,
        listing: Listing<ControllerEntry>,
    ) -> (r: Result<Vec<ControllerAuthorizationUpdate>, Error>)
        ensures
            updates_result(r) == wanted_updates(
                default,
                scanned_controllers(usb_devices_dir(self@), listing),
            ),
    {
        match desired_authorized_default(default) {
            None => {
                let none: Vec<ControllerAuthorizationUpdate> = Vec::new();
                assert(none.deep_view() =~= Seq::empty());
                Ok(none)
            },
            Some(desired) => match self.controller_authorizations(listing) {
                Err(error) => Err(error),
                Ok(found) => {
                    let pending = pending_updates(found, desired);
                    Ok(controller_updates(&pending, desired))
                },
            },
        }
    }

    /// The present values of the controllers.
    pub fn controller_authorization_states(&self, listing: Listing<ControllerEntry>) -> (r: Result<
        Vec<ControllerAuthorizationState>,
        Error,
    >)
        ensures
            states_result(r) == (match scanned_controllers(usb_devices_dir(self@), listing) {
                Err(error) => Err(error),
                Ok(found) => Ok(states_of(found)),
            }),
    {
        let found = match self.controller_authorizations(listing) {
            Err(error) => {
                return Err(error);
            },
            Ok(found) => found,
        };
        let mut states: Vec<ControllerAuthorizationState> = Vec::new();
        for i in 0..found.len()
            invariant
                states@.len() == i,
                forall|j: int|
                    0 <= j < i ==> (#[trigger] states@[j])@ == states_of(found.deep_view())[j],
        {
            states.push(
                ControllerAuthorizationState {
                    controller: found[i].controller.clone(),
                    authorized_default: found[i].current.clone(),
                },
            );
        }
        assert(states.deep_view() =~= states_of(found.deep_view()));
        Ok(states)
    }

    /// Starts to give the controllers the configured value.
    pub fn apply_controller_authorized_default(
        &self,
        default: AuthorizedDefault,
        listing: Listing<ControllerEntry>,
    ) -> (r: ControllerStep)
        ensures
            r@ == writes_start(default, scanned_controllers(usb_devices_dir(self@), listing)),
    {
        ControllerWrites::start(default, self.controller_authorizations(listing))
    }

    /// Starts to put the controllers back to former values.
    pub fn restore_controller_authorized_defaults(
        &self,
        states: Vec<ControllerAuthorizationState>,
    ) -> (r: RestoreStep)
        ensures
            r@ == restore_start(usb_devices_dir(self@), states.deep_view()),
    {
        RestoreRead::start(self.devices_dir(), states)
    }
}

} // verus!
