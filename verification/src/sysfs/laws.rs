//! What holds of scanning, and of setting controllers and putting them back.
use super::attributes::{joined, optional_text, optional_value, Contents};
use super::controllers::{
    differing, updates_to, write_at, writes_resume, ControllerAuthorizationStateView,
    ControllerAuthorizationUpdateView, ControllerAuthorizationView, ControllerStepView,
};
use super::descriptors::{descriptor_hash, interfaces_of};
use super::probe::{
    attribute_file, authorized_value, is_hub, other_device_type, probe_resume, probe_start,
    root_hub_name, Attribute, ProbeStepView,
};
use super::restore::{
    default_path, restore_next, restore_read, restore_start, restore_written, RestoreStepView,
    RestoreView,
};
use super::UsbDeviceView;
use crate::error::ErrorView;
use crate::text::lower;
use vstd::prelude::*;

verus! {

// ---- Probes ----------------------------------------------------------------------------------

/// What came of reading each attribute of an entry.
pub type Files = spec_fn(Attribute) -> Contents;

/// What a probe finds that goes on for at most `steps` attributes.
pub open spec fn probe_run(step: ProbeStepView, files: Files, steps: nat) -> Option<
    Result<Option<UsbDeviceView>, ErrorView>,
>
    decreases steps,
{
    match step {
        ProbeStepView::Done(r) => Some(r),
        ProbeStepView::Read(attribute, device) => if steps == 0 {
            None
        } else {
            probe_run(
                probe_resume(attribute, device, files(attribute)),
                files,
                (steps - 1) as nat,
            )
        },
    }
}

/// The text of an attribute of an entry.
pub open spec fn text_of(path: Seq<char>, files: Files, attribute: Attribute) -> Result<
    Option<Seq<char>>,
    ErrorView,
> {
    optional_text(joined(path, attribute_file(attribute)), files(attribute))
}

/// The value of an attribute of an entry.
pub open spec fn value_of(path: Seq<char>, files: Files, attribute: Attribute) -> Result<
    Option<Seq<char>>,
    ErrorView,
> {
    optional_value(joined(path, attribute_file(attribute)), files(attribute))
}

/// Root hubs are never taken for devices, whatever their attributes hold.
pub proof fn law_root_hubs_are_no_devices(path: Seq<char>, name: Seq<char>)
    requires
        root_hub_name(name),
    ensures
        probe_start(path, Some(name)) == ProbeStepView::Done(Ok(None)),
{
}

/// An entry whose `uevent` names another device type than a USB device is never taken for a
/// device.
pub proof fn law_other_entries_are_no_devices(
    path: Seq<char>,
    name: Option<Seq<char>>,
    files: Files,
    uevent: Seq<char>,
)
    requires
        text_of(path, files, Attribute::Uevent) == Ok::<_, ErrorView>(Some(uevent)),
        other_device_type(uevent),
    ensures
        probe_run(probe_start(path, name), files, 9) == Some(
            Ok::<Option<UsbDeviceView>, ErrorView>(None),
        ),
{
    reveal_with_fuel(probe_run, 3);
}

/// A probe of a device, whose attributes can be read, finds what the attributes hold. Ids are
/// taken in lower case, and descriptors that cannot be read are taken to be absent.
pub proof fn law_probe_finds_the_device(
    path: Seq<char>,
    name: Seq<char>,
    files: Files,
    vendor_id: Seq<char>,
    product_id: Seq<char>,
)
    requires
        !root_hub_name(name),
        text_of(path, files, Attribute::Uevent) matches Ok(uevent) && !(uevent is Some
            && other_device_type(uevent->0)),
        value_of(path, files, Attribute::VendorId) == Ok::<_, ErrorView>(Some(vendor_id)),
        value_of(path, files, Attribute::ProductId) == Ok::<_, ErrorView>(Some(product_id)),
        value_of(path, files, Attribute::DeviceClass) is Ok,
        value_of(path, files, Attribute::ProductName) is Ok,
        value_of(path, files, Attribute::Serial) is Ok,
        value_of(path, files, Attribute::ConnectType) is Ok,
        value_of(path, files, Attribute::Authorized) is Ok,
    ensures
        ({
            let descriptors = files(Attribute::Descriptors);
            let interfaces = match descriptors {
                Ok(bytes) => interfaces_of(bytes@),
                Err(_) => Seq::empty(),
            };
            probe_run(probe_start(path, Some(name)), files, 9) == Some(
                Ok::<_, ErrorView>(
                    Some(
                        UsbDeviceView {
                            id: 0,
                            sysfs_path: path,
                            port_path: name,
                            vendor_id: lower(vendor_id),
                            product_id: lower(product_id),
                            product_name: value_of(path, files, Attribute::ProductName)->Ok_0,
                            serial: value_of(path, files, Attribute::Serial)->Ok_0,
                            connect_type: value_of(path, files, Attribute::ConnectType)->Ok_0,
                            authorized: authorized_value(
                                value_of(path, files, Attribute::Authorized)->Ok_0,
                            ),
                            descriptor_hash: match descriptors {
                                Ok(bytes) => Some(descriptor_hash(bytes@)),
                                Err(_) => None,
                            },
                            interfaces,
                            is_hub: is_hub(
                                value_of(path, files, Attribute::DeviceClass)->Ok_0,
                                interfaces,
                            ),
                        },
                    ),
                ),
            )
        }),
{
    reveal_with_fuel(probe_run, 11);
}

// ---- Controllers -----------------------------------------------------------------------------

/// What setting controllers comes to when every write succeeds.
pub open spec fn writes_run(
    desired: Seq<char>,
    pending: Seq<ControllerAuthorizationView>,
    next: int,
) -> ControllerStepView
    decreases pending.len() - next,
{
    match write_at(desired, pending, next) {
        ControllerStepView::Write { .. } if next < pending.len() => writes_run(
            desired,
            pending,
            next + 1,
        ),
        step => step,
    }
}

/// Each controller that does not have the desired value is set to it, one after the other, and
/// no other is touched: when every write succeeds, the updates are those and no others.
pub proof fn law_controllers_are_set(
    desired: Seq<char>,
    pending: Seq<ControllerAuthorizationView>,
    next: int,
)
    requires
        0 <= next <= pending.len(),
    ensures
        writes_run(desired, pending, next) == ControllerStepView::Done(
            Ok(updates_to(pending, desired)),
        ),
        next < pending.len() ==> writes_resume(desired, pending, next, Ok(())) == write_at(
            desired,
            pending,
            next + 1,
        ),
    decreases pending.len() - next,
{
    if next < pending.len() {
        law_controllers_are_set(desired, pending, next + 1);
    }
}

/// A controller is set exactly where its value is another one.
pub proof fn law_only_differing_controllers_are_set(
    found: Seq<ControllerAuthorizationView>,
    desired: Seq<char>,
    controller: ControllerAuthorizationView,
)
    ensures
        differing(found, desired).contains(controller) <==> found.contains(controller)
            && controller.current != desired,
    decreases found.len(),
{
    if found.len() > 0 {
        let rest = found.drop_last();
        let before = differing(rest, desired);
        law_only_differing_controllers_are_set(rest, desired, controller);
        assert(found =~= rest.push(found.last()));
        if found.contains(controller) {
            let i = choose|i: int| 0 <= i < found.len() && found[i] == controller;
            if i < rest.len() {
                assert(rest[i] == controller);
            }
        }
        if rest.contains(controller) {
            let i = choose|i: int| 0 <= i < rest.len() && rest[i] == controller;
            assert(found[i] == controller);
        }
        if found.last() == controller {
            assert(found[found.len() - 1] == controller);
        }
        let after = differing(found, desired);
        if before.contains(controller) {
            let i = choose|i: int| 0 <= i < before.len() && before[i] == controller;
            assert(after[i] == controller);
        }
        if after.contains(controller) {
            let i = choose|i: int| 0 <= i < after.len() && after[i] == controller;
            if i < before.len() {
                assert(before[i] == controller);
            }
        }
        if found.last().current != desired {
            assert(after[before.len() as int] == found.last());
        }
    }
}

/// The updates that putting controllers back comes to when nothing fails: of those that are there
/// and have another value than before.
pub open spec fn needed_updates(
    states: Seq<ControllerAuthorizationStateView>,
    values: Seq<Option<Seq<char>>>,
) -> Seq<ControllerAuthorizationUpdateView>
    decreases states.len(),
{
    if states.len() == 0 {
        Seq::empty()
    } else {
        let before = needed_updates(states.drop_last(), values);
        let state = states.last();
        match values[states.len() - 1] {
            Some(current) if current != state.authorized_default => before.push(
                ControllerAuthorizationUpdateView {
                    controller: state.controller,
                    current: Some(current),
                    desired: state.authorized_default,
                },
            ),
            _ => before,
        }
    }
}

/// Where putting back comes to that has found these contents, when every write succeeds.
pub open spec fn restore_run(r: RestoreView, contents: Seq<Contents>) -> RestoreStepView
    decreases r.states.len() - r.next,
{
    if r.next >= r.states.len() {
        restore_next(r)
    } else {
        let after = match restore_read(r, contents[r.next]) {
            RestoreStepView::Write(now, current) => restore_written(now, current, Ok(())),
            step => step,
        };
        match after {
            RestoreStepView::Read(now) if now.next == r.next + 1 && now.states == r.states =>
                restore_run(now, contents),
            step => step,
        }
    }
}

/// Controllers are put back to exactly the values that were kept: each that is still there and
/// has another value gets its former one, and no other is touched.
pub proof fn law_controllers_are_put_back(
    directory: Seq<char>,
    states: Seq<ControllerAuthorizationStateView>,
    contents: Seq<Contents>,
    values: Seq<Option<Seq<char>>>,
)
    requires
        contents.len() == states.len(),
        values.len() == states.len(),
        forall|i: int|
            0 <= i < states.len() ==> optional_value(
                default_path(directory, (#[trigger] states[i]).controller),
                contents[i],
            ) == Ok::<_, ErrorView>(values[i]),
    ensures
        restore_run(
            RestoreView { directory, states, next: 0, updates: Seq::empty() },
            contents,
        ) == RestoreStepView::Done(Ok(needed_updates(states, values))),
        restore_start(directory, states) == restore_next(
            RestoreView { directory, states, next: 0, updates: Seq::empty() },
        ),
{
    assert(states.take(0) =~= Seq::empty());
    lemma_put_back(
        RestoreView { directory, states, next: 0, updates: Seq::empty() },
        contents,
        values,
    );
}

proof fn lemma_put_back(
    r: RestoreView,
    contents: Seq<Contents>,
    values: Seq<Option<Seq<char>>>,
)
    requires
        0 <= r.next <= r.states.len(),
        contents.len() == r.states.len(),
        values.len() == r.states.len(),
        forall|i: int|
            0 <= i < r.states.len() ==> optional_value(
                default_path(r.directory, (#[trigger] r.states[i]).controller),
                contents[i],
            ) == Ok::<_, ErrorView>(values[i]),
        r.updates == needed_updates(r.states.take(r.next), values),
    ensures
        restore_run(r, contents) == RestoreStepView::Done(
            Ok(needed_updates(r.states, values)),
        ),
    decreases r.states.len() - r.next,
{
    if r.next == r.states.len() {
        assert(r.states.take(r.next) =~= r.states);
    } else {
        let state = r.states[r.next];
        assert(r.states.take(r.next + 1).drop_last() =~= r.states.take(r.next));
        assert(r.states.take(r.next + 1).last() == state);
        let skipped = RestoreView { next: r.next + 1, ..r };
        match values[r.next] {
            Some(current) if current != state.authorized_default => {
                let now = RestoreView {
                    next: r.next + 1,
                    updates: r.updates.push(
                        ControllerAuthorizationUpdateView {
                            controller: state.controller,
                            current: Some(current),
                            desired: state.authorized_default,
                        },
                    ),
                    ..r
                };
                lemma_put_back(now, contents, values);
                if now.next == now.states.len() {
                    assert(restore_next(now) == RestoreStepView::Done(Ok(now.updates)));
                }
            },
            _ => {
                lemma_put_back(skipped, contents, values);
            },
        }
    }
}

} // verus!
