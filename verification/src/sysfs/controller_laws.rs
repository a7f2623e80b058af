//! What is found of controllers and what they are set to, told by their files.
use super::controllers::{
    desired_value, differing, entries_authorizations, updates_to, writes_resume, ControllerAuthorizationUpdateView,
    ControllerAuthorizationView, ControllerEntry, ControllerStepView,
};
use super::laws::law_only_differing_controllers_are_set;
use super::probe::root_hub_name;
use super::probe_laws::law_root_hub_names;
use super::restore::{
    default_path, restore_read, restore_written, RestoreStepView, RestoreView,
};
use super::round_trip::{
    is_found, is_pending, lemma_scanned, lemma_set, lists, set_run, value_at, Values,
};
use super::scanner::{scanned_controllers, states_of, wanted_updates, Listing};
use crate::config::AuthorizedDefault;
use crate::error::{ErrorView, IoError, IoErrorKind};
use crate::order::text_less;
use vstd::prelude::*;
use vstd::utf8::valid_utf8;

verus! {

/// The file of a controller is `authorized_default` below the directory of its name.
pub proof fn law_controller_files(directory: Seq<char>, name: Seq<char>)
    requires
        directory.len() > 0,
        directory.last() != '/',
        name.len() > 0,
        name[0] != '/',
        name.last() != '/',
    ensures
        default_path(directory, name) == directory + seq!['/'] + name + "/authorized_default"@,
{
    reveal_strlit("authorized_default");
    reveal_strlit("/authorized_default");
    let base = directory.push('/') + name;
    assert(base.last() == name.last());
    assert(base.push('/') + "authorized_default"@ =~= directory + seq!['/'] + name
        + "/authorized_default"@);
}

/// A scan of controllers finds those of the listed names whose file is there, each once, in the
/// order of the names, with the value that the file holds. Their names are `usb` and a number.
pub proof fn law_controllers_are_found(
    listing: Listing<ControllerEntry>,
    directory: Seq<char>,
    names: Set<Seq<char>>,
    values: Values,
    name: Seq<char>,
    value: Seq<char>,
)
    requires
        lists(listing, directory, names, values),
    ensures
        scanned_controllers(directory, listing) is Ok,
        ({
            let found = scanned_controllers(directory, listing)->Ok_0;
            &&& (exists|i: int|
                0 <= i < found.len() && (#[trigger] found[i]).controller == name && found[i].current
                    == value) <==> names.contains(name) && value_at(
                values,
                default_path(directory, name),
            ) == Some(value)
            &&& forall|i: int, j: int|
                0 <= i < j < found.len() ==> !text_less(
                    (#[trigger] found[j]).controller,
                    (#[trigger] found[i]).controller,
                ) && found[i].controller != found[j].controller
            &&& states_of(found).len() == found.len()
            &&& forall|i: int|
                0 <= i < found.len() ==> (#[trigger] states_of(found)[i]).controller
                    == found[i].controller && states_of(found)[i].authorized_default
                    == found[i].current
        }),
        names.contains(name) ==> name.len() >= 4 && name.take(3) == "usb"@ && forall|i: int|
            3 <= i < name.len() ==> "0123456789"@.contains(#[trigger] name[i]),
{
    lemma_scanned(listing, directory, names, values);
    let found = scanned_controllers(directory, listing)->Ok_0;
    law_root_hub_names(name);
    let path = default_path(directory, name);
    let x = ControllerAuthorizationView { controller: name, path, current: value };
    if names.contains(name) && value_at(values, path) == Some(value) {
        assert(found.contains(x));
        let i = choose|i: int| 0 <= i < found.len() && found[i] == x;
        assert(found[i].controller == name);
    }
    if exists|i: int|
        0 <= i < found.len() && (#[trigger] found[i]).controller == name && found[i].current
            == value {
        let i = choose|i: int|
            0 <= i < found.len() && (#[trigger] found[i]).controller == name && found[i].current
                == value;
        assert(found.contains(found[i]));
    }
    assert forall|i: int, j: int| 0 <= i < j < found.len() implies !text_less(
        (#[trigger] found[j]).controller,
        (#[trigger] found[i]).controller,
    ) && found[i].controller != found[j].controller by {}
}

/// An entry can be looked at: it could be listed and, where it is a controller whose file was
/// read, the file is text or is not there.
pub open spec fn readable(entry: Result<ControllerEntry, IoError>) -> bool {
    match entry {
        Err(_) => false,
        Ok(entry) => match (entry.name, entry.authorized_default) {
            (Some(name), Some(contents)) => root_hub_name(name@) ==> match contents {
                Ok(bytes) => valid_utf8(bytes@),
                Err(error) => error.kind == IoErrorKind::NotFound,
            },
            _ => true,
        },
    }
}

proof fn lemma_readable(entries: Seq<Result<ControllerEntry, IoError>>)
    ensures
        entries_authorizations(entries) is Ok <==> forall|i: int|
            0 <= i < entries.len() ==> readable(#[trigger] entries[i]),
    decreases entries.len(),
{
    if entries.len() > 0 {
        let rest = entries.drop_last();
        let n = entries.len() - 1;
        lemma_readable(rest);
        assert(entries[n] == entries.last());
        if entries_authorizations(entries) is Ok {
            assert forall|i: int| 0 <= i < entries.len() implies readable(#[trigger] entries[i]) by {
                if i < n {
                    assert(rest[i] == entries[i]);
                }
            }
        }
        if forall|i: int| 0 <= i < entries.len() ==> readable(#[trigger] entries[i]) {
            assert(readable(entries[n]));
            assert forall|i: int| 0 <= i < rest.len() implies readable(#[trigger] rest[i]) by {
                assert(rest[i] == entries[i]);
            }
        }
    }
}

/// A scan of controllers fails exactly where the directory could not be listed, or an entry could
/// not be, or the file of a controller could not be read or is no text.
pub proof fn law_controller_scans_fail(directory: Seq<char>, listing: Listing<ControllerEntry>)
    ensures
        scanned_controllers(directory, listing) is Ok <==> (listing matches Ok(entries)
            && forall|i: int| 0 <= i < entries@.len() ==> readable(#[trigger] entries@[i])),
        listing matches Err(error) ==> scanned_controllers(directory, listing) == Err::<
            Seq<ControllerAuthorizationView>,
            ErrorView,
        >(
            ErrorView::Io {
                context: "failed to read USB sysfs directory "@ + directory,
                source: error@,
            },
        ),
{
    if let Ok(entries) = listing {
        lemma_readable(entries@);
    }
}

proof fn lemma_first_unreadable(entries: Seq<Result<ControllerEntry, IoError>>, i: int)
    requires
        0 <= i < entries.len(),
        entries[i] is Err,
        forall|j: int| 0 <= j < i ==> readable(#[trigger] entries[j]),
    ensures
        entries_authorizations(entries) == Err::<Seq<ControllerAuthorizationView>, ErrorView>(
            ErrorView::Io { context: "failed to read sysfs entry"@, source: (entries[i]->Err_0)@ },
        ),
    decreases entries.len(),
{
    let rest = entries.drop_last();
    if i < rest.len() {
        lemma_first_unreadable(rest, i);
    } else {
        assert forall|j: int| 0 <= j < rest.len() implies readable(#[trigger] rest[j]) by {
            assert(rest[j] == entries[j]);
        }
        lemma_readable(rest);
    }
}

/// Where an entry could not be listed, and those ahead of it could be looked at, that is what a
/// scan of controllers fails with.
pub proof fn law_controllers_that_cannot_be_listed(
    directory: Seq<char>,
    entries: Vec<Result<ControllerEntry, IoError>>,
    i: int,
)
    requires
        0 <= i < entries@.len(),
        entries@[i] is Err,
        forall|j: int| 0 <= j < i ==> readable(#[trigger] entries@[j]),
    ensures
        scanned_controllers(directory, Ok(entries)) == Err::<
            Seq<ControllerAuthorizationView>,
            ErrorView,
        >(
            ErrorView::Io { context: "failed to read sysfs entry"@, source: (entries@[i]->Err_0)@ },
        ),
{
    lemma_first_unreadable(entries@, i);
}

/// Putting back leaves alone a controller that is not there. One that cannot be read, or not
/// written, ends it with that failure, which names the file.
pub proof fn law_failed_restores_end_it(r: RestoreView, current: Seq<char>, error: IoError)
    requires
        0 <= r.next < r.states.len(),
    ensures
        ({
            let path = default_path(r.directory, r.states[r.next].controller);
            let passed = RestoreView { next: r.next + 1, ..r };
            &&& error.kind == IoErrorKind::NotFound ==> restore_read(r, Err(error)) == (if r.next
                + 1 < r.states.len() {
                RestoreStepView::Read(passed)
            } else {
                RestoreStepView::Done(Ok(r.updates))
            })
            &&& error.kind != IoErrorKind::NotFound ==> restore_read(r, Err(error))
                == RestoreStepView::Done(
                Err(ErrorView::Io { context: "failed to read "@ + path, source: error@ }),
            )
            &&& restore_written(r, current, Err(error)) == RestoreStepView::Done(
                Err(ErrorView::Io { context: "failed to write "@ + path, source: error@ }),
            )
        }),
{
}

/// The value that controllers are set to, where they are to be set at all.
pub open spec fn configured_value(default: AuthorizedDefault) -> Option<Seq<char>> {
    match default {
        AuthorizedDefault::Keep => None,
        AuthorizedDefault::Nothing => Some(seq!['0']),
        AuthorizedDefault::All => Some(seq!['1']),
    }
}

proof fn lemma_configured(default: AuthorizedDefault)
    ensures
        desired_value(default) == configured_value(default),
{
    reveal_strlit("0");
    reveal_strlit("1");
    assert("0"@ =~= seq!['0']);
    assert("1"@ =~= seq!['1']);
}

/// Setting gives every controller whose file is there the configured value: a zero where nothing
/// is to be let in, a one where everything is. Where controllers are to be kept, nothing changes.
/// No file comes into being, and no other file changes.
pub proof fn law_controllers_get_the_configured_value(
    default: AuthorizedDefault,
    directory: Seq<char>,
    names: Set<Seq<char>>,
    values: Values,
    listing: Listing<ControllerEntry>,
    name: Seq<char>,
    path: Seq<char>,
)
    requires
        lists(listing, directory, names, values),
    ensures
        ({
            let after = set_run(default, scanned_controllers(directory, listing), values).0;
            let own = default_path(directory, name);
            &&& default == AuthorizedDefault::Keep ==> after == values
            &&& names.contains(name) && values.contains_key(own) && default
                == AuthorizedDefault::Nothing ==> value_at(after, own) == Some(seq!['0'])
            &&& names.contains(name) && values.contains_key(own) && default
                == AuthorizedDefault::All ==> value_at(after, own) == Some(seq!['1'])
            &&& !values.contains_key(path) ==> value_at(after, path) is None
            &&& (forall|n: Seq<char>| #[trigger]
                names.contains(n) ==> default_path(directory, n) != path) ==> value_at(after, path)
                == value_at(values, path)
        }),
{
    lemma_scanned(listing, directory, names, values);
    lemma_configured(default);
    let found = scanned_controllers(directory, listing)->Ok_0;
    assert forall|i: int| 0 <= i < found.len() implies is_found(
        #[trigger] found[i],
        directory,
        values,
    ) && names.contains(found[i].controller) by {
        assert(found.contains(found[i]));
    }
    lemma_set(default, directory, found, values);
    let after = set_run(default, Ok(found), values).0;
    let own = default_path(directory, name);
    if names.contains(name) && values.contains_key(own) {
        let x = ControllerAuthorizationView { controller: name, path: own, current: values[own] };
        assert(found.contains(x));
        let i = choose|i: int| 0 <= i < found.len() && found[i] == x;
        assert(found[i].path == own);
    }
    if is_pending(found, 0, path) {
        let i = choose|i: int| 0 <= i < found.len() && (#[trigger] found[i]).path == path;
        assert(is_found(found[i], directory, values));
        assert(names.contains(found[i].controller));
    } else {
        assert(value_at(after, path) == value_at(values, path));
    }
}

/// The updates that setting comes to are those of the controllers that had another value, each
/// once, with the value that it had and the configured one. A preview tells the same updates.
pub proof fn law_updates_tell_what_was_set(
    default: AuthorizedDefault,
    directory: Seq<char>,
    names: Set<Seq<char>>,
    values: Values,
    listing: Listing<ControllerEntry>,
    update: ControllerAuthorizationUpdateView,
)
    requires
        lists(listing, directory, names, values),
    ensures
        ({
            let found = scanned_controllers(directory, listing);
            &&& set_run(default, found, values).1 matches ControllerStepView::Done(Ok(updates)) && {
                &&& wanted_updates(default, found) == Ok::<
                    Seq<ControllerAuthorizationUpdateView>,
                    ErrorView,
                >(updates)
                &&& updates.contains(update) <==> {
                    let present = value_at(values, default_path(directory, update.controller));
                    &&& names.contains(update.controller)
                    &&& present is Some
                    &&& update.current == present
                    &&& configured_value(default) == Some(update.desired)
                    &&& present != Some(update.desired)
                }
            }
        }),
{
    lemma_scanned(listing, directory, names, values);
    lemma_configured(default);
    let found = scanned_controllers(directory, listing)->Ok_0;
    assert forall|i: int| 0 <= i < found.len() implies is_found(
        #[trigger] found[i],
        directory,
        values,
    ) by {
        assert(found.contains(found[i]));
    }
    lemma_set(default, directory, found, values);
    if let Some(desired) = desired_value(default) {
        let pending = differing(found, desired);
        let updates = updates_to(pending, desired);
        let path = default_path(directory, update.controller);
        if updates.contains(update) {
            let i = choose|i: int| 0 <= i < updates.len() && updates[i] == update;
            assert(pending.contains(pending[i]));
            law_only_differing_controllers_are_set(found, desired, pending[i]);
            assert(found.contains(pending[i]));
        }
        let present = value_at(values, path);
        if names.contains(update.controller) && present is Some && update.current == present
            && update.desired == desired && present != Some(desired) {
            let x = ControllerAuthorizationView {
                controller: update.controller,
                path,
                current: present->0,
            };
            assert(found.contains(x));
            law_only_differing_controllers_are_set(found, desired, x);
            let i = choose|i: int| 0 <= i < pending.len() && pending[i] == x;
            assert(updates[i] =~= update);
        }
    }
}

/// A controller that cannot be set ends setting with that failure, which names its file.
pub proof fn law_failed_settings_end_it(
    desired: Seq<char>,
    pending: Seq<ControllerAuthorizationView>,
    next: int,
    error: IoError,
)
    requires
        0 <= next < pending.len(),
    ensures
        writes_resume(desired, pending, next, Err(error)) == ControllerStepView::Done(
            Err(
                ErrorView::Io {
                    context: "failed to write "@ + pending[next].path,
                    source: error@,
                },
            ),
        ),
{
}

} // verus!
