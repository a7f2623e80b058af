//! Setting controllers and putting them back, as sysfs shows it from one end to the other.
use super::attributes::{joined, optional_value, trimmed, Contents};
use super::controllers::{
    desired_value, differing, entries_authorizations, entry_authorization, is_controller,
    updates_to, write_at, writes_start, ControllerAuthorization, ControllerAuthorizationStateView,
    ControllerAuthorizationUpdateView, ControllerAuthorizationView, ControllerEntry,
    ControllerStepView,
};
use super::laws::{
    law_controllers_are_set, law_only_differing_controllers_are_set, needed_updates, writes_run,
};
use super::probe::root_hub_name;
use super::restore::{
    default_path, restore_next, restore_read, restore_start, restore_written, RestoreStepView,
    RestoreView,
};
use super::scanner::{scanned_controllers, states_of, Listing};
use crate::config::AuthorizedDefault;
use crate::error::{ErrorView, IoError, IoErrorKind};
use crate::order::{
    behind, in_name_order, law_sorted_by_name, lemma_text_total, sorted_by_name, text_less,
};
use crate::sequence::{first_index, lemma_first_index};
use vstd::prelude::*;
use vstd::utf8::{decode_utf8, valid_utf8};

verus! {

// ---- What sysfs holds ------------------------------------------------------------------------

/// The values of the attributes that there are, by their paths.
pub type Values = Map<Seq<char>, Seq<char>>;

/// The value of an attribute, where there is one.
pub open spec fn value_at(values: Values, path: Seq<char>) -> Option<Seq<char>> {
    if values.contains_key(path) {
        Some(values[path])
    } else {
        None
    }
}

/// Reading an attribute gave its value, with or without what ends it, or found that there is
/// none.
pub open spec fn shows(contents: Contents, values: Values, path: Seq<char>) -> bool {
    match contents {
        Ok(bytes) => {
            &&& values.contains_key(path)
            &&& valid_utf8(bytes@)
            &&& trimmed(decode_utf8(bytes@)) == values[path]
        },
        Err(error) => !values.contains_key(path) && error.kind == IoErrorKind::NotFound,
    }
}

/// The entry is the controller of a name.
pub open spec fn is_controller_named(
    entry: Result<ControllerEntry, IoError>,
    name: Seq<char>,
) -> bool {
    match entry {
        Ok(entry) => is_controller(entry.name.deep_view()) && entry.name->0@ == name,
        Err(_) => false,
    }
}

/// The entry could be listed, and where it is a controller it is shown as it is.
pub open spec fn entry_shows(
    entry: Result<ControllerEntry, IoError>,
    directory: Seq<char>,
    values: Values,
) -> bool {
    match entry {
        Ok(entry) => is_controller(entry.name.deep_view()) ==> {
            &&& entry.path@ == joined(directory, entry.name->0@)
            &&& entry.authorized_default is Some
            &&& shows(
                entry.authorized_default->0,
                values,
                default_path(directory, entry.name->0@),
            )
        },
        Err(_) => false,
    }
}

/// No controller is listed twice.
pub open spec fn listed_once(entries: Seq<Result<ControllerEntry, IoError>>) -> bool {
    forall|i: int, j: int, name: Seq<char>|
        #![trigger is_controller_named(entries[i], name), is_controller_named(entries[j], name)]
        0 <= i < j < entries.len() && is_controller_named(entries[i], name)
            ==> !is_controller_named(entries[j], name)
}

/// The controller of a name is among the entries.
pub open spec fn is_listed(
    entries: Seq<Result<ControllerEntry, IoError>>,
    name: Seq<char>,
) -> bool {
    exists|i: int| 0 <= i < entries.len() && is_controller_named(#[trigger] entries[i], name)
}

/// The listing of a directory whose controllers have these names and values, in any order.
pub open spec fn lists(
    listing: Listing<ControllerEntry>,
    directory: Seq<char>,
    names: Set<Seq<char>>,
    values: Values,
) -> bool {
    &&& listing is Ok
    &&& forall|i: int|
        0 <= i < listing->Ok_0@.len() ==> entry_shows(
            #[trigger] listing->Ok_0@[i],
            directory,
            values,
        )
    &&& listed_once(listing->Ok_0@)
    &&& forall|name: Seq<char>| #[trigger]
        names.contains(name) <==> is_listed(listing->Ok_0@, name)
}

// ---- What setting and putting back do to it --------------------------------------------------

/// The values after the controllers from `next` on were given the desired one.
pub open spec fn values_written(
    values: Values,
    desired: Seq<char>,
    pending: Seq<ControllerAuthorizationView>,
    next: int,
) -> Values
    decreases pending.len() - next,
{
    match write_at(desired, pending, next) {
        ControllerStepView::Write { .. } if next < pending.len() => values_written(
            values.insert(pending[next].path, trimmed(desired)),
            desired,
            pending,
            next + 1,
        ),
        _ => values,
    }
}

/// What setting controllers makes of the values, and what it comes to, when every write succeeds.
pub open spec fn set_run(
    default: AuthorizedDefault,
    found: Result<Seq<ControllerAuthorizationView>, ErrorView>,
    values: Values,
) -> (Values, ControllerStepView) {
    match writes_start(default, found) {
        ControllerStepView::Write { desired, pending, next } => (
            values_written(values, desired, pending, next),
            writes_run(desired, pending, next),
        ),
        step => (values, step),
    }
}

/// One controller's turn while controllers are put back, when the write succeeds.
pub open spec fn put_back_turn(r: RestoreView, values: Values, contents: Contents) -> (
    Values,
    RestoreStepView,
) {
    match restore_read(r, contents) {
        RestoreStepView::Write(now, current) => {
            let state = now.states[now.next];
            (
                values.insert(
                    default_path(now.directory, state.controller),
                    trimmed(state.authorized_default),
                ),
                restore_written(now, current, Ok(())),
            )
        },
        step => (values, step),
    }
}

/// What putting controllers back makes of the values, and what it comes to, when every write
/// succeeds.
pub open spec fn put_back_run(r: RestoreView, values: Values, contents: Seq<Contents>) -> (
    Values,
    RestoreStepView,
)
    decreases r.states.len() - r.next,
{
    if r.next >= r.states.len() {
        (values, restore_next(r))
    } else {
        match put_back_turn(r, values, contents[r.next]) {
            (after, RestoreStepView::Read(now)) if now.next == r.next + 1 && now.states
                == r.states => put_back_run(now, after, contents),
            end => end,
        }
    }
}

/// Each value that is read while controllers are put back is the one that is there by then.
pub open spec fn put_back_sees(r: RestoreView, values: Values, contents: Seq<Contents>) -> bool
    decreases r.states.len() - r.next,
{
    r.next < r.states.len() ==> {
        &&& shows(
            contents[r.next],
            values,
            default_path(r.directory, r.states[r.next].controller),
        )
        &&& match put_back_turn(r, values, contents[r.next]) {
            (after, RestoreStepView::Read(now)) if now.next == r.next + 1 && now.states
                == r.states => put_back_sees(now, after, contents),
            _ => true,
        }
    }
}

/// The start of putting controllers back.
pub open spec fn put_back_start(
    directory: Seq<char>,
    states: Seq<ControllerAuthorizationStateView>,
) -> RestoreView {
    RestoreView { directory, states, next: 0, updates: Seq::empty() }
}

/// The updates that undo others: of the same controllers, with the two values exchanged.
pub open spec fn undoing(updates: Seq<ControllerAuthorizationUpdateView>) -> Seq<
    ControllerAuthorizationUpdateView,
> {
    Seq::new(
        updates.len(),
        |i: int|
            ControllerAuthorizationUpdateView {
                controller: updates[i].controller,
                current: Some(updates[i].desired),
                desired: updates[i].current->0,
            },
    )
}

// ---- Texts -----------------------------------------------------------------------------------

proof fn lemma_trimmed_twice(s: Seq<char>)
    ensures
        trimmed(trimmed(s)) == trimmed(s),
    decreases s.len(),
{
    if s.len() > 0 {
        lemma_trimmed_twice(s.drop_last());
    }
}

proof fn lemma_shown(contents: Contents, values: Values, path: Seq<char>, shown: Seq<char>)
    requires
        shows(contents, values, path),
    ensures
        optional_value(shown, contents) == Ok::<_, ErrorView>(value_at(values, path)),
        values.contains_key(path) ==> trimmed(values[path]) == values[path],
{
    if let Ok(bytes) = contents {
        lemma_trimmed_twice(decode_utf8(bytes@));
    }
}

pub proof fn lemma_paths_differ(directory: Seq<char>, a: Seq<char>, b: Seq<char>)
    requires
        root_hub_name(a),
        root_hub_name(b),
        default_path(directory, a) == default_path(directory, b),
    ensures
        a == b,
{
    reveal_strlit("authorized_default");
    let base = if directory.len() == 0 || directory.last() == '/' {
        directory
    } else {
        directory.push('/')
    };
    assert(a.skip(3)[a.len() - 4] == a.last());
    assert(b.skip(3)[b.len() - 4] == b.last());
    assert(joined(directory, a) =~= base + a);
    assert(joined(directory, b) =~= base + b);
    let path = default_path(directory, a);
    assert(path =~= base + a + seq!['/'] + "authorized_default"@);
    assert(path =~= base + b + seq!['/'] + "authorized_default"@);
    assert(a.len() == b.len());
    assert forall|k: int| 0 <= k < a.len() implies a[k] == b[k] by {
        assert(path[base.len() + k] == a[k]);
        assert(path[base.len() + k] == b[k]);
    }
    assert(a =~= b);
}

// ---- Scans -----------------------------------------------------------------------------------

/// No two controllers of a list have the same name.
pub open spec fn distinct_controllers(found: Seq<ControllerAuthorizationView>) -> bool {
    forall|i: int, j: int|
        0 <= i < j < found.len() ==> (#[trigger] found[i]).controller != (
        #[trigger] found[j]).controller
}

/// The attribute of a controller is there and holds what was found.
pub open spec fn is_found(
    x: ControllerAuthorizationView,
    directory: Seq<char>,
    values: Values,
) -> bool {
    &&& x.path == default_path(directory, x.controller)
    &&& value_at(values, x.path) == Some(x.current)
}

proof fn lemma_entries(
    entries: Seq<Result<ControllerEntry, IoError>>,
    directory: Seq<char>,
    values: Values,
)
    requires
        forall|i: int|
            0 <= i < entries.len() ==> entry_shows(#[trigger] entries[i], directory, values),
        listed_once(entries),
    ensures
        entries_authorizations(entries) is Ok,
        distinct_controllers(entries_authorizations(entries)->Ok_0),
        forall|x: ControllerAuthorizationView| #[trigger]
            entries_authorizations(entries)->Ok_0.contains(x) <==> is_listed(entries, x.controller)
                && is_found(x, directory, values),
    decreases entries.len(),
{
    if entries.len() > 0 {
        let rest = entries.drop_last();
        let last = entries.last();
        assert forall|i: int| 0 <= i < rest.len() implies entry_shows(
            #[trigger] rest[i],
            directory,
            values,
        ) by {
            assert(rest[i] == entries[i]);
        }
        assert(listed_once(rest)) by {
            assert forall|i: int, j: int, name: Seq<char>|
                #![trigger is_controller_named(rest[i], name), is_controller_named(rest[j], name)]
                0 <= i < j < rest.len() && is_controller_named(
                    rest[i],
                    name,
                ) implies !is_controller_named(rest[j], name) by {
                assert(rest[i] == entries[i] && rest[j] == entries[j]);
            }
        }
        lemma_entries(rest, directory, values);
        assert(entry_shows(entries[entries.len() - 1], directory, values));
        let entry = last->Ok_0;
        if is_controller(entry.name.deep_view()) {
            let name = entry.name->0@;
            let path = default_path(directory, name);
            lemma_shown(entry.authorized_default->0, values, path, path);
        }
        let before = entries_authorizations(rest)->Ok_0;
        let found = entries_authorizations(entries)->Ok_0;
        assert forall|name: Seq<char>| #[trigger]
            is_listed(entries, name) <==> is_listed(rest, name) || is_controller_named(
                last,
                name,
            ) by {
            if is_listed(rest, name) {
                let i = choose|i: int|
                    0 <= i < rest.len() && is_controller_named(#[trigger] rest[i], name);
                assert(is_controller_named(entries[i], name));
            }
            if is_controller_named(last, name) {
                assert(is_controller_named(entries[entries.len() - 1], name));
            }
            if is_listed(entries, name) {
                let i = choose|i: int|
                    0 <= i < entries.len() && is_controller_named(#[trigger] entries[i], name);
                if i < rest.len() {
                    assert(rest[i] == entries[i]);
                }
            }
        }
        assert forall|name: Seq<char>| is_controller_named(last, name) implies !is_listed(
            rest,
            name,
        ) by {
            if is_listed(rest, name) {
                let i = choose|i: int|
                    0 <= i < rest.len() && is_controller_named(#[trigger] rest[i], name);
                assert(rest[i] == entries[i]);
                assert(!is_controller_named(entries[entries.len() - 1], name));
            }
        }
        match entry_authorization(entry)->Ok_0 {
            Some(own) => {
                assert(found =~= before.push(own));
                assert(is_controller_named(last, own.controller));
                assert forall|x: ControllerAuthorizationView| #[trigger]
                    found.contains(x) <==> before.contains(x) || x == own by {
                    lemma_pushed(before, own, x);
                }
                assert forall|i: int| 0 <= i < before.len() implies (
                #[trigger] before[i]).controller != own.controller by {
                    assert(before.contains(before[i]));
                }
            },
            None => {},
        }
    }
}

proof fn lemma_pushed<A>(s: Seq<A>, own: A, x: A)
    ensures
        s.push(own).contains(x) <==> s.contains(x) || x == own,
{
    lemma_inserted(s, s.len() as int, own, x);
    assert(s.push(own) =~= s.insert(s.len() as int, own));
}

proof fn lemma_inserted<A>(s: Seq<A>, at: int, own: A, x: A)
    requires
        0 <= at <= s.len(),
    ensures
        s.insert(at, own).contains(x) <==> s.contains(x) || x == own,
{
    let t = s.insert(at, own);
    assert(t[at] == own);
    if s.contains(x) {
        let i = choose|i: int| 0 <= i < s.len() && s[i] == x;
        assert(t[if i < at { i } else { i + 1 }] == x);
    }
    if t.contains(x) {
        let i = choose|i: int| 0 <= i < t.len() && t[i] == x;
        if i != at {
            assert(s[if i < at { i } else { i - 1 }] == x);
        }
    }
}

proof fn lemma_sorted(found: Seq<ControllerAuthorizationView>)
    requires
        distinct_controllers(found),
    ensures
        distinct_controllers(sorted_by_name::<ControllerAuthorization>(found)),
        forall|x: ControllerAuthorizationView| #[trigger]
            sorted_by_name::<ControllerAuthorization>(found).contains(x) <==> found.contains(x),
    decreases found.len(),
{
    if found.len() > 0 {
        let rest = found.drop_last();
        let own = found.last();
        lemma_sorted(rest);
        let u = sorted_by_name::<ControllerAuthorization>(rest);
        let f = behind::<ControllerAuthorization>(own.controller);
        let at = first_index(u, f);
        lemma_first_index(u, f);
        let sorted = u.insert(at, own);
        assert(sorted == sorted_by_name::<ControllerAuthorization>(found));
        assert(found =~= rest.push(own));
        assert forall|x: ControllerAuthorizationView| #[trigger]
            sorted.contains(x) <==> found.contains(x) by {
            lemma_inserted(u, at, own, x);
            lemma_pushed(rest, own, x);
        }
        assert forall|i: int| 0 <= i < u.len() implies (#[trigger] u[i]).controller
            != own.controller by {
            assert(u.contains(u[i]));
            let k = choose|k: int| 0 <= k < rest.len() && rest[k] == u[i];
            assert(rest.contains(u[i]));
            assert(found[k] == u[i]);
            assert(found[k].controller != found[found.len() - 1].controller);
        }
        assert forall|i: int, j: int| 0 <= i < j < sorted.len() implies (
        #[trigger] sorted[i]).controller != (#[trigger] sorted[j]).controller by {
            let a = if i < at {
                i
            } else {
                i - 1
            };
            let b = if j < at {
                j
            } else {
                j - 1
            };
            if i != at {
                assert(sorted[i] == u[a]);
            }
            if j != at {
                assert(sorted[j] == u[b]);
            }
        }
    }
}

proof fn lemma_same_items(
    s: Seq<ControllerAuthorizationView>,
    t: Seq<ControllerAuthorizationView>,
)
    requires
        in_name_order::<ControllerAuthorization>(s),
        in_name_order::<ControllerAuthorization>(t),
        distinct_controllers(s),
        distinct_controllers(t),
        forall|x: ControllerAuthorizationView| #[trigger] s.contains(x) <==> t.contains(x),
    ensures
        s == t,
    decreases s.len(),
{
    if s.len() == 0 {
        if t.len() > 0 {
            assert(t.contains(t[0]));
            assert(s.contains(t[0]));
        }
        assert(s =~= t);
    } else {
        let a = s.last();
        assert(s[s.len() - 1] == a);
        assert(s.contains(a));
        assert(t.contains(a));
        let j = choose|j: int| 0 <= j < t.len() && t[j] == a;
        let b = t.last();
        assert(t[t.len() - 1] == b);
        assert(t.contains(b));
        assert(s.contains(b));
        let i = choose|i: int| 0 <= i < s.len() && s[i] == b;
        if j < t.len() - 1 {
            assert(a.controller != b.controller);
            assert(i < s.len() - 1);
            lemma_text_total(a.controller, b.controller);
            assert(!text_less(s[s.len() - 1].controller, s[i].controller));
            assert(!text_less(t[t.len() - 1].controller, t[j].controller));
        }
        let p = s.drop_last();
        let q = t.drop_last();
        assert(s =~= p.push(a));
        assert(t =~= q.push(a));
        assert forall|x: ControllerAuthorizationView| #[trigger]
            p.contains(x) <==> q.contains(x) by {
            lemma_pushed(p, a, x);
            lemma_pushed(q, a, x);
            assert(s.contains(x) <==> t.contains(x));
            if p.contains(a) {
                let k = choose|k: int| 0 <= k < p.len() && p[k] == a;
                assert(s[k].controller != s[s.len() - 1].controller);
            }
            if q.contains(a) {
                let k = choose|k: int| 0 <= k < q.len() && q[k] == a;
                assert(t[k].controller != t[t.len() - 1].controller);
            }
        }
        lemma_same_items(p, q);
    }
}

/// A scan finds every controller whose attribute is there, once, in the order of the names.
pub proof fn lemma_scanned(
    listing: Listing<ControllerEntry>,
    directory: Seq<char>,
    names: Set<Seq<char>>,
    values: Values,
)
    requires
        lists(listing, directory, names, values),
    ensures
        scanned_controllers(directory, listing) is Ok,
        in_name_order::<ControllerAuthorization>(scanned_controllers(directory, listing)->Ok_0),
        distinct_controllers(scanned_controllers(directory, listing)->Ok_0),
        forall|x: ControllerAuthorizationView| #[trigger]
            scanned_controllers(directory, listing)->Ok_0.contains(x) <==> names.contains(
                x.controller,
            ) && is_found(x, directory, values),
        forall|name: Seq<char>| #[trigger] names.contains(name) ==> root_hub_name(name),
        forall|x: ControllerAuthorizationView| #[trigger]
            scanned_controllers(directory, listing)->Ok_0.contains(x) ==> trimmed(x.current)
                == x.current,
{
    let entries = listing->Ok_0@;
    lemma_entries(entries, directory, values);
    let found = entries_authorizations(entries)->Ok_0;
    let sorted = sorted_by_name::<ControllerAuthorization>(found);
    law_sorted_by_name::<ControllerAuthorization>(found);
    lemma_sorted(found);
    assert forall|x: ControllerAuthorizationView| #[trigger] sorted.contains(x) implies trimmed(
        x.current,
    ) == x.current by {
        assert(found.contains(x));
        let i = choose|i: int|
            0 <= i < entries.len() && is_controller_named(#[trigger] entries[i], x.controller);
        assert(entry_shows(entries[i], directory, values));
        let entry = entries[i]->Ok_0;
        lemma_shown(entry.authorized_default->0, values, x.path, x.path);
    }
}

// ---- Setting ---------------------------------------------------------------------------------

/// The attribute is that of one of the controllers from `next` on.
pub open spec fn is_pending(
    pending: Seq<ControllerAuthorizationView>,
    next: int,
    path: Seq<char>,
) -> bool {
    exists|i: int| next <= i < pending.len() && (#[trigger] pending[i]).path == path
}

proof fn lemma_values_written(
    values: Values,
    desired: Seq<char>,
    pending: Seq<ControllerAuthorizationView>,
    next: int,
)
    requires
        0 <= next <= pending.len(),
    ensures
        forall|path: Seq<char>| #[trigger]
            value_at(values_written(values, desired, pending, next), path) == (if is_pending(
                pending,
                next,
                path,
            ) {
                Some(trimmed(desired))
            } else {
                value_at(values, path)
            }),
    decreases pending.len() - next,
{
    if next < pending.len() {
        let own = pending[next].path;
        let then = values.insert(own, trimmed(desired));
        lemma_values_written(then, desired, pending, next + 1);
        assert forall|path: Seq<char>| #[trigger]
            value_at(values_written(values, desired, pending, next), path) == (if is_pending(
                pending,
                next,
                path,
            ) {
                Some(trimmed(desired))
            } else {
                value_at(values, path)
            }) by {
            assert(value_at(values_written(then, desired, pending, next + 1), path) == (
            if is_pending(pending, next + 1, path) {
                Some(trimmed(desired))
            } else {
                value_at(then, path)
            }));
            if is_pending(pending, next, path) && path != own {
                let i = choose|i: int|
                    next <= i < pending.len() && (#[trigger] pending[i]).path == path;
                assert(next + 1 <= i);
                assert(pending[i].path == path);
            }
            if is_pending(pending, next + 1, path) {
                let i = choose|i: int|
                    next + 1 <= i < pending.len() && (#[trigger] pending[i]).path == path;
                assert(pending[i].path == path);
            }
        }
    }
}

/// Setting leaves every controller that was found with the value that is asked for, or, where
/// none is, with its own.
pub proof fn lemma_set(
    default: AuthorizedDefault,
    directory: Seq<char>,
    found: Seq<ControllerAuthorizationView>,
    values: Values,
)
    requires
        forall|i: int|
            0 <= i < found.len() ==> is_found(#[trigger] found[i], directory, values),
    ensures
        ({
            let after = set_run(default, Ok(found), values);
            let present = match desired_value(default) {
                Some(desired) => Seq::new(found.len(), |i: int| Some(desired)),
                None => Seq::new(found.len(), |i: int| Some(found[i].current)),
            };
            let updates = match desired_value(default) {
                Some(desired) => updates_to(differing(found, desired), desired),
                None => Seq::empty(),
            };
            &&& after.1 == ControllerStepView::Done(Ok(updates))
            &&& forall|i: int|
                0 <= i < found.len() ==> value_at(after.0, (#[trigger] found[i]).path)
                    == present[i]
            &&& forall|path: Seq<char>|
                !is_pending(found, 0, path) ==> #[trigger] value_at(after.0, path) == value_at(
                    values,
                    path,
                )
            &&& needed_updates(states_of(found), present) == undoing(updates)
            &&& forall|i: int| 0 <= i < updates.len() ==> (#[trigger] updates[i]).current is Some
        }),
{
    reveal_strlit("0");
    reveal_strlit("1");
    match desired_value(default) {
        None => {
            let present = Seq::new(found.len(), |i: int| Some(found[i].current));
            lemma_nothing_needed(found, present);
            assert(undoing(Seq::empty()) =~= Seq::empty());
        },
        Some(desired) => {
            assert(trimmed(desired) == desired);
            let pending = differing(found, desired);
            let present = Seq::new(found.len(), |i: int| Some(desired));
            law_controllers_are_set(desired, pending, 0);
            lemma_values_written(values, desired, pending, 0);
            lemma_undoing(found, desired, present);
            let after = set_run(default, Ok(found), values).0;
            assert(after == values_written(values, desired, pending, 0));
            assert forall|i: int| 0 <= i < found.len() implies value_at(
                after,
                (#[trigger] found[i]).path,
            ) == present[i] by {
                let path = found[i].path;
                assert(is_found(found[i], directory, values));
                if found[i].current != desired {
                    law_only_differing_controllers_are_set(found, desired, found[i]);
                    assert(found.contains(found[i]));
                    let k = choose|k: int| 0 <= k < pending.len() && pending[k] == found[i];
                    assert(pending[k].path == path);
                    assert(is_pending(pending, 0, path));
                }
                assert(value_at(values_written(values, desired, pending, 0), path) == (
                if is_pending(pending, 0, path) {
                    Some(trimmed(desired))
                } else {
                    value_at(values, path)
                }));
            }
            assert forall|path: Seq<char>| !is_pending(found, 0, path) implies #[trigger] value_at(
                after,
                path,
            ) == value_at(values, path) by {
                if is_pending(pending, 0, path) {
                    let k = choose|k: int|
                        0 <= k < pending.len() && (#[trigger] pending[k]).path == path;
                    assert(pending.contains(pending[k]));
                    law_only_differing_controllers_are_set(found, desired, pending[k]);
                    let i = choose|i: int| 0 <= i < found.len() && found[i] == pending[k];
                    assert(found[i].path == path);
                }
                assert(value_at(values_written(values, desired, pending, 0), path) == (
                if is_pending(pending, 0, path) {
                    Some(trimmed(desired))
                } else {
                    value_at(values, path)
                }));
            }
        },
    }
}

proof fn lemma_nothing_needed(
    found: Seq<ControllerAuthorizationView>,
    present: Seq<Option<Seq<char>>>,
)
    requires
        forall|i: int| 0 <= i < found.len() ==> #[trigger] present[i] == Some(found[i].current),
    ensures
        needed_updates(states_of(found), present).len() == 0,
    decreases found.len(),
{
    if found.len() > 0 {
        let rest = found.drop_last();
        lemma_nothing_needed(rest, present);
        assert(states_of(found).drop_last() =~= states_of(rest));
        assert(present[found.len() - 1] == Some(found.last().current));
    }
}

proof fn lemma_undoing(
    found: Seq<ControllerAuthorizationView>,
    desired: Seq<char>,
    present: Seq<Option<Seq<char>>>,
)
    requires
        forall|i: int| 0 <= i < found.len() ==> #[trigger] present[i] == Some(desired),
    ensures
        needed_updates(states_of(found), present) == undoing(
            updates_to(differing(found, desired), desired),
        ),
    decreases found.len(),
{
    let undone = undoing(updates_to(differing(found, desired), desired));
    if found.len() > 0 {
        let rest = found.drop_last();
        lemma_undoing(rest, desired, present);
        assert(states_of(found).drop_last() =~= states_of(rest));
        assert(present[found.len() - 1] == Some(desired));
    }
    assert(needed_updates(states_of(found), present) =~= undone);
}

// ---- Putting back ----------------------------------------------------------------------------

/// The attribute is that of one of the controllers from `next` on.
pub open spec fn is_put_back(
    directory: Seq<char>,
    states: Seq<ControllerAuthorizationStateView>,
    next: int,
    path: Seq<char>,
) -> bool {
    exists|i: int|
        next <= i < states.len() && default_path(directory, (#[trigger] states[i]).controller)
            == path
}

proof fn lemma_put_back_values(
    r: RestoreView,
    values: Values,
    contents: Seq<Contents>,
    present: Seq<Option<Seq<char>>>,
)
    requires
        0 <= r.next <= r.states.len(),
        present.len() == r.states.len(),
        forall|i: int|
            0 <= i < r.states.len() ==> root_hub_name((#[trigger] r.states[i]).controller),
        forall|i: int|
            0 <= i < r.states.len() ==> trimmed((#[trigger] r.states[i]).authorized_default)
                == r.states[i].authorized_default,
        forall|i: int, j: int|
            0 <= i < j < r.states.len() ==> (#[trigger] r.states[i]).controller != (
            #[trigger] r.states[j]).controller,
        put_back_sees(r, values, contents),
        forall|i: int|
            r.next <= i < r.states.len() ==> value_at(
                values,
                default_path(r.directory, (#[trigger] r.states[i]).controller),
            ) == present[i] && present[i] is Some,
        r.updates == needed_updates(r.states.take(r.next), present),
    ensures
        put_back_run(r, values, contents).1 == RestoreStepView::Done(
            Ok(needed_updates(r.states, present)),
        ),
        forall|i: int|
            r.next <= i < r.states.len() ==> value_at(
                put_back_run(r, values, contents).0,
                default_path(r.directory, (#[trigger] r.states[i]).controller),
            ) == Some(r.states[i].authorized_default),
        forall|path: Seq<char>|
            !is_put_back(r.directory, r.states, r.next, path) ==> #[trigger] value_at(
                put_back_run(r, values, contents).0,
                path,
            ) == value_at(values, path),
    decreases r.states.len() - r.next,
{
    if r.next == r.states.len() {
        assert(r.states.take(r.next) =~= r.states);
    } else {
        let state = r.states[r.next];
        let own = default_path(r.directory, state.controller);
        let current = present[r.next]->0;
        assert(r.states.take(r.next + 1).drop_last() =~= r.states.take(r.next));
        assert(r.states.take(r.next + 1).last() == state);
        lemma_shown(contents[r.next], values, own, own);
        let changed = current != state.authorized_default;
        let now = if changed {
            RestoreView {
                next: r.next + 1,
                updates: r.updates.push(
                    ControllerAuthorizationUpdateView {
                        controller: state.controller,
                        current: Some(current),
                        desired: state.authorized_default,
                    },
                ),
                ..r
            }
        } else {
            RestoreView { next: r.next + 1, ..r }
        };
        let after = if changed {
            values.insert(own, state.authorized_default)
        } else {
            values
        };
        assert(put_back_turn(r, values, contents[r.next]) == (after, restore_next(now)));
        assert forall|i: int| r.next < i < r.states.len() implies default_path(
            r.directory,
            (#[trigger] r.states[i]).controller,
        ) != own by {
            if default_path(r.directory, r.states[i].controller) == own {
                lemma_paths_differ(r.directory, r.states[i].controller, state.controller);
                assert(r.states[r.next].controller != r.states[i].controller);
            }
        }
        assert(now.updates == needed_updates(now.states.take(now.next), present));
        if now.next == now.states.len() {
            assert(now.states.take(now.next) =~= now.states);
        } else {
            lemma_put_back_values(now, after, contents, present);
        }
        assert(put_back_run(r, values, contents) == put_back_run(now, after, contents));
        let end = put_back_run(r, values, contents).0;
        assert(value_at(end, own) == Some(state.authorized_default)) by {
            assert(!is_put_back(r.directory, r.states, r.next + 1, own));
            assert(value_at(end, own) == value_at(after, own));
        }
        assert forall|path: Seq<char>|
            !is_put_back(r.directory, r.states, r.next, path) implies #[trigger] value_at(
            end,
            path,
        ) == value_at(values, path) by {
            assert(default_path(r.directory, r.states[r.next].controller) == own);
            assert(path != own);
            if is_put_back(r.directory, r.states, r.next + 1, path) {
                let i = choose|i: int|
                    r.next + 1 <= i < r.states.len() && default_path(
                        r.directory,
                        (#[trigger] r.states[i]).controller,
                    ) == path;
                assert(default_path(r.directory, r.states[i].controller) == path);
            }
            assert(value_at(end, path) == value_at(after, path));
        }
    }
}

// ---- Laws ------------------------------------------------------------------------------------

/// Scans of the same directory find the same, in whatever order the entries are listed.
pub proof fn law_scans_agree(
    directory: Seq<char>,
    names: Set<Seq<char>>,
    one: Listing<ControllerEntry>,
    one_values: Values,
    other: Listing<ControllerEntry>,
    other_values: Values,
)
    requires
        lists(one, directory, names, one_values),
        lists(other, directory, names, other_values),
        forall|name: Seq<char>| #[trigger]
            names.contains(name) ==> value_at(one_values, default_path(directory, name))
                == value_at(other_values, default_path(directory, name)),
    ensures
        scanned_controllers(directory, one) is Ok,
        scanned_controllers(directory, one) == scanned_controllers(directory, other),
{
    lemma_scanned(one, directory, names, one_values);
    lemma_scanned(other, directory, names, other_values);
    let s = scanned_controllers(directory, one)->Ok_0;
    let t = scanned_controllers(directory, other)->Ok_0;
    assert forall|x: ControllerAuthorizationView| #[trigger]
        s.contains(x) <==> t.contains(x) by {
        if names.contains(x.controller) {
            assert(is_found(x, directory, one_values) == is_found(x, directory, other_values));
        }
    }
    lemma_same_items(s, t);
}

/// Setting controllers a second time finds nothing to do: when every write succeeded and nothing
/// else changed sysfs, nothing is written and there is no update.
pub proof fn law_setting_twice_is_setting_once(
    default: AuthorizedDefault,
    directory: Seq<char>,
    names: Set<Seq<char>>,
    values: Values,
    listed: Listing<ControllerEntry>,
    again: Listing<ControllerEntry>,
)
    requires
        lists(listed, directory, names, values),
        lists(
            again,
            directory,
            names,
            set_run(default, scanned_controllers(directory, listed), values).0,
        ),
    ensures
        ({
            let set = set_run(default, scanned_controllers(directory, listed), values).0;
            let found = scanned_controllers(directory, again);
            &&& writes_start(default, found) == ControllerStepView::Done(Ok(Seq::empty()))
            &&& set_run(default, found, set) == (
                set,
                ControllerStepView::Done(Ok(Seq::empty())),
            )
        }),
{
    lemma_scanned(listed, directory, names, values);
    let found = scanned_controllers(directory, listed)->Ok_0;
    assert forall|i: int| 0 <= i < found.len() implies is_found(
        #[trigger] found[i],
        directory,
        values,
    ) by {
        assert(found.contains(found[i]));
    }
    lemma_set(default, directory, found, values);
    let set = set_run(default, Ok(found), values).0;
    lemma_scanned(again, directory, names, set);
    let then = scanned_controllers(directory, again)->Ok_0;
    if let Some(desired) = desired_value(default) {
        let pending = differing(then, desired);
        if pending.len() > 0 {
            let x = pending[0];
            assert(pending.contains(x));
            law_only_differing_controllers_are_set(then, desired, x);
            assert(names.contains(x.controller) && is_found(x, directory, set));
            if values.contains_key(x.path) {
                let former = ControllerAuthorizationView { current: values[x.path], ..x };
                assert(found.contains(former));
                let i = choose|i: int| 0 <= i < found.len() && found[i] == former;
                assert(value_at(set, found[i].path) == Some(desired));
            } else {
                if is_pending(found, 0, x.path) {
                    let i = choose|i: int|
                        0 <= i < found.len() && (#[trigger] found[i]).path == x.path;
                    assert(is_found(found[i], directory, values));
                }
                assert(value_at(set, x.path) == value_at(values, x.path));
            }
        }
        assert(updates_to(pending, desired) =~= Seq::empty());
    }
}

/// Controllers that are captured, set and put back are as they were. When every write succeeds
/// and nothing else changes sysfs, putting back undoes the updates one for one, of the same
/// controllers with the two values exchanged, and the controllers are then captured as before.
pub proof fn law_putting_back_undoes_setting(
    default: AuthorizedDefault,
    directory: Seq<char>,
    names: Set<Seq<char>>,
    values: Values,
    captured: Listing<ControllerEntry>,
    listed: Listing<ControllerEntry>,
    contents: Seq<Contents>,
    later: Listing<ControllerEntry>,
)
    requires
        lists(captured, directory, names, values),
        lists(listed, directory, names, values),
        ({
            let states = states_of(scanned_controllers(directory, captured)->Ok_0);
            let set = set_run(default, scanned_controllers(directory, listed), values).0;
            let start = put_back_start(directory, states);
            &&& put_back_sees(start, set, contents)
            &&& lists(later, directory, names, put_back_run(start, set, contents).0)
        }),
    ensures
        ({
            let found = scanned_controllers(directory, captured);
            let states = states_of(found->Ok_0);
            let set = set_run(default, scanned_controllers(directory, listed), values);
            let back = put_back_run(put_back_start(directory, states), set.0, contents);
            &&& found is Ok
            &&& restore_start(directory, states) == restore_next(put_back_start(directory, states))
            &&& set.1 matches ControllerStepView::Done(Ok(updates)) && {
                &&& back.1 == RestoreStepView::Done(Ok(undoing(updates)))
                &&& undoing(updates).len() == updates.len()
                &&& forall|i: int|
                    0 <= i < updates.len() ==> {
                        let undo = #[trigger] undoing(updates)[i];
                        &&& undo.controller == updates[i].controller
                        &&& undo.current == Some(updates[i].desired)
                        &&& Some(undo.desired) == updates[i].current
                    }
            }
            &&& scanned_controllers(directory, later) == found
        }),
{
    lemma_scanned(captured, directory, names, values);
    law_scans_agree(directory, names, captured, values, listed, values);
    let found = scanned_controllers(directory, captured)->Ok_0;
    let states = states_of(found);
    assert forall|i: int| 0 <= i < found.len() implies is_found(
        #[trigger] found[i],
        directory,
        values,
    ) && names.contains(found[i].controller) && trimmed(found[i].current) == found[i].current by {
        assert(found.contains(found[i]));
    }
    lemma_set(default, directory, found, values);
    let set = set_run(default, Ok(found), values).0;
    let present = match desired_value(default) {
        Some(desired) => Seq::new(found.len(), |i: int| Some(desired)),
        None => Seq::new(found.len(), |i: int| Some(found[i].current)),
    };
    let start = put_back_start(directory, states);
    assert forall|i: int| 0 <= i < states.len() implies value_at(
        set,
        default_path(directory, (#[trigger] states[i]).controller),
    ) == present[i] && present[i] is Some by {
        assert(is_found(found[i], directory, values));
        assert(value_at(set, found[i].path) == present[i]);
    }
    assert forall|i: int| 0 <= i < states.len() implies root_hub_name(
        (#[trigger] states[i]).controller,
    ) && trimmed(states[i].authorized_default) == states[i].authorized_default by {
        assert(names.contains(found[i].controller));
    }
    assert forall|i: int, j: int| 0 <= i < j < states.len() implies (
    #[trigger] states[i]).controller != (#[trigger] states[j]).controller by {
        assert(found[i].controller != found[j].controller);
    }
    assert(states.take(0) =~= Seq::empty());
    lemma_put_back_values(start, set, contents, present);
    let end = put_back_run(start, set, contents).0;
    assert forall|name: Seq<char>| #[trigger] names.contains(name) implies value_at(
        values,
        default_path(directory, name),
    ) == value_at(end, default_path(directory, name)) by {
        let path = default_path(directory, name);
        if values.contains_key(path) {
            let x = ControllerAuthorizationView { controller: name, path, current: values[path] };
            assert(found.contains(x));
            let i = choose|i: int| 0 <= i < found.len() && found[i] == x;
            assert(default_path(directory, states[i].controller) == path);
        } else {
            if is_pending(found, 0, path) {
                let i = choose|i: int| 0 <= i < found.len() && (#[trigger] found[i]).path == path;
                assert(is_found(found[i], directory, values));
            }
            if is_put_back(directory, states, 0, path) {
                let i = choose|i: int|
                    0 <= i < states.len() && default_path(
                        directory,
                        (#[trigger] states[i]).controller,
                    ) == path;
                assert(is_found(found[i], directory, values));
            }
            assert(value_at(end, path) == value_at(set, path));
        }
    }
    law_scans_agree(directory, names, captured, values, later, end);
}

} // verus!
