//! The `authorized_default` of USB controllers: reading it, setting it, putting it back.
use super::attributes::{join_path, joined, optional_value, read_trimmed_optional, Contents};
use super::probe::{is_root_hub_name, root_hub_name};
use crate::config::AuthorizedDefault;
use crate::error::{Error, ErrorView, IoError, IoErrorView};
use crate::order::Named;
use crate::text::same_text;
use vstd::prelude::*;

verus! {

/// What a controller's `authorized_default` was and what it is set to.
#[derive(Debug, PartialEq, Eq)]
pub struct ControllerAuthorizationUpdate {
    pub controller: String,
    pub current: Option<String>,
    pub desired: String,
}

/// What a controller's `authorized_default` is.
#[derive(Debug, PartialEq, Eq)]
pub struct ControllerAuthorizationState {
    pub controller: String,
    pub authorized_default: String,
}

/// A controller, with the path and the value of its `authorized_default`.
#[derive(Debug, PartialEq, Eq)]
pub struct ControllerAuthorization {
    pub controller: String,
    pub path: String,
    pub current: String,
}

#[verifier::ext_equal]
pub struct ControllerAuthorizationUpdateView {
    pub controller: Seq<char>,
    pub current: Option<Seq<char>>,
    pub desired: Seq<char>,
}

#[verifier::ext_equal]
pub struct ControllerAuthorizationStateView {
    pub controller: Seq<char>,
    pub authorized_default: Seq<char>,
}

#[verifier::ext_equal]
pub struct ControllerAuthorizationView {
    pub controller: Seq<char>,
    pub path: Seq<char>,
    pub current: Seq<char>,
}

impl View for ControllerAuthorizationUpdate {
    type V = ControllerAuthorizationUpdateView;

    open spec fn view(&self) -> ControllerAuthorizationUpdateView {
        ControllerAuthorizationUpdateView {
            controller: self.controller@,
            current: self.current.deep_view(),
            desired: self.desired@,
        }
    }
}

impl DeepView for ControllerAuthorizationUpdate {
    type V = ControllerAuthorizationUpdateView;

    open spec fn deep_view(&self) -> ControllerAuthorizationUpdateView {
        self@
    }
}

impl View for ControllerAuthorizationState {
    type V = ControllerAuthorizationStateView;

    open spec fn view(&self) -> ControllerAuthorizationStateView {
        ControllerAuthorizationStateView {
            controller: self.controller@,
            authorized_default: self.authorized_default@,
        }
    }
}

impl DeepView for ControllerAuthorizationState {
    type V = ControllerAuthorizationStateView;

    open spec fn deep_view(&self) -> ControllerAuthorizationStateView {
        self@
    }
}

impl View for ControllerAuthorization {
    type V = ControllerAuthorizationView;

    open spec fn view(&self) -> ControllerAuthorizationView {
        ControllerAuthorizationView {
            controller: self.controller@,
            path: self.path@,
            current: self.current@,
        }
    }
}

impl DeepView for ControllerAuthorization {
    type V = ControllerAuthorizationView;

    open spec fn deep_view(&self) -> ControllerAuthorizationView {
        self@
    }
}

impl Clone for ControllerAuthorizationUpdate {
    fn clone(&self) -> (r: Self)
        ensures
            r@ == self@,
    {
        ControllerAuthorizationUpdate {
            controller: self.controller.clone(),
            current: self.current.clone(),
            desired: self.desired.clone(),
        }
    }
}

impl Clone for ControllerAuthorizationState {
    fn clone(&self) -> (r: Self)
        ensures
            r@ == self@,
    {
        ControllerAuthorizationState {
            controller: self.controller.clone(),
            authorized_default: self.authorized_default.clone(),
        }
    }
}

impl Clone for ControllerAuthorization {
    fn clone(&self) -> (r: Self)
        ensures
            r@ == self@,
    {
        ControllerAuthorization {
            controller: self.controller.clone(),
            path: self.path.clone(),
            current: self.current.clone(),
        }
    }
}

impl Named for ControllerAuthorization {
    open spec fn name_of(item: ControllerAuthorizationView) -> Seq<char> {
        item.controller
    }

    fn name(&self) -> (r: &str) {
        self.controller.as_str()
    }
}

// ---- Reading ---------------------------------------------------------------------------------

/// One entry of the USB devices directory: its file name, where that is text, its path, and what
/// came of reading the attribute that `controller_attribute` asks for.
#[derive(Debug)]
pub struct ControllerEntry {
    pub name: Option<String>,
    pub path: String,
    pub authorized_default: Option<Contents>,
}

/// The entry is a controller.
pub open spec fn is_controller(name: Option<Seq<char>>) -> bool {
    name is Some && root_hub_name(name->0)
}

/// Where the `authorized_default` of an entry is that is a controller; other entries have none.
pub fn controller_attribute(name: &Option<String>, path: &str) -> (r: Option<String>)
    ensures
        r.deep_view() == (if is_controller(name.deep_view()) {
            Some(joined(path@, "authorized_default"@))
        } else {
            None
        }),
{
    match name {
        Some(text) => {
            if is_root_hub_name(text.as_str()) {
                Some(join_path(path, "authorized_default"))
            } else {
                None
            }
        },
        None => None,
    }
}

/// What one entry adds: a controller whose attribute holds a value. One without the attribute
/// adds nothing.
pub open spec fn entry_authorization(entry: ControllerEntry) -> Result<
    Option<ControllerAuthorizationView>,
    ErrorView,
> {
    if is_controller(entry.name.deep_view()) && entry.authorized_default is Some {
        let path = joined(entry.path@, "authorized_default"@);
        match optional_value(path, entry.authorized_default->0) {
            Err(error) => Err(error),
            Ok(None) => Ok(None),
            Ok(Some(current)) => Ok(
                Some(
                    ControllerAuthorizationView { controller: entry.name->0@, path, current },
                ),
            ),
        }
    } else {
        Ok(None)
    }
}

/// The error of an entry that could not be listed.
pub open spec fn entry_failure(source: IoErrorView) -> ErrorView {
    ErrorView::Io { context: "failed to read sysfs entry"@, source }
}

/// The controllers among some entries, or the first failure.
pub open spec fn entries_authorizations(entries: Seq<Result<ControllerEntry, IoError>>) -> Result<
    Seq<ControllerAuthorizationView>,
    ErrorView,
>
    decreases entries.len(),
{
    if entries.len() == 0 {
        Ok(Seq::empty())
    } else {
        match entries_authorizations(entries.drop_last()) {
            Err(error) => Err(error),
            Ok(found) => match entries.last() {
                Err(error) => Err(entry_failure(error@)),
                Ok(entry) => match entry_authorization(entry) {
                    Err(error) => Err(error),
                    Ok(None) => Ok(found),
                    Ok(Some(authorization)) => Ok(found.push(authorization)),
                },
            },
        }
    }
}

/// The plain value of a list that may have failed.
pub open spec fn authorizations_result(r: Result<Vec<ControllerAuthorization>, Error>) -> Result<
    Seq<ControllerAuthorizationView>,
    ErrorView,
> {
    match r {
        Ok(list) => Ok(list.deep_view()),
        Err(error) => Err(error@),
    }
}

fn read_entry(entry: ControllerEntry) -> (r: Result<Option<ControllerAuthorization>, Error>)
    ensures
        (match r {
            Ok(Some(authorization)) => Ok(Some(authorization@)),
            Ok(None) => Ok(None),
            Err(error) => Err(error@),
        }) == entry_authorization(entry),
{
    let attribute = controller_attribute(&entry.name, entry.path.as_str());
    match (entry.name, attribute, entry.authorized_default) {
        (Some(controller), Some(path), Some(contents)) => {
            match read_trimmed_optional(path.as_str(), contents) {
                Err(error) => Err(error),
                Ok(None) => Ok(None),
                Ok(Some(current)) => Ok(
                    Some(ControllerAuthorization { controller, path, current }),
                ),
            }
        },
        _ => Ok(None),
    }
}

/// The controllers among the entries, in the entries' order.
pub fn read_entries(entries: Vec<Result<ControllerEntry, IoError>>) -> (r: Result<
    Vec<ControllerAuthorization>,
    Error,
>)
    ensures
        authorizations_result(r) == entries_authorizations(entries@),
{
    let ghost all = entries@;
    let mut rest = entries;
    let mut found: Vec<ControllerAuthorization> = Vec::new();
    let ghost mut done: int = 0;
    proof {
        assert(all.take(0) =~= Seq::empty());
        assert(found.deep_view() =~= Seq::empty());
        assert(rest@ =~= all.skip(0));
    }
    while rest.len() > 0
        invariant
            all == entries@,
            0 <= done <= all.len(),
            rest@ == all.skip(done),
            entries_authorizations(all.take(done)) == Ok::<_, ErrorView>(found.deep_view()),
        decreases rest.len(),
    {
        let ghost before = found.deep_view();
        proof {
            assert(rest@[0] == all[done]);
            assert(rest@.drop_first() =~= all.skip(done + 1));
            assert(all.take(done + 1).drop_last() =~= all.take(done));
            assert(all.take(done + 1).last() == all[done]);
        }
        match rest.remove(0) {
            Err(error) => {
                proof {
                    lemma_failure_stays(all, done + 1);
                }
                return Err(Error::io("failed to read sysfs entry".to_owned(), error));
            },
            Ok(entry) => match read_entry(entry) {
                Err(error) => {
                    proof {
                        lemma_failure_stays(all, done + 1);
                    }
                    return Err(error);
                },
                Ok(None) => {},
                Ok(Some(authorization)) => {
                    let ghost added = authorization@;
                    found.push(authorization);
                    assert(found.deep_view() =~= before.push(added));
                },
            },
        }
        proof {
            done = done + 1;
        }
    }
    assert(all.take(done) =~= all);
    Ok(found)
}

proof fn lemma_failure_stays(entries: Seq<Result<ControllerEntry, IoError>>, n: int)
    requires
        0 <= n <= entries.len(),
        entries_authorizations(entries.take(n)) is Err,
    ensures
        entries_authorizations(entries) == entries_authorizations(entries.take(n)),
    decreases entries.len() - n,
{
    if n == entries.len() {
        assert(entries.take(n) =~= entries);
    } else {
        assert(entries.take(n + 1).drop_last() =~= entries.take(n));
        lemma_failure_stays(entries, n + 1);
    }
}

// ---- Setting ---------------------------------------------------------------------------------

/// The value that the configuration asks for. There is none where it keeps what is there.
pub open spec fn desired_value(default: AuthorizedDefault) -> Option<Seq<char>> {
    match default {
        AuthorizedDefault::Keep => None,
        AuthorizedDefault::Nothing => Some("0"@),
        AuthorizedDefault::All => Some("1"@),
    }
}

pub fn desired_authorized_default(default: AuthorizedDefault) -> (r: Option<&'static str>)
    ensures
        (match r {
            Some(value) => Some(value@),
            None => None,
        }) == desired_value(default),
{
    match default {
        AuthorizedDefault::Keep => None,
        AuthorizedDefault::Nothing => Some("0"),
        AuthorizedDefault::All => Some("1"),
    }
}

/// The update that sets a controller to a value.
pub open spec fn update_to(
    authorization: ControllerAuthorizationView,
    desired: Seq<char>,
) -> ControllerAuthorizationUpdateView {
    ControllerAuthorizationUpdateView {
        controller: authorization.controller,
        current: Some(authorization.current),
        desired,
    }
}

/// The controllers that do not have the desired value yet.
pub open spec fn differing(
    found: Seq<ControllerAuthorizationView>,
    desired: Seq<char>,
) -> Seq<ControllerAuthorizationView>
    decreases found.len(),
{
    if found.len() == 0 {
        Seq::empty()
    } else {
        let before = differing(found.drop_last(), desired);
        if found.last().current != desired {
            before.push(found.last())
        } else {
            before
        }
    }
}

/// The updates that give every controller the desired value.
pub open spec fn updates_to(
    pending: Seq<ControllerAuthorizationView>,
    desired: Seq<char>,
) -> Seq<ControllerAuthorizationUpdateView> {
    Seq::new(pending.len(), |i: int| update_to(pending[i], desired))
}

/// The plain value of updates that may have failed.
pub open spec fn updates_result(
    r: Result<Vec<ControllerAuthorizationUpdate>, Error>,
) -> Result<Seq<ControllerAuthorizationUpdateView>, ErrorView> {
    match r {
        Ok(updates) => Ok(updates.deep_view()),
        Err(error) => Err(error@),
    }
}

/// The controllers that do not have the desired value yet, in their order.
pub fn pending_updates(found: Vec<ControllerAuthorization>, desired: &str) -> (r: Vec<
    ControllerAuthorization,
>)
    ensures
        r.deep_view() == differing(found.deep_view(), desired@),
{
    let ghost all = found.deep_view();
    let mut pending: Vec<ControllerAuthorization> = Vec::new();
    proof {
        assert(all.take(0) =~= Seq::empty());
        assert(pending.deep_view() =~= Seq::empty());
    }
    for i in 0..found.len()
        invariant
            all == found.deep_view(),
            pending.deep_view() == differing(all.take(i as int), desired@),
    {
        let ghost before = pending.deep_view();
        proof {
            assert(all.take(i + 1).drop_last() =~= all.take(i as int));
            assert(all[i as int] == found@[i as int]@);
        }
        if !same_text(found[i].current.as_str(), desired) {
            pending.push(found[i].clone());
            assert(pending.deep_view() =~= before.push(all[i as int]));
        }
    }
    assert(all.take(all.len() as int) =~= all);
    pending
}

/// The updates that set the controllers to a value.
pub fn controller_updates(pending: &Vec<ControllerAuthorization>, desired: &str) -> (r: Vec<
    ControllerAuthorizationUpdate,
>)
    ensures
        r.deep_view() == updates_to(pending.deep_view(), desired@),
{
    let mut updates: Vec<ControllerAuthorizationUpdate> = Vec::new();
    for i in 0..pending.len()
        invariant
            updates@.len() == i,
            forall|j: int|
                0 <= j < i ==> (#[trigger] updates@[j])@ == update_to(pending@[j]@, desired@),
    {
        updates.push(
            ControllerAuthorizationUpdate {
                controller: pending[i].controller.clone(),
                current: Some(pending[i].current.clone()),
                desired: desired.to_owned(),
            },
        );
    }
    assert(updates.deep_view() =~= updates_to(pending.deep_view(), desired@));
    updates
}

/// The error of a file that could not be written.
pub open spec fn write_failure(path: Seq<char>, source: IoErrorView) -> ErrorView {
    ErrorView::Io { context: "failed to write "@ + path, source }
}

pub fn write_error(path: &str, source: IoError) -> (r: Error)
    ensures
        r@ == write_failure(path@, source@),
{
    let mut context = "failed to write ".to_owned();
    context.append(path);
    Error::io(context, source)
}

/// The controllers are being given a value, one after the other.
#[derive(Debug)]
pub struct ControllerWrites {
    desired: String,
    pending: Vec<ControllerAuthorization>,
    next: usize,
}

/// How setting the controllers goes on.
#[derive(Debug)]
pub enum ControllerStep {
    /// A value has to be written.
    Write(ControllerWrites),
    /// Every controller has the value, or one could not be written.
    Done(Result<Vec<ControllerAuthorizationUpdate>, Error>),
}

#[verifier::ext_equal]
pub enum ControllerStepView {
    Write { desired: Seq<char>, pending: Seq<ControllerAuthorizationView>, next: int },
    Done(Result<Seq<ControllerAuthorizationUpdateView>, ErrorView>),
}

impl View for ControllerStep {
    type V = ControllerStepView;

    open spec fn view(&self) -> ControllerStepView {
        match self {
            ControllerStep::Write(writes) => ControllerStepView::Write {
                desired: writes.desired(),
                pending: writes.pending(),
                next: writes.next(),
            },
            ControllerStep::Done(r) => ControllerStepView::Done(updates_result(*r)),
        }
    }
}

/// Setting goes on with the controller at `next`, where there is one.
pub open spec fn write_at(
    desired: Seq<char>,
    pending: Seq<ControllerAuthorizationView>,
    next: int,
) -> ControllerStepView {
    if next < pending.len() {
        ControllerStepView::Write { desired, pending, next }
    } else {
        ControllerStepView::Done(Ok(updates_to(pending, desired)))
    }
}

/// Setting starts with what was found, where the configuration asks for a value at all.
pub open spec fn writes_start(
    default: AuthorizedDefault,
    found: Result<Seq<ControllerAuthorizationView>, ErrorView>,
) -> ControllerStepView {
    match desired_value(default) {
        None => ControllerStepView::Done(Ok(Seq::empty())),
        Some(desired) => match found {
            Err(error) => ControllerStepView::Done(Err(error)),
            Ok(found) => write_at(desired, differing(found, desired), 0),
        },
    }
}

/// How setting goes on after a value was written.
pub open spec fn writes_resume(
    desired: Seq<char>,
    pending: Seq<ControllerAuthorizationView>,
    next: int,
    written: Result<(), IoError>,
) -> ControllerStepView {
    match written {
        Ok(()) => write_at(desired, pending, next + 1),
        Err(error) => ControllerStepView::Done(Err(write_failure(pending[next].path, error@))),
    }
}

impl ControllerWrites {
    /// The value that the controllers are given.
    pub closed spec fn desired(&self) -> Seq<char> {
        self.desired@
    }

    /// The controllers that are given it.
    pub closed spec fn pending(&self) -> Seq<ControllerAuthorizationView> {
        self.pending.deep_view()
    }

    /// The one whose turn it is.
    pub closed spec fn next(&self) -> int {
        self.next as int
    }

    #[verifier::type_invariant]
    spec fn valid(self) -> bool {
        self.next < self.pending@.len()
    }

    fn at(desired: String, pending: Vec<ControllerAuthorization>, next: usize) -> (r:
        ControllerStep)
        requires
            next <= pending@.len(),
        ensures
            r@ == write_at(desired@, pending.deep_view(), next as int),
    {
        if next < pending.len() {
            ControllerStep::Write(ControllerWrites { desired, pending, next })
        } else {
            ControllerStep::Done(Ok(controller_updates(&pending, desired.as_str())))
        }
    }

    /// Starts to give the controllers the value that the configuration asks for.
    pub fn start(
        default: AuthorizedDefault,
        found: Result<Vec<ControllerAuthorization>, Error>,
    ) -> (r: ControllerStep)
        ensures
            r@ == writes_start(default, authorizations_result(found)),
    {
        match desired_authorized_default(default) {
            None => {
                let none: Vec<ControllerAuthorizationUpdate> = Vec::new();
                assert(none.deep_view() =~= Seq::empty());
                ControllerStep::Done(Ok(none))
            },
            Some(desired) => match found {
                Err(error) => ControllerStep::Done(Err(error)),
                Ok(found) => {
                    let pending = pending_updates(found, desired);
                    ControllerWrites::at(desired.to_owned(), pending, 0)
                },
            },
        }
    }

    /// Where the value has to be written.
    pub fn path(&self) -> (r: &str)
        ensures
            r@ == self.pending()[self.next()].path,
    {
        proof {
            use_type_invariant(self);
            assert(self.pending()[self.next()] == self.pending@[self.next as int]@);
        }
        self.pending[self.next].path.as_str()
    }

    /// What has to be written there.
    pub fn value(&self) -> (r: &str)
        ensures
            r@ == self.desired(),
    {
        self.desired.as_str()
    }

    /// Goes on with what came of writing the value.
    pub fn resume(self, written: Result<(), IoError>) -> (r: ControllerStep)
        ensures
            r@ == writes_resume(self.desired(), self.pending(), self.next(), written),
    {
        proof {
            use_type_invariant(&self);
        }
        match written {
            Err(error) => {
                let e = write_error(self.path(), error);
                ControllerStep::Done(Err(e))
            },
            Ok(()) => {
                let count = self.pending.len();
                assert(self.next < count);
                ControllerWrites::at(self.desired, self.pending, self.next + 1)
            },
        }
    }
}

} // verus!
