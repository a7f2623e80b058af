//! Putting the `authorized_default` of USB controllers back to what it was.
use super::attributes::{join_path, joined, optional_value, read_trimmed_optional, Contents};
use super::controllers::{
    updates_result, write_error, write_failure, ControllerAuthorizationState,
    ControllerAuthorizationStateView, ControllerAuthorizationUpdate,
    ControllerAuthorizationUpdateView,
};
use crate::error::{Error, ErrorView, IoError};
use crate::text::same_text;
use vstd::prelude::*;

verus! {

/// The attribute of a controller, below the USB devices directory.
pub open spec fn default_path(directory: Seq<char>, controller: Seq<char>) -> Seq<char> {
    joined(joined(directory, controller), "authorized_default"@)
}

/// What is put back, how far that has come, and what has been changed.
#[verifier::ext_equal]
pub struct RestoreView {
    pub directory: Seq<char>,
    pub states: Seq<ControllerAuthorizationStateView>,
    pub next: int,
    pub updates: Seq<ControllerAuthorizationUpdateView>,
}

#[derive(Debug)]
struct Restore {
    directory: String,
    states: Vec<ControllerAuthorizationState>,
    next: usize,
    updates: Vec<ControllerAuthorizationUpdate>,
}

impl View for Restore {
    type V = RestoreView;

    closed spec fn view(&self) -> RestoreView {
        RestoreView {
            directory: self.directory@,
            states: self.states.deep_view(),
            next: self.next as int,
            updates: self.updates.deep_view(),
        }
    }
}

/// The present value of a controller has to be read.
#[derive(Debug)]
pub struct RestoreRead {
    restore: Restore,
}

/// The former value of a controller has to be written.
#[derive(Debug)]
pub struct RestoreWrite {
    restore: Restore,
    current: String,
}

/// How putting back goes on.
#[derive(Debug)]
pub enum RestoreStep {
    Read(RestoreRead),
    Write(RestoreWrite),
    Done(Result<Vec<ControllerAuthorizationUpdate>, Error>),
}

#[verifier::ext_equal]
pub enum RestoreStepView {
    Read(RestoreView),
    Write(RestoreView, Seq<char>),
    Done(Result<Seq<ControllerAuthorizationUpdateView>, ErrorView>),
}

impl View for RestoreStep {
    type V = RestoreStepView;

    open spec fn view(&self) -> RestoreStepView {
        match self {
            RestoreStep::Read(read) => RestoreStepView::Read(read@),
            RestoreStep::Write(write) => RestoreStepView::Write(write@.0, write@.1),
            RestoreStep::Done(r) => RestoreStepView::Done(updates_result(*r)),
        }
    }
}

impl View for RestoreRead {
    type V = RestoreView;

    closed spec fn view(&self) -> RestoreView {
        self.restore@
    }
}

impl View for RestoreWrite {
    type V = (RestoreView, Seq<char>);

    closed spec fn view(&self) -> (RestoreView, Seq<char>) {
        (self.restore@, self.current@)
    }
}

/// Putting back goes on with the controller whose turn it is, where one is left.
pub open spec fn restore_next(r: RestoreView) -> RestoreStepView {
    if r.next < r.states.len() {
        RestoreStepView::Read(r)
    } else {
        RestoreStepView::Done(Ok(r.updates))
    }
}

/// Putting back starts with the first controller.
pub open spec fn restore_start(
    directory: Seq<char>,
    states: Seq<ControllerAuthorizationStateView>,
) -> RestoreStepView {
    restore_next(RestoreView { directory, states, next: 0, updates: Seq::empty() })
}

/// How it goes on after the present value was read. A controller that is gone, or that has its
/// former value, is left as it is.
pub open spec fn restore_read(r: RestoreView, contents: Contents) -> RestoreStepView {
    let state = r.states[r.next];
    match optional_value(default_path(r.directory, state.controller), contents) {
        Err(error) => RestoreStepView::Done(Err(error)),
        Ok(None) => restore_next(RestoreView { next: r.next + 1, ..r }),
        Ok(Some(current)) => if current == state.authorized_default {
            restore_next(RestoreView { next: r.next + 1, ..r })
        } else {
            RestoreStepView::Write(r, current)
        },
    }
}

/// How it goes on after the former value was written.
pub open spec fn restore_written(
    r: RestoreView,
    current: Seq<char>,
    written: Result<(), IoError>,
) -> RestoreStepView {
    let state = r.states[r.next];
    match written {
        Err(error) => RestoreStepView::Done(
            Err(write_failure(default_path(r.directory, state.controller), error@)),
        ),
        Ok(()) => restore_next(
            RestoreView {
                next: r.next + 1,
                updates: r.updates.push(
                    ControllerAuthorizationUpdateView {
                        controller: state.controller,
                        current: Some(current),
                        desired: state.authorized_default,
                    },
                ),
                ..r
            },
        ),
    }
}

impl Restore {
    #[verifier::type_invariant]
    spec fn valid(self) -> bool {
        self.next < self.states@.len()
    }

    fn at(
        directory: String,
        states: Vec<ControllerAuthorizationState>,
        next: usize,
        updates: Vec<ControllerAuthorizationUpdate>,
    ) -> (r: RestoreStep)
        requires
            next <= states@.len(),
        ensures
            r@ == restore_next(
                RestoreView {
                    directory: directory@,
                    states: states.deep_view(),
                    next: next as int,
                    updates: updates.deep_view(),
                },
            ),
    {
        if next < states.len() {
            RestoreStep::Read(RestoreRead { restore: Restore { directory, states, next, updates } })
        } else {
            RestoreStep::Done(Ok(updates))
        }
    }

    /// The controller whose turn it is.
    fn state(&self) -> (r: &ControllerAuthorizationState)
        ensures
            r@ == self@.states[self@.next],
    {
        proof {
            use_type_invariant(self);
            assert(self@.states[self@.next] == self.states@[self.next as int]@);
        }
        &self.states[self.next]
    }

    fn path(&self) -> (r: String)
        ensures
            r@ == default_path(self@.directory, self@.states[self@.next].controller),
    {
        let directory = join_path(self.directory.as_str(), self.state().controller.as_str());
        join_path(directory.as_str(), "authorized_default")
    }

    fn advance(self) -> (r: RestoreStep)
        ensures
            r@ == restore_next(RestoreView { next: self@.next + 1, ..self@ }),
    {
        proof {
            use_type_invariant(&self);
        }
        let count = self.states.len();
        assert(self.next < count);
        Restore::at(self.directory, self.states, self.next + 1, self.updates)
    }
}

impl RestoreRead {
    /// Starts to put the controllers below a directory back.
    pub fn start(directory: String, states: Vec<ControllerAuthorizationState>) -> (r: RestoreStep)
        ensures
            r@ == restore_start(directory@, states.deep_view()),
    {
        let updates: Vec<ControllerAuthorizationUpdate> = Vec::new();
        assert(updates.deep_view() =~= Seq::empty());
        Restore::at(directory, states, 0, updates)
    }

    /// Where the present value has to be read.
    pub fn path(&self) -> (r: String)
        ensures
            r@ == default_path(self@.directory, self@.states[self@.next].controller),
    {
        self.restore.path()
    }

    /// Goes on with what came of reading it.
    pub fn resume(self, contents: Contents) -> (r: RestoreStep)
        ensures
            r@ == restore_read(self@, contents),
    {
        let path = self.restore.path();
        match read_trimmed_optional(path.as_str(), contents) {
            Err(error) => RestoreStep::Done(Err(error)),
            Ok(None) => self.restore.advance(),
            Ok(Some(current)) => {
                if same_text(
                    current.as_str(),
                    self.restore.state().authorized_default.as_str(),
                ) {
                    self.restore.advance()
                } else {
                    RestoreStep::Write(RestoreWrite { restore: self.restore, current })
                }
            },
        }
    }
}

impl RestoreWrite {
    /// Where the former value has to be written.
    pub fn path(&self) -> (r: String)
        ensures
            r@ == default_path(self@.0.directory, self@.0.states[self@.0.next].controller),
    {
        self.restore.path()
    }

    /// The value that has to be written.
    pub fn value(&self) -> (r: &str)
        ensures
            r@ == self@.0.states[self@.0.next].authorized_default,
    {
        self.restore.state().authorized_default.as_str()
    }

    /// Goes on with what came of writing it.
    pub fn resume(self, written: Result<(), IoError>) -> (r: RestoreStep)
        ensures
            r@ == restore_written(self@.0, self@.1, written),
    {
        match written {
            Err(error) => {
                let path = self.restore.path();
                RestoreStep::Done(Err(write_error(path.as_str(), error)))
            },
            Ok(()) => {
                let state = self.restore.state();
                let update = ControllerAuthorizationUpdate {
                    controller: state.controller.clone(),
                    current: Some(self.current),
                    desired: state.authorized_default.clone(),
                };
                proof {
                    use_type_invariant(&self.restore);
                }
                let Restore { directory, states, next, updates } = self.restore;
                let mut updates = updates;
                let ghost before = updates.deep_view();
                let ghost added = update@;
                updates.push(update);
                assert(updates.deep_view() =~= before.push(added));
                let count = states.len();
                assert(next < count);
                Restore::at(directory, states, next + 1, updates)
            },
        }
    }
}

} // verus!
