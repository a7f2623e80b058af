//! Taking the control socket into use, and leaving it.
use crate::error::{failure, Error, ErrorView, IoError, IoErrorKind, IoErrorView};
use crate::path::{parent_of, parent_path};
use vstd::prelude::*;

verus! {

/// The permissions of the control socket: its owner and its group may use it, nobody else.
pub const SOCKET_MODE: u32 = 0o660;

/// What has to be done to take the socket into use.
#[derive(Clone, Copy, Debug, PartialEq, Eq, Structural)]
pub enum SocketTask {
    /// Create the directory of the socket.
    CreateDirectory,
    /// Connect to the socket that is there.
    Connect,
    /// Remove the socket that is there.
    Remove,
    /// Create the socket.
    Bind,
    /// Set the socket's permissions to `SOCKET_MODE`.
    Restrict,
}

/// A task has to be performed.
#[derive(Debug)]
pub struct Performing {
    task: SocketTask,
    path: String,
    parent: String,
}

/// It has to be found out whether something is at the socket's path.
#[derive(Debug)]
pub struct Checking {
    path: String,
    parent: String,
}

/// How taking the socket into use goes on.
#[derive(Debug)]
pub enum SocketStep {
    Perform(Performing),
    CheckExists(Checking),
    Done(Result<(), Error>),
}

/// The socket's path, and the directory that it is in.
#[verifier::ext_equal]
pub struct SocketView {
    pub path: Seq<char>,
    pub parent: Seq<char>,
}

#[verifier::ext_equal]
pub enum SocketStepView {
    Perform(SocketTask, SocketView),
    CheckExists(SocketView),
    Done(Option<ErrorView>),
}

impl View for Performing {
    type V = SocketView;

    closed spec fn view(&self) -> SocketView {
        SocketView { path: self.path@, parent: self.parent@ }
    }
}

impl View for Checking {
    type V = SocketView;

    closed spec fn view(&self) -> SocketView {
        SocketView { path: self.path@, parent: self.parent@ }
    }
}

impl View for SocketStep {
    type V = SocketStepView;

    open spec fn view(&self) -> SocketStepView {
        match self {
            SocketStep::Perform(step) => SocketStepView::Perform(step.awaited(), step@),
            SocketStep::CheckExists(step) => SocketStepView::CheckExists(step@),
            SocketStep::Done(r) => SocketStepView::Done(failure(*r)),
        }
    }
}

/// How taking the socket into use starts. The directory that its path is in is made first, where
/// it is in one.
pub open spec fn socket_start(path: Seq<char>) -> SocketStepView {
    match parent_path(path) {
        Some(parent) => SocketStepView::Perform(
            SocketTask::CreateDirectory,
            SocketView { path, parent },
        ),
        None => SocketStepView::CheckExists(SocketView { path, parent: Seq::empty() }),
    }
}

/// What is left of a socket that nobody listens on may be removed.
pub open spec fn stale(error: IoErrorView) -> bool {
    error.kind == IoErrorKind::ConnectionRefused || error.kind == IoErrorKind::NotFound
}

/// What a failed task is reported with.
pub open spec fn task_failure(task: SocketTask, s: SocketView, source: IoErrorView) -> ErrorView {
    let context = match task {
        SocketTask::CreateDirectory => "failed to create socket directory "@ + s.parent,
        SocketTask::Connect => "failed to inspect existing socket "@ + s.path,
        SocketTask::Remove => "failed to remove stale socket "@ + s.path,
        SocketTask::Bind => "failed to bind "@ + s.path,
        SocketTask::Restrict => "failed to set permissions on "@ + s.path,
    };
    ErrorView::Io { context, source }
}

/// How it goes on with what came of a task. A socket that can be connected to belongs to a daemon
/// that is running, and is left alone.
pub open spec fn task_performed(
    task: SocketTask,
    s: SocketView,
    result: Result<(), IoError>,
) -> SocketStepView {
    match result {
        Err(error) => if task == SocketTask::Connect && stale(error@) {
            SocketStepView::Perform(SocketTask::Remove, s)
        } else {
            SocketStepView::Done(Some(task_failure(task, s, error@)))
        },
        Ok(()) => match task {
            SocketTask::CreateDirectory => SocketStepView::CheckExists(s),
            SocketTask::Connect => SocketStepView::Done(
                Some(
                    ErrorView::Config("control socket "@ + s.path + " is already in use"@),
                ),
            ),
            SocketTask::Remove => SocketStepView::Perform(SocketTask::Bind, s),
            SocketTask::Bind => SocketStepView::Perform(SocketTask::Restrict, s),
            SocketTask::Restrict => SocketStepView::Done(None),
        },
    }
}

/// How it goes on once it is known whether something is at the socket's path.
pub open spec fn existence_known(s: SocketView, exists: bool) -> SocketStepView {
    if exists {
        SocketStepView::Perform(SocketTask::Connect, s)
    } else {
        SocketStepView::Perform(SocketTask::Bind, s)
    }
}

/// Starts to take the socket into use.
pub fn bind_control_socket(path: &str) -> (r: SocketStep)
    ensures
        r@ == socket_start(path@),
{
    match parent_of(path) {
        Some(parent) => SocketStep::Perform(
            Performing { task: SocketTask::CreateDirectory, path: path.to_owned(), parent },
        ),
        None => SocketStep::CheckExists(
            Checking { path: path.to_owned(), parent: String::new() },
        ),
    }
}

fn task_error(task: SocketTask, path: &str, parent: &str, source: IoError) -> (r: Error)
    ensures
        r@ == task_failure(task, SocketView { path: path@, parent: parent@ }, source@),
{
    let mut context = match task {
        SocketTask::CreateDirectory => "failed to create socket directory ",
        SocketTask::Connect => "failed to inspect existing socket ",
        SocketTask::Remove => "failed to remove stale socket ",
        SocketTask::Bind => "failed to bind ",
        SocketTask::Restrict => "failed to set permissions on ",
    }.to_owned();
    if task == SocketTask::CreateDirectory {
        context.append(parent);
    } else {
        context.append(path);
    }
    Error::io(context, source)
}

impl Performing {
    /// The task.
    pub closed spec fn awaited(&self) -> SocketTask {
        self.task
    }

    /// What has to be done.
    pub fn task(&self) -> (r: SocketTask)
        ensures
            r == self.awaited(),
    {
        self.task
    }

    /// The path that it has to be done to.
    pub fn path(&self) -> (r: &str)
        ensures
            r@ == (if self.awaited() == SocketTask::CreateDirectory {
                self@.parent
            } else {
                self@.path
            }),
    {
        if self.task == SocketTask::CreateDirectory {
            self.parent.as_str()
        } else {
            self.path.as_str()
        }
    }

    /// Goes on with what came of it.
    pub fn resume(self, result: Result<(), IoError>) -> (r: SocketStep)
        ensures
            r@ == task_performed(self.awaited(), self@, result),
    {
        let Performing { task, path, parent } = self;
        match result {
            Err(error) => {
                if task == SocketTask::Connect && (error.kind == IoErrorKind::ConnectionRefused
                    || error.kind == IoErrorKind::NotFound) {
                    return SocketStep::Perform(
                        Performing { task: SocketTask::Remove, path, parent },
                    );
                }
                SocketStep::Done(Err(task_error(task, path.as_str(), parent.as_str(), error)))
            },
            Ok(()) => match task {
                SocketTask::CreateDirectory => SocketStep::CheckExists(Checking { path, parent }),
                SocketTask::Connect => {
                    let mut message = "control socket ".to_owned();
                    message.append(path.as_str());
                    message.append(" is already in use");
                    SocketStep::Done(Err(Error::Config(message)))
                },
                SocketTask::Remove => SocketStep::Perform(
                    Performing { task: SocketTask::Bind, path, parent },
                ),
                SocketTask::Bind => SocketStep::Perform(
                    Performing { task: SocketTask::Restrict, path, parent },
                ),
                SocketTask::Restrict => SocketStep::Done(Ok(())),
            },
        }
    }
}

impl Checking {
    /// The path at which something may be.
    pub fn path(&self) -> (r: &str)
        ensures
            r@ == self@.path,
    {
        self.path.as_str()
    }

    /// Goes on with whether something is there.
    pub fn resume(self, exists: bool) -> (r: SocketStep)
        ensures
            r@ == existence_known(self@, exists),
    {
        let Checking { path, parent } = self;
        let task = if exists {
            SocketTask::Connect
        } else {
            SocketTask::Bind
        };
        SocketStep::Perform(Performing { task, path, parent })
    }
}

/// What it is reported with that the socket could not be removed. One that is not there is as
/// good as removed.
pub open spec fn cleanup_failure(path: Seq<char>, removed: Result<(), IoError>) -> Option<ErrorView> {
    match removed {
        Ok(()) => None,
        Err(error) => if error.kind == IoErrorKind::NotFound {
            None
        } else {
            Some(
                ErrorView::Io {
                    context: "failed to remove control socket "@ + path,
                    source: error@,
                },
            )
        },
    }
}

/// What became of removing the socket.
pub fn cleanup_control_socket(path: &str, removed: Result<(), IoError>) -> (r: Result<(), Error>)
    ensures
        failure(r) == cleanup_failure(path@, removed),
{
    match removed {
        Ok(()) => Ok(()),
        Err(error) => {
            if error.kind == IoErrorKind::NotFound {
                Ok(())
            } else {
                let mut context = "failed to remove control socket ".to_owned();
                context.append(path);
                Err(Error::io(context, error))
            }
        },
    }
}

// ---- Laws ------------------------------------------------------------------------------------

/// What came of something that had to be done for the socket.
pub enum SocketReply {
    Performed(Result<(), IoError>),
    Exists(bool),
}

/// How it goes on with a reply. A reply to something that was not asked for changes nothing.
pub open spec fn socket_respond(step: SocketStepView, reply: SocketReply) -> SocketStepView {
    match (step, reply) {
        (SocketStepView::Perform(task, s), SocketReply::Performed(result)) => task_performed(
            task,
            s,
            result,
        ),
        (SocketStepView::CheckExists(s), SocketReply::Exists(exists)) => existence_known(s, exists),
        _ => step,
    }
}

/// The steps that some replies lead through.
pub open spec fn socket_run(step: SocketStepView, replies: Seq<SocketReply>) -> SocketStepView
    decreases replies.len(),
{
    if replies.len() == 0 {
        step
    } else {
        socket_respond(socket_run(step, replies.drop_last()), replies.last())
    }
}

/// Whatever is at the socket's path is removed only after an attempt to connect to it has shown
/// that nobody listens there.
pub proof fn law_a_socket_in_use_is_left_alone(path: Seq<char>, replies: Seq<SocketReply>)
    requires
        replies.len() > 0,
        socket_run(socket_start(path), replies) matches SocketStepView::Perform(
            SocketTask::Remove,
            _,
        ),
        !(socket_run(socket_start(path), replies.drop_last())
            matches SocketStepView::Perform(SocketTask::Remove, _)),
    ensures
        socket_run(socket_start(path), replies.drop_last())
            matches SocketStepView::Perform(SocketTask::Connect, _),
        replies.last() matches SocketReply::Performed(Err(error)) && stale(error@),
{
}

/// The socket is in use only with its permissions set: taking it into use ends well only after
/// the task that restricts it.
pub proof fn law_the_socket_is_restricted(path: Seq<char>, replies: Seq<SocketReply>)
    requires
        socket_run(socket_start(path), replies) == SocketStepView::Done(None),
    ensures
        exists|n: int|
            0 <= n < replies.len() && (socket_run(
                socket_start(path),
                #[trigger] replies.take(n),
            ) matches SocketStepView::Perform(SocketTask::Restrict, _)) && (
            replies[n] matches SocketReply::Performed(Ok(()))),
    decreases replies.len(),
{
    let start = socket_start(path);
    if replies.len() > 0 {
        let rest = replies.drop_last();
        if socket_run(start, rest) == SocketStepView::Done(None) {
            law_the_socket_is_restricted(path, rest);
            let n = choose|n: int|
                0 <= n < rest.len() && (socket_run(
                    start,
                    #[trigger] rest.take(n),
                ) matches SocketStepView::Perform(SocketTask::Restrict, _)) && (
                rest[n] matches SocketReply::Performed(Ok(())));
            assert(replies.take(n) =~= rest.take(n));
            assert(replies[n] == rest[n]);
        } else {
            let n = replies.len() - 1;
            assert(replies.take(n) =~= rest);
        }
    }
}

} // verus!
