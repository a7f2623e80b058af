//! The errors of the library and the failures of input and output that reach it as plain values.
use vstd::prelude::*;

verus! {

/// The kinds of input and output failures that decisions depend on.
#[derive(Clone, Copy, Debug, PartialEq, Eq, Structural)]
pub enum IoErrorKind {
    NotFound,
    ConnectionRefused,
    WouldBlock,
    Other,
}

/// A failed input or output operation: its kind, the error number that the operating system gave
/// where it gave one, and the text that describes it.
#[derive(Debug, PartialEq, Eq)]
pub struct IoError {
    pub kind: IoErrorKind,
    pub os_code: Option<i32>,
    pub message: String,
}

#[verifier::ext_equal]
pub struct IoErrorView {
    pub kind: IoErrorKind,
    pub os_code: Option<i32>,
    pub message: Seq<char>,
}

impl View for IoError {
    type V = IoErrorView;

    open spec fn view(&self) -> IoErrorView {
        IoErrorView { kind: self.kind, os_code: self.os_code, message: self.message@ }
    }
}

/// The error numbers of the operating system that decisions depend on.
#[derive(Clone, Copy, Debug, PartialEq, Eq, Structural)]
pub enum OsError {
    Interrupted,
    TryAgain,
    NoDevice,
    Other,
}

/// What an error number stands for, with the numbers of Linux.
pub open spec fn os_error(code: i32) -> OsError {
    if code == 4 {
        OsError::Interrupted
    } else if code == 11 {
        OsError::TryAgain
    } else if code == 19 {
        OsError::NoDevice
    } else {
        OsError::Other
    }
}

/// `nix::errno::Errno::from_raw` names an error number. On Linux the numbers of `EINTR`, `EAGAIN`
/// and `ENODEV` are 4, 11 and 19, and no other number has these names.
#[verifier::external_body]
pub(crate) fn classify_os_error(code: i32) -> (r: OsError)
    ensures
        r == os_error(code),
{
    match nix::errno::Errno::from_raw(code) {
        nix::errno::Errno::EINTR => OsError::Interrupted,
        nix::errno::Errno::EAGAIN => OsError::TryAgain,
        nix::errno::Errno::ENODEV => OsError::NoDevice,
        _ => OsError::Other,
    }
}

/// Whatever the daemon or the command line tool can fail with.
#[derive(Debug, PartialEq, Eq)]
pub enum Error {
    Io { context: String, source: IoError },
    Config(String),
    Policy(String),
    Protocol(String),
    Usage(String),
}

#[verifier::ext_equal]
pub enum ErrorView {
    Io { context: Seq<char>, source: IoErrorView },
    Config(Seq<char>),
    Policy(Seq<char>),
    Protocol(Seq<char>),
    Usage(Seq<char>),
}

impl View for Error {
    type V = ErrorView;

    open spec fn view(&self) -> ErrorView {
        match self {
            Error::Io { context, source } => ErrorView::Io { context: context@, source: source@ },
            Error::Config(message) => ErrorView::Config(message@),
            Error::Policy(message) => ErrorView::Policy(message@),
            Error::Protocol(message) => ErrorView::Protocol(message@),
            Error::Usage(message) => ErrorView::Usage(message@),
        }
    }
}

/// The text that an error is reported with.
pub open spec fn error_text(error: ErrorView) -> Seq<char> {
    match error {
        ErrorView::Io { context, source } => context + ": "@ + source.message,
        ErrorView::Config(message) => "configuration error: "@ + message,
        ErrorView::Policy(message) => "policy error: "@ + message,
        ErrorView::Protocol(message) => "protocol error: "@ + message,
        ErrorView::Usage(message) => message,
    }
}

/// The error of a check, where it failed.
pub open spec fn failure(r: Result<(), Error>) -> Option<ErrorView> {
    match r {
        Ok(()) => None,
        Err(error) => Some(error@),
    }
}

/// The first of two checks that failed.
pub open spec fn first_failure(a: Option<ErrorView>, b: Option<ErrorView>) -> Option<ErrorView> {
    if a is Some {
        a
    } else {
        b
    }
}

impl Error {
    /// The error of a failed operation, with what was being done.
    pub fn io(context: String, source: IoError) -> (r: Self)
        ensures
            r@ == (ErrorView::Io { context: context@, source: source@ }),
    {
        Error::Io { context, source }
    }

    /// The text that the error is reported with.
    pub fn message(&self) -> (r: String)
        ensures
            r@ == error_text(self@),
    {
        let mut r = String::new();
        match self {
            Error::Io { context, source } => {
                r.append(context.as_str());
                r.append(": ");
                r.append(source.message.as_str());
            },
            Error::Config(message) => {
                r.append("configuration error: ");
                r.append(message.as_str());
            },
            Error::Policy(message) => {
                r.append("policy error: ");
                r.append(message.as_str());
            },
            Error::Protocol(message) => {
                r.append("protocol error: ");
                r.append(message.as_str());
            },
            Error::Usage(message) => {
                r.append(message.as_str());
            },
        }
        assert(r@ =~= error_text(self@));
        r
    }
}

} // verus!
