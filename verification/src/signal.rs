//! Taking the signals that end the daemon.
use crate::error::{classify_os_error, os_error, Error, ErrorView, IoError, OsError};
use vstd::prelude::*;

verus! {

/// Signals are being taken off their descriptor.
#[derive(Debug)]
pub struct SignalDrain {
    saw_signal: bool,
}

/// How taking them goes on.
#[derive(Debug)]
pub enum SignalStep {
    /// The next signal has to be read.
    Read(SignalDrain),
    /// None is left. Says whether there was one.
    Done(Result<bool, Error>),
}

#[verifier::ext_equal]
pub enum SignalStepView {
    Read(bool),
    Done(Result<bool, ErrorView>),
}

impl View for SignalStep {
    type V = SignalStepView;

    open spec fn view(&self) -> SignalStepView {
        match self {
            SignalStep::Read(drain) => SignalStepView::Read(drain.seen()),
            SignalStep::Done(Ok(found)) => SignalStepView::Done(Ok(*found)),
            SignalStep::Done(Err(error)) => SignalStepView::Done(Err(error@)),
        }
    }
}

/// How it goes on with what came of reading a signal: whether there was one. An interruption is
/// no end of it.
pub open spec fn signal_read(seen: bool, read: Result<bool, IoError>) -> SignalStepView {
    match read {
        Ok(found) => if found {
            SignalStepView::Read(true)
        } else {
            SignalStepView::Done(Ok(seen))
        },
        Err(error) => if error.os_code is Some && os_error(error.os_code->0)
            == OsError::Interrupted {
            SignalStepView::Read(seen)
        } else {
            SignalStepView::Done(
                Err(
                    ErrorView::Io {
                        context: "failed to read shutdown signal descriptor"@,
                        source: error@,
                    },
                ),
            )
        },
    }
}

impl SignalDrain {
    /// There was a signal already.
    pub closed spec fn seen(&self) -> bool {
        self.saw_signal
    }

    pub fn start() -> (r: Self)
        ensures
            !r.seen(),
    {
        SignalDrain { saw_signal: false }
    }

    /// Goes on with what came of reading a signal: whether there was one.
    pub fn resume(self, read: Result<bool, IoError>) -> (r: SignalStep)
        ensures
            r@ == signal_read(self.seen(), read),
    {
        match read {
            Ok(found) => {
                if found {
                    SignalStep::Read(SignalDrain { saw_signal: true })
                } else {
                    SignalStep::Done(Ok(self.saw_signal))
                }
            },
            Err(error) => {
                if let Some(code) = error.os_code {
                    if classify_os_error(code) == OsError::Interrupted {
                        return SignalStep::Read(self);
                    }
                }
                SignalStep::Done(
                    Err(Error::io("failed to read shutdown signal descriptor".to_owned(), error)),
                )
            },
        }
    }
}

} // verus!
