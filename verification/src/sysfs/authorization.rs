//! Authorizing a device, or refusing it.
use super::attributes::{join_path, joined};
use super::controllers::{write_error, write_failure};
use super::{UsbDevice, UsbDeviceView};
use crate::error::{
    classify_os_error, os_error, Error, ErrorView, IoError, IoErrorKind, IoErrorView, OsError,
};
use crate::policy::Action;
use vstd::prelude::*;

verus! {

/// What became of enforcing a decision.
#[derive(Clone, Copy, Debug, PartialEq, Eq, Structural)]
pub enum EnforcementOutcome {
    Applied,
    DeviceGone,
}

/// A value that has to be written to a file.
#[derive(Debug, PartialEq, Eq)]
pub struct AuthorizedWrite {
    pub path: String,
    pub value: String,
}

#[verifier::ext_equal]
pub struct AuthorizedWriteView {
    pub path: Seq<char>,
    pub value: Seq<char>,
}

impl View for AuthorizedWrite {
    type V = AuthorizedWriteView;

    open spec fn view(&self) -> AuthorizedWriteView {
        AuthorizedWriteView { path: self.path@, value: self.value@ }
    }
}

/// How a decision is enforced.
#[derive(Debug, PartialEq, Eq)]
pub enum Enforcement {
    /// Nothing has to be written.
    Settled(EnforcementOutcome),
    Write(AuthorizedWrite),
}

#[verifier::ext_equal]
pub enum EnforcementView {
    Settled(EnforcementOutcome),
    Write(AuthorizedWriteView),
}

impl View for Enforcement {
    type V = EnforcementView;

    open spec fn view(&self) -> EnforcementView {
        match self {
            Enforcement::Settled(outcome) => EnforcementView::Settled(*outcome),
            Enforcement::Write(write) => EnforcementView::Write(write@),
        }
    }
}

/// What came of an attempt to write the attribute.
#[derive(Debug, PartialEq, Eq)]
pub enum WriteAttempt {
    Written,
    NotOpened(IoError),
    NotWritten(IoError),
}

/// An action lets the device be used.
pub open spec fn authorizes(action: Action) -> bool {
    action == Action::Allow
}

/// The device has the authorization that the action asks for, by what was last read.
pub open spec fn settled(device: UsbDeviceView, action: Action) -> bool {
    device.authorized == Some(authorizes(action))
}

/// The write that carries an action out.
pub open spec fn authorized_write(device: UsbDeviceView, action: Action) -> AuthorizedWriteView {
    AuthorizedWriteView {
        path: joined(device.sysfs_path, "authorized"@),
        value: if authorizes(action) {
            "1\n"@
        } else {
            "0\n"@
        },
    }
}

/// How an action is enforced. Unless it is forced, a device is left alone that already has the
/// authorization.
pub open spec fn enforcement(device: UsbDeviceView, action: Action, force: bool) -> EnforcementView {
    if !force && settled(device, action) {
        EnforcementView::Settled(EnforcementOutcome::Applied)
    } else {
        EnforcementView::Write(authorized_write(device, action))
    }
}

/// The failure means that the device is gone.
pub open spec fn device_gone(error: IoErrorView) -> bool {
    error.kind == IoErrorKind::NotFound || (error.os_code is Some && os_error(error.os_code->0)
        == OsError::NoDevice)
}

/// The error of a file that could not be opened.
pub open spec fn open_failure(path: Seq<char>, source: IoErrorView) -> ErrorView {
    ErrorView::Io { context: "failed to open "@ + path, source }
}

/// What an attempt to write means for the enforcement.
pub open spec fn attempt_outcome(path: Seq<char>, attempt: WriteAttempt) -> Result<
    EnforcementOutcome,
    ErrorView,
> {
    match attempt {
        WriteAttempt::Written => Ok(EnforcementOutcome::Applied),
        WriteAttempt::NotOpened(error) => if device_gone(error@) {
            Ok(EnforcementOutcome::DeviceGone)
        } else {
            Err(open_failure(path, error@))
        },
        WriteAttempt::NotWritten(error) => if device_gone(error@) {
            Ok(EnforcementOutcome::DeviceGone)
        } else {
            Err(write_failure(path, error@))
        },
    }
}

/// The plain value of an outcome.
pub open spec fn outcome_result(r: Result<EnforcementOutcome, Error>) -> Result<
    EnforcementOutcome,
    ErrorView,
> {
    match r {
        Ok(outcome) => Ok(outcome),
        Err(error) => Err(error@),
    }
}

/// The write that carries an action out.
pub fn write_for(device: &UsbDevice, action: Action) -> (r: AuthorizedWrite)
    ensures
        r@ == authorized_write(device@, action),
{
    let value = if action.authorized() {
        "1\n"
    } else {
        "0\n"
    };
    AuthorizedWrite {
        path: join_path(device.sysfs_path.as_str(), "authorized"),
        value: value.to_owned(),
    }
}

fn write_authorized(device: &UsbDevice, action: Action, force: bool) -> (r: Enforcement)
    ensures
        r@ == enforcement(device@, action, force),
{
    let desired = action.authorized();
    if !force {
        if let Some(authorized) = device.authorized {
            if authorized == desired {
                return Enforcement::Settled(EnforcementOutcome::Applied);
            }
        }
    }
    Enforcement::Write(write_for(device, action))
}

/// Enforces an action on a device that does not have the authorization yet.
pub fn apply_authorization(device: &UsbDevice, action: Action) -> (r: Enforcement)
    ensures
        r@ == enforcement(device@, action, false),
{
    write_authorized(device, action, false)
}

/// Enforces an action whatever was last read of the device.
pub fn force_authorization(device: &UsbDevice, action: Action) -> (r: Enforcement)
    ensures
        r@ == enforcement(device@, action, true),
{
    write_authorized(device, action, true)
}

/// Goes through the enforcement of an action without touching the device.
pub fn preview_authorization(_device: &UsbDevice, _action: Action) -> (r: EnforcementOutcome)
    ensures
        r == EnforcementOutcome::Applied,
{
    EnforcementOutcome::Applied
}

/// The failure means that the device is gone.
pub fn is_device_gone(error: &IoError) -> (r: bool)
    ensures
        r == device_gone(error@),
{
    if error.kind == IoErrorKind::NotFound {
        return true;
    }
    match error.os_code {
        Some(code) => classify_os_error(code) == OsError::NoDevice,
        None => false,
    }
}

/// What an attempt to write the attribute at `path` means for the enforcement.
pub fn enforcement_outcome(path: &str, attempt: WriteAttempt) -> (r: Result<
    EnforcementOutcome,
    Error,
>)
    ensures
        outcome_result(r) == attempt_outcome(path@, attempt),
{
    match attempt {
        WriteAttempt::Written => Ok(EnforcementOutcome::Applied),
        WriteAttempt::NotOpened(error) => {
            if is_device_gone(&error) {
                Ok(EnforcementOutcome::DeviceGone)
            } else {
                let mut context = "failed to open ".to_owned();
                context.append(path);
                Err(Error::io(context, error))
            }
        },
        WriteAttempt::NotWritten(error) => {
            if is_device_gone(&error) {
                Ok(EnforcementOutcome::DeviceGone)
            } else {
                Err(write_error(path, error))
            }
        },
    }
}

} // verus!
