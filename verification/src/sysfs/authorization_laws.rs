//! What is written to let a device in or to keep it out, and what becomes of it.
use super::attributes::joined;
use super::authorization::{
    attempt_outcome, authorized_write, enforcement, settled, EnforcementOutcome, EnforcementView,
    WriteAttempt,
};
use super::UsbDeviceView;
use crate::error::{ErrorView, IoError, IoErrorKind};
use crate::policy::Action;
use vstd::prelude::*;

verus! {

/// A path below another is the two with a slash between them; a slash that is there already is
/// not doubled, and an absolute path stands for itself.
pub proof fn law_paths_below_others(base: Seq<char>, path: Seq<char>)
    ensures
        path.len() > 0 && path[0] == '/' ==> joined(base, path) == path,
        !(path.len() > 0 && path[0] == '/') && base.len() > 0 && base.last() != '/' ==> joined(
            base,
            path,
        ) == base + seq!['/'] + path,
        !(path.len() > 0 && path[0] == '/') && (base.len() == 0 || base.last() == '/') ==> joined(
            base,
            path,
        ) == base + path,
{
    assert(base.push('/') =~= base + seq!['/']);
}

/// To allow a device, `1` and a line feed are written to the file `authorized` below it; to block
/// it, `0` and a line feed are.
pub proof fn law_actions_are_written_to_the_device(d: UsbDeviceView, action: Action)
    ensures
        action == Action::Allow ==> authorized_write(d, action).value == seq!['1', '\n'],
        action == Action::Block ==> authorized_write(d, action).value == seq!['0', '\n'],
        d.sysfs_path.len() > 0 && d.sysfs_path.last() != '/' ==> authorized_write(d, action).path
            == d.sysfs_path + "/authorized"@,
{
    reveal_strlit("1\n");
    reveal_strlit("0\n");
    reveal_strlit("authorized");
    reveal_strlit("/authorized");
    assert("1\n"@ =~= seq!['1', '\n']);
    assert("0\n"@ =~= seq!['0', '\n']);
    assert("/authorized"@ =~= seq!['/'] + "authorized"@);
    assert(d.sysfs_path.push('/') + "authorized"@ =~= d.sysfs_path + (seq!['/']
        + "authorized"@));
}

/// A device is left alone exactly where it was read to be authorized and is to be allowed, or to
/// be not authorized and is to be blocked. One of which that is not known is written to, and so
/// is every device where the action is forced.
pub proof fn law_only_unsettled_devices_are_written(d: UsbDeviceView, action: Action)
    ensures
        enforcement(d, action, true) == EnforcementView::Write(authorized_write(d, action)),
        (d.authorized == Some(true) && action == Action::Allow) || (d.authorized == Some(false)
            && action == Action::Block) ==> enforcement(d, action, false)
            == EnforcementView::Settled(EnforcementOutcome::Applied) && settled(d, action),
        !((d.authorized == Some(true) && action == Action::Allow) || (d.authorized == Some(false)
            && action == Action::Block)) ==> enforcement(d, action, false)
            == EnforcementView::Write(authorized_write(d, action)) && !settled(d, action),
{
}

/// A failed attempt to write means that the device is gone exactly where the file was not found,
/// or where the operating system says that there is no such device. Any other failure is one.
pub proof fn law_attempts(path: Seq<char>, error: IoError)
    ensures
        attempt_outcome(path, WriteAttempt::Written) == Ok::<EnforcementOutcome, ErrorView>(
            EnforcementOutcome::Applied,
        ),
        ({
            let gone = error.kind == IoErrorKind::NotFound || error.os_code == Some(19i32);
            &&& gone ==> attempt_outcome(path, WriteAttempt::NotOpened(error)) == Ok::<
                EnforcementOutcome,
                ErrorView,
            >(EnforcementOutcome::DeviceGone)
            &&& gone ==> attempt_outcome(path, WriteAttempt::NotWritten(error)) == Ok::<
                EnforcementOutcome,
                ErrorView,
            >(EnforcementOutcome::DeviceGone)
            &&& !gone ==> attempt_outcome(path, WriteAttempt::NotOpened(error)) == Err::<
                EnforcementOutcome,
                ErrorView,
            >(ErrorView::Io { context: "failed to open "@ + path, source: error@ })
            &&& !gone ==> attempt_outcome(path, WriteAttempt::NotWritten(error)) == Err::<
                EnforcementOutcome,
                ErrorView,
            >(ErrorView::Io { context: "failed to write "@ + path, source: error@ })
        }),
{
}

} // verus!
