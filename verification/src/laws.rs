//! The laws the two operations obey, stated over the transition functions
//! and proved once for every layout.

use vstd::prelude::*;

verus! {

use crate::base::{
    consistent, is_backed_up_only, is_clean, is_installed, is_orphaned, DirLayout,
};
use crate::install::{install_spec, FetchOutcome, InstallError, InstallEvents};
use crate::uninstall::{uninstall_spec, UninstallError};

/// Installing over an already-installed layout without `force` fails with
/// `AlreadyInstalled` and changes nothing, however often it is retried:
/// here twice in a row, with arbitrary outside events each time.
pub proof fn lemma_install_already_installed_unchanged(
    l: DirLayout,
    ev1: InstallEvents,
    ev2: InstallEvents,
)
    requires
        is_installed(l),
    ensures
        install_spec(l, false, ev1) == (Err::<(), InstallError>(InstallError::AlreadyInstalled), l),
        install_spec(install_spec(l, false, ev1).1, false, ev2) == (
            Err::<(), InstallError>(InstallError::AlreadyInstalled),
            l,
        ),
{
}

/// Round trip: on a fresh clean layout, a successful install followed by an
/// uninstall restores the original packaged archive unchanged and removes
/// the bundle directory, returning the layout to exactly where it started.
pub proof fn lemma_install_uninstall_round_trip(l: DirLayout, ev: InstallEvents)
    requires
        is_clean(l),
        l.app_asar is Some,
        l.scratch is None,
        ev.fetch matches FetchOutcome::Completed(c) && c is Some,
        ev.promote_ok,
    ensures
        install_spec(l, false, ev).0 is Ok,
        uninstall_spec(install_spec(l, false, ev).1, false).0 is Ok,
        uninstall_spec(install_spec(l, false, ev).1, false).1 == l,
{
}

/// Applying the patch to a clean directory that holds its packaged
/// archive, with the fetch landing a bundle and the promotion rename going
/// through, succeeds: the bundle directory holds the fetched content, the
/// original archive has moved — not been copied — into the backup slot,
/// the packaged archive's slot is empty, and the staging directory is
/// spent.
pub proof fn lemma_install_on_clean_success(l: DirLayout, ev: InstallEvents)
    requires
        is_clean(l),
        l.app_asar is Some,
        ev.fetch matches FetchOutcome::Completed(c) && c is Some,
        ev.promote_ok,
    ensures
        install_spec(l, false, ev).0 is Ok,
        is_installed(install_spec(l, false, ev).1),
        ev.fetch matches FetchOutcome::Completed(Some(b)) ==> install_spec(
            l,
            false,
            ev,
        ).1.app_dir == Some(b),
        install_spec(l, false, ev).1.orig_asar == l.app_asar,
        install_spec(l, false, ev).1.app_asar is None,
        install_spec(l, false, ev).1.scratch is None,
{
}

/// Resuming an interrupted install: on a backed-up-only layout another
/// install run never touches the backup or the packaged archive's slot
/// again — the backup step is skipped — and with a successful fetch and
/// promotion it completes into the installed state, the bundle directory
/// holding the fetched content.
pub proof fn lemma_install_resumes_after_backup(l: DirLayout, ev: InstallEvents)
    requires
        is_backed_up_only(l),
    ensures
        install_spec(l, false, ev).1.orig_asar == l.orig_asar,
        install_spec(l, false, ev).1.app_asar == l.app_asar,
        install_spec(l, false, ev).0 != Err::<(), InstallError>(InstallError::AlreadyInstalled),
        install_spec(l, false, ev).0 != Err::<(), InstallError>(InstallError::ArchiveMissing),
        ev.fetch matches FetchOutcome::Completed(Some(b)) ==> (ev.promote_ok ==> {
            &&& install_spec(l, false, ev).0 is Ok
            &&& is_installed(install_spec(l, false, ev).1)
            &&& install_spec(l, false, ev).1.app_dir == Some(b)
        }),
        ev.fetch is Failed ==> install_spec(l, false, ev) == (
            Err::<(), InstallError>(InstallError::Fetch),
            l,
        ),
{
}

/// Uninstalling a clean layout fails and changes nothing: without `force`
/// because the bundle directory is missing, and with `force` because no
/// backup exists to restore.
pub proof fn lemma_uninstall_on_clean(l: DirLayout)
    requires
        is_clean(l),
    ensures
        uninstall_spec(l, false) == (
            Err::<(), UninstallError>(UninstallError::NotInstalledAppMissing),
            l,
        ),
        uninstall_spec(l, true) == (Err::<(), UninstallError>(UninstallError::BackupMissing), l),
{
}

/// A failed fetch on a fresh clean layout leaves the recoverable
/// backed-up-only intermediate state: the original archive has moved into
/// the backup slot and no bundle directory exists, so another install run
/// can resume from here.
pub proof fn lemma_install_clean_fetch_failure_backs_up(l: DirLayout, ev: InstallEvents)
    requires
        is_clean(l),
        l.app_asar is Some,
        ev.fetch is Failed,
    ensures
        install_spec(l, false, ev).0 == Err::<(), InstallError>(InstallError::Fetch),
        is_backed_up_only(install_spec(l, false, ev).1),
        install_spec(l, false, ev).1.orig_asar == l.app_asar,
        install_spec(l, false, ev).1.app_asar is None,
{
}

/// An orphaned layout — a bundle directory but no backup — cannot be
/// reverted by this tool: without `force` the missing backup is named and
/// nothing moves; with `force` the bundle directory is removed and the run
/// still ends in the fatal missing-backup failure.
pub proof fn lemma_uninstall_on_orphaned(l: DirLayout)
    requires
        is_orphaned(l),
    ensures
        uninstall_spec(l, false) == (
            Err::<(), UninstallError>(UninstallError::NotInstalledBackupMissing),
            l,
        ),
        uninstall_spec(l, true).0 == Err::<(), UninstallError>(UninstallError::BackupMissing),
        uninstall_spec(l, true).1.app_dir is None,
        uninstall_spec(l, true).1.app_asar == l.app_asar,
        uninstall_spec(l, true).1.orig_asar is None,
{
}

/// The steady-state invariant is preserved by installing: a layout holding
/// at most one of the packaged archive and its backup still does, whatever
/// the flag and the outside events.
pub proof fn lemma_install_preserves_consistency(l: DirLayout, force: bool, ev: InstallEvents)
    requires
        consistent(l),
    ensures
        consistent(install_spec(l, force, ev).1),
{
}

/// The steady-state invariant is preserved by uninstalling.
pub proof fn lemma_uninstall_preserves_consistency(l: DirLayout, force: bool)
    requires
        consistent(l),
    ensures
        consistent(uninstall_spec(l, force).1),
{
}

} // verus!
