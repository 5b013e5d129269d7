//! Reverting the patch: removing the bundle and restoring the original
//! archive.

use vstd::prelude::*;

verus! {

use crate::base::DirLayout;
use crate::base::LunaInstall;

/// Why reverting the patch failed.
#[derive(Clone, Copy, Debug, PartialEq, Eq, Structural)]
pub enum UninstallError {
    /// The bundle directory is absent and `force` was not given.
    NotInstalledAppMissing,
    /// The backup of the original archive is absent and `force` was not
    /// given.
    NotInstalledBackupMissing,
    /// No backup exists to restore. Never suppressed by `force`: the run
    /// stops here because finishing without any packaged archive would
    /// break the target application, which then needs a manual reinstall.
    BackupMissing,
}

/// The uninstall transition. Given the directory layout and the `force`
/// flag, yields the operation's result and the layout it leaves behind:
///
/// 1. Without `force`, a missing bundle directory or a missing backup fails
///    the run before anything is touched, naming the piece that is missing.
/// 2. The bundle directory is removed.
/// 3. The backup is renamed back over the packaged archive's slot; when no
///    backup exists the run fails even under `force`, after the bundle
///    directory has already been removed.
pub open spec fn uninstall_spec(l: DirLayout, force: bool) -> (Result<(), UninstallError>, DirLayout) {
    if !force && l.app_dir is None {
        (Err(UninstallError::NotInstalledAppMissing), l)
    } else if !force && l.orig_asar is None {
        (Err(UninstallError::NotInstalledBackupMissing), l)
    } else {
        let removed = DirLayout {
            app_dir: None,
            app_asar: l.app_asar,
            orig_asar: l.orig_asar,
            scratch: l.scratch,
        };
        if removed.orig_asar is Some {
            (
                Ok(()),
                DirLayout {
                    app_dir: None,
                    app_asar: removed.orig_asar,
                    orig_asar: None,
                    scratch: removed.scratch,
                },
            )
        } else {
            (Err(UninstallError::BackupMissing), removed)
        }
    }
}

/// Reverts the patch on the modelled install directory.
///
/// The layout moves exactly as `uninstall_spec` says for the given flag;
/// the resolved paths are untouched.
pub fn uninstall(luna: &mut LunaInstall, force: bool) -> (r: Result<(), UninstallError>)
    ensures
        (r, final(luna).layout) == uninstall_spec(old(luna).layout, force),
        final(luna).temp_path == old(luna).temp_path,
        final(luna).install_path == old(luna).install_path,
        final(luna).app_path == old(luna).app_path,
        final(luna).app_asar_path == old(luna).app_asar_path,
        final(luna).orig_asar_path == old(luna).orig_asar_path,
{
    if !force {
        if luna.layout.app_dir.is_none() {
            return Err(UninstallError::NotInstalledAppMissing);
        }
        if luna.layout.orig_asar.is_none() {
            return Err(UninstallError::NotInstalledBackupMissing);
        }
    }
    luna.layout.app_dir = None;
    if luna.layout.orig_asar.is_some() {
        luna.layout.app_asar = luna.layout.orig_asar;
        luna.layout.orig_asar = None;
        Ok(())
    } else {
        Err(UninstallError::BackupMissing)
    }
}

} // verus!
