use lunactl::base::LunaInstall;
use lunactl::install::{install, FetchOutcome, InstallEvents};
use lunactl::uninstall::{uninstall, UninstallError};

#[test]
fn test_uninstall() {
    let mut luna = LunaInstall::mock();
    luna.layout.app_dir = Some(9);
    luna.layout.orig_asar = Some(7);

    assert!(uninstall(&mut luna, false).is_ok());

    assert!(luna.layout.app_dir.is_none());
    assert!(luna.layout.orig_asar.is_none());
    assert!(luna.layout.app_asar.is_some());
}

#[test]
fn test_uninstall_no_installation() {
    let mut luna = LunaInstall::mock();
    luna.layout.app_dir = Some(9);

    assert!(uninstall(&mut luna, true).is_err());

    assert!(luna.layout.app_dir.is_none());
}

#[test]
fn uninstall_restores_the_original_archive() {
    let mut luna = LunaInstall::mock();
    luna.layout.app_dir = Some(9);
    luna.layout.orig_asar = Some(7);

    assert_eq!(uninstall(&mut luna, false), Ok(()));

    assert_eq!(luna.layout.app_dir, None);
    assert_eq!(luna.layout.app_asar, Some(7));
    assert_eq!(luna.layout.orig_asar, None);
}

#[test]
fn uninstall_on_clean_without_force_names_the_missing_app() {
    let mut luna = LunaInstall::mock();
    luna.layout.app_asar = Some(7);

    assert_eq!(uninstall(&mut luna, false), Err(UninstallError::NotInstalledAppMissing));
    assert_eq!(luna.layout.app_asar, Some(7));
    assert_eq!(luna.layout.app_dir, None);
    assert_eq!(luna.layout.orig_asar, None);
}

#[test]
fn uninstall_on_clean_with_force_still_fails_on_the_missing_backup() {
    let mut luna = LunaInstall::mock();
    luna.layout.app_asar = Some(7);

    assert_eq!(uninstall(&mut luna, true), Err(UninstallError::BackupMissing));
    assert_eq!(luna.layout.app_asar, Some(7));
    assert_eq!(luna.layout.app_dir, None);
    assert_eq!(luna.layout.orig_asar, None);
}

#[test]
fn uninstall_without_backup_names_it_when_not_forced() {
    let mut luna = LunaInstall::mock();
    luna.layout.app_dir = Some(9);

    assert_eq!(uninstall(&mut luna, false), Err(UninstallError::NotInstalledBackupMissing));
    assert_eq!(luna.layout.app_dir, Some(9));
}

#[test]
fn forced_uninstall_without_backup_still_removes_the_bundle() {
    let mut luna = LunaInstall::mock();
    luna.layout.app_dir = Some(9);

    assert_eq!(uninstall(&mut luna, true), Err(UninstallError::BackupMissing));
    assert_eq!(luna.layout.app_dir, None);
    assert_eq!(luna.layout.app_asar, None);
    assert_eq!(luna.layout.orig_asar, None);
}

#[test]
fn install_then_uninstall_restores_the_clean_layout() {
    let mut luna = LunaInstall::mock();
    luna.layout.app_asar = Some(42);

    let ev = InstallEvents { fetch: FetchOutcome::Completed(Some(9)), promote_ok: true };
    assert_eq!(install(&mut luna, false, ev), Ok(()));
    assert_eq!(uninstall(&mut luna, false), Ok(()));

    assert_eq!(luna.layout.app_asar, Some(42));
    assert_eq!(luna.layout.app_dir, None);
    assert_eq!(luna.layout.orig_asar, None);
    assert_eq!(luna.layout.scratch, None);
}
