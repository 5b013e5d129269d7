//! The installation state: the on-disk layout of the target application's
//! install directory, and the paths an operation works with.

use vstd::prelude::*;

verus! {

use crate::helpers::{
    join_path, join_spec, parse_i32_or_zero, parse_int_or_zero, remove_char_occurrences,
    remove_chars, starts_with, starts_with_spec, trim_trailing,
};
use vstd::string::*;

/// A model of the filesystem locations this tool reads and writes.
///
/// Each field stands for one location; `Some(tag)` means the location exists
/// and holds content named by the opaque tag, `None` means it is absent. Two
/// locations hold identical bytes exactly when their tags are equal, so a
/// rename moves a tag unchanged from one field to another.
///
/// - `app_dir`: the directory slot where the patch bundle lives when
///   installed (`install_path/app`).
/// - `app_asar`: the packaged resource archive the target application loads
///   (`install_path/app.asar`).
/// - `orig_asar`: the backup of the original packaged archive
///   (`install_path/original.asar`).
/// - `scratch`: the ephemeral staging directory owned by one
///   `LunaInstall` instance, where fetched content lands before promotion.
#[derive(Clone, Copy)]
pub struct DirLayout {
    pub app_dir: Option<u64>,
    pub app_asar: Option<u64>,
    pub orig_asar: Option<u64>,
    pub scratch: Option<u64>,
}

/// The uninstalled baseline: no patch bundle, no backup; the target uses
/// `app.asar` directly.
pub open spec fn is_clean(l: DirLayout) -> bool {
    l.app_dir is None && l.orig_asar is None
}

/// The patch is active: the bundle directory and the backup both exist.
pub open spec fn is_installed(l: DirLayout) -> bool {
    l.app_dir is Some && l.orig_asar is Some
}

/// An interrupted install: the original archive was backed up, but the
/// bundle was never promoted. Recoverable by running the install again.
pub open spec fn is_backed_up_only(l: DirLayout) -> bool {
    l.app_dir is None && l.orig_asar is Some
}

/// An interrupted uninstall or manual tampering: a bundle directory exists
/// but no backup does. Not recoverable by this tool alone.
pub open spec fn is_orphaned(l: DirLayout) -> bool {
    l.app_dir is Some && l.orig_asar is None
}

/// The steady-state invariant: at most one of the packaged archive and its
/// backup is present. Both present signals a corrupted install directory.
pub open spec fn consistent(l: DirLayout) -> bool {
    !(l.app_asar is Some && l.orig_asar is Some)
}

/// Why an install directory was rejected at construction time.
#[derive(Clone, Copy, Debug, PartialEq, Eq, Structural)]
pub enum StateError {
    /// The given install path does not exist.
    PathDoesNotExist,
    /// The given install path exists but is not a directory.
    PathNotADirectory,
}

/// One target application's install directory: the resolved paths every
/// operation works with, and the layout model describing what is on disk.
pub struct LunaInstall {
    /// The ephemeral staging directory owned by this instance.
    pub temp_path: String,
    /// The root directory of the target application's resources.
    pub install_path: String,
    /// `install_path/app`: where the patch bundle lives when installed.
    pub app_path: String,
    /// `install_path/app.asar`: where the target expects its packaged
    /// archive.
    pub app_asar_path: String,
    /// `install_path/original.asar`: the backup slot for the original
    /// archive.
    pub orig_asar_path: String,
    /// The model of what is on disk at those locations.
    pub layout: DirLayout,
}

impl LunaInstall {
    /// Builds the installation state for a resolved install directory.
    ///
    /// The caller probes the filesystem and reports whether the path exists
    /// and is a directory; construction succeeds exactly when both hold, and
    /// otherwise says which check failed. `temp_path` is the freshly
    /// allocated scratch directory, and `layout` describes what the caller
    /// found on disk.
    pub fn new(
        install_path: String,
        path_exists: bool,
        path_is_dir: bool,
        temp_path: String,
        layout: DirLayout,
    ) -> (r: Result<LunaInstall, StateError>)
        ensures
            r is Ok <==> path_exists && path_is_dir,
            !path_exists ==> r == Err::<LunaInstall, StateError>(StateError::PathDoesNotExist),
            path_exists && !path_is_dir ==> r == Err::<LunaInstall, StateError>(
                StateError::PathNotADirectory,
            ),
            r matches Ok(s) ==> {
                &&& s.install_path@ == install_path@
                &&& s.temp_path@ == temp_path@
                &&& s.app_path@ == join_spec(install_path@, "app"@)
                &&& s.app_asar_path@ == join_spec(install_path@, "app.asar"@)
                &&& s.orig_asar_path@ == join_spec(install_path@, "original.asar"@)
                &&& s.layout == layout
            },
    {
        if !path_exists {
            return Err(StateError::PathDoesNotExist);
        }
        if !path_is_dir {
            return Err(StateError::PathNotADirectory);
        }
        let app_path = join_path(install_path.as_str(), "app");
        let app_asar_path = join_path(install_path.as_str(), "app.asar");
        let orig_asar_path = join_path(install_path.as_str(), "original.asar");
        Ok(LunaInstall {
            temp_path,
            install_path,
            app_path,
            app_asar_path,
            orig_asar_path,
            layout,
        })
    }

    /// True exactly when the patch is considered installed: the bundle
    /// directory and the backup both exist. If only one is present the
    /// directory is in an inconsistent intermediate state, not merely
    /// "not installed".
    pub fn installed(&self) -> (r: bool)
        ensures
            r == is_installed(self.layout),
    {
        self.layout.orig_asar.is_some() && self.layout.app_dir.is_some()
    }

    /// An installation state over a pretend install directory: fixed mock
    /// paths and an empty layout, for exercising the operations without a
    /// real filesystem.
    pub fn mock() -> (r: LunaInstall)
        ensures
            r.install_path@ == "mock-install"@,
            r.temp_path@ == "mock-temp"@,
            r.app_path@ == join_spec("mock-install"@, "app"@),
            r.app_asar_path@ == join_spec("mock-install"@, "app.asar"@),
            r.orig_asar_path@ == join_spec("mock-install"@, "original.asar"@),
            r.layout.app_dir is None,
            r.layout.app_asar is None,
            r.layout.orig_asar is None,
            r.layout.scratch is None,
    {
        let install_path = String::from_str("mock-install");
        let app_path = join_path(install_path.as_str(), "app");
        let app_asar_path = join_path(install_path.as_str(), "app.asar");
        let orig_asar_path = join_path(install_path.as_str(), "original.asar");
        LunaInstall {
            temp_path: String::from_str("mock-temp"),
            install_path,
            app_path,
            app_asar_path,
            orig_asar_path,
            layout: DirLayout { app_dir: None, app_asar: None, orig_asar: None, scratch: None },
        }
    }
}

/// The version number a directory entry advertises: for a name of the form
/// `app-<version>`, the `<version>` part with trailing `/` stripped and the
/// dots removed, read as a 32-bit integer; zero for every other name and
/// for a version that does not parse.
pub open spec fn entry_version(name: Seq<char>) -> int {
    if starts_with_spec(name, "app-"@) {
        parse_i32_or_zero(remove_chars(trim_trailing(name.skip("app-"@.len() as int), '/'), '.'))
    } else {
        0
    }
}

/// Computes the version number a directory entry advertises, exactly as
/// `entry_version` says.
pub fn entry_version_of(name: &str) -> (v: i32)
    ensures
        v as int == entry_version(name@),
{
    if !starts_with(name, "app-") {
        return 0;
    }
    proof {
        reveal_strlit("app-");
    }
    let n = name.unicode_len();
    let rest = name.substring_char(4, n);
    proof {
        assert(rest@ =~= name@.skip(4));
    }
    let mut end = rest.unicode_len();
    proof {
        assert(rest@.subrange(0, end as int) =~= rest@);
    }
    while end > 0 && rest.get_char(end - 1) == '/'
        invariant
            end <= rest@.len(),
            trim_trailing(rest@, '/') == trim_trailing(rest@.subrange(0, end as int), '/'),
        decreases end,
    {
        proof {
            assert(rest@.subrange(0, end as int).drop_last() =~= rest@.subrange(0, end - 1));
            assert(rest@.subrange(0, end as int).last() == rest@[end - 1]);
        }
        end -= 1;
    }
    proof {
        if end > 0 {
            assert(rest@.subrange(0, end as int).last() == rest@[end as int - 1]);
        }
        assert(trim_trailing(rest@, '/') == rest@.subrange(0, end as int));
    }
    let trimmed = rest.substring_char(0, end);
    let digits = remove_char_occurrences(trimmed, '.');
    parse_int_or_zero(&digits)
}

/// Picks the directory entry that advertises the greatest version.
///
/// Yields `None` when no entry advertises a positive version; otherwise the
/// first entry, in listing order, that attains the greatest advertised
/// version.
pub fn find_latest_version(names: &Vec<String>) -> (r: Option<String>)
    ensures
        r is None ==> forall|k: int|
            0 <= k < names@.len() ==> entry_version(#[trigger] names@[k]@) <= 0,
        r matches Some(s) ==> exists|i: int|
            {
                &&& 0 <= i < names@.len()
                &&& names@[i]@ == s@
                &&& entry_version(#[trigger] names@[i]@) > 0
                &&& forall|k: int|
                    0 <= k < names@.len() ==> entry_version(#[trigger] names@[k]@) <= entry_version(
                        names@[i]@,
                    )
                &&& forall|k: int|
                    0 <= k < i ==> entry_version(#[trigger] names@[k]@) < entry_version(
                        names@[i]@,
                    )
            },
{
    let mut best_idx: usize = 0;
    let mut best_val: i32 = 0;
    let mut i: usize = 0;
    while i < names.len()
        invariant
            i <= names@.len(),
            best_val >= 0,
            best_val == 0 ==> forall|k: int|
                0 <= k < i ==> entry_version(#[trigger] names@[k]@) <= 0,
            best_val > 0 ==> {
                &&& best_idx < i
                &&& best_val as int == entry_version(names@[best_idx as int]@)
                &&& forall|k: int|
                    0 <= k < i ==> entry_version(#[trigger] names@[k]@) <= best_val as int
                &&& forall|k: int|
                    0 <= k < best_idx ==> entry_version(#[trigger] names@[k]@) < best_val as int
            },
        decreases names@.len() - i,
    {
        let v = entry_version_of(names[i].as_str());
        if v > best_val {
            best_val = v;
            best_idx = i;
        }
        i += 1;
    }
    if best_val > 0 {
        let chosen = names[best_idx].clone();
        proof {
            assert(names@[best_idx as int]@ == chosen@);
        }
        Some(chosen)
    } else {
        None
    }
}

} // verus!
