//! Applying the patch: the backup-fetch-promote transition, and the
//! selection of a release to download.

use vstd::prelude::*;

verus! {

use crate::base::DirLayout;
use crate::base::LunaInstall;
use crate::helpers::{contains_seq, contains_substr};

/// Why applying the patch failed.
#[derive(Clone, Copy, Debug, PartialEq, Eq, Structural)]
pub enum InstallError {
    /// The bundle directory already exists and `force` was not given.
    AlreadyInstalled,
    /// Neither the packaged archive nor a backup of it is present, so there
    /// is nothing to back up and nothing to patch. The install directory
    /// needs a manual reinstall of the target application.
    ArchiveMissing,
    /// The fetch collaborator failed to download or extract the bundle.
    Fetch,
    /// The fetch reported success but the extracted bundle never landed in
    /// the staging directory.
    CorruptArchive,
    /// The final rename of the staged bundle into its live location failed.
    Promotion,
}

/// What the fetch collaborator did: it either failed outright, or completed
/// and left the staging directory holding the given content (`None` when
/// nothing landed there despite the reported completion).
#[derive(Clone, Copy, Debug, PartialEq, Eq)]
pub enum FetchOutcome {
    Failed,
    Completed(Option<u64>),
}

/// The outside events an install run depends on: what the fetch did, and
/// whether the final promotion rename went through.
#[derive(Clone, Copy)]
pub struct InstallEvents {
    pub fetch: FetchOutcome,
    pub promote_ok: bool,
}

/// The install transition. Given the directory layout, the `force` flag and
/// the outside events, yields the operation's result and the layout it
/// leaves behind:
///
/// 1. An existing bundle directory fails the run unless `force` is given,
///    in which case it is removed first.
/// 2. The packaged archive is renamed into the backup slot unless a backup
///    already exists (so an interrupted run can be resumed); when neither
///    archive is present the run fails with nothing changed but the forced
///    removal.
/// 3. A failed fetch leaves the backup in place: the recoverable
///    backed-up-but-not-installed intermediate state.
/// 4. A fetch that completes without content in the staging directory fails
///    the run without further changes.
/// 5. Promotion moves the staged bundle into the live slot; its failure
///    leaves the staged content and the backup behind.
pub open spec fn install_spec(l: DirLayout, force: bool, ev: InstallEvents) -> (Result<
    (),
    InstallError,
>, DirLayout) {
    if l.app_dir is Some && !force {
        (Err(InstallError::AlreadyInstalled), l)
    } else {
        let removed = DirLayout {
            app_dir: None,
            app_asar: l.app_asar,
            orig_asar: l.orig_asar,
            scratch: l.scratch,
        };
        if removed.orig_asar is None && removed.app_asar is None {
            (Err(InstallError::ArchiveMissing), removed)
        } else {
            let backed = if removed.orig_asar is Some {
                removed
            } else {
                DirLayout {
                    app_dir: None,
                    app_asar: None,
                    orig_asar: removed.app_asar,
                    scratch: removed.scratch,
                }
            };
            match ev.fetch {
                FetchOutcome::Failed => (Err(InstallError::Fetch), backed),
                FetchOutcome::Completed(content) => {
                    let fetched = DirLayout {
                        app_dir: backed.app_dir,
                        app_asar: backed.app_asar,
                        orig_asar: backed.orig_asar,
                        scratch: content,
                    };
                    match content {
                        None => (Err(InstallError::CorruptArchive), fetched),
                        Some(bundle) => if ev.promote_ok {
                            (
                                Ok(()),
                                DirLayout {
                                    app_dir: Some(bundle),
                                    app_asar: fetched.app_asar,
                                    orig_asar: fetched.orig_asar,
                                    scratch: None,
                                },
                            )
                        } else {
                            (Err(InstallError::Promotion), fetched)
                        },
                    }
                },
            }
        }
    }
}

/// Applies the patch to the modelled install directory.
///
/// The layout moves exactly as `install_spec` says for the given flag and
/// events; the resolved paths are untouched.
pub fn install(luna: &mut LunaInstall, force: bool, ev: InstallEvents) -> (r: Result<
    (),
    InstallError,
>)
    ensures
        (r, final(luna).layout) == install_spec(old(luna).layout, force, ev),
        final(luna).temp_path == old(luna).temp_path,
        final(luna).install_path == old(luna).install_path,
        final(luna).app_path == old(luna).app_path,
        final(luna).app_asar_path == old(luna).app_asar_path,
        final(luna).orig_asar_path == old(luna).orig_asar_path,
{
    if luna.layout.app_dir.is_some() && !force {
        return Err(InstallError::AlreadyInstalled);
    }
    luna.layout.app_dir = None;
    if luna.layout.orig_asar.is_none() {
        if luna.layout.app_asar.is_none() {
            return Err(InstallError::ArchiveMissing);
        }
        luna.layout.orig_asar = luna.layout.app_asar;
        luna.layout.app_asar = None;
    }
    match ev.fetch {
        FetchOutcome::Failed => Err(InstallError::Fetch),
        FetchOutcome::Completed(content) => {
            luna.layout.scratch = content;
            match content {
                None => Err(InstallError::CorruptArchive),
                Some(bundle) => {
                    if ev.promote_ok {
                        luna.layout.app_dir = Some(bundle);
                        luna.layout.scratch = None;
                        Ok(())
                    } else {
                        Err(InstallError::Promotion)
                    }
                },
            }
        },
    }
}

/// One downloadable file attached to a published release.
pub struct GithubAsset {
    pub name: String,
    pub browser_download_url: String,
}

/// One published release of the patch bundle, as the release metadata
/// lists it.
pub struct GithubRelease {
    pub tag_name: String,
    pub prerelease: bool,
    pub draft: bool,
    pub assets: Vec<GithubAsset>,
}

/// Whether this asset is the patch bundle: its name mentions `luna.zip`.
pub open spec fn asset_matches(a: GithubAsset) -> bool {
    contains_seq(a.name@, "luna.zip"@)
}

/// Whether this release is usable: its prerelease flag is as requested and
/// some asset of it is the patch bundle.
pub open spec fn release_matches(r: GithubRelease, want_prerelease: bool) -> bool {
    r.prerelease == want_prerelease && exists|j: int|
        0 <= j < r.assets@.len() && asset_matches(#[trigger] r.assets@[j])
}

/// The release and asset `select_release` picked: the asset at `j` of the
/// release at `i`, the first usable release in listing order and its first
/// bundle asset, with the chosen tag and download location.
pub open spec fn selected_release(
    releases: Seq<GithubRelease>,
    want_prerelease: bool,
    i: int,
    j: int,
    tag: Seq<char>,
    url: Seq<char>,
) -> bool {
    &&& 0 <= i < releases.len()
    &&& 0 <= j < releases[i].assets@.len()
    &&& releases[i].prerelease == want_prerelease
    &&& asset_matches(releases[i].assets@[j])
    &&& tag == releases[i].tag_name@
    &&& url == releases[i].assets@[j].browser_download_url@
    &&& forall|k: int| 0 <= k < i ==> !release_matches(#[trigger] releases[k], want_prerelease)
    &&& forall|m: int| 0 <= m < j ==> !asset_matches(#[trigger] releases[i].assets@[m])
}

/// What `select_release` guarantees of its result: `None` only when no
/// listed release is usable, and otherwise a witness that the first usable
/// release and its first bundle asset were picked.
pub open spec fn select_release_post(
    releases: Seq<GithubRelease>,
    want_prerelease: bool,
    r: Option<(String, String)>,
) -> bool {
    match r {
        None => forall|k: int|
            0 <= k < releases.len() ==> !release_matches(#[trigger] releases[k], want_prerelease),
        Some(p) => exists|i: int, j: int|
            selected_release(releases, want_prerelease, i, j, (p.0)@, (p.1)@),
    }
}

fn first_matching_asset(assets: &Vec<GithubAsset>) -> (r: Option<usize>)
    ensures
        r is None ==> forall|m: int|
            0 <= m < assets@.len() ==> !asset_matches(#[trigger] assets@[m]),
        r matches Some(j) ==> {
            &&& j < assets@.len()
            &&& asset_matches(assets@[j as int])
            &&& forall|m: int| 0 <= m < j ==> !asset_matches(#[trigger] assets@[m])
        },
{
    let mut j: usize = 0;
    while j < assets.len()
        invariant
            j <= assets@.len(),
            forall|m: int| 0 <= m < j ==> !asset_matches(#[trigger] assets@[m]),
        decreases assets@.len() - j,
    {
        if contains_substr(assets[j].name.as_str(), "luna.zip") {
            return Some(j);
        }
        j += 1;
    }
    None
}

/// Picks the release to download: the first release in listing order whose
/// prerelease flag is as requested and that attaches the patch bundle, and
/// within it the first bundle asset. Yields that release's tag and the
/// asset's download location, or `None` when no listed release is usable.
pub fn select_release(releases: &Vec<GithubRelease>, get_prerelease: bool) -> (r: Option<
    (String, String),
>)
    ensures
        select_release_post(releases@, get_prerelease, r),
{
    let mut i: usize = 0;
    while i < releases.len()
        invariant
            i <= releases@.len(),
            forall|k: int|
                0 <= k < i ==> !release_matches(#[trigger] releases@[k], get_prerelease),
        decreases releases@.len() - i,
    {
        let rel = &releases[i];
        if rel.prerelease == get_prerelease {
            match first_matching_asset(&rel.assets) {
                Some(j) => {
                    let tag = rel.tag_name.clone();
                    let url = rel.assets[j].browser_download_url.clone();
                    let p = (tag, url);
                    let r = Some(p);
                    proof {
                        assert(selected_release(
                            releases@,
                            get_prerelease,
                            i as int,
                            j as int,
                            (r.unwrap().0)@,
                            (r.unwrap().1)@,
                        ));
                    }
                    return r;
                },
                None => {
                    proof {
                        assert(!release_matches(releases@[i as int], get_prerelease));
                    }
                },
            }
        }
        i += 1;
    }
    None
}

} // verus!
