//! Installation state manager for a desktop-application patcher.
//!
//! The library models the on-disk layout of the target application's install
//! directory, decides whether a patch can safely be applied or removed, and
//! states the effect of each operation as a verified state transition. All
//! real filesystem and network work stays outside the library; callers probe
//! the disk, hand the library plain values, and perform the renames and
//! removals that the verified transitions prescribe.

pub mod base;
pub mod helpers;
pub mod install;
pub mod laws;
pub mod uninstall;
