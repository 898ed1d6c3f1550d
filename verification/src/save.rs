//! The decisions of saving a preset, which alternate with the host's file
//! operations.
//!
//! A new preset gets the first free folder name derived from its display
//! name (`name`, `name-2`, `name-3`, ...). Its files are written into a
//! staging folder, which then replaces the live folder: the live folder is
//! first moved to a backup folder, which is restored when the replacement
//! fails and removed when it succeeds. On failure the staging folder is
//! removed.
use vstd::prelude::*;

use crate::names::{folder_candidate, folder_name_candidate, sanitize_folder_name, sanitized_folder_name};
use crate::text::concat2;

verus! {

/// The search for a free folder name for a new preset: candidates are
/// tried in turn until the host finds one that does not exist yet.
pub struct FolderNameSearch {
    base: String,
    attempt: u64,
}

impl FolderNameSearch {
    pub closed spec fn spec_base(&self) -> Seq<char> {
        self.base@
    }

    pub closed spec fn spec_attempt(&self) -> u64 {
        self.attempt
    }

    /// The search for a preset displayed as `name`: its sanitized folder
    /// name is tried first.
    pub fn new(name: &str) -> (s: Self)
        ensures
            s.spec_base() == sanitized_folder_name(name@),
            s.spec_attempt() == 1,
    {
        FolderNameSearch { base: sanitize_folder_name(name), attempt: 1 }
    }

    /// The folder name to try now.
    pub fn candidate(&self) -> (c: String)
        ensures
            c@ == folder_candidate(self.spec_base(), self.spec_attempt() as nat),
    {
        folder_name_candidate(self.base.as_str(), self.attempt)
    }

    /// The candidate exists already: the next one is to be tried.
    pub fn taken(&mut self)
        requires
            old(self).spec_attempt() < u64::MAX,
        ensures
            final(self).spec_base() == old(self).spec_base(),
            final(self).spec_attempt() == old(self).spec_attempt() + 1,
    {
        self.attempt = self.attempt + 1;
    }
}

/// What the host does next while installing a staged preset.
#[derive(Debug, PartialEq, Eq)]
pub enum SaveStep {
    /// Rename the live folder to the backup folder.
    BackUpLive,
    /// Rename the staging folder to the live folder.
    MoveStagedIntoPlace,
    /// Remove the backup folder (its outcome does not matter); the save
    /// succeeded.
    RemoveBackupThenFinish,
    /// Rename the backup folder back to the live folder (its outcome does
    /// not matter), then abandon the save with the message.
    RestoreBackupThenAbandon(String),
    /// Remove the staging folder (its outcome does not matter); the save
    /// failed with the message.
    Abandon(String),
    /// The save succeeded.
    Finish,
}

/// The preset's files were written into the staging folder (`written`, or
/// the message of the write that failed); `live_exists` tells whether the
/// live folder exists.
pub fn after_writing(written: Result<(), String>, live_exists: bool) -> (step: SaveStep)
    ensures
        match written {
            Err(e) => step == SaveStep::Abandon(e),
            Ok(()) => step == if live_exists {
                SaveStep::BackUpLive
            } else {
                SaveStep::MoveStagedIntoPlace
            },
        },
{
    match written {
        Err(e) => SaveStep::Abandon(e),
        Ok(()) => if live_exists {
            SaveStep::BackUpLive
        } else {
            SaveStep::MoveStagedIntoPlace
        },
    }
}

/// The live folder was renamed to the backup folder, or the rename failed
/// with the error's text.
pub fn after_backing_up(renamed: Result<(), String>) -> (step: SaveStep)
    ensures
        match renamed {
            Ok(()) => step == SaveStep::MoveStagedIntoPlace,
            Err(e) => step matches SaveStep::Abandon(m) && m@
                == "Failed to stage existing preset for replacement: "@ + e@,
        },
{
    match renamed {
        Ok(()) => SaveStep::MoveStagedIntoPlace,
        Err(e) => SaveStep::Abandon(
            concat2("Failed to stage existing preset for replacement: ", e.as_str()),
        ),
    }
}

/// The staging folder was renamed to the live folder, or the rename failed
/// with the error's text; `backup_exists` tells whether the backup folder
/// exists now.
pub fn after_moving_into_place(renamed: Result<(), String>, backup_exists: bool) -> (step:
    SaveStep)
    ensures
        match renamed {
            Ok(()) => step == if backup_exists {
                SaveStep::RemoveBackupThenFinish
            } else {
                SaveStep::Finish
            },
            Err(e) => if backup_exists {
                step matches SaveStep::RestoreBackupThenAbandon(m) && m@ == "Failed to install preset: "@
                    + e@
            } else {
                step matches SaveStep::Abandon(m) && m@ == "Failed to install preset: "@ + e@
            },
        },
{
    match renamed {
        Ok(()) => if backup_exists {
            SaveStep::RemoveBackupThenFinish
        } else {
            SaveStep::Finish
        },
        Err(e) => {
            let message = concat2("Failed to install preset: ", e.as_str());
            if backup_exists {
                SaveStep::RestoreBackupThenAbandon(message)
            } else {
                SaveStep::Abandon(message)
            }
        },
    }
}

} // verus!
