//! What the driver does when one of its own actions fails.
//!
//! A failed transcode is no failure in this sense: it is an outcome, and the
//! worker answers it with a discard.
//!
//! A commit moves the staged file by renaming it. Where the staging and the
//! completion root are on different filesystems a rename cannot do that;
//! `after_rename` says how the commit goes on then.

use vstd::prelude::*;

verus! {

/// An action of the driver that can fail.
#[derive(Clone, Copy, Debug, PartialEq, Eq, Structural)]
pub enum Failure {
    /// One of the three roots could not be created at startup.
    CreateDirectory,
    /// The watch directory could not be subscribed to at startup.
    Subscribe,
    /// The notification stream delivered an error.
    Notification,
    /// The staged output of a failed transcode could not be removed.
    Discard,
    /// The staged output of a successful transcode could not be moved to its
    /// final place, or its owner could not be set.
    Commit,
}

/// How the driver reacts to a failure.
#[derive(Clone, Copy, Debug, PartialEq, Eq, Structural)]
pub enum Reaction {
    /// Report the failure and go on.
    Continue,
    /// Report the failure and end the process with a failure status.
    Abort,
}

/// The reaction that each failure calls for.
///
/// Without its directories or its subscription the pipeline cannot run. A
/// failed commit leaves a finished file in the staging area that nothing
/// would ever pick up again, so it must not pass unnoticed. An error in the
/// notification stream and a staged file that cannot be removed, perhaps
/// because the transcoder never wrote it, are tolerated.
pub open spec fn reaction_to(failure: Failure) -> Reaction {
    match failure {
        Failure::CreateDirectory => Reaction::Abort,
        Failure::Subscribe => Reaction::Abort,
        Failure::Notification => Reaction::Continue,
        Failure::Discard => Reaction::Continue,
        Failure::Commit => Reaction::Abort,
    }
}

/// How the attempt to rename a staged file to its final place ended.
#[derive(Clone, Copy, Debug, PartialEq, Eq, Structural)]
pub enum Renamed {
    /// The file is at its final place.
    Moved,
    /// Nothing was moved, because the two places are on different
    /// filesystems.
    CrossesDevices,
    /// Nothing was moved, for any other reason.
    Failed,
}

/// How a commit goes on after the rename.
#[derive(Clone, Copy, Debug, PartialEq, Eq, Structural)]
pub enum AfterRename {
    /// The file is in place: set its owner.
    SetOwner,
    /// Copy the staged file to its final place, remove the staged file, and
    /// then set the owner of the final file.
    CopyThenRemove,
    /// The commit has failed.
    GiveUp,
}

/// The step that follows each result of the rename.
///
/// Only a rename across filesystems is made up for, by a copy and a removal
/// that leave the same files behind. Any other failure fails the commit.
pub open spec fn step_after(renamed: Renamed) -> AfterRename {
    match renamed {
        Renamed::Moved => AfterRename::SetOwner,
        Renamed::CrossesDevices => AfterRename::CopyThenRemove,
        Renamed::Failed => AfterRename::GiveUp,
    }
}

/// The step of a commit that follows the rename.
pub fn after_rename(renamed: Renamed) -> (next: AfterRename)
    ensures
        next == step_after(renamed),
{
    match renamed {
        Renamed::Moved => AfterRename::SetOwner,
        Renamed::CrossesDevices => AfterRename::CopyThenRemove,
        Renamed::Failed => AfterRename::GiveUp,
    }
}

/// The reaction that `failure` calls for.
pub fn reaction(failure: Failure) -> (answer: Reaction)
    ensures
        answer == reaction_to(failure),
{
    match failure {
        Failure::CreateDirectory | Failure::Subscribe | Failure::Commit => Reaction::Abort,
        Failure::Notification | Failure::Discard => Reaction::Continue,
    }
}

} // verus!
