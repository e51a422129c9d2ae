//! Decisions of the directory walk and of progress reporting. The walk itself,
//! and the sending of progress events, belong to the caller.

use vstd::prelude::*;

verus! {

/// What to do with one entry of a directory.
#[derive(Clone, Copy, Debug, PartialEq, Eq)]
pub enum EntryStep {
    /// Walk the directory.
    Descend,
    /// Add the entry's path to the files found.
    Include,
    /// Read the target of the link, and go by `link_step`.
    FollowLink,
    /// Leave the entry out.
    Skip,
}

/// What a directory entry of the given kind calls for.
pub open spec fn step_for(is_dir: bool, is_file: bool, is_symlink: bool) -> EntryStep {
    if is_dir {
        EntryStep::Descend
    } else if is_file {
        EntryStep::Include
    } else if is_symlink {
        EntryStep::FollowLink
    } else {
        EntryStep::Skip
    }
}

/// Decides what to do with a directory entry from what its metadata says:
/// directories are walked, regular files are included, symbolic links are
/// followed, anything else is left out.
pub fn entry_step(is_dir: bool, is_file: bool, is_symlink: bool) -> (step: EntryStep)
    ensures
        step == step_for(is_dir, is_file, is_symlink),
{
    if is_dir {
        EntryStep::Descend
    } else if is_file {
        EntryStep::Include
    } else if is_symlink {
        EntryStep::FollowLink
    } else {
        EntryStep::Skip
    }
}

/// Decides what to do with the target of a symbolic link: a directory is
/// walked, anything else is included under the target's path.
pub fn link_step(target_is_dir: bool) -> (step: EntryStep)
    ensures
        step == if target_is_dir {
            EntryStep::Descend
        } else {
            EntryStep::Include
        },
{
    if target_is_dir {
        EntryStep::Descend
    } else {
        EntryStep::Include
    }
}

/// Progress has moved on by more than a hundredth of the whole since it was
/// last reported: `done` of `total` files are through, `reported` were when
/// the last event went out.
pub open spec fn is_progress_due(done: u64, reported: u64, total: u64) -> bool {
    100 * (done - reported) > total
}

/// Whether to send a progress event now.
pub fn progress_due(done: u64, reported: u64, total: u64) -> (due: bool)
    ensures
        due == is_progress_due(done, reported, total),
{
    if done <= reported {
        return false;
    }
    let moved: u128 = (done - reported) as u128;
    100 * moved > total as u128
}

} // verus!
