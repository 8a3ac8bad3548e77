//! Commands on backup groups.

use vstd::prelude::*;
use crate::namespace::BackupNamespace;
use crate::text::{contains_part, decimal, has_part, join3, u64_to_string};

verus! {

/// Question that is asked before a group is deleted. The answer defaults to no.
pub fn forget_question(group: &str, snapshots: u64) -> (r: String)
    ensures
        r@ == "Delete group \""@ + group@ + "\" with "@ + decimal(snapshots as nat)
            + " snapshot(s)?"@,
{
    let mut r = join3("Delete group \"", group, "\" with ");
    r.append(u64_to_string(snapshots).as_str());
    r.append(" snapshot(s)?");
    r
}

/// Part of the error that the server gives for a group that it does not find.
pub const NOT_FOUND_PART: &'static str = "ENOENT: No such file or directory";

/// Message for a group that the server does not find. The error of the server is
/// not shown, since it holds the path of the datastore.
pub const NOT_FOUND_MESSAGE: &'static str = "Unable to find backup group!";

/// What is printed once a group is deleted.
pub const DELETED_MESSAGE: &'static str = "Successfully deleted group!";

/// What is printed if a group is not to be deleted after all.
pub const ABORT_MESSAGE: &'static str = "Abort.";

/// Why a group is not deleted: `None` stands for the error of the server itself.
pub fn forget_error(root_cause: &str) -> (r: Option<&'static str>)
    ensures
        match r {
            Some(message) => has_part(root_cause@, NOT_FOUND_PART@) && message@
                == NOT_FOUND_MESSAGE@,
            None => !has_part(root_cause@, NOT_FOUND_PART@),
        },
{
    if contains_part(root_cause, NOT_FOUND_PART) {
        Some(NOT_FOUND_MESSAGE)
    } else {
        None
    }
}

/// How far a group has been deleted.
#[derive(Clone, Copy, Debug, PartialEq, Eq, Structural)]
pub enum ForgetState {
    Start,
    Listing,
    Asking,
    Deleting,
    Ended,
}

/// What the environment reports of the last action.
#[derive(Clone, Copy, Debug, PartialEq, Eq, Structural)]
pub enum ForgetEvent {
    /// The action was done.
    Finished,
    /// The group has that many snapshots.
    Snapshots(u64),
    /// Whether the user agreed.
    Answer(bool),
    /// The action failed.
    Failed,
}

/// What the environment has to do next.
#[derive(Clone, Copy, Debug, PartialEq, Eq, Structural)]
pub enum ForgetAction {
    /// List the snapshots of the group.
    List,
    /// Ask whether to delete that many snapshots.
    Ask(u64),
    /// Delete the group.
    Delete,
    /// Print that the group was deleted.
    ReportDeleted,
    /// Print that nothing was done.
    ReportAbort,
    /// Fail; an error of the deletion is looked at first.
    Fail,
}

/// The next state and action.
pub open spec fn forget_next(state: ForgetState, event: ForgetEvent) -> (ForgetState, ForgetAction) {
    match (state, event) {
        (ForgetState::Start, ForgetEvent::Finished) => (ForgetState::Listing, ForgetAction::List),
        (ForgetState::Listing, ForgetEvent::Snapshots(n)) => (
            ForgetState::Asking,
            ForgetAction::Ask(n),
        ),
        (ForgetState::Asking, ForgetEvent::Answer(yes)) => if yes {
            (ForgetState::Deleting, ForgetAction::Delete)
        } else {
            (ForgetState::Ended, ForgetAction::ReportAbort)
        },
        (ForgetState::Deleting, ForgetEvent::Finished) => (
            ForgetState::Ended,
            ForgetAction::ReportDeleted,
        ),
        _ => (ForgetState::Ended, ForgetAction::Fail),
    }
}

/// Moves the deletion of a group on and says what to do next.
pub fn forget_group(state: ForgetState, event: ForgetEvent) -> (r: (ForgetState, ForgetAction))
    ensures
        r == forget_next(state, event),
{
    match (state, event) {
        (ForgetState::Start, ForgetEvent::Finished) => (ForgetState::Listing, ForgetAction::List),
        (ForgetState::Listing, ForgetEvent::Snapshots(n)) => (
            ForgetState::Asking,
            ForgetAction::Ask(n),
        ),
        (ForgetState::Asking, ForgetEvent::Answer(yes)) => {
            if yes {
                (ForgetState::Deleting, ForgetAction::Delete)
            } else {
                (ForgetState::Ended, ForgetAction::ReportAbort)
            }
        },
        (ForgetState::Deleting, ForgetEvent::Finished) => (
            ForgetState::Ended,
            ForgetAction::ReportDeleted,
        ),
        _ => (ForgetState::Ended, ForgetAction::Fail),
    }
}

/// A group is deleted only after the user agreed.
pub proof fn nothing_is_deleted_unasked(state: ForgetState, event: ForgetEvent)
    requires
        forget_next(state, event).1 == ForgetAction::Delete,
    ensures
        state == ForgetState::Asking,
        event == ForgetEvent::Answer(true),
{
}

/// A group is deleted after its snapshots were counted and the user agreed to delete that
/// many; without consent nothing is done. Whatever fails is reported as a failure.
pub proof fn group_is_forgotten_in_order(snapshots: u64)
    ensures
        ({
            let (listing, first) = forget_next(ForgetState::Start, ForgetEvent::Finished);
            let (asking, second) = forget_next(listing, ForgetEvent::Snapshots(snapshots));
            let (deleting, third) = forget_next(asking, ForgetEvent::Answer(true));
            &&& first == ForgetAction::List
            &&& second == ForgetAction::Ask(snapshots)
            &&& third == ForgetAction::Delete
            &&& forget_next(asking, ForgetEvent::Answer(false)).1 == ForgetAction::ReportAbort
            &&& forget_next(deleting, ForgetEvent::Finished).1 == ForgetAction::ReportDeleted
            &&& forget_next(listing, ForgetEvent::Failed).1 == ForgetAction::Fail
            &&& forget_next(asking, ForgetEvent::Failed).1 == ForgetAction::Fail
            &&& forget_next(deleting, ForgetEvent::Failed).1 == ForgetAction::Fail
        }),
{
}

/// The namespace that a request to move a group names; the root is not named.
pub fn move_group_namespace(ns: BackupNamespace) -> (r: Option<BackupNamespace>)
    ensures
        match r {
            Some(named) => ns@.len() > 0 && named@ == ns@,
            None => ns@.len() == 0,
        },
{
    if ns.is_root() {
        None
    } else {
        Some(ns)
    }
}

} // verus!
