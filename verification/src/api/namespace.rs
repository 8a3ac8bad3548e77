//! Requests on the namespaces of a datastore.

use vstd::prelude::*;
use crate::namespace::BackupNamespace;
use crate::text::{join3, joined};

verus! {

/// The namespace that a request to create `name` in `parent` is about; without a
/// parent it is created in the root. `allowed` says whether a namespace of that name
/// may be there at all, or why not.
pub fn create_namespace(
    parent: Option<BackupNamespace>,
    name: &str,
    allowed: Result<(), String>,
) -> (r: Result<BackupNamespace, String>)
    ensures
        match (allowed, r) {
            (Ok(()), Ok(ns)) => ns@ == (match parent {
                Some(parent) => parent@,
                None => seq![],
            }).push(name@),
            (Err(refused), Err(err)) => err@ == refused@,
            _ => false,
        },
{
    if let Err(err) = allowed {
        return Err(err);
    }
    let ns = match parent {
        Some(parent) => parent.child(name),
        None => BackupNamespace::root().child(name),
    };
    Ok(ns)
}

/// A namespace in a list.
pub struct NamespaceListItem {
    pub ns: BackupNamespace,
    pub comment: Option<String>,
}

/// Why namespaces are not listed.
pub enum ListError {
    /// Not allowed.
    Forbidden,
    /// They cannot be found out; holds why.
    Unavailable(String),
}

/// Message of [`ListError::Forbidden`].
pub const FORBIDDEN: &'static str = "permission check failed";

/// The namespaces on which one has any of the privileges `accepted`, in order.
pub open spec fn visible(list: Seq<(BackupNamespace, u64)>, accepted: u64) -> Seq<Seq<Seq<char>>>
    decreases list.len(),
{
    if list.len() == 0 {
        seq![]
    } else {
        let before = visible(list.drop_last(), accepted);
        if list.last().1 & accepted != 0 {
            before.push(list.last().0@)
        } else {
            before
        }
    }
}

/// The namespaces of a list.
pub open spec fn listed_names(items: Seq<NamespaceListItem>) -> Seq<Seq<Seq<char>>> {
    Seq::new(items.len(), |i: int| items[i].ns@)
}

/// Whether a request for a list is refused.
pub open spec fn is_refused(
    found: Result<Vec<(BackupNamespace, u64)>, String>,
    parent_access: bool,
    accepted: u64,
) -> bool {
    !parent_access && (found is Err || visible(found->Ok_0@, accepted).len() == 0)
}

/// Lists the namespaces that one has privileges on. `found` holds each namespace
/// with the privileges on it. Without access to the parent, nobody learns whether
/// it exists.
pub fn list_namespaces(
    found: Result<Vec<(BackupNamespace, u64)>, String>,
    parent_access: bool,
    accepted: u64,
) -> (r: Result<Vec<NamespaceListItem>, ListError>)
    ensures
        match r {
            Ok(items) => {
                &&& !is_refused(found, parent_access, accepted)
                &&& found is Ok
                &&& listed_names(items@) == visible(found->Ok_0@, accepted)
                &&& forall|i: int| 0 <= i < items@.len() ==> (#[trigger] items@[i]).comment is None
            },
            Err(ListError::Forbidden) => is_refused(found, parent_access, accepted),
            Err(ListError::Unavailable(err)) => parent_access && found == Err::<
                Vec<(BackupNamespace, u64)>,
                String,
            >(err),
        },
{
    let list = match found {
        Ok(list) => list,
        Err(err) => {
            return if parent_access {
                Err(ListError::Unavailable(err))
            } else {
                Err(ListError::Forbidden)
            };
        },
    };
    let mut items: Vec<NamespaceListItem> = Vec::new();
    assert(listed_names(items@) =~= visible(list@.take(0), accepted));
    for entry in it: list
        invariant
            it.seq() == list@,
            listed_names(items@) == visible(list@.take(it.index() as int), accepted),
            forall|i: int| 0 <= i < items@.len() ==> (#[trigger] items@[i]).comment is None,
    {
        let ghost before = items@;
        proof {
            let i = it.index() as int;
            assert(entry == list@[i]);
            assert(list@.take(i + 1).drop_last() =~= list@.take(i));
            assert(list@.take(i + 1).last() == entry);
        }
        let (ns, privileges) = entry;
        if privileges & accepted != 0 {
            items.push(NamespaceListItem { ns, comment: None });
            assert(listed_names(items@) =~= listed_names(before).push(ns@));
        }
    }
    assert(list@.take(list@.len() as int) =~= list@);
    assert(listed_names(items@).len() == items@.len());
    if items.len() == 0 && !parent_access {
        return Err(ListError::Forbidden);
    }
    Ok(items)
}

/// Without access to the parent, a parent that does not exist is answered the same
/// way as one in which there is nothing to see.
pub proof fn missing_namespace_is_not_disclosed(
    err: String,
    list: Vec<(BackupNamespace, u64)>,
    accepted: u64,
)
    requires
        visible(list@, accepted).len() == 0,
    ensures
        is_refused(Err(err), false, accepted),
        is_refused(Ok(list), false, accepted),
{
}

/// What came of the deletion of a namespace.
#[derive(Clone, Copy, Debug, PartialEq, Eq, Structural)]
pub struct DeleteOutcome {
    /// Everything was removed.
    pub removed_all: bool,
    /// Groups were to be removed too.
    pub delete_groups: bool,
    /// The datastore still uses the lock files of former versions.
    pub old_locking: bool,
}

/// Why something is left, if it is.
pub open spec fn leftover_text(outcome: DeleteOutcome) -> Option<Seq<char>> {
    if outcome.removed_all {
        None
    } else if !outcome.delete_groups {
        Some("only partially deleted due to existing groups but `delete-groups` not true"@)
    } else if outcome.old_locking {
        Some(OLD_LOCKING_MESSAGE@)
    } else {
        Some("group only partially deleted due to protected snapshots"@)
    }
}

/// Why groups are left where the lock files of former versions are used.
pub const OLD_LOCKING_MESSAGE: &'static str =
    "could not remove empty group directoriess due to old locking mechanism.\nIf you are an admin, please reboot PBS or ensure no old backup job is running anymore, then remove the file '/run/proxmox-backup/old-locking', and reload all PBS daemons";

/// How a request to delete a namespace ends.
#[derive(Clone, Copy, Debug, PartialEq, Eq, Structural)]
pub enum DeleteAnswer {
    /// It succeeds.
    Done,
    /// It succeeds, but a warning is logged.
    Warn,
    /// It fails.
    Fail,
}

/// How a request to delete a namespace ends, and the text of the warning or the
/// error.
pub fn delete_namespace(outcome: DeleteOutcome, error_on_protected: bool) -> (r: (
    DeleteAnswer,
    &'static str,
))
    ensures
        r.0 == (if outcome.removed_all {
            DeleteAnswer::Done
        } else if error_on_protected {
            DeleteAnswer::Fail
        } else {
            DeleteAnswer::Warn
        }),
        r.1@ == (match leftover_text(outcome) {
            Some(text) => text,
            None => ""@,
        }),
{
    if outcome.removed_all {
        return (DeleteAnswer::Done, "");
    }
    let text: &'static str = if outcome.delete_groups {
        if outcome.old_locking {
            OLD_LOCKING_MESSAGE
        } else {
            "group only partially deleted due to protected snapshots"
        }
    } else {
        "only partially deleted due to existing groups but `delete-groups` not true"
    };
    if error_on_protected {
        (DeleteAnswer::Fail, text)
    } else {
        (DeleteAnswer::Warn, text)
    }
}

/// Name of the task that moves a namespace.
pub fn move_worker_id(store: &str, ns: &BackupNamespace, target: &BackupNamespace) -> (r: String)
    ensures
        r@ == store@ + ":"@ + joined(ns@, "/"@) + ":"@ + joined(target@, "/"@),
{
    let mut r = join3(store, ":", ns.to_string().as_str());
    r.append(":");
    r.append(target.to_string().as_str());
    r
}

/// A namespace is shown exactly if one of the accepted privileges is held on it.
pub proof fn shown_namespaces_may_be_seen(
    list: Seq<(BackupNamespace, u64)>,
    accepted: u64,
    ns: Seq<Seq<char>>,
)
    ensures
        visible(list, accepted).contains(ns) <==> exists|i: int|
            0 <= i < list.len() && (#[trigger] list[i]).0@ == ns && list[i].1 & accepted != 0,
        visible(list, accepted).len() <= list.len(),
    decreases list.len(),
{
    if list.len() > 0 {
        let init = list.drop_last();
        shown_namespaces_may_be_seen(init, accepted, ns);
        let before = visible(init, accepted);
        let after = visible(list, accepted);
        assert(list[list.len() - 1] == list.last());
        if after.contains(ns) {
            let k = after.index_of(ns);
            if k < before.len() {
                assert(before[k] == ns);
                assert(before.contains(ns));
                let i = choose|i: int|
                    0 <= i < init.len() && (#[trigger] init[i]).0@ == ns && init[i].1 & accepted
                        != 0;
                assert(list[i] == init[i]);
            }
        }
        if exists|i: int|
            0 <= i < list.len() && (#[trigger] list[i]).0@ == ns && list[i].1 & accepted != 0 {
            let i = choose|i: int|
                0 <= i < list.len() && (#[trigger] list[i]).0@ == ns && list[i].1 & accepted != 0;
            if i < init.len() {
                assert(init[i] == list[i]);
                assert(before.contains(ns));
                let k = before.index_of(ns);
                assert(after[k] == ns);
            } else {
                assert(after[after.len() - 1] == ns);
            }
        }
    }
}

/// Whoever has access to the parent is never refused, nor is anyone to whom something is
/// shown.
pub proof fn access_is_not_refused(
    found: Result<Vec<(BackupNamespace, u64)>, String>,
    accepted: u64,
)
    ensures
        !is_refused(found, true, accepted),
        found matches Ok(list) && visible(list@, accepted).len() > 0 ==> !is_refused(
            found,
            false,
            accepted,
        ),
{
}

/// A namespace that was removed as a whole leaves nothing to tell; of any other it is told
/// what is left: groups that were not to be deleted, those under the old locking, or those
/// that hold protected snapshots.
pub proof fn leftovers_are_told(outcome: DeleteOutcome)
    ensures
        leftover_text(outcome) is None <==> outcome.removed_all,
        !outcome.removed_all && !outcome.delete_groups ==> leftover_text(outcome) == Some(
            "only partially deleted due to existing groups but `delete-groups` not true"@,
        ),
        !outcome.removed_all && outcome.delete_groups && outcome.old_locking ==> leftover_text(
            outcome,
        ) == Some(OLD_LOCKING_MESSAGE@),
        !outcome.removed_all && outcome.delete_groups && !outcome.old_locking ==> leftover_text(
            outcome,
        ) == Some("group only partially deleted due to protected snapshots"@),
{
}

} // verus!
