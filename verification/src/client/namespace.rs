//! Commands on namespaces.

use vstd::prelude::*;
use crate::api::namespace::NamespaceListItem;
use crate::namespace::BackupNamespace;
use crate::text::{join3, joined, texts};

verus! {

/// Why a command on a namespace is refused.
#[derive(Clone, Copy, Debug, PartialEq, Eq, Structural)]
pub enum RootError {
    /// The root cannot be created.
    Present,
    /// The root cannot be deleted.
    Deleted,
    /// The root cannot be moved.
    Moved,
}

impl RootError {
    /// The message.
    pub open spec fn text(self) -> Seq<char> {
        match self {
            RootError::Present => "root namespace is always present"@,
            RootError::Deleted => "root namespace cannot be deleted"@,
            RootError::Moved => "root namespace cannot be moved"@,
        }
    }

    /// The message.
    pub fn message(&self) -> (r: &'static str)
        ensures
            r@ == self.text(),
    {
        match self {
            RootError::Present => "root namespace is always present",
            RootError::Deleted => "root namespace cannot be deleted",
            RootError::Moved => "root namespace cannot be moved",
        }
    }
}

/// What a request for a list names.
pub struct ListParams {
    pub max_depth: Option<usize>,
    pub parent: Option<BackupNamespace>,
}

/// What a request for a list names; the root is not named.
pub fn list_params(ns: BackupNamespace, max_depth: Option<usize>) -> (r: ListParams)
    ensures
        r.max_depth == max_depth,
        match r.parent {
            Some(parent) => ns@.len() > 0 && parent@ == ns@,
            None => ns@.len() == 0,
        },
{
    let parent = if ns.is_root() {
        None
    } else {
        Some(ns)
    };
    ListParams { max_depth, parent }
}

/// The line for a namespace.
pub open spec fn item_line(item: NamespaceListItem) -> Seq<char> {
    match item.comment {
        Some(comment) => joined(item.ns@, "/"@) + " ("@ + comment@ + ")"@,
        None => joined(item.ns@, "/"@),
    }
}

/// The lines for a list; there is none for the root.
pub open spec fn item_lines(items: Seq<NamespaceListItem>) -> Seq<Seq<char>>
    decreases items.len(),
{
    if items.len() == 0 {
        seq![]
    } else {
        let before = item_lines(items.drop_last());
        if items.last().ns@.len() == 0 {
            before
        } else {
            before.push(item_line(items.last()))
        }
    }
}

/// The lines for a list; there is none for the root.
pub fn list_lines(items: &Vec<NamespaceListItem>) -> (r: Vec<String>)
    ensures
        texts(r@) == item_lines(items@),
{
    let mut lines: Vec<String> = Vec::new();
    assert(texts(lines@) =~= item_lines(items@.take(0)));
    for i in 0..items.len()
        invariant
            texts(lines@) == item_lines(items@.take(i as int)),
    {
        let ghost before = lines@;
        proof {
            assert(items@.take(i + 1).drop_last() =~= items@.take(i as int));
            assert(items@.take(i + 1).last() == items@[i as int]);
        }
        let item = &items[i];
        if !item.ns.is_root() {
            let name = item.ns.to_string();
            let line: String = match &item.comment {
                Some(comment) => {
                    let mut line = join3(name.as_str(), " (", comment.as_str());
                    line.append(")");
                    line
                },
                None => name,
            };
            assert(line@ == item_line(*item));
            let ghost shown = line@;
            lines.push(line);
            assert(texts(lines@) =~= texts(before).push(shown));
        }
    }
    assert(items@.take(items@.len() as int) =~= items@);
    lines
}

/// The parent and the name that a request to create a namespace names.
pub fn create_params(ns: BackupNamespace) -> (r: Result<(BackupNamespace, String), RootError>)
    ensures
        match r {
            Ok((parent, name)) => parent@.push(name@) == ns@,
            Err(err) => ns@.len() == 0 && err == RootError::Present,
        },
{
    let mut parent = ns.copy();
    let ghost before = parent.components@;
    match parent.components.pop() {
        None => {
            assert(texts(before).len() == before.len());
            Err(RootError::Present)
        },
        Some(name) => {
            assert(texts(before) =~= texts(parent.components@).push(name@));
            Ok((parent, name))
        },
    }
}

/// What a request to delete a namespace names.
pub struct DeleteParams {
    pub ns: BackupNamespace,
    pub delete_groups: Option<bool>,
}

/// What a request to delete a namespace names.
pub fn delete_params(ns: BackupNamespace, delete_groups: Option<bool>) -> (r: Result<
    DeleteParams,
    RootError,
>)
    ensures
        match r {
            Ok(params) => ns@.len() > 0 && params.ns@ == ns@ && params.delete_groups
                == delete_groups,
            Err(err) => ns@.len() == 0 && err == RootError::Deleted,
        },
{
    if ns.is_root() {
        return Err(RootError::Deleted);
    }
    Ok(DeleteParams { ns, delete_groups })
}

/// The namespace that a request to move one names.
pub fn move_source(ns: BackupNamespace) -> (r: Result<BackupNamespace, RootError>)
    ensures
        match r {
            Ok(source) => ns@.len() > 0 && source@ == ns@,
            Err(err) => ns@.len() == 0 && err == RootError::Moved,
        },
{
    if ns.is_root() {
        return Err(RootError::Moved);
    }
    Ok(ns)
}

/// Of the namespaces that are listed, each but the root has its line, in order.
pub proof fn root_is_not_shown(items: Seq<NamespaceListItem>, item: NamespaceListItem)
    ensures
        item.ns@.len() == 0 ==> item_lines(items.push(item)) == item_lines(items),
        item.ns@.len() > 0 ==> item_lines(items.push(item)) == item_lines(items).push(
            item_line(item),
        ),
        item_lines(Seq::empty()).len() == 0,
{
    assert(items.push(item).drop_last() =~= items);
}

} // verus!
