//! Text that the documentation is made from.

use vstd::prelude::*;
use crate::text::{chars_range, join3, str_eq, to_chars};

verus! {

/// A part of the documentation.
#[derive(Clone, Copy, Debug, PartialEq, Eq, Structural)]
pub enum DocPart {
    /// The API.
    ApiTree,
    Datastore,
    Domains,
    Notifications,
    NotificationsPriv,
    Tape,
    TapeJob,
    User,
    Remote,
    Sync,
    Verification,
    Prune,
    MediaPool,
    /// The roles of users.
    AclRole,
}

/// Message if no part is asked for.
pub const MISSING_ARGUMENTS: &'static str = "missing arguments";

/// Message if an unknown part is asked for.
pub const UNKNOWN_TYPE: &'static str = "docgen: got unknown type";

/// Name that a part is asked for by.
pub open spec fn part_name(part: DocPart) -> Seq<char> {
    match part {
        DocPart::ApiTree => "apidata.js"@,
        DocPart::Datastore => "datastore.cfg"@,
        DocPart::Domains => "domains.cfg"@,
        DocPart::Notifications => "notifications.cfg"@,
        DocPart::NotificationsPriv => "notifications-priv.cfg"@,
        DocPart::Tape => "tape.cfg"@,
        DocPart::TapeJob => "tape-job.cfg"@,
        DocPart::User => "user.cfg"@,
        DocPart::Remote => "remote.cfg"@,
        DocPart::Sync => "sync.cfg"@,
        DocPart::Verification => "verification.cfg"@,
        DocPart::Prune => "prune.cfg"@,
        DocPart::MediaPool => "media-pool.cfg"@,
        DocPart::AclRole => "config::acl::Role"@,
    }
}

/// The part of a name, if there is one.
pub fn doc_part(name: &str) -> (r: Option<DocPart>)
    ensures
        match r {
            Some(part) => name@ == part_name(part),
            None => forall|part: DocPart| name@ != #[trigger] part_name(part),
        },
{
    if str_eq(name, "apidata.js") {
        Some(DocPart::ApiTree)
    } else if str_eq(name, "datastore.cfg") {
        Some(DocPart::Datastore)
    } else if str_eq(name, "domains.cfg") {
        Some(DocPart::Domains)
    } else if str_eq(name, "notifications.cfg") {
        Some(DocPart::Notifications)
    } else if str_eq(name, "notifications-priv.cfg") {
        Some(DocPart::NotificationsPriv)
    } else if str_eq(name, "tape.cfg") {
        Some(DocPart::Tape)
    } else if str_eq(name, "tape-job.cfg") {
        Some(DocPart::TapeJob)
    } else if str_eq(name, "user.cfg") {
        Some(DocPart::User)
    } else if str_eq(name, "remote.cfg") {
        Some(DocPart::Remote)
    } else if str_eq(name, "sync.cfg") {
        Some(DocPart::Sync)
    } else if str_eq(name, "verification.cfg") {
        Some(DocPart::Verification)
    } else if str_eq(name, "prune.cfg") {
        Some(DocPart::Prune)
    } else if str_eq(name, "media-pool.cfg") {
        Some(DocPart::MediaPool)
    } else if str_eq(name, "config::acl::Role") {
        Some(DocPart::AclRole)
    } else {
        None
    }
}

/// Whether `name` is what follows the last slash of `path`, or all of it if there
/// is none.
pub open spec fn is_file_name(path: Seq<char>, name: Seq<char>) -> bool {
    &&& !name.contains('/')
    &&& name.len() <= path.len()
    &&& path.skip(path.len() - name.len()) == name
    &&& name.len() < path.len() ==> path[path.len() - name.len() - 1] == '/'
}

/// The name of a program, without the path that leads to it.
pub fn program_name(path: &str) -> (r: String)
    ensures
        is_file_name(path@, r@),
{
    let chars = to_chars(path);
    let mut start: usize = chars.len();
    while start > 0
        invariant
            chars@ == path@,
            start <= chars@.len(),
            forall|i: int| start <= i < chars@.len() ==> chars@[i] != '/',
        decreases start,
    {
        if chars[start - 1] == '/' {
            let r = chars_range(&chars, start, chars.len());
            assert(path@.skip(start as int) =~= r@);
            assert forall|i: int| 0 <= i < r@.len() implies r@[i] != '/' by {
                assert(r@[i] == chars@[start + i]);
            }
            return r;
        }
        start = start - 1;
    }
    let r = chars_range(&chars, 0, chars.len());
    assert(path@.skip(0) =~= r@);
    r
}

/// A path has a single file name.
pub proof fn file_name_is_unique(path: Seq<char>, a: Seq<char>, b: Seq<char>)
    requires
        is_file_name(path, a),
        is_file_name(path, b),
    ensures
        a == b,
{
    if a.len() < b.len() {
        let i = b.len() - a.len() - 1;
        assert(b[i] == path.skip(path.len() - b.len())[i]);
        assert(b.contains('/'));
    } else if b.len() < a.len() {
        let i = a.len() - b.len() - 1;
        assert(a[i] == path.skip(path.len() - a.len())[i]);
        assert(a.contains('/'));
    }
}

/// A tree of API calls.
pub struct ApiTree {
    /// Path that the calls of the tree start with.
    pub prefix: &'static str,
    /// Path of the tree.
    pub path: &'static str,
    /// Title of the tree.
    pub text: &'static str,
    /// Whether the tree is shown open, if that is set.
    pub expanded: Option<bool>,
}

/// The trees of API calls, in order: that of the server, that of backups and that
/// of restores.
pub fn api_trees() -> (r: Vec<ApiTree>)
    ensures
        r@.len() == 3,
        r@[0].prefix@ == "."@,
        r@[0].path@ == "/"@,
        r@[0].text@ == "&#x200b;Management API (HTTP)"@,
        r@[0].expanded is None,
        r@[1].prefix@ == "/backup/_upgrade_"@,
        r@[1].path@ == "/backup/_upgrade_"@,
        r@[1].text@ == "Backup API (HTTP/2)"@,
        r@[1].expanded == Some(false),
        r@[2].prefix@ == "/reader/_upgrade_"@,
        r@[2].path@ == "/reader/_upgrade_"@,
        r@[2].text@ == "Restore API (HTTP/2)"@,
        r@[2].expanded == Some(false),
{
    let mut trees: Vec<ApiTree> = Vec::new();
    // The title starts with an invisible space, which sorts before everything else.
    trees.push(
        ApiTree {
            prefix: ".",
            path: "/",
            text: "&#x200b;Management API (HTTP)",
            expanded: None,
        },
    );
    trees.push(
        ApiTree {
            prefix: "/backup/_upgrade_",
            path: "/backup/_upgrade_",
            text: "Backup API (HTTP/2)",
            expanded: Some(false),
        },
    );
    trees.push(
        ApiTree {
            prefix: "/reader/_upgrade_",
            path: "/reader/_upgrade_",
            text: "Restore API (HTTP/2)",
            expanded: Some(false),
        },
    );
    trees
}

/// Script that sets the trees, given as JSON.
pub fn generate_api_tree(json: &str) -> (r: String)
    ensures
        r@ == "var apiSchema = "@ + json@ + ";"@,
{
    join3("var apiSchema = ", json, ";")
}

} // verus!
