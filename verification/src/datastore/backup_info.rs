//! Backup groups, the snapshots in them and the files of these.

use vstd::prelude::*;
use crate::auth::Authid;
use crate::datastore::lock_path::{full_lock_path, lock_path};
use crate::datastore::paths::{join_path, joined_path, ns_path};
use crate::namespace::BackupNamespace;
use crate::sort::{sort_by_key, Keyed};
use crate::text::{join2, join3, joined, str_eq, texts, to_chars};
use crate::types::{BackupType, CLIENT_LOG_BLOB_NAME, MANIFEST_BLOB_NAME};

verus! {

/// Name of the file that marks a snapshot as protected.
pub const PROTECTED_MARKER_FILENAME: &'static str = ".protected";

/// What the name of a manifest's lock file ends in.
pub const MANIFEST_LOCK_NAME: &'static str = ".index.json.lck";

/// A datastore.
pub struct StoreInfo {
    pub name: String,
    pub base_path: String,
}

/// Kind and name of a group.
pub struct GroupId {
    pub ty: BackupType,
    pub id: String,
}

/// A group and the time of one of its snapshots.
pub struct SnapshotId {
    pub group: GroupId,
    pub time: i64,
}

impl StoreInfo {
    /// A copy.
    pub fn copy(&self) -> (r: StoreInfo)
        ensures
            r.name@ == self.name@,
            r.base_path@ == self.base_path@,
    {
        StoreInfo { name: self.name.clone(), base_path: self.base_path.clone() }
    }
}

impl GroupId {
    /// A copy.
    pub fn copy(&self) -> (r: GroupId)
        ensures
            r.ty == self.ty,
            r.id@ == self.id@,
    {
        GroupId { ty: self.ty, id: self.id.clone() }
    }

    /// Whether both are the same group.
    pub fn same(&self, other: &GroupId) -> (r: bool)
        ensures
            r == (self.ty == other.ty && self.id@ == other.id@),
    {
        self.ty == other.ty && str_eq(self.id.as_str(), other.id.as_str())
    }

    /// The printed form: kind and name.
    pub open spec fn text(self) -> Seq<char> {
        self.ty.text() + "/"@ + self.id@
    }

    /// The printed form: kind and name.
    pub fn to_string(&self) -> (r: String)
        ensures
            r@ == self.text(),
    {
        join3(self.ty.as_str(), "/", self.id.as_str())
    }

    /// Path within a namespace.
    pub open spec fn path_spec(self) -> Seq<char> {
        joined_path(self.ty.text(), self.id@)
    }

    /// Path within a namespace.
    pub fn path(&self) -> (r: String)
        ensures
            r@ == self.path_spec(),
    {
        join_path(self.ty.as_str(), self.id.as_str())
    }
}

/// A directory of snapshots.
pub struct BackupGroup {
    pub store: StoreInfo,
    pub ns: BackupNamespace,
    pub group: GroupId,
}

/// Path of a group within a datastore.
pub open spec fn group_path(ns: Seq<Seq<char>>, group: GroupId) -> Seq<char> {
    joined_path(joined_path(ns_path(ns), group.ty.text()), group.id@)
}

impl BackupGroup {
    /// A group of a datastore.
    pub fn new(store: StoreInfo, ns: BackupNamespace, group: GroupId) -> (r: Self)
        ensures
            r == (BackupGroup { store, ns, group }),
    {
        BackupGroup { store, ns, group }
    }

    /// Kind and name of the group.
    pub fn group(&self) -> (r: &GroupId)
        ensures
            *r == self.group,
    {
        &self.group
    }

    /// Namespace of the group.
    pub fn backup_ns(&self) -> (r: &BackupNamespace)
        ensures
            *r == self.ns,
    {
        &self.ns
    }

    /// Kind of the group.
    pub fn backup_type(&self) -> (r: BackupType)
        ensures
            r == self.group.ty,
    {
        self.group.ty
    }

    /// Name of the group.
    pub fn backup_id(&self) -> (r: &str)
        ensures
            r@ == self.group.id@,
    {
        self.group.id.as_str()
    }

    /// Path within the datastore.
    pub fn relative_group_path(&self) -> (r: String)
        ensures
            r@ == group_path(self.ns@, self.group),
    {
        let path = self.ns.path();
        let path = join_path(path.as_str(), self.group.ty.as_str());
        join_path(path.as_str(), self.group.id.as_str())
    }

    /// Absolute path.
    pub fn full_group_path(&self) -> (r: String)
        ensures
            r@ == joined_path(self.store.base_path@, group_path(self.ns@, self.group)),
    {
        join_path(self.store.base_path.as_str(), self.relative_group_path().as_str())
    }

    /// Path of the file by which the group is locked.
    pub fn lock_path(&self) -> (r: String)
        ensures
            r@ == full_lock_path(self.store.name@, self.ns@, self.group.path_spec()),
    {
        lock_path(self.store.name.as_str(), &self.ns, self.group.path().as_str())
    }

    /// The snapshot of a time, which is printed as `time_string`.
    pub fn backup_dir(&self, time: i64, time_string: String) -> (r: BackupDir)
        ensures
            r.store.name@ == self.store.name@,
            r.store.base_path@ == self.store.base_path@,
            r.ns@ == self.ns@,
            r.dir.group.ty == self.group.ty,
            r.dir.group.id@ == self.group.id@,
            r.dir.time == time,
            r.backup_time_string@ == time_string@,
    {
        let group = BackupGroup {
            store: self.store.copy(),
            ns: self.ns.copy(),
            group: self.group.copy(),
        };
        BackupDir::with_group(group, time, time_string)
    }
}

/// A snapshot.
pub struct BackupDir {
    pub store: StoreInfo,
    pub ns: BackupNamespace,
    pub dir: SnapshotId,
    /// Printed time, which names the directory.
    pub backup_time_string: String,
}

impl BackupDir {
    /// Path within the namespace.
    pub open spec fn local_path(self) -> Seq<char> {
        joined_path(self.dir.group.path_spec(), self.backup_time_string@)
    }

    /// Path within the datastore.
    pub open spec fn relative_path_spec(self) -> Seq<char> {
        joined_path(group_path(self.ns@, self.dir.group), self.backup_time_string@)
    }

    /// Absolute path.
    pub open spec fn full_path_spec(self) -> Seq<char> {
        joined_path(self.store.base_path@, self.relative_path_spec())
    }

    /// The snapshot of a group at a time, which is printed as `time_string`.
    pub fn with_group(group: BackupGroup, backup_time: i64, time_string: String) -> (r: Self)
        ensures
            r == (BackupDir {
                store: group.store,
                ns: group.ns,
                dir: SnapshotId { group: group.group, time: backup_time },
                backup_time_string: time_string,
            }),
    {
        BackupDir {
            store: group.store,
            ns: group.ns,
            dir: SnapshotId { group: group.group, time: backup_time },
            backup_time_string: time_string,
        }
    }

    /// Namespace of the snapshot.
    pub fn backup_ns(&self) -> (r: &BackupNamespace)
        ensures
            *r == self.ns,
    {
        &self.ns
    }

    /// Kind of its group.
    pub fn backup_type(&self) -> (r: BackupType)
        ensures
            r == self.dir.group.ty,
    {
        self.dir.group.ty
    }

    /// Name of its group.
    pub fn backup_id(&self) -> (r: &str)
        ensures
            r@ == self.dir.group.id@,
    {
        self.dir.group.id.as_str()
    }

    /// Time of the backup.
    pub fn backup_time(&self) -> (r: i64)
        ensures
            r == self.dir.time,
    {
        self.dir.time
    }

    /// Printed time of the backup.
    pub fn backup_time_string(&self) -> (r: &str)
        ensures
            r@ == self.backup_time_string@,
    {
        self.backup_time_string.as_str()
    }

    /// Group and time.
    pub fn dir(&self) -> (r: &SnapshotId)
        ensures
            *r == self.dir,
    {
        &self.dir
    }

    /// Group of the snapshot.
    pub fn group(&self) -> (r: &GroupId)
        ensures
            *r == self.dir.group,
    {
        &self.dir.group
    }

    /// Datastore of the snapshot.
    pub fn datastore(&self) -> (r: &StoreInfo)
        ensures
            *r == self.store,
    {
        &self.store
    }

    /// Path within the datastore.
    pub fn relative_path(&self) -> (r: String)
        ensures
            r@ == self.relative_path_spec(),
    {
        let path = self.ns.path();
        let path = join_path(path.as_str(), self.dir.group.ty.as_str());
        let path = join_path(path.as_str(), self.dir.group.id.as_str());
        join_path(path.as_str(), self.backup_time_string.as_str())
    }

    /// Absolute path.
    pub fn full_path(&self) -> (r: String)
        ensures
            r@ == self.full_path_spec(),
    {
        join_path(self.store.base_path.as_str(), self.relative_path().as_str())
    }

    /// Path of the file that marks the snapshot as protected.
    pub fn protected_file(&self) -> (r: String)
        ensures
            r@ == joined_path(self.full_path_spec(), PROTECTED_MARKER_FILENAME@),
    {
        join_path(self.full_path().as_str(), PROTECTED_MARKER_FILENAME)
    }

    /// Path of the file by which the snapshot is locked.
    pub fn lock_path(&self) -> (r: String)
        ensures
            r@ == full_lock_path(self.store.name@, self.ns@, self.local_path()),
    {
        let path = join_path(self.dir.group.path().as_str(), self.backup_time_string.as_str());
        lock_path(self.store.name.as_str(), &self.ns, path.as_str())
    }

    /// Path of the file by which the manifest is locked.
    pub fn manifest_lock_path(&self) -> (r: String)
        ensures
            r@ == full_lock_path(self.store.name@, self.ns@, self.local_path())
                + MANIFEST_LOCK_NAME@,
    {
        join2(self.lock_path().as_str(), MANIFEST_LOCK_NAME)
    }
}

impl From<BackupDir> for BackupGroup {
    fn from(dir: BackupDir) -> (r: BackupGroup) {
        BackupGroup { store: dir.store, ns: dir.ns, group: dir.dir.group }
    }
}

impl vstd::std_specs::convert::FromSpecImpl<BackupDir> for BackupGroup {
    open spec fn obeys_from_spec() -> bool {
        true
    }

    open spec fn from_spec(dir: BackupDir) -> BackupGroup {
        BackupGroup { store: dir.store, ns: dir.ns, group: dir.dir.group }
    }
}

/// A snapshot lies in the directory of its group, and so do the files in it.
pub proof fn snapshot_lies_in_group(dir: BackupDir)
    requires
        dir.backup_time_string@.len() > 0,
        dir.backup_time_string@[0] != '/',
        dir.dir.group.id@.len() > 0,
        dir.dir.group.id@.last() != '/',
    ensures
        dir.relative_path_spec() == group_path(dir.ns@, dir.dir.group) + seq!['/']
            + dir.backup_time_string@,
{
    let group = group_path(dir.ns@, dir.dir.group);
    assert(group.last() == dir.dir.group.id@.last());
}

/// A snapshot and the files in it.
pub struct BackupInfo {
    pub backup_dir: BackupDir,
    /// Names of the data files.
    pub files: Vec<String>,
    /// The snapshot is protected.
    pub protected: bool,
}

/// An entry of the directory of a snapshot.
pub struct DirEntry {
    pub name: String,
    pub is_file: bool,
}

/// Whether a text ends in another one, before which there is no line break.
pub open spec fn ends_in(name: Seq<char>, suffix: Seq<char>) -> bool {
    &&& name.len() >= suffix.len()
    &&& name.skip(name.len() - suffix.len()) == suffix
    &&& forall|i: int| 0 <= i < name.len() - suffix.len() ==> #[trigger] name[i] != '\n'
}

/// Whether a file name is one of a data file: an index or a blob.
pub open spec fn is_data_name(name: Seq<char>) -> bool {
    ends_in(name, ".fidx"@) || ends_in(name, ".didx"@) || ends_in(name, ".blob"@)
}

/// Whether `name` ends in `suffix`, before which there is no line break.
fn has_suffix(name: &str, suffix: &str) -> (r: bool)
    ensures
        r == ends_in(name@, suffix@),
{
    let chars = to_chars(name);
    let end = to_chars(suffix);
    if chars.len() < end.len() {
        return false;
    }
    let total: usize = chars.len();
    let n: usize = total - end.len();
    for i in 0..n
        invariant
            chars@ == name@,
            end@ == suffix@,
            total == chars@.len(),
            n == total - end@.len(),
            forall|j: int| 0 <= j < i ==> #[trigger] name@[j] != '\n',
    {
        if chars[i] == '\n' {
            return false;
        }
    }
    for i in 0..end.len()
        invariant
            chars@ == name@,
            end@ == suffix@,
            total == chars@.len(),
            n == total - end@.len(),
            forall|j: int| 0 <= j < i ==> chars@[n + j] == end@[j],
    {
        if chars[n + i] != end[i] {
            assert(name@.skip(n as int)[i as int] != suffix@[i as int]);
            return false;
        }
    }
    assert(name@.skip(n as int) =~= suffix@);
    true
}

/// Whether a file name is one of a data file.
pub fn is_data_file(name: &str) -> (r: bool)
    ensures
        r == is_data_name(name@),
{
    has_suffix(name, ".fidx") || has_suffix(name, ".didx") || has_suffix(name, ".blob")
}

/// Names of the data files among some directory entries, in order.
pub open spec fn data_files(entries: Seq<DirEntry>) -> Seq<Seq<char>>
    decreases entries.len(),
{
    if entries.len() == 0 {
        seq![]
    } else {
        let before = data_files(entries.drop_last());
        let last = entries.last();
        if last.is_file && last.name@ != PROTECTED_MARKER_FILENAME@ && is_data_name(last.name@) {
            before.push(last.name@)
        } else {
            before
        }
    }
}

/// Whether the file that marks a snapshot as protected is among some entries.
pub open spec fn has_marker(entries: Seq<DirEntry>) -> bool {
    exists|i: int|
        0 <= i < entries.len() && (#[trigger] entries[i]).is_file && entries[i].name@
            == PROTECTED_MARKER_FILENAME@
}

/// The data files of a snapshot, and whether it is protected.
pub fn list_backup_files(entries: &Vec<DirEntry>) -> (r: (Vec<String>, bool))
    ensures
        texts(r.0@) == data_files(entries@),
        r.1 == has_marker(entries@),
{
    let mut files: Vec<String> = Vec::new();
    let mut protected: bool = false;
    assert(texts(files@) =~= Seq::<Seq<char>>::empty());
    for i in 0..entries.len()
        invariant
            texts(files@) == data_files(entries@.take(i as int)),
            protected == has_marker(entries@.take(i as int)),
    {
        let ghost before = entries@.take(i as int);
        let ghost after = entries@.take(i + 1);
        assert(after.drop_last() =~= before);
        let name = entries[i].name.as_str();
        let is_file = entries[i].is_file;
        let is_marker = str_eq(name, PROTECTED_MARKER_FILENAME);
        if is_file && is_marker {
            protected = true;
        } else if is_file && is_data_file(name) {
            let ghost old_files = files@;
            files.push(name.to_owned());
            assert(texts(files@) =~= texts(old_files).push(name@));
        }
        proof {
            if has_marker(before) {
                let k = choose|k: int|
                    0 <= k < before.len() && (#[trigger] before[k]).is_file && before[k].name@
                        == PROTECTED_MARKER_FILENAME@;
                assert(after[k].is_file);
            }
            assert(after[i as int] == entries@[i as int]);
            if has_marker(after) && !(is_file && is_marker) {
                let k = choose|k: int|
                    0 <= k < after.len() && (#[trigger] after[k]).is_file && after[k].name@
                        == PROTECTED_MARKER_FILENAME@;
                assert(before[k].is_file);
            }
        }
    }
    assert(entries@.take(entries@.len() as int) =~= entries@);
    (files, protected)
}

/// Whether a name is among others.
pub open spec fn named(names: Seq<Seq<char>>, name: Seq<char>) -> bool {
    exists|i: int| 0 <= i < names.len() && #[trigger] names[i] == name
}

fn is_named(names: &Vec<String>, name: &str) -> (r: bool)
    ensures
        r == named(texts(names@), name@),
{
    for i in 0..names.len()
        invariant
            forall|j: int| 0 <= j < i ==> #[trigger] texts(names@)[j] != name@,
    {
        if str_eq(names[i].as_str(), name) {
            assert(texts(names@)[i as int] == name@);
            return true;
        }
    }
    false
}

impl Keyed for BackupInfo {
    open spec fn key_spec(&self) -> int {
        self.backup_dir.dir.time as int
    }

    fn key(&self) -> (r: i128) {
        self.backup_dir.dir.time as i128
    }
}

/// A snapshot that is sorted by falling time.
pub struct NewestFirst {
    pub info: BackupInfo,
}

impl Keyed for NewestFirst {
    open spec fn key_spec(&self) -> int {
        -(self.info.backup_dir.dir.time as int)
    }

    fn key(&self) -> (r: i128) {
        -(self.info.backup_dir.dir.time as i128)
    }
}

/// Whether a list of snapshots is sorted by time.
pub open spec fn sorted_by_time(list: Seq<BackupInfo>, ascending: bool) -> bool {
    forall|i: int, j: int|
        0 <= i <= j < list.len() ==> if ascending {
            (#[trigger] list[i]).backup_dir.dir.time <= (#[trigger] list[j]).backup_dir.dir.time
        } else {
            list[i].backup_dir.dir.time >= list[j].backup_dir.dir.time
        }
}

spec fn unwrapped(list: Seq<NewestFirst>) -> Seq<BackupInfo> {
    Seq::new(list.len(), |i: int| list[i].info)
}

proof fn unwrapped_items(a: Seq<NewestFirst>, b: Seq<NewestFirst>)
    requires
        a.to_multiset() == b.to_multiset(),
    ensures
        unwrapped(a).to_multiset() == unwrapped(b).to_multiset(),
    decreases a.len(),
{
    broadcast use vstd::seq_lib::group_to_multiset_ensures;

    assert(a.len() == a.to_multiset().len());
    assert(b.len() == b.to_multiset().len());
    if a.len() == 0 {
        assert(unwrapped(a) =~= unwrapped(b));
    } else {
        let x = a.last();
        assert(a.contains(a[a.len() - 1]));
        assert(a.to_multiset().count(x) > 0);
        assert(b.contains(x));
        let k = b.index_of(x);
        let rest = b.remove(k);
        assert(a =~= a.drop_last().push(x));
        assert(a.drop_last().to_multiset() =~= rest.to_multiset()) by {
            assert(a.to_multiset() =~= a.drop_last().to_multiset().insert(x));
            assert(rest.to_multiset() =~= b.to_multiset().remove(x));
        }
        unwrapped_items(a.drop_last(), rest);
        assert(unwrapped(a) =~= unwrapped(a.drop_last()).push(x.info));
        assert(unwrapped(rest) =~= unwrapped(b).remove(k));
        assert(unwrapped(b)[k] == x.info);
        assert(unwrapped(rest).to_multiset() =~= unwrapped(b).to_multiset().remove(x.info));
        assert(unwrapped(b).contains(x.info));
        assert(unwrapped(b).to_multiset() =~= unwrapped(rest).to_multiset().insert(x.info));
        assert(unwrapped(a).to_multiset() =~= unwrapped(a.drop_last()).to_multiset().insert(
            x.info,
        ));
    }
}

impl BackupInfo {
    /// A snapshot with the files that its directory holds.
    pub fn new(backup_dir: BackupDir, entries: &Vec<DirEntry>) -> (r: BackupInfo)
        ensures
            r.backup_dir == backup_dir,
            texts(r.files@) == data_files(entries@),
            r.protected == has_marker(entries@),
    {
        let (files, protected) = list_backup_files(entries);
        BackupInfo { backup_dir, files, protected }
    }

    /// Sorts snapshots by time, oldest first or newest first.
    pub fn sort_list(list: &mut Vec<BackupInfo>, ascending: bool)
        ensures
            sorted_by_time(final(list)@, ascending),
            final(list)@.to_multiset() == old(list)@.to_multiset(),
    {
        let ghost all = list@;
        let mut taken: Vec<BackupInfo> = Vec::new();
        std::mem::swap(list, &mut taken);
        if ascending {
            let ordered = sort_by_key(taken);
            assert(sorted_by_time(ordered@, true)) by {
                assert forall|i: int, j: int| 0 <= i <= j < ordered@.len() implies (
                #[trigger] ordered@[i]).backup_dir.dir.time <= (
                #[trigger] ordered@[j]).backup_dir.dir.time by {
                    assert(ordered@[i].key_spec() <= ordered@[j].key_spec());
                }
            }
            *list = ordered;
        } else {
            let mut wrapped: Vec<NewestFirst> = Vec::new();
            for info in it: taken
                invariant
                    it.seq() == all,
                    unwrapped(wrapped@) == all.take(it.index() as int),
            {
                let ghost before = wrapped@;
                wrapped.push(NewestFirst { info });
                assert(unwrapped(wrapped@) =~= unwrapped(before).push(info));
                assert(all.take(it.index() + 1) =~= all.take(it.index() as int).push(info));
            }
            assert(all.take(all.len() as int) =~= all);
            let ghost start = wrapped@;
            let ordered = sort_by_key(wrapped);
            let ghost end = ordered@;
            proof {
                unwrapped_items(end, start);
            }
            let mut out: Vec<BackupInfo> = Vec::new();
            for item in it: ordered
                invariant
                    it.seq() == end,
                    out@ == unwrapped(end.take(it.index() as int)),
            {
                out.push(item.info);
                assert(unwrapped(end.take(it.index() + 1)) =~= unwrapped(
                    end.take(it.index() as int),
                ).push(item.info));
            }
            assert(end.take(end.len() as int) =~= end);
            assert(sorted_by_time(out@, false)) by {
                assert forall|i: int, j: int| 0 <= i <= j < out@.len() implies (
                #[trigger] out@[i]).backup_dir.dir.time >= (
                #[trigger] out@[j]).backup_dir.dir.time by {
                    assert(end[i].key_spec() <= end[j].key_spec());
                }
            }
            *list = out;
        }
    }

    /// Whether a manifest is among the files: a backup without one is not finished.
    pub open spec fn finished(self) -> bool {
        named(texts(self.files@), MANIFEST_BLOB_NAME@)
    }

    /// Whether the backup is finished.
    pub fn is_finished(&self) -> (r: bool)
        ensures
            r == self.finished(),
    {
        is_named(&self.files, MANIFEST_BLOB_NAME)
    }
}

/// Whether a snapshot is considered when the latest one is looked for.
pub open spec fn considered(info: BackupInfo, only_finished: bool) -> bool {
    !only_finished || info.finished()
}

impl BackupGroup {
    /// Position of the latest of some snapshots, or of the latest finished one. Of
    /// several with the latest time it is the last one.
    pub fn last_backup(list: &Vec<BackupInfo>, only_finished: bool) -> (r: Option<usize>)
        ensures
            match r {
                Some(k) => {
                    &&& k < list@.len()
                    &&& considered(list@[k as int], only_finished)
                    &&& forall|i: int|
                        0 <= i < list@.len() && considered(#[trigger] list@[i], only_finished)
                            ==> list@[i].backup_dir.dir.time <= list@[k as int].backup_dir.dir.time && (i
                            > k ==> list@[i].backup_dir.dir.time < list@[k as int].backup_dir.dir.time)
                },
                None => forall|i: int|
                    0 <= i < list@.len() ==> !considered(#[trigger] list@[i], only_finished),
            },
    {
        let mut best: Option<usize> = None;
        for i in 0..list.len()
            invariant
                match best {
                    Some(k) => {
                        &&& k < i
                        &&& considered(list@[k as int], only_finished)
                        &&& forall|j: int|
                            0 <= j < i && considered(#[trigger] list@[j], only_finished)
                                ==> list@[j].backup_dir.dir.time <= list@[k as int].backup_dir.dir.time
                                && (j > k ==> list@[j].backup_dir.dir.time
                                < list@[k as int].backup_dir.dir.time)
                    },
                    None => forall|j: int|
                        0 <= j < i ==> !considered(#[trigger] list@[j], only_finished),
                },
        {
            if !only_finished || list[i].is_finished() {
                match best {
                    Some(k) => {
                        if list[i].backup_dir.dir.time >= list[k].backup_dir.dir.time {
                            best = Some(i);
                        }
                    },
                    None => {
                        best = Some(i);
                    },
                }
            }
        }
        best
    }
}

/// An entry of the directory of a group.
pub struct GroupEntry {
    /// Name of the entry, which is the printed time of a snapshot.
    pub name: String,
    pub is_directory: bool,
    /// The time that the name stands for, if it can be read.
    pub time: Option<i64>,
    /// Entries of the directory.
    pub entries: Vec<DirEntry>,
}

/// The directories among some entries, in order.
pub open spec fn directories(entries: Seq<GroupEntry>) -> Seq<GroupEntry>
    decreases entries.len(),
{
    if entries.len() == 0 {
        seq![]
    } else if entries.last().is_directory {
        directories(entries.drop_last()).push(entries.last())
    } else {
        directories(entries.drop_last())
    }
}

/// Whether an entry stands for a snapshot whose time cannot be read.
pub open spec fn time_unreadable(entry: GroupEntry) -> bool {
    entry.is_directory && entry.time is None
}

/// Whether `info` is the snapshot of a group that an entry stands for.
pub open spec fn is_listed(group: BackupGroup, entry: GroupEntry, info: BackupInfo) -> bool {
    let dir = info.backup_dir;
    &&& dir.store.name@ == group.store.name@
    &&& dir.store.base_path@ == group.store.base_path@
    &&& dir.ns@ == group.ns@
    &&& dir.dir.group.ty == group.group.ty
    &&& dir.dir.group.id@ == group.group.id@
    &&& entry.time == Some(dir.dir.time)
    &&& dir.backup_time_string@ == entry.name@
    &&& texts(info.files@) == data_files(entry.entries@)
    &&& info.protected == has_marker(entry.entries@)
}

impl BackupGroup {
    /// The snapshots of the group, from the entries of its directory. Fails at the
    /// first snapshot whose time cannot be read.
    pub fn list_backups(&self, entries: &Vec<GroupEntry>) -> (r: Result<Vec<BackupInfo>, usize>)
        ensures
            match r {
                Ok(list) => {
                    &&& list@.len() == directories(entries@).len()
                    &&& forall|i: int|
                        0 <= i < list@.len() ==> is_listed(
                            *self,
                            directories(entries@)[i],
                            #[trigger] list@[i],
                        )
                    &&& forall|i: int|
                        0 <= i < entries@.len() ==> !time_unreadable(#[trigger] entries@[i])
                },
                Err(k) => {
                    &&& k < entries@.len()
                    &&& time_unreadable(entries@[k as int])
                    &&& forall|i: int| 0 <= i < k ==> !time_unreadable(#[trigger] entries@[i])
                },
            },
    {
        let mut list: Vec<BackupInfo> = Vec::new();
        for k in 0..entries.len()
            invariant
                list@.len() == directories(entries@.take(k as int)).len(),
                forall|i: int|
                    0 <= i < list@.len() ==> is_listed(
                        *self,
                        directories(entries@.take(k as int))[i],
                        #[trigger] list@[i],
                    ),
                forall|i: int| 0 <= i < k ==> !time_unreadable(#[trigger] entries@[i]),
        {
            let entry = &entries[k];
            assert(entries@.take(k + 1).drop_last() =~= entries@.take(k as int));
            assert(entries@.take(k + 1).last() == *entry);
            if entry.is_directory {
                match entry.time {
                    Some(time) => {
                        let dir = self.backup_dir(time, entry.name.clone());
                        list.push(BackupInfo::new(dir, &entry.entries));
                    },
                    None => {
                        return Err(k);
                    },
                }
            }
        }
        assert(entries@.take(entries@.len() as int) =~= entries@);
        Ok(list)
    }
}

/// What came of opening the manifest of a snapshot.
#[derive(Clone, Copy, Debug, PartialEq, Eq, Structural)]
pub enum ManifestProbe {
    Opened,
    NotFound,
    Failed,
}

/// An entry of the directory of a group, as far as it is looked at to find the last
/// successful backup.
#[derive(Clone, Copy, Debug, PartialEq, Eq, Structural)]
pub struct SnapshotEntry {
    pub is_directory: bool,
    pub manifest: ManifestProbe,
    /// The time that the name stands for, if it can be read.
    pub time: Option<i64>,
}

impl SnapshotEntry {
    /// Whether the entry is a snapshot with a manifest.
    pub open spec fn has_manifest(self) -> bool {
        self.is_directory && self.manifest == ManifestProbe::Opened
    }

    /// What is wrong with the entry, if anything is.
    pub open spec fn problem(self) -> Option<LastBackupProblem> {
        if self.is_directory && self.manifest == ManifestProbe::Failed {
            Some(LastBackupProblem::Manifest)
        } else if self.has_manifest() && self.time is None {
            Some(LastBackupProblem::Time)
        } else {
            None
        }
    }
}

/// Why the last successful backup cannot be told.
#[derive(Clone, Copy, Debug, PartialEq, Eq, Structural)]
pub enum LastBackupProblem {
    /// A manifest could not be opened, although it may be there.
    Manifest,
    /// The time of a snapshot cannot be read.
    Time,
}

/// The first entry that something is wrong with.
#[derive(Clone, Copy, Debug, PartialEq, Eq, Structural)]
pub struct LastBackupError {
    pub entry: usize,
    pub problem: LastBackupProblem,
}

/// Message of [`LastBackupProblem::Manifest`].
pub fn last_backup_error(err: &str) -> (r: String)
    ensures
        r@ == "last_successful_backup: unexpected error - "@ + err@,
{
    join2("last_successful_backup: unexpected error - ", err)
}

impl BackupGroup {
    /// Time of the last backup that has a manifest: such a backup was successful.
    pub fn last_successful_backup(entries: &Vec<SnapshotEntry>) -> (r: Result<
        Option<i64>,
        LastBackupError,
    >)
        ensures
            match r {
                Ok(last) => {
                    &&& forall|i: int|
                        0 <= i < entries@.len() ==> (#[trigger] entries@[i]).problem() is None
                    &&& match last {
                        Some(time) => {
                            &&& exists|i: int|
                                0 <= i < entries@.len() && (#[trigger] entries@[i]).has_manifest()
                                    && entries@[i].time == Some(time)
                            &&& forall|i: int|
                                0 <= i < entries@.len() && (#[trigger] entries@[i]).has_manifest()
                                    ==> entries@[i].time->0 <= time
                        },
                        None => forall|i: int|
                            0 <= i < entries@.len() ==> !(#[trigger] entries@[i]).has_manifest(),
                    }
                },
                Err(err) => {
                    &&& err.entry < entries@.len()
                    &&& entries@[err.entry as int].problem() == Some(err.problem)
                    &&& forall|i: int|
                        0 <= i < err.entry ==> (#[trigger] entries@[i]).problem() is None
                },
            },
    {
        let mut last: Option<i64> = None;
        for k in 0..entries.len()
            invariant
                forall|i: int| 0 <= i < k ==> (#[trigger] entries@[i]).problem() is None,
                match last {
                    Some(time) => {
                        &&& exists|i: int|
                            0 <= i < k && (#[trigger] entries@[i]).has_manifest()
                                && entries@[i].time == Some(time)
                        &&& forall|i: int|
                            0 <= i < k && (#[trigger] entries@[i]).has_manifest()
                                ==> entries@[i].time->0 <= time
                    },
                    None => forall|i: int|
                        0 <= i < k ==> !(#[trigger] entries@[i]).has_manifest(),
                },
        {
            let entry: SnapshotEntry = entries[k];
            assert(entry == entries@[k as int]);
            if entry.is_directory {
                match entry.manifest {
                    ManifestProbe::Opened => {
                        let time: i64 = match entry.time {
                            Some(time) => time,
                            None => {
                                return Err(
                                    LastBackupError { entry: k, problem: LastBackupProblem::Time },
                                );
                            },
                        };
                        match last {
                            Some(latest) => {
                                if time > latest {
                                    last = Some(time);
                                }
                            },
                            None => {
                                last = Some(time);
                            },
                        }
                    },
                    ManifestProbe::NotFound => {},
                    ManifestProbe::Failed => {
                        return Err(
                            LastBackupError { entry: k, problem: LastBackupProblem::Manifest },
                        );
                    },
                }
            }
        }
        Ok(last)
    }
}

/// Why two groups are not merged.
#[derive(Clone, Copy, Debug, PartialEq, Eq, Structural)]
pub enum MergeError {
    /// They have different owners.
    OwnerMismatch,
    /// The first snapshot of the target that is not older than the oldest one of the
    /// source, and that one.
    TimeMismatch { oldest: usize, conflict: usize },
}

/// Time of the oldest of some snapshots; the greatest time if there is none.
pub open spec fn oldest(times: Seq<i64>) -> i64
    decreases times.len(),
{
    if times.len() == 0 {
        i64::MAX
    } else {
        let before = oldest(times.drop_last());
        if times.last() < before {
            times.last()
        } else {
            before
        }
    }
}

/// Position of the first of some snapshots that is not older than `time`.
pub open spec fn first_conflict(times: Seq<i64>, time: i64, k: int) -> bool {
    &&& 0 <= k < times.len()
    &&& times[k] >= time
    &&& forall|i: int| 0 <= i < k ==> #[trigger] times[i] < time
}

/// Position of the first one of the oldest snapshots.
pub open spec fn first_oldest(times: Seq<i64>, k: int) -> bool {
    &&& 0 <= k < times.len()
    &&& times[k] == oldest(times)
    &&& forall|i: int| 0 <= i < k ==> #[trigger] times[i] > oldest(times)
}

impl BackupGroup {
    /// Checks that the snapshots of one group can be moved to another: both need to
    /// have the same owner, and all snapshots of the source need to be newer than
    /// those of the target.
    pub fn check_merge_invariants(
        source_owner: &Authid,
        target_owner: &Authid,
        source: &Vec<i64>,
        target: &Vec<i64>,
    ) -> (r: Result<(), MergeError>)
        ensures
            match r {
                Ok(()) => {
                    &&& source_owner@ == target_owner@
                    &&& oldest(source@) == i64::MAX || forall|i: int|
                        0 <= i < target@.len() ==> #[trigger] target@[i] < oldest(source@)
                },
                Err(MergeError::OwnerMismatch) => source_owner@ != target_owner@,
                Err(MergeError::TimeMismatch { oldest: first, conflict }) => {
                    &&& source_owner@ == target_owner@
                    &&& oldest(source@) != i64::MAX
                    &&& first_oldest(source@, first as int)
                    &&& first_conflict(target@, oldest(source@), conflict as int)
                },
            },
    {
        if !source_owner.same(target_owner) {
            return Err(MergeError::OwnerMismatch);
        }
        let mut min: i64 = i64::MAX;
        let mut first: usize = 0;
        for i in 0..source.len()
            invariant
                min == oldest(source@.take(i as int)),
                min != i64::MAX ==> first_oldest(source@.take(i as int), first as int),
        {
            let ghost before = source@.take(i as int);
            let ghost after = source@.take(i + 1);
            assert(after.drop_last() =~= before);
            proof {
                oldest_is_least(before);
                assert forall|j: int| 0 <= j < i implies after[j] == before[j] by {}
            }
            if source[i] < min {
                min = source[i];
                first = i;
            }
        }
        assert(source@.take(source@.len() as int) =~= source@);
        if min != i64::MAX {
            for i in 0..target.len()
                invariant
                    source_owner@ == target_owner@,
                    min == oldest(source@),
                    min != i64::MAX,
                    first_oldest(source@, first as int),
                    forall|j: int| 0 <= j < i ==> #[trigger] target@[j] < min,
            {
                if target[i] >= min {
                    return Err(MergeError::TimeMismatch { oldest: first, conflict: i });
                }
            }
        }
        Ok(())
    }
}

proof fn oldest_is_least(times: Seq<i64>)
    ensures
        forall|i: int| 0 <= i < times.len() ==> oldest(times) <= #[trigger] times[i],
        times.len() > 0 && oldest(times) != i64::MAX ==> times.contains(oldest(times)),
    decreases times.len(),
{
    if times.len() > 0 {
        let init = times.drop_last();
        oldest_is_least(init);
        assert forall|i: int| 0 <= i < times.len() implies oldest(times) <= #[trigger] times[i] by {
            if i < init.len() {
                assert(times[i] == init[i]);
            }
        }
        assert(times[times.len() - 1] == times.last());
        if init.len() > 0 && init.contains(oldest(init)) {
            let k = init.index_of(oldest(init));
            assert(times[k] == oldest(init));
        }
    }
}

/// After a merge that was allowed, every snapshot of the source is newer than
/// every one that was in the target.
pub proof fn merge_keeps_order(source: Seq<i64>, target: Seq<i64>, i: int, j: int)
    requires
        oldest(source) == i64::MAX || forall|k: int|
            0 <= k < target.len() ==> #[trigger] target[k] < oldest(source),
        0 <= i < source.len(),
        source[i] < i64::MAX,
        0 <= j < target.len(),
    ensures
        target[j] < source[i],
{
    oldest_is_least(source);
    assert(oldest(source) <= source[i]);
}

/// Lines that name the oldest snapshot of the source and the one of the target that
/// stands in its way.
pub fn merge_conflict_lines(oldest: &str, conflict: &str) -> (r: (String, String))
    ensures
        r.0@ == "oldest source snapshot: "@ + oldest@,
        r.1@ == "conflicting target snapshot: "@ + conflict@,
{
    (join2("oldest source snapshot: ", oldest), join2("conflicting target snapshot: ", conflict))
}

impl MergeError {
    /// The message, with the printed group, both namespaces and both owners.
    pub open spec fn text(
        self,
        group: Seq<char>,
        source_ns: Seq<char>,
        target_ns: Seq<char>,
        source_owner: Seq<char>,
        target_owner: Seq<char>,
    ) -> Seq<char> {
        "cannot merge group '"@ + group + "' from '"@ + source_ns + "' into '"@ + target_ns + (
        match self {
            MergeError::OwnerMismatch => "': owner mismatch (source: "@ + source_owner
                + ", target: "@ + target_owner + ")"@,
            MergeError::TimeMismatch { .. } => "': snapshot time mismatch"@,
        })
    }

    /// The message, with the printed group, both namespaces and both owners.
    pub fn message(
        &self,
        group: &GroupId,
        source_ns: &BackupNamespace,
        target_ns: &BackupNamespace,
        source_owner: &Authid,
        target_owner: &Authid,
    ) -> (r: String)
        ensures
            r@ == self.text(
                group.text(),
                joined(source_ns@, "/"@),
                joined(target_ns@, "/"@),
                source_owner@.text(),
                target_owner@.text(),
            ),
    {
        let mut r = join3("cannot merge group '", group.to_string().as_str(), "' from '");
        r.append(source_ns.to_string().as_str());
        r.append("' into '");
        r.append(target_ns.to_string().as_str());
        let end = match self {
            MergeError::OwnerMismatch => {
                let mut end = join3(
                    "': owner mismatch (source: ",
                    source_owner.to_string().as_str(),
                    ", target: ",
                );
                end.append(target_owner.to_string().as_str());
                end.append(")");
                end
            },
            MergeError::TimeMismatch { .. } => "': snapshot time mismatch".to_owned(),
        };
        r.append(end.as_str());
        r
    }
}

/// An entry of the directory of a snapshot that is cleaned up.
pub struct CleanupEntry {
    /// Name of the entry; none if it is not valid text.
    pub name: Option<String>,
    /// Whether it is a file, if that is known.
    pub is_file: Option<bool>,
}

/// Whether the name of an entry is wanted: manifest, client log, and what the
/// manifest names.
pub open spec fn wanted(manifest_files: Seq<Seq<char>>, name: Seq<char>) -> bool {
    ||| name == MANIFEST_BLOB_NAME@
    ||| name == CLIENT_LOG_BLOB_NAME@
    ||| named(manifest_files, name)
}

/// Whether an entry is removed: it may be a file, and its name is not wanted.
pub open spec fn unreferenced(manifest_files: Seq<Seq<char>>, entry: CleanupEntry) -> bool {
    &&& entry.is_file != Some(false)
    &&& match entry.name {
        Some(name) => name@ != "."@ && name@ != ".."@ && !wanted(manifest_files, name@),
        None => true,
    }
}

/// Whether an entry is removed because the manifest does not name it.
pub fn is_unreferenced(manifest_files: &Vec<String>, entry: &CleanupEntry) -> (r: bool)
    ensures
        r == unreferenced(texts(manifest_files@), *entry),
{
    if let Some(is_file) = entry.is_file {
        if !is_file {
            return false;
        }
    }
    match &entry.name {
        Some(name) => {
            let name = name.as_str();
            !str_eq(name, ".") && !str_eq(name, "..") && !str_eq(name, MANIFEST_BLOB_NAME)
                && !str_eq(name, CLIENT_LOG_BLOB_NAME) && !is_named(manifest_files, name)
        },
        None => true,
    }
}

/// Positions of the unreferenced ones of the first `n` entries, in order.
pub open spec fn unreferenced_of(
    manifest_files: Seq<Seq<char>>,
    entries: Seq<CleanupEntry>,
    n: nat,
) -> Seq<usize>
    decreases n,
{
    if n == 0 {
        seq![]
    } else {
        let before = unreferenced_of(manifest_files, entries, (n - 1) as nat);
        if unreferenced(manifest_files, entries[n - 1]) {
            before.push((n - 1) as usize)
        } else {
            before
        }
    }
}

impl BackupDir {
    /// Positions of the entries to remove from the directory of a snapshot: those
    /// that its manifest does not name.
    pub fn cleanup_unreferenced_files(
        manifest_files: &Vec<String>,
        entries: &Vec<CleanupEntry>,
    ) -> (r: Vec<usize>)
        ensures
            r@ == unreferenced_of(texts(manifest_files@), entries@, entries@.len()),
    {
        let mut r: Vec<usize> = Vec::new();
        for i in 0..entries.len()
            invariant
                r@ == unreferenced_of(texts(manifest_files@), entries@, i as nat),
        {
            if is_unreferenced(manifest_files, &entries[i]) {
                r.push(i);
            }
        }
        r
    }
}

/// The manifest, the client log and all files that the manifest names survive a
/// cleanup.
pub proof fn referenced_files_survive(
    manifest_files: Seq<Seq<char>>,
    entries: Seq<CleanupEntry>,
    n: nat,
    k: usize,
)
    requires
        n <= entries.len(),
        entries.len() <= usize::MAX,
        unreferenced_of(manifest_files, entries, n).contains(k),
    ensures
        k < n,
        unreferenced(manifest_files, entries[k as int]),
    decreases n,
{
    if n > 0 {
        let before = unreferenced_of(manifest_files, entries, (n - 1) as nat);
        let list = unreferenced_of(manifest_files, entries, n);
        let i = list.index_of(k);
        if i < before.len() {
            assert(before[i] == k);
            assert(before.contains(k));
            referenced_files_survive(manifest_files, entries, (n - 1) as nat, k);
        }
    }
}

/// A name is one of a data file exactly if it is some name without a line break, followed by
/// the ending of an index or a blob.
pub proof fn data_files_go_by_ending(stem: Seq<char>, name: Seq<char>)
    requires
        !stem.contains('\n'),
    ensures
        is_data_name(stem + ".fidx"@),
        is_data_name(stem + ".didx"@),
        is_data_name(stem + ".blob"@),
        is_data_name(name) ==> exists|n: int|
            {
                &&& 0 <= n <= name.len()
                &&& !(#[trigger] name.take(n)).contains('\n')
                &&& name == name.take(n) + ".fidx"@ || name == name.take(n) + ".didx"@ || name
                    == name.take(n) + ".blob"@
            },
{
    ending_is_found(stem, ".fidx"@);
    ending_is_found(stem, ".didx"@);
    ending_is_found(stem, ".blob"@);
    if is_data_name(name) {
        let suffix = if ends_in(name, ".fidx"@) {
            ".fidx"@
        } else if ends_in(name, ".didx"@) {
            ".didx"@
        } else {
            ".blob"@
        };
        let n = name.len() - suffix.len();
        assert(name =~= name.take(n) + name.skip(n));
        assert(!name.take(n).contains('\n'));
    }
}

proof fn ending_is_found(stem: Seq<char>, suffix: Seq<char>)
    requires
        !stem.contains('\n'),
    ensures
        ends_in(stem + suffix, suffix),
{
    let name = stem + suffix;
    assert(name.skip(name.len() - suffix.len()) =~= suffix);
    assert forall|i: int| 0 <= i < name.len() - suffix.len() implies #[trigger] name[i] != '\n' by {
        assert(stem[i] == name[i]);
    }
}

/// The files of a snapshot are exactly the data files of its directory, and the marker is
/// none of them.
pub proof fn listed_files_are_data_files(entries: Seq<DirEntry>, name: Seq<char>)
    ensures
        data_files(entries).contains(name) <==> is_data_name(name) && name
            != PROTECTED_MARKER_FILENAME@ && exists|i: int|
            0 <= i < entries.len() && (#[trigger] entries[i]).is_file && entries[i].name@ == name,
        data_files(entries).len() <= entries.len(),
    decreases entries.len(),
{
    if entries.len() > 0 {
        let init = entries.drop_last();
        listed_files_are_data_files(init, name);
        let before = data_files(init);
        let after = data_files(entries);
        assert(entries[entries.len() - 1] == entries.last());
        if after.contains(name) {
            let k = after.index_of(name);
            if k < before.len() {
                assert(before[k] == name);
                assert(before.contains(name));
                let i = choose|i: int|
                    0 <= i < init.len() && (#[trigger] init[i]).is_file && init[i].name@ == name;
                assert(entries[i] == init[i]);
            }
        }
        if is_data_name(name) && name != PROTECTED_MARKER_FILENAME@ && exists|i: int|
            0 <= i < entries.len() && (#[trigger] entries[i]).is_file && entries[i].name@ == name {
            let i = choose|i: int|
                0 <= i < entries.len() && (#[trigger] entries[i]).is_file && entries[i].name@
                    == name;
            if i < init.len() {
                assert(init[i] == entries[i]);
                assert(before.contains(name));
                let k = before.index_of(name);
                assert(after[k] == name);
            } else {
                assert(after[after.len() - 1] == name);
            }
        }
    }
}

/// A snapshot is finished exactly if its manifest is among its files, and protected exactly
/// if its directory has the marker as a file. An unfinished one is left out exactly where
/// only finished ones are asked for.
pub proof fn finished_means_manifest(info: BackupInfo, entries: Seq<DirEntry>, only_finished: bool)
    ensures
        info.finished() <==> exists|i: int|
            0 <= i < info.files@.len() && (#[trigger] info.files@[i])@ == MANIFEST_BLOB_NAME@,
        !considered(info, only_finished) <==> only_finished && !info.finished(),
        has_marker(entries) <==> exists|i: int|
            0 <= i < entries.len() && (#[trigger] entries[i]).is_file && entries[i].name@
                == PROTECTED_MARKER_FILENAME@,
{
    let names = texts(info.files@);
    if info.finished() {
        let i = choose|i: int| 0 <= i < names.len() && #[trigger] names[i] == MANIFEST_BLOB_NAME@;
        assert(info.files@[i]@ == MANIFEST_BLOB_NAME@);
    }
    if exists|i: int|
        0 <= i < info.files@.len() && (#[trigger] info.files@[i])@ == MANIFEST_BLOB_NAME@ {
        let i = choose|i: int|
            0 <= i < info.files@.len() && (#[trigger] info.files@[i])@ == MANIFEST_BLOB_NAME@;
        assert(names[i] == MANIFEST_BLOB_NAME@);
    }
}

/// The snapshots of a group are looked for in exactly its directories.
pub proof fn only_directories_are_looked_at(entries: Seq<GroupEntry>)
    ensures
        directories(entries).len() <= entries.len(),
        forall|i: int|
            0 <= i < entries.len() && (#[trigger] entries[i]).is_directory ==> directories(
                entries,
            ).contains(entries[i]),
        forall|i: int|
            0 <= i < directories(entries).len() ==> (#[trigger] directories(entries)[i]).is_directory
                && entries.contains(directories(entries)[i]),
    decreases entries.len(),
{
    if entries.len() > 0 {
        let init = entries.drop_last();
        only_directories_are_looked_at(init);
        let before = directories(init);
        let after = directories(entries);
        assert(entries[entries.len() - 1] == entries.last());
        assert forall|i: int| 0 <= i < entries.len() && (#[trigger] entries[i]).is_directory implies
            after.contains(entries[i]) by {
            if i < init.len() {
                assert(init[i] == entries[i]);
                let k = before.index_of(entries[i]);
                assert(after[k] == entries[i]);
            } else {
                assert(after[after.len() - 1] == entries[i]);
            }
        }
        assert forall|i: int| 0 <= i < after.len() implies (#[trigger] after[i]).is_directory
            && entries.contains(after[i]) by {
            if i < before.len() {
                assert(init.contains(before[i]));
                let k = init.index_of(before[i]);
                assert(entries[k] == after[i]);
            }
        }
    }
}

/// What a snapshot tells of the last successful backup: one whose manifest was opened counts,
/// and has to have a time; one whose manifest cannot be opened is a problem; and one without
/// a manifest, or that is no directory, is passed over.
pub proof fn only_manifests_count(entry: SnapshotEntry)
    ensures
        entry.has_manifest() <==> entry.is_directory && entry.manifest == ManifestProbe::Opened,
        entry.problem() == Some(LastBackupProblem::Manifest) <==> entry.is_directory
            && entry.manifest == ManifestProbe::Failed,
        entry.problem() == Some(LastBackupProblem::Time) <==> entry.is_directory && entry.manifest
            == ManifestProbe::Opened && entry.time is None,
        !entry.is_directory ==> entry.problem() is None,
{
}

/// The oldest of some times is one of them, and none is older.
pub proof fn oldest_is_one_of_them(times: Seq<i64>)
    ensures
        forall|i: int| 0 <= i < times.len() ==> oldest(times) <= #[trigger] times[i],
        times.len() > 0 ==> times.contains(oldest(times)),
    decreases times.len(),
{
    if times.len() > 0 {
        let init = times.drop_last();
        oldest_is_one_of_them(init);
        assert(times[times.len() - 1] == times.last());
        assert forall|i: int| 0 <= i < times.len() implies oldest(times) <= #[trigger] times[i] by {
            if i < init.len() {
                assert(times[i] == init[i]);
            }
        }
        if oldest(times) != times.last() {
            if init.len() > 0 {
                let k = init.index_of(oldest(init));
                assert(times[k] == oldest(times));
            } else {
                assert(oldest(init) == i64::MAX);
            }
        }
    }
}

/// The manifest, the client log, what the manifest names, directories and the entries for
/// the directory and the one above are never removed; every other entry is, and one whose
/// name cannot be read.
pub proof fn everything_else_is_removed(
    manifest_files: Seq<Seq<char>>,
    entries: Seq<CleanupEntry>,
    n: nat,
    k: usize,
)
    requires
        n <= entries.len(),
        entries.len() <= usize::MAX,
        k < n,
    ensures
        ({
            let entry = entries[k as int];
            let spared = entry.name matches Some(name) && (name@ == MANIFEST_BLOB_NAME@ || name@
                == CLIENT_LOG_BLOB_NAME@ || manifest_files.contains(name@) || name@ == "."@
                || name@ == ".."@);
            unreferenced_of(manifest_files, entries, n).contains(k) <==> entry.is_file != Some(false)
                && !spared
        }),
    decreases n,
{
    let m = (n - 1) as nat;
    let before = unreferenced_of(manifest_files, entries, m);
    let after = unreferenced_of(manifest_files, entries, n);
    if let Some(name) = entries[k as int].name {
        assert(named(manifest_files, name@) <==> manifest_files.contains(name@));
    }
    if k < m {
        everything_else_is_removed(manifest_files, entries, m, k);
        if before.contains(k) {
            let i = before.index_of(k);
            assert(after[i] == k);
        }
        if after.contains(k) {
            let i = after.index_of(k);
            assert(i < before.len());
            assert(before[i] == k);
        }
    } else {
        if unreferenced(manifest_files, entries[k as int]) {
            assert(after[after.len() - 1] == k);
        }
        if after.contains(k) && !unreferenced(manifest_files, entries[k as int]) {
            referenced_files_survive(manifest_files, entries, m, k);
        }
    }
}

/// What stands in the way of a merge is the first snapshot of the target that is not older
/// than all of the source, and it is told along with the first of the oldest ones there.
pub proof fn first_conflict_is_told(source: Seq<i64>, target: Seq<i64>, first: int, conflict: int)
    requires
        first_oldest(source, first),
        first_conflict(target, oldest(source), conflict),
    ensures
        0 <= first < source.len(),
        0 <= conflict < target.len(),
        target[conflict] >= source[first],
        forall|i: int| 0 <= i < source.len() ==> source[first] <= #[trigger] source[i],
        forall|i: int| 0 <= i < first ==> source[first] < #[trigger] source[i],
        forall|i: int, j: int|
            0 <= i < conflict && 0 <= j < source.len() ==> #[trigger] target[i]
                < #[trigger] source[j],
{
    oldest_is_one_of_them(source);
}

/// A list that is sorted by time rises or falls as it was asked for.
pub proof fn sorting_goes_the_asked_way(list: Seq<BackupInfo>, i: int, j: int)
    requires
        0 <= i <= j < list.len(),
    ensures
        sorted_by_time(list, true) ==> list[i].backup_dir.dir.time <= list[j].backup_dir.dir.time,
        sorted_by_time(list, false) ==> list[i].backup_dir.dir.time >= list[j].backup_dir.dir.time,
{
}

/// A directory of a group is listed as the snapshot of its own name and time, in that group
/// and namespace, with its own files; only a directory can have a time that cannot be read.
pub proof fn directories_are_listed_as_they_are(
    group: BackupGroup,
    entry: GroupEntry,
    info: BackupInfo,
)
    ensures
        is_listed(group, entry, info) ==> {
            &&& info.backup_dir.ns@ == group.ns@
            &&& info.backup_dir.dir.group.ty == group.group.ty
            &&& info.backup_dir.dir.group.id@ == group.group.id@
            &&& entry.time == Some(info.backup_dir.dir.time)
            &&& info.backup_dir.backup_time_string@ == entry.name@
            &&& texts(info.files@) == data_files(entry.entries@)
            &&& info.protected <==> has_marker(entry.entries@)
        },
        time_unreadable(entry) <==> entry.is_directory && entry.time is None,
{
}

} // verus!
