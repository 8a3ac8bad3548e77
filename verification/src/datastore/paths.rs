//! Paths, as texts with slashes.

use vstd::prelude::*;
use crate::namespace::BackupNamespace;
use crate::text::{chars_range, str_eq, to_chars};
use crate::types::{ArchiveType, BackupType};

verus! {

/// A path with another one put behind it: an absolute path replaces all that is
/// before it, and a slash is set between the two where there is none.
pub open spec fn joined_path(base: Seq<char>, part: Seq<char>) -> Seq<char> {
    if part.len() > 0 && part[0] == '/' {
        part
    } else if base.len() == 0 || base.last() == '/' {
        base + part
    } else {
        base + seq!['/'] + part
    }
}

/// A path with another one put behind it.
pub fn join_path(base: &str, part: &str) -> (r: String)
    ensures
        r@ == joined_path(base@, part@),
{
    let base_chars = to_chars(base);
    let part_chars = to_chars(part);
    if part_chars.len() > 0 && part_chars[0] == '/' {
        return part.to_owned();
    }
    let mut r = base.to_owned();
    if base_chars.len() > 0 && base_chars[base_chars.len() - 1] != '/' {
        r.push('/');
        assert(base@.push('/') =~= base@ + seq!['/']);
    }
    r.append(part);
    r
}

impl BackupType {
    /// Name of the directory for backups of this kind.
    pub open spec fn text(self) -> Seq<char> {
        match self {
            BackupType::Vm => "vm"@,
            BackupType::Ct => "ct"@,
            BackupType::Host => "host"@,
        }
    }

    /// Name of the directory for backups of this kind.
    pub fn as_str(&self) -> (r: &'static str)
        ensures
            r@ == self.text(),
    {
        match self {
            BackupType::Vm => "vm",
            BackupType::Ct => "ct",
            BackupType::Host => "host",
        }
    }

    /// The kind with a name, if there is one.
    pub fn parse(name: &str) -> (r: Option<BackupType>)
        ensures
            match r {
                Some(ty) => ty.text() == name@,
                None => forall|ty: BackupType| #[trigger] ty.text() != name@,
            },
    {
        if str_eq(name, "vm") {
            Some(BackupType::Vm)
        } else if str_eq(name, "ct") {
            Some(BackupType::Ct)
        } else if str_eq(name, "host") {
            Some(BackupType::Host)
        } else {
            None
        }
    }
}

/// Path of a namespace within a datastore: a directory `ns` for each level.
pub open spec fn ns_path(ns: Seq<Seq<char>>) -> Seq<char>
    decreases ns.len(),
{
    if ns.len() == 0 {
        seq![]
    } else {
        joined_path(joined_path(ns_path(ns.drop_last()), "ns"@), ns.last())
    }
}

impl BackupNamespace {
    /// Path within a datastore.
    pub fn path(&self) -> (r: String)
        ensures
            r@ == ns_path(self@),
    {
        let mut r = String::new();
        assert(self@.take(0) =~= Seq::<Seq<char>>::empty());
        for i in 0..self.components.len()
            invariant
                r@ == ns_path(self@.take(i as int)),
        {
            assert(self@.take(i + 1).drop_last() =~= self@.take(i as int));
            assert(self@.take(i + 1).last() == self.components@[i as int]@);
            let below = join_path(r.as_str(), "ns");
            r = join_path(below.as_str(), self.components[i].as_str());
        }
        assert(self@.take(self@.len() as int) =~= self@);
        r
    }
}

/// Position of the last dot of a name, if it has one.
pub open spec fn last_dot(name: Seq<char>) -> Option<int>
    decreases name.len(),
{
    if name.len() == 0 {
        None
    } else if name.last() == '.' {
        Some(name.len() - 1)
    } else {
        last_dot(name.drop_last())
    }
}

/// What follows the last dot of a file name, if that does not start the name.
pub open spec fn extension(name: Seq<char>) -> Option<Seq<char>> {
    match last_dot(name) {
        Some(dot) => if dot > 0 {
            Some(name.subrange(dot + 1, name.len() as int))
        } else {
            None
        },
        None => None,
    }
}

/// Kind of an archive by the extension of its file name.
pub open spec fn archive_type_of(name: Seq<char>) -> Option<ArchiveType> {
    match extension(name) {
        Some(ext) => if ext == "didx"@ {
            Some(ArchiveType::DynamicIndex)
        } else if ext == "fidx"@ {
            Some(ArchiveType::FixedIndex)
        } else if ext == "blob"@ {
            Some(ArchiveType::Blob)
        } else {
            None
        },
        None => None,
    }
}

/// Kind of an archive by its file name, which holds no slash.
pub fn archive_type(name: &str) -> (r: Option<ArchiveType>)
    ensures
        r == archive_type_of(name@),
{
    let chars = to_chars(name);
    let n: usize = chars.len();
    let mut i: usize = n;
    assert(chars@.take(n as int) =~= chars@);
    while i > 0 && chars[i - 1] != '.'
        invariant
            n == chars@.len(),
            i <= n,
            last_dot(chars@) == last_dot(chars@.take(i as int)),
        decreases i,
    {
        assert(chars@.take(i as int).drop_last() =~= chars@.take(i - 1));
        i = i - 1;
    }
    if i == 0 {
        return None;
    }
    assert(last_dot(chars@.take(i as int)) == Some(i - 1));
    if i == 1 {
        return None;
    }
    let ext = chars_range(&chars, i, n);
    if ext == "didx".to_owned() {
        Some(ArchiveType::DynamicIndex)
    } else if ext == "fidx".to_owned() {
        Some(ArchiveType::FixedIndex)
    } else if ext == "blob".to_owned() {
        Some(ArchiveType::Blob)
    } else {
        None
    }
}

proof fn last_dot_before_extension(stem: Seq<char>, ext: Seq<char>)
    requires
        !ext.contains('.'),
    ensures
        last_dot(stem.push('.') + ext) == Some(stem.len() as int),
    decreases ext.len(),
{
    let name = stem.push('.') + ext;
    if ext.len() == 0 {
        assert(name =~= stem.push('.'));
    } else {
        let shorter = ext.drop_last();
        assert(ext[ext.len() - 1] == ext.last());
        assert(name.last() == ext.last());
        if shorter.contains('.') {
            let i = shorter.index_of('.');
            assert(ext[i] == '.');
        }
        last_dot_before_extension(stem, shorter);
        assert(name.drop_last() =~= stem.push('.') + shorter);
    }
}

proof fn no_dot_at_all(name: Seq<char>)
    requires
        !name.contains('.'),
    ensures
        last_dot(name) is None,
    decreases name.len(),
{
    if name.len() > 0 {
        assert(name[name.len() - 1] == name.last());
        let shorter = name.drop_last();
        if shorter.contains('.') {
            let i = shorter.index_of('.');
            assert(name[i] == '.');
        }
        no_dot_at_all(shorter);
    }
}

/// The kind of an archive goes by what follows the last dot of its name alone, behind
/// whatever name: an index with chunks of varying size, one with chunks of equal size, or a
/// blob. A name of any other ending, or without one, is no archive.
pub proof fn archive_kind_goes_by_ending(stem: Seq<char>, ext: Seq<char>)
    requires
        stem.len() > 0,
        !ext.contains('.'),
    ensures
        ({
            let kind = archive_type_of(stem.push('.') + ext);
            &&& kind == Some(ArchiveType::DynamicIndex) <==> ext == "didx"@
            &&& kind == Some(ArchiveType::FixedIndex) <==> ext == "fidx"@
            &&& kind == Some(ArchiveType::Blob) <==> ext == "blob"@
        }),
        archive_type_of(ext) is None,
        archive_type_of(seq!['.'] + ext) is None,
{
    last_dot_before_extension(stem, ext);
    last_dot_before_extension(Seq::empty(), ext);
    assert(Seq::<char>::empty().push('.') =~= seq!['.']);
    no_dot_at_all(ext);
    let name = stem.push('.') + ext;
    assert(name.subrange(stem.len() as int + 1, name.len() as int) =~= ext);
    reveal_strlit("didx");
    reveal_strlit("fidx");
    reveal_strlit("blob");
    assert("didx"@[0] != "fidx"@[0]);
    assert("didx"@[0] != "blob"@[0]);
    assert("fidx"@[0] != "blob"@[0]);
}

} // verus!
