//! Journal of index files that are about to be moved.
//!
//! A move records the new path of each index file before it renames the
//! snapshot. Garbage collection reads the journal when it has marked all chunks
//! that it found, and marks those of the recorded index files too, so that no
//! index escapes it by moving from a place that it has not visited yet to one
//! that it has.

use vstd::prelude::*;
use crate::address::{find_from, next_index, next_index_finds_first};
use crate::datastore::lock_path::DATASTORE_LOCKS_DIR;
use crate::datastore::paths::{join_path, joined_path};
use crate::text::{chars_range, join3, texts, to_chars};

verus! {

/// File name of the journal.
pub const JOURNAL_FILENAME: &'static str = "move-journal";

/// Seconds to wait for the lock of the journal.
pub const LOCK_TIMEOUT: u64 = 10;

/// Path of the journal of a datastore.
pub open spec fn journal_of(datastore_name: Seq<char>) -> Seq<char> {
    joined_path(joined_path(DATASTORE_LOCKS_DIR@, datastore_name), JOURNAL_FILENAME@)
}

/// Path of the journal of a datastore.
pub fn journal_path(datastore_name: &str) -> (r: String)
    ensures
        r@ == journal_of(datastore_name@),
{
    let dir = join_path(DATASTORE_LOCKS_DIR, datastore_name);
    join_path(dir.as_str(), JOURNAL_FILENAME)
}

/// Why paths are not recorded.
#[derive(Clone, Copy, Debug, PartialEq, Eq, Structural)]
pub enum JournalError {
    /// This path is not absolute.
    NotAbsolute { path: usize },
    /// This path holds a line break.
    Newline { path: usize },
}

/// Whether a path can be recorded.
pub open spec fn recordable(path: Seq<char>) -> bool {
    is_absolute(path) && !has_newline(path)
}

/// Whether a path is absolute.
pub open spec fn is_absolute(path: Seq<char>) -> bool {
    path.len() > 0 && path[0] == '/'
}

/// Whether a path holds a line break.
pub open spec fn has_newline(path: Seq<char>) -> bool {
    exists|i: int| 0 <= i < path.len() && #[trigger] path[i] == '\n'
}

/// What is appended to the journal for some paths: a line for each.
pub open spec fn journal_text(paths: Seq<Seq<char>>) -> Seq<char>
    decreases paths.len(),
{
    if paths.len() == 0 {
        seq![]
    } else {
        journal_text(paths.drop_last()) + paths.last().push('\n')
    }
}

/// Text that is to be appended to a journal.
pub struct JournalAppend {
    /// Path of the journal.
    pub journal: String,
    pub text: String,
}

/// What is appended to the journal of a datastore to record some paths; nothing if
/// there are none. It is an error if one of them is not absolute or holds a line
/// break.
pub fn append_moved_indices(datastore_name: &str, paths: &Vec<String>) -> (r: Result<
    Option<JournalAppend>,
    JournalError,
>)
    ensures
        match r {
            Ok(append) => {
                &&& forall|i: int| 0 <= i < paths@.len() ==> recordable(#[trigger] texts(paths@)[i])
                &&& append is None <==> paths@.len() == 0
                &&& append matches Some(append) ==> append.journal@ == journal_of(datastore_name@)
                    && append.text@ == journal_text(texts(paths@))
            },
            Err(JournalError::NotAbsolute { path }) => {
                &&& path < paths@.len()
                &&& !is_absolute(paths@[path as int]@)
                &&& forall|i: int| 0 <= i < path ==> recordable(#[trigger] texts(paths@)[i])
            },
            Err(JournalError::Newline { path }) => {
                &&& path < paths@.len()
                &&& is_absolute(paths@[path as int]@)
                &&& has_newline(paths@[path as int]@)
                &&& forall|i: int| 0 <= i < path ==> recordable(#[trigger] texts(paths@)[i])
            },
        },
{
    if paths.len() == 0 {
        return Ok(None);
    }
    let mut text = String::new();
    for i in 0..paths.len()
        invariant
            text@ == journal_text(texts(paths@).take(i as int)),
            forall|j: int| 0 <= j < i ==> recordable(#[trigger] texts(paths@)[j]),
    {
        let path = paths[i].as_str();
        let chars = to_chars(path);
        if chars.len() == 0 || chars[0] != '/' {
            return Err(JournalError::NotAbsolute { path: i });
        }
        let newline: usize = find_from(&chars, 0, '\n');
        proof {
            next_index_finds_first(path@, 0, '\n');
        }
        if newline < chars.len() {
            assert(path@[newline as int] == '\n');
            return Err(JournalError::Newline { path: i });
        }
        text.append(path);
        text.push('\n');
        proof {
            let before = texts(paths@).take(i as int);
            let after = texts(paths@).take(i + 1);
            assert(after.drop_last() =~= before);
            assert(after.last() == path@);
            assert(text@ =~= journal_text(before) + path@.push('\n'));
            assert(recordable(texts(paths@)[i as int]));
        }
    }
    assert(texts(paths@).take(texts(paths@).len() as int) =~= texts(paths@));
    Ok(Some(JournalAppend { journal: journal_path(datastore_name), text }))
}

/// Paths that a journal holds from `from` on: its lines, without those that are empty.
pub open spec fn entries_from(contents: Seq<char>, from: int) -> Seq<Seq<char>>
    decreases contents.len() - from,
{
    if from < 0 || from >= contents.len() {
        seq![]
    } else {
        let end = next_index(contents, from, '\n');
        let entry = contents.subrange(from, end);
        let rest = if from <= end < contents.len() {
            entries_from(contents, end + 1)
        } else {
            seq![]
        };
        if entry.len() > 0 {
            seq![entry] + rest
        } else {
            rest
        }
    }
}

/// Paths that a journal holds.
pub open spec fn journal_entries(contents: Seq<char>) -> Seq<Seq<char>> {
    entries_from(contents, 0)
}

/// Paths that a journal holds, in the order in which they were recorded.
pub fn read_move_journal(contents: &str) -> (r: Vec<String>)
    ensures
        texts(r@) == journal_entries(contents@),
{
    let v = to_chars(contents);
    let n: usize = v.len();
    let mut r: Vec<String> = Vec::new();
    let mut from: usize = 0;
    assert(texts(r@) + entries_from(v@, 0) =~= entries_from(v@, 0));
    while from < n
        invariant
            n == v@.len(),
            v@ == contents@,
            from <= n,
            journal_entries(v@) == texts(r@) + entries_from(v@, from as int),
        decreases n - from,
    {
        let end: usize = find_from(&v, from, '\n');
        let entry = chars_range(&v, from, end);
        let ghost before = r@;
        let ghost rest = if end < n {
            entries_from(v@, end + 1)
        } else {
            seq![]
        };
        if entry.as_str().unicode_len() > 0 {
            r.push(entry);
            assert(texts(r@) =~= texts(before).push(entry@));
            assert(texts(before) + (seq![entry@] + rest) =~= texts(r@) + rest);
        }
        if end == n {
            from = n;
        } else {
            from = end + 1;
        }
    }
    assert(texts(r@) + entries_from(v@, n as int) =~= texts(r@));
    r
}

/// How far a journal has been drained.
#[derive(Clone, Copy, Debug, PartialEq, Eq, Structural)]
pub enum DrainState {
    Processing(usize),
    Truncating,
    Complete,
    Failed,
}

/// What the environment has to do next.
#[derive(Clone, Copy, Debug, PartialEq, Eq, Structural)]
pub enum DrainAction {
    /// Process the path of this index.
    Process(usize),
    /// Truncate the journal.
    Truncate,
    /// Done.
    Complete,
    /// Give up; the journal keeps its entries.
    Abort,
}

/// What follows once all of `entries` paths before `i` were processed.
pub open spec fn drain_at(entries: usize, i: usize) -> (DrainState, DrainAction) {
    if i < entries {
        (DrainState::Processing(i), DrainAction::Process(i))
    } else {
        (DrainState::Truncating, DrainAction::Truncate)
    }
}

/// The next state and action.
pub open spec fn drain_next(entries: usize, state: DrainState, ok: bool) -> (
    DrainState,
    DrainAction,
) {
    match (state, ok) {
        (DrainState::Processing(i), true) => drain_at(entries, (i + 1) as usize),
        (DrainState::Truncating, true) => (DrainState::Complete, DrainAction::Complete),
        _ => (DrainState::Failed, DrainAction::Abort),
    }
}

/// First state and action of the drain of a journal with so many paths.
pub fn drain_start(entries: usize) -> (r: (DrainState, DrainAction))
    ensures
        r == drain_at(entries, 0),
{
    if 0 < entries {
        (DrainState::Processing(0), DrainAction::Process(0))
    } else {
        (DrainState::Truncating, DrainAction::Truncate)
    }
}

/// Moves the drain of a journal on and says what to do next.
pub fn drain_move_journal(entries: usize, state: DrainState, ok: bool) -> (r: (
    DrainState,
    DrainAction,
))
    requires
        state matches DrainState::Processing(i) ==> i < entries,
    ensures
        r == drain_next(entries, state, ok),
        r.0 matches DrainState::Processing(i) ==> i < entries,
{
    match (state, ok) {
        (DrainState::Processing(i), true) => {
            if i + 1 < entries {
                (DrainState::Processing(i + 1), DrainAction::Process(i + 1))
            } else {
                (DrainState::Truncating, DrainAction::Truncate)
            }
        },
        (DrainState::Truncating, true) => (DrainState::Complete, DrainAction::Complete),
        _ => (DrainState::Failed, DrainAction::Abort),
    }
}

/// The state after a list of results, from the start.
pub open spec fn drain_run(entries: usize, results: Seq<bool>) -> DrainState
    decreases results.len(),
{
    if results.len() == 0 {
        drain_at(entries, 0).0
    } else {
        drain_next(entries, drain_run(entries, results.drop_last()), results.last()).0
    }
}

/// The journal is truncated only after every path in it was processed without
/// error; an error leaves it as it is.
pub proof fn failed_drain_keeps_the_journal(entries: usize, results: Seq<bool>)
    ensures
        match drain_run(entries, results) {
            DrainState::Processing(i) => results.len() == i && i < entries && !results.contains(
                false,
            ),
            DrainState::Truncating => results.len() == entries && !results.contains(false),
            DrainState::Complete => results.len() == entries + 1 && !results.contains(false),
            DrainState::Failed => true,
        },
        results.contains(false) ==> drain_run(entries, results) == DrainState::Failed,
    decreases results.len(),
{
    if results.len() > 0 {
        let init = results.drop_last();
        failed_drain_keeps_the_journal(entries, init);
        if results.contains(false) {
            let i = results.index_of(false);
            if i < init.len() {
                assert(init[i] == false);
                assert(init.contains(false));
            }
        }
        if init.contains(false) {
            let i = init.index_of(false);
            assert(results[i] == false);
        }
        if results.last() == false {
            assert(results[results.len() - 1] == false);
        }
    }
}

// ---- what is recorded is read back ----

proof fn next_newline(s: Seq<char>, from: int, end: int)
    requires
        0 <= from <= end < s.len(),
        s[end] == '\n',
        forall|i: int| from <= i < end ==> #[trigger] s[i] != '\n',
    ensures
        next_index(s, from, '\n') == end,
    decreases end - from,
{
    if from < end {
        next_newline(s, from + 1, end);
    }
}

proof fn journal_text_of_one_more(paths: Seq<Seq<char>>)
    requires
        paths.len() > 0,
    ensures
        journal_text(paths) == paths[0].push('\n') + journal_text(paths.drop_first()),
    decreases paths.len(),
{
    if paths.len() == 1 {
        assert(paths.drop_last() =~= Seq::<Seq<char>>::empty());
        assert(paths.drop_first() =~= Seq::<Seq<char>>::empty());
        assert(journal_text(paths) =~= paths[0].push('\n') + journal_text(paths.drop_first()));
    } else {
        journal_text_of_one_more(paths.drop_last());
        assert(paths.drop_last().drop_first() =~= paths.drop_first().drop_last());
        assert(paths.drop_first().last() == paths.last());
        assert(journal_text(paths) =~= paths[0].push('\n') + journal_text(paths.drop_first()));
    }
}

proof fn shifted_entries(prefix: Seq<char>, s: Seq<char>, at: int)
    requires
        0 <= at <= s.len(),
    ensures
        entries_from(prefix + s, prefix.len() + at) == entries_from(s, at),
    decreases s.len() - at,
{
    let t = prefix + s;
    let n = prefix.len() as int;
    if at < s.len() {
        next_index_finds_first(s, at, '\n');
        next_index_finds_first(t, n + at, '\n');
        let end = next_index(s, at, '\n');
        assert(next_index(t, n + at, '\n') == n + end) by {
            shifted_index(prefix, s, at);
        }
        assert(t.subrange(n + at, n + end) =~= s.subrange(at, end));
        if end < s.len() {
            shifted_entries(prefix, s, end + 1);
        }
    }
}

proof fn shifted_index(prefix: Seq<char>, s: Seq<char>, at: int)
    requires
        0 <= at <= s.len(),
    ensures
        next_index(prefix + s, prefix.len() + at, '\n') == prefix.len() + next_index(s, at, '\n'),
    decreases s.len() - at,
{
    if at < s.len() {
        assert((prefix + s)[prefix.len() + at] == s[at]);
        if s[at] != '\n' {
            shifted_index(prefix, s, at + 1);
        }
    }
}

/// What is recorded is read back, each path as it was and in order.
pub proof fn recorded_paths_are_read_back(paths: Seq<Seq<char>>)
    requires
        forall|i: int| 0 <= i < paths.len() ==> recordable(#[trigger] paths[i]),
    ensures
        journal_entries(journal_text(paths)) == paths,
    decreases paths.len(),
{
    let text = journal_text(paths);
    if paths.len() == 0 {
        assert(journal_entries(text) =~= paths);
    } else {
        let first = paths[0];
        let rest = paths.drop_first();
        assert(recordable(first));
        journal_text_of_one_more(paths);
        let line = first.push('\n');
        let tail = journal_text(rest);
        let n = first.len() as int;
        assert(text == line + tail);
        assert(text[n] == '\n');
        assert forall|i: int| 0 <= i < n implies #[trigger] text[i] != '\n' by {
            assert(text[i] == first[i]);
        }
        next_newline(text, 0, n);
        assert(text.subrange(0, n) =~= first);
        shifted_entries(line, tail, 0);
        assert forall|i: int| 0 <= i < rest.len() implies recordable(#[trigger] rest[i]) by {
            assert(rest[i] == paths[i + 1]);
        }
        recorded_paths_are_read_back(rest);
        assert(entries_from(text, n + 1) == rest);
        assert(journal_entries(text) =~= seq![first] + rest);
        assert(seq![first] + rest =~= paths);
    }
}

/// Records that are appended one after the other are read back one after the
/// other.
pub proof fn appended_records_are_read_in_order(a: Seq<Seq<char>>, b: Seq<Seq<char>>)
    ensures
        journal_text(a + b) == journal_text(a) + journal_text(b),
    decreases b.len(),
{
    if b.len() == 0 {
        assert(a + b =~= a);
        assert(journal_text(a) + journal_text(b) =~= journal_text(a));
    } else {
        appended_records_are_read_in_order(a, b.drop_last());
        assert((a + b).drop_last() =~= a + b.drop_last());
        assert((a + b).last() == b.last());
        assert(journal_text(a + b) =~= journal_text(a) + journal_text(b));
    }
}

/// Message of the error about a path, printed as it is to be shown.
pub fn journal_error_message(err: JournalError, path: &str) -> (r: String)
    ensures
        r@ == (match err {
            JournalError::NotAbsolute { .. } => "move-journal: refusing to record non-absolute path "@
                + path@,
            JournalError::Newline { .. } => "move-journal: path contains newline "@ + path@,
        }),
{
    let mut r = match err {
        JournalError::NotAbsolute { .. } =>
            "move-journal: refusing to record non-absolute path ".to_owned(),
        JournalError::Newline { .. } => "move-journal: path contains newline ".to_owned(),
    };
    r.append(path);
    r
}

/// Message of the error about an entry that could not be processed.
pub fn drain_error_message(entry: &str) -> (r: String)
    ensures
        r@ == "move-journal: processing '"@ + entry@ + "' failed"@,
{
    join3("move-journal: processing '", entry, "' failed")
}

/// What was asked for last of the drain of a journal, after a list of results.
pub open spec fn drain_asked(entries: usize, results: Seq<bool>) -> DrainAction {
    if results.len() == 0 {
        drain_at(entries, 0).1
    } else {
        drain_next(entries, drain_run(entries, results.drop_last()), results.last()).1
    }
}

/// As long as nothing fails, the paths of a journal are processed one after the other, all
/// of them, then it is truncated, and then the drain is done. The first failure ends it.
pub proof fn every_path_is_processed(entries: usize, results: Seq<bool>)
    ensures
        results.contains(false) ==> drain_asked(entries, results) == DrainAction::Abort,
        !results.contains(false) && results.len() < entries ==> drain_asked(entries, results)
            == DrainAction::Process(results.len() as usize),
        !results.contains(false) && results.len() == entries ==> drain_asked(entries, results)
            == DrainAction::Truncate,
        !results.contains(false) && results.len() == entries + 1 ==> drain_asked(entries, results)
            == DrainAction::Complete,
    decreases results.len(),
{
    if results.len() > 0 {
        let init = results.drop_last();
        every_path_is_processed(entries, init);
        failed_drain_keeps_the_journal(entries, init);
        if init.contains(false) {
            let i = init.index_of(false);
            assert(results[i] == false);
        }
        if results.contains(false) && results.last() {
            let i = results.index_of(false);
            assert(init[i] == false);
        }
        if !results.last() {
            assert(results[results.len() - 1] == false);
        }
        drain_state_follows(entries, init);
    }
}

proof fn drain_state_follows(entries: usize, results: Seq<bool>)
    ensures
        !results.contains(false) && results.len() < entries ==> drain_run(entries, results)
            == DrainState::Processing(results.len() as usize),
        !results.contains(false) && results.len() == entries ==> drain_run(entries, results)
            == DrainState::Truncating,
    decreases results.len(),
{
    if results.len() > 0 {
        let init = results.drop_last();
        if !results.contains(false) {
            if init.contains(false) {
                let i = init.index_of(false);
                assert(results[i] == false);
            }
            assert(results[results.len() - 1] == results.last());
            if !results.last() {
                assert(results.contains(false));
            }
        }
        drain_state_follows(entries, init);
    }
}

} // verus!
