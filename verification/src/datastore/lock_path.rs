//! Where the lock files of groups, snapshots and manifests lie.
//!
//! The path of what is locked, without namespaces, is encoded the way systemd
//! encodes unit names. It is used as it is if it is short enough; otherwise the
//! file name is made of its ends and its checksum.

use vstd::prelude::*;
use vstd::utf8::encode_utf8;
use crate::checksum::{hex_digit, hex_encode, hex_text, sha256_digest};
use crate::datastore::paths::{join_path, joined_path};
use crate::namespace::BackupNamespace;
use crate::text::{chars_range, from_chars, join_with, joined};

verus! {

/// Directory of all lock files.
pub const DATASTORE_LOCKS_DIR: &'static str = "/run/proxmox-backup/locks";

/// Encoded paths of this length and more are not used as file names.
pub const MAX_UNIT_LEN: usize = 255;

/// Number of characters that are kept of each end of a long encoded path.
pub const KEPT_LEN: usize = 80;

/// Whether a byte stands for itself in a unit name, at the start or elsewhere.
pub open spec fn stands_for_itself(b: u8, first: bool) -> bool {
    ||| 0x30 <= b <= 0x39
    ||| 0x41 <= b <= 0x5a
    ||| 0x61 <= b <= 0x7a
    ||| b == 0x5f
    ||| b == 0x2e && !first
}

/// Code of a byte in a unit name: slashes become dashes, and what does not stand
/// for itself is written in hexadecimal notation.
pub open spec fn unit_code(b: u8, first: bool) -> Seq<char> {
    if b == 0x2f {
        seq!['-']
    } else if stands_for_itself(b, first) {
        seq![b as char]
    } else {
        seq!['\\', 'x', hex_digit(b as int / 16), hex_digit(b as int % 16)]
    }
}

/// Codes of bytes that do not start with a slash.
pub open spec fn unit_codes(path: Seq<u8>) -> Seq<char>
    decreases path.len(),
{
    if path.len() == 0 {
        seq![]
    } else {
        unit_codes(path.drop_last()) + unit_code(path.last(), path.len() == 1)
    }
}

/// Bytes without the slashes that they start with.
pub open spec fn without_leading_slashes(path: Seq<u8>) -> Seq<u8>
    decreases path.len(),
{
    if path.len() > 0 && path[0] == 0x2f {
        without_leading_slashes(path.drop_first())
    } else {
        path
    }
}

/// A path as a unit name; slashes at its start do not count, and the root is a
/// single dash.
pub open spec fn unit_name(path: Seq<u8>) -> Seq<char> {
    let rest = without_leading_slashes(path);
    if rest.len() == 0 {
        seq!['-']
    } else {
        unit_codes(rest)
    }
}

fn hex_char(n: u8) -> (c: char)
    requires
        n < 16,
    ensures
        c == hex_digit(n as int),
{
    if n < 10 {
        (0x30u8 + n) as char
    } else {
        (0x61u8 + (n - 10)) as char
    }
}

/// A path as a unit name.
pub fn escape_unit(path: &[u8]) -> (r: Vec<char>)
    ensures
        r@ == unit_name(path@),
{
    let n: usize = path.len();
    let mut start: usize = 0;
    assert(path@.skip(0) =~= path@);
    while start < n && path[start] == 0x2f
        invariant
            n == path@.len(),
            start <= n,
            without_leading_slashes(path@) == without_leading_slashes(path@.skip(start as int)),
        decreases n - start,
    {
        assert(path@.skip(start as int).drop_first() =~= path@.skip(start + 1));
        start = start + 1;
    }
    let ghost rest = path@.skip(start as int);
    assert(without_leading_slashes(path@) == rest);
    let mut out: Vec<char> = Vec::new();
    if start == n {
        out.push('-');
        assert(out@ =~= seq!['-']);
        return out;
    }
    assert(rest.take(0) =~= Seq::<u8>::empty());
    for i in start..n
        invariant
            n == path@.len(),
            start <= n,
            rest == path@.skip(start as int),
            out@ == unit_codes(rest.take(i - start)),
    {
        let b: u8 = path[i];
        let first: bool = i == start;
        let ghost before = out@;
        if b == 0x2f {
            out.push('-');
        } else if (0x30 <= b && b <= 0x39) || (0x41 <= b && b <= 0x5a) || (0x61 <= b && b <= 0x7a)
            || b == 0x5f || (b == 0x2e && !first) {
            out.push(b as char);
        } else {
            out.push('\\');
            out.push('x');
            out.push(hex_char(b / 16));
            out.push(hex_char(b % 16));
        }
        proof {
            let k = i - start;
            assert(rest.take(k + 1).drop_last() =~= rest.take(k));
            assert(rest.take(k + 1).last() == b);
            assert(out@ =~= before + unit_code(b, first));
        }
    }
    assert(rest.take(n - start) =~= rest);
    out
}

/// Directory for the locks of a namespace: its names, separated by colons.
pub open spec fn lock_folder(ns: Seq<Seq<char>>) -> Seq<char> {
    joined(ns, ":"@)
}

/// File name for a long encoded path: its ends and its checksum.
pub open spec fn hashed_name(unit: Seq<char>) -> Seq<char> {
    unit.take(KEPT_LEN as int) + "..."@ + unit.skip(unit.len() - KEPT_LEN) + "-"@ + hex_text(
        sha256_digest(encode_utf8(unit)),
    )
}

/// Path of the lock file for what lies at `path` within a namespace, relative to
/// the lock directory of the datastore.
pub open spec fn lock_file(ns: Seq<Seq<char>>, path: Seq<char>) -> Seq<char> {
    let unit = unit_name(encode_utf8(path));
    if unit.len() < MAX_UNIT_LEN {
        joined_path(lock_folder(ns), unit)
    } else {
        joined_path(joined_path(lock_folder(ns), "hashed"@), hashed_name(unit))
    }
}

/// Path of the lock file for what lies at `path` within a namespace, relative to
/// the lock directory of the datastore.
///
/// Some such paths:
///
/// - `vm-100`
/// - `vm-100-2022\x2d05\x2d02T08\x3a11\x3a33Z`
/// - `ns1:ns2:ns3/vm-100-2022\x2d05\x2d02T08\x3a11\x3a33Z`
/// - `ns1:ns2:ns3/hashed/$first_eighty...$last_eighty-$hash`
pub fn lock_file_path_helper(ns: &BackupNamespace, path: &str) -> (r: String)
    ensures
        r@ == lock_file(ns@, path@),
{
    let folder = join_with(&ns.components, ":");
    let unit = escape_unit(path.as_bytes());
    let name = from_chars(&unit);
    if unit.len() < MAX_UNIT_LEN {
        return join_path(folder.as_str(), name.as_str());
    }
    let hashed = join_path(folder.as_str(), "hashed");
    let checksum = openssl::sha::sha256(name.as_str().as_bytes());
    let n: usize = unit.len();
    let mut file = chars_range(&unit, 0, KEPT_LEN);
    file.append("...");
    file.append(chars_range(&unit, n - KEPT_LEN, n).as_str());
    file.append("-");
    file.append(hex_encode(&checksum).as_str());
    proof {
        assert(unit@.subrange(0, KEPT_LEN as int) =~= unit@.take(KEPT_LEN as int));
        assert(unit@.subrange(n - KEPT_LEN, n as int) =~= unit@.skip(n - KEPT_LEN));
    }
    join_path(hashed.as_str(), file.as_str())
}

/// Path of the lock file for what lies at `path` within a namespace of a datastore.
pub open spec fn full_lock_path(store: Seq<char>, ns: Seq<Seq<char>>, path: Seq<char>) -> Seq<char> {
    joined_path(joined_path(DATASTORE_LOCKS_DIR@, store), lock_file(ns, path))
}

/// Path of the lock file for what lies at `path` within a namespace of a datastore.
pub fn lock_path(store: &str, ns: &BackupNamespace, path: &str) -> (r: String)
    ensures
        r@ == full_lock_path(store@, ns@, path@),
{
    let dir = join_path(DATASTORE_LOCKS_DIR, store);
    join_path(dir.as_str(), lock_file_path_helper(ns, path).as_str())
}

/// Whether a lock file that was locked is still the one at its path: it has not
/// been removed or replaced meanwhile.
pub fn is_lock_valid(locked_inode: u64, inode_at_path: Option<u64>) -> (r: bool)
    ensures
        r == (inode_at_path == Some(locked_inode)),
{
    match inode_at_path {
        Some(inode) => inode == locked_inode,
        None => false,
    }
}

// ---- distinct paths have distinct lock files ----

proof fn code_starts(b: u8, first: bool)
    ensures
        unit_code(b, first).len() == 1 || unit_code(b, first).len() == 4,
        unit_code(b, first).len() == 4 <==> unit_code(b, first)[0] == '\\',
        forall|i: int|
            0 <= i < unit_code(b, first).len() ==> #[trigger] unit_code(b, first)[i] != '/',
{
}

proof fn hex_digit_value(n: int)
    requires
        0 <= n < 16,
    ensures
        hex_digit(n) as u32 == (if n < 10 {
            48 + n
        } else {
            87 + n
        }),
{
}

proof fn code_is_unique(a: u8, b: u8, first: bool)
    requires
        unit_code(a, first) == unit_code(b, first),
    ensures
        a == b,
{
    let ca = unit_code(a, first);
    let cb = unit_code(b, first);
    if ca.len() == 4 {
        assert(ca[2] == cb[2]);
        assert(ca[3] == cb[3]);
        hex_digit_value(a as int / 16);
        hex_digit_value(b as int / 16);
        hex_digit_value(a as int % 16);
        hex_digit_value(b as int % 16);
        assert(a as int / 16 == b as int / 16);
        assert(a as int % 16 == b as int % 16);
        assert(a == b);
    } else {
        assert((a as char) as u32 == a);
        assert((b as char) as u32 == b);
        assert('-' as u32 == 0x2d);
        assert(ca[0] == (if a == 0x2f {
            '-'
        } else {
            a as char
        }));
        assert(cb[0] == (if b == 0x2f {
            '-'
        } else {
            b as char
        }));
        assert(ca[0] as u32 == cb[0] as u32);
        assert(a != 0x2d && b != 0x2d);
    }
}

/// Codes from the front.
spec fn codes_from(path: Seq<u8>, from: int) -> Seq<char>
    decreases path.len() - from,
{
    if from >= path.len() {
        seq![]
    } else {
        unit_code(path[from], from == 0) + codes_from(path, from + 1)
    }
}

proof fn codes_split(path: Seq<u8>, k: int)
    requires
        0 <= k <= path.len(),
    ensures
        unit_codes(path) == unit_codes(path.take(k)) + codes_from(path, k),
    decreases path.len() - k,
{
    if k == path.len() {
        assert(path.take(k) =~= path);
        assert(unit_codes(path) + codes_from(path, k) =~= unit_codes(path));
    } else {
        codes_split(path, k + 1);
        assert(path.take(k + 1).drop_last() =~= path.take(k));
        assert(path.take(k + 1).last() == path[k]);
        assert(unit_codes(path.take(k + 1)) == unit_codes(path.take(k)) + unit_code(
            path[k],
            k == 0,
        ));
        assert(unit_codes(path.take(k)) + unit_code(path[k], k == 0) + codes_from(path, k + 1)
            =~= unit_codes(path.take(k)) + (unit_code(path[k], k == 0) + codes_from(path, k + 1)));
    }
}

proof fn codes_from_unique(a: Seq<u8>, b: Seq<u8>, k: int)
    requires
        0 <= k <= a.len(),
        k <= b.len(),
        codes_from(a, k) == codes_from(b, k),
    ensures
        a.skip(k) == b.skip(k),
    decreases a.len() - k,
{
    if k == a.len() {
        if k < b.len() {
            code_starts(b[k], k == 0);
            assert(codes_from(b, k).len() > 0);
        }
        assert(a.skip(k) =~= b.skip(k));
    } else if k == b.len() {
        code_starts(a[k], k == 0);
        assert(codes_from(a, k).len() > 0);
    } else {
        let ca = unit_code(a[k], k == 0);
        let cb = unit_code(b[k], k == 0);
        code_starts(a[k], k == 0);
        code_starts(b[k], k == 0);
        let s = codes_from(a, k);
        assert(s[0] == ca[0] && s[0] == cb[0]);
        assert(ca.len() == cb.len());
        assert(ca =~= s.take(ca.len() as int));
        assert(cb =~= s.take(ca.len() as int));
        code_is_unique(a[k], b[k], k == 0);
        assert(codes_from(a, k + 1) =~= s.skip(ca.len() as int));
        assert(codes_from(b, k + 1) =~= s.skip(ca.len() as int));
        codes_from_unique(a, b, k + 1);
        assert(a.skip(k) =~= seq![a[k]] + a.skip(k + 1));
        assert(b.skip(k) =~= seq![b[k]] + b.skip(k + 1));
    }
}

/// Distinct paths have distinct unit names, unless they are empty or start with a
/// slash.
pub proof fn unit_names_are_distinct(a: Seq<u8>, b: Seq<u8>)
    requires
        a.len() > 0,
        b.len() > 0,
        a[0] != 0x2f,
        b[0] != 0x2f,
        unit_name(a) == unit_name(b),
    ensures
        a == b,
{
    codes_split(a, 0);
    codes_split(b, 0);
    assert(a.take(0) =~= Seq::<u8>::empty());
    assert(b.take(0) =~= Seq::<u8>::empty());
    assert(unit_codes(a.take(0)) + codes_from(a, 0) =~= codes_from(a, 0));
    assert(unit_codes(b.take(0)) + codes_from(b, 0) =~= codes_from(b, 0));
    codes_from_unique(a, b, 0);
    assert(a.skip(0) =~= a);
    assert(b.skip(0) =~= b);
}

proof fn codes_have_no_slash(path: Seq<u8>)
    ensures
        forall|i: int| 0 <= i < unit_codes(path).len() ==> #[trigger] unit_codes(path)[i] != '/',
    decreases path.len(),
{
    if path.len() > 0 {
        let up = path.drop_last();
        codes_have_no_slash(up);
        code_starts(path.last(), path.len() == 1);
        let head = unit_codes(up);
        let all = unit_codes(path);
        assert forall|i: int| 0 <= i < all.len() implies #[trigger] all[i] != '/' by {
            if i < head.len() {
                assert(all[i] == head[i]);
            } else {
                assert(all[i] == unit_code(path.last(), path.len() == 1)[i - head.len()]);
            }
        }
    }
}

/// A unit name is not empty and holds no slash, so that it is a file name.
pub proof fn unit_name_is_file_name(path: Seq<u8>)
    ensures
        unit_name(path).len() > 0,
        forall|i: int| 0 <= i < unit_name(path).len() ==> #[trigger] unit_name(path)[i] != '/',
{
    let rest = without_leading_slashes(path);
    if rest.len() > 0 {
        codes_have_no_slash(rest);
        code_starts(rest.last(), rest.len() == 1);
    }
}

/// Whether none of the names holds a character that separates names or
/// directories.
pub open spec fn plain_names(ns: Seq<Seq<char>>) -> bool {
    forall|i: int, j: int|
        0 <= i < ns.len() && 0 <= j < ns[i].len() ==> #[trigger] ns[i][j] != ':' && ns[i][j] != '/'
}

proof fn folder_chars(ns: Seq<Seq<char>>)
    requires
        plain_names(ns),
    ensures
        forall|i: int| 0 <= i < lock_folder(ns).len() ==> #[trigger] lock_folder(ns)[i] != '/',
    decreases ns.len(),
{
    reveal_strlit(":");
    if ns.len() == 1 {
        assert forall|i: int| 0 <= i < lock_folder(ns).len() implies #[trigger] lock_folder(ns)[i]
            != '/' by {
            assert(ns[0][i] != '/');
        }
    } else if ns.len() > 1 {
        let up = ns.drop_last();
        assert(plain_names(up)) by {
            assert forall|i: int, j: int| 0 <= i < up.len() && 0 <= j < up[i].len() implies
                #[trigger] up[i][j] != ':' && up[i][j] != '/' by {
                assert(ns[i][j] != ':');
            }
        }
        folder_chars(up);
        let folder = lock_folder(ns);
        let head = lock_folder(up);
        assert forall|i: int| 0 <= i < folder.len() implies #[trigger] folder[i] != '/' by {
            if i < head.len() {
                assert(folder[i] == head[i]);
            } else if i > head.len() {
                assert(folder[i] == ns[ns.len() - 1][i - head.len() - 1]);
            }
        }
    }
}

proof fn first_byte(s: Seq<char>)
    requires
        s.len() > 0,
        s[0] != '/',
    ensures
        encode_utf8(s).len() > 0,
        encode_utf8(s)[0] != 0x2f,
{
    let bytes = encode_utf8(s);
    vstd::utf8::encode_utf8_first_scalar(s);
    if bytes[0] == 0x2f {
        assert(0x2fu8 & 0x7fu8 == 0x2fu8) by (bit_vector);
        assert(vstd::utf8::decode_first_scalar(bytes) == 0x2f);
        vstd::utf8::char_u32_cast(s[0], 0x2fu32);
        vstd::utf8::char_u32_cast('/', 0x2fu32);
    }
}

/// In a namespace, two objects that are locked under their plain unit names have
/// the same lock file only if they are the same object.
pub proof fn locks_are_distinct(ns: Seq<Seq<char>>, a: Seq<char>, b: Seq<char>)
    requires
        plain_names(ns),
        a.len() > 0,
        b.len() > 0,
        a[0] != '/',
        b[0] != '/',
        unit_name(encode_utf8(a)).len() < MAX_UNIT_LEN,
        unit_name(encode_utf8(b)).len() < MAX_UNIT_LEN,
        lock_file(ns, a) == lock_file(ns, b),
    ensures
        a == b,
{
    let ua = unit_name(encode_utf8(a));
    let ub = unit_name(encode_utf8(b));
    let folder = lock_folder(ns);
    first_byte(a);
    first_byte(b);
    unit_name_is_file_name(encode_utf8(a));
    unit_name_is_file_name(encode_utf8(b));
    folder_chars(ns);
    let s = lock_file(ns, a);
    if folder.len() == 0 {
        assert(s =~= ua);
        assert(s =~= ub);
    } else {
        assert(folder.last() != '/');
        assert(s.skip(folder.len() as int + 1) =~= ua);
        assert(s.skip(folder.len() as int + 1) =~= ub);
    }
    unit_names_are_distinct(encode_utf8(a), encode_utf8(b));
    vstd::utf8::encode_utf8_decode_utf8(a);
    vstd::utf8::encode_utf8_decode_utf8(b);
}

/// In the name of a lock a slash becomes a dash. Letters, digits and underscores stand for
/// themselves, and so does a dot that does not come first. Any other byte is written as its
/// two hexadecimal digits.
pub proof fn only_safe_bytes_stand_for_themselves(b: u8, first: bool)
    ensures
        ({
            let letter = 0x41 <= b <= 0x5a || 0x61 <= b <= 0x7a;
            let digit = 0x30 <= b <= 0x39;
            let code = unit_code(b, first);
            &&& b == 0x2f ==> code == seq!['-']
            &&& letter || digit || b == 0x5f || (b == 0x2e && !first) ==> code == seq![b as char]
            &&& !(letter || digit || b == 0x5f || b == 0x2f || (b == 0x2e && !first)) ==> {
                &&& code.len() == 4
                &&& code[0] == '\\' && code[1] == 'x'
                &&& code[2] == hex_digit(b as int / 16)
                &&& code[3] == hex_digit(b as int % 16)
            }
        }),
{
}

/// Leading slashes do not count for the name of a lock, and a path of nothing else has a
/// name too.
pub proof fn leading_slashes_do_not_count(path: Seq<u8>)
    ensures
        unit_name(seq![0x2fu8] + path) == unit_name(path),
        unit_name(Seq::empty()) == seq!['-'],
{
    let longer = seq![0x2fu8] + path;
    assert(longer.drop_first() =~= path);
}

/// Only a name that is too long for a file is hashed; any other stands for itself.
pub proof fn only_long_names_are_hashed(ns: Seq<Seq<char>>, path: Seq<char>)
    ensures
        ({
            let unit = unit_name(encode_utf8(path));
            &&& unit.len() < 255 ==> lock_file(ns, path) == joined_path(joined(ns, ":"@), unit)
            &&& unit.len() >= 255 ==> lock_file(ns, path) == joined_path(
                joined_path(joined(ns, ":"@), "hashed"@),
                hashed_name(unit),
            )
        }),
{
}

} // verus!
