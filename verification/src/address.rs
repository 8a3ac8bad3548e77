//! Names and addresses of hosts, and the names that identify things.

use vstd::prelude::*;
use crate::text::{all_digits, is_digit, is_letter};

verus! {

/// Letters, digits and the underscore.
pub open spec fn is_id_start(c: char) -> bool {
    is_letter(c) || is_digit(c) || c == '_'
}

/// Characters of an identifier.
pub open spec fn is_id_char(c: char) -> bool {
    is_id_start(c) || c == '.' || c == '-'
}

/// Whether a text identifies a datastore, a realm or a token: letters, digits,
/// underscore, dot and dash, not starting with dot or dash.
pub open spec fn is_safe_id(s: Seq<char>) -> bool {
    &&& s.len() > 0
    &&& is_id_start(s[0])
    &&& forall|i: int| 0 <= i < s.len() ==> is_id_char(#[trigger] s[i])
}

/// Whether a text is a label of a DNS name: letters, digits and dashes, with
/// neither end a dash.
pub open spec fn is_dns_label(s: Seq<char>) -> bool {
    &&& s.len() > 0
    &&& s[0] != '-'
    &&& s.last() != '-'
    &&& forall|i: int|
        0 <= i < s.len() ==> is_letter(#[trigger] s[i]) || is_digit(s[i]) || s[i] == '-'
}

/// Position of the first `c` in `s` from `from` on, or the length of `s`.
pub open spec fn next_index(s: Seq<char>, from: int, c: char) -> int
    decreases s.len() - from,
{
    if from >= s.len() {
        s.len() as int
    } else if s[from] == c {
        from
    } else {
        next_index(s, from + 1, c)
    }
}

/// The position found holds the character, and none before it does.
pub proof fn next_index_finds_first(s: Seq<char>, from: int, c: char)
    requires
        0 <= from <= s.len(),
    ensures
        from <= next_index(s, from, c) <= s.len(),
        next_index(s, from, c) < s.len() ==> s[next_index(s, from, c)] == c,
        forall|i: int| from <= i < next_index(s, from, c) ==> #[trigger] s[i] != c,
    decreases s.len() - from,
{
    if from < s.len() && s[from] != c {
        next_index_finds_first(s, from + 1, c);
    }
}

/// Whether the text from `from` on is a list of DNS labels, separated by dots.
pub open spec fn is_dns_name_from(s: Seq<char>, from: int) -> bool
    decreases s.len() - from,
{
    let end = next_index(s, from, '.');
    &&& 0 <= from <= end <= s.len()
    &&& is_dns_label(s.subrange(from, end))
    &&& end < s.len() ==> is_dns_name_from(s, end + 1)
}

/// Whether a text is a DNS name: labels separated by dots. Addresses in dotted
/// decimal notation have that form too.
pub open spec fn is_dns_name(s: Seq<char>) -> bool {
    is_dns_name_from(s, 0)
}

/// Whether a character is a hexadecimal digit.
pub open spec fn is_hex(c: char) -> bool {
    is_digit(c) || ('a' <= c <= 'f') || ('A' <= c <= 'F')
}

/// Whether a text is a group of an IPv6 address: one to four hexadecimal digits.
pub open spec fn is_h16(s: Seq<char>) -> bool {
    &&& 1 <= s.len() <= 4
    &&& forall|i: int| 0 <= i < s.len() ==> is_hex(#[trigger] s[i])
}

/// Whether a text is a number from 0 to 255 without leading zeros.
pub open spec fn is_octet(s: Seq<char>) -> bool {
    &&& 1 <= s.len() <= 3
    &&& all_digits(s)
    &&& s.len() > 1 ==> s[0] != '0'
    &&& crate::text::digits_value(s) <= 255
}

/// Whether a text is an IPv4 address: four octets separated by dots.
pub open spec fn is_ipv4(s: Seq<char>) -> bool {
    let a = next_index(s, 0, '.');
    let b = next_index(s, a + 1, '.');
    let c = next_index(s, b + 1, '.');
    &&& a < b < c < s.len()
    &&& is_octet(s.subrange(0, a))
    &&& is_octet(s.subrange(a + 1, b))
    &&& is_octet(s.subrange(b + 1, c))
    &&& is_octet(s.subrange(c + 1, s.len() as int))
}

/// Number of 16-bit groups in the text from `from` on, which are separated by
/// colons. If `tail` is set, the last one may be an IPv4 address, which counts
/// as two.
pub open spec fn group_count(s: Seq<char>, from: int, tail: bool) -> Option<nat>
    decreases s.len() - from,
{
    let end = next_index(s, from, ':');
    if !(0 <= from <= end) {
        None
    } else if end >= s.len() {
        if is_h16(s.subrange(from, s.len() as int)) {
            Some(1)
        } else if tail && is_ipv4(s.subrange(from, s.len() as int)) {
            Some(2)
        } else {
            None
        }
    } else if is_h16(s.subrange(from, end)) {
        match group_count(s, end + 1, tail) {
            Some(n) => Some(n + 1),
            None => None,
        }
    } else {
        None
    }
}

/// Number of 16-bit groups on one side of a gap; no text has no groups.
pub open spec fn side_count(s: Seq<char>, tail: bool) -> Option<nat> {
    if s.len() == 0 {
        Some(0)
    } else {
        group_count(s, 0, tail)
    }
}

/// Position of the first gap, written as two colons, from `from` on, or the
/// length of the text.
pub open spec fn gap_index(s: Seq<char>, from: int) -> int
    decreases s.len() - from,
{
    if from + 1 >= s.len() {
        s.len() as int
    } else if s[from] == ':' && s[from + 1] == ':' {
        from
    } else {
        gap_index(s, from + 1)
    }
}

/// Whether a text is an IPv6 address: eight groups of 16 bits, or at most seven
/// and one gap that stands for the missing ones.
pub open spec fn is_ipv6(s: Seq<char>) -> bool {
    let gap = gap_index(s, 0);
    if gap >= s.len() {
        group_count(s, 0, true) == Some(8nat)
    } else {
        match (side_count(s.subrange(0, gap), false), side_count(
            s.subrange(gap + 2, s.len() as int),
            true,
        )) {
            (Some(left), Some(right)) => left + right <= 7,
            _ => false,
        }
    }
}

/// Whether a text is an IPv6 address in brackets.
pub open spec fn is_bracketed_ipv6(s: Seq<char>) -> bool {
    &&& s.len() >= 2
    &&& s[0] == '['
    &&& s.last() == ']'
    &&& is_ipv6(s.subrange(1, s.len() - 1))
}

/// Whether a text is a host as a repository names it.
pub open spec fn is_host(s: Seq<char>) -> bool {
    is_dns_name(s) || is_bracketed_ipv6(s)
}

/// Characters that can be part of a user name: no white space, no control
/// character, neither colon nor slash.
pub open spec fn is_user_char(c: char) -> bool {
    &&& !is_space(c)
    &&& c != ':'
    &&& c != '/'
    &&& c as u32 >= 0x20
    &&& c as u32 != 0x7f
}

/// White space.
pub open spec fn is_space(c: char) -> bool {
    let n = c as u32;
    ||| 0x09 <= n <= 0x0d
    ||| n == 0x20
    ||| n == 0x85
    ||| n == 0xa0
    ||| n == 0x1680
    ||| 0x2000 <= n <= 0x200a
    ||| n == 0x2028
    ||| n == 0x2029
    ||| n == 0x202f
    ||| n == 0x205f
    ||| n == 0x3000
}

/// Whether a character is white space.
pub fn char_is_space(c: char) -> (r: bool)
    ensures
        r == is_space(c),
{
    let n: u32 = c as u32;
    (0x09 <= n && n <= 0x0d) || n == 0x20 || n == 0x85 || n == 0xa0 || n == 0x1680 || (0x2000 <= n
        && n <= 0x200a) || n == 0x2028 || n == 0x2029 || n == 0x202f || n == 0x205f || n == 0x3000
}

/// Whether a character can be part of a user name.
pub fn char_is_user(c: char) -> (r: bool)
    ensures
        r == is_user_char(c),
{
    let n: u32 = c as u32;
    !char_is_space(c) && c != ':' && c != '/' && n >= 0x20 && n != 0x7f
}

fn char_is_letter(c: char) -> (r: bool)
    ensures
        r == is_letter(c),
{
    ('a' <= c && c <= 'z') || ('A' <= c && c <= 'Z')
}

/// Whether a character is a decimal digit.
pub fn char_is_digit(c: char) -> (r: bool)
    ensures
        r == is_digit(c),
{
    '0' <= c && c <= '9'
}

/// Whether the characters `from..to` are an identifier.
pub fn range_is_safe_id(v: &Vec<char>, from: usize, to: usize) -> (r: bool)
    requires
        from <= to <= v@.len(),
    ensures
        r == is_safe_id(v@.subrange(from as int, to as int)),
{
    let ghost s = v@.subrange(from as int, to as int);
    if from == to {
        return false;
    }
    let first: char = v[from];
    assert(first == s[0]);
    if !(char_is_letter(first) || char_is_digit(first) || first == '_') {
        return false;
    }
    for i in from..to
        invariant
            from <= to <= v@.len(),
            s == v@.subrange(from as int, to as int),
            forall|j: int| 0 <= j < i - from ==> is_id_char(#[trigger] s[j]),
    {
        let c: char = v[i];
        assert(c == s[i - from]);
        if !(char_is_letter(c) || char_is_digit(c) || c == '_' || c == '.' || c == '-') {
            assert(!is_id_char(s[i - from]));
            return false;
        }
    }
    true
}

/// Position of the first `c` from `from` on, or the length.
pub fn find_from(v: &Vec<char>, from: usize, c: char) -> (r: usize)
    requires
        from <= v@.len(),
    ensures
        r == next_index(v@, from as int, c),
        from <= r <= v@.len(),
{
    let mut i: usize = from;
    while i < v.len() && v[i] != c
        invariant
            from <= i <= v@.len(),
            next_index(v@, from as int, c) == next_index(v@, i as int, c),
        decreases v@.len() - i,
    {
        i = i + 1;
    }
    i
}

fn range_is_dns_label(v: &Vec<char>, from: usize, to: usize) -> (r: bool)
    requires
        from <= to <= v@.len(),
    ensures
        r == is_dns_label(v@.subrange(from as int, to as int)),
{
    let ghost s = v@.subrange(from as int, to as int);
    if from == to {
        return false;
    }
    assert(v@[from as int] == s[0]);
    assert(v@[to - 1] == s.last());
    if v[from] == '-' || v[to - 1] == '-' {
        return false;
    }
    for i in from..to
        invariant
            from <= to <= v@.len(),
            s == v@.subrange(from as int, to as int),
            forall|j: int|
                0 <= j < i - from ==> is_letter(#[trigger] s[j]) || is_digit(s[j]) || s[j] == '-',
    {
        let c: char = v[i];
        assert(c == s[i - from]);
        if !(char_is_letter(c) || char_is_digit(c) || c == '-') {
            return false;
        }
    }
    true
}

/// Whether a text is a DNS name.
fn chars_are_dns_name(v: &Vec<char>) -> (r: bool)
    ensures
        r == is_dns_name(v@),
{
    let mut from: usize = 0;
    loop
        invariant
            from <= v@.len(),
            is_dns_name(v@) == is_dns_name_from(v@, from as int),
        decreases v@.len() - from,
    {
        let end: usize = find_from(v, from, '.');
        if !range_is_dns_label(v, from, end) {
            return false;
        }
        if end >= v.len() {
            return true;
        }
        from = end + 1;
    }
}

fn range_is_h16(v: &Vec<char>, from: usize, to: usize) -> (r: bool)
    requires
        from <= to <= v@.len(),
    ensures
        r == is_h16(v@.subrange(from as int, to as int)),
{
    let ghost s = v@.subrange(from as int, to as int);
    if to - from < 1 || to - from > 4 {
        return false;
    }
    for i in from..to
        invariant
            from <= to <= v@.len(),
            s == v@.subrange(from as int, to as int),
            forall|j: int| 0 <= j < i - from ==> is_hex(#[trigger] s[j]),
    {
        let c: char = v[i];
        assert(c == s[i - from]);
        if !(char_is_digit(c) || ('a' <= c && c <= 'f') || ('A' <= c && c <= 'F')) {
            return false;
        }
    }
    true
}

fn range_is_octet(v: &Vec<char>, from: usize, to: usize) -> (r: bool)
    requires
        from <= to <= v@.len(),
    ensures
        r == is_octet(v@.subrange(from as int, to as int)),
{
    let ghost s = v@.subrange(from as int, to as int);
    if to - from < 1 || to - from > 3 {
        return false;
    }
    assert(v@[from as int] == s[0]);
    if to - from > 1 && v[from] == '0' {
        return false;
    }
    let mut value: u32 = 0;
    for i in from..to
        invariant
            from <= to <= v@.len(),
            to - from <= 3,
            s == v@.subrange(from as int, to as int),
            forall|j: int| 0 <= j < i - from ==> is_digit(#[trigger] s[j]),
            value == crate::text::digits_value(s.take(i - from)),
            i - from == 0 ==> value == 0,
            i - from == 1 ==> value <= 9,
            i - from == 2 ==> value <= 99,
            i - from == 3 ==> value <= 999,
    {
        let c: char = v[i];
        assert(c == s[i - from]);
        if !char_is_digit(c) {
            return false;
        }
        proof {
            let k = i - from;
            assert(s.take(k + 1).drop_last() =~= s.take(k));
            assert(s.take(k + 1).last() == c);
        }
        value = value * 10 + (c as u32 - '0' as u32);
    }
    assert(s.take(to - from) =~= s);
    value <= 255
}

/// Whether the characters from `from` on are an IPv4 address.
fn rest_is_ipv4(v: &Vec<char>, from: usize) -> (r: bool)
    requires
        from <= v@.len(),
    ensures
        r == is_ipv4(v@.subrange(from as int, v@.len() as int)),
{
    let ghost s = v@.subrange(from as int, v@.len() as int);
    let n: usize = v.len();
    proof {
        lemma_shifted(v@, from as int, 0, '.');
    }
    let a: usize = find_from(v, from, '.');
    if a >= n {
        return false;
    }
    proof {
        lemma_shifted(v@, from as int, a - from + 1, '.');
        assert(s.subrange(0, a - from) =~= v@.subrange(from as int, a as int));
    }
    let b: usize = find_from(v, a + 1, '.');
    if b >= n {
        return false;
    }
    proof {
        lemma_shifted(v@, from as int, b - from + 1, '.');
        assert(s.subrange(a - from + 1, b - from) =~= v@.subrange(a + 1, b as int));
    }
    let c: usize = find_from(v, b + 1, '.');
    if c >= n {
        return false;
    }
    proof {
        assert(s.subrange(b - from + 1, c - from) =~= v@.subrange(b + 1, c as int));
        assert(s.subrange(c - from + 1, s.len() as int) =~= v@.subrange(c + 1, n as int));
    }
    range_is_octet(v, from, a) && range_is_octet(v, a + 1, b) && range_is_octet(v, b + 1, c)
        && range_is_octet(v, c + 1, n)
}

/// Searching in the rest of a text is searching in the text.
proof fn lemma_shifted(s: Seq<char>, from: int, at: int, c: char)
    requires
        0 <= from <= s.len(),
        0 <= at <= s.len() - from,
    ensures
        next_index(s.subrange(from, s.len() as int), at, c) == next_index(s, from + at, c) - from,
    decreases s.len() - from - at,
{
    let t = s.subrange(from, s.len() as int);
    if at < t.len() && t[at] != c {
        lemma_shifted(s, from, at + 1, c);
    }
}

/// Number of groups in a text; see [`group_count`].
fn count_groups(v: &Vec<char>, tail: bool) -> (r: Option<usize>)
    ensures
        match r {
            Some(n) => group_count(v@, 0, tail) == Some(n as nat),
            None => group_count(v@, 0, tail) is None,
        },
{
    let mut from: usize = 0;
    let mut n: usize = 0;
    loop
        invariant
            from <= v@.len(),
            n <= from,
            group_count(v@, 0, tail) == (match group_count(v@, from as int, tail) {
                Some(rest) => Some((rest + n) as nat),
                None => None,
            }),
        decreases v@.len() - from,
    {
        let len: usize = v.len();
        let end: usize = find_from(v, from, ':');
        if end >= len {
            if range_is_h16(v, from, len) {
                assert(v@.subrange(from as int, len as int).len() >= 1);
                return Some(n + 1);
            }
            if tail && rest_is_ipv4(v, from) {
                proof {
                    lemma_ipv4_len(v@.subrange(from as int, len as int));
                }
                return Some(n + 2);
            }
            return None;
        }
        if !range_is_h16(v, from, end) {
            return None;
        }
        n = n + 1;
        from = end + 1;
    }
}

proof fn lemma_ipv4_len(s: Seq<char>)
    requires
        is_ipv4(s),
    ensures
        s.len() >= 7,
{
    next_index_finds_first(s, 0, '.');
    let a = next_index(s, 0, '.');
    next_index_finds_first(s, a + 1, '.');
    let b = next_index(s, a + 1, '.');
    next_index_finds_first(s, b + 1, '.');
}

/// Whether a text is an IPv6 address.
pub fn chars_are_ipv6(v: &Vec<char>) -> (r: bool)
    ensures
        r == is_ipv6(v@),
{
    let n: usize = v.len();
    let mut gap: usize = 0;
    while n - gap >= 2 && !(v[gap] == ':' && v[gap + 1] == ':')
        invariant
            n == v@.len(),
            gap <= n,
            gap_index(v@, 0) == gap_index(v@, gap as int),
        decreases n - gap,
    {
        gap = gap + 1;
    }
    if n - gap < 2 {
        return match count_groups(v, true) {
            Some(count) => count == 8,
            None => false,
        };
    }
    assert(gap_index(v@, 0) == gap);
    let mut left: Vec<char> = Vec::new();
    for i in 0..gap
        invariant
            gap < v@.len(),
            left@ == v@.subrange(0, i as int),
    {
        left.push(v[i]);
        assert(v@.subrange(0, i + 1) =~= v@.subrange(0, i as int).push(v@[i as int]));
    }
    let mut right: Vec<char> = Vec::new();
    for i in gap + 2..n
        invariant
            n == v@.len(),
            gap + 2 <= n,
            right@ == v@.subrange(gap + 2, i as int),
    {
        right.push(v[i]);
        assert(v@.subrange(gap + 2, i + 1) =~= v@.subrange(gap + 2, i as int).push(v@[i as int]));
    }
    let left_count: usize = if left.len() == 0 {
        0
    } else {
        match count_groups(&left, false) {
            Some(count) => count,
            None => {
                return false;
            },
        }
    };
    let right_count: usize = if right.len() == 0 {
        0
    } else {
        match count_groups(&right, true) {
            Some(count) => count,
            None => {
                return false;
            },
        }
    };
    left_count <= 7 && right_count <= 7 - left_count
}

/// Whether a text is a host as a repository names it.
pub fn chars_are_host(v: &Vec<char>) -> (r: bool)
    ensures
        r == is_host(v@),
{
    if chars_are_dns_name(v) {
        return true;
    }
    let n: usize = v.len();
    if n < 2 || v[0] != '[' || v[n - 1] != ']' {
        return false;
    }
    let mut inner: Vec<char> = Vec::new();
    for i in 1..n - 1
        invariant
            n == v@.len(),
            n >= 2,
            inner@ == v@.subrange(1, i as int),
    {
        inner.push(v[i]);
        assert(v@.subrange(1, i + 1) =~= v@.subrange(1, i as int).push(v@[i as int]));
    }
    chars_are_ipv6(&inner)
}

/// An identifier holds no character that separates the parts of a repository.
pub proof fn safe_id_chars(s: Seq<char>)
    requires
        is_safe_id(s),
    ensures
        forall|i: int|
            0 <= i < s.len() ==> #[trigger] s[i] != ':' && s[i] != '@' && s[i] != '!' && s[i] != ']'
                && s[i] != '/',
{
    assert forall|i: int| 0 <= i < s.len() implies #[trigger] s[i] != ':' && s[i] != '@' && s[i]
        != '!' && s[i] != ']' && s[i] != '/' by {
        assert(is_id_char(s[i]));
    }
}

proof fn dns_name_chars_from(s: Seq<char>, from: int, i: int)
    requires
        is_dns_name_from(s, from),
        from <= i < s.len(),
    ensures
        is_letter(s[i]) || is_digit(s[i]) || s[i] == '-' || s[i] == '.',
        s.last() != '-',
    decreases s.len() - from,
{
    next_index_finds_first(s, from, '.');
    let end = next_index(s, from, '.');
    let label = s.subrange(from, end);
    if i < end {
        assert(label[i - from] == s[i]);
    } else if i > end {
        dns_name_chars_from(s, end + 1, i);
    }
    if end < s.len() {
        if end + 1 < s.len() {
            dns_name_chars_from(s, end + 1, s.len() - 1);
        } else {
            assert(is_dns_name_from(s, end + 1));
            assert(s.subrange(end + 1, next_index(s, end + 1, '.')).len() == 0);
        }
    } else {
        assert(label.last() == s.last());
    }
}

/// A DNS name consists of letters, digits, dashes and dots, and is not empty.
pub proof fn dns_name_chars(s: Seq<char>)
    requires
        is_dns_name(s),
    ensures
        s.len() > 0,
        forall|i: int|
            0 <= i < s.len() ==> is_letter(#[trigger] s[i]) || is_digit(s[i]) || s[i] == '-' || s[i]
                == '.',
{
    next_index_finds_first(s, 0, '.');
    assert(s.subrange(0, next_index(s, 0, '.')).len() > 0);
    assert forall|i: int| 0 <= i < s.len() implies is_letter(#[trigger] s[i]) || is_digit(s[i])
        || s[i] == '-' || s[i] == '.' by {
        dns_name_chars_from(s, 0, i);
    }
}

/// Characters that an IPv6 address can hold.
pub open spec fn is_ipv6_char(c: char) -> bool {
    is_hex(c) || c == ':' || c == '.'
}

proof fn octet_chars(s: Seq<char>, from: int, to: int, i: int)
    requires
        0 <= from <= i < to <= s.len(),
        is_octet(s.subrange(from, to)),
    ensures
        is_ipv6_char(s[i]),
{
    assert(s.subrange(from, to)[i - from] == s[i]);
    assert(is_digit(s.subrange(from, to)[i - from]));
}

proof fn ipv4_chars(s: Seq<char>, i: int)
    requires
        is_ipv4(s),
        0 <= i < s.len(),
    ensures
        is_ipv6_char(s[i]),
{
    next_index_finds_first(s, 0, '.');
    let a = next_index(s, 0, '.');
    next_index_finds_first(s, a + 1, '.');
    let b = next_index(s, a + 1, '.');
    next_index_finds_first(s, b + 1, '.');
    let c = next_index(s, b + 1, '.');
    if i < a {
        octet_chars(s, 0, a, i);
    } else if a < i < b {
        octet_chars(s, a + 1, b, i);
    } else if b < i < c {
        octet_chars(s, b + 1, c, i);
    } else if c < i {
        octet_chars(s, c + 1, s.len() as int, i);
    }
}

proof fn group_chars(s: Seq<char>, from: int, tail: bool, i: int)
    requires
        group_count(s, from, tail) is Some,
        0 <= from <= i < s.len(),
    ensures
        is_ipv6_char(s[i]),
    decreases s.len() - from,
{
    next_index_finds_first(s, from, ':');
    let end = next_index(s, from, ':');
    if end >= s.len() {
        let rest = s.subrange(from, s.len() as int);
        assert(rest[i - from] == s[i]);
        if is_h16(rest) {
            assert(is_hex(rest[i - from]));
        } else {
            ipv4_chars(rest, i - from);
        }
    } else if i < end {
        let group = s.subrange(from, end);
        assert(group[i - from] == s[i]);
        assert(is_hex(group[i - from]));
    } else if i > end {
        group_chars(s, end + 1, tail, i);
    }
}

proof fn lemma_gap_index(s: Seq<char>, from: int)
    requires
        0 <= from <= s.len(),
    ensures
        from <= gap_index(s, from) <= s.len(),
        gap_index(s, from) < s.len() ==> gap_index(s, from) + 1 < s.len() && s[gap_index(s, from)]
            == ':' && s[gap_index(s, from) + 1] == ':',
    decreases s.len() - from,
{
    if from + 1 < s.len() && !(s[from] == ':' && s[from + 1] == ':') {
        lemma_gap_index(s, from + 1);
    }
}

/// An IPv6 address consists of hexadecimal digits, colons and dots.
pub proof fn ipv6_chars(s: Seq<char>)
    requires
        is_ipv6(s),
    ensures
        forall|i: int| 0 <= i < s.len() ==> is_ipv6_char(#[trigger] s[i]),
{
    lemma_gap_index(s, 0);
    let gap = gap_index(s, 0);
    assert forall|i: int| 0 <= i < s.len() implies is_ipv6_char(#[trigger] s[i]) by {
        if gap >= s.len() {
            group_chars(s, 0, true, i);
        } else if i < gap {
            let left = s.subrange(0, gap);
            assert(left[i] == s[i]);
            group_chars(left, 0, false, i);
        } else if i >= gap + 2 {
            let right = s.subrange(gap + 2, s.len() as int);
            assert(right[i - gap - 2] == s[i]);
            group_chars(right, 0, true, i - gap - 2);
        }
    }
}

/// A host holds no `@`; it holds a colon only between brackets, at whose end it
/// ends too.
pub proof fn host_chars(s: Seq<char>)
    requires
        is_host(s),
    ensures
        s.len() > 0,
        forall|i: int| 0 <= i < s.len() ==> #[trigger] s[i] != '@',
        s.last() != ']' ==> forall|i: int| 0 <= i < s.len() ==> #[trigger] s[i] != ':',
{
    if is_dns_name(s) {
        dns_name_chars(s);
    } else {
        let inner = s.subrange(1, s.len() - 1);
        ipv6_chars(inner);
        assert forall|i: int| 0 <= i < s.len() implies #[trigger] s[i] != '@' by {
            if 0 < i < s.len() - 1 {
                assert(is_ipv6_char(inner[i - 1]));
            }
        }
    }
}

/// A safe name begins with a letter, a digit or an underscore, and goes on with these, dots
/// and dashes; and every such text is one.
pub proof fn safe_names_are_plain(s: Seq<char>)
    ensures
        is_safe_id(s) <==> s.len() > 0 && s[0] != '.' && s[0] != '-' && forall|i: int|
            0 <= i < s.len() ==> {
                let c = #[trigger] s[i];
                'a' <= c <= 'z' || 'A' <= c <= 'Z' || '0' <= c <= '9' || c == '_' || c == '.' || c
                    == '-'
            },
{
}

/// A number, written without leading zeros, is part of an IPv4 address exactly if it is at
/// most 255.
pub proof fn octets_go_up_to_255(n: nat)
    ensures
        is_octet(crate::text::decimal(n)) <==> n <= 255,
{
    crate::text::decimal_value(n);
    if n <= 255 {
        reveal_with_fuel(crate::text::decimal, 4);
    }
}

proof fn first_index_before(a: Seq<char>, c: char, rest: Seq<char>, from: int)
    requires
        !a.contains(c),
        0 <= from <= a.len(),
    ensures
        next_index(a.push(c) + rest, from, c) == a.len(),
        next_index(a, from, c) == a.len(),
    decreases a.len() - from,
{
    let s = a.push(c) + rest;
    if from < a.len() {
        assert(s[from] == a[from]);
        assert(a.contains(a[from]));
        first_index_before(a, c, rest, from + 1);
    } else {
        assert(s[from] == c);
    }
}

proof fn index_behind(front: Seq<char>, s: Seq<char>, from: int, c: char)
    requires
        0 <= from <= s.len(),
    ensures
        next_index(front + s, front.len() + from, c) == front.len() + next_index(s, from, c),
    decreases s.len() - from,
{
    if from < s.len() {
        assert((front + s)[front.len() + from] == s[from]);
        index_behind(front, s, from + 1, c);
    }
}

proof fn name_behind(front: Seq<char>, s: Seq<char>, from: int)
    requires
        0 <= from <= s.len(),
    ensures
        is_dns_name_from(front + s, front.len() + from) == is_dns_name_from(s, from),
    decreases s.len() - from,
{
    index_behind(front, s, from, '.');
    next_index_finds_first(s, from, '.');
    let end = next_index(s, from, '.');
    assert((front + s).subrange(front.len() + from, front.len() + end) =~= s.subrange(from, end));
    if end < s.len() {
        name_behind(front, s, end + 1);
    }
}

/// A host name is one label, or a label, a dot and a host name.
pub proof fn host_names_are_made_of_labels(label: Seq<char>, rest: Seq<char>)
    requires
        !label.contains('.'),
    ensures
        is_dns_name(label) <==> is_dns_label(label),
        is_dns_name(label.push('.') + rest) <==> is_dns_label(label) && is_dns_name(rest),
{
    let s = label.push('.') + rest;
    first_index_before(label, '.', rest, 0);
    assert(s.subrange(0, label.len() as int) =~= label);
    assert(label.subrange(0, label.len() as int) =~= label);
    name_behind(label.push('.'), rest, 0);
}

/// A label of a host name has letters, digits and dashes, at least one character, and no
/// dash at either end; and every such text is one.
pub proof fn labels_are_plain(s: Seq<char>)
    ensures
        is_dns_label(s) <==> s.len() > 0 && s[0] != '-' && s[s.len() - 1] != '-' && forall|i: int|
            0 <= i < s.len() ==> {
                let c = #[trigger] s[i];
                'a' <= c <= 'z' || 'A' <= c <= 'Z' || '0' <= c <= '9' || c == '-'
            },
{
}

/// Four numbers with dots between them are an IPv4 address exactly if each is part of one.
pub proof fn ipv4_has_four_octets(a: Seq<char>, b: Seq<char>, c: Seq<char>, d: Seq<char>)
    requires
        !a.contains('.'),
        !b.contains('.'),
        !c.contains('.'),
    ensures
        is_ipv4(a.push('.') + (b.push('.') + (c.push('.') + d))) <==> is_octet(a) && is_octet(b)
            && is_octet(c) && is_octet(d),
{
    let last = c.push('.') + d;
    let rest = b.push('.') + last;
    let s = a.push('.') + rest;
    let i = a.len() as int;
    let j = i + 1 + b.len();
    let k = j + 1 + c.len();
    first_index_before(a, '.', rest, 0);
    index_behind(a.push('.'), rest, 0, '.');
    first_index_before(b, '.', last, 0);
    let front = a.push('.') + b.push('.');
    assert(s =~= front + last);
    index_behind(front, last, 0, '.');
    first_index_before(c, '.', d, 0);
    assert(next_index(s, 0, '.') == i);
    assert(next_index(s, i + 1, '.') == j);
    assert(next_index(s, j + 1, '.') == k);
    assert(s.subrange(0, i) =~= a);
    assert(s.subrange(i + 1, j) =~= b);
    assert(s.subrange(j + 1, k) =~= c);
    assert(s.subrange(k + 1, s.len() as int) =~= d);
}

proof fn groups_behind(front: Seq<char>, s: Seq<char>, from: int, tail: bool)
    requires
        0 <= from <= s.len(),
    ensures
        group_count(front + s, front.len() + from, tail) == group_count(s, from, tail),
    decreases s.len() - from,
{
    index_behind(front, s, from, ':');
    next_index_finds_first(s, from, ':');
    let end = next_index(s, from, ':');
    let whole = front + s;
    assert(whole.subrange(front.len() + from, front.len() + end) =~= s.subrange(from, end));
    assert(whole.subrange(front.len() + from, whole.len() as int) =~= s.subrange(
        from,
        s.len() as int,
    ));
    if end < s.len() {
        groups_behind(front, s, end + 1, tail);
    }
}

/// The groups of an IPv6 address are counted one by one, each of up to four hexadecimal
/// digits; an IPv4 address at the end counts as two, where it is allowed. Whatever else
/// stands between the colons, there is no count.
pub proof fn groups_are_counted_one_by_one(group: Seq<char>, rest: Seq<char>, tail: bool)
    requires
        !group.contains(':'),
    ensures
        is_h16(group) ==> group_count(group, 0, tail) == Some(1nat),
        !is_h16(group) && tail && is_ipv4(group) ==> group_count(group, 0, tail) == Some(2nat),
        !is_h16(group) && !(tail && is_ipv4(group)) ==> group_count(group, 0, tail) is None,
        is_h16(group) && group_count(rest, 0, tail) is Some ==> group_count(
            group.push(':') + rest,
            0,
            tail,
        ) == Some((group_count(rest, 0, tail)->0 + 1) as nat),
        !is_h16(group) || group_count(rest, 0, tail) is None ==> group_count(
            group.push(':') + rest,
            0,
            tail,
        ) is None,
        is_h16(group) <==> 1 <= group.len() <= 4 && forall|i: int|
            0 <= i < group.len() ==> {
                let c = #[trigger] group[i];
                '0' <= c <= '9' || 'a' <= c <= 'f' || 'A' <= c <= 'F'
            },
{
    let s = group.push(':') + rest;
    first_index_before(group, ':', rest, 0);
    assert(s.subrange(0, group.len() as int) =~= group);
    assert(group.subrange(0, group.len() as int) =~= group);
    groups_behind(group.push(':'), rest, 0, tail);
}

/// Whether two colons stand next to each other at `i`.
pub open spec fn gap_at(s: Seq<char>, i: int) -> bool {
    s[i] == ':' && s[i + 1] == ':'
}

proof fn gap_is_the_first(s: Seq<char>, from: int, gap: int)
    requires
        0 <= from <= gap <= s.len(),
        gap < s.len() ==> gap + 1 < s.len() && gap_at(s, gap),
        forall|i: int| from <= i < gap && i + 1 < s.len() ==> !#[trigger] gap_at(s, i),
    ensures
        gap_index(s, from) == gap || (gap == s.len() && gap_index(s, from) == s.len()),
    decreases s.len() - from,
{
    if from + 1 < s.len() && from < gap {
        assert(!gap_at(s, from));
        gap_is_the_first(s, from + 1, gap);
    }
}

/// An IPv6 address has eight groups; or it has a gap, which stands for at least one group,
/// and up to seven on both sides of it together.
pub proof fn ipv6_has_eight_groups(left: Seq<char>, right: Seq<char>, whole: Seq<char>)
    requires
        forall|i: int| 0 <= i < left.len() && i + 1 < left.len() ==> !#[trigger] gap_at(left, i),
        left.len() > 0 ==> left.last() != ':',
        forall|i: int| 0 <= i < whole.len() && i + 1 < whole.len() ==> !#[trigger] gap_at(whole, i),
    ensures
        is_ipv6(whole) <==> group_count(whole, 0, true) == Some(8nat),
        ({
            let l = if left.len() == 0 {
                Some(0nat)
            } else {
                group_count(left, 0, false)
            };
            let r = if right.len() == 0 {
                Some(0nat)
            } else {
                group_count(right, 0, true)
            };
            is_ipv6(left + seq![':', ':'] + right) <==> l is Some && r is Some && l->0 + r->0 < 8
        }),
{
    gap_is_the_first(whole, 0, whole.len() as int);
    let s = left + seq![':', ':'] + right;
    let gap = left.len() as int;
    assert(gap_at(s, gap));
    assert forall|i: int| 0 <= i < gap && i + 1 < s.len() implies !#[trigger] gap_at(s, i) by {
        if i + 1 < gap {
            assert(!gap_at(left, i));
            assert(s[i] == left[i] && s[i + 1] == left[i + 1]);
        } else {
            assert(s[i] == left.last());
        }
    }
    gap_is_the_first(s, 0, gap);
    assert(s.subrange(0, gap) =~= left);
    assert(s.subrange(gap + 2, s.len() as int) =~= right);
}

} // verus!
