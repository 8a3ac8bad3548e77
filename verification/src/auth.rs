//! Identities of users and of their API tokens.

use std::str::FromStr;
use vstd::prelude::*;
use crate::address::{
    char_is_user, is_safe_id, is_user_char, range_is_safe_id, safe_id_chars,
};
use crate::text::{chars_range, opt_text, str_eq, to_chars};

verus! {

/// A user of a realm.
#[derive(Debug)]
pub struct Userid {
    pub name: String,
    pub realm: String,
}

/// A user, or an API token of a user.
#[derive(Debug)]
pub struct Authid {
    pub user: Userid,
    pub token: Option<String>,
}

/// Parts of a user's name.
pub struct UseridView {
    pub name: Seq<char>,
    pub realm: Seq<char>,
}

/// Parts of an identity.
pub struct AuthidView {
    pub user: UseridView,
    pub token: Option<Seq<char>>,
}

impl View for Userid {
    type V = UseridView;

    open spec fn view(&self) -> UseridView {
        UseridView { name: self.name@, realm: self.realm@ }
    }
}

impl View for Authid {
    type V = AuthidView;

    open spec fn view(&self) -> AuthidView {
        AuthidView { user: self.user@, token: opt_text(self.token) }
    }
}

impl UseridView {
    /// The printed form.
    pub open spec fn text(self) -> Seq<char> {
        self.name + seq!['@'] + self.realm
    }

    /// Whether the parts are those of a user's name.
    pub open spec fn valid(self) -> bool {
        &&& self.name.len() > 0
        &&& forall|i: int| 0 <= i < self.name.len() ==> is_user_char(#[trigger] self.name[i])
        &&& is_safe_id(self.realm)
    }
}

impl AuthidView {
    /// The printed form.
    pub open spec fn text(self) -> Seq<char> {
        match self.token {
            Some(token) => self.user.text() + seq!['!'] + token,
            None => self.user.text(),
        }
    }

    /// Whether the parts are those of an identity.
    pub open spec fn valid(self) -> bool {
        &&& self.user.valid()
        &&& self.token is Some ==> is_safe_id(self.token->0)
    }
}

/// The superuser.
pub open spec fn root_userid() -> UseridView {
    UseridView { name: "root"@, realm: "pam"@ }
}

/// The superuser.
pub open spec fn root_auth_id() -> AuthidView {
    AuthidView { user: root_userid(), token: None }
}

impl Userid {
    /// The superuser.
    pub fn root_userid() -> (r: Userid)
        ensures
            r@ == root_userid(),
    {
        Userid { name: "root".to_owned(), realm: "pam".to_owned() }
    }

    /// A copy.
    pub fn copy(&self) -> (r: Userid)
        ensures
            r@ == self@,
    {
        Userid { name: self.name.clone(), realm: self.realm.clone() }
    }

    /// The printed form: name and realm.
    pub fn to_string(&self) -> (r: String)
        ensures
            r@ == self@.text(),
    {
        let mut r = self.name.clone();
        r.push('@');
        r.append(self.realm.as_str());
        assert(self.name@.push('@') =~= self.name@ + seq!['@']);
        r
    }
}

/// Position of the last `c` before `to`.
pub fn rfind(v: &Vec<char>, to: usize, c: char) -> (r: Option<usize>)
    requires
        to <= v@.len(),
    ensures
        match r {
            Some(i) => i < to && v@[i as int] == c && forall|j: int|
                i < j < to ==> #[trigger] v@[j] != c,
            None => forall|j: int| 0 <= j < to ==> #[trigger] v@[j] != c,
        },
{
    let mut i: usize = to;
    while i > 0
        invariant
            i <= to <= v@.len(),
            forall|j: int| i <= j < to ==> #[trigger] v@[j] != c,
        decreases i,
    {
        i = i - 1;
        if v[i] == c {
            return Some(i);
        }
    }
    None
}

/// The parts of an identity that the characters before `to` print, if any.
pub fn parse_authid(v: &Vec<char>, to: usize) -> (r: Option<Authid>)
    requires
        to <= v@.len(),
    ensures
        match r {
            Some(id) => id@.valid() && id@.text() == v@.take(to as int),
            None => forall|id: AuthidView| #[trigger] id.valid() ==> id.text() != v@.take(to as int),
        },
{
    let ghost s = v@.take(to as int);
    let at: usize = match rfind(v, to, '@') {
        Some(at) => at,
        None => {
            assert forall|id: AuthidView| #[trigger] id.valid() implies id.text() != s by {
                if id.text() == s {
                    text_len(id);
                    assert(id.text()[id.user.name.len() as int] == '@');
                    assert(v@[id.user.name.len() as int] == '@');
                }
            }
            return None;
        },
    };
    proof {
        assert forall|id: AuthidView| #[trigger] id.valid() && id.text() == s implies
            id.user.name.len() == at by {
            last_at_splits(id, v@, to as int, at as int);
        }
    }
    if at == 0 {
        assert forall|id: AuthidView| #[trigger] id.valid() implies id.text() != s by {}
        return None;
    }
    for i in 0..at
        invariant
            at < to <= v@.len(),
            s == v@.take(to as int),
            forall|id: AuthidView| #[trigger]
                id.valid() && id.text() == s ==> id.user.name.len() == at,
            forall|j: int| 0 <= j < i ==> is_user_char(#[trigger] v@[j]),
    {
        if !char_is_user(v[i]) {
            assert forall|id: AuthidView| #[trigger] id.valid() implies id.text() != s by {
                if id.text() == s {
                    assert(id.user.name[i as int] == s[i as int]);
                }
            }
            return None;
        }
    }
    let bang: Option<usize> = rfind(v, to, '!');
    let realm_end: usize = match bang {
        Some(bang) => if bang > at {
            bang
        } else {
            to
        },
        None => to,
    };
    proof {
        assert forall|id: AuthidView| #[trigger] id.valid() && id.text() == s implies
            at + 1 + id.user.realm.len() == realm_end && (id.token is Some <==> realm_end < to) by {
            last_bang_splits(id, v@, to as int, realm_end as int);
        }
    }
    if !range_is_safe_id(v, at + 1, realm_end) {
        assert forall|id: AuthidView| #[trigger] id.valid() implies id.text() != s by {
            if id.text() == s {
                assert(v@.subrange(at + 1, realm_end as int) =~= id.user.realm) by {
                    assert forall|k: int| 0 <= k < id.user.realm.len() implies v@[at + 1 + k]
                        == id.user.realm[k] by {
                        assert(id.text()[at + 1 + k] == id.user.realm[k]);
                        assert(s[at + 1 + k] == v@[at + 1 + k]);
                    }
                }
            }
        }
        return None;
    }
    let token: Option<String> = if realm_end < to {
        if !range_is_safe_id(v, realm_end + 1, to) {
            assert forall|id: AuthidView| #[trigger] id.valid() implies id.text() != s by {
                if id.text() == s {
                    let token = id.token->0;
                    assert(v@.subrange(realm_end + 1, to as int) =~= token) by {
                        assert(id.text().len() == realm_end + 1 + token.len());
                        assert forall|k: int| 0 <= k < token.len() implies v@[realm_end + 1 + k]
                            == token[k] by {
                            assert(id.text()[realm_end + 1 + k] == token[k]);
                            assert(s[realm_end + 1 + k] == v@[realm_end + 1 + k]);
                        }
                    }
                }
            }
            return None;
        }
        Some(chars_range(v, realm_end + 1, to))
    } else {
        None
    };
    let id = Authid {
        user: Userid {
            name: chars_range(v, 0, at),
            realm: chars_range(v, at + 1, realm_end),
        },
        token,
    };
    proof {
        assert(id@.text() =~= s);
        assert forall|j: int| 0 <= j < id@.user.name.len() implies is_user_char(
            #[trigger] id@.user.name[j],
        ) by {
            assert(id@.user.name[j] == v@[j]);
        }
    }
    Some(id)
}

/// Length of a printed identity.
proof fn text_len(id: AuthidView)
    ensures
        id.text().len() == id.user.name.len() + 1 + id.user.realm.len() + (match id.token {
            Some(token) => 1 + token.len(),
            None => 0,
        }),
{
}

/// The last `@` of a printed identity ends the user's name.
proof fn last_at_splits(id: AuthidView, v: Seq<char>, to: int, at: int)
    requires
        id.valid(),
        0 <= at < to <= v.len(),
        id.text() == v.take(to),
        v[at] == '@',
        forall|j: int| at < j < to ==> #[trigger] v[j] != '@',
    ensures
        id.user.name.len() == at,
{
    let n = id.user.name.len() as int;
    let s = v.take(to);
    text_len(id);
    assert(id.text()[n] == '@');
    assert(v[n] == s[n]);
    safe_id_chars(id.user.realm);
    if at > n {
        assert(s[at] == '@');
        let k = at - n - 1;
        if k < id.user.realm.len() {
            assert(id.text()[at] == id.user.realm[k]);
        } else {
            let token = id.token->0;
            safe_id_chars(token);
            if k > id.user.realm.len() {
                assert(id.text()[at] == token[k - id.user.realm.len() - 1]);
            } else {
                assert(id.text()[at] == '!');
            }
        }
    }
}

/// The last `!` behind the last `@` of a printed identity ends the realm.
proof fn last_bang_splits(id: AuthidView, v: Seq<char>, to: int, realm_end: int)
    requires
        id.valid(),
        id.text() == v.take(to),
        0 <= id.user.name.len() + 1 <= realm_end <= to <= v.len(),
        realm_end < to ==> v[realm_end] == '!',
        realm_end < to ==> forall|j: int| realm_end < j < to ==> #[trigger] v[j] != '!',
        realm_end == to ==> forall|j: int| id.user.name.len() < j < to ==> #[trigger] v[j] != '!',
    ensures
        id.user.name.len() + 1 + id.user.realm.len() == realm_end,
        id.token is Some <==> realm_end < to,
{
    let s = v.take(to);
    let m = (id.user.name.len() + 1 + id.user.realm.len()) as int;
    text_len(id);
    safe_id_chars(id.user.realm);
    if id.token is Some {
        let token = id.token->0;
        safe_id_chars(token);
        assert(id.text()[m] == '!');
        assert(v[m] == s[m]);
        if realm_end > m && realm_end < to {
            assert(id.text()[realm_end] == token[realm_end - m - 1]);
            assert(v[realm_end] == s[realm_end]);
        }
    } else {
        assert(id.text().len() == m);
        if realm_end < to {
            assert(v[realm_end] == s[realm_end]);
            assert(id.text()[realm_end] == id.user.realm[realm_end - id.user.name.len() - 1]);
        }
    }
}

impl Authid {
    /// The superuser.
    pub fn root_auth_id() -> (r: Authid)
        ensures
            r@ == root_auth_id(),
    {
        Authid { user: Userid::root_userid(), token: None }
    }

    /// A copy.
    pub fn copy(&self) -> (r: Authid)
        ensures
            r@ == self@,
    {
        Authid {
            user: self.user.copy(),
            token: match &self.token {
                Some(token) => Some(token.clone()),
                None => None,
            },
        }
    }

    /// The user, or the user that the token belongs to.
    pub fn user(&self) -> (r: &Userid)
        ensures
            r@ == self@.user,
    {
        &self.user
    }

    /// Whether this is an API token.
    pub fn is_token(&self) -> (r: bool)
        ensures
            r == (self@.token is Some),
    {
        self.token.is_some()
    }

    /// Whether both are the same identity.
    pub fn same(&self, other: &Authid) -> (r: bool)
        ensures
            r == (self@ == other@),
    {
        let tokens = match (&self.token, &other.token) {
            (Some(a), Some(b)) => str_eq(a.as_str(), b.as_str()),
            (None, None) => true,
            _ => false,
        };
        tokens && str_eq(self.user.name.as_str(), other.user.name.as_str()) && str_eq(
            self.user.realm.as_str(),
            other.user.realm.as_str(),
        )
    }

    /// The printed form: the user, and the name of the token behind a `!`.
    pub fn to_string(&self) -> (r: String)
        ensures
            r@ == self@.text(),
    {
        let mut r = self.user.to_string();
        if let Some(token) = &self.token {
            r.push('!');
            r.append(token.as_str());
            assert(self@.user.text().push('!') =~= self@.user.text() + seq!['!']);
        }
        r
    }

    /// The identity that a text prints, if any.
    pub fn parse(text: &str) -> (r: Option<Authid>)
        ensures
            match r {
                Some(id) => id@.valid() && id@.text() == text@,
                None => forall|id: AuthidView| #[trigger] id.valid() ==> id.text() != text@,
            },
    {
        let v = to_chars(text);
        assert(v@.take(v@.len() as int) =~= v@);
        parse_authid(&v, v.len())
    }
}

/// A text that does not print an identity.
#[derive(Clone, Copy, Debug, PartialEq, Eq, Structural)]
pub struct InvalidAuthid;

impl FromStr for Authid {
    type Err = InvalidAuthid;

    fn from_str(text: &str) -> (r: Result<Self, InvalidAuthid>)
        ensures
            match r {
                Ok(id) => id@.valid() && id@.text() == text@,
                Err(_) => forall|id: AuthidView| #[trigger] id.valid() ==> id.text() != text@,
            },
    {
        match Authid::parse(text) {
            Some(id) => Ok(id),
            None => Err(InvalidAuthid),
        }
    }
}

/// A printed identity has only one reading.
pub proof fn printed_identity_is_unique(a: AuthidView, b: AuthidView)
    requires
        a.valid(),
        b.valid(),
        a.text() == b.text(),
    ensures
        a == b,
{
    let s = a.text();
    let n = a.user.name.len() as int;
    assert(s.take(s.len() as int) =~= s);
    assert(s[n] == '@');
    no_at_behind(a);
    last_at_splits(b, s, s.len() as int, n);
    let m = n + 1 + a.user.realm.len();
    no_bang_behind(a);
    if a.token is Some {
        assert(s[m] == '!');
    }
    last_bang_splits(b, s, s.len() as int, m);
    assert(a.user.name =~= s.subrange(0, n));
    assert(b.user.name =~= s.subrange(0, n));
    assert(a.user.realm =~= s.subrange(n + 1, m));
    assert(b.user.realm =~= s.subrange(n + 1, m)) by {
        assert forall|k: int| 0 <= k < b.user.realm.len() implies b.user.realm[k] == s[n + 1 + k] by {
            assert(b.text()[n + 1 + k] == b.user.realm[k]);
        }
    }
    if a.token is Some {
        assert(a.token->0 =~= s.subrange(m + 1, s.len() as int));
        assert(b.token->0 =~= s.subrange(m + 1, s.len() as int)) by {
            assert(b.text().len() == m + 1 + b.token->0.len());
            assert forall|k: int| 0 <= k < b.token->0.len() implies b.token->0[k] == s[m + 1 + k] by {
                assert(b.text()[m + 1 + k] == b.token->0[k]);
            }
        }
    }
}

proof fn no_at_behind(id: AuthidView)
    requires
        id.valid(),
    ensures
        forall|j: int| id.user.name.len() < j < id.text().len() ==> #[trigger] id.text()[j] != '@',
{
    safe_id_chars(id.user.realm);
    if id.token is Some {
        safe_id_chars(id.token->0);
    }
    assert forall|j: int| id.user.name.len() < j < id.text().len() implies #[trigger] id.text()[j]
        != '@' by {
        let k = j - id.user.name.len() - 1;
        if k < id.user.realm.len() {
            assert(id.text()[j] == id.user.realm[k]);
        } else if k > id.user.realm.len() {
            assert(id.text()[j] == id.token->0[k - id.user.realm.len() - 1]);
        }
    }
}

proof fn no_bang_behind(id: AuthidView)
    requires
        id.valid(),
    ensures
        forall|j: int|
            id.user.name.len() < j < id.text().len() && j != id.user.name.len() + 1
                + id.user.realm.len() ==> #[trigger] id.text()[j] != '!',
{
    safe_id_chars(id.user.realm);
    if id.token is Some {
        safe_id_chars(id.token->0);
    }
    assert forall|j: int|
        id.user.name.len() < j < id.text().len() && j != id.user.name.len() + 1
            + id.user.realm.len() implies #[trigger] id.text()[j] != '!' by {
        let k = j - id.user.name.len() - 1;
        if k < id.user.realm.len() {
            assert(id.text()[j] == id.user.realm[k]);
        } else if k > id.user.realm.len() {
            assert(id.text()[j] == id.token->0[k - id.user.realm.len() - 1]);
        }
    }
}

} // verus!
