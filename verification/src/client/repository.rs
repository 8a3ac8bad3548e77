//! Location of a backup repository: a server, a datastore on it and the identity
//! to log in with.

use std::str::FromStr;
use vstd::prelude::*;
use crate::address::{
    char_is_digit, chars_are_host, chars_are_ipv6, host_chars, is_host, is_ipv6, is_safe_id,
    range_is_safe_id, safe_id_chars,
};
use crate::auth::{
    parse_authid, printed_identity_is_unique, rfind, root_auth_id, root_userid, Authid, AuthidView,
    Userid,
};
use crate::text::{
    all_digits, chars_range, decimal, decimal_len, decimal_value, digits_value, join3, opt_text,
    to_chars, u64_to_string,
};

verus! {

/// Host that is used where none is given.
pub const DEFAULT_HOST: &'static str = "localhost";

/// Port that is used where none is given.
pub const DEFAULT_PORT: u16 = 8007;

/// Why there is no repository.
#[derive(Debug)]
pub enum RepositoryError {
    /// The text is not a repository URL.
    Url(String),
    /// The port is not below 65536.
    Port,
    /// A URL and single parts are given.
    MutuallyExclusive,
    /// Single parts are given, but no datastore.
    DatastoreRequired,
    /// Neither a URL nor single parts are given.
    NotSpecified,
}

impl RepositoryError {
    /// The message.
    pub open spec fn text(self) -> Seq<char> {
        match self {
            RepositoryError::Url(url) => "unable to parse repository url '"@ + url@ + "'"@,
            RepositoryError::Port => "number too large to fit in target type"@,
            RepositoryError::MutuallyExclusive =>
                "--repository and --server/--port/--datastore/--auth-id are mutually exclusive"@,
            RepositoryError::DatastoreRequired =>
                "--datastore is required when not using --repository"@,
            RepositoryError::NotSpecified => "no repository specified"@,
        }
    }

    /// The message.
    pub fn to_string(&self) -> (r: String)
        ensures
            r@ == self.text(),
    {
        match self {
            RepositoryError::Url(url) => join3(
                "unable to parse repository url '",
                url.as_str(),
                "'",
            ),
            RepositoryError::Port => "number too large to fit in target type".to_owned(),
            RepositoryError::MutuallyExclusive =>
                "--repository and --server/--port/--datastore/--auth-id are mutually exclusive".to_owned(),
            RepositoryError::DatastoreRequired =>
                "--datastore is required when not using --repository".to_owned(),
            RepositoryError::NotSpecified => "no repository specified".to_owned(),
        }
    }
}

/// Backup repository location, given either as a repository URL or by its single
/// parts.
pub struct BackupRepositoryArgs {
    pub repository: Option<String>,
    pub server: Option<String>,
    pub port: Option<u16>,
    pub datastore: Option<String>,
    pub auth_id: Option<Authid>,
}

impl Default for BackupRepositoryArgs {
    fn default() -> (r: Self)
        ensures
            r.repository is None,
            r.server is None,
            r.port is None,
            r.datastore is None,
            r.auth_id is None,
    {
        BackupRepositoryArgs {
            repository: None,
            server: None,
            port: None,
            datastore: None,
            auth_id: None,
        }
    }
}

/// Backup target of a command: a repository location and an optional namespace.
pub struct BackupTargetArgs {
    pub target: BackupRepositoryArgs,
    pub ns: Option<crate::namespace::BackupNamespace>,
}

impl Default for BackupTargetArgs {
    fn default() -> (r: Self)
        ensures
            !r.target.atoms(),
            r.target.repository is None,
            r.ns is None,
    {
        BackupTargetArgs { target: BackupRepositoryArgs::default(), ns: None }
    }
}

/// The first of two values that is there.
pub open spec fn either<T>(a: Option<T>, b: Option<T>) -> Option<T> {
    match a {
        Some(x) => Some(x),
        None => b,
    }
}

fn or<T>(a: Option<T>, b: Option<T>) -> (r: Option<T>)
    ensures
        r == either(a, b),
{
    match a {
        Some(x) => Some(x),
        None => b,
    }
}

impl BackupRepositoryArgs {
    /// Whether a single part is given.
    pub open spec fn atoms(self) -> bool {
        self.server is Some || self.port is Some || self.datastore is Some || self.auth_id is Some
    }

    /// Whether a single part (server, port, datastore or identity) is given.
    pub fn has_atoms(&self) -> (r: bool)
        ensures
            r == self.atoms(),
    {
        self.server.is_some() || self.port.is_some() || self.datastore.is_some()
            || self.auth_id.is_some()
    }

    /// Checks that a URL and single parts are not mixed.
    pub fn check_mutual_exclusion(&self) -> (r: Result<(), RepositoryError>)
        ensures
            match r {
                Ok(()) => !(self.repository is Some && self.atoms()),
                Err(e) => e == RepositoryError::MutuallyExclusive && self.repository is Some
                    && self.atoms(),
            },
    {
        if self.repository.is_some() && self.has_atoms() {
            return Err(RepositoryError::MutuallyExclusive);
        }
        Ok(())
    }

    /// What is given here, and what `fallback` gives for the rest.
    pub fn merge_from(self, fallback: BackupRepositoryArgs) -> (r: Self)
        ensures
            r.repository == either(self.repository, fallback.repository),
            r.server == either(self.server, fallback.server),
            r.port == either(self.port, fallback.port),
            r.datastore == either(self.datastore, fallback.datastore),
            r.auth_id == either(self.auth_id, fallback.auth_id),
    {
        BackupRepositoryArgs {
            repository: or(self.repository, fallback.repository),
            server: or(self.server, fallback.server),
            port: or(self.port, fallback.port),
            datastore: or(self.datastore, fallback.datastore),
            auth_id: or(self.auth_id, fallback.auth_id),
        }
    }
}

/// Location of a backup repository.
#[derive(Debug)]
pub struct BackupRepository {
    auth_id: Option<Authid>,
    host: Option<String>,
    port: Option<u16>,
    store: String,
}

/// Parts of a repository location.
pub struct RepositoryView {
    pub auth_id: Option<AuthidView>,
    pub host: Option<Seq<char>>,
    pub port: Option<u16>,
    pub store: Seq<char>,
}

impl View for BackupRepository {
    type V = RepositoryView;

    closed spec fn view(&self) -> RepositoryView {
        RepositoryView {
            auth_id: match self.auth_id {
                Some(id) => Some(id@),
                None => None,
            },
            host: opt_text(self.host),
            port: self.port,
            store: self.store@,
        }
    }
}

impl RepositoryView {
    /// Identity to log in with.
    pub open spec fn login(self) -> AuthidView {
        match self.auth_id {
            Some(id) => id,
            None => root_auth_id(),
        }
    }

    /// Host to connect to.
    pub open spec fn server(self) -> Seq<char> {
        match self.host {
            Some(host) => host,
            None => DEFAULT_HOST@,
        }
    }

    /// Port to connect to.
    pub open spec fn server_port(self) -> u16 {
        match self.port {
            Some(port) => port,
            None => DEFAULT_PORT,
        }
    }

    /// The printed form.
    pub open spec fn text(self) -> Seq<char> {
        match (self.auth_id, self.host, self.port) {
            (Some(id), _, _) => id.text() + seq!['@'] + self.server() + seq![':'] + decimal(
                self.server_port() as nat,
            ) + seq![':'] + self.store,
            (None, Some(host), None) => host + seq![':'] + self.store,
            (None, _, Some(port)) => self.server() + seq![':'] + decimal(port as nat) + seq![':']
                + self.store,
            (None, None, None) => self.store,
        }
    }

    /// Whether the parts can be written as a URL.
    pub open spec fn valid(self) -> bool {
        &&& is_safe_id(self.store)
        &&& self.host is Some ==> is_host(self.host->0)
        &&& self.auth_id is Some ==> self.auth_id->0.valid()
    }

    /// Whether both name the same place with the same identity.
    pub open spec fn same_place(self, other: RepositoryView) -> bool {
        &&& self.login() == other.login()
        &&& self.server() == other.server()
        &&& self.server_port() == other.server_port()
        &&& self.store == other.store
    }
}

/// Parts of a repository URL. The port is kept as its digits.
pub struct UrlParts {
    pub auth_id: Option<AuthidView>,
    pub host: Option<Seq<char>>,
    pub port: Option<Seq<char>>,
    pub store: Seq<char>,
}

impl UrlParts {
    /// Identity and host of the URL.
    pub open spec fn origin(self) -> Seq<char> {
        match self.auth_id {
            Some(id) => id.text() + seq!['@'] + self.host->0,
            None => self.host->0,
        }
    }

    /// The URL, `[[auth-id@]server[:port]:]datastore`.
    pub open spec fn url(self) -> Seq<char> {
        match (self.host, self.port) {
            (None, _) => self.store,
            (Some(_), None) => self.origin() + seq![':'] + self.store,
            (Some(_), Some(port)) => self.origin() + seq![':'] + port + seq![':'] + self.store,
        }
    }

    /// Whether the parts are such as a URL can have: identity and port come with
    /// a host only, and a port has at most five digits.
    pub open spec fn valid(self) -> bool {
        &&& is_safe_id(self.store)
        &&& self.host is None ==> self.auth_id is None && self.port is None
        &&& self.host is Some ==> is_host(self.host->0)
        &&& self.auth_id is Some ==> self.auth_id->0.valid()
        &&& self.port is Some ==> 1 <= self.port->0.len() <= 5 && all_digits(self.port->0)
    }

    /// The location that the parts name.
    pub open spec fn repository(self) -> RepositoryView {
        RepositoryView {
            auth_id: self.auth_id,
            host: self.host,
            port: match self.port {
                Some(port) => Some(digits_value(port) as u16),
                None => None,
            },
            store: self.store,
        }
    }

    /// Whether the port is not below 65536.
    pub open spec fn port_too_large(self) -> bool {
        self.port is Some && digits_value(self.port->0) > u16::MAX
    }
}

/// Host that stands for what was given: a bare IPv6 address is put in brackets.
pub open spec fn host_given(host: Option<Seq<char>>) -> Option<Seq<char>> {
    match host {
        Some(h) => if is_ipv6(h) {
            Some(seq!['['] + h + seq![']'])
        } else {
            Some(h)
        },
        None => None,
    }
}

/// Whether `r` is what a URL leads to: the location that its parts name, or an
/// error if it has no parts or if its port is too large.
pub open spec fn url_result(
    url: Seq<char>,
    r: Result<BackupRepository, RepositoryError>,
) -> bool {
    match r {
        Ok(repo) => exists|parts: UrlParts| #[trigger]
            parts.valid() && parts.url() == url && !parts.port_too_large() && repo@
                == parts.repository(),
        Err(RepositoryError::Url(text)) => text@ == url && forall|parts: UrlParts| #[trigger]
            parts.valid() ==> parts.url() != url,
        Err(RepositoryError::Port) => exists|parts: UrlParts| #[trigger]
            parts.valid() && parts.url() == url && parts.port_too_large(),
        Err(_) => false,
    }
}

/// Whether `r` is what the arguments of a command lead to. A URL and single parts
/// may not be mixed, and single parts need a datastore.
pub open spec fn args_result(
    args: BackupRepositoryArgs,
    r: Result<BackupRepository, RepositoryError>,
) -> bool {
    if args.repository is Some && args.atoms() {
        r == Err::<BackupRepository, _>(RepositoryError::MutuallyExclusive)
    } else if args.atoms() {
        match args.datastore {
            None => r == Err::<BackupRepository, _>(RepositoryError::DatastoreRequired),
            Some(store) => r is Ok && r->Ok_0@ == (RepositoryView {
                auth_id: match args.auth_id {
                    Some(id) => Some(id@),
                    None => None,
                },
                host: host_given(opt_text(args.server)),
                port: args.port,
                store: store@,
            }),
        }
    } else {
        match args.repository {
            None => r == Err::<BackupRepository, _>(RepositoryError::NotSpecified),
            Some(url) => url_result(url@, r),
        }
    }
}

impl BackupRepository {
    /// A repository from its parts. A bare IPv6 address is put in brackets.
    pub fn new(
        auth_id: Option<Authid>,
        host: Option<String>,
        port: Option<u16>,
        store: String,
    ) -> (r: Self)
        ensures
            r@ == (RepositoryView {
                auth_id: match auth_id {
                    Some(id) => Some(id@),
                    None => None,
                },
                host: host_given(opt_text(host)),
                port,
                store: store@,
            }),
    {
        let host = match host {
            Some(host) => {
                if chars_are_ipv6(&to_chars(host.as_str())) {
                    let mut bracketed = String::new();
                    bracketed.push('[');
                    bracketed.append(host.as_str());
                    bracketed.push(']');
                    assert(bracketed@ =~= seq!['['] + host@ + seq![']']);
                    Some(bracketed)
                } else {
                    Some(host)
                }
            },
            None => None,
        };
        BackupRepository { auth_id, host, port, store }
    }

    /// Identity to log in with; the superuser where none is given.
    pub fn auth_id(&self) -> (r: Authid)
        ensures
            r@ == self@.login(),
    {
        match &self.auth_id {
            Some(auth_id) => auth_id.copy(),
            None => Authid::root_auth_id(),
        }
    }

    /// User to log in with; the superuser where no identity is given.
    pub fn user(&self) -> (r: Userid)
        ensures
            r@ == self@.login().user,
    {
        match &self.auth_id {
            Some(auth_id) => auth_id.user().copy(),
            None => Userid::root_userid(),
        }
    }

    /// Host to connect to; the local one where none is given.
    pub fn host(&self) -> (r: &str)
        ensures
            r@ == self@.server(),
    {
        match &self.host {
            Some(host) => host.as_str(),
            None => DEFAULT_HOST,
        }
    }

    /// Port to connect to; the default one where none is given.
    pub fn port(&self) -> (r: u16)
        ensures
            r == self@.server_port(),
    {
        match self.port {
            Some(port) => port,
            None => DEFAULT_PORT,
        }
    }

    /// Name of the datastore.
    pub fn store(&self) -> (r: &str)
        ensures
            r@ == self@.store,
    {
        self.store.as_str()
    }

    /// The printed form.
    pub fn to_string(&self) -> (r: String)
        ensures
            r@ == self@.text(),
    {
        match &self.auth_id {
            Some(auth_id) => {
                let mut r = auth_id.to_string();
                r.push('@');
                r.append(self.host());
                r.push(':');
                r.append(u64_to_string(self.port() as u64).as_str());
                r.push(':');
                r.append(self.store.as_str());
                assert(r@ =~= self@.text());
                r
            },
            None => {
                let mut r = String::new();
                if self.host.is_some() || self.port.is_some() {
                    r.append(self.host());
                    r.push(':');
                }
                if let Some(port) = self.port {
                    r.append(u64_to_string(port as u64).as_str());
                    r.push(':');
                }
                r.append(self.store.as_str());
                assert(r@ =~= self@.text());
                r
            },
        }
    }

    /// A repository from a URL, `[[auth-id@]server[:port]:]datastore`.
    pub fn parse_url(url: &str) -> (r: Result<BackupRepository, RepositoryError>)
        ensures
            url_result(url@, r),
    {
        let v = to_chars(url);
        match split_url(&v) {
            None => Err(RepositoryError::Url(url.to_owned())),
            Some(split) => {
                let ghost parts = split.parts();
                match &split.port {
                    None => {
                        let repo = BackupRepository {
                            auth_id: split.auth_id,
                            host: split.host,
                            port: None,
                            store: split.store,
                        };
                        assert(parts.valid());
                        assert(repo@ == parts.repository());
                        Ok(repo)
                    },
                    Some(digits) => {
                        assert(parts.valid());
                        match port_value(&to_chars(digits.as_str())) {
                            Some(port) => {
                                let repo = BackupRepository {
                                    auth_id: split.auth_id,
                                    host: split.host,
                                    port: Some(port),
                                    store: split.store,
                                };
                                assert(repo@ == parts.repository());
                                Ok(repo)
                            },
                            None => Err(RepositoryError::Port),
                        }
                    },
                }
            },
        }
    }
}

impl TryFrom<BackupRepositoryArgs> for BackupRepository {
    type Error = RepositoryError;

    /// A repository from what a command was given.
    ///
    /// - If a URL and a single part are given, that is an error.
    /// - Single parts make up the repository; they need a datastore.
    /// - A URL alone is parsed.
    /// - If nothing is given, that is an error.
    fn try_from(args: BackupRepositoryArgs) -> (r: Result<Self, RepositoryError>)
        ensures
            args_result(args, r),
    {
        if let Err(err) = args.check_mutual_exclusion() {
            return Err(err);
        }
        if args.has_atoms() {
            return match args.datastore {
                None => Err(RepositoryError::DatastoreRequired),
                Some(store) => Ok(
                    BackupRepository::new(args.auth_id, args.server, args.port, store),
                ),
            };
        }
        match args.repository {
            Some(url) => BackupRepository::parse_url(url.as_str()),
            None => Err(RepositoryError::NotSpecified),
        }
    }
}

impl vstd::std_specs::convert::TryFromSpecImpl<BackupRepositoryArgs> for BackupRepository {
    open spec fn obeys_try_from_spec() -> bool {
        false
    }

    open spec fn try_from_spec(args: BackupRepositoryArgs) -> Result<Self, RepositoryError> {
        arbitrary()
    }
}

impl FromStr for BackupRepository {
    type Err = RepositoryError;

    fn from_str(url: &str) -> (r: Result<Self, RepositoryError>)
        ensures
            url_result(url@, r),
    {
        BackupRepository::parse_url(url)
    }
}

/// Parts of a URL.
struct SplitUrl {
    auth_id: Option<Authid>,
    host: Option<String>,
    port: Option<String>,
    store: String,
}

impl SplitUrl {
    spec fn parts(self) -> UrlParts {
        UrlParts {
            auth_id: match self.auth_id {
                Some(id) => Some(id@),
                None => None,
            },
            host: opt_text(self.host),
            port: opt_text(self.port),
            store: self.store@,
        }
    }
}

/// Value of a port, if it is below 65536.
fn port_value(digits: &Vec<char>) -> (r: Option<u16>)
    requires
        digits@.len() <= 5,
        all_digits(digits@),
    ensures
        match r {
            Some(port) => port == digits_value(digits@),
            None => digits_value(digits@) > u16::MAX,
        },
{
    let mut value: u32 = 0;
    for i in 0..digits.len()
        invariant
            digits@.len() <= 5,
            all_digits(digits@),
            value == digits_value(digits@.take(i as int)),
            i == 0 ==> value == 0,
            i == 1 ==> value <= 9,
            i == 2 ==> value <= 99,
            i == 3 ==> value <= 999,
            i == 4 ==> value <= 9999,
            i == 5 ==> value <= 99999,
    {
        let c: char = digits[i];
        assert(crate::text::is_digit(digits@[i as int]));
        assert(digits@.take(i + 1).drop_last() =~= digits@.take(i as int));
        value = value * 10 + (c as u32 - '0' as u32);
    }
    assert(digits@.take(digits@.len() as int) =~= digits@);
    if value <= 65535 {
        Some(value as u16)
    } else {
        None
    }
}

/// Facts about where the separators of a URL stand.
proof fn url_shape(parts: UrlParts)
    requires
        parts.valid(),
    ensures
        ({
            let url = parts.url();
            let n = url.len() - parts.store.len();
            &&& n >= 0
            &&& url.skip(n) == parts.store
            &&& forall|j: int| n <= j < url.len() ==> #[trigger] url[j] != ':'
            &&& parts.host is None ==> n == 0
            &&& parts.host is Some ==> {
                let origin = parts.origin();
                &&& n > 0
                &&& url[n - 1] == ':'
                &&& parts.port is None ==> {
                    &&& n - 1 == origin.len()
                    &&& url.take(n - 1) == origin
                    &&& url[n - 2] == ']' || forall|j: int| 0 <= j < n - 1 ==> #[trigger] url[j] != ':'
                }
                &&& parts.port is Some ==> {
                    let m = n - 1 - parts.port->0.len() - 1;
                    &&& m == origin.len()
                    &&& url.take(m) == origin
                    &&& url[m] == ':'
                    &&& url.subrange(m + 1, n - 1) == parts.port->0
                    &&& url[n - 2] != ']'
                    &&& forall|j: int| m < j < n - 1 ==> #[trigger] url[j] != ':'
                }
            }
        }),
{
    let url = parts.url();
    let store = parts.store;
    let n = url.len() - store.len();
    safe_id_chars(store);
    if parts.host is None {
        assert(url.skip(0) =~= store);
        assert(n == 0);
    } else {
        let origin = parts.origin();
        let host = parts.host->0;
        origin_shape(parts);
        match parts.port {
            None => {
                assert(n == origin.len() + 1);
                assert(url[n - 1] == ':');
                assert(url.take(n - 1) =~= origin);
                assert(url.skip(n) =~= store);
                assert(url[n - 2] == origin.last());
                assert forall|j: int| n <= j < url.len() implies #[trigger] url[j] != ':' by {
                    assert(url[j] == store[j - n]);
                }
                if origin.last() != ']' {
                    assert forall|j: int| 0 <= j < n - 1 implies #[trigger] url[j] != ':' by {
                        assert(url[j] == origin[j]);
                    }
                }
            },
            Some(port) => {
                let m = origin.len() as int;
                assert(n == m + 1 + port.len() + 1);
                assert(url.take(m) =~= origin);
                assert(url[m] == ':');
                assert(url.subrange(m + 1, n - 1) =~= port);
                assert(url[n - 1] == ':');
                assert(url.skip(n) =~= store);
                assert(url[n - 2] == port.last());
                assert(crate::text::is_digit(port[port.len() - 1]));
                assert forall|j: int| n <= j < url.len() implies #[trigger] url[j] != ':' by {
                    assert(url[j] == store[j - n]);
                }
                assert forall|j: int| m < j < n - 1 implies #[trigger] url[j] != ':' by {
                    assert(url[j] == port[j - m - 1]);
                    assert(crate::text::is_digit(port[j - m - 1]));
                }
            },
        }
    }
}

/// Facts about the identity and host of a URL.
proof fn origin_shape(parts: UrlParts)
    requires
        parts.valid(),
        parts.host is Some,
    ensures
        ({
            let origin = parts.origin();
            let host = parts.host->0;
            let k = origin.len() - host.len();
            &&& host.len() > 0
            &&& k >= 0
            &&& origin.skip(k) == host
            &&& origin.last() == host.last()
            &&& origin.last() != ']' ==> forall|j: int| 0 <= j < origin.len() ==> #[trigger] origin[j]
                != ':'
            &&& forall|j: int| k <= j < origin.len() ==> #[trigger] origin[j] != '@'
            &&& parts.auth_id is None ==> k == 0
            &&& parts.auth_id is Some ==> k > 0 && origin[k - 1] == '@' && origin.take(k - 1)
                == parts.auth_id->0.text()
        }),
{
    let origin = parts.origin();
    let host = parts.host->0;
    let k = origin.len() - host.len();
    host_chars(host);
    match parts.auth_id {
        None => {
            assert(origin.skip(0) =~= host);
        },
        Some(id) => {
            let text = id.text();
            assert(k == text.len() + 1);
            assert(origin.skip(k) =~= host);
            assert(origin[k - 1] == '@');
            assert(origin.take(k - 1) =~= text);
            assert(origin.last() == host.last());
            assert forall|j: int| k <= j < origin.len() implies #[trigger] origin[j] != '@' by {
                assert(origin[j] == host[j - k]);
            }
            auth_has_no_colon(id);
            if origin.last() != ']' {
                assert forall|j: int| 0 <= j < origin.len() implies #[trigger] origin[j] != ':' by {
                    if j < k - 1 {
                        assert(origin[j] == text[j]);
                    } else if j >= k {
                        assert(origin[j] == host[j - k]);
                    }
                }
            }
        },
    }
}

proof fn auth_has_no_colon(id: AuthidView)
    requires
        id.valid(),
    ensures
        forall|j: int| 0 <= j < id.text().len() ==> #[trigger] id.text()[j] != ':',
{
    safe_id_chars(id.user.realm);
    if id.token is Some {
        safe_id_chars(id.token->0);
    }
    assert forall|j: int| 0 <= j < id.text().len() implies #[trigger] id.text()[j] != ':' by {
        let n = id.user.name.len();
        let m = n + 1 + id.user.realm.len();
        if j < n {
            assert(id.text()[j] == id.user.name[j]);
            assert(crate::address::is_user_char(id.user.name[j]));
        } else if n < j < m {
            assert(id.text()[j] == id.user.realm[j - n - 1]);
        } else if j > m {
            assert(id.text()[j] == id.token->0[j - m - 1]);
        }
    }
}

/// Splits identity and host of a URL, which stand before `to`.
fn split_origin(v: &Vec<char>, to: usize) -> (r: Option<(Option<Authid>, String)>)
    requires
        to <= v@.len(),
    ensures
        match r {
            Some((auth_id, host)) => {
                let s = v@.take(to as int);
                &&& is_host(host@)
                &&& match auth_id {
                    Some(id) => id@.valid() && s == id@.text() + seq!['@'] + host@,
                    None => s == host@,
                }
            },
            None => forall|parts: UrlParts| #[trigger]
                parts.valid() && parts.host is Some ==> parts.origin() != v@.take(to as int),
        },
{
    let ghost s = v@.take(to as int);
    let at = rfind(v, to, '@');
    let host_start: usize = match at {
        Some(at) => at + 1,
        None => 0,
    };
    let host = chars_range(v, host_start, to);
    let host_chars = to_chars(host.as_str());
    proof {
        assert forall|parts: UrlParts| #[trigger]
            parts.valid() && parts.host is Some && parts.origin() == s implies host@
            == parts.host->0 && (parts.auth_id is Some <==> at is Some) && (at is Some ==> s.take(
            at->0 as int,
        ) == parts.auth_id->0.text()) by {
            origin_shape(parts);
            let k = s.len() - parts.host->0.len();
            assert(s.len() == to);
            if at is Some {
                let a = at->0 as int;
                assert(s[a] == v@[a]);
                if k > a + 1 {
                    assert(s[k - 1] == v@[k - 1]);
                }
                assert(k == a + 1);
            } else {
                if k > 0 {
                    assert(s[k - 1] == v@[k - 1]);
                }
                assert(k == 0);
            }
            assert(host@ =~= s.skip(k));
        }
    }
    if !chars_are_host(&host_chars) {
        return None;
    }
    match at {
        None => {
            assert(host@ =~= s);
            Some((None, host))
        },
        Some(at) => {
            assert(v@.take(at as int) =~= s.take(at as int));
            match parse_authid(v, at) {
                None => None,
                Some(id) => {
                    assert(s =~= id@.text() + seq!['@'] + host@);
                    Some((Some(id), host))
                },
            }
        },
    }
}

/// The datastore of a URL stands behind the last colon.
proof fn store_follows_last_colon(v: Seq<char>, colon: Option<usize>)
    requires
        match colon {
            Some(i) => i < v.len() && v[i as int] == ':' && forall|j: int|
                i < j < v.len() ==> #[trigger] v[j] != ':',
            None => forall|j: int| 0 <= j < v.len() ==> #[trigger] v[j] != ':',
        },
    ensures
        forall|parts: UrlParts| #[trigger]
            parts.valid() && parts.url() == v ==> {
                &&& parts.host is Some <==> colon is Some
                &&& parts.store == v.subrange(
                    match colon {
                        Some(i) => i + 1,
                        None => 0,
                    },
                    v.len() as int,
                )
            },
{
    assert forall|parts: UrlParts| #[trigger] parts.valid() && parts.url() == v implies {
        &&& parts.host is Some <==> colon is Some
        &&& parts.store == v.subrange(
            match colon {
                Some(i) => i + 1,
                None => 0,
            },
            v.len() as int,
        )
    } by {
        url_shape(parts);
        let k = v.len() - parts.store.len();
        if parts.host is Some {
            assert(v[k - 1] == ':');
            assert(k == colon->0 + 1);
        } else if colon is Some {
            assert(v[colon->0 as int] == ':');
        }
        assert(v.subrange(k, v.len() as int) =~= v.skip(k));
    }
}

/// Before its datastore, a URL ends in a port exactly if it neither ends in a
/// bracket nor lacks a colon there.
proof fn port_follows_colon(v: Seq<char>, colon: usize, port_colon: Option<usize>)
    requires
        colon < v.len(),
        v[colon as int] == ':',
        forall|j: int| colon < j < v.len() ==> #[trigger] v[j] != ':',
        match port_colon {
            Some(i) => i < colon && v[colon - 1] != ']' && v[i as int] == ':' && forall|j: int|
                i < j < colon ==> #[trigger] v[j] != ':',
            None => colon > 0 && v[colon - 1] == ']' || forall|j: int|
                0 <= j < colon ==> #[trigger] v[j] != ':',
        },
    ensures
        forall|parts: UrlParts| #[trigger]
            parts.valid() && parts.url() == v ==> (match port_colon {
                Some(p) => v.take(p as int) == parts.origin() && parts.port == Some(
                    v.subrange(p + 1, colon as int),
                ),
                None => v.take(colon as int) == parts.origin() && parts.port is None,
            }),
{
    assert forall|parts: UrlParts| #[trigger] parts.valid() && parts.url() == v implies (
    match port_colon {
        Some(p) => v.take(p as int) == parts.origin() && parts.port == Some(
            v.subrange(p + 1, colon as int),
        ),
        None => v.take(colon as int) == parts.origin() && parts.port is None,
    }) by {
        url_shape(parts);
        let n = v.len() - parts.store.len();
        assert(v[n - 1] == ':');
        assert(n - 1 == colon);
        match parts.port {
            Some(port) => {
                let m = n - 1 - port.len() - 1;
                assert(v[m] == ':');
                assert(port_colon is Some);
                assert(port_colon->0 == m);
            },
            None => {
                if let Some(p) = port_colon {
                    assert(v[p as int] == ':');
                }
            },
        }
    }
}

/// Splits a URL into its parts.
fn split_url(v: &Vec<char>) -> (r: Option<SplitUrl>)
    ensures
        match r {
            Some(split) => split.parts().valid() && split.parts().url() == v@,
            None => forall|parts: UrlParts| #[trigger] parts.valid() ==> parts.url() != v@,
        },
{
    let n: usize = v.len();
    let colon = rfind(v, n, ':');
    let store_start: usize = match colon {
        Some(colon) => colon + 1,
        None => 0,
    };
    proof {
        store_follows_last_colon(v@, colon);
    }
    if !range_is_safe_id(v, store_start, n) {
        return None;
    }
    let store = chars_range(v, store_start, n);
    let colon: usize = match colon {
        None => {
            let split = SplitUrl { auth_id: None, host: None, port: None, store };
            assert(split.parts().url() =~= v@);
            return Some(split);
        },
        Some(colon) => colon,
    };
    // what is left ends in a port, unless it ends in a bracket or holds no colon
    let port_colon: Option<usize> = if colon > 0 && v[colon - 1] == ']' {
        None
    } else {
        rfind(v, colon, ':')
    };
    proof {
        port_follows_colon(v@, colon, port_colon);
    }
    match port_colon {
        None => {
            match split_origin(v, colon) {
                None => None,
                Some((auth_id, host)) => {
                    let split = SplitUrl { auth_id, host: Some(host), port: None, store };
                    proof {
                        assert(split.parts().origin() == v@.take(colon as int));
                        assert(split.parts().url() =~= v@);
                    }
                    Some(split)
                },
            }
        },
        Some(port_colon) => {
            let from: usize = port_colon + 1;
            if colon - from < 1 || colon - from > 5 {
                return None;
            }
            let port = chars_range(v, from, colon);
            for i in from..colon
                invariant
                    from <= colon <= v@.len(),
                    port@ == v@.subrange(from as int, colon as int),
                    forall|parts: UrlParts| #[trigger]
                        parts.valid() && parts.url() == v@ ==> parts.port == Some(port@),
                    forall|j: int| 0 <= j < i - from ==> crate::text::is_digit(#[trigger] port@[j]),
            {
                assert(port@[i - from] == v@[i as int]);
                if !char_is_digit(v[i]) {
                    assert forall|parts: UrlParts| #[trigger] parts.valid() implies parts.url()
                        != v@ by {
                        if parts.url() == v@ {
                            assert(all_digits(port@));
                            assert(crate::text::is_digit(port@[i - from]));
                        }
                    }
                    return None;
                }
            }
            match split_origin(v, port_colon) {
                None => None,
                Some((auth_id, host)) => {
                    let split = SplitUrl { auth_id, host: Some(host), port: Some(port), store };
                    proof {
                        assert(split.parts().origin() == v@.take(port_colon as int));
                        assert(split.parts().url() =~= v@);
                    }
                    Some(split)
                },
            }
        },
    }
}

/// A URL has only one reading.
pub proof fn url_is_unambiguous(a: UrlParts, b: UrlParts)
    requires
        a.valid(),
        b.valid(),
        a.url() == b.url(),
    ensures
        a == b,
{
    let url = a.url();
    url_shape(a);
    url_shape(b);
    let na = url.len() - a.store.len();
    let nb = url.len() - b.store.len();
    if na < nb {
        assert(url[nb - 1] == ':');
    }
    if nb < na {
        assert(url[na - 1] == ':');
    }
    assert(na == nb);
    if a.host is Some {
        if a.port is Some && b.port is None {
            assert(url[url.len() - a.store.len() - 1 - a.port->0.len() - 1] == ':');
        }
        if b.port is Some && a.port is None {
            assert(url[url.len() - b.store.len() - 1 - b.port->0.len() - 1] == ':');
        }
        assert(a.port is Some <==> b.port is Some);
        if a.port is Some {
            let ma = na - 1 - a.port->0.len() - 1;
            let mb = na - 1 - b.port->0.len() - 1;
            if ma < mb {
                assert(url[mb] == ':');
            }
            if mb < ma {
                assert(url[ma] == ':');
            }
            assert(ma == mb);
        }
        assert(a.origin() == b.origin());
        let origin = a.origin();
        origin_shape(a);
        origin_shape(b);
        let ka = origin.len() - a.host->0.len();
        let kb = origin.len() - b.host->0.len();
        if ka < kb {
            assert(origin[kb - 1] == '@');
        }
        if kb < ka {
            assert(origin[ka - 1] == '@');
        }
        assert(ka == kb);
        if a.auth_id is Some {
            printed_identity_is_unique(a.auth_id->0, b.auth_id->0);
        }
    }
}

/// A printed location is a URL, and reading it leads to the same place with the
/// same identity.
pub proof fn printed_location_is_read_back(repo: RepositoryView) -> (parts: UrlParts)
    requires
        repo.valid(),
    ensures
        parts.valid(),
        parts.url() == repo.text(),
        !parts.port_too_large(),
        parts.repository().same_place(repo),
        forall|other: UrlParts| #[trigger]
            other.valid() && other.url() == repo.text() ==> other == parts,
{
    default_host_is_valid();
    let shows_host = repo.auth_id is Some || repo.host is Some || repo.port is Some;
    let shows_port = repo.auth_id is Some || repo.port is Some;
    let digits = decimal(repo.server_port() as nat);
    decimal_value(repo.server_port() as nat);
    decimal_len(repo.server_port() as nat);
    let parts = UrlParts {
        auth_id: repo.auth_id,
        host: if shows_host {
            Some(repo.server())
        } else {
            None
        },
        port: if shows_port {
            Some(digits)
        } else {
            None
        },
        store: repo.store,
    };
    assert(parts.valid());
    assert(parts.url() =~= repo.text());
    assert forall|other: UrlParts| #[trigger]
        other.valid() && other.url() == repo.text() implies other == parts by {
        url_is_unambiguous(other, parts);
    }
    parts
}

proof fn default_host_is_valid()
    ensures
        is_host(DEFAULT_HOST@),
{
    reveal_strlit("localhost");
    let s = DEFAULT_HOST@;
    reveal_with_fuel(crate::address::next_index, 11);
    reveal_with_fuel(crate::address::is_dns_name_from, 2);
    assert(s.subrange(0, 9) =~= s);
    assert(crate::address::next_index(s, 0, '.') == 9);
    assert(crate::address::is_dns_label(s));
}

/// A URL is printed as it was read, if a port comes with the identity and is
/// written without leading zeros.
pub proof fn canonical_url_is_printed_back(parts: UrlParts)
    requires
        parts.valid(),
        !parts.port_too_large(),
        parts.auth_id is Some ==> parts.port is Some,
        parts.port is Some ==> parts.port->0 == decimal(digits_value(parts.port->0)),
    ensures
        parts.repository().text() == parts.url(),
{
    assert(parts.repository().text() =~= parts.url());
}

/// Where nothing is given, the superuser, the local host and the default port are
/// used.
pub proof fn defaults_are_used(store: Seq<char>)
    ensures
        ({
            let repo = RepositoryView { auth_id: None, host: None, port: None, store };
            &&& repo.login().user == root_userid()
            &&& repo.login().token is None
            &&& repo.server() == DEFAULT_HOST@
            &&& repo.server_port() == 8007
            &&& repo.text() == store
        }),
{
}

/// A location is given as one text or in parts but never both ways; in parts it needs a
/// datastore, and takes the parts over as they are, a bare IPv6 address in brackets; and
/// without either there is none.
pub proof fn location_is_given_one_way(
    args: BackupRepositoryArgs,
    r: Result<BackupRepository, RepositoryError>,
)
    requires
        args_result(args, r),
    ensures
        ({
            let in_parts = args.server is Some || args.port is Some || args.datastore is Some
                || args.auth_id is Some;
            &&& args.repository is Some && in_parts ==> r == Err::<BackupRepository, _>(
                RepositoryError::MutuallyExclusive,
            )
            &&& args.repository is None && !in_parts ==> r == Err::<BackupRepository, _>(
                RepositoryError::NotSpecified,
            )
            &&& args.repository is None && in_parts && args.datastore is None ==> r == Err::<
                BackupRepository,
                _,
            >(RepositoryError::DatastoreRequired)
            &&& args.repository is None && args.datastore is Some ==> {
                &&& r is Ok
                &&& r->Ok_0@.store == args.datastore->0@
                &&& r->Ok_0@.port == args.port
                &&& r->Ok_0@.auth_id is Some <==> args.auth_id is Some
                &&& args.auth_id matches Some(id) ==> r->Ok_0@.auth_id == Some(id@)
                &&& r->Ok_0@.host is Some <==> args.server is Some
                &&& args.server matches Some(server) ==> if is_ipv6(server@) {
                    r->Ok_0@.host == Some(seq!['['] + server@ + seq![']'])
                } else {
                    r->Ok_0@.host == Some(server@)
                }
            }
        }),
{
}

/// What is given first wins over what is filled in.
pub proof fn given_value_wins<T>(given: T, filled: Option<T>)
    ensures
        either(Some(given), filled) == Some(given),
        either(None, filled) == filled,
{
}

} // verus!
