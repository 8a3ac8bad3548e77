//! Configuration of the node: domains to order certificates for, and TLS ciphers.

use openssl::error::ErrorStack;
use openssl::ssl::{SslAcceptor, SslAcceptorBuilder, SslMethod};
use vstd::prelude::*;
use crate::text::{join3, str_eq, texts};

verus! {

/// Where the configuration is kept.
pub const CONF_FILE: &'static str = "/etc/proxmox-backup/node.cfg";

/// Lock that is held while the configuration is changed.
pub const LOCK_FILE: &'static str = "/etc/proxmox-backup/.node.lck";

/// The lower case of a text.
pub uninterp spec fn lower_case(s: Seq<char>) -> Seq<char>;

/// `str::to_lowercase` gives the lower case of a text, as Unicode defines it.
#[verifier::external_body]
fn to_lower_case(s: &str) -> (r: String)
    ensures
        r@ == lower_case(s@),
{
    s.to_lowercase()
}

/// `openssl::error::ErrorStack`, what OpenSSL reports of a failure.
#[verifier::external_type_specification]
#[verifier::external_body]
pub struct ExErrorStack(openssl::error::ErrorStack);

/// `openssl::ssl::SslAcceptorBuilder`, the settings of a TLS server.
#[verifier::external_type_specification]
#[verifier::external_body]
pub struct ExSslAcceptorBuilder(openssl::ssl::SslAcceptorBuilder);

/// `SslAcceptor::mozilla_intermediate_v5` makes the settings of a TLS server that
/// clients of some age can talk to. Whether it can depends on the OpenSSL library.
#[verifier::external_body]
fn new_acceptor() -> (r: Result<SslAcceptorBuilder, ErrorStack>) {
    SslAcceptor::mozilla_intermediate_v5(SslMethod::tls())
}

/// `SslContextBuilder::set_ciphersuites` takes over a list of ciphers for TLS 1.3.
/// It panics on a text with a null character. Which lists it takes depends on the
/// OpenSSL library.
#[verifier::external_body]
fn set_ciphersuites(acceptor: &mut SslAcceptorBuilder, ciphers: &str) -> (r: Result<(), ErrorStack>)
    requires
        !ciphers@.contains('\0'),
{
    acceptor.set_ciphersuites(ciphers)
}

/// `SslContextBuilder::set_cipher_list` takes over a list of ciphers for TLS up to
/// 1.2. It panics on a text with a null character. Which lists it takes depends on
/// the OpenSSL library.
#[verifier::external_body]
fn set_cipher_list(acceptor: &mut SslAcceptorBuilder, ciphers: &str) -> (r: Result<(), ErrorStack>)
    requires
        !ciphers@.contains('\0'),
{
    acceptor.set_cipher_list(ciphers)
}

/// Why a configuration is not saved.
pub enum NodeConfigError {
    /// A domain could not be read; holds what was wrong with it.
    InvalidDomain(String),
    /// A domain occurs twice.
    DuplicateDomain(String),
    /// OpenSSL does not take a list of ciphers.
    Ciphers(ErrorStack),
}

impl NodeConfigError {
    /// The message, unless it comes from OpenSSL.
    pub open spec fn text(self) -> Option<Seq<char>> {
        match self {
            NodeConfigError::InvalidDomain(err) => Some(err@),
            NodeConfigError::DuplicateDomain(domain) => Some(
                "duplicate domain '"@ + domain@ + "' in ACME config"@,
            ),
            NodeConfigError::Ciphers(_) => None,
        }
    }

    /// The message, unless it comes from OpenSSL.
    pub fn message(&self) -> (r: Option<String>)
        ensures
            match r {
                Some(m) => self.text() == Some(m@),
                None => self.text() is None,
            },
    {
        match self {
            NodeConfigError::InvalidDomain(err) => Some(err.clone()),
            NodeConfigError::DuplicateDomain(domain) => Some(
                join3("duplicate domain '", domain.as_str(), "' in ACME config"),
            ),
            NodeConfigError::Ciphers(_) => None,
        }
    }
}

/// Whether the name at `i` occurs before.
pub open spec fn occurs_before(names: Seq<Seq<char>>, i: int) -> bool {
    exists|j: int| 0 <= j < i && #[trigger] names[j] == names[i]
}

/// The domain that was read, or what was wrong with it.
pub type ReadDomain = Result<String, String>;

/// Lower case of the domains.
pub open spec fn folded(domains: Seq<ReadDomain>) -> Seq<Seq<char>> {
    Seq::new(
        domains.len(),
        |i: int|
            match domains[i] {
                Ok(name) => lower_case(name@),
                Err(_) => seq![],
            },
    )
}

/// Whether the domains before `n` could be read and have different names.
pub open spec fn clean_before(domains: Seq<ReadDomain>, names: Seq<Seq<char>>, n: int) -> bool {
    forall|k: int| 0 <= k < n ==> (#[trigger] domains[k]) is Ok && !occurs_before(names, k)
}

/// Whether `r` reports the first domain that could not be read or whose name occurs
/// before, or success if there is none.
pub open spec fn reports_domains(
    domains: Seq<ReadDomain>,
    names: Seq<Seq<char>>,
    r: Result<(), NodeConfigError>,
) -> bool {
    match r {
        Ok(()) => clean_before(domains, names, domains.len() as int),
        Err(NodeConfigError::InvalidDomain(err)) => exists|i: int|
            0 <= i < domains.len() && clean_before(domains, names, i) && (#[trigger] domains[i])
                is Err && domains[i]->Err_0@ == err@,
        Err(NodeConfigError::DuplicateDomain(name)) => exists|i: int|
            0 <= i < domains.len() && clean_before(domains, names, i) && (#[trigger] domains[i])
                is Ok && occurs_before(names, i) && domains[i]->Ok_0@ == name@,
        Err(NodeConfigError::Ciphers(_)) => false,
    }
}

/// Checks that all domains could be read and that no name occurs twice.
pub fn check_names(domains: &Vec<ReadDomain>, names: &Vec<String>) -> (r: Result<
    (),
    NodeConfigError,
>)
    requires
        names@.len() == domains@.len(),
    ensures
        reports_domains(domains@, texts(names@), r),
{
    let ghost all = texts(names@);
    for i in 0..domains.len()
        invariant
            all == texts(names@),
            names@.len() == domains@.len(),
            clean_before(domains@, all, i as int),
    {
        match &domains[i] {
            Err(err) => {
                let reported: String = err.clone();
                assert(domains@[i as int] is Err);
                return Err(NodeConfigError::InvalidDomain(reported));
            },
            Ok(domain) => {
                for j in 0..i
                    invariant
                        all == texts(names@),
                        names@.len() == domains@.len(),
                        i < domains@.len(),
                        domains@[i as int] is Ok,
                        domains@[i as int]->Ok_0@ == domain@,
                        clean_before(domains@, all, i as int),
                        forall|k: int| 0 <= k < j ==> #[trigger] all[k] != all[i as int],
                {
                    if str_eq(names[j].as_str(), names[i].as_str()) {
                        let reported: String = domain.clone();
                        assert(all[j as int] == all[i as int]);
                        assert(occurs_before(all, i as int));
                        return Err(NodeConfigError::DuplicateDomain(reported));
                    }
                }
                assert(!occurs_before(all, i as int));
            },
        }
    }
    Ok(())
}

/// Checks that all domains could be read and that none occurs twice, without
/// regard to case.
pub fn check_domains(domains: &Vec<ReadDomain>) -> (r: Result<(), NodeConfigError>)
    ensures
        reports_domains(domains@, folded(domains@), r),
{
    let mut names: Vec<String> = Vec::new();
    for i in 0..domains.len()
        invariant
            texts(names@) == folded(domains@).take(i as int),
    {
        let ghost before = names@;
        let name: String = match &domains[i] {
            Ok(domain) => to_lower_case(domain.as_str()),
            Err(_) => String::new(),
        };
        assert(name@ == folded(domains@)[i as int]);
        names.push(name);
        assert(texts(names@) =~= texts(before).push(name@));
        assert(folded(domains@).take(i + 1) =~= folded(domains@).take(i as int).push(name@));
    }
    assert(folded(domains@).take(domains@.len() as int) =~= folded(domains@));
    assert(texts(names@).len() == names@.len());
    check_names(domains, &names)
}

/// Whether a text is free of null characters.
pub open spec fn no_null(text: Option<String>) -> bool {
    text is Some ==> !text->0@.contains('\0')
}

/// The lists of ciphers that OpenSSL is asked to take over: for TLS 1.3 first, then
/// for TLS up to 1.2.
pub fn cipher_lists<'a>(
    ciphers_tls_1_3: &'a Option<String>,
    ciphers_tls_1_2: &'a Option<String>,
) -> (r: (Option<&'a str>, Option<&'a str>))
    ensures
        r.0 is Some == ciphers_tls_1_3 is Some,
        r.0 is Some ==> r.0->0@ == ciphers_tls_1_3->0@,
        r.1 is Some == ciphers_tls_1_2 is Some,
        r.1 is Some ==> r.1->0@ == ciphers_tls_1_2->0@,
{
    let suites: Option<&'a str> = match ciphers_tls_1_3 {
        Some(ciphers) => Some(ciphers.as_str()),
        None => None,
    };
    let list: Option<&'a str> = match ciphers_tls_1_2 {
        Some(ciphers) => Some(ciphers.as_str()),
        None => None,
    };
    (suites, list)
}

/// What becomes of the check of the ciphers, from the errors of its three calls in
/// their order: the settings of a server, the ciphers for TLS 1.3, those for TLS up
/// to 1.2. The first error is reported.
pub fn cipher_result(
    acceptor: Option<ErrorStack>,
    suites: Option<ErrorStack>,
    list: Option<ErrorStack>,
) -> (r: Result<(), NodeConfigError>)
    ensures
        r == (match (acceptor, suites, list) {
            (Some(err), _, _) => Err::<(), NodeConfigError>(NodeConfigError::Ciphers(err)),
            (None, Some(err), _) => Err(NodeConfigError::Ciphers(err)),
            (None, None, Some(err)) => Err(NodeConfigError::Ciphers(err)),
            (None, None, None) => Ok(()),
        }),
{
    if let Some(err) = acceptor {
        return Err(NodeConfigError::Ciphers(err));
    }
    if let Some(err) = suites {
        return Err(NodeConfigError::Ciphers(err));
    }
    match list {
        Some(err) => Err(NodeConfigError::Ciphers(err)),
        None => Ok(()),
    }
}

/// Checks a configuration before it is saved: the domains first, then the lists of
/// ciphers, as far as they are set. Without any list the domains alone decide,
/// unless OpenSSL offers no TLS server at all. OpenSSL is asked to take over the lists
/// of [`cipher_lists`], up to the first that it refuses, and [`cipher_result`] is what
/// becomes of its answers.
pub fn check_config(
    domains: &Vec<ReadDomain>,
    ciphers_tls_1_3: &Option<String>,
    ciphers_tls_1_2: &Option<String>,
) -> (r: Result<(), NodeConfigError>)
    requires
        no_null(*ciphers_tls_1_3),
        no_null(*ciphers_tls_1_2),
    ensures
        match r {
            Err(NodeConfigError::Ciphers(_)) => reports_domains(
                domains@,
                folded(domains@),
                Ok(()),
            ),
            _ => reports_domains(domains@, folded(domains@), r),
        },
{
    match check_domains(domains) {
        Ok(()) => {},
        Err(err) => {
            return Err(err);
        },
    }
    let (suites, list) = cipher_lists(ciphers_tls_1_3, ciphers_tls_1_2);
    let mut acceptor = match new_acceptor() {
        Ok(acceptor) => acceptor,
        Err(err) => {
            return cipher_result(Some(err), None, None);
        },
    };
    if let Some(ciphers) = suites {
        if let Err(err) = set_ciphersuites(&mut acceptor, ciphers) {
            return cipher_result(None, Some(err), None);
        }
    }
    if let Some(ciphers) = list {
        if let Err(err) = set_cipher_list(&mut acceptor, ciphers) {
            return cipher_result(None, None, Some(err));
        }
    }
    cipher_result(None, None, None)
}

/// A configuration in which two domains differ in case alone is not saved.
pub proof fn case_does_not_tell_domains_apart(
    domains: Seq<ReadDomain>,
    a: String,
    b: String,
    i: int,
    j: int,
)
    requires
        0 <= i < j < domains.len(),
        domains[i] == Ok::<String, String>(a),
        domains[j] == Ok::<String, String>(b),
        lower_case(a@) == lower_case(b@),
    ensures
        !reports_domains(domains, folded(domains), Ok(())),
{
    let all = folded(domains);
    assert(all[i] == all[j]);
    assert(occurs_before(all, j));
    assert(domains[j] is Ok);
}

/// Domains that can all be read and differ in more than their case are accepted, and a
/// domain that cannot be read never is.
pub proof fn distinct_domains_are_accepted(
    domains: Seq<ReadDomain>,
    r: Result<(), NodeConfigError>,
)
    requires
        reports_domains(domains, folded(domains), r),
    ensures
        r is Ok <==> (forall|i: int| 0 <= i < domains.len() ==> (#[trigger] domains[i]) is Ok) && (
        forall|i: int, j: int|
            0 <= i < j < domains.len() ==> lower_case((#[trigger] domains[i])->Ok_0@) != lower_case(
                (#[trigger] domains[j])->Ok_0@,
            )),
{
    let names = folded(domains);
    if r is Ok {
        assert forall|i: int, j: int| 0 <= i < j < domains.len() implies lower_case(
            (#[trigger] domains[i])->Ok_0@,
        ) != lower_case((#[trigger] domains[j])->Ok_0@) by {
            assert(!occurs_before(names, j));
            assert(names[i] != names[j]);
        }
    } else if (forall|i: int| 0 <= i < domains.len() ==> (#[trigger] domains[i]) is Ok) && (forall|
        i: int,
        j: int,
    |
        0 <= i < j < domains.len() ==> lower_case((#[trigger] domains[i])->Ok_0@) != lower_case(
            (#[trigger] domains[j])->Ok_0@,
        )) {
        assert forall|k: int| 0 <= k < domains.len() implies !occurs_before(names, k) by {
            if occurs_before(names, k) {
                let j = choose|j: int| 0 <= j < k && #[trigger] names[j] == names[k];
                assert(domains[j] is Ok && domains[k] is Ok);
                assert(lower_case(domains[j]->Ok_0@) != lower_case(domains[k]->Ok_0@));
            }
        }
    }
}

} // verus!
