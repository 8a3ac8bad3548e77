//! Domains that certificates are ordered for.

use vstd::prelude::*;
use crate::text::{ascii_lower, opt_text, to_ascii_lower};

verus! {

/// A domain to order a certificate for.
pub struct AcmeDomain {
    pub domain: String,
    /// Domain to answer challenges for in place of the usual one.
    pub alias: Option<String>,
    /// Plugin that answers challenges; without one the server answers itself.
    pub plugin: Option<String>,
}

/// Contents of an [`AcmeDomain`].
#[verifier::ext_equal]
pub struct AcmeDomainView {
    pub domain: Seq<char>,
    pub alias: Option<Seq<char>>,
    pub plugin: Option<Seq<char>>,
}

impl View for AcmeDomain {
    type V = AcmeDomainView;

    open spec fn view(&self) -> AcmeDomainView {
        AcmeDomainView {
            domain: self.domain@,
            alias: opt_text(self.alias),
            plugin: opt_text(self.plugin),
        }
    }
}

impl AcmeDomainView {
    /// The same with domain and alias in lower case.
    pub open spec fn lowered(self) -> AcmeDomainView {
        AcmeDomainView {
            domain: ascii_lower(self.domain),
            alias: match self.alias {
                Some(alias) => Some(ascii_lower(alias)),
                None => None,
            },
            plugin: self.plugin,
        }
    }
}

impl AcmeDomain {
    /// The same with domain and alias in lower case.
    pub fn lowered(self) -> (r: AcmeDomain)
        ensures
            r@ == self@.lowered(),
    {
        AcmeDomain {
            domain: to_ascii_lower(self.domain.as_str()),
            alias: match self.alias {
                Some(alias) => Some(to_ascii_lower(alias.as_str())),
                None => None,
            },
            plugin: self.plugin,
        }
    }
}

/// The domains to order a certificate for, in lower case. If one could not be read,
/// the first such is reported.
pub fn order_domains(domains: Vec<Result<AcmeDomain, String>>) -> (r: Result<
    Vec<AcmeDomain>,
    String,
>)
    ensures
        match r {
            Ok(list) => list@.len() == domains@.len() && forall|i: int|
                0 <= i < domains@.len() ==> (#[trigger] domains@[i]) is Ok && list@[i]@
                    == domains@[i]->Ok_0@.lowered(),
            Err(err) => exists|i: int|
                0 <= i < domains@.len() && (#[trigger] domains@[i]) is Err && domains@[i]->Err_0@
                    == err@ && forall|j: int| 0 <= j < i ==> (#[trigger] domains@[j]) is Ok,
        },
{
    let mut list: Vec<AcmeDomain> = Vec::new();
    for domain in it: domains
        invariant
            it.seq() == domains@,
            list@.len() == it.index(),
            forall|i: int|
                0 <= i < it.index() ==> (#[trigger] domains@[i]) is Ok && list@[i]@
                    == domains@[i]->Ok_0@.lowered(),
    {
        assert(domain == domains@[it.index() as int]);
        match domain {
            Ok(domain) => {
                list.push(domain.lowered());
            },
            Err(err) => {
                return Err(err);
            },
        }
    }
    Ok(list)
}

/// A domain that is ordered is that of the configuration in lower case, as is its alias, and
/// its plugin is taken as it is.
pub proof fn ordered_domain_is_lower_case(domain: AcmeDomainView)
    ensures
        domain.lowered().domain == ascii_lower(domain.domain),
        domain.lowered().alias is Some <==> domain.alias is Some,
        domain.alias matches Some(alias) ==> domain.lowered().alias == Some(ascii_lower(alias)),
        domain.lowered().plugin == domain.plugin,
{
}

} // verus!
