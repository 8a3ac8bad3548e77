//! The certificate of the server: what is known of it, when it is renewed, and how
//! it is replaced.

use openssl::error::ErrorStack;
use openssl::pkey::PKey;
use openssl::x509::X509;
use vstd::prelude::*;
use vstd::utf8::{encode_utf8, valid_utf8};
use crate::text::{i64_to_string, join2, join3, opt_text, signed_decimal, texts};

verus! {

/// Where the certificate is kept.
pub const CERT_PATH: &'static str = "/etc/proxmox-backup/proxy.pem";

/// Where its private key is kept.
pub const KEY_PATH: &'static str = "/etc/proxmox-backup/proxy.key";

/// Seconds of a day.
pub const SECONDS_PER_DAY: i64 = 86400;

// ---- what is known of the certificate ----

/// `String::from_utf8` takes bytes as text if they are valid UTF-8.
#[verifier::external_body]
fn utf8_text(bytes: Vec<u8>) -> (r: Option<String>)
    ensures
        match r {
            Some(text) => encode_utf8(text@) == bytes@,
            None => !valid_utf8(bytes@),
        },
{
    String::from_utf8(bytes).ok()
}

/// The certificate as text, or the message that it is none.
pub fn certificate_pem(bytes: Vec<u8>) -> (r: Result<String, &'static str>)
    ensures
        match r {
            Ok(text) => encode_utf8(text@) == bytes@,
            Err(message) => !valid_utf8(bytes@) && message@
                == "certificate in \"/etc/proxmox-backup/proxy.pem\" is not a valid PEM file"@,
        },
{
    match utf8_text(bytes) {
        Some(text) => Ok(text),
        None => Err("certificate in \"/etc/proxmox-backup/proxy.pem\" is not a valid PEM file"),
    }
}

/// Message if the certificate cannot be read.
pub fn certificate_error(err: &str) -> (r: String)
    ensures
        r@ == "error loading proxy certificate: "@ + err@,
{
    join2("error loading proxy certificate: ", err)
}

/// What is known of a certificate.
pub struct CertificateInfo {
    /// Name of its file.
    pub filename: String,
    /// Whom it is for.
    pub subject: String,
    /// Other names that it is for.
    pub san: Vec<String>,
    /// Who signed it.
    pub issuer: String,
    /// Start of its validity.
    pub notbefore: Option<i64>,
    /// End of its validity.
    pub notafter: Option<i64>,
    /// The certificate itself.
    pub pem: Option<String>,
    /// Algorithm of its key.
    pub public_key_type: String,
    /// Length of its key.
    pub public_key_bits: Option<u32>,
    pub fingerprint: Option<String>,
}

/// What was read out of a certificate.
pub struct CertificateFacts {
    pub pem: String,
    pub subject: String,
    /// Other names, where there are any; a name that is no domain is `None`.
    pub alt_names: Option<Vec<Option<String>>>,
    pub issuer: String,
    pub notbefore: Option<i64>,
    pub notafter: Option<i64>,
    pub key_bits: u32,
    pub fingerprint: String,
}

/// `openssl::nid::Nid::long_name` gives the name of an algorithm. Which names are
/// known depends on the OpenSSL library; nothing is claimed of them.
#[verifier::external_body]
fn algorithm_name(nid: i32) -> (r: Option<String>) {
    openssl::nid::Nid::from_raw(nid).long_name().ok().map(str::to_owned)
}

/// The names that are domains, in order.
pub open spec fn dns_names(names: Seq<Option<String>>) -> Seq<Seq<char>>
    decreases names.len(),
{
    if names.len() == 0 {
        seq![]
    } else {
        match names.last() {
            Some(name) => dns_names(names.drop_last()).push(name@),
            None => dns_names(names.drop_last()),
        }
    }
}

fn collect_dns_names(names: Vec<Option<String>>) -> (r: Vec<String>)
    ensures
        texts(r@) == dns_names(names@),
{
    let mut r: Vec<String> = Vec::new();
    assert(texts(r@) =~= dns_names(names@.take(0)));
    for name in it: names
        invariant
            it.seq() == names@,
            texts(r@) == dns_names(names@.take(it.index() as int)),
    {
        let ghost before = r@;
        let ghost i = it.index() as int;
        assert(name == names@[i]);
        assert(names@.take(i + 1).drop_last() =~= names@.take(i));
        assert(names@.take(i + 1).last() == name);
        match name {
            Some(name) => {
                r.push(name);
                assert(texts(r@) =~= texts(before).push(name@));
            },
            None => {},
        }
    }
    assert(names@.take(names@.len() as int) =~= names@);
    r
}

/// What is known of the certificate whose key has an algorithm of the given name.
pub fn certificate_info(facts: CertificateFacts, key_type: Option<String>) -> (r: CertificateInfo)
    ensures
        r.filename@ == "proxy.pem"@,
        r.subject@ == facts.subject@,
        texts(r.san@) == (match facts.alt_names {
            Some(names) => dns_names(names@),
            None => seq![],
        }),
        r.issuer@ == facts.issuer@,
        r.notbefore == facts.notbefore,
        r.notafter == facts.notafter,
        opt_text(r.pem) == Some(facts.pem@),
        r.public_key_type@ == (match key_type {
            Some(name) => name@,
            None => "<unsupported key type>"@,
        }),
        r.public_key_bits == Some(facts.key_bits),
        opt_text(r.fingerprint) == Some(facts.fingerprint@),
{
    let san: Vec<String> = match facts.alt_names {
        Some(names) => collect_dns_names(names),
        None => {
            let none: Vec<String> = Vec::new();
            assert(texts(none@) =~= Seq::<Seq<char>>::empty());
            none
        },
    };
    CertificateInfo {
        filename: "proxy.pem".to_owned(),
        subject: facts.subject,
        san,
        issuer: facts.issuer,
        notbefore: facts.notbefore,
        notafter: facts.notafter,
        pem: Some(facts.pem),
        public_key_type: match key_type {
            Some(name) => name,
            None => "<unsupported key type>".to_owned(),
        },
        public_key_bits: Some(facts.key_bits),
        fingerprint: Some(facts.fingerprint),
    }
}

/// What is known of the certificate. The server has a single one.
pub fn get_info(facts: CertificateFacts, key_nid: i32) -> (r: Vec<CertificateInfo>)
    ensures
        r@.len() == 1,
        r@[0].filename@ == "proxy.pem"@,
        r@[0].subject@ == facts.subject@,
        texts(r@[0].san@) == (match facts.alt_names {
            Some(names) => dns_names(names@),
            None => seq![],
        }),
        r@[0].issuer@ == facts.issuer@,
        r@[0].notbefore == facts.notbefore,
        r@[0].notafter == facts.notafter,
        opt_text(r@[0].pem) == Some(facts.pem@),
        r@[0].public_key_bits == Some(facts.key_bits),
        opt_text(r@[0].fingerprint) == Some(facts.fingerprint@),
{
    let info = certificate_info(facts, algorithm_name(key_nid));
    let mut r: Vec<CertificateInfo> = Vec::new();
    r.push(info);
    r
}

// ---- renewal ----

/// How long before its end a certificate is renewed, in seconds. Long-lived ones
/// are renewed when two thirds of their life have passed, those of less than ten
/// days when half of it has; three days before the end at the latest. If the
/// validity is not known it is thirty days.
pub open spec fn lead_time(notbefore: Option<i64>, notafter: Option<i64>) -> int {
    match (notbefore, notafter) {
        (Some(from), Some(to)) => {
            let lifetime = to - from;
            let share = if lifetime < 10 * SECONDS_PER_DAY {
                lifetime / 2
            } else {
                lifetime / 3
            };
            if share >= 3 * SECONDS_PER_DAY {
                share
            } else {
                3 * SECONDS_PER_DAY
            }
        },
        _ => 30 * SECONDS_PER_DAY,
    }
}

/// Whether the length of the validity can be told.
pub open spec fn lifetime_fits(notbefore: Option<i64>, notafter: Option<i64>) -> bool {
    notbefore is Some && notafter is Some ==> i64::MIN <= notafter->0 - notbefore->0 <= i64::MAX
}

/// Warning if the validity of the certificate is not known.
pub const NO_VALIDITY_WARNING: &'static str =
    "certificate notBefore/notAfter unavailable, falling back to 30-day renewal lead time";

/// How long before its end a certificate is renewed, and whether to warn that its
/// validity is not known.
pub fn cert_renew_lead_time(notbefore: Option<i64>, notafter: Option<i64>) -> (r: (i64, bool))
    requires
        lifetime_fits(notbefore, notafter),
    ensures
        r.0 == lead_time(notbefore, notafter),
        r.1 == (notbefore is None || notafter is None),
{
    match (notbefore, notafter) {
        (Some(from), Some(to)) => {
            let lifetime: i64 = to - from;
            let floor: i64 = 3 * SECONDS_PER_DAY;
            if lifetime < floor {
                return (floor, false);
            }
            let share: i64 = if lifetime < 10 * SECONDS_PER_DAY {
                lifetime / 2
            } else {
                lifetime / 3
            };
            (if share >= floor {
                share
            } else {
                floor
            }, false)
        },
        _ => (30 * SECONDS_PER_DAY, true),
    }
}

/// The time at which the certificate must still be valid not to be renewed, and
/// how many days from now that is.
pub fn renewal_limit(notbefore: Option<i64>, notafter: Option<i64>, now: i64) -> (r: (i64, i64))
    requires
        lifetime_fits(notbefore, notafter),
        now + lead_time(notbefore, notafter) <= i64::MAX,
    ensures
        r.0 == now + lead_time(notbefore, notafter),
        r.1 == lead_time(notbefore, notafter) / (SECONDS_PER_DAY as int),
{
    proof {
        lead_time_is_three_days_at_least(notbefore, notafter);
    }
    let (lead, _) = cert_renew_lead_time(notbefore, notafter);
    (now + lead, lead / SECONDS_PER_DAY)
}

/// Message if it cannot be told when the certificate expires.
pub fn expiration_error(err: &str) -> (r: String)
    ensures
        r@ == "Failed to check certificate expiration date: "@ + err@,
{
    join2("Failed to check certificate expiration date: ", err)
}

/// Whether the certificate may be renewed now; otherwise why not.
pub fn renew_acme_cert(expires_soon: bool, lead_days: i64, force: bool) -> (r: Result<(), String>)
    ensures
        match r {
            Ok(()) => expires_soon || force,
            Err(message) => !expires_soon && !force && message@
                == "Certificate does not expire within the next "@ + signed_decimal(
                lead_days as int,
            ) + " days and 'force' is not set."@,
        },
{
    if expires_soon || force {
        return Ok(());
    }
    Err(
        join3(
            "Certificate does not expire within the next ",
            i64_to_string(lead_days).as_str(),
            " days and 'force' is not set.",
        ),
    )
}

/// Every certificate is renewed three days before its end at the latest.
pub proof fn lead_time_is_three_days_at_least(notbefore: Option<i64>, notafter: Option<i64>)
    ensures
        lead_time(notbefore, notafter) >= 3 * SECONDS_PER_DAY,
{
}

/// A certificate that lives for ten days or more is renewed once two thirds of its
/// life have passed, to the second.
pub proof fn long_lived_is_renewed_at_two_thirds(from: i64, to: i64)
    requires
        to - from >= 10 * SECONDS_PER_DAY,
    ensures
        ({
            let lifetime = to - from;
            let passed = lifetime - lead_time(Some(from), Some(to));
            3 * passed >= 2 * lifetime && 3 * (passed - 1) < 2 * lifetime
        }),
{
}

/// A certificate that lives for less than ten days, but for six at least, is
/// renewed once half of its life has passed, to the second.
pub proof fn short_lived_is_renewed_at_half(from: i64, to: i64)
    requires
        6 * SECONDS_PER_DAY <= to - from < 10 * SECONDS_PER_DAY,
    ensures
        ({
            let lifetime = to - from;
            let passed = lifetime - lead_time(Some(from), Some(to));
            2 * passed >= lifetime && 2 * (passed - 1) < lifetime
        }),
{
}

// ---- upload ----

/// The PEM text of a certificate in DER.
pub uninterp spec fn certificate_pem_text(der: Seq<u8>) -> Seq<u8>;

/// The PEM text of a private key in DER, as PKCS#8 has them both.
pub uninterp spec fn key_pem_text(der: Seq<u8>) -> Seq<u8>;

/// `X509::stack_from_pem` reads certificates from PEM. They are handed out in DER, in
/// their order, by `X509Ref::to_der`; that this fails is an error of its own. It panics
/// on more bytes than a signed number of 32 bits can count. Which it can read depends on
/// the OpenSSL library, and on who types in a pass phrase if there is one; nothing is
/// claimed of them.
#[verifier::external_body]
fn stack_from_pem(pem: &[u8]) -> (r: Result<Result<Vec<Vec<u8>>, ErrorStack>, ErrorStack>)
    requires
        pem@.len() <= i32::MAX,
{
    let chain = X509::stack_from_pem(pem)?;
    Ok(chain.iter().map(|cert| cert.to_der()).collect())
}

/// `X509Ref::to_pem` writes a certificate as PEM, here one that `X509::from_der` reads.
/// What it writes depends on the certificate alone. Whether it can depends on the
/// OpenSSL library.
#[verifier::external_body]
fn certificate_to_pem(der: &[u8]) -> (r: Result<Vec<u8>, ErrorStack>)
    ensures
        r is Ok ==> r->Ok_0@ == certificate_pem_text(der@),
{
    X509::from_der(der)?.to_pem()
}

/// `PKey::private_key_from_pem` reads a private key from PEM. It is handed out in DER by
/// `PKeyRef::private_key_to_pkcs8`; that this fails is an error of its own. It panics on
/// more bytes than a signed number of 32 bits can count. Which it can read depends on the
/// OpenSSL library, and on who types in a pass phrase if the key has one; nothing is
/// claimed of it.
#[verifier::external_body]
fn private_key_from_pem(pem: &[u8]) -> (r: Result<Result<Vec<u8>, ErrorStack>, ErrorStack>)
    requires
        pem@.len() <= i32::MAX,
{
    Ok(PKey::private_key_from_pem(pem)?.private_key_to_pkcs8())
}

/// `PKeyRef::private_key_to_pem_pkcs8` writes a private key as PEM, here one that
/// `PKey::private_key_from_pkcs8` reads. What it writes depends on the key alone, since
/// it is not encrypted. Whether it can depends on the OpenSSL library.
#[verifier::external_body]
fn private_key_to_pem(der: &[u8]) -> (r: Result<Vec<u8>, ErrorStack>)
    ensures
        r is Ok ==> r->Ok_0@ == key_pem_text(der@),
{
    PKey::private_key_from_pkcs8(der)?.private_key_to_pem_pkcs8()
}

/// Why a certificate is not taken over.
pub enum UploadError {
    /// The certificates cannot be read.
    Chain(ErrorStack),
    /// The private key cannot be read.
    Key(ErrorStack),
    /// The certificates cannot be written.
    Format(ErrorStack),
    /// The private key cannot be written.
    KeyFormat(ErrorStack),
}

impl UploadError {
    /// What the message starts with; the rest comes from OpenSSL.
    pub open spec fn lead(self) -> Seq<char> {
        match self {
            UploadError::Chain(_) => "failed to decode certificate chain: "@,
            UploadError::Key(_) => "failed to parse private key: "@,
            UploadError::Format(_) => "error formatting certificate chain as PEM: "@,
            UploadError::KeyFormat(_) => ""@,
        }
    }

    /// What the message starts with; the rest comes from OpenSSL.
    pub fn message_start(&self) -> (r: &'static str)
        ensures
            r@ == self.lead(),
    {
        match self {
            UploadError::Chain(_) => "failed to decode certificate chain: ",
            UploadError::Key(_) => "failed to parse private key: ",
            UploadError::Format(_) => "error formatting certificate chain as PEM: ",
            UploadError::KeyFormat(_) => "",
        }
    }
}

/// Certificates one after the other, with an empty line in between.
pub open spec fn chain_bytes(pems: Seq<Seq<u8>>) -> Seq<u8>
    decreases pems.len(),
{
    if pems.len() == 0 {
        seq![]
    } else {
        let before = chain_bytes(pems.drop_last());
        if before.len() == 0 {
            pems.last()
        } else {
            before.push(0x0au8) + pems.last()
        }
    }
}

/// Adds a certificate to others.
pub fn push_certificate(chain: &mut Vec<u8>, pem: &Vec<u8>)
    ensures
        final(chain)@ == (if old(chain)@.len() == 0 {
            pem@
        } else {
            old(chain)@.push(0x0au8) + pem@
        }),
{
    if chain.len() > 0 {
        chain.push(0x0au8);
    }
    let ghost before = chain@;
    let mut copy: Vec<u8> = pem.clone();
    chain.append(&mut copy);
    assert(chain@ =~= before + pem@);
}

/// Whether OpenSSL can be asked to read a text.
pub open spec fn can_be_read(text: Seq<char>) -> bool {
    encode_utf8(text).len() <= i32::MAX
}

/// All certificates that OpenSSL read, in order, or its error. The second error is that
/// they could not be written again.
pub fn chain_result(read: Result<Result<Vec<Vec<u8>>, ErrorStack>, ErrorStack>) -> (r: Result<
    Vec<Vec<u8>>,
    UploadError,
>)
    ensures
        r == (match read {
            Ok(Ok(chain)) => Ok::<Vec<Vec<u8>>, UploadError>(chain),
            Ok(Err(err)) => Err(UploadError::Format(err)),
            Err(err) => Err(UploadError::Chain(err)),
        }),
{
    match read {
        Ok(Ok(chain)) => Ok(chain),
        Ok(Err(err)) => Err(UploadError::Format(err)),
        Err(err) => Err(UploadError::Chain(err)),
    }
}

/// Reads the certificates that are to be taken over, each into DER. Whatever OpenSSL
/// makes of the text is answered as [`chain_result`] says.
pub fn decode_chain(certificates: &str) -> (r: Result<Vec<Vec<u8>>, UploadError>)
    requires
        can_be_read(certificates@),
    ensures
        r is Err ==> r->Err_0 is Chain || r->Err_0 is Format,
{
    chain_result(stack_from_pem(certificates.as_bytes()))
}

/// The private key that OpenSSL read, or its error. The second error is that it could
/// not be written again.
pub fn key_result(read: Result<Result<Vec<u8>, ErrorStack>, ErrorStack>) -> (r: Result<
    Vec<u8>,
    UploadError,
>)
    ensures
        r == (match read {
            Ok(Ok(key)) => Ok::<Vec<u8>, UploadError>(key),
            Ok(Err(err)) => Err(UploadError::KeyFormat(err)),
            Err(err) => Err(UploadError::Key(err)),
        }),
{
    match read {
        Ok(Ok(key)) => Ok(key),
        Ok(Err(err)) => Err(UploadError::KeyFormat(err)),
        Err(err) => Err(UploadError::Key(err)),
    }
}

/// Reads the private key that belongs to the certificates into DER. Whatever OpenSSL
/// makes of the text is answered as [`key_result`] says.
pub fn decode_key(key: &str) -> (r: Result<Vec<u8>, UploadError>)
    requires
        can_be_read(key@),
    ensures
        r is Err ==> r->Err_0 is Key || r->Err_0 is KeyFormat,
{
    key_result(private_key_from_pem(key.as_bytes()))
}

/// The texts as sequences of bytes.
pub open spec fn all_bytes(pems: Seq<Vec<u8>>) -> Seq<Seq<u8>> {
    Seq::new(pems.len(), |i: int| pems[i]@)
}

/// What is stored of the texts that OpenSSL wrote: the certificates in one file, in
/// their order, and the key as it is in another.
pub fn upload_files(pems: &Vec<Vec<u8>>, key: Vec<u8>) -> (r: (Vec<u8>, Vec<u8>))
    ensures
        r.0@ == chain_bytes(all_bytes(pems@)),
        r.1@ == key@,
{
    let mut certificates: Vec<u8> = Vec::new();
    assert(all_bytes(pems@).take(0) =~= seq![]);
    for i in 0..pems.len()
        invariant
            certificates@ == chain_bytes(all_bytes(pems@).take(i as int)),
    {
        let ghost next = all_bytes(pems@).take(i + 1);
        push_certificate(&mut certificates, &pems[i]);
        assert(next.drop_last() =~= all_bytes(pems@).take(i as int));
        assert(next.last() == pems@[i as int]@);
    }
    assert(all_bytes(pems@).take(pems@.len() as int) =~= all_bytes(pems@));
    (certificates, key)
}

/// The PEM texts of certificates in DER, in their order.
pub open spec fn certificate_pems(chain: Seq<Vec<u8>>) -> Seq<Seq<u8>> {
    Seq::new(chain.len(), |i: int| certificate_pem_text(chain[i]@))
}

/// The files that certificates and a key, each in DER, are stored in: the PEM text of
/// each certificate in order, and that of the key. It fails only if OpenSSL cannot
/// write one of them.
pub fn encode_upload(chain: &Vec<Vec<u8>>, key: &Vec<u8>) -> (r: Result<
    (Vec<u8>, Vec<u8>),
    UploadError,
>)
    ensures
        match r {
            Ok((certificates, key_file)) => certificates@ == chain_bytes(certificate_pems(chain@))
                && key_file@ == key_pem_text(key@),
            Err(err) => err is KeyFormat || (err is Format && chain@.len() > 0),
        },
{
    let mut pems: Vec<Vec<u8>> = Vec::new();
    for i in 0..chain.len()
        invariant
            all_bytes(pems@) == certificate_pems(chain@).take(i as int),
    {
        match certificate_to_pem(chain[i].as_slice()) {
            Ok(pem) => {
                let ghost before = pems@;
                pems.push(pem);
                assert(all_bytes(pems@) =~= all_bytes(before).push(pem@));
                assert(certificate_pems(chain@).take(i + 1) =~= certificate_pems(chain@).take(
                    i as int,
                ).push(pem@));
            },
            Err(err) => {
                return Err(UploadError::Format(err));
            },
        }
    }
    assert(certificate_pems(chain@).take(chain@.len() as int) =~= certificate_pems(chain@));
    match private_key_to_pem(key.as_slice()) {
        Ok(pem) => Ok(upload_files(&pems, pem)),
        Err(err) => Err(UploadError::KeyFormat(err)),
    }
}

// ---- deletion ----

/// How far the certificate has been deleted.
#[derive(Clone, Copy, Debug, PartialEq, Eq, Structural)]
pub enum CertDeleteState {
    Start,
    RemovingCertificate,
    RemovingKey,
    MakingSelfSigned,
    Reloading,
    Complete,
    Failed,
}

/// What the environment has to do next.
#[derive(Clone, Copy, Debug, PartialEq, Eq, Structural)]
pub enum CertDeleteAction {
    RemoveCertificate,
    RemoveKey,
    /// Make a self-signed certificate.
    MakeSelfSigned,
    /// Have the server use the new certificate.
    Reload,
    /// Done.
    Complete,
    /// Give up with the error of the step that failed.
    Abort,
}

/// The next state and action, after the last action succeeded or not. A key that
/// cannot be removed is no reason to go without a certificate.
pub open spec fn cert_delete_next(state: CertDeleteState, ok: bool) -> (
    CertDeleteState,
    CertDeleteAction,
) {
    match state {
        CertDeleteState::Start => (
            CertDeleteState::RemovingCertificate,
            CertDeleteAction::RemoveCertificate,
        ),
        CertDeleteState::RemovingCertificate => if ok {
            (CertDeleteState::RemovingKey, CertDeleteAction::RemoveKey)
        } else {
            (CertDeleteState::Failed, CertDeleteAction::Abort)
        },
        CertDeleteState::RemovingKey => (
            CertDeleteState::MakingSelfSigned,
            CertDeleteAction::MakeSelfSigned,
        ),
        CertDeleteState::MakingSelfSigned => if ok {
            (CertDeleteState::Reloading, CertDeleteAction::Reload)
        } else {
            (CertDeleteState::Failed, CertDeleteAction::Abort)
        },
        CertDeleteState::Reloading => if ok {
            (CertDeleteState::Complete, CertDeleteAction::Complete)
        } else {
            (CertDeleteState::Failed, CertDeleteAction::Abort)
        },
        CertDeleteState::Complete | CertDeleteState::Failed => (
            CertDeleteState::Failed,
            CertDeleteAction::Abort,
        ),
    }
}

/// Moves the deletion of the certificate on and says what to do next.
pub fn delete_custom_certificate(state: CertDeleteState, ok: bool) -> (r: (
    CertDeleteState,
    CertDeleteAction,
))
    ensures
        r == cert_delete_next(state, ok),
{
    match state {
        CertDeleteState::Start => (
            CertDeleteState::RemovingCertificate,
            CertDeleteAction::RemoveCertificate,
        ),
        CertDeleteState::RemovingCertificate => {
            if ok {
                (CertDeleteState::RemovingKey, CertDeleteAction::RemoveKey)
            } else {
                (CertDeleteState::Failed, CertDeleteAction::Abort)
            }
        },
        CertDeleteState::RemovingKey => (
            CertDeleteState::MakingSelfSigned,
            CertDeleteAction::MakeSelfSigned,
        ),
        CertDeleteState::MakingSelfSigned => {
            if ok {
                (CertDeleteState::Reloading, CertDeleteAction::Reload)
            } else {
                (CertDeleteState::Failed, CertDeleteAction::Abort)
            }
        },
        CertDeleteState::Reloading => {
            if ok {
                (CertDeleteState::Complete, CertDeleteAction::Complete)
            } else {
                (CertDeleteState::Failed, CertDeleteAction::Abort)
            }
        },
        CertDeleteState::Complete | CertDeleteState::Failed => (
            CertDeleteState::Failed,
            CertDeleteAction::Abort,
        ),
    }
}

/// Message if the certificate cannot be removed.
pub fn unlink_error(err: &str) -> (r: String)
    ensures
        r@ == "failed to unlink \"/etc/proxmox-backup/proxy.pem\" - "@ + err@,
{
    join2("failed to unlink \"/etc/proxmox-backup/proxy.pem\" - ", err)
}

/// Log line if the private key cannot be removed.
pub fn key_removal_line(err: &str) -> (r: String)
    ensures
        r@
            == "failed to remove certificate private key \"/etc/proxmox-backup/proxy.key\" - "@
            + err@,
{
    join2("failed to remove certificate private key \"/etc/proxmox-backup/proxy.key\" - ", err)
}

/// Once the certificate is gone a self-signed one is made, whether or not the key
/// could be removed.
pub proof fn deletion_makes_a_new_certificate(ok: bool)
    ensures
        cert_delete_next(CertDeleteState::RemovingCertificate, true).0
            == CertDeleteState::RemovingKey,
        cert_delete_next(CertDeleteState::RemovingKey, ok).1 == CertDeleteAction::MakeSelfSigned,
{
}

/// A certificate that is deleted is removed first, then its key, which need not work; then a
/// self-signed one is made and the server told. Whatever else fails ends it.
pub proof fn certificate_is_replaced_in_order(key_removed: bool, ok: bool)
    ensures
        ({
            let (removing, first) = cert_delete_next(CertDeleteState::Start, ok);
            let (removed, second) = cert_delete_next(removing, true);
            let (making, third) = cert_delete_next(removed, key_removed);
            let (made, fourth) = cert_delete_next(making, true);
            let fifth = cert_delete_next(made, true).1;
            &&& first == CertDeleteAction::RemoveCertificate
            &&& second == CertDeleteAction::RemoveKey
            &&& third == CertDeleteAction::MakeSelfSigned
            &&& fourth == CertDeleteAction::Reload
            &&& fifth == CertDeleteAction::Complete
            &&& cert_delete_next(removing, false).1 == CertDeleteAction::Abort
            &&& cert_delete_next(making, false).1 == CertDeleteAction::Abort
            &&& cert_delete_next(made, false).1 == CertDeleteAction::Abort
        }),
{
}

// ---- ordering ----

/// How far a certificate has been ordered.
#[derive(Clone, Copy, Debug, PartialEq, Eq, Structural)]
pub enum OrderState {
    Start,
    Requesting,
    Installing,
    Reloading,
    /// The result is being mailed; tells whether the order succeeded.
    Mailing(bool),
    Ended,
}

/// What the environment reports of the last action.
#[derive(Clone, Copy, Debug, PartialEq, Eq, Structural)]
pub enum OrderEvent {
    /// The action was done.
    Finished,
    /// Whether the order brought a certificate.
    Ordered(bool),
    /// The action failed.
    Failed,
}

/// What the environment has to do next.
#[derive(Clone, Copy, Debug, PartialEq, Eq, Structural)]
pub enum OrderAction {
    /// Order a certificate.
    Order,
    /// Put the new certificate in place.
    Install,
    /// Have the server use it.
    Reload,
    /// Send a mail that the order succeeded or failed.
    SendMail(bool),
    /// Done.
    Complete,
    /// Fail with the error of the order.
    FailOrder,
    /// Fail with the error of the mail.
    FailMail,
}

/// The next state and action.
pub open spec fn order_next(state: OrderState, event: OrderEvent) -> (OrderState, OrderAction) {
    match (state, event) {
        (OrderState::Start, _) => (OrderState::Requesting, OrderAction::Order),
        (OrderState::Requesting, OrderEvent::Ordered(true)) => (
            OrderState::Installing,
            OrderAction::Install,
        ),
        (OrderState::Requesting, OrderEvent::Ordered(false)) => (
            OrderState::Mailing(true),
            OrderAction::SendMail(true),
        ),
        (OrderState::Installing, OrderEvent::Finished) => (
            OrderState::Reloading,
            OrderAction::Reload,
        ),
        (OrderState::Reloading, OrderEvent::Finished) => (
            OrderState::Mailing(true),
            OrderAction::SendMail(true),
        ),
        (OrderState::Mailing(true), OrderEvent::Finished) => (
            OrderState::Ended,
            OrderAction::Complete,
        ),
        (OrderState::Mailing(false), OrderEvent::Finished) => (
            OrderState::Ended,
            OrderAction::FailOrder,
        ),
        (OrderState::Mailing(_), _) => (OrderState::Ended, OrderAction::FailMail),
        (OrderState::Ended, _) => (OrderState::Ended, OrderAction::FailOrder),
        _ => (OrderState::Mailing(false), OrderAction::SendMail(false)),
    }
}

/// Moves an order on and says what to do next.
pub fn step_order(state: OrderState, event: OrderEvent) -> (r: (OrderState, OrderAction))
    ensures
        r == order_next(state, event),
{
    match (state, event) {
        (OrderState::Start, _) => (OrderState::Requesting, OrderAction::Order),
        (OrderState::Requesting, OrderEvent::Ordered(true)) => (
            OrderState::Installing,
            OrderAction::Install,
        ),
        (OrderState::Requesting, OrderEvent::Ordered(false)) => (
            OrderState::Mailing(true),
            OrderAction::SendMail(true),
        ),
        (OrderState::Installing, OrderEvent::Finished) => (
            OrderState::Reloading,
            OrderAction::Reload,
        ),
        (OrderState::Reloading, OrderEvent::Finished) => (
            OrderState::Mailing(true),
            OrderAction::SendMail(true),
        ),
        (OrderState::Mailing(true), OrderEvent::Finished) => (
            OrderState::Ended,
            OrderAction::Complete,
        ),
        (OrderState::Mailing(false), OrderEvent::Finished) => (
            OrderState::Ended,
            OrderAction::FailOrder,
        ),
        (OrderState::Mailing(_), _) => (OrderState::Ended, OrderAction::FailMail),
        (OrderState::Ended, _) => (OrderState::Ended, OrderAction::FailOrder),
        _ => (OrderState::Mailing(false), OrderAction::SendMail(false)),
    }
}

/// An order ends only after a mail on its result was sent or could not be sent.
pub proof fn every_order_is_mailed(state: OrderState, event: OrderEvent)
    requires
        order_next(state, event).0 == OrderState::Ended,
        state != OrderState::Ended,
    ensures
        state is Mailing,
{
}

/// A certificate that was ordered is installed and used, and a mail tells of it. An order
/// that needs none only mails. Whatever fails on the way, the mail tells that, and the order
/// fails; one whose mail cannot be sent fails with that.
pub proof fn order_is_installed_and_mailed(event: OrderEvent)
    ensures
        ({
            let done = OrderEvent::Finished;
            let failed = OrderEvent::Failed;
            let (ordering, first) = order_next(OrderState::Start, event);
            let (installing, second) = order_next(ordering, OrderEvent::Ordered(true));
            let (reloading, third) = order_next(installing, done);
            let (mailing, fourth) = order_next(reloading, done);
            let (idle, idle_mail) = order_next(ordering, OrderEvent::Ordered(false));
            let (lost, lost_mail) = order_next(ordering, failed);
            &&& first == OrderAction::Order
            &&& second == OrderAction::Install
            &&& third == OrderAction::Reload
            &&& fourth == OrderAction::SendMail(true)
            &&& order_next(mailing, done).1 == OrderAction::Complete
            &&& order_next(mailing, failed).1 == OrderAction::FailMail
            &&& idle_mail == OrderAction::SendMail(true)
            &&& order_next(idle, done).1 == OrderAction::Complete
            &&& lost_mail == OrderAction::SendMail(false)
            &&& order_next(installing, failed).1 == OrderAction::SendMail(false)
            &&& order_next(reloading, failed).1 == OrderAction::SendMail(false)
            &&& order_next(lost, done).1 == OrderAction::FailOrder
            &&& order_next(order_next(installing, failed).0, done).1 == OrderAction::FailOrder
            &&& order_next(order_next(reloading, failed).0, done).1 == OrderAction::FailOrder
            &&& order_next(lost, failed).1 == OrderAction::FailMail
        }),
{
}

/// Log line before a certificate is revoked.
pub const REVOKE_LINE: &'static str = "Revoking old certificate";

/// Log line before a revoked certificate is deleted.
pub const REVOKED_LINE: &'static str = "Deleting certificate and regenerating a self-signed one";

/// A certificate whose lifetime is not known is renewed thirty days before it ends, and one
/// that lives for less than six days three days before.
pub proof fn other_certificates_are_renewed_in_time(from: i64, to: i64)
    ensures
        lead_time(None, Some(to)) == 30 * 86400,
        lead_time(Some(from), None) == 30 * 86400,
        lead_time(None, None) == 30 * 86400,
        to - from < 6 * 86400 ==> lead_time(Some(from), Some(to)) == 3 * 86400,
{
}

/// The names of a certificate are those that could be read, and no others.
pub proof fn only_readable_names_are_collected(names: Seq<Option<String>>, name: Seq<char>)
    ensures
        dns_names(names).contains(name) <==> exists|i: int|
            0 <= i < names.len() && (#[trigger] names[i]) is Some && names[i]->0@ == name,
        dns_names(names).len() <= names.len(),
    decreases names.len(),
{
    if names.len() > 0 {
        let init = names.drop_last();
        only_readable_names_are_collected(init, name);
        let before = dns_names(init);
        let after = dns_names(names);
        assert(names[names.len() - 1] == names.last());
        if after.contains(name) {
            let k = after.index_of(name);
            if k < before.len() {
                assert(before[k] == name);
                assert(before.contains(name));
                let i = choose|i: int|
                    0 <= i < init.len() && (#[trigger] init[i]) is Some && init[i]->0@ == name;
                assert(names[i] == init[i]);
            }
        }
        if exists|i: int|
            0 <= i < names.len() && (#[trigger] names[i]) is Some && names[i]->0@ == name {
            let i = choose|i: int|
                0 <= i < names.len() && (#[trigger] names[i]) is Some && names[i]->0@ == name;
            if i < init.len() {
                assert(init[i] == names[i]);
                assert(before.contains(name));
                let k = before.index_of(name);
                assert(after[k] == name);
            } else {
                assert(after[after.len() - 1] == name);
            }
        }
    }
}

/// A chain holds its certificates in order, with a line break before each but the first.
pub proof fn chain_is_in_order(pems: Seq<Seq<u8>>, next: Seq<u8>)
    requires
        forall|i: int| 0 <= i < pems.len() ==> (#[trigger] pems[i]).len() > 0,
    ensures
        chain_bytes(seq![next]) == next,
        pems.len() > 0 ==> chain_bytes(pems).len() > 0 && chain_bytes(pems.push(next))
            == chain_bytes(pems) + seq![0x0au8] + next,
    decreases pems.len(),
{
    assert(seq![next].drop_last() =~= Seq::<Seq<u8>>::empty());
    assert(seq![next].last() == next);
    assert(chain_bytes(Seq::empty()).len() == 0);
    if pems.len() > 0 {
        let init = pems.drop_last();
        assert(pems[pems.len() - 1] == pems.last());
        assert forall|i: int| 0 <= i < init.len() implies (#[trigger] init[i]).len() > 0 by {
            assert(init[i] == pems[i]);
        }
        chain_is_in_order(init, next);
        assert(pems.push(next).drop_last() =~= pems);
        assert(chain_bytes(pems).push(0x0au8) + next =~= chain_bytes(pems) + seq![0x0au8] + next);
    }
}

} // verus!
