//! Requests to the server.

use proxmox_backup::api::acme::{order_domains, AcmeDomain};
use proxmox_backup::api::certificates::{
    cert_renew_lead_time, certificate_error, certificate_info, certificate_pem, chain_result,
    decode_chain, decode_key, delete_custom_certificate, encode_upload, expiration_error, get_info,
    key_removal_line, key_result, push_certificate, renew_acme_cert, renewal_limit, step_order,
    unlink_error, upload_files, CertDeleteAction, CertDeleteState, CertificateFacts, OrderAction,
    OrderEvent, OrderState, UploadError,
};
use proxmox_backup::api::encryption_keys::{
    archive_key, check_encryption_key_in_use, check_provided_key, list_keys, may_archive,
    ArchiveError, ProvidedKeyError, SyncJobKeys,
};
use proxmox_backup::api::journal::{reader_end_line, ReaderEnd};
use proxmox_backup::api::namespace::{
    create_namespace, delete_namespace, list_namespaces, move_worker_id, DeleteAnswer,
    DeleteOutcome, ListError, OLD_LOCKING_MESSAGE,
};
use proxmox_backup::api::s3::{
    check_counters_file, counters_path, request_counter_id, CheckStep,
};
use proxmox_backup::config::encryption_keys::{add_key, CryptKey, KeyList};
use proxmox_backup::namespace::BackupNamespace;

fn ns(path: &str) -> BackupNamespace {
    let components = path.split('/').filter(|c| !c.is_empty()).map(|c| c.to_string()).collect();
    BackupNamespace { components }
}

// ---- domains ----

#[test]
fn domains_are_lowered() {
    let domain = |name: &str| AcmeDomain {
        domain: name.to_string(),
        alias: Some("Alias.Example".to_string()),
        plugin: Some("Plugin".to_string()),
    };
    let list = order_domains(vec![Ok(domain("A.Example")), Ok(domain("b.example"))]).ok().unwrap();
    assert_eq!(list[0].domain, "a.example");
    assert_eq!(list[0].alias, Some("alias.example".to_string()));
    assert_eq!(list[0].plugin, Some("Plugin".to_string()));
    assert_eq!(list[1].domain, "b.example");
    let err = order_domains(vec![
        Ok(domain("a")),
        Err("first".to_string()),
        Err("second".to_string()),
    ]);
    assert_eq!(err.err(), Some("first".to_string()));
}

// ---- certificates ----

fn facts() -> CertificateFacts {
    CertificateFacts {
        pem: "pem".to_string(),
        subject: "CN = a".to_string(),
        alt_names: Some(vec![Some("a.example".to_string()), None, Some("b.example".to_string())]),
        issuer: "CN = ca".to_string(),
        notbefore: Some(1),
        notafter: None,
        key_bits: 4096,
        fingerprint: "aa:bb".to_string(),
    }
}

#[test]
fn certificates_are_described() {
    let info = certificate_info(facts(), None);
    assert_eq!(info.filename, "proxy.pem");
    assert_eq!(info.san, vec!["a.example", "b.example"]);
    assert_eq!(info.public_key_type, "<unsupported key type>");
    assert_eq!(info.public_key_bits, Some(4096));
    let list = get_info(facts(), openssl::nid::Nid::RSAENCRYPTION.as_raw());
    assert_eq!(list.len(), 1);
    assert_eq!(list[0].public_key_type, "rsaEncryption");
    assert_eq!(list[0].subject, "CN = a");
    assert_eq!(certificate_pem("text".as_bytes().to_vec()).unwrap(), "text");
    assert_eq!(
        certificate_pem(vec![0xff, 0xfe]).unwrap_err(),
        "certificate in \"/etc/proxmox-backup/proxy.pem\" is not a valid PEM file"
    );
    assert_eq!(certificate_error("e"), "error loading proxy certificate: e");
}

#[test]
fn lead_time_follows_lifetime() {
    let day = 86400;
    let lead = |days: i64| cert_renew_lead_time(Some(0), Some(days * day));
    assert_eq!(lead(90), (30 * day, false));
    assert_eq!(lead(10), (3 * day + day / 3, false));
    assert_eq!(lead(9), (4 * day + day / 2, false));
    assert_eq!(lead(6), (3 * day, false));
    assert_eq!(lead(5), (3 * day, false));
    assert_eq!(lead(1), (3 * day, false));
    assert_eq!(cert_renew_lead_time(None, Some(5)), (30 * day, true));
    assert_eq!(renewal_limit(Some(0), Some(90 * day), 7), (7 + 30 * day, 30));
}

#[test]
fn renewal_waits_for_expiration() {
    assert_eq!(renew_acme_cert(true, 30, false), Ok(()));
    assert_eq!(renew_acme_cert(false, 30, true), Ok(()));
    assert_eq!(
        renew_acme_cert(false, 30, false).unwrap_err(),
        "Certificate does not expire within the next 30 days and 'force' is not set."
    );
    assert_eq!(expiration_error("e"), "Failed to check certificate expiration date: e");
}

#[test]
fn uploads_are_read_and_written() {
    let mut chain = Vec::new();
    push_certificate(&mut chain, &vec![1, 2]);
    push_certificate(&mut chain, &vec![3]);
    assert_eq!(chain, vec![1, 2, 10, 3]);
    // a key and a certificate that it signs itself
    let rsa = openssl::rsa::Rsa::generate(2048).unwrap();
    let key = openssl::pkey::PKey::from_rsa(rsa).unwrap();
    let signed = |common_name: &str| {
        let mut name = openssl::x509::X509NameBuilder::new().unwrap();
        name.append_entry_by_text("CN", common_name).unwrap();
        let name = name.build();
        let mut builder = openssl::x509::X509::builder().unwrap();
        builder.set_subject_name(&name).unwrap();
        builder.set_issuer_name(&name).unwrap();
        builder.set_pubkey(&key).unwrap();
        let from = openssl::asn1::Asn1Time::from_unix(0).unwrap();
        let to = openssl::asn1::Asn1Time::from_unix(86400).unwrap();
        builder.set_not_before(&from).unwrap();
        builder.set_not_after(&to).unwrap();
        builder.sign(&key, openssl::hash::MessageDigest::sha256()).unwrap();
        builder.build()
    };
    let (first, second) = (signed("a.example"), signed("b.example"));
    let pem_of = |cert: &openssl::x509::X509| String::from_utf8(cert.to_pem().unwrap()).unwrap();
    let pems = vec![pem_of(&first), pem_of(&second)];
    assert_ne!(pems[0], pems[1]);
    let key_pem = String::from_utf8(key.private_key_to_pem_pkcs8().unwrap()).unwrap();
    let chain = decode_chain(&pems.concat()).ok().unwrap();
    assert_eq!(chain.len(), 2);
    let chain = chain_result(Ok(Ok(chain))).ok().unwrap();
    assert_eq!(chain.len(), 2);
    assert_eq!(chain[0], first.to_der().unwrap());
    assert_eq!(chain[1], second.to_der().unwrap());
    let failure = || openssl::x509::X509::from_pem("".as_bytes()).err().unwrap();
    assert!(matches!(chain_result(Err(failure())), Err(UploadError::Chain(_))));
    assert!(matches!(chain_result(Ok(Err(failure()))), Err(UploadError::Format(_))));
    assert!(matches!(key_result(Err(failure())), Err(UploadError::Key(_))));
    assert!(matches!(key_result(Ok(Err(failure()))), Err(UploadError::KeyFormat(_))));
    assert_eq!(key_result(Ok(Ok(vec![1]))).ok(), Some(vec![1]));
    let texts = vec![b"A".to_vec(), b"B".to_vec(), b"C".to_vec()];
    assert_eq!(upload_files(&texts, b"K".to_vec()), (b"A\nB\nC".to_vec(), b"K".to_vec()));
    assert_eq!(upload_files(&vec![], b"K".to_vec()), (vec![], b"K".to_vec()));
    let key_der = decode_key(&key_pem).ok().unwrap();
    assert_eq!(key_der, key.private_key_to_pkcs8().unwrap());
    let (certificates, stored_key) = encode_upload(&chain, &key_der).ok().unwrap();
    assert_eq!(String::from_utf8(certificates).unwrap(), format!("{}\n{}", pems[0], pems[1]));
    assert_eq!(String::from_utf8(stored_key).unwrap(), key_pem);
    let none: Vec<Vec<u8>> = vec![];
    assert_eq!(encode_upload(&none, &key_der).ok().unwrap().0, b"");
    let no_certificate = vec![vec![1, 2, 3]];
    assert!(matches!(encode_upload(&no_certificate, &key_der), Err(UploadError::Format(_))));
    assert!(matches!(encode_upload(&chain, &vec![1, 2]), Err(UploadError::KeyFormat(_))));
    // a key in an older form is stored in the common one
    let rsa_pem = key.rsa().unwrap().private_key_to_pem().unwrap();
    let from_rsa = decode_key(std::str::from_utf8(&rsa_pem).unwrap()).ok().unwrap();
    assert_eq!(from_rsa, key_der);
    match decode_key("no key") {
        Err(err) => {
            assert!(matches!(err, UploadError::Key(_)));
            assert_eq!(err.message_start(), "failed to parse private key: ");
        }
        Ok(_) => panic!("read a key"),
    }
    let broken = "-----BEGIN CERTIFICATE-----\nAAAA\n-----END CERTIFICATE-----\n";
    match decode_chain(broken) {
        Err(err) => assert_eq!(err.message_start(), "failed to decode certificate chain: "),
        Ok(_) => panic!("read a certificate"),
    }
}

#[test]
fn deleted_certificate_is_replaced() {
    let (state, action) = delete_custom_certificate(CertDeleteState::Start, true);
    assert_eq!(action, CertDeleteAction::RemoveCertificate);
    assert_eq!(delete_custom_certificate(state, false).1, CertDeleteAction::Abort);
    let (state, action) = delete_custom_certificate(state, true);
    assert_eq!(action, CertDeleteAction::RemoveKey);
    let (state, action) = delete_custom_certificate(state, false);
    assert_eq!(action, CertDeleteAction::MakeSelfSigned);
    let (state, action) = delete_custom_certificate(state, true);
    assert_eq!(action, CertDeleteAction::Reload);
    assert_eq!(delete_custom_certificate(state, true).1, CertDeleteAction::Complete);
    assert_eq!(
        unlink_error("e"),
        "failed to unlink \"/etc/proxmox-backup/proxy.pem\" - e"
    );
    assert_eq!(
        key_removal_line("e"),
        "failed to remove certificate private key \"/etc/proxmox-backup/proxy.key\" - e"
    );
}

#[test]
fn orders_are_mailed() {
    let (state, action) = step_order(OrderState::Start, OrderEvent::Finished);
    assert_eq!(action, OrderAction::Order);
    let (failed, action) = step_order(state, OrderEvent::Failed);
    assert_eq!(action, OrderAction::SendMail(false));
    assert_eq!(step_order(failed, OrderEvent::Finished).1, OrderAction::FailOrder);
    let (installing, action) = step_order(state, OrderEvent::Ordered(true));
    assert_eq!(action, OrderAction::Install);
    let (state, action) = step_order(installing, OrderEvent::Finished);
    assert_eq!(action, OrderAction::Reload);
    let (state, action) = step_order(state, OrderEvent::Finished);
    assert_eq!(action, OrderAction::SendMail(true));
    assert_eq!(step_order(state, OrderEvent::Finished).1, OrderAction::Complete);
}

// ---- keys ----

fn key(id: &str, archived_at: Option<i64>) -> CryptKey {
    CryptKey { id: id.to_string(), path: None, fingerprint: None, archived_at }
}

fn job(id: &str, active: Option<&str>, associated: Option<&[&str]>) -> SyncJobKeys {
    SyncJobKeys {
        id: id.to_string(),
        active_encryption_key: active.map(|k| k.to_string()),
        associated_key: associated.map(|l| l.iter().map(|k| k.to_string()).collect()),
    }
}

#[test]
fn keys_are_listed_with_privileges() {
    let keys = || vec![(key("a", None), 2), (key("b", Some(1)), 2), (key("c", None), 1)];
    let ids = |list: Vec<CryptKey>| list.into_iter().map(|k| k.id).collect::<Vec<_>>();
    assert_eq!(ids(list_keys(keys(), false, 2)), vec!["a"]);
    assert_eq!(ids(list_keys(keys(), true, 2)), vec!["a", "b"]);
    assert_eq!(ids(list_keys(keys(), true, 3)), vec!["a", "b", "c"]);
}

#[test]
fn protected_keys_are_refused() {
    assert!(check_provided_key(Ok(false)).is_ok());
    let err = check_provided_key(Ok(true)).err().unwrap();
    assert_eq!(err.message(), "protected keys not supported");
    let err = check_provided_key(Err("eof".to_string())).err().unwrap();
    assert_eq!(err.message(), "failed to parse provided key: eof");
    assert_eq!(
        ProvidedKeyError::Unusable("x".to_string()).message(),
        "failed to load provided key: x"
    );
}

#[test]
fn keys_in_use_are_told() {
    let jobs = vec![
        job("j1", Some("a"), None),
        job("j2", None, Some(&["b", "a"])),
        job("j3", Some("c"), Some(&["b"])),
    ];
    assert_eq!(
        check_encryption_key_in_use(&jobs, "a", false).unwrap_err(),
        "encryption key in use by sync job: 'j1'"
    );
    assert_eq!(
        check_encryption_key_in_use(&jobs, "a", true).unwrap_err(),
        "encryption key in use by sync jobs: 'j1, j2'"
    );
    assert!(check_encryption_key_in_use(&jobs, "b", false).is_ok());
    assert!(check_encryption_key_in_use(&jobs, "d", true).is_ok());
}

#[test]
fn unused_keys_are_archived() {
    let mut config = KeyList::new();
    add_key(&mut config, "a", None);
    add_key(&mut config, "b", None);
    let jobs = vec![job("j1", Some("a"), Some(&["b"]))];
    assert!(may_archive(&config, "a").is_ok());
    match archive_key(&mut config, "a", &jobs, 5) {
        Err(err) => {
            assert!(matches!(err, ArchiveError::InUse(_)));
            assert_eq!(err.message("a"), "encryption key in use by sync job: 'j1'");
        }
        Ok(()) => panic!("archived"),
    }
    assert!(archive_key(&mut config, "b", &jobs, 5).is_ok());
    assert_eq!(config.lookup("b").unwrap().archived_at, Some(5));
    let err = archive_key(&mut config, "b", &jobs, 6).err().unwrap();
    assert_eq!(err.message("b"), "key already marked as archived");
    assert!(matches!(may_archive(&config, "c"), Err(ArchiveError::NotConfigured)));
}

// ---- journal ----

#[test]
fn reader_is_waited_for() {
    assert_eq!(reader_end_line(&ReaderEnd::Succeeded), None);
    assert_eq!(
        reader_end_line(&ReaderEnd::Exited("status 1".to_string())).unwrap(),
        "mini-journalreader exited with status 1"
    );
    assert_eq!(
        reader_end_line(&ReaderEnd::Unknown("e".to_string())).unwrap(),
        "waiting for mini-journalreader failed: e"
    );
}

// ---- namespaces ----

#[test]
fn namespaces_are_created_in_their_parent() {
    let created = |parent, name| create_namespace(parent, name, Ok(())).ok().unwrap().to_string();
    assert_eq!(created(None, "a"), "a");
    assert_eq!(created(Some(ns("x/y")), "a"), "x/y/a");
    let refused = create_namespace(Some(ns("x/y")), "a", Err("too deep".to_string()));
    assert_eq!(refused.err().unwrap(), "too deep");
    assert_eq!(move_worker_id("s", &ns("a/b"), &ns("c")), "s:a/b:c");
}

#[test]
fn hidden_namespaces_are_not_disclosed() {
    let found = || Ok(vec![(ns("a"), 1u64), (ns("b"), 2), (ns("c"), 3)]);
    let list = list_namespaces(found(), false, 2).ok().unwrap();
    let names: Vec<String> = list.iter().map(|i| i.ns.to_string()).collect();
    assert_eq!(names, vec!["b", "c"]);
    assert!(list[0].comment.is_none());
    assert!(matches!(list_namespaces(found(), false, 4), Err(ListError::Forbidden)));
    assert!(list_namespaces(found(), true, 4).ok().unwrap().is_empty());
    let missing = || Err("ENOENT".to_string());
    assert!(matches!(list_namespaces(missing(), false, 2), Err(ListError::Forbidden)));
    match list_namespaces(missing(), true, 2) {
        Err(ListError::Unavailable(err)) => assert_eq!(err, "ENOENT"),
        _ => panic!("listed"),
    }
}

#[test]
fn partial_deletion_is_told() {
    let mut outcome =
        DeleteOutcome { removed_all: true, delete_groups: true, old_locking: false };
    assert_eq!(delete_namespace(outcome, true), (DeleteAnswer::Done, ""));
    outcome.removed_all = false;
    assert_eq!(
        delete_namespace(outcome, true),
        (DeleteAnswer::Fail, "group only partially deleted due to protected snapshots")
    );
    outcome.old_locking = true;
    assert_eq!(delete_namespace(outcome, false), (DeleteAnswer::Warn, OLD_LOCKING_MESSAGE));
    outcome.delete_groups = false;
    assert_eq!(
        delete_namespace(outcome, true),
        (
            DeleteAnswer::Fail,
            "only partially deleted due to existing groups but `delete-groups` not true"
        )
    );
}

// ---- s3 ----

#[test]
fn counters_have_names() {
    assert_eq!(request_counter_id("end", "bucket", None), "end-bucket");
    assert_eq!(request_counter_id("end", "bucket", Some("store")), "end-bucket-store");
    assert_eq!(counters_path("/b", "end-bucket"), "/b/end-bucket.shmem");
    assert!(check_counters_file(true, "\"/b\"").is_ok());
    assert_eq!(
        check_counters_file(false, "\"/b\"").unwrap_err(),
        "Cannot find s3 counters file '\"/b\"'"
    );
}

#[test]
fn endpoint_check_cleans_up() {
    let mut steps = vec![CheckStep::Lookup];
    while let Some(step) = steps[steps.len() - 1].next() {
        steps.push(step);
    }
    assert_eq!(
        steps[5..],
        [
            CheckStep::HeadBucket,
            CheckStep::PutObject,
            CheckStep::GetObject,
            CheckStep::DeleteObject,
        ]
    );
    assert_eq!(CheckStep::Lookup.context(), Some("config lookup failed"));
    assert_eq!(CheckStep::FindUser.context(), None);
    assert_eq!(CheckStep::DeleteObject.context(), Some("delete object failed"));
}
