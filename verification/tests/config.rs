//! Keys, tokens, the node and plugins.

use proxmox_backup::auth::Authid;
use proxmox_backup::config::encryption_keys::{
    add_key, check_loaded_key, complete_encryption_key_id, delete_key, key_lock_path, key_path,
    load_key_config, store_key, CryptKey, DeleteAction, DeleteEvent, DeleteState, KeyError, KeyList,
    StoreAction, StoreEvent, StoreState,
};
use proxmox_backup::config::node::{
    check_config, check_domains, check_names, cipher_lists, cipher_result, NodeConfigError,
};
use proxmox_backup::config::plugin::PluginData;
use proxmox_backup::config::token_shadow::{
    verify_secret, ApiTokenSecretCache, Mutation, Refresh, ShadowData, ShadowMeta, TokenError,
    VerifyStep,
};
use proxmox_backup::types::Digest;

fn digest(n: u128) -> Digest {
    Digest { hi: n, lo: n }
}

// ---- keys ----

fn stored(id: &str) -> KeyList {
    let mut config = KeyList::new();
    add_key(&mut config, id, Some(digest(1)));
    config
}

#[test]
fn stored_keys_are_loaded() {
    let config = stored("k1");
    assert!(config.contains("k1"));
    assert!(!config.contains("k2"));
    let (path, fingerprint) = load_key_config(&config, "k1", true).ok().unwrap();
    assert_eq!(path, "/etc/proxmox-backup/encryption-keys/k1.enc");
    assert_eq!(path, key_path("k1"));
    assert_eq!(key_lock_path(&path), "/etc/proxmox-backup/encryption-keys/k1.enc.lck");
    assert_eq!(check_loaded_key(fingerprint, Some(digest(1))), Ok(()));
    assert_eq!(check_loaded_key(fingerprint, Some(digest(2))), Err(KeyError::Mismatch));
    assert_eq!(check_loaded_key(None, None), Ok(()));
    assert_eq!(load_key_config(&config, "k2", false).err(), Some(KeyError::NotConfigured));
    assert_eq!(complete_encryption_key_id(Some(&config)), vec!["k1"]);
    assert!(complete_encryption_key_id(None).is_empty());
}

#[test]
fn archived_keys_are_loaded_on_demand() {
    let mut config = KeyList::new();
    config.set(CryptKey {
        id: "old".to_string(),
        path: Some("/k".to_string()),
        fingerprint: None,
        archived_at: Some(5),
    });
    config.set(CryptKey {
        id: "lost".to_string(),
        path: None,
        fingerprint: None,
        archived_at: None,
    });
    assert_eq!(load_key_config(&config, "old", true).err(), Some(KeyError::Archived));
    assert_eq!(load_key_config(&config, "old", false).ok().unwrap().0, "/k");
    assert_eq!(load_key_config(&config, "lost", false).err(), Some(KeyError::MissingPath));
    assert_eq!(config.ids().len(), 2);
    assert_eq!(config.remove("old").unwrap().archived_at, Some(5));
    assert!(config.remove("old").is_none());
    assert_eq!(KeyError::Archived.message("k"), "cannot load archived encryption key k");
    assert_eq!(KeyError::MissingPath.message("k"), "missing path for encryption key k");
    assert_eq!(
        KeyError::Mismatch.message("k"),
        "loaded key does not match the config for key k"
    );
    assert_eq!(KeyError::Exists.message("k"), "key with id 'k' already exists.");
}

#[test]
fn keys_are_stored() {
    let (state, action) = store_key(StoreState::Start, StoreEvent::Configured(false));
    assert_eq!(action, StoreAction::CreateDir);
    let (state, action) = store_key(state, StoreEvent::Finished);
    assert_eq!(action, StoreAction::LockFile);
    let (looking, action) = store_key(state, StoreEvent::Finished);
    assert_eq!(action, StoreAction::LookAtFile);
    assert_eq!(
        store_key(looking, StoreEvent::File(Some(1))).1,
        StoreAction::Refuse(KeyError::FileExists)
    );
    assert_eq!(store_key(looking, StoreEvent::File(Some(0))).1, StoreAction::WriteKey);
    let (state, action) = store_key(looking, StoreEvent::File(None));
    assert_eq!(action, StoreAction::WriteKey);
    let (saving, action) = store_key(state, StoreEvent::Finished);
    assert_eq!(action, StoreAction::SaveConfig);
    assert_eq!(
        store_key(saving, StoreEvent::Finished),
        (StoreState::Complete, StoreAction::Complete)
    );
    // a key that cannot be saved leaves no file
    let (state, action) = store_key(saving, StoreEvent::Failed);
    assert_eq!(action, StoreAction::RemoveFile);
    assert_eq!(store_key(state, StoreEvent::Finished).1, StoreAction::Abort);
    assert_eq!(
        store_key(StoreState::Start, StoreEvent::Configured(true)).1,
        StoreAction::Refuse(KeyError::Exists)
    );
}

#[test]
fn only_archived_keys_are_deleted() {
    let mut config = stored("k1");
    assert_eq!(delete_key(&mut config, "k1").err(), Some(KeyError::StillActive));
    assert!(config.contains("k1"));
    let mut key = config.lookup("k1").unwrap();
    key.archived_at = Some(9);
    config.set(key);
    let (path, deletion) = delete_key(&mut config, "k1").ok().unwrap().unwrap();
    assert_eq!(path, key_path("k1"));
    assert!(!config.contains("k1"));
    let (state, action) = deletion.step(DeleteState::Start, DeleteEvent::Finished);
    assert_eq!(action, DeleteAction::LockFile);
    let (loading, action) = deletion.step(state, DeleteEvent::Finished);
    assert_eq!(action, DeleteAction::LoadKey);
    assert_eq!(
        deletion.step(loading, DeleteEvent::Loaded(Some(digest(2)))).1,
        DeleteAction::Refuse(KeyError::UnexpectedKey)
    );
    let (state, action) = deletion.step(loading, DeleteEvent::Loaded(Some(digest(1))));
    assert_eq!(action, DeleteAction::WriteConfig);
    let (state, action) = deletion.step(state, DeleteEvent::Finished);
    assert_eq!(action, DeleteAction::RemoveFile);
    assert_eq!(deletion.step(state, DeleteEvent::Finished).1, DeleteAction::Complete);
    assert!(delete_key(&mut config, "k1").ok().unwrap().is_none());
}

#[test]
fn keys_without_file_are_not_deleted() {
    let mut config = KeyList::new();
    config.set(CryptKey {
        id: "lost".to_string(),
        path: None,
        fingerprint: None,
        archived_at: Some(1),
    });
    assert_eq!(delete_key(&mut config, "lost").err(), Some(KeyError::MissingFile));
    assert!(config.contains("lost"));
    assert_eq!(KeyError::MissingFile.message("k"), "missing key file path for key 'k'");
    assert_eq!(
        KeyError::FileExists.message("k"),
        "detected pre-existing key file, refusing to overwrite."
    );
    assert_eq!(
        KeyError::StillActive.message("k"),
        "key still active, deleting is only possible for archived keys"
    );
    assert_eq!(
        KeyError::UnexpectedKey.message("k"),
        "unexpected key detected in key file, refuse to delete"
    );
}

// ---- tokens ----

fn token() -> Authid {
    Authid::parse("user@pbs!token").unwrap()
}

fn meta(mtime: i128) -> ShadowMeta {
    ShadowMeta { mtime: Some(mtime), len: Some(10) }
}

fn filled() -> ApiTokenSecretCache {
    let mut cache = ApiTokenSecretCache::new();
    assert_eq!(cache.refresh_if_file_changed(1, Some(7), Some(meta(1))), Refresh::Invalid);
    cache.try_insert_secret(&token(), "geheim".to_string(), 7, Some(7));
    cache
}

#[test]
fn verified_secrets_are_accepted() {
    let mut cache = filled();
    assert!(cache.try_secret_matches(&token(), "geheim", Some(7)));
    assert!(!cache.try_secret_matches(&token(), "geheiM", Some(7)));
    assert!(!cache.try_secret_matches(&token(), "geheim2", Some(7)));
    assert!(!cache.try_secret_matches(&token(), "geheim", Some(8)));
    assert!(!cache.try_secret_matches(&token(), "geheim", None));
    let other = Authid::parse("user@pbs!other").unwrap();
    assert!(!cache.try_secret_matches(&other, "geheim", Some(7)));
    assert_eq!(cache.refresh_if_file_changed(2, Some(7), Some(meta(1))), Refresh::Valid);
    assert!(cache.try_secret_matches(&token(), "geheim", Some(7)));
}

#[test]
fn changed_file_drops_secrets() {
    let mut cache = filled();
    assert_eq!(cache.refresh_if_file_changed(2, Some(7), Some(meta(2))), Refresh::Changed);
    assert!(!cache.try_secret_matches(&token(), "geheim", Some(7)));
    // the change is announced to other processes
    cache.set_gen(9);
    cache.try_insert_secret(&token(), "neu".to_string(), 9, Some(9));
    assert!(cache.try_secret_matches(&token(), "neu", Some(9)));
    let mut cache = filled();
    assert_eq!(cache.refresh_if_file_changed(2, Some(8), Some(meta(1))), Refresh::Invalid);
    assert!(!cache.try_secret_matches(&token(), "geheim", Some(8)));
    let mut cache = filled();
    assert_eq!(cache.refresh_if_file_changed(2, None, Some(meta(1))), Refresh::Invalid);
    assert_eq!(cache.refresh_if_file_changed(2, Some(7), None), Refresh::Invalid);
}

#[test]
fn secret_verified_during_a_change_is_not_kept() {
    let mut cache = ApiTokenSecretCache::new();
    cache.reset_and_set_gen(8);
    cache.try_insert_secret(&token(), "geheim".to_string(), 7, Some(8));
    assert!(!cache.try_secret_matches(&token(), "geheim", Some(8)));
    cache.try_insert_secret(&token(), "geheim".to_string(), 8, None);
    assert!(!cache.try_secret_matches(&token(), "geheim", Some(8)));
}

#[test]
fn only_the_last_secret_counts() {
    let other = Authid::parse("user@pbs!other").unwrap();
    let mut data = ShadowData { entries: vec![] };
    let mut cache = ApiTokenSecretCache::new();
    let mut generation = 7;
    let mut size = 0;
    // a hash is the secret with a mark in front
    let mut change = |cache: &mut ApiTokenSecretCache,
                      data: &mut ShadowData,
                      id: &Authid,
                      secret: Option<&str>,
                      by_us: bool| {
        match secret {
            Some(secret) => data.set_secret(id, format!("#{}", secret)).unwrap(),
            None => data.delete_secret(id).unwrap(),
        }
        generation += 1;
        size += 1;
        if by_us {
            let change = Mutation {
                bumped: Some(generation),
                current: Some(generation),
                before: meta(size - 1),
                after: Some(meta(size)),
                now: 1,
            };
            cache.apply_api_mutation(id, &secret.map(|s| s.to_string()), &change);
        }
        (generation, meta(size))
    };
    let verify = |cache: &mut ApiTokenSecretCache,
                  data: &ShadowData,
                  (generation, meta),
                  id: &Authid,
                  secret: &str| {
        let refreshed = cache.refresh_if_file_changed(2, Some(generation), Some(meta));
        let valid = refreshed == Refresh::Valid;
        let cached = cache.try_secret_matches(id, secret, Some(generation));
        if verify_secret(id, valid, cached) == Ok(VerifyStep::Accept) {
            return true;
        }
        let ok = data.lookup(id).is_ok_and(|hash| *hash == format!("#{}", secret));
        if ok {
            cache.try_insert_secret(id, secret.to_string(), generation, Some(generation));
        }
        ok
    };
    let at = change(&mut cache, &mut data, &token(), Some("eins"), true);
    assert!(verify(&mut cache, &data, at, &token(), "eins"));
    let at = change(&mut cache, &mut data, &other, Some("sonst"), false);
    assert!(verify(&mut cache, &data, at, &token(), "eins"));
    assert!(verify(&mut cache, &data, at, &token(), "eins"));
    assert!(!verify(&mut cache, &data, at, &token(), "sonst"));
    // another process sets the secret: the old one no longer counts, though it is kept
    let at = change(&mut cache, &mut data, &token(), Some("zwei"), false);
    assert!(!verify(&mut cache, &data, at, &token(), "eins"));
    assert!(verify(&mut cache, &data, at, &token(), "zwei"));
    let at = change(&mut cache, &mut data, &token(), None, true);
    assert!(!verify(&mut cache, &data, at, &token(), "zwei"));
    assert!(verify(&mut cache, &data, at, &other, "sonst"));
}

#[test]
fn secrets_of_a_missed_generation_are_not_taken_along() {
    let other = Authid::parse("user@pbs!other").unwrap();
    let mut cache = ApiTokenSecretCache::new();
    // kept without ever having looked at the file
    cache.try_insert_secret(&token(), "alt".to_string(), 1, Some(1));
    assert!(cache.try_secret_matches(&token(), "alt", Some(1)));
    // another process sets the secret anew, then this one sets that of another token
    let change = Mutation {
        bumped: Some(3),
        current: Some(3),
        before: meta(2),
        after: Some(meta(3)),
        now: 4,
    };
    cache.apply_api_mutation(&other, &Some("b".to_string()), &change);
    assert_eq!(cache.refresh_if_file_changed(5, Some(3), Some(meta(3))), Refresh::Valid);
    assert!(!cache.try_secret_matches(&token(), "alt", Some(3)));
    assert!(cache.try_secret_matches(&other, "b", Some(3)));
    // without a change in between they are
    let mut cache = ApiTokenSecretCache::new();
    cache.try_insert_secret(&token(), "alt".to_string(), 2, Some(2));
    cache.apply_api_mutation(&other, &Some("b".to_string()), &change);
    assert!(cache.try_secret_matches(&token(), "alt", Some(3)));
    // a generation that comes after the highest one follows none
    let mut cache = ApiTokenSecretCache::new();
    cache.try_insert_secret(&token(), "alt".to_string(), usize::MAX, Some(usize::MAX));
    let wrapped = Mutation { bumped: Some(0), current: Some(0), ..change };
    cache.apply_api_mutation(&other, &None, &wrapped);
    assert!(!cache.try_secret_matches(&token(), "alt", Some(0)));
}

#[test]
fn own_changes_are_followed() {
    let change = Mutation {
        bumped: Some(8),
        current: Some(8),
        before: meta(1),
        after: Some(meta(2)),
        now: 3,
    };
    let mut cache = filled();
    cache.apply_api_mutation(&token(), &Some("neu".to_string()), &change);
    assert!(cache.try_secret_matches(&token(), "neu", Some(8)));
    assert!(!cache.try_secret_matches(&token(), "geheim", Some(8)));
    assert_eq!(cache.refresh_if_file_changed(4, Some(8), Some(meta(2))), Refresh::Valid);
    let other = Authid::parse("user@pbs!other").unwrap();
    let mut cache = filled();
    cache.insert_and_set_gen(&other, "b".to_string(), 7);
    cache.apply_api_mutation(&token(), &None, &change);
    assert!(!cache.try_secret_matches(&token(), "geheim", Some(8)));
    assert!(cache.try_secret_matches(&other, "b", Some(8)));
    // somebody else changed the file before
    let mut cache = filled();
    cache.insert_and_set_gen(&other, "b".to_string(), 7);
    let doubtful = Mutation { before: meta(5), ..change };
    cache.apply_api_mutation(&token(), &Some("neu".to_string()), &doubtful);
    assert!(!cache.try_secret_matches(&other, "b", Some(8)));
    assert!(cache.try_secret_matches(&token(), "neu", Some(8)));
    // a change that could not be announced
    let mut cache = filled();
    let silent = Mutation { bumped: None, ..change };
    cache.apply_api_mutation(&token(), &Some("neu".to_string()), &silent);
    assert!(!cache.try_secret_matches(&token(), "neu", Some(8)));
    let mut cache = filled();
    cache.evict_and_set_gen(&token(), 7);
    assert!(!cache.try_secret_matches(&token(), "geheim", Some(7)));
}

#[test]
fn only_tokens_have_secrets() {
    let user = Authid::parse("user@pbs").unwrap();
    assert_eq!(verify_secret(&user, true, true), Err(TokenError::NotAToken));
    assert_eq!(verify_secret(&token(), true, true), Ok(VerifyStep::Accept));
    assert_eq!(verify_secret(&token(), false, true), Ok(VerifyStep::CheckFile));
    assert_eq!(verify_secret(&token(), true, false), Ok(VerifyStep::CheckFile));
    let mut data = ShadowData { entries: vec![] };
    assert_eq!(data.lookup(&token()).err(), Some(TokenError::InvalidToken));
    assert_eq!(data.set_secret(&user, "h".to_string()), Err(TokenError::NotAToken));
    assert_eq!(data.set_secret(&token(), "h1".to_string()), Ok(()));
    assert_eq!(data.set_secret(&token(), "h2".to_string()), Ok(()));
    assert_eq!(data.lookup(&token()).ok().unwrap(), "h2");
    assert_eq!(data.entries.len(), 1);
    assert_eq!(data.delete_secret(&user), Err(TokenError::NotAToken));
    assert_eq!(data.delete_secret(&token()), Ok(()));
    assert_eq!(data.lookup(&token()).err(), Some(TokenError::InvalidToken));
    assert_eq!(TokenError::NotAToken.message(), "not an API token ID");
    assert_eq!(TokenError::InvalidToken.message(), "invalid API token");
}

// ---- node ----

fn domains(names: &[&str]) -> Vec<Result<String, String>> {
    names.iter().map(|n| Ok(n.to_string())).collect()
}

#[test]
fn duplicate_domains_are_refused() {
    assert!(check_domains(&domains(&["a.example", "b.example"])).is_ok());
    let err = check_domains(&domains(&["a.example", "b.example", "A.Example"])).err().unwrap();
    assert_eq!(err.message().unwrap(), "duplicate domain 'A.Example' in ACME config");
    let mut list = domains(&["a.example"]);
    list.push(Err("bad domain".to_string()));
    let err = check_domains(&list).err().unwrap();
    assert!(matches!(err, NodeConfigError::InvalidDomain(_)));
    assert_eq!(err.message().unwrap(), "bad domain");
    let names = vec!["x".to_string(), "x".to_string()];
    let err = check_names(&domains(&["a", "b"]), &names).err().unwrap();
    assert_eq!(err.message().unwrap(), "duplicate domain 'b' in ACME config");
}

#[test]
fn ciphers_are_checked() {
    let none: Vec<Result<String, String>> = vec![];
    assert!(check_config(&none, &None, &None).is_ok());
    let suites = Some("TLS_AES_256_GCM_SHA384".to_string());
    let list = Some("ECDHE-RSA-AES256-GCM-SHA384".to_string());
    assert!(check_config(&none, &suites, &list).is_ok());
    let bad = Some("no such cipher".to_string());
    let err = check_config(&none, &None, &bad).err().unwrap();
    assert!(matches!(err, NodeConfigError::Ciphers(_)));
    assert!(err.message().is_none());
    assert!(check_config(&none, &bad, &None).is_err());
    assert_eq!(cipher_lists(&suites, &list), (suites.as_deref(), list.as_deref()));
    assert_eq!(cipher_lists(&None, &bad), (None, bad.as_deref()));
    assert!(cipher_result(None, None, None).is_ok());
    // the first error in order of the calls counts
    let cert = || openssl::x509::X509::from_pem(b"").err();
    let key = || openssl::pkey::PKey::private_key_from_der(b"x").err();
    let reported = |result| match result {
        Err(NodeConfigError::Ciphers(err)) => err.to_string(),
        _ => panic!("no error of OpenSSL"),
    };
    let (cert_text, key_text) = (cert().unwrap().to_string(), key().unwrap().to_string());
    assert_ne!(cert_text, key_text);
    assert_eq!(reported(cipher_result(cert(), key(), key())), cert_text);
    assert_eq!(reported(cipher_result(None, key(), cert())), key_text);
    assert_eq!(reported(cipher_result(None, None, cert())), cert_text);
    let err = check_config(&domains(&["a", "A"]), &bad, &bad).err().unwrap();
    assert!(matches!(err, NodeConfigError::DuplicateDomain(_)));
}

// ---- plugins ----

#[test]
fn plugins_are_kept_by_name() {
    let mut plugins = PluginData::new();
    assert_eq!(plugins.len(), 0);
    let value = serde_json::Value::from(1);
    plugins.insert("a".to_string(), "dns".to_string(), value.clone());
    plugins.insert("b".to_string(), "dns".to_string(), serde_json::Value::from(2));
    plugins.insert("a".to_string(), "standalone".to_string(), serde_json::Value::from(3));
    assert_eq!(plugins.len(), 2);
    assert!(plugins.contains_key("a"));
    assert!(!plugins.contains_key("c"));
    assert_eq!(plugins.get("a").unwrap().0, "standalone");
    assert_eq!(plugins.get("a").unwrap().1, serde_json::Value::from(3));
    plugins.get_mut("b").unwrap().1 = value;
    assert_eq!(plugins.get("b").unwrap().1, serde_json::Value::from(1));
    assert!(plugins.get_mut("c").is_none());
    let mut names: Vec<String> = (0..plugins.len()).map(|i| plugins.entry(i).0.clone()).collect();
    names.sort();
    assert_eq!(names, vec!["a", "b"]);
    assert_eq!(plugins.remove("a").unwrap().0, "standalone");
    assert!(plugins.remove("a").is_none());
    assert_eq!(plugins.len(), 1);
}
