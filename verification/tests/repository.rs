use proxmox_backup::auth::Authid;
use proxmox_backup::client::repository::{
    BackupRepository, BackupRepositoryArgs, BackupTargetArgs, RepositoryError,
};
use proxmox_backup::namespace::BackupNamespace;

#[test]
fn parse_datastore_only() {
    let repo: BackupRepository = "mystore".parse().unwrap();
    assert_eq!(repo.store(), "mystore");
    assert_eq!(repo.host(), "localhost");
    assert_eq!(repo.port(), 8007);
    assert_eq!(repo.auth_id().to_string(), "root@pam");
}

#[test]
fn parse_host_and_datastore() {
    let repo: BackupRepository = "myhost:mystore".parse().unwrap();
    assert_eq!(repo.host(), "myhost");
    assert_eq!(repo.store(), "mystore");
}

#[test]
fn parse_full_with_port() {
    let repo: BackupRepository = "admin@pam@backuphost:8008:tank".parse().unwrap();
    assert_eq!(repo.auth_id().to_string(), "admin@pam");
    assert_eq!(repo.host(), "backuphost");
    assert_eq!(repo.port(), 8008);
    assert_eq!(repo.store(), "tank");
}

#[test]
fn parse_ipv4_with_port() {
    let repo: BackupRepository = "192.168.1.1:1234:mystore".parse().unwrap();
    assert_eq!(repo.host(), "192.168.1.1");
    assert_eq!(repo.port(), 1234);
}

#[test]
fn parse_ipv6_with_port() {
    let repo: BackupRepository = "[ff80::1]:9007:mystore".parse().unwrap();
    assert_eq!(repo.host(), "[ff80::1]");
    assert_eq!(repo.port(), 9007);
}

#[test]
fn parse_api_token() {
    let repo: BackupRepository = "user@pbs!token@myhost:mystore".parse().unwrap();
    assert_eq!(repo.auth_id().to_string(), "user@pbs!token");
}

#[test]
fn parse_invalid_url_errors() {
    assert!("".parse::<BackupRepository>().is_err());
}

#[test]
fn display_round_trip() {
    for url in [
        "mystore",
        "myhost:mystore",
        "admin@pam@backuphost:8008:tank",
    ] {
        let repo: BackupRepository = url.parse().unwrap();
        assert_eq!(repo.to_string(), url, "round-trip failed for '{url}'");
    }
}

#[test]
fn new_wraps_bare_ipv6_in_brackets() {
    let repo = BackupRepository::new(None, Some("ff80::1".into()), None, "s".into());
    assert_eq!(repo.host(), "[ff80::1]");
}

#[test]
fn new_preserves_already_bracketed_ipv6() {
    let repo = BackupRepository::new(None, Some("[ff80::1]".into()), None, "s".into());
    assert_eq!(repo.host(), "[ff80::1]");
}

#[test]
fn has_atoms() {
    assert!(!BackupRepositoryArgs::default().has_atoms());

    let with_server = BackupRepositoryArgs {
        server: Some("host".into()),
        ..Default::default()
    };
    assert!(with_server.has_atoms());

    let repo_only = BackupRepositoryArgs {
        repository: Some("myhost:mystore".into()),
        ..Default::default()
    };
    assert!(!repo_only.has_atoms());
}

#[test]
fn try_from_atoms_only() {
    let args = BackupRepositoryArgs {
        server: Some("pbs.local".into()),
        port: Some(9000),
        datastore: Some("tank".into()),
        auth_id: Some("backup@pam".parse().unwrap()),
        ..Default::default()
    };
    let repo = BackupRepository::try_from(args).unwrap();
    assert_eq!(repo.host(), "pbs.local");
    assert_eq!(repo.port(), 9000);
    assert_eq!(repo.store(), "tank");
    assert_eq!(repo.auth_id().to_string(), "backup@pam");
}

#[test]
fn try_from_atoms_datastore_only() {
    let args = BackupRepositoryArgs {
        datastore: Some("local".into()),
        ..Default::default()
    };
    let repo = BackupRepository::try_from(args).unwrap();
    assert_eq!(repo.store(), "local");
    assert_eq!(repo.host(), "localhost");
    assert_eq!(repo.port(), 8007);
}

#[test]
fn try_from_url_only() {
    let args = BackupRepositoryArgs {
        repository: Some("admin@pam@backuphost:8008:mystore".into()),
        ..Default::default()
    };
    let repo = BackupRepository::try_from(args).unwrap();
    assert_eq!(repo.host(), "backuphost");
    assert_eq!(repo.port(), 8008);
    assert_eq!(repo.store(), "mystore");
}

#[test]
fn try_from_mutual_exclusion_error() {
    let args = BackupRepositoryArgs {
        repository: Some("somehost:mystore".into()),
        server: Some("otherhost".into()),
        ..Default::default()
    };
    let err = BackupRepository::try_from(args).unwrap_err();
    assert!(
        err.to_string().contains("mutually exclusive"),
        "got: {}",
        err.to_string()
    );
}

#[test]
fn try_from_nothing_set_error() {
    let err = BackupRepository::try_from(BackupRepositoryArgs::default()).unwrap_err();
    assert!(
        err.to_string().contains("no repository specified"),
        "got: {}",
        err.to_string()
    );
}

#[test]
fn try_from_atoms_without_datastore_error() {
    let args = BackupRepositoryArgs {
        server: Some("pbs.local".into()),
        ..Default::default()
    };
    let err = BackupRepository::try_from(args).unwrap_err();
    assert!(
        err.to_string().contains("--datastore is required"),
        "got: {}",
        err.to_string()
    );
}

#[test]
fn url_error_names_the_url() {
    let err = "a:b:c:d:e".parse::<BackupRepository>().unwrap_err();
    assert_eq!(
        err.to_string(),
        "unable to parse repository url 'a:b:c:d:e'"
    );
}

#[test]
fn port_must_fit() {
    let err = "host:65536:store".parse::<BackupRepository>().unwrap_err();
    assert!(matches!(err, RepositoryError::Port));
    let repo: BackupRepository = "host:65535:store".parse().unwrap();
    assert_eq!(repo.port(), 65535);
}

#[test]
fn ipv6_is_printed_back() {
    let repo: BackupRepository = "root@pam@[ff80::1]:9007:mystore".parse().unwrap();
    assert_eq!(repo.to_string(), "root@pam@[ff80::1]:9007:mystore");
    assert_eq!(repo.user().to_string(), "root@pam");
}

#[test]
fn printed_location_is_read_back() {
    let id: Authid = "user@pbs!token".parse().unwrap();
    let repo = BackupRepository::new(Some(id), Some("ff80::1".into()), Some(1), "s".into());
    let again: BackupRepository = repo.to_string().parse().unwrap();
    assert_eq!(again.auth_id().to_string(), "user@pbs!token");
    assert_eq!(again.host(), "[ff80::1]");
    assert_eq!(again.port(), 1);
    assert_eq!(again.store(), "s");
}

#[test]
fn given_parts_win_over_fallback() {
    let given = BackupRepositoryArgs {
        server: Some("a".into()),
        ..Default::default()
    };
    let fallback = BackupRepositoryArgs {
        server: Some("b".into()),
        port: Some(1),
        ..Default::default()
    };
    let merged = given.merge_from(fallback);
    assert_eq!(merged.server.as_deref(), Some("a"));
    assert_eq!(merged.port, Some(1));
    assert!(merged.repository.is_none());
    assert!(merged.check_mutual_exclusion().is_ok());
}

#[test]
fn target_defaults_to_nothing() {
    let args = BackupTargetArgs::default();
    assert!(!args.target.has_atoms());
    assert!(args.ns.is_none());
    assert!(BackupNamespace::root().is_root());
}

#[test]
fn identities_are_printed_back() {
    for text in ["root@pam", "user@pbs!token", "a.b@ldap"] {
        let id: Authid = text.parse().unwrap();
        assert_eq!(id.to_string(), text);
        assert_eq!(id.is_token(), text.contains('!'));
    }
    for text in ["", "root", "@pam", "root@", "a:b@pam", "root@pam!"] {
        assert!(text.parse::<Authid>().is_err(), "{text}");
    }
}
