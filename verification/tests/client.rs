//! Commands of the client.

use std::time::{Duration, Instant};

use proxmox_backup::api::namespace::NamespaceListItem;
use proxmox_backup::client::group::{
    forget_error, forget_group, forget_question, move_group_namespace, ForgetAction, ForgetEvent,
    ForgetState, NOT_FOUND_MESSAGE,
};
use proxmox_backup::client::log_throttle::LogThrottle;
use proxmox_backup::client::namespace::{
    create_params, delete_params, list_lines, list_params, move_source, RootError,
};
use proxmox_backup::namespace::BackupNamespace;

fn ns(path: &str) -> BackupNamespace {
    let components = path.split('/').filter(|c| !c.is_empty()).map(|c| c.to_string()).collect();
    BackupNamespace { components }
}

#[test]
fn interval_doubles() {
    let second = 1_000_000_000;
    let now = Instant::now();
    let mut throttle = LogThrottle::new(second, 3 * second);
    assert!(!throttle.hit_at(now, second - 1));
    assert!(throttle.hit_at(now, second));
    assert!(!throttle.hit_at(now, 2 * second - 1));
    assert!(throttle.hit_at(now, 2 * second));
    // the maximum is reached
    assert!(!throttle.hit_at(now, 3 * second - 1));
    assert!(throttle.hit_at(now, 3 * second));
    assert!(!throttle.hit_at(now, 3 * second - 1));
    let mut short = LogThrottle::new(9 * second, second);
    assert!(short.hit_at(now, second));
    assert!(short.can_double());
    assert!(!LogThrottle::new(u128::MAX, u128::MAX).can_double());
}

#[test]
fn lines_are_spaced_out() {
    let made = Instant::now();
    let second = 1_000_000_000;
    let mut throttle = LogThrottle::starting_at(made, 10 * second, 30 * second);
    let mut last = 0;
    let mut seen = Vec::new();
    for at in [9, 10, 29, 30, 59, 60, 89, 90] {
        let hit = throttle.hit_at(made + Duration::from_secs(at), u128::from(at - last) * second);
        if hit {
            last = at;
        }
        seen.push(hit);
    }
    assert_eq!(seen, vec![false, true, false, true, false, true, false, true]);
}

#[test]
fn interval_starts_when_a_line_is_let_through() {
    let now = Instant::now();
    let later = now + Duration::from_secs(3600);
    let minute = 60_000_000_000;
    let mut throttle = LogThrottle::starting_at(now, 1, minute);
    while !throttle.should_log() {}
    assert!(throttle.hit_at(later, 2));
    // the last line is ahead of the clock, so no time has passed
    assert!(!throttle.should_log());
    assert!(throttle.hit_at(later, 4));
    assert!(!LogThrottle::starting_at(later, 1, minute).should_log());
}

#[test]
fn lines_are_let_through_in_time() {
    let mut always = LogThrottle::new(0, 0);
    assert!(always.should_log());
    assert!(always.should_log());
    let hour = 3_600_000_000_000;
    let mut seldom = LogThrottle::new(hour, hour);
    assert!(!seldom.should_log());
}

#[test]
fn groups_are_forgotten_on_demand() {
    let (state, action) = forget_group(ForgetState::Start, ForgetEvent::Finished);
    assert_eq!(action, ForgetAction::List);
    let (asking, action) = forget_group(state, ForgetEvent::Snapshots(3));
    assert_eq!(action, ForgetAction::Ask(3));
    assert_eq!(forget_group(asking, ForgetEvent::Answer(false)).1, ForgetAction::ReportAbort);
    let (state, action) = forget_group(asking, ForgetEvent::Answer(true));
    assert_eq!(action, ForgetAction::Delete);
    assert_eq!(forget_group(state, ForgetEvent::Finished).1, ForgetAction::ReportDeleted);
    assert_eq!(forget_group(state, ForgetEvent::Failed).1, ForgetAction::Fail);
    assert_eq!(
        forget_question("vm/100", 3),
        "Delete group \"vm/100\" with 3 snapshot(s)?"
    );
    assert_eq!(
        forget_error("opening /x: ENOENT: No such file or directory (2)"),
        Some(NOT_FOUND_MESSAGE)
    );
    assert_eq!(forget_error("EACCES: Permission denied"), None);
    assert!(move_group_namespace(ns("")).is_none());
    assert_eq!(move_group_namespace(ns("a/b")).unwrap().to_string(), "a/b");
}

#[test]
fn namespace_commands_spare_the_root() {
    let (parent, name) = create_params(ns("a/b")).ok().unwrap();
    assert_eq!((parent.to_string(), name), ("a".to_string(), "b".to_string()));
    assert_eq!(create_params(ns("")).err(), Some(RootError::Present));
    let params = delete_params(ns("a"), Some(true)).ok().unwrap();
    assert_eq!(params.ns.to_string(), "a");
    assert_eq!(params.delete_groups, Some(true));
    assert_eq!(delete_params(ns(""), None).err(), Some(RootError::Deleted));
    assert_eq!(move_source(ns("a")).ok().unwrap().to_string(), "a");
    assert_eq!(move_source(ns("")).err(), Some(RootError::Moved));
    assert_eq!(RootError::Present.message(), "root namespace is always present");
    assert_eq!(RootError::Deleted.message(), "root namespace cannot be deleted");
    assert_eq!(RootError::Moved.message(), "root namespace cannot be moved");
    assert!(list_params(ns(""), Some(2)).parent.is_none());
    let listed = list_params(ns("a"), None);
    assert_eq!(listed.parent.unwrap().to_string(), "a");
    assert_eq!(listed.max_depth, None);
}

#[test]
fn namespaces_are_listed_without_the_root() {
    let item = |path: &str, comment: Option<&str>| NamespaceListItem {
        ns: ns(path),
        comment: comment.map(|c| c.to_string()),
    };
    assert_eq!(
        list_lines(&vec![item("", None), item("a", None), item("a/b", Some("old"))]),
        vec!["a", "a/b (old)"]
    );
}
