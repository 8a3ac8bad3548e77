//! Bounded tasks, buffered log lines, metrics, build settings and documentation.

use proxmox_backup::buildcfg::{env_line, multiarch};
use proxmox_backup::docgen::{api_trees, doc_part, generate_api_tree, program_name, DocPart};
use proxmox_backup::server::metric_collection::{
    collect_netdev_stats, counts_requests, disk_source, is_collected, network_interfaces,
    run_stat_generator, s3_counters_file, CollectError, DatastoreBackendConfig,
    DatastoreBackendType, DatastoreState, DiskSource, IpLink, MountedDevice, NetdevType,
    ProcFsNetDev, RoundAction, RoundState,
};
use proxmox_backup::tools::bounded_join_set::{
    BoundedJoinSet, JoinAction, JoinEvent, SpawnAction, SpawnEvent,
};
use proxmox_backup::tools::buffered_logger::{line_text, BufferedLogger, LogLine, Written};
use proxmox_backup::types::Level;

#[test]
fn tasks_wait_for_room() {
    let mut tasks = BoundedJoinSet::new(2);
    for _ in 0..2 {
        assert_eq!(tasks.spawn_task(SpawnEvent::Begin), SpawnAction::TryJoin);
        assert_eq!(tasks.spawn_task(SpawnEvent::NoneEnded), SpawnAction::Spawn(vec![]));
    }
    assert_eq!(tasks.len(), 2);
    assert_eq!(tasks.spawn_task(SpawnEvent::Begin), SpawnAction::TryJoin);
    assert_eq!(tasks.spawn_task(SpawnEvent::NoneEnded), SpawnAction::Join);
    assert_eq!(tasks.spawn_task(SpawnEvent::Joined("b")), SpawnAction::Spawn(vec!["b"]));
    assert_eq!(tasks.len(), 2);
    // tasks that have ended make room without waiting
    assert_eq!(tasks.spawn_task(SpawnEvent::Begin), SpawnAction::TryJoin);
    assert_eq!(tasks.spawn_task(SpawnEvent::Collected("c")), SpawnAction::TryJoin);
    assert_eq!(tasks.spawn_task(SpawnEvent::Collected("a")), SpawnAction::TryJoin);
    assert_eq!(tasks.len(), 0);
    assert_eq!(tasks.spawn_task(SpawnEvent::NoneEnded), SpawnAction::Spawn(vec!["c", "a"]));
    assert_eq!(tasks.len(), 1);
    // what was collected before a failure is lost, and handed out by no later call
    assert_eq!(tasks.spawn_task(SpawnEvent::Begin), SpawnAction::TryJoin);
    assert_eq!(tasks.spawn_task(SpawnEvent::NoneEnded), SpawnAction::Spawn(vec![]));
    assert_eq!(tasks.spawn_task(SpawnEvent::Begin), SpawnAction::TryJoin);
    assert_eq!(tasks.spawn_task(SpawnEvent::Collected("d")), SpawnAction::TryJoin);
    assert_eq!(tasks.spawn_task(SpawnEvent::Failed), SpawnAction::Abort);
    assert_eq!(tasks.join_spawned_tasks(JoinEvent::Begin), JoinAction::Done(vec![]));
}

#[test]
fn tasks_that_are_left_are_waited_for() {
    let mut tasks = BoundedJoinSet::new(4);
    for _ in 0..4 {
        assert_eq!(tasks.spawn_task(SpawnEvent::Begin), SpawnAction::TryJoin);
        assert_eq!(tasks.spawn_task(SpawnEvent::NoneEnded), SpawnAction::Spawn(vec![]));
    }
    assert!(tasks.join_next());
    assert_eq!(tasks.join_spawned_tasks(JoinEvent::Begin), JoinAction::Join);
    assert_eq!(tasks.join_spawned_tasks(JoinEvent::Joined(3)), JoinAction::Join);
    assert_eq!(tasks.join_spawned_tasks(JoinEvent::Failed), JoinAction::Abort);
    assert_eq!(tasks.len(), 1);
    assert_eq!(tasks.join_spawned_tasks(JoinEvent::Begin), JoinAction::Join);
    assert_eq!(tasks.join_spawned_tasks(JoinEvent::Joined(1)), JoinAction::Done(vec![1]));
    assert_eq!(tasks.len(), 0);
    assert!(!tasks.join_next());
    assert_eq!(BoundedJoinSet::<u8>::new(0).len(), 0);
}

fn line(message: &str) -> LogLine {
    LogLine { level: Level::Info, message: message.to_string() }
}

fn shown(out: Vec<Written>) -> Vec<String> {
    out.iter().map(|w| line_text(&w.label, &w.line.message)).collect()
}

#[test]
fn lines_are_held_back_by_label() {
    let mut logger = BufferedLogger::new(3, 1000);
    assert!(shown(logger.receive("a", line("1"), 0)).is_empty());
    assert!(shown(logger.receive("b", line("2"), 0)).is_empty());
    assert!(shown(logger.receive("a", line("3"), 0)).is_empty());
    assert_eq!(shown(logger.flush("a")), vec!["[a]: 1", "[a]: 3"]);
    assert!(shown(logger.flush("a")).is_empty());
    assert_eq!(shown(logger.flush_all()), vec!["[b]: 2"]);
    assert!(BufferedLogger::is_buffering(1, 0));
    assert!(BufferedLogger::is_buffering(0, 1));
    assert!(!BufferedLogger::is_buffering(0, 0));
}

#[test]
fn order_of_a_label_is_kept() {
    let mut logger = BufferedLogger::new(2, 1000);
    let mut out = Vec::new();
    for i in 0..7 {
        out.extend(shown(logger.receive("a", line(&format!("{}", i)), 0)));
    }
    out.extend(shown(logger.flush("a")));
    let expected: Vec<String> = (0..7).map(|i| format!("[a]: {}", i)).collect();
    assert_eq!(out, expected);
}

#[test]
fn without_room_lines_are_written_at_once() {
    let mut logger = BufferedLogger::new(0, 1000);
    assert_eq!(shown(logger.receive("a", line("1"), 0)), vec!["[a]: 1"]);
    assert_eq!(shown(logger.receive("a", line("2"), 0)), vec!["[a]: 2"]);
    assert!(shown(logger.flush_all()).is_empty());
}

#[test]
fn flushed_lines_come_by_label() {
    let mut logger = BufferedLogger::new(10, 1000);
    for (label, message) in [("a", "1"), ("b", "2"), ("a", "3"), ("c", "4"), ("b", "5")] {
        logger.receive(label, line(message), 0);
    }
    let mut labels: Vec<String> = logger.flush_all().into_iter().map(|w| w.label).collect();
    assert_eq!(labels.len(), 5);
    labels.dedup();
    assert_eq!(labels.len(), 3);
}

#[test]
fn old_lines_are_written() {
    let mut logger = BufferedLogger::new(10, 100);
    logger.receive("a", line("1"), 0);
    logger.receive("b", line("2"), 90);
    assert!(shown(logger.flush_expired(100)).is_empty());
    assert_eq!(shown(logger.flush_expired(101)), vec!["[a]: 1"]);
    assert_eq!(shown(logger.flush_expired(191)), vec!["[b]: 2"]);
    assert!(shown(logger.flush_expired(1000)).is_empty());
}

#[test]
fn known_devices_are_counted() {
    let link = |name: &str, physical| IpLink { name: name.to_string(), physical };
    let links =
        network_interfaces(vec![link("eth0", false), link("vmbr0", false), link("eth0", true)]);
    let device = |name: &str, receive: u64| ProcFsNetDev {
        device: name.to_string(),
        receive,
        send: receive + 1,
    };
    let stats =
        collect_netdev_stats(vec![device("lo", 1), device("vmbr0", 2), device("eth0", 3)], &links);
    assert_eq!(stats.len(), 2);
    assert_eq!(stats[0].device, "vmbr0");
    assert_eq!(stats[0].ty, NetdevType::Virtual);
    assert_eq!((stats[1].receive, stats[1].send), (3, 4));
    assert_eq!(stats[1].ty, NetdevType::Physical);
}

#[test]
fn blocked_datastores_are_left_out() {
    let state = |reading_blocked, mounted| DatastoreState { reading_blocked, mounted };
    assert!(is_collected(&state(false, None)));
    assert!(is_collected(&state(false, Some(true))));
    assert!(!is_collected(&state(false, Some(false))));
    assert!(!is_collected(&state(true, None)));
    assert!(counts_requests(Some(DatastoreBackendType::S3)));
    assert!(!counts_requests(Some(DatastoreBackendType::Filesystem)));
    assert!(!counts_requests(None));
    let mut config = DatastoreBackendConfig {
        ty: Some(DatastoreBackendType::S3),
        client: Some("end".to_string()),
        bucket: Some("bucket".to_string()),
    };
    assert_eq!(s3_counters_file("/b", "store", &config).unwrap(), "/b/end-bucket-store.shmem");
    config.bucket = None;
    assert_eq!(s3_counters_file("/b", "store", &config).unwrap_err(), "missing s3 bucket name");
    config.client = None;
    assert_eq!(s3_counters_file("/b", "store", &config).unwrap_err(), "missing s3 endpoint id");
}

#[test]
fn disks_are_told_by_file_system() {
    let device = |fs: &str, source| MountedDevice { fs_type: fs.to_string(), source };
    match disk_source(device("zfs", Some(Ok("pool/data".to_string())))) {
        DiskSource::Zfs(dataset) => assert_eq!(dataset, "pool/data"),
        _ => panic!("not zfs"),
    }
    match disk_source(device("zfs", Some(Err("\"x\"".to_string())))) {
        DiskSource::Unreadable(line) => {
            assert_eq!(line, "zfs_pool_stats(\"x\") failed - invalid characters")
        }
        _ => panic!("readable"),
    }
    assert!(matches!(disk_source(device("zfs", None)), DiskSource::BlockDevice));
    assert!(matches!(
        disk_source(device("ext4", Some(Ok("/dev/sda".to_string())))),
        DiskSource::BlockDevice
    ));
}

#[test]
fn rounds_go_on() {
    let (state, action) = run_stat_generator(RoundState::Collecting, true);
    assert_eq!(action, RoundAction::Distribute);
    let (state, action) = run_stat_generator(state, false);
    assert_eq!(action, RoundAction::Sleep);
    assert_eq!(run_stat_generator(state, true).1, RoundAction::Collect);
    assert_eq!(run_stat_generator(RoundState::Collecting, false).1, RoundAction::LogAndSleep);
    assert_eq!(CollectError::NetDev.line("e"), "read_prox_net_dev failed - e");
    assert_eq!(
        CollectError::FsInfo("\"/\"".to_string()).line("e"),
        "read fs info on \"/\" failed - e"
    );
    assert_eq!(
        CollectError::ZfsDataset("\"d\"".to_string()).line("e"),
        "zfs_dataset_stats(\"d\") failed - e"
    );
    let lines = [
        (CollectError::NetworkInterfaces, "get_network_interfaces failed - e"),
        (CollectError::ProcStat, "read_proc_stat failed - e"),
        (CollectError::MemInfo, "read_meminfo failed - e"),
        (CollectError::LoadAvg, "read_loadavg failed - e"),
        (CollectError::DatastoreConfig, "read datastore config failed - e"),
        (CollectError::BackendConfig, "parsing datastore backend config failed - e"),
        (CollectError::MountedDevice, "find_mounted_device failed - e"),
        (CollectError::DiskStat("\"/\"".to_string()), "disk.read_stat \"/\" failed - e"),
        (CollectError::Collection, "collecting host stats panicked: e"),
        (CollectError::RrdUpdate, "rrd update panicked: e"),
        (CollectError::MetricsSending, "error during metrics sending: e"),
        (CollectError::PullMetrics, "error caching pull-style metrics: e"),
    ];
    for (error, line) in lines {
        assert_eq!(error.line("e"), line);
    }
}

#[test]
fn architectures_are_known() {
    assert_eq!(multiarch("x86_64"), Ok("x86_64-linux-gnu"));
    assert_eq!(multiarch("aarch64"), Ok("aarch64-linux-gnu"));
    assert_eq!(multiarch("riscv64"), Ok("riscv64-linux-gnu"));
    assert_eq!(multiarch("vax"), Err("Unsupported architecture: vax".to_string()));
    assert_eq!(env_line("A", "b"), "cargo:rustc-env=A=b");
}

#[test]
fn documentation_has_parts() {
    assert_eq!(doc_part("apidata.js"), Some(DocPart::ApiTree));
    assert_eq!(doc_part("config::acl::Role"), Some(DocPart::AclRole));
    assert_eq!(doc_part("media-pool.cfg"), Some(DocPart::MediaPool));
    assert_eq!(doc_part("nothing"), None);
    assert_eq!(program_name("/usr/bin/docgen"), "docgen");
    assert_eq!(program_name("docgen"), "docgen");
    let trees = api_trees();
    assert_eq!(trees.len(), 3);
    assert_eq!(trees[1].path, "/backup/_upgrade_");
    assert_eq!(generate_api_tree("[]"), "var apiSchema = [];");
}
