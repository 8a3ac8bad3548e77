//! Numbers on the host, its disks and its datastores that are collected regularly.

use vstd::hash_map::StringHashMap;
use vstd::prelude::*;
use crate::api::s3::{counter_file, counter_id, counters_path, request_counter_id};
use crate::text::{join2, join3, str_eq};

verus! {

/// Seconds from one collection to the next.
pub const METRIC_COLLECTION_INTERVAL: u64 = 10;

// ---- network ----

/// Kind of a network device.
#[derive(Clone, Copy, Debug, PartialEq, Eq, Structural)]
pub enum NetdevType {
    Physical,
    Virtual,
}

/// Traffic of a network device, as the kernel counts it.
pub struct ProcFsNetDev {
    pub device: String,
    pub receive: u64,
    pub send: u64,
}

/// Traffic of a network device.
pub struct NetdevStat {
    pub device: String,
    pub receive: u64,
    pub send: u64,
    pub ty: NetdevType,
}

/// Contents of a [`NetdevStat`].
#[verifier::ext_equal]
pub struct NetdevStatView {
    pub device: Seq<char>,
    pub receive: u64,
    pub send: u64,
    pub ty: NetdevType,
}

impl View for NetdevStat {
    type V = NetdevStatView;

    open spec fn view(&self) -> NetdevStatView {
        NetdevStatView {
            device: self.device@,
            receive: self.receive,
            send: self.send,
            ty: self.ty,
        }
    }
}

impl NetdevStat {
    /// Traffic of a device of the given kind.
    pub fn from_fs_net_dev(net_dev: ProcFsNetDev, ty: NetdevType) -> (r: Self)
        ensures
            r@ == (NetdevStatView {
                device: net_dev.device@,
                receive: net_dev.receive,
                send: net_dev.send,
                ty,
            }),
    {
        NetdevStat { device: net_dev.device, receive: net_dev.receive, send: net_dev.send, ty }
    }
}

/// Kind of a device.
pub open spec fn netdev_type(physical: bool) -> NetdevType {
    if physical {
        NetdevType::Physical
    } else {
        NetdevType::Virtual
    }
}

/// Traffic of the devices that are known, in order. `links` tells of each device
/// whether it is a physical one.
pub open spec fn netdev_stats(devs: Seq<ProcFsNetDev>, links: Map<Seq<char>, bool>) -> Seq<
    NetdevStatView,
>
    decreases devs.len(),
{
    if devs.len() == 0 {
        seq![]
    } else {
        let before = netdev_stats(devs.drop_last(), links);
        let dev = devs.last();
        if links.dom().contains(dev.device@) {
            before.push(
                NetdevStatView {
                    device: dev.device@,
                    receive: dev.receive,
                    send: dev.send,
                    ty: netdev_type(links[dev.device@]),
                },
            )
        } else {
            before
        }
    }
}

/// The contents of a list.
pub open spec fn stat_views(stats: Seq<NetdevStat>) -> Seq<NetdevStatView> {
    Seq::new(stats.len(), |i: int| stats[i]@)
}

/// A network interface, and whether it is a physical one.
pub struct IpLink {
    pub name: String,
    pub physical: bool,
}

/// The interfaces by name; of two that share a name the later one counts.
pub open spec fn links_by_name(links: Seq<IpLink>) -> Map<Seq<char>, bool>
    decreases links.len(),
{
    if links.len() == 0 {
        Map::empty()
    } else {
        links_by_name(links.drop_last()).insert(links.last().name@, links.last().physical)
    }
}

/// Finds interfaces by name.
pub fn network_interfaces(links: Vec<IpLink>) -> (r: StringHashMap<bool>)
    ensures
        r@ == links_by_name(links@),
{
    let mut map: StringHashMap<bool> = StringHashMap::new();
    assert(map@ =~= links_by_name(links@.take(0)));
    for link in it: links
        invariant
            it.seq() == links@,
            map@ == links_by_name(links@.take(it.index() as int)),
    {
        proof {
            let i = it.index() as int;
            assert(links@.take(i + 1).drop_last() =~= links@.take(i));
            assert(links@.take(i + 1).last() == link);
        }
        map.insert(link.name, link.physical);
    }
    assert(links@.take(links@.len() as int) =~= links@);
    map
}

/// Traffic of the devices that are known, in order.
pub fn collect_netdev_stats(net_devs: Vec<ProcFsNetDev>, ip_links: &StringHashMap<bool>) -> (r: Vec<
    NetdevStat,
>)
    ensures
        stat_views(r@) == netdev_stats(net_devs@, ip_links@),
{
    let mut stats: Vec<NetdevStat> = Vec::new();
    assert(stat_views(stats@) =~= netdev_stats(net_devs@.take(0), ip_links@));
    for net_dev in it: net_devs
        invariant
            it.seq() == net_devs@,
            stat_views(stats@) == netdev_stats(net_devs@.take(it.index() as int), ip_links@),
    {
        let ghost before = stats@;
        proof {
            let i = it.index() as int;
            assert(net_dev == net_devs@[i]);
            assert(net_devs@.take(i + 1).drop_last() =~= net_devs@.take(i));
            assert(net_devs@.take(i + 1).last() == net_dev);
        }
        let physical: Option<bool> = match ip_links.get(net_dev.device.as_str()) {
            Some(physical) => Some(*physical),
            None => None,
        };
        match physical {
            Some(physical) => {
                let ty: NetdevType = if physical {
                    NetdevType::Physical
                } else {
                    NetdevType::Virtual
                };
                let stat = NetdevStat::from_fs_net_dev(net_dev, ty);
                let ghost shown = stat@;
                stats.push(stat);
                assert(stat_views(stats@) =~= stat_views(before).push(shown));
            },
            None => {},
        }
    }
    assert(net_devs@.take(net_devs@.len() as int) =~= net_devs@);
    stats
}

// ---- datastores ----

/// Where the contents of a datastore are kept.
#[derive(Clone, Copy, Debug, PartialEq, Eq, Structural)]
pub enum DatastoreBackendType {
    Filesystem,
    S3,
}

/// What is known of a datastore before numbers on it are collected.
#[derive(Clone, Copy, Debug, PartialEq, Eq, Structural)]
pub struct DatastoreState {
    /// Its maintenance mode, if it has one, does not let it be read.
    pub reading_blocked: bool,
    /// Whether it is mounted, if it has to be.
    pub mounted: Option<bool>,
}

/// Whether numbers on a datastore are collected: not while it may not be read or
/// is not mounted.
pub fn is_collected(state: &DatastoreState) -> (r: bool)
    ensures
        r == (!state.reading_blocked && state.mounted != Some(false)),
{
    if state.reading_blocked {
        return false;
    }
    match state.mounted {
        Some(mounted) => mounted,
        None => true,
    }
}

/// Whether requests to S3 are counted for a datastore; without a setting it lies in
/// a file system.
pub fn counts_requests(ty: Option<DatastoreBackendType>) -> (r: bool)
    ensures
        r == (ty == Some(DatastoreBackendType::S3)),
{
    match ty {
        Some(DatastoreBackendType::S3) => true,
        _ => false,
    }
}

/// Where the S3 contents of a datastore are.
pub struct DatastoreBackendConfig {
    pub ty: Option<DatastoreBackendType>,
    pub client: Option<String>,
    pub bucket: Option<String>,
}

/// Requests to S3.
#[derive(Clone, Copy, Debug, PartialEq, Eq, Structural)]
pub struct S3Statistics {
    pub get: u64,
    pub put: u64,
    pub post: u64,
    pub delete: u64,
    pub head: u64,
    pub uploaded: u64,
    pub downloaded: u64,
}

/// The file of the counters of a datastore below the directory `base`, or what is
/// missing to tell.
pub fn s3_counters_file(base: &str, store: &str, config: &DatastoreBackendConfig) -> (r: Result<
    String,
    &'static str,
>)
    ensures
        match r {
            Ok(path) => {
                &&& config.client is Some
                &&& config.bucket is Some
                &&& path@ == counter_file(
                    base@,
                    counter_id(config.client->0@, config.bucket->0@, Some(store@)),
                )
            },
            Err(message) => if config.client is None {
                message@ == "missing s3 endpoint id"@
            } else {
                config.bucket is None && message@ == "missing s3 bucket name"@
            },
        },
{
    let client: &str = match &config.client {
        Some(client) => client.as_str(),
        None => {
            return Err("missing s3 endpoint id");
        },
    };
    let bucket: &str = match &config.bucket {
        Some(bucket) => bucket.as_str(),
        None => {
            return Err("missing s3 bucket name");
        },
    };
    let id = request_counter_id(client, bucket, Some(store));
    Ok(counters_path(base, id.as_str()))
}

// ---- disks ----

/// What is known of the device that a path is mounted from.
pub struct MountedDevice {
    pub fs_type: String,
    /// What was mounted, if known; an error holds the name as it is printed if it is
    /// no text.
    pub source: Option<Result<String, String>>,
}

/// Where numbers on a disk come from.
pub enum DiskSource {
    /// The ZFS dataset of the given name.
    Zfs(String),
    /// Nowhere, as the name of the ZFS dataset is no text; holds the log line.
    Unreadable(String),
    /// The block device.
    BlockDevice,
}

/// Where numbers on a disk come from.
pub fn disk_source(device: MountedDevice) -> (r: DiskSource)
    ensures
        match r {
            DiskSource::Zfs(dataset) => device.fs_type@ == "zfs"@ && device.source == Some(
                Ok::<String, String>(dataset),
            ),
            DiskSource::Unreadable(line) => device.fs_type@ == "zfs"@ && device.source is Some
                && device.source->0 is Err && line@ == "zfs_pool_stats("@
                + device.source->0->Err_0@ + ") failed - invalid characters"@,
            DiskSource::BlockDevice => device.fs_type@ != "zfs"@ || device.source is None,
        },
{
    if str_eq(device.fs_type.as_str(), "zfs") {
        match device.source {
            Some(Ok(dataset)) => DiskSource::Zfs(dataset),
            Some(Err(printed)) => DiskSource::Unreadable(
                join3("zfs_pool_stats(", printed.as_str(), ") failed - invalid characters"),
            ),
            None => DiskSource::BlockDevice,
        }
    } else {
        DiskSource::BlockDevice
    }
}

// ---- rounds ----

/// How far a round of the collection has come.
#[derive(Clone, Copy, Debug, PartialEq, Eq, Structural)]
pub enum RoundState {
    Collecting,
    Distributing,
    Sleeping,
}

/// What the environment has to do next.
#[derive(Clone, Copy, Debug, PartialEq, Eq, Structural)]
pub enum RoundAction {
    /// Collect all numbers, and remember when the next round is due.
    Collect,
    /// Store the numbers, send them to the metric servers and keep them for those
    /// that ask, and log what fails of it.
    Distribute,
    /// Log the error of the collection, then sleep until the next round is due.
    LogAndSleep,
    /// Sleep until the next round is due.
    Sleep,
}

/// The next state and action, from whether the last action was done. Whatever
/// fails, the next round comes.
pub open spec fn round_next(state: RoundState, ok: bool) -> (RoundState, RoundAction) {
    match state {
        RoundState::Collecting => if ok {
            (RoundState::Distributing, RoundAction::Distribute)
        } else {
            (RoundState::Sleeping, RoundAction::LogAndSleep)
        },
        RoundState::Distributing => (RoundState::Sleeping, RoundAction::Sleep),
        RoundState::Sleeping => (RoundState::Collecting, RoundAction::Collect),
    }
}

/// Moves the collection on and says what to do next.
pub fn run_stat_generator(state: RoundState, ok: bool) -> (r: (RoundState, RoundAction))
    ensures
        r == round_next(state, ok),
{
    match state {
        RoundState::Collecting => if ok {
            (RoundState::Distributing, RoundAction::Distribute)
        } else {
            (RoundState::Sleeping, RoundAction::LogAndSleep)
        },
        RoundState::Distributing => (RoundState::Sleeping, RoundAction::Sleep),
        RoundState::Sleeping => (RoundState::Collecting, RoundAction::Collect),
    }
}

/// Numbers are distributed only once they were collected, and between two
/// collections there is always a sleep.
pub proof fn every_round_sleeps(state: RoundState, ok: bool)
    ensures
        round_next(state, ok).1 == RoundAction::Distribute ==> state == RoundState::Collecting
            && ok,
        round_next(state, ok).1 == RoundAction::Collect ==> state == RoundState::Sleeping,
        round_next(state, ok).0 == RoundState::Sleeping ==> round_next(state, ok).1
            == RoundAction::Sleep || round_next(state, ok).1 == RoundAction::LogAndSleep,
{
}

/// A round collects numbers, distributes them if that worked, and sleeps; then the next one
/// begins. Numbers that cannot be collected are logged as such.
pub proof fn rounds_follow_each_other(distributed: bool, slept: bool)
    ensures
        ({
            let (distributing, first) = round_next(RoundState::Collecting, true);
            let (sleeping, second) = round_next(distributing, distributed);
            let (again, third) = round_next(sleeping, slept);
            let (idle, instead) = round_next(RoundState::Collecting, false);
            &&& first == RoundAction::Distribute
            &&& second == RoundAction::Sleep
            &&& third == RoundAction::Collect
            &&& round_next(again, true).1 == RoundAction::Distribute
            &&& instead == RoundAction::LogAndSleep
            &&& round_next(idle, slept).1 == RoundAction::Collect
        }),
{
}

// ---- log lines ----

/// What can fail while numbers are collected.
pub enum CollectError {
    NetDev,
    NetworkInterfaces,
    ProcStat,
    MemInfo,
    LoadAvg,
    DatastoreConfig,
    BackendConfig,
    /// Usage of the file system at a printed path.
    FsInfo(String),
    MountedDevice,
    /// Numbers of the ZFS dataset of a printed name.
    ZfsDataset(String),
    /// Numbers of the disk at a printed path.
    DiskStat(String),
    /// The task that collects all numbers.
    Collection,
    RrdUpdate,
    MetricsSending,
    PullMetrics,
}

impl CollectError {
    /// The log line for an error.
    pub open spec fn text(self, err: Seq<char>) -> Seq<char> {
        match self {
            CollectError::NetDev => "read_prox_net_dev failed - "@ + err,
            CollectError::NetworkInterfaces => "get_network_interfaces failed - "@ + err,
            CollectError::ProcStat => "read_proc_stat failed - "@ + err,
            CollectError::MemInfo => "read_meminfo failed - "@ + err,
            CollectError::LoadAvg => "read_loadavg failed - "@ + err,
            CollectError::DatastoreConfig => "read datastore config failed - "@ + err,
            CollectError::BackendConfig => "parsing datastore backend config failed - "@ + err,
            CollectError::FsInfo(path) => "read fs info on "@ + path@ + " failed - "@ + err,
            CollectError::MountedDevice => "find_mounted_device failed - "@ + err,
            CollectError::ZfsDataset(dataset) => "zfs_dataset_stats("@ + dataset@ + ") failed - "@
                + err,
            CollectError::DiskStat(path) => "disk.read_stat "@ + path@ + " failed - "@ + err,
            CollectError::Collection => "collecting host stats panicked: "@ + err,
            CollectError::RrdUpdate => "rrd update panicked: "@ + err,
            CollectError::MetricsSending => "error during metrics sending: "@ + err,
            CollectError::PullMetrics => "error caching pull-style metrics: "@ + err,
        }
    }

    /// The log line for an error.
    pub fn line(&self, err: &str) -> (r: String)
        ensures
            r@ == self.text(err@),
    {
        match self {
            CollectError::NetDev => join2("read_prox_net_dev failed - ", err),
            CollectError::NetworkInterfaces => join2("get_network_interfaces failed - ", err),
            CollectError::ProcStat => join2("read_proc_stat failed - ", err),
            CollectError::MemInfo => join2("read_meminfo failed - ", err),
            CollectError::LoadAvg => join2("read_loadavg failed - ", err),
            CollectError::DatastoreConfig => join2("read datastore config failed - ", err),
            CollectError::BackendConfig => {
                join2("parsing datastore backend config failed - ", err)
            },
            CollectError::FsInfo(path) => {
                join2(join3("read fs info on ", path.as_str(), " failed - ").as_str(), err)
            },
            CollectError::MountedDevice => join2("find_mounted_device failed - ", err),
            CollectError::ZfsDataset(dataset) => {
                join2(join3("zfs_dataset_stats(", dataset.as_str(), ") failed - ").as_str(), err)
            },
            CollectError::DiskStat(path) => {
                join2(join3("disk.read_stat ", path.as_str(), " failed - ").as_str(), err)
            },
            CollectError::Collection => join2("collecting host stats panicked: ", err),
            CollectError::RrdUpdate => join2("rrd update panicked: ", err),
            CollectError::MetricsSending => join2("error during metrics sending: ", err),
            CollectError::PullMetrics => join2("error caching pull-style metrics: ", err),
        }
    }
}

/// Counters are reported for exactly the devices that are links, as they were read, and each
/// as what its link is.
pub proof fn only_links_are_reported(
    devs: Seq<ProcFsNetDev>,
    links: Map<Seq<char>, bool>,
    stat: NetdevStatView,
)
    ensures
        netdev_stats(devs, links).contains(stat) <==> links.dom().contains(stat.device) && stat.ty
            == (if links[stat.device] {
            NetdevType::Physical
        } else {
            NetdevType::Virtual
        }) && exists|i: int|
            {
                &&& 0 <= i < devs.len()
                &&& (#[trigger] devs[i]).device@ == stat.device
                &&& devs[i].receive == stat.receive
                &&& devs[i].send == stat.send
            },
        netdev_stats(devs, links).len() <= devs.len(),
    decreases devs.len(),
{
    if devs.len() > 0 {
        let init = devs.drop_last();
        only_links_are_reported(init, links, stat);
        let before = netdev_stats(init, links);
        let after = netdev_stats(devs, links);
        assert(devs[devs.len() - 1] == devs.last());
        if after.contains(stat) {
            let k = after.index_of(stat);
            if k < before.len() {
                assert(before[k] == stat);
                assert(before.contains(stat));
                let i = choose|i: int|
                    {
                        &&& 0 <= i < init.len()
                        &&& (#[trigger] init[i]).device@ == stat.device
                        &&& init[i].receive == stat.receive
                        &&& init[i].send == stat.send
                    };
                assert(devs[i] == init[i]);
            }
        }
        if links.dom().contains(stat.device) && stat.ty == netdev_type(links[stat.device])
            && exists|i: int|
            {
                &&& 0 <= i < devs.len()
                &&& (#[trigger] devs[i]).device@ == stat.device
                &&& devs[i].receive == stat.receive
                &&& devs[i].send == stat.send
            } {
            let i = choose|i: int|
                {
                    &&& 0 <= i < devs.len()
                    &&& (#[trigger] devs[i]).device@ == stat.device
                    &&& devs[i].receive == stat.receive
                    &&& devs[i].send == stat.send
                };
            if i < init.len() {
                assert(init[i] == devs[i]);
                assert(before.contains(stat));
                let k = before.index_of(stat);
                assert(after[k] == stat);
            } else {
                assert(after[after.len() - 1] == stat);
            }
        }
    }
}

/// The last link of a name is the one that counts, and only names of links are known.
pub proof fn links_are_found_by_name(links: Seq<IpLink>, last: IpLink, name: Seq<char>)
    ensures
        ({
            let more = links_by_name(links.push(last));
            &&& more.dom().contains(last.name@) && more[last.name@] == last.physical
            &&& name != last.name@ ==> more.dom().contains(name) == links_by_name(
                links,
            ).dom().contains(name)
            &&& name != last.name@ && more.dom().contains(name) ==> more[name] == links_by_name(
                links,
            )[name]
            &&& !links_by_name(Seq::empty()).dom().contains(name)
        }),
{
    assert(links.push(last).drop_last() =~= links);
}

} // verus!
