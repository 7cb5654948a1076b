//! Background jobs: their settings, names and intervals, the records they
//! keep, and the reading of an interval such as `30m`.
//!
//! The work a job does on each tick (database queries, requests) and the
//! timer that drives it belong to the caller.

use vstd::prelude::*;
use crate::json::{get, jstr, text_or_empty, text_or_empty_of, Json};
use crate::text::{
    ends_with, ends_with_char, parse_u64, parsed_u64, str_eq, trim_end_char, trim_end_matches,
};

verus! {

/// Configuration for a background job.
#[derive(Debug, Clone)]
pub struct JobConfig {
    /// Whether the job is enabled.
    pub enabled: bool,
}

/// The default of a job's `enabled` setting.
pub fn default_enabled() -> (r: bool)
    ensures
        r,
{
    true
}

impl Default for JobConfig {
    /// An enabled job.
    fn default() -> (r: JobConfig)
        ensures
            r.enabled,
    {
        JobConfig { enabled: true }
    }
}

/// Job configuration for clear expired items job.
#[derive(Debug, Clone)]
pub struct ClearExpiredConfig {
    pub base: JobConfig,
}

impl Default for ClearExpiredConfig {
    /// An enabled job.
    fn default() -> (r: ClearExpiredConfig)
        ensures
            r.base.enabled,
    {
        ClearExpiredConfig { base: JobConfig::default() }
    }
}

/// Clear expired items job.
///
/// Removes expired videos, nonces, and other cached items from the database.
pub struct ClearExpiredItemsJob {
    config: ClearExpiredConfig,
}

impl ClearExpiredItemsJob {
    /// The settings the job was made with.
    pub closed spec fn settings(&self) -> ClearExpiredConfig {
        self.config
    }

    /// Create a new clear expired items job.
    pub fn new(config: ClearExpiredConfig) -> (r: ClearExpiredItemsJob)
        ensures
            r.settings() == config,
    {
        ClearExpiredItemsJob { config }
    }

    /// The name of the job.
    pub fn name(&self) -> (r: &'static str)
        ensures
            r@ == "clear_expired"@,
    {
        "clear_expired"
    }

    /// Seconds between runs: one hour.
    pub fn interval_secs(&self) -> (r: u64)
        ensures
            r == 3600,
    {
        60 * 60
    }

    /// The job's common settings.
    pub fn config(&self) -> (r: &JobConfig)
        ensures
            *r == self.settings().base,
    {
        &self.config.base
    }
}

/// Instance information.
#[derive(Debug, Clone)]
pub struct Instance {
    pub region: String,
    pub domain: String,
}

/// The region and domain of an instance.
pub open spec fn instance_view(i: Instance) -> (Seq<char>, Seq<char>) {
    (i.region@, i.domain@)
}

/// The instance that an entry of the public instance list stands for, if it
/// is kept: it must carry an `info` object whose `type` is `https`, and its
/// uptime must not be bad (`bad_uptime`, judged by the caller from `info`).
/// The region comes from `info`, the domain from the entry; either is empty
/// where it is missing.
pub open spec fn kept_instance(entry: Json, bad_uptime: bool) -> Option<(Seq<char>, Seq<char>)> {
    match get(entry, "info"@) {
        Some(info) => if jstr(get(info, "type"@)) != Some("https"@) || bad_uptime {
            None
        } else {
            Some((text_or_empty(get(info, "region"@)), text_or_empty(get(entry, "domain"@))))
        },
        None => None,
    }
}

/// The instances kept from the first `n` entries, in order.
pub open spec fn kept_instances(entries: Seq<Json>, bad_uptime: Seq<bool>, n: int) -> Seq<(Seq<char>, Seq<char>)>
    decreases n,
{
    if n <= 0 {
        Seq::empty()
    } else {
        let p = kept_instances(entries, bad_uptime, n - 1);
        match kept_instance(entries[n - 1], bad_uptime[n - 1]) {
            Some(i) => p.push(i),
            None => p,
        }
    }
}

/// Whether an instance's software version is too old to list. Versions are
/// not compared: no instance is outdated.
fn outdated(_target_version: &str, _local_version: &str) -> (r: bool)
    ensures
        !r,
{
    false
}

/// The instance an entry of the public instance list stands for, if it is
/// kept; `bad_uptime` is the caller's judgement of the entry's uptime.
pub fn instance_from_entry(entry: &Json, bad_uptime: bool) -> (r: Option<Instance>)
    ensures
        match r {
            Some(i) => kept_instance(*entry, bad_uptime) == Some(instance_view(i)),
            None => kept_instance(*entry, bad_uptime) is None,
        },
{
    let info = match entry.get("info") {
        Some(info) => info,
        None => return None,
    };
    let https = match info.get("type") {
        Some(t) => match t.as_str() {
            Some(s) => str_eq(s, "https"),
            None => false,
        },
        None => false,
    };
    if !https || bad_uptime {
        return None;
    }
    let version = match info.get("stats") {
        Some(stats) => match stats.get("software") {
            Some(software) => match software.get("version") {
                Some(v) => text_or_empty_of(Some(v)),
                None => String::new(),
            },
            None => String::new(),
        },
        None => String::new(),
    };
    if outdated(version.as_str(), "2024.01.01") {
        return None;
    }
    let region = text_or_empty_of(info.get("region"));
    let domain = text_or_empty_of(entry.get("domain"));
    Some(Instance { region, domain })
}

/// The instances kept from the public instance list, in order;
/// `bad_uptime[i]` is the caller's judgement of the uptime of entry `i`.
pub fn select_instances(entries: &Vec<Json>, bad_uptime: &Vec<bool>) -> (r: Vec<Instance>)
    requires
        bad_uptime@.len() == entries@.len(),
    ensures
        r@.map_values(|i: Instance| instance_view(i)) == kept_instances(
            entries@,
            bad_uptime@,
            entries@.len() as int,
        ),
{
    let mut out: Vec<Instance> = Vec::new();
    let mut k: usize = 0;
    while k < entries.len()
        invariant
            bad_uptime@.len() == entries@.len(),
            k <= entries@.len(),
            out@.map_values(|i: Instance| instance_view(i)) == kept_instances(
                entries@,
                bad_uptime@,
                k as int,
            ),
        decreases entries@.len() - k,
    {
        match instance_from_entry(&entries[k], bad_uptime[k]) {
            Some(i) => {
                let ghost before = out@;
                out.push(i);
                assert(out@.map_values(|i: Instance| instance_view(i)) =~= before.map_values(
                    |i: Instance| instance_view(i),
                ).push(instance_view(out@.last())));
            },
            None => {},
        }
        k = k + 1;
    }
    out
}

/// Job configuration for instance list refresh job.
#[derive(Debug, Clone)]
pub struct InstanceListRefreshConfig {
    pub base: JobConfig,
}

impl Default for InstanceListRefreshConfig {
    /// An enabled job.
    fn default() -> (r: InstanceListRefreshConfig)
        ensures
            r.base.enabled,
    {
        InstanceListRefreshConfig { base: JobConfig::default() }
    }
}

/// Instance list refresh job.
///
/// Refreshes the list of available Invidious instances from the API.
pub struct InstanceListRefreshJob {
    config: InstanceListRefreshConfig,
}

impl InstanceListRefreshJob {
    /// The settings the job was made with.
    pub closed spec fn settings(&self) -> InstanceListRefreshConfig {
        self.config
    }

    /// Create a new instance list refresh job.
    pub fn new(config: InstanceListRefreshConfig) -> (r: InstanceListRefreshJob)
        ensures
            r.settings() == config,
    {
        InstanceListRefreshJob { config }
    }

    /// The name of the job.
    pub fn name(&self) -> (r: &'static str)
        ensures
            r@ == "instance_list_refresh"@,
    {
        "instance_list_refresh"
    }

    /// Seconds between runs: thirty minutes.
    pub fn interval_secs(&self) -> (r: u64)
        ensures
            r == 1800,
    {
        30 * 60
    }

    /// The job's common settings.
    pub fn config(&self) -> (r: &JobConfig)
        ensures
            *r == self.settings().base,
    {
        &self.config.base
    }
}

/// Video notification structure.
#[derive(Debug, Clone)]
pub struct VideoNotification {
    pub video_id: String,
    pub channel_id: String,
    pub published: i64,
}

/// Job configuration for notification job.
#[derive(Debug, Clone)]
pub struct NotificationJobConfig {
    pub base: JobConfig,
    pub enable_user_notifications: bool,
}

/// The default of the setting that turns user notifications on.
pub fn default_user_notifications() -> (r: bool)
    ensures
        r,
{
    true
}

impl Default for NotificationJobConfig {
    /// An enabled job that notifies users.
    fn default() -> (r: NotificationJobConfig)
        ensures
            r.base.enabled,
            r.enable_user_notifications,
    {
        NotificationJobConfig { base: JobConfig::default(), enable_user_notifications: true }
    }
}

/// The name of the notification job.
pub fn notification_job_name() -> (r: &'static str)
    ensures
        r@ == "notification"@,
{
    "notification"
}

/// Seconds between runs of the notification job: one minute.
pub fn notification_job_interval_secs() -> (r: u64)
    ensures
        r == 60,
{
    60
}

/// Job configuration for pull popular videos job.
#[derive(Debug, Clone)]
pub struct PullPopularVideosConfig {
    pub base: JobConfig,
}

impl Default for PullPopularVideosConfig {
    /// An enabled job.
    fn default() -> (r: PullPopularVideosConfig)
        ensures
            r.base.enabled,
    {
        PullPopularVideosConfig { base: JobConfig::default() }
    }
}

/// Pull popular videos job.
///
/// Pulls and caches popular videos from the database.
pub struct PullPopularVideosJob {
    config: PullPopularVideosConfig,
}

impl PullPopularVideosJob {
    /// The settings the job was made with.
    pub closed spec fn settings(&self) -> PullPopularVideosConfig {
        self.config
    }

    /// Create a new pull popular videos job.
    pub fn new(config: PullPopularVideosConfig) -> (r: PullPopularVideosJob)
        ensures
            r.settings() == config,
    {
        PullPopularVideosJob { config }
    }

    /// The name of the job.
    pub fn name(&self) -> (r: &'static str)
        ensures
            r@ == "pull_popular_videos"@,
    {
        "pull_popular_videos"
    }

    /// Seconds between runs: one minute.
    pub fn interval_secs(&self) -> (r: u64)
        ensures
            r == 60,
    {
        60
    }

    /// The job's common settings.
    pub fn config(&self) -> (r: &JobConfig)
        ensures
            *r == self.settings().base,
    {
        &self.config.base
    }
}

/// Job configuration for refresh channels job.
#[derive(Debug, Clone)]
pub struct RefreshChannelsConfig {
    pub base: JobConfig,
    pub full_refresh: bool,
    pub channel_threads: i32,
}

impl Default for RefreshChannelsConfig {
    /// An enabled job with ten threads and no full refresh.
    fn default() -> (r: RefreshChannelsConfig)
        ensures
            r.base.enabled,
            !r.full_refresh,
            r.channel_threads == 10,
    {
        RefreshChannelsConfig { base: JobConfig::default(), full_refresh: false, channel_threads: 10 }
    }
}

/// Refresh channels job.
///
/// Refreshes all channel subscriptions to fetch new videos.
pub struct RefreshChannelsJob {
    config: RefreshChannelsConfig,
}

impl RefreshChannelsJob {
    /// The settings the job was made with.
    pub closed spec fn settings(&self) -> RefreshChannelsConfig {
        self.config
    }

    /// Create a new refresh channels job.
    pub fn new(config: RefreshChannelsConfig) -> (r: RefreshChannelsJob)
        ensures
            r.settings() == config,
    {
        RefreshChannelsJob { config }
    }

    /// The name of the job.
    pub fn name(&self) -> (r: &'static str)
        ensures
            r@ == "refresh_channels"@,
    {
        "refresh_channels"
    }

    /// Seconds between runs: thirty minutes.
    pub fn interval_secs(&self) -> (r: u64)
        ensures
            r == 1800,
    {
        30 * 60
    }

    /// The job's common settings.
    pub fn config(&self) -> (r: &JobConfig)
        ensures
            *r == self.settings().base,
    {
        &self.config.base
    }
}

/// Job configuration for refresh feeds job.
#[derive(Debug, Clone)]
pub struct RefreshFeedsConfig {
    pub base: JobConfig,
    pub feed_threads: i32,
}

impl Default for RefreshFeedsConfig {
    /// An enabled job with ten threads.
    fn default() -> (r: RefreshFeedsConfig)
        ensures
            r.base.enabled,
            r.feed_threads == 10,
    {
        RefreshFeedsConfig { base: JobConfig::default(), feed_threads: 10 }
    }
}

/// Refresh feeds job.
///
/// Refreshes user subscription feeds by updating materialized views.
pub struct RefreshFeedsJob {
    config: RefreshFeedsConfig,
}

impl RefreshFeedsJob {
    /// The settings the job was made with.
    pub closed spec fn settings(&self) -> RefreshFeedsConfig {
        self.config
    }

    /// Create a new refresh feeds job.
    pub fn new(config: RefreshFeedsConfig) -> (r: RefreshFeedsJob)
        ensures
            r.settings() == config,
    {
        RefreshFeedsJob { config }
    }

    /// The name of the job.
    pub fn name(&self) -> (r: &'static str)
        ensures
            r@ == "refresh_feeds"@,
    {
        "refresh_feeds"
    }

    /// Seconds between runs: five seconds.
    pub fn interval_secs(&self) -> (r: u64)
        ensures
            r == 5,
    {
        5
    }

    /// The job's common settings.
    pub fn config(&self) -> (r: &JobConfig)
        ensures
            *r == self.settings().base,
    {
        &self.config.base
    }
}

/// Job configuration for statistics refresh job.
#[derive(Debug, Clone)]
pub struct StatisticsConfig {
    pub base: JobConfig,
}

impl Default for StatisticsConfig {
    /// An enabled job.
    fn default() -> (r: StatisticsConfig)
        ensures
            r.base.enabled,
    {
        StatisticsConfig { base: JobConfig::default() }
    }
}

/// The software that runs the instance.
#[derive(Debug, Clone)]
pub struct SoftwareInfo {
    pub name: String,
    pub version: String,
    pub branch: String,
}

impl Default for SoftwareInfo {
    /// Empty name, version and branch.
    fn default() -> (r: SoftwareInfo)
        ensures
            r.name@ == Seq::<char>::empty(),
            r.version@ == Seq::<char>::empty(),
            r.branch@ == Seq::<char>::empty(),
    {
        SoftwareInfo { name: String::new(), version: String::new(), branch: String::new() }
    }
}

/// User counts of the instance.
#[derive(Debug, Clone)]
pub struct UsageStats {
    pub total: i64,
    pub active_halfyear: i64,
    pub active_month: i64,
}

impl Default for UsageStats {
    /// All counts zero.
    fn default() -> (r: UsageStats)
        ensures
            r.total == 0,
            r.active_halfyear == 0,
            r.active_month == 0,
    {
        UsageStats { total: 0, active_halfyear: 0, active_month: 0 }
    }
}

/// Times of the instance's last updates.
#[derive(Debug, Clone)]
pub struct MetadataStats {
    pub updated_at: i64,
    pub last_channel_refreshed_at: i64,
}

impl Default for MetadataStats {
    /// Both times zero.
    fn default() -> (r: MetadataStats)
        ensures
            r.updated_at == 0,
            r.last_channel_refreshed_at == 0,
    {
        MetadataStats { updated_at: 0, last_channel_refreshed_at: 0 }
    }
}

/// Statistics refresh job.
///
/// Updates instance statistics periodically.
pub struct StatisticsRefreshJob {
    config: StatisticsConfig,
    software_name: String,
    software_version: String,
    software_branch: String,
}

impl StatisticsRefreshJob {
    /// The settings the job was made with.
    pub closed spec fn settings(&self) -> StatisticsConfig {
        self.config
    }

    /// The software the job reports: name, version and branch.
    pub closed spec fn software(&self) -> (Seq<char>, Seq<char>, Seq<char>) {
        (self.software_name@, self.software_version@, self.software_branch@)
    }

    /// Create a new statistics refresh job.
    pub fn new(config: StatisticsConfig, name: String, version: String, branch: String) -> (r: StatisticsRefreshJob)
        ensures
            r.settings() == config,
            r.software() == (name@, version@, branch@),
    {
        StatisticsRefreshJob {
            config,
            software_name: name,
            software_version: version,
            software_branch: branch,
        }
    }

    /// The software the job reports.
    pub fn software_info(&self) -> (r: SoftwareInfo)
        ensures
            (r.name@, r.version@, r.branch@) == self.software(),
    {
        SoftwareInfo {
            name: self.software_name.clone(),
            version: self.software_version.clone(),
            branch: self.software_branch.clone(),
        }
    }

    /// The name of the job.
    pub fn name(&self) -> (r: &'static str)
        ensures
            r@ == "statistics"@,
    {
        "statistics"
    }

    /// Seconds between runs: ten minutes.
    pub fn interval_secs(&self) -> (r: u64)
        ensures
            r == 600,
    {
        10 * 60
    }

    /// The job's common settings.
    pub fn config(&self) -> (r: &JobConfig)
        ensures
            *r == self.settings().base,
    {
        &self.config.base
    }
}

/// Job configuration for subscribe to feeds job.
#[derive(Debug, Clone)]
pub struct SubscribeToFeedsConfig {
    pub base: JobConfig,
    pub pubsub_fibers: i32,
}

/// The default number of concurrent feed subscriptions.
pub fn default_pubsub_fibers() -> (r: i32)
    ensures
        r == 1,
{
    1
}

impl Default for SubscribeToFeedsConfig {
    /// An enabled job with one subscription at a time.
    fn default() -> (r: SubscribeToFeedsConfig)
        ensures
            r.base.enabled,
            r.pubsub_fibers == 1,
    {
        SubscribeToFeedsConfig { base: JobConfig::default(), pubsub_fibers: 1 }
    }
}

/// Subscribe to feeds job.
///
/// Subscribes to PubSubHubbub feeds for channels that haven't been subscribed
/// to in the past 4 days.
pub struct SubscribeToFeedsJob {
    config: SubscribeToFeedsConfig,
}

impl SubscribeToFeedsJob {
    /// The settings the job was made with.
    pub closed spec fn settings(&self) -> SubscribeToFeedsConfig {
        self.config
    }

    /// Create a new subscribe to feeds job.
    pub fn new(config: SubscribeToFeedsConfig) -> (r: SubscribeToFeedsJob)
        ensures
            r.settings() == config,
    {
        SubscribeToFeedsJob { config }
    }

    /// The name of the job.
    pub fn name(&self) -> (r: &'static str)
        ensures
            r@ == "subscribe_to_feeds"@,
    {
        "subscribe_to_feeds"
    }

    /// Seconds between runs: one minute.
    pub fn interval_secs(&self) -> (r: u64)
        ensures
            r == 60,
    {
        60
    }

    /// The job's common settings.
    pub fn config(&self) -> (r: &JobConfig)
        ensures
            *r == self.settings().base,
    {
        &self.config.base
    }
}

// ---------------------------------------------------------------------------
// Intervals
// ---------------------------------------------------------------------------

/// The number of seconds an interval such as `30m`, `2h`, `45s` or `90`
/// stands for: a count with an optional unit; the unit letter is stripped
/// with every copy of it at the end.
pub open spec fn duration_value(s: Seq<char>) -> Option<int> {
    if ends_with_char(s, 'm') {
        match parsed_u64(trim_end_char(s, 'm')) {
            Some(n) => Some(n * 60),
            None => None,
        }
    } else if ends_with_char(s, 'h') {
        match parsed_u64(trim_end_char(s, 'h')) {
            Some(n) => Some(n * 3600),
            None => None,
        }
    } else if ends_with_char(s, 's') {
        match parsed_u64(trim_end_char(s, 's')) {
            Some(n) => Some(n as int),
            None => None,
        }
    } else {
        match parsed_u64(s) {
            Some(n) => Some(n as int),
            None => None,
        }
    }
}

/// Whether the number of seconds an interval stands for, where it stands
/// for one, fits in a `u64`.
pub fn duration_in_range(s: &str) -> (r: bool)
    ensures
        r == (duration_value(s@) matches Some(v) ==> v <= u64::MAX),
{
    if ends_with(s, 'm') {
        match parse_u64(trim_end_matches(s, 'm').as_str()) {
            Some(n) => n <= u64::MAX / 60,
            None => true,
        }
    } else if ends_with(s, 'h') {
        match parse_u64(trim_end_matches(s, 'h').as_str()) {
            Some(n) => n <= u64::MAX / 3600,
            None => true,
        }
    } else {
        true
    }
}

/// An interval that is not a count with an optional unit.
#[derive(Debug, Clone, Copy, PartialEq, Eq, Structural)]
pub struct InvalidDuration;

/// Parse a duration string like `30m` into seconds.
pub fn parse_duration(s: &str) -> (r: Result<u64, InvalidDuration>)
    requires
        duration_value(s@) matches Some(v) ==> v <= u64::MAX,
    ensures
        match duration_value(s@) {
            Some(v) => r == Ok::<u64, InvalidDuration>(v as u64),
            None => r == Err::<u64, InvalidDuration>(InvalidDuration),
        },
{
    if ends_with(s, 'm') {
        match parse_u64(trim_end_matches(s, 'm').as_str()) {
            Some(n) => Ok(n * 60),
            None => Err(InvalidDuration),
        }
    } else if ends_with(s, 'h') {
        match parse_u64(trim_end_matches(s, 'h').as_str()) {
            Some(n) => Ok(n * 3600),
            None => Err(InvalidDuration),
        }
    } else if ends_with(s, 's') {
        match parse_u64(trim_end_matches(s, 's').as_str()) {
            Some(n) => Ok(n),
            None => Err(InvalidDuration),
        }
    } else {
        match parse_u64(s) {
            Some(n) => Ok(n),
            None => Err(InvalidDuration),
        }
    }
}

} // verus!
