//! Configuration: the parts of the server's settings that are plain values,
//! the defaults of the settings file, and the database address built from
//! them.

use vstd::prelude::*;
use crate::text::{nat_text, push_str, push_u64};

verus! {

/// Database configuration.
#[derive(Debug, Clone)]
pub struct DBConfig {
    pub user: String,
    pub password: String,
    pub host: String,
    pub port: u16,
    pub dbname: String,
}

/// Socket binding configuration for UNIX sockets.
#[derive(Debug, Clone)]
pub struct SocketBindingConfig {
    pub path: String,
    pub permissions: String,
}

/// HTTP proxy configuration.
#[derive(Debug, Clone)]
pub struct HTTPProxyConfig {
    pub user: String,
    pub password: String,
    pub host: String,
    pub port: u16,
}

/// Invidious companion configuration.
#[derive(Debug, Clone)]
pub struct CompanionConfig {
    pub private_url: String,
    pub public_url: String,
    pub builtin_proxy: bool,
}

/// Jobs configuration.
#[derive(Debug, Clone)]
pub struct JobsConfig {
    pub channel_threads: i32,
    pub channel_refresh_interval: String,
    pub feed_threads: i32,
    pub full_refresh: bool,
}

impl Default for JobsConfig {
    /// One channel thread refreshing every 30 minutes, one feed thread, no
    /// full refresh.
    fn default() -> (r: JobsConfig)
        ensures
            r.channel_threads == 1,
            r.channel_refresh_interval@ == "30m"@,
            r.feed_threads == 1,
            !r.full_refresh,
    {
        JobsConfig {
            channel_threads: 1,
            channel_refresh_interval: "30m".to_owned(),
            feed_threads: 1,
            full_refresh: false,
        }
    }
}

/// The default of a setting that is on unless turned off.
pub fn default_true() -> (r: bool)
    ensures
        r,
{
    true
}

/// The default interface locale.
pub fn default_locale() -> (r: String)
    ensures
        r@ == "en-US"@,
{
    "en-US".to_owned()
}

/// The default number of results per page.
pub fn default_max_results() -> (r: i32)
    ensures
        r == 40,
{
    40
}

/// The default player style.
pub fn default_player_style() -> (r: String)
    ensures
        r@ == "invidious"@,
{
    "invidious".to_owned()
}

/// The default video quality.
pub fn default_quality() -> (r: String)
    ensures
        r@ == "dash"@,
{
    "dash".to_owned()
}

/// The default quality of DASH playback.
pub fn default_quality_dash() -> (r: String)
    ensures
        r@ == "auto"@,
{
    "auto".to_owned()
}

/// The default content region.
pub fn default_region() -> (r: String)
    ensures
        r@ == "US"@,
{
    "US".to_owned()
}

/// The default order of subscription feeds.
pub fn default_sort() -> (r: String)
    ensures
        r@ == "published"@,
{
    "published".to_owned()
}

/// The default player volume.
pub fn default_volume() -> (r: i32)
    ensures
        r == 100,
{
    100
}

/// The default number of channel refresh threads.
pub fn default_channel_threads() -> (r: i32)
    ensures
        r == 1,
{
    1
}

/// The default interval between channel refreshes.
pub fn default_channel_refresh_interval() -> (r: String)
    ensures
        r@ == "30m"@,
{
    "30m".to_owned()
}

/// The default number of feed refresh threads.
pub fn default_feed_threads() -> (r: i32)
    ensures
        r == 1,
{
    1
}

/// The default log output.
pub fn default_output() -> (r: String)
    ensures
        r@ == "STDOUT"@,
{
    "STDOUT".to_owned()
}

/// The default log level.
pub fn default_log_level() -> (r: String)
    ensures
        r@ == "info"@,
{
    "info".to_owned()
}

/// The default HSTS setting.
pub fn default_hsts() -> (r: Option<bool>)
    ensures
        r == Some(true),
{
    Some(true)
}

/// The default listening port.
pub fn default_port() -> (r: u16)
    ensures
        r == 3000,
{
    3000
}

/// The default address to bind.
pub fn default_host_binding() -> (r: String)
    ensures
        r@ == "0.0.0.0"@,
{
    "0.0.0.0".to_owned()
}

/// The default size of the database pool.
pub fn default_pool_size() -> (r: i32)
    ensures
        r == 100,
{
    100
}

/// The default limit on playlist length.
pub fn default_playlist_length_limit() -> (r: i32)
    ensures
        r == 500,
{
    500
}

/// The database address: the one given outright, else one built from the
/// database settings, else nothing.
pub open spec fn database_url_text(url: Option<Seq<char>>, db: Option<DBConfig>) -> Seq<char> {
    match url {
        Some(u) => u,
        None => match db {
            Some(d) => "postgres://"@ + d.user@ + ":"@ + d.password@ + "@"@ + d.host@ + ":"@
                + nat_text(d.port as nat) + "/"@ + d.dbname@,
            None => Seq::empty(),
        },
    }
}

/// The view of an optional string slice.
pub open spec fn opt_text(o: Option<&str>) -> Option<Seq<char>> {
    match o {
        Some(s) => Some(s@),
        None => None,
    }
}

/// The value behind an optional reference to database settings.
pub open spec fn opt_db(o: Option<&DBConfig>) -> Option<DBConfig> {
    match o {
        Some(d) => Some(*d),
        None => None,
    }
}

/// Get the database URL from the configured address and database settings.
pub fn database_url(url: Option<&str>, db: Option<&DBConfig>) -> (r: String)
    ensures
        r@ == database_url_text(opt_text(url), opt_db(db)),
{
    if let Some(u) = url {
        return u.to_owned();
    }
    if let Some(d) = db {
        let mut r = "postgres://".to_owned();
        push_str(&mut r, d.user.as_str());
        push_str(&mut r, ":");
        push_str(&mut r, d.password.as_str());
        push_str(&mut r, "@");
        push_str(&mut r, d.host.as_str());
        push_str(&mut r, ":");
        push_u64(&mut r, d.port as u64);
        push_str(&mut r, "/");
        push_str(&mut r, d.dbname.as_str());
        return r;
    }
    String::new()
}

} // verus!
