//! Health reporting: the server clock, uptime formatting, and the status
//! shapes the health endpoints fill in.

use vstd::prelude::*;
use crate::strutil::{spec_dec, string_of, u64_dec_chars};

verus! {

/// The recorded server start. Marking it twice keeps the first mark.
pub struct ServerClock {
    pub started_at: Option<u64>,
}

impl ServerClock {
    pub fn new() -> (c: ServerClock)
        ensures
            c.started_at is None,
    {
        ServerClock { started_at: None }
    }
}

/// Records the server's start once; later marks change nothing.
pub fn mark_server_start(clock: &mut ServerClock, now: u64)
    ensures
        final(clock).started_at == (match old(clock).started_at {
            Option::Some(t) => Some(t),
            Option::None => Some(now),
        }),
{
    match clock.started_at {
        Option::Some(_) => {},
        Option::None => {
            clock.started_at = Some(now);
        },
    }
}

/// Seconds the server has been up, zero before the start was marked or
/// for a clock that moved backwards.
pub fn get_uptime(clock: &ServerClock, now: u64) -> (r: u64)
    ensures
        r == (match clock.started_at {
            Option::Some(t) => if now >= t {
                now - t
            } else {
                0
            },
            Option::None => 0,
        }),
{
    match clock.started_at {
        Option::Some(t) => {
            if now >= t {
                now - t
            } else {
                0
            }
        },
        Option::None => 0,
    }
}

/// An uptime rendered in days, hours, minutes and seconds, largest unit
/// first and only from the largest non-zero unit down.
pub open spec fn spec_format_uptime(seconds: u64) -> Seq<char> {
    let days = seconds / 86400;
    let hours = (seconds % 86400) / 3600;
    let minutes = (seconds % 3600) / 60;
    let secs = seconds % 60;
    if days > 0 {
        spec_dec(days as nat) + seq!['d', ' '] + spec_dec(hours as nat) + seq!['h', ' ']
            + spec_dec(minutes as nat) + seq!['m', ' '] + spec_dec(secs as nat) + seq!['s']
    } else if hours > 0 {
        spec_dec(hours as nat) + seq!['h', ' '] + spec_dec(minutes as nat) + seq!['m', ' ']
            + spec_dec(secs as nat) + seq!['s']
    } else if minutes > 0 {
        spec_dec(minutes as nat) + seq!['m', ' '] + spec_dec(secs as nat) + seq!['s']
    } else {
        spec_dec(secs as nat) + seq!['s']
    }
}

pub fn format_uptime(seconds: u64) -> (r: String)
    ensures
        r@ == spec_format_uptime(seconds),
{
    let days = seconds / 86400;
    let hours = (seconds % 86400) / 3600;
    let minutes = (seconds % 3600) / 60;
    let secs = seconds % 60;
    let mut out: Vec<char> = Vec::new();
    if days > 0 {
        push_all(&mut out, &u64_dec_chars(days));
        out.push('d');
        out.push(' ');
    }
    if days > 0 || hours > 0 {
        push_all(&mut out, &u64_dec_chars(hours));
        out.push('h');
        out.push(' ');
    }
    if days > 0 || hours > 0 || minutes > 0 {
        push_all(&mut out, &u64_dec_chars(minutes));
        out.push('m');
        out.push(' ');
    }
    push_all(&mut out, &u64_dec_chars(secs));
    out.push('s');
    proof {
        assert(out@ =~= spec_format_uptime(seconds));
    }
    string_of(&out)
}

/// Appends every character of `src` to `dst`.
pub fn push_all(dst: &mut Vec<char>, src: &Vec<char>)
    ensures
        final(dst)@ == old(dst)@ + src@,
{
    let mut i: usize = 0;
    while i < src.len()
        invariant
            i <= src@.len(),
            dst@ == old(dst)@ + src@.subrange(0, i as int),
        decreases src@.len() - i,
    {
        dst.push(src[i]);
        assert(dst@ =~= old(dst)@ + src@.subrange(0, i + 1 as int));
        i = i + 1;
    }
    proof {
        assert(dst@ =~= old(dst)@ + src@);
    }
}

/// The catalog store's health as an endpoint reports it.
pub struct DatabaseHealth {
    pub connected: bool,
    pub pool_size: u32,
    pub pool_idle: u32,
    pub pool_in_use: u32,
    pub latency_ms: u64,
}

/// The cache's health.
pub struct RedisHealth {
    pub connected: bool,
    pub latency_ms: Option<u64>,
}

/// The object backend's health.
pub struct StorageHealth {
    pub backend: String,
    pub connected: bool,
    pub latency_ms: Option<u64>,
    pub bucket: Option<String>,
    pub replication_enabled: bool,
    pub replication_mode: Option<String>,
    pub replication_bucket: Option<String>,
}

/// The scan worker's health.
pub struct VirusScanHealth {
    pub enabled: bool,
    pub connected: bool,
    pub version: Option<String>,
    pub latency_ms: Option<u64>,
}

/// What the version endpoint reports.
pub struct VersionInfo {
    pub current_version: String,
    pub latest_version: Option<String>,
    pub update_available: bool,
    pub release_url: Option<String>,
    pub release_notes: Option<String>,
    pub published_at: Option<String>,
    pub check_error: Option<String>,
}

} // verus!
