//! The `bot-status` command: counting commands, and the figures it reports.

use vstd::prelude::*;
use crate::dispatch::{Dispatch, module_position};
use crate::error::Error;
use crate::filters::no_such_command_view;
use crate::moderation::{format_span, humantime_text};
use crate::text::{decimal, push_char, push_decimal, push_str, u64_to_string};

verus! {

/// Bytes in a mebibyte.
pub const BYTES_IN_MIB: u64 = 1024 * 1024;

/// The status module's filter: every existing command is counted (the count wraps around),
/// and its name passed on.
pub fn count_command(dis: &Dispatch, counter: &mut u64, name: String) -> (r: Result<String, Error>)
    requires
        dis.well_formed(),
    ensures
        match module_position(dis.modules(), name@) {
            Some(i) if dis.modules()[i].command => (r matches Ok(n) && n@ == name@)
                && *final(counter) == (if *old(counter) == u64::MAX {
                0
            } else {
                (*old(counter) + 1) as u64
            }),
            _ => (r matches Err(e) && e@ == no_such_command_view(name@)) && *final(counter) == *old(
                counter,
            ),
        },
{
    match dis.command_module(name.as_str()) {
        Err(e) => Err(e.into_error()),
        Ok(_) => {
            *counter = counter.wrapping_add(1);
            Ok(name)
        },
    }
}

/// `s` padded on the left with spaces to at least `width` characters.
pub open spec fn pad_left(s: Seq<char>, width: nat) -> Seq<char> {
    if s.len() >= width {
        s
    } else {
        Seq::new((width - s.len()) as nat, |i: int| ' ') + s
    }
}

/// Appends `n` in decimal, right-aligned in `width` characters.
fn push_padded(out: &mut String, n: u64, width: usize)
    ensures
        final(out)@ == old(out)@ + pad_left(decimal(n as nat), width as nat),
{
    let mut digits = String::new();
    push_decimal(&mut digits, n);
    let ghost d = digits@;
    assert(d =~= decimal(n as nat));
    let len = crate::text::chars_of(digits.as_str()).len();
    let ghost start = out@;
    if len < width {
        let mut k: usize = 0;
        while k < width - len
            invariant
                k <= width - len,
                len < width,
                out@ == start + Seq::new(k as nat, |i: int| ' '),
            decreases width - len - k,
        {
            push_char(out, ' ');
            k = k + 1;
            assert(out@ =~= start + Seq::new(k as nat, |i: int| ' '));
        }
    }
    push_str(out, digits.as_str());
    assert(out@ =~= start + pad_left(decimal(n as nat), width as nat));
}

/// The memory line of the status: used and total mebibytes, each right-aligned in five
/// characters.
pub open spec fn memory_text(total: u64, free: u64) -> Seq<char> {
    pad_left(decimal(((total - free) / (BYTES_IN_MIB as int)) as nat), 5) + " / "@ + pad_left(
        decimal((total / BYTES_IN_MIB) as nat),
        5,
    ) + " MiB"@
}

/// The memory line of the status, from the machine's total and free bytes.
pub fn memory_usage(total: u64, free: u64) -> (s: String)
    requires
        free <= total,
    ensures
        s@ == memory_text(total, free),
{
    let used_mib = (total - free) / BYTES_IN_MIB;
    let total_mib = total / BYTES_IN_MIB;
    let mut s = String::new();
    push_padded(&mut s, used_mib, 5);
    push_str(&mut s, " / ");
    push_padded(&mut s, total_mib, 5);
    push_str(&mut s, " MiB");
    s
}

/// The counters of a cache: how often it was read, and how often it had to fetch.
#[derive(Debug, Clone, Copy, PartialEq, Eq, Structural)]
pub struct CacheStats {
    pub accesses: u64,
    pub misses: u64,
}

/// The cache line of the status: misses over accesses.
pub fn cache_usage(stats: CacheStats) -> (s: String)
    ensures
        s@ == decimal(stats.misses as nat) + " / "@ + decimal(stats.accesses as nat),
{
    let mut s = String::new();
    push_decimal(&mut s, stats.misses);
    push_str(&mut s, " / ");
    push_decimal(&mut s, stats.accesses);
    s
}

/// An uptime, written by `humantime` in whole seconds (the fraction is dropped).
pub fn uptime_text(secs: u64, nanos: u32) -> (s: String)
    ensures
        s@ == humantime_text(secs, 0),
{
    format_span(secs, 0)
}

/// The fields of the status report, in order, each with its value.
pub open spec fn status_field_views(
    cpu_load: Seq<char>,
    total: u64,
    free: u64,
    stats: CacheStats,
    up_secs: u64,
    sys_up_secs: u64,
    shard: u64,
    shard_count: u64,
    seen: u64,
) -> Seq<(Seq<char>, Seq<char>)> {
    seq![
        ("CPU Load"@, cpu_load),
        ("Memory Usage"@, memory_text(total, free)),
        ("Cache Statistics (misses/accesses)"@, decimal(stats.misses as nat) + " / "@ + decimal(stats.accesses as nat)),
        ("Uptime"@, humantime_text(up_secs, 0)),
        ("Sys Uptime"@, humantime_text(sys_up_secs, 0)),
        ("Shard Id"@, decimal(shard as nat)),
        ("Shard Count"@, decimal(shard_count as nat)),
        ("Commands Seen"@, decimal(seen as nat)),
    ]
}

fn field(name: &str, value: String) -> (f: (String, String))
    ensures
        f.0@ == name@,
        f.1@ == value@,
{
    (String::from_str(name), value)
}

/// The fields of the status report: the CPU load as the machine reports it, memory in use,
/// the cache counters, the bot's and the machine's uptimes in whole seconds, the shard and the
/// number of shards, and the commands seen.
pub fn status_fields(
    cpu_load: String,
    total: u64,
    free: u64,
    stats: CacheStats,
    up_secs: u64,
    sys_up_secs: u64,
    shard: u64,
    shard_count: u64,
    seen: u64,
) -> (v: Vec<(String, String)>)
    requires
        free <= total,
    ensures
        v@.map_values(|f: (String, String)| (f.0@, f.1@)) == status_field_views(
            cpu_load@,
            total,
            free,
            stats,
            up_secs,
            sys_up_secs,
            shard,
            shard_count,
            seen,
        ),
{
    let mut v: Vec<(String, String)> = Vec::new();
    v.push(field("CPU Load", cpu_load));
    v.push(field("Memory Usage", memory_usage(total, free)));
    v.push(field("Cache Statistics (misses/accesses)", cache_usage(stats)));
    v.push(field("Uptime", uptime_text(up_secs, 0)));
    v.push(field("Sys Uptime", uptime_text(sys_up_secs, 0)));
    v.push(field("Shard Id", u64_to_string(shard)));
    v.push(field("Shard Count", u64_to_string(shard_count)));
    v.push(field("Commands Seen", u64_to_string(seen)));
    assert(v@.map_values(|f: (String, String)| (f.0@, f.1@)) =~= status_field_views(
        cpu_load@,
        total,
        free,
        stats,
        up_secs,
        sys_up_secs,
        shard,
        shard_count,
        seen,
    ));
    v
}

} // verus!
