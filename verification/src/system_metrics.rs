//! Parsing of Linux `/proc` samples and the integer side of the instance
//! load report: counters, clamped utilization ratios and pool occupancy.

use vstd::prelude::*;

use crate::decimal::{parse_u64, parse_u64_spec};
use crate::lines::{chars_eq, fields_spec, lines_spec, split_fields, split_lines, starts_with, views};
use crate::unicode::chars_of;

verus! {

/// Cumulative CPU time of the host, in clock ticks.
#[derive(Clone, Copy, PartialEq, Eq, Debug)]
pub struct CpuTimes {
    pub total: u64,
    pub idle: u64,
}

/// Admission and routing pressure of this instance.
#[derive(Clone, Copy, PartialEq, Eq, Debug)]
pub struct SystemRuntimeLoad {
    pub tracked_api_keys: u64,
    pub requests_in_current_windows: u64,
    pub in_flight_requests: u64,
    pub routing_in_flight_requests: u64,
    pub tracked_channels: u64,
    pub cooling_down_channels: u64,
    pub half_open_channels: u64,
    pub session_affinity_entries: u64,
}

/// Request-log pipeline backlog and counters.
#[derive(Clone, Copy, PartialEq, Eq, Debug)]
pub struct SystemRequestLogLoad {
    pub spool_pending_bytes: u64,
    pub ingress_backlog_rows_estimate: Option<u64>,
    pub ingress_oldest_age_seconds: Option<u64>,
    pub settlement_backlog_rows: Option<u64>,
    pub settlement_oldest_age_seconds: Option<u64>,
    pub recorded_total: u64,
    pub spooled_total: u64,
    pub projected_rows_total: u64,
    pub projection_deferred_total: u64,
    pub settled_rows_total: u64,
    pub spool_append_failures_total: u64,
    pub ingress_failures_total: u64,
    pub projection_failures_total: u64,
    pub settlement_failures_total: u64,
}

/// Occupancy of a database connection pool.
#[derive(Clone, Copy, PartialEq, Eq, Debug)]
pub struct DatabasePoolCounts {
    pub size: u64,
    pub idle: u64,
    pub in_use: u64,
    pub capacity: u64,
}

pub open spec fn min_nat(a: nat, b: nat) -> nat {
    if a <= b {
        a
    } else {
        b
    }
}

/// `used` out of `capacity`, with `used` clamped to `capacity`; nothing
/// for an empty capacity. A percentage is `100 * .0 / .1`.
pub open spec fn utilization_ratio_spec(used: u64, capacity: u64) -> Option<(u64, u64)> {
    if capacity == 0 {
        None
    } else {
        Some((min_nat(used as nat, capacity as nat) as u64, capacity))
    }
}

pub fn utilization_ratio(used: u64, capacity: u64) -> (ratio: Option<(u64, u64)>)
    ensures
        ratio == utilization_ratio_spec(used, capacity),
{
    if capacity == 0 {
        None
    } else if used <= capacity {
        Some((used, capacity))
    } else {
        Some((capacity, capacity))
    }
}

/// The share of `total` that `used` takes, when both are known and the
/// total is positive.
pub fn percentage_ratio(used: Option<u64>, total: Option<u64>) -> (ratio: Option<(u64, u64)>)
    ensures
        ratio == match (used, total) {
            (Some(used), Some(total)) => utilization_ratio_spec(used, total),
            _ => None,
        },
{
    match (used, total) {
        (Some(used), Some(total)) => utilization_ratio(used, total),
        _ => None,
    }
}

/// Size, idle and in-use connections of a pool (in use never negative).
pub fn database_pool_load(size: u64, idle: u64, capacity: u64) -> (load: DatabasePoolCounts)
    ensures
        load == (DatabasePoolCounts {
            size,
            idle,
            in_use: if size >= idle {
                (size - idle) as u64
            } else {
                0
            },
            capacity,
        }),
{
    let in_use = if size >= idle {
        size - idle
    } else {
        0
    };
    DatabasePoolCounts { size, idle, in_use, capacity }
}

impl DatabasePoolCounts {
    /// Connections in use out of the capacity.
    pub fn utilization(&self) -> (ratio: Option<(u64, u64)>)
        ensures
            ratio == utilization_ratio_spec(self.in_use, self.capacity),
    {
        utilization_ratio(self.in_use, self.capacity)
    }
}

/// A `usize` count as a `u64`, saturating.
pub fn usize_to_u64(value: usize) -> (converted: u64)
    ensures
        converted == value,
{
    value as u64
}

/// Busy host CPU time between two samples, out of all CPU time elapsed;
/// nothing when the counters went backwards or did not move.
pub open spec fn cpu_usage_ratio_spec(previous: CpuTimes, current: CpuTimes) -> Option<(u64, u64)> {
    if current.total < previous.total || current.total == previous.total {
        None
    } else {
        let total = current.total - previous.total;
        let idle_elapsed = if current.idle >= previous.idle {
            current.idle - previous.idle
        } else {
            0
        };
        let idle = min_nat(idle_elapsed as nat, total as nat);
        Some(((total - idle) as u64, total as u64))
    }
}

pub fn cpu_usage_ratio(previous: CpuTimes, current: CpuTimes) -> (ratio: Option<(u64, u64)>)
    ensures
        ratio == cpu_usage_ratio_spec(previous, current),
{
    if current.total <= previous.total {
        return None;
    }
    let total = current.total - previous.total;
    let idle_elapsed = if current.idle >= previous.idle {
        current.idle - previous.idle
    } else {
        0
    };
    let idle = if idle_elapsed <= total {
        idle_elapsed
    } else {
        total
    };
    Some((total - idle, total))
}

/// CPU time spent by this process between two samples, out of all CPU
/// time elapsed; nothing when a counter went backwards or the host counter
/// did not move.
pub open spec fn process_cpu_usage_ratio_spec(
    previous_cpu: CpuTimes,
    current_cpu: CpuTimes,
    previous_process_ticks: u64,
    current_process_ticks: u64,
) -> Option<(u64, u64)> {
    if current_cpu.total <= previous_cpu.total || current_process_ticks < previous_process_ticks {
        None
    } else {
        let total = current_cpu.total - previous_cpu.total;
        let process = min_nat((current_process_ticks - previous_process_ticks) as nat, total as nat);
        Some((process as u64, total as u64))
    }
}

pub fn process_cpu_usage_ratio(
    previous_cpu: CpuTimes,
    current_cpu: CpuTimes,
    previous_process_ticks: u64,
    current_process_ticks: u64,
) -> (ratio: Option<(u64, u64)>)
    ensures
        ratio == process_cpu_usage_ratio_spec(
            previous_cpu,
            current_cpu,
            previous_process_ticks,
            current_process_ticks,
        ),
{
    if current_cpu.total <= previous_cpu.total {
        return None;
    }
    let total = current_cpu.total - previous_cpu.total;
    if current_process_ticks < previous_process_ticks {
        return None;
    }
    let process = current_process_ticks - previous_process_ticks;
    Some((if process <= total { process } else { total }, total))
}

/// Memory in use: the total less what is available (never negative).
pub fn memory_used_bytes(total: Option<u64>, available: Option<u64>) -> (used: Option<u64>)
    ensures
        used == match (total, available) {
            (Some(total), Some(available)) => Some(
                if available >= total {
                    0
                } else {
                    (total - available) as u64
                },
            ),
            _ => None,
        },
{
    match (total, available) {
        (Some(total), Some(available)) => Some(
            if available >= total {
                0
            } else {
                total - available
            },
        ),
        _ => None,
    }
}

/// A `kB` count from `/proc`, in bytes.
pub open spec fn kib_spec(field: Seq<char>) -> Option<u64> {
    match parse_u64_spec(field) {
        Some(value) => if value * 1024 <= u64::MAX {
            Some((value * 1024) as u64)
        } else {
            None
        },
        None => None,
    }
}

pub fn parse_kib(field: &[char]) -> (bytes: Option<u64>)
    ensures
        bytes == kib_spec(field@),
{
    match parse_u64(field) {
        Some(value) => {
            if value <= u64::MAX / 1024 {
                Some(value * 1024)
            } else {
                None
            }
        },
        None => None,
    }
}

pub open spec fn starts_with_spec(s: Seq<char>, prefix: Seq<char>) -> bool {
    prefix.len() <= s.len() && s.take(prefix.len() as int) == prefix
}

/// The first of `lines` that starts with `prefix`.
pub open spec fn first_with_prefix(lines: Seq<Seq<char>>, prefix: Seq<char>) -> Option<Seq<char>>
    decreases lines.len(),
{
    if lines.len() == 0 {
        None
    } else if starts_with_spec(lines[0], prefix) {
        Some(lines[0])
    } else {
        first_with_prefix(lines.drop_first(), prefix)
    }
}

/// Every field parsed as a `u64`, or nothing if one does not parse.
pub open spec fn parse_all(fields: Seq<Seq<char>>) -> Option<Seq<u64>>
    decreases fields.len(),
{
    if fields.len() == 0 {
        Some(Seq::empty())
    } else {
        match (parse_all(fields.drop_last()), parse_u64_spec(fields.last())) {
            (Some(values), Some(value)) => Some(values.push(value)),
            _ => None,
        }
    }
}

pub open spec fn sum(values: Seq<u64>) -> nat
    decreases values.len(),
{
    if values.len() == 0 {
        0
    } else {
        sum(values.drop_last()) + values.last() as nat
    }
}

/// CPU times from the counters of the `cpu ` line: their sum, and idle
/// plus iowait.
pub open spec fn cpu_times_from(counters: Seq<Seq<char>>) -> Option<CpuTimes> {
    match parse_all(counters) {
        None => None,
        Some(values) => if values.len() < 4 || sum(values) > u64::MAX {
            None
        } else {
            Some(
                CpuTimes {
                    total: sum(values) as u64,
                    idle: (values[3] + if values.len() > 4 {
                        values[4] as int
                    } else {
                        0
                    }) as u64,
                },
            )
        },
    }
}

/// The aggregate `cpu ` line of `/proc/stat`: the sum of its first eight
/// counters, and idle plus iowait.
pub open spec fn cpu_times_spec(content: Seq<char>) -> Option<CpuTimes> {
    match first_with_prefix(lines_spec(content), "cpu "@) {
        None => None,
        Some(line) => {
            let fields = fields_spec(line);
            cpu_times_from(
                if fields.len() <= 1 {
                    Seq::empty()
                } else {
                    fields.subrange(1, if fields.len() > 9 { 9 } else { fields.len() as int })
                },
            )
        },
    }
}

proof fn lemma_sum_push(values: Seq<u64>, value: u64)
    ensures
        sum(values.push(value)) == sum(values) + value,
{
    assert(values.push(value).drop_last() =~= values);
}

proof fn lemma_sum_bounds(values: Seq<u64>, i: int, j: int)
    requires
        0 <= i < j < values.len(),
    ensures
        values[i] + values[j] <= sum(values),
    decreases values.len(),
{
    let rest = values.drop_last();
    lemma_sum_push(rest, values.last());
    assert(values =~= rest.push(values.last()));
    if j < values.len() - 1 {
        lemma_sum_bounds(rest, i, j);
    } else {
        lemma_sum_single(rest, i);
    }
}

proof fn lemma_sum_single(values: Seq<u64>, i: int)
    requires
        0 <= i < values.len(),
    ensures
        values[i] <= sum(values),
    decreases values.len(),
{
    let rest = values.drop_last();
    lemma_sum_push(rest, values.last());
    assert(values =~= rest.push(values.last()));
    if i < values.len() - 1 {
        lemma_sum_single(rest, i);
    }
}

fn first_line_with_prefix(lines: &Vec<Vec<char>>, prefix: &[char]) -> (found: Option<usize>)
    ensures
        match found {
            Some(index) => index < lines@.len() && first_with_prefix(views(lines@), prefix@)
                == Some(lines@[index as int]@),
            None => first_with_prefix(views(lines@), prefix@) is None,
        },
{
    let mut index: usize = 0;
    assert(views(lines@).skip(0) =~= views(lines@));
    while index < lines.len()
        invariant
            index <= lines@.len(),
            first_with_prefix(views(lines@), prefix@) == first_with_prefix(
                views(lines@).skip(index as int),
                prefix@,
            ),
        decreases lines@.len() - index,
    {
        let ghost rest = views(lines@).skip(index as int);
        assert(rest[0] == lines@[index as int]@);
        if starts_with(lines[index].as_slice(), prefix) {
            return Some(index);
        }
        assert(rest.drop_first() =~= views(lines@).skip(index + 1));
        index += 1;
    }
    assert(views(lines@).skip(index as int) =~= Seq::<Seq<char>>::empty());
    None
}

/// The host CPU times from the content of `/proc/stat`.
pub fn parse_cpu_times(content: &str) -> (times: Option<CpuTimes>)
    ensures
        times == cpu_times_spec(content@),
{
    let chars = chars_of(content);
    let lines = split_lines(chars.as_slice());
    let prefix = chars_of("cpu ");
    let line = match first_line_with_prefix(&lines, prefix.as_slice()) {
        Some(index) => index,
        None => {
            return None;
        },
    };
    let fields = split_fields(lines[line].as_slice());
    let ghost field_views = views(fields@);
    let end: usize = if fields.len() > 9 {
        9
    } else {
        fields.len()
    };
    let ghost counters = if field_views.len() <= 1 {
        Seq::<Seq<char>>::empty()
    } else {
        field_views.subrange(1, end as int)
    };
    let mut values: Vec<u64> = Vec::new();
    let mut total: u64 = 0;
    let mut index: usize = 1;
    if fields.len() <= 1 {
        assert(counters =~= Seq::<Seq<char>>::empty());
        return None;
    }
    while index < end
        invariant
            1 <= index <= end,
            end <= fields@.len(),
            end == if fields@.len() > 9 { 9 } else { fields@.len() },
            fields@.len() > 1,
            field_views == views(fields@),
            counters == field_views.subrange(1, end as int),
            cpu_times_spec(content@) == cpu_times_from(counters),
            parse_all(counters.take(index - 1)) == Some(values@),
            total == sum(values@),
        decreases end - index,
    {
        let parsed = parse_u64(fields[index].as_slice());
        proof {
            assert(counters.take(index as int).drop_last() =~= counters.take(index - 1));
            assert(counters.take(index as int).last() == fields@[index as int]@);
        }
        match parsed {
            Some(value) => {
                proof {
                    lemma_sum_push(values@, value);
                }
                if total > u64::MAX - value {
                    // The sum of every counter exceeds `u64` once this one does.
                    let ghost seen = values@.push(value);
                    values.push(value);
                    proof {
                        lemma_parse_all_sum_exceeds(counters, index as int, seen);
                    }
                    return None;
                }
                total = total + value;
                values.push(value);
            },
            None => {
                proof {
                    lemma_parse_all_fails(counters, index as int);
                }
                return None;
            },
        }
        index += 1;
    }
    proof {
        assert(counters.take(end - 1) =~= counters);
    }
    if values.len() < 4 {
        return None;
    }
    proof {
        if values@.len() > 4 {
            lemma_sum_bounds(values@, 3, 4);
        }
    }
    let idle = if values.len() > 4 {
        values[3] + values[4]
    } else {
        values[3]
    };
    Some(CpuTimes { total, idle })
}

proof fn lemma_parse_all_prefix(fields: Seq<Seq<char>>, k: int)
    requires
        0 <= k <= fields.len(),
        parse_all(fields) is Some,
    ensures
        parse_all(fields.take(k)) is Some,
        parse_all(fields.take(k))->0 == parse_all(fields)->0.take(k),
        parse_all(fields)->0.len() == fields.len(),
    decreases fields.len() - k,
{
    lemma_parse_all_len(fields);
    if k < fields.len() {
        lemma_parse_all_prefix(fields, k + 1);
        assert(fields.take(k + 1).drop_last() =~= fields.take(k));
        assert(parse_all(fields)->0.take(k + 1).drop_last() =~= parse_all(fields)->0.take(k));
    } else {
        assert(fields.take(k) =~= fields);
        assert(parse_all(fields)->0.take(k) =~= parse_all(fields)->0);
    }
}

proof fn lemma_parse_all_len(fields: Seq<Seq<char>>)
    ensures
        parse_all(fields) is Some ==> parse_all(fields)->0.len() == fields.len(),
    decreases fields.len(),
{
    if fields.len() > 0 {
        lemma_parse_all_len(fields.drop_last());
    }
}

proof fn lemma_parse_all_fails(fields: Seq<Seq<char>>, k: int)
    requires
        1 <= k <= fields.len(),
        parse_all(fields.take(k)) is None,
    ensures
        parse_all(fields) is None,
{
    if parse_all(fields) is Some {
        lemma_parse_all_prefix(fields, k);
    }
}

proof fn lemma_sum_prefix(values: Seq<u64>, k: int)
    requires
        0 <= k <= values.len(),
    ensures
        sum(values.take(k)) <= sum(values),
    decreases values.len() - k,
{
    if k < values.len() {
        lemma_sum_prefix(values, k + 1);
        assert(values.take(k + 1).drop_last() =~= values.take(k));
    } else {
        assert(values.take(k) =~= values);
    }
}

proof fn lemma_parse_all_sum_exceeds(fields: Seq<Seq<char>>, k: int, seen: Seq<u64>)
    requires
        1 <= k <= fields.len(),
        parse_all(fields.take(k)) == Some(seen),
        sum(seen) > u64::MAX,
    ensures
        parse_all(fields) is Some ==> sum(parse_all(fields)->0) > u64::MAX,
{
    if parse_all(fields) is Some {
        lemma_parse_all_prefix(fields, k);
        lemma_sum_prefix(parse_all(fields)->0, k);
    }
}

/// The last position of `c` in `s`.
pub open spec fn last_index_of(s: Seq<char>, c: char) -> Option<int>
    decreases s.len(),
{
    if s.len() == 0 {
        None
    } else if s.last() == c {
        Some(s.len() - 1)
    } else {
        last_index_of(s.drop_last(), c)
    }
}

/// User plus system ticks of a process, from its `/proc/<pid>/stat`
/// line: the 12th and 13th fields after the parenthesized command name.
pub open spec fn process_cpu_ticks_spec(content: Seq<char>) -> Option<u64> {
    match last_index_of(content, ')') {
        None => None,
        Some(end) => {
            let fields = fields_spec(content.skip(end + 1));
            if fields.len() < 13 {
                None
            } else {
                match (parse_u64_spec(fields[11]), parse_u64_spec(fields[12])) {
                    (Some(user), Some(system)) => if user + system <= u64::MAX {
                        Some((user + system) as u64)
                    } else {
                        None
                    },
                    _ => None,
                }
            }
        },
    }
}

fn last_position(s: &[char], c: char) -> (found: Option<usize>)
    ensures
        match found {
            Some(index) => index < s@.len() && last_index_of(s@, c) == Some(index as int),
            None => last_index_of(s@, c) is None,
        },
{
    let mut end = s.len();
    assert(s@.take(s@.len() as int) =~= s@);
    while end > 0
        invariant
            end <= s@.len(),
            last_index_of(s@, c) == last_index_of(s@.take(end as int), c),
        decreases end,
    {
        assert(s@.take(end as int).drop_last() =~= s@.take(end - 1));
        if s[end - 1] == c {
            return Some(end - 1);
        }
        end -= 1;
    }
    None
}

/// The CPU ticks this process has used, from `/proc/self/stat`.
pub fn parse_process_cpu_ticks(content: &str) -> (ticks: Option<u64>)
    ensures
        ticks == process_cpu_ticks_spec(content@),
{
    let chars = chars_of(content);
    let end = match last_position(chars.as_slice(), ')') {
        Some(end) => end,
        None => {
            return None;
        },
    };
    let rest = &chars.as_slice()[end + 1..chars.len()];
    assert(rest@ =~= chars@.skip(end + 1));
    let fields = split_fields(rest);
    if fields.len() < 13 {
        return None;
    }
    assert(views(fields@)[11] == fields@[11]@ && views(fields@)[12] == fields@[12]@);
    let user = match parse_u64(fields[11].as_slice()) {
        Some(user) => user,
        None => {
            return None;
        },
    };
    let system = match parse_u64(fields[12].as_slice()) {
        Some(system) => system,
        None => {
            return None;
        },
    };
    user.checked_add(system)
}

/// What `/proc/meminfo` has given so far: total, available and free bytes;
/// nothing once a line is blank or a wanted label has no value.
pub open spec fn memory_scan(lines: Seq<Seq<char>>) -> Option<(Option<u64>, Option<u64>, Option<u64>)>
    decreases lines.len(),
{
    if lines.len() == 0 {
        Some((None, None, None))
    } else {
        match memory_scan(lines.drop_last()) {
            None => None,
            Some((total, available, free)) => {
                let fields = fields_spec(lines.last());
                if fields.len() == 0 {
                    None
                } else if fields[0] == "MemTotal:"@ {
                    if fields.len() < 2 {
                        None
                    } else {
                        Some((kib_spec(fields[1]), available, free))
                    }
                } else if fields[0] == "MemAvailable:"@ {
                    if fields.len() < 2 {
                        None
                    } else {
                        Some((total, kib_spec(fields[1]), free))
                    }
                } else if fields[0] == "MemFree:"@ {
                    if fields.len() < 2 {
                        None
                    } else {
                        Some((total, available, kib_spec(fields[1])))
                    }
                } else {
                    Some((total, available, free))
                }
            },
        }
    }
}

/// Total and available host memory in bytes (free memory when the kernel
/// gives no available figure).
pub open spec fn memory_spec(content: Seq<char>) -> Option<(u64, u64)> {
    match memory_scan(lines_spec(content)) {
        Some((Some(total), available, free)) => match (if available is Some {
            available
        } else {
            free
        }) {
            Some(available) => Some((total, available)),
            None => None,
        },
        _ => None,
    }
}

/// Host memory from the content of `/proc/meminfo`.
pub fn parse_memory(content: &str) -> (memory: Option<(u64, u64)>)
    ensures
        memory == memory_spec(content@),
{
    let chars = chars_of(content);
    let lines = split_lines(chars.as_slice());
    let total_label = chars_of("MemTotal:");
    let available_label = chars_of("MemAvailable:");
    let free_label = chars_of("MemFree:");
    let mut total: Option<u64> = None;
    let mut available: Option<u64> = None;
    let mut free: Option<u64> = None;
    let mut index: usize = 0;
    while index < lines.len()
        invariant
            index <= lines@.len(),
            total_label@ == "MemTotal:"@,
            available_label@ == "MemAvailable:"@,
            free_label@ == "MemFree:"@,
            lines_spec(content@) == views(lines@),
            memory_scan(views(lines@).take(index as int)) == Some((total, available, free)),
        decreases lines@.len() - index,
    {
        let fields = split_fields(lines[index].as_slice());
        proof {
            assert(views(lines@).take(index + 1).drop_last() =~= views(lines@).take(index as int));
            assert(views(lines@).take(index + 1).last() == lines@[index as int]@);
        }
        if fields.len() == 0 {
            proof {
                lemma_memory_scan_stops(views(lines@), index + 1);
            }
            return None;
        }
        assert(views(fields@)[0] == fields@[0]@);
        let label = fields[0].as_slice();
        if chars_eq(label, total_label.as_slice()) {
            if fields.len() < 2 {
                proof {
                    lemma_memory_scan_stops(views(lines@), index + 1);
                }
                return None;
            }
            assert(views(fields@)[1] == fields@[1]@);
            total = parse_kib(fields[1].as_slice());
        } else if chars_eq(label, available_label.as_slice()) {
            if fields.len() < 2 {
                proof {
                    lemma_memory_scan_stops(views(lines@), index + 1);
                }
                return None;
            }
            assert(views(fields@)[1] == fields@[1]@);
            available = parse_kib(fields[1].as_slice());
        } else if chars_eq(label, free_label.as_slice()) {
            if fields.len() < 2 {
                proof {
                    lemma_memory_scan_stops(views(lines@), index + 1);
                }
                return None;
            }
            assert(views(fields@)[1] == fields@[1]@);
            free = parse_kib(fields[1].as_slice());
        }
        index += 1;
    }
    assert(views(lines@).take(lines@.len() as int) =~= views(lines@));
    let total = match total {
        Some(total) => total,
        None => {
            return None;
        },
    };
    let available = match available {
        Some(available) => available,
        None => match free {
            Some(free) => free,
            None => {
                return None;
            },
        },
    };
    Some((total, available))
}

proof fn lemma_memory_scan_stops(lines: Seq<Seq<char>>, k: int)
    requires
        1 <= k <= lines.len(),
        memory_scan(lines.take(k)) is None,
    ensures
        memory_scan(lines) is None,
    decreases lines.len() - k,
{
    if k < lines.len() {
        assert(lines.take(k + 1).drop_last() =~= lines.take(k));
        lemma_memory_scan_stops(lines, k + 1);
    } else {
        assert(lines.take(k) =~= lines);
    }
}

/// Resident memory (bytes) and thread count from `/proc/self/status`, the
/// last line of each kind counting.
pub open spec fn process_status_scan(lines: Seq<Seq<char>>) -> (Option<u64>, Option<u64>)
    decreases lines.len(),
{
    if lines.len() == 0 {
        (None, None)
    } else {
        let (resident, threads) = process_status_scan(lines.drop_last());
        let fields = fields_spec(lines.last());
        if fields.len() > 0 && fields[0] == "VmRSS:"@ {
            (if fields.len() > 1 {
                kib_spec(fields[1])
            } else {
                None
            }, threads)
        } else if fields.len() > 0 && fields[0] == "Threads:"@ {
            (resident, if fields.len() > 1 {
                parse_u64_spec(fields[1])
            } else {
                None
            })
        } else {
            (resident, threads)
        }
    }
}

/// Resident memory and threads of this process.
pub fn parse_process_status(content: &str) -> (status: (Option<u64>, Option<u64>))
    ensures
        status == process_status_scan(lines_spec(content@)),
{
    let chars = chars_of(content);
    let lines = split_lines(chars.as_slice());
    let resident_label = chars_of("VmRSS:");
    let threads_label = chars_of("Threads:");
    let mut resident: Option<u64> = None;
    let mut threads: Option<u64> = None;
    let mut index: usize = 0;
    while index < lines.len()
        invariant
            index <= lines@.len(),
            resident_label@ == "VmRSS:"@,
            threads_label@ == "Threads:"@,
            process_status_scan(views(lines@).take(index as int)) == (resident, threads),
        decreases lines@.len() - index,
    {
        let fields = split_fields(lines[index].as_slice());
        proof {
            assert(views(lines@).take(index + 1).drop_last() =~= views(lines@).take(index as int));
            assert(views(lines@).take(index + 1).last() == lines@[index as int]@);
        }
        if fields.len() > 0 {
            assert(views(fields@)[0] == fields@[0]@);
            if chars_eq(fields[0].as_slice(), resident_label.as_slice()) {
                resident = if fields.len() > 1 {
                    assert(views(fields@)[1] == fields@[1]@);
                    parse_kib(fields[1].as_slice())
                } else {
                    None
                };
            } else if chars_eq(fields[0].as_slice(), threads_label.as_slice()) {
                threads = if fields.len() > 1 {
                    assert(views(fields@)[1] == fields@[1]@);
                    parse_u64(fields[1].as_slice())
                } else {
                    None
                };
            }
        }
        index += 1;
    }
    assert(views(lines@).take(lines@.len() as int) =~= views(lines@));
    (resident, threads)
}

} // verus!
