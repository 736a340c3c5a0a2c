//! System metrics: processor times, temperature and memory out of what the system tells.
use crate::text::{parse_i32, parse_u64, split_lines, split_words, starts_with, trim};
use vstd::prelude::*;

verus! {

broadcast use vstd::string::group_string_axioms;

/// How often metrics are collected, in seconds.
pub const METRICS_INTERVAL_SECS: u64 = 60;

/// Time between two looks at the stop flag, in milliseconds.
pub const METRICS_TICK_MS: u64 = 100;

// ---------------------------------------------------------------------------
// Processor
// ---------------------------------------------------------------------------

/// Processor times since the start of the system.
#[derive(Debug, Clone, Copy, PartialEq, Eq, Structural)]
pub struct CpuTimes {
    pub idle: u128,
    pub total: u128,
}

pub open spec fn sum(v: Seq<nat>) -> nat
    decreases v.len(),
{
    if v.len() == 0 {
        0
    } else {
        sum(v.drop_last()) + v.last()
    }
}

/// All words but the first.
pub open spec fn behind_first(words: Seq<Seq<char>>) -> Seq<Seq<char>> {
    if words.len() == 0 {
        words
    } else {
        words.drop_first()
    }
}

/// The numbers of a line of processor times.
pub open spec fn cpu_values(line: Seq<char>) -> Seq<nat> {
    crate::text::numbers(behind_first(crate::text::words(line)), u64::MAX as nat)
}

/// The numbers that count, as many as there are: user, nice, system, idle,
/// waiting for input and output, interrupts and soft interrupts.
pub open spec fn counted(values: Seq<nat>) -> Seq<nat> {
    if values.len() < 7 {
        values
    } else {
        values.take(7)
    }
}

/// Idle time and total time out of the numbers of a line; `None` where there are too few.
pub open spec fn times_of(values: Seq<nat>) -> Option<(nat, nat)> {
    if values.len() < 4 {
        None
    } else {
        Some(
            (
                values[3] + if values.len() > 4 {
                    values[4]
                } else {
                    0
                },
                sum(counted(values)),
            ),
        )
    }
}

/// Idle time and total time out of the first line of `/proc/stat`.
pub open spec fn cpu_times(stat: Seq<char>) -> Option<(nat, nat)> {
    let lines = crate::text::lines(stat);
    if lines.len() > 0 && "cpu "@.is_prefix_of(lines[0]) {
        times_of(cpu_values(lines[0]))
    } else {
        None
    }
}

pub open spec fn as_nats(v: Seq<u64>) -> Seq<nat> {
    v.map_values(|n: u64| n as nat)
}

/// The numbers among the words behind the first.
fn numbers_behind_first(words: &Vec<&str>) -> (values: Vec<u64>)
    ensures
        as_nats(values@) == crate::text::numbers(
            behind_first(crate::text::views(words@)),
            u64::MAX as nat,
        ),
{
    let mut values: Vec<u64> = Vec::new();
    let ghost rest = behind_first(crate::text::views(words@));
    let mut i: usize = 1;
    assert(as_nats(values@) =~= crate::text::numbers(rest.take(0), u64::MAX as nat));
    if words.len() == 0 {
        assert(rest =~= rest.take(0));
        return values;
    }
    while i < words.len()
        invariant
            1 <= i <= words@.len(),
            rest == behind_first(crate::text::views(words@)),
            as_nats(values@) == crate::text::numbers(rest.take(i - 1), u64::MAX as nat),
        decreases words@.len() - i,
    {
        assert(rest.take(i as int).drop_last() =~= rest.take(i - 1));
        assert(rest.take(i as int).last() == words@[i as int]@);
        let ghost before = values@;
        if let Some(n) = parse_u64(words[i]) {
            values.push(n);
            assert(as_nats(values@) =~= as_nats(before).push(n as nat));
        }
        i += 1;
    }
    assert(rest.take(rest.len() as int) =~= rest);
    values
}

/// The sum of the first `count` numbers.
fn sum_first(values: &Vec<u64>, count: usize) -> (total: u128)
    requires
        count <= values@.len(),
        count <= 7,
    ensures
        total == sum(as_nats(values@).take(count as int)),
{
    let ghost all = as_nats(values@);
    let mut total: u128 = 0;
    let mut i: usize = 0;
    while i < count
        invariant
            i <= count,
            count <= values@.len(),
            count <= 7,
            all == as_nats(values@),
            total == sum(all.take(i as int)),
            total <= i * 0xFFFF_FFFF_FFFF_FFFF,
        decreases count - i,
    {
        assert(all.take(i + 1).drop_last() =~= all.take(i as int));
        assert(all.take(i + 1).last() == values@[i as int]);
        total = total + values[i] as u128;
        i += 1;
    }
    total
}

/// Reads the processor times out of the text of `/proc/stat`.
pub fn read_cpu_stats_raw(stat: &str) -> (times: Option<CpuTimes>)
    ensures
        match times {
            Some(t) => cpu_times(stat@) == Some((t.idle as nat, t.total as nat)),
            None => cpu_times(stat@) is None,
        },
{
    let lines = split_lines(stat);
    if lines.len() == 0 {
        return None;
    }
    assert(crate::text::views(lines@)[0] == lines@[0]@);
    if !starts_with(lines[0], "cpu ") {
        return None;
    }
    let words = split_words(lines[0]);
    let values = numbers_behind_first(&words);
    if values.len() < 4 {
        return None;
    }
    let ghost all = as_nats(values@);
    assert(all == cpu_values(lines@[0]@));
    assert(all[3] == values@[3]);
    let mut idle: u128 = values[3] as u128;
    if values.len() > 4 {
        assert(all[4] == values@[4]);
        idle = idle + values[4] as u128;
    }
    let count: usize = if values.len() < 7 {
        values.len()
    } else {
        7
    };
    assert(all.take(count as int) =~= counted(all));
    let total = sum_first(&values, count);
    Some(CpuTimes { idle, total })
}

/// How far the processor times have advanced between two readings: not at all where they went
/// back.
pub fn cpu_advance(first: CpuTimes, second: CpuTimes) -> (advance: CpuTimes)
    ensures
        advance.idle == if second.idle >= first.idle {
            second.idle - first.idle
        } else {
            0
        },
        advance.total == if second.total >= first.total {
            second.total - first.total
        } else {
            0
        },
{
    CpuTimes {
        idle: if second.idle >= first.idle {
            second.idle - first.idle
        } else {
            0
        },
        total: if second.total >= first.total {
            second.total - first.total
        } else {
            0
        },
    }
}

/// Reads the temperature in thousandths of a degree out of the text of a thermal zone.
pub fn read_cpu_temperature(text: &str) -> (millidegrees: Option<i32>)
    ensures
        match millidegrees {
            Some(t) => crate::text::signed_value(
                crate::text::trim_end(crate::text::trim_start(text@)),
                i32::MAX as nat,
            ) == Some(t as int),
            None => crate::text::signed_value(
                crate::text::trim_end(crate::text::trim_start(text@)),
                i32::MAX as nat,
            ) is None,
        },
{
    parse_i32(trim(text))
}

// ---------------------------------------------------------------------------
// Memory
// ---------------------------------------------------------------------------

/// The number in the second word of a line such as `MemTotal:  1234567 kB`.
pub open spec fn meminfo_value(line: Seq<char>) -> Option<nat> {
    let words = crate::text::words(line);
    if words.len() > 1 {
        crate::text::unsigned_value(words[1], u64::MAX as nat)
    } else {
        None
    }
}

pub fn parse_meminfo_value(line: &str) -> (value: Option<u64>)
    ensures
        match value {
            Some(v) => meminfo_value(line@) == Some(v as nat),
            None => meminfo_value(line@) is None,
        },
{
    let words = split_words(line);
    if words.len() > 1 {
        assert(crate::text::views(words@)[1] == words@[1]@);
        parse_u64(words[1])
    } else {
        None
    }
}

/// Total and available memory out of the lines of `/proc/meminfo`: what the last line of each
/// kind says, or nothing where one of them holds no number.
pub open spec fn meminfo(lines: Seq<Seq<char>>) -> Option<(nat, nat)>
    decreases lines.len(),
{
    if lines.len() == 0 {
        Some((0, 0))
    } else {
        let line = lines.last();
        match (meminfo(lines.drop_last()), meminfo_value(line)) {
            (Some((total, available)), value) => if "MemTotal:"@.is_prefix_of(line) {
                match value {
                    Some(v) => Some((v, available)),
                    None => None,
                }
            } else if "MemAvailable:"@.is_prefix_of(line) {
                match value {
                    Some(v) => Some((total, v)),
                    None => None,
                }
            } else {
                Some((total, available))
            },
            (None, _) => None,
        }
    }
}

/// Memory in kilobytes.
#[derive(Debug, Clone, Copy, PartialEq, Eq, Structural)]
pub struct MemoryUse {
    pub total_kb: u64,
    pub available_kb: u64,
    /// What is not available.
    pub used_kb: u64,
}

impl MemoryUse {
    pub fn available_mb(&self) -> (mb: u64)
        ensures
            mb == self.available_kb / 1024,
    {
        self.available_kb / 1024
    }

    pub fn total_mb(&self) -> (mb: u64)
        ensures
            mb == self.total_kb / 1024,
    {
        self.total_kb / 1024
    }
}

/// Memory use out of the text of `/proc/meminfo`.
pub open spec fn memory_use(text: Seq<char>) -> Option<(nat, nat, nat)> {
    match meminfo(crate::text::lines(text)) {
        Some((total, available)) => if total == 0 {
            None
        } else {
            Some(
                (
                    total,
                    available,
                    if total >= available {
                        (total - available) as nat
                    } else {
                        0
                    },
                ),
            )
        },
        None => None,
    }
}

/// A line without a number has the whole text refused.
proof fn refused_stays_refused(lines: Seq<Seq<char>>, n: int)
    requires
        0 <= n <= lines.len(),
        meminfo(lines.take(n)) is None,
    ensures
        meminfo(lines) is None,
    decreases lines.len() - n,
{
    if n < lines.len() {
        assert(lines.take(n + 1).drop_last() =~= lines.take(n));
        refused_stays_refused(lines, n + 1);
    } else {
        assert(lines.take(n) =~= lines);
    }
}

/// Reads the memory use out of the text of `/proc/meminfo`.
pub fn read_memory_usage(text: &str) -> (usage: Option<MemoryUse>)
    ensures
        match usage {
            Some(m) => memory_use(text@) == Some(
                (m.total_kb as nat, m.available_kb as nat, m.used_kb as nat),
            ),
            None => memory_use(text@) is None,
        },
{
    let lines = split_lines(text);
    let ghost all = crate::text::lines(text@);
    let mut total_kb: u64 = 0;
    let mut available_kb: u64 = 0;
    let mut i: usize = 0;
    while i < lines.len()
        invariant
            i <= lines@.len(),
            all == crate::text::views(lines@),
            all == crate::text::lines(text@),
            meminfo(all.take(i as int)) == Some((total_kb as nat, available_kb as nat)),
        decreases lines@.len() - i,
    {
        assert(all.take(i + 1).drop_last() =~= all.take(i as int));
        assert(all.take(i + 1).last() == lines@[i as int]@);
        let line = lines[i];
        if starts_with(line, "MemTotal:") {
            match parse_meminfo_value(line) {
                Some(v) => {
                    total_kb = v;
                },
                None => {
                    proof {
                        refused_stays_refused(all, i + 1);
                    }
                    return None;
                },
            }
        } else if starts_with(line, "MemAvailable:") {
            match parse_meminfo_value(line) {
                Some(v) => {
                    available_kb = v;
                },
                None => {
                    proof {
                        refused_stays_refused(all, i + 1);
                    }
                    return None;
                },
            }
        }
        i += 1;
    }
    assert(all.take(all.len() as int) =~= all);
    if total_kb == 0 {
        return None;
    }
    let used_kb: u64 = if total_kb >= available_kb {
        total_kb - available_kb
    } else {
        0
    };
    Some(MemoryUse { total_kb, available_kb, used_kb })
}

// ---------------------------------------------------------------------------
// The loop
// ---------------------------------------------------------------------------

/// What the metrics thread does next.
#[derive(Debug, Clone, Copy, PartialEq, Eq, Structural)]
pub enum MetricsAction {
    /// End.
    Stop,
    /// Sleep for so many milliseconds.
    Sleep(u64),
    /// Collect metrics and send them.
    Collect,
}

/// Ticks between two collections.
pub const METRICS_TICKS: u64 = 600;

pub open spec fn metrics_next(ticks: u64, stopped: bool) -> (u64, MetricsAction) {
    if stopped {
        (ticks, MetricsAction::Stop)
    } else if ticks < METRICS_TICKS {
        ((ticks + 1) as u64, MetricsAction::Sleep(METRICS_TICK_MS))
    } else {
        (0, MetricsAction::Collect)
    }
}

/// One step of the metrics thread, given the ticks since the last collection and whether it is
/// to stop.
pub fn metrics_step(ticks: u64, stopped: bool) -> (r: (u64, MetricsAction))
    ensures
        r == metrics_next(ticks, stopped),
{
    if stopped {
        (ticks, MetricsAction::Stop)
    } else if ticks < METRICS_TICKS {
        (ticks + 1, MetricsAction::Sleep(METRICS_TICK_MS))
    } else {
        (0, MetricsAction::Collect)
    }
}

// ---------------------------------------------------------------------------
// Laws
// ---------------------------------------------------------------------------

/// The ticks after so many steps that were not stopped.
pub open spec fn ticks_after(steps: nat) -> u64
    decreases steps,
{
    if steps == 0 {
        0
    } else {
        metrics_next(ticks_after((steps - 1) as nat), false).0
    }
}

/// Metrics are collected once per interval: the first step at which they are is the one behind
/// as many sleeps as make up the interval.
pub proof fn collects_once_per_interval(step: nat)
    requires
        step <= METRICS_TICKS,
    ensures
        metrics_next(ticks_after(step), false).1 == if step < METRICS_TICKS {
            MetricsAction::Sleep(METRICS_TICK_MS)
        } else {
            MetricsAction::Collect
        },
        step == METRICS_TICKS ==> ticks_after(step + 1) == 0,
        METRICS_TICKS * METRICS_TICK_MS == METRICS_INTERVAL_SECS * 1000,
{
    ticks_count_up(step);
}

proof fn ticks_count_up(step: nat)
    requires
        step <= METRICS_TICKS,
    ensures
        ticks_after(step) == step,
    decreases step,
{
    if step > 0 {
        ticks_count_up((step - 1) as nat);
    }
}

/// A thread that is to stop does so at its next step.
pub proof fn stops_at_the_next_step(ticks: u64)
    ensures
        metrics_next(ticks, true).1 == MetricsAction::Stop,
{
}

/// Used memory is never more than there is.
pub proof fn used_is_part_of_total(text: Seq<char>)
    ensures
        memory_use(text) matches Some(m) ==> m.2 <= m.0 && m.0 > 0,
{
}

proof fn sum_of_one_more(v: Seq<nat>, k: int)
    requires
        0 <= k < v.len(),
    ensures
        sum(v.take(k + 1)) == sum(v.take(k)) + v[k],
{
    assert(v.take(k + 1).drop_last() =~= v.take(k));
}

/// Idle time is the fourth number and, where there is one, the fifth; total time is the sum of
/// the first seven, or of as many as there are. With fewer than four numbers there are no times.
pub proof fn times_are_the_sums_of_their_parts(v: Seq<nat>)
    ensures
        v.len() < 4 ==> times_of(v) is None,
        v.len() == 4 ==> times_of(v) == Some((v[3], v[0] + v[1] + v[2] + v[3])),
        v.len() == 5 ==> times_of(v) == Some((v[3] + v[4], v[0] + v[1] + v[2] + v[3] + v[4])),
        v.len() == 6 ==> times_of(v) == Some(
            (v[3] + v[4], v[0] + v[1] + v[2] + v[3] + v[4] + v[5]),
        ),
        v.len() >= 7 ==> times_of(v) == Some(
            (v[3] + v[4], v[0] + v[1] + v[2] + v[3] + v[4] + v[5] + v[6]),
        ),
{
    if v.len() >= 4 {
        assert(sum(v.take(0)) == 0);
        sum_of_one_more(v, 0);
        sum_of_one_more(v, 1);
        sum_of_one_more(v, 2);
        sum_of_one_more(v, 3);
    }
    if v.len() >= 5 {
        sum_of_one_more(v, 4);
    }
    if v.len() >= 6 {
        sum_of_one_more(v, 5);
    }
    if v.len() >= 7 {
        sum_of_one_more(v, 6);
    } else {
        assert(v.take(v.len() as int) =~= v);
    }
}

/// The times are read out of the first line alone, and only if that is the one of all processors:
/// out of the numbers among its words, but for its name.
pub proof fn times_are_read_out_of_the_first_line(line: Seq<char>, tail: Seq<char>)
    requires
        !line.contains('\n'),
        line.len() == 0 || line.last() != '\r',
    ensures
        "cpu "@.is_prefix_of(line) ==> cpu_times(line.push('\n') + tail) == times_of(
            crate::text::numbers(crate::text::words(line).skip(1), u64::MAX as nat),
        ),
        !"cpu "@.is_prefix_of(line) ==> cpu_times(line.push('\n') + tail) is None,
        line.len() > 0 ==> cpu_times(line) == cpu_times(line.push('\n') + tail),
        cpu_times(Seq::<char>::empty()) is None,
{
    crate::text::lines_end_at_line_feeds(line, tail);
    let whole = line.push('\n') + tail;
    assert(crate::text::lines(whole)[0] == line);
    let words = crate::text::words(line);
    if "cpu "@.is_prefix_of(line) {
        first_word_is_there(line);
        assert(words.drop_first() =~= words.skip(1));
    }
}

proof fn first_word_is_there(line: Seq<char>)
    requires
        "cpu "@.is_prefix_of(line),
    ensures
        crate::text::words(line).len() > 0,
{
    reveal_strlit("cpu ");
    assert(line.subrange(0, 4) =~= "cpu "@);
    assert(line[0] == "cpu "@[0]);
    assert(line[0] == 'c');
    crate::text::white_space_is_what_unicode_says('c');
}

/// The number of a line about memory is its second word; a line without one has none.
pub proof fn second_word_is_the_amount(line: Seq<char>)
    ensures
        crate::text::words(line).len() >= 2 ==> meminfo_value(line) == crate::text::unsigned_value(
            crate::text::words(line)[1],
            u64::MAX as nat,
        ),
        crate::text::words(line).len() < 2 ==> meminfo_value(line) is None,
{
}

/// Each line about total or available memory sets its amount anew and leaves the other; other
/// lines change nothing. A line without its number has all refused.
pub proof fn lines_set_their_amounts(
    lines: Seq<Seq<char>>,
    line: Seq<char>,
    total: nat,
    available: nat,
)
    requires
        meminfo(lines) == Some((total, available)),
    ensures
        ({
            let after = meminfo(lines.push(line));
            &&& "MemTotal:"@.is_prefix_of(line) ==> after == match meminfo_value(line) {
                Some(v) => Some((v, available)),
                None => None,
            }
            &&& "MemAvailable:"@.is_prefix_of(line) ==> after == match meminfo_value(line) {
                Some(v) => Some((total, v)),
                None => None,
            }
            &&& !"MemTotal:"@.is_prefix_of(line) && !"MemAvailable:"@.is_prefix_of(line) ==> after
                == Some((total, available))
        }),
        meminfo(Seq::<Seq<char>>::empty()) == Some((0nat, 0nat)),
{
    assert(lines.push(line).drop_last() =~= lines);
    reveal_strlit("MemTotal:");
    reveal_strlit("MemAvailable:");
    if "MemTotal:"@.is_prefix_of(line) && "MemAvailable:"@.is_prefix_of(line) {
        assert(line.subrange(0, 9)[3] == 'T');
        assert(line.subrange(0, 13)[3] == 'A');
    }
}

/// Once a line was refused, all stay refused.
pub proof fn refused_lines_stay_refused(lines: Seq<Seq<char>>, more: Seq<Seq<char>>)
    requires
        meminfo(lines) is None,
    ensures
        meminfo(lines + more) is None,
{
    assert((lines + more).take(lines.len() as int) =~= lines);
    refused_stays_refused(lines + more, lines.len() as int);
}

/// What is not available is used: used and available memory make up the total, unless more is
/// available than there is. Without a total nothing is said.
pub proof fn used_and_available_make_up_the_total(text: Seq<char>)
    ensures
        match meminfo(crate::text::lines(text)) {
            Some((total, available)) => {
                &&& total == 0 ==> memory_use(text) is None
                &&& total > 0 ==> memory_use(text) == Some(
                    (
                        total,
                        available,
                        if available <= total {
                            (total - available) as nat
                        } else {
                            0
                        },
                    ),
                )
            },
            None => memory_use(text) is None,
        },
{
}

/// A thread that is not stopped sleeps 600 times for a tenth of a second and then collects.
pub proof fn thread_sleeps_for_a_minute(ticks: u64)
    ensures
        metrics_next(ticks, true) == (ticks, MetricsAction::Stop),
        ticks < 600 ==> metrics_next(ticks, false) == (
            (ticks + 1) as u64,
            MetricsAction::Sleep(100),
        ),
        ticks >= 600 ==> metrics_next(ticks, false) == (0u64, MetricsAction::Collect),
{
}

} // verus!
