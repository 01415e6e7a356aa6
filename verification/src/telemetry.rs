//! Turning what a device prints into a telemetry sample: the cumulative CPU
//! counters and their delta against the previous sample of the session, the
//! memory figures, and the optional GPU readings.

use crate::clock::now_millis;
use crate::error::{ErrorModel, SessionError};
use crate::idmap::IdMap;
use crate::text::{
    chars_of, contains_text, find, find_char_from, first_occurrence, index_of_from, is_digit,
    last_index_of, lemma_last_index_of, lines, lines_text, parse_i64, parse_i64_text, parse_u64,
    parse_u64_text, rfind_char_between, split_whitespace, texts, tokens,
};
use vstd::prelude::*;
use vstd::string::*;

verus! {

/// The numbers among `toks`, in order: each token that reads as a `u64`.
pub open spec fn numeric_fields(toks: Seq<Seq<char>>) -> Seq<u64>
    decreases toks.len(),
{
    if toks.len() == 0 {
        Seq::empty()
    } else {
        let front = numeric_fields(toks.drop_last());
        match parse_u64_text(toks.last()) {
            Some(n) => front.push(n),
            None => front,
        }
    }
}

/// The counter fields of the aggregate CPU line: the numbers behind its
/// leading label.
pub open spec fn cpu_fields(line: Seq<char>) -> Seq<u64> {
    let toks = tokens(line);
    if toks.len() == 0 {
        Seq::empty()
    } else {
        numeric_fields(toks.drop_first())
    }
}

/// The `k`-th counter, 0 where the line has none.
pub open spec fn field(nums: Seq<u64>, k: int) -> int {
    if 0 <= k < nums.len() {
        nums[k] as int
    } else {
        0
    }
}

/// The sum of user, nice, system, idle, iowait, irq, softirq and steal.
pub open spec fn counters_total(nums: Seq<u64>) -> int {
    field(nums, 0) + field(nums, 1) + field(nums, 2) + field(nums, 3) + field(nums, 4) + field(
        nums,
        5,
    ) + field(nums, 6) + field(nums, 7)
}

/// The sum of idle and iowait.
pub open spec fn counters_idle(nums: Seq<u64>) -> int {
    field(nums, 3) + field(nums, 4)
}

/// The cumulative counters `(total, idle)` that the aggregate CPU line
/// holds. The line needs at least four counters; one whose total does not
/// fit in a `u64` is as malformed as one with too few.
pub open spec fn cpu_counters(line: Seq<char>) -> Option<(u64, u64)> {
    let nums = cpu_fields(line);
    if nums.len() >= 4 && counters_total(nums) <= u64::MAX {
        Some((counters_total(nums) as u64, counters_idle(nums) as u64))
    } else {
        None
    }
}

fn field_at(nums: &Vec<u64>, k: usize) -> (v: u64)
    ensures
        v == field(nums@, k as int),
{
    if k < nums.len() {
        nums[k]
    } else {
        0
    }
}

fn add_counter(acc: Option<u64>, v: u64) -> (r: Option<u64>)
    ensures
        r == match acc {
            Some(a) => if a + v <= u64::MAX {
                Some((a + v) as u64)
            } else {
                None
            },
            None => None::<u64>,
        },
{
    match acc {
        Some(a) => a.checked_add(v),
        None => None,
    }
}

/// Reads the aggregate CPU line of the kernel's counters.
pub fn parse_cpu_line(line: &str) -> (r: Option<(u64, u64)>)
    ensures
        r == cpu_counters(line@),
{
    let toks = split_whitespace(line);
    let n: usize = toks.len();
    let mut nums: Vec<u64> = Vec::new();
    if n > 0 {
        let ghost rest = texts(toks@).drop_first();
        let mut i: usize = 1;
        assert(rest.take(0) =~= Seq::<Seq<char>>::empty());
        while i < n
            invariant
                n == toks.len(),
                n > 0,
                1 <= i <= n,
                rest == texts(toks@).drop_first(),
                nums@ == numeric_fields(rest.take(i - 1)),
            decreases n - i,
        {
            proof {
                let longer = rest.take(i as int);
                assert(longer.drop_last() =~= rest.take(i - 1));
                assert(longer.last() == toks@[i as int]@);
            }
            match parse_u64(toks[i]) {
                Some(v) => {
                    nums.push(v);
                },
                None => {},
            }
            i = i + 1;
        }
        assert(rest.take(n - 1) =~= rest);
    }
    assert(nums@ == cpu_fields(line@));
    if nums.len() < 4 {
        return None;
    }
    let sum = add_counter(
        add_counter(
            add_counter(
                add_counter(
                    add_counter(
                        add_counter(
                            add_counter(Some(field_at(&nums, 0)), field_at(&nums, 1)),
                            field_at(&nums, 2),
                        ),
                        field_at(&nums, 3),
                    ),
                    field_at(&nums, 4),
                ),
                field_at(&nums, 5),
            ),
            field_at(&nums, 6),
        ),
        field_at(&nums, 7),
    );
    match sum {
        Some(total) => Some((total, field_at(&nums, 3) + field_at(&nums, 4))),
        None => None,
    }
}

/// The cumulative CPU counters of a device at one moment. They never
/// decrease while the device stays up.
#[derive(Debug, Clone, Copy, PartialEq, Eq, Structural)]
pub struct CpuCounterSample {
    pub total: u64,
    pub idle: u64,
}

/// CPU time between two samples: `busy` of `total` ticks were not idle.
#[derive(Debug, Clone, Copy, PartialEq, Eq, Structural)]
pub struct CpuUsage {
    pub busy: u64,
    pub total: u64,
}

/// `a - b`, or 0 where `b` is the larger.
pub open spec fn saturating_diff(a: u64, b: u64) -> u64 {
    if a >= b {
        (a - b) as u64
    } else {
        0
    }
}

/// The usage between the samples `prev` and `cur`. Both deltas saturate at
/// 0, so counters that went backwards (a rollover, a reboot) give an empty
/// interval; and the busy share saturates at 0 where the idle counter grew
/// by more than the total.
pub open spec fn usage_between(prev: CpuCounterSample, cur: CpuCounterSample) -> CpuUsage {
    let total = saturating_diff(cur.total, prev.total);
    let idle = saturating_diff(cur.idle, prev.idle);
    CpuUsage { busy: saturating_diff(total, idle), total }
}

/// The usage as a whole percentage, rounded down: 0 for an empty interval,
/// and never above 100.
pub open spec fn percent_of(usage: CpuUsage) -> int {
    if usage.total == 0 {
        0
    } else if usage.busy >= usage.total {
        100
    } else {
        usage.busy * 100 / (usage.total as int)
    }
}

impl CpuUsage {
    /// The usage between two samples.
    pub fn between(prev: CpuCounterSample, cur: CpuCounterSample) -> (usage: CpuUsage)
        ensures
            usage == usage_between(prev, cur),
            usage.busy <= usage.total,
            0 <= percent_of(usage) <= 100,
            cur.total <= prev.total ==> usage.total == 0 && percent_of(usage) == 0,
    {
        let total: u64 = cur.total.saturating_sub(prev.total);
        let idle: u64 = cur.idle.saturating_sub(prev.idle);
        let usage = CpuUsage { busy: total.saturating_sub(idle), total };
        proof {
            lemma_percent_in_range(usage);
        }
        usage
    }

    /// The usage as a whole percentage, rounded down.
    pub fn percent(&self) -> (p: u64)
        ensures
            p == percent_of(*self),
            p <= 100,
    {
        proof {
            lemma_percent_in_range(*self);
        }
        if self.total == 0 {
            0
        } else if self.busy >= self.total {
            100
        } else {
            let scaled: u128 = (self.busy as u128) * 100;
            let p: u128 = scaled / (self.total as u128);
            p as u64
        }
    }
}

/// A percentage lies between 0 and 100, whatever the counters were, and is
/// exactly 0 where the total did not move.
pub proof fn lemma_percent_in_range(usage: CpuUsage)
    ensures
        0 <= percent_of(usage) <= 100,
        usage.total == 0 ==> percent_of(usage) == 0,
{
    if usage.total > 0 && usage.busy < usage.total {
        let b = usage.busy as int;
        let t = usage.total as int;
        assert(0 <= b * 100 / t <= 100) by (nonlinear_arith)
            requires
                0 <= b < t,
        ;
    }
}

/// The CPU usage of any two samples lies between 0 and 100 percent, and is
/// exactly 0 where the total counter did not move.
pub proof fn lemma_cpu_percent_bounded(prev: CpuCounterSample, cur: CpuCounterSample)
    ensures
        0 <= percent_of(usage_between(prev, cur)) <= 100,
        usage_between(prev, cur).busy <= usage_between(prev, cur).total,
        cur.total == prev.total ==> percent_of(usage_between(prev, cur)) == 0,
{
    lemma_percent_in_range(usage_between(prev, cur));
}

/// Counters that went backwards give deltas of 0 and a usage of 0 percent.
pub proof fn lemma_rollover_saturates(prev: CpuCounterSample, cur: CpuCounterSample)
    requires
        cur.total < prev.total,
        cur.idle < prev.idle,
    ensures
        usage_between(prev, cur) == (CpuUsage { busy: 0, total: 0 }),
        percent_of(usage_between(prev, cur)) == 0,
{
}

/// The sample to measure `cur` against: the one remembered for the
/// session, or on the first call `cur` itself.
pub open spec fn baseline(
    remembered: Map<Seq<char>, CpuCounterSample>,
    id: Seq<char>,
    cur: CpuCounterSample,
) -> CpuCounterSample {
    if remembered.dom().contains(id) {
        remembered[id]
    } else {
        cur
    }
}

/// The most recent CPU counters of each session that was ever sampled.
pub struct CpuCache {
    last: IdMap<CpuCounterSample>,
}

impl View for CpuCache {
    type V = Map<Seq<char>, CpuCounterSample>;

    closed spec fn view(&self) -> Map<Seq<char>, CpuCounterSample> {
        self.last@
    }
}

impl CpuCache {
    /// A cache that remembers no session.
    pub fn new() -> (c: Self)
        ensures
            c@ == Map::<Seq<char>, CpuCounterSample>::empty(),
    {
        CpuCache { last: IdMap::new() }
    }

    /// Remembers `cur` as the latest counters of `id`, first call or not,
    /// and gives the usage since the counters remembered before.
    pub fn observe(&mut self, id: &str, cur: CpuCounterSample) -> (usage: CpuUsage)
        ensures
            final(self)@ == old(self)@.insert(id@, cur),
            usage == usage_between(baseline(old(self)@, id@, cur), cur),
    {
        let prev = match self.last.insert(id.to_owned(), cur) {
            Some(p) => p,
            None => cur,
        };
        CpuUsage::between(prev, cur)
    }
}

/// What a cache remembers after the observations of `seen`, made in order
/// on a cache that was empty: each is a session with its counters.
pub open spec fn remembered_after(seen: Seq<(Seq<char>, CpuCounterSample)>) -> Map<
    Seq<char>,
    CpuCounterSample,
>
    decreases seen.len(),
{
    if seen.len() == 0 {
        Map::empty()
    } else {
        remembered_after(seen.drop_last()).insert(seen.last().0, seen.last().1)
    }
}

/// The sessions that a cache remembers are exactly those that were ever
/// sampled, and for each it remembers the counters of its latest sample.
pub proof fn lemma_cache_remembers_latest(seen: Seq<(Seq<char>, CpuCounterSample)>)
    ensures
        forall|id: Seq<char>|
            remembered_after(seen).dom().contains(id) <==> exists|k: int|
                0 <= k < seen.len() && (#[trigger] seen[k]).0 == id,
        forall|k: int|
            0 <= k < seen.len() && (forall|later: int|
                k < later < seen.len() ==> (#[trigger] seen[later]).0 != seen[k].0)
                ==> remembered_after(seen)[(#[trigger] seen[k]).0] == seen[k].1,
    decreases seen.len(),
{
    if seen.len() > 0 {
        let front = seen.drop_last();
        let last = seen.last();
        lemma_cache_remembers_latest(front);
        assert forall|id: Seq<char>|
            remembered_after(seen).dom().contains(id) <==> exists|k: int|
                0 <= k < seen.len() && (#[trigger] seen[k]).0 == id by {
            if remembered_after(seen).dom().contains(id) {
                if id == last.0 {
                    assert(seen[seen.len() - 1].0 == id);
                } else {
                    assert(remembered_after(front).dom().contains(id));
                    let k = choose|k: int| 0 <= k < front.len() && (#[trigger] front[k]).0 == id;
                    assert(seen[k].0 == id);
                }
            }
            if exists|k: int| 0 <= k < seen.len() && (#[trigger] seen[k]).0 == id {
                let k = choose|k: int| 0 <= k < seen.len() && (#[trigger] seen[k]).0 == id;
                if k < front.len() {
                    assert(front[k].0 == id);
                    assert(remembered_after(front).dom().contains(id));
                }
            }
        }
        assert forall|k: int|
            0 <= k < seen.len() && (forall|later: int|
                k < later < seen.len() ==> (#[trigger] seen[later]).0 != seen[k].0)
            implies remembered_after(seen)[(#[trigger] seen[k]).0] == seen[k].1 by {
            if k < front.len() {
                assert(seen[seen.len() - 1].0 != seen[k].0);
                assert(front[k] == seen[k]);
                assert forall|later: int| k < later < front.len() implies (
                #[trigger] front[later]).0 != front[k].0 by {
                    assert(seen[later].0 != seen[k].0);
                }
            }
        }
    }
}

/// The `k`-th of `items`, or the empty text.
pub open spec fn text_at(items: Seq<Seq<char>>, k: int) -> Seq<char> {
    if 0 <= k < items.len() {
        items[k]
    } else {
        Seq::empty()
    }
}

/// The number that the `k`-th token spells, 0 where it is missing or does
/// not read as an `i64`.
pub open spec fn number_at(toks: Seq<Seq<char>>, k: int) -> i64 {
    if 0 <= k < toks.len() {
        match parse_i64_text(toks[k]) {
            Some(v) => v,
            None => 0,
        }
    } else {
        0
    }
}

/// Total and used memory in megabytes, as the memory line gives them.
pub open spec fn memory_of(line: Seq<char>) -> (i64, i64) {
    (number_at(tokens(line), 0), number_at(tokens(line), 1))
}

fn number_at_exec(toks: &Vec<&str>, k: usize) -> (v: i64)
    ensures
        v == number_at(texts(toks@), k as int),
{
    if k < toks.len() {
        match parse_i64(toks[k]) {
            Some(v) => v,
            None => 0,
        }
    } else {
        0
    }
}

/// Reads the memory line: total, then used, in megabytes.
pub fn parse_mem_line(line: &str) -> (r: (i64, i64))
    ensures
        r == memory_of(line@),
{
    let toks = split_whitespace(line);
    (number_at_exec(&toks, 0), number_at_exec(&toks, 1))
}

/// The marker in front of the GPU load.
pub const GPU_UTIL_MARKER: &'static str = "GR3D_FREQ";

/// The marker in front of the GPU temperature.
pub const GPU_TEMP_MARKER: &'static str = "GPU@";

/// The end of the run of digits that starts at `i`.
pub open spec fn digits_end(s: Seq<char>, i: int) -> int
    decreases s.len() - i,
{
    if 0 <= i < s.len() && is_digit(s[i]) {
        digits_end(s, i + 1)
    } else {
        i
    }
}

/// The percentage that `tok` spells: a whole number from 0 to 100.
pub open spec fn percent_value(tok: Seq<char>) -> Option<u64> {
    match parse_u64_text(tok) {
        Some(v) => if v <= 100 {
            Some(v)
        } else {
            None
        },
        None => None,
    }
}

/// The GPU load in percent that a statistics line gives: from the first
/// load marker up to the next percent sign (or the end of the line), the
/// text behind the last space, where it spells a percentage.
pub open spec fn gpu_util_of(line: Seq<char>) -> Option<u64> {
    match first_occurrence(line, GPU_UTIL_MARKER@) {
        Some(at) => {
            let part = line.subrange(at, index_of_from(line, '%', at));
            let space = last_index_of(part, ' ');
            if space >= 0 {
                percent_value(part.subrange(space + 1, part.len() as int))
            } else {
                None
            }
        },
        None => None,
    }
}

/// The GPU temperature in degrees Celsius that a statistics line gives:
/// the run of digits directly behind the first temperature marker, where
/// there is one and its value fits in a `u64`.
pub open spec fn gpu_temp_of(line: Seq<char>) -> Option<u64> {
    match first_occurrence(line, GPU_TEMP_MARKER@) {
        Some(at) => {
            let from = at + GPU_TEMP_MARKER@.len();
            parse_u64_text(line.subrange(from, digits_end(line, from)))
        },
        None => None,
    }
}

fn parse_gpu_util(line: &str, cs: &Vec<char>) -> (r: Option<u64>)
    requires
        cs@ == line@,
    ensures
        r == gpu_util_of(line@),
{
    match find(line, GPU_UTIL_MARKER) {
        Some(at) => {
            let end = find_char_from(cs, '%', at);
            match rfind_char_between(cs, ' ', at, end) {
                Some(space) => {
                    let ghost part = line@.subrange(at as int, end as int);
                    proof {
                        lemma_last_index_of(part, ' ');
                        assert(part.subrange(space + 1, part.len() as int) =~= line@.subrange(
                            at + space + 1,
                            end as int,
                        ));
                    }
                    let tok = line.substring_char(at + space + 1, end);
                    match parse_u64(tok) {
                        Some(v) => if v <= 100 {
                            Some(v)
                        } else {
                            None
                        },
                        None => None,
                    }
                },
                None => None,
            }
        },
        None => None,
    }
}

fn parse_gpu_temp(line: &str, cs: &Vec<char>) -> (r: Option<u64>)
    requires
        cs@ == line@,
    ensures
        r == gpu_temp_of(line@),
{
    match find(line, GPU_TEMP_MARKER) {
        Some(at) => {
            let width: usize = GPU_TEMP_MARKER.unicode_len();
            let n: usize = cs.len();
            let from: usize = at + width;
            let mut end: usize = from;
            while end < n && is_ascii_digit(cs[end])
                invariant
                    cs@ == line@,
                    n == cs.len(),
                    from <= end <= n,
                    digits_end(line@, from as int) == digits_end(line@, end as int),
                decreases n - end,
            {
                end = end + 1;
            }
            parse_u64(line.substring_char(from, end))
        },
        None => None,
    }
}

fn is_ascii_digit(c: char) -> (b: bool)
    ensures
        b == is_digit(c),
{
    let u: u32 = c as u32;
    0x30 <= u && u <= 0x39
}

/// Reads the GPU load and temperature out of one statistics line. Either
/// may be missing on its own; a line without the markers gives neither.
pub fn parse_tegrastats_line(line: &str) -> (r: (Option<u64>, Option<u64>))
    ensures
        r.0 == gpu_util_of(line@),
        r.1 == gpu_temp_of(line@),
{
    let cs = chars_of(line);
    (parse_gpu_util(line, &cs), parse_gpu_temp(line, &cs))
}

/// A GPU load, where a line gives one, lies between 0 and 100 percent.
pub proof fn lemma_gpu_util_is_percentage(line: Seq<char>)
    ensures
        gpu_util_of(line) matches Some(v) ==> v <= 100,
{
}

/// A line that holds neither marker gives no GPU reading at all.
pub proof fn lemma_no_marker_no_reading(line: Seq<char>)
    ensures
        !contains_text(line, GPU_UTIL_MARKER@) ==> gpu_util_of(line) is None,
        !contains_text(line, GPU_TEMP_MARKER@) ==> gpu_temp_of(line) is None,
{
}

/// The GPU readings of an optional statistics output: those of its first
/// line, and none at all where the command gave nothing.
pub open spec fn gpu_readings_of(output: Option<Seq<char>>) -> (Option<u64>, Option<u64>) {
    match output {
        Some(out) => {
            let line = text_at(lines_text(out), 0);
            (gpu_util_of(line), gpu_temp_of(line))
        },
        None => (None, None),
    }
}

/// The text of an optional string slice.
pub open spec fn opt_str_text(s: Option<&str>) -> Option<Seq<char>> {
    match s {
        Some(t) => Some(t@),
        None => None,
    }
}

/// The GPU readings for the outcome of the statistics command: `None`
/// stands for any failure to run it. No outcome is an error.
pub fn gpu_readings(output: Option<&str>) -> (r: (Option<u64>, Option<u64>))
    ensures
        r == gpu_readings_of(opt_str_text(output)),
        output is None ==> r == (None::<u64>, None::<u64>),
{
    match output {
        Some(out) => {
            let ls = lines(out);
            let line: &str = if ls.len() > 0 {
                ls[0]
            } else {
                ""
            };
            proof {
                reveal_strlit("");
                assert(line@ =~= text_at(lines_text(out@), 0));
            }
            parse_tegrastats_line(line)
        },
        None => (None, None),
    }
}

/// The command whose output starts with the aggregate CPU line, followed
/// by the line with total and used memory in megabytes.
pub const STATS_COMMAND: &'static str =
    "sh -lc 'cat /proc/stat | head -n1; free -m | awk \"/Mem:/ {print $2, $3}\"'";

/// The command that prints one line of GPU statistics, with a fallback
/// that asks for more privileges.
pub const GPU_COMMAND: &'static str = "sh -lc 'tegrastats --interval 1000 --count 1 2>/dev/null \
    || sudo -n tegrastats --interval 1000 --count 1 2>/dev/null'";

/// What the first command of a sample gave: the CPU usage since the
/// previous sample and the memory figures.
#[derive(Debug, Clone, Copy, PartialEq, Eq, Structural)]
pub struct PendingSample {
    pub cpu: CpuUsage,
    pub ram_total_mb: i64,
    pub ram_used_mb: i64,
}

/// One snapshot of a device's load.
#[derive(Debug, Clone, Copy, PartialEq, Eq, Structural)]
pub struct TelemetrySample {
    /// Milliseconds since the Unix epoch.
    pub timestamp: i64,
    pub cpu: CpuUsage,
    pub ram_used_mb: i64,
    pub ram_total_mb: i64,
    /// GPU load in percent, 0 to 100.
    pub gpu_util: Option<u64>,
    /// GPU temperature in degrees Celsius.
    pub gpu_temp_c: Option<u64>,
    pub device_id: i64,
}

/// The counters that the output of the statistics command starts with.
pub open spec fn counters_in(output: Seq<char>) -> Option<CpuCounterSample> {
    match cpu_counters(text_at(lines_text(output), 0)) {
        Some((total, idle)) => Some(CpuCounterSample { total, idle }),
        None => None,
    }
}

/// The pending sample for the counters `cur` of session `id`, read out of
/// `output` against what `remembered` holds.
pub open spec fn pending_of(
    remembered: Map<Seq<char>, CpuCounterSample>,
    id: Seq<char>,
    cur: CpuCounterSample,
    output: Seq<char>,
) -> PendingSample {
    let memory = memory_of(text_at(lines_text(output), 1));
    PendingSample {
        cpu: usage_between(baseline(remembered, id, cur), cur),
        ram_total_mb: memory.0,
        ram_used_mb: memory.1,
    }
}

/// The sample that `pending` becomes with the GPU output and timestamp.
pub open spec fn sample_of(
    pending: PendingSample,
    gpu_output: Option<Seq<char>>,
    device_id: i64,
    timestamp: i64,
) -> TelemetrySample {
    TelemetrySample {
        timestamp,
        cpu: pending.cpu,
        ram_used_mb: pending.ram_used_mb,
        ram_total_mb: pending.ram_total_mb,
        gpu_util: gpu_readings_of(gpu_output).0,
        gpu_temp_c: gpu_readings_of(gpu_output).1,
        device_id,
    }
}

/// Every sample that is made of a device's output holds a CPU usage
/// between 0 and 100 percent, whose busy ticks do not exceed the total,
/// and a GPU load, where it holds one, between 0 and 100 percent.
pub proof fn lemma_sample_in_range(
    remembered: Map<Seq<char>, CpuCounterSample>,
    id: Seq<char>,
    cur: CpuCounterSample,
    output: Seq<char>,
    gpu_output: Option<Seq<char>>,
    device_id: i64,
    timestamp: i64,
)
    ensures
        ({
            let sample = sample_of(
                pending_of(remembered, id, cur, output),
                gpu_output,
                device_id,
                timestamp,
            );
            &&& sample.cpu.busy <= sample.cpu.total
            &&& 0 <= percent_of(sample.cpu) <= 100
            &&& sample.gpu_util matches Some(v) ==> v <= 100
        }),
{
    lemma_cpu_percent_bounded(baseline(remembered, id, cur), cur);
}

fn line_at<'a>(ls: &Vec<&'a str>, k: usize) -> (line: &'a str)
    ensures
        line@ == text_at(texts(ls@), k as int),
{
    if k < ls.len() {
        ls[k]
    } else {
        proof {
            reveal_strlit("");
        }
        assert(""@ =~= Seq::<char>::empty());
        ""
    }
}

impl CpuCache {
    /// Takes in the output of the statistics command for session `id`.
    ///
    /// A CPU line that cannot be read is a parse error and leaves the cache
    /// as it was. Otherwise the counters are remembered for the session and
    /// measured against those remembered before.
    pub fn begin_sample(&mut self, id: &str, output: &str) -> (r: Result<
        PendingSample,
        SessionError,
    >)
        ensures
            match counters_in(output@) {
                Some(cur) => r == Ok::<PendingSample, SessionError>(
                    pending_of(old(self)@, id@, cur, output@),
                ) && final(self)@ == old(self)@.insert(id@, cur),
                None => r matches Err(e) && e@ == ErrorModel::Parse && final(self)@ == old(self)@,
            },
    {
        let ls = lines(output);
        let cpu_line = line_at(&ls, 0);
        let mem_line = line_at(&ls, 1);
        match parse_cpu_line(cpu_line) {
            Some((total, idle)) => {
                let cpu = self.observe(id, CpuCounterSample { total, idle });
                let (ram_total_mb, ram_used_mb) = parse_mem_line(mem_line);
                Ok(PendingSample { cpu, ram_total_mb, ram_used_mb })
            },
            None => Err(SessionError::Parse),
        }
    }
}

impl PendingSample {
    /// Completes the sample with the outcome of the GPU command (`None`
    /// for any failure to run it, which is no error) and the timestamp.
    pub fn finish_at(self, gpu_output: Option<&str>, device_id: i64, timestamp: i64) -> (sample:
        TelemetrySample)
        ensures
            sample == sample_of(self, opt_str_text(gpu_output), device_id, timestamp),
    {
        let (gpu_util, gpu_temp_c) = gpu_readings(gpu_output);
        TelemetrySample {
            timestamp,
            cpu: self.cpu,
            ram_used_mb: self.ram_used_mb,
            ram_total_mb: self.ram_total_mb,
            gpu_util,
            gpu_temp_c,
            device_id,
        }
    }

    /// Completes the sample as [`PendingSample::finish_at`] does, with the
    /// clock read now: once, after both commands have run.
    pub fn finish(self, gpu_output: Option<&str>, device_id: i64) -> (sample: TelemetrySample)
        ensures
            sample == sample_of(self, opt_str_text(gpu_output), device_id, sample.timestamp),
    {
        let timestamp = now_millis();
        self.finish_at(gpu_output, device_id, timestamp)
    }
}

impl TelemetrySample {
    /// The CPU usage as a whole percentage, 0 to 100.
    pub fn cpu_percent(&self) -> (p: u64)
        ensures
            p == percent_of(self.cpu),
            p <= 100,
    {
        self.cpu.percent()
    }
}

} // verus!
