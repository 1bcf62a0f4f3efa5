//! CPU tick counters: parsing the scheduler accounting lines and turning two
//! snapshots into a utilization.

use vstd::prelude::*;
use crate::error::ReadError;
use crate::text::{is_counter, lines_view, numeral_value, parse_counter, spans_view, word_spans, words};
use crate::utilization::{hundredths_of, lemma_hundredths_bounded, Utilization};

verus! {

/// One CPU aggregate line: the identifier ("cpu", "cpu0", ...) and its tick
/// counters in kernel order.
#[derive(Clone, Debug)]
pub struct CpuTimes {
    pub cpu: String,
    pub user: u64,
    pub nice: u64,
    pub system: u64,
    pub idle: u64,
    pub iowait: u64,
    pub irq: u64,
    pub softirq: u64,
    pub steal: u64,
    pub guest: u64,
    pub guest_nice: u64,
}

/// The number of words a CPU line must have: the identifier and ten counters.
pub const CPU_LINE_WORDS: usize = 11;

/// The value of the `k`-th word of a line.
pub open spec fn field(s: Seq<char>, k: int) -> int {
    numeral_value(words(s)[k])
}

/// A line with an identifier followed by at least ten counters.
pub open spec fn is_cpu_line(s: Seq<char>) -> bool {
    words(s).len() >= CPU_LINE_WORDS && forall|k: int|
        1 <= k < CPU_LINE_WORDS ==> is_counter(#[trigger] words(s)[k])
}

/// `t` holds what the line `s` says.
pub open spec fn parsed_from(t: CpuTimes, s: Seq<char>) -> bool {
    &&& t.cpu@ == words(s)[0]
    &&& t.user == field(s, 1)
    &&& t.nice == field(s, 2)
    &&& t.system == field(s, 3)
    &&& t.idle == field(s, 4)
    &&& t.iowait == field(s, 5)
    &&& t.irq == field(s, 6)
    &&& t.softirq == field(s, 7)
    &&& t.steal == field(s, 8)
    &&& t.guest == field(s, 9)
    &&& t.guest_nice == field(s, 10)
}

fn parse_cpu_line(line: &str) -> (r: Result<CpuTimes, ReadError>)
    ensures
        match r {
            Ok(t) => is_cpu_line(line@) && parsed_from(t, line@),
            Err(e) => !is_cpu_line(line@) && e == ReadError::MalformedData,
        },
{
    let spans = word_spans(line);
    if spans.len() < CPU_LINE_WORDS {
        return Err(ReadError::MalformedData);
    }
    let mut vals: Vec<u64> = Vec::new();
    let mut k: usize = 1;
    while k < CPU_LINE_WORDS
        invariant
            1 <= k <= CPU_LINE_WORDS <= spans.len(),
            spans_view(line@, spans@) == words(line@),
            forall|j: int| 0 <= j < spans.len() ==> spans[j].0 <= spans[j].1 && spans[j].1 <= line@.len(),
            vals.len() == k - 1,
            forall|j: int| 1 <= j < k ==> is_counter(#[trigger] words(line@)[j]),
            forall|j: int| 1 <= j < k ==> vals[j - 1] == #[trigger] field(line@, j),
        decreases CPU_LINE_WORDS - k,
    {
        let (a, b) = spans[k];
        assert(words(line@)[k as int] == line@.subrange(a as int, b as int));
        match parse_counter(line, a, b) {
            Some(v) => vals.push(v),
            None => return Err(ReadError::MalformedData),
        }
        k = k + 1;
    }
    let (a, b) = spans[0];
    assert(words(line@)[0] == line@.subrange(a as int, b as int));
    let cpu = line.substring_char(a, b).to_owned();
    assert(field(line@, 1) == vals[0]);
    assert(field(line@, 10) == vals[9]);
    Ok(CpuTimes {
        cpu,
        user: vals[0],
        nice: vals[1],
        system: vals[2],
        idle: vals[3],
        iowait: vals[4],
        irq: vals[5],
        softirq: vals[6],
        steal: vals[7],
        guest: vals[8],
        guest_nice: vals[9],
    })
}

/// Parses one CPU line: the identifier and the first ten counters after it;
/// further words are ignored.
pub fn parse_cputimes(line: String) -> (r: Result<CpuTimes, ReadError>)
    ensures
        match r {
            Ok(t) => is_cpu_line(line@) && parsed_from(t, line@),
            Err(e) => !is_cpu_line(line@) && e == ReadError::MalformedData,
        },
{
    parse_cpu_line(line.as_str())
}

/// Lines that name a CPU begin with "cpu".
pub open spec fn starts_cpu(s: Seq<char>) -> bool {
    s.len() >= 3 && s[0] == 'c' && s[1] == 'p' && s[2] == 'u'
}

/// The CPU lines among `ls`, in order.
pub open spec fn cpu_lines(ls: Seq<Seq<char>>) -> Seq<Seq<char>>
    decreases ls.len(),
{
    if ls.len() == 0 {
        Seq::empty()
    } else if starts_cpu(ls.last()) {
        cpu_lines(ls.drop_last()).push(ls.last())
    } else {
        cpu_lines(ls.drop_last())
    }
}

/// Parses the CPU lines of a scheduler accounting listing, ignoring all
/// other lines. Fails when one CPU line is malformed.
pub fn parse_cpu_lines(lines: &Vec<String>) -> (r: Result<Vec<CpuTimes>, ReadError>)
    ensures
        match r {
            Ok(v) => {
                &&& forall|i: int|
                    0 <= i < lines.len() && starts_cpu(#[trigger] lines[i]@) ==> is_cpu_line(
                        lines[i]@,
                    )
                &&& v.len() == cpu_lines(lines_view(lines@)).len()
                &&& forall|k: int|
                    0 <= k < v.len() ==> parsed_from(#[trigger] v[k], cpu_lines(lines_view(lines@))[k])
            },
            Err(e) => {
                &&& e == ReadError::MalformedData
                &&& exists|i: int|
                    0 <= i < lines.len() && starts_cpu(#[trigger] lines[i]@) && !is_cpu_line(
                        lines[i]@,
                    )
            },
        },
{
    let mut v: Vec<CpuTimes> = Vec::new();
    let mut i: usize = 0;
    while i < lines.len()
        invariant
            i <= lines.len(),
            forall|j: int| 0 <= j < i && starts_cpu(#[trigger] lines[j]@) ==> is_cpu_line(lines[j]@),
            v.len() == cpu_lines(lines_view(lines@.subrange(0, i as int))).len(),
            forall|k: int|
                0 <= k < v.len() ==> parsed_from(
                    #[trigger] v[k],
                    cpu_lines(lines_view(lines@.subrange(0, i as int)))[k],
                ),
        decreases lines.len() - i,
    {
        let line = lines[i].as_str();
        let ghost before = lines_view(lines@.subrange(0, i as int));
        let ghost after = lines_view(lines@.subrange(0, i + 1));
        assert(after.drop_last() =~= before);
        assert(after.last() == lines[i as int]@);
        if line.unicode_len() >= 3 && line.get_char(0) == 'c' && line.get_char(1) == 'p'
            && line.get_char(2) == 'u' {
            match parse_cpu_line(line) {
                Ok(t) => v.push(t),
                Err(e) => return Err(e),
            }
        }
        i = i + 1;
    }
    assert(lines@.subrange(0, i as int) =~= lines@);
    Ok(v)
}

pub open spec fn idle_ticks(t: CpuTimes) -> int {
    t.idle + t.iowait
}

pub open spec fn busy_ticks(t: CpuTimes) -> int {
    t.user + t.nice + t.system + t.irq + t.softirq + t.steal
}

pub open spec fn total_ticks(t: CpuTimes) -> int {
    idle_ticks(t) + busy_ticks(t)
}

/// The share of the ticks between two snapshots that were not idle. When no
/// tick elapsed (or the totals went backwards) this is the no-change sample;
/// otherwise the busy delta is clamped into `0..=delta_total`, which absorbs
/// an idle counter that stepped back.
pub open spec fn cpu_delta(prev: CpuTimes, curr: CpuTimes) -> Utilization {
    let dt = total_ticks(curr) - total_ticks(prev);
    let busy = dt - (idle_ticks(curr) - idle_ticks(prev));
    if dt <= 0 {
        Utilization { part: 0, whole: 0 }
    } else {
        Utilization {
            part: (if busy < 0 {
                0
            } else if busy > dt {
                dt
            } else {
                busy
            }) as u128,
            whole: dt as u128,
        }
    }
}

/// The utilization of one CPU between two snapshots.
pub fn cpu_utilization(prev: &CpuTimes, curr: &CpuTimes) -> (r: Utilization)
    ensures
        r == cpu_delta(*prev, *curr),
        r.well_formed(),
{
    let pi: u128 = prev.idle as u128 + prev.iowait as u128;
    let ci: u128 = curr.idle as u128 + curr.iowait as u128;
    let pb: u128 = prev.user as u128 + prev.nice as u128 + prev.system as u128 + prev.irq as u128
        + prev.softirq as u128 + prev.steal as u128;
    let cb: u128 = curr.user as u128 + curr.nice as u128 + curr.system as u128 + curr.irq as u128
        + curr.softirq as u128 + curr.steal as u128;
    let pt = pi + pb;
    let ct = ci + cb;
    if ct <= pt {
        return Utilization::no_change();
    }
    let dt = ct - pt;
    let part = if ci >= pi {
        let di = ci - pi;
        if di >= dt {
            0
        } else {
            dt - di
        }
    } else {
        dt
    };
    Utilization { part, whole: dt }
}

/// For each CPU, its identifier and its utilization between `prev` and `curr`.
pub open spec fn usage_matches(
    r: Seq<(String, Utilization)>,
    prev: Seq<CpuTimes>,
    curr: Seq<CpuTimes>,
) -> bool {
    &&& r.len() == prev.len()
    &&& forall|k: int|
        0 <= k < r.len() ==> (#[trigger] r[k]).0@ == prev[k].cpu@ && r[k].1 == cpu_delta(
            prev[k],
            curr[k],
        )
}

/// The two listings name the same CPUs in the same order.
pub open spec fn same_cpu_ids(prev: Seq<CpuTimes>, curr: Seq<CpuTimes>) -> bool {
    prev.len() == curr.len() && forall|k: int| 0 <= k < prev.len() ==> (#[trigger] prev[k]).cpu@ == curr[k].cpu@
}

/// Whether two listings can be compared CPU by CPU.
pub fn same_cpus(prev: &Vec<CpuTimes>, curr: &Vec<CpuTimes>) -> (r: bool)
    ensures
        r == same_cpu_ids(prev@, curr@),
{
    if prev.len() != curr.len() {
        return false;
    }
    let mut k: usize = 0;
    while k < prev.len()
        invariant
            prev.len() == curr.len(),
            k <= prev.len(),
            forall|j: int| 0 <= j < k ==> (#[trigger] prev@[j]).cpu@ == curr@[j].cpu@,
        decreases prev.len() - k,
    {
        if prev[k].cpu != curr[k].cpu {
            return false;
        }
        k = k + 1;
    }
    true
}

/// The utilization of each CPU between two listings of the same CPUs.
pub fn calculate_cpu_usage(prev: &Vec<CpuTimes>, curr: &Vec<CpuTimes>) -> (r: Vec<(String, Utilization)>)
    requires
        same_cpu_ids(prev@, curr@),
    ensures
        usage_matches(r@, prev@, curr@),
        forall|k: int| 0 <= k < r.len() ==> (#[trigger] r[k]).1.well_formed(),
{
    let mut r: Vec<(String, Utilization)> = Vec::new();
    let mut k: usize = 0;
    while k < prev.len()
        invariant
            same_cpu_ids(prev@, curr@),
            k <= prev.len(),
            r.len() == k,
            forall|j: int|
                0 <= j < k ==> (#[trigger] r[j]).0@ == prev[j].cpu@ && r[j].1 == cpu_delta(
                    prev[j],
                    curr[j],
                ) && r[j].1.well_formed(),
        decreases prev.len() - k,
    {
        let u = cpu_utilization(&prev[k], &curr[k]);
        r.push((prev[k].cpu.clone(), u));
        k = k + 1;
    }
    r
}

/// Between any two snapshots the CPU percentage lies in 0 %..=100 %, and a
/// pair with no elapsed ticks gives the flagged 0 % sample.
pub proof fn lemma_cpu_percentage_bounded(prev: CpuTimes, curr: CpuTimes)
    ensures
        cpu_delta(prev, curr).part <= cpu_delta(prev, curr).whole,
        0 <= hundredths_of(cpu_delta(prev, curr)) <= 10000,
        total_ticks(curr) - total_ticks(prev) <= 0 ==> cpu_delta(prev, curr).whole == 0
            && hundredths_of(cpu_delta(prev, curr)) == 0,
{
    lemma_hundredths_bounded(cpu_delta(prev, curr));
}

} // verus!
