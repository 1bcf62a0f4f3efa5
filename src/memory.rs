//! Memory counters: the kernel's `<Key>: <value> kB` listing.

use vstd::prelude::*;
use crate::error::ReadError;
use crate::text::{is_counter, lines_view, numeral_value, parse_counter, spans_view, word_is, word_spans, words};
use crate::utilization::Utilization;

verus! {

/// One memory snapshot, in kibibytes, with its utilization.
#[derive(Clone, Copy, Debug, PartialEq, Eq, Structural)]
pub struct MemInfo {
    pub total: u64,
    pub available: u64,
    pub cache: u64,
    pub percentage: Utilization,
}

impl MemInfo {
    /// The percentage is the one the totals give.
    pub open spec fn well_formed(self) -> bool {
        self.percentage == memory_share(self.total, self.available)
    }

    /// A snapshot of the given counters, with its utilization.
    pub fn new(total: u64, available: u64, cache: u64) -> (r: MemInfo)
        ensures
            r.total == total,
            r.available == available,
            r.cache == cache,
            r.well_formed(),
    {
        MemInfo { total, available, cache, percentage: mem_usage_percentage(total, available) }
    }
}

/// The share of memory in use: `(total - available) / total`. A zero total
/// gives the no-change sample; more available than total counts as none used.
pub open spec fn memory_share(total: u64, available: u64) -> Utilization {
    if total == 0 {
        Utilization { part: 0, whole: 0 }
    } else if available >= total {
        Utilization { part: 0, whole: total as u128 }
    } else {
        Utilization { part: (total - available) as u128, whole: total as u128 }
    }
}

/// The memory utilization of one snapshot.
pub fn mem_usage_percentage(total: u64, available: u64) -> (r: Utilization)
    ensures
        r == memory_share(total, available),
        r.well_formed(),
{
    if total == 0 {
        Utilization::no_change()
    } else if available >= total {
        Utilization { part: 0, whole: total as u128 }
    } else {
        Utilization { part: (total - available) as u128, whole: total as u128 }
    }
}

pub open spec fn total_key() -> Seq<char> {
    "MemTotal:"@
}

pub open spec fn available_key() -> Seq<char> {
    "MemAvailable:"@
}

pub open spec fn cached_key() -> Seq<char> {
    "Cached:"@
}

/// A line whose first word is `key`.
pub open spec fn keyed(s: Seq<char>, key: Seq<char>) -> bool {
    words(s).len() >= 1 && words(s)[0] == key
}

/// A line with a retained key whose value is absent or not a counter.
pub open spec fn is_bad_mem_line(s: Seq<char>) -> bool {
    &&& keyed(s, total_key()) || keyed(s, available_key()) || keyed(s, cached_key())
    &&& words(s).len() < 2 || !is_counter(words(s)[1])
}

/// The value of the last line keyed by `key`, or zero where there is none.
pub open spec fn mem_field(ls: Seq<Seq<char>>, key: Seq<char>) -> int
    decreases ls.len(),
{
    if ls.len() == 0 {
        0
    } else if keyed(ls.last(), key) {
        numeral_value(words(ls.last())[1])
    } else {
        mem_field(ls.drop_last(), key)
    }
}

/// Parses a memory listing. Only `MemTotal`, `MemAvailable` and `Cached` are
/// kept (the last line of each wins); a key that never occurs stays zero.
/// Fails when the value of a kept key is not a counter.
pub fn parse_mem_lines(lines: &Vec<String>) -> (r: Result<MemInfo, ReadError>)
    ensures
        match r {
            Ok(m) => {
                &&& forall|i: int| 0 <= i < lines.len() ==> !is_bad_mem_line(#[trigger] lines[i]@)
                &&& m.total == mem_field(lines_view(lines@), total_key())
                &&& m.available == mem_field(lines_view(lines@), available_key())
                &&& m.cache == mem_field(lines_view(lines@), cached_key())
                &&& m.well_formed()
            },
            Err(e) => {
                &&& e == ReadError::MalformedData
                &&& exists|i: int| 0 <= i < lines.len() && is_bad_mem_line(#[trigger] lines[i]@)
            },
        },
{
    let mut total: u64 = 0;
    let mut available: u64 = 0;
    let mut cache: u64 = 0;
    let mut i: usize = 0;
    while i < lines.len()
        invariant
            i <= lines.len(),
            forall|j: int| 0 <= j < i ==> !is_bad_mem_line(#[trigger] lines[j]@),
            total == mem_field(lines_view(lines@.subrange(0, i as int)), total_key()),
            available == mem_field(lines_view(lines@.subrange(0, i as int)), available_key()),
            cache == mem_field(lines_view(lines@.subrange(0, i as int)), cached_key()),
        decreases lines.len() - i,
    {
        let line = lines[i].as_str();
        let ghost before = lines_view(lines@.subrange(0, i as int));
        let ghost after = lines_view(lines@.subrange(0, i + 1));
        assert(after.drop_last() =~= before);
        assert(after.last() == lines[i as int]@);
        let spans = word_spans(line);
        if spans.len() >= 1 {
            let (a, b) = spans[0];
            assert(words(line@)[0] == line@.subrange(a as int, b as int));
            let is_total = word_is(line, a, b, "MemTotal:");
            let is_available = word_is(line, a, b, "MemAvailable:");
            let is_cached = word_is(line, a, b, "Cached:");
            if is_total || is_available || is_cached {
                if spans.len() < 2 {
                    return Err(ReadError::MalformedData);
                }
                let (c, d) = spans[1];
                assert(words(line@)[1] == line@.subrange(c as int, d as int));
                match parse_counter(line, c, d) {
                    Some(v) => {
                        proof {
                            reveal_strlit("MemTotal:");
                            reveal_strlit("MemAvailable:");
                            reveal_strlit("Cached:");
                        }
                        if is_total {
                            total = v;
                        } else if is_available {
                            available = v;
                        } else {
                            cache = v;
                        }
                    },
                    None => return Err(ReadError::MalformedData),
                }
            }
        }
        i = i + 1;
    }
    assert(lines@.subrange(0, i as int) =~= lines@);
    let percentage = mem_usage_percentage(total, available);
    Ok(MemInfo { total, available, cache, percentage })
}

} // verus!
