//! The sampling state: the previous CPU snapshot, the latest values, and one
//! window per series. Each tick hands in what was read; a failed read skips
//! that series for the tick and keeps what was shown.

use vstd::prelude::*;
use crate::cpu::{
    calculate_cpu_usage, cpu_delta, same_cpu_ids, same_cpus, usage_matches, CpuTimes,
};
use crate::error::ReadError;
use crate::memory::MemInfo;
use crate::utilization::Utilization;
use crate::window::{push_window, SampleBuffer};

verus! {

/// The charted series.
#[derive(Clone, Debug)]
pub struct DataSets {
    /// The all-CPU aggregate.
    pub cpu_percent: SampleBuffer,
    pub mem_percent: SampleBuffer,
}

impl DataSets {
    pub open spec fn well_formed(self) -> bool {
        self.cpu_percent.well_formed() && self.mem_percent.well_formed()
    }

    /// Two empty series: nothing is charted before a first delta exists.
    pub fn new() -> (r: DataSets)
        ensures
            r.well_formed(),
            r.cpu_percent.points@.len() == 0,
            r.mem_percent.points@.len() == 0,
    {
        DataSets { cpu_percent: SampleBuffer::new(), mem_percent: SampleBuffer::new() }
    }
}

/// A CPU listing that can be compared with the previous one; its first
/// entry is the all-CPU aggregate.
pub open spec fn comparable(prev: Seq<CpuTimes>, curr: Seq<CpuTimes>) -> bool {
    same_cpu_ids(prev, curr) && curr.len() > 0
}

#[derive(Clone, Debug)]
pub struct App {
    /// The utilization of each CPU at the last comparable tick.
    pub cpu_stats: Vec<(String, Utilization)>,
    /// The last memory snapshot read.
    pub memory_stats: MemInfo,
    /// The CPU snapshot the next tick is compared with.
    pub previous: Vec<CpuTimes>,
    pub exit: bool,
    pub datasets: DataSets,
}

impl App {
    pub open spec fn well_formed(self) -> bool {
        self.datasets.well_formed() && self.memory_stats.well_formed()
    }

    /// The state after the bootstrap reads: `baseline` is kept for the first
    /// delta and nothing is charted yet.
    pub fn new(baseline: Vec<CpuTimes>, memory: MemInfo) -> (r: App)
        requires
            memory.well_formed(),
        ensures
            r.well_formed(),
            r.previous@ == baseline@,
            r.memory_stats == memory,
            r.cpu_stats@.len() == 0,
            !r.exit,
            r.datasets.cpu_percent.points@.len() == 0,
            r.datasets.mem_percent.points@.len() == 0,
    {
        App {
            cpu_stats: Vec::new(),
            memory_stats: memory,
            previous: baseline,
            exit: false,
            datasets: DataSets::new(),
        }
    }

    /// One sampling tick. A comparable CPU listing yields each CPU's
    /// utilization and charts the aggregate's; a listing of other CPUs only
    /// becomes the new baseline; a failed read changes nothing of the CPU
    /// series. A memory snapshot is charted; a failed read changes nothing of
    /// the memory series.
    pub fn update(&mut self, cpu: Result<Vec<CpuTimes>, ReadError>, memory: Result<MemInfo, ReadError>)
        requires
            old(self).well_formed(),
            match memory {
                Ok(m) => m.well_formed(),
                Err(_) => true,
            },
        ensures
            final(self).well_formed(),
            final(self).exit == old(self).exit,
            match cpu {
                Ok(c) => {
                    &&& final(self).previous@ == c@
                    &&& comparable(old(self).previous@, c@) ==> {
                        &&& usage_matches(final(self).cpu_stats@, old(self).previous@, c@)
                        &&& final(self).datasets.cpu_percent.values() == push_window(
                            old(self).datasets.cpu_percent.values(),
                            cpu_delta(old(self).previous@[0], c@[0]),
                        )
                    }
                    &&& !comparable(old(self).previous@, c@) ==> {
                        &&& final(self).cpu_stats@ == old(self).cpu_stats@
                        &&& final(self).datasets.cpu_percent.points@
                            == old(self).datasets.cpu_percent.points@
                    }
                },
                Err(_) => {
                    &&& final(self).previous@ == old(self).previous@
                    &&& final(self).cpu_stats@ == old(self).cpu_stats@
                    &&& final(self).datasets.cpu_percent.points@
                        == old(self).datasets.cpu_percent.points@
                },
            },
            match memory {
                Ok(m) => {
                    &&& final(self).memory_stats == m
                    &&& final(self).datasets.mem_percent.values() == push_window(
                        old(self).datasets.mem_percent.values(),
                        m.percentage,
                    )
                },
                Err(_) => {
                    &&& final(self).memory_stats == old(self).memory_stats
                    &&& final(self).datasets.mem_percent.points@
                        == old(self).datasets.mem_percent.points@
                },
            },
    {
        match cpu {
            Ok(c) => {
                if c.len() > 0 && same_cpus(&self.previous, &c) {
                    let stats = calculate_cpu_usage(&self.previous, &c);
                    let aggregate = stats[0].1;
                    self.datasets.cpu_percent.push(aggregate);
                    self.cpu_stats = stats;
                }
                self.previous = c;
            },
            Err(_) => {},
        }
        match memory {
            Ok(m) => {
                self.datasets.mem_percent.push(m.percentage);
                self.memory_stats = m;
            },
            Err(_) => {},
        }
    }

    /// Stops the loop.
    pub fn exit(&mut self)
        ensures
            final(self).exit,
            final(self).previous@ == old(self).previous@,
            final(self).cpu_stats@ == old(self).cpu_stats@,
            final(self).memory_stats == old(self).memory_stats,
            final(self).datasets.cpu_percent.points@ == old(self).datasets.cpu_percent.points@,
            final(self).datasets.mem_percent.points@ == old(self).datasets.mem_percent.points@,
    {
        self.exit = true;
    }
}

} // verus!
