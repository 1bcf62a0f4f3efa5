//! A fixed-width sliding window of samples, oldest first, with positions
//! always numbered 1..=len.

use vstd::prelude::*;
use crate::utilization::Utilization;

verus! {

/// How many samples a window keeps.
pub const WINDOW: usize = 60;

/// One charted point: its position on the x-axis and its value.
#[derive(Clone, Copy, Debug, PartialEq, Eq, Structural)]
pub struct Sample {
    pub position: u64,
    pub value: Utilization,
}

/// Positions run 1, 2, ..., len.
pub open spec fn numbered(points: Seq<Sample>) -> bool {
    forall|i: int| 0 <= i < points.len() ==> (#[trigger] points[i]).position == i + 1
}

/// The same values, positions renumbered 1..=len.
pub open spec fn renumbered(points: Seq<Sample>) -> Seq<Sample> {
    Seq::new(points.len(), |i: int| Sample { position: (i + 1) as u64, value: points[i].value })
}

/// The values of a window after one more is appended: the oldest leaves once
/// there would be more than `WINDOW`.
pub open spec fn push_window(values: Seq<Utilization>, v: Utilization) -> Seq<Utilization> {
    let s = values.push(v);
    if s.len() > WINDOW {
        s.subrange(1, s.len() as int)
    } else {
        s
    }
}

/// The values of a window that starts empty and takes `vs` one by one.
pub open spec fn fill(vs: Seq<Utilization>) -> Seq<Utilization>
    decreases vs.len(),
{
    if vs.len() == 0 {
        Seq::empty()
    } else {
        push_window(fill(vs.drop_last()), vs.last())
    }
}

/// The samples of one series.
#[derive(Clone, Debug)]
pub struct SampleBuffer {
    pub points: Vec<Sample>,
}

impl SampleBuffer {
    /// The values, oldest first.
    pub open spec fn values(self) -> Seq<Utilization> {
        self.points@.map_values(|p: Sample| p.value)
    }

    /// Never more than `WINDOW` samples, numbered 1..=len, each between 0 %
    /// and 100 %.
    pub open spec fn well_formed(self) -> bool {
        &&& self.points.len() <= WINDOW
        &&& numbered(self.points@)
        &&& forall|i: int| 0 <= i < self.points.len() ==> (#[trigger] self.points@[i]).value.well_formed()
    }

    /// An empty window.
    pub fn new() -> (r: SampleBuffer)
        ensures
            r.points@.len() == 0,
            r.well_formed(),
    {
        SampleBuffer { points: Vec::new() }
    }

    /// How many samples the window holds.
    pub fn len(&self) -> (r: usize)
        ensures
            r == self.points.len(),
    {
        self.points.len()
    }

    /// Sets each position to its place in the window, counting from 1.
    pub fn renumber(&mut self)
        requires
            old(self).points.len() < u64::MAX,
        ensures
            final(self).points@ == renumbered(old(self).points@),
            numbered(final(self).points@),
            final(self).values() == old(self).values(),
    {
        let ghost orig = self.points@;
        let mut i: usize = 0;
        while i < self.points.len()
            invariant
                self.points.len() == orig.len(),
                orig.len() < u64::MAX,
                i <= self.points.len(),
                forall|j: int| 0 <= j < i ==> self.points@[j] == renumbered(orig)[j],
                forall|j: int| i <= j < orig.len() ==> self.points@[j] == orig[j],
            decreases self.points.len() - i,
        {
            let value = self.points[i].value;
            self.points.set(i, Sample { position: (i + 1) as u64, value });
            i = i + 1;
        }
        assert(self.points@ =~= renumbered(orig));
        assert(self.values() =~= orig.map_values(|p: Sample| p.value));
    }

    /// Appends a sample, drops the oldest past `WINDOW`, and renumbers.
    pub fn push(&mut self, value: Utilization)
        requires
            old(self).well_formed(),
            value.well_formed(),
        ensures
            final(self).well_formed(),
            final(self).values() == push_window(old(self).values(), value),
    {
        let ghost before = self.values();
        let ghost before_points = self.points@;
        let provisional = self.points.len() as u64;
        self.points.push(Sample { position: provisional, value });
        assert(self.values() =~= before.push(value));
        if self.points.len() > WINDOW {
            self.points.remove(0);
            assert(self.values() =~= before.push(value).subrange(1, before.len() + 1 as int));
        }
        assert forall|i: int| 0 <= i < self.points.len() implies (#[trigger] self.points@[i]).value.well_formed() by {
            if old(self).points.len() + 1 > WINDOW {
                assert(self.points@[i] == before_points.push(Sample { position: provisional, value })[i + 1]);
            } else {
                assert(self.points@[i] == before_points.push(Sample { position: provisional, value })[i]);
            }
        }
        let ghost pushed = self.points@;
        self.renumber();
        assert forall|i: int| 0 <= i < self.points.len() implies (#[trigger] self.points@[i]).value.well_formed() by {
            assert(self.points@[i].value == pushed[i].value);
        }
    }
}

/// Renumbering a window that is already numbered changes nothing.
pub proof fn lemma_renumber_idempotent(points: Seq<Sample>)
    requires
        numbered(points),
    ensures
        renumbered(points) == points,
{
    assert(renumbered(points) =~= points);
}

/// Filling an empty window with `vs` keeps exactly the last
/// `min(|vs|, WINDOW)` values, in the order they were pushed: all of them
/// when there are at most `WINDOW`, and the last `WINDOW` otherwise.
pub proof fn lemma_fill_keeps_latest(vs: Seq<Utilization>)
    ensures
        vs.len() <= WINDOW ==> fill(vs) == vs,
        vs.len() > WINDOW ==> fill(vs) == vs.subrange(vs.len() - WINDOW, vs.len() as int),
        fill(vs).len() == if vs.len() <= WINDOW {
            vs.len() as int
        } else {
            WINDOW as int
        },
    decreases vs.len(),
{
    if vs.len() == 0 {
        assert(fill(vs) =~= vs);
    } else {
        let u = vs.drop_last();
        lemma_fill_keeps_latest(u);
        if vs.len() <= WINDOW {
            assert(fill(vs) =~= vs);
        } else {
            assert(fill(vs) =~= vs.subrange(vs.len() - WINDOW, vs.len() as int));
        }
    }
}

} // verus!
