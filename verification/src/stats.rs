//! The rolling window of samples behind the throughput of a transfer.

use vstd::prelude::*;
use std::time::{Duration, Instant};

verus! {

/// A clock reading of std. Trusted as an opaque value.
#[verifier::external_type_specification]
#[verifier::external_body]
pub struct ExInstant(std::time::Instant);

/// `Instant::now` reads the clock: nothing is claimed of what it returns.
pub assume_specification[ std::time::Instant::now ]() -> (now: Instant);

/// `Instant::elapsed` reads the clock: nothing is claimed of what it returns.
pub assume_specification[ std::time::Instant::elapsed ](instant: &Instant) -> (elapsed: Duration);

/// `Duration::as_nanos`: nothing is claimed of what it returns.
pub assume_specification[ core::time::Duration::as_nanos ](duration: &Duration) -> (nanos: u128);

/// One second, in nanoseconds.
pub const SECOND: u64 = 1000000000;

/// The unit in which a rate is shown.
#[derive(Debug, PartialEq, Eq, Clone, Copy, Structural)]
pub enum Unit {
    Bits,
    Kilobits,
    Megabits,
    Gigabits,
}

impl Unit {
    /// The bits that make one of the unit.
    pub open spec fn spec_scale(self) -> usize {
        match self {
            Unit::Bits => 1,
            Unit::Kilobits => 1000,
            Unit::Megabits => 1000000,
            Unit::Gigabits => 1000000000,
        }
    }

    /// The unit in which a rate of `bits` is shown: the largest of which
    /// the rate holds more than one.
    pub open spec fn spec_of(bits: usize) -> Unit {
        if bits > 1000000000 {
            Unit::Gigabits
        } else if bits > 1000000 {
            Unit::Megabits
        } else if bits > 1000 {
            Unit::Kilobits
        } else {
            Unit::Bits
        }
    }

    #[verifier::when_used_as_spec(spec_of)]
    pub fn of(bits: usize) -> (unit: Unit)
        ensures
            unit == Unit::spec_of(bits),
    {
        if bits > 1000000000 {
            Unit::Gigabits
        } else if bits > 1000000 {
            Unit::Megabits
        } else if bits > 1000 {
            Unit::Kilobits
        } else {
            Unit::Bits
        }
    }

    #[verifier::when_used_as_spec(spec_scale)]
    pub fn scale(self) -> (bits: usize)
        ensures
            bits == self.spec_scale(),
    {
        match self {
            Unit::Bits => 1,
            Unit::Kilobits => 1000,
            Unit::Megabits => 1000000,
            Unit::Gigabits => 1000000000,
        }
    }

    /// The name of the unit, as it is shown.
    pub fn name(self) -> (name: &'static str)
        ensures
            name@ == match self {
                Unit::Bits => "b"@,
                Unit::Kilobits => "Kb"@,
                Unit::Megabits => "Mb"@,
                Unit::Gigabits => "Gb"@,
            },
    {
        match self {
            Unit::Bits => "b",
            Unit::Kilobits => "Kb",
            Unit::Megabits => "Mb",
            Unit::Gigabits => "Gb",
        }
    }
}

/// The samples of a transfer in progress: at each addition of bytes, the time
/// since the start in nanoseconds and the bytes that were counted before it.
#[derive(Debug)]
pub struct RealtimeStats {
    instant: Instant,
    current_bytes: usize,
    size: usize,
    measures: Vec<(u64, usize)>,
}

/// No sample is earlier than one before it, nor counts fewer bytes.
pub open spec fn ascending(measures: Seq<(u64, usize)>) -> bool {
    forall|i: int, j: int|
        0 <= i <= j < measures.len() ==> measures[i].0 <= measures[j].0 && measures[i].1
            <= measures[j].1
}

/// The index of the first sample from `from` on that is not earlier than
/// `threshold`; the length where there is none.
pub open spec fn first_recent(measures: Seq<(u64, usize)>, threshold: u64, from: int) -> int
    decreases measures.len() - from,
{
    if 0 <= from < measures.len() && measures[from].0 < threshold {
        first_recent(measures, threshold, from + 1)
    } else {
        from
    }
}

/// Where the last second before the newest sample begins.
pub open spec fn window_start(measures: Seq<(u64, usize)>) -> u64
    recommends
        measures.len() > 0,
{
    if measures.last().0 > SECOND {
        (measures.last().0 - SECOND) as u64
    } else {
        0
    }
}

/// The window after a reading of the speed: without the samples that are
/// older than a second, unless the newest sample is the initial one.
pub open spec fn recent(measures: Seq<(u64, usize)>) -> Seq<(u64, usize)>
    recommends
        measures.len() > 0,
{
    if measures.last() == (0u64, 0usize) {
        measures
    } else {
        measures.subrange(
            first_recent(measures, window_start(measures), 0),
            measures.len() as int,
        )
    }
}

/// The bytes counted and the nanoseconds passed between the first sample of
/// the last second and the newest one; nothing in a second where the newest
/// sample is the initial one.
pub open spec fn speed(measures: Seq<(u64, usize)>) -> (int, int)
    recommends
        measures.len() > 0,
{
    if measures.last() == (0u64, 0usize) {
        (0, SECOND as int)
    } else {
        let start = measures[first_recent(measures, window_start(measures), 0)];
        (measures.last().1 - start.1, measures.last().0 - start.0)
    }
}

/// The newest sample is never earlier than the start of its own window.
pub proof fn lemma_first_recent_in_range(measures: Seq<(u64, usize)>, threshold: u64, from: int)
    requires
        0 <= from < measures.len(),
        measures.last().0 >= threshold,
    ensures
        from <= first_recent(measures, threshold, from) < measures.len(),
        measures[first_recent(measures, threshold, from)].0 >= threshold,
        forall|i: int|
            from <= i < first_recent(measures, threshold, from) ==> measures[i].0 < threshold,
    decreases measures.len() - from,
{
    if measures[from].0 < threshold {
        lemma_first_recent_in_range(measures, threshold, from + 1);
    }
}

impl RealtimeStats {
    /// The bytes added so far.
    pub closed spec fn current_bytes(&self) -> nat {
        self.current_bytes as nat
    }

    /// The announced size of the transfer; 0 while none is set.
    pub closed spec fn size(&self) -> nat {
        self.size as nat
    }

    /// The window of samples, oldest first.
    pub closed spec fn measures(&self) -> Seq<(u64, usize)> {
        self.measures@
    }

    /// The window is never empty, its samples ascend, and none counts more
    /// bytes than were added.
    pub open spec fn wf(&self) -> bool {
        &&& self.measures().len() > 0
        &&& ascending(self.measures())
        &&& self.measures().last().1 <= self.current_bytes()
    }

    pub fn new() -> (stats: RealtimeStats)
        ensures
            stats.wf(),
            stats.current_bytes() == 0,
            stats.size() == 0,
            stats.measures() == seq![(0u64, 0usize)],
    {
        let mut measures: Vec<(u64, usize)> = Vec::new();
        measures.push((0, 0));
        assert(measures@ =~= seq![(0u64, 0usize)]);
        RealtimeStats { instant: Instant::now(), current_bytes: 0, size: 0, measures }
    }

    /// The bytes added so far.
    pub fn get_bytes(&self) -> (bytes: usize)
        ensures
            bytes == self.current_bytes(),
    {
        self.current_bytes
    }

    /// The size of the transfer; 0 while none is set.
    pub fn get_size(&self) -> (size: usize)
        ensures
            size == self.size(),
    {
        self.size
    }

    /// The samples in the window, oldest first.
    pub fn get_measures(&self) -> (measures: Vec<(u64, usize)>)
        ensures
            measures@ == self.measures(),
    {
        let mut measures: Vec<(u64, usize)> = Vec::new();
        let mut i: usize = 0;
        while i < self.measures.len()
            invariant
                i <= self.measures.len(),
                measures@ == self.measures@.subrange(0, i as int),
            decreases self.measures.len() - i,
        {
            measures.push(self.measures[i]);
            i += 1;
            assert(measures@ =~= self.measures@.subrange(0, i as int));
        }
        assert(self.measures@.subrange(0, i as int) =~= self.measures@);
        measures
    }

    /// Sets the size of the transfer, once: a size that is set stays.
    pub fn set_size(&mut self, size: usize)
        ensures
            final(self).size() == if old(self).size() == 0 {
                size as nat
            } else {
                old(self).size()
            },
            final(self).current_bytes() == old(self).current_bytes(),
            final(self).measures() == old(self).measures(),
    {
        if self.size == 0 {
            self.size = size
        }
    }

    /// Adds a sample taken `now` nanoseconds after the start, then counts
    /// `bytes` more. A reading that is earlier than the newest sample is
    /// taken as the time of that sample.
    pub fn record(&mut self, now: u64, bytes: usize)
        requires
            old(self).wf(),
            old(self).current_bytes() + bytes <= usize::MAX,
        ensures
            final(self).wf(),
            final(self).measures() == old(self).measures().push(
                (
                    if now < old(self).measures().last().0 {
                        old(self).measures().last().0
                    } else {
                        now
                    },
                    old(self).current_bytes() as usize,
                ),
            ),
            final(self).current_bytes() == old(self).current_bytes() + bytes,
            final(self).size() == old(self).size(),
    {
        let latest: u64 = self.measures[self.measures.len() - 1].0;
        let time: u64 = if now < latest {
            latest
        } else {
            now
        };
        self.measures.push((time, self.current_bytes));
        self.current_bytes += bytes;
    }

    /// Counts `bytes` more, with a sample at the time of the call.
    pub fn add_bytes(&mut self, bytes: usize)
        requires
            old(self).wf(),
            old(self).current_bytes() + bytes <= usize::MAX,
        ensures
            final(self).wf(),
            final(self).measures().len() == old(self).measures().len() + 1,
            final(self).measures().drop_last() == old(self).measures(),
            final(self).measures().last().1 == old(self).current_bytes(),
            final(self).current_bytes() == old(self).current_bytes() + bytes,
            final(self).size() == old(self).size(),
    {
        let nanos: u128 = self.instant.elapsed().as_nanos();
        let now: u64 = #[verifier::truncate]
        (nanos as u64);
        self.record(now, bytes);
        assert(self.measures().drop_last() =~= old(self).measures());
    }

    /// The speed over the last second: bytes and nanoseconds between the
    /// first sample of that second and the newest. Older samples leave the
    /// window.
    pub fn _get_speed(&mut self) -> (r: (usize, u64))
        requires
            old(self).wf(),
        ensures
            final(self).wf(),
            final(self).measures() == recent(old(self).measures()),
            (r.0 as int, r.1 as int) == speed(old(self).measures()),
            final(self).current_bytes() == old(self).current_bytes(),
            final(self).size() == old(self).size(),
    {
        let ghost before = self.measures@;
        let (last_time, last_bytes) = self.measures[self.measures.len() - 1];
        if last_time == 0 && last_bytes == 0 {
            return (0, SECOND);
        }
        let threshold: u64 = if last_time > SECOND {
            last_time - SECOND
        } else {
            0
        };
        proof {
            lemma_first_recent_in_range(before, threshold, 0);
        }
        let mut c: usize = 0;
        while self.measures[c].0 < threshold
            invariant
                self.measures@ == before,
                0 <= c < self.measures.len(),
                before.last().0 >= threshold,
                first_recent(before, threshold, 0) == first_recent(before, threshold, c as int),
            decreases before.len() - c,
        {
            proof {
                lemma_first_recent_in_range(before, threshold, c as int);
            }
            c += 1;
        }
        let mut k: usize = 0;
        while k < c
            invariant
                k <= c < before.len(),
                self.measures@ == before.subrange(k as int, before.len() as int),
                self.current_bytes == old(self).current_bytes,
                self.size == old(self).size,
            decreases c - k,
        {
            self.measures.remove(0);
            k += 1;
            assert(self.measures@ =~= before.subrange(k as int, before.len() as int));
        }
        let (start_time, start_bytes) = self.measures[0];
        (last_bytes - start_bytes, last_time - start_time)
    }
}

} // verus!
