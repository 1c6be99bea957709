//! Sensors: they record the signals that a test run emits and hand them out
//! as observations once the run is over.
use vstd::prelude::*;

use vstd::pervasive::VecAdditionalExecFns;

verus! {

/// A sensor accumulates observations between `start_recording` and
/// `stop_recording`, which bracket a single test run, and streams them out
/// afterwards.
pub trait Sensor: Sized {
    /// The observations of one recorded test run.
    type Observations;

    /// What beginning a recording does to the sensor's state.
    spec fn spec_start(pre: Self, post: Self) -> bool;

    /// What ending a recording does to the sensor's state.
    spec fn spec_stop(pre: Self, post: Self) -> bool;

    /// Which observations a sensor in state `pre` streams out, and the
    /// state it is left in.
    spec fn spec_observations(pre: Self, post: Self, observations: Self::Observations) -> bool;

    /// Begins recording a test run.
    fn start_recording(&mut self)
        ensures
            Self::spec_start(*old(self), *final(self)),
    ;

    /// Ends recording a test run.
    fn stop_recording(&mut self)
        ensures
            Self::spec_stop(*old(self), *final(self)),
    ;

    /// The observations accumulated since `start_recording`.
    fn iterate_over_observations(&mut self) -> (r: Self::Observations)
        ensures
            Self::spec_observations(*old(self), *final(self), r),
    ;
}

/// The observations that a counter array yields: the pairs
/// `(index, counter value)` of its nonzero counters, in index order.
pub open spec fn nonzero_observations(counters: Seq<u64>) -> Seq<(usize, u64)>
    decreases counters.len(),
{
    if counters.len() == 0 {
        Seq::empty()
    } else {
        let prefix = nonzero_observations(counters.drop_last());
        if counters.last() != 0 {
            prefix.push((((counters.len() - 1) as usize), counters.last()))
        } else {
            prefix
        }
    }
}

/// A sensor over an array of counters that the test itself sets, enabling
/// manually instrumented metrics. Recording zeroes the counters; the
/// observations are the nonzero counters with their indices.
pub struct ArrayOfCounters {
    counters: Vec<u64>,
}

impl ArrayOfCounters {
    /// The current counter values.
    pub closed spec fn spec_counters(self) -> Seq<u64> {
        self.counters@
    }

    /// A sensor over the given counters.
    pub fn new(xs: Vec<u64>) -> (r: Self)
        ensures
            r.spec_counters() == xs@,
    {
        ArrayOfCounters { counters: xs }
    }

    /// How many counters the sensor watches.
    pub fn len(&self) -> (r: usize)
        ensures
            r == self.spec_counters().len(),
    {
        self.counters.len()
    }

    /// Sets one counter, as the instrumented test does between
    /// `start_recording` and `stop_recording`.
    pub fn set_counter(&mut self, idx: usize, value: u64)
        requires
            idx < old(self).spec_counters().len(),
        ensures
            final(self).spec_counters() == old(self).spec_counters().update(idx as int, value),
    {
        self.counters.set(idx, value);
    }
}

impl Sensor for ArrayOfCounters {
    type Observations = Vec<(usize, u64)>;

    /// Recording zeroes every counter.
    open spec fn spec_start(pre: Self, post: Self) -> bool {
        post.spec_counters() == Seq::new(pre.spec_counters().len(), |i: int| 0u64)
    }

    /// Stopping needs no barrier here: the test runs on the same thread,
    /// so nothing is left to flush, and the counters stay as written.
    open spec fn spec_stop(pre: Self, post: Self) -> bool {
        post == pre
    }

    /// The observations are exactly the nonzero counters with their
    /// indices, in index order; reading them changes nothing.
    open spec fn spec_observations(
        pre: Self,
        post: Self,
        observations: Vec<(usize, u64)>,
    ) -> bool {
        post == pre && observations@ == nonzero_observations(pre.spec_counters())
    }

    /// Zeroes every counter.
    fn start_recording(&mut self) {
        let n = self.counters.len();
        let mut i: usize = 0;
        while i < n
            invariant
                i <= n,
                self.counters@.len() == n,
                forall|j: int| 0 <= j < i ==> self.counters@[j] == 0,
            decreases n - i,
        {
            self.counters.set(i, 0);
            i += 1;
        }
        proof {
            assert(self.counters@ =~= Seq::new(self.counters@.len(), |i: int| 0u64));
        }
    }

    fn stop_recording(&mut self) {
    }

    /// Yields `(index, value)` for each nonzero counter, in index order.
    fn iterate_over_observations(&mut self) -> (r: Vec<(usize, u64)>) {
        let n = self.counters.len();
        let mut r: Vec<(usize, u64)> = Vec::new();
        let mut i: usize = 0;
        while i < n
            invariant
                i <= n,
                self.counters@.len() == n,
                r@ == nonzero_observations(self.counters@.take(i as int)),
            decreases n - i,
        {
            proof {
                assert(self.counters@.take(i as int + 1).drop_last() =~= self.counters@.take(
                    i as int,
                ));
                assert(self.counters@.take(i as int + 1).last() == self.counters@[i as int]);
            }
            let x = self.counters[i];
            if x != 0 {
                r.push((i, x));
            }
            i += 1;
        }
        proof {
            assert(self.counters@.take(self.counters@.len() as int) =~= self.counters@);
        }
        r
    }
}

impl ArrayOfCounters {
    /// A counter array has no on-disk form: nothing to serialize.
    pub fn serialized(&self) -> (r: Vec<(String, Vec<u8>)>)
        ensures
            r@.len() == 0,
    {
        Vec::new()
    }
}

/// The product of two sensors: both record the same run, and the
/// observations are the pair of their observations.
pub struct AndSensor<S1, S2> {
    pub s1: S1,
    pub s2: S2,
}

impl<S1: Sensor, S2: Sensor> Sensor for AndSensor<S1, S2> {
    type Observations = (S1::Observations, S2::Observations);

    /// Both sub-sensors begin recording.
    open spec fn spec_start(pre: Self, post: Self) -> bool {
        S1::spec_start(pre.s1, post.s1) && S2::spec_start(pre.s2, post.s2)
    }

    /// Both sub-sensors end recording.
    open spec fn spec_stop(pre: Self, post: Self) -> bool {
        S1::spec_stop(pre.s1, post.s1) && S2::spec_stop(pre.s2, post.s2)
    }

    /// The observations pair the two sub-sensors' observations.
    open spec fn spec_observations(
        pre: Self,
        post: Self,
        observations: (S1::Observations, S2::Observations),
    ) -> bool {
        S1::spec_observations(pre.s1, post.s1, observations.0) && S2::spec_observations(
            pre.s2,
            post.s2,
            observations.1,
        )
    }

    fn start_recording(&mut self) {
        self.s1.start_recording();
        self.s2.start_recording();
    }

    fn stop_recording(&mut self) {
        self.s1.stop_recording();
        self.s2.stop_recording();
    }

    fn iterate_over_observations(&mut self) -> (r: (S1::Observations, S2::Observations)) {
        let o1 = self.s1.iterate_over_observations();
        let o2 = self.s2.iterate_over_observations();
        (o1, o2)
    }
}

} // verus!
