//! The unchecked collector: rebuilds a container from a source of points
//! without re-validating order — an explicit, named escape hatch for callers
//! who have already produced an ordered sequence.

use vstd::prelude::*;

use crate::ordered::OrderedTimeSeriesIter;
use crate::ordered::ordered_emissions;
use crate::passthrough::TimeSeriesIter;
use crate::passthrough::passthrough_emissions;
use crate::series::TimeSeries;
use crate::series::TimeSeriesDataPoint;
use crate::series::nondecreasing;
use crate::series::times_of;
use crate::series::values_of;
use crate::shift::ShiftedTimeSeriesIter;
use crate::shift::shifted_emissions;

verus! {

/// Collects a source of points into a container through the unchecked
/// constructor: the caller attests to ordering, and no validation is
/// performed. Each implementor states in `collect_ens` which container its
/// points produce.
pub trait FromUncheckedIterator<T>: Sized {
    /// What the source must satisfy before it can be drained.
    spec fn collect_req(self) -> bool;

    /// How the collected container relates to the source.
    spec fn collect_ens(self, r: TimeSeries<T>) -> bool;

    /// Drains the source into a new container without order validation.
    fn collect_from_unchecked_iter(self) -> (r: TimeSeries<T>)
        requires
            self.collect_req(),
        ensures
            self.collect_ens(r),
    ;
}

impl<T> FromUncheckedIterator<T> for Vec<TimeSeriesDataPoint<i64, T>> {
    open spec fn collect_req(self) -> bool {
        true
    }

    /// The container holds exactly the given points, split into channels.
    open spec fn collect_ens(self, r: TimeSeries<T>) -> bool {
        &&& r.wf()
        &&& r.times() == times_of(self@)
        &&& r.vals() == values_of(self@)
    }

    fn collect_from_unchecked_iter(self) -> (r: TimeSeries<T>) {
        TimeSeries::from_tsdatapoints_unchecked(self)
    }
}

impl<'a, T: Copy> FromUncheckedIterator<T> for TimeSeriesIter<'a, T> {
    open spec fn collect_req(self) -> bool {
        self.wf()
    }

    /// The container holds every point the passthrough view would emit from
    /// its cursor onward.
    open spec fn collect_ens(self, r: TimeSeries<T>) -> bool {
        &&& r.wf()
        &&& r.times() == times_of(
            passthrough_emissions(self.ts.times(), self.ts.vals(), self.index as int),
        )
        &&& r.vals() == values_of(
            passthrough_emissions(self.ts.times(), self.ts.vals(), self.index as int),
        )
    }

    fn collect_from_unchecked_iter(self) -> (r: TimeSeries<T>) {
        let ghost s0 = self;
        let ghost tms = s0.ts.times();
        let ghost vls = s0.ts.vals();
        let mut it = self;
        let mut points: Vec<TimeSeriesDataPoint<i64, T>> = Vec::new();
        loop
            invariant
                it.wf(),
                it.ts == s0.ts,
                tms == s0.ts.times(),
                vls == s0.ts.vals(),
                s0.index <= it.index,
                points@ + passthrough_emissions(tms, vls, it.index as int)
                    =~= passthrough_emissions(tms, vls, s0.index as int),
            ensures
                points@ =~= passthrough_emissions(tms, vls, s0.index as int),
            decreases (if it.index <= it.ts.spec_len() {
                it.ts.spec_len() - it.index
            } else {
                0
            }),
        {
            let ghost pre = it;
            match it.next() {
                Some(p) => {
                    points.push(p);
                    proof {
                        assert(passthrough_emissions(tms, vls, pre.index as int) =~= seq![p]
                            + passthrough_emissions(tms, vls, it.index as int));
                        assert(points@ + passthrough_emissions(tms, vls, it.index as int)
                            =~= passthrough_emissions(tms, vls, s0.index as int));
                    }
                },
                None => {
                    proof {
                        assert(passthrough_emissions(tms, vls, it.index as int)
                            =~= Seq::empty());
                    }
                    break ;
                },
            }
        }
        TimeSeries::from_tsdatapoints_unchecked(points)
    }
}

impl<'a, T: Copy> FromUncheckedIterator<T> for OrderedTimeSeriesIter<'a, T> {
    open spec fn collect_req(self) -> bool {
        self.wf()
    }

    /// The container holds every point the validating view would emit from
    /// its state onward: the in-order prefix, and nothing past the first
    /// downward step.
    open spec fn collect_ens(self, r: TimeSeries<T>) -> bool {
        &&& r.wf()
        &&& r.times() == times_of(
            ordered_emissions(self.ts.times(), self.ts.vals(), self.index as int, self.priorts),
        )
        &&& r.vals() == values_of(
            ordered_emissions(self.ts.times(), self.ts.vals(), self.index as int, self.priorts),
        )
    }

    fn collect_from_unchecked_iter(self) -> (r: TimeSeries<T>) {
        let ghost s0 = self;
        let ghost tms = s0.ts.times();
        let ghost vls = s0.ts.vals();
        let mut it = self;
        let mut points: Vec<TimeSeriesDataPoint<i64, T>> = Vec::new();
        loop
            invariant
                it.wf(),
                it.ts == s0.ts,
                tms == s0.ts.times(),
                vls == s0.ts.vals(),
                points@ + ordered_emissions(tms, vls, it.index as int, it.priorts)
                    =~= ordered_emissions(tms, vls, s0.index as int, s0.priorts),
            ensures
                points@ =~= ordered_emissions(tms, vls, s0.index as int, s0.priorts),
            decreases (if it.index <= it.ts.spec_len() {
                it.ts.spec_len() - it.index
            } else {
                0
            }),
        {
            let ghost pre = it;
            match it.next() {
                Some(p) => {
                    points.push(p);
                    proof {
                        assert(ordered_emissions(tms, vls, pre.index as int, pre.priorts)
                            =~= seq![p] + ordered_emissions(
                            tms,
                            vls,
                            it.index as int,
                            it.priorts,
                        ));
                        assert(points@ + ordered_emissions(tms, vls, it.index as int, it.priorts)
                            =~= ordered_emissions(tms, vls, s0.index as int, s0.priorts));
                    }
                },
                None => {
                    proof {
                        assert(ordered_emissions(tms, vls, pre.index as int, pre.priorts)
                            =~= Seq::empty());
                        assert(ordered_emissions(tms, vls, it.index as int, it.priorts)
                            =~= Seq::empty());
                    }
                    break ;
                },
            }
        }
        TimeSeries::from_tsdatapoints_unchecked(points)
    }
}

impl<'a, T: Copy> FromUncheckedIterator<T> for ShiftedTimeSeriesIter<'a, T> {
    open spec fn collect_req(self) -> bool {
        self.wf()
    }

    /// The container holds every point the shift view emits from its cursor
    /// onward, up to the first step that emits nothing.
    open spec fn collect_ens(self, r: TimeSeries<T>) -> bool {
        &&& r.wf()
        &&& r.times() == times_of(
            shifted_emissions(
                self.ts.times(),
                self.ts.vals(),
                self.index as int,
                self.shift_index as int,
            ),
        )
        &&& r.vals() == values_of(
            shifted_emissions(
                self.ts.times(),
                self.ts.vals(),
                self.index as int,
                self.shift_index as int,
            ),
        )
    }

    fn collect_from_unchecked_iter(self) -> (r: TimeSeries<T>) {
        let ghost s0 = self;
        let ghost tms = s0.ts.times();
        let ghost vls = s0.ts.vals();
        let ghost d = s0.shift_index as int;
        let mut it = self;
        let tsbound = it.ts.len();
        let mut points: Vec<TimeSeriesDataPoint<i64, T>> = Vec::new();
        loop
            invariant_except_break
                points@ + shifted_emissions(tms, vls, it.index as int, d)
                    =~= shifted_emissions(tms, vls, s0.index as int, d),
            invariant
                it.wf(),
                it.ts == s0.ts,
                it.shift_index == s0.shift_index,
                tms == s0.ts.times(),
                vls == s0.ts.vals(),
                d == s0.shift_index as int,
                tms.len() == tsbound,
            ensures
                points@ =~= shifted_emissions(tms, vls, s0.index as int, d),
            decreases (if it.index <= it.ts.spec_len() {
                it.ts.spec_len() - it.index
            } else {
                0
            }),
        {
            if it.index >= tsbound {
                proof {
                    assert(shifted_emissions(tms, vls, it.index as int, d) =~= Seq::empty());
                }
                break ;
            }
            let ghost pre = it;
            match it.next() {
                Some(p) => {
                    points.push(p);
                    proof {
                        // an emitting step reads the value channel at the old
                        // cursor, which therefore lies inside the container
                        assert(pre.index < tms.len());
                        assert(shifted_emissions(tms, vls, pre.index as int, d) =~= seq![p]
                            + shifted_emissions(tms, vls, it.index as int, d));
                        assert(points@ + shifted_emissions(tms, vls, it.index as int, d)
                            =~= shifted_emissions(tms, vls, s0.index as int, d));
                    }
                },
                None => {
                    proof {
                        assert(shifted_emissions(tms, vls, pre.index as int, d)
                            =~= Seq::empty());
                    }
                    break ;
                },
            }
        }
        TimeSeries::from_tsdatapoints_unchecked(points)
    }
}

/// Unchecked-collect idempotence: on an already-ordered sequence of points,
/// a container built by the validating path and one built by the unchecked
/// path hold exactly the same points.
pub proof fn lemma_unchecked_collect_idempotent<T>(
    a: TimeSeries<T>,
    b: TimeSeries<T>,
    points: Seq<TimeSeriesDataPoint<i64, T>>,
)
    requires
        nondecreasing(times_of(points)),
        a.wf(),
        a.times() == times_of(points),
        a.vals() == values_of(points),
        b.wf(),
        b.times() == times_of(points),
        b.vals() == values_of(points),
    ensures
        a.points() =~= b.points(),
{
}

} // verus!
