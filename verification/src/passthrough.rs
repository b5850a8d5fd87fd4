//! Insertion-order passthrough views: the baseline traversal the other views
//! are checked against. No validation, no failure modes.

use vstd::prelude::*;

use crate::series::TimeSeries;
use crate::series::TimeSeriesDataPoint;

verus! {

/// Everything a passthrough view started at `index` will ever emit: the
/// points from `index` to the end of the container, in insertion order.
pub open spec fn passthrough_emissions<T>(
    times: Seq<i64>,
    values: Seq<T>,
    index: int,
) -> Seq<TimeSeriesDataPoint<i64, T>> {
    if 0 <= index <= times.len() {
        Seq::new(
            (times.len() - index) as nat,
            |j: int| TimeSeriesDataPoint::spec_new(times[index + j], values[index + j]),
        )
    } else {
        Seq::empty()
    }
}

/// Insertion-order traversal producing owned copies of each point; terminal
/// when the cursor reaches the container length.
pub struct TimeSeriesIter<'a, T> {
    pub ts: &'a TimeSeries<T>,
    pub index: usize,
}

impl<'a, T: Copy> TimeSeriesIter<'a, T> {
    pub open spec fn wf(self) -> bool {
        self.ts.wf()
    }

    pub fn new(ts: &'a TimeSeries<T>, index: usize) -> (r: TimeSeriesIter<'a, T>)
        ensures
            r.ts == ts,
            r.index == index,
    {
        TimeSeriesIter { ts, index }
    }

    /// Emits the point at the cursor and advances; nothing once the cursor has
    /// reached the container length.
    pub fn next(&mut self) -> (r: Option<TimeSeriesDataPoint<i64, T>>)
        requires
            old(self).wf(),
        ensures
            final(self).ts == old(self).ts,
            old(self).index < old(self).ts.spec_len() ==> {
                &&& final(self).index == old(self).index + 1
                &&& r == Some(
                    TimeSeriesDataPoint::spec_new(
                        old(self).ts.times()[old(self).index as int],
                        old(self).ts.vals()[old(self).index as int],
                    ),
                )
            },
            old(self).index >= old(self).ts.spec_len() ==> r is None && *final(self) == *old(self),
    {
        if self.index < self.ts.len() {
            self.index += 1;
            Some(
                TimeSeriesDataPoint::new(
                    self.ts.timeindicies[self.index - 1],
                    self.ts.values[self.index - 1],
                ),
            )
        } else {
            None
        }
    }
}

/// Insertion-order traversal producing each point as a pair of references
/// into the channels; terminal when the cursor reaches the container length.
pub struct TimeSeriesRefIter<'a, T> {
    pub ts: &'a TimeSeries<T>,
    pub index: usize,
}

impl<'a, T> TimeSeriesRefIter<'a, T> {
    pub open spec fn wf(self) -> bool {
        self.ts.wf()
    }

    pub fn new(ts: &'a TimeSeries<T>, index: usize) -> (r: TimeSeriesRefIter<'a, T>)
        ensures
            r.ts == ts,
            r.index == index,
    {
        TimeSeriesRefIter { ts, index }
    }

    /// Emits the point at the cursor by reference and advances; nothing once
    /// the cursor has reached the container length.
    pub fn next(&mut self) -> (r: Option<TimeSeriesDataPoint<&'a i64, &'a T>>)
        requires
            old(self).wf(),
        ensures
            final(self).ts == old(self).ts,
            old(self).index < old(self).ts.spec_len() ==> {
                &&& final(self).index == old(self).index + 1
                &&& r is Some
                &&& *r.unwrap().timestamp == old(self).ts.times()[old(self).index as int]
                &&& *r.unwrap().value == old(self).ts.vals()[old(self).index as int]
            },
            old(self).index >= old(self).ts.spec_len() ==> r is None && *final(self) == *old(self),
    {
        if self.index < self.ts.len() {
            self.index += 1;
            Some(
                TimeSeriesDataPoint::new(
                    &self.ts.timeindicies[self.index - 1],
                    &self.ts.values[self.index - 1],
                ),
            )
        } else {
            None
        }
    }
}

} // verus!
