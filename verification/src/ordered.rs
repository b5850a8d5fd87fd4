//! Order-validating views: the same traversal as the passthrough views, but
//! each step compares the next time index against the last emitted one. A
//! single out-of-order element closes the view for good: it fails closed
//! rather than skipping and continuing.

use vstd::prelude::*;

use crate::series::TimeSeries;
use crate::series::TimeSeriesDataPoint;
use crate::series::nondecreasing;

verus! {

/// Everything an order-validating view started at `index` with last emitted
/// time `prior` will ever emit: points are taken in insertion order while the
/// time channel never steps downward, and emission stops for good at the
/// first violation.
pub open spec fn ordered_emissions<T>(
    times: Seq<i64>,
    values: Seq<T>,
    index: int,
    prior: Option<i64>,
) -> Seq<TimeSeriesDataPoint<i64, T>>
    decreases times.len() - index,
{
    if 0 <= index < times.len() {
        let t = times[index];
        if prior is None || t >= prior.unwrap() {
            seq![TimeSeriesDataPoint::spec_new(t, values[index])] + ordered_emissions(
                times,
                values,
                index + 1,
                Some(t),
            )
        } else {
            Seq::empty()
        }
    } else {
        Seq::empty()
    }
}

/// A view that guarantees proper ordering of the container: if it encounters
/// a time index below the last one emitted it stops evaluating permanently.
pub struct OrderedTimeSeriesIter<'a, T> {
    pub ts: &'a TimeSeries<T>,
    pub index: usize,
    pub priorts: Option<i64>,
}

impl<'a, T: Copy> OrderedTimeSeriesIter<'a, T> {
    pub open spec fn wf(self) -> bool {
        self.ts.wf()
    }

    pub fn new(ts: &'a TimeSeries<T>, index: usize) -> (r: OrderedTimeSeriesIter<'a, T>)
        ensures
            r.ts == ts,
            r.index == index,
            r.priorts is None,
    {
        OrderedTimeSeriesIter { ts, index, priorts: None }
    }

    /// Emits the point at the cursor if its time index does not fall below
    /// the last one emitted; a violation exhausts the view permanently.
    pub fn next(&mut self) -> (r: Option<TimeSeriesDataPoint<i64, T>>)
        requires
            old(self).wf(),
        ensures
            final(self).ts == old(self).ts,
            ({
                let s = *old(self);
                let len = s.ts.spec_len();
                if s.index < len {
                    let t = s.ts.times()[s.index as int];
                    if s.priorts is None || t >= s.priorts.unwrap() {
                        &&& r == Some(
                            TimeSeriesDataPoint::spec_new(t, s.ts.vals()[s.index as int]),
                        )
                        &&& final(self).index == s.index + 1
                        &&& final(self).priorts == Some(t)
                    } else {
                        &&& r is None
                        &&& final(self).index == len
                        &&& final(self).priorts == s.priorts
                    }
                } else {
                    r is None && *final(self) == s
                }
            }),
    {
        if self.index < self.ts.len() {
            self.index += 1;
            let t = self.ts.timeindicies[self.index - 1];
            let in_order = match self.priorts {
                None => true,
                Some(p) => t >= p,
            };
            if in_order {
                self.priorts = Some(t);
                Some(TimeSeriesDataPoint::new(t, self.ts.values[self.index - 1]))
            } else {
                self.index = self.ts.len();
                None
            }
        } else {
            None
        }
    }
}

/// The order-validating view that returns its points by reference; the same
/// fail-closed traversal as `OrderedTimeSeriesIter`.
pub struct OrderedTimeSeriesRefIter<'a, T> {
    pub ts: &'a TimeSeries<T>,
    pub index: usize,
    pub priorts: Option<i64>,
}

impl<'a, T> OrderedTimeSeriesRefIter<'a, T> {
    pub open spec fn wf(self) -> bool {
        self.ts.wf()
    }

    pub fn new(ts: &'a TimeSeries<T>, index: usize) -> (r: OrderedTimeSeriesRefIter<'a, T>)
        ensures
            r.ts == ts,
            r.index == index,
            r.priorts is None,
    {
        OrderedTimeSeriesRefIter { ts, index, priorts: None }
    }

    /// Emits the point at the cursor by reference if its time index does not
    /// fall below the last one emitted; a violation exhausts the view
    /// permanently.
    pub fn next(&mut self) -> (r: Option<TimeSeriesDataPoint<&'a i64, &'a T>>)
        requires
            old(self).wf(),
        ensures
            final(self).ts == old(self).ts,
            ({
                let s = *old(self);
                let len = s.ts.spec_len();
                if s.index < len {
                    let t = s.ts.times()[s.index as int];
                    if s.priorts is None || t >= s.priorts.unwrap() {
                        &&& r is Some
                        &&& *r.unwrap().timestamp == t
                        &&& *r.unwrap().value == s.ts.vals()[s.index as int]
                        &&& final(self).index == s.index + 1
                        &&& final(self).priorts == Some(t)
                    } else {
                        &&& r is None
                        &&& final(self).index == len
                        &&& final(self).priorts == s.priorts
                    }
                } else {
                    r is None && *final(self) == s
                }
            }),
    {
        if self.index < self.ts.len() {
            self.index += 1;
            let t = self.ts.timeindicies[self.index - 1];
            let in_order = match self.priorts {
                None => true,
                Some(p) => t >= p,
            };
            if in_order {
                self.priorts = Some(t);
                Some(
                    TimeSeriesDataPoint::new(
                        &self.ts.timeindicies[self.index - 1],
                        &self.ts.values[self.index - 1],
                    ),
                )
            } else {
                self.index = self.ts.len();
                None
            }
        } else {
            None
        }
    }
}

/// From a position whose predecessor was emitted, the validating traversal
/// emits exactly the points up to the first downward step (or to the end).
pub proof fn lemma_ordered_emissions_sorted_prefix<T>(
    times: Seq<i64>,
    values: Seq<T>,
    i: int,
    m: int,
)
    requires
        times.len() == values.len(),
        1 <= i <= m <= times.len(),
        forall|p: int| i <= p < m ==> times[p - 1] <= #[trigger] times[p],
        m < times.len() ==> times[m] < times[m - 1],
    ensures
        ordered_emissions(times, values, i, Some(times[i - 1])) =~= Seq::new(
            (m - i) as nat,
            |j: int| TimeSeriesDataPoint::spec_new(times[i + j], values[i + j]),
        ),
    decreases m - i,
{
    if i == m {
        assert(ordered_emissions(times, values, i, Some(times[i - 1])) =~= Seq::empty());
    } else {
        lemma_ordered_emissions_sorted_prefix(times, values, i + 1, m);
    }
}

/// Ordering gate: in a container whose time channel is nondecreasing up to
/// position `k` and strictly falls at `k`, the validating view emits exactly
/// the first `k` points and nothing after.
pub proof fn lemma_ordering_gate<T>(times: Seq<i64>, values: Seq<T>, k: int)
    requires
        times.len() == values.len(),
        0 < k < times.len(),
        forall|p: int| 0 < p < k ==> times[p - 1] <= #[trigger] times[p],
        times[k] < times[k - 1],
    ensures
        ordered_emissions(times, values, 0, None) =~= Seq::new(
            k as nat,
            |j: int| TimeSeriesDataPoint::spec_new(times[j], values[j]),
        ),
{
    lemma_ordered_emissions_sorted_prefix(times, values, 1, k);
}

/// On a container whose whole time channel is nondecreasing, the validating
/// view emits every point, in insertion order.
pub proof fn lemma_ordered_emits_all<T>(times: Seq<i64>, values: Seq<T>)
    requires
        times.len() == values.len(),
        nondecreasing(times),
    ensures
        ordered_emissions(times, values, 0, None) =~= Seq::new(
            times.len(),
            |j: int| TimeSeriesDataPoint::spec_new(times[j], values[j]),
        ),
{
    if times.len() > 0 {
        lemma_ordered_emissions_sorted_prefix(times, values, 1, times.len() as int);
    }
}

} // verus!
