//! The ordered container: two parallel channels (time indices and values)
//! whose elements at the same position form one logical point.

use vstd::prelude::*;

verus! {

/// One (time index, value) pair, the item every view produces.
#[derive(Clone, Copy, PartialEq, Debug)]
pub struct TimeSeriesDataPoint<TDate, T> {
    pub timestamp: TDate,
    pub value: T,
}

impl<TDate, T> TimeSeriesDataPoint<TDate, T> {
    pub open spec fn spec_new(timestamp: TDate, value: T) -> Self {
        TimeSeriesDataPoint { timestamp, value }
    }

    #[verifier::when_used_as_spec(spec_new)]
    pub fn new(timestamp: TDate, value: T) -> (r: Self)
        ensures
            r == Self::spec_new(timestamp, value),
    {
        TimeSeriesDataPoint { timestamp, value }
    }
}

/// True when `s` never steps downward.
pub open spec fn nondecreasing(s: Seq<i64>) -> bool {
    forall|i: int, j: int| 0 <= i <= j < s.len() ==> s[i] <= s[j]
}

/// The time channel of a sequence of points.
pub open spec fn times_of<T>(points: Seq<TimeSeriesDataPoint<i64, T>>) -> Seq<i64> {
    points.map_values(|p: TimeSeriesDataPoint<i64, T>| p.timestamp)
}

/// The value channel of a sequence of points.
pub open spec fn values_of<T>(points: Seq<TimeSeriesDataPoint<i64, T>>) -> Seq<T> {
    points.map_values(|p: TimeSeriesDataPoint<i64, T>| p.value)
}

/// The container: a time channel and a value channel of equal length.
/// Insertion order is the authoritative order; sortedness is asserted only
/// lazily, by the order-validating views.
#[derive(PartialEq, Debug)]
pub struct TimeSeries<T> {
    pub timeindicies: Vec<i64>,
    pub values: Vec<T>,
}

impl<T> TimeSeries<T> {
    /// The time channel as a mathematical sequence.
    pub open spec fn times(self) -> Seq<i64> {
        self.timeindicies@
    }

    /// The value channel as a mathematical sequence.
    pub open spec fn vals(self) -> Seq<T> {
        self.values@
    }

    /// The container invariant: both channels have the same length.
    pub open spec fn wf(self) -> bool {
        self.timeindicies@.len() == self.values@.len()
    }

    pub open spec fn spec_len(self) -> nat {
        self.timeindicies@.len()
    }

    /// The container seen as the sequence of its logical points.
    pub open spec fn points(self) -> Seq<TimeSeriesDataPoint<i64, T>> {
        Seq::new(
            self.spec_len(),
            |i: int| TimeSeriesDataPoint::spec_new(self.times()[i], self.vals()[i]),
        )
    }

    pub fn len(&self) -> (n: usize)
        ensures
            n == self.spec_len(),
    {
        self.timeindicies.len()
    }

    /// Builds a container from the two raw channels; rejects channels of
    /// unequal length.
    pub fn from_vecs(timeindicies: Vec<i64>, values: Vec<T>) -> (r: Option<TimeSeries<T>>)
        ensures
            timeindicies@.len() == values@.len() ==> (r matches Some(c) && c.timeindicies@
                == timeindicies@ && c.values@ == values@),
            timeindicies@.len() != values@.len() ==> r is None,
    {
        if timeindicies.len() == values.len() {
            Some(TimeSeries { timeindicies, values })
        } else {
            None
        }
    }

    /// Builds a container from a sequence of points, validating that the time
    /// channel never steps downward; rejects out-of-order input.
    pub fn from_tsdatapoints(points: Vec<TimeSeriesDataPoint<i64, T>>) -> (r: Option<
        TimeSeries<T>,
    >)
        ensures
            nondecreasing(times_of(points@)) ==> (r matches Some(c) && c.wf() && c.times()
                == times_of(points@) && c.vals() == values_of(points@)),
            !nondecreasing(times_of(points@)) ==> r is None,
    {
        let n = points.len();
        let mut i: usize = 1;
        while i < n
            invariant
                1 <= i,
                n == points@.len(),
                forall|p: int, q: int|
                    0 <= p <= q < i && q < n ==> points@[p].timestamp <= points@[q].timestamp,
            decreases n - i,
        {
            if points[i].timestamp < points[i - 1].timestamp {
                proof {
                    assert(times_of(points@)[i as int] == points@[i as int].timestamp);
                    assert(times_of(points@)[i - 1] == points@[i - 1].timestamp);
                    assert(!nondecreasing(times_of(points@)));
                }
                return None;
            }
            i += 1;
        }
        proof {
            assert forall|p: int, q: int|
                0 <= p <= q < times_of(points@).len() implies times_of(points@)[p] <= times_of(
                points@,
            )[q] by {
                assert(times_of(points@)[p] == points@[p].timestamp);
                assert(times_of(points@)[q] == points@[q].timestamp);
            }
            assert(nondecreasing(times_of(points@)));
        }
        Some(Self::from_tsdatapoints_unchecked(points))
    }

    /// Builds a container from a sequence of points without re-validating
    /// order: the caller attests that the points are already ordered, and the
    /// sortedness of the result is assumed, not verified.
    pub fn from_tsdatapoints_unchecked(points: Vec<TimeSeriesDataPoint<i64, T>>) -> (r:
        TimeSeries<T>)
        ensures
            r.wf(),
            r.times() == times_of(points@),
            r.vals() == values_of(points@),
    {
        let ghost all = points@;
        let mut timeindicies: Vec<i64> = Vec::new();
        let mut values: Vec<T> = Vec::new();
        let n = points.len();
        let mut points = points;
        let mut i: usize = 0;
        while i < n
            invariant
                i <= n,
                n == all.len(),
                points@ == all.skip(i as int),
                timeindicies@ =~= times_of(all.take(i as int)),
                values@ =~= values_of(all.take(i as int)),
            decreases n - i,
        {
            let p = points.remove(0);
            timeindicies.push(p.timestamp);
            values.push(p.value);
            i += 1;
            proof {
                assert(all.take(i as int) =~= all.take(i - 1).push(all[i - 1]));
                assert(times_of(all.take(i - 1).push(all[i - 1])) =~= times_of(
                    all.take(i - 1),
                ).push(all[i - 1].timestamp));
                assert(values_of(all.take(i - 1).push(all[i - 1])) =~= values_of(
                    all.take(i - 1),
                ).push(all[i - 1].value));
            }
        }
        proof {
            assert(times_of(all.take(n as int)) =~= times_of(all));
            assert(values_of(all.take(n as int)) =~= values_of(all));
        }
        TimeSeries { timeindicies, values }
    }
}

} // verus!
