//! The skip-apply view: combines two values separated by a fixed span into
//! one transformed point — a difference across N steps, for example.

use vstd::prelude::*;

use crate::series::TimeSeries;
use crate::series::TimeSeriesDataPoint;

verus! {

/// A view that advances the cursor by `span_size` on every step and applies
/// a binary transform to the value read there and the value read one span
/// earlier.
#[verifier::reject_recursive_types(T)]
#[verifier::reject_recursive_types(TReduce)]
pub struct SkipApplyTimeSeriesIter<'a, T, TReduce, F> where F: Fn(&T, &T) -> TReduce {
    pub ts: &'a TimeSeries<T>,
    pub index: usize,
    pub span_size: usize,
    pub transform_func: F,
    pub prior_value: T,
}

impl<'a, T: Copy, TReduce, F> SkipApplyTimeSeriesIter<'a, T, TReduce, F> where F: Fn(
    &T,
    &T,
) -> TReduce {
    pub open spec fn wf(self) -> bool {
        &&& self.ts.wf()
        &&& 1 <= self.span_size <= self.index
        &&& forall|args: (&T, &T)| call_requires(self.transform_func, args)
    }

    /// The span must be at least one and the container non-empty, or
    /// construction would read out of bounds; the transform must accept
    /// every pair of values.
    pub fn new(ts: &'a TimeSeries<T>, span_size: usize, transform_func: F) -> (r:
        SkipApplyTimeSeriesIter<'a, T, TReduce, F>)
        requires
            ts.wf(),
            1 <= span_size,
            1 <= ts.spec_len(),
            forall|args: (&T, &T)| call_requires(transform_func, args),
        ensures
            r.ts == ts,
            r.index == span_size,
            r.span_size == span_size,
            r.transform_func == transform_func,
            r.prior_value == ts.vals()[0],
            r.wf(),
    {
        SkipApplyTimeSeriesIter {
            ts,
            index: span_size,
            span_size,
            transform_func,
            prior_value: ts.values[0],
        }
    }

    /// While one position past the cursor minus the span is still inside the
    /// container, advances the cursor by the span, applies the transform to
    /// the prior value and the value one span back from the new cursor, and
    /// emits the result under the time index at that position.
    pub fn next(&mut self) -> (r: Option<TimeSeriesDataPoint<i64, TReduce>>)
        requires
            old(self).wf(),
            old(self).index - old(self).span_size + 1 < old(self).ts.spec_len() ==> old(
                self,
            ).index < old(self).ts.spec_len(),
            old(self).index + old(self).span_size <= usize::MAX,
        ensures
            final(self).ts == old(self).ts,
            final(self).span_size == old(self).span_size,
            final(self).transform_func == old(self).transform_func,
            final(self).wf(),
            ({
                let s = *old(self);
                let len = s.ts.spec_len();
                if s.index - s.span_size + 1 < len {
                    &&& final(self).index == s.index + s.span_size
                    &&& final(self).prior_value == s.ts.vals()[s.index as int]
                    &&& r is Some
                    &&& r.unwrap().timestamp == s.ts.times()[s.index as int]
                    &&& call_ensures(
                        s.transform_func,
                        (&s.prior_value, &s.ts.vals()[s.index as int]),
                        r.unwrap().value,
                    )
                } else {
                    r is None && *final(self) == s
                }
            }),
    {
        if self.index - self.span_size + 1 < self.ts.len() {
            self.index += self.span_size;
            let rv = self.ts.values[self.index - self.span_size];
            let newv = (self.transform_func)(&self.prior_value, &rv);
            self.prior_value = rv;
            Some(
                TimeSeriesDataPoint::new(
                    self.ts.timeindicies[self.index - self.span_size],
                    newv,
                ),
            )
        } else {
            None
        }
    }
}

impl<T: Copy> TimeSeries<T> {
    /// A skip-apply view over this series with the given span and transform.
    pub fn skip_apply<TReduce, F: Fn(&T, &T) -> TReduce>(
        &self,
        span_size: usize,
        transform_func: F,
    ) -> (r: SkipApplyTimeSeriesIter<'_, T, TReduce, F>)
        requires
            self.wf(),
            1 <= span_size,
            1 <= self.spec_len(),
            forall|args: (&T, &T)| call_requires(transform_func, args),
        ensures
            r.ts == self,
            r.index == span_size,
            r.span_size == span_size,
            r.transform_func == transform_func,
            r.prior_value == self.vals()[0],
            r.wf(),
    {
        SkipApplyTimeSeriesIter::new(self, span_size, transform_func)
    }
}

} // verus!
