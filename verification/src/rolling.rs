//! Rolling views: a reduction over a fixed-size trailing window of values,
//! either recomputed from a buffered window on every step or maintained
//! incrementally through caller-supplied update and decrement functions.

use vstd::prelude::*;

use crate::series::TimeSeries;
use crate::series::TimeSeriesDataPoint;

verus! {

/// A rolling view that holds the window in a buffer and recomputes the
/// reduction from the full buffer on every step. The ghost `window` field
/// records the full buffer the reduction function was last applied to.
#[verifier::reject_recursive_types(T)]
#[verifier::reject_recursive_types(TReduce)]
pub struct RollingTimeSeriesIter<'a, T, TReduce, F> where F: Fn(&Vec<T>) -> TReduce {
    pub ts: &'a TimeSeries<T>,
    pub index: usize,
    pub transform_func: F,
    pub buffer: Vec<T>,
    pub window: Ghost<Vec<T>>,
}

impl<'a, T: Copy, TReduce, F> RollingTimeSeriesIter<'a, T, TReduce, F> where F: Fn(
    &Vec<T>,
) -> TReduce {
    pub open spec fn wf(self) -> bool {
        &&& self.ts.wf()
        &&& self.buffer@.len() <= self.index <= self.ts.spec_len()
        &&& self.buffer@ == self.ts.vals().subrange(
            self.index - self.buffer@.len(),
            self.index as int,
        )
        &&& forall|args: (&Vec<T>,)| call_requires(self.transform_func, args)
    }

    /// The reduction function must accept every window; the window size must
    /// be at least one and no more than the container length, or construction
    /// would read out of bounds.
    pub fn new(ts: &'a TimeSeries<T>, window_size: usize, transform_func: F) -> (r:
        RollingTimeSeriesIter<'a, T, TReduce, F>)
        requires
            ts.wf(),
            1 <= window_size <= ts.spec_len(),
            forall|args: (&Vec<T>,)| call_requires(transform_func, args),
        ensures
            r.ts == ts,
            r.index == window_size - 1,
            r.buffer@ == ts.vals().subrange(0, window_size - 1),
            r.transform_func == transform_func,
            r.wf(),
    {
        let mut buffer: Vec<T> = Vec::new();
        let mut i: usize = 0;
        while i < window_size - 1
            invariant
                i <= window_size - 1 <= ts.spec_len(),
                ts.wf(),
                buffer@ =~= ts.vals().subrange(0, i as int),
            decreases window_size - 1 - i,
        {
            buffer.push(ts.values[i]);
            i += 1;
        }
        proof {
            assert(buffer@ =~= ts.vals().subrange(0, window_size - 1));
        }
        let ghost start = buffer;
        RollingTimeSeriesIter {
            ts,
            index: window_size - 1,
            transform_func,
            buffer,
            window: Ghost(start),
        }
    }

    /// Appends the value at the cursor to the window, reduces the full
    /// window, drops the oldest buffered value and emits the result under the
    /// time index at the cursor. The emitted value is a possible result of
    /// the reduction function on the recorded window.
    pub fn next(&mut self) -> (r: Option<TimeSeriesDataPoint<i64, TReduce>>)
        requires
            old(self).wf(),
        ensures
            final(self).ts == old(self).ts,
            final(self).transform_func == old(self).transform_func,
            final(self).wf(),
            ({
                let s = *old(self);
                let len = s.ts.spec_len();
                let blen = s.buffer@.len() as int;
                if s.index < len {
                    &&& final(self).index == s.index + 1
                    &&& final(self).buffer@ == s.ts.vals().subrange(s.index + 1 - blen, s.index + 1)
                    &&& (final(self).window@)@ == s.ts.vals().subrange(s.index - blen, s.index + 1)
                    &&& r is Some
                    &&& r.unwrap().timestamp == s.ts.times()[s.index as int]
                    &&& call_ensures(
                        s.transform_func,
                        (&final(self).window@,),
                        r.unwrap().value,
                    )
                } else {
                    r is None && *final(self) == s
                }
            }),
    {
        if self.index < self.ts.len() {
            self.index += 1;
            let rv = self.ts.values[self.index - 1];
            self.buffer.push(rv);
            let newv = (self.transform_func)(&self.buffer);
            proof {
                assert(self.buffer@ =~= old(self).ts.vals().subrange(
                    old(self).index - old(self).buffer@.len(),
                    old(self).index + 1,
                ));
            }
            self.window = Ghost(self.buffer);
            self.buffer.remove(0);
            proof {
                assert(self.buffer@ =~= old(self).ts.vals().subrange(
                    old(self).index + 1 - old(self).buffer@.len(),
                    old(self).index + 1,
                ));
            }
            Some(TimeSeriesDataPoint::new(self.ts.timeindicies[self.index - 1], newv))
        } else {
            None
        }
    }
}

/// A relational left fold of the update function: `folds_to(u, xs, init, out)`
/// holds when `out` is a value the chain `u(.., u(u(init, xs[0]), xs[1]) ..)`
/// can produce.
pub open spec fn folds_to<T, R, FU: Fn(Option<R>, &T) -> Option<R>>(
    u: FU,
    xs: Seq<T>,
    init: Option<R>,
    out: Option<R>,
) -> bool
    decreases xs.len(),
{
    if xs.len() == 0 {
        out == init
    } else {
        exists|mid: Option<R>|
            folds_to(u, xs.drop_last(), init, mid) && #[trigger] call_ensures(
                u,
                (mid, &xs.last()),
                out,
            )
    }
}

/// One more application of the update function extends a fold chain by one
/// element.
pub proof fn lemma_folds_to_step<T, R, FU: Fn(Option<R>, &T) -> Option<R>>(
    u: FU,
    xs: Seq<T>,
    init: Option<R>,
    mid: Option<R>,
    out: Option<R>,
    x: T,
)
    requires
        folds_to(u, xs, init, mid),
        call_ensures(u, (mid, &x), out),
    ensures
        folds_to(u, xs.push(x), init, out),
{
    let ys = xs.push(x);
    assert(ys.drop_last() =~= xs);
    assert(ys.last() == x);
    assert(folds_to(u, ys.drop_last(), init, mid));
    assert(call_ensures(u, (mid, &ys.last()), out));
}

/// A rolling view that maintains the reduced value incrementally: each step
/// applies the update function with the incoming value and the decrement
/// function with the value leaving the window, in O(1) work per step. The
/// ghost `mid_value` field records the running value between the two
/// applications.
#[verifier::reject_recursive_types(T)]
#[verifier::reject_recursive_types(TReduce)]
pub struct RollingTimeSeriesIterWithUpdate<'a, T, TReduce, FU, FD> where
    FU: Fn(Option<TReduce>, &T) -> Option<TReduce>,
    FD: Fn(Option<TReduce>, &T) -> Option<TReduce>,
 {
    pub ts: &'a TimeSeries<T>,
    pub index: usize,
    pub ref_value: Option<TReduce>,
    pub last_value: T,
    pub update_func: FU,
    pub decrement_func: FD,
    pub window_size: usize,
    pub mid_value: Ghost<Option<TReduce>>,
}

impl<'a, T: Copy, TReduce: Copy, FU, FD> RollingTimeSeriesIterWithUpdate<
    'a,
    T,
    TReduce,
    FU,
    FD,
> where FU: Fn(Option<TReduce>, &T) -> Option<TReduce>, FD: Fn(Option<TReduce>, &T) -> Option<
    TReduce,
> {
    pub open spec fn wf(self) -> bool {
        &&& self.ts.wf()
        &&& 1 <= self.window_size
        &&& self.window_size - 1 <= self.index <= self.ts.spec_len()
        &&& forall|args: (Option<TReduce>, &T)| call_requires(self.update_func, args)
        &&& forall|args: (Option<TReduce>, &T)| call_requires(self.decrement_func, args)
    }

    /// Initializes the running value by folding the update function over the
    /// first window; both supplied functions must accept every input.
    pub fn new(
        ts: &'a TimeSeries<T>,
        window_size: usize,
        update_func: FU,
        decrement_func: FD,
    ) -> (r: RollingTimeSeriesIterWithUpdate<'a, T, TReduce, FU, FD>)
        requires
            ts.wf(),
            1 <= window_size <= ts.spec_len(),
            forall|args: (Option<TReduce>, &T)| call_requires(update_func, args),
            forall|args: (Option<TReduce>, &T)| call_requires(decrement_func, args),
        ensures
            r.ts == ts,
            r.window_size == window_size,
            r.index == window_size - 1,
            r.last_value == ts.vals()[window_size - 1],
            r.update_func == update_func,
            r.decrement_func == decrement_func,
            folds_to(update_func, ts.vals().subrange(0, window_size as int), None, r.ref_value),
            r.wf(),
    {
        let mut acc: Option<TReduce> = None;
        let mut i: usize = 0;
        while i < window_size
            invariant
                i <= window_size <= ts.spec_len(),
                ts.wf(),
                folds_to(update_func, ts.vals().subrange(0, i as int), None, acc),
                forall|args: (Option<TReduce>, &T)| call_requires(update_func, args),
            decreases window_size - i,
        {
            let ghost prev = acc;
            acc = update_func(acc, &ts.values[i]);
            i += 1;
            proof {
                lemma_folds_to_step(
                    update_func,
                    ts.vals().subrange(0, i - 1),
                    None,
                    prev,
                    acc,
                    ts.vals()[i - 1],
                );
                assert(ts.vals().subrange(0, i - 1).push(ts.vals()[i - 1]) =~= ts.vals().subrange(
                    0,
                    i as int,
                ));
            }
        }
        RollingTimeSeriesIterWithUpdate {
            ts,
            index: window_size - 1,
            ref_value: acc,
            last_value: ts.values[window_size - 1],
            update_func,
            decrement_func,
            window_size,
            mid_value: Ghost(acc),
        }
    }

    /// Applies the update function with the incoming value, then the
    /// decrement function with the value leaving the window; emits the
    /// running value when it is present, and nothing for this step when it is
    /// absent — an absent value does not terminate the view.
    pub fn next(&mut self) -> (r: Option<TimeSeriesDataPoint<i64, TReduce>>)
        requires
            old(self).wf(),
        ensures
            final(self).ts == old(self).ts,
            final(self).update_func == old(self).update_func,
            final(self).decrement_func == old(self).decrement_func,
            final(self).window_size == old(self).window_size,
            final(self).wf(),
            ({
                let s = *old(self);
                let len = s.ts.spec_len();
                if s.index < len {
                    &&& final(self).index == s.index + 1
                    &&& call_ensures(
                        s.update_func,
                        (s.ref_value, &s.ts.vals()[s.index as int]),
                        final(self).mid_value@,
                    )
                    &&& call_ensures(
                        s.decrement_func,
                        (final(self).mid_value@, &s.last_value),
                        final(self).ref_value,
                    )
                    &&& final(self).last_value == s.ts.vals()[s.index + 1 - s.window_size]
                    &&& r == (match final(self).ref_value {
                        Some(v) => Some(
                            TimeSeriesDataPoint::spec_new(s.ts.times()[s.index as int], v),
                        ),
                        None => None,
                    })
                } else {
                    r is None && *final(self) == s
                }
            }),
    {
        if self.index < self.ts.len() {
            self.index += 1;
            let rv = self.ts.values[self.index - 1];
            let mid = (self.update_func)(self.ref_value, &rv);
            self.mid_value = Ghost(mid);
            self.ref_value = (self.decrement_func)(mid, &self.last_value);
            self.last_value = self.ts.values[self.index - self.window_size];
            match self.ref_value {
                Some(v) => Some(
                    TimeSeriesDataPoint::new(self.ts.timeindicies[self.index - 1], v),
                ),
                None => None,
            }
        } else {
            None
        }
    }
}

impl<T: Copy> TimeSeries<T> {
    /// A rolling view over this series that recomputes the reduction from
    /// the buffered window on every step.
    pub fn apply_rolling<TReduce, F: Fn(&Vec<T>) -> TReduce>(
        &self,
        window_size: usize,
        transform_func: F,
    ) -> (r: RollingTimeSeriesIter<'_, T, TReduce, F>)
        requires
            self.wf(),
            1 <= window_size <= self.spec_len(),
            forall|args: (&Vec<T>,)| call_requires(transform_func, args),
        ensures
            r.ts == self,
            r.index == window_size - 1,
            r.buffer@ == self.vals().subrange(0, window_size - 1),
            r.transform_func == transform_func,
            r.wf(),
    {
        RollingTimeSeriesIter::new(self, window_size, transform_func)
    }

    /// A rolling view over this series that maintains the reduced value
    /// through an update/decrement function pair.
    pub fn apply_updating_rolling<TReduce: Copy, FU: Fn(Option<TReduce>, &T) -> Option<
        TReduce,
    >, FD: Fn(Option<TReduce>, &T) -> Option<TReduce>>(
        &self,
        window_size: usize,
        update_func: FU,
        decrement_func: FD,
    ) -> (r: RollingTimeSeriesIterWithUpdate<'_, T, TReduce, FU, FD>)
        requires
            self.wf(),
            1 <= window_size <= self.spec_len(),
            forall|args: (Option<TReduce>, &T)| call_requires(update_func, args),
            forall|args: (Option<TReduce>, &T)| call_requires(decrement_func, args),
        ensures
            r.ts == self,
            r.window_size == window_size,
            r.index == window_size - 1,
            r.last_value == self.vals()[window_size - 1],
            r.update_func == update_func,
            r.decrement_func == decrement_func,
            folds_to(update_func, self.vals().subrange(0, window_size as int), None, r.ref_value),
            r.wf(),
    {
        RollingTimeSeriesIterWithUpdate::new(self, window_size, update_func, decrement_func)
    }
}

} // verus!
