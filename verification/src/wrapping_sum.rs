//! The canonical linear reduction — a running sum in wrapping 64-bit
//! arithmetic — applied to both rolling views, and the proof that the
//! recomputing view and the incremental view emit identical points for it.

use vstd::prelude::*;

use crate::rolling::RollingTimeSeriesIter;
use crate::rolling::RollingTimeSeriesIterWithUpdate;
use crate::rolling::folds_to;
use crate::series::TimeSeries;
use crate::series::TimeSeriesDataPoint;

verus! {

/// Signed 64-bit addition with two's-complement wraparound.
pub open spec fn wadd(a: i64, b: i64) -> i64 {
    vstd::wrapping::i64_specs::wrapping_add(a, b)
}

/// Signed 64-bit subtraction with two's-complement wraparound.
pub open spec fn wsub(a: i64, b: i64) -> i64 {
    vstd::wrapping::i64_specs::wrapping_sub(a, b)
}

/// The wrapping sum of a sequence of values.
pub open spec fn wrapping_sum(s: Seq<i64>) -> i64
    decreases s.len(),
{
    if s.len() == 0 {
        0
    } else {
        wadd(wrapping_sum(s.drop_last()), s.last())
    }
}

/// Adding and then subtracting the same value cancels, also under
/// wraparound.
pub proof fn lemma_wadd_wsub_cancel(a: i64, b: i64)
    ensures
        wsub(wadd(a, b), b) == a,
{
}

/// The order of a wrapping addition and a wrapping subtraction can be
/// exchanged.
pub proof fn lemma_wadd_wsub_commute(a: i64, b: i64, c: i64)
    ensures
        wsub(wadd(a, b), c) == wadd(wsub(a, c), b),
{
}

/// Dropping the first element of a sequence subtracts it from the wrapping
/// sum.
pub proof fn lemma_wrapping_sum_drop_first(s: Seq<i64>)
    requires
        s.len() >= 1,
    ensures
        wrapping_sum(s.subrange(1, s.len() as int)) == wsub(wrapping_sum(s), s[0]),
    decreases s.len(),
{
    if s.len() == 1 {
        assert(s.subrange(1, 1) =~= Seq::empty());
        assert(s.drop_last() =~= Seq::empty());
        lemma_wadd_wsub_cancel(0, s[0]);
    } else {
        let t = s.drop_last();
        lemma_wrapping_sum_drop_first(t);
        let u = s.subrange(1, s.len() as int);
        assert(u.drop_last() =~= t.subrange(1, t.len() as int));
        assert(u.last() == s.last());
        lemma_wadd_wsub_commute(wrapping_sum(t), s.last(), s[0]);
    }
}

/// The value the recomputing rolling view reduces at step `k`: the wrapping
/// sum of the window of `w` values ending at position `k + w - 1`.
pub open spec fn rolling_window_points(
    times: Seq<i64>,
    values: Seq<i64>,
    w: int,
) -> Seq<TimeSeriesDataPoint<i64, i64>> {
    Seq::new(
        (values.len() - w + 1) as nat,
        |k: int|
            TimeSeriesDataPoint::spec_new(
                times[k + w - 1],
                wrapping_sum(values.subrange(k, k + w)),
            ),
    )
}

/// The value the incremental rolling view carries at step `k` under the sum
/// update/decrement pair: the previous value plus the incoming value minus
/// the value leaving the window.
pub open spec fn incremental_sum_value(values: Seq<i64>, w: int, k: int) -> i64
    decreases k,
{
    if k <= 0 {
        wsub(wadd(wrapping_sum(values.subrange(0, w)), values[w - 1]), values[w - 1])
    } else {
        wsub(wadd(incremental_sum_value(values, w, k - 1), values[w + k - 1]), values[k - 1])
    }
}

/// The points the incremental rolling view emits under the sum
/// update/decrement pair.
pub open spec fn rolling_incremental_points(
    times: Seq<i64>,
    values: Seq<i64>,
    w: int,
) -> Seq<TimeSeriesDataPoint<i64, i64>> {
    Seq::new(
        (values.len() - w + 1) as nat,
        |k: int|
            TimeSeriesDataPoint::spec_new(times[k + w - 1], incremental_sum_value(values, w, k)),
    )
}

/// The incrementally maintained value equals the wrapping sum of the window
/// it stands for.
pub proof fn lemma_incremental_value_is_window_sum(values: Seq<i64>, w: int, k: int)
    requires
        1 <= w,
        0 <= k,
        k + w <= values.len(),
    ensures
        incremental_sum_value(values, w, k) == wrapping_sum(values.subrange(k, k + w)),
    decreases k,
{
    if k <= 0 {
        lemma_wadd_wsub_cancel(wrapping_sum(values.subrange(0, w)), values[w - 1]);
        assert(values.subrange(0, w) =~= values.subrange(k, k + w));
    } else {
        lemma_incremental_value_is_window_sum(values, w, k - 1);
        let ext = values.subrange(k - 1, k + w);
        assert(ext.drop_last() =~= values.subrange(k - 1, k - 1 + w));
        assert(ext.last() == values[w + k - 1]);
        assert(wrapping_sum(ext) == wadd(
            wrapping_sum(values.subrange(k - 1, k - 1 + w)),
            values[w + k - 1],
        ));
        lemma_wrapping_sum_drop_first(ext);
        assert(ext.subrange(1, ext.len() as int) =~= values.subrange(k, k + w));
        lemma_wadd_wsub_commute(
            wrapping_sum(values.subrange(k - 1, k - 1 + w)),
            values[w + k - 1],
            values[k - 1],
        );
    }
}

/// Rolling equivalence: for the wrapping-sum reduction and any value
/// sequence, the recomputing rolling view and the incremental rolling view
/// emit exactly the same sequence of points.
pub proof fn lemma_rolling_equivalence(times: Seq<i64>, values: Seq<i64>, w: int)
    requires
        1 <= w <= values.len(),
    ensures
        rolling_incremental_points(times, values, w) =~= rolling_window_points(times, values, w),
{
    assert forall|k: int| 0 <= k < values.len() - w + 1 implies rolling_incremental_points(
        times,
        values,
        w,
    )[k] == rolling_window_points(times, values, w)[k] by {
        lemma_incremental_value_is_window_sum(values, w, k);
    }
}

/// The wrapping sum of a buffered window, the reduction the recomputing
/// rolling view applies.
pub fn sum_reduce(buffer: &Vec<i64>) -> (s: i64)
    ensures
        s == wrapping_sum(buffer@),
{
    let mut s: i64 = 0;
    let mut i: usize = 0;
    while i < buffer.len()
        invariant
            i <= buffer@.len(),
            s == wrapping_sum(buffer@.subrange(0, i as int)),
        decreases buffer@.len() - i,
    {
        s = s.wrapping_add(buffer[i]);
        i += 1;
        proof {
            assert(buffer@.subrange(0, i as int).drop_last() =~= buffer@.subrange(0, i - 1));
        }
    }
    proof {
        assert(buffer@.subrange(0, buffer@.len() as int) =~= buffer@);
    }
    s
}

/// The sum update function: add the incoming value to the running value,
/// starting from zero when no running value exists yet.
pub fn sum_update(prior: Option<i64>, next: &i64) -> (r: Option<i64>)
    ensures
        r == Some(
            wadd(
                match prior {
                    Some(v) => v,
                    None => 0,
                },
                *next,
            ),
        ),
{
    let v: i64 = match prior {
        Some(v) => v,
        None => 0,
    };
    Some(v.wrapping_add(*next))
}

/// The sum decrement function: subtract the outgoing value from the running
/// value, treating an absent running value as zero.
pub fn sum_decrement(next: Option<i64>, prior: &i64) -> (r: Option<i64>)
    ensures
        r == Some(
            wsub(
                match next {
                    Some(v) => v,
                    None => 0,
                },
                *prior,
            ),
        ),
{
    let v: i64 = match next {
        Some(v) => v,
        None => 0,
    };
    Some(v.wrapping_sub(*prior))
}

/// A fold of the sum update function over a non-empty sequence produces its
/// wrapping sum.
pub proof fn lemma_sum_folds<FU: Fn(Option<i64>, &i64) -> Option<i64>>(
    u: FU,
    xs: Seq<i64>,
    out: Option<i64>,
)
    requires
        forall|args: (Option<i64>, &i64), ret: Option<i64>|
            #[trigger] call_ensures(u, args, ret) ==> ret == Some(
                wadd(
                    match args.0 {
                        Some(v) => v,
                        None => 0,
                    },
                    *args.1,
                ),
            ),
        folds_to(u, xs, None, out),
        xs.len() >= 1,
    ensures
        out == Some(wrapping_sum(xs)),
    decreases xs.len(),
{
    let mid = choose|mid: Option<i64>|
        folds_to(u, xs.drop_last(), None, mid) && #[trigger] call_ensures(
            u,
            (mid, &xs.last()),
            out,
        );
    if xs.len() == 1 {
        assert(xs.drop_last().len() == 0);
        assert(mid is None);
        assert(wrapping_sum(xs.drop_last()) == 0);
    } else {
        lemma_sum_folds(u, xs.drop_last(), mid);
    }
}

/// Runs the recomputing rolling view over the whole series with the
/// wrapping-sum reduction: the result holds one point per window, each the
/// wrapping sum of that window under the time index that closes it.
pub fn rolling_sum(ts: &TimeSeries<i64>, window_size: usize) -> (out: TimeSeries<i64>)
    requires
        ts.wf(),
        1 <= window_size <= ts.spec_len(),
    ensures
        out.wf(),
        out.points() =~= rolling_window_points(ts.times(), ts.vals(), window_size as int),
{
    let ghost tms = ts.times();
    let ghost vls = ts.vals();
    let ghost w = window_size as int;
    proof {
        assert forall|args: (&Vec<i64>,)| call_requires(sum_reduce, args) by {}
    }
    let mut it = RollingTimeSeriesIter::new(ts, window_size, sum_reduce);
    let mut timeindicies: Vec<i64> = Vec::new();
    let mut values: Vec<i64> = Vec::new();
    loop
        invariant
            it.wf(),
            it.ts == ts,
            tms == ts.times(),
            vls == ts.vals(),
            1 <= w <= tms.len(),
            tms.len() == vls.len(),
            it.buffer@.len() == w - 1,
            w - 1 <= it.index <= tms.len(),
            timeindicies@.len() == it.index - (w - 1),
            values@.len() == it.index - (w - 1),
            forall|k: int|
                0 <= k < timeindicies@.len() ==> #[trigger] timeindicies@[k] == tms[k + w - 1],
            forall|k: int|
                0 <= k < values@.len() ==> #[trigger] values@[k] == wrapping_sum(
                    vls.subrange(k, k + w),
                ),
            forall|args: (&Vec<i64>,), ret: i64|
                #[trigger] call_ensures(it.transform_func, args, ret) ==> ret == wrapping_sum(
                    args.0@,
                ),
        ensures
            it.index == tms.len(),
            timeindicies@.len() == tms.len() - (w - 1),
            values@.len() == tms.len() - (w - 1),
            forall|k: int|
                0 <= k < timeindicies@.len() ==> #[trigger] timeindicies@[k] == tms[k + w - 1],
            forall|k: int|
                0 <= k < values@.len() ==> #[trigger] values@[k] == wrapping_sum(
                    vls.subrange(k, k + w),
                ),
        decreases tms.len() - it.index,
    {
        let ghost pre = it;
        match it.next() {
            Some(p) => {
                proof {
                    assert((it.window@)@ == vls.subrange(pre.index - (w - 1), pre.index + 1));
                    assert(p.value == wrapping_sum(
                        vls.subrange(pre.index - (w - 1), pre.index + 1),
                    ));
                }
                timeindicies.push(p.timestamp);
                values.push(p.value);
            },
            None => {
                break ;
            },
        }
    }
    let out = TimeSeries { timeindicies, values };
    proof {
        assert forall|k: int|
            0 <= k < out.points().len() implies out.points()[k] == rolling_window_points(
            tms,
            vls,
            w,
        )[k] by {}
        assert(out.points() =~= rolling_window_points(tms, vls, w));
    }
    out
}

/// Runs the incremental rolling view over the whole series with the sum
/// update/decrement pair: the result is point-for-point the same as the
/// recomputing view's, each value the wrapping sum of its window.
pub fn rolling_sum_with_update(ts: &TimeSeries<i64>, window_size: usize) -> (out: TimeSeries<
    i64,
>)
    requires
        ts.wf(),
        1 <= window_size <= ts.spec_len(),
    ensures
        out.wf(),
        out.points() =~= rolling_window_points(ts.times(), ts.vals(), window_size as int),
        out.points() =~= rolling_incremental_points(ts.times(), ts.vals(), window_size as int),
{
    let ghost tms = ts.times();
    let ghost vls = ts.vals();
    let ghost w = window_size as int;
    proof {
        assert forall|args: (Option<i64>, &i64)| call_requires(sum_update, args) by {}
        assert forall|args: (Option<i64>, &i64)| call_requires(sum_decrement, args) by {}
    }
    let mut it = RollingTimeSeriesIterWithUpdate::new(ts, window_size, sum_update, sum_decrement);
    proof {
        assert forall|args: (Option<i64>, &i64), ret: Option<i64>|
            #[trigger] call_ensures(sum_update, args, ret) implies ret == Some(
            wadd(
                match args.0 {
                    Some(v) => v,
                    None => 0,
                },
                *args.1,
            ),
        ) by {}
        lemma_sum_folds(sum_update, vls.subrange(0, w), it.ref_value);
    }
    let mut timeindicies: Vec<i64> = Vec::new();
    let mut values: Vec<i64> = Vec::new();
    loop
        invariant
            it.wf(),
            it.ts == ts,
            it.window_size == window_size,
            tms == ts.times(),
            vls == ts.vals(),
            1 <= w <= tms.len(),
            w == window_size as int,
            tms.len() == vls.len(),
            w - 1 <= it.index <= tms.len(),
            it.index == window_size - 1 ==> it.ref_value == Some(
                wrapping_sum(vls.subrange(0, w)),
            ) && it.last_value == vls[w - 1],
            it.index >= window_size ==> it.ref_value == Some(
                wrapping_sum(vls.subrange(it.index - w, it.index as int)),
            ) && it.last_value == vls[it.index - w],
            timeindicies@.len() == it.index - (w - 1),
            values@.len() == it.index - (w - 1),
            forall|k: int|
                0 <= k < timeindicies@.len() ==> #[trigger] timeindicies@[k] == tms[k + w - 1],
            forall|k: int|
                0 <= k < values@.len() ==> #[trigger] values@[k] == wrapping_sum(
                    vls.subrange(k, k + w),
                ),
            forall|args: (Option<i64>, &i64), ret: Option<i64>|
                #[trigger] call_ensures(it.update_func, args, ret) ==> ret == Some(
                    wadd(
                        match args.0 {
                            Some(v) => v,
                            None => 0,
                        },
                        *args.1,
                    ),
                ),
            forall|args: (Option<i64>, &i64), ret: Option<i64>|
                #[trigger] call_ensures(it.decrement_func, args, ret) ==> ret == Some(
                    wsub(
                        match args.0 {
                            Some(v) => v,
                            None => 0,
                        },
                        *args.1,
                    ),
                ),
        ensures
            it.index == tms.len(),
            timeindicies@.len() == tms.len() - (w - 1),
            values@.len() == tms.len() - (w - 1),
            forall|k: int|
                0 <= k < timeindicies@.len() ==> #[trigger] timeindicies@[k] == tms[k + w - 1],
            forall|k: int|
                0 <= k < values@.len() ==> #[trigger] values@[k] == wrapping_sum(
                    vls.subrange(k, k + w),
                ),
        decreases tms.len() - it.index,
    {
        let ghost pre = it;
        match it.next() {
            Some(p) => {
                proof {
                    let i = pre.index as int;
                    let s = (match pre.ref_value {
                        Some(v) => v,
                        None => 0,
                    });
                    assert(it.ref_value == Some(wsub(wadd(s, vls[i]), pre.last_value)));
                    if pre.index == window_size - 1 {
                        lemma_wadd_wsub_cancel(wrapping_sum(vls.subrange(0, w)), vls[w - 1]);
                        assert(vls.subrange(0, w) =~= vls.subrange(
                            it.index - w,
                            it.index as int,
                        ));
                    } else {
                        let ext = vls.subrange(i - w, i + 1);
                        assert(ext.drop_last() =~= vls.subrange(i - w, i));
                        assert(ext.last() == vls[i]);
                        assert(wrapping_sum(ext) == wadd(
                            wrapping_sum(vls.subrange(i - w, i)),
                            vls[i],
                        ));
                        lemma_wrapping_sum_drop_first(ext);
                        assert(ext.subrange(1, ext.len() as int) =~= vls.subrange(
                            i + 1 - w,
                            i + 1,
                        ));
                        lemma_wadd_wsub_commute(
                            wrapping_sum(vls.subrange(i - w, i)),
                            vls[i],
                            vls[i - w],
                        );
                    }
                    assert(it.ref_value == Some(
                        wrapping_sum(vls.subrange(it.index - w, it.index as int)),
                    ));
                    assert(p.value == wrapping_sum(vls.subrange(i - (w - 1), i + 1)));
                }
                timeindicies.push(p.timestamp);
                values.push(p.value);
            },
            None => {
                break ;
            },
        }
    }
    let out = TimeSeries { timeindicies, values };
    proof {
        assert forall|k: int|
            0 <= k < out.points().len() implies out.points()[k] == rolling_window_points(
            tms,
            vls,
            w,
        )[k] by {}
        assert(out.points() =~= rolling_window_points(tms, vls, w));
        lemma_rolling_equivalence(tms, vls, w);
    }
    out
}

} // verus!
