use timeseries_iters::FromUncheckedIterator;
use timeseries_iters::OrderedTimeSeriesIter;
use timeseries_iters::OrderedTimeSeriesRefIter;
use timeseries_iters::TimeSeries;
use timeseries_iters::TimeSeriesDataPoint;
use timeseries_iters::TimeSeriesIter;
use timeseries_iters::TimeSeriesRefIter;
use timeseries_iters::add_offset;
use timeseries_iters::rolling_sum;
use timeseries_iters::rolling_sum_with_update;
use timeseries_iters::sum_decrement;
use timeseries_iters::sum_reduce;
use timeseries_iters::sum_update;

fn series_f64(times: Vec<i64>, values: Vec<f64>) -> TimeSeries<f64> {
    TimeSeries::from_vecs(times, values).unwrap()
}

fn capped_update(prior: Option<f64>, next: &f64) -> Option<f64> {
    if *next == 2.0 {
        None
    } else {
        let v = match prior {
            Some(v) => v,
            None => 0.0,
        };
        Some(v + *next)
    }
}

fn propagating_decrement(next: Option<f64>, prior: &f64) -> Option<f64> {
    match next {
        Some(v) => Some(v - *prior),
        None => None,
    }
}

fn window_sum(buffer: &Vec<f64>) -> f64 {
    buffer.iter().sum()
}

#[test]
fn ordering_gate_stops_at_violation() {
    // nondecreasing up to position 3, where the time index strictly falls
    let ts = series_f64(vec![0, 60, 120, 90, 240], vec![1.0, 2.0, 3.0, 4.0, 5.0]);
    let mut it = OrderedTimeSeriesIter::new(&ts, 0);
    assert_eq!(it.next(), Some(TimeSeriesDataPoint::new(0, 1.0)));
    assert_eq!(it.next(), Some(TimeSeriesDataPoint::new(60, 2.0)));
    assert_eq!(it.next(), Some(TimeSeriesDataPoint::new(120, 3.0)));
    assert_eq!(it.next(), None);
}

#[test]
fn ordering_gate_stays_closed() {
    // after the violation at position 2 the view stays exhausted, although
    // the remaining elements would be in order again
    let ts = series_f64(vec![0, 60, 30, 120], vec![1.0, 2.0, 3.0, 4.0]);
    let mut it = OrderedTimeSeriesIter::new(&ts, 0);
    assert_eq!(it.next(), Some(TimeSeriesDataPoint::new(0, 1.0)));
    assert_eq!(it.next(), Some(TimeSeriesDataPoint::new(60, 2.0)));
    assert_eq!(it.next(), None);
    assert_eq!(it.next(), None);
    assert_eq!(it.next(), None);
}

#[test]
fn ordered_view_accepts_equal_times() {
    let ts = series_f64(vec![60, 60, 60], vec![1.0, 2.0, 3.0]);
    let mut it = OrderedTimeSeriesIter::new(&ts, 0);
    assert_eq!(it.next(), Some(TimeSeriesDataPoint::new(60, 1.0)));
    assert_eq!(it.next(), Some(TimeSeriesDataPoint::new(60, 2.0)));
    assert_eq!(it.next(), Some(TimeSeriesDataPoint::new(60, 3.0)));
    assert_eq!(it.next(), None);
}

#[test]
fn ordered_ref_view_matches_owned() {
    let ts = series_f64(vec![0, 60, 30], vec![1.0, 2.0, 3.0]);
    let mut it = OrderedTimeSeriesRefIter::new(&ts, 0);
    let p = it.next().unwrap();
    assert_eq!((*p.timestamp, *p.value), (0, 1.0));
    let p = it.next().unwrap();
    assert_eq!((*p.timestamp, *p.value), (60, 2.0));
    assert_eq!(it.next().is_none(), true);
    assert_eq!(it.next().is_none(), true);
}

#[test]
fn passthrough_ignores_order() {
    let ts = series_f64(vec![0, 60, 30], vec![1.0, 2.0, 3.0]);
    let mut it = TimeSeriesIter::new(&ts, 0);
    assert_eq!(it.next(), Some(TimeSeriesDataPoint::new(0, 1.0)));
    assert_eq!(it.next(), Some(TimeSeriesDataPoint::new(60, 2.0)));
    assert_eq!(it.next(), Some(TimeSeriesDataPoint::new(30, 3.0)));
    assert_eq!(it.next(), None);
}

#[test]
fn passthrough_ref_view_reads_channels() {
    let ts = series_f64(vec![0, 60], vec![1.5, 2.5]);
    let mut it = TimeSeriesRefIter::new(&ts, 1);
    let p = it.next().unwrap();
    assert_eq!((*p.timestamp, *p.value), (60, 2.5));
    assert_eq!(it.next().is_none(), true);
}

#[test]
fn out_of_range_negative_shift_is_empty() {
    let ts = series_f64(vec![0, 60, 120, 180, 240], vec![1.0, 2.0, 3.0, 4.0, 5.0]);
    let mut it = ts.shift(-5);
    assert_eq!(it.next(), None);
    assert_eq!(it.next(), None);
}

#[test]
fn shift_of_zero_is_identity() {
    let ts = series_f64(vec![0, 60, 120], vec![1.0, 2.0, 3.0]);
    let mut it = ts.shift(0);
    assert_eq!(it.next(), Some(TimeSeriesDataPoint::new(0, 1.0)));
    assert_eq!(it.next(), Some(TimeSeriesDataPoint::new(60, 2.0)));
    assert_eq!(it.next(), Some(TimeSeriesDataPoint::new(120, 3.0)));
    assert_eq!(it.next(), None);
}

#[test]
fn add_offset_reports_invalid_positions() {
    assert_eq!(add_offset(5, -3), Some(2));
    assert_eq!(add_offset(2, -3), None);
    assert_eq!(add_offset(2, -2), Some(0));
    assert_eq!(add_offset(0, 0), Some(0));
    assert_eq!(add_offset(3, 4), Some(7));
    assert_eq!(add_offset(usize::MAX, 1), None);
    assert_eq!(add_offset(7, isize::MIN), None);
}

#[test]
fn rolling_window_equals_container_length() {
    let ts = series_f64(vec![0, 60, 120], vec![1.0, 2.0, 3.0]);
    let mut it = ts.apply_rolling(3, window_sum);
    assert_eq!(it.next(), Some(TimeSeriesDataPoint::new(120, 6.0)));
    assert_eq!(it.next(), None);
}

#[test]
fn absent_running_value_does_not_terminate() {
    // the update function refuses the value 2.0, so the running value is
    // absent for one step; the step yields nothing, yet the view goes on
    let ts = series_f64(vec![0, 60, 120], vec![1.0, 2.0, 3.0]);
    let mut it = ts.apply_updating_rolling(2, capped_update, propagating_decrement);
    assert_eq!(it.next(), None);
    assert_eq!(it.next(), Some(TimeSeriesDataPoint::new(120, 2.0)));
    assert_eq!(it.next(), None);
}

#[test]
fn rolling_sum_views_agree() {
    let times: Vec<i64> = vec![0, 60, 120, 180, 240];
    let values: Vec<i64> = vec![1, 4, 2, 9, 100];
    let ts = TimeSeries::from_vecs(times, values).unwrap();
    let recomputed = rolling_sum(&ts, 2);
    let incremental = rolling_sum_with_update(&ts, 2);
    let expected = TimeSeries::from_tsdatapoints(vec![
        TimeSeriesDataPoint::new(60, 5),
        TimeSeriesDataPoint::new(120, 6),
        TimeSeriesDataPoint::new(180, 11),
        TimeSeriesDataPoint::new(240, 109),
    ])
    .unwrap();
    assert_eq!(recomputed, expected);
    assert_eq!(incremental, expected);
}

#[test]
fn rolling_sum_wraps_on_overflow() {
    let ts = TimeSeries::from_vecs(vec![0, 60], vec![i64::MAX, 1]).unwrap();
    let out = rolling_sum(&ts, 2);
    assert_eq!(
        out,
        TimeSeries::from_tsdatapoints_unchecked(vec![TimeSeriesDataPoint::new(60, i64::MIN)])
    );
    assert_eq!(out, rolling_sum_with_update(&ts, 2));
}

#[test]
fn sum_functions_compute_exact_values() {
    assert_eq!(sum_reduce(&vec![1, 4, 2]), 7);
    assert_eq!(sum_reduce(&Vec::new()), 0);
    assert_eq!(sum_reduce(&vec![i64::MAX, 1]), i64::MIN);
    assert_eq!(sum_update(None, &5), Some(5));
    assert_eq!(sum_update(Some(2), &3), Some(5));
    assert_eq!(sum_update(Some(i64::MAX), &1), Some(i64::MIN));
    assert_eq!(sum_decrement(None, &5), Some(-5));
    assert_eq!(sum_decrement(Some(7), &3), Some(4));
    assert_eq!(sum_decrement(Some(i64::MIN), &1), Some(i64::MAX));
}

#[test]
fn unchecked_collect_matches_validating_collect() {
    let ts = series_f64(vec![0, 60, 120, 180], vec![1.0, 2.0, 3.0, 4.0]);
    // the unchecked path, fed by the order-validating view
    let unchecked = OrderedTimeSeriesIter::new(&ts, 0).collect_from_unchecked_iter();
    // the validating path, fed by the same points
    let mut it = OrderedTimeSeriesIter::new(&ts, 0);
    let mut pts = Vec::new();
    while let Some(p) = it.next() {
        pts.push(p);
    }
    let validated = TimeSeries::from_tsdatapoints(pts).unwrap();
    assert_eq!(unchecked, validated);
}

#[test]
fn vec_collects_through_unchecked_path() {
    let pts = vec![
        TimeSeriesDataPoint::new(0, 1.0),
        TimeSeriesDataPoint::new(60, 2.0),
    ];
    let collected = pts.clone().collect_from_unchecked_iter();
    assert_eq!(collected, TimeSeries::from_tsdatapoints_unchecked(pts));
}

#[test]
fn shift_view_collects_through_unchecked_path() {
    let ts = series_f64(vec![0, 60, 120], vec![1.0, 2.0, 3.0]);
    let lagged = ts.shift(-1).collect_from_unchecked_iter();
    let expected = series_f64(vec![60, 120], vec![1.0, 2.0]);
    assert_eq!(lagged, expected);
}

#[test]
fn passthrough_view_collects_its_suffix() {
    let ts = series_f64(vec![0, 60, 120], vec![1.0, 2.0, 3.0]);
    let collected = TimeSeriesIter::new(&ts, 1).collect_from_unchecked_iter();
    let expected = series_f64(vec![60, 120], vec![2.0, 3.0]);
    assert_eq!(collected, expected);
}

#[test]
fn from_vecs_rejects_unequal_channels() {
    assert!(TimeSeries::from_vecs(vec![0, 60], vec![1.0]).is_none());
    assert!(TimeSeries::<f64>::from_vecs(Vec::new(), Vec::new()).is_some());
}

#[test]
fn from_tsdatapoints_rejects_disorder() {
    let pts = vec![
        TimeSeriesDataPoint::new(60, 1.0),
        TimeSeriesDataPoint::new(0, 2.0),
    ];
    assert!(TimeSeries::from_tsdatapoints(pts.clone()).is_none());
    let unchecked = TimeSeries::from_tsdatapoints_unchecked(pts);
    assert_eq!(unchecked.len(), 2);
}

#[test]
fn empty_series_views_are_empty() {
    let ts = TimeSeries::<f64>::from_vecs(Vec::new(), Vec::new()).unwrap();
    assert_eq!(ts.len(), 0);
    let mut it = TimeSeriesIter::new(&ts, 0);
    assert_eq!(it.next(), None);
    let mut sh = ts.shift(0);
    assert_eq!(sh.next(), None);
}
