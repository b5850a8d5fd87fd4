use timeseries_iters::TimeSeries;
use timeseries_iters::TimeSeriesDataPoint;

fn roll_func(buffer: &Vec<f64>) -> f64 {
    buffer.iter().sum()
}

fn update(prior: Option<f64>, next: &f64) -> Option<f64> {
    let v = match prior.is_some() {
        true => prior.unwrap(),
        false => 0.0,
    };
    Some(v + next)
}

fn decrement(next: Option<f64>, prior: &f64) -> Option<f64> {
    let v = match next.is_some() {
        true => next.unwrap(),
        false => 0.0,
    };
    Some(v - prior)
}

fn change_func(prior: &f64, curr: &f64) -> f64 {
    curr - prior
}

#[test]
fn test_lag() {
    let values = vec![1.0, 2.0, 3.0, 4.0, 5.0];
    let index: Vec<i64> = (0..values.len()).map(|i| 60 * i as i64).collect();
    let ts = TimeSeries::from_vecs(index, values).unwrap();
    let mut it = ts.shift(-1);
    let mut pts = Vec::new();
    while let Some(p) = it.next() {
        pts.push(p);
    }
    let tslag: TimeSeries<f64> = TimeSeries::from_tsdatapoints(pts).unwrap();
    let data = vec![
        TimeSeriesDataPoint::new(60 * 1 as i64, 1.0),
        TimeSeriesDataPoint::new(60 * 2 as i64, 2.0),
        TimeSeriesDataPoint::new(60 * 3 as i64, 3.0),
        TimeSeriesDataPoint::new(60 * 4 as i64, 4.0),
    ];
    let tsexp = TimeSeries::from_tsdatapoints(data).unwrap();
    assert_eq!(tsexp, tslag);
}

#[test]
fn test_out_of_range_lag() {
    let values = vec![1.0, 2.0, 3.0, 4.0, 5.0];
    let index: Vec<i64> = (0..values.len()).map(|i| 60 * i as i64).collect();
    let ts = TimeSeries::from_vecs(index, values).unwrap();
    let mut it = ts.shift(5);
    let mut pts = Vec::new();
    while let Some(p) = it.next() {
        pts.push(p);
    }
    let tslag: TimeSeries<f64> = TimeSeries::from_tsdatapoints(pts).unwrap();
    assert_eq!(tslag.len(), 0);
}

#[test]
fn test_rollfwd() {
    let values = vec![1.0, 2.0, 3.0, 4.0, 5.0];
    let index: Vec<i64> = (0..values.len()).map(|i| 60 * i as i64).collect();
    let ts = TimeSeries::from_vecs(index, values).unwrap();
    let mut it = ts.shift(1);
    let mut pts = Vec::new();
    while let Some(p) = it.next() {
        pts.push(p);
    }
    let tslag: TimeSeries<f64> = TimeSeries::from_tsdatapoints(pts).unwrap();
    let data = vec![
        TimeSeriesDataPoint::new(60 * 0 as i64, 2.0),
        TimeSeriesDataPoint::new(60 * 1 as i64, 3.0),
        TimeSeriesDataPoint::new(60 * 2 as i64, 4.0),
        TimeSeriesDataPoint::new(60 * 3 as i64, 5.0),
    ];
    let tsexp = TimeSeries::from_tsdatapoints(data).unwrap();
    assert_eq!(tsexp, tslag);
}

#[test]
fn test_rolling() {
    let values = vec![1.0, 1.0, 1.0, 1.0, 1.0];
    let index: Vec<i64> = (0..values.len()).map(|i| 60 * i as i64).collect();
    let ts = TimeSeries::from_vecs(index, values).unwrap();

    let mut it = ts.apply_rolling(2, roll_func);
    let mut pts = Vec::new();
    while let Some(p) = it.next() {
        pts.push(p);
    }
    let tsrolled: TimeSeries<f64> = TimeSeries::from_tsdatapoints(pts).unwrap();
    let data = vec![
        TimeSeriesDataPoint::new(60 * 1 as i64, 2.0),
        TimeSeriesDataPoint::new(60 * 2 as i64, 2.0),
        TimeSeriesDataPoint::new(60 * 3 as i64, 2.0),
        TimeSeriesDataPoint::new(60 * 4 as i64, 2.0),
    ];
    let tsexp = TimeSeries::from_tsdatapoints(data).unwrap();
    assert_eq!(tsexp, tsrolled);
}

#[test]
fn test_rolling_with_update() {
    let values = vec![1.0, 1.0, 1.0, 1.0, 1.0];
    let index: Vec<i64> = (0..values.len()).map(|i| 60 * i as i64).collect();
    let ts = TimeSeries::from_vecs(index, values).unwrap();

    let mut it = ts.apply_updating_rolling(2, update, decrement);
    let mut pts = Vec::new();
    while let Some(p) = it.next() {
        pts.push(p);
    }
    let tsrolled: TimeSeries<f64> = TimeSeries::from_tsdatapoints(pts).unwrap();
    let data = vec![
        TimeSeriesDataPoint::new(60 * 1 as i64, 2.0),
        TimeSeriesDataPoint::new(60 * 2 as i64, 2.0),
        TimeSeriesDataPoint::new(60 * 3 as i64, 2.0),
        TimeSeriesDataPoint::new(60 * 4 as i64, 2.0),
    ];
    let tsexp = TimeSeries::from_tsdatapoints(data).unwrap();
    assert_eq!(tsexp, tsrolled);
}

#[test]
fn test_rolling_issame() {
    let values = vec![1.0, 4.0, 2.0, 9.0, 100.0];
    let index: Vec<i64> = (0..values.len()).map(|i| 60 * i as i64).collect();
    let ts = TimeSeries::from_vecs(index, values).unwrap();

    let mut itb = ts.apply_rolling(2, roll_func);
    let mut ptsb = Vec::new();
    while let Some(p) = itb.next() {
        ptsb.push(p);
    }
    let buffered: TimeSeries<f64> = TimeSeries::from_tsdatapoints(ptsb).unwrap();

    let mut itu = ts.apply_updating_rolling(2, update, decrement);
    let mut ptsu = Vec::new();
    while let Some(p) = itu.next() {
        ptsu.push(p);
    }
    let updated: TimeSeries<f64> = TimeSeries::from_tsdatapoints(ptsu).unwrap();
    assert_eq!(buffered, updated);
}

#[test]
fn test_skip() {
    let values = vec![1.0, 2.0, 3.0, 4.0, 5.0];
    let index: Vec<i64> = (0..values.len()).map(|i| 60 * i as i64).collect();
    let ts = TimeSeries::from_vecs(index, values).unwrap();

    let mut it = ts.skip_apply(1, change_func);
    let mut pts = Vec::new();
    while let Some(p) = it.next() {
        pts.push(p);
    }
    let ts_skipped: TimeSeries<f64> = TimeSeries::from_tsdatapoints(pts).unwrap();

    let data = vec![
        TimeSeriesDataPoint::new(60 * 1 as i64, 1.0),
        TimeSeriesDataPoint::new(60 * 2 as i64, 1.0),
        TimeSeriesDataPoint::new(60 * 3 as i64, 1.0),
        TimeSeriesDataPoint::new(60 * 4 as i64, 1.0),
    ];
    let tsexp = TimeSeries::from_tsdatapoints(data).unwrap();
    assert_eq!(tsexp, ts_skipped);
}

#[test]
fn test_skip_2span() {
    let values = vec![1.0, 2.0, 3.0, 4.0, 5.0];
    let index: Vec<i64> = (0..values.len()).map(|i| 60 * i as i64).collect();
    let ts = TimeSeries::from_vecs(index, values).unwrap();

    let mut it = ts.skip_apply(2, change_func);
    let mut pts = Vec::new();
    while let Some(p) = it.next() {
        pts.push(p);
    }
    let ts_skipped: TimeSeries<f64> = TimeSeries::from_tsdatapoints(pts).unwrap();

    let data = vec![
        TimeSeriesDataPoint::new(60 * 2 as i64, 2.0),
        TimeSeriesDataPoint::new(60 * 4 as i64, 2.0),
    ];
    let tsexp = TimeSeries::from_tsdatapoints(data).unwrap();
    assert_eq!(tsexp, ts_skipped);
}
