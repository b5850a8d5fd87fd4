//! An in-memory ordered time-series container together with a family of lazy
//! view generators: passthrough traversal, order-validating traversal,
//! shift/lag realignment, rolling reduction (recomputed and incremental), and
//! fixed-span skip-apply, plus a collector that rebuilds a container from a
//! stream of points.

pub mod collect;
pub mod ordered;
pub mod passthrough;
pub mod rolling;
pub mod series;
pub mod shift;
pub mod skip;
pub mod wrapping_sum;

pub use collect::FromUncheckedIterator;
pub use ordered::OrderedTimeSeriesIter;
pub use ordered::OrderedTimeSeriesRefIter;
pub use passthrough::TimeSeriesIter;
pub use passthrough::TimeSeriesRefIter;
pub use rolling::RollingTimeSeriesIter;
pub use rolling::RollingTimeSeriesIterWithUpdate;
pub use series::TimeSeries;
pub use series::TimeSeriesDataPoint;
pub use shift::ShiftedTimeSeriesIter;
pub use shift::add_offset;
pub use skip::SkipApplyTimeSeriesIter;
pub use wrapping_sum::rolling_sum;
pub use wrapping_sum::rolling_sum_with_update;
pub use wrapping_sum::sum_decrement;
pub use wrapping_sum::sum_reduce;
pub use wrapping_sum::sum_update;
