//! The shift/lag view: realigns the value channel against the time channel by
//! a signed offset. A negative shift parameter produces a lag (past values
//! paired with later time indices), a positive one a lead (future values
//! paired with earlier time indices).

use vstd::prelude::*;

use crate::series::TimeSeries;
use crate::series::TimeSeriesDataPoint;

verus! {

/// What `add_offset` returns: the sum when it lands inside the unsigned
/// cursor range, and no position otherwise.
pub open spec fn spec_add_offset(indexer: int, delta: int) -> Option<usize> {
    if 0 <= indexer + delta <= usize::MAX {
        Some((indexer + delta) as usize)
    } else {
        None
    }
}

/// The one bounds-checked helper for mixed signed/unsigned cursor
/// arithmetic: adds a signed offset to an unsigned cursor and reports an
/// explicit "no valid position" instead of wrapping around.
pub fn add_offset(indexer: usize, delta: isize) -> (r: Option<usize>)
    ensures
        r == spec_add_offset(indexer as int, delta as int),
{
    if delta < 0 {
        let mag: usize = if delta == isize::MIN {
            (isize::MAX as usize) + 1
        } else {
            (-delta) as usize
        };
        if indexer >= mag {
            Some(indexer - mag)
        } else {
            None
        }
    } else {
        let d = delta as usize;
        if indexer <= usize::MAX - d {
            Some(indexer + d)
        } else {
            None
        }
    }
}

/// What one step of the shift view emits once the cursor stands at `cursor`
/// (the cursor is incremented before reading): the time channel is read at
/// `cursor + shift_index - 1`, the value channel at `cursor - 1`, and the
/// step emits only when both positions are inside the container.
pub open spec fn spec_shifted_next<T>(
    times: Seq<i64>,
    values: Seq<T>,
    cursor: int,
    shift_index: int,
) -> Option<TimeSeriesDataPoint<i64, T>> {
    let valueidx = cursor - 1;
    match spec_add_offset(cursor, shift_index - 1) {
        Some(tidx) => {
            if (if tidx >= valueidx {
                tidx as int
            } else {
                valueidx
            }) < times.len() {
                Some(TimeSeriesDataPoint::spec_new(times[tidx as int], values[valueidx]))
            } else {
                None
            }
        },
        None => None,
    }
}

/// A view that shifts the values of the series against the time channel: a
/// `-1` shift is a lag and `+1` a shift forward.
pub struct ShiftedTimeSeriesIter<'a, T> {
    pub ts: &'a TimeSeries<T>,
    pub index: usize,
    pub shift_index: isize,
}

impl<'a, T: Copy> ShiftedTimeSeriesIter<'a, T> {
    pub open spec fn wf(self) -> bool {
        self.ts.wf() && self.shift_index > isize::MIN
    }

    pub fn new(ts: &'a TimeSeries<T>, index: usize, shift: isize) -> (r: ShiftedTimeSeriesIter<
        'a,
        T,
    >)
        requires
            shift != isize::MIN,
            ts.wf(),
        ensures
            r.ts == ts,
            r.wf(),
            r.shift_index == -shift,
            r.index == (if shift > 0 {
                shift as int
            } else {
                index as int
            }),
    {
        let shift_index = -shift;
        let init_index = if shift_index < 0 {
            (-shift_index) as usize
        } else {
            index
        };
        ShiftedTimeSeriesIter { ts, index: init_index, shift_index }
    }

    /// Advances the cursor and emits the value one cursor back paired with
    /// the time index `shift_index - 1` ahead, when both lie inside the
    /// container.
    pub fn next(&mut self) -> (r: Option<TimeSeriesDataPoint<i64, T>>)
        requires
            old(self).wf(),
            old(self).index < usize::MAX,
        ensures
            final(self).ts == old(self).ts,
            final(self).shift_index == old(self).shift_index,
            final(self).wf(),
            final(self).index == old(self).index + 1,
            r == spec_shifted_next(
                old(self).ts.times(),
                old(self).ts.vals(),
                old(self).index + 1,
                old(self).shift_index as int,
            ),
    {
        self.index += 1;
        let tsbounds = self.ts.len();
        let timeidx = add_offset(self.index, self.shift_index - 1);
        if let Some(tidx) = timeidx {
            let valueidx = self.index - 1;
            let curidx = if tidx >= valueidx {
                tidx
            } else {
                valueidx
            };
            if curidx < tsbounds {
                Some(
                    TimeSeriesDataPoint::new(
                        self.ts.timeindicies[tidx],
                        self.ts.values[valueidx],
                    ),
                )
            } else {
                None
            }
        } else {
            None
        }
    }
}

impl<T: Copy> TimeSeries<T> {
    /// A view of the series with the values realigned against the time
    /// channel by `shift` positions.
    pub fn shift(&self, shift: isize) -> (r: ShiftedTimeSeriesIter<'_, T>)
        requires
            shift != isize::MIN,
            self.wf(),
        ensures
            r.ts == self,
            r.wf(),
            r.shift_index == -shift,
            r.index == (if shift > 0 {
                shift as int
            } else {
                0
            }),
    {
        ShiftedTimeSeriesIter::new(self, 0, shift)
    }
}

/// Everything the shift view emits from the cursor standing at `index`: one
/// point per step while the step emits, cut off at the first step that does
/// not.
pub open spec fn shifted_emissions<T>(
    times: Seq<i64>,
    values: Seq<T>,
    index: int,
    shift_index: int,
) -> Seq<TimeSeriesDataPoint<i64, T>>
    decreases times.len() - index,
{
    if index < 0 || index >= times.len() {
        Seq::empty()
    } else {
        match spec_shifted_next(times, values, index + 1, shift_index) {
            Some(p) => seq![p] + shifted_emissions(times, values, index + 1, shift_index),
            None => Seq::empty(),
        }
    }
}

/// Out-of-range shift: once the shift magnitude reaches the container
/// length, no cursor the view can stand at emits a point, so the view yields
/// zero points rather than an error.
pub proof fn lemma_shift_out_of_range<T>(times: Seq<i64>, values: Seq<T>, cursor: int, shift: int)
    requires
        times.len() == values.len(),
        shift >= times.len() || -shift >= times.len(),
        cursor >= 1 + (if shift > 0 {
            shift
        } else {
            0
        }),
    ensures
        spec_shifted_next(times, values, cursor, -shift) is None,
{
}

} // verus!
