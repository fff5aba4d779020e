//! The chart of one controller.

use std::collections::VecDeque;

use vstd::prelude::*;

use crate::level::Level;
use crate::time::Timestamp;

verus! {

/// The recent levels of a controller, each with the time at which it was drawn.
#[derive(Debug)]
pub struct WaveformChart {
    pub values: VecDeque<(Timestamp, Level)>,
    /// Whether a picture of the chart that was made before no longer shows it as it is.
    pub outdated: bool,
}

/// A chart as its points, the oldest first, and whether a picture of it is outdated.
pub struct ChartView {
    pub points: Seq<(Timestamp, Level)>,
    pub outdated: bool,
}

impl View for WaveformChart {
    type V = ChartView;

    open spec fn view(&self) -> ChartView {
        ChartView { points: self.values@, outdated: self.outdated }
    }
}

/// A new level for a chart.
#[derive(Clone, Copy, Debug)]
pub struct UpdateState {
    /// Time of new value to add.
    pub time: Timestamp,
    pub new_value: Level,
    /// Values that are older than old_time will get removed.
    pub old_time: Timestamp,
}

/// The points that are not older than `old_time`, in the order in which they were.
pub open spec fn recent(
    points: Seq<(Timestamp, Level)>,
    old_time: Timestamp,
) -> Seq<(Timestamp, Level)> {
    points.filter(|p: (Timestamp, Level)| !old_time.is_after(p.0))
}

impl WaveformChart {
    /// A chart without points.
    pub fn new() -> (chart: WaveformChart)
        ensures
            chart@ == (ChartView { points: Seq::empty(), outdated: true }),
    {
        WaveformChart { values: VecDeque::new(), outdated: true }
    }

    /// The points after an update.
    pub open spec fn updated(
        points: Seq<(Timestamp, Level)>,
        state: UpdateState,
    ) -> Seq<(Timestamp, Level)> {
        recent(points.push((state.time, state.new_value)), state.old_time)
    }

    /// Adds a point and drops those that are too old.
    pub fn update(&mut self, state: UpdateState)
        ensures
            final(self)@ == (ChartView {
                points: WaveformChart::updated(old(self)@.points, state),
                outdated: true,
            }),
            final(self).outdated,
            final(self).values@ == recent(
                old(self).values@ + seq![(state.time, state.new_value)],
                state.old_time,
            ),
    {
        self.values.push_back((state.time, state.new_value));
        let ghost points = self.values@;
        let ghost stays = |p: (Timestamp, Level)| !state.old_time.is_after(p.0);
        let mut kept: VecDeque<(Timestamp, Level)> = VecDeque::new();
        for i in 0..self.values.len()
            invariant
                self.values@ == points,
                stays == (|p: (Timestamp, Level)| !state.old_time.is_after(p.0)),
                kept@ == points.take(i as int).filter(stays),
        {
            let point: (Timestamp, Level) = self.values[i];
            assert(points.take(i + 1).drop_last() == points.take(i as int));
            assert(points.take(i + 1).last() == point);
            reveal(Seq::filter);
            if !state.old_time.after(&point.0) {
                kept.push_back(point);
            }
        }
        assert(points.take(points.len() as int) == points);
        assert(points == old(self).values@ + seq![(state.time, state.new_value)]);
        self.values = kept;
        self.outdated = true;
    }

    /// Reports whether the chart has to be drawn anew, and counts it as drawn.
    pub fn take_outdated(&mut self) -> (outdated: bool)
        ensures
            outdated == old(self)@.outdated,
            final(self)@ == (ChartView { outdated: false, ..old(self)@ }),
            !final(self).outdated,
            final(self).values == old(self).values,
    {
        let outdated = self.outdated;
        self.outdated = false;
        outdated
    }

    /// Where the time axis ends: at the newest point, or at `now` where there is none.
    pub fn newest_time(&self, now: Timestamp) -> (time: Timestamp)
        ensures
            time == (if self@.points.len() == 0 {
                now
            } else {
                self@.points.last().0
            }),
            self@.points.len() > 0 ==> exists|i: int|
                0 <= i < self@.points.len() && (#[trigger] self@.points[i]).0 == time,
            in_time_order(self@.points) ==> forall|i: int|
                0 <= i < self@.points.len() ==> !(#[trigger] self@.points[i]).0.is_after(time),
    {
        assert(self@.points.len() > 0 ==> self@.points[self@.points.len() - 1].0
            == self@.points.last().0);
        if self.values.len() == 0 {
            now
        } else {
            self.values[self.values.len() - 1].0
        }
    }

    /// Where the time axis begins: at the oldest point, or at `now` where there is none.
    pub fn oldest_time(&self, now: Timestamp) -> (time: Timestamp)
        ensures
            time == (if self@.points.len() == 0 {
                now
            } else {
                self@.points.first().0
            }),
            self@.points.len() > 0 ==> exists|i: int|
                0 <= i < self@.points.len() && (#[trigger] self@.points[i]).0 == time,
            in_time_order(self@.points) ==> forall|i: int|
                0 <= i < self@.points.len() ==> !time.is_after((#[trigger] self@.points[i]).0),
    {
        assert(self@.points.len() > 0 ==> self@.points[0].0 == self@.points.first().0);
        if self.values.len() == 0 {
            now
        } else {
            self.values[0].0
        }
    }

    /// The level that is written next to the chart: the newest one, or zero where there is none.
    pub fn current_level(&self) -> (level: Level)
        ensures
            level == (if self@.points.len() == 0 {
                Level { bits: 0 }
            } else {
                self@.points.last().1
            }),
            forall|before: Seq<(Timestamp, Level)>, time: Timestamp, new_value: Level|
                self@.points == #[trigger] before.push((time, new_value)) ==> level == new_value,
    {
        if self.values.len() == 0 {
            Level::zero()
        } else {
            self.values[self.values.len() - 1].1
        }
    }
}

/// An update leaves the points that are not older than the old time, the new one among them, and
/// no others.
pub proof fn updates_keep_what_is_recent(
    points: Seq<(Timestamp, Level)>,
    state: UpdateState,
    p: (Timestamp, Level),
)
    ensures
        WaveformChart::updated(points, state).contains(p) <==> (!state.old_time.is_after(p.0) && (
        points.contains(p) || p == (state.time, state.new_value))),
{
    let all = points.push((state.time, state.new_value));
    let stays = |p: (Timestamp, Level)| !state.old_time.is_after(p.0);
    if all.filter(stays).contains(p) {
        all.lemma_filter_contains_rev(stays, p);
        let k = choose|k: int| 0 <= k < all.filter(stays).len() && all.filter(stays)[k] == p;
        all.lemma_filter_pred(stays, k);
        let i = choose|i: int| 0 <= i < all.len() && all[i] == p;
        if i < points.len() {
            assert(points[i] == p);
        }
    }
    if stays(p) && points.contains(p) {
        let i = choose|i: int| 0 <= i < points.len() && points[i] == p;
        assert(all[i] == p);
        all.lemma_filter_contains(stays, i);
    }
    if stays(p) && p == (state.time, state.new_value) {
        all.lemma_filter_contains(stays, points.len() as int);
    }
}

/// A new point that is not older than the old time comes last in the chart.
pub proof fn new_points_come_last(points: Seq<(Timestamp, Level)>, state: UpdateState)
    requires
        !state.old_time.is_after(state.time),
    ensures
        WaveformChart::updated(points, state).len() > 0,
        WaveformChart::updated(points, state).last() == (state.time, state.new_value),
{
    let all = points.push((state.time, state.new_value));
    reveal(Seq::filter);
    assert(all.drop_last() == points);
}

/// Whether no point comes after one that stands behind it.
pub open spec fn in_time_order(points: Seq<(Timestamp, Level)>) -> bool {
    forall|i: int, j: int|
        0 <= i < j < points.len() ==> !(#[trigger] points[i]).0.is_after((#[trigger] points[j]).0)
}

/// Points that come in the order of time stay in that order.
pub proof fn updates_keep_time_order(points: Seq<(Timestamp, Level)>, state: UpdateState)
    requires
        in_time_order(points),
        forall|i: int| 0 <= i < points.len() ==> !(#[trigger] points[i]).0.is_after(state.time),
    ensures
        in_time_order(WaveformChart::updated(points, state)),
{
    let all = points.push((state.time, state.new_value));
    assert(in_time_order(all));
    lemma_recent_in_time_order(all, state.old_time);
}

/// What was kept is kept on, and adding a point to it comes to the same as adding the point first.
pub(crate) proof fn lemma_recent_of_recent(
    points: Seq<(Timestamp, Level)>,
    old_time: Timestamp,
    p: (Timestamp, Level),
)
    ensures
        recent(recent(points, old_time), old_time) == recent(points, old_time),
        recent(recent(points, old_time).push(p), old_time) == recent(points.push(p), old_time),
    decreases points.len(),
{
    reveal(Seq::filter);
    if points.len() > 0 {
        lemma_recent_of_recent(points.drop_last(), old_time, points.last());
        assert(points.drop_last().push(points.last()) == points);
        let shorter = recent(points.drop_last(), old_time);
        assert(shorter.push(points.last()).drop_last() == shorter);
    }
    assert(points.push(p).drop_last() == points);
    assert(recent(points, old_time).push(p).drop_last() == recent(points, old_time));
}

proof fn lemma_recent_in_time_order(points: Seq<(Timestamp, Level)>, old_time: Timestamp)
    requires
        in_time_order(points),
    ensures
        in_time_order(recent(points, old_time)),
    decreases points.len(),
{
    reveal(Seq::filter);
    if points.len() > 0 {
        let shorter = points.drop_last();
        lemma_recent_in_time_order(shorter, old_time);
        let stays = |p: (Timestamp, Level)| !old_time.is_after(p.0);
        assert forall|k: int| 0 <= k < shorter.filter(stays).len() implies !(
        #[trigger] shorter.filter(stays)[k]).0.is_after(points.last().0) by {
            shorter.lemma_filter_contains_rev(stays, shorter.filter(stays)[k]);
            let i = choose|i: int|
                0 <= i < shorter.len() && shorter[i] == shorter.filter(stays)[k];
            assert(points[i] == shorter[i]);
        }
    }
}

/// Which points stay is settled for each of them alone: those of two runs are those of the first
/// one, followed by those of the second one. A point stays unless the clock says that it is older
/// than the old time, by its seconds or, within the same second, by its nanoseconds.
pub proof fn points_stay_one_by_one(
    points: Seq<(Timestamp, Level)>,
    more: Seq<(Timestamp, Level)>,
    p: (Timestamp, Level),
    old_time: Timestamp,
)
    ensures
        recent(points + more, old_time) == recent(points, old_time) + recent(more, old_time),
        recent(Seq::empty(), old_time) == Seq::<(Timestamp, Level)>::empty(),
        p.0.secs < old_time.secs ==> recent(seq![p], old_time).len() == 0,
        p.0.secs == old_time.secs && p.0.nanos < old_time.nanos ==> recent(
            seq![p],
            old_time,
        ).len() == 0,
        p.0.secs == old_time.secs && p.0.nanos >= old_time.nanos ==> recent(seq![p], old_time)
            == seq![p],
        p.0.secs > old_time.secs ==> recent(seq![p], old_time) == seq![p],
    decreases more.len(),
{
    reveal(Seq::filter);
    assert(seq![p].drop_last() == Seq::<(Timestamp, Level)>::empty());
    if more.len() > 0 {
        points_stay_one_by_one(points, more.drop_last(), p, old_time);
        assert((points + more).drop_last() == points + more.drop_last());
        assert(recent(points + more, old_time) == recent(points, old_time) + recent(
            more,
            old_time,
        ));
    } else {
        assert(points + more == points);
        assert(recent(points, old_time) + recent(more, old_time) == recent(points, old_time));
    }
}

/// An update adds the new point behind the others and then keeps, by the clock, what is not older
/// than the old time.
pub proof fn updates_go_by_the_clock(
    points: Seq<(Timestamp, Level)>,
    state: UpdateState,
    p: (Timestamp, Level),
)
    ensures
        WaveformChart::updated(points, state).contains(p) <==> (points.contains(p) || p == (
            state.time,
            state.new_value,
        )) && (p.0.secs > state.old_time.secs || (p.0.secs == state.old_time.secs && p.0.nanos
            >= state.old_time.nanos)),
        WaveformChart::updated(points, state) == recent(points, state.old_time) + recent(
            seq![(state.time, state.new_value)],
            state.old_time,
        ),
{
    updates_keep_what_is_recent(points, state, p);
    let new = seq![(state.time, state.new_value)];
    assert(points.push((state.time, state.new_value)) == points + new);
    points_stay_one_by_one(points, new, p, state.old_time);
}

/// Where no point is too old by the clock, an update loses none.
pub proof fn nothing_recent_is_lost(points: Seq<(Timestamp, Level)>, old_time: Timestamp)
    requires
        forall|i: int|
            0 <= i < points.len() ==> ((#[trigger] points[i]).0.secs > old_time.secs || (
            points[i].0.secs == old_time.secs && points[i].0.nanos >= old_time.nanos)),
    ensures
        recent(points, old_time) == points,
    decreases points.len(),
{
    reveal(Seq::filter);
    if points.len() > 0 {
        nothing_recent_is_lost(points.drop_last(), old_time);
        assert(points.last() == points[points.len() - 1]);
        assert(points.drop_last().push(points.last()) == points);
    }
}

/// A chart is seen as the points that it holds, in their order, and as outdated when it is.
pub proof fn charts_are_seen_as_they_are(chart: WaveformChart)
    ensures
        chart@.points == chart.values@,
        chart@.outdated == chart.outdated,
{
}

} // verus!
