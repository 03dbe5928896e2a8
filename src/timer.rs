use vstd::prelude::*;
use crate::run::{Attempt, AtomicDateTime, Run, Segment, history_ordered};
use crate::time::Time;

verus! {

/// The phase of a timing session; exactly one holds at a time.
#[derive(Clone, Copy, Debug, PartialEq, Eq, Structural)]
pub enum TimerPhase {
    NotRunning,
    Running,
    Paused,
    Ended,
}

/// Why a timer operation was rejected.
#[derive(Clone, Copy, Debug, PartialEq, Eq, Structural)]
pub enum StateError {
    /// The operation is not allowed in the timer's current phase.
    InvalidPhase,
}

/// Readings of the two clocks in milliseconds: the session's real-time clock,
/// and the game's own clock where the game reports one.
#[derive(Clone, Copy, Debug, PartialEq, Eq, Structural)]
pub struct TimeStamp {
    pub real: u32,
    pub game: Option<u32>,
}

/// Largest magnitude of an elapsed time that the timer records.
pub const ELAPSED_BOUND: i64 = 8589934592;

/// Whether both methods of `t` lie within the elapsed bound.
pub open spec fn bounded(t: Time) -> bool {
    &&& (t.real_time matches Some(x) ==> -ELAPSED_BOUND <= x <= ELAPSED_BOUND)
    &&& (t.game_time matches Some(x) ==> -ELAPSED_BOUND <= x <= ELAPSED_BOUND)
}

/// The attempt's elapsed time at `now`: real time excludes the time spent
/// paused, game time is the game clock's advance since the start.
pub open spec fn elapsed(start: TimeStamp, pause_total: u32, now: TimeStamp) -> Time {
    Time {
        real_time: Some((now.real - start.real - pause_total) as i64),
        game_time: match (now.game, start.game) {
            (Some(n), Some(s)) => Some((n - s) as i64),
            _ => None,
        },
    }
}

/// The difference of two optional durations; absence on either side
/// propagates.
pub open spec fn diff_opt(a: Option<i64>, b: Option<i64>) -> Option<i64> {
    match (a, b) {
        (Some(x), Some(y)) => Some((x - y) as i64),
        _ => None,
    }
}

/// The difference of two times, per method.
pub open spec fn diff(a: Time, b: Time) -> Time {
    Time { real_time: diff_opt(a.real_time, b.real_time), game_time: diff_opt(a.game_time, b.game_time) }
}

/// The elapsed time that the next segment is measured from: the last carried
/// value, or zero before the first split.
pub open spec fn last_carried(carried: Seq<Time>) -> Time {
    if carried.len() == 0 {
        Time { real_time: Some(0i64), game_time: Some(0i64) }
    } else {
        carried.last()
    }
}

/// Whether a finished attempt whose final split time is `new` beats a
/// personal best whose final split time is `prior`, by real time.
pub open spec fn improves(prior: Time, new: Time) -> bool {
    match new.real_time {
        Some(n) => match prior.real_time {
            Some(p) => n < p,
            None => true,
        },
        None => false,
    }
}

/// Whether two runs agree on everything but attempts and segments.
pub open spec fn same_header(a: Run, b: Run) -> bool {
    &&& a.game_name == b.game_name
    &&& a.category_name == b.category_name
    &&& a.game_icon == b.game_icon
    &&& a.metadata == b.metadata
    &&& a.offset == b.offset
    &&& a.custom_comparisons == b.custom_comparisons
}

/// A segment after an attempt is committed to it: the attempt's time joins
/// its history under `index`, and its personal best becomes `split` where
/// the attempt improved on the personal best.
pub open spec fn committed_segment(old: Segment, new: Segment, index: u64, segment_time: Time, split: Time, better: bool) -> bool {
    &&& new.name == old.name
    &&& new.icon == old.icon
    &&& new.comparisons == old.comparisons
    &&& new.segment_history@ == old.segment_history@.push((index, segment_time))
    &&& new.personal_best == (if better { split } else { old.personal_best })
}

/// The elapsed time at `now` of an attempt started at `start`.
fn elapsed_at(start: TimeStamp, pause_total: u32, now: TimeStamp) -> (r: Time)
    ensures
        r == elapsed(start, pause_total, now),
        bounded(r),
{
    let real_ms = now.real as i64 - start.real as i64 - pause_total as i64;
    let game = match (now.game, start.game) {
        (Some(n), Some(s)) => Some(n as i64 - s as i64),
        _ => None,
    };
    Time { real_time: Some(real_ms), game_time: game }
}

/// The difference of two bounded times, per method.
fn diff_time(a: Time, b: Time) -> (r: Time)
    requires
        bounded(a),
        bounded(b),
    ensures
        r == diff(a, b),
{
    let real_part = match (a.real_time, b.real_time) {
        (Some(x), Some(y)) => Some(x - y),
        _ => None,
    };
    let game = match (a.game_time, b.game_time) {
        (Some(x), Some(y)) => Some(x - y),
        _ => None,
    };
    Time { real_time: real_part, game_time: game }
}

fn improves_exec(prior: Time, new: Time) -> (r: bool)
    ensures
        r == improves(prior, new),
{
    match new.real_time {
        Some(n) => match prior.real_time {
            Some(p) => n < p,
            None => true,
        },
        None => false,
    }
}

/// A live timing session over one run. The pending vectors hold one entry
/// per split made in the current attempt: the segment's time (empty where it
/// was skipped), the elapsed time at the split (empty where skipped), and the
/// elapsed time that the following segment is measured from.
pub struct Timer {
    pub run: Run,
    pub phase: TimerPhase,
    pub current_split_index: usize,
    pub started: Option<AtomicDateTime>,
    pub ended: Option<AtomicDateTime>,
    pub start: TimeStamp,
    pub pause_total: u32,
    pub pause_began: u32,
    pub segment_times: Vec<Time>,
    pub split_times: Vec<Time>,
    pub carried: Vec<Time>,
}

impl Timer {
    pub open spec fn wf(&self) -> bool {
        &&& self.run.wf()
        &&& self.run.segments@.len() > 0
        &&& self.segment_times@.len() == self.current_split_index
        &&& self.split_times@.len() == self.current_split_index
        &&& self.carried@.len() == self.current_split_index
        &&& forall|i: int| 0 <= i < self.carried@.len() ==> bounded(#[trigger] self.carried@[i])
        &&& self.current_split_index <= self.run.segments@.len()
        &&& (self.phase == TimerPhase::NotRunning ==> self.current_split_index == 0)
        &&& ((self.phase == TimerPhase::Running || self.phase == TimerPhase::Paused)
            ==> self.current_split_index < self.run.segments@.len())
        &&& (self.phase == TimerPhase::Ended ==> self.current_split_index == self.run.segments@.len())
    }

    /// Whether `new` is `old` with the pending attempt state and the phase
    /// left as they were.
    pub open spec fn same_session(old: Timer, new: Timer) -> bool {
        &&& new.run == old.run
        &&& new.current_split_index == old.current_split_index
        &&& new.started == old.started
        &&& new.ended == old.ended
        &&& new.start == old.start
        &&& new.segment_times@ == old.segment_times@
        &&& new.split_times@ == old.split_times@
        &&& new.carried@ == old.carried@
    }

    /// The effect of a successful split at `now`.
    pub open spec fn split_step(old: Timer, now: TimeStamp, date: AtomicDateTime, new: Timer) -> bool {
        let e = elapsed(old.start, old.pause_total, now);
        let last = old.current_split_index + 1 == old.run.segments@.len();
        &&& new.run == old.run
        &&& new.current_split_index == old.current_split_index + 1
        &&& new.segment_times@ == old.segment_times@.push(diff(e, last_carried(old.carried@)))
        &&& new.split_times@ == old.split_times@.push(e)
        &&& new.carried@ == old.carried@.push(e)
        &&& new.phase == (if last { TimerPhase::Ended } else { TimerPhase::Running })
        &&& new.ended == (if last { Some(date) } else { old.ended })
        &&& new.started == old.started
        &&& new.start == old.start
        &&& new.pause_total == old.pause_total
        &&& new.pause_began == old.pause_began
    }

    /// The effect of a successful undo of the last split.
    pub open spec fn undo_step(old: Timer, new: Timer) -> bool {
        &&& new.run == old.run
        &&& new.current_split_index == old.current_split_index - 1
        &&& new.segment_times@ == old.segment_times@.drop_last()
        &&& new.split_times@ == old.split_times@.drop_last()
        &&& new.carried@ == old.carried@.drop_last()
        &&& new.phase == TimerPhase::Running
        &&& new.ended == (if old.phase == TimerPhase::Ended { None } else { old.ended })
        &&& new.started == old.started
        &&& new.start == old.start
        &&& new.pause_total == old.pause_total
        &&& new.pause_began == old.pause_began
    }

    /// A timer over `run`, not yet running.
    pub fn new(run: Run) -> (r: Timer)
        requires
            run.wf(),
            run.segments@.len() > 0,
        ensures
            r.wf(),
            r.run == run,
            r.phase == TimerPhase::NotRunning,
    {
        Timer {
            run,
            phase: TimerPhase::NotRunning,
            current_split_index: 0,
            started: None,
            ended: None,
            start: TimeStamp { real: 0, game: None },
            pause_total: 0,
            pause_began: 0,
            segment_times: Vec::new(),
            split_times: Vec::new(),
            carried: Vec::new(),
        }
    }

    /// The run that this timer owns.
    pub fn run(&self) -> (r: &Run)
        ensures
            r == &self.run,
    {
        &self.run
    }

    /// The current phase.
    pub fn current_phase(&self) -> (r: TimerPhase)
        ensures
            r == self.phase,
    {
        self.phase
    }

    /// Starts an attempt at `now`, taken at wall-clock `date`.
    pub fn start(&mut self, now: TimeStamp, date: AtomicDateTime) -> (r: Result<(), StateError>)
        requires
            old(self).wf(),
        ensures
            final(self).wf(),
            old(self).phase != TimerPhase::NotRunning ==> r == Err::<(), StateError>(StateError::InvalidPhase) && *final(self) == *old(self),
            old(self).phase == TimerPhase::NotRunning ==> {
                &&& r == Ok::<(), StateError>(())
                &&& final(self).run == old(self).run
                &&& final(self).phase == TimerPhase::Running
                &&& final(self).current_split_index == 0
                &&& final(self).started == Some(date)
                &&& final(self).ended.is_none()
                &&& final(self).start == now
                &&& final(self).pause_total == 0
                &&& final(self).segment_times@.len() == 0
            },
    {
        if self.phase != TimerPhase::NotRunning {
            return Err(StateError::InvalidPhase);
        }
        self.phase = TimerPhase::Running;
        self.current_split_index = 0;
        self.started = Some(date);
        self.ended = None;
        self.start = now;
        self.pause_total = 0;
        self.pause_began = 0;
        self.segment_times = Vec::new();
        self.split_times = Vec::new();
        self.carried = Vec::new();
        Ok(())
    }

    /// Ends the current segment at `now`: records its time, measured from the
    /// previous split that was not skipped, and moves to the next segment. The
    /// split of the last segment ends the attempt at wall-clock `date`.
    pub fn split(&mut self, now: TimeStamp, date: AtomicDateTime) -> (r: Result<(), StateError>)
        requires
            old(self).wf(),
        ensures
            final(self).wf(),
            old(self).phase != TimerPhase::Running ==> r == Err::<(), StateError>(StateError::InvalidPhase) && *final(self) == *old(self),
            old(self).phase == TimerPhase::Running ==> r == Ok::<(), StateError>(()) && Timer::split_step(*old(self), now, date, *final(self)),
    {
        if self.phase != TimerPhase::Running {
            return Err(StateError::InvalidPhase);
        }
        let idx = self.current_split_index;
        let n = self.run.segments.len();
        assert(idx < n);
        let e = elapsed_at(self.start, self.pause_total, now);
        let prev = self.last_carried();
        let seg = diff_time(e, prev);
        self.segment_times.push(seg);
        self.split_times.push(e);
        self.carried.push(e);
        self.current_split_index = idx + 1;
        if idx + 1 == n {
            self.phase = TimerPhase::Ended;
            self.ended = Some(date);
        }
        proof {
            assert forall|i: int| 0 <= i < self.carried@.len() implies bounded(#[trigger] self.carried@[i]) by {
                if i < old(self).carried@.len() {
                    assert(self.carried@[i] == old(self).carried@[i]);
                }
            }
        }
        Ok(())
    }

    /// Skips the current segment, which is not the last: its time is empty,
    /// and the next segment is measured from the same point as this one was.
    pub fn skip_split(&mut self) -> (r: Result<(), StateError>)
        requires
            old(self).wf(),
        ensures
            final(self).wf(),
            !(old(self).phase == TimerPhase::Running && old(self).current_split_index + 1 < old(self).run.segments@.len())
                ==> r == Err::<(), StateError>(StateError::InvalidPhase) && *final(self) == *old(self),
            old(self).phase == TimerPhase::Running && old(self).current_split_index + 1 < old(self).run.segments@.len() ==> {
                &&& r == Ok::<(), StateError>(())
                &&& final(self).run == old(self).run
                &&& final(self).phase == TimerPhase::Running
                &&& final(self).current_split_index == old(self).current_split_index + 1
                &&& final(self).segment_times@ == old(self).segment_times@.push(Time { real_time: None, game_time: None })
                &&& final(self).split_times@ == old(self).split_times@.push(Time { real_time: None, game_time: None })
                &&& final(self).carried@ == old(self).carried@.push(last_carried(old(self).carried@))
                &&& final(self).start == old(self).start
                &&& final(self).pause_total == old(self).pause_total
                &&& final(self).pause_began == old(self).pause_began
                &&& final(self).started == old(self).started
                &&& final(self).ended == old(self).ended
            },
    {
        if self.phase != TimerPhase::Running || self.current_split_index >= self.run.segments.len() - 1 {
            return Err(StateError::InvalidPhase);
        }
        let prev = self.last_carried();
        self.segment_times.push(Time::new());
        self.split_times.push(Time::new());
        self.carried.push(prev);
        self.current_split_index = self.current_split_index + 1;
        proof {
            assert forall|i: int| 0 <= i < self.carried@.len() implies bounded(#[trigger] self.carried@[i]) by {
                if i < old(self).carried@.len() {
                    assert(self.carried@[i] == old(self).carried@[i]);
                }
            }
        }
        Ok(())
    }

    /// Takes back the last split of the current attempt and returns to its
    /// segment; the committed history of earlier attempts is not touched.
    pub fn undo_split(&mut self) -> (r: Result<(), StateError>)
        requires
            old(self).wf(),
        ensures
            final(self).wf(),
            !((old(self).phase == TimerPhase::Running || old(self).phase == TimerPhase::Ended) && old(self).current_split_index > 0)
                ==> r == Err::<(), StateError>(StateError::InvalidPhase) && *final(self) == *old(self),
            (old(self).phase == TimerPhase::Running || old(self).phase == TimerPhase::Ended) && old(self).current_split_index > 0
                ==> r == Ok::<(), StateError>(()) && Timer::undo_step(*old(self), *final(self)),
    {
        if !((self.phase == TimerPhase::Running || self.phase == TimerPhase::Ended) && self.current_split_index > 0) {
            return Err(StateError::InvalidPhase);
        }
        if self.phase == TimerPhase::Ended {
            self.ended = None;
        }
        self.segment_times.pop();
        self.split_times.pop();
        self.carried.pop();
        self.current_split_index = self.current_split_index - 1;
        self.phase = TimerPhase::Running;
        proof {
            assert forall|i: int| 0 <= i < self.carried@.len() implies bounded(#[trigger] self.carried@[i]) by {
                assert(self.carried@[i] == old(self).carried@[i]);
            }
        }
        Ok(())
    }

    /// Pauses the running attempt at `now`.
    pub fn pause(&mut self, now: TimeStamp) -> (r: Result<(), StateError>)
        requires
            old(self).wf(),
        ensures
            final(self).wf(),
            old(self).phase != TimerPhase::Running ==> r == Err::<(), StateError>(StateError::InvalidPhase) && *final(self) == *old(self),
            old(self).phase == TimerPhase::Running ==> {
                &&& r == Ok::<(), StateError>(())
                &&& final(self).phase == TimerPhase::Paused
                &&& final(self).pause_began == now.real
                &&& final(self).pause_total == old(self).pause_total
                &&& Timer::same_session(*old(self), *final(self))
            },
    {
        if self.phase != TimerPhase::Running {
            return Err(StateError::InvalidPhase);
        }
        self.phase = TimerPhase::Paused;
        self.pause_began = now.real;
        Ok(())
    }

    /// Resumes the paused attempt at `now`; the real time spent paused is
    /// left out of every later elapsed time of this attempt.
    pub fn resume(&mut self, now: TimeStamp) -> (r: Result<(), StateError>)
        requires
            old(self).wf(),
        ensures
            final(self).wf(),
            old(self).phase != TimerPhase::Paused ==> r == Err::<(), StateError>(StateError::InvalidPhase) && *final(self) == *old(self),
            old(self).phase == TimerPhase::Paused ==> {
                &&& r == Ok::<(), StateError>(())
                &&& final(self).phase == TimerPhase::Running
                &&& final(self).pause_total as int == vstd::math::min(
                    old(self).pause_total + (if now.real >= old(self).pause_began { now.real - old(self).pause_began } else { 0 }),
                    u32::MAX as int,
                )
                &&& Timer::same_session(*old(self), *final(self))
            },
    {
        if self.phase != TimerPhase::Paused {
            return Err(StateError::InvalidPhase);
        }
        let paused = now.real.saturating_sub(self.pause_began);
        self.pause_total = self.pause_total.saturating_add(paused);
        self.phase = TimerPhase::Running;
        Ok(())
    }

    /// The effect of a successful reset.
    pub open spec fn reset_step(old: Timer, update_splits: bool, new: Timer) -> bool {
        let index = (old.run.attempt_count + 1) as u64;
        let completed = old.phase == TimerPhase::Ended;
        let total = if completed { old.split_times@.last() } else { Time { real_time: None, game_time: None } };
        let commit = update_splits && completed;
        let better = improves(old.run.segments@.last().personal_best, old.split_times@.last());
        &&& new.phase == TimerPhase::NotRunning
        &&& new.current_split_index == 0
        &&& new.started.is_none()
        &&& new.ended.is_none()
        &&& new.pause_total == 0
        &&& new.pause_began == 0
        &&& new.segment_times@.len() == 0
        &&& new.split_times@.len() == 0
        &&& new.carried@.len() == 0
        &&& new.start == old.start
        &&& new.run.attempt_count == index
        &&& same_header(old.run, new.run)
        &&& new.run.attempt_history@ == (if old.current_split_index > 0 {
            old.run.attempt_history@.push(Attempt { index, time: total, started: old.started, ended: old.ended })
        } else {
            old.run.attempt_history@
        })
        &&& (!commit ==> new.run.segments == old.run.segments)
        &&& (commit ==> {
            &&& new.run.segments@.len() == old.run.segments@.len()
            &&& forall|i: int| 0 <= i < old.run.segments@.len() ==> committed_segment(
                #[trigger] old.run.segments@[i],
                new.run.segments@[i],
                index,
                old.segment_times@[i],
                old.split_times@[i],
                better,
            )
        })
    }

    /// Ends the attempt, from any phase but `NotRunning`. The attempt count
    /// always grows by one, and the new count is the attempt's index. An
    /// attempt that made at least one split is added to the attempt history,
    /// with its final split time where it was completed. With `update_splits`
    /// a completed attempt joins every segment's history, and becomes the
    /// personal best where its final real time beats the previous one;
    /// otherwise the segments stay as they were.
    pub fn reset(&mut self, update_splits: bool) -> (r: Result<(), StateError>)
        requires
            old(self).wf(),
            old(self).run.attempt_count < u64::MAX,
        ensures
            final(self).wf(),
            old(self).phase == TimerPhase::NotRunning ==> r == Err::<(), StateError>(StateError::InvalidPhase) && *final(self) == *old(self),
            old(self).phase != TimerPhase::NotRunning ==> r == Ok::<(), StateError>(()) && Timer::reset_step(*old(self), update_splits, *final(self)),
    {
        if self.phase == TimerPhase::NotRunning {
            return Err(StateError::InvalidPhase);
        }
        let index = self.run.attempt_count + 1;
        let completed = self.phase == TimerPhase::Ended;
        if update_splits && completed {
            self.commit_attempt(index);
        }
        proof {
            assert forall|i: int| 0 <= i < self.run.segments@.len() implies history_ordered(
                #[trigger] self.run.segments@[i].segment_history@,
                index,
            ) by {
                if !(update_splits && completed) {
                    assert(history_ordered(old(self).run.segments@[i].segment_history@, old(self).run.attempt_count));
                }
            }
        }
        if self.current_split_index > 0 {
            let time = if completed {
                self.split_times[self.split_times.len() - 1]
            } else {
                Time::new()
            };
            self.run.attempt_history.push(Attempt { index, time, started: self.started, ended: self.ended });
        }
        self.run.attempt_count = index;
        self.phase = TimerPhase::NotRunning;
        self.current_split_index = 0;
        self.started = None;
        self.ended = None;
        self.pause_total = 0;
        self.pause_began = 0;
        self.segment_times = Vec::new();
        self.split_times = Vec::new();
        self.carried = Vec::new();
        Ok(())
    }

    /// Adds the completed attempt's segment times to the segments' histories
    /// under `index`, and its split times as the personal best where the
    /// attempt improved on it.
    fn commit_attempt(&mut self, index: u64)
        requires
            old(self).wf(),
            old(self).phase == TimerPhase::Ended,
            index == old(self).run.attempt_count + 1,
        ensures
            final(self).run.attempt_history == old(self).run.attempt_history,
            final(self).run.attempt_count == old(self).run.attempt_count,
            same_header(old(self).run, final(self).run),
            final(self).run.segments@.len() == old(self).run.segments@.len(),
            forall|i: int| 0 <= i < old(self).run.segments@.len() ==> committed_segment(
                #[trigger] old(self).run.segments@[i],
                final(self).run.segments@[i],
                index,
                old(self).segment_times@[i],
                old(self).split_times@[i],
                improves(old(self).run.segments@.last().personal_best, old(self).split_times@.last()),
            ),
            forall|i: int| 0 <= i < final(self).run.segments@.len() ==> history_ordered(
                #[trigger] final(self).run.segments@[i].segment_history@,
                index,
            ),
            final(self).phase == old(self).phase,
            final(self).current_split_index == old(self).current_split_index,
            final(self).started == old(self).started,
            final(self).ended == old(self).ended,
            final(self).segment_times@ == old(self).segment_times@,
            final(self).split_times@ == old(self).split_times@,
            final(self).carried@ == old(self).carried@,
            final(self).start == old(self).start,
    {
        let n = self.run.segments.len();
        let better = improves_exec(self.run.segments[n - 1].personal_best, self.split_times[n - 1]);
        let mut rest: Vec<Segment> = Vec::new();
        std::mem::swap(&mut rest, &mut self.run.segments);
        let ghost orig = rest@;
        let mut done: Vec<Segment> = Vec::new();
        let mut i: usize = 0;
        while i < n
            invariant
                n == orig.len(),
                orig == old(self).run.segments@,
                i <= n,
                rest@ == orig.subrange(i as int, n as int),
                done@.len() == i,
                self.segment_times@ == old(self).segment_times@,
                self.split_times@ == old(self).split_times@,
                self.segment_times@.len() == n,
                self.split_times@.len() == n,
                old(self).run.wf(),
                better == improves(orig.last().personal_best, old(self).split_times@.last()),
                index == old(self).run.attempt_count + 1,
                forall|k: int| 0 <= k < i ==> committed_segment(
                    #[trigger] orig[k],
                    done@[k],
                    index,
                    self.segment_times@[k],
                    self.split_times@[k],
                    better,
                ),
                forall|k: int| 0 <= k < i ==> history_ordered(#[trigger] done@[k].segment_history@, index),
            decreases n - i,
        {
            assert(rest@[0] == orig[i as int]);
            let mut seg = rest.remove(0);
            assert(rest@ =~= orig.subrange(i + 1, n as int));
            let ghost before = seg.segment_history@;
            assert(history_ordered(orig[i as int].segment_history@, old(self).run.attempt_count));
            seg.segment_history.push((index, self.segment_times[i]));
            if better {
                seg.personal_best = self.split_times[i];
            }
            assert(history_ordered(seg.segment_history@, index)) by {
                assert forall|a: int, b: int| 0 <= a < b < seg.segment_history@.len() implies
                    seg.segment_history@[a].0 < seg.segment_history@[b].0 by {
                    if b < before.len() {
                        assert(seg.segment_history@[a] == before[a]);
                        assert(seg.segment_history@[b] == before[b]);
                    } else {
                        assert(seg.segment_history@[a] == before[a]);
                    }
                }
                assert forall|a: int| 0 <= a < seg.segment_history@.len() implies
                    seg.segment_history@[a].0 <= index by {
                    if a < before.len() {
                        assert(seg.segment_history@[a] == before[a]);
                    }
                }
            }
            done.push(seg);
            i = i + 1;
        }
        self.run.segments = done;
    }

    fn last_carried(&self) -> (r: Time)
        requires
            self.wf(),
        ensures
            r == last_carried(self.carried@),
            bounded(r),
    {
        let n = self.carried.len();
        if n == 0 {
            Time::zero()
        } else {
            self.carried[n - 1]
        }
    }
}
/// A reset that updates the splits after a completed attempt whose final
/// real time beats the personal best sets every segment's personal best to
/// exactly that attempt's split times.
pub proof fn lemma_reset_sets_personal_best(before: Timer, after: Timer)
    requires
        before.wf(),
        before.phase == TimerPhase::Ended,
        improves(before.run.segments@.last().personal_best, before.split_times@.last()),
        Timer::reset_step(before, true, after),
    ensures
        after.run.segments@.len() == before.run.segments@.len(),
        forall|i: int| 0 <= i < after.run.segments@.len() ==> #[trigger] after.run.segments@[i].personal_best == before.split_times@[i],
{
    assert forall|i: int| 0 <= i < after.run.segments@.len() implies #[trigger] after.run.segments@[i].personal_best == before.split_times@[i] by {
        assert(committed_segment(before.run.segments@[i], after.run.segments@[i], (before.run.attempt_count + 1) as u64,
            before.segment_times@[i], before.split_times@[i], true));
    }
}

/// A reset without updating the splits leaves every segment, with its
/// comparisons, personal best and history, as it was.
pub proof fn lemma_reset_without_update_keeps_segments(before: Timer, after: Timer)
    requires
        Timer::reset_step(before, false, after),
    ensures
        after.run.segments == before.run.segments,
{
}

/// An attempt whose operations all keep the run (as start, split, skip,
/// undo, pause and resume do) and that ends in a reset without updating the
/// splits leaves every segment as it was before the attempt.
pub proof fn lemma_discarded_attempt_keeps_segments(steps: Seq<Timer>, after: Timer)
    requires
        steps.len() > 0,
        forall|i: int| 0 <= i < steps.len() - 1 ==> (#[trigger] steps[i + 1]).run == steps[i].run,
        Timer::reset_step(steps.last(), false, after),
    ensures
        after.run.segments == steps[0].run.segments,
{
    lemma_runs_equal_along(steps);
}

proof fn lemma_runs_equal_along(steps: Seq<Timer>)
    requires
        steps.len() > 0,
        forall|i: int| 0 <= i < steps.len() - 1 ==> (#[trigger] steps[i + 1]).run == steps[i].run,
    ensures
        steps.last().run == steps[0].run,
    decreases steps.len(),
{
    if steps.len() > 1 {
        let shorter = steps.drop_last();
        assert forall|i: int| 0 <= i < shorter.len() - 1 implies (#[trigger] shorter[i + 1]).run == shorter[i].run by {
            assert(shorter[i + 1] == steps[i + 1]);
        }
        lemma_runs_equal_along(shorter);
        let k = steps.len() - 2;
        assert(steps[k + 1].run == steps[k].run);
    }
}

/// Undoing a split and splitting again with the same clock readings gives
/// back the pending state that the undone split had made.
pub proof fn lemma_undo_then_split_replays(
    t0: Timer,
    t1: Timer,
    t2: Timer,
    t3: Timer,
    now: TimeStamp,
    date: AtomicDateTime,
)
    requires
        Timer::split_step(t0, now, date, t1),
        Timer::undo_step(t1, t2),
        Timer::split_step(t2, now, date, t3),
    ensures
        t3.segment_times@ == t1.segment_times@,
        t3.split_times@ == t1.split_times@,
        t3.carried@ == t1.carried@,
        t3.current_split_index == t1.current_split_index,
        t3.phase == t1.phase,
        t3.ended == t1.ended,
        t3.run == t1.run,
{
    assert(t2.segment_times@ =~= t0.segment_times@);
    assert(t2.split_times@ =~= t0.split_times@);
    assert(t2.carried@ =~= t0.carried@);
}

} // verus!
