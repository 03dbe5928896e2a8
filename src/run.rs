use vstd::prelude::*;
use crate::text::str_eq;
use crate::time::{Time, TimingMethod, min_of, min_opt};

verus! {

/// A wall-clock instant, in seconds since the Unix epoch, and whether it was
/// checked against a trusted time source when it was taken.
#[derive(Clone, Copy, Debug, PartialEq, Eq, Structural)]
pub struct AtomicDateTime {
    pub time: i64,
    pub synced_with_atomic_clock: bool,
}

/// One finished attempt of a run.
#[derive(Clone, Copy, Debug, PartialEq, Eq, Structural)]
pub struct Attempt {
    pub index: u64,
    pub time: Time,
    pub started: Option<AtomicDateTime>,
    pub ended: Option<AtomicDateTime>,
}

/// Speedrun.com style information about a run.
#[derive(Clone, Debug)]
pub struct RunMetadata {
    pub run_id: String,
    pub platform_name: String,
    pub uses_emulator: bool,
    pub region_name: String,
    pub variables: Vec<(String, String)>,
}

/// One leg of the route. `segment_history` maps attempt indices to the time
/// each attempt took on this segment, in ascending index order.
/// `comparisons` holds the fixed times of the custom comparisons by name.
#[derive(Clone, Debug)]
pub struct Segment {
    pub name: String,
    pub icon: Vec<u8>,
    pub personal_best: Time,
    pub segment_history: Vec<(u64, Time)>,
    pub comparisons: Vec<(String, Time)>,
}

/// The fastest value of `method` over a segment history; absent values never
/// count.
pub open spec fn best_of(history: Seq<(u64, Time)>, method: TimingMethod) -> Option<i64>
    decreases history.len(),
{
    if history.len() == 0 {
        None
    } else {
        min_opt(best_of(history.drop_last(), method), history.last().1.get(method))
    }
}

/// The time stored under `name` in a comparison list: the first entry with
/// that name, or the empty time where none has it.
pub open spec fn comparison_in(entries: Seq<(String, Time)>, name: Seq<char>) -> Time
    decreases entries.len(),
{
    if entries.len() == 0 {
        Time { real_time: None, game_time: None }
    } else if entries[0].0@ == name {
        entries[0].1
    } else {
        comparison_in(entries.drop_first(), name)
    }
}

/// Whether the indices of a history strictly increase and stay within `bound`.
pub open spec fn history_ordered(history: Seq<(u64, Time)>, bound: u64) -> bool {
    &&& forall|i: int, j: int| 0 <= i < j < history.len() ==> history[i].0 < history[j].0
    &&& forall|i: int| 0 <= i < history.len() ==> history[i].0 <= bound
}

/// Whether the indices of an attempt list strictly increase and stay within
/// `bound`.
pub open spec fn attempts_ordered(attempts: Seq<Attempt>, bound: u64) -> bool {
    &&& forall|i: int, j: int| 0 <= i < j < attempts.len() ==> attempts[i].index < attempts[j].index
    &&& forall|i: int| 0 <= i < attempts.len() ==> attempts[i].index <= bound
}

impl Segment {
    /// A segment with the given name and nothing recorded.
    pub fn new(name: &str) -> (r: Segment)
        ensures
            r.name@ == name@,
            r.icon@.len() == 0,
            r.personal_best.is_empty(),
            r.segment_history@.len() == 0,
            r.comparisons@.len() == 0,
    {
        Segment {
            name: String::from_str(name),
            icon: Vec::new(),
            personal_best: Time::new(),
            segment_history: Vec::new(),
            comparisons: Vec::new(),
        }
    }

    /// The best time of this segment, computed from its history for each
    /// timing method, so that it never lags behind the history.
    pub fn best_segment_time(&self) -> (r: Time)
        ensures
            r.real_time == best_of(self.segment_history@, TimingMethod::RealTime),
            r.game_time == best_of(self.segment_history@, TimingMethod::GameTime),
    {
        let h = &self.segment_history;
        let mut best_real: Option<i64> = None;
        let mut game: Option<i64> = None;
        let mut i: usize = 0;
        while i < h.len()
            invariant
                i <= h@.len(),
                best_real == best_of(h@.subrange(0, i as int), TimingMethod::RealTime),
                game == best_of(h@.subrange(0, i as int), TimingMethod::GameTime),
            decreases h@.len() - i,
        {
            let t = h[i].1;
            assert(h@.subrange(0, i + 1).drop_last() =~= h@.subrange(0, i as int));
            best_real = min_of(best_real, t.real_time);
            game = min_of(game, t.game_time);
            i = i + 1;
        }
        assert(h@.subrange(0, h@.len() as int) =~= h@);
        Time { real_time: best_real, game_time: game }
    }

    /// The time of the custom comparison `name`, or the empty time where this
    /// segment has none under that name.
    pub fn comparison(&self, name: &str) -> (r: Time)
        ensures
            r == comparison_in(self.comparisons@, name@),
    {
        let c = &self.comparisons;
        assert(c@.subrange(0, c@.len() as int) =~= c@);
        let mut i: usize = 0;
        while i < c.len()
            invariant
                i <= c@.len(),
                c@ == self.comparisons@,
                comparison_in(c@, name@) == comparison_in(c@.subrange(i as int, c@.len() as int), name@),
            decreases c@.len() - i,
        {
            let ghost rest = c@.subrange(i as int, c@.len() as int);
            assert(rest.drop_first() =~= c@.subrange(i + 1, c@.len() as int));
            assert(rest[0] == c@[i as int]);
            let entry = &c[i];
            if str_eq(entry.0.as_str(), name) {
                return entry.1;
            }
            i = i + 1;
        }
        Time::new()
    }
}

/// A run of a game category: its segments in route order, the attempts made,
/// and the names of its custom comparisons. `offset` is the time in
/// milliseconds that the timer shows at the start, negative for a countdown.
#[derive(Clone, Debug)]
pub struct Run {
    pub game_name: String,
    pub category_name: String,
    pub game_icon: Vec<u8>,
    pub metadata: RunMetadata,
    pub offset: i64,
    pub attempt_count: u64,
    pub attempt_history: Vec<Attempt>,
    pub segments: Vec<Segment>,
    pub custom_comparisons: Vec<String>,
}

impl RunMetadata {
    /// Metadata with every field empty.
    pub fn new() -> (r: RunMetadata)
        ensures
            r.run_id@.len() == 0,
            r.platform_name@.len() == 0,
            !r.uses_emulator,
            r.region_name@.len() == 0,
            r.variables@.len() == 0,
    {
        RunMetadata {
            run_id: String::new(),
            platform_name: String::new(),
            uses_emulator: false,
            region_name: String::new(),
            variables: Vec::new(),
        }
    }
}

impl Run {
    /// Whether attempt indices and segment history indices are ordered and
    /// bounded by the attempt count.
    pub open spec fn wf(&self) -> bool {
        &&& attempts_ordered(self.attempt_history@, self.attempt_count)
        &&& self.attempt_history@.len() <= self.attempt_count
        &&& forall|i: int| 0 <= i < self.segments@.len()
            ==> history_ordered(#[trigger] self.segments@[i].segment_history@, self.attempt_count)
    }

    /// A run over the given segments, with no attempts and empty names. It is
    /// well formed where the segments have no history yet.
    pub fn new(segments: Vec<Segment>) -> (r: Run)
        ensures
            (forall|i: int| 0 <= i < segments@.len() ==> #[trigger] segments@[i].segment_history@.len() == 0) ==> r.wf(),
            r.segments@ == segments@,
            r.game_name@.len() == 0,
            r.category_name@.len() == 0,
            r.attempt_count == 0,
            r.attempt_history@.len() == 0,
            r.custom_comparisons@.len() == 0,
            r.offset == 0,
    {
        Run {
            game_name: String::new(),
            category_name: String::new(),
            game_icon: Vec::new(),
            metadata: RunMetadata::new(),
            offset: 0,
            attempt_count: 0,
            attempt_history: Vec::new(),
            segments,
            custom_comparisons: Vec::new(),
        }
    }

    /// Replaces the game name.
    pub fn set_game_name(&mut self, name: &str)
        ensures
            final(self).game_name@ == name@,
            final(self).category_name == old(self).category_name,
            final(self).game_icon == old(self).game_icon,
            final(self).metadata == old(self).metadata,
            final(self).offset == old(self).offset,
            final(self).custom_comparisons == old(self).custom_comparisons,
            final(self).segments == old(self).segments,
            final(self).attempt_history == old(self).attempt_history,
            final(self).attempt_count == old(self).attempt_count,
            final(self).wf() == old(self).wf(),
    {
        self.game_name = String::from_str(name);
    }

    /// Replaces the category name.
    pub fn set_category_name(&mut self, name: &str)
        ensures
            final(self).category_name@ == name@,
            final(self).game_name == old(self).game_name,
            final(self).game_icon == old(self).game_icon,
            final(self).metadata == old(self).metadata,
            final(self).offset == old(self).offset,
            final(self).custom_comparisons == old(self).custom_comparisons,
            final(self).segments == old(self).segments,
            final(self).attempt_history == old(self).attempt_history,
            final(self).attempt_count == old(self).attempt_count,
            final(self).wf() == old(self).wf(),
    {
        self.category_name = String::from_str(name);
    }
}
/// An empty time added to a history never changes its best time, in either
/// timing method.
pub proof fn lemma_empty_time_keeps_best(history: Seq<(u64, Time)>, index: u64, method: TimingMethod)
    ensures
        best_of(history.push((index, Time { real_time: None, game_time: None })), method) == best_of(history, method),
{
    let pushed = history.push((index, Time { real_time: None, game_time: None }));
    assert(pushed.drop_last() =~= history);
}

} // verus!
