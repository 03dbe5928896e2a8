use livesplit_core::run::{AtomicDateTime, Run, Segment};
use livesplit_core::time::Time;
use livesplit_core::timer::{StateError, TimeStamp, Timer, TimerPhase};

fn at(real: u32) -> TimeStamp {
    TimeStamp { real, game: None }
}

fn date(time: i64) -> AtomicDateTime {
    AtomicDateTime { time, synced_with_atomic_clock: true }
}

fn timer_of(names: &[&str]) -> Timer {
    let segments = names.iter().map(|n| Segment::new(n)).collect();
    Timer::new(Run::new(segments))
}

fn rt(ms: i64) -> Time {
    Time { real_time: Some(ms), game_time: None }
}

#[test]
fn completed_attempt_is_recorded_and_becomes_personal_best() {
    let segments = vec![Segment::new("Hi"), Segment::new("okok")];
    let mut run = Run::new(segments);
    run.set_game_name("Wind Waker");
    let mut timer = Timer::new(run);
    assert_eq!(timer.start(at(0), date(100)), Ok(()));
    assert_eq!(timer.split(at(1000), date(101)), Ok(()));
    assert_eq!(timer.split(at(2500), date(102)), Ok(()));
    assert_eq!(timer.current_phase(), TimerPhase::Ended);
    assert_eq!(timer.reset(true), Ok(()));
    assert_eq!(timer.current_phase(), TimerPhase::NotRunning);

    let run = timer.run();
    assert_eq!(run.game_name, "Wind Waker");
    assert_eq!(run.attempt_count, 1);
    assert_eq!(run.attempt_history.len(), 1);
    let attempt = run.attempt_history[0];
    assert_eq!(attempt.index, 1);
    assert_eq!(attempt.time, rt(2500));
    assert_eq!(attempt.started, Some(date(100)));
    assert_eq!(attempt.ended, Some(date(102)));
    assert_eq!(run.segments[0].name, "Hi");
    assert_eq!(run.segments[1].name, "okok");
    assert_eq!(run.segments[0].segment_history, vec![(1, rt(1000))]);
    assert_eq!(run.segments[1].segment_history, vec![(1, rt(1500))]);
    assert_eq!(run.segments[0].personal_best, rt(1000));
    assert_eq!(run.segments[1].personal_best, rt(2500));
    assert_eq!(run.segments[1].best_segment_time(), rt(1500));
}

#[test]
fn slower_attempt_keeps_personal_best_but_joins_history() {
    let mut timer = timer_of(&["a", "b"]);
    timer.start(at(0), date(1)).unwrap();
    timer.split(at(1000), date(2)).unwrap();
    timer.split(at(2000), date(3)).unwrap();
    timer.reset(true).unwrap();
    timer.start(at(10_000), date(4)).unwrap();
    timer.split(at(10_500), date(5)).unwrap();
    timer.split(at(13_000), date(6)).unwrap();
    timer.reset(true).unwrap();
    let run = timer.run();
    assert_eq!(run.segments[0].personal_best, rt(1000));
    assert_eq!(run.segments[1].personal_best, rt(2000));
    assert_eq!(run.segments[0].segment_history, vec![(1, rt(1000)), (2, rt(500))]);
    assert_eq!(run.segments[0].best_segment_time(), rt(500));
    assert_eq!(run.segments[1].best_segment_time(), rt(1000));
}

#[test]
fn reset_without_update_keeps_segments() {
    let mut timer = timer_of(&["a", "b"]);
    let before = timer.run().segments.clone();
    timer.start(at(0), date(1)).unwrap();
    timer.split(at(700), date(2)).unwrap();
    timer.split(at(900), date(3)).unwrap();
    timer.reset(false).unwrap();
    let run = timer.run();
    assert_eq!(run.segments.len(), before.len());
    for (a, b) in run.segments.iter().zip(before.iter()) {
        assert_eq!(a.segment_history, b.segment_history);
        assert_eq!(a.personal_best, b.personal_best);
    }
    assert_eq!(run.attempt_count, 1);
    assert_eq!(run.attempt_history.len(), 1);
}

#[test]
fn reset_before_any_split_counts_but_records_nothing() {
    let mut timer = timer_of(&["a"]);
    timer.start(at(0), date(1)).unwrap();
    timer.reset(true).unwrap();
    assert_eq!(timer.run().attempt_count, 1);
    assert!(timer.run().attempt_history.is_empty());
}

#[test]
fn unfinished_attempt_has_empty_time() {
    let mut timer = timer_of(&["a", "b"]);
    timer.start(at(0), date(1)).unwrap();
    timer.split(at(300), date(2)).unwrap();
    timer.reset(true).unwrap();
    let run = timer.run();
    assert_eq!(run.attempt_history[0].time, Time::new());
    assert_eq!(run.attempt_history[0].ended, None);
    assert!(run.segments[0].segment_history.is_empty());
}

#[test]
fn undo_then_split_replays_the_same_entry() {
    let mut timer = timer_of(&["a", "b", "c"]);
    timer.start(at(0), date(1)).unwrap();
    timer.split(at(400), date(2)).unwrap();
    timer.split(at(1000), date(3)).unwrap();
    let pending = timer.segment_times.clone();
    assert_eq!(pending, vec![rt(400), rt(600)]);
    timer.undo_split().unwrap();
    assert_eq!(timer.segment_times, vec![rt(400)]);
    timer.split(at(1000), date(3)).unwrap();
    assert_eq!(timer.segment_times, pending);
}

#[test]
fn undo_from_ended_resumes_running() {
    let mut timer = timer_of(&["a"]);
    timer.start(at(0), date(1)).unwrap();
    timer.split(at(50), date(2)).unwrap();
    assert_eq!(timer.current_phase(), TimerPhase::Ended);
    timer.undo_split().unwrap();
    assert_eq!(timer.current_phase(), TimerPhase::Running);
    assert_eq!(timer.ended, None);
}

#[test]
fn skipped_segment_is_empty_and_keeps_best() {
    let mut timer = timer_of(&["a", "b"]);
    timer.start(at(0), date(1)).unwrap();
    timer.split(at(100), date(2)).unwrap();
    timer.split(at(300), date(3)).unwrap();
    timer.reset(true).unwrap();
    timer.start(at(1000), date(4)).unwrap();
    timer.skip_split().unwrap();
    timer.split(at(1250), date(5)).unwrap();
    assert_eq!(timer.segment_times, vec![Time::new(), rt(250)]);
    timer.reset(true).unwrap();
    let seg = &timer.run().segments[0];
    assert_eq!(seg.segment_history, vec![(1, rt(100)), (2, Time::new())]);
    assert_eq!(seg.best_segment_time(), rt(100));
}

#[test]
fn skip_of_last_segment_is_rejected() {
    let mut timer = timer_of(&["only"]);
    timer.start(at(0), date(1)).unwrap();
    assert_eq!(timer.skip_split(), Err(StateError::InvalidPhase));
    assert_eq!(timer.current_phase(), TimerPhase::Running);
}

#[test]
fn paused_time_is_left_out() {
    let mut timer = timer_of(&["a"]);
    timer.start(at(0), date(1)).unwrap();
    timer.pause(at(500)).unwrap();
    assert_eq!(timer.current_phase(), TimerPhase::Paused);
    assert_eq!(timer.split(at(600), date(2)), Err(StateError::InvalidPhase));
    timer.resume(at(1500)).unwrap();
    timer.split(at(2000), date(2)).unwrap();
    assert_eq!(timer.segment_times, vec![rt(1000)]);
}

#[test]
fn game_time_is_measured_by_the_game_clock() {
    let mut timer = timer_of(&["a"]);
    timer.start(TimeStamp { real: 100, game: Some(0) }, date(1)).unwrap();
    timer.split(TimeStamp { real: 1100, game: Some(900) }, date(2)).unwrap();
    assert_eq!(timer.segment_times, vec![Time { real_time: Some(1000), game_time: Some(900) }]);
}

#[test]
fn operations_in_the_wrong_phase_are_rejected() {
    let mut timer = timer_of(&["a"]);
    assert_eq!(timer.split(at(1), date(1)), Err(StateError::InvalidPhase));
    assert_eq!(timer.undo_split(), Err(StateError::InvalidPhase));
    assert_eq!(timer.pause(at(1)), Err(StateError::InvalidPhase));
    assert_eq!(timer.resume(at(1)), Err(StateError::InvalidPhase));
    assert_eq!(timer.reset(true), Err(StateError::InvalidPhase));
    timer.start(at(0), date(1)).unwrap();
    assert_eq!(timer.start(at(0), date(1)), Err(StateError::InvalidPhase));
    assert_eq!(timer.undo_split(), Err(StateError::InvalidPhase));
    assert_eq!(timer.run().attempt_count, 0);
}

#[test]
fn best_segment_time_is_the_minimum_per_method() {
    let mut seg = Segment::new("s");
    seg.segment_history = vec![
        (1, Time { real_time: Some(500), game_time: None }),
        (2, Time { real_time: Some(300), game_time: Some(900) }),
        (3, Time { real_time: None, game_time: Some(700) }),
        (4, Time::new()),
    ];
    assert_eq!(seg.best_segment_time(), Time { real_time: Some(300), game_time: Some(700) });
    assert_eq!(Segment::new("e").best_segment_time(), Time::new());
}

#[test]
fn comparison_lookup_defaults_to_empty() {
    let mut seg = Segment::new("s");
    seg.comparisons = vec![("Sum".to_string(), rt(5)), ("Avg".to_string(), rt(7))];
    assert_eq!(seg.comparison("Avg"), rt(7));
    assert_eq!(seg.comparison("None"), Time::new());
}
