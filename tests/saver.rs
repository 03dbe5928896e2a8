use livesplit_core::run::{Attempt, AtomicDateTime, Run, Segment};
use livesplit_core::layout::parse_bool;
use livesplit_core::saver::{fmt_duration, fmt_hex, parse_hex, parse_index, save, Element};
use livesplit_core::time::Time;
use livesplit_core::timer::{TimeStamp, Timer};

fn child<'a>(e: &'a Element, name: &str) -> &'a Element {
    e.children.iter().find(|c| c.name == name).unwrap()
}

fn attr<'a>(e: &'a Element, name: &str) -> Option<&'a str> {
    e.attributes.iter().find(|(n, _)| n == name).map(|(_, v)| v.as_str())
}

#[test]
fn durations_are_hours_minutes_seconds_millis() {
    assert_eq!(fmt_duration(0), "0:00:00.000");
    assert_eq!(fmt_duration(3_723_004), "1:02:03.004");
    assert_eq!(fmt_duration(-1500), "-0:00:01.500");
    assert_eq!(fmt_duration(36_000_000 + 59_999), "10:00:59.999");
    assert_eq!(fmt_duration(i64::MIN).starts_with('-'), true);
}

#[test]
fn saved_run_holds_names_attempts_and_history() {
    let segments = vec![Segment::new("Hi"), Segment::new("okok")];
    let mut run = Run::new(segments);
    run.set_game_name("Wind Waker");
    let mut timer = Timer::new(run);
    let start = AtomicDateTime { time: 0, synced_with_atomic_clock: false };
    let end = AtomicDateTime { time: 86_400 + 3661, synced_with_atomic_clock: true };
    timer.start(TimeStamp { real: 0, game: None }, start).unwrap();
    timer.split(TimeStamp { real: 1000, game: None }, end).unwrap();
    timer.split(TimeStamp { real: 61_000, game: None }, end).unwrap();
    timer.reset(true).unwrap();

    let doc = save(timer.run());
    assert_eq!(doc.name, "Run");
    assert_eq!(attr(&doc, "version"), Some("1.6.0"));
    let names: Vec<&str> = doc.children.iter().map(|c| c.name.as_str()).collect();
    assert_eq!(names, vec!["GameIcon", "GameName", "CategoryName", "Metadata", "Offset", "AttemptCount",
        "AttemptHistory", "Segments", "AutoSplitterSettings"]);
    assert_eq!(child(&doc, "GameName").text, "Wind Waker");
    assert_eq!(child(&doc, "AttemptCount").text, "1");
    assert_eq!(child(&doc, "Offset").text, "0:00:00.000");

    let attempt = &child(&doc, "AttemptHistory").children[0];
    assert_eq!(attr(attempt, "id"), Some("1"));
    assert_eq!(attr(attempt, "started"), Some("01/01/1970 00:00:00"));
    assert_eq!(attr(attempt, "isStartedSynced"), Some("False"));
    assert_eq!(attr(attempt, "ended"), Some("01/02/1970 01:01:01"));
    assert_eq!(attr(attempt, "isEndedSynced"), Some("True"));
    assert_eq!(child(attempt, "RealTime").text, "0:01:01.000");
    assert!(attempt.children.iter().all(|c| c.name != "GameTime"));

    let segs = &child(&doc, "Segments").children;
    assert_eq!(segs.len(), 2);
    assert_eq!(child(&segs[0], "Name").text, "Hi");
    assert_eq!(child(&segs[1], "Name").text, "okok");
    let history = &child(&segs[1], "SegmentHistory").children[0];
    assert_eq!(attr(history, "id"), Some("1"));
    assert_eq!(child(history, "RealTime").text, "0:01:00.000");
    let pb = &child(&segs[1], "SplitTimes").children[0];
    assert_eq!(attr(pb, "name"), Some("Personal Best"));
    assert_eq!(child(pb, "RealTime").text, "0:01:01.000");
    assert_eq!(child(child(&segs[0], "BestSegmentTime"), "RealTime").text, "0:00:01.000");
}

#[test]
fn saved_run_holds_custom_comparisons_and_metadata() {
    let mut seg = Segment::new("Forest");
    seg.comparisons = vec![("Sum of Best".to_string(), Time { real_time: Some(500), game_time: Some(400) })];
    let mut run = Run::new(vec![seg]);
    run.custom_comparisons = vec!["Sum of Best".to_string(), "Other".to_string()];
    run.metadata.platform_name = "GameCube".to_string();
    run.metadata.uses_emulator = true;
    run.metadata.variables = vec![("Difficulty".to_string(), "Hard".to_string())];
    run.attempt_history = vec![Attempt {
        index: 3,
        time: Time::new(),
        started: Some(AtomicDateTime { time: 0, synced_with_atomic_clock: true }),
        ended: None,
    }];
    let doc = save(&run);
    let metadata = child(&doc, "Metadata");
    let platform = child(metadata, "Platform");
    assert_eq!(platform.text, "GameCube");
    assert_eq!(attr(platform, "usesEmulator"), Some("True"));
    let var = &child(metadata, "Variables").children[0];
    assert_eq!(attr(var, "name"), Some("Difficulty"));
    assert_eq!(var.text, "Hard");

    let attempt = &child(&doc, "AttemptHistory").children[0];
    assert_eq!(attr(attempt, "id"), Some("3"));
    assert_eq!(attr(attempt, "isStartedSynced"), Some("True"));
    assert_eq!(attr(attempt, "ended"), None);
    assert!(attempt.children.is_empty());

    let splits = &child(&child(&doc, "Segments").children[0], "SplitTimes").children;
    assert_eq!(splits.len(), 3);
    assert_eq!(attr(&splits[1], "name"), Some("Sum of Best"));
    assert_eq!(child(&splits[1], "GameTime").text, "0:00:00.400");
    assert_eq!(attr(&splits[2], "name"), Some("Other"));
    assert!(splits[2].children.is_empty());
}

#[test]
fn indices_read_back_from_decimal() {
    assert_eq!(parse_index("0"), Some(0));
    assert_eq!(parse_index("123"), Some(123));
    assert_eq!(parse_index("18446744073709551615"), Some(u64::MAX));
    assert_eq!(parse_index("18446744073709551616"), None);
    assert_eq!(parse_index(""), None);
    assert_eq!(parse_index("12a"), None);
    assert_eq!(parse_index("-1"), None);
}

#[test]
fn saved_keys_and_flags_read_back() {
    let mut seg = Segment::new("Tower");
    seg.segment_history = vec![(2, Time { real_time: Some(10), game_time: None }), (17, Time::new())];
    let mut run = Run::new(vec![seg, Segment::new("Ganon")]);
    run.set_game_name("Wind Waker");
    run.attempt_history = vec![
        Attempt { index: 2, time: Time::new(), started: Some(AtomicDateTime { time: 5, synced_with_atomic_clock: true }), ended: None },
        Attempt {
            index: 17,
            time: Time::new(),
            started: Some(AtomicDateTime { time: 6, synced_with_atomic_clock: false }),
            ended: Some(AtomicDateTime { time: 7, synced_with_atomic_clock: true }),
        },
    ];
    let doc = save(&run);
    assert_eq!(doc.children[1].text, "Wind Waker");
    let attempts = &child(&doc, "AttemptHistory").children;
    let ids: Vec<Option<u64>> = attempts.iter().map(|a| parse_index(attr(a, "id").unwrap())).collect();
    assert_eq!(ids, vec![Some(2), Some(17)]);
    assert_eq!(parse_bool(attr(&attempts[0], "isStartedSynced").unwrap()), Ok(true));
    assert_eq!(parse_bool(attr(&attempts[1], "isStartedSynced").unwrap()), Ok(false));
    assert_eq!(parse_bool(attr(&attempts[1], "isEndedSynced").unwrap()), Ok(true));
    assert_eq!(attr(&attempts[0], "isEndedSynced"), None);
    let segs = &child(&doc, "Segments").children;
    let names: Vec<&str> = segs.iter().map(|s| child(s, "Name").text.as_str()).collect();
    assert_eq!(names, vec!["Tower", "Ganon"]);
    let keys: Vec<Option<u64>> =
        child(&segs[0], "SegmentHistory").children.iter().map(|t| parse_index(attr(t, "id").unwrap())).collect();
    assert_eq!(keys, vec![Some(2), Some(17)]);
}

#[test]
fn icons_are_saved_as_hex_and_read_back() {
    let mut seg = Segment::new("Forest");
    seg.icon = vec![0x89, 0x50, 0x4E, 0x47, 0x00, 0xFF];
    let mut run = Run::new(vec![seg, Segment::new("Plain")]);
    run.game_icon = vec![1, 2, 0xAB];
    let doc = save(&run);
    assert_eq!(child(&doc, "GameIcon").text, "0102AB");
    assert_eq!(parse_hex(&child(&doc, "GameIcon").text), Some(vec![1, 2, 0xAB]));
    let segs = &child(&doc, "Segments").children;
    assert_eq!(child(&segs[0], "Icon").text, "89504E4700FF");
    assert_eq!(parse_hex(&child(&segs[0], "Icon").text), Some(vec![0x89, 0x50, 0x4E, 0x47, 0x00, 0xFF]));
    assert_eq!(child(&segs[1], "Icon").text, "");
}

#[test]
fn hex_text_reads_either_case() {
    assert_eq!(fmt_hex(&vec![]), "");
    assert_eq!(fmt_hex(&vec![0x0F, 0xA0]), "0FA0");
    assert_eq!(parse_hex("0fa0"), Some(vec![0x0F, 0xA0]));
    assert_eq!(parse_hex(""), Some(vec![]));
    assert_eq!(parse_hex("0FA"), None);
    assert_eq!(parse_hex("0G"), None);
}
