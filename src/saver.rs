use vstd::prelude::*;
use crate::run::{Attempt, Run, RunMetadata, Segment, best_of, comparison_in};
use crate::layout::{bool_of, hex_byte, hex_digit, hex_digit_value};
use crate::time::{Time, TimingMethod};

verus! {

/// An XML element: its name, its attributes in order, its text, and its
/// child elements in order.
#[derive(Debug)]
pub struct Element {
    pub name: String,
    pub attributes: Vec<(String, String)>,
    pub text: String,
    pub children: Vec<Element>,
}

/// The character of a decimal digit.
pub open spec fn digit(d: nat) -> char {
    "0123456789"@[d as int]
}

/// The decimal digits of `n`, without leading zeros.
pub open spec fn decimal(n: nat) -> Seq<char>
    decreases n,
{
    if n < 10 {
        seq![digit(n)]
    } else {
        decimal(n / 10).push(digit(n % 10))
    }
}

/// The decimal digits of `n`, with leading zeros to at least `width` digits.
pub open spec fn padded(n: nat, width: nat) -> Seq<char> {
    if width == 3 && n < 10 {
        "00"@ + decimal(n)
    } else if width >= 2 && n < if width == 3 { 100nat } else { 10nat } {
        "0"@ + decimal(n)
    } else {
        decimal(n)
    }
}

/// A duration in milliseconds as hours, minutes, seconds and milliseconds:
/// `-1:02:03.004` for minus one hour, two minutes, three seconds and four
/// milliseconds.
pub open spec fn duration_text(ms: int) -> Seq<char> {
    let a: nat = (if ms < 0 { -ms } else { ms }) as nat;
    (if ms < 0 { "-"@ } else { ""@ }) + decimal(a / 3600000) + ":"@ + padded((a / 60000) % 60, 2) + ":"@
        + padded((a / 1000) % 60, 2) + "."@ + padded(a % 1000, 3)
}

/// The text that a wall-clock instant, in seconds since the Unix epoch, is
/// written as: month, day, year and time of day in UTC, `MM/DD/YYYY HH:MM:SS`;
/// empty for an instant outside the calendar's range.
pub uninterp spec fn date_text(secs: i64) -> Seq<char>;

/// The upper-case hexadecimal digit of a value below sixteen.
pub open spec fn hex_char(d: nat) -> char {
    "0123456789ABCDEF"@[d as int]
}

/// Bytes as text: two upper-case hexadecimal digits per byte, high digit
/// first.
pub open spec fn hex_text(b: Seq<u8>) -> Seq<char>
    decreases b.len(),
{
    if b.len() == 0 {
        Seq::empty()
    } else {
        hex_text(b.drop_last()) + seq![hex_char((b.last() / 16) as nat), hex_char((b.last() % 16) as nat)]
    }
}

/// The bytes that a text of hexadecimal digit pairs spells.
pub open spec fn hex_bytes(s: Seq<char>) -> Option<Seq<u8>>
    decreases s.len(),
{
    if s.len() == 0 {
        Some(Seq::empty())
    } else if s.len() < 2 {
        None
    } else {
        match (hex_bytes(s.subrange(0, s.len() - 2)), hex_byte(s[s.len() - 2], s[s.len() - 1])) {
            (Some(p), Some(v)) => Some(p.push(v)),
            _ => None,
        }
    }
}

proof fn lemma_hex_char_round_trip(d: nat)
    requires
        d < 16,
    ensures
        hex_digit(hex_char(d)) == Some(d as u8),
{
    reveal_strlit("0123456789ABCDEF");
}

/// Bytes written as hexadecimal text read back as the same bytes.
pub proof fn lemma_hex_round_trip(b: Seq<u8>)
    ensures
        hex_text(b).len() == 2 * b.len(),
        hex_bytes(hex_text(b)) == Some(b),
    decreases b.len(),
{
    if b.len() > 0 {
        let x = b.last();
        lemma_hex_round_trip(b.drop_last());
        lemma_hex_char_round_trip((x / 16) as nat);
        lemma_hex_char_round_trip((x % 16) as nat);
        let t = hex_text(b);
        assert(t.subrange(0, t.len() - 2) =~= hex_text(b.drop_last()));
        assert((x / 16) * 16 + x % 16 == x) by (nonlinear_arith);
        assert(b.drop_last().push(x) =~= b);
    }
}

/// The text of a boolean in a splits file.
pub open spec fn bool_text(value: bool) -> Seq<char> {
    if value { "True"@ } else { "False"@ }
}

/// The attributes of an element, as pairs of texts.
pub open spec fn attrs(e: Element) -> Seq<(Seq<char>, Seq<char>)> {
    e.attributes@.map_values(|p: (String, String)| (p.0@, p.1@))
}

/// Whether `e` is an element with the given name, attributes and text and
/// no children.
pub open spec fn is_leaf(e: Element, name: Seq<char>, attributes: Seq<(Seq<char>, Seq<char>)>, text: Seq<char>) -> bool {
    &&& e.name@ == name
    &&& attrs(e) == attributes
    &&& e.text@ == text
    &&& e.children@.len() == 0
}

/// Whether `e` is an element with the given name that holds only child
/// elements: no attributes and no text.
pub open spec fn is_container(e: Element, name: Seq<char>) -> bool {
    &&& e.name@ == name
    &&& attrs(e).len() == 0
    &&& e.text@.len() == 0
}

/// The timed values of a time as child elements: `RealTime`, then
/// `GameTime`, each only where that method has a value.
pub open spec fn time_children_ok(children: Seq<Element>, t: Time) -> bool {
    match (t.real_time, t.game_time) {
        (Some(r), Some(g)) => children.len() == 2 && is_leaf(children[0], "RealTime"@, seq![], duration_text(r as int))
            && is_leaf(children[1], "GameTime"@, seq![], duration_text(g as int)),
        (Some(r), None) => children.len() == 1 && is_leaf(children[0], "RealTime"@, seq![], duration_text(r as int)),
        (None, Some(g)) => children.len() == 1 && is_leaf(children[0], "GameTime"@, seq![], duration_text(g as int)),
        (None, None) => children.len() == 0,
    }
}

/// Whether `e` is an element named `name` with the given attributes that
/// holds the time `t`.
pub open spec fn is_time_element(e: Element, name: Seq<char>, attributes: Seq<(Seq<char>, Seq<char>)>, t: Time) -> bool {
    &&& e.name@ == name
    &&& attrs(e) == attributes
    &&& e.text@.len() == 0
    &&& time_children_ok(e.children@, t)
}

/// The attributes of an attempt: its index, then its start and end instants
/// with their clock-trust flags where they are known.
pub open spec fn attempt_attrs(a: Attempt) -> Seq<(Seq<char>, Seq<char>)> {
    seq![("id"@, decimal(a.index as nat))]
        + match a.started {
            Some(d) => seq![("started"@, date_text(d.time)), ("isStartedSynced"@, bool_text(d.synced_with_atomic_clock))],
            None => seq![],
        }
        + match a.ended {
            Some(d) => seq![("ended"@, date_text(d.time)), ("isEndedSynced"@, bool_text(d.synced_with_atomic_clock))],
            None => seq![],
        }
}

/// Whether `e` is the element of a segment of a run with the custom
/// comparisons `comparisons`: its name, an empty icon, its split times (the
/// personal best first, then each custom comparison), its best segment time,
/// and its history with each time under its attempt index.
pub open spec fn is_segment_element(e: Element, s: Segment, comparisons: Seq<String>) -> bool {
    let c = e.children@;
    let splits = c[2].children@;
    let history = c[4].children@;
    &&& is_container(e, "Segment"@)
    &&& c.len() == 5
    &&& is_leaf(c[0], "Name"@, seq![], s.name@)
    &&& is_leaf(c[1], "Icon"@, seq![], hex_text(s.icon@))
    &&& is_container(c[2], "SplitTimes"@)
    &&& splits.len() == comparisons.len() + 1
    &&& is_time_element(splits[0], "SplitTime"@, seq![("name"@, "Personal Best"@)], s.personal_best)
    &&& forall|k: int| 0 <= k < comparisons.len() ==> is_time_element(
        #[trigger] splits[k + 1],
        "SplitTime"@,
        seq![("name"@, comparisons[k]@)],
        comparison_in(s.comparisons@, comparisons[k]@),
    )
    &&& is_time_element(c[3], "BestSegmentTime"@, seq![], Time {
        real_time: best_of(s.segment_history@, TimingMethod::RealTime),
        game_time: best_of(s.segment_history@, TimingMethod::GameTime),
    })
    &&& is_container(c[4], "SegmentHistory"@)
    &&& history.len() == s.segment_history@.len()
    &&& forall|k: int| 0 <= k < history.len() ==> is_time_element(
        #[trigger] history[k],
        "Time"@,
        seq![("id"@, decimal(s.segment_history@[k].0 as nat))],
        s.segment_history@[k].1,
    )
}

/// Whether `e` is the metadata element of `m`: the run id, the platform with
/// its emulator flag, the region, and each variable with its name.
pub open spec fn is_metadata_element(e: Element, m: RunMetadata) -> bool {
    let c = e.children@;
    let vars = c[3].children@;
    &&& is_container(e, "Metadata"@)
    &&& c.len() == 4
    &&& is_leaf(c[0], "Run"@, seq![("id"@, m.run_id@)], seq![])
    &&& is_leaf(c[1], "Platform"@, seq![("usesEmulator"@, bool_text(m.uses_emulator))], m.platform_name@)
    &&& is_leaf(c[2], "Region"@, seq![], m.region_name@)
    &&& is_container(c[3], "Variables"@)
    &&& vars.len() == m.variables@.len()
    &&& forall|k: int| 0 <= k < vars.len() ==> is_leaf(
        #[trigger] vars[k],
        "Variable"@,
        seq![("name"@, m.variables@[k].0@)],
        m.variables@[k].1@,
    )
}

/// Whether `e` is the document element of `run` in the native splits format:
/// version 1.6.0, an empty game icon, the names, the metadata, the offset,
/// the attempt count, every attempt, every segment, and empty auto splitter
/// settings.
pub open spec fn is_run_element(e: Element, run: Run) -> bool {
    let c = e.children@;
    let attempts = c[6].children@;
    let segments = c[7].children@;
    &&& e.name@ == "Run"@
    &&& attrs(e) == seq![("version"@, "1.6.0"@)]
    &&& e.text@.len() == 0
    &&& c.len() == 9
    &&& is_leaf(c[0], "GameIcon"@, seq![], hex_text(run.game_icon@))
    &&& is_leaf(c[1], "GameName"@, seq![], run.game_name@)
    &&& is_leaf(c[2], "CategoryName"@, seq![], run.category_name@)
    &&& is_metadata_element(c[3], run.metadata)
    &&& is_leaf(c[4], "Offset"@, seq![], duration_text(run.offset as int))
    &&& is_leaf(c[5], "AttemptCount"@, seq![], decimal(run.attempt_count as nat))
    &&& is_container(c[6], "AttemptHistory"@)
    &&& attempts.len() == run.attempt_history@.len()
    &&& forall|k: int| 0 <= k < attempts.len() ==> is_time_element(
        #[trigger] attempts[k],
        "Attempt"@,
        attempt_attrs(run.attempt_history@[k]),
        run.attempt_history@[k].time,
    )
    &&& is_container(c[7], "Segments"@)
    &&& segments.len() == run.segments@.len()
    &&& forall|k: int| 0 <= k < segments.len() ==> is_segment_element(
        #[trigger] segments[k],
        run.segments@[k],
        run.custom_comparisons@,
    )
    &&& is_leaf(c[8], "AutoSplitterSettings"@, seq![], seq![])
}

/// The value of a decimal digit.
pub open spec fn digit_value(c: char) -> Option<nat> {
    if '0' <= c && c <= '9' {
        Some((c as u32 - '0' as u32) as nat)
    } else {
        None
    }
}

/// The number that a non-empty string of decimal digits spells.
pub open spec fn decimal_value(s: Seq<char>) -> Option<nat>
    decreases s.len(),
{
    if s.len() == 0 {
        None
    } else {
        match digit_value(s.last()) {
            None => None,
            Some(d) => if s.len() == 1 {
                Some(d)
            } else {
                match decimal_value(s.drop_last()) {
                    Some(v) => Some(v * 10 + d),
                    None => None,
                }
            },
        }
    }
}

proof fn lemma_digit_round_trip(d: nat)
    requires
        d < 10,
    ensures
        digit_value(digit(d)) == Some(d),
{
    reveal_strlit("0123456789");
}

/// The digits that a number is written with read back as that number.
pub proof fn lemma_decimal_round_trip(n: nat)
    ensures
        decimal_value(decimal(n)) == Some(n),
        decimal(n).len() >= 1,
    decreases n,
{
    if n < 10 {
        lemma_digit_round_trip(n);
        assert(seq![digit(n)].last() == digit(n));
    } else {
        lemma_decimal_round_trip(n / 10);
        lemma_digit_round_trip(n % 10);
        let s = decimal(n);
        assert(s.drop_last() =~= decimal(n / 10));
        assert(s.last() == digit(n % 10));
        assert((n / 10) * 10 + n % 10 == n) by (nonlinear_arith);
    }
}

proof fn lemma_decimal_value_grows(s: Seq<char>, i: int)
    requires
        1 <= i <= s.len(),
        decimal_value(s) is Some,
    ensures
        decimal_value(s.subrange(0, i)) is Some,
        decimal_value(s.subrange(0, i))->0 <= decimal_value(s)->0,
    decreases s.len() - i,
{
    if i == s.len() {
        assert(s.subrange(0, i) =~= s);
    } else {
        let t = s.drop_last();
        assert(decimal_value(t) is Some);
        assert(t.subrange(0, i) =~= s.subrange(0, i));
        lemma_decimal_value_grows(t, i);
    }
}

/// A flag, written the way a splits file holds it, reads back as the same
/// flag.
pub proof fn lemma_flag_text_round_trip(value: bool)
    ensures
        bool_of(bool_text(value)) == Some(value),
{
    reveal_strlit("True");
    reveal_strlit("False");
    if !value {
        assert("False"@ != "True"@) by {
            assert("False"@.len() != "True"@.len());
        }
    }
}

/// What a saved run gives back when read: the game name and icon, every
/// segment's name and icon in route order, each attempt's index and
/// clock-trust flags, and each segment history entry's attempt index.
pub proof fn lemma_saved_run_reads_back(e: Element, run: Run)
    requires
        is_run_element(e, run),
    ensures
        e.children@[1].text@ == run.game_name@,
        hex_bytes(e.children@[0].text@) == Some(run.game_icon@),
        forall|i: int| 0 <= i < run.segments@.len() ==>
            hex_bytes((#[trigger] e.children@[7].children@[i]).children@[1].text@) == Some(run.segments@[i].icon@),
        e.children@[7].children@.len() == run.segments@.len(),
        forall|i: int| 0 <= i < run.segments@.len() ==>
            (#[trigger] e.children@[7].children@[i]).children@[0].text@ == run.segments@[i].name@,
        forall|k: int| 0 <= k < run.attempt_history@.len() ==>
            decimal_value(attrs(#[trigger] e.children@[6].children@[k])[0].1) == Some(run.attempt_history@[k].index as nat),
        forall|k: int| 0 <= k < run.attempt_history@.len() ==> (run.attempt_history@[k].started matches Some(d)
            ==> bool_of(attrs(#[trigger] e.children@[6].children@[k])[2].1) == Some(d.synced_with_atomic_clock)),
        forall|k: int| 0 <= k < run.attempt_history@.len() ==> (run.attempt_history@[k].ended matches Some(d)
            ==> bool_of(attrs(#[trigger] e.children@[6].children@[k])[
                if run.attempt_history@[k].started is Some { 4int } else { 2int }
            ].1) == Some(d.synced_with_atomic_clock)),
        forall|i: int, k: int| 0 <= i < run.segments@.len() && 0 <= k < run.segments@[i].segment_history@.len() ==>
            decimal_value(attrs(#[trigger] e.children@[7].children@[i].children@[4].children@[k])[0].1)
                == Some(run.segments@[i].segment_history@[k].0 as nat),
{
    assert forall|k: int| 0 <= k < run.attempt_history@.len() implies
        decimal_value(attrs(#[trigger] e.children@[6].children@[k])[0].1) == Some(run.attempt_history@[k].index as nat) by {
        lemma_decimal_round_trip(run.attempt_history@[k].index as nat);
    }
    assert forall|k: int| 0 <= k < run.attempt_history@.len() implies (run.attempt_history@[k].started matches Some(d)
        ==> bool_of(attrs(#[trigger] e.children@[6].children@[k])[2].1) == Some(d.synced_with_atomic_clock)) by {
        match run.attempt_history@[k].started {
            Some(d) => lemma_flag_text_round_trip(d.synced_with_atomic_clock),
            None => {},
        }
    }
    assert forall|k: int| 0 <= k < run.attempt_history@.len() implies (run.attempt_history@[k].ended matches Some(d)
        ==> bool_of(attrs(#[trigger] e.children@[6].children@[k])[
            if run.attempt_history@[k].started is Some { 4int } else { 2int }
        ].1) == Some(d.synced_with_atomic_clock)) by {
        match run.attempt_history@[k].ended {
            Some(d) => lemma_flag_text_round_trip(d.synced_with_atomic_clock),
            None => {},
        }
    }
    assert forall|i: int, k: int| 0 <= i < run.segments@.len() && 0 <= k < run.segments@[i].segment_history@.len() implies
        decimal_value(attrs(#[trigger] e.children@[7].children@[i].children@[4].children@[k])[0].1)
            == Some(run.segments@[i].segment_history@[k].0 as nat) by {
        assert(is_segment_element(e.children@[7].children@[i], run.segments@[i], run.custom_comparisons@));
        lemma_decimal_round_trip(run.segments@[i].segment_history@[k].0 as nat);
    }
    assert forall|i: int| 0 <= i < run.segments@.len() implies
        (#[trigger] e.children@[7].children@[i]).children@[0].text@ == run.segments@[i].name@ by {
        assert(is_segment_element(e.children@[7].children@[i], run.segments@[i], run.custom_comparisons@));
    }
    lemma_hex_round_trip(run.game_icon@);
    assert forall|i: int| 0 <= i < run.segments@.len() implies
        hex_bytes((#[trigger] e.children@[7].children@[i]).children@[1].text@) == Some(run.segments@[i].icon@) by {
        assert(is_segment_element(e.children@[7].children@[i], run.segments@[i], run.custom_comparisons@));
        lemma_hex_round_trip(run.segments@[i].icon@);
    }
}

fn digit_str(d: u64) -> (r: &'static str)
    requires
        d < 10,
    ensures
        r@ == seq![digit(d as nat)],
{
    proof {
        reveal_strlit("0123456789");
        reveal_strlit("0");
        reveal_strlit("1");
        reveal_strlit("2");
        reveal_strlit("3");
        reveal_strlit("4");
        reveal_strlit("5");
        reveal_strlit("6");
        reveal_strlit("7");
        reveal_strlit("8");
        reveal_strlit("9");
    }
    if d == 0 {
        "0"
    } else if d == 1 {
        "1"
    } else if d == 2 {
        "2"
    } else if d == 3 {
        "3"
    } else if d == 4 {
        "4"
    } else if d == 5 {
        "5"
    } else if d == 6 {
        "6"
    } else if d == 7 {
        "7"
    } else if d == 8 {
        "8"
    } else {
        "9"
    }
}

fn decimal_string(n: u64) -> (r: String)
    ensures
        r@ == decimal(n as nat),
{
    let mut m: u64 = n;
    let mut out = String::new();
    while m >= 10
        invariant
            decimal(n as nat) == decimal(m as nat) + out@,
        decreases m,
    {
        let mut s = String::from_str(digit_str(m % 10));
        s.append(out.as_str());
        assert(decimal(m as nat) == decimal((m / 10) as nat).push(digit((m % 10) as nat)));
        assert(decimal((m / 10) as nat) + s@ =~= decimal(m as nat) + out@);
        out = s;
        m = m / 10;
    }
    let mut s = String::from_str(digit_str(m));
    s.append(out.as_str());
    s
}

/// Relies on chrono's `DateTime::from_timestamp` and its `%m/%d/%Y %T`
/// format: the result depends on the instant alone.
#[verifier::external_body]
fn fmt_date(secs: i64) -> (r: String)
    ensures
        r@ == date_text(secs),
{
    match chrono::DateTime::from_timestamp(secs, 0) {
        Some(d) => d.format("%m/%d/%Y %T").to_string(),
        None => String::new(),
    }
}

/// The text of a boolean in a splits file.
pub fn fmt_bool(value: bool) -> (r: &'static str)
    ensures
        r@ == bool_text(value),
{
    if value { "True" } else { "False" }
}

fn padded_string(n: u64, width: u64) -> (r: String)
    requires
        width == 2 || width == 3,
    ensures
        r@ == padded(n as nat, width as nat),
{
    let digits = decimal_string(n);
    if width == 3 && n < 10 {
        let mut out = String::from_str("00");
        out.append(digits.as_str());
        out
    } else if n < if width == 3 { 100 } else { 10 } {
        let mut out = String::from_str("0");
        out.append(digits.as_str());
        out
    } else {
        digits
    }
}

/// A duration in milliseconds as hours, minutes, seconds and milliseconds.
pub fn fmt_duration(ms: i64) -> (r: String)
    ensures
        r@ == duration_text(ms as int),
{
    let a: u64 = if ms < 0 { (0i128 - ms as i128) as u64 } else { ms as u64 };
    let mut out = if ms < 0 { String::from_str("-") } else { String::from_str("") };
    out.append(decimal_string(a / 3600000).as_str());
    out.append(":");
    out.append(padded_string((a / 60000) % 60, 2).as_str());
    out.append(":");
    out.append(padded_string((a / 1000) % 60, 2).as_str());
    out.append(".");
    out.append(padded_string(a % 1000, 3).as_str());
    out
}

fn leaf(name: &str, text: String) -> (r: Element)
    ensures
        is_leaf(r, name@, seq![], text@),
{
    let r = Element { name: String::from_str(name), attributes: Vec::new(), text, children: Vec::new() };
    assert(attrs(r) =~= seq![]);
    r
}

fn time_element(name: &str, attributes: Vec<(String, String)>, t: Time) -> (r: Element)
    ensures
        is_time_element(r, name@, attributes@.map_values(|p: (String, String)| (p.0@, p.1@)), t),
{
    let mut children: Vec<Element> = Vec::new();
    match t.real_time {
        Some(v) => children.push(leaf("RealTime", fmt_duration(v))),
        None => {},
    }
    match t.game_time {
        Some(v) => children.push(leaf("GameTime", fmt_duration(v))),
        None => {},
    }
    Element { name: String::from_str(name), attributes, text: String::new(), children }
}

fn attr(name: &str, value: String) -> (r: (String, String))
    ensures
        r.0@ == name@,
        r.1@ == value@,
{
    (String::from_str(name), value)
}

fn attempt_element(a: &Attempt) -> (r: Element)
    ensures
        is_time_element(r, "Attempt"@, attempt_attrs(*a), a.time),
{
    let mut attributes: Vec<(String, String)> = Vec::new();
    attributes.push(attr("id", decimal_string(a.index)));
    match a.started {
        Some(d) => {
            attributes.push(attr("started", fmt_date(d.time)));
            attributes.push(attr("isStartedSynced", String::from_str(fmt_bool(d.synced_with_atomic_clock))));
        },
        None => {},
    }
    match a.ended {
        Some(d) => {
            attributes.push(attr("ended", fmt_date(d.time)));
            attributes.push(attr("isEndedSynced", String::from_str(fmt_bool(d.synced_with_atomic_clock))));
        },
        None => {},
    }
    assert(attributes@.map_values(|p: (String, String)| (p.0@, p.1@)) =~= attempt_attrs(*a));
    time_element("Attempt", attributes, a.time)
}

fn named(name: &str, attributes: Vec<(String, String)>, text: String, children: Vec<Element>) -> (r: Element)
    ensures
        r.name@ == name@,
        r.attributes == attributes,
        r.text == text,
        r.children == children,
{
    Element { name: String::from_str(name), attributes, text, children }
}

fn container(name: &str, children: Vec<Element>) -> (r: Element)
    ensures
        is_container(r, name@),
        r.children == children,
{
    let r = Element { name: String::from_str(name), attributes: Vec::new(), text: String::new(), children };
    assert(attrs(r) =~= seq![]);
    r
}

fn segment_element(s: &Segment, comparisons: &Vec<String>) -> (r: Element)
    ensures
        is_segment_element(r, *s, comparisons@),
{
    let mut pb_attrs: Vec<(String, String)> = Vec::new();
    pb_attrs.push(attr("name", String::from_str("Personal Best")));
    assert(pb_attrs@.map_values(|p: (String, String)| (p.0@, p.1@)) =~= seq![("name"@, "Personal Best"@)]);
    let mut splits: Vec<Element> = Vec::new();
    splits.push(time_element("SplitTime", pb_attrs, s.personal_best));
    let n = comparisons.len();
    let mut i: usize = 0;
    while i < n
        invariant
            n == comparisons@.len(),
            i <= n,
            splits@.len() == i + 1,
            is_time_element(splits@[0], "SplitTime"@, seq![("name"@, "Personal Best"@)], s.personal_best),
            forall|k: int| 0 <= k < i ==> is_time_element(
                #[trigger] splits@[k + 1],
                "SplitTime"@,
                seq![("name"@, comparisons@[k]@)],
                comparison_in(s.comparisons@, comparisons@[k]@),
            ),
        decreases n - i,
    {
        let name = &comparisons[i];
        let t = s.comparison(name.as_str());
        let mut a: Vec<(String, String)> = Vec::new();
        a.push(attr("name", String::from_str(name.as_str())));
        assert(a@.map_values(|p: (String, String)| (p.0@, p.1@)) =~= seq![("name"@, comparisons@[i as int]@)]);
        splits.push(time_element("SplitTime", a, t));
        i = i + 1;
    }
    let h = &s.segment_history;
    let m = h.len();
    let mut history: Vec<Element> = Vec::new();
    let mut j: usize = 0;
    while j < m
        invariant
            m == h@.len(),
            h@ == s.segment_history@,
            j <= m,
            history@.len() == j,
            forall|k: int| 0 <= k < j ==> is_time_element(
                #[trigger] history@[k],
                "Time"@,
                seq![("id"@, decimal(s.segment_history@[k].0 as nat))],
                s.segment_history@[k].1,
            ),
        decreases m - j,
    {
        let entry = h[j];
        let mut a: Vec<(String, String)> = Vec::new();
        a.push(attr("id", decimal_string(entry.0)));
        assert(a@.map_values(|p: (String, String)| (p.0@, p.1@)) =~= seq![("id"@, decimal(entry.0 as nat))]);
        history.push(time_element("Time", a, entry.1));
        j = j + 1;
    }
    let c0 = leaf("Name", String::from_str(s.name.as_str()));
    let c1 = leaf("Icon", fmt_hex(&s.icon));
    let c2 = container("SplitTimes", splits);
    let no_attrs: Vec<(String, String)> = Vec::new();
    assert(no_attrs@.map_values(|p: (String, String)| (p.0@, p.1@)) =~= seq![]);
    let c3 = time_element("BestSegmentTime", no_attrs, s.best_segment_time());
    let c4 = container("SegmentHistory", history);
    let ghost g = seq![c0, c1, c2, c3, c4];
    let children = vec![c0, c1, c2, c3, c4];
    assert(children@ =~= g);
    let r = container("Segment", children);
    r
}

fn metadata_element(m: &RunMetadata) -> (r: Element)
    ensures
        is_metadata_element(r, *m),
{
    let mut id: Vec<(String, String)> = Vec::new();
    id.push(attr("id", String::from_str(m.run_id.as_str())));
    let run_element = named("Run", id, String::new(), Vec::new());
    assert(attrs(run_element) =~= seq![("id"@, m.run_id@)]);
    let mut emu: Vec<(String, String)> = Vec::new();
    emu.push(attr("usesEmulator", String::from_str(fmt_bool(m.uses_emulator))));
    let platform = named("Platform", emu, String::from_str(m.platform_name.as_str()), Vec::new());
    assert(attrs(platform) =~= seq![("usesEmulator"@, bool_text(m.uses_emulator))]);
    let vs = &m.variables;
    let n = vs.len();
    let mut vars: Vec<Element> = Vec::new();
    let mut i: usize = 0;
    while i < n
        invariant
            n == vs@.len(),
            vs@ == m.variables@,
            i <= n,
            vars@.len() == i,
            forall|k: int| 0 <= k < i ==> is_leaf(
                #[trigger] vars@[k],
                "Variable"@,
                seq![("name"@, m.variables@[k].0@)],
                m.variables@[k].1@,
            ),
        decreases n - i,
    {
        let v = &vs[i];
        let mut a: Vec<(String, String)> = Vec::new();
        a.push(attr("name", String::from_str(v.0.as_str())));
        let e = named("Variable", a, String::from_str(v.1.as_str()), Vec::new());
        assert(attrs(e) =~= seq![("name"@, m.variables@[i as int].0@)]);
        vars.push(e);
        i = i + 1;
    }
    let region = leaf("Region", String::from_str(m.region_name.as_str()));
    let variables = container("Variables", vars);
    let ghost g = seq![run_element, platform, region, variables];
    let children = vec![run_element, platform, region, variables];
    assert(children@ =~= g);
    let r = container("Metadata", children);
    assert(attrs(r) =~= seq![]);
    r
}

/// The document element of `run` in the native splits format.
pub fn save(run: &Run) -> (r: Element)
    ensures
        is_run_element(r, *run),
{
    let attempts_in = &run.attempt_history;
    let n = attempts_in.len();
    let mut attempts: Vec<Element> = Vec::new();
    let mut i: usize = 0;
    while i < n
        invariant
            n == attempts_in@.len(),
            attempts_in@ == run.attempt_history@,
            i <= n,
            attempts@.len() == i,
            forall|k: int| 0 <= k < i ==> is_time_element(
                #[trigger] attempts@[k],
                "Attempt"@,
                attempt_attrs(run.attempt_history@[k]),
                run.attempt_history@[k].time,
            ),
        decreases n - i,
    {
        attempts.push(attempt_element(&attempts_in[i]));
        i = i + 1;
    }
    let segs_in = &run.segments;
    let m = segs_in.len();
    let mut segments: Vec<Element> = Vec::new();
    let mut j: usize = 0;
    while j < m
        invariant
            m == segs_in@.len(),
            segs_in@ == run.segments@,
            j <= m,
            segments@.len() == j,
            forall|k: int| 0 <= k < j ==> is_segment_element(
                #[trigger] segments@[k],
                run.segments@[k],
                run.custom_comparisons@,
            ),
        decreases m - j,
    {
        segments.push(segment_element(&segs_in[j], &run.custom_comparisons));
        j = j + 1;
    }
    let c0 = leaf("GameIcon", fmt_hex(&run.game_icon));
    let c1 = leaf("GameName", String::from_str(run.game_name.as_str()));
    let c2 = leaf("CategoryName", String::from_str(run.category_name.as_str()));
    let c3 = metadata_element(&run.metadata);
    let c4 = leaf("Offset", fmt_duration(run.offset));
    let c5 = leaf("AttemptCount", decimal_string(run.attempt_count));
    let c6 = container("AttemptHistory", attempts);
    let c7 = container("Segments", segments);
    let c8 = leaf("AutoSplitterSettings", String::new());
    let ghost g = seq![c0, c1, c2, c3, c4, c5, c6, c7, c8];
    let children = vec![c0, c1, c2, c3, c4, c5, c6, c7, c8];
    assert(children@ =~= g);
    let mut version: Vec<(String, String)> = Vec::new();
    version.push(attr("version", String::from_str("1.6.0")));
    let r = named("Run", version, String::new(), children);
    assert(attrs(r) =~= seq![("version"@, "1.6.0"@)]);
    r
}

/// Reads an attempt index written in decimal digits; `None` for any other
/// text and for numbers too large for an index.
pub fn parse_index(text: &str) -> (r: Option<u64>)
    ensures
        r == (match decimal_value(text@) {
            Some(v) => if v <= u64::MAX { Some(v as u64) } else { None },
            None => None,
        }),
{
    let n = text.unicode_len();
    if n == 0 {
        return None;
    }
    let mut value: u64 = 0;
    let mut i: usize = 0;
    while i < n
        invariant
            n == text@.len(),
            n > 0,
            i <= n,
            i == 0 ==> value == 0,
            i > 0 ==> decimal_value(text@.subrange(0, i as int)) == Some(value as nat),
        decreases n - i,
    {
        let c = text.get_char(i);
        let ghost pre = text@.subrange(0, i + 1);
        assert(pre.drop_last() =~= text@.subrange(0, i as int));
        assert(pre.last() == c);
        if !('0' <= c && c <= '9') {
            proof {
                assert(decimal_value(pre) is None);
                if decimal_value(text@) is Some {
                    lemma_decimal_value_grows(text@, i + 1);
                }
            }
            return None;
        }
        let d = (c as u32 - '0' as u32) as u64;
        if value > (u64::MAX - d) / 10 {
            proof {
                assert(value * 10 + d > u64::MAX) by (nonlinear_arith)
                    requires value > (u64::MAX - d) / 10, d < 10;
                if decimal_value(text@) is Some {
                    lemma_decimal_value_grows(text@, i + 1);
                }
            }
            return None;
        }
        assert(value * 10 + d <= u64::MAX) by (nonlinear_arith)
            requires value <= (u64::MAX - d) / 10, d < 10;
        value = value * 10 + d;
        i = i + 1;
    }
    assert(text@.subrange(0, n as int) =~= text@);
    Some(value)
}

fn hex_digit_str(d: u8) -> (r: &'static str)
    requires
        d < 16,
    ensures
        r@ == seq![hex_char(d as nat)],
{
    proof {
        reveal_strlit("0123456789ABCDEF");
        reveal_strlit("0");
        reveal_strlit("1");
        reveal_strlit("2");
        reveal_strlit("3");
        reveal_strlit("4");
        reveal_strlit("5");
        reveal_strlit("6");
        reveal_strlit("7");
        reveal_strlit("8");
        reveal_strlit("9");
        reveal_strlit("A");
        reveal_strlit("B");
        reveal_strlit("C");
        reveal_strlit("D");
        reveal_strlit("E");
        reveal_strlit("F");
    }
    if d == 0 {
        "0"
    } else if d == 1 {
        "1"
    } else if d == 2 {
        "2"
    } else if d == 3 {
        "3"
    } else if d == 4 {
        "4"
    } else if d == 5 {
        "5"
    } else if d == 6 {
        "6"
    } else if d == 7 {
        "7"
    } else if d == 8 {
        "8"
    } else if d == 9 {
        "9"
    } else if d == 10 {
        "A"
    } else if d == 11 {
        "B"
    } else if d == 12 {
        "C"
    } else if d == 13 {
        "D"
    } else if d == 14 {
        "E"
    } else {
        "F"
    }
}

/// Bytes as text: two upper-case hexadecimal digits per byte.
pub fn fmt_hex(bytes: &Vec<u8>) -> (r: String)
    ensures
        r@ == hex_text(bytes@),
{
    let mut out = String::new();
    let n = bytes.len();
    let mut i: usize = 0;
    while i < n
        invariant
            n == bytes@.len(),
            i <= n,
            out@ == hex_text(bytes@.subrange(0, i as int)),
        decreases n - i,
    {
        let b = bytes[i];
        assert(bytes@.subrange(0, i + 1).drop_last() =~= bytes@.subrange(0, i as int));
        out.append(hex_digit_str(b / 16));
        out.append(hex_digit_str(b % 16));
        assert(out@ =~= hex_text(bytes@.subrange(0, i + 1)));
        i = i + 1;
    }
    assert(bytes@.subrange(0, n as int) =~= bytes@);
    out
}

proof fn lemma_hex_bytes_odd_is_none(s: Seq<char>)
    requires
        s.len() % 2 == 1,
    ensures
        hex_bytes(s) is None,
    decreases s.len(),
{
    if s.len() >= 2 {
        lemma_hex_bytes_odd_is_none(s.subrange(0, s.len() - 2));
    }
}

/// Reads bytes written as hexadecimal digit pairs, of either case; `None`
/// for any other text.
pub fn parse_hex(text: &str) -> (r: Option<Vec<u8>>)
    ensures
        match hex_bytes(text@) {
            Some(b) => r is Some && r->0@ == b,
            None => r is None,
        },
{
    let n = text.unicode_len();
    if n % 2 == 1 {
        proof {
            lemma_hex_bytes_odd_is_none(text@);
        }
        return None;
    }
    let mut out: Vec<u8> = Vec::new();
    let mut i: usize = 0;
    assert(text@.subrange(0, 0) =~= Seq::<char>::empty());
    while i < n / 2
        invariant
            n == text@.len(),
            n % 2 == 0,
            i <= n / 2,
            hex_bytes(text@.subrange(0, 2 * i as int)) == Some(out@),
        decreases n / 2 - i,
    {
        let ghost pre = text@.subrange(0, 2 * i + 2);
        assert(pre.subrange(0, pre.len() - 2) =~= text@.subrange(0, 2 * i as int));
        assert(pre[pre.len() - 2] == text@[2 * i as int]);
        assert(pre[pre.len() - 1] == text@[2 * i + 1]);
        match (hex_digit_value(text.get_char(2 * i)), hex_digit_value(text.get_char(2 * i + 1))) {
            (Some(h), Some(l)) => {
                assert(h < 16 && l < 16);
                out.push(h * 16 + l);
            },
            _ => {
                proof {
                    assert(hex_bytes(pre) is None);
                    lemma_hex_prefix_none(text@, 2 * i + 2);
                }
                return None;
            },
        }
        i = i + 1;
    }
    assert(text@.subrange(0, n as int) =~= text@);
    Some(out)
}

proof fn lemma_hex_prefix_none(s: Seq<char>, k: int)
    requires
        2 <= k <= s.len(),
        k % 2 == 0,
        s.len() % 2 == 0,
        hex_bytes(s.subrange(0, k)) is None,
    ensures
        hex_bytes(s) is None,
    decreases s.len() - k,
{
    if k == s.len() {
        assert(s.subrange(0, k) =~= s);
    } else {
        let t = s.subrange(0, s.len() - 2);
        assert(t.subrange(0, k) =~= s.subrange(0, k));
        lemma_hex_prefix_none(t, k);
    }
}

} // verus!
