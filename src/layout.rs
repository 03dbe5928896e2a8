use vstd::prelude::*;
use crate::settings::{COLOR_SLOTS, Color, GeneralSettings};
use crate::text::str_eq;
use quick_xml::events::Event;

verus! {

/// Why a document could not be decoded.
#[derive(Clone, Copy, Debug, PartialEq, Eq, Structural)]
pub enum Error {
    /// A required element is missing or out of place, or the XML is not
    /// well formed.
    MalformedStructure,
    /// A value does not have the form its field needs.
    InvalidAttributeValue,
    /// The document ends before its root element is closed.
    UnexpectedEndOfInput,
    /// The document is of a known kind but of a version that is not read.
    UnsupportedFormatVersion,
}

/// An event of an XML document, as the layout reader tells them apart.
#[derive(Clone, Debug)]
pub enum XmlEvent {
    /// An opening tag, with its name.
    Start(String),
    /// A closing tag, with its name.
    End(String),
    /// Text content, trimmed.
    Text(String),
    /// Anything else: declarations, comments, processing instructions.
    Other,
    /// The end of the document.
    Eof,
    /// The document is not well formed at this point.
    Fault,
}

/// A layout: the settings that its components share.
#[derive(Clone, Copy, Debug, PartialEq, Eq, Structural)]
pub struct Layout {
    pub general_settings: GeneralSettings,
}

/// The value of a hexadecimal digit of either case.
pub open spec fn hex_digit(c: char) -> Option<u8> {
    if '0' <= c && c <= '9' {
        Some((c as u32 - '0' as u32) as u8)
    } else if 'a' <= c && c <= 'f' {
        Some((c as u32 - 'a' as u32 + 10) as u8)
    } else if 'A' <= c && c <= 'F' {
        Some((c as u32 - 'A' as u32 + 10) as u8)
    } else {
        None
    }
}

/// The byte that two hexadecimal digits spell, high digit first.
pub open spec fn hex_byte(hi: char, lo: char) -> Option<u8> {
    match (hex_digit(hi), hex_digit(lo)) {
        (Some(h), Some(l)) => Some((h * 16 + l) as u8),
        _ => None,
    }
}

/// The color that a text starting with eight hexadecimal digits spells, in
/// the order alpha, red, green, blue; characters after the eighth are not
/// read.
pub open spec fn color_of(s: Seq<char>) -> Option<Color> {
    if s.len() < 8 {
        None
    } else {
        match (hex_byte(s[0], s[1]), hex_byte(s[2], s[3]), hex_byte(s[4], s[5]), hex_byte(s[6], s[7])) {
            (Some(a), Some(r), Some(g), Some(b)) => Some(Color { red: r, green: g, blue: b, alpha: a }),
            _ => None,
        }
    }
}

/// The boolean that a text spells: `True` or `False`.
pub open spec fn bool_of(s: Seq<char>) -> Option<bool> {
    if s == "True"@ {
        Some(true)
    } else if s == "False"@ {
        Some(false)
    } else {
        None
    }
}

/// The slot of the general settings that a color element fills.
pub open spec fn slot_of(name: Seq<char>) -> Option<usize> {
    if name == "TextColor"@ { Some(0usize) }
    else if name == "ThinSeparatorsColor"@ { Some(1usize) }
    else if name == "SeparatorsColor"@ { Some(2usize) }
    else if name == "PersonalBestColor"@ { Some(3usize) }
    else if name == "AheadGainingTimeColor"@ { Some(4usize) }
    else if name == "AheadLosingTimeColor"@ { Some(5usize) }
    else if name == "BehindGainingTimeColor"@ { Some(6usize) }
    else if name == "BehindLosingTimeColor"@ { Some(7usize) }
    else if name == "BestSegmentColor"@ { Some(8usize) }
    else if name == "NotRunningColor"@ { Some(9usize) }
    else if name == "PausedColor"@ { Some(10usize) }
    else { None }
}

pub(crate) fn hex_digit_value(c: char) -> (r: Option<u8>)
    ensures
        r == hex_digit(c),
{
    if '0' <= c && c <= '9' {
        Some((c as u32 - '0' as u32) as u8)
    } else if 'a' <= c && c <= 'f' {
        Some((c as u32 - 'a' as u32 + 10) as u8)
    } else if 'A' <= c && c <= 'F' {
        Some((c as u32 - 'A' as u32 + 10) as u8)
    } else {
        None
    }
}

fn hex_byte_at(text: &str, i: usize) -> (r: Option<u8>)
    requires
        i <= 6,
        8 <= text@.len(),
    ensures
        r == hex_byte(text@[i as int], text@[i + 1]),
{
    match (hex_digit_value(text.get_char(i)), hex_digit_value(text.get_char(i + 1))) {
        (Some(h), Some(l)) => {
            assert(h < 16 && l < 16);
            Some(h * 16 + l)
        },
        _ => None,
    }
}

/// Reads a boolean written as `True` or `False`.
pub fn parse_bool(text: &str) -> (r: Result<bool, Error>)
    ensures
        r == (match bool_of(text@) {
            Some(b) => Ok(b),
            None => Err(Error::InvalidAttributeValue),
        }),
{
    if str_eq(text, "True") {
        Ok(true)
    } else if str_eq(text, "False") {
        Ok(false)
    } else {
        Err(Error::InvalidAttributeValue)
    }
}

/// Reads a color written as eight hexadecimal digits, alpha, red, green and
/// blue, two digits each.
pub fn parse_color(text: &str) -> (r: Result<Color, Error>)
    ensures
        r == (match color_of(text@) {
            Some(c) => Ok(c),
            None => Err(Error::InvalidAttributeValue),
        }),
{
    if text.unicode_len() < 8 {
        return Err(Error::InvalidAttributeValue);
    }
    match (hex_byte_at(text, 0), hex_byte_at(text, 2), hex_byte_at(text, 4), hex_byte_at(text, 6)) {
        (Some(a), Some(r), Some(g), Some(b)) => Ok(Color { red: r, green: g, blue: b, alpha: a }),
        _ => Err(Error::InvalidAttributeValue),
    }
}

/// The settings slot that a color element of the given name fills.
pub fn color_slot(name: &str) -> (r: Option<usize>)
    ensures
        r == slot_of(name@),
{
    if str_eq(name, "TextColor") { Some(0) }
    else if str_eq(name, "ThinSeparatorsColor") { Some(1) }
    else if str_eq(name, "SeparatorsColor") { Some(2) }
    else if str_eq(name, "PersonalBestColor") { Some(3) }
    else if str_eq(name, "AheadGainingTimeColor") { Some(4) }
    else if str_eq(name, "AheadLosingTimeColor") { Some(5) }
    else if str_eq(name, "BehindGainingTimeColor") { Some(6) }
    else if str_eq(name, "BehindLosingTimeColor") { Some(7) }
    else if str_eq(name, "BestSegmentColor") { Some(8) }
    else if str_eq(name, "NotRunningColor") { Some(9) }
    else if str_eq(name, "PausedColor") { Some(10) }
    else { None }
}

/// Where the layout reader stands in a document: whether the root element
/// was opened, how deep it is, whether it is inside the general settings,
/// which color element it is inside, and the settings read so far.
#[derive(Clone, Copy, Debug, PartialEq, Eq, Structural)]
pub struct ParseState {
    pub opened: bool,
    pub depth: usize,
    pub in_settings: bool,
    pub slot: Option<usize>,
    pub settings: GeneralSettings,
}

/// What one event does to the reader: it goes on from a new state, or the
/// document's result is known.
pub enum Step {
    Continue(ParseState),
    Done(Result<GeneralSettings, Error>),
}

/// The effect of one event. Elements the reader has no use for are skipped
/// whole, and so is everything outside them.
pub open spec fn step(st: ParseState, ev: XmlEvent) -> Step {
    match ev {
        XmlEvent::Fault => Step::Done(Err(Error::MalformedStructure)),
        XmlEvent::Eof => Step::Done(Err(Error::UnexpectedEndOfInput)),
        XmlEvent::Other => Step::Continue(st),
        XmlEvent::Start(name) => if !st.opened {
            if name@ == "Layout"@ {
                Step::Continue(ParseState { opened: true, depth: 1, ..st })
            } else {
                Step::Done(Err(Error::MalformedStructure))
            }
        } else {
            Step::Continue(ParseState {
                depth: (st.depth + 1) as usize,
                in_settings: if st.depth == 1 && name@ == "Settings"@ { true } else { st.in_settings },
                slot: if st.depth == 2 && st.in_settings { slot_of(name@) } else { st.slot },
                ..st
            })
        },
        XmlEvent::End(_) => if !st.opened {
            Step::Done(Err(Error::MalformedStructure))
        } else if st.depth <= 1 {
            Step::Done(Ok(st.settings))
        } else {
            Step::Continue(ParseState {
                depth: (st.depth - 1) as usize,
                in_settings: if st.depth == 2 { false } else { st.in_settings },
                slot: if st.depth == 3 { None } else { st.slot },
                ..st
            })
        },
        XmlEvent::Text(t) => if st.opened && st.depth == 3 && st.slot is Some {
            match color_of(t@) {
                Some(c) => Step::Continue(ParseState { settings: st.settings.with_slot(st.slot->0 as int, c), ..st }),
                None => Step::Done(Err(Error::InvalidAttributeValue)),
            }
        } else {
            Step::Continue(st)
        },
    }
}

/// The result of reading `evs` from state `st`; events that stop before the
/// root element closes leave the document unfinished.
pub open spec fn run_events(st: ParseState, evs: Seq<XmlEvent>) -> Result<GeneralSettings, Error>
    decreases evs.len(),
{
    if evs.len() == 0 {
        Err(Error::UnexpectedEndOfInput)
    } else {
        match step(st, evs[0]) {
            Step::Continue(next) => run_events(next, evs.drop_first()),
            Step::Done(r) => r,
        }
    }
}

/// The state before the first event.
pub open spec fn initial_state() -> ParseState {
    ParseState { opened: false, depth: 0, in_settings: false, slot: None, settings: GeneralSettings::new_spec() }
}

/// The layout settings that a document with the events `evs` holds.
pub open spec fn settings_of_events(evs: Seq<XmlEvent>) -> Result<GeneralSettings, Error> {
    run_events(initial_state(), evs)
}

/// The layout that a document with the events `evs` holds.
pub open spec fn layout_of_events(evs: Seq<XmlEvent>) -> Result<Layout, Error> {
    match settings_of_events(evs) {
        Ok(s) => Ok(Layout { general_settings: s }),
        Err(e) => Err(e),
    }
}

fn apply_event(st: ParseState, ev: &XmlEvent) -> (r: Step)
    requires
        st.depth < usize::MAX,
        st.slot matches Some(k) ==> k < COLOR_SLOTS,
    ensures
        r == step(st, *ev),
        r matches Step::Continue(next) ==> next.depth <= st.depth + 1 && (next.slot matches Some(k) ==> k < COLOR_SLOTS),
{
    match ev {
        XmlEvent::Fault => Step::Done(Err(Error::MalformedStructure)),
        XmlEvent::Eof => Step::Done(Err(Error::UnexpectedEndOfInput)),
        XmlEvent::Other => Step::Continue(st),
        XmlEvent::Start(name) => {
            if !st.opened {
                if str_eq(name.as_str(), "Layout") {
                    Step::Continue(ParseState { opened: true, depth: 1, ..st })
                } else {
                    Step::Done(Err(Error::MalformedStructure))
                }
            } else {
                let in_settings = if st.depth == 1 && str_eq(name.as_str(), "Settings") { true } else { st.in_settings };
                let slot = if st.depth == 2 && st.in_settings { color_slot(name.as_str()) } else { st.slot };
                Step::Continue(ParseState { depth: st.depth + 1, in_settings, slot, ..st })
            }
        },
        XmlEvent::End(_) => {
            if !st.opened {
                Step::Done(Err(Error::MalformedStructure))
            } else if st.depth <= 1 {
                Step::Done(Ok(st.settings))
            } else {
                Step::Continue(ParseState {
                    depth: st.depth - 1,
                    in_settings: if st.depth == 2 { false } else { st.in_settings },
                    slot: if st.depth == 3 { None } else { st.slot },
                    ..st
                })
            }
        },
        XmlEvent::Text(t) => {
            match st.slot {
                Some(k) => {
                    if st.opened && st.depth == 3 {
                        match parse_color(t.as_str()) {
                            Ok(c) => {
                                let mut settings = st.settings;
                                settings.set_slot(k, c);
                                Step::Continue(ParseState { settings, ..st })
                            },
                            Err(e) => Step::Done(Err(e)),
                        }
                    } else {
                        Step::Continue(st)
                    }
                },
                None => Step::Continue(st),
            }
        },
    }
}

/// Reads the general settings of a layout from the events of its document.
/// The root element must be `Layout`; the colors are read from the elements
/// of its `Settings` child; everything else is skipped.
pub fn parse_events(events: &Vec<XmlEvent>) -> (r: Result<Layout, Error>)
    ensures
        r == layout_of_events(events@),
{
    let mut st = ParseState { opened: false, depth: 0, in_settings: false, slot: None, settings: GeneralSettings::new() };
    assert(st == initial_state());
    assert(events@.subrange(0, events@.len() as int) =~= events@);
    let n = events.len();
    let mut i: usize = 0;
    while i < n
        invariant
            n == events@.len(),
            i <= n,
            st.depth <= i,
            st.slot matches Some(k) ==> k < COLOR_SLOTS,
            settings_of_events(events@) == run_events(st, events@.subrange(i as int, n as int)),
        decreases n - i,
    {
        let ghost rest = events@.subrange(i as int, n as int);
        assert(rest.drop_first() =~= events@.subrange(i + 1, n as int));
        assert(rest[0] == events@[i as int]);
        match apply_event(st, &events[i]) {
            Step::Continue(next) => {
                st = next;
            },
            Step::Done(r) => {
                return match r {
                    Ok(s) => Ok(Layout { general_settings: s }),
                    Err(e) => Err(e),
                };
            },
        }
        i = i + 1;
    }
    Err(Error::UnexpectedEndOfInput)
}

/// Reading events in which no element ever closes never succeeds, from any
/// state: the root element stays open.
pub proof fn lemma_unclosed_is_error(st: ParseState, evs: Seq<XmlEvent>)
    requires
        forall|i: int| 0 <= i < evs.len() ==> !(#[trigger] evs[i] is End),
    ensures
        run_events(st, evs) is Err,
    decreases evs.len(),
{
    if evs.len() > 0 {
        assert(!(evs[0] is End));
        match step(st, evs[0]) {
            Step::Continue(next) => {
                let rest = evs.drop_first();
                assert forall|i: int| 0 <= i < rest.len() implies !(#[trigger] rest[i] is End) by {
                    assert(rest[i] == evs[i + 1]);
                }
                lemma_unclosed_is_error(next, rest);
            },
            Step::Done(r) => {},
        }
    }
}

/// A document cut off before any element closes decodes to an error.
pub proof fn lemma_truncated_document_is_error(evs: Seq<XmlEvent>)
    requires
        forall|i: int| 0 <= i < evs.len() ==> !(#[trigger] evs[i] is End),
    ensures
        layout_of_events(evs) is Err,
{
    lemma_unclosed_is_error(initial_state(), evs);
}

/// A color element of the general settings whose text is not eight
/// hexadecimal digits makes the document fail with an invalid value, whatever
/// follows.
pub proof fn lemma_bad_color_is_error(root: String, settings: String, color: String, text: String, rest: Seq<XmlEvent>)
    requires
        root@ == "Layout"@,
        settings@ == "Settings"@,
        slot_of(color@) is Some,
        color_of(text@) is None,
    ensures
        layout_of_events(
            seq![XmlEvent::Start(root), XmlEvent::Start(settings), XmlEvent::Start(color), XmlEvent::Text(text)] + rest,
        ) == Err::<Layout, Error>(Error::InvalidAttributeValue),
{
    let evs = seq![XmlEvent::Start(root), XmlEvent::Start(settings), XmlEvent::Start(color), XmlEvent::Text(text)] + rest;
    let s0 = initial_state();
    let s1 = ParseState { opened: true, depth: 1, ..s0 };
    let s2 = ParseState { depth: 2, in_settings: true, ..s1 };
    let s3 = ParseState { depth: 3, slot: slot_of(color@), ..s2 };
    assert(evs[0] == XmlEvent::Start(root));
    assert(step(s0, evs[0]) == Step::Continue(s1));
    assert(evs.drop_first()[0] == XmlEvent::Start(settings));
    assert(step(s1, evs.drop_first()[0]) == Step::Continue(s2));
    assert(evs.drop_first().drop_first()[0] == XmlEvent::Start(color));
    assert(step(s2, evs.drop_first().drop_first()[0]) == Step::Continue(s3));
    let e1 = evs.drop_first();
    let e2 = e1.drop_first();
    let e3 = e2.drop_first();
    assert(e3[0] == XmlEvent::Text(text));
    assert(step(s3, e3[0]) == Step::Done(Err::<GeneralSettings, Error>(Error::InvalidAttributeValue)));
    assert(run_events(s3, e3) == Err::<GeneralSettings, Error>(Error::InvalidAttributeValue));
    assert(run_events(s2, e2) == run_events(s3, e3));
    assert(run_events(s1, e1) == run_events(s2, e2));
    assert(run_events(s0, evs) == run_events(s1, e1));
}

/// The events quick_xml reads from a document, with empty elements as a
/// start and an end event and text trimmed, up to and including the first
/// end of the document or error.
pub uninterp spec fn xml_events(source: Seq<u8>) -> Seq<XmlEvent>;

/// Relies on quick_xml's `Reader::from_reader`, its `Config` and
/// `Reader::read_event`: the events of a document in order, up to the end
/// of the document or the first error. They depend on the bytes alone.
#[verifier::external_body]
fn read_events(source: &[u8]) -> (r: Vec<XmlEvent>)
    ensures
        r@ == xml_events(source@),
{
    let mut reader = quick_xml::Reader::from_reader(source);
    reader.config_mut().expand_empty_elements = true;
    reader.config_mut().trim_text(true);
    let mut events = Vec::new();
    loop {
        let event = match reader.read_event() {
            Ok(Event::Start(e)) => XmlEvent::Start(e.name().0.to_owned()),
            Ok(Event::End(e)) => XmlEvent::End(e.name().0.to_owned()),
            Ok(Event::Text(e)) => XmlEvent::Text(e.into_inner().into_owned()),
            Ok(Event::Eof) => { events.push(XmlEvent::Eof); return events; }
            Ok(_) => XmlEvent::Other,
            Err(_) => { events.push(XmlEvent::Fault); return events; }
        };
        events.push(event);
    }
}

/// Reads a layout from the bytes of its XML document.
pub fn parse(source: &[u8]) -> (r: Result<Layout, Error>)
    ensures
        r == layout_of_events(xml_events(source@)),
{
    let events = read_events(source);
    parse_events(&events)
}

/// Decoding the same bytes twice gives equal layouts.
pub proof fn lemma_layout_decoding_deterministic(a: Seq<u8>, b: Seq<u8>)
    requires
        a == b,
    ensures
        layout_of_events(xml_events(a)) == layout_of_events(xml_events(b)),
{
}

/// A document whose first element is not `Layout`, such as a saved run,
/// is rejected as malformed, whatever follows: the layout reader does not
/// accept another format's document.
pub proof fn lemma_other_root_is_rejected(st: ParseState, evs: Seq<XmlEvent>, k: int, name: String)
    requires
        !st.opened,
        0 <= k < evs.len(),
        forall|i: int| 0 <= i < k ==> #[trigger] evs[i] is Other,
        evs[k] == XmlEvent::Start(name),
        name@ != "Layout"@,
    ensures
        run_events(st, evs) == Err::<GeneralSettings, Error>(Error::MalformedStructure),
    decreases k,
{
    if k > 0 {
        assert(evs[0] is Other);
        let rest = evs.drop_first();
        assert forall|i: int| 0 <= i < k - 1 implies #[trigger] rest[i] is Other by {
            assert(rest[i] == evs[i + 1]);
        }
        assert(rest[k - 1] == evs[k]);
        lemma_other_root_is_rejected(st, rest, k - 1, name);
    }
}

} // verus!
