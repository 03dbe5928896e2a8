use livesplit_core::layout::{color_slot, parse, parse_bool, parse_color, parse_events, Error, XmlEvent};
use livesplit_core::settings::{Alternating, Color, GeneralSettings};

#[test]
fn booleans_are_true_or_false() {
    assert_eq!(parse_bool("True"), Ok(true));
    assert_eq!(parse_bool("False"), Ok(false));
    assert_eq!(parse_bool("true"), Err(Error::InvalidAttributeValue));
    assert_eq!(parse_bool(""), Err(Error::InvalidAttributeValue));
}

#[test]
fn colors_are_alpha_red_green_blue() {
    assert_eq!(parse_color("FF102030"), Ok(Color { red: 0x10, green: 0x20, blue: 0x30, alpha: 0xFF }));
    assert_eq!(parse_color("80aBcDeF"), Ok(Color { red: 0xAB, green: 0xCD, blue: 0xEF, alpha: 0x80 }));
    assert_eq!(parse_color("FF10203"), Err(Error::InvalidAttributeValue));
    assert_eq!(parse_color("FF1020G0"), Err(Error::InvalidAttributeValue));
}

#[test]
fn color_slots_by_name() {
    assert_eq!(color_slot("TextColor"), Some(0));
    assert_eq!(color_slot("PausedColor"), Some(10));
    assert_eq!(color_slot("Background"), None);
}

#[test]
fn layout_colors_are_read_and_unknown_elements_skipped() {
    let doc = b"<?xml version=\"1.0\"?>\n<Layout version=\"1.5\"><Mode>Vertical</Mode>\
<Settings><TextColor>FF010203</TextColor><Unknown><TextColor>FF999999</TextColor></Unknown>\
<PausedColor>80FFFFFF</PausedColor><Empty/></Settings><Components/></Layout>";
    let layout = parse(doc).unwrap();
    let s = layout.general_settings;
    assert_eq!(s.text_color, Color { red: 1, green: 2, blue: 3, alpha: 255 });
    assert_eq!(s.paused_color, Color { red: 255, green: 255, blue: 255, alpha: 128 });
    assert_eq!(s.separators_color, GeneralSettings::new().separators_color);
}

#[test]
fn layout_decoding_is_deterministic() {
    let doc = b"<Layout><Settings><BestSegmentColor>FFD8AF1F</BestSegmentColor></Settings></Layout>";
    assert_eq!(parse(doc), parse(doc));
    assert_eq!(parse(doc).unwrap().general_settings.best_segment_color, Color { red: 0xD8, green: 0xAF, blue: 0x1F, alpha: 0xFF });
}

#[test]
fn truncated_layout_is_an_error() {
    assert_eq!(parse(b"<Layout><Settings><TextColor>FF010203</TextColor>"), Err(Error::UnexpectedEndOfInput));
    assert!(parse(b"<Layout><Settings><TextColor>FF010203</TextColor><Pau").is_err());
    assert_eq!(parse(b""), Err(Error::UnexpectedEndOfInput));
}

#[test]
fn bad_color_is_an_error() {
    let doc = b"<Layout><Settings><TextColor>not a color</TextColor></Settings></Layout>";
    assert_eq!(parse(doc), Err(Error::InvalidAttributeValue));
}

#[test]
fn wrong_root_is_malformed() {
    assert_eq!(parse(b"<Run><Settings/></Run>"), Err(Error::MalformedStructure));
    assert_eq!(parse(b"<Layout></Wrong>"), Err(Error::MalformedStructure));
}

#[test]
fn events_without_a_close_fail() {
    let evs = vec![XmlEvent::Start("Layout".to_string()), XmlEvent::Text("x".to_string())];
    assert_eq!(parse_events(&evs), Err(Error::UnexpectedEndOfInput));
    let evs = vec![XmlEvent::Start("Layout".to_string()), XmlEvent::End("Layout".to_string())];
    assert_eq!(parse_events(&evs).unwrap().general_settings, GeneralSettings::new());
}

#[test]
fn alternating_variants_differ() {
    assert_ne!(Alternating::Single, Alternating::Alternating);
}

#[test]
fn indented_layout_text_is_trimmed() {
    let doc = b"<Layout>\n  <Settings>\n    <AheadLosingTimeColor>  FF00CC36  </AheadLosingTimeColor>\n  </Settings>\n</Layout>\n";
    let s = parse(doc).unwrap().general_settings;
    assert_eq!(s.ahead_losing_time_color, Color { red: 0, green: 0xCC, blue: 0x36, alpha: 0xFF });
}

#[test]
fn saved_run_document_is_not_a_layout() {
    let doc = b"<?xml version=\"1.0\"?><Run version=\"1.6.0\"><GameIcon></GameIcon><GameName>Wind Waker</GameName></Run>";
    assert_eq!(parse(doc), Err(Error::MalformedStructure));
}
