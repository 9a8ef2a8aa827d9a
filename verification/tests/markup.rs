use sd_ingest::markup::{read_events, MarkupEvent, RawAttribute};
use sd_ingest::text::same_text;

fn attribute(key: &str, value: &str) -> Option<RawAttribute> {
    Some(RawAttribute { key: key.to_string(), value: value.to_string() })
}

#[test]
fn read_events_gives_the_events_in_order() {
    let input = b"<sdl deviceId=\"D&amp;1\">\n  <sd ts=\"1\" phy='LoRa'>\n    48656c6c6f\n  </sd>\n</sdl>\n";
    let events = read_events(input);
    assert_eq!(
        events,
        vec![
            MarkupEvent::ElementOpen {
                name: "sdl".to_string(),
                attributes: vec![attribute("deviceId", "D&amp;1")],
            },
            MarkupEvent::ElementOpen {
                name: "sd".to_string(),
                attributes: vec![attribute("ts", "1"), attribute("phy", "LoRa")],
            },
            MarkupEvent::Text { content: "48656c6c6f".to_string() },
            MarkupEvent::ElementClose { name: "sd".to_string() },
            MarkupEvent::ElementClose { name: "sdl".to_string() },
            MarkupEvent::EndOfStream,
        ]
    );
}

#[test]
fn read_events_of_nothing_is_the_end_of_the_stream() {
    assert_eq!(read_events(b""), vec![MarkupEvent::EndOfStream]);
    assert_eq!(read_events(b"  \n\t "), vec![MarkupEvent::EndOfStream]);
}

#[test]
fn read_events_suppresses_blank_text_between_elements() {
    let events = read_events(b"<a>  <b>\n</b>\t</a>");
    assert_eq!(events.len(), 5);
    assert!(events.iter().all(|e| !matches!(e, MarkupEvent::Text { .. })));
}

#[test]
fn read_events_reports_markup_without_record_data_as_other() {
    let events = read_events(b"<?xml version=\"1.0\"?><!-- note --><a><sd ts=\"1\"/></a>");
    assert_eq!(
        events,
        vec![
            MarkupEvent::Other,
            MarkupEvent::Other,
            MarkupEvent::ElementOpen { name: "a".to_string(), attributes: vec![] },
            MarkupEvent::Other,
            MarkupEvent::ElementClose { name: "a".to_string() },
            MarkupEvent::EndOfStream,
        ]
    );
}

#[test]
fn read_events_stops_at_a_mismatched_closing_tag() {
    let events = read_events(b"<a><b></a></b>");
    assert_eq!(events.len(), 3);
    assert!(matches!(events[0], MarkupEvent::ElementOpen { .. }));
    assert!(matches!(events[1], MarkupEvent::ElementOpen { .. }));
    match &events[2] {
        MarkupEvent::Malformed { diagnostic } => {
            assert!(diagnostic.starts_with("XML parse error: "));
        }
        other => panic!("unexpected: {:?}", other),
    }
}

#[test]
fn read_events_stops_at_an_unclosed_tag() {
    let events = read_events(b"<a><b ");
    assert!(matches!(events.last(), Some(MarkupEvent::Malformed { .. })));
    assert_eq!(events.len(), 2);
}

#[test]
fn read_events_keeps_the_place_of_a_broken_attribute() {
    let events = read_events(b"<sd ts=\"1\" broken rssi=\"2\">");
    match &events[0] {
        MarkupEvent::ElementOpen { name, attributes } => {
            assert_eq!(name, "sd");
            assert_eq!(attributes[0], attribute("ts", "1"));
            assert!(attributes.iter().any(|a| a.is_none()));
        }
        other => panic!("unexpected: {:?}", other),
    }
}

#[test]
fn same_text_compares_by_characters() {
    assert!(same_text("", ""));
    assert!(same_text("deviceId", "deviceId"));
    assert!(!same_text("deviceId", "deviceid"));
    assert!(!same_text("sd", "sdl"));
    assert!(!same_text("sdl", "sd"));
    assert!(same_text("é", "é"));
    assert!(!same_text("é", "e"));
}
