use sd_ingest::assembler::{
    apply_attribute, apply_text, assemble, field_key, parse_sd_file, RecordAssembler,
};
use sd_ingest::error::{IngestError, NumericField, ParseCause};
use sd_ingest::markup::{MarkupEvent, RawAttribute};
use sd_ingest::record::{new_sd_record, SdRecord};

fn open(name: &str, attributes: &[(&str, &str)]) -> MarkupEvent {
    MarkupEvent::ElementOpen {
        name: name.to_string(),
        attributes: attributes
            .iter()
            .map(|(k, v)| Some(RawAttribute { key: k.to_string(), value: v.to_string() }))
            .collect(),
    }
}

fn close(name: &str) -> MarkupEvent {
    MarkupEvent::ElementClose { name: name.to_string() }
}

fn text(content: &str) -> MarkupEvent {
    MarkupEvent::Text { content: content.to_string() }
}

#[test]
fn new_sd_record_is_blank() {
    let r = new_sd_record();
    assert_eq!(
        r,
        SdRecord {
            device_id: String::new(),
            timestamp: 0,
            rssi: 0,
            snr: 0,
            phy: String::new(),
            frame_type: String::new(),
            payload: Vec::new(),
            quality_metric_1: None,
            quality_metric_2: None,
            quality_metric_3: None,
        }
    );
}

#[test]
fn apply_attribute_reads_each_key_into_its_field() {
    let r = apply_attribute(new_sd_record(), "ts", "1690000000".to_string()).unwrap();
    let r = apply_attribute(r, "rssi", "-42".to_string()).unwrap();
    let r = apply_attribute(r, "snr", "7".to_string()).unwrap();
    let r = apply_attribute(r, "phy", "LoRa".to_string()).unwrap();
    let r = apply_attribute(r, "type", "uplink".to_string()).unwrap();
    let r = apply_attribute(r, "colour", "blue".to_string()).unwrap();
    assert_eq!(r.timestamp, 1690000000);
    assert_eq!(r.rssi, -42);
    assert_eq!(r.snr, 7);
    assert_eq!(r.phy, "LoRa");
    assert_eq!(r.frame_type, "uplink");
    assert_eq!(r.device_id, "");
    assert_eq!(r.payload, Vec::<u8>::new());
}

#[test]
fn apply_attribute_reports_the_field_and_the_raw_value() {
    assert_eq!(
        apply_attribute(new_sd_record(), "ts", "abc".to_string()),
        Err(IngestError::FieldParseError {
            field: NumericField::Ts,
            raw_value: "abc".to_string(),
            cause: ParseCause::InvalidDigit,
        })
    );
    assert_eq!(
        apply_attribute(new_sd_record(), "rssi", "2147483648".to_string()),
        Err(IngestError::FieldParseError {
            field: NumericField::Rssi,
            raw_value: "2147483648".to_string(),
            cause: ParseCause::Overflow,
        })
    );
    assert_eq!(
        apply_attribute(new_sd_record(), "snr", "".to_string()),
        Err(IngestError::FieldParseError {
            field: NumericField::Snr,
            raw_value: "".to_string(),
            cause: ParseCause::Empty,
        })
    );
}

#[test]
fn apply_text_decodes_trimmed_hexadecimal() {
    let r = apply_text(new_sd_record(), "  48656c6c6f\n").unwrap();
    assert_eq!(r.payload, b"Hello".to_vec());
    let r = apply_text(r, "\u{a0}ab\u{2003}").unwrap();
    assert_eq!(r.payload, vec![0xab]);
}

#[test]
fn apply_text_leaves_the_payload_on_blank_text() {
    let r = apply_text(new_sd_record(), "ab").unwrap();
    let r = apply_text(r, " \n\t ").unwrap();
    assert_eq!(r.payload, vec![0xab]);
    let r = apply_text(r, "").unwrap();
    assert_eq!(r.payload, vec![0xab]);
}

#[test]
fn apply_text_rejects_text_that_is_not_hexadecimal() {
    assert_eq!(
        apply_text(new_sd_record(), " 48z6 "),
        Err(IngestError::InvalidEncoding { text: "48z6".to_string() })
    );
    assert_eq!(
        apply_text(new_sd_record(), "48656c6"),
        Err(IngestError::InvalidEncoding { text: "48656c6".to_string() })
    );
    assert!(matches!(
        apply_text(new_sd_record(), "ab cd"),
        Err(IngestError::InvalidEncoding { .. })
    ));
}

#[test]
fn step_by_step_assembly() {
    let a = RecordAssembler::new();
    let a = a.step(&open("sdl", &[("deviceId", "DEV")])).unwrap();
    let a = a.step(&open("sd", &[("ts", "5"), ("type", "up")])).unwrap();
    let a = a.step(&text("0102")).unwrap();
    let a = a.step(&MarkupEvent::Other).unwrap();
    let a = a.step(&close("sd")).unwrap();
    let a = a.step(&close("sdl")).unwrap();
    let records = a.finish();
    assert_eq!(records.len(), 1);
    assert_eq!(records[0].device_id, "DEV");
    assert_eq!(records[0].timestamp, 5);
    assert_eq!(records[0].frame_type, "up");
    assert_eq!(records[0].payload, vec![1, 2]);
}

#[test]
fn step_fails_on_broken_markup() {
    let a = RecordAssembler::new();
    let res = a.step(&MarkupEvent::Malformed { diagnostic: "bad".to_string() });
    match res {
        Err(e) => assert_eq!(e, IngestError::MalformedInput { diagnostic: "bad".to_string() }),
        Ok(_) => panic!("a failure was due"),
    }
}

#[test]
fn each_record_gets_the_identifier_of_its_own_outer_element() {
    let events = vec![
        open("sdl", &[("deviceId", "A")]),
        open("sd", &[("ts", "1")]),
        close("sd"),
        open("sd", &[("ts", "2")]),
        close("sd"),
        close("sdl"),
        open("sdl", &[("deviceId", "B")]),
        open("sd", &[("ts", "3")]),
        close("sd"),
        close("sdl"),
        MarkupEvent::EndOfStream,
    ];
    let records = assemble(&events).unwrap();
    let ids: Vec<&str> = records.iter().map(|r| r.device_id.as_str()).collect();
    assert_eq!(ids, vec!["A", "A", "B"]);
    let stamps: Vec<i64> = records.iter().map(|r| r.timestamp).collect();
    assert_eq!(stamps, vec![1, 2, 3]);
}

#[test]
fn the_identifier_stays_when_an_outer_element_has_none() {
    let events = vec![
        open("sd", &[]),
        close("sd"),
        open("sdl", &[("deviceId", "A")]),
        open("sdl", &[("name", "inner")]),
        open("sd", &[]),
        close("sd"),
        close("sdl"),
        open("sdl", &[("deviceId", "B"), ("deviceId", "C&lt;")]),
        open("sd", &[]),
        close("sd"),
    ];
    let records = assemble(&events).unwrap();
    let ids: Vec<&str> = records.iter().map(|r| r.device_id.as_str()).collect();
    assert_eq!(ids, vec!["", "A", "C<"]);
}

#[test]
fn one_record_for_each_closing_tag_of_a_record_element() {
    let mut events = Vec::new();
    events.push(open("sdl", &[("deviceId", "A")]));
    for i in 0..7 {
        events.push(open("sd", &[("ts", &i.to_string())]));
        events.push(close("sd"));
        events.push(close("other"));
    }
    events.push(close("sd"));
    events.push(MarkupEvent::EndOfStream);
    events.push(close("sd"));
    let records = assemble(&events).unwrap();
    assert_eq!(records.len(), 8);
}

#[test]
fn a_record_is_reset_after_its_closing_tag() {
    let events = vec![
        open("sd", &[("ts", "9"), ("rssi", "-1"), ("snr", "2"), ("phy", "P"), ("type", "T")]),
        text("ff"),
        close("sd"),
        open("sd", &[]),
        close("sd"),
    ];
    let records = assemble(&events).unwrap();
    assert_eq!(records.len(), 2);
    assert_eq!(records[0].payload, vec![0xff]);
    assert_eq!(records[1], new_sd_record());
}

#[test]
fn the_last_value_of_a_repeated_key_wins_and_unknown_keys_are_ignored() {
    let events = vec![
        open("sd", &[("ts", "1"), ("unknown", "x"), ("ts", "2"), ("phy", "A&amp;B")]),
        close("sd"),
    ];
    let records = assemble(&events).unwrap();
    assert_eq!(records[0].timestamp, 2);
    assert_eq!(records[0].phy, "A&B");
}

#[test]
fn a_broken_attribute_is_passed_over() {
    let events = vec![
        MarkupEvent::ElementOpen {
            name: "sd".to_string(),
            attributes: vec![
                None,
                Some(RawAttribute { key: "ts".to_string(), value: "4".to_string() }),
            ],
        },
        close("sd"),
    ];
    assert_eq!(assemble(&events).unwrap()[0].timestamp, 4);
}

#[test]
fn a_value_that_cannot_be_unescaped_is_malformed_input() {
    let events = vec![open("sd", &[("phy", "a&nosuchentity;b")]), close("sd")];
    assert!(matches!(assemble(&events), Err(IngestError::MalformedInput { .. })));
    let events = vec![open("sdl", &[("deviceId", "&#xZZ;")])];
    assert!(matches!(assemble(&events), Err(IngestError::MalformedInput { .. })));
    let events = vec![open("sdl", &[("other", "&#xZZ;")])];
    assert_eq!(assemble(&events).unwrap().len(), 0);
}

#[test]
fn an_element_without_text_has_an_empty_payload() {
    let records =
        parse_sd_file(b"<sdl deviceId=\"X\"><sd ts=\"1\" rssi=\"0\" snr=\"0\"></sd></sdl>").unwrap();
    assert_eq!(records.len(), 1);
    assert_eq!(records[0].payload, Vec::<u8>::new());
}

#[test]
fn a_timestamp_that_is_no_number_aborts_the_parse() {
    let input = b"<sdl deviceId=\"X\"><sd ts=\"1\"></sd><sd ts=\"abc\"></sd><sd ts=\"3\"></sd></sdl>";
    assert_eq!(
        parse_sd_file(input),
        Err(IngestError::FieldParseError {
            field: NumericField::Ts,
            raw_value: "abc".to_string(),
            cause: ParseCause::InvalidDigit,
        })
    );
}

#[test]
fn a_mismatched_closing_tag_aborts_the_parse() {
    let input = b"<sdl deviceId=\"X\"><sd ts=\"1\">ab</sd><sd ts=\"2\"></sdl>";
    match parse_sd_file(input) {
        Err(IngestError::MalformedInput { diagnostic }) => {
            assert!(diagnostic.starts_with("XML parse error: "));
        }
        other => panic!("unexpected: {:?}", other),
    }
}

#[test]
fn an_unclosed_tag_aborts_the_parse() {
    assert!(matches!(
        parse_sd_file(b"<sdl deviceId=\"X\"><sd ts=\"1\"></sd><sd "),
        Err(IngestError::MalformedInput { .. })
    ));
}

#[test]
fn a_payload_that_is_not_hexadecimal_aborts_the_parse() {
    assert_eq!(
        parse_sd_file(b"<sdl deviceId=\"X\"><sd ts=\"1\">ab</sd><sd>xyz</sd></sdl>"),
        Err(IngestError::InvalidEncoding { text: "xyz".to_string() })
    );
}

#[test]
fn parse_sd_bytes_reads_the_sample_document() {
    let input = b"<sdl deviceId=\"DEVICE-A\">\n  <sd ts=\"1690000000\" rssi=\"-42\" snr=\"7\" phy=\"LoRa\" type=\"uplink\">\n    48656c6c6f\n  </sd>\n</sdl>\n";
    let records = parse_sd_file(input).unwrap();
    assert_eq!(
        records,
        vec![SdRecord {
            device_id: "DEVICE-A".to_string(),
            timestamp: 1690000000,
            rssi: -42,
            snr: 7,
            phy: "LoRa".to_string(),
            frame_type: "uplink".to_string(),
            payload: b"Hello".to_vec(),
            quality_metric_1: None,
            quality_metric_2: None,
            quality_metric_3: None,
        }]
    );
}

#[test]
fn parse_sd_bytes_agrees_with_assembling_the_events() {
    let input = b"<sdl deviceId=\"A\"><sd ts=\"1\">0a</sd></sdl><sdl deviceId=\"B\"><sd ts=\"2\"/><sd ts=\"3\">0b</sd></sdl>";
    let events = sd_ingest::markup::read_events(input);
    assert_eq!(parse_sd_file(input), assemble(&events));
    let records = parse_sd_file(input).unwrap();
    assert_eq!(records.len(), 2);
    assert_eq!(records[1].device_id, "B");
    assert_eq!(records[1].timestamp, 3);
}

#[test]
fn the_last_of_two_attributes_under_one_key_wins() {
    let input = b"<sdl deviceId=\"A\" deviceId=\"B\"><sd ts=\"1\" phy=\"x\" ts=\"2\" phy=\"y\"></sd></sdl>";
    let records = parse_sd_file(input).unwrap();
    assert_eq!(records.len(), 1);
    assert_eq!(records[0].device_id, "B");
    assert_eq!(records[0].timestamp, 2);
    assert_eq!(records[0].phy, "y");
}

#[test]
fn entity_references_in_attribute_values_are_resolved() {
    let input = b"<sdl deviceId=\"a&lt;b&#x41;\"><sd phy=\"&quot;LoRa&quot; &amp; co\" type=\"&apos;\"></sd></sdl>";
    let records = parse_sd_file(input).unwrap();
    assert_eq!(records[0].device_id, "a<bA");
    assert_eq!(records[0].phy, "\"LoRa\" & co");
    assert_eq!(records[0].frame_type, "'");
}

#[test]
fn each_numeric_field_has_its_key() {
    assert_eq!(field_key(NumericField::Ts), "ts");
    assert_eq!(field_key(NumericField::Rssi), "rssi");
    assert_eq!(field_key(NumericField::Snr), "snr");
}
