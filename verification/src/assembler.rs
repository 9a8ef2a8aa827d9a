//! From structural events to records.

use vstd::prelude::*;
use vstd::utf8::encode_utf8;
use crate::decimal::parse_i32;
use crate::decimal::parse_i64;
use crate::decimal::parse_spec;
use crate::error::IngestError;
use crate::error::IngestErrorView;
use crate::error::NumericField;
use crate::hex_codec::decode;
use crate::hex_codec::decode_spec;
use crate::markup::attributes_view;
use crate::markup::events_view;
use crate::markup::markup_events;
use crate::markup::next_event;
use crate::markup::open_reader;
use crate::markup::pending_events;
use crate::markup::unescape_value;
use crate::markup::unescaped;
use crate::markup::MarkupEvent;
use crate::markup::MarkupEventView;
use crate::markup::RawAttribute;
use crate::markup::RawAttributeView;
use crate::record::blank_record;
use crate::record::new_sd_record;
use crate::record::records_view;
use crate::record::SdRecord;
use crate::record::SdRecordView;
use crate::text::same_text;
use crate::text::trim;
use crate::text::trimmed;

verus! {

/// The tag of the element that carries a device identifier.
pub const OUTER_TAG: &'static str = "sdl";

/// The tag of the element that stands for one record.
pub const RECORD_TAG: &'static str = "sd";

/// The key of the device identifier.
pub const DEVICE_ID_KEY: &'static str = "deviceId";

/// The key of the timestamp.
pub const TS_KEY: &'static str = "ts";

/// The key of the received signal strength.
pub const RSSI_KEY: &'static str = "rssi";

/// The key of the signal-to-noise ratio.
pub const SNR_KEY: &'static str = "snr";

/// The key of the physical layer.
pub const PHY_KEY: &'static str = "phy";

/// The key of the frame type.
pub const TYPE_KEY: &'static str = "type";

/// The key of the attribute that holds a numeric field.
pub open spec fn field_key_spec(field: NumericField) -> Seq<char> {
    match field {
        NumericField::Ts => TS_KEY@,
        NumericField::Rssi => RSSI_KEY@,
        NumericField::Snr => SNR_KEY@,
    }
}

/// The key of the attribute that holds a numeric field.
pub fn field_key(field: NumericField) -> (key: &'static str)
    ensures
        key@ == field_key_spec(field),
{
    match field {
        NumericField::Ts => TS_KEY,
        NumericField::Rssi => RSSI_KEY,
        NumericField::Snr => SNR_KEY,
    }
}

/// A record, or the failure in its place, by value.
pub open spec fn record_outcome(res: Result<SdRecord, IngestError>) -> Result<
    SdRecordView,
    IngestErrorView,
> {
    match res {
        Ok(record) => Ok(record@),
        Err(e) => Err(e@),
    }
}

/// A text, or the failure in its place, by value.
pub open spec fn text_outcome(res: Result<String, IngestError>) -> Result<
    Seq<char>,
    IngestErrorView,
> {
    match res {
        Ok(text) => Ok(text@),
        Err(e) => Err(e@),
    }
}

/// Records, or the failure in their place, by value.
pub open spec fn records_outcome(res: Result<Vec<SdRecord>, IngestError>) -> Result<
    Seq<SdRecordView>,
    IngestErrorView,
> {
    match res {
        Ok(records) => Ok(records_view(records@)),
        Err(e) => Err(e@),
    }
}

/// The failure of a numeric attribute.
pub open spec fn field_failure(
    field: NumericField,
    value: Seq<char>,
    parsed: Result<int, crate::error::ParseCause>,
) -> IngestErrorView {
    IngestErrorView::FieldParseError { field, raw_value: value, cause: parsed->Err_0 }
}

/// The record after one attribute, given with its value already unescaped,
/// has been read into it. The numeric keys take decimal text of their width;
/// the two textual keys take the value as it is; any other key changes
/// nothing.
pub open spec fn with_attribute(record: SdRecordView, key: Seq<char>, value: Seq<char>) -> Result<
    SdRecordView,
    IngestErrorView,
> {
    if key == TS_KEY@ {
        let parsed = parse_spec(encode_utf8(value), i64::MIN as int, i64::MAX as int);
        if parsed is Ok {
            Ok(SdRecordView { timestamp: parsed->Ok_0 as i64, ..record })
        } else {
            Err(field_failure(NumericField::Ts, value, parsed))
        }
    } else if key == RSSI_KEY@ {
        let parsed = parse_spec(encode_utf8(value), i32::MIN as int, i32::MAX as int);
        if parsed is Ok {
            Ok(SdRecordView { rssi: parsed->Ok_0 as i32, ..record })
        } else {
            Err(field_failure(NumericField::Rssi, value, parsed))
        }
    } else if key == SNR_KEY@ {
        let parsed = parse_spec(encode_utf8(value), i32::MIN as int, i32::MAX as int);
        if parsed is Ok {
            Ok(SdRecordView { snr: parsed->Ok_0 as i32, ..record })
        } else {
            Err(field_failure(NumericField::Snr, value, parsed))
        }
    } else if key == PHY_KEY@ {
        Ok(SdRecordView { phy: value, ..record })
    } else if key == TYPE_KEY@ {
        Ok(SdRecordView { frame_type: value, ..record })
    } else {
        Ok(record)
    }
}

/// Reads one attribute of a record element, its value already unescaped,
/// into the record.
pub fn apply_attribute(record: SdRecord, key: &str, value: String) -> (res: Result<
    SdRecord,
    IngestError,
>)
    ensures
        record_outcome(res) == with_attribute(record@, key@, value@),
{
    let mut record = record;
    if same_text(key, TS_KEY) {
        match parse_i64(value.as_str()) {
            Ok(timestamp) => {
                record.timestamp = timestamp;
                Ok(record)
            },
            Err(cause) => Err(
                IngestError::FieldParseError { field: NumericField::Ts, raw_value: value, cause },
            ),
        }
    } else if same_text(key, RSSI_KEY) {
        match parse_i32(value.as_str()) {
            Ok(rssi) => {
                record.rssi = rssi;
                Ok(record)
            },
            Err(cause) => Err(
                IngestError::FieldParseError { field: NumericField::Rssi, raw_value: value, cause },
            ),
        }
    } else if same_text(key, SNR_KEY) {
        match parse_i32(value.as_str()) {
            Ok(snr) => {
                record.snr = snr;
                Ok(record)
            },
            Err(cause) => Err(
                IngestError::FieldParseError { field: NumericField::Snr, raw_value: value, cause },
            ),
        }
    } else if same_text(key, PHY_KEY) {
        record.phy = value;
        Ok(record)
    } else if same_text(key, TYPE_KEY) {
        record.frame_type = value;
        Ok(record)
    } else {
        Ok(record)
    }
}

/// The identifier in force after the attributes of an outer element have
/// been read: each attribute under the identifier key replaces it with its
/// unescaped value, so the last one wins, and without one it stays as it was.
/// A value that cannot be unescaped is a failure.
pub open spec fn outer_id_spec(id: Seq<char>, attributes: Seq<Option<RawAttributeView>>) -> Result<
    Seq<char>,
    IngestErrorView,
>
    decreases attributes.len(),
{
    if attributes.len() == 0 {
        Ok(id)
    } else {
        match attributes.first() {
            Some(a) => if a.key == DEVICE_ID_KEY@ {
                match unescaped(a.value) {
                    Ok(value) => outer_id_spec(value, attributes.drop_first()),
                    Err(diagnostic) => Err(IngestErrorView::MalformedInput { diagnostic }),
                }
            } else {
                outer_id_spec(id, attributes.drop_first())
            },
            None => outer_id_spec(id, attributes.drop_first()),
        }
    }
}

/// The record after the attributes of a record element have been read into
/// it, one after the other: each is unescaped and then read under its key.
/// The first value that cannot be unescaped or read is a failure.
pub open spec fn record_attributes_spec(
    record: SdRecordView,
    attributes: Seq<Option<RawAttributeView>>,
) -> Result<SdRecordView, IngestErrorView>
    decreases attributes.len(),
{
    if attributes.len() == 0 {
        Ok(record)
    } else {
        match attributes.first() {
            Some(a) => match unescaped(a.value) {
                Ok(value) => match with_attribute(record, a.key, value) {
                    Ok(next) => record_attributes_spec(next, attributes.drop_first()),
                    Err(e) => Err(e),
                },
                Err(diagnostic) => Err(IngestErrorView::MalformedInput { diagnostic }),
            },
            None => record_attributes_spec(record, attributes.drop_first()),
        }
    }
}

/// The record after character data has been read into it: data that is
/// blank changes nothing, other data must be hexadecimal and becomes the
/// payload.
pub open spec fn with_text(record: SdRecordView, content: Seq<char>) -> Result<
    SdRecordView,
    IngestErrorView,
> {
    let text = trimmed(content);
    if text.len() == 0 {
        Ok(record)
    } else {
        match decode_spec(encode_utf8(text)) {
            Some(payload) => Ok(SdRecordView { payload, ..record }),
            None => Err(IngestErrorView::InvalidEncoding { text }),
        }
    }
}

/// What an assembler holds in the middle of a pass.
pub struct AssemblerView {
    /// The identifier of the outer element opened last.
    pub active_outer_id: Seq<char>,
    /// The record in progress.
    pub current: SdRecordView,
    /// The records completed so far, in the order of their closing tags.
    pub output: Seq<SdRecordView>,
}

/// What an assembler holds before the first event.
pub open spec fn initial_state() -> AssemblerView {
    AssemblerView { active_outer_id: Seq::empty(), current: blank_record(), output: Seq::empty() }
}

/// The state after one event.
pub open spec fn step_spec(state: AssemblerView, event: MarkupEventView) -> Result<
    AssemblerView,
    IngestErrorView,
> {
    match event {
        MarkupEventView::ElementOpen { name, attributes } => if name == OUTER_TAG@ {
            match outer_id_spec(state.active_outer_id, attributes) {
                Ok(id) => Ok(AssemblerView { active_outer_id: id, ..state }),
                Err(e) => Err(e),
            }
        } else if name == RECORD_TAG@ {
            match record_attributes_spec(state.current, attributes) {
                Ok(record) => Ok(AssemblerView { current: record, ..state }),
                Err(e) => Err(e),
            }
        } else {
            Ok(state)
        },
        MarkupEventView::Text { content } => match with_text(state.current, content) {
            Ok(record) => Ok(AssemblerView { current: record, ..state }),
            Err(e) => Err(e),
        },
        MarkupEventView::ElementClose { name } => if name == RECORD_TAG@ {
            Ok(
                AssemblerView {
                    active_outer_id: state.active_outer_id,
                    current: blank_record(),
                    output: state.output.push(
                        SdRecordView { device_id: state.active_outer_id, ..state.current },
                    ),
                },
            )
        } else {
            Ok(state)
        },
        MarkupEventView::EndOfStream => Ok(state),
        MarkupEventView::Other => Ok(state),
        MarkupEventView::Malformed { diagnostic } => Err(
            IngestErrorView::MalformedInput { diagnostic },
        ),
    }
}

/// The outcome of a pass that starts in `state`: the events are taken in
/// order up to the end of the stream, and the first failure is the outcome of
/// the whole pass.
pub open spec fn run_spec(state: AssemblerView, events: Seq<MarkupEventView>) -> Result<
    Seq<SdRecordView>,
    IngestErrorView,
>
    decreases events.len(),
{
    if events.len() == 0 || events.first() is EndOfStream {
        Ok(state.output)
    } else {
        match step_spec(state, events.first()) {
            Ok(next) => run_spec(next, events.drop_first()),
            Err(e) => Err(e),
        }
    }
}

/// The outcome of a pass over a whole sequence of events.
pub open spec fn assemble_spec(events: Seq<MarkupEventView>) -> Result<
    Seq<SdRecordView>,
    IngestErrorView,
> {
    run_spec(initial_state(), events)
}

fn read_outer_id(id: String, attributes: &Vec<Option<RawAttribute>>) -> (res: Result<
    String,
    IngestError,
>)
    ensures
        text_outcome(res) == outer_id_spec(id@, attributes_view(attributes@)),
{
    let ghost all = attributes_view(attributes@);
    let mut active = id;
    let mut i: usize = 0;
    assert(all.skip(0) =~= all);
    while i < attributes.len()
        invariant
            i <= attributes.len(),
            all == attributes_view(attributes@),
            outer_id_spec(active@, all.skip(i as int)) == outer_id_spec(id@, all),
        decreases attributes.len() - i,
    {
        assert(all.skip(i as int).drop_first() =~= all.skip(i + 1));
        assert(all.skip(i as int).first() == all[i as int]);
        match &attributes[i] {
            Some(a) => {
                if same_text(a.key.as_str(), DEVICE_ID_KEY) {
                    match unescape_value(a) {
                        Ok(value) => {
                            active = value;
                        },
                        Err(diagnostic) => {
                            return Err(IngestError::MalformedInput { diagnostic });
                        },
                    }
                }
            },
            None => {},
        }
        i += 1;
    }
    Ok(active)
}

fn read_record_attributes(record: SdRecord, attributes: &Vec<Option<RawAttribute>>) -> (res:
    Result<SdRecord, IngestError>)
    ensures
        record_outcome(res) == record_attributes_spec(record@, attributes_view(attributes@)),
{
    let ghost all = attributes_view(attributes@);
    let mut current = record;
    let mut i: usize = 0;
    assert(all.skip(0) =~= all);
    while i < attributes.len()
        invariant
            i <= attributes.len(),
            all == attributes_view(attributes@),
            record_attributes_spec(current@, all.skip(i as int)) == record_attributes_spec(
                record@,
                all,
            ),
        decreases attributes.len() - i,
    {
        assert(all.skip(i as int).drop_first() =~= all.skip(i + 1));
        assert(all.skip(i as int).first() == all[i as int]);
        match &attributes[i] {
            Some(a) => {
                match unescape_value(a) {
                    Ok(value) => {
                        match apply_attribute(current, a.key.as_str(), value) {
                            Ok(next) => {
                                current = next;
                            },
                            Err(e) => {
                                return Err(e);
                            },
                        }
                    },
                    Err(diagnostic) => {
                        return Err(IngestError::MalformedInput { diagnostic });
                    },
                }
            },
            None => {},
        }
        i += 1;
    }
    Ok(current)
}

/// Reads the character data of a record element into the record.
pub fn apply_text(record: SdRecord, content: &str) -> (res: Result<SdRecord, IngestError>)
    ensures
        record_outcome(res) == with_text(record@, content@),
{
    let text = trim(content);
    if text.is_empty() {
        Ok(record)
    } else {
        match decode(text) {
            Ok(payload) => {
                let mut record = record;
                record.payload = payload;
                Ok(record)
            },
            Err(e) => Err(e),
        }
    }
}

/// The state of one pass over the events of a document.
pub struct RecordAssembler {
    active_outer_id: String,
    current: SdRecord,
    output: Vec<SdRecord>,
}

impl View for RecordAssembler {
    type V = AssemblerView;

    closed spec fn view(&self) -> AssemblerView {
        AssemblerView {
            active_outer_id: self.active_outer_id@,
            current: self.current@,
            output: records_view(self.output@),
        }
    }
}

/// An assembler, or the failure in its place, by value.
pub open spec fn assembler_outcome(res: Result<RecordAssembler, IngestError>) -> Result<
    AssemblerView,
    IngestErrorView,
> {
    match res {
        Ok(assembler) => Ok(assembler@),
        Err(e) => Err(e@),
    }
}

impl RecordAssembler {
    /// An assembler that has seen no event.
    pub fn new() -> (assembler: RecordAssembler)
        ensures
            assembler@ == initial_state(),
    {
        let assembler = RecordAssembler {
            active_outer_id: String::new(),
            current: new_sd_record(),
            output: Vec::new(),
        };
        assert(records_view(assembler.output@) =~= Seq::empty());
        assembler
    }

    /// Takes one event. A failure ends the pass: the assembler is given up
    /// with everything it held.
    pub fn step(self, event: &MarkupEvent) -> (res: Result<RecordAssembler, IngestError>)
        ensures
            assembler_outcome(res) == step_spec(self@, event@),
    {
        let RecordAssembler { active_outer_id, current, output } = self;
        match event {
            MarkupEvent::ElementOpen { name, attributes } => {
                if same_text(name.as_str(), OUTER_TAG) {
                    match read_outer_id(active_outer_id, attributes) {
                        Ok(id) => Ok(RecordAssembler { active_outer_id: id, current, output }),
                        Err(e) => Err(e),
                    }
                } else if same_text(name.as_str(), RECORD_TAG) {
                    match read_record_attributes(current, attributes) {
                        Ok(record) => Ok(
                            RecordAssembler { active_outer_id, current: record, output },
                        ),
                        Err(e) => Err(e),
                    }
                } else {
                    Ok(RecordAssembler { active_outer_id, current, output })
                }
            },
            MarkupEvent::Text { content } => {
                match apply_text(current, content.as_str()) {
                    Ok(record) => Ok(RecordAssembler { active_outer_id, current: record, output }),
                    Err(e) => Err(e),
                }
            },
            MarkupEvent::ElementClose { name } => {
                if same_text(name.as_str(), RECORD_TAG) {
                    let mut finished = current;
                    let mut output = output;
                    let ghost before = records_view(output@);
                    finished.device_id = active_outer_id.clone();
                    let ghost last = finished@;
                    output.push(finished);
                    assert(records_view(output@) =~= before.push(last));
                    Ok(RecordAssembler { active_outer_id, current: new_sd_record(), output })
                } else {
                    Ok(RecordAssembler { active_outer_id, current, output })
                }
            },
            MarkupEvent::EndOfStream => Ok(RecordAssembler { active_outer_id, current, output }),
            MarkupEvent::Other => Ok(RecordAssembler { active_outer_id, current, output }),
            MarkupEvent::Malformed { diagnostic } => Err(
                IngestError::MalformedInput { diagnostic: diagnostic.clone() },
            ),
        }
    }

    /// Ends the pass and hands out the completed records, in the order of
    /// their closing tags.
    pub fn finish(self) -> (records: Vec<SdRecord>)
        ensures
            records_view(records@) == self@.output,
    {
        self.output
    }
}

/// Assembles the records of a sequence of events.
pub fn assemble(events: &Vec<MarkupEvent>) -> (res: Result<Vec<SdRecord>, IngestError>)
    ensures
        records_outcome(res) == assemble_spec(events_view(events@)),
{
    let ghost all = events_view(events@);
    let mut assembler = RecordAssembler::new();
    let mut i: usize = 0;
    assert(all.skip(0) =~= all);
    while i < events.len()
        invariant
            i <= events.len(),
            all == events_view(events@),
            run_spec(assembler@, all.skip(i as int)) == assemble_spec(all),
        decreases events.len() - i,
    {
        assert(all.skip(i as int).drop_first() =~= all.skip(i + 1));
        assert(all.skip(i as int).first() == events@[i as int]@);
        match &events[i] {
            MarkupEvent::EndOfStream => {
                return Ok(assembler.finish());
            },
            event => {
                match assembler.step(event) {
                    Ok(next) => {
                        assembler = next;
                    },
                    Err(e) => {
                        return Err(e);
                    },
                }
            },
        }
        i += 1;
    }
    Ok(assembler.finish())
}

/// Parses the content of a telemetry file into its records. The outcome is
/// that of assembling the events of the document: the records in the order
/// of their closing tags, or the first failure, with no record beside it.
pub fn parse_sd_file(input: &[u8]) -> (res: Result<Vec<SdRecord>, IngestError>)
    ensures
        records_outcome(res) == assemble_spec(markup_events(input@)),
{
    let mut reader = open_reader(input);
    let mut assembler = RecordAssembler::new();
    loop
        invariant
            run_spec(assembler@, pending_events(&reader)) == assemble_spec(markup_events(input@)),
        decreases pending_events(&reader).len(),
    {
        let ghost before = pending_events(&reader);
        let event = next_event(&mut reader);
        assert(before.first() == event@);
        match event {
            MarkupEvent::EndOfStream => {
                return Ok(assembler.finish());
            },
            event => {
                match assembler.step(&event) {
                    Ok(next) => {
                        assembler = next;
                    },
                    Err(e) => {
                        return Err(e);
                    },
                }
                assert(!(event@ is Malformed));
                assert(before.drop_first() =~= before.skip(1));
            },
        }
    }
}

} // verus!
