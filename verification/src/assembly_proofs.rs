//! What holds of every pass of the assembler.

use vstd::prelude::*;
use vstd::utf8::encode_utf8;
use crate::assembler::assemble_spec;
use crate::assembler::initial_state;
use crate::assembler::outer_id_spec;
use crate::assembler::record_attributes_spec;
use crate::assembler::run_spec;
use crate::assembler::step_spec;
use crate::assembler::with_attribute;
use crate::assembler::AssemblerView;
use crate::error::IngestErrorView;
use crate::assembler::DEVICE_ID_KEY;
use crate::assembler::OUTER_TAG;
use crate::assembler::RECORD_TAG;
use crate::markup::unescaped;
use crate::markup::MarkupEventView;
use crate::markup::RawAttributeView;
use crate::hex_codec::decoded;
use crate::record::SdRecordView;
use crate::text::trimmed;

verus! {

/// Whether an event is the closing tag of a record element.
pub open spec fn closes_record(event: MarkupEventView) -> bool {
    event matches MarkupEventView::ElementClose { name } && name == RECORD_TAG@
}

/// How many closing tags of record elements a pass meets before the end of
/// the stream.
pub open spec fn record_closes(events: Seq<MarkupEventView>) -> nat
    decreases events.len(),
{
    if events.len() == 0 || events.first() is EndOfStream {
        0
    } else if closes_record(events.first()) {
        1 + record_closes(events.drop_first())
    } else {
        record_closes(events.drop_first())
    }
}

/// The position, among the events, of the closing tag that completes record
/// `k`, counted from zero.
pub open spec fn close_position(events: Seq<MarkupEventView>, k: nat) -> int
    decreases events.len(),
{
    if events.len() == 0 || events.first() is EndOfStream {
        0
    } else if closes_record(events.first()) {
        if k == 0 {
            0
        } else {
            1 + close_position(events.drop_first(), (k - 1) as nat)
        }
    } else {
        1 + close_position(events.drop_first(), k)
    }
}

/// The raw value of the last attribute under the identifier key, if there is
/// one.
pub open spec fn declared_id(attributes: Seq<Option<RawAttributeView>>) -> Option<Seq<char>>
    decreases attributes.len(),
{
    if attributes.len() == 0 {
        None
    } else {
        match declared_id(attributes.drop_first()) {
            Some(raw) => Some(raw),
            None => match attributes.first() {
                Some(a) => if a.key == DEVICE_ID_KEY@ {
                    Some(a.value)
                } else {
                    None
                },
                None => None,
            },
        }
    }
}

/// The raw identifier that an event brings into force: that of an opening
/// tag of an outer element which carries one.
pub open spec fn announced_id(event: MarkupEventView) -> Option<Seq<char>> {
    match event {
        MarkupEventView::ElementOpen { name, attributes } => if name == OUTER_TAG@ {
            declared_id(attributes)
        } else {
            None
        },
        _ => None,
    }
}

/// The identifier in force just before position `n`: that of the outer
/// element opened last before it with an identifier, or `base` when there is
/// none.
pub open spec fn outer_id_from(base: Seq<char>, events: Seq<MarkupEventView>, n: int) -> Seq<char>
    decreases n,
{
    if n <= 0 {
        base
    } else {
        match announced_id(events[n - 1]) {
            Some(raw) => unescaped(raw)->Ok_0,
            None => outer_id_from(base, events, n - 1),
        }
    }
}

/// The identifier in force just before position `n` of a document: empty
/// until an outer element has announced one.
pub open spec fn outer_id_at(events: Seq<MarkupEventView>, n: int) -> Seq<char> {
    outer_id_from(Seq::empty(), events, n)
}

/// Whether an event is character data that is not blank.
pub open spec fn carries_text(event: MarkupEventView) -> bool {
    event matches MarkupEventView::Text { content } && trimmed(content).len() > 0
}

/// The payload in progress just before position `n`: what the character
/// data met last since the last closing tag of a record element stands for,
/// and `base` where no such tag and no character data came before.
pub open spec fn payload_from(base: Seq<u8>, events: Seq<MarkupEventView>, n: int) -> Seq<u8>
    decreases n,
{
    if n <= 0 {
        base
    } else if closes_record(events[n - 1]) {
        Seq::empty()
    } else if carries_text(events[n - 1]) {
        decoded(encode_utf8(trimmed(events[n - 1]->content)))
    } else {
        payload_from(base, events, n - 1)
    }
}

/// The payload in progress just before position `n` of a document.
pub open spec fn payload_at(events: Seq<MarkupEventView>, n: int) -> Seq<u8> {
    payload_from(Seq::empty(), events, n)
}

/// Whether no character data has been met just before position `n` since
/// the last closing tag of a record element, or since the start.
pub open spec fn no_text_since_close(events: Seq<MarkupEventView>, n: int) -> bool
    decreases n,
{
    if n <= 0 {
        true
    } else if closes_record(events[n - 1]) {
        true
    } else if carries_text(events[n - 1]) {
        false
    } else {
        no_text_since_close(events, n - 1)
    }
}

/// Whether a record holds no quality metric.
pub open spec fn without_metrics(record: SdRecordView) -> bool {
    &&& record.quality_metric_1 is None
    &&& record.quality_metric_2 is None
    &&& record.quality_metric_3 is None
}

proof fn lemma_outer_id(id: Seq<char>, attributes: Seq<Option<RawAttributeView>>)
    requires
        outer_id_spec(id, attributes) is Ok,
    ensures
        outer_id_spec(id, attributes)->Ok_0 == match declared_id(attributes) {
            Some(raw) => unescaped(raw)->Ok_0,
            None => id,
        },
    decreases attributes.len(),
{
    if attributes.len() > 0 {
        let rest = attributes.drop_first();
        match attributes.first() {
            Some(a) => {
                if a.key == DEVICE_ID_KEY@ {
                    lemma_outer_id(unescaped(a.value)->Ok_0, rest);
                } else {
                    lemma_outer_id(id, rest);
                }
            },
            None => {
                lemma_outer_id(id, rest);
            },
        }
    }
}

proof fn lemma_attributes_keep(record: SdRecordView, attributes: Seq<Option<RawAttributeView>>)
    requires
        record_attributes_spec(record, attributes) is Ok,
    ensures
        record_attributes_spec(record, attributes)->Ok_0.payload == record.payload,
        without_metrics(record) ==> without_metrics(
            record_attributes_spec(record, attributes)->Ok_0,
        ),
    decreases attributes.len(),
{
    if attributes.len() > 0 {
        let rest = attributes.drop_first();
        match attributes.first() {
            Some(a) => {
                let next = with_attribute(record, a.key, unescaped(a.value)->Ok_0)->Ok_0;
                lemma_attributes_keep(next, rest);
            },
            None => {
                lemma_attributes_keep(record, rest);
            },
        }
    }
}

/// The payload in progress after an event, given the one before it.
spec fn payload_after(base: Seq<u8>, event: MarkupEventView) -> Seq<u8> {
    if closes_record(event) {
        Seq::empty()
    } else if carries_text(event) {
        decoded(encode_utf8(trimmed(event->content)))
    } else {
        base
    }
}

proof fn lemma_step_keeps_payload(state: AssemblerView, event: MarkupEventView)
    requires
        step_spec(state, event) is Ok,
    ensures
        step_spec(state, event)->Ok_0.current.payload == payload_after(
            state.current.payload,
            event,
        ),
        without_metrics(state.current) ==> without_metrics(step_spec(state, event)->Ok_0.current),
        closes_record(event) ==> step_spec(state, event)->Ok_0.output.last().payload
            == state.current.payload && (without_metrics(state.current) ==> without_metrics(
            step_spec(state, event)->Ok_0.output.last(),
        )),
{
    match event {
        MarkupEventView::ElementOpen { name, attributes } => {
            if name != OUTER_TAG@ && name == RECORD_TAG@ {
                lemma_attributes_keep(state.current, attributes);
            }
        },
        _ => {},
    }
}

proof fn lemma_payload_peel(base: Seq<u8>, events: Seq<MarkupEventView>, n: int)
    requires
        0 <= n < events.len(),
    ensures
        payload_from(base, events, n + 1) == payload_from(
            payload_after(base, events.first()),
            events.drop_first(),
            n,
        ),
    decreases n,
{
    let rest = events.drop_first();
    let next = payload_after(base, events.first());
    if n > 0 {
        lemma_payload_peel(base, events, n - 1);
        assert(rest[n - 1] == events[n]);
    } else {
        assert(payload_from(base, events, 0) == base);
        assert(payload_from(next, rest, 0) == next);
        assert(events[0] == events.first());
    }
}

proof fn lemma_no_text(events: Seq<MarkupEventView>, n: int)
    requires
        no_text_since_close(events, n),
    ensures
        payload_at(events, n) == Seq::<u8>::empty(),
    decreases n,
{
    if n > 0 && !closes_record(events[n - 1]) {
        lemma_no_text(events, n - 1);
    }
}

/// The identifier in force after an event, given the one before it.
spec fn id_after(base: Seq<char>, event: MarkupEventView) -> Seq<char> {
    match announced_id(event) {
        Some(raw) => unescaped(raw)->Ok_0,
        None => base,
    }
}

proof fn lemma_step_keeps_track(state: AssemblerView, event: MarkupEventView)
    requires
        step_spec(state, event) is Ok,
    ensures
        step_spec(state, event)->Ok_0.active_outer_id == id_after(state.active_outer_id, event),
        closes_record(event) ==> step_spec(state, event)->Ok_0.output == state.output.push(
            step_spec(state, event)->Ok_0.output.last(),
        ) && step_spec(state, event)->Ok_0.output.last().device_id == state.active_outer_id,
        !closes_record(event) ==> step_spec(state, event)->Ok_0.output == state.output,
{
    match event {
        MarkupEventView::ElementOpen { name, attributes } => {
            if name == OUTER_TAG@ {
                lemma_outer_id(state.active_outer_id, attributes);
            }
        },
        _ => {},
    }
}

proof fn lemma_outer_id_peel(base: Seq<char>, events: Seq<MarkupEventView>, n: int)
    requires
        0 <= n < events.len(),
    ensures
        outer_id_from(base, events, n + 1) == outer_id_from(
            id_after(base, events.first()),
            events.drop_first(),
            n,
        ),
    decreases n,
{
    let rest = events.drop_first();
    let next = id_after(base, events.first());
    if n > 0 {
        lemma_outer_id_peel(base, events, n - 1);
        assert(rest[n - 1] == events[n]);
        assert(outer_id_from(next, rest, n) == match announced_id(rest[n - 1]) {
            Some(raw) => unescaped(raw)->Ok_0,
            None => outer_id_from(next, rest, n - 1),
        });
    } else {
        assert(outer_id_from(base, events, 0) == base);
        assert(outer_id_from(next, rest, 0) == next);
        assert(events[0] == events.first());
    }
}

proof fn lemma_run_payload(state: AssemblerView, events: Seq<MarkupEventView>)
    requires
        run_spec(state, events) is Ok,
    ensures
        forall|k: nat|
            k < record_closes(events) ==> run_spec(state, events)->Ok_0[(state.output.len()
                + k) as int].payload == payload_from(
                state.current.payload,
                events,
                #[trigger] close_position(events, k),
            ),
        without_metrics(state.current) ==> forall|k: nat|
            k < record_closes(events) ==> without_metrics(
                #[trigger] run_spec(state, events)->Ok_0[(state.output.len() + k) as int],
            ),
    decreases events.len(),
{
    if events.len() == 0 || events.first() is EndOfStream {
    } else {
        let event = events.first();
        let rest = events.drop_first();
        let next = step_spec(state, event)->Ok_0;
        let out = run_spec(state, events)->Ok_0;
        lemma_step_keeps_track(state, event);
        lemma_step_keeps_payload(state, event);
        lemma_run(next, rest);
        lemma_run_payload(next, rest);
        assert(out == run_spec(next, rest)->Ok_0);
        assert forall|k: nat| k < record_closes(events) implies out[(state.output.len()
            + k) as int].payload == payload_from(
            state.current.payload,
            events,
            #[trigger] close_position(events, k),
        ) by {
            if closes_record(event) {
                if k == 0 {
                    assert(out[state.output.len() as int] == next.output[state.output.len() as int]);
                } else {
                    let j = (k - 1) as nat;
                    lemma_close_position(rest, j);
                    lemma_payload_peel(state.current.payload, events, close_position(rest, j));
                    assert(out[(next.output.len() + j) as int].payload == payload_from(
                        next.current.payload,
                        rest,
                        close_position(rest, j),
                    ));
                }
            } else {
                lemma_close_position(rest, k);
                lemma_payload_peel(state.current.payload, events, close_position(rest, k));
                assert(out[(next.output.len() + k) as int].payload == payload_from(
                    next.current.payload,
                    rest,
                    close_position(rest, k),
                ));
            }
        }
        if without_metrics(state.current) {
            assert forall|k: nat| k < record_closes(events) implies without_metrics(
                #[trigger] out[(state.output.len() + k) as int],
            ) by {
                if closes_record(event) {
                    if k == 0 {
                        assert(out[state.output.len() as int] == next.output[state.output.len() as int]);
                    } else {
                        let j = (k - 1) as nat;
                        assert(without_metrics(out[(next.output.len() + j) as int]));
                    }
                } else {
                    assert(without_metrics(out[(next.output.len() + k) as int]));
                }
            }
        }
    }
}

proof fn lemma_run(state: AssemblerView, events: Seq<MarkupEventView>)
    requires
        run_spec(state, events) is Ok,
    ensures
        run_spec(state, events)->Ok_0.len() == state.output.len() + record_closes(events),
        forall|i: int|
            0 <= i < state.output.len() ==> (#[trigger] run_spec(state, events)->Ok_0[i])
                == state.output[i],
        forall|k: nat|
            k < record_closes(events) ==> run_spec(state, events)->Ok_0[(state.output.len()
                + k) as int].device_id == outer_id_from(
                state.active_outer_id,
                events,
                #[trigger] close_position(events, k),
            ),
    decreases events.len(),
{
    if events.len() == 0 || events.first() is EndOfStream {
    } else {
        let event = events.first();
        let rest = events.drop_first();
        let next = step_spec(state, event)->Ok_0;
        let out = run_spec(state, events)->Ok_0;
        lemma_step_keeps_track(state, event);
        lemma_run(next, rest);
        assert(out == run_spec(next, rest)->Ok_0);
        assert forall|k: nat| k < record_closes(events) implies out[(state.output.len()
            + k) as int].device_id == outer_id_from(
            state.active_outer_id,
            events,
            #[trigger] close_position(events, k),
        ) by {
            if closes_record(event) {
                if k == 0 {
                    assert(out[state.output.len() as int] == next.output[state.output.len() as int]);
                } else {
                    let j = (k - 1) as nat;
                    lemma_close_position(rest, j);
                    assert(close_position(events, k) == 1 + close_position(rest, j));
                    lemma_outer_id_peel(state.active_outer_id, events, close_position(rest, j));
                    assert(out[(next.output.len() + j) as int].device_id == outer_id_from(
                        next.active_outer_id,
                        rest,
                        close_position(rest, j),
                    ));
                }
            } else {
                lemma_close_position(rest, k);
                assert(close_position(events, k) == 1 + close_position(rest, k));
                lemma_outer_id_peel(state.active_outer_id, events, close_position(rest, k));
                assert(out[(next.output.len() + k) as int].device_id == outer_id_from(
                    next.active_outer_id,
                    rest,
                    close_position(rest, k),
                ));
            }
        }
        assert forall|i: int| 0 <= i < state.output.len() implies (#[trigger] out[i])
            == state.output[i] by {
            assert(out[i] == next.output[i]);
        }
    }
}

/// A pass that succeeds yields one record for each closing tag of a record
/// element that it meets before the end of the stream.
pub proof fn lemma_one_record_per_close(events: Seq<MarkupEventView>)
    requires
        assemble_spec(events) is Ok,
    ensures
        assemble_spec(events)->Ok_0.len() == record_closes(events),
{
    lemma_run(initial_state(), events);
}

/// In a pass that succeeds, every record carries the identifier that was in
/// force when its closing tag was met: that of the outer element opened last
/// before it with an identifier, and the empty one when there was none.
pub proof fn lemma_device_id_is_enclosing_id(events: Seq<MarkupEventView>, k: nat)
    requires
        assemble_spec(events) is Ok,
        k < assemble_spec(events)->Ok_0.len(),
    ensures
        0 <= close_position(events, k) < events.len(),
        closes_record(events[close_position(events, k)]),
        assemble_spec(events)->Ok_0[k as int].device_id == outer_id_at(
            events,
            close_position(events, k),
        ),
{
    lemma_run(initial_state(), events);
    lemma_close_position(events, k);
}

/// In a pass that succeeds, the payload of every record is what the
/// character data met last inside its element stands for: the data met last
/// since the closing tag before, without the white space around it, read as
/// hexadecimal.
pub proof fn lemma_payload_is_last_text(events: Seq<MarkupEventView>, k: nat)
    requires
        assemble_spec(events) is Ok,
        k < assemble_spec(events)->Ok_0.len(),
    ensures
        assemble_spec(events)->Ok_0[k as int].payload == payload_at(
            events,
            close_position(events, k),
        ),
{
    lemma_run(initial_state(), events);
    lemma_run_payload(initial_state(), events);
}

/// In a pass that succeeds, a record whose element holds no character data
/// has an empty payload.
pub proof fn lemma_no_text_no_payload(events: Seq<MarkupEventView>, k: nat)
    requires
        assemble_spec(events) is Ok,
        k < assemble_spec(events)->Ok_0.len(),
        no_text_since_close(events, close_position(events, k)),
    ensures
        assemble_spec(events)->Ok_0[k as int].payload == Seq::<u8>::empty(),
{
    lemma_payload_is_last_text(events, k);
    lemma_no_text(events, close_position(events, k));
}

/// In a pass that succeeds, no record holds a quality metric.
pub proof fn lemma_quality_metrics_absent(events: Seq<MarkupEventView>, k: nat)
    requires
        assemble_spec(events) is Ok,
        k < assemble_spec(events)->Ok_0.len(),
    ensures
        without_metrics(assemble_spec(events)->Ok_0[k as int]),
{
    lemma_run(initial_state(), events);
    lemma_run_payload(initial_state(), events);
    assert(without_metrics(
        run_spec(initial_state(), events)->Ok_0[(initial_state().output.len() + k) as int],
    ));
}

/// The state after every one of the events has been taken, or the first
/// failure among them.
pub open spec fn state_after(state: AssemblerView, events: Seq<MarkupEventView>) -> Result<
    AssemblerView,
    IngestErrorView,
>
    decreases events.len(),
{
    if events.len() == 0 {
        Ok(state)
    } else {
        match step_spec(state, events.first()) {
            Ok(next) => state_after(next, events.drop_first()),
            Err(e) => Err(e),
        }
    }
}

/// A pass can be cut anywhere before the end of the stream: a failure in the
/// first part is the outcome of the whole, and otherwise the second part
/// goes on from the state that the first part left.
pub proof fn lemma_pass_splits(state: AssemblerView, events: Seq<MarkupEventView>, m: int)
    requires
        0 <= m <= events.len(),
        forall|i: int| 0 <= i < m ==> !(#[trigger] events[i] is EndOfStream),
    ensures
        run_spec(state, events) == match state_after(state, events.take(m)) {
            Ok(mid) => run_spec(mid, events.skip(m)),
            Err(e) => Err(e),
        },
    decreases m,
{
    if m == 0 {
        assert(events.take(0) =~= Seq::empty());
        assert(events.skip(0) =~= events);
    } else {
        let rest = events.drop_first();
        assert(events.take(m).first() == events.first());
        assert(events.take(m).drop_first() =~= rest.take(m - 1));
        assert(rest.skip(m - 1) =~= events.skip(m));
        assert(!(events[0] is EndOfStream));
        match step_spec(state, events.first()) {
            Ok(next) => {
                assert forall|i: int| 0 <= i < m - 1 implies !(#[trigger] rest[i] is EndOfStream) by {
                    assert(rest[i] == events[i + 1]);
                }
                lemma_pass_splits(next, rest, m - 1);
            },
            Err(e) => {},
        }
    }
}

/// Broken markup before the end of the stream fails the whole pass, whatever
/// was completed before it: no record is handed out. Where nothing failed
/// earlier, the failure is that of the broken markup.
pub proof fn lemma_malformed_is_fatal(events: Seq<MarkupEventView>, m: int)
    requires
        0 <= m < events.len(),
        events[m] is Malformed,
        forall|i: int| 0 <= i < m ==> !(#[trigger] events[i] is EndOfStream),
    ensures
        assemble_spec(events) is Err,
        state_after(initial_state(), events.take(m)) is Ok ==> assemble_spec(events) == Err::<
            Seq<SdRecordView>,
            IngestErrorView,
        >(IngestErrorView::MalformedInput { diagnostic: events[m]->diagnostic }),
{
    lemma_pass_splits(initial_state(), events, m);
    assert(events.skip(m).first() == events[m]);
}

proof fn lemma_close_position(events: Seq<MarkupEventView>, k: nat)
    requires
        k < record_closes(events),
    ensures
        0 <= close_position(events, k) < events.len(),
        closes_record(events[close_position(events, k)]),
    decreases events.len(),
{
    if events.len() == 0 || events.first() is EndOfStream {
    } else if closes_record(events.first()) {
        if k > 0 {
            lemma_close_position(events.drop_first(), (k - 1) as nat);
        }
    } else {
        lemma_close_position(events.drop_first(), k);
    }
}

} // verus!
