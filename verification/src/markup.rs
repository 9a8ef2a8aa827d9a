//! The structural events of tagged markup, and the reader that produces them.

use vstd::prelude::*;
use std::borrow::Cow;
use quick_xml::events::attributes::Attribute;
use quick_xml::events::Event;
use quick_xml::name::QName;
use quick_xml::Reader;

verus! {

/// An attribute as written in an opening tag: its key, and its value with
/// entity references still in place.
#[derive(Clone, Debug, PartialEq, Eq)]
pub struct RawAttribute {
    pub key: String,
    pub value: String,
}

/// The mathematical value of a [`RawAttribute`].
pub struct RawAttributeView {
    pub key: Seq<char>,
    pub value: Seq<char>,
}

impl View for RawAttribute {
    type V = RawAttributeView;

    open spec fn view(&self) -> RawAttributeView {
        RawAttributeView { key: self.key@, value: self.value@ }
    }
}

/// One step of a forward pass over a document.
#[derive(Clone, Debug, PartialEq, Eq)]
pub enum MarkupEvent {
    /// An opening tag. An attribute that could not be told apart from its
    /// neighbours stands as `None`, in its place among the others.
    ElementOpen { name: String, attributes: Vec<Option<RawAttribute>> },
    /// Character data between tags, without the blanks around it.
    Text { content: String },
    /// A closing tag.
    ElementClose { name: String },
    /// The document is exhausted.
    EndOfStream,
    /// Markup that carries no record data: comments, declarations, processing
    /// instructions, entity references, and elements closed in their own tag.
    Other,
    /// The markup is broken at this point.
    Malformed { diagnostic: String },
}

/// The mathematical value of a [`MarkupEvent`].
pub enum MarkupEventView {
    ElementOpen { name: Seq<char>, attributes: Seq<Option<RawAttributeView>> },
    Text { content: Seq<char> },
    ElementClose { name: Seq<char> },
    EndOfStream,
    Other,
    Malformed { diagnostic: Seq<char> },
}

/// The views of a list of attributes, in order.
pub open spec fn attributes_view(attributes: Seq<Option<RawAttribute>>) -> Seq<
    Option<RawAttributeView>,
> {
    Seq::new(
        attributes.len(),
        |i: int|
            match attributes[i] {
                Some(a) => Some(a@),
                None => None,
            },
    )
}

impl View for MarkupEvent {
    type V = MarkupEventView;

    open spec fn view(&self) -> MarkupEventView {
        match *self {
            MarkupEvent::ElementOpen { name, attributes } => MarkupEventView::ElementOpen {
                name: name@,
                attributes: attributes_view(attributes@),
            },
            MarkupEvent::Text { content } => MarkupEventView::Text { content: content@ },
            MarkupEvent::ElementClose { name } => MarkupEventView::ElementClose { name: name@ },
            MarkupEvent::EndOfStream => MarkupEventView::EndOfStream,
            MarkupEvent::Other => MarkupEventView::Other,
            MarkupEvent::Malformed { diagnostic } => MarkupEventView::Malformed {
                diagnostic: diagnostic@,
            },
        }
    }
}

/// The views of a sequence of events, in order.
pub open spec fn events_view(events: Seq<MarkupEvent>) -> Seq<MarkupEventView> {
    Seq::new(events.len(), |i: int| events[i]@)
}

/// An event after which a pass over a document reads no further.
pub open spec fn is_final(event: MarkupEventView) -> bool {
    event is EndOfStream || event is Malformed
}

/// `quick_xml::Reader`, carried through as it is.
#[verifier::external_type_specification]
#[verifier::external_body]
#[verifier::reject_recursive_types(R)]
pub struct ExReader<R>(quick_xml::Reader<R>);

/// The events of a document: what a pass over `input` yields, call after
/// call, up to and including the first final event.
pub uninterp spec fn markup_events(input: Seq<u8>) -> Seq<MarkupEventView>;

/// The events that a reader has yet to yield, up to and including the first
/// final event.
pub uninterp spec fn pending_events(reader: &Reader<&[u8]>) -> Seq<MarkupEventView>;

/// `Reader::from_reader` on a byte slice, with
/// `Config::trim_text(true)`: a reader at the start of `input` that drops the
/// blanks around character data.
#[verifier::external_body]
pub(crate) fn open_reader<'a>(input: &'a [u8]) -> (reader: Reader<&'a [u8]>)
    ensures
        pending_events(&reader) == markup_events(input@),
{
    let mut reader = Reader::from_reader(input);
    reader.config_mut().trim_text(true);
    reader
}

/// `quick_xml::Reader::read_event`: hands out the next event and moves past
/// it. A reader over a slice always has an event to give, and each one that
/// is not final takes at least one byte of the input, so the pending events
/// shrink by the one handed out. The attributes of an opening tag are those
/// of `BytesStart::attributes`, read without the check for repeated keys.
#[verifier::external_body]
pub(crate) fn next_event(reader: &mut Reader<&[u8]>) -> (event: MarkupEvent)
    ensures
        pending_events(old(reader)).len() > 0,
        event@ == pending_events(old(reader))[0],
        is_final(event@) ==> pending_events(old(reader)).len() == 1,
        !is_final(event@) ==> pending_events(final(reader)) == pending_events(old(reader)).skip(1),
{
    match reader.read_event() {
        Ok(Event::Start(e)) => MarkupEvent::ElementOpen {
            name: e.name().0.to_owned(),
            attributes: e.attributes().with_checks(false).map(|a| a.ok().map(|a| RawAttribute {
                key: a.key.0.to_owned(),
                value: a.value.into_owned(),
            })).collect(),
        },
        Ok(Event::Text(e)) => MarkupEvent::Text { content: e.into_inner().into_owned() },
        Ok(Event::End(e)) => MarkupEvent::ElementClose { name: e.name().0.to_owned() },
        Ok(Event::Eof) => MarkupEvent::EndOfStream,
        Ok(_) => MarkupEvent::Other,
        Err(e) => MarkupEvent::Malformed { diagnostic: format!("XML parse error: {e}") },
    }
}

/// What becomes of an attribute's raw value when its entity references are
/// resolved: the text, or the diagnostic of a reference that cannot be.
pub uninterp spec fn unescaped(raw: Seq<char>) -> Result<Seq<char>, Seq<char>>;

/// `quick_xml::events::attributes::Attribute::unescape_value`: the value with
/// its entity references resolved, or the crate's diagnostic.
#[verifier::external_body]
#[allow(deprecated)]
pub(crate) fn unescape_value(attribute: &RawAttribute) -> (res: Result<String, String>)
    ensures
        match res {
            Ok(value) => unescaped(attribute.value@) == Ok::<Seq<char>, Seq<char>>(value@),
            Err(diagnostic) => unescaped(attribute.value@) == Err::<Seq<char>, Seq<char>>(
                diagnostic@,
            ),
        },
{
    let raw = Attribute { key: QName(&attribute.key), value: Cow::Borrowed(&attribute.value) };
    match raw.unescape_value() {
        Ok(value) => Ok(value.into_owned()),
        Err(e) => Err(e.to_string()),
    }
}

/// Reads a whole document into its events. The last event, and no other, is
/// final.
pub fn read_events(input: &[u8]) -> (events: Vec<MarkupEvent>)
    ensures
        events_view(events@) == markup_events(input@),
        events.len() > 0,
        forall|i: int|
            0 <= i < events.len() ==> (is_final(#[trigger] events[i]@) <==> i == events.len() - 1),
{
    let mut reader = open_reader(input);
    let mut events: Vec<MarkupEvent> = Vec::new();
    loop
        invariant_except_break
            events_view(events@) + pending_events(&reader) == markup_events(input@),
            forall|i: int| 0 <= i < events.len() ==> !is_final(#[trigger] events[i]@),
        ensures
            events_view(events@) == markup_events(input@),
            events.len() > 0,
            forall|i: int|
                0 <= i < events.len() ==> (is_final(#[trigger] events[i]@) <==> i == events.len()
                    - 1),
        decreases pending_events(&reader).len(),
    {
        let ghost before = pending_events(&reader);
        let ghost seen = events_view(events@);
        let event = next_event(&mut reader);
        let done = match event {
            MarkupEvent::EndOfStream => true,
            MarkupEvent::Malformed { .. } => true,
            _ => false,
        };
        let ghost last = event@;
        events.push(event);
        assert(events_view(events@) =~= seen.push(last));
        if done {
            assert(seen.push(last) =~= seen + before);
            break ;
        }
        assert(seen.push(last) + before.skip(1) =~= seen + before);
    }
    events
}

} // verus!
