//! The markup events of a document and the attributes of a tag, as the
//! `quick_xml` reader hands them out.

use crate::error::DecodeError;
use quick_xml::events::Event;
use vstd::prelude::*;

verus! {

/// `quick_xml::Reader`, carried through as an opaque value.
#[verifier::external_type_specification]
#[verifier::external_body]
#[verifier::reject_recursive_types(R)]
pub struct ExReader<R>(quick_xml::Reader<R>);

/// `quick_xml::events::attributes::Attributes`, carried through as an opaque value.
#[verifier::external_type_specification]
#[verifier::external_body]
pub struct ExAttributes<'a>(quick_xml::events::attributes::Attributes<'a>);

/// `quick_xml`'s `Attribute`: the item type of its attribute reader, which the
/// declaration of the reader brings with it.
#[verifier::external_type_specification]
#[verifier::external_body]
pub struct ExAttribute<'a>(quick_xml::events::attributes::Attribute<'a>);

/// `quick_xml`'s `AttrError`: the error type of its attribute reader, which the
/// declaration of the reader brings with it.
#[verifier::external_type_specification]
#[verifier::external_body]
pub struct ExAttrError(quick_xml::events::attributes::AttrError);

/// One piece of markup, as the reader hands it out.
///
/// Character data and attribute lists are still in their written form: no
/// entity is resolved, no attribute is split off.
#[derive(Debug, Clone, PartialEq, Eq)]
pub enum RawEvent {
    /// An opening tag `<name ...>`: its name, and everything between `<` and `>`.
    Start(String, String),
    /// A self-closing tag `<name .../>`: its name, and everything between `<` and `/>`.
    Empty(String, String),
    /// A closing tag `</name>`: its name.
    End(String),
    /// Character data between tags, entities unresolved.
    Text(String),
    /// The content of a `<![CDATA[...]]>` section.
    CData(String),
    /// A comment, a declaration, a processing instruction or a document type.
    Other,
    /// The reader found the markup broken at this place.
    Malformed,
}

/// The mathematical value of a [`RawEvent`].
pub enum RawEventView {
    Start(Seq<char>, Seq<char>),
    Empty(Seq<char>, Seq<char>),
    End(Seq<char>),
    Text(Seq<char>),
    CData(Seq<char>),
    Other,
    Malformed,
}

impl View for RawEvent {
    type V = RawEventView;

    open spec fn view(&self) -> RawEventView {
        match self {
            RawEvent::Start(name, content) => RawEventView::Start(name@, content@),
            RawEvent::Empty(name, content) => RawEventView::Empty(name@, content@),
            RawEvent::End(name) => RawEventView::End(name@),
            RawEvent::Text(raw) => RawEventView::Text(raw@),
            RawEvent::CData(text) => RawEventView::CData(text@),
            RawEvent::Other => RawEventView::Other,
            RawEvent::Malformed => RawEventView::Malformed,
        }
    }
}

/// One attribute of a tag, as the attribute reader hands it out.
#[derive(Debug, Clone, PartialEq, Eq)]
pub enum RawAttribute {
    /// `key="value"` or `key='value'`: the key, and the value in its written form.
    Pair(String, String),
    /// The attribute list is broken at this place, or repeats a key.
    Malformed,
}

/// The mathematical value of a [`RawAttribute`].
pub enum RawAttributeView {
    Pair(Seq<char>, Seq<char>),
    Malformed,
}

impl View for RawAttribute {
    type V = RawAttributeView;

    open spec fn view(&self) -> RawAttributeView {
        match self {
            RawAttribute::Pair(key, value) => RawAttributeView::Pair(key@, value@),
            RawAttribute::Malformed => RawAttributeView::Malformed,
        }
    }
}

/// The events that `quick_xml` reads from a document, up to its end or up to
/// and including the first place where it finds the markup broken.
pub uninterp spec fn document_events(input: Seq<char>) -> Seq<RawEventView>;

/// The events that a reader has yet to hand out.
pub uninterp spec fn pending_events(reader: quick_xml::Reader<&[u8]>) -> Seq<RawEventView>;

/// The attributes that `quick_xml` reads from the content of a tag, starting
/// `pos` bytes into it.
pub uninterp spec fn tag_attributes(content: Seq<char>, pos: int) -> Seq<RawAttributeView>;

/// The attributes that an attribute reader has yet to hand out.
pub uninterp spec fn pending_attributes(
    attributes: quick_xml::events::attributes::Attributes,
) -> Seq<RawAttributeView>;

/// What `quick_xml::escape::unescape` makes of a text that holds `&`: the text
/// with every entity reference resolved, or `None` where one of them cannot be
/// resolved.
pub uninterp spec fn entity_resolution(raw: Seq<char>) -> Option<Seq<char>>;

/// A text with its entity references resolved. A text without `&` holds no
/// reference and stands for itself.
pub open spec fn unescaped(raw: Seq<char>) -> Option<Seq<char>> {
    if raw.contains('&') {
        entity_resolution(raw)
    } else {
        Some(raw)
    }
}

/// `quick_xml::escape::unescape`: resolves the predefined entities and the
/// numeric character references of `raw`. It looks for `&` and returns a text
/// without one as it is; it fails where a reference is unterminated, unknown
/// or names no character.
#[verifier::external_body]
fn resolve_entities(raw: &str) -> (resolved: Option<String>)
    ensures
        raw@.contains('&') ==> (resolved is Some <==> entity_resolution(raw@) is Some),
        raw@.contains('&') && resolved is Some ==> Some(resolved.unwrap()@) == entity_resolution(
            raw@,
        ),
        !raw@.contains('&') ==> resolved is Some && resolved.unwrap()@ == raw@,
{
    quick_xml::escape::unescape(raw).ok().map(|text| text.into_owned())
}

/// `quick_xml::Reader::from_str`: a reader over `input` with the default
/// settings. It is about to hand out the events of `input`.
#[verifier::external_body]
fn open_reader<'a>(input: &'a str) -> (reader: quick_xml::Reader<&'a [u8]>)
    ensures
        pending_events(reader) == document_events(input@),
{
    quick_xml::Reader::from_str(input)
}

/// `quick_xml::Reader::read_event`: hands out the next event, or `None` at the
/// end of the input. After a failure the reader reports the end of the input,
/// so a `Malformed` event is the last one.
#[verifier::external_body]
fn next_event<'a>(reader: &mut quick_xml::Reader<&'a [u8]>) -> (event: Option<RawEvent>)
    ensures
        pending_events(*old(reader)).len() == 0 ==> event is None && pending_events(
            *final(reader),
        ).len() == 0,
        pending_events(*old(reader)).len() > 0 ==> event is Some && event.unwrap()@
            == pending_events(*old(reader))[0] && pending_events(*final(reader))
            == pending_events(*old(reader)).skip(1),
{
    let text = |bytes: &[u8]| String::from_utf8_lossy(bytes).into_owned();
    Some(match reader.read_event() {
        Ok(Event::Start(e)) => RawEvent::Start(text(e.name().0), text(&e)),
        Ok(Event::Empty(e)) => RawEvent::Empty(text(e.name().0), text(&e)),
        Ok(Event::End(e)) => RawEvent::End(text(&e)),
        Ok(Event::Text(e)) => RawEvent::Text(text(&e)),
        Ok(Event::CData(e)) => RawEvent::CData(text(&e)),
        Ok(Event::Eof) => return None,
        Ok(_) => RawEvent::Other,
        Err(_) => RawEvent::Malformed,
    })
}

/// `Attributes::new` of `quick_xml`: an attribute reader over the content of a
/// tag, starting `pos` bytes into it. It is about to hand out the attributes
/// that stand there.
#[verifier::external_body]
fn open_attributes<'a>(content: &'a str, pos: usize) -> (attributes:
    quick_xml::events::attributes::Attributes<'a>)
    requires
        pos <= content.len(),
    ensures
        pending_attributes(attributes) == tag_attributes(content@, pos as int),
{
    quick_xml::events::attributes::Attributes::new(content, pos)
}

/// `Iterator::next` of `quick_xml`'s `Attributes`: hands out the next
/// attribute, or `None` when the content of the tag is used up.
#[verifier::external_body]
fn next_attribute<'a>(attributes: &mut quick_xml::events::attributes::Attributes<'a>) -> (item:
    Option<RawAttribute>)
    ensures
        pending_attributes(*old(attributes)).len() == 0 ==> item is None && pending_attributes(
            *final(attributes),
        ).len() == 0,
        pending_attributes(*old(attributes)).len() > 0 ==> item is Some && item.unwrap()@
            == pending_attributes(*old(attributes))[0] && pending_attributes(*final(attributes))
            == pending_attributes(*old(attributes)).skip(1),
{
    let text = |bytes: &[u8]| String::from_utf8_lossy(bytes).into_owned();
    match attributes.next() {
        None => None,
        Some(Ok(a)) => Some(RawAttribute::Pair(text(a.key.0), text(&a.value))),
        Some(Err(_)) => Some(RawAttribute::Malformed),
    }
}

/// Resolves the entity references of `raw`, once.
///
/// A text without `&` comes back unchanged; a reference that cannot be
/// resolved is an error.
pub fn unescape(raw: &str) -> (r: Result<String, DecodeError>)
    ensures
        match unescaped(raw@) {
            Some(text) => r is Ok && r.unwrap()@ == text,
            None => r == Err::<String, DecodeError>(DecodeError::Entity),
        },
        !raw@.contains('&') ==> r is Ok && r.unwrap()@ == raw@,
{
    match resolve_entities(raw) {
        Some(text) => Ok(text),
        None => Err(DecodeError::Entity),
    }
}

/// The events of `input`, in order.
pub fn read_events(input: &str) -> (events: Vec<RawEvent>)
    ensures
        events@.map_values(|e: RawEvent| e@) == document_events(input@),
{
    let mut reader = open_reader(input);
    let mut events: Vec<RawEvent> = Vec::new();
    let ghost all = document_events(input@);
    loop
        invariant
            all == document_events(input@),
            events@.map_values(|e: RawEvent| e@) + pending_events(reader) == all,
        ensures
            events@.map_values(|e: RawEvent| e@) == all,
        decreases pending_events(reader).len(),
    {
        let ghost before = pending_events(reader);
        let ghost done = events@.map_values(|e: RawEvent| e@);
        match next_event(&mut reader) {
            None => {
                assert(done + before =~= done);
                break ;
            },
            Some(event) => {
                events.push(event);
                assert(events@.map_values(|e: RawEvent| e@) =~= done.push(event@));
                assert(done.push(event@) + before.skip(1) =~= done + before);
            },
        }
    }
    events
}

/// The attributes that stand in the content of a tag, `pos` bytes into it, in order.
pub fn read_attributes(content: &str, pos: usize) -> (items: Vec<RawAttribute>)
    requires
        pos <= content.len(),
    ensures
        items@.map_values(|a: RawAttribute| a@) == tag_attributes(content@, pos as int),
{
    let mut attributes = open_attributes(content, pos);
    let mut items: Vec<RawAttribute> = Vec::new();
    let ghost all = tag_attributes(content@, pos as int);
    loop
        invariant
            items@.map_values(|a: RawAttribute| a@) + pending_attributes(attributes) == all,
        ensures
            items@.map_values(|a: RawAttribute| a@) == all,
        decreases pending_attributes(attributes).len(),
    {
        let ghost before = pending_attributes(attributes);
        let ghost done = items@.map_values(|a: RawAttribute| a@);
        match next_attribute(&mut attributes) {
            None => {
                assert(done + before =~= done);
                break ;
            },
            Some(item) => {
                items.push(item);
                assert(items@.map_values(|a: RawAttribute| a@) =~= done.push(item@));
                assert(done.push(item@) + before.skip(1) =~= done + before);
            },
        }
    }
    items
}

/// Unescaping leaves a text without entity references as it is, so a text
/// that was unescaped to such a text is not changed by a second pass.
pub proof fn law_unescape_plain_text(raw: Seq<char>)
    requires
        !raw.contains('&'),
    ensures
        unescaped(raw) == Some(raw),
{
}

} // verus!
