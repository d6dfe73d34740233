//! The element tree of a document, built from its markup events.
//!
//! The tree holds resolved text: every entity reference in character data and
//! in attribute values is resolved once, on the way in.

use crate::error::{outcome_view, DecodeError};
use crate::xml::source::{
    read_attributes, read_events, tag_attributes, unescape, unescaped, document_events,
    RawAttribute, RawAttributeView, RawEvent, RawEventView,
};
use vstd::prelude::*;

verus! {

/// An attribute of an element.
#[derive(Debug, Clone, PartialEq, Eq)]
pub struct XmlAttribute {
    pub key: String,
    pub value: String,
}

/// An element with its attributes and what stands between its tags.
#[derive(Debug, PartialEq, Eq)]
pub struct XmlElement {
    pub name: String,
    pub attributes: Vec<XmlAttribute>,
    pub children: Vec<XmlNode>,
}

/// What can stand inside an element.
#[derive(Debug, PartialEq, Eq)]
pub enum XmlNode {
    Element(XmlElement),
    Text(String),
}

/// The mathematical value of an [`XmlAttribute`].
pub struct XmlAttributeView {
    pub key: Seq<char>,
    pub value: Seq<char>,
}

/// The mathematical value of an [`XmlElement`].
pub struct XmlElementView {
    pub name: Seq<char>,
    pub attributes: Seq<XmlAttributeView>,
    pub children: Seq<XmlNodeView>,
}

/// The mathematical value of a [`XmlNode`].
pub enum XmlNodeView {
    Element(XmlElementView),
    Text(Seq<char>),
}

impl View for XmlAttribute {
    type V = XmlAttributeView;

    open spec fn view(&self) -> XmlAttributeView {
        XmlAttributeView { key: self.key@, value: self.value@ }
    }
}

impl View for XmlElement {
    type V = XmlElementView;

    open spec fn view(&self) -> XmlElementView
        decreases self,
    {
        XmlElementView {
            name: self.name@,
            attributes: self.attributes@.map_values(|a: XmlAttribute| a@),
            children: Seq::new(
                self.children@.len(),
                |i: int|
                    if 0 <= i < self.children@.len() {
                        self.children@[i].view()
                    } else {
                        XmlNodeView::Text(Seq::empty())
                    },
            ),
        }
    }
}

impl View for XmlNode {
    type V = XmlNodeView;

    open spec fn view(&self) -> XmlNodeView
        decreases self,
    {
        match self {
            XmlNode::Element(e) => XmlNodeView::Element(e.view()),
            XmlNode::Text(t) => XmlNodeView::Text(t@),
        }
    }
}

/// The values of a list of nodes.
pub open spec fn nodes_view(nodes: Seq<XmlNode>) -> Seq<XmlNodeView> {
    Seq::new(nodes.len(), |i: int| nodes[i]@)
}

/// The values of a list of attributes.
pub open spec fn attributes_view(attributes: Seq<XmlAttribute>) -> Seq<XmlAttributeView> {
    attributes.map_values(|a: XmlAttribute| a@)
}

/// The number of bytes that a text takes in UTF-8, as `str::len` counts them.
pub open spec fn byte_len(text: Seq<char>) -> usize {
    vstd::utf8::encode_utf8(text).len() as usize
}

/// The attributes in `raw` from left to right, each value resolved, behind
/// those in `done`. The first broken attribute or unresolvable value decides
/// the error.
pub open spec fn resolve_attributes(
    raw: Seq<RawAttributeView>,
    done: Seq<XmlAttributeView>,
) -> Result<Seq<XmlAttributeView>, DecodeError>
    decreases raw.len(),
{
    if raw.len() == 0 {
        Ok(done)
    } else {
        match raw[0] {
            RawAttributeView::Malformed => Err(DecodeError::Markup),
            RawAttributeView::Pair(key, value) => match unescaped(value) {
                None => Err(DecodeError::Entity),
                Some(text) => resolve_attributes(
                    raw.skip(1),
                    done.push(XmlAttributeView { key, value: text }),
                ),
            },
        }
    }
}

/// The attributes of a tag whose name is `name` and whose content is `content`.
pub open spec fn attributes_of_tag(name: Seq<char>, content: Seq<char>) -> Result<
    Seq<XmlAttributeView>,
    DecodeError,
> {
    if byte_len(name) > byte_len(content) {
        Err(DecodeError::Markup)
    } else {
        resolve_attributes(tag_attributes(content, byte_len(name) as int), Seq::empty())
    }
}

/// How deep elements may stand in one another. The formats read here need
/// four levels; a document that goes deeper than this bound is rejected
/// rather than followed.
pub const MAX_DEPTH: usize = 64;

/// The nodes that the events from `pos` on describe, behind those in `done`,
/// up to the closing tag that ends them or to the end of the events; and the
/// index at which they end.
///
/// Comments, declarations and their like leave no node. Character data is
/// resolved; a `CDATA` section is taken as it is. An opening tag takes the
/// nodes up to its closing tag as its children, and the closing tag has to
/// repeat its name. `depth` says how many levels of children may still be
/// opened: an opening tag at depth zero is an error.
pub open spec fn siblings(
    events: Seq<RawEventView>,
    pos: int,
    done: Seq<XmlNodeView>,
    depth: nat,
) -> Result<(Seq<XmlNodeView>, int), DecodeError>
    decreases events.len() - pos,
{
    if pos < 0 || pos >= events.len() {
        Ok((done, pos))
    } else {
        match events[pos] {
            RawEventView::End(name) => Ok((done, pos)),
            RawEventView::Malformed => Err(DecodeError::Markup),
            RawEventView::Other => siblings(events, pos + 1, done, depth),
            RawEventView::Text(raw) => match unescaped(raw) {
                None => Err(DecodeError::Entity),
                Some(text) => siblings(
                    events,
                    pos + 1,
                    done.push(XmlNodeView::Text(text)),
                    depth,
                ),
            },
            RawEventView::CData(text) => siblings(
                events,
                pos + 1,
                done.push(XmlNodeView::Text(text)),
                depth,
            ),
            RawEventView::Empty(name, content) => match attributes_of_tag(name, content) {
                Err(e) => Err(e),
                Ok(attributes) => siblings(
                    events,
                    pos + 1,
                    done.push(
                        XmlNodeView::Element(
                            XmlElementView { name, attributes, children: Seq::empty() },
                        ),
                    ),
                    depth,
                ),
            },
            RawEventView::Start(name, content) => match attributes_of_tag(name, content) {
                Err(e) => Err(e),
                Ok(attributes) => if depth == 0 {
                    Err(DecodeError::Markup)
                } else {
                    match siblings(events, pos + 1, Seq::empty(), (depth - 1) as nat) {
                        Err(e) => Err(e),
                        Ok((children, end)) => if pos < end < events.len() && events[end]
                            == RawEventView::End(name) {
                            siblings(
                                events,
                                end + 1,
                                done.push(
                                    XmlNodeView::Element(
                                        XmlElementView { name, attributes, children },
                                    ),
                                ),
                                depth,
                            )
                        } else {
                            Err(DecodeError::Markup)
                        },
                    }
                },
            },
        }
    }
}

/// A blank: a space, a tab, a line feed or a carriage return.
pub open spec fn is_blank(c: char) -> bool {
    c == ' ' || c == '\t' || c == '\n' || c == '\r'
}

/// A text of blanks only.
pub open spec fn is_blank_text(text: Seq<char>) -> bool {
    forall|i: int| 0 <= i < text.len() ==> is_blank(#[trigger] text[i])
}

/// The single element among `nodes[i..]`, given what was `found` before `i`.
/// Two elements, none, or character data that is not blank make no root.
pub open spec fn single_element(
    nodes: Seq<XmlNodeView>,
    i: int,
    found: Option<XmlElementView>,
) -> Result<XmlElementView, DecodeError>
    decreases nodes.len() - i,
{
    if i < 0 || i >= nodes.len() {
        match found {
            Some(root) => Ok(root),
            None => Err(DecodeError::Markup),
        }
    } else {
        match nodes[i] {
            XmlNodeView::Text(text) => if is_blank_text(text) {
                single_element(nodes, i + 1, found)
            } else {
                Err(DecodeError::Markup)
            },
            XmlNodeView::Element(e) => if found is Some {
                Err(DecodeError::Markup)
            } else {
                single_element(nodes, i + 1, Some(e))
            },
        }
    }
}

/// The root element that a sequence of events describes.
///
/// The events have to describe one element, with nothing but blanks,
/// comments and declarations around it, every tag closed, and no element
/// more than `MAX_DEPTH` deep.
pub open spec fn root_of_events(events: Seq<RawEventView>) -> Result<XmlElementView, DecodeError> {
    match siblings(events, 0, Seq::empty(), MAX_DEPTH as nat) {
        Err(e) => Err(e),
        Ok((nodes, end)) => if end == events.len() {
            single_element(nodes, 0, None)
        } else {
            Err(DecodeError::Markup)
        },
    }
}

/// The root element of a document.
pub open spec fn root_of_document(input: Seq<char>) -> Result<XmlElementView, DecodeError> {
    root_of_events(document_events(input))
}

/// The values of a list of events.
pub open spec fn events_view(events: Seq<RawEvent>) -> Seq<RawEventView> {
    events.map_values(|e: RawEvent| e@)
}

/// Whether every character of `text` is a blank.
pub fn blank_text(text: &str) -> (r: bool)
    ensures
        r == is_blank_text(text@),
{
    let chars = crate::text::chars_of(text);
    let mut i: usize = 0;
    while i < chars.len()
        invariant
            chars@ == text@,
            i <= chars.len(),
            forall|j: int| 0 <= j < i ==> is_blank(#[trigger] chars@[j]),
        decreases chars.len() - i,
    {
        let c = chars[i];
        if !(c == ' ' || c == '\t' || c == '\n' || c == '\r') {
            return false;
        }
        i += 1;
    }
    true
}

/// Resolves the attributes of a tag from its name and its content.
pub fn attributes_from_tag(name: &str, content: &str) -> (r: Result<Vec<XmlAttribute>, DecodeError>)
    ensures
        match attributes_of_tag(name@, content@) {
            Ok(attributes) => r is Ok && attributes_view(r.unwrap()@) == attributes,
            Err(e) => r == Err::<Vec<XmlAttribute>, DecodeError>(e),
        },
{
    if name.len() > content.len() {
        return Err(DecodeError::Markup);
    }
    let raw = read_attributes(content, name.len());
    let ghost all = tag_attributes(content@, byte_len(name@) as int);
    let mut done: Vec<XmlAttribute> = Vec::new();
    let mut i: usize = 0;
    assert(all.skip(0) =~= all);
    assert(attributes_view(done@) =~= Seq::empty());
    while i < raw.len()
        invariant
            i <= raw.len(),
            byte_len(name@) <= byte_len(content@),
            all == tag_attributes(content@, byte_len(name@) as int),
            raw@.map_values(|a: RawAttribute| a@) == all,
            resolve_attributes(all, Seq::empty()) == resolve_attributes(
                all.skip(i as int),
                attributes_view(done@),
            ),
        decreases raw.len() - i,
    {
        let ghost rest = all.skip(i as int);
        assert(rest.len() > 0 && rest[0] == raw@[i as int]@);
        assert(rest.skip(1) =~= all.skip(i + 1));
        match &raw[i] {
            RawAttribute::Malformed => {
                return Err(DecodeError::Markup);
            },
            RawAttribute::Pair(key, value) => {
                let text = match unescape(value.as_str()) {
                    Ok(text) => text,
                    Err(e) => {
                        return Err(e);
                    },
                };
                let ghost before = attributes_view(done@);
                let attribute = XmlAttribute { key: key.clone(), value: text };
                done.push(attribute);
                assert(attributes_view(done@) =~= before.push(
                    XmlAttributeView { key: key@, value: text@ },
                ));
            },
        }
        i += 1;
    }
    assert(all.skip(raw.len() as int).len() == 0);
    Ok(done)
}

/// The value of an element is made of the values of its parts.
pub proof fn lemma_element_view(e: XmlElement)
    ensures
        e@.name == e.name@,
        e@.attributes == attributes_view(e.attributes@),
        e@.children == nodes_view(e.children@),
{
    assert(e@.children =~= nodes_view(e.children@));
}

/// Whether `event` is the closing tag of `name`.
fn closes(event: &RawEvent, name: &str) -> (r: bool)
    ensures
        r == (event@ == RawEventView::End(name@)),
{
    match event {
        RawEvent::End(found) => crate::text::same_text(found.as_str(), name),
        _ => false,
    }
}

/// Builds the nodes that the events from `pos` on describe, up to the closing
/// tag that ends them or to the end of the events, and says where they end.
/// Elements may be opened `depth` levels deep.
pub fn nodes_from_events(events: &Vec<RawEvent>, pos: usize, depth: usize) -> (r: Result<
    (Vec<XmlNode>, usize),
    DecodeError,
>)
    requires
        pos <= events.len(),
    ensures
        match siblings(events_view(events@), pos as int, Seq::empty(), depth as nat) {
            Ok((nodes, end)) => r is Ok && nodes_view(r.unwrap().0@) == nodes && r.unwrap().1
                == end,
            Err(e) => r == Err::<(Vec<XmlNode>, usize), DecodeError>(e),
        },
        r is Ok ==> pos <= r.unwrap().1 <= events.len(),
    decreases events.len() - pos,
{
    let ghost all = events_view(events@);
    let mut done: Vec<XmlNode> = Vec::new();
    let mut p: usize = pos;
    assert(nodes_view(done@) =~= Seq::empty());
    while p < events.len()
        invariant
            pos <= p <= events.len(),
            all == events_view(events@),
            siblings(all, pos as int, Seq::empty(), depth as nat) == siblings(
                all,
                p as int,
                nodes_view(done@),
                depth as nat,
            ),
        decreases events.len() - p,
    {
        let ghost before = nodes_view(done@);
        assert(all[p as int] == events@[p as int]@);
        match &events[p] {
            RawEvent::End(name) => {
                return Ok((done, p));
            },
            RawEvent::Malformed => {
                return Err(DecodeError::Markup);
            },
            RawEvent::Other => {
                p += 1;
            },
            RawEvent::Text(raw) => {
                let text = match unescape(raw.as_str()) {
                    Ok(text) => text,
                    Err(e) => {
                        return Err(e);
                    },
                };
                done.push(XmlNode::Text(text));
                assert(nodes_view(done@) =~= before.push(XmlNodeView::Text(text@)));
                p += 1;
            },
            RawEvent::CData(text) => {
                done.push(XmlNode::Text(text.clone()));
                assert(nodes_view(done@) =~= before.push(XmlNodeView::Text(text@)));
                p += 1;
            },
            RawEvent::Empty(name, content) => {
                let attributes = match attributes_from_tag(name.as_str(), content.as_str()) {
                    Ok(attributes) => attributes,
                    Err(e) => {
                        return Err(e);
                    },
                };
                let element = XmlElement { name: name.clone(), attributes, children: Vec::new() };
                proof {
                    lemma_element_view(element);
                    assert(nodes_view(element.children@) =~= Seq::empty());
                }
                done.push(XmlNode::Element(element));
                assert(nodes_view(done@) =~= before.push(XmlNodeView::Element(element@)));
                p += 1;
            },
            RawEvent::Start(name, content) => {
                let attributes = match attributes_from_tag(name.as_str(), content.as_str()) {
                    Ok(attributes) => attributes,
                    Err(e) => {
                        return Err(e);
                    },
                };
                if depth == 0 {
                    return Err(DecodeError::Markup);
                }
                let (children, end) = match nodes_from_events(events, p + 1, depth - 1) {
                    Ok(inner) => inner,
                    Err(e) => {
                        return Err(e);
                    },
                };
                if end < events.len() && closes(&events[end], name.as_str()) {
                    assert(all[end as int] == events@[end as int]@);
                    let element = XmlElement { name: name.clone(), attributes, children };
                    proof {
                        lemma_element_view(element);
                    }
                    done.push(XmlNode::Element(element));
                    assert(nodes_view(done@) =~= before.push(XmlNodeView::Element(element@)));
                    p = end + 1;
                } else {
                    proof {
                        if end < events.len() {
                            assert(all[end as int] == events@[end as int]@);
                        }
                    }
                    return Err(DecodeError::Markup);
                }
            },
        }
    }
    Ok((done, p))
}

/// The element that the scan for a root has met, if it has met one.
pub open spec fn met_element(nodes: Seq<XmlNodeView>, found: Option<usize>) -> Option<
    XmlElementView,
> {
    match found {
        Some(k) => match nodes[k as int] {
            XmlNodeView::Element(e) => Some(e),
            XmlNodeView::Text(_) => None,
        },
        None => None,
    }
}

/// Picks the single element out of the top-level nodes of a document.
pub fn root_from_nodes(nodes: Vec<XmlNode>) -> (r: Result<XmlElement, DecodeError>)
    ensures
        outcome_view(r) == single_element(nodes_view(nodes@), 0, None),
{
    let ghost all = nodes_view(nodes@);
    let mut found: Option<usize> = None;
    let mut i: usize = 0;
    while i < nodes.len()
        invariant
            i <= nodes.len(),
            all == nodes_view(nodes@),
            found matches Some(k) ==> k < i && nodes@[k as int] is Element,
            single_element(all, 0, None) == single_element(all, i as int, met_element(all, found)),
        decreases nodes.len() - i,
    {
        assert(all[i as int] == nodes@[i as int]@);
        match &nodes[i] {
            XmlNode::Text(text) => {
                if !blank_text(text.as_str()) {
                    return Err(DecodeError::Markup);
                }
            },
            XmlNode::Element(e) => {
                if found.is_some() {
                    assert(all[found.unwrap() as int] == nodes@[found.unwrap() as int]@);
                    return Err(DecodeError::Markup);
                }
                found = Some(i);
            },
        }
        i += 1;
    }
    match found {
        None => Err(DecodeError::Markup),
        Some(k) => {
            let mut nodes = nodes;
            assert(all[k as int] == nodes@[k as int]@);
            match nodes.remove(k) {
                XmlNode::Element(root) => Ok(root),
                XmlNode::Text(_) => Err(DecodeError::Markup),
            }
        },
    }
}

/// Builds the root element that a sequence of events describes.
pub fn root_from_events(events: &Vec<RawEvent>) -> (r: Result<XmlElement, DecodeError>)
    ensures
        outcome_view(r) == root_of_events(events_view(events@)),
{
    match nodes_from_events(events, 0, MAX_DEPTH) {
        Err(e) => Err(e),
        Ok((nodes, end)) => {
            if end == events.len() {
                root_from_nodes(nodes)
            } else {
                Err(DecodeError::Markup)
            }
        },
    }
}

/// Reads a document and builds its root element.
pub fn parse_document(input: &str) -> (r: Result<XmlElement, DecodeError>)
    ensures
        outcome_view(r) == root_of_document(input@),
{
    let events = read_events(input);
    assert(events_view(events@) =~= document_events(input@));
    root_from_events(&events)
}

/// Character data without entity references enters the tree as it is.
pub proof fn law_plain_character_data(
    events: Seq<RawEventView>,
    pos: int,
    done: Seq<XmlNodeView>,
    depth: nat,
    raw: Seq<char>,
)
    requires
        0 <= pos < events.len(),
        events[pos] == RawEventView::Text(raw),
        !raw.contains('&'),
    ensures
        siblings(events, pos, done, depth) == siblings(
            events,
            pos + 1,
            done.push(XmlNodeView::Text(raw)),
            depth,
        ),
{
}

} // verus!
