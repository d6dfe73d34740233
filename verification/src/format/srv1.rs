//! Timed text, version 1: a flat list of timed segments, with times in
//! seconds.
//!
//! A document is one root element whose `text` children are the segments.
//! The name of the root is not inspected, and whatever else stands in it is
//! passed over.

use crate::error::{outcome_view, DecodeError};
use crate::text::{float_literal, is_float_literal};
use crate::xml::fields::{
    attribute, attribute_value, children_named, leaf_text, read_children, required, text_of_leaf,
    FromXml,
};
use crate::xml::tree::{
    parse_document, root_of_document, XmlAttributeView, XmlElement, XmlElementView,
};
use vstd::prelude::*;

verus! {

/// A number of seconds, kept as the document spells it.
///
/// The spelling is that of a floating-point number, so it can always be
/// turned into one; the library itself does no arithmetic on it.
#[derive(Debug, PartialEq, Eq, Hash)]
pub struct Seconds {
    literal: String,
}

impl View for Seconds {
    type V = Seq<char>;

    closed spec fn view(&self) -> Seq<char> {
        self.literal@
    }
}

impl Clone for Seconds {
    fn clone(&self) -> (r: Seconds)
        ensures
            r@ == self@,
    {
        proof {
            use_type_invariant(self);
        }
        Seconds { literal: self.literal.clone() }
    }
}

impl Seconds {
    #[verifier::type_invariant]
    spec fn well_formed(self) -> bool {
        is_float_literal(self.literal@)
    }

    /// Takes `text` as a number of seconds, if it spells a floating-point
    /// number.
    pub fn parse(text: &str) -> (r: Option<Seconds>)
        ensures
            match r {
                Some(seconds) => is_float_literal(text@) && seconds@ == text@,
                None => !is_float_literal(text@),
            },
    {
        if float_literal(text) {
            Some(Seconds { literal: text.to_owned() })
        } else {
            None
        }
    }

    /// The spelling of the number.
    pub fn as_str(&self) -> (r: &str)
        ensures
            r@ == self@,
            is_float_literal(r@),
    {
        proof {
            use_type_invariant(self);
        }
        self.literal.as_str()
    }
}

/// An attribute that holds a number of seconds: absent, or its spelling.
pub open spec fn seconds_field(attributes: Seq<XmlAttributeView>, key: Seq<char>) -> Result<
    Option<Seq<char>>,
    DecodeError,
> {
    match attribute_value(attributes, key) {
        None => Ok(None),
        Some(text) => if is_float_literal(text) {
            Ok(Some(text))
        } else {
            Err(DecodeError::Number)
        },
    }
}

/// Reads a required attribute that holds a number of seconds.
pub fn read_seconds(e: &XmlElement, key: &str) -> (r: Result<Seconds, DecodeError>)
    ensures
        outcome_view(r) == required(seconds_field(e@.attributes, key@)),
{
    match attribute(e, key) {
        None => Err(DecodeError::MissingAttribute),
        Some(text) => match Seconds::parse(text.as_str()) {
            Some(seconds) => Ok(seconds),
            None => Err(DecodeError::Number),
        },
    }
}

/// A piece of text with the time at which it appears and the time it stays.
#[derive(Debug, Clone, PartialEq, Eq, Hash)]
pub struct TextSegment {
    pub start_secs: Seconds,
    pub duration_secs: Seconds,
    pub value: String,
}

/// The mathematical value of a [`TextSegment`].
pub struct TextSegmentView {
    pub start_secs: Seq<char>,
    pub duration_secs: Seq<char>,
    pub value: Seq<char>,
}

impl View for TextSegment {
    type V = TextSegmentView;

    open spec fn view(&self) -> TextSegmentView {
        TextSegmentView {
            start_secs: self.start_secs@,
            duration_secs: self.duration_secs@,
            value: self.value@,
        }
    }
}

impl TextSegment {
    /// The segment that a `text` element describes: `start` and `dur` are
    /// required, and the text is the character data of the element.
    pub open spec fn of_element(e: XmlElementView) -> Result<TextSegmentView, DecodeError> {
        let a = e.attributes;
        let start_secs = required(seconds_field(a, "start"@));
        let duration_secs = required(seconds_field(a, "dur"@));
        let value = leaf_text(e.children);
        if start_secs is Err {
            Err(start_secs->Err_0)
        } else if duration_secs is Err {
            Err(duration_secs->Err_0)
        } else if value is Err {
            Err(value->Err_0)
        } else {
            Ok(
                TextSegmentView {
                    start_secs: start_secs->Ok_0,
                    duration_secs: duration_secs->Ok_0,
                    value: value->Ok_0,
                },
            )
        }
    }

    /// Reads the segment out of an element. The attributes are read in the
    /// order of the fields, and the first part that fails decides the error.
    pub fn from_element(e: &XmlElement) -> (r: Result<TextSegment, DecodeError>)
        ensures
            outcome_view(r) == Self::of_element(e@),
    {
        let start_secs = read_seconds(e, "start")?;
        let duration_secs = read_seconds(e, "dur")?;
        let value = text_of_leaf(e)?;
        Ok(TextSegment { start_secs, duration_secs, value })
    }
}

impl FromXml for TextSegment {
    open spec fn xml_value(e: XmlElementView) -> Result<TextSegmentView, DecodeError> {
        TextSegment::of_element(e)
    }

    fn from_xml(e: &XmlElement) -> (r: Result<TextSegment, DecodeError>) {
        TextSegment::from_element(e)
    }
}

/// A decoded document: its segments in the order of the document.
#[derive(Debug, Clone, PartialEq, Eq, Hash)]
pub struct Transcript {
    pub segments: Vec<TextSegment>,
}

/// The mathematical value of a [`Transcript`].
pub struct TranscriptView {
    pub segments: Seq<TextSegmentView>,
}

impl View for Transcript {
    type V = TranscriptView;

    open spec fn view(&self) -> TranscriptView {
        TranscriptView { segments: self.segments@.map_values(|s: TextSegment| s@) }
    }
}

impl Transcript {
    /// The transcript that a root element describes: a segment for each of
    /// its `text` children. A root without segments is rejected.
    pub open spec fn of_element(root: XmlElementView) -> Result<TranscriptView, DecodeError> {
        match children_named::<TextSegment>(root.children, "text"@, 0, Seq::empty()) {
            Err(error) => Err(error),
            Ok(segments) => if segments.len() == 0 {
                Err(DecodeError::Structure)
            } else {
                Ok(TranscriptView { segments })
            },
        }
    }

    /// The transcript that a document describes.
    pub open spec fn of_document(input: Seq<char>) -> Result<TranscriptView, DecodeError> {
        match root_of_document(input) {
            Err(error) => Err(error),
            Ok(root) => Self::of_element(root),
        }
    }

    /// Reads the transcript out of the root element of a document.
    pub fn from_element(root: &XmlElement) -> (r: Result<Transcript, DecodeError>)
        ensures
            outcome_view(r) == Self::of_element(root@),
    {
        let segments = read_children::<TextSegment>(root, "text")?;
        if segments.len() == 0 {
            return Err(DecodeError::Structure);
        }
        Ok(Transcript { segments })
    }

    /// Decodes a document.
    pub fn decode(input: &str) -> (r: Result<Transcript, DecodeError>)
        ensures
            outcome_view(r) == Self::of_document(input@),
    {
        let root = parse_document(input)?;
        Self::from_element(&root)
    }
}

impl IntoIterator for Transcript {
    type Item = TextSegment;

    type IntoIter = std::vec::IntoIter<TextSegment>;

    fn into_iter(self) -> (r: std::vec::IntoIter<TextSegment>)
        ensures
            r == vstd::std_specs::vec::spec_into_iter(self.segments),
    {
        self.segments.into_iter()
    }
}

impl core::str::FromStr for Transcript {
    type Err = DecodeError;

    fn from_str(input: &str) -> (r: Result<Transcript, DecodeError>)
        ensures
            outcome_view(r) == Transcript::of_document(input@),
    {
        Transcript::decode(input)
    }
}

} // verus!
