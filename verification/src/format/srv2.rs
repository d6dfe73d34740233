//! Timed text, version 2: a list of text segments and window definitions,
//! with times in milliseconds.
//!
//! A document is one root element whose children are `text` and `window`
//! elements. The name of the root is not inspected.

use crate::error::{outcome_view, DecodeError};
use crate::xml::fields::{
    code_field, default_to, flag_field, leaf_text, or_default, read_code, read_flag, read_text,
    read_u32, read_u8, require, required, text_field, text_of_leaf, u32_field, u8_field, Coded,
};
use crate::xml::tree::{
    is_blank_text, blank_text, lemma_element_view, nodes_view, parse_document,
    root_of_document, XmlElement, XmlElementView, XmlNode, XmlNodeView,
};
use crate::text::same_text;
use vstd::prelude::*;

verus! {


/// The point of a window that its position refers to.
///
/// <pre>
/// 0 ======== 1 ======== 2
/// |                     |
/// 3          4          5
/// |                     |
/// 6 ======== 7 ======== 8
/// </pre>
#[derive(Debug, Clone, Copy, PartialEq, Eq, PartialOrd, Ord, Hash, Structural)]
pub enum AnchorPoint {
    TopLeft,
    TopCenter,
    TopRight,
    CenterLeft,
    TrueCenter,
    CenterRight,
    BottomLeft,
    BottomCenter,
    BottomRight,
}

impl AnchorPoint {
    /// The number that stands for the member in a document.
    pub open spec fn spec_code(self) -> u8 {
        match self {
            AnchorPoint::TopLeft => 0,
            AnchorPoint::TopCenter => 1,
            AnchorPoint::TopRight => 2,
            AnchorPoint::CenterLeft => 3,
            AnchorPoint::TrueCenter => 4,
            AnchorPoint::CenterRight => 5,
            AnchorPoint::BottomLeft => 6,
            AnchorPoint::BottomCenter => 7,
            AnchorPoint::BottomRight => 8,
        }
    }

    /// The number that stands for the member in a document.
    pub fn code(self) -> (r: u8)
        ensures
            r == self.spec_code(),
            AnchorPoint::spec_from_code(r) == Some(self),
    {
        match self {
            AnchorPoint::TopLeft => 0,
            AnchorPoint::TopCenter => 1,
            AnchorPoint::TopRight => 2,
            AnchorPoint::CenterLeft => 3,
            AnchorPoint::TrueCenter => 4,
            AnchorPoint::CenterRight => 5,
            AnchorPoint::BottomLeft => 6,
            AnchorPoint::BottomCenter => 7,
            AnchorPoint::BottomRight => 8,
        }
    }

    /// Exactly the numbers from 0 to 8 stand for a member, each member
    /// stands for its own number, and every other number is rejected.
    pub proof fn law_codes(code: u8, member: Self)
        ensures
            Self::spec_from_code(code) is Some <==> code <= 8,
            Self::spec_from_code(member.spec_code()) == Some(member),
            Self::spec_from_code(code) == Some(member) ==> member.spec_code() == code,
    {
    }
}

impl Coded for AnchorPoint {
    open spec fn spec_from_code(code: u8) -> Option<Self> {
        if code == 0 {
            Some(AnchorPoint::TopLeft)
        } else if code == 1 {
            Some(AnchorPoint::TopCenter)
        } else if code == 2 {
            Some(AnchorPoint::TopRight)
        } else if code == 3 {
            Some(AnchorPoint::CenterLeft)
        } else if code == 4 {
            Some(AnchorPoint::TrueCenter)
        } else if code == 5 {
            Some(AnchorPoint::CenterRight)
        } else if code == 6 {
            Some(AnchorPoint::BottomLeft)
        } else if code == 7 {
            Some(AnchorPoint::BottomCenter)
        } else if code == 8 {
            Some(AnchorPoint::BottomRight)
        } else {
            None
        }
    }

    fn from_code(code: u8) -> (r: Option<Self>) {
        match code {
            0 => Some(AnchorPoint::TopLeft),
            1 => Some(AnchorPoint::TopCenter),
            2 => Some(AnchorPoint::TopRight),
            3 => Some(AnchorPoint::CenterLeft),
            4 => Some(AnchorPoint::TrueCenter),
            5 => Some(AnchorPoint::CenterRight),
            6 => Some(AnchorPoint::BottomLeft),
            7 => Some(AnchorPoint::BottomCenter),
            8 => Some(AnchorPoint::BottomRight),
            _ => None,
        }
    }
}

/// How the text of a window is aligned.
#[derive(Debug, Clone, Copy, PartialEq, Eq, PartialOrd, Ord, Hash, Structural)]
pub enum TextAlignment {
    /// Left, where the text runs from left to right
    Start,
    /// Right, where the text runs from left to right
    Eng,
    Center,
    Justify,
}

impl TextAlignment {
    /// The number that stands for the member in a document.
    pub open spec fn spec_code(self) -> u8 {
        match self {
            TextAlignment::Start => 0,
            TextAlignment::Eng => 1,
            TextAlignment::Center => 2,
            TextAlignment::Justify => 3,
        }
    }

    /// The number that stands for the member in a document.
    pub fn code(self) -> (r: u8)
        ensures
            r == self.spec_code(),
            TextAlignment::spec_from_code(r) == Some(self),
    {
        match self {
            TextAlignment::Start => 0,
            TextAlignment::Eng => 1,
            TextAlignment::Center => 2,
            TextAlignment::Justify => 3,
        }
    }

    /// Exactly the numbers from 0 to 3 stand for a member, each member
    /// stands for its own number, and every other number is rejected.
    pub proof fn law_codes(code: u8, member: Self)
        ensures
            Self::spec_from_code(code) is Some <==> code <= 3,
            Self::spec_from_code(member.spec_code()) == Some(member),
            Self::spec_from_code(code) == Some(member) ==> member.spec_code() == code,
    {
    }
}

impl Coded for TextAlignment {
    open spec fn spec_from_code(code: u8) -> Option<Self> {
        if code == 0 {
            Some(TextAlignment::Start)
        } else if code == 1 {
            Some(TextAlignment::Eng)
        } else if code == 2 {
            Some(TextAlignment::Center)
        } else if code == 3 {
            Some(TextAlignment::Justify)
        } else {
            None
        }
    }

    fn from_code(code: u8) -> (r: Option<Self>) {
        match code {
            0 => Some(TextAlignment::Start),
            1 => Some(TextAlignment::Eng),
            2 => Some(TextAlignment::Center),
            3 => Some(TextAlignment::Justify),
            _ => None,
        }
    }
}

/// The direction in which text is laid out.
#[derive(Debug, Clone, Copy, PartialEq, Eq, PartialOrd, Ord, Hash, Structural)]
pub enum PrintDirection {
    LtrHorizontal,
    RtlHorizontal,
    /// Upright text: the glyphs of vertical scripts stand as they are, and so do
    /// the characters of horizontal scripts
    VerticalLtr,
    /// Sideways text: the characters are laid out as in a horizontal line, and
    /// the whole line is turned by a quarter clockwise
    VerticalRtl,
}

impl PrintDirection {
    /// The number that stands for the member in a document.
    pub open spec fn spec_code(self) -> u8 {
        match self {
            PrintDirection::LtrHorizontal => 0,
            PrintDirection::RtlHorizontal => 1,
            PrintDirection::VerticalLtr => 2,
            PrintDirection::VerticalRtl => 3,
        }
    }

    /// The number that stands for the member in a document.
    pub fn code(self) -> (r: u8)
        ensures
            r == self.spec_code(),
            PrintDirection::spec_from_code(r) == Some(self),
    {
        match self {
            PrintDirection::LtrHorizontal => 0,
            PrintDirection::RtlHorizontal => 1,
            PrintDirection::VerticalLtr => 2,
            PrintDirection::VerticalRtl => 3,
        }
    }

    /// Exactly the numbers from 0 to 3 stand for a member, each member
    /// stands for its own number, and every other number is rejected.
    pub proof fn law_codes(code: u8, member: Self)
        ensures
            Self::spec_from_code(code) is Some <==> code <= 3,
            Self::spec_from_code(member.spec_code()) == Some(member),
            Self::spec_from_code(code) == Some(member) ==> member.spec_code() == code,
    {
    }
}

impl Coded for PrintDirection {
    open spec fn spec_from_code(code: u8) -> Option<Self> {
        if code == 0 {
            Some(PrintDirection::LtrHorizontal)
        } else if code == 1 {
            Some(PrintDirection::RtlHorizontal)
        } else if code == 2 {
            Some(PrintDirection::VerticalLtr)
        } else if code == 3 {
            Some(PrintDirection::VerticalRtl)
        } else {
            None
        }
    }

    fn from_code(code: u8) -> (r: Option<Self>) {
        match code {
            0 => Some(PrintDirection::LtrHorizontal),
            1 => Some(PrintDirection::RtlHorizontal),
            2 => Some(PrintDirection::VerticalLtr),
            3 => Some(PrintDirection::VerticalRtl),
            _ => None,
        }
    }
}

impl Default for PrintDirection {
    fn default() -> (r: PrintDirection)
        ensures
            r == PrintDirection::LtrHorizontal,
    {
        PrintDirection::LtrHorizontal
    }
}

/// The direction in which the text of a window scrolls.
#[derive(Debug, Clone, Copy, PartialEq, Eq, PartialOrd, Ord, Hash, Structural)]
pub enum ScrollDirection {
    LTR,
    RTL,
}

impl ScrollDirection {
    /// The number that stands for the member in a document.
    pub open spec fn spec_code(self) -> u8 {
        match self {
            ScrollDirection::LTR => 0,
            ScrollDirection::RTL => 1,
        }
    }

    /// The number that stands for the member in a document.
    pub fn code(self) -> (r: u8)
        ensures
            r == self.spec_code(),
            ScrollDirection::spec_from_code(r) == Some(self),
    {
        match self {
            ScrollDirection::LTR => 0,
            ScrollDirection::RTL => 1,
        }
    }

    /// Exactly the numbers from 0 to 1 stand for a member, each member
    /// stands for its own number, and every other number is rejected.
    pub proof fn law_codes(code: u8, member: Self)
        ensures
            Self::spec_from_code(code) is Some <==> code <= 1,
            Self::spec_from_code(member.spec_code()) == Some(member),
            Self::spec_from_code(code) == Some(member) ==> member.spec_code() == code,
    {
    }
}

impl Coded for ScrollDirection {
    open spec fn spec_from_code(code: u8) -> Option<Self> {
        if code == 0 {
            Some(ScrollDirection::LTR)
        } else if code == 1 {
            Some(ScrollDirection::RTL)
        } else {
            None
        }
    }

    fn from_code(code: u8) -> (r: Option<Self>) {
        match code {
            0 => Some(ScrollDirection::LTR),
            1 => Some(ScrollDirection::RTL),
            _ => None,
        }
    }
}

impl Default for ScrollDirection {
    fn default() -> (r: ScrollDirection)
        ensures
            r == ScrollDirection::LTR,
    {
        ScrollDirection::LTR
    }
}

/// A piece of text with the time at which it appears.
#[derive(Debug, Clone, PartialEq, Eq, PartialOrd, Ord, Hash)]
pub struct TextSegment {
    pub timestamp_millis: u32,
    pub duration_millis: u32,
    pub append: bool,
    /// An attribute whose meaning is not known.
    pub r: u32,
    /// An attribute whose meaning is not known.
    pub c: u32,
    pub value: String,
}

/// The mathematical value of a [`TextSegment`].
pub struct TextSegmentView {
    pub timestamp_millis: u32,
    pub duration_millis: u32,
    pub append: bool,
    pub r: u32,
    pub c: u32,
    pub value: Seq<char>,
}

impl View for TextSegment {
    type V = TextSegmentView;

    open spec fn view(&self) -> TextSegmentView {
        TextSegmentView {
            timestamp_millis: self.timestamp_millis,
            duration_millis: self.duration_millis,
            append: self.append,
            r: self.r,
            c: self.c,
            value: self.value@,
        }
    }
}

impl TextSegment {
    /// The segment that a `text` element describes: `t` is required, `d`,
    /// `append`, `r` and `c` default to zero and to a cleared flag, and the text
    /// is the character data of the element.
    pub open spec fn of_element(e: XmlElementView) -> Result<TextSegmentView, DecodeError> {
        let a = e.attributes;
        let timestamp_millis = required(u32_field(a, "t"@));
        let duration_millis = or_default(u32_field(a, "d"@), 0);
        let append = or_default(flag_field(a, "append"@), false);
        let r = or_default(u32_field(a, "r"@), 0);
        let c = or_default(u32_field(a, "c"@), 0);
        let value = leaf_text(e.children);
        if timestamp_millis is Err {
            Err(timestamp_millis->Err_0)
        } else if duration_millis is Err {
            Err(duration_millis->Err_0)
        } else if append is Err {
            Err(append->Err_0)
        } else if r is Err {
            Err(r->Err_0)
        } else if c is Err {
            Err(c->Err_0)
        } else if value is Err {
            Err(value->Err_0)
        } else {
            Ok(
                TextSegmentView {
                    timestamp_millis: timestamp_millis->Ok_0,
                    duration_millis: duration_millis->Ok_0,
                    append: append->Ok_0,
                    r: r->Ok_0,
                    c: c->Ok_0,
                    value: value->Ok_0,
                },
            )
        }
    }

    /// Reads the value out of an element. The attributes are read in the
    /// order of the fields, and the first that fails decides the error.
    pub fn from_element(e: &XmlElement) -> (r: Result<TextSegment, DecodeError>)
        ensures
            outcome_view(r) == Self::of_element(e@),
    {
        let timestamp_millis = require(read_u32(e, "t"))?;
        let duration_millis = default_to(read_u32(e, "d"), 0)?;
        let append = default_to(read_flag(e, "append"), false)?;
        let r = default_to(read_u32(e, "r"), 0)?;
        let c = default_to(read_u32(e, "c"), 0)?;
        let value = text_of_leaf(e)?;
        Ok(TextSegment { timestamp_millis, duration_millis, append, r, c, value })
    }
}

/// The definition of a window: a region of the screen that text is shown in.
#[derive(Debug, Clone, PartialEq, Eq, PartialOrd, Ord, Hash)]
pub struct Window {
    pub id: u32,
    /// What is done to the window, such as `define`
    pub operation: String,
    pub timestamp_millis: u32,
    pub anchor_point: AnchorPoint,
    /// X from the left
    pub horizontal_alignment: u32,
    /// Y from the top
    pub vertical_alignment: u32,
    pub rows_total: u8,
    /// Each column is as wide as an en dash
    pub columns_total: u8,
    pub scroll_direction: ScrollDirection,
    pub print_direction: PrintDirection,
    pub text_alignment: TextAlignment,
}

/// The mathematical value of a [`Window`].
pub struct WindowView {
    pub id: u32,
    pub operation: Seq<char>,
    pub timestamp_millis: u32,
    pub anchor_point: AnchorPoint,
    pub horizontal_alignment: u32,
    pub vertical_alignment: u32,
    pub rows_total: u8,
    pub columns_total: u8,
    pub scroll_direction: ScrollDirection,
    pub print_direction: PrintDirection,
    pub text_alignment: TextAlignment,
}

impl View for Window {
    type V = WindowView;

    open spec fn view(&self) -> WindowView {
        WindowView {
            id: self.id,
            operation: self.operation@,
            timestamp_millis: self.timestamp_millis,
            anchor_point: self.anchor_point,
            horizontal_alignment: self.horizontal_alignment,
            vertical_alignment: self.vertical_alignment,
            rows_total: self.rows_total,
            columns_total: self.columns_total,
            scroll_direction: self.scroll_direction,
            print_direction: self.print_direction,
            text_alignment: self.text_alignment,
        }
    }
}

impl Window {
    /// The window that a `window` element describes. Every attribute but `pd`
    /// is required.
    pub open spec fn of_element(e: XmlElementView) -> Result<WindowView, DecodeError> {
        let a = e.attributes;
        let id = required(u32_field(a, "id"@));
        let operation = required(text_field(a, "op"@));
        let timestamp_millis = required(u32_field(a, "t"@));
        let anchor_point = required(code_field::<AnchorPoint>(a, "ap"@));
        let horizontal_alignment = required(u32_field(a, "ah"@));
        let vertical_alignment = required(u32_field(a, "av"@));
        let rows_total = required(u8_field(a, "rc"@));
        let columns_total = required(u8_field(a, "cc"@));
        let scroll_direction = required(code_field::<ScrollDirection>(a, "sd"@));
        let print_direction = or_default(
            code_field::<PrintDirection>(a, "pd"@),
            PrintDirection::LtrHorizontal,
        );
        let text_alignment = required(code_field::<TextAlignment>(a, "ju"@));
        if id is Err {
            Err(id->Err_0)
        } else if operation is Err {
            Err(operation->Err_0)
        } else if timestamp_millis is Err {
            Err(timestamp_millis->Err_0)
        } else if anchor_point is Err {
            Err(anchor_point->Err_0)
        } else if horizontal_alignment is Err {
            Err(horizontal_alignment->Err_0)
        } else if vertical_alignment is Err {
            Err(vertical_alignment->Err_0)
        } else if rows_total is Err {
            Err(rows_total->Err_0)
        } else if columns_total is Err {
            Err(columns_total->Err_0)
        } else if scroll_direction is Err {
            Err(scroll_direction->Err_0)
        } else if print_direction is Err {
            Err(print_direction->Err_0)
        } else if text_alignment is Err {
            Err(text_alignment->Err_0)
        } else {
            Ok(
                WindowView {
                    id: id->Ok_0,
                    operation: operation->Ok_0,
                    timestamp_millis: timestamp_millis->Ok_0,
                    anchor_point: anchor_point->Ok_0,
                    horizontal_alignment: horizontal_alignment->Ok_0,
                    vertical_alignment: vertical_alignment->Ok_0,
                    rows_total: rows_total->Ok_0,
                    columns_total: columns_total->Ok_0,
                    scroll_direction: scroll_direction->Ok_0,
                    print_direction: print_direction->Ok_0,
                    text_alignment: text_alignment->Ok_0,
                },
            )
        }
    }

    /// Reads the value out of an element. The attributes are read in the
    /// order of the fields, and the first that fails decides the error.
    pub fn from_element(e: &XmlElement) -> (r: Result<Window, DecodeError>)
        ensures
            outcome_view(r) == Self::of_element(e@),
    {
        let id = require(read_u32(e, "id"))?;
        let operation = match read_text(e, "op") {
            Some(text) => text,
            None => {
                return Err(DecodeError::MissingAttribute);
            },
        };
        let timestamp_millis = require(read_u32(e, "t"))?;
        let anchor_point = require(read_code::<AnchorPoint>(e, "ap"))?;
        let horizontal_alignment = require(read_u32(e, "ah"))?;
        let vertical_alignment = require(read_u32(e, "av"))?;
        let rows_total = require(read_u8(e, "rc"))?;
        let columns_total = require(read_u8(e, "cc"))?;
        let scroll_direction = require(read_code::<ScrollDirection>(e, "sd"))?;
        let print_direction = default_to(
            read_code::<PrintDirection>(e, "pd"),
            PrintDirection::LtrHorizontal,
        )?;
        let text_alignment = require(read_code::<TextAlignment>(e, "ju"))?;
        Ok(
            Window {
                id,
                operation,
                timestamp_millis,
                anchor_point,
                horizontal_alignment,
                vertical_alignment,
                rows_total,
                columns_total,
                scroll_direction,
                print_direction,
                text_alignment,
            },
        )
    }

    /// An element with a code outside its enumeration describes no value:
    /// the decoder fails, and puts no other member in the place of the code.
    pub proof fn law_bad_code_is_rejected(e: XmlElementView)
        requires
            code_field::<AnchorPoint>(e.attributes, "ap"@) is Err
                || code_field::<ScrollDirection>(e.attributes, "sd"@) is Err
                || code_field::<PrintDirection>(e.attributes, "pd"@) is Err
                || code_field::<TextAlignment>(e.attributes, "ju"@) is Err,
        ensures
            Self::of_element(e) is Err,
    {
    }
}

/// An entry of a transcript.
#[derive(Debug, Clone, PartialEq, Eq, PartialOrd, Ord, Hash)]
pub enum Element {
    Text(TextSegment),
    Window(Window),
}

/// The mathematical value of an [`Element`].
pub enum ElementView {
    Text(TextSegmentView),
    Window(WindowView),
}

impl View for Element {
    type V = ElementView;

    open spec fn view(&self) -> ElementView {
        match self {
            Element::Text(segment) => ElementView::Text(segment@),
            Element::Window(window) => ElementView::Window(window@),
        }
    }
}

impl Element {
    /// The entry that an element describes: a segment for `text`, a window
    /// for `window`. An element of another name is not part of the format.
    pub open spec fn of_element(e: XmlElementView) -> Result<ElementView, DecodeError> {
        if e.name == "text"@ {
            match TextSegment::of_element(e) {
                Ok(segment) => Ok(ElementView::Text(segment)),
                Err(error) => Err(error),
            }
        } else if e.name == "window"@ {
            match Window::of_element(e) {
                Ok(window) => Ok(ElementView::Window(window)),
                Err(error) => Err(error),
            }
        } else {
            Err(DecodeError::Structure)
        }
    }

    /// Reads the entry out of an element.
    pub fn from_element(e: &XmlElement) -> (r: Result<Element, DecodeError>)
        ensures
            outcome_view(r) == Self::of_element(e@),
    {
        proof {
            lemma_element_view(*e);
        }
        if same_text(e.name.as_str(), "text") {
            Ok(Element::Text(TextSegment::from_element(e)?))
        } else if same_text(e.name.as_str(), "window") {
            Ok(Element::Window(Window::from_element(e)?))
        } else {
            Err(DecodeError::Structure)
        }
    }
}

/// The values of a list of entries.
pub open spec fn elements_view(elements: Seq<Element>) -> Seq<ElementView> {
    elements.map_values(|e: Element| e@)
}

/// The entries that `nodes[i..]` describe, behind those in `done`. Blank
/// character data between the elements is passed over; other character data
/// is not part of the format.
pub open spec fn entries(nodes: Seq<XmlNodeView>, i: int, done: Seq<ElementView>) -> Result<
    Seq<ElementView>,
    DecodeError,
>
    decreases nodes.len() - i,
{
    if i < 0 || i >= nodes.len() {
        Ok(done)
    } else {
        match nodes[i] {
            XmlNodeView::Text(text) => if is_blank_text(text) {
                entries(nodes, i + 1, done)
            } else {
                Err(DecodeError::Structure)
            },
            XmlNodeView::Element(e) => match Element::of_element(e) {
                Err(error) => Err(error),
                Ok(entry) => entries(nodes, i + 1, done.push(entry)),
            },
        }
    }
}

/// A node that may stand among the entries: blank character data, or an
/// element that describes an entry.
pub open spec fn is_entry_or_blank(node: XmlNodeView) -> bool {
    match node {
        XmlNodeView::Text(text) => is_blank_text(text),
        XmlNodeView::Element(e) => Element::of_element(e) is Ok,
    }
}

/// The entries are read exactly where every node may stand among them.
pub proof fn law_entries_are_owed(nodes: Seq<XmlNodeView>, i: int, done: Seq<ElementView>)
    requires
        0 <= i <= nodes.len(),
    ensures
        entries(nodes, i, done) is Ok <==> forall|k: int|
            i <= k < nodes.len() ==> is_entry_or_blank(#[trigger] nodes[k]),
    decreases nodes.len() - i,
{
    if i < nodes.len() {
        match nodes[i] {
            XmlNodeView::Text(text) => {
                if is_blank_text(text) {
                    law_entries_are_owed(nodes, i + 1, done);
                } else {
                    assert(!is_entry_or_blank(nodes[i]));
                }
            },
            XmlNodeView::Element(e) => {
                match Element::of_element(e) {
                    Ok(entry) => law_entries_are_owed(nodes, i + 1, done.push(entry)),
                    Err(_) => {
                        assert(!is_entry_or_blank(nodes[i]));
                    },
                }
            },
        }
    }
}

/// One element that describes no entry fails the whole list.
pub proof fn law_failing_entry(nodes: Seq<XmlNodeView>, i: int, done: Seq<ElementView>, k: int)
    requires
        0 <= i <= k < nodes.len(),
        nodes[k] matches XmlNodeView::Element(e) && Element::of_element(e) is Err,
    ensures
        entries(nodes, i, done) is Err,
    decreases k - i,
{
    if i < k {
        match nodes[i] {
            XmlNodeView::Text(text) => {
                if is_blank_text(text) {
                    law_failing_entry(nodes, i + 1, done, k);
                }
            },
            XmlNodeView::Element(e) => {
                match Element::of_element(e) {
                    Ok(entry) => law_failing_entry(nodes, i + 1, done.push(entry), k),
                    Err(_) => {},
                }
            },
        }
    }
}

/// A decoded document: its entries in the order of the document.
#[derive(Debug, Clone, PartialEq, Eq, PartialOrd, Ord, Hash)]
pub struct Transcript {
    pub elements: Vec<Element>,
}

/// The mathematical value of a [`Transcript`].
pub struct TranscriptView {
    pub elements: Seq<ElementView>,
}

impl View for Transcript {
    type V = TranscriptView;

    open spec fn view(&self) -> TranscriptView {
        TranscriptView { elements: elements_view(self.elements@) }
    }
}

impl Transcript {
    /// The transcript that a root element describes. A root without entries
    /// is rejected.
    pub open spec fn of_element(root: XmlElementView) -> Result<TranscriptView, DecodeError> {
        match entries(root.children, 0, Seq::empty()) {
            Err(error) => Err(error),
            Ok(elements) => if elements.len() == 0 {
                Err(DecodeError::Structure)
            } else {
                Ok(TranscriptView { elements })
            },
        }
    }

    /// The transcript that a document describes.
    pub open spec fn of_document(input: Seq<char>) -> Result<TranscriptView, DecodeError> {
        match root_of_document(input) {
            Err(error) => Err(error),
            Ok(root) => Self::of_element(root),
        }
    }

    /// A document in which one window carries a code outside its
    /// enumeration is rejected as a whole.
    pub proof fn law_bad_code_fails_document(root: XmlElementView, k: int)
        requires
            0 <= k < root.children.len(),
            root.children[k] matches XmlNodeView::Element(e) && e.name == "window"@ && (
            code_field::<AnchorPoint>(e.attributes, "ap"@) is Err || code_field::<
                ScrollDirection,
            >(e.attributes, "sd"@) is Err || code_field::<PrintDirection>(e.attributes, "pd"@)
                is Err || code_field::<TextAlignment>(e.attributes, "ju"@) is Err),
        ensures
            Self::of_element(root) is Err,
    {
        let e = root.children[k]->Element_0;
        reveal_strlit("window");
        reveal_strlit("text");
        assert("window"@ != "text"@) by {
            assert("window"@.len() != "text"@.len());
        }
        Window::law_bad_code_is_rejected(e);
        law_failing_entry(root.children, 0, Seq::empty(), k);
    }

    /// Reads the transcript out of the root element of a document.
    pub fn from_element(root: &XmlElement) -> (r: Result<Transcript, DecodeError>)
        ensures
            outcome_view(r) == Self::of_element(root@),
    {
        let ghost all = root@.children;
        proof {
            lemma_element_view(*root);
        }
        let mut elements: Vec<Element> = Vec::new();
        let mut i: usize = 0;
        assert(elements_view(elements@) =~= Seq::empty());
        while i < root.children.len()
            invariant
                i <= root.children.len(),
                all == root@.children,
                all == nodes_view(root.children@),
                entries(all, 0, Seq::empty()) == entries(all, i as int, elements_view(elements@)),
            decreases root.children.len() - i,
        {
            assert(all[i as int] == root.children@[i as int]@);
            match &root.children[i] {
                XmlNode::Text(text) => {
                    if !blank_text(text.as_str()) {
                        return Err(DecodeError::Structure);
                    }
                },
                XmlNode::Element(e) => {
                    let entry = Element::from_element(e)?;
                    let ghost before = elements_view(elements@);
                    elements.push(entry);
                    assert(elements_view(elements@) =~= before.push(entry@));
                },
            }
            i += 1;
        }
        if elements.len() == 0 {
            return Err(DecodeError::Structure);
        }
        Ok(Transcript { elements })
    }

    /// Decodes a document.
    pub fn decode(input: &str) -> (r: Result<Transcript, DecodeError>)
        ensures
            outcome_view(r) == Self::of_document(input@),
    {
        let root = parse_document(input)?;
        Self::from_element(&root)
    }
}

impl core::str::FromStr for Transcript {
    type Err = DecodeError;

    fn from_str(input: &str) -> (r: Result<Transcript, DecodeError>)
        ensures
            outcome_view(r) == Transcript::of_document(input@),
    {
        Transcript::decode(input)
    }
}

} // verus!
