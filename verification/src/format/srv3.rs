//! Timed text, version 3: styled text over pens and windows.
//!
//! A document has a head, which defines pens, window styles and window
//! positions under numbers of their own, and a body, whose paragraphs and
//! windows refer to them by number. The decoder hands the numbers on as they
//! are: whether a pen or a window of that number exists is for the caller to
//! find out.

use crate::error::{outcome_view, DecodeError};
use crate::text::same_text;
use crate::xml::fields::{
    children_named, code_field, default_to, find_only_child, flag_field, law_failing_child,
    leaf_text, only_child,
    or_default, read_children, read_code, read_flag, read_text, read_u32, read_u8, require,
    required, text_field, text_of_leaf, text_option_view, u32_field, u8_field, Coded, FromXml,
};
use crate::xml::tree::{
    blank_text, is_blank_text, lemma_element_view, nodes_view, parse_document,
    root_of_document, XmlElement, XmlElementView, XmlNode, XmlNodeView,
};
use vstd::prelude::*;

verus! {


/// The point of a window that its position refers to.
///
/// <pre>
/// 0 ======== 1 ======== 2
/// |                     |
/// 3          4          5
/// |                     |
/// 6 ======== 7 ======== 8
/// </pre>
#[derive(Debug, Clone, Copy, PartialEq, Eq, PartialOrd, Ord, Hash, Structural)]
pub enum AnchorPoint {
    TopLeft,
    Top,
    TopRight,
    Left,
    Center,
    Right,
    BottomLeft,
    Bottom,
    BottomRight,
}

impl AnchorPoint {
    /// The number that stands for the member in a document.
    pub open spec fn spec_code(self) -> u8 {
        match self {
            AnchorPoint::TopLeft => 0,
            AnchorPoint::Top => 1,
            AnchorPoint::TopRight => 2,
            AnchorPoint::Left => 3,
            AnchorPoint::Center => 4,
            AnchorPoint::Right => 5,
            AnchorPoint::BottomLeft => 6,
            AnchorPoint::Bottom => 7,
            AnchorPoint::BottomRight => 8,
        }
    }

    /// The number that stands for the member in a document.
    pub fn code(self) -> (r: u8)
        ensures
            r == self.spec_code(),
            AnchorPoint::spec_from_code(r) == Some(self),
    {
        match self {
            AnchorPoint::TopLeft => 0,
            AnchorPoint::Top => 1,
            AnchorPoint::TopRight => 2,
            AnchorPoint::Left => 3,
            AnchorPoint::Center => 4,
            AnchorPoint::Right => 5,
            AnchorPoint::BottomLeft => 6,
            AnchorPoint::Bottom => 7,
            AnchorPoint::BottomRight => 8,
        }
    }

    /// Exactly the numbers from 0 to 8 stand for a member, each member
    /// stands for its own number, and every other number is rejected.
    pub proof fn law_codes(code: u8, member: Self)
        ensures
            Self::spec_from_code(code) is Some <==> code <= 8,
            Self::spec_from_code(member.spec_code()) == Some(member),
            Self::spec_from_code(code) == Some(member) ==> member.spec_code() == code,
    {
    }
}

impl Coded for AnchorPoint {
    open spec fn spec_from_code(code: u8) -> Option<Self> {
        if code == 0 {
            Some(AnchorPoint::TopLeft)
        } else if code == 1 {
            Some(AnchorPoint::Top)
        } else if code == 2 {
            Some(AnchorPoint::TopRight)
        } else if code == 3 {
            Some(AnchorPoint::Left)
        } else if code == 4 {
            Some(AnchorPoint::Center)
        } else if code == 5 {
            Some(AnchorPoint::Right)
        } else if code == 6 {
            Some(AnchorPoint::BottomLeft)
        } else if code == 7 {
            Some(AnchorPoint::Bottom)
        } else if code == 8 {
            Some(AnchorPoint::BottomRight)
        } else {
            None
        }
    }

    fn from_code(code: u8) -> (r: Option<Self>) {
        match code {
            0 => Some(AnchorPoint::TopLeft),
            1 => Some(AnchorPoint::Top),
            2 => Some(AnchorPoint::TopRight),
            3 => Some(AnchorPoint::Left),
            4 => Some(AnchorPoint::Center),
            5 => Some(AnchorPoint::Right),
            6 => Some(AnchorPoint::BottomLeft),
            7 => Some(AnchorPoint::Bottom),
            8 => Some(AnchorPoint::BottomRight),
            _ => None,
        }
    }
}

/// The direction in which text is laid out.
#[derive(Debug, Clone, Copy, PartialEq, Eq, PartialOrd, Ord, Hash, Structural)]
pub enum PrintDirection {
    LtrHorizontal,
    RtlHorizontal,
    /// Upright text: the glyphs of vertical scripts stand as they are, and so do
    /// the characters of horizontal scripts
    VerticalLtr,
    /// Sideways text: the characters are laid out as in a horizontal line, and
    /// the whole line is turned by a quarter clockwise
    VerticalRtl,
}

impl PrintDirection {
    /// The number that stands for the member in a document.
    pub open spec fn spec_code(self) -> u8 {
        match self {
            PrintDirection::LtrHorizontal => 0,
            PrintDirection::RtlHorizontal => 1,
            PrintDirection::VerticalLtr => 2,
            PrintDirection::VerticalRtl => 3,
        }
    }

    /// The number that stands for the member in a document.
    pub fn code(self) -> (r: u8)
        ensures
            r == self.spec_code(),
            PrintDirection::spec_from_code(r) == Some(self),
    {
        match self {
            PrintDirection::LtrHorizontal => 0,
            PrintDirection::RtlHorizontal => 1,
            PrintDirection::VerticalLtr => 2,
            PrintDirection::VerticalRtl => 3,
        }
    }

    /// Exactly the numbers from 0 to 3 stand for a member, each member
    /// stands for its own number, and every other number is rejected.
    pub proof fn law_codes(code: u8, member: Self)
        ensures
            Self::spec_from_code(code) is Some <==> code <= 3,
            Self::spec_from_code(member.spec_code()) == Some(member),
            Self::spec_from_code(code) == Some(member) ==> member.spec_code() == code,
    {
    }
}

impl Coded for PrintDirection {
    open spec fn spec_from_code(code: u8) -> Option<Self> {
        if code == 0 {
            Some(PrintDirection::LtrHorizontal)
        } else if code == 1 {
            Some(PrintDirection::RtlHorizontal)
        } else if code == 2 {
            Some(PrintDirection::VerticalLtr)
        } else if code == 3 {
            Some(PrintDirection::VerticalRtl)
        } else {
            None
        }
    }

    fn from_code(code: u8) -> (r: Option<Self>) {
        match code {
            0 => Some(PrintDirection::LtrHorizontal),
            1 => Some(PrintDirection::RtlHorizontal),
            2 => Some(PrintDirection::VerticalLtr),
            3 => Some(PrintDirection::VerticalRtl),
            _ => None,
        }
    }
}

impl Default for PrintDirection {
    fn default() -> (r: PrintDirection)
        ensures
            r == PrintDirection::LtrHorizontal,
    {
        PrintDirection::LtrHorizontal
    }
}

/// How the text of a window is aligned.
#[derive(Debug, Clone, Copy, PartialEq, Eq, PartialOrd, Ord, Hash, Structural)]
pub enum TextAlignment {
    /// Left, where the text runs from left to right
    Start,
    /// Right, where the text runs from left to right
    Eng,
    Center,
    Justify,
}

impl TextAlignment {
    /// The number that stands for the member in a document.
    pub open spec fn spec_code(self) -> u8 {
        match self {
            TextAlignment::Start => 0,
            TextAlignment::Eng => 1,
            TextAlignment::Center => 2,
            TextAlignment::Justify => 3,
        }
    }

    /// The number that stands for the member in a document.
    pub fn code(self) -> (r: u8)
        ensures
            r == self.spec_code(),
            TextAlignment::spec_from_code(r) == Some(self),
    {
        match self {
            TextAlignment::Start => 0,
            TextAlignment::Eng => 1,
            TextAlignment::Center => 2,
            TextAlignment::Justify => 3,
        }
    }

    /// Exactly the numbers from 0 to 3 stand for a member, each member
    /// stands for its own number, and every other number is rejected.
    pub proof fn law_codes(code: u8, member: Self)
        ensures
            Self::spec_from_code(code) is Some <==> code <= 3,
            Self::spec_from_code(member.spec_code()) == Some(member),
            Self::spec_from_code(code) == Some(member) ==> member.spec_code() == code,
    {
    }
}

impl Coded for TextAlignment {
    open spec fn spec_from_code(code: u8) -> Option<Self> {
        if code == 0 {
            Some(TextAlignment::Start)
        } else if code == 1 {
            Some(TextAlignment::Eng)
        } else if code == 2 {
            Some(TextAlignment::Center)
        } else if code == 3 {
            Some(TextAlignment::Justify)
        } else {
            None
        }
    }

    fn from_code(code: u8) -> (r: Option<Self>) {
        match code {
            0 => Some(TextAlignment::Start),
            1 => Some(TextAlignment::Eng),
            2 => Some(TextAlignment::Center),
            3 => Some(TextAlignment::Justify),
            _ => None,
        }
    }
}

/// The edge drawn around the glyphs.
#[derive(Debug, Clone, Copy, PartialEq, Eq, PartialOrd, Ord, Hash, Structural)]
pub enum EdgeType {
    NoEdge,
    HardShadow,
    Bevel,
    GlowOutline,
    SoftShadow,
}

impl EdgeType {
    /// The number that stands for the member in a document.
    pub open spec fn spec_code(self) -> u8 {
        match self {
            EdgeType::NoEdge => 0,
            EdgeType::HardShadow => 1,
            EdgeType::Bevel => 2,
            EdgeType::GlowOutline => 3,
            EdgeType::SoftShadow => 4,
        }
    }

    /// The number that stands for the member in a document.
    pub fn code(self) -> (r: u8)
        ensures
            r == self.spec_code(),
            EdgeType::spec_from_code(r) == Some(self),
    {
        match self {
            EdgeType::NoEdge => 0,
            EdgeType::HardShadow => 1,
            EdgeType::Bevel => 2,
            EdgeType::GlowOutline => 3,
            EdgeType::SoftShadow => 4,
        }
    }

    /// Exactly the numbers from 0 to 4 stand for a member, each member
    /// stands for its own number, and every other number is rejected.
    pub proof fn law_codes(code: u8, member: Self)
        ensures
            Self::spec_from_code(code) is Some <==> code <= 4,
            Self::spec_from_code(member.spec_code()) == Some(member),
            Self::spec_from_code(code) == Some(member) ==> member.spec_code() == code,
    {
    }
}

impl Coded for EdgeType {
    open spec fn spec_from_code(code: u8) -> Option<Self> {
        if code == 0 {
            Some(EdgeType::NoEdge)
        } else if code == 1 {
            Some(EdgeType::HardShadow)
        } else if code == 2 {
            Some(EdgeType::Bevel)
        } else if code == 3 {
            Some(EdgeType::GlowOutline)
        } else if code == 4 {
            Some(EdgeType::SoftShadow)
        } else {
            None
        }
    }

    fn from_code(code: u8) -> (r: Option<Self>) {
        match code {
            0 => Some(EdgeType::NoEdge),
            1 => Some(EdgeType::HardShadow),
            2 => Some(EdgeType::Bevel),
            3 => Some(EdgeType::GlowOutline),
            4 => Some(EdgeType::SoftShadow),
            _ => None,
        }
    }
}

impl Default for EdgeType {
    fn default() -> (r: EdgeType)
        ensures
            r == EdgeType::NoEdge,
    {
        EdgeType::NoEdge
    }
}

/// The family of the font.
#[derive(Debug, Clone, Copy, PartialEq, Eq, PartialOrd, Ord, Hash, Structural)]
pub enum FontStyle {
    /// The same as [`FontStyle::ProportionalSansSerif`]
    Default,
    /// Courier New
    MonospacedSerif,
    /// Times New Roman
    ProportionalSerif,
    /// Lucida Console
    MonospacedSansSerif,
    /// Roboto
    ProportionalSansSerif,
    /// Comic Sans
    Casual,
    /// Monotype Corsiva
    Cursive,
    /// Arial in small capitals
    SmallCapitals,
}

impl FontStyle {
    /// The number that stands for the member in a document.
    pub open spec fn spec_code(self) -> u8 {
        match self {
            FontStyle::Default => 0,
            FontStyle::MonospacedSerif => 1,
            FontStyle::ProportionalSerif => 2,
            FontStyle::MonospacedSansSerif => 3,
            FontStyle::ProportionalSansSerif => 4,
            FontStyle::Casual => 5,
            FontStyle::Cursive => 6,
            FontStyle::SmallCapitals => 7,
        }
    }

    /// The number that stands for the member in a document.
    pub fn code(self) -> (r: u8)
        ensures
            r == self.spec_code(),
            FontStyle::spec_from_code(r) == Some(self),
    {
        match self {
            FontStyle::Default => 0,
            FontStyle::MonospacedSerif => 1,
            FontStyle::ProportionalSerif => 2,
            FontStyle::MonospacedSansSerif => 3,
            FontStyle::ProportionalSansSerif => 4,
            FontStyle::Casual => 5,
            FontStyle::Cursive => 6,
            FontStyle::SmallCapitals => 7,
        }
    }

    /// Exactly the numbers from 0 to 7 stand for a member, each member
    /// stands for its own number, and every other number is rejected.
    pub proof fn law_codes(code: u8, member: Self)
        ensures
            Self::spec_from_code(code) is Some <==> code <= 7,
            Self::spec_from_code(member.spec_code()) == Some(member),
            Self::spec_from_code(code) == Some(member) ==> member.spec_code() == code,
    {
    }
}

impl Coded for FontStyle {
    open spec fn spec_from_code(code: u8) -> Option<Self> {
        if code == 0 {
            Some(FontStyle::Default)
        } else if code == 1 {
            Some(FontStyle::MonospacedSerif)
        } else if code == 2 {
            Some(FontStyle::ProportionalSerif)
        } else if code == 3 {
            Some(FontStyle::MonospacedSansSerif)
        } else if code == 4 {
            Some(FontStyle::ProportionalSansSerif)
        } else if code == 5 {
            Some(FontStyle::Casual)
        } else if code == 6 {
            Some(FontStyle::Cursive)
        } else if code == 7 {
            Some(FontStyle::SmallCapitals)
        } else {
            None
        }
    }

    fn from_code(code: u8) -> (r: Option<Self>) {
        match code {
            0 => Some(FontStyle::Default),
            1 => Some(FontStyle::MonospacedSerif),
            2 => Some(FontStyle::ProportionalSerif),
            3 => Some(FontStyle::MonospacedSansSerif),
            4 => Some(FontStyle::ProportionalSansSerif),
            5 => Some(FontStyle::Casual),
            6 => Some(FontStyle::Cursive),
            7 => Some(FontStyle::SmallCapitals),
            _ => None,
        }
    }
}

impl Default for FontStyle {
    fn default() -> (r: FontStyle)
        ensures
            r == FontStyle::Default,
    {
        FontStyle::Default
    }
}

/// Where the text stands relative to the line.
#[derive(Debug, Clone, Copy, PartialEq, Eq, PartialOrd, Ord, Hash, Structural)]
pub enum VerticalAlignment {
    Subscript,
    Regular,
    Superscript,
}

impl VerticalAlignment {
    /// The number that stands for the member in a document.
    pub open spec fn spec_code(self) -> u8 {
        match self {
            VerticalAlignment::Subscript => 0,
            VerticalAlignment::Regular => 1,
            VerticalAlignment::Superscript => 2,
        }
    }

    /// The number that stands for the member in a document.
    pub fn code(self) -> (r: u8)
        ensures
            r == self.spec_code(),
            VerticalAlignment::spec_from_code(r) == Some(self),
    {
        match self {
            VerticalAlignment::Subscript => 0,
            VerticalAlignment::Regular => 1,
            VerticalAlignment::Superscript => 2,
        }
    }

    /// Exactly the numbers from 0 to 2 stand for a member, each member
    /// stands for its own number, and every other number is rejected.
    pub proof fn law_codes(code: u8, member: Self)
        ensures
            Self::spec_from_code(code) is Some <==> code <= 2,
            Self::spec_from_code(member.spec_code()) == Some(member),
            Self::spec_from_code(code) == Some(member) ==> member.spec_code() == code,
    {
    }
}

impl Coded for VerticalAlignment {
    open spec fn spec_from_code(code: u8) -> Option<Self> {
        if code == 0 {
            Some(VerticalAlignment::Subscript)
        } else if code == 1 {
            Some(VerticalAlignment::Regular)
        } else if code == 2 {
            Some(VerticalAlignment::Superscript)
        } else {
            None
        }
    }

    fn from_code(code: u8) -> (r: Option<Self>) {
        match code {
            0 => Some(VerticalAlignment::Subscript),
            1 => Some(VerticalAlignment::Regular),
            2 => Some(VerticalAlignment::Superscript),
            _ => None,
        }
    }
}

impl Default for VerticalAlignment {
    fn default() -> (r: VerticalAlignment)
        ensures
            r == VerticalAlignment::Regular,
    {
        VerticalAlignment::Regular
    }
}

/// The part that a span plays in a ruby annotation.
#[derive(Debug, Clone, Copy, PartialEq, Eq, PartialOrd, Ord, Hash, Structural)]
pub enum RubyPart {
    NoRuby,
    /// The annotated text
    Base,
    /// A bracket for players that do not show ruby
    Parenthesis,
    /// An annotation before the text
    TextBefore,
    /// An annotation after the text
    TextAfter,
}

impl RubyPart {
    /// The number that stands for the member in a document.
    pub open spec fn spec_code(self) -> u8 {
        match self {
            RubyPart::NoRuby => 0,
            RubyPart::Base => 1,
            RubyPart::Parenthesis => 2,
            RubyPart::TextBefore => 4,
            RubyPart::TextAfter => 5,
        }
    }

    /// The number that stands for the member in a document.
    pub fn code(self) -> (r: u8)
        ensures
            r == self.spec_code(),
            RubyPart::spec_from_code(r) == Some(self),
    {
        match self {
            RubyPart::NoRuby => 0,
            RubyPart::Base => 1,
            RubyPart::Parenthesis => 2,
            RubyPart::TextBefore => 4,
            RubyPart::TextAfter => 5,
        }
    }

    /// Exactly the numbers 0, 1, 2, 4 and 5 stand for a member, each member
    /// stands for its own number, and every other number is rejected.
    pub proof fn law_codes(code: u8, member: Self)
        ensures
            Self::spec_from_code(code) is Some <==> (code == 0
                || code == 1
                || code == 2
                || code == 4
                || code == 5),
            Self::spec_from_code(member.spec_code()) == Some(member),
            Self::spec_from_code(code) == Some(member) ==> member.spec_code() == code,
    {
    }
}

impl Coded for RubyPart {
    open spec fn spec_from_code(code: u8) -> Option<Self> {
        if code == 0 {
            Some(RubyPart::NoRuby)
        } else if code == 1 {
            Some(RubyPart::Base)
        } else if code == 2 {
            Some(RubyPart::Parenthesis)
        } else if code == 4 {
            Some(RubyPart::TextBefore)
        } else if code == 5 {
            Some(RubyPart::TextAfter)
        } else {
            None
        }
    }

    fn from_code(code: u8) -> (r: Option<Self>) {
        match code {
            0 => Some(RubyPart::NoRuby),
            1 => Some(RubyPart::Base),
            2 => Some(RubyPart::Parenthesis),
            4 => Some(RubyPart::TextBefore),
            5 => Some(RubyPart::TextAfter),
            _ => None,
        }
    }
}

impl Default for RubyPart {
    fn default() -> (r: RubyPart)
        ensures
            r == RubyPart::NoRuby,
    {
        RubyPart::NoRuby
    }
}

/// A hint on how a window shows its text.
#[derive(Debug, Clone, Copy, PartialEq, Eq, PartialOrd, Ord, Hash, Structural)]
pub enum ModeHint {
    NoHint,
    Default,
    Scroll,
}

impl ModeHint {
    /// The number that stands for the member in a document.
    pub open spec fn spec_code(self) -> u8 {
        match self {
            ModeHint::NoHint => 0,
            ModeHint::Default => 1,
            ModeHint::Scroll => 2,
        }
    }

    /// The number that stands for the member in a document.
    pub fn code(self) -> (r: u8)
        ensures
            r == self.spec_code(),
            ModeHint::spec_from_code(r) == Some(self),
    {
        match self {
            ModeHint::NoHint => 0,
            ModeHint::Default => 1,
            ModeHint::Scroll => 2,
        }
    }

    /// Exactly the numbers from 0 to 2 stand for a member, each member
    /// stands for its own number, and every other number is rejected.
    pub proof fn law_codes(code: u8, member: Self)
        ensures
            Self::spec_from_code(code) is Some <==> code <= 2,
            Self::spec_from_code(member.spec_code()) == Some(member),
            Self::spec_from_code(code) == Some(member) ==> member.spec_code() == code,
    {
    }
}

impl Coded for ModeHint {
    open spec fn spec_from_code(code: u8) -> Option<Self> {
        if code == 0 {
            Some(ModeHint::NoHint)
        } else if code == 1 {
            Some(ModeHint::Default)
        } else if code == 2 {
            Some(ModeHint::Scroll)
        } else {
            None
        }
    }

    fn from_code(code: u8) -> (r: Option<Self>) {
        match code {
            0 => Some(ModeHint::NoHint),
            1 => Some(ModeHint::Default),
            2 => Some(ModeHint::Scroll),
            _ => None,
        }
    }
}

impl Default for ModeHint {
    fn default() -> (r: ModeHint)
        ensures
            r == ModeHint::NoHint,
    {
        ModeHint::NoHint
    }
}

/// A reusable styling of text.
#[derive(Debug, Clone, PartialEq, Eq, PartialOrd, Ord, Hash)]
pub struct Pen {
    pub id: u32,
    pub bold: bool,
    pub italic: bool,
    pub underline: bool,
    pub foreground_color: Option<String>,
    pub foreground_opacity: Option<u8>,
    pub background_color: Option<String>,
    pub background_opacity: Option<u8>,
    pub edge_color: Option<String>,
    pub edge_type: EdgeType,
    pub font_family: FontStyle,
    /// A virtual percentage of the default size: the real percentage is
    /// `100 + (size - 100) / 4`, so 200 makes the text a quarter larger, not
    /// twice as large.
    pub font_size_perc: Option<u32>,
    pub vertical_alignment: Option<VerticalAlignment>,
}

/// The mathematical value of a [`Pen`].
pub struct PenView {
    pub id: u32,
    pub bold: bool,
    pub italic: bool,
    pub underline: bool,
    pub foreground_color: Option<Seq<char>>,
    pub foreground_opacity: Option<u8>,
    pub background_color: Option<Seq<char>>,
    pub background_opacity: Option<u8>,
    pub edge_color: Option<Seq<char>>,
    pub edge_type: EdgeType,
    pub font_family: FontStyle,
    pub font_size_perc: Option<u32>,
    pub vertical_alignment: Option<VerticalAlignment>,
}

impl View for Pen {
    type V = PenView;

    open spec fn view(&self) -> PenView {
        PenView {
            id: self.id,
            bold: self.bold,
            italic: self.italic,
            underline: self.underline,
            foreground_color: text_option_view(self.foreground_color),
            foreground_opacity: self.foreground_opacity,
            background_color: text_option_view(self.background_color),
            background_opacity: self.background_opacity,
            edge_color: text_option_view(self.edge_color),
            edge_type: self.edge_type,
            font_family: self.font_family,
            font_size_perc: self.font_size_perc,
            vertical_alignment: self.vertical_alignment,
        }
    }
}

impl Pen {
    /// The pen that a `pen` element describes. Only `id` is required; the
    /// flags default to cleared, the edge to none and the font to the default.
    pub open spec fn of_element(e: XmlElementView) -> Result<PenView, DecodeError> {
        let a = e.attributes;
        let id = required(u32_field(a, "id"@));
        let bold = or_default(flag_field(a, "b"@), false);
        let italic = or_default(flag_field(a, "i"@), false);
        let underline = or_default(flag_field(a, "u"@), false);
        let foreground_color = text_field(a, "fc"@);
        let foreground_opacity = u8_field(a, "fo"@);
        let background_color = text_field(a, "bc"@);
        let background_opacity = u8_field(a, "bo"@);
        let edge_color = text_field(a, "ec"@);
        let edge_type = or_default(code_field::<EdgeType>(a, "et"@), EdgeType::NoEdge);
        let font_family = or_default(code_field::<FontStyle>(a, "fs"@), FontStyle::Default);
        let font_size_perc = u32_field(a, "si"@);
        let vertical_alignment = code_field::<VerticalAlignment>(a, "of"@);
        if id is Err {
            Err(id->Err_0)
        } else if bold is Err {
            Err(bold->Err_0)
        } else if italic is Err {
            Err(italic->Err_0)
        } else if underline is Err {
            Err(underline->Err_0)
        } else if foreground_color is Err {
            Err(foreground_color->Err_0)
        } else if foreground_opacity is Err {
            Err(foreground_opacity->Err_0)
        } else if background_color is Err {
            Err(background_color->Err_0)
        } else if background_opacity is Err {
            Err(background_opacity->Err_0)
        } else if edge_color is Err {
            Err(edge_color->Err_0)
        } else if edge_type is Err {
            Err(edge_type->Err_0)
        } else if font_family is Err {
            Err(font_family->Err_0)
        } else if font_size_perc is Err {
            Err(font_size_perc->Err_0)
        } else if vertical_alignment is Err {
            Err(vertical_alignment->Err_0)
        } else {
            Ok(
                PenView {
                    id: id->Ok_0,
                    bold: bold->Ok_0,
                    italic: italic->Ok_0,
                    underline: underline->Ok_0,
                    foreground_color: foreground_color->Ok_0,
                    foreground_opacity: foreground_opacity->Ok_0,
                    background_color: background_color->Ok_0,
                    background_opacity: background_opacity->Ok_0,
                    edge_color: edge_color->Ok_0,
                    edge_type: edge_type->Ok_0,
                    font_family: font_family->Ok_0,
                    font_size_perc: font_size_perc->Ok_0,
                    vertical_alignment: vertical_alignment->Ok_0,
                },
            )
        }
    }

    /// Reads the value out of an element. The attributes are read in the
    /// order of the fields, and the first that fails decides the error.
    pub fn from_element(e: &XmlElement) -> (r: Result<Pen, DecodeError>)
        ensures
            outcome_view(r) == Self::of_element(e@),
    {
        let id = require(read_u32(e, "id"))?;
        let bold = default_to(read_flag(e, "b"), false)?;
        let italic = default_to(read_flag(e, "i"), false)?;
        let underline = default_to(read_flag(e, "u"), false)?;
        let foreground_color = read_text(e, "fc");
        let foreground_opacity = read_u8(e, "fo")?;
        let background_color = read_text(e, "bc");
        let background_opacity = read_u8(e, "bo")?;
        let edge_color = read_text(e, "ec");
        let edge_type = default_to(read_code::<EdgeType>(e, "et"), EdgeType::NoEdge)?;
        let font_family = default_to(read_code::<FontStyle>(e, "fs"), FontStyle::Default)?;
        let font_size_perc = read_u32(e, "si")?;
        let vertical_alignment = read_code::<VerticalAlignment>(e, "of")?;
        Ok(
            Pen {
                id,
                bold,
                italic,
                underline,
                foreground_color,
                foreground_opacity,
                background_color,
                background_opacity,
                edge_color,
                edge_type,
                font_family,
                font_size_perc,
                vertical_alignment,
            },
        )
    }

    /// An element with a code outside its enumeration describes no value:
    /// the decoder fails, and puts no other member in the place of the code.
    pub proof fn law_bad_code_is_rejected(e: XmlElementView)
        requires
            code_field::<EdgeType>(e.attributes, "et"@) is Err
                || code_field::<FontStyle>(e.attributes, "fs"@) is Err
                || code_field::<VerticalAlignment>(e.attributes, "of"@) is Err,
        ensures
            Self::of_element(e) is Err,
    {
    }
}

impl FromXml for Pen {
    open spec fn xml_value(e: XmlElementView) -> Result<PenView, DecodeError> {
        Pen::of_element(e)
    }

    fn from_xml(e: &XmlElement) -> (r: Result<Pen, DecodeError>) {
        Pen::from_element(e)
    }
}

/// A reusable styling of a window.
#[derive(Debug, Clone, PartialEq, Eq, PartialOrd, Ord, Hash)]
pub struct WindowStyle {
    pub id: u32,
    /// A number whose meaning is not known.
    pub scroll_direction: u8,
    pub print_direction: PrintDirection,
    pub text_alignment: Option<TextAlignment>,
    pub mode_hint: ModeHint,
    pub fill_color: Option<String>,
    pub fill_opacity: Option<u8>,
}

/// The mathematical value of a [`WindowStyle`].
pub struct WindowStyleView {
    pub id: u32,
    pub scroll_direction: u8,
    pub print_direction: PrintDirection,
    pub text_alignment: Option<TextAlignment>,
    pub mode_hint: ModeHint,
    pub fill_color: Option<Seq<char>>,
    pub fill_opacity: Option<u8>,
}

impl View for WindowStyle {
    type V = WindowStyleView;

    open spec fn view(&self) -> WindowStyleView {
        WindowStyleView {
            id: self.id,
            scroll_direction: self.scroll_direction,
            print_direction: self.print_direction,
            text_alignment: self.text_alignment,
            mode_hint: self.mode_hint,
            fill_color: text_option_view(self.fill_color),
            fill_opacity: self.fill_opacity,
        }
    }
}

impl WindowStyle {
    /// The window style that a `ws` element describes. Only `id` is required.
    pub open spec fn of_element(e: XmlElementView) -> Result<WindowStyleView, DecodeError> {
        let a = e.attributes;
        let id = required(u32_field(a, "id"@));
        let scroll_direction = or_default(u8_field(a, "sd"@), 0);
        let print_direction = or_default(
            code_field::<PrintDirection>(a, "pd"@),
            PrintDirection::LtrHorizontal,
        );
        let text_alignment = code_field::<TextAlignment>(a, "ju"@);
        let mode_hint = or_default(code_field::<ModeHint>(a, "mh"@), ModeHint::NoHint);
        let fill_color = text_field(a, "wfc"@);
        let fill_opacity = u8_field(a, "wfo"@);
        if id is Err {
            Err(id->Err_0)
        } else if scroll_direction is Err {
            Err(scroll_direction->Err_0)
        } else if print_direction is Err {
            Err(print_direction->Err_0)
        } else if text_alignment is Err {
            Err(text_alignment->Err_0)
        } else if mode_hint is Err {
            Err(mode_hint->Err_0)
        } else if fill_color is Err {
            Err(fill_color->Err_0)
        } else if fill_opacity is Err {
            Err(fill_opacity->Err_0)
        } else {
            Ok(
                WindowStyleView {
                    id: id->Ok_0,
                    scroll_direction: scroll_direction->Ok_0,
                    print_direction: print_direction->Ok_0,
                    text_alignment: text_alignment->Ok_0,
                    mode_hint: mode_hint->Ok_0,
                    fill_color: fill_color->Ok_0,
                    fill_opacity: fill_opacity->Ok_0,
                },
            )
        }
    }

    /// Reads the value out of an element. The attributes are read in the
    /// order of the fields, and the first that fails decides the error.
    pub fn from_element(e: &XmlElement) -> (r: Result<WindowStyle, DecodeError>)
        ensures
            outcome_view(r) == Self::of_element(e@),
    {
        let id = require(read_u32(e, "id"))?;
        let scroll_direction = default_to(read_u8(e, "sd"), 0)?;
        let print_direction = default_to(
            read_code::<PrintDirection>(e, "pd"),
            PrintDirection::LtrHorizontal,
        )?;
        let text_alignment = read_code::<TextAlignment>(e, "ju")?;
        let mode_hint = default_to(read_code::<ModeHint>(e, "mh"), ModeHint::NoHint)?;
        let fill_color = read_text(e, "wfc");
        let fill_opacity = read_u8(e, "wfo")?;
        Ok(
            WindowStyle {
                id,
                scroll_direction,
                print_direction,
                text_alignment,
                mode_hint,
                fill_color,
                fill_opacity,
            },
        )
    }

    /// An element with a code outside its enumeration describes no value:
    /// the decoder fails, and puts no other member in the place of the code.
    pub proof fn law_bad_code_is_rejected(e: XmlElementView)
        requires
            code_field::<PrintDirection>(e.attributes, "pd"@) is Err
                || code_field::<TextAlignment>(e.attributes, "ju"@) is Err
                || code_field::<ModeHint>(e.attributes, "mh"@) is Err,
        ensures
            Self::of_element(e) is Err,
    {
    }
}

impl FromXml for WindowStyle {
    open spec fn xml_value(e: XmlElementView) -> Result<WindowStyleView, DecodeError> {
        WindowStyle::of_element(e)
    }

    fn from_xml(e: &XmlElement) -> (r: Result<WindowStyle, DecodeError>) {
        WindowStyle::from_element(e)
    }
}

/// A reusable position of a window.
#[derive(Debug, Clone, PartialEq, Eq, PartialOrd, Ord, Hash)]
pub struct WindowPosition {
    pub id: u32,
    /// The point of the window that the offsets refer to
    pub anchor_point: Option<AnchorPoint>,
    /// The player shows a window at `offset * 0.96 + 2`, so not quite where
    /// the offset says.
    pub left_offset: Option<u32>,
    /// The player shows a window at `offset * 0.96 + 2`, so not quite where
    /// the offset says.
    pub top_offset: Option<u32>,
    pub rows_total: Option<u8>,
    /// Each column is as wide as an en dash
    pub columns_total: Option<u8>,
}

/// The mathematical value of a [`WindowPosition`].
pub struct WindowPositionView {
    pub id: u32,
    pub anchor_point: Option<AnchorPoint>,
    pub left_offset: Option<u32>,
    pub top_offset: Option<u32>,
    pub rows_total: Option<u8>,
    pub columns_total: Option<u8>,
}

impl View for WindowPosition {
    type V = WindowPositionView;

    open spec fn view(&self) -> WindowPositionView {
        WindowPositionView {
            id: self.id,
            anchor_point: self.anchor_point,
            left_offset: self.left_offset,
            top_offset: self.top_offset,
            rows_total: self.rows_total,
            columns_total: self.columns_total,
        }
    }
}

impl WindowPosition {
    /// The window position that a `wp` element describes. Only `id` is required.
    pub open spec fn of_element(e: XmlElementView) -> Result<WindowPositionView, DecodeError> {
        let a = e.attributes;
        let id = required(u32_field(a, "id"@));
        let anchor_point = code_field::<AnchorPoint>(a, "ap"@);
        let left_offset = u32_field(a, "ah"@);
        let top_offset = u32_field(a, "av"@);
        let rows_total = u8_field(a, "rc"@);
        let columns_total = u8_field(a, "cc"@);
        if id is Err {
            Err(id->Err_0)
        } else if anchor_point is Err {
            Err(anchor_point->Err_0)
        } else if left_offset is Err {
            Err(left_offset->Err_0)
        } else if top_offset is Err {
            Err(top_offset->Err_0)
        } else if rows_total is Err {
            Err(rows_total->Err_0)
        } else if columns_total is Err {
            Err(columns_total->Err_0)
        } else {
            Ok(
                WindowPositionView {
                    id: id->Ok_0,
                    anchor_point: anchor_point->Ok_0,
                    left_offset: left_offset->Ok_0,
                    top_offset: top_offset->Ok_0,
                    rows_total: rows_total->Ok_0,
                    columns_total: columns_total->Ok_0,
                },
            )
        }
    }

    /// Reads the value out of an element. The attributes are read in the
    /// order of the fields, and the first that fails decides the error.
    pub fn from_element(e: &XmlElement) -> (r: Result<WindowPosition, DecodeError>)
        ensures
            outcome_view(r) == Self::of_element(e@),
    {
        let id = require(read_u32(e, "id"))?;
        let anchor_point = read_code::<AnchorPoint>(e, "ap")?;
        let left_offset = read_u32(e, "ah")?;
        let top_offset = read_u32(e, "av")?;
        let rows_total = read_u8(e, "rc")?;
        let columns_total = read_u8(e, "cc")?;
        Ok(WindowPosition { id, anchor_point, left_offset, top_offset, rows_total, columns_total })
    }

    /// An element with a code outside its enumeration describes no value:
    /// the decoder fails, and puts no other member in the place of the code.
    pub proof fn law_bad_code_is_rejected(e: XmlElementView)
        requires
            code_field::<AnchorPoint>(e.attributes, "ap"@) is Err,
        ensures
            Self::of_element(e) is Err,
    {
    }
}

impl FromXml for WindowPosition {
    open spec fn xml_value(e: XmlElementView) -> Result<WindowPositionView, DecodeError> {
        WindowPosition::of_element(e)
    }

    fn from_xml(e: &XmlElement) -> (r: Result<WindowPosition, DecodeError>) {
        WindowPosition::from_element(e)
    }
}

/// A window of the body: a position and a style under a number.
#[derive(Debug, Clone, PartialEq, Eq, PartialOrd, Ord, Hash)]
pub struct Window {
    pub id: u32,
    pub time_millis: u32,
    pub window_position_id: u32,
    pub window_style_id: u32,
}

/// The mathematical value of a [`Window`].
pub struct WindowView {
    pub id: u32,
    pub time_millis: u32,
    pub window_position_id: u32,
    pub window_style_id: u32,
}

impl View for Window {
    type V = WindowView;

    open spec fn view(&self) -> WindowView {
        WindowView {
            id: self.id,
            time_millis: self.time_millis,
            window_position_id: self.window_position_id,
            window_style_id: self.window_style_id,
        }
    }
}

impl Window {
    /// The window that a `w` element describes. Every attribute is required.
    pub open spec fn of_element(e: XmlElementView) -> Result<WindowView, DecodeError> {
        let a = e.attributes;
        let id = required(u32_field(a, "id"@));
        let time_millis = required(u32_field(a, "t"@));
        let window_position_id = required(u32_field(a, "wp"@));
        let window_style_id = required(u32_field(a, "ws"@));
        if id is Err {
            Err(id->Err_0)
        } else if time_millis is Err {
            Err(time_millis->Err_0)
        } else if window_position_id is Err {
            Err(window_position_id->Err_0)
        } else if window_style_id is Err {
            Err(window_style_id->Err_0)
        } else {
            Ok(
                WindowView {
                    id: id->Ok_0,
                    time_millis: time_millis->Ok_0,
                    window_position_id: window_position_id->Ok_0,
                    window_style_id: window_style_id->Ok_0,
                },
            )
        }
    }

    /// Reads the value out of an element. The attributes are read in the
    /// order of the fields, and the first that fails decides the error.
    pub fn from_element(e: &XmlElement) -> (r: Result<Window, DecodeError>)
        ensures
            outcome_view(r) == Self::of_element(e@),
    {
        let id = require(read_u32(e, "id"))?;
        let time_millis = require(read_u32(e, "t"))?;
        let window_position_id = require(read_u32(e, "wp"))?;
        let window_style_id = require(read_u32(e, "ws"))?;
        Ok(Window { id, time_millis, window_position_id, window_style_id })
    }
}

/// A run of text with a pen and a time of its own.
#[derive(Debug, Clone, PartialEq, Eq, PartialOrd, Ord, Hash)]
pub struct Span {
    pub relative_time_millis: u32,
    pub pen_id: Option<u32>,
    pub value: String,
}

/// The mathematical value of a [`Span`].
pub struct SpanView {
    pub relative_time_millis: u32,
    pub pen_id: Option<u32>,
    pub value: Seq<char>,
}

impl View for Span {
    type V = SpanView;

    open spec fn view(&self) -> SpanView {
        SpanView {
            relative_time_millis: self.relative_time_millis,
            pen_id: self.pen_id,
            value: self.value@,
        }
    }
}

impl Span {
    /// The span that an `s` element describes: `t` defaults to zero, `p` may
    /// be absent, and the text is the character data of the element.
    pub open spec fn of_element(e: XmlElementView) -> Result<SpanView, DecodeError> {
        let a = e.attributes;
        let relative_time_millis = or_default(u32_field(a, "t"@), 0);
        let pen_id = u32_field(a, "p"@);
        let value = leaf_text(e.children);
        if relative_time_millis is Err {
            Err(relative_time_millis->Err_0)
        } else if pen_id is Err {
            Err(pen_id->Err_0)
        } else if value is Err {
            Err(value->Err_0)
        } else {
            Ok(
                SpanView {
                    relative_time_millis: relative_time_millis->Ok_0,
                    pen_id: pen_id->Ok_0,
                    value: value->Ok_0,
                },
            )
        }
    }

    /// Reads the value out of an element. The attributes are read in the
    /// order of the fields, and the first that fails decides the error.
    pub fn from_element(e: &XmlElement) -> (r: Result<Span, DecodeError>)
        ensures
            outcome_view(r) == Self::of_element(e@),
    {
        let relative_time_millis = default_to(read_u32(e, "t"), 0)?;
        let pen_id = read_u32(e, "p")?;
        let value = text_of_leaf(e)?;
        Ok(Span { relative_time_millis, pen_id, value })
    }
}

/// A piece of the text of a paragraph.
#[derive(Debug, Clone, PartialEq, Eq, PartialOrd, Ord, Hash)]
pub enum Text {
    /// A styled run
    Span(Span),
    /// Character data that stands in the paragraph itself
    Str(String),
}

/// The mathematical value of a [`Text`].
pub enum TextView {
    Span(SpanView),
    Str(Seq<char>),
}

impl View for Text {
    type V = TextView;

    open spec fn view(&self) -> TextView {
        match self {
            Text::Span(span) => TextView::Span(span@),
            Text::Str(value) => TextView::Str(value@),
        }
    }
}

impl Text {
    /// The characters of the piece, whatever its kind.
    pub open spec fn characters(self) -> Seq<char> {
        match self {
            Text::Span(span) => span.value@,
            Text::Str(value) => value@,
        }
    }

    /// The text of the piece, whatever its kind.
    pub fn as_str(&self) -> (r: &str)
        ensures
            r@ == self.characters(),
    {
        match self {
            Text::Span(span) => span.value.as_str(),
            Text::Str(value) => value.as_str(),
        }
    }
}

impl core::ops::Deref for Text {
    type Target = String;

    fn deref(&self) -> (r: &String)
        ensures
            r@ == self.characters(),
    {
        match self {
            Text::Span(span) => &span.value,
            Text::Str(value) => value,
        }
    }
}

impl core::ops::DerefMut for Text {
    fn deref_mut(&mut self) -> (r: &mut String)
        ensures
            r@ == old(self).characters(),
            match *old(self) {
                Text::Span(span) => *final(self) == Text::Span(
                    Span {
                        relative_time_millis: span.relative_time_millis,
                        pen_id: span.pen_id,
                        value: *final(r),
                    },
                ),
                Text::Str(_) => *final(self) == Text::Str(*final(r)),
            },
    {
        match self {
            Text::Span(span) => &mut span.value,
            Text::Str(value) => value,
        }
    }
}

impl AsRef<str> for Text {
    fn as_ref(&self) -> (r: &str)
        ensures
            r@ == self.characters(),
    {
        self.as_str()
    }
}

/// The values of a list of pieces.
pub open spec fn texts_view(texts: Seq<Text>) -> Seq<TextView> {
    texts.map_values(|t: Text| t@)
}

/// The pieces that `nodes[i..]` describe, behind those in `done`: character
/// data as it stands, blank or not, and a span for each `s` element. An
/// element of another name is not part of the format.
pub open spec fn pieces(nodes: Seq<XmlNodeView>, i: int, done: Seq<TextView>) -> Result<
    Seq<TextView>,
    DecodeError,
>
    decreases nodes.len() - i,
{
    if i < 0 || i >= nodes.len() {
        Ok(done)
    } else {
        match nodes[i] {
            XmlNodeView::Text(text) => pieces(nodes, i + 1, done.push(TextView::Str(text))),
            XmlNodeView::Element(e) => if e.name == "s"@ {
                match Span::of_element(e) {
                    Err(error) => Err(error),
                    Ok(span) => pieces(nodes, i + 1, done.push(TextView::Span(span))),
                }
            } else {
                Err(DecodeError::Structure)
            },
        }
    }
}

/// Reads the pieces of text that stand in `element`.
pub fn read_pieces(element: &XmlElement) -> (r: Result<Vec<Text>, DecodeError>)
    ensures
        match pieces(element@.children, 0, Seq::empty()) {
            Ok(texts) => r is Ok && texts_view(r.unwrap()@) == texts,
            Err(error) => r == Err::<Vec<Text>, DecodeError>(error),
        },
{
    let ghost all = element@.children;
    proof {
        lemma_element_view(*element);
    }
    let mut done: Vec<Text> = Vec::new();
    let mut i: usize = 0;
    assert(texts_view(done@) =~= Seq::empty());
    while i < element.children.len()
        invariant
            i <= element.children.len(),
            all == element@.children,
            all == nodes_view(element.children@),
            pieces(all, 0, Seq::empty()) == pieces(all, i as int, texts_view(done@)),
        decreases element.children.len() - i,
    {
        assert(all[i as int] == element.children@[i as int]@);
        let ghost before = texts_view(done@);
        match &element.children[i] {
            XmlNode::Text(text) => {
                let piece = Text::Str(text.clone());
                done.push(piece);
                assert(texts_view(done@) =~= before.push(piece@));
            },
            XmlNode::Element(e) => {
                proof {
                    lemma_element_view(*e);
                }
                if !same_text(e.name.as_str(), "s") {
                    return Err(DecodeError::Structure);
                }
                let span = match Span::from_element(e) {
                    Ok(span) => span,
                    Err(error) => {
                        return Err(error);
                    },
                };
                let piece = Text::Span(span);
                done.push(piece);
                assert(texts_view(done@) =~= before.push(piece@));
            },
        }
        i += 1;
    }
    Ok(done)
}

/// A paragraph: text with the time at which it appears.
#[derive(Debug, Clone, PartialEq, Eq, PartialOrd, Ord, Hash)]
pub struct TextSegment {
    pub time_millis: u32,
    pub duration_millis: u32,
    pub pen_id: Option<u32>,
    pub window_position_id: Option<u32>,
    pub window_style_id: Option<u32>,
    pub value: Vec<Text>,
}

/// The mathematical value of a [`TextSegment`].
pub struct TextSegmentView {
    pub time_millis: u32,
    pub duration_millis: u32,
    pub pen_id: Option<u32>,
    pub window_position_id: Option<u32>,
    pub window_style_id: Option<u32>,
    pub value: Seq<TextView>,
}

impl View for TextSegment {
    type V = TextSegmentView;

    open spec fn view(&self) -> TextSegmentView {
        TextSegmentView {
            time_millis: self.time_millis,
            duration_millis: self.duration_millis,
            pen_id: self.pen_id,
            window_position_id: self.window_position_id,
            window_style_id: self.window_style_id,
            value: texts_view(self.value@),
        }
    }
}

impl TextSegment {
    /// The paragraph that a `p` element describes: `t` is required, `d`
    /// defaults to zero, `p`, `wp` and `ws` may be absent, and the text is
    /// what stands in the element.
    pub open spec fn of_element(e: XmlElementView) -> Result<TextSegmentView, DecodeError> {
        let a = e.attributes;
        let time_millis = required(u32_field(a, "t"@));
        let duration_millis = or_default(u32_field(a, "d"@), 0);
        let pen_id = u32_field(a, "p"@);
        let window_position_id = u32_field(a, "wp"@);
        let window_style_id = u32_field(a, "ws"@);
        let value = pieces(e.children, 0, Seq::empty());
        if time_millis is Err {
            Err(time_millis->Err_0)
        } else if duration_millis is Err {
            Err(duration_millis->Err_0)
        } else if pen_id is Err {
            Err(pen_id->Err_0)
        } else if window_position_id is Err {
            Err(window_position_id->Err_0)
        } else if window_style_id is Err {
            Err(window_style_id->Err_0)
        } else if value is Err {
            Err(value->Err_0)
        } else {
            Ok(
                TextSegmentView {
                    time_millis: time_millis->Ok_0,
                    duration_millis: duration_millis->Ok_0,
                    pen_id: pen_id->Ok_0,
                    window_position_id: window_position_id->Ok_0,
                    window_style_id: window_style_id->Ok_0,
                    value: value->Ok_0,
                },
            )
        }
    }

    /// Reads the paragraph out of an element. The attributes are read in the
    /// order of the fields, and the first part that fails decides the error.
    pub fn from_element(e: &XmlElement) -> (r: Result<TextSegment, DecodeError>)
        ensures
            outcome_view(r) == Self::of_element(e@),
    {
        let time_millis = require(read_u32(e, "t"))?;
        let duration_millis = default_to(read_u32(e, "d"), 0)?;
        let pen_id = read_u32(e, "p")?;
        let window_position_id = read_u32(e, "wp")?;
        let window_style_id = read_u32(e, "ws")?;
        let value = read_pieces(e)?;
        Ok(
            TextSegment {
                time_millis,
                duration_millis,
                pen_id,
                window_position_id,
                window_style_id,
                value,
            },
        )
    }
}

/// An entry of the body.
#[derive(Debug, Clone, PartialEq, Eq, PartialOrd, Ord, Hash)]
pub enum Element {
    Segment(TextSegment),
    Window(Window),
}

/// The mathematical value of an [`Element`].
pub enum ElementView {
    Segment(TextSegmentView),
    Window(WindowView),
}

impl View for Element {
    type V = ElementView;

    open spec fn view(&self) -> ElementView {
        match self {
            Element::Segment(segment) => ElementView::Segment(segment@),
            Element::Window(window) => ElementView::Window(window@),
        }
    }
}

impl Element {
    /// The entry that an element describes: a paragraph for `p`, a window for
    /// `w`. An element of another name is not part of the format.
    pub open spec fn of_element(e: XmlElementView) -> Result<ElementView, DecodeError> {
        if e.name == "p"@ {
            match TextSegment::of_element(e) {
                Ok(segment) => Ok(ElementView::Segment(segment)),
                Err(error) => Err(error),
            }
        } else if e.name == "w"@ {
            match Window::of_element(e) {
                Ok(window) => Ok(ElementView::Window(window)),
                Err(error) => Err(error),
            }
        } else {
            Err(DecodeError::Structure)
        }
    }

    /// Reads the entry out of an element.
    pub fn from_element(e: &XmlElement) -> (r: Result<Element, DecodeError>)
        ensures
            outcome_view(r) == Self::of_element(e@),
    {
        proof {
            lemma_element_view(*e);
        }
        if same_text(e.name.as_str(), "p") {
            Ok(Element::Segment(TextSegment::from_element(e)?))
        } else if same_text(e.name.as_str(), "w") {
            Ok(Element::Window(Window::from_element(e)?))
        } else {
            Err(DecodeError::Structure)
        }
    }
}

/// The values of a list of entries.
pub open spec fn elements_view(elements: Seq<Element>) -> Seq<ElementView> {
    elements.map_values(|e: Element| e@)
}

/// The entries that `nodes[i..]` describe, behind those in `done`. Blank
/// character data between the elements is passed over; other character data
/// is not part of the format.
pub open spec fn entries(nodes: Seq<XmlNodeView>, i: int, done: Seq<ElementView>) -> Result<
    Seq<ElementView>,
    DecodeError,
>
    decreases nodes.len() - i,
{
    if i < 0 || i >= nodes.len() {
        Ok(done)
    } else {
        match nodes[i] {
            XmlNodeView::Text(text) => if is_blank_text(text) {
                entries(nodes, i + 1, done)
            } else {
                Err(DecodeError::Structure)
            },
            XmlNodeView::Element(e) => match Element::of_element(e) {
                Err(error) => Err(error),
                Ok(entry) => entries(nodes, i + 1, done.push(entry)),
            },
        }
    }
}

/// A node that may stand among the entries: blank character data, or an
/// element that describes an entry.
pub open spec fn is_entry_or_blank(node: XmlNodeView) -> bool {
    match node {
        XmlNodeView::Text(text) => is_blank_text(text),
        XmlNodeView::Element(e) => Element::of_element(e) is Ok,
    }
}

/// The entries are read exactly where every node may stand among them.
pub proof fn law_entries_are_owed(nodes: Seq<XmlNodeView>, i: int, done: Seq<ElementView>)
    requires
        0 <= i <= nodes.len(),
    ensures
        entries(nodes, i, done) is Ok <==> forall|k: int|
            i <= k < nodes.len() ==> is_entry_or_blank(#[trigger] nodes[k]),
    decreases nodes.len() - i,
{
    if i < nodes.len() {
        match nodes[i] {
            XmlNodeView::Text(text) => {
                if is_blank_text(text) {
                    law_entries_are_owed(nodes, i + 1, done);
                } else {
                    assert(!is_entry_or_blank(nodes[i]));
                }
            },
            XmlNodeView::Element(e) => {
                match Element::of_element(e) {
                    Ok(entry) => law_entries_are_owed(nodes, i + 1, done.push(entry)),
                    Err(_) => {
                        assert(!is_entry_or_blank(nodes[i]));
                    },
                }
            },
        }
    }
}

/// One element that describes no entry fails the whole list.
pub proof fn law_failing_entry(nodes: Seq<XmlNodeView>, i: int, done: Seq<ElementView>, k: int)
    requires
        0 <= i <= k < nodes.len(),
        nodes[k] matches XmlNodeView::Element(e) && Element::of_element(e) is Err,
    ensures
        entries(nodes, i, done) is Err,
    decreases k - i,
{
    if i < k {
        match nodes[i] {
            XmlNodeView::Text(text) => {
                if is_blank_text(text) {
                    law_failing_entry(nodes, i + 1, done, k);
                }
            },
            XmlNodeView::Element(e) => {
                match Element::of_element(e) {
                    Ok(entry) => law_failing_entry(nodes, i + 1, done.push(entry), k),
                    Err(_) => {},
                }
            },
        }
    }
}

/// The body of a document: its entries in the order of the document.
#[derive(Debug, Clone, PartialEq, Eq, PartialOrd, Ord, Hash)]
pub struct Body {
    pub elements: Vec<Element>,
}

/// The mathematical value of a [`Body`].
pub struct BodyView {
    pub elements: Seq<ElementView>,
}

impl View for Body {
    type V = BodyView;

    open spec fn view(&self) -> BodyView {
        BodyView { elements: elements_view(self.elements@) }
    }
}

impl Body {
    /// The body that a `body` element describes. A body without entries is
    /// rejected.
    pub open spec fn of_element(e: XmlElementView) -> Result<BodyView, DecodeError> {
        match entries(e.children, 0, Seq::empty()) {
            Err(error) => Err(error),
            Ok(elements) => if elements.len() == 0 {
                Err(DecodeError::Structure)
            } else {
                Ok(BodyView { elements })
            },
        }
    }

    /// Reads the body out of an element.
    pub fn from_element(e: &XmlElement) -> (r: Result<Body, DecodeError>)
        ensures
            outcome_view(r) == Self::of_element(e@),
    {
        let ghost all = e@.children;
        proof {
            lemma_element_view(*e);
        }
        let mut elements: Vec<Element> = Vec::new();
        let mut i: usize = 0;
        assert(elements_view(elements@) =~= Seq::empty());
        while i < e.children.len()
            invariant
                i <= e.children.len(),
                all == e@.children,
                all == nodes_view(e.children@),
                entries(all, 0, Seq::empty()) == entries(all, i as int, elements_view(elements@)),
            decreases e.children.len() - i,
        {
            assert(all[i as int] == e.children@[i as int]@);
            match &e.children[i] {
                XmlNode::Text(text) => {
                    if !blank_text(text.as_str()) {
                        return Err(DecodeError::Structure);
                    }
                },
                XmlNode::Element(child) => {
                    let entry = Element::from_element(child)?;
                    let ghost before = elements_view(elements@);
                    elements.push(entry);
                    assert(elements_view(elements@) =~= before.push(entry@));
                },
            }
            i += 1;
        }
        if elements.len() == 0 {
            return Err(DecodeError::Structure);
        }
        Ok(Body { elements })
    }
}

/// The head of a document: what the body refers to by number.
#[derive(Debug, Clone, PartialEq, Eq, PartialOrd, Ord, Hash)]
pub struct Head {
    pub pens: Vec<Pen>,
    pub window_styling: Vec<WindowStyle>,
    pub window_positioning: Vec<WindowPosition>,
}

/// The mathematical value of a [`Head`].
pub struct HeadView {
    pub pens: Seq<PenView>,
    pub window_styling: Seq<WindowStyleView>,
    pub window_positioning: Seq<WindowPositionView>,
}

impl View for Head {
    type V = HeadView;

    open spec fn view(&self) -> HeadView {
        HeadView {
            pens: self.pens@.map_values(|p: Pen| p@),
            window_styling: self.window_styling@.map_values(|s: WindowStyle| s@),
            window_positioning: self.window_positioning@.map_values(|p: WindowPosition| p@),
        }
    }
}

impl Head {
    /// The head that a `head` element describes: a pen for each `pen`
    /// element, a window style for each `ws` and a window position for each
    /// `wp`, each list in the order of the document. Whatever else stands in
    /// the head is passed over.
    pub open spec fn of_element(e: XmlElementView) -> Result<HeadView, DecodeError> {
        let pens = children_named::<Pen>(e.children, "pen"@, 0, Seq::empty());
        let window_styling = children_named::<WindowStyle>(e.children, "ws"@, 0, Seq::empty());
        let window_positioning = children_named::<WindowPosition>(
            e.children,
            "wp"@,
            0,
            Seq::empty(),
        );
        if pens is Err {
            Err(pens->Err_0)
        } else if window_styling is Err {
            Err(window_styling->Err_0)
        } else if window_positioning is Err {
            Err(window_positioning->Err_0)
        } else {
            Ok(
                HeadView {
                    pens: pens->Ok_0,
                    window_styling: window_styling->Ok_0,
                    window_positioning: window_positioning->Ok_0,
                },
            )
        }
    }

    /// A head in which one pen, window style or window position carries a
    /// code outside its enumeration is rejected as a whole.
    pub proof fn law_bad_code_fails_head(e: XmlElementView, k: int)
        requires
            0 <= k < e.children.len(),
            e.children[k] matches XmlNodeView::Element(child) && ({
                ||| child.name == "pen"@ && Pen::of_element(child) is Err
                ||| child.name == "ws"@ && WindowStyle::of_element(child) is Err
                ||| child.name == "wp"@ && WindowPosition::of_element(child) is Err
            }),
        ensures
            Self::of_element(e) is Err,
    {
        let child = e.children[k]->Element_0;
        if child.name == "pen"@ && Pen::of_element(child) is Err {
            law_failing_child::<Pen>(e.children, "pen"@, 0, Seq::empty(), k);
        } else if child.name == "ws"@ && WindowStyle::of_element(child) is Err {
            law_failing_child::<WindowStyle>(e.children, "ws"@, 0, Seq::empty(), k);
        } else {
            law_failing_child::<WindowPosition>(e.children, "wp"@, 0, Seq::empty(), k);
        }
    }

    /// Reads the head out of an element.
    pub fn from_element(e: &XmlElement) -> (r: Result<Head, DecodeError>)
        ensures
            outcome_view(r) == Self::of_element(e@),
    {
        let pens = read_children::<Pen>(e, "pen")?;
        let window_styling = read_children::<WindowStyle>(e, "ws")?;
        let window_positioning = read_children::<WindowPosition>(e, "wp")?;
        Ok(Head { pens, window_styling, window_positioning })
    }
}

/// A decoded document.
#[derive(Debug, Clone, PartialEq, Eq, PartialOrd, Ord, Hash)]
pub struct Transcript {
    pub head: Head,
    pub body: Body,
    pub format_version: u32,
}

/// The mathematical value of a [`Transcript`].
pub struct TranscriptView {
    pub head: HeadView,
    pub body: BodyView,
    pub format_version: u32,
}

impl View for Transcript {
    type V = TranscriptView;

    open spec fn view(&self) -> TranscriptView {
        TranscriptView { head: self.head@, body: self.body@, format_version: self.format_version }
    }
}

/// The part of a document that the one child named `name` of the root
/// describes. The child has to be there, and only once.
pub open spec fn part_named(root: XmlElementView, name: Seq<char>) -> Result<
    XmlElementView,
    DecodeError,
> {
    match only_child(root.children, name, 0, None) {
        Err(error) => Err(error),
        Ok(None) => Err(DecodeError::Structure),
        Ok(Some(part)) => Ok(part),
    }
}

impl Transcript {
    /// The transcript that a root element describes: its `format` attribute,
    /// its one `head` and its one `body`. Whatever else stands in the root is
    /// passed over. The version is read first, then the head, then the body,
    /// and the first part that fails decides the error.
    pub open spec fn of_element(root: XmlElementView) -> Result<TranscriptView, DecodeError> {
        let format_version = required(u32_field(root.attributes, "format"@));
        let head_part = part_named(root, "head"@);
        let body_part = part_named(root, "body"@);
        if format_version is Err {
            Err(format_version->Err_0)
        } else if head_part is Err {
            Err(head_part->Err_0)
        } else if Head::of_element(head_part->Ok_0) is Err {
            Err(Head::of_element(head_part->Ok_0)->Err_0)
        } else if body_part is Err {
            Err(body_part->Err_0)
        } else if Body::of_element(body_part->Ok_0) is Err {
            Err(Body::of_element(body_part->Ok_0)->Err_0)
        } else {
            Ok(
                TranscriptView {
                    head: Head::of_element(head_part->Ok_0)->Ok_0,
                    body: Body::of_element(body_part->Ok_0)->Ok_0,
                    format_version: format_version->Ok_0,
                },
            )
        }
    }

    /// A document whose head is rejected, as it is for a code outside its
    /// enumeration, is rejected as a whole.
    pub proof fn law_bad_head_fails_document(root: XmlElementView, head: XmlElementView)
        requires
            part_named(root, "head"@) == Ok::<XmlElementView, DecodeError>(head),
            Head::of_element(head) is Err,
        ensures
            Self::of_element(root) is Err,
    {
    }

    /// The transcript that a document describes.
    pub open spec fn of_document(input: Seq<char>) -> Result<TranscriptView, DecodeError> {
        match root_of_document(input) {
            Err(error) => Err(error),
            Ok(root) => Self::of_element(root),
        }
    }

    /// Reads the transcript out of the root element of a document.
    pub fn from_element(root: &XmlElement) -> (r: Result<Transcript, DecodeError>)
        ensures
            outcome_view(r) == Self::of_element(root@),
    {
        let format_version = require(read_u32(root, "format"))?;
        let head = match find_only_child(root, "head")? {
            Some(part) => Head::from_element(part)?,
            None => {
                return Err(DecodeError::Structure);
            },
        };
        let body = match find_only_child(root, "body")? {
            Some(part) => Body::from_element(part)?,
            None => {
                return Err(DecodeError::Structure);
            },
        };
        Ok(Transcript { head, body, format_version })
    }

    /// Decodes a document.
    pub fn decode(input: &str) -> (r: Result<Transcript, DecodeError>)
        ensures
            outcome_view(r) == Self::of_document(input@),
    {
        let root = parse_document(input)?;
        Self::from_element(&root)
    }
}

impl core::str::FromStr for Transcript {
    type Err = DecodeError;

    fn from_str(input: &str) -> (r: Result<Transcript, DecodeError>)
        ensures
            outcome_view(r) == Transcript::of_document(input@),
    {
        Transcript::decode(input)
    }
}

} // verus!
