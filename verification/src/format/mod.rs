//! The wire formats in which a caption track can be asked for, and the
//! decoders of the structured ones.

pub mod json3;
pub mod srv1;
pub mod srv2;
pub mod srv3;

use crate::error::{outcome_view, Error};
use vstd::prelude::*;
use vstd::std_specs::convert::FromSpecImpl;

verus! {

/// A wire format of caption tracks.
#[derive(Debug, Clone, Copy, PartialEq, Eq, Hash, Structural)]
pub enum Format {
    /// Web Video Text Tracks
    VTT,
    /// Timed Text Markup Language
    TTML,
    /// Timed text, version 1: a flat list of timed segments
    SRV1,
    /// Timed text, version 2: segments and window definitions
    SRV2,
    /// Timed text, version 3: styled segments over pens and windows
    SRV3,
    /// The JSON rendering of version 3
    JSON3,
}

impl Format {
    /// The identifier that stands for the format in a request.
    pub open spec fn tag(self) -> Seq<char> {
        match self {
            Format::VTT => "vtt"@,
            Format::TTML => "ttml"@,
            Format::SRV1 => "srv1"@,
            Format::SRV2 => "srv2"@,
            Format::SRV3 => "srv3"@,
            Format::JSON3 => "json3"@,
        }
    }

    /// The identifier that stands for the format in a request.
    pub fn as_str(self) -> (r: &'static str)
        ensures
            r@ == self.tag(),
    {
        match self {
            Format::VTT => "vtt",
            Format::TTML => "ttml",
            Format::SRV1 => "srv1",
            Format::SRV2 => "srv2",
            Format::SRV3 => "srv3",
            Format::JSON3 => "json3",
        }
    }
}

impl Default for Format {
    fn default() -> (r: Format)
        ensures
            r == Format::SRV1,
    {
        Format::SRV1
    }
}

impl From<Format> for &'static str {
    fn from(value: Format) -> (r: &'static str) {
        match value {
            Format::VTT => "vtt",
            Format::TTML => "ttml",
            Format::SRV1 => "srv1",
            Format::SRV2 => "srv2",
            Format::SRV3 => "srv3",
            Format::JSON3 => "json3",
        }
    }
}

impl FromSpecImpl<Format> for &'static str {
    open spec fn obeys_from_spec() -> bool {
        true
    }

    open spec fn from_spec(value: Format) -> &'static str {
        match value {
            Format::VTT => "vtt",
            Format::TTML => "ttml",
            Format::SRV1 => "srv1",
            Format::SRV2 => "srv2",
            Format::SRV3 => "srv3",
            Format::JSON3 => "json3",
        }
    }
}

/// A decoded document of any format that has a decoder.
#[derive(Debug, Clone, PartialEq, Eq)]
pub enum Transcript {
    Srv1(srv1::Transcript),
    Srv2(srv2::Transcript),
    Srv3(srv3::Transcript),
}

/// The mathematical value of a [`Transcript`].
pub enum TranscriptView {
    Srv1(srv1::TranscriptView),
    Srv2(srv2::TranscriptView),
    Srv3(srv3::TranscriptView),
}

impl View for Transcript {
    type V = TranscriptView;

    open spec fn view(&self) -> TranscriptView {
        match self {
            Transcript::Srv1(transcript) => TranscriptView::Srv1(transcript@),
            Transcript::Srv2(transcript) => TranscriptView::Srv2(transcript@),
            Transcript::Srv3(transcript) => TranscriptView::Srv3(transcript@),
        }
    }
}

impl Format {
    /// Whether a decoder for the format exists. A format without one can
    /// still be fetched as text.
    pub open spec fn has_decoder(self) -> bool {
        self == Format::SRV1 || self == Format::SRV2 || self == Format::SRV3
    }

    /// What a document of the format says; `None` for a format without a
    /// decoder. A document that its decoder rejects gives `InvalidXml` with
    /// the reason.
    pub open spec fn decoded(self, input: Seq<char>) -> Option<Result<TranscriptView, Error>> {
        match self {
            Format::SRV1 => Some(
                match srv1::Transcript::of_document(input) {
                    Ok(transcript) => Ok(TranscriptView::Srv1(transcript)),
                    Err(error) => Err(Error::InvalidXml(error)),
                },
            ),
            Format::SRV2 => Some(
                match srv2::Transcript::of_document(input) {
                    Ok(transcript) => Ok(TranscriptView::Srv2(transcript)),
                    Err(error) => Err(Error::InvalidXml(error)),
                },
            ),
            Format::SRV3 => Some(
                match srv3::Transcript::of_document(input) {
                    Ok(transcript) => Ok(TranscriptView::Srv3(transcript)),
                    Err(error) => Err(Error::InvalidXml(error)),
                },
            ),
            _ => None,
        }
    }

    /// Decodes a document with the decoder of the format, if there is one.
    pub fn decode(self, input: &str) -> (r: Option<Result<Transcript, Error>>)
        ensures
            match self.decoded(input@) {
                Some(outcome) => r is Some && outcome_view(r.unwrap()) == outcome,
                None => r is None,
            },
            r is Some <==> self.has_decoder(),
    {
        match self {
            Format::SRV1 => Some(
                match srv1::Transcript::decode(input) {
                    Ok(transcript) => Ok(Transcript::Srv1(transcript)),
                    Err(error) => Err(Error::InvalidXml(error)),
                },
            ),
            Format::SRV2 => Some(
                match srv2::Transcript::decode(input) {
                    Ok(transcript) => Ok(Transcript::Srv2(transcript)),
                    Err(error) => Err(Error::InvalidXml(error)),
                },
            ),
            Format::SRV3 => Some(
                match srv3::Transcript::decode(input) {
                    Ok(transcript) => Ok(Transcript::Srv3(transcript)),
                    Err(error) => Err(Error::InvalidXml(error)),
                },
            ),
            _ => None,
        }
    }
}

} // verus!
