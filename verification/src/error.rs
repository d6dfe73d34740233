//! The ways in which scraping and decoding can fail.

use vstd::prelude::*;

verus! {

/// Why a timed-text document was rejected.
#[derive(Debug, Clone, Copy, PartialEq, Eq, Hash, Structural)]
pub enum DecodeError {
    /// The markup is not well-formed: the reader gave up, a tag is left open,
    /// an attribute list is broken, or the document has no single root.
    Markup,
    /// An entity reference (`&...;`) could not be resolved.
    Entity,
    /// An element or character data stands where the format allows none, or a
    /// part that the format requires is absent.
    Structure,
    /// A required attribute is absent.
    MissingAttribute,
    /// An attribute that holds a number does not hold one of its type.
    Number,
    /// An attribute that holds a flag holds none of the accepted spellings.
    Flag,
    /// An enumeration code is outside the range of its enumeration.
    Code,
}

/// Why no captions could be had.
#[derive(Debug, Clone, Copy, PartialEq, Eq, Hash, Structural)]
pub enum Error {
    /// The video is no longer available.
    VideoUnavailable,
    /// The platform receives too many requests from this address and asks
    /// for a captcha. Solve it in a browser and hand over the cookie, use
    /// another address, or wait until the ban is lifted.
    CaptchaRequired,
    /// Subtitles are disabled for this video.
    TranscriptsDisabled,
    /// The track cannot be translated.
    NotTranslatable,
    /// The track cannot be translated into the language asked for.
    TranslationLanguageNotAvailable,
    /// The cookies handed over are not valid; they may have expired.
    CookiesInvalid,
    /// Consent to cookies could not be given automatically.
    FailedToCreateConsentCookie,
    /// The manifest of the caption tracks is no JSON, or not of the expected
    /// shape.
    InvalidJson,
    /// A timed-text document could not be decoded.
    InvalidXml(DecodeError),
}

impl Error {
    /// What the error says, in words.
    pub open spec fn spec_message(self) -> &'static str {
        match self {
            Error::VideoUnavailable => "the video is no longer available",
            Error::CaptchaRequired => {
                "too many requests from this address: a captcha has to be solved first"
            },
            Error::TranscriptsDisabled => "subtitles are disabled for this video",
            Error::NotTranslatable => "the requested track is not translatable",
            Error::TranslationLanguageNotAvailable => {
                "the requested translation language is not available"
            },
            Error::CookiesInvalid => "the cookies provided are not valid (they may have expired)",
            Error::FailedToCreateConsentCookie => "failed to give consent to saving cookies",
            Error::InvalidJson => "the caption manifest is not of the expected shape",
            Error::InvalidXml(_) => "the timed-text document is not of the expected shape",
        }
    }

    /// What the error says, in words.
    pub fn message(&self) -> (r: &'static str)
        ensures
            r == self.spec_message(),
    {
        match self {
            Error::VideoUnavailable => "the video is no longer available",
            Error::CaptchaRequired => {
                "too many requests from this address: a captcha has to be solved first"
            },
            Error::TranscriptsDisabled => "subtitles are disabled for this video",
            Error::NotTranslatable => "the requested track is not translatable",
            Error::TranslationLanguageNotAvailable => {
                "the requested translation language is not available"
            },
            Error::CookiesInvalid => "the cookies provided are not valid (they may have expired)",
            Error::FailedToCreateConsentCookie => "failed to give consent to saving cookies",
            Error::InvalidJson => "the caption manifest is not of the expected shape",
            Error::InvalidXml(_) => "the timed-text document is not of the expected shape",
        }
    }
}

impl vstd::std_specs::convert::FromSpecImpl<DecodeError> for Error {
    open spec fn obeys_from_spec() -> bool {
        true
    }

    open spec fn from_spec(e: DecodeError) -> Error {
        Error::InvalidXml(e)
    }
}

impl From<DecodeError> for Error {
    fn from(e: DecodeError) -> (r: Error) {
        Error::InvalidXml(e)
    }
}

/// The value of an outcome: the value of what was made, or the error as it is.
pub open spec fn outcome_view<T: View, E>(r: core::result::Result<T, E>) -> core::result::Result<
    T::V,
    E,
> {
    match r {
        Ok(t) => Ok(t@),
        Err(e) => Err(e),
    }
}

/// The outcome of an operation of this library.
pub type Result<T, E = Error> = core::result::Result<T, E>;

} // verus!
