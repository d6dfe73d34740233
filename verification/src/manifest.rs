//! The manifest of caption tracks that a video page embeds: where it stands
//! in the page, and what it holds.
//!
//! The page holds no declared schema. The manifest is found by the fixed
//! texts around it, which are kept here in one place.

use crate::error::{outcome_view, Error};
use crate::json::{
    json_array, json_document, json_flag, json_is_null, json_items, json_member, json_of,
    json_text, parse_json, Json,
};
use crate::text::{
    chars_of, contains_text, find_text, first_occurrence, occurs,
};
use vstd::prelude::*;
use vstd::string::StrSliceExecFns;

verus! {

/// The text after which the manifest starts.
pub const CAPTIONS_MARKER: &'static str = "\"captions\":";

/// The text before which the manifest ends: the next key of the page's data.
pub const DETAILS_MARKER: &'static str = ",\"videoDetails";

/// The text that marks a page which asks for a captcha.
pub const CAPTCHA_MARKER: &'static str = "class=\"g-recaptcha\"";

/// The text that every page of an available video holds.
pub const PLAYABILITY_MARKER: &'static str = "\"playabilityStatus\":";

/// The key under which the manifest holds the track list.
pub const RENDERER_KEY: &'static str = "playerCaptionsTracklistRenderer";

/// Why a page without a manifest has none: a captcha is asked for; else the
/// video is gone, where the page does not even speak of playability; else
/// the video has no subtitles.
pub open spec fn absence_reason(html: Seq<char>) -> Error {
    if occurs(html, CAPTCHA_MARKER@) {
        Error::CaptchaRequired
    } else if !occurs(html, PLAYABILITY_MARKER@) {
        Error::VideoUnavailable
    } else {
        Error::TranscriptsDisabled
    }
}

/// The text of the manifest in a page: what stands between the first
/// `CAPTIONS_MARKER` and the first `DETAILS_MARKER` after it.
pub open spec fn manifest_text(html: Seq<char>) -> Result<Seq<char>, Error> {
    match first_occurrence(html, CAPTIONS_MARKER@) {
        None => Err(absence_reason(html)),
        Some(at) => {
            let rest = html.skip(at + CAPTIONS_MARKER@.len());
            match first_occurrence(rest, DETAILS_MARKER@) {
                None => Err(Error::TranscriptsDisabled),
                Some(end) => Ok(rest.take(end)),
            }
        },
    }
}

/// Cuts the text of the manifest out of a page.
pub fn locate_manifest(html: &str) -> (r: Result<String, Error>)
    ensures
        match manifest_text(html@) {
            Ok(text) => r is Ok && r.unwrap()@ == text,
            Err(error) => r == Err::<String, Error>(error),
        },
{
    let page = chars_of(html);
    let captions = chars_of(CAPTIONS_MARKER);
    assert(page@.skip(0) =~= page@);
    match find_text(&page, &captions, 0) {
        None => {
            let captcha = chars_of(CAPTCHA_MARKER);
            let playability = chars_of(PLAYABILITY_MARKER);
            if contains_text(&page, &captcha) {
                Err(Error::CaptchaRequired)
            } else if !contains_text(&page, &playability) {
                Err(Error::VideoUnavailable)
            } else {
                Err(Error::TranscriptsDisabled)
            }
        },
        Some(at) => {
            let start = at + captions.len();
            let details = chars_of(DETAILS_MARKER);
            match find_text(&page, &details, start) {
                None => Err(Error::TranscriptsDisabled),
                Some(end) => {
                    let text = html.substring_char(start, end);
                    assert(html@.subrange(start as int, end as int) =~= html@.skip(
                        start as int,
                    ).take(end - start));
                    Ok(text.to_owned())
                },
            }
        },
    }
}

/// The name of a track as the page shows it.
#[derive(Debug, Clone, PartialEq, Eq)]
pub struct RawName {
    pub text: String,
}

/// A caption track as the manifest describes it.
#[derive(Debug, Clone, PartialEq, Eq)]
pub struct RawCaptionTrack {
    pub base_url: String,
    pub language_code: String,
    pub is_translatable: bool,
    pub kind: Option<String>,
    pub name: RawName,
}

/// A language that tracks can be translated into.
#[derive(Debug, Clone, PartialEq, Eq)]
pub struct RawLanguage {
    pub code: String,
}

/// What the manifest holds: the tracks and the translation targets.
#[derive(Debug, Clone, PartialEq, Eq)]
pub struct RawDigest {
    pub caption_tracks: Vec<RawCaptionTrack>,
    pub translation_languages: Vec<RawLanguage>,
}

/// The mathematical value of a [`RawCaptionTrack`].
pub struct RawCaptionTrackView {
    pub base_url: Seq<char>,
    pub language_code: Seq<char>,
    pub is_translatable: bool,
    pub kind: Option<Seq<char>>,
    pub name: Seq<char>,
}

/// The mathematical value of a [`RawDigest`].
pub struct RawDigestView {
    pub caption_tracks: Seq<RawCaptionTrackView>,
    pub translation_languages: Seq<Seq<char>>,
}

impl View for RawCaptionTrack {
    type V = RawCaptionTrackView;

    open spec fn view(&self) -> RawCaptionTrackView {
        RawCaptionTrackView {
            base_url: self.base_url@,
            language_code: self.language_code@,
            is_translatable: self.is_translatable,
            kind: match self.kind {
                Some(kind) => Some(kind@),
                None => None,
            },
            name: self.name.text@,
        }
    }
}

impl View for RawLanguage {
    type V = Seq<char>;

    open spec fn view(&self) -> Seq<char> {
        self.code@
    }
}

impl View for RawDigest {
    type V = RawDigestView;

    open spec fn view(&self) -> RawDigestView {
        RawDigestView {
            caption_tracks: self.caption_tracks@.map_values(|t: RawCaptionTrack| t@),
            translation_languages: self.translation_languages@.map_values(|l: RawLanguage| l@),
        }
    }
}

/// The text that an object holds under `key`. The member has to be there and
/// has to be a string.
pub open spec fn text_member(value: Json, key: Seq<char>) -> Option<Seq<char>> {
    match value.member(key) {
        Some(member) => member.text(),
        None => None,
    }
}

/// The flag that an object holds under `key`, cleared where the member is
/// absent. A member that is no boolean is a mismatch.
pub open spec fn flag_member(value: Json, key: Seq<char>) -> Option<bool> {
    match value.member(key) {
        Some(member) => member.flag(),
        None => Some(false),
    }
}

/// The text that an object may hold under `key`: none where the member is
/// absent or `null`. A member that is neither `null` nor a string is a
/// mismatch.
pub open spec fn optional_text_member(value: Json, key: Seq<char>) -> Option<Option<Seq<char>>> {
    match value.member(key) {
        None => Some(None),
        Some(member) => if member is Null {
            Some(None)
        } else {
            match member.text() {
                Some(text) => Some(Some(text)),
                None => None,
            }
        },
    }
}

/// The track that a JSON value describes: `baseUrl`, `languageCode` and
/// `name.simpleText` are required texts, `isTranslatable` is a flag that
/// defaults to cleared, and `kind` is a text that may be absent.
pub open spec fn track_of(value: Json) -> Option<RawCaptionTrackView> {
    let base_url = text_member(value, "baseUrl"@);
    let language_code = text_member(value, "languageCode"@);
    let is_translatable = flag_member(value, "isTranslatable"@);
    let kind = optional_text_member(value, "kind"@);
    let name = match value.member("name"@) {
        Some(name) => text_member(name, "simpleText"@),
        None => None,
    };
    if base_url is Some && language_code is Some && is_translatable is Some && kind is Some
        && name is Some {
        Some(
            RawCaptionTrackView {
                base_url: base_url->0,
                language_code: language_code->0,
                is_translatable: is_translatable->0,
                kind: kind->0,
                name: name->0,
            },
        )
    } else {
        None
    }
}

/// The tracks that `items[i..]` describe, behind those in `done`.
pub open spec fn tracks_of(items: Seq<Json>, i: int, done: Seq<RawCaptionTrackView>) -> Option<
    Seq<RawCaptionTrackView>,
>
    decreases items.len() - i,
{
    if i < 0 || i >= items.len() {
        Some(done)
    } else {
        match track_of(items[i]) {
            Some(track) => tracks_of(items, i + 1, done.push(track)),
            None => None,
        }
    }
}

/// The language codes that `items[i..]` describe, behind those in `done`:
/// each item holds its code under `languageCode`.
pub open spec fn languages_of(items: Seq<Json>, i: int, done: Seq<Seq<char>>) -> Option<
    Seq<Seq<char>>,
>
    decreases items.len() - i,
{
    if i < 0 || i >= items.len() {
        Some(done)
    } else {
        match text_member(items[i], "languageCode"@) {
            Some(code) => languages_of(items, i + 1, done.push(code)),
            None => None,
        }
    }
}

/// The items of the array that an object holds under `key`.
pub open spec fn array_member(value: Json, key: Seq<char>) -> Option<Seq<Json>> {
    match value.member(key) {
        Some(member) => member.items(),
        None => None,
    }
}

/// What a parsed manifest holds: under `RENDERER_KEY` an object with the
/// arrays `captionTracks` and `translationLanguages`. Members that are not
/// named here are passed over.
pub open spec fn digest_of(document: Json) -> Option<RawDigestView> {
    match document.member(RENDERER_KEY@) {
        None => None,
        Some(renderer) => {
            let tracks = array_member(renderer, "captionTracks"@);
            let languages = array_member(renderer, "translationLanguages"@);
            if tracks is None {
                None
            } else if tracks_of(tracks->0, 0, Seq::empty()) is None {
                None
            } else if languages is None {
                None
            } else if languages_of(languages->0, 0, Seq::empty()) is None {
                None
            } else {
                Some(
                    RawDigestView {
                        caption_tracks: tracks_of(tracks->0, 0, Seq::empty())->0,
                        translation_languages: languages_of(languages->0, 0, Seq::empty())->0,
                    },
                )
            }
        },
    }
}

/// What the manifest of a page holds.
///
/// A page without a manifest gives the reason of its absence; a manifest that
/// is no JSON or not of the expected shape gives `InvalidJson`.
pub open spec fn manifest_of_page(html: Seq<char>) -> Result<RawDigestView, Error> {
    match manifest_text(html) {
        Err(error) => Err(error),
        Ok(text) => match json_document(text) {
            None => Err(Error::InvalidJson),
            Some(document) => match digest_of(document) {
                None => Err(Error::InvalidJson),
                Some(digest) => Ok(digest),
            },
        },
    }
}

/// Reads the text that an object holds under `key`.
fn read_text_member(value: &serde_json::Value, key: &str) -> (r: Option<String>)
    ensures
        match text_member(json_of(*value), key@) {
            Some(text) => r is Some && r.unwrap()@ == text,
            None => r is None,
        },
{
    match json_member(value, key) {
        None => None,
        Some(member) => match json_text(member) {
            Some(text) => Some(text.to_owned()),
            None => None,
        },
    }
}

/// Reads the track that a JSON value describes.
pub fn read_track(value: &serde_json::Value) -> (r: Option<RawCaptionTrack>)
    ensures
        match track_of(json_of(*value)) {
            Some(track) => r is Some && r.unwrap()@ == track,
            None => r is None,
        },
{
    let base_url = read_text_member(value, "baseUrl")?;
    let language_code = read_text_member(value, "languageCode")?;
    let is_translatable = match json_member(value, "isTranslatable") {
        None => false,
        Some(member) => json_flag(member)?,
    };
    let kind = match json_member(value, "kind") {
        None => None,
        Some(member) => if json_is_null(member) {
            None
        } else {
            Some(json_text(member)?.to_owned())
        },
    };
    let text = match json_member(value, "name") {
        None => {
            return None;
        },
        Some(name) => read_text_member(name, "simpleText")?,
    };
    Some(
        RawCaptionTrack { base_url, language_code, is_translatable, kind, name: RawName { text } },
    )
}

/// Reads what a parsed manifest holds.
#[verifier::loop_isolation(false)]
pub fn read_digest(document: &serde_json::Value) -> (r: Option<RawDigest>)
    ensures
        match digest_of(json_of(*document)) {
            Some(digest) => r is Some && r.unwrap()@ == digest,
            None => r is None,
        },
{
    let renderer = json_member(document, RENDERER_KEY)?;
    let tracks = match json_member(renderer, "captionTracks") {
        None => {
            return None;
        },
        Some(member) => json_array(member)?,
    };
    let ghost track_items = json_items(tracks@);
    let mut caption_tracks: Vec<RawCaptionTrack> = Vec::new();
    let mut i: usize = 0;
    assert(caption_tracks@.map_values(|t: RawCaptionTrack| t@) =~= Seq::empty());
    while i < tracks.len()
        invariant
            i <= tracks.len(),
            track_items == json_items(tracks@),
            tracks_of(track_items, 0, Seq::empty()) == tracks_of(
                track_items,
                i as int,
                caption_tracks@.map_values(|t: RawCaptionTrack| t@),
            ),
        decreases tracks.len() - i,
    {
        assert(track_items[i as int] == json_of(tracks@[i as int]));
        let track = read_track(&tracks[i])?;
        let ghost before = caption_tracks@.map_values(|t: RawCaptionTrack| t@);
        caption_tracks.push(track);
        assert(caption_tracks@.map_values(|t: RawCaptionTrack| t@) =~= before.push(track@));
        i += 1;
    }
    let languages = match json_member(renderer, "translationLanguages") {
        None => {
            return None;
        },
        Some(member) => json_array(member)?,
    };
    let ghost language_items = json_items(languages@);
    let mut translation_languages: Vec<RawLanguage> = Vec::new();
    let mut k: usize = 0;
    assert(translation_languages@.map_values(|l: RawLanguage| l@) =~= Seq::empty());
    while k < languages.len()
        invariant
            k <= languages.len(),
            language_items == json_items(languages@),
            languages_of(language_items, 0, Seq::empty()) == languages_of(
                language_items,
                k as int,
                translation_languages@.map_values(|l: RawLanguage| l@),
            ),
        decreases languages.len() - k,
    {
        assert(language_items[k as int] == json_of(languages@[k as int]));
        let code = read_text_member(&languages[k], "languageCode")?;
        let ghost before = translation_languages@.map_values(|l: RawLanguage| l@);
        let language = RawLanguage { code };
        translation_languages.push(language);
        assert(translation_languages@.map_values(|l: RawLanguage| l@) =~= before.push(language@));
        k += 1;
    }
    Some(RawDigest { caption_tracks, translation_languages })
}

/// Finds the manifest in a page, parses it and reads what it holds.
pub fn extract_captions_json(html: &str) -> (r: Result<RawDigest, Error>)
    ensures
        outcome_view(r) == manifest_of_page(html@),
{
    let text = locate_manifest(html)?;
    let document = match parse_json(text.as_str()) {
        Some(document) => document,
        None => {
            return Err(Error::InvalidJson);
        },
    };
    match read_digest(&document) {
        Some(digest) => Ok(digest),
        None => Err(Error::InvalidJson),
    }
}

/// What `tracks_of` gives from index `i` on: behind `done`, one track for
/// each item in its order, or nothing where one item describes none.
proof fn lemma_tracks_from(items: Seq<Json>, i: int, done: Seq<RawCaptionTrackView>)
    requires
        0 <= i <= items.len(),
    ensures
        match tracks_of(items, i, done) {
            Some(tracks) => {
                &&& tracks.len() == done.len() + items.len() - i
                &&& forall|j: int| 0 <= j < done.len() ==> tracks[j] == done[j]
                &&& forall|j: int|
                    i <= j < items.len() ==> track_of(items[j]) == Some(
                        tracks[done.len() + j - i],
                    )
            },
            None => exists|j: int| i <= j < items.len() && track_of(items[j]) is None,
        },
    decreases items.len() - i,
{
    if i < items.len() {
        match track_of(items[i]) {
            Some(track) => {
                let next = done.push(track);
                lemma_tracks_from(items, i + 1, next);
                match tracks_of(items, i + 1, next) {
                    Some(tracks) => {
                        assert(tracks[done.len() as int] == next[done.len() as int]);
                        assert forall|j: int| 0 <= j < done.len() implies tracks[j] == done[j] by {
                            assert(tracks[j] == next[j]);
                        }
                    },
                    None => {
                        let j = choose|j: int| i + 1 <= j < items.len() && track_of(items[j]) is None;
                        assert(i <= j < items.len() && track_of(items[j]) is None);
                    },
                }
            },
            None => {
                assert(i <= i < items.len() && track_of(items[i]) is None);
            },
        }
    }
}

/// The tracks of a manifest are the tracks that the items of its
/// `captionTracks` describe, one for one and in their order; one item that
/// describes no track spoils the list.
pub proof fn law_one_track_per_item(items: Seq<Json>)
    ensures
        match tracks_of(items, 0, Seq::empty()) {
            Some(tracks) => {
                &&& tracks.len() == items.len()
                &&& forall|j: int| 0 <= j < items.len() ==> track_of(items[j]) == Some(tracks[j])
            },
            None => exists|j: int| 0 <= j < items.len() && track_of(items[j]) is None,
        },
{
    lemma_tracks_from(items, 0, Seq::empty());
}

/// A page that holds no manifest, no word of playability and no captcha is
/// the page of a video that is gone.
pub proof fn law_unavailable_without_markers(html: Seq<char>)
    requires
        !occurs(html, CAPTIONS_MARKER@),
        !occurs(html, PLAYABILITY_MARKER@),
        !occurs(html, CAPTCHA_MARKER@),
    ensures
        manifest_of_page(html) == Err::<RawDigestView, Error>(Error::VideoUnavailable),
{
}

/// A page that holds no manifest but a captcha asks for the captcha, whatever
/// else it holds.
pub proof fn law_captcha_without_manifest(html: Seq<char>)
    requires
        !occurs(html, CAPTIONS_MARKER@),
        occurs(html, CAPTCHA_MARKER@),
    ensures
        manifest_of_page(html) == Err::<RawDigestView, Error>(Error::CaptchaRequired),
{
}

/// A page that holds no manifest has one of three reasons, and which one
/// depends on the page alone.
pub proof fn law_absence_is_classified(html: Seq<char>)
    requires
        !occurs(html, CAPTIONS_MARKER@),
    ensures
        manifest_of_page(html) == Err::<RawDigestView, Error>(absence_reason(html)),
        absence_reason(html) == Error::CaptchaRequired || absence_reason(html)
            == Error::VideoUnavailable || absence_reason(html) == Error::TranscriptsDisabled,
{
}

} // verus!
