//! The scraper of a video page, the digest it yields, and the handle of one
//! caption track.
//!
//! Nothing here touches the network. The scraper says which page to ask for
//! and what to do with the page that came back; the caller does the asking.

use crate::consent::{consent_cookie, extract_consent_cookie, is_consent_wall, shows_consent_wall};
use crate::error::{outcome_view, Error};
use crate::format::Format;
use crate::manifest::{
    extract_captions_json, manifest_of_page, RawCaptionTrack, RawCaptionTrackView, RawDigest,
    RawDigestView,
};
use crate::tags::{parse_tag, parsed_tag, tag_str, tag_text};
use crate::text::same_text;
use vstd::prelude::*;
use vstd::string::StringExecFns;

verus! {

/// What stands before the language in the address of a video page.
pub const PAGE_URL_PREFIX: &'static str = "https://youtube.com/watch?hl=";

/// What stands between the language and the video in the address of a video page.
pub const PAGE_URL_INFIX: &'static str = "&persist_hl=1&v=";

/// The language in which a page is asked for where the caller names none.
pub const DEFAULT_LANGUAGE: &'static str = "en";

/// The kind of a track that speech recognition made.
pub const GENERATED_KIND: &'static str = "asr";

/// The parameter that asks for a track in a format.
pub const FORMAT_PARAMETER: &'static str = "&fmt=";

/// The parameter that asks for the translation of a track.
pub const TRANSLATION_PARAMETER: &'static str = "&tlang=";

/// The handle of one caption track.
#[derive(Debug, Clone, PartialEq, Eq)]
pub struct CaptionScraper {
    /// The address from which the track is fetched; [`CaptionScraper::translate_to`]
    /// puts its parameter behind it
    pub url: String,
    /// Set where speech recognition made the track
    pub is_generated: bool,
    /// Set where the track can be translated with [`CaptionScraper::translate_to`]
    pub is_translatable: bool,
    pub lang_name: String,
    pub lang_tag: language_tags::LanguageTag,
}

/// The mathematical value of a [`CaptionScraper`].
pub struct CaptionScraperView {
    pub url: Seq<char>,
    pub is_generated: bool,
    pub is_translatable: bool,
    pub lang_name: Seq<char>,
    pub lang_tag: Seq<char>,
}

impl View for CaptionScraper {
    type V = CaptionScraperView;

    open spec fn view(&self) -> CaptionScraperView {
        CaptionScraperView {
            url: self.url@,
            is_generated: self.is_generated,
            is_translatable: self.is_translatable,
            lang_name: self.lang_name@,
            lang_tag: tag_text(self.lang_tag),
        }
    }
}

/// The handle that a track of the manifest gives: its address, its name, its
/// flags, and its language as a tag. A track is generated where its kind is
/// `asr`. A language code that is no well-formed tag gives no handle.
pub open spec fn caption_of(track: RawCaptionTrackView) -> Option<CaptionScraperView> {
    match parsed_tag(track.language_code) {
        None => None,
        Some(tag) => Some(
            CaptionScraperView {
                url: track.base_url,
                is_generated: track.kind == Some(GENERATED_KIND@),
                is_translatable: track.is_translatable,
                lang_name: track.name,
                lang_tag: tag,
            },
        ),
    }
}

impl CaptionScraper {
    /// The address from which the track is fetched.
    pub fn url(&self) -> (r: &str)
        ensures
            r@ == self@.url,
    {
        self.url.as_str()
    }

    /// Makes the handle of a track of the manifest.
    pub fn from_raw(track: &RawCaptionTrack) -> (r: Option<CaptionScraper>)
        ensures
            match caption_of(track@) {
                Some(caption) => r is Some && r.unwrap()@ == caption,
                None => r is None,
            },
    {
        let lang_tag = parse_tag(track.language_code.as_str())?;
        let is_generated = match &track.kind {
            Some(kind) => same_text(kind.as_str(), GENERATED_KIND),
            None => false,
        };
        Some(
            CaptionScraper {
                url: track.base_url.clone(),
                is_generated,
                is_translatable: track.is_translatable,
                lang_name: track.name.text.clone(),
                lang_tag,
            },
        )
    }

    /// The address from which the track comes in `format`: the address of the
    /// track with the parameter of the format behind it.
    pub open spec fn fetch_address(self, format: Format) -> Seq<char> {
        self@.url + FORMAT_PARAMETER@ + format.tag()
    }

    /// The address from which the track comes in `format`. The handle stays
    /// as it is.
    pub fn fetch_url(&self, format: Format) -> (r: String)
        ensures
            r@ == self.fetch_address(format),
    {
        let mut address = self.url.clone();
        address.append(FORMAT_PARAMETER);
        address.append(format.as_str());
        address
    }

    /// Asks for the translation of the track into `language`, which is made
    /// by machine. A track that is not translatable is left as it is and
    /// gives `NotTranslatable`, whatever the language. Otherwise the
    /// parameter of the translation is put behind the address; a second call
    /// puts a second one behind it.
    pub fn translate_to(&mut self, language: &language_tags::LanguageTag) -> (r: Result<
        &mut Self,
        Error,
    >)
        ensures
            !old(self).is_translatable ==> r is Err && r->Err_0 == Error::NotTranslatable
                && *final(self) == *old(self),
            old(self).is_translatable ==> r is Ok && (*r->Ok_0)@ == (CaptionScraperView {
                url: old(self)@.url + TRANSLATION_PARAMETER@ + tag_text(*language),
                ..old(self)@
            }) && *final(self) == *final(r->Ok_0),
    {
        if self.is_translatable {
            self.url.append(TRANSLATION_PARAMETER);
            self.url.append(tag_str(language));
            Ok(self)
        } else {
            Err(Error::NotTranslatable)
        }
    }
}

/// The handles that `tracks[i..]` give, behind those in `done`.
pub open spec fn captions_of(
    tracks: Seq<RawCaptionTrackView>,
    i: int,
    done: Seq<CaptionScraperView>,
) -> Option<Seq<CaptionScraperView>>
    decreases tracks.len() - i,
{
    if i < 0 || i >= tracks.len() {
        Some(done)
    } else {
        match caption_of(tracks[i]) {
            Some(caption) => captions_of(tracks, i + 1, done.push(caption)),
            None => None,
        }
    }
}

/// The texts of a list of strings.
pub open spec fn texts(list: Seq<String>) -> Seq<Seq<char>> {
    list.map_values(|s: String| s@)
}

/// The values of a list of handles.
pub open spec fn captions_view(captions: Seq<CaptionScraper>) -> Seq<CaptionScraperView> {
    captions.map_values(|c: CaptionScraper| c@)
}

/// What a video page yields: the handles of its caption tracks, and the
/// languages into which tracks can be translated.
#[derive(Debug, Clone, PartialEq, Eq)]
pub struct Digest {
    pub captions: Vec<CaptionScraper>,
    /// The codes of the translation targets, each of them once
    pub can_be_translated_to: Vec<String>,
}

/// The mathematical value of a [`Digest`].
pub struct DigestView {
    pub captions: Seq<CaptionScraperView>,
    pub can_be_translated_to: Set<Seq<char>>,
}

impl View for Digest {
    type V = DigestView;

    open spec fn view(&self) -> DigestView {
        DigestView {
            captions: captions_view(self.captions@),
            can_be_translated_to: texts(self.can_be_translated_to@).to_set(),
        }
    }
}

/// The digest that a manifest gives: a handle for each track, in the order of
/// the manifest, and the set of its translation targets. One track whose
/// language code is no well-formed tag spoils the manifest.
pub open spec fn digest_of_manifest(manifest: RawDigestView) -> Result<DigestView, Error> {
    match captions_of(manifest.caption_tracks, 0, Seq::empty()) {
        None => Err(Error::InvalidJson),
        Some(captions) => Ok(
            DigestView { captions, can_be_translated_to: manifest.translation_languages.to_set() },
        ),
    }
}

/// The digest that a video page gives.
pub open spec fn digest_of_page(html: Seq<char>) -> Result<DigestView, Error> {
    match manifest_of_page(html) {
        Err(error) => Err(error),
        Ok(manifest) => digest_of_manifest(manifest),
    }
}

/// Whether `code` stands in `codes`.
fn holds_code(codes: &Vec<String>, code: &str) -> (r: bool)
    ensures
        r == texts(codes@).contains(code@),
{
    let mut i: usize = 0;
    while i < codes.len()
        invariant
            i <= codes.len(),
            forall|j: int| 0 <= j < i ==> texts(codes@)[j] != code@,
        decreases codes.len() - i,
    {
        if same_text(codes[i].as_str(), code) {
            assert(texts(codes@)[i as int] == code@);
            return true;
        }
        i += 1;
    }
    false
}

impl Digest {
    /// No translation target stands twice in the list.
    pub open spec fn wf(&self) -> bool {
        texts(self.can_be_translated_to@).no_duplicates()
    }

    /// Makes the digest that a manifest gives.
    #[verifier::loop_isolation(false)]
    pub fn from_raw(manifest: &RawDigest) -> (r: Result<Digest, Error>)
        ensures
            outcome_view(r) == digest_of_manifest(manifest@),
            r is Ok ==> r.unwrap().wf(),
    {
        let ghost tracks = manifest@.caption_tracks;
        let mut captions: Vec<CaptionScraper> = Vec::new();
        let mut i: usize = 0;
        assert(captions_view(captions@) =~= Seq::empty());
        while i < manifest.caption_tracks.len()
            invariant
                i <= manifest.caption_tracks.len(),
                captions_of(tracks, 0, Seq::empty()) == captions_of(
                    tracks,
                    i as int,
                    captions_view(captions@),
                ),
            decreases manifest.caption_tracks.len() - i,
        {
            assert(tracks[i as int] == manifest.caption_tracks@[i as int]@);
            let caption = match CaptionScraper::from_raw(&manifest.caption_tracks[i]) {
                Some(caption) => caption,
                None => {
                    return Err(Error::InvalidJson);
                },
            };
            let ghost before = captions_view(captions@);
            captions.push(caption);
            assert(captions_view(captions@) =~= before.push(caption@));
            i += 1;
        }
        let ghost codes = manifest@.translation_languages;
        let mut targets: Vec<String> = Vec::new();
        let mut k: usize = 0;
        assert(texts(targets@) =~= Seq::empty());
        assert(codes.take(0) =~= Seq::empty());
        assert(texts(targets@).to_set() =~= codes.take(0).to_set());
        while k < manifest.translation_languages.len()
            invariant
                k <= manifest.translation_languages.len(),
                texts(targets@).no_duplicates(),
                texts(targets@).to_set() == codes.take(k as int).to_set(),
            decreases manifest.translation_languages.len() - k,
        {
            let code = &manifest.translation_languages[k].code;
            assert(codes[k as int] == code@);
            let ghost before = texts(targets@);
            let ghost seen = codes.take(k as int);
            assert(codes.take(k + 1) =~= seen.push(code@));
            if !holds_code(&targets, code.as_str()) {
                targets.push(code.clone());
                assert(texts(targets@) =~= before.push(code@));
                assert(texts(targets@).to_set() =~= codes.take(k + 1).to_set()) by {
                    assert forall|c: Seq<char>| texts(targets@).contains(c) == codes.take(
                        k + 1,
                    ).contains(c) by {
                        if before.push(code@).contains(c) {
                            let j = choose|j: int|
                                0 <= j < before.push(code@).len() && before.push(code@)[j] == c;
                            if j < before.len() {
                                assert(before[j] == c);
                                assert(before.to_set().contains(c));
                                assert(seen.contains(c));
                                let m = choose|m: int| 0 <= m < seen.len() && seen[m] == c;
                                assert(seen.push(code@)[m] == c);
                            } else {
                                assert(seen.push(code@)[seen.len() as int] == c);
                            }
                        }
                        if seen.push(code@).contains(c) {
                            let j = choose|j: int|
                                0 <= j < seen.push(code@).len() && seen.push(code@)[j] == c;
                            if j < seen.len() {
                                assert(seen[j] == c);
                                assert(seen.to_set().contains(c));
                                assert(before.contains(c));
                                let m = choose|m: int| 0 <= m < before.len() && before[m] == c;
                                assert(before.push(code@)[m] == c);
                            } else {
                                assert(before.push(code@)[before.len() as int] == c);
                            }
                        }
                    }
                }
            } else {
                assert(texts(targets@).to_set() =~= codes.take(k + 1).to_set()) by {
                    assert forall|c: Seq<char>| before.contains(c) == seen.push(code@).contains(
                        c,
                    ) by {
                        if before.contains(c) {
                            assert(before.to_set().contains(c));
                            assert(seen.contains(c));
                            let m = choose|m: int| 0 <= m < seen.len() && seen[m] == c;
                            assert(seen.push(code@)[m] == c);
                        }
                        if seen.push(code@).contains(c) {
                            let j = choose|j: int|
                                0 <= j < seen.push(code@).len() && seen.push(code@)[j] == c;
                            if j < seen.len() {
                                assert(seen[j] == c);
                                assert(seen.to_set().contains(c));
                            }
                        }
                    }
                }
            }
            k += 1;
        }
        assert(codes.take(codes.len() as int) =~= codes);
        Ok(Digest { captions, can_be_translated_to: targets })
    }

    /// Makes the digest of a video page: finds the manifest, reads it, and
    /// makes a handle for each track.
    pub fn from_page(html: &str) -> (r: Result<Digest, Error>)
        ensures
            outcome_view(r) == digest_of_page(html@),
            r is Ok ==> r.unwrap().wf(),
    {
        let manifest = extract_captions_json(html)?;
        Digest::from_raw(&manifest)
    }

    /// Checks that tracks can be translated into `language`, which
    /// [`CaptionScraper::translate_to`] does not check by itself: a language
    /// that is not among the translation targets gives
    /// `TranslationLanguageNotAvailable`.
    pub fn check_translation_target(&self, language: &language_tags::LanguageTag) -> (r: Result<
        (),
        Error,
    >)
        ensures
            r == if self@.can_be_translated_to.contains(tag_text(*language)) {
                Ok::<(), Error>(())
            } else {
                Err::<(), Error>(Error::TranslationLanguageNotAvailable)
            },
    {
        if holds_code(&self.can_be_translated_to, tag_str(language)) {
            Ok(())
        } else {
            Err(Error::TranslationLanguageNotAvailable)
        }
    }

    /// Whether tracks can be translated into the language of `code`.
    pub fn can_translate_to(&self, code: &str) -> (r: bool)
        ensures
            r == self@.can_be_translated_to.contains(code@),
    {
        holds_code(&self.can_be_translated_to, code)
    }
}

/// Which fetch of a video page came back.
#[derive(Debug, Clone, Copy, PartialEq, Eq, Structural)]
pub enum Attempt {
    /// The first fetch
    First,
    /// The fetch that followed the consent cookie
    Second,
}

/// What to do with a page that came back.
#[derive(Debug, Clone, Copy, PartialEq, Eq, Structural)]
pub enum PageAction {
    /// The page is the video page: go on with it.
    Accept,
    /// The page is the consent form and the cookie that passes it is stored:
    /// fetch the page once more.
    Retry,
    /// Give up with this error.
    Fail(Error),
}

/// What a page that came back asks for: the page is accepted unless it is the
/// consent form; the form is answered once, with the cookie made from it; a
/// form without a token, and a form that comes back after the cookie, end
/// the fetch.
pub open spec fn action_for(attempt: Attempt, html: Seq<char>) -> PageAction {
    if !is_consent_wall(html) {
        PageAction::Accept
    } else if attempt == Attempt::Second {
        PageAction::Fail(Error::FailedToCreateConsentCookie)
    } else if consent_cookie(html) is Err {
        PageAction::Fail(Error::FailedToCreateConsentCookie)
    } else {
        PageAction::Retry
    }
}

/// The scraper of video pages. It keeps the consent cookie once it has made
/// one, for as long as it lives.
#[derive(Debug, Clone, PartialEq, Eq)]
pub struct DigestScraper {
    cookie: Option<String>,
}

impl DigestScraper {
    /// The cookie that the scraper keeps, if it keeps one.
    pub closed spec fn cookie(&self) -> Option<Seq<char>> {
        match self.cookie {
            Some(cookie) => Some(cookie@),
            None => None,
        }
    }

    /// A scraper that keeps no cookie yet.
    pub fn new() -> (r: DigestScraper)
        ensures
            r.cookie() is None,
    {
        DigestScraper { cookie: None }
    }

    /// The value of the `Cookie` header of every request: the cookie that the
    /// scraper keeps, or nothing.
    pub fn cookie_header(&self) -> (r: &str)
        ensures
            r@ == match self.cookie() {
                Some(cookie) => cookie,
                None => Seq::<char>::empty(),
            },
    {
        match &self.cookie {
            Some(cookie) => cookie.as_str(),
            None => {
                let empty = "";
                proof {
                    reveal_strlit("");
                }
                assert(empty@ =~= Seq::<char>::empty());
                empty
            },
        }
    }

    /// The address of the page of a video in a language.
    pub open spec fn page_address(video_id: Seq<char>, lang: Seq<char>) -> Seq<char> {
        PAGE_URL_PREFIX@ + lang + PAGE_URL_INFIX@ + video_id
    }

    /// The address of the page of a video, in `lang` or, where none is named,
    /// in the default language.
    pub fn page_url(video_id: &str, lang: Option<&str>) -> (r: String)
        ensures
            r@ == Self::page_address(
                video_id@,
                match lang {
                    Some(lang) => lang@,
                    None => DEFAULT_LANGUAGE@,
                },
            ),
    {
        let lang = match lang {
            Some(lang) => lang,
            None => DEFAULT_LANGUAGE,
        };
        let mut address = String::from_str(PAGE_URL_PREFIX);
        address.append(lang);
        address.append(PAGE_URL_INFIX);
        address.append(video_id);
        address
    }

    /// Decides what to do with a page that came back, and stores the consent
    /// cookie where the page asks for one.
    ///
    /// The cookie changes only with `Retry`, which never follows the second
    /// fetch: no page is fetched a third time.
    pub fn receive_page(&mut self, attempt: Attempt, html: &str) -> (action: PageAction)
        ensures
            action == action_for(attempt, html@),
            action == PageAction::Retry ==> consent_cookie(html@) is Ok && final(self).cookie()
                == Some(consent_cookie(html@)->Ok_0),
            action != PageAction::Retry ==> final(self).cookie() == old(self).cookie(),
            attempt == Attempt::Second ==> action != PageAction::Retry,
    {
        if !shows_consent_wall(html) {
            return PageAction::Accept;
        }
        match attempt {
            Attempt::Second => PageAction::Fail(Error::FailedToCreateConsentCookie),
            Attempt::First => match extract_consent_cookie(html) {
                Ok(cookie) => {
                    self.cookie = Some(cookie);
                    PageAction::Retry
                },
                Err(error) => PageAction::Fail(error),
            },
        }
    }
}

impl Default for DigestScraper {
    fn default() -> (r: DigestScraper)
        ensures
            r.cookie() is None,
    {
        DigestScraper::new()
    }
}

/// What `captions_of` gives from index `i` on: behind `done`, one handle for
/// each track in its order, or nothing where one track gives none.
proof fn lemma_captions_from(
    tracks: Seq<RawCaptionTrackView>,
    i: int,
    done: Seq<CaptionScraperView>,
)
    requires
        0 <= i <= tracks.len(),
    ensures
        match captions_of(tracks, i, done) {
            Some(captions) => {
                &&& captions.len() == done.len() + tracks.len() - i
                &&& forall|j: int| 0 <= j < done.len() ==> captions[j] == done[j]
                &&& forall|j: int|
                    i <= j < tracks.len() ==> caption_of(tracks[j]) == Some(
                        captions[done.len() + j - i],
                    )
            },
            None => exists|j: int| i <= j < tracks.len() && caption_of(tracks[j]) is None,
        },
    decreases tracks.len() - i,
{
    if i < tracks.len() {
        match caption_of(tracks[i]) {
            Some(caption) => {
                let next = done.push(caption);
                lemma_captions_from(tracks, i + 1, next);
                match captions_of(tracks, i + 1, next) {
                    Some(captions) => {
                        assert(captions[done.len() as int] == next[done.len() as int]);
                        assert forall|j: int| 0 <= j < done.len() implies captions[j]
                            == done[j] by {
                            assert(captions[j] == next[j]);
                        }
                    },
                    None => {
                        let j = choose|j: int|
                            i + 1 <= j < tracks.len() && caption_of(tracks[j]) is None;
                        assert(i <= j < tracks.len() && caption_of(tracks[j]) is None);
                    },
                }
            },
            None => {
                assert(i <= i < tracks.len() && caption_of(tracks[i]) is None);
            },
        }
    }
}

/// A digest holds one handle for each track of the manifest, in the order of
/// the manifest; and a manifest gives no digest exactly where one of its
/// tracks gives no handle.
pub proof fn law_one_handle_per_track(manifest: RawDigestView)
    ensures
        match digest_of_manifest(manifest) {
            Ok(digest) => {
                &&& digest.captions.len() == manifest.caption_tracks.len()
                &&& forall|j: int|
                    0 <= j < manifest.caption_tracks.len() ==> caption_of(
                        manifest.caption_tracks[j],
                    ) == Some(digest.captions[j])
            },
            Err(error) => {
                &&& error == Error::InvalidJson
                &&& exists|j: int|
                    0 <= j < manifest.caption_tracks.len() && caption_of(
                        manifest.caption_tracks[j],
                    ) is None
            },
        },
{
    lemma_captions_from(manifest.caption_tracks, 0, Seq::empty());
}

/// A page that holds no manifest gives no digest, and the reason depends on
/// the page alone: a captcha where it shows one, else a video that is gone
/// where it does not speak of playability, else disabled subtitles.
pub proof fn law_page_without_manifest(html: Seq<char>)
    requires
        !crate::text::occurs(html, crate::manifest::CAPTIONS_MARKER@),
    ensures
        digest_of_page(html) == Err::<DigestView, Error>(crate::manifest::absence_reason(html)),
{
}

/// The handshake ends: a page that is no consent form is accepted, the form
/// is answered at most once, and a form that comes back after the cookie
/// fails the fetch.
pub proof fn law_handshake_ends(attempt: Attempt, html: Seq<char>)
    ensures
        attempt == Attempt::Second ==> action_for(attempt, html) != PageAction::Retry,
        !is_consent_wall(html) ==> action_for(attempt, html) == PageAction::Accept,
        is_consent_wall(html) && attempt == Attempt::Second ==> action_for(attempt, html)
            == PageAction::Fail(Error::FailedToCreateConsentCookie),
{
}

} // verus!
