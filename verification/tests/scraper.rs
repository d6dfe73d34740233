use language_tags::LanguageTag;
use youtube_captions::consent::{cookie_from_token, extract_consent_cookie, shows_consent_wall};
use youtube_captions::error::{DecodeError, Error};
use youtube_captions::format::Format;
use youtube_captions::manifest::{RawCaptionTrack, RawDigest, RawLanguage, RawName};
use youtube_captions::{Attempt, CaptionScraper, Digest, DigestScraper, PageAction};

const CONSENT_PAGE: &str = r#"<html><form action="https://consent.youtube.com/s" method="POST"><input type="hidden" name="gl" value="DE"><input type="hidden" name="v" value="cb.20210328-17-p0.en+FX+667"></form></html>"#;

const VIDEO_PAGE: &str = r#"<html>"playabilityStatus":{},"captions":{"playerCaptionsTracklistRenderer":{"captionTracks":[{"baseUrl":"https://example.test/tt?v=abc","name":{"simpleText":"English"},"languageCode":"en-us","isTranslatable":true},{"baseUrl":"https://example.test/tt?v=abc&kind=asr","name":{"simpleText":"Deutsch"},"languageCode":"de","kind":"asr"}],"translationLanguages":[{"languageCode":"fr"},{"languageCode":"it"},{"languageCode":"fr"}]}},"videoDetails":{}</html>"#;

fn track(code: &str, translatable: bool, kind: Option<&str>) -> RawCaptionTrack {
    RawCaptionTrack {
        base_url: "https://example.test/tt?v=abc".to_string(),
        language_code: code.to_string(),
        is_translatable: translatable,
        kind: kind.map(|k| k.to_string()),
        name: RawName { text: "Name".to_string() },
    }
}

#[test]
fn format_tags() {
    assert_eq!(Format::VTT.as_str(), "vtt");
    assert_eq!(Format::TTML.as_str(), "ttml");
    assert_eq!(Format::SRV1.as_str(), "srv1");
    assert_eq!(Format::SRV2.as_str(), "srv2");
    assert_eq!(Format::SRV3.as_str(), "srv3");
    assert_eq!(Format::JSON3.as_str(), "json3");
    let tag: &'static str = Format::SRV3.into();
    assert_eq!(tag, "srv3");
    assert_eq!(<&str>::from(Format::VTT), "vtt");
    assert_eq!(Format::default(), Format::SRV1);
}

#[test]
fn formats_with_a_decoder_decode() {
    let flat = r#"<transcript><text start="1" dur="2">x</text></transcript>"#;
    match Format::SRV1.decode(flat) {
        Some(Ok(youtube_captions::format::Transcript::Srv1(transcript))) => {
            assert_eq!(transcript.segments[0].value, "x")
        }
        other => panic!("{:?}", other),
    }
    assert_eq!(Format::SRV2.decode(flat), Some(Err(Error::InvalidXml(DecodeError::MissingAttribute))));
    assert_eq!(Format::SRV2.decode("<t><p/></t>"), Some(Err(Error::InvalidXml(DecodeError::Structure))));
    assert_eq!(Format::SRV3.decode(flat), Some(Err(Error::InvalidXml(DecodeError::MissingAttribute))));
    assert_eq!(Format::SRV1.decode("<a>"), Some(Err(Error::InvalidXml(DecodeError::Markup))));
    assert!(matches!(
        Format::SRV2.decode("<timedtext><text t=\"1\">x</text></timedtext>"),
        Some(Ok(youtube_captions::format::Transcript::Srv2(_)))
    ));
    assert!(matches!(
        Format::SRV3.decode("<timedtext format=\"3\"><head/><body><p t=\"1\">x</p></body></timedtext>"),
        Some(Ok(youtube_captions::format::Transcript::Srv3(_)))
    ));
    assert_eq!(Format::VTT.decode(flat), None);
    assert_eq!(Format::TTML.decode(flat), None);
    assert_eq!(Format::JSON3.decode(flat), None);
}

#[test]
fn page_address() {
    assert_eq!(
        DigestScraper::page_url("JRMOIE_wAFk", Some("de")),
        "https://youtube.com/watch?hl=de&persist_hl=1&v=JRMOIE_wAFk"
    );
    assert_eq!(
        DigestScraper::page_url("JRMOIE_wAFk", None),
        "https://youtube.com/watch?hl=en&persist_hl=1&v=JRMOIE_wAFk"
    );
}

#[test]
fn consent_cookie_carries_the_token() {
    assert!(shows_consent_wall(CONSENT_PAGE));
    assert!(!shows_consent_wall(VIDEO_PAGE));
    assert_eq!(
        extract_consent_cookie(CONSENT_PAGE),
        Ok("CONSENT=YES+cb.20210328-17-p0.en+FX+667;Domain=.youtube.com".to_string())
    );
    assert_eq!(cookie_from_token("t"), "CONSENT=YES+t;Domain=.youtube.com");
    assert_eq!(cookie_from_token(""), "CONSENT=YES+;Domain=.youtube.com");
    assert_eq!(
        extract_consent_cookie("name=\"v\" value=\"one\" name=\"v\" value=\"two\""),
        Ok("CONSENT=YES+one;Domain=.youtube.com".to_string())
    );
    assert_eq!(extract_consent_cookie("name=\"v\" value=\"open"), Err(Error::FailedToCreateConsentCookie));
    assert_eq!(extract_consent_cookie(VIDEO_PAGE), Err(Error::FailedToCreateConsentCookie));
}

/// Fetches a page as a caller of the library does, over a transport that
/// counts its calls and hands out the pages it was given.
fn fetch_page(scraper: &mut DigestScraper, pages: &[&str], calls: &mut usize) -> Result<String, Error> {
    let mut attempt = Attempt::First;
    loop {
        let cookie = scraper.cookie_header().to_string();
        let page = pages[*calls];
        *calls += 1;
        if *calls > 1 {
            assert!(cookie.starts_with("CONSENT=YES+"));
        }
        match scraper.receive_page(attempt, page) {
            PageAction::Accept => return Ok(page.to_string()),
            PageAction::Retry => attempt = Attempt::Second,
            PageAction::Fail(error) => return Err(error),
        }
    }
}

#[test]
fn consent_wall_twice_fails_after_two_fetches() {
    let mut scraper = DigestScraper::new();
    let mut calls = 0;
    let outcome = fetch_page(&mut scraper, &[CONSENT_PAGE, CONSENT_PAGE, VIDEO_PAGE], &mut calls);
    assert_eq!(outcome, Err(Error::FailedToCreateConsentCookie));
    assert_eq!(calls, 2);
}

#[test]
fn consent_wall_once_is_passed_with_the_cookie() {
    let mut scraper = DigestScraper::new();
    assert_eq!(scraper.cookie_header(), "");
    let mut calls = 0;
    let outcome = fetch_page(&mut scraper, &[CONSENT_PAGE, VIDEO_PAGE], &mut calls);
    assert_eq!(outcome, Ok(VIDEO_PAGE.to_string()));
    assert_eq!(calls, 2);
    assert_eq!(scraper.cookie_header(), "CONSENT=YES+cb.20210328-17-p0.en+FX+667;Domain=.youtube.com");
    let mut calls = 0;
    let outcome = fetch_page(&mut scraper, &[VIDEO_PAGE], &mut calls);
    assert_eq!(outcome, Ok(VIDEO_PAGE.to_string()));
    assert_eq!(calls, 1);
    assert_eq!(scraper.cookie_header(), "CONSENT=YES+cb.20210328-17-p0.en+FX+667;Domain=.youtube.com");
}

#[test]
fn consent_wall_without_token_fails_at_once() {
    let mut scraper = DigestScraper::default();
    let wall = r#"<form action="https://consent.youtube.com/s"></form>"#;
    assert_eq!(
        scraper.receive_page(Attempt::First, wall),
        PageAction::Fail(Error::FailedToCreateConsentCookie)
    );
    assert_eq!(scraper.cookie_header(), "");
    assert_eq!(scraper.receive_page(Attempt::First, VIDEO_PAGE), PageAction::Accept);
    assert_eq!(scraper.receive_page(Attempt::Second, VIDEO_PAGE), PageAction::Accept);
    assert_eq!(scraper.receive_page(Attempt::First, CONSENT_PAGE), PageAction::Retry);
}

#[test]
fn digest_of_a_page() {
    let digest = Digest::from_page(VIDEO_PAGE).unwrap();
    assert_eq!(digest.captions.len(), 2);
    let english = &digest.captions[0];
    assert_eq!(english.url(), "https://example.test/tt?v=abc");
    assert!(!english.is_generated);
    assert!(english.is_translatable);
    assert_eq!(english.lang_name, "English");
    assert_eq!(english.lang_tag, LanguageTag::parse("en-US").unwrap());
    assert_eq!(english.lang_tag.as_str(), "en-US");
    let german = &digest.captions[1];
    assert!(german.is_generated);
    assert!(!german.is_translatable);
    assert_eq!(german.lang_name, "Deutsch");
    assert!(LanguageTag::parse("de").unwrap().matches(&german.lang_tag));
    assert_eq!(digest.can_be_translated_to, vec!["fr".to_string(), "it".to_string()]);
    assert!(digest.can_translate_to("fr"));
    assert!(digest.can_translate_to("it"));
    assert!(!digest.can_translate_to("de"));
    assert_eq!(digest.check_translation_target(&LanguageTag::parse("fr").unwrap()), Ok(()));
    assert_eq!(
        digest.check_translation_target(&LanguageTag::parse("de").unwrap()),
        Err(Error::TranslationLanguageNotAvailable)
    );
}

#[test]
fn digest_of_a_page_without_manifest() {
    assert_eq!(Digest::from_page("<html></html>"), Err(Error::VideoUnavailable));
    assert_eq!(Digest::from_page("class=\"g-recaptcha\""), Err(Error::CaptchaRequired));
    assert_eq!(Digest::from_page("\"playabilityStatus\":"), Err(Error::TranscriptsDisabled));
}

#[test]
fn digest_of_a_manifest() {
    let manifest = RawDigest {
        caption_tracks: vec![track("en", true, None), track("ja", false, Some("asr")), track("ja", false, Some("other"))],
        translation_languages: vec![
            RawLanguage { code: "a".to_string() },
            RawLanguage { code: "b".to_string() },
            RawLanguage { code: "a".to_string() },
            RawLanguage { code: "a".to_string() },
            RawLanguage { code: "c".to_string() },
        ],
    };
    let digest = Digest::from_raw(&manifest).unwrap();
    assert_eq!(digest.captions.len(), 3);
    assert!(!digest.captions[0].is_generated);
    assert!(digest.captions[1].is_generated);
    assert!(!digest.captions[2].is_generated);
    assert_eq!(digest.can_be_translated_to, vec!["a".to_string(), "b".to_string(), "c".to_string()]);
    let spoiled = RawDigest { caption_tracks: vec![track("en", true, None), track("not a tag", true, None)], translation_languages: vec![] };
    assert_eq!(Digest::from_raw(&spoiled), Err(Error::InvalidJson));
    assert_eq!(CaptionScraper::from_raw(&track("", true, None)), None);
}

#[test]
fn track_address_takes_the_format() {
    let caption = CaptionScraper::from_raw(&track("en", true, None)).unwrap();
    assert_eq!(caption.fetch_url(Format::SRV1), "https://example.test/tt?v=abc&fmt=srv1");
    assert_eq!(caption.fetch_url(Format::JSON3), "https://example.test/tt?v=abc&fmt=json3");
    assert_eq!(caption.fetch_url(Format::default()), "https://example.test/tt?v=abc&fmt=srv1");
    assert_eq!(caption.url(), "https://example.test/tt?v=abc");
}

#[test]
fn translation_puts_its_parameter_behind_the_address() {
    let mut caption = CaptionScraper::from_raw(&track("en", true, None)).unwrap();
    let french = LanguageTag::parse("fr").unwrap();
    let swiss = LanguageTag::parse("de-ch").unwrap();
    assert!(caption.translate_to(&french).is_ok());
    assert_eq!(caption.url(), "https://example.test/tt?v=abc&tlang=fr");
    caption.translate_to(&swiss).unwrap().translate_to(&french).unwrap();
    assert_eq!(caption.url(), "https://example.test/tt?v=abc&tlang=fr&tlang=de-CH&tlang=fr");
    assert_eq!(caption.fetch_url(Format::SRV3), "https://example.test/tt?v=abc&tlang=fr&tlang=de-CH&tlang=fr&fmt=srv3");
    assert_eq!(caption.lang_name, "Name");
}

#[test]
fn translation_of_an_untranslatable_track_fails() {
    let untouched = CaptionScraper::from_raw(&track("en", false, None)).unwrap();
    for code in ["fr", "de", "en", "zh-Hant-TW", "x-private"] {
        let mut caption = untouched.clone();
        let language = LanguageTag::parse(code).unwrap();
        assert_eq!(caption.translate_to(&language).map(|_| ()), Err(Error::NotTranslatable));
        assert_eq!(caption, untouched);
    }
}

#[test]
fn language_codes_become_tags() {
    let caption = CaptionScraper::from_raw(&track("en-us", true, None)).unwrap();
    assert_eq!(caption.lang_tag, LanguageTag::parse("en-US").unwrap());
    assert_eq!(caption.lang_tag.as_str(), "en-US");
    assert_eq!(caption.clone().lang_tag.as_str(), "en-US");
    assert!(CaptionScraper::from_raw(&track("", true, None)).is_none());
    assert!(CaptionScraper::from_raw(&track("not a tag", true, None)).is_none());
}

#[test]
fn errors_say_what_happened() {
    assert_eq!(Error::from(DecodeError::Code), Error::InvalidXml(DecodeError::Code));
    assert_eq!(Error::VideoUnavailable.message(), "the video is no longer available");
    assert_eq!(Error::TranscriptsDisabled.message(), "subtitles are disabled for this video");
    assert_eq!(Error::NotTranslatable.message(), "the requested track is not translatable");
    assert!(Error::CaptchaRequired.message().contains("captcha"));
}
