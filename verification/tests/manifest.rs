use youtube_captions::error::Error;
use youtube_captions::manifest::{
    extract_captions_json, locate_manifest, read_digest, read_track, RawCaptionTrack, RawDigest,
    RawLanguage, RawName,
};

const MANIFEST: &str = r#"{"playerCaptionsTracklistRenderer":{"captionTracks":[{"baseUrl":"https://example.test/api/timedtext?v=abc&lang=en","name":{"simpleText":"English"},"vssId":".en","languageCode":"en","isTranslatable":true},{"baseUrl":"https://example.test/api/timedtext?v=abc&lang=de&kind=asr","name":{"simpleText":"German (auto-generated)"},"languageCode":"de","kind":"asr"}],"audioTracks":[{"captionTrackIndices":[0]}],"translationLanguages":[{"languageCode":"fr","languageName":{"simpleText":"French"}},{"languageCode":"it","languageName":{"simpleText":"Italian"}}],"defaultAudioTrackIndex":0}}"#;

fn page(manifest: &str) -> String {
    format!(
        "<html><script>var r = {{\"playabilityStatus\":{{\"status\":\"OK\"}},\"captions\":{},\"videoDetails\":{{\"videoId\":\"abc\"}}}};</script></html>",
        manifest
    )
}

fn expected() -> RawDigest {
    RawDigest {
        caption_tracks: vec![
            RawCaptionTrack {
                base_url: "https://example.test/api/timedtext?v=abc&lang=en".to_string(),
                language_code: "en".to_string(),
                is_translatable: true,
                kind: None,
                name: RawName { text: "English".to_string() },
            },
            RawCaptionTrack {
                base_url: "https://example.test/api/timedtext?v=abc&lang=de&kind=asr".to_string(),
                language_code: "de".to_string(),
                is_translatable: false,
                kind: Some("asr".to_string()),
                name: RawName { text: "German (auto-generated)".to_string() },
            },
        ],
        translation_languages: vec![
            RawLanguage { code: "fr".to_string() },
            RawLanguage { code: "it".to_string() },
        ],
    }
}

#[test]
fn manifest_is_cut_out_of_the_page() {
    assert_eq!(locate_manifest(&page(MANIFEST)), Ok(MANIFEST.to_string()));
    assert_eq!(locate_manifest("x\"captions\":{é},\"videoDetails\"captions\":2,\"videoDetails"), Ok("{é}".to_string()));
    assert_eq!(locate_manifest("\"captions\":,\"videoDetails"), Ok(String::new()));
}

#[test]
fn manifest_is_read() {
    assert_eq!(extract_captions_json(&page(MANIFEST)), Ok(expected()));
}

#[test]
fn page_without_markers_is_an_unavailable_video() {
    assert_eq!(extract_captions_json("<html>nothing here</html>"), Err(Error::VideoUnavailable));
    assert_eq!(extract_captions_json(""), Err(Error::VideoUnavailable));
}

#[test]
fn page_with_captcha_asks_for_it() {
    let with_captcha = "<html><div class=\"g-recaptcha\"></div></html>";
    assert_eq!(extract_captions_json(with_captcha), Err(Error::CaptchaRequired));
    let with_both = "<html><div class=\"g-recaptcha\"></div>\"playabilityStatus\":{}</html>";
    assert_eq!(extract_captions_json(with_both), Err(Error::CaptchaRequired));
}

#[test]
fn page_with_playability_only_has_no_subtitles() {
    let html = "<html>\"playabilityStatus\":{\"status\":\"OK\"}</html>";
    assert_eq!(extract_captions_json(html), Err(Error::TranscriptsDisabled));
}

#[test]
fn manifest_without_its_end_counts_as_disabled() {
    let html = "\"playabilityStatus\":{},\"captions\":{\"playerCaptionsTracklistRenderer\":{}}";
    assert_eq!(extract_captions_json(html), Err(Error::TranscriptsDisabled));
    let captcha_after_marker = "\"captions\":{} class=\"g-recaptcha\"";
    assert_eq!(extract_captions_json(captcha_after_marker), Err(Error::TranscriptsDisabled));
}

#[test]
fn manifest_that_is_no_json_is_invalid() {
    assert_eq!(extract_captions_json(&page("{not json}")), Err(Error::InvalidJson));
    assert_eq!(extract_captions_json(&page("")), Err(Error::InvalidJson));
    assert_eq!(extract_captions_json(&page("{} {}")), Err(Error::InvalidJson));
}

#[test]
fn manifest_of_another_shape_is_invalid() {
    for manifest in [
        "{}",
        "[]",
        "null",
        r#"{"playerCaptionsTracklistRenderer":{}}"#,
        r#"{"playerCaptionsTracklistRenderer":{"captionTracks":[]}}"#,
        r#"{"playerCaptionsTracklistRenderer":{"captionTracks":{},"translationLanguages":[]}}"#,
        r#"{"playerCaptionsTracklistRenderer":{"captionTracks":[{}],"translationLanguages":[]}}"#,
        r#"{"playerCaptionsTracklistRenderer":{"captionTracks":[],"translationLanguages":[{"languageCode":1}]}}"#,
        r#"{"playerCaptionsTracklistRenderer":{"captionTracks":[{"baseUrl":"u","languageCode":"en","name":{"simpleText":"E"},"isTranslatable":null}],"translationLanguages":[]}}"#,
        r#"{"playerCaptionsTracklistRenderer":{"captionTracks":[{"baseUrl":"u","languageCode":"en","name":{"simpleText":"E"},"kind":7}],"translationLanguages":[]}}"#,
        r#"{"playerCaptionsTracklistRenderer":{"captionTracks":[{"baseUrl":"u","languageCode":"en","name":"E"}],"translationLanguages":[]}}"#,
    ] {
        assert_eq!(extract_captions_json(&page(manifest)), Err(Error::InvalidJson), "{}", manifest);
    }
}

#[test]
fn manifest_members_have_their_defaults() {
    let manifest = r#"{"playerCaptionsTracklistRenderer":{"captionTracks":[{"baseUrl":"u","languageCode":"en","name":{"simpleText":"E"},"kind":null}],"translationLanguages":[]}}"#;
    let digest = extract_captions_json(&page(manifest)).unwrap();
    assert_eq!(
        digest,
        RawDigest {
            caption_tracks: vec![RawCaptionTrack {
                base_url: "u".to_string(),
                language_code: "en".to_string(),
                is_translatable: false,
                kind: None,
                name: RawName { text: "E".to_string() },
            }],
            translation_languages: vec![],
        }
    );
}

#[test]
fn parsed_values_are_read() {
    let value = serde_json::from_str::<serde_json::Value>(MANIFEST).unwrap();
    assert_eq!(read_digest(&value), Some(expected()));
    let track = serde_json::from_str::<serde_json::Value>(
        r#"{"baseUrl":"u","languageCode":"pt-BR","name":{"simpleText":"P"},"isTranslatable":true,"kind":"asr"}"#,
    )
    .unwrap();
    assert_eq!(
        read_track(&track),
        Some(RawCaptionTrack {
            base_url: "u".to_string(),
            language_code: "pt-BR".to_string(),
            is_translatable: true,
            kind: Some("asr".to_string()),
            name: RawName { text: "P".to_string() },
        })
    );
    assert_eq!(read_track(&serde_json::Value::Null), None);
}
