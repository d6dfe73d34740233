use youtube_captions::error::DecodeError;
use youtube_captions::format::srv1::{Seconds, Transcript};

fn secs(seconds: &Seconds) -> f32 {
    seconds.as_str().parse::<f32>().unwrap()
}

#[test]
fn flat_document_with_one_segment() {
    let doc = r#"<transcript><text start="0.5" dur="2.3">Hi &amp; bye</text></transcript>"#;
    let transcript = Transcript::decode(doc).unwrap();
    assert_eq!(transcript.segments.len(), 1);
    let segment = &transcript.segments[0];
    assert_eq!(secs(&segment.start_secs), 0.5);
    assert_eq!(secs(&segment.duration_secs), 2.3);
    assert_eq!(segment.value, "Hi & bye");
}

#[test]
fn flat_document_with_prolog_and_many_segments() {
    let doc = "<?xml version=\"1.0\" encoding=\"utf-8\" ?><transcript>\n<text start=\"0\" dur=\"1.5\">one</text>\n<text start=\"1.5\" dur=\"2\">two &#39;quoted&#39;</text>\n</transcript>\n";
    let transcript = Transcript::decode(doc).unwrap();
    assert_eq!(transcript.segments.len(), 2);
    assert_eq!(transcript.segments[0].value, "one");
    assert_eq!(transcript.segments[1].value, "two 'quoted'");
    assert_eq!(secs(&transcript.segments[1].start_secs), 1.5);
}

#[test]
fn flat_document_unescapes_once() {
    let doc = r#"<transcript><text start="1" dur="1">&amp;amp; &amp;#39;</text></transcript>"#;
    let transcript = Transcript::decode(doc).unwrap();
    assert_eq!(transcript.segments[0].value, "&amp; &#39;");
}

#[test]
fn flat_document_rejects_bad_number() {
    let doc = r#"<transcript><text start="soon" dur="2.3">Hi</text></transcript>"#;
    assert_eq!(Transcript::decode(doc), Err(DecodeError::Number));
}

#[test]
fn flat_document_rejects_missing_duration() {
    let doc = r#"<transcript><text start="1">Hi</text></transcript>"#;
    assert_eq!(Transcript::decode(doc), Err(DecodeError::MissingAttribute));
}

#[test]
fn flat_document_rejects_unknown_entity() {
    let doc = r#"<transcript><text start="1" dur="2">a &bogus; b</text></transcript>"#;
    assert_eq!(Transcript::decode(doc), Err(DecodeError::Entity));
}

#[test]
fn flat_document_rejects_open_tag() {
    let doc = r#"<transcript><text start="1" dur="2">a"#;
    assert_eq!(Transcript::decode(doc), Err(DecodeError::Markup));
}

#[test]
fn flat_document_without_segments_is_rejected() {
    assert_eq!(Transcript::decode("<transcript></transcript>"), Err(DecodeError::Structure));
}

#[test]
fn flat_document_keeps_plain_text() {
    let doc = r#"<transcript><text start="3" dur="4">plain; text, no entity</text></transcript>"#;
    let transcript = Transcript::decode(doc).unwrap();
    assert_eq!(transcript.segments[0].value, "plain; text, no entity");
}

#[test]
fn flat_document_passes_over_other_elements() {
    let doc = r#"<transcript><note>x</note><text start="1" dur="2">a</text><!-- c --></transcript>"#;
    let transcript = Transcript::decode(doc).unwrap();
    assert_eq!(transcript.segments.len(), 1);
    let values: Vec<String> = transcript.into_iter().map(|segment| segment.value).collect();
    assert_eq!(values, vec!["a".to_string()]);
}

#[test]
fn flat_document_takes_cdata_as_it_is() {
    let doc = r#"<transcript><text start="1" dur="2">a<![CDATA[ &amp; ]]>b</text></transcript>"#;
    let transcript = Transcript::decode(doc).unwrap();
    assert_eq!(transcript.segments[0].value, "a &amp; b");
}

#[test]
fn flat_document_rejects_markup_in_text() {
    let doc = r#"<transcript><text start="1" dur="2">a<b>c</b></text></transcript>"#;
    assert_eq!(Transcript::decode(doc), Err(DecodeError::Structure));
}

#[test]
fn flat_document_parses_through_from_str() {
    let doc = r#"<transcript><text start="1e1" dur=".5">x</text></transcript>"#;
    let transcript: Transcript = doc.parse().unwrap();
    assert_eq!(secs(&transcript.segments[0].start_secs), 10.0);
    assert_eq!(secs(&transcript.segments[0].duration_secs), 0.5);
}

#[test]
fn end_is_start_plus_duration() {
    let doc = r#"<transcript><text start="0.5" dur="2.25">x</text></transcript>"#;
    let transcript = Transcript::decode(doc).unwrap();
    let segment = &transcript.segments[0];
    let end = secs(&segment.start_secs) + secs(&segment.duration_secs);
    assert_eq!(end, 2.75);
}

#[test]
fn seconds_accepts_what_a_float_parses() {
    for text in ["0", "0.5", "2.3", ".5", "5.", "+1", "-1.5", "1e3", "1E-3", "1.5e+10", "inf", "-Infinity", "NaN", "nan", "+INF"] {
        let seconds = Seconds::parse(text);
        assert!(seconds.is_some(), "{}", text);
        assert_eq!(seconds.unwrap().as_str(), text);
        assert!(text.parse::<f32>().is_ok(), "{}", text);
    }
}

#[test]
fn seconds_rejects_what_a_float_rejects() {
    for text in ["", "+", "-", ".", "e5", "1e", "1e+", " 1", "1 ", "1.2.3", "0x10", "1,5", "in", "infinit", "nanx", "--1", "1e5.0", "soon"] {
        assert!(Seconds::parse(text).is_none(), "{:?}", text);
        assert!(text.parse::<f32>().is_err(), "{:?}", text);
    }
}
