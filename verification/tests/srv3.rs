use youtube_captions::error::DecodeError;
use youtube_captions::format::srv3::{
    AnchorPoint, Body, EdgeType, Element, FontStyle, Head, ModeHint, Pen, PrintDirection,
    RubyPart, Span, Text, TextAlignment, TextSegment, Transcript, VerticalAlignment, Window,
    WindowPosition, WindowStyle,
};
use youtube_captions::xml::fields::Coded;

const STYLED: &str = r##"<?xml version="1.0" encoding="utf-8" ?><timedtext format="3">
<head>
<pen id="1" b="1" fc="#E5E5E5" fo="254" et="3" fs="4" si="120" of="2"/>
<ws id="1" mh="2" ju="0" sd="3"/>
<wp id="1" ap="6" ah="20" av="100" rc="2" cc="40"/>
</head>
<body>
<w t="0" id="1" wp="1" ws="1"/>
<p t="30" d="5130" p="1" wp="1" ws="1"><s>so</s><s t="400" p="1"> it&#39;s</s> here</p>
</body>
</timedtext>"##;

fn expected_styled() -> Transcript {
    Transcript {
        head: Head {
            pens: vec![Pen {
                id: 1,
                bold: true,
                italic: false,
                underline: false,
                foreground_color: Some("#E5E5E5".to_string()),
                foreground_opacity: Some(254),
                background_color: None,
                background_opacity: None,
                edge_color: None,
                edge_type: EdgeType::GlowOutline,
                font_family: FontStyle::ProportionalSansSerif,
                font_size_perc: Some(120),
                vertical_alignment: Some(VerticalAlignment::Superscript),
            }],
            window_styling: vec![WindowStyle {
                id: 1,
                scroll_direction: 3,
                print_direction: PrintDirection::LtrHorizontal,
                text_alignment: Some(TextAlignment::Start),
                mode_hint: ModeHint::Scroll,
                fill_color: None,
                fill_opacity: None,
            }],
            window_positioning: vec![WindowPosition {
                id: 1,
                anchor_point: Some(AnchorPoint::BottomLeft),
                left_offset: Some(20),
                top_offset: Some(100),
                rows_total: Some(2),
                columns_total: Some(40),
            }],
        },
        body: Body {
            elements: vec![
                Element::Window(Window { id: 1, time_millis: 0, window_position_id: 1, window_style_id: 1 }),
                Element::Segment(TextSegment {
                    time_millis: 30,
                    duration_millis: 5130,
                    pen_id: Some(1),
                    window_position_id: Some(1),
                    window_style_id: Some(1),
                    value: vec![
                        Text::Span(Span { relative_time_millis: 0, pen_id: None, value: "so".to_string() }),
                        Text::Span(Span { relative_time_millis: 400, pen_id: Some(1), value: " it's".to_string() }),
                        Text::Str(" here".to_string()),
                    ],
                }),
            ],
        },
        format_version: 3,
    }
}

#[test]
fn styled_document_is_decoded() {
    assert_eq!(Transcript::decode(STYLED), Ok(expected_styled()));
    assert_eq!(STYLED.parse::<Transcript>(), Ok(expected_styled()));
}

#[test]
fn styled_document_keeps_dangling_pen() {
    let doc = r#"<timedtext format="3"><head></head><body><p t="1" p="7"><s p="7">x</s></p></body></timedtext>"#;
    let transcript = Transcript::decode(doc).unwrap();
    assert!(transcript.head.pens.is_empty());
    match &transcript.body.elements[0] {
        Element::Segment(segment) => {
            assert_eq!(segment.pen_id, Some(7));
            match &segment.value[0] {
                Text::Span(span) => assert_eq!(span.pen_id, Some(7)),
                other => panic!("{:?}", other),
            }
        }
        other => panic!("{:?}", other),
    }
}

#[test]
fn styled_document_rejects_codes_out_of_range() {
    for (good, bad) in [
        ("et=\"3\"", "et=\"5\""),
        ("fs=\"4\"", "fs=\"8\""),
        ("of=\"2\"", "of=\"3\""),
        ("mh=\"2\"", "mh=\"3\""),
        ("ju=\"0\"", "ju=\"4\""),
        ("ju=\"0\"", "ju=\"0\" pd=\"4\""),
        ("ap=\"6\"", "ap=\"9\""),
    ] {
        assert!(STYLED.contains(good));
        let doc = STYLED.replace(good, bad);
        assert_eq!(Transcript::decode(&doc), Err(DecodeError::Code), "{}", bad);
    }
}

#[test]
fn styled_document_needs_its_parts() {
    let no_head = r#"<timedtext format="3"><body><p t="1">x</p></body></timedtext>"#;
    assert_eq!(Transcript::decode(no_head), Err(DecodeError::Structure));
    let no_body = r#"<timedtext format="3"><head/></timedtext>"#;
    assert_eq!(Transcript::decode(no_body), Err(DecodeError::Structure));
    let empty_body = r#"<timedtext format="3"><head/><body></body></timedtext>"#;
    assert_eq!(Transcript::decode(empty_body), Err(DecodeError::Structure));
    let two_heads = r#"<timedtext format="3"><head/><head/><body><p t="1">x</p></body></timedtext>"#;
    assert_eq!(Transcript::decode(two_heads), Err(DecodeError::Structure));
    let no_version = r#"<timedtext><head/><body><p t="1">x</p></body></timedtext>"#;
    assert_eq!(Transcript::decode(no_version), Err(DecodeError::MissingAttribute));
    let unknown = r#"<timedtext format="3"><head/><body><q t="1">x</q></body></timedtext>"#;
    assert_eq!(Transcript::decode(unknown), Err(DecodeError::Structure));
    let in_paragraph = r#"<timedtext format="3"><head/><body><p t="1"><b>x</b></p></body></timedtext>"#;
    assert_eq!(Transcript::decode(in_paragraph), Err(DecodeError::Structure));
}

#[test]
fn styled_document_unescapes_every_leaf_once() {
    let doc = r#"<timedtext format="3"><head><pen id="1" fc="a&amp;b"/></head><body><p t="1">R&amp;D <s>&lt;&amp;amp;&gt;</s></p></body></timedtext>"#;
    let transcript = Transcript::decode(doc).unwrap();
    assert_eq!(transcript.head.pens[0].foreground_color.as_deref(), Some("a&b"));
    match &transcript.body.elements[0] {
        Element::Segment(segment) => {
            assert_eq!(segment.value[0].as_str(), "R&D ");
            assert_eq!(segment.value[1].as_str(), "<&amp;>");
        }
        other => panic!("{:?}", other),
    }
}

#[test]
fn text_derefs_to_its_characters() {
    let mut span = Text::Span(Span { relative_time_millis: 5, pen_id: Some(2), value: "ab".to_string() });
    let mut plain = Text::Str("cd".to_string());
    assert_eq!(&*span, "ab");
    assert_eq!(&*plain, "cd");
    assert_eq!(span.len(), 2);
    let as_ref: &str = plain.as_ref();
    assert_eq!(as_ref, "cd");
    span.push('!');
    plain.push('?');
    assert_eq!(span, Text::Span(Span { relative_time_millis: 5, pen_id: Some(2), value: "ab!".to_string() }));
    assert_eq!(plain, Text::Str("cd?".to_string()));
}

#[test]
fn styled_enumeration_codes() {
    assert_eq!(EdgeType::from_code(0), Some(EdgeType::NoEdge));
    assert_eq!(EdgeType::from_code(4), Some(EdgeType::SoftShadow));
    assert_eq!(EdgeType::from_code(5), None);
    assert_eq!(FontStyle::from_code(7), Some(FontStyle::SmallCapitals));
    assert_eq!(FontStyle::from_code(8), None);
    assert_eq!(VerticalAlignment::from_code(1), Some(VerticalAlignment::Regular));
    assert_eq!(VerticalAlignment::from_code(3), None);
    assert_eq!(ModeHint::from_code(1), Some(ModeHint::Default));
    assert_eq!(ModeHint::from_code(3), None);
    assert_eq!(RubyPart::from_code(2), Some(RubyPart::Parenthesis));
    assert_eq!(RubyPart::from_code(3), None);
    assert_eq!(RubyPart::from_code(4), Some(RubyPart::TextBefore));
    assert_eq!(RubyPart::from_code(5), Some(RubyPart::TextAfter));
    assert_eq!(RubyPart::from_code(6), None);
    assert_eq!(RubyPart::TextBefore.code(), 4);
    assert_eq!(AnchorPoint::from_code(4), Some(AnchorPoint::Center));
    assert_eq!(AnchorPoint::from_code(9), None);
    assert_eq!(EdgeType::default(), EdgeType::NoEdge);
    assert_eq!(FontStyle::default(), FontStyle::Default);
    assert_eq!(VerticalAlignment::default(), VerticalAlignment::Regular);
    assert_eq!(RubyPart::default(), RubyPart::NoRuby);
    assert_eq!(ModeHint::default(), ModeHint::NoHint);
    assert_eq!(PrintDirection::default(), PrintDirection::LtrHorizontal);
}
