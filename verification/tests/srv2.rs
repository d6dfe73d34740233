use youtube_captions::error::DecodeError;
use youtube_captions::format::srv2::{
    AnchorPoint, Element, PrintDirection, ScrollDirection, TextAlignment, TextSegment, Transcript,
    Window,
};
use youtube_captions::xml::fields::Coded;

const WINDOW: &str = r#"<window id="1" op="define" t="0" ap="6" ah="20" av="100" rc="2" cc="40" sd="1" ju="2"/>"#;

fn document(inner: &str) -> String {
    format!("<?xml version=\"1.0\" encoding=\"utf-8\" ?><timedtext>{}</timedtext>", inner)
}

#[test]
fn windowed_document_is_decoded() {
    let doc = document(&format!(
        "\n{}\n<text t=\"30\" d=\"5130\" append=\"1\">Tom &amp; Jerry</text>\n<text t=\"5160\">&lt;i&gt;</text>\n",
        WINDOW
    ));
    let transcript = Transcript::decode(&doc).unwrap();
    let expected = Transcript {
        elements: vec![
            Element::Window(Window {
                id: 1,
                operation: "define".to_string(),
                timestamp_millis: 0,
                anchor_point: AnchorPoint::BottomLeft,
                horizontal_alignment: 20,
                vertical_alignment: 100,
                rows_total: 2,
                columns_total: 40,
                scroll_direction: ScrollDirection::RTL,
                print_direction: PrintDirection::LtrHorizontal,
                text_alignment: TextAlignment::Center,
            }),
            Element::Text(TextSegment {
                timestamp_millis: 30,
                duration_millis: 5130,
                append: true,
                r: 0,
                c: 0,
                value: "Tom & Jerry".to_string(),
            }),
            Element::Text(TextSegment {
                timestamp_millis: 5160,
                duration_millis: 0,
                append: false,
                r: 0,
                c: 0,
                value: "<i>".to_string(),
            }),
        ],
    };
    assert_eq!(transcript, expected);
}

#[test]
fn windowed_document_rejects_anchor_out_of_range() {
    let doc = document(&WINDOW.replace("ap=\"6\"", "ap=\"9\""));
    assert_eq!(Transcript::decode(&doc), Err(DecodeError::Code));
}

#[test]
fn windowed_document_rejects_every_code_out_of_range() {
    for (good, bad) in [
        ("sd=\"1\"", "sd=\"2\""),
        ("ju=\"2\"", "ju=\"4\""),
        ("ju=\"2\"", "ju=\"2\" pd=\"4\""),
        ("ap=\"6\"", "ap=\"255\""),
    ] {
        let doc = document(&WINDOW.replace(good, bad));
        assert_eq!(Transcript::decode(&doc), Err(DecodeError::Code), "{}", bad);
    }
}

#[test]
fn windowed_document_rejects_number_that_does_not_fit() {
    let doc = document(&WINDOW.replace("rc=\"2\"", "rc=\"256\""));
    assert_eq!(Transcript::decode(&doc), Err(DecodeError::Number));
    let doc = document(&WINDOW.replace("ap=\"6\"", "ap=\"256\""));
    assert_eq!(Transcript::decode(&doc), Err(DecodeError::Number));
    let doc = document(&WINDOW.replace("t=\"0\"", "t=\"4294967296\""));
    assert_eq!(Transcript::decode(&doc), Err(DecodeError::Number));
    let doc = document(&WINDOW.replace("t=\"0\"", "t=\"4294967295\""));
    assert!(Transcript::decode(&doc).is_ok());
}

#[test]
fn windowed_document_rejects_missing_attribute() {
    let doc = document(&WINDOW.replace(" op=\"define\"", ""));
    assert_eq!(Transcript::decode(&doc), Err(DecodeError::MissingAttribute));
    let doc = document("<text d=\"1\">x</text>");
    assert_eq!(Transcript::decode(&doc), Err(DecodeError::MissingAttribute));
}

#[test]
fn windowed_document_rejects_bad_flag() {
    let doc = document("<text t=\"1\" append=\"maybe\">x</text>");
    assert_eq!(Transcript::decode(&doc), Err(DecodeError::Flag));
}

#[test]
fn windowed_document_rejects_unknown_element_and_stray_text() {
    assert_eq!(Transcript::decode(&document("<p t=\"1\">x</p>")), Err(DecodeError::Structure));
    assert_eq!(
        Transcript::decode(&document("stray<text t=\"1\">x</text>")),
        Err(DecodeError::Structure)
    );
    assert_eq!(Transcript::decode(&document("")), Err(DecodeError::Structure));
}

#[test]
fn windowed_document_takes_print_direction() {
    let doc = document(&WINDOW.replace("ju=\"2\"", "ju=\"3\" pd=\"3\""));
    let transcript: Transcript = doc.parse().unwrap();
    match &transcript.elements[0] {
        Element::Window(window) => {
            assert_eq!(window.print_direction, PrintDirection::VerticalRtl);
            assert_eq!(window.text_alignment, TextAlignment::Justify);
        }
        other => panic!("{:?}", other),
    }
}

#[test]
fn anchor_point_codes() {
    let members = [
        AnchorPoint::TopLeft,
        AnchorPoint::TopCenter,
        AnchorPoint::TopRight,
        AnchorPoint::CenterLeft,
        AnchorPoint::TrueCenter,
        AnchorPoint::CenterRight,
        AnchorPoint::BottomLeft,
        AnchorPoint::BottomCenter,
        AnchorPoint::BottomRight,
    ];
    for (code, member) in members.iter().enumerate() {
        assert_eq!(AnchorPoint::from_code(code as u8), Some(*member));
        assert_eq!(member.code(), code as u8);
    }
    for code in 9..=255u8 {
        assert_eq!(AnchorPoint::from_code(code), None);
    }
}

#[test]
fn small_enumeration_codes() {
    assert_eq!(TextAlignment::from_code(0), Some(TextAlignment::Start));
    assert_eq!(TextAlignment::from_code(1), Some(TextAlignment::Eng));
    assert_eq!(TextAlignment::from_code(3), Some(TextAlignment::Justify));
    assert_eq!(TextAlignment::from_code(4), None);
    assert_eq!(PrintDirection::from_code(2), Some(PrintDirection::VerticalLtr));
    assert_eq!(PrintDirection::from_code(4), None);
    assert_eq!(ScrollDirection::from_code(0), Some(ScrollDirection::LTR));
    assert_eq!(ScrollDirection::from_code(1), Some(ScrollDirection::RTL));
    assert_eq!(ScrollDirection::from_code(2), None);
    assert_eq!(PrintDirection::default(), PrintDirection::LtrHorizontal);
    assert_eq!(ScrollDirection::default(), ScrollDirection::LTR);
    assert_eq!(ScrollDirection::RTL.code(), 1);
}
