use youtube_captions::error::DecodeError;
use youtube_captions::xml::fields::{
    attribute, find_only_child, read_flag, read_text, read_u32, read_u8, text_of_leaf,
};
use youtube_captions::xml::source::{read_attributes, read_events, unescape, RawAttribute, RawEvent};
use youtube_captions::xml::tree::{
    attributes_from_tag, blank_text, nodes_from_events, parse_document, root_from_events,
    root_from_nodes, XmlAttribute, XmlElement, XmlNode, MAX_DEPTH,
};

fn s(text: &str) -> String {
    text.to_string()
}

#[test]
fn events_come_in_document_order() {
    let events = read_events("<?xml version=\"1.0\"?><a x=\"1\"><b/>t&amp;<!-- c --><![CDATA[<d>]]></a>");
    assert_eq!(
        events,
        vec![
            RawEvent::Other,
            RawEvent::Start(s("a"), s("a x=\"1\"")),
            RawEvent::Empty(s("b"), s("b")),
            RawEvent::Text(s("t&amp;")),
            RawEvent::Other,
            RawEvent::CData(s("<d>")),
            RawEvent::End(s("a")),
        ]
    );
}

#[test]
fn events_end_at_broken_markup() {
    let events = read_events("<a></b><c/>");
    assert_eq!(events, vec![RawEvent::Start(s("a"), s("a")), RawEvent::Malformed]);
    assert_eq!(read_events(""), vec![]);
}

#[test]
fn attributes_come_in_tag_order() {
    let items = read_attributes("tag one=\"1\" two='&lt;2'", 3);
    assert_eq!(
        items,
        vec![RawAttribute::Pair(s("one"), s("1")), RawAttribute::Pair(s("two"), s("&lt;2"))]
    );
    assert_eq!(read_attributes("tag", 3), vec![]);
}

#[test]
fn broken_attributes_are_marked() {
    let items = read_attributes("tag a=\"1\" a=\"2\"", 3);
    assert_eq!(items, vec![RawAttribute::Pair(s("a"), s("1")), RawAttribute::Malformed]);
    let items = read_attributes("tag a=1", 3);
    assert_eq!(items[0], RawAttribute::Malformed);
}

#[test]
fn tag_attributes_are_resolved() {
    let attributes = attributes_from_tag("tag", "tag a=\"x &amp; y\" b=\"&#65;\"").unwrap();
    assert_eq!(
        attributes,
        vec![
            XmlAttribute { key: s("a"), value: s("x & y") },
            XmlAttribute { key: s("b"), value: s("A") },
        ]
    );
    assert_eq!(attributes_from_tag("tag", "tag a=\"&nope;\""), Err(DecodeError::Entity));
    assert_eq!(attributes_from_tag("tag", "tag a=\"1\" a=\"2\""), Err(DecodeError::Markup));
    assert_eq!(attributes_from_tag("longer", "tag"), Err(DecodeError::Markup));
}

#[test]
fn unescape_resolves_each_reference_once() {
    assert_eq!(unescape("&amp;"), Ok(s("&")));
    assert_eq!(unescape("&amp;amp;"), Ok(s("&amp;")));
    assert_eq!(unescape("&lt;&gt;&quot;&apos;&#39;&#x41;"), Ok(s("<>\"''A")));
    assert_eq!(unescape("no entity; here"), Ok(s("no entity; here")));
    assert_eq!(unescape(""), Ok(s("")));
    assert_eq!(unescape("a & b"), Err(DecodeError::Entity));
    assert_eq!(unescape("&unknown;"), Err(DecodeError::Entity));
    assert_eq!(unescape("&#0;"), Err(DecodeError::Entity));
}

#[test]
fn document_becomes_a_tree() {
    let root = parse_document("<!-- lead -->\n<a k=\"v\">x<b n=\"1\"/>y &amp; z<c><d/></c></a>\n").unwrap();
    let expected = XmlElement {
        name: s("a"),
        attributes: vec![XmlAttribute { key: s("k"), value: s("v") }],
        children: vec![
            XmlNode::Text(s("x")),
            XmlNode::Element(XmlElement {
                name: s("b"),
                attributes: vec![XmlAttribute { key: s("n"), value: s("1") }],
                children: vec![],
            }),
            XmlNode::Text(s("y & z")),
            XmlNode::Element(XmlElement {
                name: s("c"),
                attributes: vec![],
                children: vec![XmlNode::Element(XmlElement { name: s("d"), attributes: vec![], children: vec![] })],
            }),
        ],
    };
    assert_eq!(root, expected);
}

#[test]
fn document_needs_one_closed_root() {
    assert_eq!(parse_document(""), Err(DecodeError::Markup));
    assert_eq!(parse_document("text only"), Err(DecodeError::Markup));
    assert_eq!(parse_document("<a/><b/>"), Err(DecodeError::Markup));
    assert_eq!(parse_document("<a>"), Err(DecodeError::Markup));
    assert_eq!(parse_document("<a></b>"), Err(DecodeError::Markup));
    assert_eq!(parse_document("</a>"), Err(DecodeError::Markup));
    assert_eq!(parse_document("<a/>stray"), Err(DecodeError::Markup));
    assert_eq!(parse_document("<a>&bad;</a>"), Err(DecodeError::Entity));
    assert!(parse_document(" \n<a/>\t\r\n").is_ok());
}

#[test]
fn events_given_by_hand_become_a_tree() {
    let events = vec![
        RawEvent::Start(s("a"), s("a")),
        RawEvent::Text(s("1 &lt; 2")),
        RawEvent::End(s("a")),
    ];
    let root = root_from_events(&events).unwrap();
    assert_eq!(root.children, vec![XmlNode::Text(s("1 < 2"))]);
    let (nodes, end) = nodes_from_events(&events, 1, 0).unwrap();
    assert_eq!(nodes, vec![XmlNode::Text(s("1 < 2"))]);
    assert_eq!(end, 2);
    let mismatched = vec![RawEvent::Start(s("a"), s("a")), RawEvent::End(s("b"))];
    assert_eq!(root_from_events(&mismatched), Err(DecodeError::Markup));
    let unclosed = vec![RawEvent::Start(s("a"), s("a"))];
    assert_eq!(root_from_events(&unclosed), Err(DecodeError::Markup));
    assert_eq!(nodes_from_events(&events, 0, 0), Err(DecodeError::Markup));
    assert!(nodes_from_events(&events, 0, 1).is_ok());
}

#[test]
fn document_may_not_nest_too_deep() {
    let nest = |depth: usize| format!("{}x{}", "<a>".repeat(depth), "</a>".repeat(depth));
    assert!(parse_document(&nest(1)).is_ok());
    assert!(parse_document(&nest(MAX_DEPTH)).is_ok());
    assert_eq!(parse_document(&nest(MAX_DEPTH + 1)), Err(DecodeError::Markup));
    assert_eq!(parse_document(&nest(100_000)), Err(DecodeError::Markup));
}

#[test]
fn root_is_the_single_element() {
    let element = |name: &str| XmlElement { name: s(name), attributes: vec![], children: vec![] };
    assert_eq!(
        root_from_nodes(vec![XmlNode::Text(s(" \n")), XmlNode::Element(element("a")), XmlNode::Text(s("\t"))]),
        Ok(element("a"))
    );
    assert_eq!(
        root_from_nodes(vec![XmlNode::Element(element("a")), XmlNode::Element(element("b"))]),
        Err(DecodeError::Markup)
    );
    assert_eq!(root_from_nodes(vec![]), Err(DecodeError::Markup));
    assert_eq!(root_from_nodes(vec![XmlNode::Text(s("x")), XmlNode::Element(element("a"))]), Err(DecodeError::Markup));
}

#[test]
fn fields_are_read_by_key() {
    let element = XmlElement {
        name: s("e"),
        attributes: vec![
            XmlAttribute { key: s("n"), value: s("+17") },
            XmlAttribute { key: s("big"), value: s("300") },
            XmlAttribute { key: s("f"), value: s("yes") },
            XmlAttribute { key: s("n"), value: s("18") },
            XmlAttribute { key: s("bad"), value: s("1x") },
        ],
        children: vec![XmlNode::Text(s("a")), XmlNode::Text(s("b"))],
    };
    assert_eq!(attribute(&element, "n").map(|v| v.as_str()), Some("+17"));
    assert_eq!(attribute(&element, "none"), None);
    assert_eq!(read_u32(&element, "n"), Ok(Some(17)));
    assert_eq!(read_u32(&element, "big"), Ok(Some(300)));
    assert_eq!(read_u8(&element, "big"), Err(DecodeError::Number));
    assert_eq!(read_u32(&element, "bad"), Err(DecodeError::Number));
    assert_eq!(read_u32(&element, "none"), Ok(None));
    assert_eq!(read_flag(&element, "f"), Ok(Some(true)));
    assert_eq!(read_flag(&element, "n"), Err(DecodeError::Flag));
    assert_eq!(read_text(&element, "f"), Some(s("yes")));
    assert_eq!(text_of_leaf(&element), Ok(s("ab")));
    assert_eq!(find_only_child(&element, "x"), Ok(None));
}

#[test]
fn blanks_are_told_apart() {
    assert!(blank_text(""));
    assert!(blank_text(" \t\r\n"));
    assert!(!blank_text(" x "));
    assert!(!blank_text("\u{a0}"));
}
