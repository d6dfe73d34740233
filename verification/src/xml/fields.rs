//! Typed reading of an element's attributes and of its text.

use crate::error::{outcome_view, DecodeError};
use crate::text::{parse_bool, parse_flag, parse_u32, parse_u8, parse_unsigned, same_text};
use crate::xml::tree::{
    lemma_element_view, nodes_view, XmlAttributeView, XmlElement, XmlElementView,
    XmlNode, XmlNodeView,
};
use vstd::prelude::*;

verus! {

/// An enumeration that the formats write as a small number.
pub trait Coded: Sized {
    /// The member that `code` stands for, if it stands for one.
    spec fn spec_from_code(code: u8) -> Option<Self>;

    /// The member that `code` stands for; `None` where the code is out of range.
    fn from_code(code: u8) -> (r: Option<Self>)
        ensures
            r == Self::spec_from_code(code),
    ;
}

/// A value that one element describes.
pub trait FromXml: View + Sized {
    /// The value that `e` describes, or why it describes none.
    spec fn xml_value(e: XmlElementView) -> Result<Self::V, DecodeError>;

    /// Reads the value out of `e`.
    fn from_xml(e: &XmlElement) -> (r: Result<Self, DecodeError>)
        ensures
            outcome_view(r) == Self::xml_value(e@),
    ;
}

/// The value of the first attribute in `attributes` whose key is `key`.
pub open spec fn attribute_value(attributes: Seq<XmlAttributeView>, key: Seq<char>) -> Option<
    Seq<char>,
>
    decreases attributes.len(),
{
    if attributes.len() == 0 {
        None
    } else if attributes[0].key == key {
        Some(attributes[0].value)
    } else {
        attribute_value(attributes.skip(1), key)
    }
}

/// An attribute that holds a `u32`: absent, or the number it spells.
pub open spec fn u32_field(attributes: Seq<XmlAttributeView>, key: Seq<char>) -> Result<
    Option<u32>,
    DecodeError,
> {
    match attribute_value(attributes, key) {
        None => Ok(None),
        Some(text) => match parse_unsigned(text, u32::MAX as nat) {
            Some(n) => Ok(Some(n as u32)),
            None => Err(DecodeError::Number),
        },
    }
}

/// An attribute that holds a `u8`: absent, or the number it spells.
pub open spec fn u8_field(attributes: Seq<XmlAttributeView>, key: Seq<char>) -> Result<
    Option<u8>,
    DecodeError,
> {
    match attribute_value(attributes, key) {
        None => Ok(None),
        Some(text) => match parse_unsigned(text, u8::MAX as nat) {
            Some(n) => Ok(Some(n as u8)),
            None => Err(DecodeError::Number),
        },
    }
}

/// An attribute that holds a flag: absent, or the flag it spells.
pub open spec fn flag_field(attributes: Seq<XmlAttributeView>, key: Seq<char>) -> Result<
    Option<bool>,
    DecodeError,
> {
    match attribute_value(attributes, key) {
        None => Ok(None),
        Some(text) => match parse_flag(text) {
            Some(flag) => Ok(Some(flag)),
            None => Err(DecodeError::Flag),
        },
    }
}

/// An attribute that holds a text: absent, or its value. It cannot fail.
pub open spec fn text_field(attributes: Seq<XmlAttributeView>, key: Seq<char>) -> Result<
    Option<Seq<char>>,
    DecodeError,
> {
    Ok(attribute_value(attributes, key))
}

/// The value of a text that may be absent.
pub open spec fn text_option_view(text: Option<String>) -> Option<Seq<char>> {
    match text {
        Some(t) => Some(t@),
        None => None,
    }
}

/// An attribute that holds the code of an enumeration: absent, or the member
/// that its number stands for. A number that is no `u8` is a bad number; a
/// `u8` outside the enumeration is a bad code.
pub open spec fn code_field<E: Coded>(attributes: Seq<XmlAttributeView>, key: Seq<char>) -> Result<
    Option<E>,
    DecodeError,
> {
    match u8_field(attributes, key) {
        Err(e) => Err(e),
        Ok(None) => Ok(None),
        Ok(Some(code)) => match E::spec_from_code(code) {
            Some(member) => Ok(Some(member)),
            None => Err(DecodeError::Code),
        },
    }
}

/// A field that the format requires: its absence is an error.
pub open spec fn required<T>(field: Result<Option<T>, DecodeError>) -> Result<T, DecodeError> {
    match field {
        Err(e) => Err(e),
        Ok(None) => Err(DecodeError::MissingAttribute),
        Ok(Some(value)) => Ok(value),
    }
}

/// A field with a default: its absence gives `default`.
pub open spec fn or_default<T>(field: Result<Option<T>, DecodeError>, default: T) -> Result<
    T,
    DecodeError,
> {
    match field {
        Err(e) => Err(e),
        Ok(None) => Ok(default),
        Ok(Some(value)) => Ok(value),
    }
}

/// The character data of `nodes[i..]` strung together behind `done`. An
/// element among them is an error: the text of a leaf holds no markup.
pub open spec fn joined_text(nodes: Seq<XmlNodeView>, i: int, done: Seq<char>) -> Result<
    Seq<char>,
    DecodeError,
>
    decreases nodes.len() - i,
{
    if i < 0 || i >= nodes.len() {
        Ok(done)
    } else {
        match nodes[i] {
            XmlNodeView::Text(text) => joined_text(nodes, i + 1, done + text),
            XmlNodeView::Element(_) => Err(DecodeError::Structure),
        }
    }
}

/// The text of a leaf element: all of its character data, in order.
pub open spec fn leaf_text(nodes: Seq<XmlNodeView>) -> Result<Seq<char>, DecodeError> {
    joined_text(nodes, 0, Seq::empty())
}

/// The value of the first attribute of `element` whose key is `key`.
pub fn attribute<'a>(element: &'a XmlElement, key: &str) -> (r: Option<&'a String>)
    ensures
        match attribute_value(element@.attributes, key@) {
            Some(value) => r is Some && r.unwrap()@ == value,
            None => r is None,
        },
{
    let ghost all = element@.attributes;
    proof {
        lemma_element_view(*element);
    }
    let mut i: usize = 0;
    assert(all.skip(0) =~= all);
    while i < element.attributes.len()
        invariant
            i <= element.attributes.len(),
            all == element.attributes@.map_values(|a: crate::xml::tree::XmlAttribute| a@),
            attribute_value(all, key@) == attribute_value(all.skip(i as int), key@),
        decreases element.attributes.len() - i,
    {
        let ghost rest = all.skip(i as int);
        assert(rest[0] == element.attributes@[i as int]@);
        assert(rest.skip(1) =~= all.skip(i + 1));
        if same_text(element.attributes[i].key.as_str(), key) {
            return Some(&element.attributes[i].value);
        }
        i += 1;
    }
    None
}

/// Reads an attribute that holds a `u32`.
pub fn read_u32(element: &XmlElement, key: &str) -> (r: Result<Option<u32>, DecodeError>)
    ensures
        r == u32_field(element@.attributes, key@),
{
    match attribute(element, key) {
        None => Ok(None),
        Some(text) => match parse_u32(text.as_str()) {
            Some(n) => Ok(Some(n)),
            None => Err(DecodeError::Number),
        },
    }
}

/// Reads an attribute that holds a `u8`.
pub fn read_u8(element: &XmlElement, key: &str) -> (r: Result<Option<u8>, DecodeError>)
    ensures
        r == u8_field(element@.attributes, key@),
{
    match attribute(element, key) {
        None => Ok(None),
        Some(text) => match parse_u8(text.as_str()) {
            Some(n) => Ok(Some(n)),
            None => Err(DecodeError::Number),
        },
    }
}

/// Reads an attribute that holds a flag.
pub fn read_flag(element: &XmlElement, key: &str) -> (r: Result<Option<bool>, DecodeError>)
    ensures
        r == flag_field(element@.attributes, key@),
{
    match attribute(element, key) {
        None => Ok(None),
        Some(text) => match parse_bool(text.as_str()) {
            Some(flag) => Ok(Some(flag)),
            None => Err(DecodeError::Flag),
        },
    }
}

/// Reads an attribute that holds the code of an enumeration.
pub fn read_code<E: Coded>(element: &XmlElement, key: &str) -> (r: Result<Option<E>, DecodeError>)
    ensures
        r == code_field::<E>(element@.attributes, key@),
{
    match read_u8(element, key) {
        Err(e) => Err(e),
        Ok(None) => Ok(None),
        Ok(Some(code)) => match E::from_code(code) {
            Some(member) => Ok(Some(member)),
            None => Err(DecodeError::Code),
        },
    }
}

/// Reads an attribute that holds a text.
pub fn read_text(element: &XmlElement, key: &str) -> (r: Option<String>)
    ensures
        match attribute_value(element@.attributes, key@) {
            Some(value) => r is Some && r.unwrap()@ == value,
            None => r is None,
        },
{
    match attribute(element, key) {
        None => None,
        Some(text) => Some(text.clone()),
    }
}

/// Makes the absence of a required field an error.
pub fn require<T>(field: Result<Option<T>, DecodeError>) -> (r: Result<T, DecodeError>)
    ensures
        r == required(field),
{
    match field {
        Err(e) => Err(e),
        Ok(None) => Err(DecodeError::MissingAttribute),
        Ok(Some(value)) => Ok(value),
    }
}

/// Fills the absence of a field with its default.
pub fn default_to<T>(field: Result<Option<T>, DecodeError>, default: T) -> (r: Result<
    T,
    DecodeError,
>)
    ensures
        r == or_default(field, default),
{
    match field {
        Err(e) => Err(e),
        Ok(None) => Ok(default),
        Ok(Some(value)) => Ok(value),
    }
}

/// Strings the character data of a leaf element together.
pub fn text_of_leaf(element: &XmlElement) -> (r: Result<String, DecodeError>)
    ensures
        match leaf_text(element@.children) {
            Ok(text) => r is Ok && r.unwrap()@ == text,
            Err(e) => r == Err::<String, DecodeError>(e),
        },
{
    let ghost all = element@.children;
    proof {
        lemma_element_view(*element);
    }
    let mut done = String::new();
    let mut i: usize = 0;
    while i < element.children.len()
        invariant
            i <= element.children.len(),
            all == nodes_view(element.children@),
            all == element@.children,
            leaf_text(all) == joined_text(all, i as int, done@),
        decreases element.children.len() - i,
    {
        assert(all[i as int] == element.children@[i as int]@);
        match &element.children[i] {
            XmlNode::Text(text) => {
                done.append(text.as_str());
            },
            XmlNode::Element(_) => {
                return Err(DecodeError::Structure);
            },
        }
        i += 1;
    }
    Ok(done)
}

/// The values that the elements named `name` among `nodes[i..]` describe,
/// behind those in `done`. Other elements and all character data are passed
/// over.
pub open spec fn children_named<T: FromXml>(
    nodes: Seq<XmlNodeView>,
    name: Seq<char>,
    i: int,
    done: Seq<T::V>,
) -> Result<Seq<T::V>, DecodeError>
    decreases nodes.len() - i,
{
    if i < 0 || i >= nodes.len() {
        Ok(done)
    } else {
        match nodes[i] {
            XmlNodeView::Element(e) => if e.name == name {
                match T::xml_value(e) {
                    Err(error) => Err(error),
                    Ok(value) => children_named::<T>(nodes, name, i + 1, done.push(value)),
                }
            } else {
                children_named::<T>(nodes, name, i + 1, done)
            },
            XmlNodeView::Text(_) => children_named::<T>(nodes, name, i + 1, done),
        }
    }
}

/// The one element named `name` among `nodes[i..]`, given what was `found`
/// before `i`. A second one is an error; none is no error.
pub open spec fn only_child(
    nodes: Seq<XmlNodeView>,
    name: Seq<char>,
    i: int,
    found: Option<XmlElementView>,
) -> Result<Option<XmlElementView>, DecodeError>
    decreases nodes.len() - i,
{
    if i < 0 || i >= nodes.len() {
        Ok(found)
    } else {
        match nodes[i] {
            XmlNodeView::Element(e) => if e.name == name {
                if found is Some {
                    Err(DecodeError::Structure)
                } else {
                    only_child(nodes, name, i + 1, Some(e))
                }
            } else {
                only_child(nodes, name, i + 1, found)
            },
            XmlNodeView::Text(_) => only_child(nodes, name, i + 1, found),
        }
    }
}

/// Reads the values that the children of `element` named `name` describe.
pub fn read_children<T: FromXml>(element: &XmlElement, name: &str) -> (r: Result<
    Vec<T>,
    DecodeError,
>)
    ensures
        match children_named::<T>(element@.children, name@, 0, Seq::empty()) {
            Ok(values) => r is Ok && r.unwrap()@.map_values(|t: T| t@) == values,
            Err(error) => r == Err::<Vec<T>, DecodeError>(error),
        },
{
    let ghost all = element@.children;
    proof {
        lemma_element_view(*element);
    }
    let mut done: Vec<T> = Vec::new();
    let mut i: usize = 0;
    assert(done@.map_values(|t: T| t@) =~= Seq::empty());
    while i < element.children.len()
        invariant
            i <= element.children.len(),
            all == element@.children,
            all == nodes_view(element.children@),
            children_named::<T>(all, name@, 0, Seq::empty()) == children_named::<T>(
                all,
                name@,
                i as int,
                done@.map_values(|t: T| t@),
            ),
        decreases element.children.len() - i,
    {
        assert(all[i as int] == element.children@[i as int]@);
        match &element.children[i] {
            XmlNode::Element(e) => {
                proof {
                    lemma_element_view(*e);
                }
                if same_text(e.name.as_str(), name) {
                    let value = match T::from_xml(e) {
                        Ok(value) => value,
                        Err(error) => {
                            return Err(error);
                        },
                    };
                    let ghost before = done@.map_values(|t: T| t@);
                    done.push(value);
                    assert(done@.map_values(|t: T| t@) =~= before.push(value@));
                }
            },
            XmlNode::Text(_) => {},
        }
        i += 1;
    }
    Ok(done)
}

/// What the scan for the one child of a name has met.
pub open spec fn met_child(nodes: Seq<XmlNodeView>, found: Option<usize>) -> Option<
    XmlElementView,
> {
    match found {
        Some(k) => match nodes[k as int] {
            XmlNodeView::Element(e) => Some(e),
            XmlNodeView::Text(_) => None,
        },
        None => None,
    }
}

/// Finds the one child of `element` named `name`.
pub fn find_only_child<'a>(element: &'a XmlElement, name: &str) -> (r: Result<
    Option<&'a XmlElement>,
    DecodeError,
>)
    ensures
        match only_child(element@.children, name@, 0, None) {
            Err(error) => r == Err::<Option<&XmlElement>, DecodeError>(error),
            Ok(None) => r == Ok::<Option<&XmlElement>, DecodeError>(None),
            Ok(Some(child)) => r is Ok && r.unwrap() is Some && r.unwrap().unwrap()@ == child,
        },
{
    let ghost all = element@.children;
    proof {
        lemma_element_view(*element);
    }
    let mut found: Option<usize> = None;
    let mut i: usize = 0;
    while i < element.children.len()
        invariant
            i <= element.children.len(),
            all == element@.children,
            all == nodes_view(element.children@),
            found matches Some(k) ==> k < i && element.children@[k as int] is Element,
            only_child(all, name@, 0, None) == only_child(
                all,
                name@,
                i as int,
                met_child(all, found),
            ),
        decreases element.children.len() - i,
    {
        assert(all[i as int] == element.children@[i as int]@);
        match &element.children[i] {
            XmlNode::Element(e) => {
                proof {
                    lemma_element_view(*e);
                }
                if same_text(e.name.as_str(), name) {
                    if found.is_some() {
                        let ghost k = found.unwrap() as int;
                        assert(all[k] == element.children@[k]@);
                        return Err(DecodeError::Structure);
                    }
                    found = Some(i);
                }
            },
            XmlNode::Text(_) => {},
        }
        i += 1;
    }
    match found {
        None => Ok(None),
        Some(k) => {
            assert(all[k as int] == element.children@[k as int]@);
            match &element.children[k] {
                XmlNode::Element(e) => Ok(Some(e)),
                XmlNode::Text(_) => Ok(None),
            }
        },
    }
}

/// A number outside an enumeration fails the attribute that holds it: no
/// member is put in its place.
pub proof fn law_code_out_of_range<E: Coded>(
    attributes: Seq<XmlAttributeView>,
    key: Seq<char>,
    code: u8,
)
    requires
        u8_field(attributes, key) == Ok::<Option<u8>, DecodeError>(Some(code)),
        E::spec_from_code(code) is None,
    ensures
        code_field::<E>(attributes, key) == Err::<Option<E>, DecodeError>(DecodeError::Code),
{
}

/// A leaf that holds one piece of character data has that piece as its
/// text: nothing is added, dropped or resolved a second time.
pub proof fn law_single_text_leaf(text: Seq<char>)
    ensures
        leaf_text(seq![XmlNodeView::Text(text)]) == Ok::<Seq<char>, DecodeError>(text),
{
    let nodes = seq![XmlNodeView::Text(text)];
    assert(joined_text(nodes, 1, Seq::empty() + text) == Ok::<Seq<char>, DecodeError>(
        Seq::empty() + text,
    ));
    assert(Seq::<char>::empty() + text =~= text);
}

/// The children of a name are read exactly where each of them describes a
/// value.
pub proof fn law_children_are_owed<T: FromXml>(
    nodes: Seq<XmlNodeView>,
    name: Seq<char>,
    i: int,
    done: Seq<T::V>,
)
    requires
        0 <= i <= nodes.len(),
    ensures
        children_named::<T>(nodes, name, i, done) is Ok <==> forall|k: int|
            i <= k < nodes.len() ==> (#[trigger] nodes[k] matches XmlNodeView::Element(e)
                ==> e.name == name ==> T::xml_value(e) is Ok),
    decreases nodes.len() - i,
{
    if i < nodes.len() {
        match nodes[i] {
            XmlNodeView::Element(e) => {
                if e.name == name {
                    match T::xml_value(e) {
                        Ok(value) => {
                            law_children_are_owed::<T>(nodes, name, i + 1, done.push(value));
                        },
                        Err(_) => {
                            assert(nodes[i] is Element);
                        },
                    }
                } else {
                    law_children_are_owed::<T>(nodes, name, i + 1, done);
                }
            },
            XmlNodeView::Text(_) => {
                law_children_are_owed::<T>(nodes, name, i + 1, done);
            },
        }
    }
}

/// One child of the name that describes no value fails the whole list.
pub proof fn law_failing_child<T: FromXml>(
    nodes: Seq<XmlNodeView>,
    name: Seq<char>,
    i: int,
    done: Seq<T::V>,
    k: int,
)
    requires
        0 <= i <= k < nodes.len(),
        nodes[k] matches XmlNodeView::Element(e) && e.name == name && T::xml_value(e) is Err,
    ensures
        children_named::<T>(nodes, name, i, done) is Err,
    decreases k - i,
{
    if i < k {
        match nodes[i] {
            XmlNodeView::Element(e) => {
                if e.name == name {
                    match T::xml_value(e) {
                        Ok(value) => {
                            law_failing_child::<T>(nodes, name, i + 1, done.push(value), k);
                        },
                        Err(_) => {},
                    }
                } else {
                    law_failing_child::<T>(nodes, name, i + 1, done, k);
                }
            },
            XmlNodeView::Text(_) => {
                law_failing_child::<T>(nodes, name, i + 1, done, k);
            },
        }
    }
}

} // verus!
