//! Language tags, as the `language-tags` crate parses and spells them.

use vstd::prelude::*;

verus! {

/// `language_tags::LanguageTag`, carried through as an opaque value.
#[verifier::external_type_specification]
#[verifier::external_body]
pub struct ExLanguageTag(language_tags::LanguageTag);

/// The spelling of a language tag: what its `as_str` hands out.
pub uninterp spec fn tag_text(tag: language_tags::LanguageTag) -> Seq<char>;

/// The spelling of the tag that `code` parses into; `None` where `code` is
/// not a well-formed language tag.
pub uninterp spec fn parsed_tag(code: Seq<char>) -> Option<Seq<char>>;

/// `LanguageTag::parse`: reads a well-formed language tag.
#[verifier::external_body]
pub(crate) fn parse_tag(code: &str) -> (tag: Option<language_tags::LanguageTag>)
    ensures
        match tag {
            Some(t) => parsed_tag(code@) == Some(tag_text(t)),
            None => parsed_tag(code@) is None,
        },
{
    language_tags::LanguageTag::parse(code).ok()
}

/// `LanguageTag::as_str`: the spelling of the tag.
#[verifier::external_body]
pub(crate) fn tag_str(tag: &language_tags::LanguageTag) -> (text: &str)
    ensures
        text@ == tag_text(*tag),
{
    tag.as_str()
}

/// `Clone::clone` of `LanguageTag`: a copy spells as the tag does.
pub assume_specification[ <language_tags::LanguageTag as Clone>::clone ](
    tag: &language_tags::LanguageTag,
) -> (copy: language_tags::LanguageTag)
    ensures
        tag_text(copy) == tag_text(*tag),
;

} // verus!
