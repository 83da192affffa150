//! An IETF language tag outranks an ISO-639 code, in whatever order the
//! two stand.

use crate::element::{ElementView, ValueView};
use crate::ids;
use crate::records::chapter::ChapterDisplayView;
use crate::records::language::LanguageView;
use crate::records::tag::SimpleTagView;
use crate::records::track::TrackView;
use vstd::prelude::*;

verus! {

/// The text of the last child among `children` that has the ID `id` and
/// holds an ASCII string.
pub open spec fn last_string(children: Seq<ElementView>, id: u32) -> Option<Seq<char>>
    decreases children.len(),
{
    if children.len() == 0 {
        None
    } else {
        match children.last().val {
            ValueView::String(s) => if children.last().id == id {
                Some(s)
            } else {
                last_string(children.drop_last(), id)
            },
            _ => last_string(children.drop_last(), id),
        }
    }
}

/// The language that an IETF tag and an ISO-639 code amount to when each
/// may be absent: the tag if there is one, else the code.
pub open spec fn preferred(ietf: Option<Seq<char>>, iso639: Option<Seq<char>>) -> Option<
    LanguageView,
> {
    match ietf {
        Some(tag) => Some(LanguageView::IETF(tag)),
        None => match iso639 {
            Some(code) => Some(LanguageView::ISO639(code)),
            None => None,
        },
    }
}

/// A track's language is its last LanguageIETF child if it has one,
/// wherever that child stands; else its last Language child; else absent.
pub proof fn lemma_track_language(children: Seq<ElementView>)
    ensures
        TrackView::of(children).language == preferred(
            last_string(children, ids::LANGUAGE_IETF),
            last_string(children, ids::LANGUAGE),
        ),
    decreases children.len(),
{
    if children.len() > 0 {
        lemma_track_language(children.drop_last());
    }
}

/// A simple tag's language is its last TagLanguageIETF child if it has
/// one, wherever that child stands; else its last TagLanguage child; else
/// absent.
pub proof fn lemma_simple_tag_language(children: Seq<ElementView>)
    ensures
        SimpleTagView::of(children).language == preferred(
            last_string(children, ids::TAGLANGUAGE_IETF),
            last_string(children, ids::TAGLANGUAGE),
        ),
    decreases children.len(),
{
    if children.len() > 0 {
        lemma_simple_tag_language(children.drop_last());
    }
}

/// A chapter display's language is its last ChapLanguageIETF child if it
/// has one, wherever that child stands; else its last ChapLanguage child;
/// else the empty ISO-639 code.
pub proof fn lemma_chapter_display_language(children: Seq<ElementView>)
    ensures
        ChapterDisplayView::of(children).language == match preferred(
            last_string(children, ids::CHAPLANGUAGE_IETF),
            last_string(children, ids::CHAPLANGUAGE),
        ) {
            Some(language) => language,
            None => LanguageView::ISO639(Seq::empty()),
        },
    decreases children.len(),
{
    if children.len() > 0 {
        lemma_chapter_display_language(children.drop_last());
    }
}

/// Given both a Language and a LanguageIETF child, in any order, a track
/// carries the IETF value.
pub proof fn lemma_track_language_ietf_wins(children: Seq<ElementView>, i: int, j: int)
    requires
        0 <= i < children.len(),
        0 <= j < children.len(),
        children[i].id == ids::LANGUAGE,
        children[i].val is String,
        children[j].id == ids::LANGUAGE_IETF,
        children[j].val is String,
    ensures
        TrackView::of(children).language matches Some(LanguageView::IETF(tag))
            && last_string(children, ids::LANGUAGE_IETF) == Some(tag),
{
    lemma_track_language(children);
    lemma_last_string_some(children, ids::LANGUAGE_IETF, j);
}

/// Given both a TagLanguage and a TagLanguageIETF child, in any order, a
/// simple tag carries the IETF value.
pub proof fn lemma_simple_tag_language_ietf_wins(children: Seq<ElementView>, i: int, j: int)
    requires
        0 <= i < children.len(),
        0 <= j < children.len(),
        children[i].id == ids::TAGLANGUAGE,
        children[i].val is String,
        children[j].id == ids::TAGLANGUAGE_IETF,
        children[j].val is String,
    ensures
        SimpleTagView::of(children).language matches Some(LanguageView::IETF(tag))
            && last_string(children, ids::TAGLANGUAGE_IETF) == Some(tag),
{
    lemma_simple_tag_language(children);
    lemma_last_string_some(children, ids::TAGLANGUAGE_IETF, j);
}

/// Given both a ChapLanguage and a ChapLanguageIETF child, in any order,
/// a chapter display carries the IETF value.
pub proof fn lemma_chapter_display_language_ietf_wins(
    children: Seq<ElementView>,
    i: int,
    j: int,
)
    requires
        0 <= i < children.len(),
        0 <= j < children.len(),
        children[i].id == ids::CHAPLANGUAGE,
        children[i].val is String,
        children[j].id == ids::CHAPLANGUAGE_IETF,
        children[j].val is String,
    ensures
        ChapterDisplayView::of(children).language matches LanguageView::IETF(tag) && last_string(
            children,
            ids::CHAPLANGUAGE_IETF,
        ) == Some(tag),
{
    lemma_chapter_display_language(children);
    lemma_last_string_some(children, ids::CHAPLANGUAGE_IETF, j);
}

/// Where some child has the ID `id` and holds an ASCII string, there is a
/// last such child.
pub proof fn lemma_last_string_some(children: Seq<ElementView>, id: u32, j: int)
    requires
        0 <= j < children.len(),
        children[j].id == id,
        children[j].val is String,
    ensures
        last_string(children, id) is Some,
    decreases children.len(),
{
    if j < children.len() - 1 {
        lemma_last_string_some(children.drop_last(), id, j);
    }
}

} // verus!
