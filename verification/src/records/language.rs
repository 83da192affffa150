//! Language codes, and the rule that an IETF tag outranks an ISO-639 code.

use vstd::prelude::*;

verus! {

/// Which form of language is in use.
#[derive(Debug, Clone, PartialEq, Eq, Hash)]
pub enum Language {
    /// Language formatted as ISO-639.
    ISO639(String),
    /// Language formatted as IETF.
    IETF(String),
}

/// The mathematical value of a [`Language`].
pub enum LanguageView {
    ISO639(Seq<char>),
    IETF(Seq<char>),
}

impl DeepView for Language {
    type V = LanguageView;

    open spec fn deep_view(&self) -> LanguageView {
        match self {
            Language::ISO639(s) => LanguageView::ISO639(s@),
            Language::IETF(s) => LanguageView::IETF(s@),
        }
    }
}

impl View for Language {
    type V = LanguageView;

    open spec fn view(&self) -> LanguageView {
        self.deep_view()
    }
}

/// The language after an ISO-639 code `code` has been met: an IETF tag
/// that is already there stays.
pub open spec fn after_iso639(current: LanguageView, code: Seq<char>) -> LanguageView {
    match current {
        LanguageView::IETF(_) => current,
        LanguageView::ISO639(_) => LanguageView::ISO639(code),
    }
}

/// As [`after_iso639`], for a language that may still be absent.
pub open spec fn after_iso639_opt(current: Option<LanguageView>, code: Seq<char>) -> Option<
    LanguageView,
> {
    match current {
        Some(language) => Some(after_iso639(language, code)),
        None => Some(LanguageView::ISO639(code)),
    }
}

impl Language {
    /// Whether this is an IETF tag.
    pub fn is_ietf(&self) -> (b: bool)
        ensures
            b == (self@ is IETF),
    {
        match self {
            Language::IETF(_) => true,
            Language::ISO639(_) => false,
        }
    }

    /// The language after an ISO-639 code has been met.
    pub fn merge_iso639(self, code: &String) -> (merged: Language)
        ensures
            merged@ == after_iso639(self@, code@),
    {
        match self {
            Language::IETF(tag) => Language::IETF(tag),
            Language::ISO639(_) => Language::ISO639(code.clone()),
        }
    }

    /// The language after an ISO-639 code has been met, when there may
    /// have been none before.
    pub fn merge_iso639_opt(current: Option<Language>, code: &String) -> (merged: Option<Language>)
        ensures
            merged.deep_view() == after_iso639_opt(current.deep_view(), code@),
    {
        match current {
            Some(language) => Some(language.merge_iso639(code)),
            None => Some(Language::ISO639(code.clone())),
        }
    }
}

} // verus!
