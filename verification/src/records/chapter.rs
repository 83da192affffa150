//! Chapter editions, chapters and their display strings.

use crate::element::{
    lemma_master_view, views_of, Element, ElementType, ElementView, ValueView,
};
use crate::ids;
use crate::records::language::{after_iso639, Language, LanguageView};
use crate::records::{clone_bytes, opt_bytes, seq_views};
use vstd::prelude::*;

verus! {

/// The display string for a chapter point entry.
#[derive(Debug, Clone, PartialEq, Eq, Hash)]
pub struct ChapterDisplay {
    /// The user interface string.
    pub string: String,
    /// The string's language.
    pub language: Language,
}

/// The mathematical value of a [`ChapterDisplay`].
pub struct ChapterDisplayView {
    pub string: Seq<char>,
    pub language: LanguageView,
}

impl DeepView for ChapterDisplay {
    type V = ChapterDisplayView;

    open spec fn deep_view(&self) -> ChapterDisplayView {
        ChapterDisplayView { string: self.string@, language: self.language@ }
    }
}

impl View for ChapterDisplay {
    type V = ChapterDisplayView;

    open spec fn view(&self) -> ChapterDisplayView {
        self.deep_view()
    }
}

impl ChapterDisplayView {
    /// The display that states nothing: an empty string in an empty
    /// ISO-639 language.
    pub open spec fn new() -> ChapterDisplayView {
        ChapterDisplayView { string: Seq::empty(), language: LanguageView::ISO639(Seq::empty()) }
    }

    /// The display after one more child of the ChapterDisplay has been
    /// taken in. An ISO-639 language does not replace an IETF tag. A
    /// child with an ID or a kind that is not looked for changes nothing.
    pub open spec fn step(self, e: ElementView) -> ChapterDisplayView {
        match e.val {
            ValueView::UTF8(s) => if e.id == ids::CHAPSTRING {
                ChapterDisplayView { string: s, ..self }
            } else {
                self
            },
            ValueView::String(s) => if e.id == ids::CHAPLANGUAGE {
                ChapterDisplayView { language: after_iso639(self.language, s), ..self }
            } else if e.id == ids::CHAPLANGUAGE_IETF {
                ChapterDisplayView { language: LanguageView::IETF(s), ..self }
            } else {
                self
            },
            _ => self,
        }
    }

    /// The display that the children of a ChapterDisplay amount to, taken
    /// in from first to last.
    pub open spec fn of(children: Seq<ElementView>) -> ChapterDisplayView
        decreases children.len(),
    {
        if children.len() == 0 {
            Self::new()
        } else {
            Self::of(children.drop_last()).step(children.last())
        }
    }
}

impl ChapterDisplay {
    /// The display that states nothing.
    pub fn new() -> (display: ChapterDisplay)
        ensures
            display@ == ChapterDisplayView::new(),
    {
        ChapterDisplay { string: String::new(), language: Language::ISO639(String::new()) }
    }

    /// Folds the children of a ChapterDisplay into a display.
    pub fn build(elements: &Vec<Element>) -> (display: ChapterDisplay)
        ensures
            display@ == ChapterDisplayView::of(views_of(elements@)),
    {
        let mut display = ChapterDisplay::new();
        let ghost views = views_of(elements@);
        let mut i: usize = 0;
        while i < elements.len()
            invariant
                i <= elements.len(),
                views == views_of(elements@),
                display@ == ChapterDisplayView::of(views.take(i as int)),
            decreases elements.len() - i,
        {
            proof {
                assert(views.take(i + 1).drop_last() =~= views.take(i as int));
            }
            let e = &elements[i];
            match &e.val {
                ElementType::UTF8(s) => {
                    if e.id == ids::CHAPSTRING {
                        display.string = s.clone();
                    }
                },
                ElementType::String(s) => {
                    if e.id == ids::CHAPLANGUAGE {
                        display.language = display.language.merge_iso639(s);
                    } else if e.id == ids::CHAPLANGUAGE_IETF {
                        display.language = Language::IETF(s.clone());
                    }
                },
                _ => {},
            }
            i = i + 1;
        }
        proof {
            assert(views.take(i as int) =~= views);
        }
        display
    }
}

/// An individual chapter point.
#[derive(Debug, Clone, PartialEq, Eq, Hash)]
pub struct Chapter {
    /// The chapter's UID.
    pub uid: u64,
    /// Timestamp of the start of the chapter, in nanoseconds.
    pub time_start: u64,
    /// Timestamp of the end of the chapter, in nanoseconds.
    pub time_end: Option<u64>,
    /// Whether the chapter point should be hidden in the user interface.
    pub hidden: bool,
    /// Whether the chapter point should be enabled in the user interface.
    pub enabled: bool,
    /// Unique ID of the segment to be played during this chapter.
    pub segment_uid: Option<Vec<u8>>,
    /// Unique ID of the edition to play from the linked segment.
    pub segment_edition_uid: Option<u64>,
    /// Contains all strings to use for displaying chapter.
    pub display: Vec<ChapterDisplay>,
}

/// The mathematical value of a [`Chapter`].
pub struct ChapterView {
    pub uid: u64,
    pub time_start: u64,
    pub time_end: Option<u64>,
    pub hidden: bool,
    pub enabled: bool,
    pub segment_uid: Option<Seq<u8>>,
    pub segment_edition_uid: Option<u64>,
    pub display: Seq<ChapterDisplayView>,
}

impl DeepView for Chapter {
    type V = ChapterView;

    open spec fn deep_view(&self) -> ChapterView {
        ChapterView {
            uid: self.uid,
            time_start: self.time_start,
            time_end: self.time_end,
            hidden: self.hidden,
            enabled: self.enabled,
            segment_uid: opt_bytes(self.segment_uid),
            segment_edition_uid: self.segment_edition_uid,
            display: seq_views(self.display@),
        }
    }
}

impl View for Chapter {
    type V = ChapterView;

    open spec fn view(&self) -> ChapterView {
        self.deep_view()
    }
}

impl ChapterView {
    /// The chapter that states nothing about itself.
    pub open spec fn new() -> ChapterView {
        ChapterView {
            uid: 0,
            time_start: 0,
            time_end: None,
            hidden: false,
            enabled: false,
            segment_uid: None,
            segment_edition_uid: None,
            display: Seq::empty(),
        }
    }

    /// The chapter after one more child of the ChapterAtom has been taken
    /// in. Each ChapterDisplay child adds a display, in file order. A
    /// child with an ID or a kind that is not looked for changes nothing.
    pub open spec fn step(self, e: ElementView) -> ChapterView {
        match e.val {
            ValueView::UInt(u) => if e.id == ids::CHAPTERUID {
                ChapterView { uid: u, ..self }
            } else if e.id == ids::CHAPTERTIMESTART {
                ChapterView { time_start: u, ..self }
            } else if e.id == ids::CHAPTERTIMEEND {
                ChapterView { time_end: Some(u), ..self }
            } else if e.id == ids::CHAPTERFLAGHIDDEN {
                ChapterView { hidden: u != 0, ..self }
            } else if e.id == ids::CHAPTERFLAGENABLED {
                ChapterView { enabled: u != 0, ..self }
            } else if e.id == ids::CHAPTERSEGMENTEDITIONUID {
                ChapterView { segment_edition_uid: Some(u), ..self }
            } else {
                self
            },
            ValueView::Binary(b) => if e.id == ids::CHAPTERSEGMENTUID {
                ChapterView { segment_uid: Some(b), ..self }
            } else {
                self
            },
            ValueView::Master(children) => if e.id == ids::CHAPTERDISPLAY {
                ChapterView {
                    display: self.display.push(ChapterDisplayView::of(children)),
                    ..self
                }
            } else {
                self
            },
            _ => self,
        }
    }

    /// The chapter that the children of a ChapterAtom amount to, taken in
    /// from first to last.
    pub open spec fn of(children: Seq<ElementView>) -> ChapterView
        decreases children.len(),
    {
        if children.len() == 0 {
            Self::new()
        } else {
            Self::of(children.drop_last()).step(children.last())
        }
    }
}

impl Chapter {
    /// The chapter that states nothing about itself.
    pub fn new() -> (chapter: Chapter)
        ensures
            chapter@ == ChapterView::new(),
    {
        let chapter = Chapter {
            uid: 0,
            time_start: 0,
            time_end: None,
            hidden: false,
            enabled: false,
            segment_uid: None,
            segment_edition_uid: None,
            display: Vec::new(),
        };
        assert(seq_views(chapter.display@) =~= Seq::<ChapterDisplayView>::empty());
        chapter
    }

    /// Folds the children of a ChapterAtom into a chapter.
    pub fn build(elements: &Vec<Element>) -> (chapter: Chapter)
        ensures
            chapter@ == ChapterView::of(views_of(elements@)),
    {
        let mut chapter = Chapter::new();
        let ghost views = views_of(elements@);
        let mut i: usize = 0;
        while i < elements.len()
            invariant
                i <= elements.len(),
                views == views_of(elements@),
                chapter@ == ChapterView::of(views.take(i as int)),
            decreases elements.len() - i,
        {
            proof {
                assert(views.take(i + 1).drop_last() =~= views.take(i as int));
            }
            let e = &elements[i];
            match &e.val {
                ElementType::UInt(u) => {
                    let u = *u;
                    if e.id == ids::CHAPTERUID {
                        chapter.uid = u;
                    } else if e.id == ids::CHAPTERTIMESTART {
                        chapter.time_start = u;
                    } else if e.id == ids::CHAPTERTIMEEND {
                        chapter.time_end = Some(u);
                    } else if e.id == ids::CHAPTERFLAGHIDDEN {
                        chapter.hidden = u != 0;
                    } else if e.id == ids::CHAPTERFLAGENABLED {
                        chapter.enabled = u != 0;
                    } else if e.id == ids::CHAPTERSEGMENTEDITIONUID {
                        chapter.segment_edition_uid = Some(u);
                    }
                },
                ElementType::Binary(b) => {
                    if e.id == ids::CHAPTERSEGMENTUID {
                        chapter.segment_uid = Some(clone_bytes(b));
                    }
                },
                ElementType::Master(children) => {
                    proof {
                        lemma_master_view(*children);
                    }
                    if e.id == ids::CHAPTERDISPLAY {
                        let ghost before = chapter.display@;
                        let display = ChapterDisplay::build(children);
                        chapter.display.push(display);
                        proof {
                            assert(seq_views(before.push(display)) =~= seq_views(before).push(
                                display@,
                            ));
                        }
                    }
                },
                _ => {},
            }
            i = i + 1;
        }
        proof {
            assert(views.take(i as int) =~= views);
        }
        chapter
    }
}

/// A complete set of chapters.
#[derive(Debug, Clone, PartialEq, Eq, Hash)]
pub struct ChapterEdition {
    /// The edition's UID.
    pub uid: Option<u64>,
    /// Whether the chapters should be hidden in the user interface.
    pub hidden: bool,
    /// Whether the chapters should be the default.
    pub default: bool,
    /// Whether the order to play chapters is enforced.
    pub ordered: bool,
    /// The individual chapter entries.
    pub chapters: Vec<Chapter>,
}

/// The mathematical value of a [`ChapterEdition`].
pub struct ChapterEditionView {
    pub uid: Option<u64>,
    pub hidden: bool,
    pub default: bool,
    pub ordered: bool,
    pub chapters: Seq<ChapterView>,
}

impl DeepView for ChapterEdition {
    type V = ChapterEditionView;

    open spec fn deep_view(&self) -> ChapterEditionView {
        ChapterEditionView {
            uid: self.uid,
            hidden: self.hidden,
            default: self.default,
            ordered: self.ordered,
            chapters: seq_views(self.chapters@),
        }
    }
}

impl View for ChapterEdition {
    type V = ChapterEditionView;

    open spec fn view(&self) -> ChapterEditionView {
        self.deep_view()
    }
}

impl ChapterEditionView {
    /// The edition that states nothing about itself.
    pub open spec fn new() -> ChapterEditionView {
        ChapterEditionView {
            uid: None,
            hidden: false,
            default: false,
            ordered: false,
            chapters: Seq::empty(),
        }
    }

    /// The edition after one more child of the EditionEntry has been
    /// taken in. Each ChapterAtom child adds a chapter, in file order. A
    /// child with an ID or a kind that is not looked for changes nothing.
    pub open spec fn step(self, e: ElementView) -> ChapterEditionView {
        match e.val {
            ValueView::UInt(u) => if e.id == ids::EDITIONUID {
                ChapterEditionView { uid: Some(u), ..self }
            } else if e.id == ids::EDITIONFLAGHIDDEN {
                ChapterEditionView { hidden: u != 0, ..self }
            } else if e.id == ids::EDITIONFLAGDEFAULT {
                ChapterEditionView { default: u != 0, ..self }
            } else if e.id == ids::EDITIONFLAGORDERED {
                ChapterEditionView { ordered: u != 0, ..self }
            } else {
                self
            },
            ValueView::Master(children) => if e.id == ids::CHAPTERATOM {
                ChapterEditionView { chapters: self.chapters.push(ChapterView::of(children)), ..self }
            } else {
                self
            },
            _ => self,
        }
    }

    /// The edition that the children of an EditionEntry amount to, taken
    /// in from first to last.
    pub open spec fn of(children: Seq<ElementView>) -> ChapterEditionView
        decreases children.len(),
    {
        if children.len() == 0 {
            Self::new()
        } else {
            Self::of(children.drop_last()).step(children.last())
        }
    }
}

impl ChapterEdition {
    /// The edition that states nothing about itself.
    pub fn new() -> (edition: ChapterEdition)
        ensures
            edition@ == ChapterEditionView::new(),
    {
        let edition = ChapterEdition {
            uid: None,
            hidden: false,
            default: false,
            ordered: false,
            chapters: Vec::new(),
        };
        assert(seq_views(edition.chapters@) =~= Seq::<ChapterView>::empty());
        edition
    }

    /// Folds the children of an EditionEntry into an edition.
    pub fn build_entry(elements: &Vec<Element>) -> (edition: ChapterEdition)
        ensures
            edition@ == ChapterEditionView::of(views_of(elements@)),
    {
        let mut edition = ChapterEdition::new();
        let ghost views = views_of(elements@);
        let mut i: usize = 0;
        while i < elements.len()
            invariant
                i <= elements.len(),
                views == views_of(elements@),
                edition@ == ChapterEditionView::of(views.take(i as int)),
            decreases elements.len() - i,
        {
            proof {
                assert(views.take(i + 1).drop_last() =~= views.take(i as int));
            }
            let e = &elements[i];
            match &e.val {
                ElementType::UInt(u) => {
                    let u = *u;
                    if e.id == ids::EDITIONUID {
                        edition.uid = Some(u);
                    } else if e.id == ids::EDITIONFLAGHIDDEN {
                        edition.hidden = u != 0;
                    } else if e.id == ids::EDITIONFLAGDEFAULT {
                        edition.default = u != 0;
                    } else if e.id == ids::EDITIONFLAGORDERED {
                        edition.ordered = u != 0;
                    }
                },
                ElementType::Master(children) => {
                    proof {
                        lemma_master_view(*children);
                    }
                    if e.id == ids::CHAPTERATOM {
                        let ghost before = edition.chapters@;
                        let chapter = Chapter::build(children);
                        edition.chapters.push(chapter);
                        proof {
                            assert(seq_views(before.push(chapter)) =~= seq_views(before).push(
                                chapter@,
                            ));
                        }
                    }
                },
                _ => {},
            }
            i = i + 1;
        }
        proof {
            assert(views.take(i as int) =~= views);
        }
        edition
    }
}

} // verus!
