//! Tags: what they apply to and what they say.

use crate::element::{
    lemma_master_view, views_of, Element, ElementType, ElementView, ValueView,
};
use crate::ids;
use crate::records::language::{after_iso639_opt, Language, LanguageView};
use crate::records::{clone_bytes, opt_text, seq_views};
use vstd::prelude::*;

verus! {

/// The type of value the tag is for.
#[derive(Debug, Copy, Clone, Hash, Eq, PartialEq, Structural)]
pub enum TargetTypeValue {
    /// Collection.
    Collection,
    /// Edition, issue, volume, opus, season or sequel.
    Season,
    /// Album, opera, concert, movie or episode.
    Episode,
    /// Part or session.
    Part,
    /// Track, song or chapter.
    Chapter,
    /// Subtrack, part, movement or scene.
    Scene,
    /// Shot.
    Shot,
    /// None of the defined value types.
    Unknown,
}

impl TargetTypeValue {
    /// The level that the stored number stands for.
    pub open spec fn spec_from(val: u64) -> TargetTypeValue {
        if val == 70 {
            TargetTypeValue::Collection
        } else if val == 60 {
            TargetTypeValue::Season
        } else if val == 50 {
            TargetTypeValue::Episode
        } else if val == 40 {
            TargetTypeValue::Part
        } else if val == 30 {
            TargetTypeValue::Chapter
        } else if val == 20 {
            TargetTypeValue::Scene
        } else if val == 10 {
            TargetTypeValue::Shot
        } else {
            TargetTypeValue::Unknown
        }
    }

    /// The name of the level.
    pub open spec fn name(self) -> Seq<char> {
        match self {
            TargetTypeValue::Collection => "collection"@,
            TargetTypeValue::Season => "season"@,
            TargetTypeValue::Episode => "episode"@,
            TargetTypeValue::Part => "part"@,
            TargetTypeValue::Chapter => "chapter"@,
            TargetTypeValue::Scene => "scene"@,
            TargetTypeValue::Shot => "shot"@,
            TargetTypeValue::Unknown => "unknown"@,
        }
    }

    /// Returns type value as static string.
    pub fn as_str(&self) -> (name: &'static str)
        ensures
            name@ == self.name(),
    {
        match self {
            TargetTypeValue::Collection => "collection",
            TargetTypeValue::Season => "season",
            TargetTypeValue::Episode => "episode",
            TargetTypeValue::Part => "part",
            TargetTypeValue::Chapter => "chapter",
            TargetTypeValue::Scene => "scene",
            TargetTypeValue::Shot => "shot",
            TargetTypeValue::Unknown => "unknown",
        }
    }
}

impl From<u64> for TargetTypeValue {
    fn from(val: u64) -> (level: TargetTypeValue) {
        match val {
            70 => TargetTypeValue::Collection,
            60 => TargetTypeValue::Season,
            50 => TargetTypeValue::Episode,
            40 => TargetTypeValue::Part,
            30 => TargetTypeValue::Chapter,
            20 => TargetTypeValue::Scene,
            10 => TargetTypeValue::Shot,
            _ => TargetTypeValue::Unknown,
        }
    }
}

impl vstd::std_specs::convert::FromSpecImpl<u64> for TargetTypeValue {
    open spec fn obeys_from_spec() -> bool {
        true
    }

    open spec fn from_spec(val: u64) -> TargetTypeValue {
        TargetTypeValue::spec_from(val)
    }
}

/// Which elements the metadata's tag applies to.
#[derive(Debug, Clone, PartialEq, Eq, Hash)]
pub struct Target {
    /// Logical level of target.
    pub target_type_value: Option<TargetTypeValue>,
    /// Informational string of target level.
    pub target_type: Option<String>,
    /// Unique IDs of track(s) the tag belongs to.
    pub track_uids: Vec<u64>,
    /// Unique IDs of edition entry(s) the tag belongs to.
    pub edition_uids: Vec<u64>,
    /// Unique IDs of chapter(s) the tag belongs to.
    pub chapter_uids: Vec<u64>,
    /// Unique IDs of attachment(s) the tag belongs to.
    pub attachment_uids: Vec<u64>,
}

/// The mathematical value of a [`Target`].
pub struct TargetView {
    pub target_type_value: Option<TargetTypeValue>,
    pub target_type: Option<Seq<char>>,
    pub track_uids: Seq<u64>,
    pub edition_uids: Seq<u64>,
    pub chapter_uids: Seq<u64>,
    pub attachment_uids: Seq<u64>,
}

impl DeepView for Target {
    type V = TargetView;

    open spec fn deep_view(&self) -> TargetView {
        TargetView {
            target_type_value: self.target_type_value,
            target_type: opt_text(self.target_type),
            track_uids: self.track_uids@,
            edition_uids: self.edition_uids@,
            chapter_uids: self.chapter_uids@,
            attachment_uids: self.attachment_uids@,
        }
    }
}

impl View for Target {
    type V = TargetView;

    open spec fn view(&self) -> TargetView {
        self.deep_view()
    }
}

impl TargetView {
    /// The target that names nothing.
    pub open spec fn new() -> TargetView {
        TargetView {
            target_type_value: None,
            target_type: None,
            track_uids: Seq::empty(),
            edition_uids: Seq::empty(),
            chapter_uids: Seq::empty(),
            attachment_uids: Seq::empty(),
        }
    }

    /// The target after one more child of the Targets element has been
    /// taken in. Each UID child adds to its list, in file order. A child
    /// with an ID or a kind that is not looked for changes nothing.
    pub open spec fn step(self, e: ElementView) -> TargetView {
        match e.val {
            ValueView::UInt(u) => if e.id == ids::TARGETTYPEVALUE {
                TargetView { target_type_value: Some(TargetTypeValue::spec_from(u)), ..self }
            } else if e.id == ids::TAG_TRACK_UID {
                TargetView { track_uids: self.track_uids.push(u), ..self }
            } else if e.id == ids::TAG_EDITION_UID {
                TargetView { edition_uids: self.edition_uids.push(u), ..self }
            } else if e.id == ids::TAG_CHAPTER_UID {
                TargetView { chapter_uids: self.chapter_uids.push(u), ..self }
            } else if e.id == ids::TAG_ATTACHMENT_UID {
                TargetView { attachment_uids: self.attachment_uids.push(u), ..self }
            } else {
                self
            },
            ValueView::String(s) => if e.id == ids::TARGETTYPE {
                TargetView { target_type: Some(s), ..self }
            } else {
                self
            },
            _ => self,
        }
    }

    /// The target that the children of a Targets element amount to, taken
    /// in from first to last.
    pub open spec fn of(children: Seq<ElementView>) -> TargetView
        decreases children.len(),
    {
        if children.len() == 0 {
            Self::new()
        } else {
            Self::of(children.drop_last()).step(children.last())
        }
    }
}

impl Target {
    /// The target that names nothing.
    pub fn new() -> (target: Target)
        ensures
            target@ == TargetView::new(),
    {
        Target {
            target_type_value: None,
            target_type: None,
            track_uids: Vec::new(),
            edition_uids: Vec::new(),
            chapter_uids: Vec::new(),
            attachment_uids: Vec::new(),
        }
    }

    /// Folds the children of a Targets element into a target.
    pub fn build_entry(elements: &Vec<Element>) -> (target: Target)
        ensures
            target@ == TargetView::of(views_of(elements@)),
    {
        let mut target = Target::new();
        let ghost views = views_of(elements@);
        let mut i: usize = 0;
        while i < elements.len()
            invariant
                i <= elements.len(),
                views == views_of(elements@),
                target@ == TargetView::of(views.take(i as int)),
            decreases elements.len() - i,
        {
            proof {
                assert(views.take(i + 1).drop_last() =~= views.take(i as int));
            }
            let e = &elements[i];
            match &e.val {
                ElementType::UInt(u) => {
                    let u = *u;
                    if e.id == ids::TARGETTYPEVALUE {
                        target.target_type_value = Some(TargetTypeValue::from(u));
                    } else if e.id == ids::TAG_TRACK_UID {
                        target.track_uids.push(u);
                    } else if e.id == ids::TAG_EDITION_UID {
                        target.edition_uids.push(u);
                    } else if e.id == ids::TAG_CHAPTER_UID {
                        target.chapter_uids.push(u);
                    } else if e.id == ids::TAG_ATTACHMENT_UID {
                        target.attachment_uids.push(u);
                    }
                },
                ElementType::String(s) => {
                    if e.id == ids::TARGETTYPE {
                        target.target_type = Some(s.clone());
                    }
                },
                _ => {},
            }
            i = i + 1;
        }
        proof {
            assert(views.take(i as int) =~= views);
        }
        target
    }
}

/// A tag's value.
#[derive(Debug, Clone, PartialEq, Eq, Hash)]
pub enum TagValue {
    /// Tag's value as string.
    String(String),
    /// Tag's value as binary.
    Binary(Vec<u8>),
}

/// The mathematical value of a [`TagValue`].
pub enum TagValueView {
    String(Seq<char>),
    Binary(Seq<u8>),
}

impl DeepView for TagValue {
    type V = TagValueView;

    open spec fn deep_view(&self) -> TagValueView {
        match self {
            TagValue::String(s) => TagValueView::String(s@),
            TagValue::Binary(b) => TagValueView::Binary(b@),
        }
    }
}

impl View for TagValue {
    type V = TagValueView;

    open spec fn view(&self) -> TagValueView {
        self.deep_view()
    }
}

/// General information about the target.
#[derive(Debug, Clone, PartialEq, Eq, Hash)]
pub struct SimpleTag {
    /// The tag's name.
    pub name: String,
    /// The tag's language.
    pub language: Option<Language>,
    /// Whether this is the default/original language to use.
    pub default: bool,
    /// The tag's value.
    pub value: Option<TagValue>,
}

/// The mathematical value of a [`SimpleTag`].
pub struct SimpleTagView {
    pub name: Seq<char>,
    pub language: Option<LanguageView>,
    pub default: bool,
    pub value: Option<TagValueView>,
}

impl DeepView for SimpleTag {
    type V = SimpleTagView;

    open spec fn deep_view(&self) -> SimpleTagView {
        SimpleTagView {
            name: self.name@,
            language: self.language.deep_view(),
            default: self.default,
            value: self.value.deep_view(),
        }
    }
}

impl View for SimpleTag {
    type V = SimpleTagView;

    open spec fn view(&self) -> SimpleTagView {
        self.deep_view()
    }
}

impl SimpleTagView {
    /// The simple tag that states nothing.
    pub open spec fn new() -> SimpleTagView {
        SimpleTagView { name: Seq::empty(), language: None, default: false, value: None }
    }

    /// The simple tag after one more child of the SimpleTag element has
    /// been taken in. An ISO-639 language does not replace an IETF tag.
    /// Of a text value and a byte value the later one stays. A child with
    /// an ID or a kind that is not looked for changes nothing.
    pub open spec fn step(self, e: ElementView) -> SimpleTagView {
        match e.val {
            ValueView::UTF8(s) => if e.id == ids::TAGNAME {
                SimpleTagView { name: s, ..self }
            } else if e.id == ids::TAGSTRING {
                SimpleTagView { value: Some(TagValueView::String(s)), ..self }
            } else {
                self
            },
            ValueView::String(s) => if e.id == ids::TAGLANGUAGE {
                SimpleTagView { language: after_iso639_opt(self.language, s), ..self }
            } else if e.id == ids::TAGLANGUAGE_IETF {
                SimpleTagView { language: Some(LanguageView::IETF(s)), ..self }
            } else {
                self
            },
            ValueView::UInt(u) => if e.id == ids::TAGDEFAULT {
                SimpleTagView { default: u != 0, ..self }
            } else {
                self
            },
            ValueView::Binary(b) => if e.id == ids::TAGBINARY {
                SimpleTagView { value: Some(TagValueView::Binary(b)), ..self }
            } else {
                self
            },
            _ => self,
        }
    }

    /// The simple tag that the children of a SimpleTag element amount to,
    /// taken in from first to last.
    pub open spec fn of(children: Seq<ElementView>) -> SimpleTagView
        decreases children.len(),
    {
        if children.len() == 0 {
            Self::new()
        } else {
            Self::of(children.drop_last()).step(children.last())
        }
    }
}

impl SimpleTag {
    /// The simple tag that states nothing.
    pub fn new() -> (tag: SimpleTag)
        ensures
            tag@ == SimpleTagView::new(),
    {
        SimpleTag { name: String::new(), language: None, default: false, value: None }
    }

    /// Folds the children of a SimpleTag element into a simple tag.
    pub fn build_entry(elements: &Vec<Element>) -> (tag: SimpleTag)
        ensures
            tag@ == SimpleTagView::of(views_of(elements@)),
    {
        let mut tag = SimpleTag::new();
        let ghost views = views_of(elements@);
        let mut i: usize = 0;
        while i < elements.len()
            invariant
                i <= elements.len(),
                views == views_of(elements@),
                tag@ == SimpleTagView::of(views.take(i as int)),
            decreases elements.len() - i,
        {
            proof {
                assert(views.take(i + 1).drop_last() =~= views.take(i as int));
            }
            let e = &elements[i];
            match &e.val {
                ElementType::UTF8(s) => {
                    if e.id == ids::TAGNAME {
                        tag.name = s.clone();
                    } else if e.id == ids::TAGSTRING {
                        tag.value = Some(TagValue::String(s.clone()));
                    }
                },
                ElementType::String(s) => {
                    if e.id == ids::TAGLANGUAGE {
                        tag.language = Language::merge_iso639_opt(tag.language, s);
                    } else if e.id == ids::TAGLANGUAGE_IETF {
                        tag.language = Some(Language::IETF(s.clone()));
                    }
                },
                ElementType::UInt(u) => {
                    if e.id == ids::TAGDEFAULT {
                        tag.default = *u != 0;
                    }
                },
                ElementType::Binary(b) => {
                    if e.id == ids::TAGBINARY {
                        tag.value = Some(TagValue::Binary(clone_bytes(b)));
                    }
                },
                _ => {},
            }
            i = i + 1;
        }
        proof {
            assert(views.take(i as int) =~= views);
        }
        tag
    }
}

/// An attached tag.
#[derive(Debug, Clone, PartialEq, Eq, Hash)]
pub struct Tag {
    /// Which elements the metadata's tag applies to.
    pub targets: Option<Target>,
    /// General information about the target.
    pub simple: Vec<SimpleTag>,
}

/// The mathematical value of a [`Tag`].
pub struct TagView {
    pub targets: Option<TargetView>,
    pub simple: Seq<SimpleTagView>,
}

impl DeepView for Tag {
    type V = TagView;

    open spec fn deep_view(&self) -> TagView {
        TagView { targets: self.targets.deep_view(), simple: seq_views(self.simple@) }
    }
}

impl View for Tag {
    type V = TagView;

    open spec fn view(&self) -> TagView {
        self.deep_view()
    }
}

impl TagView {
    /// The tag that states nothing.
    pub open spec fn new() -> TagView {
        TagView { targets: None, simple: Seq::empty() }
    }

    /// The tag after one more child of the Tag element has been taken in.
    /// The last Targets child stays; each SimpleTag child adds a simple
    /// tag, in file order. A child with an ID or a kind that is not
    /// looked for changes nothing.
    pub open spec fn step(self, e: ElementView) -> TagView {
        match e.val {
            ValueView::Master(children) => if e.id == ids::TARGETS {
                TagView { targets: Some(TargetView::of(children)), ..self }
            } else if e.id == ids::SIMPLETAG {
                TagView { simple: self.simple.push(SimpleTagView::of(children)), ..self }
            } else {
                self
            },
            _ => self,
        }
    }

    /// The tag that the children of a Tag element amount to, taken in
    /// from first to last.
    pub open spec fn of(children: Seq<ElementView>) -> TagView
        decreases children.len(),
    {
        if children.len() == 0 {
            Self::new()
        } else {
            Self::of(children.drop_last()).step(children.last())
        }
    }
}

impl Tag {
    /// The tag that states nothing.
    pub fn new() -> (tag: Tag)
        ensures
            tag@ == TagView::new(),
    {
        let tag = Tag { targets: None, simple: Vec::new() };
        assert(seq_views(tag.simple@) =~= Seq::<SimpleTagView>::empty());
        tag
    }

    /// Folds the children of a Tag element into a tag.
    pub fn build_entry(elements: &Vec<Element>) -> (tag: Tag)
        ensures
            tag@ == TagView::of(views_of(elements@)),
    {
        let mut tag = Tag::new();
        let ghost views = views_of(elements@);
        let mut i: usize = 0;
        while i < elements.len()
            invariant
                i <= elements.len(),
                views == views_of(elements@),
                tag@ == TagView::of(views.take(i as int)),
            decreases elements.len() - i,
        {
            proof {
                assert(views.take(i + 1).drop_last() =~= views.take(i as int));
            }
            let e = &elements[i];
            match &e.val {
                ElementType::Master(children) => {
                    proof {
                        lemma_master_view(*children);
                    }
                    if e.id == ids::TARGETS {
                        tag.targets = Some(Target::build_entry(children));
                    } else if e.id == ids::SIMPLETAG {
                        let ghost before = tag.simple@;
                        let simple = SimpleTag::build_entry(children);
                        tag.simple.push(simple);
                        proof {
                            assert(seq_views(before.push(simple)) =~= seq_views(before).push(
                                simple@,
                            ));
                        }
                    }
                },
                _ => {},
            }
            i = i + 1;
        }
        proof {
            assert(views.take(i as int) =~= views);
        }
        tag
    }
}

} // verus!
