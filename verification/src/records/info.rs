//! The Info section: what holds for the file as a whole.

use crate::date::DateTime;
use crate::element::{views_of, Element, ElementType, ElementView, ValueView};
use crate::float::FloatBits;
use crate::ids;
use crate::records::{bytes_list, clone_bytes, opt_bytes, opt_text};
use vstd::prelude::*;

verus! {

/// Nanoseconds per tick where the file does not say.
pub const DEFAULT_TIMECODE_SCALE: u64 = 1_000_000;

/// An Info segment with information pertaining to the entire file.
#[derive(Debug, Clone, PartialEq, Eq, Hash)]
pub struct Info {
    /// The file's UID.
    pub uid: Option<Vec<u8>>,
    /// Unique ID of the previous segment.
    pub prev_uid: Option<Vec<u8>>,
    /// Unique ID of the next segment.
    pub next_uid: Option<Vec<u8>>,
    /// Unique IDs of the families this segment belongs to.
    pub family_uids: Vec<Vec<u8>>,
    /// The file's title.
    pub title: Option<String>,
    /// The file's duration, in nanoseconds.
    pub duration: Option<u64>,
    /// Production date.
    pub date_utc: Option<DateTime>,
    /// The muxing application or library.
    pub muxing_app: String,
    /// The writing application.
    pub writing_app: String,
}

/// The mathematical value of an [`Info`].
pub struct InfoView {
    pub uid: Option<Seq<u8>>,
    pub prev_uid: Option<Seq<u8>>,
    pub next_uid: Option<Seq<u8>>,
    pub family_uids: Seq<Seq<u8>>,
    pub title: Option<Seq<char>>,
    pub duration: Option<u64>,
    pub date_utc: Option<DateTime>,
    pub muxing_app: Seq<char>,
    pub writing_app: Seq<char>,
}

impl DeepView for Info {
    type V = InfoView;

    open spec fn deep_view(&self) -> InfoView {
        InfoView {
            uid: opt_bytes(self.uid),
            prev_uid: opt_bytes(self.prev_uid),
            next_uid: opt_bytes(self.next_uid),
            family_uids: bytes_list(self.family_uids@),
            title: opt_text(self.title),
            duration: self.duration,
            date_utc: self.date_utc,
            muxing_app: self.muxing_app@,
            writing_app: self.writing_app@,
        }
    }
}

impl View for Info {
    type V = InfoView;

    open spec fn view(&self) -> InfoView {
        self.deep_view()
    }
}

/// What has been gathered from the children of an Info element: the
/// record, and the two values that the duration is computed from once
/// all children have been seen.
pub struct InfoFold {
    pub info: InfoView,
    pub timecode_scale: u64,
    pub ticks: Option<FloatBits>,
}

impl InfoView {
    /// The Info section that states nothing.
    pub open spec fn new() -> InfoView {
        InfoView {
            uid: None,
            prev_uid: None,
            next_uid: None,
            family_uids: Seq::empty(),
            title: None,
            duration: None,
            date_utc: None,
            muxing_app: Seq::empty(),
            writing_app: Seq::empty(),
        }
    }

    /// The Info section that the children of an Info element amount to.
    ///
    /// The duration is the last Duration child, in ticks, times the last
    /// TimecodeScale child, wherever the two stand among the children; a
    /// file without a TimecodeScale counts a million nanoseconds per tick.
    pub open spec fn of(children: Seq<ElementView>) -> InfoView {
        let fold = InfoFold::of(children);
        InfoView {
            duration: match fold.ticks {
                Some(ticks) => Some(ticks.scaled(fold.timecode_scale)),
                None => None,
            },
            ..fold.info
        }
    }
}

impl InfoFold {
    /// Nothing gathered yet.
    pub open spec fn new() -> InfoFold {
        InfoFold { info: InfoView::new(), timecode_scale: DEFAULT_TIMECODE_SCALE, ticks: None }
    }

    /// What has been gathered after one more child. A child with an ID or
    /// a kind that is not looked for changes nothing.
    pub open spec fn step(self, e: ElementView) -> InfoFold {
        let info = self.info;
        match e.val {
            ValueView::Binary(b) => if e.id == ids::SEGMENTUID {
                InfoFold { info: InfoView { uid: Some(b), ..info }, ..self }
            } else if e.id == ids::PREVUID {
                InfoFold { info: InfoView { prev_uid: Some(b), ..info }, ..self }
            } else if e.id == ids::NEXTUID {
                InfoFold { info: InfoView { next_uid: Some(b), ..info }, ..self }
            } else if e.id == ids::SEGMENTFAMILY {
                InfoFold { info: InfoView { family_uids: info.family_uids.push(b), ..info }, ..self }
            } else {
                self
            },
            ValueView::UTF8(s) => if e.id == ids::TITLE {
                InfoFold { info: InfoView { title: Some(s), ..info }, ..self }
            } else if e.id == ids::MUXINGAPP {
                InfoFold { info: InfoView { muxing_app: s, ..info }, ..self }
            } else if e.id == ids::WRITINGAPP {
                InfoFold { info: InfoView { writing_app: s, ..info }, ..self }
            } else {
                self
            },
            ValueView::UInt(u) => if e.id == ids::TIMECODESCALE {
                InfoFold { timecode_scale: u, ..self }
            } else {
                self
            },
            ValueView::Float(f) => if e.id == ids::DURATION {
                InfoFold { ticks: Some(f), ..self }
            } else {
                self
            },
            ValueView::Date(d) => if e.id == ids::DATEUTC {
                InfoFold { info: InfoView { date_utc: Some(d), ..info }, ..self }
            } else {
                self
            },
            _ => self,
        }
    }

    /// What the children of an Info element amount to, taken in from
    /// first to last.
    pub open spec fn of(children: Seq<ElementView>) -> InfoFold
        decreases children.len(),
    {
        if children.len() == 0 {
            Self::new()
        } else {
            Self::of(children.drop_last()).step(children.last())
        }
    }
}

impl Info {
    /// The Info section that states nothing.
    pub fn new() -> (info: Info)
        ensures
            info@ == InfoView::new(),
    {
        let info = Info {
            uid: None,
            prev_uid: None,
            next_uid: None,
            family_uids: Vec::new(),
            title: None,
            duration: None,
            date_utc: None,
            muxing_app: String::new(),
            writing_app: String::new(),
        };
        assert(bytes_list(info.family_uids@) =~= Seq::<Seq<u8>>::empty());
        info
    }

    /// Folds the children of an Info element into the record and computes
    /// the duration.
    pub fn build(elements: &Vec<Element>) -> (info: Info)
        ensures
            info@ == InfoView::of(views_of(elements@)),
    {
        let mut info = Info::new();
        let mut timecode_scale: u64 = DEFAULT_TIMECODE_SCALE;
        let mut ticks: Option<FloatBits> = None;
        let ghost views = views_of(elements@);
        let mut i: usize = 0;
        while i < elements.len()
            invariant
                i <= elements.len(),
                views == views_of(elements@),
                info.duration is None,
                InfoFold::of(views.take(i as int)) == (InfoFold {
                    info: info@,
                    timecode_scale,
                    ticks,
                }),
            decreases elements.len() - i,
        {
            proof {
                assert(views.take(i + 1).drop_last() =~= views.take(i as int));
            }
            let e = &elements[i];
            match &e.val {
                ElementType::Binary(b) => {
                    if e.id == ids::SEGMENTUID {
                        info.uid = Some(clone_bytes(b));
                    } else if e.id == ids::PREVUID {
                        info.prev_uid = Some(clone_bytes(b));
                    } else if e.id == ids::NEXTUID {
                        info.next_uid = Some(clone_bytes(b));
                    } else if e.id == ids::SEGMENTFAMILY {
                        let ghost before = info.family_uids@;
                        let uid = clone_bytes(b);
                        info.family_uids.push(uid);
                        proof {
                            assert(bytes_list(before.push(uid)) =~= bytes_list(before).push(b@));
                        }
                    }
                },
                ElementType::UTF8(s) => {
                    if e.id == ids::TITLE {
                        info.title = Some(s.clone());
                    } else if e.id == ids::MUXINGAPP {
                        info.muxing_app = s.clone();
                    } else if e.id == ids::WRITINGAPP {
                        info.writing_app = s.clone();
                    }
                },
                ElementType::UInt(u) => {
                    if e.id == ids::TIMECODESCALE {
                        timecode_scale = *u;
                    }
                },
                ElementType::Float(f) => {
                    if e.id == ids::DURATION {
                        ticks = Some(*f);
                    }
                },
                ElementType::Date(d) => {
                    if e.id == ids::DATEUTC {
                        info.date_utc = Some(*d);
                    }
                },
                _ => {},
            }
            i = i + 1;
        }
        proof {
            assert(views.take(i as int) =~= views);
        }
        if let Some(t) = ticks {
            info.duration = Some(t.scale(timecode_scale));
        }
        info
    }
}

} // verus!
