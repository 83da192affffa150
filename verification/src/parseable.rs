//! Sections of a Segment that can be read on their own.

use crate::element::{
    lemma_master_view, spec_parse_master, views_of, Element, ElementType, ElementView, ValueView,
    MAX_DEPTH,
};
use crate::error::MatroskaError;
use crate::ids;
use crate::records::attachment::{Attachment, AttachmentView};
use crate::records::chapter::{ChapterEdition, ChapterEditionView};
use crate::records::info::{Info, InfoView};
use crate::records::seq_views;
use crate::records::tag::{Tag, TagView};
use crate::records::track::{Track, TrackView};
use crate::source::Source;
use vstd::prelude::*;

verus! {

/// An element which can be parsed from the Matroska stream.
pub trait Parseable {
    /// What to parse from the stream, such as ourself or a `Vec` of
    /// ourselves.
    type Output;

    /// Our Matroska element ID.
    const ID: u32;

    /// Whether `res` is what parsing the body of `size` bytes at `pos`
    /// has to give.
    spec fn parsed(data: Seq<u8>, pos: int, size: nat, res: Result<Self::Output, MatroskaError>) -> bool;

    /// Performs the actual parsing of a body of `size` bytes. On success
    /// the source stands right behind the body.
    fn parse(r: &mut Source, size: u64) -> (res: Result<Self::Output, MatroskaError>)
        ensures
            Self::parsed(old(r).data@, old(r).pos as int, size as nat, res),
            final(r).data == old(r).data,
            res is Ok ==> final(r).pos == old(r).pos + size,
    ;
}

/// The children of the master body of `size` bytes at `pos`.
pub open spec fn section_children(data: Seq<u8>, pos: int, size: nat) -> Result<
    Seq<ElementView>,
    MatroskaError,
> {
    spec_parse_master(data, pos, size, MAX_DEPTH as nat)
}

/// The entries of a section: one record, made by `entry`, for each child
/// that is a master element with the ID `entry_id`, in file order. Other
/// children are passed over.
pub open spec fn entries_of<V>(
    children: Seq<ElementView>,
    entry_id: u32,
    entry: spec_fn(Seq<ElementView>) -> V,
) -> Seq<V>
    decreases children.len(),
{
    if children.len() == 0 {
        Seq::empty()
    } else {
        let before = entries_of(children.drop_last(), entry_id, entry);
        match children.last().val {
            ValueView::Master(grandchildren) => if children.last().id == entry_id {
                before.push(entry(grandchildren))
            } else {
                before
            },
            _ => before,
        }
    }
}

/// The tracks that the children of a Tracks element hold.
pub open spec fn tracks_of(children: Seq<ElementView>) -> Seq<TrackView> {
    entries_of(children, ids::TRACKENTRY, |c: Seq<ElementView>| TrackView::of(c))
}

/// The attachments that the children of an Attachments element hold.
pub open spec fn attachments_of(children: Seq<ElementView>) -> Seq<AttachmentView> {
    entries_of(children, ids::ATTACHEDFILE, |c: Seq<ElementView>| AttachmentView::of(c))
}

/// The editions that the children of a Chapters element hold.
pub open spec fn editions_of(children: Seq<ElementView>) -> Seq<ChapterEditionView> {
    entries_of(children, ids::EDITIONENTRY, |c: Seq<ElementView>| ChapterEditionView::of(c))
}

/// The tags that the children of a Tags element hold.
pub open spec fn tags_of(children: Seq<ElementView>) -> Seq<TagView> {
    entries_of(children, ids::TAG, |c: Seq<ElementView>| TagView::of(c))
}

impl Parseable for Info {
    type Output = Info;

    const ID: u32 = ids::INFO;

    open spec fn parsed(data: Seq<u8>, pos: int, size: nat, res: Result<Info, MatroskaError>) -> bool {
        match res {
            Ok(info) => section_children(data, pos, size) matches Ok(children) && info@
                == InfoView::of(children),
            Err(e) => section_children(data, pos, size) == Err::<Seq<ElementView>, MatroskaError>(
                e,
            ),
        }
    }

    fn parse(r: &mut Source, size: u64) -> (res: Result<Info, MatroskaError>) {
        match Element::parse_master_expecting(r, size, Some(ids::INFO)) {
            Ok(elements) => Ok(Info::build(&elements)),
            Err(e) => Err(e),
        }
    }
}

impl Parseable for Track {
    type Output = Vec<Track>;

    const ID: u32 = ids::TRACKS;

    open spec fn parsed(data: Seq<u8>, pos: int, size: nat, res: Result<Vec<Track>, MatroskaError>) -> bool {
        match res {
            Ok(tracks) => section_children(data, pos, size) matches Ok(children) && seq_views(
                tracks@,
            ) == tracks_of(children),
            Err(e) => section_children(data, pos, size) == Err::<Seq<ElementView>, MatroskaError>(
                e,
            ),
        }
    }

    fn parse(r: &mut Source, size: u64) -> (res: Result<Vec<Track>, MatroskaError>) {
        let elements = match Element::parse_master_expecting(r, size, Some(ids::TRACKENTRY)) {
            Ok(elements) => elements,
            Err(e) => {
                return Err(e);
            },
        };
        let ghost views = views_of(elements@);
        let mut tracks: Vec<Track> = Vec::new();
        let mut i: usize = 0;
        proof {
            assert(seq_views(tracks@) =~= Seq::<TrackView>::empty());
        }
        while i < elements.len()
            invariant
                i <= elements.len(),
                views == views_of(elements@),
                seq_views(tracks@) == tracks_of(views.take(i as int)),
            decreases elements.len() - i,
        {
            proof {
                assert(views.take(i + 1).drop_last() =~= views.take(i as int));
            }
            let e = &elements[i];
            match &e.val {
                ElementType::Master(children) => {
                    proof {
                        lemma_master_view(*children);
                    }
                    if e.id == ids::TRACKENTRY {
                        let ghost before = tracks@;
                        let track = Track::build_entry(children);
                        tracks.push(track);
                        proof {
                            assert(seq_views(before.push(track)) =~= seq_views(before).push(track@));
                        }
                    }
                },
                _ => {},
            }
            i = i + 1;
        }
        proof {
            assert(views.take(i as int) =~= views);
        }
        Ok(tracks)
    }
}

impl Parseable for Attachment {
    type Output = Vec<Attachment>;

    const ID: u32 = ids::ATTACHMENTS;

    open spec fn parsed(
        data: Seq<u8>,
        pos: int,
        size: nat,
        res: Result<Vec<Attachment>, MatroskaError>,
    ) -> bool {
        match res {
            Ok(attachments) => section_children(data, pos, size) matches Ok(children) && seq_views(
                attachments@,
            ) == attachments_of(children),
            Err(e) => section_children(data, pos, size) == Err::<Seq<ElementView>, MatroskaError>(
                e,
            ),
        }
    }

    fn parse(r: &mut Source, size: u64) -> (res: Result<Vec<Attachment>, MatroskaError>) {
        let elements = match Element::parse_master_expecting(r, size, Some(ids::ATTACHEDFILE)) {
            Ok(elements) => elements,
            Err(e) => {
                return Err(e);
            },
        };
        let ghost views = views_of(elements@);
        let mut attachments: Vec<Attachment> = Vec::new();
        let mut i: usize = 0;
        proof {
            assert(seq_views(attachments@) =~= Seq::<AttachmentView>::empty());
        }
        while i < elements.len()
            invariant
                i <= elements.len(),
                views == views_of(elements@),
                seq_views(attachments@) == attachments_of(views.take(i as int)),
            decreases elements.len() - i,
        {
            proof {
                assert(views.take(i + 1).drop_last() =~= views.take(i as int));
            }
            let e = &elements[i];
            match &e.val {
                ElementType::Master(children) => {
                    proof {
                        lemma_master_view(*children);
                    }
                    if e.id == ids::ATTACHEDFILE {
                        let ghost before = attachments@;
                        let attachment = Attachment::build_entry(children);
                        attachments.push(attachment);
                        proof {
                            assert(seq_views(before.push(attachment)) =~= seq_views(before).push(
                                attachment@,
                            ));
                        }
                    }
                },
                _ => {},
            }
            i = i + 1;
        }
        proof {
            assert(views.take(i as int) =~= views);
        }
        Ok(attachments)
    }
}

impl Parseable for ChapterEdition {
    type Output = Vec<ChapterEdition>;

    const ID: u32 = ids::CHAPTERS;

    open spec fn parsed(
        data: Seq<u8>,
        pos: int,
        size: nat,
        res: Result<Vec<ChapterEdition>, MatroskaError>,
    ) -> bool {
        match res {
            Ok(editions) => section_children(data, pos, size) matches Ok(children) && seq_views(
                editions@,
            ) == editions_of(children),
            Err(e) => section_children(data, pos, size) == Err::<Seq<ElementView>, MatroskaError>(
                e,
            ),
        }
    }

    fn parse(r: &mut Source, size: u64) -> (res: Result<Vec<ChapterEdition>, MatroskaError>) {
        let elements = match Element::parse_master_expecting(r, size, Some(ids::EDITIONENTRY)) {
            Ok(elements) => elements,
            Err(e) => {
                return Err(e);
            },
        };
        let ghost views = views_of(elements@);
        let mut editions: Vec<ChapterEdition> = Vec::new();
        let mut i: usize = 0;
        proof {
            assert(seq_views(editions@) =~= Seq::<ChapterEditionView>::empty());
        }
        while i < elements.len()
            invariant
                i <= elements.len(),
                views == views_of(elements@),
                seq_views(editions@) == editions_of(views.take(i as int)),
            decreases elements.len() - i,
        {
            proof {
                assert(views.take(i + 1).drop_last() =~= views.take(i as int));
            }
            let e = &elements[i];
            match &e.val {
                ElementType::Master(children) => {
                    proof {
                        lemma_master_view(*children);
                    }
                    if e.id == ids::EDITIONENTRY {
                        let ghost before = editions@;
                        let edition = ChapterEdition::build_entry(children);
                        editions.push(edition);
                        proof {
                            assert(seq_views(before.push(edition)) =~= seq_views(before).push(
                                edition@,
                            ));
                        }
                    }
                },
                _ => {},
            }
            i = i + 1;
        }
        proof {
            assert(views.take(i as int) =~= views);
        }
        Ok(editions)
    }
}

impl Parseable for Tag {
    type Output = Vec<Tag>;

    const ID: u32 = ids::TAGS;

    open spec fn parsed(data: Seq<u8>, pos: int, size: nat, res: Result<Vec<Tag>, MatroskaError>) -> bool {
        match res {
            Ok(tags) => section_children(data, pos, size) matches Ok(children) && seq_views(tags@)
                == tags_of(children),
            Err(e) => section_children(data, pos, size) == Err::<Seq<ElementView>, MatroskaError>(
                e,
            ),
        }
    }

    fn parse(r: &mut Source, size: u64) -> (res: Result<Vec<Tag>, MatroskaError>) {
        let elements = match Element::parse_master_expecting(r, size, Some(ids::TAG)) {
            Ok(elements) => elements,
            Err(e) => {
                return Err(e);
            },
        };
        let ghost views = views_of(elements@);
        let mut tags: Vec<Tag> = Vec::new();
        let mut i: usize = 0;
        proof {
            assert(seq_views(tags@) =~= Seq::<TagView>::empty());
        }
        while i < elements.len()
            invariant
                i <= elements.len(),
                views == views_of(elements@),
                seq_views(tags@) == tags_of(views.take(i as int)),
            decreases elements.len() - i,
        {
            proof {
                assert(views.take(i + 1).drop_last() =~= views.take(i as int));
            }
            let e = &elements[i];
            match &e.val {
                ElementType::Master(children) => {
                    proof {
                        lemma_master_view(*children);
                    }
                    if e.id == ids::TAG {
                        let ghost before = tags@;
                        let tag = Tag::build_entry(children);
                        tags.push(tag);
                        proof {
                            assert(seq_views(before.push(tag)) =~= seq_views(before).push(tag@));
                        }
                    }
                },
                _ => {},
            }
            i = i + 1;
        }
        proof {
            assert(views.take(i as int) =~= views);
        }
        Ok(tags)
    }
}

} // verus!
