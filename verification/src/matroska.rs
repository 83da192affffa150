//! The navigator: from the bytes of a file to its metadata.

use crate::element::ElementView;
use crate::error::{Corruption, IoError, MatroskaError};
use crate::ids;
use crate::laws::wellformed::{lemma_well_formed_opens, well_formed_file};
use crate::parseable::{
    attachments_of, editions_of, section_children, tags_of, tracks_of, Parseable,
};
use crate::records::attachment::{Attachment, AttachmentView};
use crate::records::chapter::{ChapterEdition, ChapterEditionView};
use crate::records::info::{Info, InfoView};
use crate::records::seq_views;
use crate::records::tag::{Tag, TagView};
use crate::records::track::{Track, TrackView, Tracktype};
use crate::seek::{spec_seek_position, spec_seektable, Seektable, MAX_SEEK_LINKS};
use crate::source::Source;
use crate::vint::{read_element_id_size, spec_header};
use vstd::prelude::*;

verus! {

/// A Matroska file.
#[derive(Debug, Clone, PartialEq, Eq, Hash)]
pub struct Matroska {
    /// The file's Info segment.
    pub info: Info,
    /// The file's Tracks segment.
    pub tracks: Vec<Track>,
    /// The file's Attachments segment.
    pub attachments: Vec<Attachment>,
    /// The file's Chapters segment.
    pub chapters: Vec<ChapterEdition>,
    /// The file's Tags segment.
    pub tags: Vec<Tag>,
}

/// The mathematical value of a [`Matroska`].
pub struct MatroskaView {
    pub info: InfoView,
    pub tracks: Seq<TrackView>,
    pub attachments: Seq<AttachmentView>,
    pub chapters: Seq<ChapterEditionView>,
    pub tags: Seq<TagView>,
}

impl DeepView for Matroska {
    type V = MatroskaView;

    open spec fn deep_view(&self) -> MatroskaView {
        MatroskaView {
            info: self.info@,
            tracks: seq_views(self.tracks@),
            attachments: seq_views(self.attachments@),
            chapters: seq_views(self.chapters@),
            tags: seq_views(self.tags@),
        }
    }
}

impl View for Matroska {
    type V = MatroskaView;

    open spec fn view(&self) -> MatroskaView {
        self.deep_view()
    }
}

/// Whether `id` is one of the five sections that make up the metadata.
pub open spec fn is_section(id: u32) -> bool {
    id == ids::INFO || id == ids::TRACKS || id == ids::ATTACHMENTS || id == ids::CHAPTERS || id
        == ids::TAGS
}

impl MatroskaView {
    /// The file that states nothing.
    pub open spec fn new() -> MatroskaView {
        MatroskaView {
            info: InfoView::new(),
            tracks: Seq::empty(),
            attachments: Seq::empty(),
            chapters: Seq::empty(),
            tags: Seq::empty(),
        }
    }

    /// The file with the section `id` replaced by what `children`, the
    /// children of that section's element, amount to.
    pub open spec fn with_section(self, id: u32, children: Seq<ElementView>) -> MatroskaView {
        if id == ids::INFO {
            MatroskaView { info: InfoView::of(children), ..self }
        } else if id == ids::TRACKS {
            MatroskaView { tracks: tracks_of(children), ..self }
        } else if id == ids::ATTACHMENTS {
            MatroskaView { attachments: attachments_of(children), ..self }
        } else if id == ids::CHAPTERS {
            MatroskaView { chapters: editions_of(children), ..self }
        } else if id == ids::TAGS {
            MatroskaView { tags: tags_of(children), ..self }
        } else {
            self
        }
    }
}

/// The file `acc` after the section `id`, whose body of `size` bytes
/// stands at `pos`, has been read into it.
pub open spec fn spec_read_section(
    data: Seq<u8>,
    pos: int,
    size: nat,
    id: u32,
    acc: MatroskaView,
) -> Result<MatroskaView, MatroskaError> {
    match section_children(data, pos, size) {
        Err(e) => Err(e),
        Ok(children) => Ok(acc.with_section(id, children)),
    }
}

/// The body of the element `id` that `table` leads to: where it starts
/// and how long it is. `None` where the table does not name `id`. The
/// element found at the position must have the ID that was looked up.
pub open spec fn spec_seek_body(data: Seq<u8>, offset: u64, table: Map<u32, u64>, id: u32) -> Result<
    Option<(int, nat)>,
    MatroskaError,
> {
    match spec_seek_position(offset, table, id) {
        Err(e) => Err(e),
        Ok(None) => Ok(None),
        Ok(Some(at)) => match spec_header(data, at as int) {
            Err(e) => Err(e),
            Ok((found, size, header_len)) => if found != id {
                Err(MatroskaError::CorruptFile { reason: Corruption::SeekTargetMismatch })
            } else {
                Ok(Some((at + header_len, size as nat)))
            },
        },
    }
}

/// The file `acc` after the section `id` has been read into it from where
/// `table` says it is; `acc` itself where the table does not name `id`.
pub open spec fn spec_seek_section(
    data: Seq<u8>,
    offset: u64,
    table: Map<u32, u64>,
    id: u32,
    acc: MatroskaView,
) -> Result<MatroskaView, MatroskaError> {
    match spec_seek_body(data, offset, table, id) {
        Err(e) => Err(e),
        Ok(None) => Ok(acc),
        Ok(Some((pos, size))) => spec_read_section(data, pos, size, id, acc),
    }
}

/// [`spec_seek_section`] after an earlier step that may have failed.
pub open spec fn then_seek(
    earlier: Result<MatroskaView, MatroskaError>,
    data: Seq<u8>,
    offset: u64,
    table: Map<u32, u64>,
    id: u32,
) -> Result<MatroskaView, MatroskaError> {
    match earlier {
        Err(e) => Err(e),
        Ok(acc) => spec_seek_section(data, offset, table, id, acc),
    }
}

/// The file `acc` after every section that `table` names has been read
/// into it: Info, Tracks, Attachments, Chapters and Tags, in this order.
pub open spec fn spec_by_table(
    data: Seq<u8>,
    offset: u64,
    table: Map<u32, u64>,
    acc: MatroskaView,
) -> Result<MatroskaView, MatroskaError> {
    let info = spec_seek_section(data, offset, table, ids::INFO, acc);
    let tracks = then_seek(info, data, offset, table, ids::TRACKS);
    let attachments = then_seek(tracks, data, offset, table, ids::ATTACHMENTS);
    let chapters = then_seek(attachments, data, offset, table, ids::CHAPTERS);
    then_seek(chapters, data, offset, table, ids::TAGS)
}

/// What reading the SeekHead body of `size` bytes at `pos` makes of the
/// file `acc`: the sections that the index names, read from where it
/// says.
pub open spec fn spec_indexed(
    data: Seq<u8>,
    pos: int,
    size: nat,
    segment_start: u64,
    acc: MatroskaView,
) -> Result<MatroskaView, MatroskaError> {
    match spec_seektable(data, pos, size, segment_start, Map::empty(), MAX_SEEK_LINKS as nat) {
        Err(e) => Err(e),
        Ok(table) => spec_by_table(data, segment_start, table, acc),
    }
}

/// What the children in the `budget` bytes at `pos` of the Segment make
/// of the file `acc`.
///
/// A section is read into the file, a later one replacing an earlier one
/// of the same kind. The first SeekHead decides the rest: what it names
/// is read and the scan ends. Any other child is skipped. A child that
/// declares more than what is left of the Segment makes the file
/// corrupt.
pub open spec fn spec_scan(
    data: Seq<u8>,
    pos: int,
    budget: nat,
    segment_start: u64,
    acc: MatroskaView,
) -> Result<MatroskaView, MatroskaError>
    decreases budget,
{
    if budget == 0 {
        Ok(acc)
    } else {
        match spec_header(data, pos) {
            Err(e) => Err(e),
            Ok((id, size, header_len)) => {
                let body = pos + header_len;
                let left = (budget - header_len - size) as nat;
                if header_len + size > budget {
                    Err(MatroskaError::CorruptFile { reason: Corruption::ChildOverrun })
                } else if id == ids::SEEKHEAD {
                    spec_indexed(data, body, size as nat, segment_start, acc)
                } else if is_section(id) {
                    match spec_read_section(data, body, size as nat, id, acc) {
                        Err(e) => Err(e),
                        Ok(next) => spec_scan(data, body + size, left, segment_start, next),
                    }
                } else if body + size > u64::MAX {
                    Err(MatroskaError::Io(IoError::InvalidSeek))
                } else {
                    spec_scan(data, body + size, left, segment_start, acc)
                }
            },
        }
    }
}

/// The measure by which the search for the Segment ends: the bytes from
/// `pos` to the end.
pub open spec fn bytes_from(data: Seq<u8>, pos: int) -> nat {
    if 0 <= pos < data.len() {
        (data.len() - pos) as nat
    } else {
        0
    }
}

/// The Segment found by reading top-level elements from `pos` on and
/// skipping every other one: where its body starts and how long it is.
pub open spec fn spec_find_segment(data: Seq<u8>, pos: int) -> Result<(u64, u64), MatroskaError>
    decreases bytes_from(data, pos),
{
    match spec_header(data, pos) {
        Err(e) => Err(e),
        Ok((id, size, header_len)) => if id == ids::SEGMENT {
            Ok(((pos + header_len) as u64, size))
        } else if pos + header_len + size > u64::MAX {
            Err(MatroskaError::Io(IoError::InvalidSeek))
        } else {
            spec_find_segment(data, pos + header_len + size)
        },
    }
}

/// The metadata of the file `data`.
pub open spec fn spec_open(data: Seq<u8>) -> Result<MatroskaView, MatroskaError> {
    match spec_find_segment(data, 0) {
        Err(e) => Err(e),
        Ok((start, size)) => spec_scan(data, start as int, size as nat, start, MatroskaView::new()),
    }
}

/// Whether `res` is what opening the file `data` has to give.
pub open spec fn is_opened(data: Seq<u8>, res: Result<Matroska, MatroskaError>) -> bool {
    match res {
        Ok(matroska) => spec_open(data) == Ok::<MatroskaView, MatroskaError>(matroska@),
        Err(e) => spec_open(data) == Err::<MatroskaView, MatroskaError>(e),
    }
}

/// Reads top-level elements until the Segment's header has been read, and
/// returns where the Segment's body starts and how long it is.
fn find_segment(r: &mut Source) -> (res: Result<(u64, u64), MatroskaError>)
    ensures
        res == spec_find_segment(old(r).data@, old(r).pos as int),
        final(r).data == old(r).data,
        res matches Ok((start, _)) ==> final(r).pos == start,
{
    loop
        invariant
            r.data == old(r).data,
            spec_find_segment(old(r).data@, old(r).pos as int) == spec_find_segment(
                r.data@,
                r.pos as int,
            ),
        decreases bytes_from(r.data@, r.pos as int),
    {
        let (id, size, _) = match read_element_id_size(r) {
            Ok(header) => header,
            Err(e) => {
                return Err(e);
            },
        };
        if id == ids::SEGMENT {
            return Ok((r.position(), size));
        }
        match r.skip(size) {
            Ok(()) => {},
            Err(e) => {
                return Err(e);
            },
        }
    }
}

impl Matroska {
    /// The file that states nothing.
    pub fn new() -> (matroska: Matroska)
        ensures
            matroska@ == MatroskaView::new(),
    {
        let matroska = Matroska {
            info: Info::new(),
            tracks: Vec::new(),
            attachments: Vec::new(),
            chapters: Vec::new(),
            tags: Vec::new(),
        };
        proof {
            assert(seq_views(matroska.tracks@) =~= Seq::<TrackView>::empty());
            assert(seq_views(matroska.attachments@) =~= Seq::<AttachmentView>::empty());
            assert(seq_views(matroska.chapters@) =~= Seq::<ChapterEditionView>::empty());
            assert(seq_views(matroska.tags@) =~= Seq::<TagView>::empty());
        }
        matroska
    }

    /// Reads the body of the section `id` into the file.
    ///
    /// On success the source stands right behind the body. On failure the
    /// file is as it was.
    fn read_section(&mut self, r: &mut Source, id: u32, size: u64) -> (res: Result<
        (),
        MatroskaError,
    >)
        requires
            is_section(id),
        ensures
            final(r).data == old(r).data,
            match res {
                Ok(()) => spec_read_section(
                    old(r).data@,
                    old(r).pos as int,
                    size as nat,
                    id,
                    old(self)@,
                ) == Ok::<MatroskaView, MatroskaError>(final(self)@) && final(r).pos == old(r).pos
                    + size,
                Err(e) => spec_read_section(
                    old(r).data@,
                    old(r).pos as int,
                    size as nat,
                    id,
                    old(self)@,
                ) == Err::<MatroskaView, MatroskaError>(e) && *final(self) == *old(self),
            },
    {
        if id == ids::INFO {
            match Info::parse(r, size) {
                Ok(info) => {
                    self.info = info;
                    Ok(())
                },
                Err(e) => Err(e),
            }
        } else if id == ids::TRACKS {
            match Track::parse(r, size) {
                Ok(tracks) => {
                    self.tracks = tracks;
                    Ok(())
                },
                Err(e) => Err(e),
            }
        } else if id == ids::ATTACHMENTS {
            match Attachment::parse(r, size) {
                Ok(attachments) => {
                    self.attachments = attachments;
                    Ok(())
                },
                Err(e) => Err(e),
            }
        } else if id == ids::CHAPTERS {
            match ChapterEdition::parse(r, size) {
                Ok(chapters) => {
                    self.chapters = chapters;
                    Ok(())
                },
                Err(e) => Err(e),
            }
        } else {
            match Tag::parse(r, size) {
                Ok(tags) => {
                    self.tags = tags;
                    Ok(())
                },
                Err(e) => Err(e),
            }
        }
    }

    /// Reads the section `id` into the file from where `table` says it
    /// is, if the table names it.
    fn seek_section(&mut self, r: &mut Source, table: &Seektable, id: u32) -> (res: Result<
        (),
        MatroskaError,
    >)
        requires
            is_section(id),
        ensures
            final(r).data == old(r).data,
            match res {
                Ok(()) => spec_seek_section(
                    old(r).data@,
                    table.offset,
                    table.seek@,
                    id,
                    old(self)@,
                ) == Ok::<MatroskaView, MatroskaError>(final(self)@),
                Err(e) => spec_seek_section(
                    old(r).data@,
                    table.offset,
                    table.seek@,
                    id,
                    old(self)@,
                ) == Err::<MatroskaView, MatroskaError>(e),
            },
    {
        let size = match seek_body(r, table, id) {
            Ok(Some(size)) => size,
            Ok(None) => {
                return Ok(());
            },
            Err(e) => {
                return Err(e);
            },
        };
        self.read_section(r, id, size)
    }

    /// Parses the contents of a Matroska file.
    ///
    /// Top-level elements are skipped until the Segment is found. Its
    /// children are then read in file order: a section is taken in, the
    /// first SeekHead is followed to the sections it names and ends the
    /// read, anything else is skipped.
    pub fn open(data: &[u8]) -> (res: Result<Matroska, MatroskaError>)
        ensures
            is_opened(data@, res),
            res is Ok <==> well_formed_file(data@),
    {
        let res = Self::read(data);
        proof {
            let len = data.len();
            lemma_well_formed_opens(data@);
        }
        res
    }

    /// Reads the file as [`Matroska::open`] says.
    fn read(data: &[u8]) -> (res: Result<Matroska, MatroskaError>)
        ensures
            is_opened(data@, res),
    {
        let mut source = Source::new(data);
        let r = &mut source;
        let (segment_start, segment_size) = match find_segment(r) {
            Ok(found) => found,
            Err(e) => {
                return Err(e);
            },
        };
        let mut matroska = Matroska::new();
        let mut budget = segment_size;
        while budget > 0
            invariant
                r.data@ == data@,
                spec_open(data@) == spec_scan(
                    data@,
                    r.pos as int,
                    budget as nat,
                    segment_start,
                    matroska@,
                ),
            decreases budget,
        {
            let (id, size, header_len) = match read_element_id_size(r) {
                Ok(header) => header,
                Err(e) => {
                    return Err(e);
                },
            };
            if header_len > budget || size > budget - header_len {
                return Err(MatroskaError::CorruptFile { reason: Corruption::ChildOverrun });
            }
            if id == ids::SEEKHEAD {
                let table = match Seektable::parse(r, segment_start, size) {
                    Ok(table) => table,
                    Err(e) => {
                        return Err(e);
                    },
                };
                match matroska.seek_section(r, &table, ids::INFO) {
                    Ok(()) => {},
                    Err(e) => {
                        return Err(e);
                    },
                }
                match matroska.seek_section(r, &table, ids::TRACKS) {
                    Ok(()) => {},
                    Err(e) => {
                        return Err(e);
                    },
                }
                match matroska.seek_section(r, &table, ids::ATTACHMENTS) {
                    Ok(()) => {},
                    Err(e) => {
                        return Err(e);
                    },
                }
                match matroska.seek_section(r, &table, ids::CHAPTERS) {
                    Ok(()) => {},
                    Err(e) => {
                        return Err(e);
                    },
                }
                match matroska.seek_section(r, &table, ids::TAGS) {
                    Ok(()) => {},
                    Err(e) => {
                        return Err(e);
                    },
                }
                return Ok(matroska);
            } else if id == ids::INFO || id == ids::TRACKS || id == ids::ATTACHMENTS || id
                == ids::CHAPTERS || id == ids::TAGS {
                match matroska.read_section(r, id, size) {
                    Ok(()) => {},
                    Err(e) => {
                        return Err(e);
                    },
                }
            } else {
                match r.skip(size) {
                    Ok(()) => {},
                    Err(e) => {
                        return Err(e);
                    },
                }
            }
            budget = budget - header_len - size;
        }
        Ok(matroska)
    }
}

/// Moves the source to the body of the element `id` that `table` leads
/// to, and returns the body's size; `None`, without moving, where the
/// table does not name `id`.
fn seek_body(r: &mut Source, table: &Seektable, id: u32) -> (res: Result<Option<u64>, MatroskaError>)
    ensures
        final(r).data == old(r).data,
        match res {
            Ok(Some(size)) => spec_seek_body(old(r).data@, table.offset, table.seek@, id) == Ok::<
                Option<(int, nat)>,
                MatroskaError,
            >(Some((final(r).pos as int, size as nat))),
            Ok(None) => spec_seek_body(old(r).data@, table.offset, table.seek@, id) == Ok::<
                Option<(int, nat)>,
                MatroskaError,
            >(None) && final(r).pos == old(r).pos,
            Err(e) => spec_seek_body(old(r).data@, table.offset, table.seek@, id) == Err::<
                Option<(int, nat)>,
                MatroskaError,
            >(e),
        },
{
    let at = match table.get(id) {
        Ok(Some(at)) => at,
        Ok(None) => {
            return Ok(None);
        },
        Err(e) => {
            return Err(e);
        },
    };
    r.seek(at);
    let (found, size, _) = match read_element_id_size(r) {
        Ok(header) => header,
        Err(e) => {
            return Err(e);
        },
    };
    if found != id {
        return Err(MatroskaError::CorruptFile { reason: Corruption::SeekTargetMismatch });
    }
    Ok(Some(size))
}

/// The tracks of the type `kind` among `tracks`, in order.
pub open spec fn tracks_of_type(tracks: Seq<Track>, kind: Tracktype) -> Seq<Track>
    decreases tracks.len(),
{
    if tracks.len() == 0 {
        Seq::empty()
    } else {
        let before = tracks_of_type(tracks.drop_last(), kind);
        if tracks.last().tracktype == kind {
            before.push(tracks.last())
        } else {
            before
        }
    }
}

/// The tracks that the references stand for.
pub open spec fn referred(tracks: Seq<&Track>) -> Seq<Track> {
    Seq::new(tracks.len(), |i: int| *tracks[i])
}

impl Matroska {
    /// The tracks of one type, in file order.
    fn tracks_with_type(&self, kind: Tracktype) -> (found: Vec<&Track>)
        ensures
            referred(found@) == tracks_of_type(self.tracks@, kind),
    {
        let mut found: Vec<&Track> = Vec::new();
        let mut i: usize = 0;
        proof {
            assert(referred(found@) =~= Seq::<Track>::empty());
        }
        while i < self.tracks.len()
            invariant
                i <= self.tracks.len(),
                referred(found@) == tracks_of_type(self.tracks@.take(i as int), kind),
            decreases self.tracks.len() - i,
        {
            proof {
                assert(self.tracks@.take(i + 1).drop_last() =~= self.tracks@.take(i as int));
            }
            let track = &self.tracks[i];
            if track.tracktype == kind {
                let ghost before = found@;
                found.push(track);
                proof {
                    assert(referred(before.push(track)) =~= referred(before).push(*track));
                }
            }
            i = i + 1;
        }
        proof {
            assert(self.tracks@.take(i as int) =~= self.tracks@);
        }
        found
    }

    /// Returns all tracks with a type of "video".
    pub fn video_tracks(&self) -> (found: Vec<&Track>)
        ensures
            referred(found@) == tracks_of_type(self.tracks@, Tracktype::Video),
    {
        self.tracks_with_type(Tracktype::Video)
    }

    /// Returns all tracks with a type of "audio".
    pub fn audio_tracks(&self) -> (found: Vec<&Track>)
        ensures
            referred(found@) == tracks_of_type(self.tracks@, Tracktype::Audio),
    {
        self.tracks_with_type(Tracktype::Audio)
    }

    /// Returns all tracks with a type of "subtitle".
    pub fn subtitle_tracks(&self) -> (found: Vec<&Track>)
        ensures
            referred(found@) == tracks_of_type(self.tracks@, Tracktype::Subtitle),
    {
        self.tracks_with_type(Tracktype::Subtitle)
    }

    /// Returns a single item from the Matroska file such as Info. The
    /// same as the free function [`get`].
    pub fn get<P: Parseable>(data: &[u8]) -> (res: Result<Option<P::Output>, MatroskaError>)
        ensures
            is_located::<P>(data@, res),
    {
        get::<P>(data)
    }
}

/// Where the body of the element `id` is found among the children in the
/// `budget` bytes at `pos` of the Segment: its start and its size, or
/// `None` if the Segment does not hold it.
///
/// The children are read in file order. A SeekHead that names `id`
/// decides; one that does not is passed over. A child with the ID `id`
/// is the one looked for. Any other child is skipped. A child that
/// declares more than what is left of the Segment makes the file
/// corrupt.
pub open spec fn spec_locate_from(
    data: Seq<u8>,
    pos: int,
    budget: nat,
    segment_start: u64,
    id: u32,
) -> Result<Option<(int, nat)>, MatroskaError>
    decreases budget,
{
    if budget == 0 {
        Ok(None)
    } else {
        match spec_header(data, pos) {
            Err(e) => Err(e),
            Ok((found, size, header_len)) => {
                let body = pos + header_len;
                let left = (budget - header_len - size) as nat;
                if header_len + size > budget {
                    Err(MatroskaError::CorruptFile { reason: Corruption::ChildOverrun })
                } else if found == ids::SEEKHEAD {
                    match spec_seektable(
                        data,
                        body,
                        size as nat,
                        segment_start,
                        Map::empty(),
                        MAX_SEEK_LINKS as nat,
                    ) {
                        Err(e) => Err(e),
                        Ok(table) => match spec_seek_body(data, segment_start, table, id) {
                            Err(e) => Err(e),
                            Ok(Some(place)) => Ok(Some(place)),
                            Ok(None) => spec_locate_from(
                                data,
                                body + size,
                                left,
                                segment_start,
                                id,
                            ),
                        },
                    }
                } else if found == id {
                    Ok(Some((body, size as nat)))
                } else if body + size > u64::MAX {
                    Err(MatroskaError::Io(IoError::InvalidSeek))
                } else {
                    spec_locate_from(data, body + size, left, segment_start, id)
                }
            },
        }
    }
}

/// Where the body of the element `id` is found in the file `data`.
pub open spec fn spec_locate(data: Seq<u8>, id: u32) -> Result<Option<(int, nat)>, MatroskaError> {
    match spec_find_segment(data, 0) {
        Err(e) => Err(e),
        Ok((start, size)) => spec_locate_from(data, start as int, size as nat, start, id),
    }
}

/// Whether `res` is what looking for the section `P` in the file `data`
/// has to give: the failure to find the way to it; `None` where the
/// file does not hold it; and else what `P` makes of its body.
pub open spec fn is_located<P: Parseable>(
    data: Seq<u8>,
    res: Result<Option<P::Output>, MatroskaError>,
) -> bool {
    match spec_locate(data, P::ID) {
        Err(e) => res == Err::<Option<P::Output>, MatroskaError>(e),
        Ok(None) => res == Ok::<Option<P::Output>, MatroskaError>(None),
        Ok(Some((pos, size))) => match res {
            Ok(Some(part)) => P::parsed(data, pos, size, Ok(part)),
            Ok(None) => false,
            Err(e) => P::parsed(data, pos, size, Err(e)),
        },
    }
}

/// Returns a single item from a Matroska file such as `Info`.
///
/// The Segment's children are read in file order, until either a
/// SeekHead names the section or the section itself is met; the section
/// is then parsed and nothing more is read.
pub fn get<P: Parseable>(data: &[u8]) -> (res: Result<Option<P::Output>, MatroskaError>)
    ensures
        is_located::<P>(data@, res),
{
    let mut source = Source::new(data);
    let r = &mut source;
    let (segment_start, segment_size) = match find_segment(r) {
        Ok(found) => found,
        Err(e) => {
            return Err(e);
        },
    };
    let mut budget = segment_size;
    while budget > 0
        invariant
            r.data@ == data@,
            spec_locate(data@, P::ID) == spec_locate_from(
                data@,
                r.pos as int,
                budget as nat,
                segment_start,
                P::ID,
            ),
        decreases budget,
    {
        let (id, size, header_len) = match read_element_id_size(r) {
            Ok(header) => header,
            Err(e) => {
                return Err(e);
            },
        };
        if header_len > budget || size > budget - header_len {
            return Err(MatroskaError::CorruptFile { reason: Corruption::ChildOverrun });
        }
        if id == ids::SEEKHEAD {
            let table = match Seektable::parse(r, segment_start, size) {
                Ok(table) => table,
                Err(e) => {
                    return Err(e);
                },
            };
            match seek_body(r, &table, P::ID) {
                Ok(Some(part_size)) => {
                    return match P::parse(r, part_size) {
                        Ok(part) => Ok(Some(part)),
                        Err(e) => Err(e),
                    };
                },
                Ok(None) => {},
                Err(e) => {
                    return Err(e);
                },
            }
        } else if id == P::ID {
            return match P::parse(r, size) {
                Ok(part) => Ok(Some(part)),
                Err(e) => Err(e),
            };
        } else {
            match r.skip(size) {
                Ok(()) => {},
                Err(e) => {
                    return Err(e);
                },
            }
        }
        budget = budget - header_len - size;
    }
    Ok(None)
}

} // verus!
