//! The SeekHead index: where the sections of a Segment are found.

use crate::bigendian::be_value;
use crate::element::{
    lemma_master_view, spec_parse_master, views_of, Element, ElementType, ElementView, ValueView,
    MAX_DEPTH,
};
use crate::error::{Corruption, MatroskaError};
use crate::ids;
use crate::index::{lookup, record, take};
use crate::records::clone_bytes;
use crate::source::Source;
use crate::vint::{read_element_id_size, spec_header};
use std::collections::BTreeMap;
use vstd::arithmetic::div_mod::{lemma_add_mod_noop, lemma_mul_mod_noop_left};
use vstd::prelude::*;

verus! {

/// How many SeekHead elements may follow the first one, each named by an
/// entry of the one before. A longer chain is taken for a cycle.
pub const MAX_SEEK_LINKS: u32 = 8;

/// One entry of a SeekHead.
#[derive(Debug, Clone, PartialEq, Eq, Hash)]
pub struct Seek {
    /// The ID of the element that the entry leads to, as the bytes that
    /// the file holds.
    pub id: Vec<u8>,
    /// The element's position, counted from the start of the Segment's
    /// body.
    pub position: u64,
}

/// The mathematical value of a [`Seek`].
pub struct SeekView {
    pub id: Seq<u8>,
    pub position: u64,
}

impl DeepView for Seek {
    type V = SeekView;

    open spec fn deep_view(&self) -> SeekView {
        SeekView { id: self.id@, position: self.position }
    }
}

impl View for Seek {
    type V = SeekView;

    open spec fn view(&self) -> SeekView {
        self.deep_view()
    }
}

/// The element ID that the bytes `id` spell: their big-endian value, of
/// which 32 bits are kept.
pub open spec fn seek_target(id: Seq<u8>) -> u32 {
    (be_value(id) % 0x1_0000_0000) as u32
}

impl SeekView {
    /// The entry that states nothing.
    pub open spec fn new() -> SeekView {
        SeekView { id: Seq::empty(), position: 0 }
    }

    /// The entry after one more child of the Seek element has been taken
    /// in. A child with an ID or a kind that is not looked for changes
    /// nothing.
    pub open spec fn step(self, e: ElementView) -> SeekView {
        match e.val {
            ValueView::Binary(b) => if e.id == ids::SEEKID {
                SeekView { id: b, ..self }
            } else {
                self
            },
            ValueView::UInt(u) => if e.id == ids::SEEKPOSITION {
                SeekView { position: u, ..self }
            } else {
                self
            },
            _ => self,
        }
    }

    /// The entry that the children of a Seek element amount to, taken in
    /// from first to last.
    pub open spec fn of(children: Seq<ElementView>) -> SeekView
        decreases children.len(),
    {
        if children.len() == 0 {
            Self::new()
        } else {
            Self::of(children.drop_last()).step(children.last())
        }
    }
}

impl Seek {
    /// The entry that states nothing.
    pub fn new() -> (seek: Seek)
        ensures
            seek@ == SeekView::new(),
    {
        Seek { id: Vec::new(), position: 0 }
    }

    /// The ID of the element that the entry leads to.
    pub fn id(&self) -> (id: u32)
        ensures
            id == seek_target(self.id@),
    {
        let mut acc: u32 = 0;
        let mut i: usize = 0;
        while i < self.id.len()
            invariant
                i <= self.id.len(),
                acc == be_value(self.id@.take(i as int)) % 0x1_0000_0000,
            decreases self.id.len() - i,
        {
            let byte = self.id[i];
            proof {
                let before = self.id@.take(i as int);
                let m = 0x1_0000_0000int;
                assert(self.id@.take(i + 1).drop_last() =~= before);
                assert(self.id@.take(i + 1).last() == byte);
                lemma_mul_mod_noop_left(be_value(before) as int, 256, m);
                lemma_add_mod_noop(be_value(before) as int * 256, byte as int, m);
                lemma_add_mod_noop(acc as int * 256, byte as int, m);
            }
            acc = ((acc as u64 * 256 + byte as u64) % 0x1_0000_0000) as u32;
            i = i + 1;
        }
        proof {
            assert(self.id@.take(i as int) =~= self.id@);
        }
        acc
    }

    /// Folds the children of a Seek element into an entry.
    pub fn build(elements: &Vec<Element>) -> (seek: Seek)
        ensures
            seek@ == SeekView::of(views_of(elements@)),
    {
        let mut seek = Seek::new();
        let ghost views = views_of(elements@);
        let mut i: usize = 0;
        while i < elements.len()
            invariant
                i <= elements.len(),
                views == views_of(elements@),
                seek@ == SeekView::of(views.take(i as int)),
            decreases elements.len() - i,
        {
            proof {
                assert(views.take(i + 1).drop_last() =~= views.take(i as int));
            }
            let e = &elements[i];
            match &e.val {
                ElementType::Binary(b) => {
                    if e.id == ids::SEEKID {
                        seek.id = clone_bytes(b);
                    }
                },
                ElementType::UInt(u) => {
                    if e.id == ids::SEEKPOSITION {
                        seek.position = *u;
                    }
                },
                _ => {},
            }
            i = i + 1;
        }
        proof {
            assert(views.take(i as int) =~= views);
        }
        seek
    }
}

/// The table after the children of one SeekHead have been entered into
/// `table`: each Seek child records its position under its target ID, a
/// later entry for an ID replacing an earlier one. Other children are
/// passed over.
pub open spec fn table_after(table: Map<u32, u64>, children: Seq<ElementView>) -> Map<u32, u64>
    decreases children.len(),
{
    if children.len() == 0 {
        table
    } else {
        let before = table_after(table, children.drop_last());
        match children.last().val {
            ValueView::Master(entry) => if children.last().id == ids::SEEK {
                let seek = SeekView::of(entry);
                before.insert(seek_target(seek.id), seek.position)
            } else {
                before
            },
            _ => before,
        }
    }
}

/// The table that the SeekHead body of `size` bytes at `pos` gives when
/// entered into `table`, together with the SeekHeads that it leads to.
///
/// An entry for the SeekHead ID is not kept: it names the next SeekHead,
/// which is read from its position in the Segment and entered into the
/// same table. Following more than `links` such entries is an error.
pub open spec fn spec_seektable(
    data: Seq<u8>,
    pos: int,
    size: nat,
    segment_start: u64,
    table: Map<u32, u64>,
    links: nat,
) -> Result<Map<u32, u64>, MatroskaError>
    decreases links,
{
    match spec_parse_master(data, pos, size, MAX_DEPTH as nat) {
        Err(e) => Err(e),
        Ok(children) => {
            let merged = table_after(table, children);
            if !merged.contains_key(ids::SEEKHEAD) {
                Ok(merged)
            } else if links == 0 {
                Err(MatroskaError::CorruptFile { reason: Corruption::SeekHeadCycle })
            } else if segment_start + merged[ids::SEEKHEAD] > u64::MAX {
                Err(MatroskaError::CorruptFile { reason: Corruption::SeekOffsetOverflow })
            } else {
                let next = segment_start + merged[ids::SEEKHEAD];
                match spec_header(data, next) {
                    Err(e) => Err(e),
                    Ok((id, next_size, header_len)) => if id != ids::SEEKHEAD {
                        Err(MatroskaError::CorruptFile { reason: Corruption::SeekTargetMismatch })
                    } else {
                        spec_seektable(
                            data,
                            next + header_len,
                            next_size as nat,
                            segment_start,
                            merged.remove(ids::SEEKHEAD),
                            (links - 1) as nat,
                        )
                    },
                }
            }
        },
    }
}

/// Where `id` is found in the file according to `table`, whose positions
/// count from `offset`.
pub open spec fn spec_seek_position(offset: u64, table: Map<u32, u64>, id: u32) -> Result<
    Option<u64>,
    MatroskaError,
> {
    if !table.contains_key(id) {
        Ok(None)
    } else if offset + table[id] > u64::MAX {
        Err(MatroskaError::CorruptFile { reason: Corruption::SeekOffsetOverflow })
    } else {
        Ok(Some((offset + table[id]) as u64))
    }
}

/// A map from element IDs to positions in the Segment.
#[derive(Debug, Clone, PartialEq, Eq, Hash)]
pub struct Seektable {
    /// The file offset that the positions count from: the start of the
    /// Segment's body.
    pub offset: u64,
    /// The position of each element that the index names.
    pub seek: BTreeMap<u32, u64>,
}

impl Seektable {
    /// An empty table for a Segment whose body starts at `offset`.
    pub fn new(offset: u64) -> (table: Seektable)
        ensures
            table.offset == offset,
            table.seek@ == Map::<u32, u64>::empty(),
    {
        Seektable { offset, seek: BTreeMap::new() }
    }

    /// The absolute file offset of the element `id`, if the table names
    /// it. An offset that does not fit in 64 bits makes the file corrupt.
    pub fn get(&self, id: u32) -> (res: Result<Option<u64>, MatroskaError>)
        ensures
            res == spec_seek_position(self.offset, self.seek@, id),
    {
        match lookup(&self.seek, id) {
            Some(position) => match self.offset.checked_add(position) {
                Some(offset) => Ok(Some(offset)),
                None => Err(MatroskaError::CorruptFile { reason: Corruption::SeekOffsetOverflow }),
            },
            None => Ok(None),
        }
    }

    /// Enters the children of one SeekHead into the table.
    pub fn absorb(&mut self, elements: &Vec<Element>)
        ensures
            final(self).offset == old(self).offset,
            final(self).seek@ == table_after(old(self).seek@, views_of(elements@)),
    {
        let ghost views = views_of(elements@);
        let mut i: usize = 0;
        while i < elements.len()
            invariant
                i <= elements.len(),
                views == views_of(elements@),
                self.offset == old(self).offset,
                self.seek@ == table_after(old(self).seek@, views.take(i as int)),
            decreases elements.len() - i,
        {
            proof {
                assert(views.take(i + 1).drop_last() =~= views.take(i as int));
            }
            let e = &elements[i];
            match &e.val {
                ElementType::Master(entry) => {
                    proof {
                        lemma_master_view(*entry);
                    }
                    if e.id == ids::SEEK {
                        let seek = Seek::build(entry);
                        record(&mut self.seek, seek.id(), seek.position);
                    }
                },
                _ => {},
            }
            i = i + 1;
        }
        proof {
            assert(views.take(i as int) =~= views);
        }
    }

    /// Reads the SeekHead body of `size` bytes, and every SeekHead that
    /// it leads to, into one table for the Segment whose body starts at
    /// `segment_start`.
    ///
    /// On success the source stands right behind the first SeekHead. On
    /// failure it stays where it was.
    pub fn parse(r: &mut Source, segment_start: u64, size: u64) -> (res: Result<
        Seektable,
        MatroskaError,
    >)
        ensures
            final(r).data == old(r).data,
            match res {
                Ok(table) => spec_seektable(
                    old(r).data@,
                    old(r).pos as int,
                    size as nat,
                    segment_start,
                    Map::empty(),
                    MAX_SEEK_LINKS as nat,
                ) == Ok::<Map<u32, u64>, MatroskaError>(table.seek@) && table.offset
                    == segment_start && final(r).pos == old(r).pos + size,
                Err(e) => spec_seektable(
                    old(r).data@,
                    old(r).pos as int,
                    size as nat,
                    segment_start,
                    Map::empty(),
                    MAX_SEEK_LINKS as nat,
                ) == Err::<Map<u32, u64>, MatroskaError>(e) && final(r).pos == old(r).pos,
            },
    {
        let start = r.position();
        let mut table = Seektable::new(segment_start);
        let mut links = MAX_SEEK_LINKS;
        let mut head_size = size;
        let mut resume = start;
        loop
            invariant
                r.data == old(r).data,
                start == old(r).pos,
                links <= MAX_SEEK_LINKS,
                table.offset == segment_start,
                links == MAX_SEEK_LINKS ==> r.pos == start && head_size == size,
                links < MAX_SEEK_LINKS ==> resume == start + size,
                spec_seektable(
                    old(r).data@,
                    start as int,
                    size as nat,
                    segment_start,
                    Map::empty(),
                    MAX_SEEK_LINKS as nat,
                ) == spec_seektable(
                    r.data@,
                    r.pos as int,
                    head_size as nat,
                    segment_start,
                    table.seek@,
                    links as nat,
                ),
            decreases links,
        {
            let elements = match Element::parse_master_expecting(r, head_size, Some(ids::SEEK)) {
                Ok(elements) => elements,
                Err(e) => {
                    r.seek(start);
                    return Err(e);
                },
            };
            if links == MAX_SEEK_LINKS {
                resume = r.position();
            }
            table.absorb(&elements);
            let ghost merged = table.seek@;
            let next = match take(&mut table.seek, ids::SEEKHEAD) {
                Some(next) => next,
                None => {
                    proof {
                        assert(table.seek@ =~= merged);
                    }
                    r.seek(resume);
                    return Ok(table);
                },
            };
            if links == 0 {
                r.seek(start);
                return Err(MatroskaError::CorruptFile { reason: Corruption::SeekHeadCycle });
            }
            let target = match segment_start.checked_add(next) {
                Some(target) => target,
                None => {
                    r.seek(start);
                    return Err(
                        MatroskaError::CorruptFile { reason: Corruption::SeekOffsetOverflow },
                    );
                },
            };
            r.seek(target);
            let (id, next_size, _) = match read_element_id_size(r) {
                Ok(header) => header,
                Err(e) => {
                    r.seek(start);
                    return Err(e);
                },
            };
            if id != ids::SEEKHEAD {
                r.seek(start);
                return Err(MatroskaError::CorruptFile { reason: Corruption::SeekTargetMismatch });
            }
            head_size = next_size;
            links = links - 1;
        }
    }
}

} // verus!
