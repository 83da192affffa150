//! Reading by the SeekHead and reading in file order agree, where the
//! SeekHead tells the truth about the file.

use crate::error::{Corruption, IoError, MatroskaError};
use crate::ids;
use crate::matroska::{
    is_section, spec_by_table, spec_find_segment, spec_open, spec_read_section,
    spec_scan, spec_seek_body, spec_seek_section, then_seek, MatroskaView,
};
use crate::parseable::section_children;
use crate::element::{spec_parse_master, ElementView, MAX_DEPTH};
use crate::seek::{spec_seektable, table_after, MAX_SEEK_LINKS};
use crate::vint::spec_header;
use vstd::prelude::*;

verus! {

/// What the children in the `budget` bytes at `pos` of the Segment make
/// of the file `acc` when they are read in file order and a SeekHead is
/// skipped like any element that is no section.
pub open spec fn spec_scan_sequential(data: Seq<u8>, pos: int, budget: nat, acc: MatroskaView) -> Result<
    MatroskaView,
    MatroskaError,
>
    decreases budget,
{
    if budget == 0 {
        Ok(acc)
    } else {
        match spec_header(data, pos) {
            Err(e) => Err(e),
            Ok((id, size, header_len)) => {
                let body = pos + header_len;
                let left = (budget - header_len - size) as nat;
                if header_len + size > budget {
                    Err(MatroskaError::CorruptFile { reason: Corruption::ChildOverrun })
                } else if is_section(id) {
                    match spec_read_section(data, body, size as nat, id, acc) {
                        Err(e) => Err(e),
                        Ok(next) => spec_scan_sequential(data, body + size, left, next),
                    }
                } else if body + size > u64::MAX {
                    Err(MatroskaError::Io(IoError::InvalidSeek))
                } else {
                    spec_scan_sequential(data, body + size, left, acc)
                }
            },
        }
    }
}

/// The metadata of the file `data`, read in file order without the help
/// of a SeekHead.
pub open spec fn spec_open_sequential(data: Seq<u8>) -> Result<MatroskaView, MatroskaError> {
    match spec_find_segment(data, 0) {
        Err(e) => Err(e),
        Ok((start, size)) => spec_scan_sequential(
            data,
            start as int,
            size as nat,
            MatroskaView::new(),
        ),
    }
}

/// The body of the last child with the ID `id` among the children in the
/// `budget` bytes at `pos`: where it starts and how long it is.
pub open spec fn last_section(data: Seq<u8>, pos: int, budget: nat, id: u32) -> Option<(int, nat)>
    decreases budget,
{
    if budget == 0 {
        None
    } else {
        match spec_header(data, pos) {
            Err(_) => None,
            Ok((found, size, header_len)) => if header_len + size > budget {
                None
            } else {
                match last_section(
                    data,
                    pos + header_len + size,
                    (budget - header_len - size) as nat,
                    id,
                ) {
                    Some(place) => Some(place),
                    None => if found == id {
                        Some((pos + header_len, size as nat))
                    } else {
                        None
                    },
                }
            },
        }
    }
}

/// The file `acc` with the section `id` read from `place`, if there is
/// one.
pub open spec fn placed(data: Seq<u8>, acc: MatroskaView, place: Option<(int, nat)>, id: u32) -> MatroskaView {
    match place {
        None => acc,
        Some((pos, size)) => match section_children(data, pos, size) {
            Ok(children) => acc.with_section(id, children),
            Err(_) => acc,
        },
    }
}

/// The file `acc` with each section read from its place, if it has one.
pub open spec fn placed_five(
    data: Seq<u8>,
    acc: MatroskaView,
    info: Option<(int, nat)>,
    tracks: Option<(int, nat)>,
    attachments: Option<(int, nat)>,
    chapters: Option<(int, nat)>,
    tags: Option<(int, nat)>,
) -> MatroskaView {
    placed(
        data,
        placed(
            data,
            placed(
                data,
                placed(data, placed(data, acc, info, ids::INFO), tracks, ids::TRACKS),
                attachments,
                ids::ATTACHMENTS,
            ),
            chapters,
            ids::CHAPTERS,
        ),
        tags,
        ids::TAGS,
    )
}

/// The file `acc` with each section replaced by the last one of its kind
/// among the children in the `budget` bytes at `pos`.
pub open spec fn placed_all(data: Seq<u8>, pos: int, budget: nat, acc: MatroskaView) -> MatroskaView {
    placed_five(
        data,
        acc,
        last_section(data, pos, budget, ids::INFO),
        last_section(data, pos, budget, ids::TRACKS),
        last_section(data, pos, budget, ids::ATTACHMENTS),
        last_section(data, pos, budget, ids::CHAPTERS),
        last_section(data, pos, budget, ids::TAGS),
    )
}

/// Whether the section at `place`, if there is one, parses.
pub open spec fn parses(data: Seq<u8>, place: Option<(int, nat)>) -> bool {
    place matches Some((at, size)) ==> section_children(data, at, size) is Ok
}

/// Whether the last section `id` among the children in the `budget`
/// bytes at `pos`, if there is one, parses.
pub open spec fn last_parses(data: Seq<u8>, pos: int, budget: nat, id: u32) -> bool {
    parses(data, last_section(data, pos, budget, id))
}

/// The place of a section when a child `found` at `here` stands before
/// children among which the section's place is `later`.
pub open spec fn place_with(later: Option<(int, nat)>, found: u32, here: (int, nat), id: u32) -> Option<
    (int, nat),
> {
    match later {
        Some(place) => Some(place),
        None => if found == id {
            Some(here)
        } else {
            None
        },
    }
}

/// Taking in a section and then the last sections that follow it is
/// taking in the last sections of all.
pub proof fn lemma_places_step(
    data: Seq<u8>,
    acc: MatroskaView,
    found: u32,
    here: (int, nat),
    info: Option<(int, nat)>,
    tracks: Option<(int, nat)>,
    attachments: Option<(int, nat)>,
    chapters: Option<(int, nat)>,
    tags: Option<(int, nat)>,
)
    requires
        is_section(found) ==> section_children(data, here.0, here.1) is Ok,
        parses(data, info),
        parses(data, tracks),
        parses(data, attachments),
        parses(data, chapters),
        parses(data, tags),
    ensures
        placed_five(
            data,
            acc,
            place_with(info, found, here, ids::INFO),
            place_with(tracks, found, here, ids::TRACKS),
            place_with(attachments, found, here, ids::ATTACHMENTS),
            place_with(chapters, found, here, ids::CHAPTERS),
            place_with(tags, found, here, ids::TAGS),
        ) == placed_five(
            data,
            if is_section(found) {
                acc.with_section(found, section_children(data, here.0, here.1)->Ok_0)
            } else {
                acc
            },
            info,
            tracks,
            attachments,
            chapters,
            tags,
        ),
{
}

/// Where the children can be read in file order, the last section of
/// each kind parses.
pub proof fn lemma_last_parses(data: Seq<u8>, pos: int, budget: nat, acc: MatroskaView, id: u32)
    requires
        is_section(id),
        spec_scan_sequential(data, pos, budget, acc) is Ok,
    ensures
        last_parses(data, pos, budget, id),
    decreases budget,
{
    if budget > 0 {
        if let Ok((found, size, header_len)) = spec_header(data, pos) {
            let body = pos + header_len;
            let left = (budget - header_len - size) as nat;
            if is_section(found) {
                let next = spec_read_section(data, body, size as nat, found, acc)->Ok_0;
                lemma_last_parses(data, body + size, left, next, id);
            } else {
                lemma_last_parses(data, body + size, left, acc, id);
            }
        }
    }
}

/// Reading in file order leaves each section as the last one of its kind
/// says.
pub proof fn lemma_sequential_places(data: Seq<u8>, pos: int, budget: nat, acc: MatroskaView)
    requires
        spec_scan_sequential(data, pos, budget, acc) is Ok,
    ensures
        spec_scan_sequential(data, pos, budget, acc) == Ok::<MatroskaView, MatroskaError>(
            placed_all(data, pos, budget, acc),
        ),
    decreases budget,
{
    if budget > 0 {
        if let Ok((found, size, header_len)) = spec_header(data, pos) {
            let body = pos + header_len;
            let left = (budget - header_len - size) as nat;
            let rest = body + size;
            let here = (body, size as nat);
            let next = if is_section(found) {
                spec_read_section(data, body, size as nat, found, acc)->Ok_0
            } else {
                acc
            };
            assert(spec_scan_sequential(data, pos, budget, acc) == spec_scan_sequential(
                data,
                rest,
                left,
                next,
            ));
            lemma_sequential_places(data, rest, left, next);
            lemma_last_parses(data, rest, left, next, ids::INFO);
            lemma_last_parses(data, rest, left, next, ids::TRACKS);
            lemma_last_parses(data, rest, left, next, ids::ATTACHMENTS);
            lemma_last_parses(data, rest, left, next, ids::CHAPTERS);
            lemma_last_parses(data, rest, left, next, ids::TAGS);
            lemma_places_step(
                data,
                acc,
                found,
                here,
                last_section(data, rest, left, ids::INFO),
                last_section(data, rest, left, ids::TRACKS),
                last_section(data, rest, left, ids::ATTACHMENTS),
                last_section(data, rest, left, ids::CHAPTERS),
                last_section(data, rest, left, ids::TAGS),
            );
            lemma_last_section_step(data, pos, budget, ids::INFO);
            lemma_last_section_step(data, pos, budget, ids::TRACKS);
            lemma_last_section_step(data, pos, budget, ids::ATTACHMENTS);
            lemma_last_section_step(data, pos, budget, ids::CHAPTERS);
            lemma_last_section_step(data, pos, budget, ids::TAGS);
        }
    }
}

/// The last section among some children is the last one among those
/// after the first child, or else the first child itself.
pub proof fn lemma_last_section_step(data: Seq<u8>, pos: int, budget: nat, id: u32)
    requires
        budget > 0,
        spec_header(data, pos) matches Ok((_, size, header_len)) && header_len + size <= budget,
    ensures
        spec_header(data, pos) matches Ok((found, size, header_len)) && last_section(
            data,
            pos,
            budget,
            id,
        ) == place_with(
            last_section(data, pos + header_len + size, (budget - header_len - size) as nat, id),
            found,
            (pos + header_len, size as nat),
            id,
        ),
{
}

/// Whether `table` names exactly the sections that stand among the
/// children in the `budget` bytes at `pos`, each at the place of the last
/// one of its kind.
pub open spec fn names_sections(
    data: Seq<u8>,
    offset: u64,
    table: Map<u32, u64>,
    pos: int,
    budget: nat,
) -> bool {
    forall|id: u32|
        is_section(id) ==> #[trigger] spec_seek_body(data, offset, table, id) == Ok::<
            Option<(int, nat)>,
            MatroskaError,
        >(last_section(data, pos, budget, id))
}

/// Reading by a table that names the sections among some children, each
/// of which parses, leaves each section as the last one of its kind says.
pub proof fn lemma_table_places(
    data: Seq<u8>,
    offset: u64,
    table: Map<u32, u64>,
    pos: int,
    budget: nat,
    acc: MatroskaView,
)
    requires
        names_sections(data, offset, table, pos, budget),
        last_parses(data, pos, budget, ids::INFO),
        last_parses(data, pos, budget, ids::TRACKS),
        last_parses(data, pos, budget, ids::ATTACHMENTS),
        last_parses(data, pos, budget, ids::CHAPTERS),
        last_parses(data, pos, budget, ids::TAGS),
    ensures
        spec_by_table(data, offset, table, acc) == Ok::<MatroskaView, MatroskaError>(
            placed_all(data, pos, budget, acc),
        ),
{
    assert(is_section(ids::INFO) && is_section(ids::TRACKS) && is_section(ids::ATTACHMENTS)
        && is_section(ids::CHAPTERS) && is_section(ids::TAGS));
    let info = spec_seek_section(data, offset, table, ids::INFO, acc);
    assert(info == Ok::<MatroskaView, MatroskaError>(
        placed(data, acc, last_section(data, pos, budget, ids::INFO), ids::INFO),
    ));
    let tracks = then_seek(info, data, offset, table, ids::TRACKS);
    assert(tracks == Ok::<MatroskaView, MatroskaError>(
        placed(data, info->Ok_0, last_section(data, pos, budget, ids::TRACKS), ids::TRACKS),
    ));
    let attachments = then_seek(tracks, data, offset, table, ids::ATTACHMENTS);
    assert(attachments == Ok::<MatroskaView, MatroskaError>(
        placed(
            data,
            tracks->Ok_0,
            last_section(data, pos, budget, ids::ATTACHMENTS),
            ids::ATTACHMENTS,
        ),
    ));
    let chapters = then_seek(attachments, data, offset, table, ids::CHAPTERS);
    assert(chapters == Ok::<MatroskaView, MatroskaError>(
        placed(
            data,
            attachments->Ok_0,
            last_section(data, pos, budget, ids::CHAPTERS),
            ids::CHAPTERS,
        ),
    ));
}

/// Whether the first SeekHead among the children in the `budget` bytes
/// at `pos` of the Segment, if there is one, gives a table, and the
/// table names exactly the sections that follow the SeekHead.
pub open spec fn index_is_faithful(data: Seq<u8>, pos: int, budget: nat, segment_start: u64) -> bool
    decreases budget,
{
    budget == 0 || match spec_header(data, pos) {
        Err(_) => true,
        Ok((id, size, header_len)) => {
            let body = pos + header_len;
            let left = (budget - header_len - size) as nat;
            header_len + size <= budget ==> if id == ids::SEEKHEAD {
                match spec_seektable(
                    data,
                    body,
                    size as nat,
                    segment_start,
                    Map::empty(),
                    MAX_SEEK_LINKS as nat,
                ) {
                    Err(_) => false,
                    Ok(table) => body + size <= u64::MAX && names_sections(
                        data,
                        segment_start,
                        table,
                        body + size,
                        left,
                    ),
                }
            } else {
                index_is_faithful(data, body + size, left, segment_start)
            }
        },
    }
}

/// Where the first SeekHead of a Segment names exactly the sections that
/// follow it, and the Segment can be read in file order, reading by the
/// SeekHead and reading in file order give the same file.
pub proof fn lemma_scan_agrees(
    data: Seq<u8>,
    pos: int,
    budget: nat,
    segment_start: u64,
    acc: MatroskaView,
)
    requires
        index_is_faithful(data, pos, budget, segment_start),
        spec_scan_sequential(data, pos, budget, acc) is Ok,
    ensures
        spec_scan(data, pos, budget, segment_start, acc) == spec_scan_sequential(
            data,
            pos,
            budget,
            acc,
        ),
    decreases budget,
{
    if budget > 0 {
        if let Ok((id, size, header_len)) = spec_header(data, pos) {
            let body = pos + header_len;
            let left = (budget - header_len - size) as nat;
            if id == ids::SEEKHEAD {
                let table = spec_seektable(
                    data,
                    body,
                    size as nat,
                    segment_start,
                    Map::empty(),
                    MAX_SEEK_LINKS as nat,
                )->Ok_0;
                lemma_sequential_places(data, body + size, left, acc);
                lemma_last_parses(data, body + size, left, acc, ids::INFO);
                lemma_last_parses(data, body + size, left, acc, ids::TRACKS);
                lemma_last_parses(data, body + size, left, acc, ids::ATTACHMENTS);
                lemma_last_parses(data, body + size, left, acc, ids::CHAPTERS);
                lemma_last_parses(data, body + size, left, acc, ids::TAGS);
                lemma_table_places(data, segment_start, table, body + size, left, acc);
            } else if is_section(id) {
                let next = spec_read_section(data, body, size as nat, id, acc)->Ok_0;
                lemma_scan_agrees(data, body + size, left, segment_start, next);
            } else {
                lemma_scan_agrees(data, body + size, left, segment_start, acc);
            }
        }
    }
}

/// Whether the first SeekHead of the file's Segment, if there is one,
/// names exactly the sections that follow it.
pub open spec fn file_index_is_faithful(data: Seq<u8>) -> bool {
    match spec_find_segment(data, 0) {
        Err(_) => true,
        Ok((start, size)) => index_is_faithful(data, start as int, size as nat, start),
    }
}

/// A file with a SeekHead that names exactly the sections that follow it
/// opens to the same value as it does read in file order with the
/// SeekHead passed over, wherever the file can be read in file order.
pub proof fn lemma_seekhead_agrees_with_sequential(data: Seq<u8>)
    requires
        file_index_is_faithful(data),
        spec_open_sequential(data) is Ok,
    ensures
        spec_open(data) == spec_open_sequential(data),
{
    if let Ok((start, size)) = spec_find_segment(data, 0) {
        lemma_scan_agrees(data, start as int, size as nat, start, MatroskaView::new());
    }
}

/// Whether a SeekHead with the children `children` names a further
/// SeekHead at the position `position`, whatever was in the table before.
pub open spec fn names_next(children: Seq<ElementView>, position: u64) -> bool {
    forall|table: Map<u32, u64>|
        (#[trigger] table_after(table, children)).contains_key(ids::SEEKHEAD) && table_after(
            table,
            children,
        )[ids::SEEKHEAD] == position
}

/// Whether the SeekHead whose body of `size` bytes stands at `pos` names
/// a further SeekHead, and that one's body of `next_size` bytes stands at
/// `next_pos`.
pub open spec fn leads_to(
    data: Seq<u8>,
    segment_start: u64,
    pos: int,
    size: nat,
    next_pos: int,
    next_size: nat,
) -> bool {
    match spec_parse_master(data, pos, size, MAX_DEPTH as nat) {
        Err(_) => false,
        Ok(children) => exists|position: u64|
            {
                &&& #[trigger] names_next(children, position)
                &&& segment_start + position <= u64::MAX
                &&& match spec_header(data, segment_start + position) {
                    Err(_) => false,
                    Ok((id, found_size, header_len)) => {
                        &&& id == ids::SEEKHEAD
                        &&& found_size == next_size
                        &&& segment_start + position + header_len == next_pos
                    },
                }
            },
    }
}

/// A SeekHead that names another SeekHead that names the first makes the
/// file corrupt, however many links are followed.
pub proof fn lemma_seekhead_cycle(
    data: Seq<u8>,
    segment_start: u64,
    first_pos: int,
    first_size: nat,
    second_pos: int,
    second_size: nat,
    table: Map<u32, u64>,
    links: nat,
)
    requires
        leads_to(data, segment_start, first_pos, first_size, second_pos, second_size),
        leads_to(data, segment_start, second_pos, second_size, first_pos, first_size),
    ensures
        spec_seektable(data, first_pos, first_size, segment_start, table, links) == Err::<
            Map<u32, u64>,
            MatroskaError,
        >(MatroskaError::CorruptFile { reason: Corruption::SeekHeadCycle }),
    decreases links,
{
    let children = spec_parse_master(data, first_pos, first_size, MAX_DEPTH as nat)->Ok_0;
    let position = choose|position: u64|
        {
            &&& #[trigger] names_next(children, position)
            &&& segment_start + position <= u64::MAX
            &&& match spec_header(data, segment_start + position) {
                Err(_) => false,
                Ok((id, found_size, header_len)) => {
                    &&& id == ids::SEEKHEAD
                    &&& found_size == second_size
                    &&& segment_start + position + header_len == second_pos
                },
            }
        };
    let merged = table_after(table, children);
    assert(merged.contains_key(ids::SEEKHEAD) && merged[ids::SEEKHEAD] == position);
    if links > 0 {
        lemma_seekhead_cycle(
            data,
            segment_start,
            second_pos,
            second_size,
            first_pos,
            first_size,
            merged.remove(ids::SEEKHEAD),
            (links - 1) as nat,
        );
    }
}

} // verus!
