//! Which inputs parse: the well-formed ones, and no others.

use crate::bigendian::be_value;
use crate::element::{spec_parse_body, spec_parse_master, MAX_DEPTH};
use crate::error::MatroskaError;
use crate::ids;
use crate::kind::{kind_of, Kind};
use crate::matroska::{
    bytes_from, is_section, spec_by_table, spec_find_segment, spec_open, spec_read_section,
    spec_scan, spec_seek_section, then_seek, MatroskaView,
};
use crate::seek::{spec_seektable, table_after, MAX_SEEK_LINKS};
use crate::vint::{spec_header, vint_width};
use vstd::arithmetic::power2::pow2;
use vstd::prelude::*;
use vstd::utf8::valid_utf8;

verus! {

/// Whether the `size` bytes at `pos` are there. No bytes are there at any
/// position.
pub open spec fn holds(data: Seq<u8>, pos: int, size: nat) -> bool {
    size == 0 || (0 <= pos && pos + size <= data.len())
}

/// The `size` bytes at `pos`.
pub open spec fn bytes_at(data: Seq<u8>, pos: int, size: nat) -> Seq<u8> {
    if size == 0 {
        Seq::empty()
    } else {
        data.subrange(pos, pos + size)
    }
}

/// Whether a variable-length integer of at most `max_width` bytes stands
/// complete at `pos`.
pub open spec fn well_formed_vint(data: Seq<u8>, pos: int, max_width: nat) -> bool {
    &&& 0 <= pos < data.len()
    &&& vint_width(data[pos]) <= max_width
    &&& pos + vint_width(data[pos]) <= data.len()
}

/// Whether a header stands at `pos`: an ID of at most four bytes, then a
/// size of at most eight bytes that is not the reserved "unknown" size.
pub open spec fn well_formed_header(data: Seq<u8>, pos: int) -> bool {
    &&& well_formed_vint(data, pos, 4)
    &&& {
        let at = pos + vint_width(data[pos]);
        &&& well_formed_vint(data, at, 8)
        &&& {
            let width = vint_width(data[at]);
            be_value(data.subrange(at, at + width)) != 2 * pow2(7 * width) - 1
        }
    }
}

/// Whether the `size` bytes at `pos` are a well-formed body of the kind
/// that `id` declares, with master elements nested at most `depth` deep.
pub open spec fn well_formed_body(data: Seq<u8>, pos: int, id: u32, size: nat, depth: nat) -> bool
    decreases size, 1nat,
{
    match kind_of(id) {
        Kind::Master => depth > 0 && well_formed_children(data, pos, size, (depth - 1) as nat),
        Kind::Int => size <= 8 && holds(data, pos, size),
        Kind::UInt => size <= 8 && holds(data, pos, size),
        Kind::String => holds(data, pos, size) && valid_utf8(bytes_at(data, pos, size)),
        Kind::UTF8 => holds(data, pos, size) && valid_utf8(bytes_at(data, pos, size)),
        Kind::Binary => holds(data, pos, size),
        Kind::Float => (size == 4 || size == 8) && holds(data, pos, size),
        Kind::Date => size == 8 && holds(data, pos, size),
    }
}

/// Whether the `size` bytes at `pos` are filled exactly by well-formed
/// elements, one after the other.
pub open spec fn well_formed_children(data: Seq<u8>, pos: int, size: nat, depth: nat) -> bool
    decreases size, 0nat,
{
    size == 0 || (well_formed_header(data, pos) && match spec_header(data, pos) {
        Ok((id, body, header_len)) => {
            &&& header_len + body <= size
            &&& well_formed_body(data, pos + header_len, id, body as nat, depth)
            &&& well_formed_children(
                data,
                pos + header_len + body,
                (size - header_len - body) as nat,
                depth,
            )
        },
        Err(_) => false,
    })
}

/// A header decodes exactly where one stands.
pub proof fn lemma_header_well_formed(data: Seq<u8>, pos: int)
    ensures
        spec_header(data, pos) is Ok <==> well_formed_header(data, pos),
{
}

/// A body parses exactly when it is well-formed.
pub proof fn lemma_body_parses(data: Seq<u8>, pos: int, id: u32, size: nat, depth: nat)
    ensures
        spec_parse_body(data, pos, id, size, depth) is Ok <==> well_formed_body(
            data,
            pos,
            id,
            size,
            depth,
        ),
    decreases size, 1nat,
{
    if kind_of(id) == Kind::Master && depth > 0 {
        lemma_children_parse(data, pos, size, (depth - 1) as nat);
    }
}

/// The children of a master element parse exactly when they are
/// well-formed and fill the body.
pub proof fn lemma_children_parse(data: Seq<u8>, pos: int, size: nat, depth: nat)
    ensures
        spec_parse_master(data, pos, size, depth) is Ok <==> well_formed_children(
            data,
            pos,
            size,
            depth,
        ),
    decreases size, 0nat,
{
    lemma_header_well_formed(data, pos);
    if size > 0 {
        if let Ok((id, body, header_len)) = spec_header(data, pos) {
            if header_len + body <= size {
                lemma_body_parses(data, pos + header_len, id, body as nat, depth);
                lemma_children_parse(
                    data,
                    pos + header_len + body,
                    (size - header_len - body) as nat,
                    depth,
                );
            }
        }
    }
}

/// Whether the SeekHead body of `size` bytes at `pos`, entered into
/// `table`, and every SeekHead that it leads to are well-formed, with at
/// most `links` SeekHeads following the first.
pub open spec fn well_formed_heads(
    data: Seq<u8>,
    pos: int,
    size: nat,
    segment_start: u64,
    table: Map<u32, u64>,
    links: nat,
) -> bool
    decreases links,
{
    match spec_parse_master(data, pos, size, MAX_DEPTH as nat) {
        Err(_) => false,
        Ok(children) => {
            let merged = table_after(table, children);
            let next = segment_start + merged[ids::SEEKHEAD];
            merged.contains_key(ids::SEEKHEAD) ==> {
                &&& links > 0
                &&& next <= u64::MAX
                &&& match spec_header(data, next) {
                    Err(_) => false,
                    Ok((id, next_size, header_len)) => id == ids::SEEKHEAD && well_formed_heads(
                        data,
                        next + header_len,
                        next_size as nat,
                        segment_start,
                        merged.remove(ids::SEEKHEAD),
                        (links - 1) as nat,
                    ),
                }
            }
        },
    }
}

/// A chain of SeekHeads gives a table exactly when it is well-formed.
pub proof fn lemma_heads_parse(
    data: Seq<u8>,
    pos: int,
    size: nat,
    segment_start: u64,
    table: Map<u32, u64>,
    links: nat,
)
    ensures
        spec_seektable(data, pos, size, segment_start, table, links) is Ok <==> well_formed_heads(
            data,
            pos,
            size,
            segment_start,
            table,
            links,
        ),
    decreases links,
{
    if let Ok(children) = spec_parse_master(data, pos, size, MAX_DEPTH as nat) {
        let merged = table_after(table, children);
        if merged.contains_key(ids::SEEKHEAD) && links > 0 && segment_start
            + merged[ids::SEEKHEAD] <= u64::MAX {
            let next = segment_start + merged[ids::SEEKHEAD];
            if let Ok((id, next_size, header_len)) = spec_header(data, next) {
                if id == ids::SEEKHEAD {
                    lemma_heads_parse(
                        data,
                        next + header_len,
                        next_size as nat,
                        segment_start,
                        merged.remove(ids::SEEKHEAD),
                        (links - 1) as nat,
                    );
                }
            }
        }
    }
}

/// Whether `table` leads to a well-formed section `id`, or does not name
/// `id` at all.
pub open spec fn well_formed_target(data: Seq<u8>, offset: u64, table: Map<u32, u64>, id: u32) -> bool {
    table.contains_key(id) ==> {
        let at = offset + table[id];
        &&& at <= u64::MAX
        &&& match spec_header(data, at) {
            Err(_) => false,
            Ok((found, size, header_len)) => found == id && well_formed_children(
                data,
                at + header_len,
                size as nat,
                MAX_DEPTH as nat,
            ),
        }
    }
}

/// Whether `table` leads to well-formed sections only.
pub open spec fn well_formed_targets(data: Seq<u8>, offset: u64, table: Map<u32, u64>) -> bool {
    &&& well_formed_target(data, offset, table, ids::INFO)
    &&& well_formed_target(data, offset, table, ids::TRACKS)
    &&& well_formed_target(data, offset, table, ids::ATTACHMENTS)
    &&& well_formed_target(data, offset, table, ids::CHAPTERS)
    &&& well_formed_target(data, offset, table, ids::TAGS)
}

/// Whether the children in the `budget` bytes at `pos` of the Segment can
/// be read: every child fits in what is left of the Segment, the sections
/// are well-formed, and the first SeekHead, where there is one, is
/// well-formed and leads to well-formed sections. What follows that
/// SeekHead is not looked at.
pub open spec fn well_formed_segment(data: Seq<u8>, pos: int, budget: nat, segment_start: u64) -> bool
    decreases budget,
{
    budget == 0 || match spec_header(data, pos) {
        Err(_) => false,
        Ok((id, size, header_len)) => {
            let body = pos + header_len;
            let left = (budget - header_len - size) as nat;
            &&& header_len + size <= budget
            &&& if id == ids::SEEKHEAD {
                &&& well_formed_heads(
                    data,
                    body,
                    size as nat,
                    segment_start,
                    Map::empty(),
                    MAX_SEEK_LINKS as nat,
                )
                &&& well_formed_targets(
                    data,
                    segment_start,
                    spec_seektable(
                        data,
                        body,
                        size as nat,
                        segment_start,
                        Map::empty(),
                        MAX_SEEK_LINKS as nat,
                    )->Ok_0,
                )
            } else if is_section(id) {
                &&& well_formed_children(data, body, size as nat, MAX_DEPTH as nat)
                &&& well_formed_segment(data, body + size, left, segment_start)
            } else {
                &&& body + size <= u64::MAX
                &&& well_formed_segment(data, body + size, left, segment_start)
            }
        },
    }
}

/// Whether top-level elements stand one after the other from `pos` on,
/// up to a Segment whose children can be read.
pub open spec fn well_formed_from(data: Seq<u8>, pos: int) -> bool
    decreases bytes_from(data, pos),
{
    match spec_header(data, pos) {
        Err(_) => false,
        Ok((id, size, header_len)) => if id == ids::SEGMENT {
            well_formed_segment(
                data,
                pos + header_len,
                size as nat,
                (pos + header_len) as u64,
            )
        } else {
            pos + header_len + size <= u64::MAX && well_formed_from(data, pos + header_len + size)
        },
    }
}

/// Whether `data` is a well-formed file, as far as its metadata goes.
pub open spec fn well_formed_file(data: Seq<u8>) -> bool {
    well_formed_from(data, 0)
}

/// A section that the table leads to is read exactly when the table
/// leads to a well-formed one.
pub proof fn lemma_target_reads(
    data: Seq<u8>,
    offset: u64,
    table: Map<u32, u64>,
    id: u32,
    acc: MatroskaView,
)
    ensures
        spec_seek_section(data, offset, table, id, acc) is Ok <==> well_formed_target(
            data,
            offset,
            table,
            id,
        ),
{
    if table.contains_key(id) && offset + table[id] <= u64::MAX {
        let at = offset + table[id];
        if let Ok((found, size, header_len)) = spec_header(data, at) {
            lemma_children_parse(data, at + header_len, size as nat, MAX_DEPTH as nat);
        }
    }
}

/// The sections that a table names are read exactly when the table leads
/// to well-formed sections only.
pub proof fn lemma_targets_read(data: Seq<u8>, offset: u64, table: Map<u32, u64>, acc: MatroskaView)
    ensures
        spec_by_table(data, offset, table, acc) is Ok <==> well_formed_targets(data, offset, table),
{
    lemma_target_reads(data, offset, table, ids::INFO, acc);
    let info = spec_seek_section(data, offset, table, ids::INFO, acc);
    if let Ok(a) = info {
        lemma_target_reads(data, offset, table, ids::TRACKS, a);
    }
    let tracks = then_seek(info, data, offset, table, ids::TRACKS);
    if let Ok(a) = tracks {
        lemma_target_reads(data, offset, table, ids::ATTACHMENTS, a);
    }
    let attachments = then_seek(tracks, data, offset, table, ids::ATTACHMENTS);
    if let Ok(a) = attachments {
        lemma_target_reads(data, offset, table, ids::CHAPTERS, a);
    }
    let chapters = then_seek(attachments, data, offset, table, ids::CHAPTERS);
    if let Ok(a) = chapters {
        lemma_target_reads(data, offset, table, ids::TAGS, a);
    }
}

/// The children of a Segment are read exactly when they are well-formed.
pub proof fn lemma_segment_reads(
    data: Seq<u8>,
    pos: int,
    budget: nat,
    segment_start: u64,
    acc: MatroskaView,
)
    ensures
        spec_scan(data, pos, budget, segment_start, acc) is Ok <==> well_formed_segment(
            data,
            pos,
            budget,
            segment_start,
        ),
    decreases budget,
{
    if budget > 0 {
        if let Ok((id, size, header_len)) = spec_header(data, pos) {
            let body = pos + header_len;
            let left = (budget - header_len - size) as nat;
            if header_len + size <= budget {
                if id == ids::SEEKHEAD {
                    lemma_heads_parse(
                        data,
                        body,
                        size as nat,
                        segment_start,
                        Map::empty(),
                        MAX_SEEK_LINKS as nat,
                    );
                    if let Ok(table) = spec_seektable(
                        data,
                        body,
                        size as nat,
                        segment_start,
                        Map::empty(),
                        MAX_SEEK_LINKS as nat,
                    ) {
                        lemma_targets_read(data, segment_start, table, acc);
                    }
                } else if is_section(id) {
                    lemma_children_parse(data, body, size as nat, MAX_DEPTH as nat);
                    if let Ok(next) = spec_read_section(data, body, size as nat, id, acc) {
                        lemma_segment_reads(data, body + size, left, segment_start, next);
                    }
                } else if body + size <= u64::MAX {
                    lemma_segment_reads(data, body + size, left, segment_start, acc);
                }
            }
        }
    }
}

/// What `spec_open` does from the position `pos` of a top-level element
/// on.
pub open spec fn spec_open_from(data: Seq<u8>, pos: int) -> Result<MatroskaView, MatroskaError> {
    match spec_find_segment(data, pos) {
        Err(e) => Err(e),
        Ok((start, size)) => spec_scan(data, start as int, size as nat, start, MatroskaView::new()),
    }
}

/// Reading from a top-level element on succeeds exactly when what stands
/// there is well-formed.
pub proof fn lemma_reads_from(data: Seq<u8>, pos: int)
    requires
        data.len() <= u64::MAX,
    ensures
        spec_open_from(data, pos) is Ok <==> well_formed_from(data, pos),
    decreases bytes_from(data, pos),
{
    let header = spec_header(data, pos);
    match header {
        Err(_) => {
            assert(spec_find_segment(data, pos) is Err);
        },
        Ok((id, size, header_len)) => {
            crate::laws::tree::lemma_header_length(data, pos);
            if id == ids::SEGMENT {
                let start = (pos + header_len) as u64;
                assert(spec_find_segment(data, pos) == Ok::<(u64, u64), MatroskaError>(
                    (start, size),
                ));
                lemma_segment_reads(
                    data,
                    pos + header_len,
                    size as nat,
                    start,
                    MatroskaView::new(),
                );
            } else if pos + header_len + size <= u64::MAX {
                let next = pos + header_len + size;
                assert(bytes_from(data, next) < bytes_from(data, pos));
                assert(spec_find_segment(data, pos) == spec_find_segment(data, next));
                lemma_reads_from(data, next);
            } else {
                assert(spec_find_segment(data, pos) is Err);
            }
        },
    }
}

/// For every well-formed input, opening the file returns a value without
/// error; and for no other input. The input is any file whose length fits
/// in 64 bits, as that of every byte slice does.
pub proof fn lemma_well_formed_opens(data: Seq<u8>)
    requires
        data.len() <= u64::MAX,
    ensures
        well_formed_file(data) <==> spec_open(data) is Ok,
{
    lemma_reads_from(data, 0);
}

} // verus!
