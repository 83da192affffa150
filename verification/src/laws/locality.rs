//! What is read from a stretch of bytes depends on those bytes alone, not
//! on where in a file they stand; and so a file with a truthful SeekHead
//! and the same file without it open to the same value.

use crate::element::{spec_parse_body, spec_parse_master, MAX_DEPTH};
use crate::error::MatroskaError;
use crate::ids;
use crate::kind::{kind_of, Kind};
use crate::laws::seekhead::{
    index_is_faithful, lemma_scan_agrees, spec_open_sequential, spec_scan_sequential,
};
use crate::laws::tree::lemma_header_length;
use crate::matroska::{
    is_section, spec_find_segment, spec_open, spec_read_section, spec_scan, MatroskaView,
};
use crate::primitive::spec_read_bin;
use crate::vint::{spec_element_id, spec_element_size, spec_header};
use vstd::prelude::*;

verus! {

/// Whether the `n` bytes at `pa` in `a` are there and are the `n` bytes
/// at `pb` in `b`.
pub open spec fn same_window(a: Seq<u8>, pa: int, b: Seq<u8>, pb: int, n: nat) -> bool {
    &&& 0 <= pa
    &&& 0 <= pb
    &&& pa + n <= a.len()
    &&& pb + n <= b.len()
    &&& a.subrange(pa, pa + n) == b.subrange(pb, pb + n)
}

/// Two stretches that are the same are the same in every part.
pub proof fn lemma_sub_window(a: Seq<u8>, pa: int, b: Seq<u8>, pb: int, n: nat, k: nat, m: nat)
    requires
        same_window(a, pa, b, pb, n),
        k + m <= n,
    ensures
        same_window(a, pa + k, b, pb + k, m),
{
    let wa = a.subrange(pa, pa + n);
    let wb = b.subrange(pb, pb + n);
    assert(a.subrange(pa + k, pa + k + m) =~= wa.subrange(k as int, (k + m) as int));
    assert(b.subrange(pb + k, pb + k + m) =~= wb.subrange(k as int, (k + m) as int));
}

/// A header is read from its own bytes.
pub proof fn lemma_header_local(a: Seq<u8>, pa: int, b: Seq<u8>, pb: int, n: nat)
    requires
        same_window(a, pa, b, pb, n),
        spec_header(a, pa) matches Ok((_, _, header_len)) && header_len <= n,
    ensures
        spec_header(b, pb) == spec_header(a, pa),
{
    lemma_header_length(a, pa);
    let (id, id_len) = spec_element_id(a, pa)->Ok_0;
    let (size, size_len) = spec_element_size(a, pa + id_len)->Ok_0;
    lemma_sub_window(a, pa, b, pb, n, 0, 1);
    assert(a.subrange(pa, pa + 1)[0] == b.subrange(pb, pb + 1)[0]);
    lemma_sub_window(a, pa, b, pb, n, 0, id_len as nat);
    lemma_sub_window(a, pa, b, pb, n, id_len as nat, 1);
    assert(a.subrange(pa + id_len, pa + id_len + 1)[0] == b.subrange(pb + id_len, pb + id_len + 1)[0]);
    lemma_sub_window(a, pa, b, pb, n, id_len as nat, size_len as nat);
}

/// Bytes are read from where they stand.
pub proof fn lemma_bin_local(a: Seq<u8>, pa: int, b: Seq<u8>, pb: int, size: nat)
    requires
        same_window(a, pa, b, pb, size),
    ensures
        spec_read_bin(b, pb, size) == spec_read_bin(a, pa, size),
        spec_read_bin(a, pa, size) is Ok,
{
}

/// A body is read from its own bytes.
pub proof fn lemma_body_local(
    a: Seq<u8>,
    pa: int,
    b: Seq<u8>,
    pb: int,
    id: u32,
    size: nat,
    depth: nat,
)
    requires
        same_window(a, pa, b, pb, size),
        spec_parse_body(a, pa, id, size, depth) is Ok,
    ensures
        spec_parse_body(b, pb, id, size, depth) == spec_parse_body(a, pa, id, size, depth),
    decreases size, 1nat,
{
    lemma_bin_local(a, pa, b, pb, size);
    if kind_of(id) == Kind::Master && depth > 0 {
        lemma_master_local(a, pa, b, pb, size, (depth - 1) as nat);
    }
}

/// The children of a master element are read from the bytes of its body.
pub proof fn lemma_master_local(a: Seq<u8>, pa: int, b: Seq<u8>, pb: int, size: nat, depth: nat)
    requires
        same_window(a, pa, b, pb, size),
        spec_parse_master(a, pa, size, depth) is Ok,
    ensures
        spec_parse_master(b, pb, size, depth) == spec_parse_master(a, pa, size, depth),
    decreases size, 0nat,
{
    if size > 0 {
        if let Ok((id, body, header_len)) = spec_header(a, pa) {
            if header_len + body <= size {
                lemma_header_local(a, pa, b, pb, size);
                let left = (size - header_len - body) as nat;
                lemma_sub_window(a, pa, b, pb, size, header_len as nat, body as nat);
                lemma_body_local(a, pa + header_len, b, pb + header_len, id, body as nat, depth);
                lemma_sub_window(a, pa, b, pb, size, (header_len + body) as nat, left);
                lemma_master_local(
                    a,
                    pa + header_len + body,
                    b,
                    pb + header_len + body,
                    left,
                    depth,
                );
            }
        }
    }
}

/// A section is read from the bytes of its body.
pub proof fn lemma_section_local(
    a: Seq<u8>,
    pa: int,
    b: Seq<u8>,
    pb: int,
    size: nat,
    id: u32,
    acc: MatroskaView,
)
    requires
        same_window(a, pa, b, pb, size),
        spec_read_section(a, pa, size, id, acc) is Ok,
    ensures
        spec_read_section(b, pb, size, id, acc) == spec_read_section(a, pa, size, id, acc),
{
    lemma_master_local(a, pa, b, pb, size, MAX_DEPTH as nat);
}

/// Reading the children of a Segment in file order depends on the bytes
/// of those children alone.
pub proof fn lemma_sequential_local(
    a: Seq<u8>,
    pa: int,
    b: Seq<u8>,
    pb: int,
    budget: nat,
    acc: MatroskaView,
)
    requires
        same_window(a, pa, b, pb, budget),
        b.len() <= u64::MAX,
        spec_scan_sequential(a, pa, budget, acc) is Ok,
    ensures
        spec_scan_sequential(b, pb, budget, acc) == spec_scan_sequential(a, pa, budget, acc),
    decreases budget,
{
    if budget > 0 {
        if let Ok((id, size, header_len)) = spec_header(a, pa) {
            lemma_header_local(a, pa, b, pb, budget);
            let left = (budget - header_len - size) as nat;
            let body = header_len as nat;
            let rest = (header_len + size) as nat;
            lemma_sub_window(a, pa, b, pb, budget, rest, left);
            if is_section(id) {
                lemma_sub_window(a, pa, b, pb, budget, body, size as nat);
                lemma_section_local(a, pa + body, b, pb + body, size as nat, id, acc);
                let next = spec_read_section(a, pa + body, size as nat, id, acc)->Ok_0;
                lemma_sequential_local(a, pa + rest, b, pb + rest, left, next);
            } else {
                lemma_sequential_local(a, pa + rest, b, pb + rest, left, acc);
            }
        }
    }
}

/// Whether no SeekHead stands among the children in the `budget` bytes
/// at `pos`.
pub open spec fn no_seekhead(data: Seq<u8>, pos: int, budget: nat) -> bool
    decreases budget,
{
    budget == 0 || match spec_header(data, pos) {
        Err(_) => true,
        Ok((id, size, header_len)) => header_len + size <= budget ==> id != ids::SEEKHEAD
            && no_seekhead(data, pos + header_len + size, (budget - header_len - size) as nat),
    }
}

/// Without a SeekHead a Segment is read in file order.
pub proof fn lemma_unindexed_is_sequential(
    data: Seq<u8>,
    pos: int,
    budget: nat,
    segment_start: u64,
    acc: MatroskaView,
)
    requires
        no_seekhead(data, pos, budget),
    ensures
        spec_scan(data, pos, budget, segment_start, acc) == spec_scan_sequential(
            data,
            pos,
            budget,
            acc,
        ),
    decreases budget,
{
    if budget > 0 {
        if let Ok((id, size, header_len)) = spec_header(data, pos) {
            if header_len + size <= budget {
                let body = pos + header_len;
                let left = (budget - header_len - size) as nat;
                if is_section(id) {
                    if let Ok(next) = spec_read_section(data, body, size as nat, id, acc) {
                        lemma_unindexed_is_sequential(data, body + size, left, segment_start, next);
                    }
                } else {
                    lemma_unindexed_is_sequential(data, body + size, left, segment_start, acc);
                }
            }
        }
    }
}

/// Whether `without` is the file `with` less its SeekHead: the first
/// child of the Segment of `with` is a SeekHead, what follows it in that
/// Segment is all that the Segment of `without` holds, and no SeekHead is
/// among it.
pub open spec fn differ_by_seekhead(with: Seq<u8>, without: Seq<u8>) -> bool {
    match (spec_find_segment(with, 0), spec_find_segment(without, 0)) {
        (Ok((start, size)), Ok((other_start, other_size))) => match spec_header(
            with,
            start as int,
        ) {
            Ok((id, head_size, header_len)) => {
                &&& id == ids::SEEKHEAD
                &&& size == header_len + head_size + other_size
                &&& same_window(
                    with,
                    start + header_len + head_size,
                    without,
                    other_start as int,
                    other_size as nat,
                )
                &&& no_seekhead(without, other_start as int, other_size as nat)
            },
            Err(_) => false,
        },
        _ => false,
    }
}

/// Two files that are identical except that one has a SeekHead and the
/// other has only inlined sections open to equal values, where the
/// SeekHead names exactly the sections that follow it and the sections
/// can be read in file order.
pub proof fn lemma_seekhead_file_agrees(with: Seq<u8>, without: Seq<u8>)
    requires
        with.len() <= u64::MAX,
        without.len() <= u64::MAX,
        differ_by_seekhead(with, without),
        spec_find_segment(with, 0) matches Ok((start, size)) && index_is_faithful(
            with,
            start as int,
            size as nat,
            start,
        ),
        spec_open_sequential(with) is Ok,
    ensures
        spec_open(with) == spec_open(without),
{
    let (start, size) = spec_find_segment(with, 0)->Ok_0;
    let (other_start, other_size) = spec_find_segment(without, 0)->Ok_0;
    let (id, head_size, header_len) = spec_header(with, start as int)->Ok_0;
    let fresh = MatroskaView::new();
    let rest = start + header_len + head_size;
    lemma_scan_agrees(with, start as int, size as nat, start, fresh);
    assert(!is_section(ids::SEEKHEAD));
    assert(spec_scan_sequential(with, start as int, size as nat, fresh) == spec_scan_sequential(
        with,
        rest,
        other_size as nat,
        fresh,
    ));
    lemma_sequential_local(with, rest, without, other_start as int, other_size as nat, fresh);
    lemma_unindexed_is_sequential(
        without,
        other_start as int,
        other_size as nat,
        other_start,
        fresh,
    );
}

} // verus!
