//! Laws of the element tree parser.

use crate::bigendian::{be_value, twos_complement};
use crate::date::MATROSKA_EPOCH;
use crate::element::{
    spec_parse, spec_parse_body, spec_parse_master, total_size, ElementView, ValueView,
};
use crate::error::{Corruption, MatroskaError};
use crate::kind::{
    binary_ids, float_ids, int_ids, kind_of, master_ids, string_ids, uint_ids, utf8_ids, Kind,
    DATE_ID,
};
use crate::matroska::{is_opened, Matroska};
use crate::primitive::{spec_read_bin, spec_read_date};
use crate::vint::{lemma_vint_range, spec_element_id, spec_element_size, spec_header};
use vstd::arithmetic::power2::lemma2_to64;
use vstd::prelude::*;

verus! {

/// Whether, in `element` and in every element below it, the children of a
/// master element add up to the size of its body: the element's total
/// size less a header of two to twelve bytes.
pub open spec fn sizes_add_up(element: ElementView) -> bool
    decreases element,
{
    match element.val {
        ValueView::Master(children) => {
            &&& 2 <= element.size - total_size(children) <= 12
            &&& forall|i: int| 0 <= i < children.len() ==> sizes_add_up(#[trigger] children[i])
        },
        _ => true,
    }
}

/// An element header is two to twelve bytes long, and a body is shorter
/// than 2^56 bytes.
pub proof fn lemma_header_length(data: Seq<u8>, pos: int)
    ensures
        spec_header(data, pos) matches Ok((_, size, header_len)) ==> 2 <= header_len <= 12 && size
            < 0x100_0000_0000_0000 && 0 <= pos && pos + header_len <= data.len(),
{
    if let Ok((_, id_len)) = spec_element_id(data, pos) {
        let at = pos + id_len;
        if let Ok((size, size_len)) = spec_element_size(data, at) {
            let bytes = data.subrange(at, at + size_len);
            assert(bytes[0] == data[at]);
            lemma_vint_range(bytes);
            lemma2_to64();
            vstd::arithmetic::power2::lemma2_to64_rest();
            if size_len < 8 {
                vstd::arithmetic::power2::lemma_pow2_strictly_increases(
                    (7 * size_len) as nat,
                    56,
                );
            }
        }
    }
}

/// The total size of a sequence with one more element at its front.
pub proof fn lemma_total_size_front(first: ElementView, rest: Seq<ElementView>)
    ensures
        total_size(seq![first] + rest) == first.size + total_size(rest),
    decreases rest.len(),
{
    if rest.len() == 0 {
        assert(seq![first] + rest =~= seq![first]);
        assert(seq![first].drop_last() =~= Seq::<ElementView>::empty());
        assert(total_size(seq![first]) == total_size(seq![first].drop_last()) + first.size);
    } else {
        lemma_total_size_front(first, rest.drop_last());
        assert((seq![first] + rest).drop_last() =~= seq![first] + rest.drop_last());
        assert((seq![first] + rest).last() == rest.last());
    }
}

/// For every master element, the total sizes of its children add up to
/// its declared body size: what `spec_parse_master` returns for a body of
/// `size` bytes has the total size `size`, and the same holds of every
/// master element inside.
pub proof fn lemma_master_sizes(data: Seq<u8>, pos: int, size: nat, depth: nat)
    ensures
        spec_parse_master(data, pos, size, depth) matches Ok(children) ==> {
            &&& total_size(children) == size
            &&& forall|i: int| 0 <= i < children.len() ==> sizes_add_up(#[trigger] children[i])
        },
    decreases size, 0nat,
{
    if size > 0 {
        if let Ok((id, body, header_len)) = spec_header(data, pos) {
            lemma_header_length(data, pos);
            if header_len + body <= size {
                lemma_body_sizes(data, pos + header_len, id, body as nat, depth);
                let left = (size - header_len - body) as nat;
                lemma_master_sizes(data, pos + header_len + body, left, depth);
                if let Ok(val) = spec_parse_body(data, pos + header_len, id, body as nat, depth) {
                    if let Ok(rest) = spec_parse_master(data, pos + header_len + body, left, depth) {
                        let first = ElementView { id, size: (header_len + body) as u64, val };
                        lemma_total_size_front(first, rest);
                        let children = seq![first] + rest;
                        assert forall|i: int| 0 <= i < children.len() implies sizes_add_up(
                            #[trigger] children[i],
                        ) by {
                            if i > 0 {
                                assert(children[i] == rest[i - 1]);
                            }
                        }
                    }
                }
            }
        }
    }
}

/// What `spec_parse_body` returns for a master element holds children
/// that add up to the body's size, here and in every master below.
pub proof fn lemma_body_sizes(data: Seq<u8>, pos: int, id: u32, size: nat, depth: nat)
    ensures
        spec_parse_body(data, pos, id, size, depth) matches Ok(ValueView::Master(children)) ==> {
            &&& kind_of(id) == Kind::Master
            &&& total_size(children) == size
            &&& forall|i: int| 0 <= i < children.len() ==> sizes_add_up(#[trigger] children[i])
        },
    decreases size, 1nat,
{
    if kind_of(id) == Kind::Master && depth > 0 {
        lemma_master_sizes(data, pos, size, (depth - 1) as nat);
    }
}

/// In every element that `spec_parse` returns, and in every element
/// below it, the children of a master element add up to its body.
pub proof fn lemma_parsed_sizes_add_up(data: Seq<u8>, pos: int, depth: nat)
    ensures
        spec_parse(data, pos, depth) matches Ok(element) ==> sizes_add_up(element),
{
    if let Ok((id, body, header_len)) = spec_header(data, pos) {
        lemma_header_length(data, pos);
        lemma_body_sizes(data, pos + header_len, id, body as nat, depth);
    }
}

/// A child whose header declares more than what is left of its parent
/// makes the file corrupt, whatever the child holds.
pub proof fn lemma_child_overrun(data: Seq<u8>, pos: int, size: nat, depth: nat)
    requires
        size > 0,
        spec_header(data, pos) matches Ok((_, body, header_len)) && header_len + body > size,
    ensures
        spec_parse_master(data, pos, size, depth) == Err::<Seq<ElementView>, MatroskaError>(
            MatroskaError::CorruptFile { reason: Corruption::ChildOverrun },
        ),
{
}

/// Whether no set of the classifier holds `id`, and `id` is not the date.
pub open spec fn is_unknown_id(id: u32) -> bool {
    &&& !master_ids().contains(id)
    &&& !int_ids().contains(id)
    &&& !uint_ids().contains(id)
    &&& !string_ids().contains(id)
    &&& !utf8_ids().contains(id)
    &&& !binary_ids().contains(id)
    &&& !float_ids().contains(id)
    &&& id != DATE_ID
}

/// An element with an unknown ID is kept as its bytes, at any depth: its
/// body fails only where the bytes are not there.
pub proof fn lemma_unknown_is_binary(data: Seq<u8>, pos: int, id: u32, size: nat, depth: nat)
    requires
        is_unknown_id(id),
    ensures
        spec_parse_body(data, pos, id, size, depth) == match spec_read_bin(data, pos, size) {
            Ok(bytes) => Ok::<ValueView, MatroskaError>(ValueView::Binary(bytes)),
            Err(e) => Err::<ValueView, MatroskaError>(e),
        },
        0 <= pos && pos + size <= data.len() ==> spec_parse_body(data, pos, id, size, depth)
            == Ok::<ValueView, MatroskaError>(ValueView::Binary(data.subrange(pos, pos + size))),
{
    if 0 <= pos && pos + size <= data.len() && size == 0 {
        assert(data.subrange(pos, pos + size) =~= Seq::<u8>::empty());
    }
}

/// A date of eight bytes is 2001-01-01T00:00:00 UTC plus the signed
/// number of nanoseconds that the bytes hold.
pub proof fn lemma_date_epoch(data: Seq<u8>, pos: int)
    requires
        0 <= pos,
        pos + 8 <= data.len(),
    ensures
        spec_read_date(data, pos, 8) matches Ok(date) && date.wf() && date.unix_nanos()
            == MATROSKA_EPOCH * 1_000_000_000 + twos_complement(
            be_value(data.subrange(pos, pos + 8)),
            64,
        ),
{
    let bytes = data.subrange(pos, pos + 8);
    crate::primitive::lemma_be_value_fits(bytes);
    crate::bigendian::lemma_be_value_bound(bytes);
    lemma2_to64();
    vstd::arithmetic::power2::lemma2_to64_rest();
}

/// Opening the same bytes twice gives equal values: the result of
/// `Matroska::open` is a function of the bytes alone.
pub proof fn lemma_open_twice(
    first_data: Seq<u8>,
    second_data: Seq<u8>,
    first: Result<Matroska, MatroskaError>,
    second: Result<Matroska, MatroskaError>,
)
    requires
        first_data == second_data,
        is_opened(first_data, first),
        is_opened(second_data, second),
    ensures
        match (first, second) {
            (Ok(a), Ok(b)) => a@ == b@,
            (Err(a), Err(b)) => a == b,
            _ => false,
        },
{
}

} // verus!
