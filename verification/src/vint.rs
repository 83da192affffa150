//! Variable-length integers: the element ID and the element size that make
//! up an element header.

use crate::bigendian::{be_value, leading_zeros, read_unsigned, unary_prefix};
use crate::error::{Corruption, IoError, MatroskaError};
use crate::source::Source;
use crate::bigendian::{lemma_be_value_bound, lemma_be_value_first};
use vstd::arithmetic::power2::{lemma2_to64, lemma2_to64_rest, lemma_pow2_adds, pow2};
use vstd::prelude::*;

verus! {

/// Width in bytes of the variable-length integer that begins with `first`:
/// one more than the number of its leading zero bits.
pub open spec fn vint_width(first: u8) -> nat {
    leading_zeros(first) + 1
}

/// The element ID at `pos`, with its width in bytes.
///
/// An ID is one to four bytes wide and keeps its width marker: it is the
/// big-endian value of all its bytes.
pub open spec fn spec_element_id(data: Seq<u8>, pos: int) -> Result<(u32, u64), MatroskaError> {
    if pos < 0 || pos >= data.len() {
        Err(MatroskaError::Io(IoError::UnexpectedEof))
    } else {
        let width = vint_width(data[pos]);
        if width > 4 || pos + width > data.len() {
            Err(MatroskaError::InvalidId)
        } else {
            Ok((be_value(data.subrange(pos, pos + width)) as u32, width as u64))
        }
    }
}

/// The element size at `pos`, with its width in bytes.
///
/// A size is one to eight bytes wide and drops its width marker. The
/// payload of all one bits, which stands for "unknown", is rejected.
pub open spec fn spec_element_size(data: Seq<u8>, pos: int) -> Result<(u64, u64), MatroskaError> {
    if pos < 0 || pos >= data.len() {
        Err(MatroskaError::Io(IoError::UnexpectedEof))
    } else {
        let width = vint_width(data[pos]);
        if width > 8 || pos + width > data.len() {
            Err(MatroskaError::InvalidSize)
        } else {
            let payload = be_value(data.subrange(pos, pos + width)) - pow2(7 * width);
            if payload == pow2(7 * width) - 1 {
                Err(MatroskaError::CorruptFile { reason: Corruption::UnknownSize })
            } else {
                Ok((payload as u64, width as u64))
            }
        }
    }
}

/// The element header at `pos`: ID, body size and the header's own length.
pub open spec fn spec_header(data: Seq<u8>, pos: int) -> Result<(u32, u64, u64), MatroskaError> {
    match spec_element_id(data, pos) {
        Err(e) => Err(e),
        Ok((id, id_len)) => match spec_element_size(data, pos + id_len) {
            Err(e) => Err(e),
            Ok((size, size_len)) => Ok((id, size, (id_len + size_len) as u64)),
        },
    }
}

/// A variable-length integer of its full width `w` lies between its marker
/// bit 2^(7w) and the next power of two.
pub proof fn lemma_vint_range(bytes: Seq<u8>)
    requires
        bytes.len() > 0,
        bytes.len() == vint_width(bytes[0]),
        bytes.len() <= 8,
    ensures
        pow2(7 * bytes.len()) <= be_value(bytes) < 2 * pow2(7 * bytes.len()),
{
    let w = bytes.len();
    let shift = (8 * (w - 1)) as nat;
    let top = (8 - w) as nat;
    let first = bytes[0] as int;
    let low = be_value(bytes.drop_first()) as int;
    lemma_be_value_first(bytes);
    lemma_be_value_bound(bytes.drop_first());
    lemma2_to64();
    assert(pow2(top) <= first < 2 * pow2(top));
    lemma_pow2_adds(top, shift);
    assert(pow2(top) * pow2(shift) == pow2(7 * w));
    assert(pow2(top) * pow2(shift) <= first * pow2(shift) + low < 2 * (pow2(top) * pow2(shift)))
        by (nonlinear_arith)
        requires
            pow2(top) <= first < 2 * pow2(top),
            0 <= low < pow2(shift),
    ;
}

/// The marker bit of a size that is `width` bytes wide.
fn size_marker(width: u64) -> (marker: u64)
    requires
        1 <= width <= 8,
    ensures
        marker == pow2((7 * width) as nat),
{
    proof {
        lemma2_to64();
        lemma2_to64_rest();
    }
    if width == 1 {
        0x80
    } else if width == 2 {
        0x4000
    } else if width == 3 {
        0x20_0000
    } else if width == 4 {
        0x1000_0000
    } else if width == 5 {
        0x08_0000_0000
    } else if width == 6 {
        0x0400_0000_0000
    } else if width == 7 {
        0x02_0000_0000_0000
    } else {
        0x0100_0000_0000_0000
    }
}

/// The width of the variable-length integer that begins with `first`.
fn width_of(first: u8) -> (width: u64)
    ensures
        width == vint_width(first),
{
    match unary_prefix(first) {
        Some(zeros) => zeros as u64 + 1,
        None => 9,
    }
}

/// Reads an element ID and returns it with its width in bytes.
///
/// On failure the source stays where it was.
pub fn read_element_id(r: &mut Source) -> (res: Result<(u32, u64), MatroskaError>)
    ensures
        res == spec_element_id(old(r).data@, old(r).pos as int),
        final(r).data == old(r).data,
        final(r).pos == old(r).pos + (match res {
            Ok((_, width)) => width,
            Err(_) => 0,
        }),
{
    let first = match r.peek() {
        Some(byte) => byte,
        None => {
            return Err(MatroskaError::Io(IoError::UnexpectedEof));
        },
    };
    let width = width_of(first);
    if width > 4 || width > r.remaining() {
        return Err(MatroskaError::InvalidId);
    }
    let bytes = r.window(width);
    let value = read_unsigned(bytes, 8 * (width as u32)).unwrap();
    proof {
        assert(bytes@.take(width as int) =~= bytes@);
        lemma_be_value_bound(bytes@);
        lemma2_to64();
        assert(pow2(8 * bytes@.len()) <= pow2(32)) by {
            if bytes@.len() < 4 {
                vstd::arithmetic::power2::lemma_pow2_strictly_increases(8 * bytes@.len(), 32);
            }
        }
    }
    r.consume(width);
    Ok((value as u32, width))
}

/// Reads an element size and returns it with its width in bytes.
///
/// On failure the source stays where it was.
pub fn read_element_size(r: &mut Source) -> (res: Result<(u64, u64), MatroskaError>)
    ensures
        res == spec_element_size(old(r).data@, old(r).pos as int),
        final(r).data == old(r).data,
        final(r).pos == old(r).pos + (match res {
            Ok((_, width)) => width,
            Err(_) => 0,
        }),
{
    let first = match r.peek() {
        Some(byte) => byte,
        None => {
            return Err(MatroskaError::Io(IoError::UnexpectedEof));
        },
    };
    let width = width_of(first);
    if width > 8 || width > r.remaining() {
        return Err(MatroskaError::InvalidSize);
    }
    let bytes = r.window(width);
    let value = read_unsigned(bytes, 8 * (width as u32)).unwrap();
    let marker = size_marker(width);
    proof {
        assert(bytes@.take(width as int) =~= bytes@);
        lemma_vint_range(bytes@);
    }
    let payload = value - marker;
    if payload == marker - 1 {
        return Err(MatroskaError::CorruptFile { reason: Corruption::UnknownSize });
    }
    r.consume(width);
    Ok((payload, width))
}

/// Reads an element header: the ID, the body size and the header's length.
///
/// On failure the source stays where it was.
pub fn read_element_id_size(r: &mut Source) -> (res: Result<(u32, u64, u64), MatroskaError>)
    ensures
        res == spec_header(old(r).data@, old(r).pos as int),
        final(r).data == old(r).data,
        final(r).pos == old(r).pos + (match res {
            Ok((_, _, len)) => len,
            Err(_) => 0,
        }),
{
    let start = r.position();
    let (id, id_len) = match read_element_id(r) {
        Ok(pair) => pair,
        Err(e) => {
            return Err(e);
        },
    };
    match read_element_size(r) {
        Ok((size, size_len)) => Ok((id, size, id_len + size_len)),
        Err(e) => {
            r.seek(start);
            Err(e)
        },
    }
}

} // verus!
