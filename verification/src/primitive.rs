//! Readers for the bodies of the primitive element kinds.

use crate::bigendian::{be_value, lemma_be_value_bound, read_signed, read_unsigned, twos_complement};
use crate::date::{DateTime, MATROSKA_EPOCH};
use crate::error::{IoError, MatroskaError};
use crate::float::FloatBits;
use crate::source::Source;
use vstd::arithmetic::power2::{lemma2_to64, lemma_pow2_strictly_increases};
use vstd::prelude::*;
use vstd::slice::slice_to_vec;
use vstd::utf8::{decode_utf8, valid_utf8};

verus! {

/// The `size` bytes at `pos`, or the failure to read that many. Reading
/// no bytes succeeds at any position.
pub open spec fn spec_read_bin(data: Seq<u8>, pos: int, size: nat) -> Result<Seq<u8>, MatroskaError> {
    if size == 0 {
        Ok(Seq::empty())
    } else if 0 <= pos && pos + size <= data.len() {
        Ok(data.subrange(pos, pos + size))
    } else {
        Err(MatroskaError::Io(IoError::UnexpectedEof))
    }
}

/// The unsigned integer body of `size` bytes at `pos`: the big-endian
/// value of those bytes, which is 0 for an empty body.
pub open spec fn spec_read_uint(data: Seq<u8>, pos: int, size: nat) -> Result<u64, MatroskaError> {
    if size > 8 {
        Err(MatroskaError::InvalidInt)
    } else {
        match spec_read_bin(data, pos, size) {
            Ok(bytes) => Ok(be_value(bytes) as u64),
            Err(e) => Err(e),
        }
    }
}

/// The signed integer body of `size` bytes at `pos`: the big-endian value
/// of those bytes, sign-extended from `8 * size` bits; 0 for an empty body.
pub open spec fn spec_read_int(data: Seq<u8>, pos: int, size: nat) -> Result<i64, MatroskaError> {
    if size > 8 {
        Err(MatroskaError::InvalidInt)
    } else if size == 0 {
        Ok(0i64)
    } else {
        match spec_read_bin(data, pos, size) {
            Ok(bytes) => Ok(twos_complement(be_value(bytes), 8 * size) as i64),
            Err(e) => Err(e),
        }
    }
}

/// The float body of `size` bytes at `pos`: the bit pattern that its four
/// or eight bytes spell, most significant byte first.
pub open spec fn spec_read_float(data: Seq<u8>, pos: int, size: nat) -> Result<
    FloatBits,
    MatroskaError,
> {
    if size != 4 && size != 8 {
        Err(MatroskaError::InvalidFloat)
    } else {
        match spec_read_bin(data, pos, size) {
            Ok(bytes) => Ok(
                if size == 4 {
                    FloatBits::Single(be_value(bytes) as u32)
                } else {
                    FloatBits::Double(be_value(bytes) as u64)
                },
            ),
            Err(e) => Err(e),
        }
    }
}

/// The string body of `size` bytes at `pos`, decoded as UTF-8.
pub open spec fn spec_read_string(data: Seq<u8>, pos: int, size: nat) -> Result<
    Seq<char>,
    MatroskaError,
> {
    match spec_read_bin(data, pos, size) {
        Ok(bytes) => if valid_utf8(bytes) {
            Ok(decode_utf8(bytes))
        } else {
            Err(MatroskaError::InvalidUtf8)
        },
        Err(e) => Err(e),
    }
}

/// The signed nanosecond count of the date body of `size` bytes at `pos`.
pub open spec fn spec_read_date_nanos(data: Seq<u8>, pos: int, size: nat) -> Result<
    i64,
    MatroskaError,
> {
    if size != 8 {
        Err(MatroskaError::InvalidDate)
    } else {
        spec_read_int(data, pos, size)
    }
}

/// The one well-formed instant with the given distance from the Unix epoch.
pub open spec fn date_of_unix_nanos(nanos: int) -> DateTime {
    DateTime { secs: (nanos / 1_000_000_000) as i64, nanos: (nanos % 1_000_000_000) as u32 }
}

/// The date body of `size` bytes at `pos`: 2001-01-01T00:00:00 UTC plus the
/// signed nanosecond count that the eight bytes hold.
pub open spec fn spec_read_date(data: Seq<u8>, pos: int, size: nat) -> Result<
    DateTime,
    MatroskaError,
> {
    match spec_read_date_nanos(data, pos, size) {
        Ok(nanos) => Ok(date_of_unix_nanos(MATROSKA_EPOCH * 1_000_000_000 + nanos)),
        Err(e) => Err(e),
    }
}

/// Calls `String::from_utf8`.
///
/// Trusted: the call succeeds exactly on valid UTF-8 and then returns the
/// text that the bytes encode.
#[verifier::external_body]
pub(crate) fn string_from_utf8(bytes: Vec<u8>) -> (text: Option<String>)
    ensures
        text is Some <==> valid_utf8(bytes@),
        text is Some ==> text.unwrap()@ == decode_utf8(bytes@),
{
    String::from_utf8(bytes).ok()
}

/// Reads `size` bytes.
///
/// On failure the source stays where it was.
pub fn read_bin(r: &mut Source, size: u64) -> (res: Result<Vec<u8>, MatroskaError>)
    ensures
        final(r).data == old(r).data,
        match res {
            Ok(bytes) => spec_read_bin(old(r).data@, old(r).pos as int, size as nat) == Ok::<
                Seq<u8>,
                MatroskaError,
            >(bytes@) && final(r).pos == old(r).pos + size,
            Err(e) => spec_read_bin(old(r).data@, old(r).pos as int, size as nat) == Err::<
                Seq<u8>,
                MatroskaError,
            >(e) && final(r).pos == old(r).pos,
        },
{
    if size == 0 {
        return Ok(Vec::new());
    }
    if size > r.remaining() {
        return Err(MatroskaError::Io(IoError::UnexpectedEof));
    }
    let bytes = slice_to_vec(r.window(size));
    r.consume(size);
    Ok(bytes)
}

/// Reads an unsigned integer of `size` bytes.
///
/// On failure the source stays where it was.
pub fn read_uint(r: &mut Source, size: u64) -> (res: Result<u64, MatroskaError>)
    ensures
        res == spec_read_uint(old(r).data@, old(r).pos as int, size as nat),
        final(r).data == old(r).data,
        final(r).pos == old(r).pos + (if res is Ok { size } else { 0 }),
{
    if size > 8 {
        return Err(MatroskaError::InvalidInt);
    }
    if size == 0 {
        return Ok(0);
    }
    if size > r.remaining() {
        return Err(MatroskaError::Io(IoError::UnexpectedEof));
    }
    let bytes = r.window(size);
    let value = read_unsigned(bytes, 8 * (size as u32)).unwrap();
    proof {
        assert(bytes@.take(size as int) =~= bytes@);
        lemma_be_value_fits(bytes@);
    }
    r.consume(size);
    Ok(value)
}

/// Reads a signed integer of `size` bytes.
///
/// On failure the source stays where it was.
pub fn read_int(r: &mut Source, size: u64) -> (res: Result<i64, MatroskaError>)
    ensures
        res == spec_read_int(old(r).data@, old(r).pos as int, size as nat),
        final(r).data == old(r).data,
        final(r).pos == old(r).pos + (if res is Ok { size } else { 0 }),
{
    if size > 8 {
        return Err(MatroskaError::InvalidInt);
    }
    if size == 0 {
        return Ok(0);
    }
    if size > r.remaining() {
        return Err(MatroskaError::Io(IoError::UnexpectedEof));
    }
    let bytes = r.window(size);
    let value = read_signed(bytes, 8 * (size as u32)).unwrap();
    proof {
        assert(bytes@.take(size as int) =~= bytes@);
    }
    r.consume(size);
    Ok(value)
}

/// Reads a float of four or eight bytes as its bit pattern.
///
/// On failure the source stays where it was.
pub fn read_float(r: &mut Source, size: u64) -> (res: Result<FloatBits, MatroskaError>)
    ensures
        res == spec_read_float(old(r).data@, old(r).pos as int, size as nat),
        final(r).data == old(r).data,
        final(r).pos == old(r).pos + (if res is Ok { size } else { 0 }),
{
    if size != 4 && size != 8 {
        return Err(MatroskaError::InvalidFloat);
    }
    if size > r.remaining() {
        return Err(MatroskaError::Io(IoError::UnexpectedEof));
    }
    let bytes = r.window(size);
    let value = read_unsigned(bytes, 8 * (size as u32)).unwrap();
    proof {
        assert(bytes@.take(size as int) =~= bytes@);
        lemma_be_value_fits(bytes@);
        lemma_be_value_bound(bytes@);
        lemma2_to64();
    }
    r.consume(size);
    if size == 4 {
        Ok(FloatBits::Single(value as u32))
    } else {
        Ok(FloatBits::Double(value))
    }
}

/// Reads a string of `size` bytes.
///
/// The format restricts such strings to ASCII; any valid UTF-8 is accepted.
/// On failure the source stays where it was.
pub fn read_string(r: &mut Source, size: u64) -> (res: Result<String, MatroskaError>)
    ensures
        final(r).data == old(r).data,
        match res {
            Ok(text) => spec_read_string(old(r).data@, old(r).pos as int, size as nat) == Ok::<
                Seq<char>,
                MatroskaError,
            >(text@) && final(r).pos == old(r).pos + size,
            Err(e) => spec_read_string(old(r).data@, old(r).pos as int, size as nat) == Err::<
                Seq<char>,
                MatroskaError,
            >(e) && final(r).pos == old(r).pos,
        },
{
    let start = r.position();
    let bytes = match read_bin(r, size) {
        Ok(bytes) => bytes,
        Err(e) => {
            return Err(e);
        },
    };
    match string_from_utf8(bytes) {
        Some(text) => Ok(text),
        None => {
            r.seek(start);
            Err(MatroskaError::InvalidUtf8)
        },
    }
}

/// Reads a Unicode string of `size` bytes.
///
/// On failure the source stays where it was.
pub fn read_utf8(r: &mut Source, size: u64) -> (res: Result<String, MatroskaError>)
    ensures
        final(r).data == old(r).data,
        match res {
            Ok(text) => spec_read_string(old(r).data@, old(r).pos as int, size as nat) == Ok::<
                Seq<char>,
                MatroskaError,
            >(text@) && final(r).pos == old(r).pos + size,
            Err(e) => spec_read_string(old(r).data@, old(r).pos as int, size as nat) == Err::<
                Seq<char>,
                MatroskaError,
            >(e) && final(r).pos == old(r).pos,
        },
{
    read_string(r, size)
}

/// Reads a date of eight bytes.
///
/// On failure the source stays where it was.
pub fn read_date(r: &mut Source, size: u64) -> (res: Result<DateTime, MatroskaError>)
    ensures
        res == spec_read_date(old(r).data@, old(r).pos as int, size as nat),
        final(r).data == old(r).data,
        final(r).pos == old(r).pos + (if res is Ok { size } else { 0 }),
{
    if size != 8 {
        return Err(MatroskaError::InvalidDate);
    }
    match read_int(r, size) {
        Ok(nanos) => Ok(DateTime::from_matroska_nanos(nanos)),
        Err(e) => Err(e),
    }
}

/// A big-endian number of at most eight bytes fits in 64 bits.
pub proof fn lemma_be_value_fits(bytes: Seq<u8>)
    requires
        bytes.len() <= 8,
    ensures
        be_value(bytes) <= u64::MAX,
{
    lemma_be_value_bound(bytes);
    lemma2_to64();
    if bytes.len() < 8 {
        lemma_pow2_strictly_increases(8 * bytes.len(), 64);
    }
}

} // verus!
