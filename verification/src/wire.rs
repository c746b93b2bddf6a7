//! The protobuf wire format as quick_protobuf reads and writes it: varints,
//! tags, length-delimited fields and skipped unknown fields.
use vstd::prelude::*;
use quick_protobuf::sizeofs::{sizeof_len, sizeof_varint};
use quick_protobuf::{BytesReader, Writer};

verus! {

/// Errors that quick_protobuf reports while reading or writing.
#[verifier::external_type_specification]
#[verifier::external_body]
pub struct ExProtobufError(quick_protobuf::Error);

/// The bytes that a varint of `v` takes on the wire: seven bits at a time,
/// low group first, with the high bit set on every byte but the last.
pub open spec fn varint_bytes(v: u64) -> Seq<u8>
    decreases v,
{
    if v < 128 {
        seq![v as u8]
    } else {
        seq![(v % 128 + 128) as u8] + varint_bytes(v / 128)
    }
}

/// The number of bytes of the varint that starts `s`, looking at no more
/// than `max` bytes: `None` when `s` ends, or `max` bytes pass, before a byte
/// whose high bit is clear.
pub open spec fn varint_extent(s: Seq<u8>, max: nat) -> Option<nat>
    decreases max,
{
    if max == 0 || s.len() == 0 {
        None
    } else if s[0] < 128 {
        Some(1)
    } else {
        match varint_extent(s.drop_first(), (max - 1) as nat) {
            Some(n) => Some(n + 1),
            None => None,
        }
    }
}

/// The number that the 7-bit groups of `s` spell, low group first.
pub open spec fn varint_value(s: Seq<u8>) -> nat
    decreases s.len(),
{
    if s.len() == 0 {
        0
    } else {
        (s[0] % 128) as nat + 128 * varint_value(s.drop_first())
    }
}

/// A 32-bit varint read from the start of `s`: the varint of at most ten
/// bytes, cut down to its low 32 bits, and the number of bytes it takes up.
pub open spec fn read_varint32_spec(s: Seq<u8>) -> Option<(u32, nat)> {
    match varint_extent(s, 10) {
        Some(n) => Some(((varint_value(s.take(n as int)) % 0x1_0000_0000) as u32, n)),
        None => None,
    }
}

/// A length-delimited field read from the start of `s`: the bytes that
/// follow a 32-bit varint length, and the number of bytes read in all.
pub open spec fn read_bytes_spec(s: Seq<u8>) -> Option<(Seq<u8>, nat)> {
    match read_varint32_spec(s) {
        Some((len, n)) => if n + len <= s.len() {
            Some((s.subrange(n as int, n + len), (n + len) as nat))
        } else {
            None
        },
        None => None,
    }
}

/// The number of bytes that the value of an unknown field with tag `tag`
/// takes at the start of `s`, by its wire type (the low three bits of the
/// tag): a varint, eight bytes, four bytes, or a 64-bit varint length and
/// that many bytes. Groups and unknown wire types are refused.
pub open spec fn skip_unknown_spec(s: Seq<u8>, tag: u32) -> Option<nat> {
    let wire_type = tag % 8;
    if wire_type == 0 {
        varint_extent(s, 10)
    } else if wire_type == 1 {
        if 8 <= s.len() { Some(8) } else { None }
    } else if wire_type == 5 {
        if 4 <= s.len() { Some(4) } else { None }
    } else if wire_type == 2 {
        match varint_extent(s, 10) {
            Some(n) => {
                let len = varint_value(s.take(n as int)) % 0x1_0000_0000_0000_0000;
                if n + len <= s.len() { Some(n + len) } else { None }
            },
            None => None,
        }
    } else {
        None
    }
}

/// The bytes of a length-delimited field: the length as a varint, then the
/// bytes themselves.
pub open spec fn len_delimited_bytes(d: Seq<u8>) -> Seq<u8> {
    varint_bytes(d.len() as u64) + d
}

// ---------------------------------------------------------------------------
// Lemmas about varints.

/// 128 to the power `k`.
pub open spec fn pow128(k: nat) -> nat
    decreases k,
{
    if k == 0 { 1 } else { 128 * pow128((k - 1) as nat) }
}

pub proof fn lemma_varint_bytes_len_bound(v: u64, k: nat)
    requires
        1 <= k,
        v < pow128(k),
    ensures
        1 <= varint_bytes(v).len() <= k,
    decreases v,
{
    if v >= 128 {
        assert(k >= 2) by {
            if k == 1 {
                assert(pow128(0) == 1);
            }
        }
        assert(v / 128 < pow128((k - 1) as nat));
        lemma_varint_bytes_len_bound(v / 128, (k - 1) as nat);
        assert(varint_bytes(v).len() == 1 + varint_bytes(v / 128).len());
    }
}

pub proof fn lemma_varint_bytes_len_at_most_10(v: u64)
    ensures
        1 <= varint_bytes(v).len() <= 10,
{
    assert(pow128(0) == 1);
    assert(pow128(1) == 0x80);
    assert(pow128(2) == 0x4000);
    assert(pow128(3) == 0x20_0000);
    assert(pow128(4) == 0x1000_0000);
    assert(pow128(5) == 0x8_0000_0000);
    assert(pow128(6) == 0x400_0000_0000);
    assert(pow128(7) == 0x2_0000_0000_0000);
    assert(pow128(8) == 0x100_0000_0000_0000);
    assert(pow128(9) == 0x8000_0000_0000_0000);
    assert(pow128(10) == 0x40_0000_0000_0000_0000);
    lemma_varint_bytes_len_bound(v, 10);
}

/// A varint followed by anything is read back as that varint, within
/// `max` bytes when it is no longer than that.
pub proof fn lemma_varint_extent(v: u64, rest: Seq<u8>, max: nat)
    requires
        varint_bytes(v).len() <= max,
    ensures
        varint_extent(varint_bytes(v) + rest, max) == Some(varint_bytes(v).len()),
        varint_value(varint_bytes(v)) == v,
        (varint_bytes(v) + rest).take(varint_bytes(v).len() as int) == varint_bytes(v),
    decreases v,
{
    let s = varint_bytes(v) + rest;
    assert(s.take(varint_bytes(v).len() as int) =~= varint_bytes(v));
    if v < 128 {
        assert(s[0] == v as u8);
        assert(varint_bytes(v).drop_first() =~= Seq::<u8>::empty());
        assert(varint_value(Seq::<u8>::empty()) == 0);
        assert(varint_value(varint_bytes(v)) == ((v as u8) % 128) as nat + 128 * varint_value(Seq::<u8>::empty()));
    } else {
        let hi = varint_bytes(v / 128);
        lemma_varint_extent(v / 128, rest, (max - 1) as nat);
        assert(s.drop_first() =~= hi + rest);
        assert(varint_bytes(v).drop_first() =~= hi);
        assert(s[0] == (v % 128 + 128) as u8);
        let b0: u8 = (v % 128 + 128) as u8;
        assert(b0 % 128 == v % 128);
        assert(varint_bytes(v)[0] == b0);
        assert(varint_value(varint_bytes(v)) == (b0 % 128) as nat + 128 * varint_value(hi));
        assert(v == v % 128 + 128 * (v / 128));
    }
}

/// Reading a 32-bit varint gives back what writing it wrote.
pub proof fn lemma_read_varint32_of_written(v: u32, rest: Seq<u8>)
    ensures
        read_varint32_spec(varint_bytes(v as u64) + rest) == Some(
            (v, varint_bytes(v as u64).len()),
        ),
{
    lemma_varint_bytes_len_at_most_10(v as u64);
    lemma_varint_extent(v as u64, rest, 10);
}

/// Reading a length-delimited field gives back the bytes that were written.
pub proof fn lemma_read_bytes_of_written(d: Seq<u8>, rest: Seq<u8>)
    requires
        d.len() < 0x1_0000_0000,
    ensures
        read_bytes_spec(len_delimited_bytes(d) + rest) == Some(
            (d, len_delimited_bytes(d).len()),
        ),
{
    let vb = varint_bytes(d.len() as u64);
    let s = len_delimited_bytes(d) + rest;
    assert(s =~= vb + (d + rest));
    lemma_read_varint32_of_written(d.len() as u32, d + rest);
    assert(s.subrange(vb.len() as int, (vb.len() + d.len()) as int) =~= d);
}


/// A varint found within `max` bytes takes at least one byte and no more
/// than `s` or `max` hold.
pub proof fn lemma_varint_extent_bounds(s: Seq<u8>, max: nat)
    ensures
        varint_extent(s, max) matches Some(n) ==> 1 <= n <= s.len() && n <= max,
    decreases max,
{
    if max > 0 && s.len() > 0 && s[0] >= 128 {
        lemma_varint_extent_bounds(s.drop_first(), (max - 1) as nat);
    }
}

/// Every successful read of the wire format takes at least one byte and no
/// more than there are.
pub proof fn lemma_read_bounds(s: Seq<u8>, tag: u32)
    ensures
        read_varint32_spec(s) matches Some((v, n)) ==> 1 <= n <= s.len(),
        read_bytes_spec(s) matches Some((d, n)) ==> 1 <= n <= s.len(),
        skip_unknown_spec(s, tag) matches Some(n) ==> 1 <= n <= s.len(),
{
    lemma_varint_extent_bounds(s, 10);
}

// ---------------------------------------------------------------------------
// Errors.

/// An error of the protobuf reader or writer.
#[derive(Debug)]
pub enum WireError {
    /// quick_protobuf refused the bytes or the output.
    Protobuf(quick_protobuf::Error),
    /// A length-delimited field announces more bytes than the address space
    /// holds (only possible where `usize` has 32 bits).
    LengthOverflow,
}

/// Reads a length-delimited field from the start of `bytes`: the bytes that
/// follow a 32-bit varint length, and the number of bytes left unread. A
/// length that would carry the reader's position past `usize::MAX` is
/// refused before quick_protobuf is asked to read the field.
pub(crate) fn read_len_delimited<'a>(bytes: &'a [u8]) -> (r: Result<(&'a [u8], usize), WireError>)
    ensures
        match r {
            Ok((d, left)) => left <= bytes@.len() && read_bytes_spec(bytes@) == Some(
                (d@, (bytes@.len() - left) as nat),
            ),
            Err(_) => read_bytes_spec(bytes@) is None,
        },
{
    match pb_read_uint32(bytes) {
        Err(e) => Err(WireError::Protobuf(e)),
        Ok((len, left)) => {
            let n = bytes.len() - left;
            if len as usize > usize::MAX - n {
                Err(WireError::LengthOverflow)
            } else {
                match pb_read_bytes(bytes) {
                    Ok(x) => Ok(x),
                    Err(e) => Err(WireError::Protobuf(e)),
                }
            }
        },
    }
}

// ---------------------------------------------------------------------------
// quick_protobuf, called on a reader set at the start of a slice and on a
// writer over a `Vec<u8>`.

/// Calls `BytesReader::next_tag` on a reader over `bytes`, and returns the
/// tag with the number of bytes left unread (`BytesReader::len`). The tag is
/// read as a 32-bit varint (`read_varint32`): claimed to be what
/// `read_varint32_spec` gives, and to fail exactly where it gives nothing.
#[verifier::external_body]
pub(crate) fn pb_next_tag(bytes: &[u8]) -> (r: Result<(u32, usize), quick_protobuf::Error>)
    ensures
        match r {
            Ok((tag, left)) => left <= bytes@.len() && read_varint32_spec(bytes@) == Some(
                (tag, (bytes@.len() - left) as nat),
            ),
            Err(_) => read_varint32_spec(bytes@) is None,
        },
{
    let mut reader = BytesReader::from_bytes(bytes);
    let tag = reader.next_tag(bytes)?;
    Ok((tag, reader.len()))
}

/// Calls `BytesReader::read_uint32` on a reader over `bytes`, and returns
/// the value with the number of bytes left unread. quick_protobuf reads it
/// with `read_varint32`: claimed as for `pb_next_tag`.
#[verifier::external_body]
pub(crate) fn pb_read_uint32(bytes: &[u8]) -> (r: Result<(u32, usize), quick_protobuf::Error>)
    ensures
        match r {
            Ok((v, left)) => left <= bytes@.len() && read_varint32_spec(bytes@) == Some(
                (v, (bytes@.len() - left) as nat),
            ),
            Err(_) => read_varint32_spec(bytes@) is None,
        },
{
    let mut reader = BytesReader::from_bytes(bytes);
    let v = reader.read_uint32(bytes)?;
    Ok((v, reader.len()))
}

/// Calls `BytesReader::read_bytes` on a reader over `bytes`, and returns the
/// field's bytes with the number of bytes left unread. Claimed: a 32-bit
/// varint length, then that many bytes, as `read_bytes_spec` says; it fails
/// exactly where that spec gives nothing. quick_protobuf sets the field's
/// end to the position after the length plus the length, which overflows
/// (and panics with overflow checks) when that sum passes `usize::MAX`:
/// such inputs are left out.
#[verifier::external_body]
pub(crate) fn pb_read_bytes<'a>(bytes: &'a [u8]) -> (r: Result<(&'a [u8], usize), quick_protobuf::Error>)
    requires
        read_varint32_spec(bytes@) matches Some((len, n)) ==> n + len <= usize::MAX,
    ensures
        match r {
            Ok((d, left)) => left <= bytes@.len() && read_bytes_spec(bytes@) == Some(
                (d@, (bytes@.len() - left) as nat),
            ),
            Err(_) => read_bytes_spec(bytes@) is None,
        },
{
    let mut reader = BytesReader::from_bytes(bytes);
    let d = reader.read_bytes(bytes)?;
    Ok((d, reader.len()))
}

/// Calls `BytesReader::read_unknown` on a reader over `bytes` for a field
/// with tag `tag`, and returns the number of bytes left unread. Claimed:
/// the field takes the bytes that `skip_unknown_spec` counts, and the call
/// fails exactly where that spec gives nothing.
#[verifier::external_body]
pub(crate) fn pb_skip_unknown(bytes: &[u8], tag: u32) -> (r: Result<usize, quick_protobuf::Error>)
    ensures
        match r {
            Ok(left) => left <= bytes@.len() && skip_unknown_spec(bytes@, tag) == Some(
                (bytes@.len() - left) as nat,
            ),
            Err(_) => skip_unknown_spec(bytes@, tag) is None,
        },
{
    let mut reader = BytesReader::from_bytes(bytes);
    reader.read_unknown(bytes, tag)?;
    Ok(reader.len())
}

/// Calls `Writer::write_u8` on a writer over `out`. Claimed: the byte is
/// appended, and writing into a `Vec` does not fail.
#[verifier::external_body]
pub(crate) fn pb_write_u8(out: &mut Vec<u8>, byte: u8) -> (r: Result<(), quick_protobuf::Error>)
    ensures
        r is Ok,
        final(out)@ == old(out)@.push(byte),
{
    Writer::new(out).write_u8(byte)
}

/// Calls `Writer::write_tag` on a writer over `out`. Claimed: the tag is
/// appended as a varint, and writing into a `Vec` does not fail.
#[verifier::external_body]
pub(crate) fn pb_write_tag(out: &mut Vec<u8>, tag: u32) -> (r: Result<(), quick_protobuf::Error>)
    ensures
        r is Ok,
        final(out)@ == old(out)@ + varint_bytes(tag as u64),
{
    Writer::new(out).write_tag(tag)
}

/// Calls `Writer::write_uint32` on a writer over `out`. Claimed: the value
/// is appended as a varint, and writing into a `Vec` does not fail.
#[verifier::external_body]
pub(crate) fn pb_write_uint32(out: &mut Vec<u8>, v: u32) -> (r: Result<(), quick_protobuf::Error>)
    ensures
        r is Ok,
        final(out)@ == old(out)@ + varint_bytes(v as u64),
{
    Writer::new(out).write_uint32(v)
}

/// Calls `Writer::write_varint` on a writer over `out`. Claimed: the value
/// is appended as a varint, and writing into a `Vec` does not fail.
#[verifier::external_body]
pub(crate) fn pb_write_varint(out: &mut Vec<u8>, v: u64) -> (r: Result<(), quick_protobuf::Error>)
    ensures
        r is Ok,
        final(out)@ == old(out)@ + varint_bytes(v),
{
    Writer::new(out).write_varint(v)
}

/// Calls `Writer::write_bytes` on a writer over `out`. Claimed: the length
/// as a varint, then the bytes, are appended, and writing into a `Vec` does
/// not fail.
#[verifier::external_body]
pub(crate) fn pb_write_bytes(out: &mut Vec<u8>, bytes: &[u8]) -> (r: Result<(), quick_protobuf::Error>)
    ensures
        r is Ok,
        final(out)@ == old(out)@ + len_delimited_bytes(bytes@),
{
    Writer::new(out).write_bytes(bytes)
}

/// Calls `quick_protobuf::sizeofs::sizeof_varint`. Claimed: the number of
/// bytes of the varint of `v`.
#[verifier::external_body]
pub(crate) fn pb_sizeof_varint(v: u64) -> (n: usize)
    ensures
        n == varint_bytes(v).len(),
{
    sizeof_varint(v)
}

/// Calls `quick_protobuf::sizeofs::sizeof_len`. Claimed: the number of bytes
/// of a length-delimited field of `len` bytes. The sum must fit in `usize`.
#[verifier::external_body]
pub(crate) fn pb_sizeof_len(len: usize) -> (n: usize)
    requires
        len + varint_bytes(len as u64).len() <= usize::MAX,
    ensures
        n == varint_bytes(len as u64).len() + len,
{
    sizeof_len(len)
}

} // verus!
