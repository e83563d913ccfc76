//! Little-endian encoding of the integers that make up an IID datagram.
//!
//! The byte order itself is delegated to `byteorder`; this module states what
//! those calls compute and builds the datagram layouts on top of them.
use byteorder::{ByteOrder, LittleEndian};
use vstd::prelude::*;

verus! {

/// Number of bytes of an encoded `i32`.
pub const I32_LEN: usize = 4;

/// Number of bytes of an encoded `u64`.
pub const U64_LEN: usize = 8;

/// The unsigned value of the four little-endian bytes `b[0..4]`.
pub open spec fn le_u32_value(b: Seq<u8>) -> int {
    b[0] + 0x100 * b[1] + 0x1_0000 * b[2] + 0x100_0000 * b[3]
}

/// The two's-complement value of the four little-endian bytes `b[0..4]`.
pub open spec fn le_i32_value(b: Seq<u8>) -> int {
    let u = le_u32_value(b);
    if u < 0x8000_0000 {
        u
    } else {
        u - 0x1_0000_0000
    }
}

/// The unsigned value of the eight little-endian bytes `b[0..8]`.
pub open spec fn le_u64_value(b: Seq<u8>) -> int {
    le_u32_value(b) + 0x1_0000_0000 * le_u32_value(b.subrange(4, 8))
}

/// The four little-endian bytes of a natural number below `2^32`.
pub open spec fn le_bytes_u32(u: int) -> Seq<u8> {
    seq![
        (u % 0x100) as u8,
        ((u / 0x100) % 0x100) as u8,
        ((u / 0x1_0000) % 0x100) as u8,
        ((u / 0x100_0000) % 0x100) as u8,
    ]
}

/// The four little-endian bytes of `v` in two's complement.
pub open spec fn le_bytes_i32(v: i32) -> Seq<u8> {
    if v >= 0 {
        le_bytes_u32(v as int)
    } else {
        le_bytes_u32(v + 0x1_0000_0000)
    }
}

/// The eight little-endian bytes of `d`.
pub open spec fn le_bytes_u64(d: u64) -> Seq<u8> {
    le_bytes_u32((d % 0x1_0000_0000) as int) + le_bytes_u32((d / 0x1_0000_0000) as int)
}

/// The `i32` stored little-endian at `b[at..at + 4]`.
pub open spec fn i32_at(b: Seq<u8>, at: int) -> i32 {
    le_i32_value(b.subrange(at, at + 4)) as i32
}

/// The `u64` stored little-endian at `b[at..at + 8]`.
pub open spec fn u64_at(b: Seq<u8>, at: int) -> u64 {
    le_u64_value(b.subrange(at, at + 8)) as u64
}

/// Calls `byteorder`'s `LittleEndian::read_i32` on `buf[at..]`: the `i32`
/// whose little-endian bytes are `buf[at..at + 4]`. The function panics on
/// fewer than four bytes, which `requires` rules out.
#[verifier::external_body]
pub(crate) fn read_i32_le(buf: &[u8], at: usize) -> (r: i32)
    requires
        at + 4 <= buf@.len(),
    ensures
        r as int == le_i32_value(buf@.subrange(at as int, at + 4)),
{
    LittleEndian::read_i32(&buf[at..])
}

/// Calls `byteorder`'s `LittleEndian::read_u64` on `buf[at..]`: the `u64`
/// whose little-endian bytes are `buf[at..at + 8]`. The function panics on
/// fewer than eight bytes, which `requires` rules out.
#[verifier::external_body]
pub(crate) fn read_u64_le(buf: &[u8], at: usize) -> (r: u64)
    requires
        at + 8 <= buf@.len(),
    ensures
        r as int == le_u64_value(buf@.subrange(at as int, at + 8)),
{
    LittleEndian::read_u64(&buf[at..])
}

/// Calls `byteorder`'s `LittleEndian::write_i32` on a four-byte buffer, which
/// it fills with the little-endian two's-complement bytes of `n`.
#[verifier::external_body]
fn write_i32_le(n: i32) -> (r: [u8; 4])
    ensures
        r@ == le_bytes_i32(n),
{
    let mut buf = [0u8; 4];
    LittleEndian::write_i32(&mut buf, n);
    buf
}

/// Calls `byteorder`'s `LittleEndian::write_u64` on an eight-byte buffer,
/// which it fills with the little-endian bytes of `n`.
#[verifier::external_body]
fn write_u64_le(n: u64) -> (r: [u8; 8])
    ensures
        r@ == le_bytes_u64(n),
{
    let mut buf = [0u8; 8];
    LittleEndian::write_u64(&mut buf, n);
    buf
}

/// The datagram of an integer: its four little-endian bytes.
pub open spec fn integer_bytes(value: i32) -> Seq<u8> {
    le_bytes_i32(value)
}

/// The datagram of an index and an integer: eight bytes, index first.
pub open spec fn index_integer_bytes(index: i32, value: i32) -> Seq<u8> {
    le_bytes_i32(index) + le_bytes_i32(value)
}

/// The datagram of an integer and a date: twelve bytes, integer first.
pub open spec fn integer_date_bytes(value: i32, date: u64) -> Seq<u8> {
    le_bytes_i32(value) + le_bytes_u64(date)
}

/// The datagram of an index, an integer and a date: sixteen bytes in that order.
pub open spec fn index_integer_date_bytes(index: i32, value: i32, date: u64) -> Seq<u8> {
    le_bytes_i32(index) + le_bytes_i32(value) + le_bytes_u64(date)
}

/// Appends the four little-endian bytes of `n` to `out`.
pub fn push_i32_le(out: &mut Vec<u8>, n: i32)
    ensures
        final(out)@ == old(out)@ + le_bytes_i32(n),
{
    let b = write_i32_le(n);
    out.push(b[0]);
    out.push(b[1]);
    out.push(b[2]);
    out.push(b[3]);
    assert(final(out)@ =~= old(out)@ + le_bytes_i32(n));
}

/// Appends the eight little-endian bytes of `n` to `out`.
pub fn push_u64_le(out: &mut Vec<u8>, n: u64)
    ensures
        final(out)@ == old(out)@ + le_bytes_u64(n),
{
    let b = write_u64_le(n);
    let mut i: usize = 0;
    while i < 8
        invariant
            i <= 8,
            b@ == le_bytes_u64(n),
            out@ == old(out)@ + b@.take(i as int),
        decreases 8 - i,
    {
        out.push(b[i]);
        i = i + 1;
        assert(out@ =~= old(out)@ + b@.take(i as int));
    }
    assert(b@.take(8) =~= b@);
}

/// Reading back the four bytes written for `v` gives `v`.
pub proof fn lemma_i32_bytes_read_back(v: i32)
    ensures
        le_bytes_i32(v).len() == 4,
        le_i32_value(le_bytes_i32(v)) == v,
{
    let u: int = if v >= 0 { v as int } else { v + 0x1_0000_0000 };
    assert(0 <= u < 0x1_0000_0000);
    lemma_u32_bytes_read_back(u);
}

/// Reading back the four bytes written for `u < 2^32` gives `u`.
pub proof fn lemma_u32_bytes_read_back(u: int)
    requires
        0 <= u < 0x1_0000_0000,
    ensures
        le_bytes_u32(u).len() == 4,
        le_u32_value(le_bytes_u32(u)) == u,
{
    let b = le_bytes_u32(u);
    assert(b[0] == u % 0x100);
    assert(b[1] == (u / 0x100) % 0x100);
    assert(b[2] == (u / 0x1_0000) % 0x100);
    assert(b[3] == (u / 0x100_0000) % 0x100);
    assert(u % 0x100 + 0x100 * ((u / 0x100) % 0x100) + 0x1_0000 * ((u / 0x1_0000) % 0x100)
        + 0x100_0000 * ((u / 0x100_0000) % 0x100) == u) by (nonlinear_arith)
        requires
            0 <= u < 0x1_0000_0000,
    ;
}

/// Writing the value of four bytes gives back those bytes.
pub proof fn lemma_u32_value_written_back(b: Seq<u8>)
    requires
        b.len() == 4,
    ensures
        0 <= le_u32_value(b) < 0x1_0000_0000,
        le_bytes_u32(le_u32_value(b)) == b,
{
    let u = le_u32_value(b);
    let (b0, b1, b2, b3) = (b[0] as int, b[1] as int, b[2] as int, b[3] as int);
    assert(u % 0x100 == b0 && (u / 0x100) % 0x100 == b1 && (u / 0x1_0000) % 0x100 == b2
        && (u / 0x100_0000) % 0x100 == b3) by (nonlinear_arith)
        requires
            u == b0 + 0x100 * b1 + 0x1_0000 * b2 + 0x100_0000 * b3,
            0 <= b0 < 0x100,
            0 <= b1 < 0x100,
            0 <= b2 < 0x100,
            0 <= b3 < 0x100,
    ;
    assert(le_bytes_u32(u) =~= b);
}

/// Writing the two's-complement value of four bytes gives back those bytes.
pub proof fn lemma_i32_value_written_back(b: Seq<u8>)
    requires
        b.len() == 4,
    ensures
        i32::MIN <= le_i32_value(b) <= i32::MAX,
        le_bytes_i32(le_i32_value(b) as i32) == b,
{
    lemma_u32_value_written_back(b);
}

/// Reading back the eight bytes written for `d` gives `d`.
pub proof fn lemma_u64_bytes_read_back(d: u64)
    ensures
        le_bytes_u64(d).len() == 8,
        le_u64_value(le_bytes_u64(d)) == d,
{
    let lo = (d % 0x1_0000_0000) as int;
    let hi = (d / 0x1_0000_0000) as int;
    lemma_u32_bytes_read_back(lo);
    lemma_u32_bytes_read_back(hi);
    let b = le_bytes_u64(d);
    assert(b.subrange(4, 8) =~= le_bytes_u32(hi));
    assert(b.subrange(0, 4) =~= le_bytes_u32(lo));
    assert(le_u32_value(b) == le_u32_value(b.subrange(0, 4)));
    assert(lo + 0x1_0000_0000 * hi == d) by (nonlinear_arith)
        requires
            lo == d % 0x1_0000_0000,
            hi == d / 0x1_0000_0000,
    ;
}

/// Writing the value of eight bytes gives back those bytes.
pub proof fn lemma_u64_value_written_back(b: Seq<u8>)
    requires
        b.len() == 8,
    ensures
        0 <= le_u64_value(b) <= u64::MAX,
        le_bytes_u64(le_u64_value(b) as u64) == b,
{
    let lo_b = b.subrange(0, 4);
    let hi_b = b.subrange(4, 8);
    lemma_u32_value_written_back(lo_b);
    lemma_u32_value_written_back(hi_b);
    let lo = le_u32_value(lo_b);
    let hi = le_u32_value(hi_b);
    assert(le_u32_value(b) == lo);
    let d = lo + 0x1_0000_0000 * hi;
    assert(0 <= d <= u64::MAX && d % 0x1_0000_0000 == lo && d / 0x1_0000_0000 == hi)
        by (nonlinear_arith)
        requires
            d == lo + 0x1_0000_0000 * hi,
            0 <= lo < 0x1_0000_0000,
            0 <= hi < 0x1_0000_0000,
    ;
    assert(le_bytes_u64(d as u64) =~= lo_b + hi_b);
    assert(lo_b + hi_b =~= b);
}

/// Decoding the datagram of an integer gives the integer back; the
/// datagram is four bytes long.
pub proof fn lemma_integer_round_trip(value: i32)
    ensures
        integer_bytes(value).len() == 4,
        i32_at(integer_bytes(value), 0) == value,
{
    lemma_i32_bytes_read_back(value);
    assert(integer_bytes(value).subrange(0, 4) =~= integer_bytes(value));
}

/// Decoding the datagram of an index and an integer gives both back; the
/// datagram is eight bytes long.
pub proof fn lemma_index_integer_round_trip(index: i32, value: i32)
    ensures
        index_integer_bytes(index, value).len() == 8,
        i32_at(index_integer_bytes(index, value), 0) == index,
        i32_at(index_integer_bytes(index, value), 4) == value,
{
    let b = index_integer_bytes(index, value);
    lemma_i32_bytes_read_back(index);
    lemma_i32_bytes_read_back(value);
    assert(b.subrange(0, 4) =~= le_bytes_i32(index));
    assert(b.subrange(4, 8) =~= le_bytes_i32(value));
}

/// Decoding the datagram of an integer and a date gives both back; the
/// datagram is twelve bytes long.
pub proof fn lemma_integer_date_round_trip(value: i32, date: u64)
    ensures
        integer_date_bytes(value, date).len() == 12,
        i32_at(integer_date_bytes(value, date), 0) == value,
        u64_at(integer_date_bytes(value, date), 4) == date,
{
    let b = integer_date_bytes(value, date);
    lemma_i32_bytes_read_back(value);
    lemma_u64_bytes_read_back(date);
    assert(b.subrange(0, 4) =~= le_bytes_i32(value));
    assert(b.subrange(4, 12) =~= le_bytes_u64(date));
}

/// Decoding the datagram of an index, an integer and a date gives all three
/// back; the datagram is sixteen bytes long.
pub proof fn lemma_index_integer_date_round_trip(index: i32, value: i32, date: u64)
    ensures
        index_integer_date_bytes(index, value, date).len() == 16,
        i32_at(index_integer_date_bytes(index, value, date), 0) == index,
        i32_at(index_integer_date_bytes(index, value, date), 4) == value,
        u64_at(index_integer_date_bytes(index, value, date), 8) == date,
{
    let b = index_integer_date_bytes(index, value, date);
    lemma_i32_bytes_read_back(index);
    lemma_i32_bytes_read_back(value);
    lemma_u64_bytes_read_back(date);
    assert(b.subrange(0, 4) =~= le_bytes_i32(index));
    assert(b.subrange(4, 8) =~= le_bytes_i32(value));
    assert(b.subrange(8, 16) =~= le_bytes_u64(date));
}

/// Encoding what was decoded from four bytes gives those bytes back.
pub proof fn lemma_integer_bytes_determined(b: Seq<u8>)
    requires
        b.len() == 4,
    ensures
        integer_bytes(i32_at(b, 0)) == b,
{
    assert(b.subrange(0, 4) =~= b);
    lemma_i32_value_written_back(b);
}

/// Encoding what was decoded from eight bytes gives those bytes back.
pub proof fn lemma_index_integer_bytes_determined(b: Seq<u8>)
    requires
        b.len() == 8,
    ensures
        index_integer_bytes(i32_at(b, 0), i32_at(b, 4)) == b,
{
    lemma_i32_value_written_back(b.subrange(0, 4));
    lemma_i32_value_written_back(b.subrange(4, 8));
    assert(b.subrange(0, 4) + b.subrange(4, 8) =~= b);
}

/// Encoding what was decoded from twelve bytes gives those bytes back.
pub proof fn lemma_integer_date_bytes_determined(b: Seq<u8>)
    requires
        b.len() == 12,
    ensures
        integer_date_bytes(i32_at(b, 0), u64_at(b, 4)) == b,
{
    lemma_i32_value_written_back(b.subrange(0, 4));
    lemma_u64_value_written_back(b.subrange(4, 12));
    assert(b.subrange(0, 4) + b.subrange(4, 12) =~= b);
}

/// Encoding what was decoded from sixteen bytes gives those bytes back.
pub proof fn lemma_index_integer_date_bytes_determined(b: Seq<u8>)
    requires
        b.len() == 16,
    ensures
        index_integer_date_bytes(i32_at(b, 0), i32_at(b, 4), u64_at(b, 8)) == b,
{
    lemma_i32_value_written_back(b.subrange(0, 4));
    lemma_i32_value_written_back(b.subrange(4, 8));
    lemma_u64_value_written_back(b.subrange(8, 16));
    assert(b.subrange(0, 4) + b.subrange(4, 8) + b.subrange(8, 16) =~= b);
}

} // verus!
