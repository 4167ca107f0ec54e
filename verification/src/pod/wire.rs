//! The byte level of the pod format: integers in a given byte order, the
//! 8-byte pod header, and padding to the 8-byte boundary.

use vstd::prelude::*;
use vstd::slice::slice_subrange;

verus! {

/// The order in which the bytes of an integer stand on the wire.
///
/// Pods are exchanged between processes of one machine, so the format uses
/// the machine's own order, which [`ByteOrder::native`] finds out. Everything
/// else in this crate takes the order as a value, and is specified for both.
#[derive(Debug, Copy, Clone, Eq, PartialEq, Structural)]
pub enum ByteOrder {
    /// Least significant byte first.
    Little,
    /// Most significant byte first.
    Big,
}

/// The four bytes of `x`, least significant first.
#[verifier::opaque]
pub open spec fn spec_u32_le(x: u32) -> Seq<u8> {
    seq![
        (x % 256) as u8,
        (x / 256 % 256) as u8,
        (x / 65536 % 256) as u8,
        (x / 16777216 % 256) as u8,
    ]
}

/// The four bytes of `x` in the given order.
#[verifier::opaque]
pub open spec fn spec_u32_bytes(order: ByteOrder, x: u32) -> Seq<u8> {
    let le = spec_u32_le(x);
    match order {
        ByteOrder::Little => le,
        ByteOrder::Big => seq![le[3], le[2], le[1], le[0]],
    }
}

/// The integer made of four bytes, given least significant first.
#[verifier::opaque]
pub open spec fn spec_u32_of(b0: u8, b1: u8, b2: u8, b3: u8) -> u32 {
    (b0 + 256 * b1 + 65536 * b2 + 16777216 * b3) as u32
}

/// The integer that the first four bytes of `s` hold in the given order.
#[verifier::opaque]
pub open spec fn spec_u32_from_bytes(order: ByteOrder, s: Seq<u8>) -> u32
    recommends
        s.len() >= 4,
{
    match order {
        ByteOrder::Little => spec_u32_of(s[0], s[1], s[2], s[3]),
        ByteOrder::Big => spec_u32_of(s[3], s[2], s[1], s[0]),
    }
}

/// The eight bytes of `x`, least significant first: the four of its low
/// half, then the four of its high half.
#[verifier::opaque]
pub open spec fn spec_u64_le(x: u64) -> Seq<u8> {
    spec_u32_le((x % 0x1_0000_0000) as u32) + spec_u32_le((x / 0x1_0000_0000) as u32)
}

/// The eight bytes of `x` in the given order.
#[verifier::opaque]
pub open spec fn spec_u64_bytes(order: ByteOrder, x: u64) -> Seq<u8> {
    let le = spec_u64_le(x);
    match order {
        ByteOrder::Little => le,
        ByteOrder::Big => seq![le[7], le[6], le[5], le[4], le[3], le[2], le[1], le[0]],
    }
}

/// The integer made of eight bytes, given least significant first.
#[verifier::opaque]
pub open spec fn spec_u64_of(
    b0: u8,
    b1: u8,
    b2: u8,
    b3: u8,
    b4: u8,
    b5: u8,
    b6: u8,
    b7: u8,
) -> u64 {
    (spec_u32_of(b0, b1, b2, b3) + 0x1_0000_0000 * spec_u32_of(b4, b5, b6, b7)) as u64
}

/// The integer that the first eight bytes of `s` hold in the given order.
#[verifier::opaque]
pub open spec fn spec_u64_from_bytes(order: ByteOrder, s: Seq<u8>) -> u64
    recommends
        s.len() >= 8,
{
    match order {
        ByteOrder::Little => spec_u64_of(s[0], s[1], s[2], s[3], s[4], s[5], s[6], s[7]),
        ByteOrder::Big => spec_u64_of(s[7], s[6], s[5], s[4], s[3], s[2], s[1], s[0]),
    }
}

/// A signed 32-bit integer as the unsigned one with the same bits (two's complement).
pub open spec fn spec_i32_bits(x: i32) -> u32 {
    if x >= 0 {
        x as u32
    } else {
        (x + 0x1_0000_0000) as u32
    }
}

/// The signed 32-bit integer whose bits are those of `u`.
pub open spec fn spec_i32_from_bits(u: u32) -> i32 {
    if u < 0x8000_0000 {
        u as i32
    } else {
        (u - 0x1_0000_0000) as i32
    }
}

/// A signed 64-bit integer as the unsigned one with the same bits (two's complement).
pub open spec fn spec_i64_bits(x: i64) -> u64 {
    if x >= 0 {
        x as u64
    } else {
        (x + 0x1_0000_0000_0000_0000) as u64
    }
}

/// The signed 64-bit integer whose bits are those of `u`.
pub open spec fn spec_i64_from_bits(u: u64) -> i64 {
    if u < 0x8000_0000_0000_0000 {
        u as i64
    } else {
        (u - 0x1_0000_0000_0000_0000) as i64
    }
}

/// Number of zero bytes that follow a body of `size` bytes.
pub open spec fn spec_padding(size: nat) -> nat {
    ((8 - size % 8) % 8) as nat
}

/// `n` zero bytes.
pub open spec fn spec_zeros(n: nat) -> Seq<u8> {
    Seq::new(n, |i: int| 0u8)
}

/// The header of a pod: body size, then type.
pub open spec fn spec_header(order: ByteOrder, size: u32, type_: u32) -> Seq<u8> {
    spec_u32_bytes(order, size) + spec_u32_bytes(order, type_)
}

/// A whole pod: header, body, and zero padding to the 8-byte boundary.
pub open spec fn spec_pod(order: ByteOrder, type_: u32, body: Seq<u8>) -> Seq<u8> {
    spec_header(order, body.len() as u32, type_) + body + spec_zeros(spec_padding(body.len()))
}

/// The four bytes of a 32-bit integer, least significant first, make that
/// integer again.
proof fn lemma_u32_le(x: u32)
    ensures
        spec_u32_le(x).len() == 4,
        spec_u32_of(spec_u32_le(x)[0], spec_u32_le(x)[1], spec_u32_le(x)[2], spec_u32_le(x)[3])
            == x,
{
    reveal(spec_u32_le);
    reveal(spec_u32_of);
    let b0 = x % 256;
    let b1 = x / 256 % 256;
    let b2 = x / 65536 % 256;
    let b3 = x / 16777216 % 256;
    assert(x == b0 + 256 * b1 + 65536 * b2 + 16777216 * b3);
}

/// The eight bytes of a 64-bit integer, least significant first, make that
/// integer again.
proof fn lemma_u64_le(x: u64)
    ensures
        spec_u64_le(x).len() == 8,
        spec_u64_of(
            spec_u64_le(x)[0],
            spec_u64_le(x)[1],
            spec_u64_le(x)[2],
            spec_u64_le(x)[3],
            spec_u64_le(x)[4],
            spec_u64_le(x)[5],
            spec_u64_le(x)[6],
            spec_u64_le(x)[7],
        ) == x,
{
    reveal(spec_u64_le);
    reveal(spec_u64_of);
    let lo = (x % 0x1_0000_0000) as u32;
    let hi = (x / 0x1_0000_0000) as u32;
    let le = spec_u64_le(x);
    let low = spec_u32_le(lo);
    let high = spec_u32_le(hi);
    lemma_u32_le(lo);
    lemma_u32_le(hi);
    assert(le == low + high);
    assert(le.len() == 8);
    assert(le[0] == low[0] && le[1] == low[1] && le[2] == low[2] && le[3] == low[3]);
    assert(le[4] == high[0] && le[5] == high[1] && le[6] == high[2] && le[7] == high[3]);
    assert(x == lo + 0x1_0000_0000 * hi);
}

/// Decoding undoes encoding, for 32-bit integers in either order.
pub proof fn lemma_u32_bytes(order: ByteOrder, x: u32)
    ensures
        spec_u32_bytes(order, x).len() == 4,
        spec_u32_from_bytes(order, spec_u32_bytes(order, x)) == x,
{
    reveal(spec_u32_bytes);
    reveal(spec_u32_from_bytes);
    lemma_u32_le(x);
}

/// Decoding undoes encoding, for 64-bit integers in either order.
pub proof fn lemma_u64_bytes(order: ByteOrder, x: u64)
    ensures
        spec_u64_bytes(order, x).len() == 8,
        spec_u64_from_bytes(order, spec_u64_bytes(order, x)) == x,
{
    reveal(spec_u64_bytes);
    reveal(spec_u64_from_bytes);
    lemma_u64_le(x);
}

/// The integer made of four bytes has these four as its bytes, least
/// significant first.
proof fn lemma_u32_of(b0: u8, b1: u8, b2: u8, b3: u8)
    ensures
        spec_u32_le(spec_u32_of(b0, b1, b2, b3)) == seq![b0, b1, b2, b3],
{
    reveal(spec_u32_le);
    reveal(spec_u32_of);
    let q2: int = b2 + 256 * b3;
    let q1: int = b1 + 256 * q2;
    let x: int = b0 + 256 * q1;
    assert(x == b0 + 256 * b1 + 65536 * b2 + 16777216 * b3);
    assert(x % 256 == b0 && x / 256 == q1);
    assert(q1 % 256 == b1 && q1 / 256 == q2);
    assert(q2 % 256 == b2 && q2 / 256 == b3);
    assert(x / 65536 == q2);
    assert(x / 16777216 == b3);
    assert(spec_u32_le(spec_u32_of(b0, b1, b2, b3)) =~= seq![b0, b1, b2, b3]);
}

/// Encoding undoes decoding, for four bytes in either order.
pub proof fn lemma_u32_read_back(order: ByteOrder, s: Seq<u8>)
    requires
        s.len() == 4,
    ensures
        spec_u32_bytes(order, spec_u32_from_bytes(order, s)) == s,
{
    reveal(spec_u32_bytes);
    reveal(spec_u32_from_bytes);
    match order {
        ByteOrder::Little => lemma_u32_of(s[0], s[1], s[2], s[3]),
        ByteOrder::Big => lemma_u32_of(s[3], s[2], s[1], s[0]),
    }
    assert(spec_u32_bytes(order, spec_u32_from_bytes(order, s)) =~= s);
}

/// The header that is made of the size and the type that stand at the front
/// of `bytes` is the first eight of them.
pub proof fn lemma_header_read_back(order: ByteOrder, bytes: Seq<u8>)
    requires
        bytes.len() >= 8,
    ensures
        spec_header(
            order,
            spec_u32_from_bytes(order, bytes),
            spec_u32_from_bytes(order, bytes.skip(4)),
        ) == bytes.take(8),
{
    lemma_u32_same(order, bytes, bytes.subrange(0, 4));
    lemma_u32_same(order, bytes.skip(4), bytes.subrange(4, 8));
    lemma_u32_read_back(order, bytes.subrange(0, 4));
    lemma_u32_read_back(order, bytes.subrange(4, 8));
    assert(bytes.subrange(0, 4) + bytes.subrange(4, 8) =~= bytes.take(8));
}

/// Signed integers survive the passage through their bits.
pub proof fn lemma_signed_bits(x: i32, y: i64)
    ensures
        spec_i32_from_bits(spec_i32_bits(x)) == x,
        spec_i64_from_bits(spec_i64_bits(y)) == y,
{
}

/// Only the first four bytes of a sequence matter when a 32-bit integer is
/// read from it.
pub proof fn lemma_u32_same(order: ByteOrder, s: Seq<u8>, t: Seq<u8>)
    requires
        s.len() >= 4,
        t.len() >= 4,
        forall|i: int| 0 <= i < 4 ==> s[i] == t[i],
    ensures
        spec_u32_from_bytes(order, s) == spec_u32_from_bytes(order, t),
{
    reveal(spec_u32_from_bytes);
}

/// Only the first eight bytes of a sequence matter when a 64-bit integer is
/// read from it.
pub proof fn lemma_u64_same(order: ByteOrder, s: Seq<u8>, t: Seq<u8>)
    requires
        s.len() >= 8,
        t.len() >= 8,
        forall|i: int| 0 <= i < 8 ==> s[i] == t[i],
    ensures
        spec_u64_from_bytes(order, s) == spec_u64_from_bytes(order, t),
{
    reveal(spec_u64_from_bytes);
}

/// Reading a 32-bit integer from a window of four bytes is reading it from
/// all that begins there.
pub proof fn lemma_u32_window(order: ByteOrder, s: Seq<u8>, at: int)
    requires
        0 <= at,
        at + 4 <= s.len(),
    ensures
        spec_u32_from_bytes(order, s.subrange(at, at + 4)) == spec_u32_from_bytes(
            order,
            s.skip(at),
        ),
{
    lemma_u32_same(order, s.subrange(at, at + 4), s.skip(at));
}

/// Reading a 64-bit integer from a window of eight bytes is reading it from
/// all that begins there.
pub proof fn lemma_u64_window(order: ByteOrder, s: Seq<u8>, at: int)
    requires
        0 <= at,
        at + 8 <= s.len(),
    ensures
        spec_u64_from_bytes(order, s.subrange(at, at + 8)) == spec_u64_from_bytes(
            order,
            s.skip(at),
        ),
{
    lemma_u64_same(order, s.subrange(at, at + 8), s.skip(at));
}

/// The bytes of `x` as this machine lays them out in memory.
///
/// Calls `u16::to_ne_bytes`. Which of the two orders comes back depends on
/// the machine, so the contract only says that it is one of them.
#[verifier::external_body]
fn u16_to_ne_bytes(x: u16) -> (r: [u8; 2])
    ensures
        (r@[0] == x % 256 && r@[1] == x / 256) || (r@[0] == x / 256 && r@[1] == x % 256),
{
    x.to_ne_bytes()
}

/// Reads a 32-bit integer from the front of `input`.
///
/// Calls `nom::number::complete::u32` with the given byte order: it fails
/// when fewer than four bytes are there, and otherwise combines the first
/// four, each weighted by its place.
#[verifier::external_body]
fn nom_u32(order: ByteOrder, input: &[u8]) -> (r: Option<u32>)
    ensures
        r is Some <==> input@.len() >= 4,
        r is Some ==> r->0 == spec_u32_from_bytes(order, input@),
{
    let endian = match order {
        ByteOrder::Little => nom::number::Endianness::Little,
        ByteOrder::Big => nom::number::Endianness::Big,
    };
    let parsed: nom::IResult<&[u8], u32> = nom::number::complete::u32(endian)(input);
    match parsed {
        Ok((_, value)) => Some(value),
        Err(_) => None,
    }
}

/// Reads a 64-bit integer from the front of `input`.
///
/// Calls `nom::number::complete::u64` with the given byte order: it fails
/// when fewer than eight bytes are there, and otherwise combines the first
/// eight, each weighted by its place.
#[verifier::external_body]
fn nom_u64(order: ByteOrder, input: &[u8]) -> (r: Option<u64>)
    ensures
        r is Some <==> input@.len() >= 8,
        r is Some ==> r->0 == spec_u64_from_bytes(order, input@),
{
    let endian = match order {
        ByteOrder::Little => nom::number::Endianness::Little,
        ByteOrder::Big => nom::number::Endianness::Big,
    };
    let parsed: nom::IResult<&[u8], u64> = nom::number::complete::u64(endian)(input);
    match parsed {
        Ok((_, value)) => Some(value),
        Err(_) => None,
    }
}

/// Appends the four bytes of `x` to `out`.
///
/// Calls `cookie_factory::gen_simple` on `cookie_factory::bytes::le_u32` or
/// `be_u32`, which write `x.to_le_bytes()` or `x.to_be_bytes()`. The sink is
/// a `Vec<u8>`, whose `Write` appends and does not fail.
#[verifier::external_body]
fn gen_u32(order: ByteOrder, x: u32, out: &mut Vec<u8>)
    ensures
        final(out)@ == old(out)@ + spec_u32_bytes(order, x),
{
    let _ = match order {
        ByteOrder::Little => cookie_factory::gen_simple(cookie_factory::bytes::le_u32(x), out),
        ByteOrder::Big => cookie_factory::gen_simple(cookie_factory::bytes::be_u32(x), out),
    };
}

/// Appends the eight bytes of `x` to `out`.
///
/// Calls `cookie_factory::gen_simple` on `cookie_factory::bytes::le_u64` or
/// `be_u64`, which write `x.to_le_bytes()` or `x.to_be_bytes()`. The sink is
/// a `Vec<u8>`, whose `Write` appends and does not fail.
#[verifier::external_body]
fn gen_u64(order: ByteOrder, x: u64, out: &mut Vec<u8>)
    ensures
        final(out)@ == old(out)@ + spec_u64_bytes(order, x),
{
    let _ = match order {
        ByteOrder::Little => cookie_factory::gen_simple(cookie_factory::bytes::le_u64(x), out),
        ByteOrder::Big => cookie_factory::gen_simple(cookie_factory::bytes::be_u64(x), out),
    };
}

impl ByteOrder {
    /// The byte order of a machine that lays out the integer 1 in two bytes
    /// as `layout`: the least significant byte comes first if the first
    /// byte is the 1.
    pub fn of_layout(layout: [u8; 2]) -> (order: ByteOrder)
        ensures
            order == if layout@[0] == 1 {
                ByteOrder::Little
            } else {
                ByteOrder::Big
            },
    {
        if layout[0] == 1 {
            ByteOrder::Little
        } else {
            ByteOrder::Big
        }
    }

    /// The byte order of the machine that runs this code.
    pub fn native() -> (order: ByteOrder) {
        Self::of_layout(u16_to_ne_bytes(1))
    }
}

/// The unsigned integer with the bits of `x`.
pub fn i32_bits(x: i32) -> (r: u32)
    ensures
        r == spec_i32_bits(x),
{
    if x >= 0 {
        x as u32
    } else {
        (x as i64 + 0x1_0000_0000i64) as u32
    }
}

/// The signed integer with the bits of `u`.
pub fn i32_from_bits(u: u32) -> (r: i32)
    ensures
        r == spec_i32_from_bits(u),
{
    if u < 0x8000_0000u32 {
        u as i32
    } else {
        (u as i64 - 0x1_0000_0000i64) as i32
    }
}

/// The unsigned integer with the bits of `x`.
pub fn i64_bits(x: i64) -> (r: u64)
    ensures
        r == spec_i64_bits(x),
{
    if x >= 0 {
        x as u64
    } else {
        (x as i128 + 0x1_0000_0000_0000_0000i128) as u64
    }
}

/// The signed integer with the bits of `u`.
pub fn i64_from_bits(u: u64) -> (r: i64)
    ensures
        r == spec_i64_from_bits(u),
{
    if u < 0x8000_0000_0000_0000u64 {
        u as i64
    } else {
        (u as i128 - 0x1_0000_0000_0000_0000i128) as i64
    }
}

/// Number of zero bytes that follow a body of `size` bytes.
pub fn padding(size: usize) -> (r: usize)
    ensures
        r == spec_padding(size as nat),
        r < 8,
        (size + r) % 8 == 0,
{
    (8 - size % 8) % 8
}

/// Reads the 32-bit integer that stands at `at` in `input`.
pub fn read_u32(order: ByteOrder, input: &[u8], at: usize) -> (r: u32)
    requires
        at + 4 <= input@.len(),
    ensures
        r == spec_u32_from_bytes(order, input@.subrange(at as int, at + 4)),
{
    let len = input.len();
    nom_u32(order, slice_subrange(input, at, at + 4)).unwrap()
}

/// Reads the 64-bit integer that stands at `at` in `input`.
pub fn read_u64(order: ByteOrder, input: &[u8], at: usize) -> (r: u64)
    requires
        at + 8 <= input@.len(),
    ensures
        r == spec_u64_from_bytes(order, input@.subrange(at as int, at + 8)),
{
    let len = input.len();
    nom_u64(order, slice_subrange(input, at, at + 8)).unwrap()
}

/// Appends the four bytes of `x` to `out`.
pub fn write_u32(order: ByteOrder, x: u32, out: &mut Vec<u8>)
    ensures
        final(out)@ == old(out)@ + spec_u32_bytes(order, x),
{
    gen_u32(order, x, out);
}

/// Appends the eight bytes of `x` to `out`.
pub fn write_u64(order: ByteOrder, x: u64, out: &mut Vec<u8>)
    ensures
        final(out)@ == old(out)@ + spec_u64_bytes(order, x),
{
    gen_u64(order, x, out);
}

} // verus!
