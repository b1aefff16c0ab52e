//! Reading and writing integers and text in message bodies, through the
//! `scroll` crate.
//!
//! The functions marked `external_body` are trusted: each says what it
//! claims of the `scroll` code it calls.
use vstd::prelude::*;
use vstd::string::StringSliceAdditionalSpecFns;

verus! {

/// The byte order integers are written in.
#[derive(Debug, Copy, Clone, PartialEq, Eq, Structural)]
pub enum Endian {
    Little,
    Big,
}

impl Endian {
    /// The byte order used on the network: big endian.
    pub fn network() -> (r: Endian)
        ensures
            r == Endian::Big,
    {
        Endian::Big
    }

    /// Is this little endian?
    pub fn is_little(&self) -> (r: bool)
        ensures
            r <==> *self == Endian::Little,
    {
        match self {
            Endian::Little => true,
            Endian::Big => false,
        }
    }
}

/// `scroll::Error`: why `scroll` could not read or write a value.
#[verifier::external_type_specification]
#[verifier::external_body]
pub struct ExScrollError(scroll::Error);

/// The `u16` held by two bytes in the given byte order.
pub open spec fn u16_from_bytes(b0: u8, b1: u8, endian: Endian) -> u16 {
    match endian {
        Endian::Big => ((b0 as u16) << 8u16) | (b1 as u16),
        Endian::Little => ((b1 as u16) << 8u16) | (b0 as u16),
    }
}

/// The `u32` held by four bytes in the given byte order.
pub open spec fn u32_from_bytes(b0: u8, b1: u8, b2: u8, b3: u8, endian: Endian) -> u32 {
    match endian {
        Endian::Big => ((b0 as u32) << 24u32) | ((b1 as u32) << 16u32) | ((b2 as u32) << 8u32) | (
        b3 as u32),
        Endian::Little => ((b3 as u32) << 24u32) | ((b2 as u32) << 16u32) | ((b1 as u32) << 8u32)
            | (b0 as u32),
    }
}

/// The `u32` held by the first four bytes of a sequence.
pub open spec fn u32_value(bytes: Seq<u8>, endian: Endian) -> u32 {
    u32_from_bytes(bytes[0], bytes[1], bytes[2], bytes[3], endian)
}

/// The `u16` held by the first two bytes of a sequence.
pub open spec fn u16_value(bytes: Seq<u8>, endian: Endian) -> u16 {
    u16_from_bytes(bytes[0], bytes[1], endian)
}

/// The four bytes of a `u32` in the given byte order.
pub open spec fn u32_bytes(value: u32, endian: Endian) -> Seq<u8> {
    let hi = (value >> 24u32) as u8;
    let mid_hi = (value >> 16u32) as u8;
    let mid_lo = (value >> 8u32) as u8;
    let lo = value as u8;
    match endian {
        Endian::Big => seq![hi, mid_hi, mid_lo, lo],
        Endian::Little => seq![lo, mid_lo, mid_hi, hi],
    }
}

/// Splitting a `u32` into bytes and reading them back gives the same value.
pub proof fn lemma_u32_round_trip(value: u32, endian: Endian)
    ensures
        u32_bytes(value, endian).len() == 4,
        u32_value(u32_bytes(value, endian), endian) == value,
{
    let b = u32_bytes(value, endian);
    assert(((((value >> 24u32) as u8) as u32) << 24u32) | ((((value >> 16u32) as u8) as u32)
        << 16u32) | ((((value >> 8u32) as u8) as u32) << 8u32) | ((value as u8) as u32) == value)
        by (bit_vector);
}

/// Calls `scroll`'s `TryFromCtx<Endian>` for `u16`: it fails exactly when
/// fewer than two bytes are given, and otherwise reads the first two.
#[verifier::external_body]
pub(crate) fn read_u16(src: &[u8], endian: Endian) -> (r: Result<(u16, usize), scroll::Error>)
    ensures
        r is Ok <==> src@.len() >= 2,
        r matches Ok((value, n)) ==> n == 2 && value == u16_value(src@, endian),
{
    let ctx = match endian {
        Endian::Little => scroll::Endian::Little,
        Endian::Big => scroll::Endian::Big,
    };
    <u16 as scroll::ctx::TryFromCtx<scroll::Endian>>::try_from_ctx(src, ctx)
}

/// Calls `scroll`'s `TryFromCtx<Endian>` for `u32`: it fails exactly when
/// fewer than four bytes are given, and otherwise reads the first four.
#[verifier::external_body]
pub(crate) fn read_u32(src: &[u8], endian: Endian) -> (r: Result<(u32, usize), scroll::Error>)
    ensures
        r is Ok <==> src@.len() >= 4,
        r matches Ok((value, n)) ==> n == 4 && value == u32_value(src@, endian),
{
    let ctx = match endian {
        Endian::Little => scroll::Endian::Little,
        Endian::Big => scroll::Endian::Big,
    };
    <u32 as scroll::ctx::TryFromCtx<scroll::Endian>>::try_from_ctx(src, ctx)
}

/// Calls `scroll`'s `TryFromCtx<StrCtx>` for `&str` with
/// `StrCtx::Length(src.len())`: the whole input is read as a string. It
/// fails exactly when the bytes are not valid UTF-8; the string it returns
/// is made of exactly those bytes.
#[verifier::external_body]
pub(crate) fn read_str(src: &[u8]) -> (r: Result<(&str, usize), scroll::Error>)
    ensures
        r is Ok <==> vstd::utf8::valid_utf8(src@),
        r matches Ok((text, n)) ==> n == src@.len() && text.spec_bytes() == src@,
{
    <&str as scroll::ctx::TryFromCtx<scroll::ctx::StrCtx>>::try_from_ctx(
        src,
        scroll::ctx::StrCtx::Length(src.len()),
    )
}

/// Calls `scroll`'s `TryIntoCtx<Endian>` for `u32`: it fails, writing
/// nothing, exactly when the buffer is shorter than four bytes, and
/// otherwise writes the value's bytes over the first four.
#[verifier::external_body]
pub(crate) fn write_u32(value: u32, dst: &mut [u8], endian: Endian) -> (r: Result<
    usize,
    scroll::Error,
>)
    ensures
        r is Ok <==> old(dst)@.len() >= 4,
        r is Err ==> final(dst)@ == old(dst)@,
        r matches Ok(n) ==> n == 4 && final(dst)@ == u32_bytes(value, endian) + old(dst)@.skip(4),
{
    let ctx = match endian {
        Endian::Little => scroll::Endian::Little,
        Endian::Big => scroll::Endian::Big,
    };
    <u32 as scroll::ctx::TryIntoCtx<scroll::Endian>>::try_into_ctx(value, dst, ctx)
}

/// Calls `scroll`'s `TryIntoCtx` for `&[u8]`: it fails, writing nothing,
/// exactly when the bytes do not fit in the buffer, and otherwise copies
/// them over its start.
#[verifier::external_body]
pub(crate) fn write_bytes(src: &[u8], dst: &mut [u8]) -> (r: Result<usize, scroll::Error>)
    ensures
        r is Ok <==> src@.len() <= old(dst)@.len(),
        r is Err ==> final(dst)@ == old(dst)@,
        r matches Ok(n) ==> n == src@.len() && final(dst)@ == src@ + old(dst)@.skip(
            n as int,
        ),
{
    <&[u8] as scroll::ctx::TryIntoCtx>::try_into_ctx(src, dst, ())
}

} // verus!
