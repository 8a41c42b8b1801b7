//! Big-endian decoders over a byte slice and a read position.
//!
//! Every reader takes the whole slice and a position and returns the value with the
//! position just past it, or [`ParseError::Truncated`] when the slice ends too early.
use vstd::prelude::*;

use crate::ParseError;

verus! {

/// The big-endian `u16` stored at `s[i..i + 2]`.
pub open spec fn be_u16_at(s: Seq<u8>, i: int) -> u16 {
    (s[i] as int * 0x100 + s[i + 1] as int) as u16
}

/// The big-endian `u32` stored at `s[i..i + 4]`.
pub open spec fn be_u32_at(s: Seq<u8>, i: int) -> u32 {
    (s[i] as int * 0x100_0000 + s[i + 1] as int * 0x1_0000 + s[i + 2] as int * 0x100
        + s[i + 3] as int) as u32
}

/// The big-endian `u64` stored at `s[i..i + 8]`.
pub open spec fn be_u64_at(s: Seq<u8>, i: int) -> u64 {
    (be_u32_at(s, i) as int * 0x1_0000_0000 + be_u32_at(s, i + 4) as int) as u64
}

/// Whether `n` bytes can be read at position `pos` of `s`.
pub open spec fn fits(s: Seq<u8>, pos: int, n: int) -> bool {
    0 <= pos && pos + n <= s.len()
}

pub fn read_u8(s: &[u8], pos: usize) -> (r: Result<(u8, usize), ParseError>)
    ensures
        match r {
            Ok((v, e)) => fits(s@, pos as int, 1) && v == s@[pos as int] && e == pos + 1,
            Err(err) => !fits(s@, pos as int, 1) && err == ParseError::Truncated,
        },
{
    if pos >= s.len() {
        return Err(ParseError::Truncated);
    }
    Ok((s[pos], pos + 1))
}

pub fn read_u16(s: &[u8], pos: usize) -> (r: Result<(u16, usize), ParseError>)
    ensures
        match r {
            Ok((v, e)) => fits(s@, pos as int, 2) && v == be_u16_at(s@, pos as int) && e == pos + 2,
            Err(err) => !fits(s@, pos as int, 2) && err == ParseError::Truncated,
        },
{
    if s.len() < 2 || pos > s.len() - 2 {
        return Err(ParseError::Truncated);
    }
    let v: u16 = (s[pos] as u16) * 0x100 + s[pos + 1] as u16;
    Ok((v, pos + 2))
}

pub fn read_u32(s: &[u8], pos: usize) -> (r: Result<(u32, usize), ParseError>)
    ensures
        match r {
            Ok((v, e)) => fits(s@, pos as int, 4) && v == be_u32_at(s@, pos as int) && e == pos + 4,
            Err(err) => !fits(s@, pos as int, 4) && err == ParseError::Truncated,
        },
{
    if s.len() < 4 || pos > s.len() - 4 {
        return Err(ParseError::Truncated);
    }
    let v: u32 = (s[pos] as u32) * 0x100_0000 + (s[pos + 1] as u32) * 0x1_0000
        + (s[pos + 2] as u32) * 0x100 + s[pos + 3] as u32;
    Ok((v, pos + 4))
}

pub fn read_u64(s: &[u8], pos: usize) -> (r: Result<(u64, usize), ParseError>)
    ensures
        match r {
            Ok((v, e)) => fits(s@, pos as int, 8) && v == be_u64_at(s@, pos as int) && e == pos + 8,
            Err(err) => !fits(s@, pos as int, 8) && err == ParseError::Truncated,
        },
{
    if s.len() < 8 || pos > s.len() - 8 {
        return Err(ParseError::Truncated);
    }
    let (hi, p) = read_u32(s, pos)?;
    let (lo, e) = read_u32(s, p)?;
    let v: u64 = (hi as u64) * 0x1_0000_0000 + lo as u64;
    Ok((v, e))
}

} // verus!
