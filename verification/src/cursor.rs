//! Bounds-checked big-endian reads at a moving offset.
//!
//! A cursor is a byte buffer and an offset into it. Each read takes the bytes
//! `[offset, offset + width)`, most significant byte first, and moves the
//! offset past them. A read that would pass the end of the buffer fails and
//! leaves the offset where it was.

use vstd::prelude::*;
use vstd::slice::slice_subrange;
use crate::error::DecodeError;
use crate::text::{decode_text, text_of};

verus! {

/// Whether `width` bytes starting at `at` lie inside `s`.
pub open spec fn available(s: Seq<u8>, at: int, width: int) -> bool {
    0 <= at && 0 <= width && at + width <= s.len()
}

/// Where the offset stands after an attempt to read `width` bytes at `at`.
pub open spec fn offset_after(at: int, width: int, done: bool) -> int {
    if done {
        at + width
    } else {
        at
    }
}

/// The two's-complement reading of an unsigned value below `2 * half`.
pub open spec fn signed(value: int, half: int) -> int {
    if value >= half {
        value - 2 * half
    } else {
        value
    }
}

/// The unsigned 16-bit big-endian value at `at`.
pub open spec fn be_u16(s: Seq<u8>, at: int) -> int {
    s[at] * 0x100 + s[at + 1]
}

/// The unsigned 32-bit big-endian value at `at`.
pub open spec fn be_u32(s: Seq<u8>, at: int) -> int {
    s[at] * 0x100_0000 + s[at + 1] * 0x1_0000 + s[at + 2] * 0x100 + s[at + 3]
}

/// The unsigned 64-bit big-endian value at `at`.
pub open spec fn be_u64(s: Seq<u8>, at: int) -> int {
    be_u32(s, at) * 0x1_0000_0000 + be_u32(s, at + 4)
}

/// The signed 8-bit value at `at`.
pub open spec fn be_i8(s: Seq<u8>, at: int) -> int {
    signed(s[at] as int, 0x80)
}

/// The signed 16-bit big-endian value at `at`.
pub open spec fn be_i16(s: Seq<u8>, at: int) -> int {
    signed(be_u16(s, at), 0x8000)
}

/// The signed 32-bit big-endian value at `at`.
pub open spec fn be_i32(s: Seq<u8>, at: int) -> int {
    signed(be_u32(s, at), 0x8000_0000)
}

/// The signed 64-bit big-endian value at `at`.
pub open spec fn be_i64(s: Seq<u8>, at: int) -> int {
    signed(be_u64(s, at), 0x8000_0000_0000_0000)
}

/// What a read of `width` bytes at `at` gives, where `value` is what the
/// bytes stand for.
pub open spec fn read<T>(s: Seq<u8>, at: int, width: int, value: T) -> Result<T, DecodeError> {
    if available(s, at, width) {
        Ok(value)
    } else {
        Err(DecodeError::UnexpectedEndOfData)
    }
}

/// What a read of a text region of `length` bytes at `at` gives.
pub open spec fn read_text(s: Seq<u8>, at: int, length: int) -> Result<Seq<char>, DecodeError> {
    if !available(s, at, length) {
        Err(DecodeError::UnexpectedEndOfData)
    } else {
        match text_of(s.subrange(at, at + length)) {
            Some(text) => Ok(text),
            None => Err(DecodeError::InvalidText),
        }
    }
}

/// The view of the outcome of a text read.
pub open spec fn text_result(r: Result<String, DecodeError>) -> Result<Seq<char>, DecodeError> {
    match r {
        Ok(text) => Ok(text@),
        Err(e) => Err(e),
    }
}

/// Whether `width` bytes can be taken at `offset`.
fn has_room(buff: &[u8], offset: usize, width: usize) -> (yes: bool)
    ensures
        yes == available(buff@, offset as int, width as int),
        yes ==> offset + width <= usize::MAX,
{
    offset <= buff.len() && width <= buff.len() - offset
}

/// Moves the offset forward by `length`, provided the skipped bytes exist.
pub fn advance(buff: &[u8], offset: &mut usize, length: usize) -> (r: Result<(), DecodeError>)
    ensures
        r == read(buff@, *old(offset) as int, length as int, ()),
        *final(offset) == offset_after(*old(offset) as int, length as int, r is Ok),
{
    if !has_room(buff, *offset, length) {
        return Err(DecodeError::UnexpectedEndOfData);
    }
    *offset = *offset + length;
    Ok(())
}

/// Places the offset at `to`, provided `to` is not past the end of the
/// buffer.
pub fn jump(buff: &[u8], offset: &mut usize, to: usize) -> (r: Result<(), DecodeError>)
    ensures
        r == read(buff@, to as int, 0, ()),
        *final(offset) == (if r is Ok {
            to
        } else {
            *old(offset)
        }),
{
    if to > buff.len() {
        return Err(DecodeError::UnexpectedEndOfData);
    }
    *offset = to;
    Ok(())
}

/// Reads one unsigned byte.
pub fn parse_u8(buff: &[u8], offset: &mut usize) -> (r: Result<u8, DecodeError>)
    ensures
        r == read(buff@, *old(offset) as int, 1, buff@[*old(offset) as int]),
        *final(offset) == offset_after(*old(offset) as int, 1, r is Ok),
{
    if !has_room(buff, *offset, 1) {
        return Err(DecodeError::UnexpectedEndOfData);
    }
    let value: u8 = buff[*offset];
    *offset = *offset + 1;
    Ok(value)
}

/// Reads one signed byte.
pub fn parse_i8(buff: &[u8], offset: &mut usize) -> (r: Result<i8, DecodeError>)
    ensures
        r == read(buff@, *old(offset) as int, 1, be_i8(buff@, *old(offset) as int) as i8),
        *final(offset) == offset_after(*old(offset) as int, 1, r is Ok),
{
    let raw: u8 = parse_u8(buff, offset)?;
    if raw >= 0x80 {
        Ok((raw as i16 - 0x100) as i8)
    } else {
        Ok(raw as i8)
    }
}

/// Reads an unsigned 16-bit integer.
pub fn parse_u16(buff: &[u8], offset: &mut usize) -> (r: Result<u16, DecodeError>)
    ensures
        r == read(buff@, *old(offset) as int, 2, be_u16(buff@, *old(offset) as int) as u16),
        *final(offset) == offset_after(*old(offset) as int, 2, r is Ok),
{
    if !has_room(buff, *offset, 2) {
        return Err(DecodeError::UnexpectedEndOfData);
    }
    let high: u16 = buff[*offset] as u16;
    let low: u16 = buff[*offset + 1] as u16;
    *offset = *offset + 2;
    Ok(high * 0x100 + low)
}

/// Reads a signed 16-bit integer.
pub fn parse_i16(buff: &[u8], offset: &mut usize) -> (r: Result<i16, DecodeError>)
    ensures
        r == read(buff@, *old(offset) as int, 2, be_i16(buff@, *old(offset) as int) as i16),
        *final(offset) == offset_after(*old(offset) as int, 2, r is Ok),
{
    let raw: u16 = parse_u16(buff, offset)?;
    if raw >= 0x8000 {
        Ok((raw as i32 - 0x1_0000) as i16)
    } else {
        Ok(raw as i16)
    }
}

/// Reads an unsigned 32-bit integer.
pub fn parse_u32(buff: &[u8], offset: &mut usize) -> (r: Result<u32, DecodeError>)
    ensures
        r == read(buff@, *old(offset) as int, 4, be_u32(buff@, *old(offset) as int) as u32),
        *final(offset) == offset_after(*old(offset) as int, 4, r is Ok),
{
    if !has_room(buff, *offset, 4) {
        return Err(DecodeError::UnexpectedEndOfData);
    }
    let b0: u32 = buff[*offset] as u32;
    let b1: u32 = buff[*offset + 1] as u32;
    let b2: u32 = buff[*offset + 2] as u32;
    let b3: u32 = buff[*offset + 3] as u32;
    *offset = *offset + 4;
    Ok(b0 * 0x100_0000 + b1 * 0x1_0000 + b2 * 0x100 + b3)
}

/// Reads a signed 32-bit integer.
pub fn parse_i32(buff: &[u8], offset: &mut usize) -> (r: Result<i32, DecodeError>)
    ensures
        r == read(buff@, *old(offset) as int, 4, be_i32(buff@, *old(offset) as int) as i32),
        *final(offset) == offset_after(*old(offset) as int, 4, r is Ok),
{
    let raw: u32 = parse_u32(buff, offset)?;
    if raw >= 0x8000_0000 {
        Ok((raw as i64 - 0x1_0000_0000) as i32)
    } else {
        Ok(raw as i32)
    }
}

/// Reads an IEEE 754 single and gives its bit pattern: sign, exponent and
/// fraction, from the most significant bit down.
pub fn parse_single(buff: &[u8], offset: &mut usize) -> (r: Result<u32, DecodeError>)
    ensures
        r == read(buff@, *old(offset) as int, 4, be_u32(buff@, *old(offset) as int) as u32),
        *final(offset) == offset_after(*old(offset) as int, 4, r is Ok),
{
    parse_u32(buff, offset)
}

/// Reads an unsigned 64-bit integer.
pub fn parse_u64(buff: &[u8], offset: &mut usize) -> (r: Result<u64, DecodeError>)
    ensures
        r == read(buff@, *old(offset) as int, 8, be_u64(buff@, *old(offset) as int) as u64),
        *final(offset) == offset_after(*old(offset) as int, 8, r is Ok),
{
    if !has_room(buff, *offset, 8) {
        return Err(DecodeError::UnexpectedEndOfData);
    }
    let high: u64 = parse_u32(buff, offset)? as u64;
    let low: u64 = parse_u32(buff, offset)? as u64;
    Ok(high * 0x1_0000_0000 + low)
}

/// Reads a signed 64-bit integer.
pub fn parse_i64(buff: &[u8], offset: &mut usize) -> (r: Result<i64, DecodeError>)
    ensures
        r == read(buff@, *old(offset) as int, 8, be_i64(buff@, *old(offset) as int) as i64),
        *final(offset) == offset_after(*old(offset) as int, 8, r is Ok),
{
    let raw: u64 = parse_u64(buff, offset)?;
    if raw >= 0x8000_0000_0000_0000 {
        Ok((raw - 0x8000_0000_0000_0000) as i64 + i64::MIN)
    } else {
        Ok(raw as i64)
    }
}

/// Reads a text region of `length` bytes: UTF-8, without its NUL padding.
pub fn parse_string(buff: &[u8], offset: &mut usize, length: usize) -> (r: Result<
    String,
    DecodeError,
>)
    ensures
        text_result(r) == read_text(buff@, *old(offset) as int, length as int),
        *final(offset) == offset_after(*old(offset) as int, length as int, r is Ok),
{
    if !has_room(buff, *offset, length) {
        return Err(DecodeError::UnexpectedEndOfData);
    }
    let region: &[u8] = slice_subrange(buff, *offset, *offset + length);
    match decode_text(region) {
        Some(text) => {
            *offset = *offset + length;
            Ok(text)
        },
        None => Err(DecodeError::InvalidText),
    }
}

} // verus!
