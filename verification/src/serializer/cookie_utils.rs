use vstd::prelude::*;

verus! {

/// Why a serializer failed.
#[derive(Debug, Clone, Copy, PartialEq, Eq, Structural)]
pub enum GenError {
    /// The buffer is too small; at least this many more bytes are needed.
    BufferTooSmall(usize),
    /// The buffer was expected to be filled, but this many bytes are left.
    BufferTooBig(usize),
    /// An invalid index was accessed.
    InvalidOffset,
    /// The writer failed.
    IoError,
    /// The value cannot be serialized; the code says why.
    CustomError(u32),
    /// The serializer is not implemented.
    NotYetImplemented,
}

/// `n` bytes big-endian of `v`, modulo 256 to the power of `n`.
pub open spec fn be_bytes(v: nat, n: nat) -> Seq<u8>
    decreases n,
{
    if n == 0 {
        Seq::empty()
    } else {
        be_bytes(v / 256, (n - 1) as nat).push((v % 256) as u8)
    }
}

/// Writing `data` at `pos` of a fixed-size buffer through a cursor: the
/// bytes that fit are written; it succeeds, with the position after the data,
/// when all of them fit.
pub open spec fn spec_write(buf: Seq<u8>, pos: int, data: Seq<u8>) -> (Seq<u8>, Result<usize, GenError>) {
    let avail = if 0 <= pos < buf.len() {
        buf.len() - pos
    } else {
        0
    };
    let amt = if avail < data.len() {
        avail
    } else {
        data.len() as int
    };
    let out = if amt == 0 {
        buf
    } else {
        buf.subrange(0, pos) + data.subrange(0, amt) + buf.subrange(pos + amt, buf.len() as int)
    };
    (
        out,
        if amt == data.len() {
            Ok((pos + data.len()) as usize)
        } else {
            Err(GenError::BufferTooSmall((data.len() - amt) as usize))
        },
    )
}

/// Skipping `n` bytes from `pos` of a buffer of `len` bytes.
pub open spec fn spec_skip(len: nat, pos: int, n: nat) -> Result<usize, GenError> {
    let remaining = if pos < len {
        len - pos
    } else {
        0
    };
    if remaining < n {
        Err(GenError::BufferTooSmall((n - remaining) as usize))
    } else {
        Ok((pos + n) as usize)
    }
}

/// Writes one byte at `pos` with `cookie_factory::gen::set_be_u8`, which
/// writes through a cursor over the buffer. The contract claims the cursor
/// write of that byte: written and the position after it, or
/// `BufferTooSmall(1)` and the buffer unchanged when `pos` is at or past
/// the end.
#[verifier::external_body]
pub(crate) fn set_be_u8(buf: &mut Vec<u8>, pos: usize, v: u8) -> (r: Result<usize, GenError>)
    ensures
        (final(buf)@, r) == spec_write(old(buf)@, pos as int, seq![v]),
{
    match cookie_factory::gen::set_be_u8((buf.as_mut_slice(), pos), v) {
        Ok((_, p)) => Ok(p),
        Err(cookie_factory::GenError::BufferTooSmall(n)) => Err(GenError::BufferTooSmall(n)),
        Err(cookie_factory::GenError::BufferTooBig(n)) => Err(GenError::BufferTooBig(n)),
        Err(cookie_factory::GenError::InvalidOffset) => Err(GenError::InvalidOffset),
        Err(cookie_factory::GenError::IoError(_)) => Err(GenError::IoError),
        Err(cookie_factory::GenError::CustomError(n)) => Err(GenError::CustomError(n)),
        Err(cookie_factory::GenError::NotYetImplemented) => Err(GenError::NotYetImplemented),
    }
}

/// Writes 4 bytes big-endian at `pos` with `cookie_factory::gen::set_be_u32`.
/// The contract claims the cursor write of those bytes: the bytes that fit
/// are written, and it succeeds when all of them fit.
#[verifier::external_body]
pub(crate) fn set_be_u32(buf: &mut Vec<u8>, pos: usize, v: u32) -> (r: Result<usize, GenError>)
    ensures
        (final(buf)@, r) == spec_write(old(buf)@, pos as int, be_bytes(v as nat, 4)),
{
    match cookie_factory::gen::set_be_u32((buf.as_mut_slice(), pos), v) {
        Ok((_, p)) => Ok(p),
        Err(cookie_factory::GenError::BufferTooSmall(n)) => Err(GenError::BufferTooSmall(n)),
        Err(cookie_factory::GenError::BufferTooBig(n)) => Err(GenError::BufferTooBig(n)),
        Err(cookie_factory::GenError::InvalidOffset) => Err(GenError::InvalidOffset),
        Err(cookie_factory::GenError::IoError(_)) => Err(GenError::IoError),
        Err(cookie_factory::GenError::CustomError(n)) => Err(GenError::CustomError(n)),
        Err(cookie_factory::GenError::NotYetImplemented) => Err(GenError::NotYetImplemented),
    }
}

/// Writes 8 bytes big-endian at `pos` with `cookie_factory::gen::set_be_u64`.
/// The contract claims the cursor write of those bytes: the bytes that fit
/// are written, and it succeeds when all of them fit.
#[verifier::external_body]
pub(crate) fn set_be_u64(buf: &mut Vec<u8>, pos: usize, v: u64) -> (r: Result<usize, GenError>)
    ensures
        (final(buf)@, r) == spec_write(old(buf)@, pos as int, be_bytes(v as nat, 8)),
{
    match cookie_factory::gen::set_be_u64((buf.as_mut_slice(), pos), v) {
        Ok((_, p)) => Ok(p),
        Err(cookie_factory::GenError::BufferTooSmall(n)) => Err(GenError::BufferTooSmall(n)),
        Err(cookie_factory::GenError::BufferTooBig(n)) => Err(GenError::BufferTooBig(n)),
        Err(cookie_factory::GenError::InvalidOffset) => Err(GenError::InvalidOffset),
        Err(cookie_factory::GenError::IoError(_)) => Err(GenError::IoError),
        Err(cookie_factory::GenError::CustomError(n)) => Err(GenError::CustomError(n)),
        Err(cookie_factory::GenError::NotYetImplemented) => Err(GenError::NotYetImplemented),
    }
}

/// The 16-bit pattern of an `i16`.
pub open spec fn i16_bits(v: i16) -> nat {
    if v >= 0 {
        v as nat
    } else {
        (v + 0x10000) as nat
    }
}

/// Writes an `i16` big-endian at `pos` with `cookie_factory::bytes::be_i16`
/// through `cookie_factory::gen::legacy_wrap`. The contract claims the cursor
/// write of its two bytes: the bytes that fit are written, and it succeeds
/// when both fit.
#[verifier::external_body]
pub(crate) fn set_be_i16(buf: &mut Vec<u8>, pos: usize, v: i16) -> (r: Result<usize, GenError>)
    ensures
        (final(buf)@, r) == spec_write(old(buf)@, pos as int, be_bytes(i16_bits(v), 2)),
{
    match cookie_factory::gen::legacy_wrap(cookie_factory::bytes::be_i16(v), (buf.as_mut_slice(), pos)) {
        Ok((_, p)) => Ok(p),
        Err(cookie_factory::GenError::BufferTooSmall(n)) => Err(GenError::BufferTooSmall(n)),
        Err(cookie_factory::GenError::BufferTooBig(n)) => Err(GenError::BufferTooBig(n)),
        Err(cookie_factory::GenError::InvalidOffset) => Err(GenError::InvalidOffset),
        Err(cookie_factory::GenError::IoError(_)) => Err(GenError::IoError),
        Err(cookie_factory::GenError::CustomError(n)) => Err(GenError::CustomError(n)),
        Err(cookie_factory::GenError::NotYetImplemented) => Err(GenError::NotYetImplemented),
    }
}

/// Skips `v` bytes from `pos` with `cookie_factory::combinator::skip` through
/// `cookie_factory::gen::legacy_wrap`. The contract claims what its cursor
/// does: the buffer is unchanged; it succeeds with the position after the
/// skipped bytes when they are within the buffer, and otherwise fails with
/// the number of missing bytes.
#[verifier::external_body]
pub(crate) fn gen_skip(buf: &mut Vec<u8>, pos: usize, v: usize) -> (r: Result<usize, GenError>)
    ensures
        final(buf)@ == old(buf)@,
        r == spec_skip(old(buf)@.len(), pos as int, v as nat),
{
    match cookie_factory::gen::legacy_wrap(cookie_factory::combinator::skip(v), (buf.as_mut_slice(), pos)) {
        Ok((_, p)) => Ok(p),
        Err(cookie_factory::GenError::BufferTooSmall(n)) => Err(GenError::BufferTooSmall(n)),
        Err(cookie_factory::GenError::BufferTooBig(n)) => Err(GenError::BufferTooBig(n)),
        Err(cookie_factory::GenError::InvalidOffset) => Err(GenError::InvalidOffset),
        Err(cookie_factory::GenError::IoError(_)) => Err(GenError::IoError),
        Err(cookie_factory::GenError::CustomError(n)) => Err(GenError::CustomError(n)),
        Err(cookie_factory::GenError::NotYetImplemented) => Err(GenError::NotYetImplemented),
    }
}

/// Writes the bytes of `v` at `pos` with `cookie_factory::combinator::slice`
/// through `cookie_factory::gen::legacy_wrap`. The contract claims the cursor
/// write of those bytes: the bytes that fit are written, and it succeeds
/// when all of them fit.
#[verifier::external_body]
pub(crate) fn gen_slice(buf: &mut Vec<u8>, pos: usize, v: &[u8]) -> (r: Result<usize, GenError>)
    ensures
        (final(buf)@, r) == spec_write(old(buf)@, pos as int, v@),
{
    match cookie_factory::gen::legacy_wrap(cookie_factory::combinator::slice(v), (buf.as_mut_slice(), pos)) {
        Ok((_, p)) => Ok(p),
        Err(cookie_factory::GenError::BufferTooSmall(n)) => Err(GenError::BufferTooSmall(n)),
        Err(cookie_factory::GenError::BufferTooBig(n)) => Err(GenError::BufferTooBig(n)),
        Err(cookie_factory::GenError::InvalidOffset) => Err(GenError::InvalidOffset),
        Err(cookie_factory::GenError::IoError(_)) => Err(GenError::IoError),
        Err(cookie_factory::GenError::CustomError(n)) => Err(GenError::CustomError(n)),
        Err(cookie_factory::GenError::NotYetImplemented) => Err(GenError::NotYetImplemented),
    }
}

} // verus!
