use vstd::prelude::*;
use super::error::{ebml_err, err_of, incomplete, EbmlErr, EbmlResult, ErrorKind, Needed};
use vstd::utf8::{decode_utf8, valid_utf8};

verus! {

/// Big-endian value of `s` appended to the digits of `init`.
pub open spec fn be_acc(init: nat, s: Seq<u8>) -> nat
    decreases s.len(),
{
    if s.len() == 0 {
        init
    } else {
        be_acc(init, s.drop_last()) * 256 + s.last() as nat
    }
}

/// Big-endian value of a byte sequence.
pub open spec fn be_value(s: Seq<u8>) -> nat {
    be_acc(0, s)
}

/// 256 to the power of `n`.
pub open spec fn pow256(n: nat) -> nat
    decreases n,
{
    if n == 0 {
        1
    } else {
        256 * pow256((n - 1) as nat)
    }
}

/// The number of leading zero bits of a byte.
pub open spec fn spec_leading_zeros(b: u8) -> nat {
    if b >= 128 {
        0
    } else if b >= 64 {
        1
    } else if b >= 32 {
        2
    } else if b >= 16 {
        3
    } else if b >= 8 {
        4
    } else if b >= 4 {
        5
    } else if b >= 2 {
        6
    } else if b >= 1 {
        7
    } else {
        8
    }
}

/// The value of the highest set bit of a byte with `lz` leading zeros.
pub open spec fn marker(lz: nat) -> nat {
    if lz == 0 {
        128
    } else if lz == 1 {
        64
    } else if lz == 2 {
        32
    } else if lz == 3 {
        16
    } else if lz == 4 {
        8
    } else if lz == 5 {
        4
    } else if lz == 6 {
        2
    } else {
        1
    }
}

pub proof fn lemma_be_acc_bound(init: nat, s: Seq<u8>)
    ensures
        be_acc(init, s) < (init + 1) * pow256(s.len()),
        be_acc(init, s) >= init * pow256(s.len()),
    decreases s.len(),
{
    if s.len() == 0 {
        assert(pow256(0) == 1);
    } else {
        lemma_be_acc_bound(init, s.drop_last());
        let p = pow256((s.len() - 1) as nat);
        let v = be_acc(init, s.drop_last());
        let b = s.last() as nat;
        assert(pow256(s.len()) == 256 * p);
        assert(be_acc(init, s) == v * 256 + b);
        assert(v * 256 + b < (init + 1) * (256 * p)) by (nonlinear_arith)
            requires
                v < (init + 1) * p,
                b < 256,
        ;
        assert(v * 256 + b >= init * (256 * p)) by (nonlinear_arith)
            requires
                v >= init * p,
        ;
    }
}

/// The marker bit of a first byte, scaled by the remaining bytes of a VINT,
/// is the power of two just above every value of that width.
pub proof fn lemma_marker_scaled(lz: nat)
    requires
        lz < 8,
    ensures
        marker(lz) * pow256(lz) == vint_limit((lz + 1) as nat),
        marker(lz) * pow256(lz) <= 0x100000000000000,
{
    lemma_pow256_values();
}

/// The number of values a VINT of `w` bytes can hold: 2 to the power of 7 times `w`.
pub open spec fn vint_limit(w: nat) -> nat {
    if w == 1 {
        0x80
    } else if w == 2 {
        0x4000
    } else if w == 3 {
        0x200000
    } else if w == 4 {
        0x10000000
    } else if w == 5 {
        0x800000000
    } else if w == 6 {
        0x40000000000
    } else if w == 7 {
        0x2000000000000
    } else {
        0x100000000000000
    }
}

/// Powers of 256 up to the width of a `u64`.
pub proof fn lemma_pow256_values()
    ensures
        pow256(0) == 1,
        pow256(1) == 0x100,
        pow256(2) == 0x10000,
        pow256(3) == 0x1000000,
        pow256(4) == 0x100000000,
        pow256(5) == 0x10000000000,
        pow256(6) == 0x1000000000000,
        pow256(7) == 0x100000000000000,
        pow256(8) == 0x10000000000000000,
{
    reveal_with_fuel(pow256, 9);
}

pub proof fn lemma_be_value_bound(s: Seq<u8>)
    ensures
        be_value(s) < pow256(s.len()),
{
    lemma_be_acc_bound(0, s);
    let p = pow256(s.len());
    assert((0 + 1) * p == p) by (nonlinear_arith);
}

pub proof fn lemma_be_acc_push(init: nat, s: Seq<u8>, b: u8)
    ensures
        be_acc(init, s.push(b)) == be_acc(init, s) * 256 + b,
{
    assert(s.push(b).drop_last() =~= s);
}

/// The width marker of a byte: the number of its leading zero bits.
pub fn leading_zeros(b: u8) -> (n: u32)
    ensures
        n == spec_leading_zeros(b),
{
    if b >= 128 {
        0
    } else if b >= 64 {
        1
    } else if b >= 32 {
        2
    } else if b >= 16 {
        3
    } else if b >= 8 {
        4
    } else if b >= 4 {
        5
    } else if b >= 2 {
        6
    } else if b >= 1 {
        7
    } else {
        8
    }
}

/// What [vint] returns on `s`: an EBML variable-size integer, with the
/// marker bit of its first byte removed.
pub open spec fn spec_vint(s: Seq<u8>) -> EbmlResult<u64> {
    if s.len() == 0 {
        incomplete(1)
    } else {
        let lz = spec_leading_zeros(s[0]);
        if lz == 8 {
            err_of(0, ErrorKind::VintTooWide)
        } else if s.len() <= lz {
            incomplete(1)
        } else {
            Ok(
                (
                    (lz + 1) as usize,
                    be_acc((s[0] - marker(lz)) as nat, s.subrange(1, (lz + 1) as int)) as u64,
                ),
            )
        }
    }
}

/// Parses an EBML variable-size integer (VINT).
pub fn vint(input: &[u8]) -> (r: EbmlResult<u64>)
    ensures
        r == spec_vint(input@),
{
    if input.len() == 0 {
        return Err(EbmlErr::Incomplete(Needed::Size(1)));
    }
    let v = input[0];
    let len = leading_zeros(v);
    if len == 8 {
        return ebml_err(0, ErrorKind::VintTooWide);
    }
    if input.len() <= len as usize {
        return Err(EbmlErr::Incomplete(Needed::Size(1)));
    }
    let first: u8 = if len == 0 {
        v - 128
    } else if len == 1 {
        v - 64
    } else if len == 2 {
        v - 32
    } else if len == 3 {
        v - 16
    } else if len == 4 {
        v - 8
    } else if len == 5 {
        v - 4
    } else if len == 6 {
        v - 2
    } else {
        v - 1
    };
    let ghost m = marker(len as nat);
    assert(first < m);
    proof {
        lemma_marker_scaled(len as nat);
    }
    let mut val: u64 = first as u64;
    let mut i: usize = 0;
    let n: usize = len as usize;
    assert(input@.subrange(1, 1) =~= Seq::<u8>::empty());
    while i < n
        invariant
            n < 8,
            n < input.len(),
            i <= n,
            m <= 128,
            first < m,
            val == be_acc(first as nat, input@.subrange(1, i + 1)),
            val < m * pow256(i as nat),
            m * pow256(n as nat) <= 0x100000000000000,
        decreases n - i,
    {
        let ghost old_val = val;
        proof {
            assert(m * pow256(i as nat) * 256 == m * pow256((i + 1) as nat)) by (nonlinear_arith)
                requires
                    pow256((i + 1) as nat) == 256 * pow256(i as nat),
            ;
            assert(m * pow256((i + 1) as nat) <= m * pow256(n as nat)) by {
                lemma_pow256_mono((i + 1) as nat, n as nat);
                assert(m * pow256((i + 1) as nat) <= m * pow256(n as nat)) by (nonlinear_arith)
                    requires
                        pow256((i + 1) as nat) <= pow256(n as nat),
                ;
            }
            assert(val * 256 + 255 < m * pow256((i + 1) as nat)) by (nonlinear_arith)
                requires
                    val < m * pow256(i as nat),
                    m * pow256(i as nat) * 256 == m * pow256((i + 1) as nat),
            ;
        }
        val = val * 256 + input[i + 1] as u64;
        proof {
            lemma_be_acc_push(first as nat, input@.subrange(1, i + 1), input@[i + 1]);
            assert(input@.subrange(1, i + 1).push(input@[i + 1]) =~= input@.subrange(1, i + 2));
        }
        i = i + 1;
    }
    Ok((n + 1, val))
}

pub proof fn lemma_pow256_mono(a: nat, b: nat)
    requires
        a <= b,
    ensures
        pow256(a) <= pow256(b),
        pow256(a) >= 1,
    decreases b,
{
    if b > a {
        lemma_pow256_mono(a, (b - 1) as nat);
    } else if a > 0 {
        lemma_pow256_mono((a - 1) as nat, (a - 1) as nat);
    }
}


/// What [elem_size] returns on `s`: a VINT that must fit in a `usize`.
pub open spec fn spec_elem_size(s: Seq<u8>) -> EbmlResult<usize> {
    match spec_vint(s) {
        Ok((n, v)) => if v <= usize::MAX {
            Ok((n, v as usize))
        } else {
            err_of(0, ErrorKind::ElementTooLarge)
        },
        Err(e) => Err(e),
    }
}

/// Parses an Element Data Size, which must fit in a `usize`.
pub fn elem_size(input: &[u8]) -> (r: EbmlResult<usize>)
    ensures
        r == spec_elem_size(input@),
{
    match vint(input) {
        Ok((n, v)) => {
            if v <= usize::MAX as u64 {
                Ok((n, v as usize))
            } else {
                ebml_err(0, ErrorKind::ElementTooLarge)
            }
        },
        Err(e) => Err(e),
    }
}

/// Big-endian value of at most 8 bytes.
fn be_uint(data: &[u8]) -> (r: u64)
    requires
        data.len() <= 8,
    ensures
        r == be_value(data@),
{
    let mut val: u64 = 0;
    let mut i: usize = 0;
    proof {
        lemma_pow256_values();
        assert(data@.subrange(0, 0) =~= Seq::<u8>::empty());
    }
    while i < data.len()
        invariant
            data.len() <= 8,
            i <= data.len(),
            val == be_acc(0, data@.subrange(0, i as int)),
            pow256(8) == 0x10000000000000000,
        decreases data.len() - i,
    {
        proof {
            lemma_be_value_bound(data@.subrange(0, i + 1));
            lemma_pow256_mono((i + 1) as nat, 8);
            lemma_be_acc_push(0, data@.subrange(0, i as int), data@[i as int]);
            assert(data@.subrange(0, i as int).push(data@[i as int]) =~= data@.subrange(0, i + 1));
            assert(be_acc(0, data@.subrange(0, i + 1)) == val * 256 + data@[i as int]);
            let sub = data@.subrange(0, i + 1);
            assert(sub.len() == i + 1);
            assert(be_acc(0, sub) < pow256(sub.len()));
            assert(pow256(sub.len()) <= pow256(8));
            assert(be_acc(0, sub) < pow256(8));
        }
        val = val * 256 + data[i] as u64;
        i = i + 1;
    }
    assert(data@.subrange(0, data.len() as int) =~= data@);
    val
}

/// What [vid] returns on `s`: an Element ID, marker bits included.
pub open spec fn spec_vid(s: Seq<u8>) -> EbmlResult<u32> {
    if s.len() == 0 {
        incomplete(1)
    } else {
        let len = 1 + spec_leading_zeros(s[0]);
        if s.len() <= len {
            incomplete(1)
        } else if len > 4 {
            err_of(0, ErrorKind::IDTooWide)
        } else {
            Ok((len as usize, be_value(s.subrange(0, len as int)) as u32))
        }
    }
}

/// Parses an Element ID. Element IDs keep their marker bits, as in their
/// representation in the specification. The input must hold at least one
/// byte past the ID.
pub fn vid(input: &[u8]) -> (r: EbmlResult<u32>)
    ensures
        r == spec_vid(input@),
{
    if input.len() == 0 {
        return Err(EbmlErr::Incomplete(Needed::Size(1)));
    }
    let len: usize = 1 + leading_zeros(input[0]) as usize;
    if input.len() <= len {
        return Err(EbmlErr::Incomplete(Needed::Size(1)));
    }
    if len > 4 {
        return ebml_err(0, ErrorKind::IDTooWide);
    }
    let v = be_uint(&input[0..len]);
    proof {
        lemma_be_value_bound(input@.subrange(0, len as int));
        lemma_pow256_values();
        lemma_pow256_mono(len as nat, 4);
    }
    Ok((len, v as u32))
}

/// What [parse_u64] returns on `d`.
pub open spec fn spec_parse_u64(d: Seq<u8>) -> Result<u64, ErrorKind> {
    if d.len() > 8 {
        Err(ErrorKind::UintTooWide)
    } else {
        Ok(be_value(d) as u64)
    }
}

/// Parses the data of an unsigned integer element: at most 8 bytes, big-endian.
pub fn parse_u64(data: &[u8]) -> (r: Result<u64, ErrorKind>)
    ensures
        r == spec_parse_u64(data@),
{
    if data.len() > 8 {
        return Err(ErrorKind::UintTooWide);
    }
    Ok(be_uint(data))
}

/// What [parse_u32] returns on `d`.
pub open spec fn spec_parse_u32(d: Seq<u8>) -> Result<u32, ErrorKind> {
    if d.len() > 4 {
        Err(ErrorKind::U32TooWide)
    } else {
        Ok(be_value(d) as u32)
    }
}

/// Parses the data of an unsigned integer element of at most 4 bytes.
pub fn parse_u32(data: &[u8]) -> (r: Result<u32, ErrorKind>)
    ensures
        r == spec_parse_u32(data@),
{
    if data.len() > 4 {
        return Err(ErrorKind::U32TooWide);
    }
    let v = be_uint(data);
    proof {
        lemma_be_value_bound(data@);
        lemma_pow256_values();
        lemma_pow256_mono(data@.len(), 4);
    }
    Ok(v as u32)
}

/// The two's complement reading of a 64-bit pattern.
pub open spec fn to_signed(v: nat) -> i64 {
    if v < 0x8000000000000000 {
        v as i64
    } else {
        (v - 0x10000000000000000) as i64
    }
}

/// What [parse_i64] returns on `d`.
pub open spec fn spec_parse_i64(d: Seq<u8>) -> Result<i64, ErrorKind> {
    if d.len() > 8 {
        Err(ErrorKind::IntTooWide)
    } else {
        Ok(to_signed(be_value(d)))
    }
}

/// Parses the data of a signed integer element: at most 8 bytes, big-endian,
/// read as a 64-bit two's complement pattern.
pub fn parse_i64(data: &[u8]) -> (r: Result<i64, ErrorKind>)
    ensures
        r == spec_parse_i64(data@),
{
    if data.len() > 8 {
        return Err(ErrorKind::IntTooWide);
    }
    let v = be_uint(data);
    if v < 0x8000000000000000 {
        Ok(v as i64)
    } else {
        Ok(((v - 0x8000000000000000) as i64) + i64::MIN)
    }
}

/// Date Element. Contains the number of nanoseconds since
/// 2001-01-01T00:00:00.000000000 UTC.
#[derive(Debug, Clone, Copy, PartialEq, Eq, Structural)]
pub struct Date(pub i64);

/// What [parse_date] returns on `d`.
pub open spec fn spec_parse_date(d: Seq<u8>) -> Result<Date, ErrorKind> {
    if d.len() == 0 || d.len() == 8 {
        Ok(Date(to_signed(be_value(d))))
    } else {
        Err(ErrorKind::DateWidthIncorrect)
    }
}

/// Parses the data of a date element: 0 or 8 bytes.
pub fn parse_date(data: &[u8]) -> (r: Result<Date, ErrorKind>)
    ensures
        r == spec_parse_date(data@),
{
    if data.len() == 0 || data.len() == 8 {
        match parse_i64(data) {
            Ok(v) => Ok(Date(v)),
            Err(e) => Err(e),
        }
    } else {
        Err(ErrorKind::DateWidthIncorrect)
    }
}

/// The bits of a float element: the data of a 4-byte or an 8-byte
/// IEEE 754 big-endian float.
#[derive(Debug, Clone, Copy, PartialEq, Eq, Structural)]
pub enum EbmlFloat {
    /// The bits of a 4-byte float.
    F32(u32),
    /// The bits of an 8-byte float.
    F64(u64),
}

/// What [parse_float] returns on `d`.
pub open spec fn spec_parse_float(d: Seq<u8>) -> Result<EbmlFloat, ErrorKind> {
    if d.len() == 0 {
        Err(ErrorKind::EmptyFloat)
    } else if d.len() == 4 {
        Ok(EbmlFloat::F32(be_value(d) as u32))
    } else if d.len() == 8 {
        Ok(EbmlFloat::F64(be_value(d) as u64))
    } else {
        Err(ErrorKind::FloatWidthIncorrect)
    }
}

/// Parses the data of a float element: 4 or 8 bytes.
pub fn parse_float(data: &[u8]) -> (r: Result<EbmlFloat, ErrorKind>)
    ensures
        r == spec_parse_float(data@),
{
    if data.len() == 0 {
        Err(ErrorKind::EmptyFloat)
    } else if data.len() == 4 {
        let v = be_uint(data);
        proof {
            lemma_be_value_bound(data@);
            lemma_pow256_values();
        }
        Ok(EbmlFloat::F32(v as u32))
    } else if data.len() == 8 {
        Ok(EbmlFloat::F64(be_uint(data)))
    } else {
        Err(ErrorKind::FloatWidthIncorrect)
    }
}

/// Decodes UTF-8 data into a `String` with `String::from_utf8`: it returns
/// the string when the bytes are valid UTF-8 (and, per its documentation,
/// fails exactly when they are not). The contract claims that the result is
/// present exactly for valid UTF-8 and then holds the decoded characters.
#[verifier::external_body]
fn string_from_utf8(data: &[u8]) -> (r: Option<String>)
    ensures
        r is Some <==> valid_utf8(data@),
        r matches Some(s) ==> s@ == decode_utf8(data@),
{
    String::from_utf8(data.to_vec()).ok()
}

/// Parses the data of a string element, which must be UTF-8.
pub fn parse_string(data: &[u8]) -> (r: Result<String, ErrorKind>)
    ensures
        r is Ok <==> valid_utf8(data@),
        r matches Ok(s) ==> s@ == decode_utf8(data@),
        r matches Err(k) ==> k == ErrorKind::StringNotUtf8,
{
    match string_from_utf8(data) {
        Some(s) => Ok(s),
        None => Err(ErrorKind::StringNotUtf8),
    }
}

/// Parses the data of a binary element: a copy of the bytes.
pub fn parse_binary(data: &[u8]) -> (r: Vec<u8>)
    ensures
        r@ == data@,
{
    vstd::slice::slice_to_vec(data)
}

/// What [parse_bin4] returns on `d`.
pub open spec fn spec_parse_bin4(d: Seq<u8>) -> Result<[u8; 4], ErrorKind> {
    if d.len() == 4 {
        Ok([d[0], d[1], d[2], d[3]])
    } else {
        Err(ErrorKind::BinaryWidthIncorrect(d.len() as u16))
    }
}

/// Parses the data of a binary element that must be 4 bytes long.
pub fn parse_bin4(data: &[u8]) -> (r: Result<[u8; 4], ErrorKind>)
    ensures
        r == spec_parse_bin4(data@),
{
    if data.len() == 4 {
        Ok([data[0], data[1], data[2], data[3]])
    } else {
        Err(ErrorKind::BinaryWidthIncorrect(data.len() as u16))
    }
}

/// What [parse_uuid] returns on `d`.
pub open spec fn spec_parse_uuid(d: Seq<u8>) -> Result<[u8; 16], ErrorKind> {
    if d.len() == 16 {
        Ok(
            [
                d[0],
                d[1],
                d[2],
                d[3],
                d[4],
                d[5],
                d[6],
                d[7],
                d[8],
                d[9],
                d[10],
                d[11],
                d[12],
                d[13],
                d[14],
                d[15],
            ],
        )
    } else {
        Err(ErrorKind::BinaryWidthIncorrect(d.len() as u16))
    }
}

/// Parses the data of a UUID element: exactly 16 bytes.
pub fn parse_uuid(data: &[u8]) -> (r: Result<[u8; 16], ErrorKind>)
    ensures
        r == spec_parse_uuid(data@),
{
    if data.len() == 16 {
        Ok(
            [
                data[0],
                data[1],
                data[2],
                data[3],
                data[4],
                data[5],
                data[6],
                data[7],
                data[8],
                data[9],
                data[10],
                data[11],
                data[12],
                data[13],
                data[14],
                data[15],
            ],
        )
    } else {
        Err(ErrorKind::BinaryWidthIncorrect(data.len() as u16))
    }
}

/// `k` steps of the bitwise CRC-32 register update, least significant bit
/// first, with the reflected polynomial 0xEDB88320.
pub open spec fn crc32_shift(reg: u32, k: nat) -> u32
    decreases k,
{
    if k == 0 {
        reg
    } else {
        crc32_shift(
            if reg & 1 == 1 {
                (reg >> 1) ^ 0xEDB88320u32
            } else {
                reg >> 1
            },
            (k - 1) as nat,
        )
    }
}

/// The CRC-32 register after the bytes `data`, from the initial value
/// 0xFFFFFFFF: each byte is xored into the low bits, then shifted 8 times.
pub open spec fn crc32_register(data: Seq<u8>) -> u32
    decreases data.len(),
{
    if data.len() == 0 {
        0xFFFFFFFFu32
    } else {
        crc32_shift(crc32_register(data.drop_last()) ^ (data.last() as u32), 8)
    }
}

/// The CRC-32 (ISO HDLC) checksum of some bytes: the register after them,
/// with all its bits inverted.
#[verifier::opaque]
pub open spec fn crc32(data: Seq<u8>) -> u32 {
    crc32_register(data) ^ 0xFFFFFFFFu32
}

/// Computes the CRC-32 checksum of the data with
/// `crc::Crc::<u32>::checksum` over the `CRC_32_ISO_HDLC` algorithm (width
/// 32, reflected polynomial 0xEDB88320, initial value and final xor
/// 0xFFFFFFFF, input and output reflected). The contract claims that this is
/// [crc32].
#[verifier::external_body]
fn crc32_checksum(data: &[u8]) -> (r: u32)
    ensures
        r == crc32(data@),
{
    crc::Crc::<u32>::new(&crc::CRC_32_ISO_HDLC).checksum(data)
}

/// Checks data against an optional CRC-32 value: fails with
/// [ErrorKind::Crc32Mismatch] when a value is given and differs from the
/// checksum of the data.
pub fn checksum(crc: Option<u32>, data: &[u8]) -> (r: Result<(), ErrorKind>)
    ensures
        r is Err <==> (crc matches Some(cs) && cs != crc32(data@)),
        r matches Err(k) ==> k == ErrorKind::Crc32Mismatch,
{
    match crc {
        Some(cs) => {
            if cs != crc32_checksum(data) {
                Err(ErrorKind::Crc32Mismatch)
            } else {
                Ok(())
            }
        },
        None => Ok(()),
    }
}

} // verus!
