use vstd::prelude::*;

use crate::ebml::parse::{pow256, vint_limit};
use vstd::arithmetic::power2::{lemma2_to64, lemma2_to64_rest, lemma_pow2_unfold, pow2};
use crate::serializer::cookie_utils::{
    be_bytes, gen_skip, gen_slice, set_be_u32, set_be_u64, set_be_u8, spec_skip, spec_write,
    GenError,
};
use crate::ebml::header::EbmlHeader;
use crate::ebml::parse::{Date, EbmlFloat};
use vstd::utf8::encode_utf8;

verus! {

/// The number of bytes of the VINT of `i`: the smallest width whose values
/// hold `i + 1`.
pub open spec fn vint_width(i: nat) -> nat {
    if i + 1 < vint_limit(1) {
        1
    } else if i + 1 < vint_limit(2) {
        2
    } else if i + 1 < vint_limit(3) {
        3
    } else if i + 1 < vint_limit(4) {
        4
    } else if i + 1 < vint_limit(5) {
        5
    } else if i + 1 < vint_limit(6) {
        6
    } else if i + 1 < vint_limit(7) {
        7
    } else {
        8
    }
}

/// The largest value that a VINT can carry here, plus one.
pub open spec fn vint_max() -> nat {
    0xFFFFFFFFFFFFFF
}

/// What [vint_size] returns.
pub open spec fn spec_vint_size(i: u64) -> Result<u8, GenError> {
    if i >= vint_max() {
        Err(GenError::CustomError(0))
    } else {
        Ok(vint_width(i as nat) as u8)
    }
}

/// The number of bytes of the VINT that encodes `i` (the all-ones pattern of
/// each width is left out); values of 2^56 - 1 and more are refused.
pub fn vint_size(i: u64) -> (r: Result<u8, GenError>)
    ensures
        r == spec_vint_size(i),
{
    if i >= 0xFFFFFFFFFFFFFF {
        return Err(GenError::CustomError(0));
    }
    let j = i + 1;
    if j < 0x80 {
        Ok(1)
    } else if j < 0x4000 {
        Ok(2)
    } else if j < 0x200000 {
        Ok(3)
    } else if j < 0x10000000 {
        Ok(4)
    } else if j < 0x800000000 {
        Ok(5)
    } else if j < 0x40000000000 {
        Ok(6)
    } else if j < 0x2000000000000 {
        Ok(7)
    } else {
        Ok(8)
    }
}

/// The number of bits of `x`.
pub open spec fn bit_len(x: nat) -> nat
    decreases x,
{
    if x == 0 {
        0
    } else {
        1 + bit_len(x / 2)
    }
}

/// What [log2] returns: the number of bits of `i`, and 1 for 0.
pub open spec fn spec_log2(i: u64) -> nat {
    if i == 0 {
        1
    } else {
        bit_len(i as nat)
    }
}

/// The number of bits of `i`, and 1 for 0.
pub fn log2(i: u64) -> (r: u32)
    ensures
        r == spec_log2(i),
        1 <= r <= 64,
{
    let mut x: u64 = if i == 0 {
        1
    } else {
        i
    };
    let ghost x0 = x as nat;
    let mut n: u32 = 0;
    proof {
        lemma2_to64_rest();
        lemma_bit_len_bound(x as nat, 64);
    }
    while x > 0
        invariant
            bit_len(x0) == n + bit_len(x as nat),
            n + bit_len(x as nat) <= 64,
            x0 >= 1,
            x0 == (if i == 0 {
                1nat
            } else {
                i as nat
            }),
        decreases x,
    {
        x = x / 2;
        n = n + 1;
    }
    proof {
        lemma_bit_len_pos(x0);
    }
    n
}

proof fn lemma_bit_len_pos(x: nat)
    requires
        x >= 1,
    ensures
        bit_len(x) >= 1,
{
}

/// Every 64-bit value has at most 64 bits.
pub proof fn lemma_bit_len_bound(x: nat, k: nat)
    requires
        x < pow2(k),
    ensures
        bit_len(x) <= k,
    decreases k,
{
    if x > 0 {
        if k == 0 {
            lemma2_to64();
        } else {
            lemma_pow2_unfold(k);
            lemma_bit_len_bound(x / 2, (k - 1) as nat);
        }
    }
}


/// What [vid_size] returns.
pub open spec fn spec_vid_size(i: u64) -> nat {
    ((spec_log2((i + 1) as u64) - 1) / 7) as nat
}

/// The number of bytes of an Element ID, as its bits count them.
pub fn vid_size(i: u64) -> (r: u8)
    requires
        i < u64::MAX,
    ensures
        r == spec_vid_size(i),
{
    ((log2(i + 1) - 1) / 7) as u8
}

/// What a serializer leaves behind: the buffer, and the position after
/// what it wrote or why it stopped.
pub type GenOut = (Seq<u8>, Result<usize, GenError>);

/// Runs `f` from the position that `w` reached, unless `w` failed.
pub open spec fn then(w: GenOut, f: spec_fn(Seq<u8>, usize) -> GenOut) -> GenOut {
    match w.1 {
        Ok(p) => f(w.0, p),
        Err(e) => (w.0, Err(e)),
    }
}

/// Writing `data` one byte at a time from `pos`: the bytes that fit are
/// written; the first byte that does not fit stops it with
/// `BufferTooSmall(1)`.
pub open spec fn spec_put_bytes(buf: Seq<u8>, pos: usize, data: Seq<u8>) -> GenOut {
    (
        spec_write(buf, pos as int, data).0,
        if data.len() == 0 || pos + data.len() <= buf.len() {
            Ok((pos + data.len()) as usize)
        } else {
            Err(GenError::BufferTooSmall(1))
        },
    )
}

proof fn lemma_write_prefix_step(b: Seq<u8>, pos: usize, d: Seq<u8>, k: int)
    requires
        0 <= k < d.len(),
        pos + k < b.len(),
    ensures
        spec_write(spec_write(b, pos as int, d.take(k)).0, pos + k, seq![d[k]]).0
            == spec_write(b, pos as int, d.take(k + 1)).0,
        spec_write(b, pos as int, d.take(k + 1)).0.len() == b.len(),
{
    let w0 = spec_write(b, pos as int, d.take(k)).0;
    let w1 = spec_write(b, pos as int, d.take(k + 1)).0;
    let w2 = spec_write(w0, pos + k, seq![d[k]]).0;
    if k == 0 {
        assert(w0 =~= b);
    }
    assert(w0.len() == b.len());
    assert(w2 =~= w1);
}

proof fn lemma_write_prefix_full(b: Seq<u8>, pos: usize, d: Seq<u8>, k: int)
    requires
        0 <= k <= d.len(),
        k == 0 || pos + k <= b.len(),
        k == d.len() || pos + k >= b.len(),
    ensures
        spec_write(b, pos as int, d.take(k)).0 == spec_write(b, pos as int, d).0,
{
    let w0 = spec_write(b, pos as int, d.take(k)).0;
    let w1 = spec_write(b, pos as int, d).0;
    if k == d.len() {
        assert(d.take(k) =~= d);
    } else {
        assert(w0 =~= w1);
    }
}

/// Writes the bytes of `data` one at a time from `pos`.
fn put_bytes(buf: &mut Vec<u8>, pos: usize, data: &Vec<u8>) -> (r: Result<usize, GenError>)
    ensures
        r matches Ok(p) ==> pos <= p,
        final(buf)@.len() == old(buf)@.len(),
        (final(buf)@, r) == spec_put_bytes(old(buf)@, pos, data@),
{
    let ghost b0 = buf@;
    let blen: usize = buf.len();
    let mut p: usize = pos;
    let mut k: usize = 0;
    assert(spec_write(b0, pos as int, data@.take(0)).0 =~= b0);
    while k < data.len()
        invariant
            k <= data@.len(),
            p == pos + k,
            k == 0 || pos + k <= b0.len(),
            buf@ == spec_write(b0, pos as int, data@.take(k as int)).0,
            buf@.len() == b0.len(),
            blen == b0.len(),
            b0 == old(buf)@,
        decreases data.len() - k,
    {
        let ghost bk = buf@;
        match set_be_u8(buf, p, data[k]) {
            Ok(np) => {
                assert(p < bk.len());
                assert(seq![data@[k as int]].len() == 1);
                assert(np == p + 1);
                proof {
                    lemma_write_prefix_step(b0, pos, data@, k as int);
                }
                p = np;
            },
            Err(e) => {
                assert(p >= bk.len());
                assert(e == GenError::BufferTooSmall(1));
                assert(buf@ =~= bk);
                proof {
                    lemma_write_prefix_full(b0, pos, data@, k as int);
                }
                assert(buf@ == spec_write(b0, pos as int, data@).0);
                assert(!(data@.len() == 0 || pos + data@.len() <= b0.len()));
                return Err(e);
            },
        }
        k = k + 1;
    }
    proof {
        lemma_write_prefix_full(b0, pos, data@, k as int);
    }
    Ok(p)
}

/// The `n` low bytes of `v`, most significant first.
pub(crate) fn be_bytes_vec(v: u64, n: u8) -> (r: Vec<u8>)
    ensures
        r@ == be_bytes(v as nat, n as nat),
    decreases n,
{
    if n == 0 {
        Vec::new()
    } else {
        let mut r = be_bytes_vec(v / 256, n - 1);
        r.push((v % 256) as u8);
        r
    }
}

/// An Element ID that [gen_vid] can write: at least one byte wide and at
/// most eight.
pub open spec fn writable_id(id: u64) -> bool {
    127 <= id && id < 0x7FFFFFFFFFFFFFFF
}

/// What [gen_vint] does: writes `num` as a VINT of [vint_size] bytes, one
/// byte at a time.
pub open spec fn spec_gen_vint(num: u64, buf: Seq<u8>, pos: usize) -> GenOut {
    match spec_vint_size(num) {
        Ok(w) => spec_put_bytes(buf, pos, be_bytes((num + vint_limit(w as nat)) as nat, w as nat)),
        Err(e) => (buf, Err(e)),
    }
}

/// What [gen_vid] does: writes the [vid_size] low bytes of `id`, one byte at
/// a time.
pub open spec fn spec_gen_vid(id: u64, buf: Seq<u8>, pos: usize) -> GenOut {
    spec_put_bytes(buf, pos, be_bytes(id as nat, spec_vid_size(id)))
}

/// What [gen_uint] does: writes `num` in [vint_size] bytes, one byte at a
/// time.
pub open spec fn spec_gen_uint(num: u64, buf: Seq<u8>, pos: usize) -> GenOut {
    match spec_vint_size(num) {
        Ok(w) => spec_put_bytes(buf, pos, be_bytes(num as nat, w as nat)),
        Err(e) => (buf, Err(e)),
    }
}

/// What [gen_int] does: a negative number is refused, as its bits read
/// unsigned are too large for [vint_size]; the others are written as
/// [gen_uint] writes them.
pub open spec fn spec_gen_int(num: i64, buf: Seq<u8>, pos: usize) -> GenOut {
    if num < 0 {
        (buf, Err(GenError::CustomError(0)))
    } else {
        spec_gen_uint(num as u64, buf, pos)
    }
}

/// Every value of a VINT width sits below its limit.
proof fn lemma_vint_width(i: nat)
    requires
        i < vint_max(),
    ensures
        1 <= vint_width(i) <= 8,
        i + 1 < vint_limit(vint_width(i)),
{
}

/// Setting the bit just above a number adds it.
proof fn lemma_or_marker(x: u64, s: u64)
    by (bit_vector)
    requires
        s < 64,
        x < (1u64 << s),
    ensures
        x | (1u64 << s) == x + (1u64 << s),
{
}

/// The marker of a VINT of `w` bytes, as a shift computes it.
proof fn lemma_shift_limit(w: u64)
    requires
        1 <= w <= 8,
    ensures
        (1u64 << (w * 7)) == vint_limit(w as nat),
{
    lemma2_to64();
    lemma2_to64_rest();
    vstd::bits::lemma_u64_shl_is_mul(1, (w * 7) as u64);
}

/// Writes `num` as an EBML variable-size integer: [vint_size] bytes, the
/// marker bit of that width set above the value.
pub fn gen_vint(num: u64, buf: &mut Vec<u8>, pos: usize) -> (r: Result<usize, GenError>)
    ensures
        r matches Ok(p) ==> pos <= p,
        final(buf)@.len() == old(buf)@.len(),
        (final(buf)@, r) == spec_gen_vint(num, old(buf)@, pos),
{
    let needed = match vint_size(num) {
        Ok(w) => w,
        Err(e) => return Err(e),
    };
    proof {
        lemma_vint_width(num as nat);
        lemma_shift_limit(needed as u64);
        lemma_or_marker(num, (needed as u64 * 7) as u64);
    }
    let marked = num | (1u64 << (needed as u64 * 7));
    let bytes = be_bytes_vec(marked, needed);
    put_bytes(buf, pos, &bytes)
}

/// A bit length of at least `k + 1` for a value of at least 2 to the `k`.
pub proof fn lemma_bit_len_low(x: nat, k: nat)
    requires
        x >= pow2(k),
    ensures
        bit_len(x) >= k + 1,
    decreases k,
{
    vstd::arithmetic::power2::lemma_pow2_pos(k);
    if k > 0 {
        lemma_pow2_unfold(k);
        lemma_bit_len_low(x / 2, (k - 1) as nat);
    }
}

/// The width of a writable Element ID is 1 to 8 bytes.
proof fn lemma_vid_size_range(id: u64)
    requires
        writable_id(id),
    ensures
        1 <= spec_vid_size(id) <= 8,
{
    lemma2_to64();
    lemma2_to64_rest();
    lemma_bit_len_low((id + 1) as nat, 7);
    lemma_bit_len_bound((id + 1) as nat, 63);
}

/// Writes an Element ID: its [vid_size] low bytes, most significant first.
pub fn gen_vid(id: u64, buf: &mut Vec<u8>, pos: usize) -> (r: Result<usize, GenError>)
    requires
        writable_id(id),
    ensures
        r matches Ok(p) ==> pos <= p,
        final(buf)@.len() == old(buf)@.len(),
        (final(buf)@, r) == spec_gen_vid(id, old(buf)@, pos),
{
    proof {
        lemma_vid_size_range(id);
    }
    let needed = vid_size(id);
    let bytes = be_bytes_vec(id, needed);
    put_bytes(buf, pos, &bytes)
}

/// Writes an unsigned integer in [vint_size] bytes, most significant first.
pub fn gen_uint(num: u64, buf: &mut Vec<u8>, pos: usize) -> (r: Result<usize, GenError>)
    ensures
        r matches Ok(p) ==> pos <= p,
        final(buf)@.len() == old(buf)@.len(),
        (final(buf)@, r) == spec_gen_uint(num, old(buf)@, pos),
{
    let needed = match vint_size(num) {
        Ok(w) => w,
        Err(e) => return Err(e),
    };
    proof {
        lemma_vint_width(num as nat);
    }
    let bytes = be_bytes_vec(num, needed);
    put_bytes(buf, pos, &bytes)
}

/// Writes a signed integer as [gen_uint] writes its bits; a negative number
/// is refused (read unsigned it is too large for [vint_size]).
pub fn gen_int(num: i64, buf: &mut Vec<u8>, pos: usize) -> (r: Result<usize, GenError>)
    ensures
        r matches Ok(p) ==> pos <= p,
        final(buf)@.len() == old(buf)@.len(),
        (final(buf)@, r) == spec_gen_int(num, old(buf)@, pos),
{
    if num < 0 {
        return Err(GenError::CustomError(0));
    }
    gen_uint(num as u64, buf, pos)
}

/// What [gen_ebml_size] does: writes `size` as a VINT, provided it needs no
/// more than `expected_size` bytes.
pub open spec fn spec_gen_ebml_size(expected_size: u8, size: usize, buf: Seq<u8>, pos: usize) -> GenOut {
    match spec_vint_size(size as u64) {
        Err(e) => (buf, Err(e)),
        Ok(v) => if v > expected_size {
            (buf, Err(GenError::CustomError(0)))
        } else {
            spec_gen_vint(size as u64, buf, pos)
        },
    }
}

/// Writes an Element Data Size, which must fit in `expected_size` bytes.
pub fn gen_ebml_size(expected_size: u8, size: usize, buf: &mut Vec<u8>, pos: usize) -> (r: Result<usize, GenError>)
    ensures
        r matches Ok(p) ==> pos <= p,
        final(buf)@.len() == old(buf)@.len(),
        (final(buf)@, r) == spec_gen_ebml_size(expected_size, size, old(buf)@, pos),
{
    let v = match vint_size(size as u64) {
        Ok(v) => v,
        Err(e) => return Err(e),
    };
    if v > expected_size {
        Err(GenError::CustomError(0))
    } else {
        gen_vint(size as u64, buf, pos)
    }
}

/// What [gen_at_offset] does: goes back to `offset` to write the Element Data
/// Size `size`, then returns to `end`.
pub open spec fn spec_gen_at_offset(buf: Seq<u8>, offset: usize, end: usize, expected_size: u8, size: usize) -> GenOut {
    if buf.len() < offset {
        (buf, Err(GenError::BufferTooSmall((offset - buf.len()) as usize)))
    } else {
        let w = spec_gen_ebml_size(expected_size, size, buf, offset);
        (w.0, match w.1 {
            Ok(_) => Ok(end),
            Err(e) => Err(e),
        })
    }
}

/// Writes the Element Data Size `size` at `offset`, where room was left for
/// it, and leaves the position at `end`.
pub fn gen_at_offset(buf: &mut Vec<u8>, offset: usize, end: usize, expected_size: u8, size: usize) -> (r: Result<usize, GenError>)
    ensures
        (final(buf)@, r) == spec_gen_at_offset(old(buf)@, offset, end, expected_size, size),
        r matches Ok(p) ==> p == end,
        final(buf)@.len() == old(buf)@.len(),
{
    if buf.len() < offset {
        return Err(GenError::BufferTooSmall(offset - buf.len()));
    }
    match gen_ebml_size(expected_size, size, buf, offset) {
        Ok(_) => Ok(end),
        Err(e) => Err(e),
    }
}

/// An element written in place: its ID, `reserved` bytes left for its Data
/// Size, its data written by `content`, then its Data Size written back in
/// the room that was left (in at most `expected_size` bytes).
pub open spec fn spec_gen_element(
    id: u64,
    reserved: usize,
    expected_size: u8,
    content: spec_fn(Seq<u8>, usize) -> GenOut,
    buf: Seq<u8>,
    pos: usize,
) -> GenOut {
    then(
        spec_gen_vid(id, buf, pos),
        |b1: Seq<u8>, ofs: usize|
            then(
                (b1, spec_skip(b1.len(), ofs as int, reserved as nat)),
                |b2: Seq<u8>, start: usize|
                    then(
                        content(b2, start),
                        |b3: Seq<u8>, end: usize|
                            spec_gen_at_offset(b3, ofs, end, expected_size, (end - start) as usize),
                    ),
            ),
    )
}

/// What [gen_ebml_master_start] does: the ID, then room for the Data Size.
pub open spec fn spec_gen_master_start(id: u64, expected_size: u8, buf: Seq<u8>, pos: usize) -> (Seq<u8>, Result<(usize, usize), GenError>) {
    let w = spec_gen_vid(id, buf, pos);
    match w.1 {
        Ok(ofs) => match spec_skip(w.0.len(), ofs as int, expected_size as nat) {
            Ok(start) => (w.0, Ok((ofs, start))),
            Err(e) => (w.0, Err(e)),
        },
        Err(e) => (w.0, Err(e)),
    }
}

/// Starts a master element: writes its ID and leaves `expected_size` bytes
/// for its Data Size; returns where the Data Size goes and where the data
/// starts.
pub fn gen_ebml_master_start(id: u64, expected_size: u8, buf: &mut Vec<u8>, pos: usize) -> (r: Result<(usize, usize), GenError>)
    requires
        writable_id(id),
    ensures
        (final(buf)@, r) == spec_gen_master_start(id, expected_size, old(buf)@, pos),
        r matches Ok((ofs, start)) ==> pos <= ofs <= start && start == ofs + expected_size,
        final(buf)@.len() == old(buf)@.len(),
{
    let ofs = match gen_vid(id, buf, pos) {
        Ok(p) => p,
        Err(e) => return Err(e),
    };
    proof {
        assert(buf@.len() == buf.len());
    }
    match gen_skip(buf, ofs, expected_size as usize) {
        Ok(start) => Ok((ofs, start)),
        Err(e) => Err(e),
    }
}

/// What [gen_ebml_uint_l] does.
#[verifier::opaque]
pub open spec fn spec_gen_ebml_uint_l(id: u64, num: u64, expected_size: u8, buf: Seq<u8>, pos: usize) -> GenOut {
    match spec_vint_size(expected_size as u64) {
        Err(e) => (buf, Err(e)),
        Ok(needed) => spec_gen_element(
            id,
            needed as usize,
            expected_size,
            |b: Seq<u8>, p: usize| spec_gen_uint(num, b, p),
            buf,
            pos,
        ),
    }
}

/// Writes an unsigned integer element whose Data Size must fit in
/// `expected_size` bytes of data.
pub fn gen_ebml_uint_l(id: u64, num: u64, expected_size: u8, buf: &mut Vec<u8>, pos: usize) -> (r: Result<usize, GenError>)
    requires
        writable_id(id),
    ensures
        r matches Ok(p) ==> pos <= p,
        final(buf)@.len() == old(buf)@.len(),
        (final(buf)@, r) == spec_gen_ebml_uint_l(id, num, expected_size, old(buf)@, pos),
{
    proof {
        reveal(spec_gen_ebml_uint_l);
    }
    let needed = match vint_size(expected_size as u64) {
        Ok(n) => n,
        Err(e) => return Err(e),
    };
    let ofs = match gen_vid(id, buf, pos) {
        Ok(p) => p,
        Err(e) => return Err(e),
    };
    proof {
        assert(buf@.len() == buf.len());
    }
    let start = match gen_skip(buf, ofs, needed as usize) {
        Ok(p) => p,
        Err(e) => return Err(e),
    };
    let end = match gen_uint(num, buf, start) {
        Ok(p) => p,
        Err(e) => return Err(e),
    };
    gen_at_offset(buf, ofs, end, expected_size, end - start)
}

/// What [gen_ebml_uint] does.
#[verifier::opaque]
pub open spec fn spec_gen_ebml_uint(id: u64, num: u64, buf: Seq<u8>, pos: usize) -> GenOut {
    match spec_vint_size(num) {
        Err(e) => (buf, Err(e)),
        Ok(w) => spec_gen_ebml_uint_l(id, num, w, buf, pos),
    }
}

/// Writes an unsigned integer element: ID, Data Size, then the value in
/// [vint_size] bytes.
pub fn gen_ebml_uint(id: u64, num: u64, buf: &mut Vec<u8>, pos: usize) -> (r: Result<usize, GenError>)
    requires
        writable_id(id),
    ensures
        (final(buf)@, r) == spec_gen_ebml_uint(id, num, old(buf)@, pos),
        r matches Ok(p) ==> pos <= p,
        final(buf)@.len() == old(buf)@.len(),
{
    proof {
        reveal(spec_gen_ebml_uint);
    }
    let w = match vint_size(num) {
        Ok(w) => w,
        Err(e) => return Err(e),
    };
    gen_ebml_uint_l(id, num, w, buf, pos)
}

/// What [gen_ebml_int] does.
#[verifier::opaque]
pub open spec fn spec_gen_ebml_int(id: u64, num: i64, buf: Seq<u8>, pos: usize) -> GenOut {
    if num < 0 {
        (buf, Err(GenError::CustomError(0)))
    } else {
        match spec_vint_size(num as u64) {
            Err(e) => (buf, Err(e)),
            Ok(expected) => match spec_vint_size(expected as u64) {
                Err(e) => (buf, Err(e)),
                Ok(needed) => spec_gen_element(
                    id,
                    needed as usize,
                    expected,
                    |b: Seq<u8>, p: usize| spec_gen_int(num, b, p),
                    buf,
                    pos,
                ),
            },
        }
    }
}

/// Writes a signed integer element; negative numbers are refused, as by
/// [gen_int].
pub fn gen_ebml_int(id: u64, num: i64, buf: &mut Vec<u8>, pos: usize) -> (r: Result<usize, GenError>)
    requires
        writable_id(id),
    ensures
        (final(buf)@, r) == spec_gen_ebml_int(id, num, old(buf)@, pos),
        r matches Ok(p) ==> pos <= p,
        final(buf)@.len() == old(buf)@.len(),
{
    proof {
        reveal(spec_gen_ebml_int);
    }
    if num < 0 {
        return Err(GenError::CustomError(0));
    }
    let expected = match vint_size(num as u64) {
        Ok(w) => w,
        Err(e) => return Err(e),
    };
    let needed = match vint_size(expected as u64) {
        Ok(n) => n,
        Err(e) => return Err(e),
    };
    let ofs = match gen_vid(id, buf, pos) {
        Ok(p) => p,
        Err(e) => return Err(e),
    };
    proof {
        assert(buf@.len() == buf.len());
    }
    let start = match gen_skip(buf, ofs, needed as usize) {
        Ok(p) => p,
        Err(e) => return Err(e),
    };
    let end = match gen_int(num, buf, start) {
        Ok(p) => p,
        Err(e) => return Err(e),
    };
    gen_at_offset(buf, ofs, end, expected, end - start)
}

/// What [gen_ebml_binary] does with the bytes `data`.
#[verifier::opaque]
pub open spec fn spec_gen_ebml_binary(id: u64, data: Seq<u8>, buf: Seq<u8>, pos: usize) -> GenOut {
    match spec_vint_size(data.len() as u64) {
        Err(e) => (buf, Err(e)),
        Ok(v) => spec_gen_element(
            id,
            v as usize,
            v,
            |b: Seq<u8>, p: usize| spec_write(b, p as int, data),
            buf,
            pos,
        ),
    }
}

/// Writes a binary element: ID, Data Size, then the bytes.
pub fn gen_ebml_binary(id: u64, s: &[u8], buf: &mut Vec<u8>, pos: usize) -> (r: Result<usize, GenError>)
    requires
        writable_id(id),
    ensures
        (final(buf)@, r) == spec_gen_ebml_binary(id, s@, old(buf)@, pos),
        r matches Ok(p) ==> pos <= p,
        final(buf)@.len() == old(buf)@.len(),
{
    proof {
        reveal(spec_gen_ebml_binary);
    }
    let v = match vint_size(s.len() as u64) {
        Ok(v) => v,
        Err(e) => return Err(e),
    };
    let ofs = match gen_vid(id, buf, pos) {
        Ok(p) => p,
        Err(e) => return Err(e),
    };
    proof {
        assert(buf@.len() == buf.len());
    }
    let start = match gen_skip(buf, ofs, v as usize) {
        Ok(p) => p,
        Err(e) => return Err(e),
    };
    let end = match gen_slice(buf, start, s) {
        Ok(p) => p,
        Err(e) => return Err(e),
    };
    gen_at_offset(buf, ofs, end, v, end - start)
}

/// Writes a string element: its UTF-8 bytes, as [gen_ebml_binary] writes
/// bytes.
pub fn gen_ebml_str(id: u64, s: &String, buf: &mut Vec<u8>, pos: usize) -> (r: Result<usize, GenError>)
    requires
        writable_id(id),
    ensures
        (final(buf)@, r) == spec_gen_ebml_binary(id, encode_utf8(s@), old(buf)@, pos),
        r matches Ok(p) ==> pos <= p,
        final(buf)@.len() == old(buf)@.len(),
{
    gen_ebml_binary(id, s.as_str().as_bytes(), buf, pos)
}

/// The bytes of a float: big-endian, 4 or 8 of them.
pub open spec fn float_bytes(x: EbmlFloat) -> Seq<u8> {
    match x {
        EbmlFloat::F32(v) => be_bytes(v as nat, 4),
        EbmlFloat::F64(v) => be_bytes(v as nat, 8),
    }
}

/// What [gen_f64] does.
#[verifier::opaque]
pub open spec fn spec_gen_f64(id: u64, x: EbmlFloat, buf: Seq<u8>, pos: usize) -> GenOut {
    then(
        spec_gen_vid(id, buf, pos),
        |b1: Seq<u8>, p1: usize|
            then(
                spec_gen_vint(float_bytes(x).len() as u64, b1, p1),
                |b2: Seq<u8>, p2: usize| spec_write(b2, p2 as int, float_bytes(x)),
            ),
    )
}

/// `n` bytes of a number are `n` bytes long.
pub proof fn lemma_be_bytes_len(v: nat, n: nat)
    ensures
        be_bytes(v, n).len() == n,
    decreases n,
{
    if n > 0 {
        lemma_be_bytes_len(v / 256, (n - 1) as nat);
    }
}

/// Writes a float element: ID, Data Size, then the big-endian bits.
pub fn gen_f64(id: u64, x: EbmlFloat, buf: &mut Vec<u8>, pos: usize) -> (r: Result<usize, GenError>)
    requires
        writable_id(id),
    ensures
        (final(buf)@, r) == spec_gen_f64(id, x, old(buf)@, pos),
        r matches Ok(p) ==> pos <= p,
        final(buf)@.len() == old(buf)@.len(),
{
    proof {
        reveal(spec_gen_f64);
    }
    let p1 = match gen_vid(id, buf, pos) {
        Ok(p) => p,
        Err(e) => return Err(e),
    };
    proof {
        assert(buf@.len() == buf.len());
        lemma_be_bytes_len(0, 4);
        lemma_be_bytes_len(0, 8);
        match x {
            EbmlFloat::F32(v) => lemma_be_bytes_len(v as nat, 4),
            EbmlFloat::F64(v) => lemma_be_bytes_len(v as nat, 8),
        }
    }
    match x {
        EbmlFloat::F32(v) => {
            let p2 = match gen_vint(4, buf, p1) {
                Ok(p) => p,
                Err(e) => return Err(e),
            };
            proof {
                assert(buf@.len() == buf.len());
            }
            set_be_u32(buf, p2, v)
        },
        EbmlFloat::F64(v) => {
            let p2 = match gen_vint(8, buf, p1) {
                Ok(p) => p,
                Err(e) => return Err(e),
            };
            proof {
                assert(buf@.len() == buf.len());
            }
            set_be_u64(buf, p2, v)
        },
    }
}

/// The bytes of the Data Size of an element with `cap` bytes of data, as
/// [EbmlSize] counts them: 0 when `cap` is too large for a VINT.
pub open spec fn size_tag(cap: nat) -> nat {
    if cap < vint_max() {
        vint_width(cap)
    } else {
        0
    }
}

/// The bytes of an element with ID `id` and `cap` bytes of data.
pub open spec fn spec_elem_total(id: u64, cap: nat) -> nat {
    spec_vid_size(id) + size_tag(cap) + cap
}

/// The bytes of an element with ID `id` and `cap` bytes of data.
pub fn elem_total(id: u64, cap: usize) -> (r: usize)
    requires
        id < u64::MAX,
        spec_elem_total(id, cap as nat) <= usize::MAX,
    ensures
        r == spec_elem_total(id, cap as nat),
{
    let id_size = vid_size(id);
    let tag: u8 = match vint_size(cap as u64) {
        Ok(w) => w,
        Err(_) => 0,
    };
    id_size as usize + tag as usize + cap
}

/// How many bytes a value takes once serialized as an EBML element.
pub trait EbmlSize {
    /// The number of bytes of the data of `self`.
    spec fn spec_capacity(&self) -> nat;

    /// The number of bytes of `self` as an element with ID `id`.
    spec fn spec_size(&self, id: u64) -> nat;

    /// The number of bytes of the data of `self`.
    fn capacity(&self) -> (r: usize)
        requires
            self.spec_capacity() <= usize::MAX,
        ensures
            r == self.spec_capacity(),
    ;

    /// The number of bytes of `self` as an element with ID `id`: the ID,
    /// the Data Size and the data.
    fn size(&self, id: u64) -> (r: usize)
        requires
            id < u64::MAX,
            self.spec_size(id) <= usize::MAX,
        ensures
            r == self.spec_size(id),
    ;
}

impl EbmlSize for u64 {
    open spec fn spec_capacity(&self) -> nat {
        size_tag(*self as nat)
    }

    open spec fn spec_size(&self, id: u64) -> nat {
        spec_elem_total(id, self.spec_capacity())
    }

    fn capacity(&self) -> (r: usize) {
        match vint_size(*self) {
            Ok(w) => w as usize,
            Err(_) => 0,
        }
    }

    fn size(&self, id: u64) -> (r: usize) {
        elem_total(id, EbmlSize::capacity(self))
    }
}

impl EbmlSize for i64 {
    open spec fn spec_capacity(&self) -> nat {
        if *self < 0 {
            0
        } else {
            size_tag(*self as nat)
        }
    }

    open spec fn spec_size(&self, id: u64) -> nat {
        spec_elem_total(id, self.spec_capacity())
    }

    fn capacity(&self) -> (r: usize) {
        if *self < 0 {
            return 0;
        }
        match vint_size(*self as u64) {
            Ok(w) => w as usize,
            Err(_) => 0,
        }
    }

    fn size(&self, id: u64) -> (r: usize) {
        elem_total(id, EbmlSize::capacity(self))
    }
}

impl EbmlSize for EbmlFloat {
    open spec fn spec_capacity(&self) -> nat {
        match *self {
            EbmlFloat::F32(_) => 4,
            EbmlFloat::F64(_) => 8,
        }
    }

    open spec fn spec_size(&self, id: u64) -> nat {
        spec_elem_total(id, self.spec_capacity())
    }

    fn capacity(&self) -> (r: usize) {
        match *self {
            EbmlFloat::F32(_) => 4,
            EbmlFloat::F64(_) => 8,
        }
    }

    fn size(&self, id: u64) -> (r: usize) {
        elem_total(id, EbmlSize::capacity(self))
    }
}

impl EbmlSize for Date {
    open spec fn spec_capacity(&self) -> nat {
        8
    }

    open spec fn spec_size(&self, id: u64) -> nat {
        spec_elem_total(id, self.spec_capacity())
    }

    fn capacity(&self) -> (r: usize) {
        8
    }

    fn size(&self, id: u64) -> (r: usize) {
        elem_total(id, EbmlSize::capacity(self))
    }
}

impl EbmlSize for String {
    open spec fn spec_capacity(&self) -> nat {
        encode_utf8(self@).len()
    }

    open spec fn spec_size(&self, id: u64) -> nat {
        spec_elem_total(id, self.spec_capacity())
    }

    fn capacity(&self) -> (r: usize) {
        self.as_str().as_bytes().len()
    }

    fn size(&self, id: u64) -> (r: usize) {
        elem_total(id, EbmlSize::capacity(self))
    }
}

impl EbmlSize for Vec<u8> {
    open spec fn spec_capacity(&self) -> nat {
        self@.len()
    }

    open spec fn spec_size(&self, id: u64) -> nat {
        spec_elem_total(id, self.spec_capacity())
    }

    fn capacity(&self) -> (r: usize) {
        self.len()
    }

    fn size(&self, id: u64) -> (r: usize) {
        elem_total(id, EbmlSize::capacity(self))
    }
}

impl EbmlSize for [u8; 16] {
    open spec fn spec_capacity(&self) -> nat {
        16
    }

    open spec fn spec_size(&self, id: u64) -> nat {
        spec_elem_total(id, self.spec_capacity())
    }

    fn capacity(&self) -> (r: usize) {
        16
    }

    fn size(&self, id: u64) -> (r: usize) {
        elem_total(id, EbmlSize::capacity(self))
    }
}

impl EbmlSize for [u8; 4] {
    open spec fn spec_capacity(&self) -> nat {
        4
    }

    open spec fn spec_size(&self, id: u64) -> nat {
        spec_elem_total(id, self.spec_capacity())
    }

    fn capacity(&self) -> (r: usize) {
        4
    }

    fn size(&self, id: u64) -> (r: usize) {
        elem_total(id, EbmlSize::capacity(self))
    }
}

impl<T: EbmlSize> EbmlSize for Option<T> {
    open spec fn spec_capacity(&self) -> nat {
        match self {
            Some(v) => v.spec_capacity(),
            None => 0,
        }
    }

    open spec fn spec_size(&self, id: u64) -> nat {
        match self {
            Some(_) => spec_elem_total(id, self.spec_capacity()),
            None => 0,
        }
    }

    fn capacity(&self) -> (r: usize) {
        match self {
            Some(v) => v.capacity(),
            None => 0,
        }
    }

    fn size(&self, id: u64) -> (r: usize) {
        match self {
            Some(_) => elem_total(id, EbmlSize::capacity(self)),
            None => 0,
        }
    }
}

/// The total length of a list of byte strings.
pub open spec fn total_len(v: Seq<Vec<u8>>) -> nat
    decreases v.len(),
{
    if v.len() == 0 {
        0
    } else {
        total_len(v.drop_last()) + v.last()@.len()
    }
}

impl EbmlSize for Vec<Vec<u8>> {
    open spec fn spec_capacity(&self) -> nat {
        total_len(self@)
    }

    open spec fn spec_size(&self, id: u64) -> nat {
        spec_elem_total(id, self.spec_capacity())
    }

    fn capacity(&self) -> (r: usize) {
        let mut acc: usize = 0;
        let mut i: usize = 0;
        while i < self.len()
            invariant
                i <= self@.len(),
                acc == total_len(self@.take(i as int)),
                total_len(self@) <= usize::MAX,
            decreases self.len() - i,
        {
            proof {
                assert(self@.take(i + 1).drop_last() =~= self@.take(i as int));
                lemma_total_len_prefix(self@, i + 1);
            }
            acc = acc + self[i].len();
            i = i + 1;
        }
        proof {
            assert(self@.take(i as int) =~= self@);
        }
        acc
    }

    fn size(&self, id: u64) -> (r: usize) {
        elem_total(id, EbmlSize::capacity(self))
    }
}

/// A prefix of a list of byte strings is no longer than the list.
pub proof fn lemma_total_len_prefix(v: Seq<Vec<u8>>, k: int)
    requires
        0 <= k <= v.len(),
    ensures
        total_len(v.take(k)) <= total_len(v),
    decreases v.len() - k,
{
    if k < v.len() {
        assert(v.take(k + 1).drop_last() =~= v.take(k));
        lemma_total_len_prefix(v, k + 1);
    } else {
        assert(v.take(k) =~= v);
    }
}

impl EbmlSize for EbmlHeader {
    open spec fn spec_capacity(&self) -> nat {
        (self.version as u64).spec_size(0x4286)
            + (self.read_version as u64).spec_size(0x42F7)
            + (self.max_id_length as u64).spec_size(0x42F2)
            + (self.max_size_length as u64).spec_size(0x42F3)
            + self.doc_type.spec_size(0x4282)
            + (self.doc_type_version as u64).spec_size(0x4287)
            + (self.doc_type_read_version as u64).spec_size(0x4285)
    }

    open spec fn spec_size(&self, id: u64) -> nat {
        spec_elem_total(id, self.spec_capacity())
    }

    fn capacity(&self) -> (r: usize) {
        (self.version as u64).size(0x4286)
            + (self.read_version as u64).size(0x42F7)
            + (self.max_id_length as u64).size(0x42F2)
            + (self.max_size_length as u64).size(0x42F3)
            + self.doc_type.size(0x4282)
            + (self.doc_type_version as u64).size(0x4287)
            + (self.doc_type_read_version as u64).size(0x4285)
    }

    fn size(&self, id: u64) -> (r: usize) {
        elem_total(id, EbmlSize::capacity(self))
    }
}

/// What the fields of an EBML Header take when [gen_ebml_header] writes them.
pub open spec fn spec_gen_header_fields(h: EbmlHeader, buf: Seq<u8>, pos: usize) -> GenOut {
    then(spec_gen_ebml_uint_l(0x4286, h.version as u64, 1, buf, pos), |b: Seq<u8>, p: usize|
    then(spec_gen_ebml_uint_l(0x42F7, h.read_version as u64, 1, b, p), |b: Seq<u8>, p: usize|
    then(spec_gen_ebml_uint_l(0x42F2, h.max_id_length as u64, 1, b, p), |b: Seq<u8>, p: usize|
    then(spec_gen_ebml_uint_l(0x42F3, h.max_size_length as u64, 1, b, p), |b: Seq<u8>, p: usize|
    then(spec_gen_ebml_binary(0x4282, encode_utf8(h.doc_type@), b, p), |b: Seq<u8>, p: usize|
    then(spec_gen_ebml_uint_l(0x4287, h.doc_type_version as u64, 1, b, p), |b: Seq<u8>, p: usize|
    spec_gen_ebml_uint_l(0x4285, h.doc_type_read_version as u64, 1, b, p)))))))
}

/// What [gen_ebml_header] does.
pub open spec fn spec_gen_ebml_header(h: EbmlHeader, buf: Seq<u8>, pos: usize) -> GenOut {
    match spec_vint_size(h.spec_capacity() as u64) {
        Err(e) => (buf, Err(e)),
        Ok(es) => spec_gen_element(
            0x1A45DFA3,
            es as usize,
            es,
            |b: Seq<u8>, p: usize| spec_gen_header_fields(h, b, p),
            buf,
            pos,
        ),
    }
}

/// Writes the EBML Header: each version field in an element whose Data Size
/// takes 1 byte, and the DocType string.
pub fn gen_ebml_header(h: &EbmlHeader, buf: &mut Vec<u8>, pos: usize) -> (r: Result<usize, GenError>)
    requires
        h.spec_capacity() <= usize::MAX,
    ensures
        (final(buf)@, r) == spec_gen_ebml_header(*h, old(buf)@, pos),
        r matches Ok(p) ==> pos <= p,
        final(buf)@.len() == old(buf)@.len(),
{
    let cap = h.capacity();
    let es = match vint_size(cap as u64) {
        Ok(w) => w,
        Err(e) => return Err(e),
    };
    let (ofs, start) = match gen_ebml_master_start(0x1A45DFA3, es, buf, pos) {
        Ok(x) => x,
        Err(e) => return Err(e),
    };
    let p = match gen_ebml_uint_l(0x4286, h.version as u64, 1, buf, start) {
        Ok(p) => p,
        Err(e) => return Err(e),
    };
    let p = match gen_ebml_uint_l(0x42F7, h.read_version as u64, 1, buf, p) {
        Ok(p) => p,
        Err(e) => return Err(e),
    };
    let p = match gen_ebml_uint_l(0x42F2, h.max_id_length as u64, 1, buf, p) {
        Ok(p) => p,
        Err(e) => return Err(e),
    };
    let p = match gen_ebml_uint_l(0x42F3, h.max_size_length as u64, 1, buf, p) {
        Ok(p) => p,
        Err(e) => return Err(e),
    };
    let p = match gen_ebml_str(0x4282, &h.doc_type, buf, p) {
        Ok(p) => p,
        Err(e) => return Err(e),
    };
    let p = match gen_ebml_uint_l(0x4287, h.doc_type_version as u64, 1, buf, p) {
        Ok(p) => p,
        Err(e) => return Err(e),
    };
    let end = match gen_ebml_uint_l(0x4285, h.doc_type_read_version as u64, 1, buf, p) {
        Ok(p) => p,
        Err(e) => return Err(e),
    };
    gen_at_offset(buf, ofs, end, es, end - start)
}

} // verus!
