use vstd::prelude::*;
use vstd::arithmetic::div_mod::{lemma_breakdown, lemma_div_denominator, lemma_fundamental_div_mod};

use crate::ebml::error::EbmlErr;
use crate::ebml::parse::{
    be_acc, lemma_be_acc_push, lemma_marker_scaled, lemma_pow256_mono, marker, pow256,
    spec_leading_zeros, spec_vint, vint_limit,
};
use crate::serializer::cookie_utils::{be_bytes, spec_write};
use crate::serializer::ebml::{
    lemma_be_bytes_len, lemma_bit_len_bound, lemma_bit_len_low, spec_gen_vid, spec_gen_vint,
    spec_vid_size, spec_vint_size, vint_max, vint_width,
};
use crate::ebml::parse::{be_value, lemma_pow256_values, spec_elem_size, spec_parse_u64, spec_vid};
use crate::ebml::fields::rel_u64;
use crate::ebml::schema::FieldKind;
use crate::permutation::{range_bytes, spec_element};
use crate::serializer::ebml::{spec_gen_ebml_uint, spec_gen_ebml_uint_l};
use vstd::arithmetic::power2::lemma2_to64;

verus! {

/// `n` bytes of `v` read big-endian after the digits of `init`.
pub proof fn lemma_be_acc_bytes(init: nat, v: nat, n: nat)
    ensures
        be_acc(init, be_bytes(v, n)) == init * pow256(n) + v % pow256(n),
    decreases n,
{
    if n == 0 {
        assert(v % 1 == 0);
    } else {
        let p = pow256((n - 1) as nat);
        lemma_pow256_mono(0, (n - 1) as nat);
        lemma_be_acc_bytes(init, v / 256, (n - 1) as nat);
        lemma_be_acc_push(init, be_bytes(v / 256, (n - 1) as nat), (v % 256) as u8);
        lemma_breakdown(v as int, 256, p as int);
        let q = (v / 256) % p;
        assert((init * p + q) * 256 + v % 256 == init * (256 * p) + (256 * q + v % 256)) by (nonlinear_arith);
    }
}

/// The first of `n` bytes of `v`, then the other `n - 1`.
pub proof fn lemma_be_bytes_first(v: nat, n: nat)
    requires
        n >= 1,
    ensures
        be_bytes(v, n) =~= seq![((v / pow256((n - 1) as nat)) % 256) as u8] + be_bytes(v, (n - 1) as nat),
    decreases n,
{
    if n == 1 {
        assert(pow256(0) == 1);
        assert(v / 1 == v);
        assert(be_bytes(v, 0) =~= Seq::<u8>::empty());
        assert(be_bytes(v / 256, 0) =~= Seq::<u8>::empty());
    } else {
        let n1 = (n - 1) as nat;
        let n2 = (n - 2) as nat;
        lemma_be_bytes_first(v / 256, n1);
        lemma_pow256_mono(0, n2);
        assert(pow256(n1) == 256 * pow256(n2));
        lemma_div_denominator(v as int, 256, pow256(n2) as int);
        let x = (((v / 256) / pow256(n2)) % 256) as u8;
        assert(x == ((v / pow256(n1)) % 256) as u8);
        assert(be_bytes(v / 256, n1) =~= seq![x] + be_bytes(v / 256, n2));
        assert(be_bytes(v, n) =~= be_bytes(v / 256, n1).push((v % 256) as u8));
        assert(be_bytes(v, n1) =~= be_bytes(v / 256, n2).push((v % 256) as u8));
        assert(be_bytes(v, n) =~= seq![x] + be_bytes(v, n1));
    }
}

/// A first byte between the marker of a width and twice that marker has
/// the leading zeros of that width.
proof fn lemma_leading_zeros_of(lz: nat, q: nat)
    requires
        lz < 8,
        marker(lz) <= q < 2 * marker(lz),
    ensures
        spec_leading_zeros(q as u8) == lz,
{
}

/// Bytes that hold the VINT of `num` at their start read back as `num`.
pub proof fn lemma_vint_reads(num: u64, s: Seq<u8>)
    requires
        num < vint_max(),
        s.len() >= vint_width(num as nat),
        s.subrange(0, vint_width(num as nat) as int)
            == be_bytes((num + vint_limit(vint_width(num as nat))) as nat, vint_width(num as nat)),
    ensures
        spec_vint(s) == Ok::<(usize, u64), EbmlErr>((vint_width(num as nat) as usize, num)),
{
    let w = vint_width(num as nat);
    let lz = (w - 1) as nat;
    let l = vint_limit(w);
    let m: nat = (num + l) as nat;
    let data = be_bytes(m as nat, w);
    lemma_be_bytes_len(m as nat, w);
    let p = pow256(lz);
    let mk = marker(lz);
    lemma_marker_scaled(lz);
    lemma_pow256_mono(0, lz);
    lemma_be_bytes_first(m as nat, w);
    lemma_fundamental_div_mod(m as int, p as int);
    let q = m / p;
    let r = m % p;
    assert(mk <= q < 2 * mk) by (nonlinear_arith)
        requires
            m == p * q + r,
            0 <= r < p,
            mk * p == l,
            l <= m < 2 * l,
            p > 0,
    ;
    assert(mk <= 128) by {
        assert(lz < 8);
    }
    assert(q % 256 == q);
    assert(s[0] == s.subrange(0, w as int)[0]);
    assert(s[0] == q as u8);
    lemma_leading_zeros_of(lz, q as nat);
    assert(s.subrange(1, (lz + 1) as int) =~= s.subrange(0, w as int).subrange(1, w as int));
    assert(s.subrange(1, (lz + 1) as int) =~= be_bytes(m as nat, lz));
    lemma_be_acc_bytes((q - mk) as nat, m as nat, lz);
    assert((q - mk) * p + r == num) by (nonlinear_arith)
        requires
            m == p * q + r,
            mk * p == l,
            m == num + l,
    ;
    assert(be_acc((s[0] - marker(lz)) as nat, s.subrange(1, (lz + 1) as int)) == num);
    assert(spec_leading_zeros(s[0]) == lz);
}

/// A write that fits leaves its bytes in place and the others as they were.
pub proof fn lemma_write_at(b: Seq<u8>, q: int, d: Seq<u8>)
    requires
        0 <= q,
        q + d.len() <= b.len(),
    ensures
        spec_write(b, q, d).0.len() == b.len(),
        spec_write(b, q, d).0.subrange(q, q + d.len()) == d,
        forall|i: int| 0 <= i < b.len() && !(q <= i < q + d.len()) ==> #[trigger] spec_write(b, q, d).0[i] == b[i],
        spec_write(b, q, d).1 == Ok::<usize, crate::serializer::cookie_utils::GenError>((q + d.len()) as usize),
{
    let out = spec_write(b, q, d).0;
    if d.len() == 0 {
        assert(out.subrange(q, q) =~= d);
    } else {
        assert(out.subrange(q, q + d.len()) =~= d);
    }
}

/// What [gen_vint](crate::serializer::ebml::gen_vint) writes,
/// [vint](crate::ebml::parse::vint) reads back: parsing the buffer from
/// where the VINT was written gives the number and the bytes it took.
pub proof fn law_vint_roundtrip(num: u64, buf: Seq<u8>, pos: usize)
    requires
        buf.len() <= usize::MAX,
        spec_gen_vint(num, buf, pos).1 is Ok,
    ensures
        spec_gen_vint(num, buf, pos).1 matches Ok(p) && spec_vint(spec_gen_vint(num, buf, pos).0.skip(pos as int))
            == Ok::<(usize, u64), EbmlErr>(((p - pos) as usize, num)),
{
    let w = vint_width(num as nat);
    assert(spec_vint_size(num) == Ok::<u8, crate::serializer::cookie_utils::GenError>(w as u8));
    let m: nat = (num + vint_limit(w)) as nat;
    let data = be_bytes(m, w);
    lemma_be_bytes_len(m, w);
    assert(pos + w <= buf.len());
    lemma_write_at(buf, pos as int, data);
    let out = spec_write(buf, pos as int, data).0;
    let s = out.skip(pos as int);
    assert(s.subrange(0, w as int) =~= out.subrange(pos as int, pos + w));
    lemma_vint_reads(num, s);
}

/// An Element ID of 1 to 4 bytes whose first byte marks its width, as
/// EBML IDs are written.
pub open spec fn ebml_class_id(id: u64) -> bool {
    ||| 0x80 <= id <= 0xFF
    ||| 0x4000 <= id <= 0x7FFF
    ||| 0x200000 <= id <= 0x3FFFFF
    ||| 0x10000000 <= id <= 0x1FFFFFFF
}

/// The width that [gen_vid](crate::serializer::ebml::gen_vid) gives an ID of
/// a class is that class's width.
pub proof fn lemma_class_width(id: u64)
    requires
        ebml_class_id(id),
    ensures
        1 <= spec_vid_size(id) <= 4,
        vint_limit(spec_vid_size(id)) <= id < 2 * vint_limit(spec_vid_size(id)),
{
    lemma2_to64();
    let x = (id + 1) as nat;
    if id <= 0xFF {
        lemma_bit_len_low(x, 7);
        lemma_bit_len_bound(x, 9);
    } else if id <= 0x7FFF {
        lemma_bit_len_low(x, 14);
        lemma_bit_len_bound(x, 16);
    } else if id <= 0x3FFFFF {
        lemma_bit_len_low(x, 21);
        lemma_bit_len_bound(x, 23);
    } else {
        lemma_bit_len_low(x, 28);
        lemma_bit_len_bound(x, 30);
    }
}

/// Bytes that start with an EBML ID, and hold a byte past it, read back
/// as that ID.
pub proof fn lemma_vid_reads(id: u64, s: Seq<u8>)
    requires
        ebml_class_id(id),
        s.len() > spec_vid_size(id),
        s.subrange(0, spec_vid_size(id) as int) == be_bytes(id as nat, spec_vid_size(id)),
    ensures
        spec_vid(s) == Ok::<(usize, u32), EbmlErr>((spec_vid_size(id) as usize, id as u32)),
{
    lemma_class_width(id);
    let w = spec_vid_size(id);
    let lz = (w - 1) as nat;
    let data = be_bytes(id as nat, w);
    lemma_be_bytes_len(id as nat, w);
    let p = pow256(lz);
    let mk = marker(lz);
    let l = vint_limit(w);
    lemma_marker_scaled(lz);
    lemma_pow256_mono(0, lz);
    lemma_be_bytes_first(id as nat, w);
    lemma_fundamental_div_mod(id as int, p as int);
    let q = id as nat / p;
    let r = id as nat % p;
    assert(mk <= q < 2 * mk) by (nonlinear_arith)
        requires
            id == p * q + r,
            0 <= r < p,
            mk * p == l,
            l <= id < 2 * l,
            p > 0,
    ;
    assert(mk <= 128);
    assert(q % 256 == q);
    assert(s[0] == s.subrange(0, w as int)[0]);
    assert(s[0] == q as u8);
    lemma_leading_zeros_of(lz, q);
    lemma_be_acc_bytes(0, id as nat, w);
    lemma_pow256_values();
    assert(id < pow256(w));
    vstd::arithmetic::div_mod::lemma_small_mod(id as nat, pow256(w));
    assert(be_value(s.subrange(0, w as int)) == id);
    assert(spec_leading_zeros(s[0]) == lz);
}

/// What [gen_vid](crate::serializer::ebml::gen_vid) writes for an EBML ID,
/// [vid](crate::ebml::parse::vid) reads back, when the buffer holds a byte
/// past it.
pub proof fn law_vid_roundtrip(id: u64, buf: Seq<u8>, pos: usize)
    requires
        buf.len() <= usize::MAX,
        ebml_class_id(id),
        spec_gen_vid(id, buf, pos).1 matches Ok(p) && p < buf.len(),
    ensures
        spec_gen_vid(id, buf, pos).1 matches Ok(p) && spec_vid(spec_gen_vid(id, buf, pos).0.skip(pos as int))
            == Ok::<(usize, u32), EbmlErr>(((p - pos) as usize, id as u32)),
{
    lemma_class_width(id);
    let w = spec_vid_size(id);
    let data = be_bytes(id as nat, w);
    lemma_be_bytes_len(id as nat, w);
    lemma_write_at(buf, pos as int, data);
    let out = spec_write(buf, pos as int, data).0;
    let s = out.skip(pos as int);
    assert(s.subrange(0, w as int) =~= out.subrange(pos as int, pos + w));
    lemma_vid_reads(id, s);
}

/// What [gen_ebml_uint](crate::serializer::ebml::gen_ebml_uint) writes with
/// an EBML ID, [element](crate::permutation::element) reads back as an
/// unsigned integer element whose value is the number:
/// [ebml_uint](crate::ebml::element::ebml_uint) returns it.
#[verifier::rlimit(50)]
pub proof fn law_ebml_uint_roundtrip(id: u64, num: u64, buf: Seq<u8>, pos: usize)
    requires
        buf.len() <= usize::MAX,
        ebml_class_id(id),
        spec_gen_ebml_uint(id, num, buf, pos).1 is Ok,
    ensures
        spec_gen_ebml_uint(id, num, buf, pos).1 matches Ok(p)
            && spec_element(id as u32, FieldKind::Uint, spec_gen_ebml_uint(id, num, buf, pos).0.skip(pos as int)) matches Ok((n, rg))
            && n == p - pos
            && rel_u64(range_bytes(spec_gen_ebml_uint(id, num, buf, pos).0.skip(pos as int), rg), num),
{
    reveal(spec_gen_ebml_uint);
    reveal(spec_gen_ebml_uint_l);
    lemma_class_width(id);
    let w = vint_width(num as nat);
    assert(spec_vint_size(num) == Ok::<u8, crate::serializer::cookie_utils::GenError>(w as u8));
    assert(vint_width(w as nat) == 1);
    assert(spec_vint_size(w as u64) == Ok::<u8, crate::serializer::cookie_utils::GenError>(1));
    let k = spec_vid_size(id);
    let vid_bytes = be_bytes(id as nat, k);
    lemma_be_bytes_len(id as nat, k);
    let num_bytes = be_bytes(num as nat, w);
    lemma_be_bytes_len(num as nat, w);
    let size_bytes = be_bytes((w + vint_limit(1)) as nat, 1);
    lemma_be_bytes_len((w + vint_limit(1)) as nat, 1);
    assert(spec_vint_size(w as u64) == Ok::<u8, crate::serializer::cookie_utils::GenError>(vint_width(w as nat) as u8));
    // The buffer after each write.
    let ofs = (pos + k) as usize;
    let start = (ofs + 1) as usize;
    let end = (start + w) as usize;
    assert(end <= buf.len());
    lemma_write_at(buf, pos as int, vid_bytes);
    let b1 = spec_write(buf, pos as int, vid_bytes).0;
    lemma_write_at(b1, start as int, num_bytes);
    let b3 = spec_write(b1, start as int, num_bytes).0;
    lemma_write_at(b3, ofs as int, size_bytes);
    let b4 = spec_write(b3, ofs as int, size_bytes).0;
    assert(spec_gen_ebml_uint(id, num, buf, pos) == (b4, Ok::<usize, crate::serializer::cookie_utils::GenError>(end)));
    let s = b4.skip(pos as int);
    assert(s.subrange(0, k as int) =~= vid_bytes) by {
        assert forall|i: int| 0 <= i < k implies s.subrange(0, k as int)[i] == vid_bytes[i] by {
            assert(b4[pos + i] == b3[pos + i]);
            assert(b3[pos + i] == b1[pos + i]);
            assert(b1.subrange(pos as int, pos + k)[i] == b1[pos + i]);
        }
    }
    lemma_vid_reads(id, s);
    let rest = s.skip(k as int);
    assert(rest.subrange(0, 1) =~= size_bytes) by {
        assert(rest[0] == b4[ofs as int]);
        assert(b4.subrange(ofs as int, ofs + 1)[0] == b4[ofs as int]);
    }
    lemma_vint_reads(w as u64, rest);
    assert(spec_elem_size(rest) == Ok::<(usize, usize), EbmlErr>((1, w as usize)));
    let payload = s.subrange((k + 1) as int, (k + 1 + w) as int);
    assert(payload =~= num_bytes) by {
        assert forall|i: int| 0 <= i < w implies payload[i] == num_bytes[i] by {
            assert(b4[start + i] == b3[start + i]);
            assert(b3.subrange(start as int, start + w)[i] == b3[start + i]);
        }
    }
    lemma_be_acc_bytes(0, num as nat, w);
    lemma_pow256_values();
    assert(num < pow256(w));
    vstd::arithmetic::div_mod::lemma_small_mod(num as nat, pow256(w));
    assert(be_value(payload) == num);
    assert(spec_parse_u64(payload) == Ok::<u64, crate::ebml::error::ErrorKind>(num));
    assert(range_bytes(s, ((k + 1) as usize, w as usize)) =~= payload);
}

} // verus!
