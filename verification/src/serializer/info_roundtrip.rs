use vstd::prelude::*;

use crate::ebml::parse::{vint_limit, Date, EbmlFloat};
use crate::elements::masters::Info;
use crate::serializer::cookie_utils::{be_bytes, spec_write, GenError};
use crate::serializer::ebml::{
    float_bytes, lemma_be_bytes_len, spec_elem_total, spec_gen_ebml_binary, spec_gen_ebml_uint,
    spec_gen_f64, spec_vid_size, spec_vint_size, vint_max, vint_width, EbmlSize, GenOut,
};
use crate::serializer::elements::{
    date_bytes, spec_gen_info, spec_gen_info_fields0, spec_gen_info_fields1, spec_gen_info_fields2,
    spec_gen_info_fields3,
};
use crate::serializer::header_roundtrip::{
    enc_bin, enc_uint, lemma_enc_uint_len, lemma_gen_binary, lemma_gen_uint_short, lemma_splice_twice,
    splice,
};
use crate::serializer::roundtrip::{ebml_class_id, lemma_class_width, lemma_write_at};
use crate::serializer::seek_roundtrip::{enc_elem, lemma_gen_element_exact, lemma_gen_element_room};
use crate::serializer::ebml::spec_gen_element;
use vstd::utf8::{encode_utf8, encode_utf8_decode_utf8, encode_utf8_valid_utf8};
use crate::ebml::fields::{rel_date, rel_float, rel_str, rel_u64, rel_uuid};
use crate::ebml::parse::{lemma_pow256_values, pow256};
use crate::ebml::schema::{schema, FieldKind, MasterId};
use crate::permutation::{
    empty_slots, lemma_element_ok, missing_required, perm_loop, permutation_err, range_bytes,
    spec_check_payload, spec_element, spec_master, try_fields, Slots,
};
use crate::ebml::error::{spec_error_or, Error};
use crate::serializer::header_roundtrip::lemma_not_elem;
use crate::serializer::header_roundtrip::lemma_read_data_elem;
use crate::serializer::roundtrip::lemma_be_acc_bytes;
use crate::serializer::seek_roundtrip::lemma_read_uint_elem;
use crate::ebml::error::EbmlErr;
use crate::ebml::parse::spec_elem_size;
use crate::elements::{segment_element_is, spec_segment_element, spec_sub_element, SegmentElement};
use crate::permutation::spec_crc;
use crate::serializer::roundtrip::{lemma_vid_reads, lemma_vint_reads};

verus! {

/// The bytes of an optional binary element: none when there is no data.
pub open spec fn opt_bin(id: u64, data: Option<Seq<u8>>) -> Seq<u8> {
    match data {
        Some(d) => enc_bin(id, d),
        None => Seq::empty(),
    }
}

/// The UTF-8 bytes of an optional string.
pub open spec fn opt_str(s: Option<String>) -> Option<Seq<u8>> {
    match s {
        Some(v) => Some(encode_utf8(v@)),
        None => None,
    }
}

/// The bytes of an optional UUID.
pub open spec fn opt_uuid(u: Option<[u8; 16]>) -> Option<Seq<u8>> {
    match u {
        Some(v) => Some(v@),
        None => None,
    }
}

/// The Element ID of the `k`-th field of an Info.
pub open spec fn info_id(k: int) -> u64 {
    if k == 0 {
        0x73A4
    } else if k == 1 {
        0x7384
    } else if k == 2 {
        0x3CB923
    } else if k == 3 {
        0x3C83AB
    } else if k == 4 {
        0x3EB923
    } else if k == 5 {
        0x3E83BB
    } else if k == 6 {
        0x4444
    } else if k == 7 {
        0x2AD7B1
    } else if k == 8 {
        0x4489
    } else if k == 9 {
        0x4461
    } else if k == 10 {
        0x7BA9
    } else if k == 11 {
        0x4D80
    } else {
        0x5741
    }
}

/// The data of the `k`-th field of an Info but its timestamp scale (the
/// 7th, an unsigned integer): the bytes of a UUID, of a string in UTF-8, of
/// a float or of a date; none for an absent optional field.
pub open spec fn info_data(x: Info, k: int) -> Option<Seq<u8>> {
    if k == 0 {
        opt_uuid(x.segment_uid)
    } else if k == 1 {
        opt_str(x.segment_filename)
    } else if k == 2 {
        opt_uuid(x.prev_uid)
    } else if k == 3 {
        opt_str(x.prev_filename)
    } else if k == 4 {
        opt_uuid(x.next_uid)
    } else if k == 5 {
        opt_str(x.next_filename)
    } else if k == 6 {
        opt_uuid(x.segment_family)
    } else if k == 8 {
        match x.duration { Some(v) => Some(float_bytes(v)), None => None }
    } else if k == 9 {
        match x.date_utc { Some(v) => Some(date_bytes(v)), None => None }
    } else if k == 10 {
        opt_str(x.title)
    } else if k == 11 {
        Some(encode_utf8(x.muxing_app@))
    } else if k == 12 {
        Some(encode_utf8(x.writing_app@))
    } else {
        None
    }
}

/// The bytes of the `k`-th field of an Info, as it is written: none for an
/// absent optional field.
pub open spec fn info_field(x: Info, k: int) -> Seq<u8> {
    if k == 7 {
        enc_uint(0x2AD7B1, x.timestamp_scale)
    } else {
        opt_bin(info_id(k), info_data(x, k))
    }
}

/// The data of the `k`-th field of an Info, if any, can be written: its
/// length, or the timestamp scale, is less than 2^56 - 1.
pub open spec fn info_fits(x: Info, k: int) -> bool {
    &&& (k == 7 ==> x.timestamp_scale < vint_max())
    &&& match info_data(x, k) {
        Some(d) => d.len() < vint_max(),
        None => true,
    }
}

/// What [EbmlSize] counts for the `k`-th field of an Info.
pub open spec fn info_term(x: Info, k: int) -> nat {
    if k == 0 {
        x.segment_uid.spec_size(0x73A4)
    } else if k == 1 {
        x.segment_filename.spec_size(0x7384)
    } else if k == 2 {
        x.prev_uid.spec_size(0x3CB923)
    } else if k == 3 {
        x.prev_filename.spec_size(0x3C83AB)
    } else if k == 4 {
        x.next_uid.spec_size(0x3EB923)
    } else if k == 5 {
        x.next_filename.spec_size(0x3E83BB)
    } else if k == 6 {
        x.segment_family.spec_size(0x4444)
    } else if k == 7 {
        x.timestamp_scale.spec_size(0x2AD7B1)
    } else if k == 8 {
        x.duration.spec_size(0x4489)
    } else if k == 9 {
        x.date_utc.spec_size(0x4461)
    } else if k == 10 {
        x.title.spec_size(0x7BA9)
    } else if k == 11 {
        x.muxing_app.spec_size(0x4D80)
    } else {
        x.writing_app.spec_size(0x5741)
    }
}

/// How [gen_info](crate::serializer::elements::gen_info) writes the `k`-th
/// field of an Info.
pub open spec fn info_writer(x: Info, k: int, b: Seq<u8>, p: usize) -> GenOut {
    if k == 0 {
        match x.segment_uid { Some(v) => spec_gen_ebml_binary(0x73A4, v@, b, p), None => (b, Ok(p)) }
    } else if k == 1 {
        match x.segment_filename { Some(v) => spec_gen_ebml_binary(0x7384, encode_utf8(v@), b, p), None => (b, Ok(p)) }
    } else if k == 2 {
        match x.prev_uid { Some(v) => spec_gen_ebml_binary(0x3CB923, v@, b, p), None => (b, Ok(p)) }
    } else if k == 3 {
        match x.prev_filename { Some(v) => spec_gen_ebml_binary(0x3C83AB, encode_utf8(v@), b, p), None => (b, Ok(p)) }
    } else if k == 4 {
        match x.next_uid { Some(v) => spec_gen_ebml_binary(0x3EB923, v@, b, p), None => (b, Ok(p)) }
    } else if k == 5 {
        match x.next_filename { Some(v) => spec_gen_ebml_binary(0x3E83BB, encode_utf8(v@), b, p), None => (b, Ok(p)) }
    } else if k == 6 {
        match x.segment_family { Some(v) => spec_gen_ebml_binary(0x4444, v@, b, p), None => (b, Ok(p)) }
    } else if k == 7 {
        spec_gen_ebml_uint(0x2AD7B1, x.timestamp_scale, b, p)
    } else if k == 8 {
        match x.duration { Some(v) => spec_gen_f64(0x4489, v, b, p), None => (b, Ok(p)) }
    } else if k == 9 {
        match x.date_utc { Some(v) => spec_gen_ebml_binary(0x4461, date_bytes(v), b, p), None => (b, Ok(p)) }
    } else if k == 10 {
        match x.title { Some(v) => spec_gen_ebml_binary(0x7BA9, encode_utf8(v@), b, p), None => (b, Ok(p)) }
    } else if k == 11 {
        spec_gen_ebml_binary(0x4D80, encode_utf8(x.muxing_app@), b, p)
    } else {
        spec_gen_ebml_binary(0x5741, encode_utf8(x.writing_app@), b, p)
    }
}

/// What an unsigned integer element writes, when it succeeds: its bytes,
/// spliced in.
pub proof fn lemma_gen_uint_splice(id: u64, v: u64, b: Seq<u8>, p: usize)
    requires
        b.len() <= usize::MAX,
        ebml_class_id(id),
        spec_gen_ebml_uint(id, v, b, p).1 is Ok,
    ensures
        v < vint_max(),
        enc_uint(id, v).len() == v.spec_size(id),
        p + enc_uint(id, v).len() <= b.len(),
        spec_gen_ebml_uint(id, v, b, p) == (
            splice(b, p as int, enc_uint(id, v)),
            Ok::<usize, GenError>((p + enc_uint(id, v).len()) as usize),
        ),
{
    reveal(spec_gen_ebml_uint);
    let w = vint_width(v as nat);
    assert(1 <= w <= 8);
    lemma_gen_uint_short(id, v, w as u8, b, p);
    lemma_enc_uint_len(id, v);
}

/// What a float element writes, when it succeeds: the bytes of a binary
/// element of its bytes, spliced in.
pub proof fn lemma_gen_f64_splice(id: u64, x: EbmlFloat, b: Seq<u8>, p: usize)
    requires
        b.len() <= usize::MAX,
        ebml_class_id(id),
        spec_gen_f64(id, x, b, p).1 is Ok,
    ensures
        p + enc_bin(id, float_bytes(x)).len() <= b.len(),
        enc_bin(id, float_bytes(x)).len() == x.spec_size(id),
        spec_gen_f64(id, x, b, p) == (
            splice(b, p as int, enc_bin(id, float_bytes(x))),
            Ok::<usize, GenError>((p + enc_bin(id, float_bytes(x)).len()) as usize),
        ),
{
    reveal(spec_gen_f64);
    lemma_class_width(id);
    let k = spec_vid_size(id);
    let vid_bytes = be_bytes(id as nat, k);
    lemma_be_bytes_len(id as nat, k);
    let fb = float_bytes(x);
    lemma_be_bytes_len(0, 4);
    lemma_be_bytes_len(0, 8);
    match x {
        EbmlFloat::F32(v) => lemma_be_bytes_len(v as nat, 4),
        EbmlFloat::F64(v) => lemma_be_bytes_len(v as nat, 8),
    }
    assert(fb.len() == x.spec_capacity());
    assert(p + k <= b.len());
    lemma_write_at(b, p as int, vid_bytes);
    let b1 = spec_write(b, p as int, vid_bytes).0;
    let p1 = (p + k) as usize;
    let sz = be_bytes((fb.len() + vint_limit(1)) as nat, 1);
    lemma_be_bytes_len((fb.len() + vint_limit(1)) as nat, 1);
    assert(vint_width(fb.len()) == 1);
    assert(spec_vint_size(fb.len() as u64) == Ok::<u8, GenError>(1));
    assert(p1 + 1 <= b.len());
    lemma_write_at(b1, p1 as int, sz);
    let b2 = spec_write(b1, p1 as int, sz).0;
    let p2 = (p1 + 1) as usize;
    assert(p2 + fb.len() <= b.len());
    lemma_write_at(b2, p2 as int, fb);
    let b3 = spec_write(b2, p2 as int, fb).0;
    let e = enc_bin(id, fb);
    assert(e =~= vid_bytes + sz + fb);
    assert(b3 =~= splice(b, p as int, e)) by {
        assert forall|i: int| 0 <= i < b3.len() implies b3[i] == splice(b, p as int, e)[i] by {
            if i < p {
            } else if i < p1 {
                assert(b1.subrange(p as int, p1 as int)[i - p] == b1[i]);
            } else if i == p1 {
                assert(b2.subrange(p1 as int, p1 + 1)[0] == b2[i]);
            } else if i < p2 + fb.len() {
                assert(b3.subrange(p2 as int, p2 + fb.len())[i - p2] == b3[i]);
            } else {
            }
        }
    }
}

/// A binary element takes its ID, a Data Size of the width its length
/// needs, and its data.
proof fn lemma_enc_bin_len(id: u64, data: Seq<u8>)
    requires
        ebml_class_id(id),
        data.len() < vint_max(),
    ensures
        enc_bin(id, data).len() == spec_elem_total(id, data.len()),
{
    lemma_class_width(id);
    lemma_be_bytes_len(id as nat, spec_vid_size(id));
    lemma_be_bytes_len((data.len() + vint_limit(vint_width(data.len()))) as nat, vint_width(data.len()));
}

/// Writing the `k`-th field of an Info, when it succeeds, splices in its
/// bytes, which take what [EbmlSize] counts for it.
#[verifier::spinoff_prover]
#[verifier::rlimit(50)]
pub proof fn lemma_info_field_gen(x: Info, k: int, b: Seq<u8>, p: usize)
    requires
        0 <= k < 13,
        b.len() <= usize::MAX,
        p <= b.len(),
        info_writer(x, k, b, p).1 is Ok,
    ensures
        p + info_field(x, k).len() <= b.len(),
        info_field(x, k).len() == info_term(x, k),
        info_writer(x, k, b, p) == (
            splice(b, p as int, info_field(x, k)),
            Ok::<usize, GenError>((p + info_field(x, k).len()) as usize),
        ),
        info_fits(x, k),
{
    if info_field(x, k).len() == 0 {
        assert(splice(b, p as int, info_field(x, k)) =~= b);
    }
    if k == 0 {
        if let Some(v) = x.segment_uid {
            lemma_gen_binary(0x73A4, v@, b, p);
            lemma_enc_bin_len(0x73A4, v@);
        }
    } else if k == 1 {
        if let Some(v) = x.segment_filename {
            lemma_gen_binary(0x7384, encode_utf8(v@), b, p);
            lemma_enc_bin_len(0x7384, encode_utf8(v@));
        }
    } else if k == 2 {
        if let Some(v) = x.prev_uid {
            lemma_gen_binary(0x3CB923, v@, b, p);
            lemma_enc_bin_len(0x3CB923, v@);
        }
    } else if k == 3 {
        if let Some(v) = x.prev_filename {
            lemma_gen_binary(0x3C83AB, encode_utf8(v@), b, p);
            lemma_enc_bin_len(0x3C83AB, encode_utf8(v@));
        }
    } else if k == 4 {
        if let Some(v) = x.next_uid {
            lemma_gen_binary(0x3EB923, v@, b, p);
            lemma_enc_bin_len(0x3EB923, v@);
        }
    } else if k == 5 {
        if let Some(v) = x.next_filename {
            lemma_gen_binary(0x3E83BB, encode_utf8(v@), b, p);
            lemma_enc_bin_len(0x3E83BB, encode_utf8(v@));
        }
    } else if k == 6 {
        if let Some(v) = x.segment_family {
            lemma_gen_binary(0x4444, v@, b, p);
            lemma_enc_bin_len(0x4444, v@);
        }
    } else if k == 7 {
        lemma_gen_uint_splice(0x2AD7B1, x.timestamp_scale, b, p);
    } else if k == 8 {
        if let Some(v) = x.duration {
            lemma_gen_f64_splice(0x4489, v, b, p);
            lemma_be_bytes_len(0, 4);
            lemma_be_bytes_len(0, 8);
            match v {
                EbmlFloat::F32(w) => lemma_be_bytes_len(w as nat, 4),
                EbmlFloat::F64(w) => lemma_be_bytes_len(w as nat, 8),
            }
        }
    } else if k == 9 {
        if let Some(v) = x.date_utc {
            lemma_gen_binary(0x4461, date_bytes(v), b, p);
            lemma_be_bytes_len((v.0 as u64) as nat, 8);
            lemma_enc_bin_len(0x4461, date_bytes(v));
        }
    } else if k == 10 {
        if let Some(v) = x.title {
            lemma_gen_binary(0x7BA9, encode_utf8(v@), b, p);
            lemma_enc_bin_len(0x7BA9, encode_utf8(v@));
        }
    } else if k == 11 {
        lemma_gen_binary(0x4D80, encode_utf8(x.muxing_app@), b, p);
        lemma_enc_bin_len(0x4D80, encode_utf8(x.muxing_app@));
    } else {
        lemma_gen_binary(0x5741, encode_utf8(x.writing_app@), b, p);
        lemma_enc_bin_len(0x5741, encode_utf8(x.writing_app@));
    }
}

/// The bytes of the fields of an Info from the `k`-th on.
pub open spec fn info_suffix(x: Info, k: int) -> Seq<u8>
    decreases 13 - k,
{
    if k < 0 || k >= 13 {
        Seq::empty()
    } else {
        info_field(x, k) + info_suffix(x, k + 1)
    }
}

/// What [EbmlSize] counts for the fields of an Info from the `k`-th on.
pub open spec fn info_tail(x: Info, k: int) -> nat
    decreases 13 - k,
{
    if k < 0 || k >= 13 {
        0
    } else {
        info_term(x, k) + info_tail(x, k + 1)
    }
}

/// Writing the fields of an Info from the 0-th on, when it succeeds,
/// splices in their bytes, which take what [EbmlSize] counts for them.
#[verifier::spinoff_prover]
#[verifier::rlimit(100)]
proof fn lemma_info_gen_fields0(x: Info, b0: Seq<u8>, p0: usize)
    requires
        b0.len() <= usize::MAX,
        p0 <= b0.len(),
        spec_gen_info_fields0(x, b0, p0).1 is Ok,
    ensures
        p0 + info_suffix(x, 0).len() <= b0.len(),
        info_suffix(x, 0).len() == info_tail(x, 0),
        forall|k: int| 0 <= k < 13 ==> #[trigger] info_fits(x, k),
        spec_gen_info_fields0(x, b0, p0) == (
            splice(b0, p0 as int, info_suffix(x, 0)),
            Ok::<usize, GenError>((p0 + info_suffix(x, 0).len()) as usize),
        ),
{
    reveal(spec_gen_info_fields0);
    reveal_with_fuel(info_suffix, 5);
    reveal_with_fuel(info_tail, 5);
    let w0 = info_writer(x, 0, b0, p0);
    assert(w0.1 is Ok);
    lemma_info_field_gen(x, 0, b0, p0);
    let e0 = info_field(x, 0);
    let b1 = w0.0;
    let p1 = (p0 + e0.len()) as usize;
    let w1 = info_writer(x, 1, b1, p1);
    assert(w1.1 is Ok);
    lemma_info_field_gen(x, 1, b1, p1);
    let e1 = info_field(x, 1);
    lemma_splice_twice(b0, p0 as int, e0, e1);
    let b2 = w1.0;
    let p2 = (p1 + e1.len()) as usize;
    let w2 = info_writer(x, 2, b2, p2);
    assert(w2.1 is Ok);
    lemma_info_field_gen(x, 2, b2, p2);
    let e2 = info_field(x, 2);
    lemma_splice_twice(b0, p0 as int, e0 + e1, e2);
    let b3 = w2.0;
    let p3 = (p2 + e2.len()) as usize;
    let w3 = info_writer(x, 3, b3, p3);
    assert(w3.1 is Ok);
    lemma_info_field_gen(x, 3, b3, p3);
    let e3 = info_field(x, 3);
    lemma_splice_twice(b0, p0 as int, e0 + e1 + e2, e3);
    let b4 = w3.0;
    let p4 = (p3 + e3.len()) as usize;
    lemma_info_gen_fields1(x, b4, p4);
    lemma_splice_twice(b0, p0 as int, e0 + e1 + e2 + e3, info_suffix(x, 4));
    assert(info_suffix(x, 0) =~= e0 + e1 + e2 + e3 + info_suffix(x, 4));
}

/// Writing the fields of an Info from the 4-th on, when it succeeds,
/// splices in their bytes, which take what [EbmlSize] counts for them.
#[verifier::spinoff_prover]
#[verifier::rlimit(80)]
proof fn lemma_info_gen_fields1(x: Info, b0: Seq<u8>, p0: usize)
    requires
        b0.len() <= usize::MAX,
        p0 <= b0.len(),
        spec_gen_info_fields1(x, b0, p0).1 is Ok,
    ensures
        p0 + info_suffix(x, 4).len() <= b0.len(),
        info_suffix(x, 4).len() == info_tail(x, 4),
        forall|k: int| 4 <= k < 13 ==> #[trigger] info_fits(x, k),
        spec_gen_info_fields1(x, b0, p0) == (
            splice(b0, p0 as int, info_suffix(x, 4)),
            Ok::<usize, GenError>((p0 + info_suffix(x, 4).len()) as usize),
        ),
{
    reveal(spec_gen_info_fields1);
    reveal_with_fuel(info_suffix, 5);
    reveal_with_fuel(info_tail, 5);
    let w0 = info_writer(x, 4, b0, p0);
    assert(w0.1 is Ok);
    lemma_info_field_gen(x, 4, b0, p0);
    let e0 = info_field(x, 4);
    let b1 = w0.0;
    let p1 = (p0 + e0.len()) as usize;
    let w1 = info_writer(x, 5, b1, p1);
    assert(w1.1 is Ok);
    lemma_info_field_gen(x, 5, b1, p1);
    let e1 = info_field(x, 5);
    lemma_splice_twice(b0, p0 as int, e0, e1);
    let b2 = w1.0;
    let p2 = (p1 + e1.len()) as usize;
    let w2 = info_writer(x, 6, b2, p2);
    assert(w2.1 is Ok);
    lemma_info_field_gen(x, 6, b2, p2);
    let e2 = info_field(x, 6);
    lemma_splice_twice(b0, p0 as int, e0 + e1, e2);
    let b3 = w2.0;
    let p3 = (p2 + e2.len()) as usize;
    let w3 = info_writer(x, 7, b3, p3);
    assert(w3.1 is Ok);
    lemma_info_field_gen(x, 7, b3, p3);
    let e3 = info_field(x, 7);
    lemma_splice_twice(b0, p0 as int, e0 + e1 + e2, e3);
    let b4 = w3.0;
    let p4 = (p3 + e3.len()) as usize;
    lemma_info_gen_fields2(x, b4, p4);
    lemma_splice_twice(b0, p0 as int, e0 + e1 + e2 + e3, info_suffix(x, 8));
    assert(info_suffix(x, 4) =~= e0 + e1 + e2 + e3 + info_suffix(x, 8));
}

/// Writing the fields of an Info from the 8-th on, when it succeeds,
/// splices in their bytes, which take what [EbmlSize] counts for them.
#[verifier::spinoff_prover]
#[verifier::rlimit(80)]
proof fn lemma_info_gen_fields2(x: Info, b0: Seq<u8>, p0: usize)
    requires
        b0.len() <= usize::MAX,
        p0 <= b0.len(),
        spec_gen_info_fields2(x, b0, p0).1 is Ok,
    ensures
        p0 + info_suffix(x, 8).len() <= b0.len(),
        info_suffix(x, 8).len() == info_tail(x, 8),
        forall|k: int| 8 <= k < 13 ==> #[trigger] info_fits(x, k),
        spec_gen_info_fields2(x, b0, p0) == (
            splice(b0, p0 as int, info_suffix(x, 8)),
            Ok::<usize, GenError>((p0 + info_suffix(x, 8).len()) as usize),
        ),
{
    reveal(spec_gen_info_fields2);
    reveal_with_fuel(info_suffix, 5);
    reveal_with_fuel(info_tail, 5);
    let w0 = info_writer(x, 8, b0, p0);
    assert(w0.1 is Ok);
    lemma_info_field_gen(x, 8, b0, p0);
    let e0 = info_field(x, 8);
    let b1 = w0.0;
    let p1 = (p0 + e0.len()) as usize;
    let w1 = info_writer(x, 9, b1, p1);
    assert(w1.1 is Ok);
    lemma_info_field_gen(x, 9, b1, p1);
    let e1 = info_field(x, 9);
    lemma_splice_twice(b0, p0 as int, e0, e1);
    let b2 = w1.0;
    let p2 = (p1 + e1.len()) as usize;
    let w2 = info_writer(x, 10, b2, p2);
    assert(w2.1 is Ok);
    lemma_info_field_gen(x, 10, b2, p2);
    let e2 = info_field(x, 10);
    lemma_splice_twice(b0, p0 as int, e0 + e1, e2);
    let b3 = w2.0;
    let p3 = (p2 + e2.len()) as usize;
    let w3 = info_writer(x, 11, b3, p3);
    assert(w3.1 is Ok);
    lemma_info_field_gen(x, 11, b3, p3);
    let e3 = info_field(x, 11);
    lemma_splice_twice(b0, p0 as int, e0 + e1 + e2, e3);
    let b4 = w3.0;
    let p4 = (p3 + e3.len()) as usize;
    lemma_info_gen_fields3(x, b4, p4);
    lemma_splice_twice(b0, p0 as int, e0 + e1 + e2 + e3, info_suffix(x, 12));
    assert(info_suffix(x, 8) =~= e0 + e1 + e2 + e3 + info_suffix(x, 12));
}

/// Writing the fields of an Info from the 12-th on, when it succeeds,
/// splices in their bytes, which take what [EbmlSize] counts for them.
#[verifier::spinoff_prover]
#[verifier::rlimit(80)]
proof fn lemma_info_gen_fields3(x: Info, b0: Seq<u8>, p0: usize)
    requires
        b0.len() <= usize::MAX,
        p0 <= b0.len(),
        spec_gen_info_fields3(x, b0, p0).1 is Ok,
    ensures
        p0 + info_suffix(x, 12).len() <= b0.len(),
        info_suffix(x, 12).len() == info_tail(x, 12),
        forall|k: int| 12 <= k < 13 ==> #[trigger] info_fits(x, k),
        spec_gen_info_fields3(x, b0, p0) == (
            splice(b0, p0 as int, info_suffix(x, 12)),
            Ok::<usize, GenError>((p0 + info_suffix(x, 12).len()) as usize),
        ),
{
    reveal(spec_gen_info_fields3);
    reveal_with_fuel(info_suffix, 5);
    reveal_with_fuel(info_tail, 5);
    let w0 = info_writer(x, 12, b0, p0);
    assert(w0.1 is Ok);
    lemma_info_field_gen(x, 12, b0, p0);
    let e0 = info_field(x, 12);
    let b1 = w0.0;
    let p1 = (p0 + e0.len()) as usize;
    assert(info_suffix(x, 13) =~= Seq::<u8>::empty());
    assert(info_suffix(x, 12) =~= e0 + info_suffix(x, 13));
}

/// What [EbmlSize] counts for the fields of an Info is its capacity.
proof fn lemma_info_tail_capacity(x: Info)
    ensures
        info_tail(x, 0) == x.spec_capacity(),
{
    reveal_with_fuel(info_tail, 14);
}

/// Writing an Info, when it succeeds, splices in its ID, a Data Size of the
/// width its capacity needs, and the bytes of its fields.
#[verifier::spinoff_prover]
#[verifier::rlimit(50)]
pub proof fn lemma_gen_info(x: Info, b: Seq<u8>, p: usize)
    requires
        b.len() <= usize::MAX,
        spec_gen_info(x, b, p).1 is Ok,
    ensures
        forall|k: int| 0 <= k < 13 ==> #[trigger] info_fits(x, k),
        info_suffix(x, 0).len() < vint_max(),
        p + enc_elem(0x1549A966, info_suffix(x, 0)).len() <= b.len(),
        spec_gen_info(x, b, p) == (
            splice(b, p as int, enc_elem(0x1549A966, info_suffix(x, 0))),
            Ok::<usize, GenError>((p + enc_elem(0x1549A966, info_suffix(x, 0)).len()) as usize),
        ),
{
    reveal(spec_gen_info);
    let es = spec_vint_size(x.spec_capacity() as u64)->Ok_0;
    let f = |b: Seq<u8>, p: usize| spec_gen_info_fields0(x, b, p);
    assert(spec_gen_info(x, b, p) == spec_gen_element(0x1549A966, es as usize, es, f, b, p));
    lemma_class_width(0x1549A966);
    assert(spec_vint_size(x.spec_capacity() as u64) is Ok);
    lemma_gen_element_room(0x1549A966, es, f, b, p);
    let start = (p + spec_vid_size(0x1549A966) + es) as usize;
    let c = info_suffix(x, 0);
    lemma_info_tail_capacity(x);
    assert forall|b2: Seq<u8>|
        b2.len() == b.len() && (#[trigger] f(b2, start)).1 is Ok implies {
        &&& c.len() < vint_max()
        &&& vint_width(c.len()) == es
        &&& p + spec_vid_size(0x1549A966) + es + c.len() <= b2.len()
        &&& f(b2, start) == (
            splice(b2, p + spec_vid_size(0x1549A966) + es, c),
            Ok::<usize, GenError>((p + spec_vid_size(0x1549A966) + es + c.len()) as usize),
        )
    } by {
        assert(f(b2, start) == spec_gen_info_fields0(x, b2, start));
        lemma_info_gen_fields0(x, b2, start);
    }
    lemma_gen_element_exact(0x1549A966, es, f, c, b, p);
    lemma_be_bytes_len(0x1549A966, spec_vid_size(0x1549A966));
    lemma_write_at(b, p as int, be_bytes(0x1549A966, spec_vid_size(0x1549A966)));
    lemma_info_gen_fields0(x, spec_write(b, p as int, be_bytes(0x1549A966, spec_vid_size(0x1549A966))).0, start);
}


/// The kind of the `k`-th field of an Info.
pub open spec fn info_kind(k: int) -> FieldKind {
    if k == 0 || k == 2 || k == 4 || k == 6 {
        FieldKind::Uuid
    } else if k == 7 {
        FieldKind::Uint
    } else if k == 8 {
        FieldKind::Float
    } else if k == 9 {
        FieldKind::Date
    } else {
        FieldKind::Str
    }
}

/// The fields of an Info in the schema are those written, in that order.
proof fn lemma_info_schema(k: int)
    requires
        0 <= k < 13,
    ensures
        schema(MasterId::Info).len() == 13,
        schema(MasterId::Info)[k].id == info_id(k) as u32,
        schema(MasterId::Info)[k].kind == info_kind(k),
        !schema(MasterId::Info)[k].many,
        ebml_class_id(info_id(k)),
{
    lemma_class_width(info_id(k));
}

/// `b` holds the value of the `k`-th field of an Info.
pub open spec fn info_rel(x: Info, k: int, b: Seq<u8>) -> bool {
    if k == 0 {
        (x.segment_uid matches Some(v) && rel_uuid(b, v))
    } else if k == 1 {
        (x.segment_filename matches Some(v) && rel_str(b, v))
    } else if k == 2 {
        (x.prev_uid matches Some(v) && rel_uuid(b, v))
    } else if k == 3 {
        (x.prev_filename matches Some(v) && rel_str(b, v))
    } else if k == 4 {
        (x.next_uid matches Some(v) && rel_uuid(b, v))
    } else if k == 5 {
        (x.next_filename matches Some(v) && rel_str(b, v))
    } else if k == 6 {
        (x.segment_family matches Some(v) && rel_uuid(b, v))
    } else if k == 7 {
        rel_u64(b, x.timestamp_scale)
    } else if k == 8 {
        (x.duration matches Some(v) && rel_float(b, v))
    } else if k == 9 {
        (x.date_utc matches Some(v) && rel_date(b, v))
    } else if k == 10 {
        (x.title matches Some(v) && rel_str(b, v))
    } else if k == 11 {
        rel_str(b, x.muxing_app)
    } else {
        rel_str(b, x.writing_app)
    }
}

/// The 16 bytes of a UUID read back as that UUID.
proof fn lemma_uuid_reads(v: [u8; 16])
    ensures
        spec_check_payload(FieldKind::Uuid, v@) is Ok,
        rel_uuid(v@, v),
{
    let a = crate::ebml::parse::spec_parse_uuid(v@)->Ok_0;
    assert(v@.len() == 16);
    assert(a =~= v);
}

/// The bytes of a float read back as that float.
proof fn lemma_float_reads(x: EbmlFloat)
    ensures
        spec_check_payload(FieldKind::Float, float_bytes(x)) is Ok,
        rel_float(float_bytes(x), x),
{
    lemma_pow256_values();
    match x {
        EbmlFloat::F32(v) => {
            lemma_be_bytes_len(v as nat, 4);
            lemma_be_acc_bytes(0, v as nat, 4);
            vstd::arithmetic::div_mod::lemma_small_mod(v as nat, pow256(4));
        },
        EbmlFloat::F64(v) => {
            lemma_be_bytes_len(v as nat, 8);
            lemma_be_acc_bytes(0, v as nat, 8);
            vstd::arithmetic::div_mod::lemma_small_mod(v as nat, pow256(8));
        },
    }
}

/// The 8 bytes of a date read back as that date.
proof fn lemma_date_reads(d: Date)
    ensures
        spec_check_payload(FieldKind::Date, date_bytes(d)) is Ok,
        rel_date(date_bytes(d), d),
{
    let v: i64 = d.0;
    let u: u64 = v as u64;
    lemma_pow256_values();
    lemma_be_bytes_len(u as nat, 8);
    lemma_be_acc_bytes(0, u as nat, 8);
    vstd::arithmetic::div_mod::lemma_small_mod(u as nat, pow256(8));
    assert(v >= 0 ==> u < 0x8000000000000000 && u as i64 == v) by (bit_vector)
        requires
            u == v as u64,
    ;
    assert(v < 0 ==> u >= 0x8000000000000000 && (u as int) - 0x10000000000000000 == v as int) by (bit_vector)
        requires
            u == v as u64,
    ;
}

/// The data of the `k`-th field of an Info but its timestamp scale, when
/// there is one, is valid for its kind and holds its value.
proof fn lemma_info_data_reads(x: Info, k: int)
    requires
        0 <= k < 13,
        k != 7,
        info_data(x, k) is Some,
    ensures
        spec_check_payload(info_kind(k), info_data(x, k)->0) is Ok,
        info_rel(x, k, info_data(x, k)->0),
{
    if k == 0 {
        lemma_uuid_reads(x.segment_uid->0);
    } else if k == 2 {
        lemma_uuid_reads(x.prev_uid->0);
    } else if k == 4 {
        lemma_uuid_reads(x.next_uid->0);
    } else if k == 6 {
        lemma_uuid_reads(x.segment_family->0);
    } else if k == 8 {
        lemma_float_reads(x.duration->0);
    } else if k == 9 {
        lemma_date_reads(x.date_utc->0);
    } else {
        let s: String = if k == 1 {
            x.segment_filename->0
        } else if k == 3 {
            x.prev_filename->0
        } else if k == 5 {
            x.next_filename->0
        } else if k == 10 {
            x.title->0
        } else if k == 11 {
            x.muxing_app
        } else {
            x.writing_app
        };
        encode_utf8_valid_utf8(s@);
        encode_utf8_decode_utf8(s@);
    }
}

/// The `k`-th field of an Info is written: it is the timestamp scale, or
/// its value is there.
pub open spec fn info_present(x: Info, k: int) -> bool {
    k == 7 || info_data(x, k) is Some
}

/// Where the data of the `k`-th field of an Info starts in its element.
pub open spec fn info_hdr(x: Info, k: int) -> nat {
    if k == 7 {
        spec_vid_size(0x2AD7B1) + 1
    } else {
        spec_vid_size(info_id(k)) + vint_width(info_data(x, k)->0.len())
    }
}

/// The length of the data of the `k`-th field of an Info.
pub open spec fn info_dlen(x: Info, k: int) -> nat {
    if k == 7 {
        vint_width(x.timestamp_scale as nat)
    } else {
        info_data(x, k)->0.len()
    }
}

/// Bytes that start with the `k`-th field of an Info, as it is written,
/// read back as an element of the `k`-th field of the schema that holds its
/// value.
proof fn lemma_info_field_read(x: Info, k: int, s: Seq<u8>)
    requires
        0 <= k < 13,
        info_present(x, k),
        info_fits(x, k),
        s.len() <= usize::MAX,
        s.len() >= info_field(x, k).len(),
        s.subrange(0, info_field(x, k).len() as int) == info_field(x, k),
    ensures
        spec_element(schema(MasterId::Info)[k].id, schema(MasterId::Info)[k].kind, s)
            == Ok::<(usize, (usize, usize)), Error>((
            info_field(x, k).len() as usize,
            (info_hdr(x, k) as usize, info_dlen(x, k) as usize),
        )),
        info_field(x, k).len() == info_hdr(x, k) + info_dlen(x, k),
        info_rel(x, k, s.subrange(info_hdr(x, k) as int, (info_hdr(x, k) + info_dlen(x, k)) as int)),
{
    lemma_info_schema(k);
    if k == 7 {
        lemma_read_uint_elem(0x2AD7B1, x.timestamp_scale, s);
    } else {
        let data = info_data(x, k)->0;
        lemma_info_data_reads(x, k);
        assert(info_field(x, k) == enc_bin(info_id(k), data));
        lemma_read_data_elem(info_id(k), info_kind(k), data, s);
    }
}

/// Where the `k`-th field of an Info starts, in its fields.
pub open spec fn info_pos(x: Info, k: int) -> int
    decreases k,
{
    if k <= 0 {
        0
    } else {
        info_pos(x, k - 1) + info_field(x, k - 1).len()
    }
}

/// From where the `k`-th field of an Info starts on, its fields hold the
/// fields from the `k`-th on.
proof fn lemma_info_skip(x: Info, k: int)
    requires
        0 <= k <= 13,
    ensures
        info_pos(x, k) >= 0,
        info_pos(x, k) + info_suffix(x, k).len() == info_suffix(x, 0).len(),
        info_suffix(x, 0).skip(info_pos(x, k)) == info_suffix(x, k),
    decreases k,
{
    let d = info_suffix(x, 0);
    if k == 0 {
        assert(d.skip(0) =~= d);
    } else {
        lemma_info_skip(x, k - 1);
        let f = info_field(x, k - 1);
        assert(info_suffix(x, k - 1) == f + info_suffix(x, k));
        assert(d.skip(info_pos(x, k)) =~= d.skip(info_pos(x, k - 1)).skip(f.len() as int));
        assert(info_suffix(x, k - 1).skip(f.len() as int) =~= info_suffix(x, k));
    }
}

/// A field of an Info that is written starts with its ID.
proof fn lemma_info_field_start(x: Info, k: int)
    requires
        0 <= k < 13,
        info_present(x, k),
    ensures
        info_field(x, k).len() > spec_vid_size(info_id(k)),
        info_field(x, k).subrange(0, spec_vid_size(info_id(k)) as int) == be_bytes(
            info_id(k) as nat,
            spec_vid_size(info_id(k)),
        ),
{
    let id = info_id(k);
    lemma_info_schema(k);
    lemma_be_bytes_len(id as nat, spec_vid_size(id));
    if k == 7 {
        lemma_be_bytes_len((vint_width(x.timestamp_scale as nat) + 0x80) as nat, 1);
    } else {
        let data = info_data(x, k)->0;
        lemma_be_bytes_len((data.len() + vint_limit(vint_width(data.len()))) as nat, vint_width(data.len()));
    }
    assert(info_field(x, k).subrange(0, spec_vid_size(id) as int) =~= be_bytes(id as nat, spec_vid_size(id)));
}

/// The first field of an Info from the `k`-th on that is written.
pub open spec fn info_next(x: Info, k: int) -> int
    decreases 13 - k,
{
    if k < 0 || k >= 12 || info_present(x, k) {
        k
    } else {
        info_next(x, k + 1)
    }
}

/// The fields of an Info from the `k`-th on start with the ID of the first
/// of them that is written.
proof fn lemma_info_suffix_start(x: Info, k: int)
    requires
        0 <= k <= 12,
    ensures
        k <= info_next(x, k) <= 12,
        info_present(x, info_next(x, k)),
        info_suffix(x, k).len() > spec_vid_size(info_id(info_next(x, k))),
        info_suffix(x, k).subrange(0, spec_vid_size(info_id(info_next(x, k))) as int) == be_bytes(
            info_id(info_next(x, k)) as nat,
            spec_vid_size(info_id(info_next(x, k))),
        ),
    decreases 13 - k,
{
    if k == 12 || info_present(x, k) {
        lemma_info_field_start(x, k);
        let f = info_field(x, k);
        let v = spec_vid_size(info_id(k)) as int;
        assert(info_suffix(x, k) == f + info_suffix(x, k + 1));
        assert(info_suffix(x, k).subrange(0, v) =~= f.subrange(0, v));
    } else {
        lemma_info_suffix_start(x, k + 1);
        assert(info_field(x, k) =~= Seq::<u8>::empty());
        assert(info_suffix(x, k) =~= info_suffix(x, k + 1));
    }
}

/// A field of an Info that is not written is not found where it would
/// stand.
proof fn lemma_info_absent(x: Info, k: int)
    requires
        0 <= k < 13,
        !info_present(x, k),
    ensures
        spec_element(schema(MasterId::Info)[k].id, schema(MasterId::Info)[k].kind, info_suffix(x, k)) is Err,
        info_field(x, k).len() == 0,
{
    lemma_info_suffix_start(x, k);
    let j = info_next(x, k);
    lemma_info_schema(j);
    lemma_info_schema(k);
    assert(j != k);
    assert(info_id(j) != info_id(k));
    lemma_not_elem(info_id(j), schema(MasterId::Info)[k].id, schema(MasterId::Info)[k].kind, info_suffix(x, k));
}

/// Where the data of the `k`-th field of an Info is, in its fields.
pub open spec fn info_range(x: Info, k: int) -> (usize, usize) {
    ((info_pos(x, k) + info_hdr(x, k)) as usize, info_dlen(x, k) as usize)
}

/// The slots of the fields of an Info before the `k`-th: the place of
/// each one that is written.
pub open spec fn info_slots(x: Info, k: int) -> Slots
    decreases k,
{
    if k <= 0 {
        empty_slots(13)
    } else if info_present(x, k - 1) {
        info_slots(x, k - 1).update(k - 1, Some(seq![info_range(x, k - 1)]))
    } else {
        info_slots(x, k - 1)
    }
}

/// The slots of the fields before the `k`-th hold the place of each one
/// that is written, and nothing else.
proof fn lemma_info_slots(x: Info, k: int)
    requires
        0 <= k <= 13,
    ensures
        info_slots(x, k).len() == 13,
        forall|j: int| k <= j < 13 ==> info_slots(x, k)[j] is None,
        forall|j: int|
            0 <= j < k ==> info_slots(x, k)[j] == (if info_present(x, j) {
                Some(seq![info_range(x, j)])
            } else {
                None
            }),
    decreases k,
{
    if k > 0 {
        lemma_info_slots(x, k - 1);
    }
}

/// The fields of an Info can be written and read: each fits, and so do
/// they all.
pub open spec fn info_readable(x: Info) -> bool {
    &&& forall|k: int| 0 <= k < 13 ==> #[trigger] info_fits(x, k)
    &&& info_suffix(x, 0).len() < vint_max()
    &&& info_suffix(x, 0).len() <= usize::MAX
}

/// The first round of the scan of the fields of an Info, from the `k`-th
/// on, finds each field that is written where it was written.
#[verifier::spinoff_prover]
#[verifier::rlimit(50)]
proof fn lemma_info_round(x: Info, k: int, err: Error)
    requires
        0 <= k <= 13,
        info_readable(x),
    ensures
        try_fields(MasterId::Info, info_suffix(x, 0), info_pos(x, k), k, info_slots(x, k), err).0
            == info_suffix(x, 0).len(),
        try_fields(MasterId::Info, info_suffix(x, 0), info_pos(x, k), k, info_slots(x, k), err).1
            == info_slots(x, 13),
    decreases 13 - k,
{
    let d = info_suffix(x, 0);
    let m = MasterId::Info;
    lemma_info_skip(x, k);
    lemma_info_slots(x, k);
    if k < 13 {
        lemma_info_schema(k);
        lemma_info_skip(x, k + 1);
        let q = info_pos(x, k);
        let sd = d.skip(q);
        let f = info_field(x, k);
        assert(info_suffix(x, k) == f + info_suffix(x, k + 1));
        if info_present(x, k) {
            assert(info_fits(x, k));
            assert(sd.subrange(0, f.len() as int) =~= f);
            lemma_info_field_read(x, k, sd);
            lemma_info_round(x, k + 1, err);
            assert(((q + (info_hdr(x, k) as usize)) as usize) == info_range(x, k).0);
            assert(info_slots(x, k).update(k, Some(seq![((q + (info_hdr(x, k) as usize)) as usize, info_dlen(x, k) as usize)]))
                == info_slots(x, k + 1));
        } else {
            lemma_info_absent(x, k);
            let e = spec_element(schema(m)[k].id, schema(m)[k].kind, sd)->Err_0;
            lemma_info_round(x, k + 1, spec_error_or(err, e));
        }
    }
}

/// A second round of the scan of the fields of an Info, at their end,
/// finds nothing more.
proof fn lemma_info_round_end(x: Info, k: int, err: Error)
    requires
        0 <= k <= 13,
        info_suffix(x, 0).len() <= usize::MAX,
    ensures
        try_fields(MasterId::Info, info_suffix(x, 0), info_suffix(x, 0).len() as int, k, info_slots(x, 13), err).0
            == info_suffix(x, 0).len(),
        try_fields(MasterId::Info, info_suffix(x, 0), info_suffix(x, 0).len() as int, k, info_slots(x, 13), err).1
            == info_slots(x, 13),
    decreases 13 - k,
{
    let d = info_suffix(x, 0);
    let m = MasterId::Info;
    lemma_info_slots(x, 13);
    if k < 13 {
        lemma_info_schema(k);
        let sd = d.skip(d.len() as int);
        assert(sd =~= Seq::<u8>::empty());
        lemma_element_ok(schema(m)[k].id, schema(m)[k].kind, sd);
        if info_slots(x, 13)[k] is Some {
            lemma_info_round_end(x, k + 1, err);
        } else {
            let e = spec_element(schema(m)[k].id, schema(m)[k].kind, sd)->Err_0;
            lemma_info_round_end(x, k + 1, spec_error_or(err, e));
        }
    }
}

/// The scan of the fields of an Info, as they are written, finds each one
/// that is written, where it was written.
#[verifier::spinoff_prover]
#[verifier::rlimit(50)]
proof fn lemma_info_perm(x: Info)
    requires
        info_readable(x),
    ensures
        perm_loop(MasterId::Info, info_suffix(x, 0), 0, empty_slots(13), permutation_err()) == info_slots(x, 13),
        spec_master(MasterId::Info, info_suffix(x, 0)) == Ok::<Slots, crate::ebml::error::ErrorKind>(info_slots(x, 13)),
{
    let d = info_suffix(x, 0);
    let m = MasterId::Info;
    let perr = permutation_err();
    let l = d.len() as int;
    lemma_info_suffix_start(x, 0);
    let j = info_next(x, 0);
    lemma_info_schema(j);
    assert(d.skip(0) =~= d);
    lemma_not_elem(info_id(j), 0xEC, FieldKind::Binary, d.skip(0));
    lemma_info_round(x, 0, perr);
    assert(info_slots(x, 0) == empty_slots(13));
    let r = try_fields(m, d, 0, 0, empty_slots(13), perr);
    let sl = info_slots(x, 13);
    assert(r.0 == l && r.1 == sl);
    lemma_element_ok(0xEC, FieldKind::Binary, d.skip(l));
    lemma_info_round_end(x, 0, r.2);
    assert(perm_loop(m, d, l, sl, r.2) == sl);
    assert(perm_loop(m, d, 0, empty_slots(13), perr) == perm_loop(m, d, l, sl, r.2));
    lemma_info_slots(x, 13);
    assert(info_present(x, 11) && info_present(x, 12));
    assert forall|k: int| 0 <= k < 13 && #[trigger] schema(m)[k].required implies !crate::permutation::slot_empty(sl[k]) by {
        lemma_info_schema(k);
    }
    assert(!missing_required(m, sl));
}

/// The data of a field of an Info that is written holds its value, at the
/// place the scan finds for it.
proof fn lemma_info_value(x: Info, k: int)
    requires
        0 <= k < 13,
        info_present(x, k),
        info_readable(x),
    ensures
        info_rel(x, k, range_bytes(info_suffix(x, 0), info_range(x, k))),
{
    let d = info_suffix(x, 0);
    lemma_info_skip(x, k);
    lemma_info_skip(x, k + 1);
    let q = info_pos(x, k);
    let sd = d.skip(q);
    let f = info_field(x, k);
    assert(info_suffix(x, k) == f + info_suffix(x, k + 1));
    assert(sd.subrange(0, f.len() as int) =~= f);
    lemma_info_field_read(x, k, sd);
    let h = info_hdr(x, k) as int;
    let n = info_dlen(x, k) as int;
    assert(range_bytes(d, info_range(x, k)) =~= sd.subrange(h, h + n));
}

/// An Info is the model of its fields as they are written.
#[verifier::spinoff_prover]
#[verifier::rlimit(50)]
pub proof fn lemma_info_scan(x: Info)
    requires
        info_readable(x),
    ensures
        spec_master(MasterId::Info, info_suffix(x, 0)) is Ok,
        x.models(info_suffix(x, 0)),
{
    let d = info_suffix(x, 0);
    lemma_info_perm(x);
    lemma_info_slots(x, 13);
    assert forall|k: int| 0 <= k < 13 && info_present(x, k) implies #[trigger] info_rel(
        x,
        k,
        range_bytes(d, info_range(x, k)),
    ) by {
        lemma_info_value(x, k);
    }
    assert(info_present(x, 0) ==> info_rel(x, 0, range_bytes(d, info_range(x, 0))));
    assert(info_present(x, 1) ==> info_rel(x, 1, range_bytes(d, info_range(x, 1))));
    assert(info_present(x, 2) ==> info_rel(x, 2, range_bytes(d, info_range(x, 2))));
    assert(info_present(x, 3) ==> info_rel(x, 3, range_bytes(d, info_range(x, 3))));
    assert(info_present(x, 4) ==> info_rel(x, 4, range_bytes(d, info_range(x, 4))));
    assert(info_present(x, 5) ==> info_rel(x, 5, range_bytes(d, info_range(x, 5))));
    assert(info_present(x, 6) ==> info_rel(x, 6, range_bytes(d, info_range(x, 6))));
    assert(info_rel(x, 7, range_bytes(d, info_range(x, 7))));
    assert(info_present(x, 8) ==> info_rel(x, 8, range_bytes(d, info_range(x, 8))));
    assert(info_present(x, 9) ==> info_rel(x, 9, range_bytes(d, info_range(x, 9))));
    assert(info_present(x, 10) ==> info_rel(x, 10, range_bytes(d, info_range(x, 10))));
    assert(info_rel(x, 11, range_bytes(d, info_range(x, 11))));
    assert(info_rel(x, 12, range_bytes(d, info_range(x, 12))));
    reveal(Info::models);
}

/// Bytes that start with the bytes of an Info element, as they are
/// written, read back as a top-level element of a Segment that is that
/// Info.
#[verifier::spinoff_prover]
#[verifier::rlimit(100)]
proof fn lemma_read_info(x: Info, t: Seq<u8>)
    requires
        info_readable(x),
        t.len() <= usize::MAX,
        t.len() >= enc_elem(0x1549A966, info_suffix(x, 0)).len(),
        t.subrange(0, enc_elem(0x1549A966, info_suffix(x, 0)).len() as int) == enc_elem(
            0x1549A966,
            info_suffix(x, 0),
        ),
    ensures
        spec_segment_element(t) matches Ok((n, sh)) && n == enc_elem(0x1549A966, info_suffix(x, 0)).len()
            && segment_element_is(t, sh, SegmentElement::Info(x)),
{
    reveal(spec_segment_element);
    let c = info_suffix(x, 0);
    let e = enc_elem(0x1549A966, c);
    lemma_class_width(0x1549A966);
    let k: int = spec_vid_size(0x1549A966) as int;
    let es = vint_width(c.len());
    lemma_be_bytes_len(0x1549A966, k as nat);
    lemma_be_bytes_len((c.len() + vint_limit(es)) as nat, es);
    assert(t.subrange(0, k) =~= e.subrange(0, k));
    assert(e.subrange(0, k) =~= be_bytes(0x1549A966, k as nat));
    lemma_vid_reads(0x1549A966, t);
    let rest = t.skip(k);
    assert(rest.subrange(0, es as int) =~= e.subrange(k, (k + es) as int));
    assert(e.subrange(k, (k + es) as int) =~= be_bytes((c.len() + vint_limit(es)) as nat, es));
    lemma_vint_reads(c.len() as u64, rest);
    assert(spec_elem_size(rest) == Ok::<(usize, usize), EbmlErr>((es as usize, c.len() as usize)));
    let hdr: int = k + es;
    assert(rest.subrange(es as int, (es + c.len()) as int) =~= e.subrange(hdr, hdr + c.len()));
    assert(e.subrange(hdr, hdr + c.len()) =~= c);
    lemma_info_scan(x);
    lemma_info_suffix_start(x, 0);
    let j = info_next(x, 0);
    lemma_info_schema(j);
    let kj = spec_vid_size(info_id(j)) as int;
    let r2 = rest.skip(es as int);
    assert(r2.subrange(0, kj) =~= c.subrange(0, kj));
    lemma_not_elem(info_id(j), 0xBF, FieldKind::Bin4, r2);
    assert(spec_crc(r2) == (0usize, None::<u32>));
    assert(spec_sub_element(MasterId::Info, rest) == Ok::<(usize, (usize, usize)), EbmlErr>((
        (es + c.len()) as usize,
        (es as usize, c.len() as usize),
    )));
    assert(range_bytes(t, ((k + es) as usize, c.len() as usize)) =~= c);
}

/// What [gen_info](crate::serializer::elements::gen_info) writes,
/// [segment_element](crate::elements::segment_element) reads back: the
/// bytes from the write position on start with a top-level element of the
/// length written that is that Info, each field read back as the value
/// written, an absent optional field as absent.
pub proof fn law_info_roundtrip(x: Info, buf: Seq<u8>, pos: usize)
    requires
        buf.len() <= usize::MAX,
        spec_gen_info(x, buf, pos).1 is Ok,
    ensures
        spec_gen_info(x, buf, pos).1 matches Ok(p)
            && spec_segment_element(spec_gen_info(x, buf, pos).0.skip(pos as int)) matches Ok((n, sh))
            && n == p - pos
            && segment_element_is(spec_gen_info(x, buf, pos).0.skip(pos as int), sh, SegmentElement::Info(x)),
{
    lemma_gen_info(x, buf, pos);
    let e = enc_elem(0x1549A966, info_suffix(x, 0));
    let t = splice(buf, pos as int, e).skip(pos as int);
    assert(t.subrange(0, e.len() as int) =~= e);
    assert(info_readable(x));
    lemma_read_info(x, t);
}

} // verus!
