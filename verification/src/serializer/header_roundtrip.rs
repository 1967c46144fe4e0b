use vstd::prelude::*;

use crate::ebml::parse::vint_limit;
use crate::serializer::cookie_utils::{be_bytes, spec_write, GenError};
use crate::serializer::ebml::{
    lemma_be_bytes_len, spec_gen_ebml_binary, spec_gen_ebml_uint_l, spec_gen_header_fields,
    spec_vid_size, spec_vint_size, vint_max, vint_width, spec_gen_ebml_header, EbmlSize,
};
use crate::ebml::header::EbmlHeader;
use crate::ebml::element::header_at;
use vstd::utf8::encode_utf8;
use crate::serializer::roundtrip::{
    ebml_class_id, lemma_class_width, lemma_vid_reads, lemma_vint_reads, lemma_write_at,
    lemma_be_acc_bytes,
};
use crate::ebml::error::{EbmlErr, ErrorKind};
use crate::ebml::fields::{rel_str, rel_u32};
use crate::ebml::parse::{be_value, lemma_pow256_values, pow256, spec_elem_size, spec_parse_u32};
use crate::ebml::schema::FieldKind;
use crate::permutation::{
    empty_slots, missing_required, perm_loop, permutation_err, range_bytes, spec_element, spec_crc,
    spec_check_payload,
    spec_master, try_fields, Slots,
};
use crate::ebml::schema::{schema, MasterId};
use vstd::utf8::{encode_utf8_decode_utf8, encode_utf8_valid_utf8};

verus! {

/// `b` with `e` written over it from `p`.
pub open spec fn splice(b: Seq<u8>, p: int, e: Seq<u8>) -> Seq<u8> {
    b.subrange(0, p) + e + b.subrange(p + e.len(), b.len() as int)
}

/// The bytes of an unsigned integer element whose Data Size takes one
/// byte: the ID, the size, then the value in [vint_size] bytes.
pub open spec fn enc_uint(id: u64, v: u64) -> Seq<u8> {
    be_bytes(id as nat, spec_vid_size(id)) + be_bytes((vint_width(v as nat) + 0x80) as nat, 1)
        + be_bytes(v as nat, vint_width(v as nat))
}

/// The bytes of a binary element: the ID, the size as a VINT of its width,
/// then the data.
pub open spec fn enc_bin(id: u64, data: Seq<u8>) -> Seq<u8> {
    be_bytes(id as nat, spec_vid_size(id)) + be_bytes(
        (data.len() + vint_limit(vint_width(data.len()))) as nat,
        vint_width(data.len()),
    ) + data
}

/// What an unsigned integer element writes, when it succeeds, with a limit
/// of `l` bytes of data that a one-byte Data Size can tell: its bytes,
/// spliced in.
pub proof fn lemma_gen_uint_short(id: u64, v: u64, l: u8, b: Seq<u8>, p: usize)
    requires
        b.len() <= usize::MAX,
        ebml_class_id(id),
        1 <= l <= 8,
        spec_gen_ebml_uint_l(id, v, l, b, p).1 is Ok,
    ensures
        v < vint_max(),
        spec_gen_ebml_uint_l(id, v, l, b, p) == (
            splice(b, p as int, enc_uint(id, v)),
            Ok::<usize, GenError>((p + enc_uint(id, v).len()) as usize),
        ),
        p + enc_uint(id, v).len() <= b.len(),
{
    reveal(spec_gen_ebml_uint_l);
    lemma_class_width(id);
    assert(spec_vint_size(l as u64) == Ok::<u8, GenError>(1));
    let k = spec_vid_size(id);
    let vid_bytes = be_bytes(id as nat, k);
    lemma_be_bytes_len(id as nat, k);
    assert(p + k <= b.len());
    lemma_write_at(b, p as int, vid_bytes);
    let b1 = spec_write(b, p as int, vid_bytes).0;
    let ofs = (p + k) as usize;
    let start = (ofs + 1) as usize;
    assert(start <= b.len());
    assert(v < vint_max());
    let w = vint_width(v as nat);
    assert(spec_vint_size(v) == Ok::<u8, GenError>(w as u8));
    let num_bytes = be_bytes(v as nat, w);
    lemma_be_bytes_len(v as nat, w);
    assert(start + w <= b.len());
    lemma_write_at(b1, start as int, num_bytes);
    let b3 = spec_write(b1, start as int, num_bytes).0;
    let size_bytes = be_bytes((w + vint_limit(1)) as nat, 1);
    lemma_be_bytes_len((w + vint_limit(1)) as nat, 1);
    assert(vint_width(w as nat) == 1);
    assert(spec_vint_size(w as u64) == Ok::<u8, GenError>(1));
    lemma_write_at(b3, ofs as int, size_bytes);
    let b4 = spec_write(b3, ofs as int, size_bytes).0;
    let e = enc_uint(id, v);
    assert(e =~= vid_bytes + size_bytes + num_bytes);
    assert(b4 =~= splice(b, p as int, e)) by {
        assert forall|i: int| 0 <= i < b4.len() implies b4[i] == splice(b, p as int, e)[i] by {
            if i < p {
            } else if i < ofs {
                assert(b1.subrange(p as int, ofs as int)[i - p] == b1[i]);
            } else if i == ofs {
                assert(b4.subrange(ofs as int, ofs + 1)[0] == b4[i]);
            } else if i < start + w {
                assert(b3.subrange(start as int, start + w)[i - start] == b3[i]);
            } else {
            }
        }
    }
}

/// What a binary element writes, when it succeeds: its bytes, spliced in.
pub proof fn lemma_gen_binary(id: u64, data: Seq<u8>, b: Seq<u8>, p: usize)
    requires
        b.len() <= usize::MAX,
        ebml_class_id(id),
        spec_gen_ebml_binary(id, data, b, p).1 is Ok,
    ensures
        data.len() < vint_max(),
        spec_gen_ebml_binary(id, data, b, p) == (
            splice(b, p as int, enc_bin(id, data)),
            Ok::<usize, GenError>((p + enc_bin(id, data).len()) as usize),
        ),
        p + enc_bin(id, data).len() <= b.len(),
{
    reveal(spec_gen_ebml_binary);
    lemma_class_width(id);
    let k = spec_vid_size(id);
    let vid_bytes = be_bytes(id as nat, k);
    lemma_be_bytes_len(id as nat, k);
    assert(p + k <= b.len());
    lemma_write_at(b, p as int, vid_bytes);
    let b1 = spec_write(b, p as int, vid_bytes).0;
    let ofs = (p + k) as usize;
    assert(data.len() < vint_max());
    let vw = vint_width(data.len());
    assert(spec_vint_size(data.len() as u64) == Ok::<u8, GenError>(vw as u8));
    let start = (ofs + vw) as usize;
    assert(start <= b.len());
    assert(start + data.len() <= b.len());
    lemma_write_at(b1, start as int, data);
    let b3 = spec_write(b1, start as int, data).0;
    let size_bytes = be_bytes((data.len() + vint_limit(vw)) as nat, vw);
    lemma_be_bytes_len((data.len() + vint_limit(vw)) as nat, vw);
    lemma_write_at(b3, ofs as int, size_bytes);
    let b4 = spec_write(b3, ofs as int, size_bytes).0;
    let e = enc_bin(id, data);
    assert(e =~= vid_bytes + size_bytes + data);
    assert(b4 =~= splice(b, p as int, e)) by {
        assert forall|i: int| 0 <= i < b4.len() implies b4[i] == splice(b, p as int, e)[i] by {
            if i < p {
            } else if i < ofs {
                assert(b1.subrange(p as int, ofs as int)[i - p] == b1[i]);
            } else if i < start {
                assert(b4.subrange(ofs as int, start as int)[i - ofs] == b4[i]);
            } else if i < start + data.len() {
                assert(b3.subrange(start as int, start + data.len())[i - start] == b3[i]);
            } else {
            }
        }
    }
}

/// Two writes side by side are one splice.
pub proof fn lemma_splice_twice(b: Seq<u8>, p: int, e1: Seq<u8>, e2: Seq<u8>)
    requires
        0 <= p,
        p + e1.len() + e2.len() <= b.len(),
    ensures
        splice(splice(b, p, e1), p + e1.len(), e2) == splice(b, p, e1 + e2),
        splice(b, p, e1).len() == b.len(),
{
    assert(splice(splice(b, p, e1), p + e1.len(), e2) =~= splice(b, p, e1 + e2));
}

/// The bytes of the fields of an EBML Header, as [gen_ebml_header](crate::serializer::ebml::gen_ebml_header) writes them.
pub open spec fn header_content(h: EbmlHeader) -> Seq<u8> {
    enc_uint(0x4286, h.version as u64) + enc_uint(0x42F7, h.read_version as u64) + enc_uint(
        0x42F2,
        h.max_id_length as u64,
    ) + enc_uint(0x42F3, h.max_size_length as u64) + enc_bin(0x4282, encode_utf8(h.doc_type@)) + enc_uint(
        0x4287,
        h.doc_type_version as u64,
    ) + enc_uint(0x4285, h.doc_type_read_version as u64)
}

/// Writing the fields of an EBML Header, when it succeeds, splices in their bytes.
#[verifier::rlimit(100)]
pub proof fn lemma_header_fields(h: EbmlHeader, b: Seq<u8>, p: usize)
    requires
        b.len() <= usize::MAX,
        spec_gen_header_fields(h, b, p).1 is Ok,
    ensures
        spec_gen_header_fields(h, b, p) == (
            splice(b, p as int, header_content(h)),
            Ok::<usize, GenError>((p + header_content(h).len()) as usize),
        ),
        encode_utf8(h.doc_type@).len() < vint_max(),
        p + header_content(h).len() <= b.len(),
{
    let e1 = enc_uint(0x4286, h.version as u64);
    let e2 = enc_uint(0x42F7, h.read_version as u64);
    let e3 = enc_uint(0x42F2, h.max_id_length as u64);
    let e4 = enc_uint(0x42F3, h.max_size_length as u64);
    let e5 = enc_bin(0x4282, encode_utf8(h.doc_type@));
    let e6 = enc_uint(0x4287, h.doc_type_version as u64);
    let e7 = enc_uint(0x4285, h.doc_type_read_version as u64);
    let w1 = spec_gen_ebml_uint_l(0x4286, h.version as u64, 1, b, p);
    assert(w1.1 is Ok);
    lemma_gen_uint_short(0x4286, h.version as u64, 1, b, p);
    let b1 = w1.0;
    let p1 = (p + e1.len()) as usize;
    let w2 = spec_gen_ebml_uint_l(0x42F7, h.read_version as u64, 1, b1, p1);
    assert(w2.1 is Ok);
    lemma_gen_uint_short(0x42F7, h.read_version as u64, 1, b1, p1);
    lemma_splice_twice(b, p as int, e1, e2);
    let b2 = w2.0;
    let p2 = (p1 + e2.len()) as usize;
    let w3 = spec_gen_ebml_uint_l(0x42F2, h.max_id_length as u64, 1, b2, p2);
    assert(w3.1 is Ok);
    lemma_gen_uint_short(0x42F2, h.max_id_length as u64, 1, b2, p2);
    lemma_splice_twice(b, p as int, e1 + e2, e3);
    let b3 = w3.0;
    let p3 = (p2 + e3.len()) as usize;
    let w4 = spec_gen_ebml_uint_l(0x42F3, h.max_size_length as u64, 1, b3, p3);
    assert(w4.1 is Ok);
    lemma_gen_uint_short(0x42F3, h.max_size_length as u64, 1, b3, p3);
    lemma_splice_twice(b, p as int, e1 + e2 + e3, e4);
    let b4 = w4.0;
    let p4 = (p3 + e4.len()) as usize;
    let w5 = spec_gen_ebml_binary(0x4282, encode_utf8(h.doc_type@), b4, p4);
    assert(w5.1 is Ok);
    lemma_gen_binary(0x4282, encode_utf8(h.doc_type@), b4, p4);
    lemma_splice_twice(b, p as int, e1 + e2 + e3 + e4, e5);
    let b5 = w5.0;
    let p5 = (p4 + e5.len()) as usize;
    let w6 = spec_gen_ebml_uint_l(0x4287, h.doc_type_version as u64, 1, b5, p5);
    assert(w6.1 is Ok);
    lemma_gen_uint_short(0x4287, h.doc_type_version as u64, 1, b5, p5);
    lemma_splice_twice(b, p as int, e1 + e2 + e3 + e4 + e5, e6);
    let b6 = w6.0;
    let p6 = (p5 + e6.len()) as usize;
    let w7 = spec_gen_ebml_uint_l(0x4285, h.doc_type_read_version as u64, 1, b6, p6);
    assert(w7.1 is Ok);
    lemma_gen_uint_short(0x4285, h.doc_type_read_version as u64, 1, b6, p6);
    lemma_splice_twice(b, p as int, e1 + e2 + e3 + e4 + e5 + e6, e7);
    assert(header_content(h) == e1 + e2 + e3 + e4 + e5 + e6 + e7);
}

/// The bytes of the EBML Header of `h`: its ID, its Data Size in the width
/// that its capacity needs, then its fields.
pub open spec fn enc_header(h: EbmlHeader) -> Seq<u8> {
    be_bytes(0x1A45DFA3, 4) + be_bytes(
        (h.spec_capacity() + vint_limit(vint_width(h.spec_capacity()))) as nat,
        vint_width(h.spec_capacity()),
    ) + header_content(h)
}

/// An unsigned integer element takes what [EbmlSize] counts for it.
pub proof fn lemma_enc_uint_len(id: u64, v: u64)
    requires
        ebml_class_id(id),
        v < vint_max(),
    ensures
        enc_uint(id, v).len() == v.spec_size(id),
{
    lemma_class_width(id);
    lemma_be_bytes_len(id as nat, spec_vid_size(id));
    lemma_be_bytes_len((vint_width(v as nat) + 0x80) as nat, 1);
    lemma_be_bytes_len(v as nat, vint_width(v as nat));
}

/// The fields of an EBML Header take what its capacity counts.
pub proof fn lemma_header_exact(h: EbmlHeader)
    requires
        encode_utf8(h.doc_type@).len() < vint_max(),
    ensures
        header_content(h).len() == h.spec_capacity(),
{
    lemma_enc_uint_len(0x4286, h.version as u64);
    lemma_enc_uint_len(0x42F7, h.read_version as u64);
    lemma_enc_uint_len(0x42F2, h.max_id_length as u64);
    lemma_enc_uint_len(0x42F3, h.max_size_length as u64);
    lemma_enc_uint_len(0x4287, h.doc_type_version as u64);
    lemma_enc_uint_len(0x4285, h.doc_type_read_version as u64);
    let d = encode_utf8(h.doc_type@);
    lemma_class_width(0x4282);
    lemma_be_bytes_len(0x4282, spec_vid_size(0x4282));
    lemma_be_bytes_len((d.len() + vint_limit(vint_width(d.len()))) as nat, vint_width(d.len()));
}

/// Writing an EBML Header, when it succeeds, splices in its bytes.
#[verifier::rlimit(50)]
pub proof fn lemma_gen_header(h: EbmlHeader, buf: Seq<u8>, pos: usize)
    requires
        buf.len() <= usize::MAX,
        spec_gen_ebml_header(h, buf, pos).1 is Ok,
    ensures
        spec_gen_ebml_header(h, buf, pos) == (
            splice(buf, pos as int, enc_header(h)),
            Ok::<usize, GenError>((pos + enc_header(h).len()) as usize),
        ),
        encode_utf8(h.doc_type@).len() < vint_max(),
        header_content(h).len() == h.spec_capacity(),
        h.spec_capacity() < vint_max(),
        enc_header(h).len() == 4 + vint_width(h.spec_capacity()) + h.spec_capacity(),
        pos + enc_header(h).len() <= buf.len(),
{
    let cap = h.spec_capacity();
    let es = spec_vint_size(cap as u64)->Ok_0 as nat;
    assert(1 <= es <= 8);
    lemma_class_width(0x1A45DFA3);
    assert(spec_vid_size(0x1A45DFA3) == 4);
    let vid_bytes = be_bytes(0x1A45DFA3, 4);
    lemma_be_bytes_len(0x1A45DFA3, 4);
    assert(pos + 4 <= buf.len());
    lemma_write_at(buf, pos as int, vid_bytes);
    let b1 = spec_write(buf, pos as int, vid_bytes).0;
    let ofs = (pos + 4) as usize;
    let start = (ofs + es) as usize;
    assert(start <= buf.len());
    let wf = spec_gen_header_fields(h, b1, start);
    assert(wf.1 is Ok);
    lemma_header_fields(h, b1, start);
    let content = header_content(h);
    let b3 = wf.0;
    let end = (start + content.len()) as usize;
    lemma_header_exact(h);
    assert(content.len() == cap);
    assert(cap <= buf.len());
    assert(cap as u64 == cap);
    assert(cap < vint_max());
    assert(es == vint_width(cap));
    let size_bytes = be_bytes((cap + vint_limit(es)) as nat, es);
    lemma_be_bytes_len((cap + vint_limit(es)) as nat, es);
    lemma_splice_twice(buf, pos as int, vid_bytes, Seq::<u8>::empty());
    assert(b1 =~= splice(buf, pos as int, vid_bytes));
    assert(b3 == splice(b1, start as int, content));
    assert(ofs + es + content.len() <= buf.len());
    lemma_write_at(b3, ofs as int, size_bytes);
    let b4 = spec_write(b3, ofs as int, size_bytes).0;
    let e = enc_header(h);
    assert(e =~= vid_bytes + size_bytes + content);
    assert(b4 =~= splice(buf, pos as int, e)) by {
        assert forall|i: int| 0 <= i < b4.len() implies b4[i] == splice(buf, pos as int, e)[i] by {
            if i < pos {
            } else if i < ofs {
                assert(b1.subrange(pos as int, ofs as int)[i - pos] == b1[i]);
            } else if i < start {
                assert(b4.subrange(ofs as int, start as int)[i - ofs] == b4[i]);
            } else if i < end {
                assert(b3.subrange(start as int, end as int)[i - start] == b3[i]);
            } else {
            }
        }
    }
}

/// Bytes that start with an unsigned integer element of at most 4 bytes of
/// data read back as that element.
pub proof fn lemma_read_u32_elem(id: u64, v: u64, s: Seq<u8>)
    requires
        ebml_class_id(id),
        v < 0xFFFFFFF,
        s.len() <= usize::MAX,
        s.len() >= enc_uint(id, v).len(),
        s.subrange(0, enc_uint(id, v).len() as int) == enc_uint(id, v),
    ensures
        spec_element(id as u32, FieldKind::U32, s) == Ok::<(usize, (usize, usize)), crate::ebml::error::Error>((
            enc_uint(id, v).len() as usize,
            ((spec_vid_size(id) + 1) as usize, vint_width(v as nat) as usize),
        )),
        rel_u32(s.subrange((spec_vid_size(id) + 1) as int, (spec_vid_size(id) + 1 + vint_width(v as nat)) as int), v as u32),
        enc_uint(id, v).len() == spec_vid_size(id) + 1 + vint_width(v as nat),
{
    lemma_class_width(id);
    let k: int = spec_vid_size(id) as int;
    let w: int = vint_width(v as nat) as int;
    assert(w <= 4);
    lemma_be_bytes_len(id as nat, k as nat);
    lemma_be_bytes_len((w + 0x80) as nat, 1);
    lemma_be_bytes_len(v as nat, w as nat);
    let e = enc_uint(id, v);
    assert(s.subrange(0, k) =~= e.subrange(0, k));
    assert(e.subrange(0, k) =~= be_bytes(id as nat, k as nat));
    lemma_vid_reads(id, s);
    let rest = s.skip(k);
    assert(rest.subrange(0, 1) =~= e.subrange(k, k + 1));
    assert(e.subrange(k, k + 1) =~= be_bytes((w + 0x80) as nat, 1));
    assert(vint_limit(1) == 0x80);
    assert(vint_width(w as nat) == 1);
    lemma_vint_reads(w as u64, rest);
    assert(spec_elem_size(rest) == Ok::<(usize, usize), EbmlErr>((1, w as usize)));
    let payload = s.subrange(k + 1, k + 1 + w);
    assert(payload =~= e.subrange(k + 1, k + 1 + w));
    assert(e.subrange(k + 1, k + 1 + w) =~= be_bytes(v as nat, w as nat));
    lemma_be_acc_bytes(0, v as nat, w as nat);
    lemma_pow256_values();
    vstd::arithmetic::div_mod::lemma_small_mod(v as nat, pow256(w as nat));
    assert(be_value(payload) == v);
    assert(spec_parse_u32(payload) == Ok::<u32, ErrorKind>(v as u32));
    assert(s.subrange(k + 1, k + 1 + w) =~= payload);
}

/// Bytes that start with a binary element read back as an element of any
/// kind but master whose data the bytes are valid for.
pub proof fn lemma_read_data_elem(id: u64, kind: FieldKind, data: Seq<u8>, s: Seq<u8>)
    requires
        ebml_class_id(id),
        !(kind is Master),
        spec_check_payload(kind, data) is Ok,
        data.len() < vint_max(),
        s.len() <= usize::MAX,
        s.len() >= enc_bin(id, data).len(),
        s.subrange(0, enc_bin(id, data).len() as int) == enc_bin(id, data),
    ensures
        spec_element(id as u32, kind, s) == Ok::<(usize, (usize, usize)), crate::ebml::error::Error>((
            enc_bin(id, data).len() as usize,
            ((spec_vid_size(id) + vint_width(data.len())) as usize, data.len() as usize),
        )),
        s.subrange((spec_vid_size(id) + vint_width(data.len())) as int, (spec_vid_size(id) + vint_width(data.len()) + data.len()) as int) == data,
        enc_bin(id, data).len() == spec_vid_size(id) + vint_width(data.len()) + data.len(),
{
    lemma_class_width(id);
    let k: int = spec_vid_size(id) as int;
    let vw: int = vint_width(data.len()) as int;
    lemma_be_bytes_len(id as nat, k as nat);
    lemma_be_bytes_len((data.len() + vint_limit(vw as nat)) as nat, vw as nat);
    let e = enc_bin(id, data);
    assert(s.subrange(0, k) =~= e.subrange(0, k));
    assert(e.subrange(0, k) =~= be_bytes(id as nat, k as nat));
    lemma_vid_reads(id, s);
    let rest = s.skip(k);
    assert(rest.subrange(0, vw) =~= e.subrange(k, k + vw));
    assert(e.subrange(k, k + vw) =~= be_bytes((data.len() + vint_limit(vw as nat)) as nat, vw as nat));
    lemma_vint_reads(data.len() as u64, rest);
    assert(spec_elem_size(rest) == Ok::<(usize, usize), EbmlErr>((vw as usize, data.len() as usize)));
    let payload = s.subrange(k + vw, k + vw + data.len());
    assert(payload =~= e.subrange(k + vw, k + vw + data.len()));
    assert(e.subrange(k + vw, k + vw + data.len()) =~= data);
}

/// Bytes that start with an element of another ID do not read as an
/// element of ID `other`.
pub proof fn lemma_not_elem(id: u64, other: u32, kind: FieldKind, s: Seq<u8>)
    requires
        ebml_class_id(id),
        id != other as u64,
        s.len() > spec_vid_size(id),
        s.subrange(0, spec_vid_size(id) as int) == be_bytes(id as nat, spec_vid_size(id)),
    ensures
        spec_element(other, kind, s) is Err,
{
    lemma_vid_reads(id, s);
    lemma_class_width(id);
}

/// The bytes of the `i`-th field of an EBML Header.
pub open spec fn header_field(h: EbmlHeader, i: int) -> Seq<u8> {
    if i == 0 {
        enc_uint(0x4286, h.version as u64)
    } else if i == 1 {
        enc_uint(0x42F7, h.read_version as u64)
    } else if i == 2 {
        enc_uint(0x42F2, h.max_id_length as u64)
    } else if i == 3 {
        enc_uint(0x42F3, h.max_size_length as u64)
    } else if i == 4 {
        enc_bin(0x4282, encode_utf8(h.doc_type@))
    } else if i == 5 {
        enc_uint(0x4287, h.doc_type_version as u64)
    } else {
        enc_uint(0x4285, h.doc_type_read_version as u64)
    }
}

/// Where the `i`-th field of an EBML Header starts, in its fields.
pub open spec fn header_pos(h: EbmlHeader, i: int) -> int
    decreases i,
{
    if i <= 0 {
        0
    } else {
        header_pos(h, i - 1) + header_field(h, i - 1).len()
    }
}

/// Where the data of the `i`-th field of an EBML Header is, in its fields.
pub open spec fn header_range(h: EbmlHeader, i: int) -> (usize, usize) {
    if i == 0 {
        ((header_pos(h, 0) + spec_vid_size(0x4286) + 1) as usize, vint_width(h.version as nat) as usize)
    } else if i == 1 {
        ((header_pos(h, 1) + spec_vid_size(0x42F7) + 1) as usize, vint_width(h.read_version as nat) as usize)
    } else if i == 2 {
        ((header_pos(h, 2) + spec_vid_size(0x42F2) + 1) as usize, vint_width(h.max_id_length as nat) as usize)
    } else if i == 3 {
        ((header_pos(h, 3) + spec_vid_size(0x42F3) + 1) as usize, vint_width(h.max_size_length as nat) as usize)
    } else if i == 4 {
        ((header_pos(h, 4) + spec_vid_size(0x4282) + vint_width(encode_utf8(h.doc_type@).len())) as usize, encode_utf8(h.doc_type@).len() as usize)
    } else if i == 5 {
        ((header_pos(h, 5) + spec_vid_size(0x4287) + 1) as usize, vint_width(h.doc_type_version as nat) as usize)
    } else {
        ((header_pos(h, 6) + spec_vid_size(0x4285) + 1) as usize, vint_width(h.doc_type_read_version as nat) as usize)
    }
}

/// The slots of the first `i` fields of an EBML Header.
pub open spec fn header_slots(h: EbmlHeader, i: int) -> Slots
    decreases i,
{
    if i <= 0 {
        empty_slots(7)
    } else {
        header_slots(h, i - 1).update(i - 1, Some(seq![header_range(h, i - 1)]))
    }
}

/// The field bytes of an EBML Header, field by field.
proof fn lemma_header_fields_at(h: EbmlHeader, i: int)
    requires
        0 <= i < 7,
    ensures
        0 <= header_pos(h, i),
        header_pos(h, i + 1) == header_pos(h, i) + header_field(h, i).len(),
        header_pos(h, i) + header_field(h, i).len() <= header_content(h).len(),
        header_content(h).subrange(header_pos(h, i), header_pos(h, i) + header_field(h, i).len()) == header_field(h, i),
        header_pos(h, 7) == header_content(h).len(),
{
    let e0 = header_field(h, 0);
    let e1 = header_field(h, 1);
    let e2 = header_field(h, 2);
    let e3 = header_field(h, 3);
    let e4 = header_field(h, 4);
    let e5 = header_field(h, 5);
    let e6 = header_field(h, 6);
    let d = header_content(h);
    reveal_with_fuel(header_pos, 8);
    assert(d == e0 + e1 + e2 + e3 + e4 + e5 + e6);
    assert(header_pos(h, 1) == e0.len());
    assert(header_pos(h, 2) == e0.len() + e1.len());
    assert(header_pos(h, 3) == e0.len() + e1.len() + e2.len());
    assert(header_pos(h, 4) == e0.len() + e1.len() + e2.len() + e3.len());
    assert(header_pos(h, 5) == e0.len() + e1.len() + e2.len() + e3.len() + e4.len());
    assert(header_pos(h, 6) == e0.len() + e1.len() + e2.len() + e3.len() + e4.len() + e5.len());
    assert(header_pos(h, 7) == d.len());
    let p = header_pos(h, i);
    let e = header_field(h, i);
    assert(d.subrange(p, p + e.len()) =~= e);
}

/// The data of the `i`-th field of an EBML Header holds its value.
pub open spec fn header_value_in(h: EbmlHeader, i: int, b: Seq<u8>) -> bool {
    if i == 0 {
        rel_u32(b, h.version)
    } else if i == 1 {
        rel_u32(b, h.read_version)
    } else if i == 2 {
        rel_u32(b, h.max_id_length)
    } else if i == 3 {
        rel_u32(b, h.max_size_length)
    } else if i == 4 {
        rel_str(b, h.doc_type)
    } else if i == 5 {
        rel_u32(b, h.doc_type_version)
    } else {
        rel_u32(b, h.doc_type_read_version)
    }
}

/// The bounds that make the fields of an EBML Header read back.
pub open spec fn header_readable(h: EbmlHeader) -> bool {
    &&& h.version < 0xFFFFFFF
    &&& h.read_version < 0xFFFFFFF
    &&& h.max_id_length < 0xFFFFFFF
    &&& h.max_size_length < 0xFFFFFFF
    &&& h.doc_type_version < 0xFFFFFFF
    &&& h.doc_type_read_version < 0xFFFFFFF
    &&& encode_utf8(h.doc_type@).len() < vint_max()
    &&& header_content(h).len() <= usize::MAX
}

/// An unsigned integer field of an EBML Header reads back where it was
/// written.
#[verifier::spinoff_prover]
#[verifier::rlimit(50)]
proof fn lemma_header_u32_at(h: EbmlHeader, i: int, id: u64, v: u64)
    requires
        0 <= i < 7,
        header_readable(h),
        header_field(h, i) == enc_uint(id, v),
        ebml_class_id(id),
        v < 0xFFFFFFF,
    ensures
        spec_element(id as u32, FieldKind::U32, header_content(h).skip(header_pos(h, i)))
            == Ok::<(usize, (usize, usize)), crate::ebml::error::Error>((
            header_field(h, i).len() as usize,
            ((spec_vid_size(id) + 1) as usize, vint_width(v as nat) as usize),
        )),
        rel_u32(
            header_content(h).subrange(
                header_pos(h, i) + spec_vid_size(id) + 1,
                header_pos(h, i) + spec_vid_size(id) + 1 + vint_width(v as nat),
            ),
            v as u32,
        ),
{
    let d = header_content(h);
    lemma_header_fields_at(h, i);
    let q = header_pos(h, i);
    let e = header_field(h, i);
    let s = d.skip(q);
    assert(s.subrange(0, e.len() as int) =~= d.subrange(q, q + e.len()));
    lemma_read_u32_elem(id, v, s);
    let k = spec_vid_size(id) as int;
    let w = vint_width(v as nat) as int;
    assert(s.subrange(k + 1, k + 1 + w) =~= d.subrange(q + k + 1, q + k + 1 + w));
}

/// The string field of an EBML Header reads back where it was written.
proof fn lemma_header_str_at(h: EbmlHeader)
    requires
        header_readable(h),
    ensures
        spec_element(0x4282, FieldKind::Str, header_content(h).skip(header_pos(h, 4)))
            == Ok::<(usize, (usize, usize)), crate::ebml::error::Error>((
            header_field(h, 4).len() as usize,
            ((spec_vid_size(0x4282) + vint_width(encode_utf8(h.doc_type@).len())) as usize, encode_utf8(h.doc_type@).len() as usize),
        )),
        header_content(h).subrange(
            header_pos(h, 4) + spec_vid_size(0x4282) + vint_width(encode_utf8(h.doc_type@).len()),
            header_pos(h, 4) + spec_vid_size(0x4282) + vint_width(encode_utf8(h.doc_type@).len()) + encode_utf8(h.doc_type@).len(),
        ) == encode_utf8(h.doc_type@),
{
    let d = header_content(h);
    lemma_header_fields_at(h, 4);
    let q = header_pos(h, 4);
    let e = header_field(h, 4);
    let s = d.skip(q);
    let data = encode_utf8(h.doc_type@);
    assert(s.subrange(0, e.len() as int) =~= d.subrange(q, q + e.len()));
    encode_utf8_valid_utf8(h.doc_type@);
    lemma_read_data_elem(0x4282, FieldKind::Str, data, s);
    let k = spec_vid_size(0x4282) as int;
    let vw = vint_width(data.len()) as int;
    assert(s.subrange(k + vw, k + vw + data.len()) =~= d.subrange(q + k + vw, q + k + vw + data.len()));
}

/// The `i`-th field of an EBML Header reads back, at its place, as an
/// element of the `i`-th field of the schema, with its data where
/// `header_range` says and its value in it.
#[verifier::rlimit(100)]
proof fn lemma_header_elem_at(h: EbmlHeader, i: int)
    requires
        0 <= i < 7,
        header_readable(h),
    ensures
        0 <= header_pos(h, i),
        header_pos(h, i + 1) == header_pos(h, i) + header_field(h, i).len(),
        header_pos(h, i + 1) <= header_content(h).len(),
        header_range(h, i).0 >= header_pos(h, i),
        spec_element(
            schema(MasterId::EbmlHeader)[i].id,
            schema(MasterId::EbmlHeader)[i].kind,
            header_content(h).skip(header_pos(h, i)),
        ) == Ok::<(usize, (usize, usize)), crate::ebml::error::Error>((
            header_field(h, i).len() as usize,
            ((header_range(h, i).0 - header_pos(h, i)) as usize, header_range(h, i).1),
        )),
        header_value_in(h, i, range_bytes(header_content(h), header_range(h, i))),
{
    lemma_header_fields_at(h, i);
    if i == 0 {
        lemma_class_width(0x4286);
        lemma_header_u32_at(h, 0, 0x4286, h.version as u64);
    } else if i == 1 {
        lemma_class_width(0x42F7);
        lemma_header_u32_at(h, 1, 0x42F7, h.read_version as u64);
    } else if i == 2 {
        lemma_class_width(0x42F2);
        lemma_header_u32_at(h, 2, 0x42F2, h.max_id_length as u64);
    } else if i == 3 {
        lemma_class_width(0x42F3);
        lemma_header_u32_at(h, 3, 0x42F3, h.max_size_length as u64);
    } else if i == 4 {
        lemma_class_width(0x4282);
        lemma_header_str_at(h);
        encode_utf8_decode_utf8(h.doc_type@);
    } else if i == 5 {
        lemma_class_width(0x4287);
        lemma_header_u32_at(h, 5, 0x4287, h.doc_type_version as u64);
    } else {
        lemma_class_width(0x4285);
        lemma_header_u32_at(h, 6, 0x4285, h.doc_type_read_version as u64);
    }
}

/// One step of the scan of the fields of an EBML Header: the `i`-th field
/// is found where it was written.
#[verifier::rlimit(100)]
proof fn lemma_header_try_step(h: EbmlHeader, i: int)
    requires
        0 <= i < 7,
        header_readable(h),
    ensures
        try_fields(MasterId::EbmlHeader, header_content(h), header_pos(h, i), i, header_slots(h, i), permutation_err())
            == try_fields(MasterId::EbmlHeader, header_content(h), header_pos(h, i + 1), i + 1, header_slots(h, i + 1), permutation_err()),
        header_value_in(h, i, range_bytes(header_content(h), header_range(h, i))),
{
    lemma_header_elem_at(h, i);
    lemma_header_slots_len(h, i);
    let q = header_pos(h, i);
    let r = header_range(h, i);
    assert((q + (r.0 - q) as usize) as usize == r.0);
}

/// The slots of the scan have one entry per field, and the fields not
/// scanned yet are not found.
proof fn lemma_header_slots_len(h: EbmlHeader, i: int)
    requires
        0 <= i <= 7,
    ensures
        header_slots(h, i).len() == 7,
        forall|j: int| i <= j < 7 ==> header_slots(h, i)[j] is None,
        forall|j: int| 0 <= j < i ==> header_slots(h, i)[j] == Some(seq![header_range(h, j)]),
    decreases i,
{
    if i > 0 {
        lemma_header_slots_len(h, i - 1);
    }
}

/// A second round of the scan finds nothing more.
proof fn lemma_header_second_round(h: EbmlHeader)
    ensures
        try_fields(MasterId::EbmlHeader, header_content(h), header_pos(h, 7), 0, header_slots(h, 7), permutation_err())
            == (header_pos(h, 7), header_slots(h, 7), permutation_err()),
{
    let d = header_content(h);
    let m = MasterId::EbmlHeader;
    let perr = permutation_err();
    let q7 = header_pos(h, 7);
    let sl7 = header_slots(h, 7);
    lemma_header_fields_at(h, 0);
    lemma_header_slots_len(h, 7);
    assert(try_fields(m, d, q7, 7, sl7, perr) == (q7, sl7, perr));
    assert(try_fields(m, d, q7, 6, sl7, perr) == try_fields(m, d, q7, 7, sl7, perr));
    assert(try_fields(m, d, q7, 5, sl7, perr) == try_fields(m, d, q7, 6, sl7, perr));
    assert(try_fields(m, d, q7, 4, sl7, perr) == try_fields(m, d, q7, 5, sl7, perr));
    assert(try_fields(m, d, q7, 3, sl7, perr) == try_fields(m, d, q7, 4, sl7, perr));
    assert(try_fields(m, d, q7, 2, sl7, perr) == try_fields(m, d, q7, 3, sl7, perr));
    assert(try_fields(m, d, q7, 1, sl7, perr) == try_fields(m, d, q7, 2, sl7, perr));
    assert(try_fields(m, d, q7, 0, sl7, perr) == try_fields(m, d, q7, 1, sl7, perr));
}

/// The scan of the fields of an EBML Header finds each of them.
proof fn lemma_header_perm(h: EbmlHeader)
    requires
        header_readable(h),
    ensures
        perm_loop(MasterId::EbmlHeader, header_content(h), 0, empty_slots(7), permutation_err()) == header_slots(h, 7),
        forall|i: int| 0 <= i < 7 ==> header_value_in(h, i, #[trigger] range_bytes(header_content(h), header_range(h, i))),
{
    let d = header_content(h);
    let m = MasterId::EbmlHeader;
    let perr = permutation_err();
    lemma_header_try_step(h, 0);
    lemma_header_try_step(h, 1);
    lemma_header_try_step(h, 2);
    lemma_header_try_step(h, 3);
    lemma_header_try_step(h, 4);
    lemma_header_try_step(h, 5);
    lemma_header_try_step(h, 6);
    lemma_header_second_round(h);
    lemma_header_fields_at(h, 0);
    let q7 = header_pos(h, 7);
    let sl7 = header_slots(h, 7);
    let e0 = header_field(h, 0);
    lemma_class_width(0x4286);
    lemma_be_bytes_len(0x4286, spec_vid_size(0x4286));
    lemma_be_bytes_len((vint_width(h.version as nat) + 0x80) as nat, 1);
    lemma_be_bytes_len(h.version as nat, vint_width(h.version as nat));
    assert(d.skip(0).subrange(0, spec_vid_size(0x4286) as int) =~= e0.subrange(0, spec_vid_size(0x4286) as int));
    assert(e0.subrange(0, spec_vid_size(0x4286) as int) =~= be_bytes(0x4286, spec_vid_size(0x4286)));
    lemma_not_elem(0x4286, 0xEC, FieldKind::Binary, d.skip(0));
    assert(d.skip(q7) =~= Seq::<u8>::empty());
    assert(perm_loop(m, d, q7, sl7, perr) == sl7);
    assert(header_slots(h, 0) == empty_slots(7));
    assert forall|i: int| 0 <= i < 7 implies header_value_in(h, i, #[trigger] range_bytes(header_content(h), header_range(h, i))) by {
        lemma_header_try_step(h, i);
    }
}

/// The fields of an EBML Header, as they are written, are scanned back
/// into their slots, and `h` is their model.
#[verifier::spinoff_prover]
#[verifier::rlimit(50)]
pub proof fn lemma_header_scan(h: EbmlHeader)
    requires
        header_readable(h),
    ensures
        spec_master(MasterId::EbmlHeader, header_content(h)) == Ok::<Slots, ErrorKind>(header_slots(h, 7)),
        h.models(header_content(h)),
{
    let d = header_content(h);
    let m = MasterId::EbmlHeader;
    lemma_header_perm(h);
    let sl7 = header_slots(h, 7);
    lemma_header_slots_len(h, 7);
    assert(!missing_required(m, sl7));
    reveal(EbmlHeader::models);
    assert(header_value_in(h, 0, range_bytes(d, header_range(h, 0))));
    assert(header_value_in(h, 1, range_bytes(d, header_range(h, 1))));
    assert(header_value_in(h, 2, range_bytes(d, header_range(h, 2))));
    assert(header_value_in(h, 3, range_bytes(d, header_range(h, 3))));
    assert(header_value_in(h, 4, range_bytes(d, header_range(h, 4))));
    assert(header_value_in(h, 5, range_bytes(d, header_range(h, 5))));
    assert(header_value_in(h, 6, range_bytes(d, header_range(h, 6))));
}

/// Bytes that start with the bytes of the EBML Header of `h` read back as
/// an EBML Header element of that length, whose fields are those of `h`.
#[verifier::spinoff_prover]
#[verifier::rlimit(100)]
proof fn lemma_read_header(h: EbmlHeader, s: Seq<u8>)
    requires
        header_readable(h),
        header_content(h).len() == h.spec_capacity(),
        h.spec_capacity() < vint_max(),
        enc_header(h).len() == 4 + vint_width(h.spec_capacity()) + h.spec_capacity(),
        s.len() <= usize::MAX,
        s.len() >= enc_header(h).len(),
        s.subrange(0, enc_header(h).len() as int) == enc_header(h),
    ensures
        header_at(s, enc_header(h).len() as usize, h),
{
    let e = enc_header(h);
    let d = header_content(h);
    let cap = h.spec_capacity();
    let es = vint_width(cap);
    lemma_be_bytes_len(0x1A45DFA3, 4);
    lemma_be_bytes_len((cap + vint_limit(es)) as nat, es);
    lemma_class_width(0x1A45DFA3);
    assert(s.subrange(0, 4) =~= e.subrange(0, 4));
    assert(e.subrange(0, 4) =~= be_bytes(0x1A45DFA3, 4));
    lemma_vid_reads(0x1A45DFA3, s);
    let r1 = s.skip(4);
    assert(r1.subrange(0, es as int) =~= e.subrange(4, (4 + es) as int));
    assert(e.subrange(4, (4 + es) as int) =~= be_bytes((cap + vint_limit(es)) as nat, es));
    lemma_vint_reads(cap as u64, r1);
    let hdr = 4 + es;
    assert(s.subrange(hdr as int, (hdr + cap) as int) =~= e.subrange(hdr as int, (hdr + cap) as int));
    assert(e.subrange(hdr as int, (hdr + cap) as int) =~= d);
    assert(s.skip(hdr as int).subrange(0, d.len() as int) =~= s.subrange(hdr as int, (hdr + cap) as int));
    lemma_header_no_crc(h, s.skip(hdr as int));
    lemma_header_scan(h);
    assert(spec_check_payload(FieldKind::Master(MasterId::EbmlHeader), d) is Ok);
    assert(range_bytes(s, (hdr as usize, cap as usize)) == d);
}

/// The fields of an EBML Header do not start with a CRC-32 element.
proof fn lemma_header_no_crc(h: EbmlHeader, r: Seq<u8>)
    requires
        r.len() >= header_content(h).len(),
        r.subrange(0, header_content(h).len() as int) == header_content(h),
    ensures
        spec_crc(r) == (0usize, None::<u32>),
{
    let d = header_content(h);
    lemma_header_fields_at(h, 0);
    let e0 = header_field(h, 0);
    lemma_class_width(0x4286);
    lemma_be_bytes_len(0x4286, spec_vid_size(0x4286));
    lemma_be_bytes_len((vint_width(h.version as nat) + 0x80) as nat, 1);
    lemma_be_bytes_len(h.version as nat, vint_width(h.version as nat));
    assert(r.subrange(0, spec_vid_size(0x4286) as int) =~= d.subrange(0, spec_vid_size(0x4286) as int));
    assert(d.subrange(0, e0.len() as int) == e0);
    assert(d.subrange(0, spec_vid_size(0x4286) as int) =~= e0.subrange(0, spec_vid_size(0x4286) as int));
    assert(e0.subrange(0, spec_vid_size(0x4286) as int) =~= be_bytes(0x4286, spec_vid_size(0x4286)));
    lemma_not_elem(0x4286, 0xBF, FieldKind::Bin4, r);
}

/// What [gen_ebml_header](crate::serializer::ebml::gen_ebml_header) writes,
/// [ebml_header](crate::ebml::element::ebml_header) reads back: the bytes
/// from the write position on start with an EBML Header element of the
/// length written, whose fields are those of `h`. Each unsigned integer
/// field must take at most 4 bytes, as a reader of 32-bit fields asks.
pub proof fn law_ebml_header_roundtrip(h: EbmlHeader, buf: Seq<u8>, pos: usize)
    requires
        buf.len() <= usize::MAX,
        h.version < 0xFFFFFFF,
        h.read_version < 0xFFFFFFF,
        h.max_id_length < 0xFFFFFFF,
        h.max_size_length < 0xFFFFFFF,
        h.doc_type_version < 0xFFFFFFF,
        h.doc_type_read_version < 0xFFFFFFF,
        spec_gen_ebml_header(h, buf, pos).1 is Ok,
    ensures
        spec_gen_ebml_header(h, buf, pos).1 matches Ok(p)
            && header_at(spec_gen_ebml_header(h, buf, pos).0.skip(pos as int), (p - pos) as usize, h),
{
    lemma_gen_header(h, buf, pos);
    let e = enc_header(h);
    let out = splice(buf, pos as int, e);
    let s = out.skip(pos as int);
    assert(s.subrange(0, e.len() as int) =~= e);
    lemma_read_header(h, s);
}

} // verus!
