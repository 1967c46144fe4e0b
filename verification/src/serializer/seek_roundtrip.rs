use vstd::prelude::*;

use crate::ebml::error::{EbmlErr, ErrorKind};
use crate::ebml::fields::rel_u64;
use crate::ebml::parse::{
    be_value, lemma_pow256_values, pow256, spec_elem_size, spec_parse_u64, vint_limit,
};
use crate::ebml::schema::{schema, FieldKind, MasterId};
use crate::elements::masters::{Seek, SeekHead};
use crate::elements::{segment_element_is, spec_segment_element, spec_sub_element, SegmentElement};
use crate::permutation::{
    empty_slots, lemma_element_ok, many, missing_required, perm_loop, permutation_err, range_bytes,
    spec_check_payload, spec_crc, spec_element, spec_master, try_fields, Slots,
};
use crate::serializer::cookie_utils::{be_bytes, spec_write, GenError};
use crate::serializer::ebml::{
    lemma_be_bytes_len, size_tag, spec_gen_ebml_binary, spec_gen_ebml_uint_l, spec_gen_element,
    spec_vid_size, spec_vint_size, vint_max, vint_width, EbmlSize, GenOut,
};
use crate::serializer::elements::{
    sizes_total, spec_gen_seek, spec_gen_seek_fields0, spec_gen_seek_head, spec_gen_seek_head_fields,
    spec_gen_seek_list,
};
use crate::serializer::header_roundtrip::{
    enc_bin, enc_uint, lemma_enc_uint_len, lemma_gen_binary, lemma_gen_uint_short, lemma_not_elem,
    lemma_read_data_elem, lemma_splice_twice, splice,
};
use crate::serializer::roundtrip::{
    ebml_class_id, lemma_be_acc_bytes, lemma_class_width, lemma_vid_reads, lemma_vint_reads,
    lemma_write_at,
};

verus! {

/// The bytes of an element with ID `id` and data `c`, its Data Size in the
/// width that the length of `c` needs.
pub open spec fn enc_elem(id: u64, c: Seq<u8>) -> Seq<u8> {
    be_bytes(id as nat, spec_vid_size(id)) + be_bytes(
        (c.len() + vint_limit(vint_width(c.len()))) as nat,
        vint_width(c.len()),
    ) + c
}

/// An element whose data `content` writes as the bytes `c`, with room for
/// a Data Size of the width that `c` needs, writes, when it succeeds, its
/// ID, that Data Size and `c`, spliced in.
pub proof fn lemma_gen_element_exact(
    id: u64,
    es: u8,
    content: spec_fn(Seq<u8>, usize) -> GenOut,
    c: Seq<u8>,
    buf: Seq<u8>,
    pos: usize,
)
    requires
        buf.len() <= usize::MAX,
        ebml_class_id(id),
        1 <= es <= 8,
        spec_gen_element(id, es as usize, es, content, buf, pos).1 is Ok,
        forall|b: Seq<u8>|
            b.len() == buf.len() && (#[trigger] content(b, (pos + spec_vid_size(id) + es) as usize)).1 is Ok
                ==> {
                &&& c.len() < vint_max()
                &&& vint_width(c.len()) == es
                &&& pos + spec_vid_size(id) + es + c.len() <= b.len()
                &&& content(b, (pos + spec_vid_size(id) + es) as usize) == (
                    splice(b, pos + spec_vid_size(id) + es, c),
                    Ok::<usize, GenError>((pos + spec_vid_size(id) + es + c.len()) as usize),
                )
            },
    ensures
        c.len() < vint_max(),
        vint_width(c.len()) == es,
        enc_elem(id, c).len() == spec_vid_size(id) + es + c.len(),
        pos + enc_elem(id, c).len() <= buf.len(),
        content(
            spec_write(buf, pos as int, be_bytes(id as nat, spec_vid_size(id))).0,
            (pos + spec_vid_size(id) + es) as usize,
        ).1 is Ok,
        spec_gen_element(id, es as usize, es, content, buf, pos) == (
            splice(buf, pos as int, enc_elem(id, c)),
            Ok::<usize, GenError>((pos + enc_elem(id, c).len()) as usize),
        ),
{
    lemma_class_width(id);
    let k = spec_vid_size(id);
    let vid_bytes = be_bytes(id as nat, k);
    lemma_be_bytes_len(id as nat, k);
    assert(pos + k <= buf.len());
    lemma_write_at(buf, pos as int, vid_bytes);
    let b1 = spec_write(buf, pos as int, vid_bytes).0;
    let ofs = (pos + k) as usize;
    let start = (ofs + es) as usize;
    assert(start <= buf.len());
    let wc = content(b1, start);
    assert(wc.1 is Ok);
    let b3 = wc.0;
    let end = (start + c.len()) as usize;
    let size_bytes = be_bytes((c.len() + vint_limit(es as nat)) as nat, es as nat);
    lemma_be_bytes_len((c.len() + vint_limit(es as nat)) as nat, es as nat);
    assert(spec_vint_size(c.len() as u64) == Ok::<u8, GenError>(es));
    lemma_splice_twice(buf, pos as int, vid_bytes, Seq::<u8>::empty());
    assert(b1 =~= splice(buf, pos as int, vid_bytes));
    assert(b3 == splice(b1, start as int, c));
    lemma_write_at(b3, ofs as int, size_bytes);
    let b4 = spec_write(b3, ofs as int, size_bytes).0;
    let e = enc_elem(id, c);
    assert(e =~= vid_bytes + size_bytes + c);
    assert(b4 =~= splice(buf, pos as int, e)) by {
        assert forall|i: int| 0 <= i < b4.len() implies b4[i] == splice(buf, pos as int, e)[i] by {
            if i < pos {
            } else if i < ofs {
                assert(b1.subrange(pos as int, ofs as int)[i - pos] == b1[i]);
            } else if i < start {
                assert(b4.subrange(ofs as int, start as int)[i - ofs] == b4[i]);
            } else if i < end {
                assert(b3.subrange(start as int, end as int)[i - start] == b3[i]);
            } else {
            }
        }
    }
}

/// An element that is written whole had room for its ID and its Data Size.
pub proof fn lemma_gen_element_room(
    id: u64,
    es: u8,
    content: spec_fn(Seq<u8>, usize) -> GenOut,
    buf: Seq<u8>,
    pos: usize,
)
    requires
        buf.len() <= usize::MAX,
        ebml_class_id(id),
        spec_gen_element(id, es as usize, es, content, buf, pos).1 is Ok,
    ensures
        pos + spec_vid_size(id) + es <= buf.len(),
{
    lemma_class_width(id);
    let k = spec_vid_size(id);
    lemma_be_bytes_len(id as nat, k);
    let w = crate::serializer::ebml::spec_gen_vid(id, buf, pos);
    assert(w.1 is Ok);
    assert(pos + k <= buf.len());
    lemma_write_at(buf, pos as int, be_bytes(id as nat, k));
    let ofs = (pos + k) as usize;
    let start = (ofs + es) as usize;
    assert(start <= buf.len());
}

/// The bytes of the fields of a Seek, as [gen_seek](crate::serializer::elements::gen_seek)
/// writes them.
pub open spec fn seek_content(x: Seek) -> Seq<u8> {
    enc_bin(0x53AB, x.id@) + enc_uint(0x53AC, x.position)
}

/// The bytes of a Seek element.
pub open spec fn enc_seek(x: Seek) -> Seq<u8> {
    enc_elem(0x4DBB, seek_content(x))
}

/// The bytes of Seek elements one after the other.
pub open spec fn enc_seeks(s: Seq<Seek>) -> Seq<u8>
    decreases s.len(),
{
    if s.len() == 0 {
        Seq::empty()
    } else {
        enc_seeks(s.drop_last()) + enc_seek(s.last())
    }
}

/// The fields of a Seek take what its capacity counts.
pub proof fn lemma_seek_exact(x: Seek)
    requires
        x.position < vint_max(),
    ensures
        seek_content(x).len() == x.spec_capacity(),
        x.spec_capacity() < vint_max(),
        enc_seek(x).len() == x.spec_size(0x4DBB),
{
    lemma_enc_uint_len(0x53AC, x.position);
    lemma_class_width(0x53AB);
    lemma_be_bytes_len(0x53AB, spec_vid_size(0x53AB));
    lemma_be_bytes_len((4 + vint_limit(1)) as nat, 1);
    assert(x.id@.len() == 4);
    assert(vint_width(4) == 1);
    let c = seek_content(x);
    assert(c.len() < 128);
    lemma_class_width(0x4DBB);
    lemma_be_bytes_len(0x4DBB, spec_vid_size(0x4DBB));
    lemma_be_bytes_len((c.len() + vint_limit(vint_width(c.len()))) as nat, vint_width(c.len()));
}

/// Writing the fields of a Seek, when it succeeds, splices in their bytes.
pub proof fn lemma_seek_fields(x: Seek, b: Seq<u8>, p: usize)
    requires
        b.len() <= usize::MAX,
        spec_gen_seek_fields0(x, b, p).1 is Ok,
    ensures
        x.position < vint_max(),
        p + seek_content(x).len() <= b.len(),
        spec_gen_seek_fields0(x, b, p) == (
            splice(b, p as int, seek_content(x)),
            Ok::<usize, GenError>((p + seek_content(x).len()) as usize),
        ),
{
    reveal(spec_gen_seek_fields0);
    let e1 = enc_bin(0x53AB, x.id@);
    let e2 = enc_uint(0x53AC, x.position);
    let w1 = spec_gen_ebml_binary(0x53AB, x.id@, b, p);
    assert(w1.1 is Ok);
    lemma_gen_binary(0x53AB, x.id@, b, p);
    let b1 = w1.0;
    let p1 = (p + e1.len()) as usize;
    let w2 = spec_gen_ebml_uint_l(0x53AC, x.position, 8, b1, p1);
    assert(w2.1 is Ok);
    lemma_gen_uint_short(0x53AC, x.position, 8, b1, p1);
    lemma_splice_twice(b, p as int, e1, e2);
}

/// Writing a Seek, when it succeeds, splices in its bytes.
pub proof fn lemma_gen_seek(x: Seek, b: Seq<u8>, p: usize)
    requires
        b.len() <= usize::MAX,
        spec_gen_seek(x, b, p).1 is Ok,
    ensures
        x.position < vint_max(),
        p + enc_seek(x).len() <= b.len(),
        enc_seek(x).len() == x.spec_size(0x4DBB),
        spec_gen_seek(x, b, p) == (
            splice(b, p as int, enc_seek(x)),
            Ok::<usize, GenError>((p + enc_seek(x).len()) as usize),
        ),
{
    reveal(spec_gen_seek);
    let es = spec_vint_size(x.spec_capacity() as u64)->Ok_0;
    let f = |b: Seq<u8>, p: usize| spec_gen_seek_fields0(x, b, p);
    assert(spec_gen_seek(x, b, p) == spec_gen_element(0x4DBB, es as usize, es, f, b, p));
    lemma_class_width(0x4DBB);
    let start = (p + spec_vid_size(0x4DBB) + es) as usize;
    assert(spec_vint_size(x.spec_capacity() as u64) is Ok);
    assert(vint_width(x.position as nat) <= 8);
    lemma_class_width(0x53AB);
    lemma_class_width(0x53AC);
    assert(x.position.spec_capacity() <= 8);
    assert(size_tag(x.position.spec_capacity()) <= 8);
    assert(x.spec_capacity() < 100);
    assert(es == vint_width(x.spec_capacity()));
    lemma_gen_element_room(0x4DBB, es, f, b, p);
    assert forall|b2: Seq<u8>|
        b2.len() == b.len() && (#[trigger] f(b2, start)).1 is Ok implies {
        &&& seek_content(x).len() < vint_max()
        &&& vint_width(seek_content(x).len()) == es
        &&& p + spec_vid_size(0x4DBB) + es + seek_content(x).len() <= b2.len()
        &&& f(b2, start) == (
            splice(b2, p + spec_vid_size(0x4DBB) + es, seek_content(x)),
            Ok::<usize, GenError>((p + spec_vid_size(0x4DBB) + es + seek_content(x).len()) as usize),
        )
    } by {
        assert(f(b2, start) == spec_gen_seek_fields0(x, b2, start));
        lemma_seek_fields(x, b2, start);
        lemma_seek_exact(x);
        assert(seek_content(x).len() < vint_max());
        assert(vint_width(seek_content(x).len()) == es);
        assert(p + spec_vid_size(0x4DBB) + es + seek_content(x).len() <= b2.len());
    }
    lemma_gen_element_exact(0x4DBB, es, f, seek_content(x), b, p);
    lemma_be_bytes_len(0x4DBB, spec_vid_size(0x4DBB));
    lemma_write_at(b, p as int, be_bytes(0x4DBB, spec_vid_size(0x4DBB)));
    lemma_seek_fields(x, spec_write(b, p as int, be_bytes(0x4DBB, spec_vid_size(0x4DBB))).0, start);
    lemma_seek_exact(x);
}

/// Writing Seek elements one after the other, when it succeeds, splices in
/// their bytes, which take what their sizes count.
pub proof fn lemma_gen_seek_list(s: Seq<Seek>, b: Seq<u8>, p: usize)
    requires
        b.len() <= usize::MAX,
        p <= b.len(),
        spec_gen_seek_list(s, b, p).1 is Ok,
    ensures
        forall|i: int| 0 <= i < s.len() ==> (#[trigger] s[i]).position < vint_max(),
        enc_seeks(s).len() == sizes_total(s, 0x4DBB),
        p + enc_seeks(s).len() <= b.len(),
        spec_gen_seek_list(s, b, p) == (
            splice(b, p as int, enc_seeks(s)),
            Ok::<usize, GenError>((p + enc_seeks(s).len()) as usize),
        ),
    decreases s.len(),
{
    if s.len() == 0 {
        assert(splice(b, p as int, enc_seeks(s)) =~= b);
    } else {
        let s1 = s.drop_last();
        let w = spec_gen_seek_list(s1, b, p);
        assert(w.1 is Ok);
        lemma_gen_seek_list(s1, b, p);
        let e1 = enc_seeks(s1);
        let p1 = (p + e1.len()) as usize;
        lemma_splice_twice(b, p as int, e1, Seq::<u8>::empty());
        assert(w.0.len() == b.len());
        lemma_gen_seek(s.last(), w.0, p1);
        let e = enc_seek(s.last());
        lemma_splice_twice(b, p as int, e1, e);
        assert forall|i: int| 0 <= i < s.len() implies (#[trigger] s[i]).position < vint_max() by {
            if i < s.len() - 1 {
                assert(s[i] == s1[i]);
            }
        }
    }
}

/// Writing a SeekHead, when it succeeds, splices in its bytes.
pub proof fn lemma_gen_seek_head(x: SeekHead, b: Seq<u8>, p: usize)
    requires
        b.len() <= usize::MAX,
        spec_gen_seek_head(x, b, p).1 is Ok,
    ensures
        forall|i: int| 0 <= i < x.positions@.len() ==> (#[trigger] x.positions@[i]).position < vint_max(),
        enc_seeks(x.positions@).len() < vint_max(),
        p + enc_elem(0x114D9B74, enc_seeks(x.positions@)).len() <= b.len(),
        spec_gen_seek_head(x, b, p) == (
            splice(b, p as int, enc_elem(0x114D9B74, enc_seeks(x.positions@))),
            Ok::<usize, GenError>((p + enc_elem(0x114D9B74, enc_seeks(x.positions@)).len()) as usize),
        ),
{
    reveal(spec_gen_seek_head);
    let es = spec_vint_size(x.spec_capacity() as u64)->Ok_0;
    let f = |b: Seq<u8>, p: usize| spec_gen_seek_head_fields(x, b, p);
    assert(spec_gen_seek_head(x, b, p) == spec_gen_element(0x114D9B74, es as usize, es, f, b, p));
    lemma_class_width(0x114D9B74);
    let start = (p + spec_vid_size(0x114D9B74) + es) as usize;
    assert(spec_vint_size(x.spec_capacity() as u64) is Ok);
    lemma_gen_element_room(0x114D9B74, es, f, b, p);
    let c = enc_seeks(x.positions@);
    assert forall|b2: Seq<u8>|
        b2.len() == b.len() && (#[trigger] f(b2, start)).1 is Ok implies {
        &&& c.len() < vint_max()
        &&& vint_width(c.len()) == es
        &&& p + spec_vid_size(0x114D9B74) + es + c.len() <= b2.len()
        &&& f(b2, start) == (
            splice(b2, p + spec_vid_size(0x114D9B74) + es, c),
            Ok::<usize, GenError>((p + spec_vid_size(0x114D9B74) + es + c.len()) as usize),
        )
    } by {
        assert(f(b2, start) == spec_gen_seek_list(x.positions@, b2, start));
        lemma_gen_seek_list(x.positions@, b2, start);
        assert(c.len() == x.spec_capacity());
    }
    lemma_gen_element_exact(0x114D9B74, es, f, c, b, p);
    lemma_be_bytes_len(0x114D9B74, spec_vid_size(0x114D9B74));
    lemma_write_at(b, p as int, be_bytes(0x114D9B74, spec_vid_size(0x114D9B74)));
    lemma_gen_seek_list(x.positions@, spec_write(b, p as int, be_bytes(0x114D9B74, spec_vid_size(0x114D9B74))).0, start);
}

/// Bytes that start with an unsigned integer element, as
/// [gen_ebml_uint](crate::serializer::ebml::gen_ebml_uint) writes it, read
/// back as that element.
pub proof fn lemma_read_uint_elem(id: u64, v: u64, s: Seq<u8>)
    requires
        ebml_class_id(id),
        v < vint_max(),
        s.len() <= usize::MAX,
        s.len() >= enc_uint(id, v).len(),
        s.subrange(0, enc_uint(id, v).len() as int) == enc_uint(id, v),
    ensures
        spec_element(id as u32, FieldKind::Uint, s) == Ok::<(usize, (usize, usize)), crate::ebml::error::Error>((
            enc_uint(id, v).len() as usize,
            ((spec_vid_size(id) + 1) as usize, vint_width(v as nat) as usize),
        )),
        rel_u64(s.subrange((spec_vid_size(id) + 1) as int, (spec_vid_size(id) + 1 + vint_width(v as nat)) as int), v),
        enc_uint(id, v).len() == spec_vid_size(id) + 1 + vint_width(v as nat),
{
    lemma_class_width(id);
    let k: int = spec_vid_size(id) as int;
    let w: int = vint_width(v as nat) as int;
    assert(w <= 8);
    lemma_be_bytes_len(id as nat, k as nat);
    lemma_be_bytes_len((w + 0x80) as nat, 1);
    lemma_be_bytes_len(v as nat, w as nat);
    let e = enc_uint(id, v);
    assert(s.subrange(0, k) =~= e.subrange(0, k));
    assert(e.subrange(0, k) =~= be_bytes(id as nat, k as nat));
    lemma_vid_reads(id, s);
    let rest = s.skip(k);
    assert(rest.subrange(0, 1) =~= e.subrange(k, k + 1));
    assert(e.subrange(k, k + 1) =~= be_bytes((w + 0x80) as nat, 1));
    assert(vint_limit(1) == 0x80);
    assert(vint_width(w as nat) == 1);
    lemma_vint_reads(w as u64, rest);
    assert(spec_elem_size(rest) == Ok::<(usize, usize), EbmlErr>((1, w as usize)));
    let payload = s.subrange(k + 1, k + 1 + w);
    assert(payload =~= e.subrange(k + 1, k + 1 + w));
    assert(e.subrange(k + 1, k + 1 + w) =~= be_bytes(v as nat, w as nat));
    lemma_be_acc_bytes(0, v as nat, w as nat);
    lemma_pow256_values();
    vstd::arithmetic::div_mod::lemma_small_mod(v as nat, pow256(w as nat));
    assert(be_value(payload) == v);
    assert(spec_parse_u64(payload) == Ok::<u64, ErrorKind>(v));
}

/// Bytes that start with a master element whose data `c` is a valid master
/// element `m`, and starts with an element other than a CRC-32 element,
/// read back as that element.
#[verifier::spinoff_prover]
#[verifier::rlimit(100)]
pub proof fn lemma_read_master_elem(id: u64, m: MasterId, c: Seq<u8>, id0: u64, s: Seq<u8>)
    requires
        ebml_class_id(id),
        ebml_class_id(id0),
        id0 != 0xBF,
        c.len() < vint_max(),
        c.len() > spec_vid_size(id0),
        c.subrange(0, spec_vid_size(id0) as int) == be_bytes(id0 as nat, spec_vid_size(id0)),
        spec_master(m, c) is Ok,
        s.len() <= usize::MAX,
        s.len() >= enc_elem(id, c).len(),
        s.subrange(0, enc_elem(id, c).len() as int) == enc_elem(id, c),
    ensures
        enc_elem(id, c).len() == spec_vid_size(id) + vint_width(c.len()) + c.len(),
        spec_element(id as u32, FieldKind::Master(m), s) == Ok::<(usize, (usize, usize)), crate::ebml::error::Error>((
            enc_elem(id, c).len() as usize,
            ((spec_vid_size(id) + vint_width(c.len())) as usize, c.len() as usize),
        )),
        s.subrange((spec_vid_size(id) + vint_width(c.len())) as int, (spec_vid_size(id) + vint_width(c.len()) + c.len()) as int) == c,
{
    lemma_class_width(id);
    let k: int = spec_vid_size(id) as int;
    let es = vint_width(c.len());
    lemma_be_bytes_len(id as nat, k as nat);
    lemma_be_bytes_len((c.len() + vint_limit(es)) as nat, es);
    let e = enc_elem(id, c);
    assert(s.subrange(0, k) =~= e.subrange(0, k));
    assert(e.subrange(0, k) =~= be_bytes(id as nat, k as nat));
    lemma_vid_reads(id, s);
    let r1 = s.skip(k);
    assert(r1.subrange(0, es as int) =~= e.subrange(k, (k + es) as int));
    assert(e.subrange(k, (k + es) as int) =~= be_bytes((c.len() + vint_limit(es)) as nat, es));
    lemma_vint_reads(c.len() as u64, r1);
    let hdr: int = k + es;
    let r2 = s.skip(hdr);
    assert(s.subrange(hdr, hdr + c.len()) =~= e.subrange(hdr, hdr + c.len()));
    assert(e.subrange(hdr, hdr + c.len()) =~= c);
    lemma_class_width(id0);
    assert(r2.subrange(0, spec_vid_size(id0) as int) =~= c.subrange(0, spec_vid_size(id0) as int));
    lemma_not_elem(id0, 0xBF, FieldKind::Bin4, r2);
    assert(spec_crc(r2) == (0usize, None::<u32>));
    assert(spec_check_payload(FieldKind::Master(m), c) is Ok);
}

/// Where the data of the fields of a Seek are, in its fields.
pub open spec fn seek_slots(x: Seek) -> Slots {
    seq![
        Some(seq![((spec_vid_size(0x53AB) + 1) as usize, 4usize)]),
        Some(seq![(
            (enc_bin(0x53AB, x.id@).len() + spec_vid_size(0x53AC) + 1) as usize,
            vint_width(x.position as nat) as usize,
        )]),
    ]
}

/// The fields of a Seek, as they are written, are scanned back into their
/// slots.
#[verifier::spinoff_prover]
#[verifier::rlimit(50)]
proof fn lemma_seek_perm(x: Seek)
    requires
        x.position < vint_max(),
    ensures
        spec_master(MasterId::Seek, seek_content(x)) == Ok::<Slots, ErrorKind>(seek_slots(x)),
        rel_u64(range_bytes(seek_content(x), seek_slots(x)[1]->0[0]), x.position),
        range_bytes(seek_content(x), seek_slots(x)[0]->0[0]) == x.id@,
{
    let d = seek_content(x);
    let m = MasterId::Seek;
    let perr = permutation_err();
    let e0 = enc_bin(0x53AB, x.id@);
    let e1 = enc_uint(0x53AC, x.position);
    lemma_class_width(0x53AB);
    lemma_class_width(0x53AC);
    lemma_be_bytes_len(0x53AB, spec_vid_size(0x53AB));
    lemma_be_bytes_len((4 + vint_limit(1)) as nat, 1);
    assert(x.id@.len() == 4);
    assert(vint_width(4) == 1);
    lemma_seek_exact(x);
    lemma_enc_uint_len(0x53AC, x.position);
    assert(d.len() < 100);
    assert(spec_check_payload(FieldKind::Bin4, x.id@) is Ok);
    assert(d.skip(0).subrange(0, e0.len() as int) =~= e0);
    lemma_read_data_elem(0x53AB, FieldKind::Bin4, x.id@, d.skip(0));
    let n0 = e0.len() as int;
    assert(d.skip(n0).subrange(0, e1.len() as int) =~= e1);
    lemma_read_uint_elem(0x53AC, x.position, d.skip(n0));
    let k0 = spec_vid_size(0x53AB) as int;
    assert(d.skip(0).subrange(0, k0) =~= be_bytes(0x53AB, spec_vid_size(0x53AB)));
    lemma_not_elem(0x53AB, 0xEC, FieldKind::Binary, d.skip(0));
    let r0 = ((spec_vid_size(0x53AB) + 1) as usize, 4usize);
    let r1 = ((n0 + spec_vid_size(0x53AC) + 1) as usize, vint_width(x.position as nat) as usize);
    let sl0 = empty_slots(2);
    let sl1 = sl0.update(0, Some(seq![r0]));
    let sl2 = sl1.update(1, Some(seq![r1]));
    assert(sl2 =~= seek_slots(x));
    let q = d.len() as int;
    assert(try_fields(m, d, q, 2, sl2, perr) == (q, sl2, perr));
    assert(try_fields(m, d, n0, 1, sl1, perr) == try_fields(m, d, q, 2, sl2, perr));
    assert(try_fields(m, d, 0, 0, sl0, perr) == try_fields(m, d, n0, 1, sl1, perr));
    assert(try_fields(m, d, q, 1, sl2, perr) == (q, sl2, perr));
    assert(try_fields(m, d, q, 0, sl2, perr) == (q, sl2, perr));
    assert(d.skip(q) =~= Seq::<u8>::empty());
    assert(perm_loop(m, d, q, sl2, perr) == sl2);
    assert(perm_loop(m, d, 0, sl0, perr) == sl2);
    assert(!missing_required(m, sl2));
    assert(range_bytes(d, r0) =~= d.skip(0).subrange((spec_vid_size(0x53AB) + 1) as int, (spec_vid_size(0x53AB) + 1 + 4) as int));
    assert(range_bytes(d, r1) =~= d.skip(n0).subrange((spec_vid_size(0x53AC) + 1) as int, (spec_vid_size(0x53AC) + 1 + vint_width(x.position as nat)) as int));
}

/// A Seek is the model of its fields as they are written.
pub proof fn lemma_seek_scan(x: Seek)
    requires
        x.position < vint_max(),
    ensures
        spec_master(MasterId::Seek, seek_content(x)) is Ok,
        x.models(seek_content(x)),
{
    lemma_seek_perm(x);
    let d = seek_content(x);
    let b = range_bytes(d, seek_slots(x)[0]->0[0]);
    assert([b[0], b[1], b[2], b[3]] =~= x.id);
    reveal(Seek::models);
}

/// Where the `i`-th of Seek elements written one after the other starts.
pub open spec fn seek_pos(s: Seq<Seek>, i: int) -> int {
    enc_seeks(s.take(i)).len() as int
}

/// Where the data of the `i`-th of Seek elements written one after the
/// other is.
pub open spec fn seek_range(s: Seq<Seek>, i: int) -> (usize, usize) {
    (
        (seek_pos(s, i) + spec_vid_size(0x4DBB) + vint_width(seek_content(s[i]).len())) as usize,
        seek_content(s[i]).len() as usize,
    )
}

/// Where the data of the Seek elements from the `i`-th on are.
pub open spec fn seek_ranges(s: Seq<Seek>, i: int) -> Seq<(usize, usize)> {
    Seq::new((s.len() - i) as nat, |j: int| seek_range(s, i + j))
}

/// The bytes of the first `i + 1` Seek elements are those of the first `i`,
/// then those of the `i`-th.
proof fn lemma_enc_seeks_step(s: Seq<Seek>, i: int)
    requires
        0 <= i < s.len(),
    ensures
        enc_seeks(s.take(i + 1)) == enc_seeks(s.take(i)) + enc_seek(s[i]),
{
    assert(s.take(i + 1).drop_last() =~= s.take(i));
}

/// The bytes of the first `i` Seek elements start the bytes of the first `j`.
proof fn lemma_enc_seeks_prefix(s: Seq<Seek>, i: int, j: int)
    requires
        0 <= i <= j <= s.len(),
    ensures
        seek_pos(s, i) <= seek_pos(s, j),
        enc_seeks(s.take(j)).subrange(0, seek_pos(s, i)) == enc_seeks(s.take(i)),
    decreases j - i,
{
    if i == j {
        assert(enc_seeks(s.take(j)).subrange(0, seek_pos(s, i)) =~= enc_seeks(s.take(i)));
    } else {
        lemma_enc_seeks_prefix(s, i, j - 1);
        lemma_enc_seeks_step(s, j - 1);
        assert(enc_seeks(s.take(j)).subrange(0, seek_pos(s, i)) =~= enc_seeks(s.take(j - 1)).subrange(0, seek_pos(s, i)));
    }
}

/// The bytes of Seek elements written one after the other hold the `i`-th
/// element where [seek_pos] says.
proof fn lemma_enc_seeks_at(s: Seq<Seek>, i: int)
    requires
        0 <= i < s.len(),
    ensures
        seek_pos(s, i + 1) == seek_pos(s, i) + enc_seek(s[i]).len(),
        seek_pos(s, i + 1) <= enc_seeks(s).len(),
        enc_seeks(s).subrange(seek_pos(s, i), seek_pos(s, i + 1)) == enc_seek(s[i]),
{
    lemma_enc_seeks_step(s, i);
    lemma_enc_seeks_prefix(s, i + 1, s.len() as int);
    assert(s.take(s.len() as int) =~= s);
    let d = enc_seeks(s);
    let t = enc_seeks(s.take(i + 1));
    assert(d.subrange(seek_pos(s, i), seek_pos(s, i + 1)) =~= t.subrange(seek_pos(s, i), seek_pos(s, i + 1)));
    assert(t.subrange(seek_pos(s, i), seek_pos(s, i + 1)) =~= enc_seek(s[i]));
}

/// The data of a Seek element starts with the ID of its first field, which
/// is no CRC-32 element.
proof fn lemma_seek_content_start(x: Seek)
    requires
        x.position < vint_max(),
    ensures
        seek_content(x).len() > spec_vid_size(0x53AB),
        seek_content(x).subrange(0, spec_vid_size(0x53AB) as int) == be_bytes(0x53AB, spec_vid_size(0x53AB)),
{
    lemma_class_width(0x53AB);
    lemma_be_bytes_len(0x53AB, spec_vid_size(0x53AB));
    lemma_be_bytes_len((4 + vint_limit(1)) as nat, 1);
    assert(x.id@.len() == 4);
    let c = seek_content(x);
    assert(c.subrange(0, spec_vid_size(0x53AB) as int) =~= be_bytes(0x53AB, spec_vid_size(0x53AB)));
}

/// The `i`-th of Seek elements written one after the other reads back as a
/// Seek element.
#[verifier::spinoff_prover]
#[verifier::rlimit(100)]
proof fn lemma_seeks_elem(s: Seq<Seek>, i: int)
    requires
        0 <= i < s.len(),
        forall|j: int| 0 <= j < s.len() ==> (#[trigger] s[j]).position < vint_max(),
        enc_seeks(s).len() <= usize::MAX,
    ensures
        spec_element(0x4DBB, FieldKind::Master(MasterId::Seek), enc_seeks(s).skip(seek_pos(s, i)))
            == Ok::<(usize, (usize, usize)), crate::ebml::error::Error>((
            (seek_pos(s, i + 1) - seek_pos(s, i)) as usize,
            ((seek_range(s, i).0 - seek_pos(s, i)) as usize, seek_range(s, i).1),
        )),
        seek_pos(s, i) < seek_pos(s, i + 1) <= enc_seeks(s).len(),
        seek_pos(s, i) <= seek_range(s, i).0,
        range_bytes(enc_seeks(s), seek_range(s, i)) == seek_content(s[i]),
{
    let d = enc_seeks(s);
    let x = s[i];
    let c = seek_content(x);
    lemma_enc_seeks_at(s, i);
    let q = seek_pos(s, i);
    let t = d.skip(q);
    assert(t.subrange(0, enc_seek(x).len() as int) =~= d.subrange(q, seek_pos(s, i + 1)));
    lemma_seek_exact(x);
    lemma_seek_scan(x);
    lemma_seek_content_start(x);
    lemma_read_master_elem(0x4DBB, MasterId::Seek, c, 0x53AB, t);
    let st = spec_vid_size(0x4DBB) + vint_width(c.len());
    assert(seek_range(s, i).0 == q + st);
    assert(range_bytes(d, seek_range(s, i)) =~= t.subrange(st as int, (st + c.len()) as int));
}

/// The consecutive Seek elements from the `i`-th on are read back where
/// they were written.
#[verifier::spinoff_prover]
#[verifier::rlimit(100)]
proof fn lemma_seeks_many(s: Seq<Seek>, i: int)
    requires
        0 <= i <= s.len(),
        forall|j: int| 0 <= j < s.len() ==> (#[trigger] s[j]).position < vint_max(),
        enc_seeks(s).len() <= usize::MAX,
    ensures
        many(0x4DBB, FieldKind::Master(MasterId::Seek), enc_seeks(s), seek_pos(s, i))
            == (enc_seeks(s).len() as int, seek_ranges(s, i)),
    decreases s.len() - i,
{
    let d = enc_seeks(s);
    if i == s.len() {
        assert(s.take(i) =~= s);
        assert(d.skip(d.len() as int) =~= Seq::<u8>::empty());
        assert(spec_element(0x4DBB, FieldKind::Master(MasterId::Seek), d.skip(d.len() as int)) is Err);
        assert(seek_ranges(s, i) =~= Seq::<(usize, usize)>::empty());
    } else {
        lemma_seeks_elem(s, i);
        lemma_seeks_many(s, i + 1);
        lemma_enc_seeks_prefix(s, 0, i);
        let q = seek_pos(s, i);
        let r = seek_range(s, i);
        lemma_seek_exact(s[i]);
        assert(r.0 >= q);
        assert((q + ((r.0 - q) as usize)) as usize == r.0);
        assert(seek_ranges(s, i) =~= seq![r] + seek_ranges(s, i + 1));
    }
}

/// The Seek elements of a SeekHead, as they are written, are scanned back
/// into its one slot, which is not empty.
#[verifier::spinoff_prover]
#[verifier::rlimit(50)]
proof fn lemma_seek_head_perm(s: Seq<Seek>)
    requires
        s.len() > 0,
        forall|j: int| 0 <= j < s.len() ==> (#[trigger] s[j]).position < vint_max(),
        enc_seeks(s).len() <= usize::MAX,
    ensures
        spec_master(MasterId::SeekHead, enc_seeks(s)) == Ok::<Slots, ErrorKind>(seq![Some(seek_ranges(s, 0))]),
{
    let d = enc_seeks(s);
    let m = MasterId::SeekHead;
    let perr = permutation_err();
    lemma_seeks_many(s, 0);
    assert(s.take(0) =~= Seq::<Seek>::empty());
    assert(seek_pos(s, 0) == 0);
    lemma_seeks_elem(s, 0);
    lemma_enc_seeks_at(s, 0);
    let x = s[0];
    lemma_seek_exact(x);
    lemma_class_width(0x4DBB);
    lemma_be_bytes_len(0x4DBB, spec_vid_size(0x4DBB));
    let k = spec_vid_size(0x4DBB) as int;
    assert(d.subrange(0, seek_pos(s, 1)) == enc_seek(x));
    assert(d.skip(0).subrange(0, k) =~= enc_seek(x).subrange(0, k));
    assert(enc_seek(x).subrange(0, k) =~= be_bytes(0x4DBB, spec_vid_size(0x4DBB)));
    lemma_not_elem(0x4DBB, 0xEC, FieldKind::Binary, d.skip(0));
    let q = d.len() as int;
    let sl0 = empty_slots(1);
    let sl1 = sl0.update(0, Some(seek_ranges(s, 0)));
    assert(sl1 =~= seq![Some(seek_ranges(s, 0))]);
    assert(try_fields(m, d, q, 1, sl1, perr) == (q, sl1, perr));
    assert(try_fields(m, d, 0, 0, sl0, perr) == try_fields(m, d, q, 1, sl1, perr));
    assert(try_fields(m, d, q, 0, sl1, perr) == (q, sl1, perr));
    assert(d.skip(q) =~= Seq::<u8>::empty());
    assert(perm_loop(m, d, q, sl1, perr) == sl1);
    assert(perm_loop(m, d, 0, sl0, perr) == sl1);
    assert(seek_ranges(s, 0).len() > 0);
    assert(!missing_required(m, sl1));
}

/// A SeekHead with at least one Seek is the model of its Seek elements as
/// they are written.
pub proof fn lemma_seek_head_scan(x: SeekHead)
    requires
        x.positions@.len() > 0,
        forall|j: int| 0 <= j < x.positions@.len() ==> (#[trigger] x.positions@[j]).position < vint_max(),
        enc_seeks(x.positions@).len() <= usize::MAX,
    ensures
        spec_master(MasterId::SeekHead, enc_seeks(x.positions@)) is Ok,
        x.models(enc_seeks(x.positions@)),
{
    let s = x.positions@;
    let d = enc_seeks(s);
    lemma_seek_head_perm(s);
    let rs = seek_ranges(s, 0);
    assert forall|i: int| 0 <= i < rs.len() implies #[trigger] s[i].models(range_bytes(d, rs[i])) by {
        lemma_seeks_elem(s, i);
        lemma_seek_scan(s[i]);
    }
    reveal(SeekHead::models);
}

/// Bytes that start with the bytes of a SeekHead element with at least one
/// Seek read back as a top-level element of a Segment that is that SeekHead.
#[verifier::spinoff_prover]
#[verifier::rlimit(100)]
proof fn lemma_read_seek_head(x: SeekHead, t: Seq<u8>)
    requires
        x.positions@.len() > 0,
        forall|j: int| 0 <= j < x.positions@.len() ==> (#[trigger] x.positions@[j]).position < vint_max(),
        enc_seeks(x.positions@).len() < vint_max(),
        t.len() <= usize::MAX,
        t.len() >= enc_elem(0x114D9B74, enc_seeks(x.positions@)).len(),
        t.subrange(0, enc_elem(0x114D9B74, enc_seeks(x.positions@)).len() as int) == enc_elem(
            0x114D9B74,
            enc_seeks(x.positions@),
        ),
    ensures
        spec_segment_element(t) matches Ok((n, sh)) && n == enc_elem(0x114D9B74, enc_seeks(x.positions@)).len()
            && segment_element_is(t, sh, SegmentElement::SeekHead(x)),
{
    reveal(spec_segment_element);
    let s = x.positions@;
    let c = enc_seeks(s);
    let e = enc_elem(0x114D9B74, c);
    lemma_class_width(0x114D9B74);
    let k: int = spec_vid_size(0x114D9B74) as int;
    let es = vint_width(c.len());
    lemma_be_bytes_len(0x114D9B74, k as nat);
    lemma_be_bytes_len((c.len() + vint_limit(es)) as nat, es);
    assert(t.subrange(0, k) =~= e.subrange(0, k));
    assert(e.subrange(0, k) =~= be_bytes(0x114D9B74, k as nat));
    lemma_vid_reads(0x114D9B74, t);
    let rest = t.skip(k);
    assert(rest.subrange(0, es as int) =~= e.subrange(k, (k + es) as int));
    assert(e.subrange(k, (k + es) as int) =~= be_bytes((c.len() + vint_limit(es)) as nat, es));
    lemma_vint_reads(c.len() as u64, rest);
    assert(spec_elem_size(rest) == Ok::<(usize, usize), EbmlErr>((es as usize, c.len() as usize)));
    let hdr: int = k + es;
    assert(rest.subrange(es as int, (es + c.len()) as int) =~= e.subrange(hdr, hdr + c.len()));
    assert(e.subrange(hdr, hdr + c.len()) =~= c);
    lemma_seek_head_scan(x);
    lemma_seeks_elem(s, 0);
    lemma_enc_seeks_at(s, 0);
    assert(s.take(0) =~= Seq::<Seek>::empty());
    let x0 = s[0];
    lemma_seek_exact(x0);
    lemma_class_width(0x4DBB);
    lemma_be_bytes_len(0x4DBB, spec_vid_size(0x4DBB));
    let k0 = spec_vid_size(0x4DBB) as int;
    let r2 = rest.skip(es as int);
    assert(c.subrange(0, seek_pos(s, 1)) == enc_seek(x0));
    assert(r2.subrange(0, k0) =~= enc_seek(x0).subrange(0, k0));
    assert(enc_seek(x0).subrange(0, k0) =~= be_bytes(0x4DBB, spec_vid_size(0x4DBB)));
    lemma_not_elem(0x4DBB, 0xBF, FieldKind::Bin4, r2);
    assert(spec_crc(r2) == (0usize, None::<u32>));
    assert(spec_sub_element(MasterId::SeekHead, rest) == Ok::<(usize, (usize, usize)), EbmlErr>((
        (es + c.len()) as usize,
        (es as usize, c.len() as usize),
    )));
    assert(range_bytes(t, ((k + es) as usize, c.len() as usize)) =~= c);
}

/// What [gen_seek_head](crate::serializer::elements::gen_seek_head) writes
/// of a SeekHead with at least one Seek,
/// [segment_element](crate::elements::segment_element) reads back: the
/// bytes from the write position on start with a top-level element of the
/// length written that is that SeekHead.
pub proof fn law_seek_head_roundtrip(x: SeekHead, buf: Seq<u8>, pos: usize)
    requires
        buf.len() <= usize::MAX,
        x.positions@.len() > 0,
        spec_gen_seek_head(x, buf, pos).1 is Ok,
    ensures
        spec_gen_seek_head(x, buf, pos).1 matches Ok(p)
            && spec_segment_element(spec_gen_seek_head(x, buf, pos).0.skip(pos as int)) matches Ok((n, sh))
            && n == p - pos
            && segment_element_is(spec_gen_seek_head(x, buf, pos).0.skip(pos as int), sh, SegmentElement::SeekHead(x)),
{
    lemma_gen_seek_head(x, buf, pos);
    let e = enc_elem(0x114D9B74, enc_seeks(x.positions@));
    let t = splice(buf, pos as int, e).skip(pos as int);
    assert(t.subrange(0, e.len() as int) =~= e);
    lemma_read_seek_head(x, t);
}

/// A SeekHead with no Seek is written, but
/// [segment_element](crate::elements::segment_element) refuses what was
/// written: a SeekHead has at least one Seek.
#[verifier::spinoff_prover]
#[verifier::rlimit(50)]
pub proof fn law_empty_seek_head_refused(x: SeekHead, buf: Seq<u8>, pos: usize)
    requires
        buf.len() <= usize::MAX,
        x.positions@.len() == 0,
        spec_gen_seek_head(x, buf, pos).1 is Ok,
    ensures
        spec_segment_element(spec_gen_seek_head(x, buf, pos).0.skip(pos as int)) is Err,
{
    reveal(spec_segment_element);
    lemma_gen_seek_head(x, buf, pos);
    let c = enc_seeks(x.positions@);
    assert(c =~= Seq::<u8>::empty());
    let e = enc_elem(0x114D9B74, c);
    let t = splice(buf, pos as int, e).skip(pos as int);
    assert(t.subrange(0, e.len() as int) =~= e);
    lemma_class_width(0x114D9B74);
    let k: int = spec_vid_size(0x114D9B74) as int;
    lemma_be_bytes_len(0x114D9B74, k as nat);
    lemma_be_bytes_len(vint_limit(1), 1);
    assert(t.subrange(0, k) =~= e.subrange(0, k));
    assert(e.subrange(0, k) =~= be_bytes(0x114D9B74, k as nat));
    lemma_vid_reads(0x114D9B74, t);
    let rest = t.skip(k);
    assert(rest.subrange(0, 1) =~= e.subrange(k, k + 1));
    assert(e.subrange(k, k + 1) =~= be_bytes(vint_limit(1), 1));
    lemma_vint_reads(0, rest);
    assert(spec_elem_size(rest) == Ok::<(usize, usize), EbmlErr>((1, 0)));
    let r2 = rest.skip(1);
    lemma_element_ok(0xBF, FieldKind::Bin4, r2);
    assert(rest.subrange(1, 1) =~= Seq::<u8>::empty());
    let sl = seq![Some(Seq::<(usize, usize)>::empty())];
    let perr = permutation_err();
    let empty = Seq::<u8>::empty();
    assert(empty.skip(0) =~= empty);
    assert(try_fields(MasterId::SeekHead, empty, 0, 1, sl, perr) == (0int, sl, perr));
    assert(empty_slots(1).update(0, Some(Seq::<(usize, usize)>::empty())) =~= sl);
    assert(try_fields(MasterId::SeekHead, empty, 0, 0, empty_slots(1), perr) == (0int, sl, perr));
    assert(perm_loop(MasterId::SeekHead, empty, 0, empty_slots(1), perr) == sl);
    assert(schema(MasterId::SeekHead)[0].required && crate::permutation::slot_empty(sl[0]));
    assert(missing_required(MasterId::SeekHead, sl));
    assert(spec_master(MasterId::SeekHead, empty) is Err);
    assert(spec_sub_element(MasterId::SeekHead, rest) is Err);
}

} // verus!
