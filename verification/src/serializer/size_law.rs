use vstd::prelude::*;

use crate::ebml::parse::{vint_limit, EbmlFloat};
use crate::serializer::cookie_utils::{be_bytes, spec_write, GenError};
use crate::serializer::ebml::{
    float_bytes, lemma_be_bytes_len, size_tag, spec_elem_total, spec_gen_ebml_binary,
    spec_gen_ebml_uint, spec_gen_element, spec_gen_f64, spec_vid_size, spec_vint_size, vint_max,
    vint_width, EbmlSize, GenOut,
};
use crate::serializer::header_roundtrip::{
    enc_bin, enc_uint, lemma_enc_uint_len, lemma_gen_binary, lemma_gen_uint_short,
};
use crate::serializer::roundtrip::{ebml_class_id, lemma_class_width, lemma_write_at};
use crate::serializer::seek_roundtrip::lemma_gen_element_room;
use crate::serializer::elements::{
    spec_gen_audio, spec_gen_audio_fields0, spec_gen_track_entry, spec_gen_track_entry_fields0, spec_gen_track_entry_fields1, spec_gen_track_entry_fields2, spec_gen_track_entry_fields3, spec_gen_track_entry_fields4, spec_gen_track_entry_fields5, spec_gen_video, spec_gen_video_colour, spec_gen_video_colour_fields0, spec_gen_video_colour_fields1, spec_gen_video_colour_fields2, spec_gen_video_colour_fields3, spec_gen_video_colour_mastering_metadata, spec_gen_video_fields0, spec_gen_video_fields1, spec_gen_video_fields2, spec_gen_video_fields3, spec_gen_video_fields4, spec_gen_video_projection, spec_gen_video_projection_fields0, spec_gen_video_projection_fields1,
};
use crate::elements::masters::{Audio, Colour, Projection, TrackEntry, Video};
use vstd::utf8::encode_utf8;

verus! {

/// A writer that succeeds on `b` from `p` ends `n` bytes further and keeps
/// the length of the buffer.
pub open spec fn writes_len(w: GenOut, b: Seq<u8>, p: usize, n: nat) -> bool {
    &&& w.0.len() == b.len()
    &&& p + n <= b.len()
    &&& w.1 == Ok::<usize, GenError>((p + n) as usize)
}

/// An unsigned integer element, when it is written, takes what [EbmlSize]
/// counts for it.
pub proof fn lemma_pos_uint(id: u64, v: u64, b: Seq<u8>, p: usize)
    requires
        b.len() <= usize::MAX,
        ebml_class_id(id),
        spec_gen_ebml_uint(id, v, b, p).1 is Ok,
    ensures
        writes_len(spec_gen_ebml_uint(id, v, b, p), b, p, v.spec_size(id)),
{
    reveal(spec_gen_ebml_uint);
    let w = vint_width(v as nat);
    assert(v < vint_max());
    assert(1 <= w <= 8);
    lemma_gen_uint_short(id, v, w as u8, b, p);
    lemma_enc_uint_len(id, v);
}

/// A binary element, when it is written, takes its ID, a Data Size of the
/// width its length needs, and its data.
pub proof fn lemma_pos_bin(id: u64, data: Seq<u8>, b: Seq<u8>, p: usize)
    requires
        b.len() <= usize::MAX,
        ebml_class_id(id),
        spec_gen_ebml_binary(id, data, b, p).1 is Ok,
    ensures
        writes_len(spec_gen_ebml_binary(id, data, b, p), b, p, spec_elem_total(id, data.len())),
{
    lemma_gen_binary(id, data, b, p);
    lemma_class_width(id);
    lemma_be_bytes_len(id as nat, spec_vid_size(id));
    lemma_be_bytes_len((data.len() + vint_limit(vint_width(data.len()))) as nat, vint_width(data.len()));
}

/// A float element, when it is written, takes what [EbmlSize] counts for
/// it.
pub proof fn lemma_pos_f64(id: u64, x: EbmlFloat, b: Seq<u8>, p: usize)
    requires
        b.len() <= usize::MAX,
        ebml_class_id(id),
        spec_gen_f64(id, x, b, p).1 is Ok,
    ensures
        writes_len(spec_gen_f64(id, x, b, p), b, p, x.spec_size(id)),
{
    reveal(spec_gen_f64);
    lemma_class_width(id);
    let k = spec_vid_size(id);
    lemma_be_bytes_len(id as nat, k);
    let fb = float_bytes(x);
    lemma_be_bytes_len(0, 4);
    lemma_be_bytes_len(0, 8);
    match x {
        EbmlFloat::F32(v) => lemma_be_bytes_len(v as nat, 4),
        EbmlFloat::F64(v) => lemma_be_bytes_len(v as nat, 8),
    }
    assert(fb.len() == x.spec_capacity());
    assert(p + k <= b.len());
    lemma_write_at(b, p as int, be_bytes(id as nat, k));
    let b1 = spec_write(b, p as int, be_bytes(id as nat, k)).0;
    let p1 = (p + k) as usize;
    let sz = be_bytes((fb.len() + vint_limit(1)) as nat, 1);
    lemma_be_bytes_len((fb.len() + vint_limit(1)) as nat, 1);
    assert(vint_width(fb.len()) == 1);
    assert(spec_vint_size(fb.len() as u64) == Ok::<u8, GenError>(1));
    assert(p1 + 1 <= b.len());
    lemma_write_at(b1, p1 as int, sz);
    let b2 = spec_write(b1, p1 as int, sz).0;
    let p2 = (p1 + 1) as usize;
    assert(p2 + fb.len() <= b.len());
    lemma_write_at(b2, p2 as int, fb);
}

/// An element whose data `content` writes in `clen` bytes, with room for a
/// Data Size of the width `clen` needs, takes, when it is written, its ID,
/// that Data Size and its data.
pub proof fn lemma_gen_element_pos(
    id: u64,
    es: u8,
    content: spec_fn(Seq<u8>, usize) -> GenOut,
    clen: nat,
    buf: Seq<u8>,
    pos: usize,
)
    requires
        buf.len() <= usize::MAX,
        ebml_class_id(id),
        1 <= es <= 8,
        spec_gen_element(id, es as usize, es, content, buf, pos).1 is Ok,
        forall|b: Seq<u8>|
            b.len() == buf.len() && (#[trigger] content(b, (pos + spec_vid_size(id) + es) as usize)).1 is Ok
                ==> {
                &&& clen < vint_max()
                &&& vint_width(clen) == es
                &&& writes_len(content(b, (pos + spec_vid_size(id) + es) as usize), b, (pos + spec_vid_size(id) + es) as usize, clen)
            },
    ensures
        clen < vint_max(),
        writes_len(spec_gen_element(id, es as usize, es, content, buf, pos), buf, pos, spec_elem_total(id, clen)),
{
    lemma_class_width(id);
    let k = spec_vid_size(id);
    let vid_bytes = be_bytes(id as nat, k);
    lemma_be_bytes_len(id as nat, k);
    assert(pos + k <= buf.len());
    lemma_write_at(buf, pos as int, vid_bytes);
    let b1 = spec_write(buf, pos as int, vid_bytes).0;
    let ofs = (pos + k) as usize;
    let start = (ofs + es) as usize;
    assert(start <= buf.len());
    let wc = content(b1, start);
    assert(wc.1 is Ok);
    let b3 = wc.0;
    let size_bytes = be_bytes((clen + vint_limit(es as nat)) as nat, es as nat);
    lemma_be_bytes_len((clen + vint_limit(es as nat)) as nat, es as nat);
    assert(spec_vint_size(clen as u64) == Ok::<u8, GenError>(es));
    lemma_write_at(b3, ofs as int, size_bytes);
    assert(size_tag(clen) == es);
}

/// A Colour without mastering metadata, the one part whose capacity counts
/// more than what is written.
pub open spec fn colour_exact(c: Colour) -> bool {
    c.mastering_metadata is None
}

/// A Video whose Colour, if any, has no mastering metadata.
pub open spec fn video_exact(v: Video) -> bool {
    match v.colour {
        Some(c) => colour_exact(c),
        None => true,
    }
}

/// A TrackEntry whose Video, if any, has a Colour without mastering
/// metadata, if any.
pub open spec fn track_exact(t: TrackEntry) -> bool {
    match t.video {
        Some(v) => video_exact(v),
        None => true,
    }
}

/// What the fields of [track_entry_fields0](crate::serializer::elements::spec_gen_track_entry_fields0) and those after them take.
pub open spec fn tail_track_entry_fields0(x: TrackEntry) -> nat {
    x.track_number.spec_size(0xD7) + x.track_uid.spec_size(0x73C5) + x.track_type.spec_size(0x83) + x.flag_enabled.spec_size(0xB9) + tail_track_entry_fields1(x)
}

/// The fields of a TrackEntry from this group on take, when they are written,
/// what [EbmlSize] counts for them.
#[verifier::spinoff_prover]
#[verifier::rlimit(50)]
proof fn lemma_pos_track_entry_fields0(x: TrackEntry, b0: Seq<u8>, p0: usize)
    requires
        b0.len() <= usize::MAX,
        p0 <= b0.len(),
        spec_gen_track_entry_fields0(x, b0, p0).1 is Ok,
        track_exact(x),
    ensures
        writes_len(spec_gen_track_entry_fields0(x, b0, p0), b0, p0, tail_track_entry_fields0(x)),
{
    reveal(spec_gen_track_entry_fields0);
    let w1 = spec_gen_ebml_uint(0xD7, x.track_number, b0, p0);
    assert(w1.1 is Ok);
    lemma_pos_uint(0xD7, x.track_number, b0, p0);
    let b1 = w1.0;
    let p1 = (p0 + x.track_number.spec_size(0xD7)) as usize;
    let w2 = spec_gen_ebml_uint(0x73C5, x.track_uid, b1, p1);
    assert(w2.1 is Ok);
    lemma_pos_uint(0x73C5, x.track_uid, b1, p1);
    let b2 = w2.0;
    let p2 = (p1 + x.track_uid.spec_size(0x73C5)) as usize;
    let w3 = spec_gen_ebml_uint(0x83, x.track_type, b2, p2);
    assert(w3.1 is Ok);
    lemma_pos_uint(0x83, x.track_type, b2, p2);
    let b3 = w3.0;
    let p3 = (p2 + x.track_type.spec_size(0x83)) as usize;
    let w4 = spec_gen_ebml_uint(0xB9, x.flag_enabled, b3, p3);
    assert(w4.1 is Ok);
    lemma_pos_uint(0xB9, x.flag_enabled, b3, p3);
    let b4 = w4.0;
    let p4 = (p3 + x.flag_enabled.spec_size(0xB9)) as usize;
    lemma_pos_track_entry_fields1(x, b4, p4);
}

/// What the fields of [track_entry_fields1](crate::serializer::elements::spec_gen_track_entry_fields1) and those after them take.
pub open spec fn tail_track_entry_fields1(x: TrackEntry) -> nat {
    x.flag_default.spec_size(0x88) + x.flag_forced.spec_size(0x55AA) + x.flag_lacing.spec_size(0x9C) + x.default_duration.spec_size(0x23E383) + tail_track_entry_fields2(x)
}

/// The fields of a TrackEntry from this group on take, when they are written,
/// what [EbmlSize] counts for them.
#[verifier::spinoff_prover]
#[verifier::rlimit(50)]
proof fn lemma_pos_track_entry_fields1(x: TrackEntry, b0: Seq<u8>, p0: usize)
    requires
        b0.len() <= usize::MAX,
        p0 <= b0.len(),
        spec_gen_track_entry_fields1(x, b0, p0).1 is Ok,
        track_exact(x),
    ensures
        writes_len(spec_gen_track_entry_fields1(x, b0, p0), b0, p0, tail_track_entry_fields1(x)),
{
    reveal(spec_gen_track_entry_fields1);
    let w1 = spec_gen_ebml_uint(0x88, x.flag_default, b0, p0);
    assert(w1.1 is Ok);
    lemma_pos_uint(0x88, x.flag_default, b0, p0);
    let b1 = w1.0;
    let p1 = (p0 + x.flag_default.spec_size(0x88)) as usize;
    let w2 = spec_gen_ebml_uint(0x55AA, x.flag_forced, b1, p1);
    assert(w2.1 is Ok);
    lemma_pos_uint(0x55AA, x.flag_forced, b1, p1);
    let b2 = w2.0;
    let p2 = (p1 + x.flag_forced.spec_size(0x55AA)) as usize;
    let w3 = spec_gen_ebml_uint(0x9C, x.flag_lacing, b2, p2);
    assert(w3.1 is Ok);
    lemma_pos_uint(0x9C, x.flag_lacing, b2, p2);
    let b3 = w3.0;
    let p3 = (p2 + x.flag_lacing.spec_size(0x9C)) as usize;
    let w4 = match x.default_duration { Some(v) => spec_gen_ebml_uint(0x23E383, v, b3, p3), None => (b3, Ok(p3)) };
    assert(w4.1 is Ok);
    match x.default_duration { Some(v) => { lemma_pos_uint(0x23E383, v, b3, p3); }, None => {} }
    let b4 = w4.0;
    let p4 = (p3 + x.default_duration.spec_size(0x23E383)) as usize;
    lemma_pos_track_entry_fields2(x, b4, p4);
}

/// What the fields of [track_entry_fields2](crate::serializer::elements::spec_gen_track_entry_fields2) and those after them take.
pub open spec fn tail_track_entry_fields2(x: TrackEntry) -> nat {
    x.default_decoded_field_duration.spec_size(0x234E7A) + x.track_timestamp_scale.spec_size(0x23314F) + x.max_block_addition_id.spec_size(0x55EE) + x.name.spec_size(0x536E) + tail_track_entry_fields3(x)
}

/// The fields of a TrackEntry from this group on take, when they are written,
/// what [EbmlSize] counts for them.
#[verifier::spinoff_prover]
#[verifier::rlimit(50)]
proof fn lemma_pos_track_entry_fields2(x: TrackEntry, b0: Seq<u8>, p0: usize)
    requires
        b0.len() <= usize::MAX,
        p0 <= b0.len(),
        spec_gen_track_entry_fields2(x, b0, p0).1 is Ok,
        track_exact(x),
    ensures
        writes_len(spec_gen_track_entry_fields2(x, b0, p0), b0, p0, tail_track_entry_fields2(x)),
{
    reveal(spec_gen_track_entry_fields2);
    let w1 = match x.default_decoded_field_duration { Some(v) => spec_gen_ebml_uint(0x234E7A, v, b0, p0), None => (b0, Ok(p0)) };
    assert(w1.1 is Ok);
    match x.default_decoded_field_duration { Some(v) => { lemma_pos_uint(0x234E7A, v, b0, p0); }, None => {} }
    let b1 = w1.0;
    let p1 = (p0 + x.default_decoded_field_duration.spec_size(0x234E7A)) as usize;
    let w2 = spec_gen_f64(0x23314F, x.track_timestamp_scale, b1, p1);
    assert(w2.1 is Ok);
    lemma_pos_f64(0x23314F, x.track_timestamp_scale, b1, p1);
    let b2 = w2.0;
    let p2 = (p1 + x.track_timestamp_scale.spec_size(0x23314F)) as usize;
    let w3 = spec_gen_ebml_uint(0x55EE, x.max_block_addition_id, b2, p2);
    assert(w3.1 is Ok);
    lemma_pos_uint(0x55EE, x.max_block_addition_id, b2, p2);
    let b3 = w3.0;
    let p3 = (p2 + x.max_block_addition_id.spec_size(0x55EE)) as usize;
    let w4 = match x.name { Some(v) => spec_gen_ebml_binary(0x536E, encode_utf8(v@), b3, p3), None => (b3, Ok(p3)) };
    assert(w4.1 is Ok);
    match x.name { Some(v) => { lemma_pos_bin(0x536E, encode_utf8(v@), b3, p3); }, None => {} }
    let b4 = w4.0;
    let p4 = (p3 + x.name.spec_size(0x536E)) as usize;
    lemma_pos_track_entry_fields3(x, b4, p4);
}

/// What the fields of [track_entry_fields3](crate::serializer::elements::spec_gen_track_entry_fields3) and those after them take.
pub open spec fn tail_track_entry_fields3(x: TrackEntry) -> nat {
    x.language.spec_size(0x22B59C) + x.language_ietf.spec_size(0x22B59D) + x.codec_id.spec_size(0x86) + x.codec_private.spec_size(0x63A2) + tail_track_entry_fields4(x)
}

/// The fields of a TrackEntry from this group on take, when they are written,
/// what [EbmlSize] counts for them.
#[verifier::spinoff_prover]
#[verifier::rlimit(50)]
proof fn lemma_pos_track_entry_fields3(x: TrackEntry, b0: Seq<u8>, p0: usize)
    requires
        b0.len() <= usize::MAX,
        p0 <= b0.len(),
        spec_gen_track_entry_fields3(x, b0, p0).1 is Ok,
        track_exact(x),
    ensures
        writes_len(spec_gen_track_entry_fields3(x, b0, p0), b0, p0, tail_track_entry_fields3(x)),
{
    reveal(spec_gen_track_entry_fields3);
    let w1 = spec_gen_ebml_binary(0x22B59C, encode_utf8(x.language@), b0, p0);
    assert(w1.1 is Ok);
    lemma_pos_bin(0x22B59C, encode_utf8(x.language@), b0, p0);
    let b1 = w1.0;
    let p1 = (p0 + x.language.spec_size(0x22B59C)) as usize;
    let w2 = match x.language_ietf { Some(v) => spec_gen_ebml_binary(0x22B59D, encode_utf8(v@), b1, p1), None => (b1, Ok(p1)) };
    assert(w2.1 is Ok);
    match x.language_ietf { Some(v) => { lemma_pos_bin(0x22B59D, encode_utf8(v@), b1, p1); }, None => {} }
    let b2 = w2.0;
    let p2 = (p1 + x.language_ietf.spec_size(0x22B59D)) as usize;
    let w3 = spec_gen_ebml_binary(0x86, encode_utf8(x.codec_id@), b2, p2);
    assert(w3.1 is Ok);
    lemma_pos_bin(0x86, encode_utf8(x.codec_id@), b2, p2);
    let b3 = w3.0;
    let p3 = (p2 + x.codec_id.spec_size(0x86)) as usize;
    let w4 = match x.codec_private { Some(v) => spec_gen_ebml_binary(0x63A2, v@, b3, p3), None => (b3, Ok(p3)) };
    assert(w4.1 is Ok);
    match x.codec_private { Some(v) => { lemma_pos_bin(0x63A2, v@, b3, p3); }, None => {} }
    let b4 = w4.0;
    let p4 = (p3 + x.codec_private.spec_size(0x63A2)) as usize;
    lemma_pos_track_entry_fields4(x, b4, p4);
}

/// What the fields of [track_entry_fields4](crate::serializer::elements::spec_gen_track_entry_fields4) and those after them take.
pub open spec fn tail_track_entry_fields4(x: TrackEntry) -> nat {
    x.codec_name.spec_size(0x258688) + x.attachment_link.spec_size(0x7446) + x.codec_delay.spec_size(0x56AA) + x.seek_pre_roll.spec_size(0x56BB) + tail_track_entry_fields5(x)
}

/// The fields of a TrackEntry from this group on take, when they are written,
/// what [EbmlSize] counts for them.
#[verifier::spinoff_prover]
#[verifier::rlimit(50)]
proof fn lemma_pos_track_entry_fields4(x: TrackEntry, b0: Seq<u8>, p0: usize)
    requires
        b0.len() <= usize::MAX,
        p0 <= b0.len(),
        spec_gen_track_entry_fields4(x, b0, p0).1 is Ok,
        track_exact(x),
    ensures
        writes_len(spec_gen_track_entry_fields4(x, b0, p0), b0, p0, tail_track_entry_fields4(x)),
{
    reveal(spec_gen_track_entry_fields4);
    let w1 = match x.codec_name { Some(v) => spec_gen_ebml_binary(0x258688, encode_utf8(v@), b0, p0), None => (b0, Ok(p0)) };
    assert(w1.1 is Ok);
    match x.codec_name { Some(v) => { lemma_pos_bin(0x258688, encode_utf8(v@), b0, p0); }, None => {} }
    let b1 = w1.0;
    let p1 = (p0 + x.codec_name.spec_size(0x258688)) as usize;
    let w2 = match x.attachment_link { Some(v) => spec_gen_ebml_uint(0x7446, v, b1, p1), None => (b1, Ok(p1)) };
    assert(w2.1 is Ok);
    match x.attachment_link { Some(v) => { lemma_pos_uint(0x7446, v, b1, p1); }, None => {} }
    let b2 = w2.0;
    let p2 = (p1 + x.attachment_link.spec_size(0x7446)) as usize;
    let w3 = spec_gen_ebml_uint(0x56AA, x.codec_delay, b2, p2);
    assert(w3.1 is Ok);
    lemma_pos_uint(0x56AA, x.codec_delay, b2, p2);
    let b3 = w3.0;
    let p3 = (p2 + x.codec_delay.spec_size(0x56AA)) as usize;
    let w4 = spec_gen_ebml_uint(0x56BB, x.seek_pre_roll, b3, p3);
    assert(w4.1 is Ok);
    lemma_pos_uint(0x56BB, x.seek_pre_roll, b3, p3);
    let b4 = w4.0;
    let p4 = (p3 + x.seek_pre_roll.spec_size(0x56BB)) as usize;
    lemma_pos_track_entry_fields5(x, b4, p4);
}

/// What the fields of [track_entry_fields5](crate::serializer::elements::spec_gen_track_entry_fields5) and those after them take.
pub open spec fn tail_track_entry_fields5(x: TrackEntry) -> nat {
    x.video.spec_size(0xe0) + x.audio.spec_size(0xe1)
}

/// The fields of a TrackEntry from this group on take, when they are written,
/// what [EbmlSize] counts for them.
#[verifier::spinoff_prover]
#[verifier::rlimit(50)]
proof fn lemma_pos_track_entry_fields5(x: TrackEntry, b0: Seq<u8>, p0: usize)
    requires
        b0.len() <= usize::MAX,
        p0 <= b0.len(),
        spec_gen_track_entry_fields5(x, b0, p0).1 is Ok,
        track_exact(x),
    ensures
        writes_len(spec_gen_track_entry_fields5(x, b0, p0), b0, p0, tail_track_entry_fields5(x)),
{
    reveal(spec_gen_track_entry_fields5);
    let w1 = match x.video { Some(v) => spec_gen_video(v, b0, p0), None => (b0, Ok(p0)) };
    assert(w1.1 is Ok);
    match x.video { Some(v) => { lemma_pos_video(v, b0, p0); }, None => {} }
    let b1 = w1.0;
    let p1 = (p0 + x.video.spec_size(0xe0)) as usize;
    let w2 = match x.audio { Some(v) => spec_gen_audio(v, b1, p1), None => (b1, Ok(p1)) };
    assert(w2.1 is Ok);
    match x.audio { Some(v) => { lemma_pos_audio(v, b1, p1); }, None => {} }
    let b2 = w2.0;
    let p2 = (p1 + x.audio.spec_size(0xe1)) as usize;
}

/// A TrackEntry, when it is written, takes what [EbmlSize] counts for it.
#[verifier::spinoff_prover]
#[verifier::rlimit(50)]
pub proof fn lemma_pos_track_entry(x: TrackEntry, b: Seq<u8>, p: usize)
    requires
        b.len() <= usize::MAX,
        spec_gen_track_entry(x, b, p).1 is Ok,
        track_exact(x),
    ensures
        writes_len(spec_gen_track_entry(x, b, p), b, p, x.spec_size(0xAE)),
{
    reveal(spec_gen_track_entry);
    let es = spec_vint_size(x.spec_capacity() as u64)->Ok_0;
    let f = |b: Seq<u8>, p: usize| spec_gen_track_entry_fields0(x, b, p);
    assert(spec_gen_track_entry(x, b, p) == spec_gen_element(0xAE, es as usize, es, f, b, p));
    lemma_class_width(0xAE);
    assert(spec_vint_size(x.spec_capacity() as u64) is Ok);
    assert(1 <= es <= 8);
    lemma_gen_element_room(0xAE, es, f, b, p);
    let start = (p + spec_vid_size(0xAE) + es) as usize;
    assert forall|b2: Seq<u8>| b2.len() == b.len() && (#[trigger] f(b2, start)).1 is Ok implies {
        &&& x.spec_capacity() < vint_max()
        &&& vint_width(x.spec_capacity()) == es
        &&& writes_len(f(b2, start), b2, start, x.spec_capacity())
    } by {
        assert(f(b2, start) == spec_gen_track_entry_fields0(x, b2, start));
        lemma_pos_track_entry_fields0(x, b2, start);
        assert(tail_track_entry_fields0(x) == x.spec_capacity());
    }
    lemma_gen_element_pos(0xAE, es, f, x.spec_capacity(), b, p);
}

/// What the fields of [audio_fields0](crate::serializer::elements::spec_gen_audio_fields0) and those after them take.
pub open spec fn tail_audio_fields0(x: Audio) -> nat {
    x.sampling_frequency.spec_size(0xB5) + x.output_sampling_frequency.spec_size(0x78B5) + x.channels.spec_size(0x9F) + x.bit_depth.spec_size(0x6264)
}

/// The fields of a Audio from this group on take, when they are written,
/// what [EbmlSize] counts for them.
#[verifier::spinoff_prover]
#[verifier::rlimit(50)]
proof fn lemma_pos_audio_fields0(x: Audio, b0: Seq<u8>, p0: usize)
    requires
        b0.len() <= usize::MAX,
        p0 <= b0.len(),
        spec_gen_audio_fields0(x, b0, p0).1 is Ok,
    ensures
        writes_len(spec_gen_audio_fields0(x, b0, p0), b0, p0, tail_audio_fields0(x)),
{
    reveal(spec_gen_audio_fields0);
    let w1 = spec_gen_f64(0xB5, x.sampling_frequency, b0, p0);
    assert(w1.1 is Ok);
    lemma_pos_f64(0xB5, x.sampling_frequency, b0, p0);
    let b1 = w1.0;
    let p1 = (p0 + x.sampling_frequency.spec_size(0xB5)) as usize;
    let w2 = match x.output_sampling_frequency { Some(v) => spec_gen_f64(0x78B5, v, b1, p1), None => (b1, Ok(p1)) };
    assert(w2.1 is Ok);
    match x.output_sampling_frequency { Some(v) => { lemma_pos_f64(0x78B5, v, b1, p1); }, None => {} }
    let b2 = w2.0;
    let p2 = (p1 + x.output_sampling_frequency.spec_size(0x78B5)) as usize;
    let w3 = spec_gen_ebml_uint(0x9F, x.channels, b2, p2);
    assert(w3.1 is Ok);
    lemma_pos_uint(0x9F, x.channels, b2, p2);
    let b3 = w3.0;
    let p3 = (p2 + x.channels.spec_size(0x9F)) as usize;
    let w4 = match x.bit_depth { Some(v) => spec_gen_ebml_uint(0x6264, v, b3, p3), None => (b3, Ok(p3)) };
    assert(w4.1 is Ok);
    match x.bit_depth { Some(v) => { lemma_pos_uint(0x6264, v, b3, p3); }, None => {} }
    let b4 = w4.0;
    let p4 = (p3 + x.bit_depth.spec_size(0x6264)) as usize;
}

/// A Audio, when it is written, takes what [EbmlSize] counts for it.
#[verifier::spinoff_prover]
#[verifier::rlimit(50)]
pub proof fn lemma_pos_audio(x: Audio, b: Seq<u8>, p: usize)
    requires
        b.len() <= usize::MAX,
        spec_gen_audio(x, b, p).1 is Ok,
    ensures
        writes_len(spec_gen_audio(x, b, p), b, p, x.spec_size(0xE1)),
{
    reveal(spec_gen_audio);
    let es = spec_vint_size(x.spec_capacity() as u64)->Ok_0;
    let f = |b: Seq<u8>, p: usize| spec_gen_audio_fields0(x, b, p);
    assert(spec_gen_audio(x, b, p) == spec_gen_element(0xE1, es as usize, es, f, b, p));
    lemma_class_width(0xE1);
    assert(spec_vint_size(x.spec_capacity() as u64) is Ok);
    assert(1 <= es <= 8);
    lemma_gen_element_room(0xE1, es, f, b, p);
    let start = (p + spec_vid_size(0xE1) + es) as usize;
    assert forall|b2: Seq<u8>| b2.len() == b.len() && (#[trigger] f(b2, start)).1 is Ok implies {
        &&& x.spec_capacity() < vint_max()
        &&& vint_width(x.spec_capacity()) == es
        &&& writes_len(f(b2, start), b2, start, x.spec_capacity())
    } by {
        assert(f(b2, start) == spec_gen_audio_fields0(x, b2, start));
        lemma_pos_audio_fields0(x, b2, start);
        assert(tail_audio_fields0(x) == x.spec_capacity());
    }
    lemma_gen_element_pos(0xE1, es, f, x.spec_capacity(), b, p);
}

/// What the fields of [video_fields0](crate::serializer::elements::spec_gen_video_fields0) and those after them take.
pub open spec fn tail_video_fields0(x: Video) -> nat {
    x.flag_interlaced.spec_size(0x9A) + x.field_order.spec_size(0x9D) + x.stereo_mode.spec_size(0x53B8) + x.alpha_mode.spec_size(0x53C0) + tail_video_fields1(x)
}

/// The fields of a Video from this group on take, when they are written,
/// what [EbmlSize] counts for them.
#[verifier::spinoff_prover]
#[verifier::rlimit(50)]
proof fn lemma_pos_video_fields0(x: Video, b0: Seq<u8>, p0: usize)
    requires
        b0.len() <= usize::MAX,
        p0 <= b0.len(),
        spec_gen_video_fields0(x, b0, p0).1 is Ok,
        video_exact(x),
    ensures
        writes_len(spec_gen_video_fields0(x, b0, p0), b0, p0, tail_video_fields0(x)),
{
    reveal(spec_gen_video_fields0);
    let w1 = spec_gen_ebml_uint(0x9A, x.flag_interlaced, b0, p0);
    assert(w1.1 is Ok);
    lemma_pos_uint(0x9A, x.flag_interlaced, b0, p0);
    let b1 = w1.0;
    let p1 = (p0 + x.flag_interlaced.spec_size(0x9A)) as usize;
    let w2 = spec_gen_ebml_uint(0x9D, x.field_order, b1, p1);
    assert(w2.1 is Ok);
    lemma_pos_uint(0x9D, x.field_order, b1, p1);
    let b2 = w2.0;
    let p2 = (p1 + x.field_order.spec_size(0x9D)) as usize;
    let w3 = spec_gen_ebml_uint(0x53B8, x.stereo_mode, b2, p2);
    assert(w3.1 is Ok);
    lemma_pos_uint(0x53B8, x.stereo_mode, b2, p2);
    let b3 = w3.0;
    let p3 = (p2 + x.stereo_mode.spec_size(0x53B8)) as usize;
    let w4 = spec_gen_ebml_uint(0x53C0, x.alpha_mode, b3, p3);
    assert(w4.1 is Ok);
    lemma_pos_uint(0x53C0, x.alpha_mode, b3, p3);
    let b4 = w4.0;
    let p4 = (p3 + x.alpha_mode.spec_size(0x53C0)) as usize;
    lemma_pos_video_fields1(x, b4, p4);
}

/// What the fields of [video_fields1](crate::serializer::elements::spec_gen_video_fields1) and those after them take.
pub open spec fn tail_video_fields1(x: Video) -> nat {
    x.old_stereo_mode.spec_size(0x53B9) + x.pixel_width.spec_size(0xB0) + x.pixel_height.spec_size(0xBA) + x.pixel_crop_bottom.spec_size(0x54AA) + tail_video_fields2(x)
}

/// The fields of a Video from this group on take, when they are written,
/// what [EbmlSize] counts for them.
#[verifier::spinoff_prover]
#[verifier::rlimit(50)]
proof fn lemma_pos_video_fields1(x: Video, b0: Seq<u8>, p0: usize)
    requires
        b0.len() <= usize::MAX,
        p0 <= b0.len(),
        spec_gen_video_fields1(x, b0, p0).1 is Ok,
        video_exact(x),
    ensures
        writes_len(spec_gen_video_fields1(x, b0, p0), b0, p0, tail_video_fields1(x)),
{
    reveal(spec_gen_video_fields1);
    let w1 = match x.old_stereo_mode { Some(v) => spec_gen_ebml_uint(0x53B9, v, b0, p0), None => (b0, Ok(p0)) };
    assert(w1.1 is Ok);
    match x.old_stereo_mode { Some(v) => { lemma_pos_uint(0x53B9, v, b0, p0); }, None => {} }
    let b1 = w1.0;
    let p1 = (p0 + x.old_stereo_mode.spec_size(0x53B9)) as usize;
    let w2 = spec_gen_ebml_uint(0xB0, x.pixel_width, b1, p1);
    assert(w2.1 is Ok);
    lemma_pos_uint(0xB0, x.pixel_width, b1, p1);
    let b2 = w2.0;
    let p2 = (p1 + x.pixel_width.spec_size(0xB0)) as usize;
    let w3 = spec_gen_ebml_uint(0xBA, x.pixel_height, b2, p2);
    assert(w3.1 is Ok);
    lemma_pos_uint(0xBA, x.pixel_height, b2, p2);
    let b3 = w3.0;
    let p3 = (p2 + x.pixel_height.spec_size(0xBA)) as usize;
    let w4 = spec_gen_ebml_uint(0x54AA, x.pixel_crop_bottom, b3, p3);
    assert(w4.1 is Ok);
    lemma_pos_uint(0x54AA, x.pixel_crop_bottom, b3, p3);
    let b4 = w4.0;
    let p4 = (p3 + x.pixel_crop_bottom.spec_size(0x54AA)) as usize;
    lemma_pos_video_fields2(x, b4, p4);
}

/// What the fields of [video_fields2](crate::serializer::elements::spec_gen_video_fields2) and those after them take.
pub open spec fn tail_video_fields2(x: Video) -> nat {
    x.pixel_crop_top.spec_size(0x54BB) + x.pixel_crop_left.spec_size(0x54CC) + x.pixel_crop_right.spec_size(0x54DD) + x.display_width.spec_size(0x54B0) + tail_video_fields3(x)
}

/// The fields of a Video from this group on take, when they are written,
/// what [EbmlSize] counts for them.
#[verifier::spinoff_prover]
#[verifier::rlimit(50)]
proof fn lemma_pos_video_fields2(x: Video, b0: Seq<u8>, p0: usize)
    requires
        b0.len() <= usize::MAX,
        p0 <= b0.len(),
        spec_gen_video_fields2(x, b0, p0).1 is Ok,
        video_exact(x),
    ensures
        writes_len(spec_gen_video_fields2(x, b0, p0), b0, p0, tail_video_fields2(x)),
{
    reveal(spec_gen_video_fields2);
    let w1 = spec_gen_ebml_uint(0x54BB, x.pixel_crop_top, b0, p0);
    assert(w1.1 is Ok);
    lemma_pos_uint(0x54BB, x.pixel_crop_top, b0, p0);
    let b1 = w1.0;
    let p1 = (p0 + x.pixel_crop_top.spec_size(0x54BB)) as usize;
    let w2 = spec_gen_ebml_uint(0x54CC, x.pixel_crop_left, b1, p1);
    assert(w2.1 is Ok);
    lemma_pos_uint(0x54CC, x.pixel_crop_left, b1, p1);
    let b2 = w2.0;
    let p2 = (p1 + x.pixel_crop_left.spec_size(0x54CC)) as usize;
    let w3 = spec_gen_ebml_uint(0x54DD, x.pixel_crop_right, b2, p2);
    assert(w3.1 is Ok);
    lemma_pos_uint(0x54DD, x.pixel_crop_right, b2, p2);
    let b3 = w3.0;
    let p3 = (p2 + x.pixel_crop_right.spec_size(0x54DD)) as usize;
    let w4 = match x.display_width { Some(v) => spec_gen_ebml_uint(0x54B0, v, b3, p3), None => (b3, Ok(p3)) };
    assert(w4.1 is Ok);
    match x.display_width { Some(v) => { lemma_pos_uint(0x54B0, v, b3, p3); }, None => {} }
    let b4 = w4.0;
    let p4 = (p3 + x.display_width.spec_size(0x54B0)) as usize;
    lemma_pos_video_fields3(x, b4, p4);
}

/// What the fields of [video_fields3](crate::serializer::elements::spec_gen_video_fields3) and those after them take.
pub open spec fn tail_video_fields3(x: Video) -> nat {
    x.display_height.spec_size(0x54BA) + x.display_unit.spec_size(0x54B2) + x.colour_space.spec_size(0x2EB524) + x.colour.spec_size(0x55b0) + tail_video_fields4(x)
}

/// The fields of a Video from this group on take, when they are written,
/// what [EbmlSize] counts for them.
#[verifier::spinoff_prover]
#[verifier::rlimit(50)]
proof fn lemma_pos_video_fields3(x: Video, b0: Seq<u8>, p0: usize)
    requires
        b0.len() <= usize::MAX,
        p0 <= b0.len(),
        spec_gen_video_fields3(x, b0, p0).1 is Ok,
        video_exact(x),
    ensures
        writes_len(spec_gen_video_fields3(x, b0, p0), b0, p0, tail_video_fields3(x)),
{
    reveal(spec_gen_video_fields3);
    let w1 = match x.display_height { Some(v) => spec_gen_ebml_uint(0x54BA, v, b0, p0), None => (b0, Ok(p0)) };
    assert(w1.1 is Ok);
    match x.display_height { Some(v) => { lemma_pos_uint(0x54BA, v, b0, p0); }, None => {} }
    let b1 = w1.0;
    let p1 = (p0 + x.display_height.spec_size(0x54BA)) as usize;
    let w2 = spec_gen_ebml_uint(0x54B2, x.display_unit, b1, p1);
    assert(w2.1 is Ok);
    lemma_pos_uint(0x54B2, x.display_unit, b1, p1);
    let b2 = w2.0;
    let p2 = (p1 + x.display_unit.spec_size(0x54B2)) as usize;
    let w3 = match x.colour_space { Some(v) => spec_gen_ebml_binary(0x2EB524, v@, b2, p2), None => (b2, Ok(p2)) };
    assert(w3.1 is Ok);
    match x.colour_space { Some(v) => { lemma_pos_bin(0x2EB524, v@, b2, p2); }, None => {} }
    let b3 = w3.0;
    let p3 = (p2 + x.colour_space.spec_size(0x2EB524)) as usize;
    let w4 = match x.colour { Some(v) => spec_gen_video_colour(v, b3, p3), None => (b3, Ok(p3)) };
    assert(w4.1 is Ok);
    match x.colour { Some(v) => { lemma_pos_video_colour(v, b3, p3); }, None => {} }
    let b4 = w4.0;
    let p4 = (p3 + x.colour.spec_size(0x55b0)) as usize;
    lemma_pos_video_fields4(x, b4, p4);
}

/// What the fields of [video_fields4](crate::serializer::elements::spec_gen_video_fields4) and those after them take.
pub open spec fn tail_video_fields4(x: Video) -> nat {
    x.projection.spec_size(0x7670)
}

/// The fields of a Video from this group on take, when they are written,
/// what [EbmlSize] counts for them.
#[verifier::spinoff_prover]
#[verifier::rlimit(50)]
proof fn lemma_pos_video_fields4(x: Video, b0: Seq<u8>, p0: usize)
    requires
        b0.len() <= usize::MAX,
        p0 <= b0.len(),
        spec_gen_video_fields4(x, b0, p0).1 is Ok,
        video_exact(x),
    ensures
        writes_len(spec_gen_video_fields4(x, b0, p0), b0, p0, tail_video_fields4(x)),
{
    reveal(spec_gen_video_fields4);
    let w1 = match x.projection { Some(v) => spec_gen_video_projection(v, b0, p0), None => (b0, Ok(p0)) };
    assert(w1.1 is Ok);
    match x.projection { Some(v) => { lemma_pos_video_projection(v, b0, p0); }, None => {} }
    let b1 = w1.0;
    let p1 = (p0 + x.projection.spec_size(0x7670)) as usize;
}

/// A Video, when it is written, takes what [EbmlSize] counts for it.
#[verifier::spinoff_prover]
#[verifier::rlimit(50)]
pub proof fn lemma_pos_video(x: Video, b: Seq<u8>, p: usize)
    requires
        b.len() <= usize::MAX,
        spec_gen_video(x, b, p).1 is Ok,
        video_exact(x),
    ensures
        writes_len(spec_gen_video(x, b, p), b, p, x.spec_size(0xE0)),
{
    reveal(spec_gen_video);
    let es = spec_vint_size(x.spec_capacity() as u64)->Ok_0;
    let f = |b: Seq<u8>, p: usize| spec_gen_video_fields0(x, b, p);
    assert(spec_gen_video(x, b, p) == spec_gen_element(0xE0, es as usize, es, f, b, p));
    lemma_class_width(0xE0);
    assert(spec_vint_size(x.spec_capacity() as u64) is Ok);
    assert(1 <= es <= 8);
    lemma_gen_element_room(0xE0, es, f, b, p);
    let start = (p + spec_vid_size(0xE0) + es) as usize;
    assert forall|b2: Seq<u8>| b2.len() == b.len() && (#[trigger] f(b2, start)).1 is Ok implies {
        &&& x.spec_capacity() < vint_max()
        &&& vint_width(x.spec_capacity()) == es
        &&& writes_len(f(b2, start), b2, start, x.spec_capacity())
    } by {
        assert(f(b2, start) == spec_gen_video_fields0(x, b2, start));
        lemma_pos_video_fields0(x, b2, start);
        assert(tail_video_fields0(x) == x.spec_capacity());
    }
    lemma_gen_element_pos(0xE0, es, f, x.spec_capacity(), b, p);
}

/// What the fields of [video_colour_fields0](crate::serializer::elements::spec_gen_video_colour_fields0) and those after them take.
pub open spec fn tail_video_colour_fields0(x: Colour) -> nat {
    x.matrix_coefficients.spec_size(0x55B1) + x.bits_per_channel.spec_size(0x55B2) + x.chroma_subsampling_horz.spec_size(0x55B3) + x.chroma_subsampling_vert.spec_size(0x55B4) + tail_video_colour_fields1(x)
}

/// The fields of a Colour from this group on take, when they are written,
/// what [EbmlSize] counts for them.
#[verifier::spinoff_prover]
#[verifier::rlimit(50)]
proof fn lemma_pos_video_colour_fields0(x: Colour, b0: Seq<u8>, p0: usize)
    requires
        b0.len() <= usize::MAX,
        p0 <= b0.len(),
        spec_gen_video_colour_fields0(x, b0, p0).1 is Ok,
        colour_exact(x),
    ensures
        writes_len(spec_gen_video_colour_fields0(x, b0, p0), b0, p0, tail_video_colour_fields0(x)),
{
    reveal(spec_gen_video_colour_fields0);
    let w1 = spec_gen_ebml_uint(0x55B1, x.matrix_coefficients, b0, p0);
    assert(w1.1 is Ok);
    lemma_pos_uint(0x55B1, x.matrix_coefficients, b0, p0);
    let b1 = w1.0;
    let p1 = (p0 + x.matrix_coefficients.spec_size(0x55B1)) as usize;
    let w2 = spec_gen_ebml_uint(0x55B2, x.bits_per_channel, b1, p1);
    assert(w2.1 is Ok);
    lemma_pos_uint(0x55B2, x.bits_per_channel, b1, p1);
    let b2 = w2.0;
    let p2 = (p1 + x.bits_per_channel.spec_size(0x55B2)) as usize;
    let w3 = match x.chroma_subsampling_horz { Some(v) => spec_gen_ebml_uint(0x55B3, v, b2, p2), None => (b2, Ok(p2)) };
    assert(w3.1 is Ok);
    match x.chroma_subsampling_horz { Some(v) => { lemma_pos_uint(0x55B3, v, b2, p2); }, None => {} }
    let b3 = w3.0;
    let p3 = (p2 + x.chroma_subsampling_horz.spec_size(0x55B3)) as usize;
    let w4 = match x.chroma_subsampling_vert { Some(v) => spec_gen_ebml_uint(0x55B4, v, b3, p3), None => (b3, Ok(p3)) };
    assert(w4.1 is Ok);
    match x.chroma_subsampling_vert { Some(v) => { lemma_pos_uint(0x55B4, v, b3, p3); }, None => {} }
    let b4 = w4.0;
    let p4 = (p3 + x.chroma_subsampling_vert.spec_size(0x55B4)) as usize;
    lemma_pos_video_colour_fields1(x, b4, p4);
}

/// What the fields of [video_colour_fields1](crate::serializer::elements::spec_gen_video_colour_fields1) and those after them take.
pub open spec fn tail_video_colour_fields1(x: Colour) -> nat {
    x.cb_subsampling_horz.spec_size(0x55B5) + x.cb_subsampling_vert.spec_size(0x55B6) + x.chroma_siting_horz.spec_size(0x55B7) + x.chroma_siting_vert.spec_size(0x55B8) + tail_video_colour_fields2(x)
}

/// The fields of a Colour from this group on take, when they are written,
/// what [EbmlSize] counts for them.
#[verifier::spinoff_prover]
#[verifier::rlimit(50)]
proof fn lemma_pos_video_colour_fields1(x: Colour, b0: Seq<u8>, p0: usize)
    requires
        b0.len() <= usize::MAX,
        p0 <= b0.len(),
        spec_gen_video_colour_fields1(x, b0, p0).1 is Ok,
        colour_exact(x),
    ensures
        writes_len(spec_gen_video_colour_fields1(x, b0, p0), b0, p0, tail_video_colour_fields1(x)),
{
    reveal(spec_gen_video_colour_fields1);
    let w1 = match x.cb_subsampling_horz { Some(v) => spec_gen_ebml_uint(0x55B5, v, b0, p0), None => (b0, Ok(p0)) };
    assert(w1.1 is Ok);
    match x.cb_subsampling_horz { Some(v) => { lemma_pos_uint(0x55B5, v, b0, p0); }, None => {} }
    let b1 = w1.0;
    let p1 = (p0 + x.cb_subsampling_horz.spec_size(0x55B5)) as usize;
    let w2 = match x.cb_subsampling_vert { Some(v) => spec_gen_ebml_uint(0x55B6, v, b1, p1), None => (b1, Ok(p1)) };
    assert(w2.1 is Ok);
    match x.cb_subsampling_vert { Some(v) => { lemma_pos_uint(0x55B6, v, b1, p1); }, None => {} }
    let b2 = w2.0;
    let p2 = (p1 + x.cb_subsampling_vert.spec_size(0x55B6)) as usize;
    let w3 = spec_gen_ebml_uint(0x55B7, x.chroma_siting_horz, b2, p2);
    assert(w3.1 is Ok);
    lemma_pos_uint(0x55B7, x.chroma_siting_horz, b2, p2);
    let b3 = w3.0;
    let p3 = (p2 + x.chroma_siting_horz.spec_size(0x55B7)) as usize;
    let w4 = spec_gen_ebml_uint(0x55B8, x.chroma_siting_vert, b3, p3);
    assert(w4.1 is Ok);
    lemma_pos_uint(0x55B8, x.chroma_siting_vert, b3, p3);
    let b4 = w4.0;
    let p4 = (p3 + x.chroma_siting_vert.spec_size(0x55B8)) as usize;
    lemma_pos_video_colour_fields2(x, b4, p4);
}

/// What the fields of [video_colour_fields2](crate::serializer::elements::spec_gen_video_colour_fields2) and those after them take.
pub open spec fn tail_video_colour_fields2(x: Colour) -> nat {
    x.range.spec_size(0x55B9) + x.transfer_characteristics.spec_size(0x55BA) + x.primaries.spec_size(0x55BB) + x.max_cll.spec_size(0x55BC) + tail_video_colour_fields3(x)
}

/// The fields of a Colour from this group on take, when they are written,
/// what [EbmlSize] counts for them.
#[verifier::spinoff_prover]
#[verifier::rlimit(50)]
proof fn lemma_pos_video_colour_fields2(x: Colour, b0: Seq<u8>, p0: usize)
    requires
        b0.len() <= usize::MAX,
        p0 <= b0.len(),
        spec_gen_video_colour_fields2(x, b0, p0).1 is Ok,
        colour_exact(x),
    ensures
        writes_len(spec_gen_video_colour_fields2(x, b0, p0), b0, p0, tail_video_colour_fields2(x)),
{
    reveal(spec_gen_video_colour_fields2);
    let w1 = spec_gen_ebml_uint(0x55B9, x.range, b0, p0);
    assert(w1.1 is Ok);
    lemma_pos_uint(0x55B9, x.range, b0, p0);
    let b1 = w1.0;
    let p1 = (p0 + x.range.spec_size(0x55B9)) as usize;
    let w2 = spec_gen_ebml_uint(0x55BA, x.transfer_characteristics, b1, p1);
    assert(w2.1 is Ok);
    lemma_pos_uint(0x55BA, x.transfer_characteristics, b1, p1);
    let b2 = w2.0;
    let p2 = (p1 + x.transfer_characteristics.spec_size(0x55BA)) as usize;
    let w3 = spec_gen_ebml_uint(0x55BB, x.primaries, b2, p2);
    assert(w3.1 is Ok);
    lemma_pos_uint(0x55BB, x.primaries, b2, p2);
    let b3 = w3.0;
    let p3 = (p2 + x.primaries.spec_size(0x55BB)) as usize;
    let w4 = match x.max_cll { Some(v) => spec_gen_ebml_uint(0x55BC, v, b3, p3), None => (b3, Ok(p3)) };
    assert(w4.1 is Ok);
    match x.max_cll { Some(v) => { lemma_pos_uint(0x55BC, v, b3, p3); }, None => {} }
    let b4 = w4.0;
    let p4 = (p3 + x.max_cll.spec_size(0x55BC)) as usize;
    lemma_pos_video_colour_fields3(x, b4, p4);
}

/// What the fields of [video_colour_fields3](crate::serializer::elements::spec_gen_video_colour_fields3) and those after them take.
pub open spec fn tail_video_colour_fields3(x: Colour) -> nat {
    x.max_fall.spec_size(0x55BD) + x.mastering_metadata.spec_size(0x55D0)
}

/// The fields of a Colour from this group on take, when they are written,
/// what [EbmlSize] counts for them.
#[verifier::spinoff_prover]
#[verifier::rlimit(50)]
proof fn lemma_pos_video_colour_fields3(x: Colour, b0: Seq<u8>, p0: usize)
    requires
        b0.len() <= usize::MAX,
        p0 <= b0.len(),
        spec_gen_video_colour_fields3(x, b0, p0).1 is Ok,
        colour_exact(x),
    ensures
        writes_len(spec_gen_video_colour_fields3(x, b0, p0), b0, p0, tail_video_colour_fields3(x)),
{
    reveal(spec_gen_video_colour_fields3);
    let w1 = match x.max_fall { Some(v) => spec_gen_ebml_uint(0x55BD, v, b0, p0), None => (b0, Ok(p0)) };
    assert(w1.1 is Ok);
    match x.max_fall { Some(v) => { lemma_pos_uint(0x55BD, v, b0, p0); }, None => {} }
    let b1 = w1.0;
    let p1 = (p0 + x.max_fall.spec_size(0x55BD)) as usize;
    let w2 = match x.mastering_metadata { Some(v) => spec_gen_video_colour_mastering_metadata(v, b1, p1), None => (b1, Ok(p1)) };
    assert(w2.1 is Ok);
    match x.mastering_metadata { Some(v) => { assert(true); }, None => {} }
    let b2 = w2.0;
    let p2 = (p1 + x.mastering_metadata.spec_size(0x55D0)) as usize;
}

/// A Colour, when it is written, takes what [EbmlSize] counts for it.
#[verifier::spinoff_prover]
#[verifier::rlimit(50)]
pub proof fn lemma_pos_video_colour(x: Colour, b: Seq<u8>, p: usize)
    requires
        b.len() <= usize::MAX,
        spec_gen_video_colour(x, b, p).1 is Ok,
        colour_exact(x),
    ensures
        writes_len(spec_gen_video_colour(x, b, p), b, p, x.spec_size(0x55B0)),
{
    reveal(spec_gen_video_colour);
    let es = spec_vint_size(x.spec_capacity() as u64)->Ok_0;
    let f = |b: Seq<u8>, p: usize| spec_gen_video_colour_fields0(x, b, p);
    assert(spec_gen_video_colour(x, b, p) == spec_gen_element(0x55B0, es as usize, es, f, b, p));
    lemma_class_width(0x55B0);
    assert(spec_vint_size(x.spec_capacity() as u64) is Ok);
    assert(1 <= es <= 8);
    lemma_gen_element_room(0x55B0, es, f, b, p);
    let start = (p + spec_vid_size(0x55B0) + es) as usize;
    assert forall|b2: Seq<u8>| b2.len() == b.len() && (#[trigger] f(b2, start)).1 is Ok implies {
        &&& x.spec_capacity() < vint_max()
        &&& vint_width(x.spec_capacity()) == es
        &&& writes_len(f(b2, start), b2, start, x.spec_capacity())
    } by {
        assert(f(b2, start) == spec_gen_video_colour_fields0(x, b2, start));
        lemma_pos_video_colour_fields0(x, b2, start);
        assert(tail_video_colour_fields0(x) == x.spec_capacity());
    }
    lemma_gen_element_pos(0x55B0, es, f, x.spec_capacity(), b, p);
}

/// What the fields of [video_projection_fields0](crate::serializer::elements::spec_gen_video_projection_fields0) and those after them take.
pub open spec fn tail_video_projection_fields0(x: Projection) -> nat {
    x.projection_type.spec_size(0x7671) + x.projection_private.spec_size(0x7672) + x.projection_pose_yaw.spec_size(0x7673) + x.projection_pose_pitch.spec_size(0x7674) + tail_video_projection_fields1(x)
}

/// The fields of a Projection from this group on take, when they are written,
/// what [EbmlSize] counts for them.
#[verifier::spinoff_prover]
#[verifier::rlimit(50)]
proof fn lemma_pos_video_projection_fields0(x: Projection, b0: Seq<u8>, p0: usize)
    requires
        b0.len() <= usize::MAX,
        p0 <= b0.len(),
        spec_gen_video_projection_fields0(x, b0, p0).1 is Ok,
    ensures
        writes_len(spec_gen_video_projection_fields0(x, b0, p0), b0, p0, tail_video_projection_fields0(x)),
{
    reveal(spec_gen_video_projection_fields0);
    let w1 = spec_gen_ebml_uint(0x7671, x.projection_type, b0, p0);
    assert(w1.1 is Ok);
    lemma_pos_uint(0x7671, x.projection_type, b0, p0);
    let b1 = w1.0;
    let p1 = (p0 + x.projection_type.spec_size(0x7671)) as usize;
    let w2 = match x.projection_private { Some(v) => spec_gen_ebml_binary(0x7672, v@, b1, p1), None => (b1, Ok(p1)) };
    assert(w2.1 is Ok);
    match x.projection_private { Some(v) => { lemma_pos_bin(0x7672, v@, b1, p1); }, None => {} }
    let b2 = w2.0;
    let p2 = (p1 + x.projection_private.spec_size(0x7672)) as usize;
    let w3 = spec_gen_f64(0x7673, x.projection_pose_yaw, b2, p2);
    assert(w3.1 is Ok);
    lemma_pos_f64(0x7673, x.projection_pose_yaw, b2, p2);
    let b3 = w3.0;
    let p3 = (p2 + x.projection_pose_yaw.spec_size(0x7673)) as usize;
    let w4 = spec_gen_f64(0x7674, x.projection_pose_pitch, b3, p3);
    assert(w4.1 is Ok);
    lemma_pos_f64(0x7674, x.projection_pose_pitch, b3, p3);
    let b4 = w4.0;
    let p4 = (p3 + x.projection_pose_pitch.spec_size(0x7674)) as usize;
    lemma_pos_video_projection_fields1(x, b4, p4);
}

/// What the fields of [video_projection_fields1](crate::serializer::elements::spec_gen_video_projection_fields1) and those after them take.
pub open spec fn tail_video_projection_fields1(x: Projection) -> nat {
    x.projection_pose_roll.spec_size(0x7675)
}

/// The fields of a Projection from this group on take, when they are written,
/// what [EbmlSize] counts for them.
#[verifier::spinoff_prover]
#[verifier::rlimit(50)]
proof fn lemma_pos_video_projection_fields1(x: Projection, b0: Seq<u8>, p0: usize)
    requires
        b0.len() <= usize::MAX,
        p0 <= b0.len(),
        spec_gen_video_projection_fields1(x, b0, p0).1 is Ok,
    ensures
        writes_len(spec_gen_video_projection_fields1(x, b0, p0), b0, p0, tail_video_projection_fields1(x)),
{
    reveal(spec_gen_video_projection_fields1);
    let w1 = spec_gen_f64(0x7675, x.projection_pose_roll, b0, p0);
    assert(w1.1 is Ok);
    lemma_pos_f64(0x7675, x.projection_pose_roll, b0, p0);
    let b1 = w1.0;
    let p1 = (p0 + x.projection_pose_roll.spec_size(0x7675)) as usize;
}

/// A Projection, when it is written, takes what [EbmlSize] counts for it.
#[verifier::spinoff_prover]
#[verifier::rlimit(50)]
pub proof fn lemma_pos_video_projection(x: Projection, b: Seq<u8>, p: usize)
    requires
        b.len() <= usize::MAX,
        spec_gen_video_projection(x, b, p).1 is Ok,
    ensures
        writes_len(spec_gen_video_projection(x, b, p), b, p, x.spec_size(0x7670)),
{
    reveal(spec_gen_video_projection);
    let es = spec_vint_size(x.spec_capacity() as u64)->Ok_0;
    let f = |b: Seq<u8>, p: usize| spec_gen_video_projection_fields0(x, b, p);
    assert(spec_gen_video_projection(x, b, p) == spec_gen_element(0x7670, es as usize, es, f, b, p));
    lemma_class_width(0x7670);
    assert(spec_vint_size(x.spec_capacity() as u64) is Ok);
    assert(1 <= es <= 8);
    lemma_gen_element_room(0x7670, es, f, b, p);
    let start = (p + spec_vid_size(0x7670) + es) as usize;
    assert forall|b2: Seq<u8>| b2.len() == b.len() && (#[trigger] f(b2, start)).1 is Ok implies {
        &&& x.spec_capacity() < vint_max()
        &&& vint_width(x.spec_capacity()) == es
        &&& writes_len(f(b2, start), b2, start, x.spec_capacity())
    } by {
        assert(f(b2, start) == spec_gen_video_projection_fields0(x, b2, start));
        lemma_pos_video_projection_fields0(x, b2, start);
        assert(tail_video_projection_fields0(x) == x.spec_capacity());
    }
    lemma_gen_element_pos(0x7670, es, f, x.spec_capacity(), b, p);
}

/// What [gen_track_entry](crate::serializer::elements::gen_track_entry)
/// writes takes, when it succeeds, exactly what [EbmlSize] counts for the
/// TrackEntry: its ID, a Data Size of the width its capacity needs, then
/// data of the length of its capacity, so that the room left for the Data
/// Size is filled exactly. This holds unless the TrackEntry has Colour
/// mastering metadata, whose capacity counts one of its fields twice.
pub proof fn law_track_entry_size(t: TrackEntry, buf: Seq<u8>, pos: usize)
    requires
        buf.len() <= usize::MAX,
        track_exact(t),
        spec_gen_track_entry(t, buf, pos).1 is Ok,
    ensures
        spec_gen_track_entry(t, buf, pos).1 == Ok::<usize, GenError>((pos + t.spec_size(0xAE)) as usize),
        t.spec_size(0xAE) == spec_vid_size(0xAE) + vint_width(t.spec_capacity()) + t.spec_capacity(),
        spec_gen_track_entry(t, buf, pos).0.len() == buf.len(),
{
    lemma_pos_track_entry(t, buf, pos);
    assert(t.spec_capacity() < vint_max()) by {
        reveal(spec_gen_track_entry);
    }
}

} // verus!
