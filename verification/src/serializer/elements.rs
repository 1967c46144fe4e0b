use vstd::prelude::*;

use crate::ebml::parse::Date;
use crate::elements::masters::{
    Audio, Cluster, Colour, Info, MasteringMetadata, Projection, Seek, SeekHead, TrackEntry, Tracks,
    Video,
};
use crate::elements::{Lacing, SimpleBlock};
use crate::serializer::cookie_utils::{
    be_bytes, i16_bits, set_be_i16, set_be_u8, spec_write, GenError,
};
use crate::serializer::ebml::{
    be_bytes_vec, elem_total, gen_at_offset, gen_ebml_binary, gen_ebml_master_start, gen_ebml_str,
    gen_ebml_uint, gen_ebml_uint_l, gen_f64, gen_vid, gen_vint, lemma_be_bytes_len,
    spec_elem_total, spec_gen_ebml_binary, spec_gen_ebml_uint, spec_gen_ebml_uint_l,
    spec_gen_element, spec_gen_f64, spec_gen_vid, spec_gen_vint, spec_vint_size, then, vint_size,
    EbmlSize, GenOut,
};
use vstd::utf8::encode_utf8;

verus! {

/// The 8 bytes of a date: its nanoseconds, big-endian.
pub open spec fn date_bytes(d: Date) -> Seq<u8> {
    be_bytes((d.0 as u64) as nat, 8)
}

/// Writes a date as a binary element of its 8 big-endian bytes.
pub fn gen_date(id: u64, d: Date, buf: &mut Vec<u8>, pos: usize) -> (r: Result<usize, GenError>)
    requires
        crate::serializer::ebml::writable_id(id),
    ensures
        (final(buf)@, r) == spec_gen_ebml_binary(id, date_bytes(d), old(buf)@, pos),
        r matches Ok(p) ==> pos <= p,
        final(buf)@.len() == old(buf)@.len(),
{
    let bytes = be_bytes_vec(d.0 as u64, 8);
    gen_ebml_binary(id, bytes.as_slice(), buf, pos)
}

/// The sizes of a list of values, each as an element with ID `id`.
pub open spec fn sizes_total<T: EbmlSize>(s: Seq<T>, id: u64) -> nat
    decreases s.len(),
{
    if s.len() == 0 {
        0
    } else {
        sizes_total(s.drop_last(), id) + s.last().spec_size(id)
    }
}

/// Each value of a list, and each prefix of it, takes no more than the whole list.
pub proof fn lemma_sizes_total_parts<T: EbmlSize>(s: Seq<T>, id: u64, k: int)
    requires
        0 <= k <= s.len(),
    ensures
        sizes_total(s.take(k), id) <= sizes_total(s, id),
        k < s.len() ==> s[k].spec_size(id) <= sizes_total(s, id),
    decreases s.len() - k,
{
    if k < s.len() {
        assert(s.take(k + 1).drop_last() =~= s.take(k));
        lemma_sizes_total_parts(s, id, k + 1);
        if k + 1 == s.len() {
            assert(s.take(k + 1) =~= s);
        }
    } else {
        assert(s.take(k) =~= s);
    }
}

/// The sizes of the values of a list, each as an element with ID `id`.
pub fn sum_sizes<T: EbmlSize>(v: &Vec<T>, id: u64) -> (r: usize)
    requires
        id < u64::MAX,
        sizes_total(v@, id) <= usize::MAX,
    ensures
        r == sizes_total(v@, id),
{
    let mut acc: usize = 0;
    let mut i: usize = 0;
    while i < v.len()
        invariant
            i <= v@.len(),
            id < u64::MAX,
            acc == sizes_total(v@.take(i as int), id),
            sizes_total(v@, id) <= usize::MAX,
        decreases v.len() - i,
    {
        proof {
            assert(v@.take(i + 1).drop_last() =~= v@.take(i as int));
            lemma_sizes_total_parts(v@, id, i + 1);
            lemma_sizes_total_parts(v@, id, i as int);
        }
        acc = acc + v[i].size(id);
        i = i + 1;
    }
    proof {
        assert(v@.take(i as int) =~= v@);
    }
    acc
}

impl EbmlSize for SeekHead {
    open spec fn spec_capacity(&self) -> nat {
        sizes_total(self.positions@, 0x4DBB)
    }

    open spec fn spec_size(&self, id: u64) -> nat {
        spec_elem_total(id, self.spec_capacity())
    }

    fn capacity(&self) -> (r: usize) {
        sum_sizes(&self.positions, 0x4DBB)
    }

    fn size(&self, id: u64) -> (r: usize) {
        elem_total(id, EbmlSize::capacity(self))
    }
}

impl EbmlSize for Tracks {
    open spec fn spec_capacity(&self) -> nat {
        sizes_total(self.tracks@, 0xAE)
    }

    open spec fn spec_size(&self, id: u64) -> nat {
        spec_elem_total(id, self.spec_capacity())
    }

    fn capacity(&self) -> (r: usize) {
        sum_sizes(&self.tracks, 0xAE)
    }

    fn size(&self, id: u64) -> (r: usize) {
        elem_total(id, EbmlSize::capacity(self))
    }
}

impl EbmlSize for Cluster {
    open spec fn spec_capacity(&self) -> nat {
        self.timestamp.spec_size(0xE7)
            + self.position.spec_size(0xA7)
            + self.prev_size.spec_size(0xAB)
            + self.simple_block.spec_size(0xA3)
    }

    open spec fn spec_size(&self, id: u64) -> nat {
        spec_elem_total(id, self.spec_capacity())
    }

    fn capacity(&self) -> (r: usize) {
        self.timestamp.size(0xE7)
            + self.position.size(0xA7)
            + self.prev_size.size(0xAB)
            + self.simple_block.size(0xA3)
    }

    fn size(&self, id: u64) -> (r: usize) {
        elem_total(id, EbmlSize::capacity(self))
    }
}

impl EbmlSize for Seek {
    open spec fn spec_capacity(&self) -> nat {
        self.id.spec_size(0x53AB)
            + self.position.spec_size(0x53AC)
    }

    open spec fn spec_size(&self, id: u64) -> nat {
        spec_elem_total(id, self.spec_capacity())
    }

    fn capacity(&self) -> (r: usize) {
        self.id.size(0x53AB)
            + self.position.size(0x53AC)
    }

    fn size(&self, id: u64) -> (r: usize) {
        elem_total(id, EbmlSize::capacity(self))
    }
}

/// What [gen_seek_fields0] does: the fields 1 to 2 of a Seek, then the rest.
#[verifier::opaque]
pub open spec fn spec_gen_seek_fields0(x: Seek, buf: Seq<u8>, pos: usize) -> GenOut {
    then(spec_gen_ebml_binary(0x53AB, x.id@, buf, pos), |b: Seq<u8>, p: usize|
    spec_gen_ebml_uint_l(0x53AC, x.position, 8, b, p))
}

/// Writes the fields 1 to 2 of a Seek, then the rest.
fn gen_seek_fields0(x: &Seek, buf: &mut Vec<u8>, pos: usize) -> (r: Result<usize, GenError>)
    requires
        x.spec_capacity() <= usize::MAX,
    ensures
        (final(buf)@, r) == spec_gen_seek_fields0(*x, old(buf)@, pos),
        r matches Ok(p) ==> pos <= p,
        final(buf)@.len() == old(buf)@.len(),
{
    proof {
        reveal(spec_gen_seek_fields0);
    }
    let p = pos;
    let p = match gen_ebml_binary(0x53AB, x.id.as_slice(), buf, p) {
        Ok(q) => q,
        Err(e) => return Err(e),
    };
    let p = match gen_ebml_uint_l(0x53AC, x.position, 8, buf, p) {
        Ok(q) => q,
        Err(e) => return Err(e),
    };
    Ok(p)
}

/// What [gen_seek] does.
#[verifier::opaque]
pub open spec fn spec_gen_seek(x: Seek, buf: Seq<u8>, pos: usize) -> GenOut {
    match spec_vint_size(x.spec_capacity() as u64) {
        Err(e) => (buf, Err(e)),
        Ok(es) => spec_gen_element(
            0x4DBB,
            es as usize,
            es,
            |b: Seq<u8>, p: usize| spec_gen_seek_fields0(x, b, p),
            buf,
            pos,
        ),
    }
}

/// Writes a Seek element (ID 0x4DBB); the room left for its Data Size is
/// what its capacity needs.
pub fn gen_seek(x: &Seek, buf: &mut Vec<u8>, pos: usize) -> (r: Result<usize, GenError>)
    requires
        x.spec_capacity() <= usize::MAX,
    ensures
        (final(buf)@, r) == spec_gen_seek(*x, old(buf)@, pos),
        r matches Ok(p) ==> pos <= p,
        final(buf)@.len() == old(buf)@.len(),
{
    proof {
        reveal(spec_gen_seek);
    }
    let cap = x.capacity();
    let es = match vint_size(cap as u64) {
        Ok(w) => w,
        Err(e) => return Err(e),
    };
    let (ofs, start) = match gen_ebml_master_start(0x4DBB, es, buf, pos) {
        Ok(s) => s,
        Err(e) => return Err(e),
    };
    let p = match gen_seek_fields0(x, buf, start) {
        Ok(q) => q,
        Err(e) => return Err(e),
    };
    gen_at_offset(buf, ofs, p, es, p - start)
}

impl EbmlSize for Info {
    open spec fn spec_capacity(&self) -> nat {
        self.segment_uid.spec_size(0x73A4)
            + self.segment_filename.spec_size(0x7384)
            + self.prev_uid.spec_size(0x3CB923)
            + self.prev_filename.spec_size(0x3C83AB)
            + self.next_uid.spec_size(0x3EB923)
            + self.next_filename.spec_size(0x3E83BB)
            + self.segment_family.spec_size(0x4444)
            + self.timestamp_scale.spec_size(0x2AD7B1)
            + self.duration.spec_size(0x4489)
            + self.date_utc.spec_size(0x4461)
            + self.title.spec_size(0x7BA9)
            + self.muxing_app.spec_size(0x4D80)
            + self.writing_app.spec_size(0x5741)
    }

    open spec fn spec_size(&self, id: u64) -> nat {
        spec_elem_total(id, self.spec_capacity())
    }

    fn capacity(&self) -> (r: usize) {
        self.segment_uid.size(0x73A4)
            + self.segment_filename.size(0x7384)
            + self.prev_uid.size(0x3CB923)
            + self.prev_filename.size(0x3C83AB)
            + self.next_uid.size(0x3EB923)
            + self.next_filename.size(0x3E83BB)
            + self.segment_family.size(0x4444)
            + self.timestamp_scale.size(0x2AD7B1)
            + self.duration.size(0x4489)
            + self.date_utc.size(0x4461)
            + self.title.size(0x7BA9)
            + self.muxing_app.size(0x4D80)
            + self.writing_app.size(0x5741)
    }

    fn size(&self, id: u64) -> (r: usize) {
        elem_total(id, EbmlSize::capacity(self))
    }
}

/// What [gen_info_fields0] does: the fields 1 to 4 of a Info, then the rest.
#[verifier::opaque]
pub open spec fn spec_gen_info_fields0(x: Info, buf: Seq<u8>, pos: usize) -> GenOut {
    then(match x.segment_uid { Some(v) => spec_gen_ebml_binary(0x73A4, v@, buf, pos), None => (buf, Ok(pos)) }, |b: Seq<u8>, p: usize|
    then(match x.segment_filename { Some(v) => spec_gen_ebml_binary(0x7384, encode_utf8(v@), b, p), None => (b, Ok(p)) }, |b: Seq<u8>, p: usize|
    then(match x.prev_uid { Some(v) => spec_gen_ebml_binary(0x3CB923, v@, b, p), None => (b, Ok(p)) }, |b: Seq<u8>, p: usize|
    then(match x.prev_filename { Some(v) => spec_gen_ebml_binary(0x3C83AB, encode_utf8(v@), b, p), None => (b, Ok(p)) }, |b: Seq<u8>, p: usize|
    spec_gen_info_fields1(x, b, p)))))
}

/// Writes the fields 1 to 4 of a Info, then the rest.
fn gen_info_fields0(x: &Info, buf: &mut Vec<u8>, pos: usize) -> (r: Result<usize, GenError>)
    requires
        x.spec_capacity() <= usize::MAX,
    ensures
        (final(buf)@, r) == spec_gen_info_fields0(*x, old(buf)@, pos),
        r matches Ok(p) ==> pos <= p,
        final(buf)@.len() == old(buf)@.len(),
{
    proof {
        reveal(spec_gen_info_fields0);
    }
    let p = pos;
    let p = match &x.segment_uid {
        Some(v) => match gen_ebml_binary(0x73A4, v.as_slice(), buf, p) {
            Ok(q) => q,
            Err(e) => return Err(e),
        },
        None => p,
    };
    let p = match &x.segment_filename {
        Some(v) => match gen_ebml_str(0x7384, v, buf, p) {
            Ok(q) => q,
            Err(e) => return Err(e),
        },
        None => p,
    };
    let p = match &x.prev_uid {
        Some(v) => match gen_ebml_binary(0x3CB923, v.as_slice(), buf, p) {
            Ok(q) => q,
            Err(e) => return Err(e),
        },
        None => p,
    };
    let p = match &x.prev_filename {
        Some(v) => match gen_ebml_str(0x3C83AB, v, buf, p) {
            Ok(q) => q,
            Err(e) => return Err(e),
        },
        None => p,
    };
    gen_info_fields1(x, buf, p)
}

/// What [gen_info_fields1] does: the fields 5 to 8 of a Info, then the rest.
#[verifier::opaque]
pub open spec fn spec_gen_info_fields1(x: Info, buf: Seq<u8>, pos: usize) -> GenOut {
    then(match x.next_uid { Some(v) => spec_gen_ebml_binary(0x3EB923, v@, buf, pos), None => (buf, Ok(pos)) }, |b: Seq<u8>, p: usize|
    then(match x.next_filename { Some(v) => spec_gen_ebml_binary(0x3E83BB, encode_utf8(v@), b, p), None => (b, Ok(p)) }, |b: Seq<u8>, p: usize|
    then(match x.segment_family { Some(v) => spec_gen_ebml_binary(0x4444, v@, b, p), None => (b, Ok(p)) }, |b: Seq<u8>, p: usize|
    then(spec_gen_ebml_uint(0x2AD7B1, x.timestamp_scale, b, p), |b: Seq<u8>, p: usize|
    spec_gen_info_fields2(x, b, p)))))
}

/// Writes the fields 5 to 8 of a Info, then the rest.
fn gen_info_fields1(x: &Info, buf: &mut Vec<u8>, pos: usize) -> (r: Result<usize, GenError>)
    requires
        x.spec_capacity() <= usize::MAX,
    ensures
        (final(buf)@, r) == spec_gen_info_fields1(*x, old(buf)@, pos),
        r matches Ok(p) ==> pos <= p,
        final(buf)@.len() == old(buf)@.len(),
{
    proof {
        reveal(spec_gen_info_fields1);
    }
    let p = pos;
    let p = match &x.next_uid {
        Some(v) => match gen_ebml_binary(0x3EB923, v.as_slice(), buf, p) {
            Ok(q) => q,
            Err(e) => return Err(e),
        },
        None => p,
    };
    let p = match &x.next_filename {
        Some(v) => match gen_ebml_str(0x3E83BB, v, buf, p) {
            Ok(q) => q,
            Err(e) => return Err(e),
        },
        None => p,
    };
    let p = match &x.segment_family {
        Some(v) => match gen_ebml_binary(0x4444, v.as_slice(), buf, p) {
            Ok(q) => q,
            Err(e) => return Err(e),
        },
        None => p,
    };
    let p = match gen_ebml_uint(0x2AD7B1, x.timestamp_scale, buf, p) {
        Ok(q) => q,
        Err(e) => return Err(e),
    };
    gen_info_fields2(x, buf, p)
}

/// What [gen_info_fields2] does: the fields 9 to 12 of a Info, then the rest.
#[verifier::opaque]
pub open spec fn spec_gen_info_fields2(x: Info, buf: Seq<u8>, pos: usize) -> GenOut {
    then(match x.duration { Some(v) => spec_gen_f64(0x4489, v, buf, pos), None => (buf, Ok(pos)) }, |b: Seq<u8>, p: usize|
    then(match x.date_utc { Some(v) => spec_gen_ebml_binary(0x4461, date_bytes(v), b, p), None => (b, Ok(p)) }, |b: Seq<u8>, p: usize|
    then(match x.title { Some(v) => spec_gen_ebml_binary(0x7BA9, encode_utf8(v@), b, p), None => (b, Ok(p)) }, |b: Seq<u8>, p: usize|
    then(spec_gen_ebml_binary(0x4D80, encode_utf8(x.muxing_app@), b, p), |b: Seq<u8>, p: usize|
    spec_gen_info_fields3(x, b, p)))))
}

/// Writes the fields 9 to 12 of a Info, then the rest.
fn gen_info_fields2(x: &Info, buf: &mut Vec<u8>, pos: usize) -> (r: Result<usize, GenError>)
    requires
        x.spec_capacity() <= usize::MAX,
    ensures
        (final(buf)@, r) == spec_gen_info_fields2(*x, old(buf)@, pos),
        r matches Ok(p) ==> pos <= p,
        final(buf)@.len() == old(buf)@.len(),
{
    proof {
        reveal(spec_gen_info_fields2);
    }
    let p = pos;
    let p = match x.duration {
        Some(v) => match gen_f64(0x4489, v, buf, p) {
            Ok(q) => q,
            Err(e) => return Err(e),
        },
        None => p,
    };
    let p = match x.date_utc {
        Some(v) => match gen_date(0x4461, v, buf, p) {
            Ok(q) => q,
            Err(e) => return Err(e),
        },
        None => p,
    };
    let p = match &x.title {
        Some(v) => match gen_ebml_str(0x7BA9, v, buf, p) {
            Ok(q) => q,
            Err(e) => return Err(e),
        },
        None => p,
    };
    let p = match gen_ebml_str(0x4D80, &x.muxing_app, buf, p) {
        Ok(q) => q,
        Err(e) => return Err(e),
    };
    gen_info_fields3(x, buf, p)
}

/// What [gen_info_fields3] does: the fields 13 to 13 of a Info, then the rest.
#[verifier::opaque]
pub open spec fn spec_gen_info_fields3(x: Info, buf: Seq<u8>, pos: usize) -> GenOut {
    spec_gen_ebml_binary(0x5741, encode_utf8(x.writing_app@), buf, pos)
}

/// Writes the fields 13 to 13 of a Info, then the rest.
fn gen_info_fields3(x: &Info, buf: &mut Vec<u8>, pos: usize) -> (r: Result<usize, GenError>)
    requires
        x.spec_capacity() <= usize::MAX,
    ensures
        (final(buf)@, r) == spec_gen_info_fields3(*x, old(buf)@, pos),
        r matches Ok(p) ==> pos <= p,
        final(buf)@.len() == old(buf)@.len(),
{
    proof {
        reveal(spec_gen_info_fields3);
    }
    let p = pos;
    let p = match gen_ebml_str(0x5741, &x.writing_app, buf, p) {
        Ok(q) => q,
        Err(e) => return Err(e),
    };
    Ok(p)
}

/// What [gen_info] does.
#[verifier::opaque]
pub open spec fn spec_gen_info(x: Info, buf: Seq<u8>, pos: usize) -> GenOut {
    match spec_vint_size(x.spec_capacity() as u64) {
        Err(e) => (buf, Err(e)),
        Ok(es) => spec_gen_element(
            0x1549A966,
            es as usize,
            es,
            |b: Seq<u8>, p: usize| spec_gen_info_fields0(x, b, p),
            buf,
            pos,
        ),
    }
}

/// Writes a Info element (ID 0x1549A966); the room left for its Data Size is
/// what its capacity needs.
pub fn gen_info(x: &Info, buf: &mut Vec<u8>, pos: usize) -> (r: Result<usize, GenError>)
    requires
        x.spec_capacity() <= usize::MAX,
    ensures
        (final(buf)@, r) == spec_gen_info(*x, old(buf)@, pos),
        r matches Ok(p) ==> pos <= p,
        final(buf)@.len() == old(buf)@.len(),
{
    proof {
        reveal(spec_gen_info);
    }
    let cap = x.capacity();
    let es = match vint_size(cap as u64) {
        Ok(w) => w,
        Err(e) => return Err(e),
    };
    let (ofs, start) = match gen_ebml_master_start(0x1549A966, es, buf, pos) {
        Ok(s) => s,
        Err(e) => return Err(e),
    };
    let p = match gen_info_fields0(x, buf, start) {
        Ok(q) => q,
        Err(e) => return Err(e),
    };
    gen_at_offset(buf, ofs, p, es, p - start)
}

impl EbmlSize for TrackEntry {
    open spec fn spec_capacity(&self) -> nat {
        self.track_number.spec_size(0xD7)
            + self.track_uid.spec_size(0x73C5)
            + self.track_type.spec_size(0x83)
            + self.flag_enabled.spec_size(0xB9)
            + self.flag_default.spec_size(0x88)
            + self.flag_forced.spec_size(0x55AA)
            + self.flag_lacing.spec_size(0x9C)
            + self.default_duration.spec_size(0x23E383)
            + self.default_decoded_field_duration.spec_size(0x234E7A)
            + self.track_timestamp_scale.spec_size(0x23314F)
            + self.max_block_addition_id.spec_size(0x55EE)
            + self.name.spec_size(0x536E)
            + self.language.spec_size(0x22B59C)
            + self.language_ietf.spec_size(0x22B59D)
            + self.codec_id.spec_size(0x86)
            + self.codec_private.spec_size(0x63A2)
            + self.codec_name.spec_size(0x258688)
            + self.attachment_link.spec_size(0x7446)
            + self.codec_delay.spec_size(0x56AA)
            + self.seek_pre_roll.spec_size(0x56BB)
            + self.video.spec_size(0xE0)
            + self.audio.spec_size(0xE1)
    }

    open spec fn spec_size(&self, id: u64) -> nat {
        spec_elem_total(id, self.spec_capacity())
    }

    fn capacity(&self) -> (r: usize) {
        self.track_number.size(0xD7)
            + self.track_uid.size(0x73C5)
            + self.track_type.size(0x83)
            + self.flag_enabled.size(0xB9)
            + self.flag_default.size(0x88)
            + self.flag_forced.size(0x55AA)
            + self.flag_lacing.size(0x9C)
            + self.default_duration.size(0x23E383)
            + self.default_decoded_field_duration.size(0x234E7A)
            + self.track_timestamp_scale.size(0x23314F)
            + self.max_block_addition_id.size(0x55EE)
            + self.name.size(0x536E)
            + self.language.size(0x22B59C)
            + self.language_ietf.size(0x22B59D)
            + self.codec_id.size(0x86)
            + self.codec_private.size(0x63A2)
            + self.codec_name.size(0x258688)
            + self.attachment_link.size(0x7446)
            + self.codec_delay.size(0x56AA)
            + self.seek_pre_roll.size(0x56BB)
            + self.video.size(0xE0)
            + self.audio.size(0xE1)
    }

    fn size(&self, id: u64) -> (r: usize) {
        elem_total(id, EbmlSize::capacity(self))
    }
}

/// What [gen_track_entry_fields0] does: the fields 1 to 4 of a TrackEntry, then the rest.
#[verifier::opaque]
pub open spec fn spec_gen_track_entry_fields0(x: TrackEntry, buf: Seq<u8>, pos: usize) -> GenOut {
    then(spec_gen_ebml_uint(0xD7, x.track_number, buf, pos), |b: Seq<u8>, p: usize|
    then(spec_gen_ebml_uint(0x73C5, x.track_uid, b, p), |b: Seq<u8>, p: usize|
    then(spec_gen_ebml_uint(0x83, x.track_type, b, p), |b: Seq<u8>, p: usize|
    then(spec_gen_ebml_uint(0xB9, x.flag_enabled, b, p), |b: Seq<u8>, p: usize|
    spec_gen_track_entry_fields1(x, b, p)))))
}

/// Writes the fields 1 to 4 of a TrackEntry, then the rest.
fn gen_track_entry_fields0(x: &TrackEntry, buf: &mut Vec<u8>, pos: usize) -> (r: Result<usize, GenError>)
    requires
        x.spec_capacity() <= usize::MAX,
    ensures
        (final(buf)@, r) == spec_gen_track_entry_fields0(*x, old(buf)@, pos),
        r matches Ok(p) ==> pos <= p,
        final(buf)@.len() == old(buf)@.len(),
{
    proof {
        reveal(spec_gen_track_entry_fields0);
    }
    let p = pos;
    let p = match gen_ebml_uint(0xD7, x.track_number, buf, p) {
        Ok(q) => q,
        Err(e) => return Err(e),
    };
    let p = match gen_ebml_uint(0x73C5, x.track_uid, buf, p) {
        Ok(q) => q,
        Err(e) => return Err(e),
    };
    let p = match gen_ebml_uint(0x83, x.track_type, buf, p) {
        Ok(q) => q,
        Err(e) => return Err(e),
    };
    let p = match gen_ebml_uint(0xB9, x.flag_enabled, buf, p) {
        Ok(q) => q,
        Err(e) => return Err(e),
    };
    gen_track_entry_fields1(x, buf, p)
}

/// What [gen_track_entry_fields1] does: the fields 5 to 8 of a TrackEntry, then the rest.
#[verifier::opaque]
pub open spec fn spec_gen_track_entry_fields1(x: TrackEntry, buf: Seq<u8>, pos: usize) -> GenOut {
    then(spec_gen_ebml_uint(0x88, x.flag_default, buf, pos), |b: Seq<u8>, p: usize|
    then(spec_gen_ebml_uint(0x55AA, x.flag_forced, b, p), |b: Seq<u8>, p: usize|
    then(spec_gen_ebml_uint(0x9C, x.flag_lacing, b, p), |b: Seq<u8>, p: usize|
    then(match x.default_duration { Some(v) => spec_gen_ebml_uint(0x23E383, v, b, p), None => (b, Ok(p)) }, |b: Seq<u8>, p: usize|
    spec_gen_track_entry_fields2(x, b, p)))))
}

/// Writes the fields 5 to 8 of a TrackEntry, then the rest.
fn gen_track_entry_fields1(x: &TrackEntry, buf: &mut Vec<u8>, pos: usize) -> (r: Result<usize, GenError>)
    requires
        x.spec_capacity() <= usize::MAX,
    ensures
        (final(buf)@, r) == spec_gen_track_entry_fields1(*x, old(buf)@, pos),
        r matches Ok(p) ==> pos <= p,
        final(buf)@.len() == old(buf)@.len(),
{
    proof {
        reveal(spec_gen_track_entry_fields1);
    }
    let p = pos;
    let p = match gen_ebml_uint(0x88, x.flag_default, buf, p) {
        Ok(q) => q,
        Err(e) => return Err(e),
    };
    let p = match gen_ebml_uint(0x55AA, x.flag_forced, buf, p) {
        Ok(q) => q,
        Err(e) => return Err(e),
    };
    let p = match gen_ebml_uint(0x9C, x.flag_lacing, buf, p) {
        Ok(q) => q,
        Err(e) => return Err(e),
    };
    let p = match x.default_duration {
        Some(v) => match gen_ebml_uint(0x23E383, v, buf, p) {
            Ok(q) => q,
            Err(e) => return Err(e),
        },
        None => p,
    };
    gen_track_entry_fields2(x, buf, p)
}

/// What [gen_track_entry_fields2] does: the fields 9 to 12 of a TrackEntry, then the rest.
#[verifier::opaque]
pub open spec fn spec_gen_track_entry_fields2(x: TrackEntry, buf: Seq<u8>, pos: usize) -> GenOut {
    then(match x.default_decoded_field_duration { Some(v) => spec_gen_ebml_uint(0x234E7A, v, buf, pos), None => (buf, Ok(pos)) }, |b: Seq<u8>, p: usize|
    then(spec_gen_f64(0x23314F, x.track_timestamp_scale, b, p), |b: Seq<u8>, p: usize|
    then(spec_gen_ebml_uint(0x55EE, x.max_block_addition_id, b, p), |b: Seq<u8>, p: usize|
    then(match x.name { Some(v) => spec_gen_ebml_binary(0x536E, encode_utf8(v@), b, p), None => (b, Ok(p)) }, |b: Seq<u8>, p: usize|
    spec_gen_track_entry_fields3(x, b, p)))))
}

/// Writes the fields 9 to 12 of a TrackEntry, then the rest.
fn gen_track_entry_fields2(x: &TrackEntry, buf: &mut Vec<u8>, pos: usize) -> (r: Result<usize, GenError>)
    requires
        x.spec_capacity() <= usize::MAX,
    ensures
        (final(buf)@, r) == spec_gen_track_entry_fields2(*x, old(buf)@, pos),
        r matches Ok(p) ==> pos <= p,
        final(buf)@.len() == old(buf)@.len(),
{
    proof {
        reveal(spec_gen_track_entry_fields2);
    }
    let p = pos;
    let p = match x.default_decoded_field_duration {
        Some(v) => match gen_ebml_uint(0x234E7A, v, buf, p) {
            Ok(q) => q,
            Err(e) => return Err(e),
        },
        None => p,
    };
    let p = match gen_f64(0x23314F, x.track_timestamp_scale, buf, p) {
        Ok(q) => q,
        Err(e) => return Err(e),
    };
    let p = match gen_ebml_uint(0x55EE, x.max_block_addition_id, buf, p) {
        Ok(q) => q,
        Err(e) => return Err(e),
    };
    let p = match &x.name {
        Some(v) => match gen_ebml_str(0x536E, v, buf, p) {
            Ok(q) => q,
            Err(e) => return Err(e),
        },
        None => p,
    };
    gen_track_entry_fields3(x, buf, p)
}

/// What [gen_track_entry_fields3] does: the fields 13 to 16 of a TrackEntry, then the rest.
#[verifier::opaque]
pub open spec fn spec_gen_track_entry_fields3(x: TrackEntry, buf: Seq<u8>, pos: usize) -> GenOut {
    then(spec_gen_ebml_binary(0x22B59C, encode_utf8(x.language@), buf, pos), |b: Seq<u8>, p: usize|
    then(match x.language_ietf { Some(v) => spec_gen_ebml_binary(0x22B59D, encode_utf8(v@), b, p), None => (b, Ok(p)) }, |b: Seq<u8>, p: usize|
    then(spec_gen_ebml_binary(0x86, encode_utf8(x.codec_id@), b, p), |b: Seq<u8>, p: usize|
    then(match x.codec_private { Some(v) => spec_gen_ebml_binary(0x63A2, v@, b, p), None => (b, Ok(p)) }, |b: Seq<u8>, p: usize|
    spec_gen_track_entry_fields4(x, b, p)))))
}

/// Writes the fields 13 to 16 of a TrackEntry, then the rest.
fn gen_track_entry_fields3(x: &TrackEntry, buf: &mut Vec<u8>, pos: usize) -> (r: Result<usize, GenError>)
    requires
        x.spec_capacity() <= usize::MAX,
    ensures
        (final(buf)@, r) == spec_gen_track_entry_fields3(*x, old(buf)@, pos),
        r matches Ok(p) ==> pos <= p,
        final(buf)@.len() == old(buf)@.len(),
{
    proof {
        reveal(spec_gen_track_entry_fields3);
    }
    let p = pos;
    let p = match gen_ebml_str(0x22B59C, &x.language, buf, p) {
        Ok(q) => q,
        Err(e) => return Err(e),
    };
    let p = match &x.language_ietf {
        Some(v) => match gen_ebml_str(0x22B59D, v, buf, p) {
            Ok(q) => q,
            Err(e) => return Err(e),
        },
        None => p,
    };
    let p = match gen_ebml_str(0x86, &x.codec_id, buf, p) {
        Ok(q) => q,
        Err(e) => return Err(e),
    };
    let p = match &x.codec_private {
        Some(v) => match gen_ebml_binary(0x63A2, v.as_slice(), buf, p) {
            Ok(q) => q,
            Err(e) => return Err(e),
        },
        None => p,
    };
    gen_track_entry_fields4(x, buf, p)
}

/// What [gen_track_entry_fields4] does: the fields 17 to 20 of a TrackEntry, then the rest.
#[verifier::opaque]
pub open spec fn spec_gen_track_entry_fields4(x: TrackEntry, buf: Seq<u8>, pos: usize) -> GenOut {
    then(match x.codec_name { Some(v) => spec_gen_ebml_binary(0x258688, encode_utf8(v@), buf, pos), None => (buf, Ok(pos)) }, |b: Seq<u8>, p: usize|
    then(match x.attachment_link { Some(v) => spec_gen_ebml_uint(0x7446, v, b, p), None => (b, Ok(p)) }, |b: Seq<u8>, p: usize|
    then(spec_gen_ebml_uint(0x56AA, x.codec_delay, b, p), |b: Seq<u8>, p: usize|
    then(spec_gen_ebml_uint(0x56BB, x.seek_pre_roll, b, p), |b: Seq<u8>, p: usize|
    spec_gen_track_entry_fields5(x, b, p)))))
}

/// Writes the fields 17 to 20 of a TrackEntry, then the rest.
fn gen_track_entry_fields4(x: &TrackEntry, buf: &mut Vec<u8>, pos: usize) -> (r: Result<usize, GenError>)
    requires
        x.spec_capacity() <= usize::MAX,
    ensures
        (final(buf)@, r) == spec_gen_track_entry_fields4(*x, old(buf)@, pos),
        r matches Ok(p) ==> pos <= p,
        final(buf)@.len() == old(buf)@.len(),
{
    proof {
        reveal(spec_gen_track_entry_fields4);
    }
    let p = pos;
    let p = match &x.codec_name {
        Some(v) => match gen_ebml_str(0x258688, v, buf, p) {
            Ok(q) => q,
            Err(e) => return Err(e),
        },
        None => p,
    };
    let p = match x.attachment_link {
        Some(v) => match gen_ebml_uint(0x7446, v, buf, p) {
            Ok(q) => q,
            Err(e) => return Err(e),
        },
        None => p,
    };
    let p = match gen_ebml_uint(0x56AA, x.codec_delay, buf, p) {
        Ok(q) => q,
        Err(e) => return Err(e),
    };
    let p = match gen_ebml_uint(0x56BB, x.seek_pre_roll, buf, p) {
        Ok(q) => q,
        Err(e) => return Err(e),
    };
    gen_track_entry_fields5(x, buf, p)
}

/// What [gen_track_entry_fields5] does: the fields 21 to 22 of a TrackEntry, then the rest.
#[verifier::opaque]
pub open spec fn spec_gen_track_entry_fields5(x: TrackEntry, buf: Seq<u8>, pos: usize) -> GenOut {
    then(match x.video { Some(v) => spec_gen_video(v, buf, pos), None => (buf, Ok(pos)) }, |b: Seq<u8>, p: usize|
    match x.audio { Some(v) => spec_gen_audio(v, b, p), None => (b, Ok(p)) })
}

/// Writes the fields 21 to 22 of a TrackEntry, then the rest.
fn gen_track_entry_fields5(x: &TrackEntry, buf: &mut Vec<u8>, pos: usize) -> (r: Result<usize, GenError>)
    requires
        x.spec_capacity() <= usize::MAX,
    ensures
        (final(buf)@, r) == spec_gen_track_entry_fields5(*x, old(buf)@, pos),
        r matches Ok(p) ==> pos <= p,
        final(buf)@.len() == old(buf)@.len(),
{
    proof {
        reveal(spec_gen_track_entry_fields5);
    }
    let p = pos;
    let p = match &x.video {
        Some(v) => match gen_video(v, buf, p) {
            Ok(q) => q,
            Err(e) => return Err(e),
        },
        None => p,
    };
    let p = match &x.audio {
        Some(v) => match gen_audio(v, buf, p) {
            Ok(q) => q,
            Err(e) => return Err(e),
        },
        None => p,
    };
    Ok(p)
}

/// What [gen_track_entry] does.
#[verifier::opaque]
pub open spec fn spec_gen_track_entry(x: TrackEntry, buf: Seq<u8>, pos: usize) -> GenOut {
    match spec_vint_size(x.spec_capacity() as u64) {
        Err(e) => (buf, Err(e)),
        Ok(es) => spec_gen_element(
            0xAE,
            es as usize,
            es,
            |b: Seq<u8>, p: usize| spec_gen_track_entry_fields0(x, b, p),
            buf,
            pos,
        ),
    }
}

/// Writes a TrackEntry element (ID 0xAE); the room left for its Data Size is
/// what its capacity needs.
pub fn gen_track_entry(x: &TrackEntry, buf: &mut Vec<u8>, pos: usize) -> (r: Result<usize, GenError>)
    requires
        x.spec_capacity() <= usize::MAX,
    ensures
        (final(buf)@, r) == spec_gen_track_entry(*x, old(buf)@, pos),
        r matches Ok(p) ==> pos <= p,
        final(buf)@.len() == old(buf)@.len(),
{
    proof {
        reveal(spec_gen_track_entry);
    }
    let cap = x.capacity();
    let es = match vint_size(cap as u64) {
        Ok(w) => w,
        Err(e) => return Err(e),
    };
    let (ofs, start) = match gen_ebml_master_start(0xAE, es, buf, pos) {
        Ok(s) => s,
        Err(e) => return Err(e),
    };
    let p = match gen_track_entry_fields0(x, buf, start) {
        Ok(q) => q,
        Err(e) => return Err(e),
    };
    gen_at_offset(buf, ofs, p, es, p - start)
}

impl EbmlSize for Audio {
    open spec fn spec_capacity(&self) -> nat {
        self.sampling_frequency.spec_size(0xB5)
            + self.output_sampling_frequency.spec_size(0x78B5)
            + self.channels.spec_size(0x9F)
            + self.bit_depth.spec_size(0x6264)
    }

    open spec fn spec_size(&self, id: u64) -> nat {
        spec_elem_total(id, self.spec_capacity())
    }

    fn capacity(&self) -> (r: usize) {
        self.sampling_frequency.size(0xB5)
            + self.output_sampling_frequency.size(0x78B5)
            + self.channels.size(0x9F)
            + self.bit_depth.size(0x6264)
    }

    fn size(&self, id: u64) -> (r: usize) {
        elem_total(id, EbmlSize::capacity(self))
    }
}

/// What [gen_audio_fields0] does: the fields 1 to 4 of a Audio, then the rest.
#[verifier::opaque]
pub open spec fn spec_gen_audio_fields0(x: Audio, buf: Seq<u8>, pos: usize) -> GenOut {
    then(spec_gen_f64(0xB5, x.sampling_frequency, buf, pos), |b: Seq<u8>, p: usize|
    then(match x.output_sampling_frequency { Some(v) => spec_gen_f64(0x78B5, v, b, p), None => (b, Ok(p)) }, |b: Seq<u8>, p: usize|
    then(spec_gen_ebml_uint(0x9F, x.channels, b, p), |b: Seq<u8>, p: usize|
    match x.bit_depth { Some(v) => spec_gen_ebml_uint(0x6264, v, b, p), None => (b, Ok(p)) })))
}

/// Writes the fields 1 to 4 of a Audio, then the rest.
fn gen_audio_fields0(x: &Audio, buf: &mut Vec<u8>, pos: usize) -> (r: Result<usize, GenError>)
    requires
        x.spec_capacity() <= usize::MAX,
    ensures
        (final(buf)@, r) == spec_gen_audio_fields0(*x, old(buf)@, pos),
        r matches Ok(p) ==> pos <= p,
        final(buf)@.len() == old(buf)@.len(),
{
    proof {
        reveal(spec_gen_audio_fields0);
    }
    let p = pos;
    let p = match gen_f64(0xB5, x.sampling_frequency, buf, p) {
        Ok(q) => q,
        Err(e) => return Err(e),
    };
    let p = match x.output_sampling_frequency {
        Some(v) => match gen_f64(0x78B5, v, buf, p) {
            Ok(q) => q,
            Err(e) => return Err(e),
        },
        None => p,
    };
    let p = match gen_ebml_uint(0x9F, x.channels, buf, p) {
        Ok(q) => q,
        Err(e) => return Err(e),
    };
    let p = match x.bit_depth {
        Some(v) => match gen_ebml_uint(0x6264, v, buf, p) {
            Ok(q) => q,
            Err(e) => return Err(e),
        },
        None => p,
    };
    Ok(p)
}

/// What [gen_audio] does.
#[verifier::opaque]
pub open spec fn spec_gen_audio(x: Audio, buf: Seq<u8>, pos: usize) -> GenOut {
    match spec_vint_size(x.spec_capacity() as u64) {
        Err(e) => (buf, Err(e)),
        Ok(es) => spec_gen_element(
            0xE1,
            es as usize,
            es,
            |b: Seq<u8>, p: usize| spec_gen_audio_fields0(x, b, p),
            buf,
            pos,
        ),
    }
}

/// Writes a Audio element (ID 0xE1); the room left for its Data Size is
/// what its capacity needs.
pub fn gen_audio(x: &Audio, buf: &mut Vec<u8>, pos: usize) -> (r: Result<usize, GenError>)
    requires
        x.spec_capacity() <= usize::MAX,
    ensures
        (final(buf)@, r) == spec_gen_audio(*x, old(buf)@, pos),
        r matches Ok(p) ==> pos <= p,
        final(buf)@.len() == old(buf)@.len(),
{
    proof {
        reveal(spec_gen_audio);
    }
    let cap = x.capacity();
    let es = match vint_size(cap as u64) {
        Ok(w) => w,
        Err(e) => return Err(e),
    };
    let (ofs, start) = match gen_ebml_master_start(0xE1, es, buf, pos) {
        Ok(s) => s,
        Err(e) => return Err(e),
    };
    let p = match gen_audio_fields0(x, buf, start) {
        Ok(q) => q,
        Err(e) => return Err(e),
    };
    gen_at_offset(buf, ofs, p, es, p - start)
}

impl EbmlSize for Video {
    open spec fn spec_capacity(&self) -> nat {
        self.flag_interlaced.spec_size(0x9A)
            + self.field_order.spec_size(0x9D)
            + self.stereo_mode.spec_size(0x53B8)
            + self.alpha_mode.spec_size(0x53C0)
            + self.old_stereo_mode.spec_size(0x53B9)
            + self.pixel_width.spec_size(0xB0)
            + self.pixel_height.spec_size(0xBA)
            + self.pixel_crop_bottom.spec_size(0x54AA)
            + self.pixel_crop_top.spec_size(0x54BB)
            + self.pixel_crop_left.spec_size(0x54CC)
            + self.pixel_crop_right.spec_size(0x54DD)
            + self.display_width.spec_size(0x54B0)
            + self.display_height.spec_size(0x54BA)
            + self.display_unit.spec_size(0x54B2)
            + self.colour_space.spec_size(0x2EB524)
            + self.colour.spec_size(0x55B0)
            + self.projection.spec_size(0x7670)
    }

    open spec fn spec_size(&self, id: u64) -> nat {
        spec_elem_total(id, self.spec_capacity())
    }

    fn capacity(&self) -> (r: usize) {
        self.flag_interlaced.size(0x9A)
            + self.field_order.size(0x9D)
            + self.stereo_mode.size(0x53B8)
            + self.alpha_mode.size(0x53C0)
            + self.old_stereo_mode.size(0x53B9)
            + self.pixel_width.size(0xB0)
            + self.pixel_height.size(0xBA)
            + self.pixel_crop_bottom.size(0x54AA)
            + self.pixel_crop_top.size(0x54BB)
            + self.pixel_crop_left.size(0x54CC)
            + self.pixel_crop_right.size(0x54DD)
            + self.display_width.size(0x54B0)
            + self.display_height.size(0x54BA)
            + self.display_unit.size(0x54B2)
            + self.colour_space.size(0x2EB524)
            + self.colour.size(0x55B0)
            + self.projection.size(0x7670)
    }

    fn size(&self, id: u64) -> (r: usize) {
        elem_total(id, EbmlSize::capacity(self))
    }
}

/// What [gen_video_fields0] does: the fields 1 to 4 of a Video, then the rest.
#[verifier::opaque]
pub open spec fn spec_gen_video_fields0(x: Video, buf: Seq<u8>, pos: usize) -> GenOut {
    then(spec_gen_ebml_uint(0x9A, x.flag_interlaced, buf, pos), |b: Seq<u8>, p: usize|
    then(spec_gen_ebml_uint(0x9D, x.field_order, b, p), |b: Seq<u8>, p: usize|
    then(spec_gen_ebml_uint(0x53B8, x.stereo_mode, b, p), |b: Seq<u8>, p: usize|
    then(spec_gen_ebml_uint(0x53C0, x.alpha_mode, b, p), |b: Seq<u8>, p: usize|
    spec_gen_video_fields1(x, b, p)))))
}

/// Writes the fields 1 to 4 of a Video, then the rest.
fn gen_video_fields0(x: &Video, buf: &mut Vec<u8>, pos: usize) -> (r: Result<usize, GenError>)
    requires
        x.spec_capacity() <= usize::MAX,
    ensures
        (final(buf)@, r) == spec_gen_video_fields0(*x, old(buf)@, pos),
        r matches Ok(p) ==> pos <= p,
        final(buf)@.len() == old(buf)@.len(),
{
    proof {
        reveal(spec_gen_video_fields0);
    }
    let p = pos;
    let p = match gen_ebml_uint(0x9A, x.flag_interlaced, buf, p) {
        Ok(q) => q,
        Err(e) => return Err(e),
    };
    let p = match gen_ebml_uint(0x9D, x.field_order, buf, p) {
        Ok(q) => q,
        Err(e) => return Err(e),
    };
    let p = match gen_ebml_uint(0x53B8, x.stereo_mode, buf, p) {
        Ok(q) => q,
        Err(e) => return Err(e),
    };
    let p = match gen_ebml_uint(0x53C0, x.alpha_mode, buf, p) {
        Ok(q) => q,
        Err(e) => return Err(e),
    };
    gen_video_fields1(x, buf, p)
}

/// What [gen_video_fields1] does: the fields 5 to 8 of a Video, then the rest.
#[verifier::opaque]
pub open spec fn spec_gen_video_fields1(x: Video, buf: Seq<u8>, pos: usize) -> GenOut {
    then(match x.old_stereo_mode { Some(v) => spec_gen_ebml_uint(0x53B9, v, buf, pos), None => (buf, Ok(pos)) }, |b: Seq<u8>, p: usize|
    then(spec_gen_ebml_uint(0xB0, x.pixel_width, b, p), |b: Seq<u8>, p: usize|
    then(spec_gen_ebml_uint(0xBA, x.pixel_height, b, p), |b: Seq<u8>, p: usize|
    then(spec_gen_ebml_uint(0x54AA, x.pixel_crop_bottom, b, p), |b: Seq<u8>, p: usize|
    spec_gen_video_fields2(x, b, p)))))
}

/// Writes the fields 5 to 8 of a Video, then the rest.
fn gen_video_fields1(x: &Video, buf: &mut Vec<u8>, pos: usize) -> (r: Result<usize, GenError>)
    requires
        x.spec_capacity() <= usize::MAX,
    ensures
        (final(buf)@, r) == spec_gen_video_fields1(*x, old(buf)@, pos),
        r matches Ok(p) ==> pos <= p,
        final(buf)@.len() == old(buf)@.len(),
{
    proof {
        reveal(spec_gen_video_fields1);
    }
    let p = pos;
    let p = match x.old_stereo_mode {
        Some(v) => match gen_ebml_uint(0x53B9, v, buf, p) {
            Ok(q) => q,
            Err(e) => return Err(e),
        },
        None => p,
    };
    let p = match gen_ebml_uint(0xB0, x.pixel_width, buf, p) {
        Ok(q) => q,
        Err(e) => return Err(e),
    };
    let p = match gen_ebml_uint(0xBA, x.pixel_height, buf, p) {
        Ok(q) => q,
        Err(e) => return Err(e),
    };
    let p = match gen_ebml_uint(0x54AA, x.pixel_crop_bottom, buf, p) {
        Ok(q) => q,
        Err(e) => return Err(e),
    };
    gen_video_fields2(x, buf, p)
}

/// What [gen_video_fields2] does: the fields 9 to 12 of a Video, then the rest.
#[verifier::opaque]
pub open spec fn spec_gen_video_fields2(x: Video, buf: Seq<u8>, pos: usize) -> GenOut {
    then(spec_gen_ebml_uint(0x54BB, x.pixel_crop_top, buf, pos), |b: Seq<u8>, p: usize|
    then(spec_gen_ebml_uint(0x54CC, x.pixel_crop_left, b, p), |b: Seq<u8>, p: usize|
    then(spec_gen_ebml_uint(0x54DD, x.pixel_crop_right, b, p), |b: Seq<u8>, p: usize|
    then(match x.display_width { Some(v) => spec_gen_ebml_uint(0x54B0, v, b, p), None => (b, Ok(p)) }, |b: Seq<u8>, p: usize|
    spec_gen_video_fields3(x, b, p)))))
}

/// Writes the fields 9 to 12 of a Video, then the rest.
fn gen_video_fields2(x: &Video, buf: &mut Vec<u8>, pos: usize) -> (r: Result<usize, GenError>)
    requires
        x.spec_capacity() <= usize::MAX,
    ensures
        (final(buf)@, r) == spec_gen_video_fields2(*x, old(buf)@, pos),
        r matches Ok(p) ==> pos <= p,
        final(buf)@.len() == old(buf)@.len(),
{
    proof {
        reveal(spec_gen_video_fields2);
    }
    let p = pos;
    let p = match gen_ebml_uint(0x54BB, x.pixel_crop_top, buf, p) {
        Ok(q) => q,
        Err(e) => return Err(e),
    };
    let p = match gen_ebml_uint(0x54CC, x.pixel_crop_left, buf, p) {
        Ok(q) => q,
        Err(e) => return Err(e),
    };
    let p = match gen_ebml_uint(0x54DD, x.pixel_crop_right, buf, p) {
        Ok(q) => q,
        Err(e) => return Err(e),
    };
    let p = match x.display_width {
        Some(v) => match gen_ebml_uint(0x54B0, v, buf, p) {
            Ok(q) => q,
            Err(e) => return Err(e),
        },
        None => p,
    };
    gen_video_fields3(x, buf, p)
}

/// What [gen_video_fields3] does: the fields 13 to 16 of a Video, then the rest.
#[verifier::opaque]
pub open spec fn spec_gen_video_fields3(x: Video, buf: Seq<u8>, pos: usize) -> GenOut {
    then(match x.display_height { Some(v) => spec_gen_ebml_uint(0x54BA, v, buf, pos), None => (buf, Ok(pos)) }, |b: Seq<u8>, p: usize|
    then(spec_gen_ebml_uint(0x54B2, x.display_unit, b, p), |b: Seq<u8>, p: usize|
    then(match x.colour_space { Some(v) => spec_gen_ebml_binary(0x2EB524, v@, b, p), None => (b, Ok(p)) }, |b: Seq<u8>, p: usize|
    then(match x.colour { Some(v) => spec_gen_video_colour(v, b, p), None => (b, Ok(p)) }, |b: Seq<u8>, p: usize|
    spec_gen_video_fields4(x, b, p)))))
}

/// Writes the fields 13 to 16 of a Video, then the rest.
fn gen_video_fields3(x: &Video, buf: &mut Vec<u8>, pos: usize) -> (r: Result<usize, GenError>)
    requires
        x.spec_capacity() <= usize::MAX,
    ensures
        (final(buf)@, r) == spec_gen_video_fields3(*x, old(buf)@, pos),
        r matches Ok(p) ==> pos <= p,
        final(buf)@.len() == old(buf)@.len(),
{
    proof {
        reveal(spec_gen_video_fields3);
    }
    let p = pos;
    let p = match x.display_height {
        Some(v) => match gen_ebml_uint(0x54BA, v, buf, p) {
            Ok(q) => q,
            Err(e) => return Err(e),
        },
        None => p,
    };
    let p = match gen_ebml_uint(0x54B2, x.display_unit, buf, p) {
        Ok(q) => q,
        Err(e) => return Err(e),
    };
    let p = match &x.colour_space {
        Some(v) => match gen_ebml_binary(0x2EB524, v.as_slice(), buf, p) {
            Ok(q) => q,
            Err(e) => return Err(e),
        },
        None => p,
    };
    let p = match &x.colour {
        Some(v) => match gen_video_colour(v, buf, p) {
            Ok(q) => q,
            Err(e) => return Err(e),
        },
        None => p,
    };
    gen_video_fields4(x, buf, p)
}

/// What [gen_video_fields4] does: the fields 17 to 17 of a Video, then the rest.
#[verifier::opaque]
pub open spec fn spec_gen_video_fields4(x: Video, buf: Seq<u8>, pos: usize) -> GenOut {
    match x.projection { Some(v) => spec_gen_video_projection(v, buf, pos), None => (buf, Ok(pos)) }
}

/// Writes the fields 17 to 17 of a Video, then the rest.
fn gen_video_fields4(x: &Video, buf: &mut Vec<u8>, pos: usize) -> (r: Result<usize, GenError>)
    requires
        x.spec_capacity() <= usize::MAX,
    ensures
        (final(buf)@, r) == spec_gen_video_fields4(*x, old(buf)@, pos),
        r matches Ok(p) ==> pos <= p,
        final(buf)@.len() == old(buf)@.len(),
{
    proof {
        reveal(spec_gen_video_fields4);
    }
    let p = pos;
    let p = match &x.projection {
        Some(v) => match gen_video_projection(v, buf, p) {
            Ok(q) => q,
            Err(e) => return Err(e),
        },
        None => p,
    };
    Ok(p)
}

/// What [gen_video] does.
#[verifier::opaque]
pub open spec fn spec_gen_video(x: Video, buf: Seq<u8>, pos: usize) -> GenOut {
    match spec_vint_size(x.spec_capacity() as u64) {
        Err(e) => (buf, Err(e)),
        Ok(es) => spec_gen_element(
            0xE0,
            es as usize,
            es,
            |b: Seq<u8>, p: usize| spec_gen_video_fields0(x, b, p),
            buf,
            pos,
        ),
    }
}

/// Writes a Video element (ID 0xE0); the room left for its Data Size is
/// what its capacity needs.
pub fn gen_video(x: &Video, buf: &mut Vec<u8>, pos: usize) -> (r: Result<usize, GenError>)
    requires
        x.spec_capacity() <= usize::MAX,
    ensures
        (final(buf)@, r) == spec_gen_video(*x, old(buf)@, pos),
        r matches Ok(p) ==> pos <= p,
        final(buf)@.len() == old(buf)@.len(),
{
    proof {
        reveal(spec_gen_video);
    }
    let cap = x.capacity();
    let es = match vint_size(cap as u64) {
        Ok(w) => w,
        Err(e) => return Err(e),
    };
    let (ofs, start) = match gen_ebml_master_start(0xE0, es, buf, pos) {
        Ok(s) => s,
        Err(e) => return Err(e),
    };
    let p = match gen_video_fields0(x, buf, start) {
        Ok(q) => q,
        Err(e) => return Err(e),
    };
    gen_at_offset(buf, ofs, p, es, p - start)
}

impl EbmlSize for Colour {
    open spec fn spec_capacity(&self) -> nat {
        self.matrix_coefficients.spec_size(0x55B1)
            + self.bits_per_channel.spec_size(0x55B2)
            + self.chroma_subsampling_horz.spec_size(0x55B3)
            + self.chroma_subsampling_vert.spec_size(0x55B4)
            + self.cb_subsampling_horz.spec_size(0x55B5)
            + self.cb_subsampling_vert.spec_size(0x55B6)
            + self.chroma_siting_horz.spec_size(0x55B7)
            + self.chroma_siting_vert.spec_size(0x55B8)
            + self.range.spec_size(0x55B9)
            + self.transfer_characteristics.spec_size(0x55BA)
            + self.primaries.spec_size(0x55BB)
            + self.max_cll.spec_size(0x55BC)
            + self.max_fall.spec_size(0x55BD)
            + self.mastering_metadata.spec_size(0x55D0)
    }

    open spec fn spec_size(&self, id: u64) -> nat {
        spec_elem_total(id, self.spec_capacity())
    }

    fn capacity(&self) -> (r: usize) {
        self.matrix_coefficients.size(0x55B1)
            + self.bits_per_channel.size(0x55B2)
            + self.chroma_subsampling_horz.size(0x55B3)
            + self.chroma_subsampling_vert.size(0x55B4)
            + self.cb_subsampling_horz.size(0x55B5)
            + self.cb_subsampling_vert.size(0x55B6)
            + self.chroma_siting_horz.size(0x55B7)
            + self.chroma_siting_vert.size(0x55B8)
            + self.range.size(0x55B9)
            + self.transfer_characteristics.size(0x55BA)
            + self.primaries.size(0x55BB)
            + self.max_cll.size(0x55BC)
            + self.max_fall.size(0x55BD)
            + self.mastering_metadata.size(0x55D0)
    }

    fn size(&self, id: u64) -> (r: usize) {
        elem_total(id, EbmlSize::capacity(self))
    }
}

/// What [gen_video_colour_fields0] does: the fields 1 to 4 of a Colour, then the rest.
#[verifier::opaque]
pub open spec fn spec_gen_video_colour_fields0(x: Colour, buf: Seq<u8>, pos: usize) -> GenOut {
    then(spec_gen_ebml_uint(0x55B1, x.matrix_coefficients, buf, pos), |b: Seq<u8>, p: usize|
    then(spec_gen_ebml_uint(0x55B2, x.bits_per_channel, b, p), |b: Seq<u8>, p: usize|
    then(match x.chroma_subsampling_horz { Some(v) => spec_gen_ebml_uint(0x55B3, v, b, p), None => (b, Ok(p)) }, |b: Seq<u8>, p: usize|
    then(match x.chroma_subsampling_vert { Some(v) => spec_gen_ebml_uint(0x55B4, v, b, p), None => (b, Ok(p)) }, |b: Seq<u8>, p: usize|
    spec_gen_video_colour_fields1(x, b, p)))))
}

/// Writes the fields 1 to 4 of a Colour, then the rest.
fn gen_video_colour_fields0(x: &Colour, buf: &mut Vec<u8>, pos: usize) -> (r: Result<usize, GenError>)
    requires
        x.spec_capacity() <= usize::MAX,
    ensures
        (final(buf)@, r) == spec_gen_video_colour_fields0(*x, old(buf)@, pos),
        r matches Ok(p) ==> pos <= p,
        final(buf)@.len() == old(buf)@.len(),
{
    proof {
        reveal(spec_gen_video_colour_fields0);
    }
    let p = pos;
    let p = match gen_ebml_uint(0x55B1, x.matrix_coefficients, buf, p) {
        Ok(q) => q,
        Err(e) => return Err(e),
    };
    let p = match gen_ebml_uint(0x55B2, x.bits_per_channel, buf, p) {
        Ok(q) => q,
        Err(e) => return Err(e),
    };
    let p = match x.chroma_subsampling_horz {
        Some(v) => match gen_ebml_uint(0x55B3, v, buf, p) {
            Ok(q) => q,
            Err(e) => return Err(e),
        },
        None => p,
    };
    let p = match x.chroma_subsampling_vert {
        Some(v) => match gen_ebml_uint(0x55B4, v, buf, p) {
            Ok(q) => q,
            Err(e) => return Err(e),
        },
        None => p,
    };
    gen_video_colour_fields1(x, buf, p)
}

/// What [gen_video_colour_fields1] does: the fields 5 to 8 of a Colour, then the rest.
#[verifier::opaque]
pub open spec fn spec_gen_video_colour_fields1(x: Colour, buf: Seq<u8>, pos: usize) -> GenOut {
    then(match x.cb_subsampling_horz { Some(v) => spec_gen_ebml_uint(0x55B5, v, buf, pos), None => (buf, Ok(pos)) }, |b: Seq<u8>, p: usize|
    then(match x.cb_subsampling_vert { Some(v) => spec_gen_ebml_uint(0x55B6, v, b, p), None => (b, Ok(p)) }, |b: Seq<u8>, p: usize|
    then(spec_gen_ebml_uint(0x55B7, x.chroma_siting_horz, b, p), |b: Seq<u8>, p: usize|
    then(spec_gen_ebml_uint(0x55B8, x.chroma_siting_vert, b, p), |b: Seq<u8>, p: usize|
    spec_gen_video_colour_fields2(x, b, p)))))
}

/// Writes the fields 5 to 8 of a Colour, then the rest.
fn gen_video_colour_fields1(x: &Colour, buf: &mut Vec<u8>, pos: usize) -> (r: Result<usize, GenError>)
    requires
        x.spec_capacity() <= usize::MAX,
    ensures
        (final(buf)@, r) == spec_gen_video_colour_fields1(*x, old(buf)@, pos),
        r matches Ok(p) ==> pos <= p,
        final(buf)@.len() == old(buf)@.len(),
{
    proof {
        reveal(spec_gen_video_colour_fields1);
    }
    let p = pos;
    let p = match x.cb_subsampling_horz {
        Some(v) => match gen_ebml_uint(0x55B5, v, buf, p) {
            Ok(q) => q,
            Err(e) => return Err(e),
        },
        None => p,
    };
    let p = match x.cb_subsampling_vert {
        Some(v) => match gen_ebml_uint(0x55B6, v, buf, p) {
            Ok(q) => q,
            Err(e) => return Err(e),
        },
        None => p,
    };
    let p = match gen_ebml_uint(0x55B7, x.chroma_siting_horz, buf, p) {
        Ok(q) => q,
        Err(e) => return Err(e),
    };
    let p = match gen_ebml_uint(0x55B8, x.chroma_siting_vert, buf, p) {
        Ok(q) => q,
        Err(e) => return Err(e),
    };
    gen_video_colour_fields2(x, buf, p)
}

/// What [gen_video_colour_fields2] does: the fields 9 to 12 of a Colour, then the rest.
#[verifier::opaque]
pub open spec fn spec_gen_video_colour_fields2(x: Colour, buf: Seq<u8>, pos: usize) -> GenOut {
    then(spec_gen_ebml_uint(0x55B9, x.range, buf, pos), |b: Seq<u8>, p: usize|
    then(spec_gen_ebml_uint(0x55BA, x.transfer_characteristics, b, p), |b: Seq<u8>, p: usize|
    then(spec_gen_ebml_uint(0x55BB, x.primaries, b, p), |b: Seq<u8>, p: usize|
    then(match x.max_cll { Some(v) => spec_gen_ebml_uint(0x55BC, v, b, p), None => (b, Ok(p)) }, |b: Seq<u8>, p: usize|
    spec_gen_video_colour_fields3(x, b, p)))))
}

/// Writes the fields 9 to 12 of a Colour, then the rest.
fn gen_video_colour_fields2(x: &Colour, buf: &mut Vec<u8>, pos: usize) -> (r: Result<usize, GenError>)
    requires
        x.spec_capacity() <= usize::MAX,
    ensures
        (final(buf)@, r) == spec_gen_video_colour_fields2(*x, old(buf)@, pos),
        r matches Ok(p) ==> pos <= p,
        final(buf)@.len() == old(buf)@.len(),
{
    proof {
        reveal(spec_gen_video_colour_fields2);
    }
    let p = pos;
    let p = match gen_ebml_uint(0x55B9, x.range, buf, p) {
        Ok(q) => q,
        Err(e) => return Err(e),
    };
    let p = match gen_ebml_uint(0x55BA, x.transfer_characteristics, buf, p) {
        Ok(q) => q,
        Err(e) => return Err(e),
    };
    let p = match gen_ebml_uint(0x55BB, x.primaries, buf, p) {
        Ok(q) => q,
        Err(e) => return Err(e),
    };
    let p = match x.max_cll {
        Some(v) => match gen_ebml_uint(0x55BC, v, buf, p) {
            Ok(q) => q,
            Err(e) => return Err(e),
        },
        None => p,
    };
    gen_video_colour_fields3(x, buf, p)
}

/// What [gen_video_colour_fields3] does: the fields 13 to 14 of a Colour, then the rest.
#[verifier::opaque]
pub open spec fn spec_gen_video_colour_fields3(x: Colour, buf: Seq<u8>, pos: usize) -> GenOut {
    then(match x.max_fall { Some(v) => spec_gen_ebml_uint(0x55BD, v, buf, pos), None => (buf, Ok(pos)) }, |b: Seq<u8>, p: usize|
    match x.mastering_metadata { Some(v) => spec_gen_video_colour_mastering_metadata(v, b, p), None => (b, Ok(p)) })
}

/// Writes the fields 13 to 14 of a Colour, then the rest.
fn gen_video_colour_fields3(x: &Colour, buf: &mut Vec<u8>, pos: usize) -> (r: Result<usize, GenError>)
    requires
        x.spec_capacity() <= usize::MAX,
    ensures
        (final(buf)@, r) == spec_gen_video_colour_fields3(*x, old(buf)@, pos),
        r matches Ok(p) ==> pos <= p,
        final(buf)@.len() == old(buf)@.len(),
{
    proof {
        reveal(spec_gen_video_colour_fields3);
    }
    let p = pos;
    let p = match x.max_fall {
        Some(v) => match gen_ebml_uint(0x55BD, v, buf, p) {
            Ok(q) => q,
            Err(e) => return Err(e),
        },
        None => p,
    };
    let p = match &x.mastering_metadata {
        Some(v) => match gen_video_colour_mastering_metadata(v, buf, p) {
            Ok(q) => q,
            Err(e) => return Err(e),
        },
        None => p,
    };
    Ok(p)
}

/// What [gen_video_colour] does.
#[verifier::opaque]
pub open spec fn spec_gen_video_colour(x: Colour, buf: Seq<u8>, pos: usize) -> GenOut {
    match spec_vint_size(x.spec_capacity() as u64) {
        Err(e) => (buf, Err(e)),
        Ok(es) => spec_gen_element(
            0x55B0,
            es as usize,
            es,
            |b: Seq<u8>, p: usize| spec_gen_video_colour_fields0(x, b, p),
            buf,
            pos,
        ),
    }
}

/// Writes a Colour element (ID 0x55B0); the room left for its Data Size is
/// what its capacity needs.
pub fn gen_video_colour(x: &Colour, buf: &mut Vec<u8>, pos: usize) -> (r: Result<usize, GenError>)
    requires
        x.spec_capacity() <= usize::MAX,
    ensures
        (final(buf)@, r) == spec_gen_video_colour(*x, old(buf)@, pos),
        r matches Ok(p) ==> pos <= p,
        final(buf)@.len() == old(buf)@.len(),
{
    proof {
        reveal(spec_gen_video_colour);
    }
    let cap = x.capacity();
    let es = match vint_size(cap as u64) {
        Ok(w) => w,
        Err(e) => return Err(e),
    };
    let (ofs, start) = match gen_ebml_master_start(0x55B0, es, buf, pos) {
        Ok(s) => s,
        Err(e) => return Err(e),
    };
    let p = match gen_video_colour_fields0(x, buf, start) {
        Ok(q) => q,
        Err(e) => return Err(e),
    };
    gen_at_offset(buf, ofs, p, es, p - start)
}

impl EbmlSize for MasteringMetadata {
    open spec fn spec_capacity(&self) -> nat {
        self.primary_r_chromaticity_x.spec_size(0x55D1)
            + self.primary_r_chromaticity_y.spec_size(0x55D2)
            + self.primary_g_chromaticity_x.spec_size(0x55D3)
            + self.primary_g_chromaticity_y.spec_size(0x55D4)
            + self.primary_b_chromaticity_x.spec_size(0x55D5)
            + self.primary_b_chromaticity_y.spec_size(0x55D6)
            + self.white_point_chromaticity_x.spec_size(0x55D7)
            + self.white_point_chromaticity_y.spec_size(0x55D8)
            + self.luminance_max.spec_size(0x55D9)
            + self.luminance_min.spec_size(0x55DA)
    }

    open spec fn spec_size(&self, id: u64) -> nat {
        spec_elem_total(id, self.spec_capacity())
    }

    fn capacity(&self) -> (r: usize) {
        self.primary_r_chromaticity_x.size(0x55D1)
            + self.primary_r_chromaticity_y.size(0x55D2)
            + self.primary_g_chromaticity_x.size(0x55D3)
            + self.primary_g_chromaticity_y.size(0x55D4)
            + self.primary_b_chromaticity_x.size(0x55D5)
            + self.primary_b_chromaticity_y.size(0x55D6)
            + self.white_point_chromaticity_x.size(0x55D7)
            + self.white_point_chromaticity_y.size(0x55D8)
            + self.luminance_max.size(0x55D9)
            + self.luminance_min.size(0x55DA)
    }

    fn size(&self, id: u64) -> (r: usize) {
        elem_total(id, EbmlSize::capacity(self))
    }
}

/// What [gen_video_colour_mastering_metadata_fields0] does: the fields 1 to 4 of a MasteringMetadata, then the rest.
#[verifier::opaque]
pub open spec fn spec_gen_video_colour_mastering_metadata_fields0(x: MasteringMetadata, buf: Seq<u8>, pos: usize) -> GenOut {
    then(match x.primary_r_chromaticity_x { Some(v) => spec_gen_f64(0x55D1, v, buf, pos), None => (buf, Ok(pos)) }, |b: Seq<u8>, p: usize|
    then(match x.primary_r_chromaticity_y { Some(v) => spec_gen_f64(0x55D2, v, b, p), None => (b, Ok(p)) }, |b: Seq<u8>, p: usize|
    then(match x.primary_g_chromaticity_x { Some(v) => spec_gen_f64(0x55D3, v, b, p), None => (b, Ok(p)) }, |b: Seq<u8>, p: usize|
    then(match x.primary_g_chromaticity_y { Some(v) => spec_gen_f64(0x55D4, v, b, p), None => (b, Ok(p)) }, |b: Seq<u8>, p: usize|
    spec_gen_video_colour_mastering_metadata_fields1(x, b, p)))))
}

/// Writes the fields 1 to 4 of a MasteringMetadata, then the rest.
fn gen_video_colour_mastering_metadata_fields0(x: &MasteringMetadata, buf: &mut Vec<u8>, pos: usize) -> (r: Result<usize, GenError>)
    requires
        x.spec_capacity() <= usize::MAX,
    ensures
        (final(buf)@, r) == spec_gen_video_colour_mastering_metadata_fields0(*x, old(buf)@, pos),
        r matches Ok(p) ==> pos <= p,
        final(buf)@.len() == old(buf)@.len(),
{
    proof {
        reveal(spec_gen_video_colour_mastering_metadata_fields0);
    }
    let p = pos;
    let p = match x.primary_r_chromaticity_x {
        Some(v) => match gen_f64(0x55D1, v, buf, p) {
            Ok(q) => q,
            Err(e) => return Err(e),
        },
        None => p,
    };
    let p = match x.primary_r_chromaticity_y {
        Some(v) => match gen_f64(0x55D2, v, buf, p) {
            Ok(q) => q,
            Err(e) => return Err(e),
        },
        None => p,
    };
    let p = match x.primary_g_chromaticity_x {
        Some(v) => match gen_f64(0x55D3, v, buf, p) {
            Ok(q) => q,
            Err(e) => return Err(e),
        },
        None => p,
    };
    let p = match x.primary_g_chromaticity_y {
        Some(v) => match gen_f64(0x55D4, v, buf, p) {
            Ok(q) => q,
            Err(e) => return Err(e),
        },
        None => p,
    };
    gen_video_colour_mastering_metadata_fields1(x, buf, p)
}

/// What [gen_video_colour_mastering_metadata_fields1] does: the fields 5 to 8 of a MasteringMetadata, then the rest.
#[verifier::opaque]
pub open spec fn spec_gen_video_colour_mastering_metadata_fields1(x: MasteringMetadata, buf: Seq<u8>, pos: usize) -> GenOut {
    then(match x.primary_b_chromaticity_x { Some(v) => spec_gen_f64(0x55D5, v, buf, pos), None => (buf, Ok(pos)) }, |b: Seq<u8>, p: usize|
    then(match x.primary_b_chromaticity_y { Some(v) => spec_gen_f64(0x55D6, v, b, p), None => (b, Ok(p)) }, |b: Seq<u8>, p: usize|
    then(match x.white_point_chromaticity_y { Some(v) => spec_gen_f64(0x55D7, v, b, p), None => (b, Ok(p)) }, |b: Seq<u8>, p: usize|
    then(match x.white_point_chromaticity_y { Some(v) => spec_gen_f64(0x55D8, v, b, p), None => (b, Ok(p)) }, |b: Seq<u8>, p: usize|
    spec_gen_video_colour_mastering_metadata_fields2(x, b, p)))))
}

/// Writes the fields 5 to 8 of a MasteringMetadata, then the rest.
fn gen_video_colour_mastering_metadata_fields1(x: &MasteringMetadata, buf: &mut Vec<u8>, pos: usize) -> (r: Result<usize, GenError>)
    requires
        x.spec_capacity() <= usize::MAX,
    ensures
        (final(buf)@, r) == spec_gen_video_colour_mastering_metadata_fields1(*x, old(buf)@, pos),
        r matches Ok(p) ==> pos <= p,
        final(buf)@.len() == old(buf)@.len(),
{
    proof {
        reveal(spec_gen_video_colour_mastering_metadata_fields1);
    }
    let p = pos;
    let p = match x.primary_b_chromaticity_x {
        Some(v) => match gen_f64(0x55D5, v, buf, p) {
            Ok(q) => q,
            Err(e) => return Err(e),
        },
        None => p,
    };
    let p = match x.primary_b_chromaticity_y {
        Some(v) => match gen_f64(0x55D6, v, buf, p) {
            Ok(q) => q,
            Err(e) => return Err(e),
        },
        None => p,
    };
    let p = match x.white_point_chromaticity_y {
        Some(v) => match gen_f64(0x55D7, v, buf, p) {
            Ok(q) => q,
            Err(e) => return Err(e),
        },
        None => p,
    };
    let p = match x.white_point_chromaticity_y {
        Some(v) => match gen_f64(0x55D8, v, buf, p) {
            Ok(q) => q,
            Err(e) => return Err(e),
        },
        None => p,
    };
    gen_video_colour_mastering_metadata_fields2(x, buf, p)
}

/// What [gen_video_colour_mastering_metadata_fields2] does: the fields 9 to 10 of a MasteringMetadata, then the rest.
#[verifier::opaque]
pub open spec fn spec_gen_video_colour_mastering_metadata_fields2(x: MasteringMetadata, buf: Seq<u8>, pos: usize) -> GenOut {
    then(match x.luminance_max { Some(v) => spec_gen_f64(0x55D9, v, buf, pos), None => (buf, Ok(pos)) }, |b: Seq<u8>, p: usize|
    match x.luminance_min { Some(v) => spec_gen_f64(0x55DA, v, b, p), None => (b, Ok(p)) })
}

/// Writes the fields 9 to 10 of a MasteringMetadata, then the rest.
fn gen_video_colour_mastering_metadata_fields2(x: &MasteringMetadata, buf: &mut Vec<u8>, pos: usize) -> (r: Result<usize, GenError>)
    requires
        x.spec_capacity() <= usize::MAX,
    ensures
        (final(buf)@, r) == spec_gen_video_colour_mastering_metadata_fields2(*x, old(buf)@, pos),
        r matches Ok(p) ==> pos <= p,
        final(buf)@.len() == old(buf)@.len(),
{
    proof {
        reveal(spec_gen_video_colour_mastering_metadata_fields2);
    }
    let p = pos;
    let p = match x.luminance_max {
        Some(v) => match gen_f64(0x55D9, v, buf, p) {
            Ok(q) => q,
            Err(e) => return Err(e),
        },
        None => p,
    };
    let p = match x.luminance_min {
        Some(v) => match gen_f64(0x55DA, v, buf, p) {
            Ok(q) => q,
            Err(e) => return Err(e),
        },
        None => p,
    };
    Ok(p)
}

/// What [gen_video_colour_mastering_metadata] does.
#[verifier::opaque]
pub open spec fn spec_gen_video_colour_mastering_metadata(x: MasteringMetadata, buf: Seq<u8>, pos: usize) -> GenOut {
    match spec_vint_size(x.spec_capacity() as u64) {
        Err(e) => (buf, Err(e)),
        Ok(es) => spec_gen_element(
            0x55D0,
            es as usize,
            es,
            |b: Seq<u8>, p: usize| spec_gen_video_colour_mastering_metadata_fields0(x, b, p),
            buf,
            pos,
        ),
    }
}

/// Writes a MasteringMetadata element (ID 0x55D0); the room left for its Data Size is
/// what its capacity needs.
pub fn gen_video_colour_mastering_metadata(x: &MasteringMetadata, buf: &mut Vec<u8>, pos: usize) -> (r: Result<usize, GenError>)
    requires
        x.spec_capacity() <= usize::MAX,
    ensures
        (final(buf)@, r) == spec_gen_video_colour_mastering_metadata(*x, old(buf)@, pos),
        r matches Ok(p) ==> pos <= p,
        final(buf)@.len() == old(buf)@.len(),
{
    proof {
        reveal(spec_gen_video_colour_mastering_metadata);
    }
    let cap = x.capacity();
    let es = match vint_size(cap as u64) {
        Ok(w) => w,
        Err(e) => return Err(e),
    };
    let (ofs, start) = match gen_ebml_master_start(0x55D0, es, buf, pos) {
        Ok(s) => s,
        Err(e) => return Err(e),
    };
    let p = match gen_video_colour_mastering_metadata_fields0(x, buf, start) {
        Ok(q) => q,
        Err(e) => return Err(e),
    };
    gen_at_offset(buf, ofs, p, es, p - start)
}

impl EbmlSize for Projection {
    open spec fn spec_capacity(&self) -> nat {
        self.projection_type.spec_size(0x7671)
            + self.projection_private.spec_size(0x7672)
            + self.projection_pose_yaw.spec_size(0x7673)
            + self.projection_pose_pitch.spec_size(0x7674)
            + self.projection_pose_roll.spec_size(0x7675)
    }

    open spec fn spec_size(&self, id: u64) -> nat {
        spec_elem_total(id, self.spec_capacity())
    }

    fn capacity(&self) -> (r: usize) {
        self.projection_type.size(0x7671)
            + self.projection_private.size(0x7672)
            + self.projection_pose_yaw.size(0x7673)
            + self.projection_pose_pitch.size(0x7674)
            + self.projection_pose_roll.size(0x7675)
    }

    fn size(&self, id: u64) -> (r: usize) {
        elem_total(id, EbmlSize::capacity(self))
    }
}

/// What [gen_video_projection_fields0] does: the fields 1 to 4 of a Projection, then the rest.
#[verifier::opaque]
pub open spec fn spec_gen_video_projection_fields0(x: Projection, buf: Seq<u8>, pos: usize) -> GenOut {
    then(spec_gen_ebml_uint(0x7671, x.projection_type, buf, pos), |b: Seq<u8>, p: usize|
    then(match x.projection_private { Some(v) => spec_gen_ebml_binary(0x7672, v@, b, p), None => (b, Ok(p)) }, |b: Seq<u8>, p: usize|
    then(spec_gen_f64(0x7673, x.projection_pose_yaw, b, p), |b: Seq<u8>, p: usize|
    then(spec_gen_f64(0x7674, x.projection_pose_pitch, b, p), |b: Seq<u8>, p: usize|
    spec_gen_video_projection_fields1(x, b, p)))))
}

/// Writes the fields 1 to 4 of a Projection, then the rest.
fn gen_video_projection_fields0(x: &Projection, buf: &mut Vec<u8>, pos: usize) -> (r: Result<usize, GenError>)
    requires
        x.spec_capacity() <= usize::MAX,
    ensures
        (final(buf)@, r) == spec_gen_video_projection_fields0(*x, old(buf)@, pos),
        r matches Ok(p) ==> pos <= p,
        final(buf)@.len() == old(buf)@.len(),
{
    proof {
        reveal(spec_gen_video_projection_fields0);
    }
    let p = pos;
    let p = match gen_ebml_uint(0x7671, x.projection_type, buf, p) {
        Ok(q) => q,
        Err(e) => return Err(e),
    };
    let p = match &x.projection_private {
        Some(v) => match gen_ebml_binary(0x7672, v.as_slice(), buf, p) {
            Ok(q) => q,
            Err(e) => return Err(e),
        },
        None => p,
    };
    let p = match gen_f64(0x7673, x.projection_pose_yaw, buf, p) {
        Ok(q) => q,
        Err(e) => return Err(e),
    };
    let p = match gen_f64(0x7674, x.projection_pose_pitch, buf, p) {
        Ok(q) => q,
        Err(e) => return Err(e),
    };
    gen_video_projection_fields1(x, buf, p)
}

/// What [gen_video_projection_fields1] does: the fields 5 to 5 of a Projection, then the rest.
#[verifier::opaque]
pub open spec fn spec_gen_video_projection_fields1(x: Projection, buf: Seq<u8>, pos: usize) -> GenOut {
    spec_gen_f64(0x7675, x.projection_pose_roll, buf, pos)
}

/// Writes the fields 5 to 5 of a Projection, then the rest.
fn gen_video_projection_fields1(x: &Projection, buf: &mut Vec<u8>, pos: usize) -> (r: Result<usize, GenError>)
    requires
        x.spec_capacity() <= usize::MAX,
    ensures
        (final(buf)@, r) == spec_gen_video_projection_fields1(*x, old(buf)@, pos),
        r matches Ok(p) ==> pos <= p,
        final(buf)@.len() == old(buf)@.len(),
{
    proof {
        reveal(spec_gen_video_projection_fields1);
    }
    let p = pos;
    let p = match gen_f64(0x7675, x.projection_pose_roll, buf, p) {
        Ok(q) => q,
        Err(e) => return Err(e),
    };
    Ok(p)
}

/// What [gen_video_projection] does.
#[verifier::opaque]
pub open spec fn spec_gen_video_projection(x: Projection, buf: Seq<u8>, pos: usize) -> GenOut {
    match spec_vint_size(x.spec_capacity() as u64) {
        Err(e) => (buf, Err(e)),
        Ok(es) => spec_gen_element(
            0x7670,
            es as usize,
            es,
            |b: Seq<u8>, p: usize| spec_gen_video_projection_fields0(x, b, p),
            buf,
            pos,
        ),
    }
}

/// Writes a Projection element (ID 0x7670); the room left for its Data Size is
/// what its capacity needs.
pub fn gen_video_projection(x: &Projection, buf: &mut Vec<u8>, pos: usize) -> (r: Result<usize, GenError>)
    requires
        x.spec_capacity() <= usize::MAX,
    ensures
        (final(buf)@, r) == spec_gen_video_projection(*x, old(buf)@, pos),
        r matches Ok(p) ==> pos <= p,
        final(buf)@.len() == old(buf)@.len(),
{
    proof {
        reveal(spec_gen_video_projection);
    }
    let cap = x.capacity();
    let es = match vint_size(cap as u64) {
        Ok(w) => w,
        Err(e) => return Err(e),
    };
    let (ofs, start) = match gen_ebml_master_start(0x7670, es, buf, pos) {
        Ok(s) => s,
        Err(e) => return Err(e),
    };
    let p = match gen_video_projection_fields0(x, buf, start) {
        Ok(q) => q,
        Err(e) => return Err(e),
    };
    gen_at_offset(buf, ofs, p, es, p - start)
}
/// What writing Seek elements one after the other does.
pub open spec fn spec_gen_seek_list(s: Seq<Seek>, buf: Seq<u8>, pos: usize) -> GenOut
    decreases s.len(),
{
    if s.len() == 0 {
        (buf, Ok(pos))
    } else {
        then(spec_gen_seek_list(s.drop_last(), buf, pos), |b: Seq<u8>, p: usize| spec_gen_seek(s.last(), b, p))
    }
}

/// Once writing a list has failed, the rest of the list is not written.
proof fn lemma_seek_list_err(s: Seq<Seek>, buf: Seq<u8>, pos: usize, k: int, m: int)
    requires
        0 <= k <= m <= s.len(),
        spec_gen_seek_list(s.take(k), buf, pos).1 is Err,
    ensures
        spec_gen_seek_list(s.take(m), buf, pos) == spec_gen_seek_list(s.take(k), buf, pos),
    decreases m - k,
{
    if m > k {
        lemma_seek_list_err(s, buf, pos, k, m - 1);
        assert(s.take(m).drop_last() =~= s.take(m - 1));
    }
}

/// Writes Seek elements one after the other.
fn gen_seek_list(s: &Vec<Seek>, buf: &mut Vec<u8>, pos: usize) -> (r: Result<usize, GenError>)
    requires
        forall|j: int| 0 <= j < s@.len() ==> (#[trigger] s@[j]).spec_capacity() <= usize::MAX,
    ensures
        (final(buf)@, r) == spec_gen_seek_list(s@, old(buf)@, pos),
        r matches Ok(p) ==> pos <= p,
        final(buf)@.len() == old(buf)@.len(),
{
    let ghost b1 = buf@;
    let mut p = pos;
    let mut i: usize = 0;
    assert(s@.take(0) =~= Seq::<Seek>::empty());
    while i < s.len()
        invariant
            i <= s@.len(),
            b1 == old(buf)@,
            spec_gen_seek_list(s@.take(i as int), b1, pos) == (buf@, Ok::<usize, GenError>(p)),
            pos <= p,
            buf@.len() == b1.len(),
            forall|j: int| 0 <= j < s@.len() ==> (#[trigger] s@[j]).spec_capacity() <= usize::MAX,
        decreases s.len() - i,
    {
        proof {
            assert(s@.take(i + 1).drop_last() =~= s@.take(i as int));
        }
        match gen_seek(&s[i], buf, p) {
            Ok(q) => {
                p = q;
            },
            Err(e) => {
                assert(spec_gen_seek_list(s@.take(i + 1), b1, pos) == (buf@, Err::<usize, GenError>(e)));
                proof {
                    lemma_seek_list_err(s@, b1, pos, i + 1, s@.len() as int);
                    assert(s@.take(s@.len() as int) =~= s@);
                }
                return Err(e);
            },
        }
        i = i + 1;
    }
    proof {
        assert(s@.take(i as int) =~= s@);
    }
    Ok(p)
}

/// What writing TrackEntry elements one after the other does.
pub open spec fn spec_gen_track_entry_list(s: Seq<TrackEntry>, buf: Seq<u8>, pos: usize) -> GenOut
    decreases s.len(),
{
    if s.len() == 0 {
        (buf, Ok(pos))
    } else {
        then(spec_gen_track_entry_list(s.drop_last(), buf, pos), |b: Seq<u8>, p: usize| spec_gen_track_entry(s.last(), b, p))
    }
}

/// Once writing a list has failed, the rest of the list is not written.
proof fn lemma_track_entry_list_err(s: Seq<TrackEntry>, buf: Seq<u8>, pos: usize, k: int, m: int)
    requires
        0 <= k <= m <= s.len(),
        spec_gen_track_entry_list(s.take(k), buf, pos).1 is Err,
    ensures
        spec_gen_track_entry_list(s.take(m), buf, pos) == spec_gen_track_entry_list(s.take(k), buf, pos),
    decreases m - k,
{
    if m > k {
        lemma_track_entry_list_err(s, buf, pos, k, m - 1);
        assert(s.take(m).drop_last() =~= s.take(m - 1));
    }
}

/// Writes TrackEntry elements one after the other.
fn gen_track_entry_list(s: &Vec<TrackEntry>, buf: &mut Vec<u8>, pos: usize) -> (r: Result<usize, GenError>)
    requires
        forall|j: int| 0 <= j < s@.len() ==> (#[trigger] s@[j]).spec_capacity() <= usize::MAX,
    ensures
        (final(buf)@, r) == spec_gen_track_entry_list(s@, old(buf)@, pos),
        r matches Ok(p) ==> pos <= p,
        final(buf)@.len() == old(buf)@.len(),
{
    let ghost b1 = buf@;
    let mut p = pos;
    let mut i: usize = 0;
    assert(s@.take(0) =~= Seq::<TrackEntry>::empty());
    while i < s.len()
        invariant
            i <= s@.len(),
            b1 == old(buf)@,
            spec_gen_track_entry_list(s@.take(i as int), b1, pos) == (buf@, Ok::<usize, GenError>(p)),
            pos <= p,
            buf@.len() == b1.len(),
            forall|j: int| 0 <= j < s@.len() ==> (#[trigger] s@[j]).spec_capacity() <= usize::MAX,
        decreases s.len() - i,
    {
        proof {
            assert(s@.take(i + 1).drop_last() =~= s@.take(i as int));
        }
        match gen_track_entry(&s[i], buf, p) {
            Ok(q) => {
                p = q;
            },
            Err(e) => {
                assert(spec_gen_track_entry_list(s@.take(i + 1), b1, pos) == (buf@, Err::<usize, GenError>(e)));
                proof {
                    lemma_track_entry_list_err(s@, b1, pos, i + 1, s@.len() as int);
                    assert(s@.take(s@.len() as int) =~= s@);
                }
                return Err(e);
            },
        }
        i = i + 1;
    }
    proof {
        assert(s@.take(i as int) =~= s@);
    }
    Ok(p)
}

/// What writing SimpleBlock elements one after the other does.
pub open spec fn spec_gen_simple_block_list(s: Seq<Vec<u8>>, buf: Seq<u8>, pos: usize) -> GenOut
    decreases s.len(),
{
    if s.len() == 0 {
        (buf, Ok(pos))
    } else {
        then(spec_gen_simple_block_list(s.drop_last(), buf, pos), |b: Seq<u8>, p: usize| spec_gen_ebml_binary(0xA3, s.last()@, b, p))
    }
}

/// Once writing a list has failed, the rest of the list is not written.
proof fn lemma_simple_block_list_err(s: Seq<Vec<u8>>, buf: Seq<u8>, pos: usize, k: int, m: int)
    requires
        0 <= k <= m <= s.len(),
        spec_gen_simple_block_list(s.take(k), buf, pos).1 is Err,
    ensures
        spec_gen_simple_block_list(s.take(m), buf, pos) == spec_gen_simple_block_list(s.take(k), buf, pos),
    decreases m - k,
{
    if m > k {
        lemma_simple_block_list_err(s, buf, pos, k, m - 1);
        assert(s.take(m).drop_last() =~= s.take(m - 1));
    }
}

/// Writes SimpleBlock elements one after the other.
fn gen_simple_block_list(s: &Vec<Vec<u8>>, buf: &mut Vec<u8>, pos: usize) -> (r: Result<usize, GenError>)
    ensures
        (final(buf)@, r) == spec_gen_simple_block_list(s@, old(buf)@, pos),
        r matches Ok(p) ==> pos <= p,
        final(buf)@.len() == old(buf)@.len(),
{
    let ghost b1 = buf@;
    let mut p = pos;
    let mut i: usize = 0;
    assert(s@.take(0) =~= Seq::<Vec<u8>>::empty());
    while i < s.len()
        invariant
            i <= s@.len(),
            b1 == old(buf)@,
            spec_gen_simple_block_list(s@.take(i as int), b1, pos) == (buf@, Ok::<usize, GenError>(p)),
            pos <= p,
            buf@.len() == b1.len(),
        decreases s.len() - i,
    {
        proof {
            assert(s@.take(i + 1).drop_last() =~= s@.take(i as int));
        }
        match gen_ebml_binary(0xA3, s[i].as_slice(), buf, p) {
            Ok(q) => {
                p = q;
            },
            Err(e) => {
                assert(spec_gen_simple_block_list(s@.take(i + 1), b1, pos) == (buf@, Err::<usize, GenError>(e)));
                proof {
                    lemma_simple_block_list_err(s@, b1, pos, i + 1, s@.len() as int);
                    assert(s@.take(s@.len() as int) =~= s@);
                }
                return Err(e);
            },
        }
        i = i + 1;
    }
    proof {
        assert(s@.take(i as int) =~= s@);
    }
    Ok(p)
}

/// What the fields of a SeekHead take when [gen_seek_head] writes them.
pub open spec fn spec_gen_seek_head_fields(x: SeekHead, buf: Seq<u8>, pos: usize) -> GenOut {
    spec_gen_seek_list(x.positions@, buf, pos)
}

/// What [gen_seek_head] does.
#[verifier::opaque]
pub open spec fn spec_gen_seek_head(x: SeekHead, buf: Seq<u8>, pos: usize) -> GenOut {
    match spec_vint_size(x.spec_capacity() as u64) {
        Err(e) => (buf, Err(e)),
        Ok(es) => spec_gen_element(
            0x114D9B74,
            es as usize,
            es,
            |b: Seq<u8>, p: usize| spec_gen_seek_head_fields(x, b, p),
            buf,
            pos,
        ),
    }
}

/// Writes a SeekHead element (ID 0x114D9B74): each Seek in turn.
pub fn gen_seek_head(x: &SeekHead, buf: &mut Vec<u8>, pos: usize) -> (r: Result<usize, GenError>)
    requires
        x.spec_capacity() <= usize::MAX,
    ensures
        (final(buf)@, r) == spec_gen_seek_head(*x, old(buf)@, pos),
        r matches Ok(p) ==> pos <= p,
        final(buf)@.len() == old(buf)@.len(),
{
    proof {
        reveal(spec_gen_seek_head);
    }
    let cap = x.capacity();
    let es = match vint_size(cap as u64) {
        Ok(w) => w,
        Err(e) => return Err(e),
    };
    let (ofs, start) = match gen_ebml_master_start(0x114D9B74, es, buf, pos) {
        Ok(s) => s,
        Err(e) => return Err(e),
    };
    let p = start;
    proof {
        assert forall|j: int| 0 <= j < x.positions@.len() implies (#[trigger] x.positions@[j]).spec_capacity() <= usize::MAX by {
            lemma_sizes_total_parts(x.positions@, 0x4DBB, j);
        }
    }
    let p = match gen_seek_list(&x.positions, buf, p) {
        Ok(q) => q,
        Err(e) => return Err(e),
    };
    gen_at_offset(buf, ofs, p, es, p - start)
}

/// What the fields of a Tracks take when [gen_tracks] writes them.
pub open spec fn spec_gen_tracks_fields(x: Tracks, buf: Seq<u8>, pos: usize) -> GenOut {
    spec_gen_track_entry_list(x.tracks@, buf, pos)
}

/// What [gen_tracks] does.
#[verifier::opaque]
pub open spec fn spec_gen_tracks(x: Tracks, buf: Seq<u8>, pos: usize) -> GenOut {
    match spec_vint_size(x.spec_capacity() as u64) {
        Err(e) => (buf, Err(e)),
        Ok(es) => spec_gen_element(
            0x1654AE6B,
            es as usize,
            es,
            |b: Seq<u8>, p: usize| spec_gen_tracks_fields(x, b, p),
            buf,
            pos,
        ),
    }
}

/// Writes a Tracks element (ID 0x1654AE6B): each TrackEntry in turn.
pub fn gen_tracks(x: &Tracks, buf: &mut Vec<u8>, pos: usize) -> (r: Result<usize, GenError>)
    requires
        x.spec_capacity() <= usize::MAX,
    ensures
        (final(buf)@, r) == spec_gen_tracks(*x, old(buf)@, pos),
        r matches Ok(p) ==> pos <= p,
        final(buf)@.len() == old(buf)@.len(),
{
    proof {
        reveal(spec_gen_tracks);
    }
    let cap = x.capacity();
    let es = match vint_size(cap as u64) {
        Ok(w) => w,
        Err(e) => return Err(e),
    };
    let (ofs, start) = match gen_ebml_master_start(0x1654AE6B, es, buf, pos) {
        Ok(s) => s,
        Err(e) => return Err(e),
    };
    let p = start;
    proof {
        assert forall|j: int| 0 <= j < x.tracks@.len() implies (#[trigger] x.tracks@[j]).spec_capacity() <= usize::MAX by {
            lemma_sizes_total_parts(x.tracks@, 0xAE, j);
        }
    }
    let p = match gen_track_entry_list(&x.tracks, buf, p) {
        Ok(q) => q,
        Err(e) => return Err(e),
    };
    gen_at_offset(buf, ofs, p, es, p - start)
}

/// What the fields of a Cluster take when [gen_cluster] writes them.
pub open spec fn spec_gen_cluster_fields(x: Cluster, buf: Seq<u8>, pos: usize) -> GenOut {
    then(spec_gen_ebml_uint(0xE7, x.timestamp, buf, pos), |b: Seq<u8>, p: usize|
    then(match x.position { Some(v) => spec_gen_ebml_uint(0xA7, v, b, p), None => (b, Ok(p)) }, |b: Seq<u8>, p: usize|
    then(match x.prev_size { Some(v) => spec_gen_ebml_uint(0xAB, v, b, p), None => (b, Ok(p)) }, |b: Seq<u8>, p: usize|
    spec_gen_simple_block_list(x.simple_block@, b, p))))
}

/// What [gen_cluster] does.
#[verifier::opaque]
pub open spec fn spec_gen_cluster(x: Cluster, buf: Seq<u8>, pos: usize) -> GenOut {
    match spec_vint_size(x.spec_capacity() as u64) {
        Err(e) => (buf, Err(e)),
        Ok(es) => spec_gen_element(
            0x1F43B675,
            es as usize,
            es,
            |b: Seq<u8>, p: usize| spec_gen_cluster_fields(x, b, p),
            buf,
            pos,
        ),
    }
}

/// Writes a Cluster element (ID 0x1F43B675): its timestamp, position and previous size, then each SimpleBlock as a binary element; BlockGroups are not written.
pub fn gen_cluster(x: &Cluster, buf: &mut Vec<u8>, pos: usize) -> (r: Result<usize, GenError>)
    requires
        x.spec_capacity() <= usize::MAX,
    ensures
        (final(buf)@, r) == spec_gen_cluster(*x, old(buf)@, pos),
        r matches Ok(p) ==> pos <= p,
        final(buf)@.len() == old(buf)@.len(),
{
    proof {
        reveal(spec_gen_cluster);
    }
    let cap = x.capacity();
    let es = match vint_size(cap as u64) {
        Ok(w) => w,
        Err(e) => return Err(e),
    };
    let (ofs, start) = match gen_ebml_master_start(0x1F43B675, es, buf, pos) {
        Ok(s) => s,
        Err(e) => return Err(e),
    };
    let p = start;
    let p = match gen_ebml_uint(0xE7, x.timestamp, buf, p) {
        Ok(q) => q,
        Err(e) => return Err(e),
    };
    let p = match x.position {
        Some(v) => match gen_ebml_uint(0xA7, v, buf, p) {
            Ok(q) => q,
            Err(e) => return Err(e),
        },
        None => p,
    };
    let p = match x.prev_size {
        Some(v) => match gen_ebml_uint(0xAB, v, buf, p) {
            Ok(q) => q,
            Err(e) => return Err(e),
        },
        None => p,
    };
    let p = match gen_simple_block_list(&x.simple_block, buf, p) {
        Ok(q) => q,
        Err(e) => return Err(e),
    };
    gen_at_offset(buf, ofs, p, es, p - start)
}

/// The flags byte of a SimpleBlock header as [gen_simple_block_header]
/// writes it, in the layout that [block_flags](crate::elements::block_flags)
/// reads: keyframe 0x80, invisible 0x08, the lacing in bits 0x06,
/// discardable 0x01.
pub open spec fn simple_block_flags_byte(s: SimpleBlock) -> u8 {
    ((if s.keyframe { 0x80u8 } else { 0 }) + (if s.invisible { 0x08u8 } else { 0 }) + (match s.lacing {
        Lacing::NoLacing => 0u8,
        Lacing::Xiph => 0x02u8,
        Lacing::FixedSize => 0x04u8,
        Lacing::EBML => 0x06u8,
    }) + (if s.discardable { 0x01u8 } else { 0 })) as u8
}

/// What [gen_simple_block_header] does.
pub open spec fn spec_gen_simple_block_header(s: SimpleBlock, buf: Seq<u8>, pos: usize) -> GenOut {
    then(spec_gen_vint(s.track_number, buf, pos), |b: Seq<u8>, p: usize|
    then(spec_write(b, p as int, be_bytes(i16_bits(s.timestamp), 2)), |b: Seq<u8>, p: usize|
    spec_write(b, p as int, seq![simple_block_flags_byte(s)])))
}

/// Writes the header of a SimpleBlock: the track number as a VINT, the
/// 16-bit timestamp, then the flags byte.
pub fn gen_simple_block_header(s: &SimpleBlock, buf: &mut Vec<u8>, pos: usize) -> (r: Result<usize, GenError>)
    ensures
        (final(buf)@, r) == spec_gen_simple_block_header(*s, old(buf)@, pos),
        final(buf)@.len() == old(buf)@.len(),
{
    let mut flags: u8 = 0;
    if s.keyframe {
        flags = flags + 0b1000_0000u8;
    }
    if s.invisible {
        flags = flags + 0b0000_1000u8;
    }
    flags = flags + match s.lacing {
        Lacing::NoLacing => 0u8,
        Lacing::Xiph => 0b0000_0010u8,
        Lacing::FixedSize => 0b0000_0100u8,
        Lacing::EBML => 0b0000_0110u8,
    };
    if s.discardable {
        flags = flags + 0b0000_0001u8;
    }
    let p = match gen_vint(s.track_number, buf, pos) {
        Ok(q) => q,
        Err(e) => return Err(e),
    };
    let p = match set_be_i16(buf, p, s.timestamp) {
        Ok(q) => q,
        Err(e) => return Err(e),
    };
    set_be_u8(buf, p, flags)
}

/// What [gen_segment_header_unknown_size] does.
pub open spec fn spec_gen_segment_header_unknown_size(buf: Seq<u8>, pos: usize) -> GenOut {
    then(spec_gen_vid(0x18538067, buf, pos), |b: Seq<u8>, p: usize| spec_write(b, p as int, seq![0xFFu8]))
}

/// Writes the head of a Segment element of unknown size: its ID, then the
/// one-byte Data Size whose bits are all ones.
pub fn gen_segment_header_unknown_size(buf: &mut Vec<u8>, pos: usize) -> (r: Result<usize, GenError>)
    ensures
        (final(buf)@, r) == spec_gen_segment_header_unknown_size(old(buf)@, pos),
        final(buf)@.len() == old(buf)@.len(),
{
    let p = match gen_vid(0x18538067, buf, pos) {
        Ok(q) => q,
        Err(e) => return Err(e),
    };
    set_be_u8(buf, p, 0xFF)
}

/// Writes frames laced as `lacing` says. No lacing is written yet: the
/// result is [GenError::NotYetImplemented] and nothing is written.
pub fn gen_laced_frames(lacing: Lacing, frames: &Vec<Vec<u8>>, buf: &mut Vec<u8>, pos: usize) -> (r: Result<usize, GenError>)
    ensures
        r == Err::<usize, GenError>(GenError::NotYetImplemented),
        final(buf)@ == old(buf)@,
{
    match lacing {
        Lacing::NoLacing => Err(GenError::NotYetImplemented),
        Lacing::Xiph => gen_xiph_laced_frames(frames, buf, pos),
        Lacing::EBML => gen_ebml_laced_frames(frames, buf, pos),
        Lacing::FixedSize => gen_fixed_size_laced_frames(frames, buf, pos),
    }
}

/// Xiph lacing, not written yet.
fn gen_xiph_laced_frames(frames: &Vec<Vec<u8>>, buf: &mut Vec<u8>, pos: usize) -> (r: Result<usize, GenError>)
    ensures
        r == Err::<usize, GenError>(GenError::NotYetImplemented),
        final(buf)@ == old(buf)@,
{
    if frames.len() == 0 {
        return Err(GenError::NotYetImplemented);
    }
    Err(GenError::NotYetImplemented)
}

/// EBML lacing, not written yet.
fn gen_ebml_laced_frames(frames: &Vec<Vec<u8>>, buf: &mut Vec<u8>, pos: usize) -> (r: Result<usize, GenError>)
    ensures
        r == Err::<usize, GenError>(GenError::NotYetImplemented),
        final(buf)@ == old(buf)@,
{
    Err(GenError::NotYetImplemented)
}

/// Fixed-size lacing, not written yet.
fn gen_fixed_size_laced_frames(frames: &Vec<Vec<u8>>, buf: &mut Vec<u8>, pos: usize) -> (r: Result<usize, GenError>)
    ensures
        r == Err::<usize, GenError>(GenError::NotYetImplemented),
        final(buf)@ == old(buf)@,
{
    Err(GenError::NotYetImplemented)
}

} // verus!
