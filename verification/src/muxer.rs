use vstd::prelude::*;

use crate::ebml::header::EbmlHeader;
use crate::ebml::parse::EbmlFloat;
use crate::elements::masters::{
    Audio, Cluster, Colour, Info, Seek, SeekHead, TrackEntry, Tracks, Video,
};
use crate::elements::{Lacing, SimpleBlock};
use crate::serializer::cookie_utils::GenError;
use crate::serializer::ebml::{gen_ebml_header, spec_gen_ebml_header, then, EbmlSize, GenOut};
use crate::serializer::elements::{
    gen_cluster, gen_info, gen_seek_head, gen_segment_header_unknown_size, gen_simple_block_header,
    gen_tracks, spec_gen_cluster, spec_gen_info, spec_gen_seek_head,
    spec_gen_segment_header_unknown_size, spec_gen_simple_block_header, spec_gen_tracks,
};

verus! {

/// Why muxing failed.
#[derive(Debug, Clone, Copy, PartialEq, Eq, Structural)]
pub enum MuxError {
    /// What was to be written cannot be serialized.
    InvalidData,
}

/// A Matroska muxer: the headers to write and the blocks of the cluster
/// being gathered.
#[derive(Debug, Clone, PartialEq, Eq)]
pub struct MkvMuxer {
    pub header: EbmlHeader,
    pub seek_head: SeekHead,
    pub info: Option<Info>,
    pub tracks: Option<Tracks>,
    pub blocks: Vec<Vec<u8>>,
    pub blocks_len: usize,
    pub timecode: Option<u64>,
}

/// `n` zero bytes.
pub open spec fn zeros(n: nat) -> Seq<u8> {
    Seq::new(n, |i: int| 0u8)
}

/// Running a writer from the start of a buffer, and growing the buffer by
/// the bytes it asks for until it succeeds: the bytes kept are those up to
/// where it stopped. A failure other than a lack of room, or a request for
/// no byte or for more than a buffer can hold, ends it.
pub open spec fn spec_grow(w: spec_fn(Seq<u8>) -> GenOut, b: Seq<u8>) -> Result<Seq<u8>, GenError>
    decreases usize::MAX - b.len(),
{
    let (b2, r) = w(b);
    match r {
        Ok(end) => Ok(
            if end <= b2.len() {
                b2.take(end as int)
            } else {
                b2
            },
        ),
        Err(GenError::BufferTooSmall(sz)) => if sz == 0 || b2.len() + sz > usize::MAX || b2.len() < b.len() {
            Err(GenError::BufferTooSmall(sz))
        } else {
            spec_grow(w, b2 + zeros(sz as nat))
        },
        Err(e) => Err(e),
    }
}

/// Appends `n` zero bytes.
fn append_zeros(buf: &mut Vec<u8>, n: usize)
    ensures
        final(buf)@ == old(buf)@ + zeros(n as nat),
{
    let mut k: usize = 0;
    while k < n
        invariant
            k <= n,
            buf@ == old(buf)@ + zeros(k as nat),
        decreases n - k,
    {
        buf.push(0u8);
        k = k + 1;
        assert(buf@ =~= old(buf)@ + zeros(k as nat));
    }
}

impl MkvMuxer {
    /// A muxer for Matroska files.
    pub fn matroska() -> (r: MkvMuxer)
        ensures
            r.header.version == 1 && r.header.read_version == 1 && r.header.max_id_length == 4
                && r.header.max_size_length == 8 && r.header.doc_type@ == "matroska"@
                && r.header.doc_type_version == 4 && r.header.doc_type_read_version == 2,
            r.seek_head.positions@.len() == 0,
            r.info is None && r.tracks is None,
            r.blocks@.len() == 0 && r.blocks_len == 0 && r.timecode is None,
    {
        MkvMuxer {
            header: EbmlHeader {
                version: 1,
                read_version: 1,
                max_id_length: 4,
                max_size_length: 8,
                doc_type: "matroska".to_owned(),
                doc_type_version: 4,
                doc_type_read_version: 2,
            },
            seek_head: SeekHead { positions: Vec::new() },
            info: None,
            tracks: None,
            blocks: Vec::new(),
            blocks_len: 0,
            timecode: None,
        }
    }

    /// A muxer for WebM files.
    pub fn webm() -> (r: MkvMuxer)
        ensures
            r.header.version == 1 && r.header.read_version == 1 && r.header.max_id_length == 4
                && r.header.max_size_length == 8 && r.header.doc_type@ == "webm"@
                && r.header.doc_type_version == 1 && r.header.doc_type_read_version == 1,
            r.seek_head.positions@.len() == 0,
            r.info is None && r.tracks is None,
            r.blocks@.len() == 0 && r.blocks_len == 0 && r.timecode is None,
    {
        MkvMuxer {
            header: EbmlHeader {
                version: 1,
                read_version: 1,
                max_id_length: 4,
                max_size_length: 8,
                doc_type: "webm".to_owned(),
                doc_type_version: 1,
                doc_type_read_version: 1,
            },
            seek_head: SeekHead { positions: Vec::new() },
            info: None,
            tracks: None,
            blocks: Vec::new(),
            blocks_len: 0,
            timecode: None,
        }
    }

    /// Writes the EBML Header into `buf`, growing it until it fits, and keeps the bytes written.
    pub fn write_ebml_header(&mut self, buf: &mut Vec<u8>) -> (r: Result<(), MuxError>)
        requires
            old(self).header.spec_capacity() <= usize::MAX,
        ensures
            *final(self) == *old(self),
            match spec_grow(|b: Seq<u8>| spec_gen_ebml_header(old(self).header, b, 0), old(buf)@) {
                Ok(out) => r == Ok::<(), MuxError>(()) && final(buf)@ == out,
                Err(_) => r == Err::<(), MuxError>(MuxError::InvalidData),
            },
    {
        let ghost b0 = buf@;
        loop
            invariant
                b0 == old(buf)@,
                spec_grow(|b: Seq<u8>| spec_gen_ebml_header(self.header, b, 0), buf@) == spec_grow(|b: Seq<u8>| spec_gen_ebml_header(self.header, b, 0), b0),
                *self == *old(self),
                self.header.spec_capacity() <= usize::MAX,
            decreases usize::MAX - buf.len(),
        {
            match gen_ebml_header(&self.header, buf, 0) {
                Err(GenError::BufferTooSmall(sz)) => {
                    let len = buf.len();
                    if sz == 0 || sz > usize::MAX - len {
                        return Err(MuxError::InvalidData);
                    }
                    let ghost after = buf@;
                    append_zeros(buf, sz);
                },
                Err(_) => {
                    return Err(MuxError::InvalidData);
                },
                Ok(sz) => {
                    buf.truncate(sz);
                    return Ok(());
                },
            }
        }
    }

    /// Writes the head of a Segment of unknown size into `buf`, growing it until it fits, and keeps the bytes written; the size given is not used.
    pub fn write_segment_header(&mut self, buf: &mut Vec<u8>, _size: usize) -> (r: Result<(), MuxError>)
        ensures
            *final(self) == *old(self),
            match spec_grow(|b: Seq<u8>| spec_gen_segment_header_unknown_size(b, 0), old(buf)@) {
                Ok(out) => r == Ok::<(), MuxError>(()) && final(buf)@ == out,
                Err(_) => r == Err::<(), MuxError>(MuxError::InvalidData),
            },
    {
        let ghost b0 = buf@;
        loop
            invariant
                b0 == old(buf)@,
                spec_grow(|b: Seq<u8>| spec_gen_segment_header_unknown_size(b, 0), buf@) == spec_grow(|b: Seq<u8>| spec_gen_segment_header_unknown_size(b, 0), b0),
                *self == *old(self),
            decreases usize::MAX - buf.len(),
        {
            match gen_segment_header_unknown_size(buf, 0) {
                Err(GenError::BufferTooSmall(sz)) => {
                    let len = buf.len();
                    if sz == 0 || sz > usize::MAX - len {
                        return Err(MuxError::InvalidData);
                    }
                    let ghost after = buf@;
                    append_zeros(buf, sz);
                },
                Err(_) => {
                    return Err(MuxError::InvalidData);
                },
                Ok(sz) => {
                    buf.truncate(sz);
                    return Ok(());
                },
            }
        }
    }

    /// Writes the SeekHead into `buf`, growing it until it fits, and keeps the bytes written.
    pub fn write_seek_head(&mut self, buf: &mut Vec<u8>) -> (r: Result<(), MuxError>)
        requires
            old(self).seek_head.spec_capacity() <= usize::MAX,
        ensures
            *final(self) == *old(self),
            match spec_grow(|b: Seq<u8>| spec_gen_seek_head(old(self).seek_head, b, 0), old(buf)@) {
                Ok(out) => r == Ok::<(), MuxError>(()) && final(buf)@ == out,
                Err(_) => r == Err::<(), MuxError>(MuxError::InvalidData),
            },
    {
        let ghost b0 = buf@;
        loop
            invariant
                b0 == old(buf)@,
                spec_grow(|b: Seq<u8>| spec_gen_seek_head(self.seek_head, b, 0), buf@) == spec_grow(|b: Seq<u8>| spec_gen_seek_head(self.seek_head, b, 0), b0),
                *self == *old(self),
                self.seek_head.spec_capacity() <= usize::MAX,
            decreases usize::MAX - buf.len(),
        {
            match gen_seek_head(&self.seek_head, buf, 0) {
                Err(GenError::BufferTooSmall(sz)) => {
                    let len = buf.len();
                    if sz == 0 || sz > usize::MAX - len {
                        return Err(MuxError::InvalidData);
                    }
                    let ghost after = buf@;
                    append_zeros(buf, sz);
                },
                Err(_) => {
                    return Err(MuxError::InvalidData);
                },
                Ok(sz) => {
                    buf.truncate(sz);
                    return Ok(());
                },
            }
        }
    }

    /// Writes the Info, if there is one, into `buf`, growing it until it fits, and keeps the bytes written.
    pub fn write_info(&mut self, buf: &mut Vec<u8>) -> (r: Result<(), MuxError>)
        requires
            old(self).info matches Some(x) ==> x.spec_capacity() <= usize::MAX,
        ensures
            *final(self) == *old(self),
            match old(self).info {
                Some(x) => match spec_grow(|b: Seq<u8>| spec_gen_info(x, b, 0), old(buf)@) {
                    Ok(out) => r == Ok::<(), MuxError>(()) && final(buf)@ == out,
                    Err(_) => r == Err::<(), MuxError>(MuxError::InvalidData),
                },
                None => r == Ok::<(), MuxError>(()) && final(buf)@ == old(buf)@,
            },
    {
        if let Some(x) = &self.info {
            let ghost b0 = buf@;
            loop
                invariant
                    b0 == old(buf)@,
                    spec_grow(|b: Seq<u8>| spec_gen_info(*x, b, 0), buf@) == spec_grow(|b: Seq<u8>| spec_gen_info(*x, b, 0), b0),
                    *self == *old(self),
                    self.info == Some(*x),
                    x.spec_capacity() <= usize::MAX,
                decreases usize::MAX - buf.len(),
            {
                match gen_info(x, buf, 0) {
                    Err(GenError::BufferTooSmall(sz)) => {
                        let len = buf.len();
                        if sz == 0 || sz > usize::MAX - len {
                            return Err(MuxError::InvalidData);
                        }
                        let ghost after = buf@;
                        append_zeros(buf, sz);
                    },
                    Err(_) => {
                        return Err(MuxError::InvalidData);
                    },
                    Ok(sz) => {
                        buf.truncate(sz);
                        return Ok(());
                    },
                }
            }
        }
        Ok(())
    }

    /// Writes the Tracks, if there are any, into `buf`, growing it until they fit, and keeps the bytes written.
    pub fn write_tracks(&mut self, buf: &mut Vec<u8>) -> (r: Result<(), MuxError>)
        requires
            old(self).tracks matches Some(x) ==> x.spec_capacity() <= usize::MAX,
        ensures
            *final(self) == *old(self),
            match old(self).tracks {
                Some(x) => match spec_grow(|b: Seq<u8>| spec_gen_tracks(x, b, 0), old(buf)@) {
                    Ok(out) => r == Ok::<(), MuxError>(()) && final(buf)@ == out,
                    Err(_) => r == Err::<(), MuxError>(MuxError::InvalidData),
                },
                None => r == Ok::<(), MuxError>(()) && final(buf)@ == old(buf)@,
            },
    {
        if let Some(x) = &self.tracks {
            let ghost b0 = buf@;
            loop
                invariant
                    b0 == old(buf)@,
                    spec_grow(|b: Seq<u8>| spec_gen_tracks(*x, b, 0), buf@) == spec_grow(|b: Seq<u8>| spec_gen_tracks(*x, b, 0), b0),
                    *self == *old(self),
                    self.tracks == Some(*x),
                    x.spec_capacity() <= usize::MAX,
                decreases usize::MAX - buf.len(),
            {
                match gen_tracks(x, buf, 0) {
                    Err(GenError::BufferTooSmall(sz)) => {
                        let len = buf.len();
                        if sz == 0 || sz > usize::MAX - len {
                            return Err(MuxError::InvalidData);
                        }
                        let ghost after = buf@;
                        append_zeros(buf, sz);
                    },
                    Err(_) => {
                        return Err(MuxError::InvalidData);
                    },
                    Ok(sz) => {
                        buf.truncate(sz);
                        return Ok(());
                    },
                }
            }
        }
        Ok(())
    }
}

/// What a stream holds, as far as a track needs: the size and colour
/// parameters of its pictures or the rate of its sound.
#[derive(Debug, Clone, Copy, PartialEq, Eq, Structural)]
pub enum StreamKind {
    Video { width: usize, height: usize, matrix_coefficients: u64, transfer_characteristics: u64, primaries: u64 },
    Audio { rate: EbmlFloat },
}

/// A stream to mux, as far as a track needs.
#[derive(Debug, Clone)]
pub struct StreamDesc {
    pub id: i64,
    pub index: usize,
    pub duration: Option<u64>,
    pub codec_id: Option<String>,
    pub extradata: Option<Vec<u8>>,
    pub delay: usize,
    pub convergence_window: usize,
    pub kind: Option<StreamKind>,
}

/// The Matroska codec ID of a codec name; unknown codecs get `INVALID_CODEC`.
pub open spec fn codec_id_of(name: Option<Seq<char>>) -> Seq<char> {
    match name {
        Some(n) => if n == "opus"@ {
            "A_OPUS"@
        } else if n == "vorbis"@ {
            "A_VORBIS"@
        } else if n == "av1"@ {
            "V_AV1"@
        } else if n == "vp8"@ {
            "V_VP8"@
        } else if n == "vp9"@ {
            "V_VP9"@
        } else {
            "INVALID_CODEC"@
        },
        None => "INVALID_CODEC"@,
    }
}

/// Whether a codec name is one that has a Matroska codec ID.
pub open spec fn known_codec(n: Seq<char>) -> bool {
    n == "opus"@ || n == "vorbis"@ || n == "av1"@ || n == "vp8"@ || n == "vp9"@
}

/// The codec table follows the Matroska codec IDs: "opus" is A_OPUS,
/// "vorbis" A_VORBIS, "av1" V_AV1, "vp8" V_VP8 and "vp9" V_VP9, in both
/// directions; any other codec name is written as INVALID_CODEC, and any
/// other codec ID is read as no codec name.
pub proof fn law_matroska_codec_ids(id: Seq<char>, name: Seq<char>)
    ensures
        codec_id_of(Some("opus"@)) == "A_OPUS"@,
        codec_id_of(Some("vorbis"@)) == "A_VORBIS"@,
        codec_id_of(Some("av1"@)) == "V_AV1"@,
        codec_id_of(Some("vp8"@)) == "V_VP8"@,
        codec_id_of(Some("vp9"@)) == "V_VP9"@,
        !known_codec(name) ==> codec_id_of(Some(name)) == "INVALID_CODEC"@,
        codec_id_of(None) == "INVALID_CODEC"@,
        crate::demuxer::codec_name_of("A_OPUS"@) == Some("opus"@),
        crate::demuxer::codec_name_of("A_VORBIS"@) == Some("vorbis"@),
        crate::demuxer::codec_name_of("V_AV1"@) == Some("av1"@),
        crate::demuxer::codec_name_of("V_VP8"@) == Some("vp8"@),
        crate::demuxer::codec_name_of("V_VP9"@) == Some("vp9"@),
        id != "A_OPUS"@ && id != "A_VORBIS"@ && id != "V_AV1"@ && id != "V_VP8"@ && id != "V_VP9"@
            ==> crate::demuxer::codec_name_of(id) is None,
{
    reveal_strlit("opus");
    reveal_strlit("vorbis");
    reveal_strlit("av1");
    reveal_strlit("vp8");
    reveal_strlit("vp9");
    reveal_strlit("A_OPUS");
    reveal_strlit("A_VORBIS");
    reveal_strlit("V_AV1");
    reveal_strlit("V_VP8");
    reveal_strlit("V_VP9");
    reveal_strlit("INVALID_CODEC");
    assert("vp8"@[2] != "vp9"@[2]);
    assert("av1"@[0] != "vp8"@[0]);
    assert("av1"@[0] != "vp9"@[0]);
    assert("opus"@.len() != "vorbis"@.len());
    assert("opus"@.len() != "av1"@.len());
    assert("A_OPUS"@.len() == 6);
    assert("A_VORBIS"@.len() == 8);
    assert("V_AV1"@.len() == 5);
    assert("V_VP8"@.len() == 5);
    assert("V_VP9"@.len() == 5);
    assert("V_AV1"@[2] != "V_VP8"@[2]);
    assert("V_AV1"@[2] != "V_VP9"@[2]);
    assert("V_VP8"@[4] != "V_VP9"@[4]);
}

/// The demuxer's codec table undoes the muxer's: the codec ID that a track
/// gets for a codec name gives that name back when it is one of "opus",
/// "vorbis", "av1", "vp8" and "vp9", and no name otherwise.
pub proof fn law_codec_id_roundtrip(name: Option<Seq<char>>)
    ensures
        crate::demuxer::codec_name_of(codec_id_of(name)) == (match name {
            Some(n) => if known_codec(n) {
                Some(n)
            } else {
                None::<Seq<char>>
            },
            None => None::<Seq<char>>,
        }),
{
    reveal_strlit("opus");
    reveal_strlit("vorbis");
    reveal_strlit("av1");
    reveal_strlit("vp8");
    reveal_strlit("vp9");
    reveal_strlit("A_OPUS");
    reveal_strlit("A_VORBIS");
    reveal_strlit("V_AV1");
    reveal_strlit("V_VP8");
    reveal_strlit("V_VP9");
    reveal_strlit("INVALID_CODEC");
    assert("V_AV1"@[2] != "V_VP8"@[2]);
    assert("V_AV1"@[2] != "V_VP9"@[2]);
    assert("V_VP8"@[4] != "V_VP9"@[4]);
    assert("A_OPUS"@.len() != "A_VORBIS"@.len());
    assert("INVALID_CODEC"@.len() == 13);
}

/// The fields of a track that [stream_to_track] leaves at their default.
pub open spec fn track_defaults(t: TrackEntry) -> bool {
    &&& t.flag_enabled == 0 && t.flag_default == 0 && t.flag_forced == 0 && t.flag_lacing == 0
    &&& t.default_decoded_field_duration is None
    &&& t.track_timestamp_scale == EbmlFloat::F64(0)
    &&& t.max_block_addition_id == 0
    &&& t.name is None && t.language@.len() == 0 && t.language_ietf is None
    &&& t.codec_name is None && t.attachment_link is None
    &&& t.track_translate@.len() == 0 && t.track_operation is None && t.content_encodings is None
    &&& t.stream_index == 0
}

/// The track of a video stream: its picture size and its colour matrix,
/// transfer and primaries, the rest at their defaults.
pub open spec fn video_of(v: Video, width: usize, height: usize, m: u64, x: u64, p: u64) -> bool {
    &&& v.pixel_width == width as u64 && v.pixel_height == height as u64
    &&& v.flag_interlaced == 0 && v.field_order == 0 && v.stereo_mode == 0 && v.alpha_mode == 0
    &&& v.old_stereo_mode is None
    &&& v.pixel_crop_bottom == 0 && v.pixel_crop_top == 0 && v.pixel_crop_left == 0 && v.pixel_crop_right == 0
    &&& v.display_width is None && v.display_height is None && v.display_unit == 0
    &&& v.colour_space is None && v.projection is None
    &&& v.colour matches Some(c) && {
        &&& c.matrix_coefficients == m && c.transfer_characteristics == x && c.primaries == p
        &&& c.bits_per_channel == 0
        &&& c.chroma_subsampling_horz is None && c.chroma_subsampling_vert is None
        &&& c.cb_subsampling_horz is None && c.cb_subsampling_vert is None
        &&& c.chroma_siting_horz == 0 && c.chroma_siting_vert == 0 && c.range == 0
        &&& c.max_cll is None && c.max_fall is None && c.mastering_metadata is None
    }
}

/// Whether two strings are the same.
fn str_eq(a: &str, b: &str) -> (r: bool)
    ensures
        r == (a@ == b@),
{
    let x = a.as_bytes();
    let y = b.as_bytes();
    proof {
        vstd::utf8::encode_utf8_decode_utf8(a@);
        vstd::utf8::encode_utf8_decode_utf8(b@);
    }
    if x.len() != y.len() {
        return false;
    }
    let mut i: usize = 0;
    while i < x.len()
        invariant
            x@.len() == y@.len(),
            x@ == vstd::utf8::encode_utf8(a@),
            y@ == vstd::utf8::encode_utf8(b@),
            i <= x@.len(),
            forall|j: int| 0 <= j < i ==> x@[j] == y@[j],
        decreases x.len() - i,
    {
        if x[i] != y[i] {
            assert(x@[i as int] != y@[i as int]);
            return false;
        }
        i = i + 1;
    }
    assert(x@ =~= y@);
    true
}

/// A copy of some bytes.
pub fn copy_bytes(v: &Vec<u8>) -> (r: Vec<u8>)
    ensures
        r@ == v@,
{
    let mut r: Vec<u8> = Vec::new();
    let mut i: usize = 0;
    while i < v.len()
        invariant
            i <= v@.len(),
            r@ == v@.take(i as int),
        decreases v.len() - i,
    {
        r.push(v[i]);
        i = i + 1;
        assert(r@ =~= v@.take(i as int));
    }
    assert(v@.take(i as int) =~= v@);
    r
}

/// The Matroska codec ID of a stream's codec.
fn codec_id_for(name: &Option<String>) -> (r: String)
    ensures
        r@ == codec_id_of(match name {
            Some(n) => Some(n@),
            None => None,
        }),
{
    match name {
        Some(n) => {
            let s = n.as_str();
            if str_eq(s, "opus") {
                "A_OPUS".to_owned()
            } else if str_eq(s, "vorbis") {
                "A_VORBIS".to_owned()
            } else if str_eq(s, "av1") {
                "V_AV1".to_owned()
            } else if str_eq(s, "vp8") {
                "V_VP8".to_owned()
            } else if str_eq(s, "vp9") {
                "V_VP9".to_owned()
            } else {
                "INVALID_CODEC".to_owned()
            }
        },
        None => "INVALID_CODEC".to_owned(),
    }
}

/// The track that describes a stream: its ID, number (its index plus one),
/// codec, duration, codec data, delay and pre-roll, and its video or audio
/// description; the other fields keep their defaults.
pub fn stream_to_track(s: &StreamDesc) -> (t: TrackEntry)
    requires
        s.index < u64::MAX,
    ensures
        t.track_uid == s.id as u64,
        t.track_number == s.index as u64 + 1,
        t.codec_id@ == codec_id_of(match s.codec_id {
            Some(n) => Some(n@),
            None => None,
        }),
        t.default_duration == s.duration,
        t.codec_delay == s.delay as u64,
        match (t.codec_private, s.extradata) {
            (Some(a), Some(b)) => a@ == b@,
            (None, None) => true,
            _ => false,
        },
        t.seek_pre_roll == s.convergence_window as u64,
        track_defaults(t),
        match s.kind {
            Some(StreamKind::Video { width, height, matrix_coefficients, transfer_characteristics, primaries }) => {
                &&& t.track_type == 1
                &&& t.audio is None
                &&& t.video matches Some(v) && video_of(v, width, height, matrix_coefficients, transfer_characteristics, primaries)
            },
            Some(StreamKind::Audio { rate }) => {
                &&& t.track_type == 2
                &&& t.video is None
                &&& t.audio matches Some(a) && a.sampling_frequency == rate && a.channels == 1
                    && a.output_sampling_frequency is None && a.bit_depth is None
            },
            None => t.track_type == 0 && t.video is None && t.audio is None,
        },
{
    let codec_id = codec_id_for(&s.codec_id);
    let mut t = TrackEntry {
        track_number: s.index as u64 + 1,
        track_uid: #[verifier::truncate] (s.id as u64),
        track_type: 0,
        flag_enabled: 0,
        flag_default: 0,
        flag_forced: 0,
        flag_lacing: 0,
        default_duration: s.duration,
        default_decoded_field_duration: None,
        track_timestamp_scale: EbmlFloat::F64(0),
        max_block_addition_id: 0,
        name: None,
        language: String::new(),
        language_ietf: None,
        codec_id,
        codec_private: match &s.extradata {
            Some(v) => Some(copy_bytes(v)),
            None => None,
        },
        codec_name: None,
        attachment_link: None,
        codec_delay: s.delay as u64,
        seek_pre_roll: s.convergence_window as u64,
        video: None,
        audio: None,
        track_translate: Vec::new(),
        track_operation: None,
        content_encodings: None,
        stream_index: 0,
    };
    match s.kind {
        Some(StreamKind::Video { width, height, matrix_coefficients, transfer_characteristics, primaries }) => {
            t.track_type = crate::elements::TrackType::Video.to_u64();
            t.video = Some(Video {
                flag_interlaced: 0,
                field_order: 0,
                stereo_mode: 0,
                alpha_mode: 0,
                old_stereo_mode: None,
                pixel_width: width as u64,
                pixel_height: height as u64,
                pixel_crop_bottom: 0,
                pixel_crop_top: 0,
                pixel_crop_left: 0,
                pixel_crop_right: 0,
                display_width: None,
                display_height: None,
                display_unit: 0,
                colour_space: None,
                colour: Some(Colour {
                    matrix_coefficients,
                    bits_per_channel: 0,
                    chroma_subsampling_horz: None,
                    chroma_subsampling_vert: None,
                    cb_subsampling_horz: None,
                    cb_subsampling_vert: None,
                    chroma_siting_horz: 0,
                    chroma_siting_vert: 0,
                    range: 0,
                    transfer_characteristics,
                    primaries,
                    max_cll: None,
                    max_fall: None,
                    mastering_metadata: None,
                }),
                projection: None,
            });
        },
        Some(StreamKind::Audio { rate }) => {
            t.track_type = crate::elements::TrackType::Audio.to_u64();
            t.audio = Some(Audio {
                sampling_frequency: rate,
                output_sampling_frequency: None,
                channels: 1,
                bit_depth: None,
            });
        },
        None => {},
    }
    t
}

/// The app name written in the Info.
pub open spec fn rust_av() -> Seq<char> {
    "rust-av"@
}

impl MkvMuxer {
    /// Sets the tracks, one per stream, and the Info: the muxing and writing
    /// app, the duration, and a timestamp scale of one millisecond.
    pub fn set_global_info(&mut self, streams: &Vec<StreamDesc>, duration: Option<EbmlFloat>) -> (r: Result<(), MuxError>)
        requires
            forall|i: int| 0 <= i < streams@.len() ==> (#[trigger] streams@[i]).index < u64::MAX,
        ensures
            r is Ok,
            final(self).header == old(self).header,
            final(self).seek_head == old(self).seek_head,
            final(self).blocks == old(self).blocks,
            final(self).blocks_len == old(self).blocks_len,
            final(self).timecode == old(self).timecode,
            final(self).tracks matches Some(ts) && ts.tracks@.len() == streams@.len()
                && forall|i: int| 0 <= i < streams@.len() ==> (#[trigger] ts.tracks@[i]).track_number == streams@[i].index as u64 + 1
                    && ts.tracks@[i].track_uid == streams@[i].id as u64,
            final(self).info matches Some(info) && {
                &&& info.muxing_app@ == rust_av() && info.writing_app@ == rust_av()
                &&& info.duration == duration && info.timestamp_scale == 1000000
                &&& info.segment_uid is None && info.segment_filename is None
                &&& info.prev_uid is None && info.prev_filename is None
                &&& info.next_uid is None && info.next_filename is None
                &&& info.segment_family is None && info.date_utc is None && info.title is None
            },
    {
        let mut tracks: Vec<TrackEntry> = Vec::new();
        let mut i: usize = 0;
        while i < streams.len()
            invariant
                i <= streams@.len(),
                tracks@.len() == i,
                forall|i: int| 0 <= i < streams@.len() ==> (#[trigger] streams@[i]).index < u64::MAX,
                forall|j: int| 0 <= j < i ==> (#[trigger] tracks@[j]).track_number == streams@[j].index as u64 + 1
                    && tracks@[j].track_uid == streams@[j].id as u64,
            decreases streams.len() - i,
        {
            tracks.push(stream_to_track(&streams[i]));
            i = i + 1;
        }
        self.tracks = Some(Tracks { tracks });
        self.info = Some(Info {
            segment_uid: None,
            segment_filename: None,
            prev_uid: None,
            prev_filename: None,
            next_uid: None,
            next_filename: None,
            segment_family: None,
            timestamp_scale: 1000000,
            duration,
            date_utc: None,
            title: None,
            muxing_app: "rust-av".to_owned(),
            writing_app: "rust-av".to_owned(),
        });
        Ok(())
    }
}

/// A packet to mux.
#[derive(Debug, Clone)]
pub struct PacketDesc {
    pub stream_index: usize,
    pub pts: Option<i64>,
    pub dts: Option<i64>,
    pub is_key: bool,
    pub data: Vec<u8>,
}

/// The timestamp of a packet: its presentation time, else its decoding
/// time, else 0.
pub open spec fn packet_time(p: PacketDesc) -> i64 {
    match p.pts {
        Some(v) => v,
        None => match p.dts {
            Some(v) => v,
            None => 0,
        },
    }
}

/// The SimpleBlock header of a packet: its track is its stream index plus
/// one, its timestamp the low 16 bits of its time.
pub open spec fn packet_block(p: PacketDesc) -> SimpleBlock {
    SimpleBlock {
        track_number: (p.stream_index + 1) as u64,
        timestamp: packet_time(p) as i16,
        keyframe: p.is_key,
        invisible: false,
        lacing: Lacing::NoLacing,
        discardable: false,
    }
}

/// The time of a packet is its presentation time when it has one, else its
/// decoding time, else 0; the SimpleBlock gathered for it carries the low 16
/// bits of that time, the stream index plus one as its track, the packet's
/// keyframe flag, and no other flag or lacing.
pub proof fn law_packet_block(p: PacketDesc)
    requires
        p.stream_index < u64::MAX,
    ensures
        p.pts matches Some(v) ==> packet_time(p) == v && packet_block(p).timestamp == v as i16,
        p.pts is None ==> (p.dts matches Some(v) ==> packet_time(p) == v && packet_block(p).timestamp == v as i16),
        p.pts is None && p.dts is None ==> packet_time(p) == 0 && packet_block(p).timestamp == 0,
        packet_block(p).track_number == p.stream_index + 1,
        packet_block(p).keyframe == p.is_key,
        !packet_block(p).invisible && !packet_block(p).discardable,
        packet_block(p).lacing == Lacing::NoLacing,
{
}

/// The bytes of a list of byte strings.
pub open spec fn blocks_view(bs: Seq<Vec<u8>>) -> Seq<Seq<u8>> {
    bs.map_values(|v: Vec<u8>| v@)
}

/// What [gen_mkv_prefix] does.
pub open spec fn spec_gen_mkv_prefix(
    header: EbmlHeader,
    seek_head: SeekHead,
    info: Info,
    tracks: Tracks,
    buf: Seq<u8>,
    pos: usize,
) -> GenOut {
    then(spec_gen_ebml_header(header, buf, pos), |b: Seq<u8>, p: usize|
    then(spec_gen_seek_head(seek_head, b, p), |b: Seq<u8>, p: usize|
    then(spec_gen_info(info, b, p), |b: Seq<u8>, p: usize|
    spec_gen_tracks(tracks, b, p))))
}

/// Writes the start of a Matroska file: the EBML Header, then the SeekHead,
/// the Info and the Tracks, one after the other.
pub fn gen_mkv_prefix(
    header: &EbmlHeader,
    seek_head: &SeekHead,
    info: &Info,
    tracks: &Tracks,
    buf: &mut Vec<u8>,
    pos: usize,
) -> (r: Result<usize, GenError>)
    requires
        header.spec_capacity() <= usize::MAX,
        seek_head.spec_capacity() <= usize::MAX,
        info.spec_capacity() <= usize::MAX,
        tracks.spec_capacity() <= usize::MAX,
    ensures
        (final(buf)@, r) == spec_gen_mkv_prefix(*header, *seek_head, *info, *tracks, old(buf)@, pos),
        final(buf)@.len() == old(buf)@.len(),
{
    let p = match gen_ebml_header(header, buf, pos) {
        Ok(q) => q,
        Err(e) => return Err(e),
    };
    let p = match gen_seek_head(seek_head, buf, p) {
        Ok(q) => q,
        Err(e) => return Err(e),
    };
    let p = match gen_info(info, buf, p) {
        Ok(q) => q,
        Err(e) => return Err(e),
    };
    gen_tracks(tracks, buf, p)
}

/// The number of bytes of the blocks `bs` together.
pub open spec fn blocks_total(bs: Seq<Seq<u8>>) -> nat
    decreases bs.len(),
{
    if bs.len() == 0 {
        0
    } else {
        blocks_total(bs.drop_last()) + bs.last().len()
    }
}

impl MkvMuxer {
    /// The count of the bytes gathered is the size of the blocks gathered.
    pub open spec fn counts_blocks(&self) -> bool {
        self.blocks_len == blocks_total(blocks_view(self.blocks@))
    }
}

/// A cluster at timestamp `tc` whose SimpleBlocks are the blocks `bs`, in
/// their order, with nothing else set.
pub open spec fn cluster_of(c: Cluster, tc: u64, bs: Seq<Seq<u8>>) -> bool {
    &&& c.timestamp == tc && c.position is None && c.prev_size is None
    &&& c.block_group@.len() == 0
    &&& blocks_view(c.simple_block@) == bs
}

/// What writing a cluster gives: its bytes, written into a buffer of its
/// size grown until they fit; nothing when that fails or when its size is
/// more than a buffer can hold.
pub open spec fn cluster_bytes(c: Cluster) -> Option<Seq<u8>> {
    if c.spec_size(0x1F43B675) > usize::MAX {
        None
    } else {
        match spec_grow(|b: Seq<u8>| spec_gen_cluster(c, b, 0), zeros(c.spec_size(0x1F43B675))) {
            Ok(out) => Some(out),
            Err(_) => None,
        }
    }
}

/// The cluster of `blocks` at timestamp `tc`.
fn cluster_from(blocks: &Vec<Vec<u8>>, tc: u64) -> (c: Cluster)
    ensures
        cluster_of(c, tc, blocks_view(blocks@)),
{
    let mut simple: Vec<Vec<u8>> = Vec::new();
    let mut i: usize = 0;
    while i < blocks.len()
        invariant
            i <= blocks@.len(),
            simple@.len() == i,
            blocks_view(simple@) == blocks_view(blocks@.take(i as int)),
        decreases blocks.len() - i,
    {
        let ghost before = simple@;
        simple.push(copy_bytes(&blocks[i]));
        proof {
            assert(blocks_view(simple@) =~= blocks_view(before).push(blocks@[i as int]@));
            assert(blocks_view(blocks@.take(i + 1)) =~= blocks_view(blocks@.take(i as int)).push(blocks@[i as int]@));
        }
        i = i + 1;
    }
    assert(blocks@.take(i as int) =~= blocks@);
    Cluster { timestamp: tc, position: None, prev_size: None, simple_block: simple, block_group: Vec::new() }
}

/// The bytes of an element with ID `id` and `cap` bytes of data, when they
/// can be counted in a `usize`.
fn elem_total_checked(id: u64, cap: usize) -> (r: Option<usize>)
    requires
        id < u64::MAX,
    ensures
        r == (if crate::serializer::ebml::spec_elem_total(id, cap as nat) <= usize::MAX {
            Some(crate::serializer::ebml::spec_elem_total(id, cap as nat) as usize)
        } else {
            None::<usize>
        }),
{
    proof {
        lemma_small_elem(id, 0);
    }
    let id_size = crate::serializer::ebml::vid_size(id);
    let tag: u8 = match crate::serializer::ebml::vint_size(cap as u64) {
        Ok(w) => w,
        Err(_) => 0,
    };
    let head = id_size as usize + tag as usize;
    if cap > usize::MAX - head {
        None
    } else {
        Some(head + cap)
    }
}

/// The size of a cluster written as an element, when it can be counted in a
/// `usize`.
fn cluster_size(c: &Cluster) -> (r: Option<usize>)
    ensures
        r == (if c.spec_size(0x1F43B675) <= usize::MAX {
            Some(c.spec_size(0x1F43B675) as usize)
        } else {
            None::<usize>
        }),
{
    proof {
        lemma_small_elem(0xE7, c.timestamp.spec_capacity());
        lemma_small_elem(0xA7, c.position.spec_capacity());
        lemma_small_elem(0xAB, c.prev_size.spec_capacity());
        lemma_small_elem(0x1F43B675, 0);
        lemma_small_elem(0xA3, 0);
        assert(c.timestamp.spec_capacity() <= 8);
        assert(c.position.spec_capacity() <= 8);
        assert(c.prev_size.spec_capacity() <= 8);
    }
    let fixed = c.timestamp.size(0xE7) + c.position.size(0xA7) + c.prev_size.size(0xAB);
    let mut total: usize = 0;
    let mut i: usize = 0;
    while i < c.simple_block.len()
        invariant
            i <= c.simple_block@.len(),
            total == crate::serializer::ebml::total_len(c.simple_block@.take(i as int)),
        decreases c.simple_block.len() - i,
    {
        proof {
            assert(c.simple_block@.take(i + 1).drop_last() =~= c.simple_block@.take(i as int));
        }
        if c.simple_block[i].len() > usize::MAX - total {
            proof {
                crate::serializer::ebml::lemma_total_len_prefix(c.simple_block@, i + 1);
            }
            return None;
        }
        total = total + c.simple_block[i].len();
        i = i + 1;
    }
    assert(c.simple_block@.take(i as int) =~= c.simple_block@);
    let blocks = match elem_total_checked(0xA3, total) {
        Some(n) => n,
        None => return None,
    };
    if blocks > usize::MAX - fixed {
        return None;
    }
    elem_total_checked(0x1F43B675, fixed + blocks)
}

/// An element takes at most 17 bytes more than its data.
proof fn lemma_small_elem(id: u64, cap: nat)
    requires
        id < u64::MAX,
    ensures
        crate::serializer::ebml::spec_elem_total(id, cap) <= cap + 17,
{
    vstd::arithmetic::power2::lemma2_to64();
    crate::serializer::ebml::lemma_bit_len_bound((id + 1) as nat, 64);
}

/// Writes a cluster: its bytes, into a buffer of its size grown until they
/// fit; a cluster whose size is more than a buffer can hold is refused.
fn write_cluster(c: &Cluster) -> (r: Result<Vec<u8>, MuxError>)
    ensures
        match cluster_bytes(*c) {
            Some(out) => r matches Ok(v) && v@ == out,
            None => r == Err::<Vec<u8>, MuxError>(MuxError::InvalidData),
        },
{
    let size = match cluster_size(c) {
        Some(n) => n,
        None => return Err(MuxError::InvalidData),
    };
    let mut buf: Vec<u8> = Vec::new();
    append_zeros(&mut buf, size);
    assert(buf@ =~= zeros(c.spec_size(0x1F43B675)));
    let ghost b0 = buf@;
    loop
        invariant
            c.spec_capacity() <= usize::MAX,
            c.spec_size(0x1F43B675) <= usize::MAX,
            b0 == zeros(c.spec_size(0x1F43B675)),
            spec_grow(|b: Seq<u8>| spec_gen_cluster(*c, b, 0), buf@) == spec_grow(|b: Seq<u8>| spec_gen_cluster(*c, b, 0), b0),
        decreases usize::MAX - buf.len(),
    {
        match gen_cluster(c, &mut buf, 0) {
            Err(GenError::BufferTooSmall(sz)) => {
                let len = buf.len();
                if sz == 0 || sz > usize::MAX - len {
                    return Err(MuxError::InvalidData);
                }
                append_zeros(&mut buf, sz);
            },
            Err(_) => {
                return Err(MuxError::InvalidData);
            },
            Ok(sz) => {
                buf.truncate(sz);
                return Ok(buf);
            },
        }
    }
}

/// Writes the header of a SimpleBlock into `v`, growing it until it fits,
/// and keeps the bytes written.
fn write_simple_block_header(s: &SimpleBlock, buf: &mut Vec<u8>) -> (r: Result<(), MuxError>)
    ensures
        match spec_grow(|b: Seq<u8>| spec_gen_simple_block_header(*s, b, 0), old(buf)@) {
            Ok(out) => r == Ok::<(), MuxError>(()) && final(buf)@ == out,
            Err(_) => r == Err::<(), MuxError>(MuxError::InvalidData),
        },
{
    let ghost b0 = buf@;
    loop
        invariant
            b0 == old(buf)@,
            spec_grow(|b: Seq<u8>| spec_gen_simple_block_header(*s, b, 0), buf@) == spec_grow(|b: Seq<u8>| spec_gen_simple_block_header(*s, b, 0), b0),
        decreases usize::MAX - buf.len(),
    {
        match gen_simple_block_header(s, buf, 0) {
            Err(GenError::BufferTooSmall(sz)) => {
                let len = buf.len();
                if sz == 0 || sz > usize::MAX - len {
                    return Err(MuxError::InvalidData);
                }
                append_zeros(buf, sz);
            },
            Err(_) => {
                return Err(MuxError::InvalidData);
            },
            Ok(sz) => {
                buf.truncate(sz);
                return Ok(());
            },
        }
    }
}

/// The size of gathered blocks from which a cluster is written out.
pub open spec fn cluster_threshold() -> nat {
    5242880
}

impl MkvMuxer {
    /// Adds a packet as a SimpleBlock (its header, then its data) to the
    /// cluster being gathered, and starts the cluster's timestamp with it; a
    /// packet that comes while a timestamp is started is refused (after its
    /// block was added). On a keyframe, or once the blocks take 5242880
    /// bytes, the cluster is written out and returned, and the blocks are
    /// dropped.
    pub fn write_packet(&mut self, pkt: &PacketDesc) -> (r: Result<Option<Vec<u8>>, MuxError>)
        requires
            pkt.stream_index < u64::MAX,
        ensures
            final(self).header == old(self).header,
            final(self).seek_head == old(self).seek_head,
            final(self).info == old(self).info,
            final(self).tracks == old(self).tracks,
            old(self).counts_blocks() ==> final(self).counts_blocks(),
            match spec_grow(|b: Seq<u8>| spec_gen_simple_block_header(packet_block(*pkt), b, 0), Seq::empty()) {
                Err(_) => r == Err::<Option<Vec<u8>>, MuxError>(MuxError::InvalidData) && *final(self) == *old(self),
                Ok(h) => {
                    let block = h + pkt.data@;
                    let bs = blocks_view(old(self).blocks@).push(block);
                    let len = old(self).blocks_len + block.len();
                    if len > usize::MAX {
                        r == Err::<Option<Vec<u8>>, MuxError>(MuxError::InvalidData) && *final(self) == *old(self)
                    } else if old(self).timecode is Some {
                        &&& r == Err::<Option<Vec<u8>>, MuxError>(MuxError::InvalidData)
                        &&& blocks_view(final(self).blocks@) == bs
                        &&& final(self).blocks_len == len
                        &&& final(self).timecode == old(self).timecode
                    } else if !pkt.is_key && len < cluster_threshold() {
                        &&& r == Ok::<Option<Vec<u8>>, MuxError>(None)
                        &&& blocks_view(final(self).blocks@) == bs
                        &&& final(self).blocks_len == len
                        &&& final(self).timecode == Some(packet_time(*pkt) as u64)
                    } else {
                        &&& final(self).timecode is None
                        &&& exists|c: Cluster| #[trigger] cluster_of(c, packet_time(*pkt) as u64, bs) && match cluster_bytes(c) {
                            Some(out) => r matches Ok(Some(v)) && v@ == out && final(self).blocks@.len() == 0
                                && final(self).blocks_len == 0,
                            None => r == Err::<Option<Vec<u8>>, MuxError>(MuxError::InvalidData)
                                && blocks_view(final(self).blocks@) == bs && final(self).blocks_len == len,
                        }
                    }
                },
            },
    {
        let ts: i64 = match pkt.pts {
            Some(v) => v,
            None => match pkt.dts {
                Some(v) => v,
                None => 0,
            },
        };
        let s = SimpleBlock {
            track_number: pkt.stream_index as u64 + 1,
            timestamp: #[verifier::truncate] (ts as i16),
            keyframe: pkt.is_key,
            invisible: false,
            lacing: Lacing::NoLacing,
            discardable: false,
        };
        assert(s == packet_block(*pkt));
        let mut v: Vec<u8> = Vec::new();
        match write_simple_block_header(&s, &mut v) {
            Ok(()) => {},
            Err(e) => return Err(e),
        }
        let ghost h = v@;
        let mut k: usize = 0;
        while k < pkt.data.len()
            invariant
                k <= pkt.data@.len(),
                v@ == h + pkt.data@.take(k as int),
            decreases pkt.data.len() - k,
        {
            v.push(pkt.data[k]);
            k = k + 1;
            assert(v@ =~= h + pkt.data@.take(k as int));
        }
        assert(pkt.data@.take(k as int) =~= pkt.data@);
        let len = v.len();
        if len > usize::MAX - self.blocks_len {
            return Err(MuxError::InvalidData);
        }
        let ghost old_blocks = self.blocks@;
        self.blocks.push(v);
        self.blocks_len = self.blocks_len + len;
        proof {
            assert(blocks_view(self.blocks@) =~= blocks_view(old_blocks).push(h + pkt.data@));
            assert(blocks_view(self.blocks@).drop_last() =~= blocks_view(old_blocks));
        }
        if self.timecode.is_some() {
            return Err(MuxError::InvalidData);
        }
        self.timecode = Some(#[verifier::truncate] (ts as u64));
        if pkt.is_key || self.blocks_len >= 5242880 {
            let tc = match self.timecode.take() {
                Some(t) => t,
                None => 0,
            };
            let cluster = cluster_from(&self.blocks, tc);
            let bytes = match write_cluster(&cluster) {
                Ok(b) => b,
                Err(e) => return Err(e),
            };
            self.blocks.truncate(0);
            self.blocks_len = 0;
            assert(blocks_view(self.blocks@) =~= Seq::<Seq<u8>>::empty());
            return Ok(Some(bytes));
        }
        Ok(None)
    }

    /// Writes out the cluster of the blocks gathered, if there are any, and
    /// ends its timestamp; the blocks are kept.
    pub fn write_trailer(&mut self) -> (r: Result<Option<Vec<u8>>, MuxError>)
        requires
            old(self).blocks@.len() > 0 ==> old(self).timecode is Some,
        ensures
            final(self).header == old(self).header,
            final(self).seek_head == old(self).seek_head,
            final(self).info == old(self).info,
            final(self).tracks == old(self).tracks,
            final(self).blocks == old(self).blocks,
            final(self).blocks_len == old(self).blocks_len,
            old(self).blocks@.len() == 0 ==> r == Ok::<Option<Vec<u8>>, MuxError>(None) && final(self).timecode == old(self).timecode,
            old(self).blocks@.len() > 0 ==> final(self).timecode is None && exists|c: Cluster|
                #[trigger] cluster_of(c, old(self).timecode->Some_0, blocks_view(old(self).blocks@)) && match cluster_bytes(c) {
                    Some(out) => r matches Ok(Some(v)) && v@ == out,
                    None => r == Err::<Option<Vec<u8>>, MuxError>(MuxError::InvalidData),
                },
    {
        let nb = self.blocks.len();
        if nb > 0 {
            let tc = match self.timecode.take() {
                Some(t) => t,
                None => 0,
            };
            let cluster = cluster_from(&self.blocks, tc);
            let bytes = match write_cluster(&cluster) {
                Ok(b) => b,
                Err(e) => return Err(e),
            };
            return Ok(Some(bytes));
        }
        Ok(None)
    }
}

/// The bytes of a writer run from an empty buffer.
pub open spec fn grown_bytes(w: spec_fn(Seq<u8>) -> GenOut) -> Result<Seq<u8>, GenError> {
    spec_grow(w, Seq::empty())
}

/// The bytes of the Info of a muxer, none when it has none.
pub open spec fn info_bytes(i: Option<Info>) -> Result<Seq<u8>, GenError> {
    match i {
        Some(x) => grown_bytes(|b: Seq<u8>| spec_gen_info(x, b, 0)),
        None => Ok(Seq::empty()),
    }
}

/// The bytes of the Tracks of a muxer, none when it has none.
pub open spec fn tracks_bytes(t: Option<Tracks>) -> Result<Seq<u8>, GenError> {
    match t {
        Some(x) => grown_bytes(|b: Seq<u8>| spec_gen_tracks(x, b, 0)),
        None => Ok(Seq::empty()),
    }
}

/// The size of a SeekHead with these entries.
pub open spec fn seek_head_size(q: Seq<Seek>) -> nat {
    crate::serializer::ebml::spec_elem_total(0x114D9B74, crate::serializer::elements::sizes_total(q, 0x4DBB))
}

/// The SeekHead entries after the header is written: entries for the Info,
/// the Tracks and the first Cluster are added, then the first three entries
/// get, in turn, the size of the SeekHead, plus that of the Info, plus that
/// of the Tracks (each size as the SeekHead then is).
pub open spec fn header_seeks(q: Seq<Seek>, info_len: nat, tracks_len: nat) -> Seq<Seek> {
    let q0 = q.push(Seek { id: [0x15u8, 0x49u8, 0xA9u8, 0x66u8], position: 0 })
        .push(Seek { id: [0x16u8, 0x54u8, 0xAEu8, 0x6Bu8], position: 0 })
        .push(Seek { id: [0x1Fu8, 0x43u8, 0xB6u8, 0x75u8], position: 0 });
    let info_size = crate::serializer::ebml::spec_elem_total(0x1549A966, info_len);
    let tracks_size = crate::serializer::ebml::spec_elem_total(0x1654AE6B, tracks_len);
    let q1 = q0.update(0, Seek { id: q0[0].id, position: seek_head_size(q0) as u64 });
    let q2 = q1.update(1, Seek { id: q1[1].id, position: (seek_head_size(q1) + info_size) as u64 });
    q2.update(2, Seek { id: q2[2].id, position: (seek_head_size(q2) + info_size + tracks_size) as u64 })
}

/// The counts that writing the header makes, each in a `usize`: the size of
/// the SeekHead as it is before each of the first three entries is set,
/// plus that of the Info, plus that of the Tracks, and the size of the data
/// of the SeekHead written.
pub open spec fn header_counts_fit(q: Seq<Seek>, info_len: nat, tracks_len: nat) -> bool {
    let q0 = q.push(Seek { id: [0x15u8, 0x49u8, 0xA9u8, 0x66u8], position: 0 })
        .push(Seek { id: [0x16u8, 0x54u8, 0xAEu8, 0x6Bu8], position: 0 })
        .push(Seek { id: [0x1Fu8, 0x43u8, 0xB6u8, 0x75u8], position: 0 });
    let info_size = crate::serializer::ebml::spec_elem_total(0x1549A966, info_len);
    let tracks_size = crate::serializer::ebml::spec_elem_total(0x1654AE6B, tracks_len);
    let q1 = q0.update(0, Seek { id: q0[0].id, position: seek_head_size(q0) as u64 });
    let q2 = q1.update(1, Seek { id: q1[1].id, position: (seek_head_size(q1) + info_size) as u64 });
    &&& seek_head_size(q0) <= usize::MAX
    &&& seek_head_size(q1) + info_size <= usize::MAX
    &&& seek_head_size(q2) + info_size + tracks_size <= usize::MAX
    &&& crate::serializer::elements::sizes_total(header_seeks(q, info_len, tracks_len), 0x4DBB) <= usize::MAX
}

/// A Seek takes at most 63 bytes.
proof fn lemma_seek_small(s: Seek)
    ensures
        s.spec_size(0x4DBB) <= 63,
{
    lemma_small_elem(0x53AB, 4);
    lemma_small_elem(0x53AC, s.position.spec_capacity());
    lemma_small_elem(0x4DBB, s.spec_capacity());
}

/// The size of the data of a SeekHead, when it can be counted in a `usize`.
fn seek_head_capacity_checked(sh: &SeekHead) -> (r: Option<usize>)
    ensures
        r == (if crate::serializer::elements::sizes_total(sh.positions@, 0x4DBB) <= usize::MAX {
            Some(crate::serializer::elements::sizes_total(sh.positions@, 0x4DBB) as usize)
        } else {
            None::<usize>
        }),
{
    let q = &sh.positions;
    let mut total: usize = 0;
    let mut i: usize = 0;
    while i < q.len()
        invariant
            i <= q@.len(),
            q@ == sh.positions@,
            total == crate::serializer::elements::sizes_total(q@.take(i as int), 0x4DBB),
        decreases q.len() - i,
    {
        proof {
            assert(q@.take(i + 1).drop_last() =~= q@.take(i as int));
            assert(q@.take(i + 1).last() == q@[i as int]);
            lemma_seek_small(q@[i as int]);
        }
        let n = q[i].size(0x4DBB);
        if n > usize::MAX - total {
            proof {
                assert(crate::serializer::elements::sizes_total(q@.take(i + 1), 0x4DBB) == total + n);
                crate::serializer::elements::lemma_sizes_total_parts(q@, 0x4DBB, i + 1);
            }
            return None;
        }
        total = total + n;
        i = i + 1;
    }
    assert(q@.take(i as int) =~= q@);
    Some(total)
}

/// The size of a SeekHead written as an element, when it can be counted in
/// a `usize`.
fn seek_head_size_checked(sh: &SeekHead) -> (r: Option<usize>)
    ensures
        r == (if seek_head_size(sh.positions@) <= usize::MAX {
            Some(seek_head_size(sh.positions@) as usize)
        } else {
            None::<usize>
        }),
{
    match seek_head_capacity_checked(sh) {
        Some(total) => elem_total_checked(0x114D9B74, total),
        None => {
            proof {
                lemma_small_elem(0x114D9B74, crate::serializer::elements::sizes_total(sh.positions@, 0x4DBB));
            }
            None
        },
    }
}

impl MkvMuxer {
    /// The header of a file: the EBML Header, the head of a Segment of
    /// unknown size, the SeekHead (given entries for the Info, the Tracks and
    /// the first Cluster), the Info and the Tracks.
    #[verifier::spinoff_prover]
    #[verifier::rlimit(50)]
    pub fn write_header(&mut self) -> (r: Result<Vec<u8>, MuxError>)
        requires
            old(self).header.spec_capacity() <= usize::MAX,
            old(self).info matches Some(x) ==> x.spec_capacity() <= usize::MAX,
            old(self).tracks matches Some(x) ==> x.spec_capacity() <= usize::MAX,
        ensures
            final(self).header == old(self).header,
            final(self).info == old(self).info,
            final(self).tracks == old(self).tracks,
            final(self).blocks == old(self).blocks,
            final(self).blocks_len == old(self).blocks_len,
            final(self).timecode == old(self).timecode,
            r matches Ok(out) ==> {
                &&& grown_bytes(|b: Seq<u8>| spec_gen_ebml_header(old(self).header, b, 0)) matches Ok(e)
                &&& grown_bytes(|b: Seq<u8>| spec_gen_segment_header_unknown_size(b, 0)) matches Ok(sg)
                &&& info_bytes(old(self).info) matches Ok(inf)
                &&& tracks_bytes(old(self).tracks) matches Ok(tr)
                &&& header_counts_fit(old(self).seek_head.positions@, inf.len(), tr.len())
                &&& final(self).seek_head.positions@ == header_seeks(old(self).seek_head.positions@, inf.len(), tr.len())
                &&& grown_bytes(|b: Seq<u8>| spec_gen_seek_head(final(self).seek_head, b, 0)) matches Ok(sh)
                &&& out@ == e + sg + sh + inf + tr
            },
            r is Err ==> {
                ||| grown_bytes(|b: Seq<u8>| spec_gen_ebml_header(old(self).header, b, 0)) is Err
                ||| grown_bytes(|b: Seq<u8>| spec_gen_segment_header_unknown_size(b, 0)) is Err
                ||| info_bytes(old(self).info) is Err
                ||| tracks_bytes(old(self).tracks) is Err
                ||| !header_counts_fit(
                    old(self).seek_head.positions@,
                    info_bytes(old(self).info)->Ok_0.len(),
                    tracks_bytes(old(self).tracks)->Ok_0.len(),
                )
                ||| grown_bytes(|b: Seq<u8>| spec_gen_seek_head(final(self).seek_head, b, 0)) is Err
            },
    {
        let mut buf: Vec<u8> = Vec::new();
        let mut ebml_header: Vec<u8> = Vec::new();
        match self.write_ebml_header(&mut ebml_header) {
            Ok(()) => {},
            Err(e) => return Err(e),
        }
        let mut segment_header: Vec<u8> = Vec::new();
        match self.write_segment_header(&mut segment_header, 127) {
            Ok(()) => {},
            Err(e) => return Err(e),
        }
        buf.append(&mut ebml_header);
        buf.append(&mut segment_header);
        let mut info: Vec<u8> = Vec::new();
        match self.write_info(&mut info) {
            Ok(()) => {},
            Err(e) => return Err(e),
        }
        let mut tracks: Vec<u8> = Vec::new();
        match self.write_tracks(&mut tracks) {
            Ok(()) => {},
            Err(e) => return Err(e),
        }
        let ghost q = self.seek_head.positions@;
        let ghost fit = header_counts_fit(q, info@.len(), tracks@.len());
        let info_size = match elem_total_checked(0x1549A966, info.len()) {
            Some(n) => n,
            None => return Err(MuxError::InvalidData),
        };
        let tracks_size = match elem_total_checked(0x1654AE6B, tracks.len()) {
            Some(n) => n,
            None => return Err(MuxError::InvalidData),
        };
        self.seek_head.positions.push(Seek { id: [0x15, 0x49, 0xA9, 0x66], position: 0 });
        self.seek_head.positions.push(Seek { id: [0x16, 0x54, 0xAE, 0x6B], position: 0 });
        self.seek_head.positions.push(Seek { id: [0x1F, 0x43, 0xB6, 0x75], position: 0 });
        let s0 = match seek_head_size_checked(&self.seek_head) {
            Some(n) => n,
            None => return Err(MuxError::InvalidData),
        };
        let id0 = self.seek_head.positions[0].id;
        self.seek_head.positions.set(0, Seek { id: id0, position: s0 as u64 });
        let s1 = match seek_head_size_checked(&self.seek_head) {
            Some(n) => n,
            None => return Err(MuxError::InvalidData),
        };
        if info_size > usize::MAX - s1 {
            return Err(MuxError::InvalidData);
        }
        let id1 = self.seek_head.positions[1].id;
        self.seek_head.positions.set(1, Seek { id: id1, position: (s1 + info_size) as u64 });
        let s2 = match seek_head_size_checked(&self.seek_head) {
            Some(n) => n,
            None => return Err(MuxError::InvalidData),
        };
        if info_size > usize::MAX - s2 || tracks_size > usize::MAX - s2 - info_size {
            return Err(MuxError::InvalidData);
        }
        let id2 = self.seek_head.positions[2].id;
        self.seek_head.positions.set(2, Seek { id: id2, position: (s2 + info_size + tracks_size) as u64 });
        proof {
            assert(self.seek_head.positions@ =~= header_seeks(q, info@.len(), tracks@.len()));
        }
        match seek_head_capacity_checked(&self.seek_head) {
            Some(_) => {},
            None => return Err(MuxError::InvalidData),
        }
        assert(fit);
        let mut seek_head: Vec<u8> = Vec::new();
        match self.write_seek_head(&mut seek_head) {
            Ok(()) => {},
            Err(e) => return Err(e),
        }
        buf.append(&mut seek_head);
        buf.append(&mut info);
        buf.append(&mut tracks);
        Ok(buf)
    }
}

} // verus!
