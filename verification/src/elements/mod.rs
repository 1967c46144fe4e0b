pub mod masters;

use vstd::prelude::*;

use crate::ebml::element::{check_id, spec_check_id};
use crate::ebml::error::{EbmlErr, EbmlResult, Error, ErrorKind, Needed, err_of, incomplete};
use crate::ebml::fields::data_of;
use crate::ebml::parse::{elem_size, spec_elem_size, spec_vint, vid, spec_vid, vint};
use crate::ebml::schema::{FieldKind, MasterId};
use crate::elements::masters::{Cluster, Info, SeekHead, TrackEntry, Tracks};
use crate::permutation::{
    checksum_ok, crc_element, range_bytes, scan_master, size_after_crc, spec_crc, spec_master,
    Slots,
};

verus! {

/// A top-level element of a Segment.
#[derive(Debug, Clone, PartialEq, Eq)]
pub enum SegmentElement {
    SeekHead(SeekHead),
    Info(Info),
    Tracks(Tracks),
    Cluster(Cluster),
    /// A Void element with the size of its data.
    Void(usize),
    /// An element of another kind: its ID and the size of its data, when
    /// that could be read.
    Unknown(u32, Option<usize>),
}

/// What [segment] returns on `s`: the Segment ID and its data size, if any.
pub open spec fn spec_segment(s: Seq<u8>) -> EbmlResult<(u32, Option<u64>)> {
    match spec_check_id(0x18538067, s) {
        Err(e) => Err(e),
        Ok((n1, id)) => match spec_vint(s.skip(n1 as int)) {
            Ok((n2, v)) => Ok(((n1 + n2) as usize, (id, Some(v)))),
            Err(EbmlErr::Error(_)) => Ok((n1, (id, None))),
            Err(EbmlErr::Incomplete(nd)) => Err(EbmlErr::Incomplete(nd)),
        },
    }
}

/// Parses the header of the Segment element (Element ID 0x18538067): its ID
/// and, when it can be read, its data size.
pub fn segment(input: &[u8]) -> (r: EbmlResult<(u32, Option<u64>)>)
    ensures
        r == spec_segment(input@),
{
    let (n1, id) = match check_id(0x18538067, input) {
        Ok(x) => x,
        Err(e) => return Err(e),
    };
    let rest = &input[n1..input.len()];
    assert(rest@ =~= input@.skip(n1 as int));
    match vint(rest) {
        Ok((n2, v)) => Ok((n1 + n2, (id, Some(v)))),
        Err(EbmlErr::Error(_)) => Ok((n1, (id, None))),
        Err(EbmlErr::Incomplete(nd)) => Err(EbmlErr::Incomplete(nd)),
    }
}

/// What [sub_element] returns on `s`: the size of a top-level element after
/// its ID, and the (start, length) of its data, which must be a valid master
/// element `m`.
pub open spec fn spec_sub_element(m: MasterId, s: Seq<u8>) -> EbmlResult<(usize, usize)> {
    match spec_elem_size(s) {
        Err(e) => Err(e),
        Ok((n1, size)) => if n1 > s.len() {
            incomplete(1)
        } else {
            let c = spec_crc(s.skip(n1 as int));
            let size2 = if c.1 is Some {
                size_after_crc(size)
            } else {
                size
            };
            let start = n1 + c.0;
            if start > s.len() {
                incomplete(1)
            } else if s.len() - start < size2 {
                incomplete((size2 - (s.len() - start)) as usize)
            } else if !checksum_ok(c.1, s.subrange(start, start + size2)) {
                err_of(0, ErrorKind::Crc32Mismatch)
            } else {
                match spec_master(m, s.subrange(start, start + size2)) {
                    Err(k) => err_of(0, k),
                    Ok(_) => Ok(((start + size2) as usize, (start as usize, size2))),
                }
            }
        },
    }
}

/// Parses the rest of a top-level element after its ID: its size, an
/// optional CRC-32 element, and its data, which must be a valid master
/// element `m`.
pub fn sub_element(m: MasterId, input: &[u8]) -> (r: EbmlResult<(usize, usize)>)
    ensures
        r == spec_sub_element(m, input@),
{
    let (n1, size) = match elem_size(input) {
        Ok(x) => x,
        Err(e) => return Err(e),
    };
    if n1 > input.len() {
        return Err(EbmlErr::Incomplete(Needed::Size(1)));
    }
    let after = &input[n1..input.len()];
    assert(after@ =~= input@.skip(n1 as int));
    let (ncrc, crc) = crc_element(after);
    let size2 = match crc {
        Some(_) => if size >= 6 {
            size - 6
        } else {
            usize::MAX - (5 - size)
        },
        None => size,
    };
    if ncrc > input.len() - n1 {
        return Err(EbmlErr::Incomplete(Needed::Size(1)));
    }
    let start = n1 + ncrc;
    if input.len() - start < size2 {
        return Err(EbmlErr::Incomplete(Needed::Size(size2 - (input.len() - start))));
    }
    let payload = &input[start..start + size2];
    assert(payload@ =~= input@.subrange(start as int, start + size2));
    match crate::ebml::parse::checksum(crc, payload) {
        Err(k) => return Err(EbmlErr::Error(Error { id: 0, kind: k })),
        Ok(_) => {},
    }
    match scan_master(m, payload) {
        Err(k) => Err(EbmlErr::Error(Error { id: 0, kind: k })),
        Ok(_) => Ok((start + size2, (start, size2))),
    }
}

/// The shape of a top-level element of a Segment: a known master element
/// with the (start, length) of its data, a Void element, or another element.
#[derive(Debug, Clone, Copy, PartialEq, Eq, Structural)]
pub enum SegmentShape {
    Master(MasterId, usize, usize),
    Void(usize),
    Unknown(u32, Option<usize>),
}

/// The master elements that [segment_element] reads, by their Element ID.
pub open spec fn segment_master(id: u32) -> Option<MasterId> {
    if id == 0x114D9B74 {
        Some(MasterId::SeekHead)
    } else if id == 0x1549A966 {
        Some(MasterId::Info)
    } else if id == 0x1F43B675 {
        Some(MasterId::Cluster)
    } else if id == 0x1654AE6B {
        Some(MasterId::Tracks)
    } else {
        None
    }
}

/// What [segment_element] reads at the start of `s`: its size and shape.
#[verifier::opaque]
pub open spec fn spec_segment_element(s: Seq<u8>) -> EbmlResult<SegmentShape> {
    match spec_vid(s) {
        Err(e) => Err(e),
        Ok((n1, id)) => if n1 > s.len() {
            incomplete(1)
        } else {
            let rest = s.skip(n1 as int);
            match segment_master(id) {
                Some(m) => match spec_sub_element(m, rest) {
                    Err(e) => Err(e),
                    Ok((n2, (st, len))) => Ok(
                        ((n1 + n2) as usize, SegmentShape::Master(m, (n1 + st) as usize, len)),
                    ),
                },
                None => match spec_elem_size(rest) {
                    Err(EbmlErr::Error(e)) => if id == 0xEC {
                        Err(EbmlErr::Error(e))
                    } else {
                        Ok((n1, SegmentShape::Unknown(id, None)))
                    },
                    Err(EbmlErr::Incomplete(nd)) => Err(EbmlErr::Incomplete(nd)),
                    Ok((n2, size)) => if n2 > rest.len() {
                        incomplete(1)
                    } else if rest.len() - n2 < size {
                        incomplete((size - (rest.len() - n2)) as usize)
                    } else if id == 0xEC {
                        Ok(((n1 + n2 + size) as usize, SegmentShape::Void(size)))
                    } else {
                        Ok(((n1 + n2 + size) as usize, SegmentShape::Unknown(id, Some(size))))
                    },
                },
            }
        },
    }
}

/// `el` is the top-level element of shape `sh` in `s`.
pub open spec fn segment_element_is(s: Seq<u8>, sh: SegmentShape, el: SegmentElement) -> bool {
    match sh {
        SegmentShape::Master(m, st, len) => match el {
            SegmentElement::SeekHead(x) => m == MasterId::SeekHead && x.models(range_bytes(s, (st, len))),
            SegmentElement::Info(x) => m == MasterId::Info && x.models(range_bytes(s, (st, len))),
            SegmentElement::Tracks(x) => m == MasterId::Tracks && x.models(range_bytes(s, (st, len))),
            SegmentElement::Cluster(x) => m == MasterId::Cluster && x.models(range_bytes(s, (st, len))),
            _ => false,
        },
        SegmentShape::Void(size) => el == SegmentElement::Void(size),
        SegmentShape::Unknown(id, size) => el == SegmentElement::Unknown(id, size),
    }
}

/// Parses a top-level element of a Segment. SeekHead, Info, Tracks and
/// Cluster elements are read whole; Void and unknown elements are skipped.
#[verifier::spinoff_prover]
#[verifier::rlimit(40)]
pub fn segment_element(input: &[u8]) -> (r: EbmlResult<SegmentElement>)
    ensures
        r is Ok <==> spec_segment_element(input@) is Ok,
        r matches Ok((n, el)) ==> (spec_segment_element(input@) matches Ok((m, sh)) && m == n
            && segment_element_is(input@, sh, el)),
        r matches Err(e) ==> spec_segment_element(input@) == Err::<(usize, SegmentShape), EbmlErr>(e),
{
    proof {
        reveal(spec_segment_element);
    }
    let (n1, id) = match vid(input) {
        Ok(x) => x,
        Err(e) => return Err(e),
    };
    if n1 > input.len() {
        return Err(EbmlErr::Incomplete(Needed::Size(1)));
    }
    let rest = &input[n1..input.len()];
    assert(rest@ =~= input@.skip(n1 as int));
    let m = if id == 0x114D9B74 {
        Some(MasterId::SeekHead)
    } else if id == 0x1549A966 {
        Some(MasterId::Info)
    } else if id == 0x1F43B675 {
        Some(MasterId::Cluster)
    } else if id == 0x1654AE6B {
        Some(MasterId::Tracks)
    } else {
        None
    };
    match m {
        Some(m) => {
            let (n2, (st, len)) = match sub_element(m, rest) {
                Ok(x) => x,
                Err(e) => return Err(e),
            };
            proof {
                assert(rest@.len() == rest.len());
                lemma_sub_element_ok(m, rest@);
            }
            assert(range_bytes(input@, ((n1 + st) as usize, len)) =~= rest@.subrange(
                st as int,
                st + len,
            ));
            let el = match read_segment_master(m, input, (n1 + st, len)) {
                Ok(el) => el,
                Err(k) => return Err(EbmlErr::Error(Error { id: 0, kind: k })),
            };
            Ok((n1 + n2, el))
        },
        None => match elem_size(rest) {
            Err(EbmlErr::Error(e)) => if id == 0xEC {
                Err(EbmlErr::Error(e))
            } else {
                Ok((n1, SegmentElement::Unknown(id, None)))
            },
            Err(EbmlErr::Incomplete(nd)) => Err(EbmlErr::Incomplete(nd)),
            Ok((n2, size)) => {
                if n2 > rest.len() {
                    return Err(EbmlErr::Incomplete(Needed::Size(1)));
                }
                if rest.len() - n2 < size {
                    return Err(EbmlErr::Incomplete(Needed::Size(size - (rest.len() - n2))));
                }
                if id == 0xEC {
                    Ok((n1 + n2 + size, SegmentElement::Void(size)))
                } else {
                    Ok((n1 + n2 + size, SegmentElement::Unknown(id, Some(size))))
                }
            },
        },
    }
}

/// The top-level master element `m` whose data is at `rg` in `input`, known
/// to be valid.
fn read_segment_master(m: MasterId, input: &[u8], rg: (usize, usize)) -> (r: Result<
    SegmentElement,
    ErrorKind,
>)
    requires
        m == MasterId::SeekHead || m == MasterId::Info || m == MasterId::Cluster || m
            == MasterId::Tracks,
        rg.0 + rg.1 <= input@.len(),
        spec_master(m, range_bytes(input@, rg)) is Ok,
    ensures
        r matches Ok(el) && segment_element_is(input@, SegmentShape::Master(m, rg.0, rg.1), el),
{
    let data = data_of(input, rg);
    match m {
        MasterId::SeekHead => match SeekHead::from_payload(data) {
            Ok(x) => Ok(SegmentElement::SeekHead(x)),
            Err(k) => Err(k),
        },
        MasterId::Info => match Info::from_payload(data) {
            Ok(x) => Ok(SegmentElement::Info(x)),
            Err(k) => Err(k),
        },
        MasterId::Cluster => match Cluster::from_payload(data) {
            Ok(x) => Ok(SegmentElement::Cluster(x)),
            Err(k) => Err(k),
        },
        _ => match Tracks::from_payload(data) {
            Ok(x) => Ok(SegmentElement::Tracks(x)),
            Err(k) => Err(k),
        },
    }
}

/// How the frames of a block are laced.
#[derive(Debug, Clone, Copy, PartialEq, Eq, Structural)]
pub enum Lacing {
    /// No lacing.
    NoLacing,
    Xiph,
    EBML,
    FixedSize,
}

/// The header of a Block.
#[derive(Debug, Clone, Copy, PartialEq, Eq, Structural)]
pub struct Block {
    pub track_number: u64,
    pub timestamp: i16,
    pub invisible: bool,
    pub lacing: Lacing,
}

/// The flags byte of a block.
#[derive(Debug, Clone, Copy, PartialEq, Eq, Structural)]
pub struct BlockFlags {
    pub keyframe: bool,
    pub invisible: bool,
    pub lacing: Lacing,
    pub discardable: bool,
}

/// The header of a SimpleBlock.
#[derive(Debug, Clone, Copy, PartialEq, Eq, Structural)]
pub struct SimpleBlock {
    pub track_number: u64,
    pub timestamp: i16,
    pub keyframe: bool,
    pub invisible: bool,
    pub lacing: Lacing,
    pub discardable: bool,
}

/// The flags of a SimpleBlock.
#[derive(Debug, Clone, Copy, PartialEq, Eq, Structural)]
pub struct SimpleBlockFlags {
    pub keyframe: bool,
    pub invisible: bool,
    pub lacing: Lacing,
    pub discardable: bool,
}

/// The number of frames in laced data.
#[derive(Debug, Clone, Copy, PartialEq, Eq, Structural)]
pub struct LacedData {
    pub frame_count: u8,
}

/// The lacing that bits 1 and 2 of a flags byte select.
pub open spec fn lacing_of(bits: u8) -> Lacing {
    if bits == 0 {
        Lacing::NoLacing
    } else if bits == 1 {
        Lacing::Xiph
    } else if bits == 2 {
        Lacing::FixedSize
    } else {
        Lacing::EBML
    }
}

/// What [block_flags] reads from a flags byte: bit 7 is the keyframe flag,
/// bit 3 the invisible flag, bits 1 and 2 the lacing, bit 0 the discardable
/// flag.
pub open spec fn spec_block_flags(data: u8) -> BlockFlags {
    BlockFlags {
        keyframe: data >= 128,
        invisible: (data / 8) % 2 == 1,
        lacing: lacing_of(((data / 2) % 4) as u8),
        discardable: data % 2 == 1,
    }
}

/// Reads the flags byte of a block.
pub fn block_flags(data: u8) -> (r: Option<BlockFlags>)
    ensures
        r == Some(spec_block_flags(data)),
{
    let lacing_data = (data / 2) % 4;
    let lacing = if lacing_data == 0 {
        Lacing::NoLacing
    } else if lacing_data == 1 {
        Lacing::Xiph
    } else if lacing_data == 2 {
        Lacing::FixedSize
    } else {
        Lacing::EBML
    };
    Some(
        BlockFlags {
            keyframe: data >= 128,
            invisible: (data / 8) % 2 == 1,
            lacing,
            discardable: data % 2 == 1,
        },
    )
}

/// The two's complement reading of two big-endian bytes.
pub open spec fn be_i16(a: u8, b: u8) -> i16 {
    let v = a * 256 + b;
    if v < 0x8000 {
        v as i16
    } else {
        (v - 0x10000) as i16
    }
}

/// Reads a big-endian `i16`.
fn read_be_i16(a: u8, b: u8) -> (r: i16)
    ensures
        r == be_i16(a, b),
{
    let v: u16 = a as u16 * 256 + b as u16;
    if v < 0x8000 {
        v as i16
    } else {
        ((v - 0x8000) as i16) + i16::MIN
    }
}

/// What [block] and [simple_block] read at the start of `s`: the track
/// number, the timestamp and the flags, and the size of this header.
pub open spec fn spec_block_header(s: Seq<u8>) -> EbmlResult<(u64, i16, BlockFlags)> {
    match spec_vint(s) {
        Err(e) => Err(e),
        Ok((n, tn)) => if n > s.len() {
            incomplete(1)
        } else if s.len() - n < 2 {
            incomplete((2 - (s.len() - n)) as usize)
        } else if s.len() - n < 3 {
            incomplete(1)
        } else {
            Ok(((n + 3) as usize, (tn, be_i16(s[n as int], s[n + 1]), spec_block_flags(s[n + 2]))))
        },
    }
}

/// Reads the header of a block: track number, timestamp and flags.
fn block_header(input: &[u8]) -> (r: EbmlResult<(u64, i16, BlockFlags)>)
    ensures
        r == spec_block_header(input@),
{
    let (n, tn) = match vint(input) {
        Ok(x) => x,
        Err(e) => return Err(e),
    };
    if n > input.len() {
        return Err(EbmlErr::Incomplete(Needed::Size(1)));
    }
    if input.len() - n < 2 {
        return Err(EbmlErr::Incomplete(Needed::Size(2 - (input.len() - n))));
    }
    if input.len() - n < 3 {
        return Err(EbmlErr::Incomplete(Needed::Size(1)));
    }
    let ts = read_be_i16(input[n], input[n + 1]);
    let flags = match block_flags(input[n + 2]) {
        Some(f) => f,
        None => return Err(EbmlErr::Incomplete(Needed::Size(1))),
    };
    Ok((n + 3, (tn, ts, flags)))
}

/// Parses the header of a Block.
pub fn block(input: &[u8]) -> (r: EbmlResult<Block>)
    ensures
        match spec_block_header(input@) {
            Ok((n, (tn, ts, f))) => r == Ok::<(usize, Block), EbmlErr>(
                (n, Block { track_number: tn, timestamp: ts, invisible: f.invisible, lacing: f.lacing }),
            ),
            Err(e) => r == Err::<(usize, Block), EbmlErr>(e),
        },
{
    match block_header(input) {
        Ok((n, (tn, ts, f))) => Ok(
            (n, Block { track_number: tn, timestamp: ts, invisible: f.invisible, lacing: f.lacing }),
        ),
        Err(e) => Err(e),
    }
}

/// Parses the header of a SimpleBlock.
pub fn simple_block(input: &[u8]) -> (r: EbmlResult<SimpleBlock>)
    ensures
        match spec_block_header(input@) {
            Ok((n, (tn, ts, f))) => r == Ok::<(usize, SimpleBlock), EbmlErr>(
                (
                    n,
                    SimpleBlock {
                        track_number: tn,
                        timestamp: ts,
                        keyframe: f.keyframe,
                        invisible: f.invisible,
                        lacing: f.lacing,
                        discardable: f.discardable,
                    },
                ),
            ),
            Err(e) => r == Err::<(usize, SimpleBlock), EbmlErr>(e),
        },
{
    match block_header(input) {
        Ok((n, (tn, ts, f))) => Ok(
            (
                n,
                SimpleBlock {
                    track_number: tn,
                    timestamp: ts,
                    keyframe: f.keyframe,
                    invisible: f.invisible,
                    lacing: f.lacing,
                    discardable: f.discardable,
                },
            ),
        ),
        Err(e) => Err(e),
    }
}

/// The stream index of the first track from the `i`-th on whose track
/// number is `track_number`.
pub open spec fn spec_lookup(ts: Seq<TrackEntry>, track_number: u64, i: int) -> Option<usize>
    decreases ts.len() - i,
{
    if i < 0 || i >= ts.len() {
        None
    } else if ts[i].track_number == track_number {
        Some(ts[i].stream_index as usize)
    } else {
        spec_lookup(ts, track_number, i + 1)
    }
}

/// `t` with the stream index `idx`.
pub open spec fn with_stream_index(t: TrackEntry, idx: u64) -> TrackEntry {
    TrackEntry { stream_index: idx, ..t }
}

impl Tracks {
    /// Gives the tracks, in their order, the stream indices `first`,
    /// `first + 1` and so on, as streams added one after the other get them.
    pub fn assign_stream_indices(&mut self, first: u64)
        requires
            first + old(self).tracks@.len() <= u64::MAX,
        ensures
            final(self).tracks@.len() == old(self).tracks@.len(),
            forall|i: int| 0 <= i < old(self).tracks@.len() ==> #[trigger] final(self).tracks@[i]
                == with_stream_index(old(self).tracks@[i], (first + i) as u64),
    {
        let mut rest: Vec<TrackEntry> = Vec::new();
        std::mem::swap(&mut rest, &mut self.tracks);
        let ghost orig = rest@;
        let mut done: Vec<TrackEntry> = Vec::new();
        let mut k: u64 = first;
        while rest.len() > 0
            invariant
                first + orig.len() <= u64::MAX,
                done@.len() + rest@.len() == orig.len(),
                k == first + done@.len(),
                rest@ == orig.skip(done@.len() as int),
                forall|i: int| 0 <= i < done@.len() ==> #[trigger] done@[i]
                    == with_stream_index(orig[i], (first + i) as u64),
            decreases rest@.len(),
        {
            let ghost before = rest@;
            let mut tr = rest.remove(0);
            assert(rest@ =~= orig.skip((done@.len() + 1) as int));
            tr.stream_index = k;
            let ghost n = done@.len();
            done.push(tr);
            k = k + 1;
            assert(done@[n as int] == with_stream_index(orig[n as int], (first + n) as u64));
        }
        self.tracks = done;
    }

    /// The stream index of the first track with the given track number.
    pub fn lookup(&self, track_number: u64) -> (r: Option<usize>)
        ensures
            r == spec_lookup(self.tracks@, track_number, 0),
            r is None <==> forall|i: int|
                0 <= i < self.tracks@.len() ==> self.tracks@[i].track_number != track_number,
            r matches Some(x) ==> exists|i: int|
                0 <= i < self.tracks@.len() && self.tracks@[i].track_number == track_number
                    && (forall|j: int| 0 <= j < i ==> self.tracks@[j].track_number != track_number)
                    && x == self.tracks@[i].stream_index as usize,
    {
        let mut i: usize = 0;
        while i < self.tracks.len()
            invariant
                i <= self.tracks@.len(),
                forall|j: int| 0 <= j < i ==> self.tracks@[j].track_number != track_number,
                spec_lookup(self.tracks@, track_number, 0) == spec_lookup(self.tracks@, track_number, i as int),
            decreases self.tracks.len() - i,
        {
            if self.tracks[i].track_number == track_number {
                return Some(self.tracks[i].stream_index as usize);
            }
            i = i + 1;
        }
        None
    }
}

/// The type of a track.
#[derive(Debug, Clone, Copy, PartialEq, Eq, Structural)]
pub enum TrackType {
    Video,
    Audio,
    Other,
}

impl TrackType {
    /// The track type of a TrackType value: 1 is video, 2 is audio.
    pub fn from_u64(val: u64) -> (r: TrackType)
        ensures
            r == (if val == 1 {
                TrackType::Video
            } else if val == 2 {
                TrackType::Audio
            } else {
                TrackType::Other
            }),
    {
        if val == 1 {
            TrackType::Video
        } else if val == 2 {
            TrackType::Audio
        } else {
            TrackType::Other
        }
    }

    /// The TrackType value of a track type: 1 for video, 2 for audio, 0 otherwise.
    pub fn to_u64(self) -> (r: u64)
        ensures
            r == (match self {
                TrackType::Video => 1u64,
                TrackType::Audio => 2u64,
                TrackType::Other => 0u64,
            }),
    {
        match self {
            TrackType::Video => 1,
            TrackType::Audio => 2,
            TrackType::Other => 0,
        }
    }
}

/// A top-level element that parses has its data within the input.
pub proof fn lemma_sub_element_ok(m: MasterId, s: Seq<u8>)
    requires
        s.len() <= usize::MAX,
    ensures
        spec_sub_element(m, s) matches Ok((n, (st, len))) ==> {
            &&& st + len == n
            &&& n <= s.len()
            &&& spec_master(m, s.subrange(st as int, n as int)) is Ok
        },
{
}

} // verus!
