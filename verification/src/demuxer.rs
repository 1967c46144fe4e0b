use vstd::prelude::*;
use std::collections::VecDeque;

use crate::ebml::element::{ebml_header, header_at};
use crate::ebml::error::{EbmlErr, EbmlResult, Error, ErrorKind};
use crate::ebml::header::EbmlHeader;
use crate::ebml::schema::{FieldKind, MasterId};
use crate::ebml::error::Needed;
use crate::ebml::parse::EbmlFloat;
use crate::elements::masters::{Cluster, Info, SeekHead, TrackEntry, Tracks};
use crate::elements::{
    segment, segment_element, segment_element_is, simple_block, spec_block_header, spec_lookup,
    spec_segment, spec_segment_element, SegmentElement, SegmentShape,
};
use vstd::utf8::{encode_utf8, encode_utf8_decode_utf8};
use crate::permutation::{range_bytes, spec_element};

verus! {

/// What the demuxer is asked to keep.
#[derive(Debug, Clone)]
pub struct DemuxerParams {
    /// The track numbers whose tracks are kept, when given.
    pub track_numbers: Option<Vec<u64>>,
}

/// A frame read from a SimpleBlock.
#[derive(Debug, Clone, PartialEq, Eq)]
pub struct DemuxedPacket {
    /// The frame data: the block after its header.
    pub data: Vec<u8>,
    /// The timestamp of the block, relative to its cluster.
    pub pts: i64,
    /// The stream index of the block's track.
    pub stream_index: usize,
    /// Whether the block is a keyframe.
    pub is_key: bool,
}

/// What reading the next part of a file gives.
#[derive(Debug, Clone, PartialEq, Eq)]
pub enum DemuxEvent {
    /// A packet.
    NewPacket(DemuxedPacket),
    /// Nothing yet: more data is needed.
    MoreDataNeeded(usize),
}

/// A Matroska demuxer: the headers read so far and the packets not yet
/// handed out.
#[derive(Debug, Clone)]
pub struct MkvDemuxer {
    pub header: Option<EbmlHeader>,
    pub seek_head: Option<SeekHead>,
    pub info: Option<Info>,
    pub tracks: Option<Tracks>,
    pub queue: VecDeque<DemuxEvent>,
    pub blockstream: Vec<u8>,
    pub params: Option<DemuxerParams>,
}

/// The track numbers that a demuxer's parameters ask it to keep, if any.
pub open spec fn tracks_filter(p: Option<DemuxerParams>) -> Option<Seq<u64>> {
    match p {
        Some(params) => match params.track_numbers {
            Some(v) => Some(v@),
            None => None,
        },
        None => None,
    }
}

/// The tracks whose track numbers are in `nums`, in their order.
pub open spec fn keep_tracks(ts: Seq<TrackEntry>, nums: Seq<u64>) -> Seq<TrackEntry>
    decreases ts.len(),
{
    if ts.len() == 0 {
        Seq::empty()
    } else {
        (if nums.contains(ts[0].track_number) {
            seq![ts[0]]
        } else {
            Seq::empty()
        }) + keep_tracks(ts.drop_first(), nums)
    }
}

/// Whether `x` is one of `v`.
fn contains_u64(v: &Vec<u64>, x: u64) -> (r: bool)
    ensures
        r == v@.contains(x),
{
    let mut i: usize = 0;
    while i < v.len()
        invariant
            i <= v@.len(),
            forall|j: int| 0 <= j < i ==> v@[j] != x,
        decreases v.len() - i,
    {
        if v[i] == x {
            assert(v@[i as int] == x);
            return true;
        }
        i = i + 1;
    }
    false
}

/// Keeps the tracks whose track numbers are in `nums`, in their order.
pub fn filter_tracks(tracks: Vec<TrackEntry>, nums: &Vec<u64>) -> (r: Vec<TrackEntry>)
    ensures
        r@ == keep_tracks(tracks@, nums@),
{
    let mut src = tracks;
    let mut kept: Vec<TrackEntry> = Vec::new();
    let ghost orig = src@;
    while src.len() > 0
        invariant
            kept@ + keep_tracks(src@, nums@) == keep_tracks(orig, nums@),
        decreases src@.len(),
    {
        let ghost before = src@;
        let tr = src.remove(0);
        assert(src@ =~= before.drop_first());
        if contains_u64(nums, tr.track_number) {
            kept.push(tr);
            assert(kept@ + keep_tracks(src@, nums@) =~= keep_tracks(orig, nums@));
        } else {
            assert(kept@ + keep_tracks(src@, nums@) =~= keep_tracks(orig, nums@));
        }
    }
    assert(kept@ =~= keep_tracks(orig, nums@));
    kept
}

/// A top-level element that parses takes at least one byte and at most the
/// input.
proof fn lemma_segment_element_len(s: Seq<u8>)
    requires
        s.len() <= usize::MAX,
    ensures
        spec_segment_element(s) matches Ok((n, sh)) ==> 1 <= n <= s.len() && (sh matches SegmentShape::Master(_, st, len) ==> st + len <= s.len()),
{
    reveal(spec_segment_element);
    crate::permutation::lemma_vid_ok(s);
    if let Ok((n1, id)) = crate::ebml::parse::spec_vid(s) {
        if n1 <= s.len() {
            if let Some(m) = crate::elements::segment_master(id) {
                crate::elements::lemma_sub_element_ok(m, s.skip(n1 as int));
            }
        }
    }
}

/// The (start, length) of a master element found at `pos`, from its shape.
pub open spec fn found_at(pos: nat, sh: SegmentShape) -> Option<(usize, usize)> {
    match sh {
        SegmentShape::Master(_, st, len) => Some(((pos + st) as usize, len)),
        _ => None,
    }
}

/// What reading the top-level elements of a Segment from `pos` finds: where
/// the one SeekHead, the one Info and the one Tracks are, until all three
/// are there; a second one of them is a [ErrorKind::DuplicateSegment]
/// error. Besides the outcome (the position reached, or the error), it
/// gives where the elements found before the end or the error are.
pub open spec fn spec_scan_segment(
    s: Seq<u8>,
    pos: nat,
    seek_head: Option<(usize, usize)>,
    info: Option<(usize, usize)>,
    tracks: Option<(usize, usize)>,
) -> (Result<usize, EbmlErr>, Option<(usize, usize)>, Option<(usize, usize)>, Option<(usize, usize)>)
    decreases s.len() - pos,
{
    if seek_head is Some && info is Some && tracks is Some {
        (Ok(pos as usize), seek_head, info, tracks)
    } else if pos > s.len() {
        (Err(EbmlErr::Error(Error { id: 0, kind: ErrorKind::ElementTooLarge })), seek_head, info, tracks)
    } else {
        match spec_segment_element(s.skip(pos as int)) {
            Err(e) => (Err(e), seek_head, info, tracks),
            Ok((n, sh)) => if n < 1 || n > s.len() - pos {
                (Err(EbmlErr::Error(Error { id: 0, kind: ErrorKind::ElementTooLarge })), seek_head, info, tracks)
            } else {
                match sh {
                    SegmentShape::Master(MasterId::SeekHead, _, _) => if seek_head is Some {
                        (Err(EbmlErr::Error(Error { id: 0x114D9B74, kind: ErrorKind::DuplicateSegment })), seek_head, info, tracks)
                    } else {
                        spec_scan_segment(s, (pos + n) as nat, found_at(pos, sh), info, tracks)
                    },
                    SegmentShape::Master(MasterId::Info, _, _) => if info is Some {
                        (Err(EbmlErr::Error(Error { id: 0x1549A966, kind: ErrorKind::DuplicateSegment })), seek_head, info, tracks)
                    } else {
                        spec_scan_segment(s, (pos + n) as nat, seek_head, found_at(pos, sh), tracks)
                    },
                    SegmentShape::Master(MasterId::Tracks, _, _) => if tracks is Some {
                        (Err(EbmlErr::Error(Error { id: 0x1654AE6B, kind: ErrorKind::DuplicateSegment })), seek_head, info, tracks)
                    } else {
                        spec_scan_segment(s, (pos + n) as nat, seek_head, info, found_at(pos, sh))
                    },
                    _ => spec_scan_segment(s, (pos + n) as nat, seek_head, info, tracks),
                }
            },
        }
    }
}

/// What [MkvDemuxer::parse_until_tracks] returns on `s`: the EBML Header,
/// the head of the Segment, then its elements until the SeekHead, the Info
/// and the Tracks are all found.
pub open spec fn spec_parse_until_tracks(s: Seq<u8>) -> Result<
    (usize, Option<(usize, usize)>, Option<(usize, usize)>, Option<(usize, usize)>),
    EbmlErr,
> {
    match spec_element(0x1A45DFA3, FieldKind::Master(MasterId::EbmlHeader), s) {
        Err(e) => Err(EbmlErr::Error(e)),
        Ok((n1, _)) => match spec_segment(s.skip(n1 as int)) {
            Err(e) => Err(e),
            Ok((n2, _)) => match spec_scan_segment(s, (n1 + n2) as nat, None, None, None) {
                (Ok(n), sh, inf, tr) => Ok((n, sh, inf, tr)),
                (Err(e), _, _, _) => Err(e),
            },
        },
    }
}

/// The headers a demuxer `new` holds after reading `s` from the state
/// `old`, whether the read succeeds or not: the EBML Header once it is read
/// (else the old one), and, once the head of the Segment is read, the
/// SeekHead, Info and Tracks found before the read ended (else the old
/// ones). The Tracks keep the tracks whose numbers the parameters give, or
/// all of them.
pub open spec fn headers_read(s: Seq<u8>, old: MkvDemuxer, new: MkvDemuxer) -> bool {
    &&& new.params == old.params
    &&& match spec_element(0x1A45DFA3, FieldKind::Master(MasterId::EbmlHeader), s) {
        Err(_) => new.header == old.header && new.seek_head == old.seek_head && new.info == old.info
            && new.tracks == old.tracks,
        Ok((n1, _)) => {
            &&& new.header matches Some(h) && header_at(s, n1, h)
            &&& match spec_segment(s.skip(n1 as int)) {
                Err(_) => new.seek_head == old.seek_head && new.info == old.info && new.tracks == old.tracks,
                Ok((n2, _)) => {
                    let (_, sh, inf, tr) = spec_scan_segment(s, (n1 + n2) as nat, None, None, None);
                    &&& kept_seek_head(s, new.seek_head, sh)
                    &&& kept_info(s, new.info, inf)
                    &&& kept_tracks(s, new.tracks, tr, tracks_filter(old.params))
                },
            }
        },
    }
}

/// A SeekHead kept from `s` is the one read at `rg`.
pub open spec fn kept_seek_head(s: Seq<u8>, x: Option<SeekHead>, rg: Option<(usize, usize)>) -> bool {
    match (x, rg) {
        (Some(v), Some(r)) => v.models(range_bytes(s, r)),
        (None, None) => true,
        _ => false,
    }
}

/// An Info kept from `s` is the one read at `rg`.
pub open spec fn kept_info(s: Seq<u8>, x: Option<Info>, rg: Option<(usize, usize)>) -> bool {
    match (x, rg) {
        (Some(v), Some(r)) => v.models(range_bytes(s, r)),
        (None, None) => true,
        _ => false,
    }
}

/// Tracks kept from `s` are those of the Tracks read at `rg` whose track
/// numbers are in `filter`, or all of them when there is no filter.
pub open spec fn kept_tracks(s: Seq<u8>, x: Option<Tracks>, rg: Option<(usize, usize)>, filter: Option<Seq<u64>>) -> bool {
    match (x, rg) {
        (Some(v), Some(r)) => exists|t: Tracks| t.models(range_bytes(s, r)) && v.tracks@ == match filter {
            Some(nums) => keep_tracks(t.tracks@, nums),
            None => t.tracks@,
        },
        (None, None) => true,
        _ => false,
    }
}

impl MkvDemuxer {
    /// A demuxer that has read nothing.
    pub fn new() -> (r: MkvDemuxer)
        ensures
            r.header is None && r.seek_head is None && r.info is None && r.tracks is None,
            r.queue@.len() == 0,
            r.blockstream@.len() == 0,
            r.params is None,
    {
        MkvDemuxer {
            header: None,
            seek_head: None,
            info: None,
            tracks: None,
            queue: VecDeque::new(),
            blockstream: Vec::new(),
            params: None,
        }
    }

    /// A demuxer that has read nothing, with parameters.
    pub fn with_params(params: DemuxerParams) -> (r: MkvDemuxer)
        ensures
            r.header is None && r.seek_head is None && r.info is None && r.tracks is None,
            r.queue@.len() == 0,
            r.blockstream@.len() == 0,
            r.params == Some(params),
    {
        MkvDemuxer {
            header: None,
            seek_head: None,
            info: None,
            tracks: None,
            queue: VecDeque::new(),
            blockstream: Vec::new(),
            params: Some(params),
        }
    }

    /// Reads the EBML Header, the head of the Segment, then the elements of
    /// the Segment until one SeekHead, one Info and one Tracks are found;
    /// returns the number of bytes read. The Tracks keep only the tracks
    /// whose numbers the parameters give, or all of them. What was read
    /// before an error is kept.
    pub fn parse_until_tracks(&mut self, input: &[u8]) -> (r: EbmlResult<()>)
        ensures
            headers_read(input@, *old(self), *final(self)),
            match spec_parse_until_tracks(input@) {
                Ok((n, _, _, _)) => r == Ok::<(usize, ()), EbmlErr>((n, ())),
                Err(e) => r == Err::<(usize, ()), EbmlErr>(e),
            },
    {
        let (n1, header) = match ebml_header(input) {
            Ok(x) => x,
            Err(e) => return Err(e),
        };
        proof {
            assert(input@.len() == input.len());
            crate::permutation::lemma_element_ok(0x1A45DFA3, FieldKind::Master(MasterId::EbmlHeader), input@);
        }
        self.header = Some(header);
        let rest = &input[n1..input.len()];
        assert(rest@ =~= input@.skip(n1 as int));
        let (n2, _) = match segment(rest) {
            Ok(x) => x,
            Err(e) => return Err(e),
        };
        self.seek_head = None;
        self.info = None;
        self.tracks = None;
        let ghost filter = tracks_filter(self.params);
        let ghost start: nat = (n1 + n2) as nat;
        let ghost mut sh_rg: Option<(usize, usize)> = None;
        let ghost mut inf_rg: Option<(usize, usize)> = None;
        let ghost mut tr_rg: Option<(usize, usize)> = None;
        let mut pos: usize = n1 + n2;
        loop
            invariant
                pos <= input@.len(),
                self.params == old(self).params,
                filter == tracks_filter(old(self).params),
                spec_element(0x1A45DFA3, FieldKind::Master(MasterId::EbmlHeader), input@) is Ok && spec_element(0x1A45DFA3, FieldKind::Master(MasterId::EbmlHeader), input@)->Ok_0.0 == n1,
                spec_segment(input@.skip(n1 as int)) is Ok && spec_segment(input@.skip(n1 as int))->Ok_0.0 == n2,
                start == n1 + n2,
                spec_scan_segment(input@, pos as nat, sh_rg, inf_rg, tr_rg)
                    == spec_scan_segment(input@, start, None, None, None),
                kept_seek_head(input@, self.seek_head, sh_rg),
                kept_info(input@, self.info, inf_rg),
                kept_tracks(input@, self.tracks, tr_rg, filter),
                self.header matches Some(h) && header_at(input@, n1, h),
            decreases input@.len() - pos,
        {
            if self.seek_head.is_some() && self.info.is_some() && self.tracks.is_some() {
                return Ok((pos, ()));
            }
            let cur = &input[pos..input.len()];
            assert(cur@ =~= input@.skip(pos as int));
            proof {
                assert(cur@.len() == cur.len());
                lemma_segment_element_len(cur@);
            }
            let (n, el) = match segment_element(cur) {
                Ok(x) => x,
                Err(e) => return Err(e),
            };
            let ghost sh = spec_segment_element(cur@)->Ok_0.1;
            proof {
                if let SegmentShape::Master(_, st, len) = sh {
                    assert(range_bytes(cur@, (st, len)) =~= range_bytes(input@, ((pos + st) as usize, len)));
                }
            }
            match el {
                SegmentElement::SeekHead(x) => {
                    if self.seek_head.is_some() {
                        return Err(EbmlErr::Error(Error { id: 0x114D9B74, kind: ErrorKind::DuplicateSegment }));
                    }
                    self.seek_head = Some(x);
                    proof {
                        sh_rg = found_at(pos as nat, sh);
                    }
                },
                SegmentElement::Info(x) => {
                    if self.info.is_some() {
                        return Err(EbmlErr::Error(Error { id: 0x1549A966, kind: ErrorKind::DuplicateSegment }));
                    }
                    self.info = Some(x);
                    proof {
                        inf_rg = found_at(pos as nat, sh);
                    }
                },
                SegmentElement::Tracks(x) => {
                    if self.tracks.is_some() {
                        return Err(EbmlErr::Error(Error { id: 0x1654AE6B, kind: ErrorKind::DuplicateSegment }));
                    }
                    let ghost whole = x;
                    self.tracks = match &self.params {
                        Some(p) => match &p.track_numbers {
                            Some(track_numbers) => Some(Tracks { tracks: filter_tracks(x.tracks, track_numbers) }),
                            None => Some(x),
                        },
                        None => Some(x),
                    };
                    proof {
                        tr_rg = found_at(pos as nat, sh);
                        assert(whole.models(range_bytes(input@, tr_rg->Some_0)));
                    }
                },
                _ => {},
            }
            pos = pos + n;
        }
    }
}

/// The packet that a SimpleBlock with data `b` gives, if its header reads
/// and its track is one of `ts`: the data after the header, the timestamp,
/// the stream index of the track and the keyframe flag.
pub open spec fn block_packet(b: Seq<u8>, ts: Seq<TrackEntry>) -> Option<(Seq<u8>, i64, usize, bool)> {
    match spec_block_header(b) {
        Ok((n, (tn, t, f))) => match spec_lookup(ts, tn, 0) {
            Some(idx) => Some((b.skip(n as int), t as i64, idx, f.keyframe)),
            None => None,
        },
        Err(_) => None,
    }
}

/// The packets of a list of SimpleBlocks, in their order; blocks whose
/// header does not read or whose track is unknown give none.
pub open spec fn spec_packets(blocks: Seq<Vec<u8>>, ts: Seq<TrackEntry>) -> Seq<(Seq<u8>, i64, usize, bool)>
    decreases blocks.len(),
{
    if blocks.len() == 0 {
        Seq::empty()
    } else {
        spec_packets(blocks.drop_last(), ts) + match block_packet(blocks.last()@, ts) {
            Some(p) => seq![p],
            None => Seq::empty(),
        }
    }
}

/// The packets of blocks that follow one another are the packets of the
/// first blocks, then those of the others: packets keep the order of their
/// blocks.
pub proof fn law_packets_in_block_order(a: Seq<Vec<u8>>, b: Seq<Vec<u8>>, ts: Seq<TrackEntry>)
    ensures
        spec_packets(a + b, ts) == spec_packets(a, ts) + spec_packets(b, ts),
    decreases b.len(),
{
    if b.len() == 0 {
        assert(a + b =~= a);
        assert(spec_packets(b, ts) =~= Seq::<(Seq<u8>, i64, usize, bool)>::empty());
        assert(spec_packets(a, ts) + spec_packets(b, ts) =~= spec_packets(a, ts));
    } else {
        law_packets_in_block_order(a, b.drop_last(), ts);
        assert((a + b).drop_last() =~= a + b.drop_last());
        assert((a + b).last() == b.last());
        let q = match block_packet(b.last()@, ts) {
            Some(p) => seq![p],
            None => Seq::empty(),
        };
        assert(spec_packets(a, ts) + spec_packets(b.drop_last(), ts) + q =~= spec_packets(a, ts) + (
        spec_packets(b.drop_last(), ts) + q));
    }
}

/// The packets of one block: its packet, if its header reads and its track
/// is one of `ts`, else none. A packet is the block's data after its header,
/// the header's timestamp, the stream index of the first track with the
/// header's track number, and the keyframe flag.
pub proof fn law_packets_of_one_block(x: Vec<u8>, ts: Seq<TrackEntry>)
    ensures
        spec_packets(seq![x], ts) == match spec_block_header(x@) {
            Ok((n, (tn, t, f))) => match spec_lookup(ts, tn, 0) {
                Some(idx) => seq![(x@.skip(n as int), t as i64, idx, f.keyframe)],
                None => Seq::empty(),
            },
            Err(_) => Seq::empty(),
        },
{
    assert(seq![x].drop_last() =~= Seq::<Vec<u8>>::empty());
    assert(spec_packets(Seq::<Vec<u8>>::empty(), ts) =~= Seq::<(Seq<u8>, i64, usize, bool)>::empty());
    let q = match block_packet(x@, ts) {
        Some(p) => seq![p],
        None => Seq::empty(),
    };
    assert(Seq::<(Seq<u8>, i64, usize, bool)>::empty() + q =~= q);
}

/// The packet an event carries, if any.
pub open spec fn event_packet(e: DemuxEvent) -> Option<(Seq<u8>, i64, usize, bool)> {
    match e {
        DemuxEvent::NewPacket(p) => Some((p.data@, p.pts, p.stream_index, p.is_key)),
        DemuxEvent::MoreDataNeeded(_) => None,
    }
}

/// A list of events is the packets `ps`, in order.
pub open spec fn events_are(evs: Seq<DemuxEvent>, ps: Seq<(Seq<u8>, i64, usize, bool)>) -> bool {
    evs.len() == ps.len() && forall|i: int| 0 <= i < evs.len() ==> event_packet(#[trigger] evs[i]) == Some(ps[i])
}

impl Cluster {
    /// The packets of the SimpleBlocks of this cluster whose tracks are in
    /// `tracks`, in order.
    pub fn generate_packets(&self, tracks: &Tracks) -> (v: Vec<DemuxEvent>)
        ensures
            events_are(v@, spec_packets(self.simple_block@, tracks.tracks@)),
    {
        let mut v: Vec<DemuxEvent> = Vec::new();
        let mut i: usize = 0;
        assert(self.simple_block@.take(0) =~= Seq::<Vec<u8>>::empty());
        while i < self.simple_block.len()
            invariant
                i <= self.simple_block@.len(),
                events_are(v@, spec_packets(self.simple_block@.take(i as int), tracks.tracks@)),
            decreases self.simple_block.len() - i,
        {
            let block_data = self.simple_block[i].as_slice();
            proof {
                assert(self.simple_block@.take(i + 1).drop_last() =~= self.simple_block@.take(i as int));
            }
            let ghost before = v@;
            match simple_block(block_data) {
                Ok((n, block)) => {
                    match tracks.lookup(block.track_number) {
                        Some(index) => {
                            let rest = vstd::slice::slice_subrange(block_data, n, block_data.len());
                            assert(rest@ =~= block_data@.skip(n as int));
                            let packet = DemuxedPacket {
                                data: vstd::slice::slice_to_vec(rest),
                                pts: block.timestamp as i64,
                                stream_index: index,
                                is_key: block.keyframe,
                            };
                            v.push(DemuxEvent::NewPacket(packet));
                        },
                        None => {},
                    }
                },
                Err(_) => {},
            }
            proof {
                let ps = spec_packets(self.simple_block@.take(i + 1), tracks.tracks@);
                assert(events_are(v@, ps)) by {
                    assert forall|j: int| 0 <= j < v@.len() implies event_packet(#[trigger] v@[j]) == Some(ps[j]) by {
                        if j < before.len() {
                            assert(v@[j] == before[j]);
                        }
                    }
                }
            }
            i = i + 1;
        }
        proof {
            assert(self.simple_block@.take(i as int) =~= self.simple_block@);
        }
        v
    }
}

/// Why reading failed.
#[derive(Debug, Clone, Copy, PartialEq, Eq, Structural)]
pub enum DemuxError {
    /// This many more bytes are needed.
    MoreDataNeeded(usize),
    /// The data cannot be read.
    InvalidData,
}

/// The answer to an incomplete or failed read: how many bytes to have, or
/// that the data is invalid.
pub open spec fn headers_error(e: EbmlErr, len: usize) -> DemuxError {
    match e {
        EbmlErr::Incomplete(Needed::Size(size)) => DemuxError::MoreDataNeeded(
            if len + size <= usize::MAX {
                (len + size) as usize
            } else {
                usize::MAX
            },
        ),
        EbmlErr::Incomplete(Needed::Unknown) => DemuxError::MoreDataNeeded(1024),
        EbmlErr::Error(_) => DemuxError::InvalidData,
    }
}

/// The answer to a failed read of an event.
pub open spec fn event_error(e: EbmlErr) -> DemuxError {
    match e {
        EbmlErr::Incomplete(Needed::Size(size)) => DemuxError::MoreDataNeeded(size),
        _ => DemuxError::InvalidData,
    }
}

impl MkvDemuxer {
    /// Reads the headers at the start of `data` (see [MkvDemuxer::parse_until_tracks]);
    /// returns how many bytes they take, or how many bytes to read first, or
    /// that the data is invalid.
    pub fn read_headers(&mut self, data: &[u8]) -> (r: Result<usize, DemuxError>)
        ensures
            headers_read(data@, *old(self), *final(self)),
            match spec_parse_until_tracks(data@) {
                Ok((n, _, _, _)) => r == Ok::<usize, DemuxError>(n),
                Err(e) => r == Err::<usize, DemuxError>(headers_error(e, data@.len() as usize)),
            },
    {
        match self.parse_until_tracks(data) {
            Ok((n, _)) => Ok(n),
            Err(EbmlErr::Incomplete(Needed::Size(size))) => Err(DemuxError::MoreDataNeeded(data.len().saturating_add(size))),
            Err(EbmlErr::Incomplete(Needed::Unknown)) => Err(DemuxError::MoreDataNeeded(1024)),
            Err(EbmlErr::Error(_)) => Err(DemuxError::InvalidData),
        }
    }

    /// The next event: a packet left from the last cluster, or else the
    /// packets of the next element of `data` when it is a Cluster (the first
    /// is returned, the others kept); returns how many bytes of `data` were
    /// read.
    pub fn read_event(&mut self, data: &[u8]) -> (r: Result<(usize, DemuxEvent), DemuxError>)
        requires
            (old(self).queue@.len() == 0 && (spec_segment_element(data@) matches Ok((_, SegmentShape::Master(MasterId::Cluster, _, _)))))
                ==> old(self).tracks is Some,
        ensures
            final(self).tracks == old(self).tracks,
            final(self).params == old(self).params,
            old(self).queue@.len() > 0 ==> r == Ok::<(usize, DemuxEvent), DemuxError>((0, old(self).queue@[0]))
                && final(self).queue@ == old(self).queue@.drop_first(),
            old(self).queue@.len() == 0 ==> match spec_segment_element(data@) {
                Err(e) => r == Err::<(usize, DemuxEvent), DemuxError>(event_error(e)),
                Ok((n, SegmentShape::Master(MasterId::Cluster, st, len))) => exists|c: Cluster|
                    c.models(range_bytes(data@, (st, len))) && {
                        let ps = spec_packets(c.simple_block@, old(self).tracks->Some_0.tracks@);
                        if ps.len() > 0 {
                            r matches Ok((m, ev)) && m == n && event_packet(ev) == Some(ps[0])
                                && events_are(final(self).queue@, ps.drop_first())
                        } else {
                            r == Ok::<(usize, DemuxEvent), DemuxError>((n, DemuxEvent::MoreDataNeeded(0)))
                                && final(self).queue@.len() == 0
                        }
                    },
                Ok((n, _)) => r == Ok::<(usize, DemuxEvent), DemuxError>((n, DemuxEvent::MoreDataNeeded(0)))
                    && final(self).queue@.len() == 0,
            },
    {
        if let Some(event) = self.queue.pop_front() {
            return Ok((0, event));
        }
        match segment_element(data) {
            Ok((i, element)) => {
                match element {
                    SegmentElement::Cluster(c) => {
                        let ghost cl = c;
                        let tracks = match &self.tracks {
                            Some(t) => t,
                            None => {
                                return Err(DemuxError::InvalidData);
                            },
                        };
                        let mut packets = c.generate_packets(tracks);
                        let ghost ps = spec_packets(cl.simple_block@, tracks.tracks@);
                        let ghost all = packets@;
                        while packets.len() > 0
                            invariant
                                self.queue@ + packets@ == all,
                                events_are(all, ps),
                                self.tracks == old(self).tracks,
                                self.params == old(self).params,
                            decreases packets@.len(),
                        {
                            let ghost before = packets@;
                            let p = packets.remove(0);
                            assert(packets@ =~= before.drop_first());
                            self.queue.push_back(p);
                            assert(self.queue@ + packets@ =~= all);
                        }
                        assert(self.queue@ =~= all);
                        proof {
                            if let SegmentShape::Master(_, st, len) = spec_segment_element(data@)->Ok_0.1 {
                                assert(cl.models(range_bytes(data@, (st, len))));
                            }
                        }
                        let ghost q0 = self.queue@;
                        if let Some(event) = self.queue.pop_front() {
                            proof {
                                assert(events_are(self.queue@, ps.drop_first())) by {
                                    assert forall|j: int| 0 <= j < self.queue@.len() implies event_packet(#[trigger] self.queue@[j]) == Some(ps.drop_first()[j]) by {
                                        assert(self.queue@[j] == q0[j + 1]);
                                    }
                                }
                            }
                            return Ok((i, event));
                        }
                    },
                    _ => {},
                }
                Ok((i, DemuxEvent::MoreDataNeeded(0)))
            },
            Err(EbmlErr::Incomplete(Needed::Size(size))) => Err(DemuxError::MoreDataNeeded(size)),
            Err(_) => Err(DemuxError::InvalidData),
        }
    }
}

/// The codec name of a Matroska codec ID.
pub open spec fn codec_name_of(id: Seq<char>) -> Option<Seq<char>> {
    if id == "A_OPUS"@ {
        Some("opus"@)
    } else if id == "A_VORBIS"@ {
        Some("vorbis"@)
    } else if id == "V_AV1"@ {
        Some("av1"@)
    } else if id == "V_VP8"@ {
        Some("vp8"@)
    } else if id == "V_VP9"@ {
        Some("vp9"@)
    } else {
        None
    }
}

/// Whether two strings are the same.
fn str_eq(a: &str, b: &str) -> (r: bool)
    ensures
        r == (a@ == b@),
{
    let x = a.as_bytes();
    let y = b.as_bytes();
    proof {
        encode_utf8_decode_utf8(a@);
        encode_utf8_decode_utf8(b@);
    }
    if x.len() != y.len() {
        return false;
    }
    let mut i: usize = 0;
    while i < x.len()
        invariant
            x@.len() == y@.len(),
            x@ == encode_utf8(a@),
            y@ == encode_utf8(b@),
            i <= x@.len(),
            forall|j: int| 0 <= j < i ==> x@[j] == y@[j],
        decreases x.len() - i,
    {
        if x[i] != y[i] {
            assert(x@[i as int] != y@[i as int]);
            return false;
        }
        i = i + 1;
    }
    assert(x@ =~= y@);
    true
}

/// The codec name of a track, for the codecs that are recognised.
pub fn track_entry_codec_id(t: &TrackEntry) -> (r: Option<String>)
    ensures
        match r {
            Some(s) => codec_name_of(t.codec_id@) == Some(s@),
            None => codec_name_of(t.codec_id@) is None,
        },
{
    let c = t.codec_id.as_str();
    if str_eq(c, "A_OPUS") {
        Some("opus".to_owned())
    } else if str_eq(c, "A_VORBIS") {
        Some("vorbis".to_owned())
    } else if str_eq(c, "V_AV1") {
        Some("av1".to_owned())
    } else if str_eq(c, "V_VP8") {
        Some("vp8".to_owned())
    } else if str_eq(c, "V_VP9") {
        Some("vp9".to_owned())
    } else {
        None
    }
}

/// What a track is, as far as a stream needs: the size of its pictures or
/// the rate and channels of its sound.
#[derive(Debug, Clone, Copy, PartialEq, Eq, Structural)]
pub enum MediaKindDesc {
    Video { width: u64, height: u64 },
    Audio { rate: EbmlFloat, channels: u64 },
}

/// The picture size of a video track.
pub fn track_entry_video_kind(t: &TrackEntry) -> (r: Option<MediaKindDesc>)
    ensures
        r == match t.video {
            Some(v) => Some(MediaKindDesc::Video { width: v.pixel_width, height: v.pixel_height }),
            None => None,
        },
{
    match &t.video {
        Some(video) => Some(MediaKindDesc::Video { width: video.pixel_width, height: video.pixel_height }),
        None => None,
    }
}

/// The sound of an audio track: its output sampling frequency when given,
/// else its sampling frequency, and its channels.
pub fn track_entry_audio_kind(t: &TrackEntry) -> (r: Option<MediaKindDesc>)
    ensures
        r == match t.audio {
            Some(a) => Some(MediaKindDesc::Audio {
                rate: match a.output_sampling_frequency {
                    Some(f) => f,
                    None => a.sampling_frequency,
                },
                channels: a.channels,
            }),
            None => None,
        },
{
    match &t.audio {
        Some(audio) => {
            let rate = match audio.output_sampling_frequency {
                Some(r) => r,
                None => audio.sampling_frequency,
            };
            Some(MediaKindDesc::Audio { rate, channels: audio.channels })
        },
        None => None,
    }
}

/// What a track is by its track type: 1 is video, 2 is audio.
pub fn track_entry_media_kind(t: &TrackEntry) -> (r: Option<MediaKindDesc>)
    ensures
        r == (if t.track_type == 1 {
            match t.video {
                Some(v) => Some(MediaKindDesc::Video { width: v.pixel_width, height: v.pixel_height }),
                None => None,
            }
        } else if t.track_type == 2 {
            match t.audio {
                Some(a) => Some(MediaKindDesc::Audio {
                    rate: match a.output_sampling_frequency {
                        Some(f) => f,
                        None => a.sampling_frequency,
                    },
                    channels: a.channels,
                }),
                None => None,
            }
        } else {
            None
        }),
{
    if t.track_type == 1 {
        track_entry_video_kind(t)
    } else if t.track_type == 2 {
        track_entry_audio_kind(t)
    } else {
        None
    }
}

} // verus!
