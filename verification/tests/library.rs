use matroska::demuxer::{
    filter_tracks, track_entry_codec_id, DemuxEvent, DemuxError, DemuxerParams, MkvDemuxer,
};
use matroska::ebml::element::{ebml_header, ebml_uint, get_required};
use matroska::permutation::skip_element;
use matroska::ebml::error::{EbmlErr, Error, ErrorKind, Needed};
use matroska::ebml::header::EbmlHeader;
use matroska::ebml::parse::{self, parse_float, EbmlFloat};
use matroska::elements::{self, segment_element, SegmentElement, SimpleBlock, Lacing};
use matroska::fourcc::{
    bytes_to_fourcc_bige, bytes_to_fourcc_lte, chars_to_fourcc_bige, chars_to_fourcc_lte, encoding_i420,
    encoding_i420_10, encoding_i420_16, encoding_i420_s, encoding_i420_slice, encoding_i422,
    encoding_i422_slice, encoding_nv12, encoding_nv21, encoding_uyvy, encoding_vyuy, encoding_yuyv,
    encoding_yv12, encoding_yvyu, Fourcc,
};
use matroska::muxer::{gen_mkv_prefix, stream_to_track, MkvMuxer, MuxError, PacketDesc, StreamDesc, StreamKind};
use matroska::serializer::cookie_utils::GenError;
use matroska::serializer::ebml::{
    gen_ebml_header, gen_ebml_int, gen_ebml_str, gen_ebml_uint, gen_f64, gen_uint, gen_vid,
    gen_vint, log2, vid_size, vint_size, EbmlSize,
};
use matroska::serializer::elements::{
    gen_info, gen_laced_frames, gen_seek_head, gen_track_entry, gen_segment_header_unknown_size, gen_simple_block_header,
    gen_tracks,
};
use matroska::elements::masters::{Info, Seek, SeekHead, Tracks};

fn webm_header() -> EbmlHeader {
    EbmlHeader {
        version: 1,
        read_version: 1,
        max_id_length: 4,
        max_size_length: 8,
        doc_type: "webm".to_string(),
        doc_type_version: 1,
        doc_type_read_version: 1,
    }
}

#[test]
fn vint_size_widths() {
    assert_eq!(vint_size(0), Ok(1));
    assert_eq!(vint_size(126), Ok(1));
    assert_eq!(vint_size(127), Ok(2));
    assert_eq!(vint_size(16382), Ok(2));
    assert_eq!(vint_size(16383), Ok(3));
    assert_eq!(vint_size((1u64 << 56) - 2), Ok(8));
    assert_eq!(vint_size((1u64 << 56) - 1), Err(GenError::CustomError(0)));
    assert_eq!(vint_size(u64::MAX), Err(GenError::CustomError(0)));
}

#[test]
fn log2_and_vid_size() {
    assert_eq!(log2(0), 1);
    assert_eq!(log2(1), 1);
    assert_eq!(log2(255), 8);
    assert_eq!(log2(256), 9);
    assert_eq!(log2(u64::MAX), 64);
    assert_eq!(vid_size(0x80), 1);
    assert_eq!(vid_size(0x4286), 2);
    assert_eq!(vid_size(0x2AD7B1), 3);
    assert_eq!(vid_size(0x1A45DFA3), 4);
}

#[test]
fn vint_roundtrip_values() {
    for &i in &[0u64, 1, 126, 127, 128, 16382, 16383, 2100000, (1u64 << 56) - 2] {
        let mut data = vec![0u8; 10];
        let end = gen_vint(i, &mut data, 1).unwrap();
        let (n, v) = parse::vint(&data[1..]).unwrap();
        assert_eq!(v, i);
        assert_eq!(n, end - 1);
    }
}

#[test]
fn vint_bytes() {
    let mut data = vec![0u8; 4];
    assert_eq!(gen_vint(2, &mut data, 0), Ok(1));
    assert_eq!(data[0], 0x82);
    assert_eq!(gen_vint(500, &mut data, 0), Ok(2));
    assert_eq!(&data[..2], &[0x41, 0xF4]);
}

#[test]
fn vint_refused_and_too_small() {
    let mut data = vec![0u8; 10];
    assert_eq!(gen_vint(1u64 << 56, &mut data, 0), Err(GenError::CustomError(0)));
    let mut small = vec![0u8; 1];
    assert_eq!(gen_vint(500, &mut small, 0), Err(GenError::BufferTooSmall(1)));
    assert_eq!(small, vec![0x41]);
}

#[test]
fn vid_roundtrip_values() {
    for &id in &[0x80u64, 0xA3, 0x4286, 0x7FFF, 0x2AD7B1, 0x1A45DFA3, 0x18538067] {
        let mut data = vec![0u8; 8];
        let end = gen_vid(id, &mut data, 0).unwrap();
        let (n, v) = parse::vid(&data).unwrap();
        assert_eq!(v as u64, id);
        assert_eq!(n, end);
    }
}

#[test]
fn uint_bytes_and_refusal() {
    let mut data = vec![0u8; 4];
    assert_eq!(gen_uint(0x1234, &mut data, 0), Ok(2));
    assert_eq!(&data[..2], &[0x12, 0x34]);
    assert_eq!(gen_uint(u64::MAX, &mut data, 0), Err(GenError::CustomError(0)));
}

#[test]
fn ebml_uint_roundtrip() {
    for &num in &[0u64, 8, 127, 128, 255, 2100000, (1u64 << 55)] {
        let mut data = vec![0u8; 20];
        let end = gen_ebml_uint(0x4286, num, &mut data, 0).unwrap();
        let (n, v) = ebml_uint(0x4286, &data).unwrap();
        assert_eq!(v, num);
        assert_eq!(n, end);
    }
}

#[test]
fn ebml_int_refuses_negative() {
    let mut data = vec![0u8; 20];
    assert_eq!(gen_ebml_int(0x537F, -1, &mut data, 0), Err(GenError::CustomError(0)));
    assert_eq!(gen_ebml_int(0x537F, 5, &mut data, 0), Ok(4));
    assert_eq!(&data[..4], &[0x53, 0x7F, 0x81, 0x05]);
}

#[test]
fn ebml_str_bytes() {
    let mut data = vec![0u8; 20];
    assert_eq!(gen_ebml_str(0x4282, &"webm".to_string(), &mut data, 0), Ok(7));
    assert_eq!(&data[..7], &[0x42, 0x82, 0x84, b'w', b'e', b'b', b'm']);
}

#[test]
fn f64_roundtrip() {
    let mut data = vec![0u8; 20];
    let x = EbmlFloat::F64(641.91f64.to_bits());
    assert_eq!(gen_f64(0x4489, x, &mut data, 0), Ok(11));
    assert_eq!(&data[..3], &[0x44, 0x89, 0x88]);
    assert_eq!(parse_float(&data[3..11]), Ok(x));
    let y = EbmlFloat::F32(32.5f32.to_bits());
    assert_eq!(gen_f64(0xB5, y, &mut data, 0), Ok(6));
    assert_eq!(parse_float(&data[2..6]), Ok(y));
}

#[test]
fn ebml_header_roundtrip() {
    let header = webm_header();
    let mut data = vec![0u8; 100];
    let end = gen_ebml_header(&header, &mut data, 0).unwrap();
    assert_eq!(end, 4 + 1 + header.capacity());
    let (n, h) = ebml_header(&data).unwrap();
    assert_eq!(n, end);
    assert_eq!(h, header);
}

#[test]
fn ebml_header_wide_field_not_read_back() {
    let mut header = webm_header();
    header.version = 0x1000_0000;
    let mut data = vec![0u8; 100];
    gen_ebml_header(&header, &mut data, 0).unwrap();
    // The 5-byte version is refused and skipped; its default is read back.
    let (_, h) = ebml_header(&data).unwrap();
    assert_eq!(h, webm_header());
}

#[test]
fn ebml_header_buffer_too_small() {
    let header = webm_header();
    let mut data = vec![0u8; 10];
    assert!(matches!(gen_ebml_header(&header, &mut data, 0), Err(GenError::BufferTooSmall(_))));
}

#[test]
fn sizes() {
    assert_eq!(5u64.capacity(), 1);
    assert_eq!(5u64.size(0x4286), 4);
    assert_eq!(300u64.capacity(), 2);
    assert_eq!((-1i64).capacity(), 0);
    assert_eq!("webm".to_string().size(0x4282), 7);
    assert_eq!(Some(5u64).size(0x4286), 4);
    assert_eq!(None::<u64>.size(0x4286), 0);
    assert_eq!(EbmlSize::capacity(&vec![vec![1u8, 2], vec![3u8]]), 3);
    assert_eq!(webm_header().capacity(), 4 * 6 + 7);
}

#[test]
fn segment_header_unknown_size() {
    let mut data = vec![0u8; 8];
    assert_eq!(gen_segment_header_unknown_size(&mut data, 0), Ok(5));
    assert_eq!(&data[..5], &[0x18, 0x53, 0x80, 0x67, 0xFF]);
}

#[test]
fn simple_block_header_bytes() {
    let s = SimpleBlock {
        track_number: 1,
        timestamp: 0x0102,
        keyframe: true,
        invisible: false,
        lacing: Lacing::Xiph,
        discardable: true,
    };
    let mut data = vec![0u8; 8];
    assert_eq!(gen_simple_block_header(&s, &mut data, 0), Ok(4));
    assert_eq!(&data[..4], &[0x81, 0x01, 0x02, 0x80 | 0x02 | 0x01]);
    let (n, back) = elements::simple_block(&data[..4]).unwrap();
    assert_eq!(n, 4);
    assert_eq!(back, s);
}

#[test]
fn keyframe_block_header_bytes() {
    let s = SimpleBlock {
        track_number: 1,
        timestamp: 0,
        keyframe: true,
        invisible: false,
        lacing: Lacing::NoLacing,
        discardable: false,
    };
    let mut data = vec![0u8; 4];
    assert_eq!(gen_simple_block_header(&s, &mut data, 0), Ok(4));
    assert_eq!(data, vec![0x81, 0x00, 0x00, 0x80]);
    assert_eq!(elements::simple_block(&data), Ok((4, s)));
}

#[test]
fn fourcc_packing() {
    assert_eq!(bytes_to_fourcc_bige(1, 2, 3, 4).to_u32(), 0x01020304);
    assert_eq!(bytes_to_fourcc_lte(1, 2, 3, 4).to_u32(), 0x04030201);
    assert_eq!(chars_to_fourcc_lte('I', '4', '2', '0').to_u32(), 0x30323449);
    assert_eq!(chars_to_fourcc_bige('I', '4', '2', '0').to_u32(), 0x49343230);
    assert_eq!(chars_to_fourcc_lte('a', 'b', 'c', 'd').to_string(), "abcd");
    assert_eq!(Fourcc::from_u32(7).to_u32(), 7);
    assert_eq!(Fourcc::from_string("YV12".to_string()).to_u32(), 0);
    assert!(Fourcc::from_u32(0xFF).to_string().contains('\u{FFFD}'));
}

#[test]
fn get_required_value() {
    assert_eq!(get_required(Some(3u64), 0x4286), Ok(3));
    assert_eq!(get_required(None::<u64>, 0x4286), Err(ErrorKind::MissingElement));
}

#[test]
fn vint_errors() {
    assert_eq!(parse::vint(&[]), Err(EbmlErr::Incomplete(Needed::Size(1))));
    assert_eq!(parse::vint(&[0x00, 0x01]), Err(EbmlErr::Error(Error { id: 0, kind: ErrorKind::VintTooWide })));
    assert_eq!(parse::vint(&[0x40]), Err(EbmlErr::Incomplete(Needed::Size(1))));
    assert_eq!(parse::vid(&[0x08, 0, 0, 0, 0, 0]), Err(EbmlErr::Error(Error { id: 0, kind: ErrorKind::IDTooWide })));
}

fn vp9_stream() -> StreamDesc {
    StreamDesc {
        id: 7,
        index: 0,
        duration: Some(1000),
        codec_id: Some("vp9".to_string()),
        extradata: None,
        delay: 0,
        convergence_window: 0,
        kind: Some(StreamKind::Video {
            width: 640,
            height: 480,
            matrix_coefficients: 1,
            transfer_characteristics: 1,
            primaries: 1,
        }),
    }
}

fn muxed_header() -> Vec<u8> {
    let mut m = MkvMuxer::webm();
    m.set_global_info(&vec![vp9_stream()], Some(EbmlFloat::F64(2.0f64.to_bits()))).unwrap();
    m.write_header().unwrap()
}

#[test]
fn muxer_header_bytes() {
    let bytes = muxed_header();
    let (n, h) = ebml_header(&bytes).unwrap();
    assert_eq!(h, webm_header());
    assert_eq!(&bytes[n..n + 5], &[0x18, 0x53, 0x80, 0x67, 0xFF]);
    match segment_element(&bytes[n + 5..]) {
        Ok((_, SegmentElement::SeekHead(s))) => {
            assert_eq!(s.positions.len(), 3);
            assert_eq!(s.positions[0].id, [0x15, 0x49, 0xA9, 0x66]);
            assert_eq!(s.positions[1].id, [0x16, 0x54, 0xAE, 0x6B]);
            assert_eq!(s.positions[2].id, [0x1F, 0x43, 0xB6, 0x75]);
        }
        other => panic!("{:?}", other),
    }
}

#[test]
fn demuxer_reads_muxed_tracks() {
    let bytes = muxed_header();
    let mut d = MkvDemuxer::with_params(DemuxerParams { track_numbers: Some(vec![1]) });
    let n = d.read_headers(&bytes).unwrap();
    assert_eq!(n, bytes.len());
    let info = d.info.clone().unwrap();
    assert_eq!(info.muxing_app, "rust-av");
    assert_eq!(info.timestamp_scale, 1000000);
    let tracks = d.tracks.clone().unwrap();
    assert_eq!(tracks.tracks.len(), 1);
    assert_eq!(tracks.tracks[0].track_number, 1);
    assert_eq!(tracks.tracks[0].track_uid, 7);
    assert_eq!(tracks.tracks[0].codec_id, "V_VP9");
    assert_eq!(track_entry_codec_id(&tracks.tracks[0]), Some("vp9".to_string()));
    assert_eq!(tracks.tracks[0].video.as_ref().unwrap().pixel_width, 640);
    assert_eq!(tracks.lookup(1), Some(0));
    assert_eq!(tracks.lookup(2), None);
}

#[test]
fn demuxer_without_track_numbers_keeps_all_tracks() {
    let bytes = muxed_header();
    let mut d = MkvDemuxer::new();
    assert_eq!(d.read_headers(&bytes), Ok(bytes.len()));
    let tracks = d.tracks.unwrap();
    assert_eq!(tracks.tracks.len(), 1);
    assert_eq!(tracks.tracks[0].track_number, 1);
    let mut d = MkvDemuxer::with_params(DemuxerParams { track_numbers: None });
    assert_eq!(d.read_headers(&bytes), Ok(bytes.len()));
    assert_eq!(d.tracks.unwrap().tracks.len(), 1);
}

#[test]
fn demuxer_other_tracks_filtered_out() {
    let bytes = muxed_header();
    let mut d = MkvDemuxer::with_params(DemuxerParams { track_numbers: Some(vec![2]) });
    assert_eq!(d.read_headers(&bytes), Ok(bytes.len()));
    assert_eq!(d.tracks.unwrap().tracks.len(), 0);
}

#[test]
fn demuxer_duplicate_seek_head() {
    let bytes = muxed_header();
    let (n, _) = ebml_header(&bytes).unwrap();
    let (m, _) = segment_element(&bytes[n + 5..]).unwrap();
    let mut doubled = bytes[..n + 5 + m].to_vec();
    doubled.extend_from_slice(&bytes[n + 5..]);
    let mut d = MkvDemuxer::with_params(DemuxerParams { track_numbers: Some(vec![1]) });
    assert_eq!(
        d.parse_until_tracks(&doubled),
        Err(EbmlErr::Error(Error { id: 0x114D9B74, kind: ErrorKind::DuplicateSegment }))
    );
    assert_eq!(d.header.as_ref().unwrap().doc_type, "webm");
    assert_eq!(d.seek_head.as_ref().unwrap().positions.len(), 3);
    assert!(d.info.is_none());
    assert_eq!(d.read_headers(&doubled), Err(DemuxError::InvalidData));
}

#[test]
fn demuxer_duplicate_seek_head_without_parameters() {
    let h = [0x1A, 0x45, 0xDF, 0xA3, 0x87, 0x42, 0x82, 0x84, 0x77, 0x65, 0x62, 0x6D];
    let sh = [
        0x11, 0x4D, 0x9B, 0x74, 0x8E, 0x4D, 0xBB, 0x8B, 0x53, 0xAB, 0x84, 0x15, 0x49, 0xA9, 0x66, 0x53, 0xAC,
        0x81, 0x00,
    ];
    let mut input = h.to_vec();
    input.extend_from_slice(&[0x18, 0x53, 0x80, 0x67, 0xFF]);
    input.extend_from_slice(&sh);
    input.extend_from_slice(&sh);
    let mut d = MkvDemuxer::new();
    assert_eq!(
        d.parse_until_tracks(&input),
        Err(EbmlErr::Error(Error { id: 0x114D9B74, kind: ErrorKind::DuplicateSegment }))
    );
    assert_eq!(d.header.as_ref().unwrap().doc_type, "webm");
    let seek_head = d.seek_head.unwrap();
    assert_eq!(seek_head.positions.len(), 1);
    assert_eq!(seek_head.positions[0].id, [0x15, 0x49, 0xA9, 0x66]);
    assert_eq!(seek_head.positions[0].position, 0);
}

#[test]
fn filter_keeps_order() {
    let mut m = MkvMuxer::webm();
    let mut s2 = vp9_stream();
    s2.index = 1;
    let mut s3 = vp9_stream();
    s3.index = 2;
    m.set_global_info(&vec![vp9_stream(), s2, s3], None).unwrap();
    let tracks = m.tracks.unwrap().tracks;
    let kept = filter_tracks(tracks, &vec![3, 1]);
    assert_eq!(kept.len(), 2);
    assert_eq!(kept[0].track_number, 1);
    assert_eq!(kept[1].track_number, 3);
}

#[test]
fn muxer_packets() {
    let mut m = MkvMuxer::webm();
    let p = PacketDesc { stream_index: 0, pts: Some(5), dts: None, is_key: false, data: vec![9, 9] };
    assert_eq!(m.write_packet(&p), Ok(None));
    assert_eq!(m.blocks.len(), 1);
    assert_eq!(m.blocks[0], vec![0x81, 0x00, 0x05, 0x00, 9, 9]);
    assert_eq!(m.blocks_len, 6);
    assert_eq!(m.timecode, Some(5));
    assert_eq!(m.write_packet(&p), Err(MuxError::InvalidData));
    assert_eq!(m.blocks.len(), 2);
    assert_eq!(m.blocks_len, m.blocks[0].len() + m.blocks[1].len());
    let out = m.write_trailer().unwrap().unwrap();
    assert_eq!(m.timecode, None);
    assert_eq!(
        out,
        vec![
            0x1F, 0x43, 0xB6, 0x75, 0x93, 0xE7, 0x81, 0x05, 0xA3, 0x86, 0x81, 0x00, 0x05, 0x00, 9, 9, 0xA3, 0x86,
            0x81, 0x00, 0x05, 0x00, 9, 9,
        ]
    );
    assert_eq!(m.blocks.len(), 2);
}

#[test]
fn muxer_keyframe_flushes() {
    let mut m = MkvMuxer::matroska();
    let p = PacketDesc { stream_index: 1, pts: None, dts: Some(3), is_key: true, data: vec![1] };
    let out = m.write_packet(&p).unwrap().unwrap();
    assert_eq!(
        out,
        vec![0x1F, 0x43, 0xB6, 0x75, 0x8A, 0xE7, 0x81, 0x03, 0xA3, 0x85, 0x82, 0x00, 0x03, 0x80, 0x01]
    );
    match segment_element(&out) {
        Ok((n, SegmentElement::Cluster(c))) => {
            assert_eq!(n, out.len());
            assert_eq!(c.timestamp, 3);
            assert_eq!(c.simple_block, vec![vec![0x82, 0x00, 0x03, 0x80, 0x01]]);
        }
        e => panic!("unexpected result: {:?}", e),
    }
    assert_eq!(m.blocks.len(), 0);
    assert_eq!(m.blocks_len, 0);
    assert_eq!(m.timecode, None);
    assert_eq!(m.header.doc_type, "matroska");
}

#[test]
fn cluster_packets_are_read() {
    // A Cluster whose SimpleBlocks are written by hand: timestamp 0, then one
    // block of track 1 and one of an unknown track.
    let mut cluster = vec![0x1F, 0x43, 0xB6, 0x75, 0x90, 0xE7, 0x81, 0x00];
    cluster.extend_from_slice(&[0xA3, 0x85, 0x81, 0x00, 0x07, 0x80, 0xAA]);
    cluster.extend_from_slice(&[0xA3, 0x84, 0x82, 0x00, 0x01, 0x80]);
    cluster.push(0x00);
    let bytes = muxed_header();
    let mut d = MkvDemuxer::with_params(DemuxerParams { track_numbers: Some(vec![1]) });
    d.read_headers(&bytes).unwrap();
    match d.read_event(&cluster) {
        Ok((n, DemuxEvent::NewPacket(p))) => {
            assert_eq!(n, 21);
            assert_eq!(p.data, vec![0xAA]);
            assert_eq!(p.pts, 7);
            assert_eq!(p.stream_index, 0);
            assert!(p.is_key);
        }
        other => panic!("{:?}", other),
    }
    assert_eq!(d.queue.len(), 0);
    assert_eq!(d.read_event(&cluster[..3]), Err(DemuxError::MoreDataNeeded(1)));
}

#[test]
fn block_flags_bits() {
    let f = elements::block_flags(0b1000_1001).unwrap();
    assert!(f.keyframe);
    assert!(f.invisible);
    assert_eq!(f.lacing, Lacing::NoLacing);
    assert!(f.discardable);
}

#[test]
fn skip_whole_element() {
    let data = [0xEC, 0x82, 0x00, 0x00, 0x42];
    assert_eq!(skip_element(&data), Ok((4, 0xEC)));
}

#[test]
fn seek_head_roundtrip() {
    let seek_head = SeekHead {
        positions: vec![
            Seek { id: [0x15, 0x49, 0xA9, 0x66], position: 0 },
            Seek { id: [0x16, 0x54, 0xAE, 0x6B], position: 300 },
        ],
    };
    let mut data = vec![0u8; 100];
    let end = gen_seek_head(&seek_head, &mut data, 0).unwrap();
    assert_eq!(end, 34);
    match segment_element(&data) {
        Ok((n, SegmentElement::SeekHead(o))) => {
            assert_eq!(n, end);
            assert_eq!(o, seek_head);
        }
        e => panic!("unexpected result: {:?}", e),
    }
}

#[test]
fn seek_head_without_seek_refused() {
    let seek_head = SeekHead { positions: vec![] };
    let mut data = vec![0u8; 10];
    let end = gen_seek_head(&seek_head, &mut data, 0).unwrap();
    assert_eq!(&data[..end], &[0x11, 0x4D, 0x9B, 0x74, 0x80]);
    assert!(segment_element(&data).is_err());
}

#[test]
fn laced_frames_not_written() {
    let mut data = vec![7u8; 8];
    let frames = vec![vec![1u8, 2], vec![3u8]];
    for lacing in [Lacing::NoLacing, Lacing::Xiph, Lacing::EBML, Lacing::FixedSize] {
        assert_eq!(gen_laced_frames(lacing, &frames, &mut data, 0), Err(GenError::NotYetImplemented));
        assert_eq!(data, vec![7u8; 8]);
    }
}

#[test]
fn mkv_prefix_is_its_parts() {
    let header = webm_header();
    let seek_head = SeekHead { positions: vec![Seek { id: [0x15, 0x49, 0xA9, 0x66], position: 0 }] };
    let info = Info {
        segment_uid: None,
        segment_filename: None,
        prev_uid: None,
        prev_filename: None,
        next_uid: None,
        next_filename: None,
        segment_family: None,
        timestamp_scale: 1000000,
        duration: None,
        date_utc: None,
        title: None,
        muxing_app: "app".to_string(),
        writing_app: "app".to_string(),
    };
    let tracks = Tracks { tracks: vec![] };
    let mut data = vec![0u8; 200];
    let end = gen_mkv_prefix(&header, &seek_head, &info, &tracks, &mut data, 0).unwrap();
    let mut parts = vec![0u8; 200];
    let p = gen_ebml_header(&header, &mut parts, 0).unwrap();
    let p = gen_seek_head(&seek_head, &mut parts, p).unwrap();
    let p = gen_info(&info, &mut parts, p).unwrap();
    let p = gen_tracks(&tracks, &mut parts, p).unwrap();
    assert_eq!(end, p);
    assert_eq!(data, parts);
    let (n, h) = ebml_header(&data).unwrap();
    assert_eq!(h, header);
    match segment_element(&data[n..]) {
        Ok((_, SegmentElement::SeekHead(o))) => assert_eq!(o, seek_head),
        e => panic!("unexpected result: {:?}", e),
    }
}

#[test]
fn wide_integers_refused() {
    assert_eq!(parse::parse_u32(&[1, 2, 3, 4]), Ok(0x01020304));
    assert_eq!(parse::parse_u32(&[1, 2, 3, 4, 5]), Err(ErrorKind::U32TooWide));
    assert_eq!(parse::parse_u64(&[0, 0, 0, 0, 0, 0, 1, 0]), Ok(256));
    assert_eq!(parse::parse_u64(&[0; 9]), Err(ErrorKind::UintTooWide));
    assert_eq!(parse::parse_i64(&[0xFF; 8]), Ok(-1));
    assert_eq!(parse::parse_i64(&[0; 9]), Err(ErrorKind::IntTooWide));
}

#[test]
fn track_entry_takes_its_size() {
    for s in [vp9_stream(), StreamDesc { codec_id: Some("opus".to_string()), kind: None, ..vp9_stream() }] {
        let t = stream_to_track(&s);
        let mut data = vec![0u8; 500];
        let end = gen_track_entry(&t, &mut data, 3).unwrap();
        assert_eq!(end - 3, t.size(0xAE));
        let cap = t.capacity();
        assert_eq!(t.size(0xAE), 1 + vint_size(cap as u64).unwrap() as usize + cap);
    }
}

#[test]
fn codec_table_roundtrip() {
    for name in ["opus", "vorbis", "av1", "vp8", "vp9"] {
        let s = StreamDesc { codec_id: Some(name.to_string()), ..vp9_stream() };
        assert_eq!(track_entry_codec_id(&stream_to_track(&s)), Some(name.to_string()));
    }
    let s = StreamDesc { codec_id: Some("h264".to_string()), ..vp9_stream() };
    assert_eq!(track_entry_codec_id(&stream_to_track(&s)), None);
    let s = StreamDesc { codec_id: None, ..vp9_stream() };
    assert_eq!(track_entry_codec_id(&stream_to_track(&s)), None);
}

#[test]
fn encoding_fourccs() {
    let all = [
        (encoding_i420(), ['I', '4', '2', '0']),
        (encoding_i420_16(), ['i', '4', '2', '0']),
        (encoding_i420_10(), ['i', '4', '1', '0']),
        (encoding_i420_s(), ['I', '4', '2', 'S']),
        (encoding_i420_slice(), ['S', '4', '2', '0']),
        (encoding_yv12(), ['Y', 'V', '1', '2']),
        (encoding_i422(), ['I', '4', '2', '2']),
        (encoding_i422_slice(), ['S', '4', '2', '2']),
        (encoding_yuyv(), ['Y', 'U', 'Y', 'V']),
        (encoding_yvyu(), ['Y', 'V', 'Y', 'U']),
        (encoding_uyvy(), ['U', 'Y', 'V', 'Y']),
        (encoding_vyuy(), ['V', 'Y', 'U', 'Y']),
        (encoding_nv12(), ['N', 'V', '1', '2']),
        (encoding_nv21(), ['N', 'V', '2', '1']),
    ];
    for (f, c) in all {
        assert_eq!(f.to_u32(), chars_to_fourcc_lte(c[0], c[1], c[2], c[3]).to_u32());
    }
    assert_eq!(encoding_i420().to_u32(), 0x30323449);
}

#[test]
fn crc32_check_value() {
    assert_eq!(parse::checksum(Some(0xCBF43926), b"123456789"), Ok(()));
    assert_eq!(parse::checksum(Some(0xCBF43927), b"123456789"), Err(ErrorKind::Crc32Mismatch));
    assert_eq!(parse::checksum(None, b"123456789"), Ok(()));
}

#[test]
fn stream_indices_assigned_in_order() {
    let mut m = MkvMuxer::webm();
    let mut s2 = vp9_stream();
    s2.index = 1;
    m.set_global_info(&vec![vp9_stream(), s2], None).unwrap();
    let mut tracks = m.tracks.unwrap();
    let before = tracks.clone();
    tracks.assign_stream_indices(5);
    assert_eq!(tracks.tracks.len(), 2);
    assert_eq!(tracks.tracks[0].stream_index, 5);
    assert_eq!(tracks.tracks[1].stream_index, 6);
    assert_eq!(tracks.tracks[1].track_number, before.tracks[1].track_number);
    assert_eq!(tracks.lookup(2), Some(6));
}
