use vstd::prelude::*;

use crate::ebml::error::ErrorKind;
use crate::ebml::fields::{
    all_ranges, data_of, first_range, read_bin, read_bin4, read_date, read_float, read_i64,
    read_many_bin, read_many_u64, read_str, read_u32, read_u64, read_uuid, rel_bin, rel_bin4,
    rel_date, rel_float, rel_i64, rel_str, rel_u32, rel_u64, rel_uuid,
};
use crate::ebml::parse::{Date, EbmlFloat};
use crate::ebml::schema::{schema, FieldKind, MasterId};
use crate::permutation::{
    lemma_master_wf, range_bytes, range_ok, scan_master, slot_wf, slots_view, spec_master, Slots,
};

verus! {
/// The SeekHead element (Element ID 0x114D9B74): where the top-level elements are.
#[derive(Debug, Clone, PartialEq, Eq)]
pub struct SeekHead {
    /// Element ID 0x4DBB.
    pub positions: Vec<Seek>,
}

impl SeekHead {
    /// The fields of `self` are those of the SeekHead element whose data is `d`:
    /// each one is the value of the element that the scan found for it,
    /// or its default when there is none.
    #[verifier::opaque]
    pub open spec fn models(self, d: Seq<u8>) -> bool {
        match spec_master(MasterId::SeekHead, d) {
            Ok(slots) => {
                &&& (match slots[0] { Some(rs) => self.positions@.len() == rs.len() && forall|i: int| 0 <= i < rs.len() ==> #[trigger] self.positions@[i].models(range_bytes(d, rs[i])), None => self.positions@.len() == 0 })
            },
            Err(_) => false,
        }
    }

    /// Parses the data of a SeekHead element: the fields that its scan finds,
    /// with defaults for the missing optional ones.
    pub fn from_payload(data: &[u8]) -> (r: Result<SeekHead, ErrorKind>)
        ensures
            r is Ok <==> spec_master(MasterId::SeekHead, data@) is Ok,
            r matches Ok(x) ==> x.models(data@),
            r matches Err(k) ==> spec_master(MasterId::SeekHead, data@) == Err::<Slots, ErrorKind>(k),
    {
        let slots = match scan_master(MasterId::SeekHead, data) {
            Ok(s) => s,
            Err(k) => return Err(k),
        };
        proof {
            assert(data@.len() == data.len());
            lemma_master_wf(MasterId::SeekHead, data@);
        }
        proof {
            assert(slot_wf(schema(MasterId::SeekHead)[0], data@, slots_view(slots@)[0]));
        }
        let rs_positions = all_ranges(&slots, 0);
        let f_positions = match read_many_seek(data, &rs_positions) {
            Ok(v) => v,
            Err(e) => return Err(e),
        };
        proof {
            reveal(SeekHead::models);
        }
        Ok(SeekHead {
            positions: f_positions,
        })
    }
}

/// The value of a SeekHead element whose data is known to be valid.
pub fn read_seek_head(d: &[u8], r: (usize, usize)) -> (v: Result<SeekHead, ErrorKind>)
    requires
        range_ok(FieldKind::Master(MasterId::SeekHead), d@, r),
    ensures
        v matches Ok(x) && x.models(range_bytes(d@, r)),
{
    SeekHead::from_payload(data_of(d, r))
}

/// The values of repeated SeekHead elements whose data is known to be valid.
pub fn read_many_seek_head(d: &[u8], rs: &Vec<(usize, usize)>) -> (v: Result<Vec<SeekHead>, ErrorKind>)
    requires
        forall|i: int| 0 <= i < rs@.len() ==> #[trigger] range_ok(FieldKind::Master(MasterId::SeekHead), d@, rs@[i]),
    ensures
        v matches Ok(xs) && xs@.len() == rs@.len() && forall|i: int| 0 <= i < rs@.len() ==> (#[trigger] xs@[i]).models(range_bytes(d@, rs@[i])),
{
    let mut out: Vec<SeekHead> = Vec::new();
    let mut i: usize = 0;
    while i < rs.len()
        invariant
            i <= rs@.len(),
            out@.len() == i,
            forall|i: int| 0 <= i < rs@.len() ==> #[trigger] range_ok(FieldKind::Master(MasterId::SeekHead), d@, rs@[i]),
            forall|j: int| 0 <= j < i ==> (#[trigger] out@[j]).models(range_bytes(d@, rs@[j])),
        decreases rs.len() - i,
    {
        match read_seek_head(d, rs[i]) {
            Ok(x) => out.push(x),
            Err(e) => return Err(e),
        }
        i = i + 1;
    }
    Ok(out)
}

/// A Seek element (Element ID 0x4DBB): the Element ID and position of one top-level element.
#[derive(Debug, Clone, PartialEq, Eq)]
pub struct Seek {
    /// Element ID 0x53AB.
    pub id: [u8; 4],
    /// Element ID 0x53AC.
    pub position: u64,
}

impl Seek {
    /// The fields of `self` are those of the Seek element whose data is `d`:
    /// each one is the value of the element that the scan found for it,
    /// or its default when there is none.
    #[verifier::opaque]
    pub open spec fn models(self, d: Seq<u8>) -> bool {
        match spec_master(MasterId::Seek, d) {
            Ok(slots) => {
                &&& (slots[0] matches Some(rs) && rel_bin4(range_bytes(d, rs[0]), self.id))
                &&& (slots[1] matches Some(rs) && rel_u64(range_bytes(d, rs[0]), self.position))
            },
            Err(_) => false,
        }
    }

    /// Parses the data of a Seek element: the fields that its scan finds,
    /// with defaults for the missing optional ones.
    pub fn from_payload(data: &[u8]) -> (r: Result<Seek, ErrorKind>)
        ensures
            r is Ok <==> spec_master(MasterId::Seek, data@) is Ok,
            r matches Ok(x) ==> x.models(data@),
            r matches Err(k) ==> spec_master(MasterId::Seek, data@) == Err::<Slots, ErrorKind>(k),
    {
        let slots = match scan_master(MasterId::Seek, data) {
            Ok(s) => s,
            Err(k) => return Err(k),
        };
        proof {
            assert(data@.len() == data.len());
            lemma_master_wf(MasterId::Seek, data@);
        }
        proof {
            assert(slot_wf(schema(MasterId::Seek)[0], data@, slots_view(slots@)[0]));
        }
        let f_id = match first_range(&slots, 0) {
            Some(r) => read_bin4(data, r),
            None => {
                proof {
                    assert(schema(MasterId::Seek)[0].required);
                }
                return Err(ErrorKind::MissingElement);
            },
        };
        proof {
            assert(slot_wf(schema(MasterId::Seek)[1], data@, slots_view(slots@)[1]));
        }
        let f_position = match first_range(&slots, 1) {
            Some(r) => read_u64(data, r),
            None => {
                proof {
                    assert(schema(MasterId::Seek)[1].required);
                }
                return Err(ErrorKind::MissingElement);
            },
        };
        proof {
            reveal(Seek::models);
        }
        Ok(Seek {
            id: f_id,
            position: f_position,
        })
    }
}

/// The value of a Seek element whose data is known to be valid.
pub fn read_seek(d: &[u8], r: (usize, usize)) -> (v: Result<Seek, ErrorKind>)
    requires
        range_ok(FieldKind::Master(MasterId::Seek), d@, r),
    ensures
        v matches Ok(x) && x.models(range_bytes(d@, r)),
{
    Seek::from_payload(data_of(d, r))
}

/// The values of repeated Seek elements whose data is known to be valid.
pub fn read_many_seek(d: &[u8], rs: &Vec<(usize, usize)>) -> (v: Result<Vec<Seek>, ErrorKind>)
    requires
        forall|i: int| 0 <= i < rs@.len() ==> #[trigger] range_ok(FieldKind::Master(MasterId::Seek), d@, rs@[i]),
    ensures
        v matches Ok(xs) && xs@.len() == rs@.len() && forall|i: int| 0 <= i < rs@.len() ==> (#[trigger] xs@[i]).models(range_bytes(d@, rs@[i])),
{
    let mut out: Vec<Seek> = Vec::new();
    let mut i: usize = 0;
    while i < rs.len()
        invariant
            i <= rs@.len(),
            out@.len() == i,
            forall|i: int| 0 <= i < rs@.len() ==> #[trigger] range_ok(FieldKind::Master(MasterId::Seek), d@, rs@[i]),
            forall|j: int| 0 <= j < i ==> (#[trigger] out@[j]).models(range_bytes(d@, rs@[j])),
        decreases rs.len() - i,
    {
        match read_seek(d, rs[i]) {
            Ok(x) => out.push(x),
            Err(e) => return Err(e),
        }
        i = i + 1;
    }
    Ok(out)
}

/// The Info element (Element ID 0x1549A966): general information about the segment.
#[derive(Debug, Clone, PartialEq, Eq)]
pub struct Info {
    /// Element ID 0x73A4.
    pub segment_uid: Option<[u8; 16]>,
    /// Element ID 0x7384.
    pub segment_filename: Option<String>,
    /// Element ID 0x3CB923.
    pub prev_uid: Option<[u8; 16]>,
    /// Element ID 0x3C83AB.
    pub prev_filename: Option<String>,
    /// Element ID 0x3EB923.
    pub next_uid: Option<[u8; 16]>,
    /// Element ID 0x3E83BB.
    pub next_filename: Option<String>,
    /// Element ID 0x4444.
    pub segment_family: Option<[u8; 16]>,
    /// Element ID 0x2AD7B1.
    pub timestamp_scale: u64,
    /// Element ID 0x4489.
    pub duration: Option<EbmlFloat>,
    /// Element ID 0x4461.
    pub date_utc: Option<Date>,
    /// Element ID 0x7BA9.
    pub title: Option<String>,
    /// Element ID 0x4D80.
    pub muxing_app: String,
    /// Element ID 0x5741.
    pub writing_app: String,
}

impl Info {
    /// The fields of `self` are those of the Info element whose data is `d`:
    /// each one is the value of the element that the scan found for it,
    /// or its default when there is none.
    #[verifier::opaque]
    pub open spec fn models(self, d: Seq<u8>) -> bool {
        match spec_master(MasterId::Info, d) {
            Ok(slots) => {
                &&& (match slots[0] { Some(rs) => self.segment_uid matches Some(v) && rel_uuid(range_bytes(d, rs[0]), v), None => self.segment_uid is None })
                &&& (match slots[1] { Some(rs) => self.segment_filename matches Some(v) && rel_str(range_bytes(d, rs[0]), v), None => self.segment_filename is None })
                &&& (match slots[2] { Some(rs) => self.prev_uid matches Some(v) && rel_uuid(range_bytes(d, rs[0]), v), None => self.prev_uid is None })
                &&& (match slots[3] { Some(rs) => self.prev_filename matches Some(v) && rel_str(range_bytes(d, rs[0]), v), None => self.prev_filename is None })
                &&& (match slots[4] { Some(rs) => self.next_uid matches Some(v) && rel_uuid(range_bytes(d, rs[0]), v), None => self.next_uid is None })
                &&& (match slots[5] { Some(rs) => self.next_filename matches Some(v) && rel_str(range_bytes(d, rs[0]), v), None => self.next_filename is None })
                &&& (match slots[6] { Some(rs) => self.segment_family matches Some(v) && rel_uuid(range_bytes(d, rs[0]), v), None => self.segment_family is None })
                &&& (match slots[7] { Some(rs) => rel_u64(range_bytes(d, rs[0]), self.timestamp_scale), None => self.timestamp_scale == 1000000u64 })
                &&& (match slots[8] { Some(rs) => self.duration matches Some(v) && rel_float(range_bytes(d, rs[0]), v), None => self.duration is None })
                &&& (match slots[9] { Some(rs) => self.date_utc matches Some(v) && rel_date(range_bytes(d, rs[0]), v), None => self.date_utc is None })
                &&& (match slots[10] { Some(rs) => self.title matches Some(v) && rel_str(range_bytes(d, rs[0]), v), None => self.title is None })
                &&& (slots[11] matches Some(rs) && rel_str(range_bytes(d, rs[0]), self.muxing_app))
                &&& (slots[12] matches Some(rs) && rel_str(range_bytes(d, rs[0]), self.writing_app))
            },
            Err(_) => false,
        }
    }

    /// Parses the data of a Info element: the fields that its scan finds,
    /// with defaults for the missing optional ones.
    pub fn from_payload(data: &[u8]) -> (r: Result<Info, ErrorKind>)
        ensures
            r is Ok <==> spec_master(MasterId::Info, data@) is Ok,
            r matches Ok(x) ==> x.models(data@),
            r matches Err(k) ==> spec_master(MasterId::Info, data@) == Err::<Slots, ErrorKind>(k),
    {
        let slots = match scan_master(MasterId::Info, data) {
            Ok(s) => s,
            Err(k) => return Err(k),
        };
        proof {
            assert(data@.len() == data.len());
            lemma_master_wf(MasterId::Info, data@);
        }
        proof {
            assert(slot_wf(schema(MasterId::Info)[0], data@, slots_view(slots@)[0]));
        }
        let f_segment_uid = match first_range(&slots, 0) {
            Some(r) => Some(read_uuid(data, r)),
            None => None,
        };
        proof {
            assert(slot_wf(schema(MasterId::Info)[1], data@, slots_view(slots@)[1]));
        }
        let f_segment_filename = match first_range(&slots, 1) {
            Some(r) => Some(read_str(data, r)),
            None => None,
        };
        proof {
            assert(slot_wf(schema(MasterId::Info)[2], data@, slots_view(slots@)[2]));
        }
        let f_prev_uid = match first_range(&slots, 2) {
            Some(r) => Some(read_uuid(data, r)),
            None => None,
        };
        proof {
            assert(slot_wf(schema(MasterId::Info)[3], data@, slots_view(slots@)[3]));
        }
        let f_prev_filename = match first_range(&slots, 3) {
            Some(r) => Some(read_str(data, r)),
            None => None,
        };
        proof {
            assert(slot_wf(schema(MasterId::Info)[4], data@, slots_view(slots@)[4]));
        }
        let f_next_uid = match first_range(&slots, 4) {
            Some(r) => Some(read_uuid(data, r)),
            None => None,
        };
        proof {
            assert(slot_wf(schema(MasterId::Info)[5], data@, slots_view(slots@)[5]));
        }
        let f_next_filename = match first_range(&slots, 5) {
            Some(r) => Some(read_str(data, r)),
            None => None,
        };
        proof {
            assert(slot_wf(schema(MasterId::Info)[6], data@, slots_view(slots@)[6]));
        }
        let f_segment_family = match first_range(&slots, 6) {
            Some(r) => Some(read_uuid(data, r)),
            None => None,
        };
        proof {
            assert(slot_wf(schema(MasterId::Info)[7], data@, slots_view(slots@)[7]));
        }
        let f_timestamp_scale = match first_range(&slots, 7) {
            Some(r) => read_u64(data, r),
            None => 1000000u64,
        };
        proof {
            assert(slot_wf(schema(MasterId::Info)[8], data@, slots_view(slots@)[8]));
        }
        let f_duration = match first_range(&slots, 8) {
            Some(r) => Some(read_float(data, r)),
            None => None,
        };
        proof {
            assert(slot_wf(schema(MasterId::Info)[9], data@, slots_view(slots@)[9]));
        }
        let f_date_utc = match first_range(&slots, 9) {
            Some(r) => Some(read_date(data, r)),
            None => None,
        };
        proof {
            assert(slot_wf(schema(MasterId::Info)[10], data@, slots_view(slots@)[10]));
        }
        let f_title = match first_range(&slots, 10) {
            Some(r) => Some(read_str(data, r)),
            None => None,
        };
        proof {
            assert(slot_wf(schema(MasterId::Info)[11], data@, slots_view(slots@)[11]));
        }
        let f_muxing_app = match first_range(&slots, 11) {
            Some(r) => read_str(data, r),
            None => {
                proof {
                    assert(schema(MasterId::Info)[11].required);
                }
                return Err(ErrorKind::MissingElement);
            },
        };
        proof {
            assert(slot_wf(schema(MasterId::Info)[12], data@, slots_view(slots@)[12]));
        }
        let f_writing_app = match first_range(&slots, 12) {
            Some(r) => read_str(data, r),
            None => {
                proof {
                    assert(schema(MasterId::Info)[12].required);
                }
                return Err(ErrorKind::MissingElement);
            },
        };
        proof {
            reveal(Info::models);
        }
        Ok(Info {
            segment_uid: f_segment_uid,
            segment_filename: f_segment_filename,
            prev_uid: f_prev_uid,
            prev_filename: f_prev_filename,
            next_uid: f_next_uid,
            next_filename: f_next_filename,
            segment_family: f_segment_family,
            timestamp_scale: f_timestamp_scale,
            duration: f_duration,
            date_utc: f_date_utc,
            title: f_title,
            muxing_app: f_muxing_app,
            writing_app: f_writing_app,
        })
    }
}

/// The value of a Info element whose data is known to be valid.
pub fn read_info(d: &[u8], r: (usize, usize)) -> (v: Result<Info, ErrorKind>)
    requires
        range_ok(FieldKind::Master(MasterId::Info), d@, r),
    ensures
        v matches Ok(x) && x.models(range_bytes(d@, r)),
{
    Info::from_payload(data_of(d, r))
}

/// The values of repeated Info elements whose data is known to be valid.
pub fn read_many_info(d: &[u8], rs: &Vec<(usize, usize)>) -> (v: Result<Vec<Info>, ErrorKind>)
    requires
        forall|i: int| 0 <= i < rs@.len() ==> #[trigger] range_ok(FieldKind::Master(MasterId::Info), d@, rs@[i]),
    ensures
        v matches Ok(xs) && xs@.len() == rs@.len() && forall|i: int| 0 <= i < rs@.len() ==> (#[trigger] xs@[i]).models(range_bytes(d@, rs@[i])),
{
    let mut out: Vec<Info> = Vec::new();
    let mut i: usize = 0;
    while i < rs.len()
        invariant
            i <= rs@.len(),
            out@.len() == i,
            forall|i: int| 0 <= i < rs@.len() ==> #[trigger] range_ok(FieldKind::Master(MasterId::Info), d@, rs@[i]),
            forall|j: int| 0 <= j < i ==> (#[trigger] out@[j]).models(range_bytes(d@, rs@[j])),
        decreases rs.len() - i,
    {
        match read_info(d, rs[i]) {
            Ok(x) => out.push(x),
            Err(e) => return Err(e),
        }
        i = i + 1;
    }
    Ok(out)
}

/// A Cluster element (Element ID 0x1F43B675): blocks of data with their timestamp.
#[derive(Debug, Clone, PartialEq, Eq)]
pub struct Cluster {
    /// Element ID 0xE7.
    pub timestamp: u64,
    /// Element ID 0xA7.
    pub position: Option<u64>,
    /// Element ID 0xAB.
    pub prev_size: Option<u64>,
    /// Element ID 0xA3.
    pub simple_block: Vec<Vec<u8>>,
    /// Element ID 0xA0.
    pub block_group: Vec<BlockGroup>,
}

impl Cluster {
    /// The fields of `self` are those of the Cluster element whose data is `d`:
    /// each one is the value of the element that the scan found for it,
    /// or its default when there is none.
    #[verifier::opaque]
    pub open spec fn models(self, d: Seq<u8>) -> bool {
        match spec_master(MasterId::Cluster, d) {
            Ok(slots) => {
                &&& (slots[0] matches Some(rs) && rel_u64(range_bytes(d, rs[0]), self.timestamp))
                &&& (match slots[1] { Some(rs) => self.position matches Some(v) && rel_u64(range_bytes(d, rs[0]), v), None => self.position is None })
                &&& (match slots[2] { Some(rs) => self.prev_size matches Some(v) && rel_u64(range_bytes(d, rs[0]), v), None => self.prev_size is None })
                &&& (match slots[3] { Some(rs) => self.simple_block@.len() == rs.len() && forall|i: int| 0 <= i < rs.len() ==> rel_bin(range_bytes(d, rs[i]), #[trigger] self.simple_block@[i]), None => self.simple_block@.len() == 0 })
                &&& (match slots[4] { Some(rs) => self.block_group@.len() == rs.len() && forall|i: int| 0 <= i < rs.len() ==> #[trigger] self.block_group@[i].models(range_bytes(d, rs[i])), None => self.block_group@.len() == 0 })
            },
            Err(_) => false,
        }
    }

    /// Parses the data of a Cluster element: the fields that its scan finds,
    /// with defaults for the missing optional ones.
    pub fn from_payload(data: &[u8]) -> (r: Result<Cluster, ErrorKind>)
        ensures
            r is Ok <==> spec_master(MasterId::Cluster, data@) is Ok,
            r matches Ok(x) ==> x.models(data@),
            r matches Err(k) ==> spec_master(MasterId::Cluster, data@) == Err::<Slots, ErrorKind>(k),
    {
        let slots = match scan_master(MasterId::Cluster, data) {
            Ok(s) => s,
            Err(k) => return Err(k),
        };
        proof {
            assert(data@.len() == data.len());
            lemma_master_wf(MasterId::Cluster, data@);
        }
        proof {
            assert(slot_wf(schema(MasterId::Cluster)[0], data@, slots_view(slots@)[0]));
        }
        let f_timestamp = match first_range(&slots, 0) {
            Some(r) => read_u64(data, r),
            None => {
                proof {
                    assert(schema(MasterId::Cluster)[0].required);
                }
                return Err(ErrorKind::MissingElement);
            },
        };
        proof {
            assert(slot_wf(schema(MasterId::Cluster)[1], data@, slots_view(slots@)[1]));
        }
        let f_position = match first_range(&slots, 1) {
            Some(r) => Some(read_u64(data, r)),
            None => None,
        };
        proof {
            assert(slot_wf(schema(MasterId::Cluster)[2], data@, slots_view(slots@)[2]));
        }
        let f_prev_size = match first_range(&slots, 2) {
            Some(r) => Some(read_u64(data, r)),
            None => None,
        };
        proof {
            assert(slot_wf(schema(MasterId::Cluster)[3], data@, slots_view(slots@)[3]));
        }
        let rs_simple_block = all_ranges(&slots, 3);
        let f_simple_block = read_many_bin(data, &rs_simple_block);
        proof {
            assert(slot_wf(schema(MasterId::Cluster)[4], data@, slots_view(slots@)[4]));
        }
        let rs_block_group = all_ranges(&slots, 4);
        let f_block_group = match read_many_block_group(data, &rs_block_group) {
            Ok(v) => v,
            Err(e) => return Err(e),
        };
        proof {
            reveal(Cluster::models);
        }
        Ok(Cluster {
            timestamp: f_timestamp,
            position: f_position,
            prev_size: f_prev_size,
            simple_block: f_simple_block,
            block_group: f_block_group,
        })
    }
}

/// The value of a Cluster element whose data is known to be valid.
pub fn read_cluster(d: &[u8], r: (usize, usize)) -> (v: Result<Cluster, ErrorKind>)
    requires
        range_ok(FieldKind::Master(MasterId::Cluster), d@, r),
    ensures
        v matches Ok(x) && x.models(range_bytes(d@, r)),
{
    Cluster::from_payload(data_of(d, r))
}

/// The values of repeated Cluster elements whose data is known to be valid.
pub fn read_many_cluster(d: &[u8], rs: &Vec<(usize, usize)>) -> (v: Result<Vec<Cluster>, ErrorKind>)
    requires
        forall|i: int| 0 <= i < rs@.len() ==> #[trigger] range_ok(FieldKind::Master(MasterId::Cluster), d@, rs@[i]),
    ensures
        v matches Ok(xs) && xs@.len() == rs@.len() && forall|i: int| 0 <= i < rs@.len() ==> (#[trigger] xs@[i]).models(range_bytes(d@, rs@[i])),
{
    let mut out: Vec<Cluster> = Vec::new();
    let mut i: usize = 0;
    while i < rs.len()
        invariant
            i <= rs@.len(),
            out@.len() == i,
            forall|i: int| 0 <= i < rs@.len() ==> #[trigger] range_ok(FieldKind::Master(MasterId::Cluster), d@, rs@[i]),
            forall|j: int| 0 <= j < i ==> (#[trigger] out@[j]).models(range_bytes(d@, rs@[j])),
        decreases rs.len() - i,
    {
        match read_cluster(d, rs[i]) {
            Ok(x) => out.push(x),
            Err(e) => return Err(e),
        }
        i = i + 1;
    }
    Ok(out)
}

/// A BlockGroup element (Element ID 0xA0): a block with its properties.
#[derive(Debug, Clone, PartialEq, Eq)]
pub struct BlockGroup {
    /// Element ID 0xA1.
    pub block: Vec<u8>,
    /// Element ID 0x9B.
    pub block_duration: Option<u64>,
    /// Element ID 0xFA.
    pub reference_priority: u64,
    /// Element ID 0xFB.
    pub reference_block: Option<u64>,
    /// Element ID 0xA4.
    pub codec_state: Option<Vec<u8>>,
    /// Element ID 0x75A2.
    pub discard_padding: Option<i64>,
}

impl BlockGroup {
    /// The fields of `self` are those of the BlockGroup element whose data is `d`:
    /// each one is the value of the element that the scan found for it,
    /// or its default when there is none.
    #[verifier::opaque]
    pub open spec fn models(self, d: Seq<u8>) -> bool {
        match spec_master(MasterId::BlockGroup, d) {
            Ok(slots) => {
                &&& (slots[0] matches Some(rs) && rel_bin(range_bytes(d, rs[0]), self.block))
                &&& (match slots[1] { Some(rs) => self.block_duration matches Some(v) && rel_u64(range_bytes(d, rs[0]), v), None => self.block_duration is None })
                &&& (match slots[2] { Some(rs) => rel_u64(range_bytes(d, rs[0]), self.reference_priority), None => self.reference_priority == 0u64 })
                &&& (match slots[3] { Some(rs) => self.reference_block matches Some(v) && rel_u64(range_bytes(d, rs[0]), v), None => self.reference_block is None })
                &&& (match slots[4] { Some(rs) => self.codec_state matches Some(v) && rel_bin(range_bytes(d, rs[0]), v), None => self.codec_state is None })
                &&& (match slots[5] { Some(rs) => self.discard_padding matches Some(v) && rel_i64(range_bytes(d, rs[0]), v), None => self.discard_padding is None })
            },
            Err(_) => false,
        }
    }

    /// Parses the data of a BlockGroup element: the fields that its scan finds,
    /// with defaults for the missing optional ones.
    pub fn from_payload(data: &[u8]) -> (r: Result<BlockGroup, ErrorKind>)
        ensures
            r is Ok <==> spec_master(MasterId::BlockGroup, data@) is Ok,
            r matches Ok(x) ==> x.models(data@),
            r matches Err(k) ==> spec_master(MasterId::BlockGroup, data@) == Err::<Slots, ErrorKind>(k),
    {
        let slots = match scan_master(MasterId::BlockGroup, data) {
            Ok(s) => s,
            Err(k) => return Err(k),
        };
        proof {
            assert(data@.len() == data.len());
            lemma_master_wf(MasterId::BlockGroup, data@);
        }
        proof {
            assert(slot_wf(schema(MasterId::BlockGroup)[0], data@, slots_view(slots@)[0]));
        }
        let f_block = match first_range(&slots, 0) {
            Some(r) => read_bin(data, r),
            None => {
                proof {
                    assert(schema(MasterId::BlockGroup)[0].required);
                }
                return Err(ErrorKind::MissingElement);
            },
        };
        proof {
            assert(slot_wf(schema(MasterId::BlockGroup)[1], data@, slots_view(slots@)[1]));
        }
        let f_block_duration = match first_range(&slots, 1) {
            Some(r) => Some(read_u64(data, r)),
            None => None,
        };
        proof {
            assert(slot_wf(schema(MasterId::BlockGroup)[2], data@, slots_view(slots@)[2]));
        }
        let f_reference_priority = match first_range(&slots, 2) {
            Some(r) => read_u64(data, r),
            None => 0u64,
        };
        proof {
            assert(slot_wf(schema(MasterId::BlockGroup)[3], data@, slots_view(slots@)[3]));
        }
        let f_reference_block = match first_range(&slots, 3) {
            Some(r) => Some(read_u64(data, r)),
            None => None,
        };
        proof {
            assert(slot_wf(schema(MasterId::BlockGroup)[4], data@, slots_view(slots@)[4]));
        }
        let f_codec_state = match first_range(&slots, 4) {
            Some(r) => Some(read_bin(data, r)),
            None => None,
        };
        proof {
            assert(slot_wf(schema(MasterId::BlockGroup)[5], data@, slots_view(slots@)[5]));
        }
        let f_discard_padding = match first_range(&slots, 5) {
            Some(r) => Some(read_i64(data, r)),
            None => None,
        };
        proof {
            reveal(BlockGroup::models);
        }
        Ok(BlockGroup {
            block: f_block,
            block_duration: f_block_duration,
            reference_priority: f_reference_priority,
            reference_block: f_reference_block,
            codec_state: f_codec_state,
            discard_padding: f_discard_padding,
        })
    }
}

/// The value of a BlockGroup element whose data is known to be valid.
pub fn read_block_group(d: &[u8], r: (usize, usize)) -> (v: Result<BlockGroup, ErrorKind>)
    requires
        range_ok(FieldKind::Master(MasterId::BlockGroup), d@, r),
    ensures
        v matches Ok(x) && x.models(range_bytes(d@, r)),
{
    BlockGroup::from_payload(data_of(d, r))
}

/// The values of repeated BlockGroup elements whose data is known to be valid.
pub fn read_many_block_group(d: &[u8], rs: &Vec<(usize, usize)>) -> (v: Result<Vec<BlockGroup>, ErrorKind>)
    requires
        forall|i: int| 0 <= i < rs@.len() ==> #[trigger] range_ok(FieldKind::Master(MasterId::BlockGroup), d@, rs@[i]),
    ensures
        v matches Ok(xs) && xs@.len() == rs@.len() && forall|i: int| 0 <= i < rs@.len() ==> (#[trigger] xs@[i]).models(range_bytes(d@, rs@[i])),
{
    let mut out: Vec<BlockGroup> = Vec::new();
    let mut i: usize = 0;
    while i < rs.len()
        invariant
            i <= rs@.len(),
            out@.len() == i,
            forall|i: int| 0 <= i < rs@.len() ==> #[trigger] range_ok(FieldKind::Master(MasterId::BlockGroup), d@, rs@[i]),
            forall|j: int| 0 <= j < i ==> (#[trigger] out@[j]).models(range_bytes(d@, rs@[j])),
        decreases rs.len() - i,
    {
        match read_block_group(d, rs[i]) {
            Ok(x) => out.push(x),
            Err(e) => return Err(e),
        }
        i = i + 1;
    }
    Ok(out)
}

/// The Tracks element (Element ID 0x1654AE6B): the tracks of the segment.
#[derive(Debug, Clone, PartialEq, Eq)]
pub struct Tracks {
    /// Element ID 0xAE.
    pub tracks: Vec<TrackEntry>,
}

impl Tracks {
    /// The fields of `self` are those of the Tracks element whose data is `d`:
    /// each one is the value of the element that the scan found for it,
    /// or its default when there is none.
    #[verifier::opaque]
    pub open spec fn models(self, d: Seq<u8>) -> bool {
        match spec_master(MasterId::Tracks, d) {
            Ok(slots) => {
                &&& (match slots[0] { Some(rs) => self.tracks@.len() == rs.len() && forall|i: int| 0 <= i < rs.len() ==> #[trigger] self.tracks@[i].models(range_bytes(d, rs[i])), None => self.tracks@.len() == 0 })
            },
            Err(_) => false,
        }
    }

    /// Parses the data of a Tracks element: the fields that its scan finds,
    /// with defaults for the missing optional ones.
    pub fn from_payload(data: &[u8]) -> (r: Result<Tracks, ErrorKind>)
        ensures
            r is Ok <==> spec_master(MasterId::Tracks, data@) is Ok,
            r matches Ok(x) ==> x.models(data@),
            r matches Err(k) ==> spec_master(MasterId::Tracks, data@) == Err::<Slots, ErrorKind>(k),
    {
        let slots = match scan_master(MasterId::Tracks, data) {
            Ok(s) => s,
            Err(k) => return Err(k),
        };
        proof {
            assert(data@.len() == data.len());
            lemma_master_wf(MasterId::Tracks, data@);
        }
        proof {
            assert(slot_wf(schema(MasterId::Tracks)[0], data@, slots_view(slots@)[0]));
        }
        let rs_tracks = all_ranges(&slots, 0);
        let f_tracks = match read_many_track_entry(data, &rs_tracks) {
            Ok(v) => v,
            Err(e) => return Err(e),
        };
        proof {
            reveal(Tracks::models);
        }
        Ok(Tracks {
            tracks: f_tracks,
        })
    }
}

/// The value of a Tracks element whose data is known to be valid.
pub fn read_tracks(d: &[u8], r: (usize, usize)) -> (v: Result<Tracks, ErrorKind>)
    requires
        range_ok(FieldKind::Master(MasterId::Tracks), d@, r),
    ensures
        v matches Ok(x) && x.models(range_bytes(d@, r)),
{
    Tracks::from_payload(data_of(d, r))
}

/// The values of repeated Tracks elements whose data is known to be valid.
pub fn read_many_tracks(d: &[u8], rs: &Vec<(usize, usize)>) -> (v: Result<Vec<Tracks>, ErrorKind>)
    requires
        forall|i: int| 0 <= i < rs@.len() ==> #[trigger] range_ok(FieldKind::Master(MasterId::Tracks), d@, rs@[i]),
    ensures
        v matches Ok(xs) && xs@.len() == rs@.len() && forall|i: int| 0 <= i < rs@.len() ==> (#[trigger] xs@[i]).models(range_bytes(d@, rs@[i])),
{
    let mut out: Vec<Tracks> = Vec::new();
    let mut i: usize = 0;
    while i < rs.len()
        invariant
            i <= rs@.len(),
            out@.len() == i,
            forall|i: int| 0 <= i < rs@.len() ==> #[trigger] range_ok(FieldKind::Master(MasterId::Tracks), d@, rs@[i]),
            forall|j: int| 0 <= j < i ==> (#[trigger] out@[j]).models(range_bytes(d@, rs@[j])),
        decreases rs.len() - i,
    {
        match read_tracks(d, rs[i]) {
            Ok(x) => out.push(x),
            Err(e) => return Err(e),
        }
        i = i + 1;
    }
    Ok(out)
}

/// A TrackEntry element (Element ID 0xAE): the description of one track.
#[derive(Debug, Clone, PartialEq, Eq)]
pub struct TrackEntry {
    /// Element ID 0xD7.
    pub track_number: u64,
    /// Element ID 0x73C5.
    pub track_uid: u64,
    /// Element ID 0x83.
    pub track_type: u64,
    /// Element ID 0xB9.
    pub flag_enabled: u64,
    /// Element ID 0x88.
    pub flag_default: u64,
    /// Element ID 0x55AA.
    pub flag_forced: u64,
    /// Element ID 0x9C.
    pub flag_lacing: u64,
    /// Element ID 0x23E383.
    pub default_duration: Option<u64>,
    /// Element ID 0x234E7A.
    pub default_decoded_field_duration: Option<u64>,
    /// Element ID 0x23314F.
    pub track_timestamp_scale: EbmlFloat,
    /// Element ID 0x55EE.
    pub max_block_addition_id: u64,
    /// Element ID 0x536E.
    pub name: Option<String>,
    /// Element ID 0x22B59C.
    pub language: String,
    /// Element ID 0x22B59D.
    pub language_ietf: Option<String>,
    /// Element ID 0x86.
    pub codec_id: String,
    /// Element ID 0x63A2.
    pub codec_private: Option<Vec<u8>>,
    /// Element ID 0x258688.
    pub codec_name: Option<String>,
    /// Element ID 0x7446.
    pub attachment_link: Option<u64>,
    /// Element ID 0x56AA.
    pub codec_delay: u64,
    /// Element ID 0x56BB.
    pub seek_pre_roll: u64,
    /// Element ID 0xE0.
    pub video: Option<Video>,
    /// Element ID 0xE1.
    pub audio: Option<Audio>,
    /// Element ID 0x6624.
    pub track_translate: Vec<TrackTranslate>,
    /// Element ID 0xE2.
    pub track_operation: Option<TrackOperation>,
    /// Element ID 0x6D80.
    pub content_encodings: Option<ContentEncodings>,
    /// Element ID 0xFFFFFFFF.
    pub stream_index: u64,
}

impl TrackEntry {
    /// The fields of `self` are those of the TrackEntry element whose data is `d`:
    /// each one is the value of the element that the scan found for it,
    /// or its default when there is none.
    #[verifier::opaque]
    pub open spec fn models(self, d: Seq<u8>) -> bool {
        match spec_master(MasterId::TrackEntry, d) {
            Ok(slots) => {
                &&& (slots[0] matches Some(rs) && rel_u64(range_bytes(d, rs[0]), self.track_number))
                &&& (slots[1] matches Some(rs) && rel_u64(range_bytes(d, rs[0]), self.track_uid))
                &&& (slots[2] matches Some(rs) && rel_u64(range_bytes(d, rs[0]), self.track_type))
                &&& (match slots[3] { Some(rs) => rel_u64(range_bytes(d, rs[0]), self.flag_enabled), None => self.flag_enabled == 1u64 })
                &&& (match slots[4] { Some(rs) => rel_u64(range_bytes(d, rs[0]), self.flag_default), None => self.flag_default == 1u64 })
                &&& (match slots[5] { Some(rs) => rel_u64(range_bytes(d, rs[0]), self.flag_forced), None => self.flag_forced == 0u64 })
                &&& (match slots[6] { Some(rs) => rel_u64(range_bytes(d, rs[0]), self.flag_lacing), None => self.flag_lacing == 1u64 })
                &&& (match slots[7] { Some(rs) => self.default_duration matches Some(v) && rel_u64(range_bytes(d, rs[0]), v), None => self.default_duration is None })
                &&& (match slots[8] { Some(rs) => self.default_decoded_field_duration matches Some(v) && rel_u64(range_bytes(d, rs[0]), v), None => self.default_decoded_field_duration is None })
                &&& (match slots[9] { Some(rs) => rel_float(range_bytes(d, rs[0]), self.track_timestamp_scale), None => self.track_timestamp_scale == EbmlFloat::F64(0x3FF0000000000000) })
                &&& (match slots[10] { Some(rs) => rel_u64(range_bytes(d, rs[0]), self.max_block_addition_id), None => self.max_block_addition_id == 0u64 })
                &&& (match slots[11] { Some(rs) => self.name matches Some(v) && rel_str(range_bytes(d, rs[0]), v), None => self.name is None })
                &&& (match slots[12] { Some(rs) => rel_str(range_bytes(d, rs[0]), self.language), None => self.language@ == "eng"@ })
                &&& (match slots[13] { Some(rs) => self.language_ietf matches Some(v) && rel_str(range_bytes(d, rs[0]), v), None => self.language_ietf is None })
                &&& (slots[14] matches Some(rs) && rel_str(range_bytes(d, rs[0]), self.codec_id))
                &&& (match slots[15] { Some(rs) => self.codec_private matches Some(v) && rel_bin(range_bytes(d, rs[0]), v), None => self.codec_private is None })
                &&& (match slots[16] { Some(rs) => self.codec_name matches Some(v) && rel_str(range_bytes(d, rs[0]), v), None => self.codec_name is None })
                &&& (match slots[17] { Some(rs) => self.attachment_link matches Some(v) && rel_u64(range_bytes(d, rs[0]), v), None => self.attachment_link is None })
                &&& (match slots[18] { Some(rs) => rel_u64(range_bytes(d, rs[0]), self.codec_delay), None => self.codec_delay == 0u64 })
                &&& (match slots[19] { Some(rs) => rel_u64(range_bytes(d, rs[0]), self.seek_pre_roll), None => self.seek_pre_roll == 0u64 })
                &&& (match slots[20] { Some(rs) => self.video matches Some(v) && v.models(range_bytes(d, rs[0])), None => self.video is None })
                &&& (match slots[21] { Some(rs) => self.audio matches Some(v) && v.models(range_bytes(d, rs[0])), None => self.audio is None })
                &&& (match slots[22] { Some(rs) => self.track_translate@.len() == rs.len() && forall|i: int| 0 <= i < rs.len() ==> #[trigger] self.track_translate@[i].models(range_bytes(d, rs[i])), None => self.track_translate@.len() == 0 })
                &&& (match slots[23] { Some(rs) => self.track_operation matches Some(v) && v.models(range_bytes(d, rs[0])), None => self.track_operation is None })
                &&& (match slots[24] { Some(rs) => self.content_encodings matches Some(v) && v.models(range_bytes(d, rs[0])), None => self.content_encodings is None })
                &&& (match slots[25] { Some(rs) => rel_u64(range_bytes(d, rs[0]), self.stream_index), None => self.stream_index == 0u64 })
            },
            Err(_) => false,
        }
    }

    /// Parses the data of a TrackEntry element: the fields that its scan finds,
    /// with defaults for the missing optional ones.
    pub fn from_payload(data: &[u8]) -> (r: Result<TrackEntry, ErrorKind>)
        ensures
            r is Ok <==> spec_master(MasterId::TrackEntry, data@) is Ok,
            r matches Ok(x) ==> x.models(data@),
            r matches Err(k) ==> spec_master(MasterId::TrackEntry, data@) == Err::<Slots, ErrorKind>(k),
    {
        let slots = match scan_master(MasterId::TrackEntry, data) {
            Ok(s) => s,
            Err(k) => return Err(k),
        };
        proof {
            assert(data@.len() == data.len());
            lemma_master_wf(MasterId::TrackEntry, data@);
        }
        proof {
            assert(slot_wf(schema(MasterId::TrackEntry)[0], data@, slots_view(slots@)[0]));
        }
        let f_track_number = match first_range(&slots, 0) {
            Some(r) => read_u64(data, r),
            None => {
                proof {
                    assert(schema(MasterId::TrackEntry)[0].required);
                }
                return Err(ErrorKind::MissingElement);
            },
        };
        proof {
            assert(slot_wf(schema(MasterId::TrackEntry)[1], data@, slots_view(slots@)[1]));
        }
        let f_track_uid = match first_range(&slots, 1) {
            Some(r) => read_u64(data, r),
            None => {
                proof {
                    assert(schema(MasterId::TrackEntry)[1].required);
                }
                return Err(ErrorKind::MissingElement);
            },
        };
        proof {
            assert(slot_wf(schema(MasterId::TrackEntry)[2], data@, slots_view(slots@)[2]));
        }
        let f_track_type = match first_range(&slots, 2) {
            Some(r) => read_u64(data, r),
            None => {
                proof {
                    assert(schema(MasterId::TrackEntry)[2].required);
                }
                return Err(ErrorKind::MissingElement);
            },
        };
        proof {
            assert(slot_wf(schema(MasterId::TrackEntry)[3], data@, slots_view(slots@)[3]));
        }
        let f_flag_enabled = match first_range(&slots, 3) {
            Some(r) => read_u64(data, r),
            None => 1u64,
        };
        proof {
            assert(slot_wf(schema(MasterId::TrackEntry)[4], data@, slots_view(slots@)[4]));
        }
        let f_flag_default = match first_range(&slots, 4) {
            Some(r) => read_u64(data, r),
            None => 1u64,
        };
        proof {
            assert(slot_wf(schema(MasterId::TrackEntry)[5], data@, slots_view(slots@)[5]));
        }
        let f_flag_forced = match first_range(&slots, 5) {
            Some(r) => read_u64(data, r),
            None => 0u64,
        };
        proof {
            assert(slot_wf(schema(MasterId::TrackEntry)[6], data@, slots_view(slots@)[6]));
        }
        let f_flag_lacing = match first_range(&slots, 6) {
            Some(r) => read_u64(data, r),
            None => 1u64,
        };
        proof {
            assert(slot_wf(schema(MasterId::TrackEntry)[7], data@, slots_view(slots@)[7]));
        }
        let f_default_duration = match first_range(&slots, 7) {
            Some(r) => Some(read_u64(data, r)),
            None => None,
        };
        proof {
            assert(slot_wf(schema(MasterId::TrackEntry)[8], data@, slots_view(slots@)[8]));
        }
        let f_default_decoded_field_duration = match first_range(&slots, 8) {
            Some(r) => Some(read_u64(data, r)),
            None => None,
        };
        proof {
            assert(slot_wf(schema(MasterId::TrackEntry)[9], data@, slots_view(slots@)[9]));
        }
        let f_track_timestamp_scale = match first_range(&slots, 9) {
            Some(r) => read_float(data, r),
            None => EbmlFloat::F64(0x3FF0000000000000),
        };
        proof {
            assert(slot_wf(schema(MasterId::TrackEntry)[10], data@, slots_view(slots@)[10]));
        }
        let f_max_block_addition_id = match first_range(&slots, 10) {
            Some(r) => read_u64(data, r),
            None => 0u64,
        };
        proof {
            assert(slot_wf(schema(MasterId::TrackEntry)[11], data@, slots_view(slots@)[11]));
        }
        let f_name = match first_range(&slots, 11) {
            Some(r) => Some(read_str(data, r)),
            None => None,
        };
        proof {
            assert(slot_wf(schema(MasterId::TrackEntry)[12], data@, slots_view(slots@)[12]));
        }
        let f_language = match first_range(&slots, 12) {
            Some(r) => read_str(data, r),
            None => "eng".to_owned(),
        };
        proof {
            assert(slot_wf(schema(MasterId::TrackEntry)[13], data@, slots_view(slots@)[13]));
        }
        let f_language_ietf = match first_range(&slots, 13) {
            Some(r) => Some(read_str(data, r)),
            None => None,
        };
        proof {
            assert(slot_wf(schema(MasterId::TrackEntry)[14], data@, slots_view(slots@)[14]));
        }
        let f_codec_id = match first_range(&slots, 14) {
            Some(r) => read_str(data, r),
            None => {
                proof {
                    assert(schema(MasterId::TrackEntry)[14].required);
                }
                return Err(ErrorKind::MissingElement);
            },
        };
        proof {
            assert(slot_wf(schema(MasterId::TrackEntry)[15], data@, slots_view(slots@)[15]));
        }
        let f_codec_private = match first_range(&slots, 15) {
            Some(r) => Some(read_bin(data, r)),
            None => None,
        };
        proof {
            assert(slot_wf(schema(MasterId::TrackEntry)[16], data@, slots_view(slots@)[16]));
        }
        let f_codec_name = match first_range(&slots, 16) {
            Some(r) => Some(read_str(data, r)),
            None => None,
        };
        proof {
            assert(slot_wf(schema(MasterId::TrackEntry)[17], data@, slots_view(slots@)[17]));
        }
        let f_attachment_link = match first_range(&slots, 17) {
            Some(r) => Some(read_u64(data, r)),
            None => None,
        };
        proof {
            assert(slot_wf(schema(MasterId::TrackEntry)[18], data@, slots_view(slots@)[18]));
        }
        let f_codec_delay = match first_range(&slots, 18) {
            Some(r) => read_u64(data, r),
            None => 0u64,
        };
        proof {
            assert(slot_wf(schema(MasterId::TrackEntry)[19], data@, slots_view(slots@)[19]));
        }
        let f_seek_pre_roll = match first_range(&slots, 19) {
            Some(r) => read_u64(data, r),
            None => 0u64,
        };
        proof {
            assert(slot_wf(schema(MasterId::TrackEntry)[20], data@, slots_view(slots@)[20]));
        }
        let f_video = match first_range(&slots, 20) {
            Some(r) => match read_video(data, r) {
                Ok(v) => Some(v),
                Err(e) => return Err(e),
            },
            None => None,
        };
        proof {
            assert(slot_wf(schema(MasterId::TrackEntry)[21], data@, slots_view(slots@)[21]));
        }
        let f_audio = match first_range(&slots, 21) {
            Some(r) => match read_audio(data, r) {
                Ok(v) => Some(v),
                Err(e) => return Err(e),
            },
            None => None,
        };
        proof {
            assert(slot_wf(schema(MasterId::TrackEntry)[22], data@, slots_view(slots@)[22]));
        }
        let rs_track_translate = all_ranges(&slots, 22);
        let f_track_translate = match read_many_track_translate(data, &rs_track_translate) {
            Ok(v) => v,
            Err(e) => return Err(e),
        };
        proof {
            assert(slot_wf(schema(MasterId::TrackEntry)[23], data@, slots_view(slots@)[23]));
        }
        let f_track_operation = match first_range(&slots, 23) {
            Some(r) => match read_track_operation(data, r) {
                Ok(v) => Some(v),
                Err(e) => return Err(e),
            },
            None => None,
        };
        proof {
            assert(slot_wf(schema(MasterId::TrackEntry)[24], data@, slots_view(slots@)[24]));
        }
        let f_content_encodings = match first_range(&slots, 24) {
            Some(r) => match read_content_encodings(data, r) {
                Ok(v) => Some(v),
                Err(e) => return Err(e),
            },
            None => None,
        };
        proof {
            assert(slot_wf(schema(MasterId::TrackEntry)[25], data@, slots_view(slots@)[25]));
        }
        let f_stream_index = match first_range(&slots, 25) {
            Some(r) => read_u64(data, r),
            None => 0u64,
        };
        proof {
            reveal(TrackEntry::models);
        }
        Ok(TrackEntry {
            track_number: f_track_number,
            track_uid: f_track_uid,
            track_type: f_track_type,
            flag_enabled: f_flag_enabled,
            flag_default: f_flag_default,
            flag_forced: f_flag_forced,
            flag_lacing: f_flag_lacing,
            default_duration: f_default_duration,
            default_decoded_field_duration: f_default_decoded_field_duration,
            track_timestamp_scale: f_track_timestamp_scale,
            max_block_addition_id: f_max_block_addition_id,
            name: f_name,
            language: f_language,
            language_ietf: f_language_ietf,
            codec_id: f_codec_id,
            codec_private: f_codec_private,
            codec_name: f_codec_name,
            attachment_link: f_attachment_link,
            codec_delay: f_codec_delay,
            seek_pre_roll: f_seek_pre_roll,
            video: f_video,
            audio: f_audio,
            track_translate: f_track_translate,
            track_operation: f_track_operation,
            content_encodings: f_content_encodings,
            stream_index: f_stream_index,
        })
    }
}

/// The value of a TrackEntry element whose data is known to be valid.
pub fn read_track_entry(d: &[u8], r: (usize, usize)) -> (v: Result<TrackEntry, ErrorKind>)
    requires
        range_ok(FieldKind::Master(MasterId::TrackEntry), d@, r),
    ensures
        v matches Ok(x) && x.models(range_bytes(d@, r)),
{
    TrackEntry::from_payload(data_of(d, r))
}

/// The values of repeated TrackEntry elements whose data is known to be valid.
pub fn read_many_track_entry(d: &[u8], rs: &Vec<(usize, usize)>) -> (v: Result<Vec<TrackEntry>, ErrorKind>)
    requires
        forall|i: int| 0 <= i < rs@.len() ==> #[trigger] range_ok(FieldKind::Master(MasterId::TrackEntry), d@, rs@[i]),
    ensures
        v matches Ok(xs) && xs@.len() == rs@.len() && forall|i: int| 0 <= i < rs@.len() ==> (#[trigger] xs@[i]).models(range_bytes(d@, rs@[i])),
{
    let mut out: Vec<TrackEntry> = Vec::new();
    let mut i: usize = 0;
    while i < rs.len()
        invariant
            i <= rs@.len(),
            out@.len() == i,
            forall|i: int| 0 <= i < rs@.len() ==> #[trigger] range_ok(FieldKind::Master(MasterId::TrackEntry), d@, rs@[i]),
            forall|j: int| 0 <= j < i ==> (#[trigger] out@[j]).models(range_bytes(d@, rs@[j])),
        decreases rs.len() - i,
    {
        match read_track_entry(d, rs[i]) {
            Ok(x) => out.push(x),
            Err(e) => return Err(e),
        }
        i = i + 1;
    }
    Ok(out)
}

/// A TrackTranslate element (Element ID 0x6624).
#[derive(Debug, Clone, PartialEq, Eq)]
pub struct TrackTranslate {
    /// Element ID 0x66FC.
    pub edition_uid: Vec<u64>,
    /// Element ID 0x66BF.
    pub codec: u64,
    /// Element ID 0x66A5.
    pub track_id: u64,
}

impl TrackTranslate {
    /// The fields of `self` are those of the TrackTranslate element whose data is `d`:
    /// each one is the value of the element that the scan found for it,
    /// or its default when there is none.
    #[verifier::opaque]
    pub open spec fn models(self, d: Seq<u8>) -> bool {
        match spec_master(MasterId::TrackTranslate, d) {
            Ok(slots) => {
                &&& (match slots[0] { Some(rs) => self.edition_uid@.len() == rs.len() && forall|i: int| 0 <= i < rs.len() ==> rel_u64(range_bytes(d, rs[i]), #[trigger] self.edition_uid@[i]), None => self.edition_uid@.len() == 0 })
                &&& (slots[1] matches Some(rs) && rel_u64(range_bytes(d, rs[0]), self.codec))
                &&& (slots[2] matches Some(rs) && rel_u64(range_bytes(d, rs[0]), self.track_id))
            },
            Err(_) => false,
        }
    }

    /// Parses the data of a TrackTranslate element: the fields that its scan finds,
    /// with defaults for the missing optional ones.
    pub fn from_payload(data: &[u8]) -> (r: Result<TrackTranslate, ErrorKind>)
        ensures
            r is Ok <==> spec_master(MasterId::TrackTranslate, data@) is Ok,
            r matches Ok(x) ==> x.models(data@),
            r matches Err(k) ==> spec_master(MasterId::TrackTranslate, data@) == Err::<Slots, ErrorKind>(k),
    {
        let slots = match scan_master(MasterId::TrackTranslate, data) {
            Ok(s) => s,
            Err(k) => return Err(k),
        };
        proof {
            assert(data@.len() == data.len());
            lemma_master_wf(MasterId::TrackTranslate, data@);
        }
        proof {
            assert(slot_wf(schema(MasterId::TrackTranslate)[0], data@, slots_view(slots@)[0]));
        }
        let rs_edition_uid = all_ranges(&slots, 0);
        let f_edition_uid = read_many_u64(data, &rs_edition_uid);
        proof {
            assert(slot_wf(schema(MasterId::TrackTranslate)[1], data@, slots_view(slots@)[1]));
        }
        let f_codec = match first_range(&slots, 1) {
            Some(r) => read_u64(data, r),
            None => {
                proof {
                    assert(schema(MasterId::TrackTranslate)[1].required);
                }
                return Err(ErrorKind::MissingElement);
            },
        };
        proof {
            assert(slot_wf(schema(MasterId::TrackTranslate)[2], data@, slots_view(slots@)[2]));
        }
        let f_track_id = match first_range(&slots, 2) {
            Some(r) => read_u64(data, r),
            None => {
                proof {
                    assert(schema(MasterId::TrackTranslate)[2].required);
                }
                return Err(ErrorKind::MissingElement);
            },
        };
        proof {
            reveal(TrackTranslate::models);
        }
        Ok(TrackTranslate {
            edition_uid: f_edition_uid,
            codec: f_codec,
            track_id: f_track_id,
        })
    }
}

/// The value of a TrackTranslate element whose data is known to be valid.
pub fn read_track_translate(d: &[u8], r: (usize, usize)) -> (v: Result<TrackTranslate, ErrorKind>)
    requires
        range_ok(FieldKind::Master(MasterId::TrackTranslate), d@, r),
    ensures
        v matches Ok(x) && x.models(range_bytes(d@, r)),
{
    TrackTranslate::from_payload(data_of(d, r))
}

/// The values of repeated TrackTranslate elements whose data is known to be valid.
pub fn read_many_track_translate(d: &[u8], rs: &Vec<(usize, usize)>) -> (v: Result<Vec<TrackTranslate>, ErrorKind>)
    requires
        forall|i: int| 0 <= i < rs@.len() ==> #[trigger] range_ok(FieldKind::Master(MasterId::TrackTranslate), d@, rs@[i]),
    ensures
        v matches Ok(xs) && xs@.len() == rs@.len() && forall|i: int| 0 <= i < rs@.len() ==> (#[trigger] xs@[i]).models(range_bytes(d@, rs@[i])),
{
    let mut out: Vec<TrackTranslate> = Vec::new();
    let mut i: usize = 0;
    while i < rs.len()
        invariant
            i <= rs@.len(),
            out@.len() == i,
            forall|i: int| 0 <= i < rs@.len() ==> #[trigger] range_ok(FieldKind::Master(MasterId::TrackTranslate), d@, rs@[i]),
            forall|j: int| 0 <= j < i ==> (#[trigger] out@[j]).models(range_bytes(d@, rs@[j])),
        decreases rs.len() - i,
    {
        match read_track_translate(d, rs[i]) {
            Ok(x) => out.push(x),
            Err(e) => return Err(e),
        }
        i = i + 1;
    }
    Ok(out)
}

/// A TrackOperation element (Element ID 0xE2).
#[derive(Debug, Clone, PartialEq, Eq)]
pub struct TrackOperation {
    /// Element ID 0xE3.
    pub combine_planes: Option<TrackCombinePlanes>,
    /// Element ID 0xE9.
    pub join_blocks: Option<TrackJoinBlocks>,
}

impl TrackOperation {
    /// The fields of `self` are those of the TrackOperation element whose data is `d`:
    /// each one is the value of the element that the scan found for it,
    /// or its default when there is none.
    #[verifier::opaque]
    pub open spec fn models(self, d: Seq<u8>) -> bool {
        match spec_master(MasterId::TrackOperation, d) {
            Ok(slots) => {
                &&& (match slots[0] { Some(rs) => self.combine_planes matches Some(v) && v.models(range_bytes(d, rs[0])), None => self.combine_planes is None })
                &&& (match slots[1] { Some(rs) => self.join_blocks matches Some(v) && v.models(range_bytes(d, rs[0])), None => self.join_blocks is None })
            },
            Err(_) => false,
        }
    }

    /// Parses the data of a TrackOperation element: the fields that its scan finds,
    /// with defaults for the missing optional ones.
    pub fn from_payload(data: &[u8]) -> (r: Result<TrackOperation, ErrorKind>)
        ensures
            r is Ok <==> spec_master(MasterId::TrackOperation, data@) is Ok,
            r matches Ok(x) ==> x.models(data@),
            r matches Err(k) ==> spec_master(MasterId::TrackOperation, data@) == Err::<Slots, ErrorKind>(k),
    {
        let slots = match scan_master(MasterId::TrackOperation, data) {
            Ok(s) => s,
            Err(k) => return Err(k),
        };
        proof {
            assert(data@.len() == data.len());
            lemma_master_wf(MasterId::TrackOperation, data@);
        }
        proof {
            assert(slot_wf(schema(MasterId::TrackOperation)[0], data@, slots_view(slots@)[0]));
        }
        let f_combine_planes = match first_range(&slots, 0) {
            Some(r) => match read_track_combine_planes(data, r) {
                Ok(v) => Some(v),
                Err(e) => return Err(e),
            },
            None => None,
        };
        proof {
            assert(slot_wf(schema(MasterId::TrackOperation)[1], data@, slots_view(slots@)[1]));
        }
        let f_join_blocks = match first_range(&slots, 1) {
            Some(r) => match read_track_join_blocks(data, r) {
                Ok(v) => Some(v),
                Err(e) => return Err(e),
            },
            None => None,
        };
        proof {
            reveal(TrackOperation::models);
        }
        Ok(TrackOperation {
            combine_planes: f_combine_planes,
            join_blocks: f_join_blocks,
        })
    }
}

/// The value of a TrackOperation element whose data is known to be valid.
pub fn read_track_operation(d: &[u8], r: (usize, usize)) -> (v: Result<TrackOperation, ErrorKind>)
    requires
        range_ok(FieldKind::Master(MasterId::TrackOperation), d@, r),
    ensures
        v matches Ok(x) && x.models(range_bytes(d@, r)),
{
    TrackOperation::from_payload(data_of(d, r))
}

/// The values of repeated TrackOperation elements whose data is known to be valid.
pub fn read_many_track_operation(d: &[u8], rs: &Vec<(usize, usize)>) -> (v: Result<Vec<TrackOperation>, ErrorKind>)
    requires
        forall|i: int| 0 <= i < rs@.len() ==> #[trigger] range_ok(FieldKind::Master(MasterId::TrackOperation), d@, rs@[i]),
    ensures
        v matches Ok(xs) && xs@.len() == rs@.len() && forall|i: int| 0 <= i < rs@.len() ==> (#[trigger] xs@[i]).models(range_bytes(d@, rs@[i])),
{
    let mut out: Vec<TrackOperation> = Vec::new();
    let mut i: usize = 0;
    while i < rs.len()
        invariant
            i <= rs@.len(),
            out@.len() == i,
            forall|i: int| 0 <= i < rs@.len() ==> #[trigger] range_ok(FieldKind::Master(MasterId::TrackOperation), d@, rs@[i]),
            forall|j: int| 0 <= j < i ==> (#[trigger] out@[j]).models(range_bytes(d@, rs@[j])),
        decreases rs.len() - i,
    {
        match read_track_operation(d, rs[i]) {
            Ok(x) => out.push(x),
            Err(e) => return Err(e),
        }
        i = i + 1;
    }
    Ok(out)
}

/// A TrackCombinePlanes element (Element ID 0xE3).
#[derive(Debug, Clone, PartialEq, Eq)]
pub struct TrackCombinePlanes {
    /// Element ID 0xE4.
    pub track_planes: Vec<TrackPlane>,
}

impl TrackCombinePlanes {
    /// The fields of `self` are those of the TrackCombinePlanes element whose data is `d`:
    /// each one is the value of the element that the scan found for it,
    /// or its default when there is none.
    #[verifier::opaque]
    pub open spec fn models(self, d: Seq<u8>) -> bool {
        match spec_master(MasterId::TrackCombinePlanes, d) {
            Ok(slots) => {
                &&& (match slots[0] { Some(rs) => self.track_planes@.len() == rs.len() && forall|i: int| 0 <= i < rs.len() ==> #[trigger] self.track_planes@[i].models(range_bytes(d, rs[i])), None => self.track_planes@.len() == 0 })
            },
            Err(_) => false,
        }
    }

    /// Parses the data of a TrackCombinePlanes element: the fields that its scan finds,
    /// with defaults for the missing optional ones.
    pub fn from_payload(data: &[u8]) -> (r: Result<TrackCombinePlanes, ErrorKind>)
        ensures
            r is Ok <==> spec_master(MasterId::TrackCombinePlanes, data@) is Ok,
            r matches Ok(x) ==> x.models(data@),
            r matches Err(k) ==> spec_master(MasterId::TrackCombinePlanes, data@) == Err::<Slots, ErrorKind>(k),
    {
        let slots = match scan_master(MasterId::TrackCombinePlanes, data) {
            Ok(s) => s,
            Err(k) => return Err(k),
        };
        proof {
            assert(data@.len() == data.len());
            lemma_master_wf(MasterId::TrackCombinePlanes, data@);
        }
        proof {
            assert(slot_wf(schema(MasterId::TrackCombinePlanes)[0], data@, slots_view(slots@)[0]));
        }
        let rs_track_planes = all_ranges(&slots, 0);
        let f_track_planes = match read_many_track_plane(data, &rs_track_planes) {
            Ok(v) => v,
            Err(e) => return Err(e),
        };
        proof {
            reveal(TrackCombinePlanes::models);
        }
        Ok(TrackCombinePlanes {
            track_planes: f_track_planes,
        })
    }
}

/// The value of a TrackCombinePlanes element whose data is known to be valid.
pub fn read_track_combine_planes(d: &[u8], r: (usize, usize)) -> (v: Result<TrackCombinePlanes, ErrorKind>)
    requires
        range_ok(FieldKind::Master(MasterId::TrackCombinePlanes), d@, r),
    ensures
        v matches Ok(x) && x.models(range_bytes(d@, r)),
{
    TrackCombinePlanes::from_payload(data_of(d, r))
}

/// The values of repeated TrackCombinePlanes elements whose data is known to be valid.
pub fn read_many_track_combine_planes(d: &[u8], rs: &Vec<(usize, usize)>) -> (v: Result<Vec<TrackCombinePlanes>, ErrorKind>)
    requires
        forall|i: int| 0 <= i < rs@.len() ==> #[trigger] range_ok(FieldKind::Master(MasterId::TrackCombinePlanes), d@, rs@[i]),
    ensures
        v matches Ok(xs) && xs@.len() == rs@.len() && forall|i: int| 0 <= i < rs@.len() ==> (#[trigger] xs@[i]).models(range_bytes(d@, rs@[i])),
{
    let mut out: Vec<TrackCombinePlanes> = Vec::new();
    let mut i: usize = 0;
    while i < rs.len()
        invariant
            i <= rs@.len(),
            out@.len() == i,
            forall|i: int| 0 <= i < rs@.len() ==> #[trigger] range_ok(FieldKind::Master(MasterId::TrackCombinePlanes), d@, rs@[i]),
            forall|j: int| 0 <= j < i ==> (#[trigger] out@[j]).models(range_bytes(d@, rs@[j])),
        decreases rs.len() - i,
    {
        match read_track_combine_planes(d, rs[i]) {
            Ok(x) => out.push(x),
            Err(e) => return Err(e),
        }
        i = i + 1;
    }
    Ok(out)
}

/// A TrackPlane element (Element ID 0xE4).
#[derive(Debug, Clone, PartialEq, Eq)]
pub struct TrackPlane {
    /// Element ID 0xE5.
    pub uid: u64,
    /// Element ID 0xE6.
    pub plane_type: u64,
}

impl TrackPlane {
    /// The fields of `self` are those of the TrackPlane element whose data is `d`:
    /// each one is the value of the element that the scan found for it,
    /// or its default when there is none.
    #[verifier::opaque]
    pub open spec fn models(self, d: Seq<u8>) -> bool {
        match spec_master(MasterId::TrackPlane, d) {
            Ok(slots) => {
                &&& (slots[0] matches Some(rs) && rel_u64(range_bytes(d, rs[0]), self.uid))
                &&& (slots[1] matches Some(rs) && rel_u64(range_bytes(d, rs[0]), self.plane_type))
            },
            Err(_) => false,
        }
    }

    /// Parses the data of a TrackPlane element: the fields that its scan finds,
    /// with defaults for the missing optional ones.
    pub fn from_payload(data: &[u8]) -> (r: Result<TrackPlane, ErrorKind>)
        ensures
            r is Ok <==> spec_master(MasterId::TrackPlane, data@) is Ok,
            r matches Ok(x) ==> x.models(data@),
            r matches Err(k) ==> spec_master(MasterId::TrackPlane, data@) == Err::<Slots, ErrorKind>(k),
    {
        let slots = match scan_master(MasterId::TrackPlane, data) {
            Ok(s) => s,
            Err(k) => return Err(k),
        };
        proof {
            assert(data@.len() == data.len());
            lemma_master_wf(MasterId::TrackPlane, data@);
        }
        proof {
            assert(slot_wf(schema(MasterId::TrackPlane)[0], data@, slots_view(slots@)[0]));
        }
        let f_uid = match first_range(&slots, 0) {
            Some(r) => read_u64(data, r),
            None => {
                proof {
                    assert(schema(MasterId::TrackPlane)[0].required);
                }
                return Err(ErrorKind::MissingElement);
            },
        };
        proof {
            assert(slot_wf(schema(MasterId::TrackPlane)[1], data@, slots_view(slots@)[1]));
        }
        let f_plane_type = match first_range(&slots, 1) {
            Some(r) => read_u64(data, r),
            None => {
                proof {
                    assert(schema(MasterId::TrackPlane)[1].required);
                }
                return Err(ErrorKind::MissingElement);
            },
        };
        proof {
            reveal(TrackPlane::models);
        }
        Ok(TrackPlane {
            uid: f_uid,
            plane_type: f_plane_type,
        })
    }
}

/// The value of a TrackPlane element whose data is known to be valid.
pub fn read_track_plane(d: &[u8], r: (usize, usize)) -> (v: Result<TrackPlane, ErrorKind>)
    requires
        range_ok(FieldKind::Master(MasterId::TrackPlane), d@, r),
    ensures
        v matches Ok(x) && x.models(range_bytes(d@, r)),
{
    TrackPlane::from_payload(data_of(d, r))
}

/// The values of repeated TrackPlane elements whose data is known to be valid.
pub fn read_many_track_plane(d: &[u8], rs: &Vec<(usize, usize)>) -> (v: Result<Vec<TrackPlane>, ErrorKind>)
    requires
        forall|i: int| 0 <= i < rs@.len() ==> #[trigger] range_ok(FieldKind::Master(MasterId::TrackPlane), d@, rs@[i]),
    ensures
        v matches Ok(xs) && xs@.len() == rs@.len() && forall|i: int| 0 <= i < rs@.len() ==> (#[trigger] xs@[i]).models(range_bytes(d@, rs@[i])),
{
    let mut out: Vec<TrackPlane> = Vec::new();
    let mut i: usize = 0;
    while i < rs.len()
        invariant
            i <= rs@.len(),
            out@.len() == i,
            forall|i: int| 0 <= i < rs@.len() ==> #[trigger] range_ok(FieldKind::Master(MasterId::TrackPlane), d@, rs@[i]),
            forall|j: int| 0 <= j < i ==> (#[trigger] out@[j]).models(range_bytes(d@, rs@[j])),
        decreases rs.len() - i,
    {
        match read_track_plane(d, rs[i]) {
            Ok(x) => out.push(x),
            Err(e) => return Err(e),
        }
        i = i + 1;
    }
    Ok(out)
}

/// A TrackJoinBlocks element (Element ID 0xE9).
#[derive(Debug, Clone, PartialEq, Eq)]
pub struct TrackJoinBlocks {
    /// Element ID 0xED.
    pub uid: Vec<u64>,
}

impl TrackJoinBlocks {
    /// The fields of `self` are those of the TrackJoinBlocks element whose data is `d`:
    /// each one is the value of the element that the scan found for it,
    /// or its default when there is none.
    #[verifier::opaque]
    pub open spec fn models(self, d: Seq<u8>) -> bool {
        match spec_master(MasterId::TrackJoinBlocks, d) {
            Ok(slots) => {
                &&& (match slots[0] { Some(rs) => self.uid@.len() == rs.len() && forall|i: int| 0 <= i < rs.len() ==> rel_u64(range_bytes(d, rs[i]), #[trigger] self.uid@[i]), None => self.uid@.len() == 0 })
            },
            Err(_) => false,
        }
    }

    /// Parses the data of a TrackJoinBlocks element: the fields that its scan finds,
    /// with defaults for the missing optional ones.
    pub fn from_payload(data: &[u8]) -> (r: Result<TrackJoinBlocks, ErrorKind>)
        ensures
            r is Ok <==> spec_master(MasterId::TrackJoinBlocks, data@) is Ok,
            r matches Ok(x) ==> x.models(data@),
            r matches Err(k) ==> spec_master(MasterId::TrackJoinBlocks, data@) == Err::<Slots, ErrorKind>(k),
    {
        let slots = match scan_master(MasterId::TrackJoinBlocks, data) {
            Ok(s) => s,
            Err(k) => return Err(k),
        };
        proof {
            assert(data@.len() == data.len());
            lemma_master_wf(MasterId::TrackJoinBlocks, data@);
        }
        proof {
            assert(slot_wf(schema(MasterId::TrackJoinBlocks)[0], data@, slots_view(slots@)[0]));
        }
        let rs_uid = all_ranges(&slots, 0);
        let f_uid = read_many_u64(data, &rs_uid);
        proof {
            reveal(TrackJoinBlocks::models);
        }
        Ok(TrackJoinBlocks {
            uid: f_uid,
        })
    }
}

/// The value of a TrackJoinBlocks element whose data is known to be valid.
pub fn read_track_join_blocks(d: &[u8], r: (usize, usize)) -> (v: Result<TrackJoinBlocks, ErrorKind>)
    requires
        range_ok(FieldKind::Master(MasterId::TrackJoinBlocks), d@, r),
    ensures
        v matches Ok(x) && x.models(range_bytes(d@, r)),
{
    TrackJoinBlocks::from_payload(data_of(d, r))
}

/// The values of repeated TrackJoinBlocks elements whose data is known to be valid.
pub fn read_many_track_join_blocks(d: &[u8], rs: &Vec<(usize, usize)>) -> (v: Result<Vec<TrackJoinBlocks>, ErrorKind>)
    requires
        forall|i: int| 0 <= i < rs@.len() ==> #[trigger] range_ok(FieldKind::Master(MasterId::TrackJoinBlocks), d@, rs@[i]),
    ensures
        v matches Ok(xs) && xs@.len() == rs@.len() && forall|i: int| 0 <= i < rs@.len() ==> (#[trigger] xs@[i]).models(range_bytes(d@, rs@[i])),
{
    let mut out: Vec<TrackJoinBlocks> = Vec::new();
    let mut i: usize = 0;
    while i < rs.len()
        invariant
            i <= rs@.len(),
            out@.len() == i,
            forall|i: int| 0 <= i < rs@.len() ==> #[trigger] range_ok(FieldKind::Master(MasterId::TrackJoinBlocks), d@, rs@[i]),
            forall|j: int| 0 <= j < i ==> (#[trigger] out@[j]).models(range_bytes(d@, rs@[j])),
        decreases rs.len() - i,
    {
        match read_track_join_blocks(d, rs[i]) {
            Ok(x) => out.push(x),
            Err(e) => return Err(e),
        }
        i = i + 1;
    }
    Ok(out)
}

/// A ContentEncodings element (Element ID 0x6D80).
#[derive(Debug, Clone, PartialEq, Eq)]
pub struct ContentEncodings {
    /// Element ID 0x6240.
    pub content_encoding: Vec<ContentEncoding>,
}

impl ContentEncodings {
    /// The fields of `self` are those of the ContentEncodings element whose data is `d`:
    /// each one is the value of the element that the scan found for it,
    /// or its default when there is none.
    #[verifier::opaque]
    pub open spec fn models(self, d: Seq<u8>) -> bool {
        match spec_master(MasterId::ContentEncodings, d) {
            Ok(slots) => {
                &&& (match slots[0] { Some(rs) => self.content_encoding@.len() == rs.len() && forall|i: int| 0 <= i < rs.len() ==> #[trigger] self.content_encoding@[i].models(range_bytes(d, rs[i])), None => self.content_encoding@.len() == 0 })
            },
            Err(_) => false,
        }
    }

    /// Parses the data of a ContentEncodings element: the fields that its scan finds,
    /// with defaults for the missing optional ones.
    pub fn from_payload(data: &[u8]) -> (r: Result<ContentEncodings, ErrorKind>)
        ensures
            r is Ok <==> spec_master(MasterId::ContentEncodings, data@) is Ok,
            r matches Ok(x) ==> x.models(data@),
            r matches Err(k) ==> spec_master(MasterId::ContentEncodings, data@) == Err::<Slots, ErrorKind>(k),
    {
        let slots = match scan_master(MasterId::ContentEncodings, data) {
            Ok(s) => s,
            Err(k) => return Err(k),
        };
        proof {
            assert(data@.len() == data.len());
            lemma_master_wf(MasterId::ContentEncodings, data@);
        }
        proof {
            assert(slot_wf(schema(MasterId::ContentEncodings)[0], data@, slots_view(slots@)[0]));
        }
        let rs_content_encoding = all_ranges(&slots, 0);
        let f_content_encoding = match read_many_content_encoding(data, &rs_content_encoding) {
            Ok(v) => v,
            Err(e) => return Err(e),
        };
        proof {
            reveal(ContentEncodings::models);
        }
        Ok(ContentEncodings {
            content_encoding: f_content_encoding,
        })
    }
}

/// The value of a ContentEncodings element whose data is known to be valid.
pub fn read_content_encodings(d: &[u8], r: (usize, usize)) -> (v: Result<ContentEncodings, ErrorKind>)
    requires
        range_ok(FieldKind::Master(MasterId::ContentEncodings), d@, r),
    ensures
        v matches Ok(x) && x.models(range_bytes(d@, r)),
{
    ContentEncodings::from_payload(data_of(d, r))
}

/// The values of repeated ContentEncodings elements whose data is known to be valid.
pub fn read_many_content_encodings(d: &[u8], rs: &Vec<(usize, usize)>) -> (v: Result<Vec<ContentEncodings>, ErrorKind>)
    requires
        forall|i: int| 0 <= i < rs@.len() ==> #[trigger] range_ok(FieldKind::Master(MasterId::ContentEncodings), d@, rs@[i]),
    ensures
        v matches Ok(xs) && xs@.len() == rs@.len() && forall|i: int| 0 <= i < rs@.len() ==> (#[trigger] xs@[i]).models(range_bytes(d@, rs@[i])),
{
    let mut out: Vec<ContentEncodings> = Vec::new();
    let mut i: usize = 0;
    while i < rs.len()
        invariant
            i <= rs@.len(),
            out@.len() == i,
            forall|i: int| 0 <= i < rs@.len() ==> #[trigger] range_ok(FieldKind::Master(MasterId::ContentEncodings), d@, rs@[i]),
            forall|j: int| 0 <= j < i ==> (#[trigger] out@[j]).models(range_bytes(d@, rs@[j])),
        decreases rs.len() - i,
    {
        match read_content_encodings(d, rs[i]) {
            Ok(x) => out.push(x),
            Err(e) => return Err(e),
        }
        i = i + 1;
    }
    Ok(out)
}

/// A ContentEncoding element (Element ID 0x6240).
#[derive(Debug, Clone, PartialEq, Eq)]
pub struct ContentEncoding {
    /// Element ID 0x5031.
    pub order: u64,
    /// Element ID 0x5032.
    pub scope: u64,
    /// Element ID 0x5033.
    pub encoding_type: u64,
    /// Element ID 0x5034.
    pub compression: Option<ContentCompression>,
    /// Element ID 0x5035.
    pub encryption: Option<ContentEncryption>,
}

impl ContentEncoding {
    /// The fields of `self` are those of the ContentEncoding element whose data is `d`:
    /// each one is the value of the element that the scan found for it,
    /// or its default when there is none.
    #[verifier::opaque]
    pub open spec fn models(self, d: Seq<u8>) -> bool {
        match spec_master(MasterId::ContentEncoding, d) {
            Ok(slots) => {
                &&& (match slots[0] { Some(rs) => rel_u64(range_bytes(d, rs[0]), self.order), None => self.order == 0u64 })
                &&& (match slots[1] { Some(rs) => rel_u64(range_bytes(d, rs[0]), self.scope), None => self.scope == 1u64 })
                &&& (match slots[2] { Some(rs) => rel_u64(range_bytes(d, rs[0]), self.encoding_type), None => self.encoding_type == 0u64 })
                &&& (match slots[3] { Some(rs) => self.compression matches Some(v) && v.models(range_bytes(d, rs[0])), None => self.compression is None })
                &&& (match slots[4] { Some(rs) => self.encryption matches Some(v) && v.models(range_bytes(d, rs[0])), None => self.encryption is None })
            },
            Err(_) => false,
        }
    }

    /// Parses the data of a ContentEncoding element: the fields that its scan finds,
    /// with defaults for the missing optional ones.
    pub fn from_payload(data: &[u8]) -> (r: Result<ContentEncoding, ErrorKind>)
        ensures
            r is Ok <==> spec_master(MasterId::ContentEncoding, data@) is Ok,
            r matches Ok(x) ==> x.models(data@),
            r matches Err(k) ==> spec_master(MasterId::ContentEncoding, data@) == Err::<Slots, ErrorKind>(k),
    {
        let slots = match scan_master(MasterId::ContentEncoding, data) {
            Ok(s) => s,
            Err(k) => return Err(k),
        };
        proof {
            assert(data@.len() == data.len());
            lemma_master_wf(MasterId::ContentEncoding, data@);
        }
        proof {
            assert(slot_wf(schema(MasterId::ContentEncoding)[0], data@, slots_view(slots@)[0]));
        }
        let f_order = match first_range(&slots, 0) {
            Some(r) => read_u64(data, r),
            None => 0u64,
        };
        proof {
            assert(slot_wf(schema(MasterId::ContentEncoding)[1], data@, slots_view(slots@)[1]));
        }
        let f_scope = match first_range(&slots, 1) {
            Some(r) => read_u64(data, r),
            None => 1u64,
        };
        proof {
            assert(slot_wf(schema(MasterId::ContentEncoding)[2], data@, slots_view(slots@)[2]));
        }
        let f_encoding_type = match first_range(&slots, 2) {
            Some(r) => read_u64(data, r),
            None => 0u64,
        };
        proof {
            assert(slot_wf(schema(MasterId::ContentEncoding)[3], data@, slots_view(slots@)[3]));
        }
        let f_compression = match first_range(&slots, 3) {
            Some(r) => match read_content_compression(data, r) {
                Ok(v) => Some(v),
                Err(e) => return Err(e),
            },
            None => None,
        };
        proof {
            assert(slot_wf(schema(MasterId::ContentEncoding)[4], data@, slots_view(slots@)[4]));
        }
        let f_encryption = match first_range(&slots, 4) {
            Some(r) => match read_content_encryption(data, r) {
                Ok(v) => Some(v),
                Err(e) => return Err(e),
            },
            None => None,
        };
        proof {
            reveal(ContentEncoding::models);
        }
        Ok(ContentEncoding {
            order: f_order,
            scope: f_scope,
            encoding_type: f_encoding_type,
            compression: f_compression,
            encryption: f_encryption,
        })
    }
}

/// The value of a ContentEncoding element whose data is known to be valid.
pub fn read_content_encoding(d: &[u8], r: (usize, usize)) -> (v: Result<ContentEncoding, ErrorKind>)
    requires
        range_ok(FieldKind::Master(MasterId::ContentEncoding), d@, r),
    ensures
        v matches Ok(x) && x.models(range_bytes(d@, r)),
{
    ContentEncoding::from_payload(data_of(d, r))
}

/// The values of repeated ContentEncoding elements whose data is known to be valid.
pub fn read_many_content_encoding(d: &[u8], rs: &Vec<(usize, usize)>) -> (v: Result<Vec<ContentEncoding>, ErrorKind>)
    requires
        forall|i: int| 0 <= i < rs@.len() ==> #[trigger] range_ok(FieldKind::Master(MasterId::ContentEncoding), d@, rs@[i]),
    ensures
        v matches Ok(xs) && xs@.len() == rs@.len() && forall|i: int| 0 <= i < rs@.len() ==> (#[trigger] xs@[i]).models(range_bytes(d@, rs@[i])),
{
    let mut out: Vec<ContentEncoding> = Vec::new();
    let mut i: usize = 0;
    while i < rs.len()
        invariant
            i <= rs@.len(),
            out@.len() == i,
            forall|i: int| 0 <= i < rs@.len() ==> #[trigger] range_ok(FieldKind::Master(MasterId::ContentEncoding), d@, rs@[i]),
            forall|j: int| 0 <= j < i ==> (#[trigger] out@[j]).models(range_bytes(d@, rs@[j])),
        decreases rs.len() - i,
    {
        match read_content_encoding(d, rs[i]) {
            Ok(x) => out.push(x),
            Err(e) => return Err(e),
        }
        i = i + 1;
    }
    Ok(out)
}

/// A ContentCompression element (Element ID 0x5034).
#[derive(Debug, Clone, PartialEq, Eq)]
pub struct ContentCompression {
    /// Element ID 0x4254.
    pub algo: u64,
    /// Element ID 0x4255.
    pub settings: Option<u64>,
}

impl ContentCompression {
    /// The fields of `self` are those of the ContentCompression element whose data is `d`:
    /// each one is the value of the element that the scan found for it,
    /// or its default when there is none.
    #[verifier::opaque]
    pub open spec fn models(self, d: Seq<u8>) -> bool {
        match spec_master(MasterId::ContentCompression, d) {
            Ok(slots) => {
                &&& (match slots[0] { Some(rs) => rel_u64(range_bytes(d, rs[0]), self.algo), None => self.algo == 0u64 })
                &&& (match slots[1] { Some(rs) => self.settings matches Some(v) && rel_u64(range_bytes(d, rs[0]), v), None => self.settings is None })
            },
            Err(_) => false,
        }
    }

    /// Parses the data of a ContentCompression element: the fields that its scan finds,
    /// with defaults for the missing optional ones.
    pub fn from_payload(data: &[u8]) -> (r: Result<ContentCompression, ErrorKind>)
        ensures
            r is Ok <==> spec_master(MasterId::ContentCompression, data@) is Ok,
            r matches Ok(x) ==> x.models(data@),
            r matches Err(k) ==> spec_master(MasterId::ContentCompression, data@) == Err::<Slots, ErrorKind>(k),
    {
        let slots = match scan_master(MasterId::ContentCompression, data) {
            Ok(s) => s,
            Err(k) => return Err(k),
        };
        proof {
            assert(data@.len() == data.len());
            lemma_master_wf(MasterId::ContentCompression, data@);
        }
        proof {
            assert(slot_wf(schema(MasterId::ContentCompression)[0], data@, slots_view(slots@)[0]));
        }
        let f_algo = match first_range(&slots, 0) {
            Some(r) => read_u64(data, r),
            None => 0u64,
        };
        proof {
            assert(slot_wf(schema(MasterId::ContentCompression)[1], data@, slots_view(slots@)[1]));
        }
        let f_settings = match first_range(&slots, 1) {
            Some(r) => Some(read_u64(data, r)),
            None => None,
        };
        proof {
            reveal(ContentCompression::models);
        }
        Ok(ContentCompression {
            algo: f_algo,
            settings: f_settings,
        })
    }
}

/// The value of a ContentCompression element whose data is known to be valid.
pub fn read_content_compression(d: &[u8], r: (usize, usize)) -> (v: Result<ContentCompression, ErrorKind>)
    requires
        range_ok(FieldKind::Master(MasterId::ContentCompression), d@, r),
    ensures
        v matches Ok(x) && x.models(range_bytes(d@, r)),
{
    ContentCompression::from_payload(data_of(d, r))
}

/// The values of repeated ContentCompression elements whose data is known to be valid.
pub fn read_many_content_compression(d: &[u8], rs: &Vec<(usize, usize)>) -> (v: Result<Vec<ContentCompression>, ErrorKind>)
    requires
        forall|i: int| 0 <= i < rs@.len() ==> #[trigger] range_ok(FieldKind::Master(MasterId::ContentCompression), d@, rs@[i]),
    ensures
        v matches Ok(xs) && xs@.len() == rs@.len() && forall|i: int| 0 <= i < rs@.len() ==> (#[trigger] xs@[i]).models(range_bytes(d@, rs@[i])),
{
    let mut out: Vec<ContentCompression> = Vec::new();
    let mut i: usize = 0;
    while i < rs.len()
        invariant
            i <= rs@.len(),
            out@.len() == i,
            forall|i: int| 0 <= i < rs@.len() ==> #[trigger] range_ok(FieldKind::Master(MasterId::ContentCompression), d@, rs@[i]),
            forall|j: int| 0 <= j < i ==> (#[trigger] out@[j]).models(range_bytes(d@, rs@[j])),
        decreases rs.len() - i,
    {
        match read_content_compression(d, rs[i]) {
            Ok(x) => out.push(x),
            Err(e) => return Err(e),
        }
        i = i + 1;
    }
    Ok(out)
}

/// A ContentEncryption element (Element ID 0x5035).
#[derive(Debug, Clone, PartialEq, Eq)]
pub struct ContentEncryption {
    /// Element ID 0x47E1.
    pub enc_algo: u64,
    /// Element ID 0x47E2.
    pub enc_key_id: Option<Vec<u8>>,
}

impl ContentEncryption {
    /// The fields of `self` are those of the ContentEncryption element whose data is `d`:
    /// each one is the value of the element that the scan found for it,
    /// or its default when there is none.
    #[verifier::opaque]
    pub open spec fn models(self, d: Seq<u8>) -> bool {
        match spec_master(MasterId::ContentEncryption, d) {
            Ok(slots) => {
                &&& (match slots[0] { Some(rs) => rel_u64(range_bytes(d, rs[0]), self.enc_algo), None => self.enc_algo == 0u64 })
                &&& (match slots[1] { Some(rs) => self.enc_key_id matches Some(v) && rel_bin(range_bytes(d, rs[0]), v), None => self.enc_key_id is None })
            },
            Err(_) => false,
        }
    }

    /// Parses the data of a ContentEncryption element: the fields that its scan finds,
    /// with defaults for the missing optional ones.
    pub fn from_payload(data: &[u8]) -> (r: Result<ContentEncryption, ErrorKind>)
        ensures
            r is Ok <==> spec_master(MasterId::ContentEncryption, data@) is Ok,
            r matches Ok(x) ==> x.models(data@),
            r matches Err(k) ==> spec_master(MasterId::ContentEncryption, data@) == Err::<Slots, ErrorKind>(k),
    {
        let slots = match scan_master(MasterId::ContentEncryption, data) {
            Ok(s) => s,
            Err(k) => return Err(k),
        };
        proof {
            assert(data@.len() == data.len());
            lemma_master_wf(MasterId::ContentEncryption, data@);
        }
        proof {
            assert(slot_wf(schema(MasterId::ContentEncryption)[0], data@, slots_view(slots@)[0]));
        }
        let f_enc_algo = match first_range(&slots, 0) {
            Some(r) => read_u64(data, r),
            None => 0u64,
        };
        proof {
            assert(slot_wf(schema(MasterId::ContentEncryption)[1], data@, slots_view(slots@)[1]));
        }
        let f_enc_key_id = match first_range(&slots, 1) {
            Some(r) => Some(read_bin(data, r)),
            None => None,
        };
        proof {
            reveal(ContentEncryption::models);
        }
        Ok(ContentEncryption {
            enc_algo: f_enc_algo,
            enc_key_id: f_enc_key_id,
        })
    }
}

/// The value of a ContentEncryption element whose data is known to be valid.
pub fn read_content_encryption(d: &[u8], r: (usize, usize)) -> (v: Result<ContentEncryption, ErrorKind>)
    requires
        range_ok(FieldKind::Master(MasterId::ContentEncryption), d@, r),
    ensures
        v matches Ok(x) && x.models(range_bytes(d@, r)),
{
    ContentEncryption::from_payload(data_of(d, r))
}

/// The values of repeated ContentEncryption elements whose data is known to be valid.
pub fn read_many_content_encryption(d: &[u8], rs: &Vec<(usize, usize)>) -> (v: Result<Vec<ContentEncryption>, ErrorKind>)
    requires
        forall|i: int| 0 <= i < rs@.len() ==> #[trigger] range_ok(FieldKind::Master(MasterId::ContentEncryption), d@, rs@[i]),
    ensures
        v matches Ok(xs) && xs@.len() == rs@.len() && forall|i: int| 0 <= i < rs@.len() ==> (#[trigger] xs@[i]).models(range_bytes(d@, rs@[i])),
{
    let mut out: Vec<ContentEncryption> = Vec::new();
    let mut i: usize = 0;
    while i < rs.len()
        invariant
            i <= rs@.len(),
            out@.len() == i,
            forall|i: int| 0 <= i < rs@.len() ==> #[trigger] range_ok(FieldKind::Master(MasterId::ContentEncryption), d@, rs@[i]),
            forall|j: int| 0 <= j < i ==> (#[trigger] out@[j]).models(range_bytes(d@, rs@[j])),
        decreases rs.len() - i,
    {
        match read_content_encryption(d, rs[i]) {
            Ok(x) => out.push(x),
            Err(e) => return Err(e),
        }
        i = i + 1;
    }
    Ok(out)
}

/// An Audio element (Element ID 0xE1): the settings of an audio track.
#[derive(Debug, Clone, PartialEq, Eq)]
pub struct Audio {
    /// Element ID 0xB5.
    pub sampling_frequency: EbmlFloat,
    /// Element ID 0x7885.
    pub output_sampling_frequency: Option<EbmlFloat>,
    /// Element ID 0x9F.
    pub channels: u64,
    /// Element ID 0x6264.
    pub bit_depth: Option<u64>,
}

impl Audio {
    /// The fields of `self` are those of the Audio element whose data is `d`:
    /// each one is the value of the element that the scan found for it,
    /// or its default when there is none.
    #[verifier::opaque]
    pub open spec fn models(self, d: Seq<u8>) -> bool {
        match spec_master(MasterId::Audio, d) {
            Ok(slots) => {
                &&& (match slots[0] { Some(rs) => rel_float(range_bytes(d, rs[0]), self.sampling_frequency), None => self.sampling_frequency == EbmlFloat::F64(0x40B4F00000000000) })
                &&& (match slots[1] { Some(rs) => self.output_sampling_frequency matches Some(v) && rel_float(range_bytes(d, rs[0]), v), None => self.output_sampling_frequency is None })
                &&& (slots[2] matches Some(rs) && rel_u64(range_bytes(d, rs[0]), self.channels))
                &&& (match slots[3] { Some(rs) => self.bit_depth matches Some(v) && rel_u64(range_bytes(d, rs[0]), v), None => self.bit_depth is None })
            },
            Err(_) => false,
        }
    }

    /// Parses the data of a Audio element: the fields that its scan finds,
    /// with defaults for the missing optional ones.
    pub fn from_payload(data: &[u8]) -> (r: Result<Audio, ErrorKind>)
        ensures
            r is Ok <==> spec_master(MasterId::Audio, data@) is Ok,
            r matches Ok(x) ==> x.models(data@),
            r matches Err(k) ==> spec_master(MasterId::Audio, data@) == Err::<Slots, ErrorKind>(k),
    {
        let slots = match scan_master(MasterId::Audio, data) {
            Ok(s) => s,
            Err(k) => return Err(k),
        };
        proof {
            assert(data@.len() == data.len());
            lemma_master_wf(MasterId::Audio, data@);
        }
        proof {
            assert(slot_wf(schema(MasterId::Audio)[0], data@, slots_view(slots@)[0]));
        }
        let f_sampling_frequency = match first_range(&slots, 0) {
            Some(r) => read_float(data, r),
            None => EbmlFloat::F64(0x40B4F00000000000),
        };
        proof {
            assert(slot_wf(schema(MasterId::Audio)[1], data@, slots_view(slots@)[1]));
        }
        let f_output_sampling_frequency = match first_range(&slots, 1) {
            Some(r) => Some(read_float(data, r)),
            None => None,
        };
        proof {
            assert(slot_wf(schema(MasterId::Audio)[2], data@, slots_view(slots@)[2]));
        }
        let f_channels = match first_range(&slots, 2) {
            Some(r) => read_u64(data, r),
            None => {
                proof {
                    assert(schema(MasterId::Audio)[2].required);
                }
                return Err(ErrorKind::MissingElement);
            },
        };
        proof {
            assert(slot_wf(schema(MasterId::Audio)[3], data@, slots_view(slots@)[3]));
        }
        let f_bit_depth = match first_range(&slots, 3) {
            Some(r) => Some(read_u64(data, r)),
            None => None,
        };
        proof {
            reveal(Audio::models);
        }
        Ok(Audio {
            sampling_frequency: f_sampling_frequency,
            output_sampling_frequency: f_output_sampling_frequency,
            channels: f_channels,
            bit_depth: f_bit_depth,
        })
    }
}

/// The value of a Audio element whose data is known to be valid.
pub fn read_audio(d: &[u8], r: (usize, usize)) -> (v: Result<Audio, ErrorKind>)
    requires
        range_ok(FieldKind::Master(MasterId::Audio), d@, r),
    ensures
        v matches Ok(x) && x.models(range_bytes(d@, r)),
{
    Audio::from_payload(data_of(d, r))
}

/// The values of repeated Audio elements whose data is known to be valid.
pub fn read_many_audio(d: &[u8], rs: &Vec<(usize, usize)>) -> (v: Result<Vec<Audio>, ErrorKind>)
    requires
        forall|i: int| 0 <= i < rs@.len() ==> #[trigger] range_ok(FieldKind::Master(MasterId::Audio), d@, rs@[i]),
    ensures
        v matches Ok(xs) && xs@.len() == rs@.len() && forall|i: int| 0 <= i < rs@.len() ==> (#[trigger] xs@[i]).models(range_bytes(d@, rs@[i])),
{
    let mut out: Vec<Audio> = Vec::new();
    let mut i: usize = 0;
    while i < rs.len()
        invariant
            i <= rs@.len(),
            out@.len() == i,
            forall|i: int| 0 <= i < rs@.len() ==> #[trigger] range_ok(FieldKind::Master(MasterId::Audio), d@, rs@[i]),
            forall|j: int| 0 <= j < i ==> (#[trigger] out@[j]).models(range_bytes(d@, rs@[j])),
        decreases rs.len() - i,
    {
        match read_audio(d, rs[i]) {
            Ok(x) => out.push(x),
            Err(e) => return Err(e),
        }
        i = i + 1;
    }
    Ok(out)
}

/// A Video element (Element ID 0xE0): the settings of a video track.
#[derive(Debug, Clone, PartialEq, Eq)]
pub struct Video {
    /// Element ID 0x9A.
    pub flag_interlaced: u64,
    /// Element ID 0x9D.
    pub field_order: u64,
    /// Element ID 0x53B8.
    pub stereo_mode: u64,
    /// Element ID 0x53C0.
    pub alpha_mode: u64,
    /// Element ID 0x53B9.
    pub old_stereo_mode: Option<u64>,
    /// Element ID 0xB0.
    pub pixel_width: u64,
    /// Element ID 0xBA.
    pub pixel_height: u64,
    /// Element ID 0x54AA.
    pub pixel_crop_bottom: u64,
    /// Element ID 0x54BB.
    pub pixel_crop_top: u64,
    /// Element ID 0x54CC.
    pub pixel_crop_left: u64,
    /// Element ID 0x54DD.
    pub pixel_crop_right: u64,
    /// Element ID 0x54B0.
    pub display_width: Option<u64>,
    /// Element ID 0x54BA.
    pub display_height: Option<u64>,
    /// Element ID 0x54B2.
    pub display_unit: u64,
    /// Element ID 0x2EB524.
    pub colour_space: Option<Vec<u8>>,
    /// Element ID 0x55B0.
    pub colour: Option<Colour>,
    /// Element ID 0x55D0.
    pub projection: Option<Projection>,
}

impl Video {
    /// The fields of `self` are those of the Video element whose data is `d`:
    /// each one is the value of the element that the scan found for it,
    /// or its default when there is none.
    #[verifier::opaque]
    pub open spec fn models(self, d: Seq<u8>) -> bool {
        match spec_master(MasterId::Video, d) {
            Ok(slots) => {
                &&& (match slots[0] { Some(rs) => rel_u64(range_bytes(d, rs[0]), self.flag_interlaced), None => self.flag_interlaced == 0u64 })
                &&& (match slots[1] { Some(rs) => rel_u64(range_bytes(d, rs[0]), self.field_order), None => self.field_order == 2u64 })
                &&& (match slots[2] { Some(rs) => rel_u64(range_bytes(d, rs[0]), self.stereo_mode), None => self.stereo_mode == 0u64 })
                &&& (match slots[3] { Some(rs) => rel_u64(range_bytes(d, rs[0]), self.alpha_mode), None => self.alpha_mode == 0u64 })
                &&& (match slots[4] { Some(rs) => self.old_stereo_mode matches Some(v) && rel_u64(range_bytes(d, rs[0]), v), None => self.old_stereo_mode is None })
                &&& (slots[5] matches Some(rs) && rel_u64(range_bytes(d, rs[0]), self.pixel_width))
                &&& (slots[6] matches Some(rs) && rel_u64(range_bytes(d, rs[0]), self.pixel_height))
                &&& (match slots[7] { Some(rs) => rel_u64(range_bytes(d, rs[0]), self.pixel_crop_bottom), None => self.pixel_crop_bottom == 0u64 })
                &&& (match slots[8] { Some(rs) => rel_u64(range_bytes(d, rs[0]), self.pixel_crop_top), None => self.pixel_crop_top == 0u64 })
                &&& (match slots[9] { Some(rs) => rel_u64(range_bytes(d, rs[0]), self.pixel_crop_left), None => self.pixel_crop_left == 0u64 })
                &&& (match slots[10] { Some(rs) => rel_u64(range_bytes(d, rs[0]), self.pixel_crop_right), None => self.pixel_crop_right == 0u64 })
                &&& (match slots[11] { Some(rs) => self.display_width matches Some(v) && rel_u64(range_bytes(d, rs[0]), v), None => self.display_width is None })
                &&& (match slots[12] { Some(rs) => self.display_height matches Some(v) && rel_u64(range_bytes(d, rs[0]), v), None => self.display_height is None })
                &&& (match slots[13] { Some(rs) => rel_u64(range_bytes(d, rs[0]), self.display_unit), None => self.display_unit == 0u64 })
                &&& (match slots[14] { Some(rs) => self.colour_space matches Some(v) && rel_bin(range_bytes(d, rs[0]), v), None => self.colour_space is None })
                &&& (match slots[15] { Some(rs) => self.colour matches Some(v) && v.models(range_bytes(d, rs[0])), None => self.colour is None })
                &&& (match slots[16] { Some(rs) => self.projection matches Some(v) && v.models(range_bytes(d, rs[0])), None => self.projection is None })
            },
            Err(_) => false,
        }
    }

    /// Parses the data of a Video element: the fields that its scan finds,
    /// with defaults for the missing optional ones.
    pub fn from_payload(data: &[u8]) -> (r: Result<Video, ErrorKind>)
        ensures
            r is Ok <==> spec_master(MasterId::Video, data@) is Ok,
            r matches Ok(x) ==> x.models(data@),
            r matches Err(k) ==> spec_master(MasterId::Video, data@) == Err::<Slots, ErrorKind>(k),
    {
        let slots = match scan_master(MasterId::Video, data) {
            Ok(s) => s,
            Err(k) => return Err(k),
        };
        proof {
            assert(data@.len() == data.len());
            lemma_master_wf(MasterId::Video, data@);
        }
        proof {
            assert(slot_wf(schema(MasterId::Video)[0], data@, slots_view(slots@)[0]));
        }
        let f_flag_interlaced = match first_range(&slots, 0) {
            Some(r) => read_u64(data, r),
            None => 0u64,
        };
        proof {
            assert(slot_wf(schema(MasterId::Video)[1], data@, slots_view(slots@)[1]));
        }
        let f_field_order = match first_range(&slots, 1) {
            Some(r) => read_u64(data, r),
            None => 2u64,
        };
        proof {
            assert(slot_wf(schema(MasterId::Video)[2], data@, slots_view(slots@)[2]));
        }
        let f_stereo_mode = match first_range(&slots, 2) {
            Some(r) => read_u64(data, r),
            None => 0u64,
        };
        proof {
            assert(slot_wf(schema(MasterId::Video)[3], data@, slots_view(slots@)[3]));
        }
        let f_alpha_mode = match first_range(&slots, 3) {
            Some(r) => read_u64(data, r),
            None => 0u64,
        };
        proof {
            assert(slot_wf(schema(MasterId::Video)[4], data@, slots_view(slots@)[4]));
        }
        let f_old_stereo_mode = match first_range(&slots, 4) {
            Some(r) => Some(read_u64(data, r)),
            None => None,
        };
        proof {
            assert(slot_wf(schema(MasterId::Video)[5], data@, slots_view(slots@)[5]));
        }
        let f_pixel_width = match first_range(&slots, 5) {
            Some(r) => read_u64(data, r),
            None => {
                proof {
                    assert(schema(MasterId::Video)[5].required);
                }
                return Err(ErrorKind::MissingElement);
            },
        };
        proof {
            assert(slot_wf(schema(MasterId::Video)[6], data@, slots_view(slots@)[6]));
        }
        let f_pixel_height = match first_range(&slots, 6) {
            Some(r) => read_u64(data, r),
            None => {
                proof {
                    assert(schema(MasterId::Video)[6].required);
                }
                return Err(ErrorKind::MissingElement);
            },
        };
        proof {
            assert(slot_wf(schema(MasterId::Video)[7], data@, slots_view(slots@)[7]));
        }
        let f_pixel_crop_bottom = match first_range(&slots, 7) {
            Some(r) => read_u64(data, r),
            None => 0u64,
        };
        proof {
            assert(slot_wf(schema(MasterId::Video)[8], data@, slots_view(slots@)[8]));
        }
        let f_pixel_crop_top = match first_range(&slots, 8) {
            Some(r) => read_u64(data, r),
            None => 0u64,
        };
        proof {
            assert(slot_wf(schema(MasterId::Video)[9], data@, slots_view(slots@)[9]));
        }
        let f_pixel_crop_left = match first_range(&slots, 9) {
            Some(r) => read_u64(data, r),
            None => 0u64,
        };
        proof {
            assert(slot_wf(schema(MasterId::Video)[10], data@, slots_view(slots@)[10]));
        }
        let f_pixel_crop_right = match first_range(&slots, 10) {
            Some(r) => read_u64(data, r),
            None => 0u64,
        };
        proof {
            assert(slot_wf(schema(MasterId::Video)[11], data@, slots_view(slots@)[11]));
        }
        let f_display_width = match first_range(&slots, 11) {
            Some(r) => Some(read_u64(data, r)),
            None => None,
        };
        proof {
            assert(slot_wf(schema(MasterId::Video)[12], data@, slots_view(slots@)[12]));
        }
        let f_display_height = match first_range(&slots, 12) {
            Some(r) => Some(read_u64(data, r)),
            None => None,
        };
        proof {
            assert(slot_wf(schema(MasterId::Video)[13], data@, slots_view(slots@)[13]));
        }
        let f_display_unit = match first_range(&slots, 13) {
            Some(r) => read_u64(data, r),
            None => 0u64,
        };
        proof {
            assert(slot_wf(schema(MasterId::Video)[14], data@, slots_view(slots@)[14]));
        }
        let f_colour_space = match first_range(&slots, 14) {
            Some(r) => Some(read_bin(data, r)),
            None => None,
        };
        proof {
            assert(slot_wf(schema(MasterId::Video)[15], data@, slots_view(slots@)[15]));
        }
        let f_colour = match first_range(&slots, 15) {
            Some(r) => match read_colour(data, r) {
                Ok(v) => Some(v),
                Err(e) => return Err(e),
            },
            None => None,
        };
        proof {
            assert(slot_wf(schema(MasterId::Video)[16], data@, slots_view(slots@)[16]));
        }
        let f_projection = match first_range(&slots, 16) {
            Some(r) => match read_projection(data, r) {
                Ok(v) => Some(v),
                Err(e) => return Err(e),
            },
            None => None,
        };
        proof {
            reveal(Video::models);
        }
        Ok(Video {
            flag_interlaced: f_flag_interlaced,
            field_order: f_field_order,
            stereo_mode: f_stereo_mode,
            alpha_mode: f_alpha_mode,
            old_stereo_mode: f_old_stereo_mode,
            pixel_width: f_pixel_width,
            pixel_height: f_pixel_height,
            pixel_crop_bottom: f_pixel_crop_bottom,
            pixel_crop_top: f_pixel_crop_top,
            pixel_crop_left: f_pixel_crop_left,
            pixel_crop_right: f_pixel_crop_right,
            display_width: f_display_width,
            display_height: f_display_height,
            display_unit: f_display_unit,
            colour_space: f_colour_space,
            colour: f_colour,
            projection: f_projection,
        })
    }
}

/// The value of a Video element whose data is known to be valid.
pub fn read_video(d: &[u8], r: (usize, usize)) -> (v: Result<Video, ErrorKind>)
    requires
        range_ok(FieldKind::Master(MasterId::Video), d@, r),
    ensures
        v matches Ok(x) && x.models(range_bytes(d@, r)),
{
    Video::from_payload(data_of(d, r))
}

/// The values of repeated Video elements whose data is known to be valid.
pub fn read_many_video(d: &[u8], rs: &Vec<(usize, usize)>) -> (v: Result<Vec<Video>, ErrorKind>)
    requires
        forall|i: int| 0 <= i < rs@.len() ==> #[trigger] range_ok(FieldKind::Master(MasterId::Video), d@, rs@[i]),
    ensures
        v matches Ok(xs) && xs@.len() == rs@.len() && forall|i: int| 0 <= i < rs@.len() ==> (#[trigger] xs@[i]).models(range_bytes(d@, rs@[i])),
{
    let mut out: Vec<Video> = Vec::new();
    let mut i: usize = 0;
    while i < rs.len()
        invariant
            i <= rs@.len(),
            out@.len() == i,
            forall|i: int| 0 <= i < rs@.len() ==> #[trigger] range_ok(FieldKind::Master(MasterId::Video), d@, rs@[i]),
            forall|j: int| 0 <= j < i ==> (#[trigger] out@[j]).models(range_bytes(d@, rs@[j])),
        decreases rs.len() - i,
    {
        match read_video(d, rs[i]) {
            Ok(x) => out.push(x),
            Err(e) => return Err(e),
        }
        i = i + 1;
    }
    Ok(out)
}

/// A Colour element (Element ID 0x55B0).
#[derive(Debug, Clone, PartialEq, Eq)]
pub struct Colour {
    /// Element ID 0x55B1.
    pub matrix_coefficients: u64,
    /// Element ID 0x55B2.
    pub bits_per_channel: u64,
    /// Element ID 0x55B3.
    pub chroma_subsampling_horz: Option<u64>,
    /// Element ID 0x55B4.
    pub chroma_subsampling_vert: Option<u64>,
    /// Element ID 0x55B5.
    pub cb_subsampling_horz: Option<u64>,
    /// Element ID 0x55B6.
    pub cb_subsampling_vert: Option<u64>,
    /// Element ID 0x55B7.
    pub chroma_siting_horz: u64,
    /// Element ID 0x55B8.
    pub chroma_siting_vert: u64,
    /// Element ID 0x55B9.
    pub range: u64,
    /// Element ID 0x55BA.
    pub transfer_characteristics: u64,
    /// Element ID 0x55BB.
    pub primaries: u64,
    /// Element ID 0x55BC.
    pub max_cll: Option<u64>,
    /// Element ID 0x55BD.
    pub max_fall: Option<u64>,
    /// Element ID 0x55D0.
    pub mastering_metadata: Option<MasteringMetadata>,
}

impl Colour {
    /// The fields of `self` are those of the Colour element whose data is `d`:
    /// each one is the value of the element that the scan found for it,
    /// or its default when there is none.
    #[verifier::opaque]
    pub open spec fn models(self, d: Seq<u8>) -> bool {
        match spec_master(MasterId::Colour, d) {
            Ok(slots) => {
                &&& (match slots[0] { Some(rs) => rel_u64(range_bytes(d, rs[0]), self.matrix_coefficients), None => self.matrix_coefficients == 2u64 })
                &&& (match slots[1] { Some(rs) => rel_u64(range_bytes(d, rs[0]), self.bits_per_channel), None => self.bits_per_channel == 0u64 })
                &&& (match slots[2] { Some(rs) => self.chroma_subsampling_horz matches Some(v) && rel_u64(range_bytes(d, rs[0]), v), None => self.chroma_subsampling_horz is None })
                &&& (match slots[3] { Some(rs) => self.chroma_subsampling_vert matches Some(v) && rel_u64(range_bytes(d, rs[0]), v), None => self.chroma_subsampling_vert is None })
                &&& (match slots[4] { Some(rs) => self.cb_subsampling_horz matches Some(v) && rel_u64(range_bytes(d, rs[0]), v), None => self.cb_subsampling_horz is None })
                &&& (match slots[5] { Some(rs) => self.cb_subsampling_vert matches Some(v) && rel_u64(range_bytes(d, rs[0]), v), None => self.cb_subsampling_vert is None })
                &&& (match slots[6] { Some(rs) => rel_u64(range_bytes(d, rs[0]), self.chroma_siting_horz), None => self.chroma_siting_horz == 0u64 })
                &&& (match slots[7] { Some(rs) => rel_u64(range_bytes(d, rs[0]), self.chroma_siting_vert), None => self.chroma_siting_vert == 0u64 })
                &&& (match slots[8] { Some(rs) => rel_u64(range_bytes(d, rs[0]), self.range), None => self.range == 0u64 })
                &&& (match slots[9] { Some(rs) => rel_u64(range_bytes(d, rs[0]), self.transfer_characteristics), None => self.transfer_characteristics == 2u64 })
                &&& (match slots[10] { Some(rs) => rel_u64(range_bytes(d, rs[0]), self.primaries), None => self.primaries == 2u64 })
                &&& (match slots[11] { Some(rs) => self.max_cll matches Some(v) && rel_u64(range_bytes(d, rs[0]), v), None => self.max_cll is None })
                &&& (match slots[12] { Some(rs) => self.max_fall matches Some(v) && rel_u64(range_bytes(d, rs[0]), v), None => self.max_fall is None })
                &&& (match slots[13] { Some(rs) => self.mastering_metadata matches Some(v) && v.models(range_bytes(d, rs[0])), None => self.mastering_metadata is None })
            },
            Err(_) => false,
        }
    }

    /// Parses the data of a Colour element: the fields that its scan finds,
    /// with defaults for the missing optional ones.
    pub fn from_payload(data: &[u8]) -> (r: Result<Colour, ErrorKind>)
        ensures
            r is Ok <==> spec_master(MasterId::Colour, data@) is Ok,
            r matches Ok(x) ==> x.models(data@),
            r matches Err(k) ==> spec_master(MasterId::Colour, data@) == Err::<Slots, ErrorKind>(k),
    {
        let slots = match scan_master(MasterId::Colour, data) {
            Ok(s) => s,
            Err(k) => return Err(k),
        };
        proof {
            assert(data@.len() == data.len());
            lemma_master_wf(MasterId::Colour, data@);
        }
        proof {
            assert(slot_wf(schema(MasterId::Colour)[0], data@, slots_view(slots@)[0]));
        }
        let f_matrix_coefficients = match first_range(&slots, 0) {
            Some(r) => read_u64(data, r),
            None => 2u64,
        };
        proof {
            assert(slot_wf(schema(MasterId::Colour)[1], data@, slots_view(slots@)[1]));
        }
        let f_bits_per_channel = match first_range(&slots, 1) {
            Some(r) => read_u64(data, r),
            None => 0u64,
        };
        proof {
            assert(slot_wf(schema(MasterId::Colour)[2], data@, slots_view(slots@)[2]));
        }
        let f_chroma_subsampling_horz = match first_range(&slots, 2) {
            Some(r) => Some(read_u64(data, r)),
            None => None,
        };
        proof {
            assert(slot_wf(schema(MasterId::Colour)[3], data@, slots_view(slots@)[3]));
        }
        let f_chroma_subsampling_vert = match first_range(&slots, 3) {
            Some(r) => Some(read_u64(data, r)),
            None => None,
        };
        proof {
            assert(slot_wf(schema(MasterId::Colour)[4], data@, slots_view(slots@)[4]));
        }
        let f_cb_subsampling_horz = match first_range(&slots, 4) {
            Some(r) => Some(read_u64(data, r)),
            None => None,
        };
        proof {
            assert(slot_wf(schema(MasterId::Colour)[5], data@, slots_view(slots@)[5]));
        }
        let f_cb_subsampling_vert = match first_range(&slots, 5) {
            Some(r) => Some(read_u64(data, r)),
            None => None,
        };
        proof {
            assert(slot_wf(schema(MasterId::Colour)[6], data@, slots_view(slots@)[6]));
        }
        let f_chroma_siting_horz = match first_range(&slots, 6) {
            Some(r) => read_u64(data, r),
            None => 0u64,
        };
        proof {
            assert(slot_wf(schema(MasterId::Colour)[7], data@, slots_view(slots@)[7]));
        }
        let f_chroma_siting_vert = match first_range(&slots, 7) {
            Some(r) => read_u64(data, r),
            None => 0u64,
        };
        proof {
            assert(slot_wf(schema(MasterId::Colour)[8], data@, slots_view(slots@)[8]));
        }
        let f_range = match first_range(&slots, 8) {
            Some(r) => read_u64(data, r),
            None => 0u64,
        };
        proof {
            assert(slot_wf(schema(MasterId::Colour)[9], data@, slots_view(slots@)[9]));
        }
        let f_transfer_characteristics = match first_range(&slots, 9) {
            Some(r) => read_u64(data, r),
            None => 2u64,
        };
        proof {
            assert(slot_wf(schema(MasterId::Colour)[10], data@, slots_view(slots@)[10]));
        }
        let f_primaries = match first_range(&slots, 10) {
            Some(r) => read_u64(data, r),
            None => 2u64,
        };
        proof {
            assert(slot_wf(schema(MasterId::Colour)[11], data@, slots_view(slots@)[11]));
        }
        let f_max_cll = match first_range(&slots, 11) {
            Some(r) => Some(read_u64(data, r)),
            None => None,
        };
        proof {
            assert(slot_wf(schema(MasterId::Colour)[12], data@, slots_view(slots@)[12]));
        }
        let f_max_fall = match first_range(&slots, 12) {
            Some(r) => Some(read_u64(data, r)),
            None => None,
        };
        proof {
            assert(slot_wf(schema(MasterId::Colour)[13], data@, slots_view(slots@)[13]));
        }
        let f_mastering_metadata = match first_range(&slots, 13) {
            Some(r) => match read_mastering_metadata(data, r) {
                Ok(v) => Some(v),
                Err(e) => return Err(e),
            },
            None => None,
        };
        proof {
            reveal(Colour::models);
        }
        Ok(Colour {
            matrix_coefficients: f_matrix_coefficients,
            bits_per_channel: f_bits_per_channel,
            chroma_subsampling_horz: f_chroma_subsampling_horz,
            chroma_subsampling_vert: f_chroma_subsampling_vert,
            cb_subsampling_horz: f_cb_subsampling_horz,
            cb_subsampling_vert: f_cb_subsampling_vert,
            chroma_siting_horz: f_chroma_siting_horz,
            chroma_siting_vert: f_chroma_siting_vert,
            range: f_range,
            transfer_characteristics: f_transfer_characteristics,
            primaries: f_primaries,
            max_cll: f_max_cll,
            max_fall: f_max_fall,
            mastering_metadata: f_mastering_metadata,
        })
    }
}

/// The value of a Colour element whose data is known to be valid.
pub fn read_colour(d: &[u8], r: (usize, usize)) -> (v: Result<Colour, ErrorKind>)
    requires
        range_ok(FieldKind::Master(MasterId::Colour), d@, r),
    ensures
        v matches Ok(x) && x.models(range_bytes(d@, r)),
{
    Colour::from_payload(data_of(d, r))
}

/// The values of repeated Colour elements whose data is known to be valid.
pub fn read_many_colour(d: &[u8], rs: &Vec<(usize, usize)>) -> (v: Result<Vec<Colour>, ErrorKind>)
    requires
        forall|i: int| 0 <= i < rs@.len() ==> #[trigger] range_ok(FieldKind::Master(MasterId::Colour), d@, rs@[i]),
    ensures
        v matches Ok(xs) && xs@.len() == rs@.len() && forall|i: int| 0 <= i < rs@.len() ==> (#[trigger] xs@[i]).models(range_bytes(d@, rs@[i])),
{
    let mut out: Vec<Colour> = Vec::new();
    let mut i: usize = 0;
    while i < rs.len()
        invariant
            i <= rs@.len(),
            out@.len() == i,
            forall|i: int| 0 <= i < rs@.len() ==> #[trigger] range_ok(FieldKind::Master(MasterId::Colour), d@, rs@[i]),
            forall|j: int| 0 <= j < i ==> (#[trigger] out@[j]).models(range_bytes(d@, rs@[j])),
        decreases rs.len() - i,
    {
        match read_colour(d, rs[i]) {
            Ok(x) => out.push(x),
            Err(e) => return Err(e),
        }
        i = i + 1;
    }
    Ok(out)
}

/// A MasteringMetadata element (Element ID 0x55D0).
#[derive(Debug, Clone, PartialEq, Eq)]
pub struct MasteringMetadata {
    /// Element ID 0x55D1.
    pub primary_r_chromaticity_x: Option<EbmlFloat>,
    /// Element ID 0x55D2.
    pub primary_r_chromaticity_y: Option<EbmlFloat>,
    /// Element ID 0x55D3.
    pub primary_g_chromaticity_x: Option<EbmlFloat>,
    /// Element ID 0x55D4.
    pub primary_g_chromaticity_y: Option<EbmlFloat>,
    /// Element ID 0x55D5.
    pub primary_b_chromaticity_x: Option<EbmlFloat>,
    /// Element ID 0x55D6.
    pub primary_b_chromaticity_y: Option<EbmlFloat>,
    /// Element ID 0x55D7.
    pub white_point_chromaticity_x: Option<EbmlFloat>,
    /// Element ID 0x55D8.
    pub white_point_chromaticity_y: Option<EbmlFloat>,
    /// Element ID 0x55D9.
    pub luminance_max: Option<EbmlFloat>,
    /// Element ID 0x55DA.
    pub luminance_min: Option<EbmlFloat>,
}

impl MasteringMetadata {
    /// The fields of `self` are those of the MasteringMetadata element whose data is `d`:
    /// each one is the value of the element that the scan found for it,
    /// or its default when there is none.
    #[verifier::opaque]
    pub open spec fn models(self, d: Seq<u8>) -> bool {
        match spec_master(MasterId::MasteringMetadata, d) {
            Ok(slots) => {
                &&& (match slots[0] { Some(rs) => self.primary_r_chromaticity_x matches Some(v) && rel_float(range_bytes(d, rs[0]), v), None => self.primary_r_chromaticity_x is None })
                &&& (match slots[1] { Some(rs) => self.primary_r_chromaticity_y matches Some(v) && rel_float(range_bytes(d, rs[0]), v), None => self.primary_r_chromaticity_y is None })
                &&& (match slots[2] { Some(rs) => self.primary_g_chromaticity_x matches Some(v) && rel_float(range_bytes(d, rs[0]), v), None => self.primary_g_chromaticity_x is None })
                &&& (match slots[3] { Some(rs) => self.primary_g_chromaticity_y matches Some(v) && rel_float(range_bytes(d, rs[0]), v), None => self.primary_g_chromaticity_y is None })
                &&& (match slots[4] { Some(rs) => self.primary_b_chromaticity_x matches Some(v) && rel_float(range_bytes(d, rs[0]), v), None => self.primary_b_chromaticity_x is None })
                &&& (match slots[5] { Some(rs) => self.primary_b_chromaticity_y matches Some(v) && rel_float(range_bytes(d, rs[0]), v), None => self.primary_b_chromaticity_y is None })
                &&& (match slots[6] { Some(rs) => self.white_point_chromaticity_x matches Some(v) && rel_float(range_bytes(d, rs[0]), v), None => self.white_point_chromaticity_x is None })
                &&& (match slots[7] { Some(rs) => self.white_point_chromaticity_y matches Some(v) && rel_float(range_bytes(d, rs[0]), v), None => self.white_point_chromaticity_y is None })
                &&& (match slots[8] { Some(rs) => self.luminance_max matches Some(v) && rel_float(range_bytes(d, rs[0]), v), None => self.luminance_max is None })
                &&& (match slots[9] { Some(rs) => self.luminance_min matches Some(v) && rel_float(range_bytes(d, rs[0]), v), None => self.luminance_min is None })
            },
            Err(_) => false,
        }
    }

    /// Parses the data of a MasteringMetadata element: the fields that its scan finds,
    /// with defaults for the missing optional ones.
    pub fn from_payload(data: &[u8]) -> (r: Result<MasteringMetadata, ErrorKind>)
        ensures
            r is Ok <==> spec_master(MasterId::MasteringMetadata, data@) is Ok,
            r matches Ok(x) ==> x.models(data@),
            r matches Err(k) ==> spec_master(MasterId::MasteringMetadata, data@) == Err::<Slots, ErrorKind>(k),
    {
        let slots = match scan_master(MasterId::MasteringMetadata, data) {
            Ok(s) => s,
            Err(k) => return Err(k),
        };
        proof {
            assert(data@.len() == data.len());
            lemma_master_wf(MasterId::MasteringMetadata, data@);
        }
        proof {
            assert(slot_wf(schema(MasterId::MasteringMetadata)[0], data@, slots_view(slots@)[0]));
        }
        let f_primary_r_chromaticity_x = match first_range(&slots, 0) {
            Some(r) => Some(read_float(data, r)),
            None => None,
        };
        proof {
            assert(slot_wf(schema(MasterId::MasteringMetadata)[1], data@, slots_view(slots@)[1]));
        }
        let f_primary_r_chromaticity_y = match first_range(&slots, 1) {
            Some(r) => Some(read_float(data, r)),
            None => None,
        };
        proof {
            assert(slot_wf(schema(MasterId::MasteringMetadata)[2], data@, slots_view(slots@)[2]));
        }
        let f_primary_g_chromaticity_x = match first_range(&slots, 2) {
            Some(r) => Some(read_float(data, r)),
            None => None,
        };
        proof {
            assert(slot_wf(schema(MasterId::MasteringMetadata)[3], data@, slots_view(slots@)[3]));
        }
        let f_primary_g_chromaticity_y = match first_range(&slots, 3) {
            Some(r) => Some(read_float(data, r)),
            None => None,
        };
        proof {
            assert(slot_wf(schema(MasterId::MasteringMetadata)[4], data@, slots_view(slots@)[4]));
        }
        let f_primary_b_chromaticity_x = match first_range(&slots, 4) {
            Some(r) => Some(read_float(data, r)),
            None => None,
        };
        proof {
            assert(slot_wf(schema(MasterId::MasteringMetadata)[5], data@, slots_view(slots@)[5]));
        }
        let f_primary_b_chromaticity_y = match first_range(&slots, 5) {
            Some(r) => Some(read_float(data, r)),
            None => None,
        };
        proof {
            assert(slot_wf(schema(MasterId::MasteringMetadata)[6], data@, slots_view(slots@)[6]));
        }
        let f_white_point_chromaticity_x = match first_range(&slots, 6) {
            Some(r) => Some(read_float(data, r)),
            None => None,
        };
        proof {
            assert(slot_wf(schema(MasterId::MasteringMetadata)[7], data@, slots_view(slots@)[7]));
        }
        let f_white_point_chromaticity_y = match first_range(&slots, 7) {
            Some(r) => Some(read_float(data, r)),
            None => None,
        };
        proof {
            assert(slot_wf(schema(MasterId::MasteringMetadata)[8], data@, slots_view(slots@)[8]));
        }
        let f_luminance_max = match first_range(&slots, 8) {
            Some(r) => Some(read_float(data, r)),
            None => None,
        };
        proof {
            assert(slot_wf(schema(MasterId::MasteringMetadata)[9], data@, slots_view(slots@)[9]));
        }
        let f_luminance_min = match first_range(&slots, 9) {
            Some(r) => Some(read_float(data, r)),
            None => None,
        };
        proof {
            reveal(MasteringMetadata::models);
        }
        Ok(MasteringMetadata {
            primary_r_chromaticity_x: f_primary_r_chromaticity_x,
            primary_r_chromaticity_y: f_primary_r_chromaticity_y,
            primary_g_chromaticity_x: f_primary_g_chromaticity_x,
            primary_g_chromaticity_y: f_primary_g_chromaticity_y,
            primary_b_chromaticity_x: f_primary_b_chromaticity_x,
            primary_b_chromaticity_y: f_primary_b_chromaticity_y,
            white_point_chromaticity_x: f_white_point_chromaticity_x,
            white_point_chromaticity_y: f_white_point_chromaticity_y,
            luminance_max: f_luminance_max,
            luminance_min: f_luminance_min,
        })
    }
}

/// The value of a MasteringMetadata element whose data is known to be valid.
pub fn read_mastering_metadata(d: &[u8], r: (usize, usize)) -> (v: Result<MasteringMetadata, ErrorKind>)
    requires
        range_ok(FieldKind::Master(MasterId::MasteringMetadata), d@, r),
    ensures
        v matches Ok(x) && x.models(range_bytes(d@, r)),
{
    MasteringMetadata::from_payload(data_of(d, r))
}

/// The values of repeated MasteringMetadata elements whose data is known to be valid.
pub fn read_many_mastering_metadata(d: &[u8], rs: &Vec<(usize, usize)>) -> (v: Result<Vec<MasteringMetadata>, ErrorKind>)
    requires
        forall|i: int| 0 <= i < rs@.len() ==> #[trigger] range_ok(FieldKind::Master(MasterId::MasteringMetadata), d@, rs@[i]),
    ensures
        v matches Ok(xs) && xs@.len() == rs@.len() && forall|i: int| 0 <= i < rs@.len() ==> (#[trigger] xs@[i]).models(range_bytes(d@, rs@[i])),
{
    let mut out: Vec<MasteringMetadata> = Vec::new();
    let mut i: usize = 0;
    while i < rs.len()
        invariant
            i <= rs@.len(),
            out@.len() == i,
            forall|i: int| 0 <= i < rs@.len() ==> #[trigger] range_ok(FieldKind::Master(MasterId::MasteringMetadata), d@, rs@[i]),
            forall|j: int| 0 <= j < i ==> (#[trigger] out@[j]).models(range_bytes(d@, rs@[j])),
        decreases rs.len() - i,
    {
        match read_mastering_metadata(d, rs[i]) {
            Ok(x) => out.push(x),
            Err(e) => return Err(e),
        }
        i = i + 1;
    }
    Ok(out)
}

/// A Projection element (Element ID 0x7670).
#[derive(Debug, Clone, PartialEq, Eq)]
pub struct Projection {
    /// Element ID 0x7671.
    pub projection_type: u64,
    /// Element ID 0x7672.
    pub projection_private: Option<Vec<u8>>,
    /// Element ID 0x7673.
    pub projection_pose_yaw: EbmlFloat,
    /// Element ID 0x7674.
    pub projection_pose_pitch: EbmlFloat,
    /// Element ID 0x7675.
    pub projection_pose_roll: EbmlFloat,
}

impl Projection {
    /// The fields of `self` are those of the Projection element whose data is `d`:
    /// each one is the value of the element that the scan found for it,
    /// or its default when there is none.
    #[verifier::opaque]
    pub open spec fn models(self, d: Seq<u8>) -> bool {
        match spec_master(MasterId::Projection, d) {
            Ok(slots) => {
                &&& (match slots[0] { Some(rs) => rel_u64(range_bytes(d, rs[0]), self.projection_type), None => self.projection_type == 0u64 })
                &&& (match slots[1] { Some(rs) => self.projection_private matches Some(v) && rel_bin(range_bytes(d, rs[0]), v), None => self.projection_private is None })
                &&& (match slots[2] { Some(rs) => rel_float(range_bytes(d, rs[0]), self.projection_pose_yaw), None => self.projection_pose_yaw == EbmlFloat::F64(0) })
                &&& (match slots[3] { Some(rs) => rel_float(range_bytes(d, rs[0]), self.projection_pose_pitch), None => self.projection_pose_pitch == EbmlFloat::F64(0) })
                &&& (match slots[4] { Some(rs) => rel_float(range_bytes(d, rs[0]), self.projection_pose_roll), None => self.projection_pose_roll == EbmlFloat::F64(0) })
            },
            Err(_) => false,
        }
    }

    /// Parses the data of a Projection element: the fields that its scan finds,
    /// with defaults for the missing optional ones.
    pub fn from_payload(data: &[u8]) -> (r: Result<Projection, ErrorKind>)
        ensures
            r is Ok <==> spec_master(MasterId::Projection, data@) is Ok,
            r matches Ok(x) ==> x.models(data@),
            r matches Err(k) ==> spec_master(MasterId::Projection, data@) == Err::<Slots, ErrorKind>(k),
    {
        let slots = match scan_master(MasterId::Projection, data) {
            Ok(s) => s,
            Err(k) => return Err(k),
        };
        proof {
            assert(data@.len() == data.len());
            lemma_master_wf(MasterId::Projection, data@);
        }
        proof {
            assert(slot_wf(schema(MasterId::Projection)[0], data@, slots_view(slots@)[0]));
        }
        let f_projection_type = match first_range(&slots, 0) {
            Some(r) => read_u64(data, r),
            None => 0u64,
        };
        proof {
            assert(slot_wf(schema(MasterId::Projection)[1], data@, slots_view(slots@)[1]));
        }
        let f_projection_private = match first_range(&slots, 1) {
            Some(r) => Some(read_bin(data, r)),
            None => None,
        };
        proof {
            assert(slot_wf(schema(MasterId::Projection)[2], data@, slots_view(slots@)[2]));
        }
        let f_projection_pose_yaw = match first_range(&slots, 2) {
            Some(r) => read_float(data, r),
            None => EbmlFloat::F64(0),
        };
        proof {
            assert(slot_wf(schema(MasterId::Projection)[3], data@, slots_view(slots@)[3]));
        }
        let f_projection_pose_pitch = match first_range(&slots, 3) {
            Some(r) => read_float(data, r),
            None => EbmlFloat::F64(0),
        };
        proof {
            assert(slot_wf(schema(MasterId::Projection)[4], data@, slots_view(slots@)[4]));
        }
        let f_projection_pose_roll = match first_range(&slots, 4) {
            Some(r) => read_float(data, r),
            None => EbmlFloat::F64(0),
        };
        proof {
            reveal(Projection::models);
        }
        Ok(Projection {
            projection_type: f_projection_type,
            projection_private: f_projection_private,
            projection_pose_yaw: f_projection_pose_yaw,
            projection_pose_pitch: f_projection_pose_pitch,
            projection_pose_roll: f_projection_pose_roll,
        })
    }
}

/// The value of a Projection element whose data is known to be valid.
pub fn read_projection(d: &[u8], r: (usize, usize)) -> (v: Result<Projection, ErrorKind>)
    requires
        range_ok(FieldKind::Master(MasterId::Projection), d@, r),
    ensures
        v matches Ok(x) && x.models(range_bytes(d@, r)),
{
    Projection::from_payload(data_of(d, r))
}

/// The values of repeated Projection elements whose data is known to be valid.
pub fn read_many_projection(d: &[u8], rs: &Vec<(usize, usize)>) -> (v: Result<Vec<Projection>, ErrorKind>)
    requires
        forall|i: int| 0 <= i < rs@.len() ==> #[trigger] range_ok(FieldKind::Master(MasterId::Projection), d@, rs@[i]),
    ensures
        v matches Ok(xs) && xs@.len() == rs@.len() && forall|i: int| 0 <= i < rs@.len() ==> (#[trigger] xs@[i]).models(range_bytes(d@, rs@[i])),
{
    let mut out: Vec<Projection> = Vec::new();
    let mut i: usize = 0;
    while i < rs.len()
        invariant
            i <= rs@.len(),
            out@.len() == i,
            forall|i: int| 0 <= i < rs@.len() ==> #[trigger] range_ok(FieldKind::Master(MasterId::Projection), d@, rs@[i]),
            forall|j: int| 0 <= j < i ==> (#[trigger] out@[j]).models(range_bytes(d@, rs@[j])),
        decreases rs.len() - i,
    {
        match read_projection(d, rs[i]) {
            Ok(x) => out.push(x),
            Err(e) => return Err(e),
        }
        i = i + 1;
    }
    Ok(out)
}

} // verus!
