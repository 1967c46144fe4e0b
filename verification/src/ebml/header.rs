use vstd::prelude::*;

use crate::ebml::error::ErrorKind;
use crate::ebml::fields::{
    all_ranges, data_of, first_range, read_bin, read_bin4, read_date, read_float, read_i64,
    read_many_bin, read_many_u64, read_str, read_u32, read_u64, read_uuid, rel_bin, rel_bin4,
    rel_date, rel_float, rel_i64, rel_str, rel_u32, rel_u64, rel_uuid,
};
use crate::ebml::parse::{Date, EbmlFloat};
use crate::ebml::schema::{schema, FieldKind, MasterId};
use crate::permutation::{
    lemma_master_wf, range_bytes, range_ok, scan_master, slot_wf, slots_view, spec_master, Slots,
};

verus! {
/// The EBML Header (Element ID 0x1A45DFA3): the versions of EBML and of the document type.
#[derive(Debug, Clone, PartialEq, Eq)]
pub struct EbmlHeader {
    /// Element ID 0x4286.
    pub version: u32,
    /// Element ID 0x42F7.
    pub read_version: u32,
    /// Element ID 0x42F2.
    pub max_id_length: u32,
    /// Element ID 0x42F3.
    pub max_size_length: u32,
    /// Element ID 0x4282.
    pub doc_type: String,
    /// Element ID 0x4287.
    pub doc_type_version: u32,
    /// Element ID 0x4285.
    pub doc_type_read_version: u32,
}

impl EbmlHeader {
    /// The fields of `self` are those of the EbmlHeader element whose data is `d`:
    /// each one is the value of the element that the scan found for it,
    /// or its default when there is none.
    #[verifier::opaque]
    pub open spec fn models(self, d: Seq<u8>) -> bool {
        match spec_master(MasterId::EbmlHeader, d) {
            Ok(slots) => {
                &&& (match slots[0] { Some(rs) => rel_u32(range_bytes(d, rs[0]), self.version), None => self.version == 1u32 })
                &&& (match slots[1] { Some(rs) => rel_u32(range_bytes(d, rs[0]), self.read_version), None => self.read_version == 1u32 })
                &&& (match slots[2] { Some(rs) => rel_u32(range_bytes(d, rs[0]), self.max_id_length), None => self.max_id_length == 4u32 })
                &&& (match slots[3] { Some(rs) => rel_u32(range_bytes(d, rs[0]), self.max_size_length), None => self.max_size_length == 8u32 })
                &&& (slots[4] matches Some(rs) && rel_str(range_bytes(d, rs[0]), self.doc_type))
                &&& (match slots[5] { Some(rs) => rel_u32(range_bytes(d, rs[0]), self.doc_type_version), None => self.doc_type_version == 1u32 })
                &&& (match slots[6] { Some(rs) => rel_u32(range_bytes(d, rs[0]), self.doc_type_read_version), None => self.doc_type_read_version == 1u32 })
            },
            Err(_) => false,
        }
    }

    /// Parses the data of a EbmlHeader element: the fields that its scan finds,
    /// with defaults for the missing optional ones.
    pub fn from_payload(data: &[u8]) -> (r: Result<EbmlHeader, ErrorKind>)
        ensures
            r is Ok <==> spec_master(MasterId::EbmlHeader, data@) is Ok,
            r matches Ok(x) ==> x.models(data@),
            r matches Err(k) ==> spec_master(MasterId::EbmlHeader, data@) == Err::<Slots, ErrorKind>(k),
    {
        let slots = match scan_master(MasterId::EbmlHeader, data) {
            Ok(s) => s,
            Err(k) => return Err(k),
        };
        proof {
            assert(data@.len() == data.len());
            lemma_master_wf(MasterId::EbmlHeader, data@);
        }
        proof {
            assert(slot_wf(schema(MasterId::EbmlHeader)[0], data@, slots_view(slots@)[0]));
        }
        let f_version = match first_range(&slots, 0) {
            Some(r) => read_u32(data, r),
            None => 1u32,
        };
        proof {
            assert(slot_wf(schema(MasterId::EbmlHeader)[1], data@, slots_view(slots@)[1]));
        }
        let f_read_version = match first_range(&slots, 1) {
            Some(r) => read_u32(data, r),
            None => 1u32,
        };
        proof {
            assert(slot_wf(schema(MasterId::EbmlHeader)[2], data@, slots_view(slots@)[2]));
        }
        let f_max_id_length = match first_range(&slots, 2) {
            Some(r) => read_u32(data, r),
            None => 4u32,
        };
        proof {
            assert(slot_wf(schema(MasterId::EbmlHeader)[3], data@, slots_view(slots@)[3]));
        }
        let f_max_size_length = match first_range(&slots, 3) {
            Some(r) => read_u32(data, r),
            None => 8u32,
        };
        proof {
            assert(slot_wf(schema(MasterId::EbmlHeader)[4], data@, slots_view(slots@)[4]));
        }
        let f_doc_type = match first_range(&slots, 4) {
            Some(r) => read_str(data, r),
            None => {
                proof {
                    assert(schema(MasterId::EbmlHeader)[4].required);
                }
                return Err(ErrorKind::MissingElement);
            },
        };
        proof {
            assert(slot_wf(schema(MasterId::EbmlHeader)[5], data@, slots_view(slots@)[5]));
        }
        let f_doc_type_version = match first_range(&slots, 5) {
            Some(r) => read_u32(data, r),
            None => 1u32,
        };
        proof {
            assert(slot_wf(schema(MasterId::EbmlHeader)[6], data@, slots_view(slots@)[6]));
        }
        let f_doc_type_read_version = match first_range(&slots, 6) {
            Some(r) => read_u32(data, r),
            None => 1u32,
        };
        proof {
            reveal(EbmlHeader::models);
        }
        Ok(EbmlHeader {
            version: f_version,
            read_version: f_read_version,
            max_id_length: f_max_id_length,
            max_size_length: f_max_size_length,
            doc_type: f_doc_type,
            doc_type_version: f_doc_type_version,
            doc_type_read_version: f_doc_type_read_version,
        })
    }
}

/// The value of a EbmlHeader element whose data is known to be valid.
pub fn read_ebml_header(d: &[u8], r: (usize, usize)) -> (v: Result<EbmlHeader, ErrorKind>)
    requires
        range_ok(FieldKind::Master(MasterId::EbmlHeader), d@, r),
    ensures
        v matches Ok(x) && x.models(range_bytes(d@, r)),
{
    EbmlHeader::from_payload(data_of(d, r))
}

/// The values of repeated EbmlHeader elements whose data is known to be valid.
pub fn read_many_ebml_header(d: &[u8], rs: &Vec<(usize, usize)>) -> (v: Result<Vec<EbmlHeader>, ErrorKind>)
    requires
        forall|i: int| 0 <= i < rs@.len() ==> #[trigger] range_ok(FieldKind::Master(MasterId::EbmlHeader), d@, rs@[i]),
    ensures
        v matches Ok(xs) && xs@.len() == rs@.len() && forall|i: int| 0 <= i < rs@.len() ==> (#[trigger] xs@[i]).models(range_bytes(d@, rs@[i])),
{
    let mut out: Vec<EbmlHeader> = Vec::new();
    let mut i: usize = 0;
    while i < rs.len()
        invariant
            i <= rs@.len(),
            out@.len() == i,
            forall|i: int| 0 <= i < rs@.len() ==> #[trigger] range_ok(FieldKind::Master(MasterId::EbmlHeader), d@, rs@[i]),
            forall|j: int| 0 <= j < i ==> (#[trigger] out@[j]).models(range_bytes(d@, rs@[j])),
        decreases rs.len() - i,
    {
        match read_ebml_header(d, rs[i]) {
            Ok(x) => out.push(x),
            Err(e) => return Err(e),
        }
        i = i + 1;
    }
    Ok(out)
}

} // verus!
