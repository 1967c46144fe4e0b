use vstd::prelude::*;

use crate::ebml::error::{EbmlErr, EbmlResult, Error, ErrorKind, err_of};
use crate::ebml::fields::{data_of, read_u64, rel_u64};
use crate::ebml::header::EbmlHeader;
use crate::ebml::parse::{spec_vid, vid};
use crate::ebml::schema::{FieldKind, MasterId};
use crate::permutation::{
    crc_element, element, lemma_element_ok, range_bytes, spec_crc, spec_element,
};

verus! {

/// What [check_id] returns on `s`: the Element ID at its start, which must be `id`.
pub open spec fn spec_check_id(id: u32, s: Seq<u8>) -> EbmlResult<u32> {
    match spec_vid(s) {
        Ok((n, o)) => if o == id {
            Ok((n, o))
        } else {
            err_of(id, ErrorKind::MissingElement)
        },
        Err(e) => Err(e),
    }
}

/// Parses an Element ID that must be `id`; another ID is a
/// [ErrorKind::MissingElement] error for `id`.
pub fn check_id(id: u32, input: &[u8]) -> (r: EbmlResult<u32>)
    ensures
        r == spec_check_id(id, input@),
{
    match vid(input) {
        Ok((n, o)) => if o == id {
            Ok((n, o))
        } else {
            Err(EbmlErr::Error(Error { id, kind: ErrorKind::MissingElement }))
        },
        Err(e) => Err(e),
    }
}

/// Unwraps the value of a required element: [ErrorKind::MissingElement]
/// when it is absent.
pub fn get_required<T>(val: Option<T>, id: u32) -> (r: Result<T, ErrorKind>)
    ensures
        match val {
            Some(v) => r == Ok::<T, ErrorKind>(v),
            None => r == Err::<T, ErrorKind>(ErrorKind::MissingElement),
        },
{
    match val {
        Some(v) => Ok(v),
        None => Err(ErrorKind::MissingElement),
    }
}

/// Parses an optional CRC-32 element (Element ID 0xBF, 4 bytes of data,
/// little-endian). Anything else counts as no CRC-32 element.
pub fn crc(input: &[u8]) -> (r: EbmlResult<Option<u32>>)
    ensures
        r == Ok::<(usize, Option<u32>), EbmlErr>(spec_crc(input@)),
{
    Ok(crc_element(input))
}

/// Parses a Void element (Element ID 0xEC): its size and a copy of its data.
pub fn void(input: &[u8]) -> (r: EbmlResult<Vec<u8>>)
    ensures
        r is Ok <==> spec_element(0xEC, FieldKind::Binary, input@) is Ok,
        r matches Ok((n, v)) ==> (spec_element(0xEC, FieldKind::Binary, input@) matches Ok(
            (m, rg),
        ) && m == n && v@ == range_bytes(input@, rg)),
        r matches Err(e) ==> (spec_element(0xEC, FieldKind::Binary, input@) matches Err(x) && e == EbmlErr::Error(x)),
{
    proof {
        assert(input@.len() == input.len());
        lemma_element_ok(0xEC, FieldKind::Binary, input@);
    }
    match element(0xEC, FieldKind::Binary, input) {
        Ok((n, rg)) => Ok((n, vstd::slice::slice_to_vec(data_of(input, rg)))),
        Err(e) => Err(EbmlErr::Error(e)),
    }
}

/// Parses an unsigned integer element with ID `id`.
pub fn ebml_uint(id: u32, input: &[u8]) -> (r: EbmlResult<u64>)
    ensures
        r is Ok <==> spec_element(id, FieldKind::Uint, input@) is Ok,
        r matches Ok((n, v)) ==> (spec_element(id, FieldKind::Uint, input@) matches Ok((m, rg))
            && m == n && rel_u64(range_bytes(input@, rg), v)),
        r matches Err(e) ==> (spec_element(id, FieldKind::Uint, input@) matches Err(x) && e == EbmlErr::Error(x)),
{
    proof {
        assert(input@.len() == input.len());
        lemma_element_ok(id, FieldKind::Uint, input@);
    }
    match element(id, FieldKind::Uint, input) {
        Ok((n, rg)) => Ok((n, read_u64(input, rg))),
        Err(e) => Err(EbmlErr::Error(e)),
    }
}

/// The EBML Header at the start of `s` has size `n` and fields `h`.
pub open spec fn header_at(s: Seq<u8>, n: usize, h: EbmlHeader) -> bool {
    spec_element(0x1A45DFA3, FieldKind::Master(MasterId::EbmlHeader), s) matches Ok((m, rg))
        && m == n && h.models(range_bytes(s, rg))
}

/// Parses the EBML Header (Element ID 0x1A45DFA3).
pub fn ebml_header(input: &[u8]) -> (r: EbmlResult<EbmlHeader>)
    ensures
        r is Ok <==> spec_element(0x1A45DFA3, FieldKind::Master(MasterId::EbmlHeader), input@) is Ok,
        r matches Ok((n, h)) ==> header_at(input@, n, h),
        r matches Err(e) ==> (spec_element(0x1A45DFA3, FieldKind::Master(MasterId::EbmlHeader), input@) matches Err(x) && e == EbmlErr::Error(x)),
{
    proof {
        assert(input@.len() == input.len());
        lemma_element_ok(0x1A45DFA3, FieldKind::Master(MasterId::EbmlHeader), input@);
    }
    match element(0x1A45DFA3, FieldKind::Master(MasterId::EbmlHeader), input) {
        Ok((n, rg)) => match EbmlHeader::from_payload(data_of(input, rg)) {
            Ok(h) => Ok((n, h)),
            Err(k) => Err(EbmlErr::Error(Error { id: 0x1A45DFA3, kind: k })),
        },
        Err(e) => Err(EbmlErr::Error(e)),
    }
}

} // verus!
