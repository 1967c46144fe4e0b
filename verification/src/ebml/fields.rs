use vstd::prelude::*;
use vstd::utf8::decode_utf8;

use crate::ebml::error::ErrorKind;
use crate::ebml::parse::{
    parse_bin4, parse_date, parse_float, parse_i64, parse_string, parse_u32, parse_u64,
    parse_uuid, spec_parse_bin4, spec_parse_date, spec_parse_float, spec_parse_i64,
    spec_parse_u32, spec_parse_u64, spec_parse_uuid, Date, EbmlFloat,
};
use crate::ebml::schema::FieldKind;
use crate::permutation::{range_bytes, range_ok, slot_view, slots_view, SlotVec};

verus! {

/// `v` is the value of the unsigned integer element data `b`.
pub open spec fn rel_u64(b: Seq<u8>, v: u64) -> bool {
    spec_parse_u64(b) == Ok::<u64, ErrorKind>(v)
}

/// `v` is the value of the 4-byte unsigned integer element data `b`.
pub open spec fn rel_u32(b: Seq<u8>, v: u32) -> bool {
    spec_parse_u32(b) == Ok::<u32, ErrorKind>(v)
}

/// `v` is the value of the signed integer element data `b`.
pub open spec fn rel_i64(b: Seq<u8>, v: i64) -> bool {
    spec_parse_i64(b) == Ok::<i64, ErrorKind>(v)
}

/// `v` holds the bits of the float element data `b`.
pub open spec fn rel_float(b: Seq<u8>, v: EbmlFloat) -> bool {
    spec_parse_float(b) == Ok::<EbmlFloat, ErrorKind>(v)
}

/// `v` is the value of the date element data `b`.
pub open spec fn rel_date(b: Seq<u8>, v: Date) -> bool {
    spec_parse_date(b) == Ok::<Date, ErrorKind>(v)
}

/// `v` holds the characters that the string element data `b` encodes.
pub open spec fn rel_str(b: Seq<u8>, v: String) -> bool {
    v@ == decode_utf8(b)
}

/// `v` holds the bytes of the binary element data `b`.
pub open spec fn rel_bin(b: Seq<u8>, v: Vec<u8>) -> bool {
    v@ == b
}

/// `v` holds the 4 bytes of the element data `b`.
pub open spec fn rel_bin4(b: Seq<u8>, v: [u8; 4]) -> bool {
    spec_parse_bin4(b) == Ok::<[u8; 4], ErrorKind>(v)
}

/// `v` holds the 16 bytes of the UUID element data `b`.
pub open spec fn rel_uuid(b: Seq<u8>, v: [u8; 16]) -> bool {
    spec_parse_uuid(b) == Ok::<[u8; 16], ErrorKind>(v)
}

/// The (start, length) of the data of the first element found for field `k`.
pub fn first_range(slots: &SlotVec, k: usize) -> (r: Option<(usize, usize)>)
    requires
        k < slots@.len(),
        slots_view(slots@)[k as int] matches Some(rs) ==> rs.len() >= 1,
    ensures
        r == (match slots_view(slots@)[k as int] {
            Some(rs) => Some(rs[0]),
            None => None,
        }),
{
    assert(slots_view(slots@)[k as int] == slot_view(slots@[k as int]));
    match &slots[k] {
        Some(rs) => Some(rs[0]),
        None => None,
    }
}

/// The (start, length) of the data of all elements found for field `k`.
pub fn all_ranges(slots: &SlotVec, k: usize) -> (r: Vec<(usize, usize)>)
    requires
        k < slots@.len(),
    ensures
        r@ == (match slots_view(slots@)[k as int] {
            Some(rs) => rs,
            None => Seq::empty(),
        }),
{
    assert(slots_view(slots@)[k as int] == slot_view(slots@[k as int]));
    let mut out: Vec<(usize, usize)> = Vec::new();
    match &slots[k] {
        Some(rs) => {
            let mut i: usize = 0;
            while i < rs.len()
                invariant
                    i <= rs.len(),
                    out@ == rs@.subrange(0, i as int),
                decreases rs.len() - i,
            {
                out.push(rs[i]);
                i = i + 1;
                assert(out@ =~= rs@.subrange(0, i as int));
            }
            assert(rs@.subrange(0, rs.len() as int) =~= rs@);
        },
        None => {},
    }
    out
}

/// The data of an element, given by its (start, length).
pub fn data_of(d: &[u8], r: (usize, usize)) -> (b: &[u8])
    requires
        r.0 + r.1 <= d@.len(),
    ensures
        b@ == range_bytes(d@, r),
{
    assert(d@.len() == d.len());
    let b = &d[r.0..r.0 + r.1];
    assert(b@ =~= range_bytes(d@, r));
    b
}

/// The value of an unsigned integer element whose data is known to be valid.
pub fn read_u64(d: &[u8], r: (usize, usize)) -> (v: u64)
    requires
        range_ok(FieldKind::Uint, d@, r),
    ensures
        rel_u64(range_bytes(d@, r), v),
{
    let b = data_of(d, r);
    match parse_u64(b) {
        Ok(v) => v,
        Err(_) => 0,
    }
}

/// The value of a 4-byte unsigned integer element whose data is known to be valid.
pub fn read_u32(d: &[u8], r: (usize, usize)) -> (v: u32)
    requires
        range_ok(FieldKind::U32, d@, r),
    ensures
        rel_u32(range_bytes(d@, r), v),
{
    let b = data_of(d, r);
    match parse_u32(b) {
        Ok(v) => v,
        Err(_) => 0,
    }
}

/// The value of a signed integer element whose data is known to be valid.
pub fn read_i64(d: &[u8], r: (usize, usize)) -> (v: i64)
    requires
        range_ok(FieldKind::Int, d@, r),
    ensures
        rel_i64(range_bytes(d@, r), v),
{
    let b = data_of(d, r);
    match parse_i64(b) {
        Ok(v) => v,
        Err(_) => 0,
    }
}

/// The bits of a float element whose data is known to be valid.
pub fn read_float(d: &[u8], r: (usize, usize)) -> (v: EbmlFloat)
    requires
        range_ok(FieldKind::Float, d@, r),
    ensures
        rel_float(range_bytes(d@, r), v),
{
    let b = data_of(d, r);
    match parse_float(b) {
        Ok(v) => v,
        Err(_) => EbmlFloat::F64(0),
    }
}

/// The value of a date element whose data is known to be valid.
pub fn read_date(d: &[u8], r: (usize, usize)) -> (v: Date)
    requires
        range_ok(FieldKind::Date, d@, r),
    ensures
        rel_date(range_bytes(d@, r), v),
{
    let b = data_of(d, r);
    match parse_date(b) {
        Ok(v) => v,
        Err(_) => Date(0),
    }
}

/// The value of a string element whose data is known to be valid UTF-8.
pub fn read_str(d: &[u8], r: (usize, usize)) -> (v: String)
    requires
        range_ok(FieldKind::Str, d@, r),
    ensures
        rel_str(range_bytes(d@, r), v),
{
    let b = data_of(d, r);
    match parse_string(b) {
        Ok(v) => v,
        Err(_) => String::new(),
    }
}

/// The bytes of a binary element.
pub fn read_bin(d: &[u8], r: (usize, usize)) -> (v: Vec<u8>)
    requires
        range_ok(FieldKind::Binary, d@, r),
    ensures
        rel_bin(range_bytes(d@, r), v),
{
    let b = data_of(d, r);
    vstd::slice::slice_to_vec(b)
}

/// The bytes of a 4-byte binary element whose data is known to be valid.
pub fn read_bin4(d: &[u8], r: (usize, usize)) -> (v: [u8; 4])
    requires
        range_ok(FieldKind::Bin4, d@, r),
    ensures
        rel_bin4(range_bytes(d@, r), v),
{
    let b = data_of(d, r);
    match parse_bin4(b) {
        Ok(v) => v,
        Err(_) => [0u8; 4],
    }
}

/// The bytes of a UUID element whose data is known to be valid.
pub fn read_uuid(d: &[u8], r: (usize, usize)) -> (v: [u8; 16])
    requires
        range_ok(FieldKind::Uuid, d@, r),
    ensures
        rel_uuid(range_bytes(d@, r), v),
{
    let b = data_of(d, r);
    match parse_uuid(b) {
        Ok(v) => v,
        Err(_) => [0u8; 16],
    }
}

/// The values of repeated unsigned integer elements known to be valid.
pub fn read_many_u64(d: &[u8], rs: &Vec<(usize, usize)>) -> (v: Vec<u64>)
    requires
        forall|i: int| 0 <= i < rs@.len() ==> #[trigger] range_ok(FieldKind::Uint, d@, rs@[i]),
    ensures
        v@.len() == rs@.len(),
        forall|i: int| 0 <= i < rs@.len() ==> rel_u64(range_bytes(d@, rs@[i]), #[trigger] v@[i]),
{
    let mut out: Vec<u64> = Vec::new();
    let mut i: usize = 0;
    while i < rs.len()
        invariant
            i <= rs@.len(),
            out@.len() == i,
            forall|i: int| 0 <= i < rs@.len() ==> #[trigger] range_ok(FieldKind::Uint, d@, rs@[i]),
            forall|j: int| 0 <= j < i ==> rel_u64(range_bytes(d@, rs@[j]), #[trigger] out@[j]),
        decreases rs.len() - i,
    {
        let x = read_u64(d, rs[i]);
        out.push(x);
        i = i + 1;
    }
    out
}

/// The bytes of repeated binary elements.
pub fn read_many_bin(d: &[u8], rs: &Vec<(usize, usize)>) -> (v: Vec<Vec<u8>>)
    requires
        forall|i: int| 0 <= i < rs@.len() ==> #[trigger] range_ok(FieldKind::Binary, d@, rs@[i]),
    ensures
        v@.len() == rs@.len(),
        forall|i: int| 0 <= i < rs@.len() ==> rel_bin(range_bytes(d@, rs@[i]), #[trigger] v@[i]),
{
    let mut out: Vec<Vec<u8>> = Vec::new();
    let mut i: usize = 0;
    while i < rs.len()
        invariant
            i <= rs@.len(),
            out@.len() == i,
            forall|i: int| 0 <= i < rs@.len() ==> #[trigger] range_ok(FieldKind::Binary, d@, rs@[i]),
            forall|j: int| 0 <= j < i ==> rel_bin(range_bytes(d@, rs@[j]), #[trigger] out@[j]),
        decreases rs.len() - i,
    {
        let x = read_bin(d, rs[i]);
        out.push(x);
        i = i + 1;
    }
    out
}

} // verus!
