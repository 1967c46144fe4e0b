use vstd::prelude::*;
use vstd::utf8::valid_utf8;

use crate::ebml::error::{EbmlErr, EbmlResult, Error, ErrorKind, Needed, NomErrorKind, spec_error_or, err_of, incomplete};
use crate::ebml::parse::{
    checksum, crc32, elem_size, parse_bin4, parse_date, parse_float, parse_i64, parse_string,
    parse_u32, parse_u64, parse_uuid, spec_elem_size, spec_parse_bin4, spec_parse_date,
    spec_parse_float, spec_parse_i64, spec_parse_u32, spec_parse_u64, spec_parse_uuid, spec_vid,
    spec_vint, vid,
};
use crate::ebml::schema::{fields_of, schema, FieldDesc, FieldKind, MasterId};

verus! {

/// Where each field of a master element was found: for each field, if the
/// scan found it, the (start, length) of the data of each of its elements,
/// relative to the start of the master's data.
pub type Slots = Seq<Option<Seq<(usize, usize)>>>;

/// The error that a parser reports when its whole input had to be present
/// and was not.
pub open spec fn complete_err() -> Error {
    Error { id: 0, kind: ErrorKind::Nom(NomErrorKind::Complete) }
}

/// A streaming result read by a parser that needs its whole input: lack of
/// input becomes an error.
pub open spec fn completed<T>(r: EbmlResult<T>) -> Result<(usize, T), Error> {
    match r {
        Ok(x) => Ok(x),
        Err(EbmlErr::Incomplete(_)) => Err(complete_err()),
        Err(EbmlErr::Error(e)) => Err(e),
    }
}

/// The size of the data of an element once the 6 bytes of its CRC-32 element
/// are taken off; the subtraction wraps around as in a release build.
pub open spec fn size_after_crc(size: usize) -> usize {
    if size >= 6 {
        (size - 6) as usize
    } else {
        (usize::MAX - (5 - size)) as usize
    }
}

/// The little-endian value of 4 bytes.
pub open spec fn le_u32(b: Seq<u8>) -> u32 {
    (b[0] + b[1] * 0x100 + b[2] * 0x10000 + b[3] * 0x1000000) as u32
}

/// The value of an optional CRC-32 element at the start of `s`, and how many
/// bytes it takes. Anything that is not a well-formed CRC-32 element counts as
/// no CRC-32 element.
pub open spec fn spec_crc(s: Seq<u8>) -> (usize, Option<u32>)
    decreases s.len(), 1nat, 0nat,
{
    match spec_element(0xBF, FieldKind::Bin4, s) {
        Ok((n, (st, len))) => if st + len <= s.len() {
            (n, Some(le_u32(s.subrange(st as int, st + len))))
        } else {
            (0, None)
        },
        Err(_) => (0, None),
    }
}

/// Data matches an optional CRC-32 value.
pub open spec fn checksum_ok(crc: Option<u32>, data: Seq<u8>) -> bool {
    !(crc matches Some(cs) && cs != crc32(data))
}

/// Whether an element of this kind may start with a CRC-32 element.
pub open spec fn has_crc(kind: FieldKind) -> bool {
    kind is Master
}

/// What [element] returns: the number of bytes of the element with ID `id`
/// at the start of `s`, and the (start, length) of its data, provided its
/// data is valid for `kind`.
pub open spec fn spec_element(id: u32, kind: FieldKind, s: Seq<u8>) -> Result<
    (usize, (usize, usize)),
    Error,
>
    decreases s.len(), 0nat, 0nat,
{
    match completed(spec_vid(s)) {
        Err(e) => Err(e),
        Ok((n1, o)) => if o != id {
            Err(Error { id, kind: ErrorKind::MissingElement })
        } else if n1 < 1 || n1 > s.len() {
            Err(complete_err())
        } else {
            match completed(spec_elem_size(s.skip(n1 as int))) {
                Err(e) => Err(e),
                Ok((n2, size)) => {
                    let hdr = n1 + n2;
                    if hdr > s.len() {
                        Err(complete_err())
                    } else {
                        let c = if has_crc(kind) {
                            spec_crc(s.skip(hdr))
                        } else {
                            (0usize, None)
                        };
                        let size2 = if c.1 is Some {
                            size_after_crc(size)
                        } else {
                            size
                        };
                        let start = hdr + c.0;
                        if start > s.len() || s.len() - start < size2 {
                            Err(complete_err())
                        } else {
                            let payload = s.subrange(start, start + size2);
                            if c.1 matches Some(cs) && cs != crc32(payload) {
                                Err(Error { id: 0, kind: ErrorKind::Crc32Mismatch })
                            } else {
                                match spec_check_payload(kind, payload) {
                                    Err(k) => Err(Error { id, kind: k }),
                                    Ok(_) => Ok(((start + size2) as usize, (start as usize, size2))),
                                }
                            }
                        }
                    }
                },
            }
        },
    }
}

/// Whether the data of an element is valid for `kind`; for a master element,
/// where its fields are.
pub open spec fn spec_check_payload(kind: FieldKind, p: Seq<u8>) -> Result<Slots, ErrorKind>
    decreases p.len(), 4nat, 0nat,
{
    match kind {
        FieldKind::Uint => match spec_parse_u64(p) {
            Ok(_) => Ok(Seq::empty()),
            Err(k) => Err(k),
        },
        FieldKind::U32 => match spec_parse_u32(p) {
            Ok(_) => Ok(Seq::empty()),
            Err(k) => Err(k),
        },
        FieldKind::Int => match spec_parse_i64(p) {
            Ok(_) => Ok(Seq::empty()),
            Err(k) => Err(k),
        },
        FieldKind::Float => match spec_parse_float(p) {
            Ok(_) => Ok(Seq::empty()),
            Err(k) => Err(k),
        },
        FieldKind::Date => match spec_parse_date(p) {
            Ok(_) => Ok(Seq::empty()),
            Err(k) => Err(k),
        },
        FieldKind::Str => if valid_utf8(p) {
            Ok(Seq::empty())
        } else {
            Err(ErrorKind::StringNotUtf8)
        },
        FieldKind::Binary => Ok(Seq::empty()),
        FieldKind::Bin4 => match spec_parse_bin4(p) {
            Ok(_) => Ok(Seq::empty()),
            Err(k) => Err(k),
        },
        FieldKind::Uuid => match spec_parse_uuid(p) {
            Ok(_) => Ok(Seq::empty()),
            Err(k) => Err(k),
        },
        FieldKind::Master(m) => spec_master(m, p),
    }
}

/// The slots of a scan that has found nothing yet.
pub open spec fn empty_slots(n: nat) -> Slots {
    Seq::new(n, |i: int| None)
}

/// The error that an unordered scan starts from.
pub open spec fn permutation_err() -> Error {
    Error { id: 0, kind: ErrorKind::Nom(NomErrorKind::Permutation) }
}

/// Whether a required field of `m` is missing from the slots.
pub open spec fn missing_required(m: MasterId, slots: Slots) -> bool {
    exists|k: int| 0 <= k < schema(m).len() && #[trigger] schema(m)[k].required && slot_empty(slots[k])
}

/// A slot in which no element was found.
pub open spec fn slot_empty(slot: Option<Seq<(usize, usize)>>) -> bool {
    match slot {
        Some(rs) => rs.len() == 0,
        None => true,
    }
}

/// What [scan_master] returns: where the fields of the master element `m`
/// are in its data `d`, or [ErrorKind::MissingElement] when a required one
/// is not there.
pub open spec fn spec_master(m: MasterId, d: Seq<u8>) -> Result<Slots, ErrorKind>
    decreases d.len(), 3nat, 0nat,
{
    let slots = perm_loop(m, d, 0, empty_slots(schema(m).len()), permutation_err());
    if missing_required(m, slots) {
        Err(ErrorKind::MissingElement)
    } else {
        Ok(slots)
    }
}

/// The unordered scan of the data `d` of a master element, from position
/// `pos` on: each round skips a Void element, then tries each field that was
/// not found yet; a round that finds nothing skips an unknown element, when
/// the last error was a missing element, or ends the scan.
pub open spec fn perm_loop(m: MasterId, d: Seq<u8>, pos: int, slots: Slots, err: Error) -> Slots
    decreases d.len() - pos, 2nat, 0nat,
{
    if pos < 0 || pos > d.len() {
        slots
    } else {
        let pv = match spec_element(0xEC, FieldKind::Binary, d.skip(pos)) {
            Ok((n, _)) => pos + n,
            Err(_) => pos,
        };
        if pv > d.len() {
            slots
        } else {
            let (p2, sl2, e2) = try_fields(m, d, pv, 0, slots, err);
            if p2 > pos && p2 <= d.len() {
                perm_loop(m, d, p2, sl2, e2)
            } else if p2 == pos && e2.kind == ErrorKind::MissingElement {
                match spec_skip_element(d.skip(pos)) {
                    Ok((n, _)) => if n > 0 && pos + n <= d.len() {
                        perm_loop(m, d, pos + n, sl2, e2)
                    } else {
                        sl2
                    },
                    Err(_) => sl2,
                }
            } else {
                sl2
            }
        }
    }
}

/// One round of tries of the fields of `m` from field `k` on, at position
/// `pos` of `d`: the position after the fields found, the slots, and the
/// last error.
pub open spec fn try_fields(m: MasterId, d: Seq<u8>, pos: int, k: int, slots: Slots, err: Error) -> (
    int,
    Slots,
    Error,
)
    decreases d.len() - pos, 1nat, schema(m).len() - k,
{
    if k < 0 || k >= schema(m).len() || pos < 0 || pos > d.len() || slots.len() != schema(m).len() {
        (pos, slots, err)
    } else {
        let f = schema(m)[k];
        if slots[k] is Some {
            try_fields(m, d, pos, k + 1, slots, err)
        } else if f.many {
            let (p2, rs) = many(f.id, f.kind, d, pos);
            if pos <= p2 && p2 <= d.len() {
                try_fields(m, d, p2, k + 1, slots.update(k, Some(rs)), err)
            } else {
                (pos, slots, err)
            }
        } else {
            match spec_element(f.id, f.kind, d.skip(pos)) {
                Ok((n, (st, len))) => if pos + n <= d.len() {
                    try_fields(
                        m,
                        d,
                        pos + n,
                        k + 1,
                        slots.update(k, Some(seq![((pos + st) as usize, len)])),
                        err,
                    )
                } else {
                    (pos, slots, err)
                },
                Err(e) => try_fields(m, d, pos, k + 1, slots, spec_error_or(err, e)),
            }
        }
    }
}

/// The consecutive elements with ID `id` from position `pos` of `d` on: the
/// position after them and the (start, length) of their data.
pub open spec fn many(id: u32, kind: FieldKind, d: Seq<u8>, pos: int) -> (int, Seq<(usize, usize)>)
    decreases d.len() - pos, 1nat, 0nat,
{
    if pos < 0 || pos > d.len() {
        (pos, Seq::empty())
    } else {
        match spec_element(id, kind, d.skip(pos)) {
            Ok((n, (st, len))) => if n > 0 && pos + n <= d.len() {
                let (p2, rs) = many(id, kind, d, pos + n);
                (p2, seq![((pos + st) as usize, len)] + rs)
            } else {
                (pos, Seq::empty())
            },
            Err(_) => (pos, Seq::empty()),
        }
    }
}

/// What [skip_element] returns: the size of the whole element at the start
/// of `s` and its ID.
pub open spec fn spec_skip_element(s: Seq<u8>) -> EbmlResult<u32>
    decreases s.len(), 1nat, 0nat,
{
    match spec_vid(s) {
        Err(e) => Err(e),
        Ok((n1, id)) => if n1 < 1 || n1 > s.len() {
            incomplete(1)
        } else {
            match spec_elem_size(s.skip(n1 as int)) {
                Err(e) => Err(e),
                Ok((n2, size)) => {
                    let hdr = n1 + n2;
                    if hdr > s.len() || hdr < 1 {
                        incomplete(1)
                    } else {
                        let c = spec_crc(s.skip(hdr));
                        let size2 = if c.1 is Some {
                            size_after_crc(size)
                        } else {
                            size
                        };
                        let start = hdr + c.0;
                        if start > s.len() {
                            incomplete(1)
                        } else if s.len() - start < size2 {
                            incomplete((size2 - (s.len() - start)) as usize)
                        } else if c.1 matches Some(cs) && cs != crc32(
                            s.subrange(start, start + size2),
                        ) {
                            err_of(0, ErrorKind::Crc32Mismatch)
                        } else {
                            Ok(((start + size2) as usize, id))
                        }
                    }
                },
            }
        },
    }
}


/// The data of an element, given by its (start, length) in `d`.
pub open spec fn range_bytes(d: Seq<u8>, r: (usize, usize)) -> Seq<u8> {
    d.subrange(r.0 as int, r.0 + r.1)
}

/// The data of an element lies within `d` and is valid for `kind`.
pub open spec fn range_ok(kind: FieldKind, d: Seq<u8>, r: (usize, usize)) -> bool {
    &&& r.0 + r.1 <= d.len()
    &&& spec_check_payload(kind, range_bytes(d, r)) is Ok
}

/// What a scan found of one field is well-formed: a single field was found
/// once, and the data of each of its elements is valid.
pub open spec fn slot_wf(f: FieldDesc, d: Seq<u8>, slot: Option<Seq<(usize, usize)>>) -> bool {
    slot matches Some(rs) ==> {
        &&& (f.many || rs.len() == 1)
        &&& forall|i: int| 0 <= i < rs.len() ==> #[trigger] range_ok(f.kind, d, rs[i])
    }
}

/// Each slot of a scan of the master element `m` is well-formed.
pub open spec fn slots_wf(m: MasterId, d: Seq<u8>, slots: Slots) -> bool {
    &&& slots.len() == schema(m).len()
    &&& forall|k: int| 0 <= k < slots.len() ==> #[trigger] slot_wf(schema(m)[k], d, slots[k])
}

/// The data of an element found at `pos` of `d` is valid.
#[verifier::spinoff_prover]
#[verifier::rlimit(30)]
proof fn lemma_element_at(id: u32, kind: FieldKind, d: Seq<u8>, pos: int)
    requires
        d.len() <= usize::MAX,
        0 <= pos <= d.len(),
    ensures
        spec_element(id, kind, d.skip(pos)) matches Ok((n, (st, len))) ==> {
            &&& pos + n <= d.len()
            &&& pos + st <= usize::MAX
            &&& range_ok(kind, d, ((pos + st) as usize, len))
        },
{
    lemma_element_ok(id, kind, d.skip(pos));
    if let Ok((n, (st, len))) = spec_element(id, kind, d.skip(pos)) {
        assert(d.skip(pos).subrange(st as int, n as int) =~= range_bytes(d, ((pos + st) as usize, len)));
    }
}

proof fn lemma_many_wf(id: u32, kind: FieldKind, d: Seq<u8>, pos: int)
    requires
        d.len() <= usize::MAX,
        0 <= pos <= d.len(),
    ensures
        pos <= many(id, kind, d, pos).0 <= d.len(),
        forall|i: int|
            0 <= i < many(id, kind, d, pos).1.len() ==> #[trigger] range_ok(
                kind,
                d,
                many(id, kind, d, pos).1[i],
            ),
    decreases d.len() - pos,
{
    lemma_element_at(id, kind, d, pos);
    if let Ok((n, (st, len))) = spec_element(id, kind, d.skip(pos)) {
        if n > 0 && pos + n <= d.len() {
            lemma_many_wf(id, kind, d, pos + n);
            let rest = many(id, kind, d, pos + n).1;
            let all = seq![((pos + st) as usize, len)] + rest;
            assert forall|i: int| 0 <= i < all.len() implies #[trigger] range_ok(kind, d, all[i]) by {
                if i > 0 {
                    assert(all[i] == rest[i - 1]);
                }
            }
        }
    }
}

proof fn lemma_try_fields_wf(m: MasterId, d: Seq<u8>, pos: int, k: int, slots: Slots, err: Error)
    requires
        d.len() <= usize::MAX,
        0 <= pos <= d.len(),
        slots_wf(m, d, slots),
    ensures
        slots_wf(m, d, try_fields(m, d, pos, k, slots, err).1),
        pos <= try_fields(m, d, pos, k, slots, err).0 <= d.len(),
    decreases d.len() - pos, schema(m).len() - k,
{
    if k < 0 || k >= schema(m).len() || slots.len() != schema(m).len() {
    } else {
        let f = schema(m)[k];
        if slots[k] is Some {
            lemma_try_fields_wf(m, d, pos, k + 1, slots, err);
        } else if f.many {
            lemma_many_wf(f.id, f.kind, d, pos);
            let (p2, rs) = many(f.id, f.kind, d, pos);
            let s2 = slots.update(k, Some(rs));
            assert(slot_wf(schema(m)[k], d, s2[k]));
            assert forall|j: int| 0 <= j < s2.len() implies #[trigger] slot_wf(schema(m)[j], d, s2[j]) by {
                if j != k {
                    assert(slot_wf(schema(m)[j], d, slots[j]));
                }
            }
            lemma_try_fields_wf(m, d, p2, k + 1, s2, err);
        } else {
            lemma_element_at(f.id, f.kind, d, pos);
            match spec_element(f.id, f.kind, d.skip(pos)) {
                Ok((n, (st, len))) => {
                    let r = ((pos + st) as usize, len);
                    let s2 = slots.update(k, Some(seq![r]));
                    assert(slot_wf(schema(m)[k], d, s2[k])) by {
                        assert(seq![r][0] == r);
                    }
                    assert forall|j: int| 0 <= j < s2.len() implies #[trigger] slot_wf(schema(m)[j], d, s2[j]) by {
                        if j != k {
                            assert(slot_wf(schema(m)[j], d, slots[j]));
                        }
                    }
                    lemma_try_fields_wf(m, d, pos + n, k + 1, s2, err);
                },
                Err(e) => {
                    lemma_try_fields_wf(m, d, pos, k + 1, slots, spec_error_or(err, e));
                },
            }
        }
    }
}

proof fn lemma_perm_wf(m: MasterId, d: Seq<u8>, pos: int, slots: Slots, err: Error)
    requires
        d.len() <= usize::MAX,
        slots_wf(m, d, slots),
    ensures
        slots_wf(m, d, perm_loop(m, d, pos, slots, err)),
    decreases d.len() - pos,
{
    if pos < 0 || pos > d.len() {
    } else {
        lemma_element_ok(0xEC, FieldKind::Binary, d.skip(pos));
        let pv = match spec_element(0xEC, FieldKind::Binary, d.skip(pos)) {
            Ok((n, _)) => pos + n,
            Err(_) => pos,
        };
        if pv <= d.len() {
            lemma_try_fields_wf(m, d, pv, 0, slots, err);
            let (p2, sl2, e2) = try_fields(m, d, pv, 0, slots, err);
            if p2 > pos && p2 <= d.len() {
                lemma_perm_wf(m, d, p2, sl2, e2);
            } else if p2 == pos && e2.kind == ErrorKind::MissingElement {
                match spec_skip_element(d.skip(pos)) {
                    Ok((n, _)) => if n > 0 && pos + n <= d.len() {
                        lemma_perm_wf(m, d, pos + n, sl2, e2);
                    },
                    Err(_) => {},
                }
            }
        }
    }
}

/// Every field found by a successful scan of a master element holds valid data.
pub proof fn lemma_master_wf(m: MasterId, d: Seq<u8>)
    requires
        d.len() <= usize::MAX,
    ensures
        spec_master(m, d) matches Ok(slots) ==> slots_wf(m, d, slots),
{
    let e = empty_slots(schema(m).len());
    assert forall|k: int| 0 <= k < e.len() implies #[trigger] slot_wf(schema(m)[k], d, e[k]) by {}
    lemma_perm_wf(m, d, 0, e, permutation_err());
}

/// The exec form of the slots of a scan.
pub type SlotVec = Vec<Option<Vec<(usize, usize)>>>;

/// The spec view of one slot.
pub open spec fn slot_view(o: Option<Vec<(usize, usize)>>) -> Option<Seq<(usize, usize)>> {
    match o {
        Some(v) => Some(v@),
        None => None,
    }
}

/// The spec view of the slots of a scan.
pub open spec fn slots_view(v: Seq<Option<Vec<(usize, usize)>>>) -> Slots {
    v.map_values(|o: Option<Vec<(usize, usize)>>| slot_view(o))
}

pub proof fn lemma_vid_ok(s: Seq<u8>)
    ensures
        spec_vid(s) matches Ok((n, _)) ==> 1 <= n <= 4 && n < s.len(),
{
}

pub proof fn lemma_elem_size_ok(s: Seq<u8>)
    ensures
        spec_elem_size(s) matches Ok((n, _)) ==> 1 <= n <= 8 && n <= s.len(),
{
}

/// An element that parses has a header before its data and its data fits in
/// the input.
pub proof fn lemma_element_ok(id: u32, kind: FieldKind, s: Seq<u8>)
    requires
        s.len() <= usize::MAX,
    ensures
        spec_element(id, kind, s) matches Ok((n, (st, len))) ==> {
            &&& 2 <= st
            &&& st + len == n
            &&& n <= s.len()
            &&& spec_check_payload(kind, s.subrange(st as int, n as int)) is Ok
        },
{
    lemma_vid_ok(s);
    if let Ok((n1, _)) = completed(spec_vid(s)) {
        if 1 <= n1 <= s.len() {
            lemma_elem_size_ok(s.skip(n1 as int));
        }
    }
}

/// The error of a parser step that needed more input than there was.
fn complete_error() -> (e: Error)
    ensures
        e == complete_err(),
{
    Error { id: 0, kind: ErrorKind::Nom(NomErrorKind::Complete) }
}

/// Parses an optional CRC-32 element: its value and its size, or no value
/// and nothing consumed.
pub fn crc_element(input: &[u8]) -> (r: (usize, Option<u32>))
    ensures
        r == spec_crc(input@),
    decreases input@.len(), 1nat, 0nat,
{
    proof {
        assert(input@.len() == input.len());
        lemma_element_ok(0xBF, FieldKind::Bin4, input@);
    }
    match element(0xBF, FieldKind::Bin4, input) {
        Ok((n, (st, len))) => {
            if st <= input.len() && len <= input.len() - st {
                let b = &input[st..st + len];
                assert(b@ =~= input@.subrange(st as int, st + len));
                let v: u32 = b[0] as u32 + b[1] as u32 * 0x100 + b[2] as u32 * 0x10000 + b[3] as u32
                    * 0x1000000;
                (n, Some(v))
            } else {
                (0, None)
            }
        },
        Err(_) => (0, None),
    }
}

/// Parses the element with ID `id` at the start of the input, whose data
/// must be valid for `kind`: its size and the (start, length) of its data.
/// The input must hold the whole element.
pub fn element(id: u32, kind: FieldKind, input: &[u8]) -> (r: Result<(usize, (usize, usize)), Error>)
    ensures
        r == spec_element(id, kind, input@),
    decreases input@.len(), 0nat, 0nat,
{
    let (n1, o) = match vid(input) {
        Ok(x) => x,
        Err(EbmlErr::Incomplete(_)) => return Err(complete_error()),
        Err(EbmlErr::Error(e)) => return Err(e),
    };
    if o != id {
        return Err(Error { id, kind: ErrorKind::MissingElement });
    }
    if n1 < 1 || n1 > input.len() {
        return Err(complete_error());
    }
    let rest = &input[n1..input.len()];
    assert(rest@ =~= input@.skip(n1 as int));
    let (n2, size) = match elem_size(rest) {
        Ok(x) => x,
        Err(EbmlErr::Incomplete(_)) => return Err(complete_error()),
        Err(EbmlErr::Error(e)) => return Err(e),
    };
    if n2 > input.len() - n1 {
        return Err(complete_error());
    }
    let hdr = n1 + n2;
    let c = match kind {
        FieldKind::Master(_) => {
            let after = &input[hdr..input.len()];
            assert(after@ =~= input@.skip(hdr as int));
            crc_element(after)
        },
        _ => (0, None),
    };
    let (ncrc, crc) = c;
    let size2 = match crc {
        Some(_) => if size >= 6 {
            size - 6
        } else {
            usize::MAX - (5 - size)
        },
        None => size,
    };
    if ncrc > input.len() - hdr || input.len() - (hdr + ncrc) < size2 {
        return Err(complete_error());
    }
    let start = hdr + ncrc;
    let payload = &input[start..start + size2];
    assert(payload@ =~= input@.subrange(start as int, start + size2));
    match checksum(crc, payload) {
        Err(k) => {
            return Err(Error { id: 0, kind: k });
        },
        Ok(_) => {},
    }
    match check_payload(kind, payload) {
        Err(k) => Err(Error { id, kind: k }),
        Ok(_) => Ok((start + size2, (start, size2))),
    }
}

/// Checks that the data of an element is valid for `kind`; for a master
/// element, returns where its fields are.
pub fn check_payload(kind: FieldKind, p: &[u8]) -> (r: Result<SlotVec, ErrorKind>)
    ensures
        match r {
            Ok(v) => spec_check_payload(kind, p@) == Ok::<Slots, ErrorKind>(slots_view(v@)),
            Err(k) => spec_check_payload(kind, p@) == Err::<Slots, ErrorKind>(k),
        },
    decreases p@.len(), 4nat, 0nat,
{
    let empty: SlotVec = Vec::new();
    assert(slots_view(empty@) =~= Seq::empty());
    match kind {
        FieldKind::Uint => match parse_u64(p) {
            Ok(_) => Ok(empty),
            Err(k) => Err(k),
        },
        FieldKind::U32 => match parse_u32(p) {
            Ok(_) => Ok(empty),
            Err(k) => Err(k),
        },
        FieldKind::Int => match parse_i64(p) {
            Ok(_) => Ok(empty),
            Err(k) => Err(k),
        },
        FieldKind::Float => match parse_float(p) {
            Ok(_) => Ok(empty),
            Err(k) => Err(k),
        },
        FieldKind::Date => match parse_date(p) {
            Ok(_) => Ok(empty),
            Err(k) => Err(k),
        },
        FieldKind::Str => match parse_string(p) {
            Ok(_) => Ok(empty),
            Err(k) => Err(k),
        },
        FieldKind::Binary => Ok(empty),
        FieldKind::Bin4 => match parse_bin4(p) {
            Ok(_) => Ok(empty),
            Err(k) => Err(k),
        },
        FieldKind::Uuid => match parse_uuid(p) {
            Ok(_) => Ok(empty),
            Err(k) => Err(k),
        },
        FieldKind::Master(m) => scan_master(m, p),
    }
}

/// Scans the data of the master element `m`: where each of its fields is,
/// or [ErrorKind::MissingElement] when a required field is not there.
pub fn scan_master(m: MasterId, data: &[u8]) -> (r: Result<SlotVec, ErrorKind>)
    ensures
        match r {
            Ok(v) => spec_master(m, data@) == Ok::<Slots, ErrorKind>(slots_view(v@)) && v@.len()
                == schema(m).len(),
            Err(k) => spec_master(m, data@) == Err::<Slots, ErrorKind>(k),
        },
    decreases data@.len(), 3nat, 0nat,
{
    let slots = permutation(m, data);
    let fields = fields_of(m);
    let mut k: usize = 0;
    while k < fields.len()
        invariant
            fields@ == schema(m),
            slots@.len() == fields.len(),
            k <= fields.len(),
            slots_view(slots@) == perm_loop(
                m,
                data@,
                0,
                empty_slots(schema(m).len()),
                permutation_err(),
            ),
            forall|j: int|
                0 <= j < k ==> !(#[trigger] schema(m)[j].required && slot_empty(slots_view(slots@)[j])),
        decreases fields.len() - k,
    {
        let empty = match &slots[k] {
            Some(v) => v.len() == 0,
            None => true,
        };
        assert(slots_view(slots@)[k as int] == slot_view(slots@[k as int]));
        assert(empty == slot_empty(slots_view(slots@)[k as int]));
        if fields[k].required && empty {
            assert(schema(m)[k as int].required && slot_empty(slots_view(slots@)[k as int]));
            assert(missing_required(m, slots_view(slots@)));
            return Err(ErrorKind::MissingElement);
        }
        k = k + 1;
    }
    Ok(slots)
}

/// The unordered scan of the data of a master element: for each field of
/// `m`, where its elements are.
fn permutation(m: MasterId, data: &[u8]) -> (r: SlotVec)
    ensures
        slots_view(r@) == perm_loop(m, data@, 0, empty_slots(schema(m).len()), permutation_err()),
        r@.len() == schema(m).len(),
    decreases data@.len(), 2nat, 0nat,
{
    let fields = fields_of(m);
    let nf = fields.len();
    let mut slots: SlotVec = Vec::new();
    let mut j: usize = 0;
    while j < nf
        invariant
            j <= nf,
            slots@.len() == j,
            forall|i: int| 0 <= i < j ==> slots@[i] is None,
        decreases nf - j,
    {
        slots.push(None);
        j = j + 1;
    }
    assert(slots_view(slots@) =~= empty_slots(nf as nat));
    let mut err = Error { id: 0, kind: ErrorKind::Nom(NomErrorKind::Permutation) };
    let mut pos: usize = 0;
    let ghost result = perm_loop(m, data@, 0, empty_slots(schema(m).len()), permutation_err());
    loop
        invariant_except_break
            perm_loop(m, data@, pos as int, slots_view(slots@), err) == result,
        invariant
            fields@ == schema(m),
            nf == fields.len(),
            pos <= data.len(),
            slots@.len() == nf,
        ensures
            slots_view(slots@) == result,
            slots@.len() == nf,
        decreases data.len() - pos,
    {
        let ghost slots_start = slots_view(slots@);
        let ghost err_start = err;
        let tail = &data[pos..data.len()];
        assert(tail@ =~= data@.skip(pos as int));
        proof {
            lemma_element_ok(0xEC, FieldKind::Binary, data@.skip(pos as int));
        }
        let cur0: usize = match element(0xEC, FieldKind::Binary, tail) {
            Ok((n, _)) => pos + n,
            Err(_) => pos,
        };
        let mut cur = cur0;
        let mut k: usize = 0;
        while k < nf
            invariant
                fields@ == schema(m),
                nf == fields.len(),
                slots@.len() == nf,
                pos <= cur0 <= cur <= data.len(),
                k <= nf,
                try_fields(m, data@, cur0 as int, 0, slots_start, err_start) == try_fields(
                    m,
                    data@,
                    cur as int,
                    k as int,
                    slots_view(slots@),
                    err,
                ),
            decreases nf - k,
        {
            let f = fields[k];
            let ghost sv = slots_view(slots@);
            if slots[k].is_some() {
                assert(sv[k as int] is Some);
            } else if f.many {
                let mut acc: Vec<(usize, usize)> = Vec::new();
                let mut p = cur;
                assert(acc@ + many(f.id, f.kind, data@, p as int).1 =~= many(f.id, f.kind, data@, p as int).1);
                loop
                    invariant
                        cur <= p <= data.len(),
                        many(f.id, f.kind, data@, cur as int) == (
                            many(f.id, f.kind, data@, p as int).0,
                            acc@ + many(f.id, f.kind, data@, p as int).1,
                        ),
                    ensures
                        cur <= p <= data.len(),
                        many(f.id, f.kind, data@, cur as int) == (p as int, acc@),
                    decreases data.len() - p,
                {
                    let t = &data[p..data.len()];
                    assert(t@ =~= data@.skip(p as int));
                    proof {
                        lemma_element_ok(f.id, f.kind, data@.skip(p as int));
                    }
                    match element(f.id, f.kind, t) {
                        Ok((n, (st, len))) => {
                            if n > 0 && n <= data.len() - p {
                                let ghost old_acc = acc@;
                                let ghost rest = many(f.id, f.kind, data@, (p + n) as int);
                                acc.push((p + st, len));
                                assert(old_acc + (seq![((p + st) as usize, len)] + rest.1) =~= acc@
                                    + rest.1);
                                p = p + n;
                            } else {
                                assert(acc@ + Seq::<(usize, usize)>::empty() =~= acc@);
                                break ;
                            }
                        },
                        Err(_) => {
                            assert(acc@ + Seq::<(usize, usize)>::empty() =~= acc@);
                            break ;
                        },
                    }
                }
                slots.set(k, Some(acc));
                assert(slots_view(slots@) =~= sv.update(k as int, Some(acc@)));
                cur = p;
            } else {
                let t = &data[cur..data.len()];
                assert(t@ =~= data@.skip(cur as int));
                proof {
                    lemma_element_ok(f.id, f.kind, data@.skip(cur as int));
                }
                match element(f.id, f.kind, t) {
                    Ok((n, (st, len))) => {
                        let v: Vec<(usize, usize)> = vec![(cur + st, len)];
                        assert(v@ =~= seq![((cur + st) as usize, len)]);
                        slots.set(k, Some(v));
                        assert(slots_view(slots@) =~= sv.update(k as int, Some(v@)));
                        cur = cur + n;
                    },
                    Err(e) => {
                        err = err.or(e);
                    },
                }
            }
            k = k + 1;
        }
        if cur > pos {
            pos = cur;
        } else if err.kind == ErrorKind::MissingElement {
            match skip_element(tail) {
                Ok((n, _)) => {
                    if n > 0 && n <= data.len() - pos {
                        pos = pos + n;
                    } else {
                        break ;
                    }
                },
                Err(_) => {
                    break ;
                },
            }
        } else {
            break ;
        }
    }
    slots
}

/// Consumes an entire EBML Element, and returns the ID if successful.
pub fn skip_element(input: &[u8]) -> (r: EbmlResult<u32>)
    ensures
        r == spec_skip_element(input@),
    decreases input@.len(), 1nat, 0nat,
{
    let (n1, id) = match vid(input) {
        Ok(x) => x,
        Err(e) => return Err(e),
    };
    if n1 < 1 || n1 > input.len() {
        return Err(EbmlErr::Incomplete(Needed::Size(1)));
    }
    let rest = &input[n1..input.len()];
    assert(rest@ =~= input@.skip(n1 as int));
    let (n2, size) = match elem_size(rest) {
        Ok(x) => x,
        Err(e) => return Err(e),
    };
    if n2 > input.len() - n1 {
        return Err(EbmlErr::Incomplete(Needed::Size(1)));
    }
    let hdr = n1 + n2;
    let after = &input[hdr..input.len()];
    assert(after@ =~= input@.skip(hdr as int));
    let (ncrc, crc) = crc_element(after);
    let size2 = match crc {
        Some(_) => if size >= 6 {
            size - 6
        } else {
            usize::MAX - (5 - size)
        },
        None => size,
    };
    if ncrc > input.len() - hdr {
        return Err(EbmlErr::Incomplete(Needed::Size(1)));
    }
    let start = hdr + ncrc;
    if input.len() - start < size2 {
        return Err(EbmlErr::Incomplete(Needed::Size(size2 - (input.len() - start))));
    }
    let payload = &input[start..start + size2];
    assert(payload@ =~= input@.subrange(start as int, start + size2));
    match checksum(crc, payload) {
        Err(_) => return Err(EbmlErr::Error(Error { id: 0, kind: ErrorKind::Crc32Mismatch })),
        Ok(_) => {},
    }
    Ok((start + size2, id))
}

} // verus!
