use vstd::prelude::*;

use crate::ebml::error::EbmlErr;
use crate::ebml::parse::{crc32, spec_elem_size, vint_limit};
use crate::ebml::schema::{FieldKind, MasterId};
use crate::permutation::{spec_check_payload, spec_crc, spec_element, spec_master};
use crate::serializer::cookie_utils::be_bytes;
use crate::serializer::ebml::{lemma_be_bytes_len, spec_vid_size, vint_max, vint_width};
use crate::serializer::roundtrip::{ebml_class_id, lemma_class_width, lemma_vid_reads, lemma_vint_reads};

verus! {

/// The four bytes of `v`, least significant first.
pub open spec fn le_bytes(v: u32) -> Seq<u8> {
    seq![(v % 0x100) as u8, ((v / 0x100) % 0x100) as u8, ((v / 0x10000) % 0x100) as u8, (v / 0x1000000) as u8]
}

/// The bytes of a CRC-32 element that holds `v`: its ID 0xBF, the Data Size
/// 4, then `v` least significant byte first, as EBML stores it.
pub open spec fn crc_element(v: u32) -> Seq<u8> {
    seq![0xBFu8, 0x84u8] + le_bytes(v)
}

/// The value of a CRC-32 element is the little-endian number of its four
/// data bytes: bytes that start with the CRC-32 element of `v` read as a
/// CRC-32 element of 6 bytes whose value is `v`, whatever follows it.
pub proof fn law_crc_element_little_endian(v: u32, rest: Seq<u8>)
    requires
        rest.len() + 6 <= usize::MAX,
    ensures
        spec_crc(crc_element(v) + rest) == (6usize, Some(v)),
{
    let s = crc_element(v) + rest;
    lemma_class_width(0xBF);
    lemma_be_bytes_len(0xBF, 1);
    assert(spec_vid_size(0xBF) == 1);
    reveal_with_fuel(be_bytes, 2);
    assert(s.subrange(0, 1) =~= be_bytes(0xBF, 1));
    lemma_vid_reads(0xBF, s);
    let r1 = s.skip(1);
    assert(vint_width(4) == 1);
    assert(vint_limit(1) == 0x80);
    assert(r1.subrange(0, 1) =~= be_bytes((4 + vint_limit(1)) as nat, 1));
    lemma_vint_reads(4, r1);
    assert(spec_elem_size(r1) == Ok::<(usize, usize), EbmlErr>((1, 4)));
    let payload = s.subrange(2, 6);
    assert(payload =~= le_bytes(v));
    assert(spec_check_payload(FieldKind::Bin4, payload) is Ok);
    let b0 = v % 0x100;
    let b1 = (v / 0x100) % 0x100;
    let b2 = (v / 0x10000) % 0x100;
    let b3 = v / 0x1000000;
    assert(b0 + b1 * 0x100 + b2 * 0x10000 + b3 * 0x1000000 == v) by (bit_vector)
        requires
            b0 == v % 0x100,
            b1 == (v / 0x100) % 0x100,
            b2 == (v / 0x10000) % 0x100,
            b3 == v / 0x1000000,
    ;
}

/// The bytes of an element with ID `id` whose data starts with the CRC-32
/// element of the checksum of `c`, then holds `c`.
pub open spec fn enc_checked(id: u64, c: Seq<u8>) -> Seq<u8> {
    be_bytes(id as nat, spec_vid_size(id)) + be_bytes(
        (c.len() + 6 + vint_limit(vint_width(c.len() + 6))) as nat,
        vint_width(c.len() + 6),
    ) + crc_element(crc32(c)) + c
}

/// A master element whose CRC-32 element holds the checksum of its data,
/// stored little-endian, is accepted: it reads whole, and its data is what
/// follows the CRC-32 element.
#[verifier::spinoff_prover]
#[verifier::rlimit(100)]
pub proof fn law_crc_checked_element_accepted(id: u64, m: MasterId, c: Seq<u8>)
    requires
        ebml_class_id(id),
        c.len() + 6 < vint_max(),
        spec_master(m, c) is Ok,
        enc_checked(id, c).len() <= usize::MAX,
    ensures
        spec_element(id as u32, FieldKind::Master(m), enc_checked(id, c)) == Ok::<(usize, (usize, usize)), crate::ebml::error::Error>((
            enc_checked(id, c).len() as usize,
            ((spec_vid_size(id) + vint_width(c.len() + 6) + 6) as usize, c.len() as usize),
        )),
{
    let s = enc_checked(id, c);
    lemma_class_width(id);
    let k: int = spec_vid_size(id) as int;
    let es = vint_width(c.len() + 6);
    lemma_be_bytes_len(id as nat, k as nat);
    lemma_be_bytes_len((c.len() + 6 + vint_limit(es)) as nat, es);
    assert(s.subrange(0, k) =~= be_bytes(id as nat, k as nat));
    lemma_vid_reads(id, s);
    let r1 = s.skip(k);
    assert(r1.subrange(0, es as int) =~= be_bytes((c.len() + 6 + vint_limit(es)) as nat, es));
    lemma_vint_reads((c.len() + 6) as u64, r1);
    let hdr: int = k + es;
    let r2 = s.skip(hdr);
    let rest = c;
    assert(r2 =~= crc_element(crc32(c)) + rest);
    law_crc_element_little_endian(crc32(c), rest);
    assert(s.subrange(hdr + 6, hdr + 6 + c.len()) =~= c);
    assert(spec_check_payload(FieldKind::Master(m), c) is Ok);
}

} // verus!
