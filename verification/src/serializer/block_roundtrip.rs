use vstd::prelude::*;

use crate::ebml::parse::{spec_vint, vint_limit};
use crate::elements::{be_i16, spec_block_flags, spec_block_header, Lacing, SimpleBlock};
use crate::serializer::cookie_utils::{be_bytes, i16_bits, spec_write};
use crate::serializer::ebml::{lemma_be_bytes_len, spec_vint_size, vint_width};
use crate::serializer::elements::{simple_block_flags_byte, spec_gen_simple_block_header};
use crate::serializer::roundtrip::{lemma_vint_reads, lemma_write_at};

verus! {

/// The flags byte that is written for a SimpleBlock reads back as its flags.
pub proof fn lemma_flags_byte_reads(s: SimpleBlock)
    ensures
        spec_block_flags(simple_block_flags_byte(s)).keyframe == s.keyframe,
        spec_block_flags(simple_block_flags_byte(s)).invisible == s.invisible,
        spec_block_flags(simple_block_flags_byte(s)).lacing == s.lacing,
        spec_block_flags(simple_block_flags_byte(s)).discardable == s.discardable,
{
}

/// Two big-endian bytes of the bits of an `i16` read back as that `i16`.
pub proof fn lemma_i16_bytes_read(t: i16)
    ensures
        be_bytes(i16_bits(t), 2).len() == 2,
        be_i16(be_bytes(i16_bits(t), 2)[0], be_bytes(i16_bits(t), 2)[1]) == t,
{
    let v = i16_bits(t);
    assert(v < 0x10000);
    reveal_with_fuel(be_bytes, 3);
    let a = (v / 256) % 256;
    let b = v % 256;
    assert(a * 256 + b == v);
}

/// What [gen_simple_block_header](crate::serializer::elements::gen_simple_block_header)
/// writes, [simple_block](crate::elements::simple_block) reads back: the
/// header read from where it was written has the length written, and the
/// track number, the timestamp and the flags of the SimpleBlock.
pub proof fn law_simple_block_header_roundtrip(s: SimpleBlock, buf: Seq<u8>, pos: usize)
    requires
        buf.len() <= usize::MAX,
        spec_gen_simple_block_header(s, buf, pos).1 is Ok,
    ensures
        spec_gen_simple_block_header(s, buf, pos).1 matches Ok(p)
            && spec_block_header(spec_gen_simple_block_header(s, buf, pos).0.skip(pos as int)) matches Ok((n, (tn, ts, f)))
            && n == p - pos
            && tn == s.track_number
            && ts == s.timestamp
            && f.keyframe == s.keyframe
            && f.invisible == s.invisible
            && f.lacing == s.lacing
            && f.discardable == s.discardable,
{
    let num = s.track_number;
    let w = vint_width(num as nat);
    assert(spec_vint_size(num) == Ok::<u8, crate::serializer::cookie_utils::GenError>(w as u8));
    let vb = be_bytes((num + vint_limit(w)) as nat, w);
    lemma_be_bytes_len((num + vint_limit(w)) as nat, w);
    assert(pos + w <= buf.len());
    lemma_write_at(buf, pos as int, vb);
    let b1 = spec_write(buf, pos as int, vb).0;
    let p1 = (pos + w) as usize;
    let tb = be_bytes(i16_bits(s.timestamp), 2);
    lemma_i16_bytes_read(s.timestamp);
    assert(p1 + 2 <= buf.len());
    lemma_write_at(b1, p1 as int, tb);
    let b2 = spec_write(b1, p1 as int, tb).0;
    let p2 = (p1 + 2) as usize;
    let fb = seq![simple_block_flags_byte(s)];
    assert(p2 + 1 <= buf.len());
    lemma_write_at(b2, p2 as int, fb);
    let b3 = spec_write(b2, p2 as int, fb).0;
    let t = b3.skip(pos as int);
    assert(t.subrange(0, w as int) =~= vb) by {
        assert forall|i: int| 0 <= i < w implies t.subrange(0, w as int)[i] == vb[i] by {
            assert(b3[pos + i] == b2[pos + i]);
            assert(b2[pos + i] == b1[pos + i]);
            assert(b1.subrange(pos as int, pos + w)[i] == b1[pos + i]);
        }
    }
    lemma_vint_reads(num, t);
    assert(t[w as int] == b2[p1 as int]);
    assert(b2.subrange(p1 as int, p1 + 2)[0] == b2[p1 as int]);
    assert(t[(w + 1) as int] == b2[p1 + 1]);
    assert(b2.subrange(p1 as int, p1 + 2)[1] == b2[p1 + 1]);
    assert(t[(w + 2) as int] == b3[p2 as int]);
    assert(b3.subrange(p2 as int, p2 + 1)[0] == b3[p2 as int]);
    lemma_flags_byte_reads(s);
}

} // verus!
