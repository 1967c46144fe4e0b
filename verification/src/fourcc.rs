use vstd::prelude::*;
use vstd::utf8::{decode_utf8, valid_utf8};

verus! {

/// A four-character code, packed in a `u32`.
#[derive(Debug, Clone, Copy, PartialEq, Eq, Structural)]
pub struct Fourcc {
    val: u32,
}

impl View for Fourcc {
    type V = u32;

    closed spec fn view(&self) -> u32 {
        self.val
    }
}

/// Packs four characters, the first one in the most significant byte; the
/// code point of each is shifted into place and the four are or-ed.
pub fn chars_to_fourcc_bige(a: char, b: char, c: char, d: char) -> (r: Fourcc)
    ensures
        r@ == (d as u32) | ((c as u32) << 8u32) | ((b as u32) << 16u32) | ((a as u32) << 24u32),
{
    Fourcc { val: (d as u32) | (c as u32) << 8 | (b as u32) << 16 | (a as u32) << 24 }
}

/// Packs four characters, the first one in the least significant byte; the
/// code point of each is shifted into place and the four are or-ed.
pub fn chars_to_fourcc_lte(a: char, b: char, c: char, d: char) -> (r: Fourcc)
    ensures
        r@ == (a as u32) | ((b as u32) << 8u32) | ((c as u32) << 16u32) | ((d as u32) << 24u32),
{
    Fourcc { val: (a as u32) | (b as u32) << 8 | (c as u32) << 16 | (d as u32) << 24 }
}

/// Four bytes read as a big-endian number.
proof fn lemma_pack_bytes(a: u8, b: u8, c: u8, d: u8)
    by (bit_vector)
    ensures
        (d as u32) | ((c as u32) << 8u32) | ((b as u32) << 16u32) | ((a as u32) << 24u32)
            == d + c * 0x100 + b * 0x10000 + a * 0x1000000,
{
}

/// Packs four bytes, the first one in the most significant byte.
pub fn bytes_to_fourcc_bige(a: u8, b: u8, c: u8, d: u8) -> (r: Fourcc)
    ensures
        r@ == d + c * 0x100 + b * 0x10000 + a * 0x1000000,
{
    proof {
        lemma_pack_bytes(a, b, c, d);
    }
    Fourcc { val: (d as u32) | (c as u32) << 8 | (b as u32) << 16 | (a as u32) << 24 }
}

/// Packs four bytes, the first one in the least significant byte.
pub fn bytes_to_fourcc_lte(a: u8, b: u8, c: u8, d: u8) -> (r: Fourcc)
    ensures
        r@ == a + b * 0x100 + c * 0x10000 + d * 0x1000000,
{
    proof {
        lemma_pack_bytes(d, c, b, a);
    }
    Fourcc { val: (a as u32) | (b as u32) << 8 | (c as u32) << 16 | (d as u32) << 24 }
}

/// The bytes of a code, least significant first.
pub open spec fn le_bytes4(v: u32) -> Seq<u8> {
    seq![(v % 0x100) as u8, ((v / 0x100) % 0x100) as u8, ((v / 0x10000) % 0x100) as u8, (v / 0x1000000) as u8]
}

/// What `String::from_utf8_lossy` makes of some bytes.
pub uninterp spec fn utf8_lossy(bytes: Seq<u8>) -> Seq<char>;

/// Decodes bytes with `String::from_utf8_lossy`, whose documentation says
/// that valid UTF-8 is decoded as it stands and that every invalid sequence
/// becomes U+FFFD. The contract claims the first, and names the result in
/// the other case.
#[verifier::external_body]
fn string_from_utf8_lossy(bytes: &[u8]) -> (r: String)
    ensures
        r@ == utf8_lossy(bytes@),
        valid_utf8(bytes@) ==> r@ == decode_utf8(bytes@),
{
    String::from_utf8_lossy(bytes).into_owned()
}

impl Fourcc {
    /// A code from a string: a non-empty string gives the code 0 (the
    /// characters are not read).
    pub fn from_string(val: String) -> (r: Fourcc)
        requires
            val@.len() > 0,
        ensures
            r@ == 0,
    {
        Fourcc { val: 0 }
    }

    /// The code of a number.
    pub fn from_u32(val: u32) -> (r: Fourcc)
        ensures
            r@ == val,
    {
        Fourcc { val }
    }

    /// The number of a code.
    pub fn to_u32(self) -> (r: u32)
        ensures
            r == self@,
    {
        self.val
    }

    /// The text of a code: its four bytes, least significant first, decoded
    /// as UTF-8 with invalid sequences replaced.
    pub fn to_string(&self) -> (r: String)
        ensures
            r@ == utf8_lossy(le_bytes4(self@)),
    {
        let mut val = self.val;
        let mut bytes: Vec<u8> = Vec::new();
        let mut i: usize = 0;
        while i < 4
            invariant
                i <= 4,
                bytes@.len() == i,
                forall|j: int| 0 <= j < i ==> bytes@[j] == le_bytes4(self.val)[j],
                val == (if i == 0 {
                    self.val
                } else if i == 1 {
                    self.val / 0x100
                } else if i == 2 {
                    self.val / 0x10000
                } else if i == 3 {
                    self.val / 0x1000000
                } else {
                    0u32
                }),
            decreases 4 - i,
        {
            bytes.push((val % 256) as u8);
            val = val / 256;
            i = i + 1;
        }
        assert(bytes@ =~= le_bytes4(self.val));
        string_from_utf8_lossy(bytes.as_slice())
    }
}

/// The FourCC of the I420 pixel encoding: "I420", first character in
/// the least significant byte.
pub fn encoding_i420() -> (r: Fourcc)
    ensures
        r@ == 0x30323449u32,
{
    Fourcc { val: 0x30323449 }
}

/// The FourCC of the I420_16 pixel encoding: "i420", first character in
/// the least significant byte.
pub fn encoding_i420_16() -> (r: Fourcc)
    ensures
        r@ == 0x30323469u32,
{
    Fourcc { val: 0x30323469 }
}

/// The FourCC of the I420_10 pixel encoding: "i410", first character in
/// the least significant byte.
pub fn encoding_i420_10() -> (r: Fourcc)
    ensures
        r@ == 0x30313469u32,
{
    Fourcc { val: 0x30313469 }
}

/// The FourCC of the I420_S pixel encoding: "I42S", first character in
/// the least significant byte.
pub fn encoding_i420_s() -> (r: Fourcc)
    ensures
        r@ == 0x53323449u32,
{
    Fourcc { val: 0x53323449 }
}

/// The FourCC of the I420_SLICE pixel encoding: "S420", first character in
/// the least significant byte.
pub fn encoding_i420_slice() -> (r: Fourcc)
    ensures
        r@ == 0x30323453u32,
{
    Fourcc { val: 0x30323453 }
}

/// The FourCC of the YV12 pixel encoding: "YV12", first character in
/// the least significant byte.
pub fn encoding_yv12() -> (r: Fourcc)
    ensures
        r@ == 0x32315659u32,
{
    Fourcc { val: 0x32315659 }
}

/// The FourCC of the I422 pixel encoding: "I422", first character in
/// the least significant byte.
pub fn encoding_i422() -> (r: Fourcc)
    ensures
        r@ == 0x32323449u32,
{
    Fourcc { val: 0x32323449 }
}

/// The FourCC of the I422_SLICE pixel encoding: "S422", first character in
/// the least significant byte.
pub fn encoding_i422_slice() -> (r: Fourcc)
    ensures
        r@ == 0x32323453u32,
{
    Fourcc { val: 0x32323453 }
}

/// The FourCC of the YUYV pixel encoding: "YUYV", first character in
/// the least significant byte.
pub fn encoding_yuyv() -> (r: Fourcc)
    ensures
        r@ == 0x56595559u32,
{
    Fourcc { val: 0x56595559 }
}

/// The FourCC of the YVYU pixel encoding: "YVYU", first character in
/// the least significant byte.
pub fn encoding_yvyu() -> (r: Fourcc)
    ensures
        r@ == 0x55595659u32,
{
    Fourcc { val: 0x55595659 }
}

/// The FourCC of the UYVY pixel encoding: "UYVY", first character in
/// the least significant byte.
pub fn encoding_uyvy() -> (r: Fourcc)
    ensures
        r@ == 0x59565955u32,
{
    Fourcc { val: 0x59565955 }
}

/// The FourCC of the VYUY pixel encoding: "VYUY", first character in
/// the least significant byte.
pub fn encoding_vyuy() -> (r: Fourcc)
    ensures
        r@ == 0x59555956u32,
{
    Fourcc { val: 0x59555956 }
}

/// The FourCC of the NV12 pixel encoding: "NV12", first character in
/// the least significant byte.
pub fn encoding_nv12() -> (r: Fourcc)
    ensures
        r@ == 0x3231564Eu32,
{
    Fourcc { val: 0x3231564E }
}

/// The FourCC of the NV21 pixel encoding: "NV21", first character in
/// the least significant byte.
pub fn encoding_nv21() -> (r: Fourcc)
    ensures
        r@ == 0x3132564Eu32,
{
    Fourcc { val: 0x3132564E }
}

} // verus!
