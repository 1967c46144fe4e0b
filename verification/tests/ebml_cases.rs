use matroska::ebml::element::ebml_uint;
use matroska::ebml::parse;
use matroska::ebml::parse::{parse_float, EbmlFloat};
use matroska::elements;
use matroska::elements::{BlockFlags, Lacing};
use matroska::serializer::ebml::{gen_vid, gen_vint};

fn float_value(x: EbmlFloat) -> f64 {
    match x {
        EbmlFloat::F32(bits) => f32::from_bits(bits) as f64,
        EbmlFloat::F64(bits) => f64::from_bits(bits),
    }
}

#[test]
fn it_works() {}

#[test]
fn floats() {
    let tests: Vec<(&[u8], Option<f64>)> = vec![
        // wrong lengths
        (&[], None),
        (&[0xFF, 0xFF], None),
        (&[0xAB, 0xCD, 0xEF, 0x12, 0x56], None),
        (&[0xAB, 0xCD, 0xEF, 0x12, 0x56, 0x78, 0x90, 0xFF, 0xFF], None),
        // f32
        (&[0x42, 0x02, 0x2F, 0x07], Some(32.545_925_140_380_86)),
        (&[0x4A, 0xBE, 0x2F, 0x00], Some(6_231_936.0)),
        (&[0xA6, 0xAA, 0x3B, 0x0C], Some(-1.181_212_432_418_065_8e-15)),
        // f64
        (&[0x40, 0x84, 0x0F, 0x47, 0xAE, 0x14, 0x7A, 0xE1], Some(641.91)),
        (&[0x46, 0x69, 0x23, 0x6B, 0xD6, 0xA3, 0xBE, 0x04], Some(1.593_333_125_495_994_4e31)),
        (&[0xA6, 0x6C, 0x81, 0x8A, 0x63, 0x94, 0x55, 0x6F], Some(-1.347_560_723_113_483_4e-123)),
        // subnormals
        (&[0x00, 0x30, 0x08, 0x51], Some(4.411_087_180_014_126e-39)),
        (&[0x80, 0x07, 0x21, 0xC3, 0x51, 0x96, 0x4B, 0x50], Some(-9.918_108_989_973_327e-309)),
        // Infinities
        (&[0x7F, 0xF0, 0x00, 0x00, 0x00, 0x00, 0x00, 0x00], Some(f64::INFINITY)),
        (&[0xFF, 0xF0, 0x00, 0x00, 0x00, 0x00, 0x00, 0x00], Some(f64::NEG_INFINITY)),
        // f32 infinity should stay infinite, even as f64
        (&[0x7F, 0x80, 0x00, 0x00], Some(f64::INFINITY)),
        (&[0xFF, 0x80, 0x00, 0x00], Some(f64::NEG_INFINITY)),
    ];

    for (bytes, expected) in tests {
        assert_eq!(expected, parse_float(bytes).ok().map(float_value));
    }

    let nans: [(&[u8], bool); 3] = [
        (&[0x7F, 0x96, 0x93, 0x4D], false),
        (&[0xFF, 0xE4, 0xA6, 0x6D], true),
        (&[0xFF, 0xFF, 0x21, 0xC3, 0x51, 0x96, 0x4B, 0x50], true),
    ];

    for (bytes, neg) in nans {
        let res = float_value(parse_float(bytes).unwrap());
        assert!(res.is_nan());
        assert_eq!(res.is_sign_negative(), neg);
    }
}

#[test]
fn ebml_variable_integer() {
    let val01 = [0b10000000];

    match parse::vint(&val01) {
        Ok((_, v)) => assert!(0 == v),
        _ => panic!(),
    }
}

#[test]
fn tests_variable_integer() {
    let val01 = [0b10000000];

    match parse::vint(&val01) {
        Ok((_, v)) => assert!(0 == v),
        _ => panic!(),
    }
}

#[test]
fn block_flags() {
    let test = [
        (
            0b1000_1011,
            Some(BlockFlags {
                keyframe: true,
                invisible: true,
                lacing: Lacing::Xiph,
                discardable: true,
            }),
        ),
        (
            0b0000_0000,
            Some(BlockFlags {
                keyframe: false,
                invisible: false,
                lacing: Lacing::NoLacing,
                discardable: false,
            }),
        ),
        (
            0b0000_0110,
            Some(BlockFlags {
                keyframe: false,
                invisible: false,
                lacing: Lacing::EBML,
                discardable: false,
            }),
        ),
        (
            0b0000_0101,
            Some(BlockFlags {
                keyframe: false,
                invisible: false,
                lacing: Lacing::FixedSize,
                discardable: true,
            }),
        ),
    ];

    for (data, flags) in test {
        assert_eq!(elements::block_flags(data), flags);
    }
}

const ALLOWED_ID_VALUES: u64 = (1u64 << 56) - 1;

fn test_vint_serializer(i: u64) -> bool {
    let mut data = vec![0u8; 10];
    {
        let gen_res = gen_vint(i, &mut data, 0);
        if gen_res.is_err() {
            return i >= ALLOWED_ID_VALUES;
        }
    }

    match parse::vint(&data[..]) {
        Ok((_rest, o)) => {
            assert_eq!(i, o);
            true
        }
        e => panic!("{}", format!("parse error: {:?}", e)),
    }
}

#[test]
fn vint() {
    test_vint_serializer(0);
    test_vint_serializer(8);
    test_vint_serializer(127);
    test_vint_serializer(128);
    test_vint_serializer(2100000);
}

fn test_vid_serializer(id: u64) -> bool {
    let mut data = vec![0u8; 10];
    {
        let _gen_res = gen_vid(id, &mut data, 0);
    }

    match parse::vid(&data[..]) {
        Ok((_rest, o)) => {
            assert_eq!(id, o as u64);
            true
        }
        e => panic!("{}", format!("parse error: {:?}", e)),
    }
}

#[test]
fn vid() {
    test_vid_serializer(128);
    test_vid_serializer(0x4286);
    test_vid_serializer(0x1A45DFA3);
}

fn gen_u64(id: u64, num: u64, data: &mut Vec<u8>) -> Result<usize, matroska::serializer::cookie_utils::GenError> {
    let p = gen_vid(id, data, 0)?;
    let p = gen_vint(8, data, p)?;
    let (_, p) = cookie_factory::gen::set_be_u64((&mut data[..], p), num)
        .map_err(|_| matroska::serializer::cookie_utils::GenError::BufferTooSmall(8))?;
    Ok(p)
}

fn test_ebml_u64_serializer(num: u64) -> bool {
    let id = 0x9F;
    let mut data = vec![0u8; 100];
    {
        let _gen_res = gen_u64(id, num, &mut data);
    }

    match ebml_uint(id as u32, &data[..]) {
        Ok((_rest, o)) => {
            assert_eq!(num, o);
            true
        }
        e => panic!("{}", format!("parse error: {:?}", e)),
    }
}

#[test]
fn ebml_u64() {
    test_ebml_u64_serializer(0);
    test_ebml_u64_serializer(8);
    test_ebml_u64_serializer(127);
    test_ebml_u64_serializer(128);
    test_ebml_u64_serializer(2100000);
}
