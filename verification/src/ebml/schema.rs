use vstd::prelude::*;

verus! {

/// The master elements that the parser knows.
#[derive(Debug, Clone, Copy, PartialEq, Eq, Structural)]
pub enum MasterId {
    EbmlHeader,
    SeekHead,
    Seek,
    Info,
    Cluster,
    BlockGroup,
    Tracks,
    TrackEntry,
    TrackTranslate,
    TrackOperation,
    TrackCombinePlanes,
    TrackPlane,
    TrackJoinBlocks,
    ContentEncodings,
    ContentEncoding,
    ContentCompression,
    ContentEncryption,
    Audio,
    Video,
    Colour,
    MasteringMetadata,
    Projection,
}

/// What an element holds, as far as the parser is concerned.
#[derive(Debug, Clone, Copy, PartialEq, Eq, Structural)]
pub enum FieldKind {
    /// An unsigned integer of at most 8 bytes.
    Uint,
    /// An unsigned integer of at most 4 bytes.
    U32,
    /// A signed integer of at most 8 bytes.
    Int,
    /// A float of 4 or 8 bytes.
    Float,
    /// A date of 0 or 8 bytes.
    Date,
    /// A UTF-8 string.
    Str,
    /// Any bytes.
    Binary,
    /// Exactly 4 bytes.
    Bin4,
    /// Exactly 16 bytes.
    Uuid,
    /// A master element of the given kind.
    Master(MasterId),
}

/// One field of a master element: its Element ID, what it holds, whether it
/// may repeat, and whether the master element is invalid without it.
#[derive(Debug, Clone, Copy, PartialEq, Eq, Structural)]
pub struct FieldDesc {
    pub id: u32,
    pub kind: FieldKind,
    pub many: bool,
    pub required: bool,
}

/// The Element ID of each master element.
pub open spec fn spec_master_id(m: MasterId) -> u32 {
    match m {
        MasterId::EbmlHeader => 0x1a45dfa3,
        MasterId::SeekHead => 0x114d9b74,
        MasterId::Seek => 0x4dbb,
        MasterId::Info => 0x1549a966,
        MasterId::Cluster => 0x1f43b675,
        MasterId::BlockGroup => 0xa0,
        MasterId::Tracks => 0x1654ae6b,
        MasterId::TrackEntry => 0xae,
        MasterId::TrackTranslate => 0x6624,
        MasterId::TrackOperation => 0xe2,
        MasterId::TrackCombinePlanes => 0xe3,
        MasterId::TrackPlane => 0xe4,
        MasterId::TrackJoinBlocks => 0xe9,
        MasterId::ContentEncodings => 0x6d80,
        MasterId::ContentEncoding => 0x6240,
        MasterId::ContentCompression => 0x5034,
        MasterId::ContentEncryption => 0x5035,
        MasterId::Audio => 0xe1,
        MasterId::Video => 0xe0,
        MasterId::Colour => 0x55b0,
        MasterId::MasteringMetadata => 0x55d0,
        MasterId::Projection => 0x7670,
    }
}

/// The Element ID of a master element.
pub fn master_id(m: MasterId) -> (r: u32)
    ensures
        r == spec_master_id(m),
{
    match m {
        MasterId::EbmlHeader => 0x1a45dfa3,
        MasterId::SeekHead => 0x114d9b74,
        MasterId::Seek => 0x4dbb,
        MasterId::Info => 0x1549a966,
        MasterId::Cluster => 0x1f43b675,
        MasterId::BlockGroup => 0xa0,
        MasterId::Tracks => 0x1654ae6b,
        MasterId::TrackEntry => 0xae,
        MasterId::TrackTranslate => 0x6624,
        MasterId::TrackOperation => 0xe2,
        MasterId::TrackCombinePlanes => 0xe3,
        MasterId::TrackPlane => 0xe4,
        MasterId::TrackJoinBlocks => 0xe9,
        MasterId::ContentEncodings => 0x6d80,
        MasterId::ContentEncoding => 0x6240,
        MasterId::ContentCompression => 0x5034,
        MasterId::ContentEncryption => 0x5035,
        MasterId::Audio => 0xe1,
        MasterId::Video => 0xe0,
        MasterId::Colour => 0x55b0,
        MasterId::MasteringMetadata => 0x55d0,
        MasterId::Projection => 0x7670,
    }
}

/// The fields of each master element, in the order in which the parser
/// tries them.
pub open spec fn schema(m: MasterId) -> Seq<FieldDesc> {
    match m {
        MasterId::EbmlHeader => seq![
            FieldDesc { id: 0x4286, kind: FieldKind::U32, many: false, required: false },
            FieldDesc { id: 0x42f7, kind: FieldKind::U32, many: false, required: false },
            FieldDesc { id: 0x42f2, kind: FieldKind::U32, many: false, required: false },
            FieldDesc { id: 0x42f3, kind: FieldKind::U32, many: false, required: false },
            FieldDesc { id: 0x4282, kind: FieldKind::Str, many: false, required: true },
            FieldDesc { id: 0x4287, kind: FieldKind::U32, many: false, required: false },
            FieldDesc { id: 0x4285, kind: FieldKind::U32, many: false, required: false },
        ],
        MasterId::SeekHead => seq![
            FieldDesc { id: 0x4dbb, kind: FieldKind::Master(MasterId::Seek), many: true, required: true },
        ],
        MasterId::Seek => seq![
            FieldDesc { id: 0x53ab, kind: FieldKind::Bin4, many: false, required: true },
            FieldDesc { id: 0x53ac, kind: FieldKind::Uint, many: false, required: true },
        ],
        MasterId::Info => seq![
            FieldDesc { id: 0x73a4, kind: FieldKind::Uuid, many: false, required: false },
            FieldDesc { id: 0x7384, kind: FieldKind::Str, many: false, required: false },
            FieldDesc { id: 0x3cb923, kind: FieldKind::Uuid, many: false, required: false },
            FieldDesc { id: 0x3c83ab, kind: FieldKind::Str, many: false, required: false },
            FieldDesc { id: 0x3eb923, kind: FieldKind::Uuid, many: false, required: false },
            FieldDesc { id: 0x3e83bb, kind: FieldKind::Str, many: false, required: false },
            FieldDesc { id: 0x4444, kind: FieldKind::Uuid, many: false, required: false },
            FieldDesc { id: 0x2ad7b1, kind: FieldKind::Uint, many: false, required: false },
            FieldDesc { id: 0x4489, kind: FieldKind::Float, many: false, required: false },
            FieldDesc { id: 0x4461, kind: FieldKind::Date, many: false, required: false },
            FieldDesc { id: 0x7ba9, kind: FieldKind::Str, many: false, required: false },
            FieldDesc { id: 0x4d80, kind: FieldKind::Str, many: false, required: true },
            FieldDesc { id: 0x5741, kind: FieldKind::Str, many: false, required: true },
        ],
        MasterId::Cluster => seq![
            FieldDesc { id: 0xe7, kind: FieldKind::Uint, many: false, required: true },
            FieldDesc { id: 0xa7, kind: FieldKind::Uint, many: false, required: false },
            FieldDesc { id: 0xab, kind: FieldKind::Uint, many: false, required: false },
            FieldDesc { id: 0xa3, kind: FieldKind::Binary, many: true, required: false },
            FieldDesc { id: 0xa0, kind: FieldKind::Master(MasterId::BlockGroup), many: true, required: false },
        ],
        MasterId::BlockGroup => seq![
            FieldDesc { id: 0xa1, kind: FieldKind::Binary, many: false, required: true },
            FieldDesc { id: 0x9b, kind: FieldKind::Uint, many: false, required: false },
            FieldDesc { id: 0xfa, kind: FieldKind::Uint, many: false, required: false },
            FieldDesc { id: 0xfb, kind: FieldKind::Uint, many: false, required: false },
            FieldDesc { id: 0xa4, kind: FieldKind::Binary, many: false, required: false },
            FieldDesc { id: 0x75a2, kind: FieldKind::Int, many: false, required: false },
        ],
        MasterId::Tracks => seq![
            FieldDesc { id: 0xae, kind: FieldKind::Master(MasterId::TrackEntry), many: true, required: false },
        ],
        MasterId::TrackEntry => seq![
            FieldDesc { id: 0xd7, kind: FieldKind::Uint, many: false, required: true },
            FieldDesc { id: 0x73c5, kind: FieldKind::Uint, many: false, required: true },
            FieldDesc { id: 0x83, kind: FieldKind::Uint, many: false, required: true },
            FieldDesc { id: 0xb9, kind: FieldKind::Uint, many: false, required: false },
            FieldDesc { id: 0x88, kind: FieldKind::Uint, many: false, required: false },
            FieldDesc { id: 0x55aa, kind: FieldKind::Uint, many: false, required: false },
            FieldDesc { id: 0x9c, kind: FieldKind::Uint, many: false, required: false },
            FieldDesc { id: 0x23e383, kind: FieldKind::Uint, many: false, required: false },
            FieldDesc { id: 0x234e7a, kind: FieldKind::Uint, many: false, required: false },
            FieldDesc { id: 0x23314f, kind: FieldKind::Float, many: false, required: false },
            FieldDesc { id: 0x55ee, kind: FieldKind::Uint, many: false, required: false },
            FieldDesc { id: 0x536e, kind: FieldKind::Str, many: false, required: false },
            FieldDesc { id: 0x22b59c, kind: FieldKind::Str, many: false, required: false },
            FieldDesc { id: 0x22b59d, kind: FieldKind::Str, many: false, required: false },
            FieldDesc { id: 0x86, kind: FieldKind::Str, many: false, required: true },
            FieldDesc { id: 0x63a2, kind: FieldKind::Binary, many: false, required: false },
            FieldDesc { id: 0x258688, kind: FieldKind::Str, many: false, required: false },
            FieldDesc { id: 0x7446, kind: FieldKind::Uint, many: false, required: false },
            FieldDesc { id: 0x56aa, kind: FieldKind::Uint, many: false, required: false },
            FieldDesc { id: 0x56bb, kind: FieldKind::Uint, many: false, required: false },
            FieldDesc { id: 0xe0, kind: FieldKind::Master(MasterId::Video), many: false, required: false },
            FieldDesc { id: 0xe1, kind: FieldKind::Master(MasterId::Audio), many: false, required: false },
            FieldDesc { id: 0x6624, kind: FieldKind::Master(MasterId::TrackTranslate), many: true, required: false },
            FieldDesc { id: 0xe2, kind: FieldKind::Master(MasterId::TrackOperation), many: false, required: false },
            FieldDesc { id: 0x6d80, kind: FieldKind::Master(MasterId::ContentEncodings), many: false, required: false },
            FieldDesc { id: 0xffffffff, kind: FieldKind::Uint, many: false, required: false },
        ],
        MasterId::TrackTranslate => seq![
            FieldDesc { id: 0x66fc, kind: FieldKind::Uint, many: true, required: false },
            FieldDesc { id: 0x66bf, kind: FieldKind::Uint, many: false, required: true },
            FieldDesc { id: 0x66a5, kind: FieldKind::Uint, many: false, required: true },
        ],
        MasterId::TrackOperation => seq![
            FieldDesc { id: 0xe3, kind: FieldKind::Master(MasterId::TrackCombinePlanes), many: false, required: false },
            FieldDesc { id: 0xe9, kind: FieldKind::Master(MasterId::TrackJoinBlocks), many: false, required: false },
        ],
        MasterId::TrackCombinePlanes => seq![
            FieldDesc { id: 0xe4, kind: FieldKind::Master(MasterId::TrackPlane), many: true, required: false },
        ],
        MasterId::TrackPlane => seq![
            FieldDesc { id: 0xe5, kind: FieldKind::Uint, many: false, required: true },
            FieldDesc { id: 0xe6, kind: FieldKind::Uint, many: false, required: true },
        ],
        MasterId::TrackJoinBlocks => seq![
            FieldDesc { id: 0xed, kind: FieldKind::Uint, many: true, required: false },
        ],
        MasterId::ContentEncodings => seq![
            FieldDesc { id: 0x6240, kind: FieldKind::Master(MasterId::ContentEncoding), many: true, required: false },
        ],
        MasterId::ContentEncoding => seq![
            FieldDesc { id: 0x5031, kind: FieldKind::Uint, many: false, required: false },
            FieldDesc { id: 0x5032, kind: FieldKind::Uint, many: false, required: false },
            FieldDesc { id: 0x5033, kind: FieldKind::Uint, many: false, required: false },
            FieldDesc { id: 0x5034, kind: FieldKind::Master(MasterId::ContentCompression), many: false, required: false },
            FieldDesc { id: 0x5035, kind: FieldKind::Master(MasterId::ContentEncryption), many: false, required: false },
        ],
        MasterId::ContentCompression => seq![
            FieldDesc { id: 0x4254, kind: FieldKind::Uint, many: false, required: false },
            FieldDesc { id: 0x4255, kind: FieldKind::Uint, many: false, required: false },
        ],
        MasterId::ContentEncryption => seq![
            FieldDesc { id: 0x47e1, kind: FieldKind::Uint, many: false, required: false },
            FieldDesc { id: 0x47e2, kind: FieldKind::Binary, many: false, required: false },
        ],
        MasterId::Audio => seq![
            FieldDesc { id: 0xb5, kind: FieldKind::Float, many: false, required: false },
            FieldDesc { id: 0x7885, kind: FieldKind::Float, many: false, required: false },
            FieldDesc { id: 0x9f, kind: FieldKind::Uint, many: false, required: true },
            FieldDesc { id: 0x6264, kind: FieldKind::Uint, many: false, required: false },
        ],
        MasterId::Video => seq![
            FieldDesc { id: 0x9a, kind: FieldKind::Uint, many: false, required: false },
            FieldDesc { id: 0x9d, kind: FieldKind::Uint, many: false, required: false },
            FieldDesc { id: 0x53b8, kind: FieldKind::Uint, many: false, required: false },
            FieldDesc { id: 0x53c0, kind: FieldKind::Uint, many: false, required: false },
            FieldDesc { id: 0x53b9, kind: FieldKind::Uint, many: false, required: false },
            FieldDesc { id: 0xb0, kind: FieldKind::Uint, many: false, required: true },
            FieldDesc { id: 0xba, kind: FieldKind::Uint, many: false, required: true },
            FieldDesc { id: 0x54aa, kind: FieldKind::Uint, many: false, required: false },
            FieldDesc { id: 0x54bb, kind: FieldKind::Uint, many: false, required: false },
            FieldDesc { id: 0x54cc, kind: FieldKind::Uint, many: false, required: false },
            FieldDesc { id: 0x54dd, kind: FieldKind::Uint, many: false, required: false },
            FieldDesc { id: 0x54b0, kind: FieldKind::Uint, many: false, required: false },
            FieldDesc { id: 0x54ba, kind: FieldKind::Uint, many: false, required: false },
            FieldDesc { id: 0x54b2, kind: FieldKind::Uint, many: false, required: false },
            FieldDesc { id: 0x2eb524, kind: FieldKind::Binary, many: false, required: false },
            FieldDesc { id: 0x55b0, kind: FieldKind::Master(MasterId::Colour), many: false, required: false },
            FieldDesc { id: 0x55d0, kind: FieldKind::Master(MasterId::Projection), many: false, required: false },
        ],
        MasterId::Colour => seq![
            FieldDesc { id: 0x55b1, kind: FieldKind::Uint, many: false, required: false },
            FieldDesc { id: 0x55b2, kind: FieldKind::Uint, many: false, required: false },
            FieldDesc { id: 0x55b3, kind: FieldKind::Uint, many: false, required: false },
            FieldDesc { id: 0x55b4, kind: FieldKind::Uint, many: false, required: false },
            FieldDesc { id: 0x55b5, kind: FieldKind::Uint, many: false, required: false },
            FieldDesc { id: 0x55b6, kind: FieldKind::Uint, many: false, required: false },
            FieldDesc { id: 0x55b7, kind: FieldKind::Uint, many: false, required: false },
            FieldDesc { id: 0x55b8, kind: FieldKind::Uint, many: false, required: false },
            FieldDesc { id: 0x55b9, kind: FieldKind::Uint, many: false, required: false },
            FieldDesc { id: 0x55ba, kind: FieldKind::Uint, many: false, required: false },
            FieldDesc { id: 0x55bb, kind: FieldKind::Uint, many: false, required: false },
            FieldDesc { id: 0x55bc, kind: FieldKind::Uint, many: false, required: false },
            FieldDesc { id: 0x55bd, kind: FieldKind::Uint, many: false, required: false },
            FieldDesc { id: 0x55d0, kind: FieldKind::Master(MasterId::MasteringMetadata), many: false, required: false },
        ],
        MasterId::MasteringMetadata => seq![
            FieldDesc { id: 0x55d1, kind: FieldKind::Float, many: false, required: false },
            FieldDesc { id: 0x55d2, kind: FieldKind::Float, many: false, required: false },
            FieldDesc { id: 0x55d3, kind: FieldKind::Float, many: false, required: false },
            FieldDesc { id: 0x55d4, kind: FieldKind::Float, many: false, required: false },
            FieldDesc { id: 0x55d5, kind: FieldKind::Float, many: false, required: false },
            FieldDesc { id: 0x55d6, kind: FieldKind::Float, many: false, required: false },
            FieldDesc { id: 0x55d7, kind: FieldKind::Float, many: false, required: false },
            FieldDesc { id: 0x55d8, kind: FieldKind::Float, many: false, required: false },
            FieldDesc { id: 0x55d9, kind: FieldKind::Float, many: false, required: false },
            FieldDesc { id: 0x55da, kind: FieldKind::Float, many: false, required: false },
        ],
        MasterId::Projection => seq![
            FieldDesc { id: 0x7671, kind: FieldKind::Uint, many: false, required: false },
            FieldDesc { id: 0x7672, kind: FieldKind::Binary, many: false, required: false },
            FieldDesc { id: 0x7673, kind: FieldKind::Float, many: false, required: false },
            FieldDesc { id: 0x7674, kind: FieldKind::Float, many: false, required: false },
            FieldDesc { id: 0x7675, kind: FieldKind::Float, many: false, required: false },
        ],
    }
}

/// The fields of a master element, in the order in which the parser tries them.
pub fn fields_of(m: MasterId) -> (r: Vec<FieldDesc>)
    ensures
        r@ == schema(m),
{
    let r = match m {
        MasterId::EbmlHeader => vec![
            FieldDesc { id: 0x4286, kind: FieldKind::U32, many: false, required: false },
            FieldDesc { id: 0x42f7, kind: FieldKind::U32, many: false, required: false },
            FieldDesc { id: 0x42f2, kind: FieldKind::U32, many: false, required: false },
            FieldDesc { id: 0x42f3, kind: FieldKind::U32, many: false, required: false },
            FieldDesc { id: 0x4282, kind: FieldKind::Str, many: false, required: true },
            FieldDesc { id: 0x4287, kind: FieldKind::U32, many: false, required: false },
            FieldDesc { id: 0x4285, kind: FieldKind::U32, many: false, required: false },
        ],
        MasterId::SeekHead => vec![
            FieldDesc { id: 0x4dbb, kind: FieldKind::Master(MasterId::Seek), many: true, required: true },
        ],
        MasterId::Seek => vec![
            FieldDesc { id: 0x53ab, kind: FieldKind::Bin4, many: false, required: true },
            FieldDesc { id: 0x53ac, kind: FieldKind::Uint, many: false, required: true },
        ],
        MasterId::Info => vec![
            FieldDesc { id: 0x73a4, kind: FieldKind::Uuid, many: false, required: false },
            FieldDesc { id: 0x7384, kind: FieldKind::Str, many: false, required: false },
            FieldDesc { id: 0x3cb923, kind: FieldKind::Uuid, many: false, required: false },
            FieldDesc { id: 0x3c83ab, kind: FieldKind::Str, many: false, required: false },
            FieldDesc { id: 0x3eb923, kind: FieldKind::Uuid, many: false, required: false },
            FieldDesc { id: 0x3e83bb, kind: FieldKind::Str, many: false, required: false },
            FieldDesc { id: 0x4444, kind: FieldKind::Uuid, many: false, required: false },
            FieldDesc { id: 0x2ad7b1, kind: FieldKind::Uint, many: false, required: false },
            FieldDesc { id: 0x4489, kind: FieldKind::Float, many: false, required: false },
            FieldDesc { id: 0x4461, kind: FieldKind::Date, many: false, required: false },
            FieldDesc { id: 0x7ba9, kind: FieldKind::Str, many: false, required: false },
            FieldDesc { id: 0x4d80, kind: FieldKind::Str, many: false, required: true },
            FieldDesc { id: 0x5741, kind: FieldKind::Str, many: false, required: true },
        ],
        MasterId::Cluster => vec![
            FieldDesc { id: 0xe7, kind: FieldKind::Uint, many: false, required: true },
            FieldDesc { id: 0xa7, kind: FieldKind::Uint, many: false, required: false },
            FieldDesc { id: 0xab, kind: FieldKind::Uint, many: false, required: false },
            FieldDesc { id: 0xa3, kind: FieldKind::Binary, many: true, required: false },
            FieldDesc { id: 0xa0, kind: FieldKind::Master(MasterId::BlockGroup), many: true, required: false },
        ],
        MasterId::BlockGroup => vec![
            FieldDesc { id: 0xa1, kind: FieldKind::Binary, many: false, required: true },
            FieldDesc { id: 0x9b, kind: FieldKind::Uint, many: false, required: false },
            FieldDesc { id: 0xfa, kind: FieldKind::Uint, many: false, required: false },
            FieldDesc { id: 0xfb, kind: FieldKind::Uint, many: false, required: false },
            FieldDesc { id: 0xa4, kind: FieldKind::Binary, many: false, required: false },
            FieldDesc { id: 0x75a2, kind: FieldKind::Int, many: false, required: false },
        ],
        MasterId::Tracks => vec![
            FieldDesc { id: 0xae, kind: FieldKind::Master(MasterId::TrackEntry), many: true, required: false },
        ],
        MasterId::TrackEntry => vec![
            FieldDesc { id: 0xd7, kind: FieldKind::Uint, many: false, required: true },
            FieldDesc { id: 0x73c5, kind: FieldKind::Uint, many: false, required: true },
            FieldDesc { id: 0x83, kind: FieldKind::Uint, many: false, required: true },
            FieldDesc { id: 0xb9, kind: FieldKind::Uint, many: false, required: false },
            FieldDesc { id: 0x88, kind: FieldKind::Uint, many: false, required: false },
            FieldDesc { id: 0x55aa, kind: FieldKind::Uint, many: false, required: false },
            FieldDesc { id: 0x9c, kind: FieldKind::Uint, many: false, required: false },
            FieldDesc { id: 0x23e383, kind: FieldKind::Uint, many: false, required: false },
            FieldDesc { id: 0x234e7a, kind: FieldKind::Uint, many: false, required: false },
            FieldDesc { id: 0x23314f, kind: FieldKind::Float, many: false, required: false },
            FieldDesc { id: 0x55ee, kind: FieldKind::Uint, many: false, required: false },
            FieldDesc { id: 0x536e, kind: FieldKind::Str, many: false, required: false },
            FieldDesc { id: 0x22b59c, kind: FieldKind::Str, many: false, required: false },
            FieldDesc { id: 0x22b59d, kind: FieldKind::Str, many: false, required: false },
            FieldDesc { id: 0x86, kind: FieldKind::Str, many: false, required: true },
            FieldDesc { id: 0x63a2, kind: FieldKind::Binary, many: false, required: false },
            FieldDesc { id: 0x258688, kind: FieldKind::Str, many: false, required: false },
            FieldDesc { id: 0x7446, kind: FieldKind::Uint, many: false, required: false },
            FieldDesc { id: 0x56aa, kind: FieldKind::Uint, many: false, required: false },
            FieldDesc { id: 0x56bb, kind: FieldKind::Uint, many: false, required: false },
            FieldDesc { id: 0xe0, kind: FieldKind::Master(MasterId::Video), many: false, required: false },
            FieldDesc { id: 0xe1, kind: FieldKind::Master(MasterId::Audio), many: false, required: false },
            FieldDesc { id: 0x6624, kind: FieldKind::Master(MasterId::TrackTranslate), many: true, required: false },
            FieldDesc { id: 0xe2, kind: FieldKind::Master(MasterId::TrackOperation), many: false, required: false },
            FieldDesc { id: 0x6d80, kind: FieldKind::Master(MasterId::ContentEncodings), many: false, required: false },
            FieldDesc { id: 0xffffffff, kind: FieldKind::Uint, many: false, required: false },
        ],
        MasterId::TrackTranslate => vec![
            FieldDesc { id: 0x66fc, kind: FieldKind::Uint, many: true, required: false },
            FieldDesc { id: 0x66bf, kind: FieldKind::Uint, many: false, required: true },
            FieldDesc { id: 0x66a5, kind: FieldKind::Uint, many: false, required: true },
        ],
        MasterId::TrackOperation => vec![
            FieldDesc { id: 0xe3, kind: FieldKind::Master(MasterId::TrackCombinePlanes), many: false, required: false },
            FieldDesc { id: 0xe9, kind: FieldKind::Master(MasterId::TrackJoinBlocks), many: false, required: false },
        ],
        MasterId::TrackCombinePlanes => vec![
            FieldDesc { id: 0xe4, kind: FieldKind::Master(MasterId::TrackPlane), many: true, required: false },
        ],
        MasterId::TrackPlane => vec![
            FieldDesc { id: 0xe5, kind: FieldKind::Uint, many: false, required: true },
            FieldDesc { id: 0xe6, kind: FieldKind::Uint, many: false, required: true },
        ],
        MasterId::TrackJoinBlocks => vec![
            FieldDesc { id: 0xed, kind: FieldKind::Uint, many: true, required: false },
        ],
        MasterId::ContentEncodings => vec![
            FieldDesc { id: 0x6240, kind: FieldKind::Master(MasterId::ContentEncoding), many: true, required: false },
        ],
        MasterId::ContentEncoding => vec![
            FieldDesc { id: 0x5031, kind: FieldKind::Uint, many: false, required: false },
            FieldDesc { id: 0x5032, kind: FieldKind::Uint, many: false, required: false },
            FieldDesc { id: 0x5033, kind: FieldKind::Uint, many: false, required: false },
            FieldDesc { id: 0x5034, kind: FieldKind::Master(MasterId::ContentCompression), many: false, required: false },
            FieldDesc { id: 0x5035, kind: FieldKind::Master(MasterId::ContentEncryption), many: false, required: false },
        ],
        MasterId::ContentCompression => vec![
            FieldDesc { id: 0x4254, kind: FieldKind::Uint, many: false, required: false },
            FieldDesc { id: 0x4255, kind: FieldKind::Uint, many: false, required: false },
        ],
        MasterId::ContentEncryption => vec![
            FieldDesc { id: 0x47e1, kind: FieldKind::Uint, many: false, required: false },
            FieldDesc { id: 0x47e2, kind: FieldKind::Binary, many: false, required: false },
        ],
        MasterId::Audio => vec![
            FieldDesc { id: 0xb5, kind: FieldKind::Float, many: false, required: false },
            FieldDesc { id: 0x7885, kind: FieldKind::Float, many: false, required: false },
            FieldDesc { id: 0x9f, kind: FieldKind::Uint, many: false, required: true },
            FieldDesc { id: 0x6264, kind: FieldKind::Uint, many: false, required: false },
        ],
        MasterId::Video => vec![
            FieldDesc { id: 0x9a, kind: FieldKind::Uint, many: false, required: false },
            FieldDesc { id: 0x9d, kind: FieldKind::Uint, many: false, required: false },
            FieldDesc { id: 0x53b8, kind: FieldKind::Uint, many: false, required: false },
            FieldDesc { id: 0x53c0, kind: FieldKind::Uint, many: false, required: false },
            FieldDesc { id: 0x53b9, kind: FieldKind::Uint, many: false, required: false },
            FieldDesc { id: 0xb0, kind: FieldKind::Uint, many: false, required: true },
            FieldDesc { id: 0xba, kind: FieldKind::Uint, many: false, required: true },
            FieldDesc { id: 0x54aa, kind: FieldKind::Uint, many: false, required: false },
            FieldDesc { id: 0x54bb, kind: FieldKind::Uint, many: false, required: false },
            FieldDesc { id: 0x54cc, kind: FieldKind::Uint, many: false, required: false },
            FieldDesc { id: 0x54dd, kind: FieldKind::Uint, many: false, required: false },
            FieldDesc { id: 0x54b0, kind: FieldKind::Uint, many: false, required: false },
            FieldDesc { id: 0x54ba, kind: FieldKind::Uint, many: false, required: false },
            FieldDesc { id: 0x54b2, kind: FieldKind::Uint, many: false, required: false },
            FieldDesc { id: 0x2eb524, kind: FieldKind::Binary, many: false, required: false },
            FieldDesc { id: 0x55b0, kind: FieldKind::Master(MasterId::Colour), many: false, required: false },
            FieldDesc { id: 0x55d0, kind: FieldKind::Master(MasterId::Projection), many: false, required: false },
        ],
        MasterId::Colour => vec![
            FieldDesc { id: 0x55b1, kind: FieldKind::Uint, many: false, required: false },
            FieldDesc { id: 0x55b2, kind: FieldKind::Uint, many: false, required: false },
            FieldDesc { id: 0x55b3, kind: FieldKind::Uint, many: false, required: false },
            FieldDesc { id: 0x55b4, kind: FieldKind::Uint, many: false, required: false },
            FieldDesc { id: 0x55b5, kind: FieldKind::Uint, many: false, required: false },
            FieldDesc { id: 0x55b6, kind: FieldKind::Uint, many: false, required: false },
            FieldDesc { id: 0x55b7, kind: FieldKind::Uint, many: false, required: false },
            FieldDesc { id: 0x55b8, kind: FieldKind::Uint, many: false, required: false },
            FieldDesc { id: 0x55b9, kind: FieldKind::Uint, many: false, required: false },
            FieldDesc { id: 0x55ba, kind: FieldKind::Uint, many: false, required: false },
            FieldDesc { id: 0x55bb, kind: FieldKind::Uint, many: false, required: false },
            FieldDesc { id: 0x55bc, kind: FieldKind::Uint, many: false, required: false },
            FieldDesc { id: 0x55bd, kind: FieldKind::Uint, many: false, required: false },
            FieldDesc { id: 0x55d0, kind: FieldKind::Master(MasterId::MasteringMetadata), many: false, required: false },
        ],
        MasterId::MasteringMetadata => vec![
            FieldDesc { id: 0x55d1, kind: FieldKind::Float, many: false, required: false },
            FieldDesc { id: 0x55d2, kind: FieldKind::Float, many: false, required: false },
            FieldDesc { id: 0x55d3, kind: FieldKind::Float, many: false, required: false },
            FieldDesc { id: 0x55d4, kind: FieldKind::Float, many: false, required: false },
            FieldDesc { id: 0x55d5, kind: FieldKind::Float, many: false, required: false },
            FieldDesc { id: 0x55d6, kind: FieldKind::Float, many: false, required: false },
            FieldDesc { id: 0x55d7, kind: FieldKind::Float, many: false, required: false },
            FieldDesc { id: 0x55d8, kind: FieldKind::Float, many: false, required: false },
            FieldDesc { id: 0x55d9, kind: FieldKind::Float, many: false, required: false },
            FieldDesc { id: 0x55da, kind: FieldKind::Float, many: false, required: false },
        ],
        MasterId::Projection => vec![
            FieldDesc { id: 0x7671, kind: FieldKind::Uint, many: false, required: false },
            FieldDesc { id: 0x7672, kind: FieldKind::Binary, many: false, required: false },
            FieldDesc { id: 0x7673, kind: FieldKind::Float, many: false, required: false },
            FieldDesc { id: 0x7674, kind: FieldKind::Float, many: false, required: false },
            FieldDesc { id: 0x7675, kind: FieldKind::Float, many: false, required: false },
        ],
    };
    proof {
        assert(r@ =~= schema(m));
    }
    r
}

} // verus!
