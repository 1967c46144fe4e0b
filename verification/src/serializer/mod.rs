pub mod cookie_utils;
pub mod ebml;
pub mod elements;
pub mod header_roundtrip;
pub mod roundtrip;
pub mod seek_roundtrip;
pub mod block_roundtrip;
pub mod crc_roundtrip;
pub mod info_roundtrip;
pub mod size_law;
