pub mod demuxer;
pub mod ebml;
pub mod elements;
pub mod fourcc;
pub mod muxer;
pub mod permutation;
pub mod serializer;
