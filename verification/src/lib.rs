//! Decoder library for a family of reverse-engineered binary 3D-asset
//! formats: two mesh-container layouts, a multi-model wrapper container and
//! a paired texture-archive format. Everything works over in-memory byte
//! buffers; callers that read from disk hand the bytes in.
//!
//! Floating-point fields of the formats are carried as their exact IEEE-754
//! bit patterns (`u32` for single precision) or as the small integers the
//! stream actually stores, so the decode stays byte-exact end to end.

pub mod bone_table;
pub mod byte_stream;
pub mod bytes_util;
pub mod error;
pub mod half_float;
pub mod mesh_data;
pub mod scr_mgrr;
pub mod texture;
pub mod windows;
pub mod wmb_mgrr;
pub mod wmb_na;
pub mod wmb_scr;
pub mod wmb;
pub mod wta_wtp;
