//! A fragmented-MP4 (DASH) audio demuxer: box parsing over byte buffers,
//! AAC configuration decoding and sample bookkeeping, with Verus contracts.

pub mod bili_api;
pub mod demux;
pub mod errors;
pub mod parsing;
pub mod player;
pub mod progress;
