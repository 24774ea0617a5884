pub mod free;
pub mod ftyp;
pub mod mdat;
pub mod mdhd;
pub mod mfhd;
pub mod mvhd;
pub mod smhd;
pub mod tfdt;
pub mod tkhd;
pub mod trex;
pub mod tfhd;
pub mod stco;
pub mod url;
pub mod hdlr;
pub mod sidx;
pub mod trun;
pub mod audio_sample;
pub mod esds;
pub mod stsd;
pub mod dref;
pub mod raw;
pub mod sample_groups;
pub mod sgpd;
pub mod trep;
