use vstd::prelude::*;
use super::container::{ContainerBox, DINF, EDTS, MDIA, MINF, MOOF, MOOV, MVEX, STBL, TRAF, TRAK, UDTA};
use super::spec::dref::{DREF, DataReferenceBox};
use super::spec::free::{FREE, FreeSpaceBox};
use super::spec::ftyp::{FTYP, FileTypeBox};
use super::spec::hdlr::{HDLR, HandlerBox};
use super::spec::mdat::{MDAT, MediaDataBox};
use super::spec::mdhd::{MDHD, MediaHeaderBox};
use super::spec::mfhd::{MFHD, MovieFragmentHeaderBox};
use super::spec::mvhd::{MVHD, MovieHeaderBox};
use super::spec::raw::{ELST, MEHD, META, SBGP, STSC, STSZ, STTS, UninterpretedBox};
use super::spec::sgpd::{SGPD, SampleGroupDescriptionBox};
use super::spec::sidx::{SIDX, CompressedSegmentIndexBox};
use super::spec::smhd::{SMHD, SoundMediaHeaderBox};
use super::spec::stco::{STCO, ChunkOffsetBox};
use super::spec::stsd::{STSD, SampleDescriptionBox};
use super::spec::tfdt::{TFDT, TrackFragmentBaseMediaDecodeTimeBox};
use super::spec::tfhd::{TFHD, TrackFragmentHeaderBox};
use super::spec::tkhd::{TKHD, TrackHeaderBox};
use super::spec::trep::{TREP, TrackExtensionPropertiesBox};
use super::spec::trex::{TREX, TrackExtendsBox};
use super::spec::trun::{TRUN, TrackRunBox};
use super::utils::box_type::BoxType;

verus! {

/// A parsed box.
pub enum MP4Box {
    CompressedMovie(ContainerBox),
    Track(ContainerBox),
    Edit(ContainerBox),
    Media(ContainerBox),
    MediaInformation(ContainerBox),
    DataInformation(ContainerBox),
    SampleTable(ContainerBox),
    MovieExtends(ContainerBox),
    UserData(ContainerBox),
    CompressedMovieFragment(ContainerBox),
    TrackFragment(ContainerBox),
    FileType(FileTypeBox),
    FreeSpace(FreeSpaceBox),
    MovieHeader(MovieHeaderBox),
    MovieExtendsHeader(UninterpretedBox),
    TrackExtends(TrackExtendsBox),
    TrackExtensionProperties(TrackExtensionPropertiesBox),
    TrackHeader(TrackHeaderBox),
    EditList(UninterpretedBox),
    MediaHeader(MediaHeaderBox),
    Handler(HandlerBox),
    SoundMediaHeader(SoundMediaHeaderBox),
    DataReference(DataReferenceBox),
    SampleDescription(SampleDescriptionBox),
    TimeToSample(UninterpretedBox),
    SampleToChunk(UninterpretedBox),
    SampleSize(UninterpretedBox),
    ChunkOffset(ChunkOffsetBox),
    SampleGroupDescription(SampleGroupDescriptionBox),
    Meta(UninterpretedBox),
    CompressedSegmentIndex(CompressedSegmentIndexBox),
    MovieFragmentHeader(MovieFragmentHeaderBox),
    TrackFragmentHeader(TrackFragmentHeaderBox),
    TrackFragmentBaseMediaDecodeTime(TrackFragmentBaseMediaDecodeTimeBox),
    SampleToGroup(UninterpretedBox),
    TrackRun(TrackRunBox),
    MediaData(MediaDataBox),
}

impl MP4Box {
    /// The box type code of the box.
    pub open spec fn kind(&self) -> u32 {
        match self {
            MP4Box::CompressedMovie(_) => MOOV,
            MP4Box::Track(_) => TRAK,
            MP4Box::Edit(_) => EDTS,
            MP4Box::Media(_) => MDIA,
            MP4Box::MediaInformation(_) => MINF,
            MP4Box::DataInformation(_) => DINF,
            MP4Box::SampleTable(_) => STBL,
            MP4Box::MovieExtends(_) => MVEX,
            MP4Box::UserData(_) => UDTA,
            MP4Box::CompressedMovieFragment(_) => MOOF,
            MP4Box::TrackFragment(_) => TRAF,
            MP4Box::FileType(_) => FTYP,
            MP4Box::FreeSpace(_) => FREE,
            MP4Box::MovieHeader(_) => MVHD,
            MP4Box::MovieExtendsHeader(_) => MEHD,
            MP4Box::TrackExtends(_) => TREX,
            MP4Box::TrackExtensionProperties(_) => TREP,
            MP4Box::TrackHeader(_) => TKHD,
            MP4Box::EditList(_) => ELST,
            MP4Box::MediaHeader(_) => MDHD,
            MP4Box::Handler(_) => HDLR,
            MP4Box::SoundMediaHeader(_) => SMHD,
            MP4Box::DataReference(_) => DREF,
            MP4Box::SampleDescription(_) => STSD,
            MP4Box::TimeToSample(_) => STTS,
            MP4Box::SampleToChunk(_) => STSC,
            MP4Box::SampleSize(_) => STSZ,
            MP4Box::ChunkOffset(_) => STCO,
            MP4Box::SampleGroupDescription(_) => SGPD,
            MP4Box::Meta(_) => META,
            MP4Box::CompressedSegmentIndex(_) => SIDX,
            MP4Box::MovieFragmentHeader(_) => MFHD,
            MP4Box::TrackFragmentHeader(_) => TFHD,
            MP4Box::TrackFragmentBaseMediaDecodeTime(_) => TFDT,
            MP4Box::SampleToGroup(_) => SBGP,
            MP4Box::TrackRun(_) => TRUN,
            MP4Box::MediaData(_) => MDAT,
        }
    }

    /// The box type of the box.
    pub fn box_type(&self) -> (r: BoxType)
        ensures
            r.0 == self.kind(),
    {
        let code = match self {
            MP4Box::CompressedMovie(_) => MOOV,
            MP4Box::Track(_) => TRAK,
            MP4Box::Edit(_) => EDTS,
            MP4Box::Media(_) => MDIA,
            MP4Box::MediaInformation(_) => MINF,
            MP4Box::DataInformation(_) => DINF,
            MP4Box::SampleTable(_) => STBL,
            MP4Box::MovieExtends(_) => MVEX,
            MP4Box::UserData(_) => UDTA,
            MP4Box::CompressedMovieFragment(_) => MOOF,
            MP4Box::TrackFragment(_) => TRAF,
            MP4Box::FileType(_) => FTYP,
            MP4Box::FreeSpace(_) => FREE,
            MP4Box::MovieHeader(_) => MVHD,
            MP4Box::MovieExtendsHeader(_) => MEHD,
            MP4Box::TrackExtends(_) => TREX,
            MP4Box::TrackExtensionProperties(_) => TREP,
            MP4Box::TrackHeader(_) => TKHD,
            MP4Box::EditList(_) => ELST,
            MP4Box::MediaHeader(_) => MDHD,
            MP4Box::Handler(_) => HDLR,
            MP4Box::SoundMediaHeader(_) => SMHD,
            MP4Box::DataReference(_) => DREF,
            MP4Box::SampleDescription(_) => STSD,
            MP4Box::TimeToSample(_) => STTS,
            MP4Box::SampleToChunk(_) => STSC,
            MP4Box::SampleSize(_) => STSZ,
            MP4Box::ChunkOffset(_) => STCO,
            MP4Box::SampleGroupDescription(_) => SGPD,
            MP4Box::Meta(_) => META,
            MP4Box::CompressedSegmentIndex(_) => SIDX,
            MP4Box::MovieFragmentHeader(_) => MFHD,
            MP4Box::TrackFragmentHeader(_) => TFHD,
            MP4Box::TrackFragmentBaseMediaDecodeTime(_) => TFDT,
            MP4Box::SampleToGroup(_) => SBGP,
            MP4Box::TrackRun(_) => TRUN,
            MP4Box::MediaData(_) => MDAT,
        };
        BoxType(code)
    }
}

} // verus!
