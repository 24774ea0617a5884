use vstd::prelude::*;
use crate::errors::{Error, internal_error};

verus! {

/// An MPEG-4 audio object type.
#[derive(Debug, PartialEq, Eq, Structural, Clone, Copy)]
pub enum AudioObjectType {
    AacMain,
    AacLowComplexity,
    AacScalableSampleRate,
    AacLongTermPrediction,
    SpectralBandReplication,
    AACScalable,
    TwinVQ,
    CodeExcitedLinearPrediction,
    HarmonicVectorExcitationCoding,
    TextToSpeechtInterface,
    MainSynthetic,
    WavetableSynthesis,
    GeneralMIDI,
    AlgorithmicSynthesis,
    ErrorResilientAacLowComplexity,
    ErrorResilientAacLongTermPrediction,
    ErrorResilientAacScalable,
    ErrorResilientAacTwinVQ,
    ErrorResilientAacBitSlicedArithmeticCoding,
    ErrorResilientAacLowDelay,
    ErrorResilientCodeExcitedLinearPrediction,
    ErrorResilientHarmonicVectorExcitationCoding,
    ErrorResilientHarmonicIndividualLinesNoise,
    ErrorResilientParametric,
    SinuSoidalCoding,
    ParametricStereo,
    MpegSurround,
    MpegLayer1,
    MpegLayer2,
    MpegLayer3,
    DirectStreamTransfer,
    AudioLosslessCoding,
    ScalableLosslessCoding,
    ScalableLosslessCodingNoneCore,
    ErrorResilientAacEnhancedLowDelay,
    SymbolicMusicRepresentationSimple,
    SymbolicMusicRepresentationMain,
    UnifiedSpeechAudioCoding,
    SpatialAudioObjectCoding,
    LowDelayMpegSurround,
    SpatialAudioObjectCodingDialogueEnhancement,
    AudioSync,
}

impl AudioObjectType {
    /// The number that stands for the object type.
    pub open spec fn spec_code(self) -> u8 {
        match self {
            AudioObjectType::AacMain => 1,
            AudioObjectType::AacLowComplexity => 2,
            AudioObjectType::AacScalableSampleRate => 3,
            AudioObjectType::AacLongTermPrediction => 4,
            AudioObjectType::SpectralBandReplication => 5,
            AudioObjectType::AACScalable => 6,
            AudioObjectType::TwinVQ => 7,
            AudioObjectType::CodeExcitedLinearPrediction => 8,
            AudioObjectType::HarmonicVectorExcitationCoding => 9,
            AudioObjectType::TextToSpeechtInterface => 12,
            AudioObjectType::MainSynthetic => 13,
            AudioObjectType::WavetableSynthesis => 14,
            AudioObjectType::GeneralMIDI => 15,
            AudioObjectType::AlgorithmicSynthesis => 16,
            AudioObjectType::ErrorResilientAacLowComplexity => 17,
            AudioObjectType::ErrorResilientAacLongTermPrediction => 19,
            AudioObjectType::ErrorResilientAacScalable => 20,
            AudioObjectType::ErrorResilientAacTwinVQ => 21,
            AudioObjectType::ErrorResilientAacBitSlicedArithmeticCoding => 22,
            AudioObjectType::ErrorResilientAacLowDelay => 23,
            AudioObjectType::ErrorResilientCodeExcitedLinearPrediction => 24,
            AudioObjectType::ErrorResilientHarmonicVectorExcitationCoding => 25,
            AudioObjectType::ErrorResilientHarmonicIndividualLinesNoise => 26,
            AudioObjectType::ErrorResilientParametric => 27,
            AudioObjectType::SinuSoidalCoding => 28,
            AudioObjectType::ParametricStereo => 29,
            AudioObjectType::MpegSurround => 30,
            AudioObjectType::MpegLayer1 => 32,
            AudioObjectType::MpegLayer2 => 33,
            AudioObjectType::MpegLayer3 => 34,
            AudioObjectType::DirectStreamTransfer => 35,
            AudioObjectType::AudioLosslessCoding => 36,
            AudioObjectType::ScalableLosslessCoding => 37,
            AudioObjectType::ScalableLosslessCodingNoneCore => 38,
            AudioObjectType::ErrorResilientAacEnhancedLowDelay => 39,
            AudioObjectType::SymbolicMusicRepresentationSimple => 40,
            AudioObjectType::SymbolicMusicRepresentationMain => 41,
            AudioObjectType::UnifiedSpeechAudioCoding => 42,
            AudioObjectType::SpatialAudioObjectCoding => 43,
            AudioObjectType::LowDelayMpegSurround => 44,
            AudioObjectType::SpatialAudioObjectCodingDialogueEnhancement => 45,
            AudioObjectType::AudioSync => 46,
        }
    }

    /// The number that stands for the object type.
    pub fn code(&self) -> (r: u8)
        ensures
            r == self.spec_code(),
    {
        match self {
            AudioObjectType::AacMain => 1,
            AudioObjectType::AacLowComplexity => 2,
            AudioObjectType::AacScalableSampleRate => 3,
            AudioObjectType::AacLongTermPrediction => 4,
            AudioObjectType::SpectralBandReplication => 5,
            AudioObjectType::AACScalable => 6,
            AudioObjectType::TwinVQ => 7,
            AudioObjectType::CodeExcitedLinearPrediction => 8,
            AudioObjectType::HarmonicVectorExcitationCoding => 9,
            AudioObjectType::TextToSpeechtInterface => 12,
            AudioObjectType::MainSynthetic => 13,
            AudioObjectType::WavetableSynthesis => 14,
            AudioObjectType::GeneralMIDI => 15,
            AudioObjectType::AlgorithmicSynthesis => 16,
            AudioObjectType::ErrorResilientAacLowComplexity => 17,
            AudioObjectType::ErrorResilientAacLongTermPrediction => 19,
            AudioObjectType::ErrorResilientAacScalable => 20,
            AudioObjectType::ErrorResilientAacTwinVQ => 21,
            AudioObjectType::ErrorResilientAacBitSlicedArithmeticCoding => 22,
            AudioObjectType::ErrorResilientAacLowDelay => 23,
            AudioObjectType::ErrorResilientCodeExcitedLinearPrediction => 24,
            AudioObjectType::ErrorResilientHarmonicVectorExcitationCoding => 25,
            AudioObjectType::ErrorResilientHarmonicIndividualLinesNoise => 26,
            AudioObjectType::ErrorResilientParametric => 27,
            AudioObjectType::SinuSoidalCoding => 28,
            AudioObjectType::ParametricStereo => 29,
            AudioObjectType::MpegSurround => 30,
            AudioObjectType::MpegLayer1 => 32,
            AudioObjectType::MpegLayer2 => 33,
            AudioObjectType::MpegLayer3 => 34,
            AudioObjectType::DirectStreamTransfer => 35,
            AudioObjectType::AudioLosslessCoding => 36,
            AudioObjectType::ScalableLosslessCoding => 37,
            AudioObjectType::ScalableLosslessCodingNoneCore => 38,
            AudioObjectType::ErrorResilientAacEnhancedLowDelay => 39,
            AudioObjectType::SymbolicMusicRepresentationSimple => 40,
            AudioObjectType::SymbolicMusicRepresentationMain => 41,
            AudioObjectType::UnifiedSpeechAudioCoding => 42,
            AudioObjectType::SpatialAudioObjectCoding => 43,
            AudioObjectType::LowDelayMpegSurround => 44,
            AudioObjectType::SpatialAudioObjectCodingDialogueEnhancement => 45,
            AudioObjectType::AudioSync => 46,
        }
    }

    /// The object type that `value` stands for; numbers that stand for none are refused.
    pub fn try_from(value: u8) -> (r: Result<AudioObjectType, Error>)
        ensures
            r is Ok <==> exists|t: AudioObjectType| t.spec_code() == value,
            r matches Ok(t) ==> t.spec_code() == value,
            r matches Err(e) ==> e.is_internal() && e.message() == "invalid audio object type"@,
    {
        let r = match value {
            1 => Ok(AudioObjectType::AacMain),
            2 => Ok(AudioObjectType::AacLowComplexity),
            3 => Ok(AudioObjectType::AacScalableSampleRate),
            4 => Ok(AudioObjectType::AacLongTermPrediction),
            5 => Ok(AudioObjectType::SpectralBandReplication),
            6 => Ok(AudioObjectType::AACScalable),
            7 => Ok(AudioObjectType::TwinVQ),
            8 => Ok(AudioObjectType::CodeExcitedLinearPrediction),
            9 => Ok(AudioObjectType::HarmonicVectorExcitationCoding),
            12 => Ok(AudioObjectType::TextToSpeechtInterface),
            13 => Ok(AudioObjectType::MainSynthetic),
            14 => Ok(AudioObjectType::WavetableSynthesis),
            15 => Ok(AudioObjectType::GeneralMIDI),
            16 => Ok(AudioObjectType::AlgorithmicSynthesis),
            17 => Ok(AudioObjectType::ErrorResilientAacLowComplexity),
            19 => Ok(AudioObjectType::ErrorResilientAacLongTermPrediction),
            20 => Ok(AudioObjectType::ErrorResilientAacScalable),
            21 => Ok(AudioObjectType::ErrorResilientAacTwinVQ),
            22 => Ok(AudioObjectType::ErrorResilientAacBitSlicedArithmeticCoding),
            23 => Ok(AudioObjectType::ErrorResilientAacLowDelay),
            24 => Ok(AudioObjectType::ErrorResilientCodeExcitedLinearPrediction),
            25 => Ok(AudioObjectType::ErrorResilientHarmonicVectorExcitationCoding),
            26 => Ok(AudioObjectType::ErrorResilientHarmonicIndividualLinesNoise),
            27 => Ok(AudioObjectType::ErrorResilientParametric),
            28 => Ok(AudioObjectType::SinuSoidalCoding),
            29 => Ok(AudioObjectType::ParametricStereo),
            30 => Ok(AudioObjectType::MpegSurround),
            32 => Ok(AudioObjectType::MpegLayer1),
            33 => Ok(AudioObjectType::MpegLayer2),
            34 => Ok(AudioObjectType::MpegLayer3),
            35 => Ok(AudioObjectType::DirectStreamTransfer),
            36 => Ok(AudioObjectType::AudioLosslessCoding),
            37 => Ok(AudioObjectType::ScalableLosslessCoding),
            38 => Ok(AudioObjectType::ScalableLosslessCodingNoneCore),
            39 => Ok(AudioObjectType::ErrorResilientAacEnhancedLowDelay),
            40 => Ok(AudioObjectType::SymbolicMusicRepresentationSimple),
            41 => Ok(AudioObjectType::SymbolicMusicRepresentationMain),
            42 => Ok(AudioObjectType::UnifiedSpeechAudioCoding),
            43 => Ok(AudioObjectType::SpatialAudioObjectCoding),
            44 => Ok(AudioObjectType::LowDelayMpegSurround),
            45 => Ok(AudioObjectType::SpatialAudioObjectCodingDialogueEnhancement),
            46 => Ok(AudioObjectType::AudioSync),
            _ => Err(internal_error("invalid audio object type")),
        };
        proof {
            if let Ok(t) = r {
                assert(t.spec_code() == value);
            }
        }
        r
    }
}

/// No two object types share a number.
pub proof fn lemma_audio_object_type_code_injective(a: AudioObjectType, b: AudioObjectType)
    requires
        a.spec_code() == b.spec_code(),
    ensures
        a == b,
{
}

} // verus!
