use vstd::prelude::*;
use crate::errors::{Error, internal_error};

verus! {

/// The channel configuration of MPEG-4 audio: which speakers the channels feed.
#[derive(Debug, PartialEq, Eq, Structural, Clone, Copy)]
pub enum ChannelConfig {
    /// Given by the object type's own configuration.
    ObjectTypeSpecific,
    /// Front centre.
    Mono,
    /// Front left and right.
    Stereo,
    /// Front centre, left and right.
    ThreeChannels,
    /// Front centre, left and right, back centre.
    FourChannels,
    /// Front centre, left and right, back left and right.
    FiveChannels,
    /// Five channels and a low-frequency channel.
    FiveOneChannels,
    /// Seven channels and a low-frequency channel.
    SevenOneChannels,
}

impl ChannelConfig {
    /// The number that stands for the configuration.
    pub open spec fn spec_code(self) -> u8 {
        match self {
            ChannelConfig::ObjectTypeSpecific => 0,
            ChannelConfig::Mono => 1,
            ChannelConfig::Stereo => 2,
            ChannelConfig::ThreeChannels => 3,
            ChannelConfig::FourChannels => 4,
            ChannelConfig::FiveChannels => 5,
            ChannelConfig::FiveOneChannels => 6,
            ChannelConfig::SevenOneChannels => 7,
        }
    }

    /// The configuration that `value` stands for; reserved numbers are refused.
    pub fn try_from(value: u8) -> (r: Result<ChannelConfig, Error>)
        ensures
            r is Ok <==> value <= 7,
            r matches Ok(c) ==> c.spec_code() == value,
            r matches Err(e) ==> e.is_internal() && e.message() == "invalid channel configuration"@,
    {
        match value {
            0 => Ok(ChannelConfig::ObjectTypeSpecific),
            1 => Ok(ChannelConfig::Mono),
            2 => Ok(ChannelConfig::Stereo),
            3 => Ok(ChannelConfig::ThreeChannels),
            4 => Ok(ChannelConfig::FourChannels),
            5 => Ok(ChannelConfig::FiveChannels),
            6 => Ok(ChannelConfig::FiveOneChannels),
            7 => Ok(ChannelConfig::SevenOneChannels),
            _ => Err(internal_error("invalid channel configuration")),
        }
    }

    /// The number that stands for the configuration.
    pub fn code(&self) -> (r: u8)
        ensures
            r == self.spec_code(),
    {
        match *self {
            ChannelConfig::ObjectTypeSpecific => 0,
            ChannelConfig::Mono => 1,
            ChannelConfig::Stereo => 2,
            ChannelConfig::ThreeChannels => 3,
            ChannelConfig::FourChannels => 4,
            ChannelConfig::FiveChannels => 5,
            ChannelConfig::FiveOneChannels => 6,
            ChannelConfig::SevenOneChannels => 7,
        }
    }
}

} // verus!
